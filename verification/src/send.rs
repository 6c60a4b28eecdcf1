//! Sending: the envelope that an agent's `send` request puts into the room, and
//! the reply to it.
use vstd::prelude::*;
use vstd::string::*;

use crate::completion;
use crate::envelope;
use crate::envelope::{Envelope, EnvelopeView};
use crate::json;
use crate::json::{Json, Tree};
use crate::text;
use crate::text::{chars_of, debug_form, same};

verus! {

/// What a `send` request comes to: the envelope, and the type that was asked
/// for when it is not the one the envelope has.
#[derive(Debug)]
pub struct OutboundSend {
    pub env: Envelope,
    pub degraded_from: Option<String>,
}

/// The model of an outbound message.
pub struct OutboundView {
    pub env: EnvelopeView,
    pub degraded_from: Option<Seq<char>>,
}

impl View for OutboundSend {
    type V = OutboundView;

    open spec fn view(&self) -> OutboundView {
        OutboundView { env: self.env@, degraded_from: json::opt_view(self.degraded_from) }
    }
}

/// The models of a result and of a message in words.
pub open spec fn outbound_result(r: Result<OutboundSend, String>) -> Result<OutboundView, Seq<char>> {
    match r {
        Ok(out) => Ok(out@),
        Err(message) => Err(message@),
    }
}

/// Whether `c` may stand in a task id.
pub open spec fn is_task_char(c: char) -> bool {
    'a' <= c <= 'z' || 'A' <= c <= 'Z' || '0' <= c <= '9' || c == '_'
}

/// Whether `s` is a task id: nothing but `[A-Za-z0-9_]`.
pub open spec fn is_task_id(s: Seq<char>) -> bool {
    forall|i: int| 0 <= i < s.len() ==> is_task_char(#[trigger] s[i])
}

fn task_id_ok(s: &str) -> (r: bool)
    ensures
        r == is_task_id(s@),
{
    let v = chars_of(s);
    let mut i: usize = 0;
    while i < v.len()
        invariant
            i <= v@.len(),
            v@ == s@,
            forall|j: int| 0 <= j < i ==> is_task_char(#[trigger] v@[j]),
        decreases v@.len() - i,
    {
        let c = v[i];
        if !(('a' <= c && c <= 'z') || ('A' <= c && c <= 'Z') || ('0' <= c && c <= '9') || c == '_') {
            return false;
        }
        i = i + 1;
    }
    true
}

/// The type that a request asks for: `chat` when it names none.
pub open spec fn requested_type(req: Tree) -> Seq<char> {
    match json::text_field(req, "type"@) {
        Some(kind) => kind,
        None => "chat"@,
    }
}

/// What is wrong with the request's metadata, if anything: it has a place in a
/// completion alone, and there it has to be valid.
pub open spec fn meta_fault(req: Tree) -> Option<Seq<char>> {
    let requested = requested_type(req);
    let kind = envelope::degraded(requested);
    match envelope::optional_field(req, "meta"@) {
        Some(meta) => if kind != "completion"@ {
            Some("`meta` is only valid for type \"completion\", not "@ + text::debug_text(requested))
        } else {
            match completion::completion_fault(meta) {
                Some(fault) => Some("invalid completion-v1 meta: "@ + fault),
                None => None,
            }
        },
        None => if kind == "completion"@ {
            Some("type \"completion\" requires a `meta` object (completion-v1)"@)
        } else {
            None
        },
    }
}

/// What is wrong with a `send` request, if anything.
pub open spec fn send_fault(req: Tree) -> Option<Seq<char>> {
    let task_id = json::text_field(req, "task_id"@);
    if json::text_field(req, "to"@) is None {
        Some("send requires `to`"@)
    } else if json::text_field(req, "body"@) is None {
        Some("send requires `body`"@)
    } else if json::text_field(req, "body"@)->0.len() == 0 {
        Some("send requires a non-empty `body`"@)
    } else if task_id is Some && !is_task_id(task_id->0) {
        Some("task_id must be [A-Za-z0-9_]"@)
    } else {
        meta_fault(req)
    }
}

/// The message that a `send` request of the persona asks for.
pub open spec fn outbound(persona: Seq<char>, req: Tree) -> OutboundView {
    let requested = requested_type(req);
    let kind = envelope::degraded(requested);
    OutboundView {
        env: EnvelopeView {
            v: 1,
            from: persona,
            to: json::text_field(req, "to"@)->0,
            kind,
            task_id: json::text_field(req, "task_id"@),
            body: json::text_field(req, "body"@)->0,
            wake: json::bool_field(req, "wake"@),
            meta: envelope::optional_field(req, "meta"@),
            rest: Map::empty(),
        },
        degraded_from: if kind == requested {
            None
        } else {
            Some(requested)
        },
    }
}

/// What a `send` request of the persona comes to.
pub open spec fn send_result(persona: Seq<char>, req: Tree) -> Result<OutboundView, Seq<char>> {
    match send_fault(req) {
        Some(fault) => Err(fault),
        None => Ok(outbound(persona, req)),
    }
}

/// The envelope for a `send` request of the persona, who is known by the
/// connection. A type that is not understood counts as `chat`, and that is
/// told; metadata that does not fit is refused.
pub fn build_send_envelope(persona: &str, req: &Json) -> (r: Result<OutboundSend, String>)
    ensures
        outbound_result(r) == send_result(persona@, req@),
{
    let to = match req.get_str("to") {
        Some(s) => s.to_owned(),
        None => {
            return Err("send requires `to`".to_owned());
        },
    };
    let body = match req.get_str("body") {
        Some(s) => s.to_owned(),
        None => {
            return Err("send requires `body`".to_owned());
        },
    };
    if chars_of(body.as_str()).len() == 0 {
        return Err("send requires a non-empty `body`".to_owned());
    }
    let requested = match req.get_str("type") {
        Some(s) => s.to_owned(),
        None => "chat".to_owned(),
    };
    let kind = envelope::degrade_unknown_type(requested.as_str());
    let degraded_from = if same(kind.as_str(), requested.as_str()) {
        None
    } else {
        Some(requested.clone())
    };
    let task_id = match req.get_str("task_id") {
        Some(s) => {
            if !task_id_ok(s) {
                return Err("task_id must be [A-Za-z0-9_]".to_owned());
            }
            Some(s.to_owned())
        },
        None => None,
    };
    let wake = req.get_bool("wake");
    let is_completion = same(kind.as_str(), "completion");
    let given = match req.get("meta") {
        Some(m) => if m.is_null() {
            None
        } else {
            Some(m)
        },
        None => None,
    };
    let meta = match given {
        Some(m) => {
            if !is_completion {
                let mut message = "`meta` is only valid for type \"completion\", not ".to_owned();
                message.append(debug_form(requested.as_str()).as_str());
                return Err(message);
            }
            match completion::validate_completion_meta(m) {
                Ok(()) => {},
                Err(fault) => {
                    let mut message = "invalid completion-v1 meta: ".to_owned();
                    message.append(fault.as_str());
                    return Err(message);
                },
            }
            Some(m.clone())
        },
        None => {
            if is_completion {
                return Err("type \"completion\" requires a `meta` object (completion-v1)".to_owned());
            }
            None
        },
    };
    Ok(
        OutboundSend {
            env: Envelope { v: 1, from: persona.to_owned(), to, kind, task_id, body, wake, meta, rest: Vec::new() },
            degraded_from,
        },
    )
}

/// The fields of the reply to a `send` request.
pub open spec fn send_reply_pairs(
    event_id: Seq<char>,
    room_id: Seq<char>,
    kind: Seq<char>,
    degraded_from: Option<Seq<char>>,
) -> Seq<(Seq<char>, Tree)> {
    seq![
        ("ok"@, Tree::Bool(true)),
        ("event_id"@, Tree::Text(event_id)),
        ("room_id"@, Tree::Text(room_id)),
        ("type"@, Tree::Text(kind)),
    ] + envelope::optional_pair("degraded_from"@, envelope::optional_text(degraded_from))
}

/// The reply to a `send` request: the event, the room, the type that was sent,
/// and the one that was asked for when it is another.
pub fn send_reply(event_id: &str, room_id: &str, kind: &str, degraded_from: Option<&str>) -> (j: Json)
    ensures
        j@ == json::object(send_reply_pairs(event_id@, room_id@, kind@, envelope::opt_str(degraded_from))),
{
    let mut fields = vec![
        json::pair("ok", Json::Bool(true)),
        json::pair("event_id", Json::text(event_id)),
        json::pair("room_id", Json::text(room_id)),
        json::pair("type", Json::text(kind)),
    ];
    match degraded_from {
        Some(requested) => {
            fields.push(json::pair("degraded_from", Json::text(requested)));
        },
        None => {},
    }
    proof {
        assert(json::tree_pairs(fields@) =~= send_reply_pairs(
            event_id@,
            room_id@,
            kind@,
            envelope::opt_str(degraded_from),
        ));
    }
    Json::Object(fields)
}

/// A message is from the persona of the connection, whatever the request says:
/// requests that differ in `from` alone come to the same.
pub proof fn law_from_is_the_connection(persona: Seq<char>, req: Map<Seq<char>, Tree>, from: Tree)
    ensures
        send_result(persona, Tree::Object(req.insert("from"@, from))) == send_result(persona, Tree::Object(req)),
        send_result(persona, Tree::Object(req)) matches Ok(out) ==> out.env.from == persona,
{
    reveal_strlit("from");
    reveal_strlit("to");
    reveal_strlit("body");
    reveal_strlit("type");
    reveal_strlit("task_id");
    reveal_strlit("wake");
    reveal_strlit("meta");
    assert("from"@.len() == 4 && "to"@.len() == 2 && "task_id"@.len() == 7);
    assert("from"@[0] == 'f' && "body"@[0] == 'b' && "type"@[0] == 't' && "wake"@[0] == 'w' && "meta"@[0] == 'm');
    let spoofed = Tree::Object(req.insert("from"@, from));
    let honest = Tree::Object(req);
    assert(json::field(spoofed, "to"@) == json::field(honest, "to"@));
    assert(json::field(spoofed, "body"@) == json::field(honest, "body"@));
    assert(json::field(spoofed, "type"@) == json::field(honest, "type"@));
    assert(json::field(spoofed, "task_id"@) == json::field(honest, "task_id"@));
    assert(json::field(spoofed, "wake"@) == json::field(honest, "wake"@));
    assert(json::field(spoofed, "meta"@) == json::field(honest, "meta"@));
}

/// What is sent is dispatched as it is by the hosts that receive it, but for
/// the hint of a message to everyone: its type is understood, and a completion
/// has valid metadata.
pub proof fn law_sent_messages_are_dispatched_as_sent(persona: Seq<char>, req: Tree)
    ensures
        send_result(persona, req) matches Ok(out) ==> {
            &&& envelope::ingested(out.env).kind == out.env.kind
            &&& out.env.to != "*"@ ==> envelope::ingested(out.env) == out.env
        },
{
    assert(envelope::known_type_list()[0] == "chat"@);
}

/// A degrade is told exactly when there was one, and the message then is a chat
/// message.
pub proof fn law_degrades_are_told(persona: Seq<char>, req: Tree)
    ensures
        send_result(persona, req) matches Ok(out) ==> {
            &&& out.degraded_from is Some <==> !envelope::is_known_type(requested_type(req))
            &&& out.degraded_from is Some ==> out.env.kind == "chat"@ && out.degraded_from->0 == requested_type(
                req,
            )
        },
{
    assert(envelope::known_type_list()[0] == "chat"@);
}

} // verus!
