//! An agent's connection: one JSON request per line, one JSON reply per line.
//! The first request names the persona, and the connection then is that
//! persona.
use vstd::prelude::*;
use vstd::string::*;

use crate::envelope;
use crate::json;
use crate::json::{Json, Tree};
use crate::registry::{Registry, RegistryView};
use crate::text;
use crate::text::{contains_text, debug_form, same, trim};

verus! {

/// What is known of a connection.
#[derive(Debug)]
pub struct ConnState {
    /// Its number in the registry.
    pub conn_id: Option<u64>,
    /// The persona that it is.
    pub persona: Option<String>,
}

/// The model of a connection.
#[verifier::ext_equal]
pub struct ConnStateView {
    pub conn_id: Option<u64>,
    pub persona: Option<Seq<char>>,
}

impl View for ConnState {
    type V = ConnStateView;

    open spec fn view(&self) -> ConnStateView {
        ConnStateView { conn_id: self.conn_id, persona: json::opt_view(self.persona) }
    }
}

/// What a line comes to.
#[derive(Debug)]
pub enum LineStep {
    /// Nothing.
    Nothing,
    /// This reply.
    Reply(Json),
    /// The operation is to be carried out for the persona, and the reply made
    /// of its result.
    Run { op: String, req: Json, persona: String },
}

/// The model of what a line comes to.
pub enum StepView {
    Nothing,
    Reply(Tree),
    Run { op: Seq<char>, req: Tree, persona: Seq<char> },
}

impl View for LineStep {
    type V = StepView;

    open spec fn view(&self) -> StepView {
        match self {
            LineStep::Nothing => StepView::Nothing,
            LineStep::Reply(reply) => StepView::Reply(reply@),
            LineStep::Run { op, req, persona } => StepView::Run { op: op@, req: req@, persona: persona@ },
        }
    }
}

/// Who the daemon is in the room, as far as it is logged in.
pub struct DaemonIdentity {
    pub user_id: Option<String>,
    pub device_id: Option<String>,
}

/// The reply that something went wrong.
pub open spec fn error_pairs(message: Seq<char>) -> Seq<(Seq<char>, Tree)> {
    seq![("ok"@, Tree::Bool(false)), ("error"@, Tree::Text(message))]
}

/// The reply that something went wrong.
pub fn error_reply(message: &str) -> (j: Json)
    ensures
        j@ == json::object(error_pairs(message@)),
{
    let fields = vec![json::pair("ok", Json::Bool(false)), json::pair("error", Json::text(message))];
    proof {
        assert(json::tree_pairs(fields@) =~= error_pairs(message@));
    }
    Json::Object(fields)
}

/// The id that a request carries; null when it carries none.
pub open spec fn request_id(req: Tree) -> Tree {
    match json::field(req, "id"@) {
        Some(id) => id,
        None => Tree::Null,
    }
}

/// The operation that a request names; empty when it names none.
pub open spec fn request_op(req: Tree) -> Seq<char> {
    match json::text_field(req, "op"@) {
        Some(op) => op,
        None => Seq::empty(),
    }
}

/// The reply with the id of the request.
pub open spec fn with_id(reply: Tree, req: Tree) -> Tree {
    match reply {
        Tree::Object(fields) => Tree::Object(fields.insert("id"@, request_id(req))),
        _ => reply,
    }
}

fn put_id(reply: Json, req: &Json) -> (r: Json)
    ensures
        r@ == with_id(reply@, req@),
{
    let id = match req.get("id") {
        Some(id) => id.clone(),
        None => Json::Null,
    };
    match reply {
        Json::Object(fields) => {
            let ghost before = json::tree_pairs(fields@);
            let mut fields = fields;
            fields.push(json::pair("id", id));
            proof {
                let after = json::tree_pairs(fields@);
                assert(after.drop_last() =~= before);
                assert(after.last() == ("id"@, id@));
            }
            Json::Object(fields)
        },
        other => other,
    }
}

/// The reply to a request whose operation came to the result.
pub open spec fn op_result_reply(req: Tree, result: Result<Tree, Seq<char>>) -> Tree {
    with_id(
        match result {
            Ok(reply) => reply,
            Err(message) => json::object(error_pairs(message)),
        },
        req,
    )
}

/// The reply to a request whose operation came to the result.
pub fn op_reply(req: &Json, result: Result<Json, String>) -> (j: Json)
    ensures
        j@ == op_result_reply(req@, json::parse_view(result)),
{
    match result {
        Ok(reply) => put_id(reply, req),
        Err(message) => put_id(error_reply(message.as_str()), req),
    }
}

/// The fields of the reply to a persona that is let in.
pub open spec fn hello_pairs(me: DaemonIdentity) -> Seq<(Seq<char>, Tree)> {
    seq![
        ("ok"@, Tree::Bool(true)),
        ("user_id"@, json::optional_text_tree(json::opt_view(me.user_id))),
        ("device_id"@, json::optional_text_tree(json::opt_view(me.device_id))),
        ("known_types"@, json::texts_tree(envelope::known_type_list())),
    ]
}

fn hello_reply(me: &DaemonIdentity) -> (j: Json)
    ensures
        j@ == json::object(hello_pairs(*me)),
{
    let types = envelope::known_types();
    let fields = vec![
        json::pair("ok", Json::Bool(true)),
        json::pair("user_id", Json::optional_text(&me.user_id)),
        json::pair("device_id", Json::optional_text(&me.device_id)),
        json::pair("known_types", Json::texts(types.as_slice())),
    ];
    proof {
        assert(json::tree_pairs(fields@) =~= hello_pairs(*me));
    }
    Json::Object(fields)
}

/// The registry, the connection and what is to be done after a request.
#[verifier::ext_equal]
pub struct Served {
    pub registry: RegistryView,
    pub conn: ConnStateView,
    pub step: StepView,
}

/// Whether the persona may connect: it is a persona's name, and configured.
pub open spec fn may_connect(r: RegistryView, persona: Seq<char>) -> bool {
    envelope::is_persona(persona) && text::listed(r.personas, persona)
}

/// What a `hello` request comes to.
pub open spec fn greeted(r: RegistryView, c: ConnStateView, req: Tree, me: DaemonIdentity) -> Served {
    let refused = |message: Seq<char>|
        Served {
            registry: r,
            conn: c,
            step: StepView::Reply(with_id(json::object(error_pairs(message)), req)),
        };
    match json::text_field(req, "persona"@) {
        Some(persona) => if !may_connect(r, persona) {
            refused(
                "persona "@ + text::debug_text(persona) + " not in allowlist (config `personas`)"@,
            )
        } else if r.next_id == u64::MAX {
            refused("no connection number left"@)
        } else {
            Served {
                registry: r.with_conn(persona),
                conn: ConnStateView { conn_id: Some(r.next_id), persona: Some(persona) },
                step: StepView::Reply(with_id(json::object(hello_pairs(me)), req)),
            }
        },
        None => refused("hello requires persona"@),
    }
}

/// What a request comes to. `hello` and `status` are for everyone; anything
/// else needs a persona.
pub open spec fn served(r: RegistryView, c: ConnStateView, req: Tree, me: DaemonIdentity, now: u64) -> Served {
    let op = request_op(req);
    if op == "hello"@ {
        greeted(r, c, req, me)
    } else if op == "status"@ {
        Served {
            registry: r,
            conn: c,
            step: StepView::Reply(with_id(json::object(r.status_pairs(now)), req)),
        }
    } else {
        Served {
            registry: r,
            conn: c,
            step: match c.persona {
                None => StepView::Reply(with_id(json::object(error_pairs("hello first"@)), req)),
                Some(persona) => StepView::Run { op, req, persona },
            },
        }
    }
}

fn greet(registry: &mut Registry, conn: &mut ConnState, req: &Json, me: &DaemonIdentity) -> (step: LineStep)
    requires
        old(registry)@.well_formed(),
    ensures
        final(registry)@.well_formed(),
        (Served { registry: final(registry)@, conn: final(conn)@, step: step@ }) == greeted(
            old(registry)@,
            old(conn)@,
            req@,
            *me,
        ),
{
    let persona = match req.get_str("persona") {
        Some(persona) => persona,
        None => {
            return LineStep::Reply(put_id(error_reply("hello requires persona"), req));
        },
    };
    if !envelope::valid_persona(persona) || !contains_text(registry.personas(), persona) {
        let mut message = "persona ".to_owned();
        message.append(debug_form(persona).as_str());
        message.append(" not in allowlist (config `personas`)");
        return LineStep::Reply(put_id(error_reply(message.as_str()), req));
    }
    match registry.connect(persona) {
        Some(id) => {
            conn.conn_id = Some(id);
            conn.persona = Some(persona.to_owned());
            LineStep::Reply(put_id(hello_reply(me), req))
        },
        None => LineStep::Reply(put_id(error_reply("no connection number left"), req)),
    }
}

/// Serves the request as far as it needs nothing of the room.
pub fn on_request(
    registry: &mut Registry,
    conn: &mut ConnState,
    req: Json,
    me: &DaemonIdentity,
    now: u64,
) -> (step: LineStep)
    requires
        old(registry)@.well_formed(),
    ensures
        final(registry)@.well_formed(),
        (Served { registry: final(registry)@, conn: final(conn)@, step: step@ }) == served(
            old(registry)@,
            old(conn)@,
            req@,
            *me,
            now,
        ),
{
    let op = match req.get_str("op") {
        Some(op) => op.to_owned(),
        None => {
            let none = String::new();
            proof {
                assert(none@ =~= Seq::empty());
            }
            none
        },
    };
    if same(op.as_str(), "hello") {
        return greet(registry, conn, &req, me);
    }
    if same(op.as_str(), "status") {
        return LineStep::Reply(put_id(registry.status(now), &req));
    }
    match &conn.persona {
        None => LineStep::Reply(put_id(error_reply("hello first"), &req)),
        Some(persona) => LineStep::Run { op, req, persona: persona.clone() },
    }
}

/// What a line comes to. A blank one is passed over, and one that is not JSON
/// is answered as such; the connection goes on.
pub open spec fn line_served(
    r: RegistryView,
    c: ConnStateView,
    line: Seq<char>,
    me: DaemonIdentity,
    now: u64,
) -> Served {
    if text::trimmed(line).len() == 0 {
        Served { registry: r, conn: c, step: StepView::Nothing }
    } else {
        match json::parsed(line) {
            Err(message) => Served {
                registry: r,
                conn: c,
                step: StepView::Reply(json::object(error_pairs("bad json: "@ + message))),
            },
            Ok(req) => served(r, c, req, me, now),
        }
    }
}

/// Serves the line as far as it needs nothing of the room.
pub fn on_line(
    registry: &mut Registry,
    conn: &mut ConnState,
    line: &str,
    me: &DaemonIdentity,
    now: u64,
) -> (step: LineStep)
    requires
        old(registry)@.well_formed(),
    ensures
        final(registry)@.well_formed(),
        (Served { registry: final(registry)@, conn: final(conn)@, step: step@ }) == line_served(
            old(registry)@,
            old(conn)@,
            line@,
            *me,
            now,
        ),
{
    if text::chars_of(trim(line).as_str()).len() == 0 {
        return LineStep::Nothing;
    }
    match Json::parse(line) {
        Ok(req) => on_request(registry, conn, req, me, now),
        Err(message) => {
            let mut error = "bad json: ".to_owned();
            error.append(message.as_str());
            LineStep::Reply(error_reply(error.as_str()))
        },
    }
}

/// The registry after the connection ended.
pub open spec fn closed(r: RegistryView, c: ConnStateView) -> RegistryView {
    match c.conn_id {
        Some(id) => r.without_conn(id),
        None => r,
    }
}

/// Takes the connection out of the registry when it ends.
pub fn on_close(registry: &mut Registry, conn: &ConnState)
    requires
        old(registry)@.well_formed(),
    ensures
        final(registry)@.well_formed(),
        final(registry)@ == closed(old(registry)@, conn@),
        final(registry)@ == match conn@.conn_id {
            Some(id) => old(registry)@.without_conn(id),
            None => old(registry)@,
        },
{
    match conn.conn_id {
        Some(id) => registry.disconnect(id),
        None => {},
    }
}

/// Every reply to a request carries the request's id.
pub proof fn law_replies_echo_the_id(
    r: RegistryView,
    c: ConnStateView,
    req: Tree,
    me: DaemonIdentity,
    now: u64,
    result: Result<Tree, Seq<char>>,
)
    requires
        result matches Ok(reply) ==> reply is Object,
    ensures
        served(r, c, req, me, now).step matches StepView::Reply(reply) ==> json::field(reply, "id"@) == Some(
            request_id(req),
        ),
        json::field(op_result_reply(req, result), "id"@) == Some(request_id(req)),
{
}

/// Without a persona nothing is carried out: the registry stays as it is, and
/// no operation runs.
pub proof fn law_operations_need_a_persona(
    r: RegistryView,
    c: ConnStateView,
    req: Tree,
    me: DaemonIdentity,
    now: u64,
)
    requires
        c.persona is None,
        request_op(req) != "hello"@,
    ensures
        served(r, c, req, me, now).registry == r,
        served(r, c, req, me, now).conn == c,
        !(served(r, c, req, me, now).step is Run),
{
}

/// An operation runs for the persona of the connection, and a connection is
/// given none but a configured one with a proper name.
pub proof fn law_the_connection_is_the_identity(
    r: RegistryView,
    c: ConnStateView,
    req: Tree,
    me: DaemonIdentity,
    now: u64,
)
    ensures
        served(r, c, req, me, now).step matches StepView::Run { persona, .. } ==> c.persona == Some(persona),
        served(r, c, req, me, now).conn.persona != c.persona ==> {
            &&& served(r, c, req, me, now).conn.persona is Some
            &&& may_connect(r, served(r, c, req, me, now).conn.persona->0)
        },
{
}

} // verus!
