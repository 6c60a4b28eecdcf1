//! Messages: whom what a person types is for, how an envelope is shown, and how
//! it stands on the wire.
use vstd::prelude::*;
use vstd::string::*;

use crate::completion;
use crate::envelope;
use crate::envelope::{EnvelopeView, InboundView};
use crate::json;
use crate::json::Tree;
use crate::laws::texts::law_trimming;
use crate::text;

verus! {

/// Whether the text, behind a leading `@`, is the token by which a message
/// addresses someone: there is something, and white space, a colon or a comma
/// ends it.
pub open spec fn is_token(token: Seq<char>, behind: Seq<char>) -> bool {
    &&& token.len() > 0
    &&& forall|i: int|
        0 <= i < token.len() ==> !text::is_space(#[trigger] token[i]) && token[i] != ':' && token[i] != ','
    &&& behind.len() > 0 ==> text::is_space(behind[0]) || behind[0] == ':' || behind[0] == ','
}

/// The token is what stands between the `@` and the first thing that ends it.
proof fn lemma_token(token: Seq<char>, behind: Seq<char>)
    requires
        is_token(token, behind),
    ensures
        envelope::address_token(seq!['@'] + token + behind) == token,
{
    let body = seq!['@'] + token + behind;
    let rest = body.skip(1);
    assert(rest =~= token + behind);
    assert forall|j: int| 0 <= j < token.len() implies !envelope::ends_token()(#[trigger] rest[j]) by {
        assert(rest[j] == token[j]);
    }
    if behind.len() > 0 {
        assert(rest[token.len() as int] == behind[0]);
    }
    text::lemma_run_before(rest, envelope::ends_token(), token.len() as int);
    assert(rest.take(token.len() as int) =~= token);
}

/// A message that begins with `@` and the name of a persona, in which hyphens
/// count as underscores, is for that persona and is to wake it. What it says is
/// all that stands behind the name and the colons and commas that follow it, but
/// for the white space at both ends.
pub proof fn law_addressed_messages_keep_their_text(
    sender: Seq<char>,
    token: Seq<char>,
    separators: Seq<char>,
    lead: Seq<char>,
    said: Seq<char>,
    trail: Seq<char>,
    persona: Seq<char>,
    personas: Seq<String>,
    thread_agent: Option<Seq<char>>,
)
    requires
        is_token(token, separators + lead + said + trail),
        persona.len() == token.len(),
        forall|i: int|
            0 <= i < token.len() ==> #[trigger] persona[i] == if token[i] == '-' {
                '_'
            } else {
                token[i]
            },
        text::listed(personas, persona),
        forall|i: int|
            0 <= i < separators.len() ==> #[trigger] separators[i] == ':' || separators[i] == ',',
        forall|i: int| 0 <= i < lead.len() ==> text::is_space(#[trigger] lead[i]),
        forall|i: int| 0 <= i < trail.len() ==> text::is_space(#[trigger] trail[i]),
        said.len() > 0 ==> !text::is_space(said[0]) && !text::is_space(said.last()),
        lead.len() == 0 && said.len() > 0 ==> said[0] != ':' && said[0] != ',',
    ensures
        ({
            let body = seq!['@'] + token + (separators + lead + said + trail);
            let (env, unknown) = envelope::synthesized(sender, body, personas, thread_agent);
            &&& env.from == sender
            &&& env.to == persona
            &&& env.body == said
            &&& env.v == 1
            &&& env.kind == "chat"@
            &&& env.task_id is None
            &&& env.wake == Some(true)
            &&& env.meta is None
            &&& env.rest == Map::<Seq<char>, Tree>::empty()
            &&& unknown is None
        }),
{
    let behind = separators + lead + said + trail;
    let body = seq!['@'] + token + behind;
    lemma_token(token, behind);
    assert(text::with_char(token, '-', '_') =~= persona);
    let rest = body.skip(1 + token.len() as int);
    assert(rest =~= behind);
    let n = separators.len() as int;
    assert forall|j: int| 0 <= j < n implies !envelope::not_a_separator()(#[trigger] rest[j]) by {
        assert(rest[j] == separators[j]);
    }
    if n < rest.len() {
        if lead.len() > 0 {
            assert(rest[n] == lead[0]);
            assert(text::is_space(lead[0]));
        } else if said.len() > 0 {
            assert(rest[n] == said[0]);
        } else {
            assert(rest[n] == trail[0]);
            assert(text::is_space(trail[0]));
        }
    }
    text::lemma_run_before(rest, envelope::not_a_separator(), n);
    assert(rest.skip(n) =~= lead + said + trail);
    law_trimming(lead, said, trail);
}

/// A message that begins with `@` and a name that is no persona's is for
/// everyone, whole, wakes nobody, and the name is told.
pub proof fn law_unknown_names_reach_everyone(
    sender: Seq<char>,
    token: Seq<char>,
    behind: Seq<char>,
    personas: Seq<String>,
    thread_agent: Option<Seq<char>>,
)
    requires
        is_token(token, behind),
        forall|k: int|
            0 <= k < personas.len() ==> !((#[trigger] personas[k])@.len() == token.len() && forall|i: int|
                0 <= i < token.len() ==> personas[k]@[i] == (if #[trigger] token[i] == '-' {
                    '_'
                } else {
                    token[i]
                })),
    ensures
        ({
            let body = seq!['@'] + token + behind;
            let (env, unknown) = envelope::synthesized(sender, body, personas, thread_agent);
            &&& unknown == Some(token)
            &&& is_broadcast(env, sender, body)
        }),
{
    let body = seq!['@'] + token + behind;
    lemma_token(token, behind);
    let persona = text::with_char(token, '-', '_');
    if text::listed(personas, persona) {
        let k = choose|k: int| 0 <= k < personas.len() && #[trigger] personas[k]@ == persona;
        assert forall|i: int| 0 <= i < token.len() implies personas[k]@[i] == (if #[trigger] token[i] == '-' {
            '_'
        } else {
            token[i]
        }) by {}
    }
}

/// Whether the envelope is the sender's chat message to everyone, which is to
/// wake nobody.
pub open spec fn is_broadcast(env: EnvelopeView, sender: Seq<char>, body: Seq<char>) -> bool {
    &&& env.v == 1
    &&& env.from == sender
    &&& env.to == "*"@
    &&& env.kind == "chat"@
    &&& env.task_id is None
    &&& env.body == body
    &&& env.wake == Some(false)
    &&& env.meta is None
    &&& env.rest == Map::<Seq<char>, Tree>::empty()
}

/// A message that addresses nobody, one with a lone `@` among them, is for the
/// agent of its thread; outside a thread it is for everyone. Either way it is
/// whole.
pub proof fn law_unaddressed_messages(sender: Seq<char>, body: Seq<char>, personas: Seq<String>, agent: Seq<char>)
    requires
        body.len() == 0 || body[0] != '@' || body.len() == 1 || text::is_space(body[1]) || body[1] == ':' || body[1]
            == ',',
    ensures
        ({
            let (env, unknown) = envelope::synthesized(sender, body, personas, Some(agent));
            &&& env.to == agent
            &&& env.from == sender
            &&& env.body == body
            &&& env.v == 1
            &&& env.kind == "chat"@
            &&& env.task_id is None
            &&& env.wake is None
            &&& env.meta is None
            &&& env.rest == Map::<Seq<char>, Tree>::empty()
            &&& unknown is None
        }),
        ({
            let (env, unknown) = envelope::synthesized(sender, body, personas, None);
            is_broadcast(env, sender, body) && unknown is None
        }),
        is_broadcast(envelope::broadcast_view(sender, body), sender, body),
{
    if body.len() > 0 && body[0] == '@' {
        let rest = body.skip(1);
        if rest.len() > 0 {
            assert(rest[0] == body[1]);
        }
        text::lemma_run_before(rest, envelope::ends_token(), 0);
        assert(rest.take(0).len() == 0);
    }
}

/// Whether the name is shown so: everyone for a broadcast, a user id as it is,
/// and a persona with hyphens for its underscores.
pub open spec fn is_shown_as(name: Seq<char>, shown: Seq<char>) -> bool {
    ||| name == "*"@ && shown == "everyone"@
    ||| name.len() > 0 && name[0] == '@' && shown == name
    ||| {
        &&& name != "*"@
        &&& name.len() == 0 || name[0] != '@'
        &&& shown.len() == name.len()
        &&& forall|i: int|
            0 <= i < name.len() ==> #[trigger] shown[i] == if name[i] == '_' {
                '-'
            } else {
                name[i]
            }
    }
}

/// People read who a message is from and for, its type unless it is a chat
/// message, and below that line what it says, word for word.
pub proof fn law_messages_are_legible(env: EnvelopeView, from: Seq<char>, to: Seq<char>)
    requires
        is_shown_as(env.from, from),
        is_shown_as(env.to, to),
    ensures
        env.kind == "chat"@ ==> envelope::plain_text(env) == from + " → "@ + to + "\n"@ + env.body,
        env.kind != "chat"@ ==> envelope::plain_text(env) == from + " → "@ + to + " · "@ + env.kind + "\n"@
            + env.body,
        env.kind == "chat"@ ==> envelope::html_text(env) == "<b>"@ + envelope::escaped(from) + " → "@
            + envelope::escaped(to) + "</b>"@ + "<br/>"@ + envelope::escaped(env.body),
        env.kind != "chat"@ ==> envelope::html_text(env) == "<b>"@ + envelope::escaped(from) + " → "@
            + envelope::escaped(to) + "</b>"@ + " · <i>"@ + envelope::escaped(env.kind) + "</i>"@ + "<br/>"@
            + envelope::escaped(env.body),
{
    reveal_strlit("*");
    lemma_shown(env.from, from);
    lemma_shown(env.to, to);
    assert(from + " → "@ + to + Seq::<char>::empty() + "\n"@ + env.body =~= from + " → "@ + to + "\n"@ + env.body);
    assert(from + " → "@ + to + (" · "@ + env.kind) + "\n"@ + env.body =~= from + " → "@ + to + " · "@ + env.kind
        + "\n"@ + env.body);
    let f = envelope::escaped(from);
    let t = envelope::escaped(to);
    let b = envelope::escaped(env.body);
    let k = envelope::escaped(env.kind);
    assert("<b>"@ + f + " → "@ + t + "</b>"@ + Seq::<char>::empty() + "<br/>"@ + b =~= "<b>"@ + f + " → "@ + t
        + "</b>"@ + "<br/>"@ + b);
    assert("<b>"@ + f + " → "@ + t + "</b>"@ + (" · <i>"@ + k + "</i>"@) + "<br/>"@ + b =~= "<b>"@ + f + " → "@ + t
        + "</b>"@ + " · <i>"@ + k + "</i>"@ + "<br/>"@ + b);
}

proof fn lemma_shown(name: Seq<char>, shown: Seq<char>)
    requires
        is_shown_as(name, shown),
    ensures
        envelope::shown(name) == shown,
{
    reveal_strlit("*");
    assert("*"@.len() == 1 && "*"@[0] == '*');
    if name != "*"@ && (name.len() == 0 || name[0] != '@') {
        assert(envelope::shown(name) =~= shown);
    }
}

/// Markup is escaped character by character: the ampersand and the two angle
/// brackets by their names, everything else as it is.
pub proof fn law_escaping(a: Seq<char>, b: Seq<char>, c: char)
    ensures
        envelope::escaped(a + b) == envelope::escaped(a) + envelope::escaped(b),
        envelope::escaped(seq!['&']) == "&amp;"@,
        envelope::escaped(seq!['<']) == "&lt;"@,
        envelope::escaped(seq!['>']) == "&gt;"@,
        c != '&' && c != '<' && c != '>' ==> envelope::escaped(seq![c]) == seq![c],
    decreases b.len(),
{
    lemma_escaped_one('&');
    lemma_escaped_one('<');
    lemma_escaped_one('>');
    lemma_escaped_one(c);
    if b.len() == 0 {
        assert(a + b =~= a);
        assert(envelope::escaped(a) + envelope::escaped(b) =~= envelope::escaped(a));
    } else {
        law_escaping(a, b.drop_last(), c);
        assert((a + b).drop_last() =~= a + b.drop_last());
        assert((a + b).last() == b.last());
        assert(envelope::escaped(a + b) =~= envelope::escaped(a) + envelope::escaped(b));
    }
}

proof fn lemma_escaped_one(c: char)
    ensures
        envelope::escaped(seq![c]) == envelope::escaped_char(c),
{
    reveal_with_fuel(envelope::escaped, 2);
    assert(seq![c].drop_last() =~= Seq::<char>::empty());
    assert(envelope::escaped(seq![c]) =~= envelope::escaped_char(c));
}

/// A persona's name is 1 to 64 lower-case ASCII letters, digits and
/// underscores.
pub proof fn law_persona_names(s: Seq<char>)
    ensures
        envelope::is_persona(s) <==> s.len() > 0 && s.len() < 65 && forall|i: int|
            0 <= i < s.len() ==> {
                ||| 97 <= (#[trigger] s[i]) as int <= 122
                ||| 48 <= s[i] as int <= 57
                ||| s[i] == '_'
            },
{
    if envelope::is_persona(s) {
        assert forall|i: int| 0 <= i < s.len() implies {
            ||| 97 <= (#[trigger] s[i]) as int <= 122
            ||| 48 <= s[i] as int <= 57
            ||| s[i] == '_'
        } by {
            assert(envelope::is_persona_char(s[i]));
        }
    } else if s.len() > 0 && s.len() < 65 {
        let i = choose|i: int| 0 <= i < s.len() && !envelope::is_persona_char(#[trigger] s[i]);
        assert(!envelope::is_persona_char(s[i]));
    }
}

/// The message types that are understood are these six; any other counts as a
/// chat message.
pub proof fn law_message_types(kind: Seq<char>)
    ensures
        envelope::is_known_type(kind) <==> kind == "chat"@ || kind == "task"@ || kind == "handoff"@ || kind == "ack"@
            || kind == "completion"@ || kind == "digest"@,
        envelope::is_known_type(kind) ==> envelope::degraded(kind) == kind,
        !envelope::is_known_type(kind) ==> envelope::degraded(kind) == "chat"@,
{
    let list = envelope::known_type_list();
    assert(list[0] == "chat"@ && list[1] == "task"@ && list[2] == "handoff"@ && list[3] == "ack"@ && list[4]
        == "completion"@ && list[5] == "digest"@);
}

/// What is dispatched says what was sent, word for word: only the type is set
/// right, and a message to everyone wakes nobody.
pub proof fn law_dispatch_keeps_the_message(env: EnvelopeView)
    ensures
        ({
            let read = envelope::ingested(env);
            &&& read.v == env.v
            &&& read.from == env.from
            &&& read.to == env.to
            &&& read.task_id == env.task_id
            &&& read.body == env.body
            &&& read.meta == env.meta
            &&& read.rest == env.rest
            &&& env.to != "*"@ ==> read.wake == env.wake
            &&& env.to == "*"@ ==> read.wake == Some(false)
            &&& env.kind == "task"@ || env.kind == "handoff"@ || env.kind == "ack"@ || env.kind == "digest"@
                ==> read.kind == env.kind
            &&& env.kind == "completion"@ ==> {
                &&& env.meta is None ==> read.kind == "chat"@
                &&& env.meta matches Some(meta) ==> read.kind == if completion::completion_fault(meta) is None {
                    "completion"@
                } else {
                    "chat"@
                }
            }
            &&& env.kind != "task"@ && env.kind != "handoff"@ && env.kind != "ack"@ && env.kind != "digest"@
                && env.kind != "completion"@ ==> read.kind == "chat"@
        }),
{
    law_message_types(env.kind);
    reveal_strlit("chat");
    reveal_strlit("task");
    reveal_strlit("handoff");
    reveal_strlit("ack");
    reveal_strlit("completion");
    reveal_strlit("digest");
    assert("chat"@.len() == 4 && "task"@.len() == 4 && "handoff"@.len() == 7 && "ack"@.len() == 3);
    assert("completion"@.len() == 10 && "digest"@.len() == 6);
    assert("chat"@[0] == 'c' && "task"@[0] == 't');
}

/// On the wire an envelope has its parts under these names, and those that it
/// does not have are not there.
pub proof fn law_envelopes_on_the_wire(env: EnvelopeView, name: Seq<char>)
    requires
        env.well_formed(),
    ensures
        ({
            let wire = envelope::envelope_tree(env);
            &&& json::unsigned_field(wire, "v"@) == Some(env.v as u64)
            &&& json::text_field(wire, "from"@) == Some(env.from)
            &&& json::text_field(wire, "to"@) == Some(env.to)
            &&& json::text_field(wire, "type"@) == Some(env.kind)
            &&& json::text_field(wire, "body"@) == Some(env.body)
            &&& json::text_field(wire, "task_id"@) == env.task_id
            &&& env.task_id is None ==> json::field(wire, "task_id"@) is None
            &&& json::bool_field(wire, "wake"@) == env.wake
            &&& env.wake is None ==> json::field(wire, "wake"@) is None
            &&& json::field(wire, "meta"@) == env.meta
            &&& name != "v"@ && name != "from"@ && name != "to"@ && name != "type"@ && name != "body"@ && name
                != "task_id"@ && name != "wake"@ && name != "meta"@ ==> json::field(wire, name)
                == if env.rest.dom().contains(name) {
                Some(env.rest[name])
            } else {
                None
            }
        }),
{
    envelope::lemma_envelope_fields(env);
    if !envelope::is_known_field(name) {
        json::lemma_field_map_missing(envelope::envelope_pairs(env), name);
    }
}

/// An envelope is read where there are a version and the four texts, and the
/// optional parts are missing, null or of their kind. It is read as it stands.
pub proof fn law_envelopes_are_read(raw: Tree)
    ensures
        ({
            let v = json::unsigned_field(raw, "v"@);
            let task_id = json::field(raw, "task_id"@);
            let wake = json::field(raw, "wake"@);
            let readable = {
                &&& v is Some && v->0 <= 4294967295
                &&& json::text_field(raw, "from"@) is Some
                &&& json::text_field(raw, "to"@) is Some
                &&& json::text_field(raw, "type"@) is Some
                &&& json::text_field(raw, "body"@) is Some
                &&& task_id is None || task_id == Some(Tree::Null) || task_id->0 is Text
                &&& wake is None || wake == Some(Tree::Null) || wake->0 is Bool
            };
            &&& envelope::envelope_of(raw) is Some <==> readable
            &&& envelope::envelope_of(raw) matches Some(env) ==> {
                &&& env.v == v->0
                &&& Some(env.from) == json::text_field(raw, "from"@)
                &&& Some(env.to) == json::text_field(raw, "to"@)
                &&& Some(env.kind) == json::text_field(raw, "type"@)
                &&& Some(env.body) == json::text_field(raw, "body"@)
                &&& env.task_id == json::text_field(raw, "task_id"@)
                &&& env.wake == json::bool_field(raw, "wake"@)
                &&& json::field(raw, "meta"@) != Some(Tree::Null) ==> env.meta == json::field(raw, "meta"@)
                &&& json::field(raw, "meta"@) == Some(Tree::Null) ==> env.meta is None
            }
        }),
{
}

/// The content of an event that carries an envelope shows people the message and
/// hands agents the envelope, and names the relation when there is one.
pub proof fn law_events_show_and_carry(env: EnvelopeView, relates_to: Option<Tree>)
    ensures
        ({
            let content = envelope::event_tree(env, relates_to);
            &&& json::text_field(content, "msgtype"@) == Some("m.text"@)
            &&& json::text_field(content, "body"@) == Some(envelope::plain_text(env))
            &&& json::text_field(content, "format"@) == Some("org.matrix.custom.html"@)
            &&& json::text_field(content, "formatted_body"@) == Some(envelope::html_text(env))
            &&& json::field(content, "org.safehouse.envelope"@) == Some(envelope::envelope_tree(env))
            &&& json::field(content, "m.relates_to"@) == relates_to
        }),
{
    reveal_strlit("msgtype");
    reveal_strlit("body");
    reveal_strlit("format");
    reveal_strlit("formatted_body");
    reveal_strlit("org.safehouse.envelope");
    reveal_strlit("m.relates_to");
    assert("msgtype"@.len() == 7 && "body"@.len() == 4 && "format"@.len() == 6 && "formatted_body"@.len() == 14);
    assert("org.safehouse.envelope"@.len() == 22 && "m.relates_to"@.len() == 12);
    let pairs = envelope::event_pairs(env, relates_to);
    assert(pairs[0] == ("msgtype"@, Tree::Text("m.text"@)));
    assert(pairs[1].0 == "body"@ && pairs[2].0 == "format"@ && pairs[3].0 == "formatted_body"@);
    assert(pairs[4] == ("org.safehouse.envelope"@, envelope::envelope_tree(env)));
    assert(relates_to is Some ==> pairs[5] == ("m.relates_to"@, relates_to->0));
    json::lemma_object_fields(pairs);
}

/// An event with an envelope of this version is that envelope; one with an
/// envelope of another version is passed over; any other is what a person
/// typed.
pub proof fn law_what_an_event_is(
    content: Tree,
    sender: Seq<char>,
    personas: Seq<String>,
    thread_agent: Option<Seq<char>>,
)
    ensures
        ({
            let inbound = envelope::inbound_of(content, sender, personas, thread_agent);
            let body = match json::text_field(content, "body"@) {
                Some(body) => body,
                None => Seq::empty(),
            };
            let typed = envelope::synthesized(sender, body, personas, thread_agent);
            match json::field(content, "org.safehouse.envelope"@) {
                None => inbound == InboundView::Envelope(typed.0, typed.1),
                Some(raw) => match json::unsigned_field(raw, "v"@) {
                    Some(v) => if v != 1 {
                        inbound == InboundView::UnsupportedVersion(v)
                    } else {
                        match envelope::envelope_of(raw) {
                            Some(env) => inbound == InboundView::Envelope(envelope::ingested(env), None),
                            None => inbound == InboundView::Envelope(typed.0, typed.1),
                        }
                    },
                    None => inbound == InboundView::Envelope(typed.0, typed.1),
                },
            }
        }),
{
}

/// A relation to a thread names its root, and the last event in it as the reply
/// that clients without threads show. An event is in the thread that it names
/// so, and an edit is of the event that it names.
pub proof fn law_thread_relations(root: Seq<char>, latest: Seq<char>, content: Tree)
    ensures
        ({
            let relation = envelope::thread_relation_tree(root, latest);
            &&& json::text_field(relation, "rel_type"@) == Some("m.thread"@)
            &&& json::text_field(relation, "event_id"@) == Some(root)
            &&& json::bool_field(relation, "is_falling_back"@) == Some(true)
            &&& json::field(relation, "m.in_reply_to"@) matches Some(reply) && json::text_field(reply, "event_id"@)
                == Some(latest)
        }),
        match json::field(content, "m.relates_to"@) {
            Some(relation) => {
                &&& json::text_field(relation, "rel_type"@) == Some("m.thread"@) ==> envelope::thread_root(content)
                    == json::text_field(relation, "event_id"@)
                &&& json::text_field(relation, "rel_type"@) != Some("m.thread"@) ==> envelope::thread_root(content)
                    is None
                &&& json::text_field(relation, "rel_type"@) == Some("m.replace"@) ==> crate::egress::edited_event(
                    content,
                ) == json::text_field(relation, "event_id"@)
                &&& json::text_field(relation, "rel_type"@) != Some("m.replace"@) ==> crate::egress::edited_event(
                    content,
                ) is None
            },
            None => envelope::thread_root(content) is None && crate::egress::edited_event(content) is None,
        },
{
    reveal_strlit("rel_type");
    reveal_strlit("event_id");
    reveal_strlit("is_falling_back");
    reveal_strlit("m.in_reply_to");
    assert("rel_type"@.len() == 8 && "event_id"@.len() == 8 && "is_falling_back"@.len() == 15 && "m.in_reply_to"@.len() == 13);
    assert("rel_type"@[0] == 'r' && "event_id"@[0] == 'e');
    let reply = seq![("event_id"@, Tree::Text(latest))];
    let pairs = seq![
        ("rel_type"@, Tree::Text("m.thread"@)),
        ("event_id"@, Tree::Text(root)),
        ("is_falling_back"@, Tree::Bool(true)),
        ("m.in_reply_to"@, json::object(reply)),
    ];
    assert(pairs[0].0 == "rel_type"@ && pairs[1].0 == "event_id"@ && pairs[2].0 == "is_falling_back"@ && pairs[3].0
        == "m.in_reply_to"@);
    json::lemma_object_fields(pairs);
    assert(reply[0] == ("event_id"@, Tree::Text(latest)));
    json::lemma_object_fields(reply);
}

/// Who addresses a persona that is not known is told so by the daemon: the
/// acknowledgement names what was typed and lists every persona there is, as
/// people write them.
pub proof fn law_unknown_names_are_told(to: Seq<char>, token: Seq<char>, personas: Seq<String>, names: Seq<Seq<char>>)
    requires
        names.len() == personas.len(),
        forall|k: int|
            0 <= k < names.len() ==> (#[trigger] names[k]).len() == personas[k]@.len() && forall|i: int|
                0 <= i < names[k].len() ==> #[trigger] names[k][i] == if personas[k]@[i] == '_' {
                    '-'
                } else {
                    personas[k]@[i]
                },
    ensures
        ({
            let ack = envelope::unknown_persona_ack_view(to, token, personas);
            &&& ack.v == 1
            &&& ack.from == "safehouse"@
            &&& ack.to == to
            &&& ack.kind == "ack"@
            &&& ack.task_id is None
            &&& ack.wake is None
            &&& ack.meta is None
            &&& ack.rest == Map::<Seq<char>, Tree>::empty()
            &&& personas.len() == 0 ==> ack.body == "Unknown persona \"@"@ + token + "\" — known personas: "@
                + "(none configured)"@
            &&& personas.len() > 0 ==> ack.body == "Unknown persona \"@"@ + token + "\" — known personas: "@
                + text::joined(names, ", "@)
        }),
{
    if personas.len() > 0 {
        let all = Seq::new(personas.len(), |i: int| text::with_char(personas[i]@, '_', '-'));
        assert forall|k: int| 0 <= k < names.len() implies names[k] == all[k] by {
            assert(names[k] =~= all[k]);
        }
        assert(names =~= all);
    }
}

} // verus!
