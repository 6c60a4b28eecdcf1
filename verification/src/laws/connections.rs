//! Connections: who may speak, what each line comes to, and what the daemon tells
//! of itself.
use vstd::prelude::*;
use vstd::string::*;

use crate::backoff;
use crate::conn;
use crate::conn::{ConnStateView, DaemonIdentity, StepView};
use crate::envelope;
use crate::json;
use crate::json::Tree;
use crate::registry;
use crate::registry::{ConnView, RegistryView, RetryState};
use crate::text;

verus! {

/// Whether the reply says that the request failed, for this reason, and carries
/// the id of the request.
pub open spec fn is_refusal(reply: Tree, req: Tree, message: Seq<char>) -> bool {
    &&& json::bool_field(reply, "ok"@) == Some(false)
    &&& json::text_field(reply, "error"@) == Some(message)
    &&& carries_id(reply, req)
}

/// Whether the reply carries the id of the request, null when it has none.
pub open spec fn carries_id(reply: Tree, req: Tree) -> bool {
    json::field(reply, "id"@) == Some(
        match json::field(req, "id"@) {
            Some(id) => id,
            None => Tree::Null,
        },
    )
}

proof fn lemma_refusal(req: Tree, message: Seq<char>)
    ensures
        is_refusal(conn::with_id(json::object(conn::error_pairs(message)), req), req, message),
        json::bool_field(json::object(conn::error_pairs(message)), "ok"@) == Some(false),
        json::text_field(json::object(conn::error_pairs(message)), "error"@) == Some(message),
        json::field(json::object(conn::error_pairs(message)), "id"@) is None,
{
    reveal_strlit("ok");
    reveal_strlit("error");
    reveal_strlit("id");
    assert("ok"@.len() == 2 && "error"@.len() == 5 && "id"@.len() == 2);
    assert("ok"@[0] == 'o' && "id"@[0] == 'i');
    let pairs = conn::error_pairs(message);
    assert(pairs[0].0 == "ok"@ && pairs[1].0 == "error"@);
    json::lemma_object_fields(pairs);
}

/// A connection that says hello as a persona is that persona from then on, and is
/// told who the daemon is and which message types there are. The persona has to
/// have a proper name and be one of those that are hosted here; any other is told
/// why it is not let in, and nothing changes.
pub proof fn law_who_is_let_in(r: RegistryView, c: ConnStateView, req: Tree, me: DaemonIdentity, now: u64)
    requires
        json::field(req, "op"@) == Some(Tree::Text("hello"@)),
    ensures
        ({
            let after = conn::served(r, c, req, me, now);
            match json::text_field(req, "persona"@) {
                None => {
                    &&& after.registry == r
                    &&& after.conn == c
                    &&& after.step matches StepView::Reply(reply) && is_refusal(reply, req, "hello requires persona"@)
                },
                Some(persona) => if !envelope::is_persona(persona) || !text::listed(r.personas, persona) {
                    &&& after.registry == r
                    &&& after.conn == c
                    &&& after.step matches StepView::Reply(reply) && is_refusal(
                        reply,
                        req,
                        "persona "@ + text::debug_text(persona) + " not in allowlist (config `personas`)"@,
                    )
                } else {
                    r.next_id < u64::MAX ==> {
                        &&& after.conn.persona == Some(persona)
                        &&& after.conn.conn_id == Some(r.next_id)
                        &&& after.registry.conns == r.conns.push(ConnView { id: r.next_id, persona })
                        &&& after.registry.next_id == r.next_id + 1
                        &&& after.registry == RegistryView {
                            conns: after.registry.conns,
                            next_id: after.registry.next_id,
                            ..r
                        }
                        &&& after.step matches StepView::Reply(reply) && {
                            &&& carries_id(reply, req)
                            &&& json::bool_field(reply, "ok"@) == Some(true)
                            &&& json::text_field(reply, "user_id"@) == json::opt_view(me.user_id)
                            &&& json::text_field(reply, "device_id"@) == json::opt_view(me.device_id)
                            &&& names_the_types(reply)
                        }
                    }
                },
            }
        }),
{
    let op = "hello"@;
    assert(conn::request_op(req) == op);
    match json::text_field(req, "persona"@) {
        None => lemma_refusal(req, "hello requires persona"@),
        Some(persona) => {
            lemma_refusal(req, "persona "@ + text::debug_text(persona) + " not in allowlist (config `personas`)"@);
            reveal_strlit("ok");
            reveal_strlit("user_id");
            reveal_strlit("device_id");
            reveal_strlit("known_types");
            reveal_strlit("id");
            assert("ok"@.len() == 2 && "user_id"@.len() == 7 && "device_id"@.len() == 9 && "known_types"@.len() == 11);
            assert("id"@.len() == 2);
            assert("ok"@[0] == 'o' && "id"@[0] == 'i');
            let pairs = conn::hello_pairs(me);
            assert(pairs[0].0 == "ok"@ && pairs[1].0 == "user_id"@ && pairs[2].0 == "device_id"@ && pairs[3].0
                == "known_types"@);
            json::lemma_object_fields(pairs);
            lemma_types(json::object(pairs));
            let before = json::object(pairs);
            let reply = conn::with_id(before, req);
            assert(json::field(reply, "known_types"@) == json::field(before, "known_types"@));
        },
    }
}

/// Whether the reply lists the message types that are understood.
pub open spec fn names_the_types(reply: Tree) -> bool {
    json::field(reply, "known_types"@) matches Some(Tree::Array(types)) && types == seq![
        Tree::Text("chat"@),
        Tree::Text("task"@),
        Tree::Text("handoff"@),
        Tree::Text("ack"@),
        Tree::Text("completion"@),
        Tree::Text("digest"@),
    ]
}

proof fn lemma_types(reply: Tree)
    requires
        json::field(reply, "known_types"@) == Some(json::texts_tree(envelope::known_type_list())),
    ensures
        names_the_types(reply),
{
    let list = envelope::known_type_list();
    assert(Seq::new(list.len(), |i: int| Tree::Text(list[i])) =~= seq![
        Tree::Text("chat"@),
        Tree::Text("task"@),
        Tree::Text("handoff"@),
        Tree::Text("ack"@),
        Tree::Text("completion"@),
        Tree::Text("digest"@),
    ]);
}

/// Any other request but that for the status runs, as the operation that it names,
/// for the persona of the connection; before a hello it is refused. Neither changes
/// who is connected.
pub proof fn law_which_operations_run(r: RegistryView, c: ConnStateView, req: Tree, me: DaemonIdentity, now: u64)
    requires
        json::field(req, "op"@) != Some(Tree::Text("hello"@)),
        json::field(req, "op"@) != Some(Tree::Text("status"@)),
    ensures
        ({
            let after = conn::served(r, c, req, me, now);
            &&& after.registry == r
            &&& after.conn == c
            &&& match c.persona {
                None => after.step matches StepView::Reply(reply) && is_refusal(reply, req, "hello first"@),
                Some(who) => after.step matches StepView::Run { op, req: asked, persona } && {
                    &&& persona == who
                    &&& asked == req
                    &&& op == match json::field(req, "op"@) {
                        Some(Tree::Text(op)) => op,
                        _ => Seq::empty(),
                    }
                },
            }
        }),
{
    reveal_strlit("hello");
    reveal_strlit("status");
    assert("hello"@.len() == 5 && "status"@.len() == 6);
    lemma_refusal(req, "hello first"@);
}

/// A blank line comes to nothing. One that is not JSON is told so, and the
/// connection goes on as it was. Any other is a request.
pub proof fn law_what_a_line_is(
    r: RegistryView,
    c: ConnStateView,
    line: Seq<char>,
    me: DaemonIdentity,
    now: u64,
)
    ensures
        ({
            let after = conn::line_served(r, c, line, me, now);
            if text::trimmed(line).len() == 0 {
                after.registry == r && after.conn == c && after.step is Nothing
            } else {
                match json::parsed(line) {
                    Ok(req) => after == conn::served(r, c, req, me, now),
                    Err(message) => {
                        &&& after.registry == r
                        &&& after.conn == c
                        &&& after.step matches StepView::Reply(reply) && {
                            &&& json::bool_field(reply, "ok"@) == Some(false)
                            &&& json::text_field(reply, "error"@) == Some("bad json: "@ + message)
                        }
                    },
                }
            }
        }),
{
    match json::parsed(line) {
        Err(message) => lemma_refusal(Tree::Null, "bad json: "@ + message),
        _ => {},
    }
}

/// What an operation came to is the reply, with the id of the request; a failure is
/// told with its reason.
pub proof fn law_what_is_replied(req: Tree, fields: Map<Seq<char>, Tree>, message: Seq<char>, name: Seq<char>)
    ensures
        is_refusal(conn::op_result_reply(req, Err(message)), req, message),
        carries_id(conn::op_result_reply(req, Ok(Tree::Object(fields))), req),
        name != "id"@ ==> json::field(conn::op_result_reply(req, Ok(Tree::Object(fields))), name) == json::field(
            Tree::Object(fields),
            name,
        ),
{
    lemma_refusal(req, message);
}

/// The status is for everyone, and changes nothing. It says whether the daemon is
/// connected, how long ago, in whole seconds, an event came and a sync completed,
/// and which retry is under way; null for what there is not.
pub proof fn law_what_the_status_tells(r: RegistryView, c: ConnStateView, req: Tree, me: DaemonIdentity, now: u64)
    requires
        json::field(req, "op"@) == Some(Tree::Text("status"@)),
        r.last_event matches Some(then) ==> then <= now,
        r.last_sync matches Some(then) ==> then <= now,
    ensures
        ({
            let after = conn::served(r, c, req, me, now);
            &&& after.registry == r
            &&& after.conn == c
            &&& after.step matches StepView::Reply(reply) && {
                &&& carries_id(reply, req)
                &&& json::bool_field(reply, "ok"@) == Some(true)
                &&& json::bool_field(reply, "connected"@) == Some(r.retry is None)
                &&& is_ago(reply, "last_event_received_secs_ago"@, r.last_event, now)
                &&& is_ago(reply, "last_sync_completed_secs_ago"@, r.last_sync, now)
                &&& match r.retry {
                    Some(retry) => {
                        &&& json::unsigned_field(reply, "retry_attempt"@) == Some(retry.attempt as u64)
                        &&& json::unsigned_field(reply, "retry_backoff_secs"@) == Some(retry.backoff_secs)
                    },
                    None => {
                        &&& json::field(reply, "retry_attempt"@) == Some(Tree::Null)
                        &&& json::field(reply, "retry_backoff_secs"@) == Some(Tree::Null)
                    },
                }
                &&& names_the_types(reply)
            }
        }),
{
    reveal_strlit("hello");
    reveal_strlit("status");
    assert("hello"@.len() == 5 && "status"@.len() == 6);
    reveal_strlit("ok");
    reveal_strlit("connected");
    reveal_strlit("last_event_received_secs_ago");
    reveal_strlit("last_sync_completed_secs_ago");
    reveal_strlit("retry_attempt");
    reveal_strlit("retry_backoff_secs");
    reveal_strlit("known_types");
    reveal_strlit("id");
    assert("ok"@.len() == 2 && "connected"@.len() == 9 && "last_event_received_secs_ago"@.len() == 28 && "last_sync_completed_secs_ago"@.len() == 28);
    assert("retry_attempt"@.len() == 13 && "retry_backoff_secs"@.len() == 18 && "known_types"@.len() == 11 && "id"@.len() == 2);
    assert("ok"@[0] == 'o' && "id"@[0] == 'i' && "last_event_received_secs_ago"@[5] == 'e' && "last_sync_completed_secs_ago"@[5] == 's');
    let pairs = r.status_pairs(now);
    assert(pairs[0].0 == "ok"@ && pairs[1].0 == "connected"@ && pairs[2].0 == "last_event_received_secs_ago"@
        && pairs[3].0 == "last_sync_completed_secs_ago"@);
    assert(pairs[4].0 == "retry_attempt"@ && pairs[5].0 == "retry_backoff_secs"@ && pairs[6].0 == "known_types"@);
    json::lemma_object_fields(pairs);
    let before = json::object(pairs);
    lemma_types(before);
    let reply = conn::with_id(before, req);
    assert(json::field(reply, "known_types"@) == json::field(before, "known_types"@));
    assert(json::field(reply, "last_event_received_secs_ago"@) == json::field(
        before,
        "last_event_received_secs_ago"@,
    ));
}

/// Whether the field tells the whole seconds that passed since then, on a clock of
/// nanoseconds; null when there is no then.
pub open spec fn is_ago(reply: Tree, name: Seq<char>, then: Option<u64>, now: u64) -> bool {
    match then {
        None => json::field(reply, name) == Some(Tree::Null),
        Some(then) => json::unsigned_field(reply, name) matches Some(secs) && secs * 1000000000 <= now - then < (secs
            + 1) * 1000000000,
    }
}

/// Retries are counted from one on, and the wait before each is that of its number.
pub proof fn law_retries_are_counted(attempt: u32, backoff_secs: u64)
    ensures
        registry::next_retry(None).attempt == 1,
        registry::next_retry(None).backoff_secs == 2,
        attempt < u32::MAX ==> {
            let next = registry::next_retry(Some(RetryState { attempt, backoff_secs }));
            next.attempt == attempt + 1 && next.backoff_secs == backoff::backoff_delay(attempt + 1)
        },
{
    crate::laws::feed::law_waits_double(1);
    crate::laws::feed::law_waits_double(attempt + 1);
    backoff::law_backoff_monotonic_and_capped(attempt + 1, attempt + 1);
}

/// A connection that ends is gone, and no other is: those that are left keep their
/// order.
pub proof fn law_who_stays_connected(r: RegistryView, id: u64, c: ConnView)
    ensures
        r.without_conn(id).conns.contains(c) <==> r.conns.contains(c) && c.id != id,
        r.without_conn(id) == (RegistryView { conns: r.without_conn(id).conns, ..r }),
        (forall|i: int| 0 <= i < r.conns.len() ==> (#[trigger] r.conns[i]).id != id) ==> r.without_conn(id) == r,
{
    let f = |c: ConnView| c.id != id;
    let after = r.conns.filter(f);
    if after.contains(c) {
        r.conns.lemma_filter_contains_rev(f, c);
        let k = choose|k: int| 0 <= k < after.len() && after[k] == c;
        r.conns.lemma_filter_pred(f, k);
    }
    if r.conns.contains(c) && c.id != id {
        let i = choose|i: int| 0 <= i < r.conns.len() && r.conns[i] == c;
        r.conns.lemma_filter_contains(f, i);
    }
    if forall|i: int| 0 <= i < r.conns.len() ==> (#[trigger] r.conns[i]).id != id {
        lemma_all_kept(r.conns, f);
        assert(r.without_conn(id) =~= r);
    }
}

proof fn lemma_all_kept(conns: Seq<ConnView>, f: spec_fn(ConnView) -> bool)
    requires
        forall|i: int| 0 <= i < conns.len() ==> f(#[trigger] conns[i]),
    ensures
        conns.filter(f) == conns,
    decreases conns.len(),
{
    reveal(Seq::filter);
    if conns.len() > 0 {
        let front = conns.drop_last();
        assert forall|i: int| 0 <= i < front.len() implies f(#[trigger] front[i]) by {
            assert(front[i] == conns[i]);
        }
        lemma_all_kept(front, f);
        assert(f(conns[conns.len() - 1]));
        assert(front.push(conns.last()) =~= conns);
    } else {
        assert(conns.filter(f) =~= conns);
    }
}

/// A message of another host is handed to every connection, in order.
pub proof fn law_messages_of_others_are_heard_by_all(r: RegistryView, author: Seq<char>, own_event: bool)
    requires
        !own_event,
    ensures
        r.hearers(own_event, author) == r.conns,
{
    let f = |c: ConnView| !(own_event && c.persona == author);
    assert forall|i: int| 0 <= i < r.conns.len() implies f(#[trigger] r.conns[i]) by {}
    lemma_all_kept(r.conns, f);
}

/// What a clock puts ahead of now happened now.
pub proof fn law_nothing_happened_ahead(then: u64, now: u64)
    ensures
        then >= now ==> registry::secs_ago(Some(then), now) == Some(0u64),
        registry::secs_ago(None, now) is None,
{
}

} // verus!
