//! Requests: what an agent's request comes to, and what it is refused for.
use vstd::prelude::*;
use vstd::string::*;

use crate::completion;
use crate::envelope;
use crate::envelope::EnvelopeView;
use crate::identifiers;
use crate::json;
use crate::json::Tree;
use crate::laws::routing::law_message_types;
use crate::ops;
use crate::ops::ActionView;
use crate::rooms;
use crate::rooms::{RoomAddr, RoomErrorView};
use crate::send;
use crate::text;
use crate::threads;
use crate::threads::ThreadView;

verus! {

/// Whether the text is made of ASCII letters of either case, digits and
/// underscores alone.
pub open spec fn is_plain_word(s: Seq<char>) -> bool {
    forall|i: int|
        0 <= i < s.len() ==> {
            ||| 97 <= (#[trigger] s[i]) as int <= 122
            ||| 65 <= s[i] as int <= 90
            ||| 48 <= s[i] as int <= 57
            ||| s[i] == '_'
        }
}

proof fn lemma_task_ids(s: Seq<char>)
    ensures
        send::is_task_id(s) <==> is_plain_word(s),
{
    if send::is_task_id(s) {
        assert forall|i: int| 0 <= i < s.len() implies {
            ||| 97 <= (#[trigger] s[i]) as int <= 122
            ||| 65 <= s[i] as int <= 90
            ||| 48 <= s[i] as int <= 57
            ||| s[i] == '_'
        } by {
            assert(send::is_task_char(s[i]));
        }
    } else {
        let i = choose|i: int| 0 <= i < s.len() && !send::is_task_char(#[trigger] s[i]);
        assert(!send::is_task_char(s[i]));
    }
}

/// The type that the request asks for.
pub open spec fn asked_type(req: Tree) -> Seq<char> {
    match json::field(req, "type"@) {
        Some(Tree::Text(kind)) => kind,
        _ => "chat"@,
    }
}

/// Whether the request brings metadata along.
pub open spec fn brings_meta(req: Tree) -> bool {
    json::field(req, "meta"@) is Some && json::field(req, "meta"@) != Some(Tree::Null)
}

/// A message is sent as the request has it, from the persona of the connection:
/// to whom, what it says, its task and its hint. It needs an addressee and a text
/// that is not empty; a task is a plain word; and metadata goes with a completion,
/// where it has to be valid, and with nothing else. A type that is not understood
/// is sent as a chat message, and that is told.
pub proof fn law_what_is_sent(persona: Seq<char>, req: Tree)
    ensures
        ({
            let kind = asked_type(req);
            let known = kind == "chat"@ || kind == "task"@ || kind == "handoff"@ || kind == "ack"@ || kind
                == "completion"@ || kind == "digest"@;
            let accepted = {
                &&& json::field(req, "to"@) matches Some(Tree::Text(to))
                &&& json::field(req, "body"@) matches Some(Tree::Text(body)) && body.len() > 0
                &&& json::text_field(req, "task_id"@) matches Some(task_id) ==> is_plain_word(task_id)
                &&& brings_meta(req) <==> kind == "completion"@
                &&& brings_meta(req) ==> completion::completion_fault(json::field(req, "meta"@)->0) is None
            };
            let result = send::send_result(persona, req);
            &&& result is Ok <==> accepted
            &&& result matches Ok(out) ==> {
                &&& out.env.v == 1
                &&& out.env.from == persona
                &&& json::field(req, "to"@) == Some(Tree::Text(out.env.to))
                &&& json::field(req, "body"@) == Some(Tree::Text(out.env.body))
                &&& known ==> out.env.kind == kind && out.degraded_from is None
                &&& !known ==> out.env.kind == "chat"@ && out.degraded_from == Some(kind)
                &&& out.env.task_id == json::text_field(req, "task_id"@)
                &&& out.env.wake == json::bool_field(req, "wake"@)
                &&& brings_meta(req) ==> out.env.meta == json::field(req, "meta"@)
                &&& !brings_meta(req) ==> out.env.meta is None
                &&& out.env.rest == Map::<Seq<char>, Tree>::empty()
            }
        }),
{
    let kind = asked_type(req);
    assert(send::requested_type(req) == kind);
    law_message_types(kind);
    reveal_strlit("chat");
    reveal_strlit("task");
    reveal_strlit("handoff");
    reveal_strlit("ack");
    reveal_strlit("completion");
    reveal_strlit("digest");
    assert("chat"@.len() == 4 && "task"@.len() == 4 && "handoff"@.len() == 7 && "ack"@.len() == 3);
    assert("completion"@.len() == 10 && "digest"@.len() == 6);
    assert("chat"@[0] == 'c' && "task"@[0] == 't');
    if json::text_field(req, "task_id"@) is Some {
        lemma_task_ids(json::text_field(req, "task_id"@)->0);
    }
}

/// What is wrong with a request to send is told in this order: the addressee, the
/// text, the task, the metadata.
pub proof fn law_why_nothing_is_sent(persona: Seq<char>, req: Tree)
    ensures
        ({
            let to = json::text_field(req, "to"@);
            let body = json::text_field(req, "body"@);
            let task_id = json::text_field(req, "task_id"@);
            let kind = asked_type(req);
            let result = send::send_result(persona, req);
            let first = to is Some && body is Some && body->0.len() > 0;
            let second = first && (task_id is None || is_plain_word(task_id->0));
            &&& to is None ==> result == Err::<send::OutboundView, Seq<char>>("send requires `to`"@)
            &&& to is Some && body is None ==> result == Err::<send::OutboundView, Seq<char>>("send requires `body`"@)
            &&& to is Some && body is Some && body->0.len() == 0 ==> result == Err::<send::OutboundView, Seq<char>>(
                "send requires a non-empty `body`"@,
            )
            &&& first && !second ==> result == Err::<send::OutboundView, Seq<char>>("task_id must be [A-Za-z0-9_]"@)
            &&& second && brings_meta(req) && kind != "completion"@ ==> result == Err::<
                send::OutboundView,
                Seq<char>,
            >("`meta` is only valid for type \"completion\", not "@ + text::debug_text(kind))
            &&& second && !brings_meta(req) && kind == "completion"@ ==> result == Err::<
                send::OutboundView,
                Seq<char>,
            >("type \"completion\" requires a `meta` object (completion-v1)"@)
            &&& second && brings_meta(req) && kind == "completion"@ && completion::completion_fault(
                json::field(req, "meta"@)->0,
            ) is Some ==> result == Err::<send::OutboundView, Seq<char>>(
                "invalid completion-v1 meta: "@ + completion::completion_fault(json::field(req, "meta"@)->0)->0,
            )
        }),
{
    let kind = asked_type(req);
    assert(send::requested_type(req) == kind);
    law_message_types(kind);
    reveal_strlit("chat");
    reveal_strlit("task");
    reveal_strlit("handoff");
    reveal_strlit("ack");
    reveal_strlit("completion");
    reveal_strlit("digest");
    assert("chat"@.len() == 4 && "task"@.len() == 4 && "handoff"@.len() == 7 && "ack"@.len() == 3);
    assert("completion"@.len() == 10 && "digest"@.len() == 6);
    assert("chat"@[0] == 'c' && "task"@[0] == 't');
    if json::text_field(req, "task_id"@) is Some {
        lemma_task_ids(json::text_field(req, "task_id"@)->0);
    }
}

/// A message goes into the room that the request names, as an event that carries
/// it. One of a task that has a thread already follows the last event in that
/// thread; any other stands by itself.
pub proof fn law_where_a_message_goes(
    req: Tree,
    persona: Seq<char>,
    rooms: Seq<RoomAddr>,
    spaces: Seq<bool>,
    t: ThreadView,
)
    ensures
        ({
            let plan = ops::planned("send"@, req, persona, rooms, spaces, t);
            match send::send_result(persona, req) {
                Err(message) => plan == Err::<ActionView, Seq<char>>(message),
                Ok(sent) => match rooms::picked(rooms, json::text_field(req, "room"@)) {
                    Err(e) => plan == Err::<ActionView, Seq<char>>(e.text()),
                    Ok(i) => plan matches Ok(ActionView::Send { room, out, root, content }) && {
                        &&& room == i
                        &&& out == sent
                        &&& sent.env.task_id is None || !t.roots.dom().contains(sent.env.task_id->0) ==> {
                            &&& root is None
                            &&& content == envelope::event_tree(sent.env, None)
                        }
                        &&& sent.env.task_id is Some && t.roots.dom().contains(sent.env.task_id->0) ==> {
                            let thread = t.roots[sent.env.task_id->0];
                            &&& root == Some(thread)
                            &&& content == envelope::event_tree(
                                sent.env,
                                Some(
                                    envelope::thread_relation_tree(
                                        thread,
                                        if t.latest.dom().contains(thread) {
                                            t.latest[thread]
                                        } else {
                                            thread
                                        },
                                    ),
                                ),
                            )
                        }
                    },
                },
            }
        }),
{
}

/// The operations by their names: they differ from each other.
proof fn lemma_op_names()
    ensures
        "send"@ != "create_room"@ && "send"@ != "invite"@ && "send"@ != "add_to_space"@ && "send"@ != "list_rooms"@
            && "send"@ != "read"@ && "send"@ != "check"@,
        "create_room"@ != "invite"@ && "create_room"@ != "add_to_space"@ && "create_room"@ != "list_rooms"@
            && "create_room"@ != "read"@ && "create_room"@ != "check"@,
        "invite"@ != "add_to_space"@ && "invite"@ != "list_rooms"@ && "invite"@ != "read"@ && "invite"@ != "check"@,
        "add_to_space"@ != "list_rooms"@ && "add_to_space"@ != "read"@ && "add_to_space"@ != "check"@,
        "list_rooms"@ != "read"@ && "list_rooms"@ != "check"@,
        "read"@ != "check"@,
{
    reveal_strlit("send");
    reveal_strlit("create_room");
    reveal_strlit("invite");
    reveal_strlit("add_to_space");
    reveal_strlit("list_rooms");
    reveal_strlit("read");
    reveal_strlit("check");
    assert("send"@.len() == 4 && "create_room"@.len() == 11 && "invite"@.len() == 6 && "add_to_space"@.len() == 12);
    assert("list_rooms"@.len() == 10 && "read"@.len() == 4 && "check"@.len() == 5);
    assert("send"@[0] == 's' && "read"@[0] == 'r');
}

/// Whether the items are user ids, and these are they.
pub open spec fn are_users(items: Seq<Tree>, users: Seq<Seq<char>>) -> bool {
    &&& users.len() == items.len()
    &&& forall|i: int|
        0 <= i < items.len() ==> #[trigger] items[i] == Tree::Text(users[i]) && identifiers::user_id_fault(users[i])
            is None
}

proof fn lemma_admitted(items: Seq<Tree>, faults: Seq<Option<Seq<char>>>, users: Seq<Seq<char>>, n: int)
    requires
        0 <= n <= items.len(),
        faults == ops::user_id_faults(items),
        users.len() == n,
        are_users(items.take(n), users),
    ensures
        ops::admitted(items.take(n), faults) == Ok::<Seq<Seq<char>>, Seq<char>>(users),
    decreases n,
{
    if n > 0 {
        let front = items.take(n - 1);
        assert(items.take(n).drop_last() =~= front);
        assert forall|i: int| 0 <= i < front.len() implies #[trigger] front[i] == Tree::Text(users.drop_last()[i])
            && identifiers::user_id_fault(users.drop_last()[i]) is None by {
            assert(items.take(n)[i] == Tree::Text(users[i]));
        }
        lemma_admitted(items, faults, users.drop_last(), n - 1);
        assert(items.take(n)[n - 1] == Tree::Text(users[n - 1]));
        assert(items[n - 1] == Tree::Text(users[n - 1]));
        assert(users.drop_last().push(users[n - 1]) =~= users);
    } else {
        assert(users =~= Seq::empty());
    }
}

proof fn lemma_refused(items: Seq<Tree>, faults: Seq<Option<Seq<char>>>, n: int)
    requires
        0 <= n <= items.len(),
        ops::admitted(items.take(n), faults) is Err,
    ensures
        ops::admitted(items, faults) == ops::admitted(items.take(n), faults),
    decreases items.len() - n,
{
    if n == items.len() {
        assert(items.take(n) =~= items);
    } else {
        assert(items.take(n + 1).drop_last() =~= items.take(n));
        lemma_refused(items, faults, n + 1);
    }
}

/// A room of the name is created, or a space where `space` is true; in the parent
/// that is named, which has to be a space; with the users invited that are
/// listed, each of them once and in order.
pub proof fn law_what_is_created(
    req: Tree,
    persona: Seq<char>,
    rooms: Seq<RoomAddr>,
    spaces: Seq<bool>,
    t: ThreadView,
    users: Seq<Seq<char>>,
)
    ensures
        ({
            let plan = ops::planned("create_room"@, req, persona, rooms, spaces, t);
            let is_space = json::field(req, "space"@) == Some(Tree::Bool(true));
            let invited = match json::field(req, "invite"@) {
                Some(Tree::Array(items)) => are_users(items, users),
                _ => users.len() == 0,
            };
            match json::text_field(req, "name"@) {
                None => plan == Err::<ActionView, Seq<char>>("create_room requires `name`"@),
                Some(called) => match json::text_field(req, "parent"@) {
                    None => invited ==> (plan matches Ok(ActionView::CreateRoom { name, is_space: space, parent, invite })
                        && name == called && space == is_space && parent is None && invite == users),
                    Some(p) => match rooms::picked(rooms, Some(p)) {
                        Err(e) => plan == Err::<ActionView, Seq<char>>(e.text()),
                        Ok(i) => if i < spaces.len() && spaces[i as int] {
                            invited ==> (plan matches Ok(
                                ActionView::CreateRoom { name, is_space: space, parent, invite },
                            ) && name == called && space == is_space && parent == Some(i) && invite == users)
                        } else {
                            plan == Err::<ActionView, Seq<char>>(
                                "parent room "@ + text::debug_text(rooms[i as int].id@) + " is not a Space (m.space)"@,
                            )
                        },
                    },
                },
            }
        }),
{
    lemma_op_names();
    match json::field(req, "invite"@) {
        Some(Tree::Array(items)) => {
            if are_users(items, users) {
                assert(items.take(items.len() as int) =~= items);
                lemma_admitted(items, ops::user_id_faults(items), users, items.len() as int);
            }
        },
        _ => {
            if users.len() == 0 {
                assert(users =~= Seq::empty());
            }
        },
    }
}

/// The first entry of the list that is no user id keeps the room from being
/// created, and is told of.
pub proof fn law_invalid_invites_are_refused(
    req: Tree,
    persona: Seq<char>,
    rooms: Seq<RoomAddr>,
    spaces: Seq<bool>,
    t: ThreadView,
    items: Seq<Tree>,
    n: int,
    users: Seq<Seq<char>>,
)
    requires
        json::text_field(req, "name"@) is Some,
        json::text_field(req, "parent"@) is None,
        json::field(req, "invite"@) == Some(Tree::Array(items)),
        0 <= n < items.len(),
        are_users(items.take(n), users),
    ensures
        ({
            let plan = ops::planned("create_room"@, req, persona, rooms, spaces, t);
            match items[n] {
                Tree::Text(user) => identifiers::user_id_fault(user) matches Some(fault) ==> plan == Err::<
                    ActionView,
                    Seq<char>,
                >("invalid user id in invite: "@ + fault),
                _ => plan == Err::<ActionView, Seq<char>>("invite entries must be user id strings"@),
            }
        }),
{
    lemma_op_names();
    let faults = ops::user_id_faults(items);
    lemma_admitted(items, faults, users, n);
    assert(items.take(n + 1).drop_last() =~= items.take(n));
    assert(items.take(n + 1).last() == items[n]);
    if ops::admitted(items.take(n + 1), faults) is Err {
        lemma_refused(items, faults, n + 1);
    }
}

/// A user is invited into the room that is named, both given in the request.
pub proof fn law_who_is_invited(
    req: Tree,
    persona: Seq<char>,
    rooms: Seq<RoomAddr>,
    spaces: Seq<bool>,
    t: ThreadView,
)
    ensures
        ({
            let plan = ops::planned("invite"@, req, persona, rooms, spaces, t);
            match json::text_field(req, "user"@) {
                None => plan == Err::<ActionView, Seq<char>>("invite requires `user`"@),
                Some(who) => match identifiers::user_id_fault(who) {
                    Some(fault) => plan == Err::<ActionView, Seq<char>>(
                        "invalid user id "@ + text::debug_text(who) + ": "@ + fault,
                    ),
                    None => match rooms::picked(rooms, json::text_field(req, "room"@)) {
                        Err(e) => plan == Err::<ActionView, Seq<char>>("resolving `room`: "@ + e.text()),
                        Ok(i) => plan matches Ok(ActionView::Invite { room, user }) && room == i && user == who,
                    },
                },
            }
        }),
{
    lemma_op_names();
}

/// A room is put into a space, both named in the request, and the latter has to
/// be one.
pub proof fn law_what_is_linked(
    req: Tree,
    persona: Seq<char>,
    rooms: Seq<RoomAddr>,
    spaces: Seq<bool>,
    t: ThreadView,
)
    ensures
        ({
            let plan = ops::planned("add_to_space"@, req, persona, rooms, spaces, t);
            match rooms::picked(rooms, json::text_field(req, "space"@)) {
                Err(e) => plan == Err::<ActionView, Seq<char>>("resolving `space`: "@ + e.text()),
                Ok(i) => if !(i < spaces.len() && spaces[i as int]) {
                    plan == Err::<ActionView, Seq<char>>(
                        "room "@ + text::debug_text(rooms[i as int].id@) + " is not a Space (m.space)"@,
                    )
                } else {
                    match rooms::picked(rooms, json::text_field(req, "room"@)) {
                        Err(e) => plan == Err::<ActionView, Seq<char>>("resolving `room`: "@ + e.text()),
                        Ok(j) => plan matches Ok(ActionView::AddToSpace { space, room }) && space == i && room == j,
                    }
                },
            }
        }),
{
    lemma_op_names();
}

/// Listing asks for nothing. Reading is of the room that is named, and of 20
/// events unless the request says, and never of more than 100. Checking reads
/// what it hands out unless it is a peek, and is of everything unless the request
/// says, and then never of more than 1000. There is no other operation.
pub proof fn law_what_is_read(
    req: Tree,
    persona: Seq<char>,
    rooms: Seq<RoomAddr>,
    spaces: Seq<bool>,
    t: ThreadView,
    op: Seq<char>,
)
    ensures
        ops::planned("list_rooms"@, req, persona, rooms, spaces, t) == Ok::<ActionView, Seq<char>>(
            ActionView::ListRooms,
        ),
        ({
            let plan = ops::planned("read"@, req, persona, rooms, spaces, t);
            match rooms::picked(rooms, json::text_field(req, "room"@)) {
                Err(e) => plan == Err::<ActionView, Seq<char>>(e.text()),
                Ok(i) => plan matches Ok(ActionView::Read { room, count }) && room == i && match json::unsigned_field(
                    req,
                    "limit"@,
                ) {
                    None => count == 20,
                    Some(n) => (n <= 100 ==> count == n) && (n > 100 ==> count == 100),
                },
            }
        }),
        ops::planned("check"@, req, persona, rooms, spaces, t) matches Ok(ActionView::Check { advance, limit }) && {
            &&& advance <==> json::field(req, "peek"@) != Some(Tree::Bool(true))
            &&& match json::unsigned_field(req, "limit"@) {
                None => limit is None,
                Some(n) => limit matches Some(count) && (n <= 1000 ==> count == n) && (n > 1000 ==> count == 1000),
            }
        },
        op != "send"@ && op != "create_room"@ && op != "invite"@ && op != "add_to_space"@ && op != "list_rooms"@ && op
            != "read"@ && op != "check"@ ==> ops::planned(op, req, persona, rooms, spaces, t) == Err::<
            ActionView,
            Seq<char>,
        >("unknown op "@ + text::debug_text(op)),
{
    lemma_op_names();
}

/// A room goes by its id, its name, its canonical alias and each of its other
/// aliases, and by nothing else.
pub proof fn law_names_of_a_room(room: RoomAddr, s: Seq<char>)
    ensures
        room.answers_to(s) <==> {
            ||| room.id@ == s
            ||| room.name matches Some(name) && name@ == s
            ||| room.canonical_alias matches Some(alias) && alias@ == s
            ||| exists|k: int| 0 <= k < room.alt_aliases@.len() && (#[trigger] room.alt_aliases@[k])@ == s
        },
{
}

/// A name means the one room that has it. One that no room has, or more than one,
/// means none, and how many there are is told. Without a name the only room is
/// meant, where there is only one.
pub proof fn law_which_room_is_meant(rooms: Seq<RoomAddr>, s: Seq<char>, i: int)
    requires
        rooms.len() <= usize::MAX,
    ensures
        0 <= i < rooms.len() && rooms[i].answers_to(s) && (forall|j: int|
            0 <= j < rooms.len() && j != i ==> !(#[trigger] rooms[j]).answers_to(s)) ==> rooms::picked(
            rooms,
            Some(s),
        ) == Ok::<usize, RoomErrorView>(i as usize),
        (forall|j: int| 0 <= j < rooms.len() ==> !(#[trigger] rooms[j]).answers_to(s)) ==> rooms::picked(
            rooms,
            Some(s),
        ) == Err::<usize, RoomErrorView>(RoomErrorView::NoMatch(s)),
        rooms::match_count(rooms, s) >= 2 ==> rooms::picked(rooms, Some(s)) == Err::<usize, RoomErrorView>(
            RoomErrorView::Ambiguous(s, rooms::match_count(rooms, s) as usize),
        ),
        rooms.len() == 1 ==> rooms::picked(rooms, None) == Ok::<usize, RoomErrorView>(0),
        rooms.len() != 1 ==> rooms::picked(rooms, None) == Err::<usize, RoomErrorView>(
            RoomErrorView::Required(rooms.len() as usize),
        ),
{
    if 0 <= i < rooms.len() && rooms[i].answers_to(s) && (forall|j: int|
        0 <= j < rooms.len() && j != i ==> !(#[trigger] rooms[j]).answers_to(s)) {
        lemma_one_match(rooms, s, i);
        assert(rooms::has_name(rooms, s, i));
        let k = choose|k: int| rooms::has_name(rooms, s, k);
        assert(rooms::has_name(rooms, s, k));
        if k != i {
            assert(!rooms[k].answers_to(s));
        }
    }
    if forall|j: int| 0 <= j < rooms.len() ==> !(#[trigger] rooms[j]).answers_to(s) {
        lemma_no_match(rooms, s);
    }
}

/// Rooms are counted one by one: another room adds one where it has the name.
pub proof fn law_rooms_are_counted(rooms: Seq<RoomAddr>, room: RoomAddr, s: Seq<char>)
    ensures
        rooms::match_count(Seq::empty(), s) == 0,
        room.answers_to(s) ==> rooms::match_count(rooms.push(room), s) == rooms::match_count(rooms, s) + 1,
        !room.answers_to(s) ==> rooms::match_count(rooms.push(room), s) == rooms::match_count(rooms, s),
{
    assert(rooms.push(room).drop_last() =~= rooms);
}

proof fn lemma_no_match(rooms: Seq<RoomAddr>, s: Seq<char>)
    requires
        forall|j: int| 0 <= j < rooms.len() ==> !(#[trigger] rooms[j]).answers_to(s),
    ensures
        rooms::match_count(rooms, s) == 0,
    decreases rooms.len(),
{
    if rooms.len() > 0 {
        assert(!rooms[rooms.len() - 1].answers_to(s));
        assert forall|j: int| 0 <= j < rooms.drop_last().len() implies !(#[trigger] rooms.drop_last()[j]).answers_to(
            s,
        ) by {
            assert(rooms.drop_last()[j] == rooms[j]);
        }
        lemma_no_match(rooms.drop_last(), s);
    }
}

proof fn lemma_one_match(rooms: Seq<RoomAddr>, s: Seq<char>, i: int)
    requires
        0 <= i < rooms.len(),
        rooms[i].answers_to(s),
        forall|j: int| 0 <= j < rooms.len() && j != i ==> !(#[trigger] rooms[j]).answers_to(s),
    ensures
        rooms::match_count(rooms, s) == 1,
    decreases rooms.len(),
{
    let front = rooms.drop_last();
    if i == rooms.len() - 1 {
        assert forall|j: int| 0 <= j < front.len() implies !(#[trigger] front[j]).answers_to(s) by {
            assert(front[j] == rooms[j]);
        }
        lemma_no_match(front, s);
    } else {
        assert(!rooms[rooms.len() - 1].answers_to(s));
        assert forall|j: int| 0 <= j < front.len() && j != i implies !(#[trigger] front[j]).answers_to(s) by {
            assert(front[j] == rooms[j]);
        }
        lemma_one_match(front, s, i);
    }
}

/// Why no room is meant is told in words.
pub proof fn law_why_no_room_is_meant(s: Seq<char>, n: usize)
    ensures
        RoomErrorView::NoMatch(s).text() == "no joined room matching "@ + text::debug_text(s),
        RoomErrorView::Ambiguous(s, n).text() == "ambiguous room spec "@ + text::debug_text(s) + ": "@
            + text::decimal(n as nat) + " joined rooms match"@,
        RoomErrorView::Required(n).text() == "`room` required: "@ + text::decimal(n as nat) + " rooms joined"@,
{
}

/// The index of the threads, as an event leaves it: the event is the last of its
/// thread; a task that had no thread has this one, and one that had keeps it; and
/// the thread is with whom the event is for, where that is a persona. Other
/// threads and tasks stay as they are.
pub proof fn law_what_a_thread_remembers(
    t: ThreadView,
    root: Seq<char>,
    event_id: Seq<char>,
    env: EnvelopeView,
    task: Seq<char>,
    other: Seq<char>,
)
    ensures
        ({
            let after = t.observed(root, event_id, env);
            &&& threads::looked_up(after.latest, root) == Some(event_id)
            &&& other != root ==> threads::looked_up(after.latest, other) == threads::looked_up(t.latest, other)
            &&& other != root ==> threads::looked_up(after.targets, other) == threads::looked_up(t.targets, other)
            &&& envelope::is_persona(env.to) ==> threads::looked_up(after.targets, root) == Some(env.to)
            &&& !envelope::is_persona(env.to) ==> threads::looked_up(after.targets, root) == threads::looked_up(
                t.targets,
                root,
            )
            &&& env.task_id == Some(task) && threads::looked_up(t.roots, task) is None ==> threads::looked_up(
                after.roots,
                task,
            ) == Some(root)
            &&& env.task_id != Some(task) || threads::looked_up(t.roots, task) is Some ==> threads::looked_up(
                after.roots,
                task,
            ) == threads::looked_up(t.roots, task)
        }),
{
}

/// A message read back from the room's history counts in the thread that it names,
/// or else in its own, for whom it says; anything but a message with an id and of
/// a version that is understood does not count.
pub proof fn law_what_history_counts(t: ThreadView, personas: Seq<String>, event: Tree)
    ensures
        ({
            let after = threads::replayed_event(t, personas, event);
            let content = match json::field(event, "content"@) {
                Some(content) => content,
                None => Tree::Null,
            };
            let sender = match json::field(event, "sender"@) {
                Some(Tree::Text(sender)) => sender,
                _ => Seq::empty(),
            };
            match json::text_field(event, "event_id"@) {
                Some(id) => if json::field(event, "type"@) == Some(Tree::Text("m.room.message"@)) {
                    let root = match envelope::thread_root(content) {
                        Some(root) => root,
                        None => id,
                    };
                    match envelope::inbound_of(content, sender, personas, threads::looked_up(t.targets, root)) {
                        envelope::InboundView::Envelope(env, _) => after == t.observed(root, id, env),
                        envelope::InboundView::UnsupportedVersion(_) => after == t,
                    }
                } else {
                    after == t
                },
                None => after == t,
            }
        }),
{
}

} // verus!
