//! The operations an agent can ask for: what each request comes to, and what it
//! is answered.
//!
//! A request is planned against the joined rooms and the threads. What the plan
//! says is then done in the room, and the reply made of what came of it.
use vstd::prelude::*;
use vstd::string::*;

use crate::envelope;
use crate::envelope::EnvelopeView;
use crate::identifiers;
use crate::json;
use crate::json::{Json, Tree};
use crate::rooms;
use crate::rooms::{RoomAddr, RoomError, RoomErrorView};
use crate::send;
use crate::send::{OutboundSend, OutboundView};
use crate::text;
use crate::text::{debug_form, same};
use crate::threads;
use crate::threads::{ThreadState, ThreadView};

verus! {

/// What a request comes to. Rooms are given by their index among the joined
/// ones.
#[derive(Debug)]
pub enum Action {
    /// Send the content as a message into the room. `root` is the thread that
    /// the message's task has already.
    Send { room: usize, out: OutboundSend, root: Option<String>, content: Json },
    /// Create a room, or a space, and put it into the parent space.
    CreateRoom { name: String, is_space: bool, parent: Option<usize>, invite: Vec<String> },
    /// Invite the user into the room.
    Invite { room: usize, user: String },
    /// Put the room into the space.
    AddToSpace { space: usize, room: usize },
    /// List the joined rooms.
    ListRooms,
    /// Read so many of the room's latest events.
    Read { room: usize, count: u32 },
    /// Hand out the persona's mail, and count it as read or not.
    Check { advance: bool, limit: Option<u32> },
}

/// The model of an action.
pub enum ActionView {
    Send { room: usize, out: OutboundView, root: Option<Seq<char>>, content: Tree },
    CreateRoom { name: Seq<char>, is_space: bool, parent: Option<usize>, invite: Seq<Seq<char>> },
    Invite { room: usize, user: Seq<char> },
    AddToSpace { space: usize, room: usize },
    ListRooms,
    Read { room: usize, count: u32 },
    Check { advance: bool, limit: Option<u32> },
}

impl View for Action {
    type V = ActionView;

    open spec fn view(&self) -> ActionView {
        match self {
            Action::Send { room, out, root, content } => ActionView::Send {
                room: *room,
                out: out@,
                root: json::opt_view(*root),
                content: content@,
            },
            Action::CreateRoom { name, is_space, parent, invite } => ActionView::CreateRoom {
                name: name@,
                is_space: *is_space,
                parent: *parent,
                invite: text::views(invite@),
            },
            Action::Invite { room, user } => ActionView::Invite { room: *room, user: user@ },
            Action::AddToSpace { space, room } => ActionView::AddToSpace { space: *space, room: *room },
            Action::ListRooms => ActionView::ListRooms,
            Action::Read { room, count } => ActionView::Read { room: *room, count: *count },
            Action::Check { advance, limit } => ActionView::Check { advance: *advance, limit: *limit },
        }
    }
}

/// The models of a plan and of a message in words.
pub open spec fn plan_view(r: Result<Action, String>) -> Result<ActionView, Seq<char>> {
    match r {
        Ok(action) => Ok(action@),
        Err(message) => Err(message@),
    }
}

/// Whether the room at the index is a space.
pub open spec fn is_space_at(spaces: Seq<bool>, i: usize) -> bool {
    i < spaces.len() && spaces[i as int]
}

fn space_at(spaces: &[bool], i: usize) -> (r: bool)
    ensures
        r == is_space_at(spaces@, i),
{
    i < spaces.len() && spaces[i]
}

/// The room that the request's field means, or why none.
pub open spec fn room_in(rooms: Seq<RoomAddr>, req: Tree, name: Seq<char>) -> Result<usize, RoomErrorView> {
    rooms::picked(rooms, json::text_field(req, name))
}

fn pick_in(rooms: &[RoomAddr], req: &Json, name: &str) -> (r: Result<usize, RoomError>)
    ensures
        rooms::pick_view(r) == room_in(rooms@, req@, name@),
        r matches Ok(i) ==> i < rooms@.len(),
{
    rooms::pick_room_index(rooms, req.get_str(name))
}

/// The thread that the message's task has already.
pub open spec fn known_root(t: ThreadView, env: EnvelopeView) -> Option<Seq<char>> {
    match env.task_id {
        Some(task_id) => threads::looked_up(t.roots, task_id),
        None => None,
    }
}

/// The relation of a message to the thread of the root: it follows the latest
/// event in it.
pub open spec fn relation_to(t: ThreadView, root: Option<Seq<char>>) -> Option<Tree> {
    match root {
        Some(root) => Some(
            envelope::thread_relation_tree(
                root,
                match threads::looked_up(t.latest, root) {
                    Some(latest) => latest,
                    None => root,
                },
            ),
        ),
        None => None,
    }
}

/// What a `send` request comes to.
pub open spec fn planned_send(
    req: Tree,
    persona: Seq<char>,
    rooms: Seq<RoomAddr>,
    t: ThreadView,
) -> Result<ActionView, Seq<char>> {
    match send::send_result(persona, req) {
        Err(message) => Err(message),
        Ok(out) => match room_in(rooms, req, "room"@) {
            Err(e) => Err(e.text()),
            Ok(room) => {
                let root = known_root(t, out.env);
                Ok(
                    ActionView::Send {
                        room,
                        out,
                        root,
                        content: envelope::event_tree(out.env, relation_to(t, root)),
                    },
                )
            },
        },
    }
}

fn plan_send(
    req: &Json,
    persona: &str,
    rooms: &[RoomAddr],
    t: &ThreadState,
) -> (r: Result<Action, String>)
    ensures
        plan_view(r) == planned_send(req@, persona@, rooms@, t@),
        r matches Ok(Action::Send { room, .. }) ==> room < rooms@.len(),
{
    let out = match send::build_send_envelope(persona, req) {
        Ok(out) => out,
        Err(message) => {
            return Err(message);
        },
    };
    let room: usize = match pick_in(rooms, req, "room") {
        Ok(room) => room,
        Err(e) => {
            return Err(e.message());
        },
    };
    let root = match &out.env.task_id {
        Some(task_id) => t.root_for_task(task_id.as_str()),
        None => None,
    };
    let relates_to = match &root {
        Some(root) => {
            let latest = match t.latest_in_thread(root.as_str()) {
                Some(latest) => latest,
                None => root.clone(),
            };
            Some(envelope::thread_relation(root.as_str(), latest.as_str()))
        },
        None => None,
    };
    let content = envelope::to_event_content(&out.env, relates_to);
    Ok(Action::Send { room, out, root, content })
}

/// The users among the items, or what is wrong with one of them. `faults` says
/// for each item what is wrong with it as a user id.
pub open spec fn admitted(items: Seq<Tree>, faults: Seq<Option<Seq<char>>>) -> Result<Seq<Seq<char>>, Seq<char>>
    decreases items.len(),
{
    if items.len() == 0 {
        Ok(Seq::empty())
    } else {
        match admitted(items.drop_last(), faults) {
            Err(message) => Err(message),
            Ok(users) => match json::text_of(items.last()) {
                None => Err("invite entries must be user id strings"@),
                Some(user) => match faults[items.len() - 1] {
                    Some(fault) => Err("invalid user id in invite: "@ + fault),
                    None => Ok(users.push(user)),
                },
            },
        }
    }
}

/// What is wrong with each item as a user id.
pub open spec fn user_id_faults(items: Seq<Tree>) -> Seq<Option<Seq<char>>> {
    Seq::new(
        items.len(),
        |i: int|
            match json::text_of(items[i]) {
                Some(user) => identifiers::user_id_fault(user),
                None => None,
            },
    )
}

/// The users that a `create_room` request asks to invite: none when it has no
/// list of them.
pub open spec fn requested_invites(req: Tree) -> Result<Seq<Seq<char>>, Seq<char>> {
    match json::field(req, "invite"@) {
        Some(Tree::Array(items)) => admitted(items, user_id_faults(items)),
        _ => Ok(Seq::empty()),
    }
}

/// The models of a list of texts and of a message in words.
pub open spec fn texts_result(r: Result<Vec<String>, String>) -> Result<Seq<Seq<char>>, Seq<char>> {
    match r {
        Ok(list) => Ok(text::views(list@)),
        Err(message) => Err(message@),
    }
}

/// The characters of texts that may be missing.
pub open spec fn optional_views(list: Seq<Option<String>>) -> Seq<Option<Seq<char>>> {
    Seq::new(list.len(), |i: int| json::opt_view(list[i]))
}

/// A fault among the first users is the fault of them all.
proof fn lemma_invite_fault(items: Seq<Tree>, faults: Seq<Option<Seq<char>>>, n: int)
    requires
        0 <= n <= items.len(),
        admitted(items.take(n), faults) is Err,
    ensures
        admitted(items, faults) == admitted(items.take(n), faults),
    decreases items.len() - n,
{
    if n == items.len() {
        assert(items.take(n) =~= items);
    } else {
        assert(items.take(n + 1).drop_last() =~= items.take(n));
        lemma_invite_fault(items, faults, n + 1);
    }
}

/// The users among the items, or what is wrong with one of them. `faults` says
/// for each item what is wrong with it as a user id.
pub fn admit_users(items: &[Json], faults: &[Option<String>]) -> (r: Result<Vec<String>, String>)
    requires
        faults@.len() == items@.len(),
    ensures
        texts_result(r) == admitted(json::trees(items@), optional_views(faults@)),
{
    let mut users: Vec<String> = Vec::new();
    let ghost all = json::trees(items@);
    let ghost wrong = optional_views(faults@);
    let mut i: usize = 0;
    proof {
        assert(text::views(users@) =~= Seq::empty());
    }
    while i < items.len()
        invariant
            i <= items@.len(),
            faults@.len() == items@.len(),
            all == json::trees(items@),
            wrong == optional_views(faults@),
            admitted(all.take(i as int), wrong) == Ok::<Seq<Seq<char>>, Seq<char>>(text::views(users@)),
        decreases items@.len() - i,
    {
        let ghost was = users@;
        proof {
            assert(all.take(i + 1).drop_last() =~= all.take(i as int));
            assert(all.take(i + 1).last() == items@[i as int]@);
        }
        let user = match items[i].as_str() {
            Some(user) => user,
            None => {
                proof {
                    lemma_invite_fault(all, wrong, i + 1);
                }
                return Err("invite entries must be user id strings".to_owned());
            },
        };
        match &faults[i] {
            Some(fault) => {
                let mut message = "invalid user id in invite: ".to_owned();
                message.append(fault.as_str());
                proof {
                    assert(wrong[i as int] == Some(fault@));
                    lemma_invite_fault(all, wrong, i + 1);
                }
                return Err(message);
            },
            None => {},
        }
        users.push(user.to_owned());
        proof {
            assert(wrong[i as int] is None);
            assert(text::views(users@) =~= text::views(was).push(user@));
        }
        i = i + 1;
    }
    proof {
        assert(all.take(all.len() as int) =~= all);
    }
    Ok(users)
}

fn read_invites(req: &Json) -> (r: Result<Vec<String>, String>)
    ensures
        texts_result(r) == requested_invites(req@),
{
    let items = match req.get("invite") {
        Some(Json::Array(items)) => items,
        _ => {
            let users: Vec<String> = Vec::new();
            proof {
                assert(text::views(users@) =~= Seq::empty());
            }
            return Ok(users);
        },
    };
    let ghost all = json::trees(items@);
    let mut faults: Vec<Option<String>> = Vec::new();
    let mut i: usize = 0;
    while i < items.len()
        invariant
            i <= items@.len(),
            all == json::trees(items@),
            faults@.len() == i,
            forall|k: int| 0 <= k < i ==> json::opt_view(#[trigger] faults@[k]) == user_id_faults(all)[k],
        decreases items@.len() - i,
    {
        let fault = match items[i].as_str() {
            Some(user) => identifiers::user_id_error(user),
            None => None,
        };
        proof {
            assert(all[i as int] == items@[i as int]@);
            assert(json::opt_view(fault) == user_id_faults(all)[i as int]);
        }
        faults.push(fault);
        i = i + 1;
    }
    proof {
        assert(optional_views(faults@) =~= user_id_faults(all));
    }
    admit_users(items.as_slice(), faults.as_slice())
}

/// The space that a `create_room` request puts the room into.
pub open spec fn requested_parent(
    req: Tree,
    rooms: Seq<RoomAddr>,
    spaces: Seq<bool>,
) -> Result<Option<usize>, Seq<char>> {
    match json::text_field(req, "parent"@) {
        None => Ok(None),
        Some(_) => match room_in(rooms, req, "parent"@) {
            Err(e) => Err(e.text()),
            Ok(i) => if is_space_at(spaces, i) {
                Ok(Some(i))
            } else {
                Err("parent room "@ + text::debug_text(rooms[i as int].id@) + " is not a Space (m.space)"@)
            },
        },
    }
}

/// What a `create_room` request comes to.
pub open spec fn planned_create_room(
    req: Tree,
    rooms: Seq<RoomAddr>,
    spaces: Seq<bool>,
) -> Result<ActionView, Seq<char>> {
    match json::text_field(req, "name"@) {
        None => Err("create_room requires `name`"@),
        Some(name) => match requested_parent(req, rooms, spaces) {
            Err(message) => Err(message),
            Ok(parent) => match requested_invites(req) {
                Err(message) => Err(message),
                Ok(invite) => Ok(
                    ActionView::CreateRoom {
                        name,
                        is_space: json::bool_field(req, "space"@) == Some(true),
                        parent,
                        invite,
                    },
                ),
            },
        },
    }
}

fn not_a_space(before: &str, id: &str) -> (r: String)
    ensures
        r@ == before@ + text::debug_text(id@) + " is not a Space (m.space)"@,
{
    let mut r = before.to_owned();
    r.append(debug_form(id).as_str());
    r.append(" is not a Space (m.space)");
    r
}

fn plan_create_room(req: &Json, rooms: &[RoomAddr], spaces: &[bool]) -> (r: Result<Action, String>)
    ensures
        plan_view(r) == planned_create_room(req@, rooms@, spaces@),
        r matches Ok(Action::CreateRoom { parent: Some(i), .. }) ==> i < rooms@.len(),
{
    let name = match req.get_str("name") {
        Some(name) => name.to_owned(),
        None => {
            return Err("create_room requires `name`".to_owned());
        },
    };
    let is_space = match req.get_bool("space") {
        Some(b) => b,
        None => false,
    };
    let parent = match req.get_str("parent") {
        Some(_) => {
            match pick_in(rooms, req, "parent") {
                Ok(i) => {
                    if !space_at(spaces, i) {
                        return Err(not_a_space("parent room ", rooms[i].id.as_str()));
                    }
                    Some(i)
                },
                Err(e) => {
                    return Err(e.message());
                },
            }
        },
        None => None,
    };
    match read_invites(req) {
        Ok(invite) => Ok(Action::CreateRoom { name, is_space, parent, invite }),
        Err(message) => Err(message),
    }
}

/// What an `invite` request for the user comes to, given what is wrong with it
/// as a user id. The user is looked at before the room.
pub open spec fn planned_invite_of(
    user: Seq<char>,
    fault: Option<Seq<char>>,
    req: Tree,
    rooms: Seq<RoomAddr>,
) -> Result<ActionView, Seq<char>> {
    match fault {
        Some(fault) => Err("invalid user id "@ + text::debug_text(user) + ": "@ + fault),
        None => match room_in(rooms, req, "room"@) {
            Err(e) => Err("resolving `room`: "@ + e.text()),
            Ok(room) => Ok(ActionView::Invite { room, user }),
        },
    }
}

/// What an `invite` request comes to.
pub open spec fn planned_invite(req: Tree, rooms: Seq<RoomAddr>) -> Result<ActionView, Seq<char>> {
    match json::text_field(req, "user"@) {
        None => Err("invite requires `user`"@),
        Some(user) => planned_invite_of(user, identifiers::user_id_fault(user), req, rooms),
    }
}

fn resolving(what: &str, e: &RoomError) -> (r: String)
    ensures
        r@ == what@ + e@.text(),
{
    let mut r = what.to_owned();
    r.append(e.message().as_str());
    r
}

/// What an `invite` request for the user comes to, given what is wrong with it
/// as a user id.
pub fn plan_invite_of(user: &str, fault: Option<String>, req: &Json, rooms: &[RoomAddr]) -> (r: Result<
    Action,
    String,
>)
    ensures
        plan_view(r) == planned_invite_of(user@, json::opt_view(fault), req@, rooms@),
        r matches Ok(action) ==> rooms_exist(action, rooms@.len()),
{
    match fault {
        Some(fault) => {
            let mut message = "invalid user id ".to_owned();
            message.append(debug_form(user).as_str());
            message.append(": ");
            message.append(fault.as_str());
            return Err(message);
        },
        None => {},
    }
    match pick_in(rooms, req, "room") {
        Ok(room) => Ok(Action::Invite { room, user: user.to_owned() }),
        Err(e) => Err(resolving("resolving `room`: ", &e)),
    }
}

fn plan_invite(req: &Json, rooms: &[RoomAddr]) -> (r: Result<Action, String>)
    ensures
        plan_view(r) == planned_invite(req@, rooms@),
        r matches Ok(action) ==> rooms_exist(action, rooms@.len()),
{
    match req.get_str("user") {
        Some(user) => plan_invite_of(user, identifiers::user_id_error(user), req, rooms),
        None => Err("invite requires `user`".to_owned()),
    }
}

/// What an `add_to_space` request comes to.
pub open spec fn planned_add_to_space(
    req: Tree,
    rooms: Seq<RoomAddr>,
    spaces: Seq<bool>,
) -> Result<ActionView, Seq<char>> {
    match room_in(rooms, req, "space"@) {
        Err(e) => Err("resolving `space`: "@ + e.text()),
        Ok(space) => if !is_space_at(spaces, space) {
            Err("room "@ + text::debug_text(rooms[space as int].id@) + " is not a Space (m.space)"@)
        } else {
            match room_in(rooms, req, "room"@) {
                Err(e) => Err("resolving `room`: "@ + e.text()),
                Ok(room) => Ok(ActionView::AddToSpace { space, room }),
            }
        },
    }
}

fn plan_add_to_space(req: &Json, rooms: &[RoomAddr], spaces: &[bool]) -> (r: Result<Action, String>)
    ensures
        plan_view(r) == planned_add_to_space(req@, rooms@, spaces@),
        r matches Ok(Action::AddToSpace { space, room }) ==> space < rooms@.len() && room < rooms@.len(),
{
    let space: usize = match pick_in(rooms, req, "space") {
        Ok(space) => space,
        Err(e) => {
            return Err(resolving("resolving `space`: ", &e));
        },
    };
    if !space_at(spaces, space) {
        return Err(not_a_space("room ", rooms[space].id.as_str()));
    }
    match pick_in(rooms, req, "room") {
        Ok(room) => Ok(Action::AddToSpace { space, room }),
        Err(e) => Err(resolving("resolving `room`: ", &e)),
    }
}

/// How many events a `read` request is for: 20 unless it says, and no more than
/// 100.
pub open spec fn read_limit(req: Tree) -> u32 {
    match json::unsigned_field(req, "limit"@) {
        Some(n) => if n < 100 {
            n as u32
        } else {
            100
        },
        None => 20,
    }
}

/// How many messages a `check` request is for, and no more than 1000; all of
/// them unless it says.
pub open spec fn check_limit(req: Tree) -> Option<u32> {
    match json::unsigned_field(req, "limit"@) {
        Some(n) => Some(
            if n < 1000 {
                n as u32
            } else {
                1000
            },
        ),
        None => None,
    }
}

/// What the request of the persona comes to.
pub open spec fn planned(
    op: Seq<char>,
    req: Tree,
    persona: Seq<char>,
    rooms: Seq<RoomAddr>,
    spaces: Seq<bool>,
    t: ThreadView,
) -> Result<ActionView, Seq<char>> {
    if op == "send"@ {
        planned_send(req, persona, rooms, t)
    } else if op == "create_room"@ {
        planned_create_room(req, rooms, spaces)
    } else if op == "invite"@ {
        planned_invite(req, rooms)
    } else if op == "add_to_space"@ {
        planned_add_to_space(req, rooms, spaces)
    } else if op == "list_rooms"@ {
        Ok(ActionView::ListRooms)
    } else if op == "read"@ {
        match room_in(rooms, req, "room"@) {
            Err(e) => Err(e.text()),
            Ok(room) => Ok(ActionView::Read { room, count: read_limit(req) }),
        }
    } else if op == "check"@ {
        Ok(
            ActionView::Check {
                advance: json::bool_field(req, "peek"@) != Some(true),
                limit: check_limit(req),
            },
        )
    } else {
        Err("unknown op "@ + text::debug_text(op))
    }
}

/// Whether the rooms that the action names are among the joined ones.
pub open spec fn rooms_exist(action: Action, n: nat) -> bool {
    match action {
        Action::Send { room, .. } => room < n,
        Action::CreateRoom { parent, .. } => parent matches Some(i) ==> i < n,
        Action::Invite { room, .. } => room < n,
        Action::AddToSpace { space, room } => space < n && room < n,
        Action::Read { room, .. } => room < n,
        _ => true,
    }
}

/// What the request `req` of the persona, for the operation `op`, comes to.
/// `spaces` says which of the joined rooms are spaces.
pub fn plan_op(
    op: &str,
    req: &Json,
    persona: &str,
    rooms: &[RoomAddr],
    spaces: &[bool],
    t: &ThreadState,
) -> (r: Result<Action, String>)
    ensures
        plan_view(r) == planned(op@, req@, persona@, rooms@, spaces@, t@),
        r matches Ok(action) ==> rooms_exist(action, rooms@.len()),
{
    if same(op, "send") {
        plan_send(req, persona, rooms, t)
    } else if same(op, "create_room") {
        plan_create_room(req, rooms, spaces)
    } else if same(op, "invite") {
        plan_invite(req, rooms)
    } else if same(op, "add_to_space") {
        plan_add_to_space(req, rooms, spaces)
    } else if same(op, "list_rooms") {
        Ok(Action::ListRooms)
    } else if same(op, "read") {
        match pick_in(rooms, req, "room") {
            Ok(room) => {
                let count: u32 = match req.get_u64("limit") {
                    Some(n) => if n < 100 {
                        n as u32
                    } else {
                        100
                    },
                    None => 20,
                };
                Ok(Action::Read { room, count })
            },
            Err(e) => Err(e.message()),
        }
    } else if same(op, "check") {
        let advance = match req.get_bool("peek") {
            Some(peek) => !peek,
            None => true,
        };
        let limit: Option<u32> = match req.get_u64("limit") {
            Some(n) => Some(
                if n < 1000 {
                    n as u32
                } else {
                    1000
                },
            ),
            None => None,
        };
        Ok(Action::Check { advance, limit })
    } else {
        let mut message = "unknown op ".to_owned();
        message.append(debug_form(op).as_str());
        Err(message)
    }
}

} // verus!
