//! Replies: what an agent is told once its request was carried out.
use vstd::prelude::*;
use vstd::string::*;

use crate::envelope;
use crate::envelope::{EnvelopeView, InboundView};
use crate::json;
use crate::json::Tree;
use crate::mailbox::EntryView;
use crate::replies;
use crate::replies::RoomListing;
use crate::send;
use crate::threads;
use crate::threads::ThreadView;

verus! {

/// The messages of the room among the events of a page, in the page's order:
/// every text that is JSON of the type `m.room.message`, whoever sent it.
pub open spec fn message_events(page: Seq<Seq<char>>) -> Seq<Tree>
    decreases page.len(),
{
    if page.len() == 0 {
        Seq::empty()
    } else {
        match json::parsed(page[0]) {
            Ok(event) => if json::field(event, "type"@) == Some(Tree::Text("m.room.message"@)) {
                seq![event] + message_events(page.drop_first())
            } else {
                message_events(page.drop_first())
            },
            Err(_) => message_events(page.drop_first()),
        }
    }
}

/// The sender of the event.
pub open spec fn sent_by(event: Tree) -> Seq<char> {
    match json::field(event, "sender"@) {
        Some(Tree::Text(sender)) => sender,
        _ => Seq::empty(),
    }
}

/// What the event says.
pub open spec fn content_in(event: Tree) -> Tree {
    match json::field(event, "content"@) {
        Some(content) => content,
        None => Tree::Null,
    }
}

/// Whether the message tells what the event is: its id, who sent it, whether that
/// is the daemon itself, when, and its envelope or the version that is not
/// understood.
pub open spec fn tells(message: Tree, event: Tree, own: Seq<char>, t: ThreadView, personas: Seq<String>) -> bool {
    &&& json::field(message, "event_id"@) == Some(
        match json::field(event, "event_id"@) {
            Some(id) => id,
            None => Tree::Null,
        },
    )
    &&& json::text_field(message, "sender"@) == Some(sent_by(event))
    &&& json::bool_field(message, "own"@) == Some(sent_by(event) == own)
    &&& json::field(message, "ts"@) == Some(
        match json::field(event, "origin_server_ts"@) {
            Some(ts) => ts,
            None => Tree::Null,
        },
    )
    &&& ({
        let root = match envelope::thread_root(content_in(event)) {
            Some(root) => Some(root),
            None => json::text_field(event, "event_id"@),
        };
        let agent = match root {
            Some(root) => threads::looked_up(t.targets, root),
            None => None,
        };
        match envelope::inbound_of(content_in(event), sent_by(event), personas, agent) {
            InboundView::Envelope(env, _) => json::field(message, "envelope"@) == Some(envelope::envelope_tree(env))
                && json::field(message, "unsupported_version"@) is None,
            InboundView::UnsupportedVersion(v) => json::unsigned_field(message, "unsupported_version"@) == Some(v)
                && json::field(message, "envelope"@) is None,
        }
    })
}

proof fn lemma_history_message(event: Tree, own: Seq<char>, t: ThreadView, personas: Seq<String>)
    requires
        json::field(event, "type"@) == Some(Tree::Text("m.room.message"@)),
    ensures
        replies::history_message(event, own, t, personas) matches Some(message) && tells(
            message,
            event,
            own,
            t,
            personas,
        ),
{
    reveal_strlit("event_id");
    reveal_strlit("sender");
    reveal_strlit("own");
    reveal_strlit("ts");
    reveal_strlit("envelope");
    reveal_strlit("unsupported_version");
    assert("event_id"@.len() == 8 && "sender"@.len() == 6 && "own"@.len() == 3 && "ts"@.len() == 2);
    assert("envelope"@.len() == 8 && "unsupported_version"@.len() == 19);
    assert("event_id"@[1] == 'v' && "envelope"@[1] == 'n');
    let pairs = replies::history_pairs(event, own, t, personas);
    assert(pairs.len() == 5);
    assert(pairs[0].0 == "event_id"@ && pairs[1].0 == "sender"@ && pairs[2].0 == "own"@ && pairs[3].0 == "ts"@);
    assert(pairs[4].0 == "envelope"@ || pairs[4].0 == "unsupported_version"@);
    json::lemma_object_fields(pairs);
    assert(threads::sender_of(event) == sent_by(event));
    assert(threads::content_of(event) == content_in(event));
}

/// Reading a room gives every message of the page, those that this host sent
/// among them, and nothing else; oldest first, where the page comes newest first.
pub proof fn law_every_message_is_read(
    page: Seq<Seq<char>>,
    own: Seq<char>,
    t: ThreadView,
    personas: Seq<String>,
    k: int,
)
    ensures
        ({
            let events = message_events(page);
            let messages = replies::page_messages(page, own, t, personas);
            &&& messages.len() == events.len()
            &&& 0 <= k < events.len() ==> tells(messages[k], events[events.len() - 1 - k], own, t, personas)
        }),
    decreases page.len(),
{
    if page.len() > 0 {
        let rest = page.drop_first();
        law_every_message_is_read(rest, own, t, personas, k);
        let events = message_events(page);
        let older = replies::page_messages(rest, own, t, personas);
        match json::parsed(page[0]) {
            Ok(event) => {
                if json::field(event, "type"@) == Some(Tree::Text("m.room.message"@)) {
                    lemma_history_message(event, own, t, personas);
                    let messages = replies::page_messages(page, own, t, personas);
                    assert(messages == older.push(replies::history_message(event, own, t, personas)->0));
                    assert(events[0] == event);
                    if 0 <= k < older.len() {
                        assert(messages[k] == older[k]);
                        assert(events[events.len() - 1 - k] == message_events(rest)[message_events(rest).len() - 1 - k]);
                    }
                }
            },
            Err(_) => {},
        }
    }
}

/// The reply to a read names the room and holds its messages.
pub proof fn law_read_replies(room_id: Seq<char>, messages: Seq<Tree>)
    ensures
        ({
            let reply = json::object(replies::read_pairs(room_id, messages));
            &&& json::bool_field(reply, "ok"@) == Some(true)
            &&& json::text_field(reply, "room_id"@) == Some(room_id)
            &&& json::field(reply, "messages"@) == Some(Tree::Array(messages))
        }),
{
    reveal_strlit("ok");
    reveal_strlit("room_id");
    reveal_strlit("messages");
    assert("ok"@.len() == 2 && "room_id"@.len() == 7 && "messages"@.len() == 8);
    let pairs = replies::read_pairs(room_id, messages);
    assert(pairs[0].0 == "ok"@ && pairs[1].0 == "room_id"@ && pairs[2].0 == "messages"@);
    json::lemma_object_fields(pairs);
}

/// The reply to a check holds the mail that is handed out, in order, each message
/// with its room, its event, who sent it and its envelope; and says whether it
/// counts as read now.
pub proof fn law_check_replies(entries: Seq<EntryView>, advanced: bool, k: int)
    ensures
        ({
            let reply = json::object(replies::check_pairs(entries, advanced));
            &&& json::bool_field(reply, "ok"@) == Some(true)
            &&& json::bool_field(reply, "advanced"@) == Some(advanced)
            &&& json::field(reply, "messages"@) matches Some(Tree::Array(messages)) && messages.len()
                == entries.len() && (0 <= k < entries.len() ==> {
                &&& json::text_field(messages[k], "room_id"@) == Some(entries[k].room_id)
                &&& json::text_field(messages[k], "event_id"@) == Some(entries[k].event_id)
                &&& json::text_field(messages[k], "sender"@) == Some(entries[k].sender)
                &&& json::field(messages[k], "envelope"@) == Some(envelope::envelope_tree(entries[k].envelope))
            })
        }),
{
    reveal_strlit("ok");
    reveal_strlit("advanced");
    reveal_strlit("messages");
    reveal_strlit("room_id");
    reveal_strlit("event_id");
    reveal_strlit("sender");
    reveal_strlit("envelope");
    assert("ok"@.len() == 2 && "advanced"@.len() == 8 && "messages"@.len() == 8 && "room_id"@.len() == 7);
    assert("event_id"@.len() == 8 && "sender"@.len() == 6 && "envelope"@.len() == 8);
    assert("advanced"@[0] == 'a' && "messages"@[0] == 'm' && "event_id"@[0] == 'e' && "envelope"@[0] == 'e');
    assert("event_id"@[1] == 'v' && "envelope"@[1] == 'n');
    let pairs = replies::check_pairs(entries, advanced);
    assert(pairs[0].0 == "ok"@ && pairs[1].0 == "advanced"@ && pairs[2].0 == "messages"@);
    json::lemma_object_fields(pairs);
    if 0 <= k < entries.len() {
        let entry = replies::entry_pairs(entries[k]);
        assert(entry[0].0 == "room_id"@ && entry[1].0 == "event_id"@ && entry[2].0 == "sender"@ && entry[3].0
            == "envelope"@);
        json::lemma_object_fields(entry);
    }
}

/// The reply to a message that was sent names its event and its room, and the type
/// that it went as; and the one that was asked for, when it is another.
pub proof fn law_send_replies(
    event_id: Seq<char>,
    room_id: Seq<char>,
    kind: Seq<char>,
    degraded_from: Option<Seq<char>>,
)
    ensures
        ({
            let reply = json::object(send::send_reply_pairs(event_id, room_id, kind, degraded_from));
            &&& json::bool_field(reply, "ok"@) == Some(true)
            &&& json::text_field(reply, "event_id"@) == Some(event_id)
            &&& json::text_field(reply, "room_id"@) == Some(room_id)
            &&& json::text_field(reply, "type"@) == Some(kind)
            &&& json::text_field(reply, "degraded_from"@) == degraded_from
            &&& degraded_from is None ==> json::field(reply, "degraded_from"@) is None
        }),
{
    reveal_strlit("ok");
    reveal_strlit("event_id");
    reveal_strlit("room_id");
    reveal_strlit("type");
    reveal_strlit("degraded_from");
    assert("ok"@.len() == 2 && "event_id"@.len() == 8 && "room_id"@.len() == 7 && "type"@.len() == 4);
    assert("degraded_from"@.len() == 13);
    let pairs = send::send_reply_pairs(event_id, room_id, kind, degraded_from);
    assert(pairs[0].0 == "ok"@ && pairs[1].0 == "event_id"@ && pairs[2].0 == "room_id"@ && pairs[3].0 == "type"@);
    assert(degraded_from is Some ==> pairs[4] == ("degraded_from"@, Tree::Text(degraded_from->0)));
    json::lemma_object_fields(pairs);
}

/// A message of a task is in the task's thread from the moment it is sent, and the
/// first of a task begins its thread; one without a task leaves no trace among the
/// threads.
pub proof fn law_sent_messages_are_remembered(
    t: ThreadView,
    env: EnvelopeView,
    root: Option<Seq<char>>,
    event_id: Seq<char>,
)
    ensures
        ({
            let after = replies::threads_after_send(t, env, root, event_id);
            &&& env.task_id is None ==> after == t
            &&& env.task_id is Some && root is Some ==> after == t.observed(root->0, event_id, env)
            &&& env.task_id is Some && root is None ==> after == t.observed(event_id, event_id, env)
        }),
{
}

/// The reply to the making of a room names it, says whether it is a space, and
/// names the space that it is in.
pub proof fn law_create_room_replies(
    room_id: Seq<char>,
    name: Seq<char>,
    is_space: bool,
    parent_space: Option<Seq<char>>,
)
    ensures
        ({
            let reply = json::object(replies::create_room_pairs(room_id, name, is_space, parent_space));
            &&& json::bool_field(reply, "ok"@) == Some(true)
            &&& json::text_field(reply, "room_id"@) == Some(room_id)
            &&& json::text_field(reply, "name"@) == Some(name)
            &&& json::text_field(reply, "type"@) == Some(
                if is_space {
                    "space"@
                } else {
                    "room"@
                },
            )
            &&& json::text_field(reply, "parent_space"@) == parent_space
            &&& parent_space is None ==> json::field(reply, "parent_space"@) == Some(Tree::Null)
        }),
{
    reveal_strlit("ok");
    reveal_strlit("room_id");
    reveal_strlit("name");
    reveal_strlit("type");
    reveal_strlit("parent_space");
    assert("ok"@.len() == 2 && "room_id"@.len() == 7 && "name"@.len() == 4 && "type"@.len() == 4);
    assert("parent_space"@.len() == 12);
    assert("name"@[0] == 'n' && "type"@[0] == 't');
    let pairs = replies::create_room_pairs(room_id, name, is_space, parent_space);
    assert(pairs[0].0 == "ok"@ && pairs[1].0 == "room_id"@ && pairs[2].0 == "name"@ && pairs[3].0 == "type"@ && pairs[4].0
        == "parent_space"@);
    json::lemma_object_fields(pairs);
}

/// The reply to an invitation names the room and the user.
pub proof fn law_invite_replies(room_id: Seq<char>, user: Seq<char>)
    ensures
        ({
            let reply = json::object(replies::invite_pairs(room_id, user));
            &&& json::bool_field(reply, "ok"@) == Some(true)
            &&& json::text_field(reply, "room_id"@) == Some(room_id)
            &&& json::text_field(reply, "user"@) == Some(user)
        }),
{
    reveal_strlit("ok");
    reveal_strlit("room_id");
    reveal_strlit("user");
    assert("ok"@.len() == 2 && "room_id"@.len() == 7 && "user"@.len() == 4);
    let pairs = replies::invite_pairs(room_id, user);
    assert(pairs[0].0 == "ok"@ && pairs[1].0 == "room_id"@ && pairs[2].0 == "user"@);
    json::lemma_object_fields(pairs);
}

/// The reply to a link names the space and the room, and says whether they were
/// linked before; they were where both halves of the link name a server.
pub proof fn law_link_replies(
    space: Seq<char>,
    room: Seq<char>,
    already_linked: bool,
    child: Option<usize>,
    parent: Option<usize>,
)
    ensures
        ({
            let reply = json::object(replies::add_to_space_pairs(space, room, already_linked));
            &&& json::bool_field(reply, "ok"@) == Some(true)
            &&& json::text_field(reply, "space"@) == Some(space)
            &&& json::text_field(reply, "room"@) == Some(room)
            &&& json::bool_field(reply, "already_linked"@) == Some(already_linked)
        }),
        replies::is_fully_linked(child, parent) <==> child is Some && parent is Some && child->0 != 0 && parent->0 != 0,
{
    reveal_strlit("ok");
    reveal_strlit("space");
    reveal_strlit("room");
    reveal_strlit("already_linked");
    assert("ok"@.len() == 2 && "space"@.len() == 5 && "room"@.len() == 4 && "already_linked"@.len() == 14);
    let pairs = replies::add_to_space_pairs(space, room, already_linked);
    assert(pairs[0].0 == "ok"@ && pairs[1].0 == "space"@ && pairs[2].0 == "room"@ && pairs[3].0 == "already_linked"@);
    json::lemma_object_fields(pairs);
}

/// The list of the rooms has one entry for each room, in order: its id, its name,
/// whether it is encrypted, whether it is a space, and the space that it is in.
pub proof fn law_rooms_are_listed(rooms: Seq<RoomListing>, k: int)
    ensures
        ({
            let reply = json::object(replies::list_rooms_pairs(rooms));
            &&& json::bool_field(reply, "ok"@) == Some(true)
            &&& json::field(reply, "rooms"@) matches Some(Tree::Array(listed)) && listed.len() == rooms.len() && (0 <= k
                < rooms.len() ==> {
                let room = rooms[k];
                &&& json::text_field(listed[k], "room_id"@) == Some(room.room_id@)
                &&& json::text_field(listed[k], "name"@) == json::opt_view(room.name)
                &&& room.name is None ==> json::field(listed[k], "name"@) == Some(Tree::Null)
                &&& json::bool_field(listed[k], "encrypted"@) == Some(room.encrypted)
                &&& json::text_field(listed[k], "type"@) == Some(
                    if room.is_space {
                        "space"@
                    } else {
                        "room"@
                    },
                )
                &&& json::text_field(listed[k], "parent_space"@) == json::opt_view(room.parent_space)
                &&& room.parent_space is None ==> json::field(listed[k], "parent_space"@) == Some(Tree::Null)
            })
        }),
{
    reveal_strlit("ok");
    reveal_strlit("rooms");
    reveal_strlit("room_id");
    reveal_strlit("name");
    reveal_strlit("encrypted");
    reveal_strlit("type");
    reveal_strlit("parent_space");
    assert("ok"@.len() == 2 && "rooms"@.len() == 5 && "room_id"@.len() == 7 && "name"@.len() == 4);
    assert("encrypted"@.len() == 9 && "type"@.len() == 4 && "parent_space"@.len() == 12);
    assert("name"@[0] == 'n' && "type"@[0] == 't');
    let pairs = replies::list_rooms_pairs(rooms);
    assert(pairs[0].0 == "ok"@ && pairs[1].0 == "rooms"@);
    json::lemma_object_fields(pairs);
    if 0 <= k < rooms.len() {
        let room = rooms[k].pairs();
        assert(room[0].0 == "room_id"@ && room[1].0 == "name"@ && room[2].0 == "encrypted"@ && room[3].0 == "type"@
            && room[4].0 == "parent_space"@);
        json::lemma_object_fields(room);
    }
}

/// What an agent is told of its message is the event and the room that it went to,
/// and how it went; of a read the room and its messages; of a check the mail that is
/// handed out, and whether it counts as read.
pub proof fn law_what_an_agent_is_told(
    out: send::OutboundView,
    event_id: Seq<char>,
    room_id: Seq<char>,
    page: Seq<Seq<char>>,
    own: Seq<char>,
    t: ThreadView,
    personas: Seq<String>,
    m: crate::mailbox::MailboxView,
    persona: Seq<char>,
    advance: bool,
    limit: Option<u32>,
    k: int,
)
    ensures
        ({
            let reply = replies::sent_reply(out, event_id, room_id);
            &&& json::text_field(reply, "event_id"@) == Some(event_id)
            &&& json::text_field(reply, "room_id"@) == Some(room_id)
            &&& json::text_field(reply, "type"@) == Some(out.env.kind)
            &&& json::text_field(reply, "degraded_from"@) == out.degraded_from
        }),
        ({
            let reply = replies::read_answer(room_id, page, own, t, personas);
            &&& json::bool_field(reply, "ok"@) == Some(true)
            &&& json::text_field(reply, "room_id"@) == Some(room_id)
            &&& json::field(reply, "messages"@) matches Some(Tree::Array(messages)) && {
                let events = message_events(page);
                &&& messages.len() == events.len()
                &&& 0 <= k < events.len() ==> tells(messages[k], events[events.len() - 1 - k], own, t, personas)
            }
        }),
        ({
            let reply = replies::checked_reply(m, persona, advance, limit);
            let out = m.handed_out(persona, limit);
            &&& json::bool_field(reply, "advanced"@) == Some(advance)
            &&& json::field(reply, "messages"@) matches Some(Tree::Array(messages)) && {
                &&& messages.len() == out.len()
                &&& 0 <= k < out.len() ==> {
                    &&& json::text_field(messages[k], "room_id"@) == Some(out[k].entry.room_id)
                    &&& json::text_field(messages[k], "event_id"@) == Some(out[k].entry.event_id)
                    &&& json::text_field(messages[k], "sender"@) == Some(out[k].entry.sender)
                    &&& json::field(messages[k], "envelope"@) == Some(envelope::envelope_tree(out[k].entry.envelope))
                }
            }
        }),
{
    law_send_replies(event_id, room_id, out.env.kind, out.degraded_from);
    law_every_message_is_read(page, own, t, personas, k);
    law_read_replies(room_id, replies::page_messages(page, own, t, personas));
    law_check_replies(crate::mailbox::row_entries(m.handed_out(persona, limit)), advance, k);
}

} // verus!
