//! What agents are answered once their request was carried out.
use vstd::prelude::*;
use vstd::string::*;

use crate::envelope;
use crate::envelope::{Envelope, EnvelopeView, Inbound, InboundView};
use crate::json;
use crate::json::{Json, Tree};
use crate::mailbox;
use crate::mailbox::{EntryView, MailboxEntry};
use crate::ops;
use crate::registry::{Registry, RegistryView};
use crate::send;
use crate::send::OutboundSend;
use crate::text;
use crate::text::same;
use crate::threads;
use crate::threads::{ThreadState, ThreadView};

verus! {

/// The index of the threads after a message was sent as the event: a message of
/// a task is in the task's thread, or is the root of it.
pub open spec fn threads_after_send(
    t: ThreadView,
    env: EnvelopeView,
    root: Option<Seq<char>>,
    event_id: Seq<char>,
) -> ThreadView {
    if env.task_id is Some {
        t.observed(
            match root {
                Some(root) => root,
                None => event_id,
            },
            event_id,
            env,
        )
    } else {
        t
    }
}

/// The reply to the message that was sent as the event.
pub open spec fn sent_reply(out: send::OutboundView, event_id: Seq<char>, room_id: Seq<char>) -> Tree {
    json::object(send::send_reply_pairs(event_id, room_id, out.env.kind, out.degraded_from))
}

/// Notes that the message was sent as the event, and makes the reply. `root` is
/// the thread that the message's task had.
pub fn finish_send(
    registry: &mut Registry,
    out: &OutboundSend,
    root: &Option<String>,
    event_id: &str,
    room_id: &str,
) -> (reply: Json)
    requires
        old(registry)@.well_formed(),
    ensures
        final(registry)@.well_formed(),
        final(registry)@ == (RegistryView {
            threads: threads_after_send(old(registry)@.threads, out@.env, json::opt_view(*root), event_id@),
            ..old(registry)@
        }),
        reply@ == json::object(
            send::send_reply_pairs(event_id@, room_id@, out@.env.kind, out@.degraded_from),
        ),
        reply@ == sent_reply(out@, event_id@, room_id@),
{
    if out.env.task_id.is_some() {
        let root = match root {
            Some(root) => root.clone(),
            None => event_id.to_owned(),
        };
        registry.observe(root.as_str(), event_id, &out.env);
    }
    match &out.degraded_from {
        Some(requested) => send::send_reply(event_id, room_id, out.env.kind.as_str(), Some(requested.as_str())),
        None => send::send_reply(event_id, room_id, out.env.kind.as_str(), None),
    }
}

/// Two messages of one task, sent one right after the other, are in one thread:
/// the second finds the root that the first made.
pub proof fn law_rapid_sends_share_a_thread(
    t: ThreadView,
    first: EnvelopeView,
    second: EnvelopeView,
    event_id: Seq<char>,
)
    requires
        first.task_id is Some,
        second.task_id == first.task_id,
    ensures
        ({
            let root = ops::known_root(t, first);
            let after = threads_after_send(t, first, root, event_id);
            ops::known_root(after, second) == Some(
                match root {
                    Some(root) => root,
                    None => event_id,
                },
            )
        }),
{
}

/// `space` or `room`.
pub open spec fn room_kind(is_space: bool) -> Seq<char> {
    if is_space {
        "space"@
    } else {
        "room"@
    }
}

fn kind_of(is_space: bool) -> (j: Json)
    ensures
        j@ == Tree::Text(room_kind(is_space)),
{
    if is_space {
        Json::text("space")
    } else {
        Json::text("room")
    }
}

/// The fields of the reply to a `create_room` request.
pub open spec fn create_room_pairs(
    room_id: Seq<char>,
    name: Seq<char>,
    is_space: bool,
    parent_space: Option<Seq<char>>,
) -> Seq<(Seq<char>, Tree)> {
    seq![
        ("ok"@, Tree::Bool(true)),
        ("room_id"@, Tree::Text(room_id)),
        ("name"@, Tree::Text(name)),
        ("type"@, Tree::Text(room_kind(is_space))),
        ("parent_space"@, json::optional_text_tree(parent_space)),
    ]
}

/// The reply to a `create_room` request.
pub fn create_room_reply(
    room_id: &str,
    name: &str,
    is_space: bool,
    parent_space: &Option<String>,
) -> (j: Json)
    ensures
        j@ == json::object(create_room_pairs(room_id@, name@, is_space, json::opt_view(*parent_space))),
{
    let fields = vec![
        json::pair("ok", Json::Bool(true)),
        json::pair("room_id", Json::text(room_id)),
        json::pair("name", Json::text(name)),
        json::pair("type", kind_of(is_space)),
        json::pair("parent_space", Json::optional_text(parent_space)),
    ];
    proof {
        assert(json::tree_pairs(fields@) =~= create_room_pairs(
            room_id@,
            name@,
            is_space,
            json::opt_view(*parent_space),
        ));
    }
    Json::Object(fields)
}

/// The fields of the reply to an `invite` request.
pub open spec fn invite_pairs(room_id: Seq<char>, user: Seq<char>) -> Seq<(Seq<char>, Tree)> {
    seq![("ok"@, Tree::Bool(true)), ("room_id"@, Tree::Text(room_id)), ("user"@, Tree::Text(user))]
}

/// The reply to an `invite` request.
pub fn invite_reply(room_id: &str, user: &str) -> (j: Json)
    ensures
        j@ == json::object(invite_pairs(room_id@, user@)),
{
    let fields = vec![
        json::pair("ok", Json::Bool(true)),
        json::pair("room_id", Json::text(room_id)),
        json::pair("user", Json::text(user)),
    ];
    proof {
        assert(json::tree_pairs(fields@) =~= invite_pairs(room_id@, user@));
    }
    Json::Object(fields)
}

/// The fields of the reply to an `add_to_space` request.
pub open spec fn add_to_space_pairs(
    space: Seq<char>,
    room: Seq<char>,
    already_linked: bool,
) -> Seq<(Seq<char>, Tree)> {
    seq![
        ("ok"@, Tree::Bool(true)),
        ("space"@, Tree::Text(space)),
        ("room"@, Tree::Text(room)),
        ("already_linked"@, Tree::Bool(already_linked)),
    ]
}

/// The reply to an `add_to_space` request.
pub fn add_to_space_reply(space: &str, room: &str, already_linked: bool) -> (j: Json)
    ensures
        j@ == json::object(add_to_space_pairs(space@, room@, already_linked)),
{
    let fields = vec![
        json::pair("ok", Json::Bool(true)),
        json::pair("space", Json::text(space)),
        json::pair("room", Json::text(room)),
        json::pair("already_linked", Json::Bool(already_linked)),
    ];
    proof {
        assert(json::tree_pairs(fields@) =~= add_to_space_pairs(space@, room@, already_linked));
    }
    Json::Object(fields)
}

/// Whether the two halves of the link between a space and a room are there.
/// Only a whole link is left as it is; half a one is written again.
pub open spec fn is_fully_linked(child_side_via: Option<usize>, parent_side_via: Option<usize>) -> bool {
    (child_side_via matches Some(n) && n > 0) && (parent_side_via matches Some(n) && n > 0)
}

/// Whether the two halves of the link between a space and a room are there,
/// given how many servers each of them names.
pub fn fully_linked(child_side_via: Option<usize>, parent_side_via: Option<usize>) -> (r: bool)
    ensures
        r == is_fully_linked(child_side_via, parent_side_via),
{
    let child = match child_side_via {
        Some(n) => n > 0,
        None => false,
    };
    let parent = match parent_side_via {
        Some(n) => n > 0,
        None => false,
    };
    child && parent
}

/// A joined room as it is listed.
#[derive(Debug)]
pub struct RoomListing {
    pub room_id: String,
    pub name: Option<String>,
    pub encrypted: bool,
    pub is_space: bool,
    pub parent_space: Option<String>,
}

impl RoomListing {
    /// The fields of the room in a list.
    pub open spec fn pairs(self) -> Seq<(Seq<char>, Tree)> {
        seq![
            ("room_id"@, Tree::Text(self.room_id@)),
            ("name"@, json::optional_text_tree(json::opt_view(self.name))),
            ("encrypted"@, Tree::Bool(self.encrypted)),
            ("type"@, Tree::Text(room_kind(self.is_space))),
            ("parent_space"@, json::optional_text_tree(json::opt_view(self.parent_space))),
        ]
    }

    fn to_json(&self) -> (j: Json)
        ensures
            j@ == json::object(self.pairs()),
    {
        let fields = vec![
            json::pair("room_id", Json::text(self.room_id.as_str())),
            json::pair("name", Json::optional_text(&self.name)),
            json::pair("encrypted", Json::Bool(self.encrypted)),
            json::pair("type", kind_of(self.is_space)),
            json::pair("parent_space", Json::optional_text(&self.parent_space)),
        ];
        proof {
            assert(json::tree_pairs(fields@) =~= self.pairs());
        }
        Json::Object(fields)
    }
}

/// The fields of the reply to a `list_rooms` request.
pub open spec fn list_rooms_pairs(rooms: Seq<RoomListing>) -> Seq<(Seq<char>, Tree)> {
    seq![
        ("ok"@, Tree::Bool(true)),
        ("rooms"@, Tree::Array(Seq::new(rooms.len(), |i: int| json::object(rooms[i].pairs())))),
    ]
}

/// The reply to a `list_rooms` request.
pub fn list_rooms_reply(rooms: &[RoomListing]) -> (j: Json)
    ensures
        j@ == json::object(list_rooms_pairs(rooms@)),
{
    let mut items: Vec<Json> = Vec::new();
    let mut i: usize = 0;
    while i < rooms.len()
        invariant
            i <= rooms@.len(),
            items@.len() == i,
            forall|k: int| 0 <= k < i ==> json::tree(#[trigger] items@[k]) == json::object(rooms@[k].pairs()),
        decreases rooms@.len() - i,
    {
        items.push(rooms[i].to_json());
        i = i + 1;
    }
    let ghost listed = json::trees(items@);
    let fields = vec![json::pair("ok", Json::Bool(true)), json::pair("rooms", Json::Array(items))];
    proof {
        assert(listed =~= Seq::new(rooms@.len(), |i: int| json::object(rooms@[i].pairs())));
        assert(json::tree_pairs(fields@) =~= list_rooms_pairs(rooms@));
    }
    Json::Object(fields)
}

/// The value of the field, null when there is none.
pub open spec fn field_or_null(t: Tree, name: Seq<char>) -> Tree {
    match json::field(t, name) {
        Some(value) => value,
        None => Tree::Null,
    }
}

fn get_or_null(j: &Json, name: &str) -> (r: Json)
    ensures
        r@ == field_or_null(j@, name@),
{
    match j.get(name) {
        Some(value) => value.clone(),
        None => Json::Null,
    }
}

/// What a message of the room's history is. Without an id of its own, it is in
/// a thread only where it names one.
pub open spec fn history_inbound(event: Tree, t: ThreadView, personas: Seq<String>) -> InboundView {
    let content = threads::content_of(event);
    let sender = threads::sender_of(event);
    match json::text_field(event, "event_id"@) {
        Some(id) => threads::inbound_in_thread(t, content, id, sender, personas),
        None => envelope::inbound_of(
            content,
            sender,
            personas,
            match envelope::thread_root(content) {
                Some(root) => threads::looked_up(t.targets, root),
                None => None,
            },
        ),
    }
}

/// The fields of a message of the room's history: its envelope, or the version
/// that is not understood.
pub open spec fn history_pairs(
    event: Tree,
    own: Seq<char>,
    t: ThreadView,
    personas: Seq<String>,
) -> Seq<(Seq<char>, Tree)> {
    seq![
        ("event_id"@, field_or_null(event, "event_id"@)),
        ("sender"@, Tree::Text(threads::sender_of(event))),
        ("own"@, Tree::Bool(threads::sender_of(event) == own)),
        ("ts"@, field_or_null(event, "origin_server_ts"@)),
    ].push(
        match history_inbound(event, t, personas) {
            InboundView::Envelope(env, _) => ("envelope"@, envelope::envelope_tree(env)),
            InboundView::UnsupportedVersion(v) => ("unsupported_version"@, json::unsigned_tree(v)),
        },
    )
}

/// The message that an event of the room's history is; none when it is not one.
pub open spec fn history_message(
    event: Tree,
    own: Seq<char>,
    t: ThreadView,
    personas: Seq<String>,
) -> Option<Tree> {
    if threads::is_message(event) {
        Some(json::object(history_pairs(event, own, t, personas)))
    } else {
        None
    }
}

/// The message that an event of the room's history is. `own` is the user that
/// the daemon is.
pub fn read_message(event: &Json, own: &str, t: &ThreadState, personas: &[String]) -> (r: Option<Json>)
    ensures
        envelope::optional_tree(r) == history_message(event@, own@, t@, personas@),
{
    if !threads::message(event) {
        return None;
    }
    let content = threads::event_content(event);
    let sender = threads::event_sender(event);
    let inbound = match event.get_str("event_id") {
        Some(id) => threads::read_in_thread(t, &content, id, sender.as_str(), personas).inbound,
        None => {
            let agent = match envelope::thread_root_from_content(&content) {
                Some(root) => t.target_for_thread(root.as_str()),
                None => None,
            };
            match &agent {
                Some(agent) => envelope::from_event_json(
                    &content,
                    sender.as_str(),
                    personas,
                    Some(agent.as_str()),
                ),
                None => envelope::from_event_json(&content, sender.as_str(), personas, None),
            }
        },
    };
    let mut fields = vec![
        json::pair("event_id", get_or_null(event, "event_id")),
        json::pair("sender", Json::text(sender.as_str())),
        json::pair("own", Json::Bool(same(sender.as_str(), own))),
        json::pair("ts", get_or_null(event, "origin_server_ts")),
    ];
    match &inbound {
        Inbound::Envelope(env, _) => {
            fields.push(json::pair("envelope", envelope::envelope_json(env)));
        },
        Inbound::UnsupportedVersion(v) => {
            fields.push(json::pair("unsupported_version", Json::unsigned(*v)));
        },
    }
    proof {
        assert(json::tree_pairs(fields@) =~= history_pairs(event@, own@, t@, personas@));
    }
    Some(Json::Object(fields))
}

/// The messages among the events of a page of history, which comes newest
/// first; the messages come oldest first. Texts that are not JSON are passed
/// over.
pub open spec fn page_messages(
    page: Seq<Seq<char>>,
    own: Seq<char>,
    t: ThreadView,
    personas: Seq<String>,
) -> Seq<Tree>
    decreases page.len(),
{
    if page.len() == 0 {
        Seq::empty()
    } else {
        let older = page_messages(page.drop_first(), own, t, personas);
        match json::parsed(page[0]) {
            Ok(event) => match history_message(event, own, t, personas) {
                Some(message) => older.push(message),
                None => older,
            },
            Err(_) => older,
        }
    }
}

/// The fields of the reply to a `read` request.
pub open spec fn read_pairs(room_id: Seq<char>, messages: Seq<Tree>) -> Seq<(Seq<char>, Tree)> {
    seq![
        ("ok"@, Tree::Bool(true)),
        ("room_id"@, Tree::Text(room_id)),
        ("messages"@, Tree::Array(messages)),
    ]
}

/// The reply to a `read` request of the room, made of a page of its history.
pub open spec fn read_answer(
    room_id: Seq<char>,
    page: Seq<Seq<char>>,
    own: Seq<char>,
    t: ThreadView,
    personas: Seq<String>,
) -> Tree {
    json::object(read_pairs(room_id, page_messages(page, own, t, personas)))
}

/// The reply to a `read` request, made of the events' JSON texts, newest first.
pub fn read_reply(
    room_id: &str,
    page: &[String],
    own: &str,
    t: &ThreadState,
    personas: &[String],
) -> (j: Json)
    ensures
        j@ == json::object(
            read_pairs(room_id@, page_messages(text::views(page@), own@, t@, personas@)),
        ),
        j@ == read_answer(room_id@, text::views(page@), own@, t@, personas@),
{
    let mut messages: Vec<Json> = Vec::new();
    let ghost all = text::views(page@);
    let mut i: usize = page.len();
    proof {
        assert(json::trees(messages@) =~= page_messages(all.skip(i as int), own@, t@, personas@));
    }
    while i > 0
        invariant
            i <= page@.len(),
            all == text::views(page@),
            json::trees(messages@) == page_messages(all.skip(i as int), own@, t@, personas@),
        decreases i,
    {
        i = i - 1;
        let ghost was = messages@;
        proof {
            assert(all.skip(i as int).drop_first() =~= all.skip(i + 1));
            assert(all.skip(i as int)[0] == page@[i as int]@);
        }
        match Json::parse(page[i].as_str()) {
            Ok(event) => {
                match read_message(&event, own, t, personas) {
                    Some(message) => {
                        messages.push(message);
                        proof {
                            assert(json::trees(messages@) =~= json::trees(was).push(message@));
                        }
                    },
                    None => {},
                }
            },
            Err(_) => {},
        }
    }
    let ghost read = json::trees(messages@);
    let fields = vec![
        json::pair("ok", Json::Bool(true)),
        json::pair("room_id", Json::text(room_id)),
        json::pair("messages", Json::Array(messages)),
    ];
    proof {
        assert(all.skip(0) =~= all);
        assert(json::tree_pairs(fields@) =~= read_pairs(room_id@, read));
    }
    Json::Object(fields)
}

/// The fields of a message in a mailbox as it is handed out.
pub open spec fn entry_pairs(entry: EntryView) -> Seq<(Seq<char>, Tree)> {
    seq![
        ("room_id"@, Tree::Text(entry.room_id)),
        ("event_id"@, Tree::Text(entry.event_id)),
        ("sender"@, Tree::Text(entry.sender)),
        ("envelope"@, envelope::envelope_tree(entry.envelope)),
    ]
}

/// The fields of the reply to a `check` request.
pub open spec fn check_pairs(entries: Seq<EntryView>, advanced: bool) -> Seq<(Seq<char>, Tree)> {
    seq![
        ("ok"@, Tree::Bool(true)),
        ("advanced"@, Tree::Bool(advanced)),
        ("messages"@, Tree::Array(Seq::new(entries.len(), |i: int| json::object(entry_pairs(entries[i]))))),
    ]
}

fn entry_json(entry: &MailboxEntry) -> (j: Json)
    ensures
        j@ == json::object(entry_pairs(entry@)),
{
    let fields = vec![
        json::pair("room_id", Json::text(entry.room_id.as_str())),
        json::pair("event_id", Json::text(entry.event_id.as_str())),
        json::pair("sender", Json::text(entry.sender.as_str())),
        json::pair("envelope", envelope::envelope_json(&entry.envelope)),
    ];
    proof {
        assert(json::tree_pairs(fields@) =~= entry_pairs(entry@));
    }
    Json::Object(fields)
}

/// The reply to a `check` request.
pub fn check_reply(entries: &[MailboxEntry], advanced: bool) -> (j: Json)
    ensures
        j@ == json::object(check_pairs(mailbox::entry_views(entries@), advanced)),
{
    let mut messages: Vec<Json> = Vec::new();
    let mut i: usize = 0;
    while i < entries.len()
        invariant
            i <= entries@.len(),
            messages@.len() == i,
            forall|k: int|
                0 <= k < i ==> json::tree(#[trigger] messages@[k]) == json::object(entry_pairs(entries@[k]@)),
        decreases entries@.len() - i,
    {
        messages.push(entry_json(&entries[i]));
        i = i + 1;
    }
    let ghost handed = json::trees(messages@);
    let ghost views = mailbox::entry_views(entries@);
    let fields = vec![
        json::pair("ok", Json::Bool(true)),
        json::pair("advanced", Json::Bool(advanced)),
        json::pair("messages", Json::Array(messages)),
    ];
    proof {
        assert(handed =~= Seq::new(views.len(), |i: int| json::object(entry_pairs(views[i]))));
        assert(json::tree_pairs(fields@) =~= check_pairs(views, advanced));
    }
    Json::Object(fields)
}

/// The reply to a check of the persona's mail.
pub open spec fn checked_reply(m: mailbox::MailboxView, persona: Seq<char>, advance: bool, limit: Option<u32>) -> Tree {
    json::object(check_pairs(mailbox::row_entries(m.handed_out(persona, limit)), advance))
}

/// Checks the persona's mail as the plan says, and makes the reply.
pub fn run_check(registry: &mut Registry, persona: &str, advance: bool, limit: Option<u32>) -> (reply: Json)
    requires
        old(registry)@.well_formed(),
    ensures
        final(registry)@.well_formed(),
        final(registry)@ == (RegistryView {
            mailbox: old(registry)@.mailbox.checked(persona@, advance, limit),
            ..old(registry)@
        }),
        reply@ == json::object(
            check_pairs(
                mailbox::row_entries(old(registry)@.mailbox.handed_out(persona@, limit)),
                advance,
            ),
        ),
        reply@ == checked_reply(old(registry)@.mailbox, persona@, advance, limit),
{
    let entries = registry.check(persona, advance, limit);
    check_reply(entries.as_slice(), advance)
}

} // verus!
