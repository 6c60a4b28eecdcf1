//! Threads: what the room's events say about which thread a task has, what
//! came last in it, and whom it is with.
//!
//! The index is made of observed events alone, and is made anew from the room's
//! history at every start.
use vstd::hash_map::StringHashMap;
use vstd::prelude::*;

use crate::envelope;
use crate::envelope::{Envelope, EnvelopeView, Inbound, InboundView};
use crate::json;
use crate::json::{Json, Tree};
use crate::text::same;

verus! {

/// The model of the index.
#[verifier::ext_equal]
pub struct ThreadView {
    /// The root of each task's thread.
    pub roots: Map<Seq<char>, Seq<char>>,
    /// The last event in the thread of each root.
    pub latest: Map<Seq<char>, Seq<char>>,
    /// The persona last addressed in the thread of each root.
    pub targets: Map<Seq<char>, Seq<char>>,
}

/// What the map holds for the key.
pub open spec fn looked_up(map: Map<Seq<char>, Seq<char>>, key: Seq<char>) -> Option<Seq<char>> {
    if map.dom().contains(key) {
        Some(map[key])
    } else {
        None
    }
}

impl ThreadView {
    /// Nothing observed yet.
    pub open spec fn empty() -> ThreadView {
        ThreadView { roots: Map::empty(), latest: Map::empty(), targets: Map::empty() }
    }

    /// The index after the event, in the thread of `root`, was seen to carry
    /// the envelope. A task keeps the root that it was first seen with.
    pub open spec fn observed(self, root: Seq<char>, event_id: Seq<char>, env: EnvelopeView) -> ThreadView {
        ThreadView {
            roots: match env.task_id {
                Some(task_id) if !self.roots.dom().contains(task_id) => self.roots.insert(task_id, root),
                _ => self.roots,
            },
            latest: self.latest.insert(root, event_id),
            targets: if envelope::is_persona(env.to) {
                self.targets.insert(root, env.to)
            } else {
                self.targets
            },
        }
    }
}

/// The thread that an event belongs to: the one it names, else its own.
pub open spec fn root_of(content: Tree, event_id: Seq<char>) -> Seq<char> {
    match envelope::thread_root(content) {
        Some(root) => root,
        None => event_id,
    }
}

/// The index of the threads.
pub struct ThreadState {
    task_roots: StringHashMap<String>,
    latest_in_thread: StringHashMap<String>,
    thread_target: StringHashMap<String>,
}

/// The characters of the texts in the map.
pub open spec fn text_map(map: Map<Seq<char>, String>) -> Map<Seq<char>, Seq<char>> {
    Map::new(|k: Seq<char>| map.dom().contains(k), |k: Seq<char>| map[k]@)
}

impl View for ThreadState {
    type V = ThreadView;

    closed spec fn view(&self) -> ThreadView {
        ThreadView {
            roots: text_map(self.task_roots@),
            latest: text_map(self.latest_in_thread@),
            targets: text_map(self.thread_target@),
        }
    }
}

fn look_up(map: &StringHashMap<String>, key: &str) -> (r: Option<String>)
    ensures
        json::opt_view(r) == looked_up(text_map(map@), key@),
{
    match map.get(key) {
        Some(s) => Some(s.clone()),
        None => None,
    }
}

fn put(map: &mut StringHashMap<String>, key: &str, value: &str)
    ensures
        text_map(final(map)@) == text_map(old(map)@).insert(key@, value@),
{
    let ghost before = map@;
    map.insert(key.to_owned(), value.to_owned());
    proof {
        assert(text_map(map@) =~= text_map(before).insert(key@, value@));
    }
}

impl Default for ThreadState {
    fn default() -> (t: Self)
        ensures
            t@ == ThreadView::empty(),
    {
        let t = ThreadState {
            task_roots: StringHashMap::new(),
            latest_in_thread: StringHashMap::new(),
            thread_target: StringHashMap::new(),
        };
        proof {
            assert(t@ =~= ThreadView::empty());
        }
        t
    }
}

impl ThreadState {
    /// The root of the task's thread.
    pub fn root_for_task(&self, task_id: &str) -> (r: Option<String>)
        ensures
            json::opt_view(r) == looked_up(self@.roots, task_id@),
    {
        look_up(&self.task_roots, task_id)
    }

    /// The last event in the thread of the root.
    pub fn latest_in_thread(&self, root_event_id: &str) -> (r: Option<String>)
        ensures
            json::opt_view(r) == looked_up(self@.latest, root_event_id@),
    {
        look_up(&self.latest_in_thread, root_event_id)
    }

    /// The persona last addressed in the thread of the root.
    pub fn target_for_thread(&self, root_event_id: &str) -> (r: Option<String>)
        ensures
            json::opt_view(r) == looked_up(self@.targets, root_event_id@),
    {
        look_up(&self.thread_target, root_event_id)
    }

    /// Notes that the event, in the thread of `thread_root`, carries `env`.
    pub fn observe(&mut self, thread_root: &str, event_id: &str, env: &Envelope)
        ensures
            final(self)@ == old(self)@.observed(thread_root@, event_id@, env@),
    {
        let ghost before = self@;
        put(&mut self.latest_in_thread, thread_root, event_id);
        match &env.task_id {
            Some(task_id) => {
                if !self.task_roots.contains_key(task_id.as_str()) {
                    put(&mut self.task_roots, task_id.as_str(), thread_root);
                }
            },
            None => {},
        }
        if envelope::valid_persona(env.to.as_str()) {
            put(&mut self.thread_target, thread_root, env.to.as_str());
        }
        proof {
            assert(self@ =~= before.observed(thread_root@, event_id@, env@));
        }
    }
}

/// What an event is, given the persona last addressed in its thread.
pub open spec fn inbound_in_thread(
    t: ThreadView,
    content: Tree,
    event_id: Seq<char>,
    sender: Seq<char>,
    personas: Seq<String>,
) -> InboundView {
    envelope::inbound_of(content, sender, personas, looked_up(t.targets, root_of(content, event_id)))
}

/// An event read in its thread.
pub struct ThreadedEvent {
    /// The root of the thread that the event belongs to.
    pub root: String,
    pub inbound: Inbound,
}

/// The thread that the event belongs to, and what the event is in it.
pub fn read_in_thread(
    threads: &ThreadState,
    content: &Json,
    event_id: &str,
    sender: &str,
    personas: &[String],
) -> (r: ThreadedEvent)
    ensures
        r.root@ == root_of(content@, event_id@),
        r.inbound@ == inbound_in_thread(threads@, content@, event_id@, sender@, personas@),
{
    let root = match envelope::thread_root_from_content(content) {
        Some(root) => root,
        None => event_id.to_owned(),
    };
    let agent = threads.target_for_thread(root.as_str());
    let inbound = match &agent {
        Some(agent) => envelope::from_event_json(content, sender, personas, Some(agent.as_str())),
        None => envelope::from_event_json(content, sender, personas, None),
    };
    ThreadedEvent { root, inbound }
}

/// The content of an event, null when it has none.
pub open spec fn content_of(event: Tree) -> Tree {
    match json::field(event, "content"@) {
        Some(content) => content,
        None => Tree::Null,
    }
}

/// The sender of an event, empty when it names none.
pub open spec fn sender_of(event: Tree) -> Seq<char> {
    match json::text_field(event, "sender"@) {
        Some(sender) => sender,
        None => Seq::empty(),
    }
}

/// Whether the event is a message.
pub open spec fn is_message(event: Tree) -> bool {
    json::text_field(event, "type"@) == Some("m.room.message"@)
}

/// The index after the event of the room's history: a message with an id, of a
/// version that is understood, counts as it did when it came.
pub open spec fn replayed_event(t: ThreadView, personas: Seq<String>, event: Tree) -> ThreadView {
    let id = json::text_field(event, "event_id"@);
    if is_message(event) && id is Some {
        let content = content_of(event);
        match inbound_in_thread(t, content, id->0, sender_of(event), personas) {
            InboundView::Envelope(env, _) => t.observed(root_of(content, id->0), id->0, env),
            InboundView::UnsupportedVersion(_) => t,
        }
    } else {
        t
    }
}

/// The index after the events of the room's history, oldest first.
pub open spec fn replayed(t: ThreadView, personas: Seq<String>, events: Seq<Tree>) -> ThreadView
    decreases events.len(),
{
    if events.len() == 0 {
        t
    } else {
        replayed_event(replayed(t, personas, events.drop_last()), personas, events.last())
    }
}

/// The content of the event; null when it has none.
pub fn event_content(event: &Json) -> (content: Json)
    ensures
        content@ == content_of(event@),
{
    match event.get("content") {
        Some(content) => content.clone(),
        None => Json::Null,
    }
}

/// The sender of the event; empty when it names none.
pub fn event_sender(event: &Json) -> (sender: String)
    ensures
        sender@ == sender_of(event@),
{
    match event.get_str("sender") {
        Some(sender) => sender.to_owned(),
        None => {
            let none = String::new();
            proof {
                assert(none@ =~= Seq::empty());
            }
            none
        },
    }
}

/// Whether the event is a message.
pub fn message(event: &Json) -> (r: bool)
    ensures
        r == is_message(event@),
{
    match event.get_str("type") {
        Some(kind) => same(kind, "m.room.message"),
        None => false,
    }
}

/// Makes the index of the events of the room's history, oldest first.
pub fn replay_thread_events(threads: &mut ThreadState, personas: &[String], events: &[Json])
    ensures
        final(threads)@ == replayed(old(threads)@, personas@, json::trees(events@)),
{
    let ghost before = threads@;
    let ghost all = json::trees(events@);
    let mut i: usize = 0;
    while i < events.len()
        invariant
            i <= events@.len(),
            all == json::trees(events@),
            before == old(threads)@,
            threads@ == replayed(before, personas@, all.take(i as int)),
        decreases events@.len() - i,
    {
        let event = &events[i];
        proof {
            assert(all.take(i + 1).drop_last() =~= all.take(i as int));
            assert(all.take(i + 1).last() == event@);
        }
        if message(event) {
            match event.get_str("event_id") {
                Some(event_id) => {
                    let content = event_content(event);
                    let sender = event_sender(event);
                    let read = read_in_thread(threads, &content, event_id, sender.as_str(), personas);
                    match read.inbound {
                        Inbound::Envelope(env, _) => {
                            threads.observe(read.root.as_str(), event_id, &env);
                        },
                        Inbound::UnsupportedVersion(_) => {},
                    }
                },
                None => {},
            }
        }
        i = i + 1;
    }
    proof {
        assert(all.take(all.len() as int) =~= all);
    }
}

/// A task keeps the thread that it was first seen in, whatever comes after.
pub proof fn law_task_roots_are_kept(
    t: ThreadView,
    personas: Seq<String>,
    events: Seq<Tree>,
    task_id: Seq<char>,
)
    requires
        t.roots.dom().contains(task_id),
    ensures
        looked_up(replayed(t, personas, events).roots, task_id) == looked_up(t.roots, task_id),
    decreases events.len(),
{
    if events.len() > 0 {
        law_task_roots_are_kept(t, personas, events.drop_last(), task_id);
    }
}

/// An observed event is the last of its thread; whom it addresses, when that is
/// a persona, is whom the thread is with; and its task has a thread.
pub proof fn law_observed_events_count(t: ThreadView, root: Seq<char>, event_id: Seq<char>, env: EnvelopeView)
    ensures
        ({
            let after = t.observed(root, event_id, env);
            &&& looked_up(after.latest, root) == Some(event_id)
            &&& looked_up(after.targets, root) == if envelope::is_persona(env.to) {
                Some(env.to)
            } else {
                looked_up(t.targets, root)
            }
            &&& env.task_id is Some ==> looked_up(after.roots, env.task_id->0) is Some
        }),
{
}

/// Whether whom the threads are with are personas.
pub open spec fn targets_are_personas(t: ThreadView) -> bool {
    forall|root: Seq<char>| t.targets.dom().contains(root) ==> envelope::is_persona(#[trigger] t.targets[root])
}

/// Whom a thread is with is always a persona.
pub proof fn law_targets_are_personas(t: ThreadView, personas: Seq<String>, events: Seq<Tree>)
    requires
        targets_are_personas(t),
    ensures
        targets_are_personas(replayed(t, personas, events)),
    decreases events.len(),
{
    if events.len() > 0 {
        law_targets_are_personas(t, personas, events.drop_last());
        let before = replayed(t, personas, events.drop_last());
        let after = replayed(t, personas, events);
        assert(after == replayed_event(before, personas, events.last()));
        assert forall|root: Seq<char>| after.targets.dom().contains(root) implies envelope::is_persona(
            #[trigger] after.targets[root],
        ) by {
            if before.targets.dom().contains(root) {
                assert(envelope::is_persona(before.targets[root]));
            }
        }
    }
}

/// Replaying a history in two parts is replaying it at once.
pub proof fn law_replay_in_parts(t: ThreadView, personas: Seq<String>, first: Seq<Tree>, second: Seq<Tree>)
    ensures
        replayed(replayed(t, personas, first), personas, second) == replayed(t, personas, first + second),
    decreases second.len(),
{
    if second.len() > 0 {
        law_replay_in_parts(t, personas, first, second.drop_last());
        assert((first + second).drop_last() =~= first + second.drop_last());
    } else {
        assert(first + second =~= first);
    }
}

} // verus!
