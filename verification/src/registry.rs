//! The registry: who is connected, which personas are hosted here, and what the
//! daemon knows of the room and of its own connection to it.
use vstd::prelude::*;

use crate::backoff;
use crate::backoff::exponential_backoff_secs;
use crate::envelope;
use crate::envelope::{Envelope, EnvelopeView};
use crate::json;
use crate::json::{Json, Tree};
use crate::mailbox;
use crate::mailbox::{Delivery, EntryView, Mailbox, MailboxEntry, MailboxFull, MailboxView};
use crate::text;
use crate::text::same;
use crate::threads::{ThreadState, ThreadView};

verus! {

/// A connection to the room that is being tried again.
#[derive(Clone, Copy, Debug, PartialEq, Eq, Structural)]
pub struct RetryState {
    pub attempt: u32,
    pub backoff_secs: u64,
}

/// A connected agent.
struct Conn {
    id: u64,
    persona: String,
}

/// The model of a connected agent.
pub struct ConnView {
    pub id: u64,
    pub persona: Seq<char>,
}

/// The registry.
pub struct Registry {
    conns: Vec<Conn>,
    next_id: u64,
    personas: Vec<String>,
    surfaced_unsupported: Vec<(String, u64)>,
    threads: ThreadState,
    mailbox: Mailbox,
    last_event_received_at: Option<u64>,
    last_sync_completed_at: Option<u64>,
    retry_state: Option<RetryState>,
}

/// The model of the registry. Times are seconds on a clock that never goes
/// back.
#[verifier::ext_equal]
pub struct RegistryView {
    pub conns: Seq<ConnView>,
    pub next_id: u64,
    pub personas: Seq<String>,
    pub surfaced: Set<(Seq<char>, u64)>,
    pub threads: ThreadView,
    pub mailbox: MailboxView,
    pub last_event: Option<u64>,
    pub last_sync: Option<u64>,
    pub retry: Option<RetryState>,
}

spec fn conn_views(conns: Seq<Conn>) -> Seq<ConnView> {
    Seq::new(conns.len(), |i: int| ConnView { id: conns[i].id, persona: conns[i].persona@ })
}

/// The pairs of texts and numbers.
spec fn pair_set(pairs: Seq<(String, u64)>) -> Set<(Seq<char>, u64)> {
    Set::new(|p: (Seq<char>, u64)| exists|i: int| 0 <= i < pairs.len() && (#[trigger] pairs[i]).0@ == p.0 && pairs[i].1 == p.1)
}

impl View for Registry {
    type V = RegistryView;

    closed spec fn view(&self) -> RegistryView {
        RegistryView {
            conns: conn_views(self.conns@),
            next_id: self.next_id,
            personas: self.personas@,
            surfaced: pair_set(self.surfaced_unsupported@),
            threads: self.threads@,
            mailbox: self.mailbox@,
            last_event: self.last_event_received_at,
            last_sync: self.last_sync_completed_at,
            retry: self.retry_state,
        }
    }
}

/// The number, or null.
pub open spec fn optional_number(n: Option<u64>) -> Tree {
    match n {
        Some(n) => json::unsigned_tree(n),
        None => Tree::Null,
    }
}

fn number_or_null(n: Option<u64>) -> (j: Json)
    ensures
        j@ == optional_number(n),
{
    match n {
        Some(n) => Json::unsigned(n),
        None => Json::Null,
    }
}

/// The retry that follows when a sync fails: the first, or the one after that
/// which is under way.
pub open spec fn next_retry(retry: Option<RetryState>) -> RetryState {
    let attempt = match retry {
        Some(retry) => if retry.attempt < u32::MAX {
            (retry.attempt + 1) as u32
        } else {
            u32::MAX
        },
        None => 1,
    };
    RetryState { attempt, backoff_secs: backoff::backoff_delay(attempt as int) as u64 }
}

/// How many nanoseconds, the unit of the daemon's clock, a second has.
pub const NANOS_PER_SEC: u64 = 1_000_000_000;

/// The whole seconds from `then` to `now`, both in nanoseconds; none when `then`
/// lies ahead.
pub open spec fn secs_ago(then: Option<u64>, now: u64) -> Option<u64> {
    match then {
        Some(then) => Some(
            if then <= now {
                ((now - then) / NANOS_PER_SEC as int) as u64
            } else {
                0
            },
        ),
        None => None,
    }
}

fn elapsed(then: Option<u64>, now: u64) -> (r: Option<u64>)
    ensures
        r == secs_ago(then, now),
{
    match then {
        Some(then) => Some(
            if then <= now {
                (now - then) / NANOS_PER_SEC
            } else {
                0
            },
        ),
        None => None,
    }
}

/// The personas for which the predicate holds, in order.
pub open spec fn chosen(personas: Seq<String>, f: spec_fn(Seq<char>) -> bool) -> Seq<Seq<char>>
    decreases personas.len(),
{
    if personas.len() == 0 {
        Seq::empty()
    } else if f(personas.last()@) {
        chosen(personas.drop_last(), f).push(personas.last()@)
    } else {
        chosen(personas.drop_last(), f)
    }
}

/// Whether the message goes into the persona's mailbox: it is addressed to the
/// persona or to everyone, and not the persona's own.
pub open spec fn receives(own_event: bool, env: EnvelopeView) -> spec_fn(Seq<char>) -> bool {
    |p: Seq<char>| (env.to == "*"@ || env.to == p) && !(own_event && p == env.from)
}

/// The mailboxes after the entry was delivered to one persona after the other,
/// and whether there was a number for each.
pub open spec fn delivered_to_all(m: MailboxView, recipients: Seq<Seq<char>>, entry: EntryView) -> (MailboxView, bool)
    decreases recipients.len(),
{
    if recipients.len() == 0 {
        (m, true)
    } else {
        let before = delivered_to_all(m, recipients.drop_last(), entry);
        if !before.1 || (!mailbox::is_ephemeral(entry.envelope.body) && before.0.next_seq > mailbox::MAX_SEQ) {
            (before.0, false)
        } else {
            (before.0.delivered(recipients.last(), entry), true)
        }
    }
}

/// What a delivery into the persona's mailbox changed.
pub open spec fn delivery_is(d: Delivery, before: MailboxView, persona: Seq<char>, entry: EntryView) -> bool {
    if mailbox::is_ephemeral(entry.envelope.body) {
        d.stored is None && d.dropped@.len() == 0
    } else {
        &&& d.stored == Some(before.next_seq)
        &&& forall|seq: u64|
            d.dropped@.contains(seq) <==> mailbox::dropped_by_sweep(
                before.with_row(persona, entry),
                persona,
                mailbox::MAX_UNCONSUMED_PER_PERSONA as nat,
                seq,
            )
    }
}

/// A delivery into a persona's mailbox.
pub struct PersonaDelivery {
    pub persona: String,
    pub delivery: Delivery,
}

impl RegistryView {
    /// The numbers of the connections rise below the next one, and the
    /// mailboxes are well-formed.
    pub open spec fn well_formed(self) -> bool {
        &&& self.mailbox.well_formed()
        &&& forall|i: int| 0 <= i < self.conns.len() ==> (#[trigger] self.conns[i]).id < self.next_id
        &&& forall|i: int, j: int| 0 <= i < j < self.conns.len() ==> self.conns[i].id < self.conns[j].id
    }

    /// The connections that are handed a message: all but, for one of this
    /// daemon's own events, those of the persona that wrote it.
    pub open spec fn hearers(self, own_event: bool, author: Seq<char>) -> Seq<ConnView> {
        self.conns.filter(|c: ConnView| !(own_event && c.persona == author))
    }

    /// The personas into whose mailboxes the message goes.
    pub open spec fn recipients(self, own_event: bool, env: EnvelopeView) -> Seq<Seq<char>> {
        chosen(self.personas, receives(own_event, env))
    }

    /// The registry with another connection.
    pub open spec fn with_conn(self, persona: Seq<char>) -> RegistryView {
        RegistryView {
            conns: self.conns.push(ConnView { id: self.next_id, persona }),
            next_id: (self.next_id + 1) as u64,
            ..self
        }
    }

    /// The registry after an event arrived.
    pub open spec fn heard(self, now: u64) -> RegistryView {
        RegistryView { last_event: Some(now), ..self }
    }

    /// The registry after a sync completed.
    pub open spec fn synced(self, now: u64) -> RegistryView {
        RegistryView { last_sync: Some(now), retry: None, ..self }
    }

    /// The registry after a sync failed.
    pub open spec fn unsynced(self) -> RegistryView {
        RegistryView { retry: Some(next_retry(self.retry)), ..self }
    }

    /// The registry without the connection.
    pub open spec fn without_conn(self, id: u64) -> RegistryView {
        RegistryView { conns: self.conns.filter(|c: ConnView| c.id != id), ..self }
    }

    /// The fields of the daemon's report on itself.
    pub open spec fn status_pairs(self, now: u64) -> Seq<(Seq<char>, Tree)> {
        seq![
            ("ok"@, Tree::Bool(true)),
            ("connected"@, Tree::Bool(self.retry is None)),
            ("last_event_received_secs_ago"@, optional_number(secs_ago(self.last_event, now))),
            ("last_sync_completed_secs_ago"@, optional_number(secs_ago(self.last_sync, now))),
            (
                "retry_attempt"@,
                optional_number(
                    match self.retry {
                        Some(retry) => Some(retry.attempt as u64),
                        None => None,
                    },
                ),
            ),
            (
                "retry_backoff_secs"@,
                optional_number(
                    match self.retry {
                        Some(retry) => Some(retry.backoff_secs),
                        None => None,
                    },
                ),
            ),
            ("known_types"@, json::texts_tree(envelope::known_type_list())),
        ]
    }
}

impl Registry {
    /// The registry of a daemon that hosts the personas.
    pub fn new(personas: Vec<String>, mailbox: Mailbox) -> (r: Registry)
        requires
            mailbox@.well_formed(),
        ensures
            r@.well_formed(),
            r@ == (RegistryView {
                conns: Seq::empty(),
                next_id: 1,
                personas: personas@,
                surfaced: Set::empty(),
                threads: ThreadView::empty(),
                mailbox: mailbox@,
                last_event: None,
                last_sync: None,
                retry: None,
            }),
    {
        let r = Registry {
            conns: Vec::new(),
            next_id: 1,
            personas,
            surfaced_unsupported: Vec::new(),
            threads: ThreadState::default(),
            mailbox,
            last_event_received_at: None,
            last_sync_completed_at: None,
            retry_state: None,
        };
        proof {
            assert(r@.conns =~= Seq::empty());
            assert(r@.surfaced =~= Set::empty());
        }
        r
    }

    /// The personas that are hosted here.
    pub fn personas(&self) -> (p: &[String])
        ensures
            p@ == self@.personas,
    {
        self.personas.as_slice()
    }

    /// The index of the threads.
    pub fn threads(&self) -> (t: &ThreadState)
        ensures
            t@ == self@.threads,
    {
        &self.threads
    }

    /// Notes that the event, in the thread of `thread_root`, carries `env`.
    pub fn observe(&mut self, thread_root: &str, event_id: &str, env: &Envelope)
        requires
            old(self)@.well_formed(),
        ensures
            final(self)@.well_formed(),
            final(self)@ == (RegistryView {
                threads: old(self)@.threads.observed(thread_root@, event_id@, env@),
                ..old(self)@
            }),
    {
        self.threads.observe(thread_root, event_id, env);
    }

    /// Makes the index of the threads of the events of the room's history.
    pub fn replay(&mut self, events: &[Json])
        requires
            old(self)@.well_formed(),
        ensures
            final(self)@.well_formed(),
            final(self)@ == (RegistryView {
                threads: crate::threads::replayed(old(self)@.threads, old(self)@.personas, json::trees(events@)),
                ..old(self)@
            }),
    {
        crate::threads::replay_thread_events(&mut self.threads, self.personas.as_slice(), events);
    }

    /// Notes that an event of the room arrived. `now` is in nanoseconds of any
    /// clock that does not go back.
    pub fn record_event_received(&mut self, now: u64)
        requires
            old(self)@.well_formed(),
        ensures
            final(self)@.well_formed(),
            final(self)@ == (RegistryView { last_event: Some(now), ..old(self)@ }),
            final(self)@ == old(self)@.heard(now),
    {
        self.last_event_received_at = Some(now);
    }

    /// Notes that a sync with the room completed, which ends any retrying.
    pub fn record_sync_completed(&mut self, now: u64)
        requires
            old(self)@.well_formed(),
        ensures
            final(self)@.well_formed(),
            final(self)@ == (RegistryView { last_sync: Some(now), retry: None, ..old(self)@ }),
            final(self)@ == old(self)@.synced(now),
    {
        self.last_sync_completed_at = Some(now);
        self.retry_state = None;
    }

    /// Notes that the sync is about to be tried again.
    pub fn record_retry_attempt(&mut self, attempt: u32, backoff_secs: u64)
        requires
            old(self)@.well_formed(),
        ensures
            final(self)@.well_formed(),
            final(self)@ == (RegistryView {
                retry: Some(RetryState { attempt, backoff_secs }),
                ..old(self)@
            }),
    {
        self.retry_state = Some(RetryState { attempt, backoff_secs });
    }

    /// Notes that a sync failed. Returns the retry that follows, and how long to
    /// wait before it.
    pub fn record_sync_failed(&mut self) -> (retry: RetryState)
        requires
            old(self)@.well_formed(),
        ensures
            final(self)@.well_formed(),
            retry == next_retry(old(self)@.retry),
            final(self)@ == (RegistryView { retry: Some(retry), ..old(self)@ }),
            final(self)@ == old(self)@.unsynced(),
    {
        let attempt: u32 = match self.retry_state {
            Some(retry) => if retry.attempt < u32::MAX {
                retry.attempt + 1
            } else {
                u32::MAX
            },
            None => 1,
        };
        let backoff_secs = exponential_backoff_secs(attempt);
        self.record_retry_attempt(attempt, backoff_secs);
        RetryState { attempt, backoff_secs }
    }

    /// The daemon's report on itself: how long ago an event arrived and a sync
    /// completed, null for what never happened, and how it is being retried.
    pub fn status(&self, now: u64) -> (j: Json)
        ensures
            j@ == json::object(self@.status_pairs(now)),
    {
        let attempt = match self.retry_state {
            Some(retry) => Some(retry.attempt as u64),
            None => None,
        };
        let backoff = match self.retry_state {
            Some(retry) => Some(retry.backoff_secs),
            None => None,
        };
        let types = envelope::known_types();
        let fields = vec![
            json::pair("ok", Json::Bool(true)),
            json::pair("connected", Json::Bool(self.retry_state.is_none())),
            json::pair(
                "last_event_received_secs_ago",
                number_or_null(elapsed(self.last_event_received_at, now)),
            ),
            json::pair(
                "last_sync_completed_secs_ago",
                number_or_null(elapsed(self.last_sync_completed_at, now)),
            ),
            json::pair("retry_attempt", number_or_null(attempt)),
            json::pair("retry_backoff_secs", number_or_null(backoff)),
            json::pair("known_types", Json::texts(types.as_slice())),
        ];
        proof {
            assert(json::tree_pairs(fields@) =~= self@.status_pairs(now));
        }
        Json::Object(fields)
    }

    /// Notes that the sender's envelope of the version is to be told of. Says
    /// whether this is the first one.
    pub fn mark_unsupported_surfaced(&mut self, sender: &str, version: u64) -> (first: bool)
        requires
            old(self)@.well_formed(),
        ensures
            final(self)@.well_formed(),
            first == !old(self)@.surfaced.contains((sender@, version)),
            final(self)@ == (RegistryView {
                surfaced: old(self)@.surfaced.insert((sender@, version)),
                ..old(self)@
            }),
    {
        let ghost before = self@;
        let ghost pairs = self.surfaced_unsupported@;
        let mut i: usize = 0;
        while i < self.surfaced_unsupported.len()
            invariant
                *self == *old(self),
                before == old(self)@,
                before.well_formed(),
                pairs == self.surfaced_unsupported@,
                i <= pairs.len(),
                forall|k: int| 0 <= k < i ==> !((#[trigger] pairs[k]).0@ == sender@ && pairs[k].1 == version),
            decreases pairs.len() - i,
        {
            let seen = &self.surfaced_unsupported[i];
            if seen.1 == version && same(seen.0.as_str(), sender) {
                proof {
                    assert(pairs[i as int].0@ == sender@ && pairs[i as int].1 == version);
                    assert(before.surfaced.contains((sender@, version)));
                    assert(before.surfaced.insert((sender@, version)) =~= before.surfaced);
                }
                return false;
            }
            i = i + 1;
        }
        self.surfaced_unsupported.push((sender.to_owned(), version));
        proof {
            let after = self.surfaced_unsupported@;
            assert forall|p: (Seq<char>, u64)| pair_set(after).contains(p) <==> before.surfaced.insert(
                (sender@, version),
            ).contains(p) by {
                if before.surfaced.contains(p) {
                    let k = choose|k: int| 0 <= k < pairs.len() && (#[trigger] pairs[k]).0@ == p.0 && pairs[k].1 == p.1;
                    assert(after[k].0@ == p.0 && after[k].1 == p.1);
                }
                if p == (sender@, version) {
                    assert(after[pairs.len() as int].0@ == p.0);
                }
                if pair_set(after).contains(p) {
                    let k = choose|k: int| 0 <= k < after.len() && (#[trigger] after[k]).0@ == p.0 && after[k].1 == p.1;
                    if k < pairs.len() {
                        assert(pairs[k].0@ == p.0 && pairs[k].1 == p.1);
                    }
                }
            }
            assert(pair_set(after) =~= before.surfaced.insert((sender@, version)));
        }
        true
    }

    /// Connects the persona. `None` when no number is left for the connection.
    pub fn connect(&mut self, persona: &str) -> (id: Option<u64>)
        requires
            old(self)@.well_formed(),
        ensures
            final(self)@.well_formed(),
            match id {
                Some(id) => {
                    &&& id == old(self)@.next_id
                    &&& old(self)@.next_id < u64::MAX
                    &&& final(self)@ == old(self)@.with_conn(persona@)
                },
                None => old(self)@.next_id == u64::MAX && final(self)@ == old(self)@,
            },
    {
        let id: u64 = self.next_id;
        if id == u64::MAX {
            return None;
        }
        let ghost before = self@;
        self.conns.push(Conn { id, persona: persona.to_owned() });
        self.next_id = id + 1;
        proof {
            assert(self@.conns =~= before.with_conn(persona@).conns);
            assert(self@ =~= before.with_conn(persona@));
        }
        Some(id)
    }

    /// Ends the connection.
    pub fn disconnect(&mut self, id: u64)
        requires
            old(self)@.well_formed(),
        ensures
            final(self)@.well_formed(),
            final(self)@ == old(self)@.without_conn(id),
    {
        let ghost before = self@;
        let ghost all = self@.conns;
        let ghost keep = |c: ConnView| c.id != id;
        let mut kept: Vec<Conn> = Vec::new();
        let mut i: usize = 0;
        proof {
            reveal(Seq::filter);
            assert(conn_views(kept@) =~= all.take(0).filter(keep));
        }
        while i < self.conns.len()
            invariant
                *self == *old(self),
                before == old(self)@,
                before.well_formed(),
                all == conn_views(self.conns@),
                keep == (|c: ConnView| c.id != id),
                i <= self.conns@.len(),
                conn_views(kept@) == all.take(i as int).filter(keep),
            decreases self.conns@.len() - i,
        {
            let conn = &self.conns[i];
            let ghost was = kept@;
            proof {
                reveal(Seq::filter);
                assert(all.take(i + 1).drop_last() =~= all.take(i as int));
                assert(all.take(i + 1).last() == all[i as int]);
            }
            if conn.id != id {
                kept.push(Conn { id: conn.id, persona: conn.persona.clone() });
                proof {
                    assert(conn_views(kept@) =~= conn_views(was).push(all[i as int]));
                }
            }
            i = i + 1;
        }
        self.conns = kept;
        proof {
            assert(all.take(all.len() as int) =~= all);
            assert(self@ =~= before.without_conn(id));
            lemma_filtered_conns(all, keep);
            let after = self@.conns;
            assert forall|k: int| 0 <= k < after.len() implies (#[trigger] after[k]).id < self@.next_id by {
                assert(all.contains(after[k]));
            }
        }
    }

    /// The connections that are handed a message by the author.
    pub fn dispatch(&self, own_event: bool, author: &str) -> (ids: Vec<u64>)
        ensures
            ids@ == self@.hearers(own_event, author@).map_values(|c: ConnView| c.id),
    {
        let ghost all = self@.conns;
        let ghost f = |c: ConnView| !(own_event && c.persona == author@);
        let ghost g = |c: ConnView| c.id;
        let mut ids: Vec<u64> = Vec::new();
        let mut i: usize = 0;
        proof {
            reveal(Seq::filter);
            assert(ids@ =~= all.take(0).filter(f).map_values(g));
        }
        while i < self.conns.len()
            invariant
                all == conn_views(self.conns@),
                f == (|c: ConnView| !(own_event && c.persona == author@)),
                g == (|c: ConnView| c.id),
                i <= self.conns@.len(),
                ids@ == all.take(i as int).filter(f).map_values(g),
            decreases self.conns@.len() - i,
        {
            let conn = &self.conns[i];
            let ghost was = ids@;
            proof {
                reveal(Seq::filter);
                assert(all.take(i + 1).drop_last() =~= all.take(i as int));
                assert(all.take(i + 1).last() == all[i as int]);
            }
            if !(own_event && same(conn.persona.as_str(), author)) {
                ids.push(conn.id);
                proof {
                    let out = all.take(i as int).filter(f);
                    assert(out.push(all[i as int]).map_values(g) =~= out.map_values(g).push(all[i as int].id));
                }
            }
            i = i + 1;
        }
        proof {
            assert(all.take(all.len() as int) =~= all);
        }
        ids
    }

    /// The personas into whose mailboxes the message goes.
    pub fn mailbox_recipients(&self, own_event: bool, env: &Envelope) -> (recipients: Vec<String>)
        ensures
            text::views(recipients@) == self@.recipients(own_event, env@),
    {
        let ghost f = receives(own_event, env@);
        let mut recipients: Vec<String> = Vec::new();
        let everyone = same(env.to.as_str(), "*");
        let mut i: usize = 0;
        proof {
            assert(text::views(recipients@) =~= chosen(self.personas@.take(0), f));
        }
        while i < self.personas.len()
            invariant
                f == receives(own_event, env@),
                everyone == (env@.to == "*"@),
                i <= self.personas@.len(),
                text::views(recipients@) == chosen(self.personas@.take(i as int), f),
            decreases self.personas@.len() - i,
        {
            let persona = &self.personas[i];
            let ghost was = recipients@;
            proof {
                assert(self.personas@.take(i + 1).drop_last() =~= self.personas@.take(i as int));
            }
            if (everyone || same(env.to.as_str(), persona.as_str())) && !(own_event && same(
                persona.as_str(),
                env.from.as_str(),
            )) {
                recipients.push(persona.clone());
                proof {
                    assert(text::views(recipients@) =~= text::views(was).push(persona@));
                }
            }
            i = i + 1;
        }
        proof {
            assert(self.personas@.take(self.personas@.len() as int) =~= self.personas@);
        }
        recipients
    }

    /// Delivers the envelope into the mailboxes of the personas that it is
    /// for. Returns what each delivery changed.
    pub fn mailbox_deliver(
        &mut self,
        own_event: bool,
        room_id: &str,
        event_id: &str,
        sender: &str,
        env: &Envelope,
    ) -> (r: Result<Vec<PersonaDelivery>, MailboxFull>)
        requires
            old(self)@.well_formed(),
        ensures
            final(self)@.well_formed(),
            ({
                let entry = EntryView {
                    room_id: room_id@,
                    event_id: event_id@,
                    sender: sender@,
                    envelope: env@,
                };
                let recipients = old(self)@.recipients(own_event, env@);
                let after = delivered_to_all(old(self)@.mailbox, recipients, entry);
                &&& final(self)@ == RegistryView { mailbox: final(self)@.mailbox, ..old(self)@ }
                &&& r is Ok <==> after.1
                &&& r matches Ok(deliveries) ==> {
                    &&& final(self)@.mailbox == after.0
                    &&& deliveries@.len() == recipients.len()
                    &&& forall|k: int|
                        0 <= k < recipients.len() ==> (#[trigger] deliveries@[k]).persona@ == recipients[k]
                            && delivery_is(
                            deliveries@[k].delivery,
                            delivered_to_all(old(self)@.mailbox, recipients.take(k), entry).0,
                            recipients[k],
                            entry,
                        )
                }
                &&& r is Err ==> final(self)@.mailbox == after.0
            }),
    {
        let ghost entry = EntryView { room_id: room_id@, event_id: event_id@, sender: sender@, envelope: env@ };
        let ghost before = self@;
        let names = self.mailbox_recipients(own_event, env);
        let ghost recipients = self@.recipients(own_event, env@);
        let mut deliveries: Vec<PersonaDelivery> = Vec::new();
        let mut i: usize = 0;
        while i < names.len()
            invariant
                before == old(self)@,
                before.well_formed(),
                recipients == text::views(names@),
                recipients == before.recipients(own_event, env@),
                entry == (EntryView { room_id: room_id@, event_id: event_id@, sender: sender@, envelope: env@ }),
                i <= names@.len(),
                self@.well_formed(),
                self@ == (RegistryView { mailbox: self@.mailbox, ..before }),
                delivered_to_all(before.mailbox, recipients.take(i as int), entry) == (self@.mailbox, true),
                deliveries@.len() == i,
                forall|k: int|
                    0 <= k < i ==> (#[trigger] deliveries@[k]).persona@ == recipients[k] && delivery_is(
                        deliveries@[k].delivery,
                        delivered_to_all(before.mailbox, recipients.take(k), entry).0,
                        recipients[k],
                        entry,
                    ),
            decreases names@.len() - i,
        {
            let ghost m = self@.mailbox;
            proof {
                assert(recipients.take(i + 1).drop_last() =~= recipients.take(i as int));
                assert(recipients.take(i + 1).last() == names@[i as int]@);
            }
            match self.mailbox.deliver(names[i].as_str(), room_id, event_id, sender, env) {
                Ok(delivery) => {
                    deliveries.push(PersonaDelivery { persona: names[i].clone(), delivery });
                },
                Err(full) => {
                    proof {
                        lemma_no_number_left(before.mailbox, recipients, entry, i + 1);
                        assert(self@ =~= (RegistryView { mailbox: self@.mailbox, ..before }));
                    }
                    return Err(full);
                },
            }
            proof {
                assert(self@ =~= (RegistryView { mailbox: self@.mailbox, ..before }));
                assert(self@.conns == before.conns && self@.next_id == before.next_id);
                assert(self@.mailbox.well_formed());
            }
            i = i + 1;
        }
        proof {
            assert(recipients.take(recipients.len() as int) =~= recipients);
        }
        Ok(deliveries)
    }

    /// What the persona has not read.
    pub fn check(&mut self, persona: &str, advance: bool, limit: Option<u32>) -> (entries: Vec<MailboxEntry>)
        requires
            old(self)@.well_formed(),
        ensures
            final(self)@.well_formed(),
            mailbox::entry_views(entries@) == mailbox::row_entries(
                old(self)@.mailbox.handed_out(persona@, limit),
            ),
            final(self)@ == (RegistryView {
                mailbox: old(self)@.mailbox.checked(persona@, advance, limit),
                ..old(self)@
            }),
    {
        self.mailbox.check(persona, advance, limit)
    }

    /// The number of the last message that the persona has read.
    pub fn cursor(&self, persona: &str) -> (seq: u64)
        ensures
            seq == self@.mailbox.cursor(persona@),
    {
        self.mailbox.cursor(persona)
    }

    /// Puts these mailboxes in place of those there are.
    pub fn replace_mailbox(&mut self, mailbox: Mailbox)
        requires
            old(self)@.well_formed(),
            mailbox@.well_formed(),
        ensures
            final(self)@.well_formed(),
            final(self)@ == (RegistryView { mailbox: mailbox@, ..old(self)@ }),
    {
        self.mailbox = mailbox;
    }
}

/// Once no number is left, no delivery after it is made.
proof fn lemma_no_number_left(m: MailboxView, recipients: Seq<Seq<char>>, entry: EntryView, n: int)
    requires
        0 < n <= recipients.len(),
        !delivered_to_all(m, recipients.take(n), entry).1,
    ensures
        delivered_to_all(m, recipients, entry) == delivered_to_all(m, recipients.take(n), entry),
    decreases recipients.len() - n,
{
    if n == recipients.len() {
        assert(recipients.take(n) =~= recipients);
    } else {
        assert(recipients.take(n + 1).drop_last() =~= recipients.take(n));
        lemma_no_number_left(m, recipients, entry, n + 1);
    }
}

/// A filter keeps the order of the connections.
proof fn lemma_filtered_conns(conns: Seq<ConnView>, f: spec_fn(ConnView) -> bool)
    requires
        forall|a: int, b: int| 0 <= a < b < conns.len() ==> conns[a].id < conns[b].id,
    ensures
        forall|k: int| 0 <= k < conns.filter(f).len() ==> conns.contains(#[trigger] conns.filter(f)[k]),
        forall|a: int, b: int|
            0 <= a < b < conns.filter(f).len() ==> conns.filter(f)[a].id < conns.filter(f)[b].id,
    decreases conns.len(),
{
    reveal(Seq::filter);
    if conns.len() > 0 {
        let front = conns.drop_last();
        lemma_filtered_conns(front, f);
        let kept = front.filter(f);
        let all = conns.filter(f);
        assert forall|k: int| 0 <= k < all.len() implies conns.contains(#[trigger] all[k]) by {
            if k < kept.len() {
                assert(front.contains(kept[k]));
                let a = choose|a: int| 0 <= a < front.len() && front[a] == kept[k];
                assert(conns[a] == all[k]);
            } else {
                assert(conns[conns.len() - 1] == all[k]);
            }
        }
        assert forall|a: int, b: int| 0 <= a < b < all.len() implies all[a].id < all[b].id by {
            if b == kept.len() {
                assert(front.contains(kept[a]));
                let k = choose|k: int| 0 <= k < front.len() && front[k] == kept[a];
                assert(conns[k].id < conns[conns.len() - 1].id);
            } else {
                assert(kept[a].id < kept[b].id);
            }
        }
    }
}

/// What is chosen of the personas is one of them, and the predicate holds of
/// it; and one of them of which it holds is chosen.
proof fn lemma_chosen(personas: Seq<String>, f: spec_fn(Seq<char>) -> bool, p: Seq<char>)
    ensures
        chosen(personas, f).contains(p) <==> text::listed(personas, p) && f(p),
    decreases personas.len(),
{
    let all = chosen(personas, f);
    if personas.len() == 0 {
        assert(!text::listed(personas, p));
    } else {
        let front = personas.drop_last();
        let last = personas.len() - 1;
        lemma_chosen(front, f, p);
        let some = chosen(front, f);
        if all.contains(p) {
            let k = choose|k: int| 0 <= k < all.len() && all[k] == p;
            if k < some.len() {
                assert(some[k] == p);
                let i = choose|i: int| 0 <= i < front.len() && #[trigger] front[i]@ == p;
                assert(personas[i]@ == p);
            } else {
                assert(personas[last]@ == p);
            }
        }
        if text::listed(personas, p) && f(p) {
            let i = choose|i: int| 0 <= i < personas.len() && #[trigger] personas[i]@ == p;
            if i < last {
                assert(front[i]@ == p);
                let k = choose|k: int| 0 <= k < some.len() && some[k] == p;
                assert(all[k] == p);
            } else {
                assert(all[all.len() - 1] == p);
            }
        }
    }
}

/// A message lands in the mailboxes of exactly the hosted personas that it is
/// for: the one that it is addressed to, or all of them, and never that of the
/// persona that wrote it on this host.
pub proof fn law_mail_reaches_whom_it_is_for(r: RegistryView, own_event: bool, env: EnvelopeView, p: Seq<char>)
    ensures
        r.recipients(own_event, env).contains(p) <==> {
            &&& text::listed(r.personas, p)
            &&& env.to == "*"@ || env.to == p
            &&& !(own_event && p == env.from)
        },
{
    lemma_chosen(r.personas, receives(own_event, env), p);
}

/// On this host only the author is left out when a message is handed to the
/// connections; of other hosts' messages nobody is.
pub proof fn law_only_the_author_is_skipped(r: RegistryView, own_event: bool, author: Seq<char>, i: int)
    requires
        0 <= i < r.conns.len(),
    ensures
        r.hearers(own_event, author).contains(r.conns[i]) <==> !(own_event && r.conns[i].persona == author),
{
    let f = |c: ConnView| !(own_event && c.persona == author);
    if f(r.conns[i]) {
        r.conns.lemma_filter_contains(f, i);
    }
    if r.hearers(own_event, author).contains(r.conns[i]) {
        r.conns.lemma_filter_contains_rev(f, r.conns[i]);
        let k = choose|k: int| 0 <= k < r.conns.filter(f).len() && r.conns.filter(f)[k] == r.conns[i];
        r.conns.lemma_filter_pred(f, k);
    }
}

/// While a sync goes on failing, the waits between the retries do not get
/// shorter, and none is longer than the cap.
pub proof fn law_failing_syncs_back_off(retry: Option<RetryState>)
    ensures
        ({
            let next = next_retry(retry);
            let then = next_retry(Some(next));
            &&& next.backoff_secs <= then.backoff_secs <= backoff::CAP_SECS
            &&& next.attempt <= then.attempt
        }),
{
    let next = next_retry(retry);
    let then = next_retry(Some(next));
    backoff::law_backoff_monotonic_and_capped(next.attempt as int, then.attempt as int);
    backoff::law_backoff_monotonic_and_capped(1, next.attempt as int);
    backoff::law_backoff_starts_at_the_base();
}

} // verus!
