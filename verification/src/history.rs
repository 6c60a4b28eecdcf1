//! The feed over time: what a sequence of steps publishes.
use vstd::prelude::*;

use crate::egress;
use crate::egress::{Attempt, EgressView, PendingView, RecordView, SinkOutcome};
use crate::envelope::EnvelopeView;
use crate::json::Tree;

verus! {

/// A step in the life of the feed.
pub enum FeedEvent {
    /// An envelope is seen in the room.
    Consider { room_id: Seq<char>, event_id: Seq<char>, env: EnvelopeView, now: i64 },
    /// A payload is put into the buffer.
    Enqueue { room_id: Seq<char>, event_id: Seq<char>, publish_after: i64, payload: Tree },
    /// The event is edited or redacted.
    Retract { room_id: Seq<char>, event_id: Seq<char> },
    /// The rows that are due are handed to the sink, which answers for each row,
    /// by its number, with the outcome.
    Flush { now: i64, answers: spec_fn(u64) -> SinkOutcome },
}

/// Whether the record is of the event.
pub open spec fn is_of(record: RecordView, room_id: Seq<char>, event_id: Seq<char>) -> bool {
    record.room_id == room_id && record.event_id == event_id
}

/// Whether a row for another event can be added to the buffer.
pub open spec fn has_room(m: EgressView) -> bool {
    m.next_id <= egress::MAX_ROW_ID
}

/// What the sink answers for the rows that are due.
pub open spec fn answered(m: EgressView, now: i64, answers: spec_fn(u64) -> SinkOutcome) -> Seq<SinkOutcome> {
    Seq::new(m.due_rows(now).len(), |k: int| answers(m.due_rows(now)[k].id))
}

/// The tries of a flush.
pub open spec fn flushed(m: EgressView, now: i64, answers: spec_fn(u64) -> SinkOutcome) -> Seq<Attempt> {
    egress::flush(m, now, answered(m, now, answers))
}

/// The feed after the step. Nothing is added to a buffer that is full.
pub open spec fn stepped(m: EgressView, step: FeedEvent) -> EgressView {
    match step {
        FeedEvent::Consider { room_id, event_id, env, now } => if has_room(m) {
            m.considered(room_id, event_id, env, now)
        } else {
            m
        },
        FeedEvent::Enqueue { room_id, event_id, publish_after, payload } => if has_room(m) {
            m.enqueued(room_id, event_id, publish_after, payload)
        } else {
            m
        },
        FeedEvent::Retract { room_id, event_id } => m.retracted(room_id, event_id),
        FeedEvent::Flush { now, answers } => egress::after_attempts(m, flushed(m, now, answers), now),
    }
}

/// What the step publishes.
pub open spec fn published_by(m: EgressView, step: FeedEvent) -> Seq<RecordView> {
    match step {
        FeedEvent::Flush { now, answers } => egress::published_records(m, flushed(m, now, answers), now),
        _ => Seq::empty(),
    }
}

/// The feed after the steps, one after the other.
pub open spec fn after_steps(m: EgressView, steps: Seq<FeedEvent>) -> EgressView
    decreases steps.len(),
{
    if steps.len() == 0 {
        m
    } else {
        stepped(after_steps(m, steps.drop_last()), steps.last())
    }
}

/// What the steps publish, one after the other.
pub open spec fn published_over(m: EgressView, steps: Seq<FeedEvent>) -> Seq<RecordView>
    decreases steps.len(),
{
    if steps.len() == 0 {
        Seq::empty()
    } else {
        published_over(m, steps.drop_last()) + published_by(after_steps(m, steps.drop_last()), steps.last())
    }
}

/// Whether nothing more will come of the event: a row stands for it that is
/// published, given up or taken back.
pub open spec fn is_spent(m: EgressView, room_id: Seq<char>, event_id: Seq<char>) -> bool {
    exists|i: int|
        0 <= i < m.rows.len() && (#[trigger] m.rows[i]).is_for(room_id, event_id) && m.rows[i].settled()
}

/// A row is one row: two that stand for one event are the same.
proof fn lemma_one_row_per_event(m: EgressView, i: int, j: int)
    requires
        m.well_formed(),
        0 <= i < m.rows.len(),
        0 <= j < m.rows.len(),
        m.rows[i].is_for(m.rows[j].room_id, m.rows[j].event_id),
    ensures
        i == j,
{
    if i < j {
        assert(!m.rows[i].is_for(m.rows[j].room_id, m.rows[j].event_id));
    } else if j < i {
        assert(!m.rows[j].is_for(m.rows[i].room_id, m.rows[i].event_id));
    }
}

/// Putting a payload into a buffer with room keeps it well formed.
proof fn lemma_enqueued_well_formed(
    m: EgressView,
    room_id: Seq<char>,
    event_id: Seq<char>,
    publish_after: i64,
    payload: Tree,
)
    requires
        m.well_formed(),
        has_room(m),
    ensures
        m.enqueued(room_id, event_id, publish_after, payload).well_formed(),
{
    let after = m.enqueued(room_id, event_id, publish_after, payload);
    if !egress::is_buffered(m.rows, room_id, event_id) {
        assert forall|i: int, j: int| 0 <= i < j < after.rows.len() implies after.rows[i].id < after.rows[j].id by {
            assert(after.rows[i] == m.rows[i]);
        }
        assert forall|i: int, j: int| 0 <= i < j < after.rows.len() implies !(#[trigger] after.rows[i]).is_for(
            (#[trigger] after.rows[j]).room_id,
            after.rows[j].event_id,
        ) by {
            assert(after.rows[i] == m.rows[i]);
        }
    }
}

/// A try keeps the feed well formed, and its rows the numbers, the events and
/// the payloads they have.
proof fn lemma_tried_well_formed(m: EgressView, id: u64, outcome: SinkOutcome, now: i64)
    requires
        m.well_formed(),
    ensures
        m.tried(id, outcome, now).well_formed(),
        m.tried(id, outcome, now).rows.len() == m.rows.len(),
        forall|i: int|
            0 <= i < m.rows.len() ==> (#[trigger] m.tried(id, outcome, now).rows[i]).id == m.rows[i].id && m.tried(
                id,
                outcome,
                now,
            ).rows[i].record() == m.rows[i].record(),
{
    let after = m.tried(id, outcome, now);
    assert forall|i: int| 0 <= i < m.rows.len() implies (#[trigger] after.rows[i]).id == m.rows[i].id
        && after.rows[i].record() == m.rows[i].record() by {}
    assert forall|i: int, j: int| 0 <= i < j < after.rows.len() implies after.rows[i].id < after.rows[j].id by {
        assert(m.rows[i].id < m.rows[j].id);
    }
    assert forall|i: int, j: int| 0 <= i < j < after.rows.len() implies !(#[trigger] after.rows[i]).is_for(
        (#[trigger] after.rows[j]).room_id,
        after.rows[j].event_id,
    ) by {
        assert(after.rows[i].record() == m.rows[i].record() && after.rows[j].record() == m.rows[j].record());
        assert(!m.rows[i].is_for(m.rows[j].room_id, m.rows[j].event_id));
    }
}

/// So do tries one after the other.
proof fn lemma_attempts_well_formed(m: EgressView, attempts: Seq<Attempt>, now: i64)
    requires
        m.well_formed(),
    ensures
        egress::after_attempts(m, attempts, now).well_formed(),
        egress::after_attempts(m, attempts, now).rows.len() == m.rows.len(),
        forall|i: int|
            0 <= i < m.rows.len() ==> (#[trigger] egress::after_attempts(m, attempts, now).rows[i]).id
                == m.rows[i].id && egress::after_attempts(m, attempts, now).rows[i].record() == m.rows[i].record(),
    decreases attempts.len(),
{
    if attempts.len() > 0 {
        let before = egress::after_attempts(m, attempts.drop_last(), now);
        lemma_attempts_well_formed(m, attempts.drop_last(), now);
        lemma_tried_well_formed(before, attempts.last().id, attempts.last().outcome, now);
        let after = egress::after_attempts(m, attempts, now);
        assert forall|i: int| 0 <= i < m.rows.len() implies (#[trigger] after.rows[i]).id == m.rows[i].id
            && after.rows[i].record() == m.rows[i].record() by {
            assert(before.rows[i].id == m.rows[i].id);
        }
    }
}

/// Every step keeps the feed well formed.
proof fn lemma_stepped_well_formed(m: EgressView, step: FeedEvent)
    requires
        m.well_formed(),
    ensures
        stepped(m, step).well_formed(),
{
    match step {
        FeedEvent::Consider { room_id, event_id, env, now } => {
            if has_room(m) && m.takes(room_id, env) {
                lemma_enqueued_well_formed(
                    m,
                    room_id,
                    event_id,
                    (now + m.delay_seconds) as i64,
                    crate::redaction::redacted(env.meta->0, m.deny_patterns),
                );
            }
        },
        FeedEvent::Enqueue { room_id, event_id, publish_after, payload } => {
            if has_room(m) {
                lemma_enqueued_well_formed(m, room_id, event_id, publish_after, payload);
            }
        },
        FeedEvent::Retract { room_id, event_id } => {
            let after = m.retracted(room_id, event_id);
            assert forall|i: int, j: int| 0 <= i < j < after.rows.len() implies after.rows[i].id
                < after.rows[j].id by {
                assert(m.rows[i].id < m.rows[j].id);
            }
            assert forall|i: int, j: int| 0 <= i < j < after.rows.len() implies !(#[trigger] after.rows[i]).is_for(
                (#[trigger] after.rows[j]).room_id,
                after.rows[j].event_id,
            ) by {
                assert(!m.rows[i].is_for(m.rows[j].room_id, m.rows[j].event_id));
            }
        },
        FeedEvent::Flush { now, answers } => {
            lemma_attempts_well_formed(m, flushed(m, now, answers), now);
        },
    }
}

/// So do steps one after the other.
proof fn lemma_steps_well_formed(m: EgressView, steps: Seq<FeedEvent>)
    requires
        m.well_formed(),
    ensures
        after_steps(m, steps).well_formed(),
    decreases steps.len(),
{
    if steps.len() > 0 {
        lemma_steps_well_formed(m, steps.drop_last());
        lemma_stepped_well_formed(after_steps(m, steps.drop_last()), steps.last());
    }
}

/// Whether the record is of one of the first `n` rows that are due, and that
/// row was published.
spec fn is_of_due(m: EgressView, now: i64, outcomes: Seq<SinkOutcome>, n: int, record: RecordView) -> bool {
    exists|k: int|
        0 <= k < n && (#[trigger] m.due_rows(now)[k]).record() == record && outcomes[k] == SinkOutcome::Published
}

/// The first `n` tries of a flush publish rows that are due, each once.
proof fn lemma_flush_records(m: EgressView, now: i64, outcomes: Seq<SinkOutcome>, n: int)
    requires
        m.well_formed(),
        outcomes.len() == m.due_rows(now).len(),
        0 <= n <= outcomes.len(),
    ensures
        ({
            let records = egress::published_records(m, egress::flush(m, now, outcomes).take(n), now);
            &&& forall|a: int| 0 <= a < records.len() ==> is_of_due(m, now, outcomes, n, #[trigger] records[a])
            &&& forall|a: int, b: int|
                0 <= a < b < records.len() ==> !is_of(
                    #[trigger] records[a],
                    (#[trigger] records[b]).room_id,
                    records[b].event_id,
                )
        }),
    decreases n,
{
    let due = m.due_rows(now);
    let tries = egress::flush(m, now, outcomes).take(n);
    let records = egress::published_records(m, tries, now);
    if n > 0 {
        lemma_flush_records(m, now, outcomes, n - 1);
        egress::lemma_due_rows(m, now);
        let front = egress::flush(m, now, outcomes).take(n - 1);
        assert(tries.drop_last() =~= front);
        let earlier = egress::published_records(m, front, now);
        let before = egress::after_attempts(m, front, now);
        assert(m.rows.contains(due[n - 1]));
        let j = choose|j: int| 0 <= j < m.rows.len() && m.rows[j] == due[n - 1];
        assert(tries.last() == Attempt { id: due[n - 1].id, outcome: outcomes[n - 1] });
        assert forall|a: int| 0 <= a < earlier.len() implies is_of_due(m, now, outcomes, n, #[trigger] earlier[a]) by {
            assert(is_of_due(m, now, outcomes, n - 1, earlier[a]));
        }
        if outcomes[n - 1] == SinkOutcome::Published {
            assert forall|k: int| 0 <= k < n - 1 implies (#[trigger] due[k]).id != m.rows[j].id by {
                assert(due[k].id < due[n - 1].id);
            }
            egress::lemma_not_tried(m, now, outcomes, j, n - 1);
            lemma_attempts_well_formed(m, front, now);
            let id = due[n - 1].id;
            if egress::published_record(before, id, SinkOutcome::Published) is Some {
                let i = choose|i: int| egress::open_row(before, id, i);
                egress::lemma_one_row_per_id(before, j);
                assert(i == j);
                assert(records == earlier.push(due[n - 1].record()));
                assert(is_of_due(m, now, outcomes, n, due[n - 1].record()));
                assert forall|a: int, b: int| 0 <= a < b < records.len() implies !is_of(
                    #[trigger] records[a],
                    (#[trigger] records[b]).room_id,
                    records[b].event_id,
                ) by {
                    if b == earlier.len() {
                        assert(is_of_due(m, now, outcomes, n - 1, earlier[a]));
                        let k = choose|k: int|
                            0 <= k < n - 1 && (#[trigger] due[k]).record() == earlier[a] && outcomes[k]
                                == SinkOutcome::Published;
                        assert(m.rows.contains(due[k]));
                        let i = choose|i: int| 0 <= i < m.rows.len() && m.rows[i] == due[k];
                        assert(due[k].id < due[n - 1].id);
                        if is_of(records[a], records[b].room_id, records[b].event_id) {
                            lemma_one_row_per_event(m, i, j);
                        }
                    }
                }
            }
        }
    }
}

/// Nothing of a spent event is published by a step, and it stays spent.
proof fn lemma_spent_stays_spent(m: EgressView, step: FeedEvent, room_id: Seq<char>, event_id: Seq<char>)
    requires
        m.well_formed(),
        is_spent(m, room_id, event_id),
    ensures
        is_spent(stepped(m, step), room_id, event_id),
        forall|a: int|
            0 <= a < published_by(m, step).len() ==> !is_of(#[trigger] published_by(m, step)[a], room_id, event_id),
{
    let i = choose|i: int|
        0 <= i < m.rows.len() && (#[trigger] m.rows[i]).is_for(room_id, event_id) && m.rows[i].settled();
    let after = stepped(m, step);
    match step {
        FeedEvent::Flush { now, answers } => {
            let outcomes = answered(m, now, answers);
            let records = published_by(m, step);
            egress::law_flush_tries_what_is_due(m, now, outcomes, i);
            assert(after.rows[i] == m.rows[i]);
            lemma_flush_records(m, now, outcomes, outcomes.len() as int);
            assert(flushed(m, now, answers).take(outcomes.len() as int) =~= flushed(m, now, answers));
            egress::lemma_due_rows(m, now);
            assert forall|a: int| 0 <= a < records.len() implies !is_of(#[trigger] records[a], room_id, event_id) by {
                assert(is_of_due(m, now, outcomes, outcomes.len() as int, records[a]));
                let k = choose|k: int|
                    0 <= k < outcomes.len() && (#[trigger] m.due_rows(now)[k]).record() == records[a] && outcomes[k]
                        == SinkOutcome::Published;
                lemma_due_row_is_due(m, now, k);
                let j = choose|j: int| 0 <= j < m.rows.len() && m.rows[j] == m.due_rows(now)[k];
                if is_of(records[a], room_id, event_id) {
                    lemma_one_row_per_event(m, i, j);
                }
            }
        },
        _ => {
            assert(after.rows[i].is_for(room_id, event_id) && after.rows[i].settled());
        },
    }
}

/// A due row is a row of the feed, and due.
proof fn lemma_due_row_is_due(m: EgressView, now: i64, k: int)
    requires
        m.well_formed(),
        0 <= k < m.due_rows(now).len(),
    ensures
        m.rows.contains(m.due_rows(now)[k]),
        m.due_rows(now)[k].is_due(now),
{
    let f = |r: PendingView| r.is_due(now);
    egress::lemma_due_rows(m, now);
    m.rows.lemma_filter_pred(f, k);
}

/// What a step publishes is spent afterwards, and is of events that differ.
proof fn lemma_published_is_spent(m: EgressView, step: FeedEvent, a: int)
    requires
        m.well_formed(),
        0 <= a < published_by(m, step).len(),
    ensures
        is_spent(stepped(m, step), published_by(m, step)[a].room_id, published_by(m, step)[a].event_id),
        forall|b: int|
            0 <= b < a ==> !is_of(
                #[trigger] published_by(m, step)[b],
                published_by(m, step)[a].room_id,
                published_by(m, step)[a].event_id,
            ),
{
    match step {
        FeedEvent::Flush { now, answers } => {
            let outcomes = answered(m, now, answers);
            let records = published_by(m, step);
            let after = stepped(m, step);
            lemma_flush_records(m, now, outcomes, outcomes.len() as int);
            assert(flushed(m, now, answers).take(outcomes.len() as int) =~= flushed(m, now, answers));
            assert(is_of_due(m, now, outcomes, outcomes.len() as int, records[a]));
            let k = choose|k: int|
                0 <= k < outcomes.len() && (#[trigger] m.due_rows(now)[k]).record() == records[a] && outcomes[k]
                    == SinkOutcome::Published;
            lemma_due_row_is_due(m, now, k);
            let j = choose|j: int| 0 <= j < m.rows.len() && m.rows[j] == m.due_rows(now)[k];
            egress::law_flush_tries_what_is_due(m, now, outcomes, j);
            egress::lemma_due_rows(m, now);
            let l = choose|l: int|
                0 <= l < outcomes.len() && #[trigger] m.due_rows(now)[l] == m.rows[j] && after.rows[j]
                    == m.rows[j].tried(outcomes[l], now);
            assert(l == k) by {
                if l < k {
                    assert(m.due_rows(now)[l].id < m.due_rows(now)[k].id);
                } else if k < l {
                    assert(m.due_rows(now)[k].id < m.due_rows(now)[l].id);
                }
            }
            assert(after.rows[j].is_for(records[a].room_id, records[a].event_id) && after.rows[j].settled());
        },
        _ => {},
    }
}

/// Nothing of a spent event is published by any steps, and it stays spent.
proof fn lemma_spent_for_good(m: EgressView, steps: Seq<FeedEvent>, room_id: Seq<char>, event_id: Seq<char>)
    requires
        m.well_formed(),
        is_spent(m, room_id, event_id),
    ensures
        is_spent(after_steps(m, steps), room_id, event_id),
        forall|a: int|
            0 <= a < published_over(m, steps).len() ==> !is_of(
                #[trigger] published_over(m, steps)[a],
                room_id,
                event_id,
            ),
    decreases steps.len(),
{
    if steps.len() > 0 {
        let front = steps.drop_last();
        lemma_spent_for_good(m, front, room_id, event_id);
        lemma_steps_well_formed(m, front);
        let before = after_steps(m, front);
        lemma_spent_stays_spent(before, steps.last(), room_id, event_id);
        let earlier = published_over(m, front);
        let records = published_over(m, steps);
        assert forall|a: int| 0 <= a < records.len() implies !is_of(#[trigger] records[a], room_id, event_id) by {
            if a < earlier.len() {
                assert(records[a] == earlier[a]);
            } else {
                assert(records[a] == published_by(before, steps.last())[a - earlier.len()]);
            }
        }
    }
}

/// What steps publish is spent after them.
proof fn lemma_published_over_is_spent(m: EgressView, steps: Seq<FeedEvent>, a: int)
    requires
        m.well_formed(),
        0 <= a < published_over(m, steps).len(),
    ensures
        is_spent(after_steps(m, steps), published_over(m, steps)[a].room_id, published_over(m, steps)[a].event_id),
    decreases steps.len(),
{
    let front = steps.drop_last();
    let before = after_steps(m, front);
    let earlier = published_over(m, front);
    let record = published_over(m, steps)[a];
    lemma_steps_well_formed(m, front);
    if a < earlier.len() {
        assert(record == earlier[a]);
        lemma_published_over_is_spent(m, front, a);
        lemma_spent_stays_spent(before, steps.last(), record.room_id, record.event_id);
    } else {
        assert(record == published_by(before, steps.last())[a - earlier.len()]);
        lemma_published_is_spent(before, steps.last(), a - earlier.len());
    }
}

/// Whatever happens to the feed, one step after the other, no event is published
/// twice.
pub proof fn law_events_are_published_once(m: EgressView, steps: Seq<FeedEvent>)
    requires
        m.well_formed(),
    ensures
        forall|a: int, b: int|
            0 <= a < b < published_over(m, steps).len() ==> !is_of(
                #[trigger] published_over(m, steps)[a],
                (#[trigger] published_over(m, steps)[b]).room_id,
                published_over(m, steps)[b].event_id,
            ),
    decreases steps.len(),
{
    if steps.len() > 0 {
        let front = steps.drop_last();
        let before = after_steps(m, front);
        let earlier = published_over(m, front);
        let new = published_by(before, steps.last());
        let records = published_over(m, steps);
        law_events_are_published_once(m, front);
        lemma_steps_well_formed(m, front);
        assert forall|a: int, b: int| 0 <= a < b < records.len() implies !is_of(
            #[trigger] records[a],
            (#[trigger] records[b]).room_id,
            records[b].event_id,
        ) by {
            if b < earlier.len() {
                assert(records[a] == earlier[a] && records[b] == earlier[b]);
            } else if a < earlier.len() {
                assert(records[a] == earlier[a] && records[b] == new[b - earlier.len()]);
                lemma_published_over_is_spent(m, front, a);
                lemma_spent_stays_spent(before, steps.last(), earlier[a].room_id, earlier[a].event_id);
            } else {
                assert(records[a] == new[a - earlier.len()] && records[b] == new[b - earlier.len()]);
                lemma_published_is_spent(before, steps.last(), b - earlier.len());
            }
        }
    }
}

/// An event that is edited or redacted while a row waits for it is never
/// published after that, whatever came before and whatever happens then, even
/// if the event is seen again.
pub proof fn law_retracted_events_are_never_published(
    m: EgressView,
    earlier: Seq<FeedEvent>,
    i: int,
    room_id: Seq<char>,
    event_id: Seq<char>,
    later: Seq<FeedEvent>,
)
    requires
        m.well_formed(),
        after_steps(m, earlier).waits_for(i, room_id, event_id),
    ensures
        ({
            let taken_back = after_steps(m, earlier.push(FeedEvent::Retract { room_id, event_id }));
            forall|a: int|
                0 <= a < published_over(taken_back, later).len() ==> !is_of(
                    #[trigger] published_over(taken_back, later)[a],
                    room_id,
                    event_id,
                )
        }),
{
    let step = FeedEvent::Retract { room_id, event_id };
    let before = after_steps(m, earlier);
    let taken_back = after_steps(m, earlier.push(step));
    assert(earlier.push(step).drop_last() =~= earlier);
    lemma_steps_well_formed(m, earlier.push(step));
    assert(taken_back == before.retracted(room_id, event_id));
    assert(taken_back.rows[i].is_for(room_id, event_id) && taken_back.rows[i].settled());
    lemma_spent_for_good(taken_back, later, room_id, event_id);
}

} // verus!
