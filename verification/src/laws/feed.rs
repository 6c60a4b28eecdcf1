//! The public feed: what leaves a room, when, without what, and how often it is
//! tried.
use vstd::prelude::*;
use vstd::string::*;

use crate::backoff;
use crate::completion;
use crate::egress;
use crate::egress::{EgressConfig, EgressView, PendingView, RecordView, SinkOutcome, SinkResponse};
use crate::envelope::EnvelopeView;
use crate::json;
use crate::json::Tree;
use crate::redaction;
use crate::text;

verus! {

/// A status of the two hundreds, or a line in the file, is success. A status of
/// the five hundreds, or no answer, may well be otherwise later. Anything else
/// is for good.
pub proof fn law_sink_answers(status: u16)
    ensures
        status as int / 100 == 2 ==> egress::meaning(SinkResponse::Status(status)) == SinkOutcome::Published,
        status as int / 100 == 5 ==> egress::meaning(SinkResponse::Status(status)) == SinkOutcome::Retryable,
        status as int / 100 != 2 && status as int / 100 != 5 ==> egress::meaning(SinkResponse::Status(status))
            == SinkOutcome::Terminal,
        egress::meaning(SinkResponse::FileWritten) == SinkOutcome::Published,
        egress::meaning(SinkResponse::FileError) == SinkOutcome::Terminal,
        egress::meaning(SinkResponse::TransportError) == SinkOutcome::Retryable,
{
}

/// The waits double from two seconds on, up to a minute.
pub proof fn law_waits_double(attempt: int)
    ensures
        attempt <= 1 ==> backoff::backoff_delay(attempt) == 2,
        2 <= attempt <= 5 ==> backoff::backoff_delay(attempt) == 2 * backoff::backoff_delay(attempt - 1),
        attempt >= 6 ==> backoff::backoff_delay(attempt) == 60,
{
    reveal_with_fuel(backoff::power, 7);
    assert(backoff::power(2, 1) == 2 && backoff::power(2, 2) == 4 && backoff::power(2, 3) == 8 && backoff::power(2, 4)
        == 16 && backoff::power(2, 5) == 32 && backoff::power(2, 6) == 64);
}

/// The rows that are due are those whose time has come and that are neither
/// taken back, nor published, nor given up.
pub proof fn law_what_is_due(m: EgressView, now: i64, row: PendingView)
    ensures
        m.due_rows(now).contains(row) <==> {
            &&& m.rows.contains(row)
            &&& row.publish_after <= now
            &&& !row.retracted
            &&& !row.published
            &&& !row.failed
        },
{
    let f = |r: PendingView| r.is_due(now);
    if m.due_rows(now).contains(row) {
        m.rows.lemma_filter_contains_rev(f, row);
        let k = choose|k: int| 0 <= k < m.due_rows(now).len() && m.due_rows(now)[k] == row;
        m.rows.lemma_filter_pred(f, k);
    }
    if m.rows.contains(row) && row.is_due(now) {
        let i = choose|i: int| 0 <= i < m.rows.len() && m.rows[i] == row;
        m.rows.lemma_filter_contains(f, i);
    }
}

/// A completion whose post is answered with any status of the five hundreds,
/// before its last try, is put off by 2, 4, 8 and then 16 seconds, and is due
/// again from then on; the fifth such answer gives it up.
pub proof fn law_failed_posts_are_tried_again(m: EgressView, i: int, status: u16, now: i64, then: i64)
    requires
        m.well_formed(),
        0 <= i < m.rows.len(),
        !m.rows[i].retracted,
        !m.rows[i].published,
        !m.rows[i].failed,
        m.rows[i].attempts >= 0,
        status as int / 100 == 5,
        now + 60 <= i64::MAX,
    ensures
        ({
            let row = m.rows[i];
            let after = m.tried(row.id, egress::meaning(SinkResponse::Status(status)), now);
            let wait: int = if row.attempts == 0 {
                2
            } else if row.attempts == 1 {
                4
            } else if row.attempts == 2 {
                8
            } else {
                16
            };
            &&& after.rows.len() == m.rows.len()
            &&& after.rows[i].record() == row.record()
            &&& row.attempts < 4 ==> {
                &&& after.rows[i].attempts == row.attempts + 1
                &&& after.due_rows(then).contains(after.rows[i]) <==> then >= now + wait
            }
            &&& row.attempts >= 4 ==> after.rows[i].failed && !after.due_rows(then).contains(after.rows[i])
        }),
{
    let row = m.rows[i];
    let after = m.tried(row.id, egress::meaning(SinkResponse::Status(status)), now);
    law_sink_answers(status);
    law_waits_double(1);
    law_waits_double(2);
    law_waits_double(3);
    law_waits_double(4);
    law_what_is_due(after, then, after.rows[i]);
    assert(after.rows.contains(after.rows[i]));
}

/// What a try leaves of the row that it is for: published, given up, or put off
/// with one more try counted. Every other row stays as it is.
pub proof fn law_what_a_try_leaves(m: EgressView, id: u64, outcome: SinkOutcome, now: i64, i: int)
    requires
        0 <= i < m.rows.len(),
    ensures
        ({
            let row = m.rows[i];
            let after = m.tried(id, outcome, now);
            &&& after.rooms == m.rooms
            &&& after.deny_patterns == m.deny_patterns
            &&& after.delay_seconds == m.delay_seconds
            &&& after.next_id == m.next_id
            &&& row.id != id || row.published || row.failed ==> after.rows[i] == row
            &&& row.id == id && !row.published && !row.failed ==> {
                &&& after.rows[i].id == id
                &&& after.rows[i].record() == row.record()
                &&& after.rows[i].retracted == row.retracted
                &&& outcome == SinkOutcome::Published ==> after.rows[i].published && !after.rows[i].failed
                    && after.rows[i].attempts == row.attempts
                &&& outcome == SinkOutcome::Terminal ==> after.rows[i].failed && !after.rows[i].published
                    && after.rows[i].attempts == row.attempts
                &&& outcome == SinkOutcome::Retryable ==> !after.rows[i].published && (after.rows[i].failed
                    <==> row.attempts >= 4)
            }
        }),
{
}

/// What is published of a row is its room, its event and its payload, and it is
/// published when the sink took it.
pub proof fn law_what_is_published(m: EgressView, i: int, outcome: SinkOutcome)
    requires
        m.well_formed(),
        0 <= i < m.rows.len(),
        !m.rows[i].published,
        !m.rows[i].failed,
    ensures
        ({
            let row = m.rows[i];
            &&& outcome == SinkOutcome::Published ==> egress::published_record(m, row.id, outcome) == Some(
                RecordView { room_id: row.room_id, event_id: row.event_id, payload: row.payload },
            )
            &&& outcome != SinkOutcome::Published ==> egress::published_record(m, row.id, outcome) is None
        }),
{
    let row = m.rows[i];
    let id = row.id;
    assert(egress::open_row(m, id, i));
    let j = choose|j: int| egress::open_row(m, id, j);
    egress::lemma_one_row_per_id(m, i);
    assert(j == i);
}

/// A sink is handed the room, the event and the payload under these names.
pub proof fn law_what_a_sink_is_handed(record: RecordView)
    ensures
        ({
            let line = json::object(record.pairs());
            &&& json::text_field(line, "room_id"@) == Some(record.room_id)
            &&& json::text_field(line, "event_id"@) == Some(record.event_id)
            &&& json::field(line, "payload"@) == Some(record.payload)
        }),
{
    reveal_strlit("room_id");
    reveal_strlit("event_id");
    reveal_strlit("payload");
    assert("room_id"@.len() == 7 && "event_id"@.len() == 8 && "payload"@.len() == 7);
    assert("room_id"@[0] == 'r' && "payload"@[0] == 'p');
    let pairs = record.pairs();
    assert(pairs[0].0 == "room_id"@ && pairs[1].0 == "event_id"@ && pairs[2].0 == "payload"@);
    json::lemma_object_fields(pairs);
}

/// A completion with valid metadata, seen in a room that was opted in, goes into
/// the buffer once: redacted, to be published when the delay is over. Nothing
/// else changes the feed.
pub proof fn law_what_is_buffered(
    m: EgressView,
    room_id: Seq<char>,
    event_id: Seq<char>,
    env: EnvelopeView,
    now: i64,
)
    requires
        now + m.delay_seconds <= i64::MAX,
    ensures
        ({
            let after = m.considered(room_id, event_id, env, now);
            let opted_in = exists|k: int| 0 <= k < m.rooms.len() && (#[trigger] m.rooms[k])@ == room_id;
            let known = exists|k: int|
                0 <= k < m.rows.len() && (#[trigger] m.rows[k]).room_id == room_id && m.rows[k].event_id == event_id;
            let leaves = opted_in && env.kind == "completion"@ && env.meta is Some && completion::completion_fault(
                env.meta->0,
            ) is None;
            &&& !leaves || known ==> after == m
            &&& leaves && !known ==> {
                let row = after.rows.last();
                &&& after.rows.drop_last() == m.rows
                &&& row.id == m.next_id
                &&& row.room_id == room_id
                &&& row.event_id == event_id
                &&& row.publish_after == now + m.delay_seconds
                &&& row.payload == redaction::redacted(env.meta->0, m.deny_patterns)
                &&& !row.retracted
                &&& !row.published
                &&& !row.failed
                &&& row.attempts == 0
            }
        }),
{
    let after = m.considered(room_id, event_id, env, now);
    if m.takes(room_id, env) && !egress::is_buffered(m.rows, room_id, event_id) {
        assert(after.rows.drop_last() =~= m.rows);
    }
    if egress::is_buffered(m.rows, room_id, event_id) {
        let k = choose|k: int| 0 <= k < m.rows.len() && (#[trigger] m.rows[k]).is_for(room_id, event_id);
        assert(m.rows[k].room_id == room_id && m.rows[k].event_id == event_id);
    }
    assert forall|k: int|
        0 <= k < m.rows.len() && (#[trigger] m.rows[k]).room_id == room_id && m.rows[k].event_id
            == event_id implies egress::is_buffered(m.rows, room_id, event_id) by {
        assert(m.rows[k].is_for(room_id, event_id));
    }
}

/// An edit or a redaction of an event takes back every row of that event in that
/// room that is not published yet, one that was given up among them, and leaves
/// the others.
pub proof fn law_what_is_taken_back(m: EgressView, room_id: Seq<char>, event_id: Seq<char>, i: int)
    requires
        0 <= i < m.rows.len(),
    ensures
        ({
            let row = m.rows[i];
            let after = m.retracted(room_id, event_id);
            let meant = row.room_id == room_id && row.event_id == event_id && !row.published;
            &&& after.rows.len() == m.rows.len()
            &&& meant ==> after.rows[i].retracted && after.rows[i].record() == row.record() && after.rows[i].id
                == row.id
            &&& !meant ==> after.rows[i] == row
        }),
{
}

/// The feed does not start with rooms and no deny pattern, nor without a place
/// to publish to; it starts with anything else.
pub proof fn law_what_the_feed_needs(cfg: EgressConfig)
    ensures
        egress::config_fault(cfg) is None <==> (cfg.rooms@.len() == 0 || cfg.deny_patterns@.len() > 0) && (
        cfg.sink_path is Some || cfg.sink_url is Some),
{
}

/// Redaction touches nothing but texts: numbers, truth values and nulls stay,
/// lists keep their length and order, and objects their fields.
pub proof fn law_redaction_keeps_the_shape(t: Tree, patterns: Seq<Seq<char>>)
    ensures
        match t {
            Tree::Null => redaction::redacted(t, patterns) == Tree::Null,
            Tree::Bool(b) => redaction::redacted(t, patterns) == Tree::Bool(b),
            Tree::Number(n) => redaction::redacted(t, patterns) == Tree::Number(n),
            Tree::Text(s) => redaction::redacted(t, patterns) == Tree::Text(redaction::redacted_text(s, patterns)),
            Tree::Array(items) => redaction::redacted(t, patterns) matches Tree::Array(done) && done.len()
                == items.len() && forall|i: int|
                0 <= i < items.len() ==> #[trigger] done[i] == redaction::redacted(items[i], patterns),
            Tree::Object(fields) => redaction::redacted(t, patterns) matches Tree::Object(done) && done.dom()
                =~= fields.dom() && forall|k: Seq<char>|
                fields.dom().contains(k) ==> #[trigger] done[k] == redaction::redacted(fields[k], patterns),
        },
{
}

/// A denied text is replaced by the mark wherever it stands, one pattern after
/// the other, and the rest of the text stays.
pub proof fn law_redaction_marks(s: Seq<char>, patterns: Seq<Seq<char>>, pattern: Seq<char>)
    ensures
        redaction::redacted_text(s, Seq::empty()) == s,
        redaction::redacted_text(s, patterns.push(pattern)) == text::replaced(
            redaction::redacted_text(s, patterns),
            pattern,
            "[REDACTED]"@,
        ),
{
    assert(patterns.push(pattern).drop_last() =~= patterns);
}

/// Metadata is that of a completion exactly when it is an object of the schema,
/// names the agent, the repository, the reference and the result, and has two
/// timestamps.
pub proof fn law_completion_metadata(meta: Tree)
    ensures
        completion::completion_fault(meta) is None <==> {
            &&& meta is Object
            &&& json::text_field(meta, "schema"@) == Some("completion-v1"@)
            &&& json::text_field(meta, "agent"@) is Some
            &&& json::text_field(meta, "repo"@) is Some
            &&& json::text_field(meta, "ref"@) is Some
            &&& json::text_field(meta, "result"@) is Some
            &&& json::text_field(meta, "started_at"@) matches Some(t) && completion::is_timestamp(t)
            &&& json::text_field(meta, "completed_at"@) matches Some(t) && completion::is_timestamp(t)
        },
{
}

/// The days that the month has.
pub open spec fn calendar_days(year: int, month: int) -> int {
    if month == 2 {
        if year % 400 == 0 {
            29
        } else if year % 100 == 0 {
            28
        } else if year % 4 == 0 {
            29
        } else {
            28
        }
    } else if month <= 7 {
        30 + month % 2
    } else {
        31 - month % 2
    }
}

/// Whether the character is the digit.
pub open spec fn is_digit_of(c: char, d: int) -> bool {
    0 <= d <= 9 && c as int == 48 + d
}

/// A timestamp in universal time, written out digit by digit, is one exactly when
/// the date is in the calendar and the time on the clock.
pub proof fn law_timestamps(s: Seq<char>, y: Seq<int>, mo: Seq<int>, d: Seq<int>, h: Seq<int>, mi: Seq<int>, sec: Seq<int>)
    requires
        y.len() == 4 && mo.len() == 2 && d.len() == 2 && h.len() == 2 && mi.len() == 2 && sec.len() == 2,
        s.len() == 20,
        is_digit_of(s[0], y[0]) && is_digit_of(s[1], y[1]) && is_digit_of(s[2], y[2]) && is_digit_of(s[3], y[3]),
        s[4] == '-',
        is_digit_of(s[5], mo[0]) && is_digit_of(s[6], mo[1]),
        s[7] == '-',
        is_digit_of(s[8], d[0]) && is_digit_of(s[9], d[1]),
        s[10] == 'T',
        is_digit_of(s[11], h[0]) && is_digit_of(s[12], h[1]),
        s[13] == ':',
        is_digit_of(s[14], mi[0]) && is_digit_of(s[15], mi[1]),
        s[16] == ':',
        is_digit_of(s[17], sec[0]) && is_digit_of(s[18], sec[1]),
        s[19] == 'Z',
    ensures
        ({
            let year = 1000 * y[0] + 100 * y[1] + 10 * y[2] + y[3];
            let month = 10 * mo[0] + mo[1];
            completion::is_timestamp(s) <==> {
                &&& 1 <= month <= 12
                &&& 1 <= 10 * d[0] + d[1] <= calendar_days(year, month)
                &&& 10 * h[0] + h[1] < 24
                &&& 10 * mi[0] + mi[1] < 60
                &&& 10 * sec[0] + sec[1] <= 60
            }
        }),
{
    let year = 1000 * y[0] + 100 * y[1] + 10 * y[2] + y[3];
    let month = 10 * mo[0] + mo[1];
    assert(completion::digits_at(s, 0, 4) && completion::digits_at(s, 5, 2) && completion::digits_at(s, 8, 2));
    assert(completion::digits_at(s, 11, 2) && completion::digits_at(s, 14, 2) && completion::digits_at(s, 17, 2));
    assert(completion::pair_value(s, 5) == month && completion::pair_value(s, 8) == 10 * d[0] + d[1]);
    assert(completion::pair_value(s, 11) == 10 * h[0] + h[1]);
    assert(completion::pair_value(s, 14) == 10 * mi[0] + mi[1]);
    assert(completion::pair_value(s, 17) == 10 * sec[0] + sec[1]);
    assert(completion::year_value(s) == year);
    lemma_calendar(year, month);
    assert(completion::zone_at(s, 19));
}

proof fn lemma_calendar(year: int, month: int)
    ensures
        1 <= month <= 12 ==> completion::month_days(year, month) == calendar_days(year, month),
{
    assert(year % 400 == 0 ==> year % 100 == 0);
    assert(year % 100 == 0 ==> year % 4 == 0);
}

/// Where a timestamp may end in `Z`, it may as well end in a fraction of a second
/// and `Z`, or in the distance from universal time.
pub proof fn law_timestamp_endings(clock: Seq<char>, fraction: Seq<char>, zone: Seq<char>)
    requires
        clock.len() == 19,
        fraction.len() > 0,
        forall|i: int| 0 <= i < fraction.len() ==> 48 <= (#[trigger] fraction[i]) as int <= 57,
        zone.len() == 6,
        zone[0] == '+' || zone[0] == '-',
        zone[3] == ':',
        forall|i: int| 1 <= i < 6 && i != 3 ==> 48 <= (#[trigger] zone[i]) as int <= 57,
    ensures
        completion::is_timestamp(clock + seq!['Z']) == completion::is_timestamp(
            clock + seq!['.'] + fraction + seq!['Z'],
        ),
        completion::is_timestamp(clock + zone) == (completion::is_timestamp(clock + seq!['Z']) && (zone[1] as int - 48)
            * 10 + (zone[2] as int - 48) < 24 && (zone[4] as int - 48) * 10 + (zone[5] as int - 48) < 60),
{
    let a = clock + seq!['Z'];
    let b = clock + seq!['.'] + fraction + seq!['Z'];
    let c = clock + zone;
    let n = fraction.len() as int;
    assert(a.take(19) =~= clock && b.take(19) =~= clock && c.take(19) =~= clock);
    lemma_same_clock(a, b, clock);
    lemma_same_clock(a, c, clock);
    assert(a[19] == 'Z' && b[19] == '.' && c[19] == zone[0]);
    assert(completion::zone_at(a, 19));
    assert(b.len() == 21 + n && b[20 + n] == 'Z');
    assert(completion::zone_at(b, 20 + n));
    assert(completion::digits_at(b, 20, n)) by {
        assert forall|i: int| 20 <= i < 20 + n implies completion::is_digit(#[trigger] b[i]) by {
            assert(b[i] == fraction[i - 20]);
        }
    }
    assert(c[20] == zone[1] && c[21] == zone[2] && c[22] == zone[3] && c[23] == zone[4] && c[24] == zone[5]);
    assert(completion::digits_at(c, 20, 2) && completion::digits_at(c, 23, 2));
}

/// Two texts with the same nineteen characters in front tell the same time.
proof fn lemma_same_clock(a: Seq<char>, b: Seq<char>, clock: Seq<char>)
    requires
        clock.len() == 19,
        a.len() >= 19,
        b.len() >= 19,
        a.take(19) == clock,
        b.take(19) == clock,
    ensures
        completion::starts_with_date(a) == completion::starts_with_date(b),
        completion::time_follows(a) == completion::time_follows(b),
        a[10] == b[10],
{
    assert forall|i: int| 0 <= i < 19 implies a[i] == b[i] by {
        assert(a.take(19)[i] == b.take(19)[i]);
    }
    assert forall|at: int, n: int| 0 <= at && 0 <= n && at + n <= 19 implies #[trigger] completion::digits_at(a, at, n)
        == completion::digits_at(b, at, n) by {
        if completion::digits_at(a, at, n) {
            assert forall|i: int| at <= i < at + n implies completion::is_digit(#[trigger] b[i]) by {
                assert(completion::is_digit(a[i]));
            }
        }
        if completion::digits_at(b, at, n) {
            assert forall|i: int| at <= i < at + n implies completion::is_digit(#[trigger] a[i]) by {
                assert(completion::is_digit(b[i]));
            }
        }
    }
}

/// The row whose number is told when an event is taken back is the one of that
/// event that was not published; where there is none, none is told.
pub proof fn law_which_row_is_taken_back(
    m: EgressView,
    room_id: Seq<char>,
    event_id: Seq<char>,
    id: Option<u64>,
    i: int,
)
    requires
        m.well_formed(),
        m.takes_back(room_id, event_id, id),
    ensures
        0 <= i < m.rows.len() && m.rows[i].room_id == room_id && m.rows[i].event_id == event_id && !m.rows[i].published
            ==> id == Some(m.rows[i].id),
        (forall|k: int|
            0 <= k < m.rows.len() && (#[trigger] m.rows[k]).room_id == room_id && m.rows[k].event_id == event_id
                ==> m.rows[k].published) ==> id is None,
{
    if 0 <= i < m.rows.len() && m.rows[i].room_id == room_id && m.rows[i].event_id == event_id
        && !m.rows[i].published {
        assert(m.waits_for(i, room_id, event_id));
        if id is Some {
            let k = choose|k: int| #[trigger] m.waits_for(k, room_id, event_id) && m.rows[k].id == id->0;
            if k < i {
                assert(!m.rows[k].is_for(m.rows[i].room_id, m.rows[i].event_id));
            } else if i < k {
                assert(!m.rows[i].is_for(m.rows[k].room_id, m.rows[k].event_id));
            }
        }
    }
    if id is Some {
        let k = choose|k: int| #[trigger] m.waits_for(k, room_id, event_id) && m.rows[k].id == id->0;
        assert(m.rows[k].room_id == room_id && m.rows[k].event_id == event_id && !m.rows[k].published);
    }
}

/// Tries are noted one after the other, and what each of them published is told.
pub proof fn law_tries_are_noted(
    m: EgressView,
    attempts: Seq<egress::Attempt>,
    id: u64,
    outcome: SinkOutcome,
    now: i64,
)
    ensures
        egress::after_attempts(m, Seq::empty(), now) == m,
        egress::published_records(m, Seq::empty(), now).len() == 0,
        ({
            let more = attempts.push(egress::Attempt { id, outcome });
            let before = egress::after_attempts(m, attempts, now);
            &&& egress::after_attempts(m, more, now) == before.tried(id, outcome, now)
            &&& match egress::published_record(before, id, outcome) {
                Some(record) => egress::published_records(m, more, now) == egress::published_records(
                    m,
                    attempts,
                    now,
                ).push(record),
                None => egress::published_records(m, more, now) == egress::published_records(m, attempts, now),
            }
        }),
{
    assert(attempts.push(egress::Attempt { id, outcome }).drop_last() =~= attempts);
}

/// What is due is told by its number, its room, its event and its payload.
pub proof fn law_what_is_told_of_due_rows(rows: Seq<PendingView>, k: int)
    ensures
        egress::due_pairs(rows).len() == rows.len(),
        0 <= k < rows.len() ==> egress::due_pairs(rows)[k] == (
            rows[k].id,
            RecordView { room_id: rows[k].room_id, event_id: rows[k].event_id, payload: rows[k].payload },
        ),
{
}

/// What is wrong with metadata is told: what it is not, or the first part that is
/// missing or no timestamp.
pub proof fn law_what_metadata_lacks(meta: Tree)
    ensures
        ({
            let fault = completion::completion_fault(meta);
            let named = meta is Object && json::text_field(meta, "schema"@) == Some("completion-v1"@);
            let agent = named && json::text_field(meta, "agent"@) is Some;
            let repo = agent && json::text_field(meta, "repo"@) is Some;
            let reference = repo && json::text_field(meta, "ref"@) is Some;
            let result = reference && json::text_field(meta, "result"@) is Some;
            let begun = result && (json::text_field(meta, "started_at"@) matches Some(t) && completion::is_timestamp(t));
            &&& !(meta is Object) ==> fault == Some("not an object"@)
            &&& meta is Object && !named ==> fault == Some("schema is not completion-v1"@)
            &&& named && !agent ==> fault == Some("missing string field `"@ + "agent"@ + "`"@)
            &&& agent && !repo ==> fault == Some("missing string field `"@ + "repo"@ + "`"@)
            &&& repo && !reference ==> fault == Some("missing string field `"@ + "ref"@ + "`"@)
            &&& reference && !result ==> fault == Some("missing string field `"@ + "result"@ + "`"@)
            &&& result && json::text_field(meta, "started_at"@) is None ==> fault == Some(
                "missing string field `"@ + "started_at"@ + "`"@,
            )
            &&& result && json::text_field(meta, "started_at"@) is Some && !begun ==> fault == Some(
                "field `"@ + "started_at"@ + "` is not an RFC 3339 timestamp"@,
            )
            &&& begun && json::text_field(meta, "completed_at"@) is None ==> fault == Some(
                "missing string field `"@ + "completed_at"@ + "`"@,
            )
            &&& begun && (json::text_field(meta, "completed_at"@) matches Some(t) && !completion::is_timestamp(t))
                ==> fault == Some("field `"@ + "completed_at"@ + "` is not an RFC 3339 timestamp"@)
        }),
{
}

/// The letters of a timestamp may be of either case, and its signs stand where they
/// stand.
pub proof fn law_timestamp_letters(s: Seq<char>)
    ensures
        completion::is_timestamp(s) ==> s.len() >= 20 && s[4] == '-' && s[7] == '-' && s[13] == ':' && s[16] == ':',
        completion::is_timestamp(s) ==> s[10] == 'T' || s[10] == 't',
        s.len() == 20 && s[10] == 'T' && s[19] == 'Z' ==> completion::is_timestamp(s) == completion::is_timestamp(
            s.update(10, 't').update(19, 'z'),
        ),
{
    if s.len() == 20 && s[10] == 'T' && s[19] == 'Z' {
        let low = s.update(10, 't').update(19, 'z');
        assert forall|at: int, n: int|
            0 <= at && 0 <= n && at + n <= 19 && (at + n <= 10 || at > 10) implies #[trigger] completion::digits_at(
            s,
            at,
            n,
        ) == completion::digits_at(low, at, n) by {
            if completion::digits_at(s, at, n) {
                assert forall|i: int| at <= i < at + n implies completion::is_digit(#[trigger] low[i]) by {
                    assert(completion::is_digit(s[i]));
                }
            }
            if completion::digits_at(low, at, n) {
                assert forall|i: int| at <= i < at + n implies completion::is_digit(#[trigger] s[i]) by {
                    assert(completion::is_digit(low[i]));
                }
            }
        }
        assert(completion::zone_at(s, 19) && completion::zone_at(low, 19));
    }
}

/// Why the feed does not start is told.
pub proof fn law_why_the_feed_does_not_start(cfg: EgressConfig)
    ensures
        cfg.rooms@.len() > 0 && cfg.deny_patterns@.len() == 0 ==> egress::config_fault(cfg) == Some(
            "egress.rooms is non-empty but egress.deny_patterns is empty — refusing to publish unredacted content (add at least one deny pattern)"@,
        ),
        (cfg.rooms@.len() == 0 || cfg.deny_patterns@.len() > 0) && cfg.sink_path is None && cfg.sink_url is None
            ==> egress::config_fault(cfg) == Some(
            "egress is configured but neither sink_path nor sink_url is set — configure at least one publish target"@,
        ),
{
}

/// The sink is handed, of the rows, those whose time has come and that wait still,
/// each with what is published of it.
pub proof fn law_what_the_sink_gets(m: EgressView, now: i64, i: int)
    requires
        0 <= i < m.rows.len(),
        m.rows[i].publish_after <= now,
        !m.rows[i].retracted,
        !m.rows[i].published,
        !m.rows[i].failed,
    ensures
        egress::told_due(m, now).len() == m.due_rows(now).len(),
        egress::told_due(m, now).contains(
            (
                m.rows[i].id,
                RecordView {
                    room_id: m.rows[i].room_id,
                    event_id: m.rows[i].event_id,
                    payload: m.rows[i].payload,
                },
            ),
        ),
{
    law_what_is_due(m, now, m.rows[i]);
    assert(m.rows.contains(m.rows[i]));
    let due = m.due_rows(now);
    let k = choose|k: int| 0 <= k < due.len() && due[k] == m.rows[i];
    assert(egress::told_due(m, now)[k] == (m.rows[i].id, m.rows[i].record()));
}

} // verus!
