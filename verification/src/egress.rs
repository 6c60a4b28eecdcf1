//! The public feed: which completions leave their room, and when.
//!
//! A completion waits in a buffer before it is published. An edit or a
//! redaction of its event in that time takes it back. What the sink answers
//! decides whether it is published, tried again later, or given up.
use std::path::PathBuf;

use vstd::prelude::*;
use vstd::string::*;

use crate::backoff;
use crate::completion;
use crate::envelope;
use crate::envelope::{Envelope, EnvelopeView};
use crate::json;
use crate::json::{Json, Tree};
use crate::redaction;
use crate::text;
use crate::text::{contains_text, same};

verus! {

/// `std::path::PathBuf`: a path, which is only carried through. Nothing is
/// claimed of what is inside it.
#[verifier::external_type_specification]
#[verifier::external_body]
pub struct ExPathBuf(std::path::PathBuf);

/// How often a completion is tried against a sink that fails for the moment.
pub const MAX_PUBLISH_ATTEMPTS: i64 = 5;

/// The seconds to wait after `attempts` failed tries.
pub fn retry_backoff_secs(attempts: i64) -> (secs: i64)
    ensures
        secs == backoff::backoff_delay(attempts as int),
{
    let clamped: u32 = if attempts < 1 {
        1
    } else if attempts > 6 {
        6
    } else {
        attempts as u32
    };
    proof {
        backoff::law_backoff_clamps(attempts as int);
        backoff::law_backoff_monotonic_and_capped(attempts as int, attempts as int);
    }
    backoff::exponential_backoff_secs(clamped) as i64
}

/// What the operator configured for the feed.
#[derive(Debug)]
pub struct EgressConfig {
    /// The rooms whose completions may leave.
    pub rooms: Vec<String>,
    /// The texts that are taken out of what leaves.
    pub deny_patterns: Vec<String>,
    /// The seconds for which a completion waits.
    pub delay_seconds: u64,
    /// The file that completions are appended to, unless there is a `sink_url`.
    pub sink_path: Option<PathBuf>,
    /// The address that completions are posted to.
    pub sink_url: Option<String>,
}

/// What is wrong with the configuration: rooms without a deny pattern, or no
/// sink.
pub open spec fn config_fault(cfg: EgressConfig) -> Option<Seq<char>> {
    if cfg.rooms@.len() > 0 && cfg.deny_patterns@.len() == 0 {
        Some(
            "egress.rooms is non-empty but egress.deny_patterns is empty — refusing to publish unredacted content (add at least one deny pattern)"@,
        )
    } else if cfg.sink_path is None && cfg.sink_url is None {
        Some(
            "egress is configured but neither sink_path nor sink_url is set — configure at least one publish target"@,
        )
    } else {
        None
    }
}

/// Accepts the configuration, or says what is wrong with it.
pub fn validate_egress_config(cfg: &EgressConfig) -> (r: Result<(), String>)
    ensures
        match r {
            Ok(()) => config_fault(*cfg) is None,
            Err(fault) => config_fault(*cfg) == Some(fault@),
        },
{
    if cfg.rooms.len() > 0 && cfg.deny_patterns.len() == 0 {
        return Err(
            "egress.rooms is non-empty but egress.deny_patterns is empty — refusing to publish unredacted content (add at least one deny pattern)".to_owned(),
        );
    }
    if cfg.sink_path.is_none() && cfg.sink_url.is_none() {
        return Err(
            "egress is configured but neither sink_path nor sink_url is set — configure at least one publish target".to_owned(),
        );
    }
    Ok(())
}

/// Where completions are published: at the address, where there is one, and else
/// in the file.
pub open spec fn chosen_sink(cfg: EgressConfig) -> Sink {
    if cfg.sink_url is Some {
        Sink::Http(cfg.sink_url->0)
    } else {
        Sink::File(cfg.sink_path->0)
    }
}

/// Whether the envelope may leave its room: a completion with valid metadata.
pub open spec fn may_leave(env: EnvelopeView) -> bool {
    env.kind == "completion"@ && envelope::has_completion_meta(env)
}

/// Whether the envelope may leave its room.
pub fn is_allowlisted(env: &Envelope) -> (r: bool)
    ensures
        r == may_leave(env@),
{
    same(env.kind.as_str(), "completion") && match &env.meta {
        Some(meta) => completion::validate_completion_meta(meta).is_ok(),
        None => false,
    }
}

/// The event that `content` is an edit of.
pub open spec fn edited_event(content: Tree) -> Option<Seq<char>> {
    envelope::related_event(content, "m.replace"@)
}

/// The event that `content` is an edit of, when it is one.
pub fn edit_target(content: &Json) -> (r: Option<String>)
    ensures
        json::opt_view(r) == edited_event(content@),
{
    envelope::related(content, "m.replace")
}

/// A completion that was published.
#[derive(Debug)]
pub struct PublishedRecord {
    pub room_id: String,
    pub event_id: String,
    /// The redacted metadata.
    pub payload: Json,
}

/// The model of a published completion.
pub struct RecordView {
    pub room_id: Seq<char>,
    pub event_id: Seq<char>,
    pub payload: Tree,
}

impl View for PublishedRecord {
    type V = RecordView;

    open spec fn view(&self) -> RecordView {
        RecordView { room_id: self.room_id@, event_id: self.event_id@, payload: self.payload@ }
    }
}

impl RecordView {
    /// The fields of what a sink is handed.
    pub open spec fn pairs(self) -> Seq<(Seq<char>, Tree)> {
        seq![
            ("room_id"@, Tree::Text(self.room_id)),
            ("event_id"@, Tree::Text(self.event_id)),
            ("payload"@, self.payload),
        ]
    }
}

impl PublishedRecord {
    /// What a sink is handed of the completion.
    pub fn to_json(&self) -> (j: Json)
        ensures
            j@ == json::object(self@.pairs()),
    {
        let fields = vec![
            json::pair("room_id", Json::text(self.room_id.as_str())),
            json::pair("event_id", Json::text(self.event_id.as_str())),
            json::pair("payload", self.payload.clone()),
        ];
        proof {
            assert(json::tree_pairs(fields@) =~= self@.pairs());
        }
        Json::Object(fields)
    }
}

/// Where completions are published.
#[derive(Debug)]
pub enum Sink {
    File(PathBuf),
    Http(String),
}

/// What came of handing a completion to the sink.
#[derive(Clone, Copy, Debug, PartialEq, Eq, Structural)]
pub enum SinkResponse {
    /// The line was appended to the file.
    FileWritten,
    /// The file could not be written.
    FileError,
    /// The sink answered with this HTTP status.
    Status(u16),
    /// No answer came.
    TransportError,
}

/// What the sink's response means for the completion.
#[derive(Clone, Copy, Debug, PartialEq, Eq, Structural)]
pub enum SinkOutcome {
    Published,
    /// May well succeed later.
    Retryable,
    /// Needs the operator.
    Terminal,
}

/// What the response means: success is a status of the 200s or a line in the
/// file; a status of the 500s or no answer is for the moment; anything else is
/// for good.
pub open spec fn meaning(response: SinkResponse) -> SinkOutcome {
    match response {
        SinkResponse::FileWritten => SinkOutcome::Published,
        SinkResponse::FileError => SinkOutcome::Terminal,
        SinkResponse::Status(status) => if 200 <= status < 300 {
            SinkOutcome::Published
        } else if 500 <= status < 600 {
            SinkOutcome::Retryable
        } else {
            SinkOutcome::Terminal
        },
        SinkResponse::TransportError => SinkOutcome::Retryable,
    }
}

/// What the sink's response means for the completion.
pub fn sink_outcome(response: SinkResponse) -> (outcome: SinkOutcome)
    ensures
        outcome == meaning(response),
{
    match response {
        SinkResponse::FileWritten => SinkOutcome::Published,
        SinkResponse::FileError => SinkOutcome::Terminal,
        SinkResponse::Status(status) => {
            if 200 <= status && status < 300 {
                SinkOutcome::Published
            } else if 500 <= status && status < 600 {
                SinkOutcome::Retryable
            } else {
                SinkOutcome::Terminal
            }
        },
        SinkResponse::TransportError => SinkOutcome::Retryable,
    }
}

/// A completion in the buffer.
#[derive(Debug)]
pub struct PendingRow {
    pub id: u64,
    pub room_id: String,
    pub event_id: String,
    /// The time, in seconds since the epoch, from which it may be published.
    pub publish_after: i64,
    pub payload: Json,
    pub retracted: bool,
    pub published: bool,
    /// Given up.
    pub failed: bool,
    pub attempts: i64,
}

/// The model of a completion in the buffer.
#[verifier::ext_equal]
pub struct PendingView {
    pub id: u64,
    pub room_id: Seq<char>,
    pub event_id: Seq<char>,
    pub publish_after: i64,
    pub payload: Tree,
    pub retracted: bool,
    pub published: bool,
    pub failed: bool,
    pub attempts: i64,
}

impl View for PendingRow {
    type V = PendingView;

    open spec fn view(&self) -> PendingView {
        PendingView {
            id: self.id,
            room_id: self.room_id@,
            event_id: self.event_id@,
            publish_after: self.publish_after,
            payload: self.payload@,
            retracted: self.retracted,
            published: self.published,
            failed: self.failed,
            attempts: self.attempts,
        }
    }
}

/// The number of tries with one more, as far as that can be counted.
pub open spec fn next_attempt(attempts: i64) -> i64 {
    if attempts < i64::MAX {
        (attempts + 1) as i64
    } else {
        attempts
    }
}

impl PendingView {
    /// Whether the row stands for the event.
    pub open spec fn is_for(self, room_id: Seq<char>, event_id: Seq<char>) -> bool {
        self.room_id == room_id && self.event_id == event_id
    }

    /// Whether nothing more will come of the row.
    pub open spec fn settled(self) -> bool {
        self.retracted || self.published || self.failed
    }

    /// Whether the row is to be published at the time.
    pub open spec fn is_due(self, now: i64) -> bool {
        self.publish_after <= now && !self.settled()
    }

    /// The row after a try at publishing it.
    pub open spec fn tried(self, outcome: SinkOutcome, now: i64) -> PendingView {
        match outcome {
            SinkOutcome::Published => PendingView { published: true, ..self },
            SinkOutcome::Terminal => PendingView { failed: true, ..self },
            SinkOutcome::Retryable => {
                let attempts = next_attempt(self.attempts);
                if attempts >= MAX_PUBLISH_ATTEMPTS {
                    PendingView { failed: true, attempts, ..self }
                } else {
                    PendingView {
                        attempts,
                        publish_after: (now + backoff::backoff_delay(attempts as int)) as i64,
                        ..self
                    }
                }
            },
        }
    }

    /// What is published of the row.
    pub open spec fn record(self) -> RecordView {
        RecordView { room_id: self.room_id, event_id: self.event_id, payload: self.payload }
    }
}

/// The models of the rows.
pub open spec fn pending_views(rows: Seq<PendingRow>) -> Seq<PendingView> {
    Seq::new(rows.len(), |i: int| rows[i]@)
}

/// The models of the records.
pub open spec fn record_views(records: Seq<PublishedRecord>) -> Seq<RecordView> {
    Seq::new(records.len(), |i: int| records[i]@)
}

/// The model of the feed: the rooms, the deny patterns and the delay that were
/// configured, the buffer, and the number of the next row in it.
#[verifier::ext_equal]
pub struct EgressView {
    pub rooms: Seq<String>,
    pub deny_patterns: Seq<Seq<char>>,
    pub delay_seconds: u64,
    pub rows: Seq<PendingView>,
    pub next_id: u64,
}

/// Whether some row stands for the event.
pub open spec fn is_buffered(rows: Seq<PendingView>, room_id: Seq<char>, event_id: Seq<char>) -> bool {
    exists|i: int| 0 <= i < rows.len() && (#[trigger] rows[i]).is_for(room_id, event_id)
}

impl EgressView {
    /// The rows' numbers rise below the next one, and no two rows stand for one
    /// event.
    pub open spec fn well_formed(self) -> bool {
        &&& forall|i: int, j: int| 0 <= i < j < self.rows.len() ==> self.rows[i].id < self.rows[j].id
        &&& forall|i: int| 0 <= i < self.rows.len() ==> (#[trigger] self.rows[i]).id < self.next_id
        &&& forall|i: int, j: int|
            0 <= i < j < self.rows.len() ==> !(#[trigger] self.rows[i]).is_for(
                (#[trigger] self.rows[j]).room_id,
                self.rows[j].event_id,
            )
    }

    /// The feed after the payload was put into the buffer. A row that stands
    /// for the event already stays as it is.
    pub open spec fn enqueued(
        self,
        room_id: Seq<char>,
        event_id: Seq<char>,
        publish_after: i64,
        payload: Tree,
    ) -> EgressView {
        if is_buffered(self.rows, room_id, event_id) {
            self
        } else {
            EgressView {
                rows: self.rows.push(
                    PendingView {
                        id: self.next_id,
                        room_id,
                        event_id,
                        publish_after,
                        payload,
                        retracted: false,
                        published: false,
                        failed: false,
                        attempts: 0,
                    },
                ),
                next_id: (self.next_id + 1) as u64,
                ..self
            }
        }
    }

    /// Whether the envelope, seen in the room, goes into the buffer.
    pub open spec fn takes(self, room_id: Seq<char>, env: EnvelopeView) -> bool {
        text::listed(self.rooms, room_id) && may_leave(env)
    }

    /// The feed after the envelope was seen in the room at the time `now`.
    pub open spec fn considered(
        self,
        room_id: Seq<char>,
        event_id: Seq<char>,
        env: EnvelopeView,
        now: i64,
    ) -> EgressView {
        if self.takes(room_id, env) {
            self.enqueued(
                room_id,
                event_id,
                (now + self.delay_seconds) as i64,
                redaction::redacted(env.meta->0, self.deny_patterns),
            )
        } else {
            self
        }
    }

    /// The feed after the event was edited or redacted: what waits for it is
    /// taken back, unless it is published already.
    pub open spec fn retracted(self, room_id: Seq<char>, event_id: Seq<char>) -> EgressView {
        EgressView {
            rows: Seq::new(
                self.rows.len(),
                |i: int|
                    if self.rows[i].is_for(room_id, event_id) && !self.rows[i].published {
                        PendingView { retracted: true, ..self.rows[i] }
                    } else {
                        self.rows[i]
                    },
            ),
            ..self
        }
    }

    /// Whether the row at the index is one that waits for the event: it is taken
    /// back when the event is edited or redacted.
    pub open spec fn waits_for(self, i: int, room_id: Seq<char>, event_id: Seq<char>) -> bool {
        0 <= i < self.rows.len() && self.rows[i].is_for(room_id, event_id) && !self.rows[i].published
    }

    /// Whether the number is that of the row that is taken back when the event
    /// is edited or redacted; none when no row is.
    pub open spec fn takes_back(self, room_id: Seq<char>, event_id: Seq<char>, id: Option<u64>) -> bool {
        match id {
            Some(id) => exists|i: int| #[trigger] self.waits_for(i, room_id, event_id) && self.rows[i].id == id,
            None => forall|i: int| !#[trigger] self.waits_for(i, room_id, event_id),
        }
    }

    /// The rows that are to be published at the time, in the order in which
    /// they came.
    pub open spec fn due_rows(self, now: i64) -> Seq<PendingView> {
        self.rows.filter(|r: PendingView| r.is_due(now))
    }

    /// The feed after a try at publishing the row with the number.
    pub open spec fn tried(self, id: u64, outcome: SinkOutcome, now: i64) -> EgressView {
        EgressView {
            rows: Seq::new(
                self.rows.len(),
                |i: int|
                    if self.rows[i].id == id && !self.rows[i].published && !self.rows[i].failed {
                        self.rows[i].tried(outcome, now)
                    } else {
                        self.rows[i]
                    },
            ),
            ..self
        }
    }
}

/// The highest number a row can have.
pub const MAX_ROW_ID: u64 = 9_223_372_036_854_775_807;

/// The feed.
pub struct Egress {
    rooms: Vec<String>,
    deny_patterns: Vec<String>,
    delay_seconds: u64,
    sink: Sink,
    rows: Vec<PendingRow>,
    next_id: u64,
}

impl View for Egress {
    type V = EgressView;

    closed spec fn view(&self) -> EgressView {
        EgressView {
            rooms: self.rooms@,
            deny_patterns: text::views(self.deny_patterns@),
            delay_seconds: self.delay_seconds,
            rows: pending_views(self.rows@),
            next_id: self.next_id,
        }
    }
}

/// There is no number left for another row.
#[derive(Debug)]
pub struct BufferFull;

/// What became of an envelope that was seen in a room.
#[derive(Clone, Copy, Debug)]
pub struct Consideration {
    /// Whether it waits in the buffer now.
    pub queued: bool,
    /// The number of the row that was added for it.
    pub inserted: Option<u64>,
}

/// A row that is to be published.
#[derive(Debug)]
pub struct DueRow {
    pub id: u64,
    pub record: PublishedRecord,
}

/// A try at publishing a row.
#[derive(Clone, Copy, Debug)]
pub struct Attempt {
    pub id: u64,
    pub outcome: SinkOutcome,
}

/// The numbers of the rows, and what is published of them.
pub open spec fn due_views(rows: Seq<DueRow>) -> Seq<(u64, RecordView)> {
    Seq::new(rows.len(), |i: int| (rows[i].id, rows[i].record@))
}

/// The numbers of the rows, and what is published of them.
pub open spec fn due_pairs(rows: Seq<PendingView>) -> Seq<(u64, RecordView)> {
    Seq::new(rows.len(), |i: int| (rows[i].id, rows[i].record()))
}

/// What is to be handed to the sink at the time.
pub open spec fn told_due(m: EgressView, now: i64) -> Seq<(u64, RecordView)> {
    due_pairs(m.due_rows(now))
}

/// Whether the row at the index has the number, and is neither published nor
/// given up.
pub open spec fn open_row(m: EgressView, id: u64, i: int) -> bool {
    0 <= i < m.rows.len() && m.rows[i].id == id && !m.rows[i].published && !m.rows[i].failed
}

/// What a try at publishing publishes: the row with the number, when it is
/// open and the outcome is that it was.
pub open spec fn published_record(m: EgressView, id: u64, outcome: SinkOutcome) -> Option<RecordView> {
    if outcome == SinkOutcome::Published && exists|i: int| open_row(m, id, i) {
        Some(m.rows[choose|i: int| open_row(m, id, i)].record())
    } else {
        None
    }
}

/// The model of a record that may be missing.
pub open spec fn optional_record(r: Option<PublishedRecord>) -> Option<RecordView> {
    match r {
        Some(record) => Some(record@),
        None => None,
    }
}

/// The feed after the tries, one after the other.
pub open spec fn after_attempts(m: EgressView, attempts: Seq<Attempt>, now: i64) -> EgressView
    decreases attempts.len(),
{
    if attempts.len() == 0 {
        m
    } else {
        after_attempts(m, attempts.drop_last(), now).tried(attempts.last().id, attempts.last().outcome, now)
    }
}

/// What the tries publish, one after the other.
pub open spec fn published_records(m: EgressView, attempts: Seq<Attempt>, now: i64) -> Seq<RecordView>
    decreases attempts.len(),
{
    if attempts.len() == 0 {
        Seq::empty()
    } else {
        let earlier = published_records(m, attempts.drop_last(), now);
        let last = attempts.last();
        match published_record(after_attempts(m, attempts.drop_last(), now), last.id, last.outcome) {
            Some(record) => earlier.push(record),
            None => earlier,
        }
    }
}

impl Egress {
    /// Where completions are published.
    pub closed spec fn destination(&self) -> Sink {
        self.sink
    }

    /// Where completions are published.
    pub fn sink(&self) -> (sink: &Sink)
        ensures
            *sink == self.destination(),
    {
        &self.sink
    }

    /// The feed as configured, with nothing in the buffer; or what is wrong
    /// with the configuration. An address to post to goes before a file.
    pub fn open(config: EgressConfig) -> (r: Result<Egress, String>)
        ensures
            match r {
                Ok(egress) => {
                    &&& config_fault(config) is None
                    &&& egress.destination() == chosen_sink(config)
                    &&& egress@.well_formed()
                    &&& egress@ == EgressView {
                        rooms: config.rooms@,
                        deny_patterns: text::views(config.deny_patterns@),
                        delay_seconds: config.delay_seconds,
                        rows: Seq::empty(),
                        next_id: 1,
                    }
                    &&& match config.sink_url {
                        Some(url) => egress.destination() == Sink::Http(url),
                        None => config.sink_path is Some && egress.destination() == Sink::File(config.sink_path->0),
                    }
                },
                Err(message) => config_fault(config) is Some && message@ == "invalid egress config: "@
                    + config_fault(config)->0,
            },
    {
        match validate_egress_config(&config) {
            Ok(()) => {},
            Err(fault) => {
                let mut message = "invalid egress config: ".to_owned();
                message.append(fault.as_str());
                return Err(message);
            },
        }
        let sink = match config.sink_url {
            Some(url) => Sink::Http(url),
            None => Sink::File(config.sink_path.unwrap()),
        };
        let egress = Egress {
            rooms: config.rooms,
            deny_patterns: config.deny_patterns,
            delay_seconds: config.delay_seconds,
            sink,
            rows: Vec::new(),
            next_id: 1,
        };
        proof {
            assert(pending_views(egress.rows@) =~= Seq::empty());
        }
        Ok(egress)
    }

    /// Puts the rows into an empty buffer, with `next_id` as the number of the
    /// next. Refuses them when the numbers do not rise below it, or when two
    /// stand for one event.
    pub fn restore(&mut self, rows: Vec<PendingRow>, next_id: u64) -> (done: bool)
        requires
            old(self)@.well_formed(),
            old(self)@.rows.len() == 0,
        ensures
            final(self)@.well_formed(),
            final(self).destination() == old(self).destination(),
            ({
                let m = EgressView { rows: pending_views(rows@), next_id, ..old(self)@ };
                &&& done == m.well_formed()
                &&& final(self)@ == if done {
                    m
                } else {
                    old(self)@
                }
            }),
    {
        let ghost m = EgressView { rows: pending_views(rows@), next_id, ..self@ };
        let mut i: usize = 0;
        while i < rows.len()
            invariant
                *self == *old(self),
                old(self)@.well_formed(),
                m == (EgressView { rows: pending_views(rows@), next_id, ..old(self)@ }),
                i <= rows@.len(),
                forall|a: int, b: int| 0 <= a < b < i ==> m.rows[a].id < m.rows[b].id,
                forall|a: int| 0 <= a < i ==> (#[trigger] m.rows[a]).id < m.next_id,
                forall|a: int, b: int|
                    0 <= a < b < i ==> !(#[trigger] m.rows[a]).is_for(
                        (#[trigger] m.rows[b]).room_id,
                        m.rows[b].event_id,
                    ),
            decreases rows@.len() - i,
        {
            let row = &rows[i];
            proof {
                assert(m.rows[i as int] == row@);
            }
            if row.id >= next_id {
                return false;
            }
            let mut j: usize = 0;
            while j < i
                invariant
                    *self == *old(self),
                    old(self)@.well_formed(),
                    m == (EgressView { rows: pending_views(rows@), next_id, ..old(self)@ }),
                    j <= i < rows@.len(),
                    row@ == m.rows[i as int],
                    forall|a: int|
                        0 <= a < j ==> (#[trigger] m.rows[a]).id < row@.id && !m.rows[a].is_for(
                            row@.room_id,
                            row@.event_id,
                        ),
                decreases i - j,
            {
                let earlier = &rows[j];
                proof {
                    assert(m.rows[j as int] == earlier@);
                }
                if earlier.id >= row.id || (same(earlier.room_id.as_str(), row.room_id.as_str()) && same(
                    earlier.event_id.as_str(),
                    row.event_id.as_str(),
                )) {
                    proof {
                        if m.well_formed() {
                            assert(m.rows[j as int].id < m.rows[i as int].id);
                            assert(!m.rows[j as int].is_for(m.rows[i as int].room_id, m.rows[i as int].event_id));
                        }
                    }
                    return false;
                }
                j = j + 1;
            }
            i = i + 1;
        }
        self.rows = rows;
        self.next_id = next_id;
        true
    }

    /// Whether completions may leave the room.
    pub fn is_egress_room(&self, room_id: &str) -> (r: bool)
        ensures
            r == text::listed(self@.rooms, room_id@),
    {
        contains_text(self.rooms.as_slice(), room_id)
    }

    /// The row with the number.
    pub fn row(&self, id: u64) -> (r: Option<&PendingRow>)
        ensures
            match r {
                Some(row) => row.id == id && self@.rows.contains(row@),
                None => forall|i: int| 0 <= i < self@.rows.len() ==> (#[trigger] self@.rows[i]).id != id,
            },
    {
        let mut i: usize = 0;
        while i < self.rows.len()
            invariant
                i <= self.rows@.len(),
                forall|a: int| 0 <= a < i ==> (#[trigger] self@.rows[a]).id != id,
            decreases self.rows@.len() - i,
        {
            proof {
                assert(self@.rows[i as int] == self.rows@[i as int]@);
            }
            if self.rows[i].id == id {
                return Some(&self.rows[i]);
            }
            i = i + 1;
        }
        None
    }

    /// The index of the row that stands for the event; the number of rows when
    /// there is none.
    fn find(&self, room_id: &str, event_id: &str) -> (at: usize)
        ensures
            at <= self@.rows.len(),
            at < self@.rows.len() ==> self@.rows[at as int].is_for(room_id@, event_id@),
            at == self@.rows.len() ==> !is_buffered(self@.rows, room_id@, event_id@),
            self@.rows.len() == self.rows@.len(),
    {
        let mut i: usize = 0;
        while i < self.rows.len()
            invariant
                i <= self.rows@.len(),
                forall|a: int| 0 <= a < i ==> !(#[trigger] self@.rows[a]).is_for(room_id@, event_id@),
            decreases self.rows@.len() - i,
        {
            proof {
                assert(self@.rows[i as int] == self.rows@[i as int]@);
            }
            if same(self.rows[i].room_id.as_str(), room_id) && same(self.rows[i].event_id.as_str(), event_id) {
                return i;
            }
            i = i + 1;
        }
        i
    }

    /// Puts the payload into the buffer, unless a row stands for the event
    /// already. Returns the number of the row that was added.
    pub fn enqueue(
        &mut self,
        room_id: &str,
        event_id: &str,
        publish_after: i64,
        payload: Json,
    ) -> (r: Result<Option<u64>, BufferFull>)
        requires
            old(self)@.well_formed(),
        ensures
            final(self)@.well_formed(),
            final(self).destination() == old(self).destination(),
            match r {
                Ok(inserted) => {
                    &&& final(self)@ == old(self)@.enqueued(room_id@, event_id@, publish_after, payload@)
                    &&& inserted == if is_buffered(old(self)@.rows, room_id@, event_id@) {
                        None
                    } else {
                        Some(old(self)@.next_id)
                    }
                    &&& inserted is Some ==> old(self)@.next_id <= MAX_ROW_ID
                },
                Err(_) => {
                    &&& !is_buffered(old(self)@.rows, room_id@, event_id@)
                    &&& old(self)@.next_id > MAX_ROW_ID
                    &&& final(self)@ == old(self)@
                },
            },
    {
        let at: usize = self.find(room_id, event_id);
        if at < self.rows.len() {
            proof {
                assert(self@.rows[at as int].is_for(room_id@, event_id@));
            }
            return Ok(None);
        }
        let id: u64 = self.next_id;
        if id > MAX_ROW_ID {
            return Err(BufferFull);
        }
        let ghost before = self@;
        let ghost payload_tree = payload@;
        self.rows.push(
            PendingRow {
                id,
                room_id: room_id.to_owned(),
                event_id: event_id.to_owned(),
                publish_after,
                payload,
                retracted: false,
                published: false,
                failed: false,
                attempts: 0,
            },
        );
        self.next_id = id + 1;
        proof {
            let after = before.enqueued(room_id@, event_id@, publish_after, payload_tree);
            assert(self@.rows =~= after.rows);
            assert(self@ =~= after);
            assert forall|i: int, j: int| 0 <= i < j < after.rows.len() implies !(#[trigger] after.rows[i]).is_for(
                (#[trigger] after.rows[j]).room_id,
                after.rows[j].event_id,
            ) by {
                assert(after.rows[i] == before.rows[i]);
            }
        }
        Ok(Some(id))
    }

    /// Sees the envelope in the room at the time `now`. One that may leave the
    /// room goes into the buffer, redacted.
    pub fn consider(
        &mut self,
        room_id: &str,
        event_id: &str,
        env: &Envelope,
        now: i64,
    ) -> (r: Result<Consideration, BufferFull>)
        requires
            old(self)@.well_formed(),
            now + old(self)@.delay_seconds <= i64::MAX,
        ensures
            final(self)@.well_formed(),
            final(self).destination() == old(self).destination(),
            match r {
                Ok(seen) => {
                    &&& final(self)@ == old(self)@.considered(room_id@, event_id@, env@, now)
                    &&& seen.queued == old(self)@.takes(room_id@, env@)
                    &&& seen.inserted == if seen.queued && !is_buffered(old(self)@.rows, room_id@, event_id@) {
                        Some(old(self)@.next_id)
                    } else {
                        None
                    }
                    &&& seen.inserted is Some ==> old(self)@.next_id <= MAX_ROW_ID
                },
                Err(_) => {
                    &&& old(self)@.takes(room_id@, env@)
                    &&& !is_buffered(old(self)@.rows, room_id@, event_id@)
                    &&& old(self)@.next_id > MAX_ROW_ID
                    &&& final(self)@ == old(self)@
                },
            },
    {
        if !self.is_egress_room(room_id) || !is_allowlisted(env) {
            return Ok(Consideration { queued: false, inserted: None });
        }
        let payload = match &env.meta {
            Some(meta) => redaction::redact(meta, self.deny_patterns.as_slice()),
            None => Json::Null,
        };
        let publish_after: i64 = (now as i128 + self.delay_seconds as i128) as i64;
        match self.enqueue(room_id, event_id, publish_after, payload) {
            Ok(inserted) => Ok(Consideration { queued: true, inserted }),
            Err(full) => Err(full),
        }
    }

    /// Takes back what waits for the event, unless it is published already.
    /// Returns the number of the row that was taken back.
    pub fn retract(&mut self, room_id: &str, event_id: &str) -> (r: Option<u64>)
        requires
            old(self)@.well_formed(),
        ensures
            final(self)@.well_formed(),
            final(self).destination() == old(self).destination(),
            final(self)@ == old(self)@.retracted(room_id@, event_id@),
            old(self)@.takes_back(room_id@, event_id@, r),
            r is None ==> final(self)@ == old(self)@,
    {
        let ghost before = self@;
        let at: usize = self.find(room_id, event_id);
        proof {
            assert forall|i: int| 0 <= i < before.rows.len() && i != at implies !(#[trigger] before.rows[i]).is_for(
                room_id@,
                event_id@,
            ) by {
                if at < before.rows.len() {
                    if i < at {
                        assert(!before.rows[i].is_for(before.rows[at as int].room_id, before.rows[at as int].event_id));
                    } else {
                        assert(!before.rows[at as int].is_for(before.rows[i].room_id, before.rows[i].event_id));
                    }
                }
            }
        }
        if at == self.rows.len() || self.rows[at].published {
            proof {
                assert(self@.rows =~= before.retracted(room_id@, event_id@).rows);
            }
            return None;
        }
        let ghost rows_before = self.rows@;
        let id: u64 = self.rows[at].id;
        self.rows[at].retracted = true;
        proof {
            let after = before.retracted(room_id@, event_id@);
            assert(self@.rows =~= after.rows);
            assert(before.waits_for(at as int, room_id@, event_id@) && before.rows[at as int].id == id);
        }
        Some(id)
    }

    /// The rows that are to be published at the time, in the order in which
    /// they came.
    pub fn due(&self, now: i64) -> (rows: Vec<DueRow>)
        ensures
            due_views(rows@) == due_pairs(self@.due_rows(now)),
            due_views(rows@) == told_due(self@, now),
    {
        let ghost all = self@.rows;
        let ghost f = |r: PendingView| r.is_due(now);
        let mut due: Vec<DueRow> = Vec::new();
        let mut i: usize = 0;
        proof {
            reveal(Seq::filter);
            assert(due_views(due@) =~= due_pairs(all.take(0).filter(f)));
        }
        while i < self.rows.len()
            invariant
                i <= self.rows@.len(),
                all == pending_views(self.rows@),
                f == (|r: PendingView| r.is_due(now)),
                due_views(due@) == due_pairs(all.take(i as int).filter(f)),
            decreases self.rows@.len() - i,
        {
            let row = &self.rows[i];
            let ghost was = due@;
            proof {
                reveal(Seq::filter);
                assert(all.take(i + 1).drop_last() =~= all.take(i as int));
                assert(all.take(i + 1).last() == row@);
            }
            if row.publish_after <= now && !row.retracted && !row.published && !row.failed {
                due.push(
                    DueRow {
                        id: row.id,
                        record: PublishedRecord {
                            room_id: row.room_id.clone(),
                            event_id: row.event_id.clone(),
                            payload: row.payload.clone(),
                        },
                    },
                );
                proof {
                    let out = all.take(i as int).filter(f);
                    assert(all.take(i + 1).filter(f) == out.push(row@));
                    assert(due_pairs(out.push(row@)) =~= due_pairs(out).push((row@.id, row@.record())));
                    assert(due_views(due@) =~= due_views(was).push((row@.id, row@.record())));
                }
            }
            i = i + 1;
        }
        proof {
            assert(all.take(all.len() as int) =~= all);
        }
        due
    }

    /// Notes what came of a try at publishing the row with the number. Returns
    /// what was published.
    pub fn record_outcome(&mut self, id: u64, outcome: SinkOutcome, now: i64) -> (r: Option<PublishedRecord>)
        requires
            old(self)@.well_formed(),
            now + backoff::CAP_SECS <= i64::MAX,
        ensures
            final(self)@.well_formed(),
            final(self).destination() == old(self).destination(),
            final(self)@ == old(self)@.tried(id, outcome, now),
            optional_record(r) == published_record(old(self)@, id, outcome),
    {
        let ghost before = self@;
        let mut i: usize = 0;
        while i < self.rows.len() && self.rows[i].id != id
            invariant
                i <= self.rows@.len(),
                self@ == before,
                before.rows == pending_views(self.rows@),
                forall|a: int| 0 <= a < i ==> (#[trigger] before.rows[a]).id != id,
            decreases self.rows@.len() - i,
        {
            proof {
                assert(before.rows[i as int] == self.rows@[i as int]@);
            }
            i = i + 1;
        }
        if i == self.rows.len() || self.rows[i].published || self.rows[i].failed {
            proof {
                if i < before.rows.len() {
                    assert(before.rows[i as int] == self.rows@[i as int]@);
                    lemma_one_row_per_id(before, i as int);
                }
                assert(self@.rows =~= before.tried(id, outcome, now).rows);
            }
            return None;
        }
        proof {
            assert(before.rows[i as int] == self.rows@[i as int]@);
            lemma_one_row_per_id(before, i as int);
        }
        match outcome {
            SinkOutcome::Published => {
                self.rows[i].published = true;
                proof {
                    assert(self@.rows =~= before.tried(id, outcome, now).rows);
                }
                let row = &self.rows[i];
                let record = PublishedRecord {
                    room_id: row.room_id.clone(),
                    event_id: row.event_id.clone(),
                    payload: row.payload.clone(),
                };
                proof {
                    assert(open_row(before, id, i as int));
                    assert(before.rows[i as int].record() == record@);
                }
                Some(record)
            },
            SinkOutcome::Terminal => {
                self.rows[i].failed = true;
                proof {
                    assert(self@.rows =~= before.tried(id, outcome, now).rows);
                }
                None
            },
            SinkOutcome::Retryable => {
                let made: i64 = self.rows[i].attempts;
                let attempts: i64 = if made < i64::MAX {
                    made + 1
                } else {
                    made
                };
                self.rows[i].attempts = attempts;
                if attempts >= MAX_PUBLISH_ATTEMPTS {
                    self.rows[i].failed = true;
                } else {
                    let backoff: i64 = retry_backoff_secs(attempts);
                    proof {
                        backoff::law_backoff_monotonic_and_capped(attempts as int, attempts as int);
                    }
                    self.rows[i].publish_after = now + backoff;
                }
                proof {
                    assert(self@.rows =~= before.tried(id, outcome, now).rows);
                }
                None
            },
        }
    }

    /// Notes what came of the tries at publishing rows at the time `now`.
    /// Returns what was published.
    pub fn publish_due(&mut self, now: i64, attempts: &[Attempt]) -> (records: Vec<PublishedRecord>)
        requires
            old(self)@.well_formed(),
            now + backoff::CAP_SECS <= i64::MAX,
        ensures
            final(self)@.well_formed(),
            final(self).destination() == old(self).destination(),
            final(self)@ == after_attempts(old(self)@, attempts@, now),
            record_views(records@) == published_records(old(self)@, attempts@, now),
    {
        let ghost before = self@;
        let mut records: Vec<PublishedRecord> = Vec::new();
        let mut i: usize = 0;
        proof {
            assert(record_views(records@) =~= Seq::empty());
        }
        while i < attempts.len()
            invariant
                i <= attempts@.len(),
                before == old(self)@,
                now + backoff::CAP_SECS <= i64::MAX,
                self@.well_formed(),
                self.destination() == old(self).destination(),
                self@ == after_attempts(before, attempts@.take(i as int), now),
                record_views(records@) == published_records(before, attempts@.take(i as int), now),
            decreases attempts@.len() - i,
        {
            let ghost was = records@;
            proof {
                assert(attempts@.take(i + 1).drop_last() =~= attempts@.take(i as int));
            }
            match self.record_outcome(attempts[i].id, attempts[i].outcome, now) {
                Some(record) => {
                    records.push(record);
                    proof {
                        assert(record_views(records@) =~= record_views(was).push(record@));
                    }
                },
                None => {},
            }
            i = i + 1;
        }
        proof {
            assert(attempts@.take(attempts@.len() as int) =~= attempts@);
        }
        records
    }
}

/// No other row has the number of this one.
pub proof fn lemma_one_row_per_id(m: EgressView, i: int)
    requires
        m.well_formed(),
        0 <= i < m.rows.len(),
    ensures
        forall|j: int| 0 <= j < m.rows.len() && j != i ==> (#[trigger] m.rows[j]).id != m.rows[i].id,
{
    assert forall|j: int| 0 <= j < m.rows.len() && j != i implies (#[trigger] m.rows[j]).id != m.rows[i].id by {
        if j < i {
            assert(m.rows[j].id < m.rows[i].id);
        } else {
            assert(m.rows[i].id < m.rows[j].id);
        }
    }
}

/// Nothing more comes of a row that is published, given up or taken back:
/// whatever is done to the feed, it stays so, with the payload that it has.
pub proof fn law_settled_rows_stay_settled(
    m: EgressView,
    i: int,
    room_id: Seq<char>,
    event_id: Seq<char>,
    publish_after: i64,
    payload: Tree,
    id: u64,
    outcome: SinkOutcome,
    now: i64,
)
    requires
        0 <= i < m.rows.len(),
        m.rows[i].settled(),
    ensures
        m.enqueued(room_id, event_id, publish_after, payload).rows[i] == m.rows[i],
        m.retracted(room_id, event_id).rows[i].settled(),
        m.retracted(room_id, event_id).rows[i].record() == m.rows[i].record(),
        m.tried(id, outcome, now).rows[i].settled(),
        m.tried(id, outcome, now).rows[i].record() == m.rows[i].record(),
        forall|then: i64| !m.rows[i].is_due(then),
{
}

/// An edit or a redaction of an event takes back what waits for it, for good:
/// it is due at no time.
pub proof fn law_retraction_suppresses(m: EgressView, room_id: Seq<char>, event_id: Seq<char>, i: int, now: i64)
    requires
        0 <= i < m.rows.len(),
        m.rows[i].is_for(room_id, event_id),
    ensures
        !m.retracted(room_id, event_id).rows[i].is_due(now),
{
}

/// An edit or a redaction of another event changes nothing of a row.
pub proof fn law_retraction_of_another_event(m: EgressView, room_id: Seq<char>, event_id: Seq<char>, i: int)
    requires
        0 <= i < m.rows.len(),
        !m.rows[i].is_for(room_id, event_id),
    ensures
        m.retracted(room_id, event_id).rows[i] == m.rows[i],
{
}

/// Only a completion with valid metadata, seen in a room that was opted in,
/// changes the feed; and what it adds is its redacted metadata, not to be
/// published before the delay is over.
pub proof fn law_only_completions_leave(
    m: EgressView,
    room_id: Seq<char>,
    event_id: Seq<char>,
    env: EnvelopeView,
    now: i64,
    then: i64,
)
    requires
        now + m.delay_seconds <= i64::MAX,
    ensures
        ({
            let after = m.considered(room_id, event_id, env, now);
            after != m ==> {
                &&& text::listed(m.rooms, room_id)
                &&& may_leave(env)
                &&& after.rows.drop_last() == m.rows
                &&& after.rows.last().payload == redaction::redacted(env.meta->0, m.deny_patterns)
                &&& then < now + m.delay_seconds ==> !after.rows.last().is_due(then)
            }
        }),
{
    let after = m.considered(room_id, event_id, env, now);
    if after != m {
        assert(after.rows.drop_last() =~= m.rows);
    }
}

/// What a completion adds to the feed holds no denied text, save one that can
/// overlap with the mark that stands for it.
pub proof fn law_what_leaves_is_redacted(
    m: EgressView,
    room_id: Seq<char>,
    event_id: Seq<char>,
    env: EnvelopeView,
    now: i64,
    k: int,
)
    requires
        m.takes(room_id, env),
        !is_buffered(m.rows, room_id, event_id),
        0 <= k < m.deny_patterns.len(),
        m.deny_patterns[k].len() > 0,
        !redaction::overlaps(m.deny_patterns[k], redaction::REDACTED@),
    ensures
        redaction::every_text(
            m.considered(room_id, event_id, env, now).rows.last().payload,
            redaction::lacks(m.deny_patterns[k]),
        ),
{
    redaction::law_redaction_strips_everywhere(env.meta->0, m.deny_patterns, k);
}

/// An event that is seen again is not buffered again, whatever became of its
/// row.
pub proof fn law_events_are_buffered_once(
    m: EgressView,
    room_id: Seq<char>,
    event_id: Seq<char>,
    publish_after: i64,
    payload: Tree,
    later: i64,
    other: Tree,
)
    ensures
        ({
            let once = m.enqueued(room_id, event_id, publish_after, payload);
            once.enqueued(room_id, event_id, later, other) == once
        }),
{
    let once = m.enqueued(room_id, event_id, publish_after, payload);
    if !is_buffered(m.rows, room_id, event_id) {
        assert(once.rows[once.rows.len() - 1].is_for(room_id, event_id));
    }
}

/// Each failure for the moment uses up one try and puts the row off, by no more
/// than the longest delay; the last one gives it up.
pub proof fn law_retries_are_bounded(row: PendingView, now: i64)
    requires
        !row.settled(),
        now + backoff::CAP_SECS <= i64::MAX,
    ensures
        ({
            let after = row.tried(SinkOutcome::Retryable, now);
            &&& after.failed <==> row.attempts + 1 >= MAX_PUBLISH_ATTEMPTS
            &&& !after.failed ==> {
                &&& after.attempts == row.attempts + 1
                &&& now < after.publish_after <= now + backoff::CAP_SECS
            }
        }),
{
    let attempts = row.attempts + 1;
    backoff::law_backoff_clamps(attempts);
    if attempts >= 1 {
        backoff::law_backoff_monotonic_and_capped(1, attempts);
    }
    backoff::law_backoff_starts_at_the_base();
}

/// The tries that a flush makes: one for each row that is due, in order, with
/// these outcomes.
pub open spec fn flush(m: EgressView, now: i64, outcomes: Seq<SinkOutcome>) -> Seq<Attempt> {
    Seq::new(outcomes.len(), |k: int| Attempt { id: m.due_rows(now)[k].id, outcome: outcomes[k] })
}

/// A flush tries each row that is due once, and leaves every other row as it
/// is.
pub proof fn law_flush_tries_what_is_due(m: EgressView, now: i64, outcomes: Seq<SinkOutcome>, j: int)
    requires
        m.well_formed(),
        outcomes.len() == m.due_rows(now).len(),
        0 <= j < m.rows.len(),
    ensures
        ({
            let after = after_attempts(m, flush(m, now, outcomes), now);
            &&& after.rows.len() == m.rows.len()
            &&& !m.rows[j].is_due(now) ==> after.rows[j] == m.rows[j]
            &&& m.rows[j].is_due(now) ==> exists|k: int|
                0 <= k < outcomes.len() && #[trigger] m.due_rows(now)[k] == m.rows[j] && after.rows[j]
                    == m.rows[j].tried(outcomes[k], now)
        }),
{
    let due = m.due_rows(now);
    let f = |r: PendingView| r.is_due(now);
    lemma_due_rows(m, now);
    let attempts = flush(m, now, outcomes);
    if m.rows[j].is_due(now) {
        m.rows.lemma_filter_contains(f, j);
        let k = choose|k: int| 0 <= k < due.len() && due[k] == m.rows[j];
        lemma_tried_once(m, now, outcomes, j, k, outcomes.len() as int);
        assert(due[k] == m.rows[j]);
    } else {
        assert forall|k: int| 0 <= k < due.len() implies (#[trigger] due[k]).id != m.rows[j].id by {
            let a = choose|a: int| 0 <= a < m.rows.len() && m.rows[a] == due[k];
            if due[k].id == m.rows[j].id {
                lemma_one_row_per_id(m, j);
                assert(a == j);
            }
        }
        lemma_not_tried(m, now, outcomes, j, outcomes.len() as int);
    }
    assert(attempts.take(outcomes.len() as int) =~= attempts);
}

/// The due rows are rows of the feed that are due, with rising numbers.
pub proof fn lemma_due_rows(m: EgressView, now: i64)
    requires
        m.well_formed(),
    ensures
        forall|k: int| 0 <= k < m.due_rows(now).len() ==> m.rows.contains(#[trigger] m.due_rows(now)[k]),
        forall|a: int, b: int|
            0 <= a < b < m.due_rows(now).len() ==> m.due_rows(now)[a].id < m.due_rows(now)[b].id,
{
    let f = |r: PendingView| r.is_due(now);
    lemma_filtered_rows(m.rows, f);
}

proof fn lemma_filtered_rows(rows: Seq<PendingView>, f: spec_fn(PendingView) -> bool)
    requires
        forall|a: int, b: int| 0 <= a < b < rows.len() ==> rows[a].id < rows[b].id,
    ensures
        forall|k: int| 0 <= k < rows.filter(f).len() ==> rows.contains(#[trigger] rows.filter(f)[k]),
        forall|a: int, b: int|
            0 <= a < b < rows.filter(f).len() ==> rows.filter(f)[a].id < rows.filter(f)[b].id,
    decreases rows.len(),
{
    reveal(Seq::filter);
    if rows.len() > 0 {
        let front = rows.drop_last();
        lemma_filtered_rows(front, f);
        let kept = front.filter(f);
        let all = rows.filter(f);
        assert forall|k: int| 0 <= k < all.len() implies rows.contains(#[trigger] all[k]) by {
            if k < kept.len() {
                assert(front.contains(kept[k]));
                let a = choose|a: int| 0 <= a < front.len() && front[a] == kept[k];
                assert(rows[a] == all[k]);
            } else {
                assert(rows[rows.len() - 1] == all[k]);
            }
        }
        assert forall|a: int, b: int| 0 <= a < b < all.len() implies all[a].id < all[b].id by {
            if b == kept.len() {
                assert(front.contains(kept[a]));
                let k = choose|k: int| 0 <= k < front.len() && front[k] == kept[a];
                assert(rows[k].id < rows[rows.len() - 1].id);
            } else {
                assert(kept[a].id < kept[b].id);
            }
        }
    }
}

/// A row that none of the first `n` tries is for stays as it is.
pub proof fn lemma_not_tried(m: EgressView, now: i64, outcomes: Seq<SinkOutcome>, j: int, n: int)
    requires
        0 <= n <= outcomes.len(),
        0 <= j < m.rows.len(),
        forall|k: int| 0 <= k < n ==> (#[trigger] m.due_rows(now)[k]).id != m.rows[j].id,
    ensures
        ({
            let after = after_attempts(m, flush(m, now, outcomes).take(n), now);
            after.rows.len() == m.rows.len() && after.rows[j] == m.rows[j]
        }),
    decreases n,
{
    if n > 0 {
        let tries = flush(m, now, outcomes).take(n);
        lemma_not_tried(m, now, outcomes, j, n - 1);
        assert(tries.drop_last() =~= flush(m, now, outcomes).take(n - 1));
        assert(tries.last().id == m.due_rows(now)[n - 1].id);
    }
}

/// A row that the try `k` alone is for has been tried once after `n` tries.
proof fn lemma_tried_once(m: EgressView, now: i64, outcomes: Seq<SinkOutcome>, j: int, k: int, n: int)
    requires
        m.well_formed(),
        outcomes.len() == m.due_rows(now).len(),
        0 <= k < n <= outcomes.len(),
        0 <= j < m.rows.len(),
        m.due_rows(now)[k] == m.rows[j],
        m.rows[j].is_due(now),
    ensures
        ({
            let after = after_attempts(m, flush(m, now, outcomes).take(n), now);
            after.rows.len() == m.rows.len() && after.rows[j] == m.rows[j].tried(outcomes[k], now)
        }),
    decreases n,
{
    lemma_due_rows(m, now);
    let due = m.due_rows(now);
    let tries = flush(m, now, outcomes).take(n);
    assert(tries.drop_last() =~= flush(m, now, outcomes).take(n - 1));
    assert(tries.last().id == due[n - 1].id);
    if k == n - 1 {
        assert forall|a: int| 0 <= a < n - 1 implies (#[trigger] due[a]).id != m.rows[j].id by {
            assert(due[a].id < due[k].id);
        }
        lemma_not_tried(m, now, outcomes, j, n - 1);
    } else {
        lemma_tried_once(m, now, outcomes, j, k, n - 1);
        assert(due[k].id < due[n - 1].id);
        assert(m.rows[j].tried(outcomes[k], now).id == due[k].id);
    }
}

} // verus!
