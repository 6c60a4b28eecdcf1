//! The mailboxes: for each persona the envelopes that were addressed to it and
//! how far it has read.
//!
//! What is kept is bounded. Coordination heartbeats are not kept at all, what a
//! persona has read is dropped at the next delivery to it, and so is the oldest
//! of what it has not read beyond a cap.
use vstd::hash_map::StringHashMap;
use vstd::prelude::*;
use vstd::string::*;

use crate::envelope;
use crate::envelope::{envelope_json, parse_envelope, Envelope, EnvelopeView};
use crate::json;
use crate::json::{Json, Tree};
use crate::text::same;

verus! {

/// The key by which a body shows itself to be a coordination heartbeat.
pub const EPHEMERAL_BODY_MARKER: &'static str = "loom_claim";

/// How many unread messages a persona's mailbox holds at most.
pub const MAX_UNCONSUMED_PER_PERSONA: usize = 5_000;

/// The highest number a message can have.
pub const MAX_SEQ: u64 = 9_223_372_036_854_775_807;

/// A delivered envelope.
#[derive(Debug)]
pub struct MailboxEntry {
    pub room_id: String,
    pub event_id: String,
    /// The sender of the event, which is not the persona that the envelope
    /// names.
    pub sender: String,
    pub envelope: Envelope,
}

/// A delivered envelope in a persona's mailbox. Messages are numbered in the
/// order of their delivery, and no number is used twice.
#[derive(Debug)]
pub struct MailboxRow {
    pub seq: u64,
    pub persona: String,
    pub entry: MailboxEntry,
}

/// The model of an entry.
pub struct EntryView {
    pub room_id: Seq<char>,
    pub event_id: Seq<char>,
    pub sender: Seq<char>,
    pub envelope: EnvelopeView,
}

/// The model of a row.
pub struct RowView {
    pub seq: u64,
    pub persona: Seq<char>,
    pub entry: EntryView,
}

/// The model of the mailboxes: the rows in the order of their numbers, how far
/// each persona has read, and the number of the next row.
#[verifier::ext_equal]
pub struct MailboxView {
    pub rows: Seq<RowView>,
    pub cursors: Map<Seq<char>, u64>,
    pub next_seq: u64,
}

impl View for MailboxEntry {
    type V = EntryView;

    open spec fn view(&self) -> EntryView {
        EntryView {
            room_id: self.room_id@,
            event_id: self.event_id@,
            sender: self.sender@,
            envelope: self.envelope@,
        }
    }
}

impl View for MailboxRow {
    type V = RowView;

    open spec fn view(&self) -> RowView {
        RowView { seq: self.seq, persona: self.persona@, entry: self.entry@ }
    }
}

impl Clone for MailboxEntry {
    fn clone(&self) -> (r: Self)
        ensures
            r@ == self@,
    {
        MailboxEntry {
            room_id: self.room_id.clone(),
            event_id: self.event_id.clone(),
            sender: self.sender.clone(),
            envelope: self.envelope.clone(),
        }
    }
}

/// The models of the rows.
pub open spec fn row_views(rows: Seq<MailboxRow>) -> Seq<RowView> {
    Seq::new(rows.len(), |i: int| rows[i]@)
}

/// The models of the entries.
pub open spec fn entry_views(entries: Seq<MailboxEntry>) -> Seq<EntryView> {
    Seq::new(entries.len(), |i: int| entries[i]@)
}

/// The entries of the rows.
pub open spec fn row_entries(rows: Seq<RowView>) -> Seq<EntryView> {
    Seq::new(rows.len(), |i: int| rows[i].entry)
}

impl MailboxView {
    /// The rows' numbers rise, and the next one is higher than all of them.
    pub open spec fn well_formed(self) -> bool {
        &&& 1 <= self.next_seq <= MAX_SEQ + 1
        &&& forall|i: int, j: int| 0 <= i < j < self.rows.len() ==> self.rows[i].seq < self.rows[j].seq
        &&& forall|i: int| 0 <= i < self.rows.len() ==> 1 <= (#[trigger] self.rows[i]).seq < self.next_seq
    }

    /// Whether nobody has read further than there were rows.
    pub open spec fn has_no_cursor_ahead(self) -> bool {
        forall|p: Seq<char>| self.cursors.dom().contains(p) ==> (#[trigger] self.cursors[p]) < self.next_seq
    }

    /// The number of the last row that the persona has read; 0 when it has
    /// read none.
    pub open spec fn cursor(self, persona: Seq<char>) -> u64 {
        if self.cursors.dom().contains(persona) {
            self.cursors[persona]
        } else {
            0
        }
    }

    /// What the persona has not read, oldest first.
    pub open spec fn unread(self, persona: Seq<char>) -> Seq<RowView> {
        self.rows.filter(unread_by(persona, self.cursor(persona)))
    }

    /// The mailboxes after the sweep of the persona's: its rows are gone that
    /// it has read, or that `cap` of its rows are newer than.
    pub open spec fn swept(self, persona: Seq<char>, cap: nat) -> MailboxView {
        MailboxView {
            rows: self.rows.filter(survives(self.rows, persona, self.cursor(persona), cap)),
            ..self
        }
    }

    /// The mailboxes with a new row in the persona's.
    pub open spec fn with_row(self, persona: Seq<char>, entry: EntryView) -> MailboxView {
        MailboxView {
            rows: self.rows.push(RowView { seq: self.next_seq, persona, entry }),
            next_seq: (self.next_seq + 1) as u64,
            ..self
        }
    }

    /// The mailboxes after a delivery that is kept.
    pub open spec fn stored(self, persona: Seq<char>, entry: EntryView) -> MailboxView {
        self.with_row(persona, entry).swept(persona, MAX_UNCONSUMED_PER_PERSONA as nat)
    }

    /// The mailboxes after a delivery.
    pub open spec fn delivered(self, persona: Seq<char>, entry: EntryView) -> MailboxView {
        if is_ephemeral(entry.envelope.body) {
            self
        } else {
            self.stored(persona, entry)
        }
    }

    /// What the persona is handed when it checks its mailbox: the first
    /// `limit` rows that it has not read, or all of them.
    pub open spec fn handed_out(self, persona: Seq<char>, limit: Option<u32>) -> Seq<RowView> {
        let unread = self.unread(persona);
        match limit {
            Some(limit) if limit < unread.len() => unread.take(limit as int),
            _ => unread,
        }
    }

    /// The mailboxes after the check: the persona has read up to the last row
    /// that it was handed, if it was handed any and did not only peek.
    pub open spec fn checked(self, persona: Seq<char>, advance: bool, limit: Option<u32>) -> MailboxView {
        let out = self.handed_out(persona, limit);
        if advance && out.len() > 0 {
            MailboxView { cursors: self.cursors.insert(persona, out.last().seq), ..self }
        } else {
            self
        }
    }
}

/// The rows of the persona after the number.
pub open spec fn unread_by(persona: Seq<char>, cursor: u64) -> spec_fn(RowView) -> bool {
    |r: RowView| r.persona == persona && r.seq > cursor
}

/// How many rows of the persona have a higher number.
pub open spec fn newer(rows: Seq<RowView>, persona: Seq<char>, seq: u64) -> nat {
    rows.filter(unread_by(persona, seq)).len()
}

/// The rows of other personas, and those of this one that it has not read and
/// that fewer than `cap` of its rows are newer than.
pub open spec fn survives(
    rows: Seq<RowView>,
    persona: Seq<char>,
    cursor: u64,
    cap: nat,
) -> spec_fn(RowView) -> bool {
    |r: RowView| r.persona != persona || (r.seq > cursor && newer(rows, persona, r.seq) < cap)
}

/// Whether the value is that of a coordination heartbeat: an object with the
/// marker as a key.
pub open spec fn is_heartbeat(value: Tree) -> bool {
    json::field(value, EPHEMERAL_BODY_MARKER@) is Some
}

/// Whether the body is the JSON text of a coordination heartbeat.
pub open spec fn is_ephemeral(body: Seq<char>) -> bool {
    match json::parsed(body) {
        Ok(value) => is_heartbeat(value),
        Err(_) => false,
    }
}

/// Whether the value is that of a coordination heartbeat.
pub fn heartbeat(value: &Json) -> (r: bool)
    ensures
        r == is_heartbeat(value@),
{
    value.get(EPHEMERAL_BODY_MARKER).is_some()
}

/// Whether the body is the JSON text of a coordination heartbeat.
pub fn is_ephemeral_body(body: &str) -> (r: bool)
    ensures
        r == is_ephemeral(body@),
{
    match Json::parse(body) {
        Ok(value) => heartbeat(&value),
        Err(_) => false,
    }
}

/// The envelope that a stored text stands for.
pub open spec fn stored_envelope(stored: Seq<char>) -> Option<EnvelopeView> {
    match json::parsed(stored) {
        Ok(value) => envelope::envelope_of(value),
        Err(_) => None,
    }
}

/// How deep what stands in an envelope may nest for its stored text to be read.
pub open spec fn field_nesting() -> nat {
    (json::MAX_NESTING - 1) as nat
}

/// Whether the envelope can be read back from its stored text. One with
/// metadata that is null comes back without it.
pub open spec fn is_storable(env: EnvelopeView) -> bool {
    &&& env.well_formed()
    &&& env.meta matches Some(meta) ==> meta != Tree::Null && json::is_readable(meta, field_nesting())
    &&& !env.rest.dom().contains(json::RESERVED_FIELD@)
    &&& forall|name: Seq<char>|
        env.rest.dom().contains(name) ==> json::is_readable(#[trigger] env.rest[name], field_nesting())
}

/// Whether the numbers in what stands in the envelope are integers.
pub open spec fn has_exact_fields(env: EnvelopeView) -> bool {
    &&& env.meta matches Some(meta) ==> json::is_exact(meta, field_nesting())
    &&& forall|name: Seq<char>|
        env.rest.dom().contains(name) ==> json::is_exact(#[trigger] env.rest[name], field_nesting())
}

/// Whether the envelope may be read back as `read`: the same but for numbers
/// that are no integers, in the metadata and in the fields that are passed on.
pub open spec fn envelope_reads_as(env: EnvelopeView, read: EnvelopeView) -> bool {
    &&& read == EnvelopeView { meta: read.meta, rest: read.rest, ..env }
    &&& match (env.meta, read.meta) {
        (Some(meta), Some(other)) => json::reads_as(meta, other, field_nesting()),
        (None, None) => true,
        _ => false,
    }
    &&& env.rest.dom() == read.rest.dom()
    &&& forall|name: Seq<char>|
        env.rest.dom().contains(name) ==> json::reads_as(
            #[trigger] env.rest[name],
            read.rest[name],
            field_nesting(),
        )
}

/// The reserved field is none of an envelope's own.
proof fn lemma_reserved_is_unknown()
    ensures
        !envelope::is_known_field(json::RESERVED_FIELD@),
{
    reveal_strlit("$serde_json::private::RawValue");
    reveal_strlit("v");
    reveal_strlit("from");
    reveal_strlit("to");
    reveal_strlit("type");
    reveal_strlit("body");
    reveal_strlit("task_id");
    reveal_strlit("wake");
    reveal_strlit("meta");
    assert(json::RESERVED_FIELD@.len() == 30 && "v"@.len() == 1 && "to"@.len() == 2 && "task_id"@.len() == 7);
    assert("from"@.len() == 4 && "type"@.len() == 4 && "body"@.len() == 4 && "wake"@.len() == 4 && "meta"@.len()
        == 4);
}

/// An envelope nests one deeper than what stands in it.
proof fn lemma_envelope_is_readable(env: EnvelopeView)
    requires
        is_storable(env),
    ensures
        json::is_readable(envelope::envelope_tree(env), json::MAX_NESTING as nat),
        has_exact_fields(env) ==> json::is_exact(envelope::envelope_tree(env), json::MAX_NESTING as nat),
{
    let pairs = envelope::envelope_pairs(env);
    let known = json::field_map(pairs);
    let all = env.rest.union_prefer_right(known);
    lemma_reserved_is_unknown();
    json::lemma_field_map_missing(pairs, json::RESERVED_FIELD@);
    assert forall|i: int| 0 <= i < pairs.len() implies json::is_readable((#[trigger] pairs[i]).1, field_nesting())
        && (has_exact_fields(env) ==> json::is_exact(pairs[i].1, field_nesting())) by {}
    assert forall|name: Seq<char>| all.dom().contains(name) implies json::is_readable(
        #[trigger] all[name],
        field_nesting(),
    ) && (has_exact_fields(env) ==> json::is_exact(all[name], field_nesting())) by {
        if known.dom().contains(name) {
            json::lemma_field_map_value(pairs, name);
            let i = choose|i: int| 0 <= i < pairs.len() && #[trigger] pairs[i] == (name, known[name]);
            assert(pairs[i].1 == all[name]);
        } else {
            assert(all[name] == env.rest[name]);
        }
    }
}

/// What is read for the envelope on the wire is the envelope, up to numbers
/// that are no integers.
proof fn lemma_envelope_reads_back(env: EnvelopeView, read: Tree)
    requires
        is_storable(env),
        json::reads_as(envelope::envelope_tree(env), read, json::MAX_NESTING as nat),
    ensures
        envelope::envelope_of(read) matches Some(other) && envelope_reads_as(env, other),
{
    let depth = field_nesting();
    let wire = envelope::envelope_tree(env)->Object_0;
    let others = read->Object_0;
    envelope::lemma_envelope_fields(env);
    assert(read is Object);
    assert forall|name: Seq<char>| wire.dom().contains(name) implies json::reads_as(
        #[trigger] wire[name],
        others[name],
        depth,
    ) by {}
    assert forall|name: Seq<char>| !wire.dom().contains(name) implies json::field(read, name) is None by {}
    assert(json::reads_as(wire["v"@], others["v"@], depth));
    assert(json::reads_as(wire["from"@], others["from"@], depth));
    assert(json::reads_as(wire["to"@], others["to"@], depth));
    assert(json::reads_as(wire["type"@], others["type"@], depth));
    assert(json::reads_as(wire["body"@], others["body"@], depth));
    assert(env.task_id is Some ==> json::reads_as(wire["task_id"@], others["task_id"@], depth));
    assert(env.wake is Some ==> json::reads_as(wire["wake"@], others["wake"@], depth));
    assert(env.meta is Some ==> json::reads_as(wire["meta"@], others["meta"@], depth));
    let other = envelope::envelope_of(read)->0;
    assert(env.rest.dom() =~= other.rest.dom()) by {
        assert(envelope::unknown_fields(wire) == env.rest);
        assert forall|name: Seq<char>| env.rest.dom().contains(name) == other.rest.dom().contains(name) by {
            assert(envelope::unknown_fields(wire).dom().contains(name) == (wire.dom().contains(name)
                && !envelope::is_known_field(name)));
        }
    }
    assert forall|name: Seq<char>| env.rest.dom().contains(name) implies json::reads_as(
        #[trigger] env.rest[name],
        other.rest[name],
        depth,
    ) by {
        assert(envelope::unknown_fields(wire)[name] == wire[name]);
    }
}

/// The text that the envelope is stored as. Where it can be read back, it stands
/// for the envelope, up to numbers that are no integers.
pub fn store_envelope(env: &Envelope) -> (stored: String)
    ensures
        stored@ == json::printed(envelope::envelope_tree(env@)),
        is_storable(env@) ==> (stored_envelope(stored@) matches Some(read) && envelope_reads_as(env@, read)),
        is_storable(env@) && has_exact_fields(env@) ==> stored_envelope(stored@) == Some(env@),
{
    let value = envelope_json(env);
    let stored = value.print();
    proof {
        if is_storable(env@) {
            lemma_envelope_is_readable(env@);
            lemma_envelope_reads_back(env@, json::parsed(stored@)->Ok_0);
            envelope::law_envelope_round_trip(env@);
        }
    }
    stored
}

/// The envelope that the stored text stands for.
pub fn read_stored_envelope(stored: &str) -> (r: Option<Envelope>)
    ensures
        envelope::optional_envelope(r) == stored_envelope(stored@),
{
    match Json::parse(stored) {
        Ok(value) => parse_envelope(&value),
        Err(_) => None,
    }
}

/// Predicates that agree on the elements filter them alike.
proof fn lemma_filter_agrees<A>(s: Seq<A>, f: spec_fn(A) -> bool, g: spec_fn(A) -> bool)
    requires
        forall|i: int| 0 <= i < s.len() ==> f(#[trigger] s[i]) == g(s[i]),
    ensures
        s.filter(f) == s.filter(g),
    decreases s.len(),
{
    reveal(Seq::filter);
    if s.len() > 0 {
        let front = s.drop_last();
        assert forall|i: int| 0 <= i < front.len() implies f(#[trigger] front[i]) == g(front[i]) by {
            assert(front[i] == s[i]);
        }
        lemma_filter_agrees(front, f, g);
        assert(f(s[s.len() - 1]) == g(s[s.len() - 1]));
    }
}

/// What a filter makes of one element and the rest.
proof fn lemma_filter_cons<A>(x: A, rest: Seq<A>, f: spec_fn(A) -> bool)
    ensures
        (seq![x] + rest).filter(f) == (if f(x) {
            seq![x]
        } else {
            Seq::<A>::empty()
        }) + rest.filter(f),
{
    Seq::filter_distributes_over_add(seq![x], rest, f);
    reveal_with_fuel(Seq::filter, 2);
    assert(seq![x].drop_last() =~= Seq::<A>::empty());
    assert(seq![x].filter(f) =~= if f(x) {
        seq![x]
    } else {
        Seq::<A>::empty()
    });
}

/// In rows in the order of their numbers, the newer rows are those behind.
proof fn lemma_newer_are_behind(rows: Seq<RowView>, persona: Seq<char>, i: int)
    requires
        0 <= i < rows.len(),
        forall|a: int, b: int| 0 <= a < b < rows.len() ==> rows[a].seq < rows[b].seq,
    ensures
        newer(rows, persona, rows[i].seq) == newer(rows.skip(i + 1), persona, 0),
        rows[i].seq > 0 || i == 0,
    decreases rows.len() - i,
{
    let f = unread_by(persona, rows[i].seq);
    let g = unread_by(persona, 0);
    let front = rows.take(i + 1);
    let back = rows.skip(i + 1);
    assert(rows =~= front + back);
    Seq::filter_distributes_over_add(front, back, f);
    assert forall|k: int| 0 <= k < front.len() implies !f(#[trigger] front[k]) by {
        assert(front[k] == rows[k]);
    }
    front.lemma_all_neg_filter_empty(f);
    assert forall|k: int| 0 <= k < back.len() implies f(#[trigger] back[k]) == g(back[k]) by {
        assert(back[k] == rows[i + 1 + k]);
        assert(rows[i].seq < rows[i + 1 + k].seq);
    }
    lemma_filter_agrees(back, f, g);
    if i > 0 {
        assert(rows[0].seq < rows[i].seq);
    }
}

/// A filter keeps the order of the rows.
pub proof fn lemma_filter_keeps_order(rows: Seq<RowView>, f: spec_fn(RowView) -> bool)
    requires
        forall|a: int, b: int| 0 <= a < b < rows.len() ==> rows[a].seq < rows[b].seq,
    ensures
        forall|a: int, b: int|
            0 <= a < b < rows.filter(f).len() ==> rows.filter(f)[a].seq < rows.filter(f)[b].seq,
        forall|a: int| 0 <= a < rows.filter(f).len() ==> rows.contains(#[trigger] rows.filter(f)[a]),
        forall|a: int| 0 <= a < rows.filter(f).len() ==> f(#[trigger] rows.filter(f)[a]),
    decreases rows.len(),
{
    reveal(Seq::filter);
    if rows.len() > 0 {
        let front = rows.drop_last();
        lemma_filter_keeps_order(front, f);
        let kept = front.filter(f);
        let all = rows.filter(f);
        assert forall|a: int| 0 <= a < all.len() implies rows.contains(#[trigger] all[a]) by {
            if a < kept.len() {
                assert(front.contains(kept[a]));
                let k = choose|k: int| 0 <= k < front.len() && front[k] == kept[a];
                assert(rows[k] == all[a]);
            } else {
                assert(rows[rows.len() - 1] == all[a]);
            }
        }
        assert forall|a: int, b: int| 0 <= a < b < all.len() implies all[a].seq < all[b].seq by {
            if b == kept.len() {
                assert(front.contains(kept[a]));
                let k = choose|k: int| 0 <= k < front.len() && front[k] == kept[a];
                assert(rows[k].seq < rows[rows.len() - 1].seq);
            } else {
                assert(kept[a].seq < kept[b].seq);
            }
        }
    }
}

/// The mailboxes of all personas.
pub struct Mailbox {
    rows: Vec<MailboxRow>,
    cursors: StringHashMap<u64>,
    next_seq: u64,
}

impl View for Mailbox {
    type V = MailboxView;

    closed spec fn view(&self) -> MailboxView {
        MailboxView { rows: row_views(self.rows@), cursors: self.cursors@, next_seq: self.next_seq }
    }
}

/// What a delivery changed: the number under which it was kept, if it was, and
/// the numbers of the rows that were dropped.
pub struct Delivery {
    pub stored: Option<u64>,
    pub dropped: Vec<u64>,
}

/// There is no number left for another message.
#[derive(Debug)]
pub struct MailboxFull;

/// Whether a row from the index on has the number and is not kept.
pub open spec fn drops(rows: Seq<RowView>, keep: spec_fn(RowView) -> bool, from: int, seq: u64) -> bool {
    exists|a: int| from <= a < rows.len() && (#[trigger] rows[a]).seq == seq && !keep(rows[a])
}

/// Whether the sweep drops the row with the number.
pub open spec fn dropped_by_sweep(m: MailboxView, persona: Seq<char>, cap: nat, seq: u64) -> bool {
    drops(m.rows, survives(m.rows, persona, m.cursor(persona), cap), 0, seq)
}

impl Mailbox {
    /// No messages, and none read.
    pub fn new() -> (m: Mailbox)
        ensures
            m@.well_formed(),
            m@ == (MailboxView { rows: Seq::empty(), cursors: Map::empty(), next_seq: 1 }),
    {
        let m = Mailbox { rows: Vec::new(), cursors: StringHashMap::new(), next_seq: 1 };
        proof {
            assert(m@.rows =~= Seq::empty());
        }
        m
    }

    /// The mailboxes of the rows, in the order of their numbers, with
    /// `next_seq` as the number of the next. `None` when the numbers do not
    /// rise, or `next_seq` is not higher than all of them.
    pub fn restore(rows: Vec<MailboxRow>, next_seq: u64) -> (r: Option<Mailbox>)
        ensures
            ({
                let m = MailboxView { rows: row_views(rows@), cursors: Map::empty(), next_seq };
                match r {
                    Some(mailbox) => m.well_formed() && mailbox@ == m,
                    None => !m.well_formed(),
                }
            }),
    {
        let ghost m = MailboxView { rows: row_views(rows@), cursors: Map::empty(), next_seq };
        if next_seq < 1 || next_seq > MAX_SEQ + 1 {
            return None;
        }
        let mut last: u64 = 0;
        let mut i: usize = 0;
        while i < rows.len()
            invariant
                i <= rows@.len(),
                m.rows == row_views(rows@),
                m.next_seq == next_seq,
                last == if i == 0 {
                    0
                } else {
                    m.rows[i - 1].seq
                },
                forall|a: int, b: int| 0 <= a < b < i ==> m.rows[a].seq < m.rows[b].seq,
                forall|a: int| 0 <= a < i ==> 1 <= (#[trigger] m.rows[a]).seq <= last,
                i > 0 ==> last < next_seq,
            decreases rows@.len() - i,
        {
            let seq: u64 = rows[i].seq;
            proof {
                assert(m.rows[i as int].seq == seq);
            }
            if seq <= last || seq >= next_seq {
                proof {
                    if m.well_formed() && i > 0 {
                        assert(m.rows[i - 1].seq < m.rows[i as int].seq);
                    }
                }
                return None;
            }
            last = seq;
            i = i + 1;
        }
        let mailbox = Mailbox { rows, cursors: StringHashMap::new(), next_seq };
        Some(mailbox)
    }

    /// Puts the persona's cursor to `seq`: rows up to that number count as
    /// read by it, those that are still to come among them.
    pub fn restore_cursor(&mut self, persona: &str, seq: u64)
        requires
            old(self)@.well_formed(),
        ensures
            final(self)@.well_formed(),
            final(self)@ == (MailboxView { cursors: old(self)@.cursors.insert(persona@, seq), ..old(self)@ }),
    {
        self.cursors.insert(persona.to_owned(), seq);
    }

    /// The number of the last row that the persona has read; 0 when it has
    /// read none.
    pub fn cursor(&self, persona: &str) -> (seq: u64)
        ensures
            seq == self@.cursor(persona@),
    {
        match self.cursors.get(persona) {
            Some(seq) => *seq,
            None => 0,
        }
    }

    /// How many rows the persona's mailbox holds, read or not.
    pub fn row_count(&self, persona: &str) -> (n: usize)
        ensures
            n == self@.rows.filter(|r: RowView| r.persona == persona@).len(),
    {
        let ghost f = |r: RowView| r.persona == persona@;
        let ghost all = self@.rows;
        let mut n: usize = 0;
        let mut i: usize = 0;
        proof {
            reveal(Seq::filter);
        }
        while i < self.rows.len()
            invariant
                i <= self.rows@.len(),
                all == row_views(self.rows@),
                f == (|r: RowView| r.persona == persona@),
                n == all.take(i as int).filter(f).len(),
                n <= i,
            decreases self.rows@.len() - i,
        {
            proof {
                reveal(Seq::filter);
                let next = all.take(i + 1);
                assert(next.drop_last() =~= all.take(i as int));
                assert(next.last() == self.rows@[i as int]@);
            }
            if same(self.rows[i].persona.as_str(), persona) {
                n = n + 1;
            }
            i = i + 1;
        }
        proof {
            assert(all.take(all.len() as int) =~= all);
        }
        n
    }

    /// Drops the persona's rows that it has read, and of the others all but
    /// the newest `cap`. Returns the numbers of the rows that were dropped.
    pub fn gc_persona(&mut self, persona: &str, cap: usize) -> (dropped: Vec<u64>)
        requires
            old(self)@.well_formed(),
        ensures
            final(self)@.well_formed(),
            final(self)@ == old(self)@.swept(persona@, cap as nat),
            forall|seq: u64|
                dropped@.contains(seq) <==> dropped_by_sweep(old(self)@, persona@, cap as nat, seq),
    {
        let cursor: u64 = self.cursor(persona);
        let ghost before = self@;
        let ghost all = self@.rows;
        let ghost keep = survives(all, persona@, cursor, cap as nat);
        let ghost of = unread_by(persona@, 0);
        let mut dropped: Vec<u64> = Vec::new();
        let mut seen: usize = 0;
        let mut i: usize = self.rows.len();
        proof {
            assert(all.skip(i as int) =~= Seq::empty());
            assert(all.take(i as int) =~= all);
            reveal(Seq::filter);
            assert(self@.rows =~= all.take(i as int) + all.skip(i as int).filter(keep));
        }
        while i > 0
            invariant
                before.well_formed(),
                before.rows == all,
                cursor == before.cursor(persona@),
                keep == survives(all, persona@, cursor, cap as nat),
                of == unread_by(persona@, 0),
                i <= all.len() <= usize::MAX,
                self.cursors@ == before.cursors,
                self.next_seq == before.next_seq,
                row_views(self.rows@) == all.take(i as int) + all.skip(i as int).filter(keep),
                seen == all.skip(i as int).filter(of).len(),
                seen <= all.len() - i,
                forall|k: int| 0 <= k < dropped@.len() ==> drops(all, keep, i as int, #[trigger] dropped@[k]),
                forall|a: int| i <= a < all.len() && !keep(#[trigger] all[a]) ==> dropped@.contains(all[a].seq),
            decreases i,
        {
            let ghost tail = all.skip(i as int);
            let ghost was = dropped@;
            i = i - 1;
            proof {
                let x = all[i as int];
                assert(self.rows@.len() == row_views(self.rows@).len());
                assert(row_views(self.rows@)[i as int] == all.take(i + 1)[i as int]);
                assert(self.rows@[i as int]@ == x);
                assert(all.skip(i as int) =~= seq![x] + tail);
                lemma_filter_cons(x, tail, keep);
                lemma_filter_cons(x, tail, of);
                lemma_newer_are_behind(all, persona@, i as int);
                assert(all.skip(i + 1) =~= tail);
                assert(1 <= x.seq);
            }
            let ghost rows_before = self.rows@;
            if same(self.rows[i].persona.as_str(), persona) {
                let seq: u64 = self.rows[i].seq;
                if seq <= cursor || seen >= cap {
                    dropped.push(seq);
                    let _ = self.rows.remove(i);
                    proof {
                        assert(row_views(self.rows@) =~= row_views(rows_before).remove(i as int));
                        assert(row_views(self.rows@) =~= all.take(i as int) + tail.filter(keep));
                        assert(all.skip(i as int).filter(keep) =~= tail.filter(keep));
                        assert(dropped@[dropped@.len() - 1] == all[i as int].seq);
                    }
                } else {
                    proof {
                        assert(row_views(self.rows@) =~= all.take(i as int) + (seq![all[i as int]] + tail.filter(keep)));
                    }
                }
                seen = seen + 1;
            } else {
                proof {
                    assert(row_views(self.rows@) =~= all.take(i as int) + (seq![all[i as int]] + tail.filter(keep)));
                }
            }
            proof {
                assert forall|a: int| i <= a < all.len() && !keep(#[trigger] all[a]) implies dropped@.contains(
                    all[a].seq,
                ) by {
                    if a > i {
                        assert(was.contains(all[a].seq));
                        let k = choose|k: int| 0 <= k < was.len() && was[k] == all[a].seq;
                        assert(dropped@[k] == all[a].seq);
                    } else {
                        assert(dropped@[dropped@.len() - 1] == all[a].seq);
                    }
                }
                assert forall|k: int| 0 <= k < dropped@.len() implies drops(
                    all,
                    keep,
                    i as int,
                    #[trigger] dropped@[k],
                ) by {
                    if k < was.len() {
                        assert(drops(all, keep, i + 1, was[k]));
                    } else {
                        assert(all[i as int].seq == dropped@[k]);
                    }
                }
            }
        }
        proof {
            assert(all.skip(0) =~= all);
            assert(row_views(self.rows@) =~= all.filter(keep));
            lemma_filter_keeps_order(all, keep);
            let rows = all.filter(keep);
            assert forall|a: int| 0 <= a < rows.len() implies 1 <= (#[trigger] rows[a]).seq < self.next_seq by {
                assert(all.contains(rows[a]));
            }
            assert forall|seq: u64|
                dropped@.contains(seq) <==> dropped_by_sweep(before, persona@, cap as nat, seq) by {
                if dropped@.contains(seq) {
                    let k = choose|k: int| 0 <= k < dropped@.len() && dropped@[k] == seq;
                    assert(drops(all, keep, 0, dropped@[k]));
                }
            }
        }
        dropped
    }

    /// Keeps the entry in the persona's mailbox, and sweeps the mailbox.
    pub fn store(&mut self, persona: &str, entry: MailboxEntry) -> (r: Result<Delivery, MailboxFull>)
        requires
            old(self)@.well_formed(),
        ensures
            final(self)@.well_formed(),
            match r {
                Ok(delivery) => {
                    &&& old(self)@.next_seq <= MAX_SEQ
                    &&& final(self)@ == old(self)@.stored(persona@, entry@)
                    &&& delivery.stored == Some(old(self)@.next_seq)
                    &&& forall|seq: u64|
                        delivery.dropped@.contains(seq) <==> dropped_by_sweep(
                            old(self)@.with_row(persona@, entry@),
                            persona@,
                            MAX_UNCONSUMED_PER_PERSONA as nat,
                            seq,
                        )
                },
                Err(_) => old(self)@.next_seq > MAX_SEQ && final(self)@ == old(self)@,
            },
    {
        let seq: u64 = self.next_seq;
        if seq > MAX_SEQ {
            return Err(MailboxFull);
        }
        let ghost before = self@;
        let ghost entry_view = entry@;
        let ghost rows_before = self.rows@;
        self.rows.push(MailboxRow { seq, persona: persona.to_owned(), entry });
        self.next_seq = seq + 1;
        proof {
            assert(row_views(self.rows@) =~= before.rows.push(
                RowView { seq, persona: persona@, entry: entry_view },
            ));
            assert(self@ =~= before.with_row(persona@, entry_view));
        }
        let dropped = self.gc_persona(persona, MAX_UNCONSUMED_PER_PERSONA);
        Ok(Delivery { stored: Some(seq), dropped })
    }

    /// Delivers the envelope into the persona's mailbox. A coordination
    /// heartbeat is passed over; anything else is kept, and the mailbox swept.
    pub fn deliver(
        &mut self,
        persona: &str,
        room_id: &str,
        event_id: &str,
        sender: &str,
        env: &Envelope,
    ) -> (r: Result<Delivery, MailboxFull>)
        requires
            old(self)@.well_formed(),
        ensures
            final(self)@.well_formed(),
            ({
                let entry = EntryView {
                    room_id: room_id@,
                    event_id: event_id@,
                    sender: sender@,
                    envelope: env@,
                };
                match r {
                    Ok(delivery) => {
                        &&& final(self)@ == old(self)@.delivered(persona@, entry)
                        &&& if is_ephemeral(env@.body) {
                            delivery.stored is None && delivery.dropped@.len() == 0
                        } else {
                            &&& old(self)@.next_seq <= MAX_SEQ
                            &&& delivery.stored == Some(old(self)@.next_seq)
                            &&& forall|seq: u64|
                                delivery.dropped@.contains(seq) <==> dropped_by_sweep(
                                    old(self)@.with_row(persona@, entry),
                                    persona@,
                                    MAX_UNCONSUMED_PER_PERSONA as nat,
                                    seq,
                                )
                        }
                    },
                    Err(_) => {
                        &&& !is_ephemeral(env@.body)
                        &&& old(self)@.next_seq > MAX_SEQ
                        &&& final(self)@ == old(self)@
                    },
                }
            }),
    {
        if is_ephemeral_body(env.body.as_str()) {
            return Ok(Delivery { stored: None, dropped: Vec::new() });
        }
        let entry = MailboxEntry {
            room_id: room_id.to_owned(),
            event_id: event_id.to_owned(),
            sender: sender.to_owned(),
            envelope: env.clone(),
        };
        self.store(persona, entry)
    }

    /// What the persona has not read, oldest first, and at most `limit` of it.
    /// Unless it only peeks, it has then read what it was handed.
    pub fn check(&mut self, persona: &str, advance: bool, limit: Option<u32>) -> (entries: Vec<MailboxEntry>)
        requires
            old(self)@.well_formed(),
        ensures
            final(self)@.well_formed(),
            entry_views(entries@) == row_entries(old(self)@.handed_out(persona@, limit)),
            final(self)@ == old(self)@.checked(persona@, advance, limit),
    {
        let cursor: u64 = self.cursor(persona);
        let ghost before = self@;
        let ghost all = self@.rows;
        let ghost f = unread_by(persona@, cursor);
        let mut entries: Vec<MailboxEntry> = Vec::new();
        let mut last: u64 = cursor;
        let mut i: usize = 0;
        proof {
            reveal(Seq::filter);
            assert(all.take(0) =~= Seq::empty());
            assert(entry_views(entries@) =~= row_entries(all.take(0).filter(f)));
        }
        let most: u64 = match limit {
            Some(limit) => limit as u64,
            None => u64::MAX,
        };
        while i < self.rows.len() && (entries.len() as u64) < most
            invariant
                most == (match limit {
                    Some(limit) => limit as u64,
                    None => u64::MAX,
                }),
                entries@.len() <= i,
                self@ == before,
                before.rows == all,
                before.well_formed(),
                all == row_views(self.rows@),
                i <= self.rows@.len(),
                f == unread_by(persona@, cursor),
                entries@.len() == all.take(i as int).filter(f).len(),
                entry_views(entries@) == row_entries(all.take(i as int).filter(f)),
                limit is Some ==> entries@.len() <= limit->0,
                entries@.len() > 0 ==> all.take(i as int).filter(f).last().seq == last && all.contains(
                    all.take(i as int).filter(f).last(),
                ),
            decreases self.rows@.len() - i,
        {
            let ghost done = all.take(i as int);
            let ghost was = entries@;
            proof {
                reveal(Seq::filter);
                let next = all.take(i + 1);
                assert(next.drop_last() =~= done);
                assert(next.last() == all[i as int]);
            }
            if self.rows[i].seq > cursor && same(self.rows[i].persona.as_str(), persona) {
                last = self.rows[i].seq;
                entries.push(self.rows[i].entry.clone());
                proof {
                    let out = done.filter(f);
                    assert(all.take(i + 1).filter(f) == out.push(all[i as int]));
                    assert(row_entries(out.push(all[i as int])) =~= row_entries(out).push(all[i as int].entry));
                    assert(entry_views(entries@) =~= entry_views(was).push(all[i as int].entry));
                }
            }
            i = i + 1;
        }
        proof {
            let out = all.take(i as int).filter(f);
            assert(all =~= all.take(i as int) + all.skip(i as int));
            Seq::filter_distributes_over_add(all.take(i as int), all.skip(i as int), f);
            if i == all.len() {
                assert(all.take(i as int) =~= all);
            }
            assert(out =~= before.handed_out(persona@, limit));
            if entries@.len() > 0 {
                assert(last < before.next_seq);
            }
        }
        if advance && entries.len() > 0 {
            self.cursors.insert(persona.to_owned(), last);
        }
        entries
    }
}

/// Filtering twice is filtering by both.
proof fn lemma_filter_twice<A>(s: Seq<A>, f: spec_fn(A) -> bool, g: spec_fn(A) -> bool)
    ensures
        s.filter(f).filter(g) == s.filter(|x: A| f(x) && g(x)),
    decreases s.len(),
{
    reveal(Seq::filter);
    if s.len() > 0 {
        lemma_filter_twice(s.drop_last(), f, g);
        let front = s.drop_last().filter(f);
        if f(s.last()) {
            assert(front.push(s.last()).drop_last() =~= front);
        }
    }
}

/// A predicate that holds from one index on filters out what stands before it.
proof fn lemma_filter_suffix<A>(s: Seq<A>, f: spec_fn(A) -> bool, k: int)
    requires
        0 <= k <= s.len(),
        forall|i: int| 0 <= i < s.len() ==> (f(#[trigger] s[i]) <==> i >= k),
    ensures
        s.filter(f) == s.skip(k),
{
    let front = s.take(k);
    let back = s.skip(k);
    assert(s =~= front + back);
    Seq::filter_distributes_over_add(front, back, f);
    assert forall|i: int| 0 <= i < front.len() implies !f(#[trigger] front[i]) by {
        assert(front[i] == s[i]);
    }
    front.lemma_all_neg_filter_empty(f);
    assert forall|i: int| 0 <= i < back.len() implies f(#[trigger] back[i]) by {
        assert(back[i] == s[k + i]);
    }
    lemma_filter_all(back, f);
    assert(front.filter(f) + back =~= back);
}

/// A predicate that holds of every element filters out none.
proof fn lemma_filter_all<A>(s: Seq<A>, f: spec_fn(A) -> bool)
    requires
        forall|i: int| 0 <= i < s.len() ==> f(#[trigger] s[i]),
    ensures
        s.filter(f) == s,
    decreases s.len(),
{
    reveal(Seq::filter);
    if s.len() > 0 {
        let front = s.drop_last();
        assert forall|i: int| 0 <= i < front.len() implies f(#[trigger] front[i]) by {
            assert(front[i] == s[i]);
        }
        lemma_filter_all(front, f);
        assert(f(s[s.len() - 1]));
        assert(front.push(s.last()) =~= s);
    } else {
        assert(s.filter(f) =~= s);
    }
}

/// The newest `cap` of the rows.
pub open spec fn newest(rows: Seq<RowView>, cap: nat) -> Seq<RowView> {
    if rows.len() <= cap {
        rows
    } else {
        rows.skip(rows.len() - cap)
    }
}

/// The rows of the persona that are newer than one it has not read are the
/// unread ones behind it.
proof fn lemma_newer_than_unread(m: MailboxView, persona: Seq<char>, k: int)
    requires
        m.well_formed(),
        0 <= k < m.unread(persona).len(),
    ensures
        newer(m.rows, persona, m.unread(persona)[k].seq) == m.unread(persona).len() - 1 - k,
{
    let c = m.cursor(persona);
    let u = m.unread(persona);
    let s = u[k].seq;
    let above = |r: RowView| r.seq > s;
    lemma_filter_keeps_order(m.rows, unread_by(persona, c));
    assert forall|i: int| 0 <= i < u.len() implies (above(#[trigger] u[i]) <==> i >= k + 1) by {
        if i < k {
            assert(u[i].seq < u[k].seq);
        } else if i > k {
            assert(u[k].seq < u[i].seq);
        }
    }
    lemma_filter_suffix(u, above, k + 1);
    lemma_filter_twice(m.rows, unread_by(persona, c), above);
    let both = |r: RowView| unread_by(persona, c)(r) && above(r);
    assert(u[k].seq > c);
    lemma_filter_agrees(m.rows, both, unread_by(persona, s));
}

/// The sweep leaves the persona the newest `cap` of what it has not read.
pub proof fn law_sweep_keeps_the_newest_unread(m: MailboxView, persona: Seq<char>, cap: nat)
    requires
        m.well_formed(),
    ensures
        m.swept(persona, cap).unread(persona) == newest(m.unread(persona), cap),
{
    let c = m.cursor(persona);
    let keep = survives(m.rows, persona, c, cap);
    let f = unread_by(persona, c);
    let u = m.unread(persona);
    lemma_filter_twice(m.rows, keep, f);
    lemma_filter_twice(m.rows, f, keep);
    lemma_filter_agrees(m.rows, |r: RowView| keep(r) && f(r), |r: RowView| f(r) && keep(r));
    lemma_filter_keeps_order(m.rows, f);
    let first: int = if u.len() <= cap {
        0
    } else {
        u.len() - cap
    };
    assert forall|i: int| 0 <= i < u.len() implies (keep(#[trigger] u[i]) <==> i >= first) by {
        lemma_newer_than_unread(m, persona, i);
        assert(f(u[i]));
    }
    lemma_filter_suffix(u, keep, first);
    assert(u.skip(0) =~= u);
}

/// The sweep drops of the persona's rows exactly those that it has read or
/// that are not among the newest `cap`: no more than `cap` stay.
pub proof fn law_sweep_bounds_the_mailbox(m: MailboxView, persona: Seq<char>, cap: nat)
    requires
        m.well_formed(),
    ensures
        m.swept(persona, cap).rows.filter(|r: RowView| r.persona == persona) == newest(m.unread(persona), cap),
{
    let c = m.cursor(persona);
    let keep = survives(m.rows, persona, c, cap);
    let of = |r: RowView| r.persona == persona;
    law_sweep_keeps_the_newest_unread(m, persona, cap);
    lemma_filter_keeps_order(m.rows, keep);
    let rows = m.rows.filter(keep);
    assert forall|i: int| 0 <= i < rows.len() implies of(#[trigger] rows[i]) == unread_by(persona, c)(rows[i]) by {
        assert(keep(rows[i]));
    }
    lemma_filter_agrees(rows, of, unread_by(persona, c));
}

/// A delivery is there to be read by the persona it was made to, behind what
/// the persona had not read before, of which at most the oldest is gone and
/// only when the mailbox was at its cap. (One with a number that counts as read
/// already is not.)
pub proof fn law_delivery_is_unread(m: MailboxView, persona: Seq<char>, entry: EntryView)
    requires
        m.well_formed(),
        m.next_seq <= MAX_SEQ,
        m.cursor(persona) < m.next_seq,
        !is_ephemeral(entry.envelope.body),
    ensures
        m.delivered(persona, entry).unread(persona) == newest(
            m.unread(persona).push(RowView { seq: m.next_seq, persona, entry }),
            MAX_UNCONSUMED_PER_PERSONA as nat,
        ),
{
    let n = m.with_row(persona, entry);
    let row = RowView { seq: m.next_seq, persona, entry };
    lemma_with_row_well_formed(m, persona, entry);
    law_sweep_keeps_the_newest_unread(n, persona, MAX_UNCONSUMED_PER_PERSONA as nat);
    reveal(Seq::filter);
    assert(n.rows.drop_last() =~= m.rows);
    assert(n.unread(persona) =~= m.unread(persona).push(row));
}

/// Nobody reads further than there are rows: deliveries, checks and sweeps leave
/// it so.
pub proof fn law_nobody_reads_ahead(
    m: MailboxView,
    persona: Seq<char>,
    entry: EntryView,
    advance: bool,
    limit: Option<u32>,
    cap: nat,
)
    requires
        m.well_formed(),
        m.has_no_cursor_ahead(),
    ensures
        m.delivered(persona, entry).has_no_cursor_ahead(),
        m.checked(persona, advance, limit).has_no_cursor_ahead(),
        m.swept(persona, cap).has_no_cursor_ahead(),
        m.cursor(persona) < m.next_seq,
{
    let out = m.handed_out(persona, limit);
    if out.len() > 0 {
        let unread = m.unread(persona);
        lemma_filter_keeps_order(m.rows, unread_by(persona, m.cursor(persona)));
        assert(out.last() == unread[out.len() - 1]);
        assert(m.rows.contains(out.last()));
    }
}

/// Another row leaves the mailboxes well formed.
pub proof fn lemma_with_row_well_formed(m: MailboxView, persona: Seq<char>, entry: EntryView)
    requires
        m.well_formed(),
        m.next_seq <= MAX_SEQ,
    ensures
        m.with_row(persona, entry).well_formed(),
{
    let n = m.with_row(persona, entry);
    assert forall|i: int, j: int| 0 <= i < j < n.rows.len() implies n.rows[i].seq < n.rows[j].seq by {
        if j < m.rows.len() {
            assert(m.rows[i].seq < m.rows[j].seq);
        } else {
            assert(n.rows[i] == m.rows[i]);
        }
    }
}

/// A coordination heartbeat leaves no trace in any mailbox.
pub proof fn law_heartbeats_are_not_kept(m: MailboxView, persona: Seq<char>, entry: EntryView)
    requires
        is_ephemeral(entry.envelope.body),
    ensures
        m.delivered(persona, entry) == m,
{
}

/// Deliveries to one persona and checks by it do not touch what another has
/// not read.
pub proof fn law_mailboxes_are_independent(
    m: MailboxView,
    persona: Seq<char>,
    other: Seq<char>,
    entry: EntryView,
    advance: bool,
    limit: Option<u32>,
)
    requires
        m.well_formed(),
        persona != other,
    ensures
        m.delivered(persona, entry).unread(other) == m.unread(other),
        m.checked(persona, advance, limit).unread(other) == m.unread(other),
{
    let n = m.with_row(persona, entry);
    let c = m.cursor(other);
    let f = unread_by(other, c);
    let keep = survives(n.rows, persona, n.cursor(persona), MAX_UNCONSUMED_PER_PERSONA as nat);
    assert(n.cursor(other) == c);
    lemma_filter_twice(n.rows, keep, f);
    lemma_filter_agrees(n.rows, |r: RowView| keep(r) && f(r), f);
    reveal(Seq::filter);
    assert(n.rows.drop_last() =~= m.rows);
}

/// Checking reads what it hands out: what is unread afterwards is the rest. A
/// limited check skips nothing, and a check without a limit leaves nothing.
pub proof fn law_check_reads_what_it_hands_out(m: MailboxView, persona: Seq<char>, limit: Option<u32>)
    requires
        m.well_formed(),
    ensures
        m.handed_out(persona, limit) + m.checked(persona, true, limit).unread(persona) == m.unread(persona),
        limit is None ==> m.checked(persona, true, limit).unread(persona).len() == 0,
{
    let c = m.cursor(persona);
    let u = m.unread(persona);
    let out = m.handed_out(persona, limit);
    let after = m.checked(persona, true, limit);
    if out.len() > 0 {
        let k = out.len() as int;
        let s = out.last().seq;
        let above = |r: RowView| r.seq > s;
        assert(out.last() == u[k - 1]);
        lemma_filter_keeps_order(m.rows, unread_by(persona, c));
        assert forall|i: int| 0 <= i < u.len() implies (above(#[trigger] u[i]) <==> i >= k) by {
            if i < k - 1 {
                assert(u[i].seq < u[k - 1].seq);
            } else if i > k - 1 {
                assert(u[k - 1].seq < u[i].seq);
            }
        }
        lemma_filter_suffix(u, above, k);
        lemma_filter_twice(m.rows, unread_by(persona, c), above);
        assert(unread_by(persona, c)(u[k - 1]));
        lemma_filter_agrees(
            m.rows,
            |r: RowView| unread_by(persona, c)(r) && above(r),
            unread_by(persona, s),
        );
        assert(after.cursor(persona) == s);
        assert(after.unread(persona) == u.skip(k));
        assert(out + u.skip(k) =~= u);
    } else {
        assert(out + u =~= u);
    }
}

/// A peek changes nothing, so a second one hands out the same.
pub proof fn law_peek_is_idempotent(m: MailboxView, persona: Seq<char>, limit: Option<u32>)
    ensures
        m.checked(persona, false, limit) == m,
        m.checked(persona, false, limit).handed_out(persona, limit) == m.handed_out(persona, limit),
{
}

} // verus!
