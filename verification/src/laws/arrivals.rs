//! Arrivals: what an event of the room does to the mailboxes, the threads, the
//! connected agents and the feed.
use vstd::prelude::*;
use vstd::string::*;

use crate::egress;
use crate::egress::EgressView;
use crate::envelope;
use crate::envelope::{EnvelopeView, InboundView};
use crate::inbound;
use crate::inbound::{ArrivalView, InviteDecision};
use crate::json;
use crate::json::Tree;
use crate::mailbox;
use crate::mailbox::{EntryView, MailboxView, RowView};
use crate::registry;
use crate::registry::RegistryView;
use crate::text;
use crate::threads;

verus! {

/// A message that arrives is noted for the thread that it names, or else its own,
/// and goes into the mailboxes of those it is for, with its room, its event and who
/// sent it. Of one in a version that is not understood only that is noted.
pub proof fn law_what_a_message_does(r: RegistryView, m: ArrivalView)
    ensures
        ({
            let after = inbound::registry_after(r, m);
            let root = match envelope::thread_root(m.content) {
                Some(root) => root,
                None => m.event_id,
            };
            let own = m.own_user is Some && m.own_user->0 == m.sender;
            let agent = threads::looked_up(r.threads.targets, root);
            match envelope::inbound_of(m.content, m.sender, r.personas, agent) {
                InboundView::UnsupportedVersion(version) => {
                    &&& after.threads == r.threads
                    &&& after.mailbox == r.mailbox
                    &&& after.surfaced == r.surfaced.insert((m.sender, version))
                    &&& after == RegistryView { surfaced: after.surfaced, ..r }
                },
                InboundView::Envelope(env, _) => {
                    let entry = EntryView {
                        room_id: m.room_id,
                        event_id: m.event_id,
                        sender: m.sender,
                        envelope: env,
                    };
                    &&& after.threads == r.threads.observed(root, m.event_id, env)
                    &&& after.mailbox == registry::delivered_to_all(r.mailbox, r.recipients(own, env), entry).0
                    &&& after == RegistryView { threads: after.threads, mailbox: after.mailbox, ..r }
                },
            }
        }),
{
}

/// What the connected agents are handed of a message: that it is one, its room by
/// id and name, who sent it, its event and its envelope.
pub proof fn law_what_agents_are_handed(m: ArrivalView, env: EnvelopeView)
    ensures
        ({
            let push = json::object(m.push_pairs(env));
            &&& json::text_field(push, "event"@) == Some("message"@)
            &&& json::text_field(push, "room_id"@) == Some(m.room_id)
            &&& json::text_field(push, "room_name"@) == m.room_name
            &&& m.room_name is None ==> json::field(push, "room_name"@) == Some(Tree::Null)
            &&& json::text_field(push, "sender"@) == Some(m.sender)
            &&& json::text_field(push, "event_id"@) == Some(m.event_id)
            &&& json::field(push, "envelope"@) == Some(envelope::envelope_tree(env))
        }),
{
    reveal_strlit("event");
    reveal_strlit("room_id");
    reveal_strlit("room_name");
    reveal_strlit("sender");
    reveal_strlit("event_id");
    reveal_strlit("envelope");
    assert("event"@.len() == 5 && "room_id"@.len() == 7 && "room_name"@.len() == 9 && "sender"@.len() == 6);
    assert("event_id"@.len() == 8 && "envelope"@.len() == 8);
    assert("event_id"@[1] == 'v' && "envelope"@[1] == 'n');
    let pairs = m.push_pairs(env);
    assert(pairs[0].0 == "event"@ && pairs[1].0 == "room_id"@ && pairs[2].0 == "room_name"@ && pairs[3].0 == "sender"@
        && pairs[4].0 == "event_id"@ && pairs[5].0 == "envelope"@);
    json::lemma_object_fields(pairs);
}

/// A message to everyone of another host goes into every mailbox, in the order of
/// the personas; one to a persona that is not hosted here goes into none.
pub proof fn law_broadcasts_reach_every_mailbox(r: RegistryView, env: EnvelopeView, own_event: bool)
    ensures
        !own_event && env.to == "*"@ ==> r.recipients(own_event, env) == text::views(r.personas),
        env.to != "*"@ && !text::listed(r.personas, env.to) ==> r.recipients(own_event, env).len() == 0,
{
    let f = registry::receives(own_event, env);
    if !own_event && env.to == "*"@ {
        lemma_all_chosen(r.personas, f);
    }
    if env.to != "*"@ && !text::listed(r.personas, env.to) {
        if r.recipients(own_event, env).len() > 0 {
            let p = r.recipients(own_event, env)[0];
            assert(r.recipients(own_event, env).contains(p));
            registry::law_mail_reaches_whom_it_is_for(r, own_event, env, p);
        }
    }
}

proof fn lemma_all_chosen(personas: Seq<String>, f: spec_fn(Seq<char>) -> bool)
    requires
        forall|i: int| 0 <= i < personas.len() ==> f((#[trigger] personas[i])@),
    ensures
        registry::chosen(personas, f) == text::views(personas),
    decreases personas.len(),
{
    if personas.len() > 0 {
        let front = personas.drop_last();
        assert forall|i: int| 0 <= i < front.len() implies f((#[trigger] front[i])@) by {
            assert(front[i] == personas[i]);
        }
        lemma_all_chosen(front, f);
        assert(f(personas[personas.len() - 1]@));
        assert(text::views(personas) =~= text::views(personas.drop_last()).push(personas.last()@));
    } else {
        assert(text::views(personas) =~= Seq::empty());
    }
}

/// Mail for several personas is unread by each of them, once and behind what was
/// unread before, and nobody else has any more or any less than before.
pub proof fn law_mail_arrives(m: MailboxView, recipients: Seq<Seq<char>>, entry: EntryView, p: Seq<char>)
    requires
        m.well_formed(),
        m.has_no_cursor_ahead(),
        m.next_seq + recipients.len() <= mailbox::MAX_SEQ,
        !mailbox::is_ephemeral(entry.envelope.body),
        recipients.no_duplicates(),
    ensures
        ({
            let (after, done) = registry::delivered_to_all(m, recipients, entry);
            &&& done
            &&& recipients.contains(p) ==> exists|seq: u64|
                after.unread(p) == mailbox::newest(#[trigger] with_mail(m, p, entry, seq), 5000)
            &&& !recipients.contains(p) ==> after.unread(p) == m.unread(p)
        }),
    decreases recipients.len(),
{
    lemma_deliveries_well_formed(m, recipients, entry);
    if recipients.len() > 0 {
        let front = recipients.drop_last();
        let last = recipients.last();
        assert forall|i: int, j: int| 0 <= i < front.len() && 0 <= j < front.len() && i != j implies front[i]
            != front[j] by {
            assert(recipients[i] != recipients[j]);
        }
        law_mail_arrives(m, front, entry, p);
        lemma_deliveries_well_formed(m, front, entry);
        let before = registry::delivered_to_all(m, front, entry).0;
        let after = before.delivered(last, entry);
        mailbox::law_nobody_reads_ahead(before, last, entry, false, None, 0);
        if p == last {
            mailbox::law_delivery_is_unread(before, last, entry);
            assert(recipients[recipients.len() - 1] == p);
            if front.contains(p) {
                let i = choose|i: int| 0 <= i < front.len() && front[i] == p;
                assert(recipients[i] != recipients[recipients.len() - 1]);
            }
            assert(after.unread(p) == mailbox::newest(with_mail(m, p, entry, before.next_seq), 5000));
        } else {
            mailbox::law_mailboxes_are_independent(before, last, p, entry, false, None);
            assert(after.unread(p) == before.unread(p));
            if recipients.contains(p) {
                let i = choose|i: int| 0 <= i < recipients.len() && recipients[i] == p;
                assert(front[i] == p);
                let seq = choose|seq: u64|
                    before.unread(p) == mailbox::newest(#[trigger] with_mail(m, p, entry, seq), 5000);
                assert(after.unread(p) == mailbox::newest(with_mail(m, p, entry, seq), 5000));
            } else if front.contains(p) {
                let i = choose|i: int| 0 <= i < front.len() && front[i] == p;
                assert(recipients[i] == p);
            }
        }
    }
}

/// What the persona had not read, and the mail behind it, under the number.
pub open spec fn with_mail(m: MailboxView, p: Seq<char>, entry: EntryView, seq: u64) -> Seq<RowView> {
    m.unread(p).push(RowView { seq, persona: p, entry })
}

proof fn lemma_deliveries_well_formed(m: MailboxView, recipients: Seq<Seq<char>>, entry: EntryView)
    requires
        m.well_formed(),
        m.has_no_cursor_ahead(),
        m.next_seq + recipients.len() <= mailbox::MAX_SEQ,
        !mailbox::is_ephemeral(entry.envelope.body),
    ensures
        ({
            let (after, done) = registry::delivered_to_all(m, recipients, entry);
            &&& done
            &&& after.well_formed()
            &&& after.has_no_cursor_ahead()
            &&& after.next_seq == m.next_seq + recipients.len()
        }),
    decreases recipients.len(),
{
    if recipients.len() > 0 {
        lemma_deliveries_well_formed(m, recipients.drop_last(), entry);
        let before = registry::delivered_to_all(m, recipients.drop_last(), entry).0;
        let persona = recipients.last();
        mailbox::law_nobody_reads_ahead(before, persona, entry, false, None, 0);
        mailbox::lemma_with_row_well_formed(before, persona, entry);
        let with = before.with_row(persona, entry);
        let cap = mailbox::MAX_UNCONSUMED_PER_PERSONA as nat;
        let keep = mailbox::survives(with.rows, persona, with.cursor(persona), cap);
        mailbox::lemma_filter_keeps_order(with.rows, keep);
        let after = before.delivered(persona, entry);
        assert(after.rows == with.rows.filter(keep));
        assert forall|i: int| 0 <= i < after.rows.len() implies 1 <= (#[trigger] after.rows[i]).seq < after.next_seq by {
            assert(with.rows.contains(after.rows[i]));
        }
    }
}

/// A message whose text is a JSON object with the key `loom_claim` is a heartbeat,
/// and no other is.
pub proof fn law_what_a_heartbeat_is(body: Seq<char>)
    ensures
        mailbox::is_ephemeral(body) <==> (json::parsed(body) matches Ok(Tree::Object(fields)) && fields.dom().contains(
            "loom_claim"@,
        )),
{
}

/// A persona has not read the rows of its own behind the last one that it has
/// read. It is handed all of them, or the oldest as many as it asks for. A mailbox
/// keeps five thousand.
pub proof fn law_what_is_handed_out(m: MailboxView, persona: Seq<char>, n: u32, row: RowView)
    ensures
        m.unread(persona).contains(row) <==> {
            &&& m.rows.contains(row)
            &&& row.persona == persona
            &&& m.cursors.dom().contains(persona) ==> row.seq > m.cursors[persona]
            &&& !m.cursors.dom().contains(persona) ==> row.seq > 0
        },
        m.handed_out(persona, None) == m.unread(persona),
        n >= m.unread(persona).len() ==> m.handed_out(persona, Some(n)) == m.unread(persona),
        n < m.unread(persona).len() ==> m.handed_out(persona, Some(n)) == m.unread(persona).subrange(0, n as int),
        mailbox::MAX_UNCONSUMED_PER_PERSONA == 5000,
{
    let f = mailbox::unread_by(persona, m.cursor(persona));
    let unread = m.unread(persona);
    if unread.contains(row) {
        m.rows.lemma_filter_contains_rev(f, row);
        let k = choose|k: int| 0 <= k < unread.len() && unread[k] == row;
        m.rows.lemma_filter_pred(f, k);
    }
    if m.rows.contains(row) && f(row) {
        let i = choose|i: int| 0 <= i < m.rows.len() && m.rows[i] == row;
        m.rows.lemma_filter_contains(f, i);
    }
    if n < unread.len() {
        assert(unread.take(n as int) =~= unread.subrange(0, n as int));
    }
}

/// Who sent a message of a version that is not understood is told so once, by the
/// daemon, in words that name the sender and both versions.
pub proof fn law_unsupported_versions_are_told(r: RegistryView, m: ArrivalView, version: u64)
    ensures
        r.surfaced.contains((m.sender, version)) ==> inbound::notice_of(r, m, version) is None,
        !r.surfaced.contains((m.sender, version)) ==> {
            let notice = inbound::unsupported_notice_view(m.own_user, m.sender, version);
            &&& inbound::notice_of(r, m, version) == Some(envelope::event_tree(notice, None))
            &&& notice.v == 1
            &&& notice.to == "*"@
            &&& notice.kind == "ack"@
            &&& notice.task_id is None
            &&& notice.wake is None
            &&& notice.meta is None
            &&& notice.rest == Map::<Seq<char>, Tree>::empty()
            &&& m.own_user matches Some(own) ==> notice.from == own
            &&& m.own_user is None ==> notice.from == "safehoused"@
            &&& notice.body == "Ignored a message from "@ + m.sender
                + " using unsupported safehouse envelope version "@ + text::decimal(version as nat)
                + " (this daemon speaks v"@ + text::decimal(1) + "). It was not delivered to any agent."@
        },
{
}

/// Who addresses a persona that there is not is answered; nobody else is.
pub proof fn law_who_is_answered(r: RegistryView, env: EnvelopeView, token: Seq<char>)
    ensures
        inbound::ack_of(r, env, None) is None,
        inbound::ack_of(r, env, Some(token)) == Some(
            envelope::event_tree(envelope::unknown_persona_ack_view(env.from, token, r.personas), None),
        ),
{
}

/// The feed sees every message: an edit takes back the event that it edits, and
/// anything else is considered.
pub proof fn law_what_the_feed_sees(
    e: EgressView,
    room_id: Seq<char>,
    event_id: Seq<char>,
    content: Tree,
    env: EnvelopeView,
    now: i64,
)
    requires
        e.next_id <= egress::MAX_ROW_ID,
    ensures
        egress::edited_event(content) matches Some(target) ==> inbound::fed(e, room_id, event_id, content, env, now)
            == e.retracted(room_id, target),
        egress::edited_event(content) is None ==> inbound::fed(e, room_id, event_id, content, env, now)
            == e.considered(room_id, event_id, env, now),
{
}

/// A redaction in a room that was opted in takes back the event that it names, at
/// its top or else in its content; any other leaves the feed as it is.
pub proof fn law_what_a_redaction_takes_back(e: EgressView, room_id: Seq<char>, event: Tree)
    ensures
        ({
            let after = inbound::fed_redaction(e, room_id, event);
            let inner = match json::field(event, "content"@) {
                Some(content) => json::text_field(content, "redacts"@),
                None => None,
            };
            let opted_in = exists|k: int| 0 <= k < e.rooms.len() && (#[trigger] e.rooms[k])@ == room_id;
            &&& !opted_in ==> after == e
            &&& opted_in ==> match json::text_field(event, "redacts"@) {
                Some(target) => after == e.retracted(room_id, target),
                None => match inner {
                    Some(target) => after == e.retracted(room_id, target),
                    None => after == e,
                },
            }
        }),
{
}

/// The daemon joins where it is itself invited and the invitation is open: from
/// anyone without a list, and with one from those on it, the others being declined.
pub proof fn law_which_invitations_are_taken(
    own_user: Option<Seq<char>>,
    invited: Seq<char>,
    is_open: bool,
    sender: Seq<char>,
    list: Vec<String>,
)
    ensures
        own_user != Some(invited) || !is_open ==> inbound::invite_decision(own_user, invited, is_open, sender, None)
            == InviteDecision::Ignore && inbound::invite_decision(own_user, invited, is_open, sender, Some(list))
            == InviteDecision::Ignore,
        own_user == Some(invited) && is_open ==> {
            &&& inbound::invite_decision(own_user, invited, is_open, sender, None) == InviteDecision::Join
            &&& text::listed(list@, sender) ==> inbound::invite_decision(
                own_user,
                invited,
                is_open,
                sender,
                Some(list),
            ) == InviteDecision::Join
            &&& !text::listed(list@, sender) ==> inbound::invite_decision(
                own_user,
                invited,
                is_open,
                sender,
                Some(list),
            ) == InviteDecision::Decline
        },
{
}

/// The content of an event is what its JSON text has under that name; null where
/// there is none, or where the text is not JSON.
pub proof fn law_what_an_event_says(raw: Seq<char>)
    ensures
        match json::parsed(raw) {
            Ok(event) => match json::field(event, "content"@) {
                Some(content) => inbound::raw_content(raw) == content,
                None => inbound::raw_content(raw) == Tree::Null,
            },
            Err(_) => inbound::raw_content(raw) == Tree::Null,
        },
{
}

/// The newest of the rows are the last of them, and no more than is asked for.
pub proof fn law_which_rows_are_the_newest(rows: Seq<RowView>, cap: nat, i: int)
    ensures
        rows.len() <= cap ==> mailbox::newest(rows, cap) == rows,
        rows.len() > cap ==> mailbox::newest(rows, cap).len() == cap,
        rows.len() > cap && 0 <= i < cap ==> mailbox::newest(rows, cap)[i] == rows[rows.len() - cap + i],
{
}

/// A sweep tells of exactly the rows that are gone after it.
pub proof fn law_which_rows_are_dropped(m: MailboxView, persona: Seq<char>, cap: nat, i: int)
    requires
        m.well_formed(),
        0 <= i < m.rows.len(),
    ensures
        mailbox::dropped_by_sweep(m, persona, cap, m.rows[i].seq) <==> !m.swept(persona, cap).rows.contains(m.rows[i]),
{
    let keep = mailbox::survives(m.rows, persona, m.cursor(persona), cap);
    let row = m.rows[i];
    if keep(row) {
        m.rows.lemma_filter_contains(keep, i);
        if mailbox::dropped_by_sweep(m, persona, cap, row.seq) {
            let a = choose|a: int| 0 <= a < m.rows.len() && (#[trigger] m.rows[a]).seq == row.seq && !keep(m.rows[a]);
            if a < i {
                assert(m.rows[a].seq < m.rows[i].seq);
            } else if i < a {
                assert(m.rows[i].seq < m.rows[a].seq);
            }
        }
    } else {
        assert(m.rows[i].seq == row.seq && !keep(m.rows[i]));
        if m.swept(persona, cap).rows.contains(row) {
            let rows = m.swept(persona, cap).rows;
            let k = choose|k: int| 0 <= k < rows.len() && rows[k] == row;
            m.rows.lemma_filter_pred(keep, k);
        }
    }
}

/// What is handed out of the rows is what was delivered, one for one.
pub proof fn law_what_stands_in_the_rows(rows: Seq<RowView>, i: int)
    ensures
        mailbox::row_entries(rows).len() == rows.len(),
        0 <= i < rows.len() ==> mailbox::row_entries(rows)[i] == rows[i].entry,
{
}

/// History is counted event by event, from the first on.
pub proof fn law_history_is_replayed(t: threads::ThreadView, personas: Seq<String>, events: Seq<Tree>, event: Tree)
    ensures
        threads::replayed(t, personas, Seq::empty()) == t,
        threads::replayed(t, personas, events.push(event)) == threads::replayed_event(
            threads::replayed(t, personas, events),
            personas,
            event,
        ),
{
    assert(events.push(event).drop_last() =~= events);
}

/// A message is handed to the connections of everyone but, where this daemon sent it,
/// those of the persona that wrote it.
pub proof fn law_who_hears_a_message(r: RegistryView, m: ArrivalView, env: EnvelopeView, i: int)
    requires
        r.well_formed(),
        0 <= i < r.conns.len(),
    ensures
        ({
            let own = m.own_user is Some && m.own_user->0 == m.sender;
            inbound::heard_by(r, m, env).contains(r.conns[i].id) <==> !(own && r.conns[i].persona == env.from)
        }),
        inbound::pushed_line(m, env) == json::printed(json::object(m.push_pairs(env))),
{
    let own = m.own_user is Some && m.own_user->0 == m.sender;
    let c = r.conns[i];
    let hearers = r.hearers(m.is_own(), env.from);
    let ids = inbound::heard_by(r, m, env);
    registry::law_only_the_author_is_skipped(r, m.is_own(), env.from, i);
    if hearers.contains(c) {
        let k = choose|k: int| 0 <= k < hearers.len() && hearers[k] == c;
        assert(ids[k] == c.id);
    }
    if ids.contains(c.id) {
        let k = choose|k: int| 0 <= k < ids.len() && ids[k] == c.id;
        assert(hearers.contains(hearers[k]));
        assert(hearers[k].id == c.id);
        lemma_heard(r, m.is_own(), env.from, hearers[k]);
        let j = choose|j: int| 0 <= j < r.conns.len() && r.conns[j] == hearers[k];
        if j < i {
            assert(r.conns[j].id < r.conns[i].id);
        } else if i < j {
            assert(r.conns[i].id < r.conns[j].id);
        }
    }
}

proof fn lemma_heard(r: RegistryView, own_event: bool, author: Seq<char>, c: registry::ConnView)
    requires
        r.hearers(own_event, author).contains(c),
    ensures
        r.conns.contains(c),
{
    let f = |c: registry::ConnView| !(own_event && c.persona == author);
    r.conns.lemma_filter_contains_rev(f, c);
}

} // verus!
