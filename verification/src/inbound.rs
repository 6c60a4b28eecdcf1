//! Events that arrive from the room: messages, redactions and invitations.
use vstd::prelude::*;
use vstd::string::*;

use crate::egress;
use crate::egress::{BufferFull, Consideration, Egress, EgressView};
use crate::envelope;
use crate::envelope::{Envelope, EnvelopeView, Inbound, InboundView};
use crate::json;
use crate::json::{Json, Tree};
use crate::mailbox::{EntryView, MailboxFull};
use crate::mcp;
use crate::registry;
use crate::registry::{ConnView, PersonaDelivery, Registry, RegistryView};
use crate::text;
use crate::text::{contains_text, decimal_text, same};
use crate::threads;

verus! {

/// The event's content in its JSON text; null when there is none.
pub open spec fn raw_content(raw: Seq<char>) -> Tree {
    match json::parsed(raw) {
        Ok(event) => threads::content_of(event),
        Err(_) => Tree::Null,
    }
}

/// The event's content in its JSON text; null when there is none.
pub fn content_from_raw(raw: &str) -> (content: Json)
    ensures
        content@ == raw_content(raw@),
{
    match Json::parse(raw) {
        Ok(event) => threads::event_content(&event),
        Err(_) => Json::Null,
    }
}

/// A message as it arrived.
pub struct Arrival<'a> {
    /// The user that the daemon is, when it is logged in.
    pub own_user: Option<&'a str>,
    pub room_id: &'a str,
    pub room_name: Option<String>,
    pub event_id: &'a str,
    pub sender: &'a str,
    pub content: Json,
}

/// The model of a message as it arrived.
pub struct ArrivalView {
    pub own_user: Option<Seq<char>>,
    pub room_id: Seq<char>,
    pub room_name: Option<Seq<char>>,
    pub event_id: Seq<char>,
    pub sender: Seq<char>,
    pub content: Tree,
}

impl<'a> View for Arrival<'a> {
    type V = ArrivalView;

    open spec fn view(&self) -> ArrivalView {
        ArrivalView {
            own_user: envelope::opt_str(self.own_user),
            room_id: self.room_id@,
            room_name: json::opt_view(self.room_name),
            event_id: self.event_id@,
            sender: self.sender@,
            content: self.content@,
        }
    }
}

impl ArrivalView {
    /// Whether the daemon sent the message itself.
    pub open spec fn is_own(self) -> bool {
        self.own_user == Some(self.sender)
    }

    /// The fields of what connected agents are handed of the message.
    pub open spec fn push_pairs(self, env: EnvelopeView) -> Seq<(Seq<char>, Tree)> {
        seq![
            ("event"@, Tree::Text("message"@)),
            ("room_id"@, Tree::Text(self.room_id)),
            ("room_name"@, json::optional_text_tree(self.room_name)),
            ("sender"@, Tree::Text(self.sender)),
            ("event_id"@, Tree::Text(self.event_id)),
            ("envelope"@, envelope::envelope_tree(env)),
        ]
    }

    /// The message as an entry of a mailbox.
    pub open spec fn entry(self, env: EnvelopeView) -> EntryView {
        EntryView { room_id: self.room_id, event_id: self.event_id, sender: self.sender, envelope: env }
    }
}

/// The notice that a message of a version that is not understood was passed
/// over.
pub open spec fn unsupported_notice_view(
    own_user: Option<Seq<char>>,
    sender: Seq<char>,
    version: u64,
) -> EnvelopeView {
    EnvelopeView {
        v: envelope::SUPPORTED_VERSION,
        from: match own_user {
            Some(user) => user,
            None => "safehoused"@,
        },
        to: "*"@,
        kind: "ack"@,
        task_id: None,
        body: "Ignored a message from "@ + sender + " using unsupported safehouse envelope version "@
            + text::decimal(version as nat) + " (this daemon speaks v"@ + text::decimal(
            envelope::SUPPORTED_VERSION as nat,
        ) + "). It was not delivered to any agent."@,
        wake: None,
        meta: None,
        rest: Map::empty(),
    }
}

/// The notice that a message of a version that is not understood was passed
/// over.
pub fn unsupported_notice(own_user: Option<&str>, sender: &str, version: u64) -> (env: Envelope)
    ensures
        env@ == unsupported_notice_view(envelope::opt_str(own_user), sender@, version),
{
    let mut body = "Ignored a message from ".to_owned();
    body.append(sender);
    body.append(" using unsupported safehouse envelope version ");
    body.append(decimal_text(version).as_str());
    body.append(" (this daemon speaks v");
    body.append(decimal_text(envelope::SUPPORTED_VERSION as u64).as_str());
    body.append("). It was not delivered to any agent.");
    Envelope {
        v: envelope::SUPPORTED_VERSION,
        from: match own_user {
            Some(user) => user.to_owned(),
            None => "safehoused".to_owned(),
        },
        to: "*".to_owned(),
        kind: "ack".to_owned(),
        task_id: None,
        body,
        wake: None,
        meta: None,
        rest: Vec::new(),
    }
}

/// What a message that arrived comes to.
pub enum MessageOutcome {
    /// It is of a version that is not understood, and goes nowhere. The notice,
    /// when there is one, is to be sent into the room.
    Unsupported { version: u64, notice: Option<Json> },
    /// It was dispatched.
    Dispatched(Dispatched),
}

/// What is to be done with a message that was dispatched.
pub struct Dispatched {
    pub env: Envelope,
    /// The line for the connected agents.
    pub line: String,
    /// The connections that it is for.
    pub to: Vec<u64>,
    /// What was changed in the mailboxes.
    pub deliveries: Result<Vec<PersonaDelivery>, MailboxFull>,
    /// What is to be sent into the room when it addressed an unknown persona.
    pub ack: Option<Json>,
}

/// What the message is.
pub open spec fn arrived(r: RegistryView, m: ArrivalView) -> InboundView {
    threads::inbound_in_thread(r.threads, m.content, m.event_id, m.sender, r.personas)
}

/// The registry after the message.
pub open spec fn registry_after(r: RegistryView, m: ArrivalView) -> RegistryView {
    match arrived(r, m) {
        InboundView::UnsupportedVersion(version) => RegistryView {
            surfaced: r.surfaced.insert((m.sender, version)),
            ..r
        },
        InboundView::Envelope(env, _) => RegistryView {
            threads: r.threads.observed(threads::root_of(m.content, m.event_id), m.event_id, env),
            mailbox: registry::delivered_to_all(r.mailbox, r.recipients(m.is_own(), env), m.entry(env)).0,
            ..r
        },
    }
}

/// The notice of a message of a version that is not understood: the first of
/// the sender and the version alone has one.
pub open spec fn notice_of(r: RegistryView, m: ArrivalView, version: u64) -> Option<Tree> {
    if r.surfaced.contains((m.sender, version)) {
        None
    } else {
        Some(envelope::event_tree(unsupported_notice_view(m.own_user, m.sender, version), None))
    }
}

/// The acknowledgement of a message with a token that names no persona.
pub open spec fn ack_of(r: RegistryView, env: EnvelopeView, token: Option<Seq<char>>) -> Option<Tree> {
    match token {
        Some(token) => Some(
            envelope::event_tree(envelope::unknown_persona_ack_view(env.from, token, r.personas), None),
        ),
        None => None,
    }
}

/// The connections that are handed the message with the envelope.
pub open spec fn heard_by(r: RegistryView, m: ArrivalView, env: EnvelopeView) -> Seq<u64> {
    r.hearers(m.is_own(), env.from).map_values(|c: ConnView| c.id)
}

/// The line that they are handed.
pub open spec fn pushed_line(m: ArrivalView, env: EnvelopeView) -> Seq<char> {
    json::printed(json::object(m.push_pairs(env)))
}

/// Takes in a message of the room: notes it for its thread, delivers it into
/// the mailboxes that it is for, and says which connections it goes to. One of
/// a version that is not understood is only noted as such.
pub fn on_message(registry: &mut Registry, m: &Arrival) -> (outcome: MessageOutcome)
    requires
        old(registry)@.well_formed(),
    ensures
        final(registry)@.well_formed(),
        final(registry)@ == registry_after(old(registry)@, m@),
        match arrived(old(registry)@, m@) {
            InboundView::UnsupportedVersion(v) => outcome matches MessageOutcome::Unsupported {
                version,
                notice,
            } && version == v && envelope::optional_tree(notice) == notice_of(old(registry)@, m@, v),
            InboundView::Envelope(env, token) => outcome matches MessageOutcome::Dispatched(d) && {
                &&& d.env@ == env
                &&& d.line@ == json::printed(json::object(m@.push_pairs(env)))
                &&& d.line@ == pushed_line(m@, env)
                &&& d.to@ == heard_by(old(registry)@, m@, env)
                &&& d.to@ == old(registry)@.hearers(m@.is_own(), env.from).map_values(|c: ConnView| c.id)
                &&& d.deliveries is Ok <==> registry::delivered_to_all(
                    old(registry)@.mailbox,
                    old(registry)@.recipients(m@.is_own(), env),
                    m@.entry(env),
                ).1
                &&& d.deliveries matches Ok(deliveries) ==> {
                    let recipients = old(registry)@.recipients(m@.is_own(), env);
                    &&& deliveries@.len() == recipients.len()
                    &&& forall|k: int|
                        0 <= k < recipients.len() ==> (#[trigger] deliveries@[k]).persona@ == recipients[k]
                            && registry::delivery_is(
                            deliveries@[k].delivery,
                            registry::delivered_to_all(
                                old(registry)@.mailbox,
                                recipients.take(k),
                                m@.entry(env),
                            ).0,
                            recipients[k],
                            m@.entry(env),
                        )
                }
                &&& envelope::optional_tree(d.ack) == ack_of(old(registry)@, env, token)
            },
        },
{
    let ghost before = registry@;
    let own_event = match m.own_user {
        Some(user) => same(user, m.sender),
        None => false,
    };
    let read = threads::read_in_thread(
        registry.threads(),
        &m.content,
        m.event_id,
        m.sender,
        registry.personas(),
    );
    let root = read.root;
    let (env, token) = match read.inbound {
        Inbound::UnsupportedVersion(version) => {
            let first = registry.mark_unsupported_surfaced(m.sender, version);
            let notice = if first {
                let env = unsupported_notice(m.own_user, m.sender, version);
                Some(envelope::to_event_content(&env, None))
            } else {
                None
            };
            return MessageOutcome::Unsupported { version, notice };
        },
        Inbound::Envelope(env, token) => (env, token),
    };
    registry.observe(root.as_str(), m.event_id, &env);
    let fields = vec![
        json::pair("event", Json::text("message")),
        json::pair("room_id", Json::text(m.room_id)),
        json::pair("room_name", Json::optional_text(&m.room_name)),
        json::pair("sender", Json::text(m.sender)),
        json::pair("event_id", Json::text(m.event_id)),
        json::pair("envelope", envelope::envelope_json(&env)),
    ];
    proof {
        assert(json::tree_pairs(fields@) =~= m@.push_pairs(env@));
    }
    let line = Json::Object(fields).print();
    let to = registry.dispatch(own_event, env.from.as_str());
    let deliveries = registry.mailbox_deliver(own_event, m.room_id, m.event_id, m.sender, &env);
    let ack = match &token {
        Some(token) => {
            let ack = envelope::unknown_persona_ack(env.from.as_str(), token.as_str(), registry.personas());
            Some(envelope::to_event_content(&ack, None))
        },
        None => None,
    };
    proof {
        assert(registry@ =~= registry_after(before, m@));
    }
    MessageOutcome::Dispatched(Dispatched { env, line, to, deliveries, ack })
}

/// What agents are handed of a message names both the persona that it claims to
/// be from and the user that sent it to the room; so does its entry in a
/// mailbox.
pub proof fn law_agents_see_who_sent_it(m: ArrivalView, env: EnvelopeView)
    requires
        env.well_formed(),
        env.meta != Some(Tree::Null),
    ensures
        ({
            let push = json::object(m.push_pairs(env));
            &&& json::field(push, "sender"@) == Some(Tree::Text(m.sender))
            &&& json::field(push, "envelope"@) == Some(envelope::envelope_tree(env))
            &&& envelope::envelope_of(json::field(push, "envelope"@)->0) == Some(env)
        }),
        m.entry(env).sender == m.sender,
        m.entry(env).envelope == env,
{
    lemma_push_names();
    let pairs = m.push_pairs(env);
    json::lemma_field_map_found(pairs, "sender"@, 3);
    json::lemma_field_map_found(pairs, "envelope"@, 5);
    envelope::law_envelope_round_trip(env);
}

/// The line that agents are handed of a message is told from the replies to
/// their requests: it has an event and no id.
pub proof fn law_pushed_lines_are_told_apart(m: ArrivalView, env: EnvelopeView)
    ensures
        mcp::is_push(json::object(m.push_pairs(env))),
        json::field(json::object(m.push_pairs(env)), "id"@) is None,
{
    lemma_push_names();
    let pairs = m.push_pairs(env);
    json::lemma_field_map_found(pairs, "event"@, 0);
    json::lemma_field_map_missing(pairs, "id"@);
}

/// The names of what agents are handed of a message differ.
proof fn lemma_push_names()
    ensures
        "event"@.len() == 5 && "room_id"@.len() == 7 && "room_name"@.len() == 9 && "sender"@.len() == 6
            && "event_id"@.len() == 8 && "envelope"@.len() == 8 && "id"@.len() == 2,
        "event_id"@ != "envelope"@,
{
    reveal_strlit("event");
    reveal_strlit("room_id");
    reveal_strlit("room_name");
    reveal_strlit("sender");
    reveal_strlit("event_id");
    reveal_strlit("envelope");
    reveal_strlit("id");
    assert("event_id"@[1] == 'v' && "envelope"@[1] == 'n');
}

/// The index of the threads is the same whether a message arrives or is read
/// back from the room's history.
pub proof fn law_live_and_replayed_threads_agree(r: RegistryView, m: ArrivalView, event: Tree)
    requires
        threads::is_message(event),
        json::text_field(event, "event_id"@) == Some(m.event_id),
        threads::content_of(event) == m.content,
        threads::sender_of(event) == m.sender,
    ensures
        registry_after(r, m).threads == threads::replayed_event(r.threads, r.personas, event),
{
}

/// A message of a version that is not understood reaches no agent: no mailbox
/// and no thread changes, and it is told of once.
pub proof fn law_unsupported_messages_go_nowhere(r: RegistryView, m: ArrivalView, version: u64)
    requires
        arrived(r, m) == InboundView::UnsupportedVersion(version),
    ensures
        registry_after(r, m).mailbox == r.mailbox,
        registry_after(r, m).threads == r.threads,
        notice_of(registry_after(r, m), m, version) is None,
{
}

/// The acknowledgement and the notice that the daemon sends come back from the
/// room as what they are, and call forth no further one.
pub proof fn law_own_notices_call_forth_none(
    r: RegistryView,
    personas: Seq<String>,
    own_user: Option<Seq<char>>,
    sender: Seq<char>,
    version: u64,
    to: Seq<char>,
    token: Seq<char>,
    thread_agent: Option<Seq<char>>,
)
    ensures
        envelope::inbound_of(
            envelope::event_tree(unsupported_notice_view(own_user, sender, version), None),
            sender,
            personas,
            thread_agent,
        ) matches InboundView::Envelope(env, None),
        envelope::inbound_of(
            envelope::event_tree(envelope::unknown_persona_ack_view(to, token, personas), None),
            sender,
            personas,
            thread_agent,
        ) matches InboundView::Envelope(env, None),
{
    envelope::law_event_round_trip(
        unsupported_notice_view(own_user, sender, version),
        None,
        sender,
        personas,
        thread_agent,
    );
    envelope::law_event_round_trip(
        envelope::unknown_persona_ack_view(to, token, personas),
        None,
        sender,
        personas,
        thread_agent,
    );
}

/// What the feed made of a message.
#[derive(Debug)]
pub enum FeedStep {
    /// The message is an edit; the number of the row that it took back.
    Retracted(Option<u64>),
    /// The message was considered.
    Considered(Result<Consideration, BufferFull>),
}

/// The feed after the message: an edit takes back what waits for the event that
/// it edits, and anything else is considered.
pub open spec fn fed(
    e: EgressView,
    room_id: Seq<char>,
    event_id: Seq<char>,
    content: Tree,
    env: EnvelopeView,
    now: i64,
) -> EgressView {
    match egress::edited_event(content) {
        Some(target) => e.retracted(room_id, target),
        None => if e.takes(room_id, env) && !egress::is_buffered(e.rows, room_id, event_id) && e.next_id
            > egress::MAX_ROW_ID {
            e
        } else {
            e.considered(room_id, event_id, env, now)
        },
    }
}

/// Shows the message to the feed.
pub fn feed_message(
    egress: &mut Egress,
    room_id: &str,
    event_id: &str,
    content: &Json,
    env: &Envelope,
    now: i64,
) -> (step: FeedStep)
    requires
        old(egress)@.well_formed(),
        egress::edited_event(content@) is None ==> now + old(egress)@.delay_seconds <= i64::MAX,
    ensures
        final(egress)@.well_formed(),
        final(egress).destination() == old(egress).destination(),
        final(egress)@ == fed(old(egress)@, room_id@, event_id@, content@, env@, now),
        match egress::edited_event(content@) {
            Some(target) => step matches FeedStep::Retracted(id) && old(egress)@.takes_back(room_id@, target, id) && (
            id is None ==> final(egress)@ == old(egress)@),
            None => step is Considered,
        },
        step matches FeedStep::Considered(Ok(seen)) ==> {
            &&& seen.queued == old(egress)@.takes(room_id@, env@)
            &&& seen.inserted == if seen.queued && !egress::is_buffered(
                old(egress)@.rows,
                room_id@,
                event_id@,
            ) {
                Some(old(egress)@.next_id)
            } else {
                None
            }
        },
        step matches FeedStep::Considered(Err(_)) ==> {
            &&& old(egress)@.takes(room_id@, env@)
            &&& !egress::is_buffered(old(egress)@.rows, room_id@, event_id@)
            &&& old(egress)@.next_id > egress::MAX_ROW_ID
        },
{
    match egress::edit_target(content) {
        Some(target) => FeedStep::Retracted(egress.retract(room_id, target.as_str())),
        None => FeedStep::Considered(egress.consider(room_id, event_id, env, now)),
    }
}

/// The event that a redaction is of: named at its top, or in its content.
pub open spec fn redacted_event(event: Tree) -> Option<Seq<char>> {
    match json::text_field(event, "redacts"@) {
        Some(target) => Some(target),
        None => match json::field(event, "content"@) {
            Some(content) => json::text_field(content, "redacts"@),
            None => None,
        },
    }
}

/// The event that a redaction is of.
pub fn redaction_target(event: &Json) -> (r: Option<String>)
    ensures
        json::opt_view(r) == redacted_event(event@),
{
    match event.get_str("redacts") {
        Some(target) => Some(target.to_owned()),
        None => match event.get("content") {
            Some(content) => match content.get_str("redacts") {
                Some(target) => Some(target.to_owned()),
                None => None,
            },
            None => None,
        },
    }
}

/// The feed after the redaction in the room: what waits for the event is taken
/// back. Redactions in rooms that are not opted in are passed over.
pub open spec fn fed_redaction(e: EgressView, room_id: Seq<char>, event: Tree) -> EgressView {
    match redacted_event(event) {
        Some(target) if text::listed(e.rooms, room_id) => e.retracted(room_id, target),
        _ => e,
    }
}

/// Whether the number is that of the row that the redaction in the room takes
/// back; none when it takes back none.
pub open spec fn redaction_takes_back(e: EgressView, room_id: Seq<char>, event: Tree, id: Option<u64>) -> bool {
    match redacted_event(event) {
        Some(target) if text::listed(e.rooms, room_id) => e.takes_back(room_id, target, id),
        _ => id is None,
    }
}

/// Shows the redaction in the room to the feed. Returns the number of the row
/// that it took back.
pub fn feed_redaction(egress: &mut Egress, room_id: &str, event: &Json) -> (r: Option<u64>)
    requires
        old(egress)@.well_formed(),
    ensures
        final(egress)@.well_formed(),
        final(egress).destination() == old(egress).destination(),
        final(egress)@ == fed_redaction(old(egress)@, room_id@, event@),
        redaction_takes_back(old(egress)@, room_id@, event@, r),
        r is None ==> final(egress)@ == old(egress)@,
{
    if !egress.is_egress_room(room_id) {
        return None;
    }
    match redaction_target(event) {
        Some(target) => egress.retract(room_id, target.as_str()),
        None => None,
    }
}

/// Shows the redaction in the room, given by its JSON text, to the feed. Returns
/// the number of the row that it took back.
pub fn on_redaction(egress: &mut Egress, room_id: &str, raw: &str) -> (r: Option<u64>)
    requires
        old(egress)@.well_formed(),
    ensures
        final(egress)@.well_formed(),
        final(egress).destination() == old(egress).destination(),
        final(egress)@ == match json::parsed(raw@) {
            Ok(event) => fed_redaction(old(egress)@, room_id@, event),
            Err(_) => old(egress)@,
        },
        match json::parsed(raw@) {
            Ok(event) => redaction_takes_back(old(egress)@, room_id@, event, r),
            Err(_) => r is None,
        },
        r is None ==> final(egress)@ == old(egress)@,
{
    match Json::parse(raw) {
        Ok(event) => feed_redaction(egress, room_id, &event),
        Err(_) => None,
    }
}

/// What is to be done about an invitation.
#[derive(Clone, Copy, Debug, PartialEq, Eq, Structural)]
pub enum InviteDecision {
    /// It is not for this daemon, or not open.
    Ignore,
    /// The inviter is not on the list.
    Decline,
    Join,
}

/// An invitation of the daemon is accepted from anyone, or, where a list is
/// configured, from whoever is on it.
pub open spec fn invite_decision(
    own_user: Option<Seq<char>>,
    invited: Seq<char>,
    is_open: bool,
    sender: Seq<char>,
    allowlist: Option<Vec<String>>,
) -> InviteDecision {
    if own_user != Some(invited) || !is_open {
        InviteDecision::Ignore
    } else {
        match allowlist {
            Some(list) if !text::listed(list@, sender) => InviteDecision::Decline,
            _ => InviteDecision::Join,
        }
    }
}

/// What is to be done about the invitation of `invited` by `sender`. `is_open`
/// says whether the room still waits for the answer.
pub fn on_invite(
    own_user: Option<&str>,
    invited: &str,
    is_open: bool,
    sender: &str,
    allowlist: &Option<Vec<String>>,
) -> (d: InviteDecision)
    ensures
        d == invite_decision(envelope::opt_str(own_user), invited@, is_open, sender@, *allowlist),
{
    let mine = match own_user {
        Some(user) => same(user, invited),
        None => false,
    };
    if !mine || !is_open {
        return InviteDecision::Ignore;
    }
    match allowlist {
        Some(list) => {
            if contains_text(list.as_slice(), sender) {
                InviteDecision::Join
            } else {
                InviteDecision::Decline
            }
        },
        None => InviteDecision::Join,
    }
}

} // verus!
