//! Starting up: what the state on disk and the account allow, and how the
//! room's recent history is walked.
use vstd::prelude::*;
use vstd::string::*;

use crate::envelope;
use crate::json;
use crate::json::{Json, Tree};
use crate::text;
use crate::text::debug_form;

verus! {

/// How many events of a room's history are walked at start.
pub const THREAD_REPLAY_MAX_EVENTS: usize = 500;

/// How many events a page of history has at most.
pub const HISTORY_PAGE: usize = 100;

/// How the daemon starts.
#[derive(Clone, Copy, Debug, PartialEq, Eq, Structural)]
pub enum BootPlan {
    /// Not at all: there is a store, and the session that it belongs to is
    /// gone.
    Refuse,
    /// With the session that is there.
    Warm,
    /// With a new login.
    Cold,
}

/// How the daemon starts, given what is on disk.
pub open spec fn planned_boot(store_exists: bool, session_exists: bool) -> BootPlan {
    if session_exists {
        BootPlan::Warm
    } else if store_exists {
        BootPlan::Refuse
    } else {
        BootPlan::Cold
    }
}

/// How the daemon starts, given what is on disk.
pub fn plan_boot(store_exists: bool, session_exists: bool) -> (plan: BootPlan)
    ensures
        plan == planned_boot(store_exists, session_exists),
{
    if store_exists && !session_exists {
        BootPlan::Refuse
    } else if session_exists {
        BootPlan::Warm
    } else {
        BootPlan::Cold
    }
}

/// Why the daemon does not start on a store without its session.
pub fn store_without_session(state_dir: &str) -> (message: String)
    ensures
        message@ == "store exists but session.json is missing — the store is undecryptable; wipe "@ + state_dir@
            + " and cold-start (recovery passphrase will restore keys)"@,
{
    let mut message = "store exists but session.json is missing — the store is undecryptable; wipe ".to_owned();
    message.append(state_dir);
    message.append(" and cold-start (recovery passphrase will restore keys)");
    message
}

/// The state of the account's key recovery.
#[derive(Clone, Copy, Debug, PartialEq, Eq, Structural)]
pub enum RecoveryStatus {
    Unknown,
    Enabled,
    Disabled,
    Incomplete,
}

/// What is to be done about the account's key recovery.
#[derive(Clone, Copy, Debug, PartialEq, Eq, Structural)]
pub enum RecoveryAction {
    Nothing,
    /// Set it up with the passphrase.
    Enable,
    /// Recover with the passphrase.
    Recover,
}

/// What is to be done about the account's key recovery.
pub open spec fn needed_recovery(status: RecoveryStatus) -> RecoveryAction {
    match status {
        RecoveryStatus::Enabled => RecoveryAction::Nothing,
        RecoveryStatus::Disabled => RecoveryAction::Enable,
        RecoveryStatus::Incomplete => RecoveryAction::Recover,
        RecoveryStatus::Unknown => RecoveryAction::Recover,
    }
}

/// What is to be done about the account's key recovery.
pub fn recovery_action(status: RecoveryStatus) -> (action: RecoveryAction)
    ensures
        action == needed_recovery(status),
{
    match status {
        RecoveryStatus::Enabled => RecoveryAction::Nothing,
        RecoveryStatus::Disabled => RecoveryAction::Enable,
        RecoveryStatus::Incomplete => RecoveryAction::Recover,
        RecoveryStatus::Unknown => RecoveryAction::Recover,
    }
}

/// Whether a device is run with.
pub open spec fn is_trusted_device(cross_signed: bool) -> bool {
    cross_signed
}

/// Accepts a device that its owner signed, and says why another is refused.
pub fn check_device(device_id: &str, cross_signed: bool) -> (r: Result<(), String>)
    ensures
        r is Ok <==> is_trusted_device(cross_signed),
        match r {
            Ok(()) => cross_signed,
            Err(message) => !cross_signed && message@ == "device "@ + device_id@
                + " failed to self-sign — refusing to run insecure (would be excluded by Element ~Oct 2026)"@,
        },
{
    if cross_signed {
        return Ok(());
    }
    let mut message = "device ".to_owned();
    message.append(device_id);
    message.append(" failed to self-sign — refusing to run insecure (would be excluded by Element ~Oct 2026)");
    Err(message)
}

/// The first of the configured personas whose name is not one.
pub open spec fn first_invalid(personas: Seq<String>) -> Option<Seq<char>>
    decreases personas.len(),
{
    if personas.len() == 0 {
        None
    } else if !envelope::is_persona(personas[0]@) {
        Some(personas[0]@)
    } else {
        first_invalid(personas.drop_first())
    }
}

/// Accepts the configured personas, or says which name is not one.
pub fn validate_personas(personas: &[String]) -> (r: Result<(), String>)
    ensures
        match r {
            Ok(()) => first_invalid(personas@) is None,
            Err(message) => first_invalid(personas@) is Some && message@ == "invalid persona "@
                + text::debug_text(first_invalid(personas@)->0) + " in config"@,
        },
{
    let mut i: usize = 0;
    proof {
        assert(personas@.skip(0) =~= personas@);
    }
    while i < personas.len()
        invariant
            i <= personas@.len(),
            first_invalid(personas@) == first_invalid(personas@.skip(i as int)),
        decreases personas@.len() - i,
    {
        proof {
            assert(personas@.skip(i as int)[0] == personas@[i as int]);
            assert(personas@.skip(i as int).drop_first() =~= personas@.skip(i + 1));
        }
        if !envelope::valid_persona(personas[i].as_str()) {
            let mut message = "invalid persona ".to_owned();
            message.append(debug_form(personas[i].as_str()).as_str());
            message.append(" in config");
            return Err(message);
        }
        i = i + 1;
    }
    Ok(())
}

/// All configured personas have a proper name exactly when none is found that
/// has not.
pub proof fn law_accepted_personas_are_valid(personas: Seq<String>)
    ensures
        first_invalid(personas) is None <==> forall|i: int|
            0 <= i < personas.len() ==> envelope::is_persona(#[trigger] personas[i]@),
    decreases personas.len(),
{
    if personas.len() > 0 {
        let rest = personas.drop_first();
        law_accepted_personas_are_valid(rest);
        if first_invalid(personas) is None {
            assert forall|i: int| 0 <= i < personas.len() implies envelope::is_persona(#[trigger] personas[i]@) by {
                if i > 0 {
                    assert(rest[i - 1] == personas[i]);
                }
            }
        } else if forall|i: int| 0 <= i < personas.len() ==> envelope::is_persona(#[trigger] personas[i]@) {
            assert(envelope::is_persona(personas[0]@));
            assert forall|i: int| 0 <= i < rest.len() implies envelope::is_persona(#[trigger] rest[i]@) by {
                assert(rest[i] == personas[i + 1]);
            }
        }
    }
}

/// The walk back through a room's history, from the latest event on.
pub struct HistoryWalk {
    max: usize,
    newest_first: Vec<Json>,
    from: Option<String>,
    ended: bool,
}

/// The model of a walk: how many events are wanted, those there are, from where
/// the next page starts, and whether there is none.
#[verifier::ext_equal]
pub struct WalkView {
    pub max: nat,
    pub newest_first: Seq<Tree>,
    pub from: Option<Seq<char>>,
    pub ended: bool,
}

impl View for HistoryWalk {
    type V = WalkView;

    closed spec fn view(&self) -> WalkView {
        WalkView {
            max: self.max as nat,
            newest_first: json::trees(self.newest_first@),
            from: json::opt_view(self.from),
            ended: self.ended,
        }
    }
}

/// A page of history that is to be fetched.
#[derive(Debug)]
pub struct PageRequest {
    pub from: Option<String>,
    pub limit: u32,
}

/// The events among the JSON texts, in order; texts that are not JSON are
/// passed over.
pub open spec fn parsed_events(page: Seq<Seq<char>>) -> Seq<Tree>
    decreases page.len(),
{
    if page.len() == 0 {
        Seq::empty()
    } else {
        match json::parsed(page.last()) {
            Ok(event) => parsed_events(page.drop_last()).push(event),
            Err(_) => parsed_events(page.drop_last()),
        }
    }
}

impl WalkView {
    /// How many events the next page is to have; none when the walk is over.
    pub open spec fn wanted(self) -> Option<nat> {
        if self.ended || self.newest_first.len() >= self.max {
            None
        } else {
            let remaining = (self.max - self.newest_first.len()) as nat;
            Some(
                if remaining < HISTORY_PAGE {
                    remaining
                } else {
                    HISTORY_PAGE as nat
                },
            )
        }
    }

    /// The events, oldest first.
    pub open spec fn events(self) -> Seq<Tree> {
        Seq::new(self.newest_first.len(), |i: int| self.newest_first[self.newest_first.len() - 1 - i])
    }

    /// The walk after the page. It is over where a page is empty, or names no
    /// further one.
    pub open spec fn walked(self, page: Seq<Seq<char>>, end: Option<Seq<char>>) -> WalkView {
        if page.len() == 0 {
            WalkView { ended: true, ..self }
        } else {
            WalkView {
                newest_first: self.newest_first + parsed_events(page),
                from: match end {
                    Some(_) => end,
                    None => self.from,
                },
                ended: end is None,
                ..self
            }
        }
    }
}

impl HistoryWalk {
    /// A walk for at most `max` events, more only where a page has more than
    /// was asked for.
    pub fn new(max: usize) -> (w: HistoryWalk)
        ensures
            w@ == (WalkView { max: max as nat, newest_first: Seq::empty(), from: None, ended: false }),
    {
        let w = HistoryWalk { max, newest_first: Vec::new(), from: None, ended: false };
        proof {
            assert(w@.newest_first =~= Seq::empty());
        }
        w
    }

    /// The page to fetch next; none when the walk is over.
    pub fn next_page(&self) -> (r: Option<PageRequest>)
        ensures
            match r {
                Some(page) => self@.wanted() == Some(page.limit as nat) && json::opt_view(page.from) == self@.from,
                None => self@.wanted() is None,
            },
    {
        if self.ended || self.newest_first.len() >= self.max {
            return None;
        }
        let remaining: usize = self.max - self.newest_first.len();
        let limit: u32 = if remaining < HISTORY_PAGE {
            remaining as u32
        } else {
            HISTORY_PAGE as u32
        };
        Some(
            PageRequest {
                from: match &self.from {
                    Some(from) => Some(from.clone()),
                    None => None,
                },
                limit,
            },
        )
    }

    /// Takes in the page that was fetched, given by its events' JSON texts, and
    /// where the one after it starts.
    pub fn take_page(&mut self, page: &[String], end: Option<String>)
        ensures
            final(self)@ == old(self)@.walked(text::views(page@), json::opt_view(end)),
    {
        let ghost before = self@;
        let ghost all = text::views(page@);
        if page.len() == 0 {
            self.ended = true;
            proof {
                assert(self@ =~= before.walked(all, json::opt_view(end)));
            }
            return;
        }
        let mut i: usize = 0;
        proof {
            assert(before.newest_first + parsed_events(all.take(0)) =~= before.newest_first);
        }
        while i < page.len()
            invariant
                i <= page@.len(),
                all == text::views(page@),
                self@.max == before.max,
                self@.from == before.from,
                self@.newest_first == before.newest_first + parsed_events(all.take(i as int)),
            decreases page@.len() - i,
        {
            let ghost was = self.newest_first@;
            proof {
                assert(all.take(i + 1).drop_last() =~= all.take(i as int));
                assert(all.take(i + 1).last() == page@[i as int]@);
            }
            match Json::parse(page[i].as_str()) {
                Ok(event) => {
                    self.newest_first.push(event);
                    proof {
                        let done = parsed_events(all.take(i as int));
                        assert(json::trees(self.newest_first@) =~= json::trees(was).push(event@));
                        assert((before.newest_first + done).push(event@) =~= before.newest_first + done.push(event@));
                    }
                },
                Err(_) => {},
            }
            i = i + 1;
        }
        let ghost next = json::opt_view(end);
        match end {
            Some(token) => {
                self.from = Some(token);
                self.ended = false;
            },
            None => {
                self.ended = true;
            },
        }
        proof {
            assert(all.take(all.len() as int) =~= all);
            assert(self@ =~= before.walked(all, next));
        }
    }

    /// The events, oldest first.
    pub fn into_events(self) -> (events: Vec<Json>)
        ensures
            json::trees(events@) == self@.newest_first.reverse(),
            json::trees(events@) == self@.events(),
    {
        let ghost all = self.newest_first@;
        let mut rest = self.newest_first;
        let mut events: Vec<Json> = Vec::new();
        while rest.len() > 0
            invariant
                rest@ == all.take(rest@.len() as int),
                rest@.len() + events@.len() == all.len(),
                forall|k: int| 0 <= k < events@.len() ==> events@[k] == all[all.len() - 1 - k],
            decreases rest@.len(),
        {
            let ghost last = rest@.len() - 1;
            match rest.pop() {
                Some(event) => {
                    proof {
                        assert(event == all[last]);
                    }
                    events.push(event);
                },
                None => {},
            }
            proof {
                assert(rest@ =~= all.take(last));
            }
        }
        proof {
            assert(json::trees(events@) =~= json::trees(all).reverse());
            assert(json::trees(events@) =~= self@.events());
        }
        events
    }
}

/// A walk asks for pages of no more than the page size, never for more than is
/// left, and a page as it was asked for does not take it past what is wanted.
pub proof fn law_walks_are_bounded(w: WalkView, page: Seq<Seq<char>>, end: Option<Seq<char>>)
    requires
        w.wanted() is Some,
        page.len() <= w.wanted()->0,
    ensures
        1 <= w.wanted()->0 <= HISTORY_PAGE,
        w.walked(page, end).newest_first.len() <= w.max,
{
    lemma_parsed_events_len(page);
}

proof fn lemma_parsed_events_len(page: Seq<Seq<char>>)
    ensures
        parsed_events(page).len() <= page.len(),
    decreases page.len(),
{
    if page.len() > 0 {
        lemma_parsed_events_len(page.drop_last());
    }
}

} // verus!
