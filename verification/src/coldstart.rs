//! The start of a headless device: cold, warm, or recovered after its store was
//! lost; and the proof that its history can be read.
use vstd::prelude::*;
use vstd::string::*;

use crate::boot;
use crate::boot::{BootPlan, RecoveryAction, RecoveryStatus};
use crate::boot::{plan_boot, recovery_action};

verus! {

/// How a device came up.
#[derive(Clone, Copy, Debug, PartialEq, Eq, Structural)]
pub enum RunKind {
    /// With a new login.
    Cold,
    /// With the session that was there.
    Warm,
    /// With its keys recovered by the passphrase.
    Recovered,
}

/// How a device comes up, given what is on disk and the state of its recovery;
/// none when its store has lost its session.
pub open spec fn run_kind(
    store_exists: bool,
    session_exists: bool,
    status: RecoveryStatus,
) -> Option<RunKind> {
    match boot::planned_boot(store_exists, session_exists) {
        BootPlan::Refuse => None,
        plan => Some(
            if boot::needed_recovery(status) == RecoveryAction::Recover {
                RunKind::Recovered
            } else if plan == BootPlan::Warm {
                RunKind::Warm
            } else {
                RunKind::Cold
            },
        ),
    }
}

/// How a device comes up, given what is on disk and the state of its recovery;
/// none when its store has lost its session.
pub fn classify_run(store_exists: bool, session_exists: bool, status: RecoveryStatus) -> (r: Option<RunKind>)
    ensures
        r == run_kind(store_exists, session_exists, status),
{
    match plan_boot(store_exists, session_exists) {
        BootPlan::Refuse => None,
        plan => {
            if recovery_action(status) == RecoveryAction::Recover {
                Some(RunKind::Recovered)
            } else if plan == BootPlan::Warm {
                Some(RunKind::Warm)
            } else {
                Some(RunKind::Cold)
            }
        },
    }
}

impl RunKind {
    /// The word for it.
    pub open spec fn word(self) -> Seq<char> {
        match self {
            RunKind::Cold => "cold"@,
            RunKind::Warm => "warm"@,
            RunKind::Recovered => "recovered"@,
        }
    }

    /// The word for it.
    pub fn name(self) -> (s: &'static str)
        ensures
            s@ == self.word(),
    {
        match self {
            RunKind::Cold => "cold",
            RunKind::Warm => "warm",
            RunKind::Recovered => "recovered",
        }
    }

    /// Whether there is history whose keys the device has to show.
    pub open spec fn has_history(self) -> bool {
        self is Warm || self is Recovered
    }

    /// Whether there is history whose keys the device has to show.
    pub fn must_read_history(self) -> (r: bool)
        ensures
            r == self.has_history(),
            r == (self != RunKind::Cold),
    {
        match self {
            RunKind::Cold => false,
            _ => true,
        }
    }
}

/// The message that the device sends once it is up.
pub fn greeting(kind: RunKind, device_id: &str) -> (body: String)
    ensures
        body@ == "qj-coldstart["@ + kind.word() + "]: hello from device "@ + device_id@,
{
    let mut body = "qj-coldstart[".to_owned();
    body.append(kind.name());
    body.append("]: hello from device ");
    body.append(device_id);
    body
}

/// An event of the room's history, by whether it could be read.
#[derive(Clone, Copy, Debug, PartialEq, Eq, Structural)]
pub enum HistoryEvent {
    Decrypted,
    Undecryptable,
    Plain,
}

/// How many of the events are of the kind.
pub open spec fn count_of(events: Seq<HistoryEvent>, kind: HistoryEvent) -> nat
    decreases events.len(),
{
    if events.len() == 0 {
        0
    } else {
        count_of(events.drop_last(), kind) + (if events.last() == kind {
            1nat
        } else {
            0nat
        })
    }
}

/// There are no more events of a kind than events.
proof fn lemma_count_of(events: Seq<HistoryEvent>, kind: HistoryEvent)
    ensures
        count_of(events, kind) <= events.len(),
    decreases events.len(),
{
    if events.len() > 0 {
        lemma_count_of(events.drop_last(), kind);
    }
}

/// How often the history is read before the device gives up.
pub const HISTORY_ATTEMPTS: u32 = 15;

/// What a reading of the history comes to.
#[derive(Clone, Copy, Debug, PartialEq, Eq, Structural)]
pub enum HistoryStep {
    /// Everything can be read; so many events were encrypted.
    Read { decrypted: usize },
    /// Something cannot be read yet: wait, and read it again.
    Again { decrypted: usize, undecryptable: usize },
    /// Something cannot be read, and this was the last attempt.
    Failed { decrypted: usize, undecryptable: usize },
}

/// What a reading of the history comes to, at the given attempt, where so many
/// events could be read and so many could not.
pub open spec fn history_outcome(attempt: u32, decrypted: usize, undecryptable: usize) -> HistoryStep {
    if undecryptable == 0 {
        HistoryStep::Read { decrypted }
    } else if attempt < HISTORY_ATTEMPTS {
        HistoryStep::Again { decrypted, undecryptable }
    } else {
        HistoryStep::Failed { decrypted, undecryptable }
    }
}

/// What a reading of the history comes to, at the given attempt.
pub fn history_step(attempt: u32, events: &[HistoryEvent]) -> (step: HistoryStep)
    ensures
        step == history_outcome(
            attempt,
            count_of(events@, HistoryEvent::Decrypted) as usize,
            count_of(events@, HistoryEvent::Undecryptable) as usize,
        ),
        ({
            let decrypted = count_of(events@, HistoryEvent::Decrypted);
            let undecryptable = count_of(events@, HistoryEvent::Undecryptable);
            match step {
                HistoryStep::Read { decrypted: d } => undecryptable == 0 && d == decrypted,
                HistoryStep::Again { decrypted: d, undecryptable: u } => undecryptable > 0 && attempt
                    < HISTORY_ATTEMPTS && d == decrypted && u == undecryptable,
                HistoryStep::Failed { decrypted: d, undecryptable: u } => undecryptable > 0 && attempt
                    >= HISTORY_ATTEMPTS && d == decrypted && u == undecryptable,
            }
        }),
{
    let mut decrypted: usize = 0;
    let mut undecryptable: usize = 0;
    let mut i: usize = 0;
    while i < events.len()
        invariant
            i <= events@.len(),
            decrypted == count_of(events@.take(i as int), HistoryEvent::Decrypted),
            undecryptable == count_of(events@.take(i as int), HistoryEvent::Undecryptable),
        decreases events@.len() - i,
    {
        proof {
            assert(events@.take(i + 1).drop_last() =~= events@.take(i as int));
            lemma_count_of(events@.take(i as int), HistoryEvent::Decrypted);
            lemma_count_of(events@.take(i as int), HistoryEvent::Undecryptable);
        }
        match events[i] {
            HistoryEvent::Decrypted => {
                decrypted = decrypted + 1;
            },
            HistoryEvent::Undecryptable => {
                undecryptable = undecryptable + 1;
            },
            HistoryEvent::Plain => {},
        }
        i = i + 1;
    }
    proof {
        assert(events@.take(events@.len() as int) =~= events@);
    }
    if undecryptable == 0 {
        HistoryStep::Read { decrypted }
    } else if attempt < HISTORY_ATTEMPTS {
        HistoryStep::Again { decrypted, undecryptable }
    } else {
        HistoryStep::Failed { decrypted, undecryptable }
    }
}

} // verus!
