//! The exponential backoff shared by the retry loops: the sink publisher and
//! the sync loop's reconnect path.
use vstd::prelude::*;

verus! {

/// First delay, and the factor by which each further attempt multiplies it.
pub const BASE_SECS: u64 = 2;

/// No delay is longer than this.
pub const CAP_SECS: u64 = 60;

/// `base` to the power `exponent`.
pub open spec fn power(base: nat, exponent: nat) -> nat
    decreases exponent,
{
    if exponent == 0 {
        1
    } else {
        base * power(base, (exponent - 1) as nat)
    }
}

/// The attempt number the formula is applied to: `attempt` brought into `1..=6`.
pub open spec fn clamped_attempt(attempt: int) -> nat {
    if attempt < 1 {
        1
    } else if attempt > 6 {
        6
    } else {
        attempt as nat
    }
}

/// The delay in seconds before retry number `attempt`.
pub open spec fn backoff_delay(attempt: int) -> nat {
    let uncapped = power(BASE_SECS as nat, clamped_attempt(attempt));
    if uncapped > CAP_SECS {
        CAP_SECS as nat
    } else {
        uncapped
    }
}

/// The delays written out: 2, 4, 8, 16, 32, and then the cap.
proof fn lemma_backoff_values()
    ensures
        power(2, 1) == 2,
        power(2, 2) == 4,
        power(2, 3) == 8,
        power(2, 4) == 16,
        power(2, 5) == 32,
        power(2, 6) == 64,
{
    reveal_with_fuel(power, 7);
}

/// Exponential backoff (seconds) before the `attempt`-th consecutive retry.
/// Attempts outside `1..=6` count as the nearer end of that range.
pub fn exponential_backoff_secs(attempt: u32) -> (secs: u64)
    ensures
        secs == backoff_delay(attempt as int),
{
    proof {
        lemma_backoff_values();
    }
    let clamped: u32 = if attempt < 1 {
        1
    } else if attempt > 6 {
        6
    } else {
        attempt
    };
    let mut delay: u64 = 1;
    let mut done: u32 = 0;
    while done < clamped
        invariant
            done <= clamped <= 6,
            delay == power(2, done as nat),
            delay <= 64,
        decreases clamped - done,
    {
        proof {
            lemma_backoff_values();
            reveal_with_fuel(power, 2);
        }
        delay = delay * BASE_SECS;
        done = done + 1;
    }
    if delay > CAP_SECS {
        CAP_SECS
    } else {
        delay
    }
}

/// Waiting longer never shortens the delay, and no delay exceeds the cap.
pub proof fn law_backoff_monotonic_and_capped(a: int, b: int)
    requires
        a <= b,
    ensures
        backoff_delay(a) <= backoff_delay(b),
        backoff_delay(b) <= CAP_SECS,
{
    lemma_backoff_values();
}

/// The first delay is the base, so no delay is shorter.
pub proof fn law_backoff_starts_at_the_base()
    ensures
        backoff_delay(1) == BASE_SECS,
{
    lemma_backoff_values();
}

/// Attempts below the range wait like the first, attempts above it like the
/// sixth.
pub proof fn law_backoff_clamps(attempt: int)
    ensures
        attempt <= 1 ==> backoff_delay(attempt) == backoff_delay(1),
        attempt >= 6 ==> backoff_delay(attempt) == backoff_delay(6),
{
}

} // verus!
