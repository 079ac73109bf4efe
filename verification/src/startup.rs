//! Waiting for the store when the exchange starts.

use vstd::prelude::*;

verus! {

/// After how many failed attempts the exchange gives up.
pub const MAX_ATTEMPTS: u32 = 10;

/// What to do after an attempt to reach the store.
#[derive(Clone, Copy, Debug, PartialEq, Eq, Structural)]
pub enum StartupStep {
    /// The store is ready.
    Go,
    /// Try again after so many seconds.
    Retry { delay_secs: u64 },
    GiveUp,
}

pub open spec fn pow2(n: nat) -> nat
    decreases n,
{
    if n == 0 {
        1
    } else {
        2 * pow2((n - 1) as nat)
    }
}

/// The seconds to wait after so many failed attempts: two to that power, but no more than
/// sixteen.
pub open spec fn backoff(attempts: nat) -> nat {
    pow2(
        if attempts < 4 {
            attempts
        } else {
            4
        },
    )
}

/// What follows an attempt, after `failed` earlier ones failed.
pub open spec fn step_after(failed: nat, ready: bool) -> StartupStep {
    if ready {
        StartupStep::Go
    } else if failed + 1 >= MAX_ATTEMPTS {
        StartupStep::GiveUp
    } else {
        StartupStep::Retry { delay_secs: backoff(failed + 1) as u64 }
    }
}

/// Decides what follows an attempt to reach the store.
pub fn startup_step(failed: u32, ready: bool) -> (r: StartupStep)
    ensures
        r == step_after(failed as nat, ready),
{
    if ready {
        return StartupStep::Go;
    }
    if failed >= MAX_ATTEMPTS - 1 {
        return StartupStep::GiveUp;
    }
    let attempts: u32 = failed + 1;
    let exponent: u32 = if attempts < 4 { attempts } else { 4 };
    let mut delay_secs: u64 = 1;
    let mut i: u32 = 0;
    while i < exponent
        invariant
            i <= exponent <= 4,
            delay_secs == pow2(i as nat),
            delay_secs <= 16,
            i == 0 ==> delay_secs == 1,
            i == 1 ==> delay_secs == 2,
            i == 2 ==> delay_secs == 4,
            i == 3 ==> delay_secs == 8,
        decreases exponent - i,
    {
        delay_secs = delay_secs * 2;
        i = i + 1;
    }
    StartupStep::Retry { delay_secs }
}

/// The waits grow with the attempts and are never longer than sixteen seconds; the exchange gives
/// up at the tenth failure, and not before.
pub proof fn law_backoff(failed: nat)
    ensures
        backoff(failed) <= backoff(failed + 1) <= 16,
        (step_after(failed, false) is GiveUp) == (failed >= 9),
{
    reveal_with_fuel(pow2, 5);
}

} // verus!
