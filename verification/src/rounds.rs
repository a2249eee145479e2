//! Round scheduling: pure arithmetic that maps a beacon's cadence and a
//! target instant to the beacon round gating disclosure.
//!
//! A round computed too early would allow premature decryption, so every
//! fractional second is floored, never rounded up, and the arithmetic here
//! carries exact contracts.

use vstd::prelude::*;
use vstd::arithmetic::div_mod::{
    lemma_div_is_ordered, lemma_div_nonincreasing, lemma_div_pos_is_pos,
    lemma_fundamental_div_mod, lemma_mod_division_less_than_divisor,
};

use crate::errors::SessionError;

verus! {

/// What a randomness beacon publishes about itself: the cadence at which
/// rounds are emitted and the instant of the first round, both in whole
/// seconds of Unix time, together with the beacon's public key bytes.
pub struct BeaconInfo {
    /// Seconds between two consecutive rounds.
    pub period: u64,
    /// Unix time at which round 1 is emitted.
    pub genesis: u64,
    /// The beacon's public key, as the beacon collaborator handed it out.
    pub public_key: Vec<u8>,
}

impl BeaconInfo {
    /// A beacon emits rounds at a positive cadence.
    pub open spec fn wf(self) -> bool {
        self.period >= 1
    }
}

/// The round that will have been produced at or after time `t`: round 1 for
/// any instant before genesis, otherwise `floor((t - genesis) / period) + 1`.
pub open spec fn spec_round_at(period: int, genesis: int, t: int) -> int {
    if t < genesis {
        1
    } else {
        (t - genesis) / period + 1
    }
}

/// The Unix time at which the round given by `spec_round_at` is emitted:
/// genesis itself before genesis, otherwise `genesis + round * period`.
pub open spec fn spec_emission_time(period: int, genesis: int, t: int) -> int {
    if t < genesis {
        genesis
    } else {
        genesis + spec_round_at(period, genesis, t) * period
    }
}

/// The most recently completed round as of `t`, never below 1:
/// `max(1, spec_round_at(t) - 1)`.
pub open spec fn spec_current_round(period: int, genesis: int, t: int) -> int {
    let next = spec_round_at(period, genesis, t);
    if next <= 1 {
        1
    } else {
        next - 1
    }
}

/// The round to be produced at or after `now`, together with its emission
/// time. Before genesis the answer is round 1 at genesis itself; that is the
/// sole special case.
pub fn next_round(now: u64, period: u64, genesis: u64) -> (r: (u64, u64))
    requires
        period >= 1,
        now + period <= u64::MAX,
    ensures
        r.0 as int == spec_round_at(period as int, genesis as int, now as int),
        r.1 as int == spec_emission_time(period as int, genesis as int, now as int),
        r.0 >= 1,
        now < genesis ==> r.0 == 1 && r.1 == genesis,
        now >= genesis ==> r.0 as int == (now - genesis) / (period as int) + 1,
{
    if now < genesis {
        return (1, genesis);
    }
    let from_genesis = now - genesis;
    let q = from_genesis / period;
    proof {
        let fg = from_genesis as int;
        let p = period as int;
        let qi = q as int;
        lemma_fundamental_div_mod(fg, p);
        lemma_mod_division_less_than_divisor(fg, p);
        lemma_div_nonincreasing(fg, p);
        assert(p * qi == qi * p) by (nonlinear_arith);
        assert((qi + 1) * p == qi * p + p) by (nonlinear_arith);
        assert(qi * p <= fg);
    }
    let next = q + 1;
    let next_time = genesis + next * period;
    (next, next_time)
}

/// The most recently completed round as of `now`, clamped so it never drops
/// below 1: `max(1, next_round - 1)`.
pub fn current_round(now: u64, period: u64, genesis: u64) -> (r: u64)
    requires
        period >= 1,
        now + period <= u64::MAX,
    ensures
        r as int == spec_current_round(period as int, genesis as int, now as int),
        r >= 1,
        spec_round_at(period as int, genesis as int, now as int) > 1
            ==> r as int == spec_round_at(period as int, genesis as int, now as int) - 1,
{
    let (next, _) = next_round(now, period, genesis);
    if next <= 1 {
        next
    } else {
        next - 1
    }
}

/// The round to be produced at or after the instant `t` (Unix seconds),
/// for the given beacon.
pub fn round_at(info: &BeaconInfo, t: u64) -> (r: u64)
    requires
        info.wf(),
        t + info.period <= u64::MAX,
    ensures
        r as int == spec_round_at(info.period as int, info.genesis as int, t as int),
        t < info.genesis ==> r == 1,
{
    let (next, _) = next_round(t, info.period, info.genesis);
    next
}

/// The round gating a disclosure requested `delay` seconds after `now`: the
/// round containing the instant `now + delay`, not the one after it, so a
/// delay of zero resolves to the round containing the current instant.
pub fn round_after(info: &BeaconInfo, now: u64, delay: u64) -> (r: u64)
    requires
        info.wf(),
        now + delay + info.period <= u64::MAX,
    ensures
        r as int == spec_current_round(info.period as int, info.genesis as int, now + delay),
        r >= 1,
{
    current_round(now + delay, info.period, info.genesis)
}

/// The disclosure round for a caller-supplied optional delay: the caller's
/// mode requires a delay, so an absent one is rejected with
/// `InvalidDuration`; a present one resolves as `round_after` does.
pub fn disclosure_round(info: &BeaconInfo, now: u64, delay: Option<u64>) -> (r: Result<
    u64,
    SessionError,
>)
    requires
        info.wf(),
        delay matches Some(d) ==> now + d + info.period <= u64::MAX,
    ensures
        delay is None ==> r == Err::<u64, SessionError>(SessionError::InvalidDuration),
        delay matches Some(d) ==> (r matches Ok(n) && n as int == spec_current_round(
            info.period as int,
            info.genesis as int,
            now + d,
        )),
{
    match delay {
        None => Err(SessionError::InvalidDuration),
        Some(d) => Ok(round_after(info, now, d)),
    }
}

/// Monotonicity of the schedule: a later instant never maps to an earlier
/// round.
pub proof fn lemma_round_at_monotonic(period: int, genesis: int, t1: int, t2: int)
    requires
        period >= 1,
        t1 <= t2,
    ensures
        spec_round_at(period, genesis, t1) <= spec_round_at(period, genesis, t2),
{
    if t1 < genesis {
        if genesis <= t2 {
            lemma_div_pos_is_pos(t2 - genesis, period);
        }
    } else {
        lemma_div_is_ordered(t1 - genesis, t2 - genesis, period);
    }
}

} // verus!
