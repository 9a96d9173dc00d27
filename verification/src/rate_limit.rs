//! Sliding-window withdrawal cap: at most a configured fraction of the
//! contract-held balance may leave per period.
use vstd::prelude::*;

verus! {

/// Basis points in a whole.
pub const POINTS: u128 = 10000;

/// The limiter refused a withdrawal.
#[derive(Debug, Clone, PartialEq, Eq, Structural)]
pub enum RateLimitError {
    ExceedsLimit,
}

/// Per-token limiter state.  `percentage` is in basis points of the held
/// balance; `current_limit` is the floor the balance may not sink under,
/// where zero stands both for "never used" and for a fully decayed floor.
#[derive(Debug, Clone, Copy, PartialEq, Eq, Structural)]
pub struct RateLimit {
    /// Window length in seconds; zero disables the limiter.
    pub period: u64,
    /// Protected fraction of the balance, in basis points out of 10000.
    pub percentage: u32,
    /// Time of the last accepted update, in seconds.
    pub last_update: u64,
    /// The balance floor as of `last_update`.
    pub current_limit: u128,
}

/// The protected part of the balance: `floor(balance * percentage / 10000)`.
pub open spec fn spec_max_limit(balance: u128, percentage: u32) -> int {
    balance * percentage / (POINTS as int)
}

pub open spec fn spec_min(a: int, b: int) -> int {
    if a <= b {
        a
    } else {
        b
    }
}

pub open spec fn spec_max(a: int, b: int) -> int {
    if a >= b {
        a
    } else {
        b
    }
}

/// The floor that applies `now`: the old floor decays with the time passed,
/// but never under the protected fraction of the balance.
pub open spec fn spec_floor_limit(rl: RateLimit, balance: u128, now: u64) -> int {
    let max_limit = spec_max_limit(balance, rl.percentage);
    let max_withdraw = balance - max_limit;
    let elapsed = spec_min(now - rl.last_update, rl.period as int);
    let recovered = max_withdraw * elapsed / (rl.period as int);
    let decayed = rl.current_limit - spec_min(rl.current_limit as int, recovered);
    spec_max(decayed, max_limit)
}

/// The floor in force never sinks under the protected fraction of the
/// balance: whatever has decayed, at least
/// `floor(balance * percentage / 10000)` stays locked.
pub proof fn lemma_floor_keeps_protected_fraction(rl: RateLimit, balance: u128, now: u64)
    ensures
        spec_floor_limit(rl, balance, now) >= spec_max_limit(balance, rl.percentage),
{
}

impl RateLimit {
    /// Decides a withdrawal of `amount` against a held balance of `balance`
    /// at time `now`.  A zero period always allows and changes nothing.  The
    /// first use seeds the floor at the protected fraction.  Afterwards the
    /// withdrawal is allowed exactly when it leaves at least the decayed
    /// floor behind, and the accepted state carries that floor forward.
    ///
    /// The `requires` rule out only what machine limits force: inputs whose
    /// intermediate products overflow 128 bits are not served.
    pub fn verify_withdraw(&self, balance: u128, amount: u128, now: u64) -> (r: Result<
        RateLimit,
        RateLimitError,
    >)
        requires
            self.period != 0 ==> balance * self.percentage <= u128::MAX,
            self.period != 0 && self.current_limit != 0 ==> {
                &&& spec_max_limit(balance, self.percentage) <= balance
                &&& self.last_update <= now
                &&& (balance - spec_max_limit(balance, self.percentage)) * spec_min(
                    now - self.last_update,
                    self.period as int,
                ) <= u128::MAX
                &&& amount <= balance
            },
        ensures
            self.period == 0 ==> r == Ok::<RateLimit, RateLimitError>(*self),
            self.period != 0 && self.current_limit == 0 ==> r == Ok::<RateLimit, RateLimitError>(
                RateLimit {
                    period: self.period,
                    percentage: self.percentage,
                    last_update: now,
                    current_limit: spec_max_limit(balance, self.percentage) as u128,
                },
            ),
            self.period != 0 && self.current_limit != 0 ==> {
                let limit = spec_floor_limit(*self, balance, now);
                if balance - amount < limit {
                    r == Err::<RateLimit, RateLimitError>(RateLimitError::ExceedsLimit)
                } else {
                    r == Ok::<RateLimit, RateLimitError>(
                        RateLimit {
                            period: self.period,
                            percentage: self.percentage,
                            last_update: now,
                            current_limit: limit as u128,
                        },
                    )
                }
            },
    {
        if self.period == 0 {
            return Ok(*self);
        }
        let max_limit: u128 = (balance * (self.percentage as u128)) / POINTS;
        if self.current_limit == 0 {
            return Ok(
                RateLimit {
                    period: self.period,
                    percentage: self.percentage,
                    last_update: now,
                    current_limit: max_limit,
                },
            );
        }
        let max_withdraw: u128 = balance - max_limit;
        let diff: u64 = now - self.last_update;
        let time_diff: u64 = if diff <= self.period {
            diff
        } else {
            self.period
        };
        let recovered: u128 = (max_withdraw * (time_diff as u128)) / (self.period as u128);
        let decayed: u128 = if (self.current_limit as u128) > recovered {
            self.current_limit - recovered
        } else {
            0
        };
        let limit: u128 = if decayed >= max_limit {
            decayed
        } else {
            max_limit
        };
        assert(limit == spec_floor_limit(*self, balance, now));
        if balance - amount < limit {
            return Err(RateLimitError::ExceedsLimit);
        }
        Ok(
            RateLimit {
                period: self.period,
                percentage: self.percentage,
                last_update: now,
                current_limit: limit,
            },
        )
    }
}

} // verus!
