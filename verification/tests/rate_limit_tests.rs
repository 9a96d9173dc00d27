//! The sliding-window withdrawal limiter.
use cw_asset_manager::rate_limit::{RateLimit, RateLimitError};

/// A zero period disables the limiter: any amount passes and nothing moves.
#[test]
fn zero_period_always_allows() {
    let rl = RateLimit { period: 0, percentage: 1000, last_update: 5, current_limit: 123 };
    assert_eq!(rl.verify_withdraw(1000, 999, 50).unwrap(), rl);
    assert_eq!(rl.verify_withdraw(10, 10, 50).unwrap(), rl);
    assert_eq!(rl.verify_withdraw(0, u128::MAX, 0).unwrap(), rl);
}

/// With ten percent protected of a balance of 1000, the first use seeds the
/// floor at 100, and a withdrawal leaving only 50 behind is refused.
#[test]
fn first_use_seeds_the_floor_and_enforces_it() {
    let rl = RateLimit { period: 3600, percentage: 1000, last_update: 0, current_limit: 0 };

    let seeded = rl.verify_withdraw(1000, 0, 42).unwrap();
    assert_eq!(seeded.current_limit, 100);
    assert_eq!(seeded.last_update, 42);
    assert_eq!(seeded.period, 3600);
    assert_eq!(seeded.percentage, 1000);

    let refused = seeded.verify_withdraw(1000, 950, 42);
    assert_eq!(refused.unwrap_err(), RateLimitError::ExceedsLimit);
}

/// Within the floor a withdrawal passes and carries the floor forward.
#[test]
fn allowed_withdrawal_updates_the_state() {
    let rl = RateLimit { period: 3600, percentage: 1000, last_update: 42, current_limit: 100 };
    let updated = rl.verify_withdraw(1000, 900, 42).unwrap();
    assert_eq!(updated.current_limit, 100);
    assert_eq!(updated.last_update, 42);
}

/// The floor decays with time, but never under the protected fraction.
#[test]
fn floor_decays_with_time_but_keeps_the_protected_part() {
    // Protected: 100.  Withdrawable per full period: 900.  After half the
    // period 450 have recovered, so a floor of 500 decays to 100 once the
    // protected fraction takes over at 50.
    let rl = RateLimit { period: 3600, percentage: 1000, last_update: 0, current_limit: 500 };
    let updated = rl.verify_withdraw(1000, 0, 1800).unwrap();
    assert_eq!(updated.current_limit, 100);
    assert_eq!(updated.last_update, 1800);

    // A quarter period recovers 225: the floor decays to 275.
    let updated = rl.verify_withdraw(1000, 0, 900).unwrap();
    assert_eq!(updated.current_limit, 275);
}
