//! Roll-under checks: a random total is compared against a threshold.
use crate::dice::{roll, sum_of, valid_draws};
use crate::source::{draws_added, extends, Source};
use vstd::prelude::*;

verus! {

/// The outcome of a roll-under check whose dice showed `check`: `payload`
/// when `check` is at most `threshold`, else nothing.
pub open spec fn under_outcome(check: int, threshold: int, payload: i32) -> Option<i32> {
    if check <= threshold {
        Some(payload)
    } else {
        None
    }
}

/// Decides a roll-under check whose dice showed `check`: `Some(payload)` when
/// `check <= threshold`, else `None`.
pub fn roll_under(check: i32, threshold: i32, payload: i32) -> (r: Option<i32>)
    ensures
        r == under_outcome(check as int, threshold as int, payload),
{
    if check <= threshold {
        Some(payload)
    } else {
        None
    }
}

/// Raising the threshold never turns a success into a failure: for the same
/// dice, a check that succeeds against `threshold` also succeeds against any
/// higher threshold.
pub proof fn higher_threshold_keeps_success(check: int, threshold: int, higher: int, payload: i32)
    requires
        threshold <= higher,
        under_outcome(check, threshold, payload) is Some,
    ensures
        under_outcome(check, higher, payload) == Some(payload),
{
}

/// Rolls three six-sided dice from `src` and returns `Some(payload)` when
/// their total is at most `threshold`, else `None`.
pub fn chance(src: &mut Source, threshold: i32, payload: i32) -> (r: Option<i32>)
    ensures
        extends(old(src).log(), final(src).log()),
        valid_draws(3, 6, draws_added(old(src).log(), final(src).log())),
        r == under_outcome(sum_of(draws_added(old(src).log(), final(src).log())), threshold as int, payload),
        r == None::<i32> || r == Some(payload),
        threshold >= 18 ==> r == Some(payload),
        threshold < 3 ==> r == None::<i32>,
{
    let check = roll(src, 3, 6);
    roll_under(check, threshold, payload)
}

/// The outcome of a percentile check whose die showed `check`: `value` when
/// `check` is at most `chance_percent`, else 0.
pub open spec fn percent_outcome(check: int, chance_percent: int, value: i32) -> i32 {
    if check <= chance_percent {
        value
    } else {
        0
    }
}

/// Decides a percentile check whose die showed `check`: `value` when
/// `check <= chance_percent`, else 0.
pub fn percent_check(check: i32, chance_percent: i32, value: i32) -> (r: i32)
    ensures
        r == percent_outcome(check as int, chance_percent as int, value),
{
    if check <= chance_percent {
        value
    } else {
        0
    }
}

/// Rolls one hundred-sided die from `src` and returns `value` when it shows at
/// most `chance_percent`, else 0: a `chance_percent`% chance of `value`.
pub fn chance_of(src: &mut Source, chance_percent: i32, value: i32) -> (r: i32)
    ensures
        extends(old(src).log(), final(src).log()),
        valid_draws(1, 100, draws_added(old(src).log(), final(src).log())),
        r == percent_outcome(draws_added(old(src).log(), final(src).log())[0] as int, chance_percent as int, value),
        r == 0 || r == value,
        chance_percent >= 100 ==> r == value,
        chance_percent < 1 ==> r == 0,
{
    let check = roll(src, 1, 100);
    proof {
        let added = draws_added(old(src).log(), src.log());
        assert(added.drop_last() =~= Seq::<i32>::empty());
        assert(sum_of(added.drop_last()) == 0);
        assert(sum_of(added) == added[0] as int);
    }
    percent_check(check, chance_percent, value)
}

} // verus!
