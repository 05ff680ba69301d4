//! Parity of integers: even values are "high", odd values are "low".
use crate::dice::{roll, sum_of, valid_draws, IntValue};
use crate::source::{draws_added, extends, Source};
use vstd::prelude::*;

verus! {

/// An even value is high.
pub open spec fn is_high(v: int) -> bool {
    v % 2 == 0
}

/// An odd value is low.
pub open spec fn is_low(v: int) -> bool {
    v % 2 != 0
}

/// Parity tests on integers.
pub trait HiLo: IntValue {
    /// Whether the value is high (even).
    fn hi(&self) -> (r: bool)
        ensures
            r == is_high(self.int_value()),
    ;

    /// Whether the value is low (odd).
    fn lo(&self) -> (r: bool)
        ensures
            r == is_low(self.int_value()),
    ;
}

impl HiLo for i32 {
    fn hi(&self) -> (r: bool) {
        *self % 2 == 0
    }

    fn lo(&self) -> (r: bool) {
        *self % 2 != 0
    }
}

/// Every integer is either high or low, never both.
pub proof fn high_low_exclusive(v: int)
    ensures
        is_high(v) != is_low(v),
{
}

/// Rolls one two-sided die from `src` and tells whether it came up low.
pub fn roll_parity_is_low(src: &mut Source) -> (r: bool)
    ensures
        extends(old(src).log(), final(src).log()),
        valid_draws(1, 2, draws_added(old(src).log(), final(src).log())),
        r == is_low(draws_added(old(src).log(), final(src).log())[0] as int),
{
    let face = roll(src, 1, 2);
    proof {
        let added = draws_added(old(src).log(), src.log());
        assert(added.drop_last() =~= Seq::<i32>::empty());
        assert(sum_of(added.drop_last()) == 0);
        assert(sum_of(added) == added[0] as int);
    }
    face.lo()
}

/// Rolls one two-sided die from `src` and tells whether it came up high.
pub fn roll_parity_is_high(src: &mut Source) -> (r: bool)
    ensures
        extends(old(src).log(), final(src).log()),
        valid_draws(1, 2, draws_added(old(src).log(), final(src).log())),
        r == is_high(draws_added(old(src).log(), final(src).log())[0] as int),
{
    !roll_parity_is_low(src)
}

} // verus!
