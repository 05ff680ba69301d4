//! Rolling `count` dice of `sides` sides.
use crate::chance::{chance, under_outcome};
use crate::source::{draws_added, extends, Source};
use vstd::prelude::*;

verus! {

/// Sum of a sequence of rolled faces.
pub open spec fn sum_of(faces: Seq<i32>) -> int
    decreases faces.len(),
{
    if faces.len() == 0 {
        0
    } else {
        sum_of(faces.drop_last()) + faces.last()
    }
}

/// Every face lies in `[1, sides]`.
pub open spec fn all_faces(faces: Seq<i32>, sides: int) -> bool {
    forall|i: int| 0 <= i < faces.len() ==> 1 <= #[trigger] faces[i] <= sides
}

/// The magnitude of a signed dice count.
pub open spec fn magnitude(count: int) -> int {
    if count < 0 {
        -count
    } else {
        count
    }
}

/// The result of rolling `count` dice that showed `faces`: their sum, negated
/// when the count is negative.
pub open spec fn signed_total(count: int, faces: Seq<i32>) -> int {
    if count < 0 {
        -sum_of(faces)
    } else {
        sum_of(faces)
    }
}

/// A roll of `count` dice of `sides` sides fits in an `i32` whatever the faces.
pub open spec fn roll_fits(count: int, sides: int) -> bool {
    &&& 1 <= sides
    &&& magnitude(count) * sides <= i32::MAX
}

/// `faces` is one possible outcome of rolling `count` dice of `sides` sides.
pub open spec fn valid_draws(count: int, sides: int, faces: Seq<i32>) -> bool {
    &&& faces.len() == magnitude(count)
    &&& all_faces(faces, sides)
}

/// `r` is a possible result of rolling `count` dice of `sides` sides.
pub open spec fn is_roll_of(count: int, sides: int, r: int) -> bool {
    exists|faces: Seq<i32>| #[trigger] valid_draws(count, sides, faces) && r == signed_total(count, faces)
}

/// The sum of `n` faces in `[1, sides]` lies in `[n, n * sides]`.
pub proof fn lemma_sum_bounds(faces: Seq<i32>, sides: int)
    requires
        all_faces(faces, sides),
    ensures
        faces.len() <= sum_of(faces) <= faces.len() * sides,
    decreases faces.len(),
{
    if faces.len() > 0 {
        let init = faces.drop_last();
        assert(all_faces(init, sides));
        lemma_sum_bounds(init, sides);
        assert(faces.len() * sides == init.len() * sides + sides) by (nonlinear_arith)
            requires
                faces.len() == init.len() + 1,
        ;
    }
}

/// Computes the result of rolling `count` dice of `sides` sides that showed
/// `faces`: their sum, negated when `count` is negative.
pub fn total_of_draws(count: i32, sides: usize, faces: &Vec<i32>) -> (r: i32)
    requires
        roll_fits(count as int, sides as int),
        valid_draws(count as int, sides as int, faces@),
    ensures
        r == signed_total(count as int, faces@),
{
    let mut sum: i32 = 0;
    let mut i: usize = 0;
    while i < faces.len()
        invariant
            i <= faces.len(),
            roll_fits(count as int, sides as int),
            valid_draws(count as int, sides as int, faces@),
            sum == sum_of(faces@.take(i as int)),
        decreases faces.len() - i,
    {
        proof {
            let next = faces@.take(i as int + 1);
            assert(next.drop_last() =~= faces@.take(i as int));
            assert(all_faces(next, sides as int));
            lemma_sum_bounds(next, sides as int);
            assert(next.len() * (sides as int) <= magnitude(count as int) * (sides as int))
                by (nonlinear_arith)
                requires
                    next.len() <= magnitude(count as int),
                    1 <= sides,
            ;
        }
        sum = sum + faces[i];
        i = i + 1;
    }
    assert(faces@.take(faces.len() as int) =~= faces@);
    proof {
        lemma_sum_bounds(faces@, sides as int);
    }
    if count < 0 {
        -sum
    } else {
        sum
    }
}

/// Rolls `count` dice of `sides` sides from `src`: draws `|count|` faces
/// uniformly from `[1, sides]` and returns their sum, negated when `count` is
/// negative. Nothing is drawn for a count of 0.
pub fn roll(src: &mut Source, count: i32, sides: usize) -> (r: i32)
    requires
        roll_fits(count as int, sides as int),
    ensures
        extends(old(src).log(), final(src).log()),
        valid_draws(count as int, sides as int, draws_added(old(src).log(), final(src).log())),
        r == signed_total(count as int, draws_added(old(src).log(), final(src).log())),
        is_roll_of(count as int, sides as int, r as int),
        0 <= count ==> count <= r <= count * sides,
        count < 0 ==> count * sides <= r <= count,
{
    assert(magnitude(count as int) <= i32::MAX) by (nonlinear_arith)
        requires
            magnitude(count as int) * sides <= i32::MAX,
            1 <= sides,
            0 <= magnitude(count as int),
    ;
    let n: i32 = if count < 0 {
        -count
    } else {
        count
    };
    let ghost start = src.log();
    let mut faces: Vec<i32> = Vec::new();
    let mut i: i32 = 0;
    while i < n
        invariant
            0 <= i <= n,
            n == magnitude(count as int),
            roll_fits(count as int, sides as int),
            faces.len() == i,
            all_faces(faces@, sides as int),
            src.log() == start + faces@,
        decreases n - i,
    {
        assert(sides <= i32::MAX) by (nonlinear_arith)
            requires
                1 <= n,
                n * sides <= i32::MAX,
                1 <= sides,
        ;
        let face = src.draw(1, sides as i32);
        faces.push(face);
        i = i + 1;
    }
    let r = total_of_draws(count, sides, &faces);
    proof {
        assert(draws_added(start, src.log()) =~= faces@);
        assert(src.log().take(start.len() as int) =~= start);
        assert(valid_draws(count as int, sides as int, faces@));
        lemma_sum_bounds(faces@, sides as int);
        if count < 0 {
            assert(magnitude(count as int) * sides == -(count * sides)) by (nonlinear_arith)
                requires
                    magnitude(count as int) == -count,
            ;
        }
    }
    r
}

/// Faces in `[1, sides]`, `count` of them, that sum to `v`, for any `v` in
/// `[count, count * sides]`.
proof fn lemma_faces_summing_to(count: int, sides: int, v: int) -> (faces: Seq<i32>)
    requires
        0 <= count,
        1 <= sides,
        count * sides <= i32::MAX,
        count <= v <= count * sides,
    ensures
        faces.len() == count,
        all_faces(faces, sides),
        sum_of(faces) == v,
    decreases count,
{
    if count == 0 {
        assert(count * sides == 0) by (nonlinear_arith)
            requires
                count == 0,
        ;
        assert(sum_of(Seq::<i32>::empty()) == 0);
        Seq::empty()
    } else {
        assert(sides <= i32::MAX && count * sides == (count - 1) * sides + sides) by (nonlinear_arith)
            requires
                1 <= count,
                1 <= sides,
                count * sides <= i32::MAX,
        ;
        assert((count - 1) * sides <= i32::MAX) by (nonlinear_arith)
            requires
                1 <= count,
                1 <= sides,
                count * sides <= i32::MAX,
        ;
        let face: int = if v - (count - 1) < sides {
            v - (count - 1)
        } else {
            sides
        };
        assert(count - 1 <= (count - 1) * sides) by (nonlinear_arith)
            requires
                1 <= count,
                1 <= sides,
        ;
        assert(1 <= face <= sides);
        let init = lemma_faces_summing_to(count - 1, sides, v - face);
        let faces = init.push(face as i32);
        assert(faces.drop_last() =~= init);
        assert(faces.last() as int == face);
        assert(sum_of(faces) == sum_of(init) + face);
        faces
    }
}

/// Every result of rolling a non-negative number `count` of dice of `sides`
/// sides lies in `[count, count * sides]`.
pub proof fn roll_within_bounds(count: int, sides: int, r: int)
    requires
        1 <= sides,
        0 <= count,
        is_roll_of(count, sides, r),
    ensures
        count <= r <= count * sides,
{
    let faces = choose|faces: Seq<i32>| #[trigger] valid_draws(count, sides, faces) && r == signed_total(count, faces);
    lemma_sum_bounds(faces, sides);
}

/// Negating the dice count negates the possible results: `r` can come of
/// rolling `-count` dice exactly when `-r` can come of rolling `count` dice.
/// So the magnitudes of both rolls have the same support.
pub proof fn negated_count_same_support(count: int, sides: int, r: int)
    ensures
        is_roll_of(-count, sides, r) == is_roll_of(count, sides, -r),
{
    if is_roll_of(-count, sides, r) {
        let faces = choose|faces: Seq<i32>| #[trigger] valid_draws(-count, sides, faces) && r == signed_total(-count, faces);
        assert(valid_draws(count, sides, faces));
    }
    if is_roll_of(count, sides, -r) {
        let faces = choose|faces: Seq<i32>| #[trigger] valid_draws(count, sides, faces) && -r == signed_total(count, faces);
        assert(valid_draws(-count, sides, faces));
    }
}

/// Rolling `-count` dice, for a non-negative `count`, gives a result whose
/// magnitude lies in `[count, count * sides]`.
pub proof fn negated_roll_within_bounds(count: int, sides: int, r: int)
    requires
        1 <= sides,
        0 <= count,
        is_roll_of(-count, sides, r),
    ensures
        count <= -r <= count * sides,
{
    negated_count_same_support(count, sides, r);
    roll_within_bounds(count, sides, -r);
}

/// The integer that a value stands for in contracts.
pub trait IntValue {
    spec fn int_value(&self) -> int;
}

impl IntValue for i32 {
    open spec fn int_value(&self) -> int {
        *self as int
    }
}

/// Every value in `[count, count * sides]` is a possible result of rolling
/// `count` dice of `sides` sides, and its negation a possible result of
/// rolling `-count` such dice: together with the bounds above, the support of
/// either roll's magnitude is exactly `[count, count * sides]`.
pub proof fn roll_support_is_full(count: int, sides: int, v: int)
    requires
        0 <= count,
        roll_fits(count, sides),
        count <= v <= count * sides,
    ensures
        is_roll_of(count, sides, v),
        is_roll_of(-count, sides, -v),
{
    let faces = lemma_faces_summing_to(count, sides, v);
    assert(valid_draws(count, sides, faces));
    negated_count_same_support(count, sides, -v);
}

/// Fed the same faces, a roll of `-count` dice gives the negation of a roll of
/// `count` dice.
pub proof fn negated_count_negates_total(count: int, sides: int, faces: Seq<i32>)
    requires
        valid_draws(count, sides, faces),
    ensures
        valid_draws(-count, sides, faces),
        signed_total(-count, faces) == -signed_total(count, faces),
{
    if count == 0 {
        assert(faces.len() == 0);
    }
}

/// Dice rolls on a count of dice: `3.d6(&mut src)` rolls three six-sided
/// dice drawn from `src`.
pub trait DiceExt: IntValue + Sized {
    /// Whether `self` dice of `sides` sides can be rolled: `sides` is at
    /// least 1 and every possible result fits in `Self`.
    spec fn can_roll(&self, sides: int) -> bool;

    /// Rolls, from `src`, `self` dice of `sides` sides.
    fn d(&self, src: &mut Source, sides: usize) -> (r: Self)
        requires
            self.can_roll(sides as int),
        ensures
            extends(old(src).log(), final(src).log()),
            valid_draws(self.int_value(), sides as int, draws_added(old(src).log(), final(src).log())),
            r.int_value() == signed_total(self.int_value(), draws_added(old(src).log(), final(src).log())),
            0 <= self.int_value() ==> self.int_value() <= r.int_value() <= self.int_value() * sides,
            self.int_value() < 0 ==> self.int_value() * sides <= r.int_value() <= self.int_value(),
    ;

    /// Rolls, from `src`, `self` dice of 2 sides.
    fn d2(&self, src: &mut Source) -> (r: Self)
        requires
            self.can_roll(2),
        ensures
            extends(old(src).log(), final(src).log()),
            valid_draws(self.int_value(), 2, draws_added(old(src).log(), final(src).log())),
            r.int_value() == signed_total(self.int_value(), draws_added(old(src).log(), final(src).log())),
    ;

    /// Rolls, from `src`, `self` dice of 3 sides.
    fn d3(&self, src: &mut Source) -> (r: Self)
        requires
            self.can_roll(3),
        ensures
            extends(old(src).log(), final(src).log()),
            valid_draws(self.int_value(), 3, draws_added(old(src).log(), final(src).log())),
            r.int_value() == signed_total(self.int_value(), draws_added(old(src).log(), final(src).log())),
    ;

    /// Rolls, from `src`, `self` dice of 4 sides.
    fn d4(&self, src: &mut Source) -> (r: Self)
        requires
            self.can_roll(4),
        ensures
            extends(old(src).log(), final(src).log()),
            valid_draws(self.int_value(), 4, draws_added(old(src).log(), final(src).log())),
            r.int_value() == signed_total(self.int_value(), draws_added(old(src).log(), final(src).log())),
    ;

    /// Rolls, from `src`, `self` dice of 5 sides.
    fn d5(&self, src: &mut Source) -> (r: Self)
        requires
            self.can_roll(5),
        ensures
            extends(old(src).log(), final(src).log()),
            valid_draws(self.int_value(), 5, draws_added(old(src).log(), final(src).log())),
            r.int_value() == signed_total(self.int_value(), draws_added(old(src).log(), final(src).log())),
    ;

    /// Rolls, from `src`, `self` dice of 6 sides.
    fn d6(&self, src: &mut Source) -> (r: Self)
        requires
            self.can_roll(6),
        ensures
            extends(old(src).log(), final(src).log()),
            valid_draws(self.int_value(), 6, draws_added(old(src).log(), final(src).log())),
            r.int_value() == signed_total(self.int_value(), draws_added(old(src).log(), final(src).log())),
    ;

    /// Rolls, from `src`, `self` dice of 8 sides.
    fn d8(&self, src: &mut Source) -> (r: Self)
        requires
            self.can_roll(8),
        ensures
            extends(old(src).log(), final(src).log()),
            valid_draws(self.int_value(), 8, draws_added(old(src).log(), final(src).log())),
            r.int_value() == signed_total(self.int_value(), draws_added(old(src).log(), final(src).log())),
    ;

    /// Rolls, from `src`, `self` dice of 10 sides.
    fn d10(&self, src: &mut Source) -> (r: Self)
        requires
            self.can_roll(10),
        ensures
            extends(old(src).log(), final(src).log()),
            valid_draws(self.int_value(), 10, draws_added(old(src).log(), final(src).log())),
            r.int_value() == signed_total(self.int_value(), draws_added(old(src).log(), final(src).log())),
    ;

    /// Rolls, from `src`, `self` dice of 12 sides.
    fn d12(&self, src: &mut Source) -> (r: Self)
        requires
            self.can_roll(12),
        ensures
            extends(old(src).log(), final(src).log()),
            valid_draws(self.int_value(), 12, draws_added(old(src).log(), final(src).log())),
            r.int_value() == signed_total(self.int_value(), draws_added(old(src).log(), final(src).log())),
    ;

    /// Rolls, from `src`, `self` dice of 20 sides.
    fn d20(&self, src: &mut Source) -> (r: Self)
        requires
            self.can_roll(20),
        ensures
            extends(old(src).log(), final(src).log()),
            valid_draws(self.int_value(), 20, draws_added(old(src).log(), final(src).log())),
            r.int_value() == signed_total(self.int_value(), draws_added(old(src).log(), final(src).log())),
    ;

    /// Rolls, from `src`, `self` dice of 100 sides.
    fn d100(&self, src: &mut Source) -> (r: Self)
        requires
            self.can_roll(100),
        ensures
            extends(old(src).log(), final(src).log()),
            valid_draws(self.int_value(), 100, draws_added(old(src).log(), final(src).log())),
            r.int_value() == signed_total(self.int_value(), draws_added(old(src).log(), final(src).log())),
    ;

    /// Makes a roll-under check against `self` as the threshold: `Some(of)`
    /// when three six-sided dice drawn from `src` total at most `self`, else `None`.
    fn chance(&self, src: &mut Source, of: i32) -> (r: Option<i32>)
        ensures
            extends(old(src).log(), final(src).log()),
            valid_draws(3, 6, draws_added(old(src).log(), final(src).log())),
            r == under_outcome(sum_of(draws_added(old(src).log(), final(src).log())), self.int_value(), of),
            r == None::<i32> || r == Some(of),
            self.int_value() >= 18 ==> r == Some(of),
            self.int_value() < 3 ==> r == None::<i32>,
    ;
}

impl DiceExt for i32 {
    open spec fn can_roll(&self, sides: int) -> bool {
        roll_fits(*self as int, sides)
    }

    fn d(&self, src: &mut Source, sides: usize) -> (r: Self) {
        roll(src, *self, sides)
    }

    fn d2(&self, src: &mut Source) -> (r: Self) {
        roll(src, *self, 2)
    }

    fn d3(&self, src: &mut Source) -> (r: Self) {
        roll(src, *self, 3)
    }

    fn d4(&self, src: &mut Source) -> (r: Self) {
        roll(src, *self, 4)
    }

    fn d5(&self, src: &mut Source) -> (r: Self) {
        roll(src, *self, 5)
    }

    fn d6(&self, src: &mut Source) -> (r: Self) {
        roll(src, *self, 6)
    }

    fn d8(&self, src: &mut Source) -> (r: Self) {
        roll(src, *self, 8)
    }

    fn d10(&self, src: &mut Source) -> (r: Self) {
        roll(src, *self, 10)
    }

    fn d12(&self, src: &mut Source) -> (r: Self) {
        roll(src, *self, 12)
    }

    fn d20(&self, src: &mut Source) -> (r: Self) {
        roll(src, *self, 20)
    }

    fn d100(&self, src: &mut Source) -> (r: Self) {
        roll(src, *self, 100)
    }

    fn chance(&self, src: &mut Source, of: i32) -> (r: Option<i32>) {
        chance(src, *self, of)
    }
}

} // verus!
