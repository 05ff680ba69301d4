//! The uniform random source, with a log of the values drawn from it.
use rand::Rng;
use vstd::prelude::*;

verus! {

/// A source of uniform integer samples, backed by the thread-local generator.
/// It keeps, in proofs only, a log of every value drawn from it so far.
pub struct Source {
    drawn: Ghost<Seq<i32>>,
}

/// The values drawn between two states of a source's log.
pub open spec fn draws_added(before: Seq<i32>, after: Seq<i32>) -> Seq<i32> {
    after.skip(before.len() as int)
}

/// `after` keeps `before` as its prefix: a log only grows.
pub open spec fn extends(before: Seq<i32>, after: Seq<i32>) -> bool {
    &&& before.len() <= after.len()
    &&& after.take(before.len() as int) == before
}

impl Source {
    /// The values drawn from this source so far, oldest first.
    pub closed spec fn log(&self) -> Seq<i32> {
        self.drawn@
    }

    /// A source with nothing drawn yet.
    pub fn new() -> (s: Source)
        ensures
            s.log() == Seq::<i32>::empty(),
    {
        Source { drawn: Ghost(Seq::empty()) }
    }

    /// Relies on `rand::thread_rng` and `rand::Rng::gen_range` over `lo..=hi`:
    /// a sample from the closed range, which must not be empty (else it
    /// panics). The sample is appended to the log.
    #[verifier::external_body]
    pub(crate) fn draw(&mut self, lo: i32, hi: i32) -> (r: i32)
        requires
            lo <= hi,
        ensures
            lo <= r <= hi,
            final(self).log() == old(self).log().push(r),
    {
        rand::thread_rng().gen_range(lo..=hi)
    }
}

} // verus!
