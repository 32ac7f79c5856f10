//! Random draws: an index drawn by the thread-local generator, together with
//! the bound it was drawn below.
//!
//! A `Draw` can only be made here, by a call to the generator (or as the empty
//! draw below 0), so a `Draw` with bound `n > 0` is a draw over all of `0..n`.
use vstd::prelude::*;

verus! {

/// An index drawn below `bound`.
pub struct Draw {
    index: usize,
    bound: usize,
}

impl Draw {
    /// The index that was drawn.
    pub closed spec fn index_spec(&self) -> usize {
        self.index
    }

    /// The bound the index was drawn below (the range handed to the
    /// generator is `0..bound`).
    pub closed spec fn bound_spec(&self) -> usize {
        self.bound
    }

    pub fn index(&self) -> (r: usize)
        ensures
            r == self.index_spec(),
    {
        self.index
    }
}

/// Calls `rand::thread_rng()` and its `gen_range(0..n)` and records `n` as the
/// draw's bound: the contract claims only that the index drawn lies in `0..n`
/// (for `n > 0`, where `gen_range` does not panic); which index comes out is
/// left to the generator.
#[verifier::external_body]
pub(crate) fn random_below(n: usize) -> (r: Draw)
    requires
        0 < n,
    ensures
        r.bound_spec() == n,
        r.index_spec() < n,
{
    Draw { index: rand::Rng::gen_range(&mut rand::thread_rng(), 0..n), bound: n }
}

/// The draw below 0: nothing to choose from, index 0.
pub(crate) fn no_draw() -> (r: Draw)
    ensures
        r.bound_spec() == 0,
        r.index_spec() == 0,
{
    Draw { index: 0, bound: 0 }
}

} // verus!
