//! The random source: the thread-local generator of the `rand` crate.
//!
//! Nothing in this module is proved. Each item states what the rest of the
//! crate takes on trust about `rand`.

use rand::rngs::ThreadRng;
use rand::Rng;
use vstd::prelude::*;

verus! {

/// `rand::rngs::ThreadRng`, a handle to the generator of the current
/// thread. Its state is opaque here.
#[verifier::external_type_specification]
#[verifier::external_body]
pub struct ExThreadRng(ThreadRng);

/// `rand::thread_rng` hands out the generator of the current thread. No
/// claim is made about the handle.
pub assume_specification[ rand::thread_rng ]() -> (rng: ThreadRng)
;

/// Draws an index below `bound` with `Rng::gen_range(0..bound)`.
///
/// `gen_range` panics on an empty range, so `bound` must be positive. The
/// sample lies in the range; which index comes out is left open.
#[verifier::external_body]
pub(crate) fn index_below(rng: &mut ThreadRng, bound: usize) -> (index: usize)
    requires
        bound > 0,
    ensures
        index < bound,
{
    rng.gen_range(0..bound)
}

} // verus!
