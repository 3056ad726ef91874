//! The random source. Nothing here is proved: each item states what the
//! `rand` crate documents of the function it stands for.

use rand::rngs::ThreadRng;
use rand::Rng;
use vstd::prelude::*;

verus! {

/// `rand::rngs::ThreadRng`, the generator that each thread owns. Its state is
/// hidden.
#[verifier::external_type_specification]
#[verifier::external_body]
pub struct ExThreadRng(ThreadRng);

/// `rand::thread_rng` hands out the calling thread's generator. Nothing is
/// claimed of it. Where the operating system gives the generator no seed,
/// the call panics; no argument decides that, so no `requires` can leave it
/// out.
pub assume_specification[ rand::thread_rng ]() -> (rng: ThreadRng)
;

/// `Rng::gen_range` on the half-open range `low..high`: the value drawn lies
/// in the range. Which value it is depends on chance, so nothing more is
/// claimed. The call panics on an empty range, which `requires` leaves out.
#[verifier::external_body]
pub(crate) fn sample_range(rng: &mut ThreadRng, low: usize, high: usize) -> (drawn: usize)
    requires
        low < high,
    ensures
        low <= drawn < high,
{
    rng.gen_range(low..high)
}

} // verus!
