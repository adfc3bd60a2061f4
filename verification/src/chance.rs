//! The one place where the control layer asks for a random number.

use vstd::prelude::*;
use rand::Rng;

verus! {

/// Draws an integer between `low` and `high`, both included.
///
/// Trusted: the body calls `rand::Rng::gen_range` with the inclusive range
/// `low..=high` on the generator that `rand::thread_rng` hands out. The
/// contract claims only what `gen_range` documents: for a range that is not
/// empty it returns a value inside the range (an empty range makes it
/// panic, hence the precondition). Which value is not stated, and two draws
/// from one range may differ. `thread_rng` panics if the system cannot seed
/// the generator on its first use in a thread; no argument causes or
/// prevents that.
#[verifier::external_body]
pub(crate) fn uniform(low: i32, high: i32) -> (drawn: i32)
    requires
        low <= high,
    ensures
        low <= drawn <= high,
{
    rand::thread_rng().gen_range(low..=high)
}

} // verus!
