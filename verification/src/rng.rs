//! The randomness the board seeder draws on, taken from the `rand` crate.

use vstd::prelude::*;

verus! {

/// `rand`'s standard generator. Verus sees a generator as an opaque
/// value: nothing is assumed of its state or of the stream it produces.
#[verifier::external_type_specification]
#[verifier::external_body]
pub struct ExStdRng(rand::rngs::StdRng);

/// Relies on rand::Rng::gen_range on the range 0..bound: it samples the
/// given range, which is non-empty because bound is positive, so the
/// draw lies strictly below bound. Nothing else is assumed of the draw.
#[verifier::external_body]
pub(crate) fn random_below(rng: &mut rand::rngs::StdRng, bound: u32) -> (r: u32)
    requires
        bound >= 1,
    ensures
        r < bound,
{
    rand::Rng::gen_range(rng, 0..bound)
}

} // verus!
