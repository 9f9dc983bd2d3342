//! Trusted boundary to `bracket_random`'s dice roller.
//!
//! Strata and chunk generation draw their randomness from
//! `bracket_random::prelude::RandomNumberGenerator`. The declarations here
//! give those calls contracts the rest of the library is verified against.

use vstd::prelude::*;

verus! {

#[verifier::external_type_specification]
#[verifier::external_body]
pub struct ExRandomNumberGenerator(bracket_random::prelude::RandomNumberGenerator);

/// The stream of d100 rolls that a generator seeded with `seed` produces.
/// `bracket_random` seeds a xorshift generator, so the stream is a function
/// of the seed alone.
pub uninterp spec fn d100_stream(seed: u64, count: nat) -> Seq<u32>;

/// Relies on `RandomNumberGenerator::seeded` and `roll_dice`: seeded from a
/// fixed seed the generator is deterministic, and each `roll_dice(1, 100)`
/// yields a value in `1..=100`.
#[verifier::external_body]
pub(crate) fn d100_sequence(seed: u64, count: usize) -> (r: Vec<u32>)
    ensures
        r@ == d100_stream(seed, count as nat),
        r@.len() == count,
        forall|i: int| 0 <= i < count ==> 1 <= #[trigger] r@[i] <= 100,
{
    let mut rng = bracket_random::prelude::RandomNumberGenerator::seeded(seed);
    let mut out: Vec<u32> = Vec::with_capacity(count);
    for _ in 0..count {
        out.push(rng.roll_dice(1, 100) as u32);
    }
    out
}

/// Relies on `RandomNumberGenerator::roll_dice`: the sum of `n` rolls of a
/// `die_type`-sided die lies in `n..=n * die_type`.
#[verifier::external_body]
pub(crate) fn roll_dice(rng: &mut bracket_random::prelude::RandomNumberGenerator, n: i32, die_type: i32) -> (r: i32)
    requires
        1 <= n,
        1 <= die_type,
        n * die_type <= i32::MAX - 1,
    ensures
        n <= r <= n * die_type,
{
    rng.roll_dice(n, die_type)
}

/// Relies on `RandomNumberGenerator::random_slice_entry`: `None` exactly on
/// an empty slice, otherwise some element of the slice. The length bound
/// keeps the call's internal cast to `i32` from wrapping, on which the
/// underlying ranged draw panics.
#[verifier::external_body]
pub(crate) fn random_slice_entry_usize(
    rng: &mut bracket_random::prelude::RandomNumberGenerator,
    slice: &Vec<usize>,
) -> (r: Option<usize>)
    requires
        slice@.len() < i32::MAX as usize,
    ensures
        r is None <==> slice@.len() == 0,
        r is Some ==> slice@.contains(r->0),
{
    rng.random_slice_entry(slice.as_slice()).copied()
}

} // verus!
