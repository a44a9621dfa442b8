use rand::{Rng, SeedableRng};
use vstd::prelude::*;

verus! {

/// The xorshift generator of `rand`: its output sequence is fixed by its seed,
/// so workers seeded alike draw alike.
#[verifier::external_type_specification]
#[verifier::external_body]
pub struct ExXorShiftRng(rand::XorShiftRng);

/// Relies on `SeedableRng::from_seed` for `rand::XorShiftRng`, which panics
/// only on the all-zero seed.
#[verifier::external_body]
pub(crate) fn seeded_rng(a: u32, b: u32, c: u32, d: u32) -> (r: rand::XorShiftRng)
    requires
        a != 0 || b != 0 || c != 0 || d != 0,
{
    rand::XorShiftRng::from_seed([a, b, c, d])
}

/// Relies on `Rng::next_u32`: one word taken from the generator's sequence.
#[verifier::external_body]
pub(crate) fn next_word(rng: &mut rand::XorShiftRng) -> (r: u32) {
    rng.next_u32()
}

/// Relies on `Rng::gen_range`, which for integers returns a value in
/// `[low, high)` and panics when `low >= high`.
#[verifier::external_body]
pub(crate) fn draw_in(rng: &mut rand::XorShiftRng, low: usize, high: usize) -> (r: usize)
    requires
        low < high,
    ensures
        low <= r < high,
{
    rng.gen_range(low, high)
}

/// The seed of the generator that all workers share. Workers draw from it in
/// the same order, so the migration slots they choose line up without being
/// sent.
pub const SHARED_SEED: [u32; 4] = [1, 2, 3, 4];

/// A fresh generator from `SHARED_SEED`.
pub fn shared_rng() -> rand::XorShiftRng {
    seeded_rng(SHARED_SEED[0], SHARED_SEED[1], SHARED_SEED[2], SHARED_SEED[3])
}

/// A generator seeded with `seed`, or none for the all-zero seed, which the
/// xorshift generator cannot start from.
pub fn rng_from_seed(seed: [u32; 4]) -> (r: Option<rand::XorShiftRng>)
    ensures
        r is Some <==> (seed[0] != 0 || seed[1] != 0 || seed[2] != 0 || seed[3] != 0),
{
    if seed[0] != 0 || seed[1] != 0 || seed[2] != 0 || seed[3] != 0 {
        Some(seeded_rng(seed[0], seed[1], seed[2], seed[3]))
    } else {
        None
    }
}

} // verus!
