use vstd::prelude::*;
use rand::{Rng, SeedableRng, XorShiftRng};

verus! {

#[verifier::external_type_specification]
#[verifier::external_body]
pub struct ExXorShiftRng(XorShiftRng);

/// Relies on rand's `SeedableRng::from_seed` for `XorShiftRng`: a generator
/// whose stream depends on the four seed words alone; it panics on an
/// all-zero seed, which `requires` leaves out.
#[verifier::external_body]
pub(crate) fn seeded_generator(a: u32, b: u32, c: u32, d: u32) -> (res: XorShiftRng)
    requires
        !(a == 0 && b == 0 && c == 0 && d == 0),
{
    XorShiftRng::from_seed([a, b, c, d])
}

/// Relies on rand's `Rng::gen_range(0usize, 256)` on an `XorShiftRng`: the
/// next integer of the stream below 256, which advances the generator.
#[verifier::external_body]
pub(crate) fn draw_byte(rng: &mut XorShiftRng) -> (res: u8) {
    rng.gen_range(0usize, 256) as u8
}

} // verus!
