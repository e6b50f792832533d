//! Integer state of the two pseudo-random generators that feed the
//! floating-point simulations: the Park-Miller minimal standard generator
//! and a Marsaglia multiply-with-carry pair.

use vstd::prelude::*;

verus! {

/// Seed of the Park-Miller generator.
pub const PARK_MILLER_SEED: u32 = 666;

/// Seed of the first multiply-with-carry generator.
pub const MARSAGLIA_SEED_Z: u32 = 666;

/// Seed of the second multiply-with-carry generator.
pub const MARSAGLIA_SEED_W: u32 = 999;

/// The Park-Miller state that follows `state`: multiplied by 48271 and
/// reduced modulo 2^31 - 1.
pub open spec fn park_miller_next(state: u32) -> u32 {
    ((state * 48271) % 0x7fff_ffff) as u32
}

/// One multiply-with-carry step: the low half times `multiplier`, plus the
/// high half.
pub open spec fn carry_next(multiplier: int, state: u32) -> int {
    multiplier * (state % 0x1_0000) + state / 0x1_0000
}

/// The 32-bit number made of the low half of `z`, as its high half, plus
/// `w`, modulo 2^32.
pub open spec fn marsaglia_combined(z: u32, w: u32) -> u32 {
    (((z % 0x1_0000) * 0x1_0000 + w) % 0x1_0000_0000) as u32
}

/// Advances the Park-Miller generator by one step.
pub fn park_miller_advance(park_miller: &mut u32)
    ensures
        *final(park_miller) == park_miller_next(*old(park_miller)),
        *final(park_miller) < 0x7fff_ffff,
{
    let wide: u64 = (*park_miller as u64) * 48271;
    *park_miller = (wide % 0x7fff_ffff) as u32;
}

/// Advances both multiply-with-carry generators by one step and returns
/// their combined 32-bit output.
pub fn marsaglia_advance(marsaglia_z: &mut u32, marsaglia_w: &mut u32) -> (result: u32)
    ensures
        *final(marsaglia_z) == carry_next(36969, *old(marsaglia_z)),
        *final(marsaglia_w) == carry_next(18000, *old(marsaglia_w)),
        result == marsaglia_combined(*final(marsaglia_z), *final(marsaglia_w)),
{
    let z: u32 = *marsaglia_z;
    let w: u32 = *marsaglia_w;
    assert(z & 65535 == z % 0x1_0000 && z >> 16 == z / 0x1_0000) by (bit_vector);
    assert(w & 65535 == w % 0x1_0000 && w >> 16 == w / 0x1_0000) by (bit_vector);
    let next_z: u32 = 36969 * (z & 65535) + (z >> 16);
    let next_w: u32 = 18000 * (w & 65535) + (w >> 16);
    *marsaglia_z = next_z;
    *marsaglia_w = next_w;
    assert(next_z << 16 == (next_z % 0x1_0000) * 0x1_0000) by (bit_vector);
    (next_z << 16).wrapping_add(next_w)
}

} // verus!
