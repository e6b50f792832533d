use microbench::prng::{
    marsaglia_advance, park_miller_advance, MARSAGLIA_SEED_W, MARSAGLIA_SEED_Z, PARK_MILLER_SEED,
};

#[test]
fn park_miller_first_states() {
    let mut state = PARK_MILLER_SEED;
    park_miller_advance(&mut state);
    assert_eq!(state, 32148486);
    park_miller_advance(&mut state);
    assert_eq!(state, 1356374572);
    park_miller_advance(&mut state);
    assert_eq!(state, 1075535276);
}

#[test]
fn park_miller_reduces_modulo_mersenne_prime() {
    let mut state = u32::MAX;
    park_miller_advance(&mut state);
    assert_eq!(state as u64, (u32::MAX as u64 * 48271) % 0x7fff_ffff);
    let mut zero = 0u32;
    park_miller_advance(&mut zero);
    assert_eq!(zero, 0);
    let mut one = 1u32;
    park_miller_advance(&mut one);
    assert_eq!(one, 48271);
}

#[test]
fn marsaglia_first_outputs() {
    let mut z = MARSAGLIA_SEED_Z;
    let mut w = MARSAGLIA_SEED_W;
    assert_eq!(marsaglia_advance(&mut z, &mut w), 2990301744);
    assert_eq!((z, w), (24621354, 17982000));
    assert_eq!(marsaglia_advance(&mut z, &mut w), 1722339346);
    assert_eq!((z, w), (1676692401, 452448274));
    assert_eq!(marsaglia_advance(&mut z, &mut w), 950996119);
    assert_eq!((z, w), (716373897, 958794903));
}

#[test]
fn marsaglia_largest_state() {
    let mut z = u32::MAX;
    let mut w = u32::MAX;
    let out = marsaglia_advance(&mut z, &mut w);
    assert_eq!(z, 36969 * 65535 + 65535);
    assert_eq!(w, 18000 * 65535 + 65535);
    assert_eq!(out, (z << 16).wrapping_add(w));
}
