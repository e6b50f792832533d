//! SeaHash digest of a fixed 128 KiB pattern buffer.
//!
//! The hash keeps four 64-bit lanes. Every 32-byte block is read as four
//! little-endian words, one per lane; each lane is xored with its word and
//! then diffused. The lanes are finally folded together with the buffer
//! length and diffused once more.

use vstd::prelude::*;

verus! {

/// Number of bytes in the hashed buffer.
pub const BUFFER_LENGTH: usize = 131072;

/// Number of bytes that one round absorbs.
pub const BLOCK_SIZE: usize = 32;

/// Multiplier of the diffusion step.
pub const DIFFUSE_MULTIPLIER: u64 = 0x6EED0E9DA4D94A4F;

/// Initial value of the first lane.
pub const SEED_A: u64 = 0x16F11FE89B0D677C;

/// Initial value of the second lane.
pub const SEED_B: u64 = 0xB480A793D8E6C86C;

/// Initial value of the third lane.
pub const SEED_C: u64 = 0x6FE2E5AAF078EBC9;

/// Initial value of the fourth lane.
pub const SEED_D: u64 = 0x14F994A4C5259381;

/// The four lanes of the hash state.
pub struct Lanes {
    pub a: u64,
    pub b: u64,
    pub c: u64,
    pub d: u64,
}

/// The bit mixer: multiply, xor with a copy shifted right by 32 plus the
/// top four bits of the product, multiply again. Products wrap at 64 bits.
pub open spec fn diffuse(value: u64) -> u64 {
    let product: u64 = value.wrapping_mul(DIFFUSE_MULTIPLIER);
    let mixed: u64 = product ^ ((product >> 32) >> (product >> 60));
    mixed.wrapping_mul(DIFFUSE_MULTIPLIER)
}

/// The number whose little-endian representation is the eight bytes of
/// `bytes` that start at `at`.
pub open spec fn le_word(bytes: Seq<u8>, at: int) -> int {
    bytes[at] + bytes[at + 1] * 0x100 + bytes[at + 2] * 0x1_0000 + bytes[at + 3] * 0x100_0000
        + bytes[at + 4] * 0x1_0000_0000 + bytes[at + 5] * 0x100_0000_0000 + bytes[at + 6]
        * 0x1_0000_0000_0000 + bytes[at + 7] * 0x100_0000_0000_0000
}

/// The lanes after the first `blocks` blocks of `bytes` were absorbed,
/// starting from `seed`.
pub open spec fn absorb(bytes: Seq<u8>, blocks: nat, seed: Lanes) -> Lanes
    decreases blocks,
{
    if blocks == 0 {
        seed
    } else {
        let before = absorb(bytes, (blocks - 1) as nat, seed);
        let at = (blocks - 1) * 32;
        Lanes {
            a: diffuse(before.a ^ (le_word(bytes, at) as u64)),
            b: diffuse(before.b ^ (le_word(bytes, at + 8) as u64)),
            c: diffuse(before.c ^ (le_word(bytes, at + 16) as u64)),
            d: diffuse(before.d ^ (le_word(bytes, at + 24) as u64)),
        }
    }
}

/// Folds the four lanes and the length of the input into the digest.
pub open spec fn finish(lanes: Lanes, length: u64) -> u64 {
    diffuse(((lanes.a ^ lanes.b) ^ (lanes.c ^ lanes.d)) ^ length)
}

/// The digest of a buffer of `BUFFER_LENGTH` bytes, which is a whole number
/// of blocks.
pub open spec fn digest(bytes: Seq<u8>, seed: Lanes) -> u64 {
    finish(absorb(bytes, 4096, seed), 131072)
}

/// The hashed pattern: byte `i` holds `i mod 256`.
pub open spec fn pattern() -> Seq<u8> {
    Seq::new(131072, |i: int| (i % 256) as u8)
}

/// The lanes that every digest of the benchmark starts from.
pub open spec fn seed() -> Lanes {
    Lanes { a: SEED_A, b: SEED_B, c: SEED_C, d: SEED_D }
}

/// Mixes the bits of `value`.
pub fn benchmark_seahash_diffuse(value: u64) -> (result: u64)
    ensures
        result == diffuse(value),
{
    let product: u64 = value.wrapping_mul(DIFFUSE_MULTIPLIER);
    let amount: u64 = product >> 60;
    assert(product >> 60 < 64) by (bit_vector);
    let mixed: u64 = product ^ ((product >> 32) >> amount);
    mixed.wrapping_mul(DIFFUSE_MULTIPLIER)
}

/// Reads the eight bytes at `i` as a little-endian word.
pub fn benchmark_seahash_read(buffer: &[u8; BUFFER_LENGTH], i: usize) -> (result: u64)
    requires
        i + 8 <= BUFFER_LENGTH,
    ensures
        result == le_word(buffer@, i as int),
{
    let b0: u64 = buffer[i] as u64;
    let b1: u64 = buffer[i + 1] as u64;
    let b2: u64 = buffer[i + 2] as u64;
    let b3: u64 = buffer[i + 3] as u64;
    let b4: u64 = buffer[i + 4] as u64;
    let b5: u64 = buffer[i + 5] as u64;
    let b6: u64 = buffer[i + 6] as u64;
    let b7: u64 = buffer[i + 7] as u64;
    assert(b0 < 256 && b1 < 256 && b2 < 256 && b3 < 256 && b4 < 256 && b5 < 256 && b6 < 256 && b7
        < 256 ==> (b0 | b1 << 8 | b2 << 16 | b3 << 24 | b4 << 32 | b5 << 40 | b6 << 48 | b7 << 56)
        == b0 + b1 * 0x100 + b2 * 0x1_0000 + b3 * 0x100_0000 + b4 * 0x1_0000_0000 + b5
        * 0x100_0000_0000 + b6 * 0x1_0000_0000_0000 + b7 * 0x100_0000_0000_0000) by (bit_vector);
    b0 | b1 << 8 | b2 << 16 | b3 << 24 | b4 << 32 | b5 << 40 | b6 << 48 | b7 << 56
}

/// Hashes `buffer`, starting from the lanes `a`, `b`, `c`, `d`.
pub fn benchmark_seahash_compute(buffer: [u8; BUFFER_LENGTH], a: u64, b: u64, c: u64, d: u64) -> (result: u64)
    ensures
        result == digest(buffer@, (Lanes { a, b, c, d })),
{
    let ghost start = Lanes { a, b, c, d };
    let mut a: u64 = a;
    let mut b: u64 = b;
    let mut c: u64 = c;
    let mut d: u64 = d;
    let end: usize = BUFFER_LENGTH - BUFFER_LENGTH % BLOCK_SIZE;

    let mut i: usize = 0;
    let ghost mut blocks: nat = 0;
    while i < end
        invariant
            end == BUFFER_LENGTH,
            i <= end,
            i == blocks * 32,
            (Lanes { a, b, c, d }) == absorb(buffer@, blocks, start),
        decreases end - i,
    {
        let ghost before = Lanes { a, b, c, d };
        let word_a: u64 = benchmark_seahash_read(&buffer, i);
        let word_b: u64 = benchmark_seahash_read(&buffer, i + 8);
        let word_c: u64 = benchmark_seahash_read(&buffer, i + 16);
        let word_d: u64 = benchmark_seahash_read(&buffer, i + 24);

        a = benchmark_seahash_diffuse(a ^ word_a);
        b = benchmark_seahash_diffuse(b ^ word_b);
        c = benchmark_seahash_diffuse(c ^ word_c);
        d = benchmark_seahash_diffuse(d ^ word_d);

        proof {
            assert(absorb(buffer@, (blocks + 1) as nat, start) == (Lanes {
                a: diffuse(before.a ^ (le_word(buffer@, i as int) as u64)),
                b: diffuse(before.b ^ (le_word(buffer@, i + 8) as u64)),
                c: diffuse(before.c ^ (le_word(buffer@, i + 16) as u64)),
                d: diffuse(before.d ^ (le_word(buffer@, i + 24) as u64)),
            }));
            blocks = blocks + 1;
        }
        i += BLOCK_SIZE;
    }

    // A buffer that is not a whole number of blocks leaves a tail of up to
    // 31 bytes. BUFFER_LENGTH is a multiple of BLOCK_SIZE, so none is left.
    let excessive: u64 = (BUFFER_LENGTH - end) as u64;
    if excessive > 0 {
        a = a ^ benchmark_seahash_read(&buffer, i);
        if excessive > 8 {
            b = b ^ benchmark_seahash_read(&buffer, i);
            if excessive > 16 {
                c = c ^ benchmark_seahash_read(&buffer, i);
                if excessive > 24 {
                    d = d ^ benchmark_seahash_read(&buffer, i);
                    d = benchmark_seahash_diffuse(d);
                }
                c = benchmark_seahash_diffuse(c);
            }
            b = benchmark_seahash_diffuse(b);
        }
        a = benchmark_seahash_diffuse(a);
    }

    a = a ^ b;
    c = c ^ d;
    a = a ^ c;
    a = a ^ (BUFFER_LENGTH as u64);

    benchmark_seahash_diffuse(a)
}

/// Fills the pattern buffer and hashes it `iterations` times. Returns the
/// digest of the last run, or 0 when nothing was run.
pub fn benchmark_seahash_main(iterations: u32) -> (result: u64)
    ensures
        iterations == 0 ==> result == 0,
        iterations > 0 ==> result == digest(pattern(), seed()),
{
    let mut buffer: [u8; BUFFER_LENGTH] = [0; BUFFER_LENGTH];

    let mut i: usize = 0;
    while i < BUFFER_LENGTH
        invariant
            i <= BUFFER_LENGTH,
            forall|k: int| 0 <= k < i ==> buffer@[k] == (k % 256) as u8,
        decreases BUFFER_LENGTH - i,
    {
        buffer[i] = (i % 256) as u8;
        i += 1;
    }

    let mut hash: u64 = 0;
    let mut round: u32 = 0;
    while round < iterations
        invariant
            round <= iterations,
            buffer@ == pattern(),
            round == 0 ==> hash == 0,
            round > 0 ==> hash == digest(pattern(), seed()),
        decreases iterations - round,
    {
        hash = benchmark_seahash_compute(buffer, SEED_A, SEED_B, SEED_C, SEED_D);
        round += 1;
    }

    hash
}

/// The SeaHash benchmark: the digest of the pattern buffer, computed
/// `iterations` times over.
pub fn benchmark_seahash(iterations: u32) -> (result: u64)
    ensures
        iterations == 0 ==> result == 0,
        iterations > 0 ==> result == digest(pattern(), seed()),
{
    benchmark_seahash_main(iterations)
}

/// Eight bytes make a number below 2^64: a word fits in a lane.
pub proof fn lemma_le_word_fits(bytes: Seq<u8>, at: int)
    requires
        0 <= at,
        at + 8 <= bytes.len(),
    ensures
        0 <= le_word(bytes, at) <= u64::MAX,
{
}

} // verus!
