//! ARCFOUR key schedule and keystream generation.
//!
//! The cipher state is a permutation of the bytes 0 to 255. The key schedule
//! shuffles the identity permutation under control of the key; the generator
//! then walks the state, swapping two entries for each byte it emits. All
//! index arithmetic is modulo 256.

use vstd::prelude::*;

verus! {

/// Number of bytes in the benchmark's key.
pub const KEY_LENGTH: usize = 5;

/// Number of keystream bytes that the benchmark generates.
pub const STREAM_LENGTH: usize = 10;

/// The state with entries `i` and `j` exchanged.
pub open spec fn swapped(state: Seq<u8>, i: int, j: int) -> Seq<u8> {
    state.update(i, state[j]).update(j, state[i])
}

/// The state that the key schedule starts from: entry `i` holds `i`.
pub open spec fn identity_state() -> Seq<u8> {
    Seq::new(256, |i: int| i as u8)
}

/// The state of the key schedule: the permutation and the index `j`.
pub struct Schedule {
    pub state: Seq<u8>,
    pub j: int,
}

/// The key schedule after `steps` swaps, over the first `length` bytes of `key`.
pub open spec fn key_schedule(key: Seq<u8>, length: int, steps: nat) -> Schedule
    decreases steps,
{
    if steps == 0 {
        Schedule { state: identity_state(), j: 0 }
    } else {
        let before = key_schedule(key, length, (steps - 1) as nat);
        let i = steps - 1;
        let j = (before.j + before.state[i] + key[i % length]) % 256;
        Schedule { state: swapped(before.state, i, j), j }
    }
}

/// The state of the generator: the permutation and the indices `i` and `j`.
pub struct Generator {
    pub state: Seq<u8>,
    pub i: int,
    pub j: int,
}

/// One step of the generator: advance `i`, add the entry at `i` to `j`,
/// exchange the two entries.
pub open spec fn generator_step(before: Generator) -> Generator {
    let i = (before.i + 1) % 256;
    let j = (before.j + before.state[i]) % 256;
    Generator { state: swapped(before.state, i, j), i, j }
}

/// The generator after `steps` steps from the state `start`.
pub open spec fn generator(start: Seq<u8>, steps: nat) -> Generator
    decreases steps,
{
    if steps == 0 {
        Generator { state: start, i: 0, j: 0 }
    } else {
        generator_step(generator(start, (steps - 1) as nat))
    }
}

/// The byte that the generator emits after a step.
pub open spec fn emitted(after: Generator) -> u8 {
    after.state[(after.state[after.i] + after.state[after.j]) % 256]
}

/// The first `length` bytes of the keystream from the state `start`.
pub open spec fn keystream(start: Seq<u8>, length: nat) -> Seq<u8> {
    Seq::new(length, |k: int| emitted(generator(start, (k + 1) as nat)))
}

/// Every byte value occurs in the state exactly once.
pub open spec fn is_permutation(state: Seq<u8>) -> bool {
    &&& state.len() == 256
    &&& forall|i: int, j: int| 0 <= i < j < 256 ==> state[i] != state[j]
}

/// Sets `state` to the key schedule of the first `length` bytes of `key`.
/// Returns the number of swaps made, which is 256.
pub fn benchmark_arcfour_key_setup(state: &mut [u8; 256], key: [u8; KEY_LENGTH], length: usize) -> (result: i32)
    requires
        0 < length <= KEY_LENGTH,
    ensures
        final(state)@ == key_schedule(key@, length as int, 256).state,
        is_permutation(final(state)@),
        result == 256,
{
    let mut i: usize = 0;
    while i < 256
        invariant
            i <= 256,
            forall|k: int| 0 <= k < i ==> state@[k] == k as u8,
        decreases 256 - i,
    {
        state[i] = i as u8;
        i += 1;
    }
    assert(state@ =~= identity_state());

    i = 0;
    let mut j: usize = 0;
    while i < 256
        invariant
            i <= 256,
            j < 256,
            0 < length <= KEY_LENGTH,
            (Schedule { state: state@, j: j as int }) == key_schedule(
                key@,
                length as int,
                i as nat,
            ),
        decreases 256 - i,
    {
        j = (j + state[i] as usize + key[i % length] as usize) % 256;
        let t: u8 = state[i];
        state[i] = state[j];
        state[j] = t;
        i += 1;
    }
    proof {
        lemma_key_schedule_is_permutation(key@, length as int, 256);
    }

    i as i32
}

/// Runs the generator for `length` steps and writes the bytes it emits to
/// the front of `buffer`. Returns the generator's final index `i`.
pub fn benchmark_arcfour_generate_stream(state: &mut [u8; 256], buffer: &mut [u8; 64], length: usize) -> (result: i32)
    requires
        length <= 64,
    ensures
        final(state)@ == generator(old(state)@, length as nat).state,
        is_permutation(old(state)@) ==> is_permutation(final(state)@),
        final(buffer)@.subrange(0, length as int) == keystream(old(state)@, length as nat),
        final(buffer)@.subrange(length as int, 64) == old(buffer)@.subrange(length as int, 64),
        result == length,
{
    let ghost start = state@;
    let ghost untouched = buffer@;
    let mut i: usize = 0;
    let mut j: usize = 0;
    let mut idx: usize = 0;
    while idx < length
        invariant
            idx <= length <= 64,
            i == idx,
            j < 256,
            (Generator { state: state@, i: i as int, j: j as int }) == generator(
                start,
                idx as nat,
            ),
            forall|k: int| 0 <= k < idx ==> buffer@[k] == emitted(generator(start, (k + 1) as nat)),
            forall|k: int| idx <= k < 64 ==> buffer@[k] == untouched[k],
        decreases length - idx,
    {
        i = (i + 1) % 256;
        j = (j + state[i] as usize) % 256;
        let t: u8 = state[i];
        state[i] = state[j];
        state[j] = t;
        buffer[idx] = state[(state[i] as usize + state[j] as usize) % 256];
        idx += 1;
    }
    proof {
        if is_permutation(start) {
            lemma_generator_keeps_permutation(start, length as nat);
        }
    }

    i as i32
}

/// Schedules the benchmark's key and generates `STREAM_LENGTH` keystream
/// bytes, `iterations` times. Returns the generator's final index: 10 after
/// any run, 0 when nothing was run.
pub fn benchmark_arcfour_main(iterations: u32) -> (result: i32)
    ensures
        iterations == 0 ==> result == 0,
        iterations > 0 ==> result == 10,
{
    let mut state: [u8; 256] = [0; 256];
    let mut buffer: [u8; 64] = [0; 64];
    let key: [u8; KEY_LENGTH] = [0xDB, 0xB7, 0x60, 0xD4, 0x56];

    let mut idx: i32 = 0;
    let mut i: u32 = 0;
    while i < iterations
        invariant
            i <= iterations,
            i == 0 ==> idx == 0,
            i > 0 ==> idx == 10,
        decreases iterations - i,
    {
        idx = benchmark_arcfour_key_setup(&mut state, key, KEY_LENGTH);
        idx = benchmark_arcfour_generate_stream(&mut state, &mut buffer, STREAM_LENGTH);
        i += 1;
    }

    idx
}

/// The ARCFOUR benchmark: key schedule and ten keystream bytes,
/// `iterations` times over.
pub fn benchmark_arcfour(iterations: u32) -> (result: i32)
    ensures
        iterations == 0 ==> result == 0,
        iterations > 0 ==> result == 10,
{
    benchmark_arcfour_main(iterations)
}

/// Exchanging two entries of a permutation gives a permutation.
pub proof fn lemma_swap_keeps_permutation(state: Seq<u8>, i: int, j: int)
    requires
        is_permutation(state),
        0 <= i < 256,
        0 <= j < 256,
    ensures
        is_permutation(swapped(state, i, j)),
{
    let after = swapped(state, i, j);
    assert forall|x: int, y: int| 0 <= x < y < 256 implies after[x] != after[y] by {
        let from_x = if x == i { j } else if x == j { i } else { x };
        let from_y = if y == i { j } else if y == j { i } else { y };
        assert(after[x] == state[from_x] && after[y] == state[from_y]);
    }
}

/// The key schedule holds a permutation of the bytes 0 to 255 after any
/// number of its 256 swaps, whatever the key.
pub proof fn lemma_key_schedule_is_permutation(key: Seq<u8>, length: int, steps: nat)
    requires
        steps <= 256,
    ensures
        is_permutation(key_schedule(key, length, steps).state),
        0 <= key_schedule(key, length, steps).j < 256,
    decreases steps,
{
    if steps > 0 {
        lemma_key_schedule_is_permutation(key, length, (steps - 1) as nat);
        let before = key_schedule(key, length, (steps - 1) as nat);
        let j = (before.j + before.state[steps - 1] + key[(steps - 1) % length]) % 256;
        lemma_swap_keeps_permutation(before.state, steps - 1, j);
    }
}

/// The generator keeps the state a permutation, and its indices below 256.
pub proof fn lemma_generator_keeps_permutation(start: Seq<u8>, steps: nat)
    requires
        is_permutation(start),
    ensures
        is_permutation(generator(start, steps).state),
        0 <= generator(start, steps).i < 256,
        0 <= generator(start, steps).j < 256,
    decreases steps,
{
    if steps > 0 {
        lemma_generator_keeps_permutation(start, (steps - 1) as nat);
        let before = generator(start, (steps - 1) as nat);
        let i = (before.i + 1) % 256;
        let j = (before.j + before.state[i]) % 256;
        lemma_swap_keeps_permutation(before.state, i, j);
    }
}

} // verus!
