use microbench::arcfour::{KEY_LENGTH, STREAM_LENGTH};
use microbench::{
    benchmark_arcfour, benchmark_arcfour_generate_stream, benchmark_arcfour_key_setup,
    benchmark_arcfour_main,
};

const KEY: [u8; 5] = [0xDB, 0xB7, 0x60, 0xD4, 0x56];

#[test]
fn arcfour_without_rounds() {
    assert_eq!(benchmark_arcfour(0), 0);
    assert_eq!(benchmark_arcfour_main(0), 0);
}

#[test]
fn arcfour_one_round() {
    assert_eq!(benchmark_arcfour(1), 10);
    assert_eq!(benchmark_arcfour_main(1), 10);
}

#[test]
fn arcfour_many_rounds() {
    assert_eq!(benchmark_arcfour(7), 10);
    assert_eq!(benchmark_arcfour(1000), 10);
}

#[test]
fn arcfour_lengths() {
    assert_eq!(KEY_LENGTH, 5);
    assert_eq!(STREAM_LENGTH, 10);
}

#[test]
fn key_setup_returns_the_number_of_swaps() {
    let mut state = [0u8; 256];
    assert_eq!(benchmark_arcfour_key_setup(&mut state, KEY, 5), 256);
}

#[test]
fn key_setup_schedule() {
    let mut state = [7u8; 256];
    benchmark_arcfour_key_setup(&mut state, KEY, 5);
    assert_eq!(state[..8], [219, 147, 192, 52, 190, 8, 194, 228]);
    assert_eq!(state[255], 76);
}

#[test]
fn key_setup_ignores_the_old_state() {
    let mut first = [0u8; 256];
    let mut second = [0xFFu8; 256];
    benchmark_arcfour_key_setup(&mut first, KEY, 5);
    benchmark_arcfour_key_setup(&mut second, KEY, 5);
    assert_eq!(first, second);
}

#[test]
fn key_setup_gives_a_permutation() {
    let mut state = [0u8; 256];
    benchmark_arcfour_key_setup(&mut state, KEY, 5);
    let mut seen = [false; 256];
    for value in state {
        assert!(!seen[value as usize]);
        seen[value as usize] = true;
    }
}

#[test]
fn key_setup_uses_only_the_given_length() {
    let mut short = [0u8; 256];
    let mut other = [0u8; 256];
    benchmark_arcfour_key_setup(&mut short, KEY, 1);
    benchmark_arcfour_key_setup(&mut other, [0xDB, 1, 2, 3, 4], 1);
    assert_eq!(short, other);
    assert_eq!(short[..4], [219, 183, 148, 20]);
}

#[test]
fn keystream_of_the_benchmark_key() {
    let mut state = [0u8; 256];
    let mut buffer = [0u8; 64];
    benchmark_arcfour_key_setup(&mut state, KEY, 5);
    let index = benchmark_arcfour_generate_stream(&mut state, &mut buffer, 10);
    assert_eq!(index, 10);
    assert_eq!(buffer[..10], [0xA8, 0xEB, 0x1A, 0x66, 0x85, 0x25, 0x36, 0x10, 0x3B, 0xDC]);
}

#[test]
fn keystream_of_the_three_byte_key() {
    let mut state = [0u8; 256];
    let mut buffer = [0u8; 64];
    benchmark_arcfour_key_setup(&mut state, [0x4B, 0x65, 0x79, 0, 0], 3);
    benchmark_arcfour_generate_stream(&mut state, &mut buffer, 10);
    assert_eq!(buffer[..10], [0xEB, 0x9F, 0x77, 0x81, 0xB7, 0x34, 0xCA, 0x72, 0xA7, 0x19]);
}

#[test]
fn generate_stream_leaves_the_rest_of_the_buffer() {
    let mut state = [0u8; 256];
    let mut buffer = [0x5Au8; 64];
    benchmark_arcfour_key_setup(&mut state, KEY, 5);
    benchmark_arcfour_generate_stream(&mut state, &mut buffer, 10);
    assert_eq!(buffer[10..], [0x5Au8; 54]);
}

#[test]
fn generate_stream_of_length_zero() {
    let mut state = [0u8; 256];
    benchmark_arcfour_key_setup(&mut state, KEY, 5);
    let before = state;
    let mut buffer = [1u8; 64];
    assert_eq!(benchmark_arcfour_generate_stream(&mut state, &mut buffer, 0), 0);
    assert_eq!(state, before);
    assert_eq!(buffer, [1u8; 64]);
}

#[test]
fn generate_stream_fills_the_whole_buffer() {
    let mut state = [0u8; 256];
    let mut short = [0u8; 64];
    let mut full = [0u8; 64];
    benchmark_arcfour_key_setup(&mut state, KEY, 5);
    benchmark_arcfour_generate_stream(&mut state, &mut short, 10);
    benchmark_arcfour_key_setup(&mut state, KEY, 5);
    assert_eq!(benchmark_arcfour_generate_stream(&mut state, &mut full, 64), 64);
    assert_eq!(full[..10], short[..10]);
}

#[test]
fn generate_stream_keeps_a_permutation() {
    let mut state = [0u8; 256];
    let mut buffer = [0u8; 64];
    benchmark_arcfour_key_setup(&mut state, KEY, 5);
    benchmark_arcfour_generate_stream(&mut state, &mut buffer, 64);
    let mut seen = [false; 256];
    for value in state {
        assert!(!seen[value as usize]);
        seen[value as usize] = true;
    }
}

#[test]
fn arcfour_is_repeatable() {
    assert_eq!(benchmark_arcfour(2), benchmark_arcfour(2));
    let mut first = [0u8; 256];
    let mut second = [0u8; 256];
    let mut first_stream = [0u8; 64];
    let mut second_stream = [0u8; 64];
    benchmark_arcfour_key_setup(&mut first, KEY, 5);
    benchmark_arcfour_key_setup(&mut second, KEY, 5);
    benchmark_arcfour_generate_stream(&mut first, &mut first_stream, 10);
    benchmark_arcfour_generate_stream(&mut second, &mut second_stream, 10);
    assert_eq!(first, second);
    assert_eq!(first_stream, second_stream);
}
