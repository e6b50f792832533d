use microbench::radix::{
    benchmark_radix, benchmark_radix_find_largest, benchmark_radix_main, benchmark_radix_random,
    benchmark_radix_sort, push_decimal, push_report_line,
};

fn generated_round() -> [i32; 128] {
    [
        6250, 15156, 5543, 29895, 3866, 27930, 3448, 17814, 24028, 27162, 24033, 23788, 18308, 715, 32053, 28384,
        21987, 11974, 26835, 5763, 22994, 3227, 9482, 22004, 27431, 25061, 15667, 5694, 26809, 6968, 17315, 10111,
        30810, 19500, 20911, 16585, 1768, 12116, 1969, 55, 18479, 9803, 3320, 27353, 14092, 14750, 4063, 27846,
        5461, 6379, 17853, 22808, 27610, 6854, 27362, 27106, 2680, 15558, 17069, 16444, 2052, 9084, 5998, 25655,
        16973, 6788, 14970, 17648, 24113, 5234, 1064, 14455, 18307, 10968, 21455, 31716, 12566, 7762, 4040, 13136,
        5317, 22131, 9573, 27082, 13157, 25043, 2299, 4466, 5322, 30211, 13796, 852, 1995, 28574, 11890, 32652,
        8767, 21051, 31742, 11567, 16632, 18540, 12000, 6742, 2002, 9158, 24167, 15376, 24991, 23782, 10480, 28275,
        53, 4952, 13258, 29855, 23663, 3516, 11090, 30880, 13851, 14754, 17115, 2959, 5140, 11168, 13499, 9605,
    ]
}

fn sorted_round() -> [i32; 128] {
    [
        0, 0, 0, 0, 0, 0, 0, 0, 0, 0, 0, 0, 0, 0, 0, 0,
        6250, 0, 0, 0, 0, 0, 0, 0, 0, 0, 27431, 0, 0, 0, 0, 0,
        0, 0, 0, 0, 0, 0, 0, 0, 0, 0, 27162, 0, 0, 0, 0, 0,
        0, 0, 0, 0, 0, 0, 0, 0, 5543, 0, 0, 0, 0, 0, 0, 0,
        0, 0, 0, 0, 0, 17814, 0, 0, 0, 0, 0, 0, 0, 0, 0, 0,
        0, 0, 0, 29895, 0, 0, 0, 0, 0, 0, 0, 0, 0, 0, 0, 15156,
        0, 0, 0, 0, 0, 0, 0, 0, 21987, 0, 0, 0, 0, 0, 0, 0,
        21987, 0, 0, 0, 5543, 6250, 17814, 6250, 27431, 5543, 5543, 0, 6250, 17814, 27431, 27431,
    ]
}

fn report_of(pass: u32, array: &[i32; 128]) -> Vec<u8> {
    let mut text = String::new();
    for i in 0..128 {
        text.push_str(&format!("Loop {}, Index {} = {}\r\n", pass, i, array[i]));
    }
    text.into_bytes()
}

#[test]
fn random_first_outputs() {
    let mut state: u32 = 7525;
    assert_eq!(benchmark_radix_random(&mut state), 6250);
    assert_eq!(state, 4114034168);
    assert_eq!(benchmark_radix_random(&mut state), 15156);
    assert_eq!(state, 2388893291);
    assert_eq!(benchmark_radix_random(&mut state), 5543);
    assert_eq!(benchmark_radix_random(&mut state), 29895);
    assert_eq!(state, 3538538225);
}

#[test]
fn random_wraps_at_32_bits() {
    let mut state: u32 = u32::MAX;
    let value = benchmark_radix_random(&mut state);
    let expected: u32 = (((u32::MAX as u64) * 6253729 + 4396403) % (1u64 << 32)) as u32;
    assert_eq!(state, expected);
    assert_eq!(value, (expected % 32767) as i32);
}

#[test]
fn random_from_zero() {
    let mut state: u32 = 0;
    assert_eq!(benchmark_radix_random(&mut state), (4396403 % 32767) as i32);
    assert_eq!(state, 4396403);
}

#[test]
fn random_fills_the_first_round() {
    let mut state: u32 = 7525;
    let mut array = [0i32; 128];
    for b in 0..128 {
        array[b] = benchmark_radix_random(&mut state);
    }
    assert_eq!(array, generated_round());
    assert_eq!(state, 3679350501);
}

#[test]
fn find_largest_of_zeros() {
    assert_eq!(benchmark_radix_find_largest([0; 128]), 0);
}

#[test]
fn find_largest_never_below_minus_one() {
    assert_eq!(benchmark_radix_find_largest([-5; 128]), -1);
    assert_eq!(benchmark_radix_find_largest([i32::MIN; 128]), -1);
    assert_eq!(benchmark_radix_find_largest([-1; 128]), -1);
}

#[test]
fn find_largest_at_each_end() {
    let mut array = [3i32; 128];
    array[0] = 17;
    assert_eq!(benchmark_radix_find_largest(array), 17);
    array[127] = 40;
    assert_eq!(benchmark_radix_find_largest(array), 40);
    array[64] = i32::MAX;
    assert_eq!(benchmark_radix_find_largest(array), i32::MAX);
}

#[test]
fn find_largest_of_generated_round() {
    assert_eq!(benchmark_radix_find_largest(generated_round()), 32652);
}

#[test]
fn sort_generated_round() {
    let mut array = generated_round();
    let report = benchmark_radix_sort(&mut array, false);
    assert_eq!(array, sorted_round());
    assert!(report.is_empty());
}

#[test]
fn sort_all_zero_makes_no_pass() {
    let mut array = [0i32; 128];
    let report = benchmark_radix_sort(&mut array, true);
    assert_eq!(array, [0i32; 128]);
    assert!(report.is_empty());
}

#[test]
fn sort_equal_digits_share_one_slot() {
    let mut array = [9i32; 128];
    let report = benchmark_radix_sort(&mut array, true);
    let mut expected = [0i32; 128];
    expected[127] = 9;
    assert_eq!(array, expected);
    assert_eq!(report, report_of(1, &expected));
    assert_eq!(report.len(), 2834);
}

#[test]
fn sort_lowest_index_wins_a_slot() {
    let mut array = [0i32; 128];
    array[3] = 14;
    array[9] = 24;
    let mut swapped = [0i32; 128];
    swapped[3] = 24;
    swapped[9] = 14;
    benchmark_radix_sort(&mut array, false);
    benchmark_radix_sort(&mut swapped, false);
    let mut expected = [0i32; 128];
    expected[127] = 14;
    assert_eq!(array, expected);
    expected[127] = 24;
    assert_eq!(swapped, expected);
}

#[test]
fn sort_two_passes() {
    let mut array = [0i32; 128];
    array[0] = 5;
    array[1] = 3;
    array[2] = 12;
    array[3] = 7;
    let report = benchmark_radix_sort(&mut array, true);
    let first_pass: [i32; 128] = [
        0, 0, 0, 0, 0, 0, 0, 0, 0, 0, 0, 0, 0, 0, 0, 0,
        0, 0, 0, 0, 0, 0, 0, 0, 0, 0, 0, 0, 0, 0, 0, 0,
        0, 0, 0, 0, 0, 0, 0, 0, 0, 0, 0, 0, 0, 0, 0, 0,
        0, 0, 0, 0, 0, 0, 0, 0, 0, 0, 0, 0, 0, 0, 0, 0,
        0, 0, 0, 0, 0, 0, 0, 0, 0, 0, 0, 0, 0, 0, 0, 0,
        0, 0, 0, 0, 0, 0, 0, 0, 0, 0, 0, 0, 0, 0, 0, 0,
        0, 0, 0, 0, 0, 0, 0, 0, 0, 0, 0, 0, 0, 0, 0, 0,
        0, 0, 0, 0, 0, 0, 0, 0, 0, 0, 0, 0, 12, 3, 5, 7,
    ];
    let second_pass: [i32; 128] = [
        0, 0, 0, 0, 0, 0, 0, 0, 0, 0, 0, 0, 0, 0, 0, 0,
        0, 0, 0, 0, 0, 0, 0, 0, 0, 0, 0, 0, 0, 0, 0, 0,
        0, 0, 0, 0, 0, 0, 0, 0, 0, 0, 0, 0, 0, 0, 0, 0,
        0, 0, 0, 0, 0, 0, 0, 0, 0, 0, 0, 0, 0, 0, 0, 0,
        0, 0, 0, 0, 0, 0, 0, 0, 0, 0, 0, 0, 0, 0, 0, 0,
        0, 0, 0, 0, 0, 0, 0, 0, 0, 0, 0, 0, 0, 0, 0, 0,
        0, 0, 0, 0, 0, 0, 0, 0, 0, 0, 0, 0, 0, 0, 0, 0,
        0, 0, 0, 0, 0, 0, 0, 0, 0, 0, 0, 0, 12, 3, 0, 12,
    ];
    assert_eq!(array, second_pass);
    let mut expected = report_of(1, &first_pass);
    expected.extend_from_slice(&report_of(2, &second_pass));
    assert_eq!(report, expected);
    assert_eq!(report.len(), 5671);
}

#[test]
fn sort_multiples_of_37() {
    let mut array = [0i32; 128];
    for i in 0..128 {
        array[i] = ((i * 37) % 1000) as i32;
    }
    let report = benchmark_radix_sort(&mut array, false);
    let expected: [i32; 128] = [
        0, 0, 0, 0, 0, 0, 0, 0, 0, 0, 0, 0, 0, 0, 0, 0,
        0, 0, 0, 0, 0, 0, 0, 0, 0, 111, 0, 0, 0, 0, 0, 0,
        0, 0, 0, 0, 0, 0, 222, 0, 0, 0, 0, 0, 0, 0, 0, 0,
        0, 0, 333, 0, 0, 0, 0, 0, 0, 0, 0, 0, 0, 0, 0, 74,
        0, 0, 0, 0, 0, 0, 0, 0, 0, 0, 0, 0, 185, 0, 0, 0,
        0, 0, 0, 0, 0, 0, 0, 0, 296, 0, 0, 0, 0, 0, 0, 0,
        0, 0, 0, 0, 0, 37, 0, 0, 0, 0, 0, 0, 0, 0, 0, 0,
        0, 0, 0, 0, 0, 0, 0, 111, 111, 0, 333, 148, 259, 222, 185, 333,
    ];
    assert_eq!(array, expected);
    assert!(report.is_empty());
}

#[test]
fn sort_largest_value_in_range() {
    let mut array = [999_999_999i32; 128];
    let report = benchmark_radix_sort(&mut array, true);
    let mut expected = [0i32; 128];
    expected[127] = 999_999_999;
    assert_eq!(array, expected);
    assert_eq!(report.len(), 5684);
}

#[test]
fn sort_reports_only_two_passes() {
    let mut array = generated_round();
    let report = benchmark_radix_sort(&mut array, true);
    assert_eq!(array, sorted_round());
    assert_eq!(report.len(), 5761);
    let sum: u64 = report.iter().map(|b| *b as u64).sum();
    assert_eq!(sum, 366102);
    assert!(report.starts_with(b"Loop 1, Index 0 = 0\r\nLoop 1, Index 1 = 0\r\n"));
    assert!(report.ends_with(b"Loop 2, Index 126 = 21987\r\nLoop 2, Index 127 = 29895\r\n"));
    assert_eq!(report.iter().filter(|b| **b == b'\n').count(), 256);
}

#[test]
fn main_without_rounds() {
    let (head, report) = benchmark_radix_main(0);
    assert_eq!(head, 0);
    assert!(report.is_empty());
}

#[test]
fn main_one_round() {
    let (head, report) = benchmark_radix_main(1);
    assert_eq!(head, sorted_round()[0]);
    assert_eq!(head, 0);
    let mut array = generated_round();
    assert_eq!(report, benchmark_radix_sort(&mut array, true));
}

#[test]
fn main_reports_the_first_round_only() {
    let (_, once) = benchmark_radix_main(1);
    let (head, thrice) = benchmark_radix_main(3);
    assert_eq!(head, 0);
    assert_eq!(once, thrice);
    assert_eq!(thrice.len(), 5761);
}

#[test]
fn main_is_repeatable() {
    assert_eq!(benchmark_radix_main(2), benchmark_radix_main(2));
}

#[test]
fn radix_entry_point() {
    assert_eq!(benchmark_radix(0), 0);
    assert_eq!(benchmark_radix(1), 0);
    assert_eq!(benchmark_radix(10), 0);
}

#[test]
fn decimal_digits() {
    let mut out: Vec<u8> = Vec::new();
    push_decimal(&mut out, 0);
    assert_eq!(out, b"0");
    push_decimal(&mut out, 7);
    assert_eq!(out, b"07");
    push_decimal(&mut out, 10);
    assert_eq!(out, b"0710");
    push_decimal(&mut out, 4294967295);
    assert_eq!(out, b"07104294967295");
    assert_eq!(out, format!("{}{}{}{}", 0, 7, 10, u32::MAX).into_bytes());
}

#[test]
fn report_line_text() {
    let mut out: Vec<u8> = vec![b'>'];
    push_report_line(&mut out, 1, 0, 0);
    assert_eq!(out, b">Loop 1, Index 0 = 0\r\n");
    let mut line: Vec<u8> = Vec::new();
    push_report_line(&mut line, 2, 127, 29895);
    assert_eq!(line, b"Loop 2, Index 127 = 29895\r\n");
}
