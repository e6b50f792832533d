use microbench::benchmark_fibonacci;

#[test]
fn fibonacci_of_zero_and_one() {
    assert_eq!(benchmark_fibonacci(0), 1);
    assert_eq!(benchmark_fibonacci(1), 1);
}

#[test]
fn fibonacci_of_ten() {
    assert_eq!(benchmark_fibonacci(10), 89);
}

#[test]
fn fibonacci_small_values() {
    let expected: [u32; 10] = [1, 1, 2, 3, 5, 8, 13, 21, 34, 55];
    for n in 0..10 {
        assert_eq!(benchmark_fibonacci(n as u32), expected[n]);
    }
}

#[test]
fn fibonacci_of_twenty_and_thirty() {
    assert_eq!(benchmark_fibonacci(20), 10946);
    assert_eq!(benchmark_fibonacci(30), 1346269);
}

#[test]
fn fibonacci_recurrence() {
    for n in 2..25u32 {
        assert_eq!(
            benchmark_fibonacci(n),
            benchmark_fibonacci(n - 1) + benchmark_fibonacci(n - 2)
        );
    }
}

#[test]
fn fibonacci_is_repeatable() {
    assert_eq!(benchmark_fibonacci(18), benchmark_fibonacci(18));
}

#[test]
fn fibonacci_of_thirty_five() {
    assert_eq!(benchmark_fibonacci(35), 14930352);
}
