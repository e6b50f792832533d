use microbench::benchmark_sieve_of_eratosthenes;

fn odd_primes_by_trial_division() -> u32 {
    let mut count = 0;
    let mut n: u32 = 3;
    while n <= 2049 {
        let mut prime = true;
        let mut d: u32 = 2;
        while d * d <= n {
            if n % d == 0 {
                prime = false;
            }
            d += 1;
        }
        if prime {
            count += 1;
        }
        n += 2;
    }
    count
}

#[test]
fn sieve_without_passes() {
    assert_eq!(benchmark_sieve_of_eratosthenes(0), 0);
}

#[test]
fn sieve_one_pass() {
    assert_eq!(benchmark_sieve_of_eratosthenes(1), 308);
}

#[test]
fn sieve_counts_the_odd_primes_up_to_2049() {
    assert_eq!(benchmark_sieve_of_eratosthenes(1), odd_primes_by_trial_division());
}

#[test]
fn sieve_recounts_each_pass() {
    assert_eq!(benchmark_sieve_of_eratosthenes(2), 308);
    assert_eq!(benchmark_sieve_of_eratosthenes(100), 308);
}

#[test]
fn sieve_is_repeatable() {
    assert_eq!(benchmark_sieve_of_eratosthenes(3), benchmark_sieve_of_eratosthenes(3));
}
