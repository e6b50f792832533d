//! Naive doubly recursive Fibonacci numbers, reduced modulo 2^32.

use vstd::prelude::*;

verus! {

/// The Fibonacci sequence that starts `1, 1, 2, 3, 5, ..`.
pub open spec fn fib(n: nat) -> nat
    decreases n,
{
    if n <= 1 {
        1
    } else {
        fib((n - 1) as nat) + fib((n - 2) as nat)
    }
}

/// The sequence never decreases.
pub proof fn lemma_fib_monotonic(m: nat, n: nat)
    requires
        m <= n,
    ensures
        1 <= fib(m) <= fib(n),
    decreases n,
{
    if m < n {
        lemma_fib_monotonic(m, (n - 1) as nat);
        if n >= 2 {
            lemma_fib_monotonic(0, (n - 2) as nat);
        }
    } else if m >= 2 {
        lemma_fib_monotonic(0, (m - 1) as nat);
        lemma_fib_monotonic(0, (m - 2) as nat);
    }
}

/// `fib(46)` is the last member of the sequence below 2^32.
pub proof fn lemma_fib_46()
    ensures
        fib(46) == 2971215073,
        fib(47) == 4807526976,
{
    assert(fib(0) == 1);
    assert(fib(1) == 1);
    assert(fib(2) == 2);
    assert(fib(3) == 3);
    assert(fib(4) == 5);
    assert(fib(5) == 8);
    assert(fib(6) == 13);
    assert(fib(7) == 21);
    assert(fib(8) == 34);
    assert(fib(9) == 55);
    assert(fib(10) == 89);
    assert(fib(11) == 144);
    assert(fib(12) == 233);
    assert(fib(13) == 377);
    assert(fib(14) == 610);
    assert(fib(15) == 987);
    assert(fib(16) == 1597);
    assert(fib(17) == 2584);
    assert(fib(18) == 4181);
    assert(fib(19) == 6765);
    assert(fib(20) == 10946);
    assert(fib(21) == 17711);
    assert(fib(22) == 28657);
    assert(fib(23) == 46368);
    assert(fib(24) == 75025);
    assert(fib(25) == 121393);
    assert(fib(26) == 196418);
    assert(fib(27) == 317811);
    assert(fib(28) == 514229);
    assert(fib(29) == 832040);
    assert(fib(30) == 1346269);
    assert(fib(31) == 2178309);
    assert(fib(32) == 3524578);
    assert(fib(33) == 5702887);
    assert(fib(34) == 9227465);
    assert(fib(35) == 14930352);
    assert(fib(36) == 24157817);
    assert(fib(37) == 39088169);
    assert(fib(38) == 63245986);
    assert(fib(39) == 102334155);
    assert(fib(40) == 165580141);
    assert(fib(41) == 267914296);
    assert(fib(42) == 433494437);
    assert(fib(43) == 701408733);
    assert(fib(44) == 1134903170);
    assert(fib(45) == 1836311903);
    assert(fib(46) == 2971215073);
}

/// Up to `fib(46)` the sequence fits in 32 bits, so nothing wraps.
pub proof fn lemma_fib_fits(n: nat)
    requires
        n <= 46,
    ensures
        fib(n) < 0x1_0000_0000,
{
    lemma_fib_46();
    lemma_fib_monotonic(n, 46);
}

/// Computes `fib(number)` by plain double recursion, with 32-bit wrapping
/// addition. The call tree is the workload: nothing is memoised.
pub fn benchmark_fibonacci(number: u32) -> (result: u32)
    ensures
        result as nat == fib(number as nat) % 0x1_0000_0000,
        number <= 1 ==> result == 1,
        number <= 46 ==> result == fib(number as nat),
    decreases number,
{
    proof {
        if number <= 46 {
            lemma_fib_fits(number as nat);
        }
    }
    if number <= 1 {
        return 1;
    }
    let left: u32 = benchmark_fibonacci(number - 1);
    let right: u32 = benchmark_fibonacci(number - 2);
    left.wrapping_add(right)
}

} // verus!
