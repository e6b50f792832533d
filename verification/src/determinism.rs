//! Every benchmark is a function of its arguments alone.
//!
//! The contract of each entry point names one value for each argument, so
//! two runs on the same arguments cannot differ. The lemmas below say so
//! for each entry point: any two results that its contract admits are equal.

use vstd::prelude::*;
use crate::fibonacci::fib;
use crate::radix::{generated, report, sorted};
use crate::seahash::{digest, pattern, seed};
use crate::sieve::odd_primes;

verus! {

/// Two results of `benchmark_fibonacci` for one argument are equal.
pub proof fn lemma_fibonacci_determined(number: u32, first: u32, second: u32)
    requires
        first as nat == fib(number as nat) % 0x1_0000_0000,
        second as nat == fib(number as nat) % 0x1_0000_0000,
    ensures
        first == second,
{
}

/// Two results of `benchmark_sieve_of_eratosthenes` for one argument are
/// equal, and all positive arguments give the same result.
pub proof fn lemma_sieve_determined(iterations: u32, first: u32, again: u32, second: u32)
    requires
        iterations == 0 ==> first == 0,
        iterations > 0 ==> first == odd_primes(1024),
        again == 0 ==> second == 0,
        again > 0 ==> second == odd_primes(1024),
    ensures
        iterations == again ==> first == second,
        iterations > 0 && again > 0 ==> first == second,
{
}

/// Two results of `benchmark_arcfour` for one argument are equal.
pub proof fn lemma_arcfour_determined(iterations: u32, first: i32, second: i32)
    requires
        iterations == 0 ==> first == 0 && second == 0,
        iterations > 0 ==> first == 10 && second == 10,
    ensures
        first == second,
{
}

/// Two results of `benchmark_seahash` for one argument are equal, and all
/// positive arguments give the same digest.
pub proof fn lemma_seahash_determined(iterations: u32, first: u64, again: u32, second: u64)
    requires
        iterations == 0 ==> first == 0,
        iterations > 0 ==> first == digest(pattern(), seed()),
        again == 0 ==> second == 0,
        again > 0 ==> second == digest(pattern(), seed()),
    ensures
        iterations == again ==> first == second,
        iterations > 0 && again > 0 ==> first == second,
{
}

/// Two results of `benchmark_radix_main` for one argument are equal, head
/// and report, and the report is the same for all positive arguments.
pub proof fn lemma_radix_determined(
    iterations: u32,
    first: (i32, Seq<u8>),
    again: u32,
    second: (i32, Seq<u8>),
)
    requires
        iterations == 0 ==> first.0 == 0 && first.1 == Seq::<u8>::empty(),
        iterations > 0 ==> first.0 == sorted(generated((128 * (iterations - 1)) as nat))[0],
        iterations > 0 ==> first.1 == report(generated(0)),
        again == 0 ==> second.0 == 0 && second.1 == Seq::<u8>::empty(),
        again > 0 ==> second.0 == sorted(generated((128 * (again - 1)) as nat))[0],
        again > 0 ==> second.1 == report(generated(0)),
    ensures
        iterations == again ==> first == second,
        iterations > 0 && again > 0 ==> first.1 == second.1,
{
}

} // verus!
