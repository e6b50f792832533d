//! Sieve of Eratosthenes over the odd numbers from 3 to 2049.
//!
//! Entry `b` of the flag array stands for the odd number `2 * b + 3`. A walk
//! over the entries finds the primes in increasing order: an entry that is
//! still set when the walk reaches it stands for a prime, and the entries of
//! its odd multiples are then cleared.

use vstd::prelude::*;
use vstd::arithmetic::div_mod::{
    lemma_fundamental_div_mod,
    lemma_mod_multiples_basic,
    lemma_mod_multiples_vanish,
    lemma_small_mod,
};
use crate::prime_table::lemma_odd_primes_total;

verus! {

/// Number of entries in the flag array.
pub const SIZE: usize = 1024;

/// `d` divides `n`.
pub open spec fn divides(d: int, n: int) -> bool {
    n % d == 0
}

/// `n` is a prime number.
#[verifier::opaque]
pub open spec fn is_prime(n: int) -> bool {
    &&& n >= 2
    &&& forall|d: int| 2 <= d < n ==> !#[trigger] divides(d, n)
}

/// The odd number that entry `b` stands for.
pub open spec fn odd_number(b: int) -> int {
    2 * b + 3
}

/// How many of the first `bound` entries stand for a prime.
pub open spec fn odd_primes(bound: nat) -> nat
    decreases bound,
{
    if bound == 0 {
        0
    } else {
        odd_primes((bound - 1) as nat) + if is_prime(odd_number(bound - 1)) {
            1nat
        } else {
            0nat
        }
    }
}

/// Entry `c` is cleared when the multiples of entry `b` are: it lies a
/// positive multiple of `odd_number(b)` entries after `b`.
pub open spec fn hits(b: int, c: int) -> bool {
    c > b && divides(odd_number(b), c - b)
}

/// Entry `c` is cleared by one of the primes that stand before entry `b`.
pub open spec fn marked(c: int, b: int) -> bool {
    exists|from: int| 0 <= from < b && is_prime(odd_number(from)) && #[trigger] hits(from, c)
}

/// There are at most `bound` primes among the first `bound` entries.
pub proof fn lemma_odd_primes_bound(bound: nat)
    ensures
        odd_primes(bound) <= bound,
    decreases bound,
{
    if bound > 0 {
        lemma_odd_primes_bound((bound - 1) as nat);
    }
}

/// An entry that entry `b` clears stands for a proper multiple of
/// `odd_number(b)`.
proof fn lemma_hit_divides(b: int, c: int)
    requires
        0 <= b,
        hits(b, c),
    ensures
        divides(odd_number(b), odd_number(c)),
        2 <= odd_number(b) < odd_number(c),
{
    let p = odd_number(b);
    let m = (c - b) / p;
    lemma_fundamental_div_mod(c - b, p);
    assert((1 + 2 * m) * p == odd_number(c)) by (nonlinear_arith)
        requires
            c - b == p * m,
            p == 2 * b + 3,
            odd_number(c) == 2 * c + 3,
    ;
    lemma_mod_multiples_basic(1 + 2 * m, p);
}

/// Every number from 2 on has a prime factor.
proof fn lemma_prime_factor(n: int) -> (q: int)
    requires
        n >= 2,
    ensures
        is_prime(q),
        divides(q, n),
        2 <= q <= n,
    decreases n,
{
    reveal(is_prime);
    if is_prime(n) {
        lemma_mod_multiples_basic(1, n);
        n
    } else {
        let d = choose|d: int| 2 <= d < n && #[trigger] divides(d, n);
        let q = lemma_prime_factor(d);
        lemma_fundamental_div_mod(d, q);
        lemma_fundamental_div_mod(n, d);
        let x = d / q;
        let y = n / d;
        assert((x * y) * q == n) by (nonlinear_arith)
            requires
                d == q * x,
                n == d * y,
        ;
        lemma_mod_multiples_basic(x * y, q);
        q
    }
}

/// If `q` divides `s` and `s` divides `n`, then `q` divides `n`.
proof fn lemma_divides_transitive(q: int, s: int, n: int)
    requires
        q > 0,
        s > 0,
        divides(q, s),
        divides(s, n),
    ensures
        divides(q, n),
{
    lemma_fundamental_div_mod(s, q);
    lemma_fundamental_div_mod(n, s);
    let x = s / q;
    let y = n / s;
    assert((x * y) * q == n) by (nonlinear_arith)
        requires
            s == q * x,
            n == s * y,
    ;
    lemma_mod_multiples_basic(x * y, q);
}

/// `p` is not a proper divisor of `n`.
pub open spec fn survives(n: int, p: int) -> bool {
    p >= n || n % p != 0
}

/// None of the odd primes below 47 is a proper divisor of `n`.
pub open spec fn no_small_factor(n: int) -> bool {
    &&& survives(n, 3)
    &&& survives(n, 5)
    &&& survives(n, 7)
    &&& survives(n, 11)
    &&& survives(n, 13)
    &&& survives(n, 17)
    &&& survives(n, 19)
    &&& survives(n, 23)
    &&& survives(n, 29)
    &&& survives(n, 31)
    &&& survives(n, 37)
    &&& survives(n, 41)
    &&& survives(n, 43)
}

/// Trial division: an odd number below 47 * 47 is prime if no odd prime
/// below 47 divides it properly.
pub proof fn lemma_trial_division(n: int)
    requires
        3 <= n < 2209,
        n % 2 == 1,
        no_small_factor(n),
    ensures
        is_prime(n),
{
    reveal(is_prime);
    if !is_prime(n) {
        let d = choose|d: int| 2 <= d < n && #[trigger] divides(d, n);
        let e = n / d;
        lemma_fundamental_div_mod(n, d);
        assert(2 <= e < n && e * d == n) by (nonlinear_arith)
            requires
                n == d * e,
                2 <= d < n,
        ;
        lemma_mod_multiples_basic(d, e);
        let s = if d <= e { d } else { e };
        assert(divides(s, n));
        assert(s * s <= n) by (nonlinear_arith)
            requires
                n == d * e,
                s == if d <= e { d } else { e },
                2 <= d,
                2 <= e,
        ;
        assert(s <= 46) by (nonlinear_arith)
            requires
                s * s <= n,
                n < 2209,
                s >= 2,
        ;
        let q = lemma_prime_factor(s);
        lemma_divides_transitive(q, s, n);
        if q > 2 && q % 2 == 0 {
            assert(divides(2, q));
        }
        if q > 3 && q % 3 == 0 {
            assert(divides(3, q));
        }
        if q > 5 && q % 5 == 0 {
            assert(divides(5, q));
        }
        assert(n % q == 0);
        assert(q < n);
    }
}

/// The entry of an odd number that is not prime is cleared by a prime that
/// stands before it.
proof fn lemma_composite_marked(b: int)
    requires
        0 <= b,
        !is_prime(odd_number(b)),
    ensures
        marked(b, b),
{
    reveal(is_prime);
    let n = odd_number(b);
    let q = lemma_prime_factor(n);
    assert(n % 2 == 1);
    assert(q != 2);
    assert(!divides(2, q));
    let from = (q - 3) / 2;
    assert(q == odd_number(from));
    let m = n / q;
    lemma_fundamental_div_mod(n, q);
    assert(m >= 2) by (nonlinear_arith)
        requires
            n == q * m,
            2 <= q < n,
    ;
    let t = m / 2;
    if m % 2 == 0 {
        assert(n == (q * t) * 2) by (nonlinear_arith)
            requires
                n == q * m,
                m == 2 * t,
        ;
        lemma_mod_multiples_basic(q * t, 2);
    }
    assert(m == 2 * t + 1);
    assert(t * q == b - from && b - from > 0) by (nonlinear_arith)
        requires
            n == q * m,
            m == 2 * t + 1,
            t >= 1,
            q >= 3,
            n == 2 * b + 3,
            q == 2 * from + 3,
    ;
    lemma_mod_multiples_basic(t, q);
    assert(hits(from, b));
}

/// The entry of an odd prime is cleared by no prime that stands before it.
proof fn lemma_prime_unmarked(b: int)
    requires
        0 <= b,
        is_prime(odd_number(b)),
    ensures
        !marked(b, b),
{
    reveal(is_prime);
    if marked(b, b) {
        let from = choose|from: int|
            0 <= from < b && is_prime(odd_number(from)) && #[trigger] hits(from, b);
        lemma_hit_divides(from, b);
        assert(divides(odd_number(from), odd_number(b)));
    }
}

/// An entry is still set when the walk reaches it exactly if it stands for
/// a prime.
pub proof fn lemma_unmarked_is_prime(b: int)
    requires
        0 <= b,
    ensures
        is_prime(odd_number(b)) <==> !marked(b, b),
{
    if is_prime(odd_number(b)) {
        lemma_prime_unmarked(b);
    } else {
        lemma_composite_marked(b);
    }
}

/// The entries cleared before entry `b + 1` are those cleared before
/// entry `b`, and those that `b` clears if it stands for a prime.
proof fn lemma_marked_step(c: int, b: int)
    requires
        0 <= b,
    ensures
        marked(c, b + 1) <==> marked(c, b) || (is_prime(odd_number(b)) && hits(b, c)),
{
    if marked(c, b + 1) {
        let from = choose|from: int|
            0 <= from < b + 1 && is_prime(odd_number(from)) && #[trigger] hits(from, c);
        if from < b {
            assert(marked(c, b));
        }
    }
    if marked(c, b) {
        let from = choose|from: int|
            0 <= from < b && is_prime(odd_number(from)) && #[trigger] hits(from, c);
        assert(0 <= from < b + 1 && is_prime(odd_number(from)) && hits(from, c));
    }
    if is_prime(odd_number(b)) && hits(b, c) {
        assert(0 <= b < b + 1 && is_prime(odd_number(b)) && hits(b, c));
    }
}

/// Strictly between two consecutive multiples of `p` lies no multiple of `p`.
proof fn lemma_between_multiples(a: int, r: int, p: int)
    requires
        0 < p,
        divides(p, a),
        0 <= r < p,
    ensures
        divides(p, a + r) <==> r == 0,
        divides(p, a + p),
{
    lemma_fundamental_div_mod(a, p);
    lemma_mod_multiples_vanish(a / p, r, p);
    lemma_small_mod(r as nat, p as nat);
    lemma_mod_multiples_vanish(a / p + 1, 0, p);
    assert(p * (a / p + 1) + 0 == a + p) by (nonlinear_arith)
        requires
            a == p * (a / p),
    ;
}

/// Counts the odd primes from 3 to 2049 with the sieve, `iterations` times
/// over. Returns the count of the last pass, or 0 when nothing was run.
pub fn benchmark_sieve_of_eratosthenes(iterations: u32) -> (count: u32)
    ensures
        iterations == 0 ==> count == 0,
        iterations > 0 ==> count == odd_primes(1024),
        iterations > 0 ==> count == 308,
{
    proof {
        lemma_odd_primes_total();
    }
    let mut flags: [u8; SIZE] = [0; SIZE];
    let mut count: u32 = 0;

    let mut a: u32 = 0;
    while a < iterations
        invariant
            a <= iterations,
            a == 0 ==> count == 0,
            a > 0 ==> count == odd_primes(1024),
        decreases iterations - a,
    {
        count = 0;

        let mut b: usize = 0;
        while b < SIZE
            invariant
                b <= 1024,
                forall|k: int| 0 <= k < b ==> flags@[k] == 1,
            decreases 1024 - b,
        {
            flags[b] = 1;
            b += 1;
        }

        b = 0;
        while b < SIZE
            invariant
                b <= 1024,
                count == odd_primes(b as nat),
                forall|x: int| b <= x < 1024 ==> (flags@[x] == 1 <==> !marked(x, b as int)),
            decreases 1024 - b,
        {
            proof {
                lemma_unmarked_is_prime(b as int);
                lemma_odd_primes_bound(b as nat);
            }
            if flags[b] == 1 {
                let prime: usize = b + b + 3;
                let mut c: usize = b + prime;
                proof {
                    lemma_mod_multiples_basic(0, prime as int);
                    lemma_between_multiples(0, 0, prime as int);
                    assert forall|x: int| b < x < c implies !hits(b as int, x) by {
                        lemma_between_multiples(0, x - b, prime as int);
                    }
                }
                while c < SIZE
                    invariant
                        b < 1024,
                        prime == odd_number(b as int),
                        hits(b as int, c as int),
                        forall|x: int|
                            b < x < 1024 ==> (flags@[x] == 1 <==> !(marked(x, b as int) || (x < c
                                && hits(b as int, x)))),
                    decreases 1024 + prime - c,
                {
                    proof {
                        assert forall|x: int| c < x < c + prime implies !hits(b as int, x) by {
                            lemma_between_multiples(c - b, x - c, prime as int);
                        }
                        lemma_between_multiples(c - b, 0, prime as int);
                    }
                    flags[c] = 0;
                    c += prime;
                }
                proof {
                    assert forall|x: int| b + 1 <= x < 1024 implies (flags@[x] == 1 <==> !marked(
                        x,
                        b + 1,
                    )) by {
                        lemma_marked_step(x, b as int);
                    }
                }
                count += 1;
            } else {
                proof {
                    assert forall|x: int| b + 1 <= x < 1024 implies (flags@[x] == 1 <==> !marked(
                        x,
                        b + 1,
                    )) by {
                        lemma_marked_step(x, b as int);
                    }
                }
            }
            b += 1;
        }

        a += 1;
    }

    count
}

} // verus!
