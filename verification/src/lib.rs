//! Deterministic single-threaded micro-benchmarks on fixed-width integers.
//!
//! Every benchmark is a pure function of its arguments. Each module states
//! the mathematical meaning of its benchmark as spec functions, and the
//! executable code is proved to compute exactly that: naive Fibonacci
//! numbers, a prime sieve, the ARCFOUR key schedule and keystream, the
//! SeaHash digest of a pattern buffer, and a radix pass over pseudo-random
//! numbers. The integer generators that drive the floating-point
//! simulations built on this library are here as well.

pub mod arcfour;
pub mod determinism;
pub mod fibonacci;
pub mod prime_table;
pub mod prng;
pub mod radix;
pub mod seahash;
pub mod sieve;

pub use arcfour::{
    benchmark_arcfour, benchmark_arcfour_generate_stream, benchmark_arcfour_key_setup,
    benchmark_arcfour_main,
};
pub use fibonacci::benchmark_fibonacci;
pub use radix::{
    benchmark_radix, benchmark_radix_find_largest, benchmark_radix_main, benchmark_radix_random,
    benchmark_radix_sort,
};
pub use seahash::{
    benchmark_seahash, benchmark_seahash_compute, benchmark_seahash_diffuse,
    benchmark_seahash_main, benchmark_seahash_read,
};
pub use sieve::benchmark_sieve_of_eratosthenes;
