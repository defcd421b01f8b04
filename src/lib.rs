//! Integer arithmetic for a browser-hosted calculator: the Fibonacci
//! sequence over `u64`, wrapping modulo 2^64 as native integers do.
mod fibonacci;

pub use fibonacci::{
    fib, fib_exact, fib_wrapped, lemma_fib_recurrence, lemma_fib_wrapping_recurrence, u64_range,
};
