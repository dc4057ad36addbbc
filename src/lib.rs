//! Population count (Hamming weight) of 32-bit words: a catalog of algorithms,
//! each proved to count the one bits of its argument, and the verified pieces of
//! a benchmark harness around them.
//!
//! - `bits`: the count as a spec function, and the lemmas that tie it to bit
//!   operations.
//! - `algorithms`, `tables`: the catalog's algorithms.
//! - `catalog`: the ordered catalog, with names and iteration divisors.
//! - `prng`: the deterministic generator of the benchmark's block of words.
//! - `driver`: the block driver that folds an algorithm over the block.
//! - `validate`: the self-test table and the filter over the catalog.
//! - `runner`: the argument and the per-algorithm run plan.

pub mod algorithms;
pub mod bits;
pub mod catalog;
pub mod driver;
pub mod prng;
pub mod runner;
pub mod tables;
pub mod validate;
