//! Pricing engine of a weighted multi-asset pool: 256-bit integers, 18-decimal
//! fixed-point arithmetic, natural logarithm and exponential, and the quotes
//! for swaps and liquidity changes that are built on them.
//!
//! `math` holds the arithmetic, `state` the pool and the quotes, and
//! `instructions` what each instruction of the pool decides from a snapshot
//! of the accounts it is given. Nothing here reads or writes an account:
//! the caller hands in plain values and carries out what comes back.

pub mod error;
pub mod instructions;
pub mod math;
pub mod state;
