//! Constant-product liquidity pool: the arithmetic that prices deposits,
//! withdrawals and swaps, and the state transitions of each pool instruction.
//!
//! Token transfers, mints and burns, account loading and the clock are done by
//! the program around this library; every function here works on plain values.

pub mod error;
pub mod math;
pub mod instructions;
pub mod laws;
pub mod state;
