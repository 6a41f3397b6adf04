//! Pricing and accounting engine of a two-asset constant-product market maker.
//!
//! A [`pool::Pool`] holds two reserves and a supply of liquidity-provider shares. Deposits
//! ([`liquidity::add_liquidity`]), withdrawals ([`liquidity::remove_liquidity`]) and trades
//! ([`swap::swap`]) either commit a new pool state together with a record of what happened, or
//! are refused with the pool left unchanged. Moving tokens is left to the caller, which runs the
//! transfers that a record describes and keeps the new state only if all of them succeed.

pub mod math;
pub mod pool;
pub mod liquidity;
pub mod swap;
pub mod laws;
