//! Accounting engine for a single-asset liquidity pool that exchanges a
//! staked representation of a token for the underlying token.
//!
//! All quantities are fixed-point unsigned integers scaled by
//! [`units::PRECISION`]. The pool supports three state-mutating operations —
//! deposit ([`pool::LpPool::add_liquidity`]), withdrawal
//! ([`pool::LpPool::remove_liquidity`]) and swap ([`pool::LpPool::swap`]) —
//! which share a liquidity-sensitive linear fee curve ([`fee`]).

pub mod errors;
pub mod fee;
pub mod pool;
pub mod units;
