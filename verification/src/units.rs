//! Unit-typed fixed-point quantities.
//!
//! Every quantity the pool handles is an unsigned integer scaled by
//! [`PRECISION`], and each semantic kind gets its own wrapper so that, say, a
//! share count cannot be passed where a staked-token balance is expected.

use vstd::prelude::*;

verus! {

/// Fixed-point scale: every quantity carries six decimal digits of fraction,
/// so a stored value of `1_000_000` means `1.0` in natural units.
pub const PRECISION: u64 = 1_000_000;

/// Exchange rate of staked token to underlying token, scaled by `PRECISION`.
#[derive(Clone, Copy, PartialEq, Eq, Structural, Debug)]
pub struct Price(pub u64);

/// A fee rate scaled by `PRECISION` (`1_000_000` is 100%, `1000` is 0.1%).
#[derive(Clone, Copy, PartialEq, Eq, Structural, Debug)]
pub struct Percentage(pub u64);

/// A balance of the underlying token, scaled by `PRECISION`.
#[derive(Clone, Copy, PartialEq, Eq, Structural, Debug)]
pub struct TokenAmount(pub u64);

/// A balance of the staked token, scaled by `PRECISION`.
#[derive(Clone, Copy, PartialEq, Eq, Structural, Debug)]
pub struct StakedTokenAmount(pub u64);

/// A quantity of pool shares, scaled by `PRECISION`.
#[derive(Clone, Copy, PartialEq, Eq, Structural, Debug)]
pub struct LpTokenAmount(pub u64);

} // verus!
