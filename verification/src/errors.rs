//! The error taxonomy of the pool engine.
//!
//! Every failure is reported to the caller as a typed value; no operation
//! panics, logs, or retries.

use vstd::prelude::*;

verus! {

/// Why a pool operation was refused. Each operation's contract states
/// exactly which inputs produce which variant.
#[derive(Clone, Copy, PartialEq, Eq, Structural, Debug)]
pub enum PoolError {
    /// Invalid initialization parameters: a zero price, fee bounds out of
    /// order, or a maximum fee above 100%.
    ConfigurationError,
    /// A withdrawal requested more shares than are outstanding.
    InsufficientShares,
    /// A pro-rata withdrawal would return more than the pool holds
    /// (defensive check; unreachable under the pro-rata arithmetic).
    ReserveExhausted,
    /// A deposit would divide by a zero pool value while shares are
    /// outstanding.
    InsufficientPoolValue,
    /// A swap's projected reserve depletion would go negative.
    ArithmeticUnderflow,
    /// A swap's computed payout would exceed the available reserve
    /// (defensive check; unreachable under the fee arithmetic).
    InsufficientLiquidity,
    /// An intermediate value exceeds the representable range.
    ArithmeticOverflow,
}

} // verus!
