//! The liquidity-sensitive linear fee curve shared by all swaps.
//!
//! While the projected post-trade reserve stays at or above the pool's
//! liquidity target the minimum fee applies; below the target the fee rises
//! linearly, reaching the maximum fee as the projected reserve approaches
//! zero. This makes the fee a deterrent against draining the pool below its
//! target.

use vstd::arithmetic::div_mod::{lemma_div_is_ordered, lemma_div_pos_is_pos, lemma_multiply_divide_le};
use vstd::arithmetic::mul::{
    lemma_mul_inequality, lemma_mul_is_commutative, lemma_mul_nonnegative, lemma_mul_upper_bound,
};
use vstd::prelude::*;

use crate::units::{Percentage, TokenAmount, PRECISION};

verus! {

/// The fee rate (scaled by `PRECISION`) charged by a swap whose projected
/// post-trade underlying reserve is `amount_after`, under the given fee
/// bounds and liquidity target. All divisions truncate toward zero.
pub open spec fn spec_fee(min_fee: u64, max_fee: u64, liquidity_target: u64, amount_after: int) -> int {
    if amount_after >= liquidity_target {
        min_fee as int
    } else {
        max_fee - ((max_fee - min_fee) * amount_after) / (liquidity_target as int)
    }
}

/// The fee never leaves the configured bounds: for any projected reserve,
/// `min_fee <= fee <= max_fee`.
pub proof fn lemma_fee_bounds(min_fee: u64, max_fee: u64, liquidity_target: u64, amount_after: int)
    requires
        min_fee <= max_fee,
        0 <= amount_after,
    ensures
        min_fee <= spec_fee(min_fee, max_fee, liquidity_target, amount_after) <= max_fee,
{
    if amount_after < liquidity_target {
        let spread: int = max_fee - min_fee;
        let t: int = liquidity_target as int;
        lemma_mul_nonnegative(spread, amount_after);
        lemma_div_pos_is_pos(spread * amount_after, t);
        lemma_mul_inequality(amount_after, t, spread);
        lemma_mul_is_commutative(spread, amount_after);
        lemma_mul_is_commutative(t, spread);
        lemma_multiply_divide_le(spread * amount_after, t, spread);
    }
}

/// At or above the liquidity target the curve charges exactly the minimum
/// fee.
pub proof fn lemma_fee_min_at_or_above_target(
    min_fee: u64,
    max_fee: u64,
    liquidity_target: u64,
    amount_after: int,
)
    requires
        liquidity_target <= amount_after,
    ensures
        spec_fee(min_fee, max_fee, liquidity_target, amount_after) == min_fee,
{
}

/// For fixed fee bounds and liquidity target, the fee is non-increasing in
/// the projected reserve: a swap that leaves the pool better funded never
/// pays a higher fee.
pub proof fn lemma_fee_monotonic(
    min_fee: u64,
    max_fee: u64,
    liquidity_target: u64,
    lower_reserve: int,
    higher_reserve: int,
)
    requires
        min_fee <= max_fee,
        0 <= lower_reserve <= higher_reserve,
    ensures
        spec_fee(min_fee, max_fee, liquidity_target, higher_reserve)
            <= spec_fee(min_fee, max_fee, liquidity_target, lower_reserve),
{
    let spread: int = max_fee - min_fee;
    let t: int = liquidity_target as int;
    if higher_reserve >= t {
        lemma_fee_bounds(min_fee, max_fee, liquidity_target, lower_reserve);
    } else {
        lemma_mul_inequality(lower_reserve, higher_reserve, spread);
        lemma_mul_is_commutative(spread, lower_reserve);
        lemma_mul_is_commutative(spread, higher_reserve);
        lemma_div_is_ordered(spread * lower_reserve, spread * higher_reserve, t);
    }
}

/// Computes the fee charged by a swap whose projected post-trade underlying
/// reserve is `amount_after`.
pub fn compute_fee(
    min_fee: Percentage,
    max_fee: Percentage,
    liquidity_target: TokenAmount,
    amount_after: TokenAmount,
) -> (f: Percentage)
    requires
        min_fee.0 <= max_fee.0,
    ensures
        f.0 == spec_fee(min_fee.0, max_fee.0, liquidity_target.0, amount_after.0 as int),
        min_fee.0 <= f.0 <= max_fee.0,
{
    if amount_after.0 >= liquidity_target.0 {
        min_fee
    } else {
        let spread: u64 = max_fee.0 - min_fee.0;
        proof {
            lemma_mul_upper_bound(spread as int, u64::MAX as int, amount_after.0 as int, u64::MAX as int);
            lemma_fee_bounds(min_fee.0, max_fee.0, liquidity_target.0, amount_after.0 as int);
        }
        let scaled: u128 = (spread as u128) * (amount_after.0 as u128);
        let discount: u128 = scaled / (liquidity_target.0 as u128);
        Percentage(max_fee.0 - (discount as u64))
    }
}

} // verus!
