//! The pool engine: owns all pool state and exposes the deposit, withdraw
//! and swap operations.

use vstd::arithmetic::div_mod::{
    lemma_div_by_multiple, lemma_div_is_ordered, lemma_div_multiples_vanish, lemma_div_of0,
    lemma_div_pos_is_pos, lemma_multiply_divide_le, lemma_remainder_lower,
};
use vstd::arithmetic::mul::{
    lemma_mul_basics, lemma_mul_inequality, lemma_mul_is_commutative,
    lemma_mul_is_distributive_add_other_way, lemma_mul_nonnegative, lemma_mul_upper_bound,
};
use vstd::prelude::*;

use crate::errors::PoolError;
use crate::fee::{compute_fee, spec_fee};
use crate::units::{LpTokenAmount, Percentage, Price, StakedTokenAmount, TokenAmount, PRECISION};

verus! {

/// Truncating division distributes over a sum of non-negative numerators
/// with at most the true quotient: `a / d + b / d <= (a + b) / d`.
proof fn lemma_div_sum_superadditive(a: int, b: int, d: int)
    requires
        0 <= a,
        0 <= b,
        0 < d,
    ensures
        a / d + b / d <= (a + b) / d,
{
    lemma_remainder_lower(a, d);
    lemma_remainder_lower(b, d);
    lemma_div_pos_is_pos(a, d);
    lemma_div_pos_is_pos(b, d);
    lemma_mul_is_distributive_add_other_way(d, a / d, b / d);
    lemma_div_is_ordered((a / d + b / d) * d, a + b, d);
    lemma_div_by_multiple(a / d + b / d, d);
}

/// A single-asset liquidity pool holding an underlying-token reserve, a
/// staked-token reserve and the outstanding pool-share supply, priced by a
/// fixed exchange rate and a liquidity-sensitive fee curve.
///
/// The pool is in the Empty state when `lp_token_amount` is zero and Active
/// otherwise; a deposit is the only Empty-to-Active transition and a full
/// withdrawal the only Active-to-Empty transition.
#[derive(Clone, Copy, Debug)]
pub struct LpPool {
    /// Exchange rate of staked token to underlying token.
    pub price: Price,
    /// Underlying-token reserve.
    pub token_amount: TokenAmount,
    /// Staked-token reserve.
    pub st_token_amount: StakedTokenAmount,
    /// Total outstanding pool shares.
    pub lp_token_amount: LpTokenAmount,
    /// Underlying reserve level above which the minimum fee applies.
    pub liquidity_target: TokenAmount,
    /// Fee charged while the reserve stays at or above the target.
    pub min_fee: Percentage,
    /// Fee approached as the reserve is drained toward zero.
    pub max_fee: Percentage,
}

impl LpPool {
    /// The configuration and state invariant that `init` establishes and
    /// every operation preserves: a positive price, ordered fee bounds no
    /// higher than 100%, and no underlying reserve left behind in the Empty
    /// state.
    pub open spec fn well_formed(self) -> bool {
        &&& 0 < self.price.0
        &&& self.min_fee.0 <= self.max_fee.0
        &&& self.max_fee.0 <= PRECISION
        &&& (self.lp_token_amount.0 == 0 ==> self.token_amount.0 == 0)
    }

    /// The pool's total value in underlying-token units: the underlying
    /// reserve plus the staked reserve converted at the current price,
    /// truncated toward zero.
    pub open spec fn spec_value(self) -> int {
        self.token_amount.0 + (self.st_token_amount.0 * self.price.0) / (PRECISION as int)
    }

    /// Shares per unit of pool value, scaled by `PRECISION` and truncated
    /// toward zero. Meaningful only while `spec_value` is positive.
    pub open spec fn spec_lp_ratio(self) -> int {
        (self.lp_token_amount.0 * PRECISION) / self.spec_value()
    }

    /// The shares minted by a deposit of `amount` into an Active pool:
    /// the existing share ratio applied to the deposit, truncated toward
    /// zero.
    pub open spec fn spec_minted(self, amount: u64) -> int {
        (self.spec_lp_ratio() * amount) / (PRECISION as int)
    }

    /// Creates a pool with zeroed reserves and supply. Accepts exactly the
    /// configurations the invariant allows: a positive price and fee bounds
    /// with `min_fee <= max_fee <= 100%`; anything else is refused with
    /// `ConfigurationError`.
    pub fn init(
        price: Price,
        min_fee: Percentage,
        max_fee: Percentage,
        liquidity_target: TokenAmount,
    ) -> (r: Result<LpPool, PoolError>)
        ensures
            r is Ok <==> (0 < price.0 && min_fee.0 <= max_fee.0 && max_fee.0 <= PRECISION),
            r is Err ==> r == Err::<LpPool, PoolError>(PoolError::ConfigurationError),
            r matches Ok(pool) ==> {
                &&& pool.well_formed()
                &&& pool.price == price
                &&& pool.min_fee == min_fee
                &&& pool.max_fee == max_fee
                &&& pool.liquidity_target == liquidity_target
                &&& pool.token_amount.0 == 0
                &&& pool.st_token_amount.0 == 0
                &&& pool.lp_token_amount.0 == 0
            },
    {
        if price.0 == 0 || min_fee.0 > max_fee.0 || max_fee.0 > PRECISION {
            return Err(PoolError::ConfigurationError);
        }
        Ok(LpPool {
            price,
            token_amount: TokenAmount(0),
            st_token_amount: StakedTokenAmount(0),
            lp_token_amount: LpTokenAmount(0),
            liquidity_target,
            min_fee,
            max_fee,
        })
    }

    /// Deposits `token_amount` of the underlying token and mints pool
    /// shares.
    ///
    /// A deposit into an Empty pool is accepted 1:1: the minted shares
    /// equal the deposit. Otherwise the deposit is valued at the existing
    /// share ratio, truncating toward zero. Fails with
    /// `InsufficientPoolValue` when shares are outstanding against a zero
    /// pool value, and with `ArithmeticOverflow` when the share ratio, the
    /// minted shares or an updated balance would not fit the base width;
    /// on any failure the pool is unchanged.
    pub fn add_liquidity(&mut self, token_amount: TokenAmount) -> (r: Result<
        LpTokenAmount,
        PoolError,
    >)
        requires
            old(self).well_formed(),
        ensures
            final(self).well_formed(),
            final(self).price == old(self).price,
            final(self).min_fee == old(self).min_fee,
            final(self).max_fee == old(self).max_fee,
            final(self).liquidity_target == old(self).liquidity_target,
            final(self).st_token_amount == old(self).st_token_amount,
            r is Err ==> *final(self) == *old(self),
            old(self).lp_token_amount.0 == 0 ==> (r matches Ok(minted)
                && minted.0 == token_amount.0
                && final(self).token_amount.0 == token_amount.0
                && final(self).lp_token_amount.0 == token_amount.0),
            old(self).lp_token_amount.0 > 0 ==> ({
                let minted: int = old(self).spec_minted(token_amount.0);
                if old(self).spec_value() == 0 {
                    r == Err::<LpTokenAmount, PoolError>(PoolError::InsufficientPoolValue)
                } else if old(self).spec_lp_ratio() > u64::MAX
                    || minted > u64::MAX
                    || old(self).token_amount.0 + token_amount.0 > u64::MAX
                    || old(self).lp_token_amount.0 + minted > u64::MAX {
                    r == Err::<LpTokenAmount, PoolError>(PoolError::ArithmeticOverflow)
                } else {
                    r matches Ok(m)
                        && m.0 == minted
                        && final(self).token_amount.0 == old(self).token_amount.0 + token_amount.0
                        && final(self).lp_token_amount.0 == old(self).lp_token_amount.0 + minted
                }
            }),
    {
        let amount: u64 = token_amount.0;
        if self.lp_token_amount.0 == 0 {
            self.token_amount = TokenAmount(self.token_amount.0 + amount);
            self.lp_token_amount = LpTokenAmount(self.lp_token_amount.0 + amount);
            Ok(LpTokenAmount(amount))
        } else {
            proof {
                lemma_mul_upper_bound(
                    self.st_token_amount.0 as int,
                    u64::MAX as int,
                    self.price.0 as int,
                    u64::MAX as int,
                );
                lemma_div_is_ordered(
                    self.st_token_amount.0 * self.price.0,
                    (u64::MAX as int) * (u64::MAX as int),
                    PRECISION as int,
                );
            }
            let scaled_st: u128 = (self.st_token_amount.0 as u128) * (self.price.0 as u128);
            let value: u128 = (self.token_amount.0 as u128) + scaled_st / (PRECISION as u128);
            if value == 0 {
                return Err(PoolError::InsufficientPoolValue);
            }
            proof {
                lemma_mul_upper_bound(
                    self.lp_token_amount.0 as int,
                    u64::MAX as int,
                    PRECISION as int,
                    PRECISION as int,
                );
            }
            let lp_ratio: u128 = ((self.lp_token_amount.0 as u128) * (PRECISION as u128)) / value;
            if lp_ratio > u64::MAX as u128 {
                return Err(PoolError::ArithmeticOverflow);
            }
            proof {
                lemma_mul_upper_bound(lp_ratio as int, u64::MAX as int, amount as int, u64::MAX as int);
            }
            let minted_wide: u128 = (lp_ratio * (amount as u128)) / (PRECISION as u128);
            if minted_wide > u64::MAX as u128 {
                return Err(PoolError::ArithmeticOverflow);
            }
            let minted: u64 = minted_wide as u64;
            if amount > u64::MAX - self.token_amount.0 {
                return Err(PoolError::ArithmeticOverflow);
            }
            if minted > u64::MAX - self.lp_token_amount.0 {
                return Err(PoolError::ArithmeticOverflow);
            }
            self.token_amount = TokenAmount(self.token_amount.0 + amount);
            self.lp_token_amount = LpTokenAmount(self.lp_token_amount.0 + minted);
            Ok(LpTokenAmount(minted))
        }
    }

    /// The withdrawer's pro-rata portion of a reserve: `shares` out of
    /// `supply` applied to `reserve`, truncated toward zero. Zero when no
    /// shares are outstanding.
    pub open spec fn spec_pro_rata(shares: u64, reserve: u64, supply: u64) -> int {
        if supply == 0 {
            0
        } else {
            (shares * reserve) / (supply as int)
        }
    }

    /// Burns `lp_token_amount` shares and returns the pro-rata portion of
    /// both reserves, each truncated toward zero under the same rule.
    ///
    /// Fails with `InsufficientShares` exactly when more shares are
    /// requested than are outstanding, leaving the pool unchanged; every
    /// other request succeeds. Withdrawing all outstanding shares returns
    /// the entire current reserves and leaves the pool Empty.
    pub fn remove_liquidity(&mut self, lp_token_amount: LpTokenAmount) -> (r: Result<
        (TokenAmount, StakedTokenAmount),
        PoolError,
    >)
        requires
            old(self).well_formed(),
        ensures
            final(self).well_formed(),
            final(self).price == old(self).price,
            final(self).min_fee == old(self).min_fee,
            final(self).max_fee == old(self).max_fee,
            final(self).liquidity_target == old(self).liquidity_target,
            r is Err <==> lp_token_amount.0 > old(self).lp_token_amount.0,
            r is Err ==> r == Err::<(TokenAmount, StakedTokenAmount), PoolError>(
                PoolError::InsufficientShares,
            ) && *final(self) == *old(self),
            lp_token_amount.0 <= old(self).lp_token_amount.0 ==> (r matches Ok(returned)
                && returned.0.0 == Self::spec_pro_rata(
                    lp_token_amount.0,
                    old(self).token_amount.0,
                    old(self).lp_token_amount.0,
                )
                && returned.1.0 == Self::spec_pro_rata(
                    lp_token_amount.0,
                    old(self).st_token_amount.0,
                    old(self).lp_token_amount.0,
                )
                && final(self).token_amount.0 == old(self).token_amount.0 - returned.0.0
                && final(self).st_token_amount.0 == old(self).st_token_amount.0 - returned.1.0
                && final(self).lp_token_amount.0 == old(self).lp_token_amount.0
                    - lp_token_amount.0),
            (r is Ok && old(self).lp_token_amount.0 > 0 && lp_token_amount.0 == old(
                self,
            ).lp_token_amount.0) ==> (r matches Ok(
                returned,
            )
                && returned.0.0 == old(self).token_amount.0
                && returned.1.0 == old(self).st_token_amount.0
                && final(self).token_amount.0 == 0
                && final(self).st_token_amount.0 == 0
                && final(self).lp_token_amount.0 == 0),
    {
        let shares: u64 = lp_token_amount.0;
        if shares > self.lp_token_amount.0 {
            return Err(PoolError::InsufficientShares);
        }
        if self.lp_token_amount.0 == 0 {
            return Ok((TokenAmount(0), StakedTokenAmount(0)));
        }
        let supply: u64 = self.lp_token_amount.0;
        proof {
            lemma_mul_upper_bound(shares as int, u64::MAX as int, self.token_amount.0 as int, u64::MAX as int);
            lemma_mul_upper_bound(
                shares as int,
                u64::MAX as int,
                self.st_token_amount.0 as int,
                u64::MAX as int,
            );
            lemma_mul_inequality(shares as int, supply as int, self.token_amount.0 as int);
            lemma_mul_inequality(shares as int, supply as int, self.st_token_amount.0 as int);
            lemma_mul_is_commutative(supply as int, self.token_amount.0 as int);
            lemma_mul_is_commutative(supply as int, self.st_token_amount.0 as int);
            lemma_multiply_divide_le(
                (shares as int) * (self.token_amount.0 as int),
                supply as int,
                self.token_amount.0 as int,
            );
            lemma_multiply_divide_le(
                (shares as int) * (self.st_token_amount.0 as int),
                supply as int,
                self.st_token_amount.0 as int,
            );
            if shares == supply {
                lemma_div_multiples_vanish(self.token_amount.0 as int, supply as int);
                lemma_div_multiples_vanish(self.st_token_amount.0 as int, supply as int);
            }
        }
        let token_return: u64 = (((shares as u128) * (self.token_amount.0 as u128))
            / (supply as u128)) as u64;
        let staked_return: u64 = (((shares as u128) * (self.st_token_amount.0 as u128))
            / (supply as u128)) as u64;
        if token_return > self.token_amount.0 {
            // Defensive check; pro-rata truncation keeps the return within the
            // reserve, so this branch is unreachable.
            return Err(PoolError::ReserveExhausted);
        }
        self.token_amount = TokenAmount(self.token_amount.0 - token_return);
        self.st_token_amount = StakedTokenAmount(self.st_token_amount.0 - staked_return);
        self.lp_token_amount = LpTokenAmount(self.lp_token_amount.0 - shares);
        Ok((TokenAmount(token_return), StakedTokenAmount(staked_return)))
    }

    /// The underlying-token value of `staked_in` at the pool's price,
    /// truncated toward zero.
    pub open spec fn spec_staked_value(self, staked_in: u64) -> int {
        (staked_in * self.price.0) / (PRECISION as int)
    }

    /// The projected post-trade underlying reserve of a swap of
    /// `staked_in`: the current reserve less the staked value. Negative
    /// when the swap would deplete the reserve.
    pub open spec fn spec_amount_after(self, staked_in: u64) -> int {
        self.token_amount.0 - self.spec_staked_value(staked_in)
    }

    /// The fee rate the curve charges a swap of `staked_in`.
    pub open spec fn spec_swap_fee(self, staked_in: u64) -> int {
        spec_fee(
            self.min_fee.0,
            self.max_fee.0,
            self.liquidity_target.0,
            self.spec_amount_after(staked_in),
        )
    }

    /// The underlying tokens a swap of `staked_in` pays out: the staked
    /// value with the fee applied multiplicatively, truncated toward zero.
    pub open spec fn spec_token_out(self, staked_in: u64) -> int {
        (self.spec_staked_value(staked_in) * (PRECISION - self.spec_swap_fee(staked_in))) / (
        PRECISION as int)
    }

    /// Swaps `staked_token_amount` of the staked token for underlying
    /// tokens at the pool's price, charging the fee the curve assigns to
    /// the projected post-trade reserve.
    ///
    /// Fails with `ArithmeticOverflow` when the staked value or the updated
    /// staked reserve would not fit the base width, and with
    /// `ArithmeticUnderflow` when the staked value exceeds the underlying
    /// reserve; on any failure the pool is unchanged. On success the
    /// charged fee lies within the configured bounds.
    pub fn swap(&mut self, staked_token_amount: StakedTokenAmount) -> (r: Result<
        TokenAmount,
        PoolError,
    >)
        requires
            old(self).well_formed(),
        ensures
            final(self).well_formed(),
            final(self).price == old(self).price,
            final(self).min_fee == old(self).min_fee,
            final(self).max_fee == old(self).max_fee,
            final(self).liquidity_target == old(self).liquidity_target,
            final(self).lp_token_amount == old(self).lp_token_amount,
            r is Err ==> *final(self) == *old(self),
            ({
                let staked_value: int = old(self).spec_staked_value(staked_token_amount.0);
                if staked_value > u64::MAX {
                    r == Err::<TokenAmount, PoolError>(PoolError::ArithmeticOverflow)
                } else if staked_value > old(self).token_amount.0 {
                    r == Err::<TokenAmount, PoolError>(PoolError::ArithmeticUnderflow)
                } else if old(self).st_token_amount.0 + staked_token_amount.0 > u64::MAX {
                    r == Err::<TokenAmount, PoolError>(PoolError::ArithmeticOverflow)
                } else {
                    r matches Ok(token_out)
                        && token_out.0 == old(self).spec_token_out(staked_token_amount.0)
                        && final(self).token_amount.0 == old(self).token_amount.0 - token_out.0
                        && final(self).st_token_amount.0 == old(self).st_token_amount.0
                            + staked_token_amount.0
                }
            }),
            r is Ok ==> old(self).min_fee.0 <= old(self).spec_swap_fee(staked_token_amount.0)
                <= old(self).max_fee.0,
            r is Ok ==> old(self).spec_value() <= final(self).spec_value(),
    {
        let staked_in: u64 = staked_token_amount.0;
        proof {
            lemma_mul_upper_bound(staked_in as int, u64::MAX as int, self.price.0 as int, u64::MAX as int);
        }
        let staked_value_wide: u128 = ((staked_in as u128) * (self.price.0 as u128)) / (
        PRECISION as u128);
        if staked_value_wide > u64::MAX as u128 {
            return Err(PoolError::ArithmeticOverflow);
        }
        let staked_value: u64 = staked_value_wide as u64;
        if staked_value > self.token_amount.0 {
            return Err(PoolError::ArithmeticUnderflow);
        }
        if staked_in > u64::MAX - self.st_token_amount.0 {
            return Err(PoolError::ArithmeticOverflow);
        }
        let amount_after: u64 = self.token_amount.0 - staked_value;
        let fee: Percentage = compute_fee(
            self.min_fee,
            self.max_fee,
            self.liquidity_target,
            TokenAmount(amount_after),
        );
        let kept_rate: u64 = PRECISION - fee.0;
        proof {
            lemma_mul_upper_bound(
                staked_value as int,
                u64::MAX as int,
                kept_rate as int,
                u64::MAX as int,
            );
            lemma_mul_inequality(kept_rate as int, PRECISION as int, staked_value as int);
            lemma_mul_is_commutative(staked_value as int, kept_rate as int);
            lemma_mul_is_commutative(PRECISION as int, staked_value as int);
            lemma_multiply_divide_le(
                (staked_value as int) * (kept_rate as int),
                PRECISION as int,
                staked_value as int,
            );
            lemma_mul_basics(kept_rate as int);
            lemma_div_of0(PRECISION as int);
        }
        let token_out: u64 = (((staked_value as u128) * (kept_rate as u128)) / (
        PRECISION as u128)) as u64;
        if token_out > self.token_amount.0 {
            // Defensive check; the payout never exceeds the staked value,
            // which the underflow guard has bounded by the reserve, so this
            // branch is unreachable.
            return Err(PoolError::InsufficientLiquidity);
        }
        proof {
            // Fees accrue to the remaining shareholders: the staked reserve
            // gains at least as much value as the underlying reserve pays out.
            let rate: int = self.price.0 as int;
            lemma_mul_is_distributive_add_other_way(
                rate,
                self.st_token_amount.0 as int,
                staked_in as int,
            );
            lemma_mul_nonnegative(self.st_token_amount.0 as int, rate);
            lemma_mul_nonnegative(staked_in as int, rate);
            lemma_div_sum_superadditive(
                (self.st_token_amount.0 as int) * rate,
                (staked_in as int) * rate,
                PRECISION as int,
            );
        }
        self.token_amount = TokenAmount(self.token_amount.0 - token_out);
        self.st_token_amount = StakedTokenAmount(self.st_token_amount.0 + staked_in);
        Ok(TokenAmount(token_out))
    }
}

} // verus!
