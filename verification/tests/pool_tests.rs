use lp_pool::errors::PoolError;
use lp_pool::fee::compute_fee;
use lp_pool::pool::LpPool;
use lp_pool::units::{LpTokenAmount, Percentage, Price, StakedTokenAmount, TokenAmount};

fn sample_pool() -> LpPool {
    LpPool::init(
        Price(1_500000),
        Percentage(1000),
        Percentage(90000),
        TokenAmount(90_000000),
    )
    .unwrap()
}

#[test]
fn test_lp_pool_initialization() {
    let pool = sample_pool();
    assert_eq!(pool.price.0, 1_500000);
    assert_eq!(pool.token_amount.0, 0);
    assert_eq!(pool.st_token_amount.0, 0);
    assert_eq!(pool.lp_token_amount.0, 0);
    assert_eq!(pool.liquidity_target.0, 90_000000);
    assert_eq!(pool.min_fee.0, 1000);
    assert_eq!(pool.max_fee.0, 90000);
}

#[test]
fn test_add_liquidity() {
    let mut pool = sample_pool();
    let minted_lp = pool.add_liquidity(TokenAmount(100_000000)).unwrap();
    assert_eq!(minted_lp.0, 100_000000);
    assert_eq!(pool.token_amount.0, 100_000000);
    assert_eq!(pool.lp_token_amount.0, 100_000000);
}

#[test]
fn test_swap_1() {
    let mut pool = sample_pool();
    pool.add_liquidity(TokenAmount(100_000000)).unwrap();
    let received_token = pool.swap(StakedTokenAmount(6_000000)).unwrap();

    assert_eq!(received_token.0, 8991000);
}

#[test]
fn test_add_liquidity_2() {
    let mut pool = sample_pool();
    pool.add_liquidity(TokenAmount(100_000000)).unwrap();
    pool.swap(StakedTokenAmount(6_000000)).unwrap();
    let minted_lp = pool.add_liquidity(TokenAmount(10_000000)).unwrap();

    assert_eq!(minted_lp.0, 9_999100);
    assert_eq!(pool.lp_token_amount.0, 109_999100);
}

#[test]
fn test_swap_2() {
    let mut pool = sample_pool();
    pool.add_liquidity(TokenAmount(100_000000)).unwrap();
    pool.swap(StakedTokenAmount(6_000000)).unwrap();
    pool.add_liquidity(TokenAmount(10_000000)).unwrap();
    let received_token = pool.swap(StakedTokenAmount(30_000000)).unwrap();

    assert_eq!(received_token.0, 43442370);
    assert_eq!(pool.lp_token_amount.0, 109_999100);
}

#[test]
fn test_remove_liquidity() {
    let mut pool = sample_pool();
    pool.add_liquidity(TokenAmount(100_000000)).unwrap();
    pool.swap(StakedTokenAmount(6_000000)).unwrap();
    pool.add_liquidity(TokenAmount(10_000000)).unwrap();
    pool.swap(StakedTokenAmount(30_000000)).unwrap();

    let (token, staked_token) = pool.remove_liquidity(LpTokenAmount(109_999100)).unwrap();
    assert_eq!(staked_token.0, 36_000000);
    assert_eq!(token.0, 57566630);
}

#[test]
fn test_init_rejects_misordered_fees() {
    let r = LpPool::init(
        Price(1_000000),
        Percentage(2000),
        Percentage(1000),
        TokenAmount(0),
    );
    assert_eq!(r.unwrap_err(), PoolError::ConfigurationError);
}

#[test]
fn test_init_rejects_zero_price() {
    let r = LpPool::init(Price(0), Percentage(0), Percentage(0), TokenAmount(0));
    assert_eq!(r.unwrap_err(), PoolError::ConfigurationError);
}

#[test]
fn test_init_rejects_fee_above_hundred_percent() {
    let r = LpPool::init(
        Price(1_000000),
        Percentage(0),
        Percentage(1_000001),
        TokenAmount(0),
    );
    assert_eq!(r.unwrap_err(), PoolError::ConfigurationError);
}

#[test]
fn test_first_deposit_of_largest_amount() {
    let mut pool = LpPool::init(
        Price(1_000000),
        Percentage(0),
        Percentage(0),
        TokenAmount(0),
    )
    .unwrap();
    let minted = pool.add_liquidity(TokenAmount(u64::MAX)).unwrap();
    assert_eq!(minted.0, u64::MAX);
    assert_eq!(pool.token_amount.0, u64::MAX);
    assert_eq!(pool.lp_token_amount.0, u64::MAX);
}

#[test]
fn test_zero_deposit_keeps_pool_empty() {
    let mut pool = sample_pool();
    let minted = pool.add_liquidity(TokenAmount(0)).unwrap();
    assert_eq!(minted.0, 0);
    assert_eq!(pool.token_amount.0, 0);
    assert_eq!(pool.lp_token_amount.0, 0);
}

#[test]
fn test_fee_is_min_at_or_above_target() {
    assert_eq!(
        compute_fee(
            Percentage(1000),
            Percentage(90000),
            TokenAmount(90_000000),
            TokenAmount(90_000000),
        )
        .0,
        1000
    );
    assert_eq!(
        compute_fee(
            Percentage(1000),
            Percentage(90000),
            TokenAmount(90_000000),
            TokenAmount(91_000000),
        )
        .0,
        1000
    );
}

#[test]
fn test_fee_rises_as_reserve_falls() {
    let min_fee = Percentage(1000);
    let max_fee = Percentage(90000);
    let target = TokenAmount(90_000000);
    assert_eq!(compute_fee(min_fee, max_fee, target, TokenAmount(0)).0, 90000);
    assert_eq!(
        compute_fee(min_fee, max_fee, target, TokenAmount(45_000000)).0,
        45500
    );
    assert_eq!(
        compute_fee(min_fee, max_fee, target, TokenAmount(56_009000)).0,
        34614
    );
    let mut previous: u64 = u64::MAX;
    for reserve in [0u64, 10_000000, 45_000000, 56_009000, 89_999999, 90_000000] {
        let fee = compute_fee(min_fee, max_fee, target, TokenAmount(reserve)).0;
        assert!(fee <= previous);
        previous = fee;
    }
}

#[test]
fn test_remove_liquidity_insufficient_shares() {
    let mut pool = sample_pool();
    pool.add_liquidity(TokenAmount(100_000000)).unwrap();
    let r = pool.remove_liquidity(LpTokenAmount(100_000001));
    assert_eq!(r.unwrap_err(), PoolError::InsufficientShares);
    assert_eq!(pool.token_amount.0, 100_000000);
    assert_eq!(pool.lp_token_amount.0, 100_000000);
}

#[test]
fn test_remove_zero_shares_from_empty_pool() {
    let mut pool = sample_pool();
    let (token, staked) = pool.remove_liquidity(LpTokenAmount(0)).unwrap();
    assert_eq!(token.0, 0);
    assert_eq!(staked.0, 0);
    assert_eq!(pool.lp_token_amount.0, 0);
}

#[test]
fn test_partial_withdraw_is_pro_rata() {
    let mut pool = sample_pool();
    pool.add_liquidity(TokenAmount(100_000000)).unwrap();
    pool.swap(StakedTokenAmount(6_000000)).unwrap();
    let (token, staked) = pool.remove_liquidity(LpTokenAmount(50_000000)).unwrap();
    assert_eq!(token.0, 45_504500);
    assert_eq!(staked.0, 3_000000);
    assert_eq!(pool.token_amount.0, 45_504500);
    assert_eq!(pool.st_token_amount.0, 3_000000);
    assert_eq!(pool.lp_token_amount.0, 50_000000);
}

#[test]
fn test_full_withdraw_returns_entire_reserves() {
    let mut pool = sample_pool();
    pool.add_liquidity(TokenAmount(50_000000)).unwrap();
    pool.swap(StakedTokenAmount(10_000000)).unwrap();
    let token_reserve = pool.token_amount.0;
    let staked_reserve = pool.st_token_amount.0;
    let supply = pool.lp_token_amount.0;
    let (token, staked) = pool.remove_liquidity(LpTokenAmount(supply)).unwrap();
    assert_eq!(token.0, token_reserve);
    assert_eq!(staked.0, staked_reserve);
    assert_eq!(pool.token_amount.0, 0);
    assert_eq!(pool.st_token_amount.0, 0);
    assert_eq!(pool.lp_token_amount.0, 0);
}

#[test]
fn test_swap_rejects_reserve_depletion() {
    let mut pool = sample_pool();
    pool.add_liquidity(TokenAmount(100_000000)).unwrap();
    let r = pool.swap(StakedTokenAmount(200_000000));
    assert_eq!(r.unwrap_err(), PoolError::ArithmeticUnderflow);
    assert_eq!(pool.token_amount.0, 100_000000);
    assert_eq!(pool.st_token_amount.0, 0);
}

#[test]
fn test_swap_rejects_oversized_staked_value() {
    let mut pool = LpPool::init(
        Price(u64::MAX),
        Percentage(0),
        Percentage(0),
        TokenAmount(0),
    )
    .unwrap();
    pool.add_liquidity(TokenAmount(1_000000)).unwrap();
    let r = pool.swap(StakedTokenAmount(u64::MAX));
    assert_eq!(r.unwrap_err(), PoolError::ArithmeticOverflow);
}

#[test]
fn test_add_liquidity_rejects_zero_value_pool() {
    let mut pool = LpPool {
        price: Price(1_000000),
        token_amount: TokenAmount(0),
        st_token_amount: StakedTokenAmount(0),
        lp_token_amount: LpTokenAmount(5),
        liquidity_target: TokenAmount(0),
        min_fee: Percentage(0),
        max_fee: Percentage(0),
    };
    let r = pool.add_liquidity(TokenAmount(10));
    assert_eq!(r.unwrap_err(), PoolError::InsufficientPoolValue);
    assert_eq!(pool.lp_token_amount.0, 5);
}

#[test]
fn test_add_liquidity_rejects_oversized_share_ratio() {
    let mut pool = LpPool {
        price: Price(1_000000),
        token_amount: TokenAmount(1),
        st_token_amount: StakedTokenAmount(0),
        lp_token_amount: LpTokenAmount(u64::MAX),
        liquidity_target: TokenAmount(0),
        min_fee: Percentage(0),
        max_fee: Percentage(0),
    };
    let r = pool.add_liquidity(TokenAmount(10));
    assert_eq!(r.unwrap_err(), PoolError::ArithmeticOverflow);
}
