use puzzle_contracts::liquidity_pool::{isqrt, LiquidityPoolContract, PoolError};

const ADMIN: u64 = 1;
const USER: u64 = 2;
const TOKEN_A: u64 = 20;
const TOKEN_B: u64 = 10;
const POOL: u64 = 99;

fn setup_lp() -> LiquidityPoolContract {
    let mut p = LiquidityPoolContract::new();
    p.initialize(ADMIN, TOKEN_A, TOKEN_B, 30).unwrap();
    p
}

#[test]
fn test_initialize_pool() {
    let mut p = setup_lp();
    let (token0, token1) = p.get_tokens().unwrap();
    assert!(token0 < token1);
    assert_eq!(p.get_reserves(), (0, 0));
    assert_eq!(p.initialize(ADMIN, TOKEN_A, TOKEN_B, 30), Err(PoolError::AlreadyInitialized));
    let mut q = LiquidityPoolContract::new();
    assert_eq!(q.initialize(ADMIN, TOKEN_A, TOKEN_B, 1001), Err(PoolError::FeeTooHigh));
}

#[test]
fn test_add_liquidity() {
    let mut p = setup_lp();
    let (liquidity, pay_a, pay_b) = p.add_liquidity(POOL, USER, 100, 100, 100, 100, USER).unwrap();
    assert_eq!(liquidity, 100);
    assert_eq!((pay_a.from, pay_a.to, pay_a.amount), (USER, POOL, 100));
    assert_eq!(pay_b.amount, 100);
    assert_eq!(p.get_reserves(), (100, 100));
    assert_eq!(p.balance_of(USER), 100);
    assert_eq!(p.total_supply(), 100);
}

#[test]
fn test_swap() {
    let mut p = setup_lp();
    p.add_liquidity(POOL, USER, 1000, 1000, 1000, 1000, USER).unwrap();
    let (token0, _) = p.get_tokens().unwrap();
    let (amount_out, paid_in, paid_out) = p.swap(0, POOL, USER, 100, 90, token0, USER).unwrap();
    // With 0.3% fee, amount_out should be ~99.7
    assert!(amount_out > 90 && amount_out < 100);
    assert_eq!(paid_in.amount, 100);
    assert_eq!(paid_out.amount, amount_out);
    let (reserve_a, reserve_b) = p.get_reserves();
    assert_eq!(reserve_a, 1100);
    assert_eq!(reserve_b, 1000 - amount_out);
}

#[test]
fn test_remove_liquidity() {
    let mut p = setup_lp();
    p.add_liquidity(POOL, USER, 100, 100, 100, 100, USER).unwrap();
    let (amount_a, amount_b, _, _) = p.remove_liquidity(POOL, USER, 100, 100, 100, USER).unwrap();
    assert_eq!(amount_a, 100);
    assert_eq!(amount_b, 100);
    assert_eq!(p.balance_of(USER), 0);
    assert_eq!(p.total_supply(), 0);
    assert_eq!(p.get_reserves(), (0, 0));
}

#[test]
fn slippage_protection() {
    let mut p = setup_lp();
    p.add_liquidity(POOL, USER, 1000, 1000, 1000, 1000, USER).unwrap();
    let (token0, _) = p.get_tokens().unwrap();
    assert_eq!(p.swap(0, POOL, USER, 100, 999, token0, USER).unwrap_err(), PoolError::InsufficientOutputAmount);
    assert_eq!(p.swap(0, POOL, USER, 100, 1, 77, USER).unwrap_err(), PoolError::InvalidToken);
}

#[test]
fn test_price_oracle() {
    let mut p = setup_lp();
    p.add_liquidity(POOL, USER, 1000, 1000, 1000, 1000, USER).unwrap();
    let (token0, _) = p.get_tokens().unwrap();
    p.swap(1000, POOL, USER, 100, 90, token0, USER).unwrap();
    assert!(p.get_cumulative_price() > 0);
}

#[test]
fn isqrt_exact_values() {
    assert_eq!(isqrt(0), 0);
    assert_eq!(isqrt(99), 9);
    assert_eq!(isqrt(100), 10);
    assert_eq!(isqrt(10_000), 100);
    assert_eq!(isqrt(u128::MAX), 18446744073709551615);
}

#[test]
fn test_impermanent_loss_calculation() {
    let _pool = setup_lp();
    // Price doubles: initial 1.0, current 2.0
    let il = LiquidityPoolContract::calculate_impermanent_loss(1_000_000_000_000, 2_000_000_000_000);
    // IL should be approx -0.057 (5.7% loss)
    assert!(il < 0 && il > -60_000_000_000);
}

#[test]
fn impermanent_loss_exact_values() {
    assert_eq!(LiquidityPoolContract::calculate_impermanent_loss(1_000_000_000_000, 2_000_000_000_000), -57_191_333_334);
    assert_eq!(LiquidityPoolContract::calculate_impermanent_loss(1_000_000_000_000, 4_000_000_000_000), -200_000_000_000);
    assert_eq!(LiquidityPoolContract::calculate_impermanent_loss(7, 7), 0);
    assert_eq!(LiquidityPoolContract::calculate_impermanent_loss(0, 5), 0);
    assert_eq!(LiquidityPoolContract::calculate_impermanent_loss(5, 0), 0);
    // A negative initial price, read as unsigned, exceeds any scaled current price.
    assert_eq!(LiquidityPoolContract::calculate_impermanent_loss(-1, 5), -1_000_000_000_000);
}

#[test]
fn shares_outstanding_are_the_shares_held() {
    let mut p = setup_lp();
    p.add_liquidity(POOL, USER, 400, 900, 400, 900, USER).unwrap();
    p.add_liquidity(POOL, ADMIN, 200, 450, 200, 450, ADMIN).unwrap();
    p.remove_liquidity(POOL, USER, 150, 0, 0, USER).unwrap();
    assert_eq!(p.balance_of(USER) + p.balance_of(ADMIN), p.total_supply());
    assert_eq!((p.balance_of(USER), p.balance_of(ADMIN)), (450, 300));
}

#[test]
fn swap_output_is_rounded_up() {
    let mut p = setup_lp();
    p.add_liquidity(POOL, USER, 1000, 1000, 1000, 1000, USER).unwrap();
    let (token0, token1) = p.get_tokens().unwrap();
    // 100 * 9970 * 1000 / (1000 * 10000 + 100 * 9970) = 90.66, rounded up
    let (out, _, _) = p.swap(0, POOL, USER, 100, 0, token0, USER).unwrap();
    assert_eq!(out, 91);
    assert_eq!(p.get_reserves(), (1100, 909));
    let mut q = setup_lp();
    q.add_liquidity(POOL, USER, 10000, 10000, 10000, 10000, USER).unwrap();
    let (out, _, _) = q.swap(0, POOL, USER, 10000, 0, token1, USER).unwrap();
    // 10000 * 9970 * 10000 / (10000 * 10000 + 10000 * 9970) = 4992.49..., rounded up
    assert_eq!(out, 4993);
}
