use puzzle_contracts::insurance_pool::{InsuranceError, InsurancePoolContract, PolicyStatus};

const ADMIN: u64 = 1;
const TOKEN: u64 = 2;
const PAYER: u64 = 3;
const COVERED: u64 = 4;
const POOL: u64 = 99;

fn setup_pool() -> InsurancePoolContract {
    let mut c = InsurancePoolContract::new();
    c.initialize(ADMIN, TOKEN, 100).unwrap();
    c
}

#[test]
fn test_test_initialize() {
    let mut c = setup_pool();
    let config = c.get_config().unwrap();
    assert_eq!(config.admin, ADMIN);
    assert_eq!(config.payment_token, TOKEN);
    assert_eq!(config.base_premium_rate, 100);
    assert!(!config.paused);
    assert_eq!(c.get_premium_pool(), 0);
    assert_eq!(c.get_reserve_pool(), 0);
    assert_eq!(c.get_total_policies(), 0);
    assert_eq!(c.get_total_claims(), 0);
    assert_eq!(c.initialize(ADMIN, TOKEN, 100), Err(InsuranceError::AlreadyInitialized));
}

#[test]
fn test_purchase_coverage() {
    let mut c = setup_pool();
    let coverage_amount = 1_000_000i128;
    let coverage_period = 30 * 24 * 60 * 64u64;
    let payment = c.purchase_coverage(0, POOL, COVERED, coverage_amount, coverage_period, PAYER).unwrap();
    let policy = c.get_policy(COVERED).unwrap();
    assert_eq!(policy.contract_address, COVERED);
    assert_eq!(policy.coverage_amount, coverage_amount);
    assert_eq!(policy.status, PolicyStatus::Active);
    assert!(policy.premium_paid > 0);
    assert_eq!(payment.amount, policy.premium_paid);
    assert_eq!((payment.from, payment.to, payment.token), (PAYER, POOL, TOKEN));
    assert!(c.get_premium_pool() > 0);
    assert!(c.get_reserve_pool() > 0);
    assert_eq!(c.get_total_policies(), 1);
    assert!(c.is_coverage_active(0, COVERED));
    assert_eq!(
        c.purchase_coverage(0, POOL, COVERED, coverage_amount, coverage_period, PAYER).unwrap_err(),
        InsuranceError::AlreadyCovered
    );
}

#[test]
fn premium_formula_exact_value() {
    // 1,000,000 at 100 basis points for 32 whole days:
    // 1_000_000 * 100 * 32 / (365 * 10_000) = 876 (rounded down)
    let p = InsurancePoolContract::calculate_premium(100, 1_000_000, 32 * 86_400);
    assert_eq!(p, 876);
    // a premium is never below one
    assert_eq!(InsurancePoolContract::calculate_premium(1, 1, 86_400), 1);
}
