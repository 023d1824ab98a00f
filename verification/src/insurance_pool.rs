//! Smart-contract failure insurance: contracts buy time-limited coverage with
//! risk-priced premiums, claims are submitted, reviewed and paid from a
//! premium pool that keeps part of every inflow as a reserve.
use std::collections::HashMap;
use vstd::prelude::*;

use crate::common::{contains_u64, lemma_floor_div};
use crate::token::TokenTransfer;

verus! {

broadcast use vstd::std_specs::hash::group_hash_axioms;

/// An account or contract address, identified by a number.
pub type AccountId = u64;

pub const SECONDS_PER_DAY: u64 = 86_400;
pub const BASIS_POINTS: u64 = 10_000;
pub const MAX_DESCRIPTION_LENGTH: usize = 500;
pub const MAX_EVIDENCE_HASH_LENGTH: usize = 100;
/// Claims newer than this many seconds count as recent.
pub const LOOKBACK_PERIOD: u64 = 2_592_000;

#[derive(Clone, Copy, Debug, PartialEq, Eq, Structural)]
pub enum RiskLevel {
    Low,
    Medium,
    High,
    Critical,
}

#[derive(Clone, Copy, Debug, PartialEq, Eq, Structural)]
pub enum PolicyStatus {
    Active,
    Expired,
    Cancelled,
    Suspended,
}

#[derive(Clone, Copy, Debug, PartialEq, Eq, Structural)]
pub enum ClaimStatus {
    Submitted,
    UnderReview,
    Approved,
    Rejected,
    Paid,
}

#[derive(Clone, Copy, Debug, PartialEq, Eq, Structural)]
pub enum FailureType {
    LogicError,
    Reentrancy,
    AccessControl,
    ArithmeticOverflow,
    OracleManipulation,
    Other,
}

#[derive(Clone, Copy, Debug, PartialEq, Eq, Structural)]
pub enum InsuranceError {
    AlreadyInitialized,
    NotInitialized,
    Paused,
    NotAdmin,
    InvalidCoverageAmount,
    InvalidCoveragePeriod,
    AlreadyCovered,
    PolicyNotFound,
    CannotRenew,
    PeriodExceedsMaximum,
    CoverageNotActive,
    OutsideCoveragePeriod,
    InvalidClaimAmount,
    DescriptionTooLong,
    EvidenceHashTooLong,
    TooManyRecentClaims,
    SubmitterTooManyClaims,
    ClaimNotFound,
    ClaimNotReviewable,
    PayoutNotPositive,
    PayoutExceedsMaximum,
    ClaimNotApproved,
    InsufficientPool,
    AmountNotPositive,
    InsufficientAvailable,
    RatioTooHigh,
}

/// Pool settings; rates and ratios in basis points, periods in seconds.
#[derive(Clone, Copy, Debug, PartialEq, Eq, Structural)]
pub struct PoolConfig {
    pub admin: AccountId,
    pub payment_token: AccountId,
    pub base_premium_rate: u32,
    pub min_coverage_period: u64,
    pub max_coverage_period: u64,
    pub max_coverage_amount: i128,
    pub claim_review_period: u64,
    pub reserve_ratio: u32,
    pub max_payout_ratio: u32,
    pub paused: bool,
}

#[derive(Clone, Copy, Debug, PartialEq, Eq, Structural)]
pub struct ContractPolicy {
    pub contract_address: AccountId,
    pub coverage_amount: i128,
    pub premium_paid: i128,
    pub start_time: u64,
    pub end_time: u64,
    pub status: PolicyStatus,
    pub risk_level: RiskLevel,
    pub premium_rate: u32,
}

#[derive(Debug)]
pub struct Claim {
    pub claim_id: u64,
    pub contract_address: AccountId,
    pub failure_type: FailureType,
    pub claim_amount: i128,
    pub description: Vec<u8>,
    pub evidence_hash: Vec<u8>,
    pub submission_time: u64,
    pub status: ClaimStatus,
    pub review_notes: Vec<u8>,
    pub payout_amount: i128,
    pub payout_time: u64,
}

/// Risk record of a covered contract; `score` runs 0..=100, higher riskier.
#[derive(Clone, Copy, Debug, PartialEq, Eq, Structural)]
pub struct RiskScore {
    pub contract_address: AccountId,
    pub risk_level: RiskLevel,
    pub score: u32,
    pub total_claims: u32,
    pub approved_claims: u32,
    pub total_payout: i128,
    pub last_updated: u64,
}

/// Pool health figures; utilization and reserve ratio in basis points.
#[derive(Clone, Copy, Debug, PartialEq, Eq, Structural)]
pub struct PoolMetrics {
    pub total_premiums: i128,
    pub total_payouts: i128,
    pub active_policies: u64,
    pub total_claims_submitted: u64,
    pub total_claims_approved: u64,
    pub pool_utilization: u32,
    pub reserve_ratio: u32,
}

/// The contract's storage.
pub struct InsurancePoolContract {
    pub config: Option<PoolConfig>,
    pub policies: HashMap<AccountId, ContractPolicy>,
    /// Every contract that ever bought coverage, once each, in order.
    pub policy_list: Vec<AccountId>,
    pub claims: HashMap<u64, Claim>,
    pub claim_counter: u64,
    pub contract_claims: HashMap<AccountId, Vec<u64>>,
    pub premium_pool: i128,
    pub reserve_pool: i128,
    pub total_policies: u64,
    pub total_claims: u64,
    pub risk_scores: HashMap<AccountId, RiskScore>,
    pub metrics: Option<PoolMetrics>,
}

/// Division rounding toward zero, as integer division does.
pub open spec fn tdiv(a: int, b: int) -> int {
    if a >= 0 {
        a / b
    } else {
        -((-a) / b)
    }
}

/// The score of a risk level.
pub open spec fn spec_risk_score(level: RiskLevel) -> u32 {
    match level {
        RiskLevel::Low => 25,
        RiskLevel::Medium => 50,
        RiskLevel::High => 75,
        RiskLevel::Critical => 100,
    }
}

/// The premium multiplier of a risk level, in percent.
pub open spec fn risk_multiplier(level: RiskLevel) -> u32 {
    match level {
        RiskLevel::Low => 80,
        RiskLevel::Medium => 100,
        RiskLevel::High => 150,
        RiskLevel::Critical => 200,
    }
}

/// The premium rate for a base rate and a risk level.
pub open spec fn spec_premium_rate(base: u32, level: RiskLevel) -> u32 {
    ((base * risk_multiplier(level)) / 100) as u32
}

/// `amount * rate * whole days / (365 * 10_000)`, rounded toward zero, and
/// at least 1.
pub open spec fn spec_premium(rate: u32, amount: i128, period: u64) -> i128 {
    let q = tdiv(amount * rate * (period / SECONDS_PER_DAY), 365 * BASIS_POINTS);
    if q < 1 {
        1
    } else {
        q as i128
    }
}

/// Whether the premium product for these inputs fits in an `i128`.
pub open spec fn premium_fits(rate: u32, amount: i128, period: u64) -> bool {
    &&& i128::MIN <= amount * rate <= i128::MAX
    &&& i128::MIN <= amount * rate * (period / SECONDS_PER_DAY) <= i128::MAX
}

/// `x * ratio / 10_000`, rounded toward zero.
pub open spec fn portion(x: i128, ratio: u32) -> int {
    tdiv(x * ratio, BASIS_POINTS as int)
}

/// The metrics that stand in when none are stored.
pub open spec fn default_metrics() -> PoolMetrics {
    PoolMetrics {
        total_premiums: 0,
        total_payouts: 0,
        active_policies: 0,
        total_claims_submitted: 0,
        total_claims_approved: 0,
        pool_utilization: 0,
        reserve_ratio: 2000,
    }
}

/// `x` fits in an `i128`.
pub open spec fn fits(x: int) -> bool {
    i128::MIN <= x <= i128::MAX
}

/// `m` with utilization and reserve ratio recomputed for a pool and reserve
/// (both 0 for an empty pool); the quotients are cut to 32 bits.
pub open spec fn with_utilization(m: PoolMetrics, pool: i128, reserve: i128) -> PoolMetrics {
    if pool > 0 {
        PoolMetrics {
            pool_utilization: tdiv(m.total_payouts * BASIS_POINTS, pool as int) as u32,
            reserve_ratio: tdiv(reserve * BASIS_POINTS, pool as int) as u32,
            ..m
        }
    } else {
        PoolMetrics { pool_utilization: 0, reserve_ratio: 0, ..m }
    }
}

/// The utilization quotients of `with_utilization` can be computed.
pub open spec fn utilization_fits(m: PoolMetrics, reserve: i128) -> bool {
    fits(m.total_payouts * BASIS_POINTS) && fits(reserve * BASIS_POINTS)
}

/// `x * ratio / 10_000` rounded toward zero, for a product that fits.
fn apply_ratio(x: i128, ratio: u32) -> (r: i128)
    requires
        fits(x * ratio),
    ensures
        r == portion(x, ratio),
{
    (x * (ratio as i128)) / (BASIS_POINTS as i128)
}

impl InsurancePoolContract {
    /// The stored metrics, or the defaults.
    pub open spec fn spec_metrics(self) -> PoolMetrics {
        match self.metrics {
            Some(m) => m,
            None => default_metrics(),
        }
    }

    /// The risk level a contract is priced at: its recorded one, else Medium.
    pub open spec fn spec_assess(self, addr: AccountId) -> RiskLevel {
        if self.risk_scores@.contains_key(addr) {
            self.risk_scores@[addr].risk_level
        } else {
            RiskLevel::Medium
        }
    }

    /// The claim ids recorded for a contract (none when absent).
    pub open spec fn claims_of(self, addr: AccountId) -> Seq<u64> {
        if self.contract_claims@.contains_key(addr) {
            self.contract_claims@[addr]@
        } else {
            Seq::empty()
        }
    }

    /// Storage invariant: the policy list holds each contract once, and no
    /// policy ends before it starts.
    pub open spec fn wf(self) -> bool {
        &&& self.policy_list@.no_duplicates()
        &&& forall|a: AccountId| #[trigger]
            self.policies@.contains_key(a) ==> self.policies@[a].start_time
                <= self.policies@[a].end_time
    }

    pub fn new() -> (r: Self)
        ensures
            r.wf(),
            r.config is None,
            r.policies@ == Map::<AccountId, ContractPolicy>::empty(),
            r.policy_list@ == Seq::<AccountId>::empty(),
            r.claims@ == Map::<u64, Claim>::empty(),
            r.claim_counter == 0,
            r.contract_claims@ == Map::<AccountId, Vec<u64>>::empty(),
            r.premium_pool == 0,
            r.reserve_pool == 0,
            r.total_policies == 0,
            r.total_claims == 0,
            r.risk_scores@ == Map::<AccountId, RiskScore>::empty(),
            r.metrics is None,
    {
        InsurancePoolContract {
            config: None,
            policies: HashMap::new(),
            policy_list: Vec::new(),
            claims: HashMap::new(),
            claim_counter: 0,
            contract_claims: HashMap::new(),
            premium_pool: 0,
            reserve_pool: 0,
            total_policies: 0,
            total_claims: 0,
            risk_scores: HashMap::new(),
            metrics: None,
        }
    }

    /// The configuration set up by `initialize`.
    pub open spec fn initial_config(admin: AccountId, payment_token: AccountId, base_premium_rate: u32) -> PoolConfig {
        PoolConfig {
            admin,
            payment_token,
            base_premium_rate,
            min_coverage_period: 2_592_000,
            max_coverage_period: 31_536_000,
            max_coverage_amount: 10_000_000_000_000,
            claim_review_period: 1_209_600,
            reserve_ratio: 2000,
            max_payout_ratio: 10000,
            paused: false,
        }
    }

    /// Sets up the pool (once): 30..=365-day coverage up to 10^13, a 20%
    /// reserve, payouts up to the full claim, zeroed pools and counters.
    pub fn initialize(&mut self, admin: AccountId, payment_token: AccountId, base_premium_rate: u32) -> (r:
        Result<(), InsuranceError>)
        requires
            old(self).wf(),
        ensures
            final(self).wf(),
            r == (if old(self).config is Some {
                Err(InsuranceError::AlreadyInitialized)
            } else {
                Ok(())
            }),
            r.is_err() ==> *final(self) == *old(self),
            r.is_ok() ==> *final(self) == (Self {
                config: Some(Self::initial_config(admin, payment_token, base_premium_rate)),
                premium_pool: 0,
                reserve_pool: 0,
                claim_counter: 0,
                total_policies: 0,
                total_claims: 0,
                metrics: Some(default_metrics()),
                ..*old(self)
            }),
    {
        if self.config.is_some() {
            return Err(InsuranceError::AlreadyInitialized);
        }
        self.config = Some(
            PoolConfig {
                admin,
                payment_token,
                base_premium_rate,
                min_coverage_period: 30 * SECONDS_PER_DAY,
                max_coverage_period: 365 * SECONDS_PER_DAY,
                max_coverage_amount: 10_000_000_000_000,
                claim_review_period: 14 * SECONDS_PER_DAY,
                reserve_ratio: 2000,
                max_payout_ratio: 10000,
                paused: false,
            },
        );
        self.premium_pool = 0;
        self.reserve_pool = 0;
        self.claim_counter = 0;
        self.total_policies = 0;
        self.total_claims = 0;
        self.metrics = Some(
            PoolMetrics {
                total_premiums: 0,
                total_payouts: 0,
                active_policies: 0,
                total_claims_submitted: 0,
                total_claims_approved: 0,
                pool_utilization: 0,
                reserve_ratio: 2000,
            },
        );
        Ok(())
    }

    /// `NotInitialized` before setup, `Paused` while paused.
    pub open spec fn spec_not_paused(self) -> Result<(), InsuranceError> {
        match self.config {
            None => Err(InsuranceError::NotInitialized),
            Some(c) => if c.paused {
                Err(InsuranceError::Paused)
            } else {
                Ok(())
            },
        }
    }

    /// `NotInitialized` before setup, `NotAdmin` for anyone but the admin.
    pub open spec fn spec_admin_check(self, user: AccountId) -> Result<(), InsuranceError> {
        match self.config {
            None => Err(InsuranceError::NotInitialized),
            Some(c) => if c.admin != user {
                Err(InsuranceError::NotAdmin)
            } else {
                Ok(())
            },
        }
    }

    pub fn assert_not_paused(&self) -> (r: Result<(), InsuranceError>)
        ensures
            r == self.spec_not_paused(),
    {
        match &self.config {
            None => Err(InsuranceError::NotInitialized),
            Some(c) => if c.paused {
                Err(InsuranceError::Paused)
            } else {
                Ok(())
            },
        }
    }

    pub fn assert_admin(&self, user: AccountId) -> (r: Result<(), InsuranceError>)
        ensures
            r == self.spec_admin_check(user),
    {
        match &self.config {
            None => Err(InsuranceError::NotInitialized),
            Some(c) => if c.admin != user {
                Err(InsuranceError::NotAdmin)
            } else {
                Ok(())
            },
        }
    }

    /// The score of a risk level: Low 25, Medium 50, High 75, Critical 100.
    pub fn risk_level_to_score(risk_level: RiskLevel) -> (r: u32)
        ensures
            r == spec_risk_score(risk_level),
    {
        match risk_level {
            RiskLevel::Low => 25,
            RiskLevel::Medium => 50,
            RiskLevel::High => 75,
            RiskLevel::Critical => 100,
        }
    }

    /// The base rate scaled by the risk multiplier (0.8x, 1x, 1.5x, 2x).
    pub fn calculate_premium_rate(config: &PoolConfig, risk_level: RiskLevel) -> (r: u32)
        requires
            config.base_premium_rate * risk_multiplier(risk_level) <= u32::MAX,
        ensures
            r == spec_premium_rate(config.base_premium_rate, risk_level),
    {
        let risk_multiplier: u32 = match risk_level {
            RiskLevel::Low => 80,
            RiskLevel::Medium => 100,
            RiskLevel::High => 150,
            RiskLevel::Critical => 200,
        };
        (config.base_premium_rate * risk_multiplier) / 100
    }

    /// The premium for `coverage_amount` over `coverage_period` seconds at
    /// `premium_rate`, counting whole days; never below 1.
    pub fn calculate_premium(premium_rate: u32, coverage_amount: i128, coverage_period: u64) -> (r:
        i128)
        requires
            premium_fits(premium_rate, coverage_amount, coverage_period),
        ensures
            r == spec_premium(premium_rate, coverage_amount, coverage_period),
            r >= 1,
    {
        let coverage_days = coverage_period / SECONDS_PER_DAY;
        let premium = (coverage_amount * (premium_rate as i128) * (coverage_days as i128)) / (365
            * (BASIS_POINTS as i128));
        if premium < 1 {
            1
        } else {
            premium
        }
    }

    /// The risk level a contract is priced at: its recorded one, else Medium.
    pub fn assess_contract_risk(&self, contract_address: AccountId) -> (r: RiskLevel)
        ensures
            r == self.spec_assess(contract_address),
    {
        match self.risk_scores.get(&contract_address) {
            Some(rs) => rs.risk_level,
            None => RiskLevel::Medium,
        }
    }

    pub fn metrics_or_default(&self) -> (r: PoolMetrics)
        ensures
            r == self.spec_metrics(),
    {
        match self.metrics {
            Some(m) => m,
            None => PoolMetrics {
                total_premiums: 0,
                total_payouts: 0,
                active_policies: 0,
                total_claims_submitted: 0,
                total_claims_approved: 0,
                pool_utilization: 0,
                reserve_ratio: 2000,
            },
        }
    }

    /// Recomputes utilization and reserve ratio from the pools.
    fn update_pool_utilization(&mut self)
        requires
            utilization_fits(old(self).spec_metrics(), old(self).reserve_pool),
        ensures
            *final(self) == (Self {
                metrics: Some(
                    with_utilization(old(self).spec_metrics(), old(self).premium_pool, old(self).reserve_pool),
                ),
                ..*old(self)
            }),
    {
        let mut m = self.metrics_or_default();
        let pool = self.premium_pool;
        if pool > 0 {
            let u = (m.total_payouts * (BASIS_POINTS as i128)) / pool;
            let rr = (self.reserve_pool * (BASIS_POINTS as i128)) / pool;
            m.pool_utilization = #[verifier::truncate] (u as u32);
            m.reserve_ratio = #[verifier::truncate] (rr as u32);
        } else {
            m.pool_utilization = 0;
            m.reserve_ratio = 0;
        }
        self.metrics = Some(m);
    }

    /// Adds a contract to the policy list unless it is there.
    fn add_to_policy_list(&mut self, addr: AccountId)
        requires
            old(self).wf(),
        ensures
            final(self).wf(),
            final(self).policy_list@ == (if old(self).policy_list@.contains(addr) {
                old(self).policy_list@
            } else {
                old(self).policy_list@.push(addr)
            }),
            *final(self) == (Self { policy_list: final(self).policy_list, ..*old(self) }),
    {
        if !contains_u64(&self.policy_list, addr) {
            let ghost before = self.policy_list@;
            self.policy_list.push(addr);
            proof {
                assert forall|x: int, y: int|
                    0 <= x < self.policy_list@.len() && 0 <= y < self.policy_list@.len() && x != y implies self.policy_list@[x]
                    != self.policy_list@[y] by {
                    if x == before.len() {
                        assert(self.policy_list@[y] == before[y]);
                    } else if y == before.len() {
                        assert(self.policy_list@[x] == before[x]);
                    } else {
                        assert(self.policy_list@[x] == before[x] && self.policy_list@[y] == before[y]);
                    }
                }
            }
        }
    }

    /// Appends a claim id to a contract's claim list.
    fn add_to_contract_claims(&mut self, addr: AccountId, claim_id: u64)
        ensures
            final(self).contract_claims@ == old(self).contract_claims@.insert(
                addr,
                final(self).contract_claims@[addr],
            ),
            final(self).claims_of(addr) == old(self).claims_of(addr).push(claim_id),
            *final(self) == (Self { contract_claims: final(self).contract_claims, ..*old(self) }),
    {
        let mut ids = match self.contract_claims.remove(&addr) {
            Some(v) => v,
            None => Vec::new(),
        };
        ids.push(claim_id);
        self.contract_claims.insert(addr, ids);
        assert(self.contract_claims@ =~= old(self).contract_claims@.insert(addr, self.contract_claims@[addr]));
    }

    /// The checks of a coverage purchase, in the contract's order.
    pub open spec fn spec_purchase_check(self, addr: AccountId, amount: i128, period: u64) -> Result<
        (),
        InsuranceError,
    > {
        match self.spec_not_paused() {
            Err(e) => Err(e),
            Ok(_) => {
                let c = self.config->Some_0;
                if amount <= 0 || amount > c.max_coverage_amount {
                    Err(InsuranceError::InvalidCoverageAmount)
                } else if period < c.min_coverage_period || period > c.max_coverage_period {
                    Err(InsuranceError::InvalidCoveragePeriod)
                } else if self.policies@.contains_key(addr) && self.policies@[addr].status
                    == PolicyStatus::Active {
                    Err(InsuranceError::AlreadyCovered)
                } else {
                    Ok(())
                }
            },
        }
    }

    /// The premium rate a purchase for `addr` is priced at.
    pub open spec fn purchase_rate(self, addr: AccountId) -> u32 {
        spec_premium_rate(self.config->Some_0.base_premium_rate, self.spec_assess(addr))
    }

    /// The arithmetic of a purchase stays within its integer types.
    pub open spec fn purchase_fits(self, now: u64, addr: AccountId, amount: i128, period: u64) -> bool {
        let c = self.config->Some_0;
        let rate = self.purchase_rate(addr);
        let premium = spec_premium(rate, amount, period);
        let m = self.spec_metrics();
        &&& c.base_premium_rate * risk_multiplier(self.spec_assess(addr)) <= u32::MAX
        &&& premium_fits(rate, amount, period)
        &&& now + period <= u64::MAX
        &&& fits(self.premium_pool + premium)
        &&& fits(premium * c.reserve_ratio)
        &&& fits(self.reserve_pool + portion(premium, c.reserve_ratio))
        &&& fits(m.total_premiums + premium)
        &&& m.active_policies + 1 <= u64::MAX
        &&& self.total_policies + 1 <= u64::MAX
        &&& utilization_fits(m, (self.reserve_pool + portion(premium, c.reserve_ratio)) as i128)
    }

    /// Buys coverage for `contract_address` over `coverage_period` seconds
    /// from `now`, priced by its risk level. The payer sends the premium to
    /// `contract` (this pool); the policy list, pools (the reserve takes its
    /// ratio of the premium), metrics and policy count are updated, and a
    /// risk record is opened for a contract without one.
    pub fn purchase_coverage(
        &mut self,
        now: u64,
        contract: AccountId,
        contract_address: AccountId,
        coverage_amount: i128,
        coverage_period: u64,
        payer: AccountId,
    ) -> (r: Result<TokenTransfer, InsuranceError>)
        requires
            old(self).wf(),
            old(self).spec_purchase_check(contract_address, coverage_amount, coverage_period) is Ok
                ==> old(self).purchase_fits(now, contract_address, coverage_amount, coverage_period),
        ensures
            final(self).wf(),
            old(self).spec_purchase_check(contract_address, coverage_amount, coverage_period) matches Err(e)
                ==> r == Err::<TokenTransfer, InsuranceError>(e) && *final(self) == *old(self),
            old(self).spec_purchase_check(contract_address, coverage_amount, coverage_period) is Ok ==> {
                let c = old(self).config->Some_0;
                let risk = old(self).spec_assess(contract_address);
                let rate = old(self).purchase_rate(contract_address);
                let premium = spec_premium(rate, coverage_amount, coverage_period);
                let m = old(self).spec_metrics();
                let pool = (old(self).premium_pool + premium) as i128;
                let reserve = (old(self).reserve_pool + portion(premium, c.reserve_ratio)) as i128;
                &&& r == Ok::<TokenTransfer, InsuranceError>(
                    TokenTransfer { token: c.payment_token, from: payer, to: contract, amount: premium },
                )
                &&& final(self).policies@ == old(self).policies@.insert(
                    contract_address,
                    ContractPolicy {
                        contract_address,
                        coverage_amount,
                        premium_paid: premium,
                        start_time: now,
                        end_time: (now + coverage_period) as u64,
                        status: PolicyStatus::Active,
                        risk_level: risk,
                        premium_rate: rate,
                    },
                )
                &&& final(self).policy_list@ == (if old(self).policy_list@.contains(contract_address) {
                    old(self).policy_list@
                } else {
                    old(self).policy_list@.push(contract_address)
                })
                &&& final(self).risk_scores@ == (if old(self).risk_scores@.contains_key(contract_address) {
                    old(self).risk_scores@
                } else {
                    old(self).risk_scores@.insert(
                        contract_address,
                        RiskScore {
                            contract_address,
                            risk_level: risk,
                            score: spec_risk_score(risk),
                            total_claims: 0,
                            approved_claims: 0,
                            total_payout: 0,
                            last_updated: now,
                        },
                    )
                })
                &&& *final(self) == (Self {
                    policies: final(self).policies,
                    policy_list: final(self).policy_list,
                    risk_scores: final(self).risk_scores,
                    premium_pool: pool,
                    reserve_pool: reserve,
                    metrics: Some(
                        with_utilization(
                            PoolMetrics {
                                total_premiums: (m.total_premiums + premium) as i128,
                                active_policies: (m.active_policies + 1) as u64,
                                ..m
                            },
                            pool,
                            reserve,
                        ),
                    ),
                    total_policies: (old(self).total_policies + 1) as u64,
                    ..*old(self)
                })
            },
    {
        self.assert_not_paused()?;
        let config = match self.config {
            Some(c) => c,
            None => return Err(InsuranceError::NotInitialized),
        };
        if coverage_amount <= 0 || coverage_amount > config.max_coverage_amount {
            return Err(InsuranceError::InvalidCoverageAmount);
        }
        if coverage_period < config.min_coverage_period || coverage_period
            > config.max_coverage_period {
            return Err(InsuranceError::InvalidCoveragePeriod);
        }
        match self.policies.get(&contract_address) {
            Some(p) => {
                if p.status == PolicyStatus::Active {
                    return Err(InsuranceError::AlreadyCovered);
                }
            },
            None => {},
        }
        let risk_level = self.assess_contract_risk(contract_address);
        let premium_rate = Self::calculate_premium_rate(&config, risk_level);
        let premium = Self::calculate_premium(premium_rate, coverage_amount, coverage_period);
        let start_time = now;
        let end_time = start_time + coverage_period;
        let policy = ContractPolicy {
            contract_address,
            coverage_amount,
            premium_paid: premium,
            start_time,
            end_time,
            status: PolicyStatus::Active,
            risk_level,
            premium_rate,
        };
        self.policies.insert(contract_address, policy);
        self.add_to_policy_list(contract_address);
        self.premium_pool = self.premium_pool + premium;
        let reserve_amount = apply_ratio(premium, config.reserve_ratio);
        self.reserve_pool = self.reserve_pool + reserve_amount;
        let mut m = self.metrics_or_default();
        m.total_premiums = m.total_premiums + premium;
        m.active_policies = m.active_policies + 1;
        self.metrics = Some(m);
        self.update_pool_utilization();
        self.total_policies = self.total_policies + 1;
        if !self.risk_scores.contains_key(&contract_address) {
            let score = Self::risk_level_to_score(risk_level);
            self.risk_scores.insert(
                contract_address,
                RiskScore {
                    contract_address,
                    risk_level,
                    score,
                    total_claims: 0,
                    approved_claims: 0,
                    total_payout: 0,
                    last_updated: start_time,
                },
            );
        }
        Ok(TokenTransfer { token: config.payment_token, from: payer, to: contract, amount: premium })
    }

    /// The end time a renewal by `extra` seconds at `now` gives a policy:
    /// counted from the current end while it lies ahead, else from `now`.
    pub open spec fn renewed_end(p: ContractPolicy, now: u64, extra: u64) -> int {
        if p.end_time > now {
            p.end_time + extra
        } else {
            now + extra
        }
    }

    /// A renewal of `addr` gets past the pause and status checks.
    pub open spec fn renewable(self, addr: AccountId) -> bool {
        &&& self.spec_not_paused() is Ok
        &&& self.policies@.contains_key(addr)
        &&& (self.policies@[addr].status == PolicyStatus::Active || self.policies@[addr].status
            == PolicyStatus::Expired)
    }

    /// The checks of a renewal, in the contract's order.
    pub open spec fn spec_renew_check(self, now: u64, addr: AccountId, extra: u64) -> Result<
        (),
        InsuranceError,
    > {
        match self.spec_not_paused() {
            Err(e) => Err(e),
            Ok(_) => if !self.policies@.contains_key(addr) {
                Err(InsuranceError::PolicyNotFound)
            } else {
                let p = self.policies@[addr];
                if p.status != PolicyStatus::Active && p.status != PolicyStatus::Expired {
                    Err(InsuranceError::CannotRenew)
                } else if Self::renewed_end(p, now, extra) - p.start_time
                    > self.config->Some_0.max_coverage_period {
                    Err(InsuranceError::PeriodExceedsMaximum)
                } else {
                    Ok(())
                }
            },
        }
    }

    /// The arithmetic of a renewal stays within its integer types.
    pub open spec fn renew_fits(self, now: u64, addr: AccountId, extra: u64) -> bool {
        let c = self.config->Some_0;
        let p = self.policies@[addr];
        let premium = spec_premium(p.premium_rate, p.coverage_amount, extra);
        let m = self.spec_metrics();
        &&& Self::renewed_end(p, now, extra) <= u64::MAX
        &&& premium_fits(p.premium_rate, p.coverage_amount, extra)
        &&& fits(p.premium_paid + premium)
        &&& fits(self.premium_pool + premium)
        &&& fits(premium * c.reserve_ratio)
        &&& fits(self.reserve_pool + portion(premium, c.reserve_ratio))
        &&& fits(m.total_premiums + premium)
        &&& m.active_policies + 1 <= u64::MAX
        &&& utilization_fits(m, (self.reserve_pool + portion(premium, c.reserve_ratio)) as i128)
    }

    /// Extends an active or expired policy by `additional_period` seconds
    /// (from its end while that lies ahead, else from `now`), as long as the
    /// whole policy stays within the maximum period. The payer sends the
    /// premium for the extension at the policy's rate; the policy is active
    /// again and the pools and metrics grow as for a purchase.
    pub fn renew_coverage(
        &mut self,
        now: u64,
        contract: AccountId,
        contract_address: AccountId,
        additional_period: u64,
        payer: AccountId,
    ) -> (r: Result<TokenTransfer, InsuranceError>)
        requires
            old(self).wf(),
            old(self).renewable(contract_address) ==> Self::renewed_end(
                old(self).policies@[contract_address],
                now,
                additional_period,
            ) <= u64::MAX,
            old(self).spec_renew_check(now, contract_address, additional_period) is Ok ==> old(
                self,
            ).renew_fits(now, contract_address, additional_period),
        ensures
            final(self).wf(),
            old(self).spec_renew_check(now, contract_address, additional_period) matches Err(e) ==> r
                == Err::<TokenTransfer, InsuranceError>(e) && *final(self) == *old(self),
            old(self).spec_renew_check(now, contract_address, additional_period) is Ok ==> {
                let c = old(self).config->Some_0;
                let p = old(self).policies@[contract_address];
                let premium = spec_premium(p.premium_rate, p.coverage_amount, additional_period);
                let m = old(self).spec_metrics();
                let pool = (old(self).premium_pool + premium) as i128;
                let reserve = (old(self).reserve_pool + portion(premium, c.reserve_ratio)) as i128;
                &&& r == Ok::<TokenTransfer, InsuranceError>(
                    TokenTransfer { token: c.payment_token, from: payer, to: contract, amount: premium },
                )
                &&& final(self).policies@ == old(self).policies@.insert(
                    contract_address,
                    ContractPolicy {
                        end_time: Self::renewed_end(p, now, additional_period) as u64,
                        premium_paid: (p.premium_paid + premium) as i128,
                        status: PolicyStatus::Active,
                        ..p
                    },
                )
                &&& *final(self) == (Self {
                    policies: final(self).policies,
                    premium_pool: pool,
                    reserve_pool: reserve,
                    metrics: Some(
                        with_utilization(
                            PoolMetrics {
                                total_premiums: (m.total_premiums + premium) as i128,
                                active_policies: (m.active_policies + 1) as u64,
                                ..m
                            },
                            pool,
                            reserve,
                        ),
                    ),
                    ..*old(self)
                })
            },
    {
        self.assert_not_paused()?;
        let config = match self.config {
            Some(c) => c,
            None => return Err(InsuranceError::NotInitialized),
        };
        let mut policy = match self.policies.get(&contract_address) {
            Some(p) => *p,
            None => return Err(InsuranceError::PolicyNotFound),
        };
        if policy.status != PolicyStatus::Active && policy.status != PolicyStatus::Expired {
            return Err(InsuranceError::CannotRenew);
        }
        let new_end_time = if policy.end_time > now {
            policy.end_time + additional_period
        } else {
            now + additional_period
        };
        let total_period = new_end_time - policy.start_time;
        if total_period > config.max_coverage_period {
            return Err(InsuranceError::PeriodExceedsMaximum);
        }
        let additional_premium = Self::calculate_premium(
            policy.premium_rate,
            policy.coverage_amount,
            additional_period,
        );
        policy.end_time = new_end_time;
        policy.premium_paid = policy.premium_paid + additional_premium;
        policy.status = PolicyStatus::Active;
        self.policies.insert(contract_address, policy);
        self.premium_pool = self.premium_pool + additional_premium;
        let reserve_amount = apply_ratio(additional_premium, config.reserve_ratio);
        self.reserve_pool = self.reserve_pool + reserve_amount;
        let mut m = self.metrics_or_default();
        m.total_premiums = m.total_premiums + additional_premium;
        m.active_policies = m.active_policies + 1;
        self.metrics = Some(m);
        self.update_pool_utilization();
        Ok(
            TokenTransfer {
                token: config.payment_token,
                from: payer,
                to: contract,
                amount: additional_premium,
            },
        )
    }

    /// The checks of a cancellation, in the contract's order.
    pub open spec fn spec_cancel_check(self, addr: AccountId) -> Result<(), InsuranceError> {
        if !self.policies@.contains_key(addr) {
            Err(InsuranceError::PolicyNotFound)
        } else if self.policies@[addr].status != PolicyStatus::Active {
            Err(InsuranceError::CoverageNotActive)
        } else if self.config is None {
            Err(InsuranceError::NotInitialized)
        } else {
            Ok(())
        }
    }

    /// The refund for cancelling policy `p` at `now`: the premium prorated
    /// by the unused part of the period (rounded toward zero), 0 once ended.
    pub open spec fn spec_refund(p: ContractPolicy, now: u64) -> int {
        if p.end_time > now {
            tdiv(p.premium_paid * (p.end_time - now), p.end_time - p.start_time)
        } else {
            0
        }
    }

    /// The arithmetic of a cancellation stays within its integer types.
    pub open spec fn cancel_fits(self, now: u64, addr: AccountId) -> bool {
        let p = self.policies@[addr];
        let refund = Self::spec_refund(p, now);
        let ratio = self.config->Some_0.reserve_ratio;
        &&& p.end_time > now ==> p.end_time > p.start_time && fits(
            p.premium_paid * (p.end_time - now),
        )
        &&& refund > 0 ==> fits(self.premium_pool - refund) && fits(refund * ratio) && fits(
            self.reserve_pool - portion(refund as i128, ratio),
        )
    }

    /// Cancels an active policy. While it runs, the payer gets back the
    /// unused share of the premium, which leaves the pool (and its ratio
    /// the reserve); the active policy count drops (not below 0).
    pub fn cancel_coverage(&mut self, now: u64, contract: AccountId, contract_address: AccountId, payer: AccountId) -> (r:
        Result<Option<TokenTransfer>, InsuranceError>)
        requires
            old(self).wf(),
            old(self).spec_cancel_check(contract_address) is Ok ==> old(self).cancel_fits(
                now,
                contract_address,
            ),
        ensures
            final(self).wf(),
            old(self).spec_cancel_check(contract_address) matches Err(e) ==> r == Err::<
                Option<TokenTransfer>,
                InsuranceError,
            >(e) && *final(self) == *old(self),
            old(self).spec_cancel_check(contract_address) is Ok ==> {
                let c = old(self).config->Some_0;
                let p = old(self).policies@[contract_address];
                let refund = Self::spec_refund(p, now);
                let m = old(self).spec_metrics();
                &&& r == Ok::<Option<TokenTransfer>, InsuranceError>(
                    if refund > 0 {
                        Some(
                            TokenTransfer {
                                token: c.payment_token,
                                from: contract,
                                to: payer,
                                amount: refund as i128,
                            },
                        )
                    } else {
                        None
                    },
                )
                &&& final(self).policies@ == old(self).policies@.insert(
                    contract_address,
                    ContractPolicy { status: PolicyStatus::Cancelled, ..p },
                )
                &&& *final(self) == (Self {
                    policies: final(self).policies,
                    premium_pool: if refund > 0 {
                        (old(self).premium_pool - refund) as i128
                    } else {
                        old(self).premium_pool
                    },
                    reserve_pool: if refund > 0 {
                        (old(self).reserve_pool - portion(refund as i128, c.reserve_ratio)) as i128
                    } else {
                        old(self).reserve_pool
                    },
                    metrics: Some(
                        PoolMetrics {
                            active_policies: if m.active_policies > 0 {
                                (m.active_policies - 1) as u64
                            } else {
                                0
                            },
                            ..m
                        },
                    ),
                    ..*old(self)
                })
            },
    {
        let mut policy = match self.policies.get(&contract_address) {
            Some(p) => *p,
            None => return Err(InsuranceError::PolicyNotFound),
        };
        if policy.status != PolicyStatus::Active {
            return Err(InsuranceError::CoverageNotActive);
        }
        let config = match self.config {
            Some(c) => c,
            None => return Err(InsuranceError::NotInitialized),
        };
        let total_period = policy.end_time - policy.start_time;
        let remaining_period = if policy.end_time > now {
            policy.end_time - now
        } else {
            0
        };
        let refund: i128 = if remaining_period > 0 {
            (policy.premium_paid * (remaining_period as i128)) / (total_period as i128)
        } else {
            0
        };
        policy.status = PolicyStatus::Cancelled;
        self.policies.insert(contract_address, policy);
        let mut transfer: Option<TokenTransfer> = None;
        if refund > 0 {
            transfer = Some(
                TokenTransfer {
                    token: config.payment_token,
                    from: contract,
                    to: payer,
                    amount: refund,
                },
            );
            self.premium_pool = self.premium_pool - refund;
            let reserve_refund = apply_ratio(refund, config.reserve_ratio);
            self.reserve_pool = self.reserve_pool - reserve_refund;
        }
        let mut m = self.metrics_or_default();
        if m.active_policies > 0 {
            m.active_policies = m.active_policies - 1;
        }
        self.metrics = Some(m);
        Ok(transfer)
    }

    /// Claim `id` is stored and was submitted less than the lookback period
    /// before `now`.
    pub open spec fn is_recent(self, id: u64, now: u64) -> bool {
        self.claims@.contains_key(id) && now - self.claims@[id].submission_time < LOOKBACK_PERIOD
    }

    /// How many of the claims `ids` are recent.
    pub open spec fn count_recent(self, ids: Seq<u64>, now: u64) -> nat
        decreases ids.len(),
    {
        if ids.len() == 0 {
            0
        } else {
            self.count_recent(ids.drop_last(), now) + if self.is_recent(ids.last(), now) {
                1nat
            } else {
                0nat
            }
        }
    }

    /// How many recent claims the contracts of `list` have between them.
    pub open spec fn count_all_recent(self, list: Seq<AccountId>, now: u64) -> nat
        decreases list.len(),
    {
        if list.len() == 0 {
            0
        } else {
            self.count_all_recent(list.drop_last(), now) + self.count_recent(
                self.claims_of(list.last()),
                now,
            )
        }
    }

    /// Every stored claim was submitted no later than `now`.
    pub open spec fn claims_before(self, now: u64) -> bool {
        forall|id: u64| #[trigger]
            self.claims@.contains_key(id) ==> self.claims@[id].submission_time <= now
    }

    /// The fraud checks of a claim: at most 2 recent claims for the
    /// contract, at most 4 recent claims over all covered contracts.
    pub open spec fn spec_verify_claim(self, now: u64, addr: AccountId) -> Result<(), InsuranceError> {
        if self.count_recent(self.claims_of(addr), now) >= 3 {
            Err(InsuranceError::TooManyRecentClaims)
        } else if self.count_all_recent(self.policy_list@, now) >= 5 {
            Err(InsuranceError::SubmitterTooManyClaims)
        } else {
            Ok(())
        }
    }

    /// `min(count_recent(ids), limit)`, counted up to the limit.
    fn recent_up_to(&self, ids: &Vec<u64>, now: u64, limit: u32) -> (r: u32)
        requires
            self.claims_before(now),
        ensures
            r == (if self.count_recent(ids@, now) >= limit {
                limit as nat
            } else {
                self.count_recent(ids@, now)
            }),
    {
        let mut n: u32 = 0;
        let mut i: usize = 0;
        while i < ids.len()
            invariant
                i <= ids.len(),
                self.claims_before(now),
                n == (if self.count_recent(ids@.subrange(0, i as int), now) >= limit {
                    limit as nat
                } else {
                    self.count_recent(ids@.subrange(0, i as int), now)
                }),
            decreases ids.len() - i,
        {
            assert(ids@.subrange(0, i + 1).drop_last() =~= ids@.subrange(0, i as int));
            let recent = match self.claims.get(&ids[i]) {
                Some(c) => now - c.submission_time < LOOKBACK_PERIOD,
                None => false,
            };
            if recent && n < limit {
                n = n + 1;
            }
            i = i + 1;
        }
        assert(ids@.subrange(0, ids.len() as int) =~= ids@);
        n
    }

    /// Rejects a claim for `addr` when it has 3 recent claims, or when the
    /// covered contracts have 5 between them.
    pub fn verify_claim(&self, now: u64, contract_address: AccountId) -> (r: Result<(), InsuranceError>)
        requires
            self.claims_before(now),
        ensures
            r == self.spec_verify_claim(now, contract_address),
    {
        let own = match self.contract_claims.get(&contract_address) {
            Some(ids) => self.recent_up_to(ids, now, 3),
            None => 0,
        };
        if own >= 3 {
            return Err(InsuranceError::TooManyRecentClaims);
        }
        let mut total: u32 = 0;
        let mut i: usize = 0;
        while i < self.policy_list.len()
            invariant
                i <= self.policy_list.len(),
                self.claims_before(now),
                total == (if self.count_all_recent(self.policy_list@.subrange(0, i as int), now)
                    >= 5 {
                    5nat
                } else {
                    self.count_all_recent(self.policy_list@.subrange(0, i as int), now)
                }),
            decreases self.policy_list.len() - i,
        {
            assert(self.policy_list@.subrange(0, i + 1).drop_last() =~= self.policy_list@.subrange(
                0,
                i as int,
            ));
            let addr = self.policy_list[i];
            let c = match self.contract_claims.get(&addr) {
                Some(ids) => self.recent_up_to(ids, now, 5),
                None => 0,
            };
            total = if total + c >= 5 {
                5
            } else {
                total + c
            };
            i = i + 1;
        }
        assert(self.policy_list@.subrange(0, self.policy_list.len() as int) =~= self.policy_list@);
        if total >= 5 {
            return Err(InsuranceError::SubmitterTooManyClaims);
        }
        Ok(())
    }

    /// The risk record of `addr` after one more claim: created as Medium
    /// (score 50) when absent; three or more claims make it High (75).
    pub open spec fn claimed_risk(self, addr: AccountId, now: u64) -> RiskScore {
        let base = if self.risk_scores@.contains_key(addr) {
            self.risk_scores@[addr]
        } else {
            RiskScore {
                contract_address: addr,
                risk_level: RiskLevel::Medium,
                score: 50,
                total_claims: 0,
                approved_claims: 0,
                total_payout: 0,
                last_updated: now,
            }
        };
        let t = (base.total_claims + 1) as u32;
        if t >= 3 {
            RiskScore { total_claims: t, last_updated: now, risk_level: RiskLevel::High, score: 75, ..base }
        } else {
            RiskScore { total_claims: t, last_updated: now, ..base }
        }
    }

    /// The stored risk record of `addr`, or the Medium default.
    pub open spec fn risk_or_default(self, addr: AccountId, now: u64) -> RiskScore {
        if self.risk_scores@.contains_key(addr) {
            self.risk_scores@[addr]
        } else {
            RiskScore {
                contract_address: addr,
                risk_level: RiskLevel::Medium,
                score: 50,
                total_claims: 0,
                approved_claims: 0,
                total_payout: 0,
                last_updated: now,
            }
        }
    }

    fn risk_record(&self, addr: AccountId, now: u64) -> (r: RiskScore)
        ensures
            r == self.risk_or_default(addr, now),
    {
        match self.risk_scores.get(&addr) {
            Some(rs) => *rs,
            None => RiskScore {
                contract_address: addr,
                risk_level: RiskLevel::Medium,
                score: 50,
                total_claims: 0,
                approved_claims: 0,
                total_payout: 0,
                last_updated: now,
            },
        }
    }

    /// The checks of a claim before the fraud checks, in the contract's
    /// order.
    pub open spec fn spec_claim_pre(
        self,
        now: u64,
        addr: AccountId,
        amount: i128,
        description_len: nat,
        evidence_len: nat,
    ) -> Result<(), InsuranceError> {
        match self.spec_not_paused() {
            Err(e) => Err(e),
            Ok(_) => if !self.policies@.contains_key(addr) {
                Err(InsuranceError::PolicyNotFound)
            } else {
                let p = self.policies@[addr];
                if p.status != PolicyStatus::Active {
                    Err(InsuranceError::CoverageNotActive)
                } else if now < p.start_time || now > p.end_time {
                    Err(InsuranceError::OutsideCoveragePeriod)
                } else if amount <= 0 || amount > p.coverage_amount {
                    Err(InsuranceError::InvalidClaimAmount)
                } else if description_len > MAX_DESCRIPTION_LENGTH {
                    Err(InsuranceError::DescriptionTooLong)
                } else if evidence_len > MAX_EVIDENCE_HASH_LENGTH {
                    Err(InsuranceError::EvidenceHashTooLong)
                } else {
                    Ok(())
                }
            },
        }
    }

    /// All checks of a claim, in the contract's order.
    pub open spec fn spec_claim_check(
        self,
        now: u64,
        addr: AccountId,
        amount: i128,
        description_len: nat,
        evidence_len: nat,
    ) -> Result<(), InsuranceError> {
        match self.spec_claim_pre(now, addr, amount, description_len, evidence_len) {
            Err(e) => Err(e),
            Ok(_) => self.spec_verify_claim(now, addr),
        }
    }

    /// The counters a claim raises stay within their types.
    pub open spec fn claim_fits(self, addr: AccountId, now: u64) -> bool {
        &&& self.claim_counter + 1 <= u64::MAX
        &&& self.total_claims + 1 <= u64::MAX
        &&& self.spec_metrics().total_claims_submitted + 1 <= u64::MAX
        &&& self.risk_or_default(addr, now).total_claims + 1 <= u32::MAX
    }

    /// Files a claim against an active policy, inside its period, for at
    /// most the covered amount, with a description of at most 500 bytes and
    /// evidence of at most 100, past the fraud checks. The claim gets the
    /// next id and is Submitted; the contract's claim list, risk record,
    /// claim count and metrics follow. Returns the id.
    pub fn submit_claim(
        &mut self,
        now: u64,
        contract_address: AccountId,
        failure_type: FailureType,
        claim_amount: i128,
        description: Vec<u8>,
        evidence_hash: Vec<u8>,
        submitter: AccountId,
    ) -> (r: Result<u64, InsuranceError>)
        requires
            old(self).wf(),
            old(self).spec_claim_pre(
                now,
                contract_address,
                claim_amount,
                description@.len(),
                evidence_hash@.len(),
            ) is Ok ==> old(self).claims_before(now),
            old(self).spec_claim_check(
                now,
                contract_address,
                claim_amount,
                description@.len(),
                evidence_hash@.len(),
            ) is Ok ==> old(self).claim_fits(contract_address, now),
        ensures
            final(self).wf(),
            old(self).spec_claim_check(
                now,
                contract_address,
                claim_amount,
                description@.len(),
                evidence_hash@.len(),
            ) matches Err(e) ==> r == Err::<u64, InsuranceError>(e) && *final(self) == *old(self),
            old(self).spec_claim_check(
                now,
                contract_address,
                claim_amount,
                description@.len(),
                evidence_hash@.len(),
            ) is Ok ==> {
                let id = (old(self).claim_counter + 1) as u64;
                let m = old(self).spec_metrics();
                &&& r == Ok::<u64, InsuranceError>(id)
                &&& final(self).claims@.contains_key(id)
                &&& final(self).claims@ == old(self).claims@.insert(id, final(self).claims@[id])
                &&& final(self).claims@[id].description@ == description@
                &&& final(self).claims@[id].evidence_hash@ == evidence_hash@
                &&& final(self).claims@[id].review_notes@ == Seq::<u8>::empty()
                &&& final(self).claims@[id].claim_id == id
                &&& final(self).claims@[id].contract_address == contract_address
                &&& final(self).claims@[id].failure_type == failure_type
                &&& final(self).claims@[id].claim_amount == claim_amount
                &&& final(self).claims@[id].submission_time == now
                &&& final(self).claims@[id].status == ClaimStatus::Submitted
                &&& final(self).claims@[id].payout_amount == 0
                &&& final(self).claims@[id].payout_time == 0
                &&& final(self).contract_claims@ == old(self).contract_claims@.insert(
                    contract_address,
                    final(self).contract_claims@[contract_address],
                )
                &&& final(self).claims_of(contract_address) == old(self).claims_of(
                    contract_address,
                ).push(id)
                &&& final(self).risk_scores@ == old(self).risk_scores@.insert(
                    contract_address,
                    old(self).claimed_risk(contract_address, now),
                )
                &&& *final(self) == (Self {
                    claims: final(self).claims,
                    contract_claims: final(self).contract_claims,
                    risk_scores: final(self).risk_scores,
                    claim_counter: id,
                    total_claims: (old(self).total_claims + 1) as u64,
                    metrics: Some(
                        PoolMetrics {
                            total_claims_submitted: (m.total_claims_submitted + 1) as u64,
                            ..m
                        },
                    ),
                    ..*old(self)
                })
            },
    {
        self.assert_not_paused()?;
        let policy = match self.policies.get(&contract_address) {
            Some(p) => *p,
            None => return Err(InsuranceError::PolicyNotFound),
        };
        if policy.status != PolicyStatus::Active {
            return Err(InsuranceError::CoverageNotActive);
        }
        if now < policy.start_time || now > policy.end_time {
            return Err(InsuranceError::OutsideCoveragePeriod);
        }
        if claim_amount <= 0 || claim_amount > policy.coverage_amount {
            return Err(InsuranceError::InvalidClaimAmount);
        }
        if description.len() > MAX_DESCRIPTION_LENGTH {
            return Err(InsuranceError::DescriptionTooLong);
        }
        if evidence_hash.len() > MAX_EVIDENCE_HASH_LENGTH {
            return Err(InsuranceError::EvidenceHashTooLong);
        }
        self.verify_claim(now, contract_address)?;
        let new_claim_id = self.claim_counter + 1;
        self.claim_counter = new_claim_id;
        let claim = Claim {
            claim_id: new_claim_id,
            contract_address,
            failure_type,
            claim_amount,
            description,
            evidence_hash,
            submission_time: now,
            status: ClaimStatus::Submitted,
            review_notes: Vec::new(),
            payout_amount: 0,
            payout_time: 0,
        };
        self.claims.insert(new_claim_id, claim);
        self.add_to_contract_claims(contract_address, new_claim_id);
        let mut rs = self.risk_record(contract_address, now);
        rs.total_claims = rs.total_claims + 1;
        rs.last_updated = now;
        if rs.total_claims >= 3 {
            rs.risk_level = RiskLevel::High;
            rs.score = 75;
        }
        self.risk_scores.insert(contract_address, rs);
        self.total_claims = self.total_claims + 1;
        let mut m = self.metrics_or_default();
        m.total_claims_submitted = m.total_claims_submitted + 1;
        self.metrics = Some(m);
        assert(self.claims@ =~= old(self).claims@.insert(new_claim_id, self.claims@[new_claim_id]));
        Ok(new_claim_id)
    }

    /// The checks of a review, in the contract's order.
    pub open spec fn spec_review_check(self, admin: AccountId, id: u64, approved: bool, payout: i128) -> Result<
        (),
        InsuranceError,
    > {
        match self.spec_admin_check(admin) {
            Err(e) => Err(e),
            Ok(_) => if !self.claims@.contains_key(id) {
                Err(InsuranceError::ClaimNotFound)
            } else {
                let c = self.claims@[id];
                if c.status != ClaimStatus::Submitted && c.status != ClaimStatus::UnderReview {
                    Err(InsuranceError::ClaimNotReviewable)
                } else if approved && payout <= 0 {
                    Err(InsuranceError::PayoutNotPositive)
                } else if approved && payout > portion(
                    c.claim_amount,
                    self.config->Some_0.max_payout_ratio,
                ) {
                    Err(InsuranceError::PayoutExceedsMaximum)
                } else {
                    Ok(())
                }
            },
        }
    }

    /// A review of claim `id` gets past the admin, existence and status
    /// checks.
    pub open spec fn reviewable(self, admin: AccountId, id: u64) -> bool {
        &&& self.spec_admin_check(admin) is Ok
        &&& self.claims@.contains_key(id)
        &&& (self.claims@[id].status == ClaimStatus::Submitted || self.claims@[id].status
            == ClaimStatus::UnderReview)
    }

    /// Reviews a submitted (or under review) claim (admin only). Approval
    /// needs a positive payout within the claim times the payout ratio, and
    /// credits the contract's risk record and the approval count; rejection
    /// zeroes the payout. The notes are stored either way.
    pub fn review_claim(
        &mut self,
        now: u64,
        admin: AccountId,
        claim_id: u64,
        approved: bool,
        review_notes: Vec<u8>,
        payout_amount: i128,
    ) -> (r: Result<(), InsuranceError>)
        requires
            old(self).wf(),
            old(self).reviewable(admin, claim_id) && approved && payout_amount > 0 ==> fits(
                old(self).claims@[claim_id].claim_amount * old(self).config->Some_0.max_payout_ratio,
            ),
            old(self).spec_review_check(admin, claim_id, approved, payout_amount) is Ok && approved
                ==> {
                let rs = old(self).risk_or_default(old(self).claims@[claim_id].contract_address, now);
                &&& rs.approved_claims + 1 <= u32::MAX
                &&& fits(rs.total_payout + payout_amount)
                &&& old(self).spec_metrics().total_claims_approved + 1 <= u64::MAX
            },
        ensures
            final(self).wf(),
            old(self).spec_review_check(admin, claim_id, approved, payout_amount) matches Err(e)
                ==> r == Err::<(), InsuranceError>(e) && *final(self) == *old(self),
            old(self).spec_review_check(admin, claim_id, approved, payout_amount) is Ok ==> {
                let c = old(self).claims@[claim_id];
                let addr = c.contract_address;
                let rs = old(self).risk_or_default(addr, now);
                let m = old(self).spec_metrics();
                &&& r == Ok::<(), InsuranceError>(())
                &&& final(self).claims@ == old(self).claims@.insert(
                    claim_id,
                    Claim {
                        status: if approved {
                            ClaimStatus::Approved
                        } else {
                            ClaimStatus::Rejected
                        },
                        payout_amount: if approved {
                            payout_amount
                        } else {
                            0
                        },
                        review_notes,
                        ..c
                    },
                )
                &&& final(self).risk_scores@ == (if approved {
                    old(self).risk_scores@.insert(
                        addr,
                        RiskScore {
                            approved_claims: (rs.approved_claims + 1) as u32,
                            total_payout: (rs.total_payout + payout_amount) as i128,
                            last_updated: now,
                            ..rs
                        },
                    )
                } else {
                    old(self).risk_scores@
                })
                &&& *final(self) == (Self {
                    claims: final(self).claims,
                    risk_scores: final(self).risk_scores,
                    metrics: Some(
                        if approved {
                            PoolMetrics {
                                total_claims_approved: (m.total_claims_approved + 1) as u64,
                                ..m
                            }
                        } else {
                            m
                        },
                    ),
                    ..*old(self)
                })
            },
    {
        self.assert_admin(admin)?;
        let config = match self.config {
            Some(c) => c,
            None => return Err(InsuranceError::NotInitialized),
        };
        let (status, claim_amount) = match self.claims.get(&claim_id) {
            Some(c) => (c.status, c.claim_amount),
            None => return Err(InsuranceError::ClaimNotFound),
        };
        if status != ClaimStatus::Submitted && status != ClaimStatus::UnderReview {
            return Err(InsuranceError::ClaimNotReviewable);
        }
        if approved {
            if payout_amount <= 0 {
                return Err(InsuranceError::PayoutNotPositive);
            }
            let max_payout = apply_ratio(claim_amount, config.max_payout_ratio);
            if payout_amount > max_payout {
                return Err(InsuranceError::PayoutExceedsMaximum);
            }
        }
        let mut claim = match self.claims.remove(&claim_id) {
            Some(c) => c,
            None => return Err(InsuranceError::ClaimNotFound),
        };
        if approved {
            claim.status = ClaimStatus::Approved;
            claim.payout_amount = payout_amount;
        } else {
            claim.status = ClaimStatus::Rejected;
            claim.payout_amount = 0;
        }
        claim.review_notes = review_notes;
        let addr = claim.contract_address;
        self.claims.insert(claim_id, claim);
        if approved {
            let mut rs = self.risk_record(addr, now);
            rs.approved_claims = rs.approved_claims + 1;
            rs.total_payout = rs.total_payout + payout_amount;
            rs.last_updated = now;
            self.risk_scores.insert(addr, rs);
        }
        let mut m = self.metrics_or_default();
        if approved {
            m.total_claims_approved = m.total_claims_approved + 1;
        }
        self.metrics = Some(m);
        assert(self.claims@ =~= old(self).claims@.insert(claim_id, self.claims@[claim_id]));
        Ok(())
    }

    /// The checks of a payout, in the contract's order.
    pub open spec fn spec_payout_check(self, admin: AccountId, id: u64) -> Result<(), InsuranceError> {
        match self.spec_admin_check(admin) {
            Err(e) => Err(e),
            Ok(_) => if !self.claims@.contains_key(id) {
                Err(InsuranceError::ClaimNotFound)
            } else {
                let c = self.claims@[id];
                if c.status != ClaimStatus::Approved {
                    Err(InsuranceError::ClaimNotApproved)
                } else if self.premium_pool - self.reserve_pool < c.payout_amount
                    && self.premium_pool < c.payout_amount {
                    Err(InsuranceError::InsufficientPool)
                } else {
                    Ok(())
                }
            },
        }
    }

    /// Pays an approved claim to `recipient` from the pool (admin only): the
    /// pool must cover the payout, if need be with its reserve. The claim
    /// becomes Paid at `now`; the pool shrinks and the metrics record the
    /// payout.
    pub fn process_payout(
        &mut self,
        now: u64,
        contract: AccountId,
        admin: AccountId,
        claim_id: u64,
        recipient: AccountId,
    ) -> (r: Result<TokenTransfer, InsuranceError>)
        requires
            old(self).wf(),
            old(self).spec_admin_check(admin) is Ok && old(self).claims@.contains_key(claim_id)
                && old(self).claims@[claim_id].status == ClaimStatus::Approved ==> fits(
                old(self).premium_pool - old(self).reserve_pool,
            ),
            old(self).spec_payout_check(admin, claim_id) is Ok ==> {
                let pay = old(self).claims@[claim_id].payout_amount;
                let m = old(self).spec_metrics();
                &&& fits(old(self).premium_pool - pay)
                &&& fits(m.total_payouts + pay)
                &&& utilization_fits(
                    PoolMetrics { total_payouts: (m.total_payouts + pay) as i128, ..m },
                    old(self).reserve_pool,
                )
            },
        ensures
            final(self).wf(),
            old(self).spec_payout_check(admin, claim_id) matches Err(e) ==> r == Err::<
                TokenTransfer,
                InsuranceError,
            >(e) && *final(self) == *old(self),
            old(self).spec_payout_check(admin, claim_id) is Ok ==> {
                let c = old(self).claims@[claim_id];
                let pay = c.payout_amount;
                let m = old(self).spec_metrics();
                let pool = (old(self).premium_pool - pay) as i128;
                &&& r == Ok::<TokenTransfer, InsuranceError>(
                    TokenTransfer {
                        token: old(self).config->Some_0.payment_token,
                        from: contract,
                        to: recipient,
                        amount: pay,
                    },
                )
                &&& final(self).claims@ == old(self).claims@.insert(
                    claim_id,
                    Claim { status: ClaimStatus::Paid, payout_time: now, ..c },
                )
                &&& *final(self) == (Self {
                    claims: final(self).claims,
                    premium_pool: pool,
                    metrics: Some(
                        with_utilization(
                            PoolMetrics { total_payouts: (m.total_payouts + pay) as i128, ..m },
                            pool,
                            old(self).reserve_pool,
                        ),
                    ),
                    ..*old(self)
                })
            },
    {
        self.assert_admin(admin)?;
        let config = match self.config {
            Some(c) => c,
            None => return Err(InsuranceError::NotInitialized),
        };
        let (status, pay) = match self.claims.get(&claim_id) {
            Some(c) => (c.status, c.payout_amount),
            None => return Err(InsuranceError::ClaimNotFound),
        };
        if status != ClaimStatus::Approved {
            return Err(InsuranceError::ClaimNotApproved);
        }
        let pool = self.premium_pool;
        let available_pool = pool - self.reserve_pool;
        if available_pool < pay {
            if pool < pay {
                return Err(InsuranceError::InsufficientPool);
            }
        }
        let mut claim = match self.claims.remove(&claim_id) {
            Some(c) => c,
            None => return Err(InsuranceError::ClaimNotFound),
        };
        claim.status = ClaimStatus::Paid;
        claim.payout_time = now;
        self.claims.insert(claim_id, claim);
        self.premium_pool = pool - pay;
        let mut m = self.metrics_or_default();
        m.total_payouts = m.total_payouts + pay;
        self.metrics = Some(m);
        self.update_pool_utilization();
        assert(self.claims@ =~= old(self).claims@.insert(claim_id, self.claims@[claim_id]));
        Ok(TokenTransfer { token: config.payment_token, from: contract, to: recipient, amount: pay })
    }

    /// Adds `amount` to the pool from the admin (admin only, positive);
    /// the reserve takes its ratio of it.
    pub fn add_to_pool(&mut self, contract: AccountId, admin: AccountId, amount: i128) -> (r: Result<
        TokenTransfer,
        InsuranceError,
    >)
        requires
            old(self).wf(),
            old(self).spec_admin_check(admin) is Ok && amount > 0 ==> {
                let ratio = old(self).config->Some_0.reserve_ratio;
                &&& fits(old(self).premium_pool + amount)
                &&& fits(amount * ratio)
                &&& fits(old(self).reserve_pool + portion(amount, ratio))
            },
        ensures
            final(self).wf(),
            r == (match old(self).spec_admin_check(admin) {
                Err(e) => Err(e),
                Ok(_) => if amount <= 0 {
                    Err(InsuranceError::AmountNotPositive)
                } else {
                    Ok(
                        TokenTransfer {
                            token: old(self).config->Some_0.payment_token,
                            from: admin,
                            to: contract,
                            amount,
                        },
                    )
                },
            }),
            r.is_err() ==> *final(self) == *old(self),
            r.is_ok() ==> *final(self) == (Self {
                premium_pool: (old(self).premium_pool + amount) as i128,
                reserve_pool: (old(self).reserve_pool + portion(
                    amount,
                    old(self).config->Some_0.reserve_ratio,
                )) as i128,
                ..*old(self)
            }),
    {
        self.assert_admin(admin)?;
        if amount <= 0 {
            return Err(InsuranceError::AmountNotPositive);
        }
        let config = match self.config {
            Some(c) => c,
            None => return Err(InsuranceError::NotInitialized),
        };
        self.premium_pool = self.premium_pool + amount;
        let reserve_amount = apply_ratio(amount, config.reserve_ratio);
        self.reserve_pool = self.reserve_pool + reserve_amount;
        Ok(TokenTransfer { token: config.payment_token, from: admin, to: contract, amount })
    }

    /// What the pool can release: the pool above the larger of the reserve
    /// and a fifth of the pool.
    pub open spec fn spec_available(self) -> int {
        let min_reserve = tdiv(self.premium_pool * 2000, BASIS_POINTS as int);
        let kept = if self.reserve_pool >= min_reserve {
            self.reserve_pool as int
        } else {
            min_reserve
        };
        self.premium_pool - kept
    }

    /// Withdraws `amount` from the pool to the admin (admin only, positive,
    /// at most what the pool can release); the reserve gives up its ratio of
    /// it.
    pub fn withdraw_from_pool(&mut self, contract: AccountId, admin: AccountId, amount: i128) -> (r:
        Result<TokenTransfer, InsuranceError>)
        requires
            old(self).wf(),
            old(self).spec_admin_check(admin) is Ok && amount > 0 ==> fits(
                old(self).premium_pool * 2000,
            ) && fits(old(self).spec_available()),
            old(self).spec_admin_check(admin) is Ok && amount > 0 && amount
                <= old(self).spec_available() ==> {
                let ratio = old(self).config->Some_0.reserve_ratio;
                &&& fits(old(self).premium_pool - amount)
                &&& fits(amount * ratio)
                &&& fits(old(self).reserve_pool - portion(amount, ratio))
            },
        ensures
            final(self).wf(),
            r == (match old(self).spec_admin_check(admin) {
                Err(e) => Err(e),
                Ok(_) => if amount <= 0 {
                    Err(InsuranceError::AmountNotPositive)
                } else if old(self).spec_available() < amount {
                    Err(InsuranceError::InsufficientAvailable)
                } else {
                    Ok(
                        TokenTransfer {
                            token: old(self).config->Some_0.payment_token,
                            from: contract,
                            to: admin,
                            amount,
                        },
                    )
                },
            }),
            r.is_err() ==> *final(self) == *old(self),
            r.is_ok() ==> *final(self) == (Self {
                premium_pool: (old(self).premium_pool - amount) as i128,
                reserve_pool: (old(self).reserve_pool - portion(
                    amount,
                    old(self).config->Some_0.reserve_ratio,
                )) as i128,
                ..*old(self)
            }),
    {
        self.assert_admin(admin)?;
        if amount <= 0 {
            return Err(InsuranceError::AmountNotPositive);
        }
        let pool = self.premium_pool;
        let reserve = self.reserve_pool;
        let min_reserve = (pool * 2000) / (BASIS_POINTS as i128);
        let kept = if reserve >= min_reserve {
            reserve
        } else {
            min_reserve
        };
        let available = pool - kept;
        if available < amount {
            return Err(InsuranceError::InsufficientAvailable);
        }
        let config = match self.config {
            Some(c) => c,
            None => return Err(InsuranceError::NotInitialized),
        };
        self.premium_pool = pool - amount;
        let reserve_reduction = apply_ratio(amount, config.reserve_ratio);
        self.reserve_pool = reserve - reserve_reduction;
        Ok(TokenTransfer { token: config.payment_token, from: contract, to: admin, amount })
    }

    /// The reserve after rebalancing: raised to the required ratio of the
    /// pool when the pool above the reserve covers the shortfall, lowered to
    /// it when above, else unchanged.
    pub open spec fn rebalanced_reserve(self) -> i128 {
        let required = portion(self.premium_pool, self.config->Some_0.reserve_ratio);
        let current = self.reserve_pool;
        if current < required {
            if self.premium_pool - current >= required - current {
                required as i128
            } else {
                current
            }
        } else if current > required {
            required as i128
        } else {
            current
        }
    }

    /// Rebalances the reserve toward its ratio of the pool (admin only) and
    /// recomputes the utilization metrics.
    pub fn update_reserves(&mut self, admin: AccountId) -> (r: Result<(), InsuranceError>)
        requires
            old(self).wf(),
            old(self).spec_admin_check(admin) is Ok ==> {
                &&& fits(old(self).premium_pool * old(self).config->Some_0.reserve_ratio)
                &&& fits(old(self).premium_pool - old(self).reserve_pool)
                &&& utilization_fits(old(self).spec_metrics(), old(self).rebalanced_reserve())
            },
        ensures
            final(self).wf(),
            r == old(self).spec_admin_check(admin),
            r.is_err() ==> *final(self) == *old(self),
            r.is_ok() ==> *final(self) == (Self {
                reserve_pool: old(self).rebalanced_reserve(),
                metrics: Some(
                    with_utilization(
                        old(self).spec_metrics(),
                        old(self).premium_pool,
                        old(self).rebalanced_reserve(),
                    ),
                ),
                ..*old(self)
            }),
    {
        self.assert_admin(admin)?;
        let config = match self.config {
            Some(c) => c,
            None => return Err(InsuranceError::NotInitialized),
        };
        let pool = self.premium_pool;
        let required_reserve = apply_ratio(pool, config.reserve_ratio);
        let current_reserve = self.reserve_pool;
        if current_reserve < required_reserve {
            let shortage = required_reserve - current_reserve;
            let available_pool = pool - current_reserve;
            if available_pool >= shortage {
                self.reserve_pool = required_reserve;
            }
        } else if current_reserve > required_reserve {
            self.reserve_pool = required_reserve;
        }
        self.update_pool_utilization();
        Ok(())
    }

    /// Sets a contract's risk level and its score (admin only), creating
    /// the record when absent.
    pub fn set_risk_level(&mut self, now: u64, admin: AccountId, contract_address: AccountId, risk_level: RiskLevel) -> (r:
        Result<(), InsuranceError>)
        requires
            old(self).wf(),
        ensures
            final(self).wf(),
            r == old(self).spec_admin_check(admin),
            r.is_err() ==> *final(self) == *old(self),
            r.is_ok() ==> {
                let base = if old(self).risk_scores@.contains_key(contract_address) {
                    old(self).risk_scores@[contract_address]
                } else {
                    RiskScore {
                        contract_address,
                        risk_level,
                        score: spec_risk_score(risk_level),
                        total_claims: 0,
                        approved_claims: 0,
                        total_payout: 0,
                        last_updated: now,
                    }
                };
                &&& final(self).risk_scores@ == old(self).risk_scores@.insert(
                    contract_address,
                    RiskScore {
                        risk_level,
                        score: spec_risk_score(risk_level),
                        last_updated: now,
                        ..base
                    },
                )
                &&& *final(self) == (Self { risk_scores: final(self).risk_scores, ..*old(self) })
            },
    {
        self.assert_admin(admin)?;
        let score = Self::risk_level_to_score(risk_level);
        let mut rs = match self.risk_scores.get(&contract_address) {
            Some(rs) => *rs,
            None => RiskScore {
                contract_address,
                risk_level,
                score,
                total_claims: 0,
                approved_claims: 0,
                total_payout: 0,
                last_updated: now,
            },
        };
        rs.risk_level = risk_level;
        rs.score = score;
        rs.last_updated = now;
        self.risk_scores.insert(contract_address, rs);
        Ok(())
    }

    /// A contract's risk record, or a Medium record (score 50) at time 0.
    pub fn get_risk_assessment(&self, contract_address: AccountId) -> (r: RiskScore)
        ensures
            r == (if self.risk_scores@.contains_key(contract_address) {
                self.risk_scores@[contract_address]
            } else {
                RiskScore {
                    contract_address,
                    risk_level: RiskLevel::Medium,
                    score: 50,
                    total_claims: 0,
                    approved_claims: 0,
                    total_payout: 0,
                    last_updated: 0,
                }
            }),
    {
        self.risk_record(contract_address, 0)
    }

    pub fn get_policy(&self, contract_address: AccountId) -> (r: Option<ContractPolicy>)
        ensures
            r == (if self.policies@.contains_key(contract_address) {
                Some(self.policies@[contract_address])
            } else {
                None
            }),
    {
        match self.policies.get(&contract_address) {
            Some(p) => Some(*p),
            None => None,
        }
    }

    pub fn get_claim(&self, claim_id: u64) -> (r: Option<&Claim>)
        ensures
            r == (if self.claims@.contains_key(claim_id) {
                Some(&self.claims@[claim_id])
            } else {
                None
            }),
    {
        self.claims.get(&claim_id)
    }

    pub fn get_contract_claims(&self, contract_address: AccountId) -> (r: Vec<u64>)
        ensures
            r@ == self.claims_of(contract_address),
    {
        match self.contract_claims.get(&contract_address) {
            Some(ids) => ids.clone(),
            None => Vec::new(),
        }
    }

    pub fn get_all_policies(&self) -> (r: &Vec<AccountId>)
        ensures
            r@ == self.policy_list@,
    {
        &self.policy_list
    }

    pub fn get_total_policies(&self) -> (r: u64)
        ensures
            r == self.total_policies,
    {
        self.total_policies
    }

    pub fn get_total_claims(&self) -> (r: u64)
        ensures
            r == self.total_claims,
    {
        self.total_claims
    }

    /// Whether a contract's policy is active and `now` lies in its period.
    pub fn is_coverage_active(&self, now: u64, contract_address: AccountId) -> (r: bool)
        ensures
            r == (self.policies@.contains_key(contract_address) && {
                let p = self.policies@[contract_address];
                p.status == PolicyStatus::Active && p.start_time <= now <= p.end_time
            }),
    {
        match self.policies.get(&contract_address) {
            Some(p) => p.status == PolicyStatus::Active && now >= p.start_time && now
                <= p.end_time,
            None => false,
        }
    }

    pub fn get_premium_pool(&self) -> (r: i128)
        ensures
            r == self.premium_pool,
    {
        self.premium_pool
    }

    pub fn get_reserve_pool(&self) -> (r: i128)
        ensures
            r == self.reserve_pool,
    {
        self.reserve_pool
    }

    pub fn get_config(&self) -> (r: Result<PoolConfig, InsuranceError>)
        ensures
            r == (match self.config {
                Some(c) => Ok(c),
                None => Err(InsuranceError::NotInitialized),
            }),
    {
        match self.config {
            Some(c) => Ok(c),
            None => Err(InsuranceError::NotInitialized),
        }
    }

    pub fn get_pool_metrics(&self) -> (r: Result<PoolMetrics, InsuranceError>)
        ensures
            r == (match self.metrics {
                Some(m) => Ok(m),
                None => Err(InsuranceError::NotInitialized),
            }),
    {
        match self.metrics {
            Some(m) => Ok(m),
            None => Err(InsuranceError::NotInitialized),
        }
    }

    /// The premium a purchase with these terms would cost at a risk level.
    pub fn calculate_premium_quote(&self, coverage_amount: i128, coverage_period: u64, risk_level: RiskLevel) -> (r:
        Result<i128, InsuranceError>)
        requires
            self.config matches Some(c) ==> {
                let rate = spec_premium_rate(c.base_premium_rate, risk_level);
                &&& c.base_premium_rate * risk_multiplier(risk_level) <= u32::MAX
                &&& premium_fits(rate, coverage_amount, coverage_period)
            },
        ensures
            r == (match self.config {
                Some(c) => Ok(
                    spec_premium(
                        spec_premium_rate(c.base_premium_rate, risk_level),
                        coverage_amount,
                        coverage_period,
                    ),
                ),
                None => Err(InsuranceError::NotInitialized),
            }),
    {
        let config = match self.config {
            Some(c) => c,
            None => return Err(InsuranceError::NotInitialized),
        };
        let rate = Self::calculate_premium_rate(&config, risk_level);
        Ok(Self::calculate_premium(rate, coverage_amount, coverage_period))
    }

    /// Replaces the configuration with `f(config)` after the admin check.
    pub open spec fn config_updated(self, new: Self, r: Result<(), InsuranceError>, admin: AccountId, c: PoolConfig) -> bool {
        &&& r == self.spec_admin_check(admin)
        &&& r.is_err() ==> new == self
        &&& r.is_ok() ==> new == (Self { config: Some(c), ..self })
    }

    pub fn update_premium_rate(&mut self, admin: AccountId, base_rate: u32) -> (r: Result<(), InsuranceError>)
        requires
            old(self).wf(),
        ensures
            final(self).wf(),
            old(self).config_updated(
                *final(self),
                r,
                admin,
                PoolConfig { base_premium_rate: base_rate, ..old(self).config->Some_0 },
            ),
    {
        self.assert_admin(admin)?;
        match &mut self.config {
            Some(c) => {
                c.base_premium_rate = base_rate;
                Ok(())
            },
            None => Err(InsuranceError::NotInitialized),
        }
    }

    pub fn update_coverage_limits(&mut self, admin: AccountId, min_period: u64, max_period: u64, max_amount: i128) -> (r:
        Result<(), InsuranceError>)
        requires
            old(self).wf(),
        ensures
            final(self).wf(),
            old(self).config_updated(
                *final(self),
                r,
                admin,
                PoolConfig {
                    min_coverage_period: min_period,
                    max_coverage_period: max_period,
                    max_coverage_amount: max_amount,
                    ..old(self).config->Some_0
                },
            ),
    {
        self.assert_admin(admin)?;
        match &mut self.config {
            Some(c) => {
                c.min_coverage_period = min_period;
                c.max_coverage_period = max_period;
                c.max_coverage_amount = max_amount;
                Ok(())
            },
            None => Err(InsuranceError::NotInitialized),
        }
    }

    /// Sets the reserve ratio (admin only, at most 100%).
    pub fn update_reserve_ratio(&mut self, admin: AccountId, reserve_ratio: u32) -> (r: Result<(), InsuranceError>)
        requires
            old(self).wf(),
        ensures
            final(self).wf(),
            old(self).spec_admin_check(admin) is Ok && reserve_ratio > 10000 ==> r == Err::<(), InsuranceError>(
                InsuranceError::RatioTooHigh,
            ) && *final(self) == *old(self),
            !(old(self).spec_admin_check(admin) is Ok && reserve_ratio > 10000) ==> old(self).config_updated(
                *final(self),
                r,
                admin,
                PoolConfig { reserve_ratio, ..old(self).config->Some_0 },
            ),
    {
        self.assert_admin(admin)?;
        if reserve_ratio > 10000 {
            return Err(InsuranceError::RatioTooHigh);
        }
        match &mut self.config {
            Some(c) => {
                c.reserve_ratio = reserve_ratio;
                Ok(())
            },
            None => Err(InsuranceError::NotInitialized),
        }
    }

    /// Sets the maximum payout ratio (admin only, at most 100%).
    pub fn update_max_payout_ratio(&mut self, admin: AccountId, max_payout_ratio: u32) -> (r: Result<(), InsuranceError>)
        requires
            old(self).wf(),
        ensures
            final(self).wf(),
            old(self).spec_admin_check(admin) is Ok && max_payout_ratio > 10000 ==> r == Err::<(), InsuranceError>(
                InsuranceError::RatioTooHigh,
            ) && *final(self) == *old(self),
            !(old(self).spec_admin_check(admin) is Ok && max_payout_ratio > 10000) ==> old(self).config_updated(
                *final(self),
                r,
                admin,
                PoolConfig { max_payout_ratio, ..old(self).config->Some_0 },
            ),
    {
        self.assert_admin(admin)?;
        if max_payout_ratio > 10000 {
            return Err(InsuranceError::RatioTooHigh);
        }
        match &mut self.config {
            Some(c) => {
                c.max_payout_ratio = max_payout_ratio;
                Ok(())
            },
            None => Err(InsuranceError::NotInitialized),
        }
    }

    pub fn set_paused(&mut self, admin: AccountId, paused: bool) -> (r: Result<(), InsuranceError>)
        requires
            old(self).wf(),
        ensures
            final(self).wf(),
            old(self).config_updated(
                *final(self),
                r,
                admin,
                PoolConfig { paused, ..old(self).config->Some_0 },
            ),
    {
        self.assert_admin(admin)?;
        match &mut self.config {
            Some(c) => {
                c.paused = paused;
                Ok(())
            },
            None => Err(InsuranceError::NotInitialized),
        }
    }

    /// Empties the pool to the admin (admin only): a positive pool is sent
    /// and both pools drop to 0. Returns the pool as it was.
    pub fn emergency_withdraw(&mut self, contract: AccountId, admin: AccountId) -> (r: Result<
        (i128, Option<TokenTransfer>),
        InsuranceError,
    >)
        requires
            old(self).wf(),
        ensures
            final(self).wf(),
            r == (match old(self).spec_admin_check(admin) {
                Err(e) => Err(e),
                Ok(_) => Ok(
                    (
                        old(self).premium_pool,
                        if old(self).premium_pool > 0 {
                            Some(
                                TokenTransfer {
                                    token: old(self).config->Some_0.payment_token,
                                    from: contract,
                                    to: admin,
                                    amount: old(self).premium_pool,
                                },
                            )
                        } else {
                            None
                        },
                    ),
                ),
            }),
            (r.is_err() || old(self).premium_pool <= 0) ==> *final(self) == *old(self),
            (r.is_ok() && old(self).premium_pool > 0) ==> *final(self) == (Self {
                premium_pool: 0,
                reserve_pool: 0,
                ..*old(self)
            }),
    {
        self.assert_admin(admin)?;
        let pool = self.premium_pool;
        if pool > 0 {
            let config = match self.config {
                Some(c) => c,
                None => return Err(InsuranceError::NotInitialized),
            };
            self.premium_pool = 0;
            self.reserve_pool = 0;
            return Ok(
                (
                    pool,
                    Some(
                        TokenTransfer { token: config.payment_token, from: contract, to: admin, amount: pool },
                    ),
                ),
            );
        }
        Ok((pool, None))
    }
}

/// A riskier level never gets a lower premium rate: Low <= Medium <= High
/// <= Critical, for any base rate the rate computation accepts.
pub proof fn lemma_rate_monotone_in_risk(base: u32)
    requires
        base * 200 <= u32::MAX,
    ensures
        spec_premium_rate(base, RiskLevel::Low) <= spec_premium_rate(base, RiskLevel::Medium),
        spec_premium_rate(base, RiskLevel::Medium) <= spec_premium_rate(base, RiskLevel::High),
        spec_premium_rate(base, RiskLevel::High) <= spec_premium_rate(base, RiskLevel::Critical),
{
    assert(base * 80 <= base * 100 <= base * 150 <= base * 200);
    assert((base * 80) / 100 <= (base * 100) / 100) by (nonlinear_arith)
        requires
            base * 80 <= base * 100,
            base >= 0,
    ;
    assert((base * 100) / 100 <= (base * 150) / 100) by (nonlinear_arith)
        requires
            base * 100 <= base * 150,
            base >= 0,
    ;
    assert((base * 150) / 100 <= (base * 200) / 100) by (nonlinear_arith)
        requires
            base * 150 <= base * 200,
            base >= 0,
    ;
}

/// For a non-negative amount, a higher rate never gives a lower premium
/// (for terms whose premium can be computed).
pub proof fn lemma_premium_monotone_in_rate(r1: u32, r2: u32, amount: i128, period: u64)
    requires
        r1 <= r2,
        amount >= 0,
        premium_fits(r2, amount, period),
    ensures
        spec_premium(r1, amount, period) <= spec_premium(r2, amount, period),
{
    let d = period / SECONDS_PER_DAY;
    assert(amount * r1 * d <= amount * r2 * d) by (nonlinear_arith)
        requires
            r1 <= r2,
            amount >= 0,
            d >= 0,
    ;
    assert(0 <= amount * r1 * d) by (nonlinear_arith)
        requires
            r1 >= 0,
            amount >= 0,
            d >= 0,
    ;
    assert((amount * r1 * d) / 3650000int <= (amount * r2 * d) / 3650000int) by (nonlinear_arith)
        requires
            0 <= amount * r1 * d <= amount * r2 * d,
    ;
    assert((amount * r2 * d) / 3650000int <= amount * r2 * d) by (nonlinear_arith)
        requires
            0 <= amount * r2 * d,
    ;
}

/// A cancellation never refunds more than the premium paid, nor less
/// than nothing.
pub proof fn lemma_refund_within_premium(p: ContractPolicy, now: u64)
    requires
        p.premium_paid >= 0,
        p.start_time <= now,
        p.start_time <= p.end_time,
    ensures
        0 <= InsurancePoolContract::spec_refund(p, now) <= p.premium_paid,
{
    if p.end_time > now {
        let total = p.end_time - p.start_time;
        let rem = p.end_time - now;
        assert(0 < rem <= total);
        assert(0 <= p.premium_paid * rem <= p.premium_paid * total) by (nonlinear_arith)
            requires
                0 < rem <= total,
                p.premium_paid >= 0,
        ;
        assert((p.premium_paid * rem) / total <= p.premium_paid) by (nonlinear_arith)
            requires
                0 <= p.premium_paid * rem <= p.premium_paid * total,
                total > 0,
                p.premium_paid >= 0,
        ;
    }
}

/// A cancellation refunds the premium in proportion to the unused part of
/// the period: `refund` whole periods fit in `premium * remaining` and
/// `refund + 1` do not. So a cancellation at the start refunds the whole
/// premium, and any later one strictly less.
pub proof fn lemma_refund_prorated(p: ContractPolicy, now: u64)
    requires
        p.premium_paid >= 0,
        p.start_time <= now < p.end_time,
    ensures
        InsurancePoolContract::spec_refund(p, now) * (p.end_time - p.start_time) <= p.premium_paid * (
        p.end_time - now),
        p.premium_paid * (p.end_time - now) < (InsurancePoolContract::spec_refund(p, now) + 1) * (p.end_time
            - p.start_time),
        now == p.start_time ==> InsurancePoolContract::spec_refund(p, now) == p.premium_paid,
        now > p.start_time && p.premium_paid > 0 ==> InsurancePoolContract::spec_refund(p, now)
            < p.premium_paid,
{
    let total: int = p.end_time - p.start_time;
    let rem: int = p.end_time - now;
    let x: int = p.premium_paid * rem;
    assert(0 <= x <= p.premium_paid * total) by (nonlinear_arith)
        requires
            p.premium_paid >= 0,
            0 < rem <= total,
            x == p.premium_paid * rem,
    ;
    lemma_floor_div(x, total);
    let r: int = x / total;
    if now == p.start_time {
        assert(rem == total);
        assert(r == p.premium_paid) by (nonlinear_arith)
            requires
                total > 0,
                r * total <= p.premium_paid * total,
                p.premium_paid * total < (r + 1) * total,
        ;
    }
    if now > p.start_time && p.premium_paid > 0 {
        assert(r < p.premium_paid) by (nonlinear_arith)
            requires
                total > 0,
                rem < total,
                p.premium_paid > 0,
                r * total <= p.premium_paid * rem,
        ;
    }
}

} // verus!
