//! A constant-product pool of two tokens: providers add and remove liquidity
//! for pool shares, swappers trade one token for the other against the
//! reserves, paying a fee that the pool records for collection.
use std::collections::HashMap;
use vstd::prelude::*;

use crate::common::lemma_floor_div;
use crate::governance_token::{lemma_sum_insert, sum_of};
use crate::token::TokenTransfer;

verus! {

broadcast use vstd::std_specs::hash::group_hash_axioms;

/// An account or contract address, identified by a number.
pub type AccountId = u64;

/// Fees are in basis points of the input; at most 10%.
pub const MAX_FEE_BPS: u32 = 1000;
/// Scale of the spot price.
pub const PRICE_SCALE: u128 = 1_000_000_000_000;
/// Scale of the price the oracle accumulates.
pub const ORACLE_SCALE: u128 = 1_000_000_000_000_000_000;

#[derive(Clone, Copy, Debug, PartialEq, Eq, Structural)]
pub enum PoolError {
    AlreadyInitialized,
    NotInitialized,
    FeeTooHigh,
    InsufficientAmountA,
    InsufficientAmountB,
    InsufficientLiquidityMinted,
    InsufficientLpBalance,
    SlippageExceeded,
    InvalidToken,
    InvalidInputAmount,
    InsufficientOutputAmount,
    Unauthorized,
}

/// The pool's reserves of both tokens and the fees recorded in each.
#[derive(Clone, Copy, Debug, PartialEq, Eq, Structural)]
pub struct Reserves {
    pub reserve_a: i128,
    pub reserve_b: i128,
    pub fees_a: i128,
    pub fees_b: i128,
}

/// Time of the last oracle update and the price accumulated over time.
#[derive(Clone, Copy, Debug, PartialEq, Eq, Structural)]
pub struct PriceOracle {
    pub last_timestamp: u64,
    pub cumulative_price: u128,
}

impl Reserves {
    /// Empty reserves, no fees.
    pub fn new() -> (r: Self)
        ensures
            r == (Reserves { reserve_a: 0, reserve_b: 0, fees_a: 0, fees_b: 0 }),
    {
        Reserves { reserve_a: 0, reserve_b: 0, fees_a: 0, fees_b: 0 }
    }
}

impl PriceOracle {
    /// An oracle that was never updated.
    pub fn new() -> (r: Self)
        ensures
            r == (PriceOracle { last_timestamp: 0, cumulative_price: 0 }),
    {
        PriceOracle { last_timestamp: 0, cumulative_price: 0 }
    }
}

/// The integer square root: the largest `r` with `r * r <= n`.
pub open spec fn is_isqrt(n: u128, r: u128) -> bool {
    r * r <= n < (r + 1) * (r + 1)
}

/// The integer square root of `n`.
pub open spec fn spec_isqrt(n: u128) -> u128 {
    choose|q: u128| #[trigger] is_isqrt(n, q)
}

/// The integer square root is unique.
pub proof fn lemma_isqrt_unique(n: u128, a: u128, b: u128)
    requires
        is_isqrt(n, a),
        is_isqrt(n, b),
    ensures
        a == b,
{
    if a < b {
        assert((a + 1) * (a + 1) <= b * b) by (nonlinear_arith)
            requires
                a + 1 <= b,
        ;
    } else if b < a {
        assert((b + 1) * (b + 1) <= a * a) by (nonlinear_arith)
            requires
                b + 1 <= a,
        ;
    }
}

/// Every number has an integer square root.
pub proof fn lemma_isqrt_exists(n: u128)
    ensures
        is_isqrt(n, spec_isqrt(n)),
    decreases n,
{
    if n == 0 {
        assert(is_isqrt(0, 0));
    } else {
        let m = (n - 1) as u128;
        lemma_isqrt_exists(m);
        let q = spec_isqrt(m);
        if (q + 1) * (q + 1) <= n {
            assert(q < m + 1) by (nonlinear_arith)
                requires
                    q * q <= m,
            ;
            let q1 = (q + 1) as u128;
            assert(is_isqrt(n, q1)) by (nonlinear_arith)
                requires
                    q1 == q + 1,
                    q1 * q1 <= n,
                    m < q1 * q1,
                    n == m + 1,
            ;
        } else {
            assert(is_isqrt(n, q));
        }
    }
}

/// The integer square root of `n`, by bisection.
pub fn isqrt(n: u128) -> (r: u128)
    ensures
        is_isqrt(n, r),
        r == spec_isqrt(n),
{
    let mut lo: u128 = 0;
    let mut hi: u128 = 0x1_0000_0000_0000_0000;
    assert(hi * hi > u128::MAX) by (nonlinear_arith)
        requires
            hi == 0x1_0000_0000_0000_0000u128,
    ;
    while hi - lo > 1
        invariant
            lo < hi <= 0x1_0000_0000_0000_0000u128,
            lo * lo <= n,
            n < hi * hi,
        decreases hi - lo,
    {
        let mid = lo + (hi - lo) / 2;
        assert(mid * mid <= 0xFFFF_FFFF_FFFF_FFFFu128 * 0xFFFF_FFFF_FFFF_FFFFu128) by (nonlinear_arith)
            requires
                0 <= mid < 0x1_0000_0000_0000_0000u128,
        ;
        if mid * mid <= n {
            lo = mid;
        } else {
            hi = mid;
        }
    }
    assert(hi == lo + 1);
    proof {
        lemma_isqrt_unique(n, lo, spec_isqrt(n));
    }
    lo
}

/// The contract's storage.
pub struct LiquidityPoolContract {
    pub initialized: bool,
    pub admin: Option<AccountId>,
    /// The two tokens, the smaller address first.
    pub token_a: Option<AccountId>,
    pub token_b: Option<AccountId>,
    pub reserves: Reserves,
    pub total_supply: i128,
    pub fee_bps: Option<u32>,
    pub fee_recipient: Option<AccountId>,
    /// Pool shares held by each account.
    pub balances: HashMap<AccountId, i128>,
    pub oracle: PriceOracle,
}

/// Division rounding toward zero, as integer division does.
pub open spec fn tdiv_i(a: int, b: int) -> int {
    if a >= 0 {
        a / b
    } else {
        -((-a) / b)
    }
}

pub open spec fn min_u128(a: u128, b: u128) -> u128 {
    if a <= b {
        a
    } else {
        b
    }
}

/// `x` fits in a `u128`.
pub open spec fn fits_u128(x: int) -> bool {
    0 <= x <= u128::MAX
}

/// `x` fits in an `i128`.
pub open spec fn fits_i128(x: int) -> bool {
    i128::MIN <= x <= i128::MAX
}

/// The amounts an addition of liquidity deposits and the shares it mints:
/// the desired amounts into an empty pool (shares: the integer square root
/// of their product); otherwise the desired amount of one token and the
/// matching amount of the other at the current reserve ratio, the smaller
/// share of either reserve minting. Amounts are taken as unsigned 128-bit
/// integers, as the contract does.
pub open spec fn spec_deposit(
    r: Reserves,
    total_supply: i128,
    a_desired: i128,
    b_desired: i128,
    a_min: i128,
    b_min: i128,
) -> Result<(i128, i128, i128), PoolError> {
    if r.reserve_a == 0 && r.reserve_b == 0 {
        let liquidity = spec_isqrt(((a_desired as u128) * (b_desired as u128)) as u128) as i128;
        if liquidity <= 0 {
            Err(PoolError::InsufficientLiquidityMinted)
        } else {
            Ok((a_desired, b_desired, liquidity))
        }
    } else {
        let ra = r.reserve_a as u128;
        let rb = r.reserve_b as u128;
        let picked = spec_pick(r, a_desired, b_desired, a_min, b_min);
        match picked {
            Err(e) => Err(e),
            Ok((a, b)) => {
                let ts = total_supply as u128;
                let liquidity = min_u128(
                    ((a as u128) * ts / (ra as int)) as u128,
                    ((b as u128) * ts / (rb as int)) as u128,
                ) as i128;
                if liquidity <= 0 {
                    Err(PoolError::InsufficientLiquidityMinted)
                } else {
                    Ok((a, b, liquidity))
                }
            },
        }
    }
}

/// The amounts deposited into a non-empty pool: all of token A and the
/// matching B when that B does not exceed the desired B, else all of B and
/// the matching A; the amount taken in full must reach its minimum.
pub open spec fn spec_pick(r: Reserves, a_desired: i128, b_desired: i128, a_min: i128, b_min: i128) -> Result<
    (i128, i128),
    PoolError,
> {
    let ra = r.reserve_a as u128;
    let rb = r.reserve_b as u128;
    let b_optimal = (rb * (a_desired as u128) / (ra as int)) as u128;
    let a_optimal = (ra * (b_desired as u128) / (rb as int)) as u128;
    if b_optimal <= b_desired as u128 {
        if a_desired < a_min {
            Err(PoolError::InsufficientAmountA)
        } else {
            Ok((a_desired, b_optimal as i128))
        }
    } else {
        if b_desired < b_min {
            Err(PoolError::InsufficientAmountB)
        } else {
            Ok((a_optimal as i128, b_desired))
        }
    }
}

/// The unsigned arithmetic of an addition stays within `u128` (no zero
/// divisor, no overflow).
pub open spec fn deposit_fits(
    r: Reserves,
    total_supply: i128,
    a_desired: i128,
    b_desired: i128,
    a_min: i128,
    b_min: i128,
) -> bool {
    if r.reserve_a == 0 && r.reserve_b == 0 {
        fits_u128((a_desired as u128) * (b_desired as u128))
    } else {
        let ra = r.reserve_a as u128;
        let rb = r.reserve_b as u128;
        &&& ra != 0
        &&& rb != 0
        &&& fits_u128(rb * (a_desired as u128))
        &&& fits_u128(ra * (b_desired as u128))
        &&& spec_pick(r, a_desired, b_desired, a_min, b_min) matches Ok((a, b))
            ==> fits_u128((a as u128) * (total_supply as u128)) && fits_u128(
            (b as u128) * (total_supply as u128),
        )
    }
}

impl LiquidityPoolContract {
    /// Storage invariant: a stored fee is at most 10%.
    pub open spec fn wf(self) -> bool {
        self.fee_bps matches Some(f) ==> f <= MAX_FEE_BPS
    }

    /// The pool shares outstanding are the sum of the shares held.
    pub open spec fn shares_ok(self) -> bool {
        self.total_supply == sum_of(self.balances@)
    }

    pub open spec fn balance(self, who: AccountId) -> i128 {
        if self.balances@.contains_key(who) {
            self.balances@[who]
        } else {
            0
        }
    }

    pub fn new() -> (r: Self)
        ensures
            r.wf(),
            r.shares_ok(),
            !r.initialized,
            r.admin is None && r.token_a is None && r.token_b is None,
            r.reserves == (Reserves { reserve_a: 0, reserve_b: 0, fees_a: 0, fees_b: 0 }),
            r.total_supply == 0,
            r.fee_bps is None && r.fee_recipient is None,
            r.balances@ == Map::<AccountId, i128>::empty(),
            r.oracle == (PriceOracle { last_timestamp: 0, cumulative_price: 0 }),
    {
        LiquidityPoolContract {
            initialized: false,
            admin: None,
            token_a: None,
            token_b: None,
            reserves: Reserves::new(),
            total_supply: 0,
            fee_bps: None,
            fee_recipient: None,
            balances: HashMap::new(),
            oracle: PriceOracle::new(),
        }
    }

    /// Sets up the pool (once) with its admin (also the first fee
    /// recipient), its two tokens in address order and a fee of at most 10%.
    pub fn initialize(&mut self, admin: AccountId, token_a: AccountId, token_b: AccountId, fee_bps: u32) -> (r:
        Result<(), PoolError>)
        requires
            old(self).wf(),
        ensures
            final(self).wf(),
            old(self).shares_ok() ==> final(self).shares_ok(),
            r == (if old(self).initialized {
                Err(PoolError::AlreadyInitialized)
            } else if fee_bps > MAX_FEE_BPS {
                Err(PoolError::FeeTooHigh)
            } else {
                Ok(())
            }),
            r.is_err() ==> *final(self) == *old(self),
            r.is_ok() ==> *final(self) == (Self {
                initialized: true,
                admin: Some(admin),
                token_a: Some(if token_a < token_b { token_a } else { token_b }),
                token_b: Some(if token_a < token_b { token_b } else { token_a }),
                fee_bps: Some(fee_bps),
                fee_recipient: Some(admin),
                ..*old(self)
            }),
    {
        if self.initialized {
            return Err(PoolError::AlreadyInitialized);
        }
        if fee_bps > MAX_FEE_BPS {
            return Err(PoolError::FeeTooHigh);
        }
        let (token0, token1) = if token_a < token_b {
            (token_a, token_b)
        } else {
            (token_b, token_a)
        };
        self.token_a = Some(token0);
        self.token_b = Some(token1);
        self.admin = Some(admin);
        self.fee_bps = Some(fee_bps);
        self.fee_recipient = Some(admin);
        self.initialized = true;
        Ok(())
    }

    /// The two tokens (`NotInitialized` before setup).
    pub fn get_tokens(&self) -> (r: Result<(AccountId, AccountId), PoolError>)
        ensures
            r == (match (self.token_a, self.token_b) {
                (Some(a), Some(b)) => Ok((a, b)),
                _ => Err(PoolError::NotInitialized),
            }),
    {
        match (self.token_a, self.token_b) {
            (Some(a), Some(b)) => Ok((a, b)),
            _ => Err(PoolError::NotInitialized),
        }
    }

    /// Adds liquidity from `provider`, minting shares to `to`: into an empty
    /// pool the desired amounts go in as they are; otherwise at the reserve
    /// ratio, respecting the minimums. The deposits join the reserves.
    /// Returns the shares minted and the two deposits to perform.
    pub fn add_liquidity(
        &mut self,
        contract: AccountId,
        provider: AccountId,
        amount_a_desired: i128,
        amount_b_desired: i128,
        amount_a_min: i128,
        amount_b_min: i128,
        to: AccountId,
    ) -> (r: Result<(i128, TokenTransfer, TokenTransfer), PoolError>)
        requires
            old(self).wf(),
            deposit_fits(
                old(self).reserves,
                old(self).total_supply,
                amount_a_desired,
                amount_b_desired,
                amount_a_min,
                amount_b_min,
            ),
            spec_deposit(
                old(self).reserves,
                old(self).total_supply,
                amount_a_desired,
                amount_b_desired,
                amount_a_min,
                amount_b_min,
            ) matches Ok((a, b, l)) ==> {
                &&& fits_i128(old(self).reserves.reserve_a + a)
                &&& fits_i128(old(self).reserves.reserve_b + b)
                &&& fits_i128(old(self).total_supply + l)
                &&& fits_i128(old(self).balance(to) + l)
            },
        ensures
            final(self).wf(),
            old(self).shares_ok() ==> final(self).shares_ok(),
            match (old(self).token_a, old(self).token_b) {
                (Some(t0), Some(t1)) => match spec_deposit(
                    old(self).reserves,
                    old(self).total_supply,
                    amount_a_desired,
                    amount_b_desired,
                    amount_a_min,
                    amount_b_min,
                ) {
                    Err(e) => r == Err::<(i128, TokenTransfer, TokenTransfer), PoolError>(e)
                        && *final(self) == *old(self),
                    Ok((a, b, l)) => {
                        &&& r == Ok::<(i128, TokenTransfer, TokenTransfer), PoolError>(
                            (
                                l,
                                TokenTransfer { token: t0, from: provider, to: contract, amount: a },
                                TokenTransfer { token: t1, from: provider, to: contract, amount: b },
                            ),
                        )
                        &&& final(self).balances@ == old(self).balances@.insert(
                            to,
                            (old(self).balance(to) + l) as i128,
                        )
                        &&& *final(self) == (Self {
                            reserves: Reserves {
                                reserve_a: (old(self).reserves.reserve_a + a) as i128,
                                reserve_b: (old(self).reserves.reserve_b + b) as i128,
                                ..old(self).reserves
                            },
                            total_supply: (old(self).total_supply + l) as i128,
                            balances: final(self).balances,
                            ..*old(self)
                        })
                    },
                },
                _ => r == Err::<(i128, TokenTransfer, TokenTransfer), PoolError>(
                    PoolError::NotInitialized,
                ) && *final(self) == *old(self),
            },
    {
        let (token0, token1) = self.get_tokens()?;
        let reserves = self.reserves;
        let total_supply = self.total_supply;
        let (amount_a, amount_b, liquidity) = if reserves.reserve_a == 0 && reserves.reserve_b
            == 0 {
            let root = isqrt((amount_a_desired as u128) * (amount_b_desired as u128));
            (amount_a_desired, amount_b_desired, #[verifier::truncate] (root as i128))
        } else {
            let ra = reserves.reserve_a as u128;
            let rb = reserves.reserve_b as u128;
            let amount_b_optimal = rb * (amount_a_desired as u128) / ra;
            let amount_a_optimal = ra * (amount_b_desired as u128) / rb;
            let (a, b) = if amount_b_optimal <= amount_b_desired as u128 {
                if amount_a_desired < amount_a_min {
                    return Err(PoolError::InsufficientAmountA);
                }
                (amount_a_desired, #[verifier::truncate] (amount_b_optimal as i128))
            } else {
                if amount_b_desired < amount_b_min {
                    return Err(PoolError::InsufficientAmountB);
                }
                (#[verifier::truncate] (amount_a_optimal as i128), amount_b_desired)
            };
            let ts = total_supply as u128;
            let la = (a as u128) * ts / ra;
            let lb = (b as u128) * ts / rb;
            let m = if la <= lb {
                la
            } else {
                lb
            };
            (a, b, #[verifier::truncate] (m as i128))
        };
        if liquidity <= 0 {
            return Err(PoolError::InsufficientLiquidityMinted);
        }
        self.reserves.reserve_a = reserves.reserve_a + amount_a;
        self.reserves.reserve_b = reserves.reserve_b + amount_b;
        self.total_supply = total_supply + liquidity;
        let bal: i128 = match self.balances.get(&to) {
            Some(b) => *b,
            None => 0,
        };
        let ghost before = self.balances@;
        self.balances.insert(to, bal + liquidity);
        proof {
            lemma_sum_insert(before, to, (bal + liquidity) as i128);
        }
        Ok(
            (
                liquidity,
                TokenTransfer { token: token0, from: provider, to: contract, amount: amount_a },
                TokenTransfer { token: token1, from: provider, to: contract, amount: amount_b },
            ),
        )
    }

    /// The checks of a removal before the slippage check.
    pub open spec fn spec_remove_pre(self, owner: AccountId, liquidity: i128) -> Result<(), PoolError> {
        if self.token_a is None || self.token_b is None {
            Err(PoolError::NotInitialized)
        } else if self.balance(owner) < liquidity {
            Err(PoolError::InsufficientLpBalance)
        } else {
            Ok(())
        }
    }

    /// The token amounts `liquidity` shares take out: their share of each
    /// reserve, rounded down, in unsigned 128-bit arithmetic.
    pub open spec fn spec_withdrawn(self, liquidity: i128) -> (u128, u128) {
        let ts = self.total_supply as u128;
        (
            ((liquidity as u128) * (self.reserves.reserve_a as u128) / (ts as int)) as u128,
            ((liquidity as u128) * (self.reserves.reserve_b as u128) / (ts as int)) as u128,
        )
    }

    /// Burns `liquidity` of `owner`'s shares for their share of both
    /// reserves, sent to `to`, each at least its minimum. Returns the two
    /// amounts and the transfers to perform.
    pub fn remove_liquidity(
        &mut self,
        contract: AccountId,
        owner: AccountId,
        liquidity: i128,
        amount_a_min: i128,
        amount_b_min: i128,
        to: AccountId,
    ) -> (r: Result<(i128, i128, TokenTransfer, TokenTransfer), PoolError>)
        requires
            old(self).wf(),
            old(self).spec_remove_pre(owner, liquidity) is Ok ==> {
                &&& old(self).total_supply as u128 != 0
                &&& fits_u128((liquidity as u128) * (old(self).reserves.reserve_a as u128))
                &&& fits_u128((liquidity as u128) * (old(self).reserves.reserve_b as u128))
            },
            old(self).spec_remove_pre(owner, liquidity) is Ok && old(self).spec_withdrawn(liquidity).0
                >= amount_a_min as u128 && old(self).spec_withdrawn(liquidity).1 >= amount_b_min as u128
                ==> {
                &&& fits_i128(old(self).balance(owner) - liquidity)
                &&& fits_i128(old(self).total_supply - liquidity)
                &&& fits_i128(old(self).reserves.reserve_a - (old(self).spec_withdrawn(liquidity).0 as i128))
                &&& fits_i128(old(self).reserves.reserve_b - (old(self).spec_withdrawn(liquidity).1 as i128))
            },
        ensures
            final(self).wf(),
            old(self).shares_ok() ==> final(self).shares_ok(),
            old(self).spec_remove_pre(owner, liquidity) matches Err(e) ==> r == Err::<
                (i128, i128, TokenTransfer, TokenTransfer),
                PoolError,
            >(e) && *final(self) == *old(self),
            old(self).spec_remove_pre(owner, liquidity) is Ok ==> {
                let (wa, wb) = old(self).spec_withdrawn(liquidity);
                if wa < amount_a_min as u128 || wb < amount_b_min as u128 {
                    r == Err::<(i128, i128, TokenTransfer, TokenTransfer), PoolError>(
                        PoolError::SlippageExceeded,
                    ) && *final(self) == *old(self)
                } else {
                    &&& r == Ok::<(i128, i128, TokenTransfer, TokenTransfer), PoolError>(
                        (
                            wa as i128,
                            wb as i128,
                            TokenTransfer {
                                token: old(self).token_a->Some_0,
                                from: contract,
                                to,
                                amount: wa as i128,
                            },
                            TokenTransfer {
                                token: old(self).token_b->Some_0,
                                from: contract,
                                to,
                                amount: wb as i128,
                            },
                        ),
                    )
                    &&& final(self).balances@ == old(self).balances@.insert(
                        owner,
                        (old(self).balance(owner) - liquidity) as i128,
                    )
                    &&& *final(self) == (Self {
                        reserves: Reserves {
                            reserve_a: (old(self).reserves.reserve_a - (wa as i128)) as i128,
                            reserve_b: (old(self).reserves.reserve_b - (wb as i128)) as i128,
                            ..old(self).reserves
                        },
                        total_supply: (old(self).total_supply - liquidity) as i128,
                        balances: final(self).balances,
                        ..*old(self)
                    })
                }
            },
    {
        let (token0, token1) = self.get_tokens()?;
        let reserves = self.reserves;
        let total_supply = self.total_supply;
        let user_balance: i128 = match self.balances.get(&owner) {
            Some(b) => *b,
            None => 0,
        };
        if user_balance < liquidity {
            return Err(PoolError::InsufficientLpBalance);
        }
        let ts = total_supply as u128;
        let amount_a = (liquidity as u128) * (reserves.reserve_a as u128) / ts;
        let amount_b = (liquidity as u128) * (reserves.reserve_b as u128) / ts;
        if amount_a < amount_a_min as u128 || amount_b < amount_b_min as u128 {
            return Err(PoolError::SlippageExceeded);
        }
        let ghost before = self.balances@;
        self.balances.insert(owner, user_balance - liquidity);
        proof {
            lemma_sum_insert(before, owner, (user_balance - liquidity) as i128);
        }
        self.total_supply = total_supply - liquidity;
        let out_a = #[verifier::truncate] (amount_a as i128);
        let out_b = #[verifier::truncate] (amount_b as i128);
        self.reserves.reserve_a = reserves.reserve_a - out_a;
        self.reserves.reserve_b = reserves.reserve_b - out_b;
        Ok(
            (
                out_a,
                out_b,
                TokenTransfer { token: token0, from: contract, to, amount: out_a },
                TokenTransfer { token: token1, from: contract, to, amount: out_b },
            ),
        )
    }

    /// The output of a swap of `amount_in` against reserves `reserve_in` and
    /// `reserve_out` with a fee of `fee_bps`: the constant-product amount
    /// for the input net of the fee, rounded down.
    pub open spec fn spec_amount_out(amount_in: i128, reserve_in: i128, reserve_out: i128, fee_bps: u32) -> u128 {
        let with_fee = (amount_in as u128) * ((10000 - fee_bps) as u128);
        let numerator = with_fee * (reserve_out as u128);
        let denominator = (reserve_in as u128) * 10000 + with_fee;
        (if numerator % denominator == 0 {
            numerator / denominator
        } else {
            numerator / denominator + 1
        }) as u128
    }

    /// The swap arithmetic stays within `u128`.
    pub open spec fn amount_out_fits(amount_in: i128, reserve_in: i128, reserve_out: i128, fee_bps: u32) -> bool {
        let with_fee = (amount_in as u128) * ((10000 - fee_bps) as u128);
        &&& fits_u128(with_fee)
        &&& fits_u128(with_fee * (reserve_out as u128))
        &&& fits_u128((reserve_in as u128) * 10000)
        &&& fits_u128((reserve_in as u128) * 10000 + with_fee)
    }

    /// The oracle after an update at `now` with reserves `r`: the price (A
    /// per B, scaled by 10^18; 0 without B) times the seconds since the last
    /// update (since time 0 for the first) accumulates.
    pub open spec fn updated_oracle(o: PriceOracle, r: Reserves, now: u64) -> PriceOracle {
        if now > o.last_timestamp {
            let price = if r.reserve_b > 0 {
                ((r.reserve_a as u128) * ORACLE_SCALE / (r.reserve_b as u128 as int)) as u128
            } else {
                0u128
            };
            PriceOracle {
                last_timestamp: now,
                cumulative_price: (o.cumulative_price + price * ((now - o.last_timestamp) as u128)) as u128,
            }
        } else {
            PriceOracle { last_timestamp: now, ..o }
        }
    }

    /// The oracle arithmetic stays within `u128`.
    pub open spec fn oracle_fits(o: PriceOracle, r: Reserves, now: u64) -> bool {
        now > o.last_timestamp ==> {
            let price = if r.reserve_b > 0 {
                ((r.reserve_a as u128) * ORACLE_SCALE / (r.reserve_b as u128 as int)) as u128
            } else {
                0u128
            };
            &&& (r.reserve_b > 0 ==> fits_u128((r.reserve_a as u128) * ORACLE_SCALE))
            &&& fits_u128(price * ((now - o.last_timestamp) as u128))
            &&& fits_u128(o.cumulative_price + price * ((now - o.last_timestamp) as u128))
        }
    }

    fn update_price_oracle(&mut self, now: u64)
        requires
            Self::oracle_fits(old(self).oracle, old(self).reserves, now),
        ensures
            *final(self) == (Self {
                oracle: Self::updated_oracle(old(self).oracle, old(self).reserves, now),
                ..*old(self)
            }),
    {
        let reserves = self.reserves;
        if now > self.oracle.last_timestamp {
            let price: u128 = if reserves.reserve_b > 0 {
                (reserves.reserve_a as u128) * ORACLE_SCALE / (reserves.reserve_b as u128)
            } else {
                0
            };
            let time_elapsed = (now - self.oracle.last_timestamp) as u128;
            self.oracle.cumulative_price = self.oracle.cumulative_price + price * time_elapsed;
        }
        self.oracle.last_timestamp = now;
    }

    /// The checks of a swap before the slippage check.
    pub open spec fn spec_swap_pre(self, amount_in: i128, token_in: AccountId) -> Result<(), PoolError> {
        if self.token_a is None || self.token_b is None || self.fee_bps is None {
            Err(PoolError::NotInitialized)
        } else if token_in != self.token_a->Some_0 && token_in != self.token_b->Some_0 {
            Err(PoolError::InvalidToken)
        } else if amount_in <= 0 {
            Err(PoolError::InvalidInputAmount)
        } else {
            Ok(())
        }
    }

    /// The (input, output) reserves of a swap of `token_in`.
    pub open spec fn swap_reserves(self, token_in: AccountId) -> (i128, i128) {
        if token_in == self.token_a->Some_0 {
            (self.reserves.reserve_a, self.reserves.reserve_b)
        } else {
            (self.reserves.reserve_b, self.reserves.reserve_a)
        }
    }

    /// The reserves after a swap: the input joins its reserve, the output
    /// leaves the other, and the fee is recorded on the input's side.
    pub open spec fn swapped(self, amount_in: i128, token_in: AccountId, out: u128) -> Reserves {
        let fee = tdiv_i(amount_in * self.fee_bps->Some_0, 10000);
        if token_in == self.token_a->Some_0 {
            Reserves {
                reserve_a: (self.reserves.reserve_a + amount_in) as i128,
                reserve_b: (self.reserves.reserve_b - (out as i128)) as i128,
                fees_a: (self.reserves.fees_a + fee) as i128,
                fees_b: self.reserves.fees_b,
            }
        } else {
            Reserves {
                reserve_b: (self.reserves.reserve_b + amount_in) as i128,
                reserve_a: (self.reserves.reserve_a - (out as i128)) as i128,
                fees_b: (self.reserves.fees_b + fee) as i128,
                fees_a: self.reserves.fees_a,
            }
        }
    }

    /// Swaps `amount_in` of `token_in` (one of the pool's tokens) from
    /// `swapper` for the constant-product output net of the fee (rounded
    /// up to a whole unit), sent to
    /// `to`; the output must reach `amount_out_min`. The reserves, recorded
    /// fees and price oracle follow. Returns the output and the two
    /// transfers to perform.
    pub fn swap(
        &mut self,
        now: u64,
        contract: AccountId,
        swapper: AccountId,
        amount_in: i128,
        amount_out_min: i128,
        token_in: AccountId,
        to: AccountId,
    ) -> (r: Result<(i128, TokenTransfer, TokenTransfer), PoolError>)
        requires
            old(self).wf(),
            old(self).spec_swap_pre(amount_in, token_in) is Ok ==> Self::amount_out_fits(
                amount_in,
                old(self).swap_reserves(token_in).0,
                old(self).swap_reserves(token_in).1,
                old(self).fee_bps->Some_0,
            ),
            old(self).spec_swap_pre(amount_in, token_in) is Ok && Self::spec_amount_out(
                amount_in,
                old(self).swap_reserves(token_in).0,
                old(self).swap_reserves(token_in).1,
                old(self).fee_bps->Some_0,
            ) >= amount_out_min as u128 ==> {
                let out = Self::spec_amount_out(
                    amount_in,
                    old(self).swap_reserves(token_in).0,
                    old(self).swap_reserves(token_in).1,
                    old(self).fee_bps->Some_0,
                );
                let fee = tdiv_i(amount_in * old(self).fee_bps->Some_0, 10000);
                &&& fits_i128(amount_in * old(self).fee_bps->Some_0)
                &&& fits_i128(old(self).swap_reserves(token_in).0 + amount_in)
                &&& fits_i128(old(self).swap_reserves(token_in).1 - (out as i128))
                &&& fits_i128(
                    (if token_in == old(self).token_a->Some_0 {
                        old(self).reserves.fees_a
                    } else {
                        old(self).reserves.fees_b
                    }) + fee,
                )
                &&& Self::oracle_fits(old(self).oracle, old(self).swapped(amount_in, token_in, out), now)
            },
        ensures
            final(self).wf(),
            old(self).shares_ok() ==> final(self).shares_ok(),
            old(self).spec_swap_pre(amount_in, token_in) matches Err(e) ==> r == Err::<
                (i128, TokenTransfer, TokenTransfer),
                PoolError,
            >(e) && *final(self) == *old(self),
            old(self).spec_swap_pre(amount_in, token_in) is Ok ==> {
                let (rin, rout) = old(self).swap_reserves(token_in);
                let out = Self::spec_amount_out(amount_in, rin, rout, old(self).fee_bps->Some_0);
                let token_out = if token_in == old(self).token_a->Some_0 {
                    old(self).token_b->Some_0
                } else {
                    old(self).token_a->Some_0
                };
                if out < amount_out_min as u128 {
                    r == Err::<(i128, TokenTransfer, TokenTransfer), PoolError>(
                        PoolError::InsufficientOutputAmount,
                    ) && *final(self) == *old(self)
                } else {
                    let new_reserves = old(self).swapped(amount_in, token_in, out);
                    &&& r == Ok::<(i128, TokenTransfer, TokenTransfer), PoolError>(
                        (
                            out as i128,
                            TokenTransfer { token: token_in, from: swapper, to: contract, amount: amount_in },
                            TokenTransfer { token: token_out, from: contract, to, amount: out as i128 },
                        ),
                    )
                    &&& *final(self) == (Self {
                        reserves: new_reserves,
                        oracle: Self::updated_oracle(old(self).oracle, new_reserves, now),
                        ..*old(self)
                    })
                }
            },
    {
        let (token0, token1) = self.get_tokens()?;
        let fee_bps = match self.fee_bps {
            Some(f) => f,
            None => return Err(PoolError::NotInitialized),
        };
        let (reserve_in, reserve_out) = if token_in == token0 {
            (self.reserves.reserve_a, self.reserves.reserve_b)
        } else if token_in == token1 {
            (self.reserves.reserve_b, self.reserves.reserve_a)
        } else {
            return Err(PoolError::InvalidToken);
        };
        if amount_in <= 0 {
            return Err(PoolError::InvalidInputAmount);
        }
        let amount_in_with_fee = (amount_in as u128) * ((10000 - fee_bps) as u128);
        let numerator = amount_in_with_fee * (reserve_out as u128);
        let denominator = (reserve_in as u128) * 10000 + amount_in_with_fee;
        assert(amount_in_with_fee > 0) by (nonlinear_arith)
            requires
                amount_in_with_fee == (amount_in as u128) * ((10000 - fee_bps) as u128),
                amount_in > 0,
                fee_bps <= 1000,
        ;
        let quotient = numerator / denominator;
        let amount_out = if numerator % denominator == 0 {
            quotient
        } else {
            assert(quotient < u128::MAX) by (nonlinear_arith)
                requires
                    quotient == numerator / denominator,
                    numerator % denominator != 0,
                    denominator > 0,
            ;
            quotient + 1
        };
        if amount_out < amount_out_min as u128 {
            return Err(PoolError::InsufficientOutputAmount);
        }
        let fee_amount = amount_in * (fee_bps as i128) / 10000;
        let out = #[verifier::truncate] (amount_out as i128);
        if token_in == token0 {
            self.reserves.reserve_a = self.reserves.reserve_a + amount_in;
            self.reserves.reserve_b = self.reserves.reserve_b - out;
            self.reserves.fees_a = self.reserves.fees_a + fee_amount;
        } else {
            self.reserves.reserve_b = self.reserves.reserve_b + amount_in;
            self.reserves.reserve_a = self.reserves.reserve_a - out;
            self.reserves.fees_b = self.reserves.fees_b + fee_amount;
        }
        self.update_price_oracle(now);
        let token_out = if token_in == token0 {
            token1
        } else {
            token0
        };
        Ok(
            (
                out,
                TokenTransfer { token: token_in, from: swapper, to: contract, amount: amount_in },
                TokenTransfer { token: token_out, from: contract, to, amount: out },
            ),
        )
    }

    /// Pays the recorded fees of both tokens to `to` and clears them; only
    /// the admin or the fee recipient may. Returns the two fee amounts and
    /// the transfers of the positive ones.
    pub fn collect_fees(&mut self, contract: AccountId, invoker: AccountId, to: AccountId) -> (r:
        Result<(i128, i128, Option<TokenTransfer>, Option<TokenTransfer>), PoolError>)
        requires
            old(self).wf(),
        ensures
            final(self).wf(),
            old(self).shares_ok() ==> final(self).shares_ok(),
            r.is_err() ==> *final(self) == *old(self),
            r == (if old(self).admin is None || old(self).fee_recipient is None {
                Err(PoolError::NotInitialized)
            } else if invoker != old(self).admin->Some_0 && invoker
                != old(self).fee_recipient->Some_0 {
                Err(PoolError::Unauthorized)
            } else if old(self).token_a is None || old(self).token_b is None {
                Err(PoolError::NotInitialized)
            } else {
                let fa = old(self).reserves.fees_a;
                let fb = old(self).reserves.fees_b;
                Ok(
                    (
                        fa,
                        fb,
                        if fa > 0 {
                            Some(
                                TokenTransfer {
                                    token: old(self).token_a->Some_0,
                                    from: contract,
                                    to,
                                    amount: fa,
                                },
                            )
                        } else {
                            None
                        },
                        if fb > 0 {
                            Some(
                                TokenTransfer {
                                    token: old(self).token_b->Some_0,
                                    from: contract,
                                    to,
                                    amount: fb,
                                },
                            )
                        } else {
                            None
                        },
                    ),
                )
            }),
            r.is_ok() ==> *final(self) == (Self {
                reserves: Reserves { fees_a: 0, fees_b: 0, ..old(self).reserves },
                ..*old(self)
            }),
    {
        let admin = match self.admin {
            Some(a) => a,
            None => return Err(PoolError::NotInitialized),
        };
        let fee_recipient = match self.fee_recipient {
            Some(f) => f,
            None => return Err(PoolError::NotInitialized),
        };
        if invoker != admin && invoker != fee_recipient {
            return Err(PoolError::Unauthorized);
        }
        let (token0, token1) = self.get_tokens()?;
        let fees_a = self.reserves.fees_a;
        let fees_b = self.reserves.fees_b;
        let ta = if fees_a > 0 {
            Some(TokenTransfer { token: token0, from: contract, to, amount: fees_a })
        } else {
            None
        };
        let tb = if fees_b > 0 {
            Some(TokenTransfer { token: token1, from: contract, to, amount: fees_b })
        } else {
            None
        };
        self.reserves.fees_a = 0;
        self.reserves.fees_b = 0;
        Ok((fees_a, fees_b, ta, tb))
    }

    /// Replaces the fee recipient (the host checks the admin's
    /// authorization; `NotInitialized` without an admin).
    pub fn set_fee_recipient(&mut self, new_recipient: AccountId) -> (r: Result<(), PoolError>)
        requires
            old(self).wf(),
        ensures
            final(self).wf(),
            old(self).shares_ok() ==> final(self).shares_ok(),
            r == (if old(self).admin is None {
                Err(PoolError::NotInitialized)
            } else {
                Ok(())
            }),
            r.is_err() ==> *final(self) == *old(self),
            r.is_ok() ==> *final(self) == (Self { fee_recipient: Some(new_recipient), ..*old(self) }),
    {
        if self.admin.is_none() {
            return Err(PoolError::NotInitialized);
        }
        self.fee_recipient = Some(new_recipient);
        Ok(())
    }

    pub fn get_reserves(&self) -> (r: (i128, i128))
        ensures
            r == (self.reserves.reserve_a, self.reserves.reserve_b),
    {
        (self.reserves.reserve_a, self.reserves.reserve_b)
    }

    pub fn balance_of(&self, owner: AccountId) -> (r: i128)
        ensures
            r == self.balance(owner),
    {
        match self.balances.get(&owner) {
            Some(b) => *b,
            None => 0,
        }
    }

    pub fn total_supply(&self) -> (r: i128)
        ensures
            r == self.total_supply,
    {
        self.total_supply
    }

    /// The spot price: reserve A per reserve B scaled by 10^12 (0 without B).
    pub fn get_price(&self) -> (r: i128)
        requires
            self.reserves.reserve_b != 0 ==> fits_u128((self.reserves.reserve_a as u128) * PRICE_SCALE),
        ensures
            r == (if self.reserves.reserve_b == 0 {
                0
            } else {
                (((self.reserves.reserve_a as u128) * PRICE_SCALE) / (self.reserves.reserve_b as u128 as int)) as i128
            }),
    {
        if self.reserves.reserve_b == 0 {
            0
        } else {
            let rb = self.reserves.reserve_b;
            assert(rb as u128 != 0) by (bit_vector)
                requires
                    rb != 0i128,
            ;
            let p = (self.reserves.reserve_a as u128) * PRICE_SCALE / (rb as u128);
            #[verifier::truncate] (p as i128)
        }
    }

    pub fn get_cumulative_price(&self) -> (r: u128)
        ensures
            r == self.oracle.cumulative_price,
    {
        self.oracle.cumulative_price
    }
}

/// `x` read as an unsigned 128-bit number.
pub open spec fn unsigned_of(x: i128) -> int {
    if x >= 0 {
        x as int
    } else {
        x + 0x1_0000_0000_0000_0000_0000_0000_0000_0000
    }
}

/// The price ratio current / initial in 10^12 fixed point, both prices read
/// as unsigned numbers.
pub open spec fn price_ratio(initial_price: i128, current_price: i128) -> int {
    current_price * PRICE_SCALE / unsigned_of(initial_price)
}

/// Impermanent loss in 10^12 fixed point: 2·√r / (1 + r) − 1 for the price
/// ratio r, with √r taken as the integer square root of the scaled ratio
/// (so itself in 10^6 fixed point); 0 when either price is 0.
pub open spec fn spec_impermanent_loss(initial_price: i128, current_price: i128) -> int {
    if initial_price == 0 || current_price == 0 {
        0
    } else {
        let r = price_ratio(initial_price, current_price);
        2 * spec_isqrt(r as u128) * 1_000_000_000_000_000_000 / (PRICE_SCALE + r) - PRICE_SCALE
    }
}

impl LiquidityPoolContract {
    /// The impermanent loss of a position whose price moved from
    /// `initial_price` to `current_price` (see `spec_impermanent_loss`).
    pub fn calculate_impermanent_loss(initial_price: i128, current_price: i128) -> (r: i128)
        requires
            initial_price == 0 || current_price == 0 || (current_price > 0 && current_price * PRICE_SCALE
                + PRICE_SCALE <= u128::MAX),
        ensures
            r == spec_impermanent_loss(initial_price, current_price),
    {
        if initial_price == 0 || current_price == 0 {
            return 0;
        }
        let initial = initial_price as u128;
        assert(initial == unsigned_of(initial_price)) by (bit_vector)
            requires
                initial == initial_price as u128,
        ;
        let ratio = (current_price as u128) * PRICE_SCALE / initial;
        assert(ratio <= current_price * PRICE_SCALE) by (nonlinear_arith)
            requires
                ratio == (current_price * PRICE_SCALE) / (initial as int),
                initial >= 1,
                current_price > 0,
        ;
        let root = isqrt(ratio);
        assert(root < 0x1_0000_0000_0000_0000) by (nonlinear_arith)
            requires
                root * root <= ratio,
                ratio <= u128::MAX,
        ;
        let numerator = 2 * root * 1_000_000_000_000_000_000;
        let denominator = PRICE_SCALE + ratio;
        let quotient = numerator / denominator;
        assert(quotient <= numerator) by (nonlinear_arith)
            requires
                quotient == numerator / denominator,
                denominator >= 1,
        ;
        quotient as i128 - 1_000_000_000_000
    }
}

/// Impermanent loss is a loss: it is never positive and never more than the
/// whole position (−10^12), and it is 0 while the price is unchanged.
pub proof fn lemma_impermanent_loss_bounds(initial_price: i128, current_price: i128)
    requires
        initial_price == 0 || current_price == 0 || (current_price > 0 && current_price * PRICE_SCALE
            + PRICE_SCALE <= u128::MAX),
    ensures
        -(PRICE_SCALE as int) <= spec_impermanent_loss(initial_price, current_price) <= 0,
        initial_price > 0 && current_price == initial_price ==> spec_impermanent_loss(
            initial_price,
            current_price,
        ) == 0,
{
    if initial_price != 0 && current_price != 0 {
        let r = price_ratio(initial_price, current_price);
        let u = unsigned_of(initial_price);
        assert(0 <= r <= current_price * PRICE_SCALE) by (nonlinear_arith)
            requires
                r == current_price * PRICE_SCALE / u,
                u >= 1,
                current_price > 0,
        ;
        let s = spec_isqrt(r as u128);
        lemma_isqrt_exists(r as u128);
        let d = PRICE_SCALE + r;
        let n = 2 * s * 1_000_000_000_000_000_000;
        assert(n <= d * PRICE_SCALE) by (nonlinear_arith)
            requires
                s * s <= r,
                s >= 0,
                d == 1_000_000_000_000 + r,
                n == 2 * s * 1_000_000_000_000_000_000,
        {
            assert((s - 1_000_000) * (s - 1_000_000) >= 0);
        }
        assert(0 <= n / d <= PRICE_SCALE) by (nonlinear_arith)
            requires
                0 <= n <= d * PRICE_SCALE,
                d >= 1,
        ;
        if initial_price > 0 && current_price == initial_price {
            assert(r == PRICE_SCALE) by (nonlinear_arith)
                requires
                    r == current_price * PRICE_SCALE / u,
                    u == current_price,
                    current_price > 0,
            ;
            assert(is_isqrt(r as u128, 1_000_000u128));
            lemma_isqrt_unique(r as u128, s, 1_000_000u128);
            assert(n == 2_000_000_000_000_000_000_000_000);
            assert(d == 2_000_000_000_000);
            assert(n / d == 1_000_000_000_000) by (nonlinear_arith)
                requires
                    n == 2_000_000_000_000_000_000_000_000int,
                    d == 2_000_000_000_000int,
            ;
        }
    }
}

/// A swap never pays out more than the output reserve, and lowers the
/// product of the reserves by less than one unit of output can: with
/// non-negative reserves, a positive input and a fee the pool accepts,
/// (in_reserve + input) * (out_reserve - output) is at least
/// in_reserve * out_reserve - (in_reserve + input), and at least
/// in_reserve * out_reserve when the exact output is a whole number.
pub proof fn lemma_swap_keeps_product(amount_in: i128, reserve_in: i128, reserve_out: i128, fee_bps: u32)
    requires
        amount_in > 0,
        reserve_in >= 0,
        reserve_out >= 0,
        fee_bps <= MAX_FEE_BPS,
        LiquidityPoolContract::amount_out_fits(amount_in, reserve_in, reserve_out, fee_bps),
    ensures
        ({
            let out = LiquidityPoolContract::spec_amount_out(amount_in, reserve_in, reserve_out, fee_bps);
            let with_fee = amount_in * (10000 - fee_bps);
            let exact = (with_fee * reserve_out) % (reserve_in * 10000 + with_fee) == 0;
            &&& out <= reserve_out
            &&& (reserve_in + amount_in) * (reserve_out - out) >= reserve_in * reserve_out - (reserve_in
                + amount_in)
            &&& exact ==> (reserve_in + amount_in) * (reserve_out - out) >= reserve_in * reserve_out
        }),
{
    let f: int = 10000 - fee_bps;
    let a: int = amount_in as int;
    let ri: int = reserve_in as int;
    let ro: int = reserve_out as int;
    assert((amount_in as u128) as int == a);
    assert((reserve_in as u128) as int == ri);
    assert((reserve_out as u128) as int == ro);
    assert(((10000 - fee_bps) as u128) as int == f);
    let w: int = a * f;
    let n: int = w * ro;
    let d: int = ri * 10000 + w;
    let out = LiquidityPoolContract::spec_amount_out(amount_in, reserve_in, reserve_out, fee_bps);
    assert(w >= 0) by (nonlinear_arith)
        requires
            a > 0,
            f >= 0,
            w == a * f,
    ;
    assert(n >= 0) by (nonlinear_arith)
        requires
            w >= 0,
            ro >= 0,
            n == w * ro,
    ;
    assert(w > 0) by (nonlinear_arith)
        requires
            a > 0,
            f > 0,
            w == a * f,
    ;
    {
        assert(d > 0);
        assert((n / d) * d <= n) by (nonlinear_arith)
            requires
                d > 0,
                n >= 0,
        ;
        assert(n / d <= ro) by (nonlinear_arith)
            requires
                d > 0,
                d >= w,
                w >= 0,
                ro >= 0,
                n == w * ro,
        ;
        let o: int = n / d;
        assert(o >= 0) by (nonlinear_arith)
            requires
                d > 0,
                n >= 0,
                o == n / d,
        ;
        assert(o * (ri + a) * 10000 == o * d + o * a * fee_bps) by (nonlinear_arith)
            requires
                d == ri * 10000 + a * f,
                f == 10000 - fee_bps,
        ;
        assert(o * a * fee_bps <= ro * a * fee_bps) by (nonlinear_arith)
            requires
                0 <= o <= ro,
                a > 0,
                fee_bps >= 0,
        ;
        assert(o * d <= a * f * ro) by (nonlinear_arith)
            requires
                o * d <= n,
                n == w * ro,
                w == a * f,
        ;
        assert(a * f * ro + ro * a * fee_bps == a * ro * 10000) by (nonlinear_arith)
            requires
                f == 10000 - fee_bps,
        ;
        assert(o * (ri + a) <= a * ro) by (nonlinear_arith)
            requires
                o * (ri + a) * 10000 <= a * ro * 10000,
        ;
        assert((ri + a) * (ro - o) >= ri * ro) by (nonlinear_arith)
            requires
                o * (ri + a) <= a * ro,
        ;
        if n % d == 0 {
            assert(out as int == o);
        } else {
            assert(out as int == o + 1);
            assert(n <= d * ro) by (nonlinear_arith)
                requires
                    n == w * ro,
                    d >= w,
                    ro >= 0,
            ;
            assert(o < ro) by (nonlinear_arith)
                requires
                    n <= d * ro,
                    n % d != 0,
                    d > 0,
                    n >= 0,
                    o == n / d,
            ;
            assert((ri + a) * (ro - (o + 1)) == (ri + a) * (ro - o) - (ri + a)) by (nonlinear_arith);
        }
    }
}

/// Removing `liquidity` of the `total_supply` shares pays out that share
/// of each reserve, rounded down, each from its own reserve: `a` whole
/// supplies fit in `liquidity * reserve_a` and `a + 1` do not (and the same
/// for `b` with `reserve_b`). Removing every share empties both reserves.
pub proof fn lemma_withdrawal_is_share(pool: LiquidityPoolContract, liquidity: i128)
    requires
        0 < liquidity <= pool.total_supply,
        pool.reserves.reserve_a >= 0,
        pool.reserves.reserve_b >= 0,
        liquidity * pool.reserves.reserve_a <= u128::MAX,
        liquidity * pool.reserves.reserve_b <= u128::MAX,
    ensures
        pool.spec_withdrawn(liquidity).0 * pool.total_supply <= liquidity * pool.reserves.reserve_a,
        liquidity * pool.reserves.reserve_a < (pool.spec_withdrawn(liquidity).0 + 1) * pool.total_supply,
        pool.spec_withdrawn(liquidity).1 * pool.total_supply <= liquidity * pool.reserves.reserve_b,
        liquidity * pool.reserves.reserve_b < (pool.spec_withdrawn(liquidity).1 + 1) * pool.total_supply,
        pool.spec_withdrawn(liquidity).0 <= pool.reserves.reserve_a,
        pool.spec_withdrawn(liquidity).1 <= pool.reserves.reserve_b,
        liquidity == pool.total_supply ==> pool.spec_withdrawn(liquidity).0 == pool.reserves.reserve_a
            && pool.spec_withdrawn(liquidity).1 == pool.reserves.reserve_b,
{
    let t: int = pool.total_supply as int;
    let l: int = liquidity as int;
    let ra: int = pool.reserves.reserve_a as int;
    let rb: int = pool.reserves.reserve_b as int;
    assert(0 <= l * ra <= t * ra && 0 <= l * rb <= t * rb) by (nonlinear_arith)
        requires
            0 < l <= t,
            ra >= 0,
            rb >= 0,
    ;
    lemma_floor_div(l * ra, t);
    lemma_floor_div(l * rb, t);
    let a: int = (l * ra) / t;
    let b: int = (l * rb) / t;
    assert(a <= ra && b <= rb) by (nonlinear_arith)
        requires
            t > 0,
            a * t <= l * ra <= t * ra,
            b * t <= l * rb <= t * rb,
    ;
    if l == t {
        assert(a == ra && b == rb) by (nonlinear_arith)
            requires
                t > 0,
                a * t <= t * ra < (a + 1) * t,
                b * t <= t * rb < (b + 1) * t,
        ;
    }
}

} // verus!
