//! Seasonal battle passes: an admin opens seasons with XP tiers; players buy
//! one pass per season, an oracle adds XP that raises the tier reached, and
//! each reached tier's reward can be claimed once, all within the season.
use std::collections::HashMap;
use vstd::prelude::*;

use crate::common::contains_u32;

verus! {

broadcast use vstd::std_specs::hash::group_hash_axioms;

/// An account or contract address, identified by a number.
pub type AccountId = u64;

#[derive(Clone, Copy, Debug, PartialEq, Eq, Structural)]
pub enum PassError {
    AlreadyInitialized,
    AdminNotSet,
    SeasonExists,
    InvalidTimeWindow,
    SeasonNotFound,
    ConfigureAfterStart,
    TiersNotAscending,
    SeasonNotActive,
    AlreadyOwnsPass,
    PassNotFound,
    TierNotReached,
    InvalidTierIndex,
    RewardAlreadyClaimed,
}

#[derive(Clone, Copy, Debug, PartialEq, Eq, Structural)]
pub enum RewardType {
    Token,
    Cosmetic,
    Nft,
}

/// A tier: reached with `required_xp`, rewarding `reward_amount` of its type.
#[derive(Clone, Copy, Debug, PartialEq, Eq, Structural)]
pub struct PassTier {
    pub required_xp: u32,
    pub reward_type: RewardType,
    pub reward_amount: u128,
}

#[derive(Debug)]
pub struct BattlePass {
    pub season_id: u32,
    pub holder: AccountId,
    pub xp: u32,
    pub tier_reached: u32,
    /// The tier indices claimed, in claim order.
    pub rewards_claimed: Vec<u32>,
    pub purchase_time: u64,
}

#[derive(Debug)]
pub struct Season {
    pub season_id: u32,
    pub start_at: u64,
    pub end_at: u64,
    pub price: u128,
    pub tiers: Vec<PassTier>,
    pub is_active: bool,
    /// The oracle that adds XP.
    pub oracle_address: AccountId,
}

/// The contract's storage.
pub struct BattlePassContract {
    pub admin: Option<AccountId>,
    pub next_pass_id: Option<u32>,
    pub seasons: HashMap<u32, Season>,
    pub passes: HashMap<u32, BattlePass>,
    /// Keyed by `pair_key(player, season)`: the player's pass.
    pub player_pass: HashMap<u128, u32>,
}

/// The storage key of a pair of numbers.
pub open spec fn pkey(a: u64, b: u64) -> u128 {
    (a * 0x1_0000_0000_0000_0000 + b) as u128
}

pub fn pair_key(a: u64, b: u64) -> (r: u128)
    ensures
        r == pkey(a, b),
{
    (a as u128) * 0x1_0000_0000_0000_0000 + (b as u128)
}

/// The first index from `i` on whose tier needs more than `xp` (the length
/// when there is none).
pub open spec fn first_above(tiers: Seq<PassTier>, xp: u32, i: int) -> int
    decreases tiers.len() - i,
{
    if i >= tiers.len() {
        tiers.len() as int
    } else if tiers[i].required_xp > xp {
        i
    } else {
        first_above(tiers, xp, i + 1)
    }
}

/// The tier `xp` reaches: the number of leading tiers whose required XP it
/// meets (0 when it meets none; tier `k` is reached once the `k`-th tier's
/// XP is met).
pub open spec fn spec_tier(tiers: Seq<PassTier>, xp: u32) -> int {
    first_above(tiers, xp, 0)
}

/// Required XP strictly rises from tier to tier.
pub open spec fn ascending_xp(tiers: Seq<PassTier>) -> bool {
    forall|i: int| 1 <= i < tiers.len() ==> tiers[i].required_xp > #[trigger] tiers[i - 1].required_xp
}

/// The tier a season's tiers give for `xp` (see `spec_tier`).
pub fn calculate_tier_from_xp(tiers: &Vec<PassTier>, xp: u32) -> (r: u32)
    requires
        tiers.len() <= u32::MAX,
    ensures
        r == spec_tier(tiers@, xp),
{
    let mut tier: u32 = 0;
    let mut i: usize = 0;
    while i < tiers.len()
        invariant
            i <= tiers.len() <= u32::MAX,
            first_above(tiers@, xp, 0) == first_above(tiers@, xp, i as int),
            tier == i,
        ensures
            first_above(tiers@, xp, 0) == i,
            tier == i,
        decreases tiers.len() - i,
    {
        if xp >= tiers[i].required_xp {
            tier = (i + 1) as u32;
        } else {
            break;
        }
        i = i + 1;
    }
    tier
}

impl BattlePassContract {
    pub fn new() -> (r: Self)
        ensures
            r.admin is None && r.next_pass_id is None,
            r.seasons@ == Map::<u32, Season>::empty(),
            r.passes@ == Map::<u32, BattlePass>::empty(),
            r.player_pass@ == Map::<u128, u32>::empty(),
    {
        BattlePassContract {
            admin: None,
            next_pass_id: None,
            seasons: HashMap::new(),
            passes: HashMap::new(),
            player_pass: HashMap::new(),
        }
    }

    /// Sets the admin (once); pass ids start at 1.
    pub fn init(&mut self, admin: AccountId) -> (r: Result<(), PassError>)
        ensures
            r == (if old(self).admin is Some {
                Err(PassError::AlreadyInitialized)
            } else {
                Ok(())
            }),
            r.is_err() ==> *final(self) == *old(self),
            r.is_ok() ==> *final(self) == (Self {
                admin: Some(admin),
                next_pass_id: Some(1u32),
                ..*old(self)
            }),
    {
        if self.admin.is_some() {
            return Err(PassError::AlreadyInitialized);
        }
        self.admin = Some(admin);
        self.next_pass_id = Some(1);
        Ok(())
    }

    /// Creates an inactive season without tiers (the host checks the
    /// admin's authorization): a new id and a proper time window.
    pub fn create_season(
        &mut self,
        season_id: u32,
        start_at: u64,
        end_at: u64,
        price: u128,
        oracle_address: AccountId,
    ) -> (r: Result<(), PassError>)
        ensures
            r == (if old(self).admin is None {
                Err(PassError::AdminNotSet)
            } else if old(self).seasons@.contains_key(season_id) {
                Err(PassError::SeasonExists)
            } else if start_at >= end_at {
                Err(PassError::InvalidTimeWindow)
            } else {
                Ok(())
            }),
            r.is_err() ==> *final(self) == *old(self),
            r.is_ok() ==> {
                &&& final(self).seasons@.contains_key(season_id)
                &&& final(self).seasons@ == old(self).seasons@.insert(season_id, final(self).seasons@[season_id])
                &&& final(self).seasons@[season_id].tiers@ == Seq::<PassTier>::empty()
                &&& final(self).seasons@[season_id].season_id == season_id
                &&& final(self).seasons@[season_id].start_at == start_at
                &&& final(self).seasons@[season_id].end_at == end_at
                &&& final(self).seasons@[season_id].price == price
                &&& !final(self).seasons@[season_id].is_active
                &&& final(self).seasons@[season_id].oracle_address == oracle_address
                &&& *final(self) == (Self { seasons: final(self).seasons, ..*old(self) })
            },
    {
        if self.admin.is_none() {
            return Err(PassError::AdminNotSet);
        }
        if self.seasons.contains_key(&season_id) {
            return Err(PassError::SeasonExists);
        }
        if start_at >= end_at {
            return Err(PassError::InvalidTimeWindow);
        }
        self.seasons.insert(
            season_id,
            Season {
                season_id,
                start_at,
                end_at,
                price,
                tiers: Vec::new(),
                is_active: false,
                oracle_address,
            },
        );
        Ok(())
    }

    /// Sets a season's tiers before it starts (the host checks the admin's
    /// authorization); required XP must strictly rise.
    pub fn configure_season_tiers(&mut self, now: u64, season_id: u32, tiers: Vec<PassTier>) -> (r: Result<
        (),
        PassError,
    >)
        ensures
            r == (if old(self).admin is None {
                Err(PassError::AdminNotSet)
            } else if !old(self).seasons@.contains_key(season_id) {
                Err(PassError::SeasonNotFound)
            } else if now >= old(self).seasons@[season_id].start_at {
                Err(PassError::ConfigureAfterStart)
            } else if !ascending_xp(tiers@) {
                Err(PassError::TiersNotAscending)
            } else {
                Ok(())
            }),
            r.is_err() ==> *final(self) == *old(self),
            r.is_ok() ==> final(self).seasons@ == old(self).seasons@.insert(
                season_id,
                Season { tiers, ..old(self).seasons@[season_id] },
            ) && *final(self) == (Self { seasons: final(self).seasons, ..*old(self) }),
    {
        if self.admin.is_none() {
            return Err(PassError::AdminNotSet);
        }
        let start = match self.seasons.get(&season_id) {
            Some(s) => s.start_at,
            None => return Err(PassError::SeasonNotFound),
        };
        if now >= start {
            return Err(PassError::ConfigureAfterStart);
        }
        let mut i: usize = 1;
        while i < tiers.len()
            invariant
                1 <= i,
                *self == *old(self),
                old(self).admin is Some,
                old(self).seasons@.contains_key(season_id),
                now < old(self).seasons@[season_id].start_at,
                forall|j: int| 1 <= j < i && j < tiers.len() ==> tiers@[j].required_xp > #[trigger] tiers@[j - 1].required_xp,
            decreases tiers.len() - i,
        {
            if tiers[i].required_xp <= tiers[i - 1].required_xp {
                assert(tiers@[i as int].required_xp <= tiers@[i - 1].required_xp);
                assert(!ascending_xp(tiers@));
                return Err(PassError::TiersNotAscending);
            }
            i = i + 1;
        }
        let mut season = match self.seasons.remove(&season_id) {
            Some(s) => s,
            None => return Err(PassError::SeasonNotFound),
        };
        season.tiers = tiers;
        self.seasons.insert(season_id, season);
        Ok(())
    }

    /// Activates a season (the host checks the admin's authorization).
    pub fn activate_season(&mut self, season_id: u32) -> (r: Result<(), PassError>)
        ensures
            r == (if old(self).admin is None {
                Err(PassError::AdminNotSet)
            } else if !old(self).seasons@.contains_key(season_id) {
                Err(PassError::SeasonNotFound)
            } else {
                Ok(())
            }),
            r.is_err() ==> *final(self) == *old(self),
            r.is_ok() ==> final(self).seasons@ == old(self).seasons@.insert(
                season_id,
                Season { is_active: true, ..old(self).seasons@[season_id] },
            ) && *final(self) == (Self { seasons: final(self).seasons, ..*old(self) }),
    {
        if self.admin.is_none() {
            return Err(PassError::AdminNotSet);
        }
        if !self.seasons.contains_key(&season_id) {
            return Err(PassError::SeasonNotFound);
        }
        let mut season = match self.seasons.remove(&season_id) {
            Some(s) => s,
            None => return Err(PassError::SeasonNotFound),
        };
        season.is_active = true;
        self.seasons.insert(season_id, season);
        Ok(())
    }

    /// The id the next pass gets.
    pub open spec fn next_id(self) -> u32 {
        match self.next_pass_id {
            Some(n) => n,
            None => 1,
        }
    }

    /// The checks of a purchase, in the contract's order.
    pub open spec fn spec_purchase_check(self, now: u64, buyer: AccountId, season_id: u32) -> Result<(), PassError> {
        if !self.seasons@.contains_key(season_id) {
            Err(PassError::SeasonNotFound)
        } else {
            let s = self.seasons@[season_id];
            if now < s.start_at || now > s.end_at || !s.is_active {
                Err(PassError::SeasonNotActive)
            } else if self.player_pass@.contains_key(pkey(buyer, season_id as u64)) {
                Err(PassError::AlreadyOwnsPass)
            } else {
                Ok(())
            }
        }
    }

    /// Buys `buyer`'s pass for an active season inside its window (one per
    /// season): a fresh pass with no XP under the next pass id.
    pub fn purchase_pass(&mut self, now: u64, buyer: AccountId, season_id: u32) -> (r: Result<u32, PassError>)
        requires
            old(self).spec_purchase_check(now, buyer, season_id) is Ok ==> old(self).next_id() < u32::MAX,
        ensures
            old(self).spec_purchase_check(now, buyer, season_id) matches Err(e) ==> r == Err::<u32, PassError>(e)
                && *final(self) == *old(self),
            old(self).spec_purchase_check(now, buyer, season_id) is Ok ==> {
                let id = old(self).next_id();
                &&& r == Ok::<u32, PassError>(id)
                &&& final(self).passes@.contains_key(id)
                &&& final(self).passes@ == old(self).passes@.insert(id, final(self).passes@[id])
                &&& final(self).passes@[id].season_id == season_id
                &&& final(self).passes@[id].holder == buyer
                &&& final(self).passes@[id].xp == 0
                &&& final(self).passes@[id].tier_reached == 0
                &&& final(self).passes@[id].rewards_claimed@ == Seq::<u32>::empty()
                &&& final(self).passes@[id].purchase_time == now
                &&& final(self).player_pass@ == old(self).player_pass@.insert(pkey(buyer, season_id as u64), id)
                &&& *final(self) == (Self {
                    passes: final(self).passes,
                    player_pass: final(self).player_pass,
                    next_pass_id: Some((id + 1) as u32),
                    ..*old(self)
                })
            },
    {
        let (start, end, active) = match self.seasons.get(&season_id) {
            Some(s) => (s.start_at, s.end_at, s.is_active),
            None => return Err(PassError::SeasonNotFound),
        };
        if now < start || now > end {
            return Err(PassError::SeasonNotActive);
        }
        if !active {
            return Err(PassError::SeasonNotActive);
        }
        let key = pair_key(buyer, season_id as u64);
        if self.player_pass.contains_key(&key) {
            return Err(PassError::AlreadyOwnsPass);
        }
        let pass_id: u32 = match self.next_pass_id {
            Some(n) => n,
            None => 1,
        };
        self.passes.insert(
            pass_id,
            BattlePass {
                season_id,
                holder: buyer,
                xp: 0,
                tier_reached: 0,
                rewards_claimed: Vec::new(),
                purchase_time: now,
            },
        );
        self.player_pass.insert(key, pass_id);
        self.next_pass_id = Some(pass_id + 1);
        Ok(pass_id)
    }

    /// The checks shared by XP and claims: the pass, its season, the window.
    pub open spec fn spec_pass_check(self, now: u64, pass_id: u32) -> Result<(), PassError> {
        if !self.passes@.contains_key(pass_id) {
            Err(PassError::PassNotFound)
        } else if !self.seasons@.contains_key(self.passes@[pass_id].season_id) {
            Err(PassError::SeasonNotFound)
        } else {
            let s = self.seasons@[self.passes@[pass_id].season_id];
            if now < s.start_at || now > s.end_at {
                Err(PassError::SeasonNotActive)
            } else {
                Ok(())
            }
        }
    }

    fn pass_check(&self, now: u64, pass_id: u32) -> (r: Result<u32, PassError>)
        ensures
            match self.spec_pass_check(now, pass_id) {
                Err(e) => r == Err::<u32, PassError>(e),
                Ok(_) => r == Ok::<u32, PassError>(self.passes@[pass_id].season_id),
            },
    {
        let season_id = match self.passes.get(&pass_id) {
            Some(p) => p.season_id,
            None => return Err(PassError::PassNotFound),
        };
        let (start, end) = match self.seasons.get(&season_id) {
            Some(s) => (s.start_at, s.end_at),
            None => return Err(PassError::SeasonNotFound),
        };
        if now < start || now > end {
            return Err(PassError::SeasonNotActive);
        }
        Ok(season_id)
    }

    /// Adds XP to a pass inside its season (the host checks the season
    /// oracle's authorization): XP saturates at `u32::MAX`, and the tier
    /// reached rises to the tier the new XP gives, never falling.
    pub fn add_xp(&mut self, now: u64, pass_id: u32, amount: u32) -> (r: Result<(), PassError>)
        requires
            old(self).spec_pass_check(now, pass_id) is Ok ==> old(self).seasons@[old(self).passes@[pass_id].season_id].tiers.len()
                <= u32::MAX,
        ensures
            r == old(self).spec_pass_check(now, pass_id),
            r.is_err() ==> *final(self) == *old(self),
            r.is_ok() ==> {
                let p = old(self).passes@[pass_id];
                let xp = if p.xp + amount > u32::MAX {
                    u32::MAX
                } else {
                    (p.xp + amount) as u32
                };
                let t = spec_tier(old(self).seasons@[p.season_id].tiers@, xp);
                &&& final(self).passes@ == old(self).passes@.insert(
                    pass_id,
                    BattlePass {
                        xp,
                        tier_reached: if t > p.tier_reached {
                            t as u32
                        } else {
                            p.tier_reached
                        },
                        ..p
                    },
                )
                &&& *final(self) == (Self { passes: final(self).passes, ..*old(self) })
            },
    {
        let season_id = self.pass_check(now, pass_id)?;
        let mut p = match self.passes.remove(&pass_id) {
            Some(p) => p,
            None => return Err(PassError::PassNotFound),
        };
        let new_xp = p.xp.saturating_add(amount);
        let new_tier = match self.seasons.get(&season_id) {
            Some(s) => calculate_tier_from_xp(&s.tiers, new_xp),
            None => 0,
        };
        p.xp = new_xp;
        if new_tier > p.tier_reached {
            p.tier_reached = new_tier;
        }
        self.passes.insert(pass_id, p);
        Ok(())
    }

    /// The checks of a claim, in the contract's order.
    pub open spec fn spec_claim_check(self, now: u64, pass_id: u32, tier_index: u32) -> Result<(), PassError> {
        match self.spec_pass_check(now, pass_id) {
            Err(e) => Err(e),
            Ok(_) => {
                let p = self.passes@[pass_id];
                if tier_index >= p.tier_reached {
                    Err(PassError::TierNotReached)
                } else if tier_index >= self.seasons@[p.season_id].tiers@.len() {
                    Err(PassError::InvalidTierIndex)
                } else if p.rewards_claimed@.contains(tier_index) {
                    Err(PassError::RewardAlreadyClaimed)
                } else {
                    Ok(())
                }
            },
        }
    }

    /// Claims the reward of a reached tier of a pass inside its season, once
    /// per tier. Returns the tier.
    pub fn claim_tier_reward(&mut self, now: u64, pass_id: u32, tier_index: u32) -> (r: Result<PassTier, PassError>)
        ensures
            old(self).spec_claim_check(now, pass_id, tier_index) matches Err(e) ==> r == Err::<
                PassTier,
                PassError,
            >(e) && *final(self) == *old(self),
            old(self).spec_claim_check(now, pass_id, tier_index) is Ok ==> {
                let p = old(self).passes@[pass_id];
                &&& r == Ok::<PassTier, PassError>(
                    old(self).seasons@[p.season_id].tiers@[tier_index as int],
                )
                &&& final(self).passes@.contains_key(pass_id)
                &&& final(self).passes@ == old(self).passes@.insert(pass_id, final(self).passes@[pass_id])
                &&& final(self).passes@[pass_id].rewards_claimed@ == p.rewards_claimed@.push(tier_index)
                &&& final(self).passes@[pass_id] == (BattlePass {
                    rewards_claimed: final(self).passes@[pass_id].rewards_claimed,
                    ..p
                })
                &&& *final(self) == (Self { passes: final(self).passes, ..*old(self) })
            },
    {
        let season_id = self.pass_check(now, pass_id)?;
        let (tier_reached, claimed) = match self.passes.get(&pass_id) {
            Some(p) => (p.tier_reached, contains_u32(&p.rewards_claimed, tier_index)),
            None => return Err(PassError::PassNotFound),
        };
        if tier_index >= tier_reached {
            return Err(PassError::TierNotReached);
        }
        let tier = match self.seasons.get(&season_id) {
            Some(s) => {
                if tier_index as usize >= s.tiers.len() {
                    return Err(PassError::InvalidTierIndex);
                }
                s.tiers[tier_index as usize]
            },
            None => return Err(PassError::SeasonNotFound),
        };
        if claimed {
            return Err(PassError::RewardAlreadyClaimed);
        }
        let mut p = match self.passes.remove(&pass_id) {
            Some(p) => p,
            None => return Err(PassError::PassNotFound),
        };
        p.rewards_claimed.push(tier_index);
        self.passes.insert(pass_id, p);
        assert(self.passes@ =~= old(self).passes@.insert(pass_id, self.passes@[pass_id]));
        Ok(tier)
    }

    /// A pass's XP, tier reached and claimed tiers.
    pub fn get_pass(&self, pass_id: u32) -> (r: Result<(u32, u32, Vec<u32>), PassError>)
        ensures
            match r {
                Ok((xp, tier, claimed)) => self.passes@.contains_key(pass_id) && xp
                    == self.passes@[pass_id].xp && tier == self.passes@[pass_id].tier_reached
                    && claimed@ == self.passes@[pass_id].rewards_claimed@,
                Err(e) => !self.passes@.contains_key(pass_id) && e == PassError::PassNotFound,
            },
    {
        match self.passes.get(&pass_id) {
            Some(p) => Ok((p.xp, p.tier_reached, p.rewards_claimed.clone())),
            None => Err(PassError::PassNotFound),
        }
    }
}

/// More XP never reaches a lower tier.
pub proof fn lemma_tier_monotone(tiers: Seq<PassTier>, xp1: u32, xp2: u32)
    requires
        xp1 <= xp2,
    ensures
        spec_tier(tiers, xp1) <= spec_tier(tiers, xp2),
{
    lemma_first_above_monotone(tiers, xp1, xp2, 0);
}

proof fn lemma_first_above_monotone(tiers: Seq<PassTier>, xp1: u32, xp2: u32, i: int)
    requires
        xp1 <= xp2,
    ensures
        first_above(tiers, xp1, i) <= first_above(tiers, xp2, i),
    decreases tiers.len() - i,
{
    if i < tiers.len() {
        lemma_first_above_monotone(tiers, xp1, xp2, i + 1);
        if tiers[i].required_xp <= xp1 {
        } else {
            lemma_first_above_ge(tiers, xp2, i);
        }
    }
}

proof fn lemma_first_above_ge(tiers: Seq<PassTier>, xp: u32, i: int)
    requires
        i <= tiers.len(),
    ensures
        first_above(tiers, xp, i) >= i,
    decreases tiers.len() - i,
{
    if i < tiers.len() {
        lemma_first_above_ge(tiers, xp, i + 1);
    }
}

/// A tier's reward is claimed at most once per pass: once the claim list
/// holds the tier, every further claim of it fails.
pub proof fn lemma_claim_once(s: BattlePassContract, now: u64, pass_id: u32, tier_index: u32)
    requires
        s.passes@.contains_key(pass_id),
        s.passes@[pass_id].rewards_claimed@.contains(tier_index),
    ensures
        s.spec_claim_check(now, pass_id, tier_index) is Err,
{
}

} // verus!
