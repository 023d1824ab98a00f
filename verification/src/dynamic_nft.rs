//! NFTs that evolve: minted at level 1 and rarity 1, they gain levels and
//! rarity at milestones, gain a level once enough time has passed since
//! minting (or the last such evolution), lose levels on a downgrade, and two
//! NFTs of one owner fuse into a new one. Every change appends a note to the
//! NFT's metadata.
use std::collections::HashMap;
use vstd::prelude::*;

use crate::airdrop_merkle_claim::concat;
use crate::common::copy_bytes;
use crate::dynamic_metadata::text::{decimal, decimal_bytes};

verus! {

broadcast use vstd::std_specs::hash::group_hash_axioms;

/// An account or contract address, identified by a number.
pub type AccountId = u64;

#[derive(Clone, Copy, Debug, PartialEq, Eq, Structural)]
pub enum DynamicNftError {
    AlreadyInitialized,
    NotInitialized,
    NftNotFound,
    NotReady,
    OwnersMismatch,
}

/// An NFT as stored; `traits` and `metadata` are UTF-8 text.
pub struct DynamicNft {
    pub owner: AccountId,
    pub level: u32,
    pub rarity: u8,
    pub traits: Vec<u8>,
    pub metadata: Vec<u8>,
    pub minted_at: u64,
}

/// An NFT as plain values.
pub struct NftState {
    pub owner: AccountId,
    pub level: u32,
    pub rarity: u8,
    pub traits: Seq<u8>,
    pub metadata: Seq<u8>,
    pub minted_at: u64,
}

impl View for DynamicNft {
    type V = NftState;

    open spec fn view(&self) -> NftState {
        NftState {
            owner: self.owner,
            level: self.level,
            rarity: self.rarity,
            traits: self.traits@,
            metadata: self.metadata@,
            minted_at: self.minted_at,
        }
    }
}

/// The note a milestone evolution of `token_id` appends:
/// "evolved_milestone:" and the id in decimal.
pub open spec fn milestone_note(token_id: u32) -> Seq<u8> {
    seq![101u8, 118, 111, 108, 118, 101, 100, 95, 109, 105, 108, 101, 115, 116, 111, 110, 101, 58]
        + decimal(token_id as nat)
}

/// The note a time evolution appends: "|time_evolved".
pub open spec fn time_note() -> Seq<u8> {
    seq![124u8, 116, 105, 109, 101, 95, 101, 118, 111, 108, 118, 101, 100]
}

/// The note a downgrade appends: "|downgraded".
pub open spec fn downgrade_note() -> Seq<u8> {
    seq![124u8, 100, 111, 119, 110, 103, 114, 97, 100, 101, 100]
}

/// The separator of fused traits: "+".
pub open spec fn plus() -> Seq<u8> {
    seq![43u8]
}

/// The contract's storage.
pub struct DynamicNftContract {
    /// The admins that have initialised the contract.
    pub configs: HashMap<AccountId, bool>,
    pub next_nft_id: Option<u32>,
    pub nfts: HashMap<u32, DynamicNft>,
}

impl DynamicNftContract {
    /// Every stored NFT, as plain values.
    pub open spec fn states(self) -> Map<u32, NftState> {
        Map::new(|k: u32| self.nfts@.contains_key(k), |k: u32| self.nfts@[k]@)
    }

    pub fn new() -> (r: Self)
        ensures
            r.configs@ == Map::<AccountId, bool>::empty(),
            r.next_nft_id is None,
            r.states() == Map::<u32, NftState>::empty(),
    {
        let r = DynamicNftContract {
            configs: HashMap::new(),
            next_nft_id: None,
            nfts: HashMap::new(),
        };
        assert(r.states() =~= Map::<u32, NftState>::empty());
        r
    }

    /// Records `admin` (once per admin) and sets the next id to 1.
    pub fn initialize(&mut self, admin: AccountId) -> (r: Result<(), DynamicNftError>)
        ensures
            r == (if old(self).configs@.contains_key(admin) {
                Err::<(), DynamicNftError>(DynamicNftError::AlreadyInitialized)
            } else {
                Ok(())
            }),
            r.is_err() ==> *final(self) == *old(self),
            r.is_ok() ==> {
                &&& final(self).configs@ == old(self).configs@.insert(admin, true)
                &&& final(self).next_nft_id == Some(1u32)
                &&& final(self).nfts == old(self).nfts
            },
    {
        if self.configs.contains_key(&admin) {
            return Err(DynamicNftError::AlreadyInitialized);
        }
        self.configs.insert(admin, true);
        self.next_nft_id = Some(1);
        Ok(())
    }

    /// Mints an NFT for `owner` at `now` under the next id, at level 1 and
    /// rarity 1. Returns the id.
    pub fn mint(&mut self, now: u64, owner: AccountId, metadata: Vec<u8>, traits: Vec<u8>) -> (r: Result<
        u32,
        DynamicNftError,
    >)
        requires
            old(self).next_nft_id matches Some(n) ==> n < u32::MAX,
        ensures
            match old(self).next_nft_id {
                None => r == Err::<u32, DynamicNftError>(DynamicNftError::NotInitialized)
                    && *final(self) == *old(self),
                Some(id) => {
                    &&& r == Ok::<u32, DynamicNftError>(id)
                    &&& final(self).states() == old(self).states().insert(
                        id,
                        NftState {
                            owner,
                            level: 1,
                            rarity: 1,
                            traits: traits@,
                            metadata: metadata@,
                            minted_at: now,
                        },
                    )
                    &&& final(self).next_nft_id == Some((id + 1) as u32)
                    &&& final(self).configs == old(self).configs
                },
            },
    {
        let next = match self.next_nft_id {
            Some(n) => n,
            None => return Err(DynamicNftError::NotInitialized),
        };
        let ghost s0 = *self;
        let nft = DynamicNft { owner, level: 1, rarity: 1, traits, metadata, minted_at: now };
        self.nfts.insert(next, nft);
        self.next_nft_id = Some(next + 1);
        proof {
            assert(self.states() =~= s0.states().insert(next, self.nfts@[next]@));
        }
        Ok(next)
    }

    /// The NFT after a milestone: levels and rarity added (saturating),
    /// traits replaced when new ones are given, the milestone noted.
    pub open spec fn at_milestone(
        n: NftState,
        token_id: u32,
        level_inc: u32,
        rarity_inc: u8,
        new_traits: Option<Seq<u8>>,
    ) -> NftState {
        NftState {
            level: n.level.saturating_add(level_inc),
            rarity: n.rarity.saturating_add(rarity_inc),
            traits: match new_traits {
                Some(t) => t,
                None => n.traits,
            },
            metadata: n.metadata + milestone_note(token_id),
            ..n
        }
    }

    /// Evolves NFT `token_id` at a milestone.
    pub fn evolve_milestone(
        &mut self,
        token_id: u32,
        level_inc: u32,
        rarity_inc: u8,
        new_traits: Option<Vec<u8>>,
    ) -> (r: Result<(), DynamicNftError>)
        ensures
            !old(self).nfts@.contains_key(token_id) ==> r == Err::<(), DynamicNftError>(
                DynamicNftError::NftNotFound,
            ) && *final(self) == *old(self),
            old(self).nfts@.contains_key(token_id) ==> {
                &&& r == Ok::<(), DynamicNftError>(())
                &&& final(self).states() == old(self).states().insert(
                    token_id,
                    Self::at_milestone(
                        old(self).states()[token_id],
                        token_id,
                        level_inc,
                        rarity_inc,
                        match new_traits {
                            Some(t) => Some(t@),
                            None => None,
                        },
                    ),
                )
                &&& final(self).next_nft_id == old(self).next_nft_id
                &&& final(self).configs == old(self).configs
            },
    {
        if !self.nfts.contains_key(&token_id) {
            return Err(DynamicNftError::NftNotFound);
        }
        let ghost s0 = *self;
        let mut nft = self.nfts.remove(&token_id).unwrap();
        let ghost n0 = nft@;
        nft.level = nft.level.saturating_add(level_inc);
        nft.rarity = nft.rarity.saturating_add(rarity_inc);
        match new_traits {
            Some(t) => {
                nft.traits = t;
            },
            None => {},
        }
        let prefix: Vec<u8> = vec![101, 118, 111, 108, 118, 101, 100, 95, 109, 105, 108, 101, 115, 116, 111, 110, 101, 58];
        let digits = decimal_bytes(token_id);
        let note = concat(&prefix, &digits);
        nft.metadata = concat(&nft.metadata, &note);
        self.nfts.insert(token_id, nft);
        proof {
            assert(note@ =~= milestone_note(token_id));
            assert(self.states() =~= s0.states().insert(token_id, self.nfts@[token_id]@));
        }
        Ok(())
    }

    /// Evolves NFT `token_id` by time at `now`, once `required_secs` have
    /// passed since it was minted or last evolved by time: one level more,
    /// the evolution noted, and the timer restarted.
    pub fn evolve_time(&mut self, now: u64, token_id: u32, required_secs: u64) -> (r: Result<
        (),
        DynamicNftError,
    >)
        requires
            old(self).nfts@.contains_key(token_id) ==> old(self).states()[token_id].minted_at
                + required_secs <= u64::MAX,
        ensures
            ({
                let e = if !old(self).nfts@.contains_key(token_id) {
                    Some(DynamicNftError::NftNotFound)
                } else if now < old(self).states()[token_id].minted_at + required_secs {
                    Some(DynamicNftError::NotReady)
                } else {
                    None
                };
                match e {
                    Some(err) => r == Err::<(), DynamicNftError>(err) && *final(self) == *old(self),
                    None => {
                        let n = old(self).states()[token_id];
                        &&& r == Ok::<(), DynamicNftError>(())
                        &&& final(self).states() == old(self).states().insert(
                            token_id,
                            NftState {
                                level: n.level.saturating_add(1),
                                metadata: n.metadata + time_note(),
                                minted_at: now,
                                ..n
                            },
                        )
                        &&& final(self).next_nft_id == old(self).next_nft_id
                        &&& final(self).configs == old(self).configs
                    },
                }
            }),
    {
        match self.nfts.get(&token_id) {
            None => return Err(DynamicNftError::NftNotFound),
            Some(n) => {
                if now < n.minted_at + required_secs {
                    return Err(DynamicNftError::NotReady);
                }
            },
        }
        let ghost s0 = *self;
        let mut nft = self.nfts.remove(&token_id).unwrap();
        nft.level = nft.level.saturating_add(1);
        let note: Vec<u8> = vec![124, 116, 105, 109, 101, 95, 101, 118, 111, 108, 118, 101, 100];
        nft.metadata = concat(&nft.metadata, &note);
        nft.minted_at = now;
        self.nfts.insert(token_id, nft);
        proof {
            assert(note@ =~= time_note());
            assert(self.states() =~= s0.states().insert(token_id, self.nfts@[token_id]@));
        }
        Ok(())
    }

    /// Downgrades NFT `token_id` by `level_dec` levels (not below 0), noting
    /// the downgrade.
    pub fn downgrade(&mut self, token_id: u32, level_dec: u32) -> (r: Result<(), DynamicNftError>)
        ensures
            !old(self).nfts@.contains_key(token_id) ==> r == Err::<(), DynamicNftError>(
                DynamicNftError::NftNotFound,
            ) && *final(self) == *old(self),
            old(self).nfts@.contains_key(token_id) ==> {
                let n = old(self).states()[token_id];
                &&& r == Ok::<(), DynamicNftError>(())
                &&& final(self).states() == old(self).states().insert(
                    token_id,
                    NftState {
                        level: n.level.saturating_sub(level_dec),
                        metadata: n.metadata + downgrade_note(),
                        ..n
                    },
                )
                &&& final(self).next_nft_id == old(self).next_nft_id
                &&& final(self).configs == old(self).configs
            },
    {
        if !self.nfts.contains_key(&token_id) {
            return Err(DynamicNftError::NftNotFound);
        }
        let ghost s0 = *self;
        let mut nft = self.nfts.remove(&token_id).unwrap();
        nft.level = nft.level.saturating_sub(level_dec);
        let note: Vec<u8> = vec![124, 100, 111, 119, 110, 103, 114, 97, 100, 101, 100];
        nft.metadata = concat(&nft.metadata, &note);
        self.nfts.insert(token_id, nft);
        proof {
            assert(note@ =~= downgrade_note());
            assert(self.states() =~= s0.states().insert(token_id, self.nfts@[token_id]@));
        }
        Ok(())
    }

    /// The NFT fusing `a` and `b` at `now`: `a`'s owner, the levels summed
    /// (saturating), one more than the higher rarity, the traits joined by
    /// "+", the metadata concatenated.
    pub open spec fn fused(a: NftState, b: NftState, now: u64) -> NftState {
        NftState {
            owner: a.owner,
            level: a.level.saturating_add(b.level),
            rarity: ((if a.rarity > b.rarity {
                a.rarity
            } else {
                b.rarity
            }) + 1) as u8,
            traits: a.traits + plus() + b.traits,
            metadata: a.metadata + b.metadata,
            minted_at: now,
        }
    }

    /// Whether NFTs `a` and `b` can be fused, or why not.
    pub open spec fn spec_fuse(self, a: u32, b: u32) -> Result<u32, DynamicNftError> {
        if !self.nfts@.contains_key(a) || !self.nfts@.contains_key(b) {
            Err(DynamicNftError::NftNotFound)
        } else if self.states()[a].owner != self.states()[b].owner {
            Err(DynamicNftError::OwnersMismatch)
        } else {
            match self.next_nft_id {
                None => Err(DynamicNftError::NotInitialized),
                Some(id) => Ok(id),
            }
        }
    }

    /// Fuses NFTs `token_a` and `token_b` of one owner at `now` into a new
    /// NFT under the next id; both are burnt. Returns the new id.
    pub fn fuse(&mut self, now: u64, token_a: u32, token_b: u32) -> (r: Result<u32, DynamicNftError>)
        requires
            old(self).nfts@.contains_key(token_a) && old(self).nfts@.contains_key(token_b) ==> old(
                self,
            ).states()[token_a].rarity < 255 && old(self).states()[token_b].rarity < 255,
            old(self).next_nft_id matches Some(n) ==> n < u32::MAX,
        ensures
            match old(self).spec_fuse(token_a, token_b) {
                Err(e) => r == Err::<u32, DynamicNftError>(e) && *final(self) == *old(self),
                Ok(id) => {
                    &&& r == Ok::<u32, DynamicNftError>(id)
                    &&& final(self).states() == old(self).states().remove(token_a).remove(
                        token_b,
                    ).insert(
                        id,
                        Self::fused(old(self).states()[token_a], old(self).states()[token_b], now),
                    )
                    &&& final(self).next_nft_id == Some((id + 1) as u32)
                    &&& final(self).configs == old(self).configs
                },
            },
    {
        let fused_nft = match (self.nfts.get(&token_a), self.nfts.get(&token_b)) {
            (Some(a), Some(b)) => {
                if a.owner != b.owner {
                    return Err(DynamicNftError::OwnersMismatch);
                }
                let level = a.level.saturating_add(b.level);
                let top = if a.rarity > b.rarity {
                    a.rarity
                } else {
                    b.rarity
                };
                let sep: Vec<u8> = vec![43];
                let right = concat(&sep, &b.traits);
                let traits = concat(&a.traits, &right);
                let metadata = concat(&a.metadata, &b.metadata);
                proof {
                    assert(traits@ =~= a.traits@ + plus() + b.traits@);
                }
                DynamicNft { owner: a.owner, level, rarity: top + 1, traits, metadata, minted_at: now }
            },
            _ => return Err(DynamicNftError::NftNotFound),
        };
        let next = match self.next_nft_id {
            Some(n) => n,
            None => return Err(DynamicNftError::NotInitialized),
        };
        let ghost s0 = *self;
        self.nfts.remove(&token_a);
        self.nfts.remove(&token_b);
        self.nfts.insert(next, fused_nft);
        self.next_nft_id = Some(next + 1);
        proof {
            assert(self.nfts@[next]@ == Self::fused(s0.states()[token_a], s0.states()[token_b], now));
            assert(self.states() =~= s0.states().remove(token_a).remove(token_b).insert(
                next,
                Self::fused(s0.states()[token_a], s0.states()[token_b], now),
            ));
        }
        Ok(next)
    }

    /// A copy of NFT `token_id`.
    pub fn get_nft(&self, token_id: u32) -> (r: Option<DynamicNft>)
        ensures
            match r {
                Some(n) => self.nfts@.contains_key(token_id) && n@ == self.states()[token_id],
                None => !self.nfts@.contains_key(token_id),
            },
    {
        match self.nfts.get(&token_id) {
            Some(n) => Some(
                DynamicNft {
                    owner: n.owner,
                    level: n.level,
                    rarity: n.rarity,
                    traits: copy_bytes(&n.traits),
                    metadata: copy_bytes(&n.metadata),
                    minted_at: n.minted_at,
                },
            ),
            None => None,
        }
    }
}

/// Every change to an NFT keeps its metadata as a prefix: the metadata is a
/// history that only grows.
pub proof fn lemma_metadata_only_grows(
    n: NftState,
    token_id: u32,
    level_inc: u32,
    rarity_inc: u8,
    new_traits: Option<Seq<u8>>,
    level_dec: u32,
    now: u64,
)
    ensures
        DynamicNftContract::at_milestone(n, token_id, level_inc, rarity_inc, new_traits).metadata.subrange(
            0,
            n.metadata.len() as int,
        ) == n.metadata,
        (n.metadata + time_note()).subrange(0, n.metadata.len() as int) == n.metadata,
        (n.metadata + downgrade_note()).subrange(0, n.metadata.len() as int) == n.metadata,
{
    assert(DynamicNftContract::at_milestone(n, token_id, level_inc, rarity_inc, new_traits).metadata.subrange(
        0,
        n.metadata.len() as int,
    ) =~= n.metadata);
    assert((n.metadata + time_note()).subrange(0, n.metadata.len() as int) =~= n.metadata);
    assert((n.metadata + downgrade_note()).subrange(0, n.metadata.len() as int) =~= n.metadata);
}

/// A fusion conserves levels (up to saturation) and raises rarity above
/// both parts.
pub proof fn lemma_fusion_sums_levels(a: NftState, b: NftState, now: u64)
    requires
        a.rarity < 255,
        b.rarity < 255,
    ensures
        a.level + b.level <= u32::MAX ==> DynamicNftContract::fused(a, b, now).level == a.level
            + b.level,
        DynamicNftContract::fused(a, b, now).rarity > a.rarity,
        DynamicNftContract::fused(a, b, now).rarity > b.rarity,
{
}

} // verus!
