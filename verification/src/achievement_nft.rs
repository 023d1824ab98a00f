//! Achievement NFTs: minters mint a token for a completed puzzle (or by
//! crafting), owners transfer and burn them, and each owner's collection
//! lists exactly the tokens it holds.
use std::collections::HashMap;
use vstd::prelude::*;

use crate::common::contains_u32;

verus! {

broadcast use vstd::std_specs::hash::group_hash_axioms;

/// An account or contract address, identified by a number.
pub type AccountId = u64;

#[derive(Clone, Copy, Debug, PartialEq, Eq, Structural)]
pub enum NftError {
    AlreadyInitialized,
    NotInitialized,
    NotAdmin,
    NotMinter,
    PuzzleNotCompleted,
    CannotTransferToSelf,
    TokenDoesNotExist,
    NotTheOwner,
    IdNotInCollection,
}

#[derive(Debug)]
pub struct Achievement {
    pub owner: AccountId,
    pub puzzle_id: u32,
    pub metadata: Vec<u8>,
    pub timestamp: u64,
}

#[derive(Clone, Copy, Debug, PartialEq, Eq, Structural)]
pub struct Counters {
    pub next_token_id: u32,
    pub total_supply: u32,
}

#[derive(Clone, Copy, Debug, PartialEq, Eq, Structural)]
pub struct CollectionItem {
    pub token_id: u32,
    pub puzzle_id: u32,
}

/// A record of a minter role change.
#[derive(Clone, Copy, Debug, PartialEq, Eq, Structural)]
pub struct MinterAuditEntry {
    /// The admin who acted.
    pub actor: AccountId,
    /// The address whose role changed.
    pub subject: AccountId,
    /// Granted (`true`) or revoked.
    pub granted: bool,
    pub timestamp: u64,
}

/// The contract's storage.
pub struct AchievementNFT {
    pub admin: Option<AccountId>,
    pub counters: Option<Counters>,
    pub achievements: HashMap<u32, Achievement>,
    /// Each owner's tokens, in the order they arrived.
    pub collections: HashMap<AccountId, Vec<CollectionItem>>,
    /// Keyed by `pair_key(user, puzzle)`: the puzzle was completed.
    pub completed: HashMap<u128, bool>,
    pub minters: HashMap<AccountId, bool>,
    /// Keyed by `pair_key(subject, timestamp)`.
    pub audit: HashMap<u128, MinterAuditEntry>,
}

/// The storage key of a pair of numbers.
pub open spec fn pkey(a: u64, b: u64) -> u128 {
    (a * 0x1_0000_0000_0000_0000 + b) as u128
}

pub fn pair_key(a: u64, b: u64) -> (r: u128)
    ensures
        r == pkey(a, b),
{
    (a as u128) * 0x1_0000_0000_0000_0000 + (b as u128)
}

/// The token ids of a collection, in order.
pub open spec fn token_ids(c: Seq<CollectionItem>) -> Seq<u32> {
    c.map_values(|it: CollectionItem| it.token_id)
}

/// The puzzle ids of a collection, in order.
pub open spec fn puzzle_ids(c: Seq<CollectionItem>) -> Seq<u32> {
    c.map_values(|it: CollectionItem| it.puzzle_id)
}

/// `s` with repeats dropped, first occurrences kept in order.
pub open spec fn distinct(s: Seq<u32>) -> Seq<u32>
    decreases s.len(),
{
    if s.len() == 0 {
        s
    } else if distinct(s.drop_last()).contains(s.last()) {
        distinct(s.drop_last())
    } else {
        distinct(s.drop_last()).push(s.last())
    }
}

/// The index of the first item of `c` holding token `id`.
pub open spec fn first_index(c: Seq<CollectionItem>, id: u32) -> Option<int>
    decreases c.len(),
{
    if c.len() == 0 {
        None
    } else {
        match first_index(c.drop_last(), id) {
            Some(i) => Some(i),
            None => if c.last().token_id == id {
                Some(c.len() - 1)
            } else {
                None
            },
        }
    }
}

pub proof fn lemma_first_index(c: Seq<CollectionItem>, id: u32)
    ensures
        first_index(c, id) matches Some(i) ==> 0 <= i < c.len() && c[i].token_id == id && forall|
            j: int,
        | 0 <= j < i ==> c[j].token_id != id,
        first_index(c, id) is None ==> forall|j: int| 0 <= j < c.len() ==> c[j].token_id != id,
    decreases c.len(),
{
    if c.len() > 0 {
        lemma_first_index(c.drop_last(), id);
        assert forall|j: int| 0 <= j < c.len() - 1 implies c.drop_last()[j] == c[j] by {}
    }
}

/// Position of the first item holding token `id`.
fn find_token(c: &Vec<CollectionItem>, id: u32) -> (r: Option<usize>)
    ensures
        match r {
            Some(i) => first_index(c@, id) == Some(i as int),
            None => first_index(c@, id) is None,
        },
{
    let mut i: usize = 0;
    while i < c.len()
        invariant
            i <= c.len(),
            first_index(c@.subrange(0, i as int), id) is None,
        decreases c.len() - i,
    {
        let ghost pre = c@.subrange(0, i + 1);
        assert(pre.drop_last() =~= c@.subrange(0, i as int));
        if c[i].token_id == id {
            proof {
                lemma_first_index_prefix(c@, i + 1, id);
            }
            return Some(i);
        }
        i = i + 1;
    }
    assert(c@.subrange(0, c.len() as int) =~= c@);
    None
}

proof fn lemma_first_index_prefix(c: Seq<CollectionItem>, j: int, id: u32)
    requires
        0 <= j <= c.len(),
        first_index(c.subrange(0, j), id) is Some,
    ensures
        first_index(c, id) == first_index(c.subrange(0, j), id),
    decreases c.len(),
{
    if j == c.len() {
        assert(c.subrange(0, j) =~= c);
    } else {
        assert(c.drop_last().subrange(0, j) =~= c.subrange(0, j));
        lemma_first_index_prefix(c.drop_last(), j, id);
    }
}

/// The collection invariant only reads the tokens and collections.
proof fn lemma_colls_frame(a: AchievementNFT, b: AchievementNFT)
    requires
        a.wf_colls(),
        a.achievements@ == b.achievements@,
        a.collections@ == b.collections@,
    ensures
        b.wf_colls(),
{
    assert forall|o: AccountId| #[trigger] b.coll(o) == a.coll(o) by {}
    assert forall|o: AccountId, i: int| 0 <= i < b.coll(o).len() implies {
        let it = #[trigger] b.coll(o)[i];
        &&& b.achievements@.contains_key(it.token_id)
        &&& b.achievements@[it.token_id].owner == o
        &&& b.achievements@[it.token_id].puzzle_id == it.puzzle_id
    } by {
        assert(b.coll(o)[i] == a.coll(o)[i]);
    }
    assert forall|o: AccountId, i: int, j: int|
        0 <= i < b.coll(o).len() && 0 <= j < b.coll(o).len() && i != j implies #[trigger] b.coll(o)[i].token_id
        != #[trigger] b.coll(o)[j].token_id by {
        assert(b.coll(o)[i] == a.coll(o)[i]);
        assert(b.coll(o)[j] == a.coll(o)[j]);
    }
    assert forall|id: u32| #[trigger] b.achievements@.contains_key(id) implies first_index(
        b.coll(b.achievements@[id].owner),
        id,
    ) is Some by {
        assert(b.coll(b.achievements@[id].owner) == a.coll(a.achievements@[id].owner));
    }
}

impl AchievementNFT {
    /// The collection of `owner` (empty when absent).
    pub open spec fn coll(self, owner: AccountId) -> Seq<CollectionItem> {
        if self.collections@.contains_key(owner) {
            self.collections@[owner]@
        } else {
            Seq::empty()
        }
    }

    pub open spec fn is_minter_spec(self, who: AccountId) -> bool {
        self.minters@.contains_key(who) && self.minters@[who]
    }

    pub open spec fn completed_spec(self, user: AccountId, puzzle: u32) -> bool {
        self.completed@.contains_key(pkey(user, puzzle as u64)) && self.completed@[pkey(
            user,
            puzzle as u64,
        )]
    }

    /// The counters agree with the tokens: ids lie below the next id and the
    /// supply counts the tokens (none before setup).
    pub open spec fn wf_counts(self) -> bool {
        &&& self.admin is None ==> self.counters is None
        &&& self.achievements@.dom().finite()
        &&& self.counters matches Some(c) ==> {
            &&& c.total_supply == self.achievements@.dom().len()
            &&& forall|id: u32| #[trigger] self.achievements@.contains_key(id) ==> id < c.next_token_id
        }
        &&& self.counters is None ==> self.achievements@.dom().len() == 0
    }

    /// Collections list only tokens their owner holds, with the token's
    /// puzzle, each once; every token sits in its owner's collection.
    pub open spec fn wf_colls(self) -> bool {
        &&& forall|o: AccountId, i: int| #![trigger self.coll(o)[i]]
            0 <= i < self.coll(o).len() ==> {
                let it = self.coll(o)[i];
                &&& self.achievements@.contains_key(it.token_id)
                &&& self.achievements@[it.token_id].owner == o
                &&& self.achievements@[it.token_id].puzzle_id == it.puzzle_id
            }
        &&& forall|o: AccountId, i: int, j: int| #![trigger self.coll(o)[i], self.coll(o)[j]]
            0 <= i < self.coll(o).len() && 0 <= j < self.coll(o).len() && i != j ==> self.coll(
                o,
            )[i].token_id != self.coll(o)[j].token_id
        &&& forall|id: u32| #[trigger]
            self.achievements@.contains_key(id) ==> first_index(
                self.coll(self.achievements@[id].owner),
                id,
            ) is Some
    }

    /// Storage invariant: `wf_counts` and `wf_colls`.
    pub open spec fn wf(self) -> bool {
        self.wf_counts() && self.wf_colls()
    }

    pub fn new() -> (r: Self)
        ensures
            r.wf(),
            r.admin is None,
            r.counters is None,
            r.achievements@ == Map::<u32, Achievement>::empty(),
            r.collections@ == Map::<AccountId, Vec<CollectionItem>>::empty(),
            r.completed@ == Map::<u128, bool>::empty(),
            r.minters@ == Map::<AccountId, bool>::empty(),
            r.audit@ == Map::<u128, MinterAuditEntry>::empty(),
    {
        let r = AchievementNFT {
            admin: None,
            counters: None,
            achievements: HashMap::new(),
            collections: HashMap::new(),
            completed: HashMap::new(),
            minters: HashMap::new(),
            audit: HashMap::new(),
        };
        assert(r.achievements@.dom() =~= Set::<u32>::empty());
        r
    }

    /// Sets the admin (once) and the counters (next id 1, no supply).
    pub fn initialize(&mut self, admin: AccountId) -> (r: Result<(), NftError>)
        requires
            old(self).wf(),
        ensures
            final(self).wf(),
            r == (if old(self).admin is Some {
                Err(NftError::AlreadyInitialized)
            } else {
                Ok(())
            }),
            r.is_err() ==> *final(self) == *old(self),
            r.is_ok() ==> *final(self) == (Self {
                admin: Some(admin),
                counters: Some(Counters { next_token_id: 1, total_supply: 0 }),
                ..*old(self)
            }),
    {
        if self.admin.is_some() {
            return Err(NftError::AlreadyInitialized);
        }
        self.admin = Some(admin);
        self.counters = Some(Counters { next_token_id: 1, total_supply: 0 });
        proof {
            vstd::set_lib::lemma_set_empty_equivalency_len(self.achievements@.dom());
            assert forall|id: u32| #[trigger] self.achievements@.contains_key(id) implies id < 1 by {
                assert(self.achievements@.dom().contains(id));
            }
            lemma_colls_frame(*old(self), *self);
        }
        Ok(())
    }

    /// The admin (`NotAdmin` when none is set); the host checks its
    /// authorization.
    pub fn require_admin(&self) -> (r: Result<AccountId, NftError>)
        ensures
            r == (match self.admin {
                Some(a) => Ok(a),
                None => Err(NftError::NotAdmin),
            }),
    {
        match self.admin {
            Some(a) => Ok(a),
            None => Err(NftError::NotAdmin),
        }
    }

    /// Records a minter role change by `actor` at `now`.
    fn write_audit(&mut self, now: u64, actor: AccountId, subject: AccountId, granted: bool)
        ensures
            *final(self) == (Self { audit: final(self).audit, ..*old(self) }),
            final(self).audit@ == old(self).audit@.insert(
                pkey(subject, now),
                MinterAuditEntry { actor, subject, granted, timestamp: now },
            ),
    {
        let key = pair_key(subject, now);
        self.audit.insert(key, MinterAuditEntry { actor, subject, granted, timestamp: now });
    }

    /// Grants the minter role (admin only) and records it.
    pub fn grant_minter(&mut self, now: u64, minter: AccountId) -> (r: Result<(), NftError>)
        requires
            old(self).wf(),
        ensures
            final(self).wf(),
            r == (if old(self).admin is None {
                Err(NftError::NotAdmin)
            } else {
                Ok(())
            }),
            r.is_err() ==> *final(self) == *old(self),
            r.is_ok() ==> {
                &&& final(self).minters@ == old(self).minters@.insert(minter, true)
                &&& final(self).audit@ == old(self).audit@.insert(
                    pkey(minter, now),
                    MinterAuditEntry {
                        actor: old(self).admin->Some_0,
                        subject: minter,
                        granted: true,
                        timestamp: now,
                    },
                )
                &&& *final(self) == (Self {
                    minters: final(self).minters,
                    audit: final(self).audit,
                    ..*old(self)
                })
            },
    {
        let admin = self.require_admin()?;
        self.minters.insert(minter, true);
        self.write_audit(now, admin, minter, true);
        proof {
            lemma_colls_frame(*old(self), *self);
        }
        Ok(())
    }

    /// Revokes the minter role (admin only) and records it.
    pub fn revoke_minter(&mut self, now: u64, minter: AccountId) -> (r: Result<(), NftError>)
        requires
            old(self).wf(),
        ensures
            final(self).wf(),
            r == (if old(self).admin is None {
                Err(NftError::NotAdmin)
            } else {
                Ok(())
            }),
            r.is_err() ==> *final(self) == *old(self),
            r.is_ok() ==> {
                &&& final(self).minters@ == old(self).minters@.remove(minter)
                &&& final(self).audit@ == old(self).audit@.insert(
                    pkey(minter, now),
                    MinterAuditEntry {
                        actor: old(self).admin->Some_0,
                        subject: minter,
                        granted: false,
                        timestamp: now,
                    },
                )
                &&& *final(self) == (Self {
                    minters: final(self).minters,
                    audit: final(self).audit,
                    ..*old(self)
                })
            },
    {
        let admin = self.require_admin()?;
        self.minters.remove(&minter);
        self.write_audit(now, admin, minter, false);
        proof {
            lemma_colls_frame(*old(self), *self);
        }
        Ok(())
    }

    pub fn is_minter(&self, addr: AccountId) -> (r: bool)
        ensures
            r == self.is_minter_spec(addr),
    {
        match self.minters.get(&addr) {
            Some(b) => *b,
            None => false,
        }
    }

    /// Marks a puzzle completed for `user` (the host checks the admin's
    /// authorization; `NotInitialized` without an admin).
    pub fn mark_puzzle_completed(&mut self, user: AccountId, puzzle_id: u32) -> (r: Result<
        (),
        NftError,
    >)
        requires
            old(self).wf(),
        ensures
            final(self).wf(),
            r == (if old(self).admin is None {
                Err(NftError::NotInitialized)
            } else {
                Ok(())
            }),
            r.is_err() ==> *final(self) == *old(self),
            r.is_ok() ==> final(self).completed@ == old(self).completed@.insert(
                pkey(user, puzzle_id as u64),
                true,
            ) && *final(self) == (Self { completed: final(self).completed, ..*old(self) }),
    {
        if self.admin.is_none() {
            return Err(NftError::NotInitialized);
        }
        self.completed.insert(pair_key(user, puzzle_id as u64), true);
        proof {
            lemma_colls_frame(*old(self), *self);
        }
        Ok(())
    }

    /// The state after minting token `id` for `to`.
    pub open spec fn minted(self, new: Self, now: u64, to: AccountId, puzzle_id: u32, metadata: Seq<u8>, id: u32) -> bool {
        let c = self.counters->Some_0;
        &&& new.achievements@.contains_key(id)
        &&& new.achievements@ == self.achievements@.insert(id, new.achievements@[id])
        &&& new.achievements@[id].owner == to
        &&& new.achievements@[id].puzzle_id == puzzle_id
        &&& new.achievements@[id].metadata@ == metadata
        &&& new.achievements@[id].timestamp == now
        &&& new.collections@ == self.collections@.insert(to, new.collections@[to])
        &&& new.coll(to) == self.coll(to).push(CollectionItem { token_id: id, puzzle_id })
        &&& new == (Self {
            achievements: new.achievements,
            collections: new.collections,
            counters: Some(
                Counters {
                    next_token_id: (c.next_token_id + 1) as u32,
                    total_supply: (c.total_supply + 1) as u32,
                },
            ),
            ..self
        })
    }

    /// The counters can take one more token.
    pub open spec fn mint_fits(self) -> bool {
        self.counters matches Some(c) ==> c.next_token_id < u32::MAX && c.total_supply < u32::MAX
    }

    /// Mints the next token id to `to` for `puzzle_id`.
    fn mint_internal(&mut self, now: u64, to: AccountId, puzzle_id: u32, metadata: Vec<u8>) -> (r:
        Result<u32, NftError>)
        requires
            old(self).wf(),
            old(self).mint_fits(),
        ensures
            final(self).wf(),
            r == (match old(self).counters {
                Some(c) => Ok(c.next_token_id),
                None => Err(NftError::NotInitialized),
            }),
            r.is_err() ==> *final(self) == *old(self),
            r matches Ok(id) ==> old(self).minted(*final(self), now, to, puzzle_id, metadata@, id),
    {
        let mut counters = match self.counters {
            Some(c) => c,
            None => return Err(NftError::NotInitialized),
        };
        let token_id = counters.next_token_id;
        let ghost meta = metadata@;
        self.achievements.insert(
            token_id,
            Achievement { owner: to, puzzle_id, metadata, timestamp: now },
        );
        let mut col = match self.collections.remove(&to) {
            Some(c) => c,
            None => Vec::new(),
        };
        let ghost before = col@;
        assert(before == old(self).coll(to));
        col.push(CollectionItem { token_id, puzzle_id });
        self.collections.insert(to, col);
        counters.next_token_id = counters.next_token_id + 1;
        counters.total_supply = counters.total_supply + 1;
        self.counters = Some(counters);
        assert(self.collections@ =~= old(self).collections@.insert(to, self.collections@[to]));
        proof {
            let item = CollectionItem { token_id, puzzle_id };
            assert(!old(self).achievements@.contains_key(token_id));
            assert(self.achievements@.dom() =~= old(self).achievements@.dom().insert(token_id));
            assert forall|o: AccountId, i: int| 0 <= i < self.coll(o).len() implies {
                let it = #[trigger] self.coll(o)[i];
                &&& self.achievements@.contains_key(it.token_id)
                &&& self.achievements@[it.token_id].owner == o
                &&& self.achievements@[it.token_id].puzzle_id == it.puzzle_id
            } by {
                if o == to && i == before.len() {
                } else {
                    assert(self.coll(o)[i] == old(self).coll(o)[i]);
                    assert(old(self).achievements@.contains_key(old(self).coll(o)[i].token_id));
                }
            }
            assert forall|o: AccountId, i: int, j: int|
                0 <= i < self.coll(o).len() && 0 <= j < self.coll(o).len() && i != j implies #[trigger] self.coll(
                o,
            )[i].token_id != #[trigger] self.coll(o)[j].token_id by {
                if o == to && i == before.len() {
                    assert(self.coll(o)[j] == old(self).coll(o)[j]);
                    assert(old(self).achievements@.contains_key(old(self).coll(o)[j].token_id));
                } else if o == to && j == before.len() {
                    assert(self.coll(o)[i] == old(self).coll(o)[i]);
                    assert(old(self).achievements@.contains_key(old(self).coll(o)[i].token_id));
                } else {
                    assert(self.coll(o)[i] == old(self).coll(o)[i]);
                    assert(self.coll(o)[j] == old(self).coll(o)[j]);
                }
            }
            assert forall|id: u32| #[trigger] self.achievements@.contains_key(id) implies first_index(
                self.coll(self.achievements@[id].owner),
                id,
            ) is Some by {
                let o = self.achievements@[id].owner;
                if id == token_id {
                    lemma_first_index(self.coll(o), id);
                    if first_index(self.coll(o), id) is None {
                        assert(self.coll(o)[before.len() as int].token_id == id);
                    }
                } else {
                    assert(old(self).achievements@.contains_key(id));
                    if o == to {
                        assert(self.coll(o).subrange(0, before.len() as int) =~= before);
                        lemma_first_index_prefix(self.coll(o), before.len() as int, id);
                    }
                }
            }
        }
        Ok(token_id)
    }

    /// Mints the next token to `to`, who must hold the minter role and have
    /// completed `puzzle_id`. Returns the token id.
    pub fn mint(&mut self, now: u64, to: AccountId, puzzle_id: u32, metadata: Vec<u8>) -> (r: Result<
        u32,
        NftError,
    >)
        requires
            old(self).wf(),
            old(self).mint_fits(),
        ensures
            final(self).wf(),
            r == (if !old(self).is_minter_spec(to) {
                Err(NftError::NotMinter)
            } else if !old(self).completed_spec(to, puzzle_id) {
                Err(NftError::PuzzleNotCompleted)
            } else {
                match old(self).counters {
                    Some(c) => Ok(c.next_token_id),
                    None => Err(NftError::NotInitialized),
                }
            }),
            r.is_err() ==> *final(self) == *old(self),
            r matches Ok(id) ==> old(self).minted(*final(self), now, to, puzzle_id, metadata@, id),
    {
        if !self.is_minter(to) {
            return Err(NftError::NotMinter);
        }
        let completed = match self.completed.get(&pair_key(to, puzzle_id as u64)) {
            Some(b) => *b,
            None => false,
        };
        if !completed {
            return Err(NftError::PuzzleNotCompleted);
        }
        self.mint_internal(now, to, puzzle_id, metadata)
    }

    /// Mints the next token to `to` by crafting: only the minter role is
    /// needed. Returns the token id.
    pub fn craftmint(&mut self, now: u64, to: AccountId, puzzle_id: u32, metadata: Vec<u8>) -> (r:
        Result<u32, NftError>)
        requires
            old(self).wf(),
            old(self).mint_fits(),
        ensures
            final(self).wf(),
            r == (if !old(self).is_minter_spec(to) {
                Err(NftError::NotMinter)
            } else {
                match old(self).counters {
                    Some(c) => Ok(c.next_token_id),
                    None => Err(NftError::NotInitialized),
                }
            }),
            r.is_err() ==> *final(self) == *old(self),
            r matches Ok(id) ==> old(self).minted(*final(self), now, to, puzzle_id, metadata@, id),
    {
        if !self.is_minter(to) {
            return Err(NftError::NotMinter);
        }
        self.mint_internal(now, to, puzzle_id, metadata)
    }

    /// The checks of a transfer, in the contract's order.
    pub open spec fn spec_transfer_check(self, from: AccountId, to: AccountId, id: u32) -> Result<(), NftError> {
        if from == to {
            Err(NftError::CannotTransferToSelf)
        } else if !self.achievements@.contains_key(id) {
            Err(NftError::TokenDoesNotExist)
        } else if self.achievements@[id].owner != from {
            Err(NftError::NotTheOwner)
        } else if first_index(self.coll(from), id) is None {
            Err(NftError::IdNotInCollection)
        } else {
            Ok(())
        }
    }

    /// Moves token `token_id` from `from` (its owner) to `to`: it leaves
    /// `from`'s collection, joins the end of `to`'s, and `to` owns it.
    pub fn transfer(&mut self, from: AccountId, to: AccountId, token_id: u32) -> (r: Result<(), NftError>)
        requires
            old(self).wf(),
        ensures
            final(self).wf(),
            r == old(self).spec_transfer_check(from, to, token_id),
            r.is_err() ==> *final(self) == *old(self),
            r.is_ok() ==> {
                let a = old(self).achievements@[token_id];
                let k = first_index(old(self).coll(from), token_id)->Some_0;
                &&& final(self).achievements@.contains_key(token_id)
                &&& final(self).achievements@ == old(self).achievements@.insert(
                    token_id,
                    final(self).achievements@[token_id],
                )
                &&& final(self).achievements@[token_id].owner == to
                &&& final(self).achievements@[token_id].puzzle_id == a.puzzle_id
                &&& final(self).achievements@[token_id].metadata@ == a.metadata@
                &&& final(self).achievements@[token_id].timestamp == a.timestamp
                &&& final(self).coll(from) == old(self).coll(from).remove(k)
                &&& final(self).coll(to) == old(self).coll(to).push(
                    CollectionItem { token_id, puzzle_id: a.puzzle_id },
                )
                &&& final(self).collections@.remove(from).remove(to) == old(self).collections@.remove(
                    from,
                ).remove(to)
                &&& final(self).collections@.contains_key(from)
                &&& final(self).collections@.contains_key(to)
                &&& *final(self) == (Self {
                    achievements: final(self).achievements,
                    collections: final(self).collections,
                    ..*old(self)
                })
            },
    {
        if from == to {
            return Err(NftError::CannotTransferToSelf);
        }
        let (owner, puzzle_id) = match self.achievements.get(&token_id) {
            Some(a) => (a.owner, a.puzzle_id),
            None => return Err(NftError::TokenDoesNotExist),
        };
        if owner != from {
            return Err(NftError::NotTheOwner);
        }
        let idx = match self.collections.get(&from) {
            Some(c) => match find_token(c, token_id) {
                Some(i) => i,
                None => return Err(NftError::IdNotInCollection),
            },
            None => return Err(NftError::IdNotInCollection),
        };
        let ghost s0 = *self;
        let mut from_col = match self.collections.remove(&from) {
            Some(c) => c,
            None => Vec::new(),
        };
        let ghost fc = from_col@;
        proof {
            lemma_first_index(fc, token_id);
        }
        from_col.remove(idx);
        self.collections.insert(from, from_col);
        let mut to_col = match self.collections.remove(&to) {
            Some(c) => c,
            None => Vec::new(),
        };
        let ghost tc = to_col@;
        to_col.push(CollectionItem { token_id, puzzle_id });
        self.collections.insert(to, to_col);
        let mut a = match self.achievements.remove(&token_id) {
            Some(a) => a,
            None => return Err(NftError::TokenDoesNotExist),
        };
        a.owner = to;
        self.achievements.insert(token_id, a);
        proof {
            assert(fc == s0.coll(from));
            assert(tc == s0.coll(to));
            assert(self.coll(from) == fc.remove(idx as int));
            assert(self.coll(to) == tc.push(CollectionItem { token_id, puzzle_id }));
            assert(self.collections@.remove(from).remove(to) =~= s0.collections@.remove(from).remove(to));
            assert(self.achievements@ =~= s0.achievements@.insert(token_id, self.achievements@[token_id]));
            assert(self.achievements@.dom() =~= s0.achievements@.dom());
            lemma_first_index(fc, token_id);
            assert forall|o: AccountId| o != from && o != to implies #[trigger] self.coll(o) == s0.coll(o) by {
                assert(self.collections@.contains_key(o) == s0.collections@.contains_key(o));
                if s0.collections@.contains_key(o) {
                    assert(self.collections@[o] == s0.collections@[o]);
                }
            }
            // every item of `to`'s old collection is a token other than `token_id`
            assert forall|j: int| 0 <= j < tc.len() implies #[trigger] tc[j].token_id != token_id by {
                assert(s0.coll(to)[j] == tc[j]);
            }
            assert forall|o: AccountId, i: int| 0 <= i < self.coll(o).len() implies {
                let it = #[trigger] self.coll(o)[i];
                &&& self.achievements@.contains_key(it.token_id)
                &&& self.achievements@[it.token_id].owner == o
                &&& self.achievements@[it.token_id].puzzle_id == it.puzzle_id
            } by {
                if o == from {
                    let j = if i < idx { i } else { i + 1 };
                    assert(self.coll(o)[i] == fc[j]);
                    assert(s0.coll(from)[j] == fc[j]);
                    assert(fc[j].token_id != token_id);
                } else if o == to {
                    if i < tc.len() {
                        assert(self.coll(o)[i] == tc[i]);
                        assert(s0.coll(to)[i] == tc[i]);
                    }
                } else {
                    assert(self.coll(o)[i] == s0.coll(o)[i]);
                    assert(s0.coll(o)[i].token_id != token_id);
                }
            }
            assert forall|o: AccountId, i: int, j: int|
                0 <= i < self.coll(o).len() && 0 <= j < self.coll(o).len() && i != j implies #[trigger] self.coll(
                o,
            )[i].token_id != #[trigger] self.coll(o)[j].token_id by {
                if o == from {
                    let i2 = if i < idx { i } else { i + 1 };
                    let j2 = if j < idx { j } else { j + 1 };
                    assert(self.coll(o)[i] == fc[i2]);
                    assert(self.coll(o)[j] == fc[j2]);
                    assert(s0.coll(from)[i2] == fc[i2] && s0.coll(from)[j2] == fc[j2]);
                } else if o == to {
                    if i < tc.len() {
                        assert(self.coll(o)[i] == s0.coll(to)[i]);
                    }
                    if j < tc.len() {
                        assert(self.coll(o)[j] == s0.coll(to)[j]);
                    }
                } else {
                    assert(self.coll(o)[i] == s0.coll(o)[i]);
                    assert(self.coll(o)[j] == s0.coll(o)[j]);
                }
            }
            assert forall|id: u32| #[trigger] self.achievements@.contains_key(id) implies first_index(
                self.coll(self.achievements@[id].owner),
                id,
            ) is Some by {
                let o = self.achievements@[id].owner;
                if id == token_id {
                    lemma_first_index(self.coll(to), id);
                    if first_index(self.coll(to), id) is None {
                        assert(self.coll(to)[tc.len() as int].token_id == id);
                    }
                } else {
                    assert(s0.achievements@[id].owner == o);
                    let c0 = s0.coll(o);
                    lemma_first_index(c0, id);
                    let p = first_index(c0, id)->Some_0;
                    lemma_first_index(self.coll(o), id);
                    if o == from {
                        assert(p != idx);
                        let q = if p < idx { p } else { p - 1 };
                        assert(self.coll(o)[q] == fc[p]);
                        if first_index(self.coll(o), id) is None {
                            assert(self.coll(o)[q].token_id == id);
                        }
                    } else if o == to {
                        assert(self.coll(o)[p] == tc[p]);
                        if first_index(self.coll(o), id) is None {
                            assert(self.coll(o)[p].token_id == id);
                        }
                    } else {
                        assert(self.coll(o) == c0);
                    }
                }
            }
        }
        Ok(())
    }

    /// Burns a token of `caller` (only its holder may): it leaves the
    /// holder's collection and the supply drops by one.
    pub fn burn(&mut self, caller: AccountId, token_id: u32) -> (r: Result<(), NftError>)
        requires
            old(self).wf(),
        ensures
            final(self).wf(),
            r == (if !old(self).achievements@.contains_key(token_id) {
                Err(NftError::TokenDoesNotExist)
            } else if old(self).achievements@[token_id].owner != caller {
                Err(NftError::NotTheOwner)
            } else if old(self).counters is None {
                Err(NftError::NotInitialized)
            } else {
                Ok(())
            }),
            r.is_err() ==> *final(self) == *old(self),
            r.is_ok() ==> {
                let o = old(self).achievements@[token_id].owner;
                let c = old(self).counters->Some_0;
                &&& final(self).achievements@ == old(self).achievements@.remove(token_id)
                &&& final(self).coll(o) == (match first_index(old(self).coll(o), token_id) {
                    Some(k) => old(self).coll(o).remove(k),
                    None => old(self).coll(o),
                })
                &&& final(self).collections@.remove(o) == old(self).collections@.remove(o)
                &&& *final(self) == (Self {
                    achievements: final(self).achievements,
                    collections: final(self).collections,
                    counters: Some(Counters { total_supply: (c.total_supply - 1) as u32, ..c }),
                    ..*old(self)
                })
            },
    {
        let owner = match self.achievements.get(&token_id) {
            Some(a) => a.owner,
            None => return Err(NftError::TokenDoesNotExist),
        };
        if owner != caller {
            return Err(NftError::NotTheOwner);
        }
        let mut counters = match self.counters {
            Some(c) => c,
            None => return Err(NftError::NotInitialized),
        };
        let ghost s0 = *self;
        proof {
            assert(s0.achievements@.dom().contains(token_id));
            assert(s0.achievements@.dom().len() > 0);
        }
        let found = match self.collections.get(&owner) {
            Some(c) => find_token(c, token_id),
            None => None,
        };
        let ghost oc = s0.coll(owner);
        proof {
            lemma_first_index(oc, token_id);
        }
        match found {
            Some(i) => {
                let mut col = match self.collections.remove(&owner) {
                    Some(c) => c,
                    None => Vec::new(),
                };
                col.remove(i);
                self.collections.insert(owner, col);
            },
            None => {},
        }
        self.achievements.remove(&token_id);
        counters.total_supply = counters.total_supply - 1;
        self.counters = Some(counters);
        proof {
            assert(self.collections@.remove(owner) =~= s0.collections@.remove(owner));
            assert(self.achievements@.dom() =~= s0.achievements@.dom().remove(token_id));
            assert forall|o: AccountId| o != owner implies #[trigger] self.coll(o) == s0.coll(o) by {
                assert(self.collections@.contains_key(o) == s0.collections@.contains_key(o));
                if s0.collections@.contains_key(o) {
                    assert(self.collections@[o] == s0.collections@[o]);
                }
            }
            let k = first_index(oc, token_id)->Some_0;
            assert(self.coll(owner) == oc.remove(k));
            assert forall|o: AccountId, i: int| 0 <= i < self.coll(o).len() implies {
                let it = #[trigger] self.coll(o)[i];
                &&& self.achievements@.contains_key(it.token_id)
                &&& self.achievements@[it.token_id].owner == o
                &&& self.achievements@[it.token_id].puzzle_id == it.puzzle_id
            } by {
                if o == owner {
                    let j = if i < k { i } else { i + 1 };
                    assert(self.coll(o)[i] == oc[j]);
                    assert(s0.coll(o)[j] == oc[j]);
                    assert(oc[j].token_id != token_id);
                } else {
                    assert(self.coll(o)[i] == s0.coll(o)[i]);
                    assert(s0.coll(o)[i].token_id != token_id);
                }
            }
            assert forall|o: AccountId, i: int, j: int|
                0 <= i < self.coll(o).len() && 0 <= j < self.coll(o).len() && i != j implies #[trigger] self.coll(
                o,
            )[i].token_id != #[trigger] self.coll(o)[j].token_id by {
                if o == owner {
                    let i2 = if i < k { i } else { i + 1 };
                    let j2 = if j < k { j } else { j + 1 };
                    assert(self.coll(o)[i] == oc[i2]);
                    assert(self.coll(o)[j] == oc[j2]);
                    assert(s0.coll(o)[i2] == oc[i2] && s0.coll(o)[j2] == oc[j2]);
                } else {
                    assert(self.coll(o)[i] == s0.coll(o)[i]);
                    assert(self.coll(o)[j] == s0.coll(o)[j]);
                }
            }
            assert forall|id: u32| #[trigger] self.achievements@.contains_key(id) implies first_index(
                self.coll(self.achievements@[id].owner),
                id,
            ) is Some by {
                let o = self.achievements@[id].owner;
                assert(s0.achievements@.contains_key(id));
                let c0 = s0.coll(o);
                lemma_first_index(c0, id);
                let p = first_index(c0, id)->Some_0;
                lemma_first_index(self.coll(o), id);
                if o == owner {
                    assert(p != k);
                    let q = if p < k { p } else { p - 1 };
                    assert(self.coll(o)[q] == oc[p]);
                    if first_index(self.coll(o), id) is None {
                        assert(self.coll(o)[q].token_id == id);
                    }
                } else {
                    assert(self.coll(o) == c0);
                }
            }
        }
        Ok(())
    }

    /// The token ids in `owner`'s collection, in order.
    pub fn get_collection(&self, owner: AccountId) -> (r: Vec<u32>)
        ensures
            r@ == token_ids(self.coll(owner)),
    {
        let mut r: Vec<u32> = Vec::new();
        match self.collections.get(&owner) {
            Some(c) => {
                let mut i: usize = 0;
                while i < c.len()
                    invariant
                        i <= c.len(),
                        r@ == token_ids(c@.subrange(0, i as int)),
                    decreases c.len() - i,
                {
                    r.push(c[i].token_id);
                    i = i + 1;
                    assert(r@ =~= token_ids(c@.subrange(0, i as int)));
                }
                assert(c@.subrange(0, c.len() as int) =~= c@);
            },
            None => {
                assert(r@ =~= token_ids(self.coll(owner)));
            },
        }
        r
    }

    /// The owner of a token.
    pub fn owner_of(&self, token_id: u32) -> (r: Result<AccountId, NftError>)
        ensures
            r == (if self.achievements@.contains_key(token_id) {
                Ok(self.achievements@[token_id].owner)
            } else {
                Err(NftError::TokenDoesNotExist)
            }),
    {
        match self.achievements.get(&token_id) {
            Some(a) => Ok(a.owner),
            None => Err(NftError::TokenDoesNotExist),
        }
    }

    /// The number of live tokens (0 before setup).
    pub fn total_supply(&self) -> (r: u32)
        ensures
            r == (match self.counters {
                Some(c) => c.total_supply,
                None => 0,
            }),
    {
        match self.counters {
            Some(c) => c.total_supply,
            None => 0,
        }
    }

    pub fn get_achievement(&self, token_id: u32) -> (r: Option<&Achievement>)
        ensures
            r == (if self.achievements@.contains_key(token_id) {
                Some(&self.achievements@[token_id])
            } else {
                None
            }),
    {
        self.achievements.get(&token_id)
    }

    /// The puzzles of `owner`'s tokens, each once, in order of first
    /// appearance.
    pub fn puzzle_ids_of(&self, owner: AccountId) -> (r: Vec<u32>)
        ensures
            r@ == distinct(puzzle_ids(self.coll(owner))),
    {
        let mut r: Vec<u32> = Vec::new();
        match self.collections.get(&owner) {
            Some(c) => {
                let mut i: usize = 0;
                while i < c.len()
                    invariant
                        i <= c.len(),
                        r@ == distinct(puzzle_ids(c@.subrange(0, i as int))),
                    decreases c.len() - i,
                {
                    let ghost pre = puzzle_ids(c@.subrange(0, i + 1));
                    assert(pre.drop_last() =~= puzzle_ids(c@.subrange(0, i as int)));
                    if !contains_u32(&r, c[i].puzzle_id) {
                        r.push(c[i].puzzle_id);
                    }
                    i = i + 1;
                }
                assert(c@.subrange(0, c.len() as int) =~= c@);
            },
            None => {
                assert(puzzle_ids(self.coll(owner)) =~= Seq::<u32>::empty());
            },
        }
        r
    }

    /// Whether any of `owner`'s tokens is for `puzzle_id`.
    pub fn has_puzzle(&self, owner: AccountId, puzzle_id: u32) -> (r: bool)
        ensures
            r == puzzle_ids(self.coll(owner)).contains(puzzle_id),
    {
        match self.collections.get(&owner) {
            Some(c) => {
                let mut i: usize = 0;
                while i < c.len()
                    invariant
                        i <= c.len(),
                        c@ == self.coll(owner),
                        forall|j: int| 0 <= j < i ==> c@[j].puzzle_id != puzzle_id,
                    decreases c.len() - i,
                {
                    if c[i].puzzle_id == puzzle_id {
                        assert(puzzle_ids(c@)[i as int] == puzzle_id);
                        return true;
                    }
                    i = i + 1;
                }
                assert forall|j: int| 0 <= j < puzzle_ids(c@).len() implies puzzle_ids(c@)[j] != puzzle_id by {
                    assert(puzzle_ids(c@)[j] == c@[j].puzzle_id);
                }
                false
            },
            None => false,
        }
    }
}

} // verus!
