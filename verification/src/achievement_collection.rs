//! Achievement sets: players collect the achievements of a set, may trade
//! them, and earn the set's bonus points once when they hold all of them.
//! Limited sets cap how many players can claim each achievement.
use std::collections::HashMap;
use vstd::prelude::*;

use crate::common::contains_u32;

verus! {

broadcast use vstd::std_specs::hash::group_hash_axioms;

/// An account or contract address, identified by a number.
pub type AccountId = u64;

#[derive(Clone, Copy, Debug, PartialEq, Eq, Structural)]
pub enum Rarity {
    Common,
    Rare,
    Epic,
    Legendary,
}

#[derive(Clone, Copy, Debug, PartialEq, Eq, Structural)]
pub enum CollectionError {
    AlreadyInitialized,
    EmptySet,
    AchievementAlreadyMapped,
    SetNotFound,
    NotMapped,
    LimitedCapReached,
    NotOwned,
}

/// A set of achievements with its rarity, its per-achievement claim cap and
/// the bonus for completing it.
#[derive(Debug)]
pub struct AchievementSet {
    pub id: u32,
    pub name: Vec<u8>,
    pub achievements: Vec<u32>,
    pub rarity: Rarity,
    /// Most players that may claim each achievement of the set.
    pub limited_cap: Option<u32>,
    pub bonus_points: i128,
}

/// The contract's storage.
pub struct AchievementCollection {
    pub next_set_id: Option<u32>,
    pub sets: HashMap<u32, AchievementSet>,
    /// The set each achievement belongs to.
    pub ach_to_set: HashMap<u32, u32>,
    /// Collected achievements, keyed by `progress_key(player, set)`.
    pub progress_lists: HashMap<u128, Vec<u32>>,
    /// Claims of each capped achievement.
    pub ach_count: HashMap<u32, u32>,
    pub bonus: HashMap<AccountId, i128>,
    /// Keyed by `progress_key(player, set)`: the set's bonus was paid.
    pub completed: HashMap<u128, bool>,
}

/// The storage key of a (player, set) pair.
pub open spec fn pkey(player: AccountId, set_id: u32) -> u128 {
    (player * 0x1_0000_0000 + set_id) as u128
}

pub fn progress_key(player: AccountId, set_id: u32) -> (r: u128)
    ensures
        r == pkey(player, set_id),
{
    (player as u128) * 0x1_0000_0000 + (set_id as u128)
}

/// Distinct pairs have distinct keys.
pub proof fn lemma_pkey_injective(p: AccountId, s: u32, q: AccountId, t: u32)
    ensures
        pkey(p, s) == pkey(q, t) ==> p == q && s == t,
{
    assert(pkey(p, s) == p * 0x1_0000_0000 + s);
    assert(pkey(q, t) == q * 0x1_0000_0000 + t);
    if pkey(p, s) == pkey(q, t) {
        if p < q {
            assert(p * 0x1_0000_0000 + 0x1_0000_0000 <= q * 0x1_0000_0000);
        } else if q < p {
            assert(q * 0x1_0000_0000 + 0x1_0000_0000 <= p * 0x1_0000_0000);
        }
    }
}

pub open spec fn or_zero_u32(o: Option<u32>) -> u32 {
    match o {
        Some(v) => v,
        None => 0,
    }
}

/// Every achievement of the set occurs in the progress list, which is at
/// least as long as the set.
pub open spec fn spec_completed(set: Seq<u32>, progress: Seq<u32>) -> bool {
    &&& progress.len() >= set.len()
    &&& forall|i: int| 0 <= i < set.len() ==> progress.contains(#[trigger] set[i])
}

/// `s` without any occurrence of `a`, order kept.
pub open spec fn remove_all(s: Seq<u32>, a: u32) -> Seq<u32>
    decreases s.len(),
{
    if s.len() == 0 {
        s
    } else if s.last() == a {
        remove_all(s.drop_last(), a)
    } else {
        remove_all(s.drop_last(), a).push(s.last())
    }
}

pub proof fn lemma_remove_all(s: Seq<u32>, a: u32)
    ensures
        !remove_all(s, a).contains(a),
        forall|x: u32| x != a ==> (remove_all(s, a).contains(x) <==> s.contains(x)),
        s.no_duplicates() ==> remove_all(s, a).no_duplicates(),
        remove_all(s, a).len() <= s.len(),
    decreases s.len(),
{
    if s.len() > 0 {
        let t = s.drop_last();
        lemma_remove_all(t, a);
        assert(s =~= t.push(s.last()));
        assert forall|x: u32| x != a implies (remove_all(s, a).contains(x) <==> s.contains(x)) by {
            broadcast use vstd::seq_lib::group_seq_properties;

        }
        if s.no_duplicates() {
            assert(t.no_duplicates()) by {
                assert forall|i: int, j: int| 0 <= i < t.len() && 0 <= j < t.len() && i != j implies t[i] != t[j] by {
                    assert(s[i] == t[i] && s[j] == t[j]);
                }
            }
            if s.last() != a {
                assert(!t.contains(s.last())) by {
                    if t.contains(s.last()) {
                        let j = choose|j: int| 0 <= j < t.len() && t[j] == s.last();
                        assert(s[j] == s[s.len() - 1]);
                    }
                }
                assert(!remove_all(t, a).contains(s.last()));
            }
        }
    }
}

/// A copy of `v` without any occurrence of `a`.
pub fn without(v: &Vec<u32>, a: u32) -> (r: Vec<u32>)
    ensures
        r@ == remove_all(v@, a),
{
    let mut r: Vec<u32> = Vec::new();
    let mut i: usize = 0;
    while i < v.len()
        invariant
            i <= v.len(),
            r@ == remove_all(v@.subrange(0, i as int), a),
        decreases v.len() - i,
    {
        let ghost next = v@.subrange(0, i + 1);
        assert(next.drop_last() =~= v@.subrange(0, i as int));
        if v[i] != a {
            r.push(v[i]);
        }
        i = i + 1;
    }
    assert(v@.subrange(0, v.len() as int) =~= v@);
    r
}

/// `s` with `a` appended unless it is already there.
pub open spec fn push_absent(s: Seq<u32>, a: u32) -> Seq<u32> {
    if s.contains(a) {
        s
    } else {
        s.push(a)
    }
}

proof fn lemma_push_absent_no_dup(s: Seq<u32>, a: u32)
    requires
        s.no_duplicates(),
    ensures
        push_absent(s, a).no_duplicates(),
        push_absent(s, a).contains(a),
{
    if !s.contains(a) {
        let p = s.push(a);
        assert(p[s.len() as int] == a);
        assert forall|x: int, y: int| 0 <= x < p.len() && 0 <= y < p.len() && x != y implies p[x] != p[y] by {
            if x == s.len() {
                assert(p[y] == s[y]);
            } else if y == s.len() {
                assert(p[x] == s[x]);
            } else {
                assert(p[x] == s[x] && p[y] == s[y]);
            }
        }
    }
}

impl AchievementCollection {
    /// The set achievement `a` belongs to, if any.
    pub open spec fn set_of(self, a: u32) -> Option<u32> {
        if self.ach_to_set@.contains_key(a) {
            Some(self.ach_to_set@[a])
        } else {
            None
        }
    }

    /// The achievements `player` holds in set `set_id` (none when absent).
    pub open spec fn progress_of(self, player: AccountId, set_id: u32) -> Seq<u32> {
        if self.progress_lists@.contains_key(pkey(player, set_id)) {
            self.progress_lists@[pkey(player, set_id)]@
        } else {
            Seq::empty()
        }
    }

    /// The id the next set gets.
    pub open spec fn next_id(self) -> u32 {
        match self.next_set_id {
            Some(n) => n,
            None => 1,
        }
    }

    pub open spec fn spec_bonus(self, player: AccountId) -> i128 {
        if self.bonus@.contains_key(player) {
            self.bonus@[player]
        } else {
            0
        }
    }

    pub open spec fn spec_count(self, a: u32) -> u32 {
        or_zero_u32(if self.ach_count@.contains_key(a) {
            Some(self.ach_count@[a])
        } else {
            None
        })
    }

    pub open spec fn bonus_paid(self, player: AccountId, set_id: u32) -> bool {
        self.completed@.contains_key(pkey(player, set_id)) && self.completed@[pkey(player, set_id)]
    }

    /// Storage invariant: mapped achievements point at stored sets, each
    /// claim count stays within its set's cap, set ids lie below the next id,
    /// and no progress list holds an achievement twice.
    pub open spec fn wf(self) -> bool {
        &&& forall|a: u32| #[trigger]
            self.ach_to_set@.contains_key(a) ==> self.sets@.contains_key(self.ach_to_set@[a])
        &&& forall|a: u32| #[trigger]
            self.ach_count@.contains_key(a) ==> {
                &&& self.ach_to_set@.contains_key(a)
                &&& self.sets@[self.ach_to_set@[a]].limited_cap matches Some(c)
                &&& self.ach_count@[a] <= c
            }
        &&& forall|s: u32| #[trigger] self.sets@.contains_key(s) ==> s < self.next_id()
        &&& forall|k: u128| #[trigger]
            self.progress_lists@.contains_key(k) ==> self.progress_lists@[k]@.no_duplicates()
    }

    pub fn new() -> (r: Self)
        ensures
            r.wf(),
            r.next_set_id is None,
            r.sets@ == Map::<u32, AchievementSet>::empty(),
            r.ach_to_set@ == Map::<u32, u32>::empty(),
            r.progress_lists@ == Map::<u128, Vec<u32>>::empty(),
            r.ach_count@ == Map::<u32, u32>::empty(),
            r.bonus@ == Map::<AccountId, i128>::empty(),
            r.completed@ == Map::<u128, bool>::empty(),
    {
        AchievementCollection {
            next_set_id: None,
            sets: HashMap::new(),
            ach_to_set: HashMap::new(),
            progress_lists: HashMap::new(),
            ach_count: HashMap::new(),
            bonus: HashMap::new(),
            completed: HashMap::new(),
        }
    }

    /// Sets the next set id to 1 (once).
    pub fn initialize(&mut self) -> (r: Result<(), CollectionError>)
        requires
            old(self).wf(),
        ensures
            final(self).wf(),
            r == (if old(self).next_set_id is Some {
                Err(CollectionError::AlreadyInitialized)
            } else {
                Ok(())
            }),
            r.is_err() ==> *final(self) == *old(self),
            r.is_ok() ==> *final(self) == (Self { next_set_id: Some(1u32), ..*old(self) }),
    {
        if self.next_set_id.is_some() {
            return Err(CollectionError::AlreadyInitialized);
        }
        self.next_set_id = Some(1);
        Ok(())
    }

    /// No achievement of `list` is mapped yet and none occurs twice.
    pub open spec fn spec_unmapped(self, list: Seq<u32>) -> bool {
        &&& list.no_duplicates()
        &&& forall|i: int| 0 <= i < list.len() ==> !self.ach_to_set@.contains_key(#[trigger] list[i])
    }

    /// Creates a set under the next set id and maps each of its achievements
    /// to it. The list must be non-empty, and its achievements unmapped and
    /// distinct. Returns the id.
    pub fn create_set(
        &mut self,
        name: Vec<u8>,
        achievements: Vec<u32>,
        rarity: Rarity,
        limited_cap: Option<u32>,
        bonus_points: i128,
    ) -> (r: Result<u32, CollectionError>)
        requires
            old(self).wf(),
            old(self).next_id() < u32::MAX,
        ensures
            final(self).wf(),
            r == (if achievements@.len() == 0 {
                Err(CollectionError::EmptySet)
            } else if !old(self).spec_unmapped(achievements@) {
                Err(CollectionError::AchievementAlreadyMapped)
            } else {
                Ok(old(self).next_id())
            }),
            r.is_err() ==> *final(self) == *old(self),
            r matches Ok(id) ==> {
                &&& final(self).sets@ == old(self).sets@.insert(
                    id,
                    AchievementSet { id, name, achievements, rarity, limited_cap, bonus_points },
                )
                &&& final(self).ach_to_set@ == old(self).ach_to_set@.union_prefer_right(
                    Map::new(|a: u32| achievements@.contains(a), |a: u32| id),
                )
                &&& *final(self) == (Self {
                    sets: final(self).sets,
                    ach_to_set: final(self).ach_to_set,
                    next_set_id: Some((id + 1) as u32),
                    ..*old(self)
                })
            },
    {
        if achievements.len() == 0 {
            return Err(CollectionError::EmptySet);
        }
        let mut seen: HashMap<u32, bool> = HashMap::new();
        let mut i: usize = 0;
        while i < achievements.len()
            invariant
                i <= achievements.len(),
                *self == *old(self),
                old(self).wf(),
                forall|a: u32| #[trigger]
                    seen@.contains_key(a) <==> achievements@.subrange(0, i as int).contains(a),
                achievements@.subrange(0, i as int).no_duplicates(),
                forall|j: int|
                    0 <= j < i ==> !self.ach_to_set@.contains_key(#[trigger] achievements@[j]),
            decreases achievements.len() - i,
        {
            let a = achievements[i];
            let ghost pre = achievements@.subrange(0, i as int);
            assert(achievements@.subrange(0, i + 1) =~= pre.push(a));
            if self.ach_to_set.contains_key(&a) || seen.contains_key(&a) {
                proof {
                    if !self.ach_to_set@.contains_key(a) {
                        let k = choose|k: int| 0 <= k < pre.len() && pre[k] == a;
                        assert(achievements@[k] == achievements@[i as int]);
                    }
                }
                return Err(CollectionError::AchievementAlreadyMapped);
            }
            seen.insert(a, true);
            proof {
                broadcast use vstd::seq_lib::group_seq_properties;

                let post = pre.push(a);
                assert forall|x: int, y: int|
                    0 <= x < post.len() && 0 <= y < post.len() && x != y implies post[x]
                    != post[y] by {
                    if x == pre.len() {
                        assert(pre.contains(post[y]) ==> seen@.contains_key(post[y]));
                    } else if y == pre.len() {
                        assert(pre.contains(post[x]) ==> seen@.contains_key(post[x]));
                    }
                }
            }
            i = i + 1;
        }
        assert(achievements@.subrange(0, achievements.len() as int) =~= achievements@);
        let id: u32 = match self.next_set_id {
            Some(n) => n,
            None => 1,
        };
        let mut j: usize = 0;
        while j < achievements.len()
            invariant
                j <= achievements.len(),
                self.sets == old(self).sets,
                self.ach_to_set@ == old(self).ach_to_set@.union_prefer_right(
                    Map::new(|a: u32| achievements@.subrange(0, j as int).contains(a), |a: u32| id),
                ),
                *self == (Self { ach_to_set: self.ach_to_set, ..*old(self) }),
            decreases achievements.len() - j,
        {
            let a = achievements[j];
            self.ach_to_set.insert(a, id);
            proof {
                broadcast use vstd::seq_lib::group_seq_properties;

                assert(achievements@.subrange(0, j + 1) =~= achievements@.subrange(0, j as int).push(a));
            }
            j = j + 1;
            assert(self.ach_to_set@ =~= old(self).ach_to_set@.union_prefer_right(
                Map::new(|b: u32| achievements@.subrange(0, j as int).contains(b), |b: u32| id),
            ));
        }
        assert(achievements@.subrange(0, achievements.len() as int) =~= achievements@);
        let ghost list = achievements@;
        let set = AchievementSet { id, name, achievements, rarity, limited_cap, bonus_points };
        self.sets.insert(id, set);
        self.next_set_id = Some(id + 1);
        proof {
            assert forall|a: u32| #[trigger] self.ach_count@.contains_key(a) implies {
                &&& self.ach_to_set@.contains_key(a)
                &&& self.sets@[self.ach_to_set@[a]].limited_cap matches Some(c)
                &&& self.ach_count@[a] <= c
            } by {
                assert(old(self).ach_to_set@.contains_key(a));
                if list.contains(a) {
                    let k = choose|k: int| 0 <= k < list.len() && list[k] == a;
                    assert(!old(self).ach_to_set@.contains_key(list[k]));
                }
                assert(self.ach_to_set@[a] == old(self).ach_to_set@[a]);
                assert(old(self).ach_to_set@[a] != id);
            }
        }
        Ok(id)
    }

    /// The set stored under `set_id`.
    pub fn get_set(&self, set_id: u32) -> (r: Option<&AchievementSet>)
        ensures
            r == (if self.sets@.contains_key(set_id) {
                Some(&self.sets@[set_id])
            } else {
                None
            }),
    {
        self.sets.get(&set_id)
    }

    /// Adds an unmapped achievement to a stored set (no change when the set
    /// already lists it).
    pub fn add_achievement_to_set(&mut self, set_id: u32, achievement_id: u32) -> (r: Result<
        (),
        CollectionError,
    >)
        requires
            old(self).wf(),
        ensures
            final(self).wf(),
            r == (if !old(self).sets@.contains_key(set_id) {
                Err(CollectionError::SetNotFound)
            } else if old(self).sets@[set_id].achievements@.contains(achievement_id) {
                Ok(())
            } else if old(self).ach_to_set@.contains_key(achievement_id) {
                Err(CollectionError::AchievementAlreadyMapped)
            } else {
                Ok(())
            }),
            (r.is_err() || old(self).sets@[set_id].achievements@.contains(achievement_id))
                ==> *final(self) == *old(self),
            (r.is_ok() && !old(self).sets@[set_id].achievements@.contains(achievement_id)) ==> {
                let o = old(self).sets@[set_id];
                &&& final(self).sets@ == old(self).sets@.insert(set_id, final(self).sets@[set_id])
                &&& final(self).sets@[set_id].achievements@ == o.achievements@.push(achievement_id)
                &&& final(self).sets@[set_id] == (AchievementSet {
                    achievements: final(self).sets@[set_id].achievements,
                    ..o
                })
                &&& final(self).ach_to_set@ == old(self).ach_to_set@.insert(achievement_id, set_id)
                &&& *final(self) == (Self {
                    sets: final(self).sets,
                    ach_to_set: final(self).ach_to_set,
                    ..*old(self)
                })
            },
    {
        let listed = match self.sets.get(&set_id) {
            Some(set) => contains_u32(&set.achievements, achievement_id),
            None => return Err(CollectionError::SetNotFound),
        };
        if listed {
            return Ok(());
        }
        if self.ach_to_set.contains_key(&achievement_id) {
            return Err(CollectionError::AchievementAlreadyMapped);
        }
        let mut set = match self.sets.remove(&set_id) {
            Some(set) => set,
            None => return Err(CollectionError::SetNotFound),
        };
        let ghost o = set;
        set.achievements.push(achievement_id);
        self.sets.insert(set_id, set);
        self.ach_to_set.insert(achievement_id, set_id);
        assert(self.sets@ =~= old(self).sets@.insert(set_id, self.sets@[set_id]));
        proof {
            assert forall|a: u32| #[trigger] self.ach_count@.contains_key(a) implies {
                &&& self.ach_to_set@.contains_key(a)
                &&& self.sets@[self.ach_to_set@[a]].limited_cap matches Some(c)
                &&& self.ach_count@[a] <= c
            } by {
                assert(old(self).ach_to_set@.contains_key(a));
                assert(a != achievement_id);
            }
        }
        Ok(())
    }

    /// Whether every achievement of `set` is in `progress` (which must be at
    /// least as long as the set).
    pub fn is_completed_internal(set: &AchievementSet, progress: &Vec<u32>) -> (r: bool)
        ensures
            r == spec_completed(set.achievements@, progress@),
    {
        if progress.len() < set.achievements.len() {
            return false;
        }
        let mut i: usize = 0;
        while i < set.achievements.len()
            invariant
                i <= set.achievements.len(),
                progress.len() >= set.achievements.len(),
                forall|j: int| 0 <= j < i ==> progress@.contains(#[trigger] set.achievements@[j]),
            decreases set.achievements.len() - i,
        {
            if !contains_u32(progress, set.achievements[i]) {
                return false;
            }
            i = i + 1;
        }
        true
    }

    /// The progress list of `player` in set `sid` once achievement `a` is
    /// recorded.
    pub open spec fn recorded_progress(self, player: AccountId, sid: u32, a: u32) -> Seq<u32> {
        let prog = self.progress_of(player, sid);
        if prog.contains(a) {
            prog
        } else {
            prog.push(a)
        }
    }

    /// Whether recording `a` for `player` pays the bonus of its set `sid`:
    /// the set becomes (or stays) complete and its bonus was not yet paid.
    pub open spec fn pays_bonus(self, player: AccountId, sid: u32, a: u32) -> bool {
        &&& spec_completed(self.sets@[sid].achievements@, self.recorded_progress(player, sid, a))
        &&& !self.bonus_paid(player, sid)
    }

    /// What recording achievement `a` for `player` does: `NotMapped` for an
    /// unmapped achievement; `LimitedCapReached` when a capped achievement
    /// the player lacks has been claimed `cap` times; else the claim count
    /// grows (capped achievements the player lacked), the achievement joins
    /// the player's list, and the result says whether the set is complete,
    /// paying the set's bonus the first time.
    pub open spec fn spec_record(
        self,
        new: Self,
        r: Result<bool, CollectionError>,
        player: AccountId,
        a: u32,
    ) -> bool {
        match self.set_of(a) {
            None => r == Err::<bool, CollectionError>(CollectionError::NotMapped) && new == self,
            Some(sid) => {
                let set = self.sets@[sid];
                let owned = self.progress_of(player, sid).contains(a);
                let k = pkey(player, sid);
                if set.limited_cap matches Some(c) && !owned && self.spec_count(a) >= c {
                    r == Err::<bool, CollectionError>(CollectionError::LimitedCapReached) && new
                        == self
                } else {
                    let done = spec_completed(set.achievements@, self.recorded_progress(player, sid, a));
                    &&& r == Ok::<bool, CollectionError>(done)
                    &&& new.progress_of(player, sid) == self.recorded_progress(player, sid, a)
                    &&& new.progress_lists@ == (if owned {
                        self.progress_lists@
                    } else {
                        self.progress_lists@.insert(k, new.progress_lists@[k])
                    })
                    &&& new.ach_count@ == (if set.limited_cap is Some && !owned {
                        self.ach_count@.insert(a, (self.spec_count(a) + 1) as u32)
                    } else {
                        self.ach_count@
                    })
                    &&& new.bonus@ == (if self.pays_bonus(player, sid, a) {
                        self.bonus@.insert(player, (self.spec_bonus(player) + set.bonus_points) as i128)
                    } else {
                        self.bonus@
                    })
                    &&& new.completed@ == (if self.pays_bonus(player, sid, a) {
                        self.completed@.insert(k, true)
                    } else {
                        self.completed@
                    })
                    &&& new == (Self {
                        progress_lists: new.progress_lists,
                        ach_count: new.ach_count,
                        bonus: new.bonus,
                        completed: new.completed,
                        ..self
                    })
                }
            },
        }
    }

    /// The bonus a recording may pay fits in an `i128`.
    pub open spec fn bonus_fits(self, player: AccountId, a: u32) -> bool {
        match self.set_of(a) {
            None => true,
            Some(sid) => self.pays_bonus(player, sid, a) ==> i128::MIN <= self.spec_bonus(player)
                + self.sets@[sid].bonus_points <= i128::MAX,
        }
    }

    /// Records achievement `a` for `player`; returns whether the player now
    /// holds the whole set.
    pub fn record_achievement(&mut self, player: AccountId, achievement_id: u32) -> (r: Result<
        bool,
        CollectionError,
    >)
        requires
            old(self).wf(),
            old(self).bonus_fits(player, achievement_id),
        ensures
            final(self).wf(),
            old(self).spec_record(*final(self), r, player, achievement_id),
    {
        let sid = match self.ach_to_set.get(&achievement_id) {
            Some(s) => *s,
            None => return Err(CollectionError::NotMapped),
        };
        let key = progress_key(player, sid);
        let owned = match self.progress_lists.get(&key) {
            Some(p) => contains_u32(p, achievement_id),
            None => false,
        };
        let (cap, bonus_points) = match self.sets.get(&sid) {
            Some(set) => (set.limited_cap, set.bonus_points),
            None => return Err(CollectionError::SetNotFound),
        };
        match cap {
            Some(c) => {
                if !owned {
                    let cnt: u32 = match self.ach_count.get(&achievement_id) {
                        Some(n) => *n,
                        None => 0,
                    };
                    if cnt >= c {
                        return Err(CollectionError::LimitedCapReached);
                    }
                    self.ach_count.insert(achievement_id, cnt + 1);
                }
            },
            None => {},
        }
        let ghost s1 = *self;
        if !owned {
            let mut p = match self.progress_lists.remove(&key) {
                Some(p) => p,
                None => Vec::new(),
            };
            let ghost before = p@;
            assert(before == old(self).progress_of(player, sid));
            p.push(achievement_id);
            proof {
                if old(self).progress_lists@.contains_key(key) {
                    assert(before.no_duplicates());
                }
                assert forall|x: int, y: int|
                    0 <= x < p@.len() && 0 <= y < p@.len() && x != y implies p@[x] != p@[y] by {
                    if x == before.len() {
                        assert(p@[y] == before[y]);
                    } else if y == before.len() {
                        assert(p@[x] == before[x]);
                    } else {
                        assert(p@[x] == before[x] && p@[y] == before[y]);
                    }
                }
            }
            self.progress_lists.insert(key, p);
            assert(self.progress_lists@ =~= old(self).progress_lists@.insert(key, self.progress_lists@[key]));
        }
        assert(self.progress_of(player, sid) == old(self).recorded_progress(player, sid, achievement_id));
        let completed = match (self.sets.get(&sid), self.progress_lists.get(&key)) {
            (Some(set), Some(p)) => Self::is_completed_internal(set, p),
            (Some(set), None) => Self::is_completed_internal(set, &Vec::new()),
            (None, _) => false,
        };
        if completed {
            let already = match self.completed.get(&key) {
                Some(b) => *b,
                None => false,
            };
            if !already {
                let b: i128 = match self.bonus.get(&player) {
                    Some(v) => *v,
                    None => 0,
                };
                self.bonus.insert(player, b + bonus_points);
                self.completed.insert(key, true);
            }
        }
        assert(completed == spec_completed(old(self).sets@[sid].achievements@, old(self).recorded_progress(player, sid, achievement_id)));
        assert(self.bonus@ == (if old(self).pays_bonus(player, sid, achievement_id) {
                        old(self).bonus@.insert(player, (old(self).spec_bonus(player) + bonus_points) as i128)
                    } else {
                        old(self).bonus@
                    }));
        Ok(completed)
    }

    /// The achievements `player` holds in set `set_id`.
    pub fn progress(&self, player: AccountId, set_id: u32) -> (r: Vec<u32>)
        ensures
            r@ == self.progress_of(player, set_id),
    {
        match self.progress_lists.get(&progress_key(player, set_id)) {
            Some(p) => p.clone(),
            None => Vec::new(),
        }
    }

    /// Whether `player` holds every achievement of set `set_id`.
    pub fn is_completed(&self, player: AccountId, set_id: u32) -> (r: Result<bool, CollectionError>)
        ensures
            r == (if self.sets@.contains_key(set_id) {
                Ok(spec_completed(self.sets@[set_id].achievements@, self.progress_of(player, set_id)))
            } else {
                Err(CollectionError::SetNotFound)
            }),
    {
        let set = match self.sets.get(&set_id) {
            Some(set) => set,
            None => return Err(CollectionError::SetNotFound),
        };
        let p = self.progress(player, set_id);
        Ok(Self::is_completed_internal(set, &p))
    }

    /// The bonus points `player` has earned.
    pub fn bonus_of(&self, player: AccountId) -> (r: i128)
        ensures
            r == self.spec_bonus(player),
    {
        match self.bonus.get(&player) {
            Some(v) => *v,
            None => 0,
        }
    }

    /// What moving achievement `a` from `from` to `to` does to the progress
    /// lists of its set `sid`: `from` loses it, `to` gains it unless already
    /// held (with `from == to` the achievement moves to the end of the list).
    pub open spec fn spec_transfer(self, new: Self, from: AccountId, to: AccountId, a: u32) -> bool {
        let sid = self.ach_to_set@[a];
        let k1 = pkey(from, sid);
        let k2 = pkey(to, sid);
        let pf = remove_all(self.progress_of(from, sid), a);
        let pt = if from == to {
            pf
        } else {
            self.progress_of(to, sid)
        };
        &&& new.progress_lists@.remove(k1).remove(k2) == self.progress_lists@.remove(k1).remove(k2)
        &&& new.progress_lists@.contains_key(k1)
        &&& new.progress_lists@.contains_key(k2)
        &&& from != to ==> new.progress_of(from, sid) == pf
        &&& new.progress_of(to, sid) == push_absent(pt, a)
        &&& new == (Self { progress_lists: new.progress_lists, ..self })
    }

    /// Moves achievement `a` from `from`'s progress to `to`'s, in its set.
    /// `from` must hold it. Claim counts and bonuses do not change.
    pub fn transfer_progress(&mut self, from: AccountId, to: AccountId, achievement_id: u32) -> (r:
        Result<(), CollectionError>)
        requires
            old(self).wf(),
        ensures
            final(self).wf(),
            r == (match old(self).set_of(achievement_id) {
                None => Err(CollectionError::NotMapped),
                Some(sid) => if old(self).progress_of(from, sid).contains(achievement_id) {
                    Ok(())
                } else {
                    Err(CollectionError::NotOwned)
                },
            }),
            r.is_err() ==> *final(self) == *old(self),
            r.is_ok() ==> old(self).spec_transfer(*final(self), from, to, achievement_id),
    {
        let sid = match self.ach_to_set.get(&achievement_id) {
            Some(s) => *s,
            None => return Err(CollectionError::NotMapped),
        };
        let k1 = progress_key(from, sid);
        let new_from = match self.progress_lists.get(&k1) {
            Some(p) => {
                if !contains_u32(p, achievement_id) {
                    return Err(CollectionError::NotOwned);
                }
                proof {
                    lemma_remove_all(p@, achievement_id);
                }
                without(p, achievement_id)
            },
            None => return Err(CollectionError::NotOwned),
        };
        self.progress_lists.insert(k1, new_from);
        let k2 = progress_key(to, sid);
        let ghost mid = self.progress_lists@;
        let mut tp = match self.progress_lists.remove(&k2) {
            Some(p) => p,
            None => Vec::new(),
        };
        proof {
            if mid.contains_key(k2) {
                assert(tp@.no_duplicates());
            }
            lemma_push_absent_no_dup(tp@, achievement_id);
            lemma_pkey_injective(from, sid, to, sid);
        }
        if !contains_u32(&tp, achievement_id) {
            tp.push(achievement_id);
        }
        self.progress_lists.insert(k2, tp);
        assert(self.progress_lists@.remove(k1).remove(k2) =~= old(self).progress_lists@.remove(k1).remove(k2));
        Ok(())
    }
}

/// Completing a set by a recording marks the set's bonus as paid for the
/// player.
pub proof fn lemma_completion_marks_paid(
    s0: AchievementCollection,
    s1: AchievementCollection,
    player: AccountId,
    a: u32,
    sid: u32,
)
    requires
        s0.spec_record(s1, Ok(true), player, a),
        s0.set_of(a) == Some(sid),
    ensures
        s1.bonus_paid(player, sid),
{
}

/// The bonus of a set is paid at most once: once it is marked paid for a
/// player, recording any achievement of that set leaves the player's bonus
/// as it was, and the mark stays.
pub proof fn lemma_bonus_paid_once(
    s0: AchievementCollection,
    s1: AchievementCollection,
    r: Result<bool, CollectionError>,
    player: AccountId,
    a: u32,
    sid: u32,
)
    requires
        s0.spec_record(s1, r, player, a),
        s0.set_of(a) == Some(sid),
        s0.bonus_paid(player, sid),
    ensures
        s1.spec_bonus(player) == s0.spec_bonus(player),
        s1.bonus_paid(player, sid),
{
}

/// Recording an achievement the player already holds changes neither the
/// player's list nor the claim counts.
pub proof fn lemma_rerecord_keeps_progress(
    s0: AchievementCollection,
    s1: AchievementCollection,
    r: Result<bool, CollectionError>,
    player: AccountId,
    a: u32,
    sid: u32,
)
    requires
        s0.spec_record(s1, r, player, a),
        s0.set_of(a) == Some(sid),
        s0.progress_of(player, sid).contains(a),
    ensures
        r.is_ok(),
        s1.progress_lists@ == s0.progress_lists@,
        s1.ach_count@ == s0.ach_count@,
{
}

/// A limited edition is never exceeded: when achievement `a` belongs to a
/// set capped at `c`, a recording leaves at most `c` claims of `a`, and a
/// new claim beyond the cap is refused with `LimitedCapReached`.
pub proof fn lemma_cap_never_exceeded(
    s0: AchievementCollection,
    s1: AchievementCollection,
    r: Result<bool, CollectionError>,
    player: AccountId,
    a: u32,
    sid: u32,
    c: u32,
)
    requires
        s0.wf(),
        s0.spec_record(s1, r, player, a),
        s0.set_of(a) == Some(sid),
        s0.sets@[sid].limited_cap == Some(c),
    ensures
        s1.spec_count(a) <= c,
        !s0.progress_of(player, sid).contains(a) && s0.spec_count(a) >= c ==> r == Err::<
            bool,
            CollectionError,
        >(CollectionError::LimitedCapReached),
{
    if s0.ach_count@.contains_key(a) {
        assert(s0.ach_count@[a] <= c);
    }
}

} // verus!
