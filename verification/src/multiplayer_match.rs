//! Multiplayer puzzle matches with commit–reveal scoring: players pay an
//! entry fee into the pot while the match is open; once enough have joined,
//! each commits to a hash of their score, then reveals the score; players may
//! dispute one another's results, which the creator resolves; the highest
//! valid scores share the pot, and a match nobody scores in is refunded.
use std::collections::HashMap;
use soroban_sdk::Env;
use vstd::prelude::*;

use crate::common::{contains_u64, lemma_push_contains, position_u64};
use crate::airdrop_merkle_claim::{amount_bytes, array_bytes, big_endian, concat};
use crate::common::{bytes_eq, Account};
use crate::host::{sha256, sha256_of};
use crate::insurance_pool::tdiv;
use crate::token::TokenTransfer;

verus! {

/// The XDR of an `i128` as a host value (`ScVal::I128`): the type tag 10 as
/// four big-endian bytes, then the number's 16 big-endian bytes (its high
/// half, then its low half, in two's complement).
pub open spec fn xdr_of_i128(v: i128) -> Seq<u8> {
    seq![0u8, 0u8, 0u8, 10u8] + amount_bytes(v)
}

/// The XDR of `v` as a host value (see `xdr_of_i128`).
pub fn i128_to_xdr(v: i128) -> (r: Vec<u8>)
    ensures
        r@ == xdr_of_i128(v),
{
    let tag: Vec<u8> = vec![0, 0, 0, 10];
    let body = big_endian(v as u128, 16);
    concat(&tag, &body)
}

broadcast use vstd::std_specs::hash::group_hash_axioms;

/// An account or contract address, identified by a number.
pub type AccountId = u64;

#[derive(Clone, Copy, Debug, PartialEq, Eq, Structural)]
pub enum Error {
    MatchNotFound,
    InvalidStatus,
    MaxPlayersReached,
    NotPlayer,
    AlreadyJoined,
    InsufficientPlayers,
    DeadlinePassed,
    InvalidReveal,
    NoResults,
    DisputeNotFound,
    AlreadyResolved,
    NotCreator,
    InvalidOp,
}

#[derive(Clone, Copy, Debug, PartialEq, Eq, Structural)]
pub enum Status {
    Open,
    Started,
    Submission,
    Reveal,
    Disputed,
    Finished,
    Abandoned,
}

/// One match as stored.
pub struct MatchData {
    pub creator: AccountId,
    pub token: AccountId,
    pub entry_fee: i128,
    pub max_players: u32,
    pub min_players: u32,
    pub players: Vec<AccountId>,
    pub status: Status,
    pub pot: i128,
    pub create_time: u64,
    pub join_deadline: u64,
    pub submission_duration: u64,
    pub reveal_duration: u64,
    pub submission_deadline: u64,
    pub reveal_deadline: u64,
    /// Each player's committed hash.
    pub commits: HashMap<AccountId, [u8; 32]>,
    /// Each revealed score (higher is better).
    pub results: HashMap<AccountId, i128>,
    /// Disputed player -> the players disputing them.
    pub disputes: HashMap<AccountId, Vec<AccountId>>,
    /// Disputed player -> whether their result was upheld.
    pub resolved: HashMap<AccountId, bool>,
}

/// A match as plain values.
pub struct MatchState {
    pub creator: AccountId,
    pub token: AccountId,
    pub entry_fee: i128,
    pub max_players: u32,
    pub min_players: u32,
    pub players: Seq<AccountId>,
    pub status: Status,
    pub pot: i128,
    pub create_time: u64,
    pub join_deadline: u64,
    pub submission_duration: u64,
    pub reveal_duration: u64,
    pub submission_deadline: u64,
    pub reveal_deadline: u64,
    pub commits: Map<AccountId, [u8; 32]>,
    pub results: Map<AccountId, i128>,
    pub disputes: Map<AccountId, Seq<AccountId>>,
    pub resolved: Map<AccountId, bool>,
}

impl View for MatchData {
    type V = MatchState;

    open spec fn view(&self) -> MatchState {
        MatchState {
            creator: self.creator,
            token: self.token,
            entry_fee: self.entry_fee,
            max_players: self.max_players,
            min_players: self.min_players,
            players: self.players@,
            status: self.status,
            pot: self.pot,
            create_time: self.create_time,
            join_deadline: self.join_deadline,
            submission_duration: self.submission_duration,
            reveal_duration: self.reveal_duration,
            submission_deadline: self.submission_deadline,
            reveal_deadline: self.reveal_deadline,
            commits: self.commits@,
            results: self.results@,
            disputes: Map::new(
                |k: AccountId| self.disputes@.contains_key(k),
                |k: AccountId| self.disputes@[k]@,
            ),
            resolved: self.resolved@,
        }
    }
}

/// What a match keeps true: its players are distinct; commits, results and
/// disputes concern players and come after the joining phase; only disputed players are resolved; and the pot
/// holds one entry fee per player until it is paid out (then nothing).
pub open spec fn match_ok(m: MatchState) -> bool {
    &&& m.players.no_duplicates()
    &&& forall|p: AccountId| #[trigger]
        m.commits.contains_key(p) ==> m.players.contains(p) && m.status != Status::Open
    &&& forall|p: AccountId| #[trigger]
        m.results.contains_key(p) ==> m.players.contains(p) && m.status != Status::Open
    &&& forall|p: AccountId| #[trigger]
        m.disputes.contains_key(p) ==> m.players.contains(p) && m.status != Status::Open
    &&& forall|p: AccountId| #[trigger] m.resolved.contains_key(p) ==> m.disputes.contains_key(p)
    &&& m.pot == m.entry_fee * m.players.len() || m.pot == 0
    &&& (m.status == Status::Open || m.status == Status::Submission || m.status == Status::Reveal
        || m.status == Status::Disputed) ==> m.pot == m.entry_fee * m.players.len()
}

impl MatchData {
    /// Moves the match into the submission phase at `now`, the submission
    /// deadline `submission_duration` seconds on; refused while fewer than
    /// the minimum number of players have joined.
    pub fn start_match(&mut self, now: u64) -> (r: Result<(), Error>)
        requires
            old(self).players@.len() >= old(self).min_players ==> now
                + old(self).submission_duration <= u64::MAX,
        ensures
            r == (if old(self).players@.len() < old(self).min_players {
                Err::<(), Error>(Error::InsufficientPlayers)
            } else {
                Ok(())
            }),
            r.is_err() ==> *final(self) == *old(self),
            r.is_ok() ==> *final(self) == (MatchData {
                status: Status::Submission,
                submission_deadline: (now + old(self).submission_duration) as u64,
                ..*old(self)
            }),
    {
        if self.players.len() < self.min_players as usize {
            return Err(Error::InsufficientPlayers);
        }
        self.status = Status::Submission;
        self.submission_deadline = now + self.submission_duration;
        Ok(())
    }
}

/// The digest a reveal is checked against: the SHA-256 of the player's
/// address in XDR, then the score in XDR, then the secret.
pub open spec fn reveal_digest(player_xdr: Seq<u8>, score: i128, secret: Seq<u8>) -> Seq<u8> {
    sha256_of(player_xdr + xdr_of_i128(score) + secret)
}

/// Whether `p` holds a result in `m` that counts: revealed, and not struck
/// by a ruling.
pub open spec fn is_valid(m: MatchState, p: AccountId) -> bool {
    m.results.contains_key(p) && !(m.resolved.contains_key(p) && !m.resolved[p])
}

/// The highest valid score among the players `s` of `m` (none if no valid
/// score).
pub open spec fn best_of(m: MatchState, s: Seq<AccountId>) -> Option<i128>
    decreases s.len(),
{
    if s.len() == 0 {
        None
    } else {
        let b = best_of(m, s.drop_last());
        let p = s.last();
        if is_valid(m, p) {
            match b {
                None => Some(m.results[p]),
                Some(x) => Some(
                    if m.results[p] > x {
                        m.results[p]
                    } else {
                        x
                    },
                ),
            }
        } else {
            b
        }
    }
}

/// The players among `s` whose valid score equals `best`, in order.
pub open spec fn winners_of(m: MatchState, s: Seq<AccountId>, best: i128) -> Seq<AccountId>
    decreases s.len(),
{
    if s.len() == 0 {
        Seq::empty()
    } else {
        let w = winners_of(m, s.drop_last(), best);
        let p = s.last();
        if is_valid(m, p) && m.results[p] == best {
            w.push(p)
        } else {
            w
        }
    }
}

/// One payment of `amount` of `token` from `contract` to each of `to`.
pub open spec fn payouts(to: Seq<AccountId>, token: AccountId, contract: AccountId, amount: i128) -> Seq<
    TokenTransfer,
> {
    to.map_values(|p: AccountId| TokenTransfer { token, from: contract, to: p, amount })
}

/// When some player has a valid score, at least one player reaches the
/// highest.
pub proof fn lemma_best_has_winner(m: MatchState, s: Seq<AccountId>)
    requires
        best_of(m, s) is Some,
    ensures
        winners_of(m, s, best_of(m, s)->0).len() > 0,
    decreases s.len(),
{
    let b = best_of(m, s)->0;
    let prev = best_of(m, s.drop_last());
    if !(is_valid(m, s.last()) && m.results[s.last()] == b) {
        assert(prev == Some(b));
        lemma_best_has_winner(m, s.drop_last());
    }
}

/// One payment of `amount` of `token` from `contract` to each of `to`.
pub fn pay_each(to: &Vec<AccountId>, token: AccountId, contract: AccountId, amount: i128) -> (r: Vec<
    TokenTransfer,
>)
    ensures
        r@ == payouts(to@, token, contract, amount),
{
    let mut r: Vec<TokenTransfer> = Vec::new();
    let mut i: usize = 0;
    while i < to.len()
        invariant
            i <= to@.len(),
            r@ == payouts(to@.subrange(0, i as int), token, contract, amount),
        decreases to.len() - i,
    {
        r.push(TokenTransfer { token, from: contract, to: to[i], amount });
        i = i + 1;
        assert(r@ =~= payouts(to@.subrange(0, i as int), token, contract, amount));
    }
    assert(to@.subrange(0, to@.len() as int) =~= to@);
    r
}

impl MatchData {
    /// `p`'s score if it counts.
    pub fn valid_score(&self, p: AccountId) -> (r: Option<i128>)
        ensures
            r == (if is_valid(self@, p) {
                Some(self@.results[p])
            } else {
                None
            }),
    {
        match self.results.get(&p) {
            None => None,
            Some(score) => match self.resolved.get(&p) {
                Some(v) => if *v {
                    Some(*score)
                } else {
                    None
                },
                None => Some(*score),
            },
        }
    }

    /// The highest valid score among the players.
    pub fn best_score(&self) -> (r: Option<i128>)
        ensures
            r == best_of(self@, self@.players),
    {
        let mut best: Option<i128> = None;
        let mut i: usize = 0;
        while i < self.players.len()
            invariant
                i <= self@.players.len(),
                best == best_of(self@, self@.players.subrange(0, i as int)),
            decreases self.players.len() - i,
        {
            let p = self.players[i];
            let v = self.valid_score(p);
            proof {
                let pre = self@.players.subrange(0, i + 1);
                assert(pre.drop_last() =~= self@.players.subrange(0, i as int));
                assert(pre.last() == p);
            }
            match v {
                Some(x) => {
                    best = match best {
                        None => Some(x),
                        Some(y) => Some(
                            if x > y {
                                x
                            } else {
                                y
                            },
                        ),
                    };
                },
                None => {},
            }
            i = i + 1;
        }
        assert(self@.players.subrange(0, self@.players.len() as int) =~= self@.players);
        best
    }

    /// The players whose valid score equals `best`, in order.
    pub fn winners(&self, best: i128) -> (r: Vec<AccountId>)
        ensures
            r@ == winners_of(self@, self@.players, best),
    {
        let mut w: Vec<AccountId> = Vec::new();
        let mut i: usize = 0;
        while i < self.players.len()
            invariant
                i <= self@.players.len(),
                w@ == winners_of(self@, self@.players.subrange(0, i as int), best),
            decreases self.players.len() - i,
        {
            let p = self.players[i];
            let v = self.valid_score(p);
            proof {
                let pre = self@.players.subrange(0, i + 1);
                assert(pre.drop_last() =~= self@.players.subrange(0, i as int));
                assert(pre.last() == p);
            }
            match v {
                Some(x) => {
                    if x == best {
                        w.push(p);
                    }
                },
                None => {},
            }
            i = i + 1;
        }
        assert(self@.players.subrange(0, self@.players.len() as int) =~= self@.players);
        w
    }

    /// The entry fee back to every player.
    pub fn refund_all(&self, contract: AccountId) -> (r: Vec<TokenTransfer>)
        ensures
            r@ == payouts(self@.players, self.token, contract, self.entry_fee),
    {
        pay_each(&self.players, self.token, contract, self.entry_fee)
    }
}

/// The contract's storage.
pub struct MultiplayerPuzzleMatch {
    pub match_counter: Option<u64>,
    pub matches: HashMap<u64, MatchData>,
}

impl MultiplayerPuzzleMatch {
    /// The number of the latest match (0 before the first).
    pub open spec fn counter(self) -> u64 {
        match self.match_counter {
            Some(n) => n,
            None => 0,
        }
    }

    /// Every stored match, as plain values.
    pub open spec fn states(self) -> Map<u64, MatchState> {
        Map::new(|k: u64| self.matches@.contains_key(k), |k: u64| self.matches@[k]@)
    }

    pub open spec fn wf(self) -> bool {
        forall|k: u64| #[trigger] self.matches@.contains_key(k) ==> match_ok(self.matches@[k]@)
    }

    pub fn new() -> (r: Self)
        ensures
            r.wf(),
            r.match_counter is None,
            r.states() == Map::<u64, MatchState>::empty(),
    {
        let r = MultiplayerPuzzleMatch { match_counter: None, matches: HashMap::new() };
        assert(r.states() =~= Map::<u64, MatchState>::empty());
        r
    }

    /// A freshly created match: open, with the creator as its only player and
    /// the creator's entry fee in the pot.
    pub open spec fn new_match(
        now: u64,
        creator: AccountId,
        token: AccountId,
        entry_fee: i128,
        max_players: u32,
        min_players: u32,
        join_duration: u64,
        submission_duration: u64,
        reveal_duration: u64,
    ) -> MatchState {
        MatchState {
            creator,
            token,
            entry_fee,
            max_players,
            min_players,
            players: seq![creator],
            status: Status::Open,
            pot: entry_fee,
            create_time: now,
            join_deadline: (now + join_duration) as u64,
            submission_duration,
            reveal_duration,
            submission_deadline: 0,
            reveal_deadline: 0,
            commits: Map::empty(),
            results: Map::empty(),
            disputes: Map::empty(),
            resolved: Map::empty(),
        }
    }

    /// Creates a match under the next number, open for joining for
    /// `join_duration` seconds from `now`; the creator joins and pays the
    /// entry fee. Returns the match number and the fee payment to perform.
    pub fn create_match(
        &mut self,
        now: u64,
        contract: AccountId,
        creator: AccountId,
        token: AccountId,
        entry_fee: i128,
        max_players: u32,
        min_players: u32,
        join_duration: u64,
        submission_duration: u64,
        reveal_duration: u64,
    ) -> (r: (u64, TokenTransfer))
        requires
            old(self).wf(),
            old(self).counter() < u64::MAX,
            now + join_duration <= u64::MAX,
        ensures
            final(self).wf(),
            r == ((old(self).counter() + 1) as u64, TokenTransfer {
                token,
                from: creator,
                to: contract,
                amount: entry_fee,
            }),
            final(self).match_counter == Some(r.0),
            final(self).states() == old(self).states().insert(
                r.0,
                Self::new_match(
                    now,
                    creator,
                    token,
                    entry_fee,
                    max_players,
                    min_players,
                    join_duration,
                    submission_duration,
                    reveal_duration,
                ),
            ),
    {
        let counter: u64 = match self.match_counter {
            Some(n) => n + 1,
            None => 1,
        };
        self.match_counter = Some(counter);
        let mut players: Vec<AccountId> = Vec::new();
        players.push(creator);
        let m = MatchData {
            creator,
            token,
            entry_fee,
            max_players,
            min_players,
            players,
            status: Status::Open,
            pot: entry_fee,
            create_time: now,
            join_deadline: now + join_duration,
            submission_duration,
            reveal_duration,
            submission_deadline: 0,
            reveal_deadline: 0,
            commits: HashMap::new(),
            results: HashMap::new(),
            disputes: HashMap::new(),
            resolved: HashMap::new(),
        };
        let ghost s0 = *self;
        self.matches.insert(counter, m);
        proof {
            let st = Self::new_match(
                now,
                creator,
                token,
                entry_fee,
                max_players,
                min_players,
                join_duration,
                submission_duration,
                reveal_duration,
            );
            assert(self.matches@[counter]@.players =~= st.players);
            assert(self.matches@[counter]@.disputes =~= st.disputes);
            assert(self.matches@[counter]@ == st);
            assert(self.states() =~= s0.states().insert(counter, st));
            assert forall|k: u64| #[trigger] self.matches@.contains_key(k) implies match_ok(
                self.matches@[k]@,
            ) by {
                if k != counter {
                    assert(s0.matches@.contains_key(k));
                }
            }
        }
        (counter, TokenTransfer { token, from: creator, to: contract, amount: entry_fee })
    }

    /// Whether `player` may join match `match_id` at `now`, or why not.
    pub open spec fn spec_join(self, now: u64, match_id: u64, player: AccountId) -> Result<(), Error> {
        if !self.matches@.contains_key(match_id) {
            Err(Error::MatchNotFound)
        } else {
            let m = self.states()[match_id];
            if m.status != Status::Open {
                Err(Error::InvalidStatus)
            } else if now > m.join_deadline {
                Err(Error::DeadlinePassed)
            } else if m.players.len() >= m.max_players {
                Err(Error::MaxPlayersReached)
            } else if m.players.contains(player) {
                Err(Error::AlreadyJoined)
            } else {
                Ok(())
            }
        }
    }

    /// The match after `player` joins at `now`: the fee joins the pot, and
    /// once the minimum number of players is reached the submission phase
    /// starts.
    pub open spec fn joined(m: MatchState, now: u64, player: AccountId) -> MatchState {
        let m1 = MatchState {
            players: m.players.push(player),
            pot: (m.pot + m.entry_fee) as i128,
            ..m
        };
        if m1.players.len() >= m1.min_players {
            MatchState {
                status: Status::Submission,
                submission_deadline: (now + m1.submission_duration) as u64,
                ..m1
            }
        } else {
            m1
        }
    }

    /// A join of match `match_id` at `now` stays within the machine's numbers.
    pub open spec fn join_fits(self, now: u64, match_id: u64) -> bool {
        self.matches@.contains_key(match_id) ==> {
            let m = self.states()[match_id];
            &&& i128::MIN <= m.pot + m.entry_fee <= i128::MAX
            &&& m.players.len() + 1 >= m.min_players ==> now + m.submission_duration <= u64::MAX
        }
    }

    /// `player` joins open match `match_id` at `now` (before its join
    /// deadline, while there is room) and pays the entry fee; reaching the
    /// minimum number of players starts the match. Returns the payment to
    /// perform.
    pub fn join_match(&mut self, now: u64, contract: AccountId, match_id: u64, player: AccountId) -> (r:
        Result<TokenTransfer, Error>)
        requires
            old(self).wf(),
            old(self).join_fits(now, match_id),
        ensures
            final(self).wf(),
            match old(self).spec_join(now, match_id, player) {
                Err(e) => r == Err::<TokenTransfer, Error>(e) && *final(self) == *old(self),
                Ok(_) => {
                    let m = old(self).states()[match_id];
                    &&& r == Ok::<TokenTransfer, Error>(
                        TokenTransfer { token: m.token, from: player, to: contract, amount: m.entry_fee },
                    )
                    &&& final(self).states() == old(self).states().insert(
                        match_id,
                        Self::joined(m, now, player),
                    )
                    &&& final(self).match_counter == old(self).match_counter
                },
            },
    {
        match self.matches.get(&match_id) {
            None => return Err(Error::MatchNotFound),
            Some(m) => {
                if m.status != Status::Open {
                    return Err(Error::InvalidStatus);
                }
                if now > m.join_deadline {
                    return Err(Error::DeadlinePassed);
                }
                if m.players.len() >= m.max_players as usize {
                    return Err(Error::MaxPlayersReached);
                }
                if contains_u64(&m.players, player) {
                    return Err(Error::AlreadyJoined);
                }
            },
        }
        let ghost s0 = *self;
        let ghost m0 = s0.states()[match_id];
        let mut m = self.matches.remove(&match_id).unwrap();
        proof {
            assert(m@ == m0);
            assert(m.pot == m.entry_fee * m0.players.len());
            assert(m.entry_fee * m0.players.len() + m.entry_fee == m.entry_fee * (m0.players.len()
                + 1)) by (nonlinear_arith);
        }
        m.players.push(player);
        m.pot = m.pot + m.entry_fee;
        if m.players.len() >= m.min_players as usize {
            let started = m.start_match(now);
            assert(started.is_ok());
        }
        let transfer = TokenTransfer { token: m.token, from: player, to: contract, amount: m.entry_fee };
        self.matches.insert(match_id, m);
        proof {
            let st = Self::joined(m0, now, player);
            assert(self.matches@[match_id]@.players =~= st.players);
            assert(self.matches@[match_id]@.disputes =~= st.disputes);
            assert(self.matches@[match_id]@ == st);
            assert(self.states() =~= s0.states().insert(match_id, st));
            assert forall|k: u64| #[trigger] self.matches@.contains_key(k) implies match_ok(
                self.matches@[k]@,
            ) by {
                if k != match_id {
                    assert(s0.matches@.contains_key(k));
                } else {
                    assert(s0.matches@.contains_key(match_id));
                    assert(match_ok(m0));
                    assert forall|p: AccountId| #[trigger] st.commits.contains_key(p) implies st.players.contains(p) by {
                        assert(m0.commits.contains_key(p));
                        lemma_push_contains(m0.players, player, p);
                    }
                    assert forall|p: AccountId| #[trigger] st.results.contains_key(p) implies st.players.contains(p) by {
                        assert(m0.results.contains_key(p));
                        lemma_push_contains(m0.players, player, p);
                    }
                    assert forall|p: AccountId| #[trigger] st.disputes.contains_key(p) implies st.players.contains(p) by {
                        assert(m0.disputes.contains_key(p));
                        lemma_push_contains(m0.players, player, p);
                    }
                }
            }
        }
        Ok(transfer)
    }

    /// The match after `player` leaves: out of the players, fee out of the pot.
    pub open spec fn left(m: MatchState, player: AccountId) -> MatchState {
        MatchState {
            players: m.players.remove(m.players.index_of(player)),
            pot: (m.pot - m.entry_fee) as i128,
            ..m
        }
    }

    /// Whether `player` may leave match `match_id`, or why not.
    pub open spec fn spec_leave(self, match_id: u64, player: AccountId) -> Result<(), Error> {
        if !self.matches@.contains_key(match_id) {
            Err(Error::MatchNotFound)
        } else if self.states()[match_id].status != Status::Open {
            Err(Error::InvalidStatus)
        } else if !self.states()[match_id].players.contains(player) {
            Err(Error::NotPlayer)
        } else {
            Ok(())
        }
    }

    /// A player leaves open match `match_id` and gets the entry fee back.
    /// Returns the refund to perform.
    pub fn leave_match(&mut self, contract: AccountId, match_id: u64, player: AccountId) -> (r: Result<
        TokenTransfer,
        Error,
    >)
        requires
            old(self).wf(),
            old(self).matches@.contains_key(match_id) ==> i128::MIN <= old(self).states()[match_id].pot
                - old(self).states()[match_id].entry_fee <= i128::MAX,
        ensures
            final(self).wf(),
            match old(self).spec_leave(match_id, player) {
                Err(e) => r == Err::<TokenTransfer, Error>(e) && *final(self) == *old(self),
                Ok(_) => {
                    let m = old(self).states()[match_id];
                    &&& r == Ok::<TokenTransfer, Error>(
                        TokenTransfer { token: m.token, from: contract, to: player, amount: m.entry_fee },
                    )
                    &&& final(self).states() == old(self).states().insert(
                        match_id,
                        Self::left(m, player),
                    )
                    &&& final(self).match_counter == old(self).match_counter
                },
            },
    {
        let idx = match self.matches.get(&match_id) {
            None => return Err(Error::MatchNotFound),
            Some(m) => {
                if m.status != Status::Open {
                    return Err(Error::InvalidStatus);
                }
                match position_u64(&m.players, player) {
                    Some(i) => i,
                    None => return Err(Error::NotPlayer),
                }
            },
        };
        let ghost s0 = *self;
        let ghost m0 = s0.states()[match_id];
        let mut m = self.matches.remove(&match_id).unwrap();
        proof {
            assert(s0.matches@.contains_key(match_id));
            assert(match_ok(m0));
            assert(m@ == m0);
            assert(m0.players[idx as int] == player);
            let j = m0.players.index_of(player);
            assert(0 <= j < m0.players.len() && m0.players[j] == player);
            assert(j == idx);
            assert(m.pot == m.entry_fee * m0.players.len());
            assert(m.entry_fee * m0.players.len() - m.entry_fee == m.entry_fee * (m0.players.len()
                - 1)) by (nonlinear_arith);
        }
        m.players.remove(idx);
        m.pot = m.pot - m.entry_fee;
        let transfer = TokenTransfer { token: m.token, from: contract, to: player, amount: m.entry_fee };
        self.matches.insert(match_id, m);
        proof {
            let st = Self::left(m0, player);
            assert(self.matches@[match_id]@.players =~= st.players);
            assert(self.matches@[match_id]@.disputes =~= st.disputes);
            assert(self.matches@[match_id]@ == st);
            assert(self.states() =~= s0.states().insert(match_id, st));
            assert(st.players.no_duplicates()) by {
                assert forall|a: int, b: int| 0 <= a < b < st.players.len() implies st.players[a]
                    != st.players[b] by {
                    let a0 = if a < idx { a } else { a + 1 };
                    let b0 = if b < idx { b } else { b + 1 };
                    assert(st.players[a] == m0.players[a0]);
                    assert(st.players[b] == m0.players[b0]);
                }
            }
            assert forall|k: u64| #[trigger] self.matches@.contains_key(k) implies match_ok(
                self.matches@[k]@,
            ) by {
                if k != match_id {
                    assert(s0.matches@.contains_key(k));
                } else {
                    assert forall|p: AccountId| #[trigger] st.commits.contains_key(p) implies false by {
                        assert(m0.commits.contains_key(p));
                    }
                    assert forall|p: AccountId| #[trigger] st.results.contains_key(p) implies false by {
                        assert(m0.results.contains_key(p));
                    }
                    assert forall|p: AccountId| #[trigger] st.disputes.contains_key(p) implies false by {
                        assert(m0.disputes.contains_key(p));
                    }
                }
            }
        }
        Ok(transfer)
    }

    /// Whether `player` may commit in match `match_id` at `now`, or why not.
    pub open spec fn spec_commit(self, now: u64, match_id: u64, player: AccountId) -> Result<(), Error> {
        if !self.matches@.contains_key(match_id) {
            Err(Error::MatchNotFound)
        } else {
            let m = self.states()[match_id];
            if m.status != Status::Submission {
                Err(Error::InvalidStatus)
            } else if now > m.submission_deadline {
                Err(Error::DeadlinePassed)
            } else if !m.players.contains(player) {
                Err(Error::NotPlayer)
            } else {
                Ok(())
            }
        }
    }

    /// The match after `player` commits `commit_hash` at `now` (replacing an
    /// earlier commit): once there are as many commits as players, the reveal
    /// phase starts, its deadline `reveal_duration` seconds on.
    pub open spec fn committed(m: MatchState, now: u64, player: AccountId, commit_hash: [u8; 32]) -> MatchState {
        let c = m.commits.insert(player, commit_hash);
        if c.len() == m.players.len() {
            MatchState {
                commits: c,
                status: Status::Reveal,
                reveal_deadline: (now + m.reveal_duration) as u64,
                ..m
            }
        } else {
            MatchState { commits: c, ..m }
        }
    }

    /// `player` commits to a hash of their score in match `match_id` at `now`.
    pub fn submit_commit(&mut self, now: u64, match_id: u64, player: AccountId, commit_hash: [u8; 32]) -> (r:
        Result<(), Error>)
        requires
            old(self).wf(),
            old(self).matches@.contains_key(match_id) ==> now + old(self).states()[match_id].reveal_duration
                <= u64::MAX || old(self).states()[match_id].commits.insert(player, commit_hash).len()
                != old(self).states()[match_id].players.len(),
        ensures
            final(self).wf(),
            match old(self).spec_commit(now, match_id, player) {
                Err(e) => r == Err::<(), Error>(e) && *final(self) == *old(self),
                Ok(_) => {
                    &&& r == Ok::<(), Error>(())
                    &&& final(self).states() == old(self).states().insert(
                        match_id,
                        Self::committed(old(self).states()[match_id], now, player, commit_hash),
                    )
                    &&& final(self).match_counter == old(self).match_counter
                },
            },
    {
        match self.matches.get(&match_id) {
            None => return Err(Error::MatchNotFound),
            Some(m) => {
                if m.status != Status::Submission {
                    return Err(Error::InvalidStatus);
                }
                if now > m.submission_deadline {
                    return Err(Error::DeadlinePassed);
                }
                if !contains_u64(&m.players, player) {
                    return Err(Error::NotPlayer);
                }
            },
        }
        let ghost s0 = *self;
        let ghost m0 = s0.states()[match_id];
        let mut m = self.matches.remove(&match_id).unwrap();
        proof {
            assert(s0.matches@.contains_key(match_id));
            assert(match_ok(m0));
            assert(m@ == m0);
        }
        m.commits.insert(player, commit_hash);
        if m.commits.len() == m.players.len() {
            m.status = Status::Reveal;
            m.reveal_deadline = now + m.reveal_duration;
        }
        self.matches.insert(match_id, m);
        proof {
            let st = Self::committed(m0, now, player, commit_hash);
            assert(self.matches@[match_id]@.disputes =~= st.disputes);
            assert(self.matches@[match_id]@ == st);
            assert(self.states() =~= s0.states().insert(match_id, st));
            assert forall|k: u64| #[trigger] self.matches@.contains_key(k) implies match_ok(
                self.matches@[k]@,
            ) by {
                if k != match_id {
                    assert(s0.matches@.contains_key(k));
                } else {
                    assert forall|p: AccountId| #[trigger] st.commits.contains_key(p) implies st.players.contains(p)
                        && st.status != Status::Open by {
                        if p != player {
                            assert(m0.commits.contains_key(p));
                        }
                    }
                    assert forall|p: AccountId| #[trigger] st.results.contains_key(p) implies st.players.contains(p)
                        && st.status != Status::Open by {
                        assert(m0.results.contains_key(p));
                    }
                    assert forall|p: AccountId| #[trigger] st.disputes.contains_key(p) implies st.players.contains(p)
                        && st.status != Status::Open by {
                        assert(m0.disputes.contains_key(p));
                    }
                }
            }
        }
        Ok(())
    }

    /// Whether `player` may reveal in match `match_id` at `now` with a
    /// reveal hashing to `digest`, or why not.
    pub open spec fn spec_reveal(self, now: u64, match_id: u64, player: AccountId, digest: Seq<u8>) -> Result<
        (),
        Error,
    > {
        if !self.matches@.contains_key(match_id) {
            Err(Error::MatchNotFound)
        } else {
            let m = self.states()[match_id];
            if m.status != Status::Reveal {
                Err(Error::InvalidStatus)
            } else if now > m.reveal_deadline {
                Err(Error::DeadlinePassed)
            } else if !m.players.contains(player) {
                Err(Error::NotPlayer)
            } else if !m.commits.contains_key(player) {
                Err(Error::NoResults)
            } else if digest != m.commits[player]@ {
                Err(Error::InvalidReveal)
            } else {
                Ok(())
            }
        }
    }

    /// The outcome of a reveal of `score` by `player` hashing to `digest`.
    pub open spec fn spec_revealed(
        self,
        now: u64,
        match_id: u64,
        player: AccountId,
        score: i128,
        digest: Seq<u8>,
        r: Result<(), Error>,
        after: Self,
    ) -> bool {
        match self.spec_reveal(now, match_id, player, digest) {
            Err(e) => r == Err::<(), Error>(e) && after == self,
            Ok(_) => {
                let m = self.states()[match_id];
                &&& r == Ok::<(), Error>(())
                &&& after.states() == self.states().insert(
                    match_id,
                    MatchState { results: m.results.insert(player, score), ..m },
                )
                &&& after.match_counter == self.match_counter
            },
        }
    }

    /// Records `player`'s score in match `match_id` at `now`, given the
    /// digest of their reveal: it must equal their commit.
    pub fn record_reveal(
        &mut self,
        now: u64,
        match_id: u64,
        player: AccountId,
        score: i128,
        digest: &Vec<u8>,
    ) -> (r: Result<(), Error>)
        requires
            old(self).wf(),
        ensures
            final(self).wf(),
            old(self).spec_revealed(now, match_id, player, score, digest@, r, *final(self)),
    {
        match self.matches.get(&match_id) {
            None => return Err(Error::MatchNotFound),
            Some(m) => {
                if m.status != Status::Reveal {
                    return Err(Error::InvalidStatus);
                }
                if now > m.reveal_deadline {
                    return Err(Error::DeadlinePassed);
                }
                if !contains_u64(&m.players, player) {
                    return Err(Error::NotPlayer);
                }
                match m.commits.get(&player) {
                    None => return Err(Error::NoResults),
                    Some(c) => {
                        let cb = array_bytes(c);
                        if !bytes_eq(digest, &cb) {
                            return Err(Error::InvalidReveal);
                        }
                    },
                }
            },
        }
        let ghost s0 = *self;
        let ghost m0 = s0.states()[match_id];
        let mut m = self.matches.remove(&match_id).unwrap();
        proof {
            assert(s0.matches@.contains_key(match_id));
            assert(match_ok(m0));
            assert(m@ == m0);
        }
        m.results.insert(player, score);
        self.matches.insert(match_id, m);
        proof {
            let st = MatchState { results: m0.results.insert(player, score), ..m0 };
            assert(self.matches@[match_id]@.disputes =~= st.disputes);
            assert(self.matches@[match_id]@ == st);
            assert(self.states() =~= s0.states().insert(match_id, st));
            assert forall|k: u64| #[trigger] self.matches@.contains_key(k) implies match_ok(
                self.matches@[k]@,
            ) by {
                if k != match_id {
                    assert(s0.matches@.contains_key(k));
                } else {
                    assert forall|p: AccountId| #[trigger] st.results.contains_key(p) implies st.players.contains(p)
                        && st.status != Status::Open by {
                        if p != player {
                            assert(m0.results.contains_key(p));
                        }
                    }
                    assert forall|p: AccountId| #[trigger] st.commits.contains_key(p) implies st.players.contains(p)
                        && st.status != Status::Open by {
                        assert(m0.commits.contains_key(p));
                    }
                    assert forall|p: AccountId| #[trigger] st.disputes.contains_key(p) implies st.players.contains(p)
                        && st.status != Status::Open by {
                        assert(m0.disputes.contains_key(p));
                    }
                }
            }
        }
        Ok(())
    }

    /// `player` reveals `score` with `secret` in match `match_id` at `now`.
    /// The reveal is accepted when the SHA-256 of the player's own address
    /// (in XDR), the score (in XDR) and the secret equals the player's
    /// commit.
    pub fn reveal_result(
        &mut self,
        env: &Env,
        now: u64,
        match_id: u64,
        player: &Account,
        score: i128,
        secret: &Vec<u8>,
    ) -> (r: Result<(), Error>)
        requires
            old(self).wf(),
        ensures
            final(self).wf(),
            old(self).spec_revealed(
                now,
                match_id,
                player.id,
                score,
                reveal_digest(player.xdr@, score, secret@),
                r,
                *final(self),
            ),
    {
        let score_bytes = i128_to_xdr(score);
        let head = concat(&player.xdr, &score_bytes);
        let input = concat(&head, secret);
        let digest = sha256(env, &input);
        self.record_reveal(now, match_id, player.id, score, &digest)
    }

    /// The players disputing `disputed` in `m` (none when undisputed).
    pub open spec fn disputers_of(m: MatchState, disputed: AccountId) -> Seq<AccountId> {
        if m.disputes.contains_key(disputed) {
            m.disputes[disputed]
        } else {
            Seq::empty()
        }
    }

    /// Whether `disputer` may dispute `disputed`'s result in match
    /// `match_id`, or why not.
    pub open spec fn spec_dispute(self, match_id: u64, disputer: AccountId, disputed: AccountId) -> Result<
        (),
        Error,
    > {
        if !self.matches@.contains_key(match_id) {
            Err(Error::MatchNotFound)
        } else {
            let m = self.states()[match_id];
            if m.status != Status::Reveal {
                Err(Error::InvalidStatus)
            } else if !m.players.contains(disputer) || !m.players.contains(disputed) {
                Err(Error::NotPlayer)
            } else if disputer == disputed {
                Err(Error::InvalidOp)
            } else if Self::disputers_of(m, disputed).contains(disputer) {
                Err(Error::AlreadyJoined)
            } else {
                Ok(())
            }
        }
    }

    /// During the reveal phase, `disputer` disputes `disputed`'s result; the
    /// match becomes disputed.
    pub fn raise_dispute(&mut self, match_id: u64, disputer: AccountId, disputed: AccountId) -> (r: Result<
        (),
        Error,
    >)
        requires
            old(self).wf(),
        ensures
            final(self).wf(),
            match old(self).spec_dispute(match_id, disputer, disputed) {
                Err(e) => r == Err::<(), Error>(e) && *final(self) == *old(self),
                Ok(_) => {
                    let m = old(self).states()[match_id];
                    &&& r == Ok::<(), Error>(())
                    &&& final(self).states() == old(self).states().insert(
                        match_id,
                        MatchState {
                            disputes: m.disputes.insert(
                                disputed,
                                Self::disputers_of(m, disputed).push(disputer),
                            ),
                            status: Status::Disputed,
                            ..m
                        },
                    )
                    &&& final(self).match_counter == old(self).match_counter
                },
            },
    {
        match self.matches.get(&match_id) {
            None => return Err(Error::MatchNotFound),
            Some(m) => {
                if m.status != Status::Reveal {
                    return Err(Error::InvalidStatus);
                }
                if !contains_u64(&m.players, disputer) || !contains_u64(&m.players, disputed) {
                    return Err(Error::NotPlayer);
                }
                if disputer == disputed {
                    return Err(Error::InvalidOp);
                }
                match m.disputes.get(&disputed) {
                    Some(list) => {
                        if contains_u64(list, disputer) {
                            return Err(Error::AlreadyJoined);
                        }
                    },
                    None => {},
                }
            },
        }
        let ghost s0 = *self;
        let ghost m0 = s0.states()[match_id];
        let mut m = self.matches.remove(&match_id).unwrap();
        proof {
            assert(s0.matches@.contains_key(match_id));
            assert(match_ok(m0));
            assert(m@ == m0);
        }
        let mut list = match m.disputes.remove(&disputed) {
            Some(l) => l,
            None => Vec::new(),
        };
        proof {
            assert(list@ == Self::disputers_of(m0, disputed));
        }
        list.push(disputer);
        m.disputes.insert(disputed, list);
        m.status = Status::Disputed;
        self.matches.insert(match_id, m);
        proof {
            let st = MatchState {
                disputes: m0.disputes.insert(
                    disputed,
                    Self::disputers_of(m0, disputed).push(disputer),
                ),
                status: Status::Disputed,
                ..m0
            };
            assert(self.matches@[match_id]@.disputes =~= st.disputes);
            assert(self.matches@[match_id]@ == st);
            assert(self.states() =~= s0.states().insert(match_id, st));
            assert forall|k: u64| #[trigger] self.matches@.contains_key(k) implies match_ok(
                self.matches@[k]@,
            ) by {
                if k != match_id {
                    assert(s0.matches@.contains_key(k));
                } else {
                    assert forall|p: AccountId| #[trigger] st.results.contains_key(p) implies st.players.contains(p)
                        && st.status != Status::Open by {
                        assert(m0.results.contains_key(p));
                    }
                    assert forall|p: AccountId| #[trigger] st.commits.contains_key(p) implies st.players.contains(p)
                        && st.status != Status::Open by {
                        assert(m0.commits.contains_key(p));
                    }
                    assert forall|p: AccountId| #[trigger] st.disputes.contains_key(p) implies st.players.contains(p)
                        && st.status != Status::Open by {
                        if p != disputed {
                            assert(m0.disputes.contains_key(p));
                        }
                    }
                    assert forall|p: AccountId| #[trigger] st.resolved.contains_key(p) implies st.disputes.contains_key(p) by {
                        assert(m0.resolved.contains_key(p));
                    }
                }
            }
        }
        Ok(())
    }

    /// Every disputed player of `m` has been resolved.
    pub open spec fn all_resolved(m: MatchState) -> bool {
        forall|p: AccountId| #[trigger] m.disputes.contains_key(p) ==> m.resolved.contains_key(p)
    }

    /// The match after the creator rules on the dispute against `disputed`:
    /// an invalid result is struck; once every dispute is ruled on the match
    /// is finished.
    pub open spec fn ruled(m: MatchState, disputed: AccountId, valid: bool) -> MatchState {
        let m1 = MatchState {
            resolved: m.resolved.insert(disputed, valid),
            results: if valid {
                m.results
            } else {
                m.results.remove(disputed)
            },
            ..m
        };
        if Self::all_resolved(m1) {
            MatchState { status: Status::Finished, ..m1 }
        } else {
            m1
        }
    }

    /// Whether the dispute against `disputed` in match `match_id` can be
    /// ruled on, or why not.
    pub open spec fn spec_resolve(self, match_id: u64, disputed: AccountId) -> Result<(), Error> {
        if !self.matches@.contains_key(match_id) {
            Err(Error::MatchNotFound)
        } else {
            let m = self.states()[match_id];
            if m.status != Status::Disputed {
                Err(Error::InvalidStatus)
            } else if !m.disputes.contains_key(disputed) {
                Err(Error::DisputeNotFound)
            } else if m.resolved.contains_key(disputed) {
                Err(Error::AlreadyResolved)
            } else {
                Ok(())
            }
        }
    }

    /// The creator rules that `disputed`'s result is `valid` or not (the
    /// creator's authorisation is the caller's to check).
    pub fn resolve_dispute(&mut self, match_id: u64, disputed: AccountId, valid: bool) -> (r: Result<
        (),
        Error,
    >)
        requires
            old(self).wf(),
        ensures
            final(self).wf(),
            match old(self).spec_resolve(match_id, disputed) {
                Err(e) => r == Err::<(), Error>(e) && *final(self) == *old(self),
                Ok(_) => {
                    &&& r == Ok::<(), Error>(())
                    &&& final(self).states() == old(self).states().insert(
                        match_id,
                        Self::ruled(old(self).states()[match_id], disputed, valid),
                    )
                    &&& final(self).match_counter == old(self).match_counter
                },
            },
    {
        match self.matches.get(&match_id) {
            None => return Err(Error::MatchNotFound),
            Some(m) => {
                if m.status != Status::Disputed {
                    return Err(Error::InvalidStatus);
                }
                if !m.disputes.contains_key(&disputed) {
                    return Err(Error::DisputeNotFound);
                }
                if m.resolved.contains_key(&disputed) {
                    return Err(Error::AlreadyResolved);
                }
            },
        }
        let ghost s0 = *self;
        let ghost m0 = s0.states()[match_id];
        let mut m = self.matches.remove(&match_id).unwrap();
        proof {
            assert(s0.matches@.contains_key(match_id));
            assert(match_ok(m0));
            assert(m@ == m0);
        }
        m.resolved.insert(disputed, valid);
        if !valid {
            m.results.remove(&disputed);
        }
        let ghost m1 = m@;
        let mut all = true;
        let mut i: usize = 0;
        while i < m.players.len()
            invariant
                i <= m.players@.len(),
                m@ == m1,
                forall|p: AccountId| #[trigger] m1.disputes.contains_key(p) ==> m1.players.contains(p),
                all <==> forall|j: int| 0 <= j < i ==> (#[trigger] m1.disputes.contains_key(m1.players[j])
                    ==> m1.resolved.contains_key(m1.players[j])),
            decreases m.players.len() - i,
        {
            let p = m.players[i];
            proof {
                assert(m1.disputes.contains_key(p) == m.disputes@.contains_key(p));
                assert(m1.players[i as int] == p);
            }
            if m.disputes.contains_key(&p) && !m.resolved.contains_key(&p) {
                all = false;
            }
            i = i + 1;
        }
        proof {
            assert(all <==> Self::all_resolved(m1)) by {
                if all {
                    assert forall|p: AccountId| #[trigger] m1.disputes.contains_key(p) implies m1.resolved.contains_key(p) by {
                        let j = choose|j: int| 0 <= j < m1.players.len() && m1.players[j] == p;
                        assert(m1.disputes.contains_key(m1.players[j]));
                    }
                }
            }
        }
        if all {
            m.status = Status::Finished;
        }
        self.matches.insert(match_id, m);
        proof {
            let st = Self::ruled(m0, disputed, valid);
            assert(self.matches@[match_id]@.disputes =~= st.disputes);
            assert(m1.results =~= st.results);
            assert(self.matches@[match_id]@ == st);
            assert(self.states() =~= s0.states().insert(match_id, st));
            assert forall|k: u64| #[trigger] self.matches@.contains_key(k) implies match_ok(
                self.matches@[k]@,
            ) by {
                if k != match_id {
                    assert(s0.matches@.contains_key(k));
                } else {
                    assert forall|p: AccountId| #[trigger] st.results.contains_key(p) implies st.players.contains(p)
                        && st.status != Status::Open by {
                        assert(m0.results.contains_key(p));
                    }
                    assert forall|p: AccountId| #[trigger] st.commits.contains_key(p) implies st.players.contains(p)
                        && st.status != Status::Open by {
                        assert(m0.commits.contains_key(p));
                    }
                    assert forall|p: AccountId| #[trigger] st.disputes.contains_key(p) implies st.players.contains(p)
                        && st.status != Status::Open by {
                        assert(m0.disputes.contains_key(p));
                    }
                    assert forall|p: AccountId| #[trigger] st.resolved.contains_key(p) implies st.disputes.contains_key(p) by {
                        if p != disputed {
                            assert(m0.resolved.contains_key(p));
                        }
                    }
                }
            }
        }
        Ok(())
    }

    /// Whether match `match_id` can be evaluated at `now`, or why not: it
    /// must be finished, or in its reveal phase with the reveal deadline
    /// past.
    pub open spec fn spec_evaluate(self, now: u64, match_id: u64) -> Result<(), Error> {
        if !self.matches@.contains_key(match_id) {
            Err(Error::MatchNotFound)
        } else {
            let m = self.states()[match_id];
            if m.status == Status::Finished {
                Ok(())
            } else if now <= m.reveal_deadline {
                Err(Error::DeadlinePassed)
            } else if m.status == Status::Reveal {
                Ok(())
            } else {
                Err(Error::InvalidStatus)
            }
        }
    }

    /// The payments an evaluation makes: the pot split evenly (rounded toward
    /// zero) among the players with the highest valid score; if nobody has a
    /// valid score, every player's entry fee back.
    pub open spec fn evaluation_payouts(m: MatchState, contract: AccountId) -> Seq<TokenTransfer> {
        match best_of(m, m.players) {
            None => payouts(m.players, m.token, contract, m.entry_fee),
            Some(b) => {
                let ws = winners_of(m, m.players, b);
                payouts(ws, m.token, contract, tdiv(m.pot as int, ws.len() as int) as i128)
            },
        }
    }

    /// The match after an evaluation: the pot emptied; abandoned if nobody
    /// had a valid score, else finished.
    pub open spec fn evaluated(m: MatchState) -> MatchState {
        MatchState {
            pot: 0,
            status: if best_of(m, m.players) is None {
                Status::Abandoned
            } else {
                Status::Finished
            },
            ..m
        }
    }

    /// Settles match `match_id` at `now`. Returns the payments to perform.
    pub fn evaluate_match(&mut self, now: u64, contract: AccountId, match_id: u64) -> (r: Result<
        Vec<TokenTransfer>,
        Error,
    >)
        requires
            old(self).wf(),
        ensures
            final(self).wf(),
            match old(self).spec_evaluate(now, match_id) {
                Err(e) => r == Err::<Vec<TokenTransfer>, Error>(e) && *final(self) == *old(self),
                Ok(_) => {
                    let m = old(self).states()[match_id];
                    &&& (r matches Ok(v) && v@ == Self::evaluation_payouts(m, contract))
                    &&& final(self).states() == old(self).states().insert(
                        match_id,
                        Self::evaluated(m),
                    )
                    &&& final(self).match_counter == old(self).match_counter
                },
            },
    {
        match self.matches.get(&match_id) {
            None => return Err(Error::MatchNotFound),
            Some(m) => {
                if m.status != Status::Finished {
                    if now <= m.reveal_deadline {
                        return Err(Error::DeadlinePassed);
                    }
                    if m.status != Status::Reveal {
                        return Err(Error::InvalidStatus);
                    }
                }
            },
        }
        let ghost s0 = *self;
        let ghost m0 = s0.states()[match_id];
        let mut m = self.matches.remove(&match_id).unwrap();
        proof {
            assert(s0.matches@.contains_key(match_id));
            assert(match_ok(m0));
            assert(m@ == m0);
        }
        let transfers = match m.best_score() {
            None => {
                let t = m.refund_all(contract);
                m.status = Status::Abandoned;
                t
            },
            Some(best) => {
                let ws = m.winners(best);
                proof {
                    lemma_best_has_winner(m0, m0.players);
                }
                let prize = m.pot / (ws.len() as i128);
                m.status = Status::Finished;
                pay_each(&ws, m.token, contract, prize)
            },
        };
        m.pot = 0;
        self.matches.insert(match_id, m);
        proof {
            let st = Self::evaluated(m0);
            assert(self.matches@[match_id]@.disputes =~= st.disputes);
            assert(self.matches@[match_id]@ == st);
            assert(self.states() =~= s0.states().insert(match_id, st));
            assert forall|k: u64| #[trigger] self.matches@.contains_key(k) implies match_ok(
                self.matches@[k]@,
            ) by {
                if k != match_id {
                    assert(s0.matches@.contains_key(k));
                } else {
                    assert forall|p: AccountId| #[trigger] st.results.contains_key(p) implies st.players.contains(p)
                        && st.status != Status::Open by {
                        assert(m0.results.contains_key(p));
                    }
                    assert forall|p: AccountId| #[trigger] st.commits.contains_key(p) implies st.players.contains(p)
                        && st.status != Status::Open by {
                        assert(m0.commits.contains_key(p));
                    }
                    assert forall|p: AccountId| #[trigger] st.disputes.contains_key(p) implies st.players.contains(p)
                        && st.status != Status::Open by {
                        assert(m0.disputes.contains_key(p));
                    }
                }
            }
        }
        Ok(transfers)
    }

    /// Whether match `match_id` has timed out at `now`, or why not: joining
    /// closed short of the minimum, or the submission or reveal deadline has
    /// passed.
    pub open spec fn spec_timeout(self, now: u64, match_id: u64) -> Result<(), Error> {
        if !self.matches@.contains_key(match_id) {
            Err(Error::MatchNotFound)
        } else {
            let m = self.states()[match_id];
            if m.status == Status::Open && now > m.join_deadline && m.players.len() < m.min_players {
                Ok(())
            } else if m.status == Status::Submission && now > m.submission_deadline {
                Ok(())
            } else if m.status == Status::Reveal && now > m.reveal_deadline {
                Ok(())
            } else {
                Err(Error::InvalidStatus)
            }
        }
    }

    /// The match after a timeout at `now`: an unfilled match is abandoned
    /// (its pot figure is left as it was); a late submission phase moves to
    /// the reveal phase; a late reveal phase finishes.
    pub open spec fn timed_out(m: MatchState, now: u64) -> MatchState {
        if m.status == Status::Open {
            MatchState { status: Status::Abandoned, ..m }
        } else if m.status == Status::Submission {
            MatchState {
                status: Status::Reveal,
                reveal_deadline: (now + m.reveal_duration) as u64,
                ..m
            }
        } else {
            MatchState { status: Status::Finished, ..m }
        }
    }

    /// The payments a timeout makes: the entry fee back to every player of an
    /// abandoned match, else none.
    pub open spec fn timeout_payouts(m: MatchState, contract: AccountId) -> Seq<TokenTransfer> {
        if m.status == Status::Open {
            payouts(m.players, m.token, contract, m.entry_fee)
        } else {
            Seq::empty()
        }
    }

    /// Moves match `match_id` on after a missed deadline at `now`. Returns
    /// the payments to perform.
    pub fn handle_timeout(&mut self, now: u64, contract: AccountId, match_id: u64) -> (r: Result<
        Vec<TokenTransfer>,
        Error,
    >)
        requires
            old(self).wf(),
            old(self).matches@.contains_key(match_id) && old(self).states()[match_id].status
                == Status::Submission ==> now + old(self).states()[match_id].reveal_duration <= u64::MAX,
        ensures
            final(self).wf(),
            match old(self).spec_timeout(now, match_id) {
                Err(e) => r == Err::<Vec<TokenTransfer>, Error>(e) && *final(self) == *old(self),
                Ok(_) => {
                    let m = old(self).states()[match_id];
                    &&& (r matches Ok(v) && v@ == Self::timeout_payouts(m, contract))
                    &&& final(self).states() == old(self).states().insert(
                        match_id,
                        Self::timed_out(m, now),
                    )
                    &&& final(self).match_counter == old(self).match_counter
                },
            },
    {
        match self.matches.get(&match_id) {
            None => return Err(Error::MatchNotFound),
            Some(m) => {
                let open_late = m.status == Status::Open && now > m.join_deadline && m.players.len()
                    < m.min_players as usize;
                let submission_late = m.status == Status::Submission && now > m.submission_deadline;
                let reveal_late = m.status == Status::Reveal && now > m.reveal_deadline;
                if !open_late && !submission_late && !reveal_late {
                    return Err(Error::InvalidStatus);
                }
            },
        }
        let ghost s0 = *self;
        let ghost m0 = s0.states()[match_id];
        let mut m = self.matches.remove(&match_id).unwrap();
        proof {
            assert(s0.matches@.contains_key(match_id));
            assert(match_ok(m0));
            assert(m@ == m0);
        }
        let transfers = if m.status == Status::Open {
            let t = m.refund_all(contract);
            m.status = Status::Abandoned;
            t
        } else if m.status == Status::Submission {
            m.status = Status::Reveal;
            m.reveal_deadline = now + m.reveal_duration;
            Vec::new()
        } else {
            m.status = Status::Finished;
            Vec::new()
        };
        self.matches.insert(match_id, m);
        proof {
            let st = Self::timed_out(m0, now);
            assert(transfers@ =~= Self::timeout_payouts(m0, contract));
            assert(self.matches@[match_id]@.disputes =~= st.disputes);
            assert(self.matches@[match_id]@ == st);
            assert(self.states() =~= s0.states().insert(match_id, st));
            assert forall|k: u64| #[trigger] self.matches@.contains_key(k) implies match_ok(
                self.matches@[k]@,
            ) by {
                if k != match_id {
                    assert(s0.matches@.contains_key(k));
                } else {
                    assert forall|p: AccountId| #[trigger] st.results.contains_key(p) implies st.players.contains(p)
                        && st.status != Status::Open by {
                        assert(m0.results.contains_key(p));
                    }
                    assert forall|p: AccountId| #[trigger] st.commits.contains_key(p) implies st.players.contains(p)
                        && st.status != Status::Open by {
                        assert(m0.commits.contains_key(p));
                    }
                    assert forall|p: AccountId| #[trigger] st.disputes.contains_key(p) implies st.players.contains(p)
                        && st.status != Status::Open by {
                        assert(m0.disputes.contains_key(p));
                    }
                }
            }
        }
        Ok(transfers)
    }

    /// The stored match `match_id`.
    pub fn get_match(&self, match_id: u64) -> (r: Result<&MatchData, Error>)
        ensures
            match r {
                Ok(m) => self.matches@.contains_key(match_id) && m@ == self.states()[match_id],
                Err(e) => !self.matches@.contains_key(match_id) && e == Error::MatchNotFound,
            },
    {
        match self.matches.get(&match_id) {
            Some(m) => Ok(m),
            None => Err(Error::MatchNotFound),
        }
    }
}

/// While a match is being played (open, submitting, revealing or disputed)
/// its pot is exactly one entry fee per player.
pub proof fn lemma_pot_is_entry_fees(s: MultiplayerPuzzleMatch, match_id: u64)
    requires
        s.wf(),
        s.matches@.contains_key(match_id),
        ({
            let st = s.states()[match_id].status;
            st == Status::Open || st == Status::Submission || st == Status::Reveal || st
                == Status::Disputed
        }),
    ensures
        s.states()[match_id].pot == s.states()[match_id].entry_fee * s.states()[match_id].players.len(),
{
}

/// The best score is the highest valid score: every valid score of the
/// players is at most it, and some player's valid score equals it; with no
/// valid score there is no best.
pub proof fn lemma_best_is_highest(m: MatchState, s: Seq<AccountId>)
    ensures
        best_of(m, s) matches Some(b) ==> (forall|i: int|
            0 <= i < s.len() && #[trigger] is_valid(m, s[i]) ==> m.results[s[i]] <= b) && exists|
            i: int,
        | 0 <= i < s.len() && #[trigger] is_valid(m, s[i]) && m.results[s[i]] == b,
        best_of(m, s) is None ==> forall|i: int| 0 <= i < s.len() ==> !#[trigger] is_valid(m, s[i]),
    decreases s.len(),
{
    if s.len() > 0 {
        let t = s.drop_last();
        lemma_best_is_highest(m, t);
        assert forall|i: int| 0 <= i < t.len() implies t[i] == s[i] by {}
        let n = s.len() - 1;
        if best_of(m, s) is Some {
            let b = best_of(m, s)->0;
            if is_valid(m, s[n]) && m.results[s[n]] == b {
                assert(is_valid(m, s[n]));
            } else {
                let j = choose|j: int| 0 <= j < t.len() && #[trigger] is_valid(m, t[j]) && m.results[t[j]] == b;
                assert(is_valid(m, s[j]));
            }
        }
    }
}

/// The winners are exactly the players, in order, whose valid score equals
/// the best score: each winner is such a player.
pub proof fn lemma_winners_have_best(m: MatchState, s: Seq<AccountId>, best: i128)
    ensures
        forall|i: int| 0 <= i < winners_of(m, s, best).len() ==> is_valid(m, #[trigger] winners_of(m, s, best)[i])
            && m.results[winners_of(m, s, best)[i]] == best && s.contains(winners_of(m, s, best)[i]),
    decreases s.len(),
{
    if s.len() > 0 {
        let t = s.drop_last();
        lemma_winners_have_best(m, t, best);
        let w = winners_of(m, t, best);
        assert forall|i: int| 0 <= i < winners_of(m, s, best).len() implies is_valid(m, #[trigger] winners_of(m, s, best)[i])
            && m.results[winners_of(m, s, best)[i]] == best && s.contains(winners_of(m, s, best)[i]) by {
            if i < w.len() {
                assert(winners_of(m, s, best)[i] == w[i]);
                let j = choose|j: int| 0 <= j < t.len() && t[j] == w[i];
                assert(s[j] == w[i]);
            } else {
                assert(winners_of(m, s, best)[i] == s.last());
                assert(s[s.len() - 1] == s.last());
            }
        }
    }
}

/// The prizes an evaluation pays out never exceed a non-negative pot: each
/// winner gets the pot divided by the number of winners, rounded down.
pub proof fn lemma_prizes_within_pot(m: MatchState)
    requires
        m.pot >= 0,
        best_of(m, m.players) is Some,
    ensures
        ({
            let ws = winners_of(m, m.players, best_of(m, m.players)->0);
            &&& ws.len() > 0
            &&& 0 <= tdiv(m.pot as int, ws.len() as int) * ws.len() <= m.pot
        }),
{
    lemma_best_has_winner(m, m.players);
    let ws = winners_of(m, m.players, best_of(m, m.players)->0);
    let n = ws.len() as int;
    let p = m.pot as int;
    assert(0 <= (p / n) * n <= p) by (nonlinear_arith)
        requires
            n > 0,
            p >= 0,
    ;
}

} // verus!
