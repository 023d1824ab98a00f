//! A ticket lottery: the owner starts rounds; players buy tickets into the
//! prize pool while the round runs; after it ends a winner is drawn from the
//! players by a hash of the ledger sequence; the winner claims the pool once.
//! The owner may cancel the current round, after which players are refunded
//! their ticket price.
use std::collections::HashMap;
use soroban_sdk::Env;
use vstd::arithmetic::power2::{lemma2_to64, lemma_pow2_adds, lemma_pow2_strictly_increases, pow2};
use vstd::prelude::*;

use crate::airdrop_merkle_claim::{be_bytes, big_endian};
use crate::host::{sha256, sha256_of};
use crate::token::TokenTransfer;

verus! {

broadcast use vstd::std_specs::hash::group_hash_axioms;

/// An account or contract address, identified by a number.
pub type AccountId = u64;

#[derive(Clone, Copy, Debug, PartialEq, Eq, Structural)]
pub enum RoundStatus {
    Open,
    Drawing,
    Completed,
    Cancelled,
}

#[derive(Clone, Copy, Debug, PartialEq, Eq, Structural)]
pub enum LotteryError {
    NotInitialized,
    RoundNotFound,
    RoundNotOpen,
    WinnerAlreadyDrawn,
    RoundStillActive,
    RoundNotCompleted,
    PrizeAlreadyClaimed,
    NotWinner,
    RoundNotCancelled,
}

#[derive(Clone, Copy, Debug, PartialEq, Eq, Structural)]
pub struct LotteryRound {
    pub id: u32,
    pub ticket_price: i128,
    pub prize_pool: i128,
    pub start_time: u64,
    pub end_time: u64,
    pub winner: Option<AccountId>,
    pub status: RoundStatus,
    pub claimed: bool,
}

/// The contract's storage.
pub struct LotteryContract {
    pub owner: Option<AccountId>,
    pub token: Option<AccountId>,
    pub current_round: Option<u32>,
    pub rounds: HashMap<u32, LotteryRound>,
    pub players: HashMap<u32, Vec<AccountId>>,
}

/// What a round keeps true of itself and its players: until the prize is
/// claimed the pool holds one ticket price per player, afterwards nothing;
/// a winner is one of the players.
pub open spec fn round_ok(id: u32, r: LotteryRound, players: Seq<AccountId>) -> bool {
    &&& r.id == id
    &&& !r.claimed ==> r.prize_pool == r.ticket_price * players.len()
    &&& r.claimed ==> r.prize_pool == 0
    &&& (r.winner matches Some(w) ==> players.contains(w))
    &&& (r.claimed ==> r.winner is Some)
    &&& (r.status == RoundStatus::Open ==> !r.claimed && r.winner is None)
}

/// A byte string read as a big-endian number.
pub open spec fn be_value(s: Seq<u8>) -> nat
    decreases s.len(),
{
    if s.len() == 0 {
        0
    } else {
        be_value(s.drop_last()) * 256 + s.last() as nat
    }
}

/// The number a draw at ledger sequence `sequence` is made from: the first
/// eight bytes, big-endian, of the SHA-256 of the sequence's four big-endian
/// bytes.
pub open spec fn sequence_draw(sequence: u32) -> nat {
    be_value(sha256_of(be_bytes(sequence as u128, 4)).subrange(0, 8))
}

/// The first eight bytes of `hash`, read as a big-endian number.
pub fn leading_u64(hash: &Vec<u8>) -> (r: u64)
    requires
        hash@.len() >= 8,
    ensures
        r == be_value(hash@.subrange(0, 8)),
{
    let mut acc: u64 = 0;
    let mut i: usize = 0;
    proof {
        lemma2_to64();
    }
    while i < 8
        invariant
            hash@.len() >= 8,
            i <= 8,
            acc == be_value(hash@.subrange(0, i as int)),
            acc < pow2((8 * i) as nat),
        decreases 8 - i,
    {
        proof {
            lemma_pow2_adds((8 * i) as nat, 8);
            lemma2_to64();
            if i + 1 < 8 {
                lemma_pow2_strictly_increases((8 * (i + 1)) as nat, 64);
            }
            let s = hash@.subrange(0, i + 1);
            assert(s.drop_last() =~= hash@.subrange(0, i as int));
        }
        acc = acc * 256 + hash[i] as u64;
        i = i + 1;
    }
    acc
}

/// The draw number for ledger sequence `sequence` (see `sequence_draw`).
pub fn generate_random(env: &Env, sequence: u32) -> (r: u64)
    ensures
        r == sequence_draw(sequence),
{
    let seed = big_endian(sequence as u128, 4);
    let hash = sha256(env, &seed);
    leading_u64(&hash)
}

/// The round once drawn: completed, its winner the player at position
/// `rand` modulo the number of players (no winner when nobody played).
pub open spec fn drawn_round(rd: LotteryRound, players: Seq<AccountId>, rand: int) -> LotteryRound {
    LotteryRound {
        winner: if players.len() == 0 {
            None
        } else {
            Some(players[rand % (players.len() as int)])
        },
        status: RoundStatus::Completed,
        ..rd
    }
}

impl LotteryContract {
    /// The number of the latest round (0 before the first).
    pub open spec fn latest(self) -> u32 {
        match self.current_round {
            Some(n) => n,
            None => 0,
        }
    }

    /// The players of each round, in the order they bought tickets.
    pub open spec fn lists(self) -> Map<u32, Seq<AccountId>> {
        Map::new(|k: u32| self.players@.contains_key(k), |k: u32| self.players@[k]@)
    }

    pub open spec fn wf(self) -> bool {
        &&& self.owner is Some <==> self.current_round is Some
        &&& self.owner is Some <==> self.token is Some
        &&& self.players@.dom() == self.rounds@.dom()
        &&& forall|k: u32| #[trigger]
            self.rounds@.contains_key(k) ==> round_ok(k, self.rounds@[k], self.players@[k]@)
    }

    pub fn new() -> (r: Self)
        ensures
            r.wf(),
            r.owner is None,
            r.rounds@ == Map::<u32, LotteryRound>::empty(),
    {
        LotteryContract {
            owner: None,
            token: None,
            current_round: None,
            rounds: HashMap::new(),
            players: HashMap::new(),
        }
    }

    /// Records the owner and the ticket token, and sets the round counter
    /// to 0 (rounds already stored stay, and a later round of the same
    /// number replaces them).
    pub fn init(&mut self, owner: AccountId, token: AccountId)
        requires
            old(self).wf(),
        ensures
            final(self).wf(),
            *final(self) == (Self {
                owner: Some(owner),
                token: Some(token),
                current_round: Some(0u32),
                ..*old(self)
            }),
    {
        self.owner = Some(owner);
        self.token = Some(token);
        self.current_round = Some(0);
    }

    /// The round opened by a successful start.
    pub open spec fn fresh_round(id: u32, now: u64, ticket_price: i128, duration: u64) -> LotteryRound {
        LotteryRound {
            id,
            ticket_price,
            prize_pool: 0,
            start_time: now,
            end_time: (now + duration) as u64,
            winner: None,
            status: RoundStatus::Open,
            claimed: false,
        }
    }

    /// Opens the next round (numbered one past the latest), running from
    /// `now` for `duration` seconds at `ticket_price` a ticket, with no
    /// players; it becomes the current round. Returns its number.
    pub fn start_round(&mut self, now: u64, ticket_price: i128, duration: u64) -> (r: Result<
        u32,
        LotteryError,
    >)
        requires
            old(self).wf(),
            old(self).owner is Some ==> old(self).latest() < u32::MAX && now + duration
                <= u64::MAX,
        ensures
            final(self).wf(),
            r == (if old(self).owner is None {
                Err(LotteryError::NotInitialized)
            } else {
                Ok((old(self).latest() + 1) as u32)
            }),
            r.is_err() ==> *final(self) == *old(self),
            r matches Ok(id) ==> {
                &&& final(self).rounds@ == old(self).rounds@.insert(
                    id,
                    Self::fresh_round(id, now, ticket_price, duration),
                )
                &&& final(self).lists() == old(self).lists().insert(id, Seq::empty())
                &&& final(self).current_round == Some(id)
                &&& final(self).owner == old(self).owner
                &&& final(self).token == old(self).token
            },
    {
        if self.owner.is_none() {
            return Err(LotteryError::NotInitialized);
        }
        let round_id: u32 = match self.current_round {
            Some(n) => n + 1,
            None => return Err(LotteryError::NotInitialized),
        };
        let round = LotteryRound {
            id: round_id,
            ticket_price,
            prize_pool: 0,
            start_time: now,
            end_time: now + duration,
            winner: None,
            status: RoundStatus::Open,
            claimed: false,
        };
        let ghost s0 = *self;
        self.rounds.insert(round_id, round);
        self.players.insert(round_id, Vec::new());
        self.current_round = Some(round_id);
        proof {
            assert(self.lists() =~= s0.lists().insert(round_id, Seq::empty()));
            assert(self.players@.dom() =~= self.rounds@.dom());
            assert forall|k: u32| #[trigger] self.rounds@.contains_key(k) implies round_ok(
                k,
                self.rounds@[k],
                self.players@[k]@,
            ) by {
                if k != round_id {
                    assert(s0.rounds@.contains_key(k));
                }
            }
        }
        Ok(round_id)
    }

    /// Which round a ticket bought at `now` goes into, or why none can be
    /// bought: a round takes tickets while it is open and before its end.
    pub open spec fn spec_buy(self, now: u64) -> Result<u32, LotteryError> {
        match self.current_round {
            None => Err(LotteryError::NotInitialized),
            Some(id) => if !self.rounds@.contains_key(id) {
                Err(LotteryError::RoundNotFound)
            } else if self.rounds@[id].status != RoundStatus::Open || now
                >= self.rounds@[id].end_time {
                Err(LotteryError::RoundNotOpen)
            } else {
                Ok(id)
            },
        }
    }

    /// The current round's pool can take one more ticket.
    pub open spec fn buy_fits(self) -> bool {
        match self.current_round {
            Some(id) => self.rounds@.contains_key(id) ==> i128::MIN <= self.rounds@[id].prize_pool
                + self.rounds@[id].ticket_price <= i128::MAX,
            None => true,
        }
    }

    /// `user` buys a ticket for the current round at `now`: the ticket price
    /// joins the prize pool and `user` joins the round's players. Returns the
    /// payment to perform (from `user` to `contract`).
    pub fn buy_ticket(&mut self, now: u64, contract: AccountId, user: AccountId) -> (r: Result<
        TokenTransfer,
        LotteryError,
    >)
        requires
            old(self).wf(),
            old(self).buy_fits(),
        ensures
            final(self).wf(),
            match old(self).spec_buy(now) {
                Err(e) => r == Err::<TokenTransfer, LotteryError>(e) && *final(self) == *old(
                    self,
                ),
                Ok(id) => {
                    let rd = old(self).rounds@[id];
                    &&& r == Ok::<TokenTransfer, LotteryError>(
                        TokenTransfer {
                            token: old(self).token->0,
                            from: user,
                            to: contract,
                            amount: rd.ticket_price,
                        },
                    )
                    &&& final(self).rounds@ == old(self).rounds@.insert(
                        id,
                        LotteryRound { prize_pool: (rd.prize_pool + rd.ticket_price) as i128, ..rd },
                    )
                    &&& final(self).lists() == old(self).lists().insert(
                        id,
                        old(self).lists()[id].push(user),
                    )
                    &&& final(self).owner == old(self).owner
                    &&& final(self).token == old(self).token
                    &&& final(self).current_round == old(self).current_round
                },
            },
    {
        let round_id: u32 = match self.current_round {
            Some(n) => n,
            None => return Err(LotteryError::NotInitialized),
        };
        let mut round = match self.rounds.get(&round_id) {
            Some(r) => *r,
            None => return Err(LotteryError::RoundNotFound),
        };
        if round.status != RoundStatus::Open || now >= round.end_time {
            return Err(LotteryError::RoundNotOpen);
        }
        let token = match self.token {
            Some(t) => t,
            None => return Err(LotteryError::NotInitialized),
        };
        let ghost s0 = *self;
        let ghost n = s0.players@[round_id]@.len();
        proof {
            assert(s0.rounds@.contains_key(round_id));
            assert(round.prize_pool == round.ticket_price * n);
            assert(round.ticket_price * n + round.ticket_price == round.ticket_price * (n + 1))
                by (nonlinear_arith);
        }
        round.prize_pool = round.prize_pool + round.ticket_price;
        let mut list = match self.players.remove(&round_id) {
            Some(l) => l,
            None => Vec::new(),
        };
        list.push(user);
        self.players.insert(round_id, list);
        self.rounds.insert(round_id, round);
        proof {
            assert(self.lists() =~= s0.lists().insert(round_id, s0.lists()[round_id].push(user)));
            assert(self.players@.dom() =~= self.rounds@.dom());
            assert forall|k: u32| #[trigger] self.rounds@.contains_key(k) implies round_ok(
                k,
                self.rounds@[k],
                self.players@[k]@,
            ) by {
                if k != round_id {
                    assert(s0.rounds@.contains_key(k));
                }
            }
        }
        Ok(TokenTransfer { token, from: user, to: contract, amount: round.ticket_price })
    }

    /// Which round a draw at `now` settles, or why none: the current round
    /// must still be open and its end time reached.
    pub open spec fn spec_draw(self, now: u64) -> Result<u32, LotteryError> {
        match self.current_round {
            None => Err(LotteryError::NotInitialized),
            Some(id) => if !self.rounds@.contains_key(id) {
                Err(LotteryError::RoundNotFound)
            } else if self.rounds@[id].status != RoundStatus::Open {
                Err(LotteryError::WinnerAlreadyDrawn)
            } else if now < self.rounds@[id].end_time {
                Err(LotteryError::RoundStillActive)
            } else {
                Ok(id)
            },
        }
    }

    /// The state after a draw at `now` with draw number `rand`.
    pub open spec fn spec_drawn(self, now: u64, rand: int, r: Result<(), LotteryError>, after: Self) -> bool {
        match self.spec_draw(now) {
            Err(e) => r == Err::<(), LotteryError>(e) && after == self,
            Ok(id) => {
                &&& r == Ok::<(), LotteryError>(())
                &&& after.rounds@ == self.rounds@.insert(
                    id,
                    drawn_round(self.rounds@[id], self.lists()[id], rand),
                )
                &&& after == (Self { rounds: after.rounds, ..self })
            },
        }
    }

    /// Completes the current round at `now` with draw number `rand`: the
    /// winner is the player at position `rand` modulo the number of players
    /// (a round nobody entered completes with no winner).
    pub fn draw_with_random(&mut self, now: u64, rand: u64) -> (r: Result<(), LotteryError>)
        requires
            old(self).wf(),
        ensures
            final(self).wf(),
            old(self).spec_drawn(now, rand as int, r, *final(self)),
    {
        let round_id: u32 = match self.current_round {
            Some(n) => n,
            None => return Err(LotteryError::NotInitialized),
        };
        let mut round = match self.rounds.get(&round_id) {
            Some(r) => *r,
            None => return Err(LotteryError::RoundNotFound),
        };
        if round.status != RoundStatus::Open {
            return Err(LotteryError::WinnerAlreadyDrawn);
        }
        if now < round.end_time {
            return Err(LotteryError::RoundStillActive);
        }
        let ghost s0 = *self;
        proof {
            assert(s0.rounds@.contains_key(round_id));
            assert(s0.players@.contains_key(round_id));
        }
        let winner = match self.players.get(&round_id) {
            Some(list) => {
                if list.len() == 0 {
                    None
                } else {
                    let idx = (rand % (list.len() as u64)) as usize;
                    proof {
                        assert(list@.contains(list@[idx as int]));
                    }
                    Some(list[idx])
                }
            },
            None => None,
        };
        round.winner = winner;
        round.status = RoundStatus::Completed;
        self.rounds.insert(round_id, round);
        proof {
            assert(s0.lists()[round_id] == s0.players@[round_id]@);
            assert(self.players@.dom() =~= self.rounds@.dom());
            assert forall|k: u32| #[trigger] self.rounds@.contains_key(k) implies round_ok(
                k,
                self.rounds@[k],
                self.players@[k]@,
            ) by {
                if k != round_id {
                    assert(s0.rounds@.contains_key(k));
                }
            }
        }
        Ok(())
    }

    /// Draws the current round's winner at `now` from the hash of ledger
    /// sequence `sequence` (see `draw_with_random`).
    pub fn draw_winner(&mut self, env: &Env, now: u64, sequence: u32) -> (r: Result<(), LotteryError>)
        requires
            old(self).wf(),
        ensures
            final(self).wf(),
            old(self).spec_drawn(now, sequence_draw(sequence) as int, r, *final(self)),
    {
        let rand = generate_random(env, sequence);
        self.draw_with_random(now, rand)
    }

    /// Whether `user` may claim round `round_id`'s prize, or why not.
    pub open spec fn spec_claim(self, user: AccountId, round_id: u32) -> Result<(), LotteryError> {
        if !self.rounds@.contains_key(round_id) {
            Err(LotteryError::RoundNotFound)
        } else if self.rounds@[round_id].status != RoundStatus::Completed {
            Err(LotteryError::RoundNotCompleted)
        } else if self.rounds@[round_id].claimed {
            Err(LotteryError::PrizeAlreadyClaimed)
        } else if self.rounds@[round_id].winner != Some(user) {
            Err(LotteryError::NotWinner)
        } else if self.token is None {
            Err(LotteryError::NotInitialized)
        } else {
            Ok(())
        }
    }

    /// A round once its prize is claimed: the pool emptied and marked paid.
    pub open spec fn claimed_round(rd: LotteryRound) -> LotteryRound {
        LotteryRound { prize_pool: 0, claimed: true, ..rd }
    }

    /// The winner of completed round `round_id` takes the whole prize pool
    /// (once). Returns the payout to perform (from `contract` to `user`).
    pub fn claim_prize(&mut self, contract: AccountId, user: AccountId, round_id: u32) -> (r: Result<
        TokenTransfer,
        LotteryError,
    >)
        requires
            old(self).wf(),
        ensures
            final(self).wf(),
            match old(self).spec_claim(user, round_id) {
                Err(e) => r == Err::<TokenTransfer, LotteryError>(e) && *final(self) == *old(
                    self,
                ),
                Ok(_) => {
                    &&& r == Ok::<TokenTransfer, LotteryError>(
                        TokenTransfer {
                            token: old(self).token->0,
                            from: contract,
                            to: user,
                            amount: old(self).rounds@[round_id].prize_pool,
                        },
                    )
                    &&& final(self).rounds@ == old(self).rounds@.insert(
                        round_id,
                        Self::claimed_round(old(self).rounds@[round_id]),
                    )
                    &&& *final(self) == (Self { rounds: final(self).rounds, ..*old(self) })
                },
            },
    {
        let mut round = match self.rounds.get(&round_id) {
            Some(r) => *r,
            None => return Err(LotteryError::RoundNotFound),
        };
        if round.status != RoundStatus::Completed {
            return Err(LotteryError::RoundNotCompleted);
        }
        if round.claimed {
            return Err(LotteryError::PrizeAlreadyClaimed);
        }
        if round.winner != Some(user) {
            return Err(LotteryError::NotWinner);
        }
        let token = match self.token {
            Some(t) => t,
            None => return Err(LotteryError::NotInitialized),
        };
        let ghost s0 = *self;
        let amount = round.prize_pool;
        round.prize_pool = 0;
        round.claimed = true;
        self.rounds.insert(round_id, round);
        proof {
            assert(self.players@.dom() =~= self.rounds@.dom());
            assert forall|k: u32| #[trigger] self.rounds@.contains_key(k) implies round_ok(
                k,
                self.rounds@[k],
                self.players@[k]@,
            ) by {
                assert(s0.rounds@.contains_key(k));
            }
        }
        Ok(TokenTransfer { token, from: contract, to: user, amount })
    }

    /// Whether the owner may cancel the current round, or why not.
    pub open spec fn spec_cancel(self) -> Result<u32, LotteryError> {
        if self.owner is None {
            Err(LotteryError::NotInitialized)
        } else {
            match self.current_round {
                None => Err(LotteryError::NotInitialized),
                Some(id) => if !self.rounds@.contains_key(id) {
                    Err(LotteryError::RoundNotFound)
                } else {
                    Ok(id)
                },
            }
        }
    }

    /// Marks the current round cancelled, whatever its status.
    pub fn cancel_round(&mut self) -> (r: Result<(), LotteryError>)
        requires
            old(self).wf(),
        ensures
            final(self).wf(),
            match old(self).spec_cancel() {
                Err(e) => r == Err::<(), LotteryError>(e) && *final(self) == *old(self),
                Ok(id) => {
                    &&& r == Ok::<(), LotteryError>(())
                    &&& final(self).rounds@ == old(self).rounds@.insert(
                        id,
                        LotteryRound { status: RoundStatus::Cancelled, ..old(self).rounds@[id] },
                    )
                    &&& *final(self) == (Self { rounds: final(self).rounds, ..*old(self) })
                },
            },
    {
        if self.owner.is_none() {
            return Err(LotteryError::NotInitialized);
        }
        let round_id: u32 = match self.current_round {
            Some(n) => n,
            None => return Err(LotteryError::NotInitialized),
        };
        let mut round = match self.rounds.get(&round_id) {
            Some(r) => *r,
            None => return Err(LotteryError::RoundNotFound),
        };
        let ghost s0 = *self;
        round.status = RoundStatus::Cancelled;
        self.rounds.insert(round_id, round);
        proof {
            assert(self.players@.dom() =~= self.rounds@.dom());
            assert forall|k: u32| #[trigger] self.rounds@.contains_key(k) implies round_ok(
                k,
                self.rounds@[k],
                self.players@[k]@,
            ) by {
                assert(s0.rounds@.contains_key(k));
            }
        }
        Ok(())
    }

    /// Refunds one ticket price of cancelled round `round_id` to `user`.
    /// Refunds are not recorded, and not limited to the round's players:
    /// the storage is left as it was. Returns the payment to perform (from
    /// `contract` to `user`).
    pub fn refund(&self, contract: AccountId, round_id: u32, user: AccountId) -> (r: Result<
        TokenTransfer,
        LotteryError,
    >)
        ensures
            r == (if !self.rounds@.contains_key(round_id) {
                Err(LotteryError::RoundNotFound)
            } else if self.rounds@[round_id].status != RoundStatus::Cancelled {
                Err(LotteryError::RoundNotCancelled)
            } else if self.token is None {
                Err(LotteryError::NotInitialized)
            } else {
                Ok(
                    TokenTransfer {
                        token: self.token->0,
                        from: contract,
                        to: user,
                        amount: self.rounds@[round_id].ticket_price,
                    },
                )
            }),
    {
        let round = match self.rounds.get(&round_id) {
            Some(r) => *r,
            None => return Err(LotteryError::RoundNotFound),
        };
        if round.status != RoundStatus::Cancelled {
            return Err(LotteryError::RoundNotCancelled);
        }
        match self.token {
            Some(token) => Ok(
                TokenTransfer { token, from: contract, to: user, amount: round.ticket_price },
            ),
            None => Err(LotteryError::NotInitialized),
        }
    }

    /// The stored round `round_id`.
    pub fn get_round(&self, round_id: u32) -> (r: Option<LotteryRound>)
        ensures
            r == (if self.rounds@.contains_key(round_id) {
                Some(self.rounds@[round_id])
            } else {
                None
            }),
    {
        match self.rounds.get(&round_id) {
            Some(r) => Some(*r),
            None => None,
        }
    }
}

/// A round's prize pool is one ticket price per ticket sold until the prize
/// is claimed, and its winner, once drawn, is one of the ticket buyers.
pub proof fn lemma_pool_is_ticket_sales(s: LotteryContract, round_id: u32)
    requires
        s.wf(),
        s.rounds@.contains_key(round_id),
    ensures
        !s.rounds@[round_id].claimed ==> s.rounds@[round_id].prize_pool
            == s.rounds@[round_id].ticket_price * s.lists()[round_id].len(),
        s.rounds@[round_id].winner matches Some(w) ==> s.lists()[round_id].contains(w),
{
}

/// A prize is paid once: after a successful claim, every further claim of
/// the round is refused as already claimed.
pub proof fn lemma_prize_claimed_once(
    s: LotteryContract,
    after: LotteryContract,
    user: AccountId,
    round_id: u32,
    other: AccountId,
)
    requires
        s.spec_claim(user, round_id) is Ok,
        after.rounds@ == s.rounds@.insert(
            round_id,
            LotteryContract::claimed_round(s.rounds@[round_id]),
        ),
    ensures
        after.spec_claim(other, round_id) == Err::<(), LotteryError>(
            LotteryError::PrizeAlreadyClaimed,
        ),
{
}

} // verus!
