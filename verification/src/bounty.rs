//! Puzzle bounties: a creator escrows a reward; a solver accepts and submits
//! before expiry; the creator approves (paying the solver) or, when open or
//! expired, cancels (refunded); either party may raise a dispute that the
//! admin settles by splitting the reward.
use std::collections::HashMap;
use vstd::prelude::*;

use crate::token::TokenTransfer;

verus! {

broadcast use vstd::std_specs::hash::group_hash_axioms;

/// An account or contract address, identified by a number.
pub type AccountId = u64;

#[derive(Clone, Copy, Debug, PartialEq, Eq, Structural)]
pub enum BountyError {
    AlreadyInitialized,
    AmountNotPositive,
    BountyNotFound,
    NotOpen,
    Expired,
    NotAccepted,
    NotAssignedSolver,
    NotCreator,
    NoSubmission,
    NoSolver,
    CannotCancel,
    NotParty,
    CannotDispute,
    NoAdmin,
    NotAdmin,
    NotDisputed,
    InvalidPayout,
}

#[derive(Clone, Copy, Debug, PartialEq, Eq, Structural)]
pub enum BountyStatus {
    Open,
    Accepted,
    Submitted,
    Completed,
    Cancelled,
    Disputed,
}

#[derive(Clone, Copy, Debug, PartialEq, Eq, Structural)]
pub struct Bounty {
    pub id: u32,
    pub creator: AccountId,
    pub token: AccountId,
    pub amount: i128,
    pub puzzle_id: Option<u32>,
    pub solver: Option<AccountId>,
    pub expiration: u64,
    pub status: BountyStatus,
}

/// The contract's storage.
pub struct BountyContract {
    pub admin: Option<AccountId>,
    pub bounty_count: Option<u32>,
    pub bounties: HashMap<u32, Bounty>,
}

/// Open, accepted or submitted: the bounty is still in play.
pub open spec fn is_active(b: Bounty) -> bool {
    b.status == BountyStatus::Open || b.status == BountyStatus::Accepted || b.status
        == BountyStatus::Submitted
}

impl BountyContract {
    pub open spec fn count(self) -> u32 {
        match self.bounty_count {
            Some(n) => n,
            None => 0,
        }
    }

    pub fn new() -> (r: Self)
        ensures
            r.admin is None && r.bounty_count is None,
            r.bounties@ == Map::<u32, Bounty>::empty(),
    {
        BountyContract { admin: None, bounty_count: None, bounties: HashMap::new() }
    }

    /// Sets the admin (once) and the bounty counter to 0.
    pub fn initialize(&mut self, admin: AccountId) -> (r: Result<(), BountyError>)
        ensures
            r == (if old(self).admin is Some {
                Err(BountyError::AlreadyInitialized)
            } else {
                Ok(())
            }),
            r.is_err() ==> *final(self) == *old(self),
            r.is_ok() ==> *final(self) == (Self {
                admin: Some(admin),
                bounty_count: Some(0u32),
                ..*old(self)
            }),
    {
        if self.admin.is_some() {
            return Err(BountyError::AlreadyInitialized);
        }
        self.admin = Some(admin);
        self.bounty_count = Some(0);
        Ok(())
    }

    /// Opens a bounty of `amount` (positive) of `token_address`, expiring
    /// `duration` seconds after `now`, under the next id; the creator
    /// escrows the amount. Returns the id and the deposit to perform.
    pub fn create_bounty(
        &mut self,
        now: u64,
        contract: AccountId,
        creator: AccountId,
        token_address: AccountId,
        amount: i128,
        puzzle_id: Option<u32>,
        duration: u64,
    ) -> (r: Result<(u32, TokenTransfer), BountyError>)
        requires
            amount > 0 ==> old(self).count() < u32::MAX && now + duration <= u64::MAX,
        ensures
            r == (if amount <= 0 {
                Err(BountyError::AmountNotPositive)
            } else {
                Ok(
                    (
                        (old(self).count() + 1) as u32,
                        TokenTransfer { token: token_address, from: creator, to: contract, amount },
                    ),
                )
            }),
            r.is_err() ==> *final(self) == *old(self),
            r matches Ok((id, _)) ==> final(self).bounties@ == old(self).bounties@.insert(
                id,
                Bounty {
                    id,
                    creator,
                    token: token_address,
                    amount,
                    puzzle_id,
                    solver: None,
                    expiration: (now + duration) as u64,
                    status: BountyStatus::Open,
                },
            ) && *final(self) == (Self {
                bounties: final(self).bounties,
                bounty_count: Some(id),
                ..*old(self)
            }),
    {
        if amount <= 0 {
            return Err(BountyError::AmountNotPositive);
        }
        let count: u32 = match self.bounty_count {
            Some(n) => n,
            None => 0,
        } + 1;
        let expiration = now + duration;
        self.bounties.insert(
            count,
            Bounty {
                id: count,
                creator,
                token: token_address,
                amount,
                puzzle_id,
                solver: None,
                expiration,
                status: BountyStatus::Open,
            },
        );
        self.bounty_count = Some(count);
        Ok((count, TokenTransfer { token: token_address, from: creator, to: contract, amount }))
    }

    /// `new` is `self` with bounty `id` replaced by `b`.
    pub open spec fn set_to(self, new: Self, id: u32, b: Bounty) -> bool {
        &&& new.bounties@ == self.bounties@.insert(id, b)
        &&& new == (Self { bounties: new.bounties, ..self })
    }

    fn put(&mut self, id: u32, b: Bounty)
        ensures
            old(self).set_to(*final(self), id, b),
    {
        self.bounties.insert(id, b);
    }

    /// Accepts an open, unexpired bounty for `solver`.
    pub fn accept_bounty(&mut self, now: u64, solver: AccountId, bounty_id: u32) -> (r: Result<(), BountyError>)
        ensures
            r == (if !old(self).bounties@.contains_key(bounty_id) {
                Err(BountyError::BountyNotFound)
            } else if old(self).bounties@[bounty_id].status != BountyStatus::Open {
                Err(BountyError::NotOpen)
            } else if now > old(self).bounties@[bounty_id].expiration {
                Err(BountyError::Expired)
            } else {
                Ok(())
            }),
            r.is_err() ==> *final(self) == *old(self),
            r.is_ok() ==> old(self).set_to(
                *final(self),
                bounty_id,
                Bounty {
                    solver: Some(solver),
                    status: BountyStatus::Accepted,
                    ..old(self).bounties@[bounty_id]
                },
            ),
    {
        let mut b = match self.bounties.get(&bounty_id) {
            Some(b) => *b,
            None => return Err(BountyError::BountyNotFound),
        };
        if b.status != BountyStatus::Open {
            return Err(BountyError::NotOpen);
        }
        if now > b.expiration {
            return Err(BountyError::Expired);
        }
        b.solver = Some(solver);
        b.status = BountyStatus::Accepted;
        self.put(bounty_id, b);
        Ok(())
    }

    /// The assigned solver submits a solution to an accepted, unexpired
    /// bounty.
    pub fn submit_solution(&mut self, now: u64, solver: AccountId, bounty_id: u32) -> (r: Result<(), BountyError>)
        ensures
            r == (if !old(self).bounties@.contains_key(bounty_id) {
                Err(BountyError::BountyNotFound)
            } else if old(self).bounties@[bounty_id].status != BountyStatus::Accepted {
                Err(BountyError::NotAccepted)
            } else if old(self).bounties@[bounty_id].solver != Some(solver) {
                Err(BountyError::NotAssignedSolver)
            } else if now > old(self).bounties@[bounty_id].expiration {
                Err(BountyError::Expired)
            } else {
                Ok(())
            }),
            r.is_err() ==> *final(self) == *old(self),
            r.is_ok() ==> old(self).set_to(
                *final(self),
                bounty_id,
                Bounty { status: BountyStatus::Submitted, ..old(self).bounties@[bounty_id] },
            ),
    {
        let mut b = match self.bounties.get(&bounty_id) {
            Some(b) => *b,
            None => return Err(BountyError::BountyNotFound),
        };
        if b.status != BountyStatus::Accepted {
            return Err(BountyError::NotAccepted);
        }
        if b.solver != Some(solver) {
            return Err(BountyError::NotAssignedSolver);
        }
        if now > b.expiration {
            return Err(BountyError::Expired);
        }
        b.status = BountyStatus::Submitted;
        self.put(bounty_id, b);
        Ok(())
    }

    /// The creator approves a submission: the reward goes to the solver and
    /// the bounty is completed. Returns the payout to perform.
    pub fn approve_submission(&mut self, contract: AccountId, creator: AccountId, bounty_id: u32) -> (r:
        Result<TokenTransfer, BountyError>)
        ensures
            r == (if !old(self).bounties@.contains_key(bounty_id) {
                Err(BountyError::BountyNotFound)
            } else {
                let b = old(self).bounties@[bounty_id];
                if b.creator != creator {
                    Err(BountyError::NotCreator)
                } else if b.status != BountyStatus::Submitted {
                    Err(BountyError::NoSubmission)
                } else {
                    match b.solver {
                        None => Err(BountyError::NoSolver),
                        Some(s) => Ok(TokenTransfer { token: b.token, from: contract, to: s, amount: b.amount }),
                    }
                }
            }),
            r.is_err() ==> *final(self) == *old(self),
            r.is_ok() ==> old(self).set_to(
                *final(self),
                bounty_id,
                Bounty { status: BountyStatus::Completed, ..old(self).bounties@[bounty_id] },
            ),
    {
        let mut b = match self.bounties.get(&bounty_id) {
            Some(b) => *b,
            None => return Err(BountyError::BountyNotFound),
        };
        if b.creator != creator {
            return Err(BountyError::NotCreator);
        }
        if b.status != BountyStatus::Submitted {
            return Err(BountyError::NoSubmission);
        }
        let solver = match b.solver {
            Some(s) => s,
            None => return Err(BountyError::NoSolver),
        };
        b.status = BountyStatus::Completed;
        self.put(bounty_id, b);
        Ok(TokenTransfer { token: b.token, from: contract, to: solver, amount: b.amount })
    }

    /// Whether the creator may cancel at `now`: an open bounty at any time,
    /// an accepted or submitted one once expired.
    pub open spec fn can_cancel(b: Bounty, now: u64) -> bool {
        match b.status {
            BountyStatus::Open => true,
            BountyStatus::Accepted | BountyStatus::Submitted => now > b.expiration,
            _ => false,
        }
    }

    /// The creator cancels: refunded, the bounty is cancelled. Returns the
    /// refund to perform.
    pub fn cancel_bounty(&mut self, now: u64, contract: AccountId, creator: AccountId, bounty_id: u32) -> (r:
        Result<TokenTransfer, BountyError>)
        ensures
            r == (if !old(self).bounties@.contains_key(bounty_id) {
                Err(BountyError::BountyNotFound)
            } else {
                let b = old(self).bounties@[bounty_id];
                if b.creator != creator {
                    Err(BountyError::NotCreator)
                } else if !Self::can_cancel(b, now) {
                    Err(BountyError::CannotCancel)
                } else {
                    Ok(TokenTransfer { token: b.token, from: contract, to: creator, amount: b.amount })
                }
            }),
            r.is_err() ==> *final(self) == *old(self),
            r.is_ok() ==> old(self).set_to(
                *final(self),
                bounty_id,
                Bounty { status: BountyStatus::Cancelled, ..old(self).bounties@[bounty_id] },
            ),
    {
        let mut b = match self.bounties.get(&bounty_id) {
            Some(b) => *b,
            None => return Err(BountyError::BountyNotFound),
        };
        if b.creator != creator {
            return Err(BountyError::NotCreator);
        }
        let can_cancel = match b.status {
            BountyStatus::Open => true,
            BountyStatus::Accepted | BountyStatus::Submitted => now > b.expiration,
            _ => false,
        };
        if !can_cancel {
            return Err(BountyError::CannotCancel);
        }
        b.status = BountyStatus::Cancelled;
        self.put(bounty_id, b);
        Ok(TokenTransfer { token: b.token, from: contract, to: creator, amount: b.amount })
    }

    /// The creator or the solver disputes an accepted or submitted bounty.
    pub fn dispute_bounty(&mut self, caller: AccountId, bounty_id: u32) -> (r: Result<(), BountyError>)
        ensures
            r == (if !old(self).bounties@.contains_key(bounty_id) {
                Err(BountyError::BountyNotFound)
            } else {
                let b = old(self).bounties@[bounty_id];
                if caller != b.creator && Some(caller) != b.solver {
                    Err(BountyError::NotParty)
                } else if b.status != BountyStatus::Submitted && b.status != BountyStatus::Accepted {
                    Err(BountyError::CannotDispute)
                } else {
                    Ok(())
                }
            }),
            r.is_err() ==> *final(self) == *old(self),
            r.is_ok() ==> old(self).set_to(
                *final(self),
                bounty_id,
                Bounty { status: BountyStatus::Disputed, ..old(self).bounties@[bounty_id] },
            ),
    {
        let mut b = match self.bounties.get(&bounty_id) {
            Some(b) => *b,
            None => return Err(BountyError::BountyNotFound),
        };
        if caller != b.creator && Some(caller) != b.solver {
            return Err(BountyError::NotParty);
        }
        if b.status != BountyStatus::Submitted && b.status != BountyStatus::Accepted {
            return Err(BountyError::CannotDispute);
        }
        b.status = BountyStatus::Disputed;
        self.put(bounty_id, b);
        Ok(())
    }

    /// The checks of a resolution, in the contract's order.
    pub open spec fn spec_resolve_check(self, admin: AccountId, id: u32, solver_payout: i128) -> Result<(), BountyError> {
        if self.admin is None {
            Err(BountyError::NoAdmin)
        } else if self.admin != Some(admin) {
            Err(BountyError::NotAdmin)
        } else if !self.bounties@.contains_key(id) {
            Err(BountyError::BountyNotFound)
        } else {
            let b = self.bounties@[id];
            if b.status != BountyStatus::Disputed {
                Err(BountyError::NotDisputed)
            } else if solver_payout < 0 || solver_payout > b.amount {
                Err(BountyError::InvalidPayout)
            } else if solver_payout > 0 && b.solver is None {
                Err(BountyError::NoSolver)
            } else {
                Ok(())
            }
        }
    }

    /// The admin settles a dispute: `solver_payout` (0..=amount) to the
    /// solver, the rest back to the creator; the bounty is completed.
    /// Returns the positive payouts to perform.
    pub fn resolve_dispute(&mut self, contract: AccountId, admin: AccountId, bounty_id: u32, solver_payout: i128) -> (r:
        Result<(Option<TokenTransfer>, Option<TokenTransfer>), BountyError>)
        ensures
            old(self).spec_resolve_check(admin, bounty_id, solver_payout) matches Err(e) ==> r == Err::<
                (Option<TokenTransfer>, Option<TokenTransfer>),
                BountyError,
            >(e) && *final(self) == *old(self),
            old(self).spec_resolve_check(admin, bounty_id, solver_payout) is Ok ==> {
                let b = old(self).bounties@[bounty_id];
                let rest = (b.amount - solver_payout) as i128;
                &&& r == Ok::<(Option<TokenTransfer>, Option<TokenTransfer>), BountyError>(
                    (
                        if solver_payout > 0 {
                            Some(
                                TokenTransfer {
                                    token: b.token,
                                    from: contract,
                                    to: b.solver->Some_0,
                                    amount: solver_payout,
                                },
                            )
                        } else {
                            None
                        },
                        if rest > 0 {
                            Some(TokenTransfer { token: b.token, from: contract, to: b.creator, amount: rest })
                        } else {
                            None
                        },
                    ),
                )
                &&& old(self).set_to(
                    *final(self),
                    bounty_id,
                    Bounty { status: BountyStatus::Completed, ..b },
                )
            },
    {
        let stored = match self.admin {
            Some(a) => a,
            None => return Err(BountyError::NoAdmin),
        };
        if admin != stored {
            return Err(BountyError::NotAdmin);
        }
        let mut b = match self.bounties.get(&bounty_id) {
            Some(b) => *b,
            None => return Err(BountyError::BountyNotFound),
        };
        if b.status != BountyStatus::Disputed {
            return Err(BountyError::NotDisputed);
        }
        if solver_payout < 0 || solver_payout > b.amount {
            return Err(BountyError::InvalidPayout);
        }
        let creator_payout = b.amount - solver_payout;
        let to_solver = if solver_payout > 0 {
            match b.solver {
                Some(s) => Some(TokenTransfer { token: b.token, from: contract, to: s, amount: solver_payout }),
                None => return Err(BountyError::NoSolver),
            }
        } else {
            None
        };
        let to_creator = if creator_payout > 0 {
            Some(TokenTransfer { token: b.token, from: contract, to: b.creator, amount: creator_payout })
        } else {
            None
        };
        b.status = BountyStatus::Completed;
        self.put(bounty_id, b);
        Ok((to_solver, to_creator))
    }

    /// The bounties in play among ids `lo..hi`, in id order.
    pub open spec fn active_in(self, lo: int, hi: int) -> Seq<Bounty>
        decreases hi - lo,
    {
        if hi <= lo {
            Seq::empty()
        } else {
            let rest = self.active_in(lo, hi - 1);
            let id = (hi - 1) as u32;
            if self.bounties@.contains_key(id) && is_active(self.bounties@[id]) {
                rest.push(self.bounties@[id])
            } else {
                rest
            }
        }
    }

    /// The bounties in play among ids `offset + 1 ..` up to `limit` ids (and
    /// not past the count); none when `offset` exceeds the count.
    pub fn get_active_bounties(&self, offset: u32, limit: u32) -> (r: Vec<Bounty>)
        requires
            offset <= self.count() ==> offset + limit <= u32::MAX && self.count() < u32::MAX,
        ensures
            r@ == (if offset > self.count() {
                Seq::<Bounty>::empty()
            } else {
                let end = if offset + limit < self.count() + 1 {
                    offset + limit
                } else {
                    self.count() + 1
                };
                self.active_in(offset + 1, end)
            }),
    {
        let count: u32 = match self.bounty_count {
            Some(n) => n,
            None => 0,
        };
        let mut out: Vec<Bounty> = Vec::new();
        if offset > count {
            return out;
        }
        let end: u32 = if offset + limit < count + 1 {
            offset + limit
        } else {
            count + 1
        };
        let mut i: u32 = offset + 1;
        if i >= end {
            return out;
        }
        while i < end
            invariant
                offset + 1 <= i <= end,
                out@ == self.active_in(offset + 1, i as int),
            decreases end - i,
        {
            match self.bounties.get(&i) {
                Some(b) => {
                    if b.status == BountyStatus::Open || b.status == BountyStatus::Accepted || b.status
                        == BountyStatus::Submitted {
                        out.push(*b);
                    }
                },
                None => {},
            }
            i = i + 1;
        }
        out
    }

    pub fn get_bounty(&self, bounty_id: u32) -> (r: Option<Bounty>)
        ensures
            r == (if self.bounties@.contains_key(bounty_id) {
                Some(self.bounties@[bounty_id])
            } else {
                None
            }),
    {
        match self.bounties.get(&bounty_id) {
            Some(b) => Some(*b),
            None => None,
        }
    }

    pub fn get_bounty_count(&self) -> (r: u32)
        ensures
            r == self.count(),
    {
        match self.bounty_count {
            Some(n) => n,
            None => 0,
        }
    }
}

/// A settled dispute pays out exactly the escrowed reward: the solver's
/// share and the creator's rest add up to the amount.
pub proof fn lemma_resolution_splits_reward(b: Bounty, solver_payout: i128)
    requires
        0 <= solver_payout <= b.amount,
    ensures
        solver_payout + (b.amount - solver_payout) == b.amount,
        0 <= b.amount - solver_payout <= b.amount,
{
}

/// Completed and cancelled bounties are final: no acceptance, submission,
/// approval, cancellation, dispute or resolution goes through on them.
pub proof fn lemma_terminal_states(s: BountyContract, id: u32, now: u64, who: AccountId, payout: i128)
    requires
        s.bounties@.contains_key(id),
        s.bounties@[id].status == BountyStatus::Completed || s.bounties@[id].status
            == BountyStatus::Cancelled,
    ensures
        s.bounties@[id].status != BountyStatus::Open,
        s.bounties@[id].status != BountyStatus::Accepted,
        s.bounties@[id].status != BountyStatus::Submitted,
        !BountyContract::can_cancel(s.bounties@[id], now),
        s.spec_resolve_check(who, id, payout) is Err,
{
}

} // verus!
