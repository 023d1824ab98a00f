//! An M-of-N escrow: a depositor locks an amount for a beneficiary; a fixed
//! list of signers votes to release it to the beneficiary or refund it to
//! the depositor, and the first side to reach the threshold may be carried
//! out. Depositor or beneficiary may instead raise a dispute, which freezes
//! the votes and hands the case to the arbitrator (release, refund or a
//! floor split). The depositor may cancel before any vote, and anyone may
//! expire an escrow that outlived its deadline.
use std::collections::HashMap;
use vstd::prelude::*;

use crate::common::position_u64;
use crate::token::TokenTransfer;

verus! {

broadcast use vstd::std_specs::hash::group_hash_axioms;

/// An account or contract address, identified by a number.
pub type AccountId = u64;

#[derive(Clone, Copy, Debug, PartialEq, Eq, Structural)]
pub enum EscrowError {
    AlreadyInitialized,
    NotInitialized,
    NotAuthorized,
    EscrowNotFound,
    InvalidState,
    InvalidConfig,
    ZeroAmount,
    EmptySigners,
    InvalidThreshold,
    DuplicateSigner,
    AlreadyVoted,
    NotASigner,
    NotDepositor,
    NoArbitrator,
    NotArbitrator,
    NotExpired,
    ThresholdNotMet,
    AlreadyFunded,
    NotParty,
    AlreadyDisputed,
    InvalidDisputeCaster,
}

#[derive(Clone, Copy, Debug, PartialEq, Eq, Structural)]
pub enum EscrowState {
    Pending,
    Active,
    Released,
    Refunded,
    Disputed,
    Cancelled,
    Expired,
}

#[derive(Clone, Copy, Debug, PartialEq, Eq, Structural)]
pub enum VoteAction {
    ApproveRelease,
    ApproveRefund,
}

#[derive(Clone, Copy, Debug, PartialEq, Eq, Structural)]
pub enum DisputeResolution {
    Release,
    Refund,
    /// The beneficiary gets half, rounded down; the depositor the rest.
    Split,
}

#[derive(Clone, Copy, Debug)]
pub struct Dispute {
    pub raised_by: AccountId,
    pub raised_at: u64,
    pub evidence_hash: Option<[u8; 32]>,
    pub resolution: Option<DisputeResolution>,
    pub resolved_at: Option<u64>,
}

#[derive(Clone, Debug)]
pub struct Escrow {
    pub id: u64,
    pub depositor: AccountId,
    pub beneficiary: AccountId,
    pub token: AccountId,
    pub amount: i128,
    pub signers: Vec<AccountId>,
    pub threshold: u32,
    pub arbitrator: Option<AccountId>,
    pub created_at: u64,
    pub expires_at: u64,
    pub funded: bool,
    pub state: EscrowState,
    pub dispute: Option<Dispute>,
}

#[derive(Clone, Copy, Debug, PartialEq, Eq, Structural)]
pub struct EscrowStats {
    pub release_votes: u32,
    pub refund_votes: u32,
    pub voted: u32,
    pub threshold: u32,
    pub funded: bool,
    pub state: EscrowState,
    pub created_at: u64,
    pub expires_at: u64,
    pub now: u64,
}

/// The contract's storage.
pub struct MultisigEscrowContract {
    pub admin: Option<AccountId>,
    pub counter: u64,
    pub escrows: HashMap<u64, Escrow>,
    /// For each escrow, the vote of each signer, position by position.
    pub ballots: HashMap<u64, Vec<Option<VoteAction>>>,
    pub release_count: HashMap<u64, u32>,
    pub refund_count: HashMap<u64, u32>,
}

/// How many of `b` are a vote for `a`.
pub open spec fn tally(b: Seq<Option<VoteAction>>, a: VoteAction) -> nat
    decreases b.len(),
{
    if b.len() == 0 {
        0
    } else {
        tally(b.drop_last(), a) + if b.last() == Some(a) {
            1nat
        } else {
            0nat
        }
    }
}

/// Whether some value occurs twice in `s`.
pub open spec fn has_repeat(s: Seq<AccountId>) -> bool {
    exists|i: int, j: int| 0 <= i < j < s.len() && s[i] == s[j]
}

/// The two tallies together count at most one vote per position.
pub proof fn lemma_tallies_bounded(b: Seq<Option<VoteAction>>)
    ensures
        tally(b, VoteAction::ApproveRelease) + tally(b, VoteAction::ApproveRefund) <= b.len(),
    decreases b.len(),
{
    if b.len() > 0 {
        lemma_tallies_bounded(b.drop_last());
    }
}

/// Ballots where nobody voted yet tally nothing.
pub proof fn lemma_tally_blank(b: Seq<Option<VoteAction>>, a: VoteAction)
    requires
        forall|i: int| 0 <= i < b.len() ==> b[i] is None,
    ensures
        tally(b, a) == 0,
    decreases b.len(),
{
    if b.len() > 0 {
        lemma_tally_blank(b.drop_last(), a);
    }
}

/// Filling a blank position with a vote for `v` adds one to the tally of
/// `v` and leaves the tally of every other action alone.
pub proof fn lemma_tally_cast(b: Seq<Option<VoteAction>>, i: int, v: VoteAction, a: VoteAction)
    requires
        0 <= i < b.len(),
        b[i] is None,
    ensures
        tally(b.update(i, Some(v)), a) == tally(b, a) + if v == a {
            1nat
        } else {
            0nat
        },
    decreases b.len(),
{
    let c = b.update(i, Some(v));
    if i == b.len() - 1 {
        assert(c.drop_last() =~= b.drop_last());
    } else {
        assert(c.drop_last() =~= b.drop_last().update(i, Some(v)));
        lemma_tally_cast(b.drop_last(), i, v, a);
    }
}

/// Whether `who` is in `list`.
pub fn contains_address(list: &Vec<AccountId>, who: AccountId) -> (r: bool)
    ensures
        r == list@.contains(who),
{
    let mut i: usize = 0;
    while i < list.len()
        invariant
            i <= list.len(),
            forall|j: int| 0 <= j < i ==> list@[j] != who,
        decreases list.len() - i,
    {
        if list[i] == who {
            assert(list@[i as int] == who);
            return true;
        }
        i = i + 1;
    }
    false
}

/// Whether some address occurs twice in `list`.
pub fn has_duplicates(list: &Vec<AccountId>) -> (r: bool)
    ensures
        r == has_repeat(list@),
{
    let mut i: usize = 0;
    while i < list.len()
        invariant
            i <= list.len(),
            forall|p: int, q: int| 0 <= p < i && p < q < list@.len() ==> list@[p] != list@[q],
        decreases list.len() - i,
    {
        let a = list[i];
        let mut j: usize = i + 1;
        while j < list.len()
            invariant
                i < list.len(),
                i + 1 <= j <= list.len(),
                a == list@[i as int],
                forall|p: int, q: int| 0 <= p < i && p < q < list@.len() ==> list@[p] != list@[q],
                forall|q: int| i < q < j ==> list@[i as int] != list@[q],
            decreases list.len() - j,
        {
            if a == list[j] {
                assert(list@[i as int] == list@[j as int]);
                return true;
            }
            j = j + 1;
        }
        i = i + 1;
    }
    false
}

/// What an escrow keeps true of itself and its ballots.
pub open spec fn escrow_ok(id: u64, e: Escrow, b: Seq<Option<VoteAction>>, rel: nat, rfd: nat) -> bool {
    &&& e.id == id
    &&& b.len() == e.signers@.len()
    &&& e.amount > 0
    &&& e.signers@.len() <= u32::MAX
    &&& !has_repeat(e.signers@)
    &&& rel == tally(b, VoteAction::ApproveRelease)
    &&& rfd == tally(b, VoteAction::ApproveRefund)
    &&& (e.state == EscrowState::Disputed ==> e.dispute is Some)
    &&& (e.state == EscrowState::Pending ==> !e.funded && e.dispute is None)
    &&& (e.state == EscrowState::Active ==> e.funded && e.dispute is None)
    &&& (e.state == EscrowState::Disputed ==> e.funded)
}

/// The first check that refuses a new escrow, if any.
pub open spec fn create_refusal(
    initialized: bool,
    now: u64,
    depositor: AccountId,
    beneficiary: AccountId,
    amount: i128,
    signers: Seq<AccountId>,
    threshold: u32,
    expires_at: u64,
) -> Option<EscrowError> {
    if !initialized {
        Some(EscrowError::NotInitialized)
    } else if amount <= 0 {
        Some(EscrowError::ZeroAmount)
    } else if signers.len() == 0 {
        Some(EscrowError::EmptySigners)
    } else if threshold == 0 || threshold > signers.len() {
        Some(EscrowError::InvalidThreshold)
    } else if has_repeat(signers) {
        Some(EscrowError::DuplicateSigner)
    } else if signers.contains(depositor) || signers.contains(beneficiary) {
        Some(EscrowError::InvalidConfig)
    } else if expires_at <= now {
        Some(EscrowError::InvalidConfig)
    } else {
        None
    }
}

/// `e` is the escrow that a creation with these arguments stores: pending,
/// unfunded, undisputed.
pub open spec fn created_as(
    e: Escrow,
    id: u64,
    now: u64,
    depositor: AccountId,
    beneficiary: AccountId,
    token: AccountId,
    amount: i128,
    signers: Seq<AccountId>,
    threshold: u32,
    arbitrator: Option<AccountId>,
    expires_at: u64,
) -> bool {
    &&& e.id == id
    &&& e.depositor == depositor
    &&& e.beneficiary == beneficiary
    &&& e.token == token
    &&& e.amount == amount
    &&& e.signers@ == signers
    &&& e.threshold == threshold
    &&& e.arbitrator == arbitrator
    &&& e.created_at == now
    &&& e.expires_at == expires_at
    &&& !e.funded
    &&& e.state == EscrowState::Pending
    &&& e.dispute is None
}

/// `n` blank ballots.
pub fn blank_ballots(n: usize) -> (r: Vec<Option<VoteAction>>)
    ensures
        r@.len() == n,
        forall|i: int| 0 <= i < n ==> r@[i] is None,
{
    let mut r: Vec<Option<VoteAction>> = Vec::new();
    let mut i: usize = 0;
    while i < n
        invariant
            i <= n,
            r@.len() == i,
            forall|j: int| 0 <= j < i ==> r@[j] is None,
        decreases n - i,
    {
        r.push(None);
        i = i + 1;
    }
    r
}


/// The tokens that a settlement of a dispute pays out of the contract at
/// `contract`.
pub open spec fn settlement(e: Escrow, contract: AccountId, resolution: DisputeResolution) -> Seq<TokenTransfer> {
    match resolution {
        DisputeResolution::Release => seq![
            TokenTransfer { token: e.token, from: contract, to: e.beneficiary, amount: e.amount },
        ],
        DisputeResolution::Refund => seq![
            TokenTransfer { token: e.token, from: contract, to: e.depositor, amount: e.amount },
        ],
        DisputeResolution::Split => seq![
            TokenTransfer { token: e.token, from: contract, to: e.beneficiary, amount: (e.amount / 2) as i128 },
            TokenTransfer {
                token: e.token,
                from: contract,
                to: e.depositor,
                amount: (e.amount - e.amount / 2) as i128,
            },
        ],
    }
}

/// The state a settled dispute leaves: released, unless refunded.
pub open spec fn settled_state(resolution: DisputeResolution) -> EscrowState {
    match resolution {
        DisputeResolution::Refund => EscrowState::Refunded,
        _ => EscrowState::Released,
    }
}

/// The held amount handed back to the depositor, when the contract holds it.
pub open spec fn return_of_deposit(e: Escrow, contract: AccountId) -> Option<TokenTransfer> {
    if e.funded {
        Some(TokenTransfer { token: e.token, from: contract, to: e.depositor, amount: e.amount })
    } else {
        None
    }
}

/// Whether a state is one that no entry point leaves.
pub open spec fn is_terminal(s: EscrowState) -> bool {
    s == EscrowState::Released || s == EscrowState::Refunded || s == EscrowState::Cancelled
        || s == EscrowState::Expired
}

impl MultisigEscrowContract {
    /// Release votes recorded for escrow `id`.
    pub open spec fn rel(self, id: u64) -> nat {
        if self.release_count@.contains_key(id) {
            self.release_count@[id] as nat
        } else {
            0
        }
    }

    /// Refund votes recorded for escrow `id`.
    pub open spec fn rfd(self, id: u64) -> nat {
        if self.refund_count@.contains_key(id) {
            self.refund_count@[id] as nat
        } else {
            0
        }
    }

    /// `new` is this storage with escrow `id` replaced by `e`, and nothing else changed.
    pub open spec fn with_escrow(self, new: Self, id: u64, e: Escrow) -> bool {
        &&& new.escrows@ == self.escrows@.insert(id, e)
        &&& new.admin == self.admin
        &&& new.counter == self.counter
        &&& new.ballots@ == self.ballots@
        &&& new.release_count@ == self.release_count@
        &&& new.refund_count@ == self.refund_count@
    }

    /// `new` is this storage after `signer` cast `action` on escrow `id`:
    /// the vote is recorded and counted, nothing else changes.
    pub open spec fn voted(self, new: Self, signer: AccountId, id: u64, action: VoteAction) -> bool {
        &&& new.escrows@ == self.escrows@
        &&& new.admin == self.admin
        &&& new.counter == self.counter
        &&& new.vote_of(id, signer) == Some(action)
        &&& forall|i: u64, s: AccountId|
            (i != id || s != signer) ==> #[trigger] new.vote_of(i, s) == self.vote_of(i, s)
        &&& new.rel(id) == self.rel(id) + if action == VoteAction::ApproveRelease {
            1nat
        } else {
            0nat
        }
        &&& new.rfd(id) == self.rfd(id) + if action == VoteAction::ApproveRefund {
            1nat
        } else {
            0nat
        }
        &&& forall|i: u64| i != id ==> #[trigger] new.rel(i) == self.rel(i) && new.rfd(i) == self.rfd(i)
    }

    /// The vote that `signer` cast on escrow `id`, if any.
    pub open spec fn vote_of(self, id: u64, signer: AccountId) -> Option<VoteAction> {
        if self.escrows@.contains_key(id) && self.escrows@[id].signers@.contains(signer) {
            let i = choose|i: int| 0 <= i < self.escrows@[id].signers@.len() && self.escrows@[id].signers@[i] == signer;
            self.ballots@[id]@[i]
        } else {
            None
        }
    }

    pub open spec fn fund_refusal(self, depositor: AccountId, id: u64) -> Option<EscrowError> {
        if !self.escrows@.contains_key(id) {
            Some(EscrowError::EscrowNotFound)
        } else if depositor != self.escrows@[id].depositor {
            Some(EscrowError::NotDepositor)
        } else if self.escrows@[id].funded {
            Some(EscrowError::AlreadyFunded)
        } else if self.escrows@[id].state != EscrowState::Pending {
            Some(EscrowError::InvalidState)
        } else {
            None
        }
    }

    pub open spec fn sign_refusal(self, signer: AccountId, id: u64) -> Option<EscrowError> {
        if !self.escrows@.contains_key(id) {
            Some(EscrowError::EscrowNotFound)
        } else if self.escrows@[id].state != EscrowState::Active {
            Some(EscrowError::InvalidState)
        } else if !self.escrows@[id].signers@.contains(signer) {
            Some(EscrowError::NotASigner)
        } else if self.vote_of(id, signer) is Some {
            Some(EscrowError::AlreadyVoted)
        } else {
            None
        }
    }

    /// Why carrying out the side voted for by `votes` would be refused, if it would.
    pub open spec fn payout_refusal(self, id: u64, votes: nat) -> Option<EscrowError> {
        if !self.escrows@.contains_key(id) {
            Some(EscrowError::EscrowNotFound)
        } else if self.escrows@[id].state != EscrowState::Active {
            Some(EscrowError::InvalidState)
        } else if !self.escrows@[id].funded {
            Some(EscrowError::InvalidState)
        } else if votes < self.escrows@[id].threshold {
            Some(EscrowError::ThresholdNotMet)
        } else {
            None
        }
    }

    pub open spec fn dispute_refusal(self, caller: AccountId, id: u64) -> Option<EscrowError> {
        if !self.escrows@.contains_key(id) {
            Some(EscrowError::EscrowNotFound)
        } else if self.escrows@[id].state != EscrowState::Active {
            Some(EscrowError::InvalidState)
        } else if self.escrows@[id].dispute is Some {
            Some(EscrowError::AlreadyDisputed)
        } else if self.escrows@[id].arbitrator is None {
            Some(EscrowError::NoArbitrator)
        } else if caller != self.escrows@[id].depositor && caller != self.escrows@[id].beneficiary {
            Some(EscrowError::InvalidDisputeCaster)
        } else {
            None
        }
    }

    pub open spec fn resolve_refusal(self, arbitrator: AccountId, id: u64) -> Option<EscrowError> {
        if !self.escrows@.contains_key(id) {
            Some(EscrowError::EscrowNotFound)
        } else if self.escrows@[id].state != EscrowState::Disputed {
            Some(EscrowError::InvalidState)
        } else if self.escrows@[id].arbitrator != Some(arbitrator) {
            Some(EscrowError::NotArbitrator)
        } else if !self.escrows@[id].funded {
            Some(EscrowError::InvalidState)
        } else {
            None
        }
    }

    pub open spec fn cancel_refusal(self, depositor: AccountId, id: u64) -> Option<EscrowError> {
        if !self.escrows@.contains_key(id) {
            Some(EscrowError::EscrowNotFound)
        } else if depositor != self.escrows@[id].depositor {
            Some(EscrowError::NotDepositor)
        } else if !(self.escrows@[id].state == EscrowState::Pending || (self.escrows@[id].state
            == EscrowState::Active && self.rel(id) + self.rfd(id) == 0)) {
            Some(EscrowError::InvalidState)
        } else {
            None
        }
    }

    pub open spec fn expire_refusal(self, now: u64, id: u64) -> Option<EscrowError> {
        if !self.escrows@.contains_key(id) {
            Some(EscrowError::EscrowNotFound)
        } else if !(self.escrows@[id].state == EscrowState::Pending || self.escrows@[id].state
            == EscrowState::Active) {
            Some(EscrowError::InvalidState)
        } else if now <= self.escrows@[id].expires_at {
            Some(EscrowError::NotExpired)
        } else {
            None
        }
    }

    pub open spec fn wf(self) -> bool {
        &&& self.admin is None ==> self.escrows@.dom().is_empty()
        &&& forall|k: u64| #[trigger] self.escrows@.contains_key(k) ==> 1 <= k <= self.counter
        &&& self.ballots@.dom() == self.escrows@.dom()
        &&& forall|k: u64| #[trigger] self.release_count@.contains_key(k) ==> self.escrows@.contains_key(k)
        &&& forall|k: u64| #[trigger] self.refund_count@.contains_key(k) ==> self.escrows@.contains_key(k)
        &&& forall|k: u64| #[trigger]
            self.escrows@.contains_key(k) ==> escrow_ok(
                k,
                self.escrows@[k],
                self.ballots@[k]@,
                self.rel(k),
                self.rfd(k),
            )
    }

    pub fn new() -> (r: Self)
        ensures
            r.wf(),
            r.admin is None,
            r.counter == 0,
            r.escrows@ == Map::<u64, Escrow>::empty(),
    {
        MultisigEscrowContract {
            admin: None,
            counter: 0,
            escrows: HashMap::new(),
            ballots: HashMap::new(),
            release_count: HashMap::new(),
            refund_count: HashMap::new(),
        }
    }

    /// Records the administrator, once.
    pub fn initialize(&mut self, admin: AccountId) -> (r: Result<(), EscrowError>)
        requires
            old(self).wf(),
        ensures
            final(self).wf(),
            old(self).admin is Some ==> r == Err::<(), EscrowError>(EscrowError::AlreadyInitialized)
                && *final(self) == *old(self),
            old(self).admin is None ==> r is Ok && final(self).admin == Some(admin) && final(self).counter == 0
                && final(self).escrows@ == old(self).escrows@ && final(self).ballots@ == old(self).ballots@
                && final(self).release_count@ == old(self).release_count@
                && final(self).refund_count@ == old(self).refund_count@,
    {
        if self.admin.is_some() {
            return Err(EscrowError::AlreadyInitialized);
        }
        self.admin = Some(admin);
        self.counter = 0;
        Ok(())
    }

    /// Creates a pending escrow under the next number and returns that
    /// number, unless a check refuses it (see `create_refusal`).
    pub fn create_escrow(
        &mut self,
        now: u64,
        depositor: AccountId,
        beneficiary: AccountId,
        token: AccountId,
        amount: i128,
        signers: Vec<AccountId>,
        threshold: u32,
        arbitrator: Option<AccountId>,
        expires_at: u64,
    ) -> (r: Result<u64, EscrowError>)
        requires
            old(self).wf(),
            old(self).counter < u64::MAX,
            signers@.len() <= u32::MAX,
        ensures
            final(self).wf(),
            match create_refusal(
                old(self).admin is Some,
                now,
                depositor,
                beneficiary,
                amount,
                signers@,
                threshold,
                expires_at,
            ) {
                Some(e) => r == Err::<u64, EscrowError>(e) && *final(self) == *old(self),
                None => {
                    let id = (old(self).counter + 1) as u64;
                    &&& r == Ok::<u64, EscrowError>(id)
                    &&& !old(self).escrows@.contains_key(id)
                    &&& final(self).admin == old(self).admin
                    &&& final(self).counter == id
                    &&& final(self).escrows@.dom() == old(self).escrows@.dom().insert(id)
                    &&& forall|k: u64| k != id && #[trigger] old(self).escrows@.contains_key(k)
                        ==> final(self).escrows@[k] == old(self).escrows@[k]
                    &&& created_as(
                        final(self).escrows@[id],
                        id,
                        now,
                        depositor,
                        beneficiary,
                        token,
                        amount,
                        signers@,
                        threshold,
                        arbitrator,
                        expires_at,
                    )
                    &&& final(self).ballots@ == old(self).ballots@.insert(id, final(self).ballots@[id])
                    &&& final(self).release_count@ == old(self).release_count@
                    &&& final(self).refund_count@ == old(self).refund_count@
                    &&& final(self).rel(id) == 0 && final(self).rfd(id) == 0
                },
            },
    {
        if self.admin.is_none() {
            return Err(EscrowError::NotInitialized);
        }
        if amount <= 0 {
            return Err(EscrowError::ZeroAmount);
        }
        if signers.len() == 0 {
            return Err(EscrowError::EmptySigners);
        }
        if threshold == 0 || threshold as usize > signers.len() {
            return Err(EscrowError::InvalidThreshold);
        }
        if has_duplicates(&signers) {
            return Err(EscrowError::DuplicateSigner);
        }
        // Depositor and beneficiary are parties, not witnesses.
        if contains_address(&signers, depositor) || contains_address(&signers, beneficiary) {
            return Err(EscrowError::InvalidConfig);
        }
        if expires_at <= now {
            return Err(EscrowError::InvalidConfig);
        }
        let id = self.counter + 1;
        let ballots = blank_ballots(signers.len());
        proof {
            lemma_tally_blank(ballots@, VoteAction::ApproveRelease);
            lemma_tally_blank(ballots@, VoteAction::ApproveRefund);
        }
        let escrow = Escrow {
            id,
            depositor,
            beneficiary,
            token,
            amount,
            signers,
            threshold,
            arbitrator,
            created_at: now,
            expires_at,
            funded: false,
            state: EscrowState::Pending,
            dispute: None,
        };
        self.escrows.insert(id, escrow);
        self.ballots.insert(id, ballots);
        self.counter = id;
        Ok(id)
    }

    /// Takes escrow `id` out of storage.
    fn take_escrow(&mut self, id: u64) -> (e: Escrow)
        requires
            old(self).escrows@.contains_key(id),
        ensures
            e == old(self).escrows@[id],
            final(self).escrows@ == old(self).escrows@.remove(id),
            final(self).admin == old(self).admin,
            final(self).counter == old(self).counter,
            final(self).ballots@ == old(self).ballots@,
            final(self).release_count@ == old(self).release_count@,
            final(self).refund_count@ == old(self).refund_count@,
    {
        self.escrows.remove(&id).unwrap()
    }

    /// Moves the escrowed amount from the depositor into the contract at
    /// `contract` and makes the escrow active.
    pub fn fund_escrow(&mut self, contract: AccountId, depositor: AccountId, escrow_id: u64) -> (r: Result<
        TokenTransfer,
        EscrowError,
    >)
        requires
            old(self).wf(),
        ensures
            final(self).wf(),
            match old(self).fund_refusal(depositor, escrow_id) {
                Some(e) => r == Err::<TokenTransfer, EscrowError>(e) && *final(self) == *old(self),
                None => {
                    let e = old(self).escrows@[escrow_id];
                    &&& r == Ok::<TokenTransfer, EscrowError>(
                        TokenTransfer { token: e.token, from: depositor, to: contract, amount: e.amount },
                    )
                    &&& old(self).with_escrow(
                        *final(self),
                        escrow_id,
                        Escrow { funded: true, state: EscrowState::Active, ..e },
                    )
                },
            },
    {
        match self.escrows.get(&escrow_id) {
            None => return Err(EscrowError::EscrowNotFound),
            Some(e) => {
                if depositor != e.depositor {
                    return Err(EscrowError::NotDepositor);
                }
                if e.funded {
                    return Err(EscrowError::AlreadyFunded);
                }
                if e.state != EscrowState::Pending {
                    return Err(EscrowError::InvalidState);
                }
            },
        }
        let mut e = self.take_escrow(escrow_id);
        let transfer = TokenTransfer { token: e.token, from: depositor, to: contract, amount: e.amount };
        e.funded = true;
        e.state = EscrowState::Active;
        self.escrows.insert(escrow_id, e);
        proof {
            assert(self.escrows@ =~= old(self).escrows@.insert(escrow_id, e));
        }
        Ok(transfer)
    }

    /// Carries out the side of the vote that `release` names, once at least
    /// the threshold of signers voted for it: the held amount goes to the
    /// beneficiary (release) or back to the depositor (refund).
    fn pay_out(&mut self, contract: AccountId, escrow_id: u64, release: bool) -> (r: Result<
        TokenTransfer,
        EscrowError,
    >)
        requires
            old(self).wf(),
        ensures
            final(self).wf(),
            ({
                let votes = if release {
                    old(self).rel(escrow_id)
                } else {
                    old(self).rfd(escrow_id)
                };
                match old(self).payout_refusal(escrow_id, votes) {
                    Some(e) => r == Err::<TokenTransfer, EscrowError>(e) && *final(self) == *old(self),
                    None => {
                        let e = old(self).escrows@[escrow_id];
                        &&& r == Ok::<TokenTransfer, EscrowError>(
                            TokenTransfer {
                                token: e.token,
                                from: contract,
                                to: if release {
                                    e.beneficiary
                                } else {
                                    e.depositor
                                },
                                amount: e.amount,
                            },
                        )
                        &&& old(self).with_escrow(
                            *final(self),
                            escrow_id,
                            Escrow {
                                state: if release {
                                    EscrowState::Released
                                } else {
                                    EscrowState::Refunded
                                },
                                ..e
                            },
                        )
                    },
                }
            }),
    {
        match self.escrows.get(&escrow_id) {
            None => return Err(EscrowError::EscrowNotFound),
            Some(e) => {
                if e.state != EscrowState::Active {
                    return Err(EscrowError::InvalidState);
                }
                if !e.funded {
                    return Err(EscrowError::InvalidState);
                }
                let counts = if release {
                    &self.release_count
                } else {
                    &self.refund_count
                };
                let votes: u32 = match counts.get(&escrow_id) {
                    Some(c) => *c,
                    None => 0,
                };
                if votes < e.threshold {
                    return Err(EscrowError::ThresholdNotMet);
                }
            },
        }
        let mut e = self.take_escrow(escrow_id);
        let to = if release {
            e.beneficiary
        } else {
            e.depositor
        };
        let transfer = TokenTransfer { token: e.token, from: contract, to, amount: e.amount };
        e.state = if release {
            EscrowState::Released
        } else {
            EscrowState::Refunded
        };
        self.escrows.insert(escrow_id, e);
        proof {
            assert(self.escrows@ =~= old(self).escrows@.insert(escrow_id, e));
        }
        Ok(transfer)
    }

    /// Pays the held amount to the beneficiary once at least `threshold`
    /// signers voted to release it; anyone may trigger it.
    pub fn release_funds(&mut self, contract: AccountId, _caller: AccountId, escrow_id: u64) -> (r: Result<
        TokenTransfer,
        EscrowError,
    >)
        requires
            old(self).wf(),
        ensures
            final(self).wf(),
            match old(self).payout_refusal(escrow_id, old(self).rel(escrow_id)) {
                Some(e) => r == Err::<TokenTransfer, EscrowError>(e) && *final(self) == *old(self),
                None => {
                    let e = old(self).escrows@[escrow_id];
                    &&& r == Ok::<TokenTransfer, EscrowError>(
                        TokenTransfer { token: e.token, from: contract, to: e.beneficiary, amount: e.amount },
                    )
                    &&& old(self).with_escrow(
                        *final(self),
                        escrow_id,
                        Escrow { state: EscrowState::Released, ..e },
                    )
                },
            },
    {
        self.pay_out(contract, escrow_id, true)
    }

    /// Pays the held amount back to the depositor once at least `threshold`
    /// signers voted to refund it; anyone may trigger it.
    pub fn refund_funds(&mut self, contract: AccountId, _caller: AccountId, escrow_id: u64) -> (r: Result<
        TokenTransfer,
        EscrowError,
    >)
        requires
            old(self).wf(),
        ensures
            final(self).wf(),
            match old(self).payout_refusal(escrow_id, old(self).rfd(escrow_id)) {
                Some(e) => r == Err::<TokenTransfer, EscrowError>(e) && *final(self) == *old(self),
                None => {
                    let e = old(self).escrows@[escrow_id];
                    &&& r == Ok::<TokenTransfer, EscrowError>(
                        TokenTransfer { token: e.token, from: contract, to: e.depositor, amount: e.amount },
                    )
                    &&& old(self).with_escrow(
                        *final(self),
                        escrow_id,
                        Escrow { state: EscrowState::Refunded, ..e },
                    )
                },
            },
    {
        self.pay_out(contract, escrow_id, false)
    }

    /// Records the vote of `signer` on an active escrow and counts it; a
    /// signer votes once, and only listed signers vote.
    pub fn sign_approve(&mut self, signer: AccountId, escrow_id: u64, action: VoteAction) -> (r: Result<
        (),
        EscrowError,
    >)
        requires
            old(self).wf(),
        ensures
            final(self).wf(),
            match old(self).sign_refusal(signer, escrow_id) {
                Some(e) => r == Err::<(), EscrowError>(e) && *final(self) == *old(self),
                None => r is Ok && old(self).voted(*final(self), signer, escrow_id, action),
            },
    {
        let pos: usize;
        match self.escrows.get(&escrow_id) {
            None => return Err(EscrowError::EscrowNotFound),
            Some(e) => {
                if e.state != EscrowState::Active {
                    return Err(EscrowError::InvalidState);
                }
                match position_u64(&e.signers, signer) {
                    None => return Err(EscrowError::NotASigner),
                    Some(i) => {
                        proof {
                            let c = choose|c: int| 0 <= c < e.signers@.len() && e.signers@[c] == signer;
                            if c != i {
                                assert(e.signers@[c] == e.signers@[i as int]);
                                if c < i {
                                    assert(has_repeat(e.signers@));
                                } else {
                                    assert(has_repeat(e.signers@));
                                }
                            }
                        }
                        let b = self.ballots.get(&escrow_id).unwrap();
                        if b[i].is_some() {
                            return Err(EscrowError::AlreadyVoted);
                        }
                        pos = i;
                    },
                }
            },
        }
        let ghost b0 = self.ballots@[escrow_id]@;
        proof {
            lemma_tally_cast(b0, pos as int, action, VoteAction::ApproveRelease);
            lemma_tally_cast(b0, pos as int, action, VoteAction::ApproveRefund);
            lemma_tallies_bounded(b0.update(pos as int, Some(action)));
        }
        let mut b = self.ballots.remove(&escrow_id).unwrap();
        b.set(pos, Some(action));
        self.ballots.insert(escrow_id, b);
        match action {
            VoteAction::ApproveRelease => {
                let cur: u32 = match self.release_count.get(&escrow_id) {
                    Some(c) => *c,
                    None => 0,
                };
                self.release_count.insert(escrow_id, cur + 1);
            },
            VoteAction::ApproveRefund => {
                let cur: u32 = match self.refund_count.get(&escrow_id) {
                    Some(c) => *c,
                    None => 0,
                };
                self.refund_count.insert(escrow_id, cur + 1);
            },
        }
        proof {
            assert(self.ballots@ =~= old(self).ballots@.insert(escrow_id, b));
            let sg = self.escrows@[escrow_id].signers@;
            assert forall|id: u64, s: AccountId|
                (id != escrow_id || s != signer) implies #[trigger] self.vote_of(id, s) == old(self).vote_of(
                id,
                s,
            ) by {
                if id == escrow_id && sg.contains(s) {
                    let c = choose|c: int| 0 <= c < sg.len() && sg[c] == s;
                    assert(c != pos);
                }
            }
        }
        Ok(())
    }

    /// Opens a dispute on an active escrow that names an arbitrator; only
    /// the depositor or the beneficiary may. Votes are frozen from then on.
    pub fn raise_dispute(
        &mut self,
        now: u64,
        caller: AccountId,
        escrow_id: u64,
        evidence_hash: Option<[u8; 32]>,
    ) -> (r: Result<(), EscrowError>)
        requires
            old(self).wf(),
        ensures
            final(self).wf(),
            match old(self).dispute_refusal(caller, escrow_id) {
                Some(e) => r == Err::<(), EscrowError>(e) && *final(self) == *old(self),
                None => {
                    let e = old(self).escrows@[escrow_id];
                    &&& r is Ok
                    &&& old(self).with_escrow(
                        *final(self),
                        escrow_id,
                        Escrow {
                            state: EscrowState::Disputed,
                            dispute: Some(
                                Dispute {
                                    raised_by: caller,
                                    raised_at: now,
                                    evidence_hash,
                                    resolution: None,
                                    resolved_at: None,
                                },
                            ),
                            ..e
                        },
                    )
                },
            },
    {
        match self.escrows.get(&escrow_id) {
            None => return Err(EscrowError::EscrowNotFound),
            Some(e) => {
                if e.state != EscrowState::Active {
                    return Err(EscrowError::InvalidState);
                }
                if e.dispute.is_some() {
                    return Err(EscrowError::AlreadyDisputed);
                }
                if e.arbitrator.is_none() {
                    return Err(EscrowError::NoArbitrator);
                }
                if caller != e.depositor && caller != e.beneficiary {
                    return Err(EscrowError::InvalidDisputeCaster);
                }
            },
        }
        let mut e = self.take_escrow(escrow_id);
        e.dispute = Some(
            Dispute { raised_by: caller, raised_at: now, evidence_hash, resolution: None, resolved_at: None },
        );
        e.state = EscrowState::Disputed;
        self.escrows.insert(escrow_id, e);
        proof {
            assert(self.escrows@ =~= old(self).escrows@.insert(escrow_id, e));
        }
        Ok(())
    }

    /// The arbitrator settles a disputed escrow: the held amount goes to
    /// the beneficiary, back to the depositor, or half (rounded down) to the
    /// beneficiary and the rest to the depositor. The dispute records the
    /// resolution and the time.
    pub fn resolve_dispute(
        &mut self,
        now: u64,
        contract: AccountId,
        arbitrator: AccountId,
        escrow_id: u64,
        resolution: DisputeResolution,
    ) -> (r: Result<Vec<TokenTransfer>, EscrowError>)
        requires
            old(self).wf(),
        ensures
            final(self).wf(),
            match old(self).resolve_refusal(arbitrator, escrow_id) {
                Some(e) => r == Err::<Vec<TokenTransfer>, EscrowError>(e) && *final(self) == *old(self),
                None => {
                    let e = old(self).escrows@[escrow_id];
                    &&& r is Ok
                    &&& r.unwrap()@ == settlement(e, contract, resolution)
                    &&& old(self).with_escrow(
                        *final(self),
                        escrow_id,
                        Escrow {
                            state: settled_state(resolution),
                            dispute: Some(
                                Dispute {
                                    resolution: Some(resolution),
                                    resolved_at: Some(now),
                                    ..e.dispute.unwrap()
                                },
                            ),
                            ..e
                        },
                    )
                },
            },
    {
        match self.escrows.get(&escrow_id) {
            None => return Err(EscrowError::EscrowNotFound),
            Some(e) => {
                if e.state != EscrowState::Disputed {
                    return Err(EscrowError::InvalidState);
                }
                if e.arbitrator.is_none() || e.arbitrator.unwrap() != arbitrator {
                    return Err(EscrowError::NotArbitrator);
                }
                if !e.funded {
                    return Err(EscrowError::InvalidState);
                }
            },
        }
        let mut e = self.take_escrow(escrow_id);
        let amount = e.amount;
        let mut payouts: Vec<TokenTransfer> = Vec::new();
        match resolution {
            DisputeResolution::Release => {
                payouts.push(TokenTransfer { token: e.token, from: contract, to: e.beneficiary, amount });
                e.state = EscrowState::Released;
            },
            DisputeResolution::Refund => {
                payouts.push(TokenTransfer { token: e.token, from: contract, to: e.depositor, amount });
                e.state = EscrowState::Refunded;
            },
            DisputeResolution::Split => {
                let half = amount / 2;
                let remainder = amount - half;
                payouts.push(TokenTransfer { token: e.token, from: contract, to: e.beneficiary, amount: half });
                payouts.push(
                    TokenTransfer { token: e.token, from: contract, to: e.depositor, amount: remainder },
                );
                e.state = EscrowState::Released;
            },
        }
        let mut dispute = e.dispute.unwrap();
        dispute.resolution = Some(resolution);
        dispute.resolved_at = Some(now);
        e.dispute = Some(dispute);
        self.escrows.insert(escrow_id, e);
        proof {
            assert(self.escrows@ =~= old(self).escrows@.insert(escrow_id, e));
            assert(payouts@ =~= settlement(old(self).escrows@[escrow_id], contract, resolution));
        }
        Ok(payouts)
    }

    /// The depositor withdraws an escrow that is pending, or active with no
    /// vote cast yet; a held amount goes back to the depositor.
    pub fn cancel_escrow(&mut self, contract: AccountId, depositor: AccountId, escrow_id: u64) -> (r: Result<
        Option<TokenTransfer>,
        EscrowError,
    >)
        requires
            old(self).wf(),
        ensures
            final(self).wf(),
            match old(self).cancel_refusal(depositor, escrow_id) {
                Some(e) => r == Err::<Option<TokenTransfer>, EscrowError>(e) && *final(self) == *old(self),
                None => {
                    let e = old(self).escrows@[escrow_id];
                    &&& r == Ok::<Option<TokenTransfer>, EscrowError>(return_of_deposit(e, contract))
                    &&& old(self).with_escrow(
                        *final(self),
                        escrow_id,
                        Escrow { state: EscrowState::Cancelled, funded: false, ..e },
                    )
                },
            },
    {
        match self.escrows.get(&escrow_id) {
            None => return Err(EscrowError::EscrowNotFound),
            Some(e) => {
                if depositor != e.depositor {
                    return Err(EscrowError::NotDepositor);
                }
                let release: u32 = match self.release_count.get(&escrow_id) {
                    Some(c) => *c,
                    None => 0,
                };
                let refund: u32 = match self.refund_count.get(&escrow_id) {
                    Some(c) => *c,
                    None => 0,
                };
                proof {
                    lemma_tallies_bounded(self.ballots@[escrow_id]@);
                }
                let total_votes = release + refund;
                let allowed = match e.state {
                    EscrowState::Pending => true,
                    EscrowState::Active => total_votes == 0,
                    _ => false,
                };
                if !allowed {
                    return Err(EscrowError::InvalidState);
                }
            },
        }
        let mut e = self.take_escrow(escrow_id);
        let refund = if e.funded {
            Some(TokenTransfer { token: e.token, from: contract, to: e.depositor, amount: e.amount })
        } else {
            None
        };
        e.state = EscrowState::Cancelled;
        e.funded = false;
        self.escrows.insert(escrow_id, e);
        proof {
            assert(self.escrows@ =~= old(self).escrows@.insert(escrow_id, e));
        }
        Ok(refund)
    }

    /// Anyone ends a pending or active escrow once `now` is past its
    /// deadline; a held amount goes back to the depositor.
    pub fn expire_escrow(&mut self, now: u64, contract: AccountId, escrow_id: u64) -> (r: Result<
        Option<TokenTransfer>,
        EscrowError,
    >)
        requires
            old(self).wf(),
        ensures
            final(self).wf(),
            match old(self).expire_refusal(now, escrow_id) {
                Some(e) => r == Err::<Option<TokenTransfer>, EscrowError>(e) && *final(self) == *old(self),
                None => {
                    let e = old(self).escrows@[escrow_id];
                    &&& r == Ok::<Option<TokenTransfer>, EscrowError>(return_of_deposit(e, contract))
                    &&& old(self).with_escrow(
                        *final(self),
                        escrow_id,
                        Escrow { state: EscrowState::Expired, funded: false, ..e },
                    )
                },
            },
    {
        match self.escrows.get(&escrow_id) {
            None => return Err(EscrowError::EscrowNotFound),
            Some(e) => {
                match e.state {
                    EscrowState::Pending | EscrowState::Active => {},
                    _ => return Err(EscrowError::InvalidState),
                }
                if now <= e.expires_at {
                    return Err(EscrowError::NotExpired);
                }
            },
        }
        let mut e = self.take_escrow(escrow_id);
        let refund = if e.funded {
            Some(TokenTransfer { token: e.token, from: contract, to: e.depositor, amount: e.amount })
        } else {
            None
        };
        e.state = EscrowState::Expired;
        e.funded = false;
        self.escrows.insert(escrow_id, e);
        proof {
            assert(self.escrows@ =~= old(self).escrows@.insert(escrow_id, e));
        }
        Ok(refund)
    }

    pub fn get_escrow(&self, escrow_id: u64) -> (r: Option<&Escrow>)
        ensures
            match r {
                Some(e) => self.escrows@.contains_key(escrow_id) && *e == self.escrows@[escrow_id],
                None => !self.escrows@.contains_key(escrow_id),
            },
    {
        self.escrows.get(&escrow_id)
    }

    /// The vote `signer` cast on escrow `escrow_id`, if any.
    pub fn get_vote(&self, escrow_id: u64, signer: AccountId) -> (r: Option<VoteAction>)
        requires
            self.wf(),
        ensures
            r == self.vote_of(escrow_id, signer),
    {
        match self.escrows.get(&escrow_id) {
            None => None,
            Some(e) => match position_u64(&e.signers, signer) {
                None => None,
                Some(i) => {
                    proof {
                        let c = choose|c: int| 0 <= c < e.signers@.len() && e.signers@[c] == signer;
                        if c != i {
                            assert(e.signers@[c] == e.signers@[i as int]);
                            assert(has_repeat(e.signers@));
                        }
                    }
                    let b = self.ballots.get(&escrow_id).unwrap();
                    b[i]
                },
            },
        }
    }

    /// The vote counters and the lifecycle fields of an escrow, as of `now`.
    pub fn get_stats(&self, now: u64, escrow_id: u64) -> (r: Result<EscrowStats, EscrowError>)
        requires
            self.wf(),
        ensures
            match r {
                Ok(st) => {
                    let e = self.escrows@[escrow_id];
                    &&& self.escrows@.contains_key(escrow_id)
                    &&& st.release_votes == self.rel(escrow_id)
                    &&& st.refund_votes == self.rfd(escrow_id)
                    &&& st.voted == self.rel(escrow_id) + self.rfd(escrow_id)
                    &&& st.threshold == e.threshold
                    &&& st.funded == e.funded
                    &&& st.state == e.state
                    &&& st.created_at == e.created_at
                    &&& st.expires_at == e.expires_at
                    &&& st.now == now
                },
                Err(err) => err == EscrowError::EscrowNotFound && !self.escrows@.contains_key(escrow_id),
            },
    {
        match self.escrows.get(&escrow_id) {
            None => Err(EscrowError::EscrowNotFound),
            Some(e) => {
                let release: u32 = match self.release_count.get(&escrow_id) {
                    Some(c) => *c,
                    None => 0,
                };
                let refund: u32 = match self.refund_count.get(&escrow_id) {
                    Some(c) => *c,
                    None => 0,
                };
                proof {
                    lemma_tallies_bounded(self.ballots@[escrow_id]@);
                }
                Ok(
                    EscrowStats {
                        release_votes: release,
                        refund_votes: refund,
                        voted: release + refund,
                        threshold: e.threshold,
                        funded: e.funded,
                        state: e.state,
                        created_at: e.created_at,
                        expires_at: e.expires_at,
                        now,
                    },
                )
            },
        }
    }
}

/// Vote counting: the release and refund counters of an escrow are the
/// numbers of its signers who voted each way, so together they never
/// exceed the number of signers.
pub proof fn lemma_votes_within_signers(s: MultisigEscrowContract, id: u64)
    requires
        s.wf(),
        s.escrows@.contains_key(id),
    ensures
        s.rel(id) == tally(s.ballots@[id]@, VoteAction::ApproveRelease),
        s.rfd(id) == tally(s.ballots@[id]@, VoteAction::ApproveRefund),
        s.rel(id) + s.rfd(id) <= s.escrows@[id].signers@.len(),
{
    lemma_tallies_bounded(s.ballots@[id]@);
}

/// Release and refund need agreement: whenever either is carried out, at
/// least `threshold` signers voted for that side.
pub proof fn lemma_payout_needs_quorum(s: MultisigEscrowContract, id: u64)
    requires
        s.wf(),
    ensures
        s.payout_refusal(id, s.rel(id)) is None ==> tally(s.ballots@[id]@, VoteAction::ApproveRelease)
            >= s.escrows@[id].threshold,
        s.payout_refusal(id, s.rfd(id)) is None ==> tally(s.ballots@[id]@, VoteAction::ApproveRefund)
            >= s.escrows@[id].threshold,
{
}

/// A signer cannot change or repeat a vote: once `signer` voted on an
/// escrow, every later vote by that signer on it is refused.
pub proof fn lemma_vote_once(
    s0: MultisigEscrowContract,
    s1: MultisigEscrowContract,
    signer: AccountId,
    id: u64,
    action: VoteAction,
)
    requires
        s0.wf(),
        s0.sign_refusal(signer, id) is None,
        s0.voted(s1, signer, id, action),
    ensures
        s1.sign_refusal(signer, id) == Some(EscrowError::AlreadyVoted),
{
}

/// Funds leave an escrow at most once: in a released, refunded, cancelled
/// or expired escrow every entry point that could move its funds or its
/// votes is refused (and a refused call changes nothing).
pub proof fn lemma_terminal_is_final(
    s: MultisigEscrowContract,
    id: u64,
    who: AccountId,
    now: u64,
)
    requires
        s.wf(),
        s.escrows@.contains_key(id),
        is_terminal(s.escrows@[id].state),
    ensures
        s.fund_refusal(who, id) is Some,
        s.sign_refusal(who, id) is Some,
        s.payout_refusal(id, s.rel(id)) is Some,
        s.payout_refusal(id, s.rfd(id)) is Some,
        s.dispute_refusal(who, id) is Some,
        s.resolve_refusal(who, id) is Some,
        s.cancel_refusal(who, id) is Some,
        s.expire_refusal(now, id) is Some,
{
}

/// A settlement pays out exactly the held amount, all of it from the
/// contract, in parts that are never negative; a split gives the
/// beneficiary half rounded down and the depositor the rest.
pub proof fn lemma_settlement_conserves(e: Escrow, contract: AccountId, resolution: DisputeResolution)
    requires
        e.amount > 0,
    ensures
        ({
            let p = settlement(e, contract, resolution);
            &&& p.len() == 1 ==> p[0].amount == e.amount
            &&& p.len() == 2 ==> p[0].amount + p[1].amount == e.amount
            &&& 1 <= p.len() <= 2
            &&& forall|i: int| 0 <= i < p.len() ==> #[trigger] p[i].from == contract && p[i].amount >= 0
                && p[i].token == e.token
        }),
{
}

} // verus!
