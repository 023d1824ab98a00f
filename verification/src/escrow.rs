//! A multi-party escrow: each party deposits its agreed amount; once all
//! have, the escrow is active. Parties approve, and when a release condition
//! holds the escrow is released. A party may also release it (in full or in
//! part, split evenly among the parties) when a condition holds, as may the
//! arbitrator at any time; a party may raise a dispute for the arbitrator to
//! settle by release or refund; after the timeout anyone may have the
//! deposits refunded.
use std::collections::HashMap;
use vstd::prelude::*;

use crate::common::position_u64;
use crate::insurance_pool::tdiv;
use crate::token::TokenTransfer;

verus! {

broadcast use vstd::std_specs::hash::group_hash_axioms;

/// An account or contract address, identified by a number.
pub type AccountId = u64;

#[derive(Clone, Copy, Debug, PartialEq, Eq, Structural)]
pub enum EscrowState {
    Created,
    Active,
    Released,
    Refunded,
    Disputed,
}

#[derive(Clone, Copy, Debug, PartialEq, Eq, Structural)]
pub enum ReleaseCondition {
    AllPartiesApprove,
    MajorityApprove,
    ArbitratorApprove,
}

#[derive(Clone, Copy, Debug, PartialEq, Eq, Structural)]
pub enum DisputeResolution {
    Release,
    Refund,
}

#[derive(Clone, Copy, Debug, PartialEq, Eq, Structural)]
pub enum EscrowError {
    EscrowNotFound,
    InvalidState,
    InvalidParties,
    NotParty,
    AmountMismatch,
    AlreadyDeposited,
    Unauthorized,
    NoArbitrator,
    TimeoutNotReached,
    InsufficientFunds,
}

/// An escrow; `amounts`, `deposited` and `approvals` run parallel to
/// `parties`.
#[derive(Clone, Debug)]
pub struct EscrowData {
    pub id: u32,
    pub creator: AccountId,
    pub parties: Vec<AccountId>,
    pub token: AccountId,
    pub amounts: Vec<i128>,
    pub deposited: Vec<i128>,
    pub approvals: Vec<bool>,
    pub state: EscrowState,
    pub conditions: Vec<ReleaseCondition>,
    pub arbitrator: Option<AccountId>,
    pub timeout: u64,
    pub created_at: u64,
}

/// The contract's storage.
pub struct EscrowContract {
    pub escrows: HashMap<u32, EscrowData>,
    pub next_escrow_id: Option<u32>,
}

/// The sum of `s`.
pub open spec fn seq_sum(s: Seq<i128>) -> int
    decreases s.len(),
{
    if s.len() == 0 {
        0
    } else {
        seq_sum(s.drop_last()) + s.last()
    }
}

/// How many of `s` are true.
pub open spec fn count_true(s: Seq<bool>) -> nat
    decreases s.len(),
{
    if s.len() == 0 {
        0
    } else {
        count_true(s.drop_last()) + if s.last() {
            1nat
        } else {
            0nat
        }
    }
}

/// Whether condition `c` holds for approvals `a` among `n` parties.
pub open spec fn condition_holds(c: ReleaseCondition, a: Seq<bool>, n: nat) -> bool {
    match c {
        ReleaseCondition::AllPartiesApprove => forall|i: int| 0 <= i < a.len() ==> #[trigger] a[i],
        ReleaseCondition::MajorityApprove => count_true(a) > n / 2,
        ReleaseCondition::ArbitratorApprove => false,
    }
}

/// Whether some condition of `conds` holds for approvals `a` among `n`
/// parties.
pub open spec fn conditions_met_for(conds: Seq<ReleaseCondition>, a: Seq<bool>, n: nat) -> bool {
    exists|i: int| 0 <= i < conds.len() && condition_holds(#[trigger] conds[i], a, n)
}

/// Whether some release condition of `e` holds.
pub open spec fn conditions_met(e: EscrowData) -> bool {
    conditions_met_for(e.conditions@, e.approvals@, e.parties@.len())
}

/// The payments that spread `amount` evenly over the parties of `e`: each
/// gets `amount / n` (rounded toward zero), from the contract at `contract`.
pub open spec fn distribution(e: EscrowData, contract: AccountId, amount: i128) -> Seq<TokenTransfer> {
    Seq::new(
        e.parties@.len(),
        |i: int|
            TokenTransfer {
                token: e.token,
                from: contract,
                to: e.parties@[i],
                amount: tdiv(amount as int, e.parties@.len() as int) as i128,
            },
    )
}

/// The refunds of the first `n` parties of `e`: each party that deposited
/// a positive amount gets it back, in party order.
pub open spec fn refunds_upto(e: EscrowData, contract: AccountId, n: int) -> Seq<TokenTransfer>
    decreases n,
{
    if n <= 0 {
        Seq::empty()
    } else {
        let rest = refunds_upto(e, contract, n - 1);
        if e.deposited@[n - 1] > 0 {
            rest.push(
                TokenTransfer {
                    token: e.token,
                    from: contract,
                    to: e.parties@[n - 1],
                    amount: e.deposited@[n - 1],
                },
            )
        } else {
            rest
        }
    }
}

/// The refunds of all parties of `e`.
pub open spec fn refunds(e: EscrowData, contract: AccountId) -> Seq<TokenTransfer> {
    refunds_upto(e, contract, e.parties@.len() as int)
}

/// The sum of the amounts of `t`.
pub open spec fn paid(t: Seq<TokenTransfer>) -> int
    decreases t.len(),
{
    if t.len() == 0 {
        0
    } else {
        paid(t.drop_last()) + t.last().amount
    }
}

/// The sum of the positive deposits among the first `n`.
pub open spec fn positive_sum(d: Seq<i128>, n: int) -> int
    decreases n,
{
    if n <= 0 {
        0
    } else {
        positive_sum(d, n - 1) + if d[n - 1] > 0 {
            d[n - 1] as int
        } else {
            0
        }
    }
}

/// What an escrow keeps true of itself.
pub open spec fn escrow_ok(id: u32, e: EscrowData) -> bool {
    &&& e.id == id
    &&& e.parties@.len() >= 1
    &&& e.amounts@.len() == e.parties@.len()
    &&& e.deposited@.len() == e.parties@.len()
    &&& e.approvals@.len() == e.parties@.len()
}

/// Every prefix sum of `s` fits in an `i128` (summing `s` in order does not
/// overflow).
pub open spec fn prefix_sums_fit(s: Seq<i128>) -> bool {
    forall|k: int| 0 <= k <= s.len() ==> i128::MIN <= #[trigger] seq_sum(s.subrange(0, k)) <= i128::MAX
}

/// `n` zero amounts.
fn zeros(n: usize) -> (r: Vec<i128>)
    ensures
        r@ == Seq::new(n as nat, |i: int| 0i128),
{
    let mut r: Vec<i128> = Vec::new();
    let mut i: usize = 0;
    while i < n
        invariant
            i <= n,
            r@ == Seq::new(i as nat, |j: int| 0i128),
        decreases n - i,
    {
        r.push(0);
        i = i + 1;
        assert(r@ =~= Seq::new(i as nat, |j: int| 0i128));
    }
    r
}

/// `n` missing approvals.
fn no_approvals(n: usize) -> (r: Vec<bool>)
    ensures
        r@ == Seq::new(n as nat, |i: int| false),
{
    let mut r: Vec<bool> = Vec::new();
    let mut i: usize = 0;
    while i < n
        invariant
            i <= n,
            r@ == Seq::new(i as nat, |j: int| false),
        decreases n - i,
    {
        r.push(false);
        i = i + 1;
        assert(r@ =~= Seq::new(i as nat, |j: int| false));
    }
    r
}

/// Whether `who` is among `parties`.
pub fn contains_party(parties: &Vec<AccountId>, who: AccountId) -> (r: bool)
    ensures
        r == parties@.contains(who),
{
    position_u64(parties, who).is_some()
}

/// Whether every deposit is positive.
pub fn all_deposited(d: &Vec<i128>) -> (r: bool)
    ensures
        r == (forall|i: int| 0 <= i < d@.len() ==> #[trigger] d@[i] > 0),
{
    let mut i: usize = 0;
    while i < d.len()
        invariant
            i <= d@.len(),
            forall|j: int| 0 <= j < i ==> #[trigger] d@[j] > 0,
        decreases d.len() - i,
    {
        if d[i] <= 0 {
            return false;
        }
        i = i + 1;
    }
    true
}

/// Whether every approval is given.
fn all_approved(a: &Vec<bool>) -> (r: bool)
    ensures
        r == (forall|i: int| 0 <= i < a@.len() ==> #[trigger] a@[i]),
{
    let mut i: usize = 0;
    while i < a.len()
        invariant
            i <= a@.len(),
            forall|j: int| 0 <= j < i ==> #[trigger] a@[j],
        decreases a.len() - i,
    {
        if !a[i] {
            return false;
        }
        i = i + 1;
    }
    true
}

/// How many approvals are given.
fn approval_count(a: &Vec<bool>) -> (r: usize)
    ensures
        r == count_true(a@),
{
    let mut n: usize = 0;
    let mut i: usize = 0;
    while i < a.len()
        invariant
            i <= a@.len(),
            n == count_true(a@.subrange(0, i as int)),
            n <= i,
        decreases a.len() - i,
    {
        proof {
            assert(a@.subrange(0, i + 1).drop_last() =~= a@.subrange(0, i as int));
        }
        if a[i] {
            n = n + 1;
        }
        i = i + 1;
    }
    assert(a@.subrange(0, a@.len() as int) =~= a@);
    n
}

/// Whether some release condition of `e` holds (see `conditions_met`).
pub fn check_release_conditions(e: &EscrowData) -> (r: bool)
    ensures
        r == conditions_met(*e),
{
    let mut i: usize = 0;
    while i < e.conditions.len()
        invariant
            i <= e.conditions@.len(),
            forall|j: int|
                0 <= j < i ==> !condition_holds(#[trigger] e.conditions@[j], e.approvals@, e.parties@.len()),
        decreases e.conditions.len() - i,
    {
        let holds = match e.conditions[i] {
            ReleaseCondition::AllPartiesApprove => all_approved(&e.approvals),
            ReleaseCondition::MajorityApprove => approval_count(&e.approvals) > e.parties.len() / 2,
            ReleaseCondition::ArbitratorApprove => false,
        };
        if holds {
            assert(condition_holds(e.conditions@[i as int], e.approvals@, e.parties@.len()));
            return true;
        }
        i = i + 1;
    }
    false
}

/// Whether `releaser` may release `e`: the arbitrator always may, anyone
/// else when a release condition holds.
pub fn can_release(e: &EscrowData, releaser: AccountId) -> (r: bool)
    ensures
        r == (e.arbitrator == Some(releaser) || conditions_met(*e)),
{
    match e.arbitrator {
        Some(a) => if a == releaser {
            return true;
        },
        None => {},
    }
    check_release_conditions(e)
}

/// The sum of the agreed amounts of `e`.
pub fn total_amount(e: &EscrowData) -> (r: i128)
    requires
        prefix_sums_fit(e.amounts@),
    ensures
        r == seq_sum(e.amounts@),
{
    let mut total: i128 = 0;
    let mut i: usize = 0;
    while i < e.amounts.len()
        invariant
            i <= e.amounts@.len(),
            prefix_sums_fit(e.amounts@),
            total == seq_sum(e.amounts@.subrange(0, i as int)),
        decreases e.amounts.len() - i,
    {
        proof {
            assert(e.amounts@.subrange(0, i + 1).drop_last() =~= e.amounts@.subrange(0, i as int));
            assert(i128::MIN <= seq_sum(e.amounts@.subrange(0, i + 1)) <= i128::MAX);
        }
        total = total + e.amounts[i];
        i = i + 1;
    }
    assert(e.amounts@.subrange(0, e.amounts@.len() as int) =~= e.amounts@);
    total
}

/// The even split of `amount` over the parties of `e` (see `distribution`).
pub fn distribute_funds(contract: AccountId, e: &EscrowData, amount: i128) -> (r: Vec<TokenTransfer>)
    requires
        e.parties@.len() >= 1,
    ensures
        r@ == distribution(*e, contract, amount),
{
    let n = e.parties.len();
    let per_party = amount / (n as i128);
    let mut out: Vec<TokenTransfer> = Vec::new();
    let mut i: usize = 0;
    while i < n
        invariant
            n == e.parties@.len(),
            n >= 1,
            per_party == tdiv(amount as int, n as int),
            i <= n,
            out@ == distribution(*e, contract, amount).subrange(0, i as int),
        decreases n - i,
    {
        out.push(TokenTransfer { token: e.token, from: contract, to: e.parties[i], amount: per_party });
        i = i + 1;
        assert(out@ =~= distribution(*e, contract, amount).subrange(0, i as int));
    }
    assert(distribution(*e, contract, amount).subrange(0, n as int) =~= distribution(*e, contract, amount));
    out
}

/// The refunds of every positive deposit of `e` (see `refunds`).
pub fn refund_all(contract: AccountId, e: &EscrowData) -> (r: Vec<TokenTransfer>)
    requires
        e.deposited@.len() == e.parties@.len(),
    ensures
        r@ == refunds(*e, contract),
{
    let mut out: Vec<TokenTransfer> = Vec::new();
    let mut i: usize = 0;
    while i < e.parties.len()
        invariant
            e.deposited@.len() == e.parties@.len(),
            i <= e.parties@.len(),
            out@ == refunds_upto(*e, contract, i as int),
        decreases e.parties.len() - i,
    {
        let d = e.deposited[i];
        if d > 0 {
            out.push(TokenTransfer { token: e.token, from: contract, to: e.parties[i], amount: d });
        }
        i = i + 1;
    }
    out
}

/// The first position of `x` in `s` (meaningful when `s` contains `x`).
pub open spec fn first_index(s: Seq<AccountId>, x: AccountId) -> int {
    choose|i: int| 0 <= i < s.len() && s[i] == x && forall|j: int| 0 <= j < i ==> s[j] != x
}

/// `i` is the first position of `x` in `s`.
proof fn lemma_first_index(s: Seq<AccountId>, x: AccountId, i: int)
    requires
        0 <= i < s.len(),
        s[i] == x,
        forall|j: int| 0 <= j < i ==> s[j] != x,
    ensures
        first_index(s, x) == i,
{
    let c = first_index(s, x);
    assert(0 <= c < s.len() && s[c] == x && forall|j: int| 0 <= j < c ==> s[j] != x);
    if c < i {
        assert(s[c] != x);
    } else if c > i {
        assert(s[i] != x);
    }
}

/// `e` is the escrow that a creation with these arguments stores.
pub open spec fn created_as(
    e: EscrowData,
    id: u32,
    now: u64,
    creator: AccountId,
    parties: Seq<AccountId>,
    token: AccountId,
    amounts: Seq<i128>,
    conditions: Seq<ReleaseCondition>,
    arbitrator: Option<AccountId>,
    timeout: u64,
) -> bool {
    &&& e.id == id
    &&& e.creator == creator
    &&& e.parties@ == parties
    &&& e.token == token
    &&& e.amounts@ == amounts
    &&& e.deposited@ == Seq::new(parties.len(), |i: int| 0i128)
    &&& e.approvals@ == Seq::new(parties.len(), |i: int| false)
    &&& e.state == EscrowState::Created
    &&& e.conditions@ == conditions
    &&& e.arbitrator == arbitrator
    &&& e.timeout == now + timeout
    &&& e.created_at == now
}

/// `e2` is `e` with the given deposits, approvals and state (everything
/// else as it was).
pub open spec fn updated(e2: EscrowData, e: EscrowData, deposited: Seq<i128>, approvals: Seq<bool>, state: EscrowState) -> bool {
    &&& e2.deposited@ == deposited
    &&& e2.approvals@ == approvals
    &&& e2.state == state
    &&& e2.id == e.id
    &&& e2.creator == e.creator
    &&& e2.parties@ == e.parties@
    &&& e2.token == e.token
    &&& e2.amounts@ == e.amounts@
    &&& e2.conditions@ == e.conditions@
    &&& e2.arbitrator == e.arbitrator
    &&& e2.timeout == e.timeout
    &&& e2.created_at == e.created_at
}

impl EscrowContract {
    /// The number the next escrow gets.
    pub open spec fn next_id(self) -> u32 {
        match self.next_escrow_id {
            Some(n) => n,
            None => 1,
        }
    }

    pub open spec fn wf(self) -> bool {
        &&& forall|k: u32| #[trigger] self.escrows@.contains_key(k) ==> k < self.next_id()
        &&& forall|k: u32| #[trigger] self.escrows@.contains_key(k) ==> escrow_ok(k, self.escrows@[k])
    }

    /// `new` is this storage with escrow `id` replaced by `e`.
    pub open spec fn with_escrow(self, new: Self, id: u32, e: EscrowData) -> bool {
        &&& new.escrows@ == self.escrows@.insert(id, e)
        &&& new.next_escrow_id == self.next_escrow_id
    }

    pub fn new() -> (r: Self)
        ensures
            r.wf(),
            r.escrows@ == Map::<u32, EscrowData>::empty(),
            r.next_escrow_id is None,
    {
        EscrowContract { escrows: HashMap::new(), next_escrow_id: None }
    }

    /// Takes escrow `id` out of storage.
    fn take_escrow(&mut self, id: u32) -> (e: EscrowData)
        requires
            old(self).escrows@.contains_key(id),
        ensures
            e == old(self).escrows@[id],
            final(self).escrows@ == old(self).escrows@.remove(id),
            final(self).next_escrow_id == old(self).next_escrow_id,
    {
        self.escrows.remove(&id).unwrap()
    }

    /// Creates an escrow among `parties` with their agreed `amounts` under
    /// the next number, and returns the number. Refused unless there is at
    /// least one party and one amount per party.
    pub fn create_escrow(
        &mut self,
        now: u64,
        creator: AccountId,
        parties: Vec<AccountId>,
        token: AccountId,
        amounts: Vec<i128>,
        conditions: Vec<ReleaseCondition>,
        arbitrator: Option<AccountId>,
        timeout: u64,
    ) -> (r: Result<u32, EscrowError>)
        requires
            old(self).wf(),
            parties@.len() > 0 && parties@.len() == amounts@.len() ==> now + timeout <= u64::MAX
                && old(self).next_id() < u32::MAX,
        ensures
            final(self).wf(),
            parties@.len() == 0 || amounts@.len() == 0 || parties@.len() != amounts@.len() ==> r == Err::<
                u32,
                EscrowError,
            >(EscrowError::InvalidParties) && *final(self) == *old(self),
            parties@.len() > 0 && parties@.len() == amounts@.len() ==> {
                let id = old(self).next_id();
                &&& r == Ok::<u32, EscrowError>(id)
                &&& !old(self).escrows@.contains_key(id)
                &&& final(self).next_escrow_id == Some((id + 1) as u32)
                &&& final(self).escrows@.dom() == old(self).escrows@.dom().insert(id)
                &&& forall|k: u32| k != id && #[trigger] old(self).escrows@.contains_key(k)
                    ==> final(self).escrows@[k] == old(self).escrows@[k]
                &&& created_as(
                    final(self).escrows@[id],
                    id,
                    now,
                    creator,
                    parties@,
                    token,
                    amounts@,
                    conditions@,
                    arbitrator,
                    timeout,
                )
            },
    {
        if parties.len() == 0 || amounts.len() == 0 || parties.len() != amounts.len() {
            return Err(EscrowError::InvalidParties);
        }
        let id = match self.next_escrow_id {
            Some(n) => n,
            None => 1,
        };
        let n = parties.len();
        let escrow = EscrowData {
            id,
            creator,
            parties,
            token,
            amounts,
            deposited: zeros(n),
            approvals: no_approvals(n),
            state: EscrowState::Created,
            conditions,
            arbitrator,
            timeout: now + timeout,
            created_at: now,
        };
        self.escrows.insert(id, escrow);
        self.next_escrow_id = Some(id + 1);
        Ok(id)
    }

    pub open spec fn deposit_refusal(self, depositor: AccountId, id: u32, amount: i128) -> Option<EscrowError> {
        if !self.escrows@.contains_key(id) {
            Some(EscrowError::EscrowNotFound)
        } else {
            let e = self.escrows@[id];
            if e.state != EscrowState::Created {
                Some(EscrowError::InvalidState)
            } else if !e.parties@.contains(depositor) {
                Some(EscrowError::NotParty)
            } else if e.amounts@[first_index(e.parties@, depositor)] != amount {
                Some(EscrowError::AmountMismatch)
            } else if e.deposited@[first_index(e.parties@, depositor)] > 0 {
                Some(EscrowError::AlreadyDeposited)
            } else {
                None
            }
        }
    }

    /// `depositor` pays its agreed amount into the contract at `contract`;
    /// once every party has deposited, the escrow is active.
    pub fn deposit(&mut self, contract: AccountId, depositor: AccountId, escrow_id: u32, amount: i128) -> (r:
        Result<TokenTransfer, EscrowError>)
        requires
            old(self).wf(),
        ensures
            final(self).wf(),
            match old(self).deposit_refusal(depositor, escrow_id, amount) {
                Some(err) => r == Err::<TokenTransfer, EscrowError>(err) && *final(self) == *old(self),
                None => {
                    let e = old(self).escrows@[escrow_id];
                    let d = e.deposited@.update(first_index(e.parties@, depositor), amount);
                    &&& r == Ok::<TokenTransfer, EscrowError>(
                        TokenTransfer { token: e.token, from: depositor, to: contract, amount },
                    )
                    &&& final(self).escrows@.dom() == old(self).escrows@.dom()
                    &&& final(self).next_escrow_id == old(self).next_escrow_id
                    &&& forall|k: u32| k != escrow_id && #[trigger] old(self).escrows@.contains_key(k)
                        ==> final(self).escrows@[k] == old(self).escrows@[k]
                    &&& updated(
                        final(self).escrows@[escrow_id],
                        e,
                        d,
                        e.approvals@,
                        if forall|i: int| 0 <= i < d.len() ==> #[trigger] d[i] > 0 {
                            EscrowState::Active
                        } else {
                            EscrowState::Created
                        },
                    )
                },
            },
    {
        let idx: usize;
        match self.escrows.get(&escrow_id) {
            None => return Err(EscrowError::EscrowNotFound),
            Some(e) => {
                if e.state != EscrowState::Created {
                    return Err(EscrowError::InvalidState);
                }
                match position_u64(&e.parties, depositor) {
                    None => return Err(EscrowError::NotParty),
                    Some(i) => {
                        proof {
                            lemma_first_index(e.parties@, depositor, i as int);
                        }
                        if e.amounts[i] != amount {
                            return Err(EscrowError::AmountMismatch);
                        }
                        if e.deposited[i] > 0 {
                            return Err(EscrowError::AlreadyDeposited);
                        }
                        idx = i;
                    },
                }
            },
        }
        let mut e = self.take_escrow(escrow_id);
        let transfer = TokenTransfer { token: e.token, from: depositor, to: contract, amount };
        e.deposited.set(idx, amount);
        if all_deposited(&e.deposited) {
            e.state = EscrowState::Active;
        }
        self.escrows.insert(escrow_id, e);
        Ok(transfer)
    }

    pub open spec fn party_refusal(self, who: AccountId, id: u32, state: EscrowState) -> Option<EscrowError> {
        if !self.escrows@.contains_key(id) {
            Some(EscrowError::EscrowNotFound)
        } else if self.escrows@[id].state != state {
            Some(EscrowError::InvalidState)
        } else if !self.escrows@[id].parties@.contains(who) {
            Some(EscrowError::NotParty)
        } else {
            None
        }
    }

    /// `approver` approves an active escrow; when a release condition then
    /// holds, the escrow is released (without moving funds).
    pub fn approve(&mut self, approver: AccountId, escrow_id: u32) -> (r: Result<(), EscrowError>)
        requires
            old(self).wf(),
        ensures
            final(self).wf(),
            match old(self).party_refusal(approver, escrow_id, EscrowState::Active) {
                Some(err) => r == Err::<(), EscrowError>(err) && *final(self) == *old(self),
                None => {
                    let e = old(self).escrows@[escrow_id];
                    let a = e.approvals@.update(first_index(e.parties@, approver), true);
                    &&& r is Ok
                    &&& final(self).escrows@.dom() == old(self).escrows@.dom()
                    &&& final(self).next_escrow_id == old(self).next_escrow_id
                    &&& forall|k: u32| k != escrow_id && #[trigger] old(self).escrows@.contains_key(k)
                        ==> final(self).escrows@[k] == old(self).escrows@[k]
                    &&& updated(
                        final(self).escrows@[escrow_id],
                        e,
                        e.deposited@,
                        a,
                        if conditions_met_for(e.conditions@, a, e.parties@.len()) {
                            EscrowState::Released
                        } else {
                            EscrowState::Active
                        },
                    )
                },
            },
    {
        let idx: usize;
        match self.escrows.get(&escrow_id) {
            None => return Err(EscrowError::EscrowNotFound),
            Some(e) => {
                if e.state != EscrowState::Active {
                    return Err(EscrowError::InvalidState);
                }
                match position_u64(&e.parties, approver) {
                    None => return Err(EscrowError::NotParty),
                    Some(i) => {
                        proof {
                            lemma_first_index(e.parties@, approver, i as int);
                        }
                        idx = i;
                    },
                }
            },
        }
        let mut e = self.take_escrow(escrow_id);
        e.approvals.set(idx, true);
        if check_release_conditions(&e) {
            e.state = EscrowState::Released;
        }
        self.escrows.insert(escrow_id, e);
        Ok(())
    }

    pub open spec fn release_refusal(self, releaser: AccountId, id: u32, partial: Option<i128>) -> Option<EscrowError> {
        if !self.escrows@.contains_key(id) {
            Some(EscrowError::EscrowNotFound)
        } else {
            let e = self.escrows@[id];
            if e.state != EscrowState::Active {
                Some(EscrowError::InvalidState)
            } else if !(e.arbitrator == Some(releaser) || conditions_met(e)) {
                Some(EscrowError::Unauthorized)
            } else if (match partial {
                Some(p) => p as int,
                None => seq_sum(e.amounts@),
            }) > seq_sum(e.amounts@) {
                Some(EscrowError::AmountMismatch)
            } else {
                None
            }
        }
    }

    /// Releases `partial_amount` (all the agreed amounts when none is
    /// given), split evenly among the parties; the arbitrator may always,
    /// anyone else when a release condition holds. A full release ends the
    /// escrow.
    pub fn release(&mut self, contract: AccountId, releaser: AccountId, escrow_id: u32, partial_amount: Option<i128>) -> (r:
        Result<Vec<TokenTransfer>, EscrowError>)
        requires
            old(self).wf(),
            old(self).escrows@.contains_key(escrow_id) ==> prefix_sums_fit(old(self).escrows@[escrow_id].amounts@),
        ensures
            final(self).wf(),
            match old(self).release_refusal(releaser, escrow_id, partial_amount) {
                Some(err) => r == Err::<Vec<TokenTransfer>, EscrowError>(err) && *final(self) == *old(self),
                None => {
                    let e = old(self).escrows@[escrow_id];
                    let total = seq_sum(e.amounts@);
                    let amount = match partial_amount {
                        Some(p) => p,
                        None => total as i128,
                    };
                    &&& r is Ok
                    &&& r.unwrap()@ == distribution(e, contract, amount)
                    &&& (if amount == total {
                        final(self).escrows@ == old(self).escrows@.insert(
                            escrow_id,
                            EscrowData { state: EscrowState::Released, ..e },
                        )
                    } else {
                        final(self).escrows@ == old(self).escrows@
                    })
                    &&& final(self).next_escrow_id == old(self).next_escrow_id
                },
            },
    {
        let total: i128;
        let amount: i128;
        match self.escrows.get(&escrow_id) {
            None => return Err(EscrowError::EscrowNotFound),
            Some(e) => {
                if e.state != EscrowState::Active {
                    return Err(EscrowError::InvalidState);
                }
                if !can_release(e, releaser) {
                    return Err(EscrowError::Unauthorized);
                }
                total = total_amount(e);
                amount = match partial_amount {
                    Some(p) => p,
                    None => total,
                };
                if amount > total {
                    return Err(EscrowError::AmountMismatch);
                }
            },
        }
        let mut e = self.take_escrow(escrow_id);
        let payouts = distribute_funds(contract, &e, amount);
        if amount == total {
            e.state = EscrowState::Released;
        }
        self.escrows.insert(escrow_id, e);
        proof {
            if amount != total {
                assert(self.escrows@ =~= old(self).escrows@);
            }
        }
        Ok(payouts)
    }

    /// A party of an active escrow with an arbitrator disputes it.
    pub fn dispute(&mut self, disputer: AccountId, escrow_id: u32) -> (r: Result<(), EscrowError>)
        requires
            old(self).wf(),
        ensures
            final(self).wf(),
            ({
                let err = match old(self).party_refusal(disputer, escrow_id, EscrowState::Active) {
                    Some(err) => Some(err),
                    None => if old(self).escrows@[escrow_id].arbitrator is None {
                        Some(EscrowError::NoArbitrator)
                    } else {
                        None
                    },
                };
                match err {
                    Some(err) => r == Err::<(), EscrowError>(err) && *final(self) == *old(self),
                    None => r is Ok && old(self).with_escrow(
                        *final(self),
                        escrow_id,
                        EscrowData { state: EscrowState::Disputed, ..old(self).escrows@[escrow_id] },
                    ),
                }
            }),
    {
        match self.escrows.get(&escrow_id) {
            None => return Err(EscrowError::EscrowNotFound),
            Some(e) => {
                if e.state != EscrowState::Active {
                    return Err(EscrowError::InvalidState);
                }
                if !contains_party(&e.parties, disputer) {
                    return Err(EscrowError::NotParty);
                }
                if e.arbitrator.is_none() {
                    return Err(EscrowError::NoArbitrator);
                }
            },
        }
        let mut e = self.take_escrow(escrow_id);
        e.state = EscrowState::Disputed;
        self.escrows.insert(escrow_id, e);
        proof {
            assert(self.escrows@ =~= old(self).escrows@.insert(escrow_id, e));
        }
        Ok(())
    }

    /// The arbitrator settles a disputed escrow: release of all the agreed
    /// amounts, split evenly, or refund of every deposit.
    pub fn resolve_dispute(
        &mut self,
        contract: AccountId,
        arbitrator: AccountId,
        escrow_id: u32,
        resolution: DisputeResolution,
    ) -> (r: Result<Vec<TokenTransfer>, EscrowError>)
        requires
            old(self).wf(),
            old(self).escrows@.contains_key(escrow_id) ==> prefix_sums_fit(old(self).escrows@[escrow_id].amounts@),
        ensures
            final(self).wf(),
            ({
                let err = if !old(self).escrows@.contains_key(escrow_id) {
                    Some(EscrowError::EscrowNotFound)
                } else if old(self).escrows@[escrow_id].state != EscrowState::Disputed {
                    Some(EscrowError::InvalidState)
                } else if old(self).escrows@[escrow_id].arbitrator != Some(arbitrator) {
                    Some(EscrowError::Unauthorized)
                } else {
                    None
                };
                match err {
                    Some(err) => r == Err::<Vec<TokenTransfer>, EscrowError>(err) && *final(self) == *old(self),
                    None => {
                        let e = old(self).escrows@[escrow_id];
                        &&& r is Ok
                        &&& r.unwrap()@ == (match resolution {
                            DisputeResolution::Release => distribution(e, contract, seq_sum(e.amounts@) as i128),
                            DisputeResolution::Refund => refunds(e, contract),
                        })
                        &&& old(self).with_escrow(
                            *final(self),
                            escrow_id,
                            EscrowData {
                                state: match resolution {
                                    DisputeResolution::Release => EscrowState::Released,
                                    DisputeResolution::Refund => EscrowState::Refunded,
                                },
                                ..e
                            },
                        )
                    },
                }
            }),
    {
        match self.escrows.get(&escrow_id) {
            None => return Err(EscrowError::EscrowNotFound),
            Some(e) => {
                if e.state != EscrowState::Disputed {
                    return Err(EscrowError::InvalidState);
                }
                match e.arbitrator {
                    Some(a) => if a != arbitrator {
                        return Err(EscrowError::Unauthorized);
                    },
                    None => return Err(EscrowError::Unauthorized),
                }
            },
        }
        let mut e = self.take_escrow(escrow_id);
        let payouts = match resolution {
            DisputeResolution::Release => {
                let total = total_amount(&e);
                let p = distribute_funds(contract, &e, total);
                e.state = EscrowState::Released;
                p
            },
            DisputeResolution::Refund => {
                let p = refund_all(contract, &e);
                e.state = EscrowState::Refunded;
                p
            },
        };
        self.escrows.insert(escrow_id, e);
        proof {
            assert(self.escrows@ =~= old(self).escrows@.insert(escrow_id, e));
        }
        Ok(payouts)
    }

    /// Once `now` reaches the timeout of an active escrow, anyone has every
    /// deposit refunded.
    pub fn refund_timeout(&mut self, now: u64, contract: AccountId, escrow_id: u32) -> (r: Result<
        Vec<TokenTransfer>,
        EscrowError,
    >)
        requires
            old(self).wf(),
        ensures
            final(self).wf(),
            ({
                let err = if !old(self).escrows@.contains_key(escrow_id) {
                    Some(EscrowError::EscrowNotFound)
                } else if old(self).escrows@[escrow_id].state != EscrowState::Active {
                    Some(EscrowError::InvalidState)
                } else if now < old(self).escrows@[escrow_id].timeout {
                    Some(EscrowError::TimeoutNotReached)
                } else {
                    None
                };
                match err {
                    Some(err) => r == Err::<Vec<TokenTransfer>, EscrowError>(err) && *final(self) == *old(self),
                    None => {
                        let e = old(self).escrows@[escrow_id];
                        &&& r is Ok
                        &&& r.unwrap()@ == refunds(e, contract)
                        &&& old(self).with_escrow(
                            *final(self),
                            escrow_id,
                            EscrowData { state: EscrowState::Refunded, ..e },
                        )
                    },
                }
            }),
    {
        match self.escrows.get(&escrow_id) {
            None => return Err(EscrowError::EscrowNotFound),
            Some(e) => {
                if e.state != EscrowState::Active {
                    return Err(EscrowError::InvalidState);
                }
                if now < e.timeout {
                    return Err(EscrowError::TimeoutNotReached);
                }
            },
        }
        let mut e = self.take_escrow(escrow_id);
        let payouts = refund_all(contract, &e);
        e.state = EscrowState::Refunded;
        self.escrows.insert(escrow_id, e);
        proof {
            assert(self.escrows@ =~= old(self).escrows@.insert(escrow_id, e));
        }
        Ok(payouts)
    }

    pub fn get_escrow(&self, escrow_id: u32) -> (r: Option<&EscrowData>)
        ensures
            match r {
                Some(e) => self.escrows@.contains_key(escrow_id) && *e == self.escrows@[escrow_id],
                None => !self.escrows@.contains_key(escrow_id),
            },
    {
        self.escrows.get(&escrow_id)
    }
}

/// Payments that all carry `v` sum to `v` times their number.
proof fn lemma_paid_uniform(t: Seq<TokenTransfer>, v: i128)
    requires
        forall|i: int| 0 <= i < t.len() ==> #[trigger] t[i].amount == v,
    ensures
        paid(t) == t.len() * v,
    decreases t.len(),
{
    if t.len() > 0 {
        lemma_paid_uniform(t.drop_last(), v);
        assert(paid(t) == paid(t.drop_last()) + v);
        assert(t.len() * v == (t.len() - 1) * v + v) by (nonlinear_arith);
    }
}

/// Refunds give back exactly what was deposited: the refunds of an escrow
/// add up to the sum of its positive deposits, and each goes to a party
/// that deposited that amount.
pub proof fn lemma_refunds_return_deposits(e: EscrowData, contract: AccountId, n: int)
    requires
        0 <= n <= e.parties@.len(),
        e.deposited@.len() == e.parties@.len(),
    ensures
        paid(refunds_upto(e, contract, n)) == positive_sum(e.deposited@, n),
        forall|k: int|
            0 <= k < refunds_upto(e, contract, n).len() ==> exists|i: int|
                0 <= i < n && #[trigger] refunds_upto(e, contract, n)[k] == (TokenTransfer {
                    token: e.token,
                    from: contract,
                    to: e.parties@[i],
                    amount: e.deposited@[i],
                }) && e.deposited@[i] > 0,
    decreases n,
{
    if n > 0 {
        lemma_refunds_return_deposits(e, contract, n - 1);
        let rest = refunds_upto(e, contract, n - 1);
        let all = refunds_upto(e, contract, n);
        if e.deposited@[n - 1] > 0 {
            assert(all.drop_last() =~= rest);
            assert forall|k: int| 0 <= k < all.len() implies exists|i: int|
                0 <= i < n && #[trigger] all[k] == (TokenTransfer {
                    token: e.token,
                    from: contract,
                    to: e.parties@[i],
                    amount: e.deposited@[i],
                }) && e.deposited@[i] > 0 by {
                if k < rest.len() {
                    assert(all[k] == rest[k]);
                } else {
                    assert(all[k] == (TokenTransfer {
                        token: e.token,
                        from: contract,
                        to: e.parties@[n - 1],
                        amount: e.deposited@[n - 1],
                    }));
                }
            }
        }
    }
}

/// An even split pays every party the same, and for a non-negative amount
/// it pays out at most that amount (the remainder of the division stays).
pub proof fn lemma_distribution_within_amount(e: EscrowData, contract: AccountId, amount: i128)
    requires
        e.parties@.len() >= 1,
        amount >= 0,
    ensures
        ({
            let t = distribution(e, contract, amount);
            &&& t.len() == e.parties@.len()
            &&& forall|i: int| 0 <= i < t.len() ==> #[trigger] t[i].amount == (amount as int) / (e.parties@.len() as int)
            &&& 0 <= paid(t) <= amount
        }),
{
    let n = e.parties@.len() as int;
    let a = amount as int;
    let t = distribution(e, contract, amount);
    let v = (a / n) as i128;
    assert(0 <= a / n <= a) by (nonlinear_arith)
        requires
            a >= 0,
            n >= 1,
    ;
    assert forall|i: int| 0 <= i < t.len() implies #[trigger] t[i].amount == v by {}
    lemma_paid_uniform(t, v);
    assert(0 <= n * (a / n) <= a) by (nonlinear_arith)
        requires
            a >= 0,
            n >= 1,
    ;
}

/// Released and refunded escrows are final: deposits, approvals, releases,
/// disputes, settlements and timeout refunds are all refused on them.
pub proof fn lemma_settled_is_final(
    s: EscrowContract,
    id: u32,
    who: AccountId,
    amount: i128,
    partial: Option<i128>,
)
    requires
        s.escrows@.contains_key(id),
        s.escrows@[id].state == EscrowState::Released || s.escrows@[id].state == EscrowState::Refunded,
    ensures
        s.deposit_refusal(who, id, amount) == Some(EscrowError::InvalidState),
        s.party_refusal(who, id, EscrowState::Active) == Some(EscrowError::InvalidState),
        s.release_refusal(who, id, partial) == Some(EscrowError::InvalidState),
        s.escrows@[id].state != EscrowState::Disputed,
        s.escrows@[id].state != EscrowState::Active,
{
}

} // verus!
