//! A governance token: balances, allowances and delegated voting power with
//! per-account checkpoints of that power by ledger sequence, and proposals
//! voted with the power an account had when the proposal was created, then
//! queued behind a timelock and executed within a grace period.
use std::collections::HashMap;
use vstd::prelude::*;

use crate::insurance_pool::tdiv;

verus! {

broadcast use vstd::std_specs::hash::group_hash_axioms;

/// An account or contract address, identified by a number.
pub type AccountId = u64;

#[derive(Clone, Copy, Debug, PartialEq, Eq, Structural)]
pub enum GovError {
    AlreadyInitialized,
    NotInitialized,
    InvalidQuorumNumerator,
    NotAdmin,
    AmountNotPositive,
    AmountNegative,
    InsufficientBalance,
    InsufficientAllowance,
    SequenceNotFinalized,
    InsufficientVotingPower,
    ProposalNotFound,
    VotingNotStarted,
    VotingEnded,
    AlreadyVoted,
    NoVotingPower,
    VotingPeriodNotEnded,
    ProposalNotVoteable,
    QuorumNotReached,
    ProposalDefeated,
    ProposalNotQueued,
    TimelockNotElapsed,
    GracePeriodExpired,
    NotProposer,
    VotingAlreadyStarted,
    NoVoteReceipt,
}

/// Voting power of an account from ledger `sequence` on.
#[derive(Clone, Copy, Debug, PartialEq, Eq, Structural)]
pub struct Checkpoint {
    pub sequence: u32,
    pub votes: i128,
}

#[derive(Clone, Copy, Debug, PartialEq, Eq, Structural)]
pub struct GovernanceConfig {
    /// Seconds between a proposal's creation and the start of its vote.
    pub voting_delay: u64,
    /// Seconds the vote lasts.
    pub voting_period: u64,
    /// Voting power needed to propose.
    pub proposal_threshold: i128,
    /// Quorum in percent of the total supply.
    pub quorum_numerator: u32,
    /// Seconds a queued proposal waits before it may run.
    pub timelock_delay: u64,
    /// Seconds after the timelock in which it may still run.
    pub grace_period: u64,
}

#[derive(Clone, Copy, Debug, PartialEq, Eq, Structural)]
pub enum ProposalStatus {
    Pending,
    Active,
    Defeated,
    Succeeded,
    Queued,
    Executed,
    Canceled,
    Expired,
}

#[derive(Clone, Copy, Debug, PartialEq, Eq, Structural)]
pub enum VoteType {
    For,
    Against,
    Abstain,
}

/// The call a proposal makes when executed.
#[derive(Debug)]
pub struct ProposalAction {
    pub contract_id: AccountId,
    pub function_name: Vec<u8>,
}

#[derive(Debug)]
pub struct Proposal {
    pub id: u64,
    pub proposer: AccountId,
    pub title: Vec<u8>,
    pub description: Vec<u8>,
    pub action: ProposalAction,
    pub start_time: u64,
    pub end_time: u64,
    /// Ledger sequence at creation; votes weigh the power held then.
    pub snapshot_sequence: u32,
    pub for_votes: i128,
    pub against_votes: i128,
    pub abstain_votes: i128,
    pub status: ProposalStatus,
    pub quorum: i128,
    /// Earliest execution time, once queued.
    pub eta: u64,
    pub category: u32,
}

#[derive(Clone, Copy, Debug, PartialEq, Eq, Structural)]
pub struct VoteReceipt {
    pub vote_type: VoteType,
    pub weight: i128,
}

/// The votes of the last checkpoint at or before `sequence` (scanning from
/// the newest), 0 when there is none.
pub open spec fn past_votes(ck: Seq<Checkpoint>, sequence: u32) -> i128
    decreases ck.len(),
{
    if ck.len() == 0 {
        0
    } else if ck.last().sequence <= sequence {
        ck.last().votes
    } else {
        past_votes(ck.drop_last(), sequence)
    }
}

/// Checkpoint sequences never decrease.
pub open spec fn sorted(ck: Seq<Checkpoint>) -> bool {
    forall|i: int, j: int| 0 <= i <= j < ck.len() ==> ck[i].sequence <= ck[j].sequence
}

/// In a sorted list, the votes at `k` are the past votes when `k` is the
/// last index at or before the sequence.
proof fn lemma_past_votes_at(ck: Seq<Checkpoint>, sequence: u32, k: int)
    requires
        sorted(ck),
        0 <= k < ck.len(),
        ck[k].sequence <= sequence,
        k + 1 < ck.len() ==> ck[k + 1].sequence > sequence,
    ensures
        past_votes(ck, sequence) == ck[k].votes,
    decreases ck.len(),
{
    if k < ck.len() - 1 {
        assert(ck.last().sequence >= ck[k + 1].sequence);
        let t = ck.drop_last();
        assert(sorted(t));
        assert(t[k] == ck[k]);
        if k + 1 < t.len() {
            assert(t[k + 1] == ck[k + 1]);
        }
        lemma_past_votes_at(t, sequence, k);
    }
}

/// With every checkpoint after `sequence`, there are no past votes.
proof fn lemma_past_votes_none(ck: Seq<Checkpoint>, sequence: u32)
    requires
        forall|i: int| 0 <= i < ck.len() ==> ck[i].sequence > sequence,
    ensures
        past_votes(ck, sequence) == 0,
    decreases ck.len(),
{
    if ck.len() > 0 {
        lemma_past_votes_none(ck.drop_last(), sequence);
    }
}

/// The voting power held at `sequence`: the votes of the newest checkpoint
/// at or before it, by binary search (0 before the first). On checkpoint
/// lists in sequence order this is `past_votes`; on any list it is 0 or
/// the votes of one of the checkpoints.
pub fn find_past_votes(ckpts: &Vec<Checkpoint>, sequence: u32) -> (r: i128)
    requires
        ckpts.len() <= u32::MAX,
    ensures
        sorted(ckpts@) ==> r == past_votes(ckpts@, sequence),
        r == 0 || exists|i: int| 0 <= i < ckpts.len() && r == #[trigger] ckpts@[i].votes,
{
    let len = ckpts.len();
    if len == 0 {
        return 0;
    }
    let last = ckpts[len - 1];
    if last.sequence <= sequence {
        return last.votes;
    }
    let first = ckpts[0];
    if first.sequence > sequence {
        proof {
            if sorted(ckpts@) {
                lemma_past_votes_none(ckpts@, sequence);
            }
        }
        return 0;
    }
    let mut low: usize = 0;
    let mut high: usize = len - 1;
    while low < high
        invariant
            high < len == ckpts.len(),
            low <= high,
            ckpts@[low as int].sequence <= sequence,
            ckpts@[len - 1].sequence > sequence,
            sorted(ckpts@) ==> forall|j: int| high < j < len ==> ckpts@[j].sequence > sequence,
        decreases high - low,
    {
        let mid = low + (high - low + 1) / 2;
        if ckpts[mid].sequence <= sequence {
            low = mid;
        } else {
            high = mid - 1;
            proof {
                if sorted(ckpts@) {
                    assert forall|j: int| high < j < len implies ckpts@[j].sequence > sequence by {
                        assert(ckpts@[mid as int].sequence <= ckpts@[j].sequence);
                    }
                }
            }
        }
    }
    proof {
        if sorted(ckpts@) {
            if low + 1 < len {
                assert(ckpts@[low + 1].sequence > sequence);
            }
            lemma_past_votes_at(ckpts@, sequence, low as int);
        }
    }
    ckpts[low].votes
}

/// The storage key of a pair of numbers.
pub open spec fn pkey(a: u64, b: u64) -> u128 {
    (a * 0x1_0000_0000_0000_0000 + b) as u128
}

pub fn pair_key(a: u64, b: u64) -> (r: u128)
    ensures
        r == pkey(a, b),
{
    (a as u128) * 0x1_0000_0000_0000_0000 + (b as u128)
}

/// `ck` after recording `votes` at `seq`: the last checkpoint is
/// overwritten when it is at `seq`, else a checkpoint is appended.
pub open spec fn written(ck: Seq<Checkpoint>, seq: u32, votes: i128) -> Seq<Checkpoint> {
    if ck.len() > 0 && ck.last().sequence == seq {
        ck.update(ck.len() - 1, Checkpoint { sequence: seq, votes })
    } else {
        ck.push(Checkpoint { sequence: seq, votes })
    }
}

/// `x` fits in an `i128`.
pub open spec fn fits(x: int) -> bool {
    i128::MIN <= x <= i128::MAX
}

/// The sum of the values of a finite map.
pub open spec fn sum_of(m: Map<AccountId, i128>) -> int
    decreases m.dom().len(),
{
    if m.dom().finite() && m.dom().len() > 0 {
        let k = m.dom().choose();
        m[k] + sum_of(m.remove(k))
    } else {
        0
    }
}

/// The sum of a finite map is any one value plus the sum of the rest.
pub proof fn lemma_sum_remove(m: Map<AccountId, i128>, k: AccountId)
    requires
        m.dom().finite(),
        m.dom().contains(k),
    ensures
        sum_of(m) == m[k] + sum_of(m.remove(k)),
    decreases m.dom().len(),
{
    let c = m.dom().choose();
    assert(m.dom().len() > 0);
    if c != k {
        lemma_sum_remove(m.remove(c), k);
        lemma_sum_remove(m.remove(k), c);
        assert(m.remove(c).remove(k) =~= m.remove(k).remove(c));
    }
}

/// Setting key `k` to `v` changes the sum by `v` less what `k` held.
pub proof fn lemma_sum_insert(m: Map<AccountId, i128>, k: AccountId, v: i128)
    requires
        m.dom().finite(),
    ensures
        sum_of(m.insert(k, v)) == sum_of(m) - (if m.dom().contains(k) {
            m[k] as int
        } else {
            0
        }) + v,
{
    let n = m.insert(k, v);
    lemma_sum_remove(n, k);
    assert(n.remove(k) =~= m.remove(k));
    if m.dom().contains(k) {
        lemma_sum_remove(m, k);
    } else {
        assert(m.remove(k) =~= m);
    }
}

/// The invariant only reads the checkpoint lists and counts.
proof fn lemma_wf_frame(a: GovernanceToken, b: GovernanceToken)
    requires
        a.wf(),
        a.checkpoints@ == b.checkpoints@,
        a.num_checkpoints@ == b.num_checkpoints@,
    ensures
        b.wf(),
        forall|q: u32| #[trigger] b.seq_current(q) == a.seq_current(q),
{
    assert forall|x: AccountId| #[trigger] b.cks(x) == a.cks(x) by {}
    assert forall|q: u32| #[trigger] b.seq_current(q) == a.seq_current(q) by {
        if a.seq_current(q) {
            assert forall|x: AccountId| #![trigger b.cks(x)]
                b.cks(x).len() > 0 ==> b.cks(x).last().sequence <= q by {
                assert(a.cks(x) == b.cks(x));
            }
        }
        if b.seq_current(q) {
            assert forall|x: AccountId| #![trigger a.cks(x)]
                a.cks(x).len() > 0 ==> a.cks(x).last().sequence <= q by {
                assert(a.cks(x) == b.cks(x));
            }
        }
    }
    assert forall|x: AccountId| #[trigger] b.ncks(x) == b.cks(x).len() by {
        assert(a.ncks(x) == a.cks(x).len());
    }
    assert forall|x: AccountId| sorted(#[trigger] b.cks(x)) by {
        assert(sorted(a.cks(x)));
    }
}

/// The contract's storage.
pub struct GovernanceToken {
    pub admin: Option<AccountId>,
    pub name: Option<Vec<u8>>,
    pub symbol: Option<Vec<u8>>,
    pub decimals: Option<u32>,
    pub total_supply: i128,
    pub balances: HashMap<AccountId, i128>,
    /// Keyed by `pair_key(owner, spender)`.
    pub allowances: HashMap<u128, i128>,
    pub delegates: HashMap<AccountId, AccountId>,
    pub voting_power: HashMap<AccountId, i128>,
    pub checkpoints: HashMap<AccountId, Vec<Checkpoint>>,
    pub num_checkpoints: HashMap<AccountId, u32>,
    pub config: Option<GovernanceConfig>,
    pub proposals: HashMap<u64, Proposal>,
    pub proposal_count: u64,
    /// Keyed by `pair_key(proposal, voter)`.
    pub has_voted: HashMap<u128, bool>,
    /// Keyed by `pair_key(proposal, voter)`.
    pub receipts: HashMap<u128, VoteReceipt>,
}

impl GovernanceToken {
    /// The total supply is the sum of all balances and also the sum of all
    /// voting power (every balance counts once, for its holder's delegate),
    /// and nothing is held before the token is set up.
    pub open spec fn supply_ok(self) -> bool {
        &&& self.total_supply == sum_of(self.balances@)
        &&& self.total_supply == sum_of(self.voting_power@)
        &&& self.admin is None ==> self.balances@.dom().is_empty()
    }

    pub open spec fn bal(self, a: AccountId) -> i128 {
        if self.balances@.contains_key(a) {
            self.balances@[a]
        } else {
            0
        }
    }

    pub open spec fn allow(self, owner: AccountId, spender: AccountId) -> i128 {
        if self.allowances@.contains_key(pkey(owner, spender)) {
            self.allowances@[pkey(owner, spender)]
        } else {
            0
        }
    }

    /// Whom `a` delegates to (itself by default).
    pub open spec fn delegate_of(self, a: AccountId) -> AccountId {
        if self.delegates@.contains_key(a) {
            self.delegates@[a]
        } else {
            a
        }
    }

    pub open spec fn power(self, a: AccountId) -> i128 {
        if self.voting_power@.contains_key(a) {
            self.voting_power@[a]
        } else {
            0
        }
    }

    pub open spec fn cks(self, a: AccountId) -> Seq<Checkpoint> {
        if self.checkpoints@.contains_key(a) {
            self.checkpoints@[a]@
        } else {
            Seq::empty()
        }
    }

    pub open spec fn ncks(self, a: AccountId) -> u32 {
        if self.num_checkpoints@.contains_key(a) {
            self.num_checkpoints@[a]
        } else {
            0
        }
    }

    /// Storage invariant: each account's checkpoint count is the length of
    /// its checkpoint list, and the list is in sequence order.
    pub open spec fn wf(self) -> bool {
        &&& forall|a: AccountId| #[trigger] self.ncks(a) == self.cks(a).len()
        &&& forall|a: AccountId| sorted(#[trigger] self.cks(a))
    }

    /// Ledger sequence `seq` is no earlier than any checkpoint recorded so
    /// far (ledger sequences only grow).
    pub open spec fn seq_current(self, seq: u32) -> bool {
        forall|a: AccountId| #![trigger self.cks(a)]
            self.cks(a).len() > 0 ==> self.cks(a).last().sequence <= seq
    }

    pub fn new() -> (r: Self)
        ensures
            r.wf(),
            r.supply_ok(),
            r.admin is None && r.name is None && r.symbol is None && r.decimals is None,
            r.config is None,
            r.total_supply == 0 && r.proposal_count == 0,
            r.balances@ == Map::<AccountId, i128>::empty(),
            r.allowances@ == Map::<u128, i128>::empty(),
            r.delegates@ == Map::<AccountId, AccountId>::empty(),
            r.voting_power@ == Map::<AccountId, i128>::empty(),
            r.checkpoints@ == Map::<AccountId, Vec<Checkpoint>>::empty(),
            r.num_checkpoints@ == Map::<AccountId, u32>::empty(),
            r.proposals@ == Map::<u64, Proposal>::empty(),
            r.has_voted@ == Map::<u128, bool>::empty(),
            r.receipts@ == Map::<u128, VoteReceipt>::empty(),
    {
        GovernanceToken {
            admin: None,
            name: None,
            symbol: None,
            decimals: None,
            total_supply: 0,
            balances: HashMap::new(),
            allowances: HashMap::new(),
            delegates: HashMap::new(),
            voting_power: HashMap::new(),
            checkpoints: HashMap::new(),
            num_checkpoints: HashMap::new(),
            config: None,
            proposals: HashMap::new(),
            proposal_count: 0,
            has_voted: HashMap::new(),
            receipts: HashMap::new(),
        }
    }

    /// Sets up the token (once): admin, metadata, zero supply and the
    /// governance settings (quorum at most 100%).
    pub fn initialize(
        &mut self,
        admin: AccountId,
        name: Vec<u8>,
        symbol: Vec<u8>,
        decimals: u32,
        voting_delay: u64,
        voting_period: u64,
        proposal_threshold: i128,
        quorum_numerator: u32,
        timelock_delay: u64,
        grace_period: u64,
    ) -> (r: Result<(), GovError>)
        requires
            old(self).wf(),
        ensures
            final(self).wf(),
            old(self).supply_ok() ==> final(self).supply_ok(),
            r == (if old(self).admin is Some {
                Err(GovError::AlreadyInitialized)
            } else if quorum_numerator > 100 {
                Err(GovError::InvalidQuorumNumerator)
            } else {
                Ok(())
            }),
            r.is_err() ==> *final(self) == *old(self),
            r.is_ok() ==> *final(self) == (Self {
                admin: Some(admin),
                name: Some(name),
                symbol: Some(symbol),
                decimals: Some(decimals),
                total_supply: 0,
                config: Some(
                    GovernanceConfig {
                        voting_delay,
                        voting_period,
                        proposal_threshold,
                        quorum_numerator,
                        timelock_delay,
                        grace_period,
                    },
                ),
                ..*old(self)
            }),
    {
        if self.admin.is_some() {
            return Err(GovError::AlreadyInitialized);
        }
        if quorum_numerator > 100 {
            return Err(GovError::InvalidQuorumNumerator);
        }
        self.admin = Some(admin);
        self.name = Some(name);
        self.symbol = Some(symbol);
        self.decimals = Some(decimals);
        self.total_supply = 0;
        self.config = Some(
            GovernanceConfig {
                voting_delay,
                voting_period,
                proposal_threshold,
                quorum_numerator,
                timelock_delay,
                grace_period,
            },
        );
        proof {
            lemma_wf_frame(*old(self), *self);
        }
        Ok(())
    }

    fn get_power(&self, a: AccountId) -> (r: i128)
        ensures
            r == self.power(a),
    {
        match self.voting_power.get(&a) {
            Some(p) => *p,
            None => 0,
        }
    }

    fn get_bal(&self, a: AccountId) -> (r: i128)
        ensures
            r == self.bal(a),
    {
        match self.balances.get(&a) {
            Some(b) => *b,
            None => 0,
        }
    }

    fn get_del(&self, a: AccountId) -> (r: AccountId)
        ensures
            r == self.delegate_of(a),
    {
        match self.delegates.get(&a) {
            Some(d) => *d,
            None => a,
        }
    }

    /// Records `votes` for `account` at ledger `seq` (see `written`).
    fn write_checkpoint(&mut self, seq: u32, account: AccountId, votes: i128)
        requires
            old(self).wf(),
            old(self).ncks(account) < u32::MAX,
            old(self).cks(account).len() > 0 ==> old(self).cks(account).last().sequence <= seq,
        ensures
            final(self).wf(),
            final(self).cks(account) == written(old(self).cks(account), seq, votes),
            forall|a: AccountId| a != account ==> #[trigger] final(self).cks(a) == old(self).cks(a),
            *final(self) == (Self {
                checkpoints: final(self).checkpoints,
                num_checkpoints: final(self).num_checkpoints,
                ..*old(self)
            }),
    {
        let num: u32 = match self.num_checkpoints.get(&account) {
            Some(n) => *n,
            None => 0,
        };
        let mut ck = match self.checkpoints.remove(&account) {
            Some(c) => c,
            None => Vec::new(),
        };
        assert(ck@ == old(self).cks(account));
        assert(num == ck.len()) by {
            assert(old(self).ncks(account) == old(self).cks(account).len());
        }
        if num > 0 && ck[ck.len() - 1].sequence == seq {
            let last = ck.len() - 1;
            ck.set(last, Checkpoint { sequence: seq, votes });
            self.checkpoints.insert(account, ck);
        } else {
            ck.push(Checkpoint { sequence: seq, votes });
            self.checkpoints.insert(account, ck);
            self.num_checkpoints.insert(account, num + 1);
        }
        proof {
            assert forall|a: AccountId| a != account implies #[trigger] self.cks(a) == old(self).cks(a) by {
                assert(self.checkpoints@.contains_key(a) == old(self).checkpoints@.contains_key(a));
                if old(self).checkpoints@.contains_key(a) {
                    assert(self.checkpoints@[a] == old(self).checkpoints@[a]);
                }
            }
            assert forall|a: AccountId| #[trigger] self.ncks(a) == self.cks(a).len() by {
                if a != account {
                    assert(self.ncks(a) == old(self).ncks(a));
                    assert(old(self).ncks(a) == old(self).cks(a).len());
                }
            }
            assert(self.cks(account) =~= written(old(self).cks(account), seq, votes));
            assert forall|a: AccountId| sorted(#[trigger] self.cks(a)) by {
                assert(sorted(old(self).cks(a)));
                if a == account {
                    lemma_checkpoint_write(old(self).cks(account), seq, votes, seq);
                }
            }
        }
    }

    /// The power of `a` after moving `amount` from `src` (if any) to `dst`
    /// (if any).
    pub open spec fn moved_power(self, src: Option<AccountId>, dst: Option<AccountId>, amount: i128, a: AccountId) -> int {
        let p0 = self.power(a) as int;
        let p1 = if src == Some(a) {
            p0 - amount
        } else {
            p0
        };
        if dst == Some(a) {
            p1 + amount
        } else {
            p1
        }
    }

    /// The checkpoints of `a` after such a move at ledger `seq`: each
    /// account whose power changes records its new power.
    pub open spec fn moved_cks(self, seq: u32, src: Option<AccountId>, dst: Option<AccountId>, amount: i128, a: AccountId) -> Seq<Checkpoint> {
        let p0 = self.power(a) as int;
        let c0 = self.cks(a);
        let p1 = if src == Some(a) {
            p0 - amount
        } else {
            p0
        };
        let c1 = if src == Some(a) {
            written(c0, seq, p1 as i128)
        } else {
            c0
        };
        if dst == Some(a) {
            written(c1, seq, (p1 + amount) as i128)
        } else {
            c1
        }
    }

    /// The arithmetic of such a move stays within its integer types.
    pub open spec fn move_fits(self, src: Option<AccountId>, dst: Option<AccountId>, amount: i128) -> bool {
        amount != 0 ==> {
            &&& src matches Some(s) ==> fits(self.power(s) - amount) && self.ncks(s) + 2 <= u32::MAX
            &&& dst matches Some(d) ==> fits(self.moved_power(src, None, amount, d) + amount)
                && self.ncks(d) + 2 <= u32::MAX
        }
    }

    /// Moves `amount` of voting power from `src` to `dst` at ledger `seq`,
    /// recording checkpoints (nothing for a zero amount).
    fn move_voting_power(&mut self, seq: u32, src: Option<AccountId>, dst: Option<AccountId>, amount: i128)
        requires
            old(self).wf(),
            old(self).seq_current(seq),
            old(self).move_fits(src, dst, amount),
        ensures
            final(self).wf(),
            forall|a: AccountId| #[trigger] final(self).power(a) == (if amount == 0 {
                old(self).power(a) as int
            } else {
                old(self).moved_power(src, dst, amount, a)
            }),
            forall|a: AccountId| #[trigger] final(self).cks(a) == (if amount == 0 {
                old(self).cks(a)
            } else {
                old(self).moved_cks(seq, src, dst, amount, a)
            }),
            sum_of(final(self).voting_power@) == sum_of(old(self).voting_power@) + (if amount == 0 {
                0
            } else {
                (if dst is Some {
                    amount as int
                } else {
                    0
                }) - (if src is Some {
                    amount as int
                } else {
                    0
                })
            }),
            *final(self) == (Self {
                voting_power: final(self).voting_power,
                checkpoints: final(self).checkpoints,
                num_checkpoints: final(self).num_checkpoints,
                ..*old(self)
            }),
    {
        if amount == 0 {
            return;
        }
        let ghost s0 = *self;
        match src {
            Some(s) => {
                assert(s0.cks(s).len() > 0 ==> s0.cks(s).last().sequence <= seq);
                let new_power = self.get_power(s) - amount;
                let ghost before = *self;
                self.voting_power.insert(s, new_power);
                proof {
                    lemma_wf_frame(before, *self);
                    lemma_sum_insert(before.voting_power@, s, new_power);
                }
                self.write_checkpoint(seq, s, new_power);
            },
            None => {},
        }
        let ghost s1 = *self;
        assert forall|a: AccountId| #[trigger] s1.power(a) == s0.moved_power(src, None, amount, a) by {}
        assert forall|a: AccountId| #[trigger] s1.cks(a) == (if src == Some(a) {
            written(s0.cks(a), seq, (s0.power(a) - amount) as i128)
        } else {
            s0.cks(a)
        }) by {}
        match dst {
            Some(d) => {
                assert(s1.ncks(d) <= s0.ncks(d) + 1) by {
                    assert(s1.ncks(d) == s1.cks(d).len());
                    assert(s0.ncks(d) == s0.cks(d).len());
                }
                assert(s1.cks(d).len() > 0 ==> s1.cks(d).last().sequence <= seq) by {
                    assert(s0.cks(d).len() > 0 ==> s0.cks(d).last().sequence <= seq);
                }
                let new_power = self.get_power(d) + amount;
                let ghost before = *self;
                self.voting_power.insert(d, new_power);
                proof {
                    lemma_wf_frame(before, *self);
                    lemma_sum_insert(before.voting_power@, d, new_power);
                }
                self.write_checkpoint(seq, d, new_power);
            },
            None => {},
        }
        assert forall|a: AccountId| #[trigger] self.cks(a) == s0.moved_cks(seq, src, dst, amount, a) by {
            assert(s1.cks(a) == (if src == Some(a) {
                written(s0.cks(a), seq, (s0.power(a) - amount) as i128)
            } else {
                s0.cks(a)
            }));
            assert(s1.power(a) == s0.moved_power(src, None, amount, a));
        }
    }

    /// `new`'s voting power and checkpoints are `self`'s after moving
    /// `amount` from `src` to `dst` at ledger `seq`.
    pub open spec fn power_moved(self, new: Self, seq: u32, src: Option<AccountId>, dst: Option<AccountId>, amount: i128) -> bool {
        &&& forall|a: AccountId| #[trigger] new.power(a) == self.moved_power(src, dst, amount, a)
        &&& forall|a: AccountId| #[trigger] new.cks(a) == self.moved_cks(seq, src, dst, amount, a)
    }

    /// Mints `amount` to `to` (admin only, positive); the power goes to
    /// `to`'s delegate.
    pub fn mint(&mut self, seq: u32, admin: AccountId, to: AccountId, amount: i128) -> (r: Result<(), GovError>)
        requires
            old(self).wf(),
            old(self).seq_current(seq),
            old(self).admin == Some(admin) && amount > 0 ==> {
                &&& fits(old(self).bal(to) + amount)
                &&& fits(old(self).total_supply + amount)
                &&& old(self).move_fits(None, Some(old(self).delegate_of(to)), amount)
            },
        ensures
            final(self).wf(),
            old(self).supply_ok() ==> final(self).supply_ok(),
            r == (if old(self).admin is None {
                Err(GovError::NotInitialized)
            } else if old(self).admin != Some(admin) {
                Err(GovError::NotAdmin)
            } else if amount <= 0 {
                Err(GovError::AmountNotPositive)
            } else {
                Ok(())
            }),
            r.is_err() ==> *final(self) == *old(self),
            r.is_ok() ==> {
                &&& final(self).balances@ == old(self).balances@.insert(
                    to,
                    (old(self).bal(to) + amount) as i128,
                )
                &&& old(self).power_moved(*final(self), seq, None, Some(old(self).delegate_of(to)), amount)
                &&& *final(self) == (Self {
                    balances: final(self).balances,
                    total_supply: (old(self).total_supply + amount) as i128,
                    voting_power: final(self).voting_power,
                    checkpoints: final(self).checkpoints,
                    num_checkpoints: final(self).num_checkpoints,
                    ..*old(self)
                })
            },
    {
        match self.admin {
            None => return Err(GovError::NotInitialized),
            Some(a) => {
                if a != admin {
                    return Err(GovError::NotAdmin);
                }
            },
        }
        if amount <= 0 {
            return Err(GovError::AmountNotPositive);
        }
        let b = self.get_bal(to);
        let ghost s0 = *self;
        self.balances.insert(to, b + amount);
        proof {
            lemma_sum_insert(s0.balances@, to, (b + amount) as i128);
        }
        self.total_supply = self.total_supply + amount;
        let delegatee = self.get_del(to);
        proof {
            lemma_wf_frame(s0, *self);
        }
        self.move_voting_power(seq, None, Some(delegatee), amount);
        Ok(())
    }

    /// Burns `amount` (positive, at most the balance) of `from`'s tokens;
    /// the power leaves `from`'s delegate.
    pub fn burn(&mut self, seq: u32, from: AccountId, amount: i128) -> (r: Result<(), GovError>)
        requires
            old(self).wf(),
            old(self).seq_current(seq),
            amount > 0 && old(self).bal(from) >= amount ==> {
                &&& fits(old(self).total_supply - amount)
                &&& old(self).move_fits(Some(old(self).delegate_of(from)), None, amount)
            },
        ensures
            final(self).wf(),
            old(self).supply_ok() ==> final(self).supply_ok(),
            r == (if amount <= 0 {
                Err(GovError::AmountNotPositive)
            } else if old(self).bal(from) < amount {
                Err(GovError::InsufficientBalance)
            } else {
                Ok(())
            }),
            r.is_err() ==> *final(self) == *old(self),
            r.is_ok() ==> {
                &&& final(self).balances@ == old(self).balances@.insert(
                    from,
                    (old(self).bal(from) - amount) as i128,
                )
                &&& old(self).power_moved(*final(self), seq, Some(old(self).delegate_of(from)), None, amount)
                &&& *final(self) == (Self {
                    balances: final(self).balances,
                    total_supply: (old(self).total_supply - amount) as i128,
                    voting_power: final(self).voting_power,
                    checkpoints: final(self).checkpoints,
                    num_checkpoints: final(self).num_checkpoints,
                    ..*old(self)
                })
            },
    {
        if amount <= 0 {
            return Err(GovError::AmountNotPositive);
        }
        let balance = self.get_bal(from);
        if balance < amount {
            return Err(GovError::InsufficientBalance);
        }
        let ghost s0 = *self;
        self.balances.insert(from, balance - amount);
        proof {
            lemma_sum_insert(s0.balances@, from, (balance - amount) as i128);
        }
        self.total_supply = self.total_supply - amount;
        let delegatee = self.get_del(from);
        proof {
            lemma_wf_frame(s0, *self);
        }
        self.move_voting_power(seq, Some(delegatee), None, amount);
        Ok(())
    }

    /// The balances after moving `amount` from `from` to `to` (the second
    /// write reads the first).
    pub open spec fn moved_balances(self, from: AccountId, to: AccountId, amount: i128) -> Map<AccountId, i128> {
        let m1 = self.balances@.insert(from, (self.bal(from) - amount) as i128);
        let to_bal = if m1.contains_key(to) {
            m1[to]
        } else {
            0
        };
        m1.insert(to, (to_bal + amount) as i128)
    }

    /// Moves `amount` (positive, at most the balance) from `from` to `to`;
    /// the power moves between their delegates.
    pub fn transfer(&mut self, seq: u32, from: AccountId, to: AccountId, amount: i128) -> (r: Result<(), GovError>)
        requires
            old(self).wf(),
            old(self).seq_current(seq),
            amount > 0 && old(self).bal(from) >= amount ==> {
                &&& fits(old(self).bal(to) + amount)
                &&& old(self).move_fits(
                    Some(old(self).delegate_of(from)),
                    Some(old(self).delegate_of(to)),
                    amount,
                )
            },
        ensures
            final(self).wf(),
            old(self).supply_ok() ==> final(self).supply_ok(),
            r == (if amount <= 0 {
                Err(GovError::AmountNotPositive)
            } else if old(self).bal(from) < amount {
                Err(GovError::InsufficientBalance)
            } else {
                Ok(())
            }),
            r.is_err() ==> *final(self) == *old(self),
            r.is_ok() ==> {
                &&& final(self).balances@ == old(self).moved_balances(from, to, amount)
                &&& old(self).power_moved(
                    *final(self),
                    seq,
                    Some(old(self).delegate_of(from)),
                    Some(old(self).delegate_of(to)),
                    amount,
                )
                &&& *final(self) == (Self {
                    balances: final(self).balances,
                    voting_power: final(self).voting_power,
                    checkpoints: final(self).checkpoints,
                    num_checkpoints: final(self).num_checkpoints,
                    ..*old(self)
                })
            },
    {
        if amount <= 0 {
            return Err(GovError::AmountNotPositive);
        }
        let from_balance = self.get_bal(from);
        if from_balance < amount {
            return Err(GovError::InsufficientBalance);
        }
        let ghost s0 = *self;
        self.balances.insert(from, from_balance - amount);
        let ghost m1 = self.balances@;
        let to_balance = self.get_bal(to);
        self.balances.insert(to, to_balance + amount);
        proof {
            lemma_sum_insert(s0.balances@, from, (from_balance - amount) as i128);
            lemma_sum_insert(m1, to, (to_balance + amount) as i128);
        }
        let from_delegate = self.get_del(from);
        let to_delegate = self.get_del(to);
        proof {
            lemma_wf_frame(s0, *self);
        }
        self.move_voting_power(seq, Some(from_delegate), Some(to_delegate), amount);
        Ok(())
    }

    /// Sets `spender`'s allowance over `owner`'s tokens (not negative).
    pub fn approve(&mut self, owner: AccountId, spender: AccountId, amount: i128) -> (r: Result<(), GovError>)
        requires
            old(self).wf(),
        ensures
            final(self).wf(),
            old(self).supply_ok() ==> final(self).supply_ok(),
            r == (if amount < 0 {
                Err(GovError::AmountNegative)
            } else {
                Ok(())
            }),
            r.is_err() ==> *final(self) == *old(self),
            r.is_ok() ==> *final(self) == (Self { allowances: final(self).allowances, ..*old(self) })
                && final(self).allowances@ == old(self).allowances@.insert(pkey(owner, spender), amount),
    {
        if amount < 0 {
            return Err(GovError::AmountNegative);
        }
        let ghost s0 = *self;
        self.allowances.insert(pair_key(owner, spender), amount);
        proof {
            lemma_wf_frame(s0, *self);
        }
        Ok(())
    }

    /// Moves `amount` from `from` to `to` on `spender`'s allowance, which
    /// shrinks by it.
    pub fn transfer_from(&mut self, seq: u32, spender: AccountId, from: AccountId, to: AccountId, amount: i128) -> (r:
        Result<(), GovError>)
        requires
            old(self).wf(),
            old(self).seq_current(seq),
            amount > 0 && old(self).allow(from, spender) >= amount && old(self).bal(from) >= amount ==> {
                &&& fits(old(self).bal(to) + amount)
                &&& old(self).move_fits(
                    Some(old(self).delegate_of(from)),
                    Some(old(self).delegate_of(to)),
                    amount,
                )
            },
        ensures
            final(self).wf(),
            old(self).supply_ok() ==> final(self).supply_ok(),
            r == (if amount <= 0 {
                Err(GovError::AmountNotPositive)
            } else if old(self).allow(from, spender) < amount {
                Err(GovError::InsufficientAllowance)
            } else if old(self).bal(from) < amount {
                Err(GovError::InsufficientBalance)
            } else {
                Ok(())
            }),
            r.is_err() ==> *final(self) == *old(self),
            r.is_ok() ==> {
                &&& final(self).balances@ == old(self).moved_balances(from, to, amount)
                &&& final(self).allowances@ == old(self).allowances@.insert(
                    pkey(from, spender),
                    (old(self).allow(from, spender) - amount) as i128,
                )
                &&& old(self).power_moved(
                    *final(self),
                    seq,
                    Some(old(self).delegate_of(from)),
                    Some(old(self).delegate_of(to)),
                    amount,
                )
                &&& *final(self) == (Self {
                    balances: final(self).balances,
                    allowances: final(self).allowances,
                    voting_power: final(self).voting_power,
                    checkpoints: final(self).checkpoints,
                    num_checkpoints: final(self).num_checkpoints,
                    ..*old(self)
                })
            },
    {
        if amount <= 0 {
            return Err(GovError::AmountNotPositive);
        }
        let key = pair_key(from, spender);
        let allowed: i128 = match self.allowances.get(&key) {
            Some(a) => *a,
            None => 0,
        };
        if allowed < amount {
            return Err(GovError::InsufficientAllowance);
        }
        let from_balance = self.get_bal(from);
        if from_balance < amount {
            return Err(GovError::InsufficientBalance);
        }
        let ghost s0 = *self;
        self.balances.insert(from, from_balance - amount);
        let ghost m1 = self.balances@;
        let to_balance = self.get_bal(to);
        self.balances.insert(to, to_balance + amount);
        proof {
            lemma_sum_insert(s0.balances@, from, (from_balance - amount) as i128);
            lemma_sum_insert(m1, to, (to_balance + amount) as i128);
        }
        self.allowances.insert(key, allowed - amount);
        let from_delegate = self.get_del(from);
        let to_delegate = self.get_del(to);
        proof {
            lemma_wf_frame(s0, *self);
        }
        self.move_voting_power(seq, Some(from_delegate), Some(to_delegate), amount);
        Ok(())
    }

    pub fn balance(&self, account: AccountId) -> (r: i128)
        ensures
            r == self.bal(account),
    {
        self.get_bal(account)
    }

    pub fn total_supply(&self) -> (r: i128)
        ensures
            r == self.total_supply,
    {
        self.total_supply
    }

    pub fn allowance(&self, owner: AccountId, spender: AccountId) -> (r: i128)
        ensures
            r == self.allow(owner, spender),
    {
        match self.allowances.get(&pair_key(owner, spender)) {
            Some(a) => *a,
            None => 0,
        }
    }

    /// The token's name ("Governance Token" before setup).
    pub fn name(&self) -> (r: Vec<u8>)
        ensures
            r@ == (match self.name {
                Some(n) => n@,
                None => seq![71u8, 111, 118, 101, 114, 110, 97, 110, 99, 101, 32, 84, 111, 107, 101, 110],
            }),
    {
        match &self.name {
            Some(n) => crate::common::copy_bytes(n),
            None => vec![71, 111, 118, 101, 114, 110, 97, 110, 99, 101, 32, 84, 111, 107, 101, 110],
        }
    }

    /// The token's symbol ("GOV" before setup).
    pub fn symbol(&self) -> (r: Vec<u8>)
        ensures
            r@ == (match self.symbol {
                Some(n) => n@,
                None => seq![71u8, 79, 86],
            }),
    {
        match &self.symbol {
            Some(n) => crate::common::copy_bytes(n),
            None => vec![71, 79, 86],
        }
    }

    /// The token's decimals (6 before setup).
    pub fn decimals(&self) -> (r: u32)
        ensures
            r == (match self.decimals {
                Some(d) => d,
                None => 6,
            }),
    {
        match self.decimals {
            Some(d) => d,
            None => 6,
        }
    }

    /// Delegates `delegator`'s voting power to `delegatee` (itself to take
    /// it back): a no-op when already so; otherwise a positive balance's
    /// power moves from the current delegate to the new one.
    pub fn delegate(&mut self, seq: u32, delegator: AccountId, delegatee: AccountId) -> (r: Result<(), GovError>)
        requires
            old(self).wf(),
            old(self).seq_current(seq),
            old(self).delegate_of(delegator) != delegatee && old(self).bal(delegator) > 0 ==> old(
                self,
            ).move_fits(Some(old(self).delegate_of(delegator)), Some(delegatee), old(self).bal(delegator)),
        ensures
            final(self).wf(),
            old(self).supply_ok() ==> final(self).supply_ok(),
            r == Ok::<(), GovError>(()),
            old(self).delegate_of(delegator) == delegatee ==> *final(self) == *old(self),
            old(self).delegate_of(delegator) != delegatee ==> {
                let b = old(self).bal(delegator);
                &&& final(self).delegates@ == old(self).delegates@.insert(delegator, delegatee)
                &&& b > 0 ==> old(self).power_moved(
                    *final(self),
                    seq,
                    Some(old(self).delegate_of(delegator)),
                    Some(delegatee),
                    b,
                )
                &&& b <= 0 ==> final(self).voting_power == old(self).voting_power
                    && final(self).checkpoints == old(self).checkpoints && final(self).num_checkpoints
                    == old(self).num_checkpoints
                &&& *final(self) == (Self {
                    delegates: final(self).delegates,
                    voting_power: final(self).voting_power,
                    checkpoints: final(self).checkpoints,
                    num_checkpoints: final(self).num_checkpoints,
                    ..*old(self)
                })
            },
    {
        let current = self.get_del(delegator);
        if current == delegatee {
            return Ok(());
        }
        let balance = self.get_bal(delegator);
        if balance > 0 {
            self.move_voting_power(seq, Some(current), Some(delegatee), balance);
        }
        let ghost s1 = *self;
        self.delegates.insert(delegator, delegatee);
        proof {
            lemma_wf_frame(s1, *self);
            assert forall|a: AccountId| #[trigger] self.power(a) == s1.power(a) by {}
            assert forall|a: AccountId| #[trigger] self.cks(a) == s1.cks(a) by {}
        }
        Ok(())
    }

    pub fn get_voting_power(&self, account: AccountId) -> (r: i128)
        ensures
            r == self.power(account),
    {
        self.get_power(account)
    }

    /// The voting power `account` held at a past `sequence` (before the
    /// current ledger sequence `current_seq`).
    pub fn get_past_votes(&self, current_seq: u32, account: AccountId, sequence: u32) -> (r: Result<i128, GovError>)
        requires
            self.wf(),
        ensures
            sequence >= current_seq ==> r == Err::<i128, GovError>(GovError::SequenceNotFinalized),
            sequence < current_seq ==> r == Ok::<i128, GovError>(past_votes(self.cks(account), sequence)),
    {
        proof {
            assert(sorted(self.cks(account)));
            assert(self.ncks(account) == self.cks(account).len());
        }
        if sequence >= current_seq {
            return Err(GovError::SequenceNotFinalized);
        }
        match self.checkpoints.get(&account) {
            Some(ck) => Ok(find_past_votes(ck, sequence)),
            None => Ok(0),
        }
    }

    pub fn get_delegate(&self, account: AccountId) -> (r: AccountId)
        ensures
            r == self.delegate_of(account),
    {
        self.get_del(account)
    }

    pub fn get_num_checkpoints(&self, account: AccountId) -> (r: u32)
        ensures
            r == self.ncks(account),
    {
        match self.num_checkpoints.get(&account) {
            Some(n) => *n,
            None => 0,
        }
    }

    /// The checks of a proposal, in the contract's order.
    pub open spec fn spec_propose_check(self, proposer: AccountId) -> Result<(), GovError> {
        match self.config {
            None => Err(GovError::NotInitialized),
            Some(c) => if self.power(proposer) < c.proposal_threshold {
                Err(GovError::InsufficientVotingPower)
            } else {
                Ok(())
            },
        }
    }

    /// Creates a proposal under the next id, if `proposer`'s current power
    /// reaches the threshold: voting opens `voting_delay` after `now` and
    /// lasts `voting_period`; votes weigh the power at ledger `seq`; the
    /// quorum is the configured share of the current supply. Returns the id.
    pub fn propose(
        &mut self,
        now: u64,
        seq: u32,
        proposer: AccountId,
        title: Vec<u8>,
        description: Vec<u8>,
        contract_id: AccountId,
        function_name: Vec<u8>,
        category: u32,
    ) -> (r: Result<u64, GovError>)
        requires
            old(self).wf(),
            old(self).spec_propose_check(proposer) is Ok ==> {
                let c = old(self).config->Some_0;
                &&& old(self).proposal_count < u64::MAX
                &&& now + c.voting_delay + c.voting_period <= u64::MAX
                &&& fits(old(self).total_supply * c.quorum_numerator)
            },
        ensures
            final(self).wf(),
            old(self).supply_ok() ==> final(self).supply_ok(),
            old(self).spec_propose_check(proposer) matches Err(e) ==> r == Err::<u64, GovError>(e)
                && *final(self) == *old(self),
            old(self).spec_propose_check(proposer) is Ok ==> {
                let c = old(self).config->Some_0;
                let id = (old(self).proposal_count + 1) as u64;
                let start = (now + c.voting_delay) as u64;
                &&& r == Ok::<u64, GovError>(id)
                &&& final(self).proposals@ == old(self).proposals@.insert(
                    id,
                    Proposal {
                        id,
                        proposer,
                        title,
                        description,
                        action: ProposalAction { contract_id, function_name },
                        start_time: start,
                        end_time: (start + c.voting_period) as u64,
                        snapshot_sequence: seq,
                        for_votes: 0,
                        against_votes: 0,
                        abstain_votes: 0,
                        status: ProposalStatus::Pending,
                        quorum: tdiv(old(self).total_supply * c.quorum_numerator, 100) as i128,
                        eta: 0,
                        category,
                    },
                )
                &&& *final(self) == (Self {
                    proposals: final(self).proposals,
                    proposal_count: id,
                    ..*old(self)
                })
            },
    {
        let config = match self.config {
            Some(c) => c,
            None => return Err(GovError::NotInitialized),
        };
        let power = self.get_power(proposer);
        if power < config.proposal_threshold {
            return Err(GovError::InsufficientVotingPower);
        }
        let id = self.proposal_count + 1;
        self.proposal_count = id;
        let start_time = now + config.voting_delay;
        let end_time = start_time + config.voting_period;
        let quorum = (self.total_supply * (config.quorum_numerator as i128)) / 100;
        let ghost s0 = *self;
        self.proposals.insert(
            id,
            Proposal {
                id,
                proposer,
                title,
                description,
                action: ProposalAction { contract_id, function_name },
                start_time,
                end_time,
                snapshot_sequence: seq,
                for_votes: 0,
                against_votes: 0,
                abstain_votes: 0,
                status: ProposalStatus::Pending,
                quorum,
                eta: 0,
                category,
            },
        );
        proof {
            lemma_wf_frame(*old(self), *self);
            assert(self.total_supply == old(self).total_supply);
        }
        Ok(id)
    }

    /// Whether `voter` voted on proposal `id`.
    pub open spec fn voted(self, id: u64, voter: AccountId) -> bool {
        self.has_voted@.contains_key(pkey(id, voter))
    }

    /// The weight of `voter`'s vote on a proposal with snapshot `snap`: the
    /// power held at the snapshot, or the current power when that is 0.
    pub open spec fn vote_weight(self, voter: AccountId, snap: u32) -> i128 {
        let w = past_votes(self.cks(voter), snap);
        if w == 0 {
            self.power(voter)
        } else {
            w
        }
    }

    /// The checks of a vote, in the contract's order (the weight check
    /// assumes checkpoints in sequence order).
    pub open spec fn spec_vote_check(self, now: u64, voter: AccountId, id: u64) -> Result<(), GovError> {
        if !self.proposals@.contains_key(id) {
            Err(GovError::ProposalNotFound)
        } else {
            let p = self.proposals@[id];
            if now < p.start_time {
                Err(GovError::VotingNotStarted)
            } else if now > p.end_time {
                Err(GovError::VotingEnded)
            } else if self.voted(id, voter) {
                Err(GovError::AlreadyVoted)
            } else if self.vote_weight(voter, p.snapshot_sequence) == 0 {
                Err(GovError::NoVotingPower)
            } else {
                Ok(())
            }
        }
    }

    /// The tallies of proposal `p` after a vote of weight `w`.
    pub open spec fn tallied(p: Proposal, vote_type: VoteType, w: i128) -> Proposal {
        let q = match vote_type {
            VoteType::For => Proposal { for_votes: (p.for_votes + w) as i128, ..p },
            VoteType::Against => Proposal { against_votes: (p.against_votes + w) as i128, ..p },
            VoteType::Abstain => Proposal { abstain_votes: (p.abstain_votes + w) as i128, ..p },
        };
        if q.status == ProposalStatus::Pending {
            Proposal { status: ProposalStatus::Active, ..q }
        } else {
            q
        }
    }

    /// The tally a vote of weight `w` adds to fits.
    pub open spec fn tally_fits(p: Proposal, vote_type: VoteType, w: i128) -> bool {
        match vote_type {
            VoteType::For => fits(p.for_votes + w),
            VoteType::Against => fits(p.against_votes + w),
            VoteType::Abstain => fits(p.abstain_votes + w),
        }
    }

    /// Votes on a proposal whose voting window holds `now`, once per voter,
    /// with the power the voter held at the proposal's snapshot (its current
    /// power when that is 0, which must then be positive). The vote is added
    /// to its tally, a pending proposal becomes active, and a receipt is
    /// kept.
    pub fn vote(&mut self, now: u64, voter: AccountId, proposal_id: u64, vote_type: VoteType) -> (r: Result<(), GovError>)
        requires
            old(self).wf(),
            old(self).spec_vote_check(now, voter, proposal_id) is Ok ==> Self::tally_fits(
                old(self).proposals@[proposal_id],
                vote_type,
                old(self).vote_weight(voter, old(self).proposals@[proposal_id].snapshot_sequence),
            ),
        ensures
            final(self).wf(),
            old(self).supply_ok() ==> final(self).supply_ok(),
            r == old(self).spec_vote_check(now, voter, proposal_id),
            r.is_err() ==> *final(self) == *old(self),
            r.is_ok() ==> {
                let p = old(self).proposals@[proposal_id];
                let w = old(self).vote_weight(voter, p.snapshot_sequence);
                &&& final(self).proposals@ == old(self).proposals@.insert(
                    proposal_id,
                    Self::tallied(p, vote_type, w),
                )
                &&& final(self).has_voted@ == old(self).has_voted@.insert(pkey(proposal_id, voter), true)
                &&& final(self).receipts@ == old(self).receipts@.insert(
                    pkey(proposal_id, voter),
                    VoteReceipt { vote_type, weight: w },
                )
                &&& *final(self) == (Self {
                    proposals: final(self).proposals,
                    has_voted: final(self).has_voted,
                    receipts: final(self).receipts,
                    ..*old(self)
                })
            },
    {
        let (start, end, snap) = match self.proposals.get(&proposal_id) {
            Some(p) => (p.start_time, p.end_time, p.snapshot_sequence),
            None => return Err(GovError::ProposalNotFound),
        };
        if now < start {
            return Err(GovError::VotingNotStarted);
        }
        if now > end {
            return Err(GovError::VotingEnded);
        }
        let key = pair_key(proposal_id, voter);
        if self.has_voted.contains_key(&key) {
            return Err(GovError::AlreadyVoted);
        }
        proof {
            assert(sorted(old(self).cks(voter)));
            assert(old(self).ncks(voter) == old(self).cks(voter).len());
        }
        let past = match self.checkpoints.get(&voter) {
            Some(ck) => find_past_votes(ck, snap),
            None => 0,
        };
        let weight = if past == 0 {
            let current = self.get_power(voter);
            if current == 0 {
                return Err(GovError::NoVotingPower);
            }
            current
        } else {
            past
        };
        let mut p = match self.proposals.remove(&proposal_id) {
            Some(p) => p,
            None => return Err(GovError::ProposalNotFound),
        };
        match vote_type {
            VoteType::For => p.for_votes = p.for_votes + weight,
            VoteType::Against => p.against_votes = p.against_votes + weight,
            VoteType::Abstain => p.abstain_votes = p.abstain_votes + weight,
        }
        if p.status == ProposalStatus::Pending {
            p.status = ProposalStatus::Active;
        }
        self.proposals.insert(proposal_id, p);
        self.has_voted.insert(key, true);
        self.receipts.insert(key, VoteReceipt { vote_type, weight });
        proof {
            lemma_wf_frame(*old(self), *self);
            assert(self.proposals@ =~= old(self).proposals@.insert(proposal_id, self.proposals@[proposal_id]));
        }
        Ok(())
    }

    /// The checks of queueing, in the contract's order.
    pub open spec fn spec_queue_check(self, now: u64, id: u64) -> Result<(), GovError> {
        if !self.proposals@.contains_key(id) {
            Err(GovError::ProposalNotFound)
        } else {
            let p = self.proposals@[id];
            if now <= p.end_time {
                Err(GovError::VotingPeriodNotEnded)
            } else if p.status != ProposalStatus::Pending && p.status != ProposalStatus::Active {
                Err(GovError::ProposalNotVoteable)
            } else if p.for_votes + p.against_votes + p.abstain_votes < p.quorum {
                Err(GovError::QuorumNotReached)
            } else if p.for_votes <= p.against_votes {
                Err(GovError::ProposalDefeated)
            } else if self.config is None {
                Err(GovError::NotInitialized)
            } else {
                Ok(())
            }
        }
    }

    /// Queues a proposal after its vote: it needs the quorum (all votes
    /// counted) and more votes for than against; it may run from `now` plus
    /// the timelock.
    pub fn queue(&mut self, now: u64, proposal_id: u64) -> (r: Result<(), GovError>)
        requires
            old(self).wf(),
            old(self).proposals@.contains_key(proposal_id) ==> fits(
                old(self).proposals@[proposal_id].for_votes + old(
                    self,
                ).proposals@[proposal_id].against_votes,
            ) && fits(
                old(self).proposals@[proposal_id].for_votes + old(
                    self,
                ).proposals@[proposal_id].against_votes + old(
                    self,
                ).proposals@[proposal_id].abstain_votes,
            ),
            old(self).spec_queue_check(now, proposal_id) is Ok ==> now + old(
                self,
            ).config->Some_0.timelock_delay <= u64::MAX,
        ensures
            final(self).wf(),
            old(self).supply_ok() ==> final(self).supply_ok(),
            r == old(self).spec_queue_check(now, proposal_id),
            r.is_err() ==> *final(self) == *old(self),
            r.is_ok() ==> final(self).proposals@.contains_key(proposal_id) && final(self).proposals@
                == old(self).proposals@.insert(proposal_id, final(self).proposals@[proposal_id])
                && final(self).proposals@[proposal_id] == (Proposal {
                eta: (now + old(self).config->Some_0.timelock_delay) as u64,
                status: ProposalStatus::Queued,
                ..old(self).proposals@[proposal_id]
            }) && *final(self) == (Self { proposals: final(self).proposals, ..*old(self) }),
    {
        let (end, status, fv, av, xv, quorum) = match self.proposals.get(&proposal_id) {
            Some(p) => (p.end_time, p.status, p.for_votes, p.against_votes, p.abstain_votes, p.quorum),
            None => return Err(GovError::ProposalNotFound),
        };
        if now <= end {
            return Err(GovError::VotingPeriodNotEnded);
        }
        if status != ProposalStatus::Pending && status != ProposalStatus::Active {
            return Err(GovError::ProposalNotVoteable);
        }
        let total_votes = fv + av + xv;
        if total_votes < quorum {
            return Err(GovError::QuorumNotReached);
        }
        if fv <= av {
            return Err(GovError::ProposalDefeated);
        }
        let config = match self.config {
            Some(c) => c,
            None => return Err(GovError::NotInitialized),
        };
        let mut p = match self.proposals.remove(&proposal_id) {
            Some(p) => p,
            None => return Err(GovError::ProposalNotFound),
        };
        p.eta = now + config.timelock_delay;
        p.status = ProposalStatus::Queued;
        self.proposals.insert(proposal_id, p);
        proof {
            lemma_wf_frame(*old(self), *self);
            assert(self.proposals@ =~= old(self).proposals@.insert(proposal_id, self.proposals@[proposal_id]));
        }
        Ok(())
    }

    /// The checks of an execution, in the contract's order.
    pub open spec fn spec_execute_check(self, now: u64, id: u64) -> Result<(), GovError> {
        if !self.proposals@.contains_key(id) {
            Err(GovError::ProposalNotFound)
        } else {
            let p = self.proposals@[id];
            if p.status != ProposalStatus::Queued {
                Err(GovError::ProposalNotQueued)
            } else if now < p.eta {
                Err(GovError::TimelockNotElapsed)
            } else if self.config is None {
                Err(GovError::NotInitialized)
            } else if now > p.eta + self.config->Some_0.grace_period {
                Err(GovError::GracePeriodExpired)
            } else {
                Ok(())
            }
        }
    }

    /// Executes a queued proposal once its timelock has passed and before
    /// the grace period ends: it becomes Executed, and the call it holds
    /// (contract, function) is returned for the host to make with the
    /// stored arguments.
    pub fn execute(&mut self, now: u64, proposal_id: u64) -> (r: Result<(AccountId, Vec<u8>), GovError>)
        requires
            old(self).wf(),
            old(self).proposals@.contains_key(proposal_id) && old(self).proposals@[proposal_id].status
                == ProposalStatus::Queued && now >= old(self).proposals@[proposal_id].eta && old(
                self,
            ).config is Some ==> old(self).proposals@[proposal_id].eta + old(
                self,
            ).config->Some_0.grace_period <= u64::MAX,
        ensures
            final(self).wf(),
            old(self).supply_ok() ==> final(self).supply_ok(),
            match old(self).spec_execute_check(now, proposal_id) {
                Err(e) => r == Err::<(AccountId, Vec<u8>), GovError>(e) && *final(self) == *old(self),
                Ok(_) => {
                    let p = old(self).proposals@[proposal_id];
                    &&& r matches Ok((c, f)) && c == p.action.contract_id && f@ == p.action.function_name@
                    &&& final(self).proposals@.contains_key(proposal_id)
                    &&& final(self).proposals@ == old(self).proposals@.insert(
                        proposal_id,
                        final(self).proposals@[proposal_id],
                    )
                    &&& final(self).proposals@[proposal_id] == (Proposal {
                        status: ProposalStatus::Executed,
                        ..p
                    })
                    &&& *final(self) == (Self { proposals: final(self).proposals, ..*old(self) })
                },
            },
    {
        let (status, eta) = match self.proposals.get(&proposal_id) {
            Some(p) => (p.status, p.eta),
            None => return Err(GovError::ProposalNotFound),
        };
        if status != ProposalStatus::Queued {
            return Err(GovError::ProposalNotQueued);
        }
        if now < eta {
            return Err(GovError::TimelockNotElapsed);
        }
        let config = match self.config {
            Some(c) => c,
            None => return Err(GovError::NotInitialized),
        };
        if now > eta + config.grace_period {
            return Err(GovError::GracePeriodExpired);
        }
        let mut p = match self.proposals.remove(&proposal_id) {
            Some(p) => p,
            None => return Err(GovError::ProposalNotFound),
        };
        let call = (p.action.contract_id, crate::common::copy_bytes(&p.action.function_name));
        p.status = ProposalStatus::Executed;
        self.proposals.insert(proposal_id, p);
        proof {
            lemma_wf_frame(*old(self), *self);
            assert(self.proposals@ =~= old(self).proposals@.insert(proposal_id, self.proposals@[proposal_id]));
        }
        Ok(call)
    }

    /// Cancels a proposal (its proposer only, before voting opens).
    pub fn cancel(&mut self, now: u64, proposer: AccountId, proposal_id: u64) -> (r: Result<(), GovError>)
        requires
            old(self).wf(),
        ensures
            final(self).wf(),
            old(self).supply_ok() ==> final(self).supply_ok(),
            r == (if !old(self).proposals@.contains_key(proposal_id) {
                Err(GovError::ProposalNotFound)
            } else if old(self).proposals@[proposal_id].proposer != proposer {
                Err(GovError::NotProposer)
            } else if now >= old(self).proposals@[proposal_id].start_time {
                Err(GovError::VotingAlreadyStarted)
            } else {
                Ok(())
            }),
            r.is_err() ==> *final(self) == *old(self),
            r.is_ok() ==> final(self).proposals@.contains_key(proposal_id) && final(self).proposals@
                == old(self).proposals@.insert(proposal_id, final(self).proposals@[proposal_id])
                && final(self).proposals@[proposal_id] == (Proposal {
                status: ProposalStatus::Canceled,
                ..old(self).proposals@[proposal_id]
            }) && *final(self) == (Self { proposals: final(self).proposals, ..*old(self) }),
    {
        let (owner, start) = match self.proposals.get(&proposal_id) {
            Some(p) => (p.proposer, p.start_time),
            None => return Err(GovError::ProposalNotFound),
        };
        if owner != proposer {
            return Err(GovError::NotProposer);
        }
        if now >= start {
            return Err(GovError::VotingAlreadyStarted);
        }
        let mut p = match self.proposals.remove(&proposal_id) {
            Some(p) => p,
            None => return Err(GovError::ProposalNotFound),
        };
        p.status = ProposalStatus::Canceled;
        self.proposals.insert(proposal_id, p);
        proof {
            lemma_wf_frame(*old(self), *self);
            assert(self.proposals@ =~= old(self).proposals@.insert(proposal_id, self.proposals@[proposal_id]));
        }
        Ok(())
    }

    pub fn get_proposal_info(&self, proposal_id: u64) -> (r: Result<&Proposal, GovError>)
        ensures
            r == (if self.proposals@.contains_key(proposal_id) {
                Ok::<&Proposal, GovError>(&self.proposals@[proposal_id])
            } else {
                Err::<&Proposal, GovError>(GovError::ProposalNotFound)
            }),
    {
        match self.proposals.get(&proposal_id) {
            Some(p) => Ok(p),
            None => Err(GovError::ProposalNotFound),
        }
    }

    pub fn get_vote_receipt(&self, proposal_id: u64, voter: AccountId) -> (r: Result<VoteReceipt, GovError>)
        ensures
            r == (if self.receipts@.contains_key(pkey(proposal_id, voter)) {
                Ok(self.receipts@[pkey(proposal_id, voter)])
            } else {
                Err(GovError::NoVoteReceipt)
            }),
    {
        match self.receipts.get(&pair_key(proposal_id, voter)) {
            Some(rc) => Ok(*rc),
            None => Err(GovError::NoVoteReceipt),
        }
    }

    pub fn get_config_info(&self) -> (r: Result<GovernanceConfig, GovError>)
        ensures
            r == (match self.config {
                Some(c) => Ok(c),
                None => Err(GovError::NotInitialized),
            }),
    {
        match self.config {
            Some(c) => Ok(c),
            None => Err(GovError::NotInitialized),
        }
    }
}

/// Recording a checkpoint at a sequence no earlier than the newest keeps the
/// list in sequence order; afterwards the power held at any sequence from
/// `seq` on is the recorded one, and at earlier sequences it is unchanged.
pub proof fn lemma_checkpoint_write(ck: Seq<Checkpoint>, seq: u32, votes: i128, query: u32)
    requires
        sorted(ck),
        ck.len() > 0 ==> ck.last().sequence <= seq,
    ensures
        sorted(written(ck, seq, votes)),
        query >= seq ==> past_votes(written(ck, seq, votes), query) == votes,
        query < seq ==> past_votes(written(ck, seq, votes), query) == past_votes(ck, query),
{
    let w = written(ck, seq, votes);
    assert(sorted(w)) by {
        assert forall|i: int, j: int| 0 <= i <= j < w.len() implies w[i].sequence <= w[j].sequence by {
            if j == w.len() - 1 {
                if i < ck.len() {
                    assert(ck[i].sequence <= ck.last().sequence);
                }
            } else {
                assert(w[i] == ck[i] && w[j] == ck[j]);
            }
        }
    }
    if query < seq {
        if ck.len() > 0 && ck.last().sequence == seq {
            assert(w.drop_last() =~= ck.drop_last());
        } else {
            assert(w.drop_last() =~= ck);
        }
    }
}

/// A voter votes at most once on a proposal: after a vote goes through,
/// every further vote by the same voter on it fails.
pub proof fn lemma_vote_once(s0: GovernanceToken, s1: GovernanceToken, now: u64, now2: u64, voter: AccountId, id: u64)
    requires
        s0.spec_vote_check(now, voter, id) is Ok,
        s1.has_voted@ == s0.has_voted@.insert(pkey(id, voter), true),
        s1.proposals@.dom() == s0.proposals@.dom(),
    ensures
        s1.spec_vote_check(now2, voter, id) is Err,
{
}

/// A vote of weight `w` adds exactly `w` to the tally of its own kind and
/// leaves the other two tallies as they were, so the three together grow
/// by `w`.
pub proof fn lemma_vote_adds_weight(p: Proposal, vote_type: VoteType, w: i128)
    requires
        GovernanceToken::tally_fits(p, vote_type, w),
    ensures
        GovernanceToken::tallied(p, vote_type, w).for_votes == p.for_votes + (if vote_type is For {
            w as int
        } else {
            0
        }),
        GovernanceToken::tallied(p, vote_type, w).against_votes == p.against_votes + (if vote_type is Against {
            w as int
        } else {
            0
        }),
        GovernanceToken::tallied(p, vote_type, w).abstain_votes == p.abstain_votes + (if vote_type is Abstain {
            w as int
        } else {
            0
        }),
        GovernanceToken::tallied(p, vote_type, w).for_votes + GovernanceToken::tallied(
            p,
            vote_type,
            w,
        ).against_votes + GovernanceToken::tallied(p, vote_type, w).abstain_votes == p.for_votes
            + p.against_votes + p.abstain_votes + w,
{
}

/// Only a proposal whose voting has ended, which reached its quorum and
/// has strictly more votes for than against can be queued.
pub proof fn lemma_queue_needs_majority(s: GovernanceToken, now: u64, id: u64)
    requires
        s.spec_queue_check(now, id) is Ok,
    ensures
        s.proposals@.contains_key(id),
        now > s.proposals@[id].end_time,
        s.proposals@[id].for_votes > s.proposals@[id].against_votes,
        s.proposals@[id].for_votes + s.proposals@[id].against_votes + s.proposals@[id].abstain_votes
            >= s.proposals@[id].quorum,
{
}

} // verus!
