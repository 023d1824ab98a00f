//! Batches of quest operations: queued by creators, executed in order by the
//! admin, atomically (stop at the first failure) or partially (record each
//! failure and go on), with a per-operation history.
use std::collections::HashMap;
use vstd::prelude::*;

verus! {

broadcast use vstd::std_specs::hash::group_hash_axioms;

/// An account or contract address, identified by a number.
pub type AccountId = u64;

#[derive(Clone, Copy, Debug, PartialEq, Eq, Structural)]
pub enum BatchStatus {
    Queued,
    Executing,
    Succeeded,
    Failed,
    Cancelled,
}

#[derive(Clone, Copy, Debug, PartialEq, Eq, Structural)]
pub enum BatchErrorCode {
    BadBatch,
    NotInitialized,
    Unauthorized,
    Paused,
    NotQueued,
    AlreadyExecuting,
    EmptyBatch,
    ConcurrencyLimitExceeded,
    ExecutionFailed,
}

#[derive(Clone, Copy, Debug, PartialEq, Eq, Structural)]
pub struct OperationResult {
    pub index: u32,
    pub ok: bool,
    pub error_code: u32,
}

#[derive(Clone, Copy, Debug, PartialEq, Eq, Structural)]
pub enum Difficulty {
    Easy,
    Medium,
    Hard,
    Legendary,
}

#[derive(Clone, Copy, Debug, PartialEq, Eq, Structural)]
pub enum TokenType {
    Native,
    ERC20,
    ERC721,
}

#[derive(Clone, Copy, Debug, PartialEq, Eq, Structural)]
pub struct Reward {
    pub token_type: TokenType,
    pub token_address: Option<AccountId>,
    pub amount: i128,
}

#[derive(Debug)]
pub struct QuestInput {
    pub title: Vec<u8>,
    pub description: Vec<u8>,
    pub tags: Vec<Vec<u8>>,
    pub reward: i128,
    pub difficulty: Difficulty,
    pub rewards: Vec<Reward>,
}

/// An operation of a batch, addressed to a quest contract.
#[derive(Debug)]
pub enum BatchOperation {
    /// (quest contract, creator, quests)
    QuestCreateBatch(AccountId, AccountId, Vec<QuestInput>),
    /// (quest contract, participant, quest id)
    QuestClaimReward(AccountId, AccountId, u64),
}

#[derive(Debug)]
pub struct Batch {
    pub id: u64,
    pub creator: AccountId,
    pub status: BatchStatus,
    pub atomic: bool,
    pub operations: Vec<BatchOperation>,
    pub created_at: u64,
    pub finished_at: Option<u64>,
    pub history: Vec<OperationResult>,
    pub failed_at_index: Option<u32>,
}

/// The contract's storage.
pub struct BatchProcessingContract {
    pub admin: Option<AccountId>,
    pub paused: Option<bool>,
    pub batch_counter: Option<u64>,
    pub active_executions: Option<u32>,
    pub queue_head: Option<u64>,
    pub queue_tail: Option<u64>,
    pub batches: HashMap<u64, Batch>,
    pub queue_slots: HashMap<u64, u64>,
}

/// `o.unwrap_or(d)`.
pub open spec fn or_default<T>(o: Option<T>, d: T) -> T {
    match o {
        Some(v) => v,
        None => d,
    }
}

/// An operation passes the queue-time check: a quest-creation batch names at
/// least one quest.
pub open spec fn spec_operation_valid(op: BatchOperation) -> bool {
    match op {
        BatchOperation::QuestCreateBatch(_, _, quests) => quests.len() > 0,
        BatchOperation::QuestClaimReward(_, _, _) => true,
    }
}

/// Every operation passes the queue-time check.
pub open spec fn all_operations_valid(ops: Seq<BatchOperation>) -> bool {
    forall|i: int| 0 <= i < ops.len() ==> spec_operation_valid(#[trigger] ops[i])
}

/// Queue-time check of one operation (`BadBatch` for an empty quest list).
pub fn validate_operation(op: &BatchOperation) -> (r: Result<(), BatchErrorCode>)
    ensures
        r == (if spec_operation_valid(*op) {
            Ok(())
        } else {
            Err(BatchErrorCode::BadBatch)
        }),
{
    match op {
        BatchOperation::QuestCreateBatch(_, _, quests) => {
            if quests.len() == 0 {
                return Err(BatchErrorCode::BadBatch);
            }
            Ok(())
        },
        BatchOperation::QuestClaimReward(_, _, _) => Ok(()),
    }
}

/// Runs one operation. Operations are not dispatched to the quest contract:
/// every operation succeeds.
pub fn execute_operation(op: &BatchOperation, batch_creator: AccountId) -> (r: Result<(), u32>)
    ensures
        r == Ok::<(), u32>(()),
{
    Ok(())
}

/// The history of a batch of `n` operations that all succeeded.
pub open spec fn all_ok_history(n: nat) -> Seq<OperationResult> {
    Seq::new(n, |i: int| OperationResult { index: i as u32, ok: true, error_code: 0 })
}

/// The history entry of operation `i`, which gave `o`.
pub open spec fn op_result(i: int, o: Result<(), u32>) -> OperationResult {
    match o {
        Ok(_) => OperationResult { index: i as u32, ok: true, error_code: 0 },
        Err(c) => OperationResult { index: i as u32, ok: false, error_code: c },
    }
}

/// The history of a batch whose operations gave `outs`, in order.
pub open spec fn history_of(outs: Seq<Result<(), u32>>) -> Seq<OperationResult> {
    Seq::new(outs.len(), |i: int| op_result(i, outs[i]))
}

/// The failure index after the operations gave `outs`: the last operation
/// that failed, or `init` when none did.
pub open spec fn last_failed(outs: Seq<Result<(), u32>>, init: Option<u32>) -> Option<u32>
    decreases outs.len(),
{
    if outs.len() == 0 {
        init
    } else if outs.last() is Err {
        Some((outs.len() - 1) as u32)
    } else {
        last_failed(outs.drop_last(), init)
    }
}

/// Some operation failed.
pub open spec fn any_failed(outs: Seq<Result<(), u32>>) -> bool {
    exists|i: int| 0 <= i < outs.len() && (#[trigger] outs[i]) is Err
}

/// Every operation succeeded.
pub open spec fn all_ok(outs: Seq<Result<(), u32>>) -> bool {
    forall|i: int| 0 <= i < outs.len() ==> (#[trigger] outs[i]) is Ok
}

/// When every operation succeeded, the history is all successes, the
/// failure index is left as it was, and nothing failed.
pub proof fn lemma_all_ok(outs: Seq<Result<(), u32>>, init: Option<u32>)
    requires
        all_ok(outs),
    ensures
        history_of(outs) == all_ok_history(outs.len()),
        last_failed(outs, init) == init,
        !any_failed(outs),
    decreases outs.len(),
{
    assert(history_of(outs) =~= all_ok_history(outs.len()));
    if outs.len() > 0 {
        assert(outs[outs.len() - 1] is Ok);
        assert(all_ok(outs.drop_last()));
        lemma_all_ok(outs.drop_last(), init);
    }
}

/// Runs the operations of a batch created by `creator`, in order, and
/// gives what each returned.
pub fn run_operations(ops: &Vec<BatchOperation>, creator: AccountId) -> (r: Vec<Result<(), u32>>)
    ensures
        r@.len() == ops@.len(),
        all_ok(r@),
{
    let mut r: Vec<Result<(), u32>> = Vec::new();
    let mut i: usize = 0;
    while i < ops.len()
        invariant
            i <= ops.len(),
            r@.len() == i,
            all_ok(r@),
        decreases ops.len() - i,
    {
        let o = execute_operation(&ops[i], creator);
        r.push(o);
        i = i + 1;
    }
    r
}

/// A batch as plain values.
pub struct BatchView {
    pub id: u64,
    pub creator: AccountId,
    pub status: BatchStatus,
    pub atomic: bool,
    pub operations: Seq<BatchOperation>,
    pub created_at: u64,
    pub finished_at: Option<u64>,
    pub history: Seq<OperationResult>,
    pub failed_at_index: Option<u32>,
}

pub open spec fn view_of(b: Batch) -> BatchView {
    BatchView {
        id: b.id,
        creator: b.creator,
        status: b.status,
        atomic: b.atomic,
        operations: b.operations@,
        created_at: b.created_at,
        finished_at: b.finished_at,
        history: b.history@,
        failed_at_index: b.failed_at_index,
    }
}

/// A batch after it ran to the end at `now`: every operation succeeded.
pub open spec fn ran(b: BatchView, now: u64) -> BatchView {
    BatchView {
        status: if b.failed_at_index.is_some() {
            BatchStatus::Failed
        } else {
            BatchStatus::Succeeded
        },
        finished_at: Some(now),
        history: all_ok_history(b.operations.len()),
        ..b
    }
}

/// The batches and the execution counter after running the batches of
/// queue slots `head`, `head + 1`, ..., `head + n - 1` in order at `now`,
/// or the first error: a missing slot or batch (`BadBatch`), a batch no
/// longer queued (`NotQueued`), or an execution already under way.
pub open spec fn queue_run(
    batches: Map<u64, BatchView>,
    active: Option<u32>,
    slots: Map<u64, u64>,
    head: u64,
    n: nat,
    now: u64,
) -> Result<(Map<u64, BatchView>, Option<u32>), BatchErrorCode>
    decreases n,
{
    if n == 0 {
        Ok((batches, active))
    } else {
        match queue_run(batches, active, slots, head, (n - 1) as nat, now) {
            Err(e) => Err(e),
            Ok((m, a)) => {
                let pos = head + n - 1;
                if pos > u64::MAX || !slots.contains_key(pos as u64) {
                    Err(BatchErrorCode::BadBatch)
                } else {
                    let id = slots[pos as u64];
                    if !m.contains_key(id) {
                        Err(BatchErrorCode::BadBatch)
                    } else if m[id].status != BatchStatus::Queued {
                        Err(BatchErrorCode::NotQueued)
                    } else if or_default(a, 0u32) >= 1 {
                        Err(BatchErrorCode::AlreadyExecuting)
                    } else {
                        Ok((m.insert(id, ran(m[id], now)), Some(0u32)))
                    }
                }
            },
        }
    }
}

/// Once a run fails, every longer run fails with the same error.
pub proof fn lemma_run_stops(
    batches: Map<u64, BatchView>,
    active: Option<u32>,
    slots: Map<u64, u64>,
    head: u64,
    k: nat,
    n: nat,
    now: u64,
)
    requires
        k <= n,
        queue_run(batches, active, slots, head, k, now) is Err,
    ensures
        queue_run(batches, active, slots, head, n, now) == queue_run(batches, active, slots, head, k, now),
    decreases n - k,
{
    if k < n {
        lemma_run_stops(batches, active, slots, head, k, (n - 1) as nat, now);
    }
}

impl BatchProcessingContract {
    /// Storage of a contract that has not been initialized.
    pub fn new() -> (r: Self)
        ensures
            r.admin.is_none() && r.paused.is_none() && r.batch_counter.is_none(),
            r.active_executions.is_none() && r.queue_head.is_none() && r.queue_tail.is_none(),
            r.batches@ == Map::<u64, Batch>::empty(),
            r.queue_slots@ == Map::<u64, u64>::empty(),
    {
        BatchProcessingContract {
            admin: None,
            paused: None,
            batch_counter: None,
            active_executions: None,
            queue_head: None,
            queue_tail: None,
            batches: HashMap::new(),
            queue_slots: HashMap::new(),
        }
    }

    /// Sets the admin, unpaused, with zero counters and an empty queue.
    /// A second call fails (with `NotInitialized`, the code this contract
    /// reports for it) and changes nothing.
    pub fn initialize(&mut self, admin: AccountId) -> (r: Result<(), BatchErrorCode>)
        ensures
            old(self).admin.is_some() ==> r == Err::<(), _>(BatchErrorCode::NotInitialized)
                && *final(self) == *old(self),
            old(self).admin.is_none() ==> r is Ok && *final(self) == (BatchProcessingContract {
                admin: Some(admin),
                paused: Some(false),
                batch_counter: Some(0u64),
                active_executions: Some(0u32),
                queue_head: Some(0u64),
                queue_tail: Some(0u64),
                ..*old(self)
            }),
    {
        if self.admin.is_some() {
            return Err(BatchErrorCode::NotInitialized);
        }
        self.admin = Some(admin);
        self.paused = Some(false);
        self.batch_counter = Some(0);
        self.active_executions = Some(0);
        self.queue_head = Some(0);
        self.queue_tail = Some(0);
        Ok(())
    }

    /// The caller must be the stored admin.
    pub open spec fn spec_require_admin(self, caller: AccountId) -> Result<(), BatchErrorCode> {
        match self.admin {
            None => Err(BatchErrorCode::NotInitialized),
            Some(a) => if a == caller {
                Ok(())
            } else {
                Err(BatchErrorCode::Unauthorized)
            },
        }
    }

    pub fn require_admin(&self, caller: AccountId) -> (r: Result<(), BatchErrorCode>)
        ensures
            r == self.spec_require_admin(caller),
    {
        match self.admin {
            None => Err(BatchErrorCode::NotInitialized),
            Some(a) => if a != caller {
                Err(BatchErrorCode::Unauthorized)
            } else {
                Ok(())
            },
        }
    }

    /// Whether the contract is paused (not paused when never set).
    pub fn is_paused(&self) -> (r: bool)
        ensures
            r == or_default(self.paused, false),
    {
        match self.paused {
            Some(p) => p,
            None => false,
        }
    }

    pub fn require_not_paused(&self) -> (r: Result<(), BatchErrorCode>)
        ensures
            r == (if or_default(self.paused, false) {
                Err(BatchErrorCode::Paused)
            } else {
                Ok(())
            }),
    {
        if self.is_paused() {
            return Err(BatchErrorCode::Paused);
        }
        Ok(())
    }

    /// Pauses the contract (admin only).
    pub fn pause(&mut self, caller: AccountId) -> (r: Result<(), BatchErrorCode>)
        ensures
            r == old(self).spec_require_admin(caller),
            r.is_err() ==> *final(self) == *old(self),
            r.is_ok() ==> *final(self) == (BatchProcessingContract {
                paused: Some(true),
                ..*old(self)
            }),
    {
        self.require_admin(caller)?;
        self.paused = Some(true);
        Ok(())
    }

    /// Unpauses the contract (admin only).
    pub fn unpause(&mut self, caller: AccountId) -> (r: Result<(), BatchErrorCode>)
        ensures
            r == old(self).spec_require_admin(caller),
            r.is_err() ==> *final(self) == *old(self),
            r.is_ok() ==> *final(self) == (BatchProcessingContract {
                paused: Some(false),
                ..*old(self)
            }),
    {
        self.require_admin(caller)?;
        self.paused = Some(false);
        Ok(())
    }

    /// Hands out the next batch id (counter + 1) and stores it as the counter.
    pub fn next_batch_id(&mut self) -> (id: u64)
        requires
            or_default(old(self).batch_counter, 0u64) < u64::MAX,
        ensures
            id == or_default(old(self).batch_counter, 0u64) + 1,
            *final(self) == (BatchProcessingContract { batch_counter: Some(id), ..*old(self) }),
    {
        let current = match self.batch_counter {
            Some(c) => c,
            None => 0,
        };
        let next = current + 1;
        self.batch_counter = Some(next);
        next
    }

    /// The outcome of `queue_batch` before any change.
    pub open spec fn spec_queue_batch(self, operations: Seq<BatchOperation>) -> Result<
        u64,
        BatchErrorCode,
    > {
        if or_default(self.paused, false) {
            Err(BatchErrorCode::Paused)
        } else if operations.len() == 0 {
            Err(BatchErrorCode::EmptyBatch)
        } else if !all_operations_valid(operations) {
            Err(BatchErrorCode::BadBatch)
        } else {
            Ok((or_default(self.batch_counter, 0u64) + 1) as u64)
        }
    }

    /// Queues a non-empty batch of valid operations under a fresh id.
    pub fn queue_batch(
        &mut self,
        now: u64,
        creator: AccountId,
        atomic: bool,
        operations: Vec<BatchOperation>,
    ) -> (r: Result<u64, BatchErrorCode>)
        requires
            or_default(old(self).batch_counter, 0u64) < u64::MAX,
            or_default(old(self).queue_tail, 0u64) < u64::MAX,
        ensures
            r == old(self).spec_queue_batch(operations@),
            r.is_err() ==> *final(self) == *old(self),
            r matches Ok(id) ==> {
                let tail = or_default(old(self).queue_tail, 0u64);
                let b = final(self).batches@[id];
                &&& final(self).batch_counter == Some(id)
                &&& final(self).batches@ == old(self).batches@.insert(id, b)
                &&& b.id == id && b.creator == creator && b.status == BatchStatus::Queued
                &&& b.atomic == atomic && b.operations@ == operations@ && b.created_at == now
                &&& b.finished_at.is_none() && b.history@.len() == 0 && b.failed_at_index.is_none()
                &&& final(self).queue_slots@ == old(self).queue_slots@.insert(tail, id)
                &&& final(self).queue_tail == Some((tail + 1) as u64)
                &&& final(self).admin == old(self).admin
                &&& final(self).paused == old(self).paused
                &&& final(self).active_executions == old(self).active_executions
                &&& final(self).queue_head == old(self).queue_head
            },
    {
        self.require_not_paused()?;
        if operations.len() == 0 {
            return Err(BatchErrorCode::EmptyBatch);
        }
        let mut i: usize = 0;
        while i < operations.len()
            invariant
                i <= operations.len(),
                operations@.len() > 0,
                *self == *old(self),
                !or_default(old(self).paused, false),
                forall|j: int| 0 <= j < i ==> spec_operation_valid(#[trigger] operations@[j]),
            decreases operations.len() - i,
        {
            let checked = validate_operation(&operations[i]);
            if checked.is_err() {
                assert(!spec_operation_valid(operations@[i as int]));
                assert(!all_operations_valid(operations@));

                return Err(BatchErrorCode::BadBatch);
            }
            i = i + 1;
        }
        let id = self.next_batch_id();
        let batch = Batch {
            id,
            creator,
            status: BatchStatus::Queued,
            atomic,
            operations,
            created_at: now,
            finished_at: None,
            history: Vec::new(),
            failed_at_index: None,
        };
        self.batches.insert(id, batch);
        let tail = match self.queue_tail {
            Some(t) => t,
            None => 0,
        };
        self.queue_tail = Some(tail + 1);
        self.queue_slots.insert(tail, id);
        Ok(id)
    }

    /// What executing batch `batch_id` reports before any change.
    pub open spec fn spec_execute_check(self, batch_id: u64) -> Result<(), BatchErrorCode> {
        if !self.batches@.contains_key(batch_id) {
            Err(BatchErrorCode::BadBatch)
        } else if self.batches@[batch_id].status != BatchStatus::Queued {
            Err(BatchErrorCode::NotQueued)
        } else if or_default(self.active_executions, 0u32) >= 1 {
            Err(BatchErrorCode::AlreadyExecuting)
        } else {
            Ok(())
        }
    }

    /// Batch `batch_id` ran to the end at `now` and the queue is untouched.
    pub open spec fn executed_from(self, old: Self, batch_id: u64, now: u64) -> bool {
        self.executed_core(old, batch_id, now) && self.queue_head == old.queue_head
    }

    /// Batch `batch_id` ran to the end at `now`: every operation succeeded.
    pub open spec fn executed_core(self, old: Self, batch_id: u64, now: u64) -> bool {
        let ob = old.batches@[batch_id];
        let b = self.batches@[batch_id];
        &&& self.batches@ == old.batches@.insert(batch_id, b)
        &&& b.id == ob.id && b.creator == ob.creator && b.atomic == ob.atomic
        &&& b.operations@ == ob.operations@ && b.created_at == ob.created_at
        &&& b.finished_at == Some(now)
        &&& b.history@ == all_ok_history(ob.operations@.len())
        &&& b.failed_at_index == ob.failed_at_index
        &&& b.status == (if ob.failed_at_index.is_some() {
            BatchStatus::Failed
        } else {
            BatchStatus::Succeeded
        })
        &&& self.active_executions == Some(0u32)
        &&& self.admin == old.admin && self.paused == old.paused
        &&& self.batch_counter == old.batch_counter
        &&& self.queue_tail == old.queue_tail
        &&& self.queue_slots == old.queue_slots
    }

    /// Batch `batch_id` ran to the end at `now`, its operations giving
    /// `outs` in order: one history entry per operation, the failure index
    /// at the last failure, and the status `Failed` exactly when there is a
    /// failure index. The queue is untouched.
    pub open spec fn executed_with(self, old: Self, batch_id: u64, now: u64, outs: Seq<Result<(), u32>>) -> bool {
        let ob = old.batches@[batch_id];
        let b = self.batches@[batch_id];
        let failed = last_failed(outs, ob.failed_at_index);
        &&& self.batches@ == old.batches@.insert(batch_id, b)
        &&& b.id == ob.id && b.creator == ob.creator && b.atomic == ob.atomic
        &&& b.operations@ == ob.operations@ && b.created_at == ob.created_at
        &&& b.finished_at == Some(now)
        &&& b.history@ == history_of(outs)
        &&& b.failed_at_index == failed
        &&& b.status == (if failed.is_some() {
            BatchStatus::Failed
        } else {
            BatchStatus::Succeeded
        })
        &&& self.active_executions == Some(0u32)
        &&& self.admin == old.admin && self.paused == old.paused
        &&& self.batch_counter == old.batch_counter
        &&& self.queue_head == old.queue_head
        &&& self.queue_tail == old.queue_tail
        &&& self.queue_slots == old.queue_slots
    }

    /// What executing batch `batch_id` reports when its operations give
    /// `outs`: the checks of `spec_execute_check`, then, for an atomic
    /// batch, `ExecutionFailed` when any operation failed (the whole call
    /// is undone).
    pub open spec fn spec_execute_with(self, batch_id: u64, outs: Seq<Result<(), u32>>) -> Result<
        (),
        BatchErrorCode,
    > {
        match self.spec_execute_check(batch_id) {
            Err(e) => Err(e),
            Ok(_) => if self.batches@[batch_id].atomic && any_failed(outs) {
                Err(BatchErrorCode::ExecutionFailed)
            } else {
                Ok(())
            },
        }
    }

    /// Executes queued batch `batch_id` whose operations gave `outcomes`
    /// in order. An atomic batch with a failed operation changes nothing
    /// and reports `ExecutionFailed`; otherwise each operation gets a
    /// history entry (its error code when it failed), a failure marks the
    /// batch's failure index, and the batch finishes `Failed` or
    /// `Succeeded`.
    pub fn execute_with_outcomes(&mut self, now: u64, batch_id: u64, outcomes: &Vec<Result<(), u32>>) -> (r:
        Result<(), BatchErrorCode>)
        requires
            old(self).batches@.contains_key(batch_id) ==> {
                &&& old(self).batches@[batch_id].operations@.len() <= u32::MAX
                &&& outcomes@.len() == old(self).batches@[batch_id].operations@.len()
            },
        ensures
            r == old(self).spec_execute_with(batch_id, outcomes@),
            r.is_err() ==> *final(self) == *old(self),
            r.is_ok() ==> final(self).executed_with(*old(self), batch_id, now, outcomes@),
    {
        let (status, atomic) = match self.batches.get(&batch_id) {
            Some(b) => (b.status, b.atomic),
            None => return Err(BatchErrorCode::BadBatch),
        };
        if status != BatchStatus::Queued {
            return Err(BatchErrorCode::NotQueued);
        }
        let active = match self.active_executions {
            Some(a) => a,
            None => 0,
        };
        if active >= 1 {
            return Err(BatchErrorCode::AlreadyExecuting);
        }
        if atomic {
            let mut k: usize = 0;
            while k < outcomes.len()
                invariant
                    k <= outcomes.len(),
                    forall|j: int| 0 <= j < k ==> (#[trigger] outcomes@[j]) is Ok,
                    *self == *old(self),
                    old(self).spec_execute_check(batch_id) is Ok,
                    old(self).batches@[batch_id].atomic,
                decreases outcomes.len() - k,
            {
                if outcomes[k].is_err() {
                    assert(outcomes@[k as int] is Err);
                    return Err(BatchErrorCode::ExecutionFailed);
                }
                k = k + 1;
            }
            assert(all_ok(outcomes@));
        }
        let mut batch = match self.batches.remove(&batch_id) {
            Some(b) => b,
            None => {
                proof {
                    assert(false);
                }
                return Err(BatchErrorCode::BadBatch);
            },
        };
        let ghost ob = old(self).batches@[batch_id];
        batch.status = BatchStatus::Executing;
        let mut history: Vec<OperationResult> = Vec::new();
        let n = batch.operations.len();
        let mut i: usize = 0;
        assert(outcomes@.subrange(0, 0) =~= Seq::<Result<(), u32>>::empty());
        while i < n
            invariant
                n == batch.operations.len(),
                n == outcomes@.len(),
                n <= u32::MAX,
                i <= n,
                batch.operations@ == ob.operations@,
                batch.id == ob.id && batch.creator == ob.creator && batch.atomic == ob.atomic,
                batch.created_at == ob.created_at,
                history@ == history_of(outcomes@.subrange(0, i as int)),
                batch.failed_at_index == last_failed(outcomes@.subrange(0, i as int), ob.failed_at_index),
            decreases n - i,
        {
            let index_u32 = i as u32;
            match outcomes[i] {
                Ok(()) => {
                    history.push(OperationResult { index: index_u32, ok: true, error_code: 0 });
                },
                Err(code) => {
                    history.push(OperationResult { index: index_u32, ok: false, error_code: code });
                    batch.failed_at_index = Some(index_u32);
                },
            }
            i = i + 1;
            proof {
                let s = outcomes@.subrange(0, i as int);
                assert(s.drop_last() =~= outcomes@.subrange(0, i - 1));
                assert(history@ =~= history_of(s));
            }
        }
        assert(outcomes@.subrange(0, n as int) =~= outcomes@);
        batch.history = history;
        batch.finished_at = Some(now);
        if batch.failed_at_index.is_some() {
            batch.status = BatchStatus::Failed;
        } else {
            batch.status = BatchStatus::Succeeded;
        }
        self.active_executions = Some(0);
        self.batches.insert(batch_id, batch);
        assert(self.batches@ =~= old(self).batches@.insert(batch_id, self.batches@[batch_id]));
        Ok(())
    }

    /// Executes a queued batch: runs every operation in order (see
    /// `execute_with_outcomes` for what a failure does); as operations are
    /// not dispatched, each succeeds.
    pub fn execute_batch_inner(&mut self, now: u64, batch_id: u64) -> (r: Result<(), BatchErrorCode>)
        requires
            old(self).batches@.contains_key(batch_id) ==> old(self).batches@[batch_id].operations@.len()
                <= u32::MAX,
        ensures
            r == old(self).spec_execute_check(batch_id),
            r.is_err() ==> *final(self) == *old(self),
            r.is_ok() ==> final(self).executed_from(*old(self), batch_id, now),
    {
        let outcomes = match self.batches.get(&batch_id) {
            Some(b) => run_operations(&b.operations, b.creator),
            None => Vec::new(),
        };
        let r = self.execute_with_outcomes(now, batch_id, &outcomes);
        proof {
            if old(self).batches@.contains_key(batch_id) {
                lemma_all_ok(outcomes@, old(self).batches@[batch_id].failed_at_index);
            }
        }
        r
    }

    /// Executes one batch at once (admin only, not while paused).
    pub fn execute_batch(&mut self, now: u64, caller: AccountId, batch_id: u64) -> (r: Result<
        (),
        BatchErrorCode,
    >)
        requires
            old(self).batches@.contains_key(batch_id) ==> old(self).batches@[batch_id].operations@.len()
                <= u32::MAX,
        ensures
            r == (match old(self).spec_require_admin(caller) {
                Err(e) => Err(e),
                Ok(_) => if or_default(old(self).paused, false) {
                    Err(BatchErrorCode::Paused)
                } else {
                    old(self).spec_execute_check(batch_id)
                },
            }),
            r.is_err() ==> *final(self) == *old(self),
            r.is_ok() ==> final(self).executed_from(*old(self), batch_id, now),
    {
        self.require_admin(caller)?;
        self.require_not_paused()?;
        self.execute_batch_inner(now, batch_id)
    }

    /// Number of queued batches: tail minus head, saturating at zero.
    pub open spec fn spec_pending(self) -> u64 {
        let head = or_default(self.queue_head, 0u64);
        let tail = or_default(self.queue_tail, 0u64);
        if tail >= head {
            (tail - head) as u64
        } else {
            0
        }
    }

    /// Rounds `process_queue` runs: `min(pending as u32, max_batches)`.
    pub open spec fn spec_rounds(self, max_batches: u32) -> u64 {
        let p32 = self.spec_pending() as u32;
        if p32 < max_batches {
            p32 as u64
        } else {
            max_batches as u64
        }
    }

    /// Every stored batch, as plain values.
    pub open spec fn views(self) -> Map<u64, BatchView> {
        Map::new(|k: u64| self.batches@.contains_key(k), |k: u64| view_of(self.batches@[k]))
    }

    /// Running one executed batch changes its view as `ran` says.
    proof fn lemma_executed_views(self, old: Self, batch_id: u64, now: u64)
        requires
            old.batches@.contains_key(batch_id),
            self.executed_core(old, batch_id, now),
        ensures
            self.views() == old.views().insert(batch_id, ran(old.views()[batch_id], now)),
    {
        assert(view_of(self.batches@[batch_id]) == ran(view_of(old.batches@[batch_id]), now));
        assert(self.views() =~= old.views().insert(batch_id, ran(old.views()[batch_id], now)));
    }

    /// The outcome of `process_queue` (admin only, not while paused): with
    /// nothing to do it succeeds; otherwise it runs the batches of the first
    /// `spec_rounds` queue slots from the head, in order (see `queue_run`).
    pub open spec fn spec_process_queue(self, now: u64, admin: AccountId, max_batches: u32) -> Result<
        (),
        BatchErrorCode,
    > {
        match self.spec_require_admin(admin) {
            Err(e) => Err(e),
            Ok(_) => if or_default(self.paused, false) {
                Err(BatchErrorCode::Paused)
            } else if max_batches == 0 || self.spec_pending() == 0 || self.spec_rounds(max_batches) == 0 {
                Ok(())
            } else {
                match queue_run(
                    self.views(),
                    self.active_executions,
                    self.queue_slots@,
                    or_default(self.queue_head, 0u64),
                    self.spec_rounds(max_batches) as nat,
                    now,
                ) {
                    Err(e) => Err(e),
                    Ok(_) => Ok(()),
                }
            }
        }
    }

    /// Executes the batches of the first `min(pending, max_batches)` queue
    /// slots from the head, in order (admin only, not while paused), and
    /// moves the head past them. An error stops the run; the host then
    /// discards the whole invocation, so the state left here is not used.
    pub fn process_queue(&mut self, now: u64, admin: AccountId, max_batches: u32) -> (r: Result<
        (),
        BatchErrorCode,
    >)
        requires
            forall|k: u64| #[trigger]
                old(self).batches@.contains_key(k) ==> old(self).batches@[k].operations@.len()
                    <= u32::MAX,
        ensures
            r == old(self).spec_process_queue(now, admin, max_batches),
            r.is_ok() ==> if max_batches == 0 || old(self).spec_pending() == 0 {
                *final(self) == *old(self)
            } else if old(self).spec_rounds(max_batches) == 0 {
                *final(self) == (BatchProcessingContract {
                    queue_head: Some(or_default(old(self).queue_head, 0u64)),
                    ..*old(self)
                })
            } else {
                let head = or_default(old(self).queue_head, 0u64);
                let rounds = old(self).spec_rounds(max_batches);
                let run = queue_run(
                    old(self).views(),
                    old(self).active_executions,
                    old(self).queue_slots@,
                    head,
                    rounds as nat,
                    now,
                );
                &&& run matches Ok((m, a)) && final(self).views() == m && final(self).active_executions == a
                &&& final(self).queue_head == Some((head + rounds) as u64)
                &&& final(self).admin == old(self).admin && final(self).paused == old(self).paused
                &&& final(self).batch_counter == old(self).batch_counter
                &&& final(self).queue_tail == old(self).queue_tail
                &&& final(self).queue_slots == old(self).queue_slots
            },
    {
        self.require_admin(admin)?;
        self.require_not_paused()?;
        if max_batches == 0 {
            return Ok(());
        }
        let head = match self.queue_head {
            Some(h) => h,
            None => 0,
        };
        let tail = match self.queue_tail {
            Some(t) => t,
            None => 0,
        };
        let pending = tail.saturating_sub(head);
        if pending == 0 {
            return Ok(());
        }
        let pending32 = #[verifier::truncate] (pending as u32);
        let to_process: u64 = if pending32 < max_batches {
            pending32 as u64
        } else {
            max_batches as u64
        };
        assert(pending == old(self).spec_pending());
        assert(to_process == old(self).spec_rounds(max_batches));
        if to_process == 0 {
            self.queue_head = Some(head);
            return Ok(());
        }
        assert(to_process <= pending) by (bit_vector)
            requires
                pending32 == pending as u32,
                to_process == (if pending32 < max_batches {
                    pending32 as u64
                } else {
                    max_batches as u64
                }),
                to_process != 0,
                pending32 < max_batches || max_batches <= pending32,
        ;
        let ghost v0 = old(self).views();
        let ghost a0 = old(self).active_executions;
        let ghost slots = old(self).queue_slots@;
        let mut k: u64 = 0;
        while k < to_process
            invariant
                k <= to_process,
                to_process <= pending,
                pending == tail - head,
                head + pending <= u64::MAX,
                slots == old(self).queue_slots@,
                v0 == old(self).views(),
                a0 == old(self).active_executions,
                self.queue_slots@ == slots,
                forall|b: u64| #[trigger]
                    self.batches@.contains_key(b) ==> self.batches@[b].operations@.len()
                        <= u32::MAX,
                queue_run(v0, a0, slots, head, k as nat, now) == Ok::<
                    (Map<u64, BatchView>, Option<u32>),
                    BatchErrorCode,
                >((self.views(), self.active_executions)),
                self.admin == old(self).admin && self.paused == old(self).paused,
                self.batch_counter == old(self).batch_counter,
                self.queue_tail == old(self).queue_tail,
                self.queue_head == old(self).queue_head,
                self.queue_slots == old(self).queue_slots,
                old(self).spec_require_admin(admin) is Ok,
                !or_default(old(self).paused, false),
                max_batches != 0,
                pending == old(self).spec_pending(),
                pending != 0,
                to_process == old(self).spec_rounds(max_batches),
                to_process != 0,
                head == or_default(old(self).queue_head, 0u64),
            decreases to_process - k,
        {
            let slot_id = match self.queue_slots.get(&(head + k)) {
                Some(id) => *id,
                None => {
                    proof {
                        lemma_run_stops(v0, a0, slots, head, (k + 1) as nat, to_process as nat, now);
                    }
                    return Err(BatchErrorCode::BadBatch);
                },
            };
            let ghost before = *self;
            match self.execute_batch_inner(now, slot_id) {
                Ok(()) => {},
                Err(e) => {
                    proof {
                        lemma_run_stops(v0, a0, slots, head, (k + 1) as nat, to_process as nat, now);
                    }
                    return Err(e);
                },
            }
            proof {
                self.lemma_executed_views(before, slot_id, now);
            }
            k = k + 1;
        }
        self.queue_head = Some(head + to_process);
        Ok(())
    }

    /// Batch `batch_id` (`BadBatch` when there is none).
    pub fn get_batch(&self, batch_id: u64) -> (r: Result<&Batch, BatchErrorCode>)
        ensures
            match r {
                Ok(b) => self.batches@.contains_key(batch_id) && *b == self.batches@[batch_id],
                Err(e) => e == BatchErrorCode::BadBatch && !self.batches@.contains_key(batch_id),
            },
    {
        match self.batches.get(&batch_id) {
            Some(b) => Ok(b),
            None => Err(BatchErrorCode::BadBatch),
        }
    }

    /// The status of batch `batch_id` (`BadBatch` when there is none).
    pub fn get_batch_status(&self, batch_id: u64) -> (r: Result<BatchStatus, BatchErrorCode>)
        ensures
            r == (if self.batches@.contains_key(batch_id) {
                Ok(self.batches@[batch_id].status)
            } else {
                Err(BatchErrorCode::BadBatch)
            }),
    {
        let b = self.get_batch(batch_id)?;
        Ok(b.status)
    }

    /// The per-operation history of batch `batch_id` (`BadBatch` when there
    /// is none).
    pub fn get_batch_history(&self, batch_id: u64) -> (r: Result<Vec<OperationResult>, BatchErrorCode>)
        ensures
            match r {
                Ok(h) => self.batches@.contains_key(batch_id) && h@ == self.batches@[batch_id].history@,
                Err(e) => e == BatchErrorCode::BadBatch && !self.batches@.contains_key(batch_id),
            },
    {
        let b = self.get_batch(batch_id)?;
        let mut out: Vec<OperationResult> = Vec::new();
        let mut i: usize = 0;
        while i < b.history.len()
            invariant
                i <= b.history@.len(),
                out@ == b.history@.subrange(0, i as int),
            decreases b.history.len() - i,
        {
            out.push(b.history[i]);
            i = i + 1;
            assert(out@ =~= b.history@.subrange(0, i as int));
        }
        assert(b.history@.subrange(0, b.history@.len() as int) =~= b.history@);
        Ok(out)
    }
}

/// A batch runs at most once: after it ran, its status is final (succeeded
/// or failed) and every further execution of it is refused as no longer
/// queued.
pub proof fn lemma_batch_runs_once(s0: BatchProcessingContract, s1: BatchProcessingContract, batch_id: u64, now: u64)
    requires
        s0.spec_execute_check(batch_id) is Ok,
        s1.executed_from(s0, batch_id, now),
    ensures
        s1.batches@[batch_id].status == BatchStatus::Succeeded || s1.batches@[batch_id].status
            == BatchStatus::Failed,
        s1.spec_execute_check(batch_id) == Err::<(), BatchErrorCode>(BatchErrorCode::NotQueued),
{
}

} // verus!
