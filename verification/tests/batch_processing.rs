use puzzle_contracts::batch_processing::{
    run_operations, validate_operation, BatchErrorCode, BatchOperation, BatchProcessingContract, BatchStatus, Difficulty,
    QuestInput,
};

const ADMIN: u64 = 1;
const USER: u64 = 2;
const QUEST: u64 = 30;

fn quest(title: &str) -> QuestInput {
    QuestInput {
        title: title.as_bytes().to_vec(),
        description: vec![],
        tags: vec![],
        reward: 10,
        difficulty: Difficulty::Easy,
        rewards: vec![],
    }
}

fn setup_batches() -> BatchProcessingContract {
    let mut c = BatchProcessingContract::new();
    c.initialize(ADMIN).unwrap();
    c
}

#[test]
fn queue_rejects_empty_operations() {
    let mut c = setup_batches();
    assert_eq!(c.queue_batch(0, ADMIN, true, vec![]), Err(BatchErrorCode::EmptyBatch));
    let bad = vec![BatchOperation::QuestCreateBatch(QUEST, USER, vec![])];
    assert_eq!(c.queue_batch(0, ADMIN, true, bad), Err(BatchErrorCode::BadBatch));
}

#[test]
fn queued_batch_executes_and_records_history() {
    let mut c = setup_batches();
    let ops = vec![
        BatchOperation::QuestCreateBatch(QUEST, USER, vec![quest("a"), quest("b")]),
        BatchOperation::QuestClaimReward(QUEST, USER, 7),
    ];
    let id = c.queue_batch(5, USER, false, ops).unwrap();
    assert_eq!(id, 1);
    assert_eq!(c.batches.get(&id).unwrap().status, BatchStatus::Queued);
    assert_eq!(c.execute_batch(6, USER, id), Err(BatchErrorCode::Unauthorized));
    assert_eq!(c.execute_batch(6, ADMIN, id), Ok(()));
    let b = c.batches.get(&id).unwrap();
    assert_eq!(b.status, BatchStatus::Succeeded);
    assert_eq!(b.history.len(), 2);
    assert!(b.history.iter().all(|r| r.ok && r.error_code == 0));
    assert_eq!(b.finished_at, Some(6));
    assert_eq!(c.execute_batch(7, ADMIN, id), Err(BatchErrorCode::NotQueued));
}

#[test]
fn pause_blocks_queueing_and_execution() {
    let mut c = setup_batches();
    let id = c.queue_batch(0, USER, true, vec![BatchOperation::QuestClaimReward(QUEST, USER, 1)]).unwrap();
    assert_eq!(c.pause(USER), Err(BatchErrorCode::Unauthorized));
    c.pause(ADMIN).unwrap();
    assert!(c.is_paused());
    assert_eq!(
        c.queue_batch(0, USER, true, vec![BatchOperation::QuestClaimReward(QUEST, USER, 2)]),
        Err(BatchErrorCode::Paused)
    );
    assert_eq!(c.execute_batch(1, ADMIN, id), Err(BatchErrorCode::Paused));
    c.unpause(ADMIN).unwrap();
    assert_eq!(c.execute_batch(1, ADMIN, id), Ok(()));
}

#[test]
fn process_queue_runs_the_head_batch() {
    let mut c = setup_batches();
    let id = c.queue_batch(0, USER, true, vec![BatchOperation::QuestClaimReward(QUEST, USER, 1)]).unwrap();
    assert_eq!(c.process_queue(1, USER, 1), Err(BatchErrorCode::Unauthorized));
    assert_eq!(c.process_queue(1, ADMIN, 0), Ok(()));
    assert_eq!(c.process_queue(1, ADMIN, 1), Ok(()));
    assert_eq!(c.batches.get(&id).unwrap().status, BatchStatus::Succeeded);
    // the queue is empty now
    assert_eq!(c.process_queue(2, ADMIN, 5), Ok(()));
}

#[test]
fn initialization_rules() {
    let mut c = BatchProcessingContract::new();
    assert_eq!(c.execute_batch(0, ADMIN, 1), Err(BatchErrorCode::NotInitialized));
    c.initialize(ADMIN).unwrap();
    assert_eq!(c.initialize(ADMIN), Err(BatchErrorCode::NotInitialized));
    assert_eq!(c.execute_batch(0, ADMIN, 42), Err(BatchErrorCode::BadBatch));
    assert_eq!(validate_operation(&BatchOperation::QuestClaimReward(QUEST, USER, 1)), Ok(()));
}

#[test]
fn batch_getters() {
    let mut c = setup_batches();
    let id = c.queue_batch(5, USER, false, vec![BatchOperation::QuestClaimReward(QUEST, USER, 7)]).unwrap();
    assert_eq!(c.get_batch_status(id), Ok(BatchStatus::Queued));
    assert_eq!(c.get_batch_history(id), Ok(vec![]));
    c.execute_batch(6, ADMIN, id).unwrap();
    assert_eq!(c.get_batch_status(id), Ok(BatchStatus::Succeeded));
    let h = c.get_batch_history(id).unwrap();
    assert_eq!(h.len(), 1);
    assert!(h[0].ok);
    assert_eq!(c.get_batch(id).unwrap().finished_at, Some(6));
    assert_eq!(c.get_batch_status(99), Err(BatchErrorCode::BadBatch));
    assert!(c.get_batch(99).is_err());
}

#[test]
fn process_queue_runs_batches_in_order() {
    let mut c = setup_batches();
    let op = || vec![BatchOperation::QuestClaimReward(QUEST, USER, 1)];
    let a = c.queue_batch(0, USER, false, op()).unwrap();
    let b = c.queue_batch(0, USER, false, op()).unwrap();
    let d = c.queue_batch(0, USER, false, op()).unwrap();
    assert_eq!((a, b, d), (1, 2, 3));
    assert_eq!(c.process_queue(5, ADMIN, 2), Ok(()));
    assert_eq!(c.get_batch_status(a), Ok(BatchStatus::Succeeded));
    assert_eq!(c.get_batch_status(b), Ok(BatchStatus::Succeeded));
    assert_eq!(c.get_batch_status(d), Ok(BatchStatus::Queued));
    assert_eq!(c.process_queue(6, ADMIN, 10), Ok(()));
    assert_eq!(c.get_batch_status(d), Ok(BatchStatus::Succeeded));
    assert_eq!(c.get_batch(d).unwrap().finished_at, Some(6));
}

#[test]
fn process_queue_stops_at_a_batch_already_run() {
    let mut c = setup_batches();
    let a = c.queue_batch(0, USER, false, vec![BatchOperation::QuestClaimReward(QUEST, USER, 1)]).unwrap();
    c.execute_batch(1, ADMIN, a).unwrap();
    assert_eq!(c.process_queue(2, ADMIN, 1), Err(BatchErrorCode::NotQueued));
}

fn three_claims() -> Vec<BatchOperation> {
    vec![
        BatchOperation::QuestClaimReward(QUEST, USER, 1),
        BatchOperation::QuestClaimReward(QUEST, USER, 2),
        BatchOperation::QuestClaimReward(QUEST, USER, 3),
    ]
}

#[test]
fn atomic_batch_with_a_failure_changes_nothing() {
    let mut c = setup_batches();
    let id = c.queue_batch(0, USER, true, three_claims()).unwrap();
    let outcomes = vec![Ok(()), Err(42), Ok(())];
    assert_eq!(c.execute_with_outcomes(5, id, &outcomes), Err(BatchErrorCode::ExecutionFailed));
    let b = c.batches.get(&id).unwrap();
    assert_eq!(b.status, BatchStatus::Queued);
    assert!(b.history.is_empty());
    assert_eq!((b.finished_at, b.failed_at_index), (None, None));
    assert_eq!(c.active_executions, Some(0));
    assert_eq!(c.execute_with_outcomes(6, id, &vec![Ok(()), Ok(()), Ok(())]), Ok(()));
    assert_eq!(c.batches.get(&id).unwrap().status, BatchStatus::Succeeded);
}

#[test]
fn partial_batch_records_each_failure_and_goes_on() {
    let mut c = setup_batches();
    let id = c.queue_batch(0, USER, false, three_claims()).unwrap();
    let outcomes = vec![Err(7), Ok(()), Err(9)];
    assert_eq!(c.execute_with_outcomes(5, id, &outcomes), Ok(()));
    let b = c.batches.get(&id).unwrap();
    assert_eq!(b.status, BatchStatus::Failed);
    assert_eq!(b.failed_at_index, Some(2));
    assert_eq!(b.finished_at, Some(5));
    let h: Vec<(u32, bool, u32)> = b.history.iter().map(|r| (r.index, r.ok, r.error_code)).collect();
    assert_eq!(h, vec![(0, false, 7), (1, true, 0), (2, false, 9)]);
    assert_eq!(c.active_executions, Some(0));
}

#[test]
fn operations_run_as_successes() {
    let ops = three_claims();
    assert_eq!(run_operations(&ops, USER), vec![Ok(()), Ok(()), Ok(())]);
}
