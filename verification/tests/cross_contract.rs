use puzzle_contracts::cross_contract::{
    callback_call, target_call, AuditAction, CrossContractCommunication, CrossContractError, MessageStatus,
};

const ADMIN: u64 = 1;
const SENDER: u64 = 2;
const TARGET: u64 = 10;
const CALLBACK: u64 = 20;
const ALT_CALLBACK: u64 = 21;
const QUESTS: u64 = 100;
const PRIMARY: u64 = 101;
const SECONDARY: u64 = 102;
const RECEIVE: u64 = 200;
const ALTERNATE: u64 = 201;
const FAIL: u64 = 202;
const MUTATE_THEN_FAIL: u64 = 203;
const ACCEPT: u64 = 300;
const REJECT: u64 = 301;

fn setup_router() -> CrossContractCommunication {
    let mut c = CrossContractCommunication::new();
    c.initialize(ADMIN, 60, 2).unwrap();
    c
}

#[test]
fn registers_routes_and_queues_messages() {
    let mut c = setup_router();
    c.register_route(ADMIN, QUESTS, TARGET, RECEIVE, Some(CALLBACK), Some(ACCEPT)).unwrap();
    let payload = vec![1u8, 2, 3];
    let message_id = c.queue_message(0, SENDER, QUESTS, payload.clone(), true, None, None).unwrap();
    assert_eq!(message_id, 1);
    assert_eq!(c.get_queue_size(), Ok(1));
    let message = c.get_message(message_id).unwrap();
    assert_eq!(message.route, QUESTS);
    assert_eq!(message.sender, SENDER);
    assert_eq!(message.payload, payload);
    assert_eq!(message.callback_contract, Some(CALLBACK));
    let audit = c.get_audit_trail(message_id);
    assert_eq!(audit.len(), 1);
    assert_eq!(audit[0].action, AuditAction::Enqueued);
}

#[test]
fn routes_messages_to_expected_target_and_callback() {
    let mut c = setup_router();
    c.register_route(ADMIN, QUESTS, TARGET, RECEIVE, Some(CALLBACK), Some(ACCEPT)).unwrap();
    let payload = vec![9u8, 9, 9];
    let message_id = c.queue_message(0, SENDER, QUESTS, payload.clone(), true, None, None).unwrap();
    assert_eq!(c.next_to_process(), Ok(message_id));
    {
        let m = c.get_message(message_id).unwrap();
        assert_eq!((m.target_contract, m.target_method), (TARGET, RECEIVE));
        assert_eq!((m.callback_contract, m.callback_method), (Some(CALLBACK), Some(ACCEPT)));
    }
    // the target echoes the payload; the callback accepts
    let outcome = c.process_next(5, Some(payload.clone()), Some(true)).unwrap();
    assert_eq!(outcome.message_id, message_id);
    assert_eq!(outcome.status, MessageStatus::Delivered);
    assert_eq!(outcome.response, Some(payload.clone()));
    let message = c.get_message(message_id).unwrap();
    assert_eq!(message.status, MessageStatus::Delivered);
    assert_eq!(message.response, Some(vec![9u8, 9, 9]));
    assert_eq!(message.processed_at, Some(5));
    assert_eq!(c.get_queue_size(), Ok(0));
    let audit = c.get_audit_trail(message_id);
    assert_eq!(audit.len(), 4);
    assert_eq!(audit[1].action, AuditAction::Routed);
    assert_eq!(audit[2].action, AuditAction::CallbackSucceeded);
    assert_eq!(audit[3].action, AuditAction::Delivered);
}

#[test]
fn route_keys_dispatch_to_different_methods() {
    let mut c = setup_router();
    c.register_route(ADMIN, PRIMARY, TARGET, RECEIVE, None, None).unwrap();
    c.register_route(ADMIN, SECONDARY, TARGET, ALTERNATE, None, None).unwrap();
    let id = c.queue_message(0, SENDER, SECONDARY, vec![7], true, None, None).unwrap();
    assert_eq!(c.get_message(id).unwrap().target_method, ALTERNATE);
    let outcome = c.process_next(0, Some(vec![7]), None).unwrap();
    assert_eq!(outcome.status, MessageStatus::Delivered);
}

#[test]
fn rate_limiting_blocks_excess_messages_and_resets_next_window() {
    let mut c = setup_router();
    c.register_route(ADMIN, QUESTS, TARGET, RECEIVE, None, None).unwrap();
    assert!(c.queue_message(0, SENDER, QUESTS, vec![1], true, None, None).is_ok());
    assert!(c.queue_message(0, SENDER, QUESTS, vec![2], true, None, None).is_ok());
    assert_eq!(
        c.queue_message(0, SENDER, QUESTS, vec![3], true, None, None),
        Err(CrossContractError::RateLimited)
    );
    assert!(c.queue_message(61, SENDER, QUESTS, vec![4], true, None, None).is_ok());
    let window = c.get_sender_window(SENDER).unwrap();
    assert_eq!(window.window, 1);
    assert_eq!(window.count, 1);
}

#[test]
fn disabled_routes_are_rejected() {
    let mut c = setup_router();
    c.register_route(ADMIN, QUESTS, TARGET, RECEIVE, None, None).unwrap();
    c.set_route_enabled(ADMIN, QUESTS, false).unwrap();
    assert_eq!(
        c.queue_message(0, SENDER, QUESTS, vec![1], true, None, None),
        Err(CrossContractError::RouteDisabled)
    );
}

#[test]
fn non_atomic_target_failures_are_recorded_and_removed_from_queue() {
    let mut c = setup_router();
    c.register_route(ADMIN, QUESTS, TARGET, FAIL, None, None).unwrap();
    let message_id = c.queue_message(0, SENDER, QUESTS, vec![8], false, None, None).unwrap();
    let result = c.process_next(0, None, None);
    assert_eq!(result.unwrap_err(), CrossContractError::TargetInvocationFailed);
    let message = c.get_message(message_id).unwrap();
    assert_eq!(message.status, MessageStatus::Failed);
    assert_eq!(message.last_error, Some(CrossContractError::TargetInvocationFailed.code()));
    assert_eq!(c.get_queue_size(), Ok(0));
    let audit = c.get_audit_trail(message_id);
    assert_eq!(audit.len(), 2);
    assert_eq!(audit[1].action, AuditAction::Failed);
}

#[test]
fn non_atomic_callback_failures_propagate_and_preserve_target_response() {
    let mut c = setup_router();
    c.register_route(ADMIN, QUESTS, TARGET, RECEIVE, Some(CALLBACK), Some(REJECT)).unwrap();
    let message_id = c.queue_message(0, SENDER, QUESTS, vec![4, 5], false, None, None).unwrap();
    // the target answers; the callback rejects
    let result = c.process_next(0, Some(vec![4, 5]), Some(false));
    assert_eq!(result.unwrap_err(), CrossContractError::CallbackInvocationFailed);
    let message = c.get_message(message_id).unwrap();
    assert_eq!(message.status, MessageStatus::CallbackFailed);
    assert_eq!(message.response, Some(vec![4u8, 5]));
    assert_eq!(message.last_error, Some(CrossContractError::CallbackInvocationFailed.code()));
}

#[test]
fn atomic_failures_keep_message_queued_and_rollback_target_side_effects() {
    let mut c = setup_router();
    c.register_route(ADMIN, QUESTS, TARGET, MUTATE_THEN_FAIL, None, None).unwrap();
    let message_id = c.queue_message(0, SENDER, QUESTS, vec![1, 2], true, None, None).unwrap();
    let result = c.process_next(0, None, None);
    assert_eq!(result.unwrap_err(), CrossContractError::TargetInvocationFailed);
    assert_eq!(c.get_queue_size(), Ok(1));
    let message = c.get_message(message_id).unwrap();
    assert_eq!(message.status, MessageStatus::Queued);
    assert!(message.response.is_none());
    let audit = c.get_audit_trail(message_id);
    assert_eq!(audit.len(), 1);
    assert_eq!(audit[0].action, AuditAction::Enqueued);
}

#[test]
fn callback_override_is_used_instead_of_default_route_callback() {
    let mut c = setup_router();
    c.register_route(ADMIN, QUESTS, TARGET, RECEIVE, Some(CALLBACK), Some(ACCEPT)).unwrap();
    let id = c.queue_message(0, SENDER, QUESTS, vec![6], true, Some(ALT_CALLBACK), Some(ACCEPT)).unwrap();
    assert_eq!(c.get_message(id).unwrap().callback_contract, Some(ALT_CALLBACK));
    let outcome = c.process_next(0, Some(vec![6]), Some(true)).unwrap();
    assert_eq!(outcome.status, MessageStatus::Delivered);
}

#[test]
fn router_configuration_errors() {
    let mut c = CrossContractCommunication::new();
    assert_eq!(c.initialize(ADMIN, 0, 2), Err(CrossContractError::InvalidConfig));
    assert_eq!(c.get_queue_size(), Err(CrossContractError::NotInitialized));
    let mut c = setup_router();
    assert_eq!(c.initialize(ADMIN, 60, 2), Err(CrossContractError::AlreadyInitialized));
    assert_eq!(
        c.register_route(SENDER, QUESTS, TARGET, RECEIVE, None, None),
        Err(CrossContractError::Unauthorized)
    );
    assert_eq!(
        c.register_route(ADMIN, QUESTS, TARGET, RECEIVE, Some(CALLBACK), None),
        Err(CrossContractError::InvalidCallbackConfig)
    );
    assert_eq!(
        c.queue_message(0, SENDER, QUESTS, vec![], true, None, None),
        Err(CrossContractError::RouteNotFound)
    );
    assert_eq!(c.process_next(0, None, None).unwrap_err(), CrossContractError::QueueEmpty);
}

#[test]
fn delivery_calls_carry_the_message() {
    let mut c = setup_router();
    c.register_route(ADMIN, QUESTS, TARGET, RECEIVE, Some(CALLBACK), Some(ACCEPT)).unwrap();
    c.register_route(ADMIN, SECONDARY, TARGET, ALTERNATE, None, None).unwrap();
    let id = c.queue_message(0, SENDER, QUESTS, vec![4, 5], true, None, None).unwrap();
    let m = c.get_message(id).unwrap();
    let t = target_call(m);
    assert_eq!((t.contract, t.method, t.message_id, t.sender, t.route), (TARGET, RECEIVE, id, SENDER, QUESTS));
    assert_eq!(t.payload, vec![4, 5]);
    let cb = callback_call(m, &vec![9]).unwrap();
    assert_eq!((cb.contract, cb.method, cb.message_id, cb.route, cb.sender), (CALLBACK, ACCEPT, id, QUESTS, SENDER));
    assert_eq!(cb.response, vec![9]);
    let id2 = c.queue_message(0, SENDER, SECONDARY, vec![], true, None, None).unwrap();
    assert!(callback_call(c.get_message(id2).unwrap(), &vec![]).is_none());
}
