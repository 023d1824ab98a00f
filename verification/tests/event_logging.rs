use puzzle_contracts::event_logging::{EventLogError, EventLoggingContract};
use soroban_sdk::{Env, IntoVal, Val};

const ADMIN: u64 = 1;
const SOURCE1: u64 = 10;
const SOURCE2: u64 = 11;
const TRANSFER: u64 = 100;
const MINT: u64 = 101;
const BURN: u64 = 102;

fn setup_log() -> EventLoggingContract {
    let mut c = EventLoggingContract::new();
    c.initialize(ADMIN, 3).unwrap();
    c
}

fn val(env: &Env, v: u64) -> Val {
    v.into_val(env)
}

#[test]
fn test_log_and_get_event() {
    let env = Env::default();
    let mut c = setup_log();
    let data = val(&env, 100);
    let event_id = c.log_event(5, SOURCE1, TRANSFER, data).unwrap();
    assert_eq!(event_id, 1);
    let event = c.get_event(event_id).unwrap();
    assert_eq!(event.id, 1);
    assert_eq!(event.source_contract, SOURCE1);
    assert_eq!(event.topic, TRANSFER);
    assert_eq!(event.data.get_payload(), data.get_payload());
    assert_eq!(event.timestamp, 5);
}

#[test]
fn test_indexing_and_pagination() {
    let env = Env::default();
    let mut c = setup_log();
    c.log_event(0, SOURCE1, MINT, val(&env, 10)).unwrap();
    c.log_event(0, SOURCE2, MINT, val(&env, 20)).unwrap();
    c.log_event(0, SOURCE1, BURN, val(&env, 30)).unwrap();
    assert_eq!(c.get_events_by_topic(MINT, 0, 10).len(), 2);
    assert_eq!(c.get_events_by_contract(SOURCE1, 0, 10).len(), 2);
    assert_eq!(c.get_events_by_topic(MINT, 0, 1).len(), 1);
    let page2 = c.get_events_by_topic(MINT, 1, 10);
    assert_eq!(page2.len(), 1);
    assert_eq!(page2[0].id, 2);
    assert_eq!(c.get_events_by_topic(MINT, 5, 10).len(), 0);
}

#[test]
fn test_analytics() {
    let env = Env::default();
    let mut c = setup_log();
    c.log_event(0, SOURCE1, BURN, val(&env, 1)).unwrap();
    c.log_event(0, SOURCE1, BURN, val(&env, 2)).unwrap();
    assert_eq!(c.get_topic_analytics(BURN), 2);
    assert_eq!(c.get_topic_analytics(MINT), 0);
}

#[test]
fn test_retention() {
    let env = Env::default();
    let mut c = setup_log();
    let id1 = c.log_event(0, SOURCE1, TRANSFER, val(&env, 1)).unwrap();
    let id2 = c.log_event(0, SOURCE1, TRANSFER, val(&env, 2)).unwrap();
    let id3 = c.log_event(0, SOURCE1, TRANSFER, val(&env, 3)).unwrap();
    let id4 = c.log_event(0, SOURCE1, TRANSFER, val(&env, 4)).unwrap();
    assert!(c.get_event(id1).is_none());
    assert!(c.get_event(id2).is_some());
    assert!(c.get_event(id3).is_some());
    assert!(c.get_event(id4).is_some());
    // the topic index still lists the dropped event, and pages skip it
    assert_eq!(c.get_events_by_topic(TRANSFER, 0, 10).len(), 3);
    assert_eq!(c.get_topic_analytics(TRANSFER), 4);
}

#[test]
fn zero_retention_keeps_everything() {
    let env = Env::default();
    let mut c = EventLoggingContract::new();
    c.initialize(ADMIN, 0).unwrap();
    for i in 0..5u64 {
        c.log_event(i, SOURCE1, MINT, val(&env, i)).unwrap();
    }
    for id in 1..=5u64 {
        assert!(c.get_event(id).is_some());
    }
}

#[test]
fn logging_before_initialize_is_refused() {
    let env = Env::default();
    let mut c = EventLoggingContract::new();
    assert_eq!(c.log_event(0, SOURCE1, MINT, val(&env, 1)), Err(EventLogError::NotInitialized));
    assert!(c.get_event(1).is_none());
}

#[test]
fn config_admin_rules() {
    let mut c = setup_log();
    assert_eq!(c.initialize(ADMIN, 9), Err(EventLogError::AlreadyInitialized));
    assert_eq!(c.update_config(SOURCE1, 9), Err(EventLogError::NotAdmin));
    assert_eq!(c.update_config(ADMIN, 9), Ok(()));
    assert_eq!(c.config.unwrap().max_events_retained, 9);
    let mut fresh = EventLoggingContract::new();
    assert_eq!(fresh.update_config(ADMIN, 9), Err(EventLogError::NotInitialized));
}
