use puzzle_contracts::achievement_collection::{AchievementCollection, CollectionError, Rarity};

const USER: u64 = 1;
const A: u64 = 2;
const B: u64 = 3;

fn setup_collection() -> AchievementCollection {
    let mut c = AchievementCollection::new();
    c.initialize().unwrap();
    c
}

#[test]
fn test_set_and_progress() {
    let mut c = setup_collection();
    let set_id = c.create_set(b"Starter Set".to_vec(), vec![1, 2, 3], Rarity::Common, None, 100).unwrap();
    assert_eq!(set_id, 1);
    assert_eq!(c.is_completed(USER, set_id), Ok(false));
    assert_eq!(c.record_achievement(USER, 1), Ok(false));
    assert_eq!(c.record_achievement(USER, 2), Ok(false));
    assert_eq!(c.record_achievement(USER, 3), Ok(true));
    let progress = c.progress(USER, set_id);
    assert_eq!(progress.len(), 3);
    assert_eq!(c.bonus_of(USER), 100);
    // re-recording an owned achievement pays no second bonus
    assert_eq!(c.record_achievement(USER, 3), Ok(true));
    assert_eq!(c.bonus_of(USER), 100);
}

#[test]
fn test_limited_cap_and_trading() {
    let mut c = setup_collection();
    let set_id = c.create_set(b"Limited Set".to_vec(), vec![10, 20], Rarity::Rare, Some(1), 50).unwrap();
    c.record_achievement(A, 10).unwrap();
    // the cap of one claim is reached
    assert_eq!(c.record_achievement(B, 10), Err(CollectionError::LimitedCapReached));
    c.transfer_progress(A, B, 10).unwrap();
    assert_eq!(c.progress(A, set_id).len(), 0);
    assert_eq!(c.progress(B, set_id).len(), 1);
    assert_eq!(c.record_achievement(B, 10), Ok(false));
}

#[test]
fn collection_errors() {
    let mut c = setup_collection();
    assert_eq!(c.initialize(), Err(CollectionError::AlreadyInitialized));
    assert_eq!(c.create_set(b"x".to_vec(), vec![], Rarity::Epic, None, 1), Err(CollectionError::EmptySet));
    c.create_set(b"x".to_vec(), vec![5], Rarity::Epic, None, 1).unwrap();
    assert_eq!(
        c.create_set(b"y".to_vec(), vec![5], Rarity::Epic, None, 1),
        Err(CollectionError::AchievementAlreadyMapped)
    );
    assert_eq!(c.record_achievement(USER, 99), Err(CollectionError::NotMapped));
    assert_eq!(c.is_completed(USER, 42), Err(CollectionError::SetNotFound));
    assert_eq!(c.transfer_progress(A, B, 5), Err(CollectionError::NotOwned));
    assert_eq!(c.add_achievement_to_set(42, 6), Err(CollectionError::SetNotFound));
}

#[test]
fn adding_to_a_completed_set_reopens_it() {
    let mut c = setup_collection();
    let s = c.create_set(b"s".to_vec(), vec![1], Rarity::Common, None, 7).unwrap();
    assert_eq!(c.record_achievement(USER, 1), Ok(true));
    c.add_achievement_to_set(s, 2).unwrap();
    assert_eq!(c.is_completed(USER, s), Ok(false));
    assert_eq!(c.record_achievement(USER, 2), Ok(true));
    // the bonus was paid once, at the first completion
    assert_eq!(c.bonus_of(USER), 7);
}
