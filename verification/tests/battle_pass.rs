use puzzle_contracts::battle_pass::{BattlePassContract, PassError, PassTier, RewardType};

const ADMIN: u64 = 1;
const ORACLE: u64 = 2;
const PLAYER: u64 = 3;
const MONTH: u64 = 2_592_000;

fn tier(required_xp: u32, reward_type: RewardType, reward_amount: u128) -> PassTier {
    PassTier { required_xp, reward_type, reward_amount }
}

/// A season starting at time 1, its tiers configured at time 0, activated,
/// and a pass bought at time 1.
fn season_with(tiers: Vec<PassTier>) -> BattlePassContract {
    let mut c = BattlePassContract::new();
    c.init(ADMIN).unwrap();
    c.create_season(1, 1, 1 + MONTH, 1000, ORACLE).unwrap();
    c.configure_season_tiers(0, 1, tiers).unwrap();
    c.activate_season(1).unwrap();
    assert_eq!(c.purchase_pass(1, PLAYER, 1), Ok(1));
    c
}

#[test]
fn test_contract_initialization() {
    let mut c = BattlePassContract::new();
    assert_eq!(c.init(ADMIN), Ok(()));
    assert_eq!(c.admin, Some(ADMIN));
    assert_eq!(c.init(ADMIN), Err(PassError::AlreadyInitialized));
}

#[test]
fn test_create_season() {
    let mut c = BattlePassContract::new();
    c.init(ADMIN).unwrap();
    let now = 0u64;
    assert_eq!(c.create_season(1, now, now + MONTH, 1000, ORACLE), Ok(()));
    assert_eq!(c.create_season(1, now, now + MONTH, 1000, ORACLE), Err(PassError::SeasonExists));
    assert_eq!(c.create_season(2, 5, 5, 1000, ORACLE), Err(PassError::InvalidTimeWindow));
}

#[test]
fn test_configure_season_tiers() {
    let mut c = BattlePassContract::new();
    c.init(ADMIN).unwrap();
    let now = 0u64;
    c.create_season(1, now + 1000, now + MONTH + 1000, 1000, ORACLE).unwrap();
    let tiers = vec![
        tier(1000, RewardType::Token, 100),
        tier(2500, RewardType::Cosmetic, 1),
        tier(5000, RewardType::Nft, 1),
    ];
    assert_eq!(c.configure_season_tiers(now, 1, tiers), Ok(()));
    assert_eq!(c.seasons.get(&1).unwrap().tiers.len(), 3);
}

#[test]
fn configuring_after_start_or_unordered_is_refused() {
    let mut c = BattlePassContract::new();
    c.init(ADMIN).unwrap();
    c.create_season(1, 0, MONTH, 1000, ORACLE).unwrap();
    assert_eq!(c.configure_season_tiers(0, 1, vec![]), Err(PassError::ConfigureAfterStart));
    c.create_season(2, 10, MONTH, 1000, ORACLE).unwrap();
    let bad = vec![tier(5, RewardType::Token, 1), tier(5, RewardType::Token, 1)];
    assert_eq!(c.configure_season_tiers(0, 2, bad), Err(PassError::TiersNotAscending));
}

#[test]
fn test_purchase_pass() {
    let mut c = season_with(vec![tier(1000, RewardType::Token, 100)]);
    let (xp, tier_reached, claimed) = c.get_pass(1).unwrap();
    assert_eq!((xp, tier_reached, claimed.len()), (0, 0, 0));
    assert_eq!(c.purchase_pass(2, PLAYER, 1), Err(PassError::AlreadyOwnsPass));
}

#[test]
fn purchase_outside_the_window_is_refused() {
    let mut c = BattlePassContract::new();
    c.init(ADMIN).unwrap();
    c.create_season(1, 1000, MONTH + 1000, 1000, ORACLE).unwrap();
    c.activate_season(1).unwrap();
    assert_eq!(c.purchase_pass(0, PLAYER, 1), Err(PassError::SeasonNotActive));
}

#[test]
fn test_add_xp_and_tier_advancement() {
    let mut c = season_with(vec![tier(1000, RewardType::Token, 100), tier(2500, RewardType::Token, 200)]);
    let pass_id = 1u32;
    c.add_xp(1, pass_id, 1500).unwrap();
    let (xp, tier_reached, claimed) = c.get_pass(pass_id).unwrap();
    assert_eq!(xp, 1500);
    assert_eq!(tier_reached, 1);
    assert_eq!(claimed.len(), 0);
    assert_eq!(c.claim_tier_reward(1, pass_id, 1), Err(PassError::TierNotReached));
}

#[test]
fn test_claim_tier_reward() {
    let mut c = season_with(vec![tier(1000, RewardType::Token, 100)]);
    let pass_id = 1u32;
    c.add_xp(1, pass_id, 1500).unwrap();
    let reward = c.claim_tier_reward(1, pass_id, 0).unwrap();
    assert_eq!(reward.reward_amount, 100);
    assert!(matches!(reward.reward_type, RewardType::Token));
    let (_, _, claimed) = c.get_pass(pass_id).unwrap();
    assert_eq!(claimed.len(), 1);
    assert_eq!(claimed[0], 0);
    assert_eq!(c.claim_tier_reward(1, pass_id, 0), Err(PassError::RewardAlreadyClaimed));
}

#[test]
fn test_multiple_reward_types() {
    let mut c = season_with(vec![
        tier(1000, RewardType::Token, 100),
        tier(2500, RewardType::Cosmetic, 1),
        tier(5000, RewardType::Nft, 1),
    ]);
    let pass_id = 1u32;
    c.add_xp(1, pass_id, 6000).unwrap();
    assert!(matches!(c.claim_tier_reward(1, pass_id, 0).unwrap().reward_type, RewardType::Token));
    assert!(matches!(c.claim_tier_reward(1, pass_id, 1).unwrap().reward_type, RewardType::Cosmetic));
    assert!(matches!(c.claim_tier_reward(1, pass_id, 2).unwrap().reward_type, RewardType::Nft));
}

#[test]
fn test_tier_advancement_events() {
    let mut c = season_with(vec![tier(1000, RewardType::Token, 100), tier(2500, RewardType::Token, 200)]);
    let pass_id = 1u32;
    c.add_xp(1, pass_id, 3000).unwrap();
    let (xp, tier_reached, _) = c.get_pass(pass_id).unwrap();
    assert_eq!(xp, 3000);
    assert_eq!(tier_reached, 2);
}

#[test]
fn xp_after_the_season_is_refused() {
    let mut c = season_with(vec![tier(1000, RewardType::Token, 100)]);
    assert_eq!(c.add_xp(MONTH + 2, 1, 1000), Err(PassError::SeasonNotActive));
    assert_eq!(c.add_xp(1, 9, 1000), Err(PassError::PassNotFound));
    assert_eq!(c.claim_tier_reward(1, 1, 0), Err(PassError::TierNotReached));
    c.add_xp(1, 1, 1000).unwrap();
    assert_eq!(c.claim_tier_reward(1, 1, 0), Ok(tier(1000, RewardType::Token, 100)));
}
