use puzzle_contracts::dynamic_metadata::text::append_u32_bytes;
use puzzle_contracts::dynamic_metadata::{
    DynamicMetadataContract, MetadataError, OwnershipEvent, TokenMetadata,
};

const ADMIN: u64 = 1;
const MIGRATOR: u64 = 2;
const ORACLE: u64 = 3;
const OWNER: u64 = 10;
const MINTER: u64 = 11;
const STRANGER: u64 = 12;
const A: u64 = 20;
const B: u64 = 21;
const C: u64 = 22;
const SELF_ID: u64 = 99;
const BASE: &str = "ipfs://bafy.../metadata";

fn s(x: &str) -> Vec<u8> {
    x.as_bytes().to_vec()
}

fn setup_meta() -> DynamicMetadataContract {
    let mut c = DynamicMetadataContract::new();
    c.initialize(ADMIN, MIGRATOR, ORACLE, s(BASE), 1).unwrap();
    c
}

fn mint_default(c: &mut DynamicMetadataContract, owner: u64) -> u32 {
    let string_traits = vec![(s("background"), s("forest")), (s("rank"), s("common"))];
    c.mint_token(0, MINTER, owner, s("Mythic Sword"), s("An ancient blade..."), 1, s(""), string_traits, vec![])
        .unwrap()
}

fn string_trait(m: &TokenMetadata, key: &str) -> Option<Vec<u8>> {
    m.string_traits.iter().find(|(k, _)| k.as_slice() == key.as_bytes()).map(|(_, v)| v.clone())
}

fn numeric_trait(m: &TokenMetadata, key: &str) -> Option<u32> {
    m.numeric_traits.iter().find(|(k, _)| k.as_slice() == key.as_bytes()).map(|(_, v)| *v)
}

fn uri(base: &str, token_id: u32, level: u32, rarity: u32) -> Vec<u8> {
    s(&format!("{}/nft/{}/lvl/{}/rar/{}.{}", base, token_id, level, rarity, "png"))
}

#[test]
fn test_initialize_success() {
    let c = setup_meta();
    let config = c.get_config().unwrap();
    assert_eq!(config.schema_version, 1);
    assert_eq!(config.image_base_uri.len(), BASE.len());
}

#[test]
fn initialize_errors() {
    let mut c = setup_meta();
    assert_eq!(c.initialize(ADMIN, MIGRATOR, ORACLE, s("ipfs://other"), 1), Err(MetadataError::AlreadyInitialized));
    let mut fresh = DynamicMetadataContract::new();
    assert_eq!(fresh.initialize(ADMIN, MIGRATOR, ORACLE, s("ipfs://base"), 0), Err(MetadataError::InvalidSchemaVersion));
    assert_eq!(fresh.initialize(ADMIN, MIGRATOR, ORACLE, s(""), 1), Err(MetadataError::InvalidImageBaseUri));
}

#[test]
fn test_pause_flag_default_false() {
    let c = setup_meta();
    assert!(!c.is_paused());
}

#[test]
fn test_set_pause() {
    let mut c = setup_meta();
    c.set_paused(ADMIN, true).unwrap();
    assert!(c.is_paused());
    c.set_paused(ADMIN, false).unwrap();
    assert!(!c.is_paused());
    assert_eq!(c.set_paused(STRANGER, true), Err(MetadataError::NotAdmin));
}

#[test]
fn test_mint_token_initializes_metadata() {
    let mut c = setup_meta();
    let token_id = mint_default(&mut c, OWNER);
    let m = c.get_metadata(token_id).unwrap();
    assert_eq!(m.token_id, token_id);
    assert_eq!(m.owner, OWNER);
    assert_eq!(m.level, 1);
    assert_eq!(m.rarity, 1);
    assert_eq!(m.performance_score, 0);
    assert!(!m.frozen);
    assert_eq!(m.schema_version, 1);
    assert_eq!(m.string_traits.len(), 2);
    assert_eq!(string_trait(m, "background"), Some(s("forest")));
    assert_eq!(string_trait(m, "rank"), Some(s("common")));
}

#[test]
fn test_mint_emits_event_and_version_snapshot() {
    let mut c = setup_meta();
    let token_id = mint_default(&mut c, OWNER);
    let versions = c.get_version_history(token_id);
    assert_eq!(versions.len(), 1);
    assert_eq!(versions[0].version, 1);
    assert_eq!(versions[0].reason, s("mint"));
}

#[test]
fn test_owner_token_index_appended_on_mint() {
    let mut c = setup_meta();
    let id1 = mint_default(&mut c, OWNER);
    let id2 = mint_default(&mut c, OWNER);
    assert_eq!(c.get_tokens_by_owner(OWNER), vec![id1, id2]);
}

#[test]
fn mint_when_paused_is_refused() {
    let mut c = setup_meta();
    c.set_paused(ADMIN, true).unwrap();
    let r = c.mint_token(0, MINTER, OWNER, s("n"), s("d"), 1, s(""), vec![], vec![]);
    assert_eq!(r, Err(MetadataError::ContractPaused));
}

#[test]
fn test_transfer_records_history() {
    let mut c = setup_meta();
    let token_id = mint_default(&mut c, OWNER);
    c.transfer_token(5, OWNER, A, token_id).unwrap();
    let history = c.get_ownership_history(token_id);
    assert_eq!(history.len(), 2);
    assert_eq!(history[0].event, OwnershipEvent::Mint);
    assert_eq!(history[1].event, OwnershipEvent::Transfer);
    assert_eq!(history[1].owner, A);
    assert_eq!(history[1].previous_owner, OWNER);
    assert_eq!(c.transfer_token(6, STRANGER, B, token_id), Err(MetadataError::NotOwner));
}

#[test]
fn test_burn_records_history() {
    let mut c = setup_meta();
    let token_id = mint_default(&mut c, OWNER);
    c.burn_token(3, OWNER, token_id).unwrap();
    let history = c.get_ownership_history(token_id);
    assert_eq!(history.len(), 2);
    assert_eq!(history[1].event, OwnershipEvent::Burn);
    assert!(c.is_burned(token_id));
}

#[test]
fn test_update_metadata_owner() {
    let mut c = setup_meta();
    let token_id = mint_default(&mut c, OWNER);
    c.update_metadata(1, OWNER, token_id, s("Renamed Sword"), s("A finer edge..."), 2, s("ipfs://updated")).unwrap();
    let m = c.get_metadata(token_id).unwrap();
    assert_eq!(m.name, s("Renamed Sword"));
    assert_eq!(m.description, s("A finer edge..."));
    assert_eq!(m.image_id, 2);
    assert_eq!(m.external_uri, s("ipfs://updated"));
}

#[test]
fn test_update_metadata_admin_can_update() {
    let mut c = setup_meta();
    let token_id = mint_default(&mut c, OWNER);
    c.update_metadata(1, ADMIN, token_id, s("AdminRenamed"), s(""), 0, s("")).unwrap();
    let m = c.get_metadata(token_id).unwrap();
    assert_eq!(m.name, s("AdminRenamed"));
    assert_eq!(m.image_id, 1);
    assert_eq!(
        c.update_metadata(1, STRANGER, token_id, s("hack"), s("hack"), 1, s("")),
        Err(MetadataError::NotAuthorized)
    );
}

#[test]
fn test_string_trait_add_remove() {
    let mut c = setup_meta();
    let token_id = mint_default(&mut c, OWNER);
    c.add_string_trait(1, OWNER, token_id, s("aura"), s("glowing")).unwrap();
    assert_eq!(string_trait(c.get_metadata(token_id).unwrap(), "aura"), Some(s("glowing")));
    c.remove_string_trait(2, OWNER, token_id, s("aura")).unwrap();
    assert_eq!(string_trait(c.get_metadata(token_id).unwrap(), "aura"), None);
}

#[test]
fn test_numeric_trait_add_and_increment() {
    let mut c = setup_meta();
    let token_id = mint_default(&mut c, OWNER);
    c.add_numeric_trait(1, OWNER, token_id, s("power"), 10).unwrap();
    let after = c.increment_numeric_trait(2, OWNER, token_id, s("power"), 5).unwrap();
    assert_eq!(after, 15);
    assert_eq!(numeric_trait(c.get_metadata(token_id).unwrap(), "power"), Some(15));
}

#[test]
fn test_too_many_traits_panics() {
    let mut c = setup_meta();
    let mut traits: Vec<(Vec<u8>, Vec<u8>)> = (0..32).map(|i| (s(&format!("k{}", i)), s("v"))).collect();
    traits.sort();
    let token_id = c.mint_token(0, MINTER, OWNER, s("name"), s("desc"), 1, s(""), traits, vec![]).unwrap();
    assert_eq!(c.get_metadata(token_id).unwrap().string_traits.len(), 32);
    assert_eq!(c.add_string_trait(1, OWNER, token_id, s("k32"), s("v")), Err(MetadataError::TooManyTraits));
}

#[test]
fn test_oracle_set_metric_updates_performance_score() {
    let mut c = setup_meta();
    let token_id = mint_default(&mut c, OWNER);
    c.set_performance_metric(1, SELF_ID, ORACLE, token_id, s("wins"), 42).unwrap();
    assert_eq!(c.get_performance_metric(token_id, &s("wins")), 42);
    assert_eq!(c.get_metadata(token_id).unwrap().performance_score, 42);
    assert_eq!(
        c.set_performance_metric(1, SELF_ID, STRANGER, token_id, s("xp"), 10),
        Err(MetadataError::NotOracle)
    );
}

#[test]
fn test_oracle_add_metric_saturates() {
    let mut c = setup_meta();
    let token_id = mint_default(&mut c, OWNER);
    assert_eq!(c.add_performance_metric(1, SELF_ID, ORACLE, token_id, s("xp"), 100), Ok(100));
    assert_eq!(c.add_performance_metric(1, SELF_ID, ORACLE, token_id, s("xp"), 50), Ok(150));
    assert_eq!(c.add_performance_metric(1, SELF_ID, ORACLE, token_id, s("xp"), u64::MAX), Ok(u64::MAX));
}

#[test]
fn test_trait_rule_triggers_on_threshold() {
    let mut c = setup_meta();
    let token_id = mint_default(&mut c, OWNER);
    let id = c.configure_trait_rule(ADMIN, s("perf"), 100, s("rank"), s("legendary"), 2, 3).unwrap();
    assert_eq!(id, 1);
    c.add_performance_metric(1, SELF_ID, ORACLE, token_id, s("wins"), 150).unwrap();
    let m = c.get_metadata(token_id).unwrap();
    assert_eq!(m.level, 2);
    assert_eq!(m.rarity, 3);
    assert_eq!(string_trait(m, "rank"), Some(s("legendary")));
}

#[test]
fn test_trait_rule_does_not_below_threshold() {
    let mut c = setup_meta();
    let token_id = mint_default(&mut c, OWNER);
    c.configure_trait_rule(ADMIN, s("perf"), 100, s("rank"), s("legendary"), 2, 3).unwrap();
    c.add_performance_metric(1, SELF_ID, ORACLE, token_id, s("wins"), 50).unwrap();
    let m = c.get_metadata(token_id).unwrap();
    assert_eq!(m.level, 1);
    assert_eq!(m.rarity, 1);
    assert_eq!(string_trait(m, "rank"), Some(s("common")));
}

#[test]
fn test_evolve_traits_manual_invocation() {
    let mut c = setup_meta();
    let token_id = mint_default(&mut c, OWNER);
    c.configure_trait_rule(ADMIN, s("perf"), 50, s("rank"), s("epic"), 2, 2).unwrap();
    c.set_performance_metric(1, SELF_ID, ORACLE, token_id, s("wins"), 80).unwrap();
    let applied = c.evolve_traits(2, SELF_ID, OWNER, token_id).unwrap();
    assert_eq!(applied, 1);
    assert_eq!(string_trait(c.get_metadata(token_id).unwrap(), "rank"), Some(s("epic")));
}

#[test]
fn test_remove_trait_rule() {
    let mut c = setup_meta();
    let id = c.configure_trait_rule(ADMIN, s("perf"), 10, s("rank"), s("rare"), 2, 2).unwrap();
    assert_eq!(c.get_trait_rules().len(), 1);
    c.remove_trait_rule(ADMIN, id).unwrap();
    assert_eq!(c.get_trait_rules().len(), 0);
    assert_eq!(c.remove_trait_rule(ADMIN, 999), Err(MetadataError::RuleNotFound));
}

#[test]
fn test_trigger_metric_fires_add_trait() {
    let mut c = setup_meta();
    let token_id = mint_default(&mut c, OWNER);
    c.configure_trigger_rule(ADMIN, s("metric"), s("wins"), 10, s("add_trait"), s("title"), s("veteran")).unwrap();
    c.add_performance_metric(1, SELF_ID, ORACLE, token_id, s("wins"), 12).unwrap();
    assert_eq!(string_trait(c.get_metadata(token_id).unwrap(), "title"), Some(s("veteran")));
}

#[test]
fn test_trigger_bump_level() {
    let mut c = setup_meta();
    let token_id = mint_default(&mut c, OWNER);
    c.configure_trigger_rule(ADMIN, s("metric"), s("wins"), 5, s("bump_level"), s(""), s("3")).unwrap();
    c.set_performance_metric(1, SELF_ID, ORACLE, token_id, s("wins"), 5).unwrap();
    assert_eq!(c.get_metadata(token_id).unwrap().level, 4);
}

#[test]
fn test_trigger_ownership_count_fires() {
    let mut c = setup_meta();
    let token_id = mint_default(&mut c, OWNER);
    c.configure_trigger_rule(ADMIN, s("ownership_count"), s(""), 3, s("add_trait"), s("rare"), s("collector")).unwrap();
    c.transfer_token(1, OWNER, A, token_id).unwrap();
    c.transfer_token(2, A, B, token_id).unwrap();
    c.transfer_token(3, B, C, token_id).unwrap();
    let applied = c.check_and_apply_triggers(4, SELF_ID, C, token_id).unwrap();
    assert_eq!(applied, 1);
    assert_eq!(string_trait(c.get_metadata(token_id).unwrap(), "rare"), Some(s("collector")));
}

#[test]
fn trigger_rule_validation() {
    let mut c = setup_meta();
    assert_eq!(
        c.configure_trigger_rule(ADMIN, s("garbage"), s(""), 0, s("add_trait"), s("k"), s("v")),
        Err(MetadataError::InvalidTriggerType)
    );
    assert_eq!(
        c.configure_trigger_rule(ADMIN, s("metric"), s("k"), 1, s("garbage"), s("k"), s("v")),
        Err(MetadataError::InvalidActionType)
    );
}

#[test]
fn test_remove_trigger_rule() {
    let mut c = setup_meta();
    let id = c.configure_trigger_rule(ADMIN, s("metric"), s("wins"), 1, s("add_trait"), s("title"), s("vet")).unwrap();
    assert_eq!(c.get_trigger_rules().len(), 1);
    c.remove_trigger_rule(ADMIN, id).unwrap();
    assert_eq!(c.get_trigger_rules().len(), 0);
}

#[test]
fn test_metadata_update_appends_version() {
    let mut c = setup_meta();
    let token_id = mint_default(&mut c, OWNER);
    assert_eq!(c.get_version_history(token_id).len(), 1);
    c.update_metadata(1, OWNER, token_id, s("Renamed"), s(""), 0, s("")).unwrap();
    let versions = c.get_version_history(token_id);
    assert_eq!(versions.len(), 2);
    assert_eq!(versions[0].version, 1);
    assert_eq!(versions[0].reason, s("mint"));
    assert_eq!(versions[1].version, 2);
    assert_eq!(versions[1].reason, s("update"));
    assert_eq!(versions[0].snapshot.name, s("Mythic Sword"));
}

#[test]
fn test_version_snapshot_captures_pre_change_state() {
    let mut c = setup_meta();
    let token_id = mint_default(&mut c, OWNER);
    c.add_string_trait(1, OWNER, token_id, s("aura"), s("dim")).unwrap();
    let versions = c.get_version_history(token_id);
    let latest = &versions[versions.len() - 1];
    let previous = &versions[versions.len() - 2];
    assert_eq!(string_trait(&latest.snapshot, "aura"), Some(s("dim")));
    assert_eq!(string_trait(&previous.snapshot, "aura"), None);
}

#[test]
fn test_transfer_creates_a_new_version() {
    let mut c = setup_meta();
    let token_id = mint_default(&mut c, OWNER);
    c.transfer_token(1, OWNER, A, token_id).unwrap();
    let versions = c.get_version_history(token_id);
    assert_eq!(versions.len(), 2);
    assert_eq!(versions[1].reason, s("transfer"));
}

#[test]
fn test_freeze_blocks_updates() {
    let mut c = setup_meta();
    let token_id = mint_default(&mut c, OWNER);
    c.freeze_metadata(1, OWNER, token_id).unwrap();
    assert!(c.get_metadata(token_id).unwrap().frozen);
    assert_eq!(
        c.update_metadata(2, OWNER, token_id, s("ShouldFail"), s(""), 0, s("")),
        Err(MetadataError::MetadataFrozen)
    );
}

#[test]
fn test_freeze_blocks_trait_add() {
    let mut c = setup_meta();
    let token_id = mint_default(&mut c, OWNER);
    c.freeze_metadata(1, OWNER, token_id).unwrap();
    assert_eq!(c.add_string_trait(2, OWNER, token_id, s("evil"), s("trait")), Err(MetadataError::MetadataFrozen));
}

#[test]
fn test_unfreeze_allows_updates() {
    let mut c = setup_meta();
    let token_id = mint_default(&mut c, OWNER);
    c.freeze_metadata(1, OWNER, token_id).unwrap();
    c.unfreeze_metadata(2, OWNER, token_id).unwrap();
    assert!(!c.get_metadata(token_id).unwrap().frozen);
    c.update_metadata(3, OWNER, token_id, s("After thaw"), s(""), 0, s("")).unwrap();
    assert_eq!(c.get_metadata(token_id).unwrap().name, s("After thaw"));
}

#[test]
fn test_freeze_blocks_burn() {
    let mut c = setup_meta();
    let token_id = mint_default(&mut c, OWNER);
    c.freeze_metadata(1, OWNER, token_id).unwrap();
    assert!(c.burn_token(2, OWNER, token_id).is_err());
    assert!(!c.is_burned(token_id));
}

#[test]
fn test_freeze_still_allows_metric_reads() {
    let mut c = setup_meta();
    let token_id = mint_default(&mut c, OWNER);
    c.freeze_metadata(1, OWNER, token_id).unwrap();
    c.set_performance_metric(2, SELF_ID, ORACLE, token_id, s("wins"), 5).unwrap();
    assert_eq!(c.get_performance_metric(token_id, &s("wins")), 5);
}

#[test]
fn test_image_uri_format_matches_metadata() {
    let mut c = setup_meta();
    let token_id = mint_default(&mut c, OWNER);
    assert_eq!(c.get_image_uri(token_id), Ok(uri(BASE, token_id, 1, 1)));
}

#[test]
fn test_image_uri_recomputed_after_level_up() {
    let mut c = setup_meta();
    let token_id = mint_default(&mut c, OWNER);
    c.configure_trait_rule(ADMIN, s("perf"), 50, s("rank"), s("epic"), 2, 3).unwrap();
    let (l0, r0) = {
        let m0 = c.get_metadata(token_id).unwrap();
        (m0.level, m0.rarity)
    };
    let uri0 = c.get_image_uri(token_id).unwrap();
    assert_eq!(uri0, uri(BASE, token_id, l0, r0));
    c.add_performance_metric(1, SELF_ID, ORACLE, token_id, s("wins"), 60).unwrap();
    let (l1, r1) = {
        let m1 = c.get_metadata(token_id).unwrap();
        (m1.level, m1.rarity)
    };
    let uri1 = c.get_image_uri(token_id).unwrap();
    assert_eq!(uri1, uri(BASE, token_id, l1, r1));
    assert_ne!(uri0, uri1);
}

#[test]
fn test_image_base_uri_update_changes_uri() {
    let mut c = setup_meta();
    let token_id = mint_default(&mut c, OWNER);
    c.update_image_base_uri(ADMIN, s("https://cdn.example/v2")).unwrap();
    assert_eq!(c.get_image_uri(token_id), Ok(uri("https://cdn.example/v2", token_id, 1, 1)));
}

#[test]
fn test_migrate_metadata_bumps_version_and_snapshots() {
    let mut c = setup_meta();
    let token_id = mint_default(&mut c, OWNER);
    let new_version = c
        .migrate_metadata(1, MIGRATOR, token_id, 2, s("Migrated Name"), s("Migrated desc"), 99, s("ipfs://v2"), vec![], vec![], 5, 7)
        .unwrap();
    assert_eq!(new_version, 3);
    let m = c.get_metadata(token_id).unwrap();
    assert_eq!(m.schema_version, 2);
    assert_eq!(m.name, s("Migrated Name"));
    assert_eq!(m.image_id, 99);
    assert_eq!(m.level, 5);
    assert_eq!(m.rarity, 7);
    let versions = c.get_version_history(token_id);
    assert_eq!(versions.len(), 3);
    assert_eq!(versions[0].reason, s("mint"));
    assert_eq!(versions[1].reason, s("migrate"));
    assert_eq!(versions[2].reason, s("migrated:1->2"));
    assert_eq!(
        c.migrate_metadata(1, STRANGER, token_id, 3, s("X"), s(""), 0, s(""), vec![], vec![], 0, 0),
        Err(MetadataError::NotMigrator)
    );
}

#[test]
fn test_update_schema_version_lower_panics() {
    let mut c = setup_meta();
    c.update_schema_version(ADMIN, 2).unwrap();
    assert_eq!(c.update_schema_version(ADMIN, 1), Err(MetadataError::SchemaVersionCanOnlyIncrease));
}

#[test]
fn test_admin_can_swap_oracle() {
    let mut c = setup_meta();
    let token_id = mint_default(&mut c, OWNER);
    c.set_oracle(ADMIN, A).unwrap();
    assert_eq!(c.set_performance_metric(1, SELF_ID, ORACLE, token_id, s("wins"), 1), Err(MetadataError::NotOracle));
    c.set_performance_metric(1, SELF_ID, A, token_id, s("wins"), 1).unwrap();
    assert_eq!(c.get_performance_metric(token_id, &s("wins")), 1);
}

#[test]
fn test_admin_can_swap_migrator() {
    let mut c = setup_meta();
    let token_id = mint_default(&mut c, OWNER);
    c.set_migrator(ADMIN, A).unwrap();
    let r = c.migrate_metadata(1, MIGRATOR, token_id, 2, s("X"), s(""), 0, s(""), vec![], vec![], 0, 0);
    assert!(r.is_err());
    let r2 = c.migrate_metadata(1, A, token_id, 2, s("X"), s(""), 0, s(""), vec![], vec![], 0, 0);
    assert!(r2.is_ok());
}

#[test]
fn test_full_lifecycle_emit_and_query() {
    let mut c = setup_meta();
    let token_id = mint_default(&mut c, OWNER);
    c.configure_trait_rule(ADMIN, s("perf"), 100, s("rank"), s("aside"), 2, 5).unwrap();
    c.configure_trigger_rule(ADMIN, s("metric"), s("wins"), 5, s("add_trait"), s("ribbon"), s("blue")).unwrap();
    c.transfer_token(1, OWNER, A, token_id).unwrap();
    c.set_performance_metric(2, SELF_ID, ORACLE, token_id, s("wins"), 120).unwrap();
    {
        let m = c.get_metadata(token_id).unwrap();
        assert_eq!(string_trait(m, "ribbon"), Some(s("blue")));
        assert_eq!(string_trait(m, "rank"), Some(s("aside")));
        assert_eq!(m.level, 2);
        assert_eq!(m.rarity, 5);
    }
    assert_eq!(c.get_ownership_history(token_id).len(), 2);
    assert!(c.get_version_history(token_id).len() >= 4);
    c.migrate_metadata(3, MIGRATOR, token_id, 2, s("Final form"), s(""), 0, s(""), vec![], vec![], 10, 10).unwrap();
    let m = c.get_metadata(token_id).unwrap();
    assert_eq!(m.schema_version, 2);
    assert_eq!(m.level, 10);
    assert_eq!(m.rarity, 10);
}

#[test]
fn performance_score_follows_a_lowered_metric() {
    let mut c = setup_meta();
    let token_id = mint_default(&mut c, OWNER);
    c.set_performance_metric(1, SELF_ID, ORACLE, token_id, s("wins"), 10).unwrap();
    c.set_performance_metric(2, SELF_ID, ORACLE, token_id, s("wins"), 4).unwrap();
    assert_eq!(c.get_performance_metric(token_id, &s("wins")), 4);
    assert_eq!(c.get_metadata(token_id).unwrap().performance_score, 4);
    c.set_performance_metric(3, SELF_ID, ORACLE, token_id, s("losses"), 3).unwrap();
    assert_eq!(c.get_metadata(token_id).unwrap().performance_score, 7);
    c.set_performance_metric(4, SELF_ID, ORACLE, token_id, s("wins"), 0).unwrap();
    assert_eq!(c.get_metadata(token_id).unwrap().performance_score, 3);
}

#[test]
fn digits_need_only_their_own_room() {
    let mut buf = vec![0u8; 8];
    assert_eq!(append_u32_bytes(&mut buf, 2, 120), 5);
    assert_eq!(buf, vec![0, 0, b'1', b'2', b'0', 0, 0, 0]);
    let mut buf = vec![9u8; 3];
    assert_eq!(append_u32_bytes(&mut buf, 1, 0), 2);
    assert_eq!(buf, vec![9, b'0', 9]);
    let mut buf = vec![0u8; 10];
    assert_eq!(append_u32_bytes(&mut buf, 0, u32::MAX), 10);
    assert_eq!(buf, b"4294967295".to_vec());
}

#[test]
fn traits_are_kept_in_key_order() {
    let mut c = setup_meta();
    let token_id = c
        .mint_token(0, MINTER, OWNER, s("n"), s("d"), 1, s(""), vec![(s("b"), s("2"))], vec![(s("y"), 2)])
        .unwrap();
    c.add_string_trait(1, OWNER, token_id, s("a"), s("1")).unwrap();
    c.add_numeric_trait(2, OWNER, token_id, s("z"), 3).unwrap();
    c.add_numeric_trait(3, OWNER, token_id, s("x"), 1).unwrap();
    let m = c.get_metadata(token_id).unwrap();
    assert_eq!(m.string_traits, vec![(s("a"), s("1")), (s("b"), s("2"))]);
    assert_eq!(m.numeric_traits, vec![(s("x"), 1), (s("y"), 2), (s("z"), 3)]);
    c.add_string_trait(4, OWNER, token_id, s("b"), s("3")).unwrap();
    let m = c.get_metadata(token_id).unwrap();
    assert_eq!(m.string_traits, vec![(s("a"), s("1")), (s("b"), s("3"))]);
}
