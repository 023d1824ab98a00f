//! Fully dynamic NFT metadata: traits, levels, rarity and image URIs driven by
//! ownership history, oracle metrics, elapsed time and admin rules, with a
//! version snapshot for every meaningful change.
use std::collections::HashMap;
use vstd::prelude::*;

pub mod keyed;
pub mod rules;
pub mod text;
pub mod words;

use crate::common::copy_bytes;
use keyed::{
    bview, copy_str_entries, copy_val_entries, get_at, get_val, has_key, keys_of, remove_at,
    remove_str, set_at, set_str, set_val, sorted_keys, sview, vkeys, find_in, lemma_keys_bview,
    lemma_keys_sview,
};
use rules::{ascending, ids_of, insert_rule, put_at, remove_rule, slot_of, RuleId};
use text::{
    base_uri_fits, build_image_uri, make_migration_reason, spec_image_uri, spec_migration_reason,
};
use text::{parse_u32, spec_parse_u32, spec_str_eq, str_eq};
use words::{
    bytes_add_trait, bytes_bump_level, bytes_evolve_traits, bytes_metric, bytes_ownership_count,
    bytes_time, bytes_trigger_apply, lit_add_trait, lit_bump_level, lit_evolve_traits, lit_metric,
    lit_ownership_count, lit_time, lit_trigger_apply,
};
use words::{
    bytes_add_numeric_trait, bytes_add_string_trait, bytes_burn, bytes_freeze,
    bytes_increment_numeric_trait, bytes_migrate, bytes_mint, bytes_remove_string_trait,
    bytes_transfer, bytes_unfreeze, bytes_update, lit_add_numeric_trait, lit_add_string_trait,
    lit_burn, lit_freeze, lit_increment_numeric_trait, lit_migrate, lit_mint,
    lit_remove_string_trait, lit_transfer, lit_unfreeze, lit_update,
};

verus! {

broadcast use vstd::std_specs::hash::group_hash_axioms;

/// An account or contract address, identified by a number.
pub type AccountId = u64;

/// Highest schema version the contract migrates to.
pub const MAX_SCHEMA_VERSION: u32 = 10;

/// Longest image base URI accepted.
pub const MAX_BASE_URI_LEN: usize = 200;

/// Most string (and most numeric) traits a token may carry.
pub const MAX_TRAITS_PER_TOKEN: usize = 32;

#[derive(Clone, Copy, Debug, PartialEq, Eq, Structural)]
pub enum MetadataError {
    AlreadyInitialized,
    InvalidSchemaVersion,
    InvalidImageBaseUri,
    NotInitialized,
    NotAdmin,
    NotMigrator,
    NotOracle,
    ContractPaused,
    TooManyTraits,
    TokenNotFound,
    NotOwner,
    NotAuthorized,
    MetadataFrozen,
    SchemaVersionCanOnlyIncrease,
    CannotDowngradeVersion,
    RuleNotFound,
    InvalidTriggerType,
    InvalidActionType,
}

#[derive(Debug)]
pub struct ContractConfig {
    pub admin: AccountId,
    pub migrator: AccountId,
    pub oracle: AccountId,
    pub image_base_uri: Vec<u8>,
    pub schema_version: u32,
}

#[derive(Debug)]
pub struct TokenMetadata {
    pub token_id: u32,
    pub owner: AccountId,
    pub name: Vec<u8>,
    pub description: Vec<u8>,
    pub image_id: u32,
    pub external_uri: Vec<u8>,
    pub string_traits: Vec<(Vec<u8>, Vec<u8>)>,
    pub numeric_traits: Vec<(Vec<u8>, u32)>,
    pub level: u32,
    pub rarity: u32,
    pub performance_score: u64,
    pub schema_version: u32,
    pub created_at: u64,
    pub updated_at: u64,
    pub frozen: bool,
}

/// The value of a token's metadata.
pub struct MetaView {
    pub token_id: u32,
    pub owner: AccountId,
    pub name: Seq<u8>,
    pub description: Seq<u8>,
    pub image_id: u32,
    pub external_uri: Seq<u8>,
    pub string_traits: Seq<(Seq<u8>, Seq<u8>)>,
    pub numeric_traits: Seq<(Seq<u8>, u32)>,
    pub level: u32,
    pub rarity: u32,
    pub performance_score: u64,
    pub schema_version: u32,
    pub created_at: u64,
    pub updated_at: u64,
    pub frozen: bool,
}

impl View for TokenMetadata {
    type V = MetaView;

    open spec fn view(&self) -> MetaView {
        MetaView {
            token_id: self.token_id,
            owner: self.owner,
            name: self.name@,
            description: self.description@,
            image_id: self.image_id,
            external_uri: self.external_uri@,
            string_traits: sview(self.string_traits@),
            numeric_traits: bview(self.numeric_traits@),
            level: self.level,
            rarity: self.rarity,
            performance_score: self.performance_score,
            schema_version: self.schema_version,
            created_at: self.created_at,
            updated_at: self.updated_at,
            frozen: self.frozen,
        }
    }
}

impl TokenMetadata {
    /// A copy with the same value.
    pub fn duplicate(&self) -> (r: TokenMetadata)
        ensures
            r@ == self@,
    {
        TokenMetadata {
            token_id: self.token_id,
            owner: self.owner,
            name: copy_bytes(&self.name),
            description: copy_bytes(&self.description),
            image_id: self.image_id,
            external_uri: copy_bytes(&self.external_uri),
            string_traits: copy_str_entries(&self.string_traits),
            numeric_traits: copy_val_entries(&self.numeric_traits),
            level: self.level,
            rarity: self.rarity,
            performance_score: self.performance_score,
            schema_version: self.schema_version,
            created_at: self.created_at,
            updated_at: self.updated_at,
            frozen: self.frozen,
        }
    }
}

#[derive(Clone, Copy, Debug, PartialEq, Eq, Structural)]
pub enum OwnershipEvent {
    Mint,
    Transfer,
    Burn,
}

/// One ownership event of a token.
#[derive(Clone, Copy, Debug, PartialEq, Eq, Structural)]
pub struct OwnershipRecord {
    pub owner: AccountId,
    pub event: OwnershipEvent,
    pub at: u64,
    /// For transfers the previous owner; for a mint the minter; for a burn the owner.
    pub previous_owner: AccountId,
}

/// A snapshot of a token's metadata.
#[derive(Debug)]
pub struct MetadataVersion {
    pub version: u32,
    pub snapshot: TokenMetadata,
    pub changed_by: AccountId,
    pub reason: Vec<u8>,
    pub changed_at: u64,
}

/// The value of a snapshot.
pub struct VersionView {
    pub version: u32,
    pub snapshot: MetaView,
    pub changed_by: AccountId,
    pub reason: Seq<u8>,
    pub changed_at: u64,
}

impl View for MetadataVersion {
    type V = VersionView;

    open spec fn view(&self) -> VersionView {
        VersionView {
            version: self.version,
            snapshot: self.snapshot@,
            changed_by: self.changed_by,
            reason: self.reason@,
            changed_at: self.changed_at,
        }
    }
}

impl MetadataVersion {
    /// A copy with the same value.
    pub fn duplicate(&self) -> (r: MetadataVersion)
        ensures
            r@ == self@,
    {
        MetadataVersion {
            version: self.version,
            snapshot: self.snapshot.duplicate(),
            changed_by: self.changed_by,
            reason: copy_bytes(&self.reason),
            changed_at: self.changed_at,
        }
    }
}

/// Writes `target_trait_value` into `target_trait_name` once the token's
/// performance score reaches `threshold`, and raises the token's rarity to
/// `new_rarity` and its level to `target_level` where they are lower.
/// `metric` is a label only.
#[derive(Debug)]
pub struct TraitEvolutionRule {
    pub id: u64,
    pub metric: Vec<u8>,
    pub threshold: u64,
    pub target_trait_name: Vec<u8>,
    pub target_trait_value: Vec<u8>,
    pub target_level: u32,
    pub new_rarity: u32,
}

/// Fires on "metric" (metric `metric_key` reaches `threshold`),
/// "ownership_count" (at least `threshold` mint/transfer events) or "time"
/// (`threshold` seconds since the last update); acts by "add_trait",
/// "add_numeric_trait" (value parsed as a number) or "bump_level".
#[derive(Debug)]
pub struct TriggerRule {
    pub id: u64,
    pub trigger_type: Vec<u8>,
    pub metric_key: Vec<u8>,
    pub threshold: u64,
    pub action_type: Vec<u8>,
    pub action_param: Vec<u8>,
    pub action_value: Vec<u8>,
}

impl RuleId for TraitEvolutionRule {
    open spec fn rule_id(&self) -> u64 {
        self.id
    }

    fn id_value(&self) -> (r: u64) {
        self.id
    }
}

impl RuleId for TriggerRule {
    open spec fn rule_id(&self) -> u64 {
        self.id
    }

    fn id_value(&self) -> (r: u64) {
        self.id
    }
}

/// The contract's storage.
pub struct DynamicMetadataContract {
    pub config: Option<ContractConfig>,
    pub admins: HashMap<AccountId, bool>,
    pub migrators: HashMap<AccountId, bool>,
    pub oracles: HashMap<AccountId, bool>,
    pub tokens: HashMap<u32, TokenMetadata>,
    pub ownership: HashMap<u32, Vec<OwnershipRecord>>,
    pub versions: HashMap<u32, Vec<MetadataVersion>>,
    pub metrics: HashMap<u32, Vec<(Vec<u8>, u64)>>,
    /// Trait rules in ascending id order.
    pub trait_rules: Vec<TraitEvolutionRule>,
    /// Trigger rules in ascending id order.
    pub trigger_rules: Vec<TriggerRule>,
    pub owner_index: HashMap<AccountId, Vec<u32>>,
    pub image_cache: HashMap<u32, Vec<u8>>,
    pub next_token_id: Option<u32>,
    pub next_trait_rule_id: Option<u64>,
    pub next_trigger_rule_id: Option<u64>,
    pub paused: Option<bool>,
}

/// `o.unwrap_or(d)`.
pub open spec fn or_default<T>(o: Option<T>, d: T) -> T {
    match o {
        Some(v) => v,
        None => d,
    }
}

/// The value a map holds for a key, if any.
pub open spec fn map_get<K, V>(m: Map<K, V>, k: K) -> Option<V> {
    if m.contains_key(k) {
        Some(m[k])
    } else {
        None
    }
}

/// `a + b`, saturating at `u32::MAX`.
pub open spec fn sat_add_u32(a: u32, b: u32) -> u32 {
    if a + b > u32::MAX {
        u32::MAX
    } else {
        (a + b) as u32
    }
}

/// `a + b`, saturating at `u64::MAX`.
pub open spec fn sat_add_u64(a: u64, b: u64) -> u64 {
    if a + b > u64::MAX {
        u64::MAX
    } else {
        (a + b) as u64
    }
}

pub open spec fn sat_sub_u64(a: u64, b: u64) -> u64 {
    if a >= b {
        (a - b) as u64
    } else {
        0
    }
}


/// The views of a list of snapshots.
pub open spec fn versions_view(v: Seq<MetadataVersion>) -> Seq<VersionView> {
    v.map_values(|x: MetadataVersion| x@)
}

impl DynamicMetadataContract {
    /// The snapshots of a token (none when absent).
    pub open spec fn versions_of(self, id: u32) -> Seq<VersionView> {
        if self.versions@.contains_key(id) {
            versions_view(self.versions@[id]@)
        } else {
            Seq::empty()
        }
    }

    /// The ownership history of a token (empty when absent).
    pub open spec fn history_of(self, id: u32) -> Seq<OwnershipRecord> {
        if self.ownership@.contains_key(id) {
            self.ownership@[id]@
        } else {
            Seq::empty()
        }
    }

    /// The token ids recorded for an owner (empty when absent).
    pub open spec fn owned_by(self, owner: AccountId) -> Seq<u32> {
        if self.owner_index@.contains_key(owner) {
            self.owner_index@[owner]@
        } else {
            Seq::empty()
        }
    }

    /// The stored metrics of a token (none when absent).
    pub open spec fn metrics_of(self, id: u32) -> Seq<(Seq<u8>, u64)> {
        if self.metrics@.contains_key(id) {
            bview(self.metrics@[id]@)
        } else {
            Seq::empty()
        }
    }

    /// Every stored token is stored under its own id.
    pub open spec fn wf(self) -> bool {
        &&& forall|k: u32| #[trigger] self.tokens@.contains_key(k) ==> self.tokens@[k].token_id == k
        &&& ascending(ids_of(self.trait_rules@))
        &&& ascending(ids_of(self.trigger_rules@))
    }

    /// Whether `who` holds the admin marker.
    pub open spec fn spec_is_admin(self, who: AccountId) -> bool {
        map_get(self.admins@, who) == Some(true)
    }

    pub open spec fn spec_paused(self) -> bool {
        or_default(self.paused, false)
    }

    /// Every field but tokens, image cache and snapshots is unchanged.
    pub open spec fn rest_same(self, old: Self) -> bool {
        &&& self.config == old.config
        &&& self.admins == old.admins
        &&& self.migrators == old.migrators
        &&& self.oracles == old.oracles
        &&& self.ownership == old.ownership
        &&& self.metrics == old.metrics
        &&& self.trait_rules == old.trait_rules
        &&& self.trigger_rules == old.trigger_rules
        &&& self.owner_index == old.owner_index
        &&& self.next_token_id == old.next_token_id
        &&& self.next_trait_rule_id == old.next_trait_rule_id
        &&& self.next_trigger_rule_id == old.next_trigger_rule_id
        &&& self.paused == old.paused
    }

    /// Every field holds what it held in `old`, the tokens taken by value.
    pub open spec fn unchanged(self, old: Self) -> bool {
        &&& self.rest_same(old)
        &&& self.tokens@ == old.tokens@
        &&& self.versions == old.versions
        &&& self.image_cache == old.image_cache
    }

    /// Token `id` now has value `m`; the other tokens are unchanged.
    pub open spec fn token_set(self, old: Self, id: u32, m: MetaView) -> bool {
        &&& self.tokens@.contains_key(id)
        &&& self.tokens@ == old.tokens@.insert(id, self.tokens@[id])
        &&& self.tokens@[id]@ == m
    }

    /// Token `id`'s snapshot list grew by one snapshot of `m`, numbered one
    /// past the old count, recorded by `by` for `reason` at `now`.
    pub open spec fn snapshot_added(
        self,
        old: Self,
        id: u32,
        m: MetaView,
        by: AccountId,
        reason: Seq<u8>,
        now: u64,
    ) -> bool {
        &&& self.versions@.contains_key(id)
        &&& self.versions@ == old.versions@.insert(id, self.versions@[id])
        &&& self.versions_of(id) == old.versions_of(id).push(
            VersionView {
                version: (old.versions_of(id).len() + 1) as u32,
                snapshot: m,
                changed_by: by,
                reason,
                changed_at: now,
            },
        )
    }

    /// Storage of a contract that has not been initialized.
    pub fn new() -> (r: Self)
        ensures
            r.config.is_none() && r.next_token_id.is_none() && r.paused.is_none(),
            r.next_trait_rule_id.is_none() && r.next_trigger_rule_id.is_none(),
            r.tokens@ == Map::<u32, TokenMetadata>::empty(),
            r.admins@ == Map::<AccountId, bool>::empty(),
            r.trait_rules@.len() == 0 && r.trigger_rules@.len() == 0,
    {
        DynamicMetadataContract {
            config: None,
            admins: HashMap::new(),
            migrators: HashMap::new(),
            oracles: HashMap::new(),
            tokens: HashMap::new(),
            ownership: HashMap::new(),
            versions: HashMap::new(),
            metrics: HashMap::new(),
            trait_rules: Vec::new(),
            trigger_rules: Vec::new(),
            owner_index: HashMap::new(),
            image_cache: HashMap::new(),
            next_token_id: None,
            next_trait_rule_id: None,
            next_trigger_rule_id: None,
            paused: None,
        }
    }

    /// Initializes once: admin, migrator and oracle roles, the image base URI
    /// (1..=200 bytes) and the schema version (1..=10).
    pub fn initialize(
        &mut self,
        admin: AccountId,
        migrator: AccountId,
        oracle: AccountId,
        image_base_uri: Vec<u8>,
        schema_version: u32,
    ) -> (r: Result<(), MetadataError>)
        ensures
            r == (if old(self).config.is_some() {
                Err(MetadataError::AlreadyInitialized)
            } else if schema_version == 0 || schema_version > 10 {
                Err(MetadataError::InvalidSchemaVersion)
            } else if image_base_uri@.len() == 0 || image_base_uri@.len() > 200 {
                Err(MetadataError::InvalidImageBaseUri)
            } else {
                Ok(())
            }),
            r.is_err() ==> *final(self) == *old(self),
            r.is_ok() ==> {
                &&& final(self).config matches Some(c) && c.admin == admin && c.migrator == migrator
                    && c.oracle == oracle && c.image_base_uri@ == image_base_uri@
                    && c.schema_version == schema_version
                &&& final(self).admins@ == old(self).admins@.insert(admin, true)
                &&& final(self).migrators@ == old(self).migrators@.insert(migrator, true)
                &&& final(self).oracles@ == old(self).oracles@.insert(oracle, true)
                &&& final(self).next_token_id == Some(1u32)
                &&& final(self).next_trait_rule_id == Some(1u64)
                &&& final(self).next_trigger_rule_id == Some(1u64)
                &&& final(self).paused == Some(false)
                &&& final(self).tokens == old(self).tokens
                &&& final(self).trait_rules == old(self).trait_rules
                &&& final(self).trigger_rules == old(self).trigger_rules
                &&& final(self).ownership == old(self).ownership
                &&& final(self).metrics == old(self).metrics
                &&& final(self).versions == old(self).versions
                &&& final(self).owner_index == old(self).owner_index
                &&& final(self).image_cache == old(self).image_cache
            },
    {
        if self.config.is_some() {
            return Err(MetadataError::AlreadyInitialized);
        }
        if schema_version == 0 || schema_version > MAX_SCHEMA_VERSION {
            return Err(MetadataError::InvalidSchemaVersion);
        }
        if image_base_uri.len() == 0 || image_base_uri.len() > MAX_BASE_URI_LEN {
            return Err(MetadataError::InvalidImageBaseUri);
        }
        self.admins.insert(admin, true);
        self.migrators.insert(migrator, true);
        self.oracles.insert(oracle, true);
        self.config = Some(ContractConfig { admin, migrator, oracle, image_base_uri, schema_version });
        self.next_token_id = Some(1);
        self.next_trait_rule_id = Some(1);
        self.next_trigger_rule_id = Some(1);
        self.paused = Some(false);
        Ok(())
    }

    /// The configuration (`NotInitialized` before initialization).
    pub fn get_config(&self) -> (r: Result<&ContractConfig, MetadataError>)
        ensures
            match r {
                Ok(c) => self.config == Some(*c),
                Err(e) => self.config.is_none() && e == MetadataError::NotInitialized,
            },
    {
        match &self.config {
            Some(c) => Ok(c),
            None => Err(MetadataError::NotInitialized),
        }
    }

    /// Whether the contract is paused (not paused when never set).
    pub fn is_paused(&self) -> (r: bool)
        ensures
            r == self.spec_paused(),
    {
        match self.paused {
            Some(p) => p,
            None => false,
        }
    }

    pub fn assert_not_paused(&self) -> (r: Result<(), MetadataError>)
        ensures
            r == (if self.spec_paused() {
                Err(MetadataError::ContractPaused)
            } else {
                Ok(())
            }),
    {
        if self.is_paused() {
            return Err(MetadataError::ContractPaused);
        }
        Ok(())
    }

    /// Whether `who` holds the admin marker.
    pub fn is_admin(&self, who: AccountId) -> (r: bool)
        ensures
            r == self.spec_is_admin(who),
    {
        match self.admins.get(&who) {
            Some(b) => *b,
            None => false,
        }
    }

    pub fn assert_admin(&self, who: AccountId) -> (r: Result<(), MetadataError>)
        ensures
            r == (if self.spec_is_admin(who) {
                Ok(())
            } else {
                Err(MetadataError::NotAdmin)
            }),
    {
        if !self.is_admin(who) {
            return Err(MetadataError::NotAdmin);
        }
        Ok(())
    }

    pub fn assert_migrator(&self, who: AccountId) -> (r: Result<(), MetadataError>)
        ensures
            r == (if map_get(self.migrators@, who) == Some(true) {
                Ok(())
            } else {
                Err(MetadataError::NotMigrator)
            }),
    {
        match self.migrators.get(&who) {
            Some(b) => if *b {
                Ok(())
            } else {
                Err(MetadataError::NotMigrator)
            },
            None => Err(MetadataError::NotMigrator),
        }
    }

    pub fn assert_oracle(&self, who: AccountId) -> (r: Result<(), MetadataError>)
        ensures
            r == (if map_get(self.oracles@, who) == Some(true) {
                Ok(())
            } else {
                Err(MetadataError::NotOracle)
            }),
    {
        match self.oracles.get(&who) {
            Some(b) => if *b {
                Ok(())
            } else {
                Err(MetadataError::NotOracle)
            },
            None => Err(MetadataError::NotOracle),
        }
    }

    /// Sets the pause flag (admin only).
    pub fn set_paused(&mut self, admin: AccountId, paused: bool) -> (r: Result<(), MetadataError>)
        ensures
            r == (if old(self).spec_is_admin(admin) {
                Ok(())
            } else {
                Err(MetadataError::NotAdmin)
            }),
            r.is_err() ==> *final(self) == *old(self),
            r.is_ok() ==> *final(self) == (DynamicMetadataContract {
                paused: Some(paused),
                ..*old(self)
            }),
    {
        self.assert_admin(admin)?;
        self.paused = Some(paused);
        Ok(())
    }

    /// Replaces the image base URI (admin only, 1..=200 bytes); the cached
    /// image URIs are dropped, so each is rebuilt on the new base.
    pub fn update_image_base_uri(&mut self, admin: AccountId, new_base_uri: Vec<u8>) -> (r: Result<
        (),
        MetadataError,
    >)
        ensures
            r == (if !old(self).spec_is_admin(admin) {
                Err(MetadataError::NotAdmin)
            } else if new_base_uri@.len() == 0 || new_base_uri@.len() > 200 {
                Err(MetadataError::InvalidImageBaseUri)
            } else if old(self).config.is_none() {
                Err(MetadataError::NotInitialized)
            } else {
                Ok(())
            }),
            r.is_err() ==> *final(self) == *old(self),
            r.is_ok() ==> final(self).config == Some(
                ContractConfig { image_base_uri: new_base_uri, ..old(self).config->Some_0 },
            ),
            r.is_ok() ==> final(self).image_cache@ == Map::<u32, Vec<u8>>::empty(),
            r.is_ok() ==> *final(self) == (Self {
                config: final(self).config,
                image_cache: final(self).image_cache,
                ..*old(self)
            }),
    {
        self.assert_admin(admin)?;
        if new_base_uri.len() == 0 || new_base_uri.len() > MAX_BASE_URI_LEN {
            return Err(MetadataError::InvalidImageBaseUri);
        }
        match &mut self.config {
            Some(c) => {
                c.image_base_uri = new_base_uri;
            },
            None => return Err(MetadataError::NotInitialized),
        }
        self.image_cache = HashMap::new();
        Ok(())
    }

    /// Raises the schema version (admin only, 1..=10, never lower).
    pub fn update_schema_version(&mut self, admin: AccountId, new_version: u32) -> (r: Result<
        (),
        MetadataError,
    >)
        ensures
            r == (if !old(self).spec_is_admin(admin) {
                Err(MetadataError::NotAdmin)
            } else if new_version == 0 || new_version > 10 {
                Err(MetadataError::InvalidSchemaVersion)
            } else if old(self).config.is_none() {
                Err(MetadataError::NotInitialized)
            } else if new_version < old(self).config->Some_0.schema_version {
                Err(MetadataError::SchemaVersionCanOnlyIncrease)
            } else {
                Ok(())
            }),
            r.is_err() ==> *final(self) == *old(self),
            r.is_ok() ==> final(self).config == Some(
                ContractConfig { schema_version: new_version, ..old(self).config->Some_0 },
            ),
            r.is_ok() ==> *final(self) == (Self { config: final(self).config, ..*old(self) }),
    {
        self.assert_admin(admin)?;
        if new_version == 0 || new_version > MAX_SCHEMA_VERSION {
            return Err(MetadataError::InvalidSchemaVersion);
        }
        match &mut self.config {
            Some(c) => {
                if new_version < c.schema_version {
                    return Err(MetadataError::SchemaVersionCanOnlyIncrease);
                }
                c.schema_version = new_version;
                Ok(())
            },
            None => Err(MetadataError::NotInitialized),
        }
    }

    /// Replaces the oracle (admin only): the old oracle loses its marker.
    pub fn set_oracle(&mut self, admin: AccountId, new_oracle: AccountId) -> (r: Result<
        (),
        MetadataError,
    >)
        ensures
            r == (if !old(self).spec_is_admin(admin) {
                Err(MetadataError::NotAdmin)
            } else if old(self).config.is_none() {
                Err(MetadataError::NotInitialized)
            } else {
                Ok(())
            }),
            r.is_err() ==> *final(self) == *old(self),
            r.is_ok() ==> final(self).config == Some(
                ContractConfig { oracle: new_oracle, ..old(self).config->Some_0 },
            ),
            r.is_ok() ==> final(self).oracles@ == old(self).oracles@.remove(
                old(self).config->Some_0.oracle,
            ).insert(new_oracle, true),
            r.is_ok() ==> *final(self) == (Self {
                config: final(self).config,
                oracles: final(self).oracles,
                ..*old(self)
            }),
    {
        self.assert_admin(admin)?;
        match &mut self.config {
            Some(c) => {
                let old_oracle = c.oracle;
                self.oracles.remove(&old_oracle);
                self.oracles.insert(new_oracle, true);
                c.oracle = new_oracle;
                Ok(())
            },
            None => Err(MetadataError::NotInitialized),
        }
    }

    /// Replaces the migrator (admin only): the old migrator loses its marker.
    pub fn set_migrator(&mut self, admin: AccountId, new_migrator: AccountId) -> (r: Result<
        (),
        MetadataError,
    >)
        ensures
            r == (if !old(self).spec_is_admin(admin) {
                Err(MetadataError::NotAdmin)
            } else if old(self).config.is_none() {
                Err(MetadataError::NotInitialized)
            } else {
                Ok(())
            }),
            r.is_err() ==> *final(self) == *old(self),
            r.is_ok() ==> final(self).config == Some(
                ContractConfig { migrator: new_migrator, ..old(self).config->Some_0 },
            ),
            r.is_ok() ==> final(self).migrators@ == old(self).migrators@.remove(
                old(self).config->Some_0.migrator,
            ).insert(new_migrator, true),
            r.is_ok() ==> *final(self) == (Self {
                config: final(self).config,
                migrators: final(self).migrators,
                ..*old(self)
            }),
    {
        self.assert_admin(admin)?;
        match &mut self.config {
            Some(c) => {
                let old_migrator = c.migrator;
                self.migrators.remove(&old_migrator);
                self.migrators.insert(new_migrator, true);
                c.migrator = new_migrator;
                Ok(())
            },
            None => Err(MetadataError::NotInitialized),
        }
    }

    /// The stored value of token `id`, if any.
    pub open spec fn meta_of(self, id: u32) -> Option<MetaView> {
        if self.tokens@.contains_key(id) {
            Some(self.tokens@[id]@)
        } else {
            None
        }
    }

    /// The stored metadata of a token (`TokenNotFound` when absent).
    pub fn get_metadata(&self, token_id: u32) -> (r: Result<&TokenMetadata, MetadataError>)
        ensures
            match r {
                Ok(m) => self.tokens@.contains_key(token_id) && *m == self.tokens@[token_id],
                Err(e) => !self.tokens@.contains_key(token_id) && e
                    == MetadataError::TokenNotFound,
            },
    {
        match self.tokens.get(&token_id) {
            Some(m) => Ok(m),
            None => Err(MetadataError::TokenNotFound),
        }
    }

    /// Stores `meta` under its id and drops the token's cached image URI.
    pub fn write_metadata(&mut self, meta: TokenMetadata)
        ensures
            final(self).tokens@ == old(self).tokens@.insert(meta.token_id, meta),
            final(self).image_cache@ == old(self).image_cache@.remove(meta.token_id),
            final(self).versions == old(self).versions,
            final(self).rest_same(*old(self)),
    {
        let id = meta.token_id;
        self.tokens.insert(id, meta);
        self.image_cache.remove(&id);
    }

    /// Appends a snapshot of `meta` to its token's version list, numbered one
    /// past the number of snapshots it had.
    pub fn snapshot_version(&mut self, meta: &TokenMetadata, by: AccountId, reason: Vec<u8>, now: u64)
        requires
            old(self).versions_of(meta.token_id).len() < u32::MAX,
        ensures
            final(self).snapshot_added(*old(self), meta.token_id, meta@, by, reason@, now),
            final(self).tokens == old(self).tokens,
            final(self).image_cache == old(self).image_cache,
            final(self).rest_same(*old(self)),
    {
        let id = meta.token_id;
        let mut versions = match self.versions.remove(&id) {
            Some(v) => v,
            None => Vec::new(),
        };
        let latest = versions.len();
        let ghost before = versions@;
        versions.push(
            MetadataVersion {
                version: (latest + 1) as u32,
                snapshot: meta.duplicate(),
                changed_by: by,
                reason,
                changed_at: now,
            },
        );
        self.versions.insert(id, versions);
        proof {
            assert(self.versions@ =~= old(self).versions@.insert(id, self.versions@[id]));
            assert(versions_view(before) == old(self).versions_of(id));
            assert(self.versions@[id]@[latest as int]@ == VersionView {
                version: (old(self).versions_of(id).len() + 1) as u32,
                snapshot: meta@,
                changed_by: by,
                reason: reason@,
                changed_at: now,
            });
            assert(versions_view(self.versions@[id]@) =~= versions_view(before).push(
                self.versions@[id]@[latest as int]@,
            ));
        }
    }

    /// Number of snapshots of a token.
    pub fn current_version(&self, token_id: u32) -> (r: u32)
        ensures
            r == self.versions_of(token_id).len() as u32,
    {
        match self.versions.get(&token_id) {
            Some(v) => #[verifier::truncate] (v.len() as u32),
            None => 0,
        }
    }

    /// The ownership history of a token, oldest first (empty when absent).
    pub fn get_ownership_history(&self, token_id: u32) -> (r: Vec<OwnershipRecord>)
        ensures
            r@ == self.history_of(token_id),
    {
        let mut out: Vec<OwnershipRecord> = Vec::new();
        match self.ownership.get(&token_id) {
            Some(h) => {
                let mut i: usize = 0;
                while i < h.len()
                    invariant
                        i <= h.len(),
                        out@ == h@.subrange(0, i as int),
                    decreases h.len() - i,
                {
                    out.push(h[i]);
                    i = i + 1;
                    assert(out@ =~= h@.subrange(0, i as int));
                }
                assert(h@.subrange(0, h.len() as int) =~= h@);
            },
            None => {},
        }
        out
    }

    /// The snapshots of a token, oldest first (empty when absent).
    pub fn get_version_history(&self, token_id: u32) -> (r: Vec<MetadataVersion>)
        ensures
            versions_view(r@) == self.versions_of(token_id),
    {
        let mut out: Vec<MetadataVersion> = Vec::new();
        match self.versions.get(&token_id) {
            Some(h) => {
                let mut i: usize = 0;
                while i < h.len()
                    invariant
                        i <= h.len(),
                        versions_view(out@) == versions_view(h@.subrange(0, i as int)),
                    decreases h.len() - i,
                {
                    let ghost o0 = out@;
                    out.push(h[i].duplicate());
                    assert(versions_view(out@) =~= versions_view(o0).push(h@[i as int]@));
                    assert(h@.subrange(0, i + 1) =~= h@.subrange(0, i as int).push(h@[i as int]));
                    assert(versions_view(h@.subrange(0, i + 1)) =~= versions_view(
                        h@.subrange(0, i as int),
                    ).push(h@[i as int]@));
                    i = i + 1;
                }
                assert(h@.subrange(0, h.len() as int) =~= h@);
            },
            None => {
                assert(versions_view(out@) =~= Seq::<VersionView>::empty());
            },
        }
        out
    }

    /// The token ids ever received by `owner`, in order (an append-only log).
    pub fn get_tokens_by_owner(&self, owner: AccountId) -> (r: Vec<u32>)
        ensures
            r@ == self.owned_by(owner),
    {
        let mut out: Vec<u32> = Vec::new();
        match self.owner_index.get(&owner) {
            Some(h) => {
                let mut i: usize = 0;
                while i < h.len()
                    invariant
                        i <= h.len(),
                        out@ == h@.subrange(0, i as int),
                    decreases h.len() - i,
                {
                    out.push(h[i]);
                    i = i + 1;
                    assert(out@ =~= h@.subrange(0, i as int));
                }
                assert(h@.subrange(0, h.len() as int) =~= h@);
            },
            None => {},
        }
        out
    }

    /// Whether the latest ownership event of a token is a burn.
    pub fn is_burned(&self, token_id: u32) -> (r: bool)
        ensures
            r == (self.history_of(token_id).len() > 0 && self.history_of(token_id).last().event
                == OwnershipEvent::Burn),
    {
        match self.ownership.get(&token_id) {
            Some(h) => {
                if h.len() == 0 {
                    false
                } else {
                    h[h.len() - 1].event == OwnershipEvent::Burn
                }
            },
            None => false,
        }
    }

    /// Appends `rec` to a token's ownership history.
    fn push_history(&mut self, token_id: u32, rec: OwnershipRecord)
        ensures
            final(self).ownership@ == old(self).ownership@.insert(
                token_id,
                final(self).ownership@[token_id],
            ),
            final(self).history_of(token_id) == old(self).history_of(token_id).push(rec),
            final(self).tokens == old(self).tokens,
            final(self).versions == old(self).versions,
            final(self).image_cache == old(self).image_cache,
            final(self).owner_index == old(self).owner_index,
            final(self).config == old(self).config,
            final(self).paused == old(self).paused,
            final(self).next_token_id == old(self).next_token_id,
            final(self).admins == old(self).admins,
            final(self).metrics == old(self).metrics,
            final(self).migrators == old(self).migrators,
            final(self).oracles == old(self).oracles,
            final(self).trait_rules == old(self).trait_rules,
            final(self).trigger_rules == old(self).trigger_rules,
            final(self).next_trait_rule_id == old(self).next_trait_rule_id,
            final(self).next_trigger_rule_id == old(self).next_trigger_rule_id,
    {
        let mut h = match self.ownership.remove(&token_id) {
            Some(h) => h,
            None => Vec::new(),
        };
        h.push(rec);
        self.ownership.insert(token_id, h);
        assert(self.ownership@ =~= old(self).ownership@.insert(token_id, self.ownership@[token_id]));
    }

    /// Appends `token_id` to an owner's token log.
    fn push_owner_index(&mut self, owner: AccountId, token_id: u32)
        ensures
            final(self).owner_index@ == old(self).owner_index@.insert(
                owner,
                final(self).owner_index@[owner],
            ),
            final(self).owned_by(owner) == old(self).owned_by(owner).push(token_id),
            final(self).tokens == old(self).tokens,
            final(self).versions == old(self).versions,
            final(self).image_cache == old(self).image_cache,
            final(self).ownership == old(self).ownership,
            final(self).config == old(self).config,
            final(self).paused == old(self).paused,
            final(self).next_token_id == old(self).next_token_id,
            final(self).admins == old(self).admins,
            final(self).metrics == old(self).metrics,
            final(self).migrators == old(self).migrators,
            final(self).oracles == old(self).oracles,
            final(self).trait_rules == old(self).trait_rules,
            final(self).trigger_rules == old(self).trigger_rules,
            final(self).next_trait_rule_id == old(self).next_trait_rule_id,
            final(self).next_trigger_rule_id == old(self).next_trigger_rule_id,
    {
        let mut h = match self.owner_index.remove(&owner) {
            Some(h) => h,
            None => Vec::new(),
        };
        h.push(token_id);
        self.owner_index.insert(owner, h);
        assert(self.owner_index@ =~= old(self).owner_index@.insert(owner, self.owner_index@[owner]));
    }

    /// What `mint_token` reports before any change: the new id, or the error.
    pub open spec fn spec_mint(self, string_count: nat, numeric_count: nat) -> Result<u32, MetadataError> {
        if self.spec_paused() {
            Err(MetadataError::ContractPaused)
        } else if string_count > 32 || numeric_count > 32 {
            Err(MetadataError::TooManyTraits)
        } else if self.config.is_none() {
            Err(MetadataError::NotInitialized)
        } else if !base_uri_fits(self.config->Some_0.image_base_uri@) {
            Err(MetadataError::InvalidImageBaseUri)
        } else {
            Ok(or_default(self.next_token_id, 1u32))
        }
    }

    /// Mints a token at level 1, rarity 1, score 0 under the next id: its
    /// history starts with a mint by `minter`, its snapshot list with version
    /// 1 ("mint"), the owner's log gains the id, and its image URI is cached.
    pub fn mint_token(
        &mut self,
        now: u64,
        minter: AccountId,
        owner: AccountId,
        name: Vec<u8>,
        description: Vec<u8>,
        image_id: u32,
        external_uri: Vec<u8>,
        string_traits: Vec<(Vec<u8>, Vec<u8>)>,
        numeric_traits: Vec<(Vec<u8>, u32)>,
    ) -> (r: Result<u32, MetadataError>)
        requires
            old(self).wf(),
            sorted_keys(keys_of(string_traits@)),
            sorted_keys(keys_of(numeric_traits@)),
            or_default(old(self).next_token_id, 1u32) < u32::MAX,
        ensures
            final(self).wf(),
            r == old(self).spec_mint(string_traits@.len(), numeric_traits@.len()),
            r.is_err() ==> *final(self) == *old(self),
            r matches Ok(id) ==> {
                let c = old(self).config->Some_0;
                let m = MetaView {
                    token_id: id,
                    owner,
                    name: name@,
                    description: description@,
                    image_id,
                    external_uri: external_uri@,
                    string_traits: sview(string_traits@),
                    numeric_traits: bview(numeric_traits@),
                    level: 1,
                    rarity: 1,
                    performance_score: 0,
                    schema_version: c.schema_version,
                    created_at: now,
                    updated_at: now,
                    frozen: false,
                };
                &&& final(self).token_set(*old(self), id, m)
                &&& final(self).next_token_id == Some((id + 1) as u32)
                &&& final(self).history_of(id) == seq![
                    OwnershipRecord {
                        owner,
                        event: OwnershipEvent::Mint,
                        at: now,
                        previous_owner: minter,
                    },
                ]
                &&& final(self).ownership@ == old(self).ownership@.insert(
                    id,
                    final(self).ownership@[id],
                )
                &&& final(self).versions_of(id) == seq![
                    VersionView {
                        version: 1,
                        snapshot: m,
                        changed_by: minter,
                        reason: lit_mint(),
                        changed_at: now,
                    },
                ]
                &&& final(self).versions@ == old(self).versions@.insert(id, final(self).versions@[id])
                &&& final(self).owned_by(owner) == old(self).owned_by(owner).push(id)
                &&& final(self).owner_index@ == old(self).owner_index@.insert(
                    owner,
                    final(self).owner_index@[owner],
                )
                &&& final(self).image_cache@.contains_key(id)
                &&& final(self).image_cache@ == old(self).image_cache@.insert(
                    id,
                    final(self).image_cache@[id],
                )
                &&& final(self).image_cache@[id]@ == spec_image_uri(c.image_base_uri@, id, 1, 1)
                &&& final(self).config == old(self).config
                &&& final(self).paused == old(self).paused
                &&& final(self).admins == old(self).admins
                &&& final(self).metrics == old(self).metrics
                &&& final(self).trait_rules == old(self).trait_rules
                &&& final(self).trigger_rules == old(self).trigger_rules
                &&& final(self).migrators == old(self).migrators
                &&& final(self).oracles == old(self).oracles
                &&& final(self).next_trait_rule_id == old(self).next_trait_rule_id
                &&& final(self).next_trigger_rule_id == old(self).next_trigger_rule_id
            },
    {
        self.assert_not_paused()?;
        if string_traits.len() > MAX_TRAITS_PER_TOKEN || numeric_traits.len() > MAX_TRAITS_PER_TOKEN {
            return Err(MetadataError::TooManyTraits);
        }
        let token_id: u32 = match self.next_token_id {
            Some(v) => v,
            None => 1,
        };
        let (schema_version, uri) = match &self.config {
            Some(c) => match build_image_uri(&c.image_base_uri, token_id, 1, 1) {
                Some(u) => (c.schema_version, u),
                None => return Err(MetadataError::InvalidImageBaseUri),
            },
            None => return Err(MetadataError::NotInitialized),
        };
        let metadata = TokenMetadata {
            token_id,
            owner,
            name,
            description,
            image_id,
            external_uri,
            string_traits,
            numeric_traits,
            level: 1,
            rarity: 1,
            performance_score: 0,
            schema_version,
            created_at: now,
            updated_at: now,
            frozen: false,
        };
        let snapshot = metadata.duplicate();
        self.tokens.insert(token_id, metadata);
        self.next_token_id = Some(token_id + 1);
        let mut history: Vec<OwnershipRecord> = Vec::new();
        history.push(
            OwnershipRecord { owner, event: OwnershipEvent::Mint, at: now, previous_owner: minter },
        );
        self.ownership.insert(token_id, history);
        let mut versions: Vec<MetadataVersion> = Vec::new();
        versions.push(
            MetadataVersion {
                version: 1,
                snapshot,
                changed_by: minter,
                reason: bytes_mint(),
                changed_at: now,
            },
        );
        self.versions.insert(token_id, versions);
        self.push_owner_index(owner, token_id);
        self.image_cache.insert(token_id, uri);
        proof {
            assert(self.history_of(token_id) =~= seq![
                OwnershipRecord {
                    owner,
                    event: OwnershipEvent::Mint,
                    at: now,
                    previous_owner: minter,
                },
            ]);
            assert(self.versions_of(token_id) =~= seq![self.versions@[token_id]@[0]@]);
        }
        Ok(token_id)
    }

    /// Token `id` was rewritten to `m` (image cache dropped) and snapshotted.
    pub open spec fn touched(
        self,
        old: Self,
        id: u32,
        m: MetaView,
        by: AccountId,
        reason: Seq<u8>,
        now: u64,
    ) -> bool {
        &&& self.token_set(old, id, m)
        &&& self.snapshot_added(old, id, m, by, reason, now)
        &&& self.image_cache@ == old.image_cache@.remove(id)
        &&& self.rest_same(old)
    }

    /// The checks of an owner-or-admin edit, in the contract's order.
    pub open spec fn spec_edit_check(self, caller: AccountId, id: u32, check_paused: bool, check_frozen: bool) -> Result<
        (),
        MetadataError,
    > {
        if check_paused && self.spec_paused() {
            Err(MetadataError::ContractPaused)
        } else if !self.tokens@.contains_key(id) {
            Err(MetadataError::TokenNotFound)
        } else if self.tokens@[id].owner != caller && !self.spec_is_admin(caller) {
            Err(MetadataError::NotAuthorized)
        } else if check_frozen && self.tokens@[id].frozen {
            Err(MetadataError::MetadataFrozen)
        } else {
            Ok(())
        }
    }

    fn check_edit(&self, caller: AccountId, id: u32, check_paused: bool, check_frozen: bool) -> (r:
        Result<(), MetadataError>)
        ensures
            r == self.spec_edit_check(caller, id, check_paused, check_frozen),
    {
        if check_paused {
            self.assert_not_paused()?;
        }
        let (owner, frozen) = match self.tokens.get(&id) {
            Some(m) => (m.owner, m.frozen),
            None => return Err(MetadataError::TokenNotFound),
        };
        if owner != caller && !self.is_admin(caller) {
            return Err(MetadataError::NotAuthorized);
        }
        if check_frozen && frozen {
            return Err(MetadataError::MetadataFrozen);
        }
        Ok(())
    }

    /// Takes token `id` out of storage (it must be stored).
    fn take_token(&mut self, id: u32) -> (m: TokenMetadata)
        requires
            old(self).tokens@.contains_key(id),
        ensures
            m == old(self).tokens@[id],
            final(self).tokens@ == old(self).tokens@.remove(id),
            final(self).image_cache == old(self).image_cache,
            final(self).versions == old(self).versions,
            final(self).rest_same(*old(self)),
    {
        match self.tokens.remove(&id) {
            Some(m) => m,
            None => {
                proof {
                    assert(false);
                }
                TokenMetadata {
                    token_id: 0,
                    owner: 0,
                    name: Vec::new(),
                    description: Vec::new(),
                    image_id: 0,
                    external_uri: Vec::new(),
                    string_traits: Vec::new(),
                    numeric_traits: Vec::new(),
                    level: 0,
                    rarity: 0,
                    performance_score: 0,
                    schema_version: 0,
                    created_at: 0,
                    updated_at: 0,
                    frozen: false,
                }
            },
        }
    }

    /// Snapshots `m` and stores it with its image cache dropped.
    fn commit(&mut self, m: TokenMetadata, by: AccountId, reason: Vec<u8>, now: u64)
        requires
            old(self).versions_of(m.token_id).len() < u32::MAX,
        ensures
            final(self).snapshot_added(*old(self), m.token_id, m@, by, reason@, now),
            final(self).tokens@ == old(self).tokens@.insert(m.token_id, m),
            final(self).image_cache@ == old(self).image_cache@.remove(m.token_id),
            final(self).rest_same(*old(self)),
    {
        self.snapshot_version(&m, by, reason, now);
        self.write_metadata(m);
    }

    /// Transfers a token from its owner: ownership passes to `to`, the
    /// history gains a transfer, a snapshot ("transfer") is taken and `to`'s
    /// log gains the id. The cached image URI stays.
    pub fn transfer_token(&mut self, now: u64, from: AccountId, to: AccountId, token_id: u32) -> (r:
        Result<(), MetadataError>)
        requires
            old(self).wf(),
            old(self).versions_of(token_id).len() < u32::MAX,
        ensures
            final(self).wf(),
            r == (if old(self).spec_paused() {
                Err(MetadataError::ContractPaused)
            } else if !old(self).tokens@.contains_key(token_id) {
                Err(MetadataError::TokenNotFound)
            } else if old(self).tokens@[token_id].owner != from {
                Err(MetadataError::NotOwner)
            } else {
                Ok(())
            }),
            r.is_err() ==> *final(self) == *old(self),
            r.is_ok() ==> {
                let m = MetaView {
                    owner: to,
                    updated_at: now,
                    ..old(self).tokens@[token_id]@
                };
                &&& final(self).token_set(*old(self), token_id, m)
                &&& final(self).history_of(token_id) == old(self).history_of(token_id).push(
                    OwnershipRecord {
                        owner: to,
                        event: OwnershipEvent::Transfer,
                        at: now,
                        previous_owner: from,
                    },
                )
                &&& final(self).ownership@ == old(self).ownership@.insert(
                    token_id,
                    final(self).ownership@[token_id],
                )
                &&& final(self).snapshot_added(*old(self), token_id, m, from, lit_transfer(), now)
                &&& final(self).owned_by(to) == old(self).owned_by(to).push(token_id)
                &&& final(self).owner_index@ == old(self).owner_index@.insert(
                    to,
                    final(self).owner_index@[to],
                )
                &&& final(self).image_cache == old(self).image_cache
                &&& final(self).config == old(self).config
                &&& final(self).paused == old(self).paused
                &&& final(self).admins == old(self).admins
                &&& final(self).metrics == old(self).metrics
                &&& final(self).trait_rules == old(self).trait_rules
                &&& final(self).trigger_rules == old(self).trigger_rules
                &&& final(self).next_token_id == old(self).next_token_id
                &&& final(self).migrators == old(self).migrators
                &&& final(self).oracles == old(self).oracles
                &&& final(self).next_trait_rule_id == old(self).next_trait_rule_id
                &&& final(self).next_trigger_rule_id == old(self).next_trigger_rule_id
            },
    {
        self.assert_not_paused()?;
        let owner = match self.tokens.get(&token_id) {
            Some(m) => m.owner,
            None => return Err(MetadataError::TokenNotFound),
        };
        if owner != from {
            return Err(MetadataError::NotOwner);
        }
        let mut metadata = self.take_token(token_id);
        metadata.owner = to;
        metadata.updated_at = now;
        self.snapshot_version(&metadata, from, bytes_transfer(), now);
        self.tokens.insert(token_id, metadata);
        self.push_history(
            token_id,
            OwnershipRecord { owner: to, event: OwnershipEvent::Transfer, at: now, previous_owner: from },
        );
        self.push_owner_index(to, token_id);
        assert(self.tokens@ =~= old(self).tokens@.insert(token_id, self.tokens@[token_id]));
        Ok(())
    }

    /// Burns a token of `caller` (not when frozen): the history gains a burn
    /// and a snapshot ("burn") is taken; the record stays for audit. The
    /// cached image URI stays.
    pub fn burn_token(&mut self, now: u64, caller: AccountId, token_id: u32) -> (r: Result<
        (),
        MetadataError,
    >)
        requires
            old(self).wf(),
            old(self).versions_of(token_id).len() < u32::MAX,
        ensures
            final(self).wf(),
            r == (if old(self).spec_paused() {
                Err(MetadataError::ContractPaused)
            } else if !old(self).tokens@.contains_key(token_id) {
                Err(MetadataError::TokenNotFound)
            } else if old(self).tokens@[token_id].owner != caller {
                Err(MetadataError::NotOwner)
            } else if old(self).tokens@[token_id].frozen {
                Err(MetadataError::MetadataFrozen)
            } else {
                Ok(())
            }),
            r.is_err() ==> *final(self) == *old(self),
            r.is_ok() ==> {
                let m = MetaView { updated_at: now, ..old(self).tokens@[token_id]@ };
                &&& final(self).token_set(*old(self), token_id, m)
                &&& final(self).history_of(token_id) == old(self).history_of(token_id).push(
                    OwnershipRecord {
                        owner: caller,
                        event: OwnershipEvent::Burn,
                        at: now,
                        previous_owner: caller,
                    },
                )
                &&& final(self).ownership@ == old(self).ownership@.insert(
                    token_id,
                    final(self).ownership@[token_id],
                )
                &&& final(self).snapshot_added(*old(self), token_id, m, caller, lit_burn(), now)
                &&& final(self).owner_index == old(self).owner_index
                &&& final(self).image_cache == old(self).image_cache
                &&& final(self).config == old(self).config
                &&& final(self).paused == old(self).paused
                &&& final(self).admins == old(self).admins
                &&& final(self).metrics == old(self).metrics
                &&& final(self).trait_rules == old(self).trait_rules
                &&& final(self).trigger_rules == old(self).trigger_rules
                &&& final(self).next_token_id == old(self).next_token_id
                &&& final(self).migrators == old(self).migrators
                &&& final(self).oracles == old(self).oracles
                &&& final(self).next_trait_rule_id == old(self).next_trait_rule_id
                &&& final(self).next_trigger_rule_id == old(self).next_trigger_rule_id
            },
    {
        self.assert_not_paused()?;
        let (owner, frozen) = match self.tokens.get(&token_id) {
            Some(m) => (m.owner, m.frozen),
            None => return Err(MetadataError::TokenNotFound),
        };
        if owner != caller {
            return Err(MetadataError::NotOwner);
        }
        if frozen {
            return Err(MetadataError::MetadataFrozen);
        }
        self.push_history(
            token_id,
            OwnershipRecord { owner: caller, event: OwnershipEvent::Burn, at: now, previous_owner: caller },
        );
        let mut metadata = self.take_token(token_id);
        metadata.updated_at = now;
        self.snapshot_version(&metadata, caller, bytes_burn(), now);
        self.tokens.insert(token_id, metadata);
        assert(self.tokens@ =~= old(self).tokens@.insert(token_id, self.tokens@[token_id]));
        Ok(())
    }

    /// Updates name, description, image id and external URI (owner or
    /// admin, not frozen); an empty string or a zero id leaves a field as it
    /// is. Snapshots ("update") and returns the number of snapshots.
    pub fn update_metadata(
        &mut self,
        now: u64,
        caller: AccountId,
        token_id: u32,
        name: Vec<u8>,
        description: Vec<u8>,
        image_id: u32,
        external_uri: Vec<u8>,
    ) -> (r: Result<u32, MetadataError>)
        requires
            old(self).wf(),
            old(self).versions_of(token_id).len() < u32::MAX,
        ensures
            final(self).wf(),
            r == (match old(self).spec_edit_check(caller, token_id, true, true) {
                Err(e) => Err(e),
                Ok(_) => Ok((old(self).versions_of(token_id).len() + 1) as u32),
            }),
            r.is_err() ==> *final(self) == *old(self),
            r.is_ok() ==> {
                let o = old(self).tokens@[token_id]@;
                let m = MetaView {
                    name: if name@.len() > 0 {
                        name@
                    } else {
                        o.name
                    },
                    description: if description@.len() > 0 {
                        description@
                    } else {
                        o.description
                    },
                    image_id: if image_id > 0 {
                        image_id
                    } else {
                        o.image_id
                    },
                    external_uri: if external_uri@.len() > 0 {
                        external_uri@
                    } else {
                        o.external_uri
                    },
                    updated_at: now,
                    ..o
                };
                final(self).touched(*old(self), token_id, m, caller, lit_update(), now)
            },
    {
        self.check_edit(caller, token_id, true, true)?;
        let mut metadata = self.take_token(token_id);
        if name.len() > 0 {
            metadata.name = name;
        }
        if description.len() > 0 {
            metadata.description = description;
        }
        if image_id > 0 {
            metadata.image_id = image_id;
        }
        if external_uri.len() > 0 {
            metadata.external_uri = external_uri;
        }
        metadata.updated_at = now;
        self.commit(metadata, caller, bytes_update(), now);
        assert(self.tokens@ =~= old(self).tokens@.insert(token_id, self.tokens@[token_id]));
        Ok(self.current_version(token_id))
    }

    /// Sets a string trait (owner or admin, not frozen). A new name is
    /// refused once the token has 32 string traits. Snapshots
    /// ("add_string_trait").
    pub fn add_string_trait(
        &mut self,
        now: u64,
        caller: AccountId,
        token_id: u32,
        trait_name: Vec<u8>,
        trait_value: Vec<u8>,
    ) -> (r: Result<(), MetadataError>)
        requires
            old(self).wf(),
            old(self).versions_of(token_id).len() < u32::MAX,
        ensures
            final(self).wf(),
            r == (match old(self).spec_edit_check(caller, token_id, true, true) {
                Err(e) => Err(e),
                Ok(_) => {
                    let st = old(self).tokens@[token_id]@.string_traits;
                    if get_at(st, trait_name@) is None && st.len() >= 32 {
                        Err(MetadataError::TooManyTraits)
                    } else {
                        Ok(())
                    }
                },
            }),
            r.is_err() ==> *final(self) == *old(self),
            r.is_ok() ==> {
                let o = old(self).tokens@[token_id]@;
                let m = MetaView {
                    string_traits: set_at(o.string_traits, trait_name@, trait_value@),
                    updated_at: now,
                    ..o
                };
                final(self).touched(*old(self), token_id, m, caller, lit_add_string_trait(), now)
            },
    {
        self.check_edit(caller, token_id, true, true)?;
        let (present, count) = match self.tokens.get(&token_id) {
            Some(m) => (has_key(&m.string_traits, &trait_name), m.string_traits.len()),
            None => {
                proof {
                    assert(false);
                }
                return Err(MetadataError::TokenNotFound);
            },
        };
        proof {
            lemma_keys_sview(old(self).tokens@[token_id].string_traits@);
        }
        if !present && count >= MAX_TRAITS_PER_TOKEN {
            return Err(MetadataError::TooManyTraits);
        }
        let mut metadata = self.take_token(token_id);
        set_str(&mut metadata.string_traits, trait_name, trait_value);
        metadata.updated_at = now;
        self.commit(metadata, caller, bytes_add_string_trait(), now);
        assert(self.tokens@ =~= old(self).tokens@.insert(token_id, self.tokens@[token_id]));
        Ok(())
    }

    /// Removes a string trait if present (owner or admin, not frozen).
    /// Snapshots ("remove_string_trait").
    pub fn remove_string_trait(
        &mut self,
        now: u64,
        caller: AccountId,
        token_id: u32,
        trait_name: Vec<u8>,
    ) -> (r: Result<(), MetadataError>)
        requires
            old(self).wf(),
            old(self).versions_of(token_id).len() < u32::MAX,
        ensures
            final(self).wf(),
            r == old(self).spec_edit_check(caller, token_id, true, true),
            r.is_err() ==> *final(self) == *old(self),
            r.is_ok() ==> {
                let o = old(self).tokens@[token_id]@;
                let m = MetaView {
                    string_traits: remove_at(o.string_traits, trait_name@),
                    updated_at: now,
                    ..o
                };
                final(self).touched(*old(self), token_id, m, caller, lit_remove_string_trait(), now)
            },
    {
        self.check_edit(caller, token_id, true, true)?;
        let mut metadata = self.take_token(token_id);
        remove_str(&mut metadata.string_traits, &trait_name);
        metadata.updated_at = now;
        self.commit(metadata, caller, bytes_remove_string_trait(), now);
        assert(self.tokens@ =~= old(self).tokens@.insert(token_id, self.tokens@[token_id]));
        Ok(())
    }

    /// Sets a numeric trait (owner or admin, not frozen). A new name is
    /// refused once the token has 32 numeric traits. Snapshots
    /// ("add_numeric_trait").
    pub fn add_numeric_trait(
        &mut self,
        now: u64,
        caller: AccountId,
        token_id: u32,
        trait_name: Vec<u8>,
        value: u32,
    ) -> (r: Result<(), MetadataError>)
        requires
            old(self).wf(),
            old(self).versions_of(token_id).len() < u32::MAX,
        ensures
            final(self).wf(),
            r == (match old(self).spec_edit_check(caller, token_id, true, true) {
                Err(e) => Err(e),
                Ok(_) => {
                    let nt = old(self).tokens@[token_id]@.numeric_traits;
                    if get_at(nt, trait_name@) is None && nt.len() >= 32 {
                        Err(MetadataError::TooManyTraits)
                    } else {
                        Ok(())
                    }
                },
            }),
            r.is_err() ==> *final(self) == *old(self),
            r.is_ok() ==> {
                let o = old(self).tokens@[token_id]@;
                let m = MetaView {
                    numeric_traits: set_at(o.numeric_traits, trait_name@, value),
                    updated_at: now,
                    ..o
                };
                final(self).touched(*old(self), token_id, m, caller, lit_add_numeric_trait(), now)
            },
    {
        self.check_edit(caller, token_id, true, true)?;
        let (present, count) = match self.tokens.get(&token_id) {
            Some(m) => (has_key(&m.numeric_traits, &trait_name), m.numeric_traits.len()),
            None => {
                proof {
                    assert(false);
                }
                return Err(MetadataError::TokenNotFound);
            },
        };
        proof {
            lemma_keys_bview(old(self).tokens@[token_id].numeric_traits@);
        }
        if !present && count >= MAX_TRAITS_PER_TOKEN {
            return Err(MetadataError::TooManyTraits);
        }
        let mut metadata = self.take_token(token_id);
        set_val(&mut metadata.numeric_traits, trait_name, value);
        metadata.updated_at = now;
        self.commit(metadata, caller, bytes_add_numeric_trait(), now);
        assert(self.tokens@ =~= old(self).tokens@.insert(token_id, self.tokens@[token_id]));
        Ok(())
    }

    /// Adds `delta` to a numeric trait (absent counts as 0), saturating at
    /// `u32::MAX` (owner or admin, not frozen). Snapshots
    /// ("increment_numeric_trait") and returns the new value.
    pub fn increment_numeric_trait(
        &mut self,
        now: u64,
        caller: AccountId,
        token_id: u32,
        trait_name: Vec<u8>,
        delta: u32,
    ) -> (r: Result<u32, MetadataError>)
        requires
            old(self).wf(),
            old(self).versions_of(token_id).len() < u32::MAX,
        ensures
            final(self).wf(),
            r == (match old(self).spec_edit_check(caller, token_id, true, true) {
                Err(e) => Err(e),
                Ok(_) => Ok(
                    sat_add_u32(
                        or_default(
                            get_at(old(self).tokens@[token_id]@.numeric_traits, trait_name@),
                            0u32,
                        ),
                        delta,
                    ),
                ),
            }),
            r.is_err() ==> *final(self) == *old(self),
            r matches Ok(v) ==> {
                let o = old(self).tokens@[token_id]@;
                let m = MetaView {
                    numeric_traits: set_at(o.numeric_traits, trait_name@, v),
                    updated_at: now,
                    ..o
                };
                final(self).touched(
                    *old(self),
                    token_id,
                    m,
                    caller,
                    lit_increment_numeric_trait(),
                    now,
                )
            },
    {
        self.check_edit(caller, token_id, true, true)?;
        let mut metadata = self.take_token(token_id);
        let current = match get_val(&metadata.numeric_traits, &trait_name) {
            Some(v) => v,
            None => 0,
        };
        let new_val = current.saturating_add(delta);
        set_val(&mut metadata.numeric_traits, trait_name, new_val);
        metadata.updated_at = now;
        self.commit(metadata, caller, bytes_increment_numeric_trait(), now);
        assert(self.tokens@ =~= old(self).tokens@.insert(token_id, self.tokens@[token_id]));
        Ok(new_val)
    }

    /// Freezes a token's metadata (owner or admin; allowed while paused).
    /// Snapshots ("freeze").
    pub fn freeze_metadata(&mut self, now: u64, caller: AccountId, token_id: u32) -> (r: Result<
        (),
        MetadataError,
    >)
        requires
            old(self).wf(),
            old(self).versions_of(token_id).len() < u32::MAX,
        ensures
            final(self).wf(),
            r == old(self).spec_edit_check(caller, token_id, false, false),
            r.is_err() ==> *final(self) == *old(self),
            r.is_ok() ==> {
                let m = MetaView { frozen: true, updated_at: now, ..old(self).tokens@[token_id]@ };
                final(self).touched(*old(self), token_id, m, caller, lit_freeze(), now)
            },
    {
        self.check_edit(caller, token_id, false, false)?;
        let mut metadata = self.take_token(token_id);
        metadata.frozen = true;
        metadata.updated_at = now;
        self.commit(metadata, caller, bytes_freeze(), now);
        assert(self.tokens@ =~= old(self).tokens@.insert(token_id, self.tokens@[token_id]));
        Ok(())
    }

    /// Unfreezes a token's metadata (owner or admin; allowed while paused).
    /// Snapshots ("unfreeze").
    pub fn unfreeze_metadata(&mut self, now: u64, caller: AccountId, token_id: u32) -> (r: Result<
        (),
        MetadataError,
    >)
        requires
            old(self).wf(),
            old(self).versions_of(token_id).len() < u32::MAX,
        ensures
            final(self).wf(),
            r == old(self).spec_edit_check(caller, token_id, false, false),
            r.is_err() ==> *final(self) == *old(self),
            r.is_ok() ==> {
                let m = MetaView { frozen: false, updated_at: now, ..old(self).tokens@[token_id]@ };
                final(self).touched(*old(self), token_id, m, caller, lit_unfreeze(), now)
            },
    {
        self.check_edit(caller, token_id, false, false)?;
        let mut metadata = self.take_token(token_id);
        metadata.frozen = false;
        metadata.updated_at = now;
        self.commit(metadata, caller, bytes_unfreeze(), now);
        assert(self.tokens@ =~= old(self).tokens@.insert(token_id, self.tokens@[token_id]));
        Ok(())
    }

    /// The checks of `migrate_metadata`, in the contract's order.
    pub open spec fn spec_migrate_check(
        self,
        migrator: AccountId,
        token_id: u32,
        new_version: u32,
        string_count: nat,
        numeric_count: nat,
    ) -> Result<(), MetadataError> {
        if map_get(self.migrators@, migrator) != Some(true) {
            Err(MetadataError::NotMigrator)
        } else if self.config.is_none() {
            Err(MetadataError::NotInitialized)
        } else if new_version == 0 || new_version > 10 {
            Err(MetadataError::InvalidSchemaVersion)
        } else if new_version < self.config->Some_0.schema_version {
            Err(MetadataError::CannotDowngradeVersion)
        } else if string_count > 32 || numeric_count > 32 {
            Err(MetadataError::TooManyTraits)
        } else if !self.tokens@.contains_key(token_id) {
            Err(MetadataError::TokenNotFound)
        } else {
            Ok(())
        }
    }

    /// Rebuilds a token's metadata under schema `new_version` (migrator
    /// only): snapshots the old state ("migrate"), replaces name, description,
    /// external URI and traits, and image id, level and rarity when the new
    /// value is not zero, then snapshots the new state with reason
    /// "migrated:{old}->{new}". Returns the number of snapshots.
    pub fn migrate_metadata(
        &mut self,
        now: u64,
        migrator: AccountId,
        token_id: u32,
        new_version: u32,
        new_name: Vec<u8>,
        new_description: Vec<u8>,
        new_image_id: u32,
        new_external_uri: Vec<u8>,
        new_string_traits: Vec<(Vec<u8>, Vec<u8>)>,
        new_numeric_traits: Vec<(Vec<u8>, u32)>,
        level_override: u32,
        rarity_override: u32,
    ) -> (r: Result<u32, MetadataError>)
        requires
            old(self).wf(),
            old(self).versions_of(token_id).len() + 2 < u32::MAX,
            sorted_keys(keys_of(new_string_traits@)),
            sorted_keys(keys_of(new_numeric_traits@)),
        ensures
            final(self).wf(),
            r == (match old(self).spec_migrate_check(
                migrator,
                token_id,
                new_version,
                new_string_traits@.len(),
                new_numeric_traits@.len(),
            ) {
                Err(e) => Err(e),
                Ok(_) => Ok((old(self).versions_of(token_id).len() + 2) as u32),
            }),
            r.is_err() ==> *final(self) == *old(self),
            r.is_ok() ==> {
                let o = old(self).tokens@[token_id]@;
                let m = MetaView {
                    name: new_name@,
                    description: new_description@,
                    image_id: if new_image_id > 0 {
                        new_image_id
                    } else {
                        o.image_id
                    },
                    external_uri: new_external_uri@,
                    string_traits: sview(new_string_traits@),
                    numeric_traits: bview(new_numeric_traits@),
                    level: if level_override > 0 {
                        level_override
                    } else {
                        o.level
                    },
                    rarity: if rarity_override > 0 {
                        rarity_override
                    } else {
                        o.rarity
                    },
                    schema_version: new_version,
                    updated_at: now,
                    ..o
                };
                let n = old(self).versions_of(token_id).len();
                &&& final(self).token_set(*old(self), token_id, m)
                &&& final(self).versions@ == old(self).versions@.insert(
                    token_id,
                    final(self).versions@[token_id],
                )
                &&& final(self).versions_of(token_id) == old(self).versions_of(token_id).push(
                    VersionView {
                        version: (n + 1) as u32,
                        snapshot: o,
                        changed_by: migrator,
                        reason: lit_migrate(),
                        changed_at: now,
                    },
                ).push(
                    VersionView {
                        version: (n + 2) as u32,
                        snapshot: m,
                        changed_by: migrator,
                        reason: spec_migration_reason(o.schema_version, new_version),
                        changed_at: now,
                    },
                )
                &&& final(self).image_cache@ == old(self).image_cache@.remove(token_id)
                &&& final(self).rest_same(*old(self))
            },
    {
        self.assert_migrator(migrator)?;
        let config_version = match &self.config {
            Some(c) => c.schema_version,
            None => return Err(MetadataError::NotInitialized),
        };
        if new_version == 0 || new_version > MAX_SCHEMA_VERSION {
            return Err(MetadataError::InvalidSchemaVersion);
        }
        if new_version < config_version {
            return Err(MetadataError::CannotDowngradeVersion);
        }
        if new_string_traits.len() > MAX_TRAITS_PER_TOKEN || new_numeric_traits.len()
            > MAX_TRAITS_PER_TOKEN {
            return Err(MetadataError::TooManyTraits);
        }
        if !self.tokens.contains_key(&token_id) {
            return Err(MetadataError::TokenNotFound);
        }
        let mut metadata = self.take_token(token_id);
        let ghost o = metadata@;
        let old_version = metadata.schema_version;
        self.snapshot_version(&metadata, migrator, bytes_migrate(), now);
        let ghost mid = *self;
        metadata.name = new_name;
        metadata.description = new_description;
        if new_image_id > 0 {
            metadata.image_id = new_image_id;
        }
        metadata.external_uri = new_external_uri;
        metadata.string_traits = new_string_traits;
        metadata.numeric_traits = new_numeric_traits;
        if level_override > 0 {
            metadata.level = level_override;
        }
        if rarity_override > 0 {
            metadata.rarity = rarity_override;
        }
        metadata.schema_version = new_version;
        metadata.updated_at = now;
        let reason = make_migration_reason(old_version, new_version);
        self.snapshot_version(&metadata, migrator, reason, now);
        self.write_metadata(metadata);
        assert(self.tokens@ =~= old(self).tokens@.insert(token_id, self.tokens@[token_id]));
        assert(self.versions@ =~= old(self).versions@.insert(token_id, self.versions@[token_id]));
        assert(self.image_cache@ =~= old(self).image_cache@.remove(token_id));
        Ok(self.current_version(token_id))
    }

    /// The best trait rule for a token: among the rules whose threshold the
    /// score reaches, the first one with the highest threshold.
    pub open spec fn spec_best_rule(rules: Seq<TraitEvolutionRule>, score: u64) -> Option<int>
        decreases rules.len(),
    {
        if rules.len() == 0 {
            None
        } else {
            let prev = Self::spec_best_rule(rules.drop_last(), score);
            let last = rules.last();
            if score >= last.threshold {
                match prev {
                    None => Some(rules.len() - 1),
                    Some(i) => if last.threshold > rules[i].threshold {
                        Some(rules.len() - 1)
                    } else {
                        Some(i)
                    },
                }
            } else {
                prev
            }
        }
    }

    proof fn lemma_best_rule_in_range(rules: Seq<TraitEvolutionRule>, score: u64)
        ensures
            Self::spec_best_rule(rules, score) matches Some(i) ==> 0 <= i < rules.len(),
        decreases rules.len(),
    {
        if rules.len() > 0 {
            Self::lemma_best_rule_in_range(rules.drop_last(), score);
        }
    }

    /// Finds the best trait rule (see `spec_best_rule`).
    fn best_rule(&self, score: u64) -> (r: Option<usize>)
        ensures
            match r {
                Some(i) => Self::spec_best_rule(self.trait_rules@, score) == Some(i as int)
                    && i < self.trait_rules.len(),
                None => Self::spec_best_rule(self.trait_rules@, score) is None,
            },
    {
        let rules = &self.trait_rules;
        let mut best: Option<usize> = None;
        let mut i: usize = 0;
        while i < rules.len()
            invariant
                i <= rules.len(),
                rules == &self.trait_rules,
                match best {
                    Some(b) => Self::spec_best_rule(rules@.subrange(0, i as int), score)
                        == Some(b as int) && b < i,
                    None => Self::spec_best_rule(rules@.subrange(0, i as int), score) is None,
                },
            decreases rules.len() - i,
        {
            proof {
                assert(rules@.subrange(0, i + 1).drop_last() =~= rules@.subrange(0, i as int));
                assert(rules@.subrange(0, i + 1).last() == rules@[i as int]);
                if let Some(b) = best {
                    assert(rules@.subrange(0, i + 1)[b as int] == rules@[b as int]);
                }
            }
            let rule = &rules[i];
            if score >= rule.threshold {
                match best {
                    None => {
                        best = Some(i);
                    },
                    Some(b) => {
                        if rule.threshold > rules[b].threshold {
                            best = Some(i);
                        }
                    },
                }
            }
            i = i + 1;
        }
        assert(rules@.subrange(0, rules.len() as int) =~= rules@);
        best
    }

    /// What applying the trait rules to token `id` does: `r` reports how
    /// many rules applied (0 or 1).
    pub open spec fn spec_evolution(
        self,
        new: Self,
        r: Result<u32, MetadataError>,
        now: u64,
        contract: AccountId,
        id: u32,
    ) -> bool {
        if self.trait_rules@.len() == 0 {
            r == Ok::<u32, MetadataError>(0) && new == self
        } else if !self.tokens@.contains_key(id) {
            r == Err::<u32, MetadataError>(MetadataError::TokenNotFound) && new == self
        } else {
            let o = self.tokens@[id]@;
            if o.frozen {
                r == Ok::<u32, MetadataError>(0) && new == self
            } else {
                match Self::spec_best_rule(self.trait_rules@, o.performance_score) {
                    None => r == Ok::<u32, MetadataError>(0) && new == self,
                    Some(i) => {
                        let rule = self.trait_rules@[i];
                        let m = MetaView {
                            string_traits: set_at(
                                o.string_traits,
                                rule.target_trait_name@,
                                rule.target_trait_value@,
                            ),
                            rarity: if rule.new_rarity > o.rarity {
                                rule.new_rarity
                            } else {
                                o.rarity
                            },
                            level: if rule.target_level > o.level {
                                rule.target_level
                            } else {
                                o.level
                            },
                            updated_at: now,
                            ..o
                        };
                        r == Ok::<u32, MetadataError>(1) && new.touched(
                            self,
                            id,
                            m,
                            contract,
                            lit_evolve_traits(),
                            now,
                        )
                    },
                }
            }
        }
    }

    /// Applies the best trait rule to token `id` (see `spec_best_rule`):
    /// writes its trait, raises rarity and level to the rule's when higher,
    /// and snapshots ("evolve_traits", by `contract`, this contract's own
    /// address). Frozen tokens are left alone. Returns the number applied.
    pub fn apply_trait_evolution(&mut self, now: u64, contract: AccountId, token_id: u32) -> (r:
        Result<u32, MetadataError>)
        requires
            old(self).wf(),
            old(self).versions_of(token_id).len() < u32::MAX,
        ensures
            final(self).wf(),
            old(self).spec_evolution(*final(self), r, now, contract, token_id),
    {
        if self.trait_rules.len() == 0 {
            return Ok(0);
        }
        let (frozen, score) = match self.tokens.get(&token_id) {
            Some(m) => (m.frozen, m.performance_score),
            None => return Err(MetadataError::TokenNotFound),
        };
        if frozen {
            return Ok(0);
        }
        let best = match self.best_rule(score) {
            Some(b) => b,
            None => return Ok(0),
        };
        let name = copy_bytes(&self.trait_rules[best].target_trait_name);
        let value = copy_bytes(&self.trait_rules[best].target_trait_value);
        let new_rarity = self.trait_rules[best].new_rarity;
        let target_level = self.trait_rules[best].target_level;
        let mut metadata = self.take_token(token_id);
        set_str(&mut metadata.string_traits, name, value);
        if new_rarity > metadata.rarity {
            metadata.rarity = new_rarity;
        }
        if target_level > metadata.level {
            metadata.level = target_level;
        }
        metadata.updated_at = now;
        self.commit(metadata, contract, bytes_evolve_traits(), now);
        assert(self.tokens@ =~= old(self).tokens@.insert(token_id, self.tokens@[token_id]));
        Ok(1)
    }

    /// Number of mint and transfer events in a history.
    pub open spec fn spec_owner_events(h: Seq<OwnershipRecord>) -> nat
        decreases h.len(),
    {
        if h.len() == 0 {
            0
        } else {
            Self::spec_owner_events(h.drop_last()) + if h.last().event == OwnershipEvent::Burn {
                0nat
            } else {
                1nat
            }
        }
    }

    proof fn lemma_owner_events_le(h: Seq<OwnershipRecord>)
        ensures
            Self::spec_owner_events(h) <= h.len(),
        decreases h.len(),
    {
        if h.len() > 0 {
            Self::lemma_owner_events_le(h.drop_last());
        }
    }

    /// Counts the mint and transfer events of a history (burns excluded).
    pub fn count_distinct_owners(history: &Vec<OwnershipRecord>) -> (r: u32)
        requires
            history.len() <= u32::MAX,
        ensures
            r == Self::spec_owner_events(history@),
    {
        let mut count: u32 = 0;
        let mut i: usize = 0;
        while i < history.len()
            invariant
                i <= history.len(),
                history.len() <= u32::MAX,
                count == Self::spec_owner_events(history@.subrange(0, i as int)),
            decreases history.len() - i,
        {
            proof {
                assert(history@.subrange(0, i + 1).drop_last() =~= history@.subrange(0, i as int));
                Self::lemma_owner_events_le(history@.subrange(0, i as int));
            }
            match history[i].event {
                OwnershipEvent::Mint | OwnershipEvent::Transfer => {
                    count = count + 1;
                },
                OwnershipEvent::Burn => {},
            }
            i = i + 1;
        }
        assert(history@.subrange(0, history.len() as int) =~= history@);
        count
    }

    /// Whether a trigger rule fires: "metric" when the token's metric
    /// `metric_key` (0 when absent) reaches the threshold, "ownership_count"
    /// when the mint/transfer count does, "time" when `now - updated_at`
    /// (saturating) does; any other type never fires.
    pub open spec fn spec_fired(
        rule: TriggerRule,
        metrics: Seq<(Seq<u8>, u64)>,
        owner_events: nat,
        now: u64,
        updated_at: u64,
    ) -> bool {
        if spec_str_eq(rule.trigger_type@, lit_metric()) {
            or_default(get_at(metrics, rule.metric_key@), 0u64) >= rule.threshold
        } else if spec_str_eq(rule.trigger_type@, lit_ownership_count()) {
            owner_events >= rule.threshold
        } else if spec_str_eq(rule.trigger_type@, lit_time()) {
            (if now >= updated_at {
                now - updated_at
            } else {
                0
            }) >= rule.threshold
        } else {
            false
        }
    }

    /// The effect of a fired rule on metadata `m` and on the count of
    /// applied rules: "add_trait" sets a string trait, "add_numeric_trait"
    /// sets a numeric trait to the parsed value, "bump_level" adds the parsed
    /// value to the level (saturating); any other action does nothing.
    pub open spec fn spec_act(rule: TriggerRule, m: MetaView, count: nat) -> (MetaView, nat) {
        if spec_str_eq(rule.action_type@, lit_add_trait()) {
            (
                MetaView {
                    string_traits: set_at(m.string_traits, rule.action_param@, rule.action_value@),
                    ..m
                },
                count + 1,
            )
        } else if spec_str_eq(rule.action_type@, lit_add_numeric_trait()) {
            (
                MetaView {
                    numeric_traits: set_at(
                        m.numeric_traits,
                        rule.action_param@,
                        spec_parse_u32(rule.action_value@),
                    ),
                    ..m
                },
                count + 1,
            )
        } else if spec_str_eq(rule.action_type@, lit_bump_level()) {
            (MetaView { level: sat_add_u32(m.level, spec_parse_u32(rule.action_value@)), ..m }, count + 1)
        } else {
            (m, count)
        }
    }

    /// The metadata and applied count after running `rules` in order over
    /// `m`, with firing judged on the token's metrics, mint/transfer count,
    /// `now` and its update time before the run.
    pub open spec fn spec_run_triggers(
        rules: Seq<TriggerRule>,
        m: MetaView,
        metrics: Seq<(Seq<u8>, u64)>,
        owner_events: nat,
        now: u64,
    ) -> (MetaView, nat)
        decreases rules.len(),
    {
        if rules.len() == 0 {
            (m, 0)
        } else {
            let (pm, pc) = Self::spec_run_triggers(rules.drop_last(), m, metrics, owner_events, now);
            let rule = rules.last();
            if Self::spec_fired(rule, metrics, owner_events, now, m.updated_at) {
                Self::spec_act(rule, pm, pc)
            } else {
                (pm, pc)
            }
        }
    }

    proof fn lemma_run_triggers_facts(
        rules: Seq<TriggerRule>,
        m: MetaView,
        metrics: Seq<(Seq<u8>, u64)>,
        owner_events: nat,
        now: u64,
    )
        ensures
            Self::spec_run_triggers(rules, m, metrics, owner_events, now).1 <= rules.len(),
            Self::spec_run_triggers(rules, m, metrics, owner_events, now).0.updated_at
                == m.updated_at,
            Self::spec_run_triggers(rules, m, metrics, owner_events, now).0.token_id == m.token_id,
        decreases rules.len(),
    {
        if rules.len() > 0 {
            Self::lemma_run_triggers_facts(rules.drop_last(), m, metrics, owner_events, now);
        }
    }

    /// What applying the trigger rules to token `id` does.
    pub open spec fn spec_triggers(
        self,
        new: Self,
        r: Result<u32, MetadataError>,
        now: u64,
        contract: AccountId,
        id: u32,
    ) -> bool {
        if self.trigger_rules@.len() == 0 {
            r == Ok::<u32, MetadataError>(0) && new == self
        } else if !self.tokens@.contains_key(id) {
            r == Err::<u32, MetadataError>(MetadataError::TokenNotFound) && new == self
        } else {
            let o = self.tokens@[id]@;
            if o.frozen {
                r == Ok::<u32, MetadataError>(0) && new == self
            } else {
                let (m, c) = Self::spec_run_triggers(
                    self.trigger_rules@,
                    o,
                    self.metrics_of(id),
                    Self::spec_owner_events(self.history_of(id)),
                    now,
                );
                if c == 0 {
                    r == Ok::<u32, MetadataError>(0) && new.unchanged(self)
                } else {
                    r == Ok::<u32, MetadataError>(c as u32) && new.touched(
                        self,
                        id,
                        MetaView { updated_at: now, ..m },
                        contract,
                        lit_trigger_apply(),
                        now,
                    )
                }
            }
        }
    }

    /// Fires the trigger rules on token `id` in id order; when any applied,
    /// the token is rewritten and snapshotted ("trigger_apply", by
    /// `contract`, this contract's own address). Frozen tokens are left
    /// alone. Returns the number of rules applied.
    pub fn apply_trigger_rules(&mut self, now: u64, contract: AccountId, token_id: u32) -> (r:
        Result<u32, MetadataError>)
        requires
            old(self).wf(),
            old(self).versions_of(token_id).len() < u32::MAX,
            old(self).trigger_rules@.len() < u32::MAX,
            old(self).history_of(token_id).len() <= u32::MAX,
        ensures
            final(self).wf(),
            old(self).spec_triggers(*final(self), r, now, contract, token_id),
    {
        if self.trigger_rules.len() == 0 {
            return Ok(0);
        }
        let frozen = match self.tokens.get(&token_id) {
            Some(m) => m.frozen,
            None => return Err(MetadataError::TokenNotFound),
        };
        if frozen {
            return Ok(0);
        }
        let owner_events: u32 = match self.ownership.get(&token_id) {
            Some(h) => Self::count_distinct_owners(h),
            None => {
                assert(self.history_of(token_id) =~= Seq::<OwnershipRecord>::empty());
                0
            },
        };
        let ghost metrics_view = self.metrics_of(token_id);
        let ghost o = self.tokens@[token_id]@;
        let mut metadata = self.take_token(token_id);
        let updated_at = metadata.updated_at;
        let lit_m = bytes_metric();
        let lit_oc = bytes_ownership_count();
        let lit_t = bytes_time();
        let lit_at = bytes_add_trait();
        let lit_ant = bytes_add_numeric_trait();
        let lit_bl = bytes_bump_level();
        let mut applied: u32 = 0;
        let mut i: usize = 0;
        while i < self.trigger_rules.len()
            invariant
                i <= self.trigger_rules.len(),
                self.trigger_rules@.len() < u32::MAX,
                self.trigger_rules == old(self).trigger_rules,
                self.metrics == old(self).metrics,
                self.tokens@ == old(self).tokens@.remove(token_id),
                self.versions == old(self).versions,
                self.image_cache == old(self).image_cache,
                self.rest_same(*old(self)),
                old(self).wf(),
                old(self).tokens@.contains_key(token_id),
                old(self).versions_of(token_id).len() < u32::MAX,
                o == old(self).tokens@[token_id]@,
                applied == 0 ==> metadata == old(self).tokens@[token_id],
                metrics_view == self.metrics_of(token_id),
                lit_m@ == lit_metric() && lit_oc@ == lit_ownership_count() && lit_t@ == lit_time(),
                lit_at@ == lit_add_trait() && lit_ant@ == lit_add_numeric_trait()
                    && lit_bl@ == lit_bump_level(),
                updated_at == o.updated_at,
                (metadata@, applied as nat) == Self::spec_run_triggers(
                    self.trigger_rules@.subrange(0, i as int),
                    o,
                    metrics_view,
                    owner_events as nat,
                    now,
                ),
            decreases self.trigger_rules.len() - i,
        {
            proof {
                let sub = self.trigger_rules@.subrange(0, i + 1);
                assert(sub.drop_last() =~= self.trigger_rules@.subrange(0, i as int));
                assert(sub.last() == self.trigger_rules@[i as int]);
                Self::lemma_run_triggers_facts(
                    self.trigger_rules@.subrange(0, i as int),
                    o,
                    metrics_view,
                    owner_events as nat,
                    now,
                );
            }
            let rule = &self.trigger_rules[i];
            let fired = if str_eq(&rule.trigger_type, &lit_m) {
                let v: u64 = match self.metrics.get(&token_id) {
                    Some(ms) => match get_val(ms, &rule.metric_key) {
                        Some(v) => v,
                        None => 0,
                    },
                    None => 0,
                };
                v >= rule.threshold
            } else if str_eq(&rule.trigger_type, &lit_oc) {
                (owner_events as u64) >= rule.threshold
            } else if str_eq(&rule.trigger_type, &lit_t) {
                now.saturating_sub(updated_at) >= rule.threshold
            } else {
                false
            };
            if fired {
                if str_eq(&rule.action_type, &lit_at) {
                    let k = copy_bytes(&rule.action_param);
                    let v = copy_bytes(&rule.action_value);
                    set_str(&mut metadata.string_traits, k, v);
                    applied = applied + 1;
                } else if str_eq(&rule.action_type, &lit_ant) {
                    let parsed = parse_u32(&rule.action_value);
                    let k = copy_bytes(&rule.action_param);
                    set_val(&mut metadata.numeric_traits, k, parsed);
                    applied = applied + 1;
                } else if str_eq(&rule.action_type, &lit_bl) {
                    let bump = parse_u32(&rule.action_value);
                    metadata.level = metadata.level.saturating_add(bump);
                    applied = applied + 1;
                }
            }
            i = i + 1;
        }
        proof {
            assert(self.trigger_rules@.subrange(0, self.trigger_rules@.len() as int)
                =~= self.trigger_rules@);
            Self::lemma_run_triggers_facts(self.trigger_rules@, o, metrics_view, owner_events as nat, now);
        }
        if applied > 0 {
            metadata.updated_at = now;
            self.commit(metadata, contract, bytes_trigger_apply(), now);
            assert(self.tokens@ =~= old(self).tokens@.insert(token_id, self.tokens@[token_id]));
        } else {
            self.tokens.insert(token_id, metadata);
            assert(self.tokens@ =~= old(self).tokens@);
        }
        Ok(applied)
    }

    /// The checks of an oracle metric write, in the contract's order.
    pub open spec fn spec_oracle_check(self, oracle: AccountId, id: u32) -> Result<(), MetadataError> {
        if self.spec_paused() {
            Err(MetadataError::ContractPaused)
        } else if map_get(self.oracles@, oracle) != Some(true) {
            Err(MetadataError::NotOracle)
        } else if !self.tokens@.contains_key(id) {
            Err(MetadataError::TokenNotFound)
        } else {
            Ok(())
        }
    }

    /// `new` is `self` with metric `key` of token `id` set to `value` and the
    /// token's performance score raised by `delta` (saturating); the image
    /// cache and the snapshots stay.
    pub open spec fn metric_stage(self, new: Self, id: u32, key: Seq<u8>, value: u64, removed: u64, added: u64) -> bool {
        let o = self.tokens@[id]@;
        &&& new.metrics_of(id) == set_at(self.metrics_of(id), key, value)
        &&& new.metrics@ == self.metrics@.insert(id, new.metrics@[id])
        &&& new.tokens@ == self.tokens@.insert(id, new.tokens@[id])
        &&& new.tokens@[id]@ == MetaView {
            performance_score: sat_add_u64(sat_sub_u64(o.performance_score, removed), added),
            ..o
        }
        &&& new == Self { metrics: new.metrics, tokens: new.tokens, ..self }
    }

    /// A metric write on token `id`: the metric stage, then trait
    /// evolution, then the trigger rules, each by this contract.
    pub open spec fn spec_metric_write(
        self,
        new: Self,
        now: u64,
        contract: AccountId,
        id: u32,
        key: Seq<u8>,
        value: u64,
        removed: u64,
        added: u64,
    ) -> bool {
        exists|s1: Self, s2: Self, e1: Result<u32, MetadataError>, e2: Result<u32, MetadataError>|
            #![trigger self.metric_stage(s1, id, key, value, removed, added), s1.spec_evolution(s2, e1, now, contract, id), s2.spec_triggers(new, e2, now, contract, id)]
            self.metric_stage(s1, id, key, value, removed, added) && s1.spec_evolution(
                s2,
                e1,
                now,
                contract,
                id,
            ) && s2.spec_triggers(new, e2, now, contract, id)
    }

    /// Stores `value` under metric `key` of token `id`; returns the previous
    /// value (0 when absent).
    fn put_metric(&mut self, id: u32, key: Vec<u8>, value: u64) -> (prev: u64)
        ensures
            prev == or_default(get_at(old(self).metrics_of(id), key@), 0u64),
            final(self).metrics_of(id) == set_at(old(self).metrics_of(id), key@, value),
            final(self).metrics@ == old(self).metrics@.insert(id, final(self).metrics@[id]),
            *final(self) == (Self { metrics: final(self).metrics, ..*old(self) }),
    {
        let mut ms = match self.metrics.remove(&id) {
            Some(v) => v,
            None => Vec::new(),
        };
        assert(bview(ms@) == old(self).metrics_of(id));
        let prev = match get_val(&ms, &key) {
            Some(v) => v,
            None => 0,
        };
        set_val(&mut ms, key, value);
        self.metrics.insert(id, ms);
        assert(self.metrics@ =~= old(self).metrics@.insert(id, self.metrics@[id]));
        prev
    }

    /// Raises token `id`'s performance score by `delta` (saturating), with
    /// no snapshot and no cache change.
    fn bump_score(&mut self, id: u32, removed: u64, added: u64)
        requires
            old(self).tokens@.contains_key(id),
        ensures
            final(self).tokens@ == old(self).tokens@.insert(id, final(self).tokens@[id]),
            final(self).tokens@[id]@ == (MetaView {
                performance_score: sat_add_u64(sat_sub_u64(old(self).tokens@[id]@.performance_score, removed), added),
                ..old(self).tokens@[id]@
            }),
            *final(self) == (Self { tokens: final(self).tokens, ..*old(self) }),
    {
        let mut m = self.take_token(id);
        m.performance_score = m.performance_score.saturating_sub(removed).saturating_add(added);
        self.tokens.insert(id, m);
        assert(self.tokens@ =~= old(self).tokens@.insert(id, self.tokens@[id]));
    }

    /// The shared tail of the metric writes: stage, evolution, triggers.
    fn metric_write(
        &mut self,
        now: u64,
        contract: AccountId,
        token_id: u32,
        key: Vec<u8>,
        value: u64,
        removed: u64,
        added: u64,
    ) -> (prev: u64)
        requires
            old(self).wf(),
            old(self).tokens@.contains_key(token_id),
            old(self).versions_of(token_id).len() + 1 < u32::MAX,
            old(self).trigger_rules@.len() < u32::MAX,
            old(self).history_of(token_id).len() <= u32::MAX,
        ensures
            final(self).wf(),
            prev == or_default(get_at(old(self).metrics_of(token_id), key@), 0u64),
            old(self).spec_metric_write(*final(self), now, contract, token_id, key@, value, removed, added),
    {
        let ghost s0 = *self;
        let ghost k = key@;
        let prev = self.put_metric(token_id, key, value);
        self.bump_score(token_id, removed, added);
        let ghost s1 = *self;
        assert(s0.metric_stage(s1, token_id, k, value, removed, added)) by {
            assert(s1.metrics_of(token_id) == set_at(s0.metrics_of(token_id), k, value));
        }
        let e1 = self.apply_trait_evolution(now, contract, token_id);
        let ghost s2 = *self;
        let e2 = self.apply_trigger_rules(now, contract, token_id);
        assert(s0.metric_stage(s1, token_id, k, value, removed, added) && s1.spec_evolution(
            s2,
            e1,
            now,
            contract,
            token_id,
        ) && s2.spec_triggers(*self, e2, now, contract, token_id));
        prev
    }

    /// Replaces metric `metric_key` of a token with `value` (oracle only, not
    /// while paused). The performance score follows the aggregate of the
    /// metrics: the metric's previous value comes off it and the new value
    /// goes on (each step saturating); then trait evolution and the trigger
    /// rules run.
    pub fn set_performance_metric(
        &mut self,
        now: u64,
        contract: AccountId,
        oracle: AccountId,
        token_id: u32,
        metric_key: Vec<u8>,
        value: u64,
    ) -> (r: Result<(), MetadataError>)
        requires
            old(self).wf(),
            old(self).versions_of(token_id).len() + 1 < u32::MAX,
            old(self).trigger_rules@.len() < u32::MAX,
            old(self).history_of(token_id).len() <= u32::MAX,
        ensures
            final(self).wf(),
            r == old(self).spec_oracle_check(oracle, token_id),
            r.is_err() ==> *final(self) == *old(self),
            r.is_ok() ==> old(self).spec_metric_write(
                *final(self),
                now,
                contract,
                token_id,
                metric_key@,
                value,
                or_default(get_at(old(self).metrics_of(token_id), metric_key@), 0u64),
                value,
            ),
    {
        self.assert_not_paused()?;
        self.assert_oracle(oracle)?;
        if !self.tokens.contains_key(&token_id) {
            return Err(MetadataError::TokenNotFound);
        }
        let current = match self.metrics.get(&token_id) {
            Some(ms) => match get_val(ms, &metric_key) {
                Some(v) => v,
                None => 0,
            },
            None => 0,
        };
        self.metric_write(now, contract, token_id, metric_key, value, current, value);
        Ok(())
    }

    /// Adds `delta` to metric `metric_key` of a token (absent counts as 0,
    /// saturating; oracle only, not while paused). The performance score
    /// rises by `delta`; then trait evolution and the trigger rules run.
    /// Returns the new metric value.
    pub fn add_performance_metric(
        &mut self,
        now: u64,
        contract: AccountId,
        oracle: AccountId,
        token_id: u32,
        metric_key: Vec<u8>,
        delta: u64,
    ) -> (r: Result<u64, MetadataError>)
        requires
            old(self).wf(),
            old(self).versions_of(token_id).len() + 1 < u32::MAX,
            old(self).trigger_rules@.len() < u32::MAX,
            old(self).history_of(token_id).len() <= u32::MAX,
        ensures
            final(self).wf(),
            r == (match old(self).spec_oracle_check(oracle, token_id) {
                Err(e) => Err(e),
                Ok(_) => Ok(
                    sat_add_u64(
                        or_default(get_at(old(self).metrics_of(token_id), metric_key@), 0u64),
                        delta,
                    ),
                ),
            }),
            r.is_err() ==> *final(self) == *old(self),
            r matches Ok(v) ==> old(self).spec_metric_write(
                *final(self),
                now,
                contract,
                token_id,
                metric_key@,
                v,
                0,
                delta,
            ),
    {
        self.assert_not_paused()?;
        self.assert_oracle(oracle)?;
        if !self.tokens.contains_key(&token_id) {
            return Err(MetadataError::TokenNotFound);
        }
        let current = match self.metrics.get(&token_id) {
            Some(ms) => match get_val(ms, &metric_key) {
                Some(v) => v,
                None => 0,
            },
            None => 0,
        };
        let new_val = current.saturating_add(delta);
        self.metric_write(now, contract, token_id, metric_key, new_val, 0, delta);
        Ok(new_val)
    }

    /// A token's metric `metric_key` (0 when absent).
    pub fn get_performance_metric(&self, token_id: u32, metric_key: &Vec<u8>) -> (r: u64)
        ensures
            r == or_default(get_at(self.metrics_of(token_id), metric_key@), 0u64),
    {
        match self.metrics.get(&token_id) {
            Some(ms) => match get_val(ms, metric_key) {
                Some(v) => v,
                None => 0,
            },
            None => 0,
        }
    }

    /// Adds (or, when the id is taken, replaces) a trait evolution rule
    /// under the next rule id (admin only). Returns the id.
    pub fn configure_trait_rule(
        &mut self,
        admin: AccountId,
        metric: Vec<u8>,
        threshold: u64,
        target_trait_name: Vec<u8>,
        target_trait_value: Vec<u8>,
        target_level: u32,
        new_rarity: u32,
    ) -> (r: Result<u64, MetadataError>)
        requires
            old(self).wf(),
            or_default(old(self).next_trait_rule_id, 1u64) < u64::MAX,
        ensures
            final(self).wf(),
            r == (if old(self).spec_is_admin(admin) {
                Ok(or_default(old(self).next_trait_rule_id, 1u64))
            } else {
                Err(MetadataError::NotAdmin)
            }),
            r.is_err() ==> *final(self) == *old(self),
            r matches Ok(id) ==> exists|i: int|
                slot_of(ids_of(old(self).trait_rules@), id, i) && final(self).trait_rules@ == put_at(
                    old(self).trait_rules@,
                    i,
                    TraitEvolutionRule {
                        id,
                        metric,
                        threshold,
                        target_trait_name,
                        target_trait_value,
                        target_level,
                        new_rarity,
                    },
                ),
            r matches Ok(id) ==> *final(self) == (Self {
                trait_rules: final(self).trait_rules,
                next_trait_rule_id: Some((id + 1) as u64),
                ..*old(self)
            }),
    {
        self.assert_admin(admin)?;
        let id: u64 = match self.next_trait_rule_id {
            Some(n) => n,
            None => 1,
        };
        let rule = TraitEvolutionRule {
            id,
            metric,
            threshold,
            target_trait_name,
            target_trait_value,
            target_level,
            new_rarity,
        };
        insert_rule(&mut self.trait_rules, rule);
        self.next_trait_rule_id = Some(id + 1);
        Ok(id)
    }

    /// Removes trait rule `rule_id` (admin only; `RuleNotFound` when absent).
    pub fn remove_trait_rule(&mut self, admin: AccountId, rule_id: u64) -> (r: Result<
        (),
        MetadataError,
    >)
        requires
            old(self).wf(),
        ensures
            final(self).wf(),
            r == (if !old(self).spec_is_admin(admin) {
                Err(MetadataError::NotAdmin)
            } else if !ids_of(old(self).trait_rules@).contains(rule_id) {
                Err(MetadataError::RuleNotFound)
            } else {
                Ok(())
            }),
            r.is_err() ==> *final(self) == *old(self),
            r.is_ok() ==> exists|i: int|
                0 <= i < old(self).trait_rules@.len() && old(self).trait_rules@[i].id == rule_id
                    && final(self).trait_rules@ == old(self).trait_rules@.remove(i),
            r.is_ok() ==> *final(self) == (Self { trait_rules: final(self).trait_rules, ..*old(self) }),
    {
        self.assert_admin(admin)?;
        if remove_rule(&mut self.trait_rules, rule_id) {
            Ok(())
        } else {
            Err(MetadataError::RuleNotFound)
        }
    }

    /// The trait rules, in ascending id order.
    pub fn get_trait_rules(&self) -> (r: &Vec<TraitEvolutionRule>)
        ensures
            r@ == self.trait_rules@,
    {
        &self.trait_rules
    }

    /// Runs trait evolution on a token by hand (owner or admin, not while
    /// paused, not frozen). Returns the number of rules applied (0 or 1).
    pub fn evolve_traits(&mut self, now: u64, contract: AccountId, caller: AccountId, token_id: u32) -> (r:
        Result<u32, MetadataError>)
        requires
            old(self).wf(),
            old(self).versions_of(token_id).len() < u32::MAX,
        ensures
            final(self).wf(),
            old(self).spec_edit_check(caller, token_id, true, true) matches Err(e) ==> r == Err::<
                u32,
                MetadataError,
            >(e) && *final(self) == *old(self),
            old(self).spec_edit_check(caller, token_id, true, true) is Ok ==> old(
                self,
            ).spec_evolution(*final(self), r, now, contract, token_id),
    {
        self.check_edit(caller, token_id, true, true)?;
        self.apply_trait_evolution(now, contract, token_id)
    }

    /// Whether a trigger type and an action type are ones the rules know.
    pub open spec fn spec_trigger_inputs(trigger_type: Seq<u8>, action_type: Seq<u8>) -> Result<
        (),
        MetadataError,
    > {
        if !(spec_str_eq(trigger_type, lit_metric()) || spec_str_eq(
            trigger_type,
            lit_ownership_count(),
        ) || spec_str_eq(trigger_type, lit_time())) {
            Err(MetadataError::InvalidTriggerType)
        } else if !(spec_str_eq(action_type, lit_add_trait()) || spec_str_eq(
            action_type,
            lit_add_numeric_trait(),
        ) || spec_str_eq(action_type, lit_bump_level())) {
            Err(MetadataError::InvalidActionType)
        } else {
            Ok(())
        }
    }

    /// Checks a trigger type ("metric", "ownership_count", "time") and an
    /// action type ("add_trait", "add_numeric_trait", "bump_level").
    pub fn validate_trigger_inputs(trigger_type: &Vec<u8>, action_type: &Vec<u8>) -> (r: Result<
        (),
        MetadataError,
    >)
        ensures
            r == Self::spec_trigger_inputs(trigger_type@, action_type@),
    {
        let valid_trigger = str_eq(trigger_type, &bytes_metric()) || str_eq(
            trigger_type,
            &bytes_ownership_count(),
        ) || str_eq(trigger_type, &bytes_time());
        if !valid_trigger {
            return Err(MetadataError::InvalidTriggerType);
        }
        let valid_action = str_eq(action_type, &bytes_add_trait()) || str_eq(
            action_type,
            &bytes_add_numeric_trait(),
        ) || str_eq(action_type, &bytes_bump_level());
        if !valid_action {
            return Err(MetadataError::InvalidActionType);
        }
        Ok(())
    }

    /// Adds (or, when the id is taken, replaces) a trigger rule under the
    /// next trigger id (admin only, known trigger and action types). Returns
    /// the id.
    pub fn configure_trigger_rule(
        &mut self,
        admin: AccountId,
        trigger_type: Vec<u8>,
        metric_key: Vec<u8>,
        threshold: u64,
        action_type: Vec<u8>,
        action_param: Vec<u8>,
        action_value: Vec<u8>,
    ) -> (r: Result<u64, MetadataError>)
        requires
            old(self).wf(),
            or_default(old(self).next_trigger_rule_id, 1u64) < u64::MAX,
        ensures
            final(self).wf(),
            r == (if !old(self).spec_is_admin(admin) {
                Err(MetadataError::NotAdmin)
            } else {
                match Self::spec_trigger_inputs(trigger_type@, action_type@) {
                    Err(e) => Err(e),
                    Ok(_) => Ok(or_default(old(self).next_trigger_rule_id, 1u64)),
                }
            }),
            r.is_err() ==> *final(self) == *old(self),
            r matches Ok(id) ==> exists|i: int|
                slot_of(ids_of(old(self).trigger_rules@), id, i) && final(self).trigger_rules@
                    == put_at(
                    old(self).trigger_rules@,
                    i,
                    TriggerRule {
                        id,
                        trigger_type,
                        metric_key,
                        threshold,
                        action_type,
                        action_param,
                        action_value,
                    },
                ),
            r matches Ok(id) ==> *final(self) == (Self {
                trigger_rules: final(self).trigger_rules,
                next_trigger_rule_id: Some((id + 1) as u64),
                ..*old(self)
            }),
    {
        self.assert_admin(admin)?;
        Self::validate_trigger_inputs(&trigger_type, &action_type)?;
        let id: u64 = match self.next_trigger_rule_id {
            Some(n) => n,
            None => 1,
        };
        let rule = TriggerRule {
            id,
            trigger_type,
            metric_key,
            threshold,
            action_type,
            action_param,
            action_value,
        };
        insert_rule(&mut self.trigger_rules, rule);
        self.next_trigger_rule_id = Some(id + 1);
        Ok(id)
    }

    /// Removes trigger rule `rule_id` (admin only; `RuleNotFound` when
    /// absent).
    pub fn remove_trigger_rule(&mut self, admin: AccountId, rule_id: u64) -> (r: Result<
        (),
        MetadataError,
    >)
        requires
            old(self).wf(),
        ensures
            final(self).wf(),
            r == (if !old(self).spec_is_admin(admin) {
                Err(MetadataError::NotAdmin)
            } else if !ids_of(old(self).trigger_rules@).contains(rule_id) {
                Err(MetadataError::RuleNotFound)
            } else {
                Ok(())
            }),
            r.is_err() ==> *final(self) == *old(self),
            r.is_ok() ==> exists|i: int|
                0 <= i < old(self).trigger_rules@.len() && old(self).trigger_rules@[i].id == rule_id
                    && final(self).trigger_rules@ == old(self).trigger_rules@.remove(i),
            r.is_ok() ==> *final(self) == (Self {
                trigger_rules: final(self).trigger_rules,
                ..*old(self)
            }),
    {
        self.assert_admin(admin)?;
        if remove_rule(&mut self.trigger_rules, rule_id) {
            Ok(())
        } else {
            Err(MetadataError::RuleNotFound)
        }
    }

    /// The trigger rules, in ascending id order.
    pub fn get_trigger_rules(&self) -> (r: &Vec<TriggerRule>)
        ensures
            r@ == self.trigger_rules@,
    {
        &self.trigger_rules
    }

    /// Fires the trigger rules on a token by hand (owner or admin, not while
    /// paused, not frozen). Returns the number of rules applied.
    pub fn check_and_apply_triggers(
        &mut self,
        now: u64,
        contract: AccountId,
        caller: AccountId,
        token_id: u32,
    ) -> (r: Result<u32, MetadataError>)
        requires
            old(self).wf(),
            old(self).versions_of(token_id).len() < u32::MAX,
            old(self).trigger_rules@.len() < u32::MAX,
            old(self).history_of(token_id).len() <= u32::MAX,
        ensures
            final(self).wf(),
            old(self).spec_edit_check(caller, token_id, true, true) matches Err(e) ==> r == Err::<
                u32,
                MetadataError,
            >(e) && *final(self) == *old(self),
            old(self).spec_edit_check(caller, token_id, true, true) is Ok ==> old(
                self,
            ).spec_triggers(*final(self), r, now, contract, token_id),
    {
        self.check_edit(caller, token_id, true, true)?;
        self.apply_trigger_rules(now, contract, token_id)
    }

    /// The image URI of a token: the cached one when present, else
    /// `{base}/nft/{id}/lvl/{level}/rar/{rarity}.png` from the current
    /// metadata and base URI.
    pub open spec fn spec_image_uri_of(self, id: u32) -> Result<Seq<u8>, MetadataError> {
        if self.image_cache@.contains_key(id) {
            Ok(self.image_cache@[id]@)
        } else if !self.tokens@.contains_key(id) {
            Err(MetadataError::TokenNotFound)
        } else if self.config is None {
            Err(MetadataError::NotInitialized)
        } else if !base_uri_fits(self.config->Some_0.image_base_uri@) {
            Err(MetadataError::InvalidImageBaseUri)
        } else {
            let m = self.tokens@[id]@;
            Ok(spec_image_uri(self.config->Some_0.image_base_uri@, m.token_id, m.level, m.rarity))
        }
    }

    /// The image URI of a token; a freshly built one is cached.
    pub fn get_image_uri(&mut self, token_id: u32) -> (r: Result<Vec<u8>, MetadataError>)
        requires
            old(self).wf(),
        ensures
            final(self).wf(),
            match r {
                Ok(u) => old(self).spec_image_uri_of(token_id) == Ok::<Seq<u8>, MetadataError>(u@),
                Err(e) => old(self).spec_image_uri_of(token_id) == Err::<Seq<u8>, MetadataError>(e),
            },
            (r.is_err() || old(self).image_cache@.contains_key(token_id)) ==> *final(self) == *old(self),
            (r.is_ok() && !old(self).image_cache@.contains_key(token_id)) ==> {
                &&& final(self).image_cache@ == old(self).image_cache@.insert(
                    token_id,
                    final(self).image_cache@[token_id],
                )
                &&& Ok::<Seq<u8>, MetadataError>(final(self).image_cache@[token_id]@) == old(self).spec_image_uri_of(token_id)
                &&& *final(self) == (Self { image_cache: final(self).image_cache, ..*old(self) })
            },
    {
        match self.image_cache.get(&token_id) {
            Some(u) => {
                return Ok(copy_bytes(u));
            },
            None => {},
        }
        let (level, rarity) = match self.tokens.get(&token_id) {
            Some(m) => (m.level, m.rarity),
            None => return Err(MetadataError::TokenNotFound),
        };
        let built = match &self.config {
            Some(c) => build_image_uri(&c.image_base_uri, token_id, level, rarity),
            None => return Err(MetadataError::NotInitialized),
        };
        match built {
            Some(u) => {
                let cached = copy_bytes(&u);
                self.image_cache.insert(token_id, cached);
                Ok(u)
            },
            None => Err(MetadataError::InvalidImageBaseUri),
        }
    }
}

/// Freezing locks a token: while it is frozen, every edit of its attributes,
/// traits or image is refused, whoever asks (and a refused edit changes
/// nothing).
pub proof fn lemma_frozen_refuses_edits(
    s: DynamicMetadataContract,
    caller: AccountId,
    token_id: u32,
    check_paused: bool,
)
    requires
        s.tokens@.contains_key(token_id),
        s.tokens@[token_id].frozen,
    ensures
        s.spec_edit_check(caller, token_id, check_paused, true) is Err,
{
}

/// The performance score follows a replaced metric: replacing a metric's
/// value moves the score by the difference (up or down), as long as the
/// score holds the metric's previous value and the result fits in a `u64`.
pub proof fn lemma_score_follows_metric(
    s0: DynamicMetadataContract,
    s1: DynamicMetadataContract,
    token_id: u32,
    key: Seq<u8>,
    value: u64,
)
    requires
        s0.tokens@.contains_key(token_id),
        s0.metric_stage(
            s1,
            token_id,
            key,
            value,
            or_default(get_at(s0.metrics_of(token_id), key), 0u64),
            value,
        ),
        s0.tokens@[token_id]@.performance_score >= or_default(get_at(s0.metrics_of(token_id), key), 0u64),
        s0.tokens@[token_id]@.performance_score - or_default(get_at(s0.metrics_of(token_id), key), 0u64)
            + value <= u64::MAX,
    ensures
        s1.tokens@[token_id]@.performance_score == s0.tokens@[token_id]@.performance_score - or_default(
            get_at(s0.metrics_of(token_id), key),
            0u64,
        ) + value,
{
}

} // verus!
