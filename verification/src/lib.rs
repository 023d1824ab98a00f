//! Verified state machines for a family of Soroban game and finance contracts.
//!
//! Each module holds one contract: its storage as plain values, and each entry
//! point as a verified transition from the old storage (plus the ledger time or
//! sequence it reads) to the new storage, the value it returns, and the token
//! movements it asks the host to perform.
pub mod common;
pub mod token;
pub mod host;
pub mod cross_contract;
pub mod batch_processing;
pub mod dynamic_metadata;
pub mod achievement_collection;
pub mod insurance_pool;
pub mod liquidity_pool;
pub mod auction;
pub mod airdrop_merkle_claim;
pub mod achievement_nft;
pub mod crafting;
pub mod governance_token;
pub mod battle_pass;
pub mod bounty;
pub mod lottery;
pub mod multiplayer_match;
pub mod event_logging;
pub mod dynamic_nft;
pub mod decentralized_identity;
pub mod governance;
pub mod oracle;
pub mod multisig_escrow;
pub mod escrow;
