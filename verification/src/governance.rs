//! The data of council governance: token-weighted proposals that call a
//! contract function when executed, and multisig-gated admin actions that
//! need a threshold of council signatures before they expire.
use vstd::prelude::*;

verus! {

/// An account or contract address, identified by a number.
pub type AccountId = u64;

/// A symbol (a function name), identified by a number.
pub type SymbolId = u64;

#[derive(Clone, Copy, Debug, PartialEq, Eq, Structural)]
pub enum ProposalStatus {
    Pending,
    Active,
    Defeated,
    Succeeded,
    Executed,
    Canceled,
}

#[derive(Clone, Copy, Debug, PartialEq, Eq, Structural)]
pub enum VoteType {
    For,
    Against,
    Abstain,
}

/// The call a proposal makes when executed.
#[derive(Clone, Copy, Debug, PartialEq, Eq, Structural)]
pub struct ProposalAction {
    pub contract_id: AccountId,
    pub function_name: SymbolId,
}

/// A proposal; `title` and `description` are UTF-8 text.
pub struct Proposal {
    pub id: u64,
    pub proposer: AccountId,
    pub title: Vec<u8>,
    pub description: Vec<u8>,
    pub action: ProposalAction,
    pub start_time: u64,
    pub end_time: u64,
    pub for_votes: i128,
    pub against_votes: i128,
    pub abstain_votes: i128,
    pub status: ProposalStatus,
    pub quorum: i128,
    pub category: u32,
}

#[derive(Clone, Copy, Debug, PartialEq, Eq, Structural)]
pub struct GovernanceConfig {
    pub voting_delay: u64,
    pub voting_period: u64,
    pub proposal_threshold: i128,
    pub quorum_percentage: u32,
    pub token_address: AccountId,
}

/// Threshold configuration for multisig governance.
#[derive(Clone, Copy, Debug, PartialEq, Eq, Structural)]
pub struct MultisigConfig {
    /// Number of unique council signer approvals required.
    pub threshold: u32,
    /// Seconds before an admin action expires if not fully approved and
    /// executed.
    pub action_ttl: u64,
}

/// Execution status of a multisig-gated admin action.
#[derive(Clone, Copy, Debug, PartialEq, Eq, Structural)]
pub enum AdminActionStatus {
    Pending,
    Approved,
    Executed,
    Rejected,
}

/// A multisig-gated admin action; `description` is UTF-8 text.
pub struct AdminAction {
    pub id: u64,
    pub proposer: AccountId,
    pub description: Vec<u8>,
    pub status: AdminActionStatus,
    pub created_at: u64,
    pub expires_at: u64,
    pub executed_at: Option<u64>,
    /// Council members who have signed (the proposer included).
    pub signers: Vec<AccountId>,
}

} // verus!
