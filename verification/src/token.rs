//! Token movements that an entry point asks the host to perform.
use vstd::prelude::*;

verus! {

/// `amount` of token `token` moves from `from` to `to`.
#[derive(Clone, Copy, Debug, PartialEq, Eq, Structural)]
pub struct TokenTransfer {
    pub token: u64,
    pub from: u64,
    pub to: u64,
    pub amount: i128,
}

} // verus!
