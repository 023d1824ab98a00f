//! The storage of a price oracle: its configuration, the signer keys it
//! accepts, the latest price per asset, and a dispute flag per asset.
use std::collections::HashMap;
use vstd::prelude::*;

verus! {

broadcast use vstd::std_specs::hash::group_hash_axioms;

/// A symbol (an asset), identified by a number.
pub type SymbolId = u64;

#[derive(Clone, Copy, Debug, PartialEq, Eq, Structural)]
pub enum OracleError {
    NotInitialized,
}

/// The oracle's storage, over its configuration type `C` and price record
/// type `P`. Signers are 32-byte public keys, each marked allowed or not.
pub struct Storage<C, P> {
    pub config: Option<C>,
    pub signers: Option<Vec<([u8; 32], bool)>>,
    pub prices: HashMap<SymbolId, P>,
    pub disputes: HashMap<SymbolId, bool>,
}

impl<C: Copy, P: Copy> Storage<C, P> {
    pub fn new() -> (r: Self)
        ensures
            r.config is None,
            r.signers is None,
            r.prices@ == Map::<SymbolId, P>::empty(),
            r.disputes@ == Map::<SymbolId, bool>::empty(),
    {
        Storage { config: None, signers: None, prices: HashMap::new(), disputes: HashMap::new() }
    }

    /// Whether a configuration is stored.
    pub fn has_config(&self) -> (r: bool)
        ensures
            r == self.config is Some,
    {
        self.config.is_some()
    }

    pub fn set_config(&mut self, config: C)
        ensures
            *final(self) == (Self { config: Some(config), ..*old(self) }),
    {
        self.config = Some(config);
    }

    /// The configuration; refused before one is stored.
    pub fn get_config(&self) -> (r: Result<C, OracleError>)
        ensures
            r == (match self.config {
                Some(c) => Ok::<C, OracleError>(c),
                None => Err(OracleError::NotInitialized),
            }),
    {
        match self.config {
            Some(c) => Ok(c),
            None => Err(OracleError::NotInitialized),
        }
    }

    pub fn set_signers(&mut self, signers: Vec<([u8; 32], bool)>)
        ensures
            final(self).signers matches Some(v) && v@ == signers@,
            final(self).config == old(self).config,
            final(self).prices == old(self).prices,
            final(self).disputes == old(self).disputes,
    {
        self.signers = Some(signers);
    }

    /// A copy of the signer keys; refused before they are stored.
    pub fn get_signers(&self) -> (r: Result<Vec<([u8; 32], bool)>, OracleError>)
        ensures
            match self.signers {
                Some(v) => r matches Ok(out) && out@ == v@,
                None => r == Err::<Vec<([u8; 32], bool)>, OracleError>(OracleError::NotInitialized),
            },
    {
        match &self.signers {
            Some(v) => {
                let mut out: Vec<([u8; 32], bool)> = Vec::new();
                let mut i: usize = 0;
                while i < v.len()
                    invariant
                        i <= v@.len(),
                        out@ == v@.subrange(0, i as int),
                    decreases v.len() - i,
                {
                    out.push(v[i]);
                    i = i + 1;
                    assert(out@ =~= v@.subrange(0, i as int));
                }
                assert(v@.subrange(0, v@.len() as int) =~= v@);
                Ok(out)
            },
            None => Err(OracleError::NotInitialized),
        }
    }

    pub fn set_price(&mut self, asset: SymbolId, data: P)
        ensures
            final(self).prices@ == old(self).prices@.insert(asset, data),
            final(self).config == old(self).config,
            final(self).signers == old(self).signers,
            final(self).disputes == old(self).disputes,
    {
        self.prices.insert(asset, data);
    }

    /// The latest price of `asset`.
    pub fn get_price(&self, asset: SymbolId) -> (r: Option<P>)
        ensures
            r == (if self.prices@.contains_key(asset) {
                Some(self.prices@[asset])
            } else {
                None
            }),
    {
        match self.prices.get(&asset) {
            Some(p) => Some(*p),
            None => None,
        }
    }

    pub fn set_dispute(&mut self, asset: SymbolId, is_disputed: bool)
        ensures
            final(self).disputes@ == old(self).disputes@.insert(asset, is_disputed),
            final(self).config == old(self).config,
            final(self).signers == old(self).signers,
            final(self).prices == old(self).prices,
    {
        self.disputes.insert(asset, is_disputed);
    }

    /// Whether `asset` is disputed (not, unless flagged).
    pub fn get_dispute(&self, asset: SymbolId) -> (r: bool)
        ensures
            r == (self.disputes@.contains_key(asset) && self.disputes@[asset]),
    {
        match self.disputes.get(&asset) {
            Some(d) => *d,
            None => false,
        }
    }
}

/// A price read back after it is set is the price set.
pub proof fn lemma_price_read_back<C, P>(s: Storage<C, P>, after: Storage<C, P>, asset: SymbolId, data: P)
    requires
        after.prices@ == s.prices@.insert(asset, data),
    ensures
        after.prices@.contains_key(asset) && after.prices@[asset] == data,
{
}

} // verus!
