//! Decentralized identifiers: each user registers one DID (its id the
//! Keccak-256 of the user's address), with a public key and a document;
//! users holding a DID issue verifiable credentials to subjects (its id the
//! Keccak-256 of the subject's address), which the subject, the issuer or a
//! delegate of the subject may revoke; users keep attributes and delegates.
use std::collections::HashMap;
use soroban_sdk::Env;
use vstd::prelude::*;

use crate::airdrop_merkle_claim::array_bytes;
use crate::common::{bytes_eq, copy_bytes, Account};
use crate::dynamic_metadata::keyed::{
    bview, get_at, get_str, get_val, lemma_get_set, set_at, set_str, set_val, sview,
};
use crate::host::{keccak256, keccak256_of};

verus! {

broadcast use vstd::std_specs::hash::group_hash_axioms;

/// An account or contract address, identified by a number.
pub type AccountId = u64;

#[derive(Clone, Copy, Debug, PartialEq, Eq, Structural)]
pub enum DidError {
    AlreadyInitialized,
    DidAlreadyExists,
    IssuerHasNoDid,
    CredentialNotFound,
    NoDid,
    Unauthorized,
    AlreadyDelegate,
    NotDelegate,
}

/// A DID's fixed-size fields.
#[derive(Clone, Copy, Debug)]
pub struct DidRecord {
    pub owner: AccountId,
    pub public_key: [u8; 32],
    pub created_at: u64,
    pub updated_at: u64,
    pub active: bool,
}

/// A credential's fixed-size fields; `issuer` is the issuer's DID.
#[derive(Clone, Copy, Debug)]
pub struct CredRecord {
    pub issuer: [u8; 32],
    pub subject: AccountId,
    pub issued_at: u64,
    pub expiration: u64,
    pub revoked: bool,
    pub privacy_proof: Option<[u8; 32]>,
}

/// A delegation's fixed-size fields.
#[derive(Clone, Copy, Debug, PartialEq, Eq, Structural)]
pub struct DelegationRecord {
    pub created_at: u64,
    pub active: bool,
}

/// A DID as returned to callers.
pub struct DID {
    pub id: [u8; 32],
    pub owner: AccountId,
    pub public_key: [u8; 32],
    pub document: Vec<u8>,
    pub created_at: u64,
    pub updated_at: u64,
    pub active: bool,
}

/// A credential as returned to callers.
pub struct VerifiableCredential {
    pub id: [u8; 32],
    pub issuer: [u8; 32],
    pub subject: AccountId,
    pub claim_type: Vec<u8>,
    pub claims: Vec<u8>,
    pub issued_at: u64,
    pub expiration: u64,
    pub revoked: bool,
    pub privacy_proof: Option<[u8; 32]>,
}

#[derive(Clone, Copy, Debug, PartialEq, Eq, Structural)]
pub struct CredentialStatus {
    pub revoked: bool,
    pub expired: bool,
    pub is_valid: bool,
}

/// The storage key of a (delegator, delegate) pair.
pub open spec fn dkey(delegator: AccountId, delegate: AccountId) -> u128 {
    (delegator * 0x1_0000_0000_0000_0000 + delegate) as u128
}

fn delegation_key(delegator: AccountId, delegate: AccountId) -> (r: u128)
    ensures
        r == dkey(delegator, delegate),
{
    (delegator as u128) * 0x1_0000_0000_0000_0000 + (delegate as u128)
}

/// Whether two 32-byte values are equal.
fn eq32(a: &[u8; 32], b: &[u8; 32]) -> (r: bool)
    ensures
        r == (a@ == b@),
{
    let x = array_bytes(a);
    let y = array_bytes(b);
    bytes_eq(&x, &y)
}

/// The contract's storage. DIDs, documents, credentials and claims are
/// lists of entries keyed by the bytes of their 32-byte ids.
pub struct DecentralizedIdentityContract {
    pub initialized: bool,
    pub admin: Option<AccountId>,
    pub user_did: HashMap<AccountId, [u8; 32]>,
    pub dids: Vec<(Vec<u8>, DidRecord)>,
    pub documents: Vec<(Vec<u8>, Vec<u8>)>,
    pub credentials: Vec<(Vec<u8>, CredRecord)>,
    pub claim_types: Vec<(Vec<u8>, Vec<u8>)>,
    pub claims: Vec<(Vec<u8>, Vec<u8>)>,
    pub user_credentials: HashMap<AccountId, Vec<[u8; 32]>>,
    pub attributes: HashMap<AccountId, Vec<(Vec<u8>, Vec<u8>)>>,
    pub delegations: HashMap<u128, DelegationRecord>,
    pub permissions: HashMap<u128, Vec<u8>>,
}

impl DecentralizedIdentityContract {
    /// The DID stored under id `id`.
    pub open spec fn did_of(self, id: Seq<u8>) -> Option<DidRecord> {
        get_at(bview(self.dids@), id)
    }

    /// The document of DID `id`.
    pub open spec fn document_of(self, id: Seq<u8>) -> Option<Seq<u8>> {
        get_at(sview(self.documents@), id)
    }

    /// The credential stored under id `id`.
    pub open spec fn cred_of(self, id: Seq<u8>) -> Option<CredRecord> {
        get_at(bview(self.credentials@), id)
    }

    /// The id of `user`'s DID, if registered.
    pub open spec fn did_id_of(self, user: AccountId) -> Option<[u8; 32]> {
        if self.user_did@.contains_key(user) {
            Some(self.user_did@[user])
        } else {
            None
        }
    }

    /// The ids of the credentials issued to `user`, in order of issue.
    pub open spec fn creds_of(self, user: AccountId) -> Seq<[u8; 32]> {
        if self.user_credentials@.contains_key(user) {
            self.user_credentials@[user]@
        } else {
            Seq::empty()
        }
    }

    /// `user`'s attributes.
    pub open spec fn attrs_of(self, user: AccountId) -> Seq<(Seq<u8>, Seq<u8>)> {
        if self.attributes@.contains_key(user) {
            sview(self.attributes@[user]@)
        } else {
            Seq::empty()
        }
    }

    /// Whether `delegate` is an active delegate of `delegator`.
    pub open spec fn delegates(self, delegate: AccountId, delegator: AccountId) -> bool {
        self.delegations@.contains_key(dkey(delegator, delegate)) && self.delegations@[dkey(
            delegator,
            delegate,
        )].active
    }

    /// Every registered user's DID is stored.
    pub open spec fn wf(self) -> bool {
        forall|u: AccountId| #[trigger]
            self.user_did@.contains_key(u) ==> self.did_of(self.user_did@[u]@) is Some
    }

    pub fn new() -> (r: Self)
        ensures
            r.wf(),
            !r.initialized,
            r.user_did@ == Map::<AccountId, [u8; 32]>::empty(),
            r.dids@.len() == 0 && r.credentials@.len() == 0,
    {
        DecentralizedIdentityContract {
            initialized: false,
            admin: None,
            user_did: HashMap::new(),
            dids: Vec::new(),
            documents: Vec::new(),
            credentials: Vec::new(),
            claim_types: Vec::new(),
            claims: Vec::new(),
            user_credentials: HashMap::new(),
            attributes: HashMap::new(),
            delegations: HashMap::new(),
            permissions: HashMap::new(),
        }
    }

    /// Records the admin (once).
    pub fn initialize(&mut self, admin: AccountId) -> (r: Result<(), DidError>)
        requires
            old(self).wf(),
        ensures
            final(self).wf(),
            r == (if old(self).initialized {
                Err::<(), DidError>(DidError::AlreadyInitialized)
            } else {
                Ok(())
            }),
            r.is_err() ==> *final(self) == *old(self),
            r.is_ok() ==> *final(self) == (Self {
                initialized: true,
                admin: Some(admin),
                ..*old(self)
            }),
    {
        if self.initialized {
            return Err(DidError::AlreadyInitialized);
        }
        self.initialized = true;
        self.admin = Some(admin);
        Ok(())
    }

    /// A DID record of `user` created at `now`.
    pub open spec fn fresh_did(user: AccountId, public_key: [u8; 32], now: u64) -> DidRecord {
        DidRecord { owner: user, public_key, created_at: now, updated_at: now, active: true }
    }

    /// Registers `user`'s DID under `did_id` at `now` (one per user).
    pub fn register_did(
        &mut self,
        now: u64,
        user: AccountId,
        did_id: [u8; 32],
        public_key: [u8; 32],
        document: Vec<u8>,
    ) -> (r: Result<[u8; 32], DidError>)
        requires
            old(self).wf(),
        ensures
            final(self).wf(),
            old(self).user_did@.contains_key(user) ==> r == Err::<[u8; 32], DidError>(
                DidError::DidAlreadyExists,
            ) && *final(self) == *old(self),
            !old(self).user_did@.contains_key(user) ==> {
                &&& r == Ok::<[u8; 32], DidError>(did_id)
                &&& bview(final(self).dids@) == set_at(
                    bview(old(self).dids@),
                    did_id@,
                    Self::fresh_did(user, public_key, now),
                )
                &&& sview(final(self).documents@) == set_at(
                    sview(old(self).documents@),
                    did_id@,
                    document@,
                )
                &&& final(self).user_did@ == old(self).user_did@.insert(user, did_id)
                &&& *final(self) == (Self {
                    dids: final(self).dids,
                    documents: final(self).documents,
                    user_did: final(self).user_did,
                    ..*old(self)
                })
            },
    {
        if self.user_did.contains_key(&user) {
            return Err(DidError::DidAlreadyExists);
        }
        let ghost s0 = *self;
        let key = array_bytes(&did_id);
        let key2 = array_bytes(&did_id);
        set_val(&mut self.dids, key, DidRecord {
            owner: user,
            public_key,
            created_at: now,
            updated_at: now,
            active: true,
        });
        set_str(&mut self.documents, key2, document);
        self.user_did.insert(user, did_id);
        proof {
            assert forall|u: AccountId| #[trigger] self.user_did@.contains_key(u) implies self.did_of(
                self.user_did@[u]@,
            ) is Some by {
                lemma_get_set(
                    bview(s0.dids@),
                    did_id@,
                    Self::fresh_did(user, public_key, now),
                    self.user_did@[u]@,
                );
                if u != user {
                    assert(s0.user_did@.contains_key(u));
                }
            }
        }
        Ok(did_id)
    }

    /// Creates `user`'s DID at `now`; its id is the Keccak-256 of the
    /// user's own address bytes (its XDR).
    pub fn create_did(
        &mut self,
        env: &Env,
        now: u64,
        user: &Account,
        public_key: [u8; 32],
        document: Vec<u8>,
    ) -> (r: Result<[u8; 32], DidError>)
        requires
            old(self).wf(),
        ensures
            final(self).wf(),
            old(self).user_did@.contains_key(user.id) ==> r == Err::<[u8; 32], DidError>(
                DidError::DidAlreadyExists,
            ) && *final(self) == *old(self),
            !old(self).user_did@.contains_key(user.id) ==> {
                &&& (r matches Ok(id) && id@ == keccak256_of(user.xdr@))
                &&& bview(final(self).dids@) == set_at(
                    bview(old(self).dids@),
                    keccak256_of(user.xdr@),
                    Self::fresh_did(user.id, public_key, now),
                )
                &&& sview(final(self).documents@) == set_at(
                    sview(old(self).documents@),
                    keccak256_of(user.xdr@),
                    document@,
                )
                &&& (r matches Ok(id) && final(self).user_did@ == old(self).user_did@.insert(user.id, id))
            },
    {
        let did_id = keccak256(env, &user.xdr);
        self.register_did(now, user.id, did_id, public_key, document)
    }

    /// A credential record issued at `now`.
    pub open spec fn fresh_cred(
        issuer_did: [u8; 32],
        subject: AccountId,
        now: u64,
        expiration: u64,
        privacy_proof: Option<[u8; 32]>,
    ) -> CredRecord {
        CredRecord { issuer: issuer_did, subject, issued_at: now, expiration, revoked: false, privacy_proof }
    }

    /// The storage after issuing credential `cred_id` to `subject`.
    pub open spec fn issued(
        self,
        after: Self,
        now: u64,
        issuer: AccountId,
        subject: AccountId,
        cred_id: [u8; 32],
        claim_type: Seq<u8>,
        claims: Seq<u8>,
        expiration: u64,
        privacy_proof: Option<[u8; 32]>,
    ) -> bool {
        &&& bview(after.credentials@) == set_at(
            bview(self.credentials@),
            cred_id@,
            Self::fresh_cred(self.user_did@[issuer], subject, now, expiration, privacy_proof),
        )
        &&& sview(after.claim_types@) == set_at(sview(self.claim_types@), cred_id@, claim_type)
        &&& sview(after.claims@) == set_at(sview(self.claims@), cred_id@, claims)
        &&& after.creds_of(subject) == self.creds_of(subject).push(cred_id)
        &&& forall|u: AccountId| u != subject ==> #[trigger] after.creds_of(u) == self.creds_of(u)
        &&& after == (Self {
            credentials: after.credentials,
            claim_types: after.claim_types,
            claims: after.claims,
            user_credentials: after.user_credentials,
            ..self
        })
    }

    /// `issuer` (who must hold a DID) issues credential `cred_id` to
    /// `subject` at `now`, expiring at `expiration`; a credential already
    /// stored under that id is replaced, and the id is added to the
    /// subject's list.
    pub fn record_credential(
        &mut self,
        now: u64,
        issuer: AccountId,
        subject: AccountId,
        cred_id: [u8; 32],
        claim_type: Vec<u8>,
        claims: Vec<u8>,
        expiration: u64,
        privacy_proof: Option<[u8; 32]>,
    ) -> (r: Result<[u8; 32], DidError>)
        requires
            old(self).wf(),
        ensures
            final(self).wf(),
            !old(self).user_did@.contains_key(issuer) ==> r == Err::<[u8; 32], DidError>(
                DidError::IssuerHasNoDid,
            ) && *final(self) == *old(self),
            old(self).user_did@.contains_key(issuer) ==> r == Ok::<[u8; 32], DidError>(cred_id)
                && old(self).issued(
                *final(self),
                now,
                issuer,
                subject,
                cred_id,
                claim_type@,
                claims@,
                expiration,
                privacy_proof,
            ),
    {
        let issuer_did = match self.user_did.get(&issuer) {
            Some(d) => *d,
            None => return Err(DidError::IssuerHasNoDid),
        };
        let ghost s0 = *self;
        set_val(
            &mut self.credentials,
            array_bytes(&cred_id),
            CredRecord {
                issuer: issuer_did,
                subject,
                issued_at: now,
                expiration,
                revoked: false,
                privacy_proof,
            },
        );
        set_str(&mut self.claim_types, array_bytes(&cred_id), claim_type);
        set_str(&mut self.claims, array_bytes(&cred_id), claims);
        let mut list = match self.user_credentials.remove(&subject) {
            Some(l) => l,
            None => Vec::new(),
        };
        list.push(cred_id);
        self.user_credentials.insert(subject, list);
        proof {
            assert forall|u: AccountId| u != subject implies #[trigger] self.creds_of(u) == s0.creds_of(
                u,
            ) by {}
        }
        Ok(cred_id)
    }

    /// `issuer` issues a credential to `subject` at `now`; its id is the
    /// Keccak-256 of the subject's own address bytes (its XDR).
    pub fn issue_credential(
        &mut self,
        env: &Env,
        now: u64,
        issuer: AccountId,
        subject: &Account,
        claim_type: Vec<u8>,
        claims: Vec<u8>,
        expiration: u64,
        privacy_proof: Option<[u8; 32]>,
    ) -> (r: Result<[u8; 32], DidError>)
        requires
            old(self).wf(),
        ensures
            final(self).wf(),
            !old(self).user_did@.contains_key(issuer) ==> r == Err::<[u8; 32], DidError>(
                DidError::IssuerHasNoDid,
            ) && *final(self) == *old(self),
            old(self).user_did@.contains_key(issuer) ==> (r matches Ok(id) && id@ == keccak256_of(
                subject.xdr@,
            ) && old(self).issued(
                *final(self),
                now,
                issuer,
                subject.id,
                id,
                claim_type@,
                claims@,
                expiration,
                privacy_proof,
            )),
    {
        let cred_id = keccak256(env, &subject.xdr);
        self.record_credential(now, issuer, subject.id, cred_id, claim_type, claims, expiration, privacy_proof)
    }

    /// A stored credential record.
    fn find_credential(&self, cred_id: &[u8; 32]) -> (r: Option<CredRecord>)
        ensures
            r == self.cred_of(cred_id@),
    {
        get_val(&self.credentials, &array_bytes(cred_id))
    }

    /// Whether credential `cred_id` is valid at `now`: not revoked and
    /// expiring after `now`.
    pub fn verify_credential(&self, now: u64, cred_id: [u8; 32]) -> (r: Result<bool, DidError>)
        ensures
            r == (match self.cred_of(cred_id@) {
                None => Err::<bool, DidError>(DidError::CredentialNotFound),
                Some(c) => Ok(!c.revoked && c.expiration > now),
            }),
    {
        match self.find_credential(&cred_id) {
            None => Err(DidError::CredentialNotFound),
            Some(c) => Ok(!c.revoked && c.expiration > now),
        }
    }

    /// Credential `cred_id`'s status at `now`.
    pub fn get_credential_status(&self, now: u64, cred_id: [u8; 32]) -> (r: Result<
        CredentialStatus,
        DidError,
    >)
        ensures
            r == (match self.cred_of(cred_id@) {
                None => Err::<CredentialStatus, DidError>(DidError::CredentialNotFound),
                Some(c) => Ok(
                    CredentialStatus {
                        revoked: c.revoked,
                        expired: c.expiration < now,
                        is_valid: !c.revoked && c.expiration > now,
                    },
                ),
            }),
    {
        match self.find_credential(&cred_id) {
            None => Err(DidError::CredentialNotFound),
            Some(c) => Ok(
                CredentialStatus {
                    revoked: c.revoked,
                    expired: c.expiration < now,
                    is_valid: !c.revoked && c.expiration > now,
                },
            ),
        }
    }

    /// Whether `proof` matches credential `cred_id`'s privacy proof (and the
    /// credential is not revoked); a credential without one matches nothing.
    pub fn verify_privacy_proof(&self, cred_id: [u8; 32], proof: [u8; 32]) -> (r: Result<
        bool,
        DidError,
    >)
        ensures
            r == (match self.cred_of(cred_id@) {
                None => Err::<bool, DidError>(DidError::CredentialNotFound),
                Some(c) => Ok(
                    match c.privacy_proof {
                        Some(p) => proof@ == p@ && !c.revoked,
                        None => false,
                    },
                ),
            }),
    {
        match self.find_credential(&cred_id) {
            None => Err(DidError::CredentialNotFound),
            Some(c) => match c.privacy_proof {
                Some(p) => Ok(eq32(&proof, &p) && !c.revoked),
                None => Ok(false),
            },
        }
    }

    /// Whether `revoker` may revoke credential `c`: its subject, its issuer
    /// (by DID), or an active delegate of its subject.
    pub open spec fn may_revoke(self, revoker: AccountId, c: CredRecord) -> bool {
        revoker == c.subject || (self.did_id_of(revoker) matches Some(d) && d@ == c.issuer@)
            || self.delegates(revoker, c.subject)
    }

    /// Revokes credential `cred_id` on behalf of `revoker`.
    pub fn revoke_credential(&mut self, revoker: AccountId, cred_id: [u8; 32]) -> (r: Result<
        (),
        DidError,
    >)
        requires
            old(self).wf(),
        ensures
            final(self).wf(),
            match old(self).cred_of(cred_id@) {
                None => r == Err::<(), DidError>(DidError::CredentialNotFound) && *final(self)
                    == *old(self),
                Some(c) => if !old(self).may_revoke(revoker, c) {
                    r == Err::<(), DidError>(DidError::Unauthorized) && *final(self) == *old(self)
                } else {
                    &&& r == Ok::<(), DidError>(())
                    &&& bview(final(self).credentials@) == set_at(
                        bview(old(self).credentials@),
                        cred_id@,
                        CredRecord { revoked: true, ..c },
                    )
                    &&& *final(self) == (Self { credentials: final(self).credentials, ..*old(self) })
                },
            },
    {
        let c = match self.find_credential(&cred_id) {
            None => return Err(DidError::CredentialNotFound),
            Some(c) => c,
        };
        let by_issuer = match self.user_did.get(&revoker) {
            Some(d) => eq32(d, &c.issuer),
            None => false,
        };
        let by_delegate = match self.delegations.get(&delegation_key(c.subject, revoker)) {
            Some(d) => d.active,
            None => false,
        };
        if revoker != c.subject && !by_issuer && !by_delegate {
            return Err(DidError::Unauthorized);
        }
        set_val(&mut self.credentials, array_bytes(&cred_id), CredRecord { revoked: true, ..c });
        Ok(())
    }

    /// The storage after `user`'s DID record is replaced by `rec`.
    pub open spec fn did_updated(self, after: Self, user: AccountId, rec: DidRecord) -> bool {
        &&& bview(after.dids@) == set_at(bview(self.dids@), self.user_did@[user]@, rec)
        &&& after == (Self { dids: after.dids, ..self })
    }

    /// Replaces `user`'s DID record (the user holds a DID).
    fn put_did(&mut self, user: AccountId, rec: DidRecord)
        requires
            old(self).wf(),
            old(self).user_did@.contains_key(user),
        ensures
            final(self).wf(),
            old(self).did_updated(*final(self), user, rec),
    {
        let id = *self.user_did.get(&user).unwrap();
        let ghost s0 = *self;
        set_val(&mut self.dids, array_bytes(&id), rec);
        proof {
            assert forall|u: AccountId| #[trigger] self.user_did@.contains_key(u) implies self.did_of(
                self.user_did@[u]@,
            ) is Some by {
                lemma_get_set(bview(s0.dids@), id@, rec, self.user_did@[u]@);
            }
        }
    }

    /// `user`'s DID record (the user holds a DID).
    fn did_record(&self, user: AccountId) -> (r: DidRecord)
        requires
            self.wf(),
            self.user_did@.contains_key(user),
        ensures
            Some(r) == self.did_of(self.user_did@[user]@),
    {
        let id = self.user_did.get(&user).unwrap();
        get_val(&self.dids, &array_bytes(id)).unwrap()
    }

    /// Sets `user`'s attribute `key` to `value` at `now`, touching the DID.
    pub fn update_attributes(&mut self, now: u64, user: AccountId, key: Vec<u8>, value: Vec<u8>) -> (r:
        Result<(), DidError>)
        requires
            old(self).wf(),
        ensures
            final(self).wf(),
            !old(self).user_did@.contains_key(user) ==> r == Err::<(), DidError>(DidError::NoDid)
                && *final(self) == *old(self),
            old(self).user_did@.contains_key(user) ==> {
                let rec = old(self).did_of(old(self).user_did@[user]@)->0;
                &&& r == Ok::<(), DidError>(())
                &&& bview(final(self).dids@) == set_at(
                    bview(old(self).dids@),
                    old(self).user_did@[user]@,
                    DidRecord { updated_at: now, ..rec },
                )
                &&& final(self).attrs_of(user) == set_at(old(self).attrs_of(user), key@, value@)
                &&& forall|u: AccountId| u != user ==> #[trigger] final(self).attrs_of(u) == old(
                    self,
                ).attrs_of(u)
                &&& *final(self) == (Self {
                    dids: final(self).dids,
                    attributes: final(self).attributes,
                    ..*old(self)
                })
            },
    {
        if !self.user_did.contains_key(&user) {
            return Err(DidError::NoDid);
        }
        let rec = self.did_record(user);
        self.put_did(user, DidRecord { updated_at: now, ..rec });
        let ghost s1 = *self;
        let mut list = match self.attributes.remove(&user) {
            Some(l) => l,
            None => Vec::new(),
        };
        set_str(&mut list, key, value);
        self.attributes.insert(user, list);
        proof {
            assert forall|u: AccountId| u != user implies #[trigger] self.attrs_of(u) == s1.attrs_of(u) by {}
        }
        Ok(())
    }

    /// Replaces `user`'s public key at `now`.
    pub fn rotate_public_key(&mut self, now: u64, user: AccountId, new_public_key: [u8; 32]) -> (r:
        Result<(), DidError>)
        requires
            old(self).wf(),
        ensures
            final(self).wf(),
            !old(self).user_did@.contains_key(user) ==> r == Err::<(), DidError>(DidError::NoDid)
                && *final(self) == *old(self),
            old(self).user_did@.contains_key(user) ==> r == Ok::<(), DidError>(()) && old(
                self,
            ).did_updated(
                *final(self),
                user,
                DidRecord {
                    public_key: new_public_key,
                    updated_at: now,
                    ..old(self).did_of(old(self).user_did@[user]@)->0
                },
            ),
    {
        if !self.user_did.contains_key(&user) {
            return Err(DidError::NoDid);
        }
        let rec = self.did_record(user);
        self.put_did(user, DidRecord { public_key: new_public_key, updated_at: now, ..rec });
        Ok(())
    }

    /// Deactivates `user`'s DID at `now`.
    pub fn deactivate_did(&mut self, now: u64, user: AccountId) -> (r: Result<(), DidError>)
        requires
            old(self).wf(),
        ensures
            final(self).wf(),
            !old(self).user_did@.contains_key(user) ==> r == Err::<(), DidError>(DidError::NoDid)
                && *final(self) == *old(self),
            old(self).user_did@.contains_key(user) ==> r == Ok::<(), DidError>(()) && old(
                self,
            ).did_updated(
                *final(self),
                user,
                DidRecord {
                    active: false,
                    updated_at: now,
                    ..old(self).did_of(old(self).user_did@[user]@)->0
                },
            ),
    {
        if !self.user_did.contains_key(&user) {
            return Err(DidError::NoDid);
        }
        let rec = self.did_record(user);
        self.put_did(user, DidRecord { active: false, updated_at: now, ..rec });
        Ok(())
    }

    /// Whether `delegate` is an active delegate of `delegator`.
    pub fn is_delegate(&self, delegate: AccountId, delegator: AccountId) -> (r: bool)
        ensures
            r == self.delegates(delegate, delegator),
    {
        match self.delegations.get(&delegation_key(delegator, delegate)) {
            Some(d) => d.active,
            None => false,
        }
    }

    /// `user` makes `delegate` an active delegate at `now`, with
    /// `permissions`.
    pub fn add_delegate(&mut self, now: u64, user: AccountId, delegate: AccountId, permissions: Vec<u8>) -> (r:
        Result<(), DidError>)
        requires
            old(self).wf(),
        ensures
            final(self).wf(),
            old(self).delegates(delegate, user) ==> r == Err::<(), DidError>(
                DidError::AlreadyDelegate,
            ) && *final(self) == *old(self),
            !old(self).delegates(delegate, user) ==> {
                &&& r == Ok::<(), DidError>(())
                &&& final(self).delegations@ == old(self).delegations@.insert(
                    dkey(user, delegate),
                    DelegationRecord { created_at: now, active: true },
                )
                &&& final(self).permissions@.contains_key(dkey(user, delegate))
                &&& final(self).permissions@[dkey(user, delegate)]@ == permissions@
                &&& final(self).permissions@.dom() == old(self).permissions@.dom().insert(
                    dkey(user, delegate),
                )
                &&& forall|k: u128| k != dkey(user, delegate) && #[trigger] old(self).permissions@.contains_key(k)
                    ==> final(self).permissions@[k] == old(self).permissions@[k]
                &&& *final(self) == (Self {
                    delegations: final(self).delegations,
                    permissions: final(self).permissions,
                    ..*old(self)
                })
            },
    {
        if self.is_delegate(delegate, user) {
            return Err(DidError::AlreadyDelegate);
        }
        let k = delegation_key(user, delegate);
        self.delegations.insert(k, DelegationRecord { created_at: now, active: true });
        self.permissions.insert(k, permissions);
        Ok(())
    }

    /// `user` deactivates delegate `delegate`.
    pub fn remove_delegate(&mut self, user: AccountId, delegate: AccountId) -> (r: Result<(), DidError>)
        requires
            old(self).wf(),
        ensures
            final(self).wf(),
            !old(self).delegates(delegate, user) ==> r == Err::<(), DidError>(DidError::NotDelegate)
                && *final(self) == *old(self),
            old(self).delegates(delegate, user) ==> {
                &&& r == Ok::<(), DidError>(())
                &&& final(self).delegations@ == old(self).delegations@.insert(
                    dkey(user, delegate),
                    DelegationRecord {
                        active: false,
                        ..old(self).delegations@[dkey(user, delegate)]
                    },
                )
                &&& *final(self) == (Self { delegations: final(self).delegations, ..*old(self) })
            },
    {
        let k = delegation_key(user, delegate);
        let d = match self.delegations.get(&k) {
            Some(d) => *d,
            None => return Err(DidError::NotDelegate),
        };
        if !d.active {
            return Err(DidError::NotDelegate);
        }
        self.delegations.insert(k, DelegationRecord { active: false, ..d });
        Ok(())
    }

    /// The DID stored under `did_id`.
    pub fn get_did(&self, did_id: [u8; 32]) -> (r: Option<DID>)
        ensures
            match r {
                None => self.did_of(did_id@) is None,
                Some(d) => self.did_of(did_id@) matches Some(rec) && d.id == did_id && d.owner
                    == rec.owner && d.public_key == rec.public_key && d.created_at == rec.created_at
                    && d.updated_at == rec.updated_at && d.active == rec.active && (match self.document_of(
                    did_id@,
                ) {
                    Some(doc) => d.document@ == doc,
                    None => d.document@.len() == 0,
                }),
            },
    {
        let key = array_bytes(&did_id);
        match get_val(&self.dids, &key) {
            None => None,
            Some(rec) => {
                let document = match get_str(&self.documents, &key) {
                    Some(doc) => doc,
                    None => Vec::new(),
                };
                Some(
                    DID {
                        id: did_id,
                        owner: rec.owner,
                        public_key: rec.public_key,
                        document,
                        created_at: rec.created_at,
                        updated_at: rec.updated_at,
                        active: rec.active,
                    },
                )
            },
        }
    }

    /// The id of `user`'s DID.
    pub fn get_user_did(&self, user: AccountId) -> (r: Option<[u8; 32]>)
        ensures
            r == self.did_id_of(user),
    {
        match self.user_did.get(&user) {
            Some(d) => Some(*d),
            None => None,
        }
    }

    /// The credential stored under `cred_id`.
    pub fn get_credential(&self, cred_id: [u8; 32]) -> (r: Option<VerifiableCredential>)
        ensures
            match r {
                None => self.cred_of(cred_id@) is None,
                Some(v) => self.cred_of(cred_id@) matches Some(c) && v.id == cred_id && v.issuer
                    == c.issuer && v.subject == c.subject && v.issued_at == c.issued_at
                    && v.expiration == c.expiration && v.revoked == c.revoked && v.privacy_proof
                    == c.privacy_proof && (match get_at(sview(self.claim_types@), cred_id@) {
                    Some(t) => v.claim_type@ == t,
                    None => v.claim_type@.len() == 0,
                }) && (match get_at(sview(self.claims@), cred_id@) {
                    Some(t) => v.claims@ == t,
                    None => v.claims@.len() == 0,
                }),
            },
    {
        let key = array_bytes(&cred_id);
        match get_val(&self.credentials, &key) {
            None => None,
            Some(c) => {
                let claim_type = match get_str(&self.claim_types, &key) {
                    Some(t) => t,
                    None => Vec::new(),
                };
                let claims = match get_str(&self.claims, &key) {
                    Some(t) => t,
                    None => Vec::new(),
                };
                Some(
                    VerifiableCredential {
                        id: cred_id,
                        issuer: c.issuer,
                        subject: c.subject,
                        claim_type,
                        claims,
                        issued_at: c.issued_at,
                        expiration: c.expiration,
                        revoked: c.revoked,
                        privacy_proof: c.privacy_proof,
                    },
                )
            },
        }
    }

    /// `user`'s attribute `key`.
    pub fn get_attribute(&self, user: AccountId, key: &Vec<u8>) -> (r: Option<Vec<u8>>)
        ensures
            match r {
                Some(v) => get_at(self.attrs_of(user), key@) == Some(v@),
                None => get_at(self.attrs_of(user), key@) is None,
            },
    {
        match self.attributes.get(&user) {
            Some(list) => get_str(list, key),
            None => None,
        }
    }

    /// The ids of the credentials issued to `user`.
    pub fn get_user_credentials(&self, user: AccountId) -> (r: Vec<[u8; 32]>)
        ensures
            r@ == self.creds_of(user),
    {
        match self.user_credentials.get(&user) {
            Some(list) => {
                let mut out: Vec<[u8; 32]> = Vec::new();
                let mut i: usize = 0;
                while i < list.len()
                    invariant
                        i <= list@.len(),
                        out@ == list@.subrange(0, i as int),
                    decreases list.len() - i,
                {
                    out.push(list[i]);
                    i = i + 1;
                    assert(out@ =~= list@.subrange(0, i as int));
                }
                assert(list@.subrange(0, list@.len() as int) =~= list@);
                out
            },
            None => Vec::new(),
        }
    }
}

/// A revoked credential stays invalid: once revoked, verification at any
/// time answers false and its status reports it revoked and not valid.
pub proof fn lemma_revoked_is_invalid(
    s: DecentralizedIdentityContract,
    after: DecentralizedIdentityContract,
    cred_id: [u8; 32],
    c: CredRecord,
    now: u64,
)
    requires
        s.cred_of(cred_id@) == Some(c),
        bview(after.credentials@) == set_at(
            bview(s.credentials@),
            cred_id@,
            CredRecord { revoked: true, ..c },
        ),
    ensures
        after.cred_of(cred_id@) matches Some(r) && r.revoked && !(!r.revoked && r.expiration
            > now),
{
    lemma_get_set(bview(s.credentials@), cred_id@, CredRecord { revoked: true, ..c }, cred_id@);
}

/// A credential's status never reports it both valid and expired or
/// revoked.
pub proof fn lemma_status_consistent(c: CredRecord, now: u64)
    ensures
        ({
            let st = CredentialStatus {
                revoked: c.revoked,
                expired: c.expiration < now,
                is_valid: !c.revoked && c.expiration > now,
            };
            st.is_valid ==> !st.revoked && !st.expired
        }),
{
}

} // verus!
