//! Merkle airdrops: an admin funds a campaign whose Merkle root commits to
//! the (address, amount) allocations; each address claims once with a proof
//! before the deadline, and the admin takes back what is left afterwards.
use std::collections::HashMap;
use soroban_sdk::Env;
use vstd::prelude::*;

use crate::common::Account;
use crate::host::{sha256, sha256_of};
use crate::token::TokenTransfer;

verus! {

broadcast use vstd::std_specs::hash::group_hash_axioms;

/// An account or contract address, identified by a number.
pub type AccountId = u64;

/// Campaign status codes.
pub const STATUS_ACTIVE: u32 = 0;
pub const STATUS_EXPIRED: u32 = 1;
pub const STATUS_CANCELLED: u32 = 2;

#[derive(Clone, Copy, Debug, PartialEq, Eq, Structural)]
pub enum AirdropError {
    AlreadyInitialized,
    AdminNotSet,
    NonPositiveAllocation,
    DeadlineNotInFuture,
    NonPositiveAmount,
    CampaignNotFound,
    CampaignExpired,
    CampaignNotActive,
    AlreadyClaimed,
    AddressKeyLength,
    InvalidProof,
    InsufficientAllocation,
    CampaignStillActive,
    NothingToReclaim,
}

#[derive(Clone, Copy, Debug)]
pub struct AirdropCampaign {
    pub id: u32,
    pub merkle_root: [u8; 32],
    pub token: AccountId,
    pub total_allocation: i128,
    pub claimed_count: u32,
    pub claimed_amount: i128,
    pub deadline: u64,
    /// 0 active, 1 expired, 2 cancelled.
    pub status: u32,
}

/// The contract's storage.
pub struct AirdropMerkleClaimContract {
    pub admin: Option<AccountId>,
    pub campaign_counter: Option<u32>,
    pub campaigns: HashMap<u32, AirdropCampaign>,
    /// Keyed by `claim_key(campaign, address)`: the address has claimed.
    pub claimed: HashMap<u128, bool>,
}

/// The storage key of a (campaign, address) pair.
pub open spec fn ckey(campaign_id: u32, who: AccountId) -> u128 {
    (campaign_id * 0x1_0000_0000_0000_0000 + who) as u128
}

pub fn claim_key(campaign_id: u32, who: AccountId) -> (r: u128)
    ensures
        r == ckey(campaign_id, who),
{
    (campaign_id as u128) * 0x1_0000_0000_0000_0000 + (who as u128)
}

/// The `n` low bytes of `u`, most significant first.
pub open spec fn be_bytes(u: u128, n: nat) -> Seq<u8>
    decreases n,
{
    if n == 0 {
        Seq::empty()
    } else {
        be_bytes(u / 256, (n - 1) as nat).push((u % 256) as u8)
    }
}

/// The 16 big-endian bytes of an `i128` (two's complement).
pub open spec fn amount_bytes(amount: i128) -> Seq<u8> {
    be_bytes(amount as u128, 16)
}

/// The bytes hashed into a leaf: the address key, then the amount.
pub open spec fn leaf_input(address_key: Seq<u8>, amount: i128) -> Seq<u8> {
    address_key + amount_bytes(amount)
}

/// The hash a proof leads to from `start`: each element is appended to the
/// running hash and the pair rehashed.
pub open spec fn fold_proof(start: Seq<u8>, proof: Seq<[u8; 32]>) -> Seq<u8>
    decreases proof.len(),
{
    if proof.len() == 0 {
        start
    } else {
        sha256_of(fold_proof(start, proof.drop_last()) + proof.last()@)
    }
}

/// Whether a proof for (address key, amount) leads to `root`.
pub open spec fn proof_reaches(address_key: Seq<u8>, amount: i128, proof: Seq<[u8; 32]>, root: [u8; 32]) -> bool {
    fold_proof(sha256_of(leaf_input(address_key, amount)), proof) == root@
}

/// The `n` low bytes of `u`, most significant first.
pub(crate) fn big_endian(u: u128, n: usize) -> (r: Vec<u8>)
    ensures
        r@ == be_bytes(u, n as nat),
    decreases n,
{
    if n == 0 {
        Vec::new()
    } else {
        let mut v = big_endian(u / 256, n - 1);
        v.push((u % 256) as u8);
        v
    }
}

/// `a` followed by `b`.
pub(crate) fn concat(a: &Vec<u8>, b: &Vec<u8>) -> (r: Vec<u8>)
    ensures
        r@ == a@ + b@,
{
    let mut r: Vec<u8> = Vec::new();
    let mut i: usize = 0;
    while i < a.len()
        invariant
            i <= a.len(),
            r@ == a@.subrange(0, i as int),
        decreases a.len() - i,
    {
        r.push(a[i]);
        i = i + 1;
        assert(r@ =~= a@.subrange(0, i as int));
    }
    let mut j: usize = 0;
    while j < b.len()
        invariant
            j <= b.len(),
            i == a.len(),
            r@ == a@ + b@.subrange(0, j as int),
        decreases b.len() - j,
    {
        r.push(b[j]);
        j = j + 1;
        assert(r@ =~= a@ + b@.subrange(0, j as int));
    }
    assert(a@.subrange(0, a.len() as int) =~= a@);
    assert(b@.subrange(0, b.len() as int) =~= b@);
    r
}

/// The bytes of a 32-byte array.
pub(crate) fn array_bytes(x: &[u8; 32]) -> (r: Vec<u8>)
    ensures
        r@ == x@,
{
    let mut r: Vec<u8> = Vec::new();
    let mut i: usize = 0;
    while i < 32
        invariant
            i <= 32,
            r@ == x@.subrange(0, i as int),
        decreases 32 - i,
    {
        r.push(x[i]);
        i = i + 1;
        assert(r@ =~= x@.subrange(0, i as int));
    }
    assert(x@.subrange(0, 32) =~= x@);
    r
}

impl AirdropMerkleClaimContract {
    /// Whether `who` has claimed from campaign `id`.
    pub open spec fn spec_claimed(self, id: u32, who: AccountId) -> bool {
        self.claimed@.contains_key(ckey(id, who))
    }

    /// Storage invariant: no campaign has paid out more than it holds.
    pub open spec fn wf(self) -> bool {
        forall|id: u32| #[trigger]
            self.campaigns@.contains_key(id) ==> 0 <= self.campaigns@[id].claimed_amount
                <= self.campaigns@[id].total_allocation
    }

    pub fn new() -> (r: Self)
        ensures
            r.wf(),
            r.admin is None,
            r.campaign_counter is None,
            r.campaigns@ == Map::<u32, AirdropCampaign>::empty(),
            r.claimed@ == Map::<u128, bool>::empty(),
    {
        AirdropMerkleClaimContract {
            admin: None,
            campaign_counter: None,
            campaigns: HashMap::new(),
            claimed: HashMap::new(),
        }
    }

    /// Sets the admin (once) and the campaign counter to 0.
    pub fn initialize(&mut self, admin: AccountId) -> (r: Result<(), AirdropError>)
        requires
            old(self).wf(),
        ensures
            final(self).wf(),
            r == (if old(self).admin is Some {
                Err(AirdropError::AlreadyInitialized)
            } else {
                Ok(())
            }),
            r.is_err() ==> *final(self) == *old(self),
            r.is_ok() ==> *final(self) == (Self {
                admin: Some(admin),
                campaign_counter: Some(0u32),
                ..*old(self)
            }),
    {
        if self.admin.is_some() {
            return Err(AirdropError::AlreadyInitialized);
        }
        self.admin = Some(admin);
        self.campaign_counter = Some(0);
        Ok(())
    }

    /// The admin (`AdminNotSet` before setup).
    pub fn admin(&self) -> (r: Result<AccountId, AirdropError>)
        ensures
            r == (match self.admin {
                Some(a) => Ok(a),
                None => Err(AirdropError::AdminNotSet),
            }),
    {
        match self.admin {
            Some(a) => Ok(a),
            None => Err(AirdropError::AdminNotSet),
        }
    }

    pub open spec fn counter(self) -> u32 {
        match self.campaign_counter {
            Some(n) => n,
            None => 0,
        }
    }

    /// Opens a campaign under the next id, funded by `admin` with
    /// `total_allocation` (positive) of `token`, claimable until `deadline`
    /// (after `now`). Returns the id and the deposit to perform.
    pub fn create_campaign(
        &mut self,
        now: u64,
        contract: AccountId,
        admin: AccountId,
        merkle_root: [u8; 32],
        token: AccountId,
        total_allocation: i128,
        deadline: u64,
    ) -> (r: Result<(u32, TokenTransfer), AirdropError>)
        requires
            old(self).wf(),
            old(self).admin is Some && total_allocation > 0 && deadline > now ==> old(self).counter()
                < u32::MAX,
        ensures
            final(self).wf(),
            r == (if old(self).admin is None {
                Err(AirdropError::AdminNotSet)
            } else if total_allocation <= 0 {
                Err(AirdropError::NonPositiveAllocation)
            } else if deadline <= now {
                Err(AirdropError::DeadlineNotInFuture)
            } else {
                Ok(
                    (
                        (old(self).counter() + 1) as u32,
                        TokenTransfer { token, from: admin, to: contract, amount: total_allocation },
                    ),
                )
            }),
            r.is_err() ==> *final(self) == *old(self),
            r matches Ok((id, _)) ==> *final(self) == (Self {
                campaign_counter: Some(id),
                campaigns: final(self).campaigns,
                ..*old(self)
            }) && final(self).campaigns@ == old(self).campaigns@.insert(
                id,
                AirdropCampaign {
                    id,
                    merkle_root,
                    token,
                    total_allocation,
                    claimed_count: 0,
                    claimed_amount: 0,
                    deadline,
                    status: STATUS_ACTIVE,
                },
            ),
    {
        if self.admin.is_none() {
            return Err(AirdropError::AdminNotSet);
        }
        if total_allocation <= 0 {
            return Err(AirdropError::NonPositiveAllocation);
        }
        if deadline <= now {
            return Err(AirdropError::DeadlineNotInFuture);
        }
        let counter: u32 = match self.campaign_counter {
            Some(n) => n,
            None => 0,
        };
        let campaign_id = counter + 1;
        self.campaigns.insert(
            campaign_id,
            AirdropCampaign {
                id: campaign_id,
                merkle_root,
                token,
                total_allocation,
                claimed_count: 0,
                claimed_amount: 0,
                deadline,
                status: STATUS_ACTIVE,
            },
        );
        self.campaign_counter = Some(campaign_id);
        Ok(
            (
                campaign_id,
                TokenTransfer { token, from: admin, to: contract, amount: total_allocation },
            ),
        )
    }

    /// Checks a Merkle proof that (`address`, `amount`) is in campaign
    /// `campaign_id`: the leaf is the hash of the address's strkey (1 to 64
    /// bytes) followed by the amount's 16 big-endian bytes;
    /// each proof element is appended to the running hash and the pair
    /// rehashed; the result must equal the campaign's root.
    pub fn verify_proof(
        &self,
        env: &Env,
        campaign_id: u32,
        address: &Account,
        amount: i128,
        merkle_proof: &Vec<[u8; 32]>,
    ) -> (r: Result<bool, AirdropError>)
        ensures
            r == (if !self.campaigns@.contains_key(campaign_id) {
                Err(AirdropError::CampaignNotFound)
            } else if address.strkey@.len() == 0 || address.strkey@.len() > 64 {
                Err(AirdropError::AddressKeyLength)
            } else {
                Ok(
                    proof_reaches(
                        address.strkey@,
                        amount,
                        merkle_proof@,
                        self.campaigns@[campaign_id].merkle_root,
                    ),
                )
            }),
    {
        let root = match self.campaigns.get(&campaign_id) {
            Some(c) => c.merkle_root,
            None => return Err(AirdropError::CampaignNotFound),
        };
        let address_key = &address.strkey;
        if address_key.len() == 0 || address_key.len() > 64 {
            return Err(AirdropError::AddressKeyLength);
        }
        let amount_be = big_endian(amount as u128, 16);
        let leaf = concat(address_key, &amount_be);
        let mut current = sha256(env, &leaf);
        let mut i: usize = 0;
        while i < merkle_proof.len()
            invariant
                i <= merkle_proof.len(),
                current@ == fold_proof(
                    sha256_of(leaf_input(address_key@, amount)),
                    merkle_proof@.subrange(0, i as int),
                ),
            decreases merkle_proof.len() - i,
        {
            let elem = array_bytes(&merkle_proof[i]);
            let combined = concat(&current, &elem);
            current = sha256(env, &combined);
            proof {
                let next = merkle_proof@.subrange(0, i + 1);
                assert(next.drop_last() =~= merkle_proof@.subrange(0, i as int));
                assert(next.last() == merkle_proof@[i as int]);
            }
            i = i + 1;
        }
        assert(merkle_proof@.subrange(0, merkle_proof.len() as int) =~= merkle_proof@);
        let root_bytes = array_bytes(&root);
        Ok(crate::common::bytes_eq(&current, &root_bytes))
    }

    /// The checks of a claim before the proof, in the contract's order.
    pub open spec fn spec_claim_pre(self, now: u64, id: u32, claimer: AccountId, amount: i128) -> Result<
        (),
        AirdropError,
    > {
        if amount <= 0 {
            Err(AirdropError::NonPositiveAmount)
        } else if !self.campaigns@.contains_key(id) {
            Err(AirdropError::CampaignNotFound)
        } else if now > self.campaigns@[id].deadline {
            Err(AirdropError::CampaignExpired)
        } else if self.campaigns@[id].status != STATUS_ACTIVE {
            Err(AirdropError::CampaignNotActive)
        } else if self.spec_claimed(id, claimer) {
            Err(AirdropError::AlreadyClaimed)
        } else {
            Ok(())
        }
    }

    /// What a claim does once its proof is checked (`proof_valid` tells
    /// whether it holds; `key_ok` whether the address key had a usable
    /// length): the pre-checks, then `AddressKeyLength`, `InvalidProof`,
    /// `InsufficientAllocation`; else the claimer is marked, the campaign's
    /// count and amount grow, and the amount goes to the claimer.
    pub open spec fn spec_claim(
        self,
        new: Self,
        r: Result<TokenTransfer, AirdropError>,
        now: u64,
        contract: AccountId,
        id: u32,
        claimer: AccountId,
        amount: i128,
        key_ok: bool,
        proof_valid: bool,
    ) -> bool {
        match self.spec_claim_pre(now, id, claimer, amount) {
            Err(e) => r == Err::<TokenTransfer, AirdropError>(e) && new == self,
            Ok(_) => {
                let c = self.campaigns@[id];
                if !key_ok {
                    r == Err::<TokenTransfer, AirdropError>(AirdropError::AddressKeyLength) && new
                        == self
                } else if !proof_valid {
                    r == Err::<TokenTransfer, AirdropError>(AirdropError::InvalidProof) && new
                        == self
                } else if c.claimed_amount + amount > c.total_allocation {
                    r == Err::<TokenTransfer, AirdropError>(AirdropError::InsufficientAllocation)
                        && new == self
                } else {
                    &&& r == Ok::<TokenTransfer, AirdropError>(
                        TokenTransfer { token: c.token, from: contract, to: claimer, amount },
                    )
                    &&& new == (Self {
                        claimed: new.claimed,
                        campaigns: new.campaigns,
                        ..self
                    })
                    &&& new.claimed@ == self.claimed@.insert(ckey(id, claimer), true)
                    &&& new.campaigns@ == self.campaigns@.insert(
                        id,
                        AirdropCampaign {
                            claimed_count: (c.claimed_count + 1) as u32,
                            claimed_amount: (c.claimed_amount + amount) as i128,
                            ..c
                        },
                    )
                }
            },
        }
    }

    /// The counters a claim raises stay within their types.
    pub open spec fn claim_fits(self, id: u32, amount: i128) -> bool {
        self.campaigns@.contains_key(id) ==> {
            &&& self.campaigns@[id].claimed_count + 1 <= u32::MAX
            &&& self.campaigns@[id].claimed_amount + amount <= i128::MAX
        }
    }

    /// A claim whose proof and key checks are given: `key_ok` says the
    /// address key had 1 to 64 bytes, `proof_valid` that the proof reaches
    /// the campaign's root.
    pub fn claim_checked(
        &mut self,
        now: u64,
        contract: AccountId,
        campaign_id: u32,
        claimer: AccountId,
        amount: i128,
        key_ok: bool,
        proof_valid: bool,
    ) -> (r: Result<TokenTransfer, AirdropError>)
        requires
            old(self).wf(),
            old(self).claim_fits(campaign_id, amount),
        ensures
            final(self).wf(),
            old(self).spec_claim(
                *final(self),
                r,
                now,
                contract,
                campaign_id,
                claimer,
                amount,
                key_ok,
                proof_valid,
            ),
    {
        if amount <= 0 {
            return Err(AirdropError::NonPositiveAmount);
        }
        let mut campaign = match self.campaigns.get(&campaign_id) {
            Some(c) => *c,
            None => return Err(AirdropError::CampaignNotFound),
        };
        if now > campaign.deadline {
            return Err(AirdropError::CampaignExpired);
        }
        if campaign.status != STATUS_ACTIVE {
            return Err(AirdropError::CampaignNotActive);
        }
        let key = claim_key(campaign_id, claimer);
        if self.claimed.contains_key(&key) {
            return Err(AirdropError::AlreadyClaimed);
        }
        if !key_ok {
            return Err(AirdropError::AddressKeyLength);
        }
        if !proof_valid {
            return Err(AirdropError::InvalidProof);
        }
        if campaign.claimed_amount + amount > campaign.total_allocation {
            return Err(AirdropError::InsufficientAllocation);
        }
        self.claimed.insert(key, true);
        campaign.claimed_count = campaign.claimed_count + 1;
        campaign.claimed_amount = campaign.claimed_amount + amount;
        self.campaigns.insert(campaign_id, campaign);
        Ok(TokenTransfer { token: campaign.token, from: contract, to: claimer, amount })
    }

    /// Claims `amount` of campaign `campaign_id` for `claimer`, with a Merkle
    /// proof over the claimer's own strkey (see `verify_proof`). The claim is
    /// recorded under, and paid to, that same account. Returns the payout to
    /// perform.
    pub fn claim(
        &mut self,
        env: &Env,
        now: u64,
        contract: AccountId,
        campaign_id: u32,
        claimer: &Account,
        amount: i128,
        merkle_proof: &Vec<[u8; 32]>,
    ) -> (r: Result<TokenTransfer, AirdropError>)
        requires
            old(self).wf(),
            old(self).claim_fits(campaign_id, amount),
        ensures
            final(self).wf(),
            old(self).spec_claim(
                *final(self),
                r,
                now,
                contract,
                campaign_id,
                claimer.id,
                amount,
                !(claimer.strkey@.len() == 0 || claimer.strkey@.len() > 64),
                old(self).campaigns@.contains_key(campaign_id) && proof_reaches(
                    claimer.strkey@,
                    amount,
                    merkle_proof@,
                    old(self).campaigns@[campaign_id].merkle_root,
                ),
            ),
    {
        if amount <= 0 {
            return Err(AirdropError::NonPositiveAmount);
        }
        let (deadline, status) = match self.campaigns.get(&campaign_id) {
            Some(c) => (c.deadline, c.status),
            None => return Err(AirdropError::CampaignNotFound),
        };
        if now > deadline {
            return Err(AirdropError::CampaignExpired);
        }
        if status != STATUS_ACTIVE {
            return Err(AirdropError::CampaignNotActive);
        }
        if self.claimed.contains_key(&claim_key(campaign_id, claimer.id)) {
            return Err(AirdropError::AlreadyClaimed);
        }
        let key_ok = !(claimer.strkey.len() == 0 || claimer.strkey.len() > 64);
        let proof_valid = match self.verify_proof(env, campaign_id, claimer, amount, merkle_proof) {
            Ok(v) => v,
            Err(_) => false,
        };
        self.claim_checked(now, contract, campaign_id, claimer.id, amount, key_ok, proof_valid)
    }

    pub fn get_campaign(&self, campaign_id: u32) -> (r: Option<AirdropCampaign>)
        ensures
            r == (if self.campaigns@.contains_key(campaign_id) {
                Some(self.campaigns@[campaign_id])
            } else {
                None
            }),
    {
        match self.campaigns.get(&campaign_id) {
            Some(c) => Some(*c),
            None => None,
        }
    }

    pub fn has_claimed(&self, campaign_id: u32, address: AccountId) -> (r: bool)
        ensures
            r == self.spec_claimed(campaign_id, address),
    {
        self.claimed.contains_key(&claim_key(campaign_id, address))
    }

    /// After the deadline, sends what the campaign has not paid out back to
    /// the admin and marks it expired (the admin must be set; nothing left
    /// is an error). Returns the amount and the transfer to perform.
    pub fn reclaim_unclaimed(&mut self, now: u64, contract: AccountId, admin: AccountId, campaign_id: u32) -> (r:
        Result<(i128, TokenTransfer), AirdropError>)
        requires
            old(self).wf(),
        ensures
            final(self).wf(),
            r == (if old(self).admin is None {
                Err(AirdropError::AdminNotSet)
            } else if !old(self).campaigns@.contains_key(campaign_id) {
                Err(AirdropError::CampaignNotFound)
            } else {
                let c = old(self).campaigns@[campaign_id];
                if now <= c.deadline {
                    Err(AirdropError::CampaignStillActive)
                } else if c.total_allocation - c.claimed_amount == 0 {
                    Err(AirdropError::NothingToReclaim)
                } else {
                    let left = (c.total_allocation - c.claimed_amount) as i128;
                    Ok((left, TokenTransfer { token: c.token, from: contract, to: admin, amount: left }))
                }
            }),
            r.is_err() ==> *final(self) == *old(self),
            r.is_ok() ==> *final(self) == (Self { campaigns: final(self).campaigns, ..*old(self) })
                && final(self).campaigns@ == old(self).campaigns@.insert(
                campaign_id,
                AirdropCampaign { status: STATUS_EXPIRED, ..old(self).campaigns@[campaign_id] },
            ),
    {
        if self.admin.is_none() {
            return Err(AirdropError::AdminNotSet);
        }
        let mut campaign = match self.campaigns.get(&campaign_id) {
            Some(c) => *c,
            None => return Err(AirdropError::CampaignNotFound),
        };
        if now <= campaign.deadline {
            return Err(AirdropError::CampaignStillActive);
        }
        let unclaimed = campaign.total_allocation - campaign.claimed_amount;
        if unclaimed == 0 {
            return Err(AirdropError::NothingToReclaim);
        }
        campaign.status = STATUS_EXPIRED;
        self.campaigns.insert(campaign_id, campaign);
        Ok((unclaimed, TokenTransfer { token: campaign.token, from: contract, to: admin, amount: unclaimed }))
    }
}

/// Each address claims at most once per campaign: after a successful claim,
/// the address is marked as claimed and every later claim by it on that
/// campaign fails, whatever its amount, key or proof: with `AlreadyClaimed`
/// unless the amount is not positive or the deadline has passed.
pub proof fn lemma_claim_once(
    s0: AirdropMerkleClaimContract,
    s1: AirdropMerkleClaimContract,
    s2: AirdropMerkleClaimContract,
    t: TokenTransfer,
    r2: Result<TokenTransfer, AirdropError>,
    now: u64,
    now2: u64,
    contract: AccountId,
    id: u32,
    claimer: AccountId,
    amount: i128,
    amount2: i128,
    key_ok: bool,
    proof_valid: bool,
    key_ok2: bool,
    proof_valid2: bool,
)
    requires
        s0.spec_claim(s1, Ok(t), now, contract, id, claimer, amount, key_ok, proof_valid),
        s1.spec_claim(s2, r2, now2, contract, id, claimer, amount2, key_ok2, proof_valid2),
    ensures
        s1.spec_claimed(id, claimer),
        r2.is_err(),
        s2 == s1,
        amount2 > 0 && now2 <= s1.campaigns@[id].deadline ==> r2 == Err::<TokenTransfer, AirdropError>(
            AirdropError::AlreadyClaimed,
        ),
{
}

} // verus!
