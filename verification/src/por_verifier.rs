//! The proof-of-reserves contract: per token, the issuer's published reserves
//! commitment and required collateralization; a Groth16 proof whose public
//! signals `[totalSupply, reservesCommitment, minCollateralBps]` are bound to
//! that policy refreshes a timestamped attestation that anyone can read.
//!
//! The contract's storage is the state of a `PorVerifier`. The call to the
//! verifier contract happens between `proof_request`, which runs every check
//! that precedes it and names the verifier and key, and `attest`, which takes
//! the verifier's answer.
use vstd::prelude::*;

use crate::addr::{opt_addr, Addr};
use crate::be32::{as_signed128, be32_to_i128, be32_to_u32, be_value};
use crate::groth16::ProofRequest;
use crate::table::{bytes32_eq, Table};

verus! {

/// Errors of the proof-of-reserves contract.
#[derive(Clone, Copy, Debug, PartialEq, Eq, Structural)]
pub enum Error {
    NotInitialized,
    AlreadyInitialized,
    Unauthorized,
    CommitmentMismatch,
    SupplyMismatch,
    ProofInvalid,
    PolicyMismatch,
}

/// The proof-of-reserves policy of one token.
pub struct ReservePolicy {
    pub issuer: Addr,
    pub reserves_commitment: [u8; 32],
    pub min_collateral_bps: u32,
    pub vk_id: u32,
}

/// The abstract value of a policy.
pub struct PolicyView {
    pub issuer: Seq<u8>,
    pub reserves_commitment: Seq<u8>,
    pub min_collateral_bps: u32,
    pub vk_id: u32,
}

impl View for ReservePolicy {
    type V = PolicyView;

    open spec fn view(&self) -> PolicyView {
        PolicyView {
            issuer: self.issuer@,
            reserves_commitment: self.reserves_commitment@,
            min_collateral_bps: self.min_collateral_bps,
            vk_id: self.vk_id,
        }
    }
}

impl ReservePolicy {
    /// A fresh copy of this policy.
    pub fn copy(&self) -> (r: ReservePolicy)
        ensures
            r@ == self@,
    {
        ReservePolicy {
            issuer: self.issuer.copy(),
            reserves_commitment: self.reserves_commitment,
            min_collateral_bps: self.min_collateral_bps,
            vk_id: self.vk_id,
        }
    }
}

/// A verified proof-of-reserves attestation.
pub struct Attestation {
    pub token: Addr,
    pub total_supply: i128,
    pub reserves_commitment: [u8; 32],
    pub min_collateral_bps: u32,
    pub verified_at: u64,
}

/// The abstract value of an attestation.
pub struct AttestationView {
    pub token: Seq<u8>,
    pub total_supply: i128,
    pub reserves_commitment: Seq<u8>,
    pub min_collateral_bps: u32,
    pub verified_at: u64,
}

impl View for Attestation {
    type V = AttestationView;

    open spec fn view(&self) -> AttestationView {
        AttestationView {
            token: self.token@,
            total_supply: self.total_supply,
            reserves_commitment: self.reserves_commitment@,
            min_collateral_bps: self.min_collateral_bps,
            verified_at: self.verified_at,
        }
    }
}

impl Attestation {
    /// A fresh copy of this attestation.
    pub fn copy(&self) -> (r: Attestation)
        ensures
            r@ == self@,
    {
        Attestation {
            token: self.token.copy(),
            total_supply: self.total_supply,
            reserves_commitment: self.reserves_commitment,
            min_collateral_bps: self.min_collateral_bps,
            verified_at: self.verified_at,
        }
    }
}

/// The basis points that a signal carries (its low four bytes).
pub open spec fn signal_u32(s: [u8; 32]) -> nat {
    be_value(s@.subrange(28, 32))
}

/// The supply that a signal carries (its low sixteen bytes, two's complement).
pub open spec fn signal_i128(s: [u8; 32]) -> int {
    as_signed128(be_value(s@.subrange(16, 32)))
}

/// The checks that precede the proof check, in order: a registered policy, a
/// configured verifier, three signals, the commitment signal equal to the
/// registered commitment, the basis-points signal equal to the registered
/// ones, the supply signal equal to the claimed supply. Success names the
/// verifier and the key to check the proof with.
pub open spec fn attest_check(
    policies: Map<Seq<u8>, PolicyView>,
    verifier: Option<Seq<u8>>,
    token: Seq<u8>,
    claimed_supply: i128,
    signals: Seq<[u8; 32]>,
) -> Result<(Seq<u8>, u32), Error> {
    if !policies.contains_key(token) {
        Err(Error::NotInitialized)
    } else if verifier is None {
        Err(Error::NotInitialized)
    } else if signals.len() != 3 {
        Err(Error::PolicyMismatch)
    } else if signals[1]@ != policies[token].reserves_commitment {
        Err(Error::CommitmentMismatch)
    } else if signal_u32(signals[2]) != policies[token].min_collateral_bps {
        Err(Error::PolicyMismatch)
    } else if signal_i128(signals[0]) != claimed_supply {
        Err(Error::SupplyMismatch)
    } else {
        Ok((verifier->Some_0, policies[token].vk_id))
    }
}

/// The contract's storage.
pub struct PorVerifier {
    pub admin: Option<Addr>,
    pub verifier: Option<Addr>,
    pub policies: Table<Addr, ReservePolicy>,
    pub attestations: Table<Addr, Attestation>,
}

impl PorVerifier {
    pub open spec fn admin_view(&self) -> Option<Seq<u8>> {
        opt_addr(self.admin)
    }

    /// The Groth16 verifier contract, once initialized.
    pub open spec fn verifier_view(&self) -> Option<Seq<u8>> {
        opt_addr(self.verifier)
    }

    /// The policies, by token.
    pub open spec fn policies(&self) -> Map<Seq<u8>, PolicyView> {
        self.policies@.map_values(|p: ReservePolicy| p@)
    }

    /// The latest attestation of each token.
    pub open spec fn attestations(&self) -> Map<Seq<u8>, AttestationView> {
        self.attestations@.map_values(|a: Attestation| a@)
    }

    /// A freshly deployed contract.
    pub fn new() -> (r: Self)
        ensures
            r.admin_view() is None,
            r.verifier_view() is None,
            r.policies() == Map::<Seq<u8>, PolicyView>::empty(),
            r.attestations() == Map::<Seq<u8>, AttestationView>::empty(),
    {
        let r = PorVerifier {
            admin: None,
            verifier: None,
            policies: Table::new(),
            attestations: Table::new(),
        };
        assert(r.policies() =~= Map::<Seq<u8>, PolicyView>::empty());
        assert(r.attestations() =~= Map::<Seq<u8>, AttestationView>::empty());
        r
    }

    /// One-time initialization with the admin (who must authorize the call)
    /// and the Groth16 verifier contract.
    pub fn init(&mut self, admin: Addr, verifier: Addr) -> (r: Result<(), Error>)
        ensures
            old(self).admin_view() is Some ==> r == Err::<(), Error>(Error::AlreadyInitialized)
                && final(self).admin_view() == old(self).admin_view() && final(self).verifier_view() == old(self).verifier_view(),
            old(self).admin_view() is None ==> r is Ok && final(self).admin_view() == Some(admin@)
                && final(self).verifier_view() == Some(verifier@),
            final(self).policies() == old(self).policies(),
            final(self).attestations() == old(self).attestations(),
    {
        if self.admin.is_some() {
            return Err(Error::AlreadyInitialized);
        }
        self.admin = Some(admin);
        self.verifier = Some(verifier);
        Ok(())
    }

    /// Registers or replaces the policy of `token` (the issuer must authorize
    /// the call).
    pub fn set_policy(
        &mut self,
        token: Addr,
        issuer: Addr,
        reserves_commitment: [u8; 32],
        min_collateral_bps: u32,
        vk_id: u32,
    ) -> (r: Result<(), Error>)
        ensures
            r is Ok,
            final(self).policies() == old(self).policies().insert(
                token@,
                PolicyView {
                    issuer: issuer@,
                    reserves_commitment: reserves_commitment@,
                    min_collateral_bps,
                    vk_id,
                },
            ),
            final(self).admin_view() == old(self).admin_view(),
            final(self).verifier_view() == old(self).verifier_view(),
            final(self).attestations() == old(self).attestations(),
    {
        let policy = ReservePolicy { issuer, reserves_commitment, min_collateral_bps, vk_id };
        let ghost t = token@;
        let ghost pv = policy@;
        self.policies.insert(token, policy);
        assert(self.policies() =~= old(self).policies().insert(t, pv));
        Ok(())
    }

    /// Every check of an attestation that precedes the proof check; success
    /// names the verifier contract and the key to check the proof with.
    pub fn proof_request(&self, token: &Addr, claimed_supply: i128, signals: &Vec<[u8; 32]>) -> (r:
        Result<ProofRequest, Error>)
        ensures
            match attest_check(
                self.policies(),
                self.verifier_view(),
                token@,
                claimed_supply,
                signals@,
            ) {
                Ok((v, id)) => r matches Ok(req) && req.verifier@ == v && req.vk_id == id,
                Err(e) => r == Err::<ProofRequest, Error>(e),
            },
    {
        let policy = match self.policies.get(token) {
            None => return Err(Error::NotInitialized),
            Some(p) => p,
        };
        let verifier = match &self.verifier {
            None => return Err(Error::NotInitialized),
            Some(v) => v,
        };
        if signals.len() != 3 {
            return Err(Error::PolicyMismatch);
        }
        if !bytes32_eq(&signals[1], &policy.reserves_commitment) {
            return Err(Error::CommitmentMismatch);
        }
        if be32_to_u32(&signals[2]) != policy.min_collateral_bps {
            return Err(Error::PolicyMismatch);
        }
        if be32_to_i128(&signals[0]) != claimed_supply {
            return Err(Error::SupplyMismatch);
        }
        Ok(ProofRequest { verifier: verifier.copy(), vk_id: policy.vk_id })
    }

    /// Attests `token` given the verifier's answer `proof_valid` for the
    /// request of `proof_request`: on success the attestation, stamped with
    /// the ledger time `now`, becomes the token's latest.
    pub fn attest(
        &mut self,
        token: &Addr,
        claimed_supply: i128,
        signals: &Vec<[u8; 32]>,
        proof_valid: bool,
        now: u64,
    ) -> (r: Result<Attestation, Error>)
        ensures
            final(self).admin_view() == old(self).admin_view(),
            final(self).verifier_view() == old(self).verifier_view(),
            final(self).policies() == old(self).policies(),
            match attest_check(
                old(self).policies(),
                old(self).verifier_view(),
                token@,
                claimed_supply,
                signals@,
            ) {
                Err(e) => r == Err::<Attestation, Error>(e) && final(self).attestations() == old(self).attestations(),
                Ok(_) => if !proof_valid {
                    r == Err::<Attestation, Error>(Error::ProofInvalid) && final(self).attestations()
                        == old(self).attestations()
                } else {
                    let p = old(self).policies()[token@];
                    let a = AttestationView {
                        token: token@,
                        total_supply: claimed_supply,
                        reserves_commitment: p.reserves_commitment,
                        min_collateral_bps: p.min_collateral_bps,
                        verified_at: now,
                    };
                    r matches Ok(att) && att@ == a && final(self).attestations() == old(self).attestations().insert(token@, a)
                },
            },
    {
        let _request = self.proof_request(token, claimed_supply, signals)?;
        if !proof_valid {
            return Err(Error::ProofInvalid);
        }
        let policy = match self.policies.get(token) {
            None => return Err(Error::NotInitialized),
            Some(p) => p,
        };
        let attestation = Attestation {
            token: token.copy(),
            total_supply: claimed_supply,
            reserves_commitment: policy.reserves_commitment,
            min_collateral_bps: policy.min_collateral_bps,
            verified_at: now,
        };
        let stored = attestation.copy();
        let ghost a = stored@;
        self.attestations.insert(token.copy(), stored);
        assert(self.attestations() =~= old(self).attestations().insert(token@, a));
        Ok(attestation)
    }

    /// The latest attestation of `token`, if any.
    pub fn last_attestation(&self, token: &Addr) -> (r: Option<Attestation>)
        ensures
            r is Some == self.attestations().contains_key(token@),
            r matches Some(a) ==> a@ == self.attestations()[token@],
    {
        match self.attestations.get(token) {
            Some(a) => Some(a.copy()),
            None => None,
        }
    }

    /// The policy of `token`, if any.
    pub fn policy(&self, token: &Addr) -> (r: Option<ReservePolicy>)
        ensures
            r is Some == self.policies().contains_key(token@),
            r matches Some(p) ==> p@ == self.policies()[token@],
    {
        match self.policies.get(token) {
            Some(p) => Some(p.copy()),
            None => None,
        }
    }
}

/// An attestation passes only for signals bound to the token's policy and
/// to the claimed supply: three signals, the commitment signal equal to the
/// registered commitment, the basis-points signal equal to the registered
/// ones, and the supply signal equal to the claimed supply.
pub proof fn lemma_attestation_binds_signals(
    policies: Map<Seq<u8>, PolicyView>,
    verifier: Option<Seq<u8>>,
    token: Seq<u8>,
    claimed_supply: i128,
    signals: Seq<[u8; 32]>,
)
    requires
        attest_check(policies, verifier, token, claimed_supply, signals) is Ok,
    ensures
        policies.contains_key(token),
        verifier is Some,
        signals.len() == 3,
        signals[1]@ == policies[token].reserves_commitment,
        signal_u32(signals[2]) == policies[token].min_collateral_bps,
        signal_i128(signals[0]) == claimed_supply,
{
}

/// The attestation recorded for a token is the one read back for it, and
/// recording it leaves every other token's attestation as it was.
pub proof fn lemma_attestation_read_back(
    attestations: Map<Seq<u8>, AttestationView>,
    token: Seq<u8>,
    a: AttestationView,
    other: Seq<u8>,
)
    ensures
        attestations.insert(token, a)[token] == a,
        other != token ==> attestations.insert(token, a).contains_key(other)
            == attestations.contains_key(other) && (attestations.contains_key(other)
            ==> attestations.insert(token, a)[other] == attestations[other]),
{
}

/// An attestation request passes the checks exactly when the token has a
/// policy, the verifier is configured, and there are three signals with the
/// commitment signal equal to the registered commitment, the basis points in
/// the low four bytes of the third signal equal to the registered ones, and
/// the supply in the low sixteen bytes of the first signal, read as a
/// two's-complement 128-bit number, equal to the claimed supply. It then names
/// the configured verifier and the policy's key.
pub proof fn lemma_attestation_check_complete(
    policies: Map<Seq<u8>, PolicyView>,
    verifier: Option<Seq<u8>>,
    token: Seq<u8>,
    claimed_supply: i128,
    signals: Seq<[u8; 32]>,
)
    ensures
        (attest_check(policies, verifier, token, claimed_supply, signals) is Ok) <==> {
            &&& policies.contains_key(token)
            &&& verifier is Some
            &&& signals.len() == 3
            &&& signals[1]@ == policies[token].reserves_commitment
            &&& be_value(signals[2]@.subrange(28, 32)) == policies[token].min_collateral_bps
            &&& {
                let v = be_value(signals[0]@.subrange(16, 32));
                claimed_supply == if v < 0x8000_0000_0000_0000_0000_0000_0000_0000 {
                    v as int
                } else {
                    v - 0x1_0000_0000_0000_0000_0000_0000_0000_0000
                }
            }
        },
        attest_check(policies, verifier, token, claimed_supply, signals) is Ok ==> attest_check(
            policies,
            verifier,
            token,
            claimed_supply,
            signals,
        ) == Ok::<(Seq<u8>, u32), Error>((verifier->Some_0, policies[token].vk_id)),
{
}

} // verus!

