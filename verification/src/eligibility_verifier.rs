//! The investor eligibility contract: a Groth16 proof that a holder has an
//! issuer-signed credential satisfying a gate's policy, revealing only a
//! nullifier. Every policy-controlled public signal is bound to that gate's
//! policy, the proof's timestamp must lie within the allowed skew of ledger
//! time, and a nullifier is consumed on success so that one credential
//! passes a gate once.
//!
//! Public signals, in circuit order: `[0]` issuer key X, `[1]` issuer key Y,
//! `[2]` required KYC level, `[3]` accreditation required, `[4]` allowed
//! jurisdiction root, `[5]` timestamp, `[6]` action id, `[7]` nullifier.
//!
//! The contract's storage is the state of an `EligibilityVerifier`. The call
//! to the verifier contract happens between `proof_request`, which runs every
//! check that precedes it, and `verify_eligibility`, which takes the answer.
use vstd::prelude::*;

use crate::addr::{opt_addr, Addr};
use crate::be32::{be32_to_u32, be32_to_u64, be_value, lemma_be_value_bound, pow256};
use crate::groth16::ProofRequest;
use crate::table::{bytes32_eq, KeyEq, Table};

verus! {

/// Errors of the eligibility contract.
#[derive(Clone, Copy, Debug, PartialEq, Eq, Structural)]
pub enum Error {
    NotInitialized,
    AlreadyInitialized,
    UnknownGate,
    PolicyMismatch,
    ProofInvalid,
    NullifierUsed,
    Expired,
    SignalCount,
}

/// A gate's policy: the public signals of an accepted proof must equal it.
#[derive(Clone, Copy)]
pub struct GatePolicy {
    pub issuer_pubkey_x: [u8; 32],
    pub issuer_pubkey_y: [u8; 32],
    pub required_kyc_level: u32,
    pub require_accredited: bool,
    pub allowed_jurisdiction_root: [u8; 32],
    pub action_id: [u8; 32],
    pub vk_id: u32,
    /// Allowed distance between the proof's timestamp and ledger time.
    pub max_skew_secs: u64,
}

/// A nullifier consumed at a gate.
pub struct NullifierKey {
    pub gate_id: [u8; 32],
    pub nullifier: [u8; 32],
}

impl View for NullifierKey {
    type V = (Seq<u8>, Seq<u8>);

    open spec fn view(&self) -> (Seq<u8>, Seq<u8>) {
        (self.gate_id@, self.nullifier@)
    }
}

impl KeyEq for NullifierKey {
    fn key_eq(&self, other: &NullifierKey) -> (r: bool) {
        bytes32_eq(&self.gate_id, &other.gate_id) && bytes32_eq(&self.nullifier, &other.nullifier)
    }
}

/// The number that a signal's low four bytes carry.
pub open spec fn signal_u32(s: [u8; 32]) -> nat {
    be_value(s@.subrange(28, 32))
}

/// The number that a signal's low eight bytes carry.
pub open spec fn signal_u64(s: [u8; 32]) -> nat {
    be_value(s@.subrange(24, 32))
}

/// Whether `ts` lies within `skew` seconds of `now`, the bounds saturating
/// at the ends of the `u64` range.
pub open spec fn within_skew(ts: nat, now: u64, skew: u64) -> bool {
    let lo: int = if now >= skew {
        now - skew
    } else {
        0
    };
    let hi: int = if now + skew <= u64::MAX {
        now + skew
    } else {
        u64::MAX as int
    };
    lo <= ts <= hi
}

/// The policy-bound signals equal the policy.
pub open spec fn signals_match_policy(p: GatePolicy, signals: Seq<[u8; 32]>) -> bool {
    &&& signals[0]@ == p.issuer_pubkey_x@
    &&& signals[1]@ == p.issuer_pubkey_y@
    &&& signal_u32(signals[2]) == p.required_kyc_level
    &&& (signal_u32(signals[3]) != 0) == p.require_accredited
    &&& signals[4]@ == p.allowed_jurisdiction_root@
    &&& signals[6]@ == p.action_id@
}

/// The checks that precede the proof check, in order: eight signals, a
/// registered gate, a configured verifier, each policy-bound signal equal to
/// the policy, the timestamp within the skew of `now`, the nullifier unused
/// at this gate. Success names the verifier and the key to check with.
pub open spec fn eligibility_check(
    gates: Map<Seq<u8>, GatePolicy>,
    verifier: Option<Seq<u8>>,
    used: Set<(Seq<u8>, Seq<u8>)>,
    gate_id: Seq<u8>,
    signals: Seq<[u8; 32]>,
    now: u64,
) -> Result<(Seq<u8>, u32), Error> {
    if signals.len() != 8 {
        Err(Error::SignalCount)
    } else if !gates.contains_key(gate_id) {
        Err(Error::UnknownGate)
    } else if verifier is None {
        Err(Error::NotInitialized)
    } else {
        let p = gates[gate_id];
        if signals[0]@ != p.issuer_pubkey_x@ {
            Err(Error::PolicyMismatch)
        } else if signals[1]@ != p.issuer_pubkey_y@ {
            Err(Error::PolicyMismatch)
        } else if signal_u32(signals[2]) != p.required_kyc_level {
            Err(Error::PolicyMismatch)
        } else if (signal_u32(signals[3]) != 0) != p.require_accredited {
            Err(Error::PolicyMismatch)
        } else if signals[4]@ != p.allowed_jurisdiction_root@ {
            Err(Error::PolicyMismatch)
        } else if signals[6]@ != p.action_id@ {
            Err(Error::PolicyMismatch)
        } else if !within_skew(signal_u64(signals[5]), now, p.max_skew_secs) {
            Err(Error::Expired)
        } else if used.contains((gate_id, signals[7]@)) {
            Err(Error::NullifierUsed)
        } else {
            Ok((verifier->Some_0, p.vk_id))
        }
    }
}

/// The contract's storage.
pub struct EligibilityVerifier {
    pub admin: Option<Addr>,
    pub verifier: Option<Addr>,
    pub gates: Table<[u8; 32], GatePolicy>,
    pub nullifiers: Table<NullifierKey, bool>,
}

impl EligibilityVerifier {
    pub open spec fn admin_view(&self) -> Option<Seq<u8>> {
        opt_addr(self.admin)
    }

    /// The Groth16 verifier contract, once initialized.
    pub open spec fn verifier_view(&self) -> Option<Seq<u8>> {
        opt_addr(self.verifier)
    }

    /// Policies, by gate id.
    pub open spec fn gates(&self) -> Map<Seq<u8>, GatePolicy> {
        self.gates@
    }

    /// The consumed `(gate id, nullifier)` pairs.
    pub open spec fn used(&self) -> Set<(Seq<u8>, Seq<u8>)> {
        self.nullifiers@.dom()
    }

    /// A freshly deployed contract.
    pub fn new() -> (r: Self)
        ensures
            r.admin_view() is None,
            r.verifier_view() is None,
            r.gates() == Map::<Seq<u8>, GatePolicy>::empty(),
            r.used() == Set::<(Seq<u8>, Seq<u8>)>::empty(),
    {
        let r = EligibilityVerifier {
            admin: None,
            verifier: None,
            gates: Table::new(),
            nullifiers: Table::new(),
        };
        assert(r.used() =~= Set::<(Seq<u8>, Seq<u8>)>::empty());
        r
    }

    /// One-time initialization with the admin (who must authorize the call)
    /// and the Groth16 verifier contract.
    pub fn init(&mut self, admin: Addr, verifier: Addr) -> (r: Result<(), Error>)
        ensures
            old(self).admin_view() is Some ==> r == Err::<(), Error>(Error::AlreadyInitialized)
                && final(self).admin_view() == old(self).admin_view() && final(self).verifier_view()
                == old(self).verifier_view(),
            old(self).admin_view() is None ==> r is Ok && final(self).admin_view() == Some(admin@)
                && final(self).verifier_view() == Some(verifier@),
            final(self).gates() == old(self).gates(),
            final(self).used() == old(self).used(),
    {
        if self.admin.is_some() {
            return Err(Error::AlreadyInitialized);
        }
        self.admin = Some(admin);
        self.verifier = Some(verifier);
        Ok(())
    }

    /// Registers or replaces the policy of gate `gate_id`. Success returns the
    /// stored admin, whose authorization the call requires; the `admin`
    /// argument names the caller and is not otherwise used.
    pub fn set_gate(&mut self, admin: Addr, gate_id: [u8; 32], policy: GatePolicy) -> (r: Result<
        Addr,
        Error,
    >)
        ensures
            final(self).admin_view() == old(self).admin_view(),
            final(self).verifier_view() == old(self).verifier_view(),
            final(self).used() == old(self).used(),
            old(self).admin_view() is None ==> r == Err::<Addr, Error>(Error::NotInitialized)
                && final(self).gates() == old(self).gates(),
            old(self).admin_view() matches Some(a) ==> r matches Ok(x) && x@ == a
                && final(self).gates() == old(self).gates().insert(gate_id@, policy),
    {
        let stored = match &self.admin {
            None => return Err(Error::NotInitialized),
            Some(a) => a.copy(),
        };
        let _ = admin;
        self.gates.insert(gate_id, policy);
        Ok(stored)
    }

    /// Every check of an eligibility proof that precedes the proof check;
    /// success names the verifier contract and the key to check it with.
    pub fn proof_request(&self, gate_id: &[u8; 32], signals: &Vec<[u8; 32]>, now: u64) -> (r:
        Result<ProofRequest, Error>)
        ensures
            match eligibility_check(
                self.gates(),
                self.verifier_view(),
                self.used(),
                gate_id@,
                signals@,
                now,
            ) {
                Ok((v, id)) => r matches Ok(req) && req.verifier@ == v && req.vk_id == id,
                Err(e) => r == Err::<ProofRequest, Error>(e),
            },
    {
        if signals.len() != 8 {
            return Err(Error::SignalCount);
        }
        let policy = match self.gates.get(gate_id) {
            None => return Err(Error::UnknownGate),
            Some(p) => *p,
        };
        let verifier = match &self.verifier {
            None => return Err(Error::NotInitialized),
            Some(v) => v,
        };
        if !bytes32_eq(&signals[0], &policy.issuer_pubkey_x) {
            return Err(Error::PolicyMismatch);
        }
        if !bytes32_eq(&signals[1], &policy.issuer_pubkey_y) {
            return Err(Error::PolicyMismatch);
        }
        if be32_to_u32(&signals[2]) != policy.required_kyc_level {
            return Err(Error::PolicyMismatch);
        }
        let req_acc = be32_to_u32(&signals[3]) != 0;
        if req_acc != policy.require_accredited {
            return Err(Error::PolicyMismatch);
        }
        if !bytes32_eq(&signals[4], &policy.allowed_jurisdiction_root) {
            return Err(Error::PolicyMismatch);
        }
        if !bytes32_eq(&signals[6], &policy.action_id) {
            return Err(Error::PolicyMismatch);
        }
        let proof_ts = be32_to_u64(&signals[5]);
        let lo = now.saturating_sub(policy.max_skew_secs);
        let hi = now.saturating_add(policy.max_skew_secs);
        if proof_ts < lo || proof_ts > hi {
            return Err(Error::Expired);
        }
        let key = NullifierKey { gate_id: *gate_id, nullifier: signals[7] };
        if self.nullifiers.contains_key(&key) {
            return Err(Error::NullifierUsed);
        }
        Ok(ProofRequest { verifier: verifier.copy(), vk_id: policy.vk_id })
    }

    /// Verifies eligibility at gate `gate_id` given the verifier's answer
    /// `proof_valid` for the request of `proof_request`; on success the
    /// nullifier is consumed and returned.
    pub fn verify_eligibility(
        &mut self,
        gate_id: &[u8; 32],
        signals: &Vec<[u8; 32]>,
        now: u64,
        proof_valid: bool,
    ) -> (r: Result<[u8; 32], Error>)
        ensures
            final(self).admin_view() == old(self).admin_view(),
            final(self).verifier_view() == old(self).verifier_view(),
            final(self).gates() == old(self).gates(),
            match eligibility_check(
                old(self).gates(),
                old(self).verifier_view(),
                old(self).used(),
                gate_id@,
                signals@,
                now,
            ) {
                Err(e) => r == Err::<[u8; 32], Error>(e) && final(self).used() == old(self).used(),
                Ok(_) => if !proof_valid {
                    r == Err::<[u8; 32], Error>(Error::ProofInvalid) && final(self).used() == old(
                    self).used()
                } else {
                    r == Ok::<[u8; 32], Error>(signals@[7]) && final(self).used() == old(
                    self).used().insert((gate_id@, signals@[7]@))
                },
            },
    {
        let _request = self.proof_request(gate_id, signals, now)?;
        if !proof_valid {
            return Err(Error::ProofInvalid);
        }
        let nullifier = signals[7];
        let ghost k = (gate_id@, nullifier@);
        self.nullifiers.insert(NullifierKey { gate_id: *gate_id, nullifier }, true);
        assert(self.used() =~= old(self).used().insert(k));
        Ok(nullifier)
    }

    /// Whether `nullifier` has been consumed at gate `gate_id`.
    pub fn is_nullifier_used(&self, gate_id: &[u8; 32], nullifier: &[u8; 32]) -> (r: bool)
        ensures
            r == self.used().contains((gate_id@, nullifier@)),
    {
        self.nullifiers.contains_key(&NullifierKey { gate_id: *gate_id, nullifier: *nullifier })
    }

    /// The policy of gate `gate_id`, if any.
    pub fn gate(&self, gate_id: &[u8; 32]) -> (r: Option<GatePolicy>)
        ensures
            r is Some == self.gates().contains_key(gate_id@),
            r matches Some(p) ==> p == self.gates()[gate_id@],
    {
        match self.gates.get(gate_id) {
            Some(p) => Some(*p),
            None => None,
        }
    }
}

/// A proof accepted at a gate carries exactly that gate's policy in its bound
/// signals, a timestamp within the allowed skew of ledger time, and a
/// nullifier not yet consumed there.
pub proof fn lemma_accepted_signals_are_bound(
    gates: Map<Seq<u8>, GatePolicy>,
    verifier: Option<Seq<u8>>,
    used: Set<(Seq<u8>, Seq<u8>)>,
    gate_id: Seq<u8>,
    signals: Seq<[u8; 32]>,
    now: u64,
)
    requires
        eligibility_check(gates, verifier, used, gate_id, signals, now) is Ok,
    ensures
        signals.len() == 8,
        gates.contains_key(gate_id),
        signals_match_policy(gates[gate_id], signals),
        within_skew(signal_u64(signals[5]), now, gates[gate_id].max_skew_secs),
        !used.contains((gate_id, signals[7]@)),
{
}

/// Once a nullifier is consumed at a gate, no proof carrying it passes that
/// gate again, whatever its other signals and whenever it comes.
pub proof fn lemma_consumed_nullifier_never_passes(
    gates: Map<Seq<u8>, GatePolicy>,
    verifier: Option<Seq<u8>>,
    used: Set<(Seq<u8>, Seq<u8>)>,
    gate_id: Seq<u8>,
    signals: Seq<[u8; 32]>,
    now: u64,
)
    requires
        signals.len() == 8,
        used.contains((gate_id, signals[7]@)),
    ensures
        eligibility_check(gates, verifier, used, gate_id, signals, now) is Err,
{
}

/// A nullifier that passes a gate once is refused there afterwards: after a
/// successful verification consumed it, any later proof with the same
/// nullifier at the same gate fails.
pub proof fn lemma_nullifier_single_use(
    gates: Map<Seq<u8>, GatePolicy>,
    verifier: Option<Seq<u8>>,
    used: Set<(Seq<u8>, Seq<u8>)>,
    gate_id: Seq<u8>,
    first: Seq<[u8; 32]>,
    now: u64,
    second: Seq<[u8; 32]>,
    later: u64,
)
    requires
        eligibility_check(gates, verifier, used, gate_id, first, now) is Ok,
        second.len() == 8,
        second[7]@ == first[7]@,
    ensures
        eligibility_check(
            gates,
            verifier,
            used.insert((gate_id, first[7]@)),
            gate_id,
            second,
            later,
        ) is Err,
{
    lemma_consumed_nullifier_never_passes(
        gates,
        verifier,
        used.insert((gate_id, first[7]@)),
        gate_id,
        second,
        later,
    );
}

/// Consuming a nullifier at one gate leaves every other gate's nullifiers as
/// they were.
pub proof fn lemma_nullifiers_are_per_gate(
    used: Set<(Seq<u8>, Seq<u8>)>,
    gate_id: Seq<u8>,
    nullifier: Seq<u8>,
    other_gate: Seq<u8>,
    other_nullifier: Seq<u8>,
)
    requires
        other_gate != gate_id,
    ensures
        used.insert((gate_id, nullifier)).contains((other_gate, other_nullifier)) == used.contains(
            (other_gate, other_nullifier),
        ),
{
}

/// A gate policy registered under an id is the one read back under it and
/// the one that proofs at that gate are bound to.
pub proof fn lemma_gate_read_back(
    gates: Map<Seq<u8>, GatePolicy>,
    gate_id: Seq<u8>,
    policy: GatePolicy,
)
    ensures
        gates.insert(gate_id, policy).contains_key(gate_id),
        gates.insert(gate_id, policy)[gate_id] == policy,
{
}

/// An eligibility request passes the checks exactly when there are eight
/// signals, a policy is registered under `gate_id`, the verifier is
/// configured, the issuer key, jurisdiction root and action id signals equal
/// that policy's, the KYC level in the low four bytes of its signal equals the
/// policy's level, the low four bytes of the accreditation signal are non-zero
/// exactly when the policy requires accreditation, the timestamp in the low
/// eight bytes of its signal lies within `max_skew_secs` of ledger time on
/// either side, and the nullifier is unused under `gate_id`. It then names the
/// configured verifier and the policy's key.
pub proof fn lemma_eligibility_check_complete(
    gates: Map<Seq<u8>, GatePolicy>,
    verifier: Option<Seq<u8>>,
    used: Set<(Seq<u8>, Seq<u8>)>,
    gate_id: Seq<u8>,
    signals: Seq<[u8; 32]>,
    now: u64,
)
    ensures
        (eligibility_check(gates, verifier, used, gate_id, signals, now) is Ok) <==> {
            &&& signals.len() == 8
            &&& gates.contains_key(gate_id)
            &&& verifier is Some
            &&& signals[0]@ == gates[gate_id].issuer_pubkey_x@
            &&& signals[1]@ == gates[gate_id].issuer_pubkey_y@
            &&& be_value(signals[2]@.subrange(28, 32)) == gates[gate_id].required_kyc_level
            &&& (be_value(signals[3]@.subrange(28, 32)) != 0) == gates[gate_id].require_accredited
            &&& signals[4]@ == gates[gate_id].allowed_jurisdiction_root@
            &&& signals[6]@ == gates[gate_id].action_id@
            &&& now <= be_value(signals[5]@.subrange(24, 32)) + gates[gate_id].max_skew_secs
            &&& be_value(signals[5]@.subrange(24, 32)) <= now + gates[gate_id].max_skew_secs
            &&& !used.contains((gate_id, signals[7]@))
        },
        eligibility_check(gates, verifier, used, gate_id, signals, now) is Ok
            ==> eligibility_check(gates, verifier, used, gate_id, signals, now) == Ok::<
            (Seq<u8>, u32),
            Error,
        >((verifier->Some_0, gates[gate_id].vk_id)),
{
    if signals.len() == 8 {
        lemma_be_value_bound(signals[5]@.subrange(24, 32));
        assert(pow256(8) == 0x1_0000_0000_0000_0000nat) by {
            reveal_with_fuel(pow256, 9);
        }
    }
}

} // verus!

