//! The BN254 Groth16 verifier contract: an admin registers one verification
//! key per circuit, and anyone asks whether a proof verifies against one.
//!
//! A proof `(A, B, C)` with public inputs `s` is accepted iff
//! `e(-A, B) * e(alpha, beta) * e(Sigma, gamma) * e(C, delta) == 1`, where
//! `Sigma = IC[0] + s[0] * IC[1] + ... + s[n-1] * IC[n]`.
//!
//! The contract's storage is the state of a `Groth16Bn254Verifier`; the
//! admin's authorization and the events are the host's business.
use soroban_sdk::Env;
use vstd::prelude::*;

use crate::addr::{opt_addr, Addr};
use crate::bn254::{
    bn254_g1_add, bn254_g1_mul, bn254_multi_pairing_check, g1_encoding_valid, g1_negate,
    g1_negation, g1_scaled, g1_sum, g1_y, g2_encoding_valid, lemma_g1_negation_valid,
    multi_pairing_holds, points128, points64, elements32,
};
use crate::table::Table;

verus! {

/// Errors of the verifier contract.
#[derive(Clone, Copy, Debug, PartialEq, Eq, Structural)]
pub enum Error {
    AlreadyInitialized,
    NotInitialized,
    Unauthorized,
    VkNotFound,
    InvalidInputCount,
    ProofInvalid,
}

/// A Groth16 verification key: `alpha` in G1, `beta`, `gamma`, `delta` in
/// G2, and the input commitment key `ic` (one G1 point more than the circuit
/// has public inputs).
pub struct VerificationKey {
    pub alpha: [u8; 64],
    pub beta: [u8; 128],
    pub gamma: [u8; 128],
    pub delta: [u8; 128],
    pub ic: Vec<[u8; 64]>,
}

/// The abstract value of a verification key.
pub struct VkView {
    pub alpha: [u8; 64],
    pub beta: [u8; 128],
    pub gamma: [u8; 128],
    pub delta: [u8; 128],
    pub ic: Seq<[u8; 64]>,
}

impl View for VerificationKey {
    type V = VkView;

    open spec fn view(&self) -> VkView {
        VkView {
            alpha: self.alpha,
            beta: self.beta,
            gamma: self.gamma,
            delta: self.delta,
            ic: self.ic@,
        }
    }
}

/// A fresh copy of a list of G1 points.
fn copy_points(v: &Vec<[u8; 64]>) -> (r: Vec<[u8; 64]>)
    ensures
        r@ == v@,
{
    let mut r: Vec<[u8; 64]> = Vec::new();
    let mut i: usize = 0;
    while i < v.len()
        invariant
            i <= v.len(),
            r@ == v@.subrange(0, i as int),
        decreases v.len() - i,
    {
        r.push(v[i]);
        i = i + 1;
        assert(r@ =~= v@.subrange(0, i as int));
    }
    assert(v@.subrange(0, v.len() as int) =~= v@);
    r
}

impl VerificationKey {
    /// A fresh copy of this key.
    pub fn copy(&self) -> (r: VerificationKey)
        ensures
            r@ == self@,
    {
        VerificationKey {
            alpha: self.alpha,
            beta: self.beta,
            gamma: self.gamma,
            delta: self.delta,
            ic: copy_points(&self.ic),
        }
    }
}

/// `Sigma` after the first `n` public inputs:
/// `IC[0] + inputs[0] * IC[1] + ... + inputs[n-1] * IC[n]`, as the host
/// computes it.
pub open spec fn sigma(ic: Seq<Seq<u8>>, inputs: Seq<Seq<u8>>, n: nat) -> Seq<u8>
    decreases n,
{
    if n == 0 {
        ic[0]
    } else {
        g1_sum(sigma(ic, inputs, (n - 1) as nat), g1_scaled(ic[n as int], inputs[n - 1]))
    }
}

/// The Groth16 pairing equation for a proof against a key:
/// `e(-A, B) * e(alpha, beta) * e(Sigma, gamma) * e(C, delta) == 1`.
pub open spec fn groth16_holds(
    vk: VkView,
    a: Seq<u8>,
    b: Seq<u8>,
    c: Seq<u8>,
    inputs: Seq<Seq<u8>>,
) -> bool {
    multi_pairing_holds(
        seq![g1_negation(a), vk.alpha@, sigma(points64(vk.ic), inputs, inputs.len()), c],
        seq![b, vk.beta@, vk.gamma@, vk.delta@],
    )
}

/// The answer of `verify` for the keys registered in `keys`.
pub open spec fn verify_outcome(
    keys: Map<u32, VkView>,
    vk_id: u32,
    a: Seq<u8>,
    b: Seq<u8>,
    c: Seq<u8>,
    inputs: Seq<Seq<u8>>,
) -> Result<bool, Error> {
    if !keys.contains_key(vk_id) {
        Err(Error::VkNotFound)
    } else if inputs.len() + 1 != keys[vk_id].ic.len() {
        Err(Error::InvalidInputCount)
    } else {
        Ok(groth16_holds(keys[vk_id], a, b, c, inputs))
    }
}

/// The points of a proof and of a key that the host accepts: all encodings
/// valid, and `A` not the point at infinity (its negation would not be a
/// valid encoding).
pub open spec fn curve_points_valid(vk: VkView, a: Seq<u8>, b: Seq<u8>, c: Seq<u8>) -> bool {
    &&& g1_encoding_valid(a)
    &&& g1_y(a) != 0
    &&& g2_encoding_valid(b)
    &&& g1_encoding_valid(c)
    &&& g1_encoding_valid(vk.alpha@)
    &&& g2_encoding_valid(vk.beta@)
    &&& g2_encoding_valid(vk.gamma@)
    &&& g2_encoding_valid(vk.delta@)
    &&& forall|i: int| 0 <= i < vk.ic.len() ==> g1_encoding_valid(#[trigger] vk.ic[i]@)
}

/// The inputs on which `verify` runs to the end: when the key is registered
/// and the input count matches, every point handed to the host is one that
/// it accepts.
pub open spec fn verify_inputs_ok(
    keys: Map<u32, VkView>,
    vk_id: u32,
    a: Seq<u8>,
    b: Seq<u8>,
    c: Seq<u8>,
    n_inputs: nat,
) -> bool {
    keys.contains_key(vk_id) && n_inputs + 1 == keys[vk_id].ic.len() ==> curve_points_valid(
        keys[vk_id],
        a,
        b,
        c,
    )
}

/// The contract's storage: the admin once initialized, and the registered
/// verification keys.
pub struct Groth16Bn254Verifier {
    pub admin: Option<Addr>,
    pub vks: Table<u32, VerificationKey>,
}

impl Groth16Bn254Verifier {
    /// The admin, once the contract is initialized.
    pub open spec fn admin_view(&self) -> Option<Seq<u8>> {
        opt_addr(self.admin)
    }

    /// The registered verification keys.
    pub open spec fn keys(&self) -> Map<u32, VkView> {
        self.vks@.map_values(|k: VerificationKey| k@)
    }

    /// A freshly deployed contract: no admin, no keys.
    pub fn new() -> (r: Self)
        ensures
            r.admin_view() is None,
            r.keys() == Map::<u32, VkView>::empty(),
    {
        let r = Groth16Bn254Verifier { admin: None, vks: Table::new() };
        assert(r.keys() =~= Map::<u32, VkView>::empty());
        r
    }

    /// One-time initialization with `admin` (who must authorize the call).
    pub fn init(&mut self, admin: Addr) -> (r: Result<(), Error>)
        ensures
            old(self).admin_view() is Some ==> r == Err::<(), Error>(Error::AlreadyInitialized)
                && final(self).admin_view() == old(self).admin_view(),
            old(self).admin_view() is None ==> r is Ok && final(self).admin_view() == Some(admin@),
            final(self).keys() == old(self).keys(),
    {
        if self.admin.is_some() {
            return Err(Error::AlreadyInitialized);
        }
        self.admin = Some(admin);
        Ok(())
    }

    /// Registers (or replaces) the verification key `vk_id`. Success returns
    /// the admin, whose authorization the call requires.
    pub fn register_vk(
        &mut self,
        vk_id: u32,
        alpha: [u8; 64],
        beta: [u8; 128],
        gamma: [u8; 128],
        delta: [u8; 128],
        ic: Vec<[u8; 64]>,
    ) -> (r: Result<Addr, Error>)
        ensures
            final(self).admin_view() == old(self).admin_view(),
            old(self).admin_view() is None ==> r == Err::<Addr, Error>(Error::NotInitialized)
                && final(self).keys() == old(self).keys(),
            old(self).admin_view() matches Some(admin) ==> r matches Ok(a) && a@ == admin
                && final(self).keys() == old(self).keys().insert(
                vk_id,
                VkView { alpha, beta, gamma, delta, ic: ic@ },
            ),
    {
        let admin = match &self.admin {
            None => return Err(Error::NotInitialized),
            Some(a) => a.copy(),
        };
        let vk = VerificationKey { alpha, beta, gamma, delta, ic };
        let ghost v = vk@;
        self.vks.insert(vk_id, vk);
        assert(self.keys() =~= old(self).keys().insert(vk_id, v));
        Ok(admin)
    }

    /// The verification key registered under `vk_id`, if any.
    pub fn vk(&self, vk_id: u32) -> (r: Option<VerificationKey>)
        ensures
            r is Some == self.keys().contains_key(vk_id),
            r matches Some(k) ==> k@ == self.keys()[vk_id],
    {
        match self.vks.get(&vk_id) {
            Some(k) => Some(k.copy()),
            None => None,
        }
    }

    /// Whether the proof `(proof_a, proof_b, proof_c)` with `public_inputs`
    /// verifies against the key `vk_id`.
    pub fn verify(
        &self,
        env: &Env,
        vk_id: u32,
        proof_a: [u8; 64],
        proof_b: [u8; 128],
        proof_c: [u8; 64],
        public_inputs: &Vec<[u8; 32]>,
    ) -> (r: Result<bool, Error>)
        requires
            verify_inputs_ok(
                self.keys(),
                vk_id,
                proof_a@,
                proof_b@,
                proof_c@,
                public_inputs.len() as nat,
            ),
        ensures
            r == verify_outcome(
                self.keys(),
                vk_id,
                proof_a@,
                proof_b@,
                proof_c@,
                elements32(public_inputs@),
            ),
    {
        let vk = match self.vks.get(&vk_id) {
            None => return Err(Error::VkNotFound),
            Some(k) => k,
        };
        if vk.ic.len() == 0 || public_inputs.len() != vk.ic.len() - 1 {
            return Err(Error::InvalidInputCount);
        }
        let sig = compute_sigma(env, &vk.ic, public_inputs);
        let neg_a = g1_negate(&proof_a);
        proof {
            lemma_g1_negation_valid(proof_a@);
        }
        let mut g1: Vec<[u8; 64]> = Vec::new();
        g1.push(neg_a);
        g1.push(vk.alpha);
        g1.push(sig);
        g1.push(proof_c);
        let mut g2: Vec<[u8; 128]> = Vec::new();
        g2.push(proof_b);
        g2.push(vk.beta);
        g2.push(vk.gamma);
        g2.push(vk.delta);
        let ghost kv = vk@;
        assert(points64(g1@) =~= seq![
            g1_negation(proof_a@),
            kv.alpha@,
            sigma(points64(kv.ic), elements32(public_inputs@), public_inputs.len() as nat),
            proof_c@,
        ]);
        assert(points128(g2@) =~= seq![proof_b@, kv.beta@, kv.gamma@, kv.delta@]);
        Ok(bn254_multi_pairing_check(env, &g1, &g2))
    }
}

/// A key registered under an id is the one read back under it, and the one
/// that `verify` then checks proofs against; other ids keep their keys.
pub proof fn lemma_registered_key_is_used(
    keys: Map<u32, VkView>,
    vk_id: u32,
    vk: VkView,
    other: u32,
    a: Seq<u8>,
    b: Seq<u8>,
    c: Seq<u8>,
    inputs: Seq<Seq<u8>>,
)
    ensures
        keys.insert(vk_id, vk).contains_key(vk_id),
        keys.insert(vk_id, vk)[vk_id] == vk,
        verify_outcome(keys.insert(vk_id, vk), vk_id, a, b, c, inputs) == if inputs.len() + 1
            != vk.ic.len() {
            Err::<bool, Error>(Error::InvalidInputCount)
        } else {
            Ok::<bool, Error>(groth16_holds(vk, a, b, c, inputs))
        },
        other != vk_id ==> verify_outcome(keys.insert(vk_id, vk), other, a, b, c, inputs)
            == verify_outcome(keys, other, a, b, c, inputs),
{
}

/// For a registered key and a matching input count, `verify` answers whether
/// the four pairings `e(-A, B)`, `e(alpha, beta)`, `e(Sigma, gamma)` and
/// `e(C, delta)` multiply to the identity: `-A` is paired with `B`, alpha
/// with beta, the input commitment `Sigma` with gamma, and `C` with delta.
pub proof fn lemma_verify_pairs_proof_with_key(
    keys: Map<u32, VkView>,
    vk_id: u32,
    a: Seq<u8>,
    b: Seq<u8>,
    c: Seq<u8>,
    inputs: Seq<Seq<u8>>,
)
    requires
        keys.contains_key(vk_id),
        inputs.len() + 1 == keys[vk_id].ic.len(),
    ensures
        verify_outcome(keys, vk_id, a, b, c, inputs) == Ok::<bool, Error>(
            multi_pairing_holds(
                seq![
                    g1_negation(a),
                    keys[vk_id].alpha@,
                    sigma(points64(keys[vk_id].ic), inputs, inputs.len()),
                    c,
                ],
                seq![b, keys[vk_id].beta@, keys[vk_id].gamma@, keys[vk_id].delta@],
            ),
        ),
{
}

/// Two input lists that agree on their first `k` entries give the same
/// `Sigma` over those entries: `Sigma` over the first `k` inputs reads no
/// other input.
pub proof fn lemma_sigma_reads_prefix(ic: Seq<Seq<u8>>, x: Seq<Seq<u8>>, y: Seq<Seq<u8>>, k: nat)
    requires
        k <= x.len(),
        k <= y.len(),
        forall|i: int| 0 <= i < k ==> x[i] == y[i],
    ensures
        sigma(ic, x, k) == sigma(ic, y, k),
    decreases k,
{
    if k > 0 {
        lemma_sigma_reads_prefix(ic, x, y, (k - 1) as nat);
        assert(x[k - 1] == y[k - 1]);
    }
}

/// `Sigma` with no inputs is `IC[0]`, and appending an input `s` as the
/// `(n+1)`-th adds `s * IC[n+1]` to `Sigma`: the `i`-th input is always
/// multiplied by `IC[i+1]`. In particular `Sigma` over all inputs depends on
/// them only through these terms, and `Sigma` over a prefix is that of the
/// prefix alone.
pub proof fn lemma_sigma_appends_terms(ic: Seq<Seq<u8>>, inputs: Seq<Seq<u8>>, s: Seq<u8>, k: nat)
    requires
        k <= inputs.len(),
    ensures
        sigma(ic, inputs, 0) == ic[0],
        sigma(ic, inputs.push(s), inputs.len() + 1) == g1_sum(
            sigma(ic, inputs, inputs.len()),
            g1_scaled(ic[inputs.len() + 1int], s),
        ),
        sigma(ic, inputs, k) == sigma(ic, inputs.subrange(0, k as int), k),
        sigma(ic, seq![s], 1) == g1_sum(ic[0], g1_scaled(ic[1], s)),
{
    let n = inputs.len();
    let p = inputs.push(s);
    assert(sigma(ic, p, n) == sigma(ic, inputs, n)) by {
        assert forall|i: int| 0 <= i < n implies p[i] == inputs[i] by {}
        lemma_sigma_reads_prefix(ic, p, inputs, n);
    }
    assert(p[n as int] == s);
    let pre = inputs.subrange(0, k as int);
    assert(sigma(ic, inputs, k) == sigma(ic, pre, k)) by {
        assert forall|i: int| 0 <= i < k implies inputs[i] == pre[i] by {}
        lemma_sigma_reads_prefix(ic, inputs, pre, k);
    }
    let one = seq![s];
    assert(one[0] == s);
    assert(sigma(ic, one, 0) == ic[0]);
}

/// `verify` fails only for a missing key or a wrong input count: an
/// invalid proof is `Ok(false)`, and a key with no IC points refuses every
/// input count.
pub proof fn lemma_verify_errors(
    keys: Map<u32, VkView>,
    vk_id: u32,
    a: Seq<u8>,
    b: Seq<u8>,
    c: Seq<u8>,
    inputs: Seq<Seq<u8>>,
)
    ensures
        (verify_outcome(keys, vk_id, a, b, c, inputs) == Err::<bool, Error>(Error::VkNotFound))
            <==> !keys.contains_key(vk_id),
        (verify_outcome(keys, vk_id, a, b, c, inputs) == Err::<bool, Error>(
            Error::InvalidInputCount,
        )) <==> (keys.contains_key(vk_id) && inputs.len() + 1 != keys[vk_id].ic.len()),
        verify_outcome(keys, vk_id, a, b, c, inputs) is Err ==> verify_outcome(
            keys,
            vk_id,
            a,
            b,
            c,
            inputs,
        ) == Err::<bool, Error>(Error::VkNotFound) || verify_outcome(keys, vk_id, a, b, c, inputs)
            == Err::<bool, Error>(Error::InvalidInputCount),
        keys.contains_key(vk_id) && keys[vk_id].ic.len() == 0 ==> verify_outcome(
            keys,
            vk_id,
            a,
            b,
            c,
            inputs,
        ) == Err::<bool, Error>(Error::InvalidInputCount),
{
}

/// `Sigma = IC[0] + s[0] * IC[1] + ... + s[n-1] * IC[n]` with the host's
/// G1 operations.
fn compute_sigma(env: &Env, ic: &Vec<[u8; 64]>, scalars: &Vec<[u8; 32]>) -> (r: [u8; 64])
    requires
        ic.len() >= scalars.len() + 1,
        forall|i: int| 0 <= i < ic.len() ==> g1_encoding_valid(#[trigger] ic@[i]@),
    ensures
        r@ == sigma(points64(ic@), elements32(scalars@), scalars.len() as nat),
        g1_encoding_valid(r@),
{
    let mut acc: [u8; 64] = ic[0];
    let mut i: usize = 0;
    while i < scalars.len()
        invariant
            i <= scalars.len(),
            ic.len() >= scalars.len() + 1,
            forall|j: int| 0 <= j < ic.len() ==> g1_encoding_valid(#[trigger] ic@[j]@),
            acc@ == sigma(points64(ic@), elements32(scalars@), i as nat),
            g1_encoding_valid(acc@),
        decreases scalars.len() - i,
    {
        let ic_i = ic[i + 1];
        let s = scalars[i];
        assert(g1_encoding_valid(ic@[i + 1]@));
        let term = bn254_g1_mul(env, &ic_i, &s);
        acc = bn254_g1_add(env, &acc, &term);
        i = i + 1;
    }
    acc
}

} // verus!
