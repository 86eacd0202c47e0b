//! Groth16 proofs as the application contracts receive them, and the request
//! that they make of the BN254 verifier contract.
use vstd::prelude::*;

use crate::addr::Addr;

verus! {

/// A Groth16 proof: `a` and `c` are G1 points (64 bytes, `be(X) || be(Y)`),
/// `b` is a G2 point (128 bytes).
pub struct Groth16Proof {
    pub a: [u8; 64],
    pub b: [u8; 128],
    pub c: [u8; 64],
}

/// Public signals as 32-byte big-endian field elements, in circuit order.
pub type PublicSignals = Vec<[u8; 32]>;

/// A proof check that a contract asks of the verifier contract at `verifier`,
/// with the verification key registered there under `vk_id`.
pub struct ProofRequest {
    pub verifier: Addr,
    pub vk_id: u32,
}

/// Splits a 256-byte proof blob `a || b || c` (64 + 128 + 64 bytes) into a
/// proof.
pub fn proof_from_bytes(blob: &[u8]) -> (p: Groth16Proof)
    requires
        blob@.len() == 256,
    ensures
        p.a@ == blob@.subrange(0, 64),
        p.b@ == blob@.subrange(64, 192),
        p.c@ == blob@.subrange(192, 256),
        p.a@ + p.b@ + p.c@ == blob@,
{
    let mut a = [0u8; 64];
    let mut b = [0u8; 128];
    let mut c = [0u8; 64];
    let mut i: usize = 0;
    while i < 64
        invariant
            i <= 64,
            blob@.len() == 256,
            forall|j: int| 0 <= j < i ==> a@[j] == blob@[j] && c@[j] == blob@[192 + j],
        decreases 64 - i,
    {
        a[i] = blob[i];
        c[i] = blob[192 + i];
        i = i + 1;
    }
    let mut k: usize = 0;
    while k < 128
        invariant
            k <= 128,
            blob@.len() == 256,
            forall|j: int| 0 <= j < k ==> b@[j] == blob@[64 + j],
        decreases 128 - k,
    {
        b[k] = blob[64 + k];
        k = k + 1;
    }
    assert(a@ =~= blob@.subrange(0, 64));
    assert(b@ =~= blob@.subrange(64, 192));
    assert(c@ =~= blob@.subrange(192, 256));
    assert(a@ + b@ + c@ =~= blob@);
    Groth16Proof { a, b, c }
}

} // verus!
