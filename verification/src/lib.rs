//! Verified logic of the Aegis contracts: proof-of-reserves attestations,
//! investor eligibility with single-use nullifiers, the gating contract that composes
//! them, and the BN254 Groth16 verifier they rely on.

pub mod addr;
pub mod be32;
pub mod bn254;
pub mod eligibility_verifier;
pub mod groth16;
pub mod groth16_bn254_verifier;
pub mod por_verifier;
pub mod rwa_gate;
pub mod table;
pub mod wasm_alloc;
