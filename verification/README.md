# aegis

Verified logic of four Soroban contracts that make a tokenized real-world
asset transferable only under two zero-knowledge proofs: a proof of reserves
and a proof of investor eligibility.

- `src/` — the library, verified with Verus:
  - `be32`: big-endian field elements as numbers; the public-signal decoders
    and 256-bit subtraction.
  - `bn254`: the point encodings that the host accepts, G1 negation, and the
    host's BN254 operations behind trusted wrappers.
  - `groth16_bn254_verifier`, `por_verifier`, `eligibility_verifier`,
    `rwa_gate`: each contract's storage as a state type, its entry points as
    methods with contracts, and the laws that tie them together.
  - `groth16`, `addr`, `table`: proofs, addresses, key-value storage.
  - `wasm_alloc`: the bump allocator of the WebAssembly builds.
- `app/` — the Soroban contracts themselves: entry points, ledger storage,
  authorization, events and calls between contracts, all deciding through
  the library.
- `tests/` — tests of the library on concrete values, real BN254 points
  included.
