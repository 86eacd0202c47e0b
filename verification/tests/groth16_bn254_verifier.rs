use aegis::addr::Addr;
use aegis::groth16_bn254_verifier::{Error, Groth16Bn254Verifier};
use soroban_sdk::testutils::EnvTestConfig;
use soroban_sdk::Env;

/// A host for the curve operations, writing no test snapshot.
fn host() -> Env {
    let env = Env::new_with_config(EnvTestConfig { capture_snapshot_at_drop: false });
    #[allow(deprecated)]
    env.budget().reset_unlimited();
    env
}

fn addr(s: &str) -> Addr {
    Addr::from_strkey(s.as_bytes().to_vec())
}

fn g1_zero() -> [u8; 64] {
    [0u8; 64]
}

fn g2_zero() -> [u8; 128] {
    [0u8; 128]
}

fn fr_one() -> [u8; 32] {
    let mut b = [0u8; 32];
    b[31] = 1;
    b
}

fn setup() -> Groth16Bn254Verifier {
    let mut v = Groth16Bn254Verifier::new();
    v.init(addr("GADMIN")).unwrap();
    v
}

#[test]
fn init_and_double_init() {
    let mut client = setup();
    let res = client.init(addr("GADMIN2"));
    assert!(matches!(res, Err(Error::AlreadyInitialized)));
}

#[test]
fn register_and_read_vk() {
    let mut client = setup();
    let vk_id: u32 = 0;
    let ic = vec![g1_zero(), g1_zero()];
    let admin = client.register_vk(vk_id, g1_zero(), g2_zero(), g2_zero(), g2_zero(), ic).unwrap();
    assert_eq!(admin.strkey, b"GADMIN".to_vec());
    let fetched = client.vk(vk_id);
    assert!(fetched.is_some());
    assert_eq!(fetched.unwrap().ic.len(), 2);
}

#[test]
fn verify_vk_not_found() {
    let env = host();
    let client = setup();
    let inputs = vec![fr_one()];
    let res = client.verify(&env, 99, g1_zero(), g2_zero(), g1_zero(), &inputs);
    assert!(matches!(res, Err(Error::VkNotFound)));
}

#[test]
fn verify_wrong_input_count() {
    let env = host();
    let mut client = setup();
    let vk_id: u32 = 7;
    let ic = vec![g1_zero(), g1_zero()];
    client.register_vk(vk_id, g1_zero(), g2_zero(), g2_zero(), g2_zero(), ic).unwrap();
    let inputs = vec![fr_one(), fr_one()];
    let res = client.verify(&env, vk_id, g1_zero(), g2_zero(), g1_zero(), &inputs);
    assert!(matches!(res, Err(Error::InvalidInputCount)));
}

#[test]
fn verify_key_without_ic_points() {
    let env = host();
    let mut client = setup();
    let vk_id: u32 = 3;
    client.register_vk(vk_id, g1_zero(), g2_zero(), g2_zero(), g2_zero(), vec![]).unwrap();
    let none: Vec<[u8; 32]> = vec![];
    let res = client.verify(&env, vk_id, g1_zero(), g2_zero(), g1_zero(), &none);
    assert!(matches!(res, Err(Error::InvalidInputCount)));
    let one = vec![fr_one()];
    let res = client.verify(&env, vk_id, g1_zero(), g2_zero(), g1_zero(), &one);
    assert!(matches!(res, Err(Error::InvalidInputCount)));
}

#[test]
fn unauthorized_register() {
    let mut client2 = Groth16Bn254Verifier::new();
    let res = client2.register_vk(0, g1_zero(), g2_zero(), g2_zero(), g2_zero(), vec![g1_zero()]);
    assert!(matches!(res, Err(Error::NotInitialized)));
    let _ = client2.init(addr("GADMIN"));
}

// ---- pairing checks on actual curve points ----

fn be32(hex: &str) -> [u8; 32] {
    let v = u8_pairs(hex);
    let mut out = [0u8; 32];
    out[32 - v.len()..].copy_from_slice(&v);
    out
}

fn u8_pairs(hex: &str) -> Vec<u8> {
    let h = if hex.len() % 2 == 1 { format!("0{}", hex) } else { hex.to_string() };
    (0..h.len()).step_by(2).map(|i| u8::from_str_radix(&h[i..i + 2], 16).unwrap()).collect()
}

fn g1(x: &str, y: &str) -> [u8; 64] {
    let mut out = [0u8; 64];
    out[..32].copy_from_slice(&be32(x));
    out[32..].copy_from_slice(&be32(y));
    out
}

/// The G1 generator (1, 2).
fn g1_gen() -> [u8; 64] {
    g1("1", "2")
}

/// The G1 generator negated: (1, p - 2).
fn g1_gen_neg() -> [u8; 64] {
    g1("1", "30644e72e131a029b85045b68181585d97816a916871ca8d3c208c16d87cfd45")
}

/// The G2 generator, `be(x.c1) || be(x.c0) || be(y.c1) || be(y.c0)`.
fn g2_gen() -> [u8; 128] {
    let mut out = [0u8; 128];
    out[..32].copy_from_slice(&be32("198e9393920d483a7260bfb731fb5d25f1aa493335a9e71297e485b7aef312c2"));
    out[32..64].copy_from_slice(&be32("1800deef121f1e76426a00665e5c4479674322d4f75edadd46debd5cd992f6ed"));
    out[64..96].copy_from_slice(&be32("090689d0585ff075ec9e99ad690c3395bc4b313370b38ef355acdadcd122975b"));
    out[96..].copy_from_slice(&be32("12c85ea5db8c6deb4aab71808dcb408fe3d1e7690c43d37b4ce6cc0166fa7daa"));
    out
}

/// r - 1, the scalar that takes a point to its negation.
fn fr_minus_one() -> [u8; 32] {
    be32("30644e72e131a029b85045b68181585d2833e84879b9709143e1f593f0000000")
}

#[test]
fn verify_accepts_balanced_pairing() {
    // e(-G1, G2) * e(G1, G2) * e(Sigma, G2) * e(O, G2) with
    // Sigma = G1 + (r - 1) * G1 = O: the product is one.
    let env = host();
    let mut v = setup();
    v.register_vk(3, g1_gen(), g2_gen(), g2_gen(), g2_gen(), vec![g1_gen(), g1_gen()]).unwrap();
    let res = v.verify(&env, 3, g1_gen(), g2_gen(), g1_zero(), &vec![fr_minus_one()]);
    assert_eq!(res, Ok(true));
}

#[test]
fn verify_rejects_unbalanced_pairing() {
    // With the scalar one, Sigma = 2 * G1 and the product is not one.
    let env = host();
    let mut v = setup();
    v.register_vk(3, g1_gen(), g2_gen(), g2_gen(), g2_gen(), vec![g1_gen(), g1_gen()]).unwrap();
    let res = v.verify(&env, 3, g1_gen(), g2_gen(), g1_zero(), &vec![fr_one()]);
    assert_eq!(res, Ok(false));
    // A proof whose A is already negated doubles e(G1, G2) instead of cancelling it.
    let res = v.verify(&env, 3, g1_gen_neg(), g2_gen(), g1_zero(), &vec![fr_minus_one()]);
    assert_eq!(res, Ok(false));
}

#[test]
fn verify_with_no_public_inputs() {
    // Sigma = IC[0] = O; e(-G1, G2) * e(G1, G2) = 1.
    let env = host();
    let mut v = setup();
    v.register_vk(4, g1_gen(), g2_gen(), g2_gen(), g2_gen(), vec![g1_zero()]).unwrap();
    assert_eq!(v.verify(&env, 4, g1_gen(), g2_gen(), g1_zero(), &vec![]), Ok(true));
}

#[test]
fn replacing_a_key_takes_effect() {
    let mut v = setup();
    v.register_vk(1, g1_zero(), g2_zero(), g2_zero(), g2_zero(), vec![g1_zero()]).unwrap();
    v.register_vk(1, g1_gen(), g2_zero(), g2_zero(), g2_zero(), vec![g1_zero(), g1_zero(), g1_zero()]).unwrap();
    let k = v.vk(1).unwrap();
    assert_eq!(k.alpha, g1_gen());
    assert_eq!(k.ic.len(), 3);
    assert!(v.vk(2).is_none());
}
