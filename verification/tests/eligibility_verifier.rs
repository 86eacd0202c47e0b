use aegis::addr::Addr;
use aegis::eligibility_verifier::{EligibilityVerifier, Error, GatePolicy};

const NOW: u64 = 1_700_000_000;

fn addr(s: &str) -> Addr {
    Addr::from_strkey(s.as_bytes().to_vec())
}

fn b32(fill: u8) -> [u8; 32] {
    [fill; 32]
}

fn be32_u64(v: u64) -> [u8; 32] {
    let mut a = [0u8; 32];
    let mut x = v;
    for i in (24..32).rev() {
        a[i] = (x & 0xff) as u8;
        x >>= 8;
    }
    a
}

fn be32_u32(v: u32) -> [u8; 32] {
    be32_u64(v as u64)
}

struct Ctx {
    contract: EligibilityVerifier,
    verifier: Addr,
    gate_id: [u8; 32],
    pkx: [u8; 32],
    pky: [u8; 32],
    root: [u8; 32],
    action: [u8; 32],
}

fn setup() -> Ctx {
    let admin = addr("GADMIN");
    let verifier = addr("CVERIFIER");
    let mut contract = EligibilityVerifier::new();
    contract.init(admin, verifier.copy()).unwrap();

    let pkx = b32(0xAA);
    let pky = b32(0xBB);
    let root = b32(0xCC);
    let action = b32(0xDD);
    let gate_id = b32(0x01);

    let policy = GatePolicy {
        issuer_pubkey_x: pkx,
        issuer_pubkey_y: pky,
        required_kyc_level: 2,
        require_accredited: true,
        allowed_jurisdiction_root: root,
        action_id: action,
        vk_id: 0,
        max_skew_secs: 3600,
    };
    let must_authorize = contract.set_gate(addr("GADMIN"), gate_id, policy).unwrap();
    assert_eq!(must_authorize.strkey, b"GADMIN".to_vec());

    Ctx { contract, verifier, gate_id, pkx, pky, root, action }
}

fn good_signals(c: &Ctx, nullifier: [u8; 32]) -> Vec<[u8; 32]> {
    vec![
        c.pkx,
        c.pky,
        be32_u32(2),
        be32_u32(1),
        c.root,
        be32_u64(1_700_000_000),
        c.action,
        nullifier,
    ]
}

/// Runs a verification the way the contract does: the checks, then the
/// verifier contract's answer (here `verifier_says`), then the outcome.
fn verify(c: &mut Ctx, signals: &Vec<[u8; 32]>, verifier_says: bool) -> Result<[u8; 32], Error> {
    let request = c.contract.proof_request(&c.gate_id, signals, NOW)?;
    assert_eq!(request.verifier.strkey, c.verifier.strkey);
    assert_eq!(request.vk_id, 0);
    c.contract.verify_eligibility(&c.gate_id, signals, NOW, verifier_says)
}

#[test]
fn verifies_and_consumes_nullifier() {
    let mut c = setup();
    let n = b32(0x42);
    let sigs = good_signals(&c, n);
    let got = verify(&mut c, &sigs, true).unwrap();
    assert_eq!(got, n);
    assert!(c.contract.is_nullifier_used(&c.gate_id, &n));
}

#[test]
fn rejects_double_use() {
    let mut c = setup();
    let n = b32(0x42);
    let sigs = good_signals(&c, n);
    verify(&mut c, &sigs, true).unwrap();
    let again = good_signals(&c, n);
    let res = verify(&mut c, &again, true);
    assert!(res.is_err());
    assert_eq!(res, Err(Error::NullifierUsed));
}

#[test]
fn rejects_policy_mismatch_kyc() {
    let mut c = setup();
    let n = b32(0x43);
    let mut sigs = good_signals(&c, n);
    sigs[2] = be32_u32(1);
    let res = verify(&mut c, &sigs, true);
    assert!(res.is_err());
    assert_eq!(res, Err(Error::PolicyMismatch));
}

#[test]
fn rejects_stale_timestamp() {
    let mut c = setup();
    let n = b32(0x44);
    let mut sigs = good_signals(&c, n);
    sigs[5] = be32_u64(1_600_000_000);
    let res = verify(&mut c, &sigs, true);
    assert!(res.is_err());
    assert_eq!(res, Err(Error::Expired));
}

#[test]
fn rejects_invalid_proof() {
    let mut c = setup();
    let n = b32(0x45);
    let sigs = good_signals(&c, n);
    let res = verify(&mut c, &sigs, false);
    assert!(res.is_err());
    assert_eq!(res, Err(Error::ProofInvalid));
    assert!(!c.contract.is_nullifier_used(&c.gate_id, &n));
}

#[test]
fn rejects_wrong_signal_count() {
    let mut c = setup();
    let mut sigs = good_signals(&c, b32(0x46));
    sigs.pop();
    assert_eq!(verify(&mut c, &sigs, true), Err(Error::SignalCount));
}

#[test]
fn rejects_unknown_gate() {
    let mut c = setup();
    let sigs = good_signals(&c, b32(0x47));
    let other = b32(0x02);
    assert_eq!(c.contract.proof_request(&other, &sigs, NOW).err(), Some(Error::UnknownGate));
    assert_eq!(
        c.contract.verify_eligibility(&other, &sigs, NOW, true),
        Err(Error::UnknownGate)
    );
}

#[test]
fn rejects_accreditation_mismatch() {
    let mut c = setup();
    let mut sigs = good_signals(&c, b32(0x48));
    sigs[3] = be32_u32(0);
    assert_eq!(verify(&mut c, &sigs, true), Err(Error::PolicyMismatch));
}

#[test]
fn rejects_other_action_or_issuer() {
    let mut c = setup();
    let mut sigs = good_signals(&c, b32(0x49));
    sigs[6] = b32(0xEE);
    assert_eq!(verify(&mut c, &sigs, true), Err(Error::PolicyMismatch));
    let mut sigs = good_signals(&c, b32(0x49));
    sigs[0] = b32(0x00);
    assert_eq!(verify(&mut c, &sigs, true), Err(Error::PolicyMismatch));
}

#[test]
fn accepts_timestamp_at_edge_of_skew() {
    let mut c = setup();
    let mut sigs = good_signals(&c, b32(0x50));
    sigs[5] = be32_u64(NOW + 3600);
    assert!(verify(&mut c, &sigs, true).is_ok());
    let mut sigs = good_signals(&c, b32(0x51));
    sigs[5] = be32_u64(NOW - 3600);
    assert!(verify(&mut c, &sigs, true).is_ok());
    let mut sigs = good_signals(&c, b32(0x52));
    sigs[5] = be32_u64(NOW + 3601);
    assert_eq!(verify(&mut c, &sigs, true), Err(Error::Expired));
}

#[test]
fn nullifier_is_per_gate() {
    let mut c = setup();
    let n = b32(0x53);
    let sigs = good_signals(&c, n);
    verify(&mut c, &sigs, true).unwrap();
    assert!(!c.contract.is_nullifier_used(&b32(0x02), &n));
}

#[test]
fn uninitialized_contract_refuses() {
    let mut contract = EligibilityVerifier::new();
    let policy = GatePolicy {
        issuer_pubkey_x: b32(1),
        issuer_pubkey_y: b32(2),
        required_kyc_level: 0,
        require_accredited: false,
        allowed_jurisdiction_root: b32(3),
        action_id: b32(4),
        vk_id: 1,
        max_skew_secs: 0,
    };
    assert_eq!(contract.set_gate(addr("GX"), b32(9), policy).err(), Some(Error::NotInitialized));
    assert!(contract.gate(&b32(9)).is_none());
    assert_eq!(contract.init(addr("GA"), addr("CV")), Ok(()));
    assert_eq!(contract.init(addr("GB"), addr("CW")), Err(Error::AlreadyInitialized));
}

#[test]
fn gate_reads_back_policy() {
    let c = setup();
    let p = c.contract.gate(&c.gate_id).unwrap();
    assert_eq!(p.required_kyc_level, 2);
    assert!(p.require_accredited);
    assert_eq!(p.max_skew_secs, 3600);
    assert_eq!(p.action_id, c.action);
}
