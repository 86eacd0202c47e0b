use aegis::addr::Addr;
use aegis::por_verifier::{Attestation, Error, PorVerifier};

fn addr(s: &str) -> Addr {
    Addr::from_strkey(s.as_bytes().to_vec())
}

fn be32_from_u128(v: u128) -> [u8; 32] {
    let mut arr = [0u8; 32];
    let mut x = v;
    for i in (16..32).rev() {
        arr[i] = (x & 0xff) as u8;
        x >>= 8;
    }
    arr
}

const NOW: u64 = 1_700_000_000;

fn setup() -> (PorVerifier, Addr, Addr, Addr) {
    let admin = addr("GADMIN");
    let issuer = addr("GISSUER");
    let token = addr("CTOKEN");
    let verifier_id = addr("CVERIFIER");
    let mut client = PorVerifier::new();
    client.init(admin, verifier_id.copy()).unwrap();
    (client, issuer, token, verifier_id)
}

/// Runs an attestation the way the contract does: the checks, the verifier
/// contract's answer (here `verifier_says`), then the outcome.
fn attest(
    client: &mut PorVerifier,
    token: &Addr,
    supply: i128,
    signals: &Vec<[u8; 32]>,
    verifier_says: bool,
) -> Result<Attestation, Error> {
    client.proof_request(token, supply, signals)?;
    client.attest(token, supply, signals, verifier_says, NOW)
}

#[test]
fn attests_when_everything_matches() {
    let (mut client, issuer, token, verifier_id) = setup();
    let commitment = [7u8; 32];
    let bps = 10000u32;
    let supply = 9_000_000i128;
    client.set_policy(token.copy(), issuer, commitment, bps, 0).unwrap();

    let signals: Vec<[u8; 32]> = vec![be32_from_u128(supply as u128), commitment, be32_from_u128(bps as u128)];

    let request = client.proof_request(&token, supply, &signals).ok().unwrap();
    assert_eq!(request.verifier.strkey, verifier_id.strkey);
    assert_eq!(request.vk_id, 0);

    let att = attest(&mut client, &token, supply, &signals, true).ok().unwrap();
    assert_eq!(att.total_supply, supply);
    assert_eq!(att.min_collateral_bps, bps);
    assert_eq!(att.verified_at, NOW);

    let last = client.last_attestation(&token).unwrap();
    assert_eq!(last.total_supply, supply);
}

#[test]
fn rejects_commitment_mismatch() {
    let (mut client, issuer, token, _v) = setup();
    let commitment = [7u8; 32];
    client.set_policy(token.copy(), issuer, commitment, 10000, 0).unwrap();
    let wrong = [9u8; 32];
    let signals: Vec<[u8; 32]> = vec![be32_from_u128(9_000_000), wrong, be32_from_u128(10000)];
    let res = attest(&mut client, &token, 9_000_000, &signals, true);
    assert!(res.is_err());
    assert!(matches!(res, Err(Error::CommitmentMismatch)));
}

#[test]
fn rejects_supply_mismatch() {
    let (mut client, issuer, token, _v) = setup();
    let commitment = [7u8; 32];
    client.set_policy(token.copy(), issuer, commitment, 10000, 0).unwrap();
    let signals: Vec<[u8; 32]> = vec![be32_from_u128(9_000_000), commitment, be32_from_u128(10000)];
    let res = attest(&mut client, &token, 8_000_000, &signals, true);
    assert!(res.is_err());
    assert!(matches!(res, Err(Error::SupplyMismatch)));
}

#[test]
fn rejects_when_proof_invalid() {
    let (mut client, issuer, token, _v) = setup();
    let commitment = [7u8; 32];
    client.set_policy(token.copy(), issuer, commitment, 10000, 0).unwrap();
    let signals: Vec<[u8; 32]> = vec![be32_from_u128(9_000_000), commitment, be32_from_u128(10000)];
    let res = attest(&mut client, &token, 9_000_000, &signals, false);
    assert!(res.is_err());
    assert!(matches!(res, Err(Error::ProofInvalid)));
    assert!(client.last_attestation(&token).is_none());
}

#[test]
fn rejects_bps_mismatch_and_signal_count() {
    let (mut client, issuer, token, _v) = setup();
    let commitment = [7u8; 32];
    client.set_policy(token.copy(), issuer, commitment, 10000, 0).unwrap();
    let signals: Vec<[u8; 32]> = vec![be32_from_u128(9_000_000), commitment, be32_from_u128(15000)];
    assert!(matches!(attest(&mut client, &token, 9_000_000, &signals, true), Err(Error::PolicyMismatch)));
    let short: Vec<[u8; 32]> = vec![be32_from_u128(9_000_000), commitment];
    assert!(matches!(attest(&mut client, &token, 9_000_000, &short, true), Err(Error::PolicyMismatch)));
}

#[test]
fn rejects_unregistered_token_and_uninitialized() {
    let (mut client, _issuer, _token, _v) = setup();
    let signals: Vec<[u8; 32]> = vec![[0u8; 32], [0u8; 32], [0u8; 32]];
    assert!(matches!(attest(&mut client, &addr("COTHER"), 0, &signals, true), Err(Error::NotInitialized)));

    let mut fresh = PorVerifier::new();
    fresh.set_policy(addr("CTOKEN"), addr("GISSUER"), [0u8; 32], 0, 0).unwrap();
    assert!(matches!(attest(&mut fresh, &addr("CTOKEN"), 0, &signals, true), Err(Error::NotInitialized)));
    assert!(matches!(fresh.init(addr("GA"), addr("CV")), Ok(())));
    assert!(matches!(fresh.init(addr("GB"), addr("CW")), Err(Error::AlreadyInitialized)));
}

#[test]
fn latest_attestation_replaces_earlier() {
    let (mut client, issuer, token, _v) = setup();
    let commitment = [7u8; 32];
    client.set_policy(token.copy(), issuer, commitment, 10000, 0).unwrap();
    let s1: Vec<[u8; 32]> = vec![be32_from_u128(100), commitment, be32_from_u128(10000)];
    client.attest(&token, 100, &s1, true, 10).ok().unwrap();
    let s2: Vec<[u8; 32]> = vec![be32_from_u128(200), commitment, be32_from_u128(10000)];
    client.attest(&token, 200, &s2, true, 20).ok().unwrap();
    let last = client.last_attestation(&token).unwrap();
    assert_eq!(last.total_supply, 200);
    assert_eq!(last.verified_at, 20);
    assert_eq!(last.reserves_commitment, commitment);
    let p = client.policy(&token).unwrap();
    assert_eq!(p.issuer.strkey, b"GISSUER".to_vec());
}
