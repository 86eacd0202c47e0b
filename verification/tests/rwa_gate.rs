use aegis::addr::Addr;
use aegis::rwa_gate::{Attestation, Error, GateConfig, RwaGate};

const NOW: u64 = 1_700_000_000;

fn addr(s: &str) -> Addr {
    Addr::from_strkey(s.as_bytes().to_vec())
}

fn setup() -> (RwaGate, Addr) {
    let token = addr("CTOKEN");
    let mut client = RwaGate::new();
    client.init(addr("GADMIN")).unwrap();
    let cfg = GateConfig {
        token: token.copy(),
        por_verifier: addr("CPOR"),
        eligibility_verifier: addr("CELIG"),
        eligibility_gate_id: [0x01; 32],
        max_reserve_age_secs: 86_400,
    };
    let must_authorize = client.configure(addr("GADMIN"), cfg).ok().unwrap();
    assert_eq!(must_authorize.strkey, b"GADMIN".to_vec());
    (client, token)
}

fn attestation(token: &Addr, verified_at: u64) -> Option<Attestation> {
    Some(Attestation {
        token: token.copy(),
        total_supply: 9_000_000,
        reserves_commitment: [7u8; 32],
        min_collateral_bps: 10000,
        verified_at,
    })
}

/// What the eligibility contract answers for the receiver: the consumed nullifier.
const NULLIFIER: [u8; 32] = [0x99u8; 32];

/// Runs an authorization the way the contract does: the reserves source, the
/// attestation read there (`att`), the eligibility request, its answer, and
/// the outcome.
fn authorize(client: &RwaGate, token: &Addr, att: &Option<Attestation>) -> Result<[u8; 32], Error> {
    let source = client.reserves_source(token)?;
    assert_eq!(source.strkey, b"CPOR".to_vec());
    let request = client.eligibility_request(token, att, NOW)?;
    assert_eq!(request.verifier.strkey, b"CELIG".to_vec());
    assert_eq!(request.gate_id, [0x01; 32]);
    client.authorize_receive(token, att, NOW, NULLIFIER)
}

#[test]
fn authorizes_when_reserves_fresh_and_eligible() {
    let (client, token) = setup();
    let att = attestation(&token, 1_700_000_000);
    let null = authorize(&client, &token, &att).unwrap();
    assert_eq!(null, [0x99u8; 32]);
}

#[test]
fn rejects_when_reserves_stale() {
    let (client, token) = setup();
    let att = attestation(&token, 1_600_000_000);
    let res = authorize(&client, &token, &att);
    assert!(res.is_err());
    assert_eq!(res, Err(Error::ReservesStale));
}

#[test]
fn rejects_when_no_reserves() {
    let (client, token) = setup();
    let res = authorize(&client, &token, &None);
    assert!(res.is_err());
    assert_eq!(res, Err(Error::NoReserves));
}

#[test]
fn reserves_fresh_up_to_max_age() {
    let (client, token) = setup();
    assert_eq!(client.check_reserves(&token, &attestation(&token, NOW - 86_400), NOW), Ok(true));
    assert_eq!(
        client.check_reserves(&token, &attestation(&token, NOW - 86_401), NOW),
        Err(Error::ReservesStale)
    );
    // An attestation stamped after `now` has age zero.
    assert_eq!(client.check_reserves(&token, &attestation(&token, NOW + 5), NOW), Ok(true));
}

#[test]
fn unconfigured_token_is_refused() {
    let (client, _token) = setup();
    let other = addr("COTHER");
    assert_eq!(client.reserves_source(&other).err(), Some(Error::NotConfigured));
    assert_eq!(client.check_reserves(&other, &attestation(&other, NOW), NOW), Err(Error::NotConfigured));
    assert_eq!(client.authorize_receive(&other, &attestation(&other, NOW), NOW, NULLIFIER), Err(Error::NotConfigured));
    assert!(client.config(&other).is_none());
}

#[test]
fn configure_needs_init_and_reads_back() {
    let mut fresh = RwaGate::new();
    let cfg = GateConfig {
        token: addr("CT"),
        por_verifier: addr("CP"),
        eligibility_verifier: addr("CE"),
        eligibility_gate_id: [2; 32],
        max_reserve_age_secs: 5,
    };
    assert_eq!(fresh.configure(addr("GX"), cfg).err(), Some(Error::NotInitialized));
    assert_eq!(fresh.init(addr("GA")), Ok(()));
    assert_eq!(fresh.init(addr("GA")), Err(Error::AlreadyInitialized));
    let (client, token) = setup();
    let c = client.config(&token).unwrap();
    assert_eq!(c.max_reserve_age_secs, 86_400);
    assert_eq!(c.eligibility_gate_id, [0x01; 32]);
}

/// The eligibility contract's answer: the consumed nullifier, or a refusal
/// that aborts the whole authorization.
fn eligibility_answer(ok: bool) -> [u8; 32] {
    if !ok {
        panic!("eligibility failed");
    }
    NULLIFIER
}

#[test]
#[should_panic]
fn rejects_when_ineligible() {
    let (client, token) = setup();
    let att = attestation(&token, 1_700_000_000);
    client.eligibility_request(&token, &att, NOW).ok().unwrap();
    let nullifier = eligibility_answer(false);
    let _ = client.authorize_receive(&token, &att, NOW, nullifier);
}
