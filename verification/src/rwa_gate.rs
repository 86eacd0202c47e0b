//! The RWA gate contract: a holder may receive a gated token only when the
//! token's proof-of-reserves attestation is fresh and the receiver has just
//! proven eligibility at the configured gate (consuming a nullifier).
//!
//! The contract's storage is the state of an `RwaGate`. Its outside work is
//! two calls to other contracts: reading the latest attestation from the
//! proof-of-reserves contract (`reserves_source` names it, and the answer is
//! an argument of `check_reserves`), and the eligibility verification
//! (`eligibility_request` names it; its answer, the consumed nullifier, is an
//! argument of `authorize_receive`; a refusal there aborts the whole call).
use vstd::prelude::*;

pub use crate::por_verifier::{Attestation, AttestationView};

use crate::addr::{opt_addr, Addr};
use crate::table::Table;

verus! {

/// Errors of the gating contract.
#[derive(Clone, Copy, Debug, PartialEq, Eq, Structural)]
pub enum Error {
    NotInitialized,
    AlreadyInitialized,
    NoReserves,
    ReservesStale,
    Undercollateralized,
    EligibilityFailed,
    NotConfigured,
}

/// How one token is gated.
pub struct GateConfig {
    pub token: Addr,
    pub por_verifier: Addr,
    pub eligibility_verifier: Addr,
    pub eligibility_gate_id: [u8; 32],
    pub max_reserve_age_secs: u64,
}

/// The abstract value of a gate configuration.
pub struct GateConfigView {
    pub token: Seq<u8>,
    pub por_verifier: Seq<u8>,
    pub eligibility_verifier: Seq<u8>,
    pub eligibility_gate_id: Seq<u8>,
    pub max_reserve_age_secs: u64,
}

impl View for GateConfig {
    type V = GateConfigView;

    open spec fn view(&self) -> GateConfigView {
        GateConfigView {
            token: self.token@,
            por_verifier: self.por_verifier@,
            eligibility_verifier: self.eligibility_verifier@,
            eligibility_gate_id: self.eligibility_gate_id@,
            max_reserve_age_secs: self.max_reserve_age_secs,
        }
    }
}

impl GateConfig {
    /// A fresh copy of this configuration.
    pub fn copy(&self) -> (r: GateConfig)
        ensures
            r@ == self@,
    {
        GateConfig {
            token: self.token.copy(),
            por_verifier: self.por_verifier.copy(),
            eligibility_verifier: self.eligibility_verifier.copy(),
            eligibility_gate_id: self.eligibility_gate_id,
            max_reserve_age_secs: self.max_reserve_age_secs,
        }
    }
}

/// The eligibility verification that authorizing a receipt asks for: the
/// eligibility contract, and the id of a gate registered there.
pub struct EligibilityRequest {
    pub verifier: Addr,
    pub gate_id: [u8; 32],
}

/// The view of an optional attestation.
pub open spec fn opt_attestation(a: Option<Attestation>) -> Option<AttestationView> {
    match a {
        Some(x) => Some(x@),
        None => None,
    }
}

/// Age of an attestation at ledger time `now` (zero if it is stamped later).
pub open spec fn attestation_age(now: u64, verified_at: u64) -> int {
    if now >= verified_at {
        now - verified_at
    } else {
        0
    }
}

/// The reserves check of `token`, given the latest attestation read from
/// the proof-of-reserves contract: a configuration, an attestation, and an
/// age within the configured maximum.
pub open spec fn reserves_check(
    configs: Map<Seq<u8>, GateConfigView>,
    token: Seq<u8>,
    attestation: Option<AttestationView>,
    now: u64,
) -> Result<bool, Error> {
    if !configs.contains_key(token) {
        Err(Error::NotConfigured)
    } else if attestation is None {
        Err(Error::NoReserves)
    } else if attestation_age(now, attestation->Some_0.verified_at)
        > configs[token].max_reserve_age_secs {
        Err(Error::ReservesStale)
    } else {
        Ok(true)
    }
}

/// The contract's storage.
pub struct RwaGate {
    pub admin: Option<Addr>,
    pub configs: Table<Addr, GateConfig>,
}

impl RwaGate {
    pub open spec fn admin_view(&self) -> Option<Seq<u8>> {
        opt_addr(self.admin)
    }

    /// Configurations, by token.
    pub open spec fn configs(&self) -> Map<Seq<u8>, GateConfigView> {
        self.configs@.map_values(|c: GateConfig| c@)
    }

    /// A freshly deployed contract.
    pub fn new() -> (r: Self)
        ensures
            r.admin_view() is None,
            r.configs() == Map::<Seq<u8>, GateConfigView>::empty(),
    {
        let r = RwaGate { admin: None, configs: Table::new() };
        assert(r.configs() =~= Map::<Seq<u8>, GateConfigView>::empty());
        r
    }

    /// One-time initialization with the admin (who must authorize the call).
    pub fn init(&mut self, admin: Addr) -> (r: Result<(), Error>)
        ensures
            old(self).admin_view() is Some ==> r == Err::<(), Error>(Error::AlreadyInitialized)
                && final(self).admin_view() == old(self).admin_view(),
            old(self).admin_view() is None ==> r is Ok && final(self).admin_view() == Some(admin@),
            final(self).configs() == old(self).configs(),
    {
        if self.admin.is_some() {
            return Err(Error::AlreadyInitialized);
        }
        self.admin = Some(admin);
        Ok(())
    }

    /// Registers or replaces the configuration of `config.token`. Success
    /// returns the stored admin, whose authorization the call requires; the
    /// `admin` argument names the caller and is not otherwise used.
    pub fn configure(&mut self, admin: Addr, config: GateConfig) -> (r: Result<Addr, Error>)
        ensures
            final(self).admin_view() == old(self).admin_view(),
            old(self).admin_view() is None ==> r == Err::<Addr, Error>(Error::NotInitialized)
                && final(self).configs() == old(self).configs(),
            old(self).admin_view() matches Some(a) ==> r matches Ok(x) && x@ == a
                && final(self).configs() == old(self).configs().insert(config.token@, config@),
    {
        let stored = match &self.admin {
            None => return Err(Error::NotInitialized),
            Some(a) => a.copy(),
        };
        let _ = admin;
        let ghost c = config@;
        let token = config.token.copy();
        self.configs.insert(token, config);
        assert(self.configs() =~= old(self).configs().insert(c.token, c));
        Ok(stored)
    }

    /// The proof-of-reserves contract to read `token`'s latest attestation
    /// from.
    pub fn reserves_source(&self, token: &Addr) -> (r: Result<Addr, Error>)
        ensures
            !self.configs().contains_key(token@) ==> r == Err::<Addr, Error>(Error::NotConfigured),
            self.configs().contains_key(token@) ==> (r matches Ok(a) && a@
                == self.configs()[token@].por_verifier),
    {
        match self.configs.get(token) {
            None => Err(Error::NotConfigured),
            Some(cfg) => Ok(cfg.por_verifier.copy()),
        }
    }

    /// Whether `token`'s reserves are fresh at ledger time `now`, given the
    /// latest attestation that its proof-of-reserves contract holds.
    pub fn check_reserves(&self, token: &Addr, attestation: &Option<Attestation>, now: u64) -> (r:
        Result<bool, Error>)
        ensures
            r == reserves_check(self.configs(), token@, opt_attestation(*attestation), now),
    {
        let cfg = match self.configs.get(token) {
            None => return Err(Error::NotConfigured),
            Some(c) => c,
        };
        let att = match attestation {
            None => return Err(Error::NoReserves),
            Some(a) => a,
        };
        if now.saturating_sub(att.verified_at) > cfg.max_reserve_age_secs {
            return Err(Error::ReservesStale);
        }
        Ok(true)
    }

    /// Every check of a receipt that precedes the eligibility verification;
    /// success names the eligibility contract and gate to verify at.
    pub fn eligibility_request(&self, token: &Addr, attestation: &Option<Attestation>, now: u64) -> (r:
        Result<EligibilityRequest, Error>)
        ensures
            match reserves_check(self.configs(), token@, opt_attestation(*attestation), now) {
                Err(e) => r == Err::<EligibilityRequest, Error>(e),
                Ok(_) => r matches Ok(req) && req.verifier@ == self.configs()[token@].eligibility_verifier
                    && req.gate_id@ == self.configs()[token@].eligibility_gate_id,
            },
    {
        let cfg = match self.configs.get(token) {
            None => return Err(Error::NotConfigured),
            Some(c) => c,
        };
        self.check_reserves(token, attestation, now)?;
        Ok(EligibilityRequest {
            verifier: cfg.eligibility_verifier.copy(),
            gate_id: cfg.eligibility_gate_id,
        })
    }

    /// Authorizes a receipt of `token`: reserves fresh at `now` given the
    /// latest attestation, and `nullifier` the one that the eligibility
    /// contract consumed for the receiver. Success returns that nullifier.
    pub fn authorize_receive(
        &self,
        token: &Addr,
        attestation: &Option<Attestation>,
        now: u64,
        nullifier: [u8; 32],
    ) -> (r: Result<[u8; 32], Error>)
        ensures
            match reserves_check(self.configs(), token@, opt_attestation(*attestation), now) {
                Err(e) => r == Err::<[u8; 32], Error>(e),
                Ok(_) => r == Ok::<[u8; 32], Error>(nullifier),
            },
    {
        let _request = self.eligibility_request(token, attestation, now)?;
        Ok(nullifier)
    }

    /// The configuration of `token`, if any.
    pub fn config(&self, token: &Addr) -> (r: Option<GateConfig>)
        ensures
            r is Some == self.configs().contains_key(token@),
            r matches Some(c) ==> c@ == self.configs()[token@],
    {
        match self.configs.get(token) {
            Some(c) => Some(c.copy()),
            None => None,
        }
    }
}

/// A receipt is authorized only for a configured token whose latest
/// attestation exists and is no older than the configured maximum age.
pub proof fn lemma_authorized_only_with_fresh_reserves(
    configs: Map<Seq<u8>, GateConfigView>,
    token: Seq<u8>,
    attestation: Option<AttestationView>,
    now: u64,
)
    requires
        reserves_check(configs, token, attestation, now) is Ok,
    ensures
        configs.contains_key(token),
        attestation is Some,
        attestation_age(now, attestation->Some_0.verified_at) <= configs[token].max_reserve_age_secs,
{
}

/// The configuration stored for a token is the one read back for it.
pub proof fn lemma_configuration_read_back(
    configs: Map<Seq<u8>, GateConfigView>,
    config: GateConfigView,
    token: Seq<u8>,
)
    ensures
        configs.insert(config.token, config).contains_key(config.token),
        configs.insert(config.token, config)[config.token] == config,
        token != config.token ==> configs.insert(config.token, config).contains_key(token)
            == configs.contains_key(token),
{
}

/// The reserves check succeeds exactly for a configured token whose latest
/// attestation exists and was stamped no more than the configured maximum
/// age before ledger time (an attestation stamped later counts as fresh);
/// when it succeeds the answer is `true`.
pub proof fn lemma_fresh_reserves_pass(
    configs: Map<Seq<u8>, GateConfigView>,
    token: Seq<u8>,
    attestation: Option<AttestationView>,
    now: u64,
)
    ensures
        (reserves_check(configs, token, attestation, now) == Ok::<bool, Error>(true)) <==> {
            &&& configs.contains_key(token)
            &&& attestation is Some
            &&& now - attestation->Some_0.verified_at <= configs[token].max_reserve_age_secs
        },
        reserves_check(configs, token, attestation, now) is Ok ==> reserves_check(
            configs,
            token,
            attestation,
            now,
        ) == Ok::<bool, Error>(true),
{
}

} // verus!

