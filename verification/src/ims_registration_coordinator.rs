//! Per-line registration admission shared by every IMS entry point.
//!
//! The owner of a line serializes transitions and holds a permit through each
//! REGISTER exchange; this is the state that it guards.

use crate::ims_access::{
    ConcurrentRegistrationSupport, Decision, ImsAccess, ImsAccessDecision, ImsAccessPreference,
};
use crate::register_response::RegisterArtifacts;
use vstd::prelude::*;

verus! {

/// Passive evidence from the last successful REGISTER of an access: no proof of
/// a complete outbound negotiation.
#[derive(Debug, Clone, Copy, PartialEq, Eq, Structural)]
pub struct OutboundResponseEvidence {
    pub require_outbound: bool,
    pub flow_timer_seconds: Option<u32>,
}

impl Default for OutboundResponseEvidence {
    fn default() -> (r: Self)
        ensures
            r == (OutboundResponseEvidence { require_outbound: false, flow_timer_seconds: None }),
    {
        OutboundResponseEvidence { require_outbound: false, flow_timer_seconds: None }
    }
}

#[derive(Debug, Clone, Copy, PartialEq, Eq)]
pub struct ImsRegistrationPolicyStatus {
    pub requested: ImsAccessPreference,
    pub effective: &'static str,
    pub concurrent_support: ConcurrentRegistrationSupport,
    pub desired: ImsAccessDecision,
    pub applied: ImsAccessDecision,
    pub switch_deferred_for_call: bool,
    pub cellular_last_response: Option<OutboundResponseEvidence>,
    pub wlan_last_response: Option<OutboundResponseEvidence>,
}

/// Response evidence alone never makes the client's flow maintenance complete.
pub const REPORTED_SUPPORT: ConcurrentRegistrationSupport =
    ConcurrentRegistrationSupport::ClientIncomplete;

#[derive(Debug, Clone)]
pub struct ImsRegistrationCoordinator {
    admission: ImsAccessDecision,
    applied: ImsAccessDecision,
    switch_deferred_for_call: bool,
    cellular: Option<OutboundResponseEvidence>,
    wlan: Option<OutboundResponseEvidence>,
}

/// A coordinator as a value.
pub struct CoordinatorState {
    pub admission: Decision,
    pub applied: Decision,
    pub deferred: bool,
    pub cellular: Option<OutboundResponseEvidence>,
    pub wlan: Option<OutboundResponseEvidence>,
}

impl View for ImsRegistrationCoordinator {
    type V = CoordinatorState;

    closed spec fn view(&self) -> CoordinatorState {
        CoordinatorState {
            admission: self.admission@,
            applied: self.applied@,
            deferred: self.switch_deferred_for_call,
            cellular: self.cellular,
            wlan: self.wlan,
        }
    }
}

/// Nothing registers before the owner has reconciled the line.
pub open spec fn unreconciled() -> CoordinatorState {
    let none = Decision { cellular: false, wlan: false, code: "ims_access_not_reconciled"@ };
    CoordinatorState { admission: none, applied: none, deferred: false, cellular: None, wlan: None }
}

pub open spec fn published(s: CoordinatorState, d: Decision) -> CoordinatorState {
    CoordinatorState { admission: d, applied: d, deferred: false, ..s }
}

/// One access parked; the other one keeps what it had.
pub open spec fn parked_decision(d: Decision, access: ImsAccess) -> Decision {
    Decision {
        cellular: d.cellular && access != ImsAccess::Cellular,
        wlan: d.wlan && access != ImsAccess::Wlan,
        code: "ims_access_registration_parked"@,
    }
}

pub open spec fn observed(
    s: CoordinatorState,
    access: ImsAccess,
    artifacts: RegisterArtifacts,
) -> CoordinatorState {
    let evidence = Some(
        OutboundResponseEvidence {
            require_outbound: artifacts.outbound_required,
            flow_timer_seconds: artifacts.flow_timer_seconds,
        },
    );
    match access {
        ImsAccess::Cellular => CoordinatorState { cellular: evidence, ..s },
        ImsAccess::Wlan => CoordinatorState { wlan: evidence, ..s },
    }
}

impl Default for ImsRegistrationCoordinator {
    fn default() -> (r: Self)
        ensures
            r@ == unreconciled(),
    {
        let initial = ImsAccessDecision::none("ims_access_not_reconciled");
        ImsRegistrationCoordinator {
            admission: initial,
            applied: initial,
            switch_deferred_for_call: false,
            cellular: None,
            wlan: None,
        }
    }
}

impl ImsRegistrationCoordinator {
    /// Puts a decision into effect.
    pub fn publish(&mut self, decision: ImsAccessDecision)
        ensures
            final(self)@ == published(old(self)@, decision@),
    {
        self.admission = decision;
        self.applied = decision;
        self.switch_deferred_for_call = false;
    }

    /// Stops an access before its teardown; the other one is never authorized
    /// by this.
    pub fn park(&mut self, access: ImsAccess)
        ensures
            final(self)@ == published(
                old(self)@,
                parked_decision(old(self)@.admission, access),
            ),
    {
        match access {
            ImsAccess::Cellular => {
                self.admission.cellular_registers = false;
            },
            ImsAccess::Wlan => {
                self.admission.wlan_registers = false;
            },
        }
        self.admission.code = "ims_access_registration_parked";
        self.applied = self.admission;
        self.switch_deferred_for_call = false;
    }

    /// Admits a REGISTER of this access, or refuses it.
    pub fn permit(&self, access: ImsAccess) -> (r: Result<ImsAccessDecision, &'static str>)
        ensures
            match r {
                Ok(decision) => self@.admission.permits(access) && decision@ == self@.admission,
                Err(code) => !self@.admission.permits(access) && code@
                    == "ims_access_registration_parked"@,
            },
    {
        if self.admission.permits(access) {
            Ok(self.admission)
        } else {
            Err("ims_access_registration_parked")
        }
    }

    pub fn defer_switch_for_call(&mut self)
        ensures
            final(self)@ == (CoordinatorState { deferred: true, ..old(self)@ }),
    {
        self.switch_deferred_for_call = true;
    }

    pub fn observe_response(&mut self, access: ImsAccess, artifacts: &RegisterArtifacts)
        ensures
            final(self)@ == observed(old(self)@, access, *artifacts),
    {
        let evidence = Some(
            OutboundResponseEvidence {
                require_outbound: artifacts.outbound_required,
                flow_timer_seconds: artifacts.flow_timer_seconds,
            },
        );
        match access {
            ImsAccess::Cellular => {
                self.cellular = evidence;
            },
            ImsAccess::Wlan => {
                self.wlan = evidence;
            },
        }
    }

    /// The policy that is in effect. Reading it initiates nothing.
    pub fn status(&self, requested: ImsAccessPreference, desired: ImsAccessDecision) -> (r:
        ImsRegistrationPolicyStatus)
        ensures
            r.requested == requested,
            r.effective@ == self@.applied.mode(),
            r.concurrent_support == REPORTED_SUPPORT,
            r.desired == desired,
            r.applied@ == self@.applied,
            r.switch_deferred_for_call == self@.deferred,
            r.cellular_last_response == self@.cellular,
            r.wlan_last_response == self@.wlan,
    {
        ImsRegistrationPolicyStatus {
            requested,
            effective: self.applied.effective_mode(),
            concurrent_support: REPORTED_SUPPORT,
            desired,
            applied: self.applied,
            switch_deferred_for_call: self.switch_deferred_for_call,
            cellular_last_response: self.cellular,
            wlan_last_response: self.wlan,
        }
    }
}

// ----------------------------------------------------------------------- laws

/// A line that its owner never reconciled admits nothing.
pub proof fn law_fails_closed(access: ImsAccess)
    ensures
        !unreconciled().admission.permits(access),
{
}

/// Parking an access refuses it and never authorizes the other one.
pub proof fn law_parking_never_authorizes(s: CoordinatorState, access: ImsAccess, other: ImsAccess)
    ensures
        !published(s, parked_decision(s.admission, access)).admission.permits(access),
        published(s, parked_decision(s.admission, access)).admission.permits(other)
            ==> s.admission.permits(other),
        other != access && s.admission.permits(other) ==> published(
            s,
            parked_decision(s.admission, access),
        ).admission.permits(other),
{
}

/// A deferred switch keeps the registration that is applied and its admission;
/// publishing ends the deferral.
pub proof fn law_deferral_keeps_admission(s: CoordinatorState, d: Decision)
    ensures
        (CoordinatorState { deferred: true, ..s }).admission == s.admission,
        (CoordinatorState { deferred: true, ..s }).applied == s.applied,
        !published(CoordinatorState { deferred: true, ..s }, d).deferred,
{
}

/// Response evidence is no admission.
pub proof fn law_evidence_is_no_admission(
    s: CoordinatorState,
    access: ImsAccess,
    artifacts: RegisterArtifacts,
)
    ensures
        observed(s, access, artifacts).admission == s.admission,
        observed(s, access, artifacts).applied == s.applied,
{
}

} // verus!
