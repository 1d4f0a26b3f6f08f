//! Registration access selection, not originating-call routing.
//!
//! Distinct reg-id values alone do not authorize concurrent registrations: the
//! network must have negotiated outbound on an owned live flow. Until then a
//! single registration is selected, and a valid selected registration always
//! remains eligible for its protected refresh.

use crate::text::{chars_of, is_text};
use vstd::prelude::*;

verus! {

#[derive(Debug, Clone, Copy, PartialEq, Eq, Structural)]
pub enum ImsAccess {
    Cellular,
    Wlan,
}

impl ImsAccess {
    pub open spec fn name(self) -> Seq<char> {
        match self {
            ImsAccess::Cellular => "cellular"@,
            ImsAccess::Wlan => "wlan"@,
        }
    }

    pub fn as_str(self) -> (r: &'static str)
        ensures
            r@ == self.name(),
    {
        match self {
            ImsAccess::Cellular => "cellular",
            ImsAccess::Wlan => "wlan",
        }
    }

    pub open spec fn reg_id_spec(self) -> u32 {
        match self {
            ImsAccess::Cellular => 1,
            ImsAccess::Wlan => 2,
        }
    }

    /// Stable, distinct flow identifiers: necessary but not sufficient for a
    /// second flow.
    pub fn reg_id(self) -> (r: u32)
        ensures
            r == self.reg_id_spec(),
            r > 0,
    {
        match self {
            ImsAccess::Cellular => 1,
            ImsAccess::Wlan => 2,
        }
    }
}

#[derive(Debug, Clone, Copy, PartialEq, Eq, Structural)]
pub enum ImsAccessPreference {
    /// Concurrency when supported, otherwise WLAN with cellular as fallback.
    Concurrent,
    WlanPreferred,
    CellularPreferred,
}

impl Default for ImsAccessPreference {
    fn default() -> (r: Self)
        ensures
            r == ImsAccessPreference::Concurrent,
    {
        ImsAccessPreference::Concurrent
    }
}

impl ImsAccessPreference {
    pub fn as_str(self) -> (r: &'static str)
        ensures
            r@ == match self {
                ImsAccessPreference::Concurrent => "concurrent"@,
                ImsAccessPreference::WlanPreferred => "wlan_preferred"@,
                ImsAccessPreference::CellularPreferred => "cellular_preferred"@,
            },
    {
        match self {
            ImsAccessPreference::Concurrent => "concurrent",
            ImsAccessPreference::WlanPreferred => "wlan_preferred",
            ImsAccessPreference::CellularPreferred => "cellular_preferred",
        }
    }
}

#[derive(Debug, Clone, Copy, PartialEq, Eq, Structural)]
pub enum ConcurrentRegistrationSupport {
    /// The client lacks complete flow maintenance.
    ClientIncomplete,
    /// No live binding has established or declined network support yet.
    NotNegotiated,
    /// The current flow's response did not accept the outbound offer.
    NotSupported,
    /// An owned live binding negotiated outbound.
    Negotiated,
}

impl Default for ConcurrentRegistrationSupport {
    fn default() -> (r: Self)
        ensures
            r == ConcurrentRegistrationSupport::NotNegotiated,
    {
        ConcurrentRegistrationSupport::NotNegotiated
    }
}

/// Bootstrap state only: authorization comes from an owned live flow.
pub const CURRENT_CONCURRENT_SUPPORT: ConcurrentRegistrationSupport =
    ConcurrentRegistrationSupport::NotNegotiated;

#[derive(Debug, Clone, Copy, PartialEq, Eq, Structural)]
pub struct ImsAccessInputs {
    pub cellular_enabled: bool,
    pub wlan_enabled: bool,
    /// Eligible to attempt registration; exhausted recovery is not available.
    pub cellular_available: bool,
    pub wlan_available: bool,
    /// A valid lease, not the refresh deadline or a pending attempt.
    pub cellular_registered: bool,
    pub wlan_registered: bool,
    pub device_identity_spoofed: bool,
    pub preference: ImsAccessPreference,
    pub concurrent_support: ConcurrentRegistrationSupport,
    /// An additional flow was rejected or failed negotiation validation.
    pub multiple_registration_blocked: bool,
}

impl Default for ImsAccessInputs {
    fn default() -> (r: Self)
        ensures
            r == (ImsAccessInputs {
                cellular_enabled: false,
                wlan_enabled: false,
                cellular_available: false,
                wlan_available: false,
                cellular_registered: false,
                wlan_registered: false,
                device_identity_spoofed: false,
                preference: ImsAccessPreference::Concurrent,
                concurrent_support: ConcurrentRegistrationSupport::NotNegotiated,
                multiple_registration_blocked: false,
            }),
    {
        ImsAccessInputs {
            cellular_enabled: false,
            wlan_enabled: false,
            cellular_available: false,
            wlan_available: false,
            cellular_registered: false,
            wlan_registered: false,
            device_identity_spoofed: false,
            preference: ImsAccessPreference::Concurrent,
            concurrent_support: ConcurrentRegistrationSupport::NotNegotiated,
            multiple_registration_blocked: false,
        }
    }
}

#[derive(Debug, Clone, Copy, PartialEq, Eq)]
pub struct ImsAccessDecision {
    pub cellular_registers: bool,
    pub wlan_registers: bool,
    pub code: &'static str,
}

/// A decision as a value.
pub struct Decision {
    pub cellular: bool,
    pub wlan: bool,
    pub code: Seq<char>,
}

impl Decision {
    pub open spec fn permits(self, access: ImsAccess) -> bool {
        match access {
            ImsAccess::Cellular => self.cellular,
            ImsAccess::Wlan => self.wlan,
        }
    }

    /// The name of the registration mode that is in effect.
    pub open spec fn mode(self) -> Seq<char> {
        if self.cellular && self.wlan {
            "concurrent"@
        } else if self.cellular || self.wlan {
            "single_registration"@
        } else {
            "none"@
        }
    }
}

impl View for ImsAccessDecision {
    type V = Decision;

    open spec fn view(&self) -> Decision {
        Decision { cellular: self.cellular_registers, wlan: self.wlan_registers, code: self.code@ }
    }
}

/// The accesses that are up and that a decision does not permit.
pub open spec fn released(d: Decision, cellular_up: bool, wlan_up: bool) -> Seq<ImsAccess> {
    let first = if cellular_up && !d.cellular {
        seq![ImsAccess::Cellular]
    } else {
        Seq::empty()
    };
    if wlan_up && !d.wlan {
        first.push(ImsAccess::Wlan)
    } else {
        first
    }
}

impl ImsAccessDecision {
    pub fn none(code: &'static str) -> (r: Self)
        ensures
            r@ == (Decision { cellular: false, wlan: false, code: code@ }),
    {
        ImsAccessDecision { cellular_registers: false, wlan_registers: false, code }
    }

    pub fn cellular_only(code: &'static str) -> (r: Self)
        ensures
            r@ == (Decision { cellular: true, wlan: false, code: code@ }),
    {
        ImsAccessDecision { cellular_registers: true, wlan_registers: false, code }
    }

    pub fn wlan_only(code: &'static str) -> (r: Self)
        ensures
            r@ == (Decision { cellular: false, wlan: true, code: code@ }),
    {
        ImsAccessDecision { cellular_registers: false, wlan_registers: true, code }
    }

    fn both(code: &'static str) -> (r: Self)
        ensures
            r@ == (Decision { cellular: true, wlan: true, code: code@ }),
    {
        ImsAccessDecision { cellular_registers: true, wlan_registers: true, code }
    }

    pub fn permits(&self, access: ImsAccess) -> (r: bool)
        ensures
            r == self@.permits(access),
    {
        match access {
            ImsAccess::Cellular => self.cellular_registers,
            ImsAccess::Wlan => self.wlan_registers,
        }
    }

    pub fn legs_to_release(&self, cellular_up: bool, wlan_up: bool) -> (r: Vec<ImsAccess>)
        ensures
            r@ == released(self@, cellular_up, wlan_up),
            forall|access: ImsAccess|
                r@.contains(access) == (!self@.permits(access) && (match access {
                    ImsAccess::Cellular => cellular_up,
                    ImsAccess::Wlan => wlan_up,
                })),
    {
        let mut release: Vec<ImsAccess> = Vec::new();
        if cellular_up && !self.cellular_registers {
            release.push(ImsAccess::Cellular);
            assert(release@[0] == ImsAccess::Cellular);
        }
        if wlan_up && !self.wlan_registers {
            let ghost before = release@;
            release.push(ImsAccess::Wlan);
            assert(release@[before.len() as int] == ImsAccess::Wlan);
            assert(before.len() > 0 ==> release@[0] == before[0]);
        }
        release
    }

    pub fn effective_mode(&self) -> (r: &'static str)
        ensures
            r@ == self@.mode(),
    {
        if self.cellular_registers && self.wlan_registers {
            "concurrent"
        } else if self.cellular_registers || self.wlan_registers {
            "single_registration"
        } else {
            "none"
        }
    }
}

/// Can cellular register, or keep the registration that it has?
pub open spec fn cellular_eligible(i: ImsAccessInputs) -> bool {
    i.cellular_enabled && (i.cellular_available || i.cellular_registered)
}

/// Can WLAN register, or keep the registration that it has?
pub open spec fn wlan_eligible(i: ImsAccessInputs) -> bool {
    i.wlan_enabled && (i.wlan_available || i.wlan_registered)
}

/// May both accesses hold a registration at once?
pub open spec fn concurrency_authorized(i: ImsAccessInputs) -> bool {
    &&& i.preference == ImsAccessPreference::Concurrent
    &&& i.concurrent_support == ConcurrentRegistrationSupport::Negotiated
    &&& !i.multiple_registration_blocked
}

/// Which accesses register: a spoofed identity stays off cellular; two legs
/// need authorization; otherwise the preference picks one of the eligible.
pub open spec fn decision(i: ImsAccessInputs) -> Decision {
    let cellular = cellular_eligible(i);
    let wlan = wlan_eligible(i);
    if i.device_identity_spoofed {
        Decision {
            cellular: false,
            wlan,
            code: if wlan {
                "ims_access_wlan_only_spoofed_device_identity"@
            } else {
                "ims_access_none_spoofed_identity_requires_wlan"@
            },
        }
    } else if !cellular && !wlan {
        Decision { cellular: false, wlan: false, code: "ims_access_none_available"@ }
    } else {
        match i.preference {
            ImsAccessPreference::Concurrent => Decision {
                cellular: cellular && (!wlan || concurrency_authorized(i)),
                wlan,
                code: if cellular && wlan {
                    if concurrency_authorized(i) {
                        "ims_access_concurrent_negotiated"@
                    } else if i.multiple_registration_blocked {
                        "ims_access_single_wlan_multi_flow_blocked"@
                    } else {
                        "ims_access_single_wlan_preferred"@
                    }
                } else if cellular {
                    "ims_access_cellular_only_available"@
                } else {
                    "ims_access_wlan_only_available"@
                },
            },
            ImsAccessPreference::WlanPreferred => Decision {
                cellular: !wlan,
                wlan,
                code: if wlan {
                    "ims_access_wlan_preferred"@
                } else {
                    "ims_access_cellular_fallback"@
                },
            },
            ImsAccessPreference::CellularPreferred => Decision {
                cellular,
                wlan: !cellular,
                code: if cellular {
                    "ims_access_cellular_preferred"@
                } else {
                    "ims_access_wlan_fallback"@
                },
            },
        }
    }
}

pub fn decide(inputs: ImsAccessInputs) -> (r: ImsAccessDecision)
    ensures
        r@ == decision(inputs),
{
    let cellular: bool = inputs.cellular_enabled && (inputs.cellular_available
        || inputs.cellular_registered);
    let wlan: bool = inputs.wlan_enabled && (inputs.wlan_available || inputs.wlan_registered);
    // A spoofed identity must not leak back to the cellular attachment, which
    // uses the modem's real identity.
    if inputs.device_identity_spoofed {
        return if wlan {
            ImsAccessDecision::wlan_only("ims_access_wlan_only_spoofed_device_identity")
        } else {
            ImsAccessDecision::none("ims_access_none_spoofed_identity_requires_wlan")
        };
    }
    match inputs.preference {
        ImsAccessPreference::Concurrent => if cellular && wlan {
            if inputs.concurrent_support == ConcurrentRegistrationSupport::Negotiated
                && !inputs.multiple_registration_blocked {
                ImsAccessDecision::both("ims_access_concurrent_negotiated")
            } else if inputs.multiple_registration_blocked {
                ImsAccessDecision::wlan_only("ims_access_single_wlan_multi_flow_blocked")
            } else {
                ImsAccessDecision::wlan_only("ims_access_single_wlan_preferred")
            }
        } else if cellular {
            ImsAccessDecision::cellular_only("ims_access_cellular_only_available")
        } else if wlan {
            ImsAccessDecision::wlan_only("ims_access_wlan_only_available")
        } else {
            ImsAccessDecision::none("ims_access_none_available")
        },
        ImsAccessPreference::WlanPreferred => if wlan {
            ImsAccessDecision::wlan_only("ims_access_wlan_preferred")
        } else if cellular {
            ImsAccessDecision::cellular_only("ims_access_cellular_fallback")
        } else {
            ImsAccessDecision::none("ims_access_none_available")
        },
        ImsAccessPreference::CellularPreferred => if cellular {
            ImsAccessDecision::cellular_only("ims_access_cellular_preferred")
        } else if wlan {
            ImsAccessDecision::wlan_only("ims_access_wlan_fallback")
        } else {
            ImsAccessDecision::none("ims_access_none_available")
        },
    }
}

/// A call that has ended in any way.
pub open spec fn call_over(state: Seq<char>) -> bool {
    ||| state == "terminated"@
    ||| state == "ended"@
    ||| state == "failed"@
    ||| state == "released"@
    ||| state == "disconnected"@
    ||| state == "cancelled"@
    ||| state == "rejected"@
    ||| state == "completed"@
}

/// Incoming, ringing, dialing and unknown states are protected as well as
/// established and held calls.
pub fn call_blocks_access_switch(state: &str) -> (r: bool)
    ensures
        r == !call_over(state@),
{
    let s = chars_of(state);
    let s = s.as_slice();
    !(is_text(s, "terminated") || is_text(s, "ended") || is_text(s, "failed") || is_text(
        s,
        "released",
    ) || is_text(s, "disconnected") || is_text(s, "cancelled") || is_text(s, "rejected")
        || is_text(s, "completed"))
}

// ---------------------------------------------------------------------- laws

/// A spoofed device identity never registers over cellular.
pub proof fn law_spoofed_identity_stays_off_cellular(i: ImsAccessInputs)
    requires
        i.device_identity_spoofed,
    ensures
        !decision(i).cellular,
{
}

/// Two legs register only where the preference asks for it, an owned live
/// binding negotiated it, nothing blocks it and both legs are eligible.
pub proof fn law_two_legs_need_negotiation(i: ImsAccessInputs)
    requires
        decision(i).cellular && decision(i).wlan,
    ensures
        concurrency_authorized(i),
        cellular_eligible(i),
        wlan_eligible(i),
        !i.device_identity_spoofed,
{
}

/// A disabled intent wins over any registration snapshot.
pub proof fn law_disabled_intent_wins(i: ImsAccessInputs)
    ensures
        !i.cellular_enabled ==> !decision(i).cellular,
        !i.wlan_enabled ==> !decision(i).wlan,
{
}

/// A registered lease stays eligible while its own recovery is exhausted: losing
/// availability changes nothing for a leg that is registered.
pub proof fn law_registered_lease_stays_eligible(i: ImsAccessInputs)
    ensures
        i.cellular_registered ==> decision(i) == decision(
            ImsAccessInputs { cellular_available: !i.cellular_available, ..i },
        ),
        i.wlan_registered ==> decision(i) == decision(
            ImsAccessInputs { wlan_available: !i.wlan_available, ..i },
        ),
{
}

/// Some leg registers exactly where one is eligible and the identity allows it.
pub proof fn law_eligible_line_registers(i: ImsAccessInputs)
    ensures
        (decision(i).cellular || decision(i).wlan) == (wlan_eligible(i) || (cellular_eligible(i)
            && !i.device_identity_spoofed)),
{
}

/// After releasing what a decision does not permit, only permitted legs are up.
pub proof fn law_release_leaves_permitted_legs(
    d: Decision,
    cellular_up: bool,
    wlan_up: bool,
    access: ImsAccess,
)
    requires
        !released(d, cellular_up, wlan_up).contains(access),
        match access {
            ImsAccess::Cellular => cellular_up,
            ImsAccess::Wlan => wlan_up,
        },
    ensures
        d.permits(access),
{
    let r = released(d, cellular_up, wlan_up);
    if access == ImsAccess::Cellular && !d.cellular {
        assert(r[0] == ImsAccess::Cellular);
    }
    if access == ImsAccess::Wlan && !d.wlan {
        assert(r.last() == ImsAccess::Wlan);
        assert(r[r.len() - 1] == ImsAccess::Wlan);
    }
}

/// The two accesses have distinct, positive flow identifiers.
pub proof fn law_reg_ids_distinct(a: ImsAccess, b: ImsAccess)
    ensures
        a.reg_id_spec() > 0,
        a.reg_id_spec() == b.reg_id_spec() ==> a == b,
{
}

} // verus!
