//! Which access a line registers over, and what may be done to it meanwhile.

use crate::api::native_controls;
use crate::api::native_controls::{LineUse, RefusalValue};
use crate::cellular_ims;
use crate::cellular_ims::data_slot::DataSlotMode;
use crate::ims_access;
use crate::ims_access::{
    ConcurrentRegistrationSupport, Decision, ImsAccess, ImsAccessInputs, ImsAccessPreference,
};
use crate::ims_registration_coordinator;
use crate::ims_registration_coordinator::CoordinatorState;
use crate::register_response::RegisterArtifacts;
use crate::volte;
use vstd::prelude::*;

verus! {

/// Can the access register, or keep what it has?
pub open spec fn usable(enabled: bool, available: bool, registered: bool) -> bool {
    enabled && (available || registered)
}

/// The preferred access registers wherever it can, and the other one only where it cannot.
pub proof fn law_preferred_access_registers(i: ImsAccessInputs)
    ensures
        ({
            let cellular = usable(i.cellular_enabled, i.cellular_available, i.cellular_registered);
            let wlan = usable(i.wlan_enabled, i.wlan_available, i.wlan_registered);
            let d = ims_access::decision(i);
            &&& !i.device_identity_spoofed && i.preference == ImsAccessPreference::WlanPreferred ==> {
                &&& d.wlan == wlan
                &&& d.cellular == (cellular && !wlan)
            }
            &&& !i.device_identity_spoofed && i.preference
                == ImsAccessPreference::CellularPreferred ==> {
                &&& d.cellular == cellular
                &&& d.wlan == (wlan && !cellular)
            }
            &&& !i.device_identity_spoofed && i.preference == ImsAccessPreference::Concurrent ==> {
                let both = i.concurrent_support == ConcurrentRegistrationSupport::Negotiated
                    && !i.multiple_registration_blocked;
                &&& d.wlan == wlan
                &&& d.cellular == (cellular && (!wlan || both))
            }
            &&& i.device_identity_spoofed ==> d.wlan == wlan && !d.cellular
        }),
{
}

/// A decision tells why it was taken.
pub proof fn law_decision_tells_why(i: ImsAccessInputs)
    ensures
        ({
            let d = ims_access::decision(i);
            let wlan = usable(i.wlan_enabled, i.wlan_available, i.wlan_registered);
            let cellular = usable(i.cellular_enabled, i.cellular_available, i.cellular_registered);
            &&& i.device_identity_spoofed && wlan ==> d.code
                == "ims_access_wlan_only_spoofed_device_identity"@
            &&& i.device_identity_spoofed && !wlan ==> d.code
                == "ims_access_none_spoofed_identity_requires_wlan"@
            &&& !i.device_identity_spoofed && !d.wlan && !d.cellular ==> d.code
                == "ims_access_none_available"@
            &&& d.wlan && d.cellular ==> d.code == "ims_access_concurrent_negotiated"@
            &&& !i.device_identity_spoofed && i.preference == ImsAccessPreference::WlanPreferred ==> {
                &&& wlan ==> d.code == "ims_access_wlan_preferred"@
                &&& !wlan && cellular ==> d.code == "ims_access_cellular_fallback"@
            }
            &&& !i.device_identity_spoofed && i.preference
                == ImsAccessPreference::CellularPreferred ==> {
                &&& cellular ==> d.code == "ims_access_cellular_preferred"@
                &&& !cellular && wlan ==> d.code == "ims_access_wlan_fallback"@
            }
            &&& !i.device_identity_spoofed && i.preference == ImsAccessPreference::Concurrent ==> {
                &&& cellular && !wlan ==> d.code == "ims_access_cellular_only_available"@
                &&& !cellular && wlan ==> d.code == "ims_access_wlan_only_available"@
                &&& cellular && wlan && i.multiple_registration_blocked ==> d.code
                    == "ims_access_single_wlan_multi_flow_blocked"@
                &&& cellular && wlan && !i.multiple_registration_blocked && i.concurrent_support
                    != ConcurrentRegistrationSupport::Negotiated ==> d.code
                    == "ims_access_single_wlan_preferred"@
            }
        }),
{
}

/// The mode of a decision counts the accesses that it permits.
pub proof fn law_mode_counts_the_accesses(d: Decision)
    ensures
        d.permits(ImsAccess::Cellular) && d.permits(ImsAccess::Wlan) ==> d.mode() == "concurrent"@,
        d.permits(ImsAccess::Cellular) != d.permits(ImsAccess::Wlan) ==> d.mode()
            == "single_registration"@,
        !d.permits(ImsAccess::Cellular) && !d.permits(ImsAccess::Wlan) ==> d.mode() == "none"@,
        ImsAccess::Cellular.reg_id_spec() == 1,
        ImsAccess::Wlan.reg_id_spec() == 2,
        ImsAccess::Cellular.name() == "cellular"@,
        ImsAccess::Wlan.name() == "wlan"@,
{
}

/// Just what is up and not permitted is released.
pub proof fn law_release_takes_only_what_is_not_permitted(
    d: Decision,
    cellular_up: bool,
    wlan_up: bool,
)
    ensures
        ({
            let r = ims_access::released(d, cellular_up, wlan_up);
            &&& r.contains(ImsAccess::Cellular) <==> cellular_up && !d.cellular
            &&& r.contains(ImsAccess::Wlan) <==> wlan_up && !d.wlan
            &&& r.len() <= 2
        }),
{
    let r = ims_access::released(d, cellular_up, wlan_up);
    if cellular_up && !d.cellular {
        assert(r[0] == ImsAccess::Cellular);
    }
    if wlan_up && !d.wlan {
        assert(r[r.len() - 1] == ImsAccess::Wlan);
    }
}

/// A response is remembered for the access that it came over, and for no other.
pub proof fn law_response_is_remembered_for_its_access(s: CoordinatorState, a: RegisterArtifacts)
    ensures
        ({
            let c = ims_registration_coordinator::observed(s, ImsAccess::Cellular, a);
            &&& c.cellular is Some && c.cellular->0.require_outbound == a.outbound_required
                && c.cellular->0.flow_timer_seconds == a.flow_timer_seconds
            &&& c.wlan == s.wlan
        }),
        ({
            let w = ims_registration_coordinator::observed(s, ImsAccess::Wlan, a);
            &&& w.wlan is Some && w.wlan->0.require_outbound == a.outbound_required
                && w.wlan->0.flow_timer_seconds == a.flow_timer_seconds
            &&& w.cellular == s.cellular
        }),
{
}

/// What is published is what is admitted and what is applied.
pub proof fn law_published_decision_is_admitted(s: CoordinatorState, d: Decision)
    ensures
        ({
            let p = ims_registration_coordinator::published(s, d);
            p.admission == d && p.applied == d && !p.deferred && p.cellular == s.cellular && p.wlan
                == s.wlan
        }),
{
}

/// A line is a target of a control just where it is known, present and its device is its own;
/// a maintenance write besides needs a line on which nothing is enabled and nothing runs.
pub proof fn law_target_has_to_be_idle(
    line_id: Seq<char>,
    present: Option<bool>,
    device: Result<Seq<char>, Seq<char>>,
    write: bool,
    u: LineUse,
)
    ensures
        ({
            let r = native_controls::target_refusal(line_id, present, device, write, u);
            let idle = !u.ims_enabled && !u.data_enabled && !u.ims_registered && !u.data_running;
            &&& r is None <==> present == Some(true) && device == Ok::<_, Seq<char>>(line_id) && (
            !write || idle)
            &&& present is None ==> r == Some(
                RefusalValue { status: 404, message: "line_not_found"@ },
            )
            &&& present is Some && r is Some ==> r->0.status == 409
            &&& present == Some(false) ==> r->0.message == "native_line_absent"@
            &&& present == Some(true) && device is Err ==> r->0.message == device->Err_0
            &&& present == Some(true) && device is Ok && device->Ok_0 != line_id ==> r->0.message
                == "native_line_identity_mismatch"@
        }),
{
}

/// A data slot needs the endpoint of everything that is asked for, and says whether data is.
pub proof fn law_slot_needs_its_endpoints(
    i: cellular_ims::data_slot::DataSlotInputs,
    v: volte::data_slot::DataSlotInputs,
)
    ensures
        ({
            let r = cellular_ims::data_slot::slot_mode(i);
            &&& r is Some <==> i.ims_endpoint_available && (!i.data_requested
                || i.data_endpoint_available)
            &&& r is Some ==> (r->0 == DataSlotMode::UeNativeImsWithData) == i.data_requested
            &&& r is Some ==> (r->0 == DataSlotMode::UeNativeIms) == !i.data_requested
        }),
        ({
            let r = volte::data_slot::slot_mode(v);
            &&& r is Some <==> v.native_endpoint_available
            &&& r is Some ==> (r->0 == DataSlotMode::UeNativeImsWithData) == v.data_requested
            &&& r is Some ==> (r->0 == DataSlotMode::UeNativeIms) == !v.data_requested
        }),
{
}

} // verus!
