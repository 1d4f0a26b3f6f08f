use ims_core::ims_access::{
    ConcurrentRegistrationSupport, ImsAccess, ImsAccessDecision, ImsAccessPreference,
};
use ims_core::ims_registration_coordinator::ImsRegistrationCoordinator;
use ims_core::register_response::RegisterArtifacts;

#[test]
fn fails_closed_until_owner_reconciles_and_parks_only_opposite_access() {
    let mut coordinator = ImsRegistrationCoordinator::default();
    assert!(coordinator.permit(ImsAccess::Wlan).is_err());
    assert!(coordinator.permit(ImsAccess::Cellular).is_err());
    coordinator.publish(ImsAccessDecision::cellular_only("selected"));
    assert!(coordinator.permit(ImsAccess::Cellular).is_ok());
    assert_eq!(
        coordinator.permit(ImsAccess::Wlan).unwrap_err(),
        "ims_access_registration_parked"
    );
}

#[test]
fn call_deferral_preserves_applied_registration_and_exposes_pending_switch() {
    let mut coordinator = ImsRegistrationCoordinator::default();
    let old_choice = ImsAccessDecision::cellular_only("old");
    let desired = ImsAccessDecision::wlan_only("new");
    coordinator.publish(old_choice);
    coordinator.defer_switch_for_call();
    let status = coordinator.status(ImsAccessPreference::WlanPreferred, desired);
    assert_eq!(status.applied, old_choice);
    assert_eq!(status.desired, desired);
    assert!(status.switch_deferred_for_call);
    assert!(coordinator.permit(ImsAccess::Wlan).is_err());
    // A protected refresh on the selected leg remains legal during a call.
    assert!(coordinator.permit(ImsAccess::Cellular).is_ok());
    coordinator.publish(desired);
    assert!(
        !coordinator
            .status(ImsAccessPreference::WlanPreferred, desired)
            .switch_deferred_for_call
    );
}

#[test]
fn explicit_stop_cannot_authorize_an_unregistered_opposite_access() {
    let mut coordinator = ImsRegistrationCoordinator::default();
    coordinator.publish(ImsAccessDecision::wlan_only("selected"));
    coordinator.park(ImsAccess::Wlan);
    assert!(coordinator.permit(ImsAccess::Wlan).is_err());
    assert!(coordinator.permit(ImsAccess::Cellular).is_err());
}

#[test]
fn response_evidence_never_enables_incomplete_local_outbound() {
    let mut coordinator = ImsRegistrationCoordinator::default();
    coordinator.observe_response(
        ImsAccess::Wlan,
        &RegisterArtifacts {
            outbound_required: true,
            flow_timer_seconds: Some(25),
            ..Default::default()
        },
    );
    let status = coordinator.status(
        ImsAccessPreference::Concurrent,
        ImsAccessDecision::cellular_only("selected"),
    );
    assert_eq!(
        status.concurrent_support,
        ConcurrentRegistrationSupport::ClientIncomplete
    );
    assert_eq!(status.wlan_last_response.unwrap().require_outbound, true);
    assert!(status.cellular_last_response.is_none());
    assert_eq!(status.effective, "none"); // evidence is not admission
}
