use ims_core::ims_access::{
    call_blocks_access_switch, decide, ConcurrentRegistrationSupport, ImsAccess, ImsAccessInputs,
    ImsAccessPreference, CURRENT_CONCURRENT_SUPPORT,
};

fn both(preference: ImsAccessPreference) -> ImsAccessInputs {
    ImsAccessInputs {
        cellular_enabled: true,
        wlan_enabled: true,
        cellular_available: true,
        wlan_available: true,
        preference,
        ..Default::default()
    }
}

#[test]
fn reg_ids_are_distinct_stable_and_positive_not_a_capability_gate() {
    assert_eq!(ImsAccess::Cellular.reg_id(), 1);
    assert_eq!(ImsAccess::Wlan.reg_id(), 2);
    let decision = decide(both(ImsAccessPreference::Concurrent));
    assert!(decision.wlan_registers && !decision.cellular_registers);
}

#[test]
fn concurrent_intent_is_preserved_but_default_cold_start_is_single() {
    assert_eq!(
        ImsAccessPreference::default(),
        ImsAccessPreference::Concurrent
    );
    assert_eq!(
        CURRENT_CONCURRENT_SUPPORT,
        ConcurrentRegistrationSupport::NotNegotiated
    );
    let d = decide(both(ImsAccessPreference::default()));
    assert!(d.wlan_registers && !d.cellular_registers);
    assert_eq!(d.effective_mode(), "single_registration");
}

#[test]
fn concurrency_requires_both_client_support_and_network_negotiation() {
    for support in [
        ConcurrentRegistrationSupport::ClientIncomplete,
        ConcurrentRegistrationSupport::NotNegotiated,
        ConcurrentRegistrationSupport::NotSupported,
        ConcurrentRegistrationSupport::Negotiated,
    ] {
        let mut i = both(ImsAccessPreference::Concurrent);
        i.concurrent_support = support;
        let d = decide(i);
        assert!(d.wlan_registers);
        assert_eq!(
            d.cellular_registers,
            support == ConcurrentRegistrationSupport::Negotiated
        );
    }
}

#[test]
fn enabled_wlan_does_not_block_cellular_refresh_even_during_retry() {
    let mut i = both(ImsAccessPreference::Concurrent);
    i.cellular_registered = true;
    i.cellular_available = false;
    i.wlan_available = false; // a retry must not block the fallback refresh
    let d = decide(i);
    assert!(d.permits(ImsAccess::Cellular));
    assert!(!d.permits(ImsAccess::Wlan));
    assert!(d.legs_to_release(true, false).is_empty());
}

#[test]
fn negotiated_backup_refresh_stays_admitted_while_wlan_recovers() {
    let mut i = both(ImsAccessPreference::Concurrent);
    i.concurrent_support = ConcurrentRegistrationSupport::Negotiated;
    i.cellular_registered = true;
    i.cellular_available = false;
    let d = decide(i);
    assert!(d.permits(ImsAccess::Cellular) && d.permits(ImsAccess::Wlan));
    assert!(d.legs_to_release(true, false).is_empty());
    i.cellular_enabled = false;
    assert!(!decide(i).cellular_registers);
    i.wlan_enabled = false;
    assert_eq!(decide(i).effective_mode(), "none");
}

#[test]
fn returning_wlan_requests_switch_from_legacy_cellular_not_competing_register() {
    let mut i = both(ImsAccessPreference::Concurrent);
    i.cellular_registered = true;
    let d = decide(i);
    assert!(d.wlan_registers && !d.cellular_registers);
    assert_eq!(d.legs_to_release(true, false), vec![ImsAccess::Cellular]);
}

#[test]
fn valid_wlan_fallback_is_sticky_when_cellular_returns() {
    let mut i = both(ImsAccessPreference::Concurrent);
    i.wlan_registered = true;
    assert!(decide(i).wlan_registers);
    assert!(!decide(i).cellular_registers);
    i.wlan_available = false; // refresh due is not lease expiry
    assert!(decide(i).wlan_registers);
    i.wlan_registered = false;
    assert!(decide(i).cellular_registers);
}

#[test]
fn cellular_return_does_not_preempt_wlan_priority() {
    let mut i = both(ImsAccessPreference::Concurrent);
    i.cellular_available = false;
    assert!(decide(i).wlan_registers);
    i.cellular_available = true;
    assert!(decide(i).wlan_registers);
    assert!(!decide(i).cellular_registers);
}

#[test]
fn explicit_preferences_switch_and_fall_back_symmetrically() {
    let mut i = both(ImsAccessPreference::WlanPreferred);
    i.cellular_registered = true;
    assert_eq!(
        decide(i).legs_to_release(true, false),
        vec![ImsAccess::Cellular]
    );
    i.wlan_available = false;
    assert!(decide(i).cellular_registers);
    i = both(ImsAccessPreference::CellularPreferred);
    i.wlan_registered = true;
    assert_eq!(
        decide(i).legs_to_release(false, true),
        vec![ImsAccess::Wlan]
    );
    i.cellular_available = false;
    assert!(decide(i).wlan_registers);
}

#[test]
fn single_mode_and_multi_flow_refusal_keep_wlan_then_cellular_priority() {
    let mut inputs = both(ImsAccessPreference::WlanPreferred);
    inputs.concurrent_support = ConcurrentRegistrationSupport::Negotiated;
    assert_eq!(decide(inputs).effective_mode(), "single_registration");
    assert!(decide(inputs).wlan_registers);
    inputs.preference = ImsAccessPreference::Concurrent;
    inputs.cellular_registered = true;
    inputs.multiple_registration_blocked = true;
    let fallback = decide(inputs);
    assert!(fallback.wlan_registers && !fallback.cellular_registers);
    assert_eq!(
        fallback.legs_to_release(true, false),
        vec![ImsAccess::Cellular]
    );
    inputs.wlan_available = false;
    let keep_primary = decide(inputs);
    assert!(keep_primary.cellular_registers && !keep_primary.wlan_registers);
    assert!(keep_primary.legs_to_release(true, false).is_empty());
    inputs.cellular_registered = false;
    inputs.cellular_available = false;
    assert_eq!(decide(inputs).effective_mode(), "none");
}

#[test]
fn resolves_legacy_unconfirmed_dual_registration_without_disabling_intents() {
    let mut i = both(ImsAccessPreference::Concurrent);
    i.cellular_registered = true;
    i.wlan_registered = true;
    assert_eq!(
        decide(i).legs_to_release(true, true),
        vec![ImsAccess::Cellular]
    );
    assert!(i.cellular_enabled && i.wlan_enabled);
}

#[test]
fn disabled_intent_wins_even_over_a_stale_registration_snapshot() {
    let mut i = both(ImsAccessPreference::Concurrent);
    i.cellular_registered = true;
    i.cellular_enabled = false;
    assert!(!decide(i).cellular_registers);
    i.wlan_enabled = false;
    assert_eq!(decide(i).effective_mode(), "none");
}

#[test]
fn spoofed_identity_never_falls_back_to_cellular() {
    for preference in [
        ImsAccessPreference::Concurrent,
        ImsAccessPreference::WlanPreferred,
        ImsAccessPreference::CellularPreferred,
    ] {
        let mut i = both(preference);
        i.device_identity_spoofed = true;
        assert!(!decide(i).cellular_registers);
        assert!(decide(i).wlan_registers);
        i.wlan_available = false;
        assert_eq!(decide(i).effective_mode(), "none");
    }
}

#[test]
fn every_nonterminal_call_state_defers_access_teardown() {
    for state in [
        "active",
        "held",
        "incoming",
        "ringing",
        "dialing",
        "connecting",
        "unknown",
        "",
    ] {
        assert!(call_blocks_access_switch(state), "{state}");
    }
    for state in [
        "terminated",
        "ended",
        "failed",
        "released",
        "disconnected",
        "cancelled",
        "rejected",
        "completed",
    ] {
        assert!(!call_blocks_access_switch(state), "{state}");
    }
}

#[test]
fn unconfirmed_concurrency_never_authorizes_two_legs_for_any_input_combination() {
    for bits in 0_u16..512 {
        let d = decide(ImsAccessInputs {
            cellular_enabled: bits & 1 != 0,
            wlan_enabled: bits & 2 != 0,
            cellular_available: bits & 4 != 0,
            wlan_available: bits & 8 != 0,
            cellular_registered: bits & 16 != 0,
            wlan_registered: bits & 32 != 0,
            device_identity_spoofed: bits & 64 != 0,
            concurrent_support: if bits & 128 != 0 {
                ConcurrentRegistrationSupport::ClientIncomplete
            } else {
                ConcurrentRegistrationSupport::NotNegotiated
            },
            preference: ImsAccessPreference::Concurrent,
            multiple_registration_blocked: false,
        });
        assert!(!(d.cellular_registers && d.wlan_registers), "{bits}");
    }
}

#[test]
fn accesses_and_preferences_have_their_names() {
    assert_eq!(ImsAccess::Cellular.as_str(), "cellular");
    assert_eq!(ImsAccess::Wlan.as_str(), "wlan");
    assert_eq!(ImsAccessPreference::Concurrent.as_str(), "concurrent");
}
