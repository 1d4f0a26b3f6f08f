use ims_core::bearer::{is_valid_bearer_path, BearerRequest};
use ims_core::cellular_ims::data_slot::{select_data_slot_mode, DataSlotInputs, DataSlotMode};
use ims_core::cellular_ims::errors::{code, CellularImsError};
use ims_core::cellular_ims::native_bearer::{
    adopt_bearer, cellular_ims_error_from_ims_bearer, forced_native_family, ims_context_cid,
    is_native_bearer, native_bearer_path, pinned_profile_forced_family_error,
    requested_families_for, to_bearer_connection, AttemptFamilies, BearerInterfaceOwnership,
    BearerSetup, DiscoveryAction, DiscoveryEvent, ImsBearerError, ImsBearerErrorKind,
    ImsBearerFailureHint, ImsBearerInfo, ImsPcscfDiscovery, MoveStep, NativeImsBearer,
    PcscfDiscoveryRun, WorkerBinding,
};
use ims_core::ip_text::parse_ip;
use ims_core::net::IpAddr;
use ims_core::plan::{CellularImsIpFamilyPreference, FailureClass, ImsConnectionPlan, IpType};

fn ip(value: &str) -> IpAddr {
    parse_ip(value).unwrap()
}

// ------------------------------------------------------------------- data slot

#[test]
fn primary_ims_does_not_require_data6_when_data_is_disabled() {
    let mode = select_data_slot_mode(DataSlotInputs {
        ims_endpoint_available: true,
        data_requested: false,
        data_endpoint_available: false,
    })
    .unwrap();
    assert_eq!(mode, DataSlotMode::UeNativeIms);
}

#[test]
fn ordinary_data_requires_data6() {
    let error = select_data_slot_mode(DataSlotInputs {
        ims_endpoint_available: true,
        data_requested: true,
        data_endpoint_available: false,
    })
    .unwrap_err();
    assert_eq!(error.code(), code::DATA_SLOT_MODE_MISSING);
}

#[test]
fn cellular_ims_only_uses_native_ims_in_the_ue_namespace() {
    let mode = select_data_slot_mode(DataSlotInputs {
        ims_endpoint_available: true,
        data_requested: false,
        data_endpoint_available: false,
    })
    .unwrap();
    assert_eq!(mode, DataSlotMode::UeNativeIms);
    assert_eq!(mode.as_str(), "ue_native_ims");
}

#[test]
fn data_slot_data_and_ims_remain_ue_native() {
    let mode = select_data_slot_mode(DataSlotInputs {
        ims_endpoint_available: true,
        data_requested: true,
        data_endpoint_available: true,
    })
    .unwrap();
    assert_eq!(mode, DataSlotMode::UeNativeImsWithData);
    assert_eq!(mode.as_str(), "ue_native_ims_with_data");
}

#[test]
fn ims_endpoint_is_required_for_every_native_ims_line() {
    let error = select_data_slot_mode(DataSlotInputs {
        ims_endpoint_available: false,
        data_requested: false,
        data_endpoint_available: false,
    })
    .unwrap_err();
    assert_eq!(error.code(), code::DATA_SLOT_MODE_MISSING);
    assert!(select_data_slot_mode(DataSlotInputs::default()).is_err());
}

#[test]
fn allocation_messages_name_what_was_allocated() {
    assert_eq!(
        DataSlotMode::UeNativeIms.allocation_message(),
        "native IMS allocated inside the UE namespace"
    );
    assert_eq!(
        DataSlotMode::UeNativeImsWithData.allocation_message(),
        "native IMS and cellular data allocated inside the UE namespace"
    );
}

// ---------------------------------------------------------------------- errors

#[test]
fn display_without_detail_is_bare_code() {
    assert_eq!(
        CellularImsError::new(code::IMSI_MISSING).render(),
        "cellular_ims_imsi_missing"
    );
}

#[test]
fn display_with_detail_uses_colon_suffix() {
    assert_eq!(
        CellularImsError::with_detail(code::COMMAND_FAILED, "mmcli".to_string()).render(),
        "cellular_ims_command_failed:mmcli"
    );
}

/// A code that is missing from the list is invisible to whoever walks it.
#[test]
fn all_lists_every_declared_code() {
    assert_eq!(
        code::ALL.len(),
        158,
        "code::ALL is out of sync with mod code"
    );
    let mut seen = std::collections::BTreeSet::new();
    for entry in code::ALL.iter() {
        assert!(
            seen.insert(*entry),
            "code::ALL contains a duplicate value: {entry}"
        );
    }
}

/// No code may be a substring of another, or a failure could be routed to the
/// wrong hint.
#[test]
fn no_code_is_a_substring_of_another() {
    for outer in code::ALL.iter() {
        for inner in code::ALL.iter() {
            if outer == inner {
                continue;
            }
            assert!(
                !outer.contains(inner),
                "code {inner} is a substring of {outer}; exact-match routing would be ambiguous"
            );
        }
    }
}

/// Every code names the IMS registration layer, not its voice service.
#[test]
fn codes_use_the_cellular_ims_prefix() {
    for c in code::ALL.iter() {
        if *c == code::LINE_CELLULAR_IMS_CONNECTION_DISABLED {
            assert!(c.starts_with("line_cellular_ims_"), "{c}");
            continue;
        }
        assert!(c.starts_with("cellular_ims_"), "unexpected code shape: {c}");
        assert!(!c.contains("volte"), "code still names VoLTE: {c}");
    }
}

// --------------------------------------------------------------- native bearer

/// A context as the device reports it: address, gateway, DNS and a P-CSCF.
fn reference_info() -> ImsBearerInfo {
    ImsBearerInfo {
        interface: "wwan0".to_string(),
        netdev_method: "probe_answered".to_string(),
        ip_type: "ipv4".to_string(),
        path_device: "/dev/wwan0qmi1".to_string(),
        path_handle: "3263198272".to_string(),
        ipv4_address: Some(ip("10.129.39.207")),
        ipv4_gateway: Some(ip("10.129.39.208")),
        ipv4_dns: vec![ip("172.17.163.218"), ip("172.17.167.218")],
        ipv4_prefix: Some(27),
        pcscf: vec![ip("10.11.12.13")],
        ..Default::default()
    }
}

#[test]
fn native_bearer_reference_session_maps_onto_the_bearer_contract() {
    let bearer = to_bearer_connection(&reference_info()).unwrap();
    assert_eq!(bearer.interface, "wwan0");
    assert_eq!(bearer.ip_type, "ipv4");
    assert_eq!(bearer.ipv4_prefix, Some(27));
    assert_eq!(bearer.local_addr().unwrap(), ip("10.129.39.207"));
    assert_eq!(bearer.settings.ipv4_dns.len(), 2);
    assert_eq!(bearer.settings.pcscf, vec![ip("10.11.12.13")]);
}

#[test]
fn native_bearer_native_path_is_recognisable_and_never_sent_to_modemmanager() {
    let bearer = to_bearer_connection(&reference_info()).unwrap();
    assert!(is_native_bearer(&bearer.path), "{}", bearer.path);
    assert!(!bearer.path.starts_with("/org/freedesktop/"));
    assert!(!is_valid_bearer_path(&bearer.path));
    assert!(!is_native_bearer("/org/freedesktop/ModemManager1/Bearer/4"));
    assert_eq!(native_bearer_path("d", "h"), "native-bearer:d#h");
}

#[test]
fn pinned_profile_does_not_repeat_a_forced_family_with_the_same_mm_profile() {
    let mut request = BearerRequest::ims(false);
    request.profile_id = Some(3);
    let error = pinned_profile_forced_family_error(&request, 6).unwrap();
    assert_eq!(error.code(), code::RUNTIME_IMS_FAMILY_UNSUPPORTED);
    assert!(error
        .detail()
        .is_some_and(|detail| detail.contains("profile_id=3")));
    request.profile_id = None;
    assert!(pinned_profile_forced_family_error(&request, 6).is_none());
}

#[test]
fn native_bearer_a_session_without_any_address_is_rejected() {
    let empty = ImsBearerInfo {
        path_device: "/dev/wwan0qmi1".to_string(),
        path_handle: "1".to_string(),
        ..Default::default()
    };
    let error = to_bearer_connection(&empty).unwrap_err();
    assert_eq!(error.code(), code::IP_SETTINGS_MISSING);
    assert!(adopt_bearer(empty).is_err());
}

#[test]
fn native_bearer_families_follow_the_plan_order() {
    let v4 = ImsConnectionPlan::from_preference(CellularImsIpFamilyPreference::Ipv4First);
    assert_eq!(requested_families_for(&v4), vec![4, 6]);
    let v6 = ImsConnectionPlan::from_preference(CellularImsIpFamilyPreference::Ipv6First);
    assert_eq!(requested_families_for(&v6), vec![6, 4]);
    let only4 = ImsConnectionPlan::from_preference(CellularImsIpFamilyPreference::Ipv4Only);
    assert_eq!(requested_families_for(&only4), vec![4]);
    let only6 = ImsConnectionPlan::from_preference(CellularImsIpFamilyPreference::Ipv6Only);
    assert_eq!(requested_families_for(&only6), vec![6]);
    assert_eq!(
        forced_native_family(ImsBearerFailureHint::NetworkForcedIpv4),
        Some(4)
    );
    assert_eq!(
        forced_native_family(ImsBearerFailureHint::NetworkForcedIpv6),
        Some(6)
    );
    assert_eq!(forced_native_family(ImsBearerFailureHint::Nothing), None);
}

#[test]
fn ims_context_cid_prefers_the_started_profile() {
    let configured = 5;
    let mut request = BearerRequest::ims(false);
    request.profile_id = Some(2);
    assert_eq!(ims_context_cid(&request, configured), 2);
    request.profile_id = Some(99);
    assert_eq!(ims_context_cid(&request, configured), configured);
    request.profile_id = None;
    assert_eq!(ims_context_cid(&request, configured), configured);
    request.profile_id = Some(0);
    assert_eq!(ims_context_cid(&request, configured), configured);
    request.profile_id = Some(258);
    assert_eq!(ims_context_cid(&request, configured), configured);
}

#[test]
fn a_wedge_signature_from_the_secondary_start_is_classified_unsafe() {
    assert_eq!(
        FailureClass::from_details("secondary_qmi_start_failed:endpoint hangup"),
        FailureClass::BasebandWedged
    );
    assert_ne!(
        FailureClass::from_details(
            "secondary_qmi_start_failed:verbose call end reason (2,201): [internal] error"
        ),
        FailureClass::BasebandWedged
    );
}

#[test]
fn a_forced_family_error_keeps_the_wedge_code() {
    let error = cellular_ims_error_from_ims_bearer(ImsBearerError {
        kind: ImsBearerErrorKind::SessionStartFailed,
        hint: ImsBearerFailureHint::BasebandWedged,
        detail: "secondary_qmi_start_failed:endpoint hangup".to_string(),
    });
    assert_eq!(error.code(), code::RUNTIME_IMS_BASEBAND_WEDGED);
    assert_eq!(
        FailureClass::from_error(&error),
        FailureClass::BasebandWedged
    );
    let ordinary = cellular_ims_error_from_ims_bearer(ImsBearerError {
        kind: ImsBearerErrorKind::SessionStartFailed,
        hint: ImsBearerFailureHint::Nothing,
        detail: "secondary_qmi_start_failed:verbose call end reason (2,201): [internal] error"
            .to_string(),
    });
    assert_eq!(ordinary.code(), code::RUNTIME_IMS_BEARER_START_FAILED);
}

#[test]
fn lost_session_does_not_retry_another_family_on_the_dead_bearer() {
    let error = cellular_ims_error_from_ims_bearer(ImsBearerError {
        kind: ImsBearerErrorKind::SessionLost,
        hint: ImsBearerFailureHint::Nothing,
        detail: "secondary_qmi_session_exited:exit status: 0".to_string(),
    });
    assert_eq!(error.code(), code::BEARER_SESSION_LOST);
    assert!(!FailureClass::from_error(&error).is_retryable_family());
    assert!(!FailureClass::from_error(&error).is_unsafe_to_retry());
}

fn device_error(kind: ImsBearerErrorKind, hint: ImsBearerFailureHint) -> ImsBearerError {
    ImsBearerError {
        kind,
        hint,
        detail: "d".to_string(),
    }
}

#[test]
fn device_errors_have_their_codes() {
    for (kind, expected) in [
        (ImsBearerErrorKind::BasebandUnresolved, code::IP_SETTINGS_MISSING),
        (
            ImsBearerErrorKind::EndpointUnavailable,
            code::RUNTIME_IMS_ENDPOINT_UNAVAILABLE,
        ),
        (
            ImsBearerErrorKind::NetdevUnresolved,
            code::RUNTIME_IMS_BEARER_START_FAILED,
        ),
        (ImsBearerErrorKind::SettingsMissing, code::IP_SETTINGS_MISSING),
        (ImsBearerErrorKind::PcscfUnavailable, code::RUNTIME_ALL_PCSCF_FAILED),
    ] {
        let error =
            cellular_ims_error_from_ims_bearer(device_error(kind, ImsBearerFailureHint::Nothing));
        assert_eq!(error.code(), expected);
        assert_eq!(error.detail(), Some("d"));
    }
}

fn setup(preference: CellularImsIpFamilyPreference, profile_id: Option<u32>) -> BearerSetup {
    let mut request = BearerRequest::ims(false);
    request.profile_id = profile_id;
    BearerSetup::new(&request, &ImsConnectionPlan::from_preference(preference))
}

fn started(hint: ImsBearerFailureHint) -> ImsBearerError {
    device_error(ImsBearerErrorKind::SessionStartFailed, hint)
}

#[test]
fn attempts_follow_the_plan() {
    let setup = setup(CellularImsIpFamilyPreference::Ipv6First, None);
    assert_eq!(setup.attempt(), Some(AttemptFamilies::Two(6, 4)));
    let setup = setup.failed(started(ImsBearerFailureHint::Nothing)).unwrap();
    assert_eq!(setup.attempt(), Some(AttemptFamilies::One(6)));
    let setup = setup.failed(started(ImsBearerFailureHint::Nothing)).unwrap();
    assert_eq!(setup.attempt(), Some(AttemptFamilies::One(4)));
    let setup = setup.failed(started(ImsBearerFailureHint::Nothing)).unwrap();
    assert_eq!(setup.attempt(), None);
    assert_eq!(setup.give_up().code(), code::RUNTIME_IMS_BEARER_START_FAILED);
}

#[test]
fn dual_stack_is_left_out_where_one_family_is_admitted() {
    let plan = ImsConnectionPlan {
        families: vec![ims_core::plan::IpFamily::Ipv4],
        attempts: vec![IpType::Ipv4v6],
    };
    let setup = BearerSetup::new(&BearerRequest::ims(true), &plan);
    assert_eq!(setup.attempt(), None);
    assert_eq!(
        setup.give_up().detail(),
        Some("native_ims_no_family_attempted")
    );
}

#[test]
fn forced_family_is_tried_once_and_a_pin_forbids_it() {
    let free = setup(CellularImsIpFamilyPreference::Ipv6First, None);
    let free = free
        .failed(started(ImsBearerFailureHint::NetworkForcedIpv4))
        .unwrap();
    assert_eq!(free.attempt(), Some(AttemptFamilies::One(4)));
    let free = free
        .failed(started(ImsBearerFailureHint::BasebandWedged))
        .unwrap();
    assert_eq!(free.attempt(), None);
    assert_eq!(free.give_up().code(), code::RUNTIME_IMS_BASEBAND_WEDGED);

    let pinned = setup(CellularImsIpFamilyPreference::Ipv6First, Some(3));
    let pinned = pinned
        .failed(started(ImsBearerFailureHint::NetworkForcedIpv4))
        .unwrap();
    assert_eq!(pinned.attempt(), None);
    assert_eq!(
        pinned.give_up().detail(),
        Some("profile_pin_family_conflict:profile_id=3:forced_family=4")
    );

    let wedged = setup(CellularImsIpFamilyPreference::Ipv6First, None)
        .failed(started(ImsBearerFailureHint::BasebandWedged))
        .unwrap_err();
    assert_eq!(wedged.code(), code::RUNTIME_IMS_BASEBAND_WEDGED);
}

fn discovered(source: &str) -> ImsPcscfDiscovery {
    ImsPcscfDiscovery {
        candidates: vec![ip("192.0.2.20")],
        context_id: Some(2),
        source: source.to_string(),
    }
}

fn lost_pcscf_session() -> ImsBearerError {
    device_error(ImsBearerErrorKind::SessionLost, ImsBearerFailureHint::Nothing)
}

fn held() -> NativeImsBearer {
    adopt_bearer(reference_info()).unwrap()
}

/// What a discovery came to: its result, and how often the provider was asked and the
/// fallback was run.
struct Discovered {
    result: Result<ImsPcscfDiscovery, CellularImsError>,
    asked: usize,
    fallbacks: usize,
}

/// Runs a discovery on a session that is alive until it is lost behind the answer of
/// the provider or of the fallback.
fn discover(
    bearer: &NativeImsBearer,
    reply: Result<Option<ImsPcscfDiscovery>, ImsBearerError>,
    fallback: Result<ImsPcscfDiscovery, CellularImsError>,
    lost_behind_provider: bool,
    lost_behind_fallback: bool,
) -> Discovered {
    let mut run = PcscfDiscoveryRun::new();
    let (mut reply, mut fallback) = (Some(reply), Some(fallback));
    let (mut asked, mut fallbacks, mut alive) = (0, 0, true);
    let mut event = DiscoveryEvent::Looked;
    loop {
        let look = if alive { Ok(()) } else { Err(lost_pcscf_session()) };
        event = match bearer.discover_pcscf(&mut run, look, true, event) {
            DiscoveryAction::AskProvider => {
                asked += 1;
                alive = !lost_behind_provider;
                DiscoveryEvent::Provider(reply.take().expect("one provider observation"))
            },
            DiscoveryAction::RunFallback => {
                fallbacks += 1;
                alive = !lost_behind_fallback;
                DiscoveryEvent::Fallback(fallback.take().expect("one fallback"))
            },
            DiscoveryAction::LookAgain => DiscoveryEvent::Looked,
            DiscoveryAction::Finish(result) => return Discovered { result, asked, fallbacks },
        };
    }
}

#[test]
fn provider_success_missing_and_lost_results_never_retry_legacy_at() {
    let missing = device_error(
        ImsBearerErrorKind::PcscfUnavailable,
        ImsBearerFailureHint::Nothing,
    );
    for (reply, expected_code) in [
        (Ok(Some(discovered("provider"))), None),
        (Err(missing), Some(code::RUNTIME_ALL_PCSCF_FAILED)),
        (Err(lost_pcscf_session()), Some(code::BEARER_SESSION_LOST)),
    ] {
        let bearer = held();
        let before = format!("{:?}", bearer.connection.settings);
        let done = discover(&bearer, reply, Ok(discovered("legacy_exact")), false, false);
        assert_eq!(done.asked, 1);
        assert_eq!(done.fallbacks, 0);
        if let Some(code) = expected_code {
            assert_eq!(done.result.unwrap_err().code(), code);
        } else {
            assert_eq!(done.result.unwrap().source, "provider");
        }
        assert_eq!(format!("{:?}", bearer.connection.settings), before);
    }
}

#[test]
fn unsupported_provider_runs_the_exact_address_fallback_once() {
    let done = discover(&held(), Ok(None), Ok(discovered("legacy_exact")), false, false);
    assert_eq!(done.fallbacks, 1);
    assert_eq!(done.result.unwrap().source, "legacy_exact");
}

#[test]
fn provider_or_fallback_liveness_loss_discards_the_observation() {
    for lose_during_read in [true, false] {
        let done = discover(&held(), Ok(None), Ok(discovered("stale")), lose_during_read, true);
        assert_eq!(done.result.unwrap_err().code(), code::BEARER_SESSION_LOST);
        assert_eq!(done.fallbacks, usize::from(!lose_during_read));
    }
}

#[test]
fn discovery_on_a_lost_session_asks_nobody() {
    let mut run = PcscfDiscoveryRun::new();
    let lost = Err(lost_pcscf_session());
    let action = held().discover_pcscf(&mut run, lost, true, DiscoveryEvent::Looked);
    let DiscoveryAction::Finish(result) = action else {
        panic!("the session is lost");
    };
    assert_eq!(result.unwrap_err().code(), code::BEARER_SESSION_LOST);
}

fn binding(generation: u64) -> WorkerBinding {
    WorkerBinding {
        worker: 1,
        generation,
    }
}

fn owned(ownership: BearerInterfaceOwnership) -> NativeImsBearer {
    let mut info = reference_info();
    info.interface_ownership = ownership;
    adopt_bearer(info).unwrap()
}

#[test]
fn observations_of_a_replaced_worker_do_not_count() {
    let mut bearer = owned(BearerInterfaceOwnership::WorkerNative);
    assert_eq!(
        bearer.move_into_worker(binding(1), true, false, true).unwrap(),
        MoveStep::Stay
    );
    assert!(bearer.worker_binding_is_current(true));
    assert!(!bearer.worker_binding_is_current(false));
    let mut run = PcscfDiscoveryRun::new();
    let action = bearer.discover_pcscf(&mut run, Ok(()), false, DiscoveryEvent::Looked);
    let DiscoveryAction::Finish(Err(error)) = action else {
        panic!("the worker is another one");
    };
    assert_eq!(error.code(), code::RUNTIME_UE_WORKER_GENERATION_CHANGED);
    // The session itself is alive, whatever became of the worker.
    assert!(bearer.check_liveness(Ok(())).is_ok());
    assert_eq!(
        bearer.check_liveness(Err(lost_pcscf_session())).unwrap_err().code(),
        code::BEARER_SESSION_LOST
    );
    assert_eq!(
        bearer.check_usable(Ok(()), false).unwrap_err().code(),
        code::RUNTIME_UE_WORKER_GENERATION_CHANGED
    );
    assert!(bearer.check_usable(Ok(()), true).is_ok());
    assert_eq!(bearer.network_to_release(false), None);
    assert_eq!(bearer.network_to_release(true), Some(binding(1)));
}

#[test]
fn only_an_interface_of_its_own_crosses_into_the_worker() {
    let mut host = owned(BearerInterfaceOwnership::HostManagedPrimary);
    let refused = host.move_into_worker(binding(1), true, false, true).unwrap_err();
    assert_eq!(refused.code(), code::COMMAND_FAILED);
    assert_eq!(
        refused.detail(),
        Some("native bearer refuses to move host-managed interface wwan0")
    );
    let mut unknown = owned(BearerInterfaceOwnership::Unknown);
    assert_eq!(
        unknown.move_into_worker(binding(1), true, false, true).unwrap_err().detail(),
        Some("native bearer ownership is unknown; refusing to move wwan0")
    );
    let mut own = owned(BearerInterfaceOwnership::ApplicationOwnedNative);
    assert_eq!(
        own.move_into_worker(binding(1), true, false, false).unwrap_err().code(),
        code::RUNTIME_UE_WORKER_UNAVAILABLE
    );
    assert_eq!(
        own.move_into_worker(binding(1), false, false, true).unwrap_err().code(),
        code::RUNTIME_UE_WORKER_GENERATION_CHANGED
    );
    assert_eq!(
        own.move_into_worker(binding(1), true, false, true).unwrap(),
        MoveStep::Move
    );
}

#[test]
fn moved_interface_is_taken_back_once_that_is_confirmed() {
    let mut bearer = owned(BearerInterfaceOwnership::ApplicationOwnedNative);
    let failed = bearer
        .interface_moved(binding(1), "ns-a", &Err("denied".to_string()))
        .unwrap_err();
    assert_eq!(
        failed.detail(),
        Some("move native bearer wwan0 into ns-a: denied")
    );
    assert_eq!(bearer.restore_from_worker(true), None);
    bearer.interface_moved(binding(1), "ns-a", &Ok(())).unwrap();
    assert!(bearer.interface_observed(&Some(vec!["wwan0".to_string()])).is_ok());
    let unseen = bearer.interface_observed(&None).unwrap_err();
    assert_eq!(
        unseen.detail(),
        Some("worker cannot observe moved native interface wwan0")
    );
    assert_eq!(
        bearer.move_into_worker(binding(1), true, true, true).unwrap(),
        MoveStep::Stay
    );
    assert!(bearer.move_into_worker(binding(2), true, true, true).is_err());
    assert_eq!(bearer.restore_from_worker(false), None);
    assert_eq!(bearer.restore_from_worker(true), Some(binding(1)));
    bearer.interface_restored(true, false);
    assert!(bearer.moved_to_worker);
    bearer.interface_restored(true, true);
    assert!(!bearer.moved_to_worker);
    assert_eq!(bearer.worker_binding, None);
}

// ------------------------------------------------------------------------ plan

#[test]
fn plans_try_both_families_first_unless_one_is_exclusive() {
    let plan = ImsConnectionPlan::from_preference(CellularImsIpFamilyPreference::Ipv4First);
    assert_eq!(plan.initial_bearer_attempt(), Some(IpType::Ipv4v6));
    assert_eq!(
        *plan.bearer_attempts(),
        vec![IpType::Ipv4v6, IpType::Ipv4, IpType::Ipv6]
    );
    let only = ImsConnectionPlan::from_preference(CellularImsIpFamilyPreference::Ipv6Only);
    assert_eq!(only.initial_bearer_attempt(), Some(IpType::Ipv6));
    assert_eq!(IpType::Ipv4v6.as_mm_str(), "ipv4v6");
}

#[test]
fn failure_details_are_told_apart() {
    assert_eq!(
        FailureClass::from_details("[3gpp] IPv6-Only-Allowed"),
        FailureClass::NetworkForcedIpv6
    );
    assert_eq!(FailureClass::from_details(""), FailureClass::Other);
    let prefix = FailureClass::from_details("prefix-unavailable");
    assert_eq!(prefix, FailureClass::PrefixUnavailable);
    assert!(prefix.is_retryable_family());
    let bare = CellularImsError::new(code::IMSI_MISSING);
    assert_eq!(FailureClass::from_error(&bare), FailureClass::Other);
}
