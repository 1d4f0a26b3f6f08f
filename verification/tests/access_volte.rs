use ims_core::access::volte::channel::VolteSipChannel;
use ims_core::access::volte::ipsec::{parse_security_server, SecAgree};
use ims_core::access::volte::live::{
    connect_live, ensure_generation, key_value, map_channel_error, map_register_error,
    modem_identity, new_sip_instance, offered_security, offered_security_with,
    parse_digest_challenge, request_uri, selected_security, sim_identity, sip_instance_of,
    to_ims_error, AkaAnswer, ConnectEvent, ConnectOutcome, ConnectStart, ConnectStep, LiveConnect,
    RegistrationMode, VoltePhase, VolteRegisterAuthenticator, VolteStage, VolteStatus,
    SECURITY_CLIENT_PORT, SECURITY_SERVER_PORT,
};
use ims_core::access::volte::native_bearer::{
    check_endpoint, configured_netdevs, finish_dual_stack, finish_one, forced_qmi_family,
    is_native_bearer, merge_current_settings, native_bearer_path, netdev_config_for,
    netdev_unresolved, parse_addr as parse_bare_addr, qmi_families_for, session_netdev,
    to_bearer_connection, wds_error_to_volte, Attempt, BearerSetup, CurrentSettings, ImsSession,
    ResolvedNetdev, SessionAction, SessionEvent, SessionStart, WdsError,
};
use ims_core::access::volte::pcscf::{
    build_dns_query, discover_pcscf, dns_query_id, parse_addr, parse_dns_response,
    parse_ip_settings, pcscf_socket, read_dns_name, Discovery, DnsQuestion, DnsRecords,
    ImsIpSettings,
};
use ims_core::bearer::is_valid_bearer_path;
use ims_core::cellular_ims::errors::{code, CellularImsError};
use ims_core::context::{ImsRoute, SipTransport};
use ims_core::ims_error::ImsError;
use ims_core::ip_text::parse_ip;
use ims_core::net::{BoundSocket, IpAddr, SocketAddr};
use ims_core::plan::{FailureClass, ImsConnectionPlan, VolteIpFamilyPreference};

const SAMPLE: &str = "\
IPv6 address: 2001:db8::2/64
IPv6 gateway address: 2001:db8::1
IPv6 primary DNS: 2001:db8::53
IPv6 secondary DNS: 2001:db8::54
IPv4 address: 10.0.0.2
IPv4 gateway address: 10.0.0.1
IPv4 primary DNS: 10.0.0.53";

fn ip(value: &str) -> IpAddr {
    parse_ip(value).unwrap()
}

fn addr(value: &str, port: u16) -> SocketAddr {
    SocketAddr::new(ip(value), port)
}

// ----------------------------------------------------------------------- pcscf

#[test]
fn parses_ipv6_and_ipv4_blocks() {
    let s = parse_ip_settings(SAMPLE);
    assert_eq!(s.ipv6_address, Some(ip("2001:db8::2")));
    assert_eq!(s.ipv6_gateway, Some(ip("2001:db8::1")));
    assert_eq!(s.ipv6_dns.len(), 2);
    assert_eq!(s.ipv4_address, Some(IpAddr::V4(0x0a00_0002)));
}

#[test]
fn local_addr_prefers_ipv6() {
    let s = parse_ip_settings(SAMPLE);
    assert_eq!(s.local_addr(), Some(ip("2001:db8::2")));
}

#[test]
fn resolve_pcscf_prefers_explicit_then_dns() {
    let mut s = parse_ip_settings(SAMPLE);
    assert_eq!(s.resolve_pcscf().unwrap(), ip("2001:db8::53"));
    s.pcscf.push(ip("2001:db8::99"));
    assert_eq!(s.resolve_pcscf().unwrap(), ip("2001:db8::99"));
}

#[test]
fn resolve_pcscf_errors_when_nothing() {
    let s = ImsIpSettings::default();
    assert_eq!(
        s.resolve_pcscf().unwrap_err().code(),
        code::RUNTIME_ALL_PCSCF_FAILED
    );
}

#[test]
fn family_mismatch_detected() {
    let s = parse_ip_settings("IPv6 address: 2001:db8::2");
    let v4 = ip("10.0.0.1");
    assert_eq!(
        s.ensure_family_match(v4).unwrap_err().code(),
        code::PCSCF_FAMILY_MISMATCH
    );
    let v6 = ip("2001:db8::1");
    assert_eq!(s.ensure_family_match(v6).unwrap(), v6);
}

#[test]
fn parse_addr_strips_prefix_len() {
    assert_eq!(parse_addr("2001:db8::2/64"), Some(ip("2001:db8::2")));
    assert_eq!(
        parse_addr("10.0.0.2 255.255.255.0"),
        Some(IpAddr::V4(0x0a00_0002))
    );
}

#[test]
fn parses_compressed_aaaa_dns_answer() {
    let id = 0x1234;
    let name = "pcscf.ims.example";
    let query = build_dns_query(id, name, 28).unwrap();
    let mut packet = query.clone();
    packet[2..4].copy_from_slice(&0x8180u16.to_be_bytes());
    packet[6..8].copy_from_slice(&1u16.to_be_bytes());
    packet.extend_from_slice(&[0xc0, 0x0c]);
    packet.extend_from_slice(&28u16.to_be_bytes());
    packet.extend_from_slice(&1u16.to_be_bytes());
    packet.extend_from_slice(&60u32.to_be_bytes());
    packet.extend_from_slice(&16u16.to_be_bytes());
    packet.extend_from_slice(&[0, 0, 0, 0, 0, 0, 0, 0, 0, 0, 0, 0, 0, 0, 0, 1]);

    let records = parse_dns_response(id, &packet).unwrap();
    assert_eq!(records.addresses, vec![ip("::1")]);
}

#[test]
fn pcscf_socket_uses_standard_sip_port() {
    assert_eq!(pcscf_socket(ip("127.0.0.1")).port, 5060);
}

#[test]
fn settings_without_a_local_address_match_nothing() {
    let s = ImsIpSettings::default();
    assert_eq!(
        s.ensure_family_match(ip("10.0.0.1")).unwrap_err().code(),
        code::IP_SETTINGS_MISSING
    );
}

#[test]
fn settings_skip_empty_values_and_repeated_addresses() {
    let s = parse_ip_settings("P-CSCF: 10.0.0.9\r\npcscf: 10.0.0.9\nIPv4 gateway:\nnoise\nipv4 GATEWAY: 10.0.0.1");
    assert_eq!(s.pcscf, vec![ip("10.0.0.9")]);
    assert_eq!(s.ipv4_gateway, Some(ip("10.0.0.1")));
    assert_eq!(s.ipv6_address, None);
}

#[test]
fn dns_query_is_written_label_by_label() {
    let query = build_dns_query(0x0102, "a.bc..", 33).unwrap();
    assert_eq!(
        query,
        vec![1, 2, 1, 0, 0, 1, 0, 0, 0, 0, 0, 0, 1, b'a', 2, b'b', b'c', 0, 0, 33, 0, 1]
    );
    assert_eq!(
        build_dns_query(1, "a..b", 1).unwrap_err().code(),
        code::RUNTIME_ALL_PCSCF_FAILED
    );
    let long = "x".repeat(64);
    assert!(build_dns_query(1, &long, 1).is_err());
    assert!(build_dns_query(1, "", 1).is_err());
}

#[test]
fn dns_query_numbers_depend_on_name_and_type() {
    let expected = |name: &str, kind: u16| {
        let mut hash = 0x5a17u16 ^ kind;
        for byte in name.bytes() {
            hash = hash.rotate_left(5) ^ u16::from(byte);
        }
        hash
    };
    for name in ["", "pcscf.ims.example", "_sip._udp.ims.example"] {
        for kind in [1u16, 28, 33] {
            assert_eq!(dns_query_id(name, kind), expected(name, kind));
        }
    }
}

fn answer(id: u16, records: &[(u16, Vec<u8>)]) -> Vec<u8> {
    let mut packet = build_dns_query(id, "ims.example", 1).unwrap();
    packet[2] = 0x81;
    packet[3] = 0x80;
    packet[7] = records.len() as u8;
    for (kind, data) in records {
        packet.extend_from_slice(&[0xc0, 0x0c]);
        packet.extend_from_slice(&kind.to_be_bytes());
        packet.extend_from_slice(&[0, 1, 0, 0, 0, 60]);
        packet.extend_from_slice(&(data.len() as u16).to_be_bytes());
        packet.extend_from_slice(data);
    }
    packet
}

#[test]
fn dns_answers_give_addresses_and_service_targets_once() {
    let target = vec![0, 1, 0, 1, 0x13, 0xc4, 3, b's', b'i', b'p', 0xc0, 0x0c];
    let packet = answer(
        7,
        &[
            (1, vec![10, 0, 0, 7]),
            (33, target.clone()),
            (33, target),
            (16, vec![0]),
            (33, vec![0, 1, 0, 1, 0, 0, 0]),
        ],
    );
    let records = parse_dns_response(7, &packet).unwrap();
    assert_eq!(records.addresses, vec![ip("10.0.0.7")]);
    assert_eq!(records.srv_targets, vec!["sip.ims.example".to_string()]);
}

#[test]
fn dns_answers_that_cannot_be_trusted_are_refused() {
    let good = answer(7, &[(1, vec![10, 0, 0, 7])]);
    assert!(parse_dns_response(8, &good).is_err());
    assert!(parse_dns_response(7, &good[..11]).is_err());
    assert!(parse_dns_response(7, &good[..good.len() - 1]).is_err());
    let mut failed = good.clone();
    failed[3] = 0x83;
    assert_eq!(
        parse_dns_response(7, &failed).unwrap_err().code(),
        code::RUNTIME_ALL_PCSCF_FAILED
    );
}

#[test]
fn dns_names_end_behind_their_first_pointer() {
    let packet = [1, b'a', 0, 2, b'b', b'c', 0xc0, 0x00, 9];
    assert_eq!(
        read_dns_name(&packet, 3).unwrap(),
        ("bc.a".to_string(), 8)
    );
    assert!(read_dns_name(&[0xc0, 0x00], 0).is_err());
    assert!(read_dns_name(&[0x40, 0x00], 0).is_err());
    assert!(read_dns_name(&[2, 0xff, 0xfe, 0], 0).is_err());
    assert!(read_dns_name(&[], 0).is_err());
}

fn records(addresses: &[&str], targets: &[&str]) -> Option<DnsRecords> {
    Some(DnsRecords {
        addresses: addresses.iter().map(|a| ip(a)).collect(),
        srv_targets: targets.iter().map(|t| t.to_string()).collect(),
    })
}

fn question(server: &str, name: &str, record_type: u16) -> Option<DnsQuestion> {
    Some(DnsQuestion {
        server: ip(server),
        name: name.to_string(),
        record_type,
    })
}

#[test]
fn discovery_prefers_what_is_known() {
    let mut s = parse_ip_settings(SAMPLE);
    let known = discover_pcscf(&s, "ims.example", &Some(" 2001:db8::77 ".to_string())).unwrap();
    assert!(matches!(known, Discovery::Known(a) if a == ip("2001:db8::77")));
    let wrong = discover_pcscf(&s, "ims.example", &Some("10.0.0.1".to_string())).unwrap_err();
    assert_eq!(wrong.code(), code::PCSCF_FAMILY_MISMATCH);
    s.pcscf.push(ip("2001:db8::88"));
    let given = discover_pcscf(&s, "ims.example", &Some("bogus".to_string())).unwrap();
    assert!(matches!(given, Discovery::Known(a) if a == ip("2001:db8::88")));
    let nothing = discover_pcscf(&ImsIpSettings::default(), "ims.example", &None).unwrap_err();
    assert_eq!(nothing.code(), code::IP_SETTINGS_MISSING);
}

#[test]
fn discovery_asks_names_then_services_then_the_next_server() {
    let mut s = parse_ip_settings("IPv4 address: 10.0.0.2\nIPv4 primary DNS: 10.0.0.53\nIPv4 secondary DNS: 10.0.0.54");
    s.ipv4_dns.push(ip("::1"));
    let Discovery::Ask(mut search) = discover_pcscf(&s, "ims.example", &None).unwrap() else {
        panic!("nothing is known")
    };
    assert_eq!(search.servers.len(), 2);
    assert_eq!(search.question(), question("10.0.0.53", "pcscf.ims.example", 1));
    assert_eq!(search.reply(records(&["::9"], &[])), None);
    assert_eq!(search.question(), question("10.0.0.53", "_sip._udp.ims.example", 33));
    assert_eq!(search.reply(records(&[], &["a.example", "b.example"])), None);
    assert_eq!(search.question(), question("10.0.0.53", "a.example", 1));
    assert_eq!(search.reply(None), None);
    assert_eq!(search.question(), question("10.0.0.53", "b.example", 1));
    assert_eq!(search.reply(records(&[], &[])), None);
    assert_eq!(search.question(), question("10.0.0.53", "_sip._tcp.ims.example", 33));
    assert_eq!(search.reply(None), None);
    assert_eq!(search.question(), question("10.0.0.54", "pcscf.ims.example", 1));
    assert_eq!(
        search.reply(records(&["::9", "10.9.9.9"], &[])),
        Some(ip("10.9.9.9"))
    );
}

#[test]
fn discovery_comes_to_an_end() {
    let s = parse_ip_settings("IPv4 address: 10.0.0.2\nIPv4 primary DNS: 10.0.0.53");
    let Discovery::Ask(mut search) = discover_pcscf(&s, "ims.example", &None).unwrap() else {
        panic!("nothing is known")
    };
    let mut asked = 0;
    while search.question().is_some() {
        assert_eq!(search.reply(None), None);
        asked += 1;
    }
    assert_eq!(asked, 3);
    assert_eq!(search.reply(None), None);
    assert_eq!(s.resolve_pcscf().unwrap(), ip("10.0.0.53"));
}

// --------------------------------------------------------------- native bearer

/// The exact settings of a successful IPv4 session.
fn reference_settings() -> CurrentSettings {
    CurrentSettings {
        ip_family: Some("ipv4".to_string()),
        ipv4_address: Some("10.129.39.207".to_string()),
        ipv4_gateway: Some("10.129.39.208".to_string()),
        ipv4_dns: vec!["172.17.163.218".to_string(), "172.17.167.218".to_string()],
        ipv4_prefix: Some(27),
        mtu: Some(1500),
        ..Default::default()
    }
}

#[test]
fn reference_session_maps_onto_the_bearer_contract() {
    let bearer = to_bearer_connection(
        "/dev/wwan0qmi0",
        "3263198272",
        "wwan0",
        4,
        &reference_settings(),
    )
    .unwrap();
    assert_eq!(bearer.interface, "wwan0");
    assert_eq!(bearer.ip_type, "ipv4");
    assert_eq!(bearer.ipv4_prefix, Some(27));
    assert_eq!(bearer.mtu, Some(1500));
    assert_eq!(bearer.local_addr().unwrap(), ip("10.129.39.207"));
    assert_eq!(bearer.settings.ipv4_dns.len(), 2);
}

#[test]
fn native_path_is_recognisable_and_never_sent_to_modemmanager() {
    let bearer = to_bearer_connection(
        "/dev/wwan0qmi0",
        "3263198272",
        "wwan0",
        4,
        &reference_settings(),
    )
    .unwrap();
    assert!(is_native_bearer(&bearer.path), "{}", bearer.path);
    assert!(!bearer.path.starts_with("/org/freedesktop/"));
    assert!(!is_valid_bearer_path(&bearer.path));
    assert!(!is_native_bearer("/org/freedesktop/ModemManager1/Bearer/4"));
    assert!(is_valid_bearer_path("/org/freedesktop/ModemManager1/Bearer/4"));
    assert_eq!(
        native_bearer_path("/dev/wwan0qmi0", "7"),
        "qmi-wds:/dev/wwan0qmi0#7"
    );
}

#[test]
fn a_session_without_any_address_is_rejected() {
    let empty = CurrentSettings::default();
    let error = to_bearer_connection("/dev/wwan0qmi0", "1", "wwan0", 4, &empty).unwrap_err();
    assert_eq!(error.code(), code::IP_SETTINGS_MISSING);
}

#[test]
fn ipv6_session_keeps_its_prefix_and_reports_the_right_type() {
    let settings = CurrentSettings {
        ipv6_address: Some("2001:db8::20".to_string()),
        ipv6_gateway: Some("2001:db8::1".to_string()),
        ipv6_prefix: Some(64),
        ..Default::default()
    };
    let bearer = to_bearer_connection("/dev/wwan0qmi0", "9", "wwan3", 6, &settings).unwrap();
    assert_eq!(bearer.ip_type, "ipv6");
    assert_eq!(bearer.ipv6_prefix, Some(64));
    assert!(bearer.local_addr().unwrap().is_ipv6());
}

#[test]
fn pcscf_from_pco_reaches_the_bearer_settings() {
    let settings = CurrentSettings {
        ipv4_address: Some("10.129.39.207".to_string()),
        pcscf: vec!["10.11.12.13".to_string(), "10.11.12.13".to_string()],
        ..Default::default()
    };
    let bearer = to_bearer_connection("/dev/wwan0qmi0", "1", "wwan0", 4, &settings).unwrap();
    assert_eq!(bearer.settings.pcscf, vec![ip("10.11.12.13")]);
}

#[test]
fn families_follow_the_plan_order() {
    let v4 = ImsConnectionPlan::from_preference(VolteIpFamilyPreference::Ipv4First);
    assert_eq!(qmi_families_for(&v4), vec![4, 6]);
    let v6 = ImsConnectionPlan::from_preference(VolteIpFamilyPreference::Ipv6First);
    assert_eq!(qmi_families_for(&v6), vec![6, 4]);
    let only4 = ImsConnectionPlan::from_preference(VolteIpFamilyPreference::Ipv4Only);
    assert_eq!(qmi_families_for(&only4), vec![4]);
    let only6 = ImsConnectionPlan::from_preference(VolteIpFamilyPreference::Ipv6Only);
    assert_eq!(qmi_families_for(&only6), vec![6]);
    assert_eq!(forced_qmi_family(FailureClass::NetworkForcedIpv4), Some(4));
    assert_eq!(forced_qmi_family(FailureClass::NetworkForcedIpv6), Some(6));
    assert_eq!(forced_qmi_family(FailureClass::PrefixUnavailable), None);
}

fn v4_settings() -> CurrentSettings {
    CurrentSettings {
        ipv4_address: Some("10.0.0.2".to_string()),
        ipv4_gateway: Some("10.0.0.1".to_string()),
        ipv4_prefix: Some(30),
        ipv4_dns: vec!["10.0.0.53".to_string()],
        pcscf: vec!["10.0.0.10".to_string()],
        mtu: Some(1500),
        ..Default::default()
    }
}

fn v6_settings() -> CurrentSettings {
    CurrentSettings {
        ipv6_address: Some("2001:db8::2".to_string()),
        ipv6_gateway: Some("2001:db8::1".to_string()),
        ipv6_prefix: Some(64),
        ipv6_dns: vec!["2001:db8::53".to_string()],
        pcscf: vec!["10.0.0.10".to_string(), "2001:db8::10".to_string()],
        mtu: Some(1428),
        ..Default::default()
    }
}

#[test]
fn dual_stack_settings_merge_both_families_and_deduplicate_pcscf() {
    let ipv4 = v4_settings();
    let ipv6 = v6_settings();
    let merged = merge_current_settings(&[&ipv4, &ipv6]);
    assert_eq!(merged.ip_family.as_deref(), Some("ipv4v6"));
    assert_eq!(merged.ipv4_address.as_deref(), Some("10.0.0.2"));
    assert_eq!(merged.ipv6_address.as_deref(), Some("2001:db8::2"));
    assert_eq!(merged.mtu, Some(1428));
    assert_eq!(
        merged.pcscf,
        vec!["10.0.0.10".to_string(), "2001:db8::10".to_string()]
    );
}

#[test]
fn wedge_errors_stay_classifiable_as_wedges_through_the_conversion() {
    let wedged = WdsError::BasebandWedged("error: operation failed: endpoint hangup".to_string());
    let converted = wds_error_to_volte(wedged);
    let class = FailureClass::from_details(converted.detail().unwrap_or(""));
    assert_eq!(class, FailureClass::BasebandWedged);
    assert!(class.is_unsafe_to_retry());
}

#[test]
fn every_wedge_stays_one_whatever_the_modem_said() {
    for said in ["modem gone", "", "IPV4-ONLY-ALLOWED"] {
        let converted = wds_error_to_volte(WdsError::BasebandWedged(said.to_string()));
        assert_eq!(
            converted.detail(),
            Some(format!("wds_baseband_wedged:{said}").as_str())
        );
        assert_eq!(
            FailureClass::from_details(converted.detail().unwrap()),
            FailureClass::BasebandWedged
        );
    }
    let other = wds_error_to_volte(WdsError::Failed("modem gone".to_string()));
    assert_eq!(FailureClass::from_details(other.detail().unwrap()), FailureClass::Other);
}

#[test]
fn family_rejection_survives_as_a_readable_reason() {
    let refused = WdsError::StartFailed {
        reason: "verbose call end reason (6,50): [3gpp] ipv4-only-allowed".to_string(),
    };
    let converted = wds_error_to_volte(refused);
    let detail = converted.detail().unwrap_or_default();
    assert!(detail.contains("ipv4-only-allowed"), "{detail}");
    let class = FailureClass::from_details(detail);
    assert_eq!(class, FailureClass::NetworkForcedIpv4);
    assert!(!class.is_unsafe_to_retry());
}

#[test]
fn addresses_with_inline_prefixes_are_parsed_bare() {
    assert_eq!(
        parse_bare_addr(Some("2001:db8::20/64")),
        Some(ip("2001:db8::20"))
    );
    assert_eq!(parse_bare_addr(Some("bogus")), None);
    assert_eq!(parse_bare_addr(None), None);
}

#[test]
fn session_errors_keep_their_kind() {
    let missing = wds_error_to_volte(WdsError::SettingsUnavailable("x".to_string()));
    assert_eq!(missing.code(), code::IP_SETTINGS_MISSING);
    assert_eq!(missing.detail(), Some("wds_settings_unavailable:x"));
    let other = wds_error_to_volte(WdsError::Failed("x".to_string()));
    assert_eq!(other.code(), code::RUNTIME_MM_BEARER_CONNECT_FAILED);
}

#[test]
fn endpoint_is_checked_before_anything_is_started() {
    let ready = Ok("baseband".to_string());
    assert!(check_endpoint("/dev/q", true, &ready).is_none());
    let down = check_endpoint("/dev/q", false, &ready).unwrap();
    assert_eq!(down.code(), code::RUNTIME_MM_BEARER_CONNECT_FAILED);
    assert_eq!(down.detail(), Some("qmi_proxy_unavailable:/dev/q"));
    let unknown = check_endpoint("/dev/q", true, &Err("none".to_string())).unwrap();
    assert_eq!(unknown.code(), code::IP_SETTINGS_MISSING);
    assert_eq!(unknown.detail(), Some("native_ims_baseband_unresolved:none"));
    assert_eq!(
        netdev_unresolved("gone").detail(),
        Some("native_ims_netdev_unresolved:gone")
    );
}

fn start_error(reason: &str) -> CellularImsError {
    wds_error_to_volte(WdsError::StartFailed {
        reason: reason.to_string(),
    })
}

#[test]
fn dual_stack_comes_first_and_then_each_family() {
    let plan = ImsConnectionPlan::from_preference(VolteIpFamilyPreference::Ipv6First);
    let setup = BearerSetup::new(&plan);
    assert_eq!(setup.attempt(), Attempt::Dual(6, 4));
    let setup = setup.failed(start_error("busy")).unwrap();
    assert_eq!(setup.attempt(), Attempt::Single(6));
    let setup = setup.failed(start_error("busy again")).unwrap();
    assert_eq!(setup.attempt(), Attempt::Single(4));
    let setup = setup.failed(start_error("last")).unwrap();
    assert_eq!(setup.attempt(), Attempt::Exhausted);
    assert_eq!(setup.give_up().detail(), Some("wds_start_failed:last"));
}

#[test]
fn forced_family_is_the_only_one_left_and_a_wedge_ends_it_all() {
    let plan = ImsConnectionPlan::from_preference(VolteIpFamilyPreference::Ipv6First);
    let setup = BearerSetup::new(&plan);
    let setup = setup.failed(start_error("[3gpp] ipv4-only-allowed")).unwrap();
    assert_eq!(setup.attempt(), Attempt::Single(4));
    let ended = setup.failed(start_error("Endpoint Hangup")).unwrap_err();
    assert_eq!(ended.detail(), Some("wds_start_failed:Endpoint Hangup"));
    let nothing = BearerSetup {
        families: vec![],
        dual: false,
        next: 0,
        last_error: None,
    };
    assert_eq!(
        nothing.give_up().detail(),
        Some("native_ims_no_family_attempted")
    );
}

fn session(handle: &str, family: u8, settings: CurrentSettings) -> ImsSession {
    ImsSession {
        packet_data_handle: handle.to_string(),
        ip_family: family,
        settings,
    }
}

fn netdev(interface: &str) -> ResolvedNetdev {
    ResolvedNetdev {
        interface: interface.to_string(),
        method: "probe_answered".to_string(),
    }
}

#[test]
fn dual_stack_sessions_become_one_bearer() {
    let sessions = vec![session("1", 4, v4_settings()), session("2", 6, v6_settings())];
    let bearer = finish_dual_stack("/dev/q", sessions, vec![netdev("wwan1"), netdev("wwan1")])
        .unwrap();
    assert_eq!(bearer.connection.path, "qmi-wds:/dev/q#1+2");
    assert_eq!(bearer.connection.ip_type, "ipv4v6");
    assert_eq!(bearer.connection.mtu, Some(1428));
    assert_eq!(bearer.sessions.len(), 2);
    assert_eq!(bearer.configured_netdevs.len(), 2);
    assert_eq!(bearer.configured_netdevs[1].1.address, ip("2001:db8::2"));
    assert_eq!(bearer.netdev.interface, "wwan1");
}

#[test]
fn dual_stack_sessions_on_two_interfaces_are_undone() {
    let sessions = vec![session("1", 4, v4_settings()), session("2", 6, v6_settings())];
    let undone = finish_dual_stack("/dev/q", sessions, vec![netdev("wwan1"), netdev("wwan2")])
        .unwrap_err();
    assert_eq!(
        undone.error.detail(),
        Some("native_ims_dual_stack_netdev_mismatch")
    );
    assert_eq!(undone.sessions.len(), 2);
    assert_eq!(undone.netdevs.len(), 2);
    assert_eq!(undone.netdevs[1].0, "wwan2");
    let empty = finish_dual_stack("/dev/q", vec![], vec![]).unwrap_err();
    assert_eq!(empty.error.code(), code::IP_SETTINGS_MISSING);
    assert_eq!(empty.error.detail(), None);
}

#[test]
fn one_session_becomes_a_bearer_or_is_undone() {
    let bearer = finish_one("/dev/q", session("9", 6, v6_settings()), netdev("wwan3")).unwrap();
    assert_eq!(bearer.connection.ip_type, "ipv6");
    assert_eq!(bearer.configured_netdevs.len(), 1);
    let empty = session("9", 4, CurrentSettings::default());
    assert!(session_netdev(&empty).is_err());
    let undone = finish_one("/dev/q", empty, netdev("wwan3")).unwrap_err();
    assert_eq!(undone.error.code(), code::IP_SETTINGS_MISSING);
    assert_eq!(undone.netdevs.len(), 0);
    assert_eq!(undone.sessions.len(), 1);
}

#[test]
fn attempt_starts_every_session_and_then_finds_the_interfaces() {
    let SessionAction::Start(start, 4) = SessionStart::begin("/dev/q", vec![4, 6]) else {
        panic!("the first session comes first");
    };
    let first = SessionEvent::Started(session("1", 4, v4_settings()));
    let SessionAction::Start(start, 6) = start.advance(first) else {
        panic!("the second session comes next");
    };
    let second = SessionEvent::Started(session("2", 6, v6_settings()));
    let SessionAction::Resolve(start, config) = start.advance(second) else {
        panic!("every session is up");
    };
    assert_eq!(config.address, netdev_config_for(&v4_settings(), 4).unwrap().address);
    let SessionAction::Resolve(start, config) =
        start.advance(SessionEvent::Resolved(netdev("wwan1")))
    else {
        panic!("the second interface is missing");
    };
    assert_eq!(config.address, ip("2001:db8::2"));
    let SessionAction::Done(bearer) = start.advance(SessionEvent::Resolved(netdev("wwan1"))) else {
        panic!("the bearer is up");
    };
    assert_eq!(bearer.connection.path, "qmi-wds:/dev/q#1+2");
    assert_eq!(bearer.sessions.len(), 2);
}

#[test]
fn attempt_that_fails_undoes_what_it_started() {
    let begin = |families| match SessionStart::begin("/dev/q", families) {
        SessionAction::Start(start, _) => start,
        _ => panic!("a session is started"),
    };
    let wedged = SessionEvent::StartFailed(WdsError::BasebandWedged("gone".to_string()));
    let SessionAction::Undo(undone) = begin(vec![4]).advance(wedged) else {
        panic!("it failed");
    };
    assert_eq!(undone.error.detail(), Some("wds_baseband_wedged:gone"));
    assert!(undone.sessions.is_empty());

    let started = SessionEvent::Started(session("1", 4, v4_settings()));
    let SessionAction::Start(start, 6) = begin(vec![4, 6]).advance(started) else {
        panic!("the second session comes next");
    };
    let started = SessionEvent::Started(session("2", 6, v6_settings()));
    let SessionAction::Resolve(start, _) = start.advance(started) else {
        panic!("every session is up");
    };
    let SessionAction::Resolve(start, _) = start.advance(SessionEvent::Resolved(netdev("wwan1")))
    else {
        panic!("the second interface is missing");
    };
    let failed = SessionEvent::ResolveFailed("silent".to_string());
    let SessionAction::Undo(undone) = start.advance(failed) else {
        panic!("it failed");
    };
    assert_eq!(undone.error.detail(), Some("native_ims_netdev_unresolved:silent"));
    assert_eq!(undone.sessions.len(), 2);
    assert_eq!(undone.netdevs.len(), 1);
    assert_eq!(undone.netdevs[0].0, "wwan1");

    let bare = SessionEvent::Started(session("9", 4, CurrentSettings::default()));
    let SessionAction::Undo(undone) = begin(vec![4]).advance(bare) else {
        panic!("there is no address");
    };
    assert_eq!(undone.error.detail(), Some("native_ims_session_has_no_address"));
    assert_eq!(undone.sessions.len(), 1);
}

#[test]
fn interface_settings_follow_the_family_of_the_session() {
    let mut both = v4_settings();
    both.ipv6_address = Some("2001:db8::2".to_string());
    both.ipv4_dns.push("bogus".to_string());
    let four = netdev_config_for(&both, 4).unwrap();
    assert_eq!(four.address, ip("10.0.0.2"));
    assert_eq!(four.gateway, Some(ip("10.0.0.1")));
    assert_eq!(four.dns, vec![ip("10.0.0.53")]);
    assert_eq!(four.prefix, Some(30));
    let six = netdev_config_for(&both, 6).unwrap();
    assert_eq!(six.address, ip("2001:db8::2"));
    assert_eq!(six.gateway, None);
    assert_eq!(six.mtu, Some(1500));
    let list = configured_netdevs(&vec![session("1", 4, both)], &vec![netdev("wwan0")]);
    assert_eq!(list.len(), 1);
}

// ------------------------------------------------------------------------ live

#[test]
fn parses_device_identity_without_serializing_it() {
    let modem = "modem.generic.sim : /org/freedesktop/ModemManager1/SIM/0\nmodem.3gpp.operator-code : 46011\n";
    assert_eq!(
        key_value(modem, "modem.3gpp.operator-code").as_deref(),
        Some("46011")
    );
    assert!(!format!("{modem:?}").contains("460111234567890"));
}

#[test]
fn security_offer_contains_nonzero_spis_and_expected_ports() {
    let offer = offered_security();
    let parsed = parse_security_server(&offer).unwrap();
    assert_ne!(parsed.spi_c, 0);
    assert_ne!(parsed.spi_s, 0);
    assert_eq!(parsed.port_c, SECURITY_CLIENT_PORT);
    assert_eq!(parsed.port_s, SECURITY_SERVER_PORT);
}

#[test]
fn digest_challenge_prefers_www_then_proxy() {
    let frame = b"SIP/2.0 401 Unauthorized\r\nWWW-Authenticate: Digest realm=\"ims.example\",nonce=\"YWJj\",algorithm=AKAv1-MD5\r\nContent-Length: 0\r\n\r\n";
    let challenge = parse_digest_challenge(frame).unwrap();
    assert_eq!(challenge.realm, "ims.example");
    assert!(!challenge.proxy);
}

#[test]
fn proxy_challenges_are_read_and_missing_ones_reported() {
    let proxy = b"SIP/2.0 407 Auth\r\nProxy-Authenticate: digest realm=\"a,b\", qop=\"auth\", nonce=\"n\"\r\n\r\n";
    let challenge = parse_digest_challenge(proxy).unwrap();
    assert!(challenge.proxy);
    assert_eq!(challenge.realm, "a,b");
    assert_eq!(challenge.nonce, "n");
    assert_eq!(challenge.algorithm, "AKAv1-MD5");
    assert_eq!(challenge.qop.as_deref(), Some("auth"));
    let code_of = |frame: &[u8]| parse_digest_challenge(frame).unwrap_err().code();
    assert_eq!(code_of(b"SIP/2.0 401 X\r\n\r\n"), code::DIGEST_CHALLENGE_MISSING);
    assert_eq!(
        code_of(b"SIP/2.0 401 X\r\nWWW-Authenticate: Basic realm=\"x\"\r\n\r\n"),
        code::DIGEST_CHALLENGE_MISSING
    );
    assert_eq!(
        code_of(b"SIP/2.0 401 X\r\nWWW-Authenticate: Digest nonce=\"x\"\r\n\r\n"),
        code::DIGEST_REALM_MISSING
    );
    assert_eq!(
        code_of(b"SIP/2.0 401 X\r\nWWW-Authenticate: Digest realm=\"x\"\r\n\r\n"),
        code::DIGEST_NONCE_MISSING
    );
}

#[test]
fn modem_and_sim_reports_give_the_identity() {
    let modem = "modem.generic.sim : /SIM/0\nmodem.3gpp.operator-code : 460011\n";
    let read = modem_identity(modem).unwrap();
    assert_eq!(read.mcc, "460");
    assert_eq!(read.mnc, "011");
    assert_eq!(read.sim_path, "/SIM/0");
    assert_eq!(
        modem_identity("modem.3gpp.operator-code : 4600").unwrap_err().code(),
        code::MM_IMSI_MISSING
    );
    assert_eq!(
        modem_identity("modem.3gpp.operator-code : 46001").unwrap_err().code(),
        code::MM_IMSI_MISSING
    );
    assert_eq!(
        sim_identity("sim.properties.imsi : 460011234567890").unwrap(),
        "460011234567890"
    );
    assert_eq!(
        sim_identity("sim.properties.imsi : 46001x").unwrap_err().code(),
        code::IMSI_MISSING
    );
    assert_eq!(sim_identity("").unwrap_err().code(), code::IMSI_MISSING);
}

#[test]
fn offers_and_instances_have_their_shape() {
    assert_eq!(
        offered_security_with(0, 9),
        "ipsec-3gpp;alg=hmac-sha-1-96;ealg=null;prot=esp;mod=trans;spi-c=1;spi-s=9;port-c=5062;port-s=5064"
    );
    let token: Vec<u8> = (0..16).map(|n| n * 17).collect();
    assert_eq!(
        sip_instance_of(&token),
        "urn:uuid:00112233-4455-6677-8899-aabbccddeeff"
    );
    let first = new_sip_instance().unwrap();
    let second = new_sip_instance().unwrap();
    assert_eq!(first.len(), 45);
    assert_ne!(first, second);
    assert_eq!(request_uri("ims.example"), "sip:ims.example");
}

#[test]
fn selected_protection_needs_every_parameter() {
    assert_eq!(
        parse_security_server("ipsec-3gpp; spi-c=1; spi-s=2; port-c=3; port-s=4").unwrap(),
        SecAgree { spi_c: 1, spi_s: 2, port_c: 3, port_s: 4 }
    );
    for bad in [
        "tls;spi-c=1;spi-s=2;port-c=3;port-s=4",
        "ipsec-3gpp;spi-c=1;spi-s=2;port-c=3",
        "ipsec-3gpp;spi-c=1;spi-s=2;port-c=3;port-s=70000",
    ] {
        assert_eq!(
            parse_security_server(bad).unwrap_err().code(),
            code::SECURITY_SERVER_INVALID
        );
    }
    let frame = b"SIP/2.0 401 X\r\nSecurity-Server: tls\r\nSecurity-Server: ipsec-3gpp;spi-c=1;spi-s=2;port-c=3;port-s=4\r\n\r\n";
    let (selected, value) = selected_security(frame).unwrap();
    assert_eq!(selected.port_s, 4);
    assert_eq!(value, "ipsec-3gpp;spi-c=1;spi-s=2;port-c=3;port-s=4");
    assert!(selected_security(b"SIP/2.0 401 X\r\n\r\n").is_none());
}

#[test]
fn errors_are_carried_over_with_their_codes() {
    let missing = CellularImsError::new(code::IMSI_MISSING);
    assert_eq!(to_ims_error(&missing).code(), code::IMSI_MISSING);
    let bound = map_channel_error(&ImsError::new("x"));
    assert_eq!(bound.code(), code::IPSEC_UDP_BIND_FAILED);
    assert_eq!(bound.detail(), Some("x"));
    let refused = map_register_error(&ImsError::new("y"));
    assert_eq!(refused.code(), code::REGISTER_AUTH_UNEXPECTED_STATUS);
    assert_eq!(refused.detail(), Some("y"));
    assert!(ensure_generation(3, 3).is_ok());
    assert_eq!(
        ensure_generation(3, 4).unwrap_err().code(),
        code::RUNTIME_NOT_RUNNING
    );
}

fn route() -> ImsRoute {
    ImsRoute {
        local_addr: addr("10.0.0.2", 0),
        pcscf_addr: addr("10.0.0.1", 5060),
        transport: SipTransport::Tcp,
    }
}

fn socket(id: u64) -> BoundSocket {
    BoundSocket {
        id,
        local: addr("10.0.0.2", 40000),
    }
}

const PROTECTED: &[u8] = b"SIP/2.0 401 X\r\nSecurity-Server: ipsec-3gpp;spi-c=1;spi-s=2;port-c=6000;port-s=6001\r\n\r\n";

fn answered() -> AkaAnswer {
    AkaAnswer::Proof {
        authorization: "Digest proof".to_string(),
    }
}

#[test]
fn protected_challenge_installs_and_binds() {
    let mut channel = VolteSipChannel::bind(route(), None, None, Some(socket(1))).unwrap();
    let mut auth = VolteRegisterAuthenticator::new("offer".to_string(), channel.route());
    auth.prepare_authenticated_channel(PROTECTED, answered(), Ok(7), Some(socket(2)), &mut channel)
        .unwrap();
    assert_eq!(auth.mode, RegistrationMode::Ipsec);
    assert_eq!(auth.xfrm_plan, Some(7));
    assert_eq!(channel.route().local_addr, addr("10.0.0.2", 6000));
    assert_eq!(channel.route().pcscf_addr, addr("10.0.0.1", 6001));
    assert_eq!(channel.route().transport, SipTransport::Udp);
    assert_eq!(channel.socket.id, 2);
    let sent = auth.authenticated_request().unwrap();
    assert!(sent.require_sec_agree);
    assert_eq!(sent.security_client.as_deref(), Some("offer"));
    assert_eq!(
        sent.security_verify.as_deref(),
        Some("ipsec-3gpp;spi-c=1;spi-s=2;port-c=6000;port-s=6001")
    );
    assert_eq!(
        auth.authenticated_request().unwrap_err().code(),
        "volte_register_auth_not_prepared"
    );
}

#[test]
fn failed_binding_hands_the_associations_back() {
    let mut channel = VolteSipChannel::bind(route(), None, None, Some(socket(1))).unwrap();
    let mut auth = VolteRegisterAuthenticator::new("offer".to_string(), channel.route());
    let failure = auth
        .prepare_authenticated_channel(PROTECTED, answered(), Ok(7), None, &mut channel)
        .unwrap_err();
    assert_eq!(failure.error.code(), "volte_channel_bind_failed");
    assert_eq!(failure.uninstall, Some(7));
    assert_eq!(auth.xfrm_plan, None);
    assert_eq!(channel.socket.id, 1);
    let refused = auth
        .prepare_authenticated_channel(
            PROTECTED,
            answered(),
            Err(ImsError::new("no_plan")),
            Some(socket(2)),
            &mut channel,
        )
        .unwrap_err();
    assert_eq!(refused.error.code(), "no_plan");
    assert_eq!(refused.uninstall, None);
}

#[test]
fn unprotected_challenges_and_resynchronisation_keep_the_channel() {
    let mut channel = VolteSipChannel::bind(route(), None, None, Some(socket(1))).unwrap();
    let mut auth = VolteRegisterAuthenticator::new("offer".to_string(), channel.route());
    let plain = b"SIP/2.0 401 X\r\n\r\n";
    let unused = || Err(ImsError::new("unused"));
    auth.prepare_authenticated_channel(plain, answered(), unused(), None, &mut channel)
        .unwrap();
    assert_eq!(auth.mode, RegistrationMode::Udp);
    let sent = auth.authenticated_request().unwrap();
    assert!(!sent.require_sec_agree);
    assert_eq!(sent.security_client, None);
    let resync = AkaAnswer::Resync {
        authorization: "Digest auts".to_string(),
    };
    auth.prepare_authenticated_channel(PROTECTED, resync, unused(), None, &mut channel)
        .unwrap();
    let sent = auth.authenticated_request().unwrap();
    assert_eq!(sent.authorization, "Digest auts");
    assert_eq!(sent.security_client.as_deref(), Some("offer"));
    assert_eq!(sent.security_verify, None);
    assert_eq!(channel.socket.id, 1);
}

fn begun() -> LiveConnect {
    match connect_live(true, true, false, VolteStatus::default(), 5, "t0").unwrap() {
        ConnectStart::Begin(connect) => connect,
        ConnectStart::AlreadyLive => panic!("there is none yet"),
    }
}

#[test]
fn connection_goes_through_its_stages() {
    let mut connect = begun();
    assert_eq!(connect.status.phase, VoltePhase::Starting);
    assert_eq!(connect.status.stage, VolteStage::Starting);
    assert_eq!(connect.status.session_started_at.as_deref(), Some("t0"));
    let accepted = ConnectEvent::Accepted { mode: RegistrationMode::Ipsec, ipsec: true };
    let events = vec![
        (ConnectEvent::Started, ConnectStep::Identity, VolteStage::Identity),
        (ConnectEvent::IdentityLoaded, ConnectStep::Bearer, VolteStage::Bearer),
        (ConnectEvent::BearerUp("/b".to_string()), ConnectStep::Network, VolteStage::Bearer),
        (ConnectEvent::NetworkConfigured, ConnectStep::Pcscf, VolteStage::Pcscf),
        (ConnectEvent::PcscfFound(ip("10.0.0.1")), ConnectStep::PcscfRoute, VolteStage::Pcscf),
        (ConnectEvent::PcscfRouted, ConnectStep::Channel, VolteStage::RegisterIpsec),
        (ConnectEvent::ChannelBound, ConnectStep::Register, VolteStage::RegisterIpsec),
        (accepted, ConnectStep::Keep, VolteStage::RegisterIpsec),
    ];
    for (event, step, stage) in events {
        assert!(matches!(connect.advance(event, 5, "t1"), ConnectOutcome::Continue));
        assert_eq!(connect.step, step);
        assert_eq!(connect.status.stage, stage);
    }
    assert_eq!(connect.status.pcscf.as_deref(), Some("10.0.0.1"));
    let done = connect.advance(ConnectEvent::Kept, 5, "t2");
    assert!(matches!(done, ConnectOutcome::Registered));
    assert_eq!(connect.status.phase, VoltePhase::Registered);
    assert_eq!(connect.status.registration_mode, RegistrationMode::Ipsec);
    assert_eq!(connect.status.pcscf.as_deref(), Some("10.0.0.1:5060"));
    assert_eq!(connect.status.registered_at.as_deref(), Some("t2"));
    assert_eq!(
        connect.status.data_path_mode.as_deref(),
        Some("dedicated_ims_bearer")
    );
}

#[test]
fn unprotected_registration_shows_its_stage() {
    for (mode, stage) in [
        (RegistrationMode::Udp, VolteStage::RegisterUdp),
        (RegistrationMode::Unregistered, VolteStage::RegisterIpsec),
    ] {
        let mut connect = begun();
        for event in [
            ConnectEvent::Started,
            ConnectEvent::IdentityLoaded,
            ConnectEvent::BearerUp("/b".to_string()),
            ConnectEvent::NetworkConfigured,
            ConnectEvent::PcscfFound(ip("10.0.0.1")),
            ConnectEvent::PcscfRouted,
            ConnectEvent::ChannelBound,
        ] {
            connect.advance(event, 5, "t1");
        }
        connect.advance(ConnectEvent::Accepted { mode, ipsec: false }, 5, "t2");
        assert_eq!(connect.status.stage, stage);
        assert_eq!(connect.status.phase, VoltePhase::Starting);
        connect.advance(ConnectEvent::Kept, 5, "t3");
        assert_eq!(connect.status.stage, VolteStage::Registered);
        assert_eq!(connect.status.registration_mode, RegistrationMode::Udp);
    }
}

#[test]
fn connection_that_fails_takes_its_bearer_down() {
    let mut connect = begun();
    connect.advance(ConnectEvent::Started, 5, "t1");
    connect.advance(ConnectEvent::IdentityLoaded, 5, "t1");
    connect.advance(ConnectEvent::BearerUp("/b".to_string()), 5, "t1");
    let ConnectOutcome::Failed { error, uninstall, disconnect } =
        connect.advance(ConnectEvent::NetworkConfigured, 6, "t2")
    else {
        panic!("another generation has begun")
    };
    assert_eq!(error.code(), code::RUNTIME_NOT_RUNNING);
    assert_eq!(uninstall, None);
    assert_eq!(disconnect.as_deref(), Some("/b"));
    assert_eq!(connect.status.phase, VoltePhase::Degraded);
    assert_eq!(connect.status.last_failure_at.as_deref(), Some("t2"));
    assert_eq!(connect.bearer, None);

    let mut connect = begun();
    connect.advance(ConnectEvent::Started, 5, "t1");
    let failed = ConnectEvent::Failed {
        error: CellularImsError::with_detail(code::COMMAND_FAILED, "mmcli:1".to_string()),
        plan: Some(3),
    };
    let ConnectOutcome::Failed { uninstall, disconnect, .. } = connect.advance(failed, 5, "t3")
    else {
        panic!("it failed")
    };
    assert_eq!(uninstall, Some(3));
    assert_eq!(disconnect, None);
    assert_eq!(
        connect.status.last_error.as_deref(),
        Some("cellular_ims_command_failed:mmcli:1")
    );
}

#[test]
fn connection_begins_only_where_it_is_wanted() {
    let off = connect_live(true, false, false, VolteStatus::default(), 1, "t").unwrap_err();
    assert_eq!(off.code(), code::RUNTIME_NOT_RUNNING);
    let live = connect_live(true, true, true, VolteStatus::default(), 1, "t").unwrap();
    assert!(matches!(live, ConnectStart::AlreadyLive));
}

// --------------------------------------------------------------------- channel

#[test]
fn rejects_mismatched_address_families() {
    let route = ImsRoute {
        local_addr: addr("127.0.0.1", 0),
        pcscf_addr: addr("::1", 5060),
        transport: SipTransport::Udp,
    };
    let error = VolteSipChannel::bind(route, None, None, Some(socket(1)))
        .err()
        .unwrap();
    assert_eq!(error.code(), "volte_channel_bind_failed");
}
