use ims_core::ims_access::ImsAccess;
use ims_core::ip_text::parse_socket;
use ims_core::net::{IpAddr, SocketAddr};
use ims_core::outbound::{
    initial_response_confirms_no_nat, probe_interval, probe_interval_at, LineNotice, LineOutbound,
    OutboundFlow, WHOLE_SHARE,
};
use ims_core::register_response::{
    contact_parameter, has_option, RegisterArtifacts, RegisterTransactionKey,
};
use ims_core::register_rewrite::{legacy_register, offer_register};
use ims_core::sip_frame::{header_value, header_values};
use ims_core::stun::{binding_request, binding_response, crc32, StunResponse};

const INSTANCE: &str = "urn:uuid:4dbe7146-bdf7-3eea-90a4-31e79e6d22f0";
const COOKIE: [u8; 4] = [0x21, 0x12, 0xa4, 0x42];
const FINGERPRINT_XOR: u32 = 0x5354_554e;
const SECOND: u64 = 1_000_000_000;

/// A line that no other flow is bound on.
const FIRST: LineOutbound = LineOutbound {
    additional_flow_requires_outbound: false,
    may_offer_outbound: true,
    instance_matches: true,
};

/// A line that another flow is bound on.
const SECONDARY: LineOutbound = LineOutbound {
    additional_flow_requires_outbound: true,
    may_offer_outbound: true,
    instance_matches: true,
};

/// A line on which outbound was refused.
const REFUSED: LineOutbound = LineOutbound {
    additional_flow_requires_outbound: false,
    may_offer_outbound: false,
    instance_matches: true,
};

fn socket(value: &str) -> SocketAddr {
    parse_socket(value).unwrap()
}

fn register_request(call_id: &str, cseq: u32) -> Vec<u8> {
    format!("REGISTER sip:ims.test SIP/2.0\r\nVia: SIP/2.0/UDP 127.0.0.1:5060;branch=z9hG4bK-{call_id}-{cseq}\r\nCall-ID: {call_id}\r\nCSeq: {cseq} REGISTER\r\nContact: <sip:ue@127.0.0.1:5060>\r\nExpires: 3600\r\nContent-Length: 0\r\n\r\n").into_bytes()
}

fn register_success(request: &[u8], expires: u32) -> Vec<u8> {
    format!("SIP/2.0 200 OK\r\nVia: {}\r\nCall-ID: {}\r\nCSeq: {}\r\nContact: {};expires={expires}\r\nRequire: outbound\r\nPath: <sip:edge.ims.test;lr;ob>\r\nFlow-Timer: 25\r\nContent-Length: 0\r\n\r\n",
        header_value(request, "Via").unwrap(),
        header_value(request, "Call-ID").unwrap(),
        header_value(request, "CSeq").unwrap(),
        header_value(request, "Contact").unwrap(),
    ).into_bytes()
}

fn register_flow(
    flow: &mut OutboundFlow,
    call_id: &str,
    cseq: u32,
    expires: u32,
    line: LineOutbound,
    now: u64,
) -> Vec<u8> {
    let request = flow.prepare(&register_request(call_id, cseq), line).unwrap();
    let response = register_success(&request, expires);
    let artifacts = flow.registered(&response, false, 3600, now).unwrap();
    assert!(artifacts.own_binding_found);
    assert_eq!(artifacts.expires_seconds, Some(expires));
    request
}

fn success(id: [u8; 12], addr: SocketAddr) -> Vec<u8> {
    let mut data = vec![0, if addr.ip.is_ipv4() { 1 } else { 2 }];
    data.extend_from_slice(&(addr.port ^ 0x2112).to_be_bytes());
    let mut mask = COOKIE.to_vec();
    mask.extend_from_slice(&id);
    let ip = match addr.ip {
        IpAddr::V4(v) => v.to_be_bytes().to_vec(),
        IpAddr::V6(v) => v.to_be_bytes().to_vec(),
    };
    data.extend(ip.iter().zip(&mask).map(|(v, m)| v ^ m));
    let mut packet = vec![1, 1];
    packet.extend_from_slice(&((data.len() + 12) as u16).to_be_bytes());
    packet.extend_from_slice(&COOKIE);
    packet.extend_from_slice(&id);
    packet.extend_from_slice(&[0, 0x20]);
    packet.extend_from_slice(&(data.len() as u16).to_be_bytes());
    packet.extend_from_slice(&data);
    let fingerprint = crc32(&packet) ^ FINGERPRINT_XOR;
    packet.extend_from_slice(&[0x80, 0x28, 0, 4]);
    packet.extend_from_slice(&fingerprint.to_be_bytes());
    packet
}

fn acknowledge_probe(flow: &mut OutboundFlow, address: &str) -> u64 {
    let now = flow.deadline().unwrap();
    let packet = flow.poll(now).unwrap().unwrap();
    let id = packet[8..20].try_into().unwrap();
    assert!(flow.receive_stun(&success(id, socket(address)), now).unwrap());
    now
}

fn contact_parameter_for_test(request: &[u8], name: &str) -> Option<String> {
    contact_parameter(&header_value(request, "Contact").unwrap(), name)
}

fn configured(access: ImsAccess) -> OutboundFlow {
    let mut flow = OutboundFlow::default();
    flow.configure(access, INSTANCE, true);
    flow
}

#[test]
fn two_accesses_keep_distinct_bindings_and_refresh_then_remove_only_one() {
    let mut wlan = configured(ImsAccess::Wlan);
    let initial_wlan = register_flow(&mut wlan, "wlan-binding", 1, 1800, FIRST, SECOND);
    assert!(!has_option(&initial_wlan, "Require", "outbound"));
    assert!(!wlan.lease.as_ref().unwrap().proven(SECOND));
    acknowledge_probe(&mut wlan, "192.0.2.2:5060");

    let mut cellular = configured(ImsAccess::Cellular);
    let initial_cellular =
        register_flow(&mut cellular, "cellular-binding", 1, 2400, SECONDARY, SECOND);
    assert!(has_option(&initial_cellular, "Require", "outbound"));
    assert!(has_option(&initial_cellular, "Supported", "path"));
    let now = acknowledge_probe(&mut cellular, "192.0.2.1:5060");

    let wlan_expiry = wlan.lease.as_ref().unwrap().expires;
    let cellular_probe = cellular.deadline();
    let refresh = register_flow(&mut cellular, "cellular-binding", 2, 3200, SECONDARY, now);
    assert_eq!(
        cellular.deadline(),
        cellular_probe,
        "refresh cannot postpone keepalive"
    );
    assert_eq!(wlan.lease.as_ref().unwrap().expires, wlan_expiry);
    assert!(wlan.lease.as_ref().unwrap().proven(now));
    assert!(cellular.lease.as_ref().unwrap().proven(now));
    assert_eq!(
        contact_parameter_for_test(&initial_cellular, "reg-id"),
        Some("1".into())
    );
    assert_eq!(
        contact_parameter_for_test(&initial_wlan, "reg-id"),
        Some("2".into())
    );
    assert_eq!(
        contact_parameter_for_test(&refresh, "+sip.instance"),
        Some(INSTANCE.into())
    );

    let remove = register_request("cellular-binding", 3);
    let remove = String::from_utf8(remove)
        .unwrap()
        .replace("Expires: 3600", "Expires: 0");
    let remove = cellular.prepare(remove.as_bytes(), SECONDARY).unwrap();
    assert!(!header_value(&remove, "Contact").unwrap().contains('*'));
    assert_eq!(
        contact_parameter_for_test(&remove, "reg-id"),
        Some("1".into())
    );
    cellular
        .registered(&register_success(&remove, 0), false, 3600, now)
        .unwrap();
    assert!(!cellular.lease.as_ref().is_some_and(|lease| lease.live(now)));
    assert_eq!(
        cellular.take_notices().last(),
        Some(&LineNotice::FlowRemoved(ImsAccess::Cellular))
    );
    assert!(
        wlan.lease.as_ref().unwrap().proven(now),
        "removing cellular must not remove WLAN"
    );
}

#[test]
fn secondary_refusal_preserves_primary_and_only_cools_down_secondary_creation() {
    let mut wlan = configured(ImsAccess::Wlan);
    register_flow(&mut wlan, "primary", 1, 1800, FIRST, SECOND);
    let now = acknowledge_probe(&mut wlan, "192.0.2.2:5060");
    let mut cellular = configured(ImsAccess::Cellular);
    cellular
        .prepare(&register_request("secondary", 1), SECONDARY)
        .unwrap();
    cellular.received_sip(b"SIP/2.0 439 First Hop Lacks Outbound Support\r\nCall-ID: secondary\r\nCSeq: 1 REGISTER\r\n\r\n").unwrap_err();
    assert!(cellular
        .notices
        .contains(&LineNotice::RejectOutbound(ImsAccess::Cellular)));
    assert!(!wlan
        .notices
        .contains(&LineNotice::RejectOutbound(ImsAccess::Wlan)));
    let refresh = register_flow(&mut wlan, "primary", 2, 2000, SECONDARY, now);
    assert!(has_option(&refresh, "Require", "outbound"));
    assert!(wlan.lease.as_ref().unwrap().proven(now));
}

#[test]
fn unowned_or_failed_flow_is_never_proof_of_dual_registration() {
    let mut flow = configured(ImsAccess::Wlan);
    register_flow(&mut flow, "owned", 1, 1800, FIRST, SECOND);
    let now = acknowledge_probe(&mut flow, "192.0.2.2:5060");
    assert!(flow.lease.as_ref().unwrap().proven(now));
    flow.fail("ims_outbound_keepalive_timeout");
    assert!(!flow.lease.as_ref().is_some_and(|lease| lease.proven(now)));
    assert!(flow
        .notices
        .contains(&LineNotice::FlowFailed(ImsAccess::Wlan)));
}

#[test]
fn retransmission_reuses_exact_outbound_offer_even_after_policy_changes() {
    let mut flow = configured(ImsAccess::Wlan);
    let request = register_request("same-transaction", 1);
    let first = flow.prepare(&request, FIRST).unwrap();
    assert_eq!(flow.prepare(&request, REFUSED).unwrap(), first);
    let next = flow
        .prepare(&register_request("same-transaction", 2), REFUSED)
        .unwrap();
    assert!(!has_option(&next, "Supported", "outbound"));
    assert_eq!(contact_parameter_for_test(&next, "reg-id"), None);
}

#[test]
fn legacy_single_registration_retains_real_contact_expiry_without_reg_id_echo() {
    let mut flow = configured(ImsAccess::Wlan);
    flow.prepare(&register_request("legacy", 1), FIRST).unwrap();
    let response = b"SIP/2.0 200 OK\r\nCall-ID: legacy\r\nCSeq: 1 REGISTER\r\nContact: <sip:ue@127.0.0.1:5060>;expires=900\r\nContent-Length: 0\r\n\r\n";
    let artifacts = flow.registered(response, false, 3600, SECOND).unwrap();
    assert_eq!(artifacts.expires_seconds, Some(900));
    assert!(!flow.active());
    assert!(!flow.lease.as_ref().is_some_and(|lease| lease.proven(SECOND)));
}

#[test]
fn changing_instance_or_ignoring_required_outbound_cannot_fake_dual_success() {
    let mut primary = configured(ImsAccess::Wlan);
    register_flow(&mut primary, "primary", 1, 1800, FIRST, SECOND);
    let now = acknowledge_probe(&mut primary, "192.0.2.2:5060");
    let mut secondary = OutboundFlow::default();
    secondary.configure(ImsAccess::Cellular, "urn:uuid:wrong", true);
    let other_instance = LineOutbound {
        instance_matches: false,
        ..SECONDARY
    };
    assert_eq!(
        secondary
            .prepare(&register_request("secondary", 1), other_instance)
            .unwrap_err()
            .code(),
        "ims_outbound_additional_flow_not_supported"
    );
    assert!(primary.lease.as_ref().unwrap().proven(now));
    // A malformed 200 after Require: outbound must never count as success.
    let required = offer_register(&register_request("secondary", 2), INSTANCE, 1, true).unwrap();
    secondary.configure(ImsAccess::Cellular, INSTANCE, true);
    secondary.last_request = Some(required);
    let response = b"SIP/2.0 200 OK\r\nCall-ID: secondary\r\nCSeq: 2 REGISTER\r\nContact: <sip:other@127.0.0.1>;expires=1800\r\n\r\n";
    assert_eq!(
        secondary
            .registered(response, false, 3600, now)
            .unwrap_err()
            .code(),
        "ims_outbound_negotiation_lost"
    );
    assert!(secondary.notices.contains(&LineNotice::InvalidateFlows));
}

#[test]
fn stun_ipv4_ipv6_fingerprint_and_transaction_validation() {
    assert_eq!(crc32(b"123456789"), 0xcbf4_3926);
    let id = [17; 12];
    assert_eq!(binding_request(&id).len(), 28);
    for address in ["192.0.2.4:12345", "[2001:db8::1]:5060"] {
        let address = socket(address);
        let packet = success(id, address);
        assert_eq!(binding_response(&packet, &id), StunResponse::Mapped(address));
        assert_eq!(binding_response(&packet, &[18; 12]), StunResponse::Ignore);
        assert_eq!(
            binding_response(&packet[..packet.len() - 1], &id),
            StunResponse::Ignore
        );
        let mut bad_crc = packet.clone();
        *bad_crc.last_mut().unwrap() ^= 1;
        assert_eq!(binding_response(&bad_crc, &id), StunResponse::Ignore);
        let mut no_fingerprint = packet[..packet.len() - 8].to_vec();
        let size = (no_fingerprint.len() - 20) as u16;
        no_fingerprint[2..4].copy_from_slice(&size.to_be_bytes());
        assert_eq!(
            binding_response(&no_fingerprint, &id),
            StunResponse::Mapped(address)
        );
    }
}

#[test]
fn minimal_stun_response_proves_flow_without_fingerprint() {
    let mut flow = configured(ImsAccess::Wlan);
    register_flow(&mut flow, "minimal-stun", 1, 1800, FIRST, SECOND);
    let now = flow.deadline().unwrap();
    let request = flow.poll(now).unwrap().unwrap();
    let id = request[8..20].try_into().unwrap();
    let mut response = success(id, socket("192.0.2.2:5060"));
    response.truncate(response.len() - 8);
    let size = (response.len() - 20) as u16;
    response[2..4].copy_from_slice(&size.to_be_bytes());
    assert!(flow.receive_stun(&response, now).unwrap());
    assert!(flow.pending.is_none());
    assert!(flow.lease.as_ref().unwrap().proven(now));
}

#[test]
fn timer_ranges_never_exceed_network_deadline() {
    for _ in 0..100 {
        let seconds = probe_interval(Some(25), false) as f64 / 1e9;
        assert!((20.0..=25.0).contains(&seconds));
        let seconds = probe_interval(None, false) as f64 / 1e9;
        assert!((24.0..=29.0).contains(&seconds));
    }
}

#[test]
fn timers_are_random_within_their_range() {
    assert_eq!(probe_interval_at(Some(25), false, 0), 20 * SECOND);
    assert_eq!(probe_interval_at(Some(25), false, WHOLE_SHARE), 25 * SECOND);
    assert_eq!(probe_interval_at(None, true, 0), 95 * SECOND);
    assert_eq!(probe_interval_at(None, true, WHOLE_SHARE), 120 * SECOND);
    assert_eq!(probe_interval_at(Some(0), false, 0), 1_000_000);
    let first = probe_interval(None, true);
    assert!((0..100).any(|_| probe_interval(None, true) != first));
}

#[test]
fn register_completion_retains_transaction_and_rejects_wildcard() {
    let request = b"REGISTER sip:ims.test SIP/2.0\r\nCall-ID: a\r\nCSeq: 4 REGISTER\r\nContact: <sip:a@192.0.2.1>;expires=3600;reg-id=9\r\nSupported: path\r\nContent-Length: 0\r\n\r\n";
    let result = offer_register(request, "urn:uuid:stable", 2, true).unwrap();
    assert!(has_option(&result, "Supported", "outbound"));
    assert!(has_option(&result, "Require", "outbound"));
    assert_eq!(
        RegisterTransactionKey::from_register_request(request),
        RegisterTransactionKey::from_register_request(&result)
    );
    let contact = header_value(&result, "Contact").unwrap();
    assert!(contact.contains("expires=3600"));
    assert!(contact.contains("reg-id=2"));
    assert!(!contact.contains("reg-id=9"));
    assert!(offer_register(
        b"REGISTER sip:a SIP/2.0\r\nContact: *\r\n\r\n",
        "i",
        1,
        false
    )
    .is_err());
}

#[test]
fn requests_that_cannot_be_completed_are_refused() {
    let code = |frame: &[u8], instance: &str, reg_id: u32| {
        offer_register(frame, instance, reg_id, false)
            .unwrap_err()
            .code()
    };
    let good = register_request("a", 1);
    assert_eq!(code(&good, "", 1), "ims_outbound_contact_invalid");
    assert_eq!(code(&good, "a>b", 1), "ims_outbound_contact_invalid");
    assert_eq!(code(&good, "i", 0), "ims_outbound_contact_invalid");
    assert_eq!(code(b"REGISTER sip:a SIP/2.0\r\n", "i", 1), "ims_outbound_request_invalid");
    assert_eq!(code(b"\xff\r\n\r\n", "i", 1), "ims_outbound_request_invalid");
    assert_eq!(
        code(b"REGISTER sip:a SIP/2.0\r\nContact: *\r\n\r\n", "i", 1),
        "ims_outbound_wildcard_unregister_forbidden"
    );
    assert_eq!(
        code(b"REGISTER sip:a SIP/2.0\r\nm: <sip:a>\r\nContact: <sip:b>\r\n\r\n", "i", 1),
        "ims_outbound_contact_invalid"
    );
}

#[test]
fn outbound_capabilities_are_in_one_field_on_initial_auth_refresh_and_remove() {
    let mut flow = configured(ImsAccess::Wlan);
    for (cseq, expires) in [(1, 3600), (2, 3600), (3, 3600), (4, 0)] {
        let source = String::from_utf8(register_request("same-binding", cseq))
            .unwrap()
            .replace("Expires: 3600", &format!("Expires: {expires}"))
            .replace(
                "Content-Length: 0",
                "Supported: path,sec-agree,gruu\r\nRequire: sec-agree\r\nAuthorization: Digest username=\"test\", response=\"unchanged\"\r\nContent-Length: 0",
            );
        let prepared = flow.prepare(source.as_bytes(), FIRST).unwrap();
        assert_eq!(
            header_values(&prepared, "Supported"),
            vec!["path, sec-agree, gruu, outbound"]
        );
        assert!(header_values(&prepared, "k").is_empty());
        assert_eq!(
            header_value(&prepared, "Authorization"),
            header_value(source.as_bytes(), "Authorization")
        );
        assert_eq!(
            RegisterTransactionKey::from_register_request(&prepared),
            RegisterTransactionKey::from_register_request(source.as_bytes())
        );
        // Retransmissions do not rebuild or modify the capability offer.
        assert_eq!(flow.prepare(source.as_bytes(), FIRST).unwrap(), prepared);
        assert_eq!(
            header_value(&prepared, "Expires"),
            Some(expires.to_string())
        );
    }
}

#[test]
fn folded_compact_and_repeated_options_coalesce_without_losing_security() {
    let source = b"REGISTER sip:ims.test SIP/2.0\r\nCall-ID: options\r\nCSeq: 2 REGISTER\r\nContact: <sip:ue@127.0.0.1>;expires=3600\r\nSupported: path,\r\n sec-agree\r\nk: GRUU, PATH\r\nSupported: outbound, x-outbound\r\nRequire: sec-agree\r\nRequire: outbound\r\nSecurity-Verify: ipsec-3gpp;spi-c=100;spi-s=200\r\nContent-Length: 0\r\n\r\n";
    let prepared = offer_register(source, INSTANCE, 2, true).unwrap();
    assert_eq!(
        header_values(&prepared, "Supported"),
        vec!["path, sec-agree, GRUU, outbound, x-outbound"]
    );
    assert_eq!(
        header_values(&prepared, "Require"),
        vec!["sec-agree, outbound"]
    );
    assert!(header_values(&prepared, "k").is_empty());
    assert_eq!(
        header_value(&prepared, "Security-Verify"),
        header_value(source, "Security-Verify")
    );
    // Formatting and Contact completion are idempotent.
    assert_eq!(offer_register(&prepared, INSTANCE, 2, true).unwrap(), prepared);
}

#[test]
fn contact_that_ends_in_a_dropped_open_quote_is_completed_once() {
    let source = b"REGISTER sip:ims.test SIP/2.0\r\nCall-ID: open-quote\r\nCSeq: 1 REGISTER\r\nContact: <sip:ue@h>;reg-id=\"1\r\nContent-Length: 0\r\n\r\n";
    let prepared = offer_register(source, INSTANCE, 2, true).unwrap();
    let contact = header_value(&prepared, "Contact").unwrap();
    assert!(contact.starts_with("<sip:ue@h>;+sip.instance="));
    assert!(contact.ends_with(";reg-id=2"));
    assert_eq!(offer_register(&prepared, INSTANCE, 2, true).unwrap(), prepared);
}

#[test]
fn contact_with_an_open_quote_in_its_uri_is_cleared_once() {
    let source = b"REGISTER sip:ims.test SIP/2.0\r\nCall-ID: odd-uri\r\nCSeq: 1 REGISTER\r\nContact: <sip:\"ue@h>;reg-id=1;x=y\r\nContent-Length: 0\r\n\r\n";
    let prepared = legacy_register(source).unwrap();
    assert_eq!(header_value(&prepared, "Contact").unwrap(), "<sip:\"ue@h>;x=y");
    assert_eq!(legacy_register(&prepared).unwrap(), prepared);
}

#[test]
fn notices_are_handed_over_once() {
    let mut flow = configured(ImsAccess::Wlan);
    register_flow(&mut flow, "owned", 1, 1800, FIRST, SECOND);
    acknowledge_probe(&mut flow, "192.0.2.2:5060");
    flow.take_notices();
    flow.fail("ims_outbound_keepalive_timeout");
    assert_eq!(flow.take_notices(), vec![LineNotice::FlowFailed(ImsAccess::Wlan)]);
    assert!(flow.take_notices().is_empty());
}

#[test]
fn legacy_offer_removes_only_exact_outbound_and_preserves_instance_and_body() {
    let source = b"REGISTER sip:ims.test SIP/2.0\r\nCall-ID: legacy-options\r\nCSeq: 1 REGISTER\r\nContact: <sip:ue@127.0.0.1>;+sip.instance=\"<urn:uuid:stable>\";reg-id=2\r\nSupported: path, OutBound\r\nk: x-outbound, sec-agree\r\nRequire: OUTBOUND, sec-agree\r\nContent-Length: 4\r\n\r\ntest";
    let prepared = legacy_register(source).unwrap();
    assert_eq!(
        header_values(&prepared, "Supported"),
        vec!["path, x-outbound, sec-agree"]
    );
    assert_eq!(
        header_values(&prepared, "Require"),
        vec!["sec-agree"]
    );
    let contact = header_value(&prepared, "Contact").unwrap();
    assert!(contact.contains("+sip.instance=\"<urn:uuid:stable>\""));
    assert!(!contact.contains("reg-id="));
    assert!(prepared.ends_with(b"\r\n\r\ntest"));
    assert_eq!(legacy_register(&prepared).unwrap(), prepared);
}

#[test]
fn echoed_binding_without_require_is_evidence_not_dual_flow_permission() {
    let mut flow = configured(ImsAccess::Wlan);
    let prepared = flow.prepare(&register_request("echo", 1), FIRST).unwrap();
    let response = String::from_utf8(register_success(&prepared, 3195))
        .unwrap()
        .replace("Require: outbound\r\n", "")
        .replace(";lr;ob>", ";lr>")
        .replace("Flow-Timer: 25\r\n", "");
    let artifacts = flow
        .registered(response.as_bytes(), false, 3600, SECOND)
        .unwrap();
    assert!(artifacts.own_binding_found);
    assert!(!artifacts.outbound_required);
    assert!(!artifacts.first_hop_outbound);
    assert_eq!(artifacts.expires_seconds, Some(3195));
    assert!(!flow.lease.as_ref().is_some_and(|lease| lease.proven(SECOND)));
    assert!(flow.poll(SECOND).unwrap().is_none());
}

#[test]
fn no_negotiation_means_no_blind_stun() {
    let mut flow = OutboundFlow::default();
    assert!(flow.poll(SECOND).unwrap().is_none());
}

#[test]
fn ims_no_nat_path_does_not_require_unsolicited_stun() {
    let mut initial = configured(ImsAccess::Wlan);
    let request = initial.prepare(&register_request("ims-no-nat", 1), FIRST).unwrap();
    let challenge = format!(
        "SIP/2.0 401 Unauthorized\r\nVia: {};received=127.0.0.1;rport=5060\r\nCall-ID: ims-no-nat\r\nCSeq: 1 REGISTER\r\n\r\n",
        header_value(&request, "Via").unwrap()
    );
    initial.received_sip(challenge.as_bytes()).unwrap();
    assert!(initial.no_nat);
    let mut protected = initial.replacement();
    let mut wlan_protected = OutboundFlow::default();
    wlan_protected.inherit_path_observation(&initial);
    assert!(wlan_protected.no_nat);
    let request = protected
        .prepare(&register_request("ims-no-nat", 2), FIRST)
        .unwrap();
    let response = String::from_utf8(register_success(&request, 1800))
        .unwrap()
        .replace("Flow-Timer: 25\r\n", "");
    protected
        .registered(response.as_bytes(), false, 3600, SECOND)
        .unwrap();
    assert!(!protected.active());
    assert!(protected.poll(SECOND).unwrap().is_none());
    assert!(protected.lease.as_ref().unwrap().proven(SECOND));

    // A later explicit Flow-Timer overrides the no-NAT exemption.
    register_flow(&mut protected, "ims-no-nat", 3, 1800, FIRST, SECOND);
    assert!(protected.active());
    assert!(protected.poll(SECOND).unwrap().is_some());
}

#[test]
fn nat_exemption_requires_explicit_matching_initial_tuple() {
    let request = register_request("nat-observation", 1);
    let via = header_value(&request, "Via").unwrap();
    for suffix in [
        "",
        ";received=127.0.0.1",
        ";received=192.0.2.2;rport=5060",
        ";received=127.0.0.1;rport=62000",
        ";received=127.0.0.1;rport=5060;rport=5060",
    ] {
        let response = format!("SIP/2.0 401 Unauthorized\r\nVia: {via}{suffix}\r\n\r\n");
        assert!(
            !initial_response_confirms_no_nat(&request, response.as_bytes()),
            "{suffix}"
        );
    }
    let request = String::from_utf8(request)
        .unwrap()
        .replace("127.0.0.1", "[2001:db8::1]");
    let via = header_value(request.as_bytes(), "Via").unwrap();
    let response =
        format!("SIP/2.0 401 Unauthorized\r\nVia: {via};received=2001:db8::1;rport=5060\r\n\r\n");
    assert!(initial_response_confirms_no_nat(
        request.as_bytes(),
        response.as_bytes()
    ));
}

#[test]
fn udp_probe_mapping_change_and_timeout_are_flow_failures() {
    let mut flow = OutboundFlow::default();
    flow.next_probe = Some(SECOND);
    flow.poll(SECOND).unwrap().unwrap();
    let id = flow.pending.as_ref().unwrap().id;
    assert!(flow
        .receive_stun(&success(id, socket("192.0.2.1:1234")), SECOND)
        .unwrap());
    let due = flow.next_probe.unwrap();
    flow.poll(due).unwrap().unwrap();
    let id = flow.pending.as_ref().unwrap().id;
    assert_eq!(
        flow.receive_stun(&success(id, socket("192.0.2.1:1235")), due)
            .unwrap_err()
            .code(),
        "ims_outbound_mapping_changed"
    );
    let mut flow = OutboundFlow::default();
    flow.next_probe = Some(SECOND);
    flow.poll(SECOND).unwrap();
    for _ in 0..7 {
        let due = flow.deadline().unwrap();
        assert!(flow.poll(due).unwrap().is_some());
    }
    let due = flow.deadline().unwrap();
    assert_eq!(
        flow.poll(due).unwrap_err().code(),
        "ims_outbound_keepalive_timeout"
    );
}

#[test]
fn unanswered_probe_goes_out_seven_more_times() {
    let mut flow = OutboundFlow::default();
    flow.next_probe = Some(SECOND);
    let first = flow.poll_with(SECOND, Some([7; 12])).unwrap().unwrap();
    for n in 0..7 {
        let due = flow.deadline().unwrap();
        assert_eq!(due, SECOND + SECOND / 2 + n * SECOND);
        assert_eq!(flow.poll_with(due - 1, Some([8; 12])).unwrap(), None);
        assert_eq!(flow.poll_with(due, Some([8; 12])).unwrap().unwrap(), first);
    }
    assert_eq!(flow.deadline(), Some(9 * SECOND));
    assert_eq!(flow.poll_with(9 * SECOND - 1, None).unwrap(), None);
    assert_eq!(
        flow.poll_with(9 * SECOND, None).unwrap_err().code(),
        "ims_outbound_keepalive_timeout"
    );
}

#[test]
fn flow_without_a_lease_is_disabled_silently() {
    let mut flow = configured(ImsAccess::Wlan);
    flow.disable();
    assert!(flow.take_notices().is_empty());
}

#[test]
fn probe_ids_are_random() {
    let id = || {
        let mut flow = OutboundFlow::default();
        flow.next_probe = Some(SECOND);
        flow.poll(SECOND).unwrap().unwrap();
        flow.pending.unwrap().id
    };
    assert_ne!(id(), id());
}

#[test]
fn responses_of_other_transactions_are_refused() {
    let mut flow = configured(ImsAccess::Wlan);
    let request = flow.prepare(&register_request("mine", 1), FIRST).unwrap();
    let response = String::from_utf8(register_success(&request, 60))
        .unwrap()
        .replace("Call-ID: mine", "Call-ID: other");
    assert_eq!(
        flow.registered(response.as_bytes(), false, 3600, SECOND)
            .unwrap_err()
            .code(),
        "ims_outbound_register_response_mismatch"
    );
}

#[test]
fn register_artifacts_of_a_plain_response_are_read() {
    let response = b"SIP/2.0 200 OK\r\nRequire: outbound\r\nFlow-Timer: 30\r\nExpires: 60\r\n\r\n";
    let artifacts = RegisterArtifacts::parse(response);
    assert!(artifacts.outbound_required);
    assert_eq!(artifacts.flow_timer_seconds, Some(30));
}

#[test]
fn closed_error_responses_are_told_apart() {
    let id = [3; 12];
    let mut packet = vec![1, 0x11, 0, 8];
    packet.extend_from_slice(&COOKIE);
    packet.extend_from_slice(&id);
    packet.extend_from_slice(&[0, 9, 0, 4, 0, 0, 4, 0]);
    assert_eq!(binding_response(&packet, &id), StunResponse::Error);
}
