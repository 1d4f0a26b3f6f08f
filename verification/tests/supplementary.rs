use ims_core::context::{
    ImsIdentity, ImsRegistrationAccess, ImsRoute, RegisteredImsContext, SipTransport,
};
use ims_core::ip_text::parse_socket;
use ims_core::sip_frame::header_value;
use ims_core::supplementary::{
    build_mwi_subscribe, classify_mwi_frame, parse_message_summary, parse_mwi_notify,
    resolve_caller_identity, CallerIdentitySource, CapabilityReadiness, IdentityPresentation,
    MessageCount, MwiIncomingFrame, SubscribeIds, VoicemailSource,
};

#[test]
fn parses_voice_message_summary_with_urgent_counts() {
    let summary = parse_message_summary(
        b"Messages-Waiting: yes\r\nMessage-Account: sip:voicemail@example.test\r\nVoice-Message: 4/8 (1/2)\r\n",
    )
    .unwrap();
    assert!(summary.messages_waiting);
    assert_eq!(summary.source, VoicemailSource::OperatorIms);
    assert_eq!(
        summary.message_account.as_deref(),
        Some("sip:voicemail@example.test")
    );
    assert_eq!(
        summary.voice,
        Some(MessageCount {
            new: 4,
            old: 8,
            urgent_new: 1,
            urgent_old: 2,
        })
    );
}

#[test]
fn privacy_id_suppresses_asserted_identity() {
    let frame = b"INVITE sip:user@example SIP/2.0\r\nPrivacy: id\r\nP-Asserted-Identity: \"Private User\" <sip:+15551234567@example>\r\nFrom: Anonymous <sip:anonymous@anonymous.invalid>;tag=a\r\n\r\n";
    let identity = resolve_caller_identity(frame);
    assert_eq!(identity.presentation, IdentityPresentation::Restricted);
    assert!(identity.uri.is_none());
    assert!(identity.display_name.is_none());
}

#[test]
fn asserted_identity_wins_when_presentation_is_allowed() {
    let frame = b"INVITE sip:user@example SIP/2.0\r\nP-Asserted-Identity: \"Alice\" <sip:+15551234567@example>\r\nFrom: Other <sip:other@example>;tag=a\r\n\r\n";
    let identity = resolve_caller_identity(frame);
    assert_eq!(identity.presentation, IdentityPresentation::Allowed);
    assert_eq!(identity.source, CallerIdentitySource::AssertedIdentity);
    assert_eq!(identity.uri.as_deref(), Some("sip:+15551234567@example"));
    assert_eq!(identity.display_name.as_deref(), Some("Alice"));
}

#[test]
fn mwi_subscribe_uses_registered_service_route() {
    let identity = ImsIdentity {
        private_user: "user@ims.example".to_string(),
        public_uri: "sip:user@ims.example".to_string(),
        contact_user: "user".to_string(),
        home_domain: "ims.example".to_string(),
        contact_user_phone: false,
    };
    let route = ImsRoute {
        local_addr: parse_socket("192.0.2.2:5060").unwrap(),
        pcscf_addr: parse_socket("192.0.2.1:5060").unwrap(),
        transport: SipTransport::Udp,
    };
    let registration = RegisteredImsContext {
        access: ImsRegistrationAccess::Volte,
        service_route: Some("<sip:route.ims.example;lr>".to_string()),
        associated_uris: Vec::new(),
    };
    let frame = build_mwi_subscribe(
        &identity,
        &route,
        &registration,
        &SubscribeIds {
            branch: "z9hG4bKtest".to_string(),
            from_tag: "from-tag".to_string(),
            to_tag: None,
            call_id: "mwi@simadmin".to_string(),
            cseq: 1,
        },
        3600,
        "SimAdmin",
        &vec![],
    );
    assert_eq!(
        header_value(&frame, "Route").as_deref(),
        Some("<sip:route.ims.example;lr>")
    );
    assert_eq!(
        header_value(&frame, "Event").as_deref(),
        Some("message-summary")
    );
}

#[test]
fn parses_message_summary_notify_with_parameters() {
    let body = b"Messages-Waiting: no\r\nVoice-Message: 0/3\r\n";
    let frame = format!(
        "NOTIFY sip:user@example SIP/2.0\r\nEvent: message-summary;id=voice\r\nContent-Type: application/simple-message-summary; charset=utf-8\r\nContent-Length: {}\r\n\r\n{}",
        body.len(),
        String::from_utf8_lossy(body)
    );
    let summary = parse_mwi_notify(frame.as_bytes()).unwrap();
    assert!(!summary.messages_waiting);
    assert_eq!(summary.voice.unwrap().old, 3);
}

#[test]
fn rejects_unrelated_notify_event() {
    let frame = b"NOTIFY sip:user@example SIP/2.0\r\nEvent: refer\r\nContent-Type: application/simple-message-summary\r\nContent-Length: 21\r\n\r\nMessages-Waiting: no\r\n";
    assert_eq!(
        parse_mwi_notify(frame).unwrap_err().code(),
        "ims_mwi_notify_event_invalid"
    );
}

#[test]
fn classifies_subscribe_response_and_notify_dialog() {
    let response = b"SIP/2.0 200 OK\r\nTo: <sip:user@example>;tag=network\r\nCall-ID: mwi@simadmin\r\nCSeq: 1 SUBSCRIBE\r\nContent-Length: 0\r\n\r\n";
    assert_eq!(
        classify_mwi_frame(response, Some("mwi@simadmin")),
        MwiIncomingFrame::SubscribeResponse {
            status: Ok(200),
            to_tag: Some("network".to_string()),
        }
    );
    let unreadable = b"SIP/2.0 abc OK\r\nTo: <sip:user@example>\r\nCall-ID: mwi@simadmin\r\nCSeq: 1 SUBSCRIBE\r\nContent-Length: 0\r\n\r\n";
    match classify_mwi_frame(unreadable, Some("mwi@simadmin")) {
        MwiIncomingFrame::SubscribeResponse { status: Err(error), to_tag: None } => {
            assert_eq!(error.code(), "ims_sip_status_invalid");
        }
        other => panic!("expected an unreadable response, got {other:?}"),
    }

    let notify = b"NOTIFY sip:user@example SIP/2.0\r\nEvent: message-summary\r\nContent-Type: application/simple-message-summary\r\nCall-ID: other@simadmin\r\nContent-Length: 23\r\n\r\nMessages-Waiting: no\r\n";
    assert_eq!(
        classify_mwi_frame(notify, Some("mwi@simadmin")),
        MwiIncomingFrame::Notify {
            response_status: 481,
            summary: None,
        }
    );
}

#[test]
fn summaries_that_say_nothing_are_refused() {
    let code = |body: &[u8]| parse_message_summary(body).unwrap_err().code();
    assert_eq!(code(b"\xff"), "ims_mwi_summary_not_utf8");
    assert_eq!(code(b"Voice-Message: 1/2\r\n"), "ims_mwi_waiting_header_missing");
    assert_eq!(code(b"Messages-Waiting: maybe\r\n"), "ims_mwi_waiting_value_invalid");
    assert_eq!(
        code(b"Messages-Waiting: yes\r\nVoice-Message: x\r\n"),
        "ims_mwi_voice_count_invalid"
    );
}

#[test]
fn notifications_are_checked_before_they_are_read() {
    let code = |frame: &[u8]| parse_mwi_notify(frame).unwrap_err().code();
    assert_eq!(
        code(b"INVITE sip:a SIP/2.0\r\n\r\n"),
        "ims_mwi_notify_request_required"
    );
    assert_eq!(
        code(b"NOTIFY sip:a SIP/2.0\r\n\r\n"),
        "ims_mwi_notify_event_missing"
    );
    assert_eq!(
        code(b"NOTIFY sip:a SIP/2.0\r\nEvent: message-summary\r\nContent-Type: text/plain\r\n\r\n"),
        "ims_mwi_notify_content_type_invalid"
    );
    assert_eq!(
        code(b"NOTIFY sip:a SIP/2.0\r\nEvent: message-summary\r\n\r\n"),
        "ims_mwi_notify_content_type_missing"
    );
}

#[test]
fn identity_falls_back_to_from_and_may_be_absent() {
    let frame = b"INVITE sip:a SIP/2.0\r\nFrom: \"Bob\" <sip:bob@example>;tag=1\r\n\r\n";
    let identity = resolve_caller_identity(frame);
    assert_eq!(identity.source, CallerIdentitySource::From);
    assert_eq!(identity.uri.as_deref(), Some("sip:bob@example"));
    let nobody = resolve_caller_identity(b"INVITE sip:a SIP/2.0\r\n\r\n");
    assert_eq!(nobody.presentation, IdentityPresentation::Unavailable);
    assert_eq!(nobody.source, CallerIdentitySource::Absent);
}

#[test]
fn readiness_names_its_reason() {
    let missing = CapabilityReadiness::unsupported("no_network");
    assert!(!missing.supported);
    assert_eq!(missing.reason.as_deref(), Some("no_network"));
    assert!(CapabilityReadiness::supported(true, None).ready);
}

#[test]
fn foreign_lines_of_a_summary_change_nothing() {
    let known = "Messages-Waiting: yes\r\nVoice-Message: 2/8 (0/2)\r\n";
    let plain = parse_message_summary(known.as_bytes()).unwrap();
    for line in ["Fax-Message: many\r\n", "no name at all\r\n", "\r\n", "X:\r\n"] {
        for body in [
            format!("{line}{known}"),
            known.replace("Voice", &format!("{line}Voice")),
            format!("{known}{line}"),
        ] {
            assert_eq!(parse_message_summary(body.as_bytes()).unwrap(), plain);
        }
        let wrong = format!("{line}Messages-Waiting: maybe\r\n");
        assert_eq!(
            parse_message_summary(wrong.as_bytes()).unwrap_err().code(),
            "ims_mwi_waiting_value_invalid"
        );
    }
}
