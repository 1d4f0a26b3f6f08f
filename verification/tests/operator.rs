use ims_core::context::{
    ImsIdentity, ImsRegistrationAccess, ImsRoute, RegisteredImsContext, SipTransport,
};
use ims_core::ip_text::{parse_ip, parse_socket};
use ims_core::net::SocketAddr;
use ims_core::operator::call::{
    CallAction, DialogIds, OperatorEvent, RelayPair, SipFrame, TrunkIpConnectMode,
};
use ims_core::operator::frames::MwiNotice;
use ims_core::operator::headers::{
    cseq_number, header_tag, header_uri, ims_contact, normalize_callee, normalize_caller,
    response_to_tag, sip_reason, top_via_branch,
};
use ims_core::operator::media::{
    media_endpoint, media_endpoint_for_video, payload_mappings, relay_audio_sdp, relay_media_sdp,
    DtmfCapabilities, DtmfSignal, DtmfSource, MediaOffer, PayloadTypeMapping, VideoOffer,
};
use ims_core::operator::registry::{Disconnected, Installation, OperatorRegistry};
use ims_core::operator::relays::{HeldRelay, RelayLedger, RelayWork};
use ims_core::operator::run::{MwiStart, ReadFailure, RegisteredChannel, SessionRun};
use ims_core::operator::session::{
    command_call_id, relay_outcome, LinkState, OperatorCommand, Outside, RegisteredVoiceContext,
    RelayAddrs, RelayFailure, RelayNeed, TrunkIncomingMode, VoiceSession,
};
use ims_core::sdp::{
    parse_audio_sdp, parse_rtp_telephone_event, parse_video_sdp, RtpTelephoneEvent, SdpCodec,
    SdpDirection, VideoMediaDescription,
};
use ims_core::sip_frame;

const SECOND: u64 = 1_000_000_000;

fn addr(text: &str) -> SocketAddr {
    parse_socket(text).unwrap()
}

fn text(value: &str) -> String {
    value.to_string()
}

fn context(line_id: &str) -> RegisteredVoiceContext {
    RegisteredVoiceContext {
        line_id: text(line_id),
        profile_id: text("test-profile"),
        identity: ImsIdentity {
            private_user: text("001010123456789@ims.example"),
            public_uri: text("sip:+601100000001@ims.example"),
            contact_user: text("+601100000001"),
            home_domain: text("ims.example"),
            contact_user_phone: true,
        },
        route: ImsRoute {
            local_addr: addr("127.0.0.1:40100"),
            pcscf_addr: addr("127.0.0.1:5060"),
            transport: SipTransport::Tcp,
        },
        registration: RegisteredImsContext {
            access: ImsRegistrationAccess::Vowifi,
            service_route: Some(text("<sip:service-route.ims.example;lr>")),
            associated_uris: Vec::new(),
        },
        security_verify: Some(text("ipsec-3gpp;alg=hmac-sha-1-96")),
        pani: text("IEEE-802.11;utran-cell-id-3gpp=0010100000000000"),
        user_agent: text("SimAdmin-VoWiFi-Test"),
        expires_at: 30 * SECOND,
        tcp_keepalive_interval: None,
        options_ping_interval: None,
    }
}

fn channel(line_id: &str, number: u64) -> RegisteredChannel {
    RegisteredChannel { context: context(line_id), channel: number }
}

fn run(line_id: &str) -> SessionRun {
    SessionRun::new(channel(line_id, 1), false, 0)
}

fn link() -> LinkState {
    LinkState {
        available: true,
        trunk_local_ip: parse_ip("127.0.0.1"),
        video_enabled: false,
        incoming_mode: TrunkIncomingMode::AfterAnswer,
        ip_connect_mode: TrunkIpConnectMode::Immediate,
    }
}

fn audio_offer(endpoint: SocketAddr) -> MediaOffer {
    let sdp = format!(
        "v=0\r\no=- 1 1 IN IP4 127.0.0.1\r\ns=-\r\nc=IN IP4 127.0.0.1\r\nt=0 0\r\nm=audio {} RTP/AVP 0 101\r\na=rtpmap:0 PCMU/8000\r\na=rtpmap:101 telephone-event/8000\r\na=fmtp:101 0-16\r\na=sendrecv\r\n",
        endpoint.port
    );
    MediaOffer {
        audio: parse_audio_sdp(sdp.as_bytes()).unwrap(),
        audio_endpoint: endpoint,
        video: None,
        dtmf: DtmfCapabilities {
            rtp_event: Some(RtpTelephoneEvent {
                payload_type: 101,
                clock_rate: 8000,
                events: Some(text("0-16")),
            }),
            sip_info: true,
            preferred: DtmfSource::RtpEvent,
        },
    }
}

fn outside(relay: u64) -> Outside {
    let port = 20_000 + relay * 2;
    Outside {
        audio: Ok(RelayPair {
            relay,
            operator_local: addr(&format!("127.0.0.1:{}", port)),
            internal_local: addr(&format!("127.0.0.1:{}", port + 1)),
        }),
        video: Err(text("vowifi_media_bind_failed")),
        dialog: DialogIds {
            call_id: format!("dialog-{relay}"),
            local_tag: format!("local-{relay}"),
            remote_tag: None,
            cseq: 1,
        },
        local_tag: format!("local-in-{relay}"),
        token: format!("token-{relay}"),
        dtmf: None,
    }
}

fn start_call(call_id: &str, callee: &str) -> OperatorCommand {
    OperatorCommand::StartCall {
        call_id: text(call_id),
        caller: text("6108"),
        callee: text(callee),
        trunk_local_ip: parse_ip("127.0.0.1").unwrap(),
        offer: audio_offer(addr("127.0.0.1:31000")),
    }
}

/// The first frame of a call, as it goes out.
fn invite_bytes(dialog: &DialogIds, remote_uri: &str, branch: &str) -> Vec<u8> {
    format!(
        "INVITE {remote_uri} SIP/2.0\r\nVia: SIP/2.0/TCP 127.0.0.1:40100;branch={branch}\r\nFrom: <sip:+601100000001@ims.example>;tag={}\r\nTo: <{remote_uri}>\r\nCall-ID: {}\r\nCSeq: {} INVITE\r\nContent-Length: 0\r\n\r\n",
        dialog.local_tag, dialog.call_id, dialog.cseq
    )
    .into_bytes()
}

fn response(request: &[u8], status: u16, reason: &str, tag: &str, body: &[u8]) -> Vec<u8> {
    let via = sip_frame::header_value(request, "Via").unwrap();
    let from = sip_frame::header_value(request, "From").unwrap();
    let mut to = sip_frame::header_value(request, "To").unwrap();
    if !to.to_ascii_lowercase().contains(";tag=") {
        to.push_str(";tag=");
        to.push_str(tag);
    }
    let call_id = sip_frame::header_value(request, "Call-ID").unwrap();
    let cseq = sip_frame::header_value(request, "CSeq").unwrap();
    let content_type = (!body.is_empty())
        .then_some("Content-Type: application/sdp\r\n")
        .unwrap_or_default();
    format!(
        "SIP/2.0 {status} {reason}\r\nVia: {via}\r\nFrom: {from}\r\nTo: {to}\r\nCall-ID: {call_id}\r\nCSeq: {cseq}\r\n{content_type}Content-Length: {}\r\n\r\n{}",
        body.len(),
        String::from_utf8_lossy(body),
    )
    .into_bytes()
}

fn answer_sdp(port: u16) -> String {
    format!(
        "v=0\r\no=- 2 2 IN IP4 127.0.0.1\r\ns=-\r\nc=IN IP4 127.0.0.1\r\nt=0 0\r\nm=audio {port} RTP/AVP 0 96\r\na=rtpmap:0 PCMU/8000\r\na=rtpmap:96 telephone-event/8000\r\na=fmtp:96 0-16\r\na=sendrecv\r\n"
    )
}

fn started(session: &mut VoiceSession, link: &LinkState, call_id: &str, relay: u64) -> Vec<u8> {
    let command = start_call(call_id, "+60 1112023012");
    assert_eq!(session.relay_need_for_command(link, &command), RelayNeed::Audio);
    let (frame, event) = session.handle_command(link, command, outside(relay));
    assert_eq!(event, None);
    match frame {
        Some(SipFrame::Invite { dialog, remote_uri, .. }) => {
            let bytes = invite_bytes(&dialog, &remote_uri, &format!("z9hG4bK{call_id}"));
            session.note_invite(text(call_id), &bytes).unwrap();
            bytes
        },
        other => panic!("expected an INVITE, got {other:?}"),
    }
}

fn answered(session: &mut VoiceSession, link: &LinkState, invite: &[u8]) -> Vec<CallAction> {
    let ok = response(invite, 200, "OK", "network-a", answer_sdp(42000).as_bytes());
    session.handle_frame(link, &ok, outside(90)).unwrap().actions
}

#[test]
fn relay_sdp_preserves_dialog_codecs_and_adds_dtmf() {
    let source = b"v=0\r\no=- 1 1 IN IP4 10.0.0.3\r\ns=-\r\nc=IN IP4 10.0.0.3\r\nt=0 0\r\nm=audio 40000 RTP/AVP 0\r\na=rtpmap:0 PCMU/8000\r\na=sendrecv\r\n";
    let audio = parse_audio_sdp(source).unwrap();
    let sdp = relay_audio_sdp(
        &audio,
        &Some(RtpTelephoneEvent {
            payload_type: 101,
            clock_rate: 8000,
            events: Some(text("0-16")),
        }),
        addr("192.0.2.10:32000"),
    );
    assert!(sdp.contains("c=IN IP4 192.0.2.10\r\n"));
    assert!(sdp.contains("m=audio 32000 RTP/AVP 0 101\r\n"));
    assert!(sdp.contains("a=rtpmap:101 telephone-event/8000\r\n"));
}

#[test]
fn evs_payload_mappings_follow_fmtp_variant_and_dynamic_payload_type() {
    let operator = parse_audio_sdp(
        b"v=0\r\no=- 1 1 IN IP4 192.0.2.1\r\ns=-\r\nc=IN IP4 192.0.2.1\r\nt=0 0\r\nm=audio 40000 RTP/AVP 109 110\r\na=rtpmap:109 EVS/16000\r\na=fmtp:109 br=5.9-24.4; bw=nb-swb\r\na=rtpmap:110 EVS/16000\r\na=fmtp:110 br=13.2; bw=swb\r\n",
    )
    .unwrap();
    let internal = parse_audio_sdp(
        b"v=0\r\no=- 2 2 IN IP4 192.0.2.2\r\ns=-\r\nc=IN IP4 192.0.2.2\r\nt=0 0\r\nm=audio 41000 RTP/AVP 121 120\r\na=rtpmap:121 EVS/16000\r\na=fmtp:121 br=13.2; bw=swb\r\na=rtpmap:120 EVS/16000\r\na=fmtp:120 br=5.9-24.4; bw=nb-swb\r\n",
    )
    .unwrap();

    let mappings = payload_mappings(&operator, &internal, &None, &None);
    assert!(mappings.contains(&PayloadTypeMapping {
        operator: 109,
        internal: 120,
    }));
    assert!(mappings.contains(&PayloadTypeMapping {
        operator: 110,
        internal: 121,
    }));
}

#[test]
fn relay_sdp_keeps_audio_and_rewrites_video_endpoint() {
    let mut offer = audio_offer(addr("127.0.0.1:32000"));
    offer.video = Some(VideoOffer {
        description: VideoMediaDescription {
            codec: SdpCodec {
                payload_type: 99,
                name: text("H264"),
                clock_rate: 90000,
                channels: 1,
                fmtp: Some(text("packetization-mode=1;profile-level-id=42e01f")),
            },
            media_port: 50000,
            connection_addr: None,
            addr_type: None,
            direction: SdpDirection::SendRecv,
        },
        endpoint: addr("198.51.100.20:50000"),
    });

    let sdp = relay_media_sdp(
        &offer,
        addr("192.0.2.10:33000"),
        Some(addr("192.0.2.11:33002")),
    );

    assert!(sdp.contains("m=audio 33000 RTP/AVP 0 101\r\n"));
    assert!(sdp.contains("m=video 33002 RTP/AVP 99\r\n"));
    assert!(sdp.contains("c=IN IP4 192.0.2.11\r\n"));
    assert!(sdp.contains("a=rtpmap:99 H264/90000\r\n"));
}

#[test]
fn normalizes_real_device_number_without_losing_country_prefix() {
    assert_eq!(
        normalize_callee("+60 1112023012", "ims.example").unwrap(),
        "sip:+601112023012@ims.example;user=phone"
    );
}

#[test]
fn outgoing_dialog_keeps_tags_relays_media_and_forwards_dtmf() {
    let link = link();
    let mut run = run("operator-test-outgoing");
    let session = &mut run.session;

    let (frame, event) = session.handle_command(
        &link,
        start_call("trunk-call-a", "+60 1112023012"),
        outside(1),
    );
    assert_eq!(event, None);
    let Some(SipFrame::Invite { dialog, remote_uri, body }) = frame else {
        panic!("expected an INVITE");
    };
    assert_eq!(remote_uri, "sip:+601112023012@ims.example;user=phone");
    assert_eq!(dialog, outside(1).dialog);
    assert!(body.contains("m=audio 20002 RTP/AVP 0 101\r\n"));
    let invite = invite_bytes(&dialog, &remote_uri, "z9hG4bKout");
    session.note_invite(text("trunk-call-a"), &invite).unwrap();

    let ringing = session
        .handle_frame(&link, &response(&invite, 180, "Ringing", "network-a", &[]), outside(2))
        .unwrap();
    assert_eq!(
        ringing.actions,
        vec![CallAction::Event(OperatorEvent::Provisional {
            call_id: text("trunk-call-a"),
            status: 180,
            body: None,
        })]
    );

    let actions = answered(session, &link, &invite);
    assert_eq!(actions.len(), 2);
    match &actions[0] {
        CallAction::Send(SipFrame::Ack { dialog: acked, remote_uri: to }) => {
            assert_eq!(acked.call_id, dialog.call_id);
            assert_eq!(acked.local_tag, dialog.local_tag);
            assert_eq!(acked.remote_tag, Some(text("network-a")));
            assert_eq!(*to, remote_uri);
        },
        other => panic!("expected an ACK, got {other:?}"),
    }
    match &actions[1] {
        CallAction::Event(OperatorEvent::Answered { call_id, body }) => {
            assert_eq!(call_id, "trunk-call-a");
            let answer = parse_audio_sdp(body.as_bytes()).unwrap();
            assert_eq!(answer.media_port, 20003);
            assert_eq!(answer.codecs[0].name, "PCMU");
        },
        other => panic!("expected the answer, got {other:?}"),
    }

    let network_info = format!(
        "INFO sip:+601100000001@127.0.0.1 SIP/2.0\r\nVia: SIP/2.0/TCP 127.0.0.1:5060;branch=z9hG4bKinfo-in\r\nFrom: <sip:+601112023012@ims.example>;tag=network-a\r\nTo: <sip:+601100000001@ims.example>;tag={}\r\nCall-ID: {}\r\nCSeq: 2 INFO\r\nContent-Type: application/dtmf-relay\r\nContent-Length: 25\r\n\r\nSignal=8\r\nDuration=180\r\n",
        dialog.local_tag, dialog.call_id,
    );
    let pressed = DtmfSignal { digit: '8', duration_ms: 180, source: DtmfSource::SipInfo };
    let mut given = outside(3);
    given.dtmf = Some(pressed);
    let info = session.handle_frame(&link, network_info.as_bytes(), given).unwrap();
    assert!(matches!(
        &info.actions[0],
        CallAction::Send(SipFrame::Response { status: 200, .. })
    ));
    assert_eq!(
        info.actions[1],
        CallAction::Event(OperatorEvent::Dtmf { call_id: text("trunk-call-a"), signal: pressed })
    );

    let key = DtmfSignal { digit: '5', duration_ms: 240, source: DtmfSource::SipInfo };
    let (frame, event) = session.handle_command(
        &link,
        OperatorCommand::SendDtmf { call_id: text("trunk-call-a"), signal: key },
        outside(4),
    );
    assert_eq!(event, None);
    match frame {
        Some(SipFrame::Info { dialog: told, signal, .. }) => {
            assert_eq!(told.call_id, dialog.call_id);
            assert_eq!(signal, key);
        },
        other => panic!("expected an INFO, got {other:?}"),
    }

    let renegotiate = |port: &str| OperatorCommand::Renegotiate {
        call_id: text("trunk-call-a"),
        trunk_local_ip: parse_ip("127.0.0.1").unwrap(),
        offer: audio_offer(addr(port)),
    };
    let (frame, event) = session.handle_command(&link, renegotiate("127.0.0.1:31010"), outside(5));
    assert_eq!(event, None);
    let Some(SipFrame::Reinvite { dialog: again, remote_uri, .. }) = frame else {
        panic!("expected a second INVITE");
    };
    assert_eq!(again.call_id, dialog.call_id);
    assert_eq!(again.local_tag, dialog.local_tag);
    assert_eq!(again.remote_tag, Some(text("network-a")));
    assert!(again.cseq > dialog.cseq);
    let reinvite = invite_bytes(&again, &remote_uri, "z9hG4bKagain");
    let actions = answered(session, &link, &reinvite);
    assert!(matches!(&actions[0], CallAction::Send(SipFrame::Ack { .. })));
    assert!(matches!(
        &actions[1],
        CallAction::Event(OperatorEvent::Answered { call_id, .. }) if call_id == "trunk-call-a"
    ));

    let offer = answer_sdp(42010);
    let network_reinvite = format!(
        "INVITE sip:+601100000001@127.0.0.1 SIP/2.0\r\nVia: SIP/2.0/TCP 127.0.0.1:5060;branch=z9hG4bKnetwork-reinvite\r\nFrom: <sip:+601112023012@ims.example>;tag=network-a\r\nTo: <sip:+601100000001@ims.example>;tag={}\r\nContact: <sip:+601112023012@127.0.0.1:5060;transport=tcp>\r\nCall-ID: {}\r\nCSeq: 7 INVITE\r\nContent-Type: application/sdp\r\nContent-Length: {}\r\n\r\n{}",
        dialog.local_tag,
        dialog.call_id,
        offer.len(),
        offer,
    );
    assert_eq!(
        session.relay_need_for_frame(&link, network_reinvite.as_bytes()),
        RelayNeed::Audio
    );
    let changed = session
        .handle_frame(&link, network_reinvite.as_bytes(), outside(6))
        .unwrap();
    assert!(matches!(
        &changed.actions[0],
        CallAction::Send(SipFrame::Response { status: 100, .. })
    ));
    match &changed.actions[1] {
        CallAction::Event(OperatorEvent::Renegotiate { call_id, body }) => {
            assert_eq!(call_id, "trunk-call-a");
            assert!(parse_audio_sdp(body.as_bytes()).is_ok());
        },
        other => panic!("expected a change of media, got {other:?}"),
    }
    let (frame, event) = session.handle_command(
        &link,
        OperatorCommand::AcceptRenegotiation {
            call_id: text("trunk-call-a"),
            body: audio_offer(addr("127.0.0.1:31020")).audio.to_sdp().into_bytes(),
        },
        outside(7),
    );
    assert_eq!(event, None);
    match frame {
        Some(SipFrame::Response { status: 200, body: Some(body), request, .. }) => {
            assert_eq!(request, network_reinvite.as_bytes());
            assert!(parse_audio_sdp(body.as_bytes()).is_ok());
        },
        other => panic!("expected 200, got {other:?}"),
    }

    let (frame, _) = session.handle_command(&link, renegotiate("127.0.0.1:31030"), outside(8));
    let Some(SipFrame::Reinvite { dialog: third, remote_uri, .. }) = frame else {
        panic!("expected a third INVITE");
    };
    let reinvite = invite_bytes(&third, &remote_uri, "z9hG4bKthird");
    let refused = session
        .handle_frame(
            &link,
            &response(&reinvite, 488, "Not Acceptable Here", "network-a", &[]),
            outside(9),
        )
        .unwrap();
    assert!(refused.actions.contains(&CallAction::Event(OperatorEvent::Rejected {
        call_id: text("trunk-call-a"),
        status: 488,
    })));

    let (frame, event) = session.handle_command(
        &link,
        OperatorCommand::HangupCall { call_id: text("trunk-call-a") },
        outside(10),
    );
    assert_eq!(event, None);
    assert!(matches!(frame, Some(SipFrame::Bye { .. })));
    assert_eq!(session.calls.len(), 0);
}

fn incoming(offer: &str, extra: &str) -> String {
    format!(
        "INVITE sip:+601100000001@127.0.0.1 SIP/2.0\r\nVia: SIP/2.0/TCP 127.0.0.1:5060;branch=z9hG4bKincoming\r\nFrom: <sip:+601112023012@ims.example>;tag=remote-in\r\nTo: <sip:+601100000001@ims.example>\r\nContact: <sip:+601112023012@127.0.0.1:5060;transport=tcp>\r\n{extra}Call-ID: ims-incoming-a\r\nCSeq: 1 INVITE\r\nContent-Type: application/sdp\r\nContent-Length: {}\r\n\r\n{}",
        offer.len(),
        offer,
    )
}

#[test]
fn incoming_cancel_before_answer_terminates_the_invite() {
    let link = link();
    let mut run = run("operator-test-cancel");
    let session = &mut run.session;
    let invite = incoming(&answer_sdp(43000), "");
    let offered = session.handle_frame(&link, invite.as_bytes(), outside(1)).unwrap();
    assert!(matches!(
        &offered.actions[0],
        CallAction::Send(SipFrame::Response { status: 100, reason: "Trying", .. })
    ));
    let Some(CallAction::Event(OperatorEvent::Incoming { call_id, .. })) = offered.actions.last()
    else {
        panic!("expected an incoming call");
    };

    let cancel = b"CANCEL sip:+601100000001@127.0.0.1 SIP/2.0\r\nVia: SIP/2.0/TCP 127.0.0.1:5060;branch=z9hG4bKincoming\r\nFrom: <sip:+601112023012@ims.example>;tag=remote-in\r\nTo: <sip:+601100000001@ims.example>\r\nCall-ID: ims-incoming-a\r\nCSeq: 1 CANCEL\r\nContent-Length: 0\r\n\r\n";
    let actions = session.handle_frame(&link, cancel, outside(2)).unwrap().actions;
    match &actions[0] {
        CallAction::Send(SipFrame::Response { status: 200, request, .. }) => {
            assert_eq!(request, cancel)
        },
        other => panic!("expected 200 for the CANCEL, got {other:?}"),
    }
    match &actions[1] {
        CallAction::Send(SipFrame::Response { status: 487, reason, request, .. }) => {
            assert_eq!(*reason, "Request Terminated");
            assert_eq!(
                sip_frame::header_value(request, "CSeq").as_deref(),
                Some("1 INVITE")
            );
        },
        other => panic!("expected 487 for the INVITE, got {other:?}"),
    }
    assert_eq!(
        actions[2],
        CallAction::Event(OperatorEvent::Cancelled { call_id: call_id.clone() })
    );
    assert_eq!(session.calls.len(), 0);
}

#[test]
fn first_rtp_mode_delays_answer_until_operator_media_arrives() {
    let mut link = link();
    link.ip_connect_mode = TrunkIpConnectMode::FirstRtp;
    let mut run = run("operator-test-first-rtp");
    let session = &mut run.session;
    let invite = started(session, &link, "first-rtp-call", 1);
    let actions = answered(session, &link, &invite);
    assert!(matches!(&actions[0], CallAction::Send(SipFrame::Ack { .. })));
    match &actions[1] {
        CallAction::AnswerOnFirstRtp { call_id, relay, body } => {
            assert_eq!(call_id, "first-rtp-call");
            assert_eq!(*relay, 1);
            assert!(parse_audio_sdp(body.as_bytes()).is_ok());
        },
        other => panic!("the answer waits for media, got {other:?}"),
    }
    assert_eq!(actions.len(), 2);

    let (frame, _) = session.handle_command(
        &link,
        OperatorCommand::HangupCall { call_id: text("first-rtp-call") },
        outside(2),
    );
    assert!(matches!(frame, Some(SipFrame::Bye { .. })));
}

#[test]
fn registration_refresh_waits_for_active_dialog_before_handover() {
    let link = link();
    let mut run = run("operator-test-refresh");
    let invite = started(&mut run.session, &link, "refresh-call-a", 1);
    answered(&mut run.session, &link, &invite);

    assert!(!run.replace(channel("operator-test-refresh", 2), SECOND));
    assert_eq!(run.session.channel, 1);
    assert!(!run.begin_turn(SECOND));

    let (frame, _) = run.session.handle_command(
        &link,
        OperatorCommand::SendDtmf {
            call_id: text("refresh-call-a"),
            signal: DtmfSignal { digit: '3', duration_ms: 160, source: DtmfSource::SipInfo },
        },
        outside(2),
    );
    assert!(matches!(frame, Some(SipFrame::Info { .. })));
    assert_eq!(run.session.channel, 1);

    let (frame, _) = run.session.handle_command(
        &link,
        OperatorCommand::HangupCall { call_id: text("refresh-call-a") },
        outside(3),
    );
    assert!(matches!(frame, Some(SipFrame::Bye { .. })));

    assert!(run.begin_turn(2 * SECOND));
    assert_eq!(run.check_validity(2 * SECOND), Ok(true));
    assert_eq!(run.session.channel, 2);
    assert_eq!(run.pending_replacement, None);

    let second = started(&mut run.session, &link, "refresh-call-b", 4);
    assert_ne!(
        sip_frame::header_value(&second, "Call-ID"),
        sip_frame::header_value(&invite, "Call-ID")
    );
    let (frame, _) = run.session.handle_command(
        &link,
        OperatorCommand::CancelCall { call_id: text("refresh-call-b") },
        outside(5),
    );
    match frame {
        Some(SipFrame::Cancel { branch, .. }) => assert_eq!(branch, "z9hG4bKrefresh-call-b"),
        other => panic!("expected a CANCEL, got {other:?}"),
    }
}

#[test]
fn profile_intervals_drive_tcp_keepalive_and_options_ping() {
    let mut registered = channel("operator-test-keepalive", 1);
    registered.context.tcp_keepalive_interval = Some(10_000_000);
    registered.context.options_ping_interval = Some(20_000_000);
    let mut run = SessionRun::new(registered, false, 5);
    assert_eq!(run.session.next_tcp_keepalive, Some(10_000_005));
    assert_eq!(run.session.next_options_ping, Some(20_000_005));
    run.session.keepalive_sent(10_000_006);
    assert_eq!(run.session.next_tcp_keepalive, Some(20_000_006));

    let options = run.session.options_due(text("z9hG4bKopt"), text("tag-o"), text("call-o"));
    assert!(options.starts_with(b"OPTIONS "));
    assert_eq!(
        sip_frame::header_value(&options, "P-Access-Network-Info").as_deref(),
        Some("IEEE-802.11;utran-cell-id-3gpp=0010100000000000")
    );
    assert_eq!(
        sip_frame::header_value(&options, "User-Agent").as_deref(),
        Some("SimAdmin-VoWiFi-Test")
    );
    assert_eq!(
        sip_frame::header_value(&options, "CSeq").as_deref(),
        Some("1 OPTIONS")
    );
    run.session.options_sent(20_000_010);
    assert_eq!(run.session.next_options_ping, Some(40_000_010));
    let next = run.session.options_due(text("z9hG4bKopt2"), text("tag-o"), text("call-o"));
    assert_eq!(
        sip_frame::header_value(&next, "CSeq").as_deref(),
        Some("2 OPTIONS")
    );
}

#[test]
fn mwi_subscribe_and_notify_update_bound_line_runtime() {
    let link = link();
    let mut run = SessionRun::new(channel("operator-test-mwi", 1), true, 0);
    let session = &mut run.session;
    let start = session.start_mwi_subscription(
        false,
        text("z9hG4bKsub"),
        text("mwi-client"),
        text("mwi-call"),
    );
    let MwiStart::Subscribe { begin, ids, frame: subscribe } = start else {
        panic!("expected a SUBSCRIBE");
    };
    assert!(begin);
    assert!(sip_frame::is_request(&subscribe, "SUBSCRIBE"));
    assert_eq!(
        sip_frame::header_value(&subscribe, "Route").as_deref(),
        Some("<sip:service-route.ims.example;lr>")
    );
    assert_eq!(
        sip_frame::header_value(&subscribe, "Event").as_deref(),
        Some("message-summary")
    );
    session.mwi_sent(ids, SECOND);

    let subscribed = session
        .handle_frame(&link, &response(&subscribe, 200, "OK", "mwi-network", &[]), outside(1))
        .unwrap();
    assert_eq!(subscribed.notice, Some(MwiNotice::Subscribed));
    assert!(subscribed.actions.is_empty());
    assert_eq!(
        session.mwi_subscription.as_ref().unwrap().ids.to_tag.as_deref(),
        Some("mwi-network")
    );

    let body = "Messages-Waiting: yes\r\nMessage-Account: sip:mailbox@ims.example\r\nVoice-Message: 2/1 (1/0)\r\n";
    let notify = format!(
        "NOTIFY sip:+601100000001@127.0.0.1 SIP/2.0\r\nVia: SIP/2.0/TCP 127.0.0.1:5060;branch=z9hG4bKmwi\r\nFrom: <sip:+601100000001@ims.example>;tag=mwi-network\r\nTo: <sip:+601100000001@ims.example>;tag=mwi-client\r\nCall-ID: mwi-call\r\nCSeq: 1 NOTIFY\r\nEvent: message-summary\r\nContent-Type: application/simple-message-summary\r\nContent-Length: {}\r\n\r\n{body}",
        body.len()
    );
    let notified = session.handle_frame(&link, notify.as_bytes(), outside(2)).unwrap();
    assert!(matches!(
        &notified.actions[0],
        CallAction::Send(SipFrame::Response { status: 200, reason: "OK", .. })
    ));
    match notified.notice {
        Some(MwiNotice::Update(summary)) => {
            assert!(summary.messages_waiting);
            assert_eq!(summary.voice.unwrap().new, 2);
        },
        other => panic!("expected a summary, got {other:?}"),
    }

    let renewed = session.start_mwi_subscription(
        true,
        text("z9hG4bKsub2"),
        text("unused"),
        text("unused"),
    );
    match renewed {
        MwiStart::Subscribe { begin, ids, .. } => {
            assert!(!begin);
            assert_eq!(ids.cseq, 2);
            assert_eq!(ids.call_id, "mwi-call");
            assert_eq!(ids.from_tag, "mwi-client");
            assert_eq!(ids.to_tag.as_deref(), Some("mwi-network"));
            session.mwi_sent(ids, 2 * SECOND);
        },
        other => panic!("expected a SUBSCRIBE, got {other:?}"),
    }
    assert_eq!(
        session.start_mwi_subscription(false, text("b"), text("t"), text("c")),
        MwiStart::Dropped
    );
    assert_eq!(session.mwi_subscription, None);
}

#[test]
fn incoming_invite_round_trips_answer_and_remote_bye() {
    let link = link();
    let mut run = run("operator-test-incoming");
    let session = &mut run.session;
    let invite = incoming(
        &answer_sdp(43000),
        "Privacy: id\r\nP-Asserted-Identity: <tel:+601112023012>\r\n",
    );
    assert_eq!(session.relay_need_for_frame(&link, invite.as_bytes()), RelayNeed::Audio);
    let addrs = RelayAddrs {
        operator: session.context.route.local_addr.ip,
        trunk: link.trunk_local_ip.unwrap(),
    };
    assert_eq!(session.relay_addrs_for_frame(&link, invite.as_bytes()), Some(addrs));
    let offered = session.handle_frame(&link, invite.as_bytes(), outside(1)).unwrap();
    assert!(matches!(
        &offered.actions[0],
        CallAction::Send(SipFrame::Response { status: 100, .. })
    ));
    let Some(CallAction::Event(OperatorEvent::Incoming { call_id, caller, body })) =
        offered.actions.last()
    else {
        panic!("expected an incoming call");
    };
    assert_eq!(caller, "sip:anonymous@anonymous.invalid");
    assert!(call_id.starts_with("vowifi-"));
    let trunk_offer = parse_audio_sdp(body.as_bytes()).unwrap();
    assert_eq!(trunk_offer.media_port, 20003);

    let (frame, event) = session.handle_command(
        &link,
        OperatorCommand::AcceptCall {
            call_id: call_id.clone(),
            body: audio_offer(addr("127.0.0.1:31040")).audio.to_sdp().into_bytes(),
        },
        outside(2),
    );
    assert_eq!(event, None);
    match frame {
        Some(SipFrame::Response { status: 200, tag: Some(tag), contact: Some(contact), .. }) => {
            assert_eq!(tag, "local-in-1");
            assert_eq!(contact, "sip:+601100000001@127.0.0.1:40100;transport=tcp");
        },
        other => panic!("expected 200, got {other:?}"),
    }

    let bye = b"BYE sip:+601100000001@127.0.0.1 SIP/2.0\r\nVia: SIP/2.0/TCP 127.0.0.1:5060;branch=z9hG4bKbye\r\nFrom: <sip:+601112023012@ims.example>;tag=remote-in\r\nTo: <sip:+601100000001@ims.example>;tag=local\r\nCall-ID: ims-incoming-a\r\nCSeq: 2 BYE\r\nContent-Length: 0\r\n\r\n";
    let ended = session.handle_frame(&link, bye, outside(3)).unwrap().actions;
    assert!(matches!(
        &ended[0],
        CallAction::Send(SipFrame::Response { status: 200, .. })
    ));
    assert_eq!(
        ended[1],
        CallAction::Event(OperatorEvent::Ended { call_id: call_id.clone() })
    );
    assert_eq!(session.calls.len(), 0);
}

#[test]
fn bound_immediate_mode_answers_before_the_trunk_does() {
    let mut link = link();
    link.incoming_mode = TrunkIncomingMode::BoundImmediate;
    let mut run = run("operator-test-immediate");
    let invite = incoming(&answer_sdp(43000), "");
    let actions = run
        .session
        .handle_frame(&link, invite.as_bytes(), outside(1))
        .unwrap()
        .actions;
    assert!(matches!(
        &actions[0],
        CallAction::Send(SipFrame::Response { status: 100, .. })
    ));
    match &actions[1] {
        CallAction::Send(SipFrame::Response { status: 200, body: Some(body), .. }) => {
            assert_eq!(parse_audio_sdp(body.as_bytes()).unwrap().media_port, 20002)
        },
        other => panic!("expected 200, got {other:?}"),
    }
}

#[test]
fn incoming_calls_need_a_trunk_and_an_offer() {
    let mut link = link();
    let mut run = run("operator-test-refused");
    let session = &mut run.session;
    let status = |actions: Vec<CallAction>| match actions.into_iter().next() {
        Some(CallAction::Send(SipFrame::Response { status, .. })) => status,
        other => panic!("expected a response, got {other:?}"),
    };
    let invite = incoming(&answer_sdp(43000), "");
    link.available = false;
    assert_eq!(session.relay_need_for_frame(&link, invite.as_bytes()), RelayNeed::Nothing);
    assert_eq!(session.relay_addrs_for_frame(&link, invite.as_bytes()), None);
    assert_eq!(
        status(session.handle_frame(&link, invite.as_bytes(), outside(1)).unwrap().actions),
        480
    );
    link.available = true;
    link.trunk_local_ip = None;
    assert_eq!(
        status(session.handle_frame(&link, invite.as_bytes(), outside(1)).unwrap().actions),
        480
    );
    assert_eq!(session.calls.len(), 0);

    let bye = b"BYE sip:x SIP/2.0\r\nVia: SIP/2.0/TCP a;branch=z9hG4bKq\r\nFrom: <sip:a>;tag=f\r\nTo: <sip:b>;tag=t\r\nCall-ID: nobody\r\nCSeq: 2 BYE\r\nContent-Length: 0\r\n\r\n";
    assert!(session.handle_frame(&link, bye, outside(1)).unwrap().actions.is_empty());
    let options = b"OPTIONS sip:x SIP/2.0\r\nVia: SIP/2.0/TCP a;branch=z9hG4bKq\r\nFrom: <sip:a>;tag=f\r\nTo: <sip:b>\r\nCall-ID: ping\r\nCSeq: 3 OPTIONS\r\nContent-Length: 0\r\n\r\n";
    assert_eq!(
        status(session.handle_frame(&link, options, outside(1)).unwrap().actions),
        200
    );
}

#[test]
fn commands_that_fail_tell_the_trunk() {
    let link = link();
    let mut run = run("operator-test-fail");
    let session = &mut run.session;
    let fail = |session: &mut VoiceSession, command: OperatorCommand, outside: Outside| {
        session.handle_command_inner(&link, command, outside).unwrap_err()
    };
    assert_eq!(
        fail(session, OperatorCommand::CancelCall { call_id: text("x") }, outside(1)),
        "vowifi_call_unknown"
    );
    assert_eq!(
        fail(session, OperatorCommand::HangupCall { call_id: text("x") }, outside(1)),
        "vowifi_call_unknown"
    );
    assert_eq!(
        fail(
            session,
            OperatorCommand::RejectCall { call_id: text("x"), status: 486 },
            outside(1)
        ),
        "vowifi_call_unknown"
    );
    let mut unbound = outside(1);
    unbound.audio = Err(text("vowifi_media_bind_failed"));
    assert_eq!(
        fail(session, start_call("a", "+601112023012"), unbound),
        "vowifi_media_bind_failed"
    );
    assert_eq!(session.calls.len(), 0);

    let (frame, event) = session.handle_command(
        &link,
        start_call("bad", "not a number"),
        outside(1),
    );
    assert_eq!(frame, None);
    assert_eq!(event, Some(OperatorEvent::Unavailable { call_id: text("bad") }));

    started(session, &link, "twice", 2);
    assert!(session
        .handle_command_inner(&link, start_call("twice", "+601112023012"), outside(3))
        .is_err());
    assert_eq!(session.calls.len(), 1);
    assert_eq!(
        session.note_invite(text("twice"), b"INVITE sip:x SIP/2.0\r\n\r\n"),
        Err("vowifi_invite_branch_missing")
    );
    assert_eq!(
        command_call_id(&OperatorCommand::RejectRenegotiation {
            call_id: text("named"),
            status: 488
        }),
        "named"
    );
}

#[test]
fn video_needs_the_feature() {
    let mut link = link();
    let mut run = run("operator-test-video");
    let mut command = start_call("v", "+601112023012");
    let body = "v=0\r\no=- 1 1 IN IP4 127.0.0.1\r\ns=-\r\nc=IN IP4 127.0.0.1\r\nt=0 0\r\nm=video 50000 RTP/AVP 99\r\na=rtpmap:99 H264/90000\r\na=fmtp:99 packetization-mode=1\r\na=sendrecv\r\n";
    let description = parse_video_sdp(body.as_bytes()).unwrap();
    assert_eq!(
        media_endpoint_for_video(&audio_offer(addr("127.0.0.1:31000")).audio, &description),
        Ok(addr("127.0.0.1:50000"))
    );
    if let OperatorCommand::StartCall { offer, .. } = &mut command {
        offer.video = Some(VideoOffer { description, endpoint: addr("127.0.0.1:50000") });
    }
    assert_eq!(run.session.relay_need_for_command(&link, &command), RelayNeed::Nothing);
    assert_eq!(run.session.relay_addrs_for_command(&link, &command), None);
    link.video_enabled = true;
    if let OperatorCommand::StartCall { trunk_local_ip, .. } = &mut command {
        *trunk_local_ip = parse_ip("192.0.2.77").unwrap();
    }
    run.session.context.route.local_addr = addr("10.9.8.7:5060");
    let addrs = RelayAddrs {
        operator: parse_ip("10.9.8.7").unwrap(),
        trunk: parse_ip("192.0.2.77").unwrap(),
    };
    assert_eq!(run.session.relay_addrs_for_command(&link, &command), Some(addrs));
    assert_eq!(
        run.session.relay_need_for_command(&link, &command),
        RelayNeed::AudioAndVideo
    );
    link.video_enabled = false;
    assert_eq!(
        run.session.handle_command_inner(&link, command, outside(1)),
        Err(text("vowifi_video_feature_disabled"))
    );
}

#[test]
fn session_ends_with_its_registration_and_its_channel() {
    let link = link();
    let mut run = run("operator-test-expiry");
    assert!(!run.begin_turn(29 * SECOND));
    assert_eq!(run.check_validity(29 * SECOND), Ok(true));
    started(&mut run.session, &link, "call", 1);
    assert_eq!(run.check_validity(30 * SECOND), Ok(false));
    assert_eq!(
        run.read_failed("ims_channel_read_timeout", 30 * SECOND),
        ReadFailure::Timeout
    );
    assert_eq!(
        run.read_failed("ims_channel_closed", 30 * SECOND),
        ReadFailure::Ended { calls: vec![text("call")], activated: false }
    );
    assert!(!run.begin_turn(30 * SECOND));
    assert_eq!(run.check_validity(30 * SECOND), Err("vowifi_registration_expired"));

    assert!(run.replace(channel("operator-test-expiry", 7), 5));
    assert_eq!(run.session.channel, 7);
}

#[test]
fn waiting_registration_that_expired_is_taken_over_before_the_session_ends() {
    let link = link();
    let mut run = run("operator-test-late");
    started(&mut run.session, &link, "call", 1);
    assert!(!run.replace(channel("operator-test-late", 9), SECOND));
    run.session.handle_command(
        &link,
        OperatorCommand::HangupCall { call_id: text("call") },
        outside(2),
    );
    assert!(run.begin_turn(60 * SECOND));
    assert_eq!(run.session.channel, 9);
    assert_eq!(run.pending_replacement, None);
    assert_eq!(run.check_validity(60 * SECOND), Err("vowifi_registration_expired"));
}

#[test]
fn responses_to_unknown_calls_are_told_apart() {
    let link = link();
    let mut run = run("operator-test-stray");
    let mut ask = |frame: &[u8]| run.session.handle_response(&link, text("gone"), frame);
    assert_eq!(
        ask(b"SIP/2.0 abc OK\r\nCSeq: 1 INVITE\r\n\r\n"),
        Err(text("ims_sip_status_invalid"))
    );
    assert_eq!(ask(b"SIP/2.0 200 OK\r\nCSeq: 1 BYE\r\n\r\n"), Ok(Vec::new()));
    assert_eq!(
        ask(b"SIP/2.0 200 OK\r\nCSeq: 1 INVITE\r\n\r\n"),
        Err(text("vowifi_call_unknown"))
    );
}

#[test]
fn relays_that_are_not_there_are_named() {
    let error = |video, failure| relay_outcome(video, Err(failure)).unwrap_err();
    let said = || text("in use");
    assert_eq!(error(false, RelayFailure::Bind(said())), "vowifi_rtp_bind_failed:in use");
    assert_eq!(error(false, RelayFailure::Local(said())), "vowifi_rtp_local_failed:in use");
    assert_eq!(error(true, RelayFailure::Bind(said())), "vowifi_video_rtp_bind_failed:in use");
    assert_eq!(error(true, RelayFailure::Local(said())), "vowifi_video_rtp_local_failed:in use");
}

#[test]
fn header_readers_follow_the_wire() {
    let frame = b"INVITE sip:x SIP/2.0\r\nVia: SIP/2.0/UDP a;rport;branch=z9hG4bK1\r\nFrom: <sip:a@b>;tag=f\r\nTo: <sip:c@d>; TAG=\"quoted\"\r\nContact: \"Me\" <sip:me@host>;x=1\r\nCSeq: 12 INVITE\r\n\r\n";
    assert_eq!(top_via_branch(frame).as_deref(), Some("z9hG4bK1"));
    assert_eq!(response_to_tag(frame).as_deref(), Some("quoted"));
    assert_eq!(header_tag("<sip:a@b>"), None);
    assert_eq!(header_uri(frame, "Contact").as_deref(), Some("sip:me@host"));
    assert_eq!(cseq_number(frame, "invite"), Ok(12));
    assert_eq!(cseq_number(frame, "BYE"), Err("vowifi_cseq_method_mismatch"));
    assert_eq!(cseq_number(b"X\r\n\r\n", "BYE"), Err("vowifi_cseq_missing"));
    assert_eq!(
        cseq_number(b"X\r\nCSeq: a INVITE\r\n\r\n", "INVITE"),
        Err("vowifi_cseq_invalid")
    );
    assert_eq!(
        cseq_number(b"X\r\nCSeq: 4\r\n\r\n", "INVITE"),
        Err("vowifi_cseq_method_missing")
    );
    assert_eq!(sip_reason(491), "Request Pending");
    assert_eq!(sip_reason(299), "SIP Response");
    let c = context("line");
    assert_eq!(
        ims_contact(&c.identity, &c.route),
        "sip:+601100000001@127.0.0.1:40100;transport=tcp"
    );
    assert_eq!(normalize_caller("+60123"), "+60123");
    assert!(normalize_callee("", "ims.example").is_err());
}

#[test]
fn telephone_events_and_endpoints_are_read_from_sdp() {
    let body = answer_sdp(42000);
    assert_eq!(
        parse_rtp_telephone_event(body.as_bytes()),
        Some(RtpTelephoneEvent { payload_type: 96, clock_rate: 8000, events: Some(text("0-16")) })
    );
    let audio = parse_audio_sdp(body.as_bytes()).unwrap();
    assert_eq!(media_endpoint(&audio), Ok(addr("127.0.0.1:42000")));
    let named = parse_audio_sdp(
        b"v=0\r\nc=IN IP4 media.example\r\nm=audio 9 RTP/AVP 0\r\na=rtpmap:0 PCMU/8000\r\n",
    )
    .unwrap();
    assert!(media_endpoint(&named).is_err());
    let tone = |payload_type: u8| {
        Some(RtpTelephoneEvent { payload_type, clock_rate: 8000, events: None })
    };
    assert_eq!(
        payload_mappings(&audio, &audio, &tone(96), &tone(101)).last(),
        Some(&PayloadTypeMapping { operator: 96, internal: 101 })
    );
}

#[test]
fn lines_keep_one_session_each() {
    let mut registry = OperatorRegistry::new();
    assert_eq!(registry.operator_link_for_line("a"), 0);
    assert_eq!(registry.operator_link_for_line("b"), 1);
    assert_eq!(registry.operator_link_for_line("a"), 0);
    registry.bind_supplementary_for_line("a", 9);
    assert_eq!(
        registry.install_registered_channel("a", text("p"), false, 1),
        Installation::Started { stopped: None, generation: 1 }
    );
    assert!(registry.handles[0].ready);
    assert_eq!(
        registry.install_registered_channel("a", text("p"), true, 2),
        Installation::HandedOver
    );
    assert_eq!(
        registry.install_registered_channel("a", text("q"), true, 3),
        Installation::Started { stopped: Some(1), generation: 2 }
    );
    registry.task_ended("a", 1);
    assert!(registry.handles[0].ready);
    assert_eq!(registry.disconnect_profile("a", "p"), None);
    assert_eq!(
        registry.disconnect_profile("a", "q"),
        Some(Disconnected { stopped: Some(3), runtime: Some(9) })
    );
    assert!(!registry.handles[0].ready);
    assert_eq!(registry.disconnect_line("c"), None);
    assert_eq!(
        registry.disconnect_line("b"),
        Some(Disconnected { stopped: None, runtime: None })
    );
}

#[test]
fn relays_follow_the_calls() {
    let link = link();
    let mut run = run("operator-test-relays");
    let mut relays = RelayLedger::new();
    relays.bound(1);
    relays.bound(9);
    let invite = started(&mut run.session, &link, "relay-call", 1);
    // The relay that no call took is closed; the other one waits.
    assert_eq!(relays.settle(&run.session), vec![RelayWork::Close(9)]);
    assert_eq!(relays.held, vec![HeldRelay { relay: 1, running: false }]);

    answered(&mut run.session, &link, &invite);
    match relays.settle(&run.session).as_slice() {
        [RelayWork::Start(active)] => {
            assert_eq!(active.relay, 1);
            assert_eq!(active.internal, addr("127.0.0.1:31000"));
        },
        other => panic!("expected a start, got {other:?}"),
    }
    assert!(relays.settle(&run.session).is_empty());
    assert_eq!(relays.held, vec![HeldRelay { relay: 1, running: true }]);

    run.session.handle_command(
        &link,
        OperatorCommand::HangupCall { call_id: text("relay-call") },
        outside(2),
    );
    assert_eq!(relays.settle(&run.session), vec![RelayWork::Close(1)]);
    assert!(relays.held.is_empty());
}
