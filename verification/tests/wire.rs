use ims_core::context::{ImsRoute, SipTransport};
use ims_core::ip_text::{ip_string, parse_ip, parse_socket, socket_string};
use ims_core::net::IpAddr;
use ims_core::sdp::{negotiate_video, parse_audio_sdp, parse_video_sdp, SdpAddrType, SdpDirection};
use ims_core::sip_frame::{
    body, complete_frame_len, header_parameter, header_value, header_values, is_request,
    is_response, parse_status, uri_from_header_value,
};
use ims_core::sip_message::{build_request, SipHeader, SipRequest};
use ims_core::utf8::encode;

#[test]
fn addresses_are_read_and_written() {
    for text in ["192.0.2.1", "0.0.0.0", "255.255.255.255", "::", "::1", "2001:db8::1",
        "2001:db8:0:1:1:1:1:1", "fe80::1:0:0:1", "::ffff:192.0.2.1"]
    {
        assert_eq!(ip_string(parse_ip(text).unwrap()), text);
    }
    assert_eq!(parse_ip("::ffff:c000:201"), parse_ip("::ffff:192.0.2.1"));
    assert_eq!(parse_ip("1:0:0:2:0:0:0:3").map(ip_string).as_deref(), Some("1:0:0:2::3"));
    for text in ["", "1.2.3", "1.2.3.4.5", "256.0.0.1", "01.2.3.4", "1::2::3", "12345::", "g::",
        "1:2:3:4:5:6:7:8:9", "[::1]"]
    {
        assert_eq!(parse_ip(text), None, "{text}");
    }
    assert_eq!(parse_ip("127.0.0.1"), Some(IpAddr::V4(0x7f00_0001)));
    for text in ["192.0.2.1:5060", "[2001:db8::1]:1"] {
        assert_eq!(socket_string(parse_socket(text).unwrap()), text);
    }
    for text in ["192.0.2.1", "192.0.2.1:65536", "::1:5060", "[::1]", "[::1]:", "[192.0.2.1]:5"] {
        assert_eq!(parse_socket(text), None, "{text}");
    }
}

#[test]
fn frames_are_cut_by_their_length() {
    let one = b"SIP/2.0 200 OK\r\nContent-Length: 3\r\n\r\nabc";
    assert_eq!(complete_frame_len(one), Some(one.len()));
    assert_eq!(complete_frame_len(&one[..one.len() - 1]), None);
    let two = [one.as_slice(), b"INVITE"].concat();
    assert_eq!(complete_frame_len(&two), Some(one.len()));
    assert_eq!(complete_frame_len(b"SIP/2.0 200 OK\r\n"), None);
    assert_eq!(body(one), b"abc");
    assert_eq!(body(b"no end of headers"), b"");
}

#[test]
fn headers_are_found_by_name_whatever_the_case() {
    let frame = b"SIP/2.0 404 Not Found\r\nVia: a\r\nROUTE: one \r\nroute: two\r\nX: \xff\r\n\r\nRoute: body";
    assert_eq!(header_value(frame, "Route").as_deref(), Some("one"));
    assert_eq!(header_values(frame, "route"), vec!["one".to_string(), "two".to_string()]);
    assert_eq!(header_value(frame, "To"), None);
    assert_eq!(header_value(frame, "X").as_deref(), Some("\u{fffd}"));
    assert_eq!(parse_status(frame).unwrap(), 404);
    assert!(is_response(frame));
    assert!(!is_request(frame, "SIP/2.0x"));
    assert!(is_request(b"BYE sip:a SIP/2.0\r\n\r\n", "BYE"));
    assert!(!is_request(b"BYEBYE sip:a SIP/2.0\r\n\r\n", "BYE"));
    assert!(parse_status(b"SIP/2.0 abc\r\n\r\n").is_err());
    assert_eq!(
        uri_from_header_value("\"Name\" <sip:a@b>;tag=1").as_deref(),
        Some("sip:a@b")
    );
    assert_eq!(header_parameter("x;Foo=\"bar\"", "foo").as_deref(), Some("bar"));
}

#[test]
fn requests_are_written_in_order() {
    let request = SipRequest {
        method: "OPTIONS".to_string(),
        request_uri: "sip:b".to_string(),
        route: ImsRoute {
            local_addr: parse_socket("[2001:db8::1]:5060").unwrap(),
            pcscf_addr: parse_socket("[2001:db8::2]:5060").unwrap(),
            transport: SipTransport::Udp,
        },
        branch: "z9hG4bK1".to_string(),
        from_uri: "sip:a".to_string(),
        from_tag: "f".to_string(),
        to_value: "<sip:b>".to_string(),
        call_id: "c".to_string(),
        cseq: 7,
        headers: vec![SipHeader::new("User-Agent", "test")],
        body: b"body".to_vec(),
    };
    let bytes = build_request(&request);
    assert!(bytes.starts_with(b"OPTIONS sip:b SIP/2.0\r\n"));
    assert_eq!(complete_frame_len(&bytes), Some(bytes.len()));
    assert_eq!(body(&bytes), b"body");
    assert_eq!(header_value(&bytes, "CSeq").as_deref(), Some("7 OPTIONS"));
    assert_eq!(header_value(&bytes, "User-Agent").as_deref(), Some("test"));
    assert!(header_value(&bytes, "Via").unwrap().contains("[2001:db8::1]:5060"));
    assert!(header_value(&bytes, "Via").unwrap().contains("branch=z9hG4bK1"));
}

#[test]
fn descriptions_of_media_are_read() {
    let audio = parse_audio_sdp(
        b"v=0\r\nc=IN IP6 2001:db8::1\r\nm=audio 4000 RTP/AVP 96 8\r\na=rtpmap:96 AMR-WB/16000/1\r\na=fmtp:96 mode-set=0\r\na=recvonly\r\n",
    )
    .unwrap();
    assert_eq!(audio.connection_addr, "2001:db8::1");
    assert_eq!(audio.addr_type, SdpAddrType::Ip6);
    assert_eq!(audio.media_port, 4000);
    assert_eq!(audio.direction, SdpDirection::RecvOnly);
    assert_eq!(audio.codecs[0].name, "AMR-WB");
    assert_eq!(audio.codecs[0].fmtp.as_deref(), Some("mode-set=0"));
    assert!(parse_audio_sdp(b"v=0\r\nm=video 1 RTP/AVP 99\r\n").is_err());
    assert!(parse_video_sdp(b"v=0\r\nm=audio 1 RTP/AVP 0\r\n").is_err());
    let video = |payload: u8, codec: &str| {
        let text = format!(
            "v=0\r\nc=IN IP4 192.0.2.1\r\nm=video 5000 RTP/AVP {payload}\r\na=rtpmap:{payload} {codec}/90000\r\n"
        );
        parse_video_sdp(text.as_bytes()).unwrap()
    };
    assert!(negotiate_video(&video(99, "H264"), &video(97, "h264")).is_ok());
    assert!(negotiate_video(&video(99, "H264"), &video(99, "VP8")).is_err());
}

#[test]
fn text_is_written_as_utf8() {
    let chars: Vec<char> = "aé€😀".chars().collect();
    assert_eq!(encode(&chars), "aé€😀".as_bytes());
}
