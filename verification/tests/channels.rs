use ims_core::access::volte::channel::VolteSipChannel as HostChannel;
use ims_core::context::{ImsRoute, SipTransport};
use ims_core::ims_access::ImsAccess;
use ims_core::ip_text::parse_socket;
use ims_core::net::{BoundSocket, IpAddr, SocketAddr};
use ims_core::outbound::LineOutbound;
use ims_core::requeue::ImsRequeue;
use ims_core::sip_frame::header_value;
use ims_core::stun::crc32;
use ims_core::volte::channel::{
    header_parameter_port, map_socket_read_error, resolve_reads, sent_whole, Listening, ReadErrorKind,
    ReadFrom, ReserveStep, SocketOutcome, VolteSipChannel,
};
use ims_core::vowifi::channel::{
    EpdgSipChannel, SipChannel, SipChannelSocket, Teardown, UdpSipChannel,
};
use ims_core::ims_error::ImsError;

const REQUEUED_FIRST: &[u8] = b"NOTIFY sip:user@ims.example SIP/2.0\r\nContent-Length: 0\r\n\r\n";
const REQUEUED_SECOND: &[u8] = b"MESSAGE sip:user@ims.example SIP/2.0\r\nContent-Length: 0\r\n\r\n";
const PARTIAL_PREFIX: &[u8] = b"INVITE sip:user@ims.example SIP/2.0\r\nContent-Length: 4\r\n\r\nbo";
const PARTIAL_SUFFIX: &[u8] = b"dy";
const INSTANCE: &str = "urn:uuid:4dbe7146-bdf7-3eea-90a4-31e79e6d22f0";
const COOKIE: [u8; 4] = [0x21, 0x12, 0xa4, 0x42];
const SECOND: u64 = 1_000_000_000;
const FIRST: LineOutbound = LineOutbound {
    additional_flow_requires_outbound: false,
    may_offer_outbound: true,
    instance_matches: true,
};

fn addr(text: &str) -> SocketAddr {
    parse_socket(text).unwrap()
}

fn socket(id: u64, text: &str) -> BoundSocket {
    BoundSocket { id, local: addr(text) }
}

fn route(transport: SipTransport) -> ImsRoute {
    ImsRoute {
        local_addr: addr("127.0.0.1:40000"),
        pcscf_addr: addr("127.0.0.1:5060"),
        transport,
    }
}

fn expected_merged_pending() -> Vec<u8> {
    [REQUEUED_FIRST, REQUEUED_SECOND, PARTIAL_PREFIX].concat()
}

fn register_request(call_id: &str, cseq: u32) -> Vec<u8> {
    format!("REGISTER sip:ims.test SIP/2.0\r\nVia: SIP/2.0/UDP 127.0.0.1:5060;branch=z9hG4bK-{call_id}-{cseq}\r\nCall-ID: {call_id}\r\nCSeq: {cseq} REGISTER\r\nContact: <sip:ue@127.0.0.1:5060>\r\nExpires: 3600\r\nContent-Length: 0\r\n\r\n").into_bytes()
}

fn register_success(request: &[u8], expires: u32) -> Vec<u8> {
    format!("SIP/2.0 200 OK\r\nVia: {}\r\nCall-ID: {}\r\nCSeq: {}\r\nContact: {};expires={expires}\r\nRequire: outbound\r\nPath: <sip:edge.ims.test;lr;ob>\r\nFlow-Timer: 25\r\nContent-Length: 0\r\n\r\n",
        header_value(request, "Via").unwrap(),
        header_value(request, "Call-ID").unwrap(),
        header_value(request, "CSeq").unwrap(),
        header_value(request, "Contact").unwrap(),
    ).into_bytes()
}

fn success(id: [u8; 12], addr: SocketAddr) -> Vec<u8> {
    let mut data = vec![0, 1];
    data.extend_from_slice(&(addr.port ^ 0x2112).to_be_bytes());
    let IpAddr::V4(v) = addr.ip else { panic!("an IPv4 address is wanted") };
    data.extend(v.to_be_bytes().iter().zip(&COOKIE).map(|(v, m)| v ^ m));
    let mut packet = vec![1, 1];
    packet.extend_from_slice(&((data.len() + 12) as u16).to_be_bytes());
    packet.extend_from_slice(&COOKIE);
    packet.extend_from_slice(&id);
    packet.extend_from_slice(&[0, 0x20]);
    packet.extend_from_slice(&(data.len() as u16).to_be_bytes());
    packet.extend_from_slice(&data);
    let fingerprint = crc32(&packet) ^ 0x5354_554e;
    packet.extend_from_slice(&[0x80, 0x28, 0, 4]);
    packet.extend_from_slice(&fingerprint.to_be_bytes());
    packet
}

#[test]
fn outbound_udp_server_tuple_pong_is_consumed_without_corrupting_sip() {
    let mut channel = UdpSipChannel::new_with_receive_socket(
        socket(1, "127.0.0.1:40000"),
        socket(2, "127.0.0.1:40001"),
        Vec::new(),
        route(SipTransport::Udp),
        Some("ipsec-3gpp".to_string()),
    );
    channel.inner.outbound.configure(ImsAccess::Wlan, INSTANCE, true);
    let request = channel.inner.prepare(&register_request("wlan", 1), FIRST).unwrap();
    assert!(!channel.datagram_read(&register_success(&request, 1800), SECOND).unwrap());
    let response = channel.inner.take_datagram_frame().unwrap().unwrap();
    channel.inner.outbound.registered(&response, false, 3600, SECOND).unwrap();

    let now = channel.inner.outbound.deadline().unwrap();
    let packet = channel.inner.maintain_outbound(now).unwrap().unwrap();
    assert_eq!(packet.len(), 28);
    assert_eq!(channel.send_socket_for(&packet).id, 1);
    let id: [u8; 12] = packet[8..20].try_into().unwrap();
    let mut wrong_id = id;
    wrong_id[0] ^= 1;
    let peer = addr("127.0.0.1:40000");
    assert!(channel.datagram_read(&success(wrong_id, peer), now).unwrap());
    assert!(channel.datagram_read(&success(id, peer), now).unwrap());
    assert!(channel.inner.pending.is_empty());
    assert!(!channel.datagram_read(REQUEUED_FIRST, now).unwrap());
    assert_eq!(
        channel.inner.take_datagram_frame().unwrap().unwrap(),
        REQUEUED_FIRST
    );
    assert!(channel.inner.outbound.lease.as_ref().unwrap().proven(now));
}

#[test]
fn outbound_tcp_split_pong_preserves_coalesced_sip_frames() {
    let mut channel = EpdgSipChannel::new(
        socket(1, "127.0.0.1:40000"),
        Vec::new(),
        route(SipTransport::Tcp),
        None,
    );
    channel.inner.outbound.configure(ImsAccess::Wlan, INSTANCE, true);
    let request = channel.inner.prepare(&register_request("tcp", 1), FIRST).unwrap();
    channel.bytes_read(&register_success(&request, 1800)).unwrap();
    let response = channel.inner.take_stream_frame(SECOND).unwrap().unwrap();
    channel.inner.outbound.registered(&response, true, 3600, SECOND).unwrap();
    assert_eq!(channel.send_keepalive(), None);

    let now = channel.inner.outbound.deadline().unwrap();
    assert_eq!(channel.inner.maintain_outbound(now).unwrap().unwrap(), b"\r\n\r\n");
    channel.bytes_read(b"\r").unwrap();
    assert_eq!(channel.inner.take_stream_frame(now).unwrap(), None);
    assert!(!channel.inner.outbound.lease.as_ref().unwrap().proven(now));
    channel
        .bytes_read(&[b"\n".as_slice(), REQUEUED_FIRST, REQUEUED_SECOND].concat())
        .unwrap();
    assert_eq!(
        channel.inner.take_stream_frame(now).unwrap().unwrap(),
        REQUEUED_FIRST
    );
    assert_eq!(
        channel.inner.take_stream_frame(now).unwrap().unwrap(),
        REQUEUED_SECOND
    );
    assert!(channel.inner.outbound.lease.as_ref().unwrap().proven(now));
}

#[test]
fn tcp_into_parts_preserves_requeue_fifo_and_partial_frame() {
    let mut channel = EpdgSipChannel::new(
        socket(1, "127.0.0.1:40000"),
        PARTIAL_PREFIX.to_vec(),
        route(SipTransport::Tcp),
        None,
    );
    assert!(channel.inner.requeue(REQUEUED_FIRST.to_vec()));
    assert!(channel.inner.requeue(REQUEUED_SECOND.to_vec()));

    let (stream, pending) = channel.into_parts();
    assert_eq!(pending, expected_merged_pending());
    let mut channel = EpdgSipChannel::new(stream, pending, route(SipTransport::Tcp), None);
    assert_eq!(channel.inner.take_stream_frame(1).unwrap().unwrap(), REQUEUED_FIRST);
    assert_eq!(channel.inner.take_stream_frame(1).unwrap().unwrap(), REQUEUED_SECOND);
    assert_eq!(channel.inner.take_stream_frame(1).unwrap(), None);
    channel.bytes_read(PARTIAL_SUFFIX).unwrap();
    assert_eq!(
        channel.inner.take_stream_frame(1).unwrap().unwrap(),
        [PARTIAL_PREFIX, PARTIAL_SUFFIX].concat()
    );
    assert_eq!(channel.bytes_read(b"").unwrap_err().code(), "ims_channel_closed");
}

#[test]
fn udp_into_parts_preserves_requeue_fifo_and_partial_frame() {
    let mut channel = UdpSipChannel::new(
        socket(1, "127.0.0.1:40000"),
        PARTIAL_PREFIX.to_vec(),
        route(SipTransport::Udp),
        None,
    );
    channel.inner.requeue(REQUEUED_FIRST.to_vec());
    channel.inner.requeue(REQUEUED_SECOND.to_vec());

    let (send, receive, pending) = channel.into_parts();
    assert!(receive.is_none());
    assert_eq!(pending, expected_merged_pending());
    let mut channel = UdpSipChannel::new(send, pending, route(SipTransport::Udp), None);
    assert_eq!(channel.inner.take_datagram_frame().unwrap().unwrap(), REQUEUED_FIRST);
    assert_eq!(channel.inner.take_datagram_frame().unwrap().unwrap(), REQUEUED_SECOND);
    assert!(!channel.datagram_read(PARTIAL_SUFFIX, 1).unwrap());
    assert_eq!(
        channel.inner.take_datagram_frame().unwrap().unwrap(),
        [PARTIAL_PREFIX, PARTIAL_SUFFIX].concat()
    );
}

#[test]
fn protected_udp_into_parts_preserves_requeue_fifo_and_partial_frame() {
    let mut channel = UdpSipChannel::new_with_receive_socket(
        socket(1, "127.0.0.1:40000"),
        socket(2, "127.0.0.1:40001"),
        PARTIAL_PREFIX.to_vec(),
        route(SipTransport::Udp),
        Some("ipsec-3gpp".to_string()),
    );
    channel.inner.requeue(REQUEUED_FIRST.to_vec());
    channel.inner.requeue(REQUEUED_SECOND.to_vec());

    let (send, receive, pending) = channel.into_parts();
    assert_eq!(pending, expected_merged_pending());
    let mut channel = UdpSipChannel::new_with_receive_socket(
        send,
        receive.expect("protected receive socket"),
        pending,
        route(SipTransport::Udp),
        Some("ipsec-3gpp".to_string()),
    );
    assert_eq!(channel.inner.take_datagram_frame().unwrap().unwrap(), REQUEUED_FIRST);
    assert_eq!(channel.inner.take_datagram_frame().unwrap().unwrap(), REQUEUED_SECOND);
    channel.datagram_read(PARTIAL_SUFFIX, 1).unwrap();
    assert_eq!(
        channel.inner.take_datagram_frame().unwrap().unwrap(),
        [PARTIAL_PREFIX, PARTIAL_SUFFIX].concat()
    );
}

#[test]
fn udp_channel_round_trips_sip_frames() {
    let mut channel = UdpSipChannel::new(
        socket(1, "127.0.0.1:40000"),
        Vec::new(),
        route(SipTransport::Udp),
        None,
    );
    let request =
        b"REGISTER sip:example.com SIP/2.0\r\nVia: SIP/2.0/UDP 192.0.2.1:5060\r\nContent-Length: 0\r\n\r\n";
    assert_eq!(channel.inner.prepare(request, FIRST).unwrap(), request);
    assert_eq!(channel.send_socket_for(request).id, 1);
    let response =
        b"SIP/2.0 401 Unauthorized\r\nWWW-Authenticate: Digest realm=\"ims.example\"\r\nContent-Length: 0\r\n\r\n";
    channel.datagram_read(response, 1).unwrap();
    assert_eq!(channel.inner.take_datagram_frame().unwrap().unwrap(), response);
}

#[test]
fn udp_channel_recv_chunk_reassembles_oversized_datagram() {
    let mut channel = UdpSipChannel::new(
        socket(1, "127.0.0.1:40000"),
        Vec::new(),
        route(SipTransport::Udp),
        None,
    );
    let mut frame = b"SIP/2.0 200 OK\r\nContent-Length: 2900\r\n\r\n".to_vec();
    frame.extend(std::iter::repeat(b'x').take(2900));
    channel.datagram_read(&frame, 1).unwrap();
    let mut collected = Vec::new();
    let mut sizes = Vec::new();
    while collected.len() < frame.len() {
        let chunk = channel.inner.take_chunk(1024);
        sizes.push(chunk.len());
        collected.extend_from_slice(&chunk);
    }
    assert_eq!(collected, frame);
    assert_eq!(sizes, vec![1024, 1024, 892]);
    assert!(channel.inner.take_chunk(1024).is_empty());
}

#[test]
fn protected_udp_pair_keeps_server_flow_for_inbound_sip() {
    let mut channel = UdpSipChannel::new_with_receive_socket(
        socket(1, "127.0.0.1:40000"),
        socket(2, "127.0.0.1:40001"),
        Vec::new(),
        route(SipTransport::Udp),
        Some("ipsec-3gpp".to_string()),
    );
    let options = b"OPTIONS sip:ims.example SIP/2.0\r\nContent-Length: 0\r\n\r\n";
    assert_eq!(channel.send_socket_for(options).id, 1);
    let incoming = b"MESSAGE sip:user@ims.example SIP/2.0\r\nContent-Length: 0\r\n\r\n";
    channel.datagram_read(incoming, 1).unwrap();
    assert_eq!(channel.inner.take_datagram_frame().unwrap().unwrap(), incoming);
    let response = b"SIP/2.0 200 OK\r\nContent-Length: 0\r\n\r\n";
    assert_eq!(channel.send_socket_for(response).id, 2);
    let (_, receive_socket, pending) = channel.into_parts();
    assert!(receive_socket.is_some());
    assert!(pending.is_empty());
}

#[test]
fn sip_channel_enum_dispatches_udp_and_keepalive_is_noop() {
    let mut channel = SipChannel::new(
        SipChannelSocket::Udp(socket(1, "127.0.0.1:40000")),
        Vec::new(),
        route(SipTransport::Udp),
        Some("ipsec-3gpp".to_string()),
    );
    assert!(!channel.is_tcp());
    assert_eq!(channel.route().transport, SipTransport::Udp);
    assert_eq!(channel.security_verify(), Some("ipsec-3gpp"));
    assert!(!channel.outbound_active());

    let frame = b"SIP/2.0 200 OK\r\nContent-Length: 0\r\n\r\n";
    channel.prepend_pending(frame.to_vec()).unwrap();
    if let SipChannel::Udp(c) = &mut channel {
        assert_eq!(c.inner.take_datagram_frame().unwrap().unwrap(), frame);
    }
    let (socket_out, pending) = channel.into_parts();
    assert!(pending.is_empty());
    assert!(matches!(socket_out, SipChannelSocket::Udp(_)));
    assert_eq!(socket_out.local_addr(), addr("127.0.0.1:40000"));
}

#[test]
fn streams_are_reset_and_datagram_sockets_closed() {
    let one = socket(1, "127.0.0.1:40000");
    let two = socket(2, "127.0.0.1:40001");
    let tcp = SipChannel::new(SipChannelSocket::Tcp(one), Vec::new(), route(SipTransport::Tcp), None);
    assert!(tcp.is_tcp());
    assert_eq!(tcp.abort(), Teardown::Reset(one));
    let pair = SipChannel::new_udp_pair(one, two, Vec::new(), route(SipTransport::Udp), None);
    assert_eq!(pair.abort(), Teardown::ClosePair(one, two));
    assert_eq!(SipChannelSocket::Udp(two).abort(), Teardown::Close(two));
}

#[test]
fn channels_bound_what_waits_and_how_long() {
    let mut channel = EpdgSipChannel::new(
        socket(1, "127.0.0.1:40000"),
        Vec::new(),
        route(SipTransport::Tcp),
        None,
    );
    assert_eq!(channel.send_keepalive().unwrap(), b"\r\n\r\n");
    assert_eq!(channel.inner.wake(5, 9).unwrap(), 9);
    assert_eq!(channel.inner.wake(9, 9).unwrap_err().code(), "ims_channel_read_timeout");
    let large = vec![b'x'; 1_000_000];
    assert_eq!(
        channel.bytes_read(&large).unwrap_err().code(),
        "ims_channel_frame_too_large"
    );
    assert_eq!(
        channel.inner.prepend_pending(large).unwrap_err().code(),
        "ims_channel_frame_too_large"
    );
    assert_eq!(
        channel.inner.keepalive_send_failed().code(),
        "ims_outbound_keepalive_send_failed"
    );
}

#[test]
fn requeue_is_first_in_first_out_and_bounded() {
    let mut queue = ImsRequeue::default();
    assert_eq!(queue.pop_front(), None);
    assert!(queue.push_back(b"one".to_vec()));
    assert!(queue.push_back(b"two".to_vec()));
    assert_eq!(queue.len(), 2);
    assert_eq!(queue.bytes(), 6);
    assert_eq!(queue.pop_front().unwrap(), b"one");
    assert_eq!(queue.bytes(), 3);
    assert_eq!(queue.merged_with(b"three"), b"twothree");

    let mut full = ImsRequeue::default();
    let mut kept = 0;
    while full.push_back(vec![0; 1024]) {
        kept += 1;
        assert!(kept < 10_000);
    }
    assert_eq!(full.len(), kept);
    assert_eq!(full.bytes(), kept * 1024);
}

#[test]
fn channel_rejects_mismatched_address_families() {
    let route = ImsRoute {
        local_addr: addr("127.0.0.1:0"),
        pcscf_addr: addr("[::1]:5060"),
        transport: SipTransport::Udp,
    };
    let bound = Some(socket(1, "127.0.0.1:40000"));
    let error = VolteSipChannel::bind(route, None, None, bound).err().unwrap();
    assert_eq!(error.code(), "volte_channel_bind_failed");
    let error = HostChannel::bind(route, None, None, bound).err().unwrap();
    assert_eq!(error.code(), "volte_channel_bind_failed");
}

#[test]
fn channel_udp_channel_round_trips_sip_datagrams() {
    let bound = socket(1, "127.0.0.1:40000");
    let mut channel =
        VolteSipChannel::bind(route(SipTransport::Udp), None, None, Some(bound)).unwrap();
    assert_eq!(channel.local_addr().unwrap(), bound.local);
    assert_eq!(channel.send_socket().unwrap(), bound);
    let request = b"REGISTER sip:ims.example SIP/2.0\r\n\r\n";
    assert!(sent_whole(Some(request.len()), request).is_ok());
    assert_eq!(sent_whole(Some(3), request).unwrap_err().code(), "volte_channel_short_send");
    assert_eq!(sent_whole(None, request).unwrap_err().code(), "volte_channel_send_failed");
    assert_eq!(channel.next_requeued(), None);
    let (current, previous) = channel.listening();
    assert_eq!(current.send, Some(bound));
    assert_eq!(current.receive, None);
    assert_eq!(current.read_from().unwrap(), ReadFrom::One(bound));
    assert_eq!(previous, None);
    let nowhere = Listening { receive: None, send: None };
    assert_eq!(
        nowhere.read_from().unwrap_err().code(),
        "volte_channel_receive_socket_missing"
    );

    let mut host =
        HostChannel::bind(route(SipTransport::Udp), Some("rmnet0".to_string()), None, Some(bound))
            .unwrap();
    assert_eq!(host.local_addr(), bound.local);
    assert_eq!(host.interface(), Some("rmnet0"));
    let next = socket(2, "127.0.0.1:40002");
    assert_eq!(
        host.rebind(route(SipTransport::Udp), None, None).unwrap_err().code(),
        "volte_channel_bind_failed"
    );
    assert_eq!(host.local_addr(), bound.local);
    host.rebind(route(SipTransport::Udp), Some("ipsec-3gpp".to_string()), Some(next)).unwrap();
    assert_eq!(host.local_addr(), next.local);
    assert_eq!(host.security_verify(), Some("ipsec-3gpp"));
}

fn protected() -> (VolteSipChannel, BoundSocket, BoundSocket, BoundSocket) {
    let plain = socket(1, "127.0.0.1:40000");
    let send = socket(2, "127.0.0.1:41000");
    let receive = socket(3, "127.0.0.1:41001");
    let mut channel =
        VolteSipChannel::bind(route(SipTransport::Udp), None, None, Some(plain)).unwrap();
    assert_eq!(
        channel.reserve_security_receive_port_in_worker_at(SocketOutcome::Udp(receive), 0, 0),
        ReserveStep::Reserved(41001)
    );
    assert_eq!(
        channel.reserve_security_send_port_in_worker_at(
            SocketOutcome::Udp(socket(9, "127.0.0.1:5060")),
            0,
            0,
            41001
        ),
        ReserveStep::Again
    );
    assert_eq!(
        channel.reserve_security_send_port_in_worker_at(SocketOutcome::Udp(send), 1, 0, 41001),
        ReserveStep::Reserved(41000)
    );
    (channel, plain, send, receive)
}

#[test]
fn settled_ports_need_no_socket_and_others_are_not_connected() {
    let fresh = VolteSipChannel::bind(
        route(SipTransport::Udp),
        None,
        None,
        Some(socket(1, "127.0.0.1:40000")),
    )
    .unwrap();
    assert_eq!(fresh.settled_send_port(), None);
    assert!(fresh.settled_receive_port(0).is_none());
    assert_eq!(
        fresh.settled_receive_port(5060).unwrap().unwrap_err().code(),
        "volte_channel_receive_reserved_sip_port"
    );
    let (channel, _, send, receive) = protected();
    assert_eq!(channel.settled_send_port(), Some(41000));
    assert_eq!(channel.settled_receive_port(5060).unwrap().unwrap(), 41001);
    let send_route = ImsRoute { local_addr: send.local, ..route(SipTransport::Udp) };
    assert_eq!(fresh.send_to_connect(send_route), None);
    assert_eq!(channel.send_to_connect(route(SipTransport::Udp)), None);
    assert_eq!(channel.send_to_connect(send_route), Some(send));
    assert_eq!(channel.receive_to_connect(send_route, receive.local, true), Some(receive));
    assert_eq!(channel.receive_to_connect(send_route, receive.local, false), None);
    assert_eq!(channel.receive_to_connect(send_route, send.local, true), None);
}

#[test]
fn protected_channel_uses_distinct_send_and_receive_ports() {
    let (mut channel, plain, send, receive) = protected();
    assert_ne!(plain.local.port, send.local.port);
    let send_route = ImsRoute { local_addr: send.local, ..route(SipTransport::Udp) };
    channel
        .activate_security_in_worker(
            send_route,
            receive.local,
            Some("ipsec-3gpp".to_string()),
            true,
            true,
        )
        .unwrap();
    assert_eq!(channel.send_socket().unwrap(), send);
    let (current, previous) = channel.listening();
    assert_eq!((current.receive, current.send), (Some(receive), Some(send)));
    assert_eq!(previous.unwrap().send, Some(plain));

    channel.sync_protected_advertised_port(receive.local.port);
    assert_eq!(channel.advertised_route().local_addr, receive.local);
    assert_eq!(channel.send_route().local_addr, send.local);
    assert_eq!(channel.local_addr().unwrap(), send.local);
    assert_eq!(channel.security_verify(), Some("ipsec-3gpp"));

    channel.rollback_security();
    assert_eq!(channel.send_socket().unwrap(), plain);
    assert_eq!(channel.security_verify(), None);
    assert_eq!(channel.advertised_route().local_addr, plain.local);
}

#[test]
fn committed_security_retires_the_old_association() {
    let (mut channel, _, send, receive) = protected();
    let send_route = ImsRoute { local_addr: send.local, ..route(SipTransport::Udp) };
    let verify = Some("ipsec-3gpp".to_string());
    channel
        .activate_security_in_worker(send_route, receive.local, verify.clone(), true, true)
        .unwrap();
    channel.commit_security();
    assert_eq!(channel.listening().1, None);
    assert_eq!(
        channel
            .activate_security_in_worker(send_route, receive.local, verify.clone(), true, true)
            .unwrap_err()
            .code(),
        "volte_channel_send_not_reserved"
    );

    let next_send = socket(5, "127.0.0.1:42000");
    let next_receive = socket(6, "127.0.0.1:42001");
    channel.reserve_security_receive_port_in_worker_at(SocketOutcome::Udp(next_receive), 0, 0);
    channel.reserve_security_send_port_in_worker_at(SocketOutcome::Udp(next_send), 0, 0, 42001);
    let next_route = ImsRoute { local_addr: next_send.local, ..route(SipTransport::Udp) };
    channel
        .activate_security_in_worker(next_route, next_receive.local, verify, true, true)
        .unwrap();
    channel.commit_security();
    assert_eq!(channel.listening().1.unwrap().send, Some(send));
    channel.discard_retired_security();
    assert_eq!(channel.listening().1, None);
}

#[test]
fn activation_names_what_is_missing() {
    let send_route = ImsRoute { local_addr: addr("127.0.0.1:41000"), ..route(SipTransport::Udp) };
    let receive = addr("127.0.0.1:41001");
    let failing = |send_route: ImsRoute, receive: SocketAddr, a: bool, b: bool| {
        let (mut channel, _, _, _) = protected();
        let error = channel
            .activate_security_in_worker(send_route, receive, None, a, b)
            .unwrap_err();
        error.code().to_string()
    };
    assert_eq!(
        failing(route(SipTransport::Udp), receive, true, true),
        "volte_channel_send_port_mismatch"
    );
    assert_eq!(
        failing(send_route, receive, false, true),
        "volte_channel_send_connect_failed"
    );
    assert_eq!(
        failing(send_route, addr("127.0.0.1:41009"), true, true),
        "volte_channel_receive_port_mismatch"
    );
    assert_eq!(
        failing(send_route, receive, true, false),
        "volte_channel_receive_connect_failed"
    );
    let mut plain = VolteSipChannel::bind(
        route(SipTransport::Udp),
        None,
        None,
        Some(socket(1, "127.0.0.1:40000")),
    )
    .unwrap();
    assert_eq!(
        plain.reserve_security_send_port_in_worker_at(SocketOutcome::OtherType, 0, 0, 1),
        ReserveStep::Failed(ImsError::new("volte_channel_worker_socket_type"))
    );
    assert_eq!(
        plain.reserve_security_receive_port_in_worker_at(SocketOutcome::Failed, 0, 0),
        ReserveStep::Failed(ImsError::new("volte_channel_worker_socket_failed"))
    );
    let worker = |outcome: SocketOutcome| {
        VolteSipChannel::bind_in_worker(route(SipTransport::Udp), outcome, None, None)
    };
    assert_eq!(
        worker(SocketOutcome::OtherType).unwrap_err().code(),
        "volte_channel_worker_socket_type"
    );
    assert_eq!(
        worker(SocketOutcome::Unaddressed).unwrap_err().code(),
        "volte_channel_local_addr_failed"
    );
    assert!(worker(SocketOutcome::Udp(socket(1, "127.0.0.1:40000"))).is_ok());
}

#[test]
fn requeued_datagrams_are_delivered_fifo_before_fresh_transport_data() {
    let mut channel = VolteSipChannel::bind(
        route(SipTransport::Udp),
        None,
        None,
        Some(socket(1, "127.0.0.1:40000")),
    )
    .unwrap();
    channel.requeue(b"first".to_vec());
    channel.requeue(b"second".to_vec());
    assert_eq!(channel.next_requeued().unwrap(), b"first");
    assert_eq!(channel.next_requeued().unwrap(), b"second");
    assert_eq!(channel.next_requeued(), None);
}

#[test]
fn reads_of_two_associations_do_not_cancel_each_other() {
    let failed = || Err(ImsError::new("volte_channel_read_failed"));
    let code = |r: Result<Vec<u8>, ImsError>| r.unwrap_err().code().to_string();
    assert_eq!(
        resolve_reads(true, failed(), Some(Ok(b"late".to_vec()))).unwrap(),
        b"late"
    );
    assert_eq!(
        code(resolve_reads(true, failed(), None)),
        "volte_channel_read_failed"
    );
    assert_eq!(
        code(resolve_reads(false, failed(), None)),
        "volte_channel_read_timeout"
    );
    assert_eq!(resolve_reads(false, Ok(b"x".to_vec()), None).unwrap(), b"x");
    assert_eq!(
        map_socket_read_error(ReadErrorKind::ConnectionRefused).code(),
        "volte_channel_read_retryable"
    );
    assert_eq!(
        map_socket_read_error(ReadErrorKind::Other).code(),
        "volte_channel_read_failed"
    );
    let frame = b"X\r\nSecurity-Client: ipsec-3gpp;port-c=bad;port-s=5063\r\n\r\n";
    assert_eq!(header_parameter_port(frame, "Security-Client", "port-s"), Some(5063));
    assert_eq!(header_parameter_port(frame, "Security-Client", "port-c"), None);
}

#[test]
fn channels_share_their_flow_operations() {
    let one = socket(1, "127.0.0.1:40000");
    let make = || SipChannel::new(SipChannelSocket::Udp(one), Vec::new(), route(SipTransport::Udp), None);
    let mut channel = make();
    channel.configure_outbound(INSTANCE, true);
    let SipChannel::Udp(udp) = &mut channel else { panic!("datagrams are wanted") };
    let request = udp.inner.prepare(&register_request("shared", 1), FIRST).unwrap();
    assert_ne!(request, register_request("shared", 1));
    let response = register_success(&request, 1800);
    channel.observe_outbound_response(&response).unwrap();
    channel.outbound_registered(&response, 3600, SECOND).unwrap();
    assert!(channel.outbound_active());

    let SipChannel::Udp(udp) = &mut channel else { panic!("datagrams are wanted") };
    let now = udp.inner.outbound.deadline().unwrap();
    let packet = udp.inner.maintain_outbound(now).unwrap().unwrap();
    let id: [u8; 12] = packet[8..20].try_into().unwrap();
    assert!(udp
        .datagram_read_with(&success(id, addr("127.0.0.1:40000")), now, 7 * SECOND)
        .unwrap());
    assert_eq!(udp.inner.outbound.deadline(), Some(now + 7 * SECOND));

    let mut next = make();
    next.inherit_outbound_path_observation(&channel);
    let flow = |c: &SipChannel| match c {
        SipChannel::Udp(c) => c.inner.outbound.no_nat,
        SipChannel::Tcp(c) => c.inner.outbound.no_nat,
    };
    assert_eq!(flow(&next), flow(&channel));
    let other = ImsRoute { local_addr: addr("127.0.0.1:40009"), ..route(SipTransport::Udp) };
    next.update_context(other, Some("ipsec-3gpp".to_string()));
    assert_eq!(next.route(), other);
    assert_eq!(next.security_verify(), Some("ipsec-3gpp"));
}

#[test]
fn a_pong_sets_the_next_probe() {
    let mut channel = EpdgSipChannel::new(
        socket(1, "127.0.0.1:40000"),
        Vec::new(),
        route(SipTransport::Tcp),
        None,
    );
    channel.inner.outbound.configure(ImsAccess::Wlan, INSTANCE, true);
    let request = channel.inner.prepare(&register_request("pong", 1), FIRST).unwrap();
    let response = register_success(&request, 1800);
    channel.inner.outbound.registered(&response, true, 3600, SECOND).unwrap();
    let now = channel.inner.outbound.deadline().unwrap();
    channel.inner.maintain_outbound(now).unwrap().unwrap();
    channel.bytes_read(b"\r\n").unwrap();
    assert_eq!(channel.inner.take_stream_frame_with(now, 9 * SECOND).unwrap(), None);
    assert_eq!(channel.inner.outbound.deadline(), Some(now + 9 * SECOND));
}
