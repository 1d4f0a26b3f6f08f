use ims_core::cellular_ims::errors::CellularImsError;
use ims_core::cellular_ims::pcscf_dns::{
    build_dns_query, parse_dns_response, read_name, DnsRecords, Name,
};
use ims_core::ip_text::{parse_ip, socket_string};
use ims_core::net::IpAddr;

const A: u16 = 1;
const CNAME: u16 = 5;
const AAAA: u16 = 28;
const SRV: u16 = 33;
const IN: u16 = 1;

fn address(value: &str) -> IpAddr {
    parse_ip(value).unwrap()
}

fn octets(value: &str) -> [u8; 16] {
    match address(value) {
        IpAddr::V6(bits) => bits.to_be_bytes(),
        IpAddr::V4(_) => panic!("an IPv6 address"),
    }
}

const ID: u16 = 0x1234;
const HOST: &str = "pcscf.ims.example";

fn wire(name: &str) -> Vec<u8> {
    let mut bytes = Vec::new();
    if name == "." {
        bytes.push(0);
    } else {
        Name::host(name).unwrap().append_wire(&mut bytes);
    }
    bytes
}

fn response(name: &str, kind: u16, counts: [u16; 3]) -> Vec<u8> {
    let mut packet = build_dns_query(ID, name, kind).unwrap();
    packet[2..4].copy_from_slice(&0x8180u16.to_be_bytes());
    for (index, count) in counts.into_iter().enumerate() {
        packet[6 + 2 * index..8 + 2 * index].copy_from_slice(&count.to_be_bytes());
    }
    packet
}

fn record(packet: &mut Vec<u8>, owner: &[u8], kind: u16, class: u16, bytes: &[u8]) {
    packet.extend_from_slice(owner);
    packet.extend_from_slice(&kind.to_be_bytes());
    packet.extend_from_slice(&class.to_be_bytes());
    packet.extend_from_slice(&60u32.to_be_bytes());
    packet.extend_from_slice(&(bytes.len() as u16).to_be_bytes());
    packet.extend_from_slice(bytes);
}

fn parse(packet: &[u8]) -> Result<DnsRecords, CellularImsError> {
    parse_dns_response(ID, HOST, AAAA, packet)
}

#[test]
fn accepts_only_the_exact_question_answer_and_deduplicates() {
    let mut packet = response(HOST, AAAA, [3, 0, 0]);
    let ip = octets("2001:db8::10");
    record(&mut packet, &[0xc0, 12], AAAA, IN, &ip);
    record(
        &mut packet,
        &wire("unrelated.example"),
        AAAA,
        IN,
        &octets("::1"),
    );
    record(&mut packet, &wire(HOST), AAAA, IN, &ip);
    assert_eq!(parse(&packet).unwrap().addresses, vec![address("2001:db8::10")]);
    assert_eq!(
        parse_dns_response(ID, "PCSCF.IMS.EXAMPLE.", AAAA, &packet)
            .unwrap()
            .addresses,
        vec![address("2001:db8::10")]
    );
}

#[test]
fn authority_and_additional_glue_cannot_become_sip_destinations() {
    let mut packet = response(HOST, AAAA, [0, 1, 2]);
    record(
        &mut packet,
        &wire("ims.example"),
        2,
        IN,
        &wire("ns.ims.example"),
    );
    record(
        &mut packet,
        &wire("ns.ims.example"),
        AAAA,
        IN,
        &octets("::1"),
    );
    // Even matching-owner additional data is not an answer to our question.
    record(
        &mut packet,
        &wire(HOST),
        AAAA,
        IN,
        &octets("::1"),
    );
    assert_eq!(parse(&packet).unwrap(), DnsRecords::default());
}

#[test]
fn rejects_header_and_question_mismatches() {
    let packet = response(HOST, AAAA, [0, 0, 0]);
    assert!(parse_dns_response(ID + 1, HOST, AAAA, &packet).is_err());
    assert!(parse_dns_response(ID, "other.example", AAAA, &packet).is_err());
    assert!(parse_dns_response(ID, HOST, A, &packet).is_err());
    for flags in [0x0180u16, 0x8980, 0x8380, 0x8183, 0x81c0] {
        let mut bad = packet.clone();
        bad[2..4].copy_from_slice(&flags.to_be_bytes());
        assert!(parse(&bad).is_err(), "flags {flags:x}");
    }
    for count in [0u16, 2] {
        let mut bad = packet.clone();
        bad[4..6].copy_from_slice(&count.to_be_bytes());
        assert!(parse(&bad).is_err());
    }
    let mut bad = packet.clone();
    let end = bad.len();
    bad[end - 1] = 3;
    assert!(parse(&bad).is_err());
}

#[test]
fn follows_out_of_order_bounded_answer_cnames_only() {
    let mut packet = response(HOST, AAAA, [5, 0, 0]);
    record(
        &mut packet,
        &wire("b.example"),
        AAAA,
        IN,
        &octets("::1"),
    );
    record(
        &mut packet,
        &wire("a.example"),
        CNAME,
        IN,
        &wire("b.example"),
    );
    record(&mut packet, &wire(HOST), CNAME, IN, &wire("a.example"));
    record(
        &mut packet,
        &wire("unrelated.example"),
        CNAME,
        IN,
        &wire("evil.example"),
    );
    record(&mut packet, &wire("evil.example"), AAAA, IN, &[0xff; 16]);
    assert_eq!(
        parse(&packet).unwrap().addresses,
        vec![address("::1")]
    );
}

#[test]
fn rejects_cname_loops_conflicts_and_excessive_chains() {
    let mut packet = response(HOST, AAAA, [2, 0, 0]);
    record(&mut packet, &wire(HOST), CNAME, IN, &wire("a.example"));
    record(&mut packet, &wire("a.example"), CNAME, IN, &wire(HOST));
    assert!(parse(&packet).is_err());
    let mut conflict = response(HOST, AAAA, [2, 0, 0]);
    record(&mut conflict, &wire(HOST), CNAME, IN, &wire("a.example"));
    record(&mut conflict, &wire(HOST), CNAME, IN, &wire("b.example"));
    assert!(parse(&conflict).is_err());
    let mut data_conflict = response(HOST, AAAA, [2, 0, 0]);
    record(
        &mut data_conflict,
        &wire(HOST),
        CNAME,
        IN,
        &wire("a.example"),
    );
    record(&mut data_conflict, &wire(HOST), AAAA, IN, &[0; 16]);
    assert!(parse(&data_conflict).is_err());
    for hops in [8, 9] {
        let mut chain = response(HOST, AAAA, [hops + 1, 0, 0]);
        let mut owner = HOST.to_string();
        for hop in 0..hops {
            let target = format!("alias{hop}.example");
            record(&mut chain, &wire(&owner), CNAME, IN, &wire(&target));
            owner = target;
        }
        record(
            &mut chain,
            &wire(&owner),
            AAAA,
            IN,
            &octets("::1"),
        );
        assert_eq!(parse(&chain).is_ok(), hops == 8);
    }
}

#[test]
fn ignores_wrong_class_family_and_unrelated_cname_data() {
    let mut packet = response(HOST, AAAA, [3, 0, 0]);
    record(&mut packet, &wire(HOST), AAAA, 3, &[0; 16]);
    record(&mut packet, &wire(HOST), A, IN, &[192, 0, 2, 1]);
    record(&mut packet, &wire("other.example"), CNAME, IN, &wire(HOST));
    assert!(parse(&packet).unwrap().addresses.is_empty());
}

#[test]
fn name_label_boundaries_are_not_flattened_for_comparison() {
    let mut packet = response(HOST, AAAA, [0, 0, 0]);
    let replacement = [
        vec![9],
        b"pcscf.ims".to_vec(),
        vec![7],
        b"example".to_vec(),
        vec![0],
    ]
    .concat();
    packet.splice(12..12 + wire(HOST).len(), replacement);
    assert!(parse(&packet).is_err());
}

#[test]
fn compression_is_bounded_and_rdata_cannot_borrow_the_next_record() {
    let mut valid = response(HOST, AAAA, [2, 0, 0]);
    let target_offset = valid.len();
    record(
        &mut valid,
        &wire("target.example"),
        AAAA,
        IN,
        &octets("::1"),
    );
    let pointer = (0xc000u16 | target_offset as u16).to_be_bytes();
    record(&mut valid, &wire(HOST), CNAME, IN, &pointer);
    assert_eq!(parse(&valid).unwrap().addresses.len(), 1);
    let mut bad = response(HOST, AAAA, [1, 0, 0]);
    record(&mut bad, &wire(HOST), CNAME, IN, &[0xc0]);
    bad.push(12);
    assert!(parse(&bad).is_err());
    let mut self_pointer = response(HOST, AAAA, [1, 0, 0]);
    let offset = self_pointer.len();
    record(
        &mut self_pointer,
        &(0xc000u16 | offset as u16).to_be_bytes(),
        AAAA,
        IN,
        &[0; 16],
    );
    assert!(parse(&self_pointer).is_err());
    let mut out_of_bounds = response(HOST, AAAA, [1, 0, 0]);
    record(&mut out_of_bounds, &[0xff, 0xff], AAAA, IN, &[0; 16]);
    assert!(parse(&out_of_bounds).is_err());
}

#[test]
fn rejects_truncation_invalid_address_lengths_and_oversized_names() {
    let packet = response(HOST, AAAA, [0, 0, 0]);
    for length in 0..packet.len() {
        assert!(parse(&packet[..length]).is_err());
    }
    for (kind, length) in [(A, 3), (AAAA, 15)] {
        let mut bad = response(HOST, AAAA, [1, 0, 0]);
        record(&mut bad, &wire(HOST), kind, IN, &vec![0; length]);
        assert!(parse(&bad).is_err());
    }
    assert!(build_dns_query(ID, &"x".repeat(64), AAAA).is_err());
    assert!(build_dns_query(ID, &format!("{0}.{0}.{0}.{0}", "x".repeat(63)), AAAA).is_err());
    let mut expanded = vec![0; 12];
    for _ in 0..4 {
        expanded.push(63);
        expanded.extend_from_slice(&[b'x'; 63]);
    }
    expanded.push(0);
    assert!(read_name(&expanded, 12).is_err());
    assert!(build_dns_query(ID, "bad..example", AAAA).is_err());
    assert!(build_dns_query(ID, "example..", AAAA).is_err());
    assert!(build_dns_query(ID, HOST, CNAME).is_err());
}

fn srv(port: u16, target: &str, priority: u16) -> Vec<u8> {
    let mut bytes = Vec::new();
    for value in [priority, 0, port] {
        bytes.extend_from_slice(&value.to_be_bytes());
    }
    bytes.extend(wire(target));
    bytes
}

#[test]
fn srv_preserves_service_ports_and_priorities_and_ignores_glue() {
    let name = "_sip._udp.ims.example";
    let mut packet = response(name, SRV, [3, 0, 1]);
    record(
        &mut packet,
        &[0xc0, 12],
        SRV,
        IN,
        &srv(5078, "p1.ims.example", 20),
    );
    record(
        &mut packet,
        &[0xc0, 12],
        SRV,
        IN,
        &srv(5088, "p1.ims.example", 10),
    );
    record(
        &mut packet,
        &[0xc0, 12],
        SRV,
        IN,
        &srv(5078, "p1.ims.example", 20),
    );
    record(
        &mut packet,
        &wire("p1.ims.example"),
        A,
        IN,
        &[192, 0, 2, 10],
    );
    let result = parse_dns_response(ID, name, SRV, &packet).unwrap();
    assert!(result.addresses.is_empty());
    assert_eq!(
        result
            .srv_targets
            .iter()
            .map(|s| s.port)
            .collect::<Vec<_>>(),
        [5088, 5078]
    );
    assert_eq!(
        socket_string(result.srv_targets[1].endpoint(address("192.0.2.10"))),
        "192.0.2.10:5078"
    );
}

#[test]
fn srv_root_zero_port_and_malformed_rdata_do_not_produce_endpoints() {
    let name = "_sip._udp.ims.example";
    let mut packet = response(name, SRV, [2, 0, 0]);
    record(&mut packet, &[0xc0, 12], SRV, IN, &srv(5060, ".", 0));
    record(&mut packet, &[0xc0, 12], SRV, IN, &srv(0, "p1.example", 0));
    assert!(parse_dns_response(ID, name, SRV, &packet)
        .unwrap()
        .srv_targets
        .is_empty());
    for bytes in [
        vec![0; 6],
        [vec![0, 0, 0, 0, 0x13, 0xc4], wire("p1.example"), vec![0]].concat(),
    ] {
        let mut malformed = response(name, SRV, [1, 0, 0]);
        record(&mut malformed, &[0xc0, 12], SRV, IN, &bytes);
        assert!(parse_dns_response(ID, name, SRV, &malformed).is_err());
    }
}

#[test]
fn rejects_nonzero_extended_rcode_and_packet_trailing_bytes() {
    let mut packet = response(HOST, AAAA, [0, 0, 1]);
    let at = packet.len();
    record(&mut packet, &[0], 41, 4096, &[]);
    packet[at + 5] = 1;
    assert!(parse(&packet).is_err());
    let mut trailing = response(HOST, AAAA, [0, 0, 0]);
    trailing.push(0);
    assert!(parse(&trailing).is_err());
}
