//! What an exchange with the registrar makes of a flow.

use crate::address_text;
use crate::ip_text;
use crate::net::{IpAddr, SocketAddr};
use crate::outbound;
use crate::outbound::{FlowState, LineNotice, MAX_RETRANSMITS, PONG_TIMEOUT, SECOND, STUN_RTO, STUN_TIMEOUT};
use crate::register_response;
use crate::register_response::RegisterArtifacts;
use crate::sip_frame;
use crate::sip_laws;
use crate::stun;
use crate::stun::StunResponse;
use crate::text;
use crate::text_laws;
use vstd::prelude::*;

verus! {

// --------------------------------------------------------------------------- the path

/// A Via of a request, with this sender.
pub open spec fn sent_via(a: SocketAddr, more: Seq<char>) -> Seq<char> {
    seq!['S', 'I', 'P', '/', '2', '.', '0', '/', 'U', 'D', 'P'].push(' ') + (
    ip_text::sip_host_form(a.ip).push(':') + text::decimal(a.port as nat)).push(';') + more
}

/// A Via of a response, which tells where the request came from.
pub open spec fn received_via(front: Seq<char>, ip: IpAddr, port: u16) -> Seq<char> {
    front.push(';') + (("received"@.push('=') + ip_text::ip_form(ip)).push(';') + (
    "rport"@.push('=') + text::decimal(port as nat)))
}

proof fn lemma_ends(s: Seq<char>)
    requires
        s.len() > 0 && !text::white(s[0]) && !text::white(s.last()),
    ensures
        text::trim(s) == s,
{
    let none = Seq::<char>::empty();
    text_laws::law_trim_takes_the_ends(none, s, none);
    assert(none + s + none =~= s);
}

proof fn lemma_sent(a: SocketAddr, more: Seq<char>)
    ensures
        outbound::sent_by(sent_via(a, more)) == Some(a),
{
    let proto = seq!['S', 'I', 'P', '/', '2', '.', '0', '/', 'U', 'D', 'P'];
    let hp = ip_text::sip_host_form(a.ip).push(':') + text::decimal(a.port as nat);
    let front = proto.push(' ') + hp;
    let via = sent_via(a, more);
    let none = Seq::<char>::empty();
    sip_laws::lemma_host_chars(a, ';');
    sip_laws::lemma_host_chars(a, ' ');
    assert(text_laws::without(proto.push(' '), ';'));
    address_text::lemma_sum_without(proto.push(' '), hp, ';');
    assert(via =~= front.push(';') + more);
    text_laws::law_cut_gives_both_sides(front, more, ';');
    sip_laws::lemma_host_is_a_word(a);
    text_laws::law_words_are_parted_by_white_space(none, proto, ' ', hp);
    text_laws::law_words_are_parted_by_white_space(none, hp, ' ', none);
    assert(none + proto.push(' ') + hp =~= front);
    assert(none + hp =~= hp);
    assert(text::words(front) =~= seq![proto, hp]);
    address_text::law_host_and_port_are_read_back(a);
}

#[verifier::rlimit(50)]
proof fn lemma_received(front: Seq<char>, ip: IpAddr, port: u16)
    requires
        text_laws::without(front, ';'),
    ensures
        ({
            let via = received_via(front, ip, port);
            &&& outbound::via_parameter(via, "received"@) == Some(ip_text::ip_form(ip))
            &&& outbound::via_parameter(via, "rport"@) == Some(text::decimal(port as nat))
        }),
{
    let via = received_via(front, ip, port);
    let host = ip_text::ip_form(ip);
    let digits = text::decimal(port as nat);
    reveal_strlit("received");
    reveal_strlit("rport");
    let one = "received"@.push('=') + host;
    let two = "rport"@.push('=') + digits;
    address_text::lemma_address_chars(ip);
    address_text::lemma_address_without(ip, ';');
    address_text::lemma_digits_without(port as nat, ';');
    text::law_decimal_round_trip(port as nat);
    assert(text::digit(digits.last()) && text::digit(digits[0]));
    assert(text_laws::without(one, ';')) by {
        address_text::lemma_sum_without("received"@.push('='), host, ';');
    }
    assert(text_laws::without(two, ';')) by {
        address_text::lemma_sum_without("rport"@.push('='), digits, ';');
    }
    text_laws::law_split_undoes_join(front, one.push(';') + two, ';');
    text_laws::law_split_undoes_join(one, two, ';');
    text_laws::law_split_undoes_join(two, two, ';');
    let pieces = text::split(via, ';');
    assert(pieces =~= seq![front, one, two]);
    assert(one[0] == 'r' && one.last() == host.last());
    assert(two[0] == 'r' && two.last() == digits.last());
    lemma_ends(one);
    lemma_ends(two);
    lemma_ends("received"@);
    lemma_ends("rport"@);
    lemma_ends(host);
    lemma_ends(digits);
    text_laws::law_cut_gives_both_sides("received"@, host, '=');
    text_laws::law_cut_gives_both_sides("rport"@, digits, '=');
    text_laws::law_alike_ignores_case_alone("received"@, "rport"@);
    text_laws::law_alike_ignores_case_alone("rport"@, "received"@);
    reveal_with_fuel(outbound::via_values_upto, 4);
    assert(outbound::via_values_upto(pieces, "received"@, 3) =~= seq![host]);
    assert(outbound::via_values_upto(pieces, "rport"@, 3) =~= seq![digits]);
}

proof fn lemma_unbracketed(ip: IpAddr)
    ensures
        outbound::unbracketed(ip_text::ip_form(ip)) == ip_text::ip_form(ip),
{
    let s = ip_text::ip_form(ip);
    address_text::lemma_address_chars(ip);
    address_text::lemma_address_without(ip, '[');
    address_text::lemma_address_without(ip, ']');
    assert(s[0] != '[' && s[0] != ']' && s[s.len() - 1] != '[' && s[s.len() - 1] != ']');
    assert(outbound::skip_brackets(s, 0) == 0);
    assert(outbound::back_brackets(s, 0, s.len() as int) == s.len());
    assert(s.subrange(0, s.len() as int) =~= s);
}

/// There is no translation on the path just where the registrar saw the request come from the
/// very address and port that it names as its sender.
pub proof fn law_path_is_direct_where_the_addresses_agree(
    request: Seq<u8>,
    response: Seq<u8>,
    a: SocketAddr,
    more: Seq<char>,
    front: Seq<char>,
    ip: IpAddr,
    port: u16,
)
    requires
        outbound::via_of(request) == Some(sent_via(a, more)),
        outbound::via_of(response) == Some(received_via(front, ip, port)),
        text_laws::without(front, ';'),
    ensures
        outbound::confirms_no_nat(request, response) <==> ip == a.ip && port == a.port,
{
    lemma_sent(a, more);
    lemma_received(front, ip, port);
    lemma_unbracketed(ip);
    address_text::law_address_is_read_back(ip);
    text_laws::law_numbers_are_read_as_written(port as nat, u16::MAX as nat, seq![], 0);
}

/// A response that does not tell where the request came from shows nothing of the path.
pub proof fn law_silent_response_shows_no_path(request: Seq<u8>, response: Seq<u8>)
    ensures
        outbound::via_of(response) is None ==> !outbound::confirms_no_nat(request, response),
        outbound::via_of(request) is None ==> !outbound::confirms_no_nat(request, response),
        outbound::via_of(response) is Some && outbound::via_parameter(
            outbound::via_of(response)->0,
            "received"@,
        ) is None ==> !outbound::confirms_no_nat(request, response),
        outbound::via_of(response) is Some && outbound::via_parameter(
            outbound::via_of(response)->0,
            "rport"@,
        ) is None ==> !outbound::confirms_no_nat(request, response),
{
}

/// Outbound is refused by its own status, or by the one for a bad extension that names it.
pub proof fn law_refusal_names_outbound(frame: Seq<u8>)
    ensures
        sip_frame::status_of(frame) == Some(439nat) ==> outbound::refuses_outbound(frame),
        sip_frame::status_of(frame) == Some(420nat) ==> (outbound::refuses_outbound(frame)
            <==> register_response::option_listed(frame, "Unsupported"@, "outbound"@)),
        sip_frame::status_of(frame) != Some(439nat) && sip_frame::status_of(frame) != Some(420nat)
            ==> !outbound::refuses_outbound(frame),
{
}

// --------------------------------------------------------------------------- leases

/// A lease lives as long as the registrar granted it, from now on; it is negotiated just where
/// the request offered outbound, and the response requires it, lists the flow's own binding and
/// came over a first hop that supports it.
pub proof fn law_lease_lasts_as_granted(
    f: FlowState,
    response: Seq<u8>,
    tcp: bool,
    default_expires: u32,
    now: u64,
)
    requires
        f.offer is Some,
        f.last_request is Some,
        now <= 0x3fff_ffff_ffff_ffff,
    ensures
        ({
            let request = f.last_request->0;
            let (after, r) = outbound::registered_outcome(f, response, tcp, default_expires, now);
            r is Ok && after.lease is Some ==> {
                let a = r->Ok_0;
                let granted = match a.expires_seconds {
                    Some(n) => n,
                    None => default_expires,
                };
                let lease = after.lease->0;
                &&& granted > 0
                &&& lease.expires == now + granted * 1_000_000_000
                &&& lease.negotiated <==> register_response::option_listed(
                    request,
                    "Supported"@,
                    "outbound"@,
                ) && a.outbound_required && a.first_hop_outbound && a.own_binding_found
                &&& !lease.failed
                &&& after.tcp == tcp && after.timer == a.flow_timer_seconds
            }
        }),
        ({
            let (after, r) = outbound::registered_outcome(f, response, tcp, default_expires, now);
            r is Ok && r->Ok_0.expires_seconds == Some(0u32) ==> after.lease is None
                && after.pending is None && after.next_probe is None
        }),
        ({
            let (after, r) = outbound::registered_outcome(f, response, tcp, default_expires, now);
            sip_frame::status_of(response) != Some(200nat) || !register_response::answers(
                f.last_request->0,
                response,
            ) ==> r is Err && after == f
        }),
{
    let granted = match outbound::flow_artifacts(f, response).expires_seconds {
        Some(n) => n,
        None => default_expires,
    };
    assert(now + granted * SECOND <= u64::MAX) by {
        assert(granted * SECOND <= 0xffff_ffff * 1_000_000_000);
    }
}

/// A flow is probed at once when it is new, unless nothing on its path needs to be kept open: a
/// direct path of datagrams without a timer is healthy as long as its lease.
pub proof fn law_new_flow_is_probed_at_once(
    f: FlowState,
    a: RegisterArtifacts,
    negotiated: bool,
    expires: u32,
    tcp: bool,
    now: u64,
)
    requires
        f.offer is Some,
        f.pending is None,
        f.next_probe is None,
        now <= 0x3fff_ffff_ffff_ffff,
    ensures
        ({
            let after = outbound::leased(f, a, negotiated, expires, tcp, now);
            let open = !tcp && f.no_nat && a.flow_timer_seconds is None;
            &&& negotiated && !open ==> after.next_probe == Some(now)
            &&& negotiated && open ==> after.next_probe is None && after.lease->0.healthy
                && after.lease->0.healthy_until == after.lease->0.expires
            &&& !negotiated ==> after.next_probe is None
            &&& after.pending is None
            &&& after.notices.len() > f.notices.len() && after.notices[f.notices.len() as int]
                == LineNotice::FlowAttached(f.offer->0.access)
        }),
{
}

/// A lease proves a flow just where it was negotiated, was found healthy not too long ago, and
/// neither failed nor expired.
pub proof fn law_lease_proves_a_working_flow(l: outbound::LeaseValue, now: u64, until: u64)
    ensures
        l.proves(now) ==> l.negotiated && l.healthy && !l.failed && now < l.expires && now
            < l.healthy_until,
        l.negotiated && !l.failed && now < l.expires && now < until ==> l.acknowledged(until).proves(
            now,
        ),
        !l.invalidated().proves(now),
        !l.invalidated().lives(now),
        !l.failed ==> (l.lives(now) <==> now < l.expires),
{
}

// --------------------------------------------------------------------------- probes

/// A probe over a stream is a double line end with ten seconds for its answer; one over
/// datagrams is a request of its transaction, repeated after half a second and given up after
/// eight.
pub proof fn law_probe_is_timed(id: Seq<u8>, now: u64)
    requires
        now <= 0x3fff_ffff_ffff_ffff,
    ensures
        ({
            let p = outbound::new_probe(true, id, now);
            &&& p.packet == seq![13u8, 10, 13, 10]
            &&& p.deadline == now + 10_000_000_000
            &&& p.timeout_at == now + 10_000_000_000
        }),
        ({
            let p = outbound::new_probe(false, id, now);
            &&& p.packet == stun::request_bytes(id)
            &&& p.id == id
            &&& p.retransmits == 0
            &&& p.deadline == now + 500_000_000
            &&& p.timeout_at == now + 8_000_000_000
        }),
        PONG_TIMEOUT == 10 * SECOND,
        2 * STUN_RTO == SECOND,
        STUN_TIMEOUT == 16 * STUN_RTO,
        MAX_RETRANSMITS == 7,
{
}

/// The answer to a flow's own probe keeps it healthy and fixes its mapping; another mapping, or
/// an error, fails the flow; what is no answer to it changes nothing.
pub proof fn law_answer_keeps_the_flow_healthy(
    f: FlowState,
    packet: Seq<u8>,
    now: u64,
    interval: u64,
)
    requires
        outbound::is_stun(packet),
        f.pending is Some,
        !f.tcp,
        f.lease is Some,
        f.offer is Some,
    ensures
        ({
            let (after, r) = outbound::stun_received(f, packet, now, interval);
            match stun::response_of(packet, f.pending->0.id) {
                StunResponse::Ignore => after == f && r == Ok::<_, Seq<char>>(true),
                StunResponse::Error => r is Err && after.lease->0.failed && !after.lease->0.healthy,
                StunResponse::Mapped(a) => if f.mapped is Some && f.mapped->0 != a {
                    r is Err && after.lease->0.failed
                } else {
                    &&& r == Ok::<_, Seq<char>>(true)
                    &&& after.mapped == Some(a)
                    &&& after.pending is None
                    &&& after.lease->0.healthy
                    &&& after.lease->0.failed == f.lease->0.failed
                    &&& after.next_probe is Some
                    &&& after.notices.last() == LineNotice::FlowHealthy(f.offer->0.access)
                },
            }
        }),
        outbound::stun_received(FlowState { pending: None, ..f }, packet, now, interval).0
            == (FlowState { pending: None, ..f }),
{
}

/// Binary traffic is told from text by its first octet, and line ends are not taken for it.
pub proof fn law_binary_traffic_is_told_apart(packet: Seq<u8>)
    ensures
        packet.len() == 0 ==> !outbound::is_stun(packet),
        packet.len() > 0 && packet[0] >= 64 ==> !outbound::is_stun(packet),
        packet.len() > 0 && packet[0] < 64 && packet[0] != 13 && packet[0] != 10
            ==> outbound::is_stun(packet),
        packet == seq![13u8, 10] || packet == seq![13u8, 10, 13, 10] ==> !outbound::is_stun(packet),
{
}

} // verus!
