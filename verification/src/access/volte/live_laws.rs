//! Who a line is, how it answers a challenge, and what its status shows.

use crate::access::volte::channel::Channel;
use crate::access::volte::ipsec;
use crate::access::volte::ipsec::SecAgree;
use crate::access::volte::live;
use crate::access::volte::live::{
    AkaAnswer, Authenticator, Challenge, Connect, ConnectEvent, ConnectStep, Outcome,
    RegistrationMode, Status, VoltePhase, VolteStage,
};
use crate::address_text;
use crate::cellular_ims::errors::code;
use crate::context::ImsRoute;
use crate::ip_text;
use crate::net::{BoundSocket, SocketAddr};
use crate::register_laws;
use crate::register_response;
use crate::sip_frame;
use crate::text;
use crate::text_laws;
use vstd::prelude::*;
use vstd::utf8::*;

verus! {

proof fn lemma_ends(s: Seq<char>)
    requires
        s.len() > 0 && !text::white(s[0]) && !text::white(s.last()),
    ensures
        text::trim(s) == s,
{
    let none = Seq::<char>::empty();
    text_laws::law_trim_takes_the_ends(none, s, none);
    assert(none + s + none =~= s);
}

// --------------------------------------------------------------------------- identity

/// A line of a report: a key, a colon and a value.
pub open spec fn entry(key: Seq<char>, value: Seq<char>) -> Seq<char> {
    key + seq![' ', ':', ' '] + value
}

pub open spec fn plain_key(s: Seq<char>) -> bool {
    s.len() > 0 && !text::white(s[0]) && !text::white(s.last()) && text_laws::without(s, ':')
}

pub open spec fn plain_value(s: Seq<char>) -> bool {
    s.len() > 0 && !text::white(s[0]) && !text::white(s.last())
}

proof fn lemma_entry(key: Seq<char>, value: Seq<char>)
    requires
        plain_key(key),
        plain_value(value),
    ensures
        ({
            let c = text::cut(entry(key, value), ':');
            &&& c is Some
            &&& text::trim((c->0).0) == key
            &&& text::trim((c->0).1) == value
        }),
{
    let none = Seq::<char>::empty();
    let front = key + seq![' '];
    let back = seq![' '] + value;
    assert(entry(key, value) =~= front.push(':') + back);
    text_laws::law_cut_gives_both_sides(front, back, ':');
    text_laws::law_trim_takes_the_ends(none, key, seq![' ']);
    assert(none + key + seq![' '] =~= front);
    text_laws::law_trim_takes_the_ends(seq![' '], value, none);
    assert(seq![' '] + value + none =~= back);
}

/// A report's value is the one of the first line with its key, whatever the others say.
pub proof fn law_first_entry_counts(
    lines: Seq<Seq<char>>,
    keys: Seq<Seq<char>>,
    values: Seq<Seq<char>>,
    k: int,
    from: int,
)
    requires
        lines.len() == keys.len() && lines.len() == values.len(),
        forall|i: int|
            0 <= i < lines.len() ==> (#[trigger] lines[i]) == entry(keys[i], values[i])
                && plain_key(keys[i]) && plain_value(values[i]),
        0 <= from <= k < lines.len(),
        forall|i: int| from <= i < k ==> (#[trigger] keys[i]) != keys[k],
    ensures
        live::value_from(lines, keys[k], from) == Some(values[k]),
    decreases k - from,
{
    assert(lines[from] == entry(keys[from], values[from]));
    lemma_entry(keys[from], values[from]);
    if from < k {
        assert(keys[from] != keys[k]);
        law_first_entry_counts(lines, keys, values, k, from + 1);
    }
}

pub open spec fn digits(s: Seq<char>) -> bool {
    forall|i: int| 0 <= i < s.len() ==> '0' <= (#[trigger] s[i]) <= '9'
}

proof fn lemma_split_code(a: Seq<char>, b: Seq<char>)
    requires
        digits(a),
        digits(b),
    ensures
        encode_utf8(a + b).len() == a.len() + b.len(),
        decode_utf8(encode_utf8(a + b).subrange(0, a.len() as int)) == a,
        decode_utf8(encode_utf8(a + b).subrange(a.len() as int, (a.len() + b.len()) as int)) == b,
{
    let s = a + b;
    assert(is_ascii_chars(a) && is_ascii_chars(b));
    assert forall|i: int| 0 <= i < s.len() implies '\0' <= #[trigger] s[i] <= '\u{7f}' by {
        if i < a.len() {
            assert(s[i] == a[i]);
        } else {
            assert(s[i] == b[i - a.len()]);
        }
    }
    is_ascii_chars_encode_utf8(s);
    is_ascii_chars_encode_utf8(a);
    is_ascii_chars_encode_utf8(b);
    let e = encode_utf8(s);
    let n = a.len() as int;
    assert(e.subrange(0, n) =~= encode_utf8(a)) by {
        assert forall|i: int| 0 <= i < n implies e[i] == encode_utf8(a)[i] by {
            assert(s[i] == a[i]);
        }
    }
    assert(e.subrange(n, s.len() as int) =~= encode_utf8(b)) by {
        assert forall|i: int| 0 <= i < b.len() implies e[n + i] == encode_utf8(b)[i] by {
            assert(s[n + i] == b[i]);
        }
    }
    encode_utf8_decode_utf8(a);
    encode_utf8_decode_utf8(b);
}

/// An operator code of five or six digits is a country of three and a network of the rest; a
/// code of any other length is none.
pub proof fn law_operator_code_is_country_and_network(
    output: Seq<char>,
    mcc: Seq<char>,
    mnc: Seq<char>,
    sim: Seq<char>,
)
    requires
        digits(mcc) && mcc.len() == 3,
        digits(mnc),
        live::value_of(output, "modem.3gpp.operator-code"@) == Some(mcc + mnc),
        live::value_of(output, "modem.generic.sim"@) == Some(sim),
    ensures
        mnc.len() == 2 || mnc.len() == 3 ==> {
            &&& live::modem_of(output) matches Some(m) && m.mcc == mcc && m.mnc == mnc && m.sim_path
                == sim
        },
        mnc.len() != 2 && mnc.len() != 3 ==> live::modem_of(output) is None,
{
    lemma_split_code(mcc, mnc);
}

/// A subscriber's number is taken where it holds digits alone.
pub proof fn law_subscriber_number_has_digits_alone(output: Seq<char>, v: Seq<char>, k: int)
    ensures
        live::value_of(output, "sim.properties.imsi"@) == Some(v) && digits(v) ==> live::imsi_of(
            output,
        ) == Some(v),
        live::value_of(output, "sim.properties.imsi"@) == Some(v) && 0 <= k < v.len() && !('0'
            <= v[k] <= '9') ==> live::imsi_of(output) is None,
        live::value_of(output, "sim.properties.imsi"@) is None ==> live::imsi_of(output) is None,
{
    if 0 <= k < v.len() && !('0' <= v[k] <= '9') {
        assert(!text::digit(v[k]));
    }
    if digits(v) {
        assert(text::all_digits(v));
    }
}

// --------------------------------------------------------------------------- challenges

/// A quoted parameter of a challenge.
pub open spec fn quoted(name: Seq<char>, value: Seq<char>) -> Seq<char> {
    name.push('=') + seq!['"'] + value + seq!['"']
}

pub open spec fn plain_content(s: Seq<char>) -> bool {
    s.len() > 0 && forall|i: int|
        0 <= i < s.len() ==> (#[trigger] s[i]) != '"' && s[i] != '\\'
}

proof fn lemma_quoted(name: Seq<char>, value: Seq<char>, wanted: Seq<char>, blank: bool)
    requires
        plain_key(name) && text_laws::without(name, '='),
        plain_content(value),
    ensures
        ({
            let part = if blank {
                seq![' '] + quoted(name, value)
            } else {
                quoted(name, value)
            };
            sip_frame::named_value(part, wanted) == (if text::alike(name, wanted) {
                Some(value)
            } else {
                None
            })
        }),
{
    let q = quoted(name, value);
    let none = Seq::<char>::empty();
    assert(q[0] == name[0] && q.last() == '"');
    lemma_ends(q);
    text_laws::law_trim_takes_the_ends(seq![' '], q, none);
    assert(seq![' '] + q + none =~= seq![' '] + q);
    let v = seq!['"'] + value + seq!['"'];
    assert(q =~= name.push('=') + v);
    text_laws::law_cut_gives_both_sides(name, v, '=');
    lemma_ends(name);
    assert(v[0] == '"' && v.last() == '"');
    lemma_ends(v);
    let n = v.len() as int;
    assert(v[1] == value[0] && v[n - 2] == value.last() && v[n - 1] == '"');
    assert(text::trim_char(v, '"') == value) by {
        assert(text::skip_char(v, '"', 1) == 1);
        assert(text::skip_char(v, '"', 0) == 1);
        assert(text::back_char(v, '"', 1, n - 1) == n - 1);
        assert(text::back_char(v, '"', 1, n) == n - 1);
        assert(v.subrange(1, n - 1) =~= value);
    }
}

/// A digest challenge is read from its header: the realm and the nonce in quotes, and the usual
/// algorithm where it names none. Commas inside the quotes part nothing.
#[verifier::rlimit(50)]
pub proof fn law_challenge_is_read(realm: Seq<char>, nonce: Seq<char>, proxy: bool)
    requires
        plain_content(realm),
        plain_content(nonce),
    ensures
        live::challenge_in(
            "Digest"@.push(' ') + (quoted("realm"@, realm).push(',') + (seq![' '] + quoted(
                "nonce"@,
                nonce,
            ))),
            proxy,
        ) == Ok::<_, Seq<char>>(
            Challenge { realm, nonce, algorithm: "AKAv1-MD5"@, qop: None, proxy },
        ),
{
    reveal_strlit("Digest");
    reveal_strlit("realm");
    reveal_strlit("nonce");
    reveal_strlit("algorithm");
    reveal_strlit("qop");
    let one = quoted("realm"@, realm);
    let two = seq![' '] + quoted("nonce"@, nonce);
    let rest = one.push(',') + two;
    let value = "Digest"@.push(' ') + rest;
    assert(value[0] == 'D' && value.last() == '"');
    lemma_ends(value);
    text_laws::law_cut_gives_both_sides("Digest"@, rest, ' ');
    let none = Seq::<char>::empty();
    assert(one =~= "realm"@.push('=') + seq!['"'] + realm + seq!['"']);
    assert(two =~= (seq![' '] + "nonce"@.push('=')) + seq!['"'] + nonce + seq!['"']);
    register_laws::law_separators_count_outside_quotes("realm"@.push('='), realm, two, ',');
    register_laws::law_separators_count_outside_quotes(
        seq![' '] + "nonce"@.push('='),
        nonce,
        none,
        ',',
    );
    let parts = register_response::free_split(rest, ',');
    assert(parts =~= seq![one, two]);
    lemma_quoted("realm"@, realm, "realm"@, false);
    lemma_quoted("realm"@, realm, "nonce"@, false);
    lemma_quoted("realm"@, realm, "algorithm"@, false);
    lemma_quoted("realm"@, realm, "qop"@, false);
    lemma_quoted("nonce"@, nonce, "nonce"@, true);
    lemma_quoted("nonce"@, nonce, "algorithm"@, true);
    lemma_quoted("nonce"@, nonce, "qop"@, true);
    text_laws::law_alike_ignores_case_alone("realm"@, "nonce"@);
    text_laws::law_alike_ignores_case_alone("realm"@, "algorithm"@);
    text_laws::law_alike_ignores_case_alone("realm"@, "qop"@);
    text_laws::law_alike_ignores_case_alone("nonce"@, "algorithm"@);
    text_laws::law_alike_ignores_case_alone("nonce"@, "qop"@);
    assert("realm"@[0] == 'r' && "nonce"@[0] == 'n' && !text_laws::same_letter('r', 'n'));
    assert(live::part_from(parts, "realm"@, 0) == Some(realm));
    assert(live::part_from(parts, "nonce"@, 1) == Some(nonce));
    assert(live::part_from(parts, "nonce"@, 0) == Some(nonce));
    assert(live::part_from(parts, "algorithm"@, 2) is None);
    assert(live::part_from(parts, "algorithm"@, 1) is None);
    assert(live::part_from(parts, "algorithm"@, 0) is None);
    assert(live::part_from(parts, "qop"@, 2) is None);
    assert(live::part_from(parts, "qop"@, 1) is None);
    assert(live::part_from(parts, "qop"@, 0) is None);
}

/// The registrar's own challenge comes before a proxy's, and without either there is none.
pub proof fn law_registrar_challenges_first(frame: Seq<u8>)
    ensures
        ({
            let own = sip_frame::header_of(frame, "WWW-Authenticate"@);
            let proxy = sip_frame::header_of(frame, "Proxy-Authenticate"@);
            let r = live::challenge_of(frame);
            &&& own is None && proxy is None ==> r == Err::<Challenge, _>(
                code::DIGEST_CHALLENGE_MISSING@,
            )
            &&& own is Some && r is Ok ==> !r->Ok_0.proxy
            &&& own is None && r is Ok ==> r->Ok_0.proxy
            &&& own is Some ==> r == live::challenge_in(own->0, false)
            &&& own is None && proxy is Some ==> r == live::challenge_in(proxy->0, true)
        }),
{
}

// --------------------------------------------------------------------------- protection

/// An offer never has the number zero for an association, and always the same two ports.
pub proof fn law_offer_is_usable(spi_c: u32, spi_s: u32)
    ensures
        ({
            let o = live::offer(spi_c, spi_s);
            &&& o.spi_c != 0 && o.spi_s != 0
            &&& spi_c != 0 ==> o.spi_c == spi_c
            &&& spi_s != 0 ==> o.spi_s == spi_s
            &&& o.port_c == 5062 && o.port_s == 5064
        }),
{
}

/// The first protection that the network offers and the line knows is the one that is taken.
pub proof fn law_first_known_protection_is_taken(
    values: Seq<Seq<char>>,
    k: int,
    from: int,
)
    requires
        0 <= from <= values.len(),
    ensures
        from <= k < values.len() && ipsec::agree_of(values[k]) is Some && (forall|i: int|
            from <= i < k ==> ipsec::agree_of(#[trigger] values[i]) is None) ==> live::selected_from(
            values,
            from,
        ) == Some((ipsec::agree_of(values[k])->0, values[k])),
        (forall|i: int| from <= i < values.len() ==> ipsec::agree_of(#[trigger] values[i]) is None)
            ==> live::selected_from(values, from) is None,
    decreases values.len() - from,
{
    if from < values.len() {
        let first = values[from];
        if ipsec::agree_of(first) is None {
            law_first_known_protection_is_taken(values, k, from + 1);
        }
    }
}

/// A protected route joins the same two hosts over the ports that were agreed on, in datagrams.
pub proof fn law_protected_route_uses_the_agreed_ports(route: ImsRoute, a: SecAgree)
    ensures
        ({
            let p = live::protected(route, a);
            &&& p.local_addr.ip == route.local_addr.ip && p.pcscf_addr.ip == route.pcscf_addr.ip
            &&& p.local_addr.port == a.port_c
            &&& p.pcscf_addr.port == a.port_s
            &&& p.transport is Udp
        }),
{
}

/// A card that wants to be synchronised is answered with the offer and no selection, over the
/// channel as it is. A proof goes out unprotected where the network selects no protection; where
/// it does, over the agreed ports, with the selection repeated word for word.
pub proof fn law_challenge_is_answered(
    a: Authenticator,
    channel: Channel,
    frame: Seq<u8>,
    authorization: String,
    number: u64,
    socket: BoundSocket,
)
    requires
        (channel.route.local_addr.ip is V4) == (channel.route.pcscf_addr.ip is V4),
    ensures
        ({
            let (after, c, failure) = live::prepared(
                a,
                channel,
                frame,
                AkaAnswer::Resync { authorization },
                Ok(number),
                Some(socket),
            );
            &&& failure is None && c == channel && after.plan == a.plan && after.mode == a.mode
            &&& after.pending is Some && after.pending->0.authorization == authorization@
            &&& after.pending->0.security_client == Some(a.offered)
            &&& after.pending->0.security_verify is None && after.pending->0.require_sec_agree
        }),
        live::selected_in(frame) is None ==> {
            let (after, c, failure) = live::prepared(
                a,
                channel,
                frame,
                AkaAnswer::Proof { authorization },
                Ok(number),
                Some(socket),
            );
            &&& failure is None && c == channel && after.mode == RegistrationMode::Udp
            &&& after.pending is Some && after.pending->0.authorization == authorization@
            &&& after.pending->0.security_client is None && after.pending->0.security_verify is None
                && !after.pending->0.require_sec_agree
        },
        live::selected_in(frame) matches Some((agreed, verify)) ==> {
            let (after, c, failure) = live::prepared(
                a,
                channel,
                frame,
                AkaAnswer::Proof { authorization },
                Ok(number),
                Some(socket),
            );
            &&& failure is None
            &&& c.socket == socket && c.verify == Some(verify)
            &&& c.route.local_addr.port == agreed.port_c && c.route.pcscf_addr.port == agreed.port_s
            &&& c.route.local_addr.ip == channel.route.local_addr.ip && c.route.pcscf_addr.ip
                == channel.route.pcscf_addr.ip
            &&& after.mode == RegistrationMode::Ipsec && after.plan == Some(number)
            &&& after.pending is Some && after.pending->0.security_client == Some(a.offered)
                && after.pending->0.security_verify == Some(verify)
                && after.pending->0.require_sec_agree
        },
{
}

/// An octet of a device's name is written in two digits, the higher one in front.
pub proof fn law_name_is_written_octet_by_octet(bytes: Seq<u8>, from: int, n: int)
    requires
        0 <= from && 0 < n && from + n <= bytes.len(),
    ensures
        ({
            let s = live::hex_upto(bytes, from, n);
            let b = bytes[from + n - 1];
            &&& s.len() == live::hex_upto(bytes, from, n - 1).len() + 2
            &&& ip_text::hex_digit(s[s.len() - 2]) == Some((b / 16) as nat)
            &&& ip_text::hex_digit(s[s.len() - 1]) == Some((b % 16) as nat)
            &&& forall|i: int|
                0 <= i < s.len() - 2 ==> (#[trigger] s[i]) == live::hex_upto(bytes, from, n - 1)[i]
        }),
{
    let b = bytes[from + n - 1];
    lemma_hex_char((b / 16) as nat);
    lemma_hex_char((b % 16) as nat);
}

proof fn lemma_hex_char(d: nat)
    requires
        d < 16,
    ensures
        ip_text::hex_digit(ip_text::hex_char(d)) == Some(d),
{
    let c = ip_text::hex_char(d);
    assert(c as u32 == (if d < 10 {
        d + 48
    } else {
        d + 87
    }));
}

// --------------------------------------------------------------------------- connections

/// A connection that was called off is given up once the identity is there or the network is,
/// and one that was not goes on.
pub proof fn law_connection_that_was_called_off_is_given_up(
    c: Connect,
    generation: u64,
    now: Seq<char>,
)
    ensures
        ({
            let (after, o) = live::connect_step(c, ConnectEvent::IdentityLoaded, generation, now);
            &&& generation == c.generation ==> o is Continue && after.step == ConnectStep::Bearer
            &&& generation != c.generation ==> (o matches Outcome::Failed { code, detail, .. }
                && code == code::RUNTIME_NOT_RUNNING@ && detail is None)
        }),
        ({
            let (after, o) = live::connect_step(
                c,
                ConnectEvent::NetworkConfigured,
                generation,
                now,
            );
            &&& generation == c.generation ==> o is Continue && after.step == ConnectStep::Pcscf
            &&& generation != c.generation ==> (o matches Outcome::Failed { code, detail, .. }
                && code == code::RUNTIME_NOT_RUNNING@ && detail is None)
        }),
{
}

/// A registered line shows when it was registered, with which protection, and at which proxy.
pub proof fn law_registered_line_shows_its_proxy(c: Connect, generation: u64, now: Seq<char>)
    ensures
        ({
            let (after, o) = live::connect_step(c, ConnectEvent::Kept, generation, now);
            &&& o is Registered
            &&& after.status.phase == VoltePhase::Registered
            &&& after.status.stage == VolteStage::Registered
            &&& after.status.registered_at == Some(now)
            &&& after.status.mode == (if c.ipsec {
                RegistrationMode::Ipsec
            } else {
                RegistrationMode::Udp
            })
            &&& c.pcscf matches Some(ip) ==> after.status.pcscf is Some && ip_text::socket_text(
                after.status.pcscf->0,
            ) == Some(SocketAddr { ip, port: 5060 })
            &&& after.bearer == c.bearer
        }),
{
    if c.pcscf is Some {
        address_text::law_host_and_port_are_read_back(
            SocketAddr { ip: c.pcscf->0, port: 5060 },
        );
    }
}

/// An error is shown as its code, with what is known of it behind a colon.
pub proof fn law_error_is_shown_with_its_detail(code: Seq<char>, detail: Seq<char>)
    ensures
        live::rendered(code, None) == code,
        live::rendered(code, Some(detail)) == code.push(':') + detail,
{
    assert(code + seq![':'] + detail =~= code.push(':') + detail);
}

/// A connection begins without an error, without a bearer and without a proxy, at its start.
pub proof fn law_connection_begins_anew(s: Status, generation: u64, now: Seq<char>)
    ensures
        ({
            let c = live::begun(s, generation, now);
            &&& c.status.phase == VoltePhase::Starting && c.status.stage == VolteStage::Starting
            &&& c.status.session_started_at == Some(now) && c.status.last_error is None
            &&& c.generation == generation && c.step == ConnectStep::Starting
            &&& c.bearer is None && c.pcscf is None && !c.ipsec
        }),
{
}

} // verus!
