//! What is written into a SIP message is read back from it.

use crate::address_text;
use crate::context::ImsRoute;
use crate::ip_text;
use crate::net::SocketAddr;
use crate::sip_frame;
use crate::sip_message;
use crate::sip_message::{Header, Request};
use crate::supplementary;
use crate::supplementary::Ids;
use crate::text;
use crate::text_laws;
use crate::utf8;
use vstd::prelude::*;
use vstd::utf8::*;

verus! {

// --------------------------------------------------------------------------- headers

/// A start line and headers, each on a line of its own.
pub open spec fn section(start: Seq<char>, headers: Seq<Header>) -> Seq<char> {
    start + sip_message::crlf() + sip_message::header_lines_upto(headers, headers.len() as int)
}

/// A header that takes one line.
pub open spec fn one_line(h: Header) -> bool {
    &&& text_laws::without(h.name, ':')
    &&& text_laws::without(h.name, '\n')
    &&& text_laws::without(h.value, '\n')
    &&& text::trim(h.name) == h.name
}

pub open spec fn lines_well(headers: Seq<Header>) -> bool {
    forall|i: int| 0 <= i < headers.len() ==> one_line(#[trigger] headers[i])
}

/// The values that headers give for a name, in their order.
pub open spec fn named(headers: Seq<Header>, name: Seq<char>) -> Seq<Seq<char>>
    decreases headers.len(),
{
    if headers.len() == 0 {
        Seq::empty()
    } else {
        let found = named(headers.drop_last(), name);
        if text::alike(headers.last().name, name) {
            found.push(text::trim(headers.last().value))
        } else {
            found
        }
    }
}

proof fn lemma_back_shift(a: Seq<char>, b: Seq<char>, lo: int, hi: int)
    requires
        0 <= lo <= hi <= b.len(),
    ensures
        text::back_white(a + b, a.len() + lo, a.len() + hi) == a.len() + text::back_white(b, lo, hi),
    decreases hi - lo,
{
    if lo < hi {
        assert((a + b)[a.len() + hi - 1] == b[hi - 1]);
        lemma_back_shift(a, b, lo, hi - 1);
    }
}

proof fn lemma_skip_shift(a: Seq<char>, b: Seq<char>, i: int)
    requires
        0 <= i <= b.len(),
    ensures
        text::skip_white(a + b, a.len() + i) == a.len() + text::skip_white(b, i),
    decreases b.len() - i,
{
    if i < b.len() {
        assert((a + b)[a.len() + i] == b[i]);
        lemma_skip_shift(a, b, i + 1);
    }
}

proof fn lemma_trim_blank(s: Seq<char>)
    ensures
        text::trim(seq![' '] + s) == text::trim(s),
{
    let a = seq![' '];
    let t = a + s;
    lemma_skip_shift(a, s, 0);
    text::lemma_skip_white(s, 0);
    let lo = text::skip_white(s, 0);
    assert(text::skip_white(t, 0) == text::skip_white(t, 1)) by {
        assert(t[0] == ' ');
    }
    assert(text::skip_white(t, 0) == 1 + lo);
    lemma_back_shift(a, s, lo, s.len() as int);
    text::lemma_back_white(s, lo, s.len() as int);
    let hi = text::back_white(s, lo, s.len() as int);
    assert(t.subrange(1 + lo, 1 + hi) =~= s.subrange(lo, hi));
}

/// A header line is read as its value under its name, in any case, and under no other.
pub proof fn law_header_line_is_read(h: Header, name: Seq<char>)
    requires
        one_line(h),
    ensures
        sip_frame::line_value(h.name + seq![':', ' '] + h.value, name) == (if text::alike(
            h.name,
            name,
        ) {
            Some(text::trim(h.value))
        } else {
            None
        }),
{
    let line = h.name + seq![':', ' '] + h.value;
    let rest = seq![' '] + h.value;
    text_laws::law_cut_gives_both_sides(h.name, rest, ':');
    assert(line =~= h.name.push(':') + rest);
    lemma_trim_blank(h.value);
}

proof fn lemma_values_join(a: Seq<Seq<char>>, b: Seq<Seq<char>>, name: Seq<char>, n: int)
    requires
        a.len() >= 1,
        n <= a.len(),
    ensures
        sip_frame::values_upto(a + b, name, n) == sip_frame::values_upto(a, name, n),
    decreases n,
{
    if n > 1 {
        lemma_values_join(a, b, name, n - 1);
        assert((a + b)[n - 1] == a[n - 1]);
    }
}

pub open spec fn ends_line(s: Seq<char>) -> bool {
    s.len() > 0 && s.last() == '\n' && text::lines(s).len() >= 1
}

/// A further header line adds its value to those of its name, and changes nothing else.
pub proof fn law_header_line_is_added(head: Seq<char>, h: Header, name: Seq<char>)
    requires
        ends_line(head),
        one_line(h),
    ensures
        sip_frame::values_in(head + sip_message::header_line(h.name, h.value), name) == (
        if text::alike(h.name, name) {
            sip_frame::values_in(head, name).push(text::trim(h.value))
        } else {
            sip_frame::values_in(head, name)
        }),
        ends_line(head + sip_message::header_line(h.name, h.value)),
{
    let line = h.name + seq![':', ' '] + h.value;
    let more = sip_message::header_line(h.name, h.value);
    assert(more =~= line.push('\r').push('\n'));
    assert(text_laws::without(line, '\n')) by {
        address_text::lemma_sum_without(h.name, seq![':', ' '], '\n');
        address_text::lemma_sum_without(h.name + seq![':', ' '], h.value, '\n');
    }
    text::lemma_one_line(line);
    text::lemma_lines_join(head, more, 0);
    let a = text::lines(head);
    let b = seq![line];
    assert(text::lines(head + more) == a + b);
    lemma_values_join(a, b, name, a.len() as int);
    law_header_line_is_read(h, name);
    assert((a + b)[a.len() as int] == line);
    assert((head + more).last() == '\n');
}

proof fn lemma_start_line(start: Seq<char>, name: Seq<char>)
    requires
        text_laws::without(start, '\n'),
    ensures
        text::lines(start + sip_message::crlf()) == seq![start],
        ends_line(start + sip_message::crlf()),
        sip_frame::values_in(start + sip_message::crlf(), name) == Seq::<Seq<char>>::empty(),
{
    assert(start + sip_message::crlf() =~= start.push('\r').push('\n'));
    text::lemma_one_line(start);
}

proof fn lemma_section(start: Seq<char>, headers: Seq<Header>, name: Seq<char>, n: int)
    requires
        text_laws::without(start, '\n'),
        lines_well(headers),
        0 <= n <= headers.len(),
    ensures
        ({
            let s = start + sip_message::crlf() + sip_message::header_lines_upto(headers, n);
            &&& ends_line(s)
            &&& sip_frame::values_in(s, name) == named(headers.take(n), name)
            &&& text::lines(s)[0] == start
        }),
    decreases n,
{
    let first = start + sip_message::crlf();
    if n <= 0 {
        lemma_start_line(start, name);
        assert(first + sip_message::header_lines_upto(headers, 0) =~= first);
    } else {
        lemma_section(start, headers, name, n - 1);
        let h = headers[n - 1];
        let s = first + sip_message::header_lines_upto(headers, n - 1);
        let line = sip_message::header_line(h.name, h.value);
        law_header_line_is_added(s, h, name);
        assert(first + sip_message::header_lines_upto(headers, n) =~= s + line);
        assert(headers.take(n).drop_last() =~= headers.take(n - 1));
        assert(headers.take(n).last() == h);
        text::lemma_lines_join(s, line, 0);
        assert(text::lines(s + line)[0] == text::lines(s)[0]);
    }
}

/// Headers are read back from the text of their lines: for each name its values, in their
/// order.
pub proof fn law_headers_are_read_back(start: Seq<char>, headers: Seq<Header>, name: Seq<char>)
    requires
        text_laws::without(start, '\n'),
        lines_well(headers),
    ensures
        sip_frame::values_in(section(start, headers), name) == named(headers, name),
        text::lines(section(start, headers))[0] == start,
{
    lemma_section(start, headers, name, headers.len() as int);
    assert(headers.take(headers.len() as int) =~= headers);
}

/// The first header of a name is the one that is read.
pub proof fn law_first_header_counts(headers: Seq<Header>, name: Seq<char>, k: int)
    requires
        0 <= k < headers.len(),
        text::alike(headers[k].name, name),
        forall|i: int| 0 <= i < k ==> !text::alike((#[trigger] headers[i]).name, name),
    ensures
        sip_frame::first_of(named(headers, name)) == Some(text::trim(headers[k].value)),
    decreases headers.len(),
{
    let less = headers.drop_last();
    if k < headers.len() - 1 {
        law_first_header_counts(less, name, k);
        assert(named(headers, name)[0] == named(less, name)[0]);
    } else {
        lemma_none_named(less, name);
    }
}

proof fn lemma_none_named(headers: Seq<Header>, name: Seq<char>)
    requires
        forall|i: int| 0 <= i < headers.len() ==> !text::alike((#[trigger] headers[i]).name, name),
    ensures
        named(headers, name).len() == 0,
    decreases headers.len(),
{
    if headers.len() > 0 {
        let less = headers.drop_last();
        assert forall|i: int| 0 <= i < less.len() implies !text::alike(
            (#[trigger] less[i]).name,
            name,
        ) by {
            assert(less[i] == headers[i]);
        }
        lemma_none_named(less, name);
        assert(headers[headers.len() - 1] == headers.last());
    }
}

// --------------------------------------------------------------------------- requests

/// A message with this start line, these headers and this body, as octets.
pub open spec fn wire(start: Seq<char>, headers: Seq<Header>, body: Seq<u8>) -> Seq<u8> {
    encode_utf8(section(start, headers) + sip_message::crlf()) + body
}

pub open spec fn header(name: Seq<char>, value: Seq<char>) -> Header {
    Header { name, value }
}

/// The headers of a request from the route that it takes on: where it comes from, who sends
/// it, whom it is for, and its place in the dialog, then its own, and its length.
pub open spec fn request_headers(r: Request, via: Seq<char>) -> Seq<Header> {
    (seq![
        header("Via"@, via),
        header("Max-Forwards"@, "70"@),
        header("From"@, seq!['<'] + r.from_uri + ">;tag="@ + r.from_tag),
        header("To"@, r.to_value),
        header("Call-ID"@, r.call_id),
        header("CSeq"@, text::decimal(r.cseq as nat) + seq![' '] + r.method),
    ] + r.headers).push(header("Content-Length"@, text::decimal(r.body.len())))
}

/// The sender that a Via names: what stands between its blank and its first parameter.
pub open spec fn sent_by(via: Seq<char>) -> Option<SocketAddr> {
    match text::cut(via, ' ') {
        Some((_, rest)) => ip_text::socket_text(text::before(rest, ';')),
        None => None,
    }
}

pub(crate) proof fn lemma_host_chars(a: SocketAddr, c: char)
    requires
        c == ';' || c == '@' || c == '>' || c == '<' || c == ' ' || c == '\n',
    ensures
        text_laws::without(
            ip_text::sip_host_form(a.ip).push(':') + text::decimal(a.port as nat),
            c,
        ),
{
    address_text::lemma_digits_without(a.port as nat, c);
    address_text::lemma_host_without(a.ip, c);
    address_text::lemma_sum_without(
        ip_text::sip_host_form(a.ip).push(':'),
        text::decimal(a.port as nat),
        c,
    );
}

pub(crate) proof fn lemma_host_is_a_word(a: SocketAddr)
    ensures
        ({
            let hp = ip_text::sip_host_form(a.ip).push(':') + text::decimal(a.port as nat);
            &&& hp.len() > 0
            &&& forall|i: int| 0 <= i < hp.len() ==> !text::white(#[trigger] hp[i])
        }),
{
    let hp = ip_text::sip_host_form(a.ip).push(':') + text::decimal(a.port as nat);
    assert forall|i: int| 0 <= i < hp.len() implies !text::white(#[trigger] hp[i]) by {
        if text::white(hp[i]) {
            let c = hp[i];
            address_text::lemma_digits_without(a.port as nat, c);
            address_text::lemma_host_without(a.ip, c);
            address_text::lemma_sum_without(
                ip_text::sip_host_form(a.ip).push(':'),
                text::decimal(a.port as nat),
                c,
            );
        }
    }
}

/// A request names the local address of its route as its sender, and asks for the answer to
/// come back to where it came from, whatever proxy it is sent to.
pub proof fn law_request_comes_from_the_local_address(r: Request)
    ensures
        ({
            let via = sip_message::via_value(r);
            &&& sent_by(via) == Some(r.route.local_addr)
            &&& text::starts(
                via,
                if r.route.transport is Udp {
                    "SIP/2.0/UDP "@
                } else {
                    "SIP/2.0/TCP "@
                },
            )
            &&& forall|other: Request|
                other.route.local_addr == r.route.local_addr && other.route.transport
                    == r.route.transport && other.branch == r.branch
                    ==> #[trigger] sip_message::via_value(other) == via
        }),
{
    let via = sip_message::via_value(r);
    let a = r.route.local_addr;
    let hp = ip_text::sip_host_form(a.ip).push(':') + text::decimal(a.port as nat);
    let proto = "SIP/2.0/"@ + r.route.transport.token();
    reveal_strlit("SIP/2.0/");
    reveal_strlit("UDP");
    reveal_strlit("TCP");
    reveal_strlit("SIP/2.0/UDP ");
    reveal_strlit("SIP/2.0/TCP ");
    reveal_strlit(";branch=");
    reveal_strlit(";rport");
    assert(text_laws::without(proto, ' '));
    let tail = "branch="@ + r.branch + ";rport"@;
    reveal_strlit("branch=");
    assert(";branch="@ =~= seq![';'] + "branch="@);
    let rest = hp.push(';') + tail;
    assert(via =~= proto.push(' ') + rest);
    text_laws::law_cut_gives_both_sides(proto, rest, ' ');
    lemma_host_chars(a, ';');
    text_laws::law_cut_gives_both_sides(hp, tail, ';');
    address_text::law_host_and_port_are_read_back(a);
    let start = proto.push(' ');
    assert(start =~= (if r.route.transport is Udp {
        "SIP/2.0/UDP "@
    } else {
        "SIP/2.0/TCP "@
    }));
    text_laws::law_prefix_can_be_completed(start, rest, via);
}

/// A request is its start line, its headers in their order, a blank line and its body.
#[verifier::spinoff_prover]
#[verifier::rlimit(40)]
pub proof fn law_request_holds_its_headers(r: Request)
    ensures
        sip_message::request_bytes(r) == wire(
            r.method + seq![' '] + r.request_uri + " SIP/2.0"@,
            request_headers(r, sip_message::via_value(r)),
            r.body,
        ),
{
    let via = sip_message::via_value(r);
    let start = r.method + seq![' '] + r.request_uri + " SIP/2.0"@;
    let all = request_headers(r, via);
    let first = all.take(6);
    let own = all.take(6 + r.headers.len() as int);
    let n = r.headers.len() as int;
    assert(own =~= first + r.headers);
    lemma_lines_join(first, r.headers, n);
    lemma_lines_prefix(all, own, 6 + n);
    let last = header("Content-Length"@, text::decimal(r.body.len()));
    assert(all.last() == last);
    reveal_with_fuel(sip_message::header_lines_upto, 7);
    let six = sip_message::header_line("Via"@, via) + sip_message::header_line(
        "Max-Forwards"@,
        "70"@,
    ) + sip_message::header_line("From"@, seq!['<'] + r.from_uri + ">;tag="@ + r.from_tag)
        + sip_message::header_line("To"@, r.to_value) + sip_message::header_line(
        "Call-ID"@,
        r.call_id,
    ) + sip_message::header_line("CSeq"@, text::decimal(r.cseq as nat) + seq![' '] + r.method);
    assert(sip_message::header_lines_upto(first, 6) =~= six);
    let mid = sip_message::header_lines_upto(r.headers, n);
    let tail = sip_message::header_line(last.name, last.value);
    assert(sip_message::header_lines_upto(all, 7 + n) == sip_message::header_lines_upto(all, 6 + n)
        + tail);
    lemma_request_text(r, start, six, mid, tail);
}

proof fn lemma_request_text(
    r: Request,
    start: Seq<char>,
    six: Seq<char>,
    mid: Seq<char>,
    tail: Seq<char>,
)
    requires
        start == r.method + seq![' '] + r.request_uri + " SIP/2.0"@,
        six == sip_message::header_line("Via"@, sip_message::via_value(r))
            + sip_message::header_line("Max-Forwards"@, "70"@) + sip_message::header_line(
            "From"@,
            seq!['<'] + r.from_uri + ">;tag="@ + r.from_tag,
        ) + sip_message::header_line("To"@, r.to_value) + sip_message::header_line(
            "Call-ID"@,
            r.call_id,
        ) + sip_message::header_line("CSeq"@, text::decimal(r.cseq as nat) + seq![' '] + r.method),
        mid == sip_message::header_lines_upto(r.headers, r.headers.len() as int),
        tail == sip_message::header_line("Content-Length"@, text::decimal(r.body.len())),
    ensures
        sip_message::request_head(r) == start + sip_message::crlf() + (six + mid + tail)
            + sip_message::crlf(),
{
    let a = sip_message::header_line("Via"@, sip_message::via_value(r));
    let b = sip_message::header_line("Max-Forwards"@, "70"@);
    let c = sip_message::header_line("From"@, seq!['<'] + r.from_uri + ">;tag="@ + r.from_tag);
    let d = sip_message::header_line("To"@, r.to_value);
    let e = sip_message::header_line("Call-ID"@, r.call_id);
    let f = sip_message::header_line("CSeq"@, text::decimal(r.cseq as nat) + seq![' '] + r.method);
    lemma_nine(start + sip_message::crlf(), a, b, c, d, e, f, mid, tail);
}

proof fn lemma_nine(
    s: Seq<char>,
    a: Seq<char>,
    b: Seq<char>,
    c: Seq<char>,
    d: Seq<char>,
    e: Seq<char>,
    f: Seq<char>,
    m: Seq<char>,
    t: Seq<char>,
)
    ensures
        s + a + b + c + d + e + f + m + t == s + ((a + b + c + d + e + f) + m + t),
{
    assert(s + a + b + c + d + e + f =~= s + (a + b + c + d + e + f));
    let g = a + b + c + d + e + f;
    assert(s + g + m + t =~= s + (g + m + t));
}

proof fn lemma_lines_prefix(a: Seq<Header>, b: Seq<Header>, n: int)
    requires
        0 <= n <= a.len(),
        n <= b.len(),
        forall|i: int| 0 <= i < n ==> a[i] == b[i],
    ensures
        sip_message::header_lines_upto(a, n) == sip_message::header_lines_upto(b, n),
    decreases n,
{
    if n > 0 {
        lemma_lines_prefix(a, b, n - 1);
    }
}

proof fn lemma_lines_join(a: Seq<Header>, b: Seq<Header>, n: int)
    requires
        0 <= n <= b.len(),
    ensures
        sip_message::header_lines_upto(a + b, a.len() + n) == sip_message::header_lines_upto(
            a,
            a.len() as int,
        ) + sip_message::header_lines_upto(b, n),
    decreases n,
{
    let front = sip_message::header_lines_upto(a, a.len() as int);
    if n > 0 {
        lemma_lines_join(a, b, n - 1);
        assert((a + b)[a.len() + n - 1] == b[n - 1]);
        let line = sip_message::header_line(b[n - 1].name, b[n - 1].value);
        assert(front + sip_message::header_lines_upto(b, n - 1) + line =~= front + (
        sip_message::header_lines_upto(b, n - 1) + line));
    } else {
        lemma_lines_prefix(a + b, a, a.len() as int);
        assert(front + sip_message::header_lines_upto(b, 0) =~= front);
    }
}

// --------------------------------------------------------------------------- subscriptions

/// The address and port that a SIP URI names: what stands behind its user and before its
/// first parameter.
pub open spec fn uri_address(uri: Seq<char>) -> Option<SocketAddr> {
    match text::cut(uri, '@') {
        Some((_, rest)) => ip_text::socket_text(text::before(rest, ';')),
        None => None,
    }
}

/// What stands behind the first semicolon of a URI.
pub open spec fn parameters(uri: Seq<char>) -> Seq<char> {
    match text::cut(uri, ';') {
        Some((_, rest)) => rest,
        None => Seq::empty(),
    }
}

/// A user part that needs no quoting in a URI.
pub open spec fn plain_user(user: Seq<char>) -> bool {
    text_laws::without(user, '@') && text_laws::without(user, '<') && text_laws::without(user, '>')
        && text_laws::without(user, '\n')
}

pub open spec fn contact_of(headers: Seq<Header>) -> Option<Seq<char>> {
    sip_frame::first_of(named(headers, "Contact"@))
}

pub open spec fn transport_parameter(route: ImsRoute) -> Seq<char> {
    if route.transport is Udp {
        "transport=udp"@
    } else {
        "transport=tcp"@
    }
}

#[verifier::rlimit(50)]
proof fn lemma_contact_parts(user: Seq<char>, route: ImsRoute, hp: Seq<char>)
    requires
        hp == ip_text::sip_host_form(route.local_addr.ip).push(':') + text::decimal(
            route.local_addr.port as nat,
        ),
    ensures
        supplementary::contact_form(user, route) == seq!['<'] + (("sip:"@ + user).push('@') + (
        hp.push(';') + transport_parameter(route))) + seq!['>'],
{
    reveal_strlit("<sip:");
    reveal_strlit("sip:");
    reveal_strlit(";transport=");
    reveal_strlit("transport=udp");
    reveal_strlit("transport=tcp");
    reveal_strlit("udp");
    reveal_strlit("tcp");
    let param = transport_parameter(route);
    let ending = ";transport="@ + route.transport.param();
    assert(ending =~= seq![';'] + param);
    assert("<sip:"@ =~= seq!['<'] + "sip:"@);
    let host = ip_text::sip_host_form(route.local_addr.ip);
    let port = text::decimal(route.local_addr.port as nat);
    assert(supplementary::contact_form(user, route) =~= seq!['<'] + "sip:"@ + user + seq!['@']
        + host + seq![':'] + port + ending + seq!['>']);
}

#[verifier::rlimit(50)]
proof fn lemma_contact_uri(user: Seq<char>, hp: Seq<char>, param: Seq<char>, a: SocketAddr)
    requires
        plain_user(user),
        hp == ip_text::sip_host_form(a.ip).push(':') + text::decimal(a.port as nat),
        param == "transport=udp"@ || param == "transport=tcp"@,
    ensures
        ({
            let uri = ("sip:"@ + user).push('@') + (hp.push(';') + param);
            &&& text_laws::without(uri, '>')
            &&& uri.len() > 0 && !text::white(uri[0]) && !text::white(uri.last())
            &&& text::starts(uri, "sip:"@ + user + seq!['@'])
            &&& uri_address(uri) == Some(a)
            &&& text_laws::without(user, ';') ==> parameters(uri) == param
        }),
{
    reveal_strlit("sip:");
    reveal_strlit("transport=udp");
    reveal_strlit("transport=tcp");
    let lead = "sip:"@ + user;
    let rest = hp.push(';') + param;
    let uri = lead.push('@') + rest;
    lemma_host_chars(a, '>');
    lemma_host_chars(a, ';');
    assert(text_laws::without(uri, '>')) by {
        address_text::lemma_sum_without("sip:"@, user, '>');
        address_text::lemma_sum_without(hp.push(';'), param, '>');
        address_text::lemma_sum_without(lead.push('@'), rest, '>');
    }
    assert(uri[0] == 's');
    assert(uri.last() == param.last());
    assert(uri_address(uri) == Some(a)) by {
        address_text::lemma_sum_without("sip:"@, user, '@');
        text_laws::law_cut_gives_both_sides(lead, rest, '@');
        text_laws::law_cut_gives_both_sides(hp, param, ';');
        address_text::law_host_and_port_are_read_back(a);
    }
    assert("sip:"@ + user + seq!['@'] =~= lead.push('@'));
    text_laws::law_prefix_can_be_completed(lead.push('@'), rest, uri);
    if text_laws::without(user, ';') {
        address_text::lemma_sum_without("sip:"@, user, ';');
        address_text::lemma_sum_without(lead.push('@'), hp, ';');
        text_laws::law_cut_gives_both_sides(lead.push('@') + hp, param, ';');
        assert(uri =~= (lead.push('@') + hp).push(';') + param);
    }
}

pub(crate) proof fn lemma_contact(user: Seq<char>, route: ImsRoute)
    requires
        plain_user(user),
    ensures
        ({
            let value = supplementary::contact_form(user, route);
            let uri = sip_frame::uri_in(value);
            &&& text::trim(value) == value
            &&& uri is Some
            &&& text::starts(uri->0, "sip:"@ + user + seq!['@'])
            &&& uri_address(uri->0) == Some(route.local_addr)
            &&& text_laws::without(user, ';') ==> parameters(uri->0) == transport_parameter(route)
        }),
{
    let a = route.local_addr;
    let hp = ip_text::sip_host_form(a.ip).push(':') + text::decimal(a.port as nat);
    let param = transport_parameter(route);
    lemma_contact_parts(user, route, hp);
    lemma_contact_uri(user, hp, param, a);
    lemma_bracketed(("sip:"@ + user).push('@') + (hp.push(';') + param));
}

/// The URI of a contact is what stands between its brackets.
pub(crate) proof fn lemma_contact_is_bracketed(user: Seq<char>, route: ImsRoute, uri: Seq<char>)
    requires
        plain_user(user),
        seq!['<'] + uri + seq!['>'] == supplementary::contact_form(user, route),
    ensures
        sip_frame::uri_in(supplementary::contact_form(user, route)) == Some(uri),
{
    let a = route.local_addr;
    let hp = ip_text::sip_host_form(a.ip).push(':') + text::decimal(a.port as nat);
    let param = transport_parameter(route);
    let inner = ("sip:"@ + user).push('@') + (hp.push(';') + param);
    lemma_contact_parts(user, route, hp);
    lemma_contact_uri(user, hp, param, a);
    lemma_bracketed(inner);
    let value = supplementary::contact_form(user, route);
    assert(value.subrange(1, value.len() - 1) =~= inner);
    assert(value.subrange(1, value.len() - 1) =~= uri);
}

/// What stands in angle brackets is the URI of a value.
proof fn lemma_bracketed(uri: Seq<char>)
    requires
        uri.len() > 0,
        !text::white(uri[0]) && !text::white(uri.last()),
        text_laws::without(uri, '>'),
    ensures
        sip_frame::uri_in(seq!['<'] + uri + seq!['>']) == Some(uri),
        text::trim(seq!['<'] + uri + seq!['>']) == seq!['<'] + uri + seq!['>'],
{
    let value = seq!['<'] + uri + seq!['>'];
    let none = Seq::<char>::empty();
    text_laws::law_first_is_found(none, uri + seq!['>'], '<');
    assert(none.push('<') + (uri + seq!['>']) =~= value);
    let rest = value.subrange(1, value.len() as int);
    assert(rest =~= uri.push('>') + none);
    text_laws::law_cut_gives_both_sides(uri, none, '>');
    text_laws::law_trim_takes_the_ends(none, uri, none);
    assert(none + uri + none =~= uri);
    text_laws::law_trim_takes_the_ends(none, value, none);
    assert(none + value + none =~= value);
}

/// The headers of a subscription, as they are written.
pub open spec fn subscription_headers(
    public_uri: Seq<char>,
    user: Seq<char>,
    route: ImsRoute,
    service_route: Option<Seq<char>>,
    ids: Ids,
    expires: u32,
    user_agent: Seq<char>,
    more: Seq<Header>,
) -> Seq<Header> {
    supplementary::subscribe_request(
        public_uri,
        user,
        route,
        service_route,
        ids,
        expires,
        user_agent,
        more,
    ).headers
}

/// The Contact of a subscription leads back to where it is sent from: the host and the port
/// of its URI are those of the route's local address, its user is the one of the line, and it
/// names the route's transport. The proxy has no part in it.
pub proof fn law_contact_is_the_local_address(
    public_uri: Seq<char>,
    user: Seq<char>,
    route: ImsRoute,
    other: ImsRoute,
    service_route: Option<Seq<char>>,
    ids: Ids,
    expires: u32,
    user_agent: Seq<char>,
    more: Seq<Header>,
)
    requires
        plain_user(user),
        other.local_addr == route.local_addr,
        other.transport == route.transport,
    ensures
        ({
            let headers = subscription_headers(
                public_uri,
                user,
                route,
                service_route,
                ids,
                expires,
                user_agent,
                more,
            );
            let elsewhere = subscription_headers(
                public_uri,
                user,
                other,
                service_route,
                ids,
                expires,
                user_agent,
                more,
            );
            let contact = contact_of(headers);
            &&& contact is Some
            &&& contact_of(elsewhere) == contact
            &&& sip_frame::uri_in(contact->0) matches Some(uri) && {
                &&& uri_address(uri) == Some(route.local_addr)
                &&& text::starts(uri, "sip:"@ + user + seq!['@'])
                &&& text_laws::without(user, ';') ==> parameters(uri) == (
                if route.transport is Udp {
                    "transport=udp"@
                } else {
                    "transport=tcp"@
                })
            }
        }),
{
    let headers = subscription_headers(
        public_uri,
        user,
        route,
        service_route,
        ids,
        expires,
        user_agent,
        more,
    );
    let elsewhere = subscription_headers(
        public_uri,
        user,
        other,
        service_route,
        ids,
        expires,
        user_agent,
        more,
    );
    lemma_contact(user, route);
    lemma_contact(user, other);
    reveal_strlit("Route");
    reveal_strlit("P-Preferred-Identity");
    reveal_strlit("Contact");
    text_laws::law_alike_ignores_case_alone("Route"@, "Contact"@);
    text_laws::law_alike_ignores_case_alone("P-Preferred-Identity"@, "Contact"@);
    law_first_header_counts(headers, "Contact"@, 2);
    law_first_header_counts(elsewhere, "Contact"@, 2);
    assert(supplementary::contact_form(user, other) == supplementary::contact_form(user, route));
}

/// A subscription goes the way that the registration named, and without one straight to the
/// proxy's own address and port.
pub proof fn law_route_is_the_service_route_or_the_proxy(
    public_uri: Seq<char>,
    user: Seq<char>,
    route: ImsRoute,
    service_route: Option<Seq<char>>,
    ids: Ids,
    expires: u32,
    user_agent: Seq<char>,
    more: Seq<Header>,
)
    ensures
        ({
            let headers = subscription_headers(
                public_uri,
                user,
                route,
                service_route,
                ids,
                expires,
                user_agent,
                more,
            );
            let value = sip_frame::first_of(named(headers, "Route"@));
            if service_route is Some && text::trim(service_route->0).len() > 0 {
                value == Some(text::trim(service_route->0))
            } else {
                &&& value is Some
                &&& sip_frame::uri_in(value->0) matches Some(uri) && {
                    &&& text::starts(uri, "sip:"@)
                    &&& ip_text::socket_text(text::before(uri.subrange(4, uri.len() as int), ';'))
                        == Some(route.pcscf_addr)
                    &&& parameters(uri) == "lr"@
                }
            }
        }),
{
    let headers = subscription_headers(
        public_uri,
        user,
        route,
        service_route,
        ids,
        expires,
        user_agent,
        more,
    );
    reveal_strlit("Route");
    text_laws::law_alike_ignores_case_alone("Route"@, "Route"@);
    law_first_header_counts(headers, "Route"@, 0);
    if service_route is Some && text::trim(service_route->0).len() > 0 {
        text::lemma_trim_twice(service_route->0);
    } else {
        let a = route.pcscf_addr;
        let hp = ip_text::sip_host_form(a.ip).push(':') + text::decimal(a.port as nat);
        reveal_strlit("<sip:");
        reveal_strlit("sip:");
        reveal_strlit(";lr>");
        reveal_strlit("lr");
        let uri = ("sip:"@ + hp).push(';') + "lr"@;
        let value = supplementary::subscribe_route(service_route, route);
        assert(value =~= seq!['<'] + uri + seq!['>']);
        lemma_host_chars(a, '>');
        lemma_host_chars(a, ';');
        address_text::lemma_sum_without("sip:"@, hp, '>');
        address_text::lemma_sum_without(("sip:"@ + hp).push(';'), "lr"@, '>');
        lemma_bracketed(uri);
        address_text::lemma_sum_without("sip:"@, hp, ';');
        text_laws::law_cut_gives_both_sides("sip:"@ + hp, "lr"@, ';');
        text_laws::law_cut_gives_both_sides(hp, "lr"@, ';');
        assert(uri.subrange(4, uri.len() as int) =~= hp.push(';') + "lr"@);
        address_text::law_host_and_port_are_read_back(a);
        text_laws::law_prefix_can_be_completed("sip:"@, hp.push(';') + "lr"@, uri);
        assert(uri =~= "sip:"@ + (hp.push(';') + "lr"@));
    }
}

/// A subscription is sent in the line's own name to the line's own address: it asks for
/// message summaries for the time given, in the dialog that it belongs to.
pub proof fn law_subscription_asks_for_message_summaries(
    public_uri: Seq<char>,
    user: Seq<char>,
    route: ImsRoute,
    service_route: Option<Seq<char>>,
    ids: Ids,
    expires: u32,
    user_agent: Seq<char>,
    more: Seq<Header>,
)
    ensures
        ({
            let r = supplementary::subscribe_request(
                public_uri,
                user,
                route,
                service_route,
                ids,
                expires,
                user_agent,
                more,
            );
            &&& r.method == "SUBSCRIBE"@
            &&& r.request_uri == public_uri
            &&& r.from_uri == public_uri
            &&& r.from_tag == ids.from_tag
            &&& r.branch == ids.branch
            &&& r.call_id == ids.call_id
            &&& r.cseq == ids.cseq
            &&& r.route == route
            &&& ids.to_tag is None ==> r.to_value == seq!['<'] + public_uri + seq!['>']
            &&& ids.to_tag is Some ==> r.to_value == seq!['<'] + public_uri + seq!['>']
                + ";tag="@ + ids.to_tag->0
            &&& r.body.len() == 0
            &&& r.headers.len() == 7 + more.len()
            &&& r.headers[1] == header("P-Preferred-Identity"@, seq!['<'] + public_uri + seq!['>'])
            &&& r.headers[3] == header("Event"@, "message-summary"@)
            &&& r.headers[4] == header("Accept"@, "application/simple-message-summary"@)
            &&& r.headers[5] == header("Expires"@, text::decimal(expires as nat))
            &&& forall|i: int| 0 <= i < more.len() ==> r.headers[6 + i] == #[trigger] more[i]
            &&& r.headers.last() == header("User-Agent"@, user_agent)
        }),
{
}

// --------------------------------------------------------------------------- frames

pub open spec fn with_blank_line(head: Seq<u8>) -> Seq<u8> {
    head + seq![13u8, 10, 13, 10]
}

/// A frame is parted at its first blank line: what stands behind it is the body, and the
/// headers are read from what stands before it.
pub proof fn law_body_stands_behind_the_blank_line(head: Seq<u8>, body: Seq<u8>)
    requires
        forall|i: int|
            0 <= i < head.len() ==> !#[trigger] sip_frame::blank_at(with_blank_line(head), i),
    ensures
        sip_frame::body_of(with_blank_line(head) + body) == body,
        sip_frame::head_text(with_blank_line(head) + body) == utf8::lossy_text(head),
{
    let front = with_blank_line(head);
    let frame = front + body;
    let n = head.len() as int;
    sip_frame::lemma_head_end(frame, 0);
    let end = sip_frame::head_end(frame, 0);
    assert(sip_frame::blank_at(frame, n)) by {
        assert(frame[n] == front[n] && frame[n + 1] == front[n + 1]);
        assert(frame[n + 2] == front[n + 2] && frame[n + 3] == front[n + 3]);
    }
    if end < n {
        assert(sip_frame::blank_at(frame, end));
        assert(frame[end] == front[end] && frame[end + 1] == front[end + 1]);
        assert(frame[end + 2] == front[end + 2] && frame[end + 3] == front[end + 3]);
        assert(sip_frame::blank_at(front, end));
    }
    assert(end == n);
    assert(frame.subrange(n + 4, frame.len() as int) =~= body);
    assert(frame.subrange(0, n) =~= head);
}

/// The status of a response is the number in its start line, behind the version; a text that
/// does not start with the version has none.
#[verifier::rlimit(50)]
pub proof fn law_status_is_read(n: u16, reason: Seq<char>, rest: Seq<char>, other: Seq<char>)
    requires
        text_laws::without(reason, '\n'),
    ensures
        ({
            let line = "SIP/2.0 "@ + text::decimal(n as nat) + seq![' '] + reason;
            sip_frame::status_in(line.push('\n') + rest) == Some(n as nat)
        }),
        text_laws::without(other, '\n') && !text::starts(other, "SIP/2.0 "@) && (other.len() > 0
            ==> other.last() != '\r') ==> sip_frame::status_in(other.push('\n') + rest) is None,
{
    reveal_strlit("SIP/2.0 ");
    let d = text::decimal(n as nat);
    let version = seq!['S', 'I', 'P', '/', '2', '.', '0'];
    let all = "SIP/2.0 "@ + d + seq![' '] + reason;
    let line = text::without_cr(all);
    text::law_decimal_round_trip(n as nat);
    address_text::lemma_digits_without(n as nat, '\n');
    assert(text_laws::without(all, '\n')) by {
        address_text::lemma_sum_without("SIP/2.0 "@, d, '\n');
        address_text::lemma_sum_without("SIP/2.0 "@ + d, seq![' '], '\n');
        address_text::lemma_sum_without("SIP/2.0 "@ + d + seq![' '], reason, '\n');
    }
    lemma_first_line(all, rest);
    // the words of the line
    let tail = text::without_cr(seq![' '] + reason).subrange(
        1,
        text::without_cr(seq![' '] + reason).len() as int,
    );
    assert(line =~= "SIP/2.0 "@ + d + seq![' '] + tail) by {
        let back = seq![' '] + reason;
        if reason.len() > 0 {
            assert(back.last() == reason.last());
            assert(all.last() == reason.last());
        } else {
            assert(all.last() == ' ');
            assert(back.last() == ' ');
        }
    }
    let none = Seq::<char>::empty();
    assert(forall|i: int| 0 <= i < version.len() ==> !text::white(#[trigger] version[i]));
    assert forall|i: int| 0 <= i < d.len() implies !text::white(#[trigger] d[i]) by {
        assert(text::digit(d[i]));
    }
    let after = d.push(' ') + tail;
    text_laws::law_words_are_parted_by_white_space(none, version, ' ', after);
    text_laws::law_words_are_parted_by_white_space(none, d, ' ', tail);
    assert(none + d.push(' ') + tail =~= after);
    assert(line =~= none + version.push(' ') + after);
    assert(text::words(line)[1] == d);
    assert(line.subrange(0, 8) =~= "SIP/2.0 "@);
    text_laws::law_numbers_are_read_as_written(n as nat, u16::MAX as nat, d, 0);
    if text_laws::without(other, '\n') && (other.len() > 0 ==> other.last() != '\r') {
        text_laws::law_lines_end_at_line_feeds(other, rest);
    }
}

proof fn lemma_first_line(all: Seq<char>, rest: Seq<char>)
    requires
        text_laws::without(all, '\n'),
    ensures
        text::lines(all.push('\n') + rest).len() > 0,
        text::lines(all.push('\n') + rest)[0] == text::without_cr(all),
{
    let s = all.push('\n') + rest;
    text_laws::law_first_is_found(all, rest, '\n');
    assert(s.subrange(0, all.len() as int) =~= all);
}

/// The URI of a value is what stands in its brackets, and without brackets what stands before
/// its first parameter.
pub proof fn law_uri_is_read(name: Seq<char>, uri: Seq<char>, more: Seq<char>)
    requires
        uri.len() > 0,
        !text::white(uri[0]) && !text::white(uri.last()),
        text_laws::without(uri, '>'),
        text_laws::without(name, '<'),
    ensures
        sip_frame::uri_in(name + seq!['<'] + uri + seq!['>'] + more) == Some(uri),
        text_laws::without(uri, ';') && text_laws::without(uri, '<') && text_laws::without(
            more,
            '<',
        ) ==> sip_frame::uri_in(uri + seq![';'] + more) == Some(uri) && sip_frame::uri_in(uri)
            == Some(uri),
{
    let none = Seq::<char>::empty();
    let rest = uri.push('>') + more;
    let value = name + seq!['<'] + uri + seq!['>'] + more;
    assert(value =~= name.push('<') + rest);
    text_laws::law_first_is_found(name, rest, '<');
    assert(value.subrange(name.len() as int + 1, value.len() as int) =~= rest);
    text_laws::law_cut_gives_both_sides(uri, more, '>');
    text_laws::law_trim_takes_the_ends(none, uri, none);
    assert(none + uri + none =~= uri);
    if text_laws::without(uri, ';') && text_laws::without(uri, '<') && text_laws::without(
        more,
        '<',
    ) {
        let bare = uri + seq![';'] + more;
        address_text::lemma_sum_without(uri, seq![';'], '<');
        address_text::lemma_sum_without(uri + seq![';'], more, '<');
        text_laws::law_first_is_found(bare, none, '<');
        text_laws::law_first_is_found(uri, none, '<');
        assert(bare =~= uri.push(';') + more);
        text_laws::law_cut_gives_both_sides(uri, more, ';');
    }
}

/// A stream holds a whole frame once the head and the announced body are there; a frame that
/// announces nothing has no body.
pub proof fn law_frame_is_as_long_as_it_says(stream: Seq<u8>, n: u32)
    ensures
        ({
            let end = sip_frame::head_end(stream, 0);
            let lengths = sip_frame::values_in(sip_frame::head_text(stream), "Content-Length"@);
            let short = sip_frame::values_in(sip_frame::head_text(stream), "l"@);
            &&& end < stream.len() && lengths.len() > 0 && lengths[0] == text::decimal(n as nat)
                ==> sip_frame::complete_length(stream) == (if end + 4 + n <= stream.len() {
                Some(end + 4 + n)
            } else {
                None
            })
            &&& end < stream.len() && lengths.len() == 0 && short.len() > 0 && short[0]
                == text::decimal(n as nat) ==> sip_frame::complete_length(stream) == (if end + 4
                + n <= stream.len() {
                Some(end + 4 + n)
            } else {
                None
            })
            &&& end < stream.len() && lengths.len() == 0 && short.len() == 0
                ==> sip_frame::complete_length(stream) == Some(end + 4)
            &&& end == stream.len() ==> sip_frame::complete_length(stream) is None
        }),
{
    text_laws::law_numbers_are_read_as_written(n as nat, u32::MAX as nat, seq![], 0);
    sip_frame::lemma_head_end(stream, 0);
}

} // verus!
