//! SIP requests as values, and their form on the wire.

use crate::context::ImsRoute;
use crate::ip_text;
use crate::ip_text::push_sip_host;
use crate::net::push_bytes;
use crate::text;
use crate::text::{chars_of, push_decimal, push_str, string_of};
use crate::utf8::encode;
use vstd::prelude::*;
use vstd::utf8::encode_utf8;

verus! {

#[derive(Debug, Clone, PartialEq, Eq)]
pub struct SipHeader {
    pub name: String,
    pub value: String,
}

/// A header as a value.
pub struct Header {
    pub name: Seq<char>,
    pub value: Seq<char>,
}

impl View for SipHeader {
    type V = Header;

    open spec fn view(&self) -> Header {
        Header { name: self.name@, value: self.value@ }
    }
}

pub open spec fn headers_of(v: Seq<SipHeader>) -> Seq<Header> {
    Seq::new(v.len(), |i: int| v[i]@)
}

impl SipHeader {
    pub fn new(name: &str, value: &str) -> (r: Self)
        ensures
            r@ == (Header { name: name@, value: value@ }),
    {
        let n = chars_of(name);
        let v = chars_of(value);
        SipHeader { name: string_of(n.as_slice()), value: string_of(v.as_slice()) }
    }

    pub fn copy(&self) -> (r: Self)
        ensures
            r@ == self@,
    {
        SipHeader { name: self.name.clone(), value: self.value.clone() }
    }
}

/// Appends a header.
pub fn add_header(headers: &mut Vec<SipHeader>, name: &str, value: &str)
    ensures
        headers_of(final(headers)@) == headers_of(old(headers)@).push(
            (Header { name: name@, value: value@ }),
        ),
{
    headers.push(SipHeader::new(name, value));
    assert(headers_of(headers@) =~= headers_of(old(headers)@).push(
        (Header { name: name@, value: value@ }),
    ));
}

/// Appends headers.
pub fn add_headers(headers: &mut Vec<SipHeader>, more: &Vec<SipHeader>)
    ensures
        headers_of(final(headers)@) == headers_of(old(headers)@) + headers_of(more@),
{
    let ghost start = headers_of(headers@);
    let ghost extra = headers_of(more@);
    let mut i: usize = 0;
    assert(start =~= start + extra.take(0));
    while i < more.len()
        invariant
            i <= more@.len(),
            extra == headers_of(more@),
            headers_of(headers@) == start + extra.take(i as int),
        decreases more@.len() - i,
    {
        let ghost before = headers@;
        headers.push(more[i].copy());
        i += 1;
        assert(headers_of(headers@) =~= headers_of(before).push(extra[i - 1]));
        assert(headers_of(headers@) =~= start + extra.take(i as int));
    }
    assert(extra.take(extra.len() as int) =~= extra);
}

#[derive(Debug, Clone, PartialEq, Eq)]
pub struct SipRequest {
    pub method: String,
    pub request_uri: String,
    pub route: ImsRoute,
    pub branch: String,
    pub from_uri: String,
    pub from_tag: String,
    pub to_value: String,
    pub call_id: String,
    pub cseq: u32,
    pub headers: Vec<SipHeader>,
    pub body: Vec<u8>,
}

/// A request as a value.
pub struct Request {
    pub method: Seq<char>,
    pub request_uri: Seq<char>,
    pub route: ImsRoute,
    pub branch: Seq<char>,
    pub from_uri: Seq<char>,
    pub from_tag: Seq<char>,
    pub to_value: Seq<char>,
    pub call_id: Seq<char>,
    pub cseq: u32,
    pub headers: Seq<Header>,
    pub body: Seq<u8>,
}

impl View for SipRequest {
    type V = Request;

    open spec fn view(&self) -> Request {
        Request {
            method: self.method@,
            request_uri: self.request_uri@,
            route: self.route,
            branch: self.branch@,
            from_uri: self.from_uri@,
            from_tag: self.from_tag@,
            to_value: self.to_value@,
            call_id: self.call_id@,
            cseq: self.cseq,
            headers: headers_of(self.headers@),
            body: self.body@,
        }
    }
}

pub open spec fn crlf() -> Seq<char> {
    seq!['\r', '\n']
}

/// A header line.
pub open spec fn header_line(name: Seq<char>, value: Seq<char>) -> Seq<char> {
    name + seq![':', ' '] + value + crlf()
}

/// The lines of the headers before `n`.
pub open spec fn header_lines_upto(headers: Seq<Header>, n: int) -> Seq<char>
    decreases n,
{
    if n <= 0 {
        Seq::empty()
    } else {
        header_lines_upto(headers, n - 1) + header_line(headers[n - 1].name, headers[n - 1].value)
    }
}

/// The Via value of a request.
pub open spec fn via_value(r: Request) -> Seq<char> {
    "SIP/2.0/"@ + r.route.transport.token() + seq![' '] + ip_text::sip_host_form(
        r.route.local_addr.ip,
    ) + seq![':'] + text::decimal(r.route.local_addr.port as nat) + ";branch="@ + r.branch
        + ";rport"@
}

/// The text of a request up to its body.
pub open spec fn request_head(r: Request) -> Seq<char> {
    r.method + seq![' '] + r.request_uri + " SIP/2.0"@ + crlf() + header_line(
        "Via"@,
        via_value(r),
    ) + header_line("Max-Forwards"@, "70"@) + header_line(
        "From"@,
        seq!['<'] + r.from_uri + ">;tag="@ + r.from_tag,
    ) + header_line("To"@, r.to_value) + header_line("Call-ID"@, r.call_id) + header_line(
        "CSeq"@,
        text::decimal(r.cseq as nat) + seq![' '] + r.method,
    ) + header_lines_upto(r.headers, r.headers.len() as int) + header_line(
        "Content-Length"@,
        text::decimal(r.body.len()),
    ) + crlf()
}

/// A request on the wire.
pub open spec fn request_bytes(r: Request) -> Seq<u8> {
    encode_utf8(request_head(r)) + r.body
}

fn push_crlf(out: &mut Vec<char>)
    ensures
        final(out)@ == old(out)@ + crlf(),
{
    out.push('\r');
    out.push('\n');
    assert(out@ =~= old(out)@ + crlf());
}

fn push_header(out: &mut Vec<char>, name: &str, value: &str)
    ensures
        final(out)@ == old(out)@ + header_line(name@, value@),
{
    push_str(out, name);
    out.push(':');
    out.push(' ');
    push_str(out, value);
    push_crlf(out);
    assert(out@ =~= old(out)@ + header_line(name@, value@));
}

fn via_string(request: &SipRequest) -> (r: String)
    ensures
        r@ == via_value(request@),
{
    let mut out = chars_of("SIP/2.0/");
    push_str(&mut out, request.route.transport.as_token());
    out.push(' ');
    push_sip_host(&mut out, request.route.local_addr.ip);
    out.push(':');
    push_decimal(&mut out, request.route.local_addr.port as u64);
    push_str(&mut out, ";branch=");
    push_str(&mut out, request.branch.as_str());
    push_str(&mut out, ";rport");
    assert(out@ =~= via_value(request@));
    string_of(out.as_slice())
}

pub fn build_request(request: &SipRequest) -> (r: Vec<u8>)
    ensures
        r@ == request_bytes(request@),
{
    let mut out = chars_of(request.method.as_str());
    out.push(' ');
    push_str(&mut out, request.request_uri.as_str());
    push_str(&mut out, " SIP/2.0");
    push_crlf(&mut out);
    let via = via_string(request);
    push_header(&mut out, "Via", via.as_str());
    push_header(&mut out, "Max-Forwards", "70");
    let mut from: Vec<char> = Vec::new();
    from.push('<');
    push_str(&mut from, request.from_uri.as_str());
    push_str(&mut from, ">;tag=");
    push_str(&mut from, request.from_tag.as_str());
    let from = string_of(from.as_slice());
    assert(from@ =~= seq!['<'] + request@.from_uri + ">;tag="@ + request@.from_tag);
    push_header(&mut out, "From", from.as_str());
    push_header(&mut out, "To", request.to_value.as_str());
    push_header(&mut out, "Call-ID", request.call_id.as_str());
    let mut cseq: Vec<char> = Vec::new();
    push_decimal(&mut cseq, request.cseq as u64);
    cseq.push(' ');
    push_str(&mut cseq, request.method.as_str());
    let cseq = string_of(cseq.as_slice());
    assert(cseq@ =~= text::decimal(request.cseq as nat) + seq![' '] + request@.method);
    push_header(&mut out, "CSeq", cseq.as_str());
    let ghost fixed = out@;
    let ghost all = headers_of(request.headers@);
    let mut i: usize = 0;
    assert(out@ =~= fixed + header_lines_upto(all, 0));
    while i < request.headers.len()
        invariant
            i <= request.headers@.len(),
            all == headers_of(request.headers@),
            out@ == fixed + header_lines_upto(all, i as int),
        decreases request.headers@.len() - i,
    {
        let header = &request.headers[i];
        assert(all[i as int] == header@);
        push_header(&mut out, header.name.as_str(), header.value.as_str());
        i += 1;
        assert(out@ =~= fixed + header_lines_upto(all, i as int));
    }
    let mut length: Vec<char> = Vec::new();
    push_decimal(&mut length, request.body.len() as u64);
    let length = string_of(length.as_slice());
    assert(length@ =~= text::decimal(request.body@.len()));
    push_header(&mut out, "Content-Length", length.as_str());
    push_crlf(&mut out);
    assert(out@ =~= request_head(request@));
    let mut bytes = encode(out.as_slice());
    push_bytes(&mut bytes, request.body.as_slice());
    bytes
}

} // verus!
