//! P-CSCF discovery.
//!
//! The address of the P-CSCF comes with the connection settings of the IMS
//! bearer. Different modems present it differently; reading the settings is kept
//! apart from asking for them. Where no address came with them, the DNS servers
//! of the bearer are asked.

use crate::cellular_ims::errors::{code, CellularImsError};
use crate::net::{be16, has_addr, push_bytes, push_word, v4_from, v6_from, IpAddr, SocketAddr};
use crate::sdp::copy_str;
use crate::{ip_text, net, text, utf8};
use vstd::prelude::*;
use vstd::slice::slice_subrange;
use vstd::utf8::*;

verus! {

pub type VolteError = CellularImsError;

pub const SIP_PORT: u16 = 5060;

pub const TYPE_A: u16 = 1;

pub const TYPE_AAAA: u16 = 28;

pub const TYPE_SRV: u16 = 33;

/// How many parts of a name are followed.
pub const NAME_STEPS: usize = 128;

/// Parsed IP settings of the IMS bearer.
#[derive(Debug, Clone, PartialEq, Eq)]
pub struct ImsIpSettings {
    pub ipv6_address: Option<IpAddr>,
    pub ipv6_gateway: Option<IpAddr>,
    pub ipv6_dns: Vec<IpAddr>,
    pub ipv4_address: Option<IpAddr>,
    pub ipv4_gateway: Option<IpAddr>,
    pub ipv4_dns: Vec<IpAddr>,
    /// Explicit P-CSCF addresses, if delivered.
    pub pcscf: Vec<IpAddr>,
}

/// IP settings as a value.
#[verifier::ext_equal]
pub struct Settings {
    pub ipv6_address: Option<IpAddr>,
    pub ipv6_gateway: Option<IpAddr>,
    pub ipv6_dns: Seq<IpAddr>,
    pub ipv4_address: Option<IpAddr>,
    pub ipv4_gateway: Option<IpAddr>,
    pub ipv4_dns: Seq<IpAddr>,
    pub pcscf: Seq<IpAddr>,
}

impl View for ImsIpSettings {
    type V = Settings;

    open spec fn view(&self) -> Settings {
        Settings {
            ipv6_address: self.ipv6_address,
            ipv6_gateway: self.ipv6_gateway,
            ipv6_dns: self.ipv6_dns@,
            ipv4_address: self.ipv4_address,
            ipv4_gateway: self.ipv4_gateway,
            ipv4_dns: self.ipv4_dns@,
            pcscf: self.pcscf@,
        }
    }
}

pub open spec fn no_settings() -> Settings {
    Settings {
        ipv6_address: None,
        ipv6_gateway: None,
        ipv6_dns: seq![],
        ipv4_address: None,
        ipv4_gateway: None,
        ipv4_dns: seq![],
        pcscf: seq![],
    }
}

impl Default for ImsIpSettings {
    fn default() -> (r: Self)
        ensures
            r@ == no_settings(),
    {
        let r = ImsIpSettings {
            ipv6_address: None,
            ipv6_gateway: None,
            ipv6_dns: Vec::new(),
            ipv4_address: None,
            ipv4_gateway: None,
            ipv4_dns: Vec::new(),
            pcscf: Vec::new(),
        };
        assert(r@ =~= no_settings());
        r
    }
}

/// The local address: IPv6 where there is one.
pub open spec fn local_of(s: Settings) -> Option<IpAddr> {
    match s.ipv6_address {
        Some(a) => Some(a),
        None => s.ipv4_address,
    }
}

/// The P-CSCF that the settings give: an explicit one, or else a DNS server.
pub open spec fn pcscf_of(s: Settings) -> Option<IpAddr> {
    if s.pcscf.len() > 0 {
        Some(s.pcscf[0])
    } else if s.ipv6_dns.len() > 0 {
        Some(s.ipv6_dns[0])
    } else if s.ipv4_dns.len() > 0 {
        Some(s.ipv4_dns[0])
    } else {
        None
    }
}

pub open spec fn alike_family(a: IpAddr, b: IpAddr) -> bool {
    (a is V4) == (b is V4)
}

/// An address of the same family as the local one, or what is wrong.
pub open spec fn matched(s: Settings, pcscf: IpAddr) -> Result<IpAddr, Seq<char>> {
    match local_of(s) {
        None => Err(code::IP_SETTINGS_MISSING@),
        Some(local) => if alike_family(local, pcscf) {
            Ok(pcscf)
        } else {
            Err(code::PCSCF_FAMILY_MISMATCH@)
        },
    }
}

impl ImsIpSettings {
    pub fn local_addr(&self) -> (r: Option<IpAddr>)
        ensures
            r == local_of(self@),
    {
        match self.ipv6_address {
            Some(a) => Some(a),
            None => self.ipv4_address,
        }
    }

    pub fn resolve_pcscf(&self) -> (r: Result<IpAddr, VolteError>)
        ensures
            match r {
                Ok(a) => pcscf_of(self@) == Some(a),
                Err(e) => pcscf_of(self@) is None && e.code_spec()
                    == code::RUNTIME_ALL_PCSCF_FAILED@ && e.detail_spec() is None,
            },
    {
        if self.pcscf.len() > 0 {
            return Ok(self.pcscf[0]);
        }
        if self.ipv6_dns.len() > 0 {
            return Ok(self.ipv6_dns[0]);
        }
        if self.ipv4_dns.len() > 0 {
            return Ok(self.ipv4_dns[0]);
        }
        Err(CellularImsError::new(code::RUNTIME_ALL_PCSCF_FAILED))
    }

    pub fn ensure_family_match(&self, pcscf: IpAddr) -> (r: Result<IpAddr, VolteError>)
        ensures
            match r {
                Ok(a) => matched(self@, pcscf) == Ok::<_, Seq<char>>(a),
                Err(e) => matched(self@, pcscf) == Err::<IpAddr, _>(e.code_spec())
                    && e.detail_spec() is None,
            },
    {
        match self.local_addr() {
            None => Err(CellularImsError::new(code::IP_SETTINGS_MISSING)),
            Some(local) => {
                if local.is_ipv4() != pcscf.is_ipv4() {
                    return Err(CellularImsError::new(code::PCSCF_FAMILY_MISMATCH));
                }
                Ok(pcscf)
            },
        }
    }
}

// --------------------------------------------------------------- settings blocks

/// An address without a prefix length or netmask behind it.
pub open spec fn addr_in(value: Seq<char>) -> Option<IpAddr> {
    let words = text::words(value);
    let head = if words.len() > 0 {
        words[0]
    } else {
        value
    };
    ip_text::ip_text(text::before(head, '/'))
}

pub fn parse_addr(value: &str) -> (r: Option<IpAddr>)
    ensures
        r == addr_in(value@),
{
    let chars = text::chars_of(value);
    read_addr(chars.as_slice())
}

fn read_addr(value: &[char]) -> (r: Option<IpAddr>)
    ensures
        r == addr_in(value@),
{
    let words = text::words_of(value);
    assert(words@.len() == text::views(words@).len());
    if words.len() > 0 {
        assert(text::words(value@)[0] == words@[0]@);
        ip_text::parse_ip_chars(text::part_before(words[0], '/'))
    } else {
        ip_text::parse_ip_chars(text::part_before(value, '/'))
    }
}

/// A list with an address that was not in it.
pub open spec fn with_addr(list: Seq<IpAddr>, addr: Option<IpAddr>) -> Seq<IpAddr> {
    match addr {
        Some(a) => if list.contains(a) {
            list
        } else {
            list.push(a)
        },
        None => list,
    }
}

fn push_addr(list: &mut Vec<IpAddr>, value: &[char])
    ensures
        final(list)@ == with_addr(old(list)@, addr_in(value@)),
{
    if let Some(addr) = read_addr(value) {
        if !has_addr(list, addr) {
            list.push(addr);
        }
    }
}

/// Settings with one labelled value taken into account.
pub open spec fn with_label(s: Settings, label: Seq<char>, value: Seq<char>) -> Settings {
    let addr = addr_in(value);
    if label == "ipv6 address"@ {
        Settings { ipv6_address: addr, ..s }
    } else if label == "ipv6 gateway address"@ || label == "ipv6 gateway"@ {
        Settings { ipv6_gateway: addr, ..s }
    } else if label == "ipv6 primary dns"@ || label == "ipv6 secondary dns"@ {
        Settings { ipv6_dns: with_addr(s.ipv6_dns, addr), ..s }
    } else if label == "ipv4 address"@ {
        Settings { ipv4_address: addr, ..s }
    } else if label == "ipv4 gateway address"@ || label == "ipv4 gateway"@ {
        Settings { ipv4_gateway: addr, ..s }
    } else if label == "ipv4 primary dns"@ || label == "ipv4 secondary dns"@ {
        Settings { ipv4_dns: with_addr(s.ipv4_dns, addr), ..s }
    } else if label == "p-cscf"@ || label == "pcscf"@ {
        Settings { pcscf: with_addr(s.pcscf, addr), ..s }
    } else {
        s
    }
}

/// Settings with one line taken into account.
pub open spec fn with_line(s: Settings, line: Seq<char>) -> Settings {
    match text::cut(line, ':') {
        None => s,
        Some((label, value)) => if text::trim(value).len() == 0 {
            s
        } else {
            with_label(s, text::lower_all(text::trim(label)), text::trim(value))
        },
    }
}

pub open spec fn settings_upto(lines: Seq<Seq<char>>, n: int) -> Settings
    decreases n,
{
    if n <= 0 {
        no_settings()
    } else {
        with_line(settings_upto(lines, n - 1), lines[n - 1])
    }
}

/// The settings of a block of `Label: value` lines.
pub open spec fn settings_in(block: Seq<char>) -> Settings {
    settings_upto(text::lines(block), text::lines(block).len() as int)
}

fn apply_label(s: &mut ImsIpSettings, label: &[char], value: &[char])
    ensures
        final(s)@ == with_label(old(s)@, label@, value@),
{
    if text::is_text(label, "ipv6 address") {
        s.ipv6_address = read_addr(value);
    } else if text::is_text(label, "ipv6 gateway address") || text::is_text(
        label,
        "ipv6 gateway",
    ) {
        s.ipv6_gateway = read_addr(value);
    } else if text::is_text(label, "ipv6 primary dns") || text::is_text(
        label,
        "ipv6 secondary dns",
    ) {
        push_addr(&mut s.ipv6_dns, value);
    } else if text::is_text(label, "ipv4 address") {
        s.ipv4_address = read_addr(value);
    } else if text::is_text(label, "ipv4 gateway address") || text::is_text(
        label,
        "ipv4 gateway",
    ) {
        s.ipv4_gateway = read_addr(value);
    } else if text::is_text(label, "ipv4 primary dns") || text::is_text(
        label,
        "ipv4 secondary dns",
    ) {
        push_addr(&mut s.ipv4_dns, value);
    } else if text::is_text(label, "p-cscf") || text::is_text(label, "pcscf") {
        push_addr(&mut s.pcscf, value);
    }
}

fn apply_line(s: &mut ImsIpSettings, line: &[char])
    ensures
        final(s)@ == with_line(old(s)@, line@),
{
    if let Some((label, value)) = text::split_once(line, ':') {
        let label = text::lowered(text::trimmed(label));
        let value = text::trimmed(value);
        if value.len() > 0 {
            apply_label(s, label.as_slice(), value);
        }
    }
}

pub fn parse_ip_settings(block: &str) -> (r: ImsIpSettings)
    ensures
        r@ == settings_in(block@),
{
    let chars = text::chars_of(block);
    let lines = text::lines_of(chars.as_slice());
    let ghost all = text::lines(block@);
    let mut s = ImsIpSettings::default();
    let mut i: usize = 0;
    assert(lines@.len() == text::views(lines@).len());
    while i < lines.len()
        invariant
            i <= lines@.len(),
            all == text::views(lines@),
            s@ == settings_upto(all, i as int),
        decreases lines@.len() - i,
    {
        assert(all[i as int] == lines@[i as int]@);
        apply_line(&mut s, lines[i]);
        i += 1;
    }
    s
}

pub fn pcscf_socket(address: IpAddr) -> (r: SocketAddr)
    ensures
        r == (SocketAddr { ip: address, port: SIP_PORT }),
{
    SocketAddr { ip: address, port: SIP_PORT }
}

// ------------------------------------------------------------------ DNS messages

/// A word turned left by five bits.
pub open spec fn turned(h: u16) -> u16 {
    ((h % 2048) * 32 + h / 2048) as u16
}

pub open spec fn query_hash(h: u16, name: Seq<u8>, n: int) -> u16
    decreases n,
{
    if n <= 0 {
        h
    } else {
        turned(query_hash(h, name, n - 1)) ^ (name[n - 1] as u16)
    }
}

/// The number of a query, which its name and type determine.
pub open spec fn query_id(name: Seq<u8>, record_type: u16) -> u16 {
    query_hash(0x5a17u16 ^ record_type, name, name.len() as int)
}

pub fn dns_query_id(name: &str, record_type: u16) -> (r: u16)
    ensures
        r == query_id(encode_utf8(name@), record_type),
{
    let bytes = name.as_bytes();
    let ghost all = bytes@;
    let mut hash: u16 = 0x5a17u16 ^ record_type;
    let mut i: usize = 0;
    while i < bytes.len()
        invariant
            i <= bytes@.len(),
            all == bytes@,
            hash == query_hash(0x5a17u16 ^ record_type, all, i as int),
        decreases bytes@.len() - i,
    {
        hash = ((hash % 2048) * 32 + hash / 2048) ^ (bytes[i] as u16);
        i += 1;
    }
    hash
}

/// Can this be a label of a name that is asked for?
pub open spec fn label_ok(label: Seq<char>) -> bool {
    0 < encode_utf8(label).len() <= 63
}

pub open spec fn labels_wire(labels: Seq<Seq<char>>, n: int) -> Seq<u8>
    decreases n,
{
    if n <= 0 {
        seq![]
    } else {
        labels_wire(labels, n - 1) + seq![encode_utf8(labels[n - 1]).len() as u8] + encode_utf8(
            labels[n - 1],
        )
    }
}

pub open spec fn query_labels(name: Seq<char>) -> Seq<Seq<char>> {
    text::split(text::trim_end_char(name, '.'), '.')
}

pub open spec fn all_labels_ok(labels: Seq<Seq<char>>, n: int) -> bool {
    forall|i: int| 0 <= i < n ==> label_ok(#[trigger] labels[i])
}

/// A query with one question, recursion desired; none for a name that has an
/// empty or too long label.
pub open spec fn query_for(id: u16, name: Seq<char>, record_type: u16) -> Option<Seq<u8>> {
    let labels = query_labels(name);
    if all_labels_ok(labels, labels.len() as int) {
        Some(
            net::word_bytes(id) + net::word_bytes(0x0100) + net::word_bytes(1) + net::word_bytes(
                0,
            ) + net::word_bytes(0) + net::word_bytes(0) + labels_wire(labels, labels.len() as int)
                + seq![0u8] + net::word_bytes(record_type) + net::word_bytes(1),
        )
    } else {
        None
    }
}

fn failed() -> (r: VolteError)
    ensures
        r.code_spec() == code::RUNTIME_ALL_PCSCF_FAILED@,
        r.detail_spec() is None,
{
    CellularImsError::new(code::RUNTIME_ALL_PCSCF_FAILED)
}

pub open spec fn fails_all(e: VolteError) -> bool {
    e.code_spec() == code::RUNTIME_ALL_PCSCF_FAILED@ && e.detail_spec() is None
}

pub fn build_dns_query(id: u16, name: &str, record_type: u16) -> (r: Result<Vec<u8>, VolteError>)
    ensures
        match r {
            Ok(q) => query_for(id, name@, record_type) == Some(q@),
            Err(e) => query_for(id, name@, record_type) is None && fails_all(e),
        },
{
    let chars = text::chars_of(name);
    let parts = text::parts(text::trimmed_end_char(chars.as_slice(), '.'), '.');
    let ghost all = query_labels(name@);
    let mut out: Vec<u8> = Vec::new();
    push_word(&mut out, id);
    push_word(&mut out, 0x0100);
    push_word(&mut out, 1);
    push_word(&mut out, 0);
    push_word(&mut out, 0);
    push_word(&mut out, 0);
    let ghost head = out@;
    let mut i: usize = 0;
    assert(parts@.len() == text::views(parts@).len());
    assert(out@ =~= head + labels_wire(all, 0));
    while i < parts.len()
        invariant
            i <= parts@.len(),
            all == text::views(parts@),
            all == query_labels(name@),
            all_labels_ok(all, i as int),
            out@ == head + labels_wire(all, i as int),
        decreases parts@.len() - i,
    {
        assert(all[i as int] == parts@[i as int]@);
        let label = utf8::encode(parts[i]);
        if label.len() == 0 || label.len() > 63 {
            assert(!label_ok(all[i as int]));
            return Err(failed());
        }
        out.push(label.len() as u8);
        push_bytes(&mut out, label.as_slice());
        i += 1;
        assert(out@ =~= head + labels_wire(all, i as int));
    }
    out.push(0);
    push_word(&mut out, record_type);
    push_word(&mut out, 1);
    assert(out@ =~= net::word_bytes(id) + net::word_bytes(0x0100) + net::word_bytes(1)
        + net::word_bytes(0) + net::word_bytes(0) + net::word_bytes(0) + labels_wire(
        all,
        all.len() as int,
    ) + seq![0u8] + net::word_bytes(record_type) + net::word_bytes(1));
    Ok(out)
}

/// Reading a name: where, what was read, and where its encoding ends.
pub struct NameScan {
    pub offset: int,
    pub words: Seq<char>,
    pub any: bool,
    pub end: Option<int>,
}

pub open spec fn with_name_label(s: NameScan, label: Seq<char>, next: int) -> NameScan {
    NameScan {
        offset: next,
        words: if s.any {
            s.words + "."@ + label
        } else {
            label
        },
        any: true,
        ..s
    }
}

/// The name from here on, pointers followed, and the end of its encoding.
pub open spec fn name_from(p: Seq<u8>, s: NameScan, steps: nat) -> Option<(Seq<char>, int)>
    decreases steps,
{
    let at = s.offset;
    if steps == 0 || at < 0 || at >= p.len() {
        None
    } else if p[at] == 0 {
        Some(
            (
                s.words,
                match s.end {
                    Some(end) => end,
                    None => at + 1,
                },
            ),
        )
    } else if p[at] >= 192 {
        if at + 1 >= p.len() {
            None
        } else {
            name_from(
                p,
                NameScan {
                    offset: (p[at] - 192) * 256 + p[at + 1],
                    end: match s.end {
                        Some(end) => Some(end),
                        None => Some(at + 2),
                    },
                    ..s
                },
                (steps - 1) as nat,
            )
        }
    } else if p[at] >= 64 {
        None
    } else if at + 1 + p[at] > p.len() {
        None
    } else {
        let label = p.subrange(at + 1, at + 1 + p[at]);
        if valid_utf8(label) {
            name_from(
                p,
                with_name_label(s, decode_utf8(label), at + 1 + p[at]),
                (steps - 1) as nat,
            )
        } else {
            None
        }
    }
}

pub open spec fn name_at(p: Seq<u8>, start: int) -> Option<(Seq<char>, int)> {
    name_from(
        p,
        NameScan { offset: start, words: seq![], any: false, end: None },
        NAME_STEPS as nat,
    )
}

pub fn read_dns_name(packet: &[u8], start: usize) -> (r: Result<(String, usize), VolteError>)
    ensures
        match r {
            Ok((name, end)) => name_at(packet@, start as int) == Some((name@, end as int)) && end
                <= packet@.len(),
            Err(e) => name_at(packet@, start as int) is None && fails_all(e),
        },
{
    let mut words: Vec<char> = Vec::new();
    let mut any: bool = false;
    let mut offset: usize = start;
    let mut end: Option<usize> = None;
    let mut steps: usize = NAME_STEPS;
    let total: usize = packet.len();
    assert(words@ =~= seq![]);
    while steps > 0
        invariant
            total == packet@.len(),
            end matches Some(e) ==> e <= total,
            name_at(packet@, start as int) == name_from(
                packet@,
                NameScan {
                    offset: offset as int,
                    words: words@,
                    any,
                    end: match end {
                        Some(e) => Some(e as int),
                        None => None,
                    },
                },
                steps as nat,
            ),
        decreases steps,
    {
        if offset >= total {
            return Err(failed());
        }
        let length: u8 = packet[offset];
        if length == 0 {
            let done: usize = match end {
                Some(e) => e,
                None => offset + 1,
            };
            return Ok((text::string_of(words.as_slice()), done));
        }
        if length >= 192 {
            if total - offset < 2 {
                return Err(failed());
            }
            let low: u8 = packet[offset + 1];
            if end.is_none() {
                end = Some(offset + 2);
            }
            offset = (length - 192) as usize * 256 + low as usize;
        } else {
            if length >= 64 {
                return Err(failed());
            }
            if total - offset - 1 < length as usize {
                return Err(failed());
            }
            let next: usize = offset + 1 + length as usize;
            let label = match utf8::decode_strict(slice_subrange(packet, offset + 1, next)) {
                Some(label) => label,
                None => {
                    return Err(failed());
                },
            };
            if any {
                text::push_str(&mut words, ".");
                text::push_str(&mut words, label.as_str());
            } else {
                words = text::chars_of(label.as_str());
            }
            any = true;
            offset = next;
        }
        steps -= 1;
    }
    Err(failed())
}

/// What an answer holds: the addresses, and the names that services are at.
#[derive(Debug, PartialEq, Eq)]
pub struct DnsRecords {
    pub addresses: Vec<IpAddr>,
    pub srv_targets: Vec<String>,
}

#[verifier::ext_equal]
pub struct Records {
    pub addresses: Seq<IpAddr>,
    pub srv_targets: Seq<Seq<char>>,
}

impl View for DnsRecords {
    type V = Records;

    open spec fn view(&self) -> Records {
        Records { addresses: self.addresses@, srv_targets: text::texts(self.srv_targets@) }
    }
}

pub open spec fn no_records() -> Records {
    Records { addresses: seq![], srv_targets: seq![] }
}

/// Where the questions of a message end.
pub open spec fn after_questions(p: Seq<u8>, at: int, n: nat) -> Option<int>
    decreases n,
{
    if n == 0 {
        Some(at)
    } else {
        match name_at(p, at) {
            None => None,
            Some((name, end)) => if end + 4 > p.len() {
                None
            } else {
                after_questions(p, end + 4, (n - 1) as nat)
            },
        }
    }
}

pub open spec fn with_target(r: Records, target: Seq<char>) -> Records {
    if target.len() == 0 || r.srv_targets.contains(target) {
        r
    } else {
        Records { srv_targets: r.srv_targets.push(target), ..r }
    }
}

/// Records with the data of one more.
pub open spec fn with_record(
    r: Records,
    p: Seq<u8>,
    record_type: int,
    data: int,
    length: int,
) -> Option<Records> {
    if record_type == TYPE_A && length == 4 {
        Some(
            Records {
                addresses: r.addresses.push(net::v4_of(p.subrange(data, data + 4))),
                ..r
            },
        )
    } else if record_type == TYPE_AAAA && length == 16 {
        Some(
            Records {
                addresses: r.addresses.push(net::v6_of(p.subrange(data, data + 16))),
                ..r
            },
        )
    } else if record_type == TYPE_SRV && length >= 6 {
        match name_at(p, data + 6) {
            None => None,
            Some((target, end)) => Some(with_target(r, target)),
        }
    } else {
        Some(r)
    }
}

/// The records from here on, after those that were read.
pub open spec fn records_from(p: Seq<u8>, at: int, n: nat, r: Records) -> Option<Records>
    decreases n,
{
    if n == 0 {
        Some(r)
    } else {
        match name_at(p, at) {
            None => None,
            Some((name, end)) => if end + 10 > p.len() {
                None
            } else {
                let length = net::word_at(p, end + 8);
                if end + 10 + length > p.len() {
                    None
                } else {
                    match with_record(r, p, net::word_at(p, end), end + 10, length) {
                        None => None,
                        Some(more) => records_from(p, end + 10 + length, (n - 1) as nat, more),
                    }
                }
            },
        }
    }
}

/// What the answer to a query holds; nothing where it is not one, or reports a
/// failure, or cannot be read.
pub open spec fn records_in(id: u16, p: Seq<u8>) -> Option<Records> {
    if p.len() < 12 || net::word_at(p, 0) != id || p[3] % 16 != 0 {
        None
    } else {
        match after_questions(p, 12, net::word_at(p, 4) as nat) {
            None => None,
            Some(at) => records_from(
                p,
                at,
                (net::word_at(p, 6) + net::word_at(p, 8) + net::word_at(p, 10)) as nat,
                no_records(),
            ),
        }
    }
}

fn skip_questions(packet: &[u8], from: usize, count: u16) -> (r: Result<usize, VolteError>)
    ensures
        match r {
            Ok(at) => after_questions(packet@, from as int, count as nat) == Some(at as int) && (at
                == from || at <= packet@.len()),
            Err(e) => after_questions(packet@, from as int, count as nat) is None && fails_all(e),
        },
{
    let mut at: usize = from;
    let mut left: u16 = count;
    while left > 0
        invariant
            at == from || at <= packet@.len(),
            after_questions(packet@, from as int, count as nat) == after_questions(
                packet@,
                at as int,
                left as nat,
            ),
        decreases left,
    {
        match read_dns_name(packet, at) {
            Err(e) => {
                return Err(failed());
            },
            Ok((name, end)) => {
                if packet.len() - end < 4 {
                    return Err(failed());
                }
                at = end + 4;
            },
        }
        left -= 1;
    }
    Ok(at)
}

fn has_string(list: &Vec<String>, item: &str) -> (r: bool)
    ensures
        r == text::texts(list@).contains(item@),
{
    let ghost all = text::texts(list@);
    let mut i: usize = 0;
    while i < list.len()
        invariant
            i <= list@.len(),
            all == text::texts(list@),
            forall|j: int| 0 <= j < i ==> #[trigger] all[j] != item@,
        decreases list@.len() - i,
    {
        assert(all[i as int] == list@[i as int]@);
        if text::str_same(list[i].as_str(), item) {
            return true;
        }
        i += 1;
    }
    false
}

fn read_record(
    records: &mut DnsRecords,
    packet: &[u8],
    record_type: u16,
    data: usize,
    length: usize,
) -> (r: bool)
    requires
        data + length <= packet@.len(),
    ensures
        match with_record(old(records)@, packet@, record_type as int, data as int, length as int) {
            Some(after) => r && final(records)@ == after,
            None => !r,
        },
{
    let total: usize = packet.len();
    assert(data + length <= total);
    if record_type == TYPE_A && length == 4 {
        records.addresses.push(v4_from(slice_subrange(packet, data, data + 4)));
    } else if record_type == TYPE_AAAA && length == 16 {
        records.addresses.push(v6_from(slice_subrange(packet, data, data + 16)));
    } else if record_type == TYPE_SRV && length >= 6 {
        match read_dns_name(packet, data + 6) {
            Err(e) => {
                return false;
            },
            Ok((target, end)) => {
                let chars = text::chars_of(target.as_str());
                if chars.len() > 0 && !has_string(&records.srv_targets, target.as_str()) {
                    let ghost before = text::texts(records.srv_targets@);
                    records.srv_targets.push(target);
                    assert(text::texts(records.srv_targets@) =~= before.push(target@));
                }
            },
        }
    }
    true
}

pub fn parse_dns_response(id: u16, packet: &[u8]) -> (r: Result<DnsRecords, VolteError>)
    ensures
        match r {
            Ok(records) => records_in(id, packet@) == Some(records@),
            Err(e) => records_in(id, packet@) is None && fails_all(e),
        },
{
    if packet.len() < 12 || be16(packet, 0) != id {
        return Err(failed());
    }
    if packet[3] % 16 != 0 {
        return Err(failed());
    }
    let total: u32 = be16(packet, 6) as u32 + be16(packet, 8) as u32 + be16(packet, 10) as u32;
    let start: usize = match skip_questions(packet, 12, be16(packet, 4)) {
        Ok(at) => at,
        Err(e) => {
            return Err(failed());
        },
    };
    let mut records = DnsRecords { addresses: Vec::new(), srv_targets: Vec::new() };
    assert(records@ =~= no_records());
    let mut at: usize = start;
    let mut left: u32 = total;
    while left > 0
        invariant
            records_in(id, packet@) == records_from(packet@, at as int, left as nat, records@),
        decreases left,
    {
        let end: usize = match read_dns_name(packet, at) {
            Err(e) => {
                return Err(failed());
            },
            Ok((name, end)) => end,
        };
        if packet.len() - end < 10 {
            return Err(failed());
        }
        let record_type: u16 = be16(packet, end);
        let length: usize = be16(packet, end + 8) as usize;
        let data: usize = end + 10;
        if packet.len() - data < length {
            return Err(failed());
        }
        if !read_record(&mut records, packet, record_type, data, length) {
            return Err(failed());
        }
        at = data + length;
        left -= 1;
    }
    Ok(records)
}

// --------------------------------------------------------------------- discovery

/// Which question a server is asked next.
#[derive(Debug, Clone, Copy, PartialEq, Eq, Structural)]
pub enum SearchStage {
    /// The address of the P-CSCF name of the home domain.
    Name,
    /// Where a service is: over datagrams first, then over streams.
    Service(bool),
    /// The address of one of the names that a service is at.
    Target(bool, usize),
}

/// A search for the P-CSCF: one question after the other.
#[derive(Debug)]
pub struct PcscfSearch {
    pub local: IpAddr,
    pub servers: Vec<IpAddr>,
    pub home_domain: String,
    pub server: usize,
    pub stage: SearchStage,
    pub targets: Vec<String>,
}

#[verifier::ext_equal]
pub struct Search {
    pub local: IpAddr,
    pub servers: Seq<IpAddr>,
    pub home_domain: Seq<char>,
    pub server: int,
    pub stage: SearchStage,
    pub targets: Seq<Seq<char>>,
}

impl View for PcscfSearch {
    type V = Search;

    open spec fn view(&self) -> Search {
        Search {
            local: self.local,
            servers: self.servers@,
            home_domain: self.home_domain@,
            server: self.server as int,
            stage: self.stage,
            targets: text::texts(self.targets@),
        }
    }
}

/// A question for a DNS server.
#[derive(Debug, PartialEq, Eq)]
pub struct DnsQuestion {
    pub server: IpAddr,
    pub name: String,
    pub record_type: u16,
}

#[verifier::ext_equal]
pub struct Question {
    pub server: IpAddr,
    pub name: Seq<char>,
    pub record_type: u16,
}

impl View for DnsQuestion {
    type V = Question;

    open spec fn view(&self) -> Question {
        Question { server: self.server, name: self.name@, record_type: self.record_type }
    }
}

pub open spec fn address_type(local: IpAddr) -> u16 {
    if local is V6 {
        TYPE_AAAA
    } else {
        TYPE_A
    }
}

/// A search is at a server that there is, and at a name that there is.
pub open spec fn search_wf(s: Search) -> bool {
    &&& 0 <= s.server <= s.servers.len()
    &&& s.stage matches SearchStage::Target(streams, i) ==> i < s.targets.len()
}

/// What is asked next; nothing once all servers were asked.
pub open spec fn next_question(s: Search) -> Option<Question> {
    if s.server >= s.servers.len() {
        None
    } else {
        let server = s.servers[s.server];
        match s.stage {
            SearchStage::Name => Some(
                Question {
                    server,
                    name: "pcscf."@ + s.home_domain,
                    record_type: address_type(s.local),
                },
            ),
            SearchStage::Service(streams) => Some(
                Question {
                    server,
                    name: if streams {
                        "_sip._tcp."@ + s.home_domain
                    } else {
                        "_sip._udp."@ + s.home_domain
                    },
                    record_type: TYPE_SRV,
                },
            ),
            SearchStage::Target(streams, i) => Some(
                Question {
                    server,
                    name: s.targets[i as int],
                    record_type: address_type(s.local),
                },
            ),
        }
    }
}

/// The first address of the family of another.
pub open spec fn first_alike(list: Seq<IpAddr>, local: IpAddr, from: int) -> Option<IpAddr>
    decreases list.len() - from,
{
    if from < 0 || from >= list.len() {
        None
    } else if alike_family(list[from], local) {
        Some(list[from])
    } else {
        first_alike(list, local, from + 1)
    }
}

pub open spec fn found_in(reply: Option<Records>, local: IpAddr) -> Option<IpAddr> {
    match reply {
        Some(r) => first_alike(r.addresses, local, 0),
        None => None,
    }
}

/// A search after all that was to ask of a service.
pub open spec fn after_service(s: Search, streams: bool) -> Search {
    if streams {
        Search { server: s.server + 1, stage: SearchStage::Name, targets: seq![], ..s }
    } else {
        Search { stage: SearchStage::Service(true), targets: seq![], ..s }
    }
}

/// A search after a reply, or after none came: what is left of it, and the
/// address that it found.
pub open spec fn search_step(s: Search, reply: Option<Records>) -> (Search, Option<IpAddr>) {
    if s.server >= s.servers.len() {
        (s, None)
    } else {
        match s.stage {
            SearchStage::Name => match found_in(reply, s.local) {
                Some(a) => (s, Some(a)),
                None => (Search { stage: SearchStage::Service(false), ..s }, None),
            },
            SearchStage::Service(streams) => match reply {
                Some(r) => if r.srv_targets.len() > 0 {
                    (
                        Search {
                            stage: SearchStage::Target(streams, 0),
                            targets: r.srv_targets,
                            ..s
                        },
                        None,
                    )
                } else {
                    (after_service(s, streams), None)
                },
                None => (after_service(s, streams), None),
            },
            SearchStage::Target(streams, i) => match found_in(reply, s.local) {
                Some(a) => (s, Some(a)),
                None => if i + 1 < s.targets.len() {
                    (Search { stage: SearchStage::Target(streams, (i + 1) as usize), ..s }, None)
                } else {
                    (after_service(s, streams), None)
                },
            },
        }
    }
}

fn find_alike(list: &Vec<IpAddr>, local: IpAddr) -> (r: Option<IpAddr>)
    ensures
        r == first_alike(list@, local, 0),
{
    let mut i: usize = 0;
    while i < list.len()
        invariant
            i <= list@.len(),
            first_alike(list@, local, 0) == first_alike(list@, local, i as int),
        decreases list@.len() - i,
    {
        if list[i].is_ipv4() == local.is_ipv4() {
            return Some(list[i]);
        }
        i += 1;
    }
    None
}

fn joined(prefix: &str, rest: &str) -> (r: String)
    ensures
        r@ == prefix@ + rest@,
{
    let mut out = text::chars_of(prefix);
    text::push_str(&mut out, rest);
    text::string_of(out.as_slice())
}

impl PcscfSearch {
    pub open spec fn wf(&self) -> bool {
        search_wf(self@)
    }

    /// What to ask next.
    pub fn question(&self) -> (r: Option<DnsQuestion>)
        requires
            self.wf(),
        ensures
            match r {
                Some(q) => next_question(self@) == Some(q@),
                None => next_question(self@) is None,
            },
    {
        if self.server >= self.servers.len() {
            return None;
        }
        let server = self.servers[self.server];
        let kind: u16 = if self.local.is_ipv6() {
            TYPE_AAAA
        } else {
            TYPE_A
        };
        let (name, record_type): (String, u16) = match self.stage {
            SearchStage::Name => (joined("pcscf.", self.home_domain.as_str()), kind),
            SearchStage::Service(streams) => {
                if streams {
                    (joined("_sip._tcp.", self.home_domain.as_str()), TYPE_SRV)
                } else {
                    (joined("_sip._udp.", self.home_domain.as_str()), TYPE_SRV)
                }
            },
            SearchStage::Target(streams, i) => {
                assert(self@.targets[i as int] == self.targets@[i as int]@);
                (copy_str(self.targets[i].as_str()), kind)
            },
        };
        Some(DnsQuestion { server, name, record_type })
    }

    fn leave_service(&mut self, streams: bool)
        requires
            old(self).server < old(self).servers@.len(),
        ensures
            final(self)@ == after_service(old(self)@, streams),
    {
        let count: usize = self.servers.len();
        assert(self.server < count);
        self.targets = Vec::new();
        assert(text::texts(self.targets@) =~= seq![]);
        if streams {
            self.server = self.server + 1;
            self.stage = SearchStage::Name;
        } else {
            self.stage = SearchStage::Service(true);
        }
        assert(self@ =~= after_service(old(self)@, streams));
    }

    /// Takes the reply to the question, or notes that none came.
    pub fn reply(&mut self, reply: Option<DnsRecords>) -> (r: Option<IpAddr>)
        requires
            old(self).wf(),
        ensures
            final(self).wf(),
            (final(self)@, r) == search_step(
                old(self)@,
                match reply {
                    Some(records) => Some(records@),
                    None => None,
                },
            ),
    {
        if self.server >= self.servers.len() {
            return None;
        }
        match self.stage {
            SearchStage::Name => {
                if let Some(records) = &reply {
                    if let Some(a) = find_alike(&records.addresses, self.local) {
                        return Some(a);
                    }
                }
                self.stage = SearchStage::Service(false);
            },
            SearchStage::Service(streams) => {
                if let Some(records) = reply {
                    assert(records@.srv_targets.len() == records.srv_targets@.len());
                    if records.srv_targets.len() > 0 {
                        self.targets = records.srv_targets;
                        self.stage = SearchStage::Target(streams, 0);
                        return None;
                    }
                }
                self.leave_service(streams);
            },
            SearchStage::Target(streams, i) => {
                if let Some(records) = &reply {
                    if let Some(a) = find_alike(&records.addresses, self.local) {
                        return Some(a);
                    }
                }
                assert(self@.targets.len() == self.targets@.len());
                let total: usize = self.targets.len();
                if i + 1 < total {
                    self.stage = SearchStage::Target(streams, i + 1);
                } else {
                    self.leave_service(streams);
                }
            },
        }
        None
    }
}

/// How discovery goes on: the address is known, or the DNS servers are asked.
#[derive(Debug)]
pub enum Discovery {
    Known(IpAddr),
    Ask(PcscfSearch),
}

pub enum DiscoverySpec {
    Known(IpAddr),
    Ask(Search),
    Failed(Seq<char>),
}

pub open spec fn discovery_of(d: Result<Discovery, VolteError>) -> DiscoverySpec {
    match d {
        Ok(Discovery::Known(a)) => DiscoverySpec::Known(a),
        Ok(Discovery::Ask(s)) => DiscoverySpec::Ask(s@),
        Err(e) => DiscoverySpec::Failed(e.code_spec()),
    }
}

pub open spec fn matched_discovery(s: Settings, pcscf: IpAddr) -> DiscoverySpec {
    match matched(s, pcscf) {
        Ok(a) => DiscoverySpec::Known(a),
        Err(e) => DiscoverySpec::Failed(e),
    }
}

/// The servers of the family of the local address.
pub open spec fn servers_alike(list: Seq<IpAddr>, local: IpAddr, n: int) -> Seq<IpAddr>
    decreases n,
{
    if n <= 0 {
        seq![]
    } else if alike_family(list[n - 1], local) {
        servers_alike(list, local, n - 1).push(list[n - 1])
    } else {
        servers_alike(list, local, n - 1)
    }
}

pub open spec fn dns_of(s: Settings, local: IpAddr) -> Seq<IpAddr> {
    if local is V6 {
        s.ipv6_dns
    } else {
        s.ipv4_dns
    }
}

pub open spec fn explicit_pcscf(explicit: Option<Seq<char>>) -> Option<IpAddr> {
    match explicit {
        Some(value) => ip_text::ip_text(text::trim(value)),
        None => None,
    }
}

/// How the discovery begins. An address that was set by hand wins over one that
/// came with the bearer; either has to be of the local family.
pub open spec fn discovery_start(
    s: Settings,
    home_domain: Seq<char>,
    explicit: Option<Seq<char>>,
) -> DiscoverySpec {
    match explicit_pcscf(explicit) {
        Some(a) => matched_discovery(s, a),
        None => if s.pcscf.len() > 0 {
            matched_discovery(s, s.pcscf[0])
        } else {
            match local_of(s) {
                None => DiscoverySpec::Failed(code::IP_SETTINGS_MISSING@),
                Some(local) => DiscoverySpec::Ask(
                    Search {
                        local,
                        servers: servers_alike(
                            dns_of(s, local),
                            local,
                            dns_of(s, local).len() as int,
                        ),
                        home_domain,
                        server: 0,
                        stage: SearchStage::Name,
                        targets: seq![],
                    },
                ),
            }
        },
    }
}

fn keep_alike(list: &Vec<IpAddr>, local: IpAddr) -> (r: Vec<IpAddr>)
    ensures
        r@ == servers_alike(list@, local, list@.len() as int),
{
    let mut out: Vec<IpAddr> = Vec::new();
    let mut i: usize = 0;
    while i < list.len()
        invariant
            i <= list@.len(),
            out@ == servers_alike(list@, local, i as int),
        decreases list@.len() - i,
    {
        if list[i].is_ipv4() == local.is_ipv4() {
            out.push(list[i]);
        }
        i += 1;
    }
    out
}

fn matched_known(settings: &ImsIpSettings, pcscf: IpAddr) -> (r: Result<Discovery, VolteError>)
    ensures
        discovery_of(r) == matched_discovery(settings@, pcscf),
        r matches Err(e) ==> e.detail_spec() is None,
{
    match settings.ensure_family_match(pcscf) {
        Ok(a) => Ok(Discovery::Known(a)),
        Err(e) => Err(e),
    }
}

/// Begins to look for the P-CSCF. Where every question was asked in vain, the
/// address is that of `ImsIpSettings::resolve_pcscf`: some networks give it in
/// place of a DNS server.
pub fn discover_pcscf(
    settings: &ImsIpSettings,
    home_domain: &str,
    explicit: &Option<String>,
) -> (r: Result<Discovery, VolteError>)
    ensures
        discovery_of(r) == discovery_start(settings@, home_domain@, text::opt_text(*explicit)),
        r matches Ok(Discovery::Ask(s)) ==> s.wf(),
        r matches Err(e) ==> e.detail_spec() is None,
{
    if let Some(value) = explicit {
        let chars = text::chars_of(value.as_str());
        if let Some(a) = ip_text::parse_ip_chars(text::trimmed(chars.as_slice())) {
            return matched_known(settings, a);
        }
    }
    if settings.pcscf.len() > 0 {
        return matched_known(settings, settings.pcscf[0]);
    }
    let local = match settings.local_addr() {
        Some(local) => local,
        None => {
            return Err(CellularImsError::new(code::IP_SETTINGS_MISSING));
        },
    };
    let servers = if local.is_ipv6() {
        keep_alike(&settings.ipv6_dns, local)
    } else {
        keep_alike(&settings.ipv4_dns, local)
    };
    let s = PcscfSearch {
        local,
        servers,
        home_domain: copy_str(home_domain),
        server: 0,
        stage: SearchStage::Name,
        targets: Vec::new(),
    };
    assert(s@.targets =~= seq![]);
    Ok(Discovery::Ask(s))
}

// -------------------------------------------------------------------------- laws

proof fn lemma_first_alike(list: Seq<IpAddr>, local: IpAddr, from: int)
    ensures
        first_alike(list, local, from) matches Some(a) ==> alike_family(a, local) && list.contains(
            a,
        ),
    decreases list.len() - from,
{
    if 0 <= from < list.len() && !alike_family(list[from], local) {
        lemma_first_alike(list, local, from + 1);
    }
}

/// An address that a search finds is of the family of the local address, and came
/// with the reply.
pub proof fn law_found_address_can_be_reached(s: Search, reply: Option<Records>)
    ensures
        search_step(s, reply).1 matches Some(a) ==> alike_family(a, s.local)
            && reply is Some && reply->0.addresses.contains(a),
{
    if reply is Some {
        lemma_first_alike(reply->0.addresses, s.local, 0);
    }
}

/// How much of a search is left to do at a server.
pub open spec fn stage_left(stage: SearchStage) -> int {
    match stage {
        SearchStage::Name => 5,
        SearchStage::Service(streams) => if streams {
            2
        } else {
            4
        },
        SearchStage::Target(streams, i) => if streams {
            1
        } else {
            3
        },
    }
}

pub open spec fn targets_left(s: Search) -> int {
    match s.stage {
        SearchStage::Target(streams, i) => s.targets.len() - i,
        _ => 0,
    }
}

/// Every reply that does not end a search brings it nearer to its end: to a later
/// server, a later stage or a later name. So a search asks only so many questions.
pub proof fn law_search_comes_to_an_end(s: Search, reply: Option<Records>)
    requires
        search_wf(s),
        next_question(s) is Some,
        search_step(s, reply).1 is None,
        s.targets.len() <= usize::MAX,
    ensures
        ({
            let after = search_step(s, reply).0;
            &&& search_wf(after)
            &&& after.servers == s.servers
            &&& decreases_to!(
                s.servers.len() - s.server, stage_left(s.stage), targets_left(s)
                => after.servers.len() - after.server, stage_left(after.stage), targets_left(after))
        }),
{
}

} // verus!
