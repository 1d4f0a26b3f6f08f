//! Bounded DNS parsing for the P-CSCF resolver.
//!
//! Only the answer to the exact IN question, or to its answer-section CNAME
//! chain, may supply an endpoint. Authority and additional glue is never a SIP
//! destination. This validates association and framing, not DNS authenticity.

use crate::cellular_ims::errors::code;
use crate::cellular_ims::errors::CellularImsError;
use crate::net::{be16, bytes_same, has_addr, push_bytes, push_word, to_bytes, v4_from, v6_from};
use crate::net::{IpAddr, SocketAddr};
use crate::text::{chars_of, parts, push_str, str_same, string_of};
use crate::{net, text};
use vstd::prelude::*;
use vstd::slice::slice_subrange;

verus! {

broadcast use vstd::seq_lib::group_seq_properties;

pub const IN: u16 = 1;

pub const A: u16 = 1;

pub const AAAA: u16 = 28;

pub const CNAME: u16 = 5;

pub const SRV: u16 = 33;

pub const OPT: u16 = 41;

pub const MAX_CNAME_HOPS: usize = 8;

/// How far a name may be followed through its labels and pointers.
pub const MAX_NAME_STEPS: usize = 128;

/// Is `e` the failure of this resolver for `reason`?
pub open spec fn fails_with(e: CellularImsError, reason: Seq<char>) -> bool {
    &&& e.code_spec() == code::RUNTIME_ALL_PCSCF_FAILED@
    &&& e.detail_spec() == Some("dns_"@ + reason)
}

fn invalid(reason: &str) -> (e: CellularImsError)
    ensures
        fails_with(e, reason@),
{
    let mut detail: Vec<char> = chars_of("dns_");
    push_str(&mut detail, reason);
    CellularImsError::with_detail(code::RUNTIME_ALL_PCSCF_FAILED, string_of(detail.as_slice()))
}

// --------------------------------------------------------------------- names

/// A byte that a host name may hold.
pub open spec fn host_byte(b: u8) -> bool {
    48 <= b <= 57 || 65 <= b <= 90 || 97 <= b <= 122 || b == 45 || b == 95
}

pub open spec fn host_char(c: char) -> bool {
    c as u32 <= 127 && host_byte(c as u8)
}

pub open spec fn lower_byte(b: u8) -> u8 {
    if 65 <= b <= 90 {
        (b + 32) as u8
    } else {
        b
    }
}

pub open spec fn lower_bytes(s: Seq<u8>) -> Seq<u8> {
    Seq::new(s.len(), |i: int| lower_byte(s[i]))
}

fn is_host_byte(b: u8) -> (r: bool)
    ensures
        r == host_byte(b),
{
    (48 <= b && b <= 57) || (65 <= b && b <= 90) || (97 <= b && b <= 122) || b == 45 || b == 95
}

fn to_lower_byte(b: u8) -> (r: u8)
    ensures
        r == lower_byte(b),
{
    if 65 <= b && b <= 90 {
        b + 32
    } else {
        b
    }
}

/// Labels stay separate: a wire label that holds '.' is not two labels.
#[derive(Debug, Clone)]
pub struct Name(pub Vec<Vec<u8>>);

pub open spec fn labels_of(v: Seq<Vec<u8>>) -> Seq<Seq<u8>> {
    Seq::new(v.len(), |i: int| v[i]@)
}

impl View for Name {
    type V = Seq<Seq<u8>>;

    open spec fn view(&self) -> Seq<Seq<u8>> {
        labels_of(self.0@)
    }
}

/// What a host name's label must be.
pub open spec fn valid_label(s: Seq<char>) -> bool {
    &&& 0 < s.len() <= 63
    &&& forall|i: int| 0 <= i < s.len() ==> host_char(#[trigger] s[i])
}

pub open spec fn label_bytes(s: Seq<char>) -> Seq<u8> {
    Seq::new(s.len(), |i: int| lower_byte(s[i] as u8))
}

/// The octets that a name takes on the wire, its root included.
pub open spec fn wire_size(labels: Seq<Seq<u8>>) -> nat
    decreases labels.len(),
{
    if labels.len() == 0 {
        1
    } else {
        wire_size(labels.drop_last()) + labels.last().len() + 1
    }
}

/// A host name without one trailing dot.
pub open spec fn bare_host(s: Seq<char>) -> Seq<char> {
    if s.len() > 0 && s.last() == '.' {
        s.drop_last()
    } else {
        s
    }
}

/// The labels of a host name.
pub open spec fn host_labels(s: Seq<char>) -> Seq<Seq<u8>> {
    let parts = text::split(bare_host(s), '.');
    Seq::new(parts.len(), |i: int| label_bytes(parts[i]))
}

/// The labels of a host name that can be asked for, or why it cannot.
pub open spec fn host_name(s: Seq<char>) -> Result<Seq<Seq<u8>>, Seq<char>> {
    let parts = text::split(bare_host(s), '.');
    if !(forall|i: int| 0 <= i < parts.len() ==> valid_label(#[trigger] parts[i])) {
        Err("query_name"@)
    } else if wire_size(host_labels(s)) > 255 {
        Err("name_too_long"@)
    } else {
        Ok(host_labels(s))
    }
}

fn label_of(s: &[char]) -> (r: Option<Vec<u8>>)
    ensures
        match r {
            Some(v) => valid_label(s@) && v@ == label_bytes(s@) && v@.len() <= 63,
            None => !valid_label(s@),
        },
{
    if s.len() == 0 || s.len() > 63 {
        return None;
    }
    let mut v: Vec<u8> = Vec::new();
    let mut i: usize = 0;
    while i < s.len()
        invariant
            i <= s@.len() <= 63,
            v@.len() == i,
            forall|k: int| 0 <= k < i ==> host_char(#[trigger] s@[k]),
            forall|k: int| 0 <= k < i ==> v@[k] == lower_byte(s@[k] as u8),
        decreases s@.len() - i,
    {
        let c: char = s[i];
        if c as u32 > 127 || !is_host_byte(c as u8) {
            assert(!host_char(s@[i as int]));
            return None;
        }
        v.push(to_lower_byte(c as u8));
        i += 1;
    }
    assert(v@ =~= label_bytes(s@));
    Some(v)
}

/// The text of a name: its labels, joined by dots.
pub open spec fn joined(labels: Seq<Seq<u8>>) -> Seq<char>
    decreases labels.len(),
{
    if labels.len() == 0 {
        Seq::empty()
    } else {
        let last = Seq::new(labels.last().len(), |i: int| labels.last()[i] as char);
        if labels.len() == 1 {
            last
        } else {
            joined(labels.drop_last()).push('.') + last
        }
    }
}

pub open spec fn all_host_bytes(s: Seq<u8>) -> bool {
    forall|i: int| 0 <= i < s.len() ==> host_byte(#[trigger] s[i])
}

/// A name's text, where it is a host name and not the root.
pub open spec fn name_text(labels: Seq<Seq<u8>>) -> Option<Seq<char>> {
    if labels.len() == 0 || !(forall|i: int|
        0 <= i < labels.len() ==> all_host_bytes(#[trigger] labels[i])) {
        None
    } else {
        Some(joined(labels))
    }
}

/// A name on the wire.
pub open spec fn name_wire(labels: Seq<Seq<u8>>) -> Seq<u8> {
    labels_wire(labels).push(0)
}

pub open spec fn labels_wire(labels: Seq<Seq<u8>>) -> Seq<u8>
    decreases labels.len(),
{
    if labels.len() == 0 {
        Seq::empty()
    } else {
        labels_wire(labels.drop_last()).push(labels.last().len() as u8) + labels.last()
    }
}

impl Name {
    pub fn host(value: &str) -> (r: Result<Name, CellularImsError>)
        ensures
            match r {
                Ok(name) => host_name(value@) == Ok::<Seq<Seq<u8>>, Seq<char>>(name@),
                Err(e) => host_name(value@) is Err && fails_with(e, host_name(value@)->Err_0),
            },
    {
        let all = chars_of(value);
        let bare = if all.len() > 0 && all[all.len() - 1] == '.' {
            slice_subrange(all.as_slice(), 0, all.len() - 1)
        } else {
            all.as_slice()
        };
        assert(bare@ =~= bare_host(value@));
        let pieces = parts(bare, '.');
        let ghost want = text::split(bare_host(value@), '.');
        let mut labels: Vec<Vec<u8>> = Vec::new();
        let mut size: usize = 1;
        let mut i: usize = 0;
        let mut long: bool = false;
        while i < pieces.len()
            invariant
                i <= pieces@.len(),
                want == text::split(bare_host(value@), '.'),
                text::views(pieces@) == want,
                labels@.len() == i,
                forall|k: int| 0 <= k < i ==> valid_label(#[trigger] want[k]),
                forall|k: int| 0 <= k < i ==> labels@[k]@ == label_bytes(want[k]),
                long == (wire_size(labels_of(labels@)) > 255),
                !long ==> size == wire_size(labels_of(labels@)),
            decreases pieces@.len() - i,
        {
            assert(want[i as int] == pieces@[i as int]@);
            match label_of(pieces[i]) {
                None => {
                    assert(!valid_label(want[i as int]));
                    return Err(invalid("query_name"));
                },
                Some(label) => {
                    let ghost before = labels_of(labels@);
                    if !long {
                        size = size + label.len() + 1;
                        long = size > 255;
                    }
                    labels.push(label);
                    assert(labels_of(labels@).drop_last() =~= before);
                },
            }
            i += 1;
        }
        assert(labels_of(labels@) =~= host_labels(value@));
        if long {
            return Err(invalid("name_too_long"));
        }
        Ok(Name(labels))
    }

    pub fn host_text(&self) -> (r: Option<String>)
        ensures
            text::opt_text(r) == name_text(self@),
    {
        if self.0.len() == 0 {
            return None;
        }
        let mut out: Vec<char> = Vec::new();
        let mut i: usize = 0;
        assert(self@.take(0) =~= Seq::empty());
        while i < self.0.len()
            invariant
                i <= self.0@.len(),
                out@ == joined(self@.take(i as int)),
                forall|k: int| 0 <= k < i ==> all_host_bytes(#[trigger] self@[k]),
            decreases self.0@.len() - i,
        {
            let label = &self.0[i];
            if i > 0 {
                out.push('.');
            }
            let ghost start = out@;
            let mut j: usize = 0;
            while j < label.len()
                invariant
                    i < self.0@.len(),
                    label@ == self@[i as int],
                    j <= label@.len(),
                    out@ == start + Seq::new(j as nat, |k: int| label@[k] as char),
                    forall|k: int| 0 <= k < j ==> host_byte(#[trigger] label@[k]),
                decreases label@.len() - j,
            {
                if !is_host_byte(label[j]) {
                    assert(!host_byte(self@[i as int][j as int]));
                    assert(!all_host_bytes(self@[i as int]));
                    return None;
                }
                out.push(label[j] as char);
                j += 1;
                assert(out@ =~= start + Seq::new(j as nat, |k: int| label@[k] as char));
            }
            i += 1;
            proof {
                assert(self@.take(i as int).drop_last() =~= self@.take(i - 1));
                assert(self@.take(i as int).last() == label@);
                assert(out@ =~= joined(self@.take(i as int)));
            }
        }
        assert(self@.take(self@.len() as int) =~= self@);
        Some(string_of(out.as_slice()))
    }

    pub fn append_wire(&self, target: &mut Vec<u8>)
        requires
            forall|i: int| 0 <= i < self@.len() ==> (#[trigger] self@[i]).len() <= 63,
        ensures
            final(target)@ == old(target)@ + name_wire(self@),
    {
        let mut i: usize = 0;
        assert(self@.take(0) =~= Seq::empty());
        assert(target@ =~= old(target)@ + labels_wire(self@.take(0)));
        while i < self.0.len()
            invariant
                i <= self.0@.len(),
                forall|k: int| 0 <= k < self@.len() ==> (#[trigger] self@[k]).len() <= 63,
                target@ == old(target)@ + labels_wire(self@.take(i as int)),
            decreases self.0@.len() - i,
        {
            let label = &self.0[i];
            assert(label@ == self@[i as int]);
            target.push(label.len() as u8);
            push_bytes(target, label.as_slice());
            i += 1;
            proof {
                assert(self@.take(i as int).drop_last() =~= self@.take(i - 1));
                assert(target@ =~= old(target)@ + labels_wire(self@.take(i as int)));
            }
        }
        target.push(0);
        assert(self@.take(self@.len() as int) =~= self@);
        assert(target@ =~= old(target)@ + name_wire(self@));
    }
}

fn name_same(a: &Name, b: &Name) -> (r: bool)
    ensures
        r == (a@ == b@),
{
    if a.0.len() != b.0.len() {
        assert(a@.len() != b@.len());
        return false;
    }
    let mut i: usize = 0;
    while i < a.0.len()
        invariant
            a.0@.len() == b.0@.len(),
            i <= a.0@.len(),
            forall|k: int| 0 <= k < i ==> a@[k] == b@[k],
        decreases a.0@.len() - i,
    {
        if !bytes_same(a.0[i].as_slice(), b.0[i].as_slice()) {
            assert(a@[i as int] != b@[i as int]);
            return false;
        }
        i += 1;
    }
    assert(a@ =~= b@);
    true
}

fn name_copy(a: &Name) -> (r: Name)
    ensures
        r@ == a@,
{
    let mut out: Vec<Vec<u8>> = Vec::new();
    let mut i: usize = 0;
    while i < a.0.len()
        invariant
            i <= a.0@.len(),
            out@.len() == i,
            forall|k: int| 0 <= k < i ==> out@[k]@ == a@[k],
        decreases a.0@.len() - i,
    {
        out.push(to_bytes(a.0[i].as_slice()));
        i += 1;
    }
    assert(labels_of(out@) =~= a@);
    Name(out)
}

// ------------------------------------------------------------------ messages

/// A record type that can be asked for.
pub open spec fn asked_type(kind: u16) -> bool {
    kind == A || kind == AAAA || kind == SRV
}

/// A query for `labels`: one question with recursion desired.
pub open spec fn query_bytes(id: u16, labels: Seq<Seq<u8>>, kind: u16) -> Seq<u8> {
    net::word_bytes(id) + net::word_bytes(0x0100) + net::word_bytes(1) + net::word_bytes(0) + net::word_bytes(0)
        + net::word_bytes(0) + name_wire(labels) + net::word_bytes(kind) + net::word_bytes(IN)
}

pub open spec fn query(id: u16, name: Seq<char>, kind: u16) -> Result<Seq<u8>, Seq<char>> {
    if !asked_type(kind) {
        Err("query_type"@)
    } else {
        match host_name(name) {
            Err(e) => Err(e),
            Ok(labels) => Ok(query_bytes(id, labels, kind)),
        }
    }
}

fn is_asked_type(kind: u16) -> (r: bool)
    ensures
        r == asked_type(kind),
{
    kind == A || kind == AAAA || kind == SRV
}

pub fn build_dns_query(id: u16, name: &str, record_type: u16) -> (r: Result<
    Vec<u8>,
    CellularImsError,
>)
    ensures
        match r {
            Ok(bytes) => query(id, name@, record_type) == Ok::<Seq<u8>, Seq<char>>(bytes@),
            Err(e) => query(id, name@, record_type) is Err && fails_with(
                e,
                query(id, name@, record_type)->Err_0,
            ),
        },
{
    if !is_asked_type(record_type) {
        return Err(invalid("query_type"));
    }
    match Name::host(name) {
        Err(e) => Err(e),
        Ok(host) => {
            let mut out: Vec<u8> = Vec::new();
            push_word(&mut out, id);
            push_word(&mut out, 0x0100);
            push_word(&mut out, 1);
            push_word(&mut out, 0);
            push_word(&mut out, 0);
            push_word(&mut out, 0);
            proof {
                lemma_host_label_sizes(name@);
            }
            host.append_wire(&mut out);
            push_word(&mut out, record_type);
            push_word(&mut out, IN);
            assert(out@ =~= query_bytes(id, host@, record_type));
            Ok(out)
        },
    }
}

proof fn lemma_host_label_sizes(s: Seq<char>)
    requires
        host_name(s) is Ok,
    ensures
        forall|i: int| 0 <= i < host_labels(s).len() ==> (#[trigger] host_labels(s)[i]).len() <= 63,
{
    let parts = text::split(bare_host(s), '.');
    assert forall|i: int| 0 <= i < host_labels(s).len() implies (#[trigger] host_labels(
        s,
    )[i]).len() <= 63 by {
        assert(valid_label(parts[i]));
    }
}

/// The word at `i`, where the packet holds it.
pub open spec fn word_in(p: Seq<u8>, i: int) -> Option<int> {
    if 0 <= i && i + 2 <= p.len() {
        Some(net::word_at(p, i))
    } else {
        None
    }
}

fn word(packet: &[u8], offset: usize) -> (r: Result<u16, CellularImsError>)
    ensures
        match r {
            Ok(w) => word_in(packet@, offset as int) == Some(w as int),
            Err(e) => word_in(packet@, offset as int) is None && fails_with(e, "truncated"@),
        },
{
    if offset > packet.len() || packet.len() - offset < 2 {
        return Err(invalid("truncated"));
    }
    Ok(be16(packet, offset))
}

/// Where reading a name stands.
pub struct NameState {
    pub offset: int,
    pub labels: Seq<Seq<u8>>,
    /// The end of the encoded name, once a pointer has been followed.
    pub end: Option<int>,
    /// The octets of the expanded name so far.
    pub size: int,
    pub visited: Seq<int>,
}

/// The name that starts at `start`, and where its encoding ends. A pointer leads
/// to an earlier offset behind the header, and no offset is read twice.
pub open spec fn name_at(p: Seq<u8>, start: int) -> Result<(Seq<Seq<u8>>, int), Seq<char>> {
    name_from(
        p,
        NameState { offset: start, labels: Seq::empty(), end: None, size: 1, visited: Seq::empty() },
        MAX_NAME_STEPS as nat,
    )
}

pub open spec fn name_from(p: Seq<u8>, s: NameState, steps: nat) -> Result<
    (Seq<Seq<u8>>, int),
    Seq<char>,
>
    decreases steps,
{
    let at = s.offset;
    if steps == 0 {
        Err("name_indirection_limit"@)
    } else if s.visited.contains(at) {
        Err("compression_loop"@)
    } else if at >= p.len() {
        Err("truncated_name"@)
    } else if p[at] == 0 {
        Ok(
            (
                s.labels,
                match s.end {
                    Some(end) => end,
                    None => at + 1,
                },
            ),
        )
    } else if p[at] >= 192 {
        let target = (p[at] - 192) * 256 + p[at + 1];
        if at + 1 >= p.len() {
            Err("truncated_pointer"@)
        } else if target < 12 || target >= at {
            Err("compression_target"@)
        } else {
            name_from(
                p,
                NameState {
                    offset: target,
                    end: match s.end {
                        Some(end) => Some(end),
                        None => Some(at + 2),
                    },
                    visited: s.visited.push(at),
                    ..s
                },
                (steps - 1) as nat,
            )
        }
    } else if p[at] < 64 {
        let end = at + 1 + p[at];
        if end > p.len() {
            Err("truncated_label"@)
        } else if s.size + p[at] + 1 > 255 {
            Err("name_too_long"@)
        } else {
            name_from(
                p,
                NameState {
                    offset: end,
                    labels: s.labels.push(lower_bytes(p.subrange(at + 1, end))),
                    size: s.size + p[at] + 1,
                    visited: s.visited.push(at),
                    ..s
                },
                (steps - 1) as nat,
            )
        }
    } else {
        Err("label_encoding"@)
    }
}

fn seen(list: &Vec<usize>, at: usize) -> (r: bool)
    ensures
        r == list@.contains(at),
{
    let mut i: usize = 0;
    while i < list.len()
        invariant
            i <= list@.len(),
            forall|k: int| 0 <= k < i ==> list@[k] != at,
        decreases list@.len() - i,
    {
        if list[i] == at {
            assert(list@[i as int] == at);
            return true;
        }
        i += 1;
    }
    false
}

pub open spec fn offsets(v: Seq<usize>) -> Seq<int> {
    Seq::new(v.len(), |i: int| v[i] as int)
}

fn lowered_bytes(s: &[u8]) -> (r: Vec<u8>)
    ensures
        r@ == lower_bytes(s@),
{
    let mut r: Vec<u8> = Vec::new();
    let mut i: usize = 0;
    while i < s.len()
        invariant
            i <= s@.len(),
            r@.len() == i,
            forall|k: int| 0 <= k < i ==> r@[k] == lower_byte(s@[k]),
        decreases s@.len() - i,
    {
        r.push(to_lower_byte(s[i]));
        i += 1;
    }
    assert(r@ =~= lower_bytes(s@));
    r
}

/// Returns the name and the end of its encoding, not the end of what its
/// compression leads to.
pub fn read_name(packet: &[u8], start: usize) -> (r: Result<(Name, usize), CellularImsError>)
    requires
        packet@.len() <= 65535,
        start <= 0x20000,
    ensures
        match r {
            Ok((name, end)) => name_at(packet@, start as int) == Ok::<_, Seq<char>>(
                (name@, end as int),
            ) && end <= packet@.len(),
            Err(e) => name_at(packet@, start as int) is Err && fails_with(
                e,
                name_at(packet@, start as int)->Err_0,
            ),
        },
{
    let mut labels: Vec<Vec<u8>> = Vec::new();
    let mut offset: usize = start;
    let mut encoded_end: Option<usize> = None;
    let mut expanded: usize = 1;
    let mut visited: Vec<usize> = Vec::new();
    let mut steps: usize = MAX_NAME_STEPS;
    let ghost mut state = NameState {
        offset: start as int,
        labels: Seq::empty(),
        end: None,
        size: 1,
        visited: Seq::empty(),
    };
    assert(labels_of(labels@) =~= Seq::empty());
    assert(offsets(visited@) =~= Seq::empty());
    while steps > 0
        invariant
            packet@.len() <= 65535,
            steps <= MAX_NAME_STEPS,
            offset <= 0x20000,
            expanded <= 255,
            state.offset == offset,
            state.labels == labels_of(labels@),
            state.end == (match encoded_end {
                Some(e) => Some(e as int),
                None => None,
            }),
            encoded_end matches Some(e) ==> e <= packet@.len(),
            state.size == expanded,
            state.visited == offsets(visited@),
            name_at(packet@, start as int) == name_from(packet@, state, steps as nat),
        decreases steps,
    {
        assert(state.visited.contains(offset as int) == visited@.contains(offset)) by {
            if visited@.contains(offset) {
                let k = choose|k: int| 0 <= k < visited@.len() && visited@[k] == offset;
                assert(state.visited[k] == offset);
            }
            if state.visited.contains(offset as int) {
                let k = choose|k: int| 0 <= k < state.visited.len() && state.visited[k] == offset;
                assert(visited@[k] == offset);
            }
        }
        if seen(&visited, offset) {
            return Err(invalid("compression_loop"));
        }
        let ghost before = state;
        visited.push(offset);
        assert(offsets(visited@) =~= before.visited.push(offset as int));
        if offset >= packet.len() {
            return Err(invalid("truncated_name"));
        }
        let length: u8 = packet[offset];
        if length == 0 {
            let end: usize = match encoded_end {
                Some(end) => end,
                None => offset + 1,
            };
            return Ok((Name(labels), end));
        }
        if length >= 192 {
            if offset + 1 >= packet.len() {
                return Err(invalid("truncated_pointer"));
            }
            let target: usize = (length - 192) as usize * 256 + packet[offset + 1] as usize;
            if target < 12 || target >= offset {
                return Err(invalid("compression_target"));
            }
            if encoded_end.is_none() {
                encoded_end = Some(offset + 2);
            }
            proof {
                state = NameState {
                    offset: target as int,
                    end: match before.end {
                        Some(end) => Some(end),
                        None => Some(offset + 2),
                    },
                    visited: before.visited.push(offset as int),
                    ..before
                };
            }
            offset = target;
        } else if length < 64 {
            let end: usize = offset + 1 + length as usize;
            if end > packet.len() {
                return Err(invalid("truncated_label"));
            }
            if expanded + length as usize + 1 > 255 {
                return Err(invalid("name_too_long"));
            }
            expanded = expanded + length as usize + 1;
            let ghost known = labels@;
            labels.push(lowered_bytes(slice_subrange(packet, offset + 1, end)));
            assert(labels_of(labels@) =~= labels_of(known).push(
                lower_bytes(packet@.subrange(offset + 1, end as int)),
            ));
            proof {
                state = NameState {
                    offset: end as int,
                    labels: labels_of(labels@),
                    size: before.size + length + 1,
                    visited: before.visited.push(offset as int),
                    ..before
                };
            }
            offset = end;
        } else {
            return Err(invalid("label_encoding"));
        }
        steps -= 1;
    }
    Err(invalid("name_indirection_limit"))
}

// ------------------------------------------------------------------- records

/// A usable SIP service: a named host and a non-zero port.
#[derive(Debug, Clone, PartialEq, Eq)]
pub struct SrvTarget {
    pub target: String,
    pub port: u16,
    pub priority: u16,
    pub weight: u16,
}

impl SrvTarget {
    pub fn endpoint(&self, address: IpAddr) -> (r: SocketAddr)
        ensures
            r == (SocketAddr { ip: address, port: self.port }),
    {
        SocketAddr::new(address, self.port)
    }
}

/// A service target as a value.
pub struct Srv {
    pub target: Seq<char>,
    pub port: u16,
    pub priority: u16,
    pub weight: u16,
}

impl View for SrvTarget {
    type V = Srv;

    open spec fn view(&self) -> Srv {
        Srv {
            target: self.target@,
            port: self.port,
            priority: self.priority,
            weight: self.weight,
        }
    }
}

#[derive(Debug, PartialEq, Eq)]
pub struct DnsRecords {
    pub addresses: Vec<IpAddr>,
    pub srv_targets: Vec<SrvTarget>,
}

impl Default for DnsRecords {
    fn default() -> (r: Self)
        ensures
            r.addresses@.len() == 0,
            r.srv_targets@.len() == 0,
    {
        DnsRecords { addresses: Vec::new(), srv_targets: Vec::new() }
    }
}

#[derive(Debug)]
pub enum Data {
    Address(IpAddr),
    Alias(Name),
    Service(Option<SrvTarget>),
    Other,
}

/// Record data as a value.
pub enum DataValue {
    Address(IpAddr),
    Alias(Seq<Seq<u8>>),
    Service(Option<Srv>),
    Other,
}

impl View for Data {
    type V = DataValue;

    open spec fn view(&self) -> DataValue {
        match self {
            Data::Address(address) => DataValue::Address(*address),
            Data::Alias(name) => DataValue::Alias(name@),
            Data::Service(Some(target)) => DataValue::Service(Some(target@)),
            Data::Service(None) => DataValue::Service(None),
            Data::Other => DataValue::Other,
        }
    }
}

#[derive(Debug)]
pub struct Answer {
    pub owner: Name,
    pub kind: u16,
    pub data: Data,
}

/// An answer-section record as a value.
pub struct AnswerValue {
    pub owner: Seq<Seq<u8>>,
    pub kind: u16,
    pub data: DataValue,
}

impl View for Answer {
    type V = AnswerValue;

    open spec fn view(&self) -> AnswerValue {
        AnswerValue { owner: self.owner@, kind: self.kind, data: self.data@ }
    }
}

pub open spec fn answers_of(v: Seq<Answer>) -> Seq<AnswerValue> {
    Seq::new(v.len(), |i: int| v[i]@)
}

pub open spec fn srvs_of(v: Seq<SrvTarget>) -> Seq<Srv> {
    Seq::new(v.len(), |i: int| v[i]@)
}

/// One resource record: what it says, its class and where it ends.
pub struct RecordValue {
    pub answer: AnswerValue,
    pub class: u16,
    pub end: int,
}

/// The data of a record of `kind` in `start..end`.
pub open spec fn data_at(
    p: Seq<u8>,
    section: int,
    kind: u16,
    owner: Seq<Seq<u8>>,
    header: int,
    start: int,
    end: int,
    seen_opt: bool,
) -> Result<DataValue, Seq<char>> {
    if kind == A {
        if end - start != 4 {
            Err("a_length"@)
        } else {
            Ok(DataValue::Address(net::v4_of(p.subrange(start, end))))
        }
    } else if kind == AAAA {
        if end - start != 16 {
            Err("aaaa_length"@)
        } else {
            Ok(DataValue::Address(net::v6_of(p.subrange(start, end))))
        }
    } else if kind == CNAME {
        match name_at(p, start) {
            Err(e) => Err(e),
            Ok((target, consumed)) => if consumed != end || target.len() == 0 {
                Err("cname_rdata"@)
            } else {
                Ok(DataValue::Alias(target))
            },
        }
    } else if kind == SRV {
        if end - start < 7 {
            Err("srv_length"@)
        } else {
            match name_at(p, start + 6) {
                Err(e) => Err(e),
                Ok((target, consumed)) => if consumed != end {
                    Err("srv_rdata"@)
                } else {
                    Ok(DataValue::Service(service_at(p, start, target)))
                },
            }
        }
    } else if kind == OPT {
        if section != 2 || seen_opt || owner.len() != 0 || p[header + 4] != 0 {
            Err("opt_extended_rcode"@)
        } else {
            Ok(DataValue::Other)
        }
    } else {
        Ok(DataValue::Other)
    }
}

/// A root target means that the service is unavailable, and port zero is no
/// usable SIP service: neither becomes an endpoint.
pub open spec fn service_at(p: Seq<u8>, start: int, target: Seq<Seq<u8>>) -> Option<Srv> {
    match name_text(target) {
        Some(text) => if net::word_at(p, start + 4) == 0 {
            None
        } else {
            Some(
                Srv {
                    target: text,
                    port: net::word_at(p, start + 4) as u16,
                    priority: net::word_at(p, start) as u16,
                    weight: net::word_at(p, start + 2) as u16,
                },
            )
        },
        None => None,
    }
}

/// The record at `offset` of a section.
pub open spec fn record_at(p: Seq<u8>, section: int, offset: int, seen_opt: bool) -> Result<
    RecordValue,
    Seq<char>,
> {
    match name_at(p, offset) {
        Err(e) => Err(e),
        Ok((owner, header)) => match (word_in(p, header), word_in(p, header + 2), word_in(p, header + 8)) {
            (Some(kind), Some(class), Some(length)) => {
                let start = header + 10;
                let end = start + length;
                if end > p.len() {
                    Err("rdata_length"@)
                } else {
                    match data_at(p, section, kind as u16, owner, header, start, end, seen_opt) {
                        Err(e) => Err(e),
                        Ok(data) => Ok(
                            RecordValue {
                                answer: AnswerValue { owner, kind: kind as u16, data },
                                class: class as u16,
                                end,
                            },
                        ),
                    }
                }
            },
            _ => Err("truncated"@),
        },
    }
}

/// Reads the data of a record whose header has been read.
fn read_data(
    packet: &[u8],
    section: usize,
    kind: u16,
    owner: &Name,
    header: usize,
    start: usize,
    end: usize,
    seen_opt: bool,
) -> (r: Result<Data, CellularImsError>)
    requires
        packet@.len() <= 65535,
        header + 10 == start,
        start <= end <= packet@.len(),
    ensures
        match r {
            Ok(data) => data_at(
                packet@,
                section as int,
                kind,
                owner@,
                header as int,
                start as int,
                end as int,
                seen_opt,
            ) == Ok::<_, Seq<char>>(data@),
            Err(e) => data_at(
                packet@,
                section as int,
                kind,
                owner@,
                header as int,
                start as int,
                end as int,
                seen_opt,
            ) is Err && fails_with(
                e,
                data_at(
                    packet@,
                    section as int,
                    kind,
                    owner@,
                    header as int,
                    start as int,
                    end as int,
                    seen_opt,
                )->Err_0,
            ),
        },
{
    if kind == A {
        if end - start != 4 {
            return Err(invalid("a_length"));
        }
        Ok(Data::Address(v4_from(slice_subrange(packet, start, end))))
    } else if kind == AAAA {
        if end - start != 16 {
            return Err(invalid("aaaa_length"));
        }
        Ok(Data::Address(v6_from(slice_subrange(packet, start, end))))
    } else if kind == CNAME {
        match read_name(packet, start) {
            Err(e) => Err(e),
            Ok((target, consumed)) => {
                assert(target@.len() == target.0@.len());
                if consumed != end || target.0.len() == 0 {
                    return Err(invalid("cname_rdata"));
                }
                Ok(Data::Alias(target))
            },
        }
    } else if kind == SRV {
        if end - start < 7 {
            return Err(invalid("srv_length"));
        }
        match read_name(packet, start + 6) {
            Err(e) => Err(e),
            Ok((target, consumed)) => {
                if consumed != end {
                    return Err(invalid("srv_rdata"));
                }
                let port: u16 = be16(packet, start + 4);
                let service = match target.host_text() {
                    Some(text) => if port == 0 {
                        None
                    } else {
                        Some(
                            SrvTarget {
                                target: text,
                                port,
                                priority: be16(packet, start),
                                weight: be16(packet, start + 2),
                            },
                        )
                    },
                    None => None,
                };
                Ok(Data::Service(service))
            },
        }
    } else if kind == OPT {
        assert(owner@.len() == owner.0@.len());
        if section != 2 || seen_opt || owner.0.len() != 0 || packet[header + 4] != 0 {
            return Err(invalid("opt_extended_rcode"));
        }
        Ok(Data::Other)
    } else {
        Ok(Data::Other)
    }
}

fn read_record(packet: &[u8], section: usize, offset: usize, seen_opt: bool) -> (r: Result<
    (Answer, u16, usize),
    CellularImsError,
>)
    requires
        packet@.len() <= 65535,
        offset <= packet@.len() + 16,
    ensures
        match r {
            Ok((answer, class, end)) => record_at(packet@, section as int, offset as int, seen_opt)
                == Ok::<_, Seq<char>>(RecordValue { answer: answer@, class, end: end as int })
                && end <= packet@.len(),
            Err(e) => record_at(packet@, section as int, offset as int, seen_opt) is Err
                && fails_with(
                e,
                record_at(packet@, section as int, offset as int, seen_opt)->Err_0,
            ),
        },
{
    let (owner, header) = match read_name(packet, offset) {
        Ok(pair) => pair,
        Err(e) => return Err(e),
    };
    let kind: u16 = match word(packet, header) {
        Ok(w) => w,
        Err(e) => return Err(e),
    };
    let class: u16 = match word(packet, header + 2) {
        Ok(w) => w,
        Err(e) => return Err(e),
    };
    let length: u16 = match word(packet, header + 8) {
        Ok(w) => w,
        Err(e) => return Err(e),
    };
    let start: usize = header + 10;
    let end: usize = start + length as usize;
    if end > packet.len() {
        return Err(invalid("rdata_length"));
    }
    match read_data(packet, section, kind, &owner, header, start, end, seen_opt) {
        Err(e) => Err(e),
        Ok(data) => Ok((Answer { owner, kind, data }, class, end)),
    }
}

// ------------------------------------------------------------------ sections

/// The records of the sections from `section` on, of which `left` remain in the
/// current one: where they end, and the answer-section records of class IN.
pub open spec fn records_from(
    p: Seq<u8>,
    section: int,
    left: nat,
    offset: int,
    answers: Seq<AnswerValue>,
    seen_opt: bool,
) -> Result<(int, Seq<AnswerValue>), Seq<char>>
    decreases 3 - section, left,
{
    if section >= 3 {
        Ok((offset, answers))
    } else if left == 0 {
        if section == 2 {
            Ok((offset, answers))
        } else {
            records_from(
                p,
                section + 1,
                net::word_at(p, 8 + 2 * section) as nat,
                offset,
                answers,
                seen_opt,
            )
        }
    } else {
        match record_at(p, section, offset, seen_opt) {
            Err(e) => Err(e),
            Ok(record) => records_from(
                p,
                section,
                (left - 1) as nat,
                record.end,
                if section == 0 && record.class == IN {
                    answers.push(record.answer)
                } else {
                    answers
                },
                seen_opt || record.answer.kind == OPT,
            ),
        }
    }
}

fn read_sections(packet: &[u8], start: usize) -> (r: Result<
    (usize, Vec<Answer>),
    CellularImsError,
>)
    requires
        12 <= packet@.len() <= 65535,
        start <= packet@.len(),
    ensures
        match r {
            Ok((end, answers)) => records_from(
                packet@,
                0,
                net::word_at(packet@, 6) as nat,
                start as int,
                Seq::empty(),
                false,
            ) == Ok::<_, Seq<char>>((end as int, answers_of(answers@))),
            Err(e) => records_from(
                packet@,
                0,
                net::word_at(packet@, 6) as nat,
                start as int,
                Seq::empty(),
                false,
            ) is Err && fails_with(
                e,
                records_from(
                    packet@,
                    0,
                    net::word_at(packet@, 6) as nat,
                    start as int,
                    Seq::empty(),
                    false,
                )->Err_0,
            ),
        },
{
    let mut answers: Vec<Answer> = Vec::new();
    let mut seen_opt: bool = false;
    let mut offset: usize = start;
    let mut section: usize = 0;
    let mut left: u16 = be16(packet, 6);
    assert(answers_of(answers@) =~= Seq::empty());
    let ghost whole = records_from(packet@, 0, left as nat, start as int, Seq::empty(), false);
    loop
        invariant
            12 <= packet@.len() <= 65535,
            offset <= packet@.len(),
            section <= 2,
            whole == records_from(
                packet@,
                0,
                net::word_at(packet@, 6) as nat,
                start as int,
                Seq::empty(),
                false,
            ),
            whole == records_from(
                packet@,
                section as int,
                left as nat,
                offset as int,
                answers_of(answers@),
                seen_opt,
            ),
        decreases 2 - section, left,
    {
        if left == 0 {
            if section == 2 {
                return Ok((offset, answers));
            }
            left = be16(packet, 8 + 2 * section);
            section += 1;
        } else {
            match read_record(packet, section, offset, seen_opt) {
                Err(e) => {
                    return Err(e);
                },
                Ok((answer, class, end)) => {
                    if answer.kind == OPT {
                        seen_opt = true;
                    }
                    if section == 0 && class == IN {
                        let ghost before = answers@;
                        answers.push(answer);
                        assert(answers_of(answers@) =~= answers_of(before).push(answer@));
                    }
                    offset = end;
                    left -= 1;
                },
            }
        }
    }
}

// --------------------------------------------------------------------- chain

/// The alias of `owner` among the answers from `i` on, `next` being the one
/// found before: two different aliases conflict.
pub open spec fn alias_from(
    answers: Seq<AnswerValue>,
    owner: Seq<Seq<u8>>,
    i: int,
    next: Option<Seq<Seq<u8>>>,
) -> Result<Option<Seq<Seq<u8>>>, Seq<char>>
    decreases answers.len() - i,
{
    if i >= answers.len() {
        Ok(next)
    } else if answers[i].owner == owner && answers[i].data is Alias {
        let target = answers[i].data->Alias_0;
        if next is Some && next != Some(target) {
            Err("cname_conflict"@)
        } else {
            alias_from(answers, owner, i + 1, Some(target))
        }
    } else {
        alias_from(answers, owner, i + 1, next)
    }
}

pub open spec fn is_endpoint(data: DataValue) -> bool {
    data is Address || data is Service
}

/// Does `owner` hold data besides an alias?
pub open spec fn has_endpoint(answers: Seq<AnswerValue>, owner: Seq<Seq<u8>>) -> bool {
    exists|i: int|
        0 <= i < answers.len() && (#[trigger] answers[i]).owner == owner && is_endpoint(
            answers[i].data,
        )
}

/// The name at the end of the alias chain that starts at `owner`.
pub open spec fn chain_from(
    answers: Seq<AnswerValue>,
    owner: Seq<Seq<u8>>,
    visited: Seq<Seq<Seq<u8>>>,
    hops: nat,
) -> Result<Seq<Seq<u8>>, Seq<char>>
    decreases hops,
{
    match alias_from(answers, owner, 0, None) {
        Err(e) => Err(e),
        Ok(None) => Ok(owner),
        Ok(Some(target)) => if hops == 0 || visited.contains(target) {
            Err("cname_chain_limit"@)
        } else if has_endpoint(answers, owner) {
            Err("cname_data_conflict"@)
        } else {
            chain_from(answers, target, visited.push(target), (hops - 1) as nat)
        },
    }
}

pub open spec fn names_of(v: Seq<Name>) -> Seq<Seq<Seq<u8>>> {
    Seq::new(v.len(), |i: int| v[i]@)
}

fn has_name(list: &Vec<Name>, name: &Name) -> (r: bool)
    ensures
        r == names_of(list@).contains(name@),
{
    let mut i: usize = 0;
    while i < list.len()
        invariant
            i <= list@.len(),
            forall|k: int| 0 <= k < i ==> names_of(list@)[k] != name@,
        decreases list@.len() - i,
    {
        if name_same(&list[i], name) {
            assert(names_of(list@)[i as int] == name@);
            return true;
        }
        i += 1;
    }
    assert forall|k: int| 0 <= k < names_of(list@).len() implies names_of(list@)[k] != name@ by {}
    false
}

fn find_alias(answers: &Vec<Answer>, owner: &Name) -> (r: Result<Option<Name>, CellularImsError>)
    ensures
        match r {
            Ok(Some(name)) => alias_from(answers_of(answers@), owner@, 0, None) == Ok::<
                _,
                Seq<char>,
            >(Some(name@)),
            Ok(None) => alias_from(answers_of(answers@), owner@, 0, None) == Ok::<
                Option<Seq<Seq<u8>>>,
                Seq<char>,
            >(None),
            Err(e) => alias_from(answers_of(answers@), owner@, 0, None) is Err && fails_with(
                e,
                alias_from(answers_of(answers@), owner@, 0, None)->Err_0,
            ),
        },
{
    let mut next: Option<Name> = None;
    let ghost all = answers_of(answers@);
    let mut i: usize = 0;
    while i < answers.len()
        invariant
            i <= answers@.len(),
            all == answers_of(answers@),
            alias_from(all, owner@, 0, None) == alias_from(
                all,
                owner@,
                i as int,
                match next {
                    Some(name) => Some(name@),
                    None => None,
                },
            ),
        decreases answers@.len() - i,
    {
        assert(all[i as int] == answers@[i as int]@);
        if name_same(&answers[i].owner, owner) {
            if let Data::Alias(target) = &answers[i].data {
                if let Some(previous) = &next {
                    if !name_same(previous, target) {
                        return Err(invalid("cname_conflict"));
                    }
                }
                next = Some(name_copy(target));
            }
        }
        i += 1;
    }
    Ok(next)
}

fn holds_endpoint(answers: &Vec<Answer>, owner: &Name) -> (r: bool)
    ensures
        r == has_endpoint(answers_of(answers@), owner@),
{
    let ghost all = answers_of(answers@);
    let mut i: usize = 0;
    while i < answers.len()
        invariant
            i <= answers@.len(),
            all == answers_of(answers@),
            forall|k: int|
                0 <= k < i ==> !((#[trigger] all[k]).owner == owner@ && is_endpoint(all[k].data)),
        decreases answers@.len() - i,
    {
        assert(all[i as int] == answers@[i as int]@);
        if name_same(&answers[i].owner, owner) {
            match &answers[i].data {
                Data::Address(_) => {
                    return true;
                },
                Data::Service(_) => {
                    return true;
                },
                _ => {},
            }
        }
        i += 1;
    }
    false
}

fn follow_chain(answers: &Vec<Answer>, start: &Name) -> (r: Result<Name, CellularImsError>)
    ensures
        match r {
            Ok(name) => chain_from(
                answers_of(answers@),
                start@,
                seq![start@],
                MAX_CNAME_HOPS as nat,
            ) == Ok::<_, Seq<char>>(name@),
            Err(e) => chain_from(
                answers_of(answers@),
                start@,
                seq![start@],
                MAX_CNAME_HOPS as nat,
            ) is Err && fails_with(
                e,
                chain_from(
                    answers_of(answers@),
                    start@,
                    seq![start@],
                    MAX_CNAME_HOPS as nat,
                )->Err_0,
            ),
        },
{
    let mut terminal = name_copy(start);
    let mut visited: Vec<Name> = Vec::new();
    visited.push(name_copy(start));
    assert(names_of(visited@) =~= seq![start@]);
    let mut hops: usize = MAX_CNAME_HOPS;
    let ghost all = answers_of(answers@);
    loop
        invariant
            hops <= MAX_CNAME_HOPS,
            all == answers_of(answers@),
            chain_from(all, start@, seq![start@], MAX_CNAME_HOPS as nat) == chain_from(
                all,
                terminal@,
                names_of(visited@),
                hops as nat,
            ),
        decreases hops,
    {
        match find_alias(answers, &terminal) {
            Err(e) => {
                return Err(e);
            },
            Ok(None) => {
                return Ok(terminal);
            },
            Ok(Some(target)) => {
                if hops == 0 || has_name(&visited, &target) {
                    return Err(invalid("cname_chain_limit"));
                }
                if holds_endpoint(answers, &terminal) {
                    return Err(invalid("cname_data_conflict"));
                }
                let ghost before = visited@;
                visited.push(name_copy(&target));
                assert(names_of(visited@) =~= names_of(before).push(target@));
                terminal = target;
                hops -= 1;
            },
        }
    }
}

// ------------------------------------------------------------------- results

/// Does this answer belong to the terminal name and the asked type?
pub open spec fn selected(answer: AnswerValue, owner: Seq<Seq<u8>>, kind: u16) -> bool {
    answer.owner == owner && answer.kind == kind
}

/// The addresses of the selected answers before `n`, each once, in order.
pub open spec fn addresses_upto(
    answers: Seq<AnswerValue>,
    owner: Seq<Seq<u8>>,
    kind: u16,
    n: nat,
) -> Seq<IpAddr>
    decreases n,
{
    if n == 0 {
        Seq::empty()
    } else {
        let found = addresses_upto(answers, owner, kind, (n - 1) as nat);
        let answer = answers[n - 1];
        if selected(answer, owner, kind) && answer.data is Address && !found.contains(
            answer.data->Address_0,
        ) {
            found.push(answer.data->Address_0)
        } else {
            found
        }
    }
}

/// The services of the selected answers before `n`, each once, in order.
pub open spec fn services_upto(
    answers: Seq<AnswerValue>,
    owner: Seq<Seq<u8>>,
    kind: u16,
    n: nat,
) -> Seq<Srv>
    decreases n,
{
    if n == 0 {
        Seq::empty()
    } else {
        let found = services_upto(answers, owner, kind, (n - 1) as nat);
        let answer = answers[n - 1];
        match answer.data {
            DataValue::Service(Some(target)) => if selected(answer, owner, kind)
                && !found.contains(target) {
                found.push(target)
            } else {
                found
            },
            _ => found,
        }
    }
}

/// `x` behind every target of at most its priority.
pub open spec fn insert_by_priority(s: Seq<Srv>, x: Srv) -> Seq<Srv>
    decreases s.len(),
{
    if s.len() == 0 || s.last().priority <= x.priority {
        s.push(x)
    } else {
        insert_by_priority(s.drop_last(), x).push(s.last())
    }
}

/// The targets by priority; equal priorities keep their order.
pub open spec fn by_priority(s: Seq<Srv>) -> Seq<Srv>
    decreases s.len(),
{
    if s.len() == 0 {
        s
    } else {
        insert_by_priority(by_priority(s.drop_last()), s.last())
    }
}

pub struct RecordsValue {
    pub addresses: Seq<IpAddr>,
    pub srv_targets: Seq<Srv>,
}

impl View for DnsRecords {
    type V = RecordsValue;

    open spec fn view(&self) -> RecordsValue {
        RecordsValue { addresses: self.addresses@, srv_targets: srvs_of(self.srv_targets@) }
    }
}

/// What the answers say of `owner`.
pub open spec fn results_of(
    answers: Seq<AnswerValue>,
    owner: Seq<Seq<u8>>,
    kind: u16,
) -> RecordsValue {
    RecordsValue {
        addresses: addresses_upto(answers, owner, kind, answers.len()),
        srv_targets: by_priority(services_upto(answers, owner, kind, answers.len())),
    }
}

fn srv_same(a: &SrvTarget, b: &SrvTarget) -> (r: bool)
    ensures
        r == (a@ == b@),
{
    str_same(a.target.as_str(), b.target.as_str()) && a.port == b.port && a.priority == b.priority
        && a.weight == b.weight
}

fn has_srv(list: &Vec<SrvTarget>, target: &SrvTarget) -> (r: bool)
    ensures
        r == srvs_of(list@).contains(target@),
{
    let mut i: usize = 0;
    while i < list.len()
        invariant
            i <= list@.len(),
            forall|k: int| 0 <= k < i ==> srvs_of(list@)[k] != target@,
        decreases list@.len() - i,
    {
        if srv_same(&list[i], target) {
            assert(srvs_of(list@)[i as int] == target@);
            return true;
        }
        i += 1;
    }
    assert forall|k: int| 0 <= k < srvs_of(list@).len() implies srvs_of(list@)[k] != target@ by {}
    false
}

fn insert_target(list: &mut Vec<SrvTarget>, target: SrvTarget)
    ensures
        srvs_of(final(list)@) == insert_by_priority(srvs_of(old(list)@), target@),
    decreases old(list)@.len(),
{
    if list.len() == 0 || list[list.len() - 1].priority <= target.priority {
        list.push(target);
        assert(srvs_of(list@) =~= srvs_of(old(list)@).push(target@));
    } else {
        let ghost before = list@;
        let last = list.pop().unwrap();
        assert(srvs_of(list@) =~= srvs_of(before).drop_last());
        insert_target(list, target);
        let ghost inner = list@;
        list.push(last);
        assert(srvs_of(list@) =~= srvs_of(inner).push(last@));
    }
}

fn sort_targets(list: Vec<SrvTarget>) -> (r: Vec<SrvTarget>)
    ensures
        srvs_of(r@) == by_priority(srvs_of(list@)),
{
    let mut out: Vec<SrvTarget> = Vec::new();
    let ghost all = srvs_of(list@);
    let mut i: usize = 0;
    assert(srvs_of(out@) =~= by_priority(all.take(0)));
    while i < list.len()
        invariant
            i <= list@.len(),
            all == srvs_of(list@),
            srvs_of(out@) == by_priority(all.take(i as int)),
        decreases list@.len() - i,
    {
        let target = &list[i];
        let copy = SrvTarget {
            target: target.target.clone(),
            port: target.port,
            priority: target.priority,
            weight: target.weight,
        };
        assert(copy@ == all[i as int]);
        insert_target(&mut out, copy);
        i += 1;
        assert(all.take(i as int).drop_last() =~= all.take(i - 1));
    }
    assert(all.take(all.len() as int) =~= all);
    out
}

/// Selects what the terminal name offers.
pub fn collect_records(answers: &Vec<Answer>, owner: &Name, kind: u16) -> (r: DnsRecords)
    ensures
        r@ == results_of(answers_of(answers@), owner@, kind),
{
    let mut addresses: Vec<IpAddr> = Vec::new();
    let mut targets: Vec<SrvTarget> = Vec::new();
    let ghost all = answers_of(answers@);
    let mut i: usize = 0;
    assert(srvs_of(targets@) =~= Seq::empty());
    while i < answers.len()
        invariant
            i <= answers@.len(),
            all == answers_of(answers@),
            addresses@ == addresses_upto(all, owner@, kind, i as nat),
            srvs_of(targets@) == services_upto(all, owner@, kind, i as nat),
        decreases answers@.len() - i,
    {
        let answer = &answers[i];
        assert(all[i as int] == answer@);
        if name_same(&answer.owner, owner) && answer.kind == kind {
            match &answer.data {
                Data::Address(address) => {
                    if !has_addr(&addresses, *address) {
                        addresses.push(*address);
                    }
                },
                Data::Service(Some(target)) => {
                    if !has_srv(&targets, target) {
                        let copy = SrvTarget {
                            target: target.target.clone(),
                            port: target.port,
                            priority: target.priority,
                            weight: target.weight,
                        };
                        let ghost before = targets@;
                        targets.push(copy);
                        assert(srvs_of(targets@) =~= srvs_of(before).push(target@));
                    }
                },
                _ => {},
            }
        }
        i += 1;
    }
    DnsRecords { addresses, srv_targets: sort_targets(targets) }
}

/// Reserved, truncation, opcode and response-code bits, all of them zero in a
/// successful standard response.
pub const REFUSED_FLAGS: u16 = 0x7a4f;

/// What a response to the question `name`/`kind` says, or why it is refused.
pub open spec fn response(id: u16, name: Seq<char>, kind: u16, p: Seq<u8>) -> Result<
    RecordsValue,
    Seq<char>,
> {
    if p.len() < 12 || p.len() > 65535 || net::word_at(p, 0) != id {
        Err("header"@)
    } else if !asked_type(kind) {
        Err("query_type"@)
    } else if net::word_at(p, 2) < 0x8000 || (net::word_at(p, 2) as u16) & REFUSED_FLAGS != 0 {
        Err("response_flags"@)
    } else if net::word_at(p, 4) != 1 {
        Err("question_count"@)
    } else {
        match (host_name(name), name_at(p, 12)) {
            (Err(e), _) => Err(e),
            (_, Err(e)) => Err(e),
            (Ok(expected), Ok((question, end))) => if question != expected {
                Err("question_mismatch"@)
            } else {
                match (word_in(p, end), word_in(p, end + 2)) {
                    (None, _) => Err("truncated"@),
                    (Some(asked), second) => if asked != kind {
                        Err("question_mismatch"@)
                    } else if second is None {
                        Err("truncated"@)
                    } else if second != Some(IN as int) {
                        Err("question_mismatch"@)
                    } else {
                        answers_response(expected, kind, p, end + 4)
                    },
                }
            },
        }
    }
}

/// What the records behind a matching question say.
pub open spec fn answers_response(
    expected: Seq<Seq<u8>>,
    kind: u16,
    p: Seq<u8>,
    start: int,
) -> Result<RecordsValue, Seq<char>> {
    match records_from(p, 0, net::word_at(p, 6) as nat, start, Seq::empty(), false) {
        Err(e) => Err(e),
        Ok((end, answers)) => if end != p.len() {
            Err("trailing_data"@)
        } else {
            match chain_from(answers, expected, seq![expected], MAX_CNAME_HOPS as nat) {
                Err(e) => Err(e),
                Ok(terminal) => Ok(results_of(answers, terminal, kind)),
            }
        },
    }
}

pub fn parse_dns_response(
    id: u16,
    expected_name: &str,
    expected_type: u16,
    packet: &[u8],
) -> (r: Result<DnsRecords, CellularImsError>)
    ensures
        match r {
            Ok(records) => response(id, expected_name@, expected_type, packet@) == Ok::<
                _,
                Seq<char>,
            >(records@),
            Err(e) => response(id, expected_name@, expected_type, packet@) is Err && fails_with(
                e,
                response(id, expected_name@, expected_type, packet@)->Err_0,
            ),
        },
{
    if packet.len() < 12 || packet.len() > 65535 || be16(packet, 0) != id {
        return Err(invalid("header"));
    }
    if !is_asked_type(expected_type) {
        return Err(invalid("query_type"));
    }
    let flags: u16 = be16(packet, 2);
    if flags < 0x8000 || flags & REFUSED_FLAGS != 0 {
        return Err(invalid("response_flags"));
    }
    if be16(packet, 4) != 1 {
        return Err(invalid("question_count"));
    }
    let expected = match Name::host(expected_name) {
        Ok(name) => name,
        Err(e) => return Err(e),
    };
    let (question, question_end) = match read_name(packet, 12) {
        Ok(pair) => pair,
        Err(e) => return Err(e),
    };
    if !name_same(&question, &expected) {
        return Err(invalid("question_mismatch"));
    }
    match word(packet, question_end) {
        Err(e) => {
            return Err(e);
        },
        Ok(asked) => {
            if asked != expected_type {
                return Err(invalid("question_mismatch"));
            }
        },
    }
    match word(packet, question_end + 2) {
        Err(e) => {
            return Err(e);
        },
        Ok(class) => {
            if class != IN {
                return Err(invalid("question_mismatch"));
            }
        },
    }
    let (end, answers) = match read_sections(packet, question_end + 4) {
        Ok(pair) => pair,
        Err(e) => return Err(e),
    };
    if end != packet.len() {
        return Err(invalid("trailing_data"));
    }
    match follow_chain(&answers, &expected) {
        Err(e) => Err(e),
        Ok(terminal) => Ok(collect_records(&answers, &terminal, expected_type)),
    }
}

// ---------------------------------------------------------------------- laws

pub open spec fn in_priority_order(s: Seq<Srv>) -> bool {
    forall|i: int, j: int| 0 <= i <= j < s.len() ==> (#[trigger] s[i]).priority <= (#[trigger] s[j]).priority
}

proof fn lemma_insert_by_priority(s: Seq<Srv>, x: Srv)
    requires
        in_priority_order(s),
    ensures
        in_priority_order(insert_by_priority(s, x)),
        insert_by_priority(s, x).to_multiset() =~= s.push(x).to_multiset(),
        insert_by_priority(s, x).len() == s.len() + 1,
    decreases s.len(),
{
    broadcast use vstd::seq_lib::group_to_multiset_ensures;

    if s.len() > 0 && s.last().priority > x.priority {
        let rest = s.drop_last();
        lemma_insert_by_priority(rest, x);
        let inner = insert_by_priority(rest, x);
        assert(s =~= rest.push(s.last()));
        assert(inner.to_multiset() =~= rest.to_multiset().insert(x));
        assert(inner.push(s.last()).to_multiset() =~= inner.to_multiset().insert(s.last()));
        assert(s.to_multiset() =~= rest.to_multiset().insert(s.last()));
        assert forall|k: int| 0 <= k < inner.len() implies (#[trigger] inner[k]).priority
            <= s.last().priority by {
            assert(inner.to_multiset().contains(inner[k]));
            if inner[k] != x {
                assert(rest.to_multiset().contains(inner[k]));
                assert(rest.contains(inner[k]));
                let j = choose|j: int| 0 <= j < rest.len() && rest[j] == inner[k];
                assert(s[j] == inner[k]);
            }
        }
    } else {
        assert(s.push(x).to_multiset() =~= s.to_multiset().insert(x));
    }
}

/// Ordering services by priority keeps every service and loses none, and what
/// comes out is in priority order.
pub proof fn law_services_ordered(s: Seq<Srv>)
    ensures
        in_priority_order(by_priority(s)),
        by_priority(s).to_multiset() =~= s.to_multiset(),
        by_priority(s).len() == s.len(),
    decreases s.len(),
{
    broadcast use vstd::seq_lib::group_to_multiset_ensures;

    if s.len() > 0 {
        law_services_ordered(s.drop_last());
        lemma_insert_by_priority(by_priority(s.drop_last()), s.last());
        assert(s =~= s.drop_last().push(s.last()));
    }
}

/// Every address comes from an answer-section record of the terminal name and
/// the asked type, and none comes twice.
pub proof fn law_addresses_come_from_answers(
    answers: Seq<AnswerValue>,
    owner: Seq<Seq<u8>>,
    kind: u16,
    n: nat,
)
    requires
        n <= answers.len(),
    ensures
        forall|k: int|
            0 <= k < addresses_upto(answers, owner, kind, n).len() ==> exists|i: int|
                0 <= i < n && selected(answers[i], owner, kind) && #[trigger] answers[i].data
                    == DataValue::Address(#[trigger] addresses_upto(answers, owner, kind, n)[k]),
        addresses_upto(answers, owner, kind, n).no_duplicates(),
    decreases n,
{
    if n > 0 {
        law_addresses_come_from_answers(answers, owner, kind, (n - 1) as nat);
        let before = addresses_upto(answers, owner, kind, (n - 1) as nat);
        let all = addresses_upto(answers, owner, kind, n);
        assert forall|k: int| 0 <= k < all.len() implies exists|i: int|
            0 <= i < n && selected(answers[i], owner, kind) && #[trigger] answers[i].data
                == DataValue::Address(#[trigger] all[k]) by {
            if k < before.len() {
                assert(all[k] == before[k]);
                let i = choose|i: int|
                    0 <= i < n - 1 && selected(answers[i], owner, kind)
                        && #[trigger] answers[i].data == DataValue::Address(before[k]);
                assert(answers[i].data == DataValue::Address(all[k]));
            } else {
                assert(answers[n - 1].data == DataValue::Address(all[k]));
            }
        }
    }
}

/// A service that may become an endpoint.
pub open spec fn usable(answer: AnswerValue) -> bool {
    answer.data matches DataValue::Service(Some(target)) ==> target.port != 0
        && target.target.len() > 0
}

proof fn lemma_joined_nonempty(labels: Seq<Seq<u8>>)
    requires
        labels.len() > 1 || (labels.len() == 1 && labels[0].len() > 0),
    ensures
        joined(labels).len() > 0,
{
}

/// Every label of a name that was read has at least one octet.
pub proof fn lemma_labels_nonempty(p: Seq<u8>, s: NameState, steps: nat)
    requires
        0 <= s.offset,
        forall|i: int| 0 <= i < s.labels.len() ==> (#[trigger] s.labels[i]).len() > 0,
    ensures
        name_from(p, s, steps) matches Ok((labels, _)) ==> forall|i: int|
            0 <= i < labels.len() ==> (#[trigger] labels[i]).len() > 0,
    decreases steps,
{
    let at = s.offset;
    if steps > 0 && !s.visited.contains(at) && at < p.len() && p[at] != 0 {
        if p[at] >= 192 {
            let target = (p[at] - 192) * 256 + p[at + 1];
            if at + 1 < p.len() && target >= 12 && target < at {
                lemma_labels_nonempty(
                    p,
                    NameState {
                        offset: target,
                        end: match s.end {
                            Some(end) => Some(end),
                            None => Some(at + 2),
                        },
                        visited: s.visited.push(at),
                        ..s
                    },
                    (steps - 1) as nat,
                );
            }
        } else if p[at] < 64 {
            let end = at + 1 + p[at];
            if end <= p.len() && s.size + p[at] + 1 <= 255 {
                let labels = s.labels.push(lower_bytes(p.subrange(at + 1, end)));
                assert forall|i: int| 0 <= i < labels.len() implies (#[trigger] labels[i]).len()
                    > 0 by {}
                lemma_labels_nonempty(
                    p,
                    NameState {
                        offset: end,
                        labels,
                        size: s.size + p[at] + 1,
                        visited: s.visited.push(at),
                        ..s
                    },
                    (steps - 1) as nat,
                );
            }
        }
    }
}

proof fn lemma_record_usable(p: Seq<u8>, section: int, offset: int, seen_opt: bool)
    requires
        0 <= offset,
        record_at(p, section, offset, seen_opt) is Ok,
    ensures
        usable(record_at(p, section, offset, seen_opt)->Ok_0.answer),
        0 <= record_at(p, section, offset, seen_opt)->Ok_0.end,
{
    let record = record_at(p, section, offset, seen_opt)->Ok_0;
    let header = name_at(p, offset)->Ok_0.1;
    if record.answer.kind == SRV {
        lemma_labels_nonempty(
            p,
            NameState {
                offset: header + 16,
                labels: Seq::empty(),
                end: None,
                size: 1,
                visited: Seq::empty(),
            },
            MAX_NAME_STEPS as nat,
        );
        let target = name_at(p, header + 16)->Ok_0.0;
        if name_text(target) is Some {
            lemma_joined_nonempty(target);
        }
    }
}

proof fn lemma_records_usable(
    p: Seq<u8>,
    section: int,
    left: nat,
    offset: int,
    answers: Seq<AnswerValue>,
    seen_opt: bool,
)
    requires
        0 <= offset,
        0 <= section,
        forall|i: int| 0 <= i < answers.len() ==> usable(#[trigger] answers[i]),
    ensures
        records_from(p, section, left, offset, answers, seen_opt) matches Ok((_, all)) ==> forall|
            i: int,
        |
            0 <= i < all.len() ==> usable(#[trigger] all[i]),
    decreases 3 - section, left,
{
    if section < 3 {
        if left == 0 {
            if section != 2 {
                lemma_records_usable(
                    p,
                    section + 1,
                    net::word_at(p, 8 + 2 * section) as nat,
                    offset,
                    answers,
                    seen_opt,
                );
            }
        } else if record_at(p, section, offset, seen_opt) is Ok {
            lemma_record_usable(p, section, offset, seen_opt);
            let record = record_at(p, section, offset, seen_opt)->Ok_0;
            let next = if section == 0 && record.class == IN {
                answers.push(record.answer)
            } else {
                answers
            };
            assert forall|i: int| 0 <= i < next.len() implies usable(#[trigger] next[i]) by {}
            lemma_records_usable(
                p,
                section,
                (left - 1) as nat,
                record.end,
                next,
                seen_opt || record.answer.kind == OPT,
            );
        }
    }
}

proof fn lemma_services_usable(
    answers: Seq<AnswerValue>,
    owner: Seq<Seq<u8>>,
    kind: u16,
    n: nat,
)
    requires
        n <= answers.len(),
        forall|i: int| 0 <= i < answers.len() ==> usable(#[trigger] answers[i]),
    ensures
        forall|k: int|
            0 <= k < services_upto(answers, owner, kind, n).len() ==> (#[trigger] services_upto(
                answers,
                owner,
                kind,
                n,
            )[k]).port != 0 && services_upto(answers, owner, kind, n)[k].target.len() > 0,
    decreases n,
{
    if n > 0 {
        lemma_services_usable(answers, owner, kind, (n - 1) as nat);
        assert(usable(answers[n - 1]));
        let before = services_upto(answers, owner, kind, (n - 1) as nat);
        let all = services_upto(answers, owner, kind, n);
        assert forall|k: int| 0 <= k < all.len() implies (#[trigger] all[k]).port != 0
            && all[k].target.len() > 0 by {
            if k < before.len() {
                assert(all[k] == before[k]);
            }
        }
    }
}

/// A root target and port zero never become an endpoint: every service of an
/// accepted response names a host and a port.
pub proof fn law_services_are_usable(id: u16, name: Seq<char>, kind: u16, p: Seq<u8>, k: int)
    requires
        response(id, name, kind, p) is Ok,
        0 <= k < response(id, name, kind, p)->Ok_0.srv_targets.len(),
    ensures
        response(id, name, kind, p)->Ok_0.srv_targets[k].port != 0,
        response(id, name, kind, p)->Ok_0.srv_targets[k].target.len() > 0,
{
    broadcast use vstd::seq_lib::group_to_multiset_ensures;

    let expected = host_name(name)->Ok_0;
    let end = name_at(p, 12)->Ok_0.1;
    let first = net::word_at(p, 6) as nat;
    lemma_records_usable(p, 0, first, end + 4, Seq::empty(), false);
    let answers = records_from(p, 0, first, end + 4, Seq::empty(), false)->Ok_0.1;
    let terminal = chain_from(answers, expected, seq![expected], MAX_CNAME_HOPS as nat)->Ok_0;
    let found = services_upto(answers, terminal, kind, answers.len());
    lemma_services_usable(answers, terminal, kind, answers.len());
    law_services_ordered(found);
    let target = response(id, name, kind, p)->Ok_0.srv_targets[k];
    assert(by_priority(found)[k] == target);
    assert(by_priority(found).to_multiset().contains(target));
    assert(found.to_multiset().contains(target));
    assert(found.contains(target));
}

/// Labels that a name on the wire can hold.
pub open spec fn wire_labels(labels: Seq<Seq<u8>>) -> bool {
    &&& wire_size(labels) <= 255
    &&& forall|i: int|
        0 <= i < labels.len() ==> 0 < (#[trigger] labels[i]).len() <= 63 && lower_bytes(labels[i])
            == labels[i]
}

spec fn wire_start(labels: Seq<Seq<u8>>, at: int, k: int) -> int {
    at + labels_wire(labels.take(k)).len()
}

spec fn wire_state(labels: Seq<Seq<u8>>, at: int, k: int) -> NameState {
    NameState {
        offset: wire_start(labels, at, k),
        labels: labels.take(k),
        end: None,
        size: wire_size(labels.take(k)) as int,
        visited: Seq::new(k as nat, |j: int| wire_start(labels, at, j)),
    }
}

proof fn lemma_wire_prefix(labels: Seq<Seq<u8>>, k: int)
    requires
        0 <= k <= labels.len(),
    ensures
        labels_wire(labels.take(k)).len() <= labels_wire(labels).len(),
        labels_wire(labels).take(labels_wire(labels.take(k)).len() as int) =~= labels_wire(
            labels.take(k),
        ),
        labels_wire(labels).len() + 1 == wire_size(labels),
    decreases labels.len(),
{
    if labels.len() == 0 {
        assert(labels.take(k) =~= labels);
    } else if k == labels.len() {
        assert(labels.take(k) =~= labels);
        lemma_wire_prefix(labels.drop_last(), k - 1);
    } else {
        lemma_wire_prefix(labels.drop_last(), k);
        assert(labels.drop_last().take(k) =~= labels.take(k));
    }
}

proof fn lemma_wire_sizes(labels: Seq<Seq<u8>>, k: int)
    requires
        0 <= k <= labels.len(),
        forall|i: int| 0 <= i < labels.len() ==> 0 < (#[trigger] labels[i]).len(),
    ensures
        wire_size(labels.take(k)) >= 1 + 2 * k,
        wire_size(labels.take(k)) <= wire_size(labels),
    decreases labels.len() - k, k,
{
    if k < labels.len() {
        lemma_wire_sizes(labels, k + 1);
        assert(labels.take(k + 1).drop_last() =~= labels.take(k));
    } else {
        assert(labels.take(k) =~= labels);
    }
    lemma_wire_size_floor(labels.take(k));
}

proof fn lemma_wire_size_floor(labels: Seq<Seq<u8>>)
    requires
        forall|i: int| 0 <= i < labels.len() ==> 0 < (#[trigger] labels[i]).len(),
    ensures
        wire_size(labels) >= 1 + 2 * labels.len(),
    decreases labels.len(),
{
    if labels.len() > 0 {
        lemma_wire_size_floor(labels.drop_last());
        assert(labels.last() == labels[labels.len() - 1]);
    }
}

proof fn lemma_read_wire(p: Seq<u8>, labels: Seq<Seq<u8>>, at: int, k: int)
    requires
        wire_labels(labels),
        0 <= at,
        at + name_wire(labels).len() <= p.len(),
        p.subrange(at, at + name_wire(labels).len()) == name_wire(labels),
        0 <= k <= labels.len(),
    ensures
        name_from(p, wire_state(labels, at, k), (MAX_NAME_STEPS - k) as nat) == Ok::<_, Seq<char>>(
            (labels, at + name_wire(labels).len()),
        ),
    decreases labels.len() - k,
{
    let s = wire_state(labels, at, k);
    let wire = name_wire(labels);
    let here = s.offset;
    lemma_wire_prefix(labels, k);
    lemma_wire_sizes(labels, k);
    lemma_wire_sizes(labels, labels.len() as int);
    assert(labels.take(labels.len() as int) =~= labels);
    assert(k <= 127);
    assert(!s.visited.contains(here)) by {
        assert forall|j: int| 0 <= j < k implies s.visited[j] < here by {
            lemma_wire_prefix(labels.take(k), j);
            assert(labels.take(k).take(j) =~= labels.take(j));
            lemma_wire_prefix(labels.take(j + 1), j);
            assert(labels.take(j + 1).drop_last() =~= labels.take(j));
            lemma_wire_prefix(labels.take(k), j + 1);
            assert(labels.take(k).take(j + 1) =~= labels.take(j + 1));
        }
    }
    let local = here - at;
    assert(forall|i: int| 0 <= i < wire.len() ==> p[at + i] == wire[i]) by {
        assert forall|i: int| 0 <= i < wire.len() implies p[at + i] == wire[i] by {
            assert(p.subrange(at, at + wire.len())[i] == p[at + i]);
        }
    }
    if k == labels.len() {
        assert(labels.take(k) =~= labels);
        assert(wire[local] == 0);
        assert(p[here] == 0);
    } else {
        let label = labels[k];
        lemma_wire_prefix(labels, k + 1);
        let upto = labels_wire(labels.take(k + 1));
        assert(labels.take(k + 1).drop_last() =~= labels.take(k));
        assert(labels.take(k + 1).last() == label);
        assert(upto =~= labels_wire(labels.take(k)).push(label.len() as u8) + label);
        assert forall|i: int| 0 <= i < upto.len() implies wire[i] == upto[i] by {
            assert(labels_wire(labels).take(upto.len() as int)[i] == upto[i]);
        }
        assert(wire[local] == upto[local]);
        assert(p[here] == label.len());
        assert(p.subrange(here + 1, here + 1 + label.len()) =~= label) by {
            assert forall|i: int| 0 <= i < label.len() implies p[here + 1 + i] == label[i] by {
                assert(wire[local + 1 + i] == upto[local + 1 + i]);
                assert(p[at + (local + 1 + i)] == wire[local + 1 + i]);
            }
        }
        let next = wire_state(labels, at, k + 1);
        assert(next.labels =~= s.labels.push(label));
        assert(next.visited =~= s.visited.push(here));
        lemma_wire_sizes(labels, k + 1);
        lemma_read_wire(p, labels, at, k + 1);
    }
}

/// A name on the wire reads back.
pub(crate) proof fn lemma_name_reads(p: Seq<u8>, labels: Seq<Seq<u8>>, at: int)
    requires
        wire_labels(labels),
        0 <= at,
        at + name_wire(labels).len() <= p.len(),
        p.subrange(at, at + name_wire(labels).len()) == name_wire(labels),
    ensures
        name_at(p, at) == Ok::<_, Seq<char>>((labels, at + name_wire(labels).len())),
{
    assert(labels.take(0) =~= Seq::empty());
    assert(wire_state(labels, at, 0).visited =~= Seq::empty());
    lemma_read_wire(p, labels, at, 0);
}

/// The labels of a host name can be written.
pub(crate) proof fn lemma_host_labels(name: Seq<char>)
    requires
        host_name(name) is Ok,
    ensures
        wire_labels(host_labels(name)),
        host_name(name) == Ok::<_, Seq<char>>(host_labels(name)),
{
    lemma_host_labels_wire(name);
}

proof fn lemma_host_labels_wire(name: Seq<char>)
    requires
        host_name(name) is Ok,
    ensures
        wire_labels(host_labels(name)),
{
    let parts = text::split(bare_host(name), '.');
    let labels = host_labels(name);
    assert forall|i: int| 0 <= i < labels.len() implies 0 < (#[trigger] labels[i]).len() <= 63
        && lower_bytes(labels[i]) == labels[i] by {
        assert(valid_label(parts[i]));
        assert(lower_bytes(labels[i]) =~= labels[i]);
    }
}

/// The question that a query asks reads back as the name that was asked for,
/// in lower case and label by label.
pub proof fn law_query_name_reads_back(id: u16, name: Seq<char>, kind: u16)
    requires
        query(id, name, kind) is Ok,
    ensures
        name_at(query(id, name, kind)->Ok_0, 12) == Ok::<_, Seq<char>>(
            (host_labels(name), 12int + name_wire(host_labels(name)).len()),
        ),
{
    let labels = host_labels(name);
    let p = query(id, name, kind)->Ok_0;
    lemma_host_labels_wire(name);
    assert(p.subrange(12, 12int + name_wire(labels).len()) =~= name_wire(labels));
    assert(labels.take(0) =~= Seq::empty());
    assert(wire_state(labels, 12, 0).visited =~= Seq::empty());
    lemma_read_wire(p, labels, 12, 0);
}

} // verus!
