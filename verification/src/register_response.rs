//! What a REGISTER exchange says of its binding.

use crate::sip_frame::{header_value, header_values, is_request};
use crate::text::{chars_of, find, is_alike, is_alike_text, parse_u32, part_before, parts, split_once};
use crate::text::{string_of, trimmed, trimmed_char, words_of};
use crate::{sip_frame, text};
use vstd::prelude::*;
use vstd::slice::slice_subrange;

verus! {

// ------------------------------------------------------------- quoted scanning

/// What surrounds a character of a SIP header value.
#[derive(Clone, Copy)]
pub struct Mode {
    pub quoted: bool,
    pub escaped: bool,
    pub angle: bool,
}

pub open spec fn plain() -> Mode {
    Mode { quoted: false, escaped: false, angle: false }
}

/// What surrounds the character behind `c`.
pub open spec fn next_mode(m: Mode, c: char) -> Mode {
    if m.quoted {
        if m.escaped {
            Mode { escaped: false, ..m }
        } else if c == '\\' {
            Mode { escaped: true, ..m }
        } else if c == '"' {
            Mode { quoted: false, ..m }
        } else {
            m
        }
    } else if c == '"' {
        Mode { quoted: true, escaped: false, ..m }
    } else if c == '<' {
        Mode { angle: true, ..m }
    } else if c == '>' {
        Mode { angle: false, ..m }
    } else {
        m
    }
}

fn advance(m: Mode, c: char) -> (r: Mode)
    ensures
        r == next_mode(m, c),
{
    if m.quoted {
        if m.escaped {
            Mode { quoted: m.quoted, escaped: false, angle: m.angle }
        } else if c == '\\' {
            Mode { quoted: m.quoted, escaped: true, angle: m.angle }
        } else if c == '"' {
            Mode { quoted: false, escaped: m.escaped, angle: m.angle }
        } else {
            m
        }
    } else if c == '"' {
        Mode { quoted: true, escaped: false, angle: m.angle }
    } else if c == '<' {
        Mode { quoted: m.quoted, escaped: m.escaped, angle: true }
    } else if c == '>' {
        Mode { quoted: m.quoted, escaped: m.escaped, angle: false }
    } else {
        m
    }
}

/// The parts that `sep` divides outside quotes and angle brackets; the current
/// part began at `start`, and `m` surrounds the character at `i`.
pub open spec fn free_split_from(s: Seq<char>, sep: char, start: int, i: int, m: Mode) -> Seq<
    Seq<char>,
>
    decreases s.len() - i,
{
    if i >= s.len() {
        seq![s.subrange(start, s.len() as int)]
    } else if s[i] == sep && !m.quoted && !m.angle {
        seq![s.subrange(start, i)] + free_split_from(s, sep, i + 1, i + 1, m)
    } else {
        free_split_from(s, sep, start, i + 1, next_mode(m, s[i]))
    }
}

pub open spec fn free_split(s: Seq<char>, sep: char) -> Seq<Seq<char>> {
    free_split_from(s, sep, 0, 0, plain())
}

fn free_parts<'a>(s: &'a [char], sep: char) -> (r: Vec<&'a [char]>)
    ensures
        text::views(r@) == free_split(s@, sep),
{
    let mut r: Vec<&'a [char]> = Vec::new();
    let mut start: usize = 0;
    let mut i: usize = 0;
    let mut m = Mode { quoted: false, escaped: false, angle: false };
    assert(free_split(s@, sep) =~= text::views(r@) + free_split_from(s@, sep, 0, 0, m));
    while i < s.len()
        invariant
            start <= i <= s@.len(),
            free_split(s@, sep) == text::views(r@) + free_split_from(
                s@,
                sep,
                start as int,
                i as int,
                m,
            ),
        decreases s@.len() - i,
    {
        if s[i] == sep && !m.quoted && !m.angle {
            let ghost before = r@;
            r.push(slice_subrange(s, start, i));
            assert(text::views(before) + free_split_from(s@, sep, start as int, i as int, m)
                =~= text::views(r@) + free_split_from(s@, sep, i + 1, i + 1, m));
            start = i + 1;
        } else {
            m = advance(m, s[i]);
        }
        i += 1;
    }
    let ghost before = r@;
    r.push(slice_subrange(s, start, s.len()));
    assert(text::views(before) + free_split_from(s@, sep, start as int, i as int, m)
        =~= text::views(r@));
    r
}

/// The items of a comma-separated header value.
pub fn split_sip_list<'a>(value: &'a [char]) -> (r: Vec<&'a [char]>)
    ensures
        text::views(r@) == free_split(value@, ','),
{
    free_parts(value, ',')
}

/// The parts of a header value that semicolons divide.
pub fn split_sip_parameters<'a>(value: &'a [char]) -> (r: Vec<&'a [char]>)
    ensures
        text::views(r@) == free_split(value@, ';'),
{
    free_parts(value, ';')
}

/// The first unquoted `<` at or after `i`, or the length.
pub open spec fn open_from(s: Seq<char>, i: int, m: Mode) -> int
    decreases s.len() - i,
{
    if i >= s.len() {
        s.len() as int
    } else if s[i] == '<' && !m.quoted {
        i
    } else {
        open_from(s, i + 1, next_mode(m, s[i]))
    }
}

/// Where the URI of a name-addr is bracketed.
pub open spec fn brackets(s: Seq<char>) -> Option<(int, int)> {
    let open = open_from(s, 0, plain());
    let close = text::find_from(s, '>', open);
    if 0 <= open < s.len() && close < s.len() {
        Some((open, close))
    } else {
        None
    }
}

/// The indices of the brackets around a name-addr's URI.
pub fn name_addr_range(value: &[char]) -> (r: Option<(usize, usize)>)
    ensures
        match r {
            Some((open, close)) => brackets(value@) == Some((open as int, close as int)) && open
                <= close < value@.len(),
            None => brackets(value@) is None,
        },
{
    let mut m = Mode { quoted: false, escaped: false, angle: false };
    let mut i: usize = 0;
    while i < value.len() && !(value[i] == '<' && !m.quoted)
        invariant
            i <= value@.len(),
            open_from(value@, 0, plain()) == open_from(value@, i as int, m),
        decreases value@.len() - i,
    {
        m = advance(m, value[i]);
        i += 1;
    }
    if i == value.len() {
        return None;
    }
    assert(open_from(value@, 0, plain()) == i);
    let close: usize = find(value, '>', i);
    if close < value.len() {
        Some((i, close))
    } else {
        None
    }
}

// ------------------------------------------------------------------ parameters

/// Where the header parameters of a Contact begin.
pub open spec fn parameters_start(value: Seq<char>) -> int {
    match brackets(value) {
        Some((_, close)) => close + 1,
        None => text::find_from(value, ';', 0),
    }
}

/// A parameter's value without quotes and angle brackets.
pub open spec fn bare_value(value: Seq<char>) -> Seq<char> {
    text::trim_char(text::trim_char(text::trim_char(text::trim(value), '"'), '<'), '>')
}

/// The value of a parameter of this name among parts from `i` on.
pub open spec fn parameter_from(parts: Seq<Seq<char>>, name: Seq<char>, i: int) -> Option<Seq<char>>
    decreases parts.len() - i,
{
    if i >= parts.len() {
        None
    } else {
        match text::cut(parts[i], '=') {
            Some((key, value)) => if text::alike(text::trim(key), name) {
                Some(bare_value(value))
            } else {
                parameter_from(parts, name, i + 1)
            },
            None => parameter_from(parts, name, i + 1),
        }
    }
}

/// The value of a Contact's header parameter.
pub open spec fn contact_parameter_of(value: Seq<char>, name: Seq<char>) -> Option<Seq<char>> {
    let rest = value.subrange(parameters_start(value), value.len() as int);
    parameter_from(free_split(rest, ';'), name, 1)
}

fn bare(value: &[char]) -> (r: &[char])
    ensures
        r@ == bare_value(value@),
{
    trimmed_char(trimmed_char(trimmed_char(trimmed(value), '"'), '<'), '>')
}

fn parameter_of(value: &[char], name: &str) -> (r: Option<String>)
    ensures
        text::opt_text(r) == contact_parameter_of(value@, name@),
{
    let end: usize = value.len();
    let start: usize = match name_addr_range(value) {
        Some((_, close)) => close + 1,
        None => find(value, ';', 0),
    };
    let pieces = split_sip_parameters(slice_subrange(value, start, end));
    let ghost all = free_split(value@.subrange(start as int, value@.len() as int), ';');
    let wanted = chars_of(name);
    let mut i: usize = 1;
    while i < pieces.len()
        invariant
            1 <= i,
            i <= pieces@.len() || pieces@.len() == 0,
            text::views(pieces@) == all,
            wanted@ == name@,
            contact_parameter_of(value@, name@) == parameter_from(all, name@, i as int),
        decreases pieces@.len() - i,
    {
        assert(all[i as int] == pieces@[i as int]@);
        if let Some((key, found)) = split_once(pieces[i], '=') {
            if is_alike(trimmed(key), wanted.as_slice()) {
                return Some(string_of(bare(found)));
            }
        }
        i += 1;
    }
    None
}

/// The value of a Contact's header parameter, without quotes and brackets.
pub fn contact_parameter(value: &str, name: &str) -> (r: Option<String>)
    ensures
        text::opt_text(r) == contact_parameter_of(value@, name@),
{
    let all = chars_of(value);
    parameter_of(all.as_slice(), name)
}

// ---------------------------------------------------------------- transactions

/// What ties a response to its REGISTER.
#[derive(Debug, Clone, PartialEq, Eq)]
pub struct RegisterTransactionKey {
    pub call_id: String,
    pub cseq: u32,
}

/// A transaction key as a value.
pub struct TransactionKey {
    pub call_id: Seq<char>,
    pub cseq: nat,
}

impl View for RegisterTransactionKey {
    type V = TransactionKey;

    open spec fn view(&self) -> TransactionKey {
        TransactionKey { call_id: self.call_id@, cseq: self.cseq as nat }
    }
}

/// The number of a REGISTER's CSeq.
pub open spec fn register_cseq(value: Seq<char>) -> Option<nat> {
    let words = text::words(value);
    if words.len() == 2 && text::alike(words[1], "REGISTER"@) {
        text::unsigned(words[0], u32::MAX as nat)
    } else {
        None
    }
}

/// The key that a frame's Call-ID and CSeq make.
pub open spec fn frame_key(frame: Seq<u8>) -> Option<TransactionKey> {
    match (sip_frame::header_of(frame, "Call-ID"@), sip_frame::header_of(frame, "CSeq"@)) {
        (Some(call_id), Some(cseq)) => match register_cseq(cseq) {
            Some(number) => Some(TransactionKey { call_id, cseq: number }),
            None => None,
        },
        _ => None,
    }
}

/// The key of a REGISTER request.
pub open spec fn request_key(frame: Seq<u8>) -> Option<TransactionKey> {
    if sip_frame::request_is(frame, "REGISTER"@) {
        frame_key(frame)
    } else {
        None
    }
}

/// Is `response` a response to the REGISTER `request`?
pub open spec fn answers(request: Seq<u8>, response: Seq<u8>) -> bool {
    &&& request_key(request) is Some
    &&& text::starts(sip_frame::head_text(response), "SIP/2.0 "@)
    &&& frame_key(response) == request_key(request)
}

pub open spec fn opt_key(o: Option<RegisterTransactionKey>) -> Option<TransactionKey> {
    match o {
        Some(key) => Some(key@),
        None => None,
    }
}

fn key_of(frame: &[u8]) -> (r: Option<RegisterTransactionKey>)
    ensures
        opt_key(r) == frame_key(frame@),
{
    let call_id = match header_value(frame, "Call-ID") {
        Some(value) => value,
        None => return None,
    };
    let cseq = match header_value(frame, "CSeq") {
        Some(value) => chars_of(value.as_str()),
        None => return None,
    };
    let words = words_of(cseq.as_slice());
    assert(words@.len() == text::views(words@).len());
    if words.len() != 2 {
        return None;
    }
    assert(text::views(words@)[0] == words@[0]@);
    assert(text::views(words@)[1] == words@[1]@);
    if !is_alike_text(words[1], "REGISTER") {
        return None;
    }
    match parse_u32(words[0]) {
        Some(number) => Some(RegisterTransactionKey { call_id, cseq: number }),
        None => None,
    }
}

impl RegisterTransactionKey {
    pub fn from_register_request(request: &[u8]) -> (r: Option<Self>)
        ensures
            opt_key(r) == request_key(request@),
    {
        if is_request(request, "REGISTER") {
            key_of(request)
        } else {
            None
        }
    }

    pub fn matches_response(&self, response: &[u8]) -> (r: bool)
        ensures
            r == (text::starts(sip_frame::head_text(response@), "SIP/2.0 "@) && frame_key(response@)
                == Some(self@)),
    {
        if !sip_frame::is_response(response) {
            return false;
        }
        match key_of(response) {
            Some(key) => text::str_same(key.call_id.as_str(), self.call_id.as_str()) && key.cseq
                == self.cseq,
            None => false,
        }
    }
}

// ------------------------------------------------------------------- artifacts

/// What a successful REGISTER response says of its binding.
#[derive(Debug, Clone, Copy, PartialEq, Eq, Structural)]
pub struct RegisterArtifacts {
    pub expires_seconds: Option<u32>,
    /// The response lists this flow's own binding.
    pub own_binding_found: bool,
    /// The response requires outbound.
    pub outbound_required: bool,
    /// The first hop supports outbound.
    pub first_hop_outbound: bool,
    pub flow_timer_seconds: Option<u32>,
}

impl Default for RegisterArtifacts {
    fn default() -> (r: Self)
        ensures
            r == (RegisterArtifacts {
                expires_seconds: None,
                own_binding_found: false,
                outbound_required: false,
                first_hop_outbound: false,
                flow_timer_seconds: None,
            }),
    {
        RegisterArtifacts {
            expires_seconds: None,
            own_binding_found: false,
            outbound_required: false,
            first_hop_outbound: false,
            flow_timer_seconds: None,
        }
    }
}

/// Is `token` listed in one of the values?
pub open spec fn any_lists(values: Seq<Seq<char>>, token: Seq<char>) -> bool {
    exists|i: int| 0 <= i < values.len() && sip_frame::part_alike(#[trigger] values[i], ',', token)
}

/// The values of an option header; Supported has the compact form `k`.
pub open spec fn option_values(frame: Seq<u8>, header: Seq<char>) -> Seq<Seq<char>> {
    if text::alike(header, "Supported"@) {
        sip_frame::header_values_of(frame, header) + sip_frame::header_values_of(frame, "k"@)
    } else {
        sip_frame::header_values_of(frame, header)
    }
}

pub open spec fn option_listed(frame: Seq<u8>, header: Seq<char>, token: Seq<char>) -> bool {
    any_lists(option_values(frame, header), token)
}

fn any_listed(values: &Vec<String>, token: &str) -> (r: bool)
    ensures
        r == any_lists(text::texts(values@), token@),
{
    let ghost all = text::texts(values@);
    let mut i: usize = 0;
    while i < values.len()
        invariant
            i <= values@.len(),
            all == text::texts(values@),
            forall|k: int| 0 <= k < i ==> !sip_frame::part_alike(#[trigger] all[k], ',', token@),
        decreases values@.len() - i,
    {
        let value = chars_of(values[i].as_str());
        assert(all[i as int] == values@[i as int]@);
        if sip_frame::has_part(value.as_slice(), ',', token) {
            return true;
        }
        i += 1;
    }
    false
}

/// Does the frame list an option token in this header?
pub fn has_option(frame: &[u8], header: &str, token: &str) -> (r: bool)
    ensures
        r == option_listed(frame@, header@, token@),
{
    let name = chars_of(header);
    let values = header_values(frame, header);
    let ghost first = text::texts(values@);
    if is_alike_text(name.as_slice(), "Supported") {
        let compact = header_values(frame, "k");
        let ghost second = text::texts(compact@);
        let ghost both = first + second;
        let a: bool = any_listed(&values, token);
        let b: bool = any_listed(&compact, token);
        proof {
            if a {
                let i = choose|i: int| 0 <= i < first.len() && sip_frame::part_alike(first[i], ',', token@);
                assert(both[i] == first[i]);
            }
            if b {
                let i = choose|i: int| 0 <= i < second.len() && sip_frame::part_alike(second[i], ',', token@);
                assert(both[first.len() + i] == second[i]);
            }
            if any_lists(both, token@) {
                let i = choose|i: int| 0 <= i < both.len() && sip_frame::part_alike(both[i], ',', token@);
                if i < first.len() {
                    assert(both[i] == first[i]);
                } else {
                    assert(both[i] == second[i - first.len()]);
                }
            }
        }
        a || b
    } else {
        any_listed(&values, token)
    }
}

/// The list items of the values before `n`.
pub open spec fn items_upto(values: Seq<Seq<char>>, n: int) -> Seq<Seq<char>>
    decreases n,
{
    if n <= 0 {
        Seq::empty()
    } else {
        items_upto(values, n - 1) + free_split(values[n - 1], ',')
    }
}

pub open spec fn items_of(values: Seq<Seq<char>>) -> Seq<Seq<char>> {
    items_upto(values, values.len() as int)
}

fn list_items(values: &Vec<String>) -> (r: Vec<String>)
    ensures
        text::texts(r@) == items_of(text::texts(values@)),
{
    let ghost all = text::texts(values@);
    let mut r: Vec<String> = Vec::new();
    assert(text::texts(r@) =~= Seq::empty());
    let mut i: usize = 0;
    while i < values.len()
        invariant
            i <= values@.len(),
            all == text::texts(values@),
            text::texts(r@) == items_upto(all, i as int),
        decreases values@.len() - i,
    {
        let value = chars_of(values[i].as_str());
        assert(all[i as int] == value@);
        let pieces = split_sip_list(value.as_slice());
        let ghost parts = free_split(value@, ',');
        let ghost known = text::texts(r@);
        let mut j: usize = 0;
        assert(parts.take(0) =~= Seq::empty());
        while j < pieces.len()
            invariant
                j <= pieces@.len(),
                text::views(pieces@) == parts,
                text::texts(r@) == known + parts.take(j as int),
            decreases pieces@.len() - j,
        {
            assert(parts[j as int] == pieces@[j as int]@);
            let ghost before = r@;
            r.push(string_of(pieces[j]));
            j += 1;
            assert(text::texts(r@) =~= text::texts(before).push(parts[j - 1]));
            assert(text::texts(r@) =~= known + parts.take(j as int));
        }
        assert(parts.take(parts.len() as int) =~= parts);
        i += 1;
    }
    r
}

/// The bindings that a response lists.
pub open spec fn contacts_of(frame: Seq<u8>) -> Seq<Seq<char>> {
    items_of(
        sip_frame::header_values_of(frame, "Contact"@) + sip_frame::header_values_of(frame, "m"@),
    )
}

/// Is one of the parts behind the first a parameter of this name?
pub open spec fn names_parameter(parts: Seq<Seq<char>>, name: Seq<char>) -> bool {
    exists|i: int|
        1 <= i < parts.len() && text::alike(
            text::trim(text::before(#[trigger] parts[i], '=')),
            name,
        )
}

/// Does a bracketed URI carry this parameter?
pub open spec fn uri_has_parameter(item: Seq<char>, name: Seq<char>) -> bool {
    match brackets(item) {
        Some((open, close)) => names_parameter(
            text::split(item.subrange(open + 1, close), ';'),
            name,
        ),
        None => false,
    }
}

/// Does the first hop support outbound? Without a Path the next hop is the
/// registrar; with one, its last URI must carry `ob`.
pub open spec fn first_hop_supports(frame: Seq<u8>) -> bool {
    let path = items_of(sip_frame::header_values_of(frame, "Path"@));
    path.len() == 0 || uri_has_parameter(path.last(), "ob"@)
}

/// A number of seconds.
pub open spec fn seconds(value: Option<Seq<char>>) -> Option<u32> {
    match value {
        Some(v) => match text::unsigned(text::trim(v), u32::MAX as nat) {
            Some(n) => Some(n as u32),
            None => None,
        },
        None => None,
    }
}

/// The lifetime of a listed binding: its own parameter, or the response's header.
pub open spec fn binding_expires(frame: Seq<u8>, contact: Seq<char>) -> Option<u32> {
    match seconds(contact_parameter_of(contact, "expires"@)) {
        Some(n) => Some(n),
        None => seconds(sip_frame::header_of(frame, "Expires"@)),
    }
}

/// Is this the binding of the instance and flow?
pub open spec fn is_binding(contact: Seq<char>, instance: Seq<char>, reg_id: u32) -> bool {
    &&& contact_parameter_of(contact, "+sip.instance"@) == Some(instance)
    &&& seconds(contact_parameter_of(contact, "reg-id"@)) == Some(reg_id)
}

/// The first listed binding of the instance and flow, from `i` on.
pub open spec fn own_from(
    contacts: Seq<Seq<char>>,
    instance: Seq<char>,
    reg_id: u32,
    i: int,
) -> Option<Seq<char>>
    decreases contacts.len() - i,
{
    if i >= contacts.len() {
        None
    } else if is_binding(contacts[i], instance, reg_id) {
        Some(contacts[i])
    } else {
        own_from(contacts, instance, reg_id, i + 1)
    }
}

/// What a response says, whichever binding is meant.
pub open spec fn artifacts_of(frame: Seq<u8>) -> RegisterArtifacts {
    let contacts = contacts_of(frame);
    RegisterArtifacts {
        expires_seconds: if contacts.len() > 0 {
            binding_expires(frame, contacts[0])
        } else {
            seconds(sip_frame::header_of(frame, "Expires"@))
        },
        own_binding_found: false,
        outbound_required: option_listed(frame, "Require"@, "outbound"@),
        first_hop_outbound: first_hop_supports(frame),
        flow_timer_seconds: seconds(sip_frame::header_of(frame, "Flow-Timer"@)),
    }
}

/// What a response says of one binding; another binding's lifetime is never
/// borrowed.
pub open spec fn binding_artifacts_of(
    frame: Seq<u8>,
    instance: Seq<char>,
    reg_id: u32,
) -> RegisterArtifacts {
    let own = own_from(contacts_of(frame), instance, reg_id, 0);
    RegisterArtifacts {
        expires_seconds: match own {
            Some(contact) => binding_expires(frame, contact),
            None => None,
        },
        own_binding_found: own is Some,
        ..artifacts_of(frame)
    }
}

fn read_seconds(value: Option<String>) -> (r: Option<u32>)
    ensures
        r == seconds(text::opt_text(value)),
{
    match value {
        Some(v) => {
            let all = chars_of(v.as_str());
            parse_u32(trimmed(all.as_slice()))
        },
        None => None,
    }
}

fn contacts(frame: &[u8]) -> (r: Vec<String>)
    ensures
        text::texts(r@) == contacts_of(frame@),
{
    let mut values = header_values(frame, "Contact");
    let ghost first = text::texts(values@);
    let compact = header_values(frame, "m");
    let ghost second = text::texts(compact@);
    let mut i: usize = 0;
    assert(first =~= first + second.take(0));
    while i < compact.len()
        invariant
            i <= compact@.len(),
            text::texts(compact@) == second,
            text::texts(values@) == first + second.take(i as int),
        decreases compact@.len() - i,
    {
        assert(second[i as int] == compact@[i as int]@);
        let ghost before = values@;
        values.push(compact[i].clone());
        i += 1;
        assert(text::texts(values@) =~= text::texts(before).push(second[i - 1]));
        assert(text::texts(values@) =~= first + second.take(i as int));
    }
    assert(second.take(second.len() as int) =~= second);
    list_items(&values)
}

fn parameter_named(pieces: &Vec<&[char]>, name: &str) -> (r: bool)
    ensures
        r == names_parameter(text::views(pieces@), name@),
{
    let ghost all = text::views(pieces@);
    let wanted = chars_of(name);
    let mut i: usize = 1;
    while i < pieces.len()
        invariant
            1 <= i,
            i <= pieces@.len() || pieces@.len() == 0,
            text::views(pieces@) == all,
            wanted@ == name@,
            forall|k: int|
                1 <= k < i && k < all.len() ==> !text::alike(
                    text::trim(text::before(#[trigger] all[k], '=')),
                    name@,
                ),
        decreases pieces@.len() - i,
    {
        assert(all[i as int] == pieces@[i as int]@);
        if is_alike(trimmed(part_before(pieces[i], '=')), wanted.as_slice()) {
            return true;
        }
        i += 1;
    }
    false
}

fn carries_parameter(item: &[char], name: &str) -> (r: bool)
    ensures
        r == uri_has_parameter(item@, name@),
{
    match name_addr_range(item) {
        None => false,
        Some((open, close)) => {
            proof {
                text::lemma_find(item@, '>', open as int);
                lemma_open(item@, 0, plain());
            }
            let pieces = parts(slice_subrange(item, open + 1, close), ';');
            parameter_named(&pieces, name)
        },
    }
}

proof fn lemma_open(s: Seq<char>, i: int, m: Mode)
    requires
        0 <= i,
    ensures
        open_from(s, i, m) < s.len() ==> i <= open_from(s, i, m) && s[open_from(s, i, m)] == '<',
    decreases s.len() - i,
{
    if i < s.len() && !(s[i] == '<' && !m.quoted) {
        lemma_open(s, i + 1, next_mode(m, s[i]));
    }
}

fn first_hop(frame: &[u8]) -> (r: bool)
    ensures
        r == first_hop_supports(frame@),
{
    let values = header_values(frame, "Path");
    let items = list_items(&values);
    let ghost all = text::texts(items@);
    assert(items@.len() == all.len());
    if items.len() == 0 {
        return true;
    }
    let last = chars_of(items[items.len() - 1].as_str());
    assert(all.last() == last@);
    carries_parameter(last.as_slice(), "ob")
}

fn expires_of(frame: &[u8], contact: &[char]) -> (r: Option<u32>)
    ensures
        r == binding_expires(frame@, contact@),
{
    match read_seconds(parameter_of(contact, "expires")) {
        Some(n) => Some(n),
        None => read_seconds(header_value(frame, "Expires")),
    }
}

impl RegisterArtifacts {
    pub fn parse(response: &[u8]) -> (r: Self)
        ensures
            r == artifacts_of(response@),
    {
        let list = contacts(response);
        assert(list@.len() == text::texts(list@).len());
        let expires_seconds = if list.len() > 0 {
            let contact = chars_of(list[0].as_str());
            assert(text::texts(list@)[0] == contact@);
            expires_of(response, contact.as_slice())
        } else {
            read_seconds(header_value(response, "Expires"))
        };
        RegisterArtifacts {
            expires_seconds,
            own_binding_found: false,
            outbound_required: has_option(response, "Require", "outbound"),
            first_hop_outbound: first_hop(response),
            flow_timer_seconds: read_seconds(header_value(response, "Flow-Timer")),
        }
    }

    pub fn parse_for_binding(response: &[u8], instance: &str, reg_id: u32) -> (r: Self)
        ensures
            r == binding_artifacts_of(response@, instance@, reg_id),
    {
        let general = RegisterArtifacts::parse(response);
        let list = contacts(response);
        let ghost all = text::texts(list@);
        let mut i: usize = 0;
        while i < list.len()
            invariant
                i <= list@.len(),
                all == text::texts(list@),
                all == contacts_of(response@),
                general == artifacts_of(response@),
                own_from(all, instance@, reg_id, 0) == own_from(all, instance@, reg_id, i as int),
            decreases list@.len() - i,
        {
            let contact = chars_of(list[i].as_str());
            assert(all[i as int] == contact@);
            let found = match parameter_of(contact.as_slice(), "+sip.instance") {
                Some(value) => text::str_same(value.as_str(), instance),
                None => false,
            };
            if found && read_seconds(parameter_of(contact.as_slice(), "reg-id")) == Some(reg_id) {
                return RegisterArtifacts {
                    expires_seconds: expires_of(response, contact.as_slice()),
                    own_binding_found: true,
                    outbound_required: general.outbound_required,
                    first_hop_outbound: general.first_hop_outbound,
                    flow_timer_seconds: general.flow_timer_seconds,
                };
            }
            i += 1;
        }
        RegisterArtifacts {
            expires_seconds: None,
            own_binding_found: false,
            outbound_required: general.outbound_required,
            first_hop_outbound: general.first_hop_outbound,
            flow_timer_seconds: general.flow_timer_seconds,
        }
    }
}

} // verus!
