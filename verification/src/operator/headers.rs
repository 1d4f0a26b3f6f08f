//! What the voice adapter reads from SIP headers and writes into them.

use crate::context::{ImsIdentity, ImsRoute};
use crate::{ip_text, sip_frame, text};
use vstd::prelude::*;
use vstd::slice::slice_subrange;

verus! {

/// The first part from `i` on that, trimmed, begins with a prefix: what follows.
pub open spec fn prefixed_from(parts: Seq<Seq<char>>, prefix: Seq<char>, i: int) -> Option<
    Seq<char>,
>
    decreases parts.len() - i,
{
    if i < 0 || i >= parts.len() {
        None
    } else {
        match text::without_prefix(text::trim(parts[i]), prefix) {
            Some(rest) => Some(rest),
            None => prefixed_from(parts, prefix, i + 1),
        }
    }
}

/// The branch of a Via value.
pub open spec fn branch_in(via: Seq<char>) -> Option<Seq<char>> {
    prefixed_from(text::split(via, ';'), "branch="@, 0)
}

pub open spec fn branch_of(frame: Seq<u8>) -> Option<Seq<char>> {
    match sip_frame::header_of(frame, "Via"@) {
        Some(via) => branch_in(via),
        None => None,
    }
}

/// The branch that a Via value carries.
pub fn via_branch(via: &str) -> (r: Option<String>)
    ensures
        text::opt_text(r) == branch_in(via@),
{
    let chars = text::chars_of(via);
    let parts = text::parts(chars.as_slice(), ';');
    let ghost all = text::split(via@, ';');
    let mut i: usize = 0;
    while i < parts.len()
        invariant
            i <= parts@.len(),
            all == text::views(parts@),
            all == text::split(via@, ';'),
            branch_in(via@) == prefixed_from(all, "branch="@, i as int),
        decreases parts@.len() - i,
    {
        assert(all[i as int] == parts@[i as int]@);
        match text::strip_prefix(text::trimmed(parts[i]), "branch=") {
            Some(rest) => {
                return Some(text::string_of(rest));
            },
            None => {},
        }
        i += 1;
    }
    None
}

pub fn top_via_branch(frame: &[u8]) -> (r: Option<String>)
    ensures
        text::opt_text(r) == branch_of(frame@),
{
    match sip_frame::header_value(frame, "Via") {
        Some(via) => via_branch(via.as_str()),
        None => None,
    }
}

pub open spec fn uri_of(frame: Seq<u8>, name: Seq<char>) -> Option<Seq<char>> {
    match sip_frame::header_of(frame, name) {
        Some(value) => sip_frame::uri_in(value),
        None => None,
    }
}

pub fn header_uri(frame: &[u8], name: &str) -> (r: Option<String>)
    ensures
        text::opt_text(r) == uri_of(frame@, name@),
{
    match sip_frame::header_value(frame, name) {
        Some(value) => sip_frame::uri_from_header_value(value.as_str()),
        None => None,
    }
}

/// The value of a `tag` parameter.
pub open spec fn tag_value(part: Seq<char>) -> Option<Seq<char>> {
    match text::cut(text::trim(part), '=') {
        Some((name, value)) => if text::alike(name, "tag"@) {
            Some(text::trim_char(text::trim(value), '"'))
        } else {
            None
        },
        None => None,
    }
}

pub open spec fn tag_from(parts: Seq<Seq<char>>, i: int) -> Option<Seq<char>>
    decreases parts.len() - i,
{
    if i < 0 || i >= parts.len() {
        None
    } else {
        match tag_value(parts[i]) {
            Some(tag) => Some(tag),
            None => tag_from(parts, i + 1),
        }
    }
}

/// The tag of a From or To value.
pub open spec fn tag_in(value: Seq<char>) -> Option<Seq<char>> {
    tag_from(text::split(value, ';'), 1)
}

fn read_tag<'a>(part: &'a [char]) -> (r: Option<&'a [char]>)
    ensures
        text::opt_slice(r) == tag_value(part@),
{
    match text::split_once(text::trimmed(part), '=') {
        Some((name, value)) => {
            if text::is_alike_text(name, "tag") {
                Some(text::trimmed_char(text::trimmed(value), '"'))
            } else {
                None
            }
        },
        None => None,
    }
}

pub fn header_tag(value: &str) -> (r: Option<String>)
    ensures
        text::opt_text(r) == tag_in(value@),
{
    let chars = text::chars_of(value);
    let parts = text::parts(chars.as_slice(), ';');
    let ghost all = text::split(value@, ';');
    assert(parts@.len() == text::views(parts@).len());
    let mut i: usize = 1;
    while i < parts.len()
        invariant
            1 <= i,
            i <= parts@.len() || i == 1,
            all == text::views(parts@),
            all == text::split(value@, ';'),
            tag_in(value@) == tag_from(all, i as int),
        decreases parts@.len() - i,
    {
        assert(all[i as int] == parts@[i as int]@);
        match read_tag(parts[i]) {
            Some(tag) => {
                return Some(text::string_of(tag));
            },
            None => {},
        }
        i += 1;
    }
    None
}

pub open spec fn to_tag_of(frame: Seq<u8>) -> Option<Seq<char>> {
    match sip_frame::header_of(frame, "To"@) {
        Some(value) => tag_in(value),
        None => None,
    }
}

pub fn response_to_tag(frame: &[u8]) -> (r: Option<String>)
    ensures
        text::opt_text(r) == to_tag_of(frame@),
{
    match sip_frame::header_value(frame, "To") {
        Some(value) => header_tag(value.as_str()),
        None => None,
    }
}

/// The number of a CSeq value that has to name a method.
pub open spec fn cseq_in(value: Option<Seq<char>>, expected: Seq<char>) -> Result<u32, Seq<char>> {
    match value {
        None => Err("vowifi_cseq_missing"@),
        Some(v) => {
            let words = text::words(v);
            let number = if words.len() > 0 {
                text::unsigned(words[0], u32::MAX as nat)
            } else {
                None
            };
            if number is None {
                Err("vowifi_cseq_invalid"@)
            } else if words.len() < 2 {
                Err("vowifi_cseq_method_missing"@)
            } else if !text::alike(words[1], expected) {
                Err("vowifi_cseq_method_mismatch"@)
            } else {
                Ok(number->0 as u32)
            }
        },
    }
}

/// A CSeq number, or the code of what is wrong with it.
pub fn cseq_from(value: &Option<String>, expected: &str) -> (r: Result<u32, &'static str>)
    ensures
        match r {
            Ok(n) => cseq_in(text::opt_text(*value), expected@) == Ok::<_, Seq<char>>(n),
            Err(e) => cseq_in(text::opt_text(*value), expected@) == Err::<u32, _>(e@),
        },
{
    match value {
        None => Err("vowifi_cseq_missing"),
        Some(value) => {
            let chars = text::chars_of(value.as_str());
            let words = text::words_of(chars.as_slice());
            let ghost all = text::words(value@);
            assert(words@.len() == text::views(words@).len());
            if words.len() == 0 {
                return Err("vowifi_cseq_invalid");
            }
            assert(all[0] == words@[0]@);
            match text::parse_u32(words[0]) {
                None => Err("vowifi_cseq_invalid"),
                Some(number) => {
                    if words.len() < 2 {
                        return Err("vowifi_cseq_method_missing");
                    }
                    assert(all[1] == words@[1]@);
                    if !text::is_alike_text(words[1], expected) {
                        return Err("vowifi_cseq_method_mismatch");
                    }
                    Ok(number)
                },
            }
        },
    }
}

pub fn cseq_number(frame: &[u8], expected: &str) -> (r: Result<u32, &'static str>)
    ensures
        match r {
            Ok(n) => cseq_in(sip_frame::header_of(frame@, "CSeq"@), expected@) == Ok::<
                _,
                Seq<char>,
            >(n),
            Err(e) => cseq_in(sip_frame::header_of(frame@, "CSeq"@), expected@) == Err::<u32, _>(
                e@,
            ),
        },
{
    let value = sip_frame::header_value(frame, "CSeq");
    cseq_from(&value, expected)
}

/// The second word of a CSeq value.
pub open spec fn method_in(value: Option<Seq<char>>) -> Seq<char> {
    match value {
        Some(v) => if text::words(v).len() >= 2 {
            text::words(v)[1]
        } else {
            seq![]
        },
        None => seq![],
    }
}

/// Does a CSeq value name a method?
pub fn cseq_names(value: &Option<String>, method: &str) -> (r: bool)
    ensures
        r == text::alike(method_in(text::opt_text(*value)), method@),
{
    let empty: Vec<char> = Vec::new();
    assert(empty@ =~= seq![]);
    match value {
        Some(value) => {
            let chars = text::chars_of(value.as_str());
            let words = text::words_of(chars.as_slice());
            assert(words@.len() == text::views(words@).len());
            if words.len() >= 2 {
                assert(text::words(value@)[1] == words@[1]@);
                text::is_alike_text(words[1], method)
            } else {
                text::is_alike_text(empty.as_slice(), method)
            }
        },
        None => text::is_alike_text(empty.as_slice(), method),
    }
}

// --------------------------------------------------------------------- numbers

/// Characters that only set the digits of a number apart.
pub open spec fn filler(c: char) -> bool {
    text::white(c) || c == '-' || c == '(' || c == ')'
}

pub open spec fn without_filler(s: Seq<char>, n: int) -> Seq<char>
    decreases n,
{
    if n <= 0 {
        seq![]
    } else if filler(s[n - 1]) {
        without_filler(s, n - 1)
    } else {
        without_filler(s, n - 1).push(s[n - 1])
    }
}

fn strip_filler(s: &[char]) -> (r: Vec<char>)
    ensures
        r@ == without_filler(s@, s@.len() as int),
{
    let mut r: Vec<char> = Vec::new();
    let mut i: usize = 0;
    assert(r@ =~= without_filler(s@, 0));
    while i < s.len()
        invariant
            i <= s@.len(),
            r@ == without_filler(s@, i as int),
        decreases s@.len() - i,
    {
        let c: char = s[i];
        if !(text::is_white(c) || c == '-' || c == '(' || c == ')') {
            r.push(c);
        }
        i += 1;
    }
    r
}

/// The user part of a callee, which may be a SIP or telephone URI.
pub open spec fn callee_user(callee: Seq<char>) -> Seq<char> {
    let v = text::trim(callee);
    let bare = match text::without_prefix(v, "sip:"@) {
        Some(rest) => rest,
        None => match text::without_prefix(v, "tel:"@) {
            Some(rest) => rest,
            None => v,
        },
    };
    let user = text::before(text::before(bare, '@'), ';');
    without_filler(user, user.len() as int)
}

/// Three to twenty digits behind an optional plus sign.
pub open spec fn dialable(user: Seq<char>) -> bool {
    let digits = text::unsigned_digits(user);
    3 <= digits.len() <= 20 && text::all_digits(digits)
}

pub open spec fn callee_uri(callee: Seq<char>, home_domain: Seq<char>) -> Option<Seq<char>> {
    let user = callee_user(callee);
    if dialable(user) {
        Some("sip:"@ + user + "@"@ + home_domain + ";user=phone"@)
    } else {
        None
    }
}

fn is_dialable(user: &[char]) -> (r: bool)
    ensures
        r == dialable(user@),
{
    let digits = if user.len() > 0 && user[0] == '+' {
        slice_subrange(user, 1, user.len())
    } else {
        user
    };
    if digits.len() < 3 || digits.len() > 20 {
        return false;
    }
    let mut i: usize = 0;
    while i < digits.len()
        invariant
            i <= digits@.len(),
            digits@ == text::unsigned_digits(user@),
            forall|j: int| 0 <= j < i ==> text::digit(digits@[j]),
        decreases digits@.len() - i,
    {
        if !text::is_digit(digits[i]) {
            return false;
        }
        i += 1;
    }
    true
}

pub fn normalize_callee(callee: &str, home_domain: &str) -> (r: Result<String, &'static str>)
    ensures
        match r {
            Ok(uri) => callee_uri(callee@, home_domain@) == Some(uri@),
            Err(e) => callee_uri(callee@, home_domain@) is None && e@
                == "vowifi_callee_invalid"@,
        },
{
    let chars = text::chars_of(callee);
    let v = text::trimmed(chars.as_slice());
    let bare = match text::strip_prefix(v, "sip:") {
        Some(rest) => rest,
        None => match text::strip_prefix(v, "tel:") {
            Some(rest) => rest,
            None => v,
        },
    };
    let user = strip_filler(text::part_before(text::part_before(bare, '@'), ';'));
    if !is_dialable(user.as_slice()) {
        return Err("vowifi_callee_invalid");
    }
    let mut out: Vec<char> = Vec::new();
    text::push_str(&mut out, "sip:");
    text::push_slice(&mut out, user.as_slice());
    text::push_str(&mut out, "@");
    text::push_str(&mut out, home_domain);
    text::push_str(&mut out, ";user=phone");
    assert(out@ =~= "sip:"@ + user@ + "@"@ + home_domain@ + ";user=phone"@);
    Ok(text::string_of(out.as_slice()))
}

/// A caller as the trunk is told of it: always a SIP URI where it was a
/// telephone or secure SIP one.
pub open spec fn caller_uri(caller: Seq<char>) -> Seq<char> {
    match text::without_prefix(caller, "tel:"@) {
        Some(number) => "sip:"@ + number + "@simadmin"@,
        None => match text::without_prefix(caller, "sips:"@) {
            Some(uri) => "sip:"@ + uri,
            None => caller,
        },
    }
}

pub fn normalize_caller(caller: &str) -> (r: String)
    ensures
        r@ == caller_uri(caller@),
{
    let chars = text::chars_of(caller);
    let mut out: Vec<char> = Vec::new();
    if let Some(number) = text::strip_prefix(chars.as_slice(), "tel:") {
        text::push_str(&mut out, "sip:");
        text::push_slice(&mut out, number);
        text::push_str(&mut out, "@simadmin");
        assert(out@ =~= "sip:"@ + number@ + "@simadmin"@);
    } else if let Some(uri) = text::strip_prefix(chars.as_slice(), "sips:") {
        text::push_str(&mut out, "sip:");
        text::push_slice(&mut out, uri);
        assert(out@ =~= "sip:"@ + uri@);
    } else {
        text::push_slice(&mut out, chars.as_slice());
        assert(out@ =~= caller@);
    }
    text::string_of(out.as_slice())
}

/// The contact of a line on a route.
pub open spec fn contact_uri(user: Seq<char>, route: ImsRoute) -> Seq<char> {
    "sip:"@ + user + "@"@ + ip_text::sip_host_form(route.local_addr.ip) + ":"@ + text::decimal(
        route.local_addr.port as nat,
    ) + ";transport="@ + route.transport.param()
}

pub fn ims_contact(identity: &ImsIdentity, route: &ImsRoute) -> (r: String)
    ensures
        r@ == contact_uri(identity.contact_user@, *route),
{
    let mut out: Vec<char> = Vec::new();
    text::push_str(&mut out, "sip:");
    text::push_str(&mut out, identity.contact_user.as_str());
    text::push_str(&mut out, "@");
    ip_text::push_sip_host(&mut out, route.local_addr.ip);
    text::push_str(&mut out, ":");
    text::push_decimal(&mut out, route.local_addr.port as u64);
    text::push_str(&mut out, ";transport=");
    text::push_str(&mut out, route.transport.as_param());
    assert(out@ =~= contact_uri(identity.contact_user@, *route));
    text::string_of(out.as_slice())
}

pub open spec fn reason_of(status: u16) -> Seq<char> {
    if status == 100 {
        "Trying"@
    } else if status == 180 {
        "Ringing"@
    } else if status == 183 {
        "Session Progress"@
    } else if status == 200 {
        "OK"@
    } else if status == 400 {
        "Bad Request"@
    } else if status == 480 {
        "Temporarily Unavailable"@
    } else if status == 481 {
        "Call/Transaction Does Not Exist"@
    } else if status == 486 {
        "Busy Here"@
    } else if status == 487 {
        "Request Terminated"@
    } else if status == 488 {
        "Not Acceptable Here"@
    } else if status == 491 {
        "Request Pending"@
    } else if status == 500 {
        "Server Internal Error"@
    } else if status == 503 {
        "Service Unavailable"@
    } else {
        "SIP Response"@
    }
}

pub fn sip_reason(status: u16) -> (r: &'static str)
    ensures
        r@ == reason_of(status),
{
    match status {
        100 => "Trying",
        180 => "Ringing",
        183 => "Session Progress",
        200 => "OK",
        400 => "Bad Request",
        480 => "Temporarily Unavailable",
        481 => "Call/Transaction Does Not Exist",
        486 => "Busy Here",
        487 => "Request Terminated",
        488 => "Not Acceptable Here",
        491 => "Request Pending",
        500 => "Server Internal Error",
        503 => "Service Unavailable",
        _ => "SIP Response",
    }
}

} // verus!
