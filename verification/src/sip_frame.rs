//! SIP frames: a start line, header lines and a body.

use crate::ims_error::ImsError;
use crate::text::{chars_of, find, has_prefix, is_alike, is_alike_text, lines_of, parse_u16};
use crate::text::{part_before, parts, split_once, string_of, trimmed, trimmed_char, words_of};
use crate::utf8::decode_lossy;
use crate::{text, utf8};
use vstd::prelude::*;
use vstd::slice::slice_subrange;

verus! {

/// Does the blank line that ends the header section stand at `i`?
pub open spec fn blank_at(frame: Seq<u8>, i: int) -> bool {
    &&& 0 <= i
    &&& i + 4 <= frame.len()
    &&& frame[i] == 13
    &&& frame[i + 1] == 10
    &&& frame[i + 2] == 13
    &&& frame[i + 3] == 10
}

/// Where the header section ends: at its blank line, or at the frame's end.
pub open spec fn head_end(frame: Seq<u8>, i: int) -> int
    decreases frame.len() - i,
{
    if i >= frame.len() {
        frame.len() as int
    } else if blank_at(frame, i) {
        i
    } else {
        head_end(frame, i + 1)
    }
}

pub proof fn lemma_head_end(frame: Seq<u8>, i: int)
    requires
        0 <= i <= frame.len(),
    ensures
        i <= head_end(frame, i) <= frame.len(),
        head_end(frame, i) < frame.len() ==> blank_at(frame, head_end(frame, i)),
        forall|k: int| i <= k < head_end(frame, i) ==> !blank_at(frame, k),
    decreases frame.len() - i,
{
    if i < frame.len() && !blank_at(frame, i) {
        lemma_head_end(frame, i + 1);
    }
}

fn find_head_end(frame: &[u8]) -> (r: usize)
    ensures
        r == head_end(frame@, 0),
        r <= frame@.len(),
        r < frame@.len() ==> blank_at(frame@, r as int),
{
    proof {
        lemma_head_end(frame@, 0);
    }
    let mut i: usize = 0;
    while i < frame.len()
        invariant
            i <= frame@.len(),
            head_end(frame@, 0) == head_end(frame@, i as int),
        decreases frame@.len() - i,
    {
        if frame.len() - i >= 4 && frame[i] == 13 && frame[i + 1] == 10 && frame[i + 2] == 13
            && frame[i + 3] == 10 {
            return i;
        }
        i += 1;
    }
    i
}

/// The text of the header section.
pub open spec fn head_text(frame: Seq<u8>) -> Seq<char> {
    utf8::lossy_text(frame.subrange(0, head_end(frame, 0)))
}

/// The octets behind the blank line.
pub open spec fn body_of(frame: Seq<u8>) -> Seq<u8> {
    let end = head_end(frame, 0);
    if end < frame.len() {
        frame.subrange(end + 4, frame.len() as int)
    } else {
        Seq::empty()
    }
}

pub fn body(frame: &[u8]) -> (r: &[u8])
    ensures
        r@ == body_of(frame@),
{
    let end: usize = find_head_end(frame);
    if end < frame.len() {
        slice_subrange(frame, end + 4, frame.len())
    } else {
        let r = slice_subrange(frame, frame.len(), frame.len());
        assert(r@ =~= Seq::empty());
        r
    }
}

fn head_of(frame: &[u8]) -> (r: Vec<char>)
    ensures
        r@ == head_text(frame@),
{
    let end: usize = find_head_end(frame);
    let text = decode_lossy(slice_subrange(frame, 0, end));
    chars_of(text.as_str())
}

// -------------------------------------------------------------------- headers

/// The value of a header line of this name, without surrounding white space.
pub open spec fn line_value(line: Seq<char>, name: Seq<char>) -> Option<Seq<char>> {
    match text::cut(line, ':') {
        Some((found, value)) => if text::alike(text::trim(found), name) {
            Some(text::trim(value))
        } else {
            None
        },
        None => None,
    }
}

/// The values of the header lines before `n`, the start line left out.
pub open spec fn values_upto(lines: Seq<Seq<char>>, name: Seq<char>, n: int) -> Seq<Seq<char>>
    decreases n,
{
    if n <= 1 {
        Seq::empty()
    } else {
        let found = values_upto(lines, name, n - 1);
        match line_value(lines[n - 1], name) {
            Some(value) => found.push(value),
            None => found,
        }
    }
}

/// The values of all headers of this name in a header section.
pub open spec fn values_in(head: Seq<char>, name: Seq<char>) -> Seq<Seq<char>> {
    let lines = text::lines(head);
    values_upto(lines, name, lines.len() as int)
}

pub open spec fn first_of(values: Seq<Seq<char>>) -> Option<Seq<char>> {
    if values.len() > 0 {
        Some(values[0])
    } else {
        None
    }
}

pub open spec fn header_values_of(frame: Seq<u8>, name: Seq<char>) -> Seq<Seq<char>> {
    values_in(head_text(frame), name)
}

pub open spec fn header_of(frame: Seq<u8>, name: Seq<char>) -> Option<Seq<char>> {
    first_of(header_values_of(frame, name))
}

/// The values of all headers of this name in the text of a header section.
pub fn text_header_values(head: &[char], name: &str) -> (r: Vec<String>)
    ensures
        text::texts(r@) == values_in(head@, name@),
{
    let lines = lines_of(head);
    let ghost all = text::lines(head@);
    let name_chars = chars_of(name);
    let mut r: Vec<String> = Vec::new();
    assert(text::texts(r@) =~= Seq::empty());
    let mut i: usize = 1;
    while i < lines.len()
        invariant
            text::views(lines@) == all,
            name_chars@ == name@,
            1 <= i,
            i <= lines@.len() || (i == 1 && lines@.len() == 0),
            text::texts(r@) == values_upto(all, name@, i as int),
        decreases lines@.len() - i,
    {
        assert(all[i as int] == lines@[i as int]@);
        if let Some((found, value)) = split_once(lines[i], ':') {
            if is_alike(trimmed(found), name_chars.as_slice()) {
                let ghost before = r@;
                r.push(string_of(trimmed(value)));
                assert(text::texts(r@) =~= text::texts(before).push(text::trim(value@)));
            }
        }
        i += 1;
    }
    r
}

pub fn header_values(frame: &[u8], name: &str) -> (r: Vec<String>)
    ensures
        text::texts(r@) == header_values_of(frame@, name@),
{
    let head = head_of(frame);
    text_header_values(head.as_slice(), name)
}

pub fn header_value(frame: &[u8], name: &str) -> (r: Option<String>)
    ensures
        text::opt_text(r) == header_of(frame@, name@),
{
    let values = header_values(frame, name);
    assert(values@.len() == text::texts(values@).len());
    if values.len() > 0 {
        assert(text::texts(values@)[0] == values@[0]@);
        Some(values[0].clone())
    } else {
        None
    }
}

// ----------------------------------------------------------------- start line

/// Does the start line open with this method?
pub open spec fn request_is(frame: Seq<u8>, method: Seq<char>) -> bool {
    text::starts(head_text(frame), method.push(' '))
}

pub fn is_request(frame: &[u8], method: &str) -> (r: bool)
    ensures
        r == request_is(frame@, method@),
{
    let head = head_of(frame);
    let mut wanted = chars_of(method);
    wanted.push(' ');
    text::is_at(head.as_slice(), wanted.as_slice(), 0)
}

/// Does the frame open with the SIP version, as a response does?
pub fn is_response(frame: &[u8]) -> (r: bool)
    ensures
        r == text::starts(head_text(frame@), "SIP/2.0 "@),
{
    let head = head_of(frame);
    has_prefix(head.as_slice(), "SIP/2.0 ")
}

/// The status code of a response's start line.
pub open spec fn status_in(head: Seq<char>) -> Option<nat> {
    let lines = text::lines(head);
    if lines.len() == 0 || !text::starts(lines[0], "SIP/2.0 "@) {
        None
    } else {
        let words = text::words(lines[0]);
        if words.len() < 2 {
            None
        } else {
            text::unsigned(words[1], u16::MAX as nat)
        }
    }
}

pub open spec fn status_of(frame: Seq<u8>) -> Option<nat> {
    status_in(head_text(frame))
}

pub fn text_status(head: &[char]) -> (r: Option<u16>)
    ensures
        match r {
            Some(status) => status_in(head@) == Some(status as nat),
            None => status_in(head@) is None,
        },
{
    let lines = lines_of(head);
    assert(lines@.len() == text::views(lines@).len());
    if lines.len() == 0 {
        return None;
    }
    assert(text::views(lines@)[0] == lines@[0]@);
    if !has_prefix(lines[0], "SIP/2.0 ") {
        return None;
    }
    let words = words_of(lines[0]);
    assert(words@.len() == text::views(words@).len());
    if words.len() < 2 {
        return None;
    }
    assert(text::views(words@)[1] == words@[1]@);
    parse_u16(words[1])
}

pub fn parse_status(frame: &[u8]) -> (r: Result<u16, ImsError>)
    ensures
        match r {
            Ok(status) => status_of(frame@) == Some(status as nat),
            Err(e) => status_of(frame@) is None && e.code_spec() == "ims_sip_status_invalid"@,
        },
{
    let head = head_of(frame);
    match text_status(head.as_slice()) {
        Some(status) => Ok(status),
        None => Err(ImsError::new("ims_sip_status_invalid")),
    }
}

// ------------------------------------------------------------------------ URI

/// The URI of a header value: what stands in angle brackets, or what stands
/// before the first parameter; an empty one is none.
pub open spec fn uri_in(value: Seq<char>) -> Option<Seq<char>> {
    let open = text::find_from(value, '<', 0);
    let uri = if open < value.len() {
        let rest = value.subrange(open + 1, value.len() as int);
        text::trim(text::before(rest, '>'))
    } else {
        text::trim(text::before(value, ';'))
    };
    if uri.len() == 0 {
        None
    } else {
        Some(uri)
    }
}

pub fn uri_from_header_value(value: &str) -> (r: Option<String>)
    ensures
        text::opt_text(r) == uri_in(value@),
{
    let all = chars_of(value);
    let open: usize = find(all.as_slice(), '<', 0);
    let uri = if open < all.len() {
        trimmed(part_before(slice_subrange(all.as_slice(), open + 1, all.len()), '>'))
    } else {
        trimmed(part_before(all.as_slice(), ';'))
    };
    if uri.len() == 0 {
        None
    } else {
        Some(string_of(uri))
    }
}

/// The value of a `name=value` parameter of this name, without quotes.
pub open spec fn named_value(parameter: Seq<char>, name: Seq<char>) -> Option<Seq<char>> {
    match text::cut(text::trim(parameter), '=') {
        Some((key, value)) => if text::alike(text::trim(key), name) {
            Some(text::trim_char(text::trim(value), '"'))
        } else {
            None
        },
        None => None,
    }
}

pub fn value_named<'a>(parameter: &'a [char], name: &str) -> (r: Option<&'a [char]>)
    ensures
        text::opt_slice(r) == named_value(parameter@, name@),
{
    match split_once(trimmed(parameter), '=') {
        Some((key, value)) => if is_alike_text(trimmed(key), name) {
            Some(trimmed_char(trimmed(value), '"'))
        } else {
            None
        },
        None => None,
    }
}

/// The value of the first parameter of this name among parts from `i` on.
pub open spec fn parameter_from(pieces: Seq<Seq<char>>, name: Seq<char>, i: int) -> Option<Seq<char>>
    decreases pieces.len() - i,
{
    if i >= pieces.len() {
        None
    } else {
        match named_value(pieces[i], name) {
            Some(value) => Some(value),
            None => parameter_from(pieces, name, i + 1),
        }
    }
}

/// The value of a header parameter, without quotes.
pub open spec fn parameter_of(value: Seq<char>, name: Seq<char>) -> Option<Seq<char>> {
    parameter_from(text::split(value, ';'), name, 1)
}

pub fn header_parameter(value: &str, name: &str) -> (r: Option<String>)
    ensures
        text::opt_text(r) == parameter_of(value@, name@),
{
    let all = chars_of(value);
    let pieces = parts(all.as_slice(), ';');
    let ghost list = text::split(value@, ';');
    let mut i: usize = 1;
    while i < pieces.len()
        invariant
            1 <= i,
            i <= pieces@.len() || (i == 1 && pieces@.len() == 0),
            list == text::split(value@, ';'),
            text::views(pieces@) == list,
            parameter_of(value@, name@) == parameter_from(list, name@, i as int),
        decreases pieces@.len() - i,
    {
        assert(list[i as int] == pieces@[i as int]@);
        if let Some(found) = value_named(pieces[i], name) {
            return Some(string_of(found));
        }
        i += 1;
    }
    assert(list.len() == pieces@.len());
    None
}

/// Is one of the parts that `sep` divides this token, up to case and white
/// space?
pub open spec fn part_alike(value: Seq<char>, sep: char, token: Seq<char>) -> bool {
    exists|i: int|
        0 <= i < text::split(value, sep).len() && text::alike(
            text::trim(#[trigger] text::split(value, sep)[i]),
            token,
        )
}

pub fn has_part(value: &[char], sep: char, token: &str) -> (r: bool)
    ensures
        r == part_alike(value@, sep, token@),
{
    let pieces = parts(value, sep);
    let ghost all = text::split(value@, sep);
    let mut i: usize = 0;
    while i < pieces.len()
        invariant
            i <= pieces@.len(),
            all == text::split(value@, sep),
            text::views(pieces@) == all,
            forall|k: int| 0 <= k < i ==> !text::alike(text::trim(#[trigger] all[k]), token@),
        decreases pieces@.len() - i,
    {
        assert(all[i as int] == pieces@[i as int]@);
        if is_alike_text(trimmed(pieces[i]), token) {
            return true;
        }
        i += 1;
    }
    false
}

// -------------------------------------------------------------------- framing

/// The length that the frame's body announces.
pub open spec fn announced_length(head: Seq<char>) -> Option<nat> {
    let full = values_in(head, "Content-Length"@);
    let values = if full.len() > 0 {
        full
    } else {
        values_in(head, "l"@)
    };
    if values.len() == 0 {
        Some(0)
    } else {
        text::unsigned(values[0], u32::MAX as nat)
    }
}

/// The length of the complete frame at the start of a stream, once it is there.
pub open spec fn complete_length(stream: Seq<u8>) -> Option<int> {
    let end = head_end(stream, 0);
    if end >= stream.len() {
        None
    } else {
        match announced_length(head_text(stream)) {
            Some(body) => if end + 4 + body <= stream.len() {
                Some(end + 4 + body)
            } else {
                None
            },
            None => None,
        }
    }
}

fn text_length(head: &[char]) -> (r: Option<u32>)
    ensures
        match r {
            Some(n) => announced_length(head@) == Some(n as nat),
            None => announced_length(head@) is None,
        },
{
    let mut values = text_header_values(head, "Content-Length");
    assert(values@.len() == text::texts(values@).len());
    if values.len() == 0 {
        values = text_header_values(head, "l");
        assert(values@.len() == text::texts(values@).len());
    }
    if values.len() == 0 {
        return Some(0);
    }
    assert(text::texts(values@)[0] == values@[0]@);
    let value = chars_of(values[0].as_str());
    text::parse_u32(value.as_slice())
}

pub fn complete_frame_len(stream: &[u8]) -> (r: Option<usize>)
    ensures
        match r {
            Some(n) => complete_length(stream@) == Some(n as int) && 0 < n <= stream@.len(),
            None => complete_length(stream@) is None,
        },
{
    let end: usize = find_head_end(stream);
    if end >= stream.len() {
        return None;
    }
    let head = head_of(stream);
    match text_length(head.as_slice()) {
        Some(body) => if body as usize <= stream.len() - end - 4 {
            Some(end + 4 + body as usize)
        } else {
            None
        },
        None => None,
    }
}


// ------------------------------------------------------------------------ laws

proof fn lemma_head_end_stays(stream: Seq<u8>, more: Seq<u8>, i: int)
    requires
        0 <= i,
        head_end(stream, i) < stream.len(),
    ensures
        head_end(stream + more, i) == head_end(stream, i),
    decreases stream.len() - i,
{
    if i < stream.len() {
        if blank_at(stream, i) {
            assert(blank_at(stream + more, i));
        } else {
            lemma_head_end(stream, i + 1);
            lemma_head_end_stays(stream, more, i + 1);
            assert(!blank_at(stream + more, i)) by {
                if blank_at(stream + more, i) {
                    assert(i + 4 > stream.len());
                }
            }
        }
    }
}

/// A frame that is complete stays so, whatever follows it in the stream.
pub proof fn law_complete_frame_stays(stream: Seq<u8>, more: Seq<u8>)
    requires
        complete_length(stream) is Some,
    ensures
        complete_length(stream + more) == complete_length(stream),
{
    lemma_head_end(stream, 0);
    lemma_head_end_stays(stream, more, 0);
    let end = head_end(stream, 0);
    assert((stream + more).subrange(0, end) =~= stream.subrange(0, end));
}

} // verus!
