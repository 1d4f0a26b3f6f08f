//! Completing a REGISTER with an outbound offer, or taking one out.
//!
//! Contact header parameters and capability options are rewritten; URI
//! parameters, quoted feature values, digest fields and transaction identifiers
//! are not. Folded and compact headers are accepted; several Contacts fail
//! instead of editing another flow. One Supported and one Require field come
//! out, so that a peer which reads only the first field misses nothing.

use crate::ims_error::ImsError;
use crate::register_response::{name_addr_range, split_sip_list, split_sip_parameters};
use crate::text::{chars_of, find, is_alike, is_alike_text, is_control, is_text, part_before, parts};
use crate::text::{push_decimal, push_slice, push_str, split_once, trimmed};
use crate::utf8::{decode_strict, encode};
use crate::{register_response, sip_frame, text};
use vstd::prelude::*;
use vstd::slice::slice_subrange;
use vstd::utf8::*;

verus! {

broadcast use vstd::seq_lib::group_seq_properties;

/// Why a request cannot be rewritten.
#[derive(Debug, Clone, Copy, PartialEq, Eq, Structural)]
pub enum RewriteError {
    Request,
    Contact,
    Wildcard,
}

impl RewriteError {
    pub open spec fn code(self) -> Seq<char> {
        match self {
            RewriteError::Request => "ims_outbound_request_invalid"@,
            RewriteError::Contact => "ims_outbound_contact_invalid"@,
            RewriteError::Wildcard => "ims_outbound_wildcard_unregister_forbidden"@,
        }
    }

    fn to_error(self) -> (r: ImsError)
        ensures
            r.code_spec() == self.code(),
    {
        match self {
            RewriteError::Request => ImsError::new("ims_outbound_request_invalid"),
            RewriteError::Contact => ImsError::new("ims_outbound_contact_invalid"),
            RewriteError::Wildcard => ImsError::new("ims_outbound_wildcard_unregister_forbidden"),
        }
    }
}

/// The offer of a flow, as a value.
pub struct OfferValue {
    pub instance: Seq<char>,
    pub reg_id: u32,
    pub required: bool,
}

// ---------------------------------------------------------------------- lines

pub open spec fn crlf() -> Seq<char> {
    seq!['\r', '\n']
}

/// The texts that line ends divide.
pub open spec fn crlf_split_from(s: Seq<char>, i: int) -> Seq<Seq<char>>
    decreases s.len() - i,
{
    match text::find_text_from(s, crlf(), i) {
        Some(k) => if 0 <= i <= k && k + 2 <= s.len() {
            seq![s.subrange(i, k)] + crlf_split_from(s, k + 2)
        } else {
            Seq::empty()
        },
        None => seq![s.subrange(i, s.len() as int)],
    }
}

pub open spec fn texts_of(v: Seq<Vec<char>>) -> Seq<Seq<char>> {
    Seq::new(v.len(), |i: int| v[i]@)
}

fn crlf_lines<'a>(s: &'a [char]) -> (r: Vec<&'a [char]>)
    ensures
        text::views(r@) == crlf_split_from(s@, 0),
{
    let mut sep: Vec<char> = Vec::new();
    sep.push('\r');
    sep.push('\n');
    assert(sep@ =~= crlf());
    let mut r: Vec<&'a [char]> = Vec::new();
    let mut i: usize = 0;
    assert(crlf_split_from(s@, 0) =~= text::views(r@) + crlf_split_from(s@, 0));
    loop
        invariant
            i <= s@.len(),
            sep@ == crlf(),
            crlf_split_from(s@, 0) == text::views(r@) + crlf_split_from(s@, i as int),
        decreases s@.len() - i,
    {
        let ghost before = r@;
        let end: usize = s.len();
        match text::find_text(s, sep.as_slice(), i) {
            Some(k) => {
                r.push(slice_subrange(s, i, k));
                assert(text::views(before) + crlf_split_from(s@, i as int) =~= text::views(r@)
                    + crlf_split_from(s@, k + 2));
                i = k + 2;
            },
            None => {
                r.push(slice_subrange(s, i, end));
                assert(text::views(before) + crlf_split_from(s@, i as int) =~= text::views(r@));
                return r;
            },
        }
    }
}

/// Does a line continue the one before it?
pub open spec fn folded(line: Seq<char>) -> bool {
    line.len() > 0 && (line[0] == ' ' || line[0] == '\t')
}

/// The header lines before `n`, each continuation joined to its line; none where
/// the first line is a continuation.
pub open spec fn unfolded_upto(lines: Seq<Seq<char>>, n: int) -> Option<Seq<Seq<char>>>
    decreases n,
{
    if n <= 0 {
        Some(Seq::empty())
    } else {
        match unfolded_upto(lines, n - 1) {
            None => None,
            Some(known) => if folded(lines[n - 1]) {
                if known.len() == 0 {
                    None
                } else {
                    Some(
                        known.drop_last().push(
                            known.last().push(' ') + text::trim(lines[n - 1]),
                        ),
                    )
                }
            } else {
                Some(known.push(lines[n - 1]))
            },
        }
    }
}

proof fn lemma_unfold_none(lines: Seq<Seq<char>>, n: int)
    requires
        0 <= n <= lines.len(),
        unfolded_upto(lines, n) is None,
    ensures
        unfolded_upto(lines, lines.len() as int) is None,
    decreases lines.len() - n,
{
    if n < lines.len() {
        lemma_unfold_none(lines, n + 1);
    }
}

fn unfold(lines: &Vec<&[char]>) -> (r: Option<Vec<Vec<char>>>)
    ensures
        match r {
            Some(v) => unfolded_upto(text::views(lines@), lines@.len() as int) == Some(
                texts_of(v@),
            ),
            None => unfolded_upto(text::views(lines@), lines@.len() as int) is None,
        },
{
    let ghost all = text::views(lines@);
    let mut out: Vec<Vec<char>> = Vec::new();
    assert(texts_of(out@) =~= Seq::empty());
    let mut i: usize = 0;
    while i < lines.len()
        invariant
            i <= lines@.len(),
            all == text::views(lines@),
            unfolded_upto(all, i as int) == Some(texts_of(out@)),
        decreases lines@.len() - i,
    {
        let line = lines[i];
        assert(all[i as int] == line@);
        let ghost before = out@;
        if line.len() > 0 && (line[0] == ' ' || line[0] == '\t') {
            if out.len() == 0 {
                proof {
                    lemma_unfold_none(all, i + 1);
                }
                return None;
            }
            let mut last = out.pop().unwrap();
            let ghost previous = last@;
            last.push(' ');
            push_slice(&mut last, trimmed(line));
            out.push(last);
            assert(texts_of(out@) =~= texts_of(before).drop_last().push(
                previous.push(' ') + text::trim(line@),
            ));
        } else {
            let mut copy: Vec<char> = Vec::new();
            push_slice(&mut copy, line);
            assert(copy@ =~= line@);
            out.push(copy);
            assert(texts_of(out@) =~= texts_of(before).push(line@));
        }
        i += 1;
    }
    Some(out)
}

// -------------------------------------------------------------------- options

/// Is the token listed, up to case?
pub open spec fn listed(tokens: Seq<Seq<char>>, token: Seq<char>) -> bool {
    exists|i: int| 0 <= i < tokens.len() && text::alike(#[trigger] tokens[i], token)
}

/// The tokens with one more, unless it is empty or listed already.
pub open spec fn with_option(tokens: Seq<Seq<char>>, value: Seq<char>) -> Seq<Seq<char>> {
    let token = text::trim(value);
    if token.len() > 0 && !listed(tokens, token) {
        tokens.push(token)
    } else {
        tokens
    }
}

fn append_option(tokens: &mut Vec<Vec<char>>, value: &[char])
    ensures
        texts_of(final(tokens)@) == with_option(texts_of(old(tokens)@), value@),
{
    let token = trimmed(value);
    if token.len() == 0 {
        return;
    }
    let ghost all = texts_of(tokens@);
    let mut i: usize = 0;
    while i < tokens.len()
        invariant
            i <= tokens@.len(),
            tokens@ == old(tokens)@,
            all == texts_of(tokens@),
            token@ == text::trim(value@),
            forall|k: int| 0 <= k < i ==> !text::alike(#[trigger] all[k], token@),
        decreases tokens@.len() - i,
    {
        assert(all[i as int] == tokens@[i as int]@);
        if is_alike(tokens[i].as_slice(), token) {
            assert(listed(all, token@));
            return;
        }
        i += 1;
    }
    let mut copy: Vec<char> = Vec::new();
    push_slice(&mut copy, token);
    assert(copy@ =~= token@);
    tokens.push(copy);
    assert(texts_of(tokens@) =~= all.push(token@));
}

/// The tokens with those of a value before `n`; where `legacy`, without the
/// outbound token.
pub open spec fn with_options_upto(
    tokens: Seq<Seq<char>>,
    pieces: Seq<Seq<char>>,
    legacy: bool,
    n: int,
) -> Seq<Seq<char>>
    decreases n,
{
    if n <= 0 {
        tokens
    } else {
        let known = with_options_upto(tokens, pieces, legacy, n - 1);
        if legacy && text::alike(text::trim(pieces[n - 1]), "outbound"@) {
            known
        } else {
            with_option(known, text::trim(pieces[n - 1]))
        }
    }
}

pub open spec fn with_options(
    tokens: Seq<Seq<char>>,
    value: Seq<char>,
    legacy: bool,
) -> Seq<Seq<char>> {
    let pieces = text::split(value, ',');
    with_options_upto(tokens, pieces, legacy, pieces.len() as int)
}

fn append_options(tokens: &mut Vec<Vec<char>>, value: &[char], legacy: bool)
    ensures
        texts_of(final(tokens)@) == with_options(texts_of(old(tokens)@), value@, legacy),
{
    let pieces = parts(value, ',');
    let ghost all = text::split(value@, ',');
    let ghost start = texts_of(tokens@);
    let mut i: usize = 0;
    while i < pieces.len()
        invariant
            i <= pieces@.len(),
            all == text::split(value@, ','),
            text::views(pieces@) == all,
            texts_of(tokens@) == with_options_upto(start, all, legacy, i as int),
        decreases pieces@.len() - i,
    {
        assert(all[i as int] == pieces@[i as int]@);
        let token = trimmed(pieces[i]);
        if !(legacy && is_alike_text(token, "outbound")) {
            append_option(tokens, token);
        }
        i += 1;
    }
}

/// The tokens, joined by a comma and a space.
pub open spec fn comma_joined(tokens: Seq<Seq<char>>) -> Seq<char>
    decreases tokens.len(),
{
    if tokens.len() == 0 {
        Seq::empty()
    } else if tokens.len() == 1 {
        tokens[0]
    } else {
        comma_joined(tokens.drop_last()) + seq![',', ' '] + tokens.last()
    }
}

fn push_joined(out: &mut Vec<char>, tokens: &Vec<Vec<char>>)
    ensures
        final(out)@ == old(out)@ + comma_joined(texts_of(tokens@)),
{
    let ghost all = texts_of(tokens@);
    let mut i: usize = 0;
    assert(all.take(0) =~= Seq::empty());
    assert(out@ =~= old(out)@ + comma_joined(all.take(0)));
    while i < tokens.len()
        invariant
            i <= tokens@.len(),
            all == texts_of(tokens@),
            out@ == old(out)@ + comma_joined(all.take(i as int)),
        decreases tokens@.len() - i,
    {
        if i > 0 {
            out.push(',');
            out.push(' ');
        }
        push_slice(out, tokens[i].as_slice());
        i += 1;
        proof {
            let now = all.take(i as int);
            assert(now.drop_last() =~= all.take(i - 1));
            assert(now.last() == tokens@[i - 1]@);
            assert(out@ =~= old(out)@ + comma_joined(now));
        }
    }
    assert(all.take(all.len() as int) =~= all);
}

// -------------------------------------------------------------------- Contact

/// Where a Contact's header parameters begin. An offer needs a bracketed URI.
pub open spec fn contact_end(value: Seq<char>, offering: bool) -> Option<int> {
    match register_response::brackets(value) {
        Some((_, close)) => Some(close + 1),
        None => if offering {
            None
        } else {
            Some(text::find_from(value, ';', 0))
        },
    }
}

/// Does a header parameter stay? Flow identifiers go, and the instance is
/// replaced by an offer.
pub open spec fn keeps(parameter: Seq<char>, offering: bool) -> bool {
    let key = text::trim(text::before(parameter, '='));
    &&& !text::alike(key, "reg-id"@)
    &&& !(offering && text::alike(key, "+sip.instance"@))
}

/// The parameters before `n` that stay, the first part left out.
pub open spec fn kept_upto(pieces: Seq<Seq<char>>, offering: bool, n: int) -> Seq<char>
    decreases n,
{
    if n <= 1 {
        Seq::empty()
    } else {
        let known = kept_upto(pieces, offering, n - 1);
        if keeps(pieces[n - 1], offering) {
            known.push(';') + pieces[n - 1]
        } else {
            known
        }
    }
}

/// What an offer adds to a Contact.
pub open spec fn offer_suffix(offer: OfferValue) -> Seq<char> {
    ";+sip.instance=\"<"@ + offer.instance + ">\";reg-id="@ + text::decimal(offer.reg_id as nat)
}

/// A rewritten Contact value.
pub open spec fn contact_value(value: Seq<char>, offer: Option<OfferValue>) -> Result<
    Seq<char>,
    RewriteError,
> {
    if text::trim(value) == "*"@ {
        Err(RewriteError::Wildcard)
    } else if register_response::free_split(value, ',').len() != 1 {
        Err(RewriteError::Contact)
    } else {
        match contact_end(value, offer is Some) {
            None => Err(RewriteError::Contact),
            Some(end) => {
                let rest = value.subrange(end, value.len() as int);
                let pieces = register_response::free_split(rest, ';');
                let kept = value.subrange(0, end) + kept_upto(
                    pieces,
                    offer is Some,
                    pieces.len() as int,
                );
                Ok(
                    match offer {
                        Some(o) => kept + offer_suffix(o),
                        None => kept,
                    },
                )
            },
        }
    }
}

/// An outbound offer: the instance, the flow and whether it is required.
#[derive(Debug, Clone, Copy)]
pub struct RegisterOffer<'a> {
    pub instance: &'a str,
    pub reg_id: u32,
    pub required: bool,
}

impl<'a> View for RegisterOffer<'a> {
    type V = OfferValue;

    open spec fn view(&self) -> OfferValue {
        OfferValue { instance: self.instance@, reg_id: self.reg_id, required: self.required }
    }
}

pub open spec fn opt_offer(o: Option<RegisterOffer>) -> Option<OfferValue> {
    match o {
        Some(offer) => Some(offer@),
        None => None,
    }
}

fn rewrite_contact(value: &[char], offer: Option<RegisterOffer>) -> (r: Result<
    Vec<char>,
    RewriteError,
>)
    ensures
        match r {
            Ok(v) => contact_value(value@, opt_offer(offer)) == Ok::<_, RewriteError>(v@),
            Err(e) => contact_value(value@, opt_offer(offer)) == Err::<Seq<char>, _>(e),
        },
{
    let total: usize = value.len();
    if is_text(trimmed(value), "*") {
        return Err(RewriteError::Wildcard);
    }
    let items = split_sip_list(value);
    assert(items@.len() == text::views(items@).len());
    if items.len() != 1 {
        return Err(RewriteError::Contact);
    }
    let offering: bool = offer.is_some();
    let end: usize = match name_addr_range(value) {
        Some((_, close)) => close + 1,
        None => if offering {
            return Err(RewriteError::Contact);
        } else {
            find(value, ';', 0)
        },
    };
    assert(contact_end(value@, offering) == Some(end as int));
    let mut out: Vec<char> = Vec::new();
    push_slice(&mut out, slice_subrange(value, 0, end));
    let pieces = split_sip_parameters(slice_subrange(value, end, total));
    let ghost all = register_response::free_split(
        value@.subrange(end as int, value@.len() as int),
        ';',
    );
    let ghost head = value@.subrange(0, end as int);
    assert(out@ =~= head + kept_upto(all, offering, 1));
    let mut i: usize = 1;
    assert(pieces@.len() == text::views(pieces@).len());
    assert(kept_upto(all, offering, 0) =~= kept_upto(all, offering, 1));
    while i < pieces.len()
        invariant
            1 <= i,
            i <= pieces@.len() || (i == 1 && pieces@.len() == 0),
            text::views(pieces@) == all,
            out@ == head + kept_upto(all, offering, i as int),
        decreases pieces@.len() - i,
    {
        assert(all[i as int] == pieces@[i as int]@);
        let key = trimmed(part_before(pieces[i], '='));
        if !is_alike_text(key, "reg-id") && !(offering && is_alike_text(key, "+sip.instance")) {
            out.push(';');
            push_slice(&mut out, pieces[i]);
        }
        i += 1;
        assert(out@ =~= head + kept_upto(all, offering, i as int));
    }
    assert(kept_upto(all, offering, i as int) == kept_upto(all, offering, all.len() as int));
    if let Some(o) = offer {
        push_str(&mut out, ";+sip.instance=\"<");
        push_str(&mut out, o.instance);
        push_str(&mut out, ">\";reg-id=");
        push_decimal(&mut out, o.reg_id as u64);
        assert(out@ =~= head + kept_upto(all, offering, all.len() as int) + offer_suffix(o@));
    }
    Ok(out)
}

// -------------------------------------------------------------------- rewriting

/// What rewriting has gathered so far.
pub struct Gathered {
    pub lines: Seq<Seq<char>>,
    pub contacts: nat,
    pub supported: Seq<Seq<char>>,
    pub require: Seq<Seq<char>>,
}

pub open spec fn is_contact(name: Seq<char>) -> bool {
    text::alike(name, "Contact"@) || text::alike(name, "m"@)
}

pub open spec fn is_supported(name: Seq<char>) -> bool {
    text::alike(name, "Supported"@) || text::alike(name, "k"@)
}

pub open spec fn is_require(name: Seq<char>) -> bool {
    text::alike(name, "Require"@)
}

/// One header line taken into account.
pub open spec fn gather(g: Gathered, line: Seq<char>, offer: Option<OfferValue>) -> Result<
    Gathered,
    RewriteError,
> {
    match text::cut(line, ':') {
        None => Ok(Gathered { lines: g.lines.push(line), ..g }),
        Some((raw, value)) => {
            let name = text::trim(raw);
            if is_contact(name) {
                match contact_value(value, offer) {
                    Err(e) => Err(e),
                    Ok(contact) => Ok(
                        Gathered {
                            lines: g.lines.push(name.push(':') + contact),
                            contacts: g.contacts + 1,
                            ..g
                        },
                    ),
                }
            } else if is_require(name) {
                Ok(Gathered { require: with_options(g.require, value, offer is None), ..g })
            } else if is_supported(name) {
                Ok(Gathered { supported: with_options(g.supported, value, offer is None), ..g })
            } else {
                Ok(Gathered { lines: g.lines.push(line), ..g })
            }
        },
    }
}

/// What the lines before `n` gather.
pub open spec fn gathered_upto(lines: Seq<Seq<char>>, offer: Option<OfferValue>, n: int) -> Result<
    Gathered,
    RewriteError,
>
    decreases n,
{
    if n <= 0 {
        Ok(
            Gathered {
                lines: Seq::empty(),
                contacts: 0,
                supported: Seq::empty(),
                require: Seq::empty(),
            },
        )
    } else {
        match gathered_upto(lines, offer, n - 1) {
            Err(e) => Err(e),
            Ok(g) => gather(g, lines[n - 1], offer),
        }
    }
}

/// The supported options with those that an offer needs.
pub open spec fn offered_supported(
    tokens: Seq<Seq<char>>,
    offer: Option<OfferValue>,
) -> Seq<Seq<char>> {
    if offer is Some {
        with_option(with_option(tokens, "path"@), "outbound"@)
    } else {
        tokens
    }
}

pub open spec fn offered_require(
    tokens: Seq<Seq<char>>,
    offer: Option<OfferValue>,
) -> Seq<Seq<char>> {
    if offer matches Some(o) && o.required {
        with_option(tokens, "outbound"@)
    } else {
        tokens
    }
}

/// The header lines that come out.
pub open spec fn finished(g: Gathered, offer: Option<OfferValue>) -> Seq<Seq<char>> {
    let supported = offered_supported(g.supported, offer);
    let require = offered_require(g.require, offer);
    let with_supported = if supported.len() > 0 {
        g.lines.push("Supported: "@ + comma_joined(supported))
    } else {
        g.lines
    };
    if require.len() > 0 {
        with_supported.push("Require: "@ + comma_joined(require))
    } else {
        with_supported
    }
}

/// The rewritten header lines of unfolded ones.
pub open spec fn rewritten_lines(lines: Seq<Seq<char>>, offer: Option<OfferValue>) -> Result<
    Seq<Seq<char>>,
    RewriteError,
> {
    match gathered_upto(lines, offer, lines.len() as int) {
        Err(e) => Err(e),
        Ok(g) => if g.contacts != 1 {
            Err(RewriteError::Contact)
        } else {
            Ok(finished(g, offer))
        },
    }
}

/// Lines joined by line ends.
pub open spec fn crlf_joined(lines: Seq<Seq<char>>) -> Seq<char>
    decreases lines.len(),
{
    if lines.len() == 0 {
        Seq::empty()
    } else if lines.len() == 1 {
        lines[0]
    } else {
        crlf_joined(lines.drop_last()) + crlf() + lines.last()
    }
}

pub open spec fn blank_line() -> Seq<char> {
    seq!['\r', '\n', '\r', '\n']
}

/// A rewritten request's text.
pub open spec fn rewritten_text(s: Seq<char>, offer: Option<OfferValue>) -> Result<
    Seq<char>,
    RewriteError,
> {
    match text::find_text_from(s, blank_line(), 0) {
        None => Err(RewriteError::Request),
        Some(k) => {
            let lines = crlf_split_from(s.subrange(0, k), 0);
            match unfolded_upto(lines, lines.len() as int) {
                None => Err(RewriteError::Request),
                Some(whole) => match rewritten_lines(whole, offer) {
                    Err(e) => Err(e),
                    Ok(out) => Ok(
                        crlf_joined(out) + blank_line() + s.subrange(k + 4, s.len() as int),
                    ),
                },
            }
        },
    }
}

/// A rewritten request.
pub open spec fn rewritten(frame: Seq<u8>, offer: Option<OfferValue>) -> Result<
    Seq<u8>,
    RewriteError,
> {
    if !valid_utf8(frame) {
        Err(RewriteError::Request)
    } else {
        match rewritten_text(decode_utf8(frame), offer) {
            Err(e) => Err(e),
            Ok(s) => Ok(encode_utf8(s)),
        }
    }
}

proof fn lemma_gather_error(
    lines: Seq<Seq<char>>,
    offer: Option<OfferValue>,
    n: int,
    e: RewriteError,
)
    requires
        0 <= n <= lines.len(),
        gathered_upto(lines, offer, n) == Err::<Gathered, _>(e),
    ensures
        gathered_upto(lines, offer, lines.len() as int) == Err::<Gathered, _>(e),
    decreases lines.len() - n,
{
    if n < lines.len() {
        lemma_gather_error(lines, offer, n + 1, e);
    }
}

fn copy_of(s: &[char]) -> (r: Vec<char>)
    ensures
        r@ == s@,
{
    let mut r: Vec<char> = Vec::new();
    push_slice(&mut r, s);
    assert(r@ =~= s@);
    r
}

fn rewrite_lines(lines: &Vec<Vec<char>>, offer: Option<RegisterOffer>) -> (r: Result<
    Vec<Vec<char>>,
    RewriteError,
>)
    ensures
        match r {
            Ok(v) => rewritten_lines(texts_of(lines@), opt_offer(offer)) == Ok::<_, RewriteError>(
                texts_of(v@),
            ),
            Err(e) => rewritten_lines(texts_of(lines@), opt_offer(offer)) == Err::<
                Seq<Seq<char>>,
                _,
            >(e),
        },
{
    let ghost all = texts_of(lines@);
    let ghost want = opt_offer(offer);
    let legacy: bool = offer.is_none();
    let mut out: Vec<Vec<char>> = Vec::new();
    let mut contacts: usize = 0;
    let mut supported: Vec<Vec<char>> = Vec::new();
    let mut require: Vec<Vec<char>> = Vec::new();
    assert(texts_of(out@) =~= Seq::empty());
    assert(texts_of(supported@) =~= Seq::empty());
    assert(texts_of(require@) =~= Seq::empty());
    let mut i: usize = 0;
    while i < lines.len()
        invariant
            i <= lines@.len(),
            all == texts_of(lines@),
            want == opt_offer(offer),
            legacy == (want is None),
            contacts <= i,
            gathered_upto(all, want, i as int) == Ok::<_, RewriteError>(
                Gathered {
                    lines: texts_of(out@),
                    contacts: contacts as nat,
                    supported: texts_of(supported@),
                    require: texts_of(require@),
                },
            ),
        decreases lines@.len() - i,
    {
        let line = lines[i].as_slice();
        assert(all[i as int] == line@);
        let ghost before = out@;
        match split_once(line, ':') {
            None => {
                out.push(copy_of(line));
                assert(texts_of(out@) =~= texts_of(before).push(line@));
            },
            Some((raw, value)) => {
                let name = trimmed(raw);
                if is_alike_text(name, "Contact") || is_alike_text(name, "m") {
                    match rewrite_contact(value, offer) {
                        Err(e) => {
                            proof {
                                lemma_gather_error(all, want, i + 1, e);
                            }
                            return Err(e);
                        },
                        Ok(contact) => {
                            let mut whole = copy_of(name);
                            whole.push(':');
                            push_slice(&mut whole, contact.as_slice());
                            let ghost done = whole@;
                            assert(done =~= name@.push(':') + contact@);
                            out.push(whole);
                            assert(texts_of(out@) =~= texts_of(before).push(done));
                            contacts += 1;
                        },
                    }
                } else if is_alike_text(name, "Require") {
                    append_options(&mut require, value, legacy);
                } else if is_alike_text(name, "Supported") || is_alike_text(name, "k") {
                    append_options(&mut supported, value, legacy);
                } else {
                    out.push(copy_of(line));
                    assert(texts_of(out@) =~= texts_of(before).push(line@));
                }
            },
        }
        i += 1;
    }
    if contacts != 1 {
        return Err(RewriteError::Contact);
    }
    if let Some(o) = offer {
        let path = chars_of("path");
        let outbound = chars_of("outbound");
        append_option(&mut supported, path.as_slice());
        append_option(&mut supported, outbound.as_slice());
        if o.required {
            append_option(&mut require, outbound.as_slice());
        }
    }
    assert(supported@.len() == texts_of(supported@).len());
    assert(require@.len() == texts_of(require@).len());
    if supported.len() > 0 {
        let mut line = chars_of("Supported: ");
        push_joined(&mut line, &supported);
        let ghost before = out@;
        let ghost done = line@;
        out.push(line);
        assert(texts_of(out@) =~= texts_of(before).push(done));
    }
    if require.len() > 0 {
        let mut line = chars_of("Require: ");
        push_joined(&mut line, &require);
        let ghost before = out@;
        let ghost done = line@;
        out.push(line);
        assert(texts_of(out@) =~= texts_of(before).push(done));
    }
    Ok(out)
}

fn push_lines(out: &mut Vec<char>, lines: &Vec<Vec<char>>)
    ensures
        final(out)@ == old(out)@ + crlf_joined(texts_of(lines@)),
{
    let ghost all = texts_of(lines@);
    let mut i: usize = 0;
    assert(all.take(0) =~= Seq::empty());
    assert(out@ =~= old(out)@ + crlf_joined(all.take(0)));
    while i < lines.len()
        invariant
            i <= lines@.len(),
            all == texts_of(lines@),
            out@ == old(out)@ + crlf_joined(all.take(i as int)),
        decreases lines@.len() - i,
    {
        if i > 0 {
            out.push('\r');
            out.push('\n');
        }
        push_slice(out, lines[i].as_slice());
        i += 1;
        proof {
            let now = all.take(i as int);
            assert(now.drop_last() =~= all.take(i - 1));
            assert(now.last() == lines@[i - 1]@);
            assert(out@ =~= old(out)@ + crlf_joined(now));
        }
    }
    assert(all.take(all.len() as int) =~= all);
}

fn rewrite_text(s: &[char], offer: Option<RegisterOffer>) -> (r: Result<Vec<char>, RewriteError>)
    ensures
        match r {
            Ok(v) => rewritten_text(s@, opt_offer(offer)) == Ok::<_, RewriteError>(v@),
            Err(e) => rewritten_text(s@, opt_offer(offer)) == Err::<Seq<char>, _>(e),
        },
{
    let mut blank: Vec<char> = Vec::new();
    blank.push('\r');
    blank.push('\n');
    blank.push('\r');
    blank.push('\n');
    assert(blank@ =~= blank_line());
    let end: usize = s.len();
    match text::find_text(s, blank.as_slice(), 0) {
        None => Err(RewriteError::Request),
        Some(k) => {
            let lines = crlf_lines(slice_subrange(s, 0, k));
            assert(lines@.len() == text::views(lines@).len());
            match unfold(&lines) {
                None => Err(RewriteError::Request),
                Some(whole) => match rewrite_lines(&whole, offer) {
                    Err(e) => Err(e),
                    Ok(done) => {
                        let mut out: Vec<char> = Vec::new();
                        push_lines(&mut out, &done);
                        push_slice(&mut out, blank.as_slice());
                        push_slice(&mut out, slice_subrange(s, k + 4, end));
                        assert(out@ =~= crlf_joined(texts_of(done@)) + blank_line()
                            + s@.subrange(k + 4, s@.len() as int));
                        Ok(out)
                    },
                },
            }
        },
    }
}

pub fn rewrite_register(frame: &[u8], offer: Option<RegisterOffer>) -> (r: Result<
    Vec<u8>,
    ImsError,
>)
    ensures
        match r {
            Ok(v) => rewritten(frame@, opt_offer(offer)) == Ok::<_, RewriteError>(v@),
            Err(e) => rewritten(frame@, opt_offer(offer)) is Err && e.code_spec() == (rewritten(
                frame@,
                opt_offer(offer),
            )->Err_0).code(),
        },
{
    match decode_strict(frame) {
        None => Err(RewriteError::Request.to_error()),
        Some(whole) => {
            let s = chars_of(whole.as_str());
            match rewrite_text(s.as_slice(), offer) {
                Err(e) => Err(e.to_error()),
                Ok(out) => Ok(encode(out.as_slice())),
            }
        },
    }
}

/// A character that cannot stand in an instance identifier.
pub open spec fn instance_breaker(c: char) -> bool {
    text::control(c) || c == '"' || c == '\\' || c == '<' || c == '>'
}

/// An instance identifier that a Contact can carry.
pub open spec fn valid_instance(s: Seq<char>) -> bool {
    &&& s.len() > 0
    &&& forall|i: int| 0 <= i < s.len() ==> !instance_breaker(#[trigger] s[i])
}

fn is_valid_instance(s: &[char]) -> (r: bool)
    ensures
        r == valid_instance(s@),
{
    let mut i: usize = 0;
    while i < s.len()
        invariant
            i <= s@.len(),
            forall|k: int| 0 <= k < i ==> !instance_breaker(#[trigger] s@[k]),
        decreases s@.len() - i,
    {
        let c: char = s[i];
        if is_control(c) || c == '"' || c == '\\' || c == '<' || c == '>' {
            assert(instance_breaker(s@[i as int]));
            return false;
        }
        i += 1;
    }
    s.len() > 0
}

/// A REGISTER completed with an outbound offer.
pub open spec fn offered(frame: Seq<u8>, offer: OfferValue) -> Result<Seq<u8>, RewriteError> {
    if !valid_instance(offer.instance) || offer.reg_id == 0 {
        Err(RewriteError::Contact)
    } else {
        rewritten(frame, Some(offer))
    }
}

pub fn offer_register(frame: &[u8], instance: &str, reg_id: u32, required: bool) -> (r: Result<
    Vec<u8>,
    ImsError,
>)
    ensures
        match r {
            Ok(v) => offered(frame@, (OfferValue { instance: instance@, reg_id, required })) == Ok::<
                _,
                RewriteError,
            >(v@),
            Err(e) => offered(frame@, (OfferValue { instance: instance@, reg_id, required })) is Err
                && e.code_spec() == (offered(
                frame@,
                (OfferValue { instance: instance@, reg_id, required }),
            )->Err_0).code(),
        },
{
    let name = chars_of(instance);
    if !is_valid_instance(name.as_slice()) || reg_id == 0 {
        return Err(RewriteError::Contact.to_error());
    }
    rewrite_register(frame, Some(RegisterOffer { instance, reg_id, required }))
}

/// A REGISTER without any outbound offer.
pub fn legacy_register(frame: &[u8]) -> (r: Result<Vec<u8>, ImsError>)
    ensures
        match r {
            Ok(v) => rewritten(frame@, None) == Ok::<_, RewriteError>(v@),
            Err(e) => rewritten(frame@, None) is Err && e.code_spec() == (rewritten(
                frame@,
                None,
            )->Err_0).code(),
        },
{
    rewrite_register(frame, None)
}

// ------------------------------------------------------------------------ laws

/// Is a header line one of the capability lists?
pub open spec fn is_option_line(line: Seq<char>) -> bool {
    text::cut(line, ':') matches Some((raw, value)) && !is_contact(text::trim(raw)) && (is_require(
        text::trim(raw),
    ) || is_supported(text::trim(raw)))
}

/// Is a header line a Contact?
pub open spec fn is_contact_line(line: Seq<char>) -> bool {
    text::cut(line, ':') matches Some((raw, value)) && is_contact(text::trim(raw))
}

/// How many of the lines before `n` are no capability lists.
pub open spec fn place_of(lines: Seq<Seq<char>>, n: int) -> int
    decreases n,
{
    if n <= 0 {
        0
    } else if is_option_line(lines[n - 1]) {
        place_of(lines, n - 1)
    } else {
        place_of(lines, n - 1) + 1
    }
}

proof fn lemma_places(lines: Seq<Seq<char>>, offer: Option<OfferValue>, n: int)
    requires
        0 <= n <= lines.len(),
        gathered_upto(lines, offer, n) is Ok,
    ensures
        gathered_upto(lines, offer, n)->Ok_0.lines.len() == place_of(lines, n),
        forall|i: int|
            0 <= i < n && !is_option_line(#[trigger] lines[i]) ==> {
                &&& 0 <= place_of(lines, i) < place_of(lines, n)
                &&& !is_contact_line(lines[i]) ==> gathered_upto(
                    lines,
                    offer,
                    n,
                )->Ok_0.lines[place_of(lines, i)] == lines[i]
            },
    decreases n,
{
    if n > 0 {
        lemma_places(lines, offer, n - 1);
        let before = gathered_upto(lines, offer, n - 1)->Ok_0;
        let after = gathered_upto(lines, offer, n)->Ok_0;
        assert forall|i: int| 0 <= i < n && !is_option_line(#[trigger] lines[i]) implies {
            &&& 0 <= place_of(lines, i) < place_of(lines, n)
            &&& !is_contact_line(lines[i]) ==> after.lines[place_of(lines, i)] == lines[i]
        } by {
            if i < n - 1 {
                assert(place_of(lines, i) < before.lines.len());
                assert(after.lines[place_of(lines, i)] == before.lines[place_of(lines, i)]);
            }
        }
    }
}

/// Every header line but the Contact and the capability lists comes out as it was,
/// and in its order: behind the lines that came before it.
pub proof fn law_other_headers_stay(lines: Seq<Seq<char>>, offer: Option<OfferValue>, i: int)
    requires
        0 <= i < lines.len(),
        rewritten_lines(lines, offer) is Ok,
        !is_option_line(lines[i]),
        !is_contact_line(lines[i]),
    ensures
        0 <= place_of(lines, i) < rewritten_lines(lines, offer)->Ok_0.len(),
        rewritten_lines(lines, offer)->Ok_0[place_of(lines, i)] == lines[i],
{
    lemma_places(lines, offer, lines.len() as int);
    let g = gathered_upto(lines, offer, lines.len() as int)->Ok_0;
    assert(g.lines[place_of(lines, i)] == lines[i]);
    assert(finished(g, offer)[place_of(lines, i)] == lines[i]);
}

proof fn lemma_listed_stays(tokens: Seq<Seq<char>>, value: Seq<char>, token: Seq<char>)
    requires
        listed(tokens, token),
    ensures
        listed(with_option(tokens, value), token),
{
    let i = choose|i: int| 0 <= i < tokens.len() && text::alike(#[trigger] tokens[i], token);
    assert(with_option(tokens, value)[i] == tokens[i]);
}

proof fn lemma_option_listed(tokens: Seq<Seq<char>>, value: Seq<char>)
    requires
        text::trim(value) == value,
        value.len() > 0,
    ensures
        listed(with_option(tokens, value), value),
{
    if !listed(tokens, value) {
        let after = with_option(tokens, value);
        assert(after[tokens.len() as int] == value);
        assert(text::alike(value, value));
    }
}

pub proof fn lemma_names_are_trimmed()
    ensures
        text::trim("path"@) == "path"@,
        "path"@.len() > 0,
        text::trim("outbound"@) == "outbound"@,
        "outbound"@.len() > 0,
{
    reveal_strlit("path");
    reveal_strlit("outbound");
    assert(text::trim("path"@) =~= "path"@);
    assert(text::trim("outbound"@) =~= "outbound"@);
}

/// An offer lists what it needs: the path and outbound extensions as supported,
/// and outbound as required where it is.
pub proof fn law_offer_lists_its_options(tokens: Seq<Seq<char>>, offer: OfferValue)
    ensures
        listed(offered_supported(tokens, Some(offer)), "path"@),
        listed(offered_supported(tokens, Some(offer)), "outbound"@),
        offer.required ==> listed(offered_require(tokens, Some(offer)), "outbound"@),
{
    lemma_names_are_trimmed();
    lemma_option_listed(tokens, "path"@);
    let with_path = with_option(tokens, "path"@);
    lemma_listed_stays(with_path, "outbound"@, "path"@);
    lemma_option_listed(with_path, "outbound"@);
    lemma_option_listed(tokens, "outbound"@);
}

proof fn lemma_legacy_options(tokens: Seq<Seq<char>>, pieces: Seq<Seq<char>>, n: int)
    requires
        !listed(tokens, "outbound"@),
        0 <= n <= pieces.len(),
    ensures
        !listed(with_options_upto(tokens, pieces, true, n), "outbound"@),
    decreases n,
{
    if n > 0 {
        lemma_legacy_options(tokens, pieces, n - 1);
        let known = with_options_upto(tokens, pieces, true, n - 1);
        let piece = text::trim(pieces[n - 1]);
        if !text::alike(piece, "outbound"@) {
            text::lemma_trim_twice(pieces[n - 1]);
            let after = with_option(known, piece);
            if listed(after, "outbound"@) {
                let i = choose|i: int|
                    0 <= i < after.len() && text::alike(#[trigger] after[i], "outbound"@);
                if i < known.len() {
                    assert(after[i] == known[i]);
                }
            }
        }
    }
}

/// Without an offer no outbound option is left: neither among the supported ones
/// nor among those that are required.
pub proof fn law_legacy_drops_the_option(lines: Seq<Seq<char>>, n: int)
    requires
        0 <= n <= lines.len(),
        gathered_upto(lines, None, n) is Ok,
    ensures
        !listed(gathered_upto(lines, None, n)->Ok_0.supported, "outbound"@),
        !listed(gathered_upto(lines, None, n)->Ok_0.require, "outbound"@),
    decreases n,
{
    if n > 0 {
        law_legacy_drops_the_option(lines, n - 1);
        let before = gathered_upto(lines, None, n - 1)->Ok_0;
        if let Some((raw, value)) = text::cut(lines[n - 1], ':') {
            let pieces = text::split(value, ',');
            lemma_legacy_options(before.supported, pieces, pieces.len() as int);
            lemma_legacy_options(before.require, pieces, pieces.len() as int);
        }
    }
}

pub proof fn lemma_first_colon(name: Seq<char>, rest: Seq<char>)
    requires
        forall|i: int| 0 <= i < name.len() ==> name[i] != ':',
    ensures
        text::cut(name.push(':') + rest, ':') == Some((name, rest)),
{
    let line = name.push(':') + rest;
    text::lemma_find(line, ':', 0);
    let k = text::find_from(line, ':', 0);
    assert(line[name.len() as int] == ':');
    if k < name.len() {
        assert(line[k] == name[k]);
    }
    assert(k == name.len());
    assert(line.subrange(0, k) =~= name);
    assert(line.subrange(k + 1, line.len() as int) =~= rest);
}

/// The line of a list that rewriting puts out is under the name of that list.
proof fn lemma_list_line(label: Seq<char>, own: Seq<char>, tokens: Seq<char>, name: Seq<char>)
    requires
        label == own + seq![':', ' '],
        forall|i: int| 0 <= i < own.len() ==> own[i] != ':',
        text::trim(own) == own,
        !text::alike(own, name),
    ensures
        sip_frame::line_value(label + tokens, name) is None,
{
    let rest = seq![' '] + tokens;
    assert(label + tokens =~= own.push(':') + rest);
    lemma_first_colon(own, rest);
}

/// A line under the trimmed name of another has that name, and the value put there.
pub proof fn lemma_renamed_line(line: Seq<char>, value: Seq<char>)
    requires
        text::cut(line, ':') is Some,
    ensures
        ({
            let own = text::trim((text::cut(line, ':')->0).0);
            &&& text::cut(own.push(':') + value, ':') == Some((own, value))
            &&& text::trim(own) == own
        }),
{
    let raw = (text::cut(line, ':')->0).0;
    let own = text::trim(raw);
    text::lemma_find(line, ':', 0);
    text::lemma_trim_twice(raw);
    let lo = text::skip_white(raw, 0);
    text::lemma_skip_white(raw, 0);
    text::lemma_back_white(raw, lo, raw.len() as int);
    assert forall|i: int| 0 <= i < own.len() implies own[i] != ':' by {
        let j = lo + i;
        assert(own[i] == raw[j]);
        assert(raw[j] == line[j]);
    }
    lemma_first_colon(own, value);
}

proof fn lemma_contact_line(line: Seq<char>, contact: Seq<char>, name: Seq<char>)
    requires
        text::cut(line, ':') is Some,
        is_contact(text::trim((text::cut(line, ':')->0).0)),
        !is_contact(name),
    ensures
        sip_frame::line_value(
            text::trim((text::cut(line, ':')->0).0).push(':') + contact,
            name,
        ) is None,
        sip_frame::line_value(line, name) is None,
{
    lemma_renamed_line(line, contact);
}

proof fn lemma_values_stay(
    lines: Seq<Seq<char>>,
    offer: Option<OfferValue>,
    name: Seq<char>,
    n: int,
)
    requires
        0 < n <= lines.len(),
        gathered_upto(lines, offer, n) is Ok,
        !is_option_line(lines[0]),
        !is_contact_line(lines[0]),
        !is_contact(name),
        !is_supported(name),
        !is_require(name),
    ensures
        ({
            let g = gathered_upto(lines, offer, n)->Ok_0;
            &&& g.lines.len() > 0
            &&& g.lines[0] == lines[0]
            &&& sip_frame::values_upto(g.lines, name, g.lines.len() as int)
                == sip_frame::values_upto(lines, name, n)
        }),
    decreases n,
{
    reveal_with_fuel(gathered_upto, 2);
    if n > 1 {
        lemma_values_stay(lines, offer, name, n - 1);
        let before = gathered_upto(lines, offer, n - 1)->Ok_0;
        let after = gathered_upto(lines, offer, n)->Ok_0;
        let line = lines[n - 1];
        if is_contact_line(line) {
            let (raw, value) = text::cut(line, ':')->0;
            let contact = contact_value(value, offer)->Ok_0;
            lemma_contact_line(line, contact, name);
            assert(after.lines == before.lines.push(text::trim(raw).push(':') + contact));
        }
        if after.lines != before.lines {
            lemma_values_prefix(
                before.lines,
                after.lines.last(),
                name,
                before.lines.len() as int,
            );
            assert(after.lines =~= before.lines.push(after.lines.last()));
        }
    } else {
        let none = gathered_upto(lines, offer, 0)->Ok_0;
        let g = gathered_upto(lines, offer, 1)->Ok_0;
        assert(g.lines == none.lines.push(lines[0]));
        assert(g.lines[0] == lines[0]);
    }
}

proof fn lemma_values_prefix(lines: Seq<Seq<char>>, line: Seq<char>, name: Seq<char>, n: int)
    requires
        0 <= n <= lines.len(),
    ensures
        sip_frame::values_upto(lines.push(line), name, n) == sip_frame::values_upto(lines, name, n),
    decreases n,
{
    if n > 1 {
        lemma_values_prefix(lines, line, name, n - 1);
        assert(lines.push(line)[n - 1] == lines[n - 1]);
    }
}

/// A request keeps what it is about: its start line, and the values of every header
/// but the Contact and the capability lists, in their order. So it is the same
/// transaction, with the same authorization.
pub proof fn law_request_keeps_its_transaction(
    lines: Seq<Seq<char>>,
    offer: Option<OfferValue>,
    name: Seq<char>,
)
    requires
        lines.len() > 0,
        rewritten_lines(lines, offer) is Ok,
        !is_option_line(lines[0]),
        !is_contact_line(lines[0]),
        !is_contact(name),
        !is_supported(name),
        !is_require(name),
    ensures
        ({
            let out = rewritten_lines(lines, offer)->Ok_0;
            &&& out.len() > 0
            &&& out[0] == lines[0]
            &&& sip_frame::values_upto(out, name, out.len() as int) == sip_frame::values_upto(
                lines,
                name,
                lines.len() as int,
            )
        }),
{
    lemma_values_stay(lines, offer, name, lines.len() as int);
    let g = gathered_upto(lines, offer, lines.len() as int)->Ok_0;
    let supported = offered_supported(g.supported, offer);
    let require = offered_require(g.require, offer);
    let first = "Supported: "@ + comma_joined(supported);
    let second = "Require: "@ + comma_joined(require);
    reveal_strlit("Supported: ");
    reveal_strlit("Supported");
    reveal_strlit("Require: ");
    reveal_strlit("Require");
    assert("Supported: "@ =~= "Supported"@ + seq![':', ' ']);
    assert("Require: "@ =~= "Require"@ + seq![':', ' ']);
    assert(text::trim("Supported"@) =~= "Supported"@);
    assert(text::trim("Require"@) =~= "Require"@);
    lemma_list_line("Supported: "@, "Supported"@, comma_joined(supported), name);
    lemma_list_line("Require: "@, "Require"@, comma_joined(require), name);
    let with_supported = if supported.len() > 0 {
        g.lines.push(first)
    } else {
        g.lines
    };
    lemma_values_prefix(g.lines, first, name, g.lines.len() as int);
    assert(sip_frame::values_upto(with_supported, name, with_supported.len() as int)
        == sip_frame::values_upto(g.lines, name, g.lines.len() as int));
    lemma_values_prefix(with_supported, second, name, with_supported.len() as int);
}

/// How many of the lines before `n` are Contacts.
pub open spec fn contact_lines(lines: Seq<Seq<char>>, n: int) -> int
    decreases n,
{
    if n <= 0 {
        0
    } else if is_contact_line(lines[n - 1]) {
        contact_lines(lines, n - 1) + 1
    } else {
        contact_lines(lines, n - 1)
    }
}

proof fn lemma_contact_lines(lines: Seq<Seq<char>>, offer: Option<OfferValue>, n: int)
    requires
        0 <= n <= lines.len(),
        gathered_upto(lines, offer, n) is Ok,
    ensures
        gathered_upto(lines, offer, n)->Ok_0.contacts == contact_lines(lines, n),
    decreases n,
{
    if n > 0 {
        lemma_contact_lines(lines, offer, n - 1);
    }
}

/// A request is rewritten only where it has exactly one Contact: several fail
/// closed, so that no other flow's binding is edited.
pub proof fn law_only_one_contact_is_edited(lines: Seq<Seq<char>>, offer: Option<OfferValue>)
    ensures
        rewritten_lines(lines, offer) is Ok ==> contact_lines(lines, lines.len() as int) == 1,
{
    if gathered_upto(lines, offer, lines.len() as int) is Ok {
        lemma_contact_lines(lines, offer, lines.len() as int);
    }
}

} // verus!
