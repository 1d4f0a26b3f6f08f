//! What a REGISTER says after a flow was offered in it, or taken out of it.

use crate::register_laws;
use crate::register_response;
use crate::register_response::Mode;
use crate::register_rewrite;
use crate::register_rewrite::{OfferValue, RewriteError};
use crate::text;
use crate::text_laws;
use vstd::prelude::*;

verus! {

// --------------------------------------------------------------------------- options

proof fn lemma_kept(
    tokens: Seq<Seq<char>>,
    pieces: Seq<Seq<char>>,
    legacy: bool,
    n: int,
    token: Seq<char>,
)
    requires
        0 <= n <= pieces.len(),
        register_rewrite::listed(tokens, token),
    ensures
        register_rewrite::listed(
            register_rewrite::with_options_upto(tokens, pieces, legacy, n),
            token,
        ),
    decreases n,
{
    if n > 0 {
        lemma_kept(tokens, pieces, legacy, n - 1, token);
        let known = register_rewrite::with_options_upto(tokens, pieces, legacy, n - 1);
        let now = register_rewrite::with_options_upto(tokens, pieces, legacy, n);
        let i = choose|i: int| 0 <= i < known.len() && text::alike(#[trigger] known[i], token);
        assert(now[i] == known[i]);
    }
}

proof fn lemma_added(
    tokens: Seq<Seq<char>>,
    pieces: Seq<Seq<char>>,
    legacy: bool,
    n: int,
    k: int,
)
    requires
        0 <= k < n <= pieces.len(),
        text::trim(pieces[k]).len() > 0,
        legacy ==> !text::alike(text::trim(pieces[k]), "outbound"@),
    ensures
        register_rewrite::listed(
            register_rewrite::with_options_upto(tokens, pieces, legacy, n),
            text::trim(pieces[k]),
        ),
    decreases n,
{
    let known = register_rewrite::with_options_upto(tokens, pieces, legacy, n - 1);
    let now = register_rewrite::with_options_upto(tokens, pieces, legacy, n);
    let token = text::trim(pieces[k]);
    text::lemma_trim_twice(pieces[k]);
    if k < n - 1 {
        lemma_added(tokens, pieces, legacy, n - 1, k);
        let i = choose|i: int| 0 <= i < known.len() && text::alike(#[trigger] known[i], token);
        assert(now[i] == known[i]);
    } else if register_rewrite::listed(known, token) {
        let i = choose|i: int| 0 <= i < known.len() && text::alike(#[trigger] known[i], token);
        assert(now[i] == known[i]);
    } else {
        assert(now[known.len() as int] == token);
    }
}

/// No option of a request is lost: each that was listed stays listed, and each part of a
/// further header is listed too, but for outbound where no flow is offered.
pub proof fn law_options_are_kept(
    tokens: Seq<Seq<char>>,
    value: Seq<char>,
    legacy: bool,
    token: Seq<char>,
    k: int,
)
    ensures
        register_rewrite::listed(tokens, token) ==> register_rewrite::listed(
            register_rewrite::with_options(tokens, value, legacy),
            token,
        ),
        0 <= k < text::split(value, ',').len() && text::trim(text::split(value, ',')[k]).len() > 0
            && (legacy ==> !text::alike(text::trim(text::split(value, ',')[k]), "outbound"@))
            ==> register_rewrite::listed(
            register_rewrite::with_options(tokens, value, legacy),
            text::trim(text::split(value, ',')[k]),
        ),
{
    let pieces = text::split(value, ',');
    if register_rewrite::listed(tokens, token) {
        lemma_kept(tokens, pieces, legacy, pieces.len() as int, token);
    }
    if 0 <= k < pieces.len() && text::trim(pieces[k]).len() > 0 && (legacy ==> !text::alike(
        text::trim(pieces[k]),
        "outbound"@,
    )) {
        lemma_added(tokens, pieces, legacy, pieces.len() as int, k);
    }
}

// --------------------------------------------------------------------------- contacts

#[verifier::rlimit(50)]
proof fn lemma_one_contact(uri: Seq<char>, instance: Seq<char>, reg_id: u32, expires: u32)
    requires
        register_laws::plain_instance(instance),
        forall|i: int| 0 <= i < uri.len() ==> (#[trigger] uri[i]) != '"' && uri[i] != '<' && uri[i]
            != '>',
    ensures
        ({
            let c = register_laws::binding(uri, instance, reg_id, expires);
            register_response::free_split(c, ',') == seq![c]
        }),
{
    let c = register_laws::binding(uri, instance, reg_id, expires);
    reveal_strlit("+sip.instance=");
    reveal_strlit("reg-id=");
    reveal_strlit("expires=");
    let none = register_response::plain();
    let angle = Mode { quoted: false, escaped: false, angle: true };
    let a = uri.len() as int + 1;
    let inner = seq!['<'] + instance + seq!['>'];
    let q = a + 1 + 15;
    let e = q + 1 + inner.len();
    let one = "+sip.instance="@ + seq!['"'] + inner + seq!['"'];
    let two = "reg-id="@ + text::decimal(reg_id as nat);
    let three = "expires="@ + text::decimal(expires as nat);
    let tail = two.push(';') + three;
    let body = one.push(';') + tail;
    assert(c == (seq!['<'] + uri).push('>') + (seq![';'] + body));
    assert(c[0] == '<' && c[a] == '>');
    assert forall|k: int| 1 <= k < a implies (#[trigger] c[k]) != '"' && c[k] != '<' && c[k]
        != '>' by {
        assert(c[k] == uri[k - 1]);
    }
    register_laws::lemma_over_angle(c, 1, a);
    assert(register_response::next_mode(none, '<') == angle);
    assert(register_response::next_mode(angle, '>') == none);
    assert(register_response::free_split_from(c, ',', 0, 0, none)
        == register_response::free_split_from(c, ',', 0, 1, angle));
    assert(register_response::free_split_from(c, ',', 0, a, angle)
        == register_response::free_split_from(c, ',', 0, a + 1, none));
    assert forall|k: int| a + 1 <= k < q implies (#[trigger] c[k]) != '"' && c[k] != '<' && c[k]
        != '>' && c[k] != ',' by {
        if k > a + 1 {
            assert(c[k] == body[k - a - 2]);
            assert(body[k - a - 2] == "+sip.instance="@[k - a - 2]);
        }
    }
    register_laws::lemma_over_plain(c, ',', 0, a + 1, q);
    assert(c[q] == body[14] && body[14] == '"');
    let m = 15 + inner.len() as int;
    assert(c[e] == body[m] && body[m] == '"');
    assert forall|k: int| q + 1 <= k < e implies (#[trigger] c[k]) != '"' && c[k] != '\\' by {
        assert(c[k] == body[k - a - 2] && body[k - a - 2] == inner[k - q - 1]);
        if q + 1 < k < e - 1 {
            assert(inner[k - q - 1] == instance[k - q - 2]);
        }
    }
    register_laws::lemma_over_quoted(c, ',', 0, q + 1, e);
    assert(register_response::free_split_from(c, ',', 0, q, none)
        == register_response::free_split_from(
        c,
        ',',
        0,
        q + 1,
        Mode { quoted: true, escaped: false, angle: false },
    ));
    register_laws::lemma_number(reg_id);
    register_laws::lemma_number(expires);
    let d = text::decimal(reg_id as nat);
    let x = text::decimal(expires as nat);
    text::law_decimal_round_trip(reg_id as nat);
    text::law_decimal_round_trip(expires as nat);
    assert forall|i: int| 0 <= i < tail.len() implies (#[trigger] tail[i]) != '"' && tail[i] != '<'
        && tail[i] != '>' && tail[i] != ',' by {
        if 7 <= i < two.len() {
            assert(tail[i] == d[i - 7]);
            assert(text::digit(d[i - 7]));
        } else if i >= two.len() + 1 + 8 {
            assert(tail[i] == x[i - two.len() - 9]);
            assert(text::digit(x[i - two.len() - 9]));
        } else if i > two.len() {
            assert(tail[i] == three[i - two.len() - 1]);
            assert(three[i - two.len() - 1] == "expires="@[i - two.len() - 1]);
        } else if i < 7 {
            assert(tail[i] == "reg-id="@[i]);
        }
    }
    let n = c.len() as int;
    assert forall|k: int| e + 1 <= k < n implies (#[trigger] c[k]) != '"' && c[k] != '<' && c[k]
        != '>' && c[k] != ',' by {
        if k > e + 1 {
            assert(c[k] == body[k - a - 2]);
            assert(body[k - a - 2] == tail[k - e - 2]);
        }
    }
    register_laws::lemma_over_plain(c, ',', 0, e + 1, n);
    assert(c.subrange(0, n) =~= c);
}

/// A Contact that a flow is offered in keeps its URI and its lifetime, and names the instance
/// and the flow of the offer in place of what it named before; without an offer it keeps its
/// instance and loses its flow.
pub proof fn law_contact_names_the_offered_flow(
    uri: Seq<char>,
    old_instance: Seq<char>,
    old_id: u32,
    expires: u32,
    offer: OfferValue,
)
    requires
        register_laws::plain_instance(old_instance),
        forall|i: int| 0 <= i < uri.len() ==> (#[trigger] uri[i]) != '"' && uri[i] != '<' && uri[i]
            != '>',
    ensures
        ({
            let c = register_laws::binding(uri, old_instance, old_id, expires);
            let front = seq!['<'] + uri + seq!['>'];
            &&& register_rewrite::contact_value(c, Some(offer)) == Ok::<_, RewriteError>(
                front + (";expires="@ + text::decimal(expires as nat)) + (";+sip.instance=\"<"@
                    + offer.instance + ">\";reg-id="@ + text::decimal(offer.reg_id as nat)),
            )
            &&& register_rewrite::contact_value(c, None) == Ok::<_, RewriteError>(
                front + (";+sip.instance=\"<"@ + old_instance + ">\""@) + (";expires="@
                    + text::decimal(expires as nat)),
            )
        }),
{
    let c = register_laws::binding(uri, old_instance, old_id, expires);
    lemma_one_contact(uri, old_instance, old_id, expires);
    register_laws::lemma_binding_parts(uri, old_instance, old_id, expires);
    let end = uri.len() as int + 2;
    let front = seq!['<'] + uri + seq!['>'];
    register_laws::lemma_binding_front(uri, old_instance, old_id, expires);
    assert(c.subrange(0, end) =~= front);
    assert(c[0] == '<');
    lemma_no_wildcard(c);
    let rest = c.subrange(end, c.len() as int);
    let pieces = register_response::free_split(rest, ';');
    lemma_keeps(pieces, old_instance, old_id, expires);
    lemma_texts(old_instance, expires);
    let a = ";+sip.instance=\"<"@ + old_instance + ">\""@;
    let b = ";expires="@ + text::decimal(expires as nat);
    assert(front + (a + b) =~= front + a + b);
    assert(pieces.len() == 4);
    assert(register_rewrite::contact_end(c, true) == Some(end));
    assert(register_rewrite::contact_end(c, false) == Some(end));
}

proof fn lemma_no_wildcard(c: Seq<char>)
    requires
        c.len() > 2,
        c[0] == '<',
        '0' <= c.last() <= '9',
    ensures
        text::trim(c) != "*"@,
{
    let none = Seq::<char>::empty();
    text_laws::law_trim_takes_the_ends(none, c, none);
    assert(none + c + none =~= c);
    reveal_strlit("*");
    assert("*"@.len() == 1);
}

proof fn lemma_keeps(pieces: Seq<Seq<char>>, instance: Seq<char>, reg_id: u32, expires: u32)
    requires
        register_laws::plain_instance(instance),
        pieces == seq![
            Seq::<char>::empty(),
            "+sip.instance="@ + seq!['"'] + (seq!['<'] + instance + seq!['>']) + seq!['"'],
            "reg-id="@ + text::decimal(reg_id as nat),
            "expires="@ + text::decimal(expires as nat),
        ],
    ensures
        register_rewrite::kept_upto(pieces, true, 4) == seq![';'] + pieces[3],
        register_rewrite::kept_upto(pieces, false, 4) == seq![';'] + pieces[1] + seq![';']
            + pieces[3],
{
    reveal_strlit("+sip.instance=");
    reveal_strlit("reg-id=");
    reveal_strlit("expires=");
    reveal_strlit("+sip.instance");
    reveal_strlit("reg-id");
    reveal_strlit("expires");
    assert("+sip.instance="@ =~= "+sip.instance"@.push('='));
    assert("reg-id="@ =~= "reg-id"@.push('='));
    assert("expires="@ =~= "expires"@.push('='));
    let quoted = seq!['"'] + (seq!['<'] + instance + seq!['>']) + seq!['"'];
    assert(pieces[1] =~= "+sip.instance"@.push('=') + quoted);
    text_laws::law_cut_gives_both_sides("+sip.instance"@, quoted, '=');
    text_laws::law_cut_gives_both_sides("reg-id"@, text::decimal(reg_id as nat), '=');
    text_laws::law_cut_gives_both_sides("expires"@, text::decimal(expires as nat), '=');
    register_laws::lemma_ends("+sip.instance"@);
    register_laws::lemma_ends("reg-id"@);
    register_laws::lemma_ends("expires"@);
    text_laws::law_alike_ignores_case_alone("+sip.instance"@, "reg-id"@);
    text_laws::law_alike_ignores_case_alone("expires"@, "reg-id"@);
    text_laws::law_alike_ignores_case_alone("expires"@, "+sip.instance"@);
    assert("+sip.instance"@.len() == 13 && "reg-id"@.len() == 6 && "expires"@.len() == 7);
    assert(register_rewrite::keeps(pieces[3], true) && register_rewrite::keeps(pieces[3], false));
    assert(!register_rewrite::keeps(pieces[2], true) && !register_rewrite::keeps(pieces[2], false));
    assert(!register_rewrite::keeps(pieces[1], true) && register_rewrite::keeps(pieces[1], false));
    reveal_with_fuel(register_rewrite::kept_upto, 5);
    assert(register_rewrite::kept_upto(pieces, true, 4) =~= seq![';'] + pieces[3]);
    assert(register_rewrite::kept_upto(pieces, false, 4) =~= seq![';'] + pieces[1] + seq![';']
        + pieces[3]);
}

proof fn lemma_texts(instance: Seq<char>, expires: u32)
    ensures
        seq![';'] + ("expires="@ + text::decimal(expires as nat)) == ";expires="@ + text::decimal(
            expires as nat,
        ),
        seq![';'] + ("+sip.instance="@ + seq!['"'] + (seq!['<'] + instance + seq!['>'])
            + seq!['"']) + seq![';'] + ("expires="@ + text::decimal(expires as nat))
            == (";+sip.instance=\"<"@ + instance + ">\""@) + (";expires="@ + text::decimal(
            expires as nat,
        )),
{
    reveal_strlit("expires=");
    reveal_strlit(";expires=");
    reveal_strlit("+sip.instance=");
    reveal_strlit(";+sip.instance=\"<");
    reveal_strlit(">\"");
    let d = text::decimal(expires as nat);
    assert(seq![';'] + "expires="@ =~= ";expires="@);
    assert(seq![';'] + ("expires="@ + d) =~= ";expires="@ + d);
    assert(";+sip.instance=\"<"@ =~= seq![';'] + "+sip.instance="@ + seq!['"', '<']);
    assert(seq![';'] + ("+sip.instance="@ + seq!['"'] + (seq!['<'] + instance + seq!['>'])
        + seq!['"']) + seq![';'] + ("expires="@ + d) =~= (";+sip.instance=\"<"@ + instance
        + ">\""@) + (";expires="@ + d));
}

/// All bindings at once are never taken away, and a flow is offered only under a name that a
/// Contact can carry and with a number of its own.
pub proof fn law_unusable_offers_are_refused(frame: Seq<u8>, offer: OfferValue, k: int)
    ensures
        register_rewrite::contact_value("*"@, Some(offer)) == Err::<Seq<char>, _>(
            RewriteError::Wildcard,
        ),
        register_rewrite::contact_value("*"@, None) == Err::<Seq<char>, _>(RewriteError::Wildcard),
        offer.reg_id == 0 ==> register_rewrite::offered(frame, offer) is Err,
        offer.instance.len() == 0 ==> register_rewrite::offered(frame, offer) is Err,
        0 <= k < offer.instance.len() && (offer.instance[k] == '"' || offer.instance[k] == '<'
            || offer.instance[k] == '>' || offer.instance[k] == '\\' || offer.instance[k] == '\n')
            ==> register_rewrite::offered(frame, offer) is Err,
{
    reveal_strlit("*");
    register_laws::lemma_ends("*"@);
    if 0 <= k < offer.instance.len() && (offer.instance[k] == '"' || offer.instance[k] == '<'
        || offer.instance[k] == '>' || offer.instance[k] == '\\' || offer.instance[k] == '\n') {
        assert(register_rewrite::instance_breaker(offer.instance[k]));
    }
}

} // verus!
