//! What a registrar's answer says of a registration.

use crate::register_response;
use crate::register_response::Mode;
use crate::sip_frame;
use crate::text;
use crate::text_laws;
use vstd::prelude::*;

verus! {

// --------------------------------------------------------------------------- transactions

pub(crate) proof fn lemma_ends(s: Seq<char>)
    requires
        s.len() > 0 && !text::white(s[0]) && !text::white(s.last()),
    ensures
        text::trim(s) == s,
{
    let none = Seq::<char>::empty();
    text_laws::law_trim_takes_the_ends(none, s, none);
    assert(none + s + none =~= s);
}

proof fn lemma_words(n: u32, method: Seq<char>)
    requires
        method.len() > 0,
        forall|i: int| 0 <= i < method.len() ==> !text::white(#[trigger] method[i]),
    ensures
        text::words(text::decimal(n as nat) + seq![' '] + method) == seq![
            text::decimal(n as nat),
            method,
        ],
{
    let none = Seq::<char>::empty();
    let d = text::decimal(n as nat);
    text::law_decimal_round_trip(n as nat);
    assert forall|i: int| 0 <= i < d.len() implies !text::white(#[trigger] d[i]) by {
        assert(text::digit(d[i]));
    }
    text_laws::law_words_are_parted_by_white_space(none, d, ' ', method);
    text_laws::law_words_are_parted_by_white_space(none, method, ' ', method);
    assert(none + d.push(' ') + method =~= d + seq![' '] + method);
    assert(none + method =~= method);
    assert(text::words(d + seq![' '] + method) =~= seq![d, method]);
}

/// A registration's number is read from its CSeq, and no other method's is.
pub proof fn law_registration_number_is_read(n: u32, method: Seq<char>)
    requires
        method.len() > 0,
        forall|i: int| 0 <= i < method.len() ==> !text::white(#[trigger] method[i]),
    ensures
        text::alike(method, "REGISTER"@) ==> register_response::register_cseq(
            text::decimal(n as nat) + seq![' '] + method,
        ) == Some(n as nat),
        !text::alike(method, "REGISTER"@) ==> register_response::register_cseq(
            text::decimal(n as nat) + seq![' '] + method,
        ) is None,
{
    lemma_words(n, method);
    text_laws::law_numbers_are_read_as_written(n as nat, u32::MAX as nat, seq![], 0);
}

/// A frame with this Call-ID and the CSeq of a registration with this number.
pub open spec fn carries(frame: Seq<u8>, call_id: Seq<char>, n: u32) -> bool {
    &&& sip_frame::header_of(frame, "Call-ID"@) == Some(call_id)
    &&& sip_frame::header_of(frame, "CSeq"@) == Some(
        text::decimal(n as nat) + seq![' '] + "REGISTER"@,
    )
}

/// A response answers a registration just where both carry the same Call-ID and number.
pub proof fn law_answer_has_the_same_number(
    request: Seq<u8>,
    response: Seq<u8>,
    call_id: Seq<char>,
    n: u32,
    other_id: Seq<char>,
    m: u32,
)
    requires
        sip_frame::request_is(request, "REGISTER"@),
        carries(request, call_id, n),
        carries(response, other_id, m),
    ensures
        register_response::answers(request, response) <==> text::starts(
            sip_frame::head_text(response),
            "SIP/2.0 "@,
        ) && other_id == call_id && m == n,
{
    reveal_strlit("REGISTER");
    law_registration_number_is_read(n, "REGISTER"@);
    law_registration_number_is_read(m, "REGISTER"@);
}

/// Nothing answers a request that is no registration, and no request is an answer.
pub proof fn law_only_registrations_are_answered(request: Seq<u8>, response: Seq<u8>)
    ensures
        !sip_frame::request_is(request, "REGISTER"@) ==> !register_response::answers(
            request,
            response,
        ),
        !text::starts(sip_frame::head_text(response), "SIP/2.0 "@) ==> !register_response::answers(
            request,
            response,
        ),
        sip_frame::header_of(request, "Call-ID"@) != sip_frame::header_of(response, "Call-ID"@)
            ==> !register_response::answers(request, response),
{
}

// --------------------------------------------------------------------------- contacts

/// A text without quotes, brackets and separators.
pub open spec fn plain_text(s: Seq<char>, sep: char) -> bool {
    forall|i: int|
        0 <= i < s.len() ==> (#[trigger] s[i]) != '"' && s[i] != '<' && s[i] != '>' && s[i] != sep
}

pub(crate) proof fn lemma_over_plain(s: Seq<char>, sep: char, start: int, i: int, j: int)
    requires
        0 <= start <= i <= j <= s.len(),
        forall|k: int|
            i <= k < j ==> (#[trigger] s[k]) != '"' && s[k] != '<' && s[k] != '>' && s[k] != sep,
    ensures
        register_response::free_split_from(s, sep, start, i, register_response::plain())
            == register_response::free_split_from(s, sep, start, j, register_response::plain()),
    decreases j - i,
{
    if i < j {
        assert(register_response::next_mode(register_response::plain(), s[i])
            == register_response::plain());
        lemma_over_plain(s, sep, start, i + 1, j);
    }
}

pub(crate) proof fn lemma_over_quoted(s: Seq<char>, sep: char, start: int, i: int, j: int)
    requires
        0 <= start <= i <= j < s.len(),
        s[j] == '"',
        forall|k: int| i <= k < j ==> (#[trigger] s[k]) != '"' && s[k] != '\\',
        sep != '"',
    ensures
        ({
            let quoted = Mode { quoted: true, escaped: false, angle: false };
            register_response::free_split_from(s, sep, start, i, quoted)
                == register_response::free_split_from(
                s,
                sep,
                start,
                j + 1,
                register_response::plain(),
            )
        }),
    decreases j - i,
{
    let quoted = Mode { quoted: true, escaped: false, angle: false };
    if i < j {
        assert(register_response::next_mode(quoted, s[i]) == quoted);
        lemma_over_quoted(s, sep, start, i + 1, j);
    } else {
        assert(register_response::next_mode(quoted, s[i]) == register_response::plain());
    }
}

proof fn lemma_free_shift(a: Seq<char>, b: Seq<char>, sep: char, start: int, i: int, m: Mode)
    requires
        0 <= start <= i <= b.len(),
    ensures
        register_response::free_split_from(a + b, sep, a.len() + start, a.len() + i, m)
            == register_response::free_split_from(b, sep, start, i, m),
    decreases b.len() - i,
{
    let s = a + b;
    let n = a.len() as int;
    if i < b.len() {
        assert(s[n + i] == b[i]);
        assert(s.subrange(n + start, n + i) =~= b.subrange(start, i));
        if b[i] == sep && !m.quoted && !m.angle {
            lemma_free_shift(a, b, sep, i + 1, i + 1, m);
        } else {
            lemma_free_shift(a, b, sep, start, i + 1, register_response::next_mode(m, b[i]));
        }
    } else {
        assert(s.subrange(n + start, s.len() as int) =~= b.subrange(start, b.len() as int));
    }
}

/// A separator parts a value outside quotes, and inside them it is a character like any other.
pub proof fn law_separators_count_outside_quotes(
    a: Seq<char>,
    quoted: Seq<char>,
    b: Seq<char>,
    sep: char,
)
    requires
        plain_text(a, sep),
        forall|i: int| 0 <= i < quoted.len() ==> (#[trigger] quoted[i]) != '"' && quoted[i] != '\\',
        sep != '"' && sep != '<' && sep != '>',
    ensures
        register_response::free_split(a.push(sep) + b, sep) == seq![a]
            + register_response::free_split(b, sep),
        register_response::free_split(
            (a + seq!['"'] + quoted + seq!['"']).push(sep) + b,
            sep,
        ) == seq![a + seq!['"'] + quoted + seq!['"']] + register_response::free_split(b, sep),
        register_response::free_split(a, sep) == seq![a],
        register_response::free_split(a + seq!['"'] + quoted + seq!['"'], sep) == seq![
            a + seq!['"'] + quoted + seq!['"'],
        ],
{
    let none = register_response::plain();
    let n = a.len() as int;
    // a plain part
    let s = a.push(sep) + b;
    assert forall|k: int| 0 <= k < n implies (#[trigger] s[k]) != '"' && s[k] != '<' && s[k] != '>'
        && s[k] != sep by {
        assert(s[k] == a[k]);
    }
    lemma_over_plain(s, sep, 0, 0, n);
    assert(s[n] == sep);
    assert(s.subrange(0, n) =~= a);
    lemma_free_shift(a.push(sep), b, sep, 0, 0, none);
    lemma_over_plain(a, sep, 0, 0, n);
    assert(a.subrange(0, n) =~= a);
    // a part with a quoted text
    let part = a + seq!['"'] + quoted + seq!['"'];
    let m = n + quoted.len() + 2;
    let t = part.push(sep) + b;
    lemma_quoted_part(t, part, a, quoted, sep);
    assert(t[m] == sep);
    assert(t.subrange(0, m) =~= part);
    lemma_free_shift(part.push(sep), b, sep, 0, 0, none);
    lemma_quoted_part(part, part, a, quoted, sep);
    assert(part.subrange(0, m) =~= part);
}

proof fn lemma_quoted_part(
    t: Seq<char>,
    part: Seq<char>,
    a: Seq<char>,
    quoted: Seq<char>,
    sep: char,
)
    requires
        plain_text(a, sep),
        forall|i: int| 0 <= i < quoted.len() ==> (#[trigger] quoted[i]) != '"' && quoted[i] != '\\',
        sep != '"' && sep != '<' && sep != '>',
        part == a + seq!['"'] + quoted + seq!['"'],
        part.len() <= t.len(),
        forall|k: int| 0 <= k < part.len() ==> t[k] == part[k],
    ensures
        register_response::free_split(t, sep) == register_response::free_split_from(
            t,
            sep,
            0,
            part.len() as int,
            register_response::plain(),
        ),
{
    let n = a.len() as int;
    let m = part.len() as int;
    assert forall|k: int| 0 <= k < n implies (#[trigger] t[k]) != '"' && t[k] != '<' && t[k] != '>'
        && t[k] != sep by {
        assert(t[k] == part[k] && part[k] == a[k]);
    }
    lemma_over_plain(t, sep, 0, 0, n);
    assert(t[n] == part[n] && part[n] == '"');
    assert(t[m - 1] == part[m - 1] && part[m - 1] == '"');
    assert forall|k: int| n + 1 <= k < m - 1 implies (#[trigger] t[k]) != '"' && t[k] != '\\' by {
        assert(t[k] == part[k] && part[k] == quoted[k - n - 1]);
    }
    lemma_over_quoted(t, sep, 0, n + 1, m - 1);
}

/// The binding of an instance and a flow, with its lifetime.
pub open spec fn binding(uri: Seq<char>, instance: Seq<char>, reg_id: u32, expires: u32) -> Seq<
    char,
> {
    (seq!['<'] + uri).push('>') + (seq![';'] + (("+sip.instance="@ + seq!['"'] + (seq!['<']
        + instance + seq!['>']) + seq!['"']).push(';') + (("reg-id="@ + text::decimal(
        reg_id as nat,
    )).push(';') + ("expires="@ + text::decimal(expires as nat)))))
}

pub open spec fn plain_instance(s: Seq<char>) -> bool {
    &&& s.len() > 0
    &&& forall|i: int|
        0 <= i < s.len() ==> (#[trigger] s[i]) != '"' && s[i] != '\\' && s[i] != '<' && s[i] != '>'
            && !text::white(s[i])
}

pub(crate) proof fn lemma_number(n: u32)
    ensures
        ({
            let d = text::decimal(n as nat);
            &&& register_response::bare_value(d) == d
            &&& register_response::seconds(Some(d)) == Some(n)
            &&& plain_text(d, ';')
            &&& text_laws::without(d, '=')
        }),
{
    let d = text::decimal(n as nat);
    text::law_decimal_round_trip(n as nat);
    assert(text::digit(d[0]) && text::digit(d.last()));
    lemma_ends(d);
    lemma_bare(d, '"');
    lemma_bare(d, '<');
    lemma_bare(d, '>');
    text_laws::law_numbers_are_read_as_written(n as nat, u32::MAX as nat, d, 0);
    assert forall|i: int| 0 <= i < d.len() implies (#[trigger] d[i]) != '"' && d[i] != '<' && d[i]
        != '>' && d[i] != ';' && d[i] != '=' by {
        assert(text::digit(d[i]));
    }
}

proof fn lemma_bare(s: Seq<char>, c: char)
    requires
        s.len() > 0,
        s[0] != c,
        s.last() != c,
    ensures
        text::trim_char(s, c) == s,
{
    assert(text::skip_char(s, c, 0) == 0);
    assert(text::back_char(s, c, 0, s.len() as int) == s.len());
    assert(s.subrange(0, s.len() as int) =~= s);
}

proof fn lemma_unwrapped(s: Seq<char>, a: char, b: char, c: char)
    requires
        s.len() > 0,
        s[0] != c,
        s.last() != c,
        a == c || b == c,
    ensures
        a == c && b == c ==> text::trim_char(seq![a] + s + seq![b], c) == s,
        a == c && b != c ==> text::trim_char(seq![a] + s + seq![b], c) == s + seq![b],
        a != c && b == c ==> text::trim_char(seq![a] + s + seq![b], c) == seq![a] + s,
{
    let t = seq![a] + s + seq![b];
    let n = t.len() as int;
    assert(t[0] == a && t[n - 1] == b && t[1] == s[0] && t[n - 2] == s.last());
    if a == c {
        assert(text::skip_char(t, c, 1) == 1);
        assert(text::skip_char(t, c, 0) == 1);
        if b == c {
            assert(text::back_char(t, c, 1, n - 1) == n - 1);
            assert(text::back_char(t, c, 1, n) == n - 1);
            assert(t.subrange(1, n - 1) =~= s);
        } else {
            assert(text::back_char(t, c, 1, n) == n);
            assert(t.subrange(1, n) =~= s + seq![b]);
        }
    } else {
        assert(text::skip_char(t, c, 0) == 0);
        assert(text::back_char(t, c, 0, n - 1) == n - 1);
        assert(text::back_char(t, c, 0, n) == n - 1);
        assert(t.subrange(0, n - 1) =~= seq![a] + s);
    }
}

/// An instance is read without its quotes and brackets.
proof fn lemma_instance(s: Seq<char>)
    requires
        plain_instance(s),
    ensures
        register_response::bare_value(
            seq!['"'] + (seq!['<'] + s + seq!['>']) + seq!['"'],
        ) == s,
{
    let inner = seq!['<'] + s + seq!['>'];
    let all = seq!['"'] + inner + seq!['"'];
    assert(all[0] == '"' && all.last() == '"');
    lemma_ends(all);
    assert(inner[0] == '<' && inner.last() == '>');
    lemma_unwrapped(inner, '"', '"', '"');
    assert(s[0] != '<' && s.last() != '<' && s[0] != '>' && s.last() != '>');
    lemma_unwrapped(s, '<', '>', '<');
    let rest = s + seq!['>'];
    let n = rest.len() as int;
    assert(text::trim_char(rest, '>') == s) by {
        assert(rest[0] == s[0] && rest[n - 1] == '>' && rest[n - 2] == s.last());
        assert(text::skip_char(rest, '>', 0) == 0);
        assert(text::back_char(rest, '>', 0, n - 1) == n - 1);
        assert(text::back_char(rest, '>', 0, n) == n - 1);
        assert(rest.subrange(0, n - 1) =~= s);
    }
}

#[verifier::rlimit(50)]
pub(crate) proof fn lemma_binding_parts(uri: Seq<char>, instance: Seq<char>, reg_id: u32, expires: u32)
    requires
        text_laws::without(uri, '>'),
        plain_instance(instance),
    ensures
        ({
            let c = binding(uri, instance, reg_id, expires);
            let rest = c.subrange(register_response::parameters_start(c), c.len() as int);
            register_response::free_split(rest, ';') == seq![
                Seq::<char>::empty(),
                "+sip.instance="@ + seq!['"'] + (seq!['<'] + instance + seq!['>']) + seq!['"'],
                "reg-id="@ + text::decimal(reg_id as nat),
                "expires="@ + text::decimal(expires as nat),
            ]
        }),
{
    let c = binding(uri, instance, reg_id, expires);
    reveal_strlit("+sip.instance=");
    reveal_strlit("reg-id=");
    reveal_strlit("expires=");
    let front = seq!['<'] + uri;
    let inner = seq!['<'] + instance + seq!['>'];
    let one = "+sip.instance="@ + seq!['"'] + inner + seq!['"'];
    let two = "reg-id="@ + text::decimal(reg_id as nat);
    let three = "expires="@ + text::decimal(expires as nat);
    let tail = two.push(';') + three;
    let body = one.push(';') + tail;
    let rest = seq![';'] + body;
    assert(c == front.push('>') + rest);
    assert(c[0] == '<');
    assert(register_response::open_from(c, 0, register_response::plain()) == 0);
    assert(text_laws::without(front, '>')) by {
        assert forall|i: int| 0 <= i < front.len() implies (#[trigger] front[i]) != '>' by {
            if i > 0 {
                assert(front[i] == uri[i - 1]);
            }
        }
    }
    text_laws::law_first_is_found(front, rest, '>');
    let k = front.len() as int;
    assert(register_response::parameters_start(c) == k + 1);
    assert(c.subrange(k + 1, c.len() as int) =~= rest);
    lemma_number(reg_id);
    lemma_number(expires);
    assert(plain_text(two, ';')) by {
        let d = text::decimal(reg_id as nat);
        assert forall|i: int| 0 <= i < two.len() implies (#[trigger] two[i]) != '"' && two[i] != '<'
            && two[i] != '>' && two[i] != ';' by {
            if i >= 7 {
                assert(two[i] == d[i - 7]);
            }
        }
    }
    assert(plain_text(three, ';')) by {
        let d = text::decimal(expires as nat);
        assert forall|i: int| 0 <= i < three.len() implies (#[trigger] three[i]) != '"' && three[i]
            != '<' && three[i] != '>' && three[i] != ';' by {
            if i >= 8 {
                assert(three[i] == d[i - 8]);
            }
        }
    }
    let none = Seq::<char>::empty();
    assert forall|i: int| 0 <= i < inner.len() implies (#[trigger] inner[i]) != '"' && inner[i]
        != '\\' by {
        if 0 < i < inner.len() - 1 {
            assert(inner[i] == instance[i - 1]);
        }
    }
    law_separators_count_outside_quotes(none, none, body, ';');
    assert(none.push(';') + body =~= rest);
    law_separators_count_outside_quotes("+sip.instance="@, inner, tail, ';');
    law_separators_count_outside_quotes(two, none, three, ';');
    law_separators_count_outside_quotes(three, none, none, ';');
    assert(register_response::free_split(rest, ';') =~= seq![none, one, two, three]);
}

/// The parameters of a binding stand behind its bracketed URI.
pub(crate) proof fn lemma_binding_front(
    uri: Seq<char>,
    instance: Seq<char>,
    reg_id: u32,
    expires: u32,
)
    requires
        text_laws::without(uri, '>'),
    ensures
        ({
            let c = binding(uri, instance, reg_id, expires);
            &&& register_response::brackets(c) == Some((0int, uri.len() as int + 1))
            &&& '0' <= c.last() <= '9'
            &&& c.len() > uri.len() + 2
        }),
{
    let c = binding(uri, instance, reg_id, expires);
    let front = seq!['<'] + uri;
    let d = text::decimal(expires as nat);
    text::law_decimal_round_trip(expires as nat);
    assert(text::digit(d.last()));
    assert(c.last() == d.last());
    let rest = c.subrange(uri.len() as int + 2, c.len() as int);
    assert(c =~= front.push('>') + rest);
    assert(c[0] == '<');
    assert(register_response::open_from(c, 0, register_response::plain()) == 0);
    assert(text_laws::without(front, '>')) by {
        assert forall|i: int| 0 <= i < front.len() implies (#[trigger] front[i]) != '>' by {
            if i > 0 {
                assert(front[i] == uri[i - 1]);
            }
        }
    }
    text_laws::law_first_is_found(front, rest, '>');
}

/// A binding is read for what it says: its instance, its flow and its lifetime, whatever the
/// URI in its brackets holds.
#[verifier::rlimit(50)]
pub proof fn law_binding_is_read(
    frame: Seq<u8>,
    uri: Seq<char>,
    instance: Seq<char>,
    reg_id: u32,
    expires: u32,
    other: Seq<char>,
    other_id: u32,
)
    requires
        text_laws::without(uri, '>'),
        plain_instance(instance),
    ensures
        ({
            let c = binding(uri, instance, reg_id, expires);
            &&& register_response::binding_expires(frame, c) == Some(expires)
            &&& register_response::is_binding(c, other, other_id) <==> other == instance && other_id
                == reg_id
        }),
{
    let c = binding(uri, instance, reg_id, expires);
    let rest = c.subrange(register_response::parameters_start(c), c.len() as int);
    let parts = register_response::free_split(rest, ';');
    lemma_binding_parts(uri, instance, reg_id, expires);
    reveal_strlit("+sip.instance=");
    reveal_strlit("reg-id=");
    reveal_strlit("expires=");
    reveal_strlit("+sip.instance");
    reveal_strlit("reg-id");
    reveal_strlit("expires");
    assert("+sip.instance="@ =~= "+sip.instance"@.push('='));
    assert("reg-id="@ =~= "reg-id"@.push('='));
    assert("expires="@ =~= "expires"@.push('='));
    let quoted = seq!['"'] + (seq!['<'] + instance + seq!['>']) + seq!['"'];
    let r = text::decimal(reg_id as nat);
    let e = text::decimal(expires as nat);
    assert(parts[1] =~= "+sip.instance"@.push('=') + quoted);
    text_laws::law_cut_gives_both_sides("+sip.instance"@, quoted, '=');
    text_laws::law_cut_gives_both_sides("reg-id"@, r, '=');
    text_laws::law_cut_gives_both_sides("expires"@, e, '=');
    lemma_ends("+sip.instance"@);
    lemma_ends("reg-id"@);
    lemma_ends("expires"@);
    lemma_instance(instance);
    lemma_number(reg_id);
    lemma_number(expires);
    text_laws::law_alike_ignores_case_alone("+sip.instance"@, "reg-id"@);
    text_laws::law_alike_ignores_case_alone("+sip.instance"@, "expires"@);
    text_laws::law_alike_ignores_case_alone("reg-id"@, "expires"@);
    assert("+sip.instance"@.len() == 13 && "reg-id"@.len() == 6 && "expires"@.len() == 7);
    assert(register_response::parameter_from(parts, "+sip.instance"@, 1) == Some(instance));
    assert(register_response::parameter_from(parts, "reg-id"@, 2) == Some(r));
    assert(register_response::parameter_from(parts, "reg-id"@, 1) == Some(r));
    assert(register_response::parameter_from(parts, "expires"@, 3) == Some(e));
    assert(register_response::parameter_from(parts, "expires"@, 2) == Some(e));
    assert(register_response::parameter_from(parts, "expires"@, 1) == Some(e));
}

// --------------------------------------------------------------------------- what counts

proof fn lemma_own(contacts: Seq<Seq<char>>, instance: Seq<char>, reg_id: u32, i: int)
    requires
        0 <= i <= contacts.len(),
        forall|j: int|
            0 <= j < i ==> !register_response::is_binding(
                #[trigger] contacts[j],
                instance,
                reg_id,
            ),
    ensures
        match register_response::own_from(contacts, instance, reg_id, i) {
            Some(c) => exists|k: int|
                0 <= k < contacts.len() && (#[trigger] contacts[k]) == c
                    && register_response::is_binding(c, instance, reg_id) && forall|j: int|
                    0 <= j < k ==> !register_response::is_binding(
                        #[trigger] contacts[j],
                        instance,
                        reg_id,
                    ),
            None => forall|j: int|
                0 <= j < contacts.len() ==> !register_response::is_binding(
                    #[trigger] contacts[j],
                    instance,
                    reg_id,
                ),
        },
    decreases contacts.len() - i,
{
    if i < contacts.len() && !register_response::is_binding(contacts[i], instance, reg_id) {
        lemma_own(contacts, instance, reg_id, i + 1);
    }
}

/// A flow's own binding is found wherever it stands among those that the registrar lists, and
/// the lifetime that is reported is the one of that binding. Without it there is no lifetime:
/// that of another binding is never taken for it.
pub proof fn law_own_binding_is_found(frame: Seq<u8>, instance: Seq<char>, reg_id: u32, k: int)
    ensures
        ({
            let contacts = register_response::contacts_of(frame);
            let a = register_response::binding_artifacts_of(frame, instance, reg_id);
            &&& 0 <= k < contacts.len() && register_response::is_binding(
                contacts[k],
                instance,
                reg_id,
            ) && (forall|j: int|
                0 <= j < k ==> !register_response::is_binding(
                    #[trigger] contacts[j],
                    instance,
                    reg_id,
                )) ==> a.own_binding_found && a.expires_seconds
                == register_response::binding_expires(frame, contacts[k])
            &&& (forall|j: int|
                0 <= j < contacts.len() ==> !register_response::is_binding(
                    #[trigger] contacts[j],
                    instance,
                    reg_id,
                )) ==> !a.own_binding_found && a.expires_seconds is None
        }),
{
    let contacts = register_response::contacts_of(frame);
    lemma_own(contacts, instance, reg_id, 0);
    let own = register_response::own_from(contacts, instance, reg_id, 0);
    if 0 <= k < contacts.len() && register_response::is_binding(contacts[k], instance, reg_id) && (
    forall|j: int|
        0 <= j < k ==> !register_response::is_binding(#[trigger] contacts[j], instance, reg_id)) {
        if own is Some {
            let i = choose|i: int|
                0 <= i < contacts.len() && (#[trigger] contacts[i]) == own->0
                    && register_response::is_binding(own->0, instance, reg_id) && forall|j: int|
                    0 <= j < i ==> !register_response::is_binding(
                        #[trigger] contacts[j],
                        instance,
                        reg_id,
                    );
            assert(register_response::is_binding(contacts[i], instance, reg_id));
            assert(i == k);
        }
    }
}

/// An option counts where any of its headers lists it, in any case and with any white space
/// around it; Supported is looked for under its short name too.
pub proof fn law_listed_option_counts(
    frame: Seq<u8>,
    k: int,
    before: Seq<char>,
    option: Seq<char>,
    after: Seq<char>,
)
    requires
        option.len() > 0 && !text::white(option[0]) && !text::white(option.last()),
        text_laws::without(option, ','),
    ensures
        ({
            let values = sip_frame::header_values_of(frame, "Require"@);
            0 <= k < values.len() && values[k] == before + seq![','] + option + seq![','] + after
                ==> register_response::option_listed(frame, "Require"@, option)
        }),
        ({
            let values = sip_frame::header_values_of(frame, "Require"@);
            0 <= k < values.len() && values[k] == option ==> register_response::option_listed(
                frame,
                "Require"@,
                option,
            )
        }),
        ({
            let values = sip_frame::header_values_of(frame, "k"@);
            0 <= k < values.len() && values[k] == option ==> register_response::option_listed(
                frame,
                "Supported"@,
                option,
            )
        }),
        sip_frame::header_values_of(frame, "Require"@).len() == 0
            ==> !register_response::option_listed(frame, "Require"@, option),
{
    reveal_strlit("Require");
    reveal_strlit("Supported");
    text_laws::law_alike_ignores_case_alone("Require"@, "Supported"@);
    assert("Require"@.len() == 7 && "Supported"@.len() == 9);
    lemma_ends(option);
    text_laws::law_split_undoes_join(option, option, ',');
    assert(text::split(option, ',')[0] == option);
    let tail = option.push(',') + after;
    let value = before + seq![','] + option + seq![','] + after;
    assert(value =~= before.push(',') + tail);
    text_laws::law_parts_of_joined_texts(before, tail, ',');
    text_laws::law_split_undoes_join(option, after, ',');
    let j = text::split(before, ',').len() as int;
    assert(text::split(value, ',')[j] == option);
    assert(sip_frame::part_alike(value, ',', option));
    assert(sip_frame::part_alike(option, ',', option));
    let full = sip_frame::header_values_of(frame, "Supported"@);
    let short = sip_frame::header_values_of(frame, "k"@);
    if 0 <= k < short.len() && short[k] == option {
        assert((full + short)[full.len() + k] == option);
    }
}

/// The flow timer and, without a listed binding, the lifetime are the numbers of their headers.
pub proof fn law_times_are_read(frame: Seq<u8>, n: u32)
    ensures
        sip_frame::header_of(frame, "Flow-Timer"@) == Some(text::decimal(n as nat))
            ==> register_response::artifacts_of(frame).flow_timer_seconds == Some(n),
        sip_frame::header_of(frame, "Flow-Timer"@) is None ==> register_response::artifacts_of(
            frame,
        ).flow_timer_seconds is None,
        register_response::contacts_of(frame).len() == 0 && sip_frame::header_of(
            frame,
            "Expires"@,
        ) == Some(text::decimal(n as nat)) ==> register_response::artifacts_of(
            frame,
        ).expires_seconds == Some(n),
        register_response::artifacts_of(frame).outbound_required
            == register_response::option_listed(frame, "Require"@, "outbound"@),
{
    lemma_number(n);
}

/// Without a Path the registrar itself is the first hop, which then is trusted with outbound.
pub proof fn law_without_path_the_registrar_is_first(frame: Seq<u8>)
    ensures
        sip_frame::header_values_of(frame, "Path"@).len() == 0 ==> register_response::artifacts_of(
            frame,
        ).first_hop_outbound,
{
}

proof fn lemma_open(s: Seq<char>, i: int)
    requires
        0 <= i <= s.len(),
    ensures
        i < s.len() && s[i] == '<' ==> register_response::open_from(
            s,
            i,
            register_response::plain(),
        ) == i,
{
}

/// With a Path the hop that is named last counts: it has to carry the mark of outbound among
/// the parameters of its URI.
pub proof fn law_last_hop_has_to_support_outbound(frame: Seq<u8>, host: Seq<char>, more: Seq<char>)
    requires
        plain_text(host, ';'),
        plain_text(more, ';'),
        text_laws::without(host, ','),
        text_laws::without(more, ','),
        !text::alike(text::trim(text::before(more, '=')), "ob"@),
    ensures
        sip_frame::header_values_of(frame, "Path"@) == seq![
            seq!['<'] + (host + seq![';', 'o', 'b']) + seq!['>'],
        ] ==> register_response::artifacts_of(frame).first_hop_outbound,
        sip_frame::header_values_of(frame, "Path"@) == seq![
            seq!['<'] + (host + seq![';'] + more) + seq!['>'],
        ] ==> !register_response::artifacts_of(frame).first_hop_outbound,
{
    let good = host + seq![';', 'o', 'b'];
    let bad = host + seq![';'] + more;
    reveal_strlit("ob");
    let ob = seq!['o', 'b'];
    assert(ob =~= "ob"@);
    lemma_path(good);
    lemma_path(bad);
    assert(good =~= host.push(';') + ob);
    assert(bad =~= host.push(';') + more);
    text_laws::law_split_undoes_join(host, ob, ';');
    text_laws::law_split_undoes_join(ob, ob, ';');
    text_laws::law_split_undoes_join(host, more, ';');
    text_laws::law_split_undoes_join(more, more, ';');
    text_laws::law_cut_gives_both_sides(ob, ob, '=');
    lemma_ends(ob);
    assert(text::split(good, ';')[1] == ob);
    assert(text::split(bad, ';') =~= seq![host, more]);
    assert(text::alike(text::trim(text::before(text::split(good, ';')[1], '=')), "ob"@));
    let a = seq![seq!['<'] + good + seq!['>']];
    let b = seq![seq!['<'] + bad + seq!['>']];
    reveal_with_fuel(register_response::items_upto, 2);
    assert(register_response::items_of(a) =~= a);
    assert(register_response::items_of(b) =~= b);
}

proof fn lemma_path(uri: Seq<char>)
    requires
        forall|i: int|
            0 <= i < uri.len() ==> (#[trigger] uri[i]) != '"' && uri[i] != '<' && uri[i] != '>'
                && uri[i] != ',',
    ensures
        register_response::free_split(seq!['<'] + uri + seq!['>'], ',') == seq![
            seq!['<'] + uri + seq!['>'],
        ],
        register_response::brackets(seq!['<'] + uri + seq!['>']) == Some((0int, uri.len() as int + 1)),
        (seq!['<'] + uri + seq!['>']).subrange(1, uri.len() as int + 1) == uri,
{
    let s = seq!['<'] + uri + seq!['>'];
    let n = s.len() as int;
    let angle = Mode { quoted: false, escaped: false, angle: true };
    assert(s[0] == '<' && s[n - 1] == '>');
    assert forall|i: int| 1 <= i < n - 1 implies (#[trigger] s[i]) != '"' && s[i] != '<' && s[i]
        != '>' && s[i] != ',' by {
        assert(s[i] == uri[i - 1]);
    }
    lemma_over_angle(s, 1, n - 1);
    assert(register_response::next_mode(register_response::plain(), '<') == angle);
    assert(register_response::next_mode(angle, '>') == register_response::plain());
    assert(s.subrange(0, n) =~= s);
    let none = register_response::plain();
    assert(register_response::free_split_from(s, ',', 0, n, none) == seq![s]);
    assert(register_response::free_split_from(s, ',', 0, n - 1, angle)
        == register_response::free_split_from(s, ',', 0, n, none));
    assert(register_response::free_split_from(s, ',', 0, 0, none)
        == register_response::free_split_from(s, ',', 0, 1, angle));
    lemma_open(s, 0);
    let front = seq!['<'] + uri;
    assert(s =~= front.push('>') + Seq::<char>::empty());
    assert(text_laws::without(front, '>')) by {
        assert forall|i: int| 0 <= i < front.len() implies (#[trigger] front[i]) != '>' by {
            if i > 0 {
                assert(front[i] == uri[i - 1]);
            }
        }
    }
    text_laws::law_first_is_found(front, Seq::empty(), '>');
    assert(s.subrange(1, uri.len() as int + 1) =~= uri);
}

pub(crate) proof fn lemma_over_angle(s: Seq<char>, i: int, j: int)
    requires
        0 <= i <= j <= s.len(),
        forall|k: int| i <= k < j ==> (#[trigger] s[k]) != '"' && s[k] != '<' && s[k] != '>',
    ensures
        ({
            let angle = Mode { quoted: false, escaped: false, angle: true };
            register_response::free_split_from(s, ',', 0, i, angle)
                == register_response::free_split_from(s, ',', 0, j, angle)
        }),
    decreases j - i,
{
    let angle = Mode { quoted: false, escaped: false, angle: true };
    if i < j {
        assert(register_response::next_mode(angle, s[i]) == angle);
        lemma_over_angle(s, i + 1, j);
    }
}

} // verus!
