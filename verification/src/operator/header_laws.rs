//! What the headers of a call say.

use crate::context::ImsRoute;
use crate::operator::headers;
use crate::sip_frame;
use crate::sip_laws;
use crate::supplementary;
use crate::text;
use crate::text_laws;
use vstd::prelude::*;

verus! {

/// A token: something, and no white space in it.
pub open spec fn token(s: Seq<char>) -> bool {
    s.len() > 0 && forall|i: int| 0 <= i < s.len() ==> !text::white(#[trigger] s[i])
}

proof fn lemma_token(s: Seq<char>)
    requires
        s.len() == 0 || token(s),
    ensures
        text::trim(s) == s,
{
    let none = Seq::<char>::empty();
    text_laws::law_trim_takes_the_ends(none, s, none);
    assert(none + s + none =~= s);
}

proof fn lemma_number_token(n: nat)
    ensures
        token(text::decimal(n)),
{
    text::law_decimal_round_trip(n);
    let s = text::decimal(n);
    assert forall|i: int| 0 <= i < s.len() implies !text::white(#[trigger] s[i]) by {
        assert(text::digit(s[i]));
    }
}

proof fn lemma_two_words(a: Seq<char>, b: Seq<char>)
    requires
        token(a),
        token(b),
    ensures
        text::words(a + seq![' '] + b) == seq![a, b],
        text::words(a) == seq![a],
{
    let none = Seq::<char>::empty();
    text_laws::law_words_are_parted_by_white_space(none, a, ' ', b);
    text_laws::law_words_are_parted_by_white_space(none, b, ' ', b);
    assert(none + a.push(' ') + b =~= a + seq![' '] + b);
    assert(none + a =~= a);
    assert(none + b =~= b);
    assert(text::words(a + seq![' '] + b) =~= seq![a, b]);
}

/// The number of a request is read back from its CSeq where the method is the one that is
/// asked for, in any case, and is refused where it is another one or missing.
pub proof fn law_sequence_number_is_read(n: u32, method: Seq<char>, expected: Seq<char>)
    requires
        token(method),
    ensures
        ({
            let value = text::decimal(n as nat) + seq![' '] + method;
            let r = headers::cseq_in(Some(value), expected);
            &&& text::alike(method, expected) ==> r == Ok::<_, Seq<char>>(n)
            &&& !text::alike(method, expected) ==> r is Err
            &&& headers::method_in(Some(value)) == method
        }),
        headers::cseq_in(None, expected) is Err,
        headers::cseq_in(Some(text::decimal(n as nat)), expected) is Err,
        headers::cseq_in(Some(method), expected) is Err,
{
    let number = text::decimal(n as nat);
    lemma_number_token(n as nat);
    lemma_two_words(number, method);
    lemma_two_words(method, method);
    text_laws::law_numbers_are_read_as_written(n as nat, u32::MAX as nat, number, 0);
}

/// A parameter behind a value, with others before and after it.
pub open spec fn with_parameter(
    value: Seq<char>,
    name: Seq<char>,
    content: Seq<char>,
    more: Seq<char>,
) -> Seq<char> {
    value + seq![';'] + name + seq!['='] + content + seq![';'] + more
}

/// The branch of a Via is the value of its branch parameter, in front of all others.
pub proof fn law_branch_is_read(sender: Seq<char>, branch: Seq<char>, more: Seq<char>)
    requires
        text_laws::without(sender, ';'),
        !text::starts(text::trim(sender), "branch="@),
        token(branch),
        text_laws::without(branch, ';'),
    ensures
        headers::branch_in(with_parameter(sender, "branch"@, branch, more)) == Some(branch),
        headers::branch_in(sender) is None,
{
    reveal_strlit("branch");
    reveal_strlit("branch=");
    let v = with_parameter(sender, "branch"@, branch, more);
    let part = "branch="@ + branch;
    assert("branch="@ =~= "branch"@ + seq!['=']);
    let tail = part.push(';') + more;
    assert(v =~= sender.push(';') + tail);
    assert(text_laws::without(part, ';')) by {
        assert forall|i: int| 0 <= i < part.len() implies (#[trigger] part[i]) != ';' by {
            if i >= 7 {
                assert(part[i] == branch[i - 7]);
            }
        }
    }
    text_laws::law_split_undoes_join(sender, tail, ';');
    text_laws::law_split_undoes_join(part, more, ';');
    let parts = text::split(v, ';');
    assert(parts[0] == sender && parts[1] == part);
    assert(token(part)) by {
        assert forall|i: int| 0 <= i < part.len() implies !text::white(#[trigger] part[i]) by {
            if i >= 7 {
                assert(part[i] == branch[i - 7]);
            }
        }
    }
    lemma_token(part);
    text_laws::law_prefix_can_be_completed("branch="@, branch, part);
    assert(headers::prefixed_from(parts, "branch="@, 1) == Some(branch));
    assert(text::split(sender, ';')[0] == sender);
    assert(headers::prefixed_from(text::split(sender, ';'), "branch="@, 1) is None);
}

/// The tag of an address is the value of its tag parameter, in any case and without quotes.
pub proof fn law_tag_is_read(address: Seq<char>, name: Seq<char>, tag: Seq<char>, more: Seq<char>)
    requires
        text_laws::without(address, ';'),
        name == "tag"@ || name == "TAG"@ || name == "Tag"@,
        token(tag),
        text_laws::without(tag, ';'),
        text_laws::without(tag, '"'),
    ensures
        headers::tag_in(with_parameter(address, name, tag, more)) == Some(tag),
        sip_frame::parameter_of(with_parameter(address, name, tag, more), "tag"@) == Some(tag),
        headers::tag_in(address) is None,
        sip_frame::parameter_of(address, "tag"@) is None,
{
    reveal_strlit("tag");
    reveal_strlit("TAG");
    reveal_strlit("Tag");
    text_laws::law_alike_ignores_case_alone(name, "tag"@);
    let v = with_parameter(address, name, tag, more);
    let part = name.push('=') + tag;
    let tail = part.push(';') + more;
    assert(v =~= address.push(';') + tail);
    assert forall|i: int| 0 <= i < part.len() implies (#[trigger] part[i]) != ';' && !text::white(
        part[i],
    ) by {
        if i >= 4 {
            assert(part[i] == tag[i - 4]);
        }
    }
    text_laws::law_split_undoes_join(address, tail, ';');
    text_laws::law_split_undoes_join(part, more, ';');
    let parts = text::split(v, ';');
    assert(parts[1] == part);
    lemma_token(part);
    lemma_token(name);
    lemma_token(tag);
    text_laws::law_cut_gives_both_sides(name, tag, '=');
    lemma_no_quotes(tag);
    assert(headers::tag_value(part) == Some(tag));
    assert(headers::tag_from(parts, 1) == Some(tag));
    assert(sip_frame::parameter_from(parts, "tag"@, 1) == Some(tag));
    assert(headers::tag_from(text::split(address, ';'), 1) is None);
}

proof fn lemma_no_quotes(s: Seq<char>)
    requires
        s.len() > 0,
        text_laws::without(s, '"'),
    ensures
        text::trim_char(s, '"') == s,
{
    assert(text::skip_char(s, '"', 0) == 0);
    assert(text::back_char(s, '"', 0, s.len() as int) == s.len());
    assert(s.subrange(0, s.len() as int) =~= s);
}

// --------------------------------------------------------------------------- numbers

pub open spec fn digits(s: Seq<char>) -> bool {
    forall|i: int| 0 <= i < s.len() ==> '0' <= (#[trigger] s[i]) <= '9'
}

/// A number that can be dialled: three to twenty digits.
pub open spec fn number(s: Seq<char>) -> bool {
    3 <= s.len() <= 20 && digits(s)
}

proof fn lemma_filler_prefix(a: Seq<char>, b: Seq<char>, n: int)
    requires
        0 <= n <= a.len(),
        n <= b.len(),
        forall|i: int| 0 <= i < n ==> a[i] == b[i],
    ensures
        headers::without_filler(a, n) == headers::without_filler(b, n),
    decreases n,
{
    if n > 0 {
        lemma_filler_prefix(a, b, n - 1);
    }
}

/// Blanks, hyphens and brackets between the digits of a number do not count, and every other
/// character does, in its order.
pub proof fn law_filler_is_dropped(s: Seq<char>, c: char)
    ensures
        ({
            let n = s.len() as int;
            let more = headers::without_filler(s.push(c), n + 1);
            &&& c == ' ' || c == '-' || c == '(' || c == ')' || c == '\t' ==> more
                == headers::without_filler(s, n)
            &&& ('0' <= c <= '9' || c == '+' || 'a' <= c <= 'z' || c == '*' || c == '#') ==> more
                == headers::without_filler(s, n).push(c)
        }),
        headers::without_filler(s, 0).len() == 0,
{
    let t = s.push(c);
    lemma_filler_prefix(t, s, s.len() as int);
}

proof fn lemma_plain(s: Seq<char>, n: int)
    requires
        0 <= n <= s.len(),
        forall|i: int| 0 <= i < n ==> !headers::filler(#[trigger] s[i]),
    ensures
        headers::without_filler(s, n) == s.subrange(0, n),
    decreases n,
{
    if n > 0 {
        lemma_plain(s, n - 1);
        assert(s.subrange(0, n) =~= s.subrange(0, n - 1).push(s[n - 1]));
    } else {
        assert(s.subrange(0, 0) =~= seq![]);
    }
}

proof fn lemma_user(user: Seq<char>, bare: Seq<char>)
    requires
        user.len() > 0,
        forall|i: int| 0 <= i < user.len() ==> '0' <= (#[trigger] user[i]) <= '9' || user[i] == '+',
        text::before(text::before(bare, '@'), ';') == user,
    ensures
        ({
            let u = text::before(text::before(bare, '@'), ';');
            headers::without_filler(u, u.len() as int) == user
        }),
{
    lemma_plain(user, user.len() as int);
    assert(user.subrange(0, user.len() as int) =~= user);
}

proof fn lemma_unprefixed(user: Seq<char>)
    requires
        user.len() > 0,
        forall|i: int| 0 <= i < user.len() ==> '0' <= (#[trigger] user[i]) <= '9' || user[i] == '+',
    ensures
        text::without_prefix(user, "sip:"@) is None,
        text::without_prefix(user, "tel:"@) is None,
        text::before(text::before(user, '@'), ';') == user,
        token(user),
        text_laws::without(user, '@'),
        text_laws::without(user, ';'),
{
    reveal_strlit("sip:");
    reveal_strlit("tel:");
    if text::starts(user, "sip:"@) {
        assert(user.subrange(0, 4)[0] == 's');
        assert(user[0] == 's');
    }
    if text::starts(user, "tel:"@) {
        assert(user.subrange(0, 4)[0] == 't');
        assert(user[0] == 't');
    }
    text_laws::law_cut_gives_both_sides(user, user, '@');
    text_laws::law_cut_gives_both_sides(user, user, ';');
}

proof fn lemma_called(callee: Seq<char>, bare: Seq<char>, user: Seq<char>)
    requires
        user.len() > 0,
        forall|i: int| 0 <= i < user.len() ==> '0' <= (#[trigger] user[i]) <= '9' || user[i] == '+',
        text::trim(callee) == "tel:"@ + bare || text::trim(callee) == "sip:"@ + bare || (
        text::trim(callee) == bare && bare == user),
        text::before(text::before(bare, '@'), ';') == user,
    ensures
        headers::callee_user(callee) == user,
{
    let v = text::trim(callee);
    lemma_user(user, bare);
    lemma_unprefixed(user);
    reveal_strlit("sip:");
    reveal_strlit("tel:");
    text_laws::law_prefix_can_be_completed("sip:"@, bare, v);
    text_laws::law_prefix_can_be_completed("tel:"@, bare, v);
    if v == "tel:"@ + bare {
        if text::starts(v, "sip:"@) {
            assert(v.subrange(0, 4)[0] == 's');
            assert(v[0] == 't');
        }
    }
}

/// A number is called at the line's home domain, whether it is given bare, as a telephone URI
/// or as a SIP URI of any host, with or without a plus sign.
pub proof fn law_number_is_called_at_home(plus: bool, n: Seq<char>, host: Seq<char>, home: Seq<char>)
    requires
        number(n),
        token(host),
    ensures
        ({
            let user = if plus {
                seq!['+'] + n
            } else {
                n
            };
            let target = Some("sip:"@ + user + "@"@ + home + ";user=phone"@);
            &&& headers::callee_uri(user, home) == target
            &&& headers::callee_uri("tel:"@ + user, home) == target
            &&& headers::callee_uri("tel:"@ + user + seq![';'] + host, home) == target
            &&& headers::callee_uri("sip:"@ + user + seq!['@'] + host, home) == target
        }),
{
    let user = if plus {
        seq!['+'] + n
    } else {
        n
    };
    assert forall|i: int| 0 <= i < user.len() implies '0' <= (#[trigger] user[i]) <= '9' || user[i]
        == '+' by {
        if plus && i > 0 {
            assert(user[i] == n[i - 1]);
        }
    }
    assert(text::unsigned_digits(user) =~= n) by {
        if !plus {
            assert(user[0] == n[0]);
        }
    }
    assert(text::all_digits(n));
    lemma_unprefixed(user);
    lemma_token(user);
    reveal_strlit("sip:");
    reveal_strlit("tel:");
    lemma_called(user, user, user);
    let one = "tel:"@ + user;
    lemma_trimmed(one);
    lemma_called(one, user, user);
    let bare = user.push(';') + host;
    let two = "tel:"@ + user + seq![';'] + host;
    assert(two =~= "tel:"@ + bare);
    lemma_trimmed(two);
    lemma_parameters(user, host);
    lemma_called(two, bare, user);
    let at_host = user.push('@') + host;
    let three = "sip:"@ + user + seq!['@'] + host;
    assert(three =~= "sip:"@ + at_host);
    lemma_trimmed(three);
    text_laws::law_cut_gives_both_sides(user, host, '@');
    lemma_called(three, at_host, user);
}

proof fn lemma_trimmed(s: Seq<char>)
    requires
        s.len() > 0 && !text::white(s[0]) && !text::white(s.last()),
    ensures
        text::trim(s) == s,
{
    let none = Seq::<char>::empty();
    text_laws::law_trim_takes_the_ends(none, s, none);
    assert(none + s + none =~= s);
}

proof fn lemma_parameters(user: Seq<char>, host: Seq<char>)
    requires
        text_laws::without(user, '@'),
        text_laws::without(user, ';'),
    ensures
        text::before(text::before(user.push(';') + host, '@'), ';') == user,
{
    let bare = user.push(';') + host;
    text::lemma_find(bare, '@', 0);
    let k = text::find_from(bare, '@', 0);
    assert(k > user.len()) by {
        if k < bare.len() && k <= user.len() {
            if k < user.len() {
                assert(bare[k] == user[k]);
            }
        }
    }
    let cut = bare.subrange(0, k);
    let rest = bare.subrange(user.len() as int + 1, k);
    assert(cut =~= user.push(';') + rest);
    text_laws::law_cut_gives_both_sides(user, rest, ';');
}

/// What is no number is not called: with a letter in it, with fewer than three digits or with
/// more than twenty.
pub proof fn law_other_names_are_not_called(callee: Seq<char>, home: Seq<char>, i: int)
    requires
        ({
            let user = headers::callee_user(callee);
            ||| user.len() < 3
            ||| user.len() > 21
            ||| 0 < i < user.len() && !('0' <= user[i] <= '9')
            ||| i == 0 && user.len() > 0 && user[0] != '+' && !('0' <= user[0] <= '9')
        }),
    ensures
        headers::callee_uri(callee, home) is None,
{
    let user = headers::callee_user(callee);
    let d = text::unsigned_digits(user);
    if 0 < i < user.len() && !('0' <= user[i] <= '9') {
        if user[0] == '+' {
            assert(d[i - 1] == user[i]);
            assert(!text::digit(d[i - 1]));
        } else {
            assert(!text::digit(d[i]));
        }
    } else if i == 0 && user.len() > 0 && user[0] != '+' && !('0' <= user[0] <= '9') {
        assert(!text::digit(d[0]));
    }
}

/// The trunk is told of every caller by a SIP URI where it was a telephone or secure SIP one.
pub proof fn law_caller_is_told_as_sip(rest: Seq<char>, other: Seq<char>)
    requires
        !text::starts(other, "tel:"@),
        !text::starts(other, "sips:"@),
    ensures
        headers::caller_uri("tel:"@ + rest) == "sip:"@ + rest + "@simadmin"@,
        headers::caller_uri("sips:"@ + rest) == "sip:"@ + rest,
        headers::caller_uri(other) == other,
{
    reveal_strlit("tel:");
    reveal_strlit("sips:");
    text_laws::law_prefix_can_be_completed("tel:"@, rest, "tel:"@ + rest);
    text_laws::law_prefix_can_be_completed("sips:"@, rest, "sips:"@ + rest);
    let s = "sips:"@ + rest;
    if text::starts(s, "tel:"@) {
        assert(s.subrange(0, 4)[0] == 't');
        assert(s[0] == 's');
    }
}

/// The contact of a call leads back to the local address of its route, and the proxy has no
/// part in it.
pub proof fn law_contact_is_the_local_address(user: Seq<char>, route: ImsRoute, other: ImsRoute)
    requires
        sip_laws::plain_user(user),
        other.local_addr == route.local_addr,
        other.transport == route.transport,
    ensures
        sip_laws::uri_address(headers::contact_uri(user, route)) == Some(route.local_addr),
        headers::contact_uri(user, other) == headers::contact_uri(user, route),
        text::starts(headers::contact_uri(user, route), "sip:"@ + user + seq!['@']),
        seq!['<'] + headers::contact_uri(user, route) + seq!['>'] == supplementary::contact_form(
            user,
            route,
        ),
{
    sip_laws::lemma_contact(user, route);
    let uri = headers::contact_uri(user, route);
    reveal_strlit("<sip:");
    reveal_strlit("sip:");
    reveal_strlit("@");
    reveal_strlit(":");
    assert("<sip:"@ =~= seq!['<'] + "sip:"@);
    assert("@"@ =~= seq!['@']);
    assert(":"@ =~= seq![':']);
    assert(seq!['<'] + uri + seq!['>'] =~= supplementary::contact_form(user, route));
    sip_laws::lemma_contact_is_bracketed(user, route, uri);
}

} // verus!
