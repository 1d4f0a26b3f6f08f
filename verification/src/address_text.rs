//! Addresses and their texts.

use crate::ip_text;
use crate::net;
use crate::net::{IpAddr, SocketAddr};
use crate::text;
use crate::text_laws;
use vstd::arithmetic::div_mod::lemma_div_denominator;
use vstd::prelude::*;

verus! {

// --------------------------------------------------------------------------- dotted quads

proof fn lemma_octet(n: nat)
    requires
        n < 256,
    ensures
        ip_text::octet(text::decimal(n)) == Some(n),
        1 <= text::decimal(n).len() <= 3,
{
    text::law_decimal_round_trip(n);
    reveal_with_fuel(text::decimal, 4);
    if n >= 10 {
        let lead = if n >= 100 {
            n / 100
        } else {
            n / 10
        };
        assert(n >= 100 ==> n / 10 / 10 == n / 100);
        assert(0 < lead < 10);
        assert(text::decimal(n)[0] == text::digit_char(lead));
        assert(text::digit_char(lead) as u32 == lead + 48);
    }
}

pub(crate) proof fn lemma_digits_without(n: nat, c: char)
    requires
        !('0' <= c <= '9'),
    ensures
        text_laws::without(text::decimal(n), c),
{
    text::law_decimal_round_trip(n);
    let s = text::decimal(n);
    assert forall|i: int| 0 <= i < s.len() implies (#[trigger] s[i]) != c by {
        assert(text::digit(s[i]));
    }
}

/// The text of a dotted quad.
pub open spec fn dotted(a: u8, b: u8, c: u8, d: u8) -> Seq<char> {
    text::decimal(a as nat).push('.') + text::decimal(b as nat).push('.') + text::decimal(
        c as nat,
    ).push('.') + text::decimal(d as nat)
}

/// The number of a dotted quad: the first octet counts most.
pub open spec fn quad(a: u8, b: u8, c: u8, d: u8) -> u32 {
    (a * 0x1000000 + b * 0x10000 + c * 0x100 + d) as u32
}

proof fn lemma_dotted_parts(a: u8, b: u8, c: u8, d: u8)
    ensures
        text::split(dotted(a, b, c, d), '.') == seq![
            text::decimal(a as nat),
            text::decimal(b as nat),
            text::decimal(c as nat),
            text::decimal(d as nat),
        ],
{
    let w = text::decimal(a as nat);
    let x = text::decimal(b as nat);
    let y = text::decimal(c as nat);
    let z = text::decimal(d as nat);
    lemma_digits_without(a as nat, '.');
    lemma_digits_without(b as nat, '.');
    lemma_digits_without(c as nat, '.');
    lemma_digits_without(d as nat, '.');
    text_laws::law_split_undoes_join(z, z, '.');
    text_laws::law_split_undoes_join(y, z, '.');
    text_laws::law_split_undoes_join(x, y.push('.') + z, '.');
    text_laws::law_split_undoes_join(w, x.push('.') + (y.push('.') + z), '.');
    assert(dotted(a, b, c, d) =~= w.push('.') + (x.push('.') + (y.push('.') + z)));
    assert(text::split(dotted(a, b, c, d), '.') =~= seq![w, x, y, z]);
}

proof fn lemma_quad_digits(a: u8, b: u8, c: u8, d: u8)
    ensures
        ({
            let n = quad(a, b, c, d) as nat;
            &&& n == ((a as nat * 256 + b as nat) * 256 + c as nat) * 256 + d as nat
            &&& n / 0x1000000 == a
            &&& n / 0x10000 % 256 == b
            &&& n / 256 % 256 == c
            &&& n % 256 == d
        }),
{
    let n = a * 0x1000000 + b * 0x10000 + c * 0x100 + d;
    assert(n <= u32::MAX);
    assert(n / 0x1000000 == a);
    assert(n / 0x10000 == a * 256 + b);
    assert(n / 256 == a * 0x10000 + b * 256 + c);
}

/// A dotted quad writes an address octet by octet, the first one in front.
#[verifier::rlimit(50)]
pub proof fn law_dotted_quad_is_read_and_written(a: u8, b: u8, c: u8, d: u8)
    ensures
        ip_text::ip_text(dotted(a, b, c, d)) == Some(IpAddr::V4(quad(a, b, c, d))),
        ip_text::ip_form(IpAddr::V4(quad(a, b, c, d))) == dotted(a, b, c, d),
{
    lemma_quad_digits(a, b, c, d);
    let s = dotted(a, b, c, d);
    assert(ip_text::v4_text(s) == Some(quad(a, b, c, d))) by {
        lemma_dotted_parts(a, b, c, d);
        lemma_octet(a as nat);
        lemma_octet(b as nat);
        lemma_octet(c as nat);
        lemma_octet(d as nat);
    }
}

proof fn lemma_quad_of(n: u32) -> (q: (u8, u8, u8, u8))
    ensures
        quad(q.0, q.1, q.2, q.3) == n,
{
    let a = (n / 0x1000000) as u8;
    let b = (n / 0x10000 % 256) as u8;
    let c = (n / 256 % 256) as u8;
    let d = (n % 256) as u8;
    assert(a == n / 0x1000000);
    (a, b, c, d)
}

proof fn lemma_dotted_chars(a: u8, b: u8, c: u8, d: u8, x: char)
    requires
        !('0' <= x <= '9'),
        x != '.',
    ensures
        text_laws::without(dotted(a, b, c, d), x),
{
    lemma_digits_without(a as nat, x);
    lemma_digits_without(b as nat, x);
    lemma_digits_without(c as nat, x);
    lemma_digits_without(d as nat, x);
    let one = text::decimal(a as nat).push('.');
    let two = text::decimal(b as nat).push('.');
    let three = text::decimal(c as nat).push('.');
    lemma_sum_without(one, two, x);
    lemma_sum_without(one + two, three, x);
    lemma_sum_without(one + two + three, text::decimal(d as nat), x);
}

proof fn lemma_v4(n: u32)
    ensures
        ip_text::v4_text(ip_text::v4_form(n as nat)) == Some(n),
        ip_text::v4_form(n as nat).len() >= 7,
        forall|x: char|
            !('0' <= x <= '9') && x != '.' ==> #[trigger] text_laws::without(
                ip_text::v4_form(n as nat),
                x,
            ),
        ip_text::v4_form(n as nat)[0] != '[',
{
    let (a, b, c, d) = lemma_quad_of(n);
    law_dotted_quad_is_read_and_written(a, b, c, d);
    let s = dotted(a, b, c, d);
    assert(ip_text::v4_form(n as nat) == s);
    assert(ip_text::v4_text(s) == Some(n)) by {
        lemma_dotted_parts(a, b, c, d);
        lemma_octet(a as nat);
        lemma_octet(b as nat);
        lemma_octet(c as nat);
        lemma_octet(d as nat);
    }
    assert(s.len() >= 7) by {
        lemma_octet(a as nat);
        lemma_octet(b as nat);
        lemma_octet(c as nat);
        lemma_octet(d as nat);
    }
    assert forall|x: char| !('0' <= x <= '9') && x != '.' implies #[trigger] text_laws::without(
        s,
        x,
    ) by {
        lemma_dotted_chars(a, b, c, d, x);
    }
    assert(text_laws::without(s, '['));
}

pub(crate) proof fn lemma_sum_without(a: Seq<char>, b: Seq<char>, c: char)
    requires
        text_laws::without(a, c),
        text_laws::without(b, c),
    ensures
        text_laws::without(a + b, c),
{
    let s = a + b;
    assert forall|i: int| 0 <= i < s.len() implies (#[trigger] s[i]) != c by {
        if i < a.len() {
            assert(s[i] == a[i]);
        } else {
            assert(s[i] == b[i - a.len()]);
        }
    }
}

/// Four octets write the address whose dotted quad they are.
pub proof fn law_octets_make_the_address(s: Seq<u8>)
    requires
        s.len() == 4,
    ensures
        ip_text::ip_form(net::v4_of(s)) == dotted(s[0], s[1], s[2], s[3]),
        ip_text::ip_text(dotted(s[0], s[1], s[2], s[3])) == Some(net::v4_of(s)),
{
    law_dotted_quad_is_read_and_written(s[0], s[1], s[2], s[3]);
    lemma_be(s, 1);
    lemma_be(s, 2);
    lemma_be(s, 3);
    lemma_be(s, 4);
    assert(s.take(0) =~= Seq::empty());
    assert(s.take(4) =~= s);
}

proof fn lemma_be(s: Seq<u8>, k: int)
    requires
        0 < k <= s.len(),
    ensures
        net::be_value(s.take(k)) == 256 * net::be_value(s.take(k - 1)) + s[k - 1] as nat,
{
    assert(s.take(k).drop_last() =~= s.take(k - 1));
}

/// Sixteen octets write the address whose groups are their words, the first one in front.
pub proof fn law_words_make_the_address(s: Seq<u8>)
    requires
        s.len() == 16,
    ensures
        ip_text::groups_value(Seq::new(8, |i: int| net::word_at(s, 2 * i) as nat)) == net::be_value(
            s,
        ),
{
    let g = Seq::new(8, |i: int| net::word_at(s, 2 * i) as nat);
    lemma_words(s, g, 8);
    assert(g.take(8) =~= g);
    assert(s.take(16) =~= s);
}

proof fn lemma_words(s: Seq<u8>, g: Seq<nat>, k: int)
    requires
        s.len() == 16,
        g == Seq::new(8, |i: int| net::word_at(s, 2 * i) as nat),
        0 <= k <= 8,
    ensures
        ip_text::groups_value(g.take(k)) == net::be_value(s.take(2 * k)),
    decreases k,
{
    if k > 0 {
        lemma_words(s, g, k - 1);
        lemma_take(g, k);
        lemma_be(s, 2 * k - 1);
        lemma_be(s, 2 * k);
    } else {
        assert(g.take(0) =~= Seq::empty());
        assert(s.take(0) =~= Seq::empty());
    }
}

// --------------------------------------------------------------------------- groups

pub open spec fn hex_text(s: Seq<char>) -> bool {
    forall|i: int| 0 <= i < s.len() ==> '0' <= (#[trigger] s[i]) <= '9' || 'a' <= s[i] <= 'f'
}

proof fn lemma_hex(n: nat)
    ensures
        ip_text::hex_value(ip_text::hex(n)) == Some(n),
        ip_text::hex(n).len() >= 1,
        n < 16 ==> ip_text::hex(n).len() == 1,
        n < 256 ==> ip_text::hex(n).len() <= 2,
        n < 4096 ==> ip_text::hex(n).len() <= 3,
        n < 65536 ==> ip_text::hex(n).len() <= 4,
        hex_text(ip_text::hex(n)),
    decreases n,
{
    let d = n % 16;
    let c = ip_text::hex_char(d);
    assert(c as u32 == (if d < 10 {
        d + 48
    } else {
        d + 87
    }));
    assert(ip_text::hex_digit(c) == Some(d));
    let s = ip_text::hex(n);
    if n >= 16 {
        lemma_hex(n / 16);
        assert(s.drop_last() =~= ip_text::hex(n / 16));
        assert(s.last() == c);
        assert(16 * (n / 16) + d == n);
    } else {
        assert(s.drop_last() =~= Seq::empty());
        assert(s.last() == c);
        assert(ip_text::hex_value(Seq::empty()) == Some(0nat));
    }
}

proof fn lemma_hex_without(s: Seq<char>, c: char)
    requires
        hex_text(s),
        !('0' <= c <= '9') && !('a' <= c <= 'f'),
    ensures
        text_laws::without(s, c),
{
}

pub open spec fn small(g: Seq<nat>) -> bool {
    forall|i: int| 0 <= i < g.len() ==> (#[trigger] g[i]) < 65536
}

pub open spec fn hexes(g: Seq<nat>) -> Seq<Seq<char>> {
    Seq::new(g.len(), |i: int| ip_text::hex(g[i]))
}

proof fn lemma_colons_front(g: Seq<nat>)
    requires
        g.len() > 1,
    ensures
        ip_text::colon_form(g) == ip_text::hex(g[0]).push(':') + ip_text::colon_form(g.drop_first()),
    decreases g.len(),
{
    let h = g.drop_last();
    if h.len() > 1 {
        lemma_colons_front(h);
        let t = g.drop_first();
        assert(t.drop_last() =~= h.drop_first());
        assert(t.last() == g.last());
        let first = ip_text::hex(g[0]).push(':');
        let inner = ip_text::colon_form(h.drop_first());
        assert(h[0] == g[0]);
        assert(ip_text::colon_form(t) == inner.push(':') + ip_text::hex(g.last()));
        assert((first + inner).push(':') + ip_text::hex(g.last()) =~= first + (inner.push(':')
            + ip_text::hex(g.last())));
    } else {
        let t = g.drop_first();
        assert(t.len() == 1 && t[0] == g.last());
        assert(h[0] == g[0]);
        assert(ip_text::colon_form(h) == ip_text::hex(g[0]));
    }
}

proof fn lemma_colons(g: Seq<nat>)
    requires
        g.len() > 0,
    ensures
        text::split(ip_text::colon_form(g), ':') == hexes(g),
        ip_text::colon_form(g).len() > 0,
        ip_text::colon_form(g)[0] != ':',
        ip_text::colon_form(g).last() != ':',
        forall|i: int|
            0 <= i < ip_text::colon_form(g).len() - 1 ==> !((#[trigger] ip_text::colon_form(g)[i])
                == ':' && ip_text::colon_form(g)[i + 1] == ':'),
        forall|i: int|
            0 <= i < ip_text::colon_form(g).len() ==> (#[trigger] ip_text::colon_form(g)[i]) == ':'
                || '0' <= ip_text::colon_form(g)[i] <= '9' || 'a' <= ip_text::colon_form(g)[i]
                <= 'f',
    decreases g.len(),
{
    let s = ip_text::colon_form(g);
    lemma_hex(g[0]);
    let h = ip_text::hex(g[0]);
    lemma_hex_without(h, ':');
    if g.len() == 1 {
        text_laws::law_split_undoes_join(h, h, ':');
        assert(hexes(g) =~= seq![h]);
    } else {
        lemma_colons_front(g);
        let rest = g.drop_first();
        lemma_colons(rest);
        let t = ip_text::colon_form(rest);
        text_laws::law_split_undoes_join(h, t, ':');
        assert(hexes(g) =~= seq![h] + hexes(rest));
        let n = h.len() as int;
        assert(s == h.push(':') + t);
        assert(s[0] == h[0]);
        assert(s.last() == t.last());
        assert forall|i: int| 0 <= i < s.len() - 1 implies !((#[trigger] s[i]) == ':' && s[i + 1]
            == ':') by {
            if i < n {
                assert(s[i] == h[i]);
            } else if i == n {
                assert(s[i + 1] == t[0]);
            } else {
                assert(s[i] == t[i - n - 1]);
                assert(s[i + 1] == t[i - n - 1 + 1]);
            }
        }
        assert forall|i: int| 0 <= i < s.len() implies (#[trigger] s[i]) == ':' || '0' <= s[i]
            <= '9' || 'a' <= s[i] <= 'f' by {
            if i < n {
                assert(s[i] == h[i]);
            } else if i > n {
                assert(s[i] == t[i - n - 1]);
            }
        }
    }
}

proof fn lemma_groups_upto(g: Seq<nat>, dotted: bool, n: int)
    requires
        0 <= n <= g.len(),
        small(g),
    ensures
        ip_text::groups_upto(hexes(g), dotted, n) == Some(g.subrange(0, n)),
    decreases n,
{
    if n > 0 {
        lemma_groups_upto(g, dotted, n - 1);
        lemma_hex(g[n - 1]);
        assert(g.subrange(0, n - 1).push(g[n - 1]) =~= g.subrange(0, n));
    } else {
        assert(g.subrange(0, 0) =~= Seq::empty());
    }
}

proof fn lemma_groups(g: Seq<nat>, dotted: bool)
    requires
        small(g),
    ensures
        ip_text::groups(ip_text::colon_form(g), dotted) == Some(g),
{
    if g.len() > 0 {
        lemma_colons(g);
        lemma_groups_upto(g, dotted, g.len() as int);
        assert(g.subrange(0, g.len() as int) =~= g);
    } else {
        assert(g =~= Seq::empty());
    }
}

/// The groups of an address are its 16-bit digits.
proof fn lemma_parts(n: nat)
    requires
        n <= u128::MAX,
    ensures
        ip_text::groups_value(ip_text::v6_parts(n)) == n,
        small(ip_text::v6_parts(n)),
        ip_text::v6_parts(n).len() == 8,
{
    let g = ip_text::v6_parts(n);
    let i = n as int;
    lemma_div_denominator(i, 0x10000, 0x10000);
    lemma_div_denominator(i, 0x1_0000_0000, 0x10000);
    lemma_div_denominator(i, 0x1_0000_0000_0000, 0x10000);
    lemma_div_denominator(i, 0x1_0000_0000_0000_0000, 0x10000);
    lemma_div_denominator(i, 0x1_0000_0000_0000_0000_0000, 0x10000);
    lemma_div_denominator(i, 0x1_0000_0000_0000_0000_0000_0000, 0x10000);
    lemma_take(g, 1);
    lemma_take(g, 2);
    lemma_take(g, 3);
    lemma_take(g, 4);
    lemma_take(g, 5);
    lemma_take(g, 6);
    lemma_take(g, 7);
    lemma_take(g, 8);
    assert(g.take(0) =~= Seq::empty());
    assert(g.take(8) =~= g);
}

proof fn lemma_take(g: Seq<nat>, k: int)
    requires
        0 < k <= g.len(),
    ensures
        ip_text::groups_value(g.take(k)) == 0x10000 * ip_text::groups_value(g.take(k - 1)) + g[k
            - 1],
{
    assert(g.take(k).drop_last() =~= g.take(k - 1));
}

/// The run that a text leaves out is the first among the longest runs of zeros.
proof fn lemma_run(g: Seq<nat>, i: int, run: int, start: int, len: int)
    requires
        0 <= i <= g.len(),
        0 <= run <= i,
        forall|j: int| i - run <= j < i ==> (#[trigger] g[j]) == 0,
        run < i ==> g[i - run - 1] != 0,
        0 <= start,
        0 <= len,
        start + len <= i,
        run <= len,
        forall|j: int| start <= j < start + len ==> (#[trigger] g[j]) == 0,
    ensures
        ({
            let (s, l) = ip_text::longest_run(g, i, run, start, len);
            &&& 0 <= s && len <= l && s + l <= g.len()
            &&& forall|j: int| s <= j < s + l ==> (#[trigger] g[j]) == 0
        }),
    decreases g.len() - i,
{
    if i < g.len() {
        if g[i] != 0 {
            lemma_run(g, i + 1, 0, start, len);
        } else if run + 1 > len {
            lemma_run(g, i + 1, run + 1, i - run, run + 1);
        } else {
            lemma_run(g, i + 1, run + 1, start, len);
        }
    }
}

proof fn lemma_no_pair(s: Seq<char>, i: int)
    requires
        0 <= i,
        forall|k: int| i <= k < s.len() - 1 ==> !((#[trigger] s[k]) == ':' && s[k + 1] == ':'),
    ensures
        text::find_text_from(s, seq![':', ':'], i) is None,
{
    let p = seq![':', ':'];
    text::lemma_find_text(s, p, i);
    if text::find_text_from(s, p, i) is Some {
        let k = text::find_text_from(s, p, i)->0;
        assert(s.subrange(k, k + 2)[0] == p[0]);
        assert(s.subrange(k, k + 2)[1] == p[1]);
        assert(s[k] == ':' && s[k + 1] == ':');
    }
}

proof fn lemma_first_pair(s: Seq<char>, i: int, end: int)
    requires
        0 <= i <= end,
        end + 2 <= s.len(),
        s[end] == ':' && s[end + 1] == ':',
        forall|k: int| i <= k < end ==> !((#[trigger] s[k]) == ':' && s[k + 1] == ':'),
    ensures
        text::find_text_from(s, seq![':', ':'], i) == Some(end),
    decreases end - i,
{
    let p = seq![':', ':'];
    if i < end {
        if text::at(s, p, i) {
            assert(s.subrange(i, i + 2)[0] == p[0]);
            assert(s.subrange(i, i + 2)[1] == p[1]);
        }
        lemma_first_pair(s, i + 1, end);
    } else {
        assert(s.subrange(i, i + 2) =~= p);
    }
}

proof fn lemma_ffff()
    ensures
        ip_text::group(seq!['f', 'f', 'f', 'f']) == Some(65535nat),
{
    let f = seq!['f', 'f', 'f', 'f'];
    reveal_with_fuel(ip_text::hex_value, 5);
    assert(f.drop_last() =~= seq!['f', 'f', 'f']);
    assert(f.drop_last().drop_last() =~= seq!['f', 'f']);
    assert(f.drop_last().drop_last().drop_last() =~= seq!['f']);
    assert(f.drop_last().drop_last().drop_last().drop_last() =~= seq![]);
}

proof fn lemma_mapped_value(hi: nat, lo: nat)
    ensures
        ip_text::groups_value(seq![0nat, 0, 0, 0, 0, 65535, hi, lo]) == 0xffff_0000_0000 + hi
            * 0x10000 + lo,
{
    let g = seq![0nat, 0, 0, 0, 0, 65535, hi, lo];
    lemma_take(g, 1);
    lemma_take(g, 2);
    lemma_take(g, 3);
    lemma_take(g, 4);
    lemma_take(g, 5);
    lemma_take(g, 6);
    lemma_take(g, 7);
    lemma_take(g, 8);
    assert(g.take(0) =~= Seq::empty());
    assert(g.take(8) =~= g);
}

/// A mapped address behind its `::` has the group `ffff` and those of the dotted quad.
proof fn lemma_mapped_groups(quad_text: Seq<char>, v4: u32)
    requires
        ip_text::v4_text(quad_text) == Some(v4),
        quad_text.len() >= 7,
        text_laws::without(quad_text, ':'),
    ensures
        ip_text::groups(seq!['f', 'f', 'f', 'f', ':'] + quad_text, true) == Some(
            seq![65535nat, v4 as nat / 0x10000, v4 as nat % 0x10000],
        ),
{
    let f = seq!['f', 'f', 'f', 'f'];
    lemma_ffff();
    let tail = seq!['f', 'f', 'f', 'f', ':'] + quad_text;
    assert(tail =~= f.push(':') + quad_text);
    text_laws::law_split_undoes_join(f, quad_text, ':');
    text_laws::law_split_undoes_join(quad_text, quad_text, ':');
    let p = text::split(tail, ':');
    assert(p =~= seq![f, quad_text]);
    assert(ip_text::group(quad_text) is None);
    let e = Seq::<nat>::empty();
    assert(ip_text::groups_upto(p, true, 0) == Some(e));
    assert(ip_text::groups_upto(p, true, 1) == Some(e.push(65535nat)));
    let t = e.push(65535nat).push(v4 as nat / 0x10000).push(v4 as nat % 0x10000);
    assert(ip_text::groups_upto(p, true, 2) == Some(t));
    assert(t =~= seq![65535nat, v4 as nat / 0x10000, v4 as nat % 0x10000]);
}

#[verifier::rlimit(50)]
proof fn lemma_mapped(n: nat)
    requires
        n / 0x1_0000_0000 == 0xffff,
    ensures
        ip_text::v6_text(ip_text::v6_form(n)) == Some(n as u128),
        text_laws::without(ip_text::v6_form(n), ']'),
        text_laws::without(ip_text::v6_form(n), '%'),
        ip_text::v4_text(ip_text::v6_form(n)) is None,
{
    let low = (n % 0x1_0000_0000) as u32;
    lemma_v4(low);
    let quad_text = ip_text::v4_form(low as nat);
    reveal_strlit("::ffff:");
    let s = ip_text::v6_form(n);
    assert(s == "::ffff:"@ + quad_text);
    assert(text_laws::without(quad_text, ':'));
    lemma_first_pair(s, 0, 0);
    assert(s.subrange(2, s.len() as int) =~= seq!['f', 'f', 'f', 'f', ':'] + quad_text);
    assert(s.subrange(0, 0) =~= Seq::empty());
    lemma_mapped_groups(quad_text, low);
    let hi = low as nat / 0x10000;
    let lo = low as nat % 0x10000;
    let t = seq![65535nat, hi, lo];
    let g = Seq::<nat>::empty() + ip_text::zeros(5) + t;
    assert(g =~= seq![0nat, 0, 0, 0, 0, 65535, hi, lo]);
    assert(ip_text::v6_groups(s) == Some(g));
    lemma_mapped_value(hi, lo);
    assert(hi * 0x10000 + lo == low);
    assert(n == 0xffff * 0x1_0000_0000 + n % 0x1_0000_0000);
    assert(ip_text::v4_text(s) is None) by {
        lemma_mapped_is_no_quad(low);
    }
    lemma_mapped_chars(quad_text, ']');
    lemma_mapped_chars(quad_text, '%');
}

proof fn lemma_mapped_chars(quad_text: Seq<char>, c: char)
    requires
        text_laws::without(quad_text, c),
        c != ':' && c != 'f',
    ensures
        text_laws::without("::ffff:"@ + quad_text, c),
{
    reveal_strlit("::ffff:");
    lemma_sum_without("::ffff:"@, quad_text, c);
}

/// The first part of a mapped address is too long for an octet.
proof fn lemma_mapped_is_no_quad(low: u32)
    ensures
        ip_text::v4_text("::ffff:"@ + ip_text::v4_form(low as nat)) is None,
{
    reveal_strlit("::ffff:");
    let quad_text = ip_text::v4_form(low as nat);
    let s = "::ffff:"@ + quad_text;
    let x = (low / 0x1000000) as nat;
    let a = text::decimal(x);
    let lead = "::ffff:"@ + a;
    let b = text::decimal((low as nat / 0x10000 % 256)).push('.') + text::decimal(
        (low as nat / 256 % 256),
    ).push('.') + text::decimal((low as nat % 256));
    lemma_digits_without(x, '.');
    lemma_sum_without("::ffff:"@, a, '.');
    assert(quad_text =~= a.push('.') + b);
    assert(s =~= lead.push('.') + b);
    text_laws::law_split_undoes_join(lead, b, '.');
    assert(text::split(s, '.')[0] == lead);
}

proof fn lemma_no_quad(s: Seq<char>)
    requires
        text_laws::without(s, '.'),
    ensures
        ip_text::v4_text(s) is None,
{
    text_laws::law_split_undoes_join(s, s, '.');
}

#[verifier::rlimit(50)]
proof fn lemma_v6(n: u128)
    ensures
        ip_text::v6_text(ip_text::v6_form(n as nat)) == Some(n),
        text_laws::without(ip_text::v6_form(n as nat), ']'),
        text_laws::without(ip_text::v6_form(n as nat), '%'),
        ip_text::v4_text(ip_text::v6_form(n as nat)) is None,
{
    let g = ip_text::v6_parts(n as nat);
    let s = ip_text::v6_form(n as nat);
    lemma_parts(n as nat);
    lemma_run(g, 0, 0, 0, 0);
    let (start, len) = ip_text::longest_run(g, 0, 0, 0, 0);
    if n as nat / 0x1_0000_0000 == 0xffff {
        lemma_mapped(n as nat);
    } else if len > 1 {
        let a = g.subrange(0, start);
        let b = g.subrange(start + len, 8);
        let head = ip_text::colon_form(a);
        let tail = ip_text::colon_form(b);
        if a.len() > 0 {
            lemma_colons(a);
        }
        if b.len() > 0 {
            lemma_colons(b);
        }
        let k = head.len() as int;
        assert(s == head.push(':').push(':') + tail);
        assert forall|i: int| 0 <= i < k implies !((#[trigger] s[i]) == ':' && s[i + 1] == ':') by {
            assert(s[i] == head[i]);
            if i + 1 < k {
                assert(s[i + 1] == head[i + 1]);
            } else {
                assert(head[i] == head.last());
            }
        }
        lemma_first_pair(s, 0, k);
        assert(s.subrange(0, k) =~= head);
        assert(s.subrange(k + 2, s.len() as int) =~= tail);
        assert(small(a));
        assert(small(b));
        lemma_groups(a, false);
        lemma_groups(b, true);
        assert(a + ip_text::zeros(8 - a.len() - b.len()) + b =~= g);
        assert forall|i: int| 0 <= i < s.len() implies (#[trigger] s[i]) != ']' && s[i] != '%'
            && s[i] != '.' by {
            if i < k {
                assert(s[i] == head[i]);
            } else if i >= k + 2 {
                assert(s[i] == tail[i - k - 2]);
            }
        }
        lemma_no_quad(s);
    } else {
        lemma_colons(g);
        lemma_no_pair(s, 0);
        lemma_groups(g, true);
        lemma_no_quad(s);
    }
}

proof fn lemma_v6_chars(n: u128, c: char)
    requires
        !('0' <= c <= '9') && !('a' <= c <= 'f') && c != ':' && c != '.',
    ensures
        text_laws::without(ip_text::v6_form(n as nat), c),
{
    let g = ip_text::v6_parts(n as nat);
    let s = ip_text::v6_form(n as nat);
    lemma_parts(n as nat);
    lemma_run(g, 0, 0, 0, 0);
    let (start, len) = ip_text::longest_run(g, 0, 0, 0, 0);
    if n as nat / 0x1_0000_0000 == 0xffff {
        lemma_v4((n as nat % 0x1_0000_0000) as u32);
        lemma_mapped_chars(ip_text::v4_form(n as nat % 0x1_0000_0000), c);
    } else if len > 1 {
        lemma_colon_chars(g.subrange(0, start), c);
        lemma_colon_chars(g.subrange(start + len, 8), c);
        let head = ip_text::colon_form(g.subrange(0, start));
        let tail = ip_text::colon_form(g.subrange(start + len, 8));
        lemma_sum_without(head.push(':').push(':'), tail, c);
    } else {
        lemma_colon_chars(g, c);
    }
}

proof fn lemma_colon_chars(g: Seq<nat>, c: char)
    requires
        !('0' <= c <= '9') && !('a' <= c <= 'f') && c != ':',
    ensures
        text_laws::without(ip_text::colon_form(g), c),
{
    if g.len() > 0 {
        lemma_colons(g);
    }
}

/// The host of a SIP URI holds digits, colons, dots and brackets alone.
pub(crate) proof fn lemma_host_without(ip: IpAddr, c: char)
    requires
        !('0' <= c <= '9') && !('a' <= c <= 'f') && c != ':' && c != '.' && c != '[' && c != ']',
    ensures
        text_laws::without(ip_text::sip_host_form(ip), c),
{
    match ip {
        IpAddr::V4(n) => {
            lemma_v4(n);
        },
        IpAddr::V6(n) => {
            lemma_v6_chars(n, c);
            lemma_sum_without(seq!['['], ip_text::v6_form(n as nat).push(']'), c);
        },
    }
}

/// The text of an address holds digits, colons and dots alone.
pub(crate) proof fn lemma_address_without(ip: IpAddr, c: char)
    requires
        !('0' <= c <= '9') && !('a' <= c <= 'f') && c != ':' && c != '.',
    ensures
        text_laws::without(ip_text::ip_form(ip), c),
{
    match ip {
        IpAddr::V4(n) => {
            lemma_v4(n);
        },
        IpAddr::V6(n) => {
            lemma_v6_chars(n, c);
        },
    }
}

/// The text of an address holds no white space, no slash and something at all.
pub(crate) proof fn lemma_address_chars(ip: IpAddr)
    ensures
        ({
            let s = ip_text::ip_form(ip);
            &&& s.len() > 0
            &&& text_laws::without(s, '/')
            &&& forall|i: int| 0 <= i < s.len() ==> !text::white(#[trigger] s[i])
        }),
{
    let s = ip_text::ip_form(ip);
    match ip {
        IpAddr::V4(n) => {
            lemma_v4(n);
            assert(text_laws::without(s, '/'));
            assert forall|i: int| 0 <= i < s.len() implies !text::white(#[trigger] s[i]) by {
                if text::white(s[i]) {
                    assert(text_laws::without(s, s[i]));
                }
            }
        },
        IpAddr::V6(n) => {
            lemma_v6(n);
            lemma_v6_chars(n, '/');
            lemma_v6_length(n);
            assert forall|i: int| 0 <= i < s.len() implies !text::white(#[trigger] s[i]) by {
                if text::white(s[i]) {
                    lemma_v6_chars(n, s[i]);
                }
            }
        },
    }
}

proof fn lemma_v6_length(n: u128)
    ensures
        ip_text::v6_form(n as nat).len() > 0,
{
    let g = ip_text::v6_parts(n as nat);
    lemma_parts(n as nat);
    lemma_colons(g);
    reveal_strlit("::ffff:");
}

/// An address is read back from its text.
pub proof fn law_address_is_read_back(ip: IpAddr)
    ensures
        ip_text::ip_text(ip_text::ip_form(ip)) == Some(ip),
{
    match ip {
        IpAddr::V4(n) => {
            lemma_v4(n);
        },
        IpAddr::V6(n) => {
            lemma_v6(n);
        },
    }
}

/// The host of a SIP URI and the port behind it, with a colon between them, are read back as
/// the address and the port that they were written from.
pub proof fn law_host_and_port_are_read_back(a: SocketAddr)
    ensures
        ip_text::socket_text(
            ip_text::sip_host_form(a.ip).push(':') + text::decimal(a.port as nat),
        ) == Some(a),
        ip_text::socket_text(ip_text::socket_form(a)) == Some(a),
{
    let port = text::decimal(a.port as nat);
    text::law_decimal_round_trip(a.port as nat);
    let s = ip_text::sip_host_form(a.ip).push(':') + port;
    match a.ip {
        IpAddr::V4(n) => {
            lemma_v4(n);
            let host = ip_text::v4_form(n as nat);
            text_laws::law_cut_gives_both_sides(host, port, ':');
            assert(s[0] == host[0]);
        },
        IpAddr::V6(n) => {
            lemma_v6(n);
            let host = ip_text::v6_form(n as nat);
            let k = host.len() as int;
            text_laws::law_first_is_found(seq!['['] + host, seq![':'] + port, ']');
            assert(s =~= (seq!['['] + host).push(']') + (seq![':'] + port));
            lemma_sum_without(seq!['['], host, ']');
            assert(text::find_from(s, ']', 0) == text::find_from(s, ']', 1));
            assert(s.subrange(1, k + 1) =~= host);
            assert(s.subrange(k + 3, s.len() as int) =~= port);
            text_laws::law_cut_gives_both_sides(host, port, '%');
            assert(ip_text::socket_form(a) =~= s);
        },
    }
}

} // verus!
