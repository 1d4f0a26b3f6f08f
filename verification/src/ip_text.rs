//! Network addresses as text.

use crate::net::{IpAddr, SocketAddr};
use crate::text;
use crate::text::{chars_of, find, is_digit, parts, push_decimal, push_str, string_of};
use vstd::prelude::*;
use vstd::slice::slice_subrange;

verus! {

// -------------------------------------------------------------------- reading

/// A decimal number of digits alone, of at most `max`.
pub open spec fn number(s: Seq<char>, max: nat) -> Option<nat> {
    if s.len() > 0 && text::all_digits(s) && text::decimal_value(s) <= max {
        Some(text::decimal_value(s))
    } else {
        None
    }
}

fn read_number(s: &[char], max: u64) -> (r: Option<u64>)
    ensures
        match r {
            Some(n) => number(s@, max as nat) == Some(n as nat) && n <= max,
            None => number(s@, max as nat) is None,
        },
{
    if s.len() == 0 {
        return None;
    }
    if !is_digit(s[0]) {
        assert(!text::digit(s@[0]));
        return None;
    }
    assert(text::unsigned_digits(s@) == s@);
    text::parse_unsigned(s, max)
}

/// One octet of a dotted address: no leading zero, at most three digits.
pub open spec fn octet(s: Seq<char>) -> Option<nat> {
    if s.len() > 3 || (s.len() > 1 && s[0] == '0') {
        None
    } else {
        number(s, 255)
    }
}

fn read_octet(s: &[char]) -> (r: Option<u64>)
    ensures
        match r {
            Some(n) => octet(s@) == Some(n as nat) && n <= 255,
            None => octet(s@) is None,
        },
{
    if s.len() > 3 || (s.len() > 1 && s[0] == '0') {
        None
    } else {
        read_number(s, 255)
    }
}

/// A dotted-quad address.
pub open spec fn v4_text(s: Seq<char>) -> Option<u32> {
    let p = text::split(s, '.');
    if p.len() != 4 {
        None
    } else {
        match (octet(p[0]), octet(p[1]), octet(p[2]), octet(p[3])) {
            (Some(a), Some(b), Some(c), Some(d)) => Some(
                (((a * 256 + b) * 256 + c) * 256 + d) as u32,
            ),
            _ => None,
        }
    }
}

fn read_v4(s: &[char]) -> (r: Option<u32>)
    ensures
        r == v4_text(s@),
{
    let p = parts(s, '.');
    let ghost all = text::split(s@, '.');
    assert(p@.len() == text::views(p@).len());
    if p.len() != 4 {
        return None;
    }
    assert(all[0] == p@[0]@ && all[1] == p@[1]@ && all[2] == p@[2]@ && all[3] == p@[3]@);
    let a: u64 = match read_octet(p[0]) {
        Some(n) => n,
        None => return None,
    };
    let b: u64 = match read_octet(p[1]) {
        Some(n) => n,
        None => return None,
    };
    let c: u64 = match read_octet(p[2]) {
        Some(n) => n,
        None => return None,
    };
    let d: u64 = match read_octet(p[3]) {
        Some(n) => n,
        None => return None,
    };
    Some((((a * 256 + b) * 256 + c) * 256 + d) as u32)
}

pub open spec fn hex_digit(c: char) -> Option<nat> {
    if '0' <= c <= '9' {
        Some((c as u32 - '0' as u32) as nat)
    } else if 'a' <= c <= 'f' {
        Some((c as u32 - 'a' as u32 + 10) as nat)
    } else if 'A' <= c <= 'F' {
        Some((c as u32 - 'A' as u32 + 10) as nat)
    } else {
        None
    }
}

fn read_hex_digit(c: char) -> (r: Option<u32>)
    ensures
        match r {
            Some(n) => hex_digit(c) == Some(n as nat) && n < 16,
            None => hex_digit(c) is None,
        },
{
    let n: u32 = c as u32;
    if '0' <= c && c <= '9' {
        Some(n - 48)
    } else if 'a' <= c && c <= 'f' {
        Some(n - 97 + 10)
    } else if 'A' <= c && c <= 'F' {
        Some(n - 65 + 10)
    } else {
        None
    }
}

/// The number that hexadecimal digits write.
pub open spec fn hex_value(s: Seq<char>) -> Option<nat>
    decreases s.len(),
{
    if s.len() == 0 {
        Some(0)
    } else {
        match (hex_value(s.drop_last()), hex_digit(s.last())) {
            (Some(n), Some(d)) => Some(16 * n + d),
            _ => None,
        }
    }
}

/// A group of an IPv6 address: one to four hexadecimal digits.
pub open spec fn group(s: Seq<char>) -> Option<nat> {
    if 1 <= s.len() <= 4 {
        hex_value(s)
    } else {
        None
    }
}

proof fn lemma_hex_prefix(s: Seq<char>, n: int)
    requires
        0 <= n <= s.len(),
        hex_value(s.take(n)) is None,
    ensures
        hex_value(s) is None,
    decreases s.len(),
{
    if n < s.len() {
        assert(s.drop_last().take(n) =~= s.take(n));
        lemma_hex_prefix(s.drop_last(), n);
    } else {
        assert(s.take(n) =~= s);
    }
}

fn read_group(s: &[char]) -> (r: Option<u16>)
    ensures
        match r {
            Some(n) => group(s@) == Some(n as nat),
            None => group(s@) is None,
        },
{
    if s.len() < 1 || s.len() > 4 {
        return None;
    }
    let mut n: u32 = 0;
    let mut bound: u32 = 1;
    let mut i: usize = 0;
    assert(s@.take(0) =~= Seq::empty());
    while i < s.len()
        invariant
            1 <= s@.len() <= 4,
            i <= s@.len(),
            hex_value(s@.take(i as int)) == Some(n as nat),
            n < bound,
            i == 0 ==> bound == 1,
            i == 1 ==> bound == 0x10,
            i == 2 ==> bound == 0x100,
            i == 3 ==> bound == 0x1000,
            i == 4 ==> bound == 0x10000,
        decreases s@.len() - i,
    {
        assert(s@.take(i + 1).drop_last() =~= s@.take(i as int));
        match read_hex_digit(s[i]) {
            Some(d) => {
                n = 16 * n + d;
                bound = bound * 16;
            },
            None => {
                proof {
                    lemma_hex_prefix(s@, i + 1);
                }
                return None;
            },
        }
        i += 1;
    }
    assert(s@.take(s@.len() as int) =~= s@);
    Some(n as u16)
}

/// The groups that the parts before `n` write; where `dotted`, the last part of
/// all may be a dotted quad, which writes two.
pub open spec fn groups_upto(p: Seq<Seq<char>>, dotted: bool, n: int) -> Option<Seq<nat>>
    decreases n,
{
    if n <= 0 {
        Some(Seq::empty())
    } else {
        match groups_upto(p, dotted, n - 1) {
            None => None,
            Some(known) => match group(p[n - 1]) {
                Some(g) => Some(known.push(g)),
                None => if dotted && n == p.len() {
                    match v4_text(p[n - 1]) {
                        Some(v4) => Some(
                            known.push(v4 as nat / 0x10000).push(v4 as nat % 0x10000),
                        ),
                        None => None,
                    }
                } else {
                    None
                },
            },
        }
    }
}

/// The groups of a colon-separated text; an empty text has none.
pub open spec fn groups(s: Seq<char>, dotted: bool) -> Option<Seq<nat>> {
    if s.len() == 0 {
        Some(Seq::empty())
    } else {
        let p = text::split(s, ':');
        groups_upto(p, dotted, p.len() as int)
    }
}

/// The number that 16-bit groups write.
pub open spec fn groups_value(g: Seq<nat>) -> nat
    decreases g.len(),
{
    if g.len() == 0 {
        0
    } else {
        0x10000 * groups_value(g.drop_last()) + g.last()
    }
}

pub open spec fn zeros(n: int) -> Seq<nat> {
    Seq::new(n as nat, |i: int| 0nat)
}

/// The eight groups of an IPv6 address: all of them, or those around a `::`
/// that stands for at least one zero group.
pub open spec fn v6_groups(s: Seq<char>) -> Option<Seq<nat>> {
    match text::find_text_from(s, seq![':', ':'], 0) {
        None => match groups(s, true) {
            Some(g) => if g.len() == 8 {
                Some(g)
            } else {
                None
            },
            None => None,
        },
        Some(k) => match (
            groups(s.subrange(0, k), false),
            groups(s.subrange(k + 2, s.len() as int), true),
        ) {
            (Some(head), Some(tail)) => if head.len() + tail.len() <= 7 {
                Some(head + zeros(8 - head.len() - tail.len()) + tail)
            } else {
                None
            },
            _ => None,
        },
    }
}

pub open spec fn v6_text(s: Seq<char>) -> Option<u128> {
    match v6_groups(s) {
        Some(g) => Some(groups_value(g) as u128),
        None => None,
    }
}

pub open spec fn ip_text(s: Seq<char>) -> Option<IpAddr> {
    match v4_text(s) {
        Some(v4) => Some(IpAddr::V4(v4)),
        None => match v6_text(s) {
            Some(v6) => Some(IpAddr::V6(v6)),
            None => None,
        },
    }
}

pub open spec fn nats(v: Seq<u16>) -> Seq<nat> {
    Seq::new(v.len(), |i: int| v[i] as nat)
}

fn read_groups(s: &[char], dotted: bool) -> (r: Option<Vec<u16>>)
    ensures
        match r {
            Some(v) => groups(s@, dotted) == Some(nats(v@)),
            None => groups(s@, dotted) is None,
        },
{
    let mut v: Vec<u16> = Vec::new();
    assert(nats(v@) =~= Seq::empty());
    if s.len() == 0 {
        return Some(v);
    }
    let p = parts(s, ':');
    let ghost all = text::split(s@, ':');
    let mut i: usize = 0;
    while i < p.len()
        invariant
            i <= p@.len(),
            s@.len() > 0,
            all == text::split(s@, ':'),
            text::views(p@) == all,
            groups_upto(all, dotted, i as int) == Some(nats(v@)),
        decreases p@.len() - i,
    {
        assert(all[i as int] == p@[i as int]@);
        assert(all.len() == p@.len());
        let ghost before = v@;
        match read_group(p[i]) {
            Some(g) => {
                v.push(g);
                assert(nats(v@) =~= nats(before).push(g as nat));
            },
            None => {
                if !dotted || i + 1 != p.len() {
                    proof {
                        lemma_groups_none(all, dotted, i + 1);
                    }
                    return None;
                }
                match read_v4(p[i]) {
                    None => {
                        return None;
                    },
                    Some(v4) => {
                        v.push((v4 / 0x10000) as u16);
                        v.push((v4 % 0x10000) as u16);
                        assert(nats(v@) =~= nats(before).push(v4 as nat / 0x10000).push(
                            v4 as nat % 0x10000,
                        ));
                    },
                }
            },
        }
        i += 1;
    }
    Some(v)
}

proof fn lemma_groups_none(p: Seq<Seq<char>>, dotted: bool, n: int)
    requires
        0 <= n <= p.len(),
        groups_upto(p, dotted, n) is None,
    ensures
        groups_upto(p, dotted, p.len() as int) is None,
    decreases p.len() - n,
{
    if n < p.len() {
        lemma_groups_none(p, dotted, n + 1);
    }
}

fn value_of(v: &Vec<u16>) -> (r: u128)
    requires
        v@.len() == 8,
    ensures
        r == groups_value(nats(v@)),
{
    let ghost all = nats(v@);
    let mut n: u128 = 0;
    let mut i: usize = 0;
    let ghost mut bound: int = 1;
    assert(all.take(0) =~= Seq::empty());
    while i < 8
        invariant
            i <= 8,
            v@.len() == 8,
            all == nats(v@),
            n == groups_value(all.take(i as int)),
            n < bound,
            i == 0 ==> bound == 1,
            i == 1 ==> bound == 0x1_0000,
            i == 2 ==> bound == 0x1_0000_0000,
            i == 3 ==> bound == 0x1_0000_0000_0000,
            i == 4 ==> bound == 0x1_0000_0000_0000_0000,
            i == 5 ==> bound == 0x1_0000_0000_0000_0000_0000,
            i == 6 ==> bound == 0x1_0000_0000_0000_0000_0000_0000,
            i == 7 ==> bound == 0x1_0000_0000_0000_0000_0000_0000_0000,
            i == 8 ==> bound == 0x1_0000_0000_0000_0000_0000_0000_0000_0000,
        decreases 8 - i,
    {
        assert(all.take(i + 1).drop_last() =~= all.take(i as int));
        assert(all.take(i + 1).last() == v@[i as int]);
        n = 0x10000 * n + v[i] as u128;
        proof {
            bound = bound * 0x10000;
        }
        i += 1;
    }
    assert(all.take(8) =~= all);
    n
}

fn read_v6(s: &[char]) -> (r: Option<u128>)
    ensures
        r == v6_text(s@),
{
    let mut colons: Vec<char> = Vec::new();
    colons.push(':');
    colons.push(':');
    assert(colons@ =~= seq![':', ':']);
    match text::find_text(s, colons.as_slice(), 0) {
        None => match read_groups(s, true) {
            None => None,
            Some(g) => {
                assert(nats(g@).len() == g@.len());
                if g.len() == 8 {
                    Some(value_of(&g))
                } else {
                    None
                }
            },
        },
        Some(k) => {
            let end: usize = s.len();
            assert(k + 2 <= end);
            let head = match read_groups(slice_subrange(s, 0, k), false) {
                Some(g) => g,
                None => return None,
            };
            let tail = match read_groups(slice_subrange(s, k + 2, end), true) {
                Some(g) => g,
                None => return None,
            };
            assert(nats(head@).len() == head@.len() && nats(tail@).len() == tail@.len());
            if head.len() > 7 || tail.len() > 7 - head.len() {
                return None;
            }
            let ghost first = nats(head@);
            let ghost last = nats(tail@);
            let gap: usize = 8 - head.len() - tail.len();
            let mut all = head;
            let mut i: usize = 0;
            assert(nats(all@) =~= first + zeros(0));
            while i < gap
                invariant
                    i <= gap,
                    nats(all@) == first + zeros(i as int),
                decreases gap - i,
            {
                let ghost before = all@;
                all.push(0);
                i += 1;
                assert(nats(all@) =~= nats(before).push(0nat));
                assert(nats(all@) =~= first + zeros(i as int));
            }
            let mut j: usize = 0;
            let ghost middle = nats(all@);
            assert(middle =~= middle + last.take(0));
            while j < tail.len()
                invariant
                    j <= tail@.len(),
                    last == nats(tail@),
                    nats(all@) == middle + last.take(j as int),
                decreases tail@.len() - j,
            {
                let ghost before = all@;
                all.push(tail[j]);
                j += 1;
                assert(nats(all@) =~= nats(before).push(last[j - 1]));
                assert(nats(all@) =~= middle + last.take(j as int));
            }
            assert(last.take(last.len() as int) =~= last);
            assert(nats(all@).len() == all@.len());
            Some(value_of(&all))
        },
    }
}

pub fn parse_ip_chars(s: &[char]) -> (r: Option<IpAddr>)
    ensures
        r == ip_text(s@),
{
    match read_v4(s) {
        Some(v4) => Some(IpAddr::V4(v4)),
        None => match read_v6(s) {
            Some(v6) => Some(IpAddr::V6(v6)),
            None => None,
        },
    }
}

pub fn parse_ip(s: &str) -> (r: Option<IpAddr>)
    ensures
        r == ip_text(s@),
{
    let all = chars_of(s);
    parse_ip_chars(all.as_slice())
}

/// A bracketed IPv6 address without its scope.
pub open spec fn unscoped(s: Seq<char>) -> Option<Seq<char>> {
    match text::cut(s, '%') {
        Some((address, scope)) => if number(scope, u32::MAX as nat) is Some {
            Some(address)
        } else {
            None
        },
        None => Some(s),
    }
}

/// An address and port: `a.b.c.d:port` or `[v6]:port`.
pub open spec fn socket_text(s: Seq<char>) -> Option<SocketAddr> {
    if s.len() > 0 && s[0] == '[' {
        let close = text::find_from(s, ']', 1);
        if close + 1 < s.len() && s[close + 1] == ':' {
            match (
                unscoped(s.subrange(1, close)),
                number(s.subrange(close + 2, s.len() as int), u16::MAX as nat),
            ) {
                (Some(address), Some(port)) => match v6_text(address) {
                    Some(v6) => Some(SocketAddr { ip: IpAddr::V6(v6), port: port as u16 }),
                    None => None,
                },
                _ => None,
            }
        } else {
            None
        }
    } else {
        match text::cut(s, ':') {
            Some((address, rest)) => match (v4_text(address), number(rest, u16::MAX as nat)) {
                (Some(v4), Some(port)) => Some(
                    SocketAddr { ip: IpAddr::V4(v4), port: port as u16 },
                ),
                _ => None,
            },
            None => None,
        }
    }
}

pub fn parse_socket_chars(s: &[char]) -> (r: Option<SocketAddr>)
    ensures
        r == socket_text(s@),
{
    if s.len() > 0 && s[0] == '[' {
        let close: usize = find(s, ']', 1);
        if close >= s.len() || close + 1 >= s.len() || s[close + 1] != ':' {
            return None;
        }
        let inner = slice_subrange(s, 1, close);
        let address = match text::split_once(inner, '%') {
            Some((address, scope)) => {
                if read_number(scope, u32::MAX as u64).is_none() {
                    return None;
                }
                address
            },
            None => inner,
        };
        let port: u64 = match read_number(slice_subrange(s, close + 2, s.len()), u16::MAX as u64) {
            Some(n) => n,
            None => return None,
        };
        match read_v6(address) {
            Some(v6) => Some(SocketAddr { ip: IpAddr::V6(v6), port: port as u16 }),
            None => None,
        }
    } else {
        match text::split_once(s, ':') {
            Some((address, rest)) => match (read_v4(address), read_number(rest, u16::MAX as u64)) {
                (Some(v4), Some(port)) => Some(
                    SocketAddr { ip: IpAddr::V4(v4), port: port as u16 },
                ),
                _ => None,
            },
            None => None,
        }
    }
}

pub fn parse_socket(s: &str) -> (r: Option<SocketAddr>)
    ensures
        r == socket_text(s@),
{
    let all = chars_of(s);
    parse_socket_chars(all.as_slice())
}

// -------------------------------------------------------------------- writing

/// The dotted-quad form of an address.
pub open spec fn v4_form(n: nat) -> Seq<char> {
    text::decimal(n / 0x1000000).push('.') + text::decimal(n / 0x10000 % 256).push('.')
        + text::decimal(n / 256 % 256).push('.') + text::decimal(n % 256)
}

fn push_v4(out: &mut Vec<char>, n: u32)
    ensures
        final(out)@ == old(out)@ + v4_form(n as nat),
{
    push_decimal(out, (n / 0x1000000) as u64);
    out.push('.');
    push_decimal(out, (n / 0x10000 % 256) as u64);
    out.push('.');
    push_decimal(out, (n / 256 % 256) as u64);
    out.push('.');
    push_decimal(out, (n % 256) as u64);
    assert(out@ =~= old(out)@ + v4_form(n as nat));
}

pub open spec fn hex_char(n: nat) -> char {
    if n < 10 {
        (n + '0' as u32) as char
    } else {
        (n - 10 + 'a' as u32) as char
    }
}

/// The hexadecimal digits of `n`, without leading zeros.
pub open spec fn hex(n: nat) -> Seq<char>
    decreases n,
{
    if n < 16 {
        seq![hex_char(n)]
    } else {
        hex(n / 16).push(hex_char(n % 16))
    }
}

fn push_hex(out: &mut Vec<char>, n: u16)
    ensures
        final(out)@ == old(out)@ + hex(n as nat),
    decreases n,
{
    if n >= 16 {
        push_hex(out, n / 16);
    }
    let d: u8 = (n % 16) as u8;
    if d < 10 {
        out.push((d + 48) as char);
    } else {
        out.push((d - 10 + 97) as char);
    }
    assert(out@ =~= old(out)@ + hex(n as nat));
}

/// The eight 16-bit groups of an IPv6 address.
pub open spec fn v6_parts(n: nat) -> Seq<nat> {
    seq![
        n / 0x1_0000_0000_0000_0000_0000_0000_0000,
        n / 0x1_0000_0000_0000_0000_0000_0000 % 0x10000,
        n / 0x1_0000_0000_0000_0000_0000 % 0x10000,
        n / 0x1_0000_0000_0000_0000 % 0x10000,
        n / 0x1_0000_0000_0000 % 0x10000,
        n / 0x1_0000_0000 % 0x10000,
        n / 0x10000 % 0x10000,
        n % 0x10000,
    ]
}

fn parts_of(n: u128) -> (r: Vec<u16>)
    ensures
        nats(r@) == v6_parts(n as nat),
        r@.len() == 8,
{
    let mut r: Vec<u16> = Vec::new();
    r.push((n / 0x1_0000_0000_0000_0000_0000_0000_0000) as u16);
    r.push((n / 0x1_0000_0000_0000_0000_0000_0000 % 0x10000) as u16);
    r.push((n / 0x1_0000_0000_0000_0000_0000 % 0x10000) as u16);
    r.push((n / 0x1_0000_0000_0000_0000 % 0x10000) as u16);
    r.push((n / 0x1_0000_0000_0000 % 0x10000) as u16);
    r.push((n / 0x1_0000_0000 % 0x10000) as u16);
    r.push((n / 0x10000 % 0x10000) as u16);
    r.push((n % 0x10000) as u16);
    assert(nats(r@) =~= v6_parts(n as nat));
    r
}

/// The first longest run of zero groups, as a start and a length: `run` zeros
/// end before `i`, and the best run so far is (`start`, `len`).
pub open spec fn longest_run(g: Seq<nat>, i: int, run: int, start: int, len: int) -> (int, int)
    decreases g.len() - i,
{
    if i >= g.len() {
        (start, len)
    } else if g[i] != 0 {
        longest_run(g, i + 1, 0, start, len)
    } else if run + 1 > len {
        longest_run(g, i + 1, run + 1, i - run, run + 1)
    } else {
        longest_run(g, i + 1, run + 1, start, len)
    }
}

/// Groups joined by colons.
pub open spec fn colon_form(g: Seq<nat>) -> Seq<char>
    decreases g.len(),
{
    if g.len() == 0 {
        Seq::empty()
    } else if g.len() == 1 {
        hex(g[0])
    } else {
        colon_form(g.drop_last()).push(':') + hex(g.last())
    }
}

/// The canonical text of an IPv6 address: a mapped IPv4 address is dotted, and
/// the first longest run of at least two zero groups is compressed.
pub open spec fn v6_form(n: nat) -> Seq<char> {
    let g = v6_parts(n);
    let (start, len) = longest_run(g, 0, 0, 0, 0);
    if n / 0x1_0000_0000 == 0xffff {
        "::ffff:"@ + v4_form(n % 0x1_0000_0000)
    } else if len > 1 {
        colon_form(g.subrange(0, start)).push(':').push(':') + colon_form(
            g.subrange(start + len, 8),
        )
    } else {
        colon_form(g)
    }
}

pub open spec fn ip_form(ip: IpAddr) -> Seq<char> {
    match ip {
        IpAddr::V4(n) => v4_form(n as nat),
        IpAddr::V6(n) => v6_form(n as nat),
    }
}

fn push_groups(out: &mut Vec<char>, g: &[u16])
    ensures
        final(out)@ == old(out)@ + colon_form(nats(g@)),
{
    let ghost all = nats(g@);
    let mut i: usize = 0;
    assert(all.take(0) =~= Seq::empty());
    assert(out@ =~= old(out)@ + colon_form(all.take(0)));
    while i < g.len()
        invariant
            i <= g@.len(),
            all == nats(g@),
            out@ == old(out)@ + colon_form(all.take(i as int)),
        decreases g@.len() - i,
    {
        if i > 0 {
            out.push(':');
        }
        push_hex(out, g[i]);
        i += 1;
        proof {
            let now = all.take(i as int);
            assert(now.drop_last() =~= all.take(i - 1));
            assert(now.last() == g@[i - 1]);
            assert(out@ =~= old(out)@ + colon_form(now));
        }
    }
    assert(all.take(all.len() as int) =~= all);
}

fn push_v6(out: &mut Vec<char>, n: u128)
    ensures
        final(out)@ == old(out)@ + v6_form(n as nat),
{
    if n / 0x1_0000_0000 == 0xffff {
        push_str(out, "::ffff:");
        push_v4(out, (n % 0x1_0000_0000) as u32);
        assert(out@ =~= old(out)@ + v6_form(n as nat));
        return;
    }
    let g = parts_of(n);
    let ghost all = nats(g@);
    let mut i: usize = 0;
    let mut run: usize = 0;
    let mut start: usize = 0;
    let mut len: usize = 0;
    while i < 8
        invariant
            i <= 8,
            g@.len() == 8,
            all == nats(g@),
            run <= i,
            start + len <= i,
            longest_run(all, 0, 0, 0, 0) == longest_run(
                all,
                i as int,
                run as int,
                start as int,
                len as int,
            ),
        decreases 8 - i,
    {
        assert(all[i as int] == g@[i as int]);
        if g[i] != 0 {
            run = 0;
        } else {
            if run + 1 > len {
                start = i - run;
                len = run + 1;
            }
            run += 1;
        }
        i += 1;
    }
    if len > 1 {
        let head = slice_subrange(g.as_slice(), 0, start);
        let tail = slice_subrange(g.as_slice(), start + len, 8);
        push_groups(out, head);
        out.push(':');
        out.push(':');
        push_groups(out, tail);
        assert(nats(head@) =~= all.subrange(0, start as int));
        assert(nats(tail@) =~= all.subrange(start + len, 8));
        assert(out@ =~= old(out)@ + v6_form(n as nat));
    } else {
        push_groups(out, g.as_slice());
    }
}

pub fn push_ip(out: &mut Vec<char>, ip: IpAddr)
    ensures
        final(out)@ == old(out)@ + ip_form(ip),
{
    match ip {
        IpAddr::V4(n) => push_v4(out, n),
        IpAddr::V6(n) => push_v6(out, n),
    }
}

pub fn ip_string(ip: IpAddr) -> (r: String)
    ensures
        r@ == ip_form(ip),
{
    let mut out: Vec<char> = Vec::new();
    push_ip(&mut out, ip);
    assert(out@ =~= ip_form(ip));
    string_of(out.as_slice())
}

/// An address and port as text.
pub open spec fn socket_form(a: SocketAddr) -> Seq<char> {
    match a.ip {
        IpAddr::V4(n) => v4_form(n as nat).push(':') + text::decimal(a.port as nat),
        IpAddr::V6(n) => seq!['['] + v6_form(n as nat).push(']').push(':') + text::decimal(
            a.port as nat,
        ),
    }
}

pub fn socket_string(a: SocketAddr) -> (r: String)
    ensures
        r@ == socket_form(a),
{
    let mut out: Vec<char> = Vec::new();
    match a.ip {
        IpAddr::V4(n) => {
            push_v4(&mut out, n);
        },
        IpAddr::V6(n) => {
            out.push('[');
            push_v6(&mut out, n);
            out.push(']');
        },
    }
    out.push(':');
    push_decimal(&mut out, a.port as u64);
    assert(out@ =~= socket_form(a));
    string_of(out.as_slice())
}

/// A host part of a SIP URI: IPv6 addresses stand in brackets.
pub open spec fn sip_host_form(ip: IpAddr) -> Seq<char> {
    match ip {
        IpAddr::V4(n) => v4_form(n as nat),
        IpAddr::V6(n) => seq!['['] + v6_form(n as nat).push(']'),
    }
}

pub fn push_sip_host(out: &mut Vec<char>, ip: IpAddr)
    ensures
        final(out)@ == old(out)@ + sip_host_form(ip),
{
    match ip {
        IpAddr::V4(n) => push_v4(out, n),
        IpAddr::V6(n) => {
            out.push('[');
            push_v6(out, n);
            out.push(']');
            assert(out@ =~= old(out)@ + sip_host_form(ip));
        },
    }
}

} // verus!
