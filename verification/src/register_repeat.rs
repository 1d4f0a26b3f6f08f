//! Rewriting a REGISTER twice changes no more than rewriting it once.

use crate::register_response::Mode;
use crate::register_rewrite::OfferValue;
use crate::{register_response, register_rewrite, text};
use vstd::prelude::*;
use vstd::utf8::*;

verus! {

// --------------------------------------------------------------------- scanning

/// What surrounds the end of a text whose character at `i` is surrounded by `m`.
pub open spec fn mode_after(s: Seq<char>, i: int, m: Mode) -> Mode
    decreases s.len() - i,
{
    if i >= s.len() {
        m
    } else {
        mode_after(s, i + 1, register_response::next_mode(m, s[i]))
    }
}

/// The first separator from `i` on outside quotes and angle brackets, or the length.
pub open spec fn free_from(s: Seq<char>, sep: char, i: int, m: Mode) -> int
    decreases s.len() - i,
{
    if i >= s.len() {
        s.len() as int
    } else if s[i] == sep && !m.quoted && !m.angle {
        i
    } else {
        free_from(s, sep, i + 1, register_response::next_mode(m, s[i]))
    }
}

/// Does an angle bracket that was opened outside quotes close from `i` on?
pub open spec fn closes(s: Seq<char>, i: int, m: Mode) -> bool
    decreases s.len() - i,
{
    if i >= s.len() {
        false
    } else if m.angle && s[i] == '>' {
        true
    } else {
        closes(s, i + 1, register_response::next_mode(m, s[i]))
    }
}

/// Only what is quoted can be escaped.
pub open spec fn sane(m: Mode) -> bool {
    m.escaped ==> m.quoted
}

/// A text without a separator of its own.
pub open spec fn solid(s: Seq<char>, sep: char) -> bool {
    free_from(s, sep, 0, register_response::plain()) == s.len()
}

/// A text that ends outside quotes and angle brackets.
pub open spec fn calm(s: Seq<char>) -> bool {
    mode_after(s, 0, register_response::plain()) == register_response::plain()
}

proof fn lemma_mode_concat(a: Seq<char>, b: Seq<char>, i: int, m: Mode)
    requires
        0 <= i <= a.len(),
    ensures
        mode_after(a + b, i, m) == mode_after(b, 0, mode_after(a, i, m)),
    decreases a.len() - i,
{
    if i < a.len() {
        assert((a + b)[i] == a[i]);
        lemma_mode_concat(a, b, i + 1, register_response::next_mode(m, a[i]));
    } else {
        lemma_mode_shift(a, b, 0, m);
    }
}

proof fn lemma_mode_shift(a: Seq<char>, b: Seq<char>, j: int, m: Mode)
    requires
        0 <= j <= b.len(),
    ensures
        mode_after(a + b, a.len() + j, m) == mode_after(b, j, m),
    decreases b.len() - j,
{
    if j < b.len() {
        assert((a + b)[a.len() + j] == b[j]);
        lemma_mode_shift(a, b, j + 1, register_response::next_mode(m, b[j]));
    }
}

proof fn lemma_sane(s: Seq<char>, i: int, m: Mode)
    requires
        0 <= i <= s.len(),
        sane(m),
    ensures
        sane(mode_after(s, i, m)),
    decreases s.len() - i,
{
    if i < s.len() {
        lemma_sane(s, i + 1, register_response::next_mode(m, s[i]));
    }
}

proof fn lemma_free_shift(a: Seq<char>, b: Seq<char>, sep: char, j: int, m: Mode)
    requires
        0 <= j <= b.len(),
    ensures
        free_from(a + b, sep, a.len() + j, m) == a.len() + free_from(b, sep, j, m),
    decreases b.len() - j,
{
    if j < b.len() {
        assert((a + b)[a.len() + j] == b[j]);
        lemma_free_shift(a, b, sep, j + 1, register_response::next_mode(m, b[j]));
    }
}

proof fn lemma_free_concat(a: Seq<char>, b: Seq<char>, sep: char, i: int, m: Mode)
    requires
        0 <= i <= a.len(),
    ensures
        i <= free_from(a, sep, i, m) <= a.len(),
        free_from(a, sep, i, m) < a.len() ==> free_from(a + b, sep, i, m) == free_from(
            a,
            sep,
            i,
            m,
        ),
        free_from(a, sep, i, m) == a.len() ==> free_from(a + b, sep, i, m) == a.len() + free_from(
            b,
            sep,
            0,
            mode_after(a, i, m),
        ),
    decreases a.len() - i,
{
    if i < a.len() {
        assert((a + b)[i] == a[i]);
        if !(a[i] == sep && !m.quoted && !m.angle) {
            lemma_free_concat(a, b, sep, i + 1, register_response::next_mode(m, a[i]));
        }
    } else {
        lemma_free_shift(a, b, sep, 0, m);
    }
}

proof fn lemma_closes_shift(a: Seq<char>, b: Seq<char>, j: int, m: Mode)
    requires
        0 <= j <= b.len(),
    ensures
        closes(a + b, a.len() + j, m) == closes(b, j, m),
    decreases b.len() - j,
{
    if j < b.len() {
        assert((a + b)[a.len() + j] == b[j]);
        if !(m.angle && b[j] == '>') {
            lemma_closes_shift(a, b, j + 1, register_response::next_mode(m, b[j]));
        }
    }
}

proof fn lemma_closes_concat(a: Seq<char>, b: Seq<char>, i: int, m: Mode)
    requires
        0 <= i <= a.len(),
    ensures
        closes(a + b, i, m) == (closes(a, i, m) || closes(b, 0, mode_after(a, i, m))),
    decreases a.len() - i,
{
    if i < a.len() {
        assert((a + b)[i] == a[i]);
        if !(m.angle && a[i] == '>') {
            lemma_closes_concat(a, b, i + 1, register_response::next_mode(m, a[i]));
        }
    } else {
        lemma_closes_shift(a, b, 0, m);
    }
}

/// Where the first separator stands, nothing surrounds it.
proof fn lemma_free_at(s: Seq<char>, sep: char, i: int, m: Mode)
    requires
        0 <= i <= s.len(),
        sane(m),
    ensures
        ({
            let k = free_from(s, sep, i, m);
            &&& i <= k <= s.len()
            &&& k < s.len() ==> s[k] == sep && mode_after(s.take(k), i, m) == register_response::plain()
            &&& free_from(s.take(k), sep, i, m) == k
        }),
    decreases s.len() - i,
{
    let k = free_from(s, sep, i, m);
    if i < s.len() {
        if s[i] == sep && !m.quoted && !m.angle {
            assert(s.take(i).len() == i);
        } else {
            lemma_free_at(s, sep, i + 1, register_response::next_mode(m, s[i]));
            assert(s.take(k)[i] == s[i]);
        }
    }
}

proof fn lemma_split_shift(a: Seq<char>, b: Seq<char>, sep: char, start: int, i: int, m: Mode)
    requires
        0 <= start <= i <= b.len(),
    ensures
        register_response::free_split_from(a + b, sep, a.len() + start, a.len() + i, m) == register_response::free_split_from(
            b,
            sep,
            start,
            i,
            m,
        ),
    decreases b.len() - i,
{
    let s = a + b;
    if i < b.len() {
        assert(s[a.len() + i] == b[i]);
        if b[i] == sep && !m.quoted && !m.angle {
            assert(s.subrange(a.len() + start, a.len() + i) =~= b.subrange(start, i));
            lemma_split_shift(a, b, sep, i + 1, i + 1, m);
        } else {
            lemma_split_shift(a, b, sep, start, i + 1, register_response::next_mode(m, b[i]));
        }
    } else {
        assert(s.subrange(a.len() + start, s.len() as int) =~= b.subrange(start, b.len() as int));
    }
}

proof fn lemma_split_at(s: Seq<char>, sep: char, start: int, i: int, m: Mode)
    requires
        0 <= start <= i <= s.len(),
        sane(m),
    ensures
        ({
            let k = free_from(s, sep, i, m);
            register_response::free_split_from(s, sep, start, i, m) == (if k < s.len() {
                seq![s.subrange(start, k)] + register_response::free_split_from(s, sep, k + 1, k + 1, register_response::plain())
            } else {
                seq![s.subrange(start, s.len() as int)]
            })
        }),
    decreases s.len() - i,
{
    if i < s.len() && !(s[i] == sep && !m.quoted && !m.angle) {
        lemma_split_at(s, sep, start, i + 1, register_response::next_mode(m, s[i]));
    }
}

/// A text is split at its first separator, and what follows it is split anew.
proof fn lemma_split_step(s: Seq<char>, sep: char)
    ensures
        ({
            let k = free_from(s, sep, 0, register_response::plain());
            &&& 0 <= k <= s.len()
            &&& register_response::free_split(s, sep) == (if k < s.len() {
                seq![s.take(k)] + register_response::free_split(s.subrange(k + 1, s.len() as int), sep)
            } else {
                seq![s]
            })
        }),
{
    let k = free_from(s, sep, 0, register_response::plain());
    lemma_split_at(s, sep, 0, 0, register_response::plain());
    lemma_free_at(s, sep, 0, register_response::plain());
    if k < s.len() {
        let a = s.take(k + 1);
        let b = s.subrange(k + 1, s.len() as int);
        assert(s =~= a + b);
        lemma_split_shift(a, b, sep, 0, 0, register_response::plain());
        assert(s.subrange(0, k) =~= s.take(k));
    } else {
        assert(s.subrange(0, s.len() as int) =~= s);
    }
}

// ------------------------------------------------------------------- parameters

/// Parameters, each behind a semicolon.
pub open spec fn spread(list: Seq<Seq<char>>) -> Seq<char>
    decreases list.len(),
{
    if list.len() == 0 {
        Seq::empty()
    } else {
        seq![';'] + list[0] + spread(list.drop_first())
    }
}

proof fn lemma_spread_push(list: Seq<Seq<char>>, p: Seq<char>)
    ensures
        spread(list.push(p)) == spread(list).push(';') + p,
    decreases list.len(),
{
    let whole = list.push(p);
    if list.len() == 0 {
        assert(whole.drop_first() =~= Seq::empty());
        assert(spread(whole.drop_first()) =~= Seq::empty());
        assert(spread(whole) =~= spread(list).push(';') + p);
    } else {
        assert(whole.drop_first() =~= list.drop_first().push(p));
        lemma_spread_push(list.drop_first(), p);
        assert(spread(whole) =~= spread(list).push(';') + p);
    }
}

/// A parameter that can stand in a list: no separator of its own, and, unless it is
/// the last one, nothing left open.
pub open spec fn listable(list: Seq<Seq<char>>) -> bool {
    &&& forall|i: int| 0 <= i < list.len() ==> solid(#[trigger] list[i], ';')
    &&& forall|i: int| 0 <= i < list.len() - 1 ==> calm(#[trigger] list[i])
}

proof fn lemma_spread_splits(p: Seq<char>, list: Seq<Seq<char>>)
    requires
        solid(p, ';'),
        list.len() > 0 ==> calm(p),
        listable(list),
    ensures
        register_response::free_split(p + spread(list), ';') == seq![p] + list,
    decreases list.len(),
{
    let s = p + spread(list);
    lemma_split_step(s, ';');
    if list.len() == 0 {
        assert(s =~= p);
        assert(seq![p] + list =~= seq![p]);
    } else {
        let tail = spread(list);
        let rest = list.drop_first();
        assert(tail[0] == ';');
        lemma_free_concat(p, tail, ';', 0, register_response::plain());
        assert(free_from(tail, ';', 0, register_response::plain()) == 0);
        let k = p.len() as int;
        assert(s.take(k) =~= p);
        assert(s.subrange(k + 1, s.len() as int) =~= list[0] + spread(rest));
        assert forall|i: int| 0 <= i < rest.len() implies solid(#[trigger] rest[i], ';') by {
            assert(rest[i] == list[i + 1]);
        }
        assert forall|i: int| 0 <= i < rest.len() - 1 implies calm(#[trigger] rest[i]) by {
            assert(rest[i] == list[i + 1]);
        }
        lemma_spread_splits(list[0], rest);
        assert(seq![list[0]] + rest =~= list);
    }
}

/// Does a line end stand at `p`?
pub open spec fn ends_at(s: Seq<char>, p: int) -> bool {
    s[p] == '\r' && s[p + 1] == '\n'
}

/// A text without a line end in it.
pub open spec fn unbroken(s: Seq<char>) -> bool {
    forall|p: int| 0 <= p < s.len() - 1 ==> !#[trigger] ends_at(s, p)
}

proof fn lemma_unbroken_part(s: Seq<char>, i: int, j: int)
    requires
        unbroken(s),
        0 <= i <= j <= s.len(),
    ensures
        unbroken(s.subrange(i, j)),
{
    let t = s.subrange(i, j);
    assert forall|p: int| 0 <= p < t.len() - 1 implies !#[trigger] ends_at(t, p) by {
        assert(!ends_at(s, i + p));
    }
}

/// Two texts without a line end, and something between them that is none.
proof fn lemma_unbroken_join(a: Seq<char>, c: char, b: Seq<char>)
    requires
        unbroken(a),
        unbroken(b),
        c != '\r',
        c != '\n',
    ensures
        unbroken(a.push(c) + b),
        unbroken(a + (seq![c] + b)),
{
    let t = a.push(c) + b;
    assert(t =~= a + (seq![c] + b));
    assert forall|p: int| 0 <= p < t.len() - 1 implies !#[trigger] ends_at(t, p) by {
        if p + 1 < a.len() {
            assert(!ends_at(a, p));
        } else if p > a.len() {
            assert(!ends_at(b, p - a.len() - 1));
        }
    }
}

/// What holds of every text of a list.
pub open spec fn all_solid(list: Seq<Seq<char>>, sep: char) -> bool {
    forall|i: int| 0 <= i < list.len() ==> solid(#[trigger] list[i], sep)
}

pub open spec fn all_calm(list: Seq<Seq<char>>) -> bool {
    forall|i: int| 0 <= i < list.len() ==> calm(#[trigger] list[i])
}

pub open spec fn none_closes(list: Seq<Seq<char>>) -> bool {
    forall|i: int| 0 <= i < list.len() ==> !closes(#[trigger] list[i], 0, register_response::plain())
}

pub open spec fn all_unbroken(list: Seq<Seq<char>>) -> bool {
    forall|i: int| 0 <= i < list.len() ==> unbroken(#[trigger] list[i])
}

/// A semicolon outside quotes changes nothing of what surrounds the rest.
proof fn lemma_behind_semicolon(r: Seq<char>)
    ensures
        ({
            let q = seq![';'] + r;
            let m = register_response::plain();
            &&& mode_after(q, 0, m) == mode_after(r, 0, m)
            &&& closes(q, 0, m) == closes(r, 0, m)
            &&& free_from(q, ',', 0, m) == 1 + free_from(r, ',', 0, m)
        }),
{
    let a = seq![';'];
    let m = register_response::plain();
    assert((a + r)[0] == ';');
    assert(register_response::next_mode(m, ';') == m);
    lemma_mode_shift(a, r, 0, m);
    lemma_closes_shift(a, r, 0, m);
    lemma_free_shift(a, r, ',', 0, m);
}

/// What the parameters of a text are like.
proof fn lemma_pieces(s: Seq<char>)
    ensures
        ({
            let ps = register_response::free_split(s, ';');
            &&& ps.len() > 0
            &&& listable(ps)
            &&& calm(s) ==> calm(ps.last())
            &&& solid(s, ',') ==> all_solid(ps, ',')
            &&& !closes(s, 0, register_response::plain()) ==> none_closes(ps)
            &&& unbroken(s) ==> all_unbroken(ps)
        }),
    decreases s.len(),
{
    let m = register_response::plain();
    let k = free_from(s, ';', 0, m);
    let ps = register_response::free_split(s, ';');
    lemma_split_step(s, ';');
    lemma_free_at(s, ';', 0, m);
    if k < s.len() {
        let p = s.take(k);
        let r = s.subrange(k + 1, s.len() as int);
        let q = seq![';'] + r;
        let rest = register_response::free_split(r, ';');
        lemma_pieces(r);
        assert(s =~= p + q);
        lemma_behind_semicolon(r);
        lemma_mode_concat(p, q, 0, m);
        lemma_closes_concat(p, q, 0, m);
        lemma_free_concat(p, q, ',', 0, m);
        assert(ps =~= seq![p] + rest);
        assert(ps.last() == rest.last());
        if unbroken(s) {
            lemma_unbroken_part(s, 0, k);
            lemma_unbroken_part(s, k + 1, s.len() as int);
            assert(s.subrange(0, k) =~= p);
        }
        assert forall|i: int| 0 < i < ps.len() implies #[trigger] ps[i] == rest[i - 1] by {
        }
        assert(ps[0] == p);
        lemma_free_concat(r, Seq::empty(), ',', 0, m);
        assert forall|i: int| 0 <= i < ps.len() implies solid(#[trigger] ps[i], ';') by {
            if i > 0 {
                assert(solid(rest[i - 1], ';'));
            }
        }
        assert forall|i: int| 0 <= i < ps.len() - 1 implies calm(#[trigger] ps[i]) by {
            if i > 0 {
                assert(calm(rest[i - 1]));
            }
        }
    } else {
        assert(ps =~= seq![s]);
    }
}

/// What a list of parameters is like when it is written out.
proof fn lemma_spread(list: Seq<Seq<char>>)
    requires
        listable(list),
    ensures
        all_solid(list, ',') ==> solid(spread(list), ','),
        none_closes(list) ==> !closes(spread(list), 0, register_response::plain()),
        all_unbroken(list) ==> unbroken(spread(list)),
        calm(spread(list)) ==> all_calm(list),
    decreases list.len(),
{
    let m = register_response::plain();
    if list.len() > 0 {
        let p = list[0];
        let rest = list.drop_first();
        assert forall|i: int| 0 <= i < rest.len() implies #[trigger] rest[i] == list[i + 1] by {
        }
        assert(listable(rest));
        lemma_spread(rest);
        let q = p + spread(rest);
        assert(spread(list) =~= seq![';'] + q);
        lemma_behind_semicolon(q);
        lemma_mode_concat(p, spread(rest), 0, m);
        lemma_closes_concat(p, spread(rest), 0, m);
        lemma_free_concat(p, spread(rest), ',', 0, m);
        if rest.len() == 0 {
            assert(spread(rest) =~= Seq::empty());
        }
        if calm(spread(list)) {
            if rest.len() == 0 {
                assert(q =~= p);
            }
            assert forall|i: int| 0 <= i < list.len() implies calm(#[trigger] list[i]) by {
                if i > 0 {
                    assert(list[i] == rest[i - 1]);
                }
            }
        }
        if all_unbroken(list) {
            assert(unbroken(p));
            assert(all_unbroken(rest));
            let tail = spread(rest);
            if rest.len() > 0 {
                assert(tail =~= seq![';'] + tail.subrange(1, tail.len() as int));
                lemma_unbroken_part(tail, 1, tail.len() as int);
                lemma_unbroken_join(p, ';', tail.subrange(1, tail.len() as int));
            } else {
                assert(q =~= p);
            }
            lemma_unbroken_join(Seq::empty(), ';', q);
            assert(Seq::empty().push(';') + q =~= spread(list));
        }
    }
}

/// The parameters before `n` that stay.
pub open spec fn kept_list(pieces: Seq<Seq<char>>, offering: bool, n: int) -> Seq<Seq<char>>
    decreases n,
{
    if n <= 1 {
        Seq::empty()
    } else {
        let known = kept_list(pieces, offering, n - 1);
        if register_rewrite::keeps(pieces[n - 1], offering) {
            known.push(pieces[n - 1])
        } else {
            known
        }
    }
}

pub open spec fn all_kept(list: Seq<Seq<char>>, offering: bool) -> bool {
    forall|i: int| 0 <= i < list.len() ==> register_rewrite::keeps(#[trigger] list[i], offering)
}

proof fn lemma_kept(pieces: Seq<Seq<char>>, offering: bool, n: int)
    requires
        listable(pieces),
        1 <= n <= pieces.len(),
    ensures
        ({
            let kept = kept_list(pieces, offering, n);
            &&& register_rewrite::kept_upto(pieces, offering, n) == spread(kept)
            &&& listable(kept)
            &&& all_kept(kept, offering)
            &&& n < pieces.len() ==> all_calm(kept)
            &&& calm(pieces.last()) ==> all_calm(kept)
            &&& all_solid(pieces, ',') ==> all_solid(kept, ',')
            &&& none_closes(pieces) ==> none_closes(kept)
            &&& all_unbroken(pieces) ==> all_unbroken(kept)
        }),
    decreases n,
{
    if n > 1 {
        lemma_kept(pieces, offering, n - 1);
        let known = kept_list(pieces, offering, n - 1);
        lemma_spread_push(known, pieces[n - 1]);
    }
}

/// A list of parameters of which the first `m` stay and no more is kept that far.
proof fn lemma_kept_again(list: Seq<Seq<char>>, offering: bool, m: int, n: int)
    requires
        0 <= m <= list.len(),
        1 <= n <= list.len() + 1,
        forall|i: int| 0 <= i < m ==> register_rewrite::keeps(#[trigger] list[i], offering),
        forall|i: int|
            m <= i < list.len() ==> !register_rewrite::keeps(#[trigger] list[i], offering),
    ensures
        kept_list(seq![Seq::empty()] + list, offering, n) == list.take(if n - 1 < m {
            n - 1
        } else {
            m
        }),
    decreases n,
{
    let pieces = seq![Seq::<char>::empty()] + list;
    if n > 1 {
        lemma_kept_again(list, offering, m, n - 1);
        assert(pieces[n - 1] == list[n - 2]);
        if n - 2 < m {
            assert(list.take(n - 1) =~= list.take(n - 2).push(list[n - 2]));
        }
    } else {
        assert(list.take(0) =~= Seq::empty());
    }
}

// -------------------------------------------------------------- what an offer adds

/// A text of characters that neither quote nor bracket nor separate.
pub open spec fn tame(s: Seq<char>) -> bool {
    forall|i: int|
        0 <= i < s.len() ==> (#[trigger] s[i]) != '"' && s[i] != '<' && s[i] != '>' && s[i] != ';'
            && s[i] != ','
}

proof fn lemma_tame(s: Seq<char>, i: int)
    requires
        tame(s),
        0 <= i <= s.len(),
    ensures
        mode_after(s, i, register_response::plain()) == register_response::plain(),
        free_from(s, ';', i, register_response::plain()) == s.len(),
        free_from(s, ',', i, register_response::plain()) == s.len(),
    decreases s.len() - i,
{
    if i < s.len() {
        assert(register_response::next_mode(register_response::plain(), s[i])
            == register_response::plain());
        lemma_tame(s, i + 1);
    }
}

pub open spec fn in_quotes() -> Mode {
    Mode { quoted: true, escaped: false, angle: false }
}

/// A quoted text without quotes and escapes goes on to its end.
proof fn lemma_quoted(s: Seq<char>, sep: char, i: int)
    requires
        forall|k: int| 0 <= k < s.len() ==> (#[trigger] s[k]) != '"' && s[k] != '\\',
        0 <= i <= s.len(),
    ensures
        mode_after(s, i, in_quotes()) == in_quotes(),
        free_from(s, sep, i, in_quotes()) == s.len(),
    decreases s.len() - i,
{
    if i < s.len() {
        lemma_quoted(s, sep, i + 1);
    }
}

/// A name, an equals sign, and a quoted value.
proof fn lemma_quoted_parameter(name: Seq<char>, value: Seq<char>)
    requires
        tame(name),
        forall|k: int| 0 <= k < value.len() ==> (#[trigger] value[k]) != '"' && value[k] != '\\',
    ensures
        ({
            let p = name + (seq!['"'] + (value + seq!['"']));
            solid(p, ';') && solid(p, ',') && calm(p)
        }),
{
    let m = register_response::plain();
    let close = seq!['"'];
    let inner = value + close;
    let quoted = close + inner;
    let p = name + quoted;
    lemma_tame(name, 0);
    lemma_quoted(value, ';', 0);
    lemma_quoted(value, ',', 0);
    assert(close[0] == '"');
    assert(register_response::next_mode(m, '"') == in_quotes());
    assert(register_response::next_mode(in_quotes(), '"') == m);
    reveal_with_fuel(mode_after, 2);
    reveal_with_fuel(free_from, 2);
    assert(mode_after(close, 0, in_quotes()) == m);
    assert(mode_after(close, 0, m) == in_quotes());
    lemma_mode_concat(value, close, 0, in_quotes());
    lemma_free_concat(value, close, ';', 0, in_quotes());
    lemma_free_concat(value, close, ',', 0, in_quotes());
    lemma_mode_concat(close, inner, 0, m);
    lemma_free_concat(close, inner, ';', 0, m);
    lemma_free_concat(close, inner, ',', 0, m);
    lemma_mode_concat(name, quoted, 0, m);
    lemma_free_concat(name, quoted, ';', 0, m);
    lemma_free_concat(name, quoted, ',', 0, m);
}

pub open spec fn instance_parameter(instance: Seq<char>) -> Seq<char> {
    "+sip.instance="@ + (seq!['"'] + (("<"@ + instance + ">"@) + seq!['"']))
}

pub open spec fn flow_parameter(reg_id: u32) -> Seq<char> {
    "reg-id="@ + text::decimal(reg_id as nat)
}

/// A parameter is known by what stands before its equals sign.
proof fn lemma_key(key: Seq<char>, value: Seq<char>)
    requires
        key.len() > 0,
        forall|i: int| 0 <= i < key.len() ==> #[trigger] key[i] != '=',
        !text::white(key[0]),
        !text::white(key.last()),
    ensures
        text::trim(text::before(key + (seq!['='] + value), '=')) == key,
{
    let p = key + (seq!['='] + value);
    text::lemma_find(p, '=', 0);
    let k = text::find_from(p, '=', 0);
    assert(p[key.len() as int] == '=');
    if k < key.len() {
        assert(p[k] == key[k]);
    }
    assert(text::before(p, '=') =~= key);
    assert(text::trim(key) =~= key);
}

/// What an offer adds are two parameters that a second offer replaces.
proof fn lemma_offer_parameters(offer: OfferValue)
    requires
        register_rewrite::valid_instance(offer.instance),
    ensures
        ({
            let own = seq![instance_parameter(offer.instance), flow_parameter(offer.reg_id)];
            &&& register_rewrite::offer_suffix(offer) == spread(own)
            &&& all_solid(own, ';')
            &&& all_solid(own, ',')
            &&& all_calm(own)
            &&& all_unbroken(own)
            &&& forall|i: int|
                0 <= i < own.len() ==> !register_rewrite::keeps(#[trigger] own[i], true)
        }),
{
    let id = text::decimal(offer.reg_id as nat);
    let value = "<"@ + offer.instance + ">"@;
    let first = instance_parameter(offer.instance);
    let second = flow_parameter(offer.reg_id);
    let own = seq![first, second];
    reveal_strlit("+sip.instance=");
    reveal_strlit("+sip.instance");
    reveal_strlit("<");
    reveal_strlit(">");
    reveal_strlit("reg-id=");
    reveal_strlit("reg-id");
    reveal_strlit(";+sip.instance=\"<");
    reveal_strlit(">\";reg-id=");
    text::law_decimal_round_trip(offer.reg_id as nat);
    assert(tame("+sip.instance="@));
    assert forall|k: int| 0 <= k < value.len() implies (#[trigger] value[k]) != '"' && value[k]
        != '\\' by {
        if 0 < k < value.len() - 1 {
            assert(value[k] == offer.instance[k - 1]);
            assert(!register_rewrite::instance_breaker(offer.instance[k - 1]));
        }
    }
    lemma_quoted_parameter("+sip.instance="@, value);
    assert forall|i: int| 0 <= i < second.len() implies (#[trigger] second[i]) != '"' && second[i]
        != '<' && second[i] != '>' && second[i] != ';' && second[i] != ',' && second[i] != '\r' by {
        if i >= 7 {
            assert(second[i] == id[i - 7]);
            assert(text::digit(id[i - 7]));
        }
    }
    assert(tame(second));
    lemma_tame(second, 0);
    assert(spread(Seq::empty()) =~= Seq::<char>::empty());
    assert(own.drop_first() =~= seq![second]);
    assert(own.drop_first().drop_first() =~= Seq::empty());
    reveal_with_fuel(spread, 3);
    assert(spread(own) =~= seq![';'] + first + (seq![';'] + second));
    assert(register_rewrite::offer_suffix(offer) =~= seq![';'] + first + (seq![';'] + second));
    assert forall|i: int| 0 <= i < first.len() implies #[trigger] first[i] != '\r' by {
        if 16 <= i < first.len() - 2 {
            assert(first[i] == offer.instance[i - 16]);
            assert(!register_rewrite::instance_breaker(offer.instance[i - 16]));
        }
    }
    let tail = seq!['"'] + (value + seq!['"']);
    assert(first =~= "+sip.instance"@ + (seq!['='] + tail));
    assert(second =~= "reg-id"@ + (seq!['='] + id));
    lemma_key("+sip.instance"@, tail);
    lemma_key("reg-id"@, id);
    assert forall|i: int| 0 <= i < own.len() implies unbroken(#[trigger] own[i]) by {
        assert(own[i] == first || own[i] == second);
    }
}

// ------------------------------------------------------------------- the Contact

proof fn lemma_open_concat(a: Seq<char>, b: Seq<char>, i: int, m: Mode)
    requires
        0 <= i <= a.len(),
    ensures
        i <= register_response::open_from(a, i, m) <= a.len(),
        register_response::open_from(a, i, m) < a.len() ==> register_response::open_from(a + b, i, m)
            == register_response::open_from(a, i, m),
        register_response::open_from(a, i, m) == a.len() ==> register_response::open_from(
            a + b,
            i,
            m,
        ) >= a.len(),
    decreases a.len() - i,
{
    if i < a.len() {
        assert((a + b)[i] == a[i]);
        if !(a[i] == '<' && !m.quoted) {
            lemma_open_concat(a, b, i + 1, register_response::next_mode(m, a[i]));
        }
    } else {
        lemma_open_bounds(a + b, i, m);
    }
}

proof fn lemma_open_bounds(s: Seq<char>, i: int, m: Mode)
    requires
        0 <= i <= s.len(),
    ensures
        i <= register_response::open_from(s, i, m) <= s.len(),
    decreases s.len() - i,
{
    if i < s.len() && !(s[i] == '<' && !m.quoted) {
        lemma_open_bounds(s, i + 1, register_response::next_mode(m, s[i]));
    }
}

proof fn lemma_find_concat(a: Seq<char>, b: Seq<char>, c: char, i: int)
    requires
        0 <= i <= a.len(),
    ensures
        i <= text::find_from(a, c, i) <= a.len(),
        text::find_from(a, c, i) < a.len() ==> text::find_from(a + b, c, i) == text::find_from(
            a,
            c,
            i,
        ),
        text::find_from(a, c, i) == a.len() ==> text::find_from(a + b, c, i) == a.len()
            + text::find_from(b, c, 0),
    decreases a.len() - i,
{
    if i < a.len() {
        assert((a + b)[i] == a[i]);
        if a[i] != c {
            lemma_find_concat(a, b, c, i + 1);
        }
    } else {
        lemma_find_shift(a, b, c, 0);
    }
}

proof fn lemma_find_shift(a: Seq<char>, b: Seq<char>, c: char, j: int)
    requires
        0 <= j <= b.len(),
    ensures
        text::find_from(a + b, c, a.len() + j) == a.len() + text::find_from(b, c, j),
    decreases b.len() - j,
{
    if j < b.len() {
        assert((a + b)[a.len() + j] == b[j]);
        if b[j] != c {
            lemma_find_shift(a, b, c, j + 1);
        }
    }
}

proof fn lemma_closes_inside(s: Seq<char>, i: int, m: Mode)
    requires
        0 <= i <= s.len(),
        m.angle,
    ensures
        closes(s, i, m) == (text::find_from(s, '>', i) < s.len()),
    decreases s.len() - i,
{
    if i < s.len() && s[i] != '>' {
        lemma_closes_inside(s, i + 1, register_response::next_mode(m, s[i]));
    }
}

/// A URI is bracketed exactly where a bracket closes.
proof fn lemma_closes_brackets(s: Seq<char>, i: int, m: Mode)
    requires
        0 <= i <= s.len(),
        !m.angle,
    ensures
        closes(s, i, m) == (register_response::open_from(s, i, m) < s.len() && text::find_from(
            s,
            '>',
            register_response::open_from(s, i, m),
        ) < s.len()),
    decreases s.len() - i,
{
    if i < s.len() {
        let next = register_response::next_mode(m, s[i]);
        if s[i] == '<' && !m.quoted {
            lemma_closes_inside(s, i + 1, next);
        } else {
            lemma_closes_brackets(s, i + 1, next);
        }
    }
}

/// The parameters of a Contact that stay, as they are written out.
pub open spec fn kept_parameters(value: Seq<char>, end: int, offering: bool) -> Seq<char> {
    let pieces = register_response::free_split(value.subrange(end, value.len() as int), ';');
    register_rewrite::kept_upto(pieces, offering, pieces.len() as int)
}

/// A Contact that comes out as one Contact, with its URI where it was.
pub open spec fn same_contact(value: Seq<char>, offer: Option<OfferValue>) -> bool {
    register_rewrite::contact_value(value, offer) matches Ok(out) ==> {
        &&& register_response::free_split(out, ',').len() == 1
        &&& register_rewrite::contact_end(out, offer is Some) == register_rewrite::contact_end(
            value,
            offer is Some,
        )
    }
}

/// A Contact that can be rewritten again. Its quotes and brackets are closed where
/// its parameters begin, or else it comes out as one Contact with its URI where it
/// was. Where an offer is added, they are closed at the end of the parameters that
/// stay. And it does not come out as the wildcard.
pub open spec fn closed_contact(value: Seq<char>, offer: Option<OfferValue>) -> bool {
    &&& register_rewrite::contact_end(value, offer is Some) matches Some(end) ==> {
        &&& calm(value.subrange(0, end)) || same_contact(value, offer)
        &&& offer is Some ==> calm(kept_parameters(value, end, true))
    }
    &&& register_rewrite::contact_value(value, offer) matches Ok(out) ==> text::trim(out) != "*"@
}

/// The end of a Contact's URI stays where it is, whatever parameters follow.
proof fn lemma_same_end(value: Seq<char>, offering: bool, end: int, list: Seq<Seq<char>>)
    requires
        register_rewrite::contact_end(value, offering) == Some(end),
        0 <= end <= value.len(),
        calm(value.subrange(0, end)),
        listable(list),
        !closes(value, 0, register_response::plain()) ==> none_closes(list),
    ensures
        register_rewrite::contact_end(value.subrange(0, end) + spread(list), offering) == Some(end),
{
    let m = register_response::plain();
    let head = value.subrange(0, end);
    let rest = value.subrange(end, value.len() as int);
    let tail = spread(list);
    let out = head + tail;
    assert(value =~= head + rest);
    lemma_closes_brackets(value, 0, m);
    lemma_closes_brackets(out, 0, m);
    lemma_closes_concat(head, rest, 0, m);
    lemma_closes_concat(head, tail, 0, m);
    lemma_open_bounds(value, 0, m);
    lemma_open_bounds(out, 0, m);
    lemma_open_concat(head, rest, 0, m);
    lemma_open_concat(head, tail, 0, m);
    let open = register_response::open_from(value, 0, m);
    match register_response::brackets(value) {
        Some(_) => {
            text::lemma_find(value, '>', open);
            assert(open < end);
            text::lemma_find(rest, '>', 0);
            lemma_find_concat(head, rest, '>', open);
            lemma_find_concat(head, tail, '>', open);
        },
        None => {
            lemma_spread(list);
            assert(register_response::brackets(out) is None);
            text::lemma_find(rest, ';', 0);
            lemma_find_concat(head, rest, ';', 0);
            lemma_find_concat(head, tail, ';', 0);
            if list.len() > 0 {
                assert(tail[0] == ';');
            }
            assert(text::find_from(tail, ';', 0) == 0);
        },
    }
}

/// A Contact that was rewritten comes out the same when it is rewritten again.
proof fn lemma_contact_again(value: Seq<char>, offer: Option<OfferValue>)
    requires
        register_rewrite::contact_value(value, offer) is Ok,
        offer matches Some(o) ==> register_rewrite::valid_instance(o.instance),
        closed_contact(value, offer),
    ensures
        ({
            let out = register_rewrite::contact_value(value, offer)->Ok_0;
            &&& register_rewrite::contact_value(out, offer) == Ok::<
                Seq<char>,
                register_rewrite::RewriteError,
            >(out)
            &&& unbroken(value) ==> unbroken(out)
        }),
{
    let m = register_response::plain();
    let offering = offer is Some;
    let end = register_rewrite::contact_end(value, offering)->0;
    let open = register_response::open_from(value, 0, m);
    lemma_open_bounds(value, 0, m);
    text::lemma_find(value, ';', 0);
    text::lemma_find(value, '>', open);
    assert(0 <= end <= value.len());
    let head = value.subrange(0, end);
    let rest = value.subrange(end, value.len() as int);
    assert(value =~= head + rest);
    let pieces = register_response::free_split(rest, ';');
    let kept = kept_list(pieces, offering, pieces.len() as int);
    lemma_split_step(value, ',');
    let k = free_from(value, ',', 0, m);
    if k < value.len() {
        lemma_split_step(value.subrange(k + 1, value.len() as int), ',');
    }
    assert(solid(value, ','));
    lemma_mode_concat(head, rest, 0, m);
    lemma_free_concat(head, rest, ',', 0, m);
    lemma_free_concat(rest, Seq::empty(), ',', 0, m);
    lemma_closes_concat(head, rest, 0, m);
    lemma_pieces(rest);
    lemma_kept(pieces, offering, pieces.len() as int);
    lemma_spread(kept);
    let list = match offer {
        Some(o) => kept.push(instance_parameter(o.instance)).push(flow_parameter(o.reg_id)),
        None => kept,
    };
    let tail = spread(list);
    let out = head + tail;
    match offer {
        Some(o) => {
            let first = instance_parameter(o.instance);
            let second = flow_parameter(o.reg_id);
            let own = seq![first, second];
            lemma_offer_parameters(o);
            lemma_spread_push(kept, first);
            lemma_spread_push(kept.push(first), second);
            lemma_spread_push(Seq::empty(), first);
            lemma_spread_push(seq![first], second);
            assert(Seq::empty().push(first) =~= seq![first]);
            assert(seq![first].push(second) =~= own);
            assert(own[0] == first && own[1] == second);
            assert(spread(Seq::empty()) =~= Seq::<char>::empty());
            assert(head + spread(kept) + register_rewrite::offer_suffix(o) =~= out);
        },
        None => {},
    }
    assert(register_rewrite::contact_value(value, offer)->Ok_0 == out);
    let count = kept.len() as int;
    assert forall|i: int| 0 <= i < list.len() implies (#[trigger] list[i]) == (if i < count {
        kept[i]
    } else if i == count {
        instance_parameter(offer->0.instance)
    } else {
        flow_parameter(offer->0.reg_id)
    }) by {
    }
    if offer is Some {
        let own = seq![
            instance_parameter(offer->0.instance),
            flow_parameter(offer->0.reg_id),
        ];
        assert(own[0] == list[count] && own[1] == list[count + 1]);
    }
    assert(listable(list));
    if unbroken(value) {
        lemma_unbroken_part(value, 0, end);
        lemma_unbroken_part(value, end, value.len() as int);
        assert(all_unbroken(list));
        lemma_spread(list);
        if list.len() > 0 {
            let behind = tail.subrange(1, tail.len() as int);
            assert(tail =~= seq![';'] + behind);
            lemma_unbroken_part(tail, 1, tail.len() as int);
            lemma_unbroken_join(head, ';', behind);
        } else {
            assert(out =~= head);
        }
    }
    // the parameters read back
    let none = Seq::<char>::empty();
    let again = seq![none] + list;
    lemma_tame(none, 0);
    lemma_spread_splits(none, list);
    assert(none + tail =~= tail);
    assert forall|i: int| 0 <= i < again.len() implies (#[trigger] again[i]) == (if i == 0 {
        none
    } else {
        list[i - 1]
    }) by {
    }
    assert(listable(again));
    lemma_kept_again(list, offering, count, again.len() as int);
    lemma_kept(again, offering, again.len() as int);
    assert(list.take(count) =~= kept);
    // and so does the rest
    if calm(head) {
        assert(all_solid(list, ','));
        if !closes(value, 0, m) {
            assert(register_response::brackets(value) is None) by {
                lemma_closes_brackets(value, 0, m);
            }
            assert(!offering);
            assert(none_closes(list));
        }
        lemma_same_end(value, offering, end, list);
        lemma_spread(list);
        lemma_free_concat(head, tail, ',', 0, m);
        lemma_split_step(out, ',');
        assert(solid(out, ','));
    }
    assert(out.subrange(0, end) =~= head);
    assert(out.subrange(end, out.len() as int) =~= tail);
}

// --------------------------------------------------------------------- the options

/// A token as a capability list holds it.
pub open spec fn proper(t: Seq<char>) -> bool {
    &&& t.len() > 0
    &&& text::trim(t) == t
    &&& unbroken(t)
    &&& forall|i: int| 0 <= i < t.len() ==> #[trigger] t[i] != ','
}

/// Tokens as a capability list holds them: none twice, and none of the outbound
/// option where that is dropped.
pub open spec fn tidy(tokens: Seq<Seq<char>>, legacy: bool) -> bool {
    &&& forall|i: int| 0 <= i < tokens.len() ==> proper(#[trigger] tokens[i])
    &&& forall|i: int|
        0 <= i < tokens.len() ==> !(legacy && text::alike(#[trigger] tokens[i], "outbound"@))
    &&& forall|i: int, j: int|
        0 <= i < j < tokens.len() ==> !text::alike(#[trigger] tokens[i], #[trigger] tokens[j])
}

proof fn lemma_trim_part(s: Seq<char>)
    ensures
        ({
            let lo = text::skip_white(s, 0);
            let hi = text::back_white(s, lo, s.len() as int);
            &&& 0 <= lo <= hi <= s.len()
            &&& text::trim(s) == s.subrange(lo, hi)
        }),
        unbroken(s) ==> unbroken(text::trim(s)),
{
    let lo = text::skip_white(s, 0);
    text::lemma_skip_white(s, 0);
    text::lemma_back_white(s, lo, s.len() as int);
    if unbroken(s) {
        lemma_unbroken_part(s, lo, text::back_white(s, lo, s.len() as int));
    }
}

proof fn lemma_tidy_option(tokens: Seq<Seq<char>>, value: Seq<char>, legacy: bool)
    requires
        tidy(tokens, legacy),
        unbroken(value),
        forall|i: int| 0 <= i < value.len() ==> #[trigger] value[i] != ',',
        !(legacy && text::alike(text::trim(value), "outbound"@)),
    ensures
        tidy(register_rewrite::with_option(tokens, value), legacy),
{
    let token = text::trim(value);
    lemma_trim_part(value);
    text::lemma_trim_twice(value);
    if token.len() > 0 && !register_rewrite::listed(tokens, token) {
        let after = tokens.push(token);
        let lo = text::skip_white(value, 0);
        assert forall|i: int| 0 <= i < token.len() implies #[trigger] token[i] != ',' by {
            assert(token[i] == value[lo + i]);
        }
        assert(proper(token));
        assert forall|i: int, j: int| 0 <= i < j < after.len() implies !text::alike(
            #[trigger] after[i],
            #[trigger] after[j],
        ) by {
            assert(after[i] == tokens[i]);
        }
    }
}

proof fn lemma_split_parts(s: Seq<char>, c: char, i: int)
    requires
        0 <= i <= s.len(),
        unbroken(s),
    ensures
        forall|k: int, j: int|
            0 <= k < text::split_from(s, c, i).len() && 0 <= j < text::split_from(s, c, i)[k].len()
                ==> #[trigger] text::split_from(s, c, i)[k][j] != c,
        all_unbroken(text::split_from(s, c, i)),
    decreases s.len() - i,
{
    let at = text::find_from(s, c, i);
    text::lemma_find(s, c, i);
    let all = text::split_from(s, c, i);
    lemma_unbroken_part(s, i, at);
    if at < s.len() {
        lemma_split_parts(s, c, at + 1);
        let rest = text::split_from(s, c, at + 1);
        assert(all =~= seq![s.subrange(i, at)] + rest);
        assert forall|k: int, j: int| 0 <= k < all.len() && 0 <= j < all[k].len() implies
            #[trigger] all[k][j] != c by {
            if k == 0 {
                assert(all[k][j] == s[i + j]);
            } else {
                assert(all[k] == rest[k - 1]);
            }
        }
    } else {
        assert(all =~= seq![s.subrange(i, at)]);
        assert forall|k: int, j: int| 0 <= k < all.len() && 0 <= j < all[k].len() implies
            #[trigger] all[k][j] != c by {
            assert(all[k][j] == s[i + j]);
        }
    }
}

proof fn lemma_tidy_options(tokens: Seq<Seq<char>>, value: Seq<char>, legacy: bool, n: int)
    requires
        tidy(tokens, legacy),
        unbroken(value),
        0 <= n <= text::split(value, ',').len(),
    ensures
        tidy(
            register_rewrite::with_options_upto(tokens, text::split(value, ','), legacy, n),
            legacy,
        ),
    decreases n,
{
    let pieces = text::split(value, ',');
    if n > 0 {
        lemma_tidy_options(tokens, value, legacy, n - 1);
        lemma_split_parts(value, ',', 0);
        let piece = pieces[n - 1];
        let part = text::trim(piece);
        text::lemma_trim_twice(piece);
        lemma_trim_part(piece);
        let lo = text::skip_white(piece, 0);
        assert forall|i: int| 0 <= i < part.len() implies #[trigger] part[i] != ',' by {
            assert(part[i] == piece[lo + i]);
            assert(pieces[n - 1][lo + i] != ',');
        }
        let known = register_rewrite::with_options_upto(tokens, pieces, legacy, n - 1);
        if !(legacy && text::alike(part, "outbound"@)) {
            lemma_tidy_option(known, part, legacy);
        }
    }
}

proof fn lemma_split_append(a: Seq<char>, b: Seq<char>, c: char, i: int)
    requires
        0 <= i <= a.len(),
        forall|k: int| 0 <= k < b.len() ==> #[trigger] b[k] != c,
    ensures
        text::split_from(a + (seq![c] + b), c, i) == text::split_from(a, c, i).push(b),
    decreases a.len() - i,
{
    let t = seq![c] + b;
    let s = a + t;
    let at = text::find_from(a, c, i);
    lemma_find_concat(a, t, c, i);
    assert(t[0] == c);
    text::lemma_find(t, c, 0);
    assert(s.subrange(i, at) =~= a.subrange(i, at));
    if at < a.len() {
        lemma_split_append(a, b, c, at + 1);
        assert(text::split_from(s, c, i) =~= text::split_from(a, c, i).push(b));
    } else {
        assert(text::find_from(s, c, i) == a.len());
        let behind = a.len() as int + 1;
        text::lemma_find(s, c, behind);
        let next = text::find_from(s, c, behind);
        if next < s.len() {
            assert(s[next] == b[next - behind]);
        }
        assert(s.subrange(behind, s.len() as int) =~= b);
        assert(text::split_from(s, c, behind) =~= seq![b]);
        assert(text::split_from(a, c, i) =~= seq![a.subrange(i, at)]);
        assert(text::split_from(s, c, i) =~= seq![s.subrange(i, at)] + text::split_from(
            s,
            c,
            behind,
        ));
        assert(text::split_from(s, c, i) =~= text::split_from(a, c, i).push(b));
    }
}

/// Tokens, each behind a space.
pub open spec fn spaced(tokens: Seq<Seq<char>>) -> Seq<Seq<char>> {
    Seq::new(tokens.len(), |i: int| seq![' '] + tokens[i])
}

proof fn lemma_joined_splits(tokens: Seq<Seq<char>>, legacy: bool)
    requires
        tidy(tokens, legacy),
        tokens.len() > 0,
    ensures
        text::split(seq![' '] + register_rewrite::comma_joined(tokens), ',') == spaced(tokens),
        unbroken(register_rewrite::comma_joined(tokens)),
    decreases tokens.len(),
{
    let space = seq![' '];
    let last = tokens.last();
    assert(proper(last));
    let own = space + last;
    assert forall|k: int| 0 <= k < own.len() implies #[trigger] own[k] != ',' by {
        if k > 0 {
            assert(own[k] == last[k - 1]);
        }
    }
    if tokens.len() == 1 {
        text::lemma_find(own, ',', 0);
        assert(own.subrange(0, own.len() as int) =~= own);
        assert(text::split(own, ',') =~= spaced(tokens));
    } else {
        let rest = tokens.drop_last();
        assert forall|i: int| 0 <= i < rest.len() implies #[trigger] rest[i] == tokens[i] by {
        }
        assert(tidy(rest, legacy));
        lemma_joined_splits(rest, legacy);
        let before = register_rewrite::comma_joined(rest);
        let whole = register_rewrite::comma_joined(tokens);
        assert(whole =~= before + (seq![','] + own));
        assert(space + whole =~= (space + before) + (seq![','] + own));
        lemma_split_append(space + before, own, ',', 0);
        assert(spaced(tokens) =~= spaced(rest).push(own));
        lemma_unbroken_join(Seq::empty(), ' ', last);
        assert(Seq::empty().push(' ') + last =~= own);
        lemma_unbroken_join(before, ',', own);
    }
}

proof fn lemma_trim_spaced(t: Seq<char>)
    requires
        t.len() > 0,
        text::trim(t) == t,
    ensures
        text::trim(seq![' '] + t) == t,
{
    let s = seq![' '] + t;
    let lo = text::skip_white(t, 0);
    let hi = text::back_white(t, lo, t.len() as int);
    lemma_trim_part(t);
    text::lemma_skip_white(t, 0);
    text::lemma_back_white(t, lo, t.len() as int);
    assert(lo == 0 && hi == t.len());
    assert(!text::white(t[0]) && !text::white(t.last()));
    assert(s[0] == ' ' && s[1] == t[0] && s.last() == t.last());
    reveal_with_fuel(text::skip_white, 3);
    assert(text::skip_white(s, 0) == 1);
    assert(text::back_white(s, 1, s.len() as int) == s.len());
    assert(text::trim(s) =~= t);
}

/// The tokens of a list that was written out read back.
proof fn lemma_options_read_back(tokens: Seq<Seq<char>>, legacy: bool, n: int)
    requires
        tidy(tokens, legacy),
        0 <= n <= tokens.len(),
    ensures
        register_rewrite::with_options_upto(Seq::empty(), spaced(tokens), legacy, n)
            == tokens.take(n),
    decreases n,
{
    if n > 0 {
        lemma_options_read_back(tokens, legacy, n - 1);
        let t = tokens[n - 1];
        assert(proper(t));
        assert(spaced(tokens)[n - 1] == seq![' '] + t);
        lemma_trim_spaced(t);
        let known = tokens.take(n - 1);
        if register_rewrite::listed(known, t) {
            let i = choose|i: int| 0 <= i < known.len() && text::alike(#[trigger] known[i], t);
            assert(known[i] == tokens[i]);
            assert(text::alike(tokens[i], tokens[n - 1]));
        }
        assert(tokens.take(n) =~= known.push(t));
    } else {
        assert(tokens.take(0) =~= Seq::empty());
    }
}

// ------------------------------------------------------------------------ the lines

/// A line that rewriting leaves as it is.
pub open spec fn stays(line: Seq<char>, offer: Option<OfferValue>) -> bool {
    &&& !register_rewrite::is_option_line(line)
    &&& register_rewrite::is_contact_line(line) ==> {
        let (raw, value) = text::cut(line, ':')->0;
        &&& text::trim(raw) == raw
        &&& register_rewrite::contact_value(value, offer) == Ok::<
            Seq<char>,
            register_rewrite::RewriteError,
        >(value)
    }
}

pub open spec fn all_stay(lines: Seq<Seq<char>>, offer: Option<OfferValue>) -> bool {
    forall|i: int| 0 <= i < lines.len() ==> stays(#[trigger] lines[i], offer)
}

/// Lines that read back when they are written out: none has a line end in it or
/// continues another, and only the first one can be empty.
pub open spec fn readable(lines: Seq<Seq<char>>) -> bool {
    &&& all_unbroken(lines)
    &&& forall|i: int| 0 <= i < lines.len() ==> !register_rewrite::folded(#[trigger] lines[i])
    &&& forall|i: int| 1 <= i < lines.len() ==> (#[trigger] lines[i]).len() > 0
}

/// Contacts that can be rewritten again.
pub open spec fn contacts_closed(lines: Seq<Seq<char>>, offer: Option<OfferValue>) -> bool {
    forall|i: int|
        0 <= i < lines.len() && register_rewrite::is_contact_line(#[trigger] lines[i])
            ==> closed_contact((text::cut(lines[i], ':')->0).1, offer)
}

proof fn lemma_contact_count(lines: Seq<Seq<char>>, line: Seq<char>, n: int)
    requires
        0 <= n <= lines.len(),
    ensures
        register_rewrite::contact_lines(lines.push(line), n) == register_rewrite::contact_lines(
            lines,
            n,
        ),
    decreases n,
{
    if n > 0 {
        lemma_contact_count(lines, line, n - 1);
        assert(lines.push(line)[n - 1] == lines[n - 1]);
    }
}

/// A line of a request is put out as one that stays.
proof fn lemma_line_settles(g: register_rewrite::Gathered, line: Seq<char>, offer: Option<OfferValue>)
    requires
        register_rewrite::gather(g, line, offer) is Ok,
        offer matches Some(o) ==> register_rewrite::valid_instance(o.instance),
        unbroken(line),
        !register_rewrite::folded(line),
        register_rewrite::is_contact_line(line) ==> closed_contact(
            (text::cut(line, ':')->0).1,
            offer,
        ),
    ensures
        ({
            let after = register_rewrite::gather(g, line, offer)->Ok_0;
            let put = after.lines.last();
            if register_rewrite::is_option_line(line) {
                &&& after.lines == g.lines
                &&& after.contacts == g.contacts
            } else {
                &&& after.lines == g.lines.push(put)
                &&& after.contacts == g.contacts + (if register_rewrite::is_contact_line(put) {
                    1int
                } else {
                    0
                })
                &&& stays(put, offer)
                &&& unbroken(put)
                &&& !register_rewrite::folded(put)
                &&& line.len() > 0 ==> put.len() > 0
            }
        }),
{
    if register_rewrite::is_contact_line(line) {
        let (raw, value) = text::cut(line, ':')->0;
        let name = text::trim(raw);
        let contact = register_rewrite::contact_value(value, offer)->Ok_0;
        let put = name.push(':') + contact;
        let k = text::find_from(line, ':', 0);
        text::lemma_find(line, ':', 0);
        lemma_unbroken_part(line, 0, k);
        lemma_unbroken_part(line, k + 1, line.len() as int);
        lemma_contact_again(value, offer);
        register_rewrite::lemma_renamed_line(line, contact);
        lemma_trim_part(raw);
        lemma_unbroken_join(name, ':', contact);
        assert(register_rewrite::gather(g, line, offer)->Ok_0.lines =~= g.lines.push(put));
        if name.len() > 0 {
            let lo = text::skip_white(raw, 0);
            text::lemma_skip_white(raw, 0);
            assert(put[0] == name[0] && name[0] == raw[lo]);
        } else {
            assert(put[0] == ':');
        }
    } else if !register_rewrite::is_option_line(line) {
        assert(register_rewrite::gather(g, line, offer)->Ok_0.lines =~= g.lines.push(line));
    }
}

proof fn lemma_gathered(lines: Seq<Seq<char>>, offer: Option<OfferValue>, n: int)
    requires
        0 <= n <= lines.len(),
        register_rewrite::gathered_upto(lines, offer, n) is Ok,
        offer matches Some(o) ==> register_rewrite::valid_instance(o.instance),
        readable(lines),
        contacts_closed(lines, offer),
    ensures
        ({
            let g = register_rewrite::gathered_upto(lines, offer, n)->Ok_0;
            &&& g.lines.len() <= n
            &&& all_stay(g.lines, offer)
            &&& readable(g.lines)
            &&& register_rewrite::contact_lines(g.lines, g.lines.len() as int) == g.contacts
            &&& tidy(g.supported, offer is None)
            &&& tidy(g.require, offer is None)
        }),
    decreases n,
{
    if n > 0 {
        lemma_gathered(lines, offer, n - 1);
        let line = lines[n - 1];
        let before = register_rewrite::gathered_upto(lines, offer, n - 1)->Ok_0;
        let after = register_rewrite::gathered_upto(lines, offer, n)->Ok_0;
        lemma_line_settles(before, line, offer);
        if register_rewrite::is_option_line(line) {
            let (raw, value) = text::cut(line, ':')->0;
            let k = text::find_from(line, ':', 0);
            text::lemma_find(line, ':', 0);
            lemma_unbroken_part(line, k + 1, line.len() as int);
            let count = text::split(value, ',').len() as int;
            lemma_tidy_options(before.supported, value, offer is None, count);
            lemma_tidy_options(before.require, value, offer is None, count);
        } else {
            let put = after.lines.last();
            lemma_contact_count(before.lines, put, before.lines.len() as int);
            let all = after.lines;
            assert forall|i: int| 0 <= i < all.len() - 1 implies #[trigger] all[i]
                == before.lines[i] by {
            }
            assert(all[all.len() - 1] == put);
        }
    }
}

/// Lines that stay are gathered as they are, whatever follows them.
proof fn lemma_gathered_again(
    list: Seq<Seq<char>>,
    extra: Seq<Seq<char>>,
    offer: Option<OfferValue>,
    n: int,
)
    requires
        all_stay(list, offer),
        0 <= n <= list.len(),
    ensures
        register_rewrite::gathered_upto(list + extra, offer, n) is Ok,
        ({
            let g = register_rewrite::gathered_upto(list + extra, offer, n)->Ok_0;
            &&& g.lines == list.take(n)
            &&& g.contacts == register_rewrite::contact_lines(list, n)
            &&& g.supported == Seq::<Seq<char>>::empty()
            &&& g.require == Seq::<Seq<char>>::empty()
        }),
    decreases n,
{
    if n > 0 {
        lemma_gathered_again(list, extra, offer, n - 1);
        let line = list[n - 1];
        assert((list + extra)[n - 1] == line);
        assert(stays(line, offer));
        assert(list.take(n) =~= list.take(n - 1).push(line));
        if register_rewrite::is_contact_line(line) {
            let (raw, value) = text::cut(line, ':')->0;
            let k = text::find_from(line, ':', 0);
            text::lemma_find(line, ':', 0);
            assert(raw.push(':') + value =~= line);
        }
    } else {
        assert(list.take(0) =~= Seq::empty());
    }
}

/// A capability list that was written out is gathered as it was.
proof fn lemma_list_gathered(
    g: register_rewrite::Gathered,
    tokens: Seq<Seq<char>>,
    offer: Option<OfferValue>,
)
    requires
        tidy(tokens, offer is None),
        tokens.len() > 0,
    ensures
        ({
            let line = "Supported: "@ + register_rewrite::comma_joined(tokens);
            &&& g.supported == Seq::<Seq<char>>::empty() ==> register_rewrite::gather(g, line, offer)
                == Ok::<_, register_rewrite::RewriteError>(
                register_rewrite::Gathered { supported: tokens, ..g },
            )
            &&& unbroken(line)
            &&& !register_rewrite::folded(line)
            &&& line.len() > 0
        }),
        ({
            let line = "Require: "@ + register_rewrite::comma_joined(tokens);
            &&& g.require == Seq::<Seq<char>>::empty() ==> register_rewrite::gather(g, line, offer)
                == Ok::<_, register_rewrite::RewriteError>(
                register_rewrite::Gathered { require: tokens, ..g },
            )
            &&& unbroken(line)
            &&& !register_rewrite::folded(line)
            &&& line.len() > 0
        }),
{
    let legacy = offer is None;
    let joined = register_rewrite::comma_joined(tokens);
    let value = seq![' '] + joined;
    reveal_strlit("Supported: ");
    reveal_strlit("Supported");
    reveal_strlit("Require: ");
    reveal_strlit("Require");
    reveal_strlit("Contact");
    reveal_strlit("m");
    reveal_strlit("k");
    lemma_joined_splits(tokens, legacy);
    lemma_options_read_back(tokens, legacy, tokens.len() as int);
    assert(tokens.take(tokens.len() as int) =~= tokens);
    assert(spaced(tokens).len() == tokens.len());
    assert("Supported: "@ + joined =~= "Supported"@.push(':') + value);
    assert("Require: "@ + joined =~= "Require"@.push(':') + value);
    register_rewrite::lemma_first_colon("Supported"@, value);
    register_rewrite::lemma_first_colon("Require"@, value);
    assert(text::trim("Supported"@) =~= "Supported"@);
    assert(text::trim("Require"@) =~= "Require"@);
    // the names are told apart by their length or their first letter
    assert(text::lower_all("Supported"@).len() == 9);
    assert(text::lower_all("Require"@).len() == 7 && text::lower_all("Require"@)[0] == 'r');
    assert(text::lower_all("Contact"@).len() == 7 && text::lower_all("Contact"@)[0] == 'c');
    assert(text::lower_all("m"@).len() == 1);
    assert(text::lower_all("k"@).len() == 1);
    lemma_unbroken_join(Seq::empty(), ' ', joined);
    assert(Seq::empty().push(' ') + joined =~= value);
    assert(unbroken("Supported"@));
    assert(unbroken("Require"@));
    lemma_unbroken_join("Supported"@, ':', value);
    lemma_unbroken_join("Require"@, ':', value);
}

/// Options that are listed already are not listed again.
proof fn lemma_offered_again(tokens: Seq<Seq<char>>, offer: Option<OfferValue>)
    ensures
        ({
            let all = register_rewrite::offered_supported(tokens, offer);
            register_rewrite::offered_supported(all, offer) == all
        }),
        ({
            let all = register_rewrite::offered_require(tokens, offer);
            register_rewrite::offered_require(all, offer) == all
        }),
{
    if let Some(o) = offer {
        register_rewrite::law_offer_lists_its_options(tokens, o);
        register_rewrite::lemma_names_are_trimmed();
    }
}

proof fn lemma_offered_tidy(tokens: Seq<Seq<char>>, offer: Option<OfferValue>)
    requires
        tidy(tokens, offer is None),
    ensures
        tidy(register_rewrite::offered_supported(tokens, offer), offer is None),
        tidy(register_rewrite::offered_require(tokens, offer), offer is None),
{
    if offer is Some {
        reveal_strlit("path");
        reveal_strlit("outbound");
        assert(unbroken("path"@));
        assert(unbroken("outbound"@));
        lemma_tidy_option(tokens, "path"@, false);
        lemma_tidy_option(register_rewrite::with_option(tokens, "path"@), "outbound"@, false);
        lemma_tidy_option(tokens, "outbound"@, false);
    }
}

/// Header lines that were rewritten come out the same when they are rewritten again.
proof fn lemma_lines_again(lines: Seq<Seq<char>>, offer: Option<OfferValue>)
    requires
        register_rewrite::rewritten_lines(lines, offer) is Ok,
        offer matches Some(o) ==> register_rewrite::valid_instance(o.instance),
        readable(lines),
        contacts_closed(lines, offer),
    ensures
        ({
            let out = register_rewrite::rewritten_lines(lines, offer)->Ok_0;
            &&& out.len() > 0
            &&& readable(out)
            &&& register_rewrite::rewritten_lines(out, offer) == Ok::<
                Seq<Seq<char>>,
                register_rewrite::RewriteError,
            >(out)
        }),
{
    let n = lines.len() as int;
    let g = register_rewrite::gathered_upto(lines, offer, n)->Ok_0;
    let out = register_rewrite::finished(g, offer);
    let supported = register_rewrite::offered_supported(g.supported, offer);
    let require = register_rewrite::offered_require(g.require, offer);
    lemma_gathered(lines, offer, n);
    lemma_offered_tidy(g.supported, offer);
    lemma_offered_tidy(g.require, offer);
    lemma_offered_again(g.supported, offer);
    lemma_offered_again(g.require, offer);
    let count = g.lines.len() as int;
    let first = "Supported: "@ + register_rewrite::comma_joined(supported);
    let second = "Require: "@ + register_rewrite::comma_joined(require);
    let none = Seq::<Seq<char>>::empty();
    let one = if supported.len() > 0 {
        seq![first]
    } else {
        none
    };
    let two = if require.len() > 0 {
        one.push(second)
    } else {
        one
    };
    assert(out =~= g.lines + two);
    lemma_gathered_again(g.lines, two, offer, count);
    assert(g.lines.take(count) =~= g.lines);
    assert(count > 0);
    let start = register_rewrite::gathered_upto(out, offer, count)->Ok_0;
    let middle = register_rewrite::Gathered { supported, ..start };
    let end = register_rewrite::Gathered { require, ..middle };
    if supported.len() > 0 {
        lemma_list_gathered(start, supported, offer);
        assert(out[count] == first);
        assert(register_rewrite::gathered_upto(out, offer, count + 1) == Ok::<
            _,
            register_rewrite::RewriteError,
        >(middle));
    } else {
        assert(supported =~= none);
    }
    if require.len() > 0 {
        lemma_list_gathered(middle, require, offer);
        let at = count + one.len();
        assert(out[at] == second);
        assert(register_rewrite::gathered_upto(out, offer, at + 1) == Ok::<
            _,
            register_rewrite::RewriteError,
        >(end));
    } else {
        assert(require =~= none);
    }
    assert(register_rewrite::gathered_upto(out, offer, out.len() as int) == Ok::<
        _,
        register_rewrite::RewriteError,
    >(end));
    assert forall|i: int| 0 <= i < out.len() implies (#[trigger] out[i] == (if i < count {
        g.lines[i]
    } else {
        two[i - count]
    })) by {
    }
    assert(forall|i: int| 0 <= i < two.len() ==> (#[trigger] two[i] == first || two[i] == second));
    assert(readable(out));
}

// ------------------------------------------------------------------------- the text

proof fn lemma_line_end(s: Seq<char>, k: int)
    ensures
        text::at(s, register_rewrite::crlf(), k) == (0 <= k && k + 2 <= s.len() && ends_at(s, k)),
{
    if 0 <= k && k + 2 <= s.len() {
        let part = s.subrange(k, k + 2);
        assert(part[0] == s[k] && part[1] == s[k + 1]);
        if ends_at(s, k) {
            assert(part =~= register_rewrite::crlf());
        }
    }
}

proof fn lemma_blank_line(s: Seq<char>, k: int)
    ensures
        text::at(s, register_rewrite::blank_line(), k) == (0 <= k && k + 4 <= s.len() && ends_at(
            s,
            k,
        ) && ends_at(s, k + 2)),
{
    if 0 <= k && k + 4 <= s.len() {
        let part = s.subrange(k, k + 4);
        assert(part[0] == s[k] && part[1] == s[k + 1] && part[2] == s[k + 2] && part[3] == s[k
            + 3]);
        if ends_at(s, k) && ends_at(s, k + 2) {
            assert(part =~= register_rewrite::blank_line());
        }
    }
}

/// What is found is the first.
proof fn lemma_first_text(s: Seq<char>, p: Seq<char>, i: int)
    requires
        0 <= i,
    ensures
        text::find_text_from(s, p, i) matches Some(k) ==> i <= k && text::at(s, p, k) && forall|j: int|
            i <= j < k ==> !#[trigger] text::at(s, p, j),
        text::find_text_from(s, p, i) is None ==> forall|j: int|
            i <= j ==> !#[trigger] text::at(s, p, j),
    decreases s.len() + 1 - i,
{
    if i <= s.len() && !text::at(s, p, i) {
        lemma_first_text(s, p, i + 1);
    }
    if i > s.len() {
        text::lemma_find_text(s, p, i);
    }
}

/// A first place is the one that is found.
proof fn lemma_found(s: Seq<char>, p: Seq<char>, i: int, k: int)
    requires
        0 <= i <= k,
        text::at(s, p, k),
        forall|j: int| i <= j < k ==> !#[trigger] text::at(s, p, j),
    ensures
        text::find_text_from(s, p, i) == Some(k),
{
    lemma_first_text(s, p, i);
    match text::find_text_from(s, p, i) {
        Some(found) => {
            if found < k {
                assert(!text::at(s, p, found));
            } else if found > k {
                assert(!text::at(s, p, k));
            }
        },
        None => {
            assert(!text::at(s, p, k));
        },
    }
}

proof fn lemma_lines_append(a: Seq<char>, b: Seq<char>, i: int)
    requires
        0 <= i <= a.len(),
        unbroken(b),
    ensures
        register_rewrite::crlf_split_from(a + (register_rewrite::crlf() + b), i)
            == register_rewrite::crlf_split_from(a, i).push(b),
    decreases a.len() - i,
{
    let end = register_rewrite::crlf();
    let t = end + b;
    let s = a + t;
    lemma_first_text(a, end, i);
    assert forall|j: int| i <= j < a.len() - 1 implies text::at(s, end, j) == text::at(a, end, j) by {
        lemma_line_end(s, j);
        lemma_line_end(a, j);
        assert(s[j] == a[j] && s[j + 1] == a[j + 1]);
    }
    match text::find_text_from(a, end, i) {
        Some(k) => {
            lemma_line_end(a, k);
            assert(text::at(s, end, k) == text::at(a, end, k));
            lemma_found(s, end, i, k);
            assert(s.subrange(i, k) =~= a.subrange(i, k));
            lemma_lines_append(a, b, k + 2);
            assert(register_rewrite::crlf_split_from(s, i)
                =~= register_rewrite::crlf_split_from(a, i).push(b));
        },
        None => {
            let k = a.len() as int;
            lemma_line_end(s, k);
            assert(s[k] == '\r' && s[k + 1] == '\n');
            assert forall|j: int| i <= j < k implies !#[trigger] text::at(s, end, j) by {
                lemma_line_end(s, j);
                if j < k - 1 {
                    assert(!text::at(a, end, j));
                } else {
                    assert(s[j + 1] == '\r');
                }
            }
            lemma_found(s, end, i, k);
            lemma_first_text(s, end, k + 2);
            match text::find_text_from(s, end, k + 2) {
                Some(j) => {
                    lemma_line_end(s, j);
                    assert(s[j] == b[j - k - 2] && s[j + 1] == b[j - k - 1]);
                    assert(ends_at(b, j - k - 2));
                },
                None => {},
            }
            assert(s.subrange(i, k) =~= a.subrange(i, k));
            assert(s.subrange(k + 2, s.len() as int) =~= b);
            assert(register_rewrite::crlf_split_from(s, k + 2) =~= seq![b]);
            assert(register_rewrite::crlf_split_from(a, i) =~= seq![a.subrange(i, k)]);
            assert(register_rewrite::crlf_split_from(s, i) =~= seq![s.subrange(i, k)]
                + register_rewrite::crlf_split_from(s, k + 2));
            assert(register_rewrite::crlf_split_from(s, i)
                =~= register_rewrite::crlf_split_from(a, i).push(b));
        },
    }
}

/// Lines that were written out read back.
proof fn lemma_lines_read_back(lines: Seq<Seq<char>>)
    requires
        all_unbroken(lines),
        lines.len() > 0,
    ensures
        register_rewrite::crlf_split_from(register_rewrite::crlf_joined(lines), 0) == lines,
    decreases lines.len(),
{
    let last = lines.last();
    assert(unbroken(last));
    if lines.len() == 1 {
        let end = register_rewrite::crlf();
        lemma_first_text(last, end, 0);
        if let Some(k) = text::find_text_from(last, end, 0) {
            lemma_line_end(last, k);
            assert(ends_at(last, k));
        }
        assert(last.subrange(0, last.len() as int) =~= last);
        assert(register_rewrite::crlf_split_from(last, 0) =~= lines);
    } else {
        let rest = lines.drop_last();
        assert forall|i: int| 0 <= i < rest.len() implies unbroken(#[trigger] rest[i]) by {
            assert(rest[i] == lines[i]);
        }
        lemma_lines_read_back(rest);
        let before = register_rewrite::crlf_joined(rest);
        assert(register_rewrite::crlf_joined(lines) =~= before + (register_rewrite::crlf() + last));
        lemma_lines_append(before, last, 0);
        assert(rest.push(last) =~= lines);
    }
}

/// No blank line stands in lines that are written out, nor where they end.
proof fn lemma_no_blank_line(lines: Seq<Seq<char>>, rest: Seq<char>, p: int)
    requires
        all_unbroken(lines),
        forall|i: int| 1 <= i < lines.len() ==> (#[trigger] lines[i]).len() > 0,
        lines.len() > 0,
        rest.len() >= 2,
        rest[0] == '\r',
        0 <= p < register_rewrite::crlf_joined(lines).len(),
    ensures
        !text::at(register_rewrite::crlf_joined(lines) + rest, register_rewrite::blank_line(), p),
    decreases lines.len(),
{
    let all = register_rewrite::crlf_joined(lines);
    let s = all + rest;
    let last = lines.last();
    assert(unbroken(last));
    lemma_blank_line(s, p);
    if lines.len() == 1 {
        if p + 1 < last.len() {
            assert(!ends_at(last, p));
            assert(s[p] == last[p] && s[p + 1] == last[p + 1]);
        } else {
            assert(s[p + 1] == rest[0]);
        }
    } else {
        let fewer = lines.drop_last();
        let before = register_rewrite::crlf_joined(fewer);
        let n = before.len() as int;
        let more = register_rewrite::crlf() + last + rest;
        assert forall|i: int| 0 <= i < fewer.len() implies #[trigger] fewer[i] == lines[i] by {
        }
        assert(s =~= before + more);
        if p < n {
            lemma_no_blank_line(fewer, more, p);
        } else if p == n {
            assert(last.len() > 0);
            assert(s[n + 2] == last[0]);
            if last.len() > 1 {
                assert(s[n + 3] == last[1]);
                assert(!ends_at(last, 0));
            } else {
                assert(s[n + 3] == rest[0]);
            }
        } else if p == n + 1 {
            assert(s[p] == '\n');
        } else {
            let q = p - n - 2;
            assert(s[p] == last[q]);
            if q + 1 < last.len() {
                assert(s[p + 1] == last[q + 1]);
                assert(!ends_at(last, q));
            } else {
                assert(s[p + 1] == rest[0]);
            }
        }
    }
}

/// The lines before the first blank line: none has a line end in it, and only the
/// first one can be empty.
proof fn lemma_lines_of_head(s: Seq<char>, k: int, i: int)
    requires
        text::find_text_from(s, register_rewrite::blank_line(), 0) == Some(k),
        0 <= i <= k,
    ensures
        ({
            let lines = register_rewrite::crlf_split_from(s.subrange(0, k), i);
            &&& all_unbroken(lines)
            &&& lines.len() > 0
            &&& forall|j: int| 1 <= j < lines.len() ==> (#[trigger] lines[j]).len() > 0
            &&& i >= 2 && ends_at(s, i - 2) ==> lines[0].len() > 0
        }),
    decreases k - i,
{
    let end = register_rewrite::crlf();
    let head = s.subrange(0, k);
    let lines = register_rewrite::crlf_split_from(head, i);
    lemma_first_text(s, register_rewrite::blank_line(), 0);
    lemma_blank_line(s, k);
    if i >= 2 {
        lemma_blank_line(s, i - 2);
    }
    lemma_first_text(head, end, i);
    assert forall|p: int| 0 <= p < head.len() implies #[trigger] head[p] == s[p] by {
    }
    match text::find_text_from(head, end, i) {
        Some(found) => {
            lemma_line_end(head, found);
            assert(ends_at(s, found));
            lemma_lines_of_head(s, k, found + 2);
            let piece = head.subrange(i, found);
            assert forall|p: int| 0 <= p < piece.len() - 1 implies !#[trigger] ends_at(piece, p) by {
                lemma_line_end(head, i + p);
                assert(!text::at(head, end, i + p));
                assert(piece[p] == head[i + p] && piece[p + 1] == head[i + p + 1]);
            }
            let rest = register_rewrite::crlf_split_from(head, found + 2);
            assert(lines =~= seq![piece] + rest);
            assert forall|j: int| 1 <= j < lines.len() implies #[trigger] lines[j] == rest[j - 1] by {
            }
            if i >= 2 && ends_at(s, i - 2) {
                assert(!text::at(s, register_rewrite::blank_line(), i - 2));
            }
        },
        None => {
            let piece = head.subrange(i, k);
            assert(lines =~= seq![piece]);
            assert forall|p: int| 0 <= p < piece.len() - 1 implies !#[trigger] ends_at(piece, p) by {
                lemma_line_end(head, i + p);
                assert(!text::at(head, end, i + p));
                assert(piece[p] == head[i + p] && piece[p + 1] == head[i + p + 1]);
            }
            if i >= 2 && ends_at(s, i - 2) {
                assert(!text::at(s, register_rewrite::blank_line(), i - 2));
            }
        },
    }
}

proof fn lemma_unfolded(lines: Seq<Seq<char>>, n: int)
    requires
        0 <= n <= lines.len(),
        all_unbroken(lines),
        forall|j: int| 1 <= j < lines.len() ==> (#[trigger] lines[j]).len() > 0,
        register_rewrite::unfolded_upto(lines, n) is Some,
    ensures
        ({
            let whole = register_rewrite::unfolded_upto(lines, n)->0;
            &&& whole.len() <= n
            &&& all_unbroken(whole)
            &&& forall|j: int|
                1 <= j < whole.len() ==> (#[trigger] whole[j]).len() > 0
                    && !register_rewrite::folded(whole[j])
        }),
    decreases n,
{
    if n > 0 {
        lemma_unfolded(lines, n - 1);
        let known = register_rewrite::unfolded_upto(lines, n - 1)->0;
        let line = lines[n - 1];
        let whole = register_rewrite::unfolded_upto(lines, n)->0;
        assert forall|j: int| 0 <= j < whole.len() - 1 implies #[trigger] whole[j] == known[j] by {
        }
        if register_rewrite::folded(line) {
            let last = known.last();
            lemma_trim_part(line);
            lemma_unbroken_join(last, ' ', text::trim(line));
            assert(whole[whole.len() - 1] == last.push(' ') + text::trim(line));
            if last.len() > 0 {
                assert(whole[whole.len() - 1][0] == last[0]);
            }
        } else {
            assert(whole[whole.len() - 1] == line);
        }
    }
}

proof fn lemma_unfolded_again(lines: Seq<Seq<char>>, n: int)
    requires
        0 <= n <= lines.len(),
        forall|i: int| 0 <= i < lines.len() ==> !register_rewrite::folded(#[trigger] lines[i]),
    ensures
        register_rewrite::unfolded_upto(lines, n) == Some(lines.take(n)),
    decreases n,
{
    if n > 0 {
        lemma_unfolded_again(lines, n - 1);
        assert(lines.take(n) =~= lines.take(n - 1).push(lines[n - 1]));
    } else {
        assert(lines.take(0) =~= Seq::empty());
    }
}

/// The header lines of a request, each continuation joined to its line.
pub open spec fn request_lines(s: Seq<char>) -> Option<Seq<Seq<char>>> {
    match text::find_text_from(s, register_rewrite::blank_line(), 0) {
        None => None,
        Some(k) => {
            let lines = register_rewrite::crlf_split_from(s.subrange(0, k), 0);
            register_rewrite::unfolded_upto(lines, lines.len() as int)
        },
    }
}

/// A request that can be rewritten again: its first line does not continue another,
/// and its Contact can be rewritten again.
pub open spec fn well_closed(s: Seq<char>, offer: Option<OfferValue>) -> bool {
    request_lines(s) matches Some(lines) ==> {
        &&& lines.len() > 0 ==> !register_rewrite::folded(lines[0])
        &&& contacts_closed(lines, offer)
    }
}

proof fn lemma_text_again(s: Seq<char>, offer: Option<OfferValue>)
    requires
        register_rewrite::rewritten_text(s, offer) is Ok,
        offer matches Some(o) ==> register_rewrite::valid_instance(o.instance),
        well_closed(s, offer),
    ensures
        ({
            let out = register_rewrite::rewritten_text(s, offer)->Ok_0;
            register_rewrite::rewritten_text(out, offer) == Ok::<
                Seq<char>,
                register_rewrite::RewriteError,
            >(out)
        }),
{
    let blank = register_rewrite::blank_line();
    let k = text::find_text_from(s, blank, 0)->0;
    lemma_first_text(s, blank, 0);
    lemma_blank_line(s, k);
    let lines = register_rewrite::crlf_split_from(s.subrange(0, k), 0);
    lemma_lines_of_head(s, k, 0);
    lemma_unfolded(lines, lines.len() as int);
    let whole = register_rewrite::unfolded_upto(lines, lines.len() as int)->0;
    assert(readable(whole));
    lemma_lines_again(whole, offer);
    let done = register_rewrite::rewritten_lines(whole, offer)->Ok_0;
    let head = register_rewrite::crlf_joined(done);
    let body = s.subrange(k + 4, s.len() as int);
    let out = head + blank + body;
    assert(out == register_rewrite::rewritten_text(s, offer)->Ok_0);
    let n = head.len() as int;
    assert(out =~= head + (blank + body));
    lemma_blank_line(out, n);
    assert(out[n] == '\r' && out[n + 1] == '\n' && out[n + 2] == '\r' && out[n + 3] == '\n');
    assert forall|p: int| 0 <= p < n implies !#[trigger] text::at(out, blank, p) by {
        assert((blank + body)[0] == '\r');
        lemma_no_blank_line(done, blank + body, p);
    }
    lemma_found(out, blank, 0, n);
    assert(out.subrange(0, n) =~= head);
    lemma_lines_read_back(done);
    lemma_unfolded_again(done, done.len() as int);
    assert(done.take(done.len() as int) =~= done);
    assert(out.subrange(n + 4, out.len() as int) =~= body);
}

/// Rewriting is idempotent: a request that was completed with an offer, or cleared
/// of one, comes out byte for byte the same when that is done to it again.
pub proof fn law_rewriting_is_idempotent(frame: Seq<u8>, offer: Option<OfferValue>)
    requires
        register_rewrite::rewritten(frame, offer) is Ok,
        offer matches Some(o) ==> register_rewrite::valid_instance(o.instance),
        well_closed(decode_utf8(frame), offer),
    ensures
        ({
            let out = register_rewrite::rewritten(frame, offer)->Ok_0;
            register_rewrite::rewritten(out, offer) == Ok::<
                Seq<u8>,
                register_rewrite::RewriteError,
            >(out)
        }),
{
    let s = decode_utf8(frame);
    lemma_text_again(s, offer);
    let done = register_rewrite::rewritten_text(s, offer)->Ok_0;
    encode_utf8_valid_utf8(done);
    encode_utf8_decode_utf8(done);
}

} // verus!
