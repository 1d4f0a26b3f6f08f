//! How texts are taken apart and put together.

use crate::text;
use vstd::prelude::*;

verus! {

pub open spec fn without(s: Seq<char>, c: char) -> bool {
    forall|i: int| 0 <= i < s.len() ==> (#[trigger] s[i]) != c
}

/// Looking for a character finds its first occurrence, and nothing else.
pub proof fn law_first_is_found(a: Seq<char>, b: Seq<char>, c: char)
    requires
        without(a, c),
    ensures
        text::find_from(a.push(c) + b, c, 0) == a.len(),
        text::find_from(a, c, 0) == a.len(),
{
    let s = a.push(c) + b;
    text::lemma_find(s, c, 0);
    text::lemma_find(a, c, 0);
    assert(s[a.len() as int] == c);
    let k = text::find_from(s, c, 0);
    if k < a.len() {
        assert(s[k] == a[k]);
    }
    let j = text::find_from(a, c, 0);
    if j < a.len() {
        assert(a[j] == c);
    }
}

/// A text is cut at the first occurrence of a character: nothing is lost but that one.
pub proof fn law_cut_gives_both_sides(a: Seq<char>, b: Seq<char>, c: char)
    requires
        without(a, c),
    ensures
        text::cut(a.push(c) + b, c) == Some((a, b)),
        text::cut(a, c) is None,
        text::before(a.push(c) + b, c) == a,
        text::before(a, c) == a,
{
    law_first_is_found(a, b, c);
    let s = a.push(c) + b;
    assert(s.subrange(0, a.len() as int) =~= a);
    assert(s.subrange(a.len() as int + 1, s.len() as int) =~= b);
    assert(a.subrange(0, a.len() as int) =~= a);
}

proof fn lemma_find_shift(a: Seq<char>, b: Seq<char>, c: char, i: int)
    requires
        0 <= i <= b.len(),
    ensures
        text::find_from(a + b, c, a.len() + i) == a.len() + text::find_from(b, c, i),
    decreases b.len() - i,
{
    if i < b.len() {
        assert((a + b)[a.len() + i] == b[i]);
        lemma_find_shift(a, b, c, i + 1);
    }
}

proof fn lemma_split_shift(a: Seq<char>, b: Seq<char>, c: char, i: int)
    requires
        0 <= i <= b.len(),
    ensures
        text::split_from(a + b, c, a.len() + i) == text::split_from(b, c, i),
    decreases b.len() - i,
{
    let s = a + b;
    let n = a.len() as int;
    lemma_find_shift(a, b, c, i);
    text::lemma_find(b, c, i);
    let k = text::find_from(b, c, i);
    assert(s.subrange(n + i, n + k) =~= b.subrange(i, k));
    if k < b.len() {
        lemma_split_shift(a, b, c, k + 1);
    }
}

/// Splitting undoes joining: a text in front of the first separator is the first part, and
/// the parts behind it are those of the rest. A text without separators is one part.
pub proof fn law_split_undoes_join(a: Seq<char>, b: Seq<char>, c: char)
    requires
        without(a, c),
    ensures
        text::split(a.push(c) + b, c) == seq![a] + text::split(b, c),
        text::split(a, c) == seq![a],
{
    law_first_is_found(a, b, c);
    let front = a.push(c);
    let s = front + b;
    lemma_split_shift(front, b, c, 0);
    assert(s.subrange(0, a.len() as int) =~= a);
    assert(a.subrange(0, a.len() as int) =~= a);
    assert(text::split_from(s, c, front.len() as int) == text::split(b, c));
}

/// The parts of two joined texts are those of the first and then those of the second.
pub proof fn law_parts_of_joined_texts(a: Seq<char>, b: Seq<char>, c: char)
    ensures
        text::split(a.push(c) + b, c) == text::split(a, c) + text::split(b, c),
    decreases a.len(),
{
    text::lemma_find(a, c, 0);
    let k = text::find_from(a, c, 0);
    if k < a.len() {
        let x = a.subrange(0, k);
        let y = a.subrange(k + 1, a.len() as int);
        assert(a =~= x.push(c) + y);
        assert(a.push(c) + b =~= x.push(c) + (y.push(c) + b));
        law_split_undoes_join(x, y, c);
        law_split_undoes_join(x, y.push(c) + b, c);
        law_parts_of_joined_texts(y, b, c);
        assert(seq![x] + (text::split(y, c) + text::split(b, c)) =~= (seq![x] + text::split(y, c))
            + text::split(b, c));
    } else {
        law_split_undoes_join(a, b, c);
    }
}

/// White space around a text does not count, and white space within it does.
pub proof fn law_trim_takes_the_ends(a: Seq<char>, s: Seq<char>, b: Seq<char>)
    requires
        forall|i: int| 0 <= i < a.len() ==> text::white(#[trigger] a[i]),
        forall|i: int| 0 <= i < b.len() ==> text::white(#[trigger] b[i]),
        s.len() > 0 ==> !text::white(s[0]) && !text::white(s.last()),
    ensures
        text::trim(a + s + b) == s,
{
    let all = a + s + b;
    if s.len() == 0 {
        assert forall|i: int| 0 <= i < all.len() implies text::white(#[trigger] all[i]) by {
            if i < a.len() {
                assert(all[i] == a[i]);
            } else {
                assert(all[i] == b[i - a.len()]);
            }
        }
        lemma_skip(all, 0, all.len() as int);
        assert(text::trim(all) =~= s);
    } else {
        let lo = a.len() as int;
        let hi = lo + s.len();
        assert forall|i: int| 0 <= i < lo implies text::white(#[trigger] all[i]) by {
            assert(all[i] == a[i]);
        }
        assert forall|i: int| hi <= i < all.len() implies text::white(#[trigger] all[i]) by {
            assert(all[i] == b[i - hi]);
        }
        assert(all[lo] == s[0]);
        assert(all[hi - 1] == s.last());
        lemma_skip(all, 0, lo);
        lemma_back(all, lo, hi, all.len() as int);
        assert(all.subrange(lo, hi) =~= s);
    }
}

proof fn lemma_skip(s: Seq<char>, i: int, end: int)
    requires
        0 <= i <= end <= s.len(),
        end == s.len() || !text::white(s[end]),
        forall|j: int| i <= j < end ==> text::white(#[trigger] s[j]),
    ensures
        text::skip_white(s, i) == end,
    decreases end - i,
{
    if i < end {
        lemma_skip(s, i + 1, end);
    }
}

proof fn lemma_back(s: Seq<char>, lo: int, end: int, hi: int)
    requires
        0 <= lo < end <= hi <= s.len(),
        !text::white(s[end - 1]),
        forall|j: int| end <= j < hi ==> text::white(#[trigger] s[j]),
    ensures
        text::back_white(s, lo, hi) == end,
    decreases hi,
{
    if hi > end {
        lemma_back(s, lo, end, hi - 1);
    }
}

/// Blanks, tabs and line ends are white space, and what shows is not.
pub proof fn law_white_space_does_not_show(c: char)
    ensures
        text::white(' ') && text::white('\t') && text::white('\r') && text::white('\n'),
        '!' <= c <= '~' ==> !text::white(c),
{
}

/// Words are what white space parts: the first word, and the words behind it.
pub proof fn law_words_are_parted_by_white_space(
    lead: Seq<char>,
    word: Seq<char>,
    gap: char,
    rest: Seq<char>,
)
    requires
        forall|i: int| 0 <= i < lead.len() ==> text::white(#[trigger] lead[i]),
        word.len() > 0,
        forall|i: int| 0 <= i < word.len() ==> !text::white(#[trigger] word[i]),
        text::white(gap),
    ensures
        text::words(lead + word.push(gap) + rest) == seq![word] + text::words(rest),
        text::words(lead + word) == seq![word],
        text::words(lead) == Seq::<Seq<char>>::empty(),
{
    let s = lead + word.push(gap) + rest;
    let a = lead.len() as int;
    let b = a + word.len();
    assert forall|i: int| 0 <= i < a implies text::white(#[trigger] s[i]) by {
        assert(s[i] == lead[i]);
    }
    assert forall|i: int| a <= i < b implies !text::white(#[trigger] s[i]) by {
        assert(s[i] == word[i - a]);
    }
    assert(s[b] == gap);
    lemma_skip(s, 0, a);
    lemma_to_white(s, a, b);
    assert(s.subrange(a, b) =~= word);
    assert(text::words_from(s, b) == text::words_from(s, b + 1)) by {
        assert(text::skip_white(s, b) == text::skip_white(s, b + 1));
        text::lemma_skip_white(s, b + 1);
    }
    let front = lead + word.push(gap);
    assert(s =~= front + rest);
    lemma_words_shift(front, rest, 0);
    let t = lead + word;
    assert forall|i: int| 0 <= i < a implies text::white(#[trigger] t[i]) by {
        assert(t[i] == lead[i]);
    }
    assert forall|i: int| a <= i < b implies !text::white(#[trigger] t[i]) by {
        assert(t[i] == word[i - a]);
    }
    lemma_skip(t, 0, a);
    lemma_to_white(t, a, b);
    assert(t.subrange(a, b) =~= word);
    assert(text::skip_white(t, b) == b);
    assert(text::find_white(t, b) == b);
    assert(text::words_from(t, b) =~= Seq::empty());
    assert(text::words(t) =~= seq![word]);
    lemma_skip(lead, 0, a);
    assert(text::find_white(lead, a) == a);
}

proof fn lemma_to_white(s: Seq<char>, i: int, end: int)
    requires
        0 <= i <= end <= s.len(),
        end == s.len() || text::white(s[end]),
        forall|j: int| i <= j < end ==> !text::white(#[trigger] s[j]),
    ensures
        text::find_white(s, i) == end,
    decreases end - i,
{
    if i < end {
        lemma_to_white(s, i + 1, end);
    }
}

proof fn lemma_white_shift(a: Seq<char>, b: Seq<char>, i: int)
    requires
        0 <= i <= b.len(),
    ensures
        text::skip_white(a + b, a.len() + i) == a.len() + text::skip_white(b, i),
        text::find_white(a + b, a.len() + i) == a.len() + text::find_white(b, i),
    decreases b.len() - i,
{
    if i < b.len() {
        assert((a + b)[a.len() + i] == b[i]);
        lemma_white_shift(a, b, i + 1);
    }
}

proof fn lemma_words_shift(a: Seq<char>, b: Seq<char>, i: int)
    requires
        0 <= i <= b.len(),
    ensures
        text::words_from(a + b, a.len() + i) == text::words_from(b, i),
    decreases b.len() - i,
{
    let n = a.len() as int;
    text::lemma_skip_white(b, i);
    lemma_white_shift(a, b, i);
    let p = text::skip_white(b, i);
    lemma_white_shift(a, b, p);
    text::lemma_find_white(b, p);
    let q = text::find_white(b, p);
    if p < q {
        lemma_words_shift(a, b, q);
        assert((a + b).subrange(n + p, n + q) =~= b.subrange(p, q));
    }
}

/// A line ends at its line feed, with or without a carriage return before it.
pub proof fn law_lines_end_at_line_feeds(line: Seq<char>, rest: Seq<char>)
    requires
        without(line, '\n'),
        line.len() > 0 ==> line.last() != '\r',
    ensures
        text::lines(line.push('\n') + rest) == seq![line] + text::lines(rest),
        text::lines(line.push('\r').push('\n') + rest) == seq![line] + text::lines(rest),
        line.len() > 0 ==> text::lines(line) == seq![line],
        text::lines(Seq::empty()) == Seq::<Seq<char>>::empty(),
{
    let one = line.push('\n');
    law_first_is_found(line, Seq::empty(), '\n');
    assert(one + Seq::<char>::empty() =~= one);
    assert(one.subrange(0, line.len() as int) =~= line);
    assert(text::lines_from(one, one.len() as int) =~= Seq::empty());
    assert(text::lines(one) =~= seq![line]);
    text::lemma_lines_join(one, rest, 0);
    text::lemma_one_line(line);
    text::lemma_lines_join(line.push('\r').push('\n'), rest, 0);
    assert(line.subrange(0, line.len() as int) =~= line);
}

/// Two characters differ in case alone.
pub open spec fn same_letter(a: char, b: char) -> bool {
    ||| a == b
    ||| 'A' <= a <= 'Z' && b as u32 == a as u32 + 32
    ||| 'A' <= b <= 'Z' && a as u32 == b as u32 + 32
}

/// Two texts are alike just where they agree character by character, up to the case of
/// the letters from A to Z.
pub proof fn law_alike_ignores_case_alone(a: Seq<char>, b: Seq<char>)
    ensures
        text::alike(a, b) <==> a.len() == b.len() && forall|i: int|
            0 <= i < a.len() ==> same_letter(#[trigger] a[i], b[i]),
{
    let x = text::lower_all(a);
    let y = text::lower_all(b);
    if a.len() == b.len() && forall|i: int| 0 <= i < a.len() ==> same_letter(#[trigger] a[i], b[i]) {
        assert forall|i: int| 0 <= i < x.len() implies x[i] == y[i] by {
            assert(same_letter(a[i], b[i]));
            lemma_letters(a[i], b[i]);
        }
        assert(x =~= y);
    }
    if x == y {
        assert(x.len() == y.len());
        assert forall|i: int| 0 <= i < a.len() implies same_letter(#[trigger] a[i], b[i]) by {
            assert(x[i] == y[i]);
            lemma_letters(a[i], b[i]);
        }
    }
}

proof fn lemma_letters(a: char, b: char)
    ensures
        text::lower(a) == text::lower(b) <==> same_letter(a, b),
{
    if 'A' <= a <= 'Z' {
        let n: u32 = (a as u32 + 32) as u32;
        assert(n < 0xd800);
        assert((n as char) as u32 == n);
    }
    if 'A' <= b <= 'Z' {
        let n: u32 = (b as u32 + 32) as u32;
        assert((n as char) as u32 == n);
    }
}

/// A number is read back as it was written, with or without a plus sign, unless it is
/// larger than what is asked for; a text with anything but digits is no number.
pub proof fn law_numbers_are_read_as_written(n: nat, max: nat, s: Seq<char>, k: int)
    ensures
        text::unsigned(text::decimal(n), max) == (if n <= max {
            Some(n)
        } else {
            None
        }),
        text::unsigned(seq!['+'] + text::decimal(n), max) == text::unsigned(text::decimal(n), max),
        s.len() == 0 ==> text::unsigned(s, max) is None,
        0 <= k < s.len() && !('0' <= s[k] <= '9') && (k > 0 || s[k] != '+') ==> text::unsigned(
            s,
            max,
        ) is None,
{
    text::law_decimal_round_trip(n);
    let d = text::decimal(n);
    assert(text::digit(d[0]));
    let p = seq!['+'] + d;
    assert(p.subrange(1, p.len() as int) =~= d);
    if 0 <= k < s.len() && !('0' <= s[k] <= '9') && (k > 0 || s[k] != '+') {
        let u = text::unsigned_digits(s);
        if s[0] == '+' {
            assert(u[k - 1] == s[k]);
            assert(!text::digit(u[k - 1]));
        } else {
            assert(!text::digit(u[k]));
        }
    }
}

/// Every digit counts ten times what the next one counts.
pub proof fn law_digits_count_by_ten(n: nat, d: nat, s: Seq<char>)
    requires
        d < 10,
    ensures
        n > 0 ==> text::decimal(n * 10 + d) == text::decimal(n).push((48 + d) as char),
        text::decimal(d) == seq![(48 + d) as char],
        text::decimal_value(s.push((48 + d) as char)) == text::decimal_value(s) * 10 + d,
        text::decimal_value(Seq::empty()) == 0,
{
    assert((n * 10 + d) / 10 == n);
    assert((n * 10 + d) % 10 == d);
    let c = (48 + d) as char;
    assert(c as u32 == 48 + d);
    assert(s.push(c).drop_last() =~= s);
}

/// A text starts with another one just where something can be put behind that one to get it.
pub proof fn law_prefix_can_be_completed(p: Seq<char>, rest: Seq<char>, s: Seq<char>)
    ensures
        text::starts(p + rest, p),
        text::without_prefix(p + rest, p) == Some(rest),
        text::without_prefix(s, p) matches Some(tail) ==> s == p + tail,
        text::without_prefix(s, p) is None ==> s != p + rest,
{
    let t = p + rest;
    assert(t.subrange(0, p.len() as int) =~= p);
    assert(t.subrange(p.len() as int, t.len() as int) =~= rest);
    if text::starts(s, p) {
        let tail = s.subrange(p.len() as int, s.len() as int);
        assert(s =~= s.subrange(0, p.len() as int) + tail);
    }
}

/// A text holds another one just where it stands somewhere between a beginning and an end.
pub proof fn law_text_is_found_anywhere(a: Seq<char>, p: Seq<char>, b: Seq<char>, s: Seq<char>)
    ensures
        text::has_text(a + p + b, p),
        text::has_text(s, p) ==> exists|x: Seq<char>, y: Seq<char>| s == #[trigger] ((x + p) + y),
{
    let t = a + p + b;
    text::lemma_find_text(t, p, 0);
    assert(t.subrange(a.len() as int, (a.len() + p.len()) as int) =~= p);
    assert(text::at(t, p, a.len() as int));
    text::lemma_find_text(s, p, 0);
    if text::has_text(s, p) {
        let k = text::find_text_from(s, p, 0)->0;
        let x = s.subrange(0, k);
        let y = s.subrange(k + p.len(), s.len() as int);
        assert(s =~= x + s.subrange(k, k + p.len()) + y);
        assert(s == (x + p) + y);
    }
}

} // verus!
