//! Text as sequences of characters.
//!
//! Every operation is stated over `Seq<char>`; the executable versions work on
//! character slices, so that taking a part of a text copies nothing.

use vstd::prelude::*;
use vstd::slice::slice_subrange;

verus! {

// ---------------------------------------------------------------- characters

/// Unicode `White_Space`.
pub open spec fn white(c: char) -> bool {
    let n = c as u32;
    ||| 0x09 <= n <= 0x0d
    ||| n == 0x20
    ||| n == 0x85
    ||| n == 0xa0
    ||| n == 0x1680
    ||| 0x2000 <= n <= 0x200a
    ||| n == 0x2028
    ||| n == 0x2029
    ||| n == 0x202f
    ||| n == 0x205f
    ||| n == 0x3000
}

pub fn is_white(c: char) -> (r: bool)
    ensures
        r == white(c),
{
    let n: u32 = c as u32;
    (0x09 <= n && n <= 0x0d) || n == 0x20 || n == 0x85 || n == 0xa0 || n == 0x1680 || (0x2000 <= n
        && n <= 0x200a) || n == 0x2028 || n == 0x2029 || n == 0x202f || n == 0x205f || n == 0x3000
}

/// Unicode general category `Cc`.
pub open spec fn control(c: char) -> bool {
    c as u32 <= 0x1f || 0x7f <= c as u32 <= 0x9f
}

pub fn is_control(c: char) -> (r: bool)
    ensures
        r == control(c),
{
    let n: u32 = c as u32;
    n <= 0x1f || (0x7f <= n && n <= 0x9f)
}

pub open spec fn digit(c: char) -> bool {
    '0' <= c <= '9'
}

pub fn is_digit(c: char) -> (r: bool)
    ensures
        r == digit(c),
{
    '0' <= c && c <= '9'
}

/// The ASCII lower case of `c`; every other character is itself.
pub open spec fn lower(c: char) -> char {
    if 'A' <= c <= 'Z' {
        (c as u32 + 32) as char
    } else {
        c
    }
}

pub fn to_lower(c: char) -> (r: char)
    ensures
        r == lower(c),
{
    if 'A' <= c && c <= 'Z' {
        let b: u8 = c as u8;
        (b + 32) as char
    } else {
        c
    }
}

pub open spec fn lower_all(s: Seq<char>) -> Seq<char> {
    Seq::new(s.len(), |i: int| lower(s[i]))
}

// --------------------------------------------------------------- conversions

/// `String::push` appends one character.
pub assume_specification[ String::push ](s: &mut String, c: char)
    ensures
        final(s)@ == old(s)@.push(c),
;

/// The characters of a string.
pub fn chars_of(s: &str) -> (v: Vec<char>)
    ensures
        v@ == s@,
{
    let mut v: Vec<char> = Vec::new();
    for c in it: s.chars()
        invariant
            v@ == it.seq().take(it.index() as int),
            it.seq() == s@,
    {
        v.push(c);
        assert(v@ == it.seq().take(it.index() as int + 1));
    }
    assert(s@.take(s@.len() as int) == s@);
    v
}

/// The string of some characters.
pub fn string_of(s: &[char]) -> (r: String)
    ensures
        r@ == s@,
{
    let mut r = String::new();
    let mut i: usize = 0;
    while i < s.len()
        invariant
            i <= s@.len(),
            r@ == s@.take(i as int),
        decreases s@.len() - i,
    {
        r.push(s[i]);
        i += 1;
        assert(r@ == s@.take(i as int));
    }
    assert(s@.take(s@.len() as int) == s@);
    r
}

pub open spec fn opt_text(o: Option<String>) -> Option<Seq<char>> {
    match o {
        Some(s) => Some(s@),
        None => None,
    }
}

/// The texts of a sequence of slices.
pub open spec fn views(v: Seq<&[char]>) -> Seq<Seq<char>> {
    Seq::new(v.len(), |i: int| v[i]@)
}

/// The texts of a sequence of strings.
pub open spec fn texts(v: Seq<String>) -> Seq<Seq<char>> {
    Seq::new(v.len(), |i: int| v[i]@)
}

// ------------------------------------------------------------------ equality

pub fn same(a: &[char], b: &[char]) -> (r: bool)
    ensures
        r == (a@ == b@),
{
    if a.len() != b.len() {
        return false;
    }
    let mut i: usize = 0;
    while i < a.len()
        invariant
            a@.len() == b@.len(),
            i <= a@.len(),
            forall|k: int| 0 <= k < i ==> a@[k] == b@[k],
        decreases a@.len() - i,
    {
        if a[i] != b[i] {
            return false;
        }
        i += 1;
    }
    assert(a@ =~= b@);
    true
}

/// Is this text the given string?
pub fn is_text(a: &[char], b: &str) -> (r: bool)
    ensures
        r == (a@ == b@),
{
    let b_chars = chars_of(b);
    same(a, b_chars.as_slice())
}

pub fn str_same(a: &str, b: &str) -> (r: bool)
    ensures
        r == (a@ == b@),
{
    let a_chars = chars_of(a);
    is_text(a_chars.as_slice(), b)
}

/// Equality up to ASCII case.
pub open spec fn alike(a: Seq<char>, b: Seq<char>) -> bool {
    lower_all(a) == lower_all(b)
}

pub fn is_alike(a: &[char], b: &[char]) -> (r: bool)
    ensures
        r == alike(a@, b@),
{
    if a.len() != b.len() {
        assert(lower_all(a@).len() != lower_all(b@).len());
        return false;
    }
    let mut i: usize = 0;
    while i < a.len()
        invariant
            a@.len() == b@.len(),
            i <= a@.len(),
            forall|k: int| 0 <= k < i ==> lower(a@[k]) == lower(b@[k]),
        decreases a@.len() - i,
    {
        if to_lower(a[i]) != to_lower(b[i]) {
            assert(lower_all(a@)[i as int] != lower_all(b@)[i as int]);
            return false;
        }
        i += 1;
    }
    assert(lower_all(a@) =~= lower_all(b@));
    true
}

pub fn is_alike_text(a: &[char], b: &str) -> (r: bool)
    ensures
        r == alike(a@, b@),
{
    let b_chars = chars_of(b);
    is_alike(a, b_chars.as_slice())
}

pub fn lowered(s: &[char]) -> (r: Vec<char>)
    ensures
        r@ == lower_all(s@),
{
    let mut r: Vec<char> = Vec::new();
    let mut i: usize = 0;
    while i < s.len()
        invariant
            i <= s@.len(),
            r@.len() == i,
            forall|k: int| 0 <= k < i ==> r@[k] == lower(s@[k]),
        decreases s@.len() - i,
    {
        r.push(to_lower(s[i]));
        i += 1;
    }
    assert(r@ =~= lower_all(s@));
    r
}

// ----------------------------------------------------------------- searching

/// The first index at or after `i` that holds `c`, or the length.
pub open spec fn find_from(s: Seq<char>, c: char, i: int) -> int
    decreases s.len() - i,
{
    if i >= s.len() {
        s.len() as int
    } else if s[i] == c {
        i
    } else {
        find_from(s, c, i + 1)
    }
}

pub proof fn lemma_find(s: Seq<char>, c: char, i: int)
    requires
        0 <= i <= s.len(),
    ensures
        i <= find_from(s, c, i) <= s.len(),
        find_from(s, c, i) < s.len() ==> s[find_from(s, c, i)] == c,
        forall|k: int| i <= k < find_from(s, c, i) ==> s[k] != c,
    decreases s.len() - i,
{
    if i < s.len() && s[i] != c {
        lemma_find(s, c, i + 1);
    }
}

pub fn find(s: &[char], c: char, from: usize) -> (r: usize)
    requires
        from <= s@.len(),
    ensures
        r == find_from(s@, c, from as int),
        from <= r <= s@.len(),
        r < s@.len() ==> s@[r as int] == c,
{
    proof {
        lemma_find(s@, c, from as int);
    }
    let mut i: usize = from;
    while i < s.len()
        invariant
            from <= i <= s@.len(),
            find_from(s@, c, from as int) == find_from(s@, c, i as int),
        decreases s@.len() - i,
    {
        if s[i] == c {
            return i;
        }
        i += 1;
    }
    i
}

/// Does `p` stand in `s` at index `i`?
pub open spec fn at(s: Seq<char>, p: Seq<char>, i: int) -> bool {
    &&& 0 <= i
    &&& i + p.len() <= s.len()
    &&& s.subrange(i, i + p.len()) == p
}

pub fn is_at(s: &[char], p: &[char], i: usize) -> (r: bool)
    requires
        i <= s@.len(),
    ensures
        r == at(s@, p@, i as int),
{
    if p.len() > s.len() - i {
        return false;
    }
    same(slice_subrange(s, i, i + p.len()), p)
}

pub open spec fn starts(s: Seq<char>, p: Seq<char>) -> bool {
    at(s, p, 0)
}

pub fn has_prefix(s: &[char], p: &str) -> (r: bool)
    ensures
        r == starts(s@, p@),
        r ==> p@.len() <= s@.len(),
{
    let p_chars = chars_of(p);
    is_at(s, p_chars.as_slice(), 0)
}

/// The text behind the prefix `p`, where it has one.
pub open spec fn without_prefix(s: Seq<char>, p: Seq<char>) -> Option<Seq<char>> {
    if starts(s, p) {
        Some(s.subrange(p.len() as int, s.len() as int))
    } else {
        None
    }
}

pub open spec fn opt_slice(o: Option<&[char]>) -> Option<Seq<char>> {
    match o {
        Some(s) => Some(s@),
        None => None,
    }
}

pub fn strip_prefix<'a>(s: &'a [char], p: &str) -> (r: Option<&'a [char]>)
    ensures
        opt_slice(r) == without_prefix(s@, p@),
{
    let p_chars = chars_of(p);
    if is_at(s, p_chars.as_slice(), 0) {
        Some(slice_subrange(s, p_chars.len(), s.len()))
    } else {
        None
    }
}

/// The first index at or after `i` where `p` stands, or none.
pub open spec fn find_text_from(s: Seq<char>, p: Seq<char>, i: int) -> Option<int>
    decreases s.len() + 1 - i,
{
    if i > s.len() {
        None
    } else if at(s, p, i) {
        Some(i)
    } else {
        find_text_from(s, p, i + 1)
    }
}

pub open spec fn has_text(s: Seq<char>, p: Seq<char>) -> bool {
    find_text_from(s, p, 0) is Some
}

/// A text contains `p` exactly where `p` stands somewhere in it.
pub proof fn lemma_find_text(s: Seq<char>, p: Seq<char>, i: int)
    requires
        0 <= i,
    ensures
        find_text_from(s, p, i) is Some ==> i <= find_text_from(s, p, i)->0 && at(
            s,
            p,
            find_text_from(s, p, i)->0,
        ),
        find_text_from(s, p, i) is None ==> forall|k: int| i <= k ==> !#[trigger] at(s, p, k),
    decreases s.len() + 1 - i,
{
    if i <= s.len() && !at(s, p, i) {
        lemma_find_text(s, p, i + 1);
    }
}

pub fn find_text(s: &[char], p: &[char], from: usize) -> (r: Option<usize>)
    requires
        from <= s@.len(),
    ensures
        match r {
            Some(k) => find_text_from(s@, p@, from as int) == Some(k as int) && from <= k
                && k + p@.len() <= s@.len(),
            None => find_text_from(s@, p@, from as int) is None,
        },
{
    let mut i: usize = from;
    loop
        invariant
            from <= i <= s@.len(),
            find_text_from(s@, p@, from as int) == find_text_from(s@, p@, i as int),
        decreases s@.len() - i,
    {
        if is_at(s, p, i) {
            return Some(i);
        }
        if i == s.len() {
            assert(find_text_from(s@, p@, i + 1) is None);
            return None;
        }
        i += 1;
    }
}

pub fn contains_text(s: &[char], p: &str) -> (r: bool)
    ensures
        r == has_text(s@, p@),
{
    let p_chars = chars_of(p);
    find_text(s, p_chars.as_slice(), 0).is_some()
}

// ------------------------------------------------------------------ trimming

/// The first index at or after `i` that holds no white space, or the length.
pub open spec fn skip_white(s: Seq<char>, i: int) -> int
    decreases s.len() - i,
{
    if i < s.len() && white(s[i]) {
        skip_white(s, i + 1)
    } else {
        i
    }
}

/// The least end in `lo..=hi` behind which only white space stands before `hi`.
pub open spec fn back_white(s: Seq<char>, lo: int, hi: int) -> int
    decreases hi - lo,
{
    if lo < hi && white(s[hi - 1]) {
        back_white(s, lo, hi - 1)
    } else {
        hi
    }
}

pub open spec fn trim(s: Seq<char>) -> Seq<char> {
    let lo = skip_white(s, 0);
    s.subrange(lo, back_white(s, lo, s.len() as int))
}

pub proof fn lemma_skip_white(s: Seq<char>, i: int)
    requires
        0 <= i <= s.len(),
    ensures
        i <= skip_white(s, i) <= s.len(),
        skip_white(s, i) < s.len() ==> !white(s[skip_white(s, i)]),
    decreases s.len() - i,
{
    if i < s.len() && white(s[i]) {
        lemma_skip_white(s, i + 1);
    }
}

pub proof fn lemma_back_white(s: Seq<char>, lo: int, hi: int)
    requires
        0 <= lo <= hi <= s.len(),
    ensures
        lo <= back_white(s, lo, hi) <= hi,
        lo < back_white(s, lo, hi) ==> !white(s[back_white(s, lo, hi) - 1]),
    decreases hi - lo,
{
    if lo < hi && white(s[hi - 1]) {
        lemma_back_white(s, lo, hi - 1);
    }
}

/// Trimming leaves no white space at either end, so that trimming again changes
/// nothing.
pub proof fn lemma_trim_twice(s: Seq<char>)
    ensures
        trim(trim(s)) == trim(s),
{
    let lo = skip_white(s, 0);
    lemma_skip_white(s, 0);
    lemma_back_white(s, lo, s.len() as int);
    let t = trim(s);
    if t.len() > 0 {
        assert(t[0] == s[lo]);
        assert(t.last() == s[back_white(s, lo, s.len() as int) - 1]);
    }
    assert(trim(t) =~= t);
}

pub fn trimmed<'a>(s: &'a [char]) -> (r: &'a [char])
    ensures
        r@ == trim(s@),
{
    proof {
        lemma_skip_white(s@, 0);
        lemma_back_white(s@, skip_white(s@, 0), s@.len() as int);
    }
    let mut lo: usize = 0;
    while lo < s.len() && is_white(s[lo])
        invariant
            lo <= s@.len(),
            skip_white(s@, 0) == skip_white(s@, lo as int),
        decreases s@.len() - lo,
    {
        lo += 1;
    }
    let mut hi: usize = s.len();
    while lo < hi && is_white(s[hi - 1])
        invariant
            lo <= hi <= s@.len(),
            back_white(s@, lo as int, s@.len() as int) == back_white(s@, lo as int, hi as int),
        decreases hi,
    {
        hi -= 1;
    }
    slice_subrange(s, lo, hi)
}

/// The text without the leading and trailing characters `c`.
pub open spec fn skip_char(s: Seq<char>, c: char, i: int) -> int
    decreases s.len() - i,
{
    if i < s.len() && s[i] == c {
        skip_char(s, c, i + 1)
    } else {
        i
    }
}

pub open spec fn back_char(s: Seq<char>, c: char, lo: int, hi: int) -> int
    decreases hi - lo,
{
    if lo < hi && s[hi - 1] == c {
        back_char(s, c, lo, hi - 1)
    } else {
        hi
    }
}

pub open spec fn trim_end_char(s: Seq<char>, c: char) -> Seq<char> {
    s.subrange(0, back_char(s, c, 0, s.len() as int))
}

pub open spec fn trim_char(s: Seq<char>, c: char) -> Seq<char> {
    let lo = skip_char(s, c, 0);
    s.subrange(lo, back_char(s, c, lo, s.len() as int))
}

pub proof fn lemma_skip_char(s: Seq<char>, c: char, i: int)
    requires
        0 <= i <= s.len(),
    ensures
        i <= skip_char(s, c, i) <= s.len(),
    decreases s.len() - i,
{
    if i < s.len() && s[i] == c {
        lemma_skip_char(s, c, i + 1);
    }
}

pub proof fn lemma_back_char(s: Seq<char>, c: char, lo: int, hi: int)
    requires
        0 <= lo <= hi <= s.len(),
    ensures
        lo <= back_char(s, c, lo, hi) <= hi,
    decreases hi - lo,
{
    if lo < hi && s[hi - 1] == c {
        lemma_back_char(s, c, lo, hi - 1);
    }
}

fn back_char_end(s: &[char], c: char, lo: usize) -> (hi: usize)
    requires
        lo <= s@.len(),
    ensures
        hi == back_char(s@, c, lo as int, s@.len() as int),
        lo <= hi <= s@.len(),
{
    let mut hi: usize = s.len();
    while lo < hi && s[hi - 1] == c
        invariant
            lo <= hi <= s@.len(),
            back_char(s@, c, lo as int, s@.len() as int) == back_char(s@, c, lo as int, hi as int),
        decreases hi,
    {
        hi -= 1;
    }
    hi
}

pub fn trimmed_end_char<'a>(s: &'a [char], c: char) -> (r: &'a [char])
    ensures
        r@ == trim_end_char(s@, c),
{
    let hi: usize = back_char_end(s, c, 0);
    slice_subrange(s, 0, hi)
}

pub fn trimmed_char<'a>(s: &'a [char], c: char) -> (r: &'a [char])
    ensures
        r@ == trim_char(s@, c),
{
    proof {
        lemma_skip_char(s@, c, 0);
    }
    let mut lo: usize = 0;
    while lo < s.len() && s[lo] == c
        invariant
            lo <= s@.len(),
            skip_char(s@, c, 0) == skip_char(s@, c, lo as int),
        decreases s@.len() - lo,
    {
        lo += 1;
    }
    let hi: usize = back_char_end(s, c, lo);
    slice_subrange(s, lo, hi)
}

// ----------------------------------------------------------------- splitting

/// The parts of `s` from `i` on that the separator `c` divides.
pub open spec fn split_from(s: Seq<char>, c: char, i: int) -> Seq<Seq<char>>
    decreases s.len() - i,
{
    let k = find_from(s, c, i);
    if 0 <= i <= k < s.len() {
        seq![s.subrange(i, k)] + split_from(s, c, k + 1)
    } else {
        seq![s.subrange(i, s.len() as int)]
    }
}

pub open spec fn split(s: Seq<char>, c: char) -> Seq<Seq<char>> {
    split_from(s, c, 0)
}

pub fn parts<'a>(s: &'a [char], c: char) -> (r: Vec<&'a [char]>)
    ensures
        views(r@) == split(s@, c),
{
    let mut r: Vec<&'a [char]> = Vec::new();
    let mut i: usize = 0;
    loop
        invariant
            i <= s@.len(),
            split(s@, c) == views(r@) + split_from(s@, c, i as int),
        decreases s@.len() - i,
    {
        let k: usize = find(s, c, i);
        let ghost before = r@;
        r.push(slice_subrange(s, i, k));
        assert(views(r@) =~= views(before).push(s@.subrange(i as int, k as int)));
        if k == s.len() {
            assert(views(before) + split_from(s@, c, i as int) =~= views(r@));
            return r;
        }
        assert(views(before) + split_from(s@, c, i as int) =~= views(r@) + split_from(
            s@,
            c,
            k + 1,
        ));
        i = k + 1;
    }
}

/// What stands before the first `c`: the whole text where there is none.
pub open spec fn before(s: Seq<char>, c: char) -> Seq<char> {
    s.subrange(0, find_from(s, c, 0))
}

pub fn part_before<'a>(s: &'a [char], c: char) -> (r: &'a [char])
    ensures
        r@ == before(s@, c),
{
    let k: usize = find(s, c, 0);
    slice_subrange(s, 0, k)
}

/// The text before and behind the first `c`.
pub open spec fn cut(s: Seq<char>, c: char) -> Option<(Seq<char>, Seq<char>)> {
    let k = find_from(s, c, 0);
    if k < s.len() {
        Some((s.subrange(0, k), s.subrange(k + 1, s.len() as int)))
    } else {
        None
    }
}

pub open spec fn opt_pair(o: Option<(&[char], &[char])>) -> Option<(Seq<char>, Seq<char>)> {
    match o {
        Some((a, b)) => Some((a@, b@)),
        None => None,
    }
}

pub fn split_once<'a>(s: &'a [char], c: char) -> (r: Option<(&'a [char], &'a [char])>)
    ensures
        opt_pair(r) == cut(s@, c),
{
    let k: usize = find(s, c, 0);
    if k < s.len() {
        Some((slice_subrange(s, 0, k), slice_subrange(s, k + 1, s.len())))
    } else {
        None
    }
}

/// `s` without one carriage return at its end.
pub open spec fn without_cr(s: Seq<char>) -> Seq<char> {
    if s.len() > 0 && s.last() == '\r' {
        s.drop_last()
    } else {
        s
    }
}

/// The lines of `s` from `i` on: a line ends at a line feed, with or without a
/// carriage return before it; nothing follows the last line feed.
pub open spec fn lines_from(s: Seq<char>, i: int) -> Seq<Seq<char>>
    decreases s.len() - i,
{
    let k = find_from(s, '\n', i);
    if !(0 <= i < s.len()) {
        Seq::empty()
    } else if i <= k < s.len() {
        seq![without_cr(s.subrange(i, k))] + lines_from(s, k + 1)
    } else {
        seq![s.subrange(i, s.len() as int)]
    }
}

pub open spec fn lines(s: Seq<char>) -> Seq<Seq<char>> {
    lines_from(s, 0)
}

proof fn lemma_find_behind(a: Seq<char>, b: Seq<char>, c: char, i: int)
    requires
        0 <= i <= b.len(),
    ensures
        find_from(a + b, c, a.len() + i) == a.len() + find_from(b, c, i),
    decreases b.len() - i,
{
    if i < b.len() {
        assert((a + b)[a.len() + i] == b[i]);
        lemma_find_behind(a, b, c, i + 1);
    }
}

proof fn lemma_find_within(a: Seq<char>, b: Seq<char>, c: char, i: int)
    requires
        0 <= i <= a.len(),
        find_from(a, c, i) < a.len(),
    ensures
        find_from(a + b, c, i) == find_from(a, c, i),
    decreases a.len() - i,
{
    if i < a.len() {
        assert((a + b)[i] == a[i]);
        if a[i] != c {
            lemma_find_within(a, b, c, i + 1);
        }
    }
}

proof fn lemma_lines_behind(a: Seq<char>, b: Seq<char>, i: int)
    requires
        0 <= i <= b.len(),
    ensures
        lines_from(a + b, a.len() + i) == lines_from(b, i),
    decreases b.len() - i,
{
    let s = a + b;
    let n = a.len();
    lemma_find(b, '\n', i);
    lemma_find_behind(a, b, '\n', i);
    let k = find_from(b, '\n', i);
    if i < b.len() {
        if k < b.len() {
            lemma_lines_behind(a, b, k + 1);
            assert(s.subrange(n + i, n + k) =~= b.subrange(i, k));
        } else {
            assert(s.subrange(n + i, s.len() as int) =~= b.subrange(i, b.len() as int));
        }
    }
}

/// The lines of a text are those of a part that ends with a line, and then those of
/// the rest.
pub proof fn lemma_lines_join(a: Seq<char>, b: Seq<char>, i: int)
    requires
        a.len() == 0 || a.last() == '\n',
        0 <= i <= a.len(),
    ensures
        lines_from(a + b, i) == lines_from(a, i) + lines(b),
    decreases a.len() - i,
{
    let s = a + b;
    if i < a.len() {
        lemma_find(a, '\n', i);
        let k = find_from(a, '\n', i);
        assert(a[a.len() - 1] == '\n');
        assert(k < a.len());
        lemma_find_within(a, b, '\n', i);
        lemma_lines_join(a, b, k + 1);
        assert(s.subrange(i, k) =~= a.subrange(i, k));
        assert(lines_from(s, i) =~= lines_from(a, i) + lines(b));
    } else {
        lemma_lines_behind(a, b, 0);
        assert(lines_from(a, i) =~= Seq::empty());
        assert(lines_from(s, i) =~= lines_from(a, i) + lines(b));
    }
}

/// A line that is ended by a carriage return and a line feed is one line.
pub proof fn lemma_one_line(line: Seq<char>)
    requires
        forall|i: int| 0 <= i < line.len() ==> #[trigger] line[i] != '\n',
    ensures
        lines(line.push('\r').push('\n')) == seq![line],
{
    let s = line.push('\r').push('\n');
    let k = line.len() as int + 1;
    lemma_find(s, '\n', 0);
    assert(s[k] == '\n');
    assert forall|i: int| 0 <= i < k implies s[i] != '\n' by {
        if i < line.len() {
            assert(s[i] == line[i]);
        }
    }
    assert(find_from(s, '\n', 0) == k);
    assert(s.subrange(0, k) =~= line.push('\r'));
    assert(line.push('\r').drop_last() =~= line);
    assert(lines_from(s, k + 1) =~= Seq::empty());
    assert(lines(s) =~= seq![line]);
}

pub fn strip_cr<'a>(s: &'a [char]) -> (r: &'a [char])
    ensures
        r@ == without_cr(s@),
{
    if s.len() > 0 && s[s.len() - 1] == '\r' {
        slice_subrange(s, 0, s.len() - 1)
    } else {
        s
    }
}

pub fn lines_of<'a>(s: &'a [char]) -> (r: Vec<&'a [char]>)
    ensures
        views(r@) == lines(s@),
{
    let mut r: Vec<&'a [char]> = Vec::new();
    let mut i: usize = 0;
    assert(lines(s@) =~= views(r@) + lines_from(s@, i as int));
    while i < s.len()
        invariant
            i <= s@.len(),
            lines(s@) == views(r@) + lines_from(s@, i as int),
        decreases s@.len() - i,
    {
        let k: usize = find(s, '\n', i);
        let ghost before = r@;
        if k == s.len() {
            r.push(slice_subrange(s, i, k));
            assert(views(before) + lines_from(s@, i as int) =~= views(r@));
            return r;
        }
        r.push(strip_cr(slice_subrange(s, i, k)));
        assert(views(before) + lines_from(s@, i as int) =~= views(r@) + lines_from(s@, k + 1));
        i = k + 1;
    }
    assert(lines(s@) =~= views(r@));
    r
}

/// The first index at or after `i` that holds white space, or the length.
pub open spec fn find_white(s: Seq<char>, i: int) -> int
    decreases s.len() - i,
{
    if i < s.len() && !white(s[i]) {
        find_white(s, i + 1)
    } else {
        i
    }
}

pub proof fn lemma_find_white(s: Seq<char>, i: int)
    requires
        0 <= i <= s.len(),
    ensures
        i <= find_white(s, i) <= s.len(),
        i < s.len() && !white(s[i]) ==> i < find_white(s, i),
        forall|k: int| i <= k < find_white(s, i) ==> !white(s[k]),
    decreases s.len() - i,
{
    if i < s.len() && !white(s[i]) {
        lemma_find_white(s, i + 1);
    }
}

/// The words of `s` from `i` on: the longest runs without white space.
pub open spec fn words_from(s: Seq<char>, i: int) -> Seq<Seq<char>>
    decreases s.len() - i,
{
    let a = skip_white(s, i);
    let b = find_white(s, a);
    if 0 <= i <= a < b <= s.len() {
        seq![s.subrange(a, b)] + words_from(s, b)
    } else {
        Seq::empty()
    }
}

pub open spec fn words(s: Seq<char>) -> Seq<Seq<char>> {
    words_from(s, 0)
}

pub fn words_of<'a>(s: &'a [char]) -> (r: Vec<&'a [char]>)
    ensures
        views(r@) == words(s@),
{
    let mut r: Vec<&'a [char]> = Vec::new();
    let mut i: usize = 0;
    assert(words(s@) =~= views(r@) + words_from(s@, i as int));
    loop
        invariant
            i <= s@.len(),
            words(s@) == views(r@) + words_from(s@, i as int),
        decreases s@.len() - i,
    {
        proof {
            lemma_skip_white(s@, i as int);
        }
        let mut a: usize = i;
        while a < s.len() && is_white(s[a])
            invariant
                i <= a <= s@.len(),
                skip_white(s@, i as int) == skip_white(s@, a as int),
            decreases s@.len() - a,
        {
            a += 1;
        }
        proof {
            lemma_find_white(s@, a as int);
        }
        if a == s.len() {
            assert(words_from(s@, i as int) =~= Seq::empty());
            assert(words(s@) =~= views(r@));
            return r;
        }
        let mut b: usize = a;
        while b < s.len() && !is_white(s[b])
            invariant
                a <= b <= s@.len(),
                find_white(s@, a as int) == find_white(s@, b as int),
            decreases s@.len() - b,
        {
            b += 1;
        }
        let ghost before = r@;
        r.push(slice_subrange(s, a, b));
        assert(views(before) + words_from(s@, i as int) =~= views(r@) + words_from(s@, b as int));
        i = b;
    }
}

// ------------------------------------------------------------------- numbers

pub open spec fn all_digits(s: Seq<char>) -> bool {
    forall|i: int| 0 <= i < s.len() ==> digit(s[i])
}

/// The number that a run of decimal digits writes.
pub open spec fn decimal_value(s: Seq<char>) -> nat
    decreases s.len(),
{
    if s.len() == 0 {
        0
    } else {
        10 * decimal_value(s.drop_last()) + (s.last() as u32 - '0' as u32) as nat
    }
}

/// The digits behind an optional plus sign.
pub open spec fn unsigned_digits(s: Seq<char>) -> Seq<char> {
    if s.len() > 0 && s[0] == '+' {
        s.subrange(1, s.len() as int)
    } else {
        s
    }
}

/// The value of an unsigned decimal number of at most `max`.
pub open spec fn unsigned(s: Seq<char>, max: nat) -> Option<nat> {
    let d = unsigned_digits(s);
    if d.len() > 0 && all_digits(d) && decimal_value(d) <= max {
        Some(decimal_value(d))
    } else {
        None
    }
}

proof fn lemma_value_grows(s: Seq<char>, n: int)
    requires
        0 <= n <= s.len(),
        all_digits(s),
    ensures
        decimal_value(s.take(n)) <= decimal_value(s),
    decreases s.len(),
{
    if n < s.len() {
        lemma_value_grows(s.drop_last(), n);
        assert(s.drop_last().take(n) =~= s.take(n));
    } else {
        assert(s.take(n) =~= s);
    }
}

pub fn parse_unsigned(s: &[char], max: u64) -> (r: Option<u64>)
    ensures
        match r {
            Some(n) => unsigned(s@, max as nat) == Some(n as nat) && n <= max,
            None => unsigned(s@, max as nat) is None,
        },
{
    let start: usize = if s.len() > 0 && s[0] == '+' {
        1
    } else {
        0
    };
    let d = slice_subrange(s, start, s.len());
    assert(d@ =~= unsigned_digits(s@));
    if d.len() == 0 {
        return None;
    }
    let mut n: u64 = 0;
    let mut i: usize = 0;
    while i < d.len()
        invariant
            i <= d@.len(),
            d@ == unsigned_digits(s@),
            forall|k: int| 0 <= k < i ==> digit(d@[k]),
            n == decimal_value(d@.take(i as int)),
            n <= max,
        decreases d@.len() - i,
    {
        let c: char = d[i];
        if !is_digit(c) {
            assert(!digit(d@[i as int]));
            return None;
        }
        let v: u64 = (c as u32 - '0' as u32) as u64;
        let ghost next = d@.take(i + 1);
        assert(next.drop_last() =~= d@.take(i as int));
        proof {
            if all_digits(d@) {
                lemma_value_grows(d@, i + 1);
            }
        }
        if n > (u64::MAX - v) / 10 {
            assert(10 * n + v > u64::MAX) by {
                assert(n >= (u64::MAX - v) / 10 + 1);
            }
            return None;
        }
        n = 10 * n + v;
        if n > max {
            return None;
        }
        i += 1;
    }
    assert(d@.take(d@.len() as int) =~= d@);
    Some(n)
}

pub fn parse_u32(s: &[char]) -> (r: Option<u32>)
    ensures
        match r {
            Some(n) => unsigned(s@, u32::MAX as nat) == Some(n as nat),
            None => unsigned(s@, u32::MAX as nat) is None,
        },
{
    match parse_unsigned(s, u32::MAX as u64) {
        Some(n) => Some(n as u32),
        None => None,
    }
}

pub fn parse_u16(s: &[char]) -> (r: Option<u16>)
    ensures
        match r {
            Some(n) => unsigned(s@, u16::MAX as nat) == Some(n as nat),
            None => unsigned(s@, u16::MAX as nat) is None,
        },
{
    match parse_unsigned(s, u16::MAX as u64) {
        Some(n) => Some(n as u16),
        None => None,
    }
}

pub open spec fn digit_char(n: nat) -> char {
    (n + '0' as u32) as char
}

/// The decimal digits of `n`.
pub open spec fn decimal(n: nat) -> Seq<char>
    decreases n,
{
    if n < 10 {
        seq![digit_char(n)]
    } else {
        decimal(n / 10).push(digit_char(n % 10))
    }
}

pub fn push_decimal(out: &mut Vec<char>, n: u64)
    ensures
        final(out)@ == old(out)@ + decimal(n as nat),
    decreases n,
{
    let tail: u8 = (n % 10) as u8;
    if n >= 10 {
        push_decimal(out, n / 10);
    }
    out.push((tail + 48) as char);
    assert(out@ =~= old(out)@ + decimal(n as nat));
}

/// Writing a number and reading it back gives the number.
pub proof fn law_decimal_round_trip(n: nat)
    ensures
        decimal(n).len() > 0,
        all_digits(decimal(n)),
        decimal_value(decimal(n)) == n,
    decreases n,
{
    if n >= 10 {
        law_decimal_round_trip(n / 10);
        assert(decimal(n).drop_last() =~= decimal(n / 10));
    } else {
        reveal_with_fuel(decimal_value, 2);
        assert(decimal(n).drop_last() =~= Seq::empty());
    }
}

// ------------------------------------------------------------------ building

pub fn push_slice(out: &mut Vec<char>, s: &[char])
    ensures
        final(out)@ == old(out)@ + s@,
{
    let mut i: usize = 0;
    assert(out@ =~= old(out)@ + s@.take(0));
    while i < s.len()
        invariant
            i <= s@.len(),
            out@ == old(out)@ + s@.take(i as int),
        decreases s@.len() - i,
    {
        out.push(s[i]);
        assert(out@ =~= old(out)@ + s@.take(i + 1));
        i += 1;
    }
    assert(s@.take(s@.len() as int) =~= s@);
}

pub fn push_str(out: &mut Vec<char>, s: &str)
    ensures
        final(out)@ == old(out)@ + s@,
{
    let s_chars = chars_of(s);
    push_slice(out, s_chars.as_slice());
}

} // verus!
