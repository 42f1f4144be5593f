//! Character-sequence helpers with the meaning of the `str` methods that the
//! preprocessor relies on (`trim`, `lines`, `split`, ...).

use vstd::prelude::*;

verus! {

/// The Unicode `White_Space` property, as used by `char::is_whitespace`.
pub open spec fn is_ws(c: char) -> bool {
    ||| c == '\t'
    ||| c == '\n'
    ||| c == '\u{0B}'
    ||| c == '\u{0C}'
    ||| c == '\r'
    ||| c == ' '
    ||| c == '\u{85}'
    ||| c == '\u{A0}'
    ||| c == '\u{1680}'
    ||| ('\u{2000}' <= c && c <= '\u{200A}')
    ||| c == '\u{2028}'
    ||| c == '\u{2029}'
    ||| c == '\u{202F}'
    ||| c == '\u{205F}'
    ||| c == '\u{3000}'
}

pub fn is_whitespace(c: char) -> (r: bool)
    ensures
        r == is_ws(c),
{
    c == '\t' || c == '\n' || c == '\u{0B}' || c == '\u{0C}' || c == '\r' || c == ' ' || c
        == '\u{85}' || c == '\u{A0}' || c == '\u{1680}' || ('\u{2000}' <= c && c <= '\u{200A}')
        || c == '\u{2028}' || c == '\u{2029}' || c == '\u{202F}' || c == '\u{205F}' || c
        == '\u{3000}'
}

/// An ASCII letter or digit.
pub open spec fn is_ascii_alnum(c: char) -> bool {
    ('0' <= c && c <= '9') || ('a' <= c && c <= 'z') || ('A' <= c && c <= 'Z')
}

/// Name for what `char::is_alphanumeric` returns on `c` (the Unicode
/// `Alphabetic` or `Numeric` properties, which take tables to state).
pub uninterp spec fn unicode_alphanumeric(c: char) -> bool;

/// Calls `char::is_alphanumeric`. Trusted: the result is the named
/// `unicode_alphanumeric(c)`, a function of `c` alone; ASCII letters and
/// digits are alphanumeric (they are alphabetic or numeric, as the
/// documentation's examples show), and the space is not.
#[verifier::external_body]
pub(crate) fn char_is_alphanumeric(c: char) -> (r: bool)
    ensures
        r == unicode_alphanumeric(c),
        is_ascii_alnum(c) ==> r,
        c == ' ' ==> !r,
{
    c.is_alphanumeric()
}

/// An ASCII character (code point below 128).
pub open spec fn is_ascii_char(c: char) -> bool {
    c <= '\x7f'
}

/// First index `>= i` at which `s` does not hold whitespace (or `s.len()`).
pub open spec fn skip_ws_from(s: Seq<char>, i: int) -> int
    decreases s.len() - i,
{
    if 0 <= i < s.len() && is_ws(s[i]) {
        skip_ws_from(s, i + 1)
    } else {
        i
    }
}

/// Smallest index `<= j` such that `s[index..j]` is all whitespace.
pub open spec fn skip_ws_back(s: Seq<char>, j: int) -> int
    decreases j,
{
    if 0 < j <= s.len() && is_ws(s[j - 1]) {
        skip_ws_back(s, j - 1)
    } else {
        j
    }
}

/// `str::trim_start`
pub open spec fn trim_start(s: Seq<char>) -> Seq<char> {
    s.skip(skip_ws_from(s, 0))
}

/// `str::trim_end`
pub open spec fn trim_end(s: Seq<char>) -> Seq<char> {
    s.take(skip_ws_back(s, s.len() as int))
}

/// `str::trim`: leading and trailing whitespace removed.
pub open spec fn trim(s: Seq<char>) -> Seq<char> {
    trim_end(trim_start(s))
}

/// First index `>= i` holding `c`, or `s.len()` when there is none.
pub open spec fn find_from(s: Seq<char>, c: char, i: int) -> int
    decreases s.len() - i,
{
    if i < 0 {
        find_from(s, c, 0)
    } else if i < s.len() && s[i] != c {
        find_from(s, c, i + 1)
    } else if i < s.len() {
        i
    } else {
        s.len() as int
    }
}

/// First index `>= i` holding a whitespace character, or `s.len()`.
pub open spec fn find_ws_from(s: Seq<char>, i: int) -> int
    decreases s.len() - i,
{
    if 0 <= i < s.len() && !is_ws(s[i]) {
        find_ws_from(s, i + 1)
    } else {
        i
    }
}

/// `s.starts_with(p)`
pub open spec fn starts_with(s: Seq<char>, p: Seq<char>) -> bool {
    p.len() <= s.len() && s.take(p.len() as int) == p
}

/// `s.ends_with(p)`
pub open spec fn ends_with(s: Seq<char>, p: Seq<char>) -> bool {
    p.len() <= s.len() && s.skip(s.len() - p.len()) == p
}

/// `s.contains(c)`
pub open spec fn has_char(s: Seq<char>, c: char) -> bool {
    exists|i: int| 0 <= i < s.len() && s[i] == c
}

/// A line of `str::lines` taken from `s[i..j]`: a `\r` before the `\n` is dropped.
pub open spec fn strip_cr(s: Seq<char>) -> Seq<char> {
    if s.len() > 0 && s.last() == '\r' {
        s.drop_last()
    } else {
        s
    }
}

/// `str::lines` on the suffix of `s` starting at `i`.
pub open spec fn lines_from(s: Seq<char>, i: int) -> Seq<Seq<char>>
    decreases s.len() - i,
{
    if i < 0 || i >= s.len() {
        seq![]
    } else {
        let j = find_from(s, '\n', i);
        if j < s.len() {
            proof {
                lemma_find_from_bounds(s, '\n', i);
            }
            seq![strip_cr(s.subrange(i, j))] + lines_from(s, j + 1)
        } else {
            seq![s.subrange(i, s.len() as int)]
        }
    }
}

/// `str::lines`: the text split at `\n` or `\r\n`; a final line ending adds no empty line.
pub open spec fn lines(s: Seq<char>) -> Seq<Seq<char>> {
    lines_from(s, 0)
}

/// `str::split` with a single-character separator, on the suffix starting at `i`.
pub open spec fn split_from(s: Seq<char>, c: char, i: int) -> Seq<Seq<char>>
    decreases s.len() + 1 - i,
{
    if i < 0 || i > s.len() {
        seq![]
    } else {
        let j = find_from(s, c, i);
        if j < s.len() {
            proof {
                lemma_find_from_bounds(s, c, i);
            }
            seq![s.subrange(i, j)] + split_from(s, c, j + 1)
        } else {
            seq![s.subrange(i, s.len() as int)]
        }
    }
}

/// `s.split(c)`: always at least one piece.
pub open spec fn split(s: Seq<char>, c: char) -> Seq<Seq<char>> {
    split_from(s, c, 0)
}

/// `s.split_whitespace().next().unwrap_or(s)`
pub open spec fn first_word(s: Seq<char>) -> Seq<char> {
    let a = skip_ws_from(s, 0);
    if a >= s.len() {
        s
    } else {
        s.subrange(a, find_ws_from(s, a))
    }
}

pub proof fn lemma_find_from_bounds(s: Seq<char>, c: char, i: int)
    requires
        0 <= i,
    ensures
        i <= find_from(s, c, i) <= if i <= s.len() {
            s.len() as int
        } else {
            i
        } || (i > s.len() && find_from(s, c, i) == s.len()),
        find_from(s, c, i) < s.len() ==> s[find_from(s, c, i)] == c,
        forall|k: int| i <= k < find_from(s, c, i) ==> s[k] != c,
    decreases s.len() - i,
{
    if i < s.len() && s[i] != c {
        lemma_find_from_bounds(s, c, i + 1);
    }
}

pub proof fn lemma_skip_ws_from_bounds(s: Seq<char>, i: int)
    requires
        0 <= i <= s.len(),
    ensures
        i <= skip_ws_from(s, i) <= s.len(),
        skip_ws_from(s, i) < s.len() ==> !is_ws(s[skip_ws_from(s, i)]),
        forall|k: int| i <= k < skip_ws_from(s, i) ==> is_ws(s[k]),
    decreases s.len() - i,
{
    if i < s.len() && is_ws(s[i]) {
        lemma_skip_ws_from_bounds(s, i + 1);
    }
}

pub proof fn lemma_skip_ws_back_bounds(s: Seq<char>, j: int)
    requires
        0 <= j <= s.len(),
    ensures
        0 <= skip_ws_back(s, j) <= j,
        skip_ws_back(s, j) > 0 ==> !is_ws(s[skip_ws_back(s, j) - 1]),
        forall|k: int| skip_ws_back(s, j) <= k < j ==> is_ws(s[k]),
    decreases j,
{
    if 0 < j && is_ws(s[j - 1]) {
        lemma_skip_ws_back_bounds(s, j - 1);
    }
}

pub proof fn lemma_find_ws_from_bounds(s: Seq<char>, i: int)
    requires
        0 <= i <= s.len(),
    ensures
        i <= find_ws_from(s, i) <= s.len(),
    decreases s.len() - i,
{
    if i < s.len() && !is_ws(s[i]) {
        lemma_find_ws_from_bounds(s, i + 1);
    }
}

/// Bounds `(a, b)` with `s[a..b] == trim(s[lo..hi])`.
pub fn trim_bounds(s: &[char], lo: usize, hi: usize) -> (r: (usize, usize))
    requires
        lo <= hi <= s@.len(),
    ensures
        lo <= r.0 <= r.1 <= hi,
        s@.subrange(r.0 as int, r.1 as int) == trim(s@.subrange(lo as int, hi as int)),
{
    let ghost t = s@.subrange(lo as int, hi as int);
    let mut a = lo;
    while a < hi && is_whitespace(s[a])
        invariant
            lo <= a <= hi <= s@.len(),
            t == s@.subrange(lo as int, hi as int),
            skip_ws_from(t, (a - lo) as int) == skip_ws_from(t, 0),
        decreases hi - a,
    {
        a = a + 1;
    }
    assert(skip_ws_from(t, 0) == a - lo);
    let ghost u = t.skip((a - lo) as int);
    assert(u =~= s@.subrange(a as int, hi as int));
    let mut b = hi;
    while b > a && is_whitespace(s[b - 1])
        invariant
            lo <= a <= b <= hi <= s@.len(),
            u == s@.subrange(a as int, hi as int),
            skip_ws_back(u, (b - a) as int) == skip_ws_back(u, u.len() as int),
        decreases b,
    {
        b = b - 1;
    }
    assert(skip_ws_back(u, (b - a) as int) == b - a);
    assert(s@.subrange(a as int, b as int) =~= u.take((b - a) as int));
    (a, b)
}

/// A copy of `s[lo..hi]`.
pub fn copy_range(s: &[char], lo: usize, hi: usize) -> (r: Vec<char>)
    requires
        lo <= hi <= s@.len(),
    ensures
        r@ == s@.subrange(lo as int, hi as int),
{
    let mut r: Vec<char> = Vec::new();
    let mut k = lo;
    while k < hi
        invariant
            lo <= k <= hi <= s@.len(),
            r@ == s@.subrange(lo as int, k as int),
        decreases hi - k,
    {
        r.push(s[k]);
        k = k + 1;
        assert(r@ =~= s@.subrange(lo as int, k as int));
    }
    r
}

/// `s.trim()`, copied out.
pub fn trim_chars(s: &[char]) -> (r: Vec<char>)
    ensures
        r@ == trim(s@),
{
    let (a, b) = trim_bounds(s, 0, s.len());
    assert(s@.subrange(0, s@.len() as int) =~= s@);
    copy_range(s, a, b)
}

/// `s[i..].starts_with(p)`
pub fn starts_with_at(s: &[char], i: usize, p: &[char]) -> (r: bool)
    requires
        i <= s@.len(),
    ensures
        r == starts_with(s@.skip(i as int), p@),
{
    if p.len() > s.len() - i {
        return false;
    }
    let mut k: usize = 0;
    while k < p.len()
        invariant
            i + p@.len() <= s@.len(),
            s@.len() <= usize::MAX,
            0 <= k <= p@.len(),
            forall|m: int| 0 <= m < k ==> s@[i + m] == p@[m],
        decreases p@.len() - k,
    {
        if s[i + k] != p[k] {
            assert(s@.skip(i as int).take(p@.len() as int)[k as int] != p@[k as int]);
            return false;
        }
        k = k + 1;
    }
    assert(s@.skip(i as int).take(p@.len() as int) =~= p@);
    true
}

/// `s.ends_with(p)`
pub fn ends_with_chars(s: &[char], p: &[char]) -> (r: bool)
    ensures
        r == ends_with(s@, p@),
{
    if p.len() > s.len() {
        return false;
    }
    let off = s.len() - p.len();
    let r = starts_with_at(s, off, p);
    assert(s@.skip(off as int).take(p@.len() as int) =~= s@.skip(off as int));
    r
}

/// `s.contains(c)`
pub fn contains_char(s: &[char], c: char) -> (r: bool)
    ensures
        r == has_char(s@, c),
{
    let mut k: usize = 0;
    while k < s.len()
        invariant
            0 <= k <= s@.len(),
            forall|m: int| 0 <= m < k ==> s@[m] != c,
        decreases s@.len() - k,
    {
        if s[k] == c {
            return true;
        }
        k = k + 1;
    }
    false
}

/// Index of the first `c` in `s[i..]`, or `s.len()`.
pub fn find_char_from(s: &[char], c: char, i: usize) -> (r: usize)
    requires
        i <= s@.len(),
    ensures
        r == find_from(s@, c, i as int),
        i <= r <= s@.len(),
{
    let mut k = i;
    while k < s.len() && s[k] != c
        invariant
            i <= k <= s@.len(),
            find_from(s@, c, k as int) == find_from(s@, c, i as int),
        decreases s@.len() - k,
    {
        k = k + 1;
    }
    k
}

/// Equality of two character sequences.
pub fn chars_eq(a: &[char], b: &[char]) -> (r: bool)
    ensures
        r == (a@ == b@),
{
    if a.len() != b.len() {
        return false;
    }
    let mut k: usize = 0;
    while k < a.len()
        invariant
            a@.len() == b@.len(),
            0 <= k <= a@.len(),
            forall|m: int| 0 <= m < k ==> a@[m] == b@[m],
        decreases a@.len() - k,
    {
        if a[k] != b[k] {
            return false;
        }
        k = k + 1;
    }
    assert(a@ =~= b@);
    true
}

/// `s.lines()`, each line copied out.
pub fn split_lines(s: &[char]) -> (r: Vec<Vec<char>>)
    ensures
        r@.len() == lines(s@).len(),
        forall|k: int| 0 <= k < r@.len() ==> #[trigger] r@[k]@ == lines(s@)[k],
{
    let mut r: Vec<Vec<char>> = Vec::new();
    let mut i: usize = 0;
    let ghost acc: Seq<Seq<char>> = seq![];
    while i < s.len()
        invariant
            0 <= i <= s@.len(),
            acc.len() == r@.len(),
            forall|k: int| 0 <= k < r@.len() ==> #[trigger] r@[k]@ == acc[k],
            acc + lines_from(s@, i as int) == lines(s@),
        decreases s@.len() - i,
    {
        let j = find_char_from(s, '\n', i);
        if j < s.len() {
            let mut end = j;
            if end > i && s[end - 1] == '\r' {
                end = end - 1;
            }
            let line = copy_range(s, i, end);
            assert(line@ == strip_cr(s@.subrange(i as int, j as int))) by {
                if j > i && s@[j - 1] == '\r' {
                    assert(s@.subrange(i as int, j as int).drop_last() =~= s@.subrange(
                        i as int,
                        j - 1,
                    ));
                }
            }
            proof {
                acc = acc.push(line@);
            }
            r.push(line);
            i = j + 1;
        } else {
            let line = copy_range(s, i, s.len());
            proof {
                acc = acc.push(line@);
            }
            r.push(line);
            i = s.len();
        }
    }
    assert(acc =~= lines(s@));
    r
}

/// `s.split(c)`, each piece copied out.
pub fn split_on(s: &[char], c: char) -> (r: Vec<Vec<char>>)
    ensures
        r@.len() == split(s@, c).len(),
        forall|k: int| 0 <= k < r@.len() ==> #[trigger] r@[k]@ == split(s@, c)[k],
{
    let mut r: Vec<Vec<char>> = Vec::new();
    let mut i: usize = 0;
    let ghost acc: Seq<Seq<char>> = seq![];
    loop
        invariant
            0 <= i <= s@.len(),
            acc.len() == r@.len(),
            forall|k: int| 0 <= k < r@.len() ==> #[trigger] r@[k]@ == acc[k],
            acc + split_from(s@, c, i as int) == split(s@, c),
        decreases s@.len() - i,
    {
        let j = find_char_from(s, c, i);
        let piece = copy_range(s, i, j);
        proof {
            acc = acc.push(piece@);
        }
        r.push(piece);
        if j < s.len() {
            i = j + 1;
        } else {
            assert(acc =~= split(s@, c));
            return r;
        }
    }
}

/// Appends all of `s` to `v`.
pub fn append_chars(v: &mut Vec<char>, s: &[char])
    ensures
        final(v)@ == old(v)@ + s@,
{
    let mut k: usize = 0;
    while k < s.len()
        invariant
            0 <= k <= s@.len(),
            v@ == old(v)@ + s@.take(k as int),
        decreases s@.len() - k,
    {
        v.push(s[k]);
        k = k + 1;
        assert(v@ =~= old(v)@ + s@.take(k as int));
    }
    assert(s@.take(s@.len() as int) =~= s@);
}

/// `s.split_whitespace().next().unwrap_or(s)`, copied out.
pub fn first_word_chars(s: &[char]) -> (r: Vec<char>)
    ensures
        r@ == first_word(s@),
{
    let mut a: usize = 0;
    while a < s.len() && is_whitespace(s[a])
        invariant
            0 <= a <= s@.len(),
            skip_ws_from(s@, a as int) == skip_ws_from(s@, 0),
        decreases s@.len() - a,
    {
        a = a + 1;
    }
    if a >= s.len() {
        let r = copy_range(s, 0, s.len());
        assert(s@.subrange(0, s@.len() as int) =~= s@);
        return r;
    }
    let mut b = a;
    while b < s.len() && !is_whitespace(s[b])
        invariant
            a <= b <= s@.len(),
            find_ws_from(s@, b as int) == find_ws_from(s@, a as int),
        decreases s@.len() - b,
    {
        b = b + 1;
    }
    copy_range(s, a, b)
}

} // verus!
