//! Character-sequence algorithms shared by the parsers.
//!
//! Every function here works on the `char` sequence of a string, which is what
//! Verus sees as the view of `str` and `String`. Each spec function states the
//! behaviour of the corresponding `str` method of std on the inputs that the
//! library passes to it.
use vstd::prelude::*;

verus! {

broadcast use vstd::string::group_string_axioms;

/// `char::is_ascii_digit`.
pub open spec fn is_digit(c: char) -> bool {
    '0' <= c && c <= '9'
}

/// `char::is_whitespace`: the Unicode `White_Space` property.
pub open spec fn is_white_space(c: char) -> bool {
    ||| ('\u{9}' <= c && c <= '\u{d}')
    ||| c == ' '
    ||| c == '\u{85}'
    ||| c == '\u{a0}'
    ||| c == '\u{1680}'
    ||| ('\u{2000}' <= c && c <= '\u{200a}')
    ||| c == '\u{2028}'
    ||| c == '\u{2029}'
    ||| c == '\u{202f}'
    ||| c == '\u{205f}'
    ||| c == '\u{3000}'
}

/// `str::trim_start`.
pub open spec fn trim_start(s: Seq<char>) -> Seq<char>
    decreases s.len(),
{
    if s.len() > 0 && is_white_space(s[0]) {
        trim_start(s.drop_first())
    } else {
        s
    }
}

/// `str::trim_end`.
pub open spec fn trim_end(s: Seq<char>) -> Seq<char>
    decreases s.len(),
{
    if s.len() > 0 && is_white_space(s.last()) {
        trim_end(s.drop_last())
    } else {
        s
    }
}

/// `str::trim`.
pub open spec fn trim(s: Seq<char>) -> Seq<char> {
    trim_end(trim_start(s))
}

/// `p` occurs in `s` at position `i`.
pub open spec fn occurs_at(s: Seq<char>, p: Seq<char>, i: int) -> bool {
    0 <= i && i + p.len() <= s.len() && s.subrange(i, i + p.len()) == p
}

/// The first position at or after `i` where `p` occurs in `s`.
pub open spec fn find_from(s: Seq<char>, p: Seq<char>, i: int) -> Option<int>
    decreases s.len() - i,
{
    if i < 0 || i + p.len() > s.len() {
        None
    } else if occurs_at(s, p, i) {
        Some(i)
    } else if i >= s.len() {
        None
    } else {
        find_from(s, p, i + 1)
    }
}

/// `str::find`.
pub open spec fn find(s: Seq<char>, p: Seq<char>) -> Option<int> {
    find_from(s, p, 0)
}

/// `str::contains`.
pub open spec fn contains(s: Seq<char>, p: Seq<char>) -> bool {
    find(s, p) is Some
}

/// `str::starts_with`.
pub open spec fn starts_with(s: Seq<char>, p: Seq<char>) -> bool {
    occurs_at(s, p, 0)
}

/// `str::replace` on `s[i..]`: the non-overlapping occurrences of `p`, found from
/// left to right, are replaced by `r`.
pub open spec fn replace_from(s: Seq<char>, p: Seq<char>, r: Seq<char>, i: int) -> Seq<char>
    decreases s.len() - i,
{
    if i < 0 || i >= s.len() || p.len() == 0 {
        s.subrange(if 0 <= i <= s.len() { i } else { s.len() as int }, s.len() as int)
    } else if occurs_at(s, p, i) {
        r + replace_from(s, p, r, i + p.len())
    } else {
        seq![s[i]] + replace_from(s, p, r, i + 1)
    }
}

/// `str::replace`.
pub open spec fn replace(s: Seq<char>, p: Seq<char>, r: Seq<char>) -> Seq<char> {
    replace_from(s, p, r, 0)
}

/// The last piece of `s[start..]` split at the non-overlapping occurrences of `p`,
/// scanning from `i`: `str::split(p).last()`.
pub open spec fn last_piece_from(s: Seq<char>, p: Seq<char>, i: int, start: int) -> Seq<char>
    decreases s.len() - i,
{
    if i < 0 || p.len() == 0 || i + p.len() > s.len() || start > s.len() || start < 0 {
        s.subrange(if 0 <= start <= s.len() { start } else { s.len() as int }, s.len() as int)
    } else if occurs_at(s, p, i) {
        last_piece_from(s, p, i + p.len(), i + p.len())
    } else {
        last_piece_from(s, p, i + 1, start)
    }
}

/// `str::split(p).last()` (which always has a value).
pub open spec fn last_piece(s: Seq<char>, p: Seq<char>) -> Seq<char> {
    last_piece_from(s, p, 0, 0)
}

/// The `n`-th piece of `s`, split at `sep`, scanning from `i` with the current
/// piece starting at `start`: `str::split(sep).nth(n)`.
pub open spec fn nth_piece_from(s: Seq<char>, sep: char, i: int, start: int, n: nat) -> Option<Seq<char>>
    decreases s.len() - i,
{
    if i < start || start < 0 || i >= s.len() {
        if n == 0 && 0 <= start <= s.len() {
            Some(s.subrange(start, s.len() as int))
        } else {
            None
        }
    } else if s[i] == sep {
        if n == 0 {
            Some(s.subrange(start, i))
        } else {
            nth_piece_from(s, sep, i + 1, i + 1, (n - 1) as nat)
        }
    } else {
        nth_piece_from(s, sep, i + 1, start, n)
    }
}

/// `str::split(sep).nth(n)`.
pub open spec fn nth_piece(s: Seq<char>, sep: char, n: nat) -> Option<Seq<char>> {
    nth_piece_from(s, sep, 0, 0, n)
}

/// The characters of a string slice, in order.
pub fn chars_of(s: &str) -> (res: Vec<char>)
    ensures
        res@ == s@,
{
    let mut res: Vec<char> = Vec::new();
    for c in it: s.chars()
        invariant
            res@ == it.seq().take(it.index() as int),
            it.seq() == s@,
    {
        res.push(c);
    }
    res
}

/// A string holding the given characters.
#[verifier::external_body]
pub(crate) fn string_of(v: &[char]) -> (res: String)
    ensures
        res@ == v@,
{
    v.iter().collect()
}

/// The characters of an optional string.
pub open spec fn opt_chars(o: Option<String>) -> Option<Seq<char>> {
    match o {
        Some(s) => Some(s@),
        None => None,
    }
}

/// `a` followed by `b`.
pub fn concat_chars(a: &Vec<char>, b: &Vec<char>) -> (res: Vec<char>)
    ensures
        res@ == a@ + b@,
{
    let mut res: Vec<char> = Vec::new();
    let mut i: usize = 0;
    while i < a.len()
        invariant
            i <= a.len(),
            res@ == a@.take(i as int),
        decreases a.len() - i,
    {
        res.push(a[i]);
        assert(a@.take(i + 1) =~= a@.take(i as int).push(a@[i as int]));
        i += 1;
    }
    let mut j: usize = 0;
    while j < b.len()
        invariant
            j <= b.len(),
            i == a.len(),
            res@ == a@ + b@.take(j as int),
        decreases b.len() - j,
    {
        res.push(b[j]);
        assert(a@ + b@.take(j + 1) =~= (a@ + b@.take(j as int)).push(b@[j as int]));
        j += 1;
    }
    assert(a@.take(a.len() as int) =~= a@);
    assert(b@.take(b.len() as int) =~= b@);
    res
}

/// `s[i..j]` as a new vector.
pub fn slice_of(s: &Vec<char>, i: usize, j: usize) -> (res: Vec<char>)
    requires
        i <= j <= s.len(),
    ensures
        res@ == s@.subrange(i as int, j as int),
{
    let mut res: Vec<char> = Vec::new();
    let mut k = i;
    while k < j
        invariant
            i <= k <= j <= s.len(),
            res@ == s@.subrange(i as int, k as int),
        decreases j - k,
    {
        res.push(s[k]);
        k += 1;
    }
    res
}

/// `c.is_ascii_digit()`.
pub fn char_is_digit(c: char) -> (res: bool)
    ensures
        res == is_digit(c),
{
    '0' <= c && c <= '9'
}

/// `c.is_whitespace()`.
pub fn char_is_white_space(c: char) -> (res: bool)
    ensures
        res == is_white_space(c),
{
    ('\u{9}' <= c && c <= '\u{d}') || c == ' ' || c == '\u{85}' || c == '\u{a0}'
        || c == '\u{1680}' || ('\u{2000}' <= c && c <= '\u{200a}') || c == '\u{2028}'
        || c == '\u{2029}' || c == '\u{202f}' || c == '\u{205f}' || c == '\u{3000}'
}

/// `str::trim`.
pub fn trim_chars(s: &Vec<char>) -> (res: Vec<char>)
    ensures
        res@ == trim(s@),
{
    let n = s.len();
    let mut i: usize = 0;
    assert(s@.subrange(0, n as int) =~= s@);
    while i < n && char_is_white_space(s[i])
        invariant
            i <= n == s.len(),
            trim_start(s@) == trim_start(s@.subrange(i as int, n as int)),
        decreases n - i,
    {
        assert(s@.subrange(i as int, n as int).drop_first() =~= s@.subrange(i + 1, n as int));
        i += 1;
    }
    assert(trim_start(s@) == s@.subrange(i as int, n as int));
    let mut j: usize = n;
    while j > i && char_is_white_space(s[j - 1])
        invariant
            i <= j <= n == s.len(),
            trim(s@) == trim_end(s@.subrange(i as int, j as int)),
        decreases j - i,
    {
        assert(s@.subrange(i as int, j as int).drop_last() =~= s@.subrange(i as int, j - 1));
        j -= 1;
    }
    slice_of(s, i, j)
}

/// Whether `p` occurs in `s` at position `i`.
pub fn occurs_at_exec(s: &Vec<char>, p: &Vec<char>, i: usize) -> (res: bool)
    ensures
        res == occurs_at(s@, p@, i as int),
{
    if i > s.len() || p.len() > s.len() - i {
        return false;
    }
    let mut k: usize = 0;
    while k < p.len()
        invariant
            i + p.len() <= s.len(),
            k <= p.len(),
            forall|m: int| 0 <= m < k ==> s@[i + m] == p@[m],
        decreases p.len() - k,
    {
        if s[i + k] != p[k] {
            assert(s@.subrange(i as int, i + p.len())[k as int] != p@[k as int]);
            return false;
        }
        k += 1;
    }
    assert(s@.subrange(i as int, i + p.len()) =~= p@);
    true
}

/// `str::find`.
pub fn find_chars(s: &Vec<char>, p: &Vec<char>) -> (res: Option<usize>)
    ensures
        match res {
            Some(i) => find(s@, p@) == Some(i as int),
            None => find(s@, p@) is None,
        },
{
    if p.len() > s.len() {
        return None;
    }
    let last = s.len() - p.len();
    let mut i: usize = 0;
    loop
        invariant
            i <= last == s.len() - p.len(),
            find(s@, p@) == find_from(s@, p@, i as int),
        decreases last - i,
    {
        if occurs_at_exec(s, p, i) {
            return Some(i);
        }
        if i == last {
            assert(find_from(s@, p@, i + 1) is None);
            return None;
        }
        i += 1;
    }
}

/// `str::contains`.
pub fn contains_chars(s: &Vec<char>, p: &Vec<char>) -> (res: bool)
    ensures
        res == contains(s@, p@),
{
    find_chars(s, p).is_some()
}

/// `str::starts_with`.
pub fn starts_with_chars(s: &Vec<char>, p: &Vec<char>) -> (res: bool)
    ensures
        res == starts_with(s@, p@),
{
    occurs_at_exec(s, p, 0)
}

/// `str::replace` with a non-empty pattern.
pub fn replace_chars(s: &Vec<char>, p: &Vec<char>, r: &Vec<char>) -> (res: Vec<char>)
    requires
        p.len() > 0,
    ensures
        res@ == replace(s@, p@, r@),
{
    let mut out: Vec<char> = Vec::new();
    let mut i: usize = 0;
    while i < s.len()
        invariant
            i <= s.len(),
            p.len() > 0,
            replace(s@, p@, r@) == out@ + replace_from(s@, p@, r@, i as int),
        decreases s.len() - i,
    {
        if occurs_at_exec(s, p, i) {
            let mut k: usize = 0;
            let ghost before = out@;
            while k < r.len()
                invariant
                    k <= r.len(),
                    out@ == before + r@.subrange(0, k as int),
                decreases r.len() - k,
            {
                out.push(r[k]);
                k += 1;
            }
            assert(r@.subrange(0, r.len() as int) =~= r@);
            assert(before + (r@ + replace_from(s@, p@, r@, i + p.len())) =~= out@ + replace_from(s@, p@, r@, i + p.len()));
            i = i + p.len();
        } else {
            let ghost before = out@;
            out.push(s[i]);
            assert(before + (seq![s@[i as int]] + replace_from(s@, p@, r@, i + 1)) =~= out@ + replace_from(s@, p@, r@, i + 1));
            i += 1;
        }
    }
    assert(replace_from(s@, p@, r@, i as int) =~= Seq::<char>::empty());
    assert(out@ + Seq::<char>::empty() =~= out@);
    out
}

/// `str::split(p).last()`, which always has a value, for a non-empty pattern.
pub fn last_piece_chars(s: &Vec<char>, p: &Vec<char>) -> (res: Vec<char>)
    requires
        p.len() > 0,
    ensures
        res@ == last_piece(s@, p@),
{
    let mut i: usize = 0;
    let mut start: usize = 0;
    while i < s.len() && p.len() <= s.len() - i
        invariant
            start <= i <= s.len(),
            p.len() > 0,
            last_piece(s@, p@) == last_piece_from(s@, p@, i as int, start as int),
        decreases s.len() - i,
    {
        if occurs_at_exec(s, p, i) {
            i = i + p.len();
            start = i;
        } else {
            i += 1;
        }
    }
    slice_of(s, start, s.len())
}

/// `str::split(sep).nth(n)`.
pub fn nth_piece_chars(s: &Vec<char>, sep: char, n: usize) -> (res: Option<Vec<char>>)
    ensures
        match res {
            Some(v) => nth_piece(s@, sep, n as nat) == Some(v@),
            None => nth_piece(s@, sep, n as nat) is None,
        },
{
    let mut i: usize = 0;
    let mut start: usize = 0;
    let mut k: usize = n;
    while i < s.len()
        invariant
            start <= i <= s.len(),
            nth_piece(s@, sep, n as nat) == nth_piece_from(s@, sep, i as int, start as int, k as nat),
        decreases s.len() - i,
    {
        if s[i] == sep {
            if k == 0 {
                return Some(slice_of(s, start, i));
            }
            k -= 1;
            i += 1;
            start = i;
        } else {
            i += 1;
        }
    }
    if k == 0 {
        Some(slice_of(s, start, s.len()))
    } else {
        None
    }
}

} // verus!
