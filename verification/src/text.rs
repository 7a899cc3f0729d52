//! Character-level string algorithms with specifications over `Seq<char>`.
//!
//! The functions here mirror the behaviour of the corresponding `str`
//! methods of the standard library (`trim`, `lines`, `split`, `replace`,
//! `starts_with`, ...) and are proved against short specifications.
use vstd::prelude::*;

verus! {

/// Appends one character to a `String` (std's `String::push`).
#[verifier::external_body]
pub(crate) fn push_char(s: &mut String, c: char)
    ensures
        final(s)@ == old(s)@.push(c),
{
    s.push(c);
}

/// The characters of a string slice, in order.
pub fn chars_of(s: &str) -> (r: Vec<char>)
    ensures
        r@ == s@,
{
    let mut r: Vec<char> = Vec::new();
    for c in it: s.chars()
        invariant
            r@ == it.seq().take(it.index() as int),
    {
        r.push(c);
    }
    r
}

/// Builds a `String` from a slice of characters.
pub fn string_of(cs: &[char]) -> (r: String)
    ensures
        r@ == cs@,
{
    let mut r = String::new();
    let mut i: usize = 0;
    while i < cs.len()
        invariant
            i <= cs@.len(),
            r@ == cs@.take(i as int),
        decreases cs@.len() - i,
    {
        push_char(&mut r, cs[i]);
        i = i + 1;
        assert(r@ =~= cs@.take(i as int));
    }
    assert(cs@.take(i as int) =~= cs@);
    r
}

/// Unicode `White_Space`, as used by `char::is_whitespace`.
pub open spec fn is_ws(c: char) -> bool {
    ||| c == ' '
    ||| ('\u{9}' <= c && c <= '\u{d}')
    ||| c == '\u{85}'
    ||| c == '\u{a0}'
    ||| c == '\u{1680}'
    ||| ('\u{2000}' <= c && c <= '\u{200a}')
    ||| c == '\u{2028}'
    ||| c == '\u{2029}'
    ||| c == '\u{202f}'
    ||| c == '\u{205f}'
    ||| c == '\u{3000}'
}

/// Whether `c` is Unicode white space.
pub fn is_whitespace(c: char) -> (r: bool)
    ensures
        r == is_ws(c),
{
    c == ' ' || ('\u{9}' <= c && c <= '\u{d}') || c == '\u{85}' || c == '\u{a0}' || c == '\u{1680}'
        || ('\u{2000}' <= c && c <= '\u{200a}') || c == '\u{2028}' || c == '\u{2029}' || c
        == '\u{202f}' || c == '\u{205f}' || c == '\u{3000}'
}

/// `s` without its leading white space.
pub open spec fn trim_start(s: Seq<char>) -> Seq<char>
    decreases s.len(),
{
    if s.len() > 0 && is_ws(s[0]) {
        trim_start(s.drop_first())
    } else {
        s
    }
}

/// `s` without its trailing white space.
pub open spec fn trim_end(s: Seq<char>) -> Seq<char>
    decreases s.len(),
{
    if s.len() > 0 && is_ws(s.last()) {
        trim_end(s.drop_last())
    } else {
        s
    }
}

/// `s` without leading and trailing white space (`str::trim`).
pub open spec fn trim(s: Seq<char>) -> Seq<char> {
    trim_end(trim_start(s))
}

/// `s` without any leading or trailing occurrence of `c` (`str::trim_matches`).
pub open spec fn trim_char(s: Seq<char>, c: char) -> Seq<char> {
    trim_char_end(trim_char_start(s, c), c)
}

pub open spec fn trim_char_start(s: Seq<char>, c: char) -> Seq<char>
    decreases s.len(),
{
    if s.len() > 0 && s[0] == c {
        trim_char_start(s.drop_first(), c)
    } else {
        s
    }
}

pub open spec fn trim_char_end(s: Seq<char>, c: char) -> Seq<char>
    decreases s.len(),
{
    if s.len() > 0 && s.last() == c {
        trim_char_end(s.drop_last(), c)
    } else {
        s
    }
}

/// Whether `s` begins with `p`.
pub open spec fn starts_with(s: Seq<char>, p: Seq<char>) -> bool {
    p.len() <= s.len() && s.take(p.len() as int) == p
}

/// Whether `s` ends with `p`.
pub open spec fn ends_with(s: Seq<char>, p: Seq<char>) -> bool {
    p.len() <= s.len() && s.skip(s.len() - p.len()) == p
}

/// Whether `p` occurs in `s` at position `i`.
pub open spec fn occurs_at(s: Seq<char>, p: Seq<char>, i: int) -> bool {
    0 <= i && i + p.len() <= s.len() && s.subrange(i, i + p.len()) == p
}

/// Whether `p` occurs anywhere in `s` (`str::contains`).
pub open spec fn contains(s: Seq<char>, p: Seq<char>) -> bool {
    exists|i: int| occurs_at(s, p, i)
}

/// `str::replace`: every non-overlapping occurrence of `from`, taken from
/// the left, replaced by `to`. An empty `from` matches before every
/// character and at the end.
pub open spec fn replace_all(s: Seq<char>, from: Seq<char>, to: Seq<char>) -> Seq<char>
    decreases s.len(), from.len(),
{
    if from.len() == 0 {
        if s.len() == 0 {
            to
        } else {
            to + seq![s[0]] + replace_all(s.drop_first(), from, to)
        }
    } else if s.len() < from.len() {
        s
    } else if s.take(from.len() as int) == from {
        to + replace_all(s.skip(from.len() as int), from, to)
    } else {
        seq![s[0]] + replace_all(s.drop_first(), from, to)
    }
}

/// The state of splitting `s` at `sep`: the finished pieces and the piece in progress.
pub open spec fn split_state(s: Seq<char>, sep: char) -> (Seq<Seq<char>>, Seq<char>)
    decreases s.len(),
{
    if s.len() == 0 {
        (Seq::empty(), Seq::empty())
    } else {
        let (done, cur) = split_state(s.drop_last(), sep);
        if s.last() == sep {
            (done.push(cur), Seq::empty())
        } else {
            (done, cur.push(s.last()))
        }
    }
}

/// `str::split` at a single character: always at least one piece.
pub open spec fn split(s: Seq<char>, sep: char) -> Seq<Seq<char>> {
    let (done, cur) = split_state(s, sep);
    done.push(cur)
}

/// A line without the `'\r'` that precedes its `'\n'`.
pub open spec fn strip_cr(line: Seq<char>) -> Seq<char> {
    if line.len() > 0 && line.last() == '\r' {
        line.drop_last()
    } else {
        line
    }
}

/// The state of splitting `s` into lines: the finished lines and the line in progress.
pub open spec fn lines_state(s: Seq<char>) -> (Seq<Seq<char>>, Seq<char>)
    decreases s.len(),
{
    if s.len() == 0 {
        (Seq::empty(), Seq::empty())
    } else {
        let (done, cur) = lines_state(s.drop_last());
        if s.last() == '\n' {
            (done.push(strip_cr(cur)), Seq::empty())
        } else {
            (done, cur.push(s.last()))
        }
    }
}

/// `str::lines`: pieces between `'\n'` (with a preceding `'\r'` removed);
/// a final line terminator is optional and an empty string has no lines.
pub open spec fn lines(s: Seq<char>) -> Seq<Seq<char>> {
    let (done, cur) = lines_state(s);
    if cur.len() > 0 {
        done.push(cur)
    } else {
        done
    }
}

/// Index of the first `c` in `s`.
pub open spec fn first_index_of(s: Seq<char>, c: char) -> Option<int> {
    if exists|i: int| 0 <= i < s.len() && s[i] == c {
        Some(choose|i: int| 0 <= i < s.len() && s[i] == c && forall|j: int| 0 <= j < i ==> s[j] != c)
    } else {
        None
    }
}

/// Index of the last `c` in `s`.
pub open spec fn last_index_of(s: Seq<char>, c: char) -> Option<int> {
    if exists|i: int| 0 <= i < s.len() && s[i] == c {
        Some(choose|i: int| 0 <= i < s.len() && s[i] == c && forall|j: int| i < j < s.len() ==> s[j] != c)
    } else {
        None
    }
}

proof fn lemma_trim_start_step(s: Seq<char>, i: int)
    requires
        0 <= i < s.len(),
        is_ws(s[i]),
    ensures
        trim_start(s.skip(i)) == trim_start(s.skip(i + 1)),
{
    assert(s.skip(i).drop_first() =~= s.skip(i + 1));
}

proof fn lemma_trim_end_step(s: Seq<char>, j: int)
    requires
        0 < j <= s.len(),
        is_ws(s[j - 1]),
    ensures
        trim_end(s.take(j)) == trim_end(s.take(j - 1)),
{
    assert(s.take(j).drop_last() =~= s.take(j - 1));
}

/// `str::trim` on a sequence of characters.
pub fn trim_chars(s: &[char]) -> (r: Vec<char>)
    ensures
        r@ == trim(s@),
{
    let mut lo: usize = 0;
    assert(s@.skip(0) =~= s@);
    while lo < s.len() && is_whitespace(s[lo])
        invariant
            lo <= s@.len(),
            trim_start(s@) == trim_start(s@.skip(lo as int)),
        decreases s@.len() - lo,
    {
        proof {
            lemma_trim_start_step(s@, lo as int);
        }
        lo = lo + 1;
    }
    let ghost t = s@.skip(lo as int);
    assert(trim_start(s@) == t);
    let mut hi: usize = s.len();
    assert(t.take(t.len() as int) =~= t);
    while hi > lo && is_whitespace(s[hi - 1])
        invariant
            lo <= hi <= s@.len(),
            t == s@.skip(lo as int),
            trim_end(t) == trim_end(t.take(hi - lo)),
        decreases hi,
    {
        proof {
            lemma_trim_end_step(t, (hi - lo) as int);
        }
        hi = hi - 1;
    }
    assert(trim_end(t.take(hi - lo)) == t.take(hi - lo));
    let mut r: Vec<char> = Vec::new();
    let mut k: usize = lo;
    while k < hi
        invariant
            lo <= k <= hi <= s@.len(),
            r@ == s@.subrange(lo as int, k as int),
        decreases hi - k,
    {
        r.push(s[k]);
        k = k + 1;
        assert(r@ =~= s@.subrange(lo as int, k as int));
    }
    assert(r@ =~= t.take(hi - lo));
    r
}

/// Whether `s` begins with `p`.
pub fn has_prefix(s: &[char], p: &[char]) -> (r: bool)
    ensures
        r == starts_with(s@, p@),
{
    if p.len() > s.len() {
        return false;
    }
    let mut i: usize = 0;
    while i < p.len()
        invariant
            p@.len() <= s@.len(),
            i <= p@.len(),
            forall|j: int| 0 <= j < i ==> s@[j] == p@[j],
        decreases p@.len() - i,
    {
        if s[i] != p[i] {
            assert(s@.take(p@.len() as int)[i as int] != p@[i as int]);
            return false;
        }
        i = i + 1;
    }
    assert(s@.take(p@.len() as int) =~= p@);
    true
}

/// Whether `s` ends with `p`.
pub fn has_suffix(s: &[char], p: &[char]) -> (r: bool)
    ensures
        r == ends_with(s@, p@),
{
    if p.len() > s.len() {
        return false;
    }
    let off = s.len() - p.len();
    let mut i: usize = 0;
    while i < p.len()
        invariant
            p@.len() <= s@.len(),
            s.len() == s@.len(),
            p.len() == p@.len(),
            off == s@.len() - p@.len(),
            i <= p@.len(),
            forall|j: int| 0 <= j < i ==> s@[off + j] == p@[j],
        decreases p@.len() - i,
    {
        if s[off + i] != p[i] {
            assert(s@.skip(off as int)[i as int] != p@[i as int]);
            return false;
        }
        i = i + 1;
    }
    assert(s@.skip(off as int) =~= p@);
    true
}

/// Whether `p` occurs in `s` at position `i` (checked).
pub fn matches_at(s: &[char], p: &[char], i: usize) -> (r: bool)
    ensures
        r == occurs_at(s@, p@, i as int),
{
    if i > s.len() || p.len() > s.len() - i {
        return false;
    }
    let mut k: usize = 0;
    while k < p.len()
        invariant
            i + p@.len() <= s@.len(),
            s.len() == s@.len(),
            p.len() == p@.len(),
            k <= p@.len(),
            forall|j: int| 0 <= j < k ==> s@[i + j] == p@[j],
        decreases p@.len() - k,
    {
        if s[i + k] != p[k] {
            assert(s@.subrange(i as int, i + p@.len())[k as int] != p@[k as int]);
            return false;
        }
        k = k + 1;
    }
    assert(s@.subrange(i as int, i + p@.len()) =~= p@);
    true
}

/// Whether `p` occurs anywhere in `s`.
pub fn contains_chars(s: &[char], p: &[char]) -> (r: bool)
    ensures
        r == contains(s@, p@),
{
    if p.len() > s.len() {
        assert forall|i: int| !occurs_at(s@, p@, i) by {}
        return false;
    }
    let limit = s.len() - p.len();
    let mut i: usize = 0;
    loop
        invariant
            p@.len() <= s@.len(),
            limit == s@.len() - p@.len(),
            i <= limit,
            forall|j: int| 0 <= j < i ==> !occurs_at(s@, p@, j),
        ensures
            forall|j: int| 0 <= j <= limit ==> !occurs_at(s@, p@, j),
        decreases limit - i,
    {
        if matches_at(s, p, i) {
            return true;
        }
        if i == limit {
            break;
        }
        i = i + 1;
    }
    assert forall|j: int| !occurs_at(s@, p@, j) by {
        if 0 <= j && j + p@.len() <= s@.len() {
            assert(j <= limit);
        }
    }
    false
}

/// Whether the character `c` occurs in `s`.
pub fn contains_char(s: &[char], c: char) -> (r: bool)
    ensures
        r == s@.contains(c),
{
    let mut i: usize = 0;
    while i < s.len()
        invariant
            i <= s@.len(),
            forall|j: int| 0 <= j < i ==> s@[j] != c,
        decreases s@.len() - i,
    {
        if s[i] == c {
            return true;
        }
        i = i + 1;
    }
    false
}

/// Position of the first `c` in `s`.
pub fn find_char(s: &[char], c: char) -> (r: Option<usize>)
    ensures
        r matches Some(i) ==> first_index_of(s@, c) == Some(i as int),
        r is None ==> first_index_of(s@, c) is None,
{
    let mut i: usize = 0;
    while i < s.len()
        invariant
            i <= s@.len(),
            forall|j: int| 0 <= j < i ==> s@[j] != c,
        decreases s@.len() - i,
    {
        if s[i] == c {
            let ghost k = choose|k: int|
                0 <= k < s@.len() && s@[k] == c && forall|j: int| 0 <= j < k ==> s@[j] != c;
            assert(0 <= k < s@.len() && s@[k] == c && forall|j: int| 0 <= j < k ==> s@[j] != c);
            assert(k == i);
            return Some(i);
        }
        i = i + 1;
    }
    None
}

/// Position of the last `c` in `s`.
pub fn rfind_char(s: &[char], c: char) -> (r: Option<usize>)
    ensures
        r matches Some(i) ==> last_index_of(s@, c) == Some(i as int),
        r is None ==> last_index_of(s@, c) is None,
{
    let mut i: usize = s.len();
    while i > 0
        invariant
            i <= s@.len(),
            forall|j: int| i <= j < s@.len() ==> s@[j] != c,
        decreases i,
    {
        if s[i - 1] == c {
            let ghost k = choose|k: int|
                0 <= k < s@.len() && s@[k] == c && forall|j: int| k < j < s@.len() ==> s@[j] != c;
            assert(0 <= k < s@.len() && s@[k] == c && forall|j: int| k < j < s@.len() ==> s@[j] != c);
            assert(k == i - 1);
            return Some(i - 1);
        }
        i = i - 1;
    }
    None
}

/// The characters of `s` from `lo` up to (not including) `hi`.
pub fn slice_chars(s: &[char], lo: usize, hi: usize) -> (r: Vec<char>)
    requires
        lo <= hi <= s@.len(),
    ensures
        r@ == s@.subrange(lo as int, hi as int),
{
    let mut r: Vec<char> = Vec::new();
    let mut k: usize = lo;
    while k < hi
        invariant
            lo <= k <= hi <= s@.len(),
            r@ == s@.subrange(lo as int, k as int),
        decreases hi - k,
    {
        r.push(s[k]);
        k = k + 1;
        assert(r@ =~= s@.subrange(lo as int, k as int));
    }
    r
}

proof fn lemma_replace_nonmatch(s: Seq<char>, from: Seq<char>, to: Seq<char>, i: int)
    requires
        from.len() > 0,
        0 <= i < s.len(),
        !occurs_at(s, from, i),
    ensures
        replace_all(s.skip(i), from, to) == seq![s[i]] + replace_all(s.skip(i + 1), from, to),
{
    let t = s.skip(i);
    assert(t.drop_first() =~= s.skip(i + 1));
    if t.len() >= from.len() {
        assert(t.take(from.len() as int) =~= s.subrange(i, i + from.len()));
    } else {
        // too short to match: replace_all(t) == t
        assert(replace_all(s.skip(i + 1), from, to) == s.skip(i + 1)) by {
            assert(s.skip(i + 1).len() < from.len());
        }
        assert(t =~= seq![s[i]] + s.skip(i + 1));
    }
}

proof fn lemma_replace_match(s: Seq<char>, from: Seq<char>, to: Seq<char>, i: int)
    requires
        from.len() > 0,
        occurs_at(s, from, i),
    ensures
        replace_all(s.skip(i), from, to) == to + replace_all(s.skip(i + from.len()), from, to),
{
    let t = s.skip(i);
    assert(t.take(from.len() as int) =~= s.subrange(i, i + from.len()));
    assert(t.skip(from.len() as int) =~= s.skip(i + from.len()));
}

proof fn lemma_replace_empty_step(s: Seq<char>, to: Seq<char>, i: int)
    requires
        0 <= i < s.len(),
    ensures
        replace_all(s.skip(i), Seq::<char>::empty(), to) == to + seq![s[i]] + replace_all(
            s.skip(i + 1),
            Seq::<char>::empty(),
            to,
        ),
{
    assert(s.skip(i).drop_first() =~= s.skip(i + 1));
}

/// `str::replace`: replaces every non-overlapping occurrence of `from`.
pub fn replace_chars(s: &[char], from: &[char], to: &[char]) -> (r: Vec<char>)
    ensures
        r@ == replace_all(s@, from@, to@),
{
    let mut r: Vec<char> = Vec::new();
    let mut i: usize = 0;
    assert(s@.skip(0) =~= s@);
    if from.len() == 0 {
        while i < s.len()
            invariant
                from@.len() == 0,
                i <= s@.len(),
                r@ + replace_all(s@.skip(i as int), from@, to@) == replace_all(s@, from@, to@),
            decreases s@.len() - i,
        {
            proof {
                assert(from@ =~= Seq::<char>::empty());
                lemma_replace_empty_step(s@, to@, i as int);
            }
            let ghost old_r = r@;
            push_all(&mut r, to);
            r.push(s[i]);
            assert(r@ =~= old_r + to@ + seq![s@[i as int]]);
            i = i + 1;
            assert(r@ + replace_all(s@.skip(i as int), from@, to@) =~= old_r + (to@ + seq![
                s@[i - 1],
            ] + replace_all(s@.skip(i as int), from@, to@)));
        }
        assert(s@.skip(i as int).len() == 0);
        push_all(&mut r, to);
        return r;
    }
    while i < s.len()
        invariant
            from@.len() > 0,
            i <= s@.len(),
            r@ + replace_all(s@.skip(i as int), from@, to@) == replace_all(s@, from@, to@),
        decreases s@.len() - i,
    {
        let ghost old_r = r@;
        if matches_at(s, from, i) {
            proof {
                lemma_replace_match(s@, from@, to@, i as int);
            }
            push_all(&mut r, to);
            i = i + from.len();
            assert(r@ + replace_all(s@.skip(i as int), from@, to@) =~= old_r + (to@
                + replace_all(s@.skip(i as int), from@, to@)));
        } else {
            proof {
                lemma_replace_nonmatch(s@, from@, to@, i as int);
            }
            r.push(s[i]);
            i = i + 1;
            assert(r@ + replace_all(s@.skip(i as int), from@, to@) =~= old_r + (seq![s@[i - 1]]
                + replace_all(s@.skip(i as int), from@, to@)));
        }
    }
    assert(s@.skip(i as int) =~= Seq::<char>::empty());
    assert(r@ =~= r@ + Seq::<char>::empty());
    r
}

/// Appends all of `t` to `r`.
pub fn push_all(r: &mut Vec<char>, t: &[char])
    ensures
        final(r)@ == old(r)@ + t@,
{
    let mut k: usize = 0;
    let ghost r0 = r@;
    while k < t.len()
        invariant
            k <= t@.len(),
            r@ == r0 + t@.take(k as int),
        decreases t@.len() - k,
    {
        r.push(t[k]);
        k = k + 1;
        assert(r@ =~= r0 + t@.take(k as int));
    }
    assert(t@.take(k as int) =~= t@);
}

/// `str::trim_matches` with a single character.
pub fn trim_char_chars(s: &[char], c: char) -> (r: Vec<char>)
    ensures
        r@ == trim_char(s@, c),
{
    let mut lo: usize = 0;
    assert(s@.skip(0) =~= s@);
    while lo < s.len() && s[lo] == c
        invariant
            lo <= s@.len(),
            trim_char_start(s@, c) == trim_char_start(s@.skip(lo as int), c),
        decreases s@.len() - lo,
    {
        assert(s@.skip(lo as int).drop_first() =~= s@.skip(lo + 1));
        lo = lo + 1;
    }
    let ghost t = s@.skip(lo as int);
    let mut hi: usize = s.len();
    assert(t.take(t.len() as int) =~= t);
    while hi > lo && s[hi - 1] == c
        invariant
            lo <= hi <= s@.len(),
            t == s@.skip(lo as int),
            trim_char_end(t, c) == trim_char_end(t.take(hi - lo), c),
        decreases hi,
    {
        assert(t.take(hi - lo).drop_last() =~= t.take(hi - lo - 1));
        hi = hi - 1;
    }
    let r = slice_chars(s, lo, hi);
    assert(r@ =~= t.take(hi - lo));
    r
}

/// The first index of `c`, when there is one, is in range, holds `c`, and
/// no earlier index does.
pub proof fn lemma_first_index_of_bounds(s: Seq<char>, c: char)
    ensures
        first_index_of(s, c) matches Some(k) ==> 0 <= k < s.len() && s[k] == c && forall|j: int| 0 <= j < k ==> s[j] != c,
        first_index_of(s, c) is None ==> forall|j: int| 0 <= j < s.len() ==> s[j] != c,
{
    if exists|i: int| 0 <= i < s.len() && s[i] == c {
        let w = choose|i: int| 0 <= i < s.len() && s[i] == c;
        // the least such index exists
        let k = least_index(s, c, w);
        assert(0 <= k < s.len() && s[k] == c && forall|j: int| 0 <= j < k ==> s[j] != c);
    }
}

proof fn least_index(s: Seq<char>, c: char, w: int) -> (k: int)
    requires
        0 <= w < s.len(),
        s[w] == c,
    ensures
        0 <= k <= w,
        s[k] == c,
        forall|j: int| 0 <= j < k ==> s[j] != c,
    decreases w,
{
    if exists|j: int| 0 <= j < w && s[j] == c {
        let j = choose|j: int| 0 <= j < w && s[j] == c;
        least_index(s, c, j)
    } else {
        w
    }
}

proof fn greatest_index(s: Seq<char>, c: char, w: int) -> (k: int)
    requires
        0 <= w < s.len(),
        s[w] == c,
    ensures
        w <= k < s.len(),
        s[k] == c,
        forall|j: int| k < j < s.len() ==> s[j] != c,
    decreases s.len() - w,
{
    if exists|j: int| w < j < s.len() && s[j] == c {
        let j = choose|j: int| w < j < s.len() && s[j] == c;
        greatest_index(s, c, j)
    } else {
        w
    }
}

/// The last index of `c`, when there is one, is in range, holds `c`, and
/// no later index does.
pub proof fn lemma_last_index_of_bounds(s: Seq<char>, c: char)
    ensures
        last_index_of(s, c) matches Some(k) ==> 0 <= k < s.len() && s[k] == c && forall|j: int| k < j < s.len() ==> s[j] != c,
        last_index_of(s, c) is None ==> forall|j: int| 0 <= j < s.len() ==> s[j] != c,
{
    if exists|i: int| 0 <= i < s.len() && s[i] == c {
        let w = choose|i: int| 0 <= i < s.len() && s[i] == c;
        let k = greatest_index(s, c, w);
        assert(0 <= k < s.len() && s[k] == c && forall|j: int| k < j < s.len() ==> s[j] != c);
    }
}

/// An index holding `c` with no earlier `c` is the first index of `c`.
pub proof fn lemma_first_index_is(s: Seq<char>, c: char, k: int)
    requires
        0 <= k < s.len(),
        s[k] == c,
        forall|j: int| 0 <= j < k ==> s[j] != c,
    ensures
        first_index_of(s, c) == Some(k),
{
    lemma_first_index_of_bounds(s, c);
    let m = first_index_of(s, c)->0;
    if m < k {
        assert(s[m] != c);
    } else if m > k {
        assert(s[k] != c);
    }
}

/// An index holding `c` with no later `c` is the last index of `c`.
pub proof fn lemma_last_index_is(s: Seq<char>, c: char, k: int)
    requires
        0 <= k < s.len(),
        s[k] == c,
        forall|j: int| k < j < s.len() ==> s[j] != c,
    ensures
        last_index_of(s, c) == Some(k),
{
    lemma_last_index_of_bounds(s, c);
    let m = last_index_of(s, c)->0;
    if m < k {
        assert(s[k] != c);
    } else if m > k {
        assert(s[m] != c);
    }
}


/// The lines of `s`, as `str::lines` gives them.
pub fn lines_of(s: &[char]) -> (r: Vec<Vec<char>>)
    ensures
        r@.len() == lines(s@).len(),
        forall|k: int| 0 <= k < r@.len() ==> (#[trigger] r@[k])@ == lines(s@)[k],
{
    let ghost g = s@;
    let mut out: Vec<Vec<char>> = Vec::new();
    let mut cur: Vec<char> = Vec::new();
    let mut i: usize = 0;
    assert(g.take(0) =~= Seq::<char>::empty());
    while i < s.len()
        invariant
            g == s@,
            i <= g.len(),
            out@.len() == lines_state(g.take(i as int)).0.len(),
            forall|k: int| 0 <= k < out@.len() ==> (#[trigger] out@[k])@ == lines_state(g.take(i as int)).0[k],
            cur@ == lines_state(g.take(i as int)).1,
        decreases g.len() - i,
    {
        assert(g.take(i + 1).drop_last() =~= g.take(i as int));
        let c = s[i];
        if c == '\n' {
            let mut line = cur;
            if line.len() > 0 && line[line.len() - 1] == '\r' {
                line.pop();
            }
            out.push(line);
            cur = Vec::new();
        } else {
            cur.push(c);
        }
        i = i + 1;
    }
    assert(g.take(i as int) =~= g);
    if cur.len() > 0 {
        out.push(cur);
    }
    out
}

/// The pieces of `s` between occurrences of `sep`, as `str::split` gives them.
pub fn split_on(s: &[char], sep: char) -> (r: Vec<Vec<char>>)
    ensures
        r@.len() == split(s@, sep).len(),
        forall|k: int| 0 <= k < r@.len() ==> (#[trigger] r@[k])@ == split(s@, sep)[k],
{
    let ghost g = s@;
    let mut out: Vec<Vec<char>> = Vec::new();
    let mut cur: Vec<char> = Vec::new();
    let mut i: usize = 0;
    assert(g.take(0) =~= Seq::<char>::empty());
    while i < s.len()
        invariant
            g == s@,
            i <= g.len(),
            out@.len() == split_state(g.take(i as int), sep).0.len(),
            forall|k: int| 0 <= k < out@.len() ==> (#[trigger] out@[k])@ == split_state(g.take(i as int), sep).0[k],
            cur@ == split_state(g.take(i as int), sep).1,
        decreases g.len() - i,
    {
        assert(g.take(i + 1).drop_last() =~= g.take(i as int));
        let c = s[i];
        if c == sep {
            out.push(cur);
            cur = Vec::new();
        } else {
            cur.push(c);
        }
        i = i + 1;
    }
    assert(g.take(i as int) =~= g);
    out.push(cur);
    out
}

/// The character of the decimal digit `d` (0 to 9).
pub open spec fn decimal_digit(d: nat) -> char {
    ((d + 48) as u8) as char
}

/// `n` in decimal, without leading zeros.
pub open spec fn decimal(n: nat) -> Seq<char>
    decreases n,
{
    if n < 10 {
        seq![decimal_digit(n)]
    } else {
        decimal(n / 10) + seq![decimal_digit(n % 10)]
    }
}

/// Appends `n` in decimal.
pub fn push_decimal(out: &mut Vec<char>, n: u64)
    ensures
        final(out)@ == old(out)@ + decimal(n as nat),
    decreases n,
{
    if n >= 10 {
        push_decimal(out, n / 10);
    }
    let d: u8 = (n % 10) as u8;
    out.push((d + 48) as char);
    assert(out@ =~= old(out)@ + decimal(n as nat));
}

/// Whether `c` is one of the control characters U+0000 to U+001F.
pub open spec fn is_c0_control(c: char) -> bool {
    c <= '\u{1f}'
}

/// `s` with every control character U+0000 to U+001F removed.
pub open spec fn without_c0_controls(s: Seq<char>) -> Seq<char>
    decreases s.len(),
{
    if s.len() == 0 {
        Seq::empty()
    } else if is_c0_control(s.last()) {
        without_c0_controls(s.drop_last())
    } else {
        without_c0_controls(s.drop_last()).push(s.last())
    }
}

/// What is left has no control character U+0000 to U+001F.
pub proof fn lemma_without_c0_controls_has_none(s: Seq<char>)
    ensures
        forall|i: int| 0 <= i < without_c0_controls(s).len() ==> !is_c0_control(#[trigger] without_c0_controls(s)[i]),
    decreases s.len(),
{
    if s.len() > 0 {
        let d = s.drop_last();
        lemma_without_c0_controls_has_none(d);
        let w = without_c0_controls(d);
        if !is_c0_control(s.last()) {
            assert forall|i: int| 0 <= i < w.push(s.last()).len() implies !is_c0_control(#[trigger] w.push(s.last())[i]) by {
                if i < w.len() {
                    assert(w.push(s.last())[i] == w[i]);
                }
            }
        }
    }
}

/// A text with no control character U+0000 to U+001F is left as it is.
pub proof fn lemma_without_c0_controls_unchanged(s: Seq<char>)
    requires
        forall|i: int| 0 <= i < s.len() ==> !is_c0_control(#[trigger] s[i]),
    ensures
        without_c0_controls(s) == s,
    decreases s.len(),
{
    if s.len() > 0 {
        let d = s.drop_last();
        assert forall|i: int| 0 <= i < d.len() implies !is_c0_control(#[trigger] d[i]) by {
            assert(d[i] == s[i]);
        }
        lemma_without_c0_controls_unchanged(d);
        assert(!is_c0_control(s[s.len() - 1]));
        assert(d.push(s.last()) =~= s);
    }
}

} // verus!
