//! Character-level text operations: searching, replacing, trimming and line
//! splitting. Every operation is specified over `Seq<char>`, the view of a
//! string, and the executable functions are proved against those
//! specifications.

use vstd::prelude::*;
use vstd::string::*;

verus! {

broadcast use vstd::string::group_string_axioms;

/// `needle` stands in `hay` at index `i`.
pub open spec fn occurs_at(hay: Seq<char>, needle: Seq<char>, i: int) -> bool {
    &&& 0 <= i
    &&& i + needle.len() <= hay.len()
    &&& hay.subrange(i, i + needle.len()) == needle
}

/// The least index at or after `i` at which `needle` stands in `hay`.
pub open spec fn index_of_from(hay: Seq<char>, needle: Seq<char>, i: int) -> Option<int>
    decreases hay.len() + 1 - i,
{
    if i < 0 || i + needle.len() > hay.len() {
        None
    } else if occurs_at(hay, needle, i) {
        Some(i)
    } else {
        index_of_from(hay, needle, i + 1)
    }
}

/// The index, counted in characters, of the first occurrence of `needle` in
/// `hay`.
pub open spec fn index_of(hay: Seq<char>, needle: Seq<char>) -> Option<int> {
    index_of_from(hay, needle, 0)
}

/// `needle` occurs somewhere in `hay`.
pub open spec fn contains(hay: Seq<char>, needle: Seq<char>) -> bool {
    index_of(hay, needle) is Some
}

/// `index_of_from` returns an occurrence at or after `i` before which, from
/// `i` on, there is none; it returns `None` only when there is none at all
/// from `i` on.
pub proof fn lemma_index_of_from(hay: Seq<char>, needle: Seq<char>, i: int)
    requires
        0 <= i,
    ensures
        match index_of_from(hay, needle, i) {
            Some(k) => i <= k && occurs_at(hay, needle, k) && forall|j: int|
                i <= j < k ==> !occurs_at(hay, needle, j),
            None => forall|j: int| i <= j ==> !occurs_at(hay, needle, j),
        },
    decreases hay.len() + 1 - i,
{
    if i + needle.len() > hay.len() {
    } else if occurs_at(hay, needle, i) {
    } else {
        lemma_index_of_from(hay, needle, i + 1);
    }
}

/// `index_of` is the least occurrence, and `contains` says that one exists.
pub proof fn lemma_index_of_is_first(hay: Seq<char>, needle: Seq<char>)
    ensures
        contains(hay, needle) <==> exists|j: int| occurs_at(hay, needle, j),
        index_of(hay, needle) matches Some(k) ==> occurs_at(hay, needle, k) && forall|j: int|
            j < k ==> !occurs_at(hay, needle, j),
{
    lemma_index_of_from(hay, needle, 0);
    if index_of(hay, needle) is Some {
        assert(occurs_at(hay, needle, index_of(hay, needle)->0));
    }
}

/// The text `s` with every occurrence of `pat` from index `i` on replaced by
/// `to`, scanning left to right; occurrences do not overlap. An empty `pat`
/// occurs before every character and at the end.
pub open spec fn replace_from(s: Seq<char>, pat: Seq<char>, to: Seq<char>, i: int) -> Seq<char>
    decreases s.len() - i,
{
    if i < 0 {
        Seq::empty()
    } else if pat.len() == 0 {
        if i < s.len() {
            to + seq![s[i]] + replace_from(s, pat, to, i + 1)
        } else {
            to
        }
    } else if occurs_at(s, pat, i) {
        to + replace_from(s, pat, to, i + pat.len())
    } else if i < s.len() {
        seq![s[i]] + replace_from(s, pat, to, i + 1)
    } else {
        Seq::empty()
    }
}

/// The text `s` with every occurrence of `pat` replaced by `to`.
pub open spec fn replace_all(s: Seq<char>, pat: Seq<char>, to: Seq<char>) -> Seq<char> {
    replace_from(s, pat, to, 0)
}

/// White space as Unicode defines it (the property `White_Space`).
pub open spec fn is_whitespace(c: char) -> bool {
    ||| ('\u{0009}' <= c && c <= '\u{000D}')
    ||| c == '\u{0020}'
    ||| c == '\u{0085}'
    ||| c == '\u{00A0}'
    ||| c == '\u{1680}'
    ||| ('\u{2000}' <= c && c <= '\u{200A}')
    ||| c == '\u{2028}'
    ||| c == '\u{2029}'
    ||| c == '\u{202F}'
    ||| c == '\u{205F}'
    ||| c == '\u{3000}'
}

/// `s` without its leading white space.
pub open spec fn trim_start(s: Seq<char>) -> Seq<char>
    decreases s.len(),
{
    if s.len() > 0 && is_whitespace(s.first()) {
        trim_start(s.drop_first())
    } else {
        s
    }
}

/// `s` without its trailing white space.
pub open spec fn trim_end(s: Seq<char>) -> Seq<char>
    decreases s.len(),
{
    if s.len() > 0 && is_whitespace(s.last()) {
        trim_end(s.drop_last())
    } else {
        s
    }
}

/// `s` without its leading and trailing white space.
pub open spec fn trim(s: Seq<char>) -> Seq<char> {
    trim_end(trim_start(s))
}

/// `l` without one trailing carriage return, if it has one.
pub open spec fn strip_cr(l: Seq<char>) -> Seq<char> {
    if l.len() > 0 && l.last() == '\r' {
        l.drop_last()
    } else {
        l
    }
}

/// The lines of `s` that remain when the line in progress began at `start`
/// and has been scanned up to `i`.
///
/// A line ends at a line feed; a carriage return directly before that line
/// feed belongs to the line ending. The last line needs no line ending, and
/// then keeps a trailing carriage return. Nothing follows a final line
/// ending.
pub open spec fn lines_from(s: Seq<char>, start: int, i: int) -> Seq<Seq<char>>
    decreases s.len() - i,
{
    if i < 0 || start < 0 || start > i {
        Seq::empty()
    } else if i >= s.len() {
        if start < s.len() {
            seq![s.subrange(start, s.len() as int)]
        } else {
            Seq::empty()
        }
    } else if s[i] == '\n' {
        seq![strip_cr(s.subrange(start, i))] + lines_from(s, i + 1, i + 1)
    } else {
        lines_from(s, start, i + 1)
    }
}

/// The lines of `s`, without their line endings.
pub open spec fn lines(s: Seq<char>) -> Seq<Seq<char>> {
    lines_from(s, 0, 0)
}

/// The views of the strings in `v`, in order.
pub open spec fn views(v: Seq<String>) -> Seq<Seq<char>> {
    v.map_values(|l: String| l@)
}

/// Where `pat`, not empty, does not occur from `i` on, nothing is replaced
/// from `i` on.
pub proof fn lemma_replace_from_without_occurrence(
    s: Seq<char>,
    pat: Seq<char>,
    to: Seq<char>,
    i: int,
)
    requires
        pat.len() > 0,
        0 <= i <= s.len(),
        forall|j: int| i <= j ==> !occurs_at(s, pat, j),
    ensures
        replace_from(s, pat, to, i) == s.subrange(i, s.len() as int),
    decreases s.len() - i,
{
    if i < s.len() {
        lemma_replace_from_without_occurrence(s, pat, to, i + 1);
        assert(seq![s[i]] + s.subrange(i + 1, s.len() as int) =~= s.subrange(i, s.len() as int));
    } else {
        assert(s.subrange(i, s.len() as int) =~= Seq::<char>::empty());
    }
}

/// A text in which `pat`, not empty, does not occur is left as it is.
pub proof fn lemma_replace_without_occurrence(s: Seq<char>, pat: Seq<char>, to: Seq<char>)
    requires
        pat.len() > 0,
        !contains(s, pat),
    ensures
        replace_all(s, pat, to) == s,
{
    lemma_index_of_from(s, pat, 0);
    lemma_replace_from_without_occurrence(s, pat, to, 0);
    assert(s.subrange(0, s.len() as int) =~= s);
}

/// What `trim_start` keeps is the end of `s`, and does not begin with
/// white space.
pub proof fn lemma_trim_start(s: Seq<char>)
    ensures
        trim_start(s).is_suffix_of(s),
        trim_start(s).len() > 0 ==> !is_whitespace(trim_start(s).first()),
    decreases s.len(),
{
    if s.len() > 0 && is_whitespace(s.first()) {
        let rest = s.drop_first();
        lemma_trim_start(rest);
        let kept = trim_start(rest);
        assert(rest.subrange(rest.len() - kept.len(), rest.len() as int) =~= s.subrange(
            s.len() - kept.len(),
            s.len() as int,
        ));
    } else {
        assert(s.subrange(0, s.len() as int) =~= s);
    }
}

/// What `trim_end` keeps is the beginning of `s`, and does not end with
/// white space.
pub proof fn lemma_trim_end(s: Seq<char>)
    ensures
        trim_end(s).is_prefix_of(s),
        trim_end(s).len() > 0 ==> !is_whitespace(trim_end(s).last()),
    decreases s.len(),
{
    if s.len() > 0 && is_whitespace(s.last()) {
        let rest = s.drop_last();
        lemma_trim_end(rest);
        let kept = trim_end(rest);
        assert(rest.subrange(0, kept.len() as int) =~= s.subrange(0, kept.len() as int));
    } else {
        assert(s.subrange(0, s.len() as int) =~= s);
    }
}

/// What `trim` keeps is one piece of `s` that neither begins nor ends with
/// white space.
pub proof fn lemma_trim(s: Seq<char>)
    ensures
        exists|a: int, b: int| 0 <= a <= b <= s.len() && trim(s) == #[trigger] s.subrange(a, b),
        trim(s).len() > 0 ==> !is_whitespace(trim(s).first()) && !is_whitespace(
            trim(s).last(),
        ),
{
    let middle = trim_start(s);
    lemma_trim_start(s);
    lemma_trim_end(middle);
    let kept = trim(s);
    let a = s.len() - middle.len();
    assert(kept =~= s.subrange(a, a + kept.len())) by {
        assert(middle =~= s.subrange(a, s.len() as int));
        assert(kept =~= middle.subrange(0, kept.len() as int));
    }
    if kept.len() > 0 {
        assert(kept.first() == middle.first());
    }
}

/// A text without a line feed, if it is not empty, is its own single line.
pub proof fn lemma_lines_of_one_line(s: Seq<char>)
    requires
        s.len() > 0,
        forall|j: int| 0 <= j < s.len() ==> s[j] != '\n',
    ensures
        lines(s) == seq![s],
{
    lemma_lines_from_one_line(s, 0);
}

/// The same from any point of the scan.
proof fn lemma_lines_from_one_line(s: Seq<char>, i: int)
    requires
        s.len() > 0,
        0 <= i <= s.len(),
        forall|j: int| 0 <= j < s.len() ==> s[j] != '\n',
    ensures
        lines_from(s, 0, i) == seq![s],
    decreases s.len() - i,
{
    if i < s.len() {
        lemma_lines_from_one_line(s, i + 1);
    } else {
        assert(s.subrange(0, s.len() as int) =~= s);
    }
}

/// No line holds a line feed.
pub proof fn lemma_lines_hold_no_line_feed(s: Seq<char>, k: int)
    requires
        0 <= k < lines(s).len(),
    ensures
        forall|p: int| 0 <= p < lines(s)[k].len() ==> lines(s)[k][p] != '\n',
{
    lemma_lines_from_hold_no_line_feed(s, 0, 0, k);
}

/// The same from any point of the scan at which the line in progress holds
/// no line feed so far.
proof fn lemma_lines_from_hold_no_line_feed(s: Seq<char>, start: int, i: int, k: int)
    requires
        0 <= start <= i <= s.len(),
        forall|j: int| start <= j < i ==> s[j] != '\n',
        0 <= k < lines_from(s, start, i).len(),
    ensures
        forall|p: int|
            0 <= p < lines_from(s, start, i)[k].len() ==> lines_from(s, start, i)[k][p] != '\n',
    decreases s.len() - i,
{
    if i >= s.len() {
    } else if s[i] == '\n' {
        if k > 0 {
            lemma_lines_from_hold_no_line_feed(s, i + 1, i + 1, k - 1);
        }
    } else {
        lemma_lines_from_hold_no_line_feed(s, start, i + 1, k);
    }
}

/// The characters of `s`, in order.
pub fn chars_of(s: &str) -> (v: Vec<char>)
    ensures
        v@ == s@,
{
    let mut v: Vec<char> = Vec::new();
    for c in it: s.chars()
        invariant
            it.seq() == s@,
            v@ == s@.take(it.index()),
    {
        v.push(c);
        assert(s@.take(it.index() + 1) == s@.take(it.index()).push(s@[it.index()]));
    }
    assert(s@.take(s@.len() as int) == s@);
    v
}

/// Whether `needle` stands in `hay` at index `i`.
pub fn matches_at(hay: &Vec<char>, needle: &Vec<char>, i: usize) -> (b: bool)
    ensures
        b == occurs_at(hay@, needle@, i as int),
{
    let n: usize = hay.len();
    let m: usize = needle.len();
    if m > n || i > n - m {
        return false;
    }
    let mut k: usize = 0;
    while k < m
        invariant
            n == hay@.len(),
            m == needle@.len(),
            i + m <= n,
            k <= m,
            forall|j: int| 0 <= j < k ==> hay@[i + j] == needle@[j],
        decreases m - k,
    {
        if hay[i + k] != needle[k] {
            assert(hay@.subrange(i as int, i + m)[k as int] == hay@[i + k]);
            return false;
        }
        k = k + 1;
    }
    assert(hay@.subrange(i as int, i + m) =~= needle@);
    true
}

/// The index of the first occurrence of `needle` in `hay` at or after `from`.
pub fn find_from(hay: &Vec<char>, needle: &Vec<char>, from: usize) -> (r: Option<usize>)
    ensures
        match r {
            Some(k) => index_of_from(hay@, needle@, from as int) == Some(k as int) && occurs_at(
                hay@,
                needle@,
                k as int,
            ),
            None => index_of_from(hay@, needle@, from as int) is None,
        },
{
    let n: usize = hay.len();
    let m: usize = needle.len();
    if m > n || from > n - m {
        return None;
    }
    let last: usize = n - m;
    let mut i: usize = from;
    while i < last
        invariant
            n == hay@.len(),
            m == needle@.len(),
            last == n - m,
            from <= i <= last,
            index_of_from(hay@, needle@, from as int) == index_of_from(hay@, needle@, i as int),
        decreases last - i,
    {
        if matches_at(hay, needle, i) {
            return Some(i);
        }
        i = i + 1;
    }
    if matches_at(hay, needle, i) {
        Some(i)
    } else {
        assert(index_of_from(hay@, needle@, i + 1) is None);
        None
    }
}

/// The index, counted in characters, of the first occurrence of `needle` in
/// `hay`.
pub fn find(hay: &str, needle: &str) -> (r: Option<usize>)
    ensures
        match r {
            Some(k) => index_of(hay@, needle@) == Some(k as int),
            None => index_of(hay@, needle@) is None,
        },
{
    let h = chars_of(hay);
    let n = chars_of(needle);
    find_from(&h, &n, 0)
}

/// Whether `needle` occurs in `hay`.
pub fn has(hay: &str, needle: &str) -> (b: bool)
    ensures
        b == contains(hay@, needle@),
{
    find(hay, needle).is_some()
}

/// Whether `c` is white space.
pub fn whitespace(c: char) -> (b: bool)
    ensures
        b == is_whitespace(c),
{
    ('\u{0009}' <= c && c <= '\u{000D}') || c == '\u{0020}' || c == '\u{0085}' || c == '\u{00A0}'
        || c == '\u{1680}' || ('\u{2000}' <= c && c <= '\u{200A}') || c == '\u{2028}' || c
        == '\u{2029}' || c == '\u{202F}' || c == '\u{205F}' || c == '\u{3000}'
}

/// The bounds, within `v`, of what `trim` keeps of `v[lo..hi]`.
pub fn trim_bounds(v: &Vec<char>, lo: usize, hi: usize) -> (r: (usize, usize))
    requires
        lo <= hi <= v@.len(),
    ensures
        lo <= r.0 <= r.1 <= hi,
        v@.subrange(r.0 as int, r.1 as int) == trim(v@.subrange(lo as int, hi as int)),
{
    let mut a: usize = lo;
    while a < hi && whitespace(v[a])
        invariant
            lo <= a <= hi <= v@.len(),
            trim_start(v@.subrange(lo as int, hi as int)) == trim_start(
                v@.subrange(a as int, hi as int),
            ),
        decreases hi - a,
    {
        assert(v@.subrange(a as int, hi as int).drop_first() =~= v@.subrange(a + 1, hi as int));
        a = a + 1;
    }
    let mut b: usize = hi;
    while b > a && whitespace(v[b - 1])
        invariant
            a <= b <= hi <= v@.len(),
            trim_end(v@.subrange(a as int, hi as int)) == trim_end(v@.subrange(a as int, b as int)),
        decreases b - a,
    {
        assert(v@.subrange(a as int, b as int).drop_last() =~= v@.subrange(a as int, b - 1));
        b = b - 1;
    }
    (a, b)
}

/// `s` without its leading and trailing white space.
pub fn trimmed(s: &str) -> (r: String)
    ensures
        r@ == trim(s@),
{
    let v = chars_of(s);
    let (a, b) = trim_bounds(&v, 0, v.len());
    assert(v@.subrange(0, v@.len() as int) =~= v@);
    s.substring_char(a, b).to_owned()
}

/// `s` with every occurrence of `pat` replaced by `to`.
pub fn replace(s: &str, pat: &str, to: &str) -> (r: String)
    ensures
        r@ == replace_all(s@, pat@, to@),
{
    let text = chars_of(s);
    let p = chars_of(pat);
    let n: usize = text.len();
    let m: usize = p.len();
    let mut out = String::new();
    let mut start: usize = 0;
    let mut i: usize = 0;
    if m == 0 {
        while i < n
            invariant
                n == s@.len(),
                text@ == s@,
                pat@.len() == 0,
                i <= n,
                replace_all(s@, pat@, to@) == out@ + replace_from(s@, pat@, to@, i as int),
            decreases n - i,
        {
            let ghost before = out@;
            out.append(to);
            out.append(s.substring_char(i, i + 1));
            assert(s@.subrange(i as int, i + 1) =~= seq![s@[i as int]]);
            assert(before + (to@ + seq![s@[i as int]] + replace_from(s@, pat@, to@, i + 1))
                =~= out@ + replace_from(s@, pat@, to@, i + 1));
            i = i + 1;
        }
        out.append(to);
        return out;
    }
    while i < n
        invariant
            n == s@.len(),
            m == pat@.len(),
            m > 0,
            text@ == s@,
            p@ == pat@,
            start <= i <= n,
            replace_all(s@, pat@, to@) == out@ + s@.subrange(start as int, i as int)
                + replace_from(s@, pat@, to@, i as int),
        decreases n - i,
    {
        let ghost before = out@;
        let ghost rest = replace_from(s@, pat@, to@, i as int);
        if matches_at(&text, &p, i) {
            let ghost piece = s@.subrange(start as int, i as int);
            out.append(s.substring_char(start, i));
            out.append(to);
            assert(rest == to@ + replace_from(s@, pat@, to@, i + m));
            i = i + m;
            start = i;
            assert(s@.subrange(start as int, i as int) =~= Seq::<char>::empty());
            assert(before + piece + rest =~= out@ + s@.subrange(start as int, i as int)
                + replace_from(s@, pat@, to@, i as int));
        } else {
            assert(s@.subrange(start as int, i as int) + seq![s@[i as int]] =~= s@.subrange(
                start as int,
                i + 1,
            ));
            assert(before + s@.subrange(start as int, i as int) + rest =~= before + s@.subrange(
                start as int,
                i + 1,
            ) + replace_from(s@, pat@, to@, i + 1));
            i = i + 1;
        }
    }
    out.append(s.substring_char(start, n));
    assert(replace_from(s@, pat@, to@, n as int) =~= Seq::<char>::empty());
    out
}

/// The lines of `s`, without their line endings.
pub fn split_lines(s: &str) -> (r: Vec<String>)
    ensures
        views(r@) == lines(s@),
{
    let text = chars_of(s);
    let n: usize = text.len();
    let mut out: Vec<String> = Vec::new();
    let mut start: usize = 0;
    let mut i: usize = 0;
    assert(views(out@) =~= Seq::<Seq<char>>::empty());
    while i < n
        invariant
            n == s@.len(),
            text@ == s@,
            start <= i <= n,
            views(out@) + lines_from(s@, start as int, i as int) == lines(s@),
        decreases n - i,
    {
        if text[i] == '\n' {
            let end: usize = if i > start && text[i - 1] == '\r' {
                i - 1
            } else {
                i
            };
            let ghost before = out@;
            let line = s.substring_char(start, end).to_owned();
            assert(line@ =~= strip_cr(s@.subrange(start as int, i as int)));
            out.push(line);
            assert(views(out@) =~= views(before).push(line@));
            assert(views(out@) + lines_from(s@, i + 1, i + 1) =~= views(before) + lines_from(
                s@,
                start as int,
                i as int,
            ));
            start = i + 1;
        }
        i = i + 1;
    }
    if start < n {
        let ghost before = out@;
        let line = s.substring_char(start, n).to_owned();
        out.push(line);
        assert(views(out@) =~= views(before).push(line@));
    }
    out
}

} // verus!
