//! Characters, substrings and lines of a text.
use vstd::prelude::*;

verus! {

/// `needle` occurs in `hay` as a contiguous run of characters.
pub open spec fn occurs_in(hay: Seq<char>, needle: Seq<char>) -> bool {
    exists|i: int|
        0 <= i && i + needle.len() <= hay.len() && #[trigger] hay.subrange(i, i + needle.len())
            == needle
}

/// Position of the first line feed at or after `i`, or the length of `s`
/// where no line feed follows.
pub open spec fn line_end(s: Seq<char>, i: int) -> int
    decreases s.len() - i,
{
    if i < 0 || i >= s.len() {
        s.len() as int
    } else if s[i] == '\n' {
        i
    } else {
        line_end(s, i + 1)
    }
}

/// The end of a line lies between its start and the end of the text, at a
/// line feed if before the end, with no line feed before it.
pub proof fn lemma_line_end_bounds(s: Seq<char>, i: int)
    requires
        0 <= i <= s.len(),
    ensures
        i <= line_end(s, i) <= s.len(),
        line_end(s, i) < s.len() ==> s[line_end(s, i)] == '\n',
        forall|j: int| i <= j < line_end(s, i) ==> s[j] != '\n',
    decreases s.len() - i,
{
    if i < s.len() && s[i] != '\n' {
        lemma_line_end_bounds(s, i + 1);
    }
}

/// The line that starts at `start` and ends at `end`, without its
/// terminator: a carriage return just before the line feed goes with it.
pub open spec fn line_text(s: Seq<char>, start: int, end: int) -> Seq<char> {
    if start < end < s.len() && s[end - 1] == '\r' {
        s.subrange(start, end - 1)
    } else {
        s.subrange(start, end)
    }
}

/// The lines of `s` from position `start` on.
pub open spec fn lines_from(s: Seq<char>, start: int) -> Seq<Seq<char>>
    decreases s.len() + 1 - start,
    via lines_from_decreases
{
    if start < 0 || start >= s.len() {
        Seq::empty()
    } else {
        let end = line_end(s, start);
        seq![line_text(s, start, end)] + lines_from(s, end + 1)
    }
}

#[via_fn]
proof fn lines_from_decreases(s: Seq<char>, start: int) {
    if 0 <= start < s.len() {
        lemma_line_end_bounds(s, start);
    }
}

/// The lines of a text: it is cut at each line feed, a carriage return
/// before a line feed is dropped, and a line feed at the very end opens no
/// further line. An empty text has no lines.
pub open spec fn lines_of(s: Seq<char>) -> Seq<Seq<char>> {
    lines_from(s, 0)
}

/// Finds where the line that starts at `start` ends.
pub fn find_line_end(t: &Vec<char>, start: usize) -> (r: usize)
    requires
        start <= t.len(),
    ensures
        r == line_end(t@, start as int),
{
    let n = t.len();
    let mut i = start;
    while i < n && t[i] != '\n'
        invariant
            start <= i <= n,
            n == t.len(),
            line_end(t@, i as int) == line_end(t@, start as int),
        decreases n - i,
    {
        proof {
            assert(line_end(t@, i as int) == line_end(t@, i + 1));
        }
        i = i + 1;
    }
    i
}

/// What `str::to_lowercase` makes of a text.
pub uninterp spec fn lower_of(s: Seq<char>) -> Seq<char>;

/// Relies on `str::to_lowercase`: the lowercase form of `s`, which depends on
/// its characters alone.
#[verifier::external_body]
pub(crate) fn lowercase(s: &str) -> (r: String)
    ensures
        r@ == lower_of(s@),
{
    s.to_lowercase()
}

/// Copies the characters of `s` into a vector.
pub fn chars_of(s: &str) -> (r: Vec<char>)
    ensures
        r@ == s@,
{
    let mut v: Vec<char> = Vec::new();
    for c in it: s.chars()
        invariant
            v@ == it.seq().take(it.index()),
    {
        v.push(c);
    }
    v
}

/// Whether `q` stands in `t` from position `at` on.
fn matches_at(t: &Vec<char>, at: usize, q: &Vec<char>) -> (r: bool)
    requires
        at + q.len() <= t.len(),
    ensures
        r == (t@.subrange(at as int, at + q.len()) == q@),
{
    let m = q.len();
    let mut k: usize = 0;
    while k < m
        invariant
            k <= m,
            m == q.len(),
            at + m <= t.len(),
            forall|j: int| 0 <= j < k ==> t@[at + j] == q@[j],
        decreases m - k,
    {
        if t[at + k] != q[k] {
            assert(t@.subrange(at as int, at + m)[k as int] != q@[k as int]);
            return false;
        }
        k = k + 1;
    }
    assert(t@.subrange(at as int, at + m) =~= q@);
    true
}

/// Whether `needle` occurs in `hay`; the empty needle occurs in every text.
pub fn contains(hay: &str, needle: &str) -> (r: bool)
    ensures
        r == occurs_in(hay@, needle@),
{
    let t = chars_of(hay);
    let q = chars_of(needle);
    let n = t.len();
    let m = q.len();
    if m > n {
        return false;
    }
    let last = n - m;
    let mut i: usize = 0;
    while i < last
        invariant
            t@ == hay@,
            q@ == needle@,
            n == t.len(),
            m == q.len(),
            last + m == n,
            i <= last,
            forall|j: int| 0 <= j < i ==> #[trigger] t@.subrange(j, j + m) != q@,
        decreases last - i,
    {
        if matches_at(&t, i, &q) {
            return true;
        }
        i = i + 1;
    }
    if matches_at(&t, last, &q) {
        return true;
    }
    assert forall|j: int| 0 <= j && j + m <= n implies #[trigger] t@.subrange(j, j + m) != q@ by {
        assert(j <= last);
    }
    false
}

} // verus!
