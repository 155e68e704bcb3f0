//! The search engine: the lines of a text that hold a query.
use vstd::prelude::*;
use crate::config::Config;
use crate::text::{
    chars_of, contains, find_line_end, lemma_line_end_bounds, line_text, lines_from, lines_of,
    lower_of, lowercase, occurs_in,
};

verus! {

/// Whether a line is kept: it holds `q`, or, with `fold`, its lowercase form
/// holds `q`.
pub open spec fn keeps(line: Seq<char>, q: Seq<char>, fold: bool) -> bool {
    if fold {
        occurs_in(lower_of(line), q)
    } else {
        occurs_in(line, q)
    }
}

/// The lines of `text` that are kept, in their order in `text`.
pub open spec fn select_lines(text: Seq<char>, q: Seq<char>, fold: bool) -> Seq<Seq<char>> {
    lines_of(text).filter(|l: Seq<char>| keeps(l, q, fold))
}

/// The lines of `text` that hold `query`.
pub open spec fn matching_lines(query: Seq<char>, text: Seq<char>) -> Seq<Seq<char>> {
    select_lines(text, query, false)
}

/// The lines of `text` whose lowercase form holds the lowercase form of `query`.
pub open spec fn matching_lines_ignoring_case(query: Seq<char>, text: Seq<char>) -> Seq<Seq<char>> {
    select_lines(text, lower_of(query), true)
}

/// The characters of each slice.
pub open spec fn views(r: Seq<&str>) -> Seq<Seq<char>> {
    r.map_values(|l: &str| l@)
}

/// The lines of `contents` kept for `q`, as slices of `contents`.
fn collect_lines<'a>(q: &str, contents: &'a str, fold: bool) -> (r: Vec<&'a str>)
    ensures
        views(r@) == select_lines(contents@, q@, fold),
{
    let t = chars_of(contents);
    let n = t.len();
    let mut results: Vec<&'a str> = Vec::new();
    let mut start: usize = 0;
    let ghost mut done: Seq<Seq<char>> = Seq::empty();
    while start < n
        invariant
            t@ == contents@,
            n == t.len(),
            start <= n,
            done + lines_from(contents@, start as int) == lines_of(contents@),
            views(results@) == done.filter(|l: Seq<char>| keeps(l, q@, fold)),
        decreases n - start,
    {
        let end = find_line_end(&t, start);
        proof {
            lemma_line_end_bounds(t@, start as int);
        }
        let cut = if start < end && end < n && t[end - 1] == '\r' {
            end - 1
        } else {
            end
        };
        let line = contents.substring_char(start, cut);
        let ghost text = line_text(contents@, start as int, end as int);
        assert(line@ == text);
        let keep = if fold {
            let folded = lowercase(line);
            contains(folded.as_str(), q)
        } else {
            contains(line, q)
        };
        assert(keep == keeps(text, q@, fold));
        let ghost before = results@;
        if keep {
            results.push(line);
            assert(views(results@) =~= views(before).push(text));
        }
        proof {
            let rest = lines_from(contents@, end + 1);
            assert(lines_from(contents@, start as int) == seq![text] + rest);
            assert(done.push(text) + rest =~= done + (seq![text] + rest));
            done.lemma_filter_push(text, |l: Seq<char>| keeps(l, q@, fold));
            assert(views(results@) =~= done.push(text).filter(|l: Seq<char>| keeps(l, q@, fold)));
            done = done.push(text);
        }
        start = if end < n { end + 1 } else { n };
    }
    assert(done =~= lines_of(contents@));
    results
}

/// The lines of `contents` that hold `query`, in their order, as slices of
/// `contents`.
pub fn search<'a>(query: &str, contents: &'a str) -> (r: Vec<&'a str>)
    ensures
        views(r@) == matching_lines(query@, contents@),
{
    collect_lines(query, contents, false)
}

/// The lines of `contents` whose lowercase form holds the lowercase form of
/// `query`, in their order, as slices of `contents` (not folded).
pub fn search_case_insensitive<'a>(query: &str, contents: &'a str) -> (r: Vec<&'a str>)
    ensures
        views(r@) == matching_lines_ignoring_case(query@, contents@),
{
    let folded = lowercase(query);
    collect_lines(folded.as_str(), contents, true)
}

/// The lines of `contents` that the configuration asks for: those that hold
/// the query, or, where case does not count, those whose lowercase form
/// holds the lowercase query. Reading the file is left to the caller.
pub fn run<'a>(config: &Config, contents: &'a str) -> (r: Vec<&'a str>)
    ensures
        views(r@) == (if config.case_sensitive {
            matching_lines(config.query@, contents@)
        } else {
            matching_lines_ignoring_case(config.query@, contents@)
        }),
{
    if config.case_sensitive {
        search(config.query.as_str(), contents)
    } else {
        search_case_insensitive(config.query.as_str(), contents)
    }
}

/// `idx` tells where each element of `r` stands in `s`: positions rise
/// strictly, so `r` keeps the order of `s`.
pub open spec fn picked_from<A>(r: Seq<A>, s: Seq<A>, idx: Seq<int>) -> bool {
    &&& idx.len() == r.len()
    &&& forall|k: int| 0 <= k < idx.len() ==> 0 <= #[trigger] idx[k] < s.len() && r[k] == s[idx[k]]
    &&& forall|k1: int, k2: int| 0 <= k1 < k2 < idx.len() ==> idx[k1] < idx[k2]
}

/// `r` is `s` with exactly the elements that satisfy `p`, in their order:
/// every position of `s` whose element satisfies `p` is picked, and no other.
pub open spec fn selects<A>(r: Seq<A>, s: Seq<A>, p: spec_fn(A) -> bool) -> bool {
    exists|idx: Seq<int>|
        picked_from(r, s, idx) && (forall|i: int|
            0 <= i < s.len() ==> (p(s[i]) <==> exists|k: int| 0 <= k < idx.len() && #[trigger] idx[k] == i))
}

proof fn lemma_filter_selects<A>(s: Seq<A>, p: spec_fn(A) -> bool)
    ensures
        selects(s.filter(p), s, p),
    decreases s.len(),
{
    reveal(Seq::filter);
    if s.len() == 0 {
        let idx = Seq::<int>::empty();
        assert(picked_from(s.filter(p), s, idx));
    } else {
        let s0 = s.drop_last();
        lemma_filter_selects(s0, p);
        let idx0 = choose|idx: Seq<int>|
            picked_from(s0.filter(p), s0, idx) && (forall|i: int|
                0 <= i < s0.len() ==> (p(s0[i]) <==> exists|k: int| 0 <= k < idx.len() && #[trigger] idx[k] == i));
        let last = s.len() - 1;
        if p(s[last]) {
            let idx = idx0.push(last);
            assert(s.filter(p) == s0.filter(p).push(s[last]));
            assert(picked_from(s.filter(p), s, idx));
            assert forall|i: int| 0 <= i < s.len() implies (p(s[i]) <==> exists|k: int|
                0 <= k < idx.len() && #[trigger] idx[k] == i) by {
                if i < last {
                    assert(s[i] == s0[i]);
                    if p(s[i]) {
                        let k = choose|k: int| 0 <= k < idx0.len() && #[trigger] idx0[k] == i;
                        assert(idx[k] == i);
                    }
                } else {
                    assert(idx[idx.len() - 1] == i);
                }
            }
        } else {
            assert(s.filter(p) == s0.filter(p));
            assert(picked_from(s.filter(p), s, idx0));
            assert forall|i: int| 0 <= i < s.len() implies (p(s[i]) <==> exists|k: int|
                0 <= k < idx0.len() && #[trigger] idx0[k] == i) by {
                if i < last {
                    assert(s[i] == s0[i]);
                }
            }
        }
    }
}

/// The case-sensitive search returns exactly the lines of the text that hold
/// the query, each once per line, in the order of the text.
pub proof fn search_selects_lines_with_query(query: Seq<char>, text: Seq<char>)
    ensures
        forall|k: int| 0 <= k < matching_lines(query, text).len() ==> occurs_in(
            #[trigger] matching_lines(query, text)[k],
            query,
        ),
        selects(matching_lines(query, text), lines_of(text), |l: Seq<char>| occurs_in(l, query)),
{
    let p = |l: Seq<char>| keeps(l, query, false);
    lemma_filter_selects(lines_of(text), p);
    assert(p =~= |l: Seq<char>| occurs_in(l, query));
    assert forall|k: int| 0 <= k < matching_lines(query, text).len() implies occurs_in(
        #[trigger] matching_lines(query, text)[k],
        query,
    ) by {
        lines_of(text).lemma_filter_pred(p, k);
    }
}

/// The case-insensitive search returns exactly the lines whose lowercase form
/// holds the lowercase query, in the order of the text.
pub proof fn search_ignoring_case_selects_folded_matches(query: Seq<char>, text: Seq<char>)
    ensures
        forall|k: int| 0 <= k < matching_lines_ignoring_case(query, text).len() ==> occurs_in(
            lower_of(#[trigger] matching_lines_ignoring_case(query, text)[k]),
            lower_of(query),
        ),
        selects(
            matching_lines_ignoring_case(query, text),
            lines_of(text),
            |l: Seq<char>| occurs_in(lower_of(l), lower_of(query)),
        ),
{
    let p = |l: Seq<char>| keeps(l, lower_of(query), true);
    lemma_filter_selects(lines_of(text), p);
    assert(p =~= |l: Seq<char>| occurs_in(lower_of(l), lower_of(query)));
    assert forall|k: int| 0 <= k < matching_lines_ignoring_case(query, text).len() implies occurs_in(
        lower_of(#[trigger] matching_lines_ignoring_case(query, text)[k]),
        lower_of(query),
    ) by {
        lines_of(text).lemma_filter_pred(p, k);
    }
}

proof fn lemma_filter_weaker<A>(s: Seq<A>, narrow: spec_fn(A) -> bool, wide: spec_fn(A) -> bool)
    requires
        forall|i: int| 0 <= i < s.len() && narrow(s[i]) ==> wide(s[i]),
    ensures
        exists|idx: Seq<int>| picked_from(s.filter(narrow), s.filter(wide), idx),
    decreases s.len(),
{
    reveal(Seq::filter);
    if s.len() == 0 {
        assert(picked_from(s.filter(narrow), s.filter(wide), Seq::<int>::empty()));
    } else {
        let s0 = s.drop_last();
        assert forall|i: int| 0 <= i < s0.len() && narrow(s0[i]) implies wide(s0[i]) by {
            assert(s0[i] == s[i]);
        }
        lemma_filter_weaker(s0, narrow, wide);
        let idx0 = choose|idx: Seq<int>| picked_from(s0.filter(narrow), s0.filter(wide), idx);
        let x = s[s.len() - 1];
        let f1 = s0.filter(narrow);
        let f2 = s0.filter(wide);
        if narrow(x) {
            let idx = idx0.push(f2.len() as int);
            assert(s.filter(narrow) == f1.push(x));
            assert(s.filter(wide) == f2.push(x));
            assert(picked_from(s.filter(narrow), s.filter(wide), idx));
        } else if wide(x) {
            assert(s.filter(narrow) == f1);
            assert(s.filter(wide) == f2.push(x));
            assert(picked_from(s.filter(narrow), s.filter(wide), idx0));
        } else {
            assert(s.filter(narrow) == f1);
            assert(s.filter(wide) == f2);
        }
    }
}

/// Where every line of `text` that holds `query` still holds it once both
/// are lowercased, the case-insensitive search returns every line that the
/// case-sensitive search returns, in the same order.
pub proof fn search_ignoring_case_extends_search(query: Seq<char>, text: Seq<char>)
    requires
        forall|i: int|
            0 <= i < lines_of(text).len() && occurs_in(#[trigger] lines_of(text)[i], query)
                ==> occurs_in(lower_of(lines_of(text)[i]), lower_of(query)),
    ensures
        exists|idx: Seq<int>|
            picked_from(matching_lines(query, text), matching_lines_ignoring_case(query, text), idx),
{
    let narrow = |l: Seq<char>| keeps(l, query, false);
    let wide = |l: Seq<char>| keeps(l, lower_of(query), true);
    lemma_filter_weaker(lines_of(text), narrow, wide);
    assert(matching_lines(query, text) == lines_of(text).filter(narrow));
    assert(matching_lines_ignoring_case(query, text) == lines_of(text).filter(wide));
    let idx = choose|idx: Seq<int>|
        picked_from(lines_of(text).filter(narrow), lines_of(text).filter(wide), idx);
    assert(picked_from(matching_lines(query, text), matching_lines_ignoring_case(query, text), idx));
}

/// Two searches with the same query over the same text return the same
/// lines: the result depends on the query and the text alone.
pub proof fn search_is_repeatable(
    query: Seq<char>,
    text: Seq<char>,
    first: Seq<&str>,
    second: Seq<&str>,
)
    requires
        views(first) == matching_lines(query, text),
        views(second) == matching_lines(query, text),
    ensures
        views(first) == views(second),
{
}

/// Two case-insensitive searches with the same query over the same text
/// return the same lines.
pub proof fn search_ignoring_case_is_repeatable(
    query: Seq<char>,
    text: Seq<char>,
    first: Seq<&str>,
    second: Seq<&str>,
)
    requires
        views(first) == matching_lines_ignoring_case(query, text),
        views(second) == matching_lines_ignoring_case(query, text),
    ensures
        views(first) == views(second),
{
}

} // verus!
