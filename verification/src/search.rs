//! Line search: select every line of a text that contains a query.
//!
//! `search` is the executable entry point; its result is pinned down by the
//! spec function `search_spec`, and `is_search_result` states the intended
//! reading of that result: the selected indices are exactly the indices of
//! the matching lines, in ascending order, each paired with its line.

use crate::lines::{lemma_lines_of_empty, lines_of, split_lines};
use crate::text::{
    chars_of, contains, contains_substr, lemma_empty_needle_contained, lower_of, to_lowercase,
};
use vstd::prelude::*;

verus! {

/// The match predicate for one line.  With `case_sensitive` the query must
/// occur in the line as it is; otherwise both sides are lowercased first,
/// with the Unicode lowercasing of `str::to_lowercase`.
pub open spec fn line_matches(line: Seq<char>, query: Seq<char>, case_sensitive: bool) -> bool {
    if case_sensitive {
        contains_substr(line, query)
    } else {
        contains_substr(lower_of(line), lower_of(query))
    }
}

/// The matches among the first `n` lines of `ls`, in ascending line order.
pub open spec fn matches_up_to(
    ls: Seq<Seq<char>>,
    query: Seq<char>,
    case_sensitive: bool,
    n: int,
) -> Seq<(int, Seq<char>)>
    decreases n,
{
    if n <= 0 {
        seq![]
    } else if line_matches(ls[n - 1], query, case_sensitive) {
        matches_up_to(ls, query, case_sensitive, n - 1).push((n - 1, ls[n - 1]))
    } else {
        matches_up_to(ls, query, case_sensitive, n - 1)
    }
}

/// The full result of a search over `content`.
pub open spec fn search_spec(query: Seq<char>, content: Seq<char>, case_sensitive: bool) -> Seq<
    (int, Seq<char>),
> {
    matches_up_to(lines_of(content), query, case_sensitive, lines_of(content).len() as int)
}

/// The mathematical reading of an executable result vector.
pub open spec fn result_view(r: Seq<(usize, &str)>) -> Seq<(int, Seq<char>)> {
    Seq::new(r.len(), |k: int| (r[k].0 as int, r[k].1@))
}

/// What it means for `r` to be the result of searching `content` for
/// `query`: every entry is a matching line with its index, every matching
/// index occurs, and the indices are strictly ascending (so without
/// duplicates).
pub open spec fn is_search_result(
    query: Seq<char>,
    content: Seq<char>,
    case_sensitive: bool,
    r: Seq<(int, Seq<char>)>,
) -> bool {
    let ls = lines_of(content);
    &&& forall|k: int| 0 <= k < r.len() ==> 0 <= (#[trigger] r[k]).0 < ls.len()
    &&& forall|k: int| 0 <= k < r.len() ==> (#[trigger] r[k]).1 == ls[r[k].0]
    &&& forall|k: int| 0 <= k < r.len() ==> line_matches(ls[(#[trigger] r[k]).0], query, case_sensitive)
    &&& forall|i: int|
        0 <= i < ls.len() && #[trigger] line_matches(ls[i], query, case_sensitive) ==> exists|k: int|
            0 <= k < r.len() && (#[trigger] r[k]).0 == i
    &&& forall|k1: int, k2: int|
        0 <= k1 < k2 < r.len() ==> (#[trigger] r[k1]).0 < (#[trigger] r[k2]).0
}

/// The matches among the first `n` lines are exactly the matching indices
/// below `n`, in ascending order, paired with their lines.
proof fn lemma_matches_up_to(ls: Seq<Seq<char>>, query: Seq<char>, case_sensitive: bool, n: int)
    requires
        0 <= n <= ls.len(),
    ensures
        ({
            let r = matches_up_to(ls, query, case_sensitive, n);
            &&& forall|k: int| 0 <= k < r.len() ==> 0 <= (#[trigger] r[k]).0 < n
            &&& forall|k: int| 0 <= k < r.len() ==> (#[trigger] r[k]).1 == ls[r[k].0]
            &&& forall|k: int|
                0 <= k < r.len() ==> line_matches(ls[(#[trigger] r[k]).0], query, case_sensitive)
            &&& forall|i: int|
                0 <= i < n && #[trigger] line_matches(ls[i], query, case_sensitive)
                    ==> exists|k: int| 0 <= k < r.len() && (#[trigger] r[k]).0 == i
            &&& forall|k1: int, k2: int|
                0 <= k1 < k2 < r.len() ==> (#[trigger] r[k1]).0 < (#[trigger] r[k2]).0
        }),
    decreases n,
{
    if n > 0 {
        lemma_matches_up_to(ls, query, case_sensitive, n - 1);
        let prev = matches_up_to(ls, query, case_sensitive, n - 1);
        let r = matches_up_to(ls, query, case_sensitive, n);
        if line_matches(ls[n - 1], query, case_sensitive) {
            assert(r == prev.push((n - 1, ls[n - 1])));
            assert forall|i: int|
                0 <= i < n && #[trigger] line_matches(ls[i], query, case_sensitive)
                    implies exists|k: int| 0 <= k < r.len() && (#[trigger] r[k]).0 == i by {
                if i < n - 1 {
                    let k = choose|k: int| 0 <= k < prev.len() && (#[trigger] prev[k]).0 == i;
                    assert(r[k] == prev[k]);
                    assert(0 <= k < r.len() && (r[k]).0 == i);
                } else {
                    assert((r[prev.len() as int]).0 == i);
                }
            }
        }
    }
}

/// With a query that is empty — so that its lowercasing is empty as well —
/// every one of the first `n` lines matches, each paired with its own index.
proof fn lemma_empty_query_matches_up_to(
    ls: Seq<Seq<char>>,
    query: Seq<char>,
    case_sensitive: bool,
    n: int,
)
    requires
        0 <= n <= ls.len(),
        query.len() == 0,
        lower_of(query).len() == 0,
    ensures
        matches_up_to(ls, query, case_sensitive, n).len() == n,
        forall|i: int|
            0 <= i < n ==> matches_up_to(ls, query, case_sensitive, n)[i] == (i, ls[i]),
    decreases n,
{
    if n > 0 {
        lemma_empty_query_matches_up_to(ls, query, case_sensitive, n - 1);
        if case_sensitive {
            lemma_empty_needle_contained(ls[n - 1]);
            assert(query =~= Seq::<char>::empty());
        } else {
            lemma_empty_needle_contained(lower_of(ls[n - 1]));
            assert(lower_of(query) =~= Seq::<char>::empty());
        }
        assert(line_matches(ls[n - 1], query, case_sensitive));
    }
}

/// `search` holds every line of `content` against `query`, in order, and
/// returns each matching line with its zero-based index.
///
/// With `case_sensitive` set, a line matches when it contains `query` as a
/// substring; otherwise when its lowercased form contains the lowercased
/// query, lowercasing as `str::to_lowercase` does.  The returned slices
/// borrow from `content`.  An empty query matches every line, in both case
/// modes.
pub fn search<'a>(query: &str, content: &'a str, case_sensitive: bool) -> (r: Vec<
    (usize, &'a str),
>)
    ensures
        result_view(r@) == search_spec(query@, content@, case_sensitive),
        lines_of(content@).len() <= usize::MAX,
        query@.len() == 0 ==> result_view(r@).len() == lines_of(content@).len(),
        query@.len() == 0 ==> forall|i: int|
            0 <= i < lines_of(content@).len() ==> result_view(r@)[i] == (i, lines_of(content@)[i]),
{
    let lines = split_lines(content);
    let query_chars = chars_of(query);
    let query_lower = to_lowercase(query);
    let query_lower_chars = chars_of(query_lower.as_str());
    let num = lines.len();
    let ghost lns = lines_of(content@);
    let mut results: Vec<(usize, &'a str)> = Vec::new();
    let mut j: usize = 0;
    proof {
        assert(result_view(results@) =~= matches_up_to(lns, query@, case_sensitive, 0));
    }
    while j < num
        invariant
            j <= num,
            num == lines@.len(),
            lns == lines_of(content@),
            lines@.len() == lns.len(),
            forall|k: int| 0 <= k < lines@.len() ==> lines@[k]@ == lns[k],
            query_chars@ == query@,
            query_lower_chars@ == lower_of(query@),
            result_view(results@) == matches_up_to(lns, query@, case_sensitive, j as int),
        decreases num - j,
    {
        let line = lines[j];
        let hit = if case_sensitive {
            let line_chars = chars_of(line);
            contains(&line_chars, &query_chars)
        } else {
            let line_lower = to_lowercase(line);
            let line_lower_chars = chars_of(line_lower.as_str());
            contains(&line_lower_chars, &query_lower_chars)
        };
        proof {
            assert(hit == line_matches(lns[j as int], query@, case_sensitive));
        }
        if hit {
            results.push((j, line));
            proof {
                assert(result_view(results@) =~= matches_up_to(
                    lns,
                    query@,
                    case_sensitive,
                    j as int + 1,
                ));
            }
        }
        j = j + 1;
    }
    proof {
        if query@.len() == 0 {
            assert(lower_of(query@).len() == 0);
            lemma_empty_query_matches_up_to(lns, query@, case_sensitive, lns.len() as int);
        }
    }
    results
}

/// The result of a search is exactly the ascending sequence of matching
/// lines: sound, complete, ordered, without duplicates.  With
/// `case_sensitive` set this covers plain substring matching; without it,
/// matching after lowercasing both sides as `str::to_lowercase` does.
pub proof fn lemma_search_spec_exact(query: Seq<char>, content: Seq<char>, case_sensitive: bool)
    ensures
        is_search_result(query, content, case_sensitive, search_spec(query, content, case_sensitive)),
{
    lemma_matches_up_to(lines_of(content), query, case_sensitive, lines_of(content).len() as int);
}

/// Searching is a pure function: two results of searching the same content
/// for the same query in the same case mode are identical.
pub proof fn lemma_search_idempotent(
    query: Seq<char>,
    content: Seq<char>,
    case_sensitive: bool,
    r1: Seq<(int, Seq<char>)>,
    r2: Seq<(int, Seq<char>)>,
)
    requires
        r1 == search_spec(query, content, case_sensitive),
        r2 == search_spec(query, content, case_sensitive),
    ensures
        r1 == r2,
{
}

/// Empty content has no lines, so a search over it returns nothing,
/// whatever the query and the case mode.
pub proof fn lemma_empty_content_no_matches(query: Seq<char>, case_sensitive: bool)
    ensures
        search_spec(query, Seq::<char>::empty(), case_sensitive) == Seq::<(int, Seq<char>)>::empty(),
{
    lemma_lines_of_empty();
    assert(search_spec(query, Seq::<char>::empty(), case_sensitive) =~= Seq::<(
        int,
        Seq<char>,
    )>::empty());
}

} // verus!
