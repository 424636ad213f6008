//! What holds of every search result.
use vstd::prelude::*;
use crate::lines::{lemma_no_lines_iff_empty, lines_of};
use crate::search::{lower_of, matching_lines, matching_lines_folded};
use crate::text::is_substring;

verus! {

broadcast use vstd::seq_lib::group_filter_ensures;

/// `idx` gives, for each element of `a`, a position of `b` that holds it, and
/// the positions increase.
pub open spec fn picks(a: Seq<Seq<char>>, b: Seq<Seq<char>>, idx: Seq<int>) -> bool {
    &&& idx.len() == a.len()
    &&& forall|i: int, j: int| 0 <= i < j < idx.len() ==> idx[i] < idx[j]
    &&& forall|i: int| 0 <= i < idx.len() ==> 0 <= #[trigger] idx[i] < b.len() && a[i] == b[idx[i]]
}

/// `a` is `b` with some elements left out and the rest in their order.
pub open spec fn is_subsequence(a: Seq<Seq<char>>, b: Seq<Seq<char>>) -> bool {
    exists|idx: Seq<int>| picks(a, b, idx)
}

/// Filtering leaves a subsequence.
pub proof fn lemma_filter_is_subsequence(s: Seq<Seq<char>>, p: spec_fn(Seq<char>) -> bool)
    ensures
        is_subsequence(s.filter(p), s),
    decreases s.len(),
{
    reveal(Seq::filter);
    if s.len() == 0 {
        assert(picks(s.filter(p), s, Seq::empty()));
    } else {
        let rest = s.drop_last();
        lemma_filter_is_subsequence(rest, p);
        let idx = choose|idx: Seq<int>| picks(rest.filter(p), rest, idx);
        if p(s.last()) {
            let idx2 = idx.push(s.len() - 1);
            assert(forall|i: int| 0 <= i < idx.len() ==> idx2[i] == idx[i]);
            assert(picks(s.filter(p), s, idx2));
        } else {
            assert(picks(s.filter(p), s, idx));
        }
    }
}

/// Filtering by a predicate that every element meets changes nothing.
pub proof fn lemma_filter_keeps_all(s: Seq<Seq<char>>, p: spec_fn(Seq<char>) -> bool)
    requires
        forall|i: int| 0 <= i < s.len() ==> p(#[trigger] s[i]),
    ensures
        s.filter(p) == s,
    decreases s.len(),
{
    reveal(Seq::filter);
    if s.len() > 0 {
        let rest = s.drop_last();
        assert forall|i: int| 0 <= i < rest.len() implies p(#[trigger] rest[i]) by {
            assert(rest[i] == s[i]);
        }
        lemma_filter_keeps_all(rest, p);
        assert(s.filter(p) =~= s);
    }
}

/// A case-sensitive search returns lines of `contents`, in their order there,
/// each of which contains `query`.
pub proof fn law_case_sensitive_lines(contents: Seq<char>, query: Seq<char>)
    ensures
        is_subsequence(matching_lines(contents, query), lines_of(contents)),
        forall|i: int|
            0 <= i < matching_lines(contents, query).len() ==> is_substring(
                query,
                #[trigger] matching_lines(contents, query)[i],
            ),
{
    lemma_filter_is_subsequence(lines_of(contents), |l: Seq<char>| is_substring(query, l));
}

/// A case-insensitive search returns lines of `contents`, in their order
/// there, whose lowercase form contains the lowercase form of `query`.
pub proof fn law_case_insensitive_lines(contents: Seq<char>, query: Seq<char>)
    ensures
        is_subsequence(matching_lines_folded(contents, query), lines_of(contents)),
        forall|i: int|
            0 <= i < matching_lines_folded(contents, query).len() ==> is_substring(
                lower_of(query),
                lower_of(#[trigger] matching_lines_folded(contents, query)[i]),
            ),
{
    lemma_filter_is_subsequence(
        lines_of(contents),
        |l: Seq<char>| is_substring(lower_of(query), lower_of(l)),
    );
}

/// Every line that the case-sensitive search returns, the case-insensitive
/// search returns too, provided lowercasing keeps the query inside each line
/// of `contents` that contains it. (Lowercasing is not always so: a capital
/// sigma lowercases differently at the end of a word and on its own.)
pub proof fn law_folded_includes_exact(contents: Seq<char>, query: Seq<char>)
    requires
        forall|l: Seq<char>|
            #![trigger lines_of(contents).contains(l), is_substring(query, l)]
            lines_of(contents).contains(l) && is_substring(query, l) ==> is_substring(
                lower_of(query),
                lower_of(l),
            ),
    ensures
        forall|l: Seq<char>| #[trigger]
            matching_lines(contents, query).contains(l) ==> matching_lines_folded(
                contents,
                query,
            ).contains(l),
{
    let lines = lines_of(contents);
    let exact = |l: Seq<char>| is_substring(query, l);
    let folded = |l: Seq<char>| is_substring(lower_of(query), lower_of(l));
    assert forall|l: Seq<char>| #[trigger]
        matching_lines(contents, query).contains(l) implies matching_lines_folded(
        contents,
        query,
    ).contains(l) by {
        let k = choose|k: int| 0 <= k < lines.filter(exact).len() && lines.filter(exact)[k] == l;
        assert(exact(lines.filter(exact)[k]));
        lemma_filter_is_subsequence(lines, exact);
        let idx = choose|idx: Seq<int>| picks(lines.filter(exact), lines, idx);
        let j = idx[k];
        assert(lines[j] == l);
        assert(lines.contains(l));
        assert(folded(lines[j]));
    }
}

/// Searching empty contents, in either mode, returns nothing.
pub proof fn law_empty_contents(query: Seq<char>)
    ensures
        matching_lines(Seq::empty(), query) == Seq::<Seq<char>>::empty(),
        matching_lines_folded(Seq::empty(), query) == Seq::<Seq<char>>::empty(),
{
    reveal(Seq::filter);
    lemma_no_lines_iff_empty(Seq::empty());
}

} // verus!
