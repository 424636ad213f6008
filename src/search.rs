//! The two searches: lines that contain the query exactly, and lines that
//! contain it once both are lowercased.
use vstd::prelude::*;
use crate::lines::{lines_of, split_lines, views};
use crate::laws::{law_empty_contents, lemma_filter_keeps_all};
use crate::text::{chars_of, contains_chars, is_substring, lemma_empty_is_substring};

verus! {

broadcast use vstd::string::group_string_axioms;

/// What `str::to_lowercase` makes of a string; it depends on the characters
/// alone.
pub uninterp spec fn lower_of(s: Seq<char>) -> Seq<char>;

/// Relies on `str::to_lowercase`: the lowercase form of `s`, a function of its
/// characters, and empty for the empty string.
#[verifier::external_body]
fn lowercase(s: &str) -> (r: String)
    ensures
        r@ == lower_of(s@),
        s@.len() == 0 ==> r@.len() == 0,
{
    s.to_lowercase()
}

/// The lines among `lines` that contain `query`, in order.
pub open spec fn keep_containing(lines: Seq<Seq<char>>, query: Seq<char>) -> Seq<Seq<char>> {
    lines.filter(|l: Seq<char>| is_substring(query, l))
}

/// The lines among `lines` whose lowercase form contains the lowercase form
/// of `query`, in order.
pub open spec fn keep_containing_folded(lines: Seq<Seq<char>>, query: Seq<char>) -> Seq<
    Seq<char>,
> {
    lines.filter(|l: Seq<char>| is_substring(lower_of(query), lower_of(l)))
}

proof fn lemma_keep_push(lines: Seq<Seq<char>>, l: Seq<char>, query: Seq<char>)
    ensures
        keep_containing(lines.push(l), query) == if is_substring(query, l) {
            keep_containing(lines, query).push(l)
        } else {
            keep_containing(lines, query)
        },
        keep_containing_folded(lines.push(l), query) == if is_substring(
            lower_of(query),
            lower_of(l),
        ) {
            keep_containing_folded(lines, query).push(l)
        } else {
            keep_containing_folded(lines, query)
        },
{
    reveal(Seq::filter);
    assert(lines.push(l).drop_last() =~= lines);
}

/// Where the query, as compared, is empty, every line is kept.
proof fn lemma_every_line_matches(lines: Seq<Seq<char>>, query: Seq<char>, folded: bool)
    requires
        !folded ==> query.len() == 0,
        folded ==> lower_of(query).len() == 0,
    ensures
        !folded ==> keep_containing(lines, query) == lines,
        folded ==> keep_containing_folded(lines, query) == lines,
{
    if folded {
        assert(lower_of(query) =~= Seq::<char>::empty());
        assert forall|i: int| 0 <= i < lines.len() implies is_substring(
            lower_of(query),
            lower_of(#[trigger] lines[i]),
        ) by {
            lemma_empty_is_substring(lower_of(lines[i]));
        }
        lemma_filter_keeps_all(
            lines,
            |l: Seq<char>| is_substring(lower_of(query), lower_of(l)),
        );
    } else {
        assert(query =~= Seq::<char>::empty());
        assert forall|i: int| 0 <= i < lines.len() implies is_substring(
            query,
            #[trigger] lines[i],
        ) by {
            lemma_empty_is_substring(lines[i]);
        }
        lemma_filter_keeps_all(lines, |l: Seq<char>| is_substring(query, l));
    }
}

/// The result of a case-sensitive search of `contents` for `query`.
pub open spec fn matching_lines(contents: Seq<char>, query: Seq<char>) -> Seq<Seq<char>> {
    keep_containing(lines_of(contents), query)
}

/// The result of a case-insensitive search of `contents` for `query`.
pub open spec fn matching_lines_folded(contents: Seq<char>, query: Seq<char>) -> Seq<Seq<char>> {
    keep_containing_folded(lines_of(contents), query)
}

/// The lines of `contents` that contain `query`, exact case, in their order
/// in `contents`; a line that contains it twice is there once.
pub fn search_case_sensitive<'a>(query: &str, contents: &'a str) -> (r: Vec<&'a str>)
    ensures
        views(r@) == matching_lines(contents@, query@),
        query@.len() == 0 ==> views(r@) == lines_of(contents@),
        contents@.len() == 0 ==> r@.len() == 0,
{
    let lines = split_lines(contents);
    let q = chars_of(query);
    proof {
        if query@.len() == 0 {
            lemma_every_line_matches(lines_of(contents@), query@, false);
        }
    }
    let mut out: Vec<&'a str> = Vec::new();
    let mut i: usize = 0;
    assert(views(lines@).subrange(0, 0) =~= Seq::<Seq<char>>::empty());
    assert(views(out@) =~= Seq::<Seq<char>>::empty());
    while i < lines.len()
        invariant
            q@ == query@,
            i <= lines@.len(),
            views(out@) == keep_containing(views(lines@).subrange(0, i as int), query@),
        decreases lines@.len() - i,
    {
        let line = lines[i];
        let ghost done = views(lines@).subrange(0, i as int);
        proof {
            assert(views(lines@).subrange(0, i + 1) =~= done.push(line@));
            lemma_keep_push(done, line@, query@);
        }
        let l = chars_of(line);
        if contains_chars(&l, &q) {
            assert(views(out@.push(line)) =~= views(out@).push(line@));
            out.push(line);
        }
        i = i + 1;
    }
    assert(views(lines@).subrange(0, i as int) =~= views(lines@));
    proof {
        law_empty_contents(query@);
        assert(views(out@).len() == out@.len());
    }
    out
}

/// The lines of `contents` whose lowercase form contains the lowercase form of
/// `query`, in their order in `contents`. The query is lowercased once, each
/// line on its own.
pub fn search_case_insensitive<'a>(query: &str, contents: &'a str) -> (r: Vec<&'a str>)
    ensures
        views(r@) == matching_lines_folded(contents@, query@),
        query@.len() == 0 ==> views(r@) == lines_of(contents@),
        contents@.len() == 0 ==> r@.len() == 0,
{
    let lines = split_lines(contents);
    let lower_query = lowercase(query);
    let q = chars_of(lower_query.as_str());
    proof {
        if query@.len() == 0 {
            lemma_every_line_matches(lines_of(contents@), query@, true);
        }
    }
    let mut out: Vec<&'a str> = Vec::new();
    let mut i: usize = 0;
    assert(views(lines@).subrange(0, 0) =~= Seq::<Seq<char>>::empty());
    assert(views(out@) =~= Seq::<Seq<char>>::empty());
    while i < lines.len()
        invariant
            q@ == lower_of(query@),
            i <= lines@.len(),
            views(out@) == keep_containing_folded(views(lines@).subrange(0, i as int), query@),
        decreases lines@.len() - i,
    {
        let line = lines[i];
        let ghost done = views(lines@).subrange(0, i as int);
        proof {
            assert(views(lines@).subrange(0, i + 1) =~= done.push(line@));
            lemma_keep_push(done, line@, query@);
        }
        let lower_line = lowercase(line);
        let l = chars_of(lower_line.as_str());
        if contains_chars(&l, &q) {
            assert(views(out@.push(line)) =~= views(out@).push(line@));
            out.push(line);
        }
        i = i + 1;
    }
    assert(views(lines@).subrange(0, i as int) =~= views(lines@));
    proof {
        law_empty_contents(query@);
        assert(views(out@).len() == out@.len());
    }
    out
}

} // verus!
