//! Splitting a text into its lines.
use vstd::prelude::*;
use crate::text::chars_of;

verus! {

broadcast use vstd::string::group_string_axioms;

/// A line without the carriage return that may stand before its newline.
pub open spec fn strip_cr(l: Seq<char>) -> Seq<char> {
    if l.len() > 0 && l.last() == '\r' {
        l.drop_last()
    } else {
        l
    }
}

/// The characters of `s` after its last newline (all of `s` if it has none).
pub open spec fn open_tail(s: Seq<char>) -> Seq<char>
    decreases s.len(),
{
    if s.len() == 0 {
        Seq::empty()
    } else if s.last() == '\n' {
        Seq::empty()
    } else {
        open_tail(s.drop_last()).push(s.last())
    }
}

/// The lines of `s` that a newline ends, in order, each without its line
/// terminator (`"\n"` or `"\r\n"`).
pub open spec fn ended_lines(s: Seq<char>) -> Seq<Seq<char>>
    decreases s.len(),
{
    if s.len() == 0 {
        Seq::empty()
    } else if s.last() == '\n' {
        ended_lines(s.drop_last()).push(strip_cr(open_tail(s.drop_last())))
    } else {
        ended_lines(s.drop_last())
    }
}

/// The lines of `s` in order: those that a newline ends, then the text after
/// the last newline when it is not empty. A final newline adds no empty line,
/// and a carriage return counts as part of a terminator only before a newline.
pub open spec fn lines_of(s: Seq<char>) -> Seq<Seq<char>> {
    if open_tail(s).len() == 0 {
        ended_lines(s)
    } else {
        ended_lines(s).push(open_tail(s))
    }
}

/// The characters of each string in `v`.
pub open spec fn views(v: Seq<&str>) -> Seq<Seq<char>> {
    v.map_values(|l: &str| l@)
}

/// The text has no lines exactly when it is empty.
pub proof fn lemma_no_lines_iff_empty(s: Seq<char>)
    ensures
        lines_of(s).len() == 0 <==> s.len() == 0,
{
    if s.len() > 0 {
        if s.last() == '\n' {
            assert(ended_lines(s).len() > 0);
        } else {
            assert(open_tail(s).len() > 0);
        }
    }
}

proof fn lemma_views_push(v: Seq<&str>, l: &str)
    ensures
        views(v.push(l)) == views(v).push(l@),
{
    assert(views(v.push(l)) =~= views(v).push(l@));
}

/// The lines of `contents`, as slices of it, in order.
pub fn split_lines<'a>(contents: &'a str) -> (r: Vec<&'a str>)
    ensures
        views(r@) == lines_of(contents@),
{
    let c = chars_of(contents);
    let n = c.len();
    let mut out: Vec<&'a str> = Vec::new();
    let mut start: usize = 0;
    let mut i: usize = 0;
    assert(c@.subrange(0, 0) =~= Seq::<char>::empty());
    assert(views(out@) =~= Seq::<Seq<char>>::empty());
    while i < n
        invariant
            n == c@.len(),
            c@ == contents@,
            start <= i <= n,
            open_tail(c@.subrange(0, i as int)) == c@.subrange(start as int, i as int),
            views(out@) == ended_lines(c@.subrange(0, i as int)),
        decreases n - i,
    {
        let ghost pre = c@.subrange(0, i as int);
        assert(c@.subrange(0, i + 1).drop_last() =~= pre);
        if c[i] == '\n' {
            let end = if i > start && c[i - 1] == '\r' {
                i - 1
            } else {
                i
            };
            let line = contents.substring_char(start, end);
            proof {
                let t = c@.subrange(start as int, i as int);
                assert(strip_cr(t) =~= c@.subrange(start as int, end as int));
                lemma_views_push(out@, line);
            }
            out.push(line);
            start = i + 1;
            assert(c@.subrange(start as int, i + 1) =~= Seq::<char>::empty());
        } else {
            assert(c@.subrange(start as int, i + 1) =~= c@.subrange(start as int, i as int).push(
                c@[i as int],
            ));
        }
        i = i + 1;
    }
    assert(c@.subrange(0, n as int) =~= c@);
    if start < n {
        let line = contents.substring_char(start, n);
        proof {
            lemma_views_push(out@, line);
        }
        out.push(line);
    }
    out
}

} // verus!
