//! Laws of the matchers, stated over the specification model and proved once
//! for all queries and documents.

use crate::fold::lower;
use crate::lines::lines_of;
use crate::matcher::line_matches;
use crate::matcher::lemma_matching_folded_query;
use crate::matcher::matching;
use crate::matcher::matching_lines;
use crate::matcher::matching_lines_ci;
use crate::substring::contains_at;
use crate::substring::contains_substring;
use crate::substring::lemma_empty_needle;
use vstd::prelude::*;

verus! {

/// `a` can be read off `b` in order: `a` is `b` with zero or more members
/// deleted and none reordered.
pub open spec fn subsequence_of<A>(a: Seq<A>, b: Seq<A>) -> bool
    decreases a.len() + b.len(),
{
    if a.len() == 0 {
        true
    } else if b.len() == 0 {
        false
    } else if a.last() == b.last() {
        subsequence_of(a.drop_last(), b.drop_last())
    } else {
        subsequence_of(a, b.drop_last())
    }
}

/// Deleting the last member of a subsequence leaves a subsequence.
proof fn lemma_subsequence_drop_last<A>(a: Seq<A>, b: Seq<A>)
    requires
        subsequence_of(a, b),
        a.len() > 0,
    ensures
        subsequence_of(a.drop_last(), b),
    decreases b.len(),
{
    let a1 = a.drop_last();
    if a.last() == b.last() {
        if a1.len() > 0 && a1.last() == b.last() {
            lemma_subsequence_drop_last(a1, b.drop_last());
        }
    } else {
        lemma_subsequence_drop_last(a, b.drop_last());
        if a1.len() > 0 && a1.last() == b.last() {
            lemma_subsequence_drop_last(a1, b.drop_last());
        }
    }
}

/// Extending the larger sequence preserves the subsequence relation.
proof fn lemma_subsequence_push_right<A>(a: Seq<A>, b: Seq<A>, x: A)
    requires
        subsequence_of(a, b),
    ensures
        subsequence_of(a, b.push(x)),
{
    if a.len() > 0 {
        assert(b.push(x).drop_last() =~= b);
        if a.last() == x {
            lemma_subsequence_drop_last(a, b);
        }
    }
}

/// The matching lines are a subsequence of the lines they were drawn from:
/// no line is invented, duplicated, or moved out of document order.
pub proof fn lemma_matching_subsequence(query: Seq<char>, lines: Seq<Seq<char>>, ignore_case: bool)
    ensures
        subsequence_of(matching(query, lines, ignore_case), lines),
    decreases lines.len(),
{
    if lines.len() > 0 {
        lemma_matching_subsequence(query, lines.drop_last(), ignore_case);
        let rest = matching(query, lines.drop_last(), ignore_case);
        let l = lines.last();
        if line_matches(query, l, ignore_case) {
            assert(rest.push(l).drop_last() =~= rest);
        } else {
            lemma_subsequence_push_right(rest, lines.drop_last(), l);
            assert(lines.drop_last().push(l) =~= lines);
        }
    }
}

/// A case-sensitive occurrence survives case folding: folding both sides
/// maps the occurrence character for character.
pub proof fn lemma_contains_lower(hay: Seq<char>, needle: Seq<char>)
    requires
        contains_substring(hay, needle),
    ensures
        contains_substring(lower(hay), lower(needle)),
{
    let i = choose|i: int| contains_at(hay, needle, i);
    assert forall|m: int| 0 <= m < needle.len() implies lower(hay)[i + m] == lower(needle)[m] by {
        assert(hay.subrange(i, i + needle.len() as int)[m] == needle[m]);
    }
    assert(lower(hay).subrange(i, i + lower(needle).len() as int) =~= lower(needle));
    assert(contains_at(lower(hay), lower(needle), i));
}

/// A line that matches case-sensitively also matches case-insensitively.
pub proof fn lemma_line_matches_insensitively(query: Seq<char>, line: Seq<char>)
    requires
        line_matches(query, line, false),
    ensures
        line_matches(query, line, true),
{
    lemma_contains_lower(line, query);
}

/// Over any line sequence, the case-sensitive matches are a subsequence of
/// the case-insensitive ones.
proof fn lemma_matching_sensitive_within_insensitive(query: Seq<char>, lines: Seq<Seq<char>>)
    ensures
        subsequence_of(matching(query, lines, false), matching(query, lines, true)),
    decreases lines.len(),
{
    if lines.len() > 0 {
        lemma_matching_sensitive_within_insensitive(query, lines.drop_last());
        let l = lines.last();
        let f = matching(query, lines.drop_last(), false);
        let g = matching(query, lines.drop_last(), true);
        if line_matches(query, l, false) {
            lemma_line_matches_insensitively(query, l);
            assert(f.push(l).drop_last() =~= f);
            assert(g.push(l).drop_last() =~= g);
        } else if line_matches(query, l, true) {
            lemma_subsequence_push_right(f, g, l);
        }
    }
}

/// The empty query matches every line, so searching for it returns the whole
/// document: every line, in original order.
pub proof fn lemma_empty_query_matches_all(text: Seq<char>)
    ensures
        matching_lines(Seq::<char>::empty(), text) == lines_of(text),
{
    lemma_matching_empty_query(lines_of(text));
}

/// Over any line sequence, the empty query keeps every line.
proof fn lemma_matching_empty_query(lines: Seq<Seq<char>>)
    ensures
        matching(Seq::<char>::empty(), lines, false) == lines,
    decreases lines.len(),
{
    if lines.len() > 0 {
        lemma_matching_empty_query(lines.drop_last());
        lemma_empty_needle(lines.last());
        assert(lines.drop_last().push(lines.last()) =~= lines);
    }
}

/// The case-sensitive results are a subsequence of what the case-insensitive
/// search finds for the folded query: folding only ever adds matches.
pub proof fn lemma_sensitive_subsequence_of_insensitive(query: Seq<char>, text: Seq<char>)
    ensures
        subsequence_of(matching_lines(query, text), matching_lines_ci(lower(query), text)),
{
    lemma_matching_folded_query(query, lines_of(text));
    lemma_matching_sensitive_within_insensitive(query, lines_of(text));
}

/// Both matchers preserve document order: their results are subsequences of
/// the document's lines.
pub proof fn lemma_order_preservation(query: Seq<char>, text: Seq<char>)
    ensures
        subsequence_of(matching_lines(query, text), lines_of(text)),
        subsequence_of(matching_lines_ci(query, text), lines_of(text)),
{
    lemma_matching_subsequence(query, lines_of(text), false);
    lemma_matching_subsequence(query, lines_of(text), true);
}

/// The matchers are pure: the result is a function of query and document
/// alone, so two searches with equal inputs return equal result sets.
pub proof fn lemma_search_deterministic(q1: Seq<char>, t1: Seq<char>, q2: Seq<char>, t2: Seq<char>)
    requires
        q1 == q2,
        t1 == t2,
    ensures
        matching_lines(q1, t1) == matching_lines(q2, t2),
        matching_lines_ci(q1, t1) == matching_lines_ci(q2, t2),
{
}

} // verus!
