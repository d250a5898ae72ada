//! The matchers: the ordered subset of a document's lines that contain a
//! query, case-sensitively or after case folding.

use crate::config::Config;
use crate::fold::lower;
use crate::fold::lower_chars_of;
use crate::lines::chars_of;
use crate::lines::lines_of;
use crate::lines::split_lines;
use crate::substring::contains_substring;
use vstd::prelude::*;

verus! {

/// Whether a line matches a query: the query occurs in the line as a
/// contiguous substring; under `ignore_case`, both are folded first.
pub open spec fn line_matches(query: Seq<char>, line: Seq<char>, ignore_case: bool) -> bool {
    if ignore_case {
        contains_substring(lower(line), lower(query))
    } else {
        contains_substring(line, query)
    }
}

/// The subsequence of `lines` whose members match `query`, in order.
pub open spec fn matching(query: Seq<char>, lines: Seq<Seq<char>>, ignore_case: bool) -> Seq<
    Seq<char>,
>
    decreases lines.len(),
{
    if lines.len() == 0 {
        Seq::empty()
    } else {
        let rest = matching(query, lines.drop_last(), ignore_case);
        if line_matches(query, lines.last(), ignore_case) {
            rest.push(lines.last())
        } else {
            rest
        }
    }
}

/// The lines of `text` that contain `query`, case-sensitively.
pub open spec fn matching_lines(query: Seq<char>, text: Seq<char>) -> Seq<Seq<char>> {
    matching(query, lines_of(text), false)
}

/// The lines of `text` that contain `query` once both are case-folded.
pub open spec fn matching_lines_ci(query: Seq<char>, text: Seq<char>) -> Seq<Seq<char>> {
    matching(query, lines_of(text), true)
}

/// The lines of `contents` that contain `query` as a contiguous substring,
/// compared character for character, in document order. Every returned line
/// is a view into `contents`. An empty query matches every line; an empty
/// document yields no lines.
pub fn search<'a>(query: &str, contents: &'a str) -> (r: Vec<&'a str>)
    ensures
        r.deep_view() == matching_lines(query@, contents@),
{
    let q = chars_of(query);
    let lines = split_lines(contents);
    filter_matching(&q, lines, false)
}

/// The lines of `contents` that contain `query` once both the line and the
/// query are folded to lower case, in document order. Every returned line is
/// a view into `contents`, unfolded. The folding is the simple per-character
/// rule of [`crate::fold::lower_char`].
pub fn search_insensitive<'a>(query: &str, contents: &'a str) -> (r: Vec<&'a str>)
    ensures
        r.deep_view() == matching_lines_ci(query@, contents@),
{
    let q = lower_chars_of(query);
    let lines = split_lines(contents);
    proof {
        crate::fold::lemma_lower_idempotent(query@);
        lemma_matching_folded_query(query@, lines.deep_view());
    }
    filter_matching(&q, lines, true)
}

/// Folding the query before a case-insensitive match changes nothing, since
/// the match folds its query anyway and folding is idempotent.
pub proof fn lemma_matching_folded_query(query: Seq<char>, lines: Seq<Seq<char>>)
    ensures
        matching(lower(query), lines, true) == matching(query, lines, true),
    decreases lines.len(),
{
    crate::fold::lemma_lower_idempotent(query);
    if lines.len() > 0 {
        lemma_matching_folded_query(query, lines.drop_last());
    }
}

/// The search that `config` asks for, over `contents`: case-insensitive when
/// `config.ignore_case` is set, case-sensitive otherwise. The driver reads
/// the file and prints; this picks the mode and matches.
pub fn run_search<'a>(config: &Config, contents: &'a str) -> (r: Vec<&'a str>)
    ensures
        config.ignore_case ==> r.deep_view() == matching_lines_ci(config.query@, contents@),
        !config.ignore_case ==> r.deep_view() == matching_lines(config.query@, contents@),
{
    if config.ignore_case {
        search_insensitive(config.query.as_str(), contents)
    } else {
        search(config.query.as_str(), contents)
    }
}

/// Keep, in order, the lines that contain `query`. Under `ignore_case` the
/// caller passes the query already folded, and each line is folded before
/// the comparison.
fn filter_matching<'a>(query: &Vec<char>, lines: Vec<&'a str>, ignore_case: bool) -> (r: Vec<
    &'a str,
>)
    requires
        ignore_case ==> query@ == lower(query@),
    ensures
        r.deep_view() == matching(query@, lines.deep_view(), ignore_case),
{
    let mut r: Vec<&'a str> = Vec::new();
    let mut i: usize = 0;
    while i < lines.len()
        invariant
            ignore_case ==> query@ == lower(query@),
            i <= lines@.len(),
            r.deep_view() == matching(query@, lines.deep_view().take(i as int), ignore_case),
        decreases lines@.len() - i,
    {
        let line = lines[i];
        let matched = if ignore_case {
            let folded = lower_chars_of(line);
            crate::substring::contains_chars(&folded, query)
        } else {
            let cs = chars_of(line);
            crate::substring::contains_chars(&cs, query)
        };
        let ghost old_r = r.deep_view();
        if matched {
            r.push(line);
            proof {
                assert(r.deep_view() =~= old_r.push(line@));
            }
        }
        i = i + 1;
        proof {
            let prefix = lines.deep_view().take(i as int);
            assert(prefix.drop_last() =~= lines.deep_view().take(i - 1));
            assert(prefix.last() == line@);
            assert(line_matches(query@, line@, ignore_case) == matched);
            assert(r.deep_view() == matching(query@, prefix, ignore_case));
        }
    }
    proof {
        assert(lines.deep_view().take(lines@.len() as int) =~= lines.deep_view());
    }
    r
}

} // verus!
