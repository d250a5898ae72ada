//! Splitting a document into lines.
//!
//! A document is an ordered sequence of lines separated by `'\n'`. A line
//! never includes its terminator; when a line ends in `"\r\n"`, the `'\r'` is
//! stripped along with the `'\n'`. A `'\r'` not followed by `'\n'` is ordinary
//! text. A final line terminator is optional: a trailing `'\n'` does not
//! produce an extra empty line, and the empty document has no lines at all.

use vstd::prelude::*;

verus! {

/// The position of the first `'\n'` in `text` at or after `i`, or
/// `text.len()` when there is none.
pub open spec fn find_newline(text: Seq<char>, i: int) -> int
    decreases text.len() - i,
{
    if i < 0 || i >= text.len() {
        text.len() as int
    } else if text[i] == '\n' {
        i
    } else {
        find_newline(text, i + 1)
    }
}

/// A line with one trailing `'\r'` removed, as happens when the line was
/// terminated by `"\r\n"` in the document.
pub open spec fn strip_cr(line: Seq<char>) -> Seq<char> {
    if line.len() > 0 && line.last() == '\r' {
        line.drop_last()
    } else {
        line
    }
}

/// The lines of `text` from position `i` on: empty at or past the end;
/// otherwise the text up to the next `'\n'` (with a `'\r'` before that `'\n'`
/// stripped) followed by the lines after it. Text that ends without a final
/// `'\n'` still forms a last line, kept verbatim.
pub open spec fn lines_from(text: Seq<char>, i: int) -> Seq<Seq<char>>
    decreases text.len() - i,
        via lines_from_decreases
{
    if i < 0 || i >= text.len() {
        Seq::empty()
    } else {
        let j = find_newline(text, i);
        if j == text.len() {
            seq![text.subrange(i, j)]
        } else {
            seq![strip_cr(text.subrange(i, j))] + lines_from(text, j + 1)
        }
    }
}

#[via_fn]
proof fn lines_from_decreases(text: Seq<char>, i: int) {
    if 0 <= i < text.len() {
        lemma_find_newline(text, i);
    }
}

/// The lines of the whole document.
pub open spec fn lines_of(text: Seq<char>) -> Seq<Seq<char>> {
    lines_from(text, 0)
}

/// `find_newline` points at a `'\n'`, or past the end when there is none,
/// and nothing before it (at or after `i`) is a `'\n'`.
pub proof fn lemma_find_newline(text: Seq<char>, i: int)
    requires
        0 <= i <= text.len(),
    ensures
        i <= find_newline(text, i) <= text.len(),
        find_newline(text, i) < text.len() ==> text[find_newline(text, i)] == '\n',
        forall|m: int| i <= m < find_newline(text, i) ==> text[m] != '\n',
    decreases text.len() - i,
{
    if i < text.len() && text[i] != '\n' {
        lemma_find_newline(text, i + 1);
    }
}

/// Split a document into its lines. Each returned `&str` is a view into
/// `contents`, and together, in order, they are exactly the document's lines.
pub fn split_lines<'a>(contents: &'a str) -> (r: Vec<&'a str>)
    ensures
        r.deep_view() == lines_of(contents@),
{
    let n: usize = contents.unicode_len();
    let chars = chars_of(contents);
    let mut r: Vec<&'a str> = Vec::new();
    let mut start: usize = 0;
    while start < n
        invariant
            n == contents@.len(),
            chars@ == contents@,
            start <= n,
            r.deep_view() + lines_from(contents@, start as int) == lines_of(contents@),
        decreases n - start,
    {
        let ghost text = contents@;
        let mut j: usize = start;
        while j < n && chars[j] != '\n'
            invariant
                n == text.len(),
                chars@ == text,
                start <= j <= n,
                find_newline(text, start as int) == find_newline(text, j as int),
            decreases n - j,
        {
            j = j + 1;
        }
        proof {
            assert(find_newline(text, start as int) == j);
        }
        if j == n {
            let line = contents.substring_char(start, n);
            r.push(line);
            proof {
                assert(lines_from(text, start as int) =~= seq![line@]);
                assert(r.deep_view() =~= lines_of(text));
            }
            return r;
        }
        let end: usize = if j > start && chars[j - 1] == '\r' {
            j - 1
        } else {
            j
        };
        let line = contents.substring_char(start, end);
        proof {
            if j > start && text[j - 1] == '\r' {
                assert(text.subrange(start as int, j as int).last() == '\r');
                assert(strip_cr(text.subrange(start as int, j as int))
                    =~= text.subrange(start as int, j - 1));
            } else {
                assert(strip_cr(text.subrange(start as int, j as int))
                    == text.subrange(start as int, j as int));
            }
        }
        let ghost old_r = r.deep_view();
        let ghost line_start = start as int;
        r.push(line);
        start = j + 1;
        proof {
            assert(r.deep_view() =~= old_r.push(line@));
            assert(lines_from(text, line_start) == seq![line@] + lines_from(
                text,
                start as int,
            ));
            assert(old_r.push(line@) + lines_from(text, start as int) =~= old_r + lines_from(
                text,
                line_start,
            ));
        }
    }
    proof {
        assert(r.deep_view() =~= lines_of(contents@));
    }
    r
}

/// The characters of `s`, in order.
pub fn chars_of(s: &str) -> (v: Vec<char>)
    ensures
        v@ == s@,
{
    let n: usize = s.unicode_len();
    let mut v: Vec<char> = Vec::new();
    let mut i: usize = 0;
    while i < n
        invariant
            n == s@.len(),
            i <= n,
            v@ == s@.subrange(0, i as int),
        decreases n - i,
    {
        let c = s.get_char(i);
        v.push(c);
        i = i + 1;
        proof {
            assert(v@ =~= s@.subrange(0, i as int));
        }
    }
    proof {
        assert(v@ =~= s@);
    }
    v
}

} // verus!
