//! Case folding for case-insensitive matching.
//!
//! Folding maps the ASCII letters `'A'..='Z'` to `'a'..='z'` and leaves every
//! other character unchanged. This simple per-character rule is a documented
//! simplification: multi-codepoint and locale-sensitive Unicode case mappings
//! are deliberately out of scope.

use vstd::prelude::*;

verus! {

/// The folded form of a single character: ASCII upper case becomes lower
/// case, everything else is unchanged.
pub open spec fn lower_char(c: char) -> char {
    if 'A' <= c && c <= 'Z' {
        ((c as u32) + 32) as char
    } else {
        c
    }
}

/// The folded form of a character sequence, character by character.
pub open spec fn lower(s: Seq<char>) -> Seq<char> {
    s.map_values(|c: char| lower_char(c))
}

/// Folding is idempotent: a folded character is no longer ASCII upper case,
/// so folding it again changes nothing.
pub proof fn lemma_lower_char_idempotent(c: char)
    ensures
        lower_char(lower_char(c)) == lower_char(c),
{
}

/// Folding a sequence twice equals folding it once.
pub proof fn lemma_lower_idempotent(s: Seq<char>)
    ensures
        lower(lower(s)) == lower(s),
{
    assert forall|i: int| 0 <= i < s.len() implies lower(lower(s))[i] == lower(s)[i] by {
        lemma_lower_char_idempotent(s[i]);
    }
    assert(lower(lower(s)) =~= lower(s));
}

/// Fold one character to lower case.
fn to_lower_char(c: char) -> (r: char)
    ensures
        r == lower_char(c),
{
    let u: u32 = c as u32;
    if 65 <= u && u <= 90 {
        ((u + 32) as u8) as char
    } else {
        c
    }
}

/// The characters of `s`, in order, each folded to lower case.
pub fn lower_chars_of(s: &str) -> (v: Vec<char>)
    ensures
        v@ == lower(s@),
{
    let n: usize = s.unicode_len();
    let mut v: Vec<char> = Vec::new();
    let mut i: usize = 0;
    while i < n
        invariant
            n == s@.len(),
            i <= n,
            v@ == lower(s@).subrange(0, i as int),
        decreases n - i,
    {
        let c = to_lower_char(s.get_char(i));
        v.push(c);
        i = i + 1;
        proof {
            assert(v@ =~= lower(s@).subrange(0, i as int));
        }
    }
    proof {
        assert(v@ =~= lower(s@));
    }
    v
}

} // verus!
