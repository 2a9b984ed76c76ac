//! Lines of a text as `split_inclusive('\n')` yields them: each line runs up to
//! and including its newline, and a last line without newline ends the text.
use vstd::prelude::*;

verus! {

/// The end (exclusive) of the line that starts at `i`.
pub open spec fn line_end(s: Seq<char>, i: int) -> int
    decreases s.len() - i,
{
    if i < 0 || i >= s.len() {
        s.len() as int
    } else if s[i] == '\n' {
        i + 1
    } else {
        line_end(s, i + 1)
    }
}

pub proof fn lemma_line_end_bounds(s: Seq<char>, i: int)
    requires
        0 <= i < s.len(),
    ensures
        i < line_end(s, i) <= s.len(),
    decreases s.len() - i,
{
    if s[i] != '\n' {
        if i + 1 < s.len() {
            lemma_line_end_bounds(s, i + 1);
        } else {
            assert(line_end(s, i + 1) == s.len());
        }
    }
}

/// The end of the line that starts at `i` (`i < cs.len()`).
pub fn find_line_end(cs: &Vec<char>, i: usize) -> (e: usize)
    requires
        i < cs@.len(),
    ensures
        e == line_end(cs@, i as int),
        i < e <= cs@.len(),
{
    let mut j = i;
    while j < cs.len() && cs[j] != '\n'
        invariant
            i <= j <= cs@.len(),
            line_end(cs@, i as int) == line_end(cs@, j as int),
        decreases cs@.len() - j,
    {
        j += 1;
    }
    if j < cs.len() {
        j + 1
    } else {
        j
    }
}

} // verus!
