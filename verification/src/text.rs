//! Whitespace-boundary scans over a sequence of characters.
//!
//! Both scans use sentinel results: `get_prev_whitespace` answers `0`
//! when no space lies strictly before the index, and
//! `get_next_whitespace` answers the query index itself when no space
//! lies at or after it. Callers distinguish the sentinel from a real
//! match by context.

use vstd::prelude::*;

verus! {

/// Index of the nearest space strictly before `idx`, or `0` if there is
/// none (the sentinel coincides with a genuine match at index 0).
pub open spec fn prev_ws(s: Seq<char>, idx: int) -> int
    decreases idx,
{
    if idx <= 0 {
        0
    } else if idx - 1 < s.len() && s[idx - 1] == ' ' {
        idx - 1
    } else {
        prev_ws(s, idx - 1)
    }
}

/// Index of the first space at or after `i`, or `s.len()` if there is none.
pub open spec fn first_space_at_or_after(s: Seq<char>, i: int) -> int
    decreases s.len() - i,
{
    if i >= s.len() {
        s.len() as int
    } else if 0 <= i && s[i] == ' ' {
        i
    } else {
        first_space_at_or_after(s, i + 1)
    }
}

/// Index of the nearest space at or after `idx`, or `idx` itself if
/// there is none before the end of the sequence.
pub open spec fn next_ws(s: Seq<char>, idx: int) -> int {
    let f = first_space_at_or_after(s, idx);
    if f < s.len() {
        f
    } else {
        idx
    }
}

/// The previous-space scan answers an index below `idx`, and below the
/// sequence length, whenever those bounds are themselves positive.
pub proof fn lemma_prev_ws_bounds(s: Seq<char>, idx: int)
    requires
        0 <= idx,
    ensures
        0 <= prev_ws(s, idx),
        idx > 0 ==> prev_ws(s, idx) < idx,
        prev_ws(s, idx) == 0 || prev_ws(s, idx) < s.len(),
    decreases idx,
{
    if idx > 0 && !(idx - 1 < s.len() && s[idx - 1] == ' ') {
        lemma_prev_ws_bounds(s, idx - 1);
    }
}

/// What the previous-space scan finds: either the sentinel `0`, or a
/// space; and no position between the answer and `idx` holds a space.
pub proof fn lemma_prev_ws_found(s: Seq<char>, idx: int)
    requires
        0 <= idx,
    ensures
        prev_ws(s, idx) == 0 || s[prev_ws(s, idx)] == ' ',
        forall|j: int|
            prev_ws(s, idx) < j < idx && j < s.len() ==> s[j] != ' ',
    decreases idx,
{
    if idx > 0 && !(idx - 1 < s.len() && s[idx - 1] == ' ') {
        lemma_prev_ws_found(s, idx - 1);
    }
}

/// What the first-space scan finds: a space at the answer when one
/// exists, and no space strictly before it (at or after `i`).
pub proof fn lemma_first_space_found(s: Seq<char>, i: int)
    requires
        0 <= i,
    ensures
        first_space_at_or_after(s, i) <= s.len(),
        i <= s.len() ==> i <= first_space_at_or_after(s, i),
        first_space_at_or_after(s, i) < s.len() ==> s[first_space_at_or_after(s, i)] == ' ',
        forall|j: int| i <= j < first_space_at_or_after(s, i) ==> s[j] != ' ',
    decreases s.len() - i,
{
    if i < s.len() && s[i] != ' ' {
        lemma_first_space_found(s, i + 1);
    }
}

/// Scans strictly backward from `idx - 1` for a space character;
/// answers `0` when none is found.
pub fn get_prev_whitespace(text: &Vec<char>, idx: usize) -> (r: usize)
    ensures
        r == prev_ws(text@, idx as int),
{
    let mut i: usize = idx;
    while i > 0
        invariant
            i <= idx,
            prev_ws(text@, idx as int) == prev_ws(text@, i as int),
        decreases i,
    {
        i = i - 1;
        if i < text.len() && text[i] == ' ' {
            assert(prev_ws(text@, i + 1) == i);
            return i;
        }
        assert(prev_ws(text@, i + 1) == prev_ws(text@, i as int));
    }
    0
}

/// Scans forward from `idx` for a space character; answers `idx` itself
/// when none is found before the end.
pub fn get_next_whitespace(text: &Vec<char>, idx: usize) -> (r: usize)
    ensures
        r == next_ws(text@, idx as int),
{
    let mut i: usize = idx;
    while i < text.len()
        invariant
            idx <= i,
            first_space_at_or_after(text@, idx as int) == first_space_at_or_after(
                text@,
                i as int,
            ),
        decreases text.len() - i,
    {
        if text[i] == ' ' {
            assert(first_space_at_or_after(text@, i as int) == i);
            return i;
        }
        assert(first_space_at_or_after(text@, i as int) == first_space_at_or_after(
            text@,
            i + 1,
        ));
        i = i + 1;
    }
    assert(first_space_at_or_after(text@, i as int) == text@.len());
    idx
}

} // verus!
