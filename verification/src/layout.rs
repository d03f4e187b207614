//! Caret placement under greedy word-wrap.
//!
//! Given the target passage, the typed length, and a viewport, the
//! engine computes the caret's screen column and row as if the passage
//! were word-wrapped at the viewport width, without materializing the
//! wrapped lines. The loop keeps a current line boundary `clw` (where
//! the line would end if no word had to move) and the start `last` of
//! the line under inspection; a boundary that falls inside a word moves
//! back to the word's start when the word also begins on this line, and
//! otherwise advances past the boundary (a word as wide as the line, or
//! the passage's final word, overflows instead of wrapping).

use vstd::prelude::*;
use crate::text::prev_ws;
use crate::text::next_ws;
use crate::text::first_space_at_or_after;
use crate::text::lemma_prev_ws_bounds;
use crate::text::lemma_prev_ws_found;
use crate::text::lemma_first_space_found;

verus! {

/// A viewport rectangle, in screen cells.
#[derive(Clone, Copy, Debug, PartialEq, Eq, Structural)]
pub struct Rect {
    pub x: u16,
    pub y: u16,
    pub width: u16,
    pub height: u16,
}

impl Default for Rect {
    /// The empty rectangle at the origin.
    fn default() -> (r: Rect)
        ensures
            r == (Rect { x: 0, y: 0, width: 0, height: 0 }),
    {
        Rect { x: 0, y: 0, width: 0, height: 0 }
    }
}

/// Where the line that starts at `last` and would end at boundary `clw`
/// actually ends: at `clw` when the boundary sits right after a space;
/// back at the start of the word containing the boundary when that word
/// begins on this line and runs past the boundary; one past the
/// boundary otherwise (the word ends exactly there, or runs to the end
/// of the passage, or is wider than the line).
pub open spec fn adjust_boundary(s: Seq<char>, last: int, clw: int) -> int {
    if s[clw - 1] != ' ' {
        let wbw = prev_ws(s, clw) + 1;
        let we = next_ws(s, clw);
        if wbw > last && clw < we {
            wbw
        } else {
            clw + 1
        }
    } else {
        clw
    }
}

/// The start of the line holding position `pos`, and the number of line
/// breaks before it, scanning from the line that starts at `last` with
/// pending boundary `clw`.
pub open spec fn wrap_steps(s: Seq<char>, w: int, pos: int, last: int, clw: int) -> (int, int)
    decreases pos - last,
        when (last < clw && 1 <= w)
{
    if clw >= s.len() {
        (last, 0)
    } else {
        let c2 = adjust_boundary(s, last, clw);
        if pos >= c2 {
            let r = wrap_steps(s, w, pos, c2, c2 + w);
            (r.0, r.1 + 1)
        } else {
            (last, 0)
        }
    }
}

/// Caret position for a typed prefix of `curr_text.len()` characters of
/// `target_text`, wrapped at `rect.width`, relative to the rectangle's
/// origin. An empty typed buffer sits at the origin.
pub fn get_xy_wrapped(curr_text: &Vec<char>, target_text: &Vec<char>, rect: Rect) -> (pos: (
    u16,
    u16,
))
    requires
        rect.width >= 1,
        curr_text@.len() <= target_text@.len(),
        rect.x + target_text@.len() <= u16::MAX,
        rect.y + target_text@.len() <= u16::MAX,
    ensures
        curr_text@.len() == 0 ==> pos == (rect.x, rect.y),
        curr_text@.len() > 0 ==> pos.0 == rect.x + curr_text@.len() - wrap_steps(
            target_text@,
            rect.width as int,
            curr_text@.len() as int,
            0,
            rect.width as int,
        ).0 && pos.1 == rect.y + wrap_steps(
            target_text@,
            rect.width as int,
            curr_text@.len() as int,
            0,
            rect.width as int,
        ).1,
{
    let ghost s = target_text@;
    let w: usize = rect.width as usize;
    let p: usize = curr_text.len();
    if p == 0 {
        return (rect.x, rect.y);
    }
    let mut last: usize = 0;
    let mut clw: usize = w;
    let mut rows: u16 = rect.y;
    loop
        invariant
            1 <= w,
            w == rect.width as int,
            p == curr_text@.len(),
            0 < p <= target_text@.len(),
            s == target_text@,
            rect.x + target_text@.len() <= u16::MAX,
            rect.y + target_text@.len() <= u16::MAX,
            last < clw,
            last <= p,
            rows - rect.y <= last,
            rect.y <= rows,
            wrap_steps(s, w as int, p as int, 0, w as int) == (
                wrap_steps(s, w as int, p as int, last as int, clw as int).0,
                wrap_steps(s, w as int, p as int, last as int, clw as int).1 + (rows - rect.y),
            ),
        ensures
            last <= p,
            rect.y <= rows,
            rows - rect.y <= last,
            wrap_steps(s, w as int, p as int, 0, w as int) == (last as int, (rows - rect.y) as int),
        decreases p - last,
    {
        if clw >= target_text.len() {
            break;
        }
        proof {
            lemma_prev_ws_bounds(s, clw as int);
        }
        let c2: usize = if target_text[clw - 1] != ' ' {
            let wbw = crate::text::get_prev_whitespace(target_text, clw) + 1;
            let we = crate::text::get_next_whitespace(target_text, clw);
            if wbw > last && clw < we {
                wbw
            } else {
                clw + 1
            }
        } else {
            clw
        };
        assert(c2 == adjust_boundary(s, last as int, clw as int));
        assert(last < c2);
        if p >= c2 {
            rows = rows + 1;
            last = c2;
            clw = c2 + w;
        } else {
            break;
        }
    }
    (rect.x + ((p - last) as u16), rows)
}

/// A well-formed passage: non-empty, no leading or trailing space, and
/// no two adjacent spaces.
pub open spec fn single_spaced(s: Seq<char>) -> bool {
    &&& s.len() > 0
    &&& s[0] != ' '
    &&& s[s.len() - 1] != ' '
    &&& forall|i: int| 0 <= i < s.len() - 1 ==> !(s[i] == ' ' && #[trigger] s[i + 1] == ' ')
}

/// Some position of the window `[i, i + w]` holds a space.
pub open spec fn window_has_space(s: Seq<char>, i: int, w: int) -> bool {
    exists|j: int| i <= j <= i + w && #[trigger] s[j] == ' '
}

/// No word of `s` is wider than `w`: every window of `w + 1` positions
/// holds a space.
pub open spec fn words_fit(s: Seq<char>, w: int) -> bool {
    forall|i: int| 0 <= i && i + w < s.len() ==> #[trigger] window_has_space(s, i, w)
}

/// The start of the line after the one starting at `start`, under plain
/// greedy word-wrap (meaningful when `start + w < s.len()`): the
/// boundary itself when it sits right after a space; one past it when
/// the word ends exactly at it; otherwise the start of the word the
/// boundary falls in, which moves whole to the next line.
pub open spec fn ref_next_start(s: Seq<char>, w: int, start: int) -> int {
    let b = start + w;
    if s[b - 1] == ' ' {
        b
    } else if b < s.len() && s[b] == ' ' {
        b + 1
    } else {
        prev_ws(s, b) + 1
    }
}

/// Caret line start and row under plain greedy word-wrap: the reference
/// the caret loop is held against.
pub open spec fn ref_caret(s: Seq<char>, w: int, start: int, pos: int) -> (int, int)
    decreases s.len() - start,
        when (1 <= w && 0 <= start)
    via ref_caret_dec
{
    if start + w >= s.len() {
        (start, 0)
    } else {
        let ns = ref_next_start(s, w, start);
        if ns <= start {
            (start, 0)
        } else if pos >= ns {
            let r = ref_caret(s, w, ns, pos);
            (r.0, r.1 + 1)
        } else {
            (start, 0)
        }
    }
}

#[via_fn]
proof fn ref_caret_dec(s: Seq<char>, w: int, start: int, pos: int) {
    if 1 <= w && 0 <= start && start + w < s.len() {
        lemma_prev_ws_bounds(s, start + w);
    }
}

/// No greedy line boundary strands the passage's final word: every
/// boundary that falls in a word still has a space at or after it, and
/// every line makes progress.
pub open spec fn wrap_clean(s: Seq<char>, w: int, start: int) -> bool
    decreases s.len() - start,
        when (1 <= w && 0 <= start)
    via wrap_clean_dec
{
    if start + w >= s.len() {
        true
    } else {
        let b = start + w;
        let ns = ref_next_start(s, w, start);
        &&& (s[b - 1] != ' ' ==> first_space_at_or_after(s, b) < s.len())
        &&& ns > start
        &&& wrap_clean(s, w, ns)
    }
}

#[via_fn]
proof fn wrap_clean_dec(s: Seq<char>, w: int, start: int) {
    if 1 <= w && 0 <= start && start + w < s.len() {
        lemma_prev_ws_bounds(s, start + w);
    }
}

/// On a single-spaced passage whose words fit the width and whose final
/// word no boundary strands, the caret loop agrees with plain greedy
/// word-wrap, line by line.
proof fn lemma_wrap_matches_ref(s: Seq<char>, w: int, pos: int, start: int)
    requires
        1 <= w,
        single_spaced(s),
        words_fit(s, w),
        0 <= start <= pos <= s.len(),
        start == 0 || s[start - 1] == ' ',
        wrap_clean(s, w, start),
    ensures
        wrap_steps(s, w, pos, start, start + w) == ref_caret(s, w, start, pos),
    decreases s.len() - start,
{
    if start + w < s.len() {
        let b = start + w;
        lemma_prev_ws_bounds(s, b);
        lemma_prev_ws_found(s, b);
        lemma_first_space_found(s, b);
        let ns = ref_next_start(s, w, start);
        if s[b - 1] == ' ' {
            assert(adjust_boundary(s, start, b) == ns);
            assert(s[ns - 1] == ' ');
        } else {
            let wbw = prev_ws(s, b) + 1;
            let f = first_space_at_or_after(s, b);
            assert(f < s.len());
            assert(next_ws(s, b) == f);
            if b < s.len() && s[b] == ' ' {
                assert(f == b);
                assert(adjust_boundary(s, start, b) == b + 1);
                assert(ns == b + 1);
                assert(s[ns - 1] == ' ');
            } else {
                assert(s[b] != ' ');
                assert(f > b);
                assert(window_has_space(s, start, w));
                let j = choose|j: int| start <= j <= start + w && #[trigger] s[j] == ' ';
                assert(start <= j <= b && s[j] == ' ');
                assert(j != b && j != b - 1);
                assert(prev_ws(s, b) >= j) by {
                    if prev_ws(s, b) < j {
                        assert(s[j] != ' ');
                    }
                }
                assert(wbw > start);
                assert(b < f);
                assert(adjust_boundary(s, start, b) == wbw);
                assert(ns == wbw);
                assert(prev_ws(s, b) > 0) by {
                    if prev_ws(s, b) == 0 {
                        assert(j == 0 || s[prev_ws(s, b)] == ' ');
                        assert(s[0] != ' ');
                    }
                }
                assert(s[ns - 1] == ' ');
            }
        }
        assert(ns > start);
        if pos >= ns {
            lemma_wrap_matches_ref(s, w, pos, ns);
        }
    }
}

/// Column bound under plain greedy word-wrap: the caret never sits more
/// than `w` cells into its line, and sits strictly inside the width
/// whenever its own target position holds a visible (non-space)
/// character.
proof fn lemma_ref_col_bound(s: Seq<char>, w: int, pos: int, start: int)
    requires
        1 <= w,
        single_spaced(s),
        words_fit(s, w),
        0 <= start <= pos <= s.len(),
        start == 0 || s[start - 1] == ' ',
        wrap_clean(s, w, start),
    ensures
        start <= ref_caret(s, w, start, pos).0 <= pos,
        pos - ref_caret(s, w, start, pos).0 <= w,
        pos < s.len() && s[pos] != ' ' ==> pos - ref_caret(s, w, start, pos).0 < w,
    decreases s.len() - start,
{
    if start + w >= s.len() {
    } else {
        let b = start + w;
        lemma_prev_ws_bounds(s, b);
        lemma_prev_ws_found(s, b);
        lemma_first_space_found(s, b);
        let ns = ref_next_start(s, w, start);
        if s[b - 1] == ' ' {
            assert(s[ns - 1] == ' ');
        } else {
            let f = first_space_at_or_after(s, b);
            assert(f < s.len());
            if b < s.len() && s[b] == ' ' {
                assert(s[ns - 1] == ' ');
            } else {
                assert(window_has_space(s, start, w));
                let j = choose|j: int| start <= j <= start + w && #[trigger] s[j] == ' ';
                assert(start <= j <= b && s[j] == ' ');
                assert(prev_ws(s, b) >= j) by {
                    if prev_ws(s, b) < j {
                        assert(s[j] != ' ');
                    }
                }
                assert(prev_ws(s, b) > 0) by {
                    if prev_ws(s, b) == 0 {
                        assert(j == 0 || s[prev_ws(s, b)] == ' ');
                        assert(s[0] != ' ');
                    }
                }
                assert(s[ns - 1] == ' ');
            }
        }
        assert(ns > start);
        if pos >= ns {
            lemma_ref_col_bound(s, w, pos, ns);
        } else {
            if pos < s.len() && s[pos] != ' ' && pos - start == w {
                assert(pos == b);
                assert(ns == prev_ws(s, b) + 1);
                assert(ns > b);
                assert(false);
            }
        }
    }
}

/// Law: on a viewport of width at least one, over a passage with single
/// spaces and no word wider than the width, and whose final word no
/// boundary strands, the caret loop computes exactly the line start and
/// row of plain greedy word-wrap, and the column it reports stays
/// within the width: at most `w`, and strictly below `w` whenever the
/// caret's target position holds a visible character.
pub proof fn lemma_layout_caret(s: Seq<char>, w: int, pos: int)
    requires
        1 <= w,
        single_spaced(s),
        words_fit(s, w),
        wrap_clean(s, w, 0),
        0 <= pos <= s.len(),
    ensures
        wrap_steps(s, w, pos, 0, w) == ref_caret(s, w, 0, pos),
        0 <= ref_caret(s, w, 0, pos).0 <= pos,
        pos - ref_caret(s, w, 0, pos).0 <= w,
        pos < s.len() && s[pos] != ' ' ==> pos - ref_caret(s, w, 0, pos).0 < w,
{
    lemma_wrap_matches_ref(s, w, pos, 0);
    lemma_ref_col_bound(s, w, pos, 0);
}

} // verus!
