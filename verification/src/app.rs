//! The typing session: target and typed buffers, correctness counters,
//! display mode, and the word-boundary edits.
//!
//! The typed buffer only ever grows by one character at a time
//! (`push_char`), and only a growth step is scored: each position is
//! evaluated at the moment a character lands on it, and deletion never
//! revises the tally. Word-boundary deletions are bound to the target's
//! word boundaries, not the typed content, so a partially typed word is
//! deleted back to where re-typing it will start.

use vstd::prelude::*;
use crate::layout::Rect;
use crate::text::prev_ws;
use crate::text::first_space_at_or_after;
use crate::text::lemma_prev_ws_bounds;
use crate::text::lemma_prev_ws_found;
use crate::text::lemma_first_space_found;
use crate::timer::Timer;
use crate::words::last_words_match_spec;

verus! {

/// A run of `n` space characters.
pub open spec fn spaces(n: int) -> Seq<char> {
    Seq::new(n as nat, |i: int| ' ')
}

/// The smaller of two integers.
pub open spec fn min_int(a: int, b: int) -> int {
    if a <= b {
        a
    } else {
        b
    }
}

/// Saturating increment of a counter.
pub open spec fn sat_inc(x: u32) -> u32 {
    if x < u32::MAX {
        (x + 1) as u32
    } else {
        x
    }
}

/// How much of a typed buffer of length `n` survives `del_last_word`
/// against target `t`: everything up to and including the space that
/// precedes the word being typed, or nothing when no space precedes it.
pub open spec fn del_word_keep(t: Seq<char>, n: int) -> int {
    let ws = prev_ws(t, if n == 0 { 0 } else { n - 1 });
    if ws != 0 {
        ws + 1
    } else {
        0
    }
}

/// How much of the typed buffer survives `del_whitespaces`: everything
/// up to and including the last non-space character.
pub open spec fn trailing_keep(c: Seq<char>) -> int
    decreases c.len(),
{
    if c.len() == 0 {
        0
    } else if c.last() != ' ' {
        c.len() as int
    } else {
        trailing_keep(c.drop_last())
    }
}

/// What `trailing_keep` finds: the end of the shortest prefix whose
/// complement is all spaces.
pub proof fn lemma_trailing_keep(c: Seq<char>)
    ensures
        0 <= trailing_keep(c) <= c.len(),
        trailing_keep(c) > 0 ==> c[trailing_keep(c) - 1] != ' ',
        forall|j: int| trailing_keep(c) <= j < c.len() ==> c[j] == ' ',
    decreases c.len(),
{
    if c.len() > 0 && c.last() == ' ' {
        lemma_trailing_keep(c.drop_last());
        assert forall|j: int| trailing_keep(c) <= j < c.len() implies c[j] == ' ' by {
            if j < c.len() - 1 {
                assert(c.drop_last()[j] == c[j]);
            }
        }
    }
}

/// One `push_char` step on the buffers alone: append `ch` when the
/// buffer is short of the target and the target position is not a
/// space, else leave the buffer as it is.
pub open spec fn push_one(t: Seq<char>, c: Seq<char>, ch: char) -> Seq<char> {
    if c.len() < t.len() && t[c.len() as int] != ' ' {
        c.push(ch)
    } else {
        c
    }
}

/// `push_one` folded over a sequence of characters, first character
/// first.
pub open spec fn push_all(t: Seq<char>, c: Seq<char>, cs: Seq<char>) -> Seq<char>
    decreases cs.len(),
{
    if cs.len() == 0 {
        c
    } else {
        push_all(t, push_one(t, c, cs.first()), cs.drop_first())
    }
}

/// The typed buffer after `jump_to_next_word`: unchanged when it
/// already ends in a space or no space remains in the target at or
/// after its length; otherwise padded with spaces through the next
/// space of the target.
pub open spec fn jump_result(t: Seq<char>, c: Seq<char>) -> Seq<char> {
    if c.len() > 0 && c.last() == ' ' {
        c
    } else {
        let k = first_space_at_or_after(t, c.len() as int);
        if k < t.len() {
            c + spaces(k + 1 - c.len())
        } else {
            c
        }
    }
}

/// `s` with a filler of `f` spaces put in front.
pub open spec fn with_filler(s: Seq<char>, f: int) -> Seq<char> {
    spaces(f) + s
}

/// `s` with up to `f` leading characters stripped.
pub open spec fn without_filler(s: Seq<char>, f: int) -> Seq<char> {
    s.skip(min_int(f, s.len() as int))
}

/// Length of the run of spaces at the front of `s`.
pub open spec fn leading_spaces(s: Seq<char>) -> int
    decreases s.len(),
{
    if s.len() == 0 || s[0] != ' ' {
        0
    } else {
        1 + leading_spaces(s.drop_first())
    }
}

/// What `leading_spaces` finds: the first non-space position.
pub proof fn lemma_leading_spaces(s: Seq<char>)
    ensures
        0 <= leading_spaces(s) <= s.len(),
        forall|j: int| 0 <= j < leading_spaces(s) ==> s[j] == ' ',
        leading_spaces(s) < s.len() ==> s[leading_spaces(s)] != ' ',
    decreases s.len(),
{
    if s.len() > 0 && s[0] == ' ' {
        lemma_leading_spaces(s.drop_first());
        let d = s.drop_first();
        assert(forall|j: int| 0 <= j < d.len() ==> d[j] == s[j + 1]);
        assert forall|j: int| 0 <= j < leading_spaces(s) implies s[j] == ' ' by {
            if j > 0 {
                assert(d[j - 1] == ' ');
            }
        }
    }
}

/// Builds a vector of `n` spaces.
fn make_spaces(n: usize) -> (v: Vec<char>)
    ensures
        v@ == spaces(n as int),
{
    let mut v: Vec<char> = Vec::new();
    let mut i: usize = 0;
    while i < n
        invariant
            0 <= i <= n,
            v@ == spaces(i as int),
        decreases n - i,
    {
        v.push(' ');
        proof {
            assert(spaces(i as int).push(' ') =~= spaces(i + 1));
        }
        i = i + 1;
    }
    v
}

/// Concatenates two character vectors into a fresh one.
fn concat(a: &Vec<char>, b: &Vec<char>) -> (r: Vec<char>)
    ensures
        r@ == a@ + b@,
{
    let mut r: Vec<char> = Vec::new();
    let mut i: usize = 0;
    while i < a.len()
        invariant
            0 <= i <= a@.len(),
            r@ =~= a@.take(i as int),
        decreases a.len() - i,
    {
        r.push(a[i]);
        proof {
            assert(a@.take(i as int).push(a@[i as int]) =~= a@.take(i + 1));
        }
        i = i + 1;
    }
    let mut j: usize = 0;
    while j < b.len()
        invariant
            0 <= j <= b@.len(),
            r@ =~= a@ + b@.take(j as int),
        decreases b.len() - j,
    {
        r.push(b[j]);
        proof {
            assert((a@ + b@.take(j as int)).push(b@[j as int]) =~= a@ + b@.take(j + 1));
        }
        j = j + 1;
    }
    proof {
        assert(a@.take(a@.len() as int) =~= a@);
        assert(b@.take(b@.len() as int) =~= b@);
        assert(r@ =~= a@ + b@);
    }
    r
}

/// The vector with its first `d` characters dropped, or emptied when it
/// is shorter than `d`.
fn drop_front_clamped(v: &Vec<char>, d: usize) -> (r: Vec<char>)
    ensures
        r@ == v@.skip(min_int(d as int, v@.len() as int)),
{
    let start = if d <= v.len() {
        d
    } else {
        v.len()
    };
    let mut r: Vec<char> = Vec::new();
    let mut i: usize = start;
    while i < v.len()
        invariant
            start <= i <= v@.len(),
            r@ =~= v@.subrange(start as int, i as int),
        decreases v.len() - i,
    {
        r.push(v[i]);
        proof {
            assert(v@.subrange(start as int, i as int).push(v@[i as int]) =~= v@.subrange(
                start as int,
                i + 1,
            ));
        }
        i = i + 1;
    }
    proof {
        assert(r@ =~= v@.skip(min_int(d as int, v@.len() as int)));
    }
    r
}

/// Counts the leading spaces of `v`.
fn count_leading_spaces(v: &Vec<char>) -> (n: usize)
    ensures
        n == leading_spaces(v@),
{
    proof {
        lemma_leading_spaces(v@);
    }
    let mut i: usize = 0;
    while i < v.len() && v[i] == ' '
        invariant
            0 <= i <= v@.len(),
            forall|j: int| 0 <= j < i ==> v@[j] == ' ',
            0 <= leading_spaces(v@) <= v@.len(),
            forall|j: int| 0 <= j < leading_spaces(v@) ==> v@[j] == ' ',
            leading_spaces(v@) < v@.len() ==> v@[leading_spaces(v@)] != ' ',
        decreases v.len() - i,
    {
        i = i + 1;
    }
    proof {
        let ls = leading_spaces(v@);
        if (i as int) < ls {
            assert(v@[i as int] == ' ');
            assert(false);
        } else if (i as int) > ls {
            assert(v@[ls] == ' ');
            assert(false);
        }
    }
    i
}

/// Pushing, one by one, the characters of `c` from position `k` onward
/// onto the prefix `c.take(k)` rebuilds `c`, provided the target holds
/// no space at any of those positions.
proof fn lemma_push_all_restores(t: Seq<char>, c: Seq<char>, k: int)
    requires
        0 <= k <= c.len() <= t.len(),
        forall|i: int| k <= i < c.len() ==> t[i] != ' ',
    ensures
        push_all(t, c.take(k), c.skip(k)) == c,
    decreases c.len() - k,
{
    if k == c.len() {
        assert(c.take(k) =~= c);
        assert(c.skip(k) =~= Seq::<char>::empty());
    } else {
        assert(c.skip(k).first() == c[k]);
        assert(t[k] != ' ');
        assert(push_one(t, c.take(k), c[k]) =~= c.take(k + 1));
        assert(c.skip(k).drop_first() =~= c.skip(k + 1));
        lemma_push_all_restores(t, c, k + 1);
    }
}

/// Law: `del_last_word` followed by re-typing the same characters
/// reproduces the exact prior typed buffer. It asks only that the
/// target start with a non-space (as generated passages do) and that
/// the buffer's last position not sit on a target space (a character
/// there comes from `jump_to_next_word`, not from typing).
pub proof fn lemma_delete_word_then_retype(t: Seq<char>, c: Seq<char>)
    requires
        1 <= c.len() <= t.len(),
        t[0] != ' ',
        t[c.len() - 1] != ' ',
    ensures
        ({
            let k = min_int(del_word_keep(t, c.len() as int), c.len() as int);
            push_all(t, c.take(k), c.skip(k)) == c
        }),
{
    let n = c.len() as int;
    lemma_prev_ws_bounds(t, n - 1);
    lemma_prev_ws_found(t, n - 1);
    let ws = prev_ws(t, n - 1);
    let k = min_int(del_word_keep(t, n), n);
    assert forall|i: int| k <= i < n implies t[i] != ' ' by {
        if i < n - 1 && i > ws {
            assert(t[i] != ' ');
        }
    }
    lemma_push_all_restores(t, c, k);
}

/// Per-character render classification of a target position.
#[derive(Clone, Copy, Debug, PartialEq, Eq, Structural)]
pub enum CharClass {
    /// Not typed yet.
    Unvisited,
    /// Typed and equal to the target character.
    Correct,
    /// Typed and different from the target character.
    Incorrect,
    /// Typed and different where the target holds a space.
    IncorrectSpace,
}

/// The class of target position `i` given typed buffer `c`.
pub open spec fn class_of(t: Seq<char>, c: Seq<char>, i: int) -> CharClass {
    if i >= c.len() {
        CharClass::Unvisited
    } else if c[i] == t[i] {
        CharClass::Correct
    } else if t[i] == ' ' {
        CharClass::IncorrectSpace
    } else {
        CharClass::Incorrect
    }
}

/// A typing session.
pub struct App {
    /// The exit command arrived.
    pub exit: bool,
    /// The passage to type; fixed between `next_test` calls but for the
    /// scroller filler.
    pub target_text: Vec<char>,
    /// What was typed so far, aligned position by position with the
    /// target.
    pub curr_text: Vec<char>,
    /// The viewport the host renders into.
    pub rect: Rect,
    /// Single-line scrolling display instead of a wrapped page.
    pub scroller: bool,
    /// The session timer.
    pub timer: Timer,
    /// Positions scored correct.
    pub correct_chars: u32,
    /// Positions scored incorrect.
    pub incorrect_chars: u32,
    /// A scored mistake restarts the test.
    pub restart_on_mistake: bool,
}

/// The two values differ at most in the typed buffer and the counters.
pub open spec fn same_frame(a: App, b: App) -> bool {
    &&& b.exit == a.exit
    &&& b.target_text@ == a.target_text@
    &&& b.rect == a.rect
    &&& b.scroller == a.scroller
    &&& b.timer == a.timer
    &&& b.restart_on_mistake == a.restart_on_mistake
}

/// The two values carry the same correctness counters.
pub open spec fn same_counters(a: App, b: App) -> bool {
    b.correct_chars == a.correct_chars && b.incorrect_chars == a.incorrect_chars
}

/// Exactly one counter of `b` grew by one over `a` (saturating): the
/// correct one when `ok`, the incorrect one otherwise.
pub open spec fn scored(a: App, b: App, ok: bool) -> bool {
    if ok {
        b.correct_chars == sat_inc(a.correct_chars) && b.incorrect_chars == a.incorrect_chars
    } else {
        b.incorrect_chars == sat_inc(a.incorrect_chars) && b.correct_chars == a.correct_chars
    }
}

impl App {
    /// The typed buffer never outruns the target.
    pub open spec fn wf(self) -> bool {
        self.curr_text@.len() <= self.target_text@.len()
    }

    /// A character may land: the buffer is short of the target and the
    /// target position under the caret is not a space.
    pub open spec fn can_type(self) -> bool {
        self.curr_text@.len() < self.target_text@.len() && self.target_text@[self.curr_text@.len() as int]
            != ' '
    }

    /// The session is complete: full length and matching last words.
    pub open spec fn finished_spec(self) -> bool {
        self.curr_text@.len() == self.target_text@.len() && last_words_match_spec(
            self.target_text@,
            self.curr_text@,
        )
    }

    /// A fresh session over `target_text` under `config`.
    pub fn new(target_text: Vec<char>, config: &crate::config::SessionConfig) -> (app: App)
        ensures
            !app.exit,
            app.target_text@ == target_text@,
            app.curr_text@ == Seq::<char>::empty(),
            app.rect == (Rect { x: 0, y: 0, width: 0, height: 0 }),
            !app.scroller,
            app.timer.start_ms is None,
            app.timer.end_ms is None,
            app.timer.duration_ms == crate::timer::secs_to_ms(config.duration_secs),
            app.timer.explicit_duration == config.explicit_duration,
            app.correct_chars == 0,
            app.incorrect_chars == 0,
            app.restart_on_mistake == config.restart_on_mistake,
            app.wf(),
    {
        App {
            exit: false,
            target_text,
            curr_text: Vec::new(),
            rect: Rect { x: 0, y: 0, width: 0, height: 0 },
            scroller: false,
            timer: Timer::new(config.duration_secs, config.explicit_duration),
            correct_chars: 0,
            incorrect_chars: 0,
            restart_on_mistake: config.restart_on_mistake,
        }
    }

    pub fn should_exit(&self) -> (r: bool)
        ensures
            r == self.exit,
    {
        self.exit
    }

    /// Record the exit command.
    pub fn exit(&mut self)
        ensures
            final(self).exit,
            final(self).target_text@ == old(self).target_text@,
            final(self).curr_text@ == old(self).curr_text@,
            final(self).rect == old(self).rect,
            final(self).scroller == old(self).scroller,
            final(self).timer == old(self).timer,
            same_counters(*old(self), *final(self)),
            final(self).restart_on_mistake == old(self).restart_on_mistake,
    {
        self.exit = true;
    }

    /// Truncate the typed buffer back to the start of the word it ends
    /// in, as delimited by the target's spaces.
    pub fn del_last_word(&mut self)
        ensures
            same_frame(*old(self), *final(self)),
            same_counters(*old(self), *final(self)),
            final(self).curr_text@ == old(self).curr_text@.take(
                min_int(
                    del_word_keep(old(self).target_text@, old(self).curr_text@.len() as int),
                    old(self).curr_text@.len() as int,
                ),
            ),
            old(self).wf() ==> final(self).wf(),
    {
        let idx = if self.curr_text.len() == 0 {
            0
        } else {
            self.curr_text.len() - 1
        };
        let word_start = crate::text::get_prev_whitespace(&self.target_text, idx);
        proof {
            lemma_prev_ws_bounds(self.target_text@, idx as int);
        }
        let keep = if word_start != 0 {
            word_start + 1
        } else {
            0
        };
        self.curr_text.truncate(keep);
        proof {
            if keep <= old(self).curr_text@.len() {
                assert(old(self).curr_text@.subrange(0, keep as int) == old(
                    self,
                ).curr_text@.take(keep as int));
            }
        }
    }

    /// Drop the maximal run of trailing spaces from the typed buffer.
    pub fn del_whitespaces(&mut self)
        ensures
            same_frame(*old(self), *final(self)),
            same_counters(*old(self), *final(self)),
            final(self).curr_text@ == old(self).curr_text@.take(
                trailing_keep(old(self).curr_text@),
            ),
            old(self).wf() ==> final(self).wf(),
    {
        proof {
            lemma_trailing_keep(self.curr_text@);
        }
        let mut i: usize = self.curr_text.len();
        while i > 0 && self.curr_text[i - 1] == ' '
            invariant
                0 <= i <= self.curr_text@.len(),
                forall|j: int| i <= j < self.curr_text@.len() ==> self.curr_text@[j] == ' ',
            decreases i,
        {
            i = i - 1;
        }
        proof {
            lemma_trailing_keep(self.curr_text@);
            let tk = trailing_keep(self.curr_text@);
            if (i as int) < tk {
                assert(self.curr_text@[tk - 1] == ' ');
                assert(false);
            } else if (i as int) > tk {
                assert(self.curr_text@[i as int - 1] == ' ');
                assert(false);
            }
        }
        self.curr_text.truncate(i);
        proof {
            assert(final(self).curr_text@ == old(self).curr_text@.take(
                trailing_keep(old(self).curr_text@),
            ));
        }
    }

    /// Give up on the current word: pad the typed buffer with spaces
    /// through the target's next space. A no-op when the buffer already
    /// ends in a space or the target holds no further space.
    pub fn jump_to_next_word(&mut self)
        ensures
            same_frame(*old(self), *final(self)),
            same_counters(*old(self), *final(self)),
            final(self).curr_text@ == jump_result(old(self).target_text@, old(self).curr_text@),
            old(self).wf() ==> final(self).wf(),
    {
        let n = self.curr_text.len();
        if n > 0 && self.curr_text[n - 1] == ' ' {
            return;
        }
        if n >= self.target_text.len() {
            proof {
                lemma_first_space_found(self.target_text@, n as int);
            }
            return;
        }
        proof {
            lemma_first_space_found(self.target_text@, n as int);
        }
        let nw = crate::text::get_next_whitespace(&self.target_text, n);
        let k: usize = if nw > n {
            nw
        } else if self.target_text[n] == ' ' {
            n
        } else {
            proof {
                assert(first_space_at_or_after(self.target_text@, n as int)
                    >= self.target_text@.len());
            }
            return;
        };
        assert(k == first_space_at_or_after(self.target_text@, n as int));
        assert(k < self.target_text@.len());
        let ghost c0 = self.curr_text@;
        let ghost a0 = *self;
        let mut j: usize = n;
        while j <= k
            invariant
                n <= j <= k + 1,
                k < a0.target_text@.len(),
                a0.target_text@.len() <= usize::MAX,
                same_frame(a0, *self),
                same_counters(a0, *self),
                self.curr_text@ == c0 + spaces(j - n),
            decreases k + 1 - j,
        {
            self.curr_text.push(' ');
            proof {
                assert(c0 + spaces(j + 1 - n) =~= (c0 + spaces(j - n)).push(' '));
            }
            j = j + 1;
        }
        proof {
            assert(final(self).curr_text@ =~= jump_result(
                old(self).target_text@,
                old(self).curr_text@,
            ));
        }
    }

    /// Backspace as a buffer edit: a trailing run of spaces goes as one
    /// edit, otherwise exactly one character; a no-op on an empty
    /// buffer. The reducer guards this with the filler and halt checks.
    pub fn backspace(&mut self)
        ensures
            same_frame(*old(self), *final(self)),
            same_counters(*old(self), *final(self)),
            old(self).curr_text@.len() > 0 && old(self).curr_text@.last() == ' '
                ==> final(self).curr_text@ == old(self).curr_text@.take(
                trailing_keep(old(self).curr_text@),
            ),
            old(self).curr_text@.len() > 0 && old(self).curr_text@.last() != ' '
                ==> final(self).curr_text@ == old(self).curr_text@.take(
                old(self).curr_text@.len() - 1,
            ),
            old(self).curr_text@.len() == 0 ==> final(self).curr_text@ == old(self).curr_text@,
            old(self).wf() ==> final(self).wf(),
    {
        let n = self.curr_text.len();
        if n == 0 {
            return ;
        }
        if self.curr_text[n - 1] == ' ' {
            self.del_whitespaces();
            return ;
        }
        self.curr_text.pop();
        proof {
            assert(final(self).curr_text@ =~= old(self).curr_text@.take(
                old(self).curr_text@.len() - 1,
            ));
        }
    }

    /// Score the last typed character against the target position it
    /// landed on: one counter grows by one (saturating).
    pub fn check_is_char_corr(&mut self)
        requires
            1 <= old(self).curr_text@.len() <= old(self).target_text@.len(),
        ensures
            same_frame(*old(self), *final(self)),
            final(self).curr_text@ == old(self).curr_text@,
            scored(
                *old(self),
                *final(self),
                old(self).curr_text@.last() == old(self).target_text@[old(self).curr_text@.len()
                    - 1],
            ),
    {
        let last_curr_char = self.curr_text[self.curr_text.len() - 1];
        let last_target_char = self.target_text[self.curr_text.len() - 1];
        if last_curr_char == last_target_char {
            self.correct_chars = self.correct_chars.saturating_add(1);
        } else {
            self.incorrect_chars = self.incorrect_chars.saturating_add(1);
        }
    }

    /// Append one typed character and score it; ignored when the buffer
    /// is full or the target position holds a space. Exactly one
    /// keystroke is evaluated per accepted character.
    pub fn push_char(&mut self, c: char)
        ensures
            same_frame(*old(self), *final(self)),
            final(self).curr_text@ == push_one(old(self).target_text@, old(self).curr_text@, c),
            !old(self).can_type() ==> same_counters(*old(self), *final(self)),
            old(self).can_type() ==> scored(
                *old(self),
                *final(self),
                c == old(self).target_text@[old(self).curr_text@.len() as int],
            ),
            (old(self).can_type() && old(self).correct_chars < u32::MAX
                && old(self).incorrect_chars < u32::MAX) ==> (final(self).correct_chars
                + final(self).incorrect_chars == old(self).correct_chars + old(
                self,
            ).incorrect_chars + 1),
            old(self).wf() ==> final(self).wf(),
    {
        if self.curr_text.len() < self.target_text.len() {
            let at = self.curr_text.len();
            if self.target_text[at] != ' ' {
                self.curr_text.push(c);
                self.check_is_char_corr();
            }
        }
    }

    /// The session is complete: the typed buffer has the target's full
    /// length and the last words agree (length-matching padding alone
    /// does not finish a session).
    pub fn is_finished_typing(&self) -> (r: bool)
        ensures
            r == self.finished_spec(),
    {
        if self.curr_text.len() == self.target_text.len() {
            crate::words::last_words_match(&self.target_text, &self.curr_text)
        } else {
            false
        }
    }

    /// The scroller filler: half the viewport width of spaces.
    pub fn gen_scroller_filter(&self) -> (r: Vec<char>)
        ensures
            r@ == spaces((self.rect.width / 2) as int),
    {
        make_spaces((self.rect.width / 2) as usize)
    }

    /// Clear the typed buffer and the counters and reset the timer; in
    /// scroller mode the typed buffer restarts as the filler (clamped
    /// to the target's length).
    pub fn restart_test(&mut self)
        ensures
            final(self).correct_chars == 0,
            final(self).incorrect_chars == 0,
            final(self).timer == (Timer {
                start_ms: None,
                end_ms: None,
                ..old(self).timer
            }),
            final(self).exit == old(self).exit,
            final(self).target_text@ == old(self).target_text@,
            final(self).rect == old(self).rect,
            final(self).scroller == old(self).scroller,
            final(self).restart_on_mistake == old(self).restart_on_mistake,
            !old(self).scroller ==> final(self).curr_text@ == Seq::<char>::empty(),
            old(self).scroller ==> final(self).curr_text@ == spaces(
                min_int((old(self).rect.width / 2) as int, old(self).target_text@.len() as int),
            ),
            final(self).wf(),
    {
        self.correct_chars = 0;
        self.incorrect_chars = 0;
        self.curr_text = Vec::new();
        self.timer.reset();
        if self.scroller {
            let mut f = (self.rect.width / 2) as usize;
            if f > self.target_text.len() {
                f = self.target_text.len();
            }
            self.curr_text = make_spaces(f);
        }
    }

    /// Replace the target with a freshly generated passage and restart;
    /// in scroller mode the new target is prefixed with the filler.
    pub fn next_test(&mut self, new_target: Vec<char>)
        ensures
            final(self).correct_chars == 0,
            final(self).incorrect_chars == 0,
            final(self).timer == (Timer {
                start_ms: None,
                end_ms: None,
                ..old(self).timer
            }),
            final(self).exit == old(self).exit,
            final(self).rect == old(self).rect,
            final(self).scroller == old(self).scroller,
            final(self).restart_on_mistake == old(self).restart_on_mistake,
            !old(self).scroller ==> final(self).target_text@ == new_target@
                && final(self).curr_text@ == Seq::<char>::empty(),
            old(self).scroller ==> final(self).target_text@ == with_filler(
                new_target@,
                (old(self).rect.width / 2) as int,
            ) && final(self).curr_text@ == spaces(
                min_int((old(self).rect.width / 2) as int, new_target@.len() as int),
            ),
            final(self).wf(),
    {
        self.target_text = new_target;
        self.restart_test();
        if self.scroller {
            let filler = self.gen_scroller_filter();
            self.target_text = concat(&filler, &self.target_text);
        }
    }

    pub fn get_correct(&self) -> (r: u32)
        ensures
            r == self.correct_chars,
    {
        self.correct_chars
    }

    pub fn get_incorrect(&self) -> (r: u32)
        ensures
            r == self.incorrect_chars,
    {
        self.incorrect_chars
    }

    pub fn is_in_scroller_mode(&self) -> (r: bool)
        ensures
            r == self.scroller,
    {
        self.scroller
    }

    /// Flip the display mode flag alone; the filler bookkeeping of a
    /// mode switch is `toggle_mode`.
    pub fn swap_mode(&mut self)
        ensures
            final(self).scroller == !old(self).scroller,
            final(self).exit == old(self).exit,
            final(self).target_text@ == old(self).target_text@,
            final(self).curr_text@ == old(self).curr_text@,
            final(self).rect == old(self).rect,
            final(self).timer == old(self).timer,
            same_counters(*old(self), *final(self)),
            final(self).restart_on_mistake == old(self).restart_on_mistake,
    {
        self.scroller = !self.scroller;
    }

    /// The mode-switch command: entering the scroller prefixes both
    /// buffers with the filler; leaving it strips that many characters
    /// from the front of both (clamped to what is there).
    pub fn toggle_mode(&mut self)
        ensures
            final(self).scroller == !old(self).scroller,
            final(self).exit == old(self).exit,
            final(self).rect == old(self).rect,
            final(self).timer == old(self).timer,
            same_counters(*old(self), *final(self)),
            final(self).restart_on_mistake == old(self).restart_on_mistake,
            !old(self).scroller ==> final(self).target_text@ == with_filler(
                old(self).target_text@,
                (old(self).rect.width / 2) as int,
            ) && final(self).curr_text@ == with_filler(
                old(self).curr_text@,
                (old(self).rect.width / 2) as int,
            ),
            old(self).scroller ==> final(self).target_text@ == without_filler(
                old(self).target_text@,
                (old(self).rect.width / 2) as int,
            ) && final(self).curr_text@ == without_filler(
                old(self).curr_text@,
                (old(self).rect.width / 2) as int,
            ),
            old(self).wf() ==> final(self).wf(),
    {
        if !self.scroller {
            self.scroller = true;
            let filler = self.gen_scroller_filter();
            self.target_text = concat(&filler, &self.target_text);
            self.curr_text = concat(&filler, &self.curr_text);
        } else {
            self.scroller = false;
            let d = (self.rect.width / 2) as usize;
            self.target_text = drop_front_clamped(&self.target_text, d);
            self.curr_text = drop_front_clamped(&self.curr_text, d);
        }
    }

    /// Re-center the scroller: grow or shrink the filler at the front of
    /// both buffers so the target's leading run of spaces is half the
    /// viewport width (equal-length edits, clamped to the typed buffer).
    pub fn adjust_filler_txt(&mut self)
        ensures
            final(self).exit == old(self).exit,
            final(self).rect == old(self).rect,
            final(self).scroller == old(self).scroller,
            final(self).timer == old(self).timer,
            same_counters(*old(self), *final(self)),
            final(self).restart_on_mistake == old(self).restart_on_mistake,
            ({
                let fl = leading_spaces(old(self).target_text@);
                let need = (old(self).rect.width / 2) as int;
                &&& (fl > need ==> final(self).target_text@ == old(self).target_text@.skip(
                    fl - need,
                ) && final(self).curr_text@ == without_filler(old(self).curr_text@, fl - need))
                &&& (fl < need ==> final(self).target_text@ == with_filler(
                    old(self).target_text@,
                    need - fl,
                ) && final(self).curr_text@ == with_filler(old(self).curr_text@, need - fl))
                &&& (fl == need ==> final(self).target_text@ == old(self).target_text@
                    && final(self).curr_text@ == old(self).curr_text@)
            }),
            old(self).wf() ==> final(self).wf(),
    {
        proof {
            lemma_leading_spaces(self.target_text@);
        }
        let fl = count_leading_spaces(&self.target_text);
        let need = (self.rect.width / 2) as usize;
        if fl > need {
            let d = fl - need;
            self.target_text = drop_front_clamped(&self.target_text, d);
            self.curr_text = drop_front_clamped(&self.curr_text, d);
        } else if fl < need {
            let d = need - fl;
            let filler = make_spaces(d);
            self.target_text = concat(&filler, &self.target_text);
            self.curr_text = concat(&filler, &self.curr_text);
        }
    }

    pub fn get_rect(&self) -> (r: Rect)
        ensures
            r == self.rect,
    {
        self.rect
    }

    /// Record the viewport the host laid out for this frame.
    pub fn set_rect(&mut self, rect: Rect)
        ensures
            final(self).rect == rect,
            final(self).exit == old(self).exit,
            final(self).target_text@ == old(self).target_text@,
            final(self).curr_text@ == old(self).curr_text@,
            final(self).scroller == old(self).scroller,
            final(self).timer == old(self).timer,
            same_counters(*old(self), *final(self)),
            final(self).restart_on_mistake == old(self).restart_on_mistake,
    {
        self.rect = rect;
    }

    /// Horizontal scroll offset of the scroller: how far the typed
    /// length reaches past the centered caret, clamped to the screen's
    /// coordinate range.
    pub fn scroll_offset(&self) -> (r: u16)
        ensures
            r as int == ({
                let len = min_int(self.curr_text@.len() as int, u16::MAX as int);
                let half = (self.rect.width / 2) as int;
                if len >= half {
                    len - half
                } else {
                    0
                }
            }),
    {
        let len: u16 = if self.curr_text.len() <= u16::MAX as usize {
            self.curr_text.len() as u16
        } else {
            u16::MAX
        };
        len.saturating_sub(self.rect.width / 2)
    }

    /// The render classification of every target position: what the
    /// host colors each character with.
    pub fn char_classes(&self) -> (r: Vec<CharClass>)
        ensures
            r@.len() == self.target_text@.len(),
            forall|i: int| 0 <= i < r@.len() ==> r@[i] == class_of(
                self.target_text@,
                self.curr_text@,
                i,
            ),
    {
        let mut r: Vec<CharClass> = Vec::new();
        let mut i: usize = 0;
        while i < self.target_text.len()
            invariant
                0 <= i <= self.target_text@.len(),
                r@.len() == i,
                forall|j: int| 0 <= j < i ==> r@[j] == class_of(
                    self.target_text@,
                    self.curr_text@,
                    j,
                ),
            decreases self.target_text.len() - i,
        {
            let cl = if i >= self.curr_text.len() {
                CharClass::Unvisited
            } else if self.curr_text[i] == self.target_text[i] {
                CharClass::Correct
            } else if self.target_text[i] == ' ' {
                CharClass::IncorrectSpace
            } else {
                CharClass::Incorrect
            };
            r.push(cl);
            i = i + 1;
        }
        r
    }

    /// How many typed words match the target word at the same ordinal
    /// position: the numerator of words-per-minute.
    pub fn correct_word_count(&self) -> (n: usize)
        ensures
            n == crate::words::match_count(
                crate::words::words_of(self.target_text@),
                crate::words::words_of(self.curr_text@),
            ),
    {
        crate::words::count_matching_words(&self.target_text, &self.curr_text)
    }

    /// How many words the target holds, counted as its spaces plus one.
    pub fn target_word_count(&self) -> (n: usize)
        ensures
            crate::words::space_count(self.target_text@) < usize::MAX ==> n
                == crate::words::space_count(self.target_text@) + 1,
    {
        crate::words::count_spaces(&self.target_text).saturating_add(1)
    }
}

} // verus!
