//! The input reducer: one key event in, one session mutation out.
//!
//! `handle_key_event` is a function from (session state, key event,
//! clock reading) to the next state plus an action for the host: either
//! nothing, or a request to generate a fresh passage (the host then
//! calls `App::next_test` with it). The full mapping is written down in
//! `key_event_effect`, which the reducer is proved to satisfy.

use vstd::prelude::*;
use crate::app::App;
use crate::app::del_word_keep;
use crate::app::jump_result;
use crate::app::min_int;
use crate::app::same_counters;
use crate::app::same_frame;
use crate::app::scored;
use crate::app::spaces;
use crate::app::trailing_keep;
use crate::app::with_filler;
use crate::app::without_filler;
use crate::timer::Timer;
use crate::timer::expired;
use crate::timer::started_at;
use crate::timer::stopped_at;
use crate::words::last_words_match_spec;

verus! {

/// The key of a key event, reduced to what the session reacts to.
#[derive(Clone, Copy, Debug, PartialEq, Eq, Structural)]
pub enum KeyCode {
    Char(char),
    Backspace,
    Tab,
    Esc,
    Other,
}

/// The modifier set held during the event.
#[derive(Clone, Copy, Debug, PartialEq, Eq, Structural)]
pub enum Modifiers {
    Plain,
    Shift,
    Control,
    Alt,
    OtherCombo,
}

/// Whether the event is a press; everything else is ignored.
#[derive(Clone, Copy, Debug, PartialEq, Eq, Structural)]
pub enum PressKind {
    Press,
    Other,
}

/// One keyboard event as the reducer sees it.
#[derive(Clone, Copy, Debug, PartialEq, Eq, Structural)]
pub struct KeyInput {
    pub code: KeyCode,
    pub modifiers: Modifiers,
    pub kind: PressKind,
}

/// What the host must do after a reduction step.
#[derive(Clone, Copy, Debug, PartialEq, Eq, Structural)]
pub enum UpdateAction {
    /// Nothing beyond rendering.
    Nothing,
    /// Generate a fresh passage and hand it to `App::next_test`.
    LoadNextTest,
}

/// The event asks to leave: Alt+q, Ctrl+c, or Escape.
pub open spec fn is_exit_combo(key: KeyInput) -> bool {
    (key.modifiers is Alt && key.code == KeyCode::Char('q')) || (key.modifiers is Control
        && key.code == KeyCode::Char('c')) || key.code is Esc
}

/// The key codes that delete the word being typed under Control.
pub open spec fn is_delete_code(code: KeyCode) -> bool {
    code == KeyCode::Char('h') || code == KeyCode::Char('w') || code is Backspace
}

/// `a` with the exit flag raised.
pub open spec fn with_exit(a: App) -> App {
    App { exit: true, ..a }
}

/// Nothing observable changed between `a` and `b`.
pub open spec fn same_session(a: App, b: App) -> bool {
    &&& same_frame(a, b)
    &&& same_counters(a, b)
    &&& b.curr_text@ == a.curr_text@
}

/// `b` is `a` with only the timer replaced by `t`.
pub open spec fn same_session_with_timer(a: App, b: App, t: Timer) -> bool {
    &&& b.exit == a.exit
    &&& b.target_text@ == a.target_text@
    &&& b.curr_text@ == a.curr_text@
    &&& b.rect == a.rect
    &&& b.scroller == a.scroller
    &&& b.timer == t
    &&& same_counters(a, b)
    &&& b.restart_on_mistake == a.restart_on_mistake
}

/// The caret sits inside the scroller's centered filler region.
pub open spec fn in_filler_guard(a: App) -> bool {
    a.scroller && a.curr_text@.len() <= (a.rect.width / 2) as int
}

/// The session accepts no more edits: complete, or out of time.
pub open spec fn halted(a: App, now: u64) -> bool {
    a.finished_spec() || expired(a.timer, now)
}

/// Effect of the delete-word command.
pub open spec fn delete_word_effect(a: App, b: App) -> bool {
    &&& same_frame(a, b)
    &&& same_counters(a, b)
    &&& b.curr_text@ == a.curr_text@.take(
        min_int(del_word_keep(a.target_text@, a.curr_text@.len() as int), a.curr_text@.len() as int),
    )
}

/// Effect of the mode-switch command (the filler moves in or out).
pub open spec fn toggle_effect(a: App, b: App) -> bool {
    let f = (a.rect.width / 2) as int;
    &&& b.scroller == !a.scroller
    &&& b.exit == a.exit
    &&& b.rect == a.rect
    &&& b.timer == a.timer
    &&& same_counters(a, b)
    &&& b.restart_on_mistake == a.restart_on_mistake
    &&& (!a.scroller ==> b.target_text@ == with_filler(a.target_text@, f) && b.curr_text@
        == with_filler(a.curr_text@, f))
    &&& (a.scroller ==> b.target_text@ == without_filler(a.target_text@, f) && b.curr_text@
        == without_filler(a.curr_text@, f))
}

/// Effect of a restart: counters cleared, timer reset, typed buffer
/// emptied (or reduced to the filler in scroller mode), target kept.
pub open spec fn restart_effect(a: App, b: App) -> bool {
    &&& b.correct_chars == 0
    &&& b.incorrect_chars == 0
    &&& b.timer == (Timer { start_ms: None, end_ms: None, ..a.timer })
    &&& b.exit == a.exit
    &&& b.target_text@ == a.target_text@
    &&& b.rect == a.rect
    &&& b.scroller == a.scroller
    &&& b.restart_on_mistake == a.restart_on_mistake
    &&& (!a.scroller ==> b.curr_text@ == Seq::<char>::empty())
    &&& (a.scroller ==> b.curr_text@ == spaces(
        min_int((a.rect.width / 2) as int, a.target_text@.len() as int),
    ))
}

/// Effect of the skip-to-next-word command.
pub open spec fn jump_effect(a: App, b: App) -> bool {
    &&& same_frame(a, b)
    &&& same_counters(a, b)
    &&& b.curr_text@ == jump_result(a.target_text@, a.curr_text@)
}

/// Effect of backspace: guarded like delete-word; a trailing run of
/// spaces goes as one edit, otherwise one character.
pub open spec fn backspace_effect(a: App, b: App, now: u64) -> bool {
    if in_filler_guard(a) || halted(a, now) {
        same_session(a, b)
    } else {
        &&& same_frame(a, b)
        &&& same_counters(a, b)
        &&& (if a.curr_text@.len() > 0 && a.curr_text@.last() == ' ' {
            b.curr_text@ == a.curr_text@.take(trailing_keep(a.curr_text@))
        } else if a.curr_text@.len() > 0 {
            b.curr_text@ == a.curr_text@.take(a.curr_text@.len() - 1)
        } else {
            b.curr_text@ == a.curr_text@
        })
    }
}

/// The typed buffer after appending `c`, for the completion test.
pub open spec fn finished_after_push(a: App, c: char) -> bool {
    let c2 = a.curr_text@.push(c);
    c2.len() == a.target_text@.len() && last_words_match_spec(a.target_text@, c2)
}

/// Effect of a printable character: the timer starts on the first
/// keystroke; nothing else happens when the session is halted or the
/// character cannot land; a scored mistake restarts the test when so
/// configured; the keystroke that completes the passage stops the
/// timer.
pub open spec fn char_input_effect(a: App, b: App, c: char, now: u64) -> bool {
    let t1 = started_at(a.timer, now);
    if a.finished_spec() || expired(t1, now) {
        same_session_with_timer(a, b, t1)
    } else if !a.can_type() {
        same_session_with_timer(a, b, t1)
    } else {
        let correct = c == a.target_text@[a.curr_text@.len() as int];
        if !correct && a.restart_on_mistake {
            restart_effect(a, b)
        } else {
            &&& b.exit == a.exit
            &&& b.target_text@ == a.target_text@
            &&& b.rect == a.rect
            &&& b.scroller == a.scroller
            &&& b.restart_on_mistake == a.restart_on_mistake
            &&& b.curr_text@ == a.curr_text@.push(c)
            &&& scored(a, b, correct)
            &&& b.timer == (if finished_after_push(a, c) {
                stopped_at(t1, now)
            } else {
                t1
            })
        }
    }
}

/// The whole reducer, as a relation between the state before (`a`), the
/// state after (`b`), the event, the clock reading, and the action
/// returned to the host.
pub open spec fn key_event_effect(a: App, b: App, key: KeyInput, now: u64, r: UpdateAction) -> bool {
    if !(key.kind is Press) {
        same_session(a, b) && r is Nothing
    } else {
        let a1 = if is_exit_combo(key) {
            with_exit(a)
        } else {
            a
        };
        if !(key.modifiers is Plain) && !(key.modifiers is Shift) {
            if key.modifiers is Alt {
                if key.code == KeyCode::Char('s') {
                    toggle_effect(a1, b) && r is Nothing
                } else if key.code == KeyCode::Char('r') {
                    restart_effect(a1, b) && r is Nothing
                } else if key.code == KeyCode::Char('n') {
                    same_session(a1, b) && r is LoadNextTest
                } else {
                    same_session(a1, b) && r is Nothing
                }
            } else if key.modifiers is Control && is_delete_code(key.code) {
                if in_filler_guard(a1) || halted(a1, now) {
                    same_session(a1, b) && r is Nothing
                } else {
                    delete_word_effect(a1, b) && r is Nothing
                }
            } else {
                same_session(a1, b) && r is Nothing
            }
        } else {
            match key.code {
                KeyCode::Tab => same_session(a1, b) && r is LoadNextTest,
                KeyCode::Char(c) => {
                    if c == ' ' {
                        jump_effect(a1, b) && r is Nothing
                    } else {
                        char_input_effect(a1, b, c, now) && r is Nothing
                    }
                },
                KeyCode::Backspace => backspace_effect(a1, b, now) && r is Nothing,
                _ => same_session(a1, b) && r is Nothing,
            }
        }
    }
}

/// Law: switching Wrapped to Scroller and back at a stable viewport
/// width restores the typed and target buffers to their pre-toggle
/// values: leaving the scroller strips exactly the filler that entering
/// it added, and the mode flag, counters and timer come back unchanged.
pub proof fn lemma_mode_toggle_roundtrip(a: App, b: App, d: App)
    requires
        !a.scroller,
        toggle_effect(a, b),
        toggle_effect(b, d),
    ensures
        d.scroller == a.scroller,
        d.target_text@ == a.target_text@,
        d.curr_text@ == a.curr_text@,
        same_counters(a, d),
        d.timer == a.timer,
        d.exit == a.exit,
{
    let f = (a.rect.width / 2) as int;
    assert(b.target_text@ == spaces(f) + a.target_text@);
    assert(without_filler(spaces(f) + a.target_text@, f) =~= a.target_text@);
    assert(without_filler(spaces(f) + a.curr_text@, f) =~= a.curr_text@);
}

impl App {
    /// Raise the exit flag on an exit combination.
    fn handle_exit(&mut self, key: &KeyInput)
        ensures
            is_exit_combo(*key) ==> *final(self) == with_exit(*old(self)),
            !is_exit_combo(*key) ==> *final(self) == *old(self),
    {
        if (matches!(key.modifiers, Modifiers::Alt) && matches!(key.code, KeyCode::Char('q')))
            || (matches!(key.modifiers, Modifiers::Control) && matches!(
            key.code,
            KeyCode::Char('c'),
        )) || matches!(key.code, KeyCode::Esc) {
            self.exit = true;
        }
    }

    /// The Alt commands: mode switch, restart, next passage.
    fn handle_mod_alt(&mut self, key: &KeyInput) -> (r: UpdateAction)
        ensures
            key.code == KeyCode::Char('s') ==> toggle_effect(*old(self), *final(self)) && r
                is Nothing,
            key.code == KeyCode::Char('r') ==> restart_effect(*old(self), *final(self)) && r
                is Nothing,
            key.code == KeyCode::Char('n') ==> same_session(*old(self), *final(self)) && r
                is LoadNextTest,
            !(key.code == KeyCode::Char('s')) && !(key.code == KeyCode::Char('r')) && !(key.code
                == KeyCode::Char('n')) ==> same_session(*old(self), *final(self)) && r is Nothing,
    {
        match key.code {
            KeyCode::Char(c) => {
                if c == 's' {
                    self.toggle_mode();
                    UpdateAction::Nothing
                } else if c == 'r' {
                    self.restart_test();
                    UpdateAction::Nothing
                } else if c == 'n' {
                    UpdateAction::LoadNextTest
                } else {
                    UpdateAction::Nothing
                }
            },
            _ => UpdateAction::Nothing,
        }
    }

    /// The Control commands: delete the word being typed, unless the
    /// caret sits in the scroller filler or the session is halted.
    fn handle_mod_ctrl(&mut self, key: &KeyInput, now_ms: u64)
        ensures
            is_delete_code(key.code) && !(in_filler_guard(*old(self)) || halted(
                *old(self),
                now_ms,
            )) ==> delete_word_effect(*old(self), *final(self)),
            !(is_delete_code(key.code) && !(in_filler_guard(*old(self)) || halted(
                *old(self),
                now_ms,
            ))) ==> same_session(*old(self), *final(self)),
    {
        let is_del = match key.code {
            KeyCode::Char(c) => c == 'h' || c == 'w',
            KeyCode::Backspace => true,
            _ => false,
        };
        if is_del {
            if self.is_in_scroller_mode() && self.curr_text.len() <= (self.get_rect().width / 2)
                as usize {
                return ;
            }
            if self.is_finished_typing() || self.timer.is_out_of_time(now_ms) {
                return ;
            }
            self.del_last_word();
        }
    }

    /// A printable character: start the timer on the first keystroke,
    /// land and score the character, restart on a configured mistake,
    /// stop the timer on completion.
    fn handle_char_input(&mut self, c: char, now_ms: u64)
        ensures
            char_input_effect(*old(self), *final(self), c, now_ms),
    {
        self.timer.start(now_ms);
        if self.is_finished_typing() || self.timer.is_out_of_time(now_ms) {
            return ;
        }
        if self.curr_text.len() >= self.target_text.len() {
            return ;
        }
        let at = self.curr_text.len();
        if self.target_text[at] == ' ' {
            return ;
        }
        let correct = c == self.target_text[at];
        self.push_char(c);
        if !correct && self.restart_on_mistake {
            self.restart_test();
            return ;
        }
        if self.is_finished_typing() && !self.timer.is_stopped() {
            self.timer.stop(now_ms);
        }
    }

    /// Backspace: delete one character, or a whole trailing run of
    /// spaces, under the same guards as delete-word.
    fn handle_backspace(&mut self, now_ms: u64)
        ensures
            backspace_effect(*old(self), *final(self), now_ms),
    {
        if self.is_in_scroller_mode() && self.curr_text.len() <= (self.get_rect().width / 2)
            as usize {
            return ;
        }
        if self.is_finished_typing() || self.timer.is_out_of_time(now_ms) {
            return ;
        }
        self.backspace();
    }

    /// One reduction step: apply `key` at clock reading `now_ms` and say
    /// what the host must do next.
    pub fn handle_key_event(&mut self, key: KeyInput, now_ms: u64) -> (r: UpdateAction)
        ensures
            key_event_effect(*old(self), *final(self), key, now_ms, r),
    {
        if !matches!(key.kind, PressKind::Press) {
            return UpdateAction::Nothing;
        }
        self.handle_exit(&key);
        if !matches!(key.modifiers, Modifiers::Plain) && !matches!(key.modifiers, Modifiers::Shift) {
            let r = match key.modifiers {
                Modifiers::Alt => self.handle_mod_alt(&key),
                Modifiers::Control => {
                    self.handle_mod_ctrl(&key, now_ms);
                    UpdateAction::Nothing
                },
                _ => UpdateAction::Nothing,
            };
            return r;
        }
        match key.code {
            KeyCode::Tab => UpdateAction::LoadNextTest,
            KeyCode::Char(c) => {
                if c == ' ' {
                    self.jump_to_next_word();
                } else {
                    self.handle_char_input(c, now_ms);
                }
                UpdateAction::Nothing
            },
            KeyCode::Backspace => {
                self.handle_backspace(now_ms);
                UpdateAction::Nothing
            },
            _ => UpdateAction::Nothing,
        }
    }
}

} // verus!
