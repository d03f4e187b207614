use tt_rs::app::App;
use tt_rs::config::SessionConfig;
use tt_rs::update::{KeyCode, KeyInput, Modifiers, PressKind, UpdateAction};

fn chars(s: &str) -> Vec<char> {
    s.chars().collect()
}

fn config() -> SessionConfig {
    SessionConfig {
        duration_secs: 30,
        explicit_duration: true,
        word_count: 25,
        quote_mode: false,
        restart_on_mistake: false,
    }
}

fn press(code: KeyCode) -> KeyInput {
    KeyInput { code, modifiers: Modifiers::Plain, kind: PressKind::Press }
}

fn press_with(code: KeyCode, modifiers: Modifiers) -> KeyInput {
    KeyInput { code, modifiers, kind: PressKind::Press }
}

#[test]
fn typing_builds_the_buffer_and_starts_the_timer() {
    let mut app = App::new(chars("ab cd"), &config());
    assert!(!app.timer.is_started());
    let r = app.handle_key_event(press(KeyCode::Char('a')), 1000);
    assert_eq!(r, UpdateAction::Nothing);
    assert!(app.timer.is_started());
    assert_eq!(app.curr_text, chars("a"));
    app.handle_key_event(press(KeyCode::Char('b')), 1500);
    assert_eq!(app.curr_text, chars("ab"));
    // the space key skips to the next word
    app.handle_key_event(press(KeyCode::Char(' ')), 2000);
    assert_eq!(app.curr_text, chars("ab "));
}

#[test]
fn finishing_keystroke_stops_the_timer() {
    let mut app = App::new(chars("ab"), &config());
    app.handle_key_event(press(KeyCode::Char('a')), 1000);
    assert!(!app.timer.is_stopped());
    app.handle_key_event(press(KeyCode::Char('b')), 4000);
    assert!(app.is_finished_typing());
    assert!(app.timer.is_stopped());
    assert_eq!(app.timer.get_time(9999), 3000);
    // further keystrokes are ignored once finished
    app.handle_key_event(press(KeyCode::Char('x')), 5000);
    assert_eq!(app.curr_text, chars("ab"));
}

#[test]
fn keystrokes_after_expiry_are_ignored() {
    let mut app = App::new(chars("ab"), &config());
    app.handle_key_event(press(KeyCode::Char('a')), 0);
    // 30 s configured; 31 s later the session is out of time
    app.handle_key_event(press(KeyCode::Char('b')), 31_000);
    assert_eq!(app.curr_text, chars("a"));
    assert!(app.timer.is_out_of_time(31_000));
}

#[test]
fn release_events_are_ignored() {
    let mut app = App::new(chars("ab"), &config());
    let key = KeyInput {
        code: KeyCode::Char('a'),
        modifiers: Modifiers::Plain,
        kind: PressKind::Other,
    };
    let r = app.handle_key_event(key, 0);
    assert_eq!(r, UpdateAction::Nothing);
    assert_eq!(app.curr_text, chars(""));
}

#[test]
fn exit_combinations_raise_the_exit_flag() {
    let mut app = App::new(chars("ab"), &config());
    app.handle_key_event(press(KeyCode::Esc), 0);
    assert!(app.should_exit());

    let mut app2 = App::new(chars("ab"), &config());
    app2.handle_key_event(press_with(KeyCode::Char('q'), Modifiers::Alt), 0);
    assert!(app2.should_exit());

    let mut app3 = App::new(chars("ab"), &config());
    app3.handle_key_event(press_with(KeyCode::Char('c'), Modifiers::Control), 0);
    assert!(app3.should_exit());

    let mut app4 = App::new(chars("ab"), &config());
    app4.handle_key_event(press(KeyCode::Char('q')), 0);
    assert!(!app4.should_exit());
}

#[test]
fn tab_and_alt_n_request_a_new_passage() {
    let mut app = App::new(chars("ab"), &config());
    assert_eq!(app.handle_key_event(press(KeyCode::Tab), 0), UpdateAction::LoadNextTest);
    assert_eq!(
        app.handle_key_event(press_with(KeyCode::Char('n'), Modifiers::Alt), 0),
        UpdateAction::LoadNextTest
    );
    // the reducer itself leaves the session untouched; the host calls next_test
    assert_eq!(app.target_text, chars("ab"));
}

#[test]
fn alt_r_restarts_the_test() {
    let mut app = App::new(chars("ab"), &config());
    app.handle_key_event(press(KeyCode::Char('a')), 0);
    let r = app.handle_key_event(press_with(KeyCode::Char('r'), Modifiers::Alt), 10);
    assert_eq!(r, UpdateAction::Nothing);
    assert_eq!(app.curr_text, chars(""));
    assert_eq!(app.get_correct(), 0);
    assert!(!app.timer.is_started());
}

#[test]
fn alt_s_toggles_the_mode_with_filler() {
    let mut app = App::new(chars("ab cd"), &config());
    let mut r = app.rect;
    r.width = 10;
    app.set_rect(r);
    app.handle_key_event(press_with(KeyCode::Char('s'), Modifiers::Alt), 0);
    assert!(app.is_in_scroller_mode());
    assert_eq!(app.target_text, chars("     ab cd"));
    assert_eq!(app.curr_text, chars("     "));
    app.handle_key_event(press_with(KeyCode::Char('s'), Modifiers::Alt), 0);
    assert!(!app.is_in_scroller_mode());
    assert_eq!(app.target_text, chars("ab cd"));
    assert_eq!(app.curr_text, chars(""));
}

#[test]
fn ctrl_delete_word_respects_the_filler_guard() {
    let mut app = App::new(chars("ab cd"), &config());
    let mut r = app.rect;
    r.width = 10;
    app.set_rect(r);
    app.handle_key_event(press_with(KeyCode::Char('s'), Modifiers::Alt), 0);
    // caret sits at the filler edge: delete-word is ignored
    app.handle_key_event(press_with(KeyCode::Char('w'), Modifiers::Control), 0);
    assert_eq!(app.curr_text, chars("     "));
    // after typing into the passage the command works again
    app.handle_key_event(press(KeyCode::Char('a')), 0);
    assert_eq!(app.curr_text, chars("     a"));
    app.handle_key_event(press_with(KeyCode::Char('w'), Modifiers::Control), 0);
    assert_eq!(app.curr_text, chars("     "));
}

#[test]
fn ctrl_h_and_backspace_also_delete_the_word() {
    let mut app = App::new(chars("ab cd"), &config());
    app.handle_key_event(press(KeyCode::Char('a')), 0);
    app.handle_key_event(press_with(KeyCode::Char('h'), Modifiers::Control), 0);
    assert_eq!(app.curr_text, chars(""));
    app.handle_key_event(press(KeyCode::Char('a')), 0);
    app.handle_key_event(press_with(KeyCode::Backspace, Modifiers::Control), 0);
    assert_eq!(app.curr_text, chars(""));
}

#[test]
fn restart_on_mistake_rewinds_the_session() {
    let mut cfg = config();
    cfg.restart_on_mistake = true;
    let mut app = App::new(chars("ab cd"), &cfg);
    app.handle_key_event(press(KeyCode::Char('a')), 0);
    assert_eq!(app.curr_text, chars("a"));
    app.handle_key_event(press(KeyCode::Char('x')), 100);
    assert_eq!(app.curr_text, chars(""));
    assert_eq!(app.get_correct(), 0);
    assert_eq!(app.get_incorrect(), 0);
    assert!(!app.timer.is_started());
}

#[test]
fn unknown_keys_and_combos_do_nothing() {
    let mut app = App::new(chars("ab"), &config());
    app.handle_key_event(press(KeyCode::Other), 0);
    app.handle_key_event(press_with(KeyCode::Char('z'), Modifiers::OtherCombo), 0);
    app.handle_key_event(press_with(KeyCode::Char('z'), Modifiers::Alt), 0);
    assert_eq!(app.curr_text, chars(""));
    assert!(!app.should_exit());
}

// Example scenario: 120 correct words in 30 seconds score 240 words per
// minute.
#[test]
fn wpm_formula_on_a_steady_run() {
    let word = "abcd";
    let mut target = String::new();
    for i in 0..120 {
        if i > 0 {
            target.push(' ');
        }
        target.push_str(word);
    }
    let mut app = App::new(chars(&target), &config());
    let text: Vec<char> = app.target_text.clone();
    let mut now: u64 = 0;
    for &c in text.iter() {
        if c == ' ' {
            app.handle_key_event(press(KeyCode::Char(' ')), now);
        } else {
            app.handle_key_event(press(KeyCode::Char(c)), now);
        }
        now += 10;
    }
    assert!(app.is_finished_typing());
    // force the measured span to exactly 30 s for the arithmetic
    app.timer.reset();
    app.timer.start(0);
    app.timer.stop(30_000);
    let words = app.correct_word_count() as f64;
    let minutes = app.timer.get_time(0) as f64 / 60_000.0;
    let wpm = words / minutes;
    assert_eq!(words, 120.0);
    assert!((wpm - 240.0).abs() < 1e-9);
}

#[test]
fn accuracy_formula_from_the_counters() {
    let mut app = App::new(chars("abcd"), &config());
    app.push_char('a');
    app.push_char('b');
    app.push_char('x');
    app.push_char('d');
    let c = app.get_correct() as f64;
    let i = app.get_incorrect() as f64;
    let accuracy = c / (c + i) * 100.0;
    assert!((accuracy - 75.0).abs() < 1e-9);
}
