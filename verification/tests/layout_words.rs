use tt_rs::layout::{get_xy_wrapped, Rect};
use tt_rs::words::{count_matching_words, count_spaces, last_words_match, split_words};

fn chars(s: &str) -> Vec<char> {
    s.chars().collect()
}

fn rect(x: u16, y: u16, width: u16) -> Rect {
    Rect { x, y, width, height: 10 }
}

#[test]
fn caret_at_origin_when_nothing_is_typed() {
    let target = chars("the cat sat");
    assert_eq!(get_xy_wrapped(&chars(""), &target, rect(2, 3, 7)), (2, 3));
}

#[test]
fn caret_stays_on_the_first_line_until_it_wraps() {
    let target = chars("the cat sat");
    let r = rect(2, 3, 7);
    assert_eq!(get_xy_wrapped(&chars("t"), &target, r), (3, 3));
    assert_eq!(get_xy_wrapped(&chars("the ca"), &target, r), (8, 3));
    // the caret on the line-ending space sits one past the last column
    assert_eq!(get_xy_wrapped(&chars("the cat"), &target, r), (9, 3));
    // one further and it has wrapped to the second line
    assert_eq!(get_xy_wrapped(&chars("the cat "), &target, r), (2, 4));
    assert_eq!(get_xy_wrapped(&chars("the cat sat"), &target, r), (5, 4));
}

#[test]
fn caret_wraps_word_by_word() {
    let target = chars("aa bb cc");
    let r = rect(0, 0, 4);
    // "aa " fits the first line; "bb " the second
    assert_eq!(get_xy_wrapped(&chars("aa"), &target, r), (2, 0));
    assert_eq!(get_xy_wrapped(&chars("aa bb"), &target, r), (2, 1));
    // the boundary falls inside the final word "cc", which is never
    // wrapped: the engine advances past it, so the full-length caret
    // lands at the start of the row below it
    assert_eq!(get_xy_wrapped(&chars("aa bb cc"), &target, r), (0, 2));
}

#[test]
fn caret_column_stays_inside_the_width() {
    // a passage where no line boundary falls inside the final word
    let target = chars("the cat sat");
    let w: u16 = 7;
    let r = rect(0, 0, w);
    for n in 0..=target.len() {
        let typed: Vec<char> = target[..n].to_vec();
        let (col, _row) = get_xy_wrapped(&typed, &target, r);
        assert!(col <= w, "column {} past width {} at {}", col, w, n);
        if n < target.len() && target[n] != ' ' {
            assert!(col < w, "column {} not inside width {} at {}", col, w, n);
        }
    }
}

#[test]
fn caret_with_width_one() {
    let target = chars("a b");
    let r = rect(0, 0, 1);
    assert_eq!(get_xy_wrapped(&chars(""), &target, r), (0, 0));
    assert_eq!(get_xy_wrapped(&chars("a"), &target, r), (1, 0));
}

#[test]
fn split_words_skips_space_runs() {
    let ws = split_words(&chars("  the  cat "));
    assert_eq!(ws, vec![chars("the"), chars("cat")]);
    assert_eq!(split_words(&chars("")), Vec::<Vec<char>>::new());
    assert_eq!(split_words(&chars("   ")), Vec::<Vec<char>>::new());
    assert_eq!(split_words(&chars("one")), vec![chars("one")]);
}

#[test]
fn matching_words_are_counted_by_ordinal_position() {
    assert_eq!(count_matching_words(&chars("aa bb cc"), &chars("aa bb cc")), 3);
    assert_eq!(count_matching_words(&chars("aa bb cc"), &chars("aa xx cc")), 2);
    assert_eq!(count_matching_words(&chars("aa bb cc"), &chars("bb aa cc")), 1);
    assert_eq!(count_matching_words(&chars("aa bb"), &chars("aa bb cc dd")), 2);
    assert_eq!(count_matching_words(&chars("aa bb"), &chars("")), 0);
}

#[test]
fn last_words_match_needs_words_on_both_sides() {
    assert!(last_words_match(&chars("aa bb"), &chars("xx bb")));
    assert!(!last_words_match(&chars("aa bb"), &chars("aa bx")));
    assert!(!last_words_match(&chars("aa bb"), &chars("   ")));
    assert!(!last_words_match(&chars(""), &chars("")));
    // trailing spaces do not change the last word
    assert!(last_words_match(&chars("aa bb"), &chars("aa bb ")));
}

#[test]
fn count_spaces_counts_exactly_the_spaces() {
    assert_eq!(count_spaces(&chars("aa bb cc")), 2);
    assert_eq!(count_spaces(&chars("")), 0);
    assert_eq!(count_spaces(&chars("   ")), 3);
}

#[test]
fn whitespace_scans_use_their_sentinels() {
    let t = chars("ab cd");
    assert_eq!(tt_rs::text::get_prev_whitespace(&t, 4), 2);
    assert_eq!(tt_rs::text::get_prev_whitespace(&t, 2), 0);
    assert_eq!(tt_rs::text::get_prev_whitespace(&t, 0), 0);
    assert_eq!(tt_rs::text::get_next_whitespace(&t, 0), 2);
    assert_eq!(tt_rs::text::get_next_whitespace(&t, 2), 2);
    assert_eq!(tt_rs::text::get_next_whitespace(&t, 3), 3);
    assert_eq!(tt_rs::text::get_next_whitespace(&t, 9), 9);
}
