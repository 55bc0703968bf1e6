use alloy::keymap::{KeyCode, KeyEvent, KeyModifiers};
use alloy::textarea::{CursorMove, TextArea};

fn area(lines: &[&str]) -> TextArea {
    TextArea::new(lines.iter().map(|l| l.to_string()).collect())
}

fn press(t: &mut TextArea, code: KeyCode) {
    t.input(KeyEvent { code, modifiers: KeyModifiers::none() });
}

fn shift(t: &mut TextArea, code: KeyCode) {
    t.input(KeyEvent { code, modifiers: KeyModifiers::shift() });
}

#[test]
fn without_lines_there_is_an_empty_one() {
    let t = TextArea::new(Vec::new());
    assert_eq!(t.lines(), vec![""]);
    assert_eq!(t.cursor(), (0, 0));
}

#[test]
fn jumps_stay_in_the_text() {
    let mut t = area(&["one", "", "three"]);
    t.move_cursor(CursorMove::Jump(2, 9));
    assert_eq!(t.cursor(), (2, 5));
    t.move_cursor(CursorMove::Jump(9, 1));
    assert_eq!(t.cursor(), (2, 1));
    t.move_cursor(CursorMove::Jump(1, 3));
    assert_eq!(t.cursor(), (1, 0));
}

#[test]
fn jumps_reach_far_columns_and_lines() {
    let wide = "x".repeat(70_000);
    let mut t = area(&["a", &wide, "b"]);
    t.jump_to(1, 66_000);
    assert_eq!(t.cursor(), (1, 66_000));
    t.jump_to(1, 80_000);
    assert_eq!(t.cursor(), (1, 70_000));
    t.jump_to(90_000, 90_000);
    assert_eq!(t.cursor(), (2, 1));
    t.jump_to(0, 0);
    assert_eq!(t.cursor(), (0, 0));
}

#[test]
fn motions_at_the_ends() {
    let mut t = area(&["ab", "c"]);
    t.move_cursor(CursorMove::Back);
    t.move_cursor(CursorMove::Up);
    assert_eq!(t.cursor(), (0, 0));
    t.move_cursor(CursorMove::End);
    t.move_cursor(CursorMove::Forward);
    assert_eq!(t.cursor(), (1, 0));
    t.move_cursor(CursorMove::Back);
    assert_eq!(t.cursor(), (0, 2));
    t.move_cursor(CursorMove::Down);
    assert_eq!(t.cursor(), (1, 1));
    t.move_cursor(CursorMove::Down);
    t.move_cursor(CursorMove::Forward);
    assert_eq!(t.cursor(), (1, 1));
    t.move_cursor(CursorMove::Top);
    assert_eq!(t.cursor(), (0, 1));
    t.move_cursor(CursorMove::Bottom);
    assert_eq!(t.cursor(), (1, 1));
    t.move_cursor(CursorMove::Head);
    assert_eq!(t.cursor(), (1, 0));
}

#[test]
fn keys_edit_the_text() {
    let mut t = area(&["ac"]);
    press(&mut t, KeyCode::Right);
    press(&mut t, KeyCode::Char('b'));
    assert_eq!(t.lines(), vec!["abc"]);
    assert_eq!(t.cursor(), (0, 2));
    press(&mut t, KeyCode::Enter);
    assert_eq!(t.lines(), vec!["ab", "c"]);
    assert_eq!(t.cursor(), (1, 0));
    press(&mut t, KeyCode::Backspace);
    assert_eq!(t.lines(), vec!["abc"]);
    assert_eq!(t.cursor(), (0, 2));
    press(&mut t, KeyCode::Delete);
    assert_eq!(t.lines(), vec!["ab"]);
    press(&mut t, KeyCode::Delete);
    press(&mut t, KeyCode::Null);
    assert_eq!(t.lines(), vec!["ab"]);
}

#[test]
fn backspace_takes_back_what_was_typed() {
    for at in 0..4 {
        let mut t = area(&["äbc", "d"]);
        t.move_cursor(CursorMove::Jump(0, at));
        press(&mut t, KeyCode::Char('é'));
        press(&mut t, KeyCode::Backspace);
        assert_eq!(t.lines(), vec!["äbc", "d"]);
        assert_eq!(t.cursor(), (0, at as usize));
        press(&mut t, KeyCode::Enter);
        press(&mut t, KeyCode::Backspace);
        assert_eq!(t.lines(), vec!["äbc", "d"]);
        assert_eq!(t.cursor(), (0, at as usize));
    }
}

#[test]
fn a_selection_is_replaced_or_deleted() {
    let mut t = area(&["hello", "world"]);
    shift(&mut t, KeyCode::Down);
    shift(&mut t, KeyCode::Right);
    assert_eq!(t.cursor(), (1, 1));
    press(&mut t, KeyCode::Char('x'));
    assert_eq!(t.lines(), vec!["xorld"]);
    assert_eq!(t.cursor(), (0, 1));

    let mut t = area(&["hello"]);
    t.move_cursor(CursorMove::End);
    shift(&mut t, KeyCode::Left);
    shift(&mut t, KeyCode::Left);
    // The selection goes on with a motion.
    t.move_cursor(CursorMove::Back);
    t.delete_char();
    assert_eq!(t.lines(), vec!["he"]);

    let mut t = area(&["hello"]);
    shift(&mut t, KeyCode::Right);
    t.delete_next_char();
    assert_eq!(t.lines(), vec!["ello"]);
    t.delete_next_char();
    assert_eq!(t.lines(), vec!["llo"]);

    let mut t = area(&["hello"]);
    shift(&mut t, KeyCode::Right);
    press(&mut t, KeyCode::Enter);
    assert_eq!(t.lines(), vec!["", "ello"]);
    assert_eq!(t.cursor(), (1, 0));
}

#[test]
fn an_empty_selection_deletes_one_character() {
    let mut t = area(&["abc"]);
    t.move_cursor(CursorMove::Forward);
    shift(&mut t, KeyCode::Right);
    shift(&mut t, KeyCode::Left);
    t.delete_char();
    assert_eq!(t.lines(), vec!["bc"]);
}

#[test]
fn search_patterns_are_checked() {
    let mut t = area(&["abc"]);
    assert!(t.set_search_pattern("b+"));
    assert!(!t.set_search_pattern("("));
    assert_eq!(t.inner.search_pattern().unwrap().as_str(), "b+");
    assert!(t.set_search_pattern(""));
    assert!(t.inner.search_pattern().is_none());
}

#[test]
fn word_motions_stop_at_the_starts_of_words() {
    let mut t = area(&["ab  c(d) ", "", "e f"]);
    let mut stops = Vec::new();
    for _ in 0..9 {
        t.move_cursor(CursorMove::WordForward);
        stops.push(t.cursor());
    }
    assert_eq!(
        stops,
        vec![(0, 4), (0, 5), (0, 6), (0, 7), (1, 0), (2, 0), (2, 2), (2, 3), (2, 3)]
    );

    let mut stops = Vec::new();
    for _ in 0..11 {
        t.move_cursor(CursorMove::WordBack);
        stops.push(t.cursor());
    }
    assert_eq!(
        stops,
        vec![
            (2, 2), (2, 0), (1, 0), (0, 9), (0, 7), (0, 6), (0, 5), (0, 4), (0, 0), (0, 0),
            (0, 0),
        ]
    );
}

#[test]
fn tabs_go_to_the_next_tab_stop() {
    let mut t = area(&["abc"]);
    press(&mut t, KeyCode::Tab);
    assert_eq!(t.lines(), vec!["    abc"]);
    press(&mut t, KeyCode::Right);
    press(&mut t, KeyCode::Tab);
    assert_eq!(t.lines(), vec!["    a   bc"]);
    assert_eq!(t.cursor(), (0, 8));

    t.set_tab_width(3);
    press(&mut t, KeyCode::Tab);
    assert_eq!(t.lines(), vec!["    a    bc"]);
    t.set_tab_width(0);
    press(&mut t, KeyCode::Tab);
    assert_eq!(t.lines(), vec!["    a    \tbc"]);

    let mut t = area(&["hello"]);
    t.set_tab_width(2);
    t.move_cursor(CursorMove::End);
    shift(&mut t, KeyCode::Left);
    press(&mut t, KeyCode::Tab);
    assert_eq!(t.lines(), vec!["hell  "]);
}
