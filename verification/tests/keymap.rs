use alloy::config::KeymapConfig;
use alloy::keymap::{
    EditorAction, KeyCode, KeyEvent, KeyModifiers, KeymapDispatcher, parse_keys,
};
use alloy::modes::EditorMode;

const NOW: u64 = 10;

fn key(code: KeyCode) -> KeyEvent {
    KeyEvent { code, modifiers: KeyModifiers::none() }
}

fn key_mod(code: KeyCode, modifiers: KeyModifiers) -> KeyEvent {
    KeyEvent { code, modifiers }
}

fn dispatcher() -> KeymapDispatcher {
    KeymapDispatcher::new(500)
}

// Normal-mode single-key

#[test]
fn normal_i_enters_insert() {
    let mut d = dispatcher();

    assert!(matches!(
        d.dispatch(key(KeyCode::Char('i')), &EditorMode::Normal, NOW),
        Some(EditorAction::EnterInsert)
    ));
}

#[test]
fn normal_colon_enters_command() {
    let mut d = dispatcher();

    assert!(matches!(
        d.dispatch(key(KeyCode::Char(':')), &EditorMode::Normal, NOW),
        Some(EditorAction::EnterCommand)
    ));
}

#[test]
fn normal_slash_enters_literal_search() {
    let mut d = dispatcher();

    assert!(matches!(
        d.dispatch(key(KeyCode::Char('/')), &EditorMode::Normal, NOW),
        Some(EditorAction::EnterLiteralSearch)
    ));
}

#[test]
fn normal_question_enters_regex_search() {
    let mut d = dispatcher();

    assert!(matches!(
        d.dispatch(key(KeyCode::Char('?')), &EditorMode::Normal, NOW),
        Some(EditorAction::EnterRegexSearch)
    ));
}

#[test]
fn normal_n_searches_next() {
    let mut d = dispatcher();

    assert!(matches!(
        d.dispatch(key(KeyCode::Char('n')), &EditorMode::Normal, NOW),
        Some(EditorAction::SearchNext)
    ));
}

#[test]
fn normal_shift_n_searches_prev() {
    let mut d = dispatcher();

    // `N` is Shift+n; crossterm delivers KeyCode::Char('N') with SHIFT modifier.
    assert!(matches!(
        d.dispatch(
            key_mod(KeyCode::Char('N'), KeyModifiers::shift()),
            &EditorMode::Normal, NOW
        ),
        Some(EditorAction::SearchPrev)
    ));
}

#[test]
fn normal_hjkl_move_cursor() {
    let mut d = dispatcher();

    assert!(matches!(
        d.dispatch(key(KeyCode::Char('h')), &EditorMode::Normal, NOW),
        Some(EditorAction::MoveLeft)
    ));
    assert!(matches!(
        d.dispatch(key(KeyCode::Char('j')), &EditorMode::Normal, NOW),
        Some(EditorAction::MoveDown)
    ));
    assert!(matches!(
        d.dispatch(key(KeyCode::Char('k')), &EditorMode::Normal, NOW),
        Some(EditorAction::MoveUp)
    ));
    assert!(matches!(
        d.dispatch(key(KeyCode::Char('l')), &EditorMode::Normal, NOW),
        Some(EditorAction::MoveRight)
    ));
}

#[test]
fn normal_arrow_keys_move_cursor() {
    let mut d = dispatcher();

    assert!(matches!(
        d.dispatch(key(KeyCode::Left), &EditorMode::Normal, NOW),
        Some(EditorAction::MoveLeft)
    ));
    assert!(matches!(
        d.dispatch(key(KeyCode::Right), &EditorMode::Normal, NOW),
        Some(EditorAction::MoveRight)
    ));
    assert!(matches!(
        d.dispatch(key(KeyCode::Up), &EditorMode::Normal, NOW),
        Some(EditorAction::MoveUp)
    ));
    assert!(matches!(
        d.dispatch(key(KeyCode::Down), &EditorMode::Normal, NOW),
        Some(EditorAction::MoveDown)
    ));
}

#[test]
fn normal_g_alone_is_buffered() {
    let mut d = dispatcher();
    // Single `g` is a prefix for `g g` — should be buffered, not dispatched.
    let action = d.dispatch(key(KeyCode::Char('g')), &EditorMode::Normal, NOW);

    assert!(action.is_none(), "single 'g' should be buffered");
    assert_eq!(d.pending.len(), 1);
}

#[test]
fn normal_gg_moves_to_doc_start() {
    let mut d = dispatcher();

    assert!(
        d.dispatch(key(KeyCode::Char('g')), &EditorMode::Normal, NOW)
            .is_none()
    );

    // Second half of the sequence `g g`
    let action = d.dispatch(key(KeyCode::Char('g')), &EditorMode::Normal, NOW);

    assert!(
        matches!(action, Some(EditorAction::MoveDocStart)),
        "g g should produce MoveDocStart"
    );
    assert!(d.pending.is_empty());
}

#[test]
fn normal_ge_moves_to_doc_end() {
    let mut d = dispatcher();

    assert!(
        d.dispatch(key(KeyCode::Char('g')), &EditorMode::Normal, NOW)
            .is_none()
    );

    // Second half of the sequence `g e`
    let action = d.dispatch(
        key_mod(KeyCode::Char('e'), KeyModifiers::shift()),
        &EditorMode::Normal, NOW
    );

    assert!(
        matches!(action, Some(EditorAction::MoveDocEnd)),
        "g e should produce MoveDocEnd"
    );
    assert!(d.pending.is_empty());
}

// Preview control tests

#[test]
fn ctrl_f_scrolls_preview_down() {
    let mut d = dispatcher();

    assert!(matches!(
        d.dispatch(
            key_mod(KeyCode::Char('f'), KeyModifiers::control()),
            &EditorMode::Normal, NOW
        ),
        Some(EditorAction::PreviewScrollDown)
    ));
}

#[test]
fn ctrl_b_scrolls_preview_down() {
    let mut d = dispatcher();

    assert!(matches!(
        d.dispatch(
            key_mod(KeyCode::Char('b'), KeyModifiers::control()),
            &EditorMode::Normal, NOW
        ),
        Some(EditorAction::PreviewScrollUp)
    ));
}

#[test]
fn t_alone_is_buffered() {
    let mut d = dispatcher();
    let action = d.dispatch(key(KeyCode::Char('t')), &EditorMode::Normal, NOW);

    assert!(
        action.is_none(),
        "'t' alone should be buffered (prefix of `t p`"
    );
}

#[test]
fn tp_toggles_preview() {
    let mut d = dispatcher();

    assert!(
        d.dispatch(key(KeyCode::Char('t')), &EditorMode::Normal, NOW)
            .is_none()
    );
    assert!(matches!(
        d.dispatch(key(KeyCode::Char('p')), &EditorMode::Normal, NOW),
        Some(EditorAction::TogglePreview)
    ));
}

#[test]
fn normal_ctrl_s_saves() {
    let mut d = dispatcher();

    assert!(matches!(
        d.dispatch(
            key_mod(KeyCode::Char('s'), KeyModifiers::control()),
            &EditorMode::Normal, NOW
        ),
        Some(EditorAction::Save)
    ));
}

// Insert mode

#[test]
fn insert_regular_key_becomes_text_input() {
    let mut d = dispatcher();

    assert!(matches!(
        d.dispatch(key(KeyCode::Char('a')), &EditorMode::Insert, NOW),
        Some(EditorAction::TextInput(_))
    ));
}

#[test]
fn insert_esc_exits_insert() {
    let mut d = dispatcher();

    assert!(matches!(
        d.dispatch(key(KeyCode::Esc), &EditorMode::Insert, NOW),
        Some(EditorAction::ExitInsert)
    ));
}

#[test]
fn insert_does_not_buffer_keys() {
    // In Insert mode, `g` should immediately become TextInput, not be buffered.
    let mut d = dispatcher();

    assert!(matches!(
        d.dispatch(key(KeyCode::Char('g')), &EditorMode::Insert, NOW),
        Some(EditorAction::TextInput(_))
    ));
    assert!(d.pending.is_empty());
}

// Command mode

#[test]
fn command_printable_produces_command_input() {
    let mut d = dispatcher();

    assert!(
        matches!(
            d.dispatch(key(KeyCode::Char('w')), &EditorMode::Command, NOW),
            Some(EditorAction::CommandInput('w'))
        ),
        "printable key in Command mode should be CommandInput"
    );
}

#[test]
fn command_enter_produces_execute_command() {
    let mut d = dispatcher();

    assert!(matches!(
        d.dispatch(key(KeyCode::Enter), &EditorMode::Command, NOW),
        Some(EditorAction::ExecuteCommand)
    ));
}

#[test]
fn command_backspace_produces_command_backspace() {
    let mut d = dispatcher();

    assert!(matches!(
        d.dispatch(key(KeyCode::Backspace), &EditorMode::Command, NOW),
        Some(EditorAction::CommandBackspace)
    ));
}

#[test]
fn command_esc_produces_exit_insert() {
    let mut d = dispatcher();

    assert!(matches!(
        d.dispatch(key(KeyCode::Esc), &EditorMode::Command, NOW),
        Some(EditorAction::ExitInsert)
    ));
}

#[test]
fn command_space_is_command_input() {
    let mut d = dispatcher();

    assert!(matches!(
        d.dispatch(key(KeyCode::Char(' ')), &EditorMode::Command, NOW),
        Some(EditorAction::CommandInput(' '))
    ));
}

// Search

#[test]
fn search_printable_produces_search_input() {
    let mut d = dispatcher();

    assert!(matches!(
        d.dispatch(key(KeyCode::Char('a')), &EditorMode::Search, NOW),
        Some(EditorAction::SearchInput('a'))
    ));
}

#[test]
fn search_backspace_produces_search_backspace() {
    let mut d = dispatcher();

    assert!(matches!(
        d.dispatch(key(KeyCode::Backspace), &EditorMode::Search, NOW),
        Some(EditorAction::SearchBackspace)
    ));
}

#[test]
fn search_enter_commits() {
    let mut d = dispatcher();

    assert!(matches!(
        d.dispatch(key(KeyCode::Enter), &EditorMode::Search, NOW),
        Some(EditorAction::CommitSearch)
    ));
}

#[test]
fn search_esc_cancels() {
    let mut d = dispatcher();

    assert!(matches!(
        d.dispatch(key(KeyCode::Esc), &EditorMode::Search, NOW),
        Some(EditorAction::CancelSearch)
    ));
}

#[test]
fn search_right_navigates_next() {
    let mut d = dispatcher();

    assert!(matches!(
        d.dispatch(key(KeyCode::Right), &EditorMode::Search, NOW),
        Some(EditorAction::SearchNext)
    ));
}

#[test]
fn search_left_navigates_prev() {
    let mut d = dispatcher();

    assert!(matches!(
        d.dispatch(key(KeyCode::Left), &EditorMode::Search, NOW),
        Some(EditorAction::SearchPrev)
    ));
}

#[test]
fn search_n_navigates_next() {
    let mut d = dispatcher();

    assert!(matches!(
        d.dispatch(key(KeyCode::Char('n')), &EditorMode::Search, NOW),
        Some(EditorAction::SearchNext)
    ));
}

#[test]
fn search_shift_n_navigates_prev() {
    let mut d = dispatcher();

    assert!(matches!(
        d.dispatch(
            key_mod(KeyCode::Char('N'), KeyModifiers::shift()),
            &EditorMode::Search, NOW
        ),
        Some(EditorAction::SearchPrev)
    ));
}

#[test]
fn search_capital_n_navigates_prev_without_shift() {
    let mut d = dispatcher();

    assert!(matches!(
        d.dispatch(key(KeyCode::Char('N')), &EditorMode::Search, NOW),
        Some(EditorAction::SearchPrev)
    ));
    assert!(matches!(
        d.dispatch(
            key_mod(KeyCode::Char('N'), KeyModifiers::control()),
            &EditorMode::Search, NOW
        ),
        Some(EditorAction::SearchInput('N'))
    ));
}

// Overrides

#[test]
fn key_tokens_are_parsed() {
    assert_eq!(
        parse_keys("g  g"),
        Some(vec![key(KeyCode::Char('g')), key(KeyCode::Char('g'))])
    );
    assert_eq!(
        parse_keys("Ctrl+x Esc"),
        Some(vec![
            key_mod(KeyCode::Char('x'), KeyModifiers::control()),
            key(KeyCode::Esc)
        ])
    );
    for (name, code) in [
        ("Enter", KeyCode::Enter),
        ("Tab", KeyCode::Tab),
        ("Space", KeyCode::Char(' ')),
        ("Backspace", KeyCode::Backspace),
        ("Delete", KeyCode::Delete),
        ("Left", KeyCode::Left),
        ("Right", KeyCode::Right),
        ("Up", KeyCode::Up),
        ("Down", KeyCode::Down),
    ] {
        assert_eq!(parse_keys(name), Some(vec![key(code)]));
    }
    assert_eq!(parse_keys("g nosuchkey"), None);
    assert_eq!(parse_keys(""), Some(Vec::new()));
}

#[test]
fn overrides_replace_the_built_in_bindings() {
    let config = KeymapConfig {
        save: Some("w w".to_string()),
        enter_insert: Some("a".to_string()),
        quit: Some("nosuchkey".to_string()),
        exit_insert: Some("Ctrl+c".to_string()),
        ..Default::default()
    };
    let mut d = KeymapDispatcher::with_overrides(500, &config);
    let normal = EditorMode::Normal;

    assert!(d.dispatch(key(KeyCode::Char('w')), &normal, NOW).is_none());
    assert_eq!(d.dispatch(key(KeyCode::Char('w')), &normal, NOW), Some(EditorAction::Save));
    assert_eq!(
        d.dispatch(key_mod(KeyCode::Char('s'), KeyModifiers::control()), &normal, NOW),
        Some(EditorAction::Unbound)
    );
    assert_eq!(
        d.dispatch(key(KeyCode::Char('a')), &normal, NOW),
        Some(EditorAction::EnterInsert)
    );
    assert_eq!(d.dispatch(key(KeyCode::Char('i')), &normal, NOW), Some(EditorAction::Unbound));
    assert_eq!(
        d.dispatch(key_mod(KeyCode::Char('w'), KeyModifiers::control()), &normal, NOW),
        Some(EditorAction::Quit)
    );
    assert_eq!(
        d.dispatch(
            key_mod(KeyCode::Char('c'), KeyModifiers::control()),
            &EditorMode::Insert,
            NOW
        ),
        Some(EditorAction::ExitInsert)
    );
    assert_eq!(
        d.dispatch(key(KeyCode::Esc), &EditorMode::Insert, NOW),
        Some(EditorAction::TextInput(key(KeyCode::Esc)))
    );
}

// Timeout

#[test]
fn sequence_timeout_flushes_pending() {
    // Create dispatcher with 0ms timeout timer so it expires immediately
    let mut d = KeymapDispatcher::new(0);

    // Buffer a 'g'.
    assert!(
        d.dispatch(key(KeyCode::Char('g')), &EditorMode::Normal, NOW)
            .is_none()
    );
    assert_eq!(d.pending.len(), 1);

    // tick() should now flush the pending key.
    let flushed = d.tick(NOW + 5);

    assert!(matches!(flushed, Some(EditorAction::Unbound)));
    assert!(d.pending.is_empty());
}

#[test]
fn pending_keys_wait_for_the_timeout() {
    let mut d = dispatcher();
    assert!(d.dispatch(key(KeyCode::Char('g')), &EditorMode::Normal, 1_000).is_none());
    assert_eq!(d.last_key_at, Some(1_000));
    assert!(d.tick(1_499).is_none());
    assert_eq!(d.pending.len(), 1);
    assert!(matches!(d.tick(1_500), Some(EditorAction::Unbound)));
    assert!(d.pending.is_empty());
    assert!(d.tick(9_000).is_none());
}

#[test]
fn a_key_that_ends_no_sequence_is_unbound() {
    let mut d = dispatcher();
    assert!(d.dispatch(key(KeyCode::Char('g')), &EditorMode::Normal, NOW).is_none());
    assert!(matches!(
        d.dispatch(key(KeyCode::Char('x')), &EditorMode::Normal, NOW),
        Some(EditorAction::Unbound)
    ));
    assert!(d.pending.is_empty());
    assert!(matches!(
        d.dispatch(key(KeyCode::Char('g')), &EditorMode::Insert, NOW),
        Some(EditorAction::TextInput(_))
    ));
}

#[test]
fn fl_selects_links() {
    let mut d = dispatcher();
    assert!(d.dispatch(key(KeyCode::Char('f')), &EditorMode::Normal, NOW).is_none());
    assert!(matches!(
        d.dispatch(key(KeyCode::Char('l')), &EditorMode::Normal, NOW),
        Some(EditorAction::EnterLinkSelect)
    ));
}

#[test]
fn link_select_keys() {
    let mut d = dispatcher();
    let mode = EditorMode::LinkSelect;
    assert!(matches!(
        d.dispatch(key(KeyCode::Char('j')), &mode, NOW),
        Some(EditorAction::LinkSelectNext)
    ));
    assert!(matches!(
        d.dispatch(key(KeyCode::Char('k')), &mode, NOW),
        Some(EditorAction::LinkSelectPrev)
    ));
    assert!(matches!(d.dispatch(key(KeyCode::Enter), &mode, NOW), Some(EditorAction::FollowLink)));
    assert!(matches!(d.dispatch(key(KeyCode::Esc), &mode, NOW), Some(EditorAction::ExitInsert)));
}
