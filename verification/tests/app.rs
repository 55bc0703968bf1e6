use alloy::app::{
    AfterSave, App, Effect, NotificationLevel, PreviewMode, split_command,
};
use alloy::config::{Config, HyperlinksMode, MarkdownEngine, PreviewModeConfig};
use alloy::document::{Document, FileContent, WriteOutcome};
use alloy::image_cache::{ProtocolKind, kind_of_picker};
use alloy::image_proto::DetectedImageProtocol;
use alloy::keymap::{EditorAction, KeyCode, KeyEvent, KeyModifiers};
use alloy::links::{Link, LinkIndex, LinkTarget};
use alloy::modes::EditorMode;
use alloy::preview_worker::RenderResult;
use alloy::search::SearchKind;
use alloy::style::{Color, Line, Style, Text};
use alloy::textarea::{CursorMove, TextArea};

const NOW: u64 = 1_000;

fn result(revision: u64, text: &str) -> RenderResult {
    let mut link_index = LinkIndex::new();
    link_index.push(link(LinkTarget::External(text.to_string()), 0));
    RenderResult {
        revision,
        rendered: Text { lines: vec![Line::of(text.to_string(), Style::plain())] },
        html: text.to_string(),
        link_index,
    }
}

fn link(target: LinkTarget, source_line: usize) -> Link {
    Link { display_text: "link".to_string(), target, source_line, source_col: 7 }
}

// split_command

#[test]
fn split_w_no_arg() {
    assert_eq!(split_command("w"), ("w", None));
}

#[test]
fn split_w_with_path() {
    assert_eq!(split_command("w foo.md"), ("w", Some("foo.md")));
}

#[test]
fn split_e_with_path() {
    assert_eq!(
        split_command("e path/to/file.md"),
        ("e", Some("path/to/file.md"))
    );
}

#[test]
fn split_q_bang() {
    assert_eq!(split_command("q!"), ("q!", None));
}

#[test]
fn split_with_surrounding_whitespace() {
    assert_eq!(split_command("  w  bar.md  "), ("w", Some("bar.md")));
}

// App command execution (uses Document::new() so no disk I/O)

fn make_app() -> App {
    let (app, _request) = App::new(
        Config::default(),
        Document::new(),
        DetectedImageProtocol::Disabled,
        false,
        NOW,
    );
    app
}

// Preview mode actions

#[test]
fn initial_preview_mode_is_rendered() {
    let app = make_app();

    assert_eq!(app.preview_mode, PreviewMode::Rendered);
}

#[test]
fn toggle_preview_cycles_rendered_to_html() {
    let mut app = make_app();
    app.handle_action(EditorAction::TogglePreview, NOW);

    assert_eq!(app.preview_mode, PreviewMode::Html);
}

#[test]
fn toggle_preview_cycles_html_to_hidden() {
    let mut app = make_app();
    app.preview_mode = PreviewMode::Html;
    app.handle_action(EditorAction::TogglePreview, NOW);

    assert_eq!(app.preview_mode, PreviewMode::Hidden);
}

#[test]
fn toggle_preview_cycles_hidden_to_rendered() {
    let mut app = make_app();
    app.preview_mode = PreviewMode::Hidden;
    app.handle_action(EditorAction::TogglePreview, NOW);

    assert_eq!(app.preview_mode, PreviewMode::Rendered);
}

#[test]
fn toggle_preview_full_cycle() {
    let mut app = make_app();
    // Rendered -> Html -> Hidden -> Rendered
    app.handle_action(EditorAction::TogglePreview, NOW);
    assert_eq!(app.preview_mode, PreviewMode::Html);

    app.handle_action(EditorAction::TogglePreview, NOW);
    assert_eq!(app.preview_mode, PreviewMode::Hidden);

    app.handle_action(EditorAction::TogglePreview, NOW);
    assert_eq!(app.preview_mode, PreviewMode::Rendered);
}

// Preview scrolling

#[test]
fn initial_preview_scroll_html_is_zero() {
    let app = make_app();

    assert_eq!(app.preview_scroll_html, 0);
}

#[test]
fn preview_scroll_down_increments() {
    let mut app = make_app();
    app.handle_action(EditorAction::PreviewScrollDown, NOW);

    assert_eq!(app.preview_scroll, 5);
}

#[test]
fn preview_scroll_up_saturates_at_zero() {
    let mut app = make_app();
    app.handle_action(EditorAction::PreviewScrollUp, NOW);

    assert_eq!(app.preview_scroll, 0, "scroll should not go below 0");
}

#[test]
fn last_preview_width_defaults_to_80() {
    let app = make_app();

    assert_eq!(app.last_preview_width, 80);
}

// Independent scroll positions

#[test]
fn scroll_down_in_rendered_mode_does_not_affect_html_scroll() {
    let mut app = make_app();
    app.preview_mode = PreviewMode::Rendered;
    app.handle_action(EditorAction::PreviewScrollDown, NOW);

    assert_eq!(app.preview_scroll, 5);
    assert_eq!(
        app.preview_scroll_html, 0,
        "html scroll must be independent"
    );
}

#[test]
fn scroll_down_in_html_mode_does_not_affect_rendered_scroll() {
    let mut app = make_app();
    app.preview_mode = PreviewMode::Html;
    app.handle_action(EditorAction::PreviewScrollDown, NOW);

    assert_eq!(app.preview_scroll_html, 5);
    assert_eq!(app.preview_scroll, 0, "rendered scroll must be independent");
}

#[test]
fn scroll_up_saturates_at_zero_for_html_mode() {
    let mut app = make_app();
    app.preview_mode = PreviewMode::Html;
    app.handle_action(EditorAction::PreviewScrollUp, NOW);

    assert_eq!(app.preview_scroll_html, 0, "scroll must not go below 0");
}

// LinkSelect tests

#[test]
fn initial_link_index_is_empty() {
    let app = make_app();

    assert!(app.link_index.is_empty());
    assert_eq!(app.link_cursor, 0);
}

#[test]
fn enter_link_select_with_empty_index_shows_notification() {
    let mut app = make_app();
    // Link index is empty at startup.
    app.handle_action(EditorAction::EnterLinkSelect, NOW);

    // Mode should NOT have changed to LinkSelect.
    assert_ne!(app.mode, EditorMode::LinkSelect);
    assert!(
        app.active_notification(NOW).is_some(),
        "expected a notification about no links"
    );
}

#[test]
fn enter_link_select_with_links_changes_mode() {
    let mut app = make_app();
    // Inject a link directly into the index.
    app.link_index.push(Link {
        display_text: "Test".into(),
        target: LinkTarget::External("https://test.com".into()),
        source_line: 0,
        source_col: 0,
    });
    app.handle_action(EditorAction::EnterLinkSelect, NOW);

    assert_eq!(app.mode, EditorMode::LinkSelect);
    assert_eq!(app.link_cursor, 0);
}

#[test]
fn link_select_next_advances_cursor() {
    let mut app = make_app();
    for i in 0..3 {
        app.link_index.push(Link {
            display_text: format!("Link {i}"),
            target: LinkTarget::External(format!("https://{i}.com")),
            source_line: i,
            source_col: 0,
        });
    }
    app.handle_action(EditorAction::EnterLinkSelect, NOW);
    app.handle_action(EditorAction::LinkSelectNext, NOW);

    assert_eq!(app.link_cursor, 1);

    app.handle_action(EditorAction::LinkSelectNext, NOW);

    assert_eq!(app.link_cursor, 2);

    // Wrap around
    app.handle_action(EditorAction::LinkSelectNext, NOW);

    assert_eq!(app.link_cursor, 0);
}

#[test]
fn link_select_prev_wraps_at_zero() {
    let mut app = make_app();
    for i in 0..3 {
        app.link_index.push(Link {
            display_text: format!("Link {i}"),
            target: LinkTarget::External(format!("https://{i}.com")),
            source_line: i,
            source_col: 0,
        });
    }
    app.handle_action(EditorAction::EnterLinkSelect, NOW);
    // Cursor is 0; prev should wrap to 2.
    app.handle_action(EditorAction::LinkSelectPrev, NOW);

    assert_eq!(app.link_cursor, 2);
}

#[test]
fn follow_link_returns_to_normal_mode() {
    let mut app = make_app();
    app.link_index.push(Link {
        display_text: "Wiki".into(),
        target: LinkTarget::WikiLink("SomePage".into()),
        source_line: 0,
        source_col: 0,
    });
    app.handle_action(EditorAction::EnterLinkSelect, NOW);
    app.handle_action(EditorAction::FollowLink, NOW);

    assert_eq!(app.mode, EditorMode::Normal);
}

#[test]
fn follow_wiki_link_shows_warning() {
    let mut app = make_app();
    app.link_index.push(Link {
        display_text: "Wiki".into(),
        target: LinkTarget::WikiLink("SomePage".into()),
        source_line: 0,
        source_col: 0,
    });
    app.handle_action(EditorAction::EnterLinkSelect, NOW);
    app.handle_action(EditorAction::FollowLink, NOW);

    assert!(
        app.notifications
            .iter()
            .any(|n| n.level == NotificationLevel::Warn),
        "following a wiki link should produce a warning notification"
    );
}

#[test]
fn follow_file_path_shows_warning() {
    let mut app = make_app();
    app.link_index.push(Link {
        display_text: "Docs".into(),
        target: LinkTarget::FilePath("./notes.md".into()),
        source_line: 0,
        source_col: 0,
    });
    app.handle_action(EditorAction::EnterLinkSelect, NOW);
    app.handle_action(EditorAction::FollowLink, NOW);

    assert!(
        app.notifications
            .iter()
            .any(|n| n.level == NotificationLevel::Warn),
        "following a file path link should produce a warning notification"
    );
}

#[test]
fn current_link_display_none_when_not_in_link_select_mode() {
    let app = make_app();

    assert!(app.current_link_display().is_none());
}

#[test]
fn current_link_display_returns_url_in_link_select_mode() {
    let mut app = make_app();
    app.link_index.push(Link {
        display_text: "Example".into(),
        target: LinkTarget::External("https://example.com".into()),
        source_line: 0,
        source_col: 0,
    });
    app.handle_action(EditorAction::EnterLinkSelect, NOW);

    assert_eq!(app.current_link_display().as_deref(), Some("https://example.com"));
}

#[test]
fn link_select_counter_empty() {
    let app = make_app();

    assert_eq!(app.link_select_counter(), "0/0");
}

#[test]
fn link_select_counter_with_links() {
    let mut app = make_app();
    for _ in 0..3 {
        app.link_index.push(Link {
            display_text: "L".into(),
            target: LinkTarget::External("https://x.com".into()),
            source_line: 0,
            source_col: 0,
        });
    }

    assert_eq!(app.link_select_counter(), "1/3");
}

// doc_revision increments on edit

#[test]
fn edit_action_increments_doc_revision() {
    let mut app = make_app();

    // Seed the textarea with content so DeleteCharBackward has something to delete and is guaranteed to call send_render_request.
    app.textarea = TextArea::new(vec!["hello".to_string()]);
    app.textarea.move_cursor(CursorMove::End);

    let rev_before = app.doc_revision;

    app.handle_action(EditorAction::DeleteCharBackward, NOW);

    assert!(
        app.doc_revision > rev_before,
        "doc_revision should increase after an edit action (before={rev_before}, after={})",
        app.doc_revision
    );
}

#[test]
fn multiple_edits_keep_incrementing_doc_revision() {
    let mut app = make_app();

    app.textarea = TextArea::new(vec!["hello world".to_string()]);
    app.textarea.move_cursor(CursorMove::End);

    let rev0 = app.doc_revision;
    app.handle_action(EditorAction::DeleteCharBackward, NOW);

    let rev1 = app.doc_revision;
    app.handle_action(EditorAction::DeleteCharBackward, NOW);

    let rev2 = app.doc_revision;

    assert!(
        rev1 > rev0,
        "first edit should increment revision. (rev0={rev0}, rev1={rev1}, rev2={rev2})"
    );
    assert!(
        rev2 > rev1,
        "second edit should increment revision again. (rev0={rev0}, rev1={rev1}, rev2={rev2})"
    );
}

#[test]
fn stale_render_result_is_not_applied() {
    let mut app = make_app();
    app.doc_revision = 9999;

    // A result for revision 1 comes in late.
    app.tick(vec![result(1, "old"), result(1, "older")], NOW);
    assert!(app.preview_text.lines.is_empty());
    assert_eq!(app.preview_html, "");
    assert_eq!(app.doc_revision, 9999);

    // One for the current revision is taken over.
    app.tick(vec![result(1, "old"), result(9999, "new"), result(2, "old")], NOW);
    assert_eq!(app.preview_html, "new");
    assert_eq!(app.preview_text.lines.len(), 1);
    assert_eq!(app.link_index.len(), 1);
    assert_eq!(app.doc_revision, 9999);
}

// Command execution

#[test]
fn execute_w_with_no_path_pushes_error_notification() {
    let mut app = make_app();
    // Document has no path → save fails → notification is pushed.
    app.execute_command("w", NOW);

    assert!(
        app.notifications
            .iter()
            .any(|n| n.level == NotificationLevel::Error),
        "expected an error notification when saving with no path"
    );
    assert!(!app.should_quit);
}

#[test]
fn execute_q_with_modified_document_does_not_quit() {
    let mut app = make_app();
    app.document.modified = true;
    app.execute_command("q", NOW);

    assert!(!app.should_quit, ":q with unsaved changes must not quit");
    assert!(
        app.notifications
            .iter()
            .any(|n| n.level == NotificationLevel::Error),
        "expected an error notification"
    );
}

#[test]
fn execute_q_bang_force_quits_regardless_of_modified() {
    let mut app = make_app();
    app.document.modified = true;
    app.execute_command("q!", NOW);

    assert!(app.should_quit, ":q! must set should_quit = true");
}

#[test]
fn execute_unknown_command_pushes_error_notification() {
    let mut app = make_app();
    app.execute_command("frobnicate", NOW);

    assert!(
        app.notifications
            .iter()
            .any(|n| n.level == NotificationLevel::Error),
        "unknown command should push an error notification"
    );
}

#[test]
fn push_notification_visible_via_active_notification() {
    let mut app = make_app();

    assert!(app.active_notification(NOW).is_none());

    app.notify_info("hello".to_string(), NOW);

    assert!(app.active_notification(NOW).is_some());
    assert_eq!(app.active_notification(NOW).unwrap().message, "hello");
}

#[test]
fn enter_command_mode_clears_command_input() {
    let mut app = make_app();
    app.command_input = "leftover".to_string();
    app.handle_action(EditorAction::EnterCommand, NOW);

    assert_eq!(app.mode, EditorMode::Command);
    assert!(app.command_input.is_empty());
}

#[test]
fn command_input_appends_chars() {
    let mut app = make_app();
    app.handle_action(EditorAction::EnterCommand, NOW);
    app.handle_action(EditorAction::CommandInput('w'), NOW);
    app.handle_action(EditorAction::CommandInput('q'), NOW);

    assert_eq!(app.command_input, "wq");
}

#[test]
fn command_backspace_pops_char() {
    let mut app = make_app();
    app.handle_action(EditorAction::EnterCommand, NOW);
    app.handle_action(EditorAction::CommandInput('w'), NOW);
    app.handle_action(EditorAction::CommandInput('q'), NOW);
    app.handle_action(EditorAction::CommandBackspace, NOW);

    assert_eq!(app.command_input, "w");
}

#[test]
fn esc_in_command_mode_returns_to_normal_and_clears_input() {
    let mut app = make_app();
    app.handle_action(EditorAction::EnterCommand, NOW);
    app.handle_action(EditorAction::CommandInput('w'), NOW);
    app.handle_action(EditorAction::ExitInsert, NOW);

    assert_eq!(app.mode, EditorMode::Normal);
    assert!(app.command_input.is_empty());
}

// Search mode integration

#[test]
fn initial_search_state_is_none() {
    let app = make_app();

    assert!(app.search.is_none());
}

#[test]
fn enter_literal_search_sets_mode_and_creates_state() {
    let mut app = make_app();
    app.handle_action(EditorAction::EnterLiteralSearch, NOW);

    assert_eq!(app.mode, EditorMode::Search);
    assert!(app.search.is_some());
    assert_eq!(app.search.as_ref().unwrap().kind, SearchKind::Literal);
}

#[test]
fn enter_regex_search_sets_kind_to_regex() {
    let mut app = make_app();
    app.handle_action(EditorAction::EnterRegexSearch, NOW);

    assert_eq!(app.search.as_ref().unwrap().kind, SearchKind::Regex);
}

#[test]
fn search_input_appends_to_pattern() {
    let mut app = make_app();
    app.handle_action(EditorAction::EnterLiteralSearch, NOW);
    app.handle_action(EditorAction::SearchInput('h'), NOW);
    app.handle_action(EditorAction::SearchInput('i'), NOW);

    assert_eq!(app.search.as_ref().unwrap().pattern, "hi");
}

#[test]
fn search_backspace_removes_last_char() {
    let mut app = make_app();
    app.handle_action(EditorAction::EnterLiteralSearch, NOW);
    app.handle_action(EditorAction::SearchInput('h'), NOW);
    app.handle_action(EditorAction::SearchInput('i'), NOW);
    app.handle_action(EditorAction::SearchBackspace, NOW);

    assert_eq!(app.search.as_ref().unwrap().pattern, "h");
}

#[test]
fn commit_search_returns_to_normal_mode() {
    let mut app = make_app();
    app.handle_action(EditorAction::EnterLiteralSearch, NOW);
    app.handle_action(EditorAction::CommitSearch, NOW);

    assert_eq!(app.mode, EditorMode::Normal);
}

#[test]
fn cancel_search_returns_to_normal_and_clears_pattern() {
    let mut app = make_app();
    app.handle_action(EditorAction::EnterLiteralSearch, NOW);
    app.handle_action(EditorAction::SearchInput('x'), NOW);
    app.handle_action(EditorAction::CancelSearch, NOW);

    assert_eq!(app.mode, EditorMode::Normal);
    // Pattern cleared on cancel.
    assert!(app.search.as_ref().unwrap().pattern.is_empty());
}

#[test]
fn search_counter_str_none_when_no_search() {
    let app = make_app();

    assert!(app.search_counter_str().is_none());
}

#[test]
fn search_counter_str_returns_value_when_pattern_set() {
    let mut app = make_app();
    // Seed some content with a known pattern.
    app.textarea = TextArea::new(vec!["hello world hello".to_string()]);
    app.handle_action(EditorAction::EnterLiteralSearch, NOW);
    app.handle_action(EditorAction::SearchInput('h'), NOW);
    app.handle_action(EditorAction::SearchInput('e'), NOW);
    app.handle_action(EditorAction::SearchInput('l'), NOW);
    app.handle_action(EditorAction::SearchInput('l'), NOW);
    app.handle_action(EditorAction::SearchInput('o'), NOW);

    let counter = app.search_counter_str();

    assert!(
        counter.is_some(),
        "counter_str should be Some when pattern is non-empty"
    );
    // "hello world hello" has 2 matches for "hello"; counter should be "1/2".
    assert_eq!(counter.unwrap(), "1/2");
}

#[test]
fn search_next_navigates_to_second_match() {
    let mut app = make_app();
    app.textarea = TextArea::new(vec!["hello world hello".to_string()]);
    app.handle_action(EditorAction::EnterLiteralSearch, NOW);
    app.handle_action(EditorAction::SearchInput('h'), NOW);
    app.handle_action(EditorAction::SearchInput('e'), NOW);
    app.handle_action(EditorAction::SearchInput('l'), NOW);
    app.handle_action(EditorAction::SearchInput('l'), NOW);
    app.handle_action(EditorAction::SearchInput('o'), NOW);
    app.handle_action(EditorAction::CommitSearch, NOW);

    // Navigate to next match.
    app.handle_action(EditorAction::SearchNext, NOW);

    // Second "hello" starts at col 12.
    let (_, col) = app.textarea.cursor();

    assert_eq!(col, 12, "cursor should be on the second 'hello'");
}

#[test]
fn execute_wq_saves_and_quits() {
    let path = "/tmp/notes/test.md";
    let doc = Document::open(path, FileContent::Bytes(b"# Test".to_vec())).expect("valid file");
    let (mut app, _) =
        App::new(Config::default(), doc, DetectedImageProtocol::Disabled, false, NOW);

    match app.execute_command("wq", NOW) {
        Effect::Write { path: to, content, then } => {
            assert_eq!(to, path);
            assert_eq!(content, "# Test");
            assert_eq!(then, AfterSave::Quit);
            assert!(!app.should_quit, "nothing is written yet");
            app.finish_save(then, WriteOutcome::Written, NOW);
        }
        other => panic!("expected a write, got {other:?}"),
    }

    assert!(app.should_quit, ":wq on a file with a path should quit");
}

// sync_textarea_search

#[test]
fn enter_search_clears_previous_highlights() {
    // Verifies that entering a new search correctly resets any prior pattern.
    // We can't directly inspect the internal tui-textarea state, but we can verify no panic occurs and the pattern is empty on entry.
    let mut app = make_app();
    app.handle_action(EditorAction::EnterLiteralSearch, NOW);
    app.handle_action(EditorAction::SearchInput('x'), NOW);
    app.handle_action(EditorAction::CommitSearch, NOW);

    // Start a second search — should clear and restart.
    app.handle_action(EditorAction::EnterLiteralSearch, NOW);

    assert!(app.search.as_ref().unwrap().pattern.is_empty());
}

#[test]
fn cancel_search_clears_pattern_and_matches() {
    let mut app = make_app();
    app.textarea = TextArea::new(vec!["test content test".to_string()]);
    app.handle_action(EditorAction::EnterLiteralSearch, NOW);
    app.handle_action(EditorAction::SearchInput('t'), NOW);
    app.handle_action(EditorAction::SearchInput('e'), NOW);
    app.handle_action(EditorAction::SearchInput('s'), NOW);
    app.handle_action(EditorAction::SearchInput('t'), NOW);

    assert!(!app.search.as_ref().unwrap().matches.is_empty());

    app.handle_action(EditorAction::CancelSearch, NOW);

    assert!(app.search.as_ref().unwrap().pattern.is_empty());
    assert!(app.search.as_ref().unwrap().matches.is_empty());
}

#[test]
fn regex_metacharacters_in_literal_search_do_not_panic() {
    // Literal patterns containing regex metacharacters must be escaped.
    // e.g. "test.file" should match literal dots, not any character.
    let mut app = make_app();
    app.textarea = TextArea::new(vec!["test.file and test_file".to_string()]);
    app.handle_action(EditorAction::EnterLiteralSearch, NOW);
    for c in "test.file".chars() {
        app.handle_action(EditorAction::SearchInput(c), NOW);
    }

    // With regex::escape, "test.file" → "test\.file", matching only the literal dot.
    // Without escaping it would match both "test.file" and "test_file".
    let s = app.search.as_ref().unwrap();

    assert_eq!(
        s.matches.len(),
        1,
        "literal dot should not match underscore"
    );
}

#[test]
fn search_counter_str_none_after_cancel() {
    let mut app = make_app();
    app.textarea = TextArea::new(vec!["hello".to_string()]);
    app.handle_action(EditorAction::EnterLiteralSearch, NOW);
    app.handle_action(EditorAction::SearchInput('h'), NOW);
    app.handle_action(EditorAction::CancelSearch, NOW);

    // Pattern was cleared on cancel, so counter should be None.
    assert!(app.search_counter_str().is_none());
}

#[test]
fn search_counter_str_present_in_normal_mode_after_commit() {
    let mut app = make_app();
    app.textarea = TextArea::new(vec!["hello world hello".to_string()]);
    app.handle_action(EditorAction::EnterLiteralSearch, NOW);
    for c in "hello".chars() {
        app.handle_action(EditorAction::SearchInput(c), NOW);
    }
    app.handle_action(EditorAction::CommitSearch, NOW);

    assert_eq!(app.mode, EditorMode::Normal);
    // Counter must still be available in Normal mode after commit.
    assert!(
        app.search_counter_str().is_some(),
        "counter should persist after CommitSearch"
    );
}

// Startup

fn app_with(text: &str) -> App {
    let doc = Document::open("/home/me/notes.md", FileContent::Bytes(text.as_bytes().to_vec()))
        .expect("valid file");
    App::new(Config::default(), doc, DetectedImageProtocol::Disabled, false, NOW).0
}

fn plain(c: char) -> KeyEvent {
    KeyEvent { code: KeyCode::Char(c), modifiers: KeyModifiers::none() }
}

fn key(code: KeyCode) -> KeyEvent {
    KeyEvent { code, modifiers: KeyModifiers::none() }
}

#[test]
fn startup_requests_the_first_preview() {
    let doc = Document::open("/a/b.md", FileContent::Bytes(b"one\ntwo\n".to_vec())).unwrap();
    let (app, request) =
        App::new(Config::default(), doc, DetectedImageProtocol::Kitty, true, NOW);

    assert_eq!(request.revision, 1);
    assert_eq!(request.markdown, "one\ntwo\n");
    assert_eq!(request.col_width, 80);
    assert_eq!(app.doc_revision, 1);
    assert_eq!(app.textarea.lines(), vec!["one", "two", ""]);
    assert!(app.picker.is_some());
    assert_eq!(app.image_cache.max_entries, 20);
    assert_eq!(
        app.active_notification(NOW).unwrap().message,
        "Image rendering: Kitty protocol active"
    );
}

#[test]
fn startup_honours_the_configured_preview_mode() {
    let mut config = Config::default();
    config.ui.initial_preview_mode = PreviewModeConfig::Hidden;
    let (app, _) =
        App::new(config, Document::new(), DetectedImageProtocol::HalfBlock, false, NOW);

    assert_eq!(app.preview_mode, PreviewMode::Hidden);
    assert!(app.active_notification(NOW).is_none());
    assert!(app.picker.is_some());
}

#[test]
fn worker_settings_come_from_the_config() {
    let mut config = Config::default();
    config.markdown.extensions.wiki_links = true;
    let (app, _) =
        App::new(config, Document::new(), DetectedImageProtocol::Disabled, false, NOW);
    let ext = app.worker_extensions();

    assert!(ext.gfm);
    assert!(ext.wiki_links);
    assert!(!ext.footnotes);
    assert!(!ext.frontmatter);
    assert!(!ext.math);
    assert_eq!(ext.highlighting.theme, "base16-ocean.dark");
}

#[test]
fn theme_and_engine_come_from_the_config() {
    let extensions = |config: Config| {
        App::new(config, Document::new(), DetectedImageProtocol::Disabled, false, NOW)
            .0
            .worker_extensions()
    };
    let mut config = Config::default();
    config.theme.code_theme = "Solarized (dark)".to_string();
    config.markdown.engine = MarkdownEngine::Comrak;
    let ext = extensions(config);
    assert_eq!(ext.highlighting.theme, "Solarized (dark)");
    assert_eq!(ext.engine, MarkdownEngine::Comrak);

    let mut config = Config::default();
    config.theme.code_theme = "Solarized (dark)".to_string();
    config.highlighting.theme = "InspiredGitHub".to_string();
    assert_eq!(extensions(config).highlighting.theme, "InspiredGitHub");
}

#[test]
fn configured_keys_are_used() {
    let mut config = Config::default();
    config.keymap.enter_insert = Some("a".to_string());
    let (mut app, _) =
        App::new(config, Document::new(), DetectedImageProtocol::Disabled, false, NOW);
    app.handle_key(KeyEvent { code: KeyCode::Char('i'), modifiers: KeyModifiers::none() }, NOW);
    assert_eq!(app.mode, EditorMode::Normal);
    app.handle_key(KeyEvent { code: KeyCode::Char('a'), modifiers: KeyModifiers::none() }, NOW);
    assert_eq!(app.mode, EditorMode::Insert);
}

// An edit that changes nothing leaves the document unmodified

#[test]
fn deleting_nothing_does_not_modify() {
    let (mut app, _) =
        App::new(Config::default(), Document::new(), DetectedImageProtocol::Disabled, false, NOW);
    let left = KeyEvent { code: KeyCode::Left, modifiers: KeyModifiers::none() };
    for action in [
        EditorAction::DeleteCharBackward,
        EditorAction::DeleteCharForward,
        EditorAction::TextInput(left),
    ] {
        app.handle_action(action, NOW);
        assert_eq!(app.textarea_content(), "");
        assert!(!app.document.modified);
    }
    let a = KeyEvent { code: KeyCode::Char('a'), modifiers: KeyModifiers::none() };
    app.handle_action(EditorAction::TextInput(a), NOW);
    assert!(app.document.modified);
    app.handle_action(EditorAction::TextInput(left), NOW);
    assert!(app.document.modified);
}

// Far positions

#[test]
fn a_cancelled_search_returns_to_a_far_line() {
    let mut lines = vec!["short"; 70_000];
    lines.push("needle");
    let mut app = app_with(&lines.join("\n"));
    app.textarea.jump_to(65_536, 3);
    assert_eq!(app.textarea.cursor(), (65_536, 3));
    app.handle_action(EditorAction::EnterLiteralSearch, NOW);
    for c in "needle".chars() {
        app.handle_action(EditorAction::SearchInput(c), NOW);
    }
    assert_eq!(app.textarea.cursor(), (70_000, 0));
    app.handle_action(EditorAction::CancelSearch, NOW);
    assert_eq!(app.textarea.cursor(), (65_536, 3));
    assert_eq!(app.search_counter_str(), None);
    assert!(!app.document.modified);
}

// Text that is opened is what is edited

#[test]
fn opened_text_is_saved_unchanged() {
    for text in ["", "one", "one\n", "\n\n", "a\r\nb\n", "no end\nof line"] {
        let mut app = app_with(text);
        assert_eq!(app.textarea_content(), text);
        match app.execute_command("w", NOW) {
            Effect::Write { content, then, .. } => {
                assert_eq!(content, text);
                app.finish_save(then, WriteOutcome::Written, NOW);
            }
            other => panic!("expected a write, got {other:?}"),
        }
        assert!(!app.document.is_modified());
        assert_eq!(app.document.content(), text);
        assert_eq!(app.active_notification(NOW).unwrap().message, "Saved \"notes.md\"");
    }
}

#[test]
fn e_opens_another_file() {
    let mut app = app_with("old text");
    app.handle_action(EditorAction::EnterLiteralSearch, NOW);
    app.handle_action(EditorAction::SearchInput('o'), NOW);
    app.handle_action(EditorAction::CommitSearch, NOW);
    app.link_index.push(link(LinkTarget::WikiLink("p".to_string()), 0));

    let path = match app.execute_command("e  other/new.md ", NOW) {
        Effect::Open { path } => path,
        other => panic!("expected an open, got {other:?}"),
    };
    assert_eq!(path, "other/new.md");

    let effect = app.finish_open(&path, FileContent::Bytes(b"# New\n".to_vec()), NOW);
    match effect {
        Effect::Render(request) => {
            assert_eq!(request.markdown, "# New\n");
            assert_eq!(request.revision, 2);
        }
        other => panic!("expected a request to render, got {other:?}"),
    }
    assert_eq!(app.textarea.lines(), vec!["# New", ""]);
    assert_eq!(app.textarea.cursor(), (0, 0));
    assert!(app.search.is_none());
    assert!(app.link_index.is_empty());
    assert_eq!(app.status_filename(), "new.md");
    assert_eq!(app.active_notification(NOW).unwrap().message, "Opened \"new.md\"");
}

#[test]
fn e_reports_what_went_wrong() {
    let mut app = app_with("text");

    app.execute_command("e", NOW);
    assert_eq!(app.active_notification(NOW).unwrap().message, ":e requires a file path");
    assert_eq!(app.active_notification(NOW).unwrap().level, NotificationLevel::Error);

    app.finish_open("x.md", FileContent::Failed("gone".to_string()), NOW);
    let message = &app.active_notification(NOW).unwrap().message;
    assert!(message.starts_with("Cannot open 'x.md': "), "{message}");
    assert!(message.contains("gone"), "{message}");

    app.finish_open("y.md", FileContent::Bytes(vec![0xff, 0xfe]), NOW);
    assert!(app.active_notification(NOW).unwrap().message.starts_with("Cannot open 'y.md': "));
    assert_eq!(app.textarea_content(), "text");
    assert_eq!(app.doc_revision, 1);
}

// Saving

#[test]
fn w_with_a_path_renames_the_document() {
    let mut app = app_with("text");
    match app.execute_command("w /tmp/else.md", NOW) {
        Effect::Write { path, then, .. } => {
            assert_eq!(path, "/tmp/else.md");
            assert_eq!(then, AfterSave::Report);
        }
        other => panic!("expected a write, got {other:?}"),
    }
    assert_eq!(app.document.file_path().as_deref(), Some("/tmp/else.md"));
}

#[test]
fn failed_saves_are_reported_and_keep_the_changes() {
    let mut app = app_with("text");
    app.handle_action(EditorAction::EnterInsert, NOW);
    app.handle_key(plain('x'), NOW);
    assert_eq!(app.status_filename(), "notes.md [+]");

    let outcomes = [
        WriteOutcome::CreateFailed("denied".to_string()),
        WriteOutcome::WriteFailed("denied".to_string()),
    ];
    for outcome in outcomes {
        app.finish_save(AfterSave::Quit, outcome, NOW);
        assert!(!app.should_quit);
        assert!(app.document.is_modified());
        let message = &app.active_notification(NOW).unwrap().message;
        assert!(message.starts_with("Save failed: failed to write file: "), "{message}");
        assert!(message.ends_with(": denied"), "{message}");
    }

    app.finish_save(AfterSave::Stay, WriteOutcome::Written, NOW);
    assert!(!app.document.is_modified());
    app.handle_action(EditorAction::Quit, NOW);
    assert!(app.should_quit);
}

#[test]
fn save_returns_the_error_text() {
    let mut app = make_app();
    let text = app.save(WriteOutcome::Written).unwrap_err();
    assert!(text.starts_with("failed to write file: "), "{text}");

    let mut app = app_with("x");
    assert!(app.save(WriteOutcome::Written).is_ok());
}

#[test]
fn quitting_with_unsaved_changes_is_refused() {
    let mut app = app_with("x");
    app.document.modified = true;
    app.handle_action(EditorAction::Quit, NOW);
    assert!(!app.should_quit);
    let n = app.active_notification(NOW).unwrap();
    assert_eq!(n.message, "Unsaved changes - use `:w` to save, `:q!` to force quit");
    assert_eq!(n.level, NotificationLevel::Warn);
}

#[test]
fn a_save_without_a_path_is_reported() {
    let mut app = make_app();
    match app.handle_action(EditorAction::Save, NOW) {
        Effect::Nothing => {}
        other => panic!("expected nothing, got {other:?}"),
    }
    assert_eq!(app.active_notification(NOW).unwrap().level, NotificationLevel::Error);
}

// Keys

#[test]
fn typed_text_reaches_the_text_area() {
    let mut app = make_app();
    app.handle_key(plain('i'), NOW);
    assert_eq!(app.mode, EditorMode::Insert);
    assert_eq!(app.textarea_style.cursor.bg, Some(Color::LightCyan));
    for c in "héllo".chars() {
        match app.handle_key(plain(c), NOW) {
            Effect::Render(request) => assert_eq!(request.revision, app.doc_revision),
            other => panic!("expected a request to render, got {other:?}"),
        }
    }
    app.handle_key(key(KeyCode::Enter), NOW);
    app.handle_key(plain('!'), NOW);
    assert_eq!(app.textarea_content(), "héllo\n!");
    assert_eq!(app.cursor_position(), (2, 2));
    assert!(app.document.is_modified());
    assert_eq!(app.doc_revision, 8);

    app.handle_key(key(KeyCode::Esc), NOW);
    assert_eq!(app.mode, EditorMode::Normal);
    assert_eq!(app.textarea_style.cursor.bg, Some(Color::LightYellow));
}

#[test]
fn escape_leads_to_normal_mode_from_every_mode() {
    for enter in [
        EditorAction::EnterInsert,
        EditorAction::EnterCommand,
        EditorAction::EnterLiteralSearch,
        EditorAction::EnterLinkSelect,
        EditorAction::Unbound,
    ] {
        let mut app = app_with("x");
        app.link_index.push(link(LinkTarget::WikiLink("p".to_string()), 0));
        app.handle_action(enter, NOW);
        app.handle_key(key(KeyCode::Esc), NOW);
        assert_eq!(app.mode, EditorMode::Normal);
    }
}

#[test]
fn motions_and_deletions() {
    let mut app = app_with("one two\nthree");
    app.handle_action(EditorAction::MoveWordForward, NOW);
    assert_eq!(app.textarea.cursor(), (0, 4));
    app.handle_action(EditorAction::MoveWordBackward, NOW);
    assert_eq!(app.textarea.cursor(), (0, 0));
    app.handle_action(EditorAction::MoveDocEnd, NOW);
    assert_eq!(app.textarea.cursor().0, 1);
    app.handle_action(EditorAction::MoveLineEnd, NOW);
    assert_eq!(app.textarea.cursor(), (1, 5));
    app.handle_action(EditorAction::MoveUp, NOW);
    assert_eq!(app.textarea.cursor(), (0, 5));
    app.handle_action(EditorAction::MoveRight, NOW);
    app.handle_action(EditorAction::MoveLeft, NOW);
    app.handle_action(EditorAction::MoveDown, NOW);
    app.handle_action(EditorAction::MoveLineStart, NOW);
    assert_eq!(app.textarea.cursor(), (1, 0));
    assert!(!app.document.is_modified());
    assert_eq!(app.doc_revision, 1);

    app.handle_action(EditorAction::DeleteCharForward, NOW);
    assert_eq!(app.textarea_content(), "one two\nhree");
    app.handle_action(EditorAction::DeleteCharBackward, NOW);
    assert_eq!(app.textarea_content(), "one twohree");
    app.handle_action(EditorAction::MoveDocStart, NOW);
    assert_eq!(app.textarea.cursor().0, 0);
    assert!(app.document.is_modified());
    assert_eq!(app.doc_revision, 3);
}

#[test]
fn commands_are_typed_and_executed_by_keys() {
    let mut app = app_with("x");
    app.handle_key(plain(':'), NOW);
    for c in " q ".chars() {
        app.handle_key(plain(c), NOW);
    }
    app.handle_key(key(KeyCode::Enter), NOW);
    assert!(app.should_quit);
    assert_eq!(app.mode, EditorMode::Normal);
    assert_eq!(app.command_input, "");
}

#[test]
fn unknown_commands_are_named() {
    let mut app = make_app();
    app.execute_command("frob now", NOW);
    assert_eq!(app.active_notification(NOW).unwrap().message, "Unkown command: :frob");
}

// Search

fn highlighted(app: &App) -> Option<String> {
    app.textarea.inner.search_pattern().map(|r| r.as_str().to_string())
}

#[test]
fn literal_patterns_are_escaped_for_the_highlighting() {
    let mut app = app_with("a.b a+b");
    app.handle_action(EditorAction::EnterLiteralSearch, NOW);
    assert_eq!(highlighted(&app), None);
    for c in "a.b".chars() {
        app.handle_action(EditorAction::SearchInput(c), NOW);
    }
    assert_eq!(highlighted(&app).as_deref(), Some("(?i)a\\.b"));
    app.handle_action(EditorAction::CancelSearch, NOW);
    assert_eq!(highlighted(&app), None);
}

#[test]
fn regex_patterns_are_highlighted_as_they_are() {
    let mut config = Config::default();
    config.editor.search_case_insensitive = false;
    let (mut app, _) =
        App::new(config, Document::new(), DetectedImageProtocol::Disabled, false, NOW);
    app.handle_action(EditorAction::EnterRegexSearch, NOW);
    app.handle_action(EditorAction::SearchInput('a'), NOW);
    app.handle_action(EditorAction::SearchInput('+'), NOW);
    assert_eq!(highlighted(&app).as_deref(), Some("a+"));
    app.handle_action(EditorAction::SearchInput('('), NOW);
    assert_eq!(highlighted(&app), None, "an invalid pattern highlights nothing");
    app.handle_action(EditorAction::SearchBackspace, NOW);
    assert_eq!(highlighted(&app).as_deref(), Some("a+"));
}

#[test]
fn every_character_with_a_meaning_is_escaped() {
    let mut app = make_app();
    app.handle_action(EditorAction::EnterLiteralSearch, NOW);
    for c in "\\.+*?()|[]{}^$#&-~ aZ_'".chars() {
        app.handle_action(EditorAction::SearchInput(c), NOW);
    }
    assert_eq!(
        highlighted(&app).as_deref(),
        Some("(?i)\\\\\\.\\+\\*\\?\\(\\)\\|\\[\\]\\{\\}\\^\\$\\#\\&\\-\\~ aZ_'")
    );
}

#[test]
fn a_cancelled_search_leaves_no_trace() {
    let mut app = app_with("one\ntwo\nthree two");
    app.handle_action(EditorAction::MoveDown, NOW);
    app.handle_action(EditorAction::MoveRight, NOW);
    let before = app.textarea.cursor();
    app.handle_action(EditorAction::EnterLiteralSearch, NOW);
    for c in "three".chars() {
        app.handle_action(EditorAction::SearchInput(c), NOW);
    }
    assert_eq!(app.textarea.cursor(), (2, 0));
    app.handle_action(EditorAction::SearchBackspace, NOW);
    app.handle_action(EditorAction::SearchNext, NOW);
    app.handle_action(EditorAction::CancelSearch, NOW);
    assert_eq!(app.textarea.cursor(), before);
    assert_eq!(app.textarea_content(), "one\ntwo\nthree two");
    assert_eq!(app.mode, EditorMode::Normal);
    assert_eq!(highlighted(&app), None);
}

#[test]
fn an_emptied_pattern_returns_to_the_start() {
    let mut app = app_with("one\ntwo");
    app.handle_action(EditorAction::EnterLiteralSearch, NOW);
    app.handle_action(EditorAction::SearchInput('t'), NOW);
    assert_eq!(app.textarea.cursor(), (1, 0));
    app.handle_action(EditorAction::SearchBackspace, NOW);
    assert_eq!(app.textarea.cursor(), (0, 0));
    assert_eq!(app.search_pattern(), "");
    assert_eq!(app.search_kind(), Some(SearchKind::Literal));
}

#[test]
fn a_search_without_matches_says_so() {
    let mut app = app_with("one");
    app.handle_action(EditorAction::SearchNext, NOW);
    assert!(app.active_notification(NOW).is_none(), "nothing is searched for");
    app.handle_action(EditorAction::EnterLiteralSearch, NOW);
    app.handle_action(EditorAction::SearchNext, NOW);
    assert!(app.active_notification(NOW).is_none(), "nothing is searched for yet");
    app.handle_action(EditorAction::SearchInput('z'), NOW);
    app.handle_action(EditorAction::SearchPrev, NOW);
    assert_eq!(app.active_notification(NOW).unwrap().message, "No matches found");
}

// Links

#[test]
fn anchors_are_followed_to_their_line() {
    let mut app = app_with("0\n1\n2\n3\n4");
    app.link_index.push(link(LinkTarget::InternalAnchor("top".to_string()), 3));
    app.link_index.push(link(LinkTarget::InternalAnchor("top".to_string()), 1));
    app.handle_action(EditorAction::EnterLinkSelect, NOW);
    app.handle_action(EditorAction::LinkSelectNext, NOW);
    app.handle_action(EditorAction::FollowLink, NOW);
    assert_eq!(app.textarea.cursor(), (3, 0));
    assert_eq!(app.active_notification(NOW).unwrap().message, "Jumped to #top");
    assert_eq!(app.mode, EditorMode::Normal);
}

#[test]
fn web_addresses_are_opened_in_the_browser() {
    let mut app = make_app();
    app.link_index.push(link(LinkTarget::External("https://a.b".to_string()), 0));
    app.handle_action(EditorAction::EnterLinkSelect, NOW);
    match app.handle_action(EditorAction::FollowLink, NOW) {
        Effect::Browse { url } => assert_eq!(url, "https://a.b"),
        other => panic!("expected the browser, got {other:?}"),
    }
    assert_eq!(app.active_notification(NOW).unwrap().message, "Opening: https://a.b");
}

#[test]
fn other_targets_cannot_be_navigated_to() {
    let mut app = make_app();
    app.link_index.push(link(LinkTarget::WikiLink("Page".to_string()), 0));
    app.link_index.push(link(LinkTarget::FilePath("./n.md".to_string()), 0));
    app.handle_action(EditorAction::EnterLinkSelect, NOW);
    app.handle_action(EditorAction::FollowLink, NOW);
    assert_eq!(
        app.active_notification(NOW).unwrap().message,
        "Wiki link navigation not supported in MVP: [[Page]]"
    );
    app.link_cursor = 1;
    app.handle_action(EditorAction::FollowLink, NOW);
    assert_eq!(
        app.active_notification(NOW).unwrap().message,
        "File path navigation not supported in MVP: ./n.md"
    );
}

// Ticks

#[test]
fn notifications_expire() {
    let mut app = make_app();
    app.notify_error("error".to_string(), NOW);
    app.notify_warn("warning".to_string(), NOW);
    app.notify_info("info".to_string(), NOW);
    assert_eq!(app.active_notification(NOW + 3_999).unwrap().message, "info");
    assert_eq!(app.active_notification(NOW + 4_000).unwrap().message, "warning");
    assert_eq!(app.active_notification(NOW + 5_000).unwrap().message, "error");
    assert!(app.active_notification(NOW + 6_000).is_none());

    app.tick(Vec::new(), NOW + 4_500);
    assert_eq!(app.notifications.len(), 2);
    assert_eq!(app.active_notification(NOW + 4_500).unwrap().message, "warning");
    app.tick(Vec::new(), u64::MAX);
    assert!(app.notifications.is_empty());
}

#[test]
fn ticks_flush_sequences_that_timed_out() {
    let mut app = make_app();
    app.handle_key(plain('g'), NOW);
    assert_eq!(app.keymap.pending.len(), 1);
    app.tick(Vec::new(), NOW + 1);
    assert_eq!(app.keymap.pending.len(), 1);
    app.tick(Vec::new(), NOW + 60_000);
    assert!(app.keymap.pending.is_empty());
    assert_eq!(app.mode, EditorMode::Normal);
}

#[test]
fn an_edit_makes_pending_previews_stale() {
    let mut app = app_with("x");
    let pending = app.doc_revision;
    app.handle_action(EditorAction::DeleteCharForward, NOW);
    app.tick(vec![result(pending, "old")], NOW);
    assert_eq!(app.preview_html, "");
    let current = app.doc_revision;
    app.tick(vec![result(current, "new")], NOW);
    assert_eq!(app.preview_html, "new");
}

// Settings

#[test]
fn hyperlinks_follow_the_setting() {
    for (mode, supported, expected) in [
        (HyperlinksMode::On, false, true),
        (HyperlinksMode::Off, true, false),
        (HyperlinksMode::Auto, true, true),
        (HyperlinksMode::Auto, false, false),
    ] {
        let mut config = Config::default();
        config.terminal.hyperlinks = mode;
        let (app, _) =
            App::new(config, Document::new(), DetectedImageProtocol::Disabled, supported, NOW);
        assert_eq!(app.hyperlinks_enabled(), expected);
    }
}

#[test]
fn images_need_a_protocol_and_the_setting() {
    let (mut app, _) =
        App::new(Config::default(), Document::new(), DetectedImageProtocol::HalfBlock, false, NOW);
    assert!(app.images_enabled());
    app.config.images.enabled = false;
    assert!(!app.images_enabled());
    assert!(!make_app().images_enabled());
}

#[test]
fn images_are_made_ready_for_the_detected_protocol() {
    let kinds = [
        (DetectedImageProtocol::Kitty, Some(ProtocolKind::Kitty)),
        (DetectedImageProtocol::Iterm2, Some(ProtocolKind::Iterm2)),
        (DetectedImageProtocol::Sixel, Some(ProtocolKind::Sixel)),
        (DetectedImageProtocol::HalfBlock, Some(ProtocolKind::Halfblocks)),
        (DetectedImageProtocol::Disabled, None),
    ];
    for (protocol, kind) in kinds {
        let (app, _) = App::new(Config::default(), Document::new(), protocol, false, NOW);
        assert_eq!(app.picker.as_ref().map(kind_of_picker), kind);
    }
}

#[test]
fn the_tab_width_comes_from_the_config() {
    for (width, expected) in [(2, "  "), (4, "    "), (0, "\t")] {
        let mut config = Config::default();
        config.editor.tab_width = width;
        let (mut app, _) =
            App::new(config, Document::new(), DetectedImageProtocol::Disabled, false, NOW);
        app.handle_action(EditorAction::TextInput(key(KeyCode::Tab)), NOW);
        assert_eq!(app.textarea_content(), expected);

        let content = FileContent::Bytes(b"x".to_vec());
        app.finish_open("/a/b.md", content, NOW);
        app.handle_action(EditorAction::TextInput(key(KeyCode::Tab)), NOW);
        assert_eq!(app.textarea_content(), format!("{expected}x"));
    }
}

#[test]
fn taking_back_an_edit_leaves_nothing_unsaved() {
    let mut app = app_with("one\ntwo");
    app.handle_action(EditorAction::TextInput(plain('x')), NOW);
    assert!(app.document.modified);
    app.handle_action(EditorAction::TextInput(key(KeyCode::Backspace)), NOW);
    assert_eq!(app.textarea_content(), "one\ntwo");
    assert!(!app.document.modified);
    assert_eq!(app.status_filename(), "notes.md");

    app.handle_action(EditorAction::DeleteCharForward, NOW);
    assert!(app.document.modified);
    app.handle_action(EditorAction::TextInput(plain('o')), NOW);
    assert!(!app.document.modified);
    app.handle_action(EditorAction::Quit, NOW);
    assert!(app.should_quit);
}

#[test]
fn edits_are_held_against_what_was_last_saved() {
    let mut app = app_with("a");
    app.handle_action(EditorAction::TextInput(plain('b')), NOW);
    app.finish_save(AfterSave::Stay, WriteOutcome::Written, NOW);
    assert!(!app.document.modified);
    app.handle_action(EditorAction::TextInput(key(KeyCode::Backspace)), NOW);
    assert_eq!(app.textarea_content(), "a");
    assert!(app.document.modified);
    app.handle_action(EditorAction::TextInput(plain('b')), NOW);
    assert!(!app.document.modified);
}
