//! What a whole screen shows in each mode.
use alloy::app::{App, PreviewMode};
use alloy::config::Config;
use alloy::document::{Document, FileContent};
use alloy::image_proto::DetectedImageProtocol;
use alloy::keymap::EditorAction;
use alloy::style::Line;
use alloy::ui::{Area, bottom_bar, editor_frame, layout, preview_pane};

const NOW: u64 = 0;

fn make_test_app() -> App {
    App::new(
        Config::default(),
        Document::new(),
        DetectedImageProtocol::Disabled,
        false,
        NOW,
    )
    .0
}

fn screen(width: u16, height: u16) -> Area {
    Area { x: 0, y: 0, width, height }
}

fn line_text(line: &Line) -> String {
    line.spans.iter().map(|s| s.content.as_str()).collect()
}

/// All text on the screen.
fn draw(app: &mut App, area: Area) -> String {
    let places = layout(app, area);
    let mut text = editor_frame(app).title.content;
    text.push_str(&app.textarea_content());
    if places.preview.is_some() {
        let pane = preview_pane(app).expect("a visible pane");
        text.push_str(&pane.frame.title.content);
        for line in &pane.text.lines {
            text.push_str(&line_text(line));
        }
    }
    text.push_str(&line_text(&bottom_bar(app, places.bottom.width, NOW).line));
    text
}

// Sizes and content

#[test]
fn app_renders_without_panic() {
    let mut app = make_test_app();
    let area = screen(120, 40);

    let text = draw(&mut app, area);
    assert!(text.contains("[Unnamed Document]"), "{text:?}");
    assert!(text.contains(" Preview "), "{text:?}");
}

#[test]
fn app_renders_on_very_narrow_terminal() {
    let mut app = make_test_app();
    let area = screen(30, 10);

    let text = draw(&mut app, area);
    assert!(!text.contains(" Preview "), "{text:?}");
    assert_eq!(app.last_preview_width, 80);
    for (width, height) in [(0, 0), (1, 1), (1, 0), (0, 5)] {
        draw(&mut app, screen(width, height));
    }
}

#[test]
fn app_renders_with_document_content() {
    let bytes = b"# Heading\n\nSome paragraph text.\n\n- item 1\n- item 2\n".to_vec();
    let doc = Document::open("/tmp/x.md", FileContent::Bytes(bytes)).expect("open file");
    let (mut app, _) =
        App::new(Config::default(), doc, DetectedImageProtocol::Disabled, false, NOW);

    let area = screen(120, 40);

    let text = draw(&mut app, area);
    assert!(text.contains("Some paragraph text."), "{text:?}");
    assert!(text.contains("11 words"), "{text:?}");
}

// Mode label tests - status bar must reflect the current EditorMode

#[test]
fn normal_mode_label_appears_in_status_bar() {
    let mut app = make_test_app();
    let area = screen(120, 40);

    let text = draw(&mut app, area);

    assert!(
        text.contains("NORMAL"),
        "status bar should display 'NORMAL' mode indicator; buffer: {text:?}"
    );
}

#[test]
fn insert_mode_label_appears_after_enter_insert() {
    let mut app = make_test_app();
    app.handle_action(EditorAction::EnterInsert, NOW);

    let area = screen(120, 40);

    let text = draw(&mut app, area);

    assert!(
        text.contains("INSERT"),
        "status bar should display 'INSERT' mode indicator; buffer: {text:?}"
    );
}

#[test]
fn mode_returns_to_normal_after_exit_insert() {
    let mut app = make_test_app();
    app.handle_action(EditorAction::EnterInsert, NOW);
    app.handle_action(EditorAction::ExitInsert, NOW);

    let area = screen(120, 40);

    let text = draw(&mut app, area);

    assert!(
        text.contains("NORMAL"),
        "should return to NORMAL after ExitInsert; buffer: {text:?}"
    );
    assert!(
        !text.contains("INSERT"),
        "INSERT label should not appear after ExitInsert; buffer: {text:?}"
    );
}

// Command mode - prompt replaces the status bar

#[test]
fn command_mode_renders_colon_prompt() {
    let mut app = make_test_app();
    app.handle_action(EditorAction::EnterCommand, NOW);

    let area = screen(120, 40);

    let text = draw(&mut app, area);

    assert!(
        text.contains(':'),
        "command mode should render ':' prompt; buffer: {text:?}"
    );
}

#[test]
fn command_mode_shows_typed_characters() {
    let mut app = make_test_app();
    app.handle_action(EditorAction::EnterCommand, NOW);
    app.handle_action(EditorAction::CommandInput('w'), NOW);
    app.handle_action(EditorAction::CommandInput('q'), NOW);

    let area = screen(120, 40);

    let text = draw(&mut app, area);


    // The command ":wq" should be visible in the bottom row.
    assert!(
        text.contains("wq"),
        "command input 'wq' should be visible in the prompt; buffer: {text:?}"
    );
}

// Preview modes

#[test]
fn rendered_preview_mode_renders_both_panes() {
    let mut app = make_test_app();

    assert_eq!(app.preview_mode, PreviewMode::Rendered);

    let area = screen(120, 40);

    let text = draw(&mut app, area);
    assert!(text.contains(" Preview "), "{text:?}");
    assert!(text.contains("[P:Rendered]"), "{text:?}");
    assert_eq!(app.last_preview_width, 58);
}

#[test]
fn html_preview_mode_renders_without_panic() {
    let mut app = make_test_app();
    app.preview_mode = PreviewMode::Html;

    let area = screen(120, 40);

    let text = draw(&mut app, area);
    assert!(text.contains(" HTML "), "{text:?}");
}

#[test]
fn hidden_preview_mode_renders_full_width_editor() {
    let mut app = make_test_app();
    app.preview_mode = PreviewMode::Hidden;

    let area = screen(120, 40);

    let text = draw(&mut app, area);

    // In hidden mode, NORMAL should still appear (the editor has full width).

    assert!(
        text.contains("NORMAL"),
        "hidden preview mode should still render the status bar; buffer: {text:?}"
    );
}

#[test]
fn preview_toggle_cycle_renders_all_three_modes_without_panic() {
    let mut app = make_test_app();
    let area = screen(120, 40);

    for label in ["[P:HTML]", "[P:Off]", "[P:Rendered]"] {
        app.handle_action(EditorAction::TogglePreview, NOW);
        let text = draw(&mut app, area);
        assert!(text.contains(label), "{text:?}");
    }

    // After 3 toggles we're back to Rendered.
    assert_eq!(app.preview_mode, PreviewMode::Rendered);
}

// Mode transitions

#[test]
fn multiple_mode_transitions_render_cleanly() {
    let mut app = make_test_app();
    let area = screen(120, 40);

    let transitions: &[EditorAction] = &[
        EditorAction::EnterInsert,
        EditorAction::ExitInsert,
        EditorAction::EnterCommand,
        EditorAction::ExitInsert, // exits Command mode too
        EditorAction::EnterLiteralSearch,
        EditorAction::CancelSearch,
    ];

    let mut text = String::new();
    for action in transitions {
        app.handle_action(*action, NOW);
        text = draw(&mut app, area);
    }

    assert!(
        text.contains("NORMAL"),
        "final state should be NORMAL; buffer: {text:?}"
    );
}
