use alloy::app::{App, PreviewMode};
use alloy::config::Config;
use alloy::document::{Document, FileContent};
use alloy::image_proto::DetectedImageProtocol;
use alloy::keymap::EditorAction;
use alloy::links::{Link, LinkIndex, LinkTarget};
use alloy::markdown::engine::MarkdownEngine;
use alloy::markdown::pulldown::PulldownEngine;
use alloy::modes::EditorMode;
use alloy::style::{Color, Line, Style, Text};
use alloy::ui::{
    Area, MIN_SPLIT_WIDTH, border_style, bottom_bar, editor_frame, group_digits,
    html_string_to_text, image_source_of, image_source_with, inject_osc8, layout,
    line_number_style, mode_colors, named_status_line, place_images, preview_images, preview_pane,
    preview_width, split_body, word_count,
};

const NOW: u64 = 0;

fn app_with(text: &str, protocol: DetectedImageProtocol) -> App {
    let doc = Document::open("/a/b.md", FileContent::Bytes(text.as_bytes().to_vec())).unwrap();
    let (mut app, _) = App::new(Config::default(), doc, protocol, false, NOW);
    app.notifications.clear();
    app
}

fn link(target: LinkTarget, source_line: usize) -> Link {
    Link { display_text: "l".to_string(), target, source_line, source_col: 0 }
}

fn bar_text(app: &App, width: u16) -> String {
    let bar = bottom_bar(app, width, NOW);
    bar.line.spans.iter().map(|s| s.content.as_str()).collect()
}

#[test]
fn word_count_empty() {
    let lines: Vec<&str> = vec![""];

    assert_eq!(word_count(&lines), 0);
}

#[test]
fn word_count_single_line() {
    let lines = vec!["hello world foo"];

    assert_eq!(word_count(&lines), 3);
}

#[test]
fn word_count_multi_line() {
    let lines = vec!["Title", "", "Some text here.", "Another line."];

    assert_eq!(word_count(&lines), 6);
}

#[test]
fn word_count_leading_trailing_whitespace() {
    let lines = vec!["  hello   world  "];

    assert_eq!(word_count(&lines), 2);
}

#[test]
fn word_count_whitespace_only() {
    assert_eq!(word_count(&["   ", "\t\t"]), 0);
}

#[test]
fn word_counts_add_up() {
    let a = ["one two", "three"];
    let b = ["", " four  five "];
    assert_eq!(word_count(&a), 3);
    assert_eq!(word_count(&b), 2);
    assert_eq!(word_count(&[a[0], a[1], b[0], b[1]]), 5);
    assert_eq!(word_count(&[b[0], b[1], a[0], a[1]]), 5);
}

#[test]
fn html_string_to_text_splits_on_newlines() {
    let html = "<p>line 1</p>\n<p>line 2</p>";
    let text = html_string_to_text(html);

    assert_eq!(text.lines.len(), 2);
    assert_eq!(text.lines[0].spans[0].content, "<p>line 1</p>");
    assert_eq!(text.lines[1].spans[0].content, "<p>line 2</p>");
}

#[test]
fn html_string_to_text_empty_input() {
    let text = html_string_to_text("");

    assert!(
        text.lines.is_empty()
            || text
                .lines
                .iter()
                .all(|l| l.spans.is_empty() || l.spans[0].content.is_empty())
    );
}

// Layout

#[test]
fn narrow_terminal_suppresses_split() {
    let app = app_with("", DetectedImageProtocol::Kitty);

    let narrow = Area { x: 0, y: 0, width: MIN_SPLIT_WIDTH - 1, height: 20 };
    let (_, preview) = split_body(&app, narrow);

    assert!(
        preview.is_none(),
        "preview should be suppressed when width < MIN_SPLIT_WIDTH"
    );
}

#[test]
fn wide_terminal_produces_split() {
    let app = app_with("", DetectedImageProtocol::Kitty);

    let wide = Area { x: 0, y: 0, width: 120, height: 40 };
    let (_, preview) = split_body(&app, wide);

    assert!(
        preview.is_some(),
        "preview should be visible when width > MIN_SPLIT_WIDTH"
    );
}

#[test]
fn hidden_mode_suppresses_split_regardless_of_width() {
    let mut app = app_with("", DetectedImageProtocol::Kitty);
    app.preview_mode = PreviewMode::Hidden;

    let wide = Area { x: 0, y: 0, width: 200, height: 50 };
    let (_, preview) = split_body(&app, wide);

    assert!(
        preview.is_none(),
        "preview should be suppressed when PreviewMode::Hidden"
    );
}

#[test]
fn the_panes_share_the_width() {
    let mut app = app_with("", DetectedImageProtocol::Disabled);
    for x in [0u16, 7] {
        for width in 40..=260u16 {
            for ratio in [0u8, 10, 33, 50, 51, 67, 75, 90, 98, 99, 255] {
                app.config.ui.split_ratio = ratio;
                let body = Area { x, y: 3, width, height: 9 };
                let (editor, preview) = split_body(&app, body);
                let preview = preview.unwrap();
                let percent = (ratio as u32).clamp(10, 98);
                let left = ((width as u32 * percent + 50) / 100) as u16;
                assert_eq!(editor, Area { x, y: 3, width: left, height: 9 });
                assert_eq!(
                    preview,
                    Area { x: x + left, y: 3, width: width - left, height: 9 }
                );
            }
        }
    }
}

#[test]
fn extreme_widths_are_shared_too() {
    let mut app = app_with("", DetectedImageProtocol::Disabled);
    for width in [65_535u16, 65_534, 50_001, 32_767, 9_999] {
        for ratio in 10..=98u8 {
            app.config.ui.split_ratio = ratio;
            let body = Area { x: 65_535 - width, y: 0, width, height: 1 };
            let (editor, preview) = split_body(&app, body);
            let left = ((width as u32 * ratio as u32 + 50) / 100) as u16;
            assert_eq!(editor.width, left);
            assert_eq!(preview.unwrap().x, body.x + left);
            assert_eq!(preview.unwrap().width, width - left);
        }
    }
}

#[test]
fn the_bottom_line_takes_one_row() {
    let mut app = app_with("", DetectedImageProtocol::Disabled);
    for y in [0u16, 5] {
        for height in 0..=120u16 {
            let places = layout(&mut app, Area { x: 2, y, width: 100, height });
            let bottom = if height > 1 { 1 } else { 0 };
            assert_eq!(places.editor.y, y);
            assert_eq!(places.editor.height, height - bottom);
            assert_eq!(
                places.bottom,
                Area { x: 2, y: y + height - bottom, width: 100, height: bottom }
            );
        }
    }
    let places = layout(&mut app, Area { x: 0, y: 1, width: 9, height: 65_534 });
    assert_eq!(places.bottom.y, 65_534);
    assert_eq!(places.preview, None);
}

#[test]
fn the_preview_is_rendered_for_the_inside_of_its_pane() {
    let pane = |width| Some(Area { x: 0, y: 0, width, height: 5 });
    assert_eq!(preview_width(pane(60)), 58);
    assert_eq!(preview_width(pane(22)), 20);
    assert_eq!(preview_width(pane(21)), 20);
    assert_eq!(preview_width(pane(0)), 20);
    assert_eq!(preview_width(None), 80);
}

// Panes

#[test]
fn the_editor_frame_shows_name_and_mode() {
    let mut app = app_with("x", DetectedImageProtocol::Disabled);
    assert_eq!(editor_frame(&app).title.content, " b.md ");
    assert_eq!(editor_frame(&app).border.fg, Some(Color::DarkGray));
    app.document.modified = true;
    app.handle_action(EditorAction::EnterInsert, NOW);
    let frame = editor_frame(&app);
    assert_eq!(frame.title.content, " b.md [+] ");
    assert_eq!(frame.border.fg, Some(Color::LightCyan));
    assert!(frame.border.add_modifier.bold);
    assert_eq!(border_style(EditorMode::Command).fg, Some(Color::Magenta));
    assert_eq!(border_style(EditorMode::Search).fg, Some(Color::Yellow));
    assert_eq!(border_style(EditorMode::LinkSelect).fg, Some(Color::Blue));
}

#[test]
fn linked_addresses_become_hyperlinks() {
    let mut links = LinkIndex::new();
    links.push(link(LinkTarget::External("https://a.b".to_string()), 0));
    let style = Style::plain().fg(Color::Red);
    let text = || Text {
        lines: vec![
            Line::of(" https://a.b".to_string(), style),
            Line::of("https://c.d".to_string(), style),
        ],
    };
    let linked = inject_osc8(text(), &links);
    assert_eq!(
        linked.lines[0].spans[0].content,
        "\x1b]8;;https://a.b\x1b\\ https://a.b\x1b]8;;\x1b\\"
    );
    assert_eq!(linked.lines[0].spans[0].style, style);
    assert_eq!(linked.lines[1].spans[0].content, "https://c.d");

    let same = inject_osc8(text(), &LinkIndex::new());
    assert_eq!(same.lines[0].spans[0].content, " https://a.b");
}

#[test]
fn the_preview_pane_follows_the_mode() {
    let mut app = app_with("x", DetectedImageProtocol::Disabled);
    app.preview_text = Text { lines: vec![Line::of("shown".to_string(), Style::plain())] };
    app.preview_html = "<p>\nx".to_string();
    app.preview_scroll = 3;
    app.preview_scroll_html = 4;
    let pane = preview_pane(&app).unwrap();
    assert_eq!(pane.text.lines[0].spans[0].content, "shown");
    assert_eq!(pane.scroll, 3);
    app.preview_mode = PreviewMode::Html;
    let pane = preview_pane(&app).unwrap();
    assert_eq!(pane.text.lines.len(), 2);
    assert_eq!(pane.scroll, 4);
    app.preview_mode = PreviewMode::Hidden;
    assert!(preview_pane(&app).is_none());
}

// Images

#[test]
fn image_links_are_recognised() {
    let file = |p: &str| image_source_of(&LinkTarget::FilePath(p.to_string()));
    let web = |u: &str| image_source_of(&LinkTarget::External(u.to_string()));
    assert_eq!(file("a/b.PNG").as_deref(), Some("a/b.PNG"));
    assert_eq!(file("a.tar.bmp").as_deref(), Some("a.tar.bmp"));
    assert_eq!(file(".png"), None);
    assert_eq!(file("png"), None);
    assert_eq!(file("a.md"), None);
    assert_eq!(file("a.png/.."), None);
    assert_eq!(web("https://a.b/C.JPEG").as_deref(), Some("https://a.b/C.JPEG"));
    assert_eq!(web("https://a.b/c.webp").as_deref(), Some("https://a.b/c.webp"));
    assert_eq!(web("https://a.b/c.bmp"), None);
    let image = LinkTarget::Image { url: "x".to_string(), alt: "y".to_string() };
    assert_eq!(image_source_of(&image).as_deref(), Some("x"));
    assert_eq!(image_source_of(&LinkTarget::WikiLink("a.png".to_string())), None);
}

#[test]
fn images_are_placed_below_their_line() {
    let mut app = app_with("x", DetectedImageProtocol::HalfBlock);
    app.link_index.push(link(LinkTarget::FilePath("a.png".to_string()), 4));
    app.link_index.push(link(LinkTarget::WikiLink("page".to_string()), 5));
    app.link_index.push(link(LinkTarget::FilePath("b.png".to_string()), 19));
    app.link_index.push(link(LinkTarget::FilePath("c.png".to_string()), 20));
    let inner = Area { x: 3, y: 1, width: 30, height: 20 };
    let placed = preview_images(&app, inner);
    assert_eq!(placed.len(), 2);
    assert_eq!(placed[0].source, "a.png");
    assert_eq!(placed[0].area, Area { x: 3, y: 6, width: 30, height: 8 });
    assert_eq!(placed[1].source, "b.png");
    assert_eq!(placed[1].area, Area { x: 3, y: 20, width: 30, height: 1 });

    app.preview_scroll = 4;
    let placed = preview_images(&app, inner);
    assert_eq!(placed.len(), 3);
    assert_eq!(placed[0].area.y, 2);

    app.config.images.enabled = false;
    assert!(preview_images(&app, inner).is_empty());
}

// The bottom line

#[test]
fn the_status_bar_names_everything() {
    let mut app = app_with("one two\nthree", DetectedImageProtocol::Disabled);
    app.handle_action(EditorAction::MoveDown, NOW);
    assert_eq!(
        bar_text(&app, 80),
        " NORMAL  b.md  |  2:1 |  [P:Rendered] |  3 words"
    );
    app.notify_warn("careful".to_string(), NOW);
    assert!(bar_text(&app, 80).ends_with(" |  careful "));
    let bar = bottom_bar(&app, 80, NOW);
    assert_eq!(bar.line.spans[7].style.fg, Some(Color::Yellow));
    assert_eq!(bar.style.bg, Some(Color::Rgb(30, 30, 30)));
    app.notifications.clear();

    app.handle_action(EditorAction::EnterLiteralSearch, NOW);
    app.handle_action(EditorAction::SearchInput('t'), NOW);
    app.handle_action(EditorAction::CommitSearch, NOW);
    assert!(bar_text(&app, 80).ends_with(" |  [1/2] "));
}

#[test]
fn words_are_counted_in_thousands() {
    assert_eq!(group_digits(0), "0");
    assert_eq!(group_digits(999), "999");
    assert_eq!(group_digits(1_000), "1,000");
    assert_eq!(group_digits(1_234), "1,234");
    assert_eq!(group_digits(12_005_060), "12,005,060");

    let app = app_with(&"word ".repeat(1_234), DetectedImageProtocol::Disabled);
    assert!(bar_text(&app, 80).ends_with(" 1,234 words"));
}

#[test]
fn mode_colours() {
    assert_eq!(mode_colors(&EditorMode::Normal), (Color::Green, Color::Black));
    assert_eq!(mode_colors(&EditorMode::Insert), (Color::LightCyan, Color::Black));
    assert_eq!(mode_colors(&EditorMode::Search), (Color::Yellow, Color::Black));
    assert_eq!(mode_colors(&EditorMode::Command), (Color::Magenta, Color::Black));
    assert_eq!(mode_colors(&EditorMode::LinkSelect), (Color::Blue, Color::White));
}

#[test]
fn the_command_prompt_shows_the_command() {
    let mut app = app_with("x", DetectedImageProtocol::Disabled);
    app.handle_action(EditorAction::EnterCommand, NOW);
    app.handle_action(EditorAction::CommandInput('w'), NOW);
    assert_eq!(bar_text(&app, 80), ":w_");
}

#[test]
fn the_search_prompt_fills_the_line() {
    let mut app = app_with("hello hello", DetectedImageProtocol::Disabled);
    app.handle_action(EditorAction::EnterLiteralSearch, NOW);
    assert_eq!(bar_text(&app, 20), "/ _            [0/0]");
    for c in "hello".chars() {
        app.handle_action(EditorAction::SearchInput(c), NOW);
    }
    assert_eq!(bar_text(&app, 20), "/ hello_       [1/2]");
    assert_eq!(bar_text(&app, 5), "/ hello_[1/2]");
    app.handle_action(EditorAction::CancelSearch, NOW);
    app.handle_action(EditorAction::EnterRegexSearch, NOW);
    assert!(bar_text(&app, 20).starts_with("? _"));
}

#[test]
fn the_link_prompt_names_the_link() {
    let mut app = app_with("x", DetectedImageProtocol::Disabled);
    app.link_index.push(link(LinkTarget::External("https://a.b".to_string()), 0));
    app.link_index.push(link(LinkTarget::InternalAnchor("top".to_string()), 0));
    app.link_index.push(link(LinkTarget::WikiLink("p".to_string()), 0));
    app.link_index.push(link(LinkTarget::FilePath("f".to_string()), 0));
    app.link_index.push(link(
        LinkTarget::Image { url: "u".to_string(), alt: "a".to_string() },
        0,
    ));
    app.handle_action(EditorAction::EnterLinkSelect, NOW);
    assert_eq!(bar_text(&app, 30), "[LINKS 1/5] EXTERNAL → https://a.b");
    let wide = bar_text(&app, 100);
    assert!(wide.starts_with("[LINKS 1/5] EXTERNAL → https://a.b "));
    assert!(wide.ends_with(" j/k:nav | Enter:follow | Esc:cancel "));
    assert_eq!(wide.len(), 100);
    for text in ["ANCHOR → #top", "WIKILINK → [[p]]", "FILEPATH → f", "IMAGE → u"] {
        app.handle_action(EditorAction::LinkSelectNext, NOW);
        assert!(bar_text(&app, 30).ends_with(text), "{}", bar_text(&app, 30));
    }
}

#[test]
fn images_are_recognised_by_the_extension_that_was_found() {
    let file = LinkTarget::FilePath("a".to_string());
    assert_eq!(image_source_with(&file, &Some("GIF".to_string())).as_deref(), Some("a"));
    assert_eq!(image_source_with(&file, &Some("md".to_string())), None);
    assert_eq!(image_source_with(&file, &None), None);
}

#[test]
fn only_links_with_a_source_are_placed() {
    let mut links = LinkIndex::new();
    links.push(link(LinkTarget::FilePath("a".to_string()), 1));
    links.push(link(LinkTarget::FilePath("b".to_string()), 2));
    let inner = Area { x: 0, y: 0, width: 10, height: 20 };
    let placed = place_images(&links, &vec![None, Some("c".to_string())], 0, inner);
    assert_eq!(placed.len(), 1);
    assert_eq!(placed[0].source, "c");
    assert_eq!(placed[0].area, Area { x: 0, y: 3, width: 10, height: 8 });
}

#[test]
fn the_status_bar_takes_a_name() {
    let app = app_with("one", DetectedImageProtocol::Disabled);
    let bar = named_status_line(&app, "other.md", NOW);
    let text: String = bar.line.spans.iter().map(|s| s.content.as_str()).collect();
    assert_eq!(text, " NORMAL  other.md  |  1:1 |  [P:Rendered] |  1 words");
}

#[test]
fn addresses_in_wrapped_paragraphs_become_hyperlinks() {
    let engine = PulldownEngine::with_gfm();
    let src = "see [https://a.b](https://a.b) and a few more words to wrap\n";
    let (text, links) = engine.render_terminal_with_links(src, 20);
    assert!(text.lines.len() > 1);
    let linked = inject_osc8(text, &links);
    assert!(
        linked
            .lines
            .iter()
            .flat_map(|l| l.spans.iter())
            .any(|s| s.content == "\x1b]8;;https://a.b\x1b\\https://a.b\x1b]8;;\x1b\\")
    );
}

#[test]
fn line_numbers_follow_the_setting() {
    let mut app = app_with("x", DetectedImageProtocol::Disabled);
    assert_eq!(line_number_style(&app).unwrap().fg, Some(Color::DarkGray));
    app.config.editor.line_numbers = false;
    assert!(line_number_style(&app).is_none());
}
