use alloy::markdown::comrak::{
    ComrakEngine, ComrakExtensions, HTML_LINE_LIMIT, html_to_lines,
};
use alloy::markdown::engine::MarkdownEngine;

fn engine() -> ComrakEngine {
    ComrakEngine::with_gfm()
}

// HTML output

#[test]
fn render_html_produces_h1_tag() {
    let html = engine().render_html("# Hello\n");

    assert!(
        html.contains("<h1>") || html.contains("<h1 "),
        "expected <h1> in output: {html:?}"
    );
    assert!(html.contains("Hello"), "expected heading text: {html:?}");
}

#[test]
fn render_html_produces_paragraph() {
    let html = engine().render_html("Some text.\n");

    assert!(html.contains("<p>"), "expected <p> tag: {html:?}");
    assert!(
        html.contains("Some text"),
        "expected paragraph content: {html:?}"
    );
}

#[test]
fn render_html_produces_bold() {
    let html = engine().render_html("**bold**\n");

    assert!(html.contains("<strong>"), "expected <strong>: {html:?}");
}

#[test]
fn render_html_produces_code_block() {
    let html = engine().render_html("```rust\nfn main() {}\n```\n");

    assert!(html.contains("<code"), "expected <code> tag: {html:?}");
    assert!(html.contains("fn main"), "expected code content: {html:?}");
}

#[test]
fn render_html_gfm_table() {
    let src = "| A | B |\n|---|---|\n| 1 | 2 |\n";
    let html = engine().render_html(src);

    assert!(html.contains("<table"), "expected <table>: {html:?}");
}

#[test]
fn render_html_gfm_task_list() {
    let src = "- [x] Done\n- [ ] Todo\n";
    let html = engine().render_html(src);

    assert!(
        html.contains("checkbox") || html.contains("checked"),
        "expected checkbox markup: {html:?}"
    );
}

#[test]
fn render_html_empty_input() {
    let html = engine().render_html("");

    // comrak returns empty string or just whitespace for empty input
    assert!(
        html.trim().is_empty() || html.len() < 20,
        "expected minimal output for empty input: {html:?}"
    );
}

// Terminal delegation

#[test]
fn render_terminal_delegates_to_pulldown() {
    let text = engine().render_terminal("# Title\n\nParagraph.\n", 80);
    let plain: String = text
        .lines
        .iter()
        .flat_map(|l| l.spans.iter())
        .map(|s| s.content.as_str())
        .collect::<Vec<_>>()
        .join("");

    assert!(plain.contains("Title"), "expected heading text: {plain:?}");
    assert!(
        plain.contains("Paragraph"),
        "expected paragraph text: {plain:?}"
    );
}

// html_to_lines

#[test]
fn html_to_lines_basic_split() {
    let html = "<p>line 1</p>\n<p>line 2</p>";
    let lines = html_to_lines(html);

    assert_eq!(lines.len(), 2);
    assert_eq!(lines[0], "<p>line 1</p>");
}

#[test]
fn html_to_lines_truncates_at_limit() {
    let many_lines = (0..HTML_LINE_LIMIT + 50)
        .map(|i| format!("<p>{i}</p>"))
        .collect::<Vec<_>>()
        .join("\n");
    let lines = html_to_lines(&many_lines);

    // Should be HTML_LINE_LIMIT + 1 (the truncation marker)
    assert_eq!(lines.len(), HTML_LINE_LIMIT + 1);
    assert!(
        lines.last().unwrap().contains("[truncated"),
        "expected truncation marker"
    );
}

#[test]
fn extensions_switch_features_on() {
    let plain = ComrakEngine::new(ComrakExtensions {
        gfm: false,
        wiki_links: false,
        footnotes: false,
        frontmatter: false,
        math: false,
    });
    let src = "| A | B |\n|---|---|\n| 1 | 2 |\n";
    assert!(!plain.render_html(src).contains("<table"));

    let all = ComrakEngine::new(ComrakExtensions {
        gfm: true,
        wiki_links: true,
        footnotes: true,
        frontmatter: true,
        math: true,
    });
    assert!(all.render_html("[[Page]]\n").contains("<a "));
    assert!(all.render_html("x[^1]\n\n[^1]: note\n").contains("footnote"));
    assert!(!all.render_html("---\ntitle: x\n---\n\ntext\n").contains("title"));
    assert!(all.render_html("$x$\n").contains("math"));
    assert!(!plain.render_html("$x$\n").contains("math"));
}

#[test]
fn short_html_is_shown_as_it_is() {
    let exact = vec!["x"; HTML_LINE_LIMIT].join("\n");
    assert_eq!(html_to_lines(&exact).len(), HTML_LINE_LIMIT);
    assert_eq!(html_to_lines("a\r\nb\n"), vec!["a", "b"]);
    assert!(html_to_lines("").is_empty());
}
