use alloy::links::{LinkIndex, LinkTarget, normalize_anchor};
use alloy::markdown::engine::MarkdownEngine;
use alloy::markdown::pulldown::{EngineExtensions, PulldownEngine};
use alloy::markdown::wrap::wrap_line;
use alloy::style::{Color, Modifier, Span, Style, Text};

fn raw(content: &str) -> Span {
    Span::styled(content.to_string(), Style::plain())
}

fn render(src: &str) -> String {
    let engine = PulldownEngine::with_gfm();
    let text = engine.render_terminal(src, 80);

    text_to_plain(&text)
}

fn render_with_links(src: &str) -> (String, LinkIndex) {
    let engine = PulldownEngine::with_gfm();
    let (text, links) = engine.render_terminal_with_links(src, 80);

    (text_to_plain(&text), links)
}

/// Flatten `Text` to a plain string (content only, no styles) for snapshot-friendly assertions.
fn text_to_plain(text: &Text) -> String {
    text.lines
        .iter()
        .map(|l| {
            l.spans
                .iter()
                .map(|s| s.content.as_str())
                .collect::<String>()
        })
        .collect::<Vec<_>>()
        .join("\n")
}

// Structural smoke tests

#[test]
fn empty_input_does_not_panic() {
    let engine = PulldownEngine::default();
    let text = engine.render_terminal("", 80);

    assert!(text.lines.is_empty() || text.lines.iter().all(|l| l.spans.is_empty()));
}

#[test]
fn heading_h1_contains_prefix_and_text() {
    let out = render("# Hello World\n");

    assert!(out.contains("# "), "H1 prefix missing: {out:?}");
    assert!(out.contains("Hello World"), "H1 text missing: {out:?}");
}

#[test]
fn heading_h2_uses_double_hash() {
    let out = render("## Section\n");

    assert!(out.contains("## "), "H2 prefix missing: {out:?}");
}

#[test]
fn heading_h3_uses_triple_hash() {
    let out = render("### Sub\n");

    assert!(out.contains("### "), "H3 prefix missing: {out:?}");
}

#[test]
fn paragraph_text_appears_in_output() {
    let out = render("Hello, world.\n");

    assert!(
        out.contains("Hello, world."),
        "paragraph text missing: {out:?}"
    );
}

#[test]
fn bold_text_appears_in_output() {
    let out = render("This is **bold** text.\n");

    assert!(out.contains("bold"), "bold text missing: {out:?}");
}

#[test]
fn italic_text_appears_in_output() {
    let out = render("This is _italic_ text.\n");

    assert!(out.contains("italic"), "italic text missing: {out:?}");
}

#[test]
fn inline_code_includes_backticks() {
    let out = render("Use `cargo build`.\n");

    assert!(
        out.contains("`cargo build`"),
        "inline code missing: {out:?}"
    );
}

#[test]
fn unordered_list_bullet_prefix() {
    let out = render("- alpha\n- beta\n");

    assert!(out.contains("alpha"), "list item alpha missing: {out:?}");
    assert!(out.contains("beta"), "list item beta missing: {out:?}");
    assert!(
        out.contains('●') || out.contains('-') || out.contains('○'),
        "list bullet missing: {out:?}"
    );
}

#[test]
fn ordered_list_number_prefix() {
    let out = render("1. First\n2. Second\n");

    assert!(
        out.contains("First"),
        "ordered item 'First' missing: {out:?}"
    );
    assert!(
        out.contains("Second"),
        "ordered item 'Second' missing: {out:?}"
    );
}

#[test]
fn blockquote_gutter_present() {
    let out = render("> A quoted line.\n");

    assert!(out.contains("▌"), "blockquote gutter missing: {out:?}");
    assert!(
        out.contains("A quoted line."),
        "blockquote text missing: {out:?}"
    );
}

#[test]
fn fenced_code_block_shows_language_and_body() {
    let out = render("```rust\nfn main() {}\n```\n");

    assert!(out.contains("rust"), "language label missing: {out:?}");
    assert!(out.contains("fn main()"), "code body missing: {out:?}");
}

#[test]
fn horizontal_rule_emits_line_of_dashes() {
    let out = render("---\n");

    assert!(out.contains('─'), "horizontal rule missing: {out:?}");
}

#[test]
fn gfm_strikethrough_appears() {
    let out = render("~~gone~~\n");

    assert!(out.contains("gone"), "strikethrough text missing: {out:?}");
}

// Image checks

#[test]
fn image_with_alt_text_renders_placeholder() {
    let out = render("![A cat sitting](cat.png)\n");

    assert!(
        out.contains("[Image:"),
        "image placeholder prefix missing: {out:?}"
    );
    assert!(
        out.contains("A cat sitting"),
        "image alt text missing from placeholder: {out:?}"
    );
    assert!(
        out.contains("cat.png"),
        "image URL missing from placeholder: {out:?}"
    );
}

#[test]
fn image_without_alt_text_renders_url_only() {
    let out = render("![](diagram.svg)\n");

    assert!(
        out.contains("[Image: diagram.svg]"),
        "expected bare URL placeholder for no-alt image: {out:?}"
    );
}

#[test]
fn image_with_remote_url_renders_placeholder() {
    let out = render("![Logo](https://example.com/logo.png)\n");

    assert!(
        out.contains("https://example.com/logo.png"),
        "remote URL missing from placeholder: {out:?}"
    );
}

#[test]
fn image_alt_text_not_emitted_as_visible_text() {
    // The alt text should appear only inside the [Image: ...] placeholder, not
    // as a separate run of text.
    let out = render("![Secret Alt](img.png)\n");

    // Should contain exactly one occurrence of "Secret Alt" (inside the placeholder).
    let count = out.matches("Secret Alt").count();

    assert_eq!(count, 1, "alt text should appear exactly once: {out:?}");
}

#[test]
fn image_span_has_magenta_style() {
    let engine = PulldownEngine::with_gfm();
    let text = engine.render_terminal("![Alt](img.png)\n", 80);

    let image_span = text
        .lines
        .iter()
        .flat_map(|l| l.spans.iter())
        .find(|s| s.content.contains("[Image:"));

    assert!(image_span.is_some(), "image placeholder span not found");
    assert_eq!(
        image_span.unwrap().style.fg,
        Some(Color::Magenta),
        "image placeholder should have Magenta fg"
    );
}

#[test]
fn image_does_not_corrupt_surrounding_text() {
    let out = render("Before.\n\n![Alt](img.png)\n\nAfter.\n");

    assert!(
        out.contains("Before."),
        "text before image missing: {out:?}"
    );
    assert!(out.contains("After."), "text after image missing: {out:?}");
    assert!(
        out.contains("[Image:"),
        "image placeholder missing: {out:?}"
    );
}

#[test]
fn multiple_images_all_rendered_as_placeholders() {
    let out = render("![One](one.png)\n\n![Two](two.png)\n");

    assert!(out.contains("one.png"), "first image missing: {out:?}");
    assert!(out.contains("two.png"), "second image missing: {out:?}");
}

// Style checks (spawn-level)

#[test]
fn h1_span_is_bold_and_colored() {
    let engine = PulldownEngine::with_gfm();
    let text = engine.render_terminal("# Title\n", 80);

    // Find the line containing "Title" and check its style.
    let title_line = text
        .lines
        .iter()
        .find(|l| l.spans.iter().any(|s| s.content.contains("Title")));

    assert!(title_line.is_some(), "no line with 'Title' found");

    let title_span = title_line
        .unwrap()
        .spans
        .iter()
        .find(|s| s.content.contains("Title"))
        .unwrap();

    assert!(
        title_span.style.add_modifier.contains(Modifier::bold()),
        "H1 title span should be bold: {:?}",
        title_span.style
    );
}

#[test]
fn bold_span_has_bold_modifier() {
    let engine = PulldownEngine::with_gfm();
    let text = engine.render_terminal("**important**\n", 80);

    let bold_span = text
        .lines
        .iter()
        .flat_map(|l| l.spans.iter())
        .find(|s| s.content.contains("important"));

    assert!(bold_span.is_some(), "bold span not found");
    assert!(
        bold_span
            .unwrap()
            .style
            .add_modifier
            .contains(Modifier::bold()),
        "bold span missing BOLD modifier"
    );
}

#[test]
fn italic_span_has_italic_modifier() {
    let engine = PulldownEngine::with_gfm();
    let text = engine.render_terminal("*slanted*\n", 80);

    let span = text
        .lines
        .iter()
        .flat_map(|l| l.spans.iter())
        .find(|s| s.content.contains("slanted"));

    assert!(span.is_some(), "italic span not found");
    assert!(
        span.unwrap().style.add_modifier.contains(Modifier::italic()),
        "italic span missing ITALIC modifier"
    );
}

#[test]
fn inline_code_span_has_yellow_fg() {
    let engine = PulldownEngine::with_gfm();
    let text = engine.render_terminal("Use `foo`.\n", 80);

    let code_span = text
        .lines
        .iter()
        .flat_map(|l| l.spans.iter())
        .find(|s| s.content.contains("`foo`"));

    assert!(code_span.is_some(), "`foo` span not found");
    assert_eq!(
        code_span.unwrap().style.fg,
        Some(Color::Yellow),
        "inline code should have Yellow fg"
    );
}

// Wrap helpers unit tests

#[test]
fn wrap_short_line_unchanged() {
    let spans = vec![raw("hello world")];
    let lines = wrap_line(spans, 80);

    assert_eq!(lines.len(), 1);
}

#[test]
fn wrap_long_line_splits() {
    let long = "word ".repeat(30); // 150 chars
    let spans = vec![raw(&long)];
    let lines = wrap_line(spans, 40);

    assert!(
        lines.len() > 1,
        "long line should be split into multiple lines"
    );
}

#[test]
fn wrap_zero_col_width_does_not_panic() {
    let spans = vec![raw("hello")];
    let lines = wrap_line(spans, 0);

    assert!(!lines.is_empty());
}

// Link extraction tests

#[test]
fn inline_link_extracted_correctly() {
    let (_, links) = render_with_links("[Example](https://example.com)\n");

    assert_eq!(links.len(), 1);

    let link = links.get(0).unwrap();

    assert_eq!(link.display_text, "Example");
    assert!(matches!(&link.target, LinkTarget::External(u) if u == "https://example.com"));
}

#[test]
fn internal_anchor_link_extracted() {
    let (_, links) = render_with_links("[Go to section](#my-section)\n");

    // Should have both the link and the anchor (if heading exists) — we're only checking the link here
    let anchor_link = links
        .0
        .iter()
        .find(|l| matches!(&l.target, LinkTarget::InternalAnchor(a) if a == "my-section"));

    assert!(anchor_link.is_some(), "internal anchor link not found");
}

#[test]
fn heading_registers_as_anchor_target() {
    let (_, links) = render_with_links("# My Heading\n\nSome text.\n");

    let anchor = links
        .0
        .iter()
        .find(|l| matches!(&l.target, LinkTarget::InternalAnchor(a) if a == "my-heading"));

    assert!(anchor.is_some(), "heading anchor not registered: {links:?}");
}

#[test]
fn multiple_links_all_extracted() {
    let src = "[One](https://one.com) and [Two](https://two.com)\n";
    let (_, links) = render_with_links(src);

    let externals: Vec<_> = links
        .0
        .iter()
        .filter(|l| matches!(&l.target, LinkTarget::External(_)))
        .collect();

    assert_eq!(externals.len(), 2, "expected 2 external links: {links:?}");
}

#[test]
fn no_links_in_plain_paragraph() {
    let (_, links) = render_with_links("Just plain text, no links here.\n");
    let external_count = links
        .0
        .iter()
        .filter(|l| matches!(&l.target, LinkTarget::External(_)))
        .count();

    assert_eq!(external_count, 0);
}

#[test]
fn file_path_link_classified_correctly() {
    let (_, links) = render_with_links("[Notes](./notes.md)\n");

    let file_link = links
        .0
        .iter()
        .find(|l| matches!(&l.target, LinkTarget::FilePath(_)));

    assert!(file_link.is_some(), "file path link not found: {links:?}");
}

#[test]
fn wiki_link_extracted_when_enabled() {
    let engine = PulldownEngine::new(EngineExtensions {
        gfm: true,
        footnotes: false,
        wiki_links: true,
    });
    let (_, links) = engine.render_terminal_with_links("See [[HomePage]] for details.\n", 80);

    let wiki = links
        .0
        .iter()
        .find(|l| matches!(&l.target, LinkTarget::WikiLink(p) if p == "HomePage"));

    assert!(wiki.is_some(), "wiki link not extracted: {links:?}");
}

#[test]
fn wiki_link_with_title_extracted() {
    let engine = PulldownEngine::new(EngineExtensions {
        gfm: true,
        footnotes: false,
        wiki_links: true,
    });
    let (_, links) = engine.render_terminal_with_links("[[MyPage|Custom Title]]\n", 80);

    let wiki = links
        .0
        .iter()
        .find(|l| matches!(&l.target, LinkTarget::WikiLink(p) if p == "MyPage"));

    assert!(
        wiki.is_some(),
        "wiki link with title not extracted: {links:?}"
    );
}

#[test]
fn wiki_links_not_extracted_when_disabled() {
    let engine = PulldownEngine::with_gfm(); // wiki_links = false
    let (_, links) = engine.render_terminal_with_links("See [[HomePage]] for details.\n", 80);

    let wiki_count = links
        .0
        .iter()
        .filter(|l| matches!(&l.target, LinkTarget::WikiLink(_)))
        .count();

    assert_eq!(
        wiki_count, 0,
        "wiki links should not be extracted when disabled"
    );
}

#[test]
fn link_display_text_captured() {
    let (_, links) = render_with_links("[Click Here](https://example.com)\n");

    assert_eq!(links.get(0).unwrap().display_text, "Click Here");
}

// Highlighting integration tests

#[test]
fn highlighted_rust_block_contains_code_content() {
    let engine = PulldownEngine::with_highlighting("base16-ocean.dark");
    let text = engine.render_terminal("```rust\nfn main() {}\n```\n", 80);
    let plain = text_to_plain(&text);

    assert!(
        plain.contains("fn main()"),
        "highlighted block should contain code: {plain:?}"
    );
}

#[test]
fn highlighted_rust_block_has_colored_spans() {
    let engine = PulldownEngine::with_highlighting("base16-ocean.dark");
    let text = engine.render_terminal(
        "```rust\nfn add(a: i32, b: i32) -> i32 { a + b }\n```\n",
        80,
    );

    // Find spans inside the code block (skip header/footer lines).
    // Header line contains "┌─ rust", footer contains "└".
    let code_lines: Vec<_> = text
        .lines
        .iter()
        .filter(|l| {
            let content: String = l.spans.iter().map(|s| s.content.as_str()).collect();
            !content.contains("┌─") && !content.contains("└") && !content.trim().is_empty()
        })
        .collect();

    assert!(
        !code_lines.is_empty(),
        "expected at least one code content line"
    );

    // At least some spans should have non-default (non-white) fg colors from syntect.
    let has_colored_span = code_lines.iter().any(|line| {
        line.spans
            .iter()
            .any(|s| matches!(s.style.fg, Some(Color::Rgb(_, _, _))))
    });

    assert!(
        has_colored_span,
        "highlighted Rust block should have at least one Rgb-colored span"
    );
}

#[test]
fn highlighted_python_block_contains_code_content() {
    let engine = PulldownEngine::with_highlighting("base16-ocean.dark");
    let src = "```python\ndef greet(name):\n    return f\"Hello, {name}!\"\n```\n";
    let text = engine.render_terminal(src, 80);
    let plain = text_to_plain(&text);

    assert!(
        plain.contains("def greet"),
        "python code should appear in output: {plain:?}"
    );
}

#[test]
fn unknown_lang_uses_fallback_not_panic() {
    let engine = PulldownEngine::with_highlighting("base16-ocean.dark");
    let src = "```brainfuck_unknown\n+-><\n```\n";
    // Must not panic; content must appear in output.
    let text = engine.render_terminal(src, 80);
    let plain = text_to_plain(&text);

    assert!(
        plain.contains("+->"),
        "unknown lang content should still appear: {plain:?}"
    );
}

#[test]
fn empty_lang_tag_uses_fallback_not_panic() {
    let engine = PulldownEngine::with_highlighting("base16-ocean.dark");
    let src = "```\nplain code block\n```\n";
    let text = engine.render_terminal(src, 80);
    let plain = text_to_plain(&text);

    assert!(
        plain.contains("plain code block"),
        "empty lang content should appear: {plain:?}"
    );
}

#[test]
fn highlighting_disabled_falls_through_to_plain() {
    // PulldownEngine::with_gfm() has no highlighter — code blocks use plain styling.
    let engine = PulldownEngine::with_gfm();
    let src = "```rust\nlet x = 1;\n```\n";
    let text = engine.render_terminal(src, 80);
    let plain = text_to_plain(&text);
    assert!(
        plain.contains("let x = 1;"),
        "plain engine should still show code: {plain:?}"
    );

    // No Rgb spans in plain mode.
    let has_rgb = text
        .lines
        .iter()
        .flat_map(|l| l.spans.iter())
        .any(|s| matches!(s.style.fg, Some(Color::Rgb(_, _, _))));

    assert!(
        !has_rgb,
        "plain engine should not produce Rgb-colored spans"
    );
}

#[test]
fn no_newlines_in_highlighted_span_content() {
    let engine = PulldownEngine::with_highlighting("base16-ocean.dark");
    let src = "```rust\nlet a = 1;\nlet b = 2;\n```\n";
    let text = engine.render_terminal(src, 80);

    for line in &text.lines {
        for span in &line.spans {
            assert!(
                !span.content.contains('\n'),
                "span must not contain newlines: {:?}",
                span.content
            );
        }
    }
}

// What the rendering looks like

#[test]
fn headings_lists_and_quotes_are_laid_out() {
    let out = render("# Title\n\ntext\n\n- one\n- two\n\n1. a\n2. b\n\n> quoted\n");
    let lines: Vec<&str> = out.lines().map(|l| l.trim()).filter(|l| !l.is_empty()).collect();
    assert_eq!(lines, vec!["# Title", "text", "● one", "● two", "1. a", "2. b", "▌ quoted", "▌"]);
}

#[test]
fn ordered_lists_count_on_around_nested_ones() {
    let out = render("7. a\n   1. x\n   2. y\n8. b\n   - z\n9. c\n");
    let lines: Vec<&str> = out.lines().map(|l| l.trim_end()).filter(|l| !l.is_empty()).collect();
    assert_eq!(lines, vec!["7. a", " 1. x", " 2. y", "8. b", " ○ z", "9. c"]);
}

#[test]
fn tables_and_tasks_need_the_extension() {
    let plain = PulldownEngine::new(EngineExtensions {
        gfm: false,
        footnotes: false,
        wiki_links: false,
    });
    let src = "~~gone~~\n";
    assert_eq!(text_to_plain(&plain.render_terminal(src, 80)).trim(), "~~gone~~");
    assert_eq!(render(src).trim(), "gone");
}

#[test]
fn wrapped_lines_fit_and_keep_their_words() {
    let text = "alpha beta gamma delta epsilon zeta eta theta iota kappa";
    for width in [5u16, 7, 11, 20, 80] {
        let lines = wrap_line(vec![raw(&text[..20]), raw(&text[20..])], width);
        let shown: Vec<String> = lines
            .iter()
            .map(|l| l.spans.iter().map(|s| s.content.as_str()).collect::<String>())
            .collect();
        for line in &shown {
            assert!(line.chars().count() <= width as usize, "{width}: {line:?}");
        }
        assert_eq!(shown.concat(), text);
        if width >= 7 {
            let words: Vec<&str> =
                shown.iter().flat_map(|l| l.split_whitespace()).collect();
            assert_eq!(words, text.split_whitespace().collect::<Vec<_>>());
        }
    }
}

#[test]
fn wrapping_breaks_at_spaces_and_keeps_them() {
    let shown = |text: &str, width: u16| -> Vec<String> {
        wrap_line(vec![raw(text)], width)
            .iter()
            .map(|l| l.spans.iter().map(|s| s.content.as_str()).collect::<String>())
            .collect()
    };
    assert_eq!(shown("abcde fgh", 5), vec!["abcde", " fgh"]);
    assert_eq!(shown(" abcde", 5), vec![" ", "abcde"]);
    assert_eq!(shown("abcde fghij", 5), vec!["abcde", " ", "fghij"]);
    assert_eq!(shown("ab cd ef", 6), vec!["ab cd ", "ef"]);
    assert_eq!(shown("abcdefg", 3), vec!["abc", "def", "g"]);
}

#[test]
fn rendered_paragraphs_fit_the_pane() {
    let engine = PulldownEngine::with_gfm();
    let src = "some words that go on and on until the line is full\n\n> and quoted words too\n";
    let text = engine.render_terminal(src, 24);
    for line in &text.lines {
        let width: usize = line.spans.iter().map(|s| s.content.chars().count()).sum();
        assert!(width <= 24, "{line:?}");
    }
}

#[test]
fn links_point_into_the_text() {
    let engine = PulldownEngine::with_gfm();
    let src = "# One\n\n[a](https://a.b)\n\n## Two\n\n[c](#one)\n";
    let (text, links) = engine.render_terminal_with_links(src, 80);
    assert_eq!(links.len(), 4);
    for link in &links.0 {
        assert!(link.source_line <= text.lines.len(), "{link:?}");
    }
}

#[test]
fn anchors_are_normalised() {
    assert_eq!(normalize_anchor("My Heading"), "my-heading");
    assert_eq!(normalize_anchor("A_b-C! (2)"), "a_b-c-2");
    assert_eq!(normalize_anchor("Über uns"), "über-uns");
}

#[test]
fn hrefs_are_classified() {
    assert!(matches!(LinkTarget::from_href("http://a"), LinkTarget::External(u) if u == "http://a"));
    assert!(matches!(LinkTarget::from_href("#a"), LinkTarget::InternalAnchor(u) if u == "a"));
    assert!(matches!(LinkTarget::from_href("a/b.md"), LinkTarget::FilePath(u) if u == "a/b.md"));
    assert_eq!(LinkTarget::from_href("#a").display_str(), "#a");
    assert_eq!(LinkTarget::WikiLink("P".to_string()).display_str(), "[[P]]");
}

#[test]
fn the_terminal_engine_shows_the_source_as_html() {
    let engine = PulldownEngine::default();
    let (text, links) = engine.render_terminal_with_links("", 80);
    assert!(text.lines.iter().all(|l| l.spans.is_empty()));
    assert!(links.is_empty());
    assert_eq!(engine.render_html("# x\n"), "<pre>\n# x\n\n</pre>");
}

#[test]
fn wrapped_lines_have_a_span_for_each_word_and_space() {
    let spans = |text: &str, width: u16| -> Vec<Vec<String>> {
        wrap_line(vec![raw(text)], width)
            .iter()
            .map(|l| l.spans.iter().map(|s| s.content.clone()).collect())
            .collect()
    };
    assert_eq!(spans("aa bb cc", 6), vec![vec!["aa", " ", "bb", " "], vec!["cc"]]);
    assert_eq!(spans("aa  bb", 5), vec![vec!["aa", " ", " "], vec!["bb"]]);
    assert_eq!(spans("abcdef g", 4), vec![vec!["abcd"], vec!["ef", " ", "g"]]);
    // A line that fits stays as it is.
    assert_eq!(spans("aa bb", 5), vec![vec!["aa bb"]]);

    let mut styled = raw("bb cc");
    styled.style.fg = Some(Color::Red);
    let lines = wrap_line(vec![raw("aa "), styled], 6);
    let colours: Vec<Option<Color>> = lines[0].spans.iter().map(|s| s.style.fg).collect();
    assert_eq!(colours, vec![None, None, Some(Color::Red), Some(Color::Red)]);
    assert_eq!(lines[1].spans[0].style.fg, Some(Color::Red));
}

#[test]
fn engines_can_be_copied() {
    let engine = PulldownEngine::with_gfm();
    let src = "~~a~~ [b](https://c.d)\n";
    assert_eq!(
        text_to_plain(&engine.clone().render_terminal(src, 80)),
        text_to_plain(&engine.render_terminal(src, 80))
    );
}
