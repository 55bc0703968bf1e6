use alloy::config::FallbackStyle;
use alloy::markdown::highlight::{
    FontStyle, Highlighter, SyntectColor, SyntectStyle, fallback_to_style,
    syntect_color_to_ratatui, syntect_fontstyle_to_modifier, syntect_style_to_ratatui,
};
use alloy::style::{Color, Modifier};

const BOLD: u8 = syntect::highlighting::FontStyle::BOLD.bits();
const ITALIC: u8 = syntect::highlighting::FontStyle::ITALIC.bits();
const UNDERLINE: u8 = syntect::highlighting::FontStyle::UNDERLINE.bits();

fn hl() -> Highlighter {
    Highlighter::load_defaults()
}

// -----------------------------------------------------------
// Color / Style conversion tests
// -----------------------------------------------------------

#[test]
fn syntect_color_maps_rgb_correctly() {
    let c = SyntectColor {
        r: 100,
        g: 150,
        b: 200,
        a: 255,
    };

    assert_eq!(syntect_color_to_ratatui(c), Color::Rgb(100, 150, 200));
}

#[test]
fn syntect_fontstyle_bold_maps_to_modifier() {
    let fs = FontStyle { bits: BOLD };

    assert!(syntect_fontstyle_to_modifier(fs).contains(Modifier::bold()));
    assert!(!syntect_fontstyle_to_modifier(fs).contains(Modifier::italic()));
}

#[test]
fn syntect_fontstyle_italic_maps_to_modifier() {
    let fs = FontStyle { bits: ITALIC };

    assert!(syntect_fontstyle_to_modifier(fs).contains(Modifier::italic()));
}

#[test]
fn syntect_fontstyle_underline_maps_to_modifier() {
    let fs = FontStyle { bits: UNDERLINE };

    assert!(syntect_fontstyle_to_modifier(fs).contains(Modifier::underlined()));
}

#[test]
fn syntect_fontstyle_combined_maps_to_modifier() {
    let fs = FontStyle { bits: BOLD | ITALIC };
    let m = syntect_fontstyle_to_modifier(fs);

    assert!(m.contains(Modifier::bold()));
    assert!(m.contains(Modifier::italic()));
    assert!(!m.contains(Modifier::underlined()));
}

#[test]
fn syntect_style_transparent_bg_not_applied() {
    let s = SyntectStyle {
        foreground: SyntectColor {
            r: 255,
            g: 255,
            b: 255,
            a: 255,
        },
        background: SyntectColor {
            r: 0,
            g: 0,
            b: 0,
            a: 0, // transparent
        },
        font_style: FontStyle { bits: 0 },
    };
    let style = syntect_style_to_ratatui(s);

    // Background should NOT be applied when alpha=0
    assert_eq!(style.bg, None);
}

#[test]
fn syntect_style_opaque_bg_applied() {
    let s = SyntectStyle {
        foreground: SyntectColor {
            r: 255,
            g: 255,
            b: 255,
            a: 255,
        },
        background: SyntectColor {
            r: 40,
            g: 44,
            b: 52,
            a: 255, // opaque
        },
        font_style: FontStyle { bits: 0 },
    };
    let style = syntect_style_to_ratatui(s);

    assert_eq!(style.bg, Some(Color::Rgb(40, 44, 52)));
}

#[test]
fn fallback_dimmed_produces_dim_modifier() {
    let s = fallback_to_style(FallbackStyle::Dimmed);

    assert!(s.add_modifier.contains(Modifier::dim()));
}

#[test]
fn fallback_plain_produces_no_modifier() {
    let s = fallback_to_style(FallbackStyle::Plain);

    assert_eq!(s.add_modifier, Modifier::empty());
}

// -----------------------------------------------------------
// highlight_block integration tests
// -----------------------------------------------------------

#[test]
fn highlight_block_empty_code_returns_empty() {
    let h = hl();
    let lines = h.highlight_block(
        "",
        Some("rust"),
        "base16-ocean.dark",
        FallbackStyle::Dimmed,
    );

    assert!(lines.is_empty());
}

#[test]
fn highlight_block_rust_produces_colored_spans() {
    let h = hl();
    let code = "fn main() {\n    println!(\"hello\");\n}\n";
    let lines = h.highlight_block(
        code,
        Some("rust"),
        "base16-ocean.dark",
        FallbackStyle::Dimmed,
    );

    // Should produce 3 lines (one per source line, trailing \n stripped)
    assert_eq!(lines.len(), 3, "expected 3 lines for 3-line Rust snippet");

    // First line should have multiple spans (tokens: "fn", " ", "main", etc.)
    assert!(
        lines[0].spans.len() > 1,
        "Rust `fn main()` line should have multiple styled tokens, got: {:?}",
        lines[0].spans
    );

    // Every span should have a non-default foreground color (syntect always assigns fg)
    for line in &lines {
        for span in &line.spans {
            assert!(
                span.style.fg.is_some(),
                "highlighted span should have explicit fg color, got: {:?}",
                span.style
            );
        }
    }
}

#[test]
fn highlight_block_python_produces_lines() {
    let h = hl();
    let code = "def greet(name: str) -> str:\n    return f\"Hello, {name}!\"\n";
    let lines = h.highlight_block(
        code,
        Some("python"),
        "base16-ocean.dark",
        FallbackStyle::Dimmed,
    );

    assert_eq!(lines.len(), 2);
}

#[test]
fn highlight_block_unknown_lang_uses_fallback() {
    let h = hl();
    let code = "some unknown language\nwith two lines\n";
    let lines = h.highlight_block(
        code,
        Some("brainfuck_xyz_does_not_exist"),
        "base16-ocean.dark",
        FallbackStyle::Dimmed,
    );

    assert_eq!(lines.len(), 2);

    // All spans should have the DIM fallback modifier
    for line in &lines {
        for span in &line.spans {
            assert!(
                span.style.add_modifier.contains(Modifier::dim()),
                "unknown lang span should have DIM modifier, got: {:?}",
                span.style
            );
        }
    }
}

#[test]
fn highlight_block_no_lang_uses_fallback() {
    let h = hl();
    let code = "plain text block\n";
    let lines = h.highlight_block(code, None, "base16-ocean.dark", FallbackStyle::Plain);

    assert_eq!(lines.len(), 1);

    // Plain fallback — no DIM modifier
    for span in &lines[0].spans {
        assert!(
            !span.style.add_modifier.contains(Modifier::dim()),
            "plain fallback should NOT have DIM modifier"
        );
    }
}

#[test]
fn highlight_block_unknown_theme_falls_back_gracefully() {
    // An unknown theme name must not panic — it silently uses FALLBACK_THEME.
    let h = hl();
    let code = "let x = 1;\n";
    let lines = h.highlight_block(
        code,
        Some("rust"),
        "ThisThemeDoesNotExist_xyz",
        FallbackStyle::Dimmed,
    );

    // Should still produce highlighted output (via FALLBACK_THEME)
    assert_eq!(lines.len(), 1);
    assert!(!lines[0].spans.is_empty());
}

#[test]
fn highlight_block_single_line_no_trailing_newline_in_spans() {
    let h = hl();
    let code = "let x = 42;\n";
    let lines = h.highlight_block(
        code,
        Some("rust"),
        "base16-ocean.dark",
        FallbackStyle::Dimmed,
    );

    // No span content should contain a raw newline character
    for line in &lines {
        for span in &line.spans {
            assert!(
                !span.content.contains('\n'),
                "span content must NOT contain newlines: {:?}",
                span.content
            );
        }
    }
}

#[test]
fn highlight_block_preserves_all_content() {
    // The concatenated plain text of all spans should equal the source code
    // (minus trailing newlines per line).
    let h = hl();
    let code = "fn add(a: i32, b: i32) -> i32 {\n    a + b\n}\n";
    let lines = h.highlight_block(
        code,
        Some("rust"),
        "base16-ocean.dark",
        FallbackStyle::Dimmed,
    );

    let reconstructed: String = lines
        .iter()
        .map(|l| {
            l.spans
                .iter()
                .map(|s| s.content.as_str())
                .collect::<String>()
        })
        .collect::<Vec<_>>()
        .join("\n");

    let expected = code.lines().collect::<Vec<_>>().join("\n");

    assert_eq!(
        reconstructed, expected,
        "reconstructed content should match source code"
    );
}

#[test]
fn every_source_line_is_shown_once() {
    let h = hl();
    for (code, lang) in [
        ("let a = 1;\n\nlet b = \"x\ny\";", Some("rust")),
        ("a\r\nb\r\n", Some("python")),
        ("x\n\n", None),
    ] {
        let lines = h.highlight_block(code, lang, "base16-ocean.dark", FallbackStyle::Plain);
        let shown: Vec<String> = lines
            .iter()
            .map(|l| l.spans.iter().map(|s| s.content.as_str()).collect())
            .collect();
        assert_eq!(shown.len(), code.lines().count(), "{code:?}");
        for (s, line) in shown.iter().zip(code.lines()) {
            assert_eq!(s.trim_end_matches('\r'), line);
        }
    }
}

#[test]
fn themes_differ() {
    let h = hl();
    let code = "fn main() {}\n";
    let dark = h.highlight_block(code, Some("rust"), "base16-ocean.dark", FallbackStyle::Plain);
    let light = h.highlight_block(code, Some("rust"), "InspiredGitHub", FallbackStyle::Plain);
    assert_ne!(dark[0].spans[0].style, light[0].spans[0].style);
}

#[test]
fn common_languages_are_known() {
    let h = hl();
    for lang in ["rust", "rs", "python", "py"] {
        let lines =
            h.highlight_block("let x = 1\n", Some(lang), "base16-ocean.dark", FallbackStyle::Plain);
        assert!(
            lines[0].spans.iter().any(|s| matches!(s.style.fg, Some(Color::Rgb(..)))),
            "{lang}"
        );
    }
}
