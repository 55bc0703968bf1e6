//! Syntax highlighting for fenced code blocks.
//!
//! A `Highlighter` owns the loaded syntaxes and themes. Both are expensive to build and never
//! change afterwards, so it is built once and shared.
//!
//! An unknown theme name falls back to "base16-ocean.dark". A missing or unknown language tag
//! renders the block in a fallback style. The code itself is always shown.
use vstd::prelude::*;

use syntect::easy::HighlightLines;
use syntect::highlighting::{Theme, ThemeSet};
use syntect::parsing::{SyntaxReference, SyntaxSet};

use crate::config::FallbackStyle;
use crate::style::{
    Color, Line, Modifier, Span, SpanView, Style, lemma_line_text_push, line_text, line_views,
    span, span_views,
};
use crate::text::{chars_of, find_char, lemma_next_char, next_char, string_of};

verus! {

// ---------------------------------------------------------------------------
// The highlighting library
// ---------------------------------------------------------------------------

#[verifier::external_type_specification]
#[verifier::external_body]
pub struct ExSyntaxSet(syntect::parsing::SyntaxSet);

#[verifier::external_type_specification]
#[verifier::external_body]
pub struct ExThemeSet(syntect::highlighting::ThemeSet);

#[verifier::external_type_specification]
#[verifier::external_body]
pub struct ExTheme(syntect::highlighting::Theme);

#[verifier::external_type_specification]
#[verifier::external_body]
pub struct ExSyntaxReference(syntect::parsing::SyntaxReference);

#[verifier::external_type_specification]
#[verifier::external_body]
pub struct ExHighlightLines<'a>(syntect::easy::HighlightLines<'a>);

/// A colour with transparency, as a theme gives it.
#[derive(Clone, Copy, Debug, PartialEq, Eq, Structural)]
pub struct SyntectColor {
    pub r: u8,
    pub g: u8,
    pub b: u8,
    pub a: u8,
}

/// A set of font attributes: bold is 1, underline is 2, italic is 4.
#[derive(Clone, Copy, Debug, PartialEq, Eq, Structural)]
pub struct FontStyle {
    pub bits: u8,
}

/// The style of a token, as a theme gives it.
#[derive(Clone, Copy, Debug, PartialEq, Eq, Structural)]
pub struct SyntectStyle {
    pub foreground: SyntectColor,
    pub background: SyntectColor,
    pub font_style: FontStyle,
}

/// A styled piece of a source line.
pub struct Token {
    pub style: SyntectStyle,
    pub text: String,
}

#[verifier::ext_equal]
pub struct TokenView {
    pub style: SyntectStyle,
    pub text: Seq<char>,
}

impl View for Token {
    type V = TokenView;

    open spec fn view(&self) -> TokenView {
        TokenView { style: self.style, text: self.text@ }
    }
}

pub open spec fn token_views(v: Seq<Token>) -> Seq<TokenView> {
    v.map_values(|t: Token| t@)
}

/// The texts of the tokens, one after the other.
pub open spec fn tokens_text(tokens: Seq<TokenView>) -> Seq<char>
    decreases tokens.len(),
{
    if tokens.len() == 0 {
        Seq::empty()
    } else {
        tokens_text(tokens.drop_last()) + tokens.last().text
    }
}

/// The theme that a theme set holds under a name.
pub uninterp spec fn theme_named(themes: ThemeSet, name: Seq<char>) -> Option<Theme>;

/// What `SyntaxSet::find_syntax_by_token` finds for a file extension or a language name.
pub uninterp spec fn syntax_for_token(syntaxes: SyntaxSet, token: Seq<char>) -> Option<
    SyntaxReference,
>;

/// The state in which `HighlightLines::new` starts.
pub uninterp spec fn highlight_start(syntax: SyntaxReference, theme: Theme) -> HighlightLines<
    'static,
>;

/// The state in which `HighlightLines::highlight_line` leaves a highlighter.
pub uninterp spec fn highlight_after(
    state: HighlightLines<'static>,
    line: Seq<char>,
    syntaxes: SyntaxSet,
) -> HighlightLines<'static>;

/// The tokens that `HighlightLines::highlight_line` returns; `None` where it returns an error.
pub uninterp spec fn highlight_tokens(
    state: HighlightLines<'static>,
    line: Seq<char>,
    syntaxes: SyntaxSet,
) -> Option<Seq<TokenView>>;

/// The state of a highlighter that has read `lines`.
pub open spec fn highlight_run(
    syntaxes: SyntaxSet,
    syntax: SyntaxReference,
    theme: Theme,
    lines: Seq<Seq<char>>,
) -> HighlightLines<'static>
    decreases lines.len(),
{
    if lines.len() == 0 {
        highlight_start(syntax, theme)
    } else {
        highlight_after(
            highlight_run(syntaxes, syntax, theme, lines.drop_last()),
            lines.last(),
            syntaxes,
        )
    }
}

/// What a highlighter returns for `lines[i]` after the lines before it.
pub open spec fn highlighted(
    syntaxes: SyntaxSet,
    syntax: SyntaxReference,
    theme: Theme,
    lines: Seq<Seq<char>>,
    i: int,
) -> Option<Seq<TokenView>> {
    highlight_tokens(highlight_run(syntaxes, syntax, theme, lines.take(i)), lines[i], syntaxes)
}

/// The highlighter returned no error for any of `lines`.
pub open spec fn highlight_clean(
    syntaxes: SyntaxSet,
    syntax: SyntaxReference,
    theme: Theme,
    lines: Seq<Seq<char>>,
) -> bool {
    forall|i: int|
        0 <= i < lines.len() ==> #[trigger] highlighted(syntaxes, syntax, theme, lines, i) is Some
}

/// `syntax` is one of the syntaxes of `syntaxes`.
pub open spec fn is_syntax_of(syntaxes: SyntaxSet, syntax: SyntaxReference) -> bool {
    exists|token: Seq<char>| #[trigger] syntax_for_token(syntaxes, token) == Some(syntax)
}

/// The syntax set knows Rust and Python, by their names and by their file extensions.
pub open spec fn knows_common_languages(syntaxes: SyntaxSet) -> bool {
    &&& syntax_for_token(syntaxes, "rust"@) is Some
    &&& syntax_for_token(syntaxes, "rs"@) is Some
    &&& syntax_for_token(syntaxes, "python"@) is Some
    &&& syntax_for_token(syntaxes, "py"@) is Some
}

/// The theme set holds the bundled themes.
pub open spec fn holds_bundled_themes(themes: ThemeSet) -> bool {
    &&& theme_named(themes, "base16-ocean.dark"@) is Some
    &&& theme_named(themes, "base16-eighties.dark"@) is Some
    &&& theme_named(themes, "base16-mocha.dark"@) is Some
    &&& theme_named(themes, "base16-ocean.light"@) is Some
    &&& theme_named(themes, "InspiredGitHub"@) is Some
    &&& theme_named(themes, "Solarized (dark)"@) is Some
    &&& theme_named(themes, "Solarized (light)"@) is Some
}

/// `SyntaxSet::load_defaults_newlines`: the bundled syntaxes, of which Rust and Python are two.
/// Which other ones there are is left unsaid.
#[verifier::external_body]
fn load_syntaxes() -> (r: SyntaxSet)
    ensures
        knows_common_languages(r),
{
    SyntaxSet::load_defaults_newlines()
}

/// `ThemeSet::load_defaults`: the bundled themes.
#[verifier::external_body]
fn load_themes() -> (r: ThemeSet)
    ensures
        holds_bundled_themes(r),
{
    ThemeSet::load_defaults()
}

/// `BTreeMap::get` on the public map `ThemeSet::themes`: the theme with that name, if any.
#[verifier::external_body]
fn find_theme<'a>(themes: &'a ThemeSet, name: &str) -> (r: Option<&'a Theme>)
    ensures
        match r {
            Some(t) => theme_named(*themes, name@) == Some(*t),
            None => theme_named(*themes, name@) is None,
        },
{
    themes.themes.get(name)
}

/// `SyntaxSet::find_syntax_by_token`: the result depends on the set and the token alone.
#[verifier::external_body]
fn find_syntax<'a>(syntaxes: &'a SyntaxSet, token: &str) -> (r: Option<&'a SyntaxReference>)
    ensures
        match r {
            Some(s) => syntax_for_token(*syntaxes, token@) == Some(*s),
            None => syntax_for_token(*syntaxes, token@) is None,
        },
{
    syntaxes.find_syntax_by_token(token)
}

/// `HighlightLines::new`: a highlighter at the start of a text. The syntax must come from a
/// syntax set.
#[verifier::external_body]
fn start_highlighting<'a>(syntax: &SyntaxReference, theme: &'a Theme) -> (r: HighlightLines<'a>)
    requires
        exists|syntaxes: SyntaxSet| #[trigger] is_syntax_of(syntaxes, *syntax),
    ensures
        r == highlight_start(*syntax, *theme),
{
    HighlightLines::new(syntax, theme)
}

/// `HighlightLines::highlight_line`: reads one line. The tokens and the new state depend on the
/// state before, the line and the syntax set. As long as no line gave an error the tokens
/// together make up the line.
///
/// The syntax set must be the one with which the highlighter was started and has read every line
/// so far.
#[verifier::external_body]
fn highlight_line(state: &mut HighlightLines<'_>, line: &str, syntaxes: &SyntaxSet) -> (r: Option<
    Vec<Token>,
>)
    requires
        exists|syntax: SyntaxReference, theme: Theme, lines: Seq<Seq<char>>|
            is_syntax_of(*syntaxes, syntax) && *old(state) == #[trigger] highlight_run(
                *syntaxes,
                syntax,
                theme,
                lines,
            ),
    ensures
        *final(state) == highlight_after(*old(state), line@, *syntaxes),
        match r {
            Some(tokens) => highlight_tokens(*old(state), line@, *syntaxes) == Some(
                token_views(tokens@),
            ),
            None => highlight_tokens(*old(state), line@, *syntaxes) is None,
        },
        forall|syntax: SyntaxReference, theme: Theme, lines: Seq<Seq<char>>|
            *old(state) == #[trigger] highlight_run(*syntaxes, syntax, theme, lines)
                && highlight_clean(*syntaxes, syntax, theme, lines) ==> (r matches Some(tokens)
                ==> tokens_text(token_views(tokens@)) == line@),
{
    let ranges = state.highlight_line(line, syntaxes).ok()?;
    Some(ranges.into_iter().map(|(s, text)| Token {
        style: SyntectStyle {
            foreground: SyntectColor { r: s.foreground.r, g: s.foreground.g, b: s.foreground.b, a: s.foreground.a },
            background: SyntectColor { r: s.background.r, g: s.background.g, b: s.background.b, a: s.background.a },
            font_style: FontStyle { bits: s.font_style.bits() },
        },
        text: text.to_owned(),
    }).collect())
}


// ---------------------------------------------------------------------------
// Conversions
// ---------------------------------------------------------------------------

/// A theme colour without its transparency.
#[verifier::allow_in_spec]
pub fn syntect_color_to_ratatui(c: SyntectColor) -> Color
    returns
        Color::Rgb(c.r, c.g, c.b),
{
    Color::Rgb(c.r, c.g, c.b)
}

#[verifier::allow_in_spec]
pub fn syntect_fontstyle_to_modifier(fs: FontStyle) -> Modifier
    returns
        (Modifier {
            bold: fs.bits & 1 != 0,
            italic: fs.bits & 4 != 0,
            underlined: fs.bits & 2 != 0,
            ..Modifier::empty()
        }),
{
    Modifier {
        bold: fs.bits & 1 != 0,
        italic: fs.bits & 4 != 0,
        underlined: fs.bits & 2 != 0,
        ..Modifier::empty()
    }
}

/// A theme style as a terminal style. A fully transparent background is not applied.
#[verifier::allow_in_spec]
pub fn syntect_style_to_ratatui(s: SyntectStyle) -> Style
    returns
        (Style {
            fg: Some(syntect_color_to_ratatui(s.foreground)),
            bg: if s.background.a > 0 {
                Some(syntect_color_to_ratatui(s.background))
            } else {
                None
            },
            add_modifier: syntect_fontstyle_to_modifier(s.font_style),
        }),
{
    let fg = syntect_color_to_ratatui(s.foreground);
    let modifier = syntect_fontstyle_to_modifier(s.font_style);
    let mut style = Style::plain().fg(fg).add_modifier(modifier);
    if s.background.a > 0 {
        style = style.bg(syntect_color_to_ratatui(s.background));
    }
    style
}

/// The style of code in an unknown language.
#[verifier::allow_in_spec]
pub fn fallback_to_style(f: FallbackStyle) -> Style
    returns
        (match f {
            FallbackStyle::Dimmed => Style::plain().fg(Color::Gray).add_modifier(Modifier::dim()),
            FallbackStyle::Plain => Style::plain().fg(Color::White),
        }),
{
    match f {
        FallbackStyle::Dimmed => Style::plain().fg(Color::Gray).add_modifier(Modifier::dim()),
        FallbackStyle::Plain => Style::plain().fg(Color::White),
    }
}

// ---------------------------------------------------------------------------
// Lines
// ---------------------------------------------------------------------------

/// The lines of a text from position `from` on, each with its line feed where it has one.
pub open spec fn full_lines_from(s: Seq<char>, from: int) -> Seq<Seq<char>>
    decreases s.len() - from,
{
    let i = next_char(s, '\n', from);
    if from < 0 || from >= s.len() {
        Seq::empty()
    } else if i >= s.len() || i < from {
        seq![s.skip(from)]
    } else {
        seq![s.subrange(from, i + 1)] + full_lines_from(s, i + 1)
    }
}

/// The lines of a text, each with its line feed where it has one.
pub open spec fn full_lines(s: Seq<char>) -> Seq<Seq<char>> {
    full_lines_from(s, 0)
}

/// `s` without the line feeds at its end.
pub open spec fn without_newlines(s: Seq<char>) -> Seq<char>
    decreases s.len(),
{
    if s.len() > 0 && s.last() == '\n' {
        without_newlines(s.drop_last())
    } else {
        s
    }
}

/// The part of `visible` that each token covers, in the token's style.
pub open spec fn token_spans(tokens: Seq<TokenView>, visible: Seq<char>) -> Seq<SpanView>
    decreases tokens.len(),
{
    if tokens.len() == 0 {
        Seq::empty()
    } else {
        let front = token_spans(tokens.drop_last(), visible);
        let from = tokens_text(tokens.drop_last()).len() as int;
        let end = from + tokens.last().text.len();
        let to = if end < visible.len() { end } else { visible.len() as int };
        if from < to {
            front.push(
                span(visible.subrange(from, to), syntect_style_to_ratatui(tokens.last().style)),
            )
        } else {
            front
        }
    }
}

/// A highlighted line: its tokens, or the bare line where the highlighter returned an error.
pub open spec fn highlighted_line(tokens: Option<Seq<TokenView>>, line: Seq<char>) -> Seq<
    SpanView,
> {
    match tokens {
        Some(tokens) => token_spans(tokens, without_newlines(line)),
        None => seq![span(without_newlines(line), Style::plain())],
    }
}

/// A block of code in one style.
pub open spec fn plain_block(code: Seq<char>, style: Style) -> Seq<Seq<SpanView>> {
    full_lines(code).map_values(|line: Seq<char>| seq![span(without_newlines(line), style)])
}

/// A block of code with highlighting.
pub open spec fn highlighted_block(
    syntaxes: SyntaxSet,
    syntax: SyntaxReference,
    theme: Theme,
    code: Seq<char>,
) -> Seq<Seq<SpanView>> {
    Seq::new(
        full_lines(code).len(),
        |i: int|
            highlighted_line(
                highlighted(syntaxes, syntax, theme, full_lines(code), i),
                full_lines(code)[i],
            ),
    )
}

proof fn lemma_without_newlines_len(s: Seq<char>)
    ensures
        without_newlines(s).len() <= s.len(),
        without_newlines(s) == s.take(without_newlines(s).len() as int),
    decreases s.len(),
{
    if s.len() > 0 && s.last() == '\n' {
        lemma_without_newlines_len(s.drop_last());
        let t = without_newlines(s);
        assert(s.drop_last().take(t.len() as int) =~= s.take(t.len() as int));
    } else {
        assert(s.take(s.len() as int) =~= s);
    }
}

/// The shown line holds exactly the source line without its line feed.
pub open spec fn shows_line(shown: Seq<SpanView>, source: Seq<char>) -> bool {
    line_text(shown) == without_newlines(source)
}

/// The shown lines hold exactly the source lines without their line feeds.
pub open spec fn shows(shown: Seq<Seq<SpanView>>, source: Seq<Seq<char>>) -> bool {
    &&& shown.len() == source.len()
    &&& forall|k: int|
        0 <= k < source.len() ==> shows_line(#[trigger] shown[k], source[k])
}

proof fn lemma_one_span_text(s: SpanView)
    ensures
        line_text(seq![s]) == s.content,
{
    reveal_with_fuel(line_text, 2);
    assert(seq![s].drop_last() =~= Seq::<SpanView>::empty());
    assert(line_text(seq![s]) =~= s.content);
}

/// The spans of a line show what its tokens cover.
proof fn lemma_token_spans_text(tokens: Seq<TokenView>, visible: Seq<char>)
    ensures
        line_text(token_spans(tokens, visible)) == visible.take(
            if tokens_text(tokens).len() < visible.len() {
                tokens_text(tokens).len() as int
            } else {
                visible.len() as int
            },
        ),
    decreases tokens.len(),
{
    if tokens.len() == 0 {
        assert(visible.take(0) =~= Seq::<char>::empty());
    } else {
        lemma_token_spans_text(tokens.drop_last(), visible);
        let from = tokens_text(tokens.drop_last()).len() as int;
        let end = from + tokens.last().text.len();
        let to = if end < visible.len() { end } else { visible.len() as int };
        if from < to {
            let part = span(
                visible.subrange(from, to),
                syntect_style_to_ratatui(tokens.last().style),
            );
            lemma_line_text_push(token_spans(tokens.drop_last(), visible), part);
            assert(visible.take(from) + visible.subrange(from, to) =~= visible.take(to));
        }
    }
}

fn strip_newlines(line: &str) -> (r: String)
    ensures
        r@ == without_newlines(line@),
{
    let v = chars_of(line);
    let mut to: usize = v.len();
    assert(line@.take(to as int) =~= line@);
    while to > 0 && v[to - 1] == '\n'
        invariant
            v@ == line@,
            to <= v@.len(),
            without_newlines(line@) == without_newlines(line@.take(to as int)),
        decreases to,
    {
        assert(line@.take(to as int).drop_last() =~= line@.take(to - 1));
        assert(line@.take(to as int).last() == line@[to - 1]);
        to = to - 1;
    }
    assert(to > 0 ==> line@.take(to as int).last() == line@[to - 1]);
    assert(line@.take(to as int) =~= line@.subrange(0, to as int));
    string_of(&v, 0, to)
}

/// The spans of a highlighted line.
///
/// The tokens cover the whole line with its line feed. Each span is the part of `stripped_line`
/// that a token covers; what a token covers behind its end is not shown.
pub fn build_spans_for_line(tokens: &Vec<Token>, stripped_line: &str) -> (r: Vec<Span>)
    ensures
        span_views(r@) == token_spans(token_views(tokens@), stripped_line@),
{
    let visible = chars_of(stripped_line);
    let mut r: Vec<Span> = Vec::new();
    let mut pos: usize = 0;
    let mut i: usize = 0;
    let ghost all = token_views(tokens@);
    assert(all.take(0) =~= Seq::<TokenView>::empty());
    assert(span_views(r@) =~= Seq::<SpanView>::empty());
    while i < tokens.len()
        invariant
            i <= tokens@.len(),
            visible@ == stripped_line@,
            all == token_views(tokens@),
            pos <= visible.len(),
            pos < visible.len() ==> pos == tokens_text(all.take(i as int)).len(),
            pos == visible.len() ==> tokens_text(all.take(i as int)).len() >= pos,
            span_views(r@) == token_spans(all.take(i as int), visible@),
        decreases tokens@.len() - i,
    {
        let n: usize = chars_of(tokens[i].text.as_str()).len();
        proof {
            assert(all.take(i + 1).drop_last() =~= all.take(i as int));
            assert(all.take(i + 1).last() == tokens@[i as int]@);
        }
        let available: usize = visible.len() - pos;
        let shown: usize = if n < available { n } else { available };
        if shown > 0 {
            let piece = Span::styled(
                string_of(&visible, pos, pos + shown),
                syntect_style_to_ratatui(tokens[i].style),
            );
            let ghost before = r@;
            let ghost piece_view = piece@;
            r.push(piece);
            assert(span_views(r@) =~= span_views(before).push(piece_view));
        }
        pos = pos + shown;
        i = i + 1;
    }
    assert(all.take(tokens@.len() as int) =~= all);
    r
}

fn split_full_lines(code: &str) -> (r: Vec<String>)
    ensures
        crate::text::views(r@) == full_lines(code@),
{
    let v = chars_of(code);
    let mut out: Vec<String> = Vec::new();
    let mut from: usize = 0;
    while from < v.len()
        invariant
            v@ == code@,
            from <= v@.len(),
            crate::text::views(out@) + full_lines_from(code@, from as int) == full_lines(code@),
        decreases v@.len() - from,
    {
        let i: usize = find_char(&v, '\n', from);
        proof {
            lemma_next_char(code@, '\n', from as int);
        }
        let next: usize = if i < v.len() { i + 1 } else { i };
        let piece = string_of(&v, from, next);
        let ghost before = out@;
        let ghost piece_view = piece@;
        out.push(piece);
        assert(crate::text::views(out@) =~= crate::text::views(before).push(piece_view));
        proof {
            if i == v.len() {
                assert(piece_view =~= code@.skip(from as int));
            }
            assert(crate::text::views(out@) + full_lines_from(code@, next as int)
                =~= crate::text::views(before) + full_lines_from(code@, from as int));
        }
        from = next;
    }
    assert(crate::text::views(out@) =~= crate::text::views(out@) + full_lines_from(
        code@,
        from as int,
    ));
    out
}

// ---------------------------------------------------------------------------
// Highlighter
// ---------------------------------------------------------------------------

/// The loaded syntaxes and themes.
#[derive(Debug)]
pub struct Highlighter {
    syntax_set: SyntaxSet,
    theme_set: ThemeSet,
}

impl Highlighter {
    #[verifier::type_invariant]
    spec fn has_fallback_theme(self) -> bool {
        theme_named(self.theme_set, "base16-ocean.dark"@) is Some
    }

    pub closed spec fn syntaxes(self) -> SyntaxSet {
        self.syntax_set
    }

    pub closed spec fn themes(self) -> ThemeSet {
        self.theme_set
    }

    /// The theme used for a name: that theme, or "base16-ocean.dark" where there is none.
    pub open spec fn theme(self, name: Seq<char>) -> Theme {
        match theme_named(self.themes(), name) {
            Some(t) => t,
            None => theme_named(self.themes(), "base16-ocean.dark"@)->0,
        }
    }

    /// The syntax used for a language tag.
    pub open spec fn syntax(self, lang: Option<Seq<char>>) -> Option<SyntaxReference> {
        match lang {
            Some(l) => syntax_for_token(self.syntaxes(), l),
            None => None,
        }
    }

    /// What is shown for a block of code.
    pub open spec fn block(
        self,
        code: Seq<char>,
        lang: Option<Seq<char>>,
        theme_name: Seq<char>,
        fallback: FallbackStyle,
    ) -> Seq<Seq<SpanView>> {
        match self.syntax(lang) {
            Some(syntax) => highlighted_block(
                self.syntaxes(),
                syntax,
                self.theme(theme_name),
                code,
            ),
            None => plain_block(code, fallback_to_style(fallback)),
        }
    }

    /// The highlighter returns no error for any line before line `k`. Code in no known language is
    /// not read by it.
    pub open spec fn reads_up_to(
        self,
        code: Seq<char>,
        lang: Option<Seq<char>>,
        theme_name: Seq<char>,
        k: int,
    ) -> bool {
        self.syntax(lang) matches Some(syntax) ==> highlight_clean(
            self.syntaxes(),
            syntax,
            self.theme(theme_name),
            full_lines(code).take(k),
        )
    }

    /// Loads the bundled syntaxes and themes.
    pub fn load_defaults() -> (r: Highlighter)
        ensures
            holds_bundled_themes(r.themes()),
            knows_common_languages(r.syntaxes()),
    {
        Highlighter { syntax_set: load_syntaxes(), theme_set: load_themes() }
    }

    /// Highlights `code` for the language tag `lang` with the theme `theme_name`.
    ///
    /// Each line of `code` gives exactly one line. An unknown theme name stands for
    /// "base16-ocean.dark". A missing or unknown language renders the code in the fallback style.
    /// Each line is shown whole, up to the first one for which the highlighter returns an error and
    /// with that one.
    pub fn highlight_block(
        &self,
        code: &str,
        lang: Option<&str>,
        theme_name: &str,
        fallback_style: FallbackStyle,
    ) -> (r: Vec<Line>)
        ensures
            line_views(r@) == self.block(
                code@,
                match lang {
                    Some(l) => Some(l@),
                    None => None,
                },
                theme_name@,
                fallback_style,
            ),
            r@.len() == full_lines(code@).len(),
            forall|k: int|
                0 <= k < r@.len() && self.reads_up_to(
                    code@,
                    match lang {
                        Some(l) => Some(l@),
                        None => None,
                    },
                    theme_name@,
                    k,
                ) ==> shows_line(#[trigger] r@[k]@, full_lines(code@)[k]),
    {
        proof {
            use_type_invariant(self);
        }
        let theme = match find_theme(&self.theme_set, theme_name) {
            Some(t) => t,
            None => match find_theme(&self.theme_set, "base16-ocean.dark") {
                Some(t) => t,
                None => {
                    return Vec::new();
                },
            },
        };
        let syntax = match lang {
            Some(l) => find_syntax(&self.syntax_set, l),
            None => None,
        };
        match syntax {
            Some(syntax) => {
                proof {
                    assert(is_syntax_of(self.syntax_set, *syntax));
                }
                let mut state = start_highlighting(syntax, theme);
                self.render_highlighted(code, &mut state, Ghost(*syntax), Ghost(*theme))
            },
            None => {
                let r = Self::render_plain(code, fallback_style);
                assert forall|k: int| 0 <= k < r@.len() implies shows_line(
                    #[trigger] r@[k]@,
                    full_lines(code@)[k],
                ) by {
                    assert(line_views(r@)[k] == r@[k]@);
                }
                r
            },
        }
    }

    /// Renders code token by token, from the first line on.
    fn render_highlighted(
        &self,
        code: &str,
        state: &mut HighlightLines<'_>,
        Ghost(syntax): Ghost<SyntaxReference>,
        Ghost(theme): Ghost<Theme>,
    ) -> (r: Vec<Line>)
        requires
            is_syntax_of(self.syntaxes(), syntax),
            *old(state) == highlight_start(syntax, theme),
        ensures
            line_views(r@) == highlighted_block(self.syntaxes(), syntax, theme, code@),
            r@.len() == full_lines(code@).len(),
            forall|k: int|
                0 <= k < r@.len() && highlight_clean(
                    self.syntaxes(),
                    syntax,
                    theme,
                    full_lines(code@).take(k),
                ) ==> shows_line(#[trigger] r@[k]@, full_lines(code@)[k]),
    {
        let lines = split_full_lines(code);
        let ghost all = full_lines(code@);
        let ghost goal = highlighted_block(self.syntaxes(), syntax, theme, code@);
        let mut out: Vec<Line> = Vec::new();
        let mut i: usize = 0;
        assert(all.take(0) =~= Seq::<Seq<char>>::empty());
        assert(line_views(out@) =~= goal.take(0));
        while i < lines.len()
            invariant
                i <= lines@.len(),
                all == full_lines(code@),
                all == crate::text::views(lines@),
                is_syntax_of(self.syntaxes(), syntax),
                *state == highlight_run(self.syntaxes(), syntax, theme, all.take(i as int)),
                goal == highlighted_block(self.syntaxes(), syntax, theme, code@),
                line_views(out@) == goal.take(i as int),
                forall|k: int|
                    0 <= k < i && highlight_clean(self.syntaxes(), syntax, theme, all.take(k))
                        ==> shows_line(#[trigger] goal[k], all[k]),
            decreases lines@.len() - i,
        {
            let stripped = strip_newlines(lines[i].as_str());
            assert(lines@[i as int]@ == all[i as int]);
            let ghost before = out@;
            proof {
                lemma_without_newlines_len(all[i as int]);
                lemma_one_span_text(span(stripped@, Style::plain()));
            }
            let line = match highlight_line(state, lines[i].as_str(), &self.syntax_set) {
                Some(tokens) => {
                    proof {
                        lemma_token_spans_text(token_views(tokens@), stripped@);
                        assert(stripped@.take(stripped@.len() as int) =~= stripped@);
                    }
                    Line::from_spans(build_spans_for_line(&tokens, stripped.as_str()))
                },
                None => Line::of(stripped, Style::plain()),
            };
            let ghost line_view = line@;
            out.push(line);
            i = i + 1;
            proof {
                assert(all.take(i as int).drop_last() =~= all.take(i - 1));
                assert(goal.take(i as int) =~= goal.take(i - 1).push(goal[i - 1]));
                assert(line_views(out@) =~= line_views(before).push(line_view));
            }
        }
        assert(goal.take(lines@.len() as int) =~= goal);
        assert forall|k: int| 0 <= k < out@.len() implies #[trigger] out@[k]@ == goal[k] by {
            assert(line_views(out@)[k] == out@[k]@);
        }
        out
    }

    /// Renders code as plain text in the fallback style.
    fn render_plain(code: &str, fallback: FallbackStyle) -> (r: Vec<Line>)
        ensures
            line_views(r@) == plain_block(code@, fallback_to_style(fallback)),
            shows(line_views(r@), full_lines(code@)),
    {
        let style = fallback_to_style(fallback);
        let lines = split_full_lines(code);
        let ghost goal = plain_block(code@, style);
        let mut out: Vec<Line> = Vec::new();
        let mut i: usize = 0;
        assert(line_views(out@) =~= goal.take(0));
        while i < lines.len()
            invariant
                i <= lines@.len(),
                full_lines(code@) == crate::text::views(lines@),
                goal == plain_block(code@, style),
                line_views(out@) == goal.take(i as int),
            decreases lines@.len() - i,
        {
            let ghost before = out@;
            let line = Line::of(strip_newlines(lines[i].as_str()), style);
            let ghost line_view = line@;
            out.push(line);
            i = i + 1;
            proof {
                assert(goal.take(i as int) =~= goal.take(i - 1).push(goal[i - 1]));
                assert(line_views(out@) =~= line_views(before).push(line_view));
            }
        }
        assert(goal.take(lines@.len() as int) =~= goal);
        proof {
            assert forall|k: int| 0 <= k < goal.len() implies shows_line(
                #[trigger] goal[k],
                full_lines(code@)[k],
            ) by {
                lemma_one_span_text(span(without_newlines(full_lines(code@)[k]), style));
            }
        }
        out
    }
}

// ---------------------------------------------------------------------------
// Laws
// ---------------------------------------------------------------------------

proof fn lemma_full_line(s: Seq<char>, from: int, k: int)
    requires
        0 <= from <= s.len(),
        0 <= k < full_lines_from(s, from).len(),
    ensures
        !without_newlines(full_lines_from(s, from)[k]).contains('\n'),
    decreases s.len() - from,
{
    lemma_next_char(s, '\n', from);
    let i = next_char(s, '\n', from);
    let lines = full_lines_from(s, from);
    if i < s.len() && from < s.len() {
        if k == 0 {
            let line = s.subrange(from, i + 1);
            assert(lines[0] == line);
            assert(line.last() == '\n');
            let cut = line.drop_last();
            assert(cut =~= s.subrange(from, i));
            assert(!cut.contains('\n'));
            assert(cut.len() > 0 ==> cut.last() == s[i - 1]);
            assert(without_newlines(line) == without_newlines(cut));
            assert(without_newlines(cut) == cut);
        } else {
            assert(lines[k] == full_lines_from(s, i + 1)[k - 1]);
            lemma_full_line(s, i + 1, k - 1);
        }
    } else {
        let line = s.skip(from);
        assert(lines[k] == line);
        assert(!line.contains('\n'));
        assert(line.len() > 0 ==> line.last() != '\n');
    }
}

/// A highlighted block has one line per line of code.
pub proof fn law_one_line_per_source_line(
    highlighter: Highlighter,
    code: Seq<char>,
    lang: Option<Seq<char>>,
    theme_name: Seq<char>,
    fallback: FallbackStyle,
)
    ensures
        highlighter.block(code, lang, theme_name, fallback).len() == full_lines(code).len(),
{
}

/// A highlighter that returns no error for any line of a block reads the block to its end, so that
/// every line of it is shown whole.
pub proof fn law_clean_blocks_are_read_to_the_end(
    highlighter: Highlighter,
    code: Seq<char>,
    syntax: SyntaxReference,
    lang: Option<Seq<char>>,
    theme_name: Seq<char>,
    k: int,
)
    requires
        highlighter.syntax(lang) == Some(syntax),
        highlight_clean(
            highlighter.syntaxes(),
            syntax,
            highlighter.theme(theme_name),
            full_lines(code),
        ),
        0 <= k <= full_lines(code).len(),
    ensures
        highlighter.reads_up_to(code, lang, theme_name, k),
{
    let lines = full_lines(code);
    let theme = highlighter.theme(theme_name);
    assert forall|i: int| 0 <= i < k implies #[trigger] highlighted(
        highlighter.syntaxes(),
        syntax,
        theme,
        lines.take(k),
        i,
    ) is Some by {
        assert(lines.take(k).take(i) =~= lines.take(i));
        assert(highlighted(highlighter.syntaxes(), syntax, theme, lines, i) is Some);
    }
}

/// No shown line of code holds a line feed.
pub proof fn law_no_line_feed_is_shown(
    highlighter: Highlighter,
    code: Seq<char>,
    lang: Option<Seq<char>>,
    theme_name: Seq<char>,
    fallback: FallbackStyle,
    k: int,
)
    requires
        0 <= k < full_lines(code).len(),
    ensures
        !line_text(highlighter.block(code, lang, theme_name, fallback)[k]).contains('\n'),
{
    let line = full_lines(code)[k];
    let bare = without_newlines(line);
    lemma_full_line(code, 0, k);
    match highlighter.syntax(lang) {
        Some(syntax) => {
            match highlighted(
                highlighter.syntaxes(),
                syntax,
                highlighter.theme(theme_name),
                full_lines(code),
                k,
            ) {
                Some(tokens) => {
                    lemma_token_spans_text(tokens, bare);
                    let shown = line_text(token_spans(tokens, bare));
                    assert(forall|j: int| 0 <= j < shown.len() ==> shown[j] == bare[j]);
                },
                None => {
                    lemma_one_span_text(span(bare, Style::plain()));
                },
            }
        },
        None => {
            lemma_one_span_text(span(bare, fallback_to_style(fallback)));
        },
    }
}

proof fn lemma_full_lines_behind(front: Seq<char>, s: Seq<char>, from: int)
    requires
        0 <= from <= s.len(),
    ensures
        full_lines_from(front + s, front.len() + from) == full_lines_from(s, from),
    decreases s.len() - from,
{
    let all = front + s;
    let n = front.len() as int;
    lemma_next_char(s, '\n', from);
    lemma_next_char(all, '\n', n + from);
    let i = next_char(s, '\n', from);
    let k = next_char(all, '\n', n + from);
    if i < s.len() {
        assert(all[n + i] == s[i]);
        if k < n + i {
            assert(all[k] == s[k - n]);
        }
        assert(k == n + i);
        lemma_full_lines_behind(front, s, i + 1);
        assert(all.subrange(n + from, n + i + 1) =~= s.subrange(from, i + 1));
    } else {
        if k < all.len() {
            assert(all[k] == s[k - n]);
        }
        assert(all.skip(n + from) =~= s.skip(from));
    }
}

/// Code in no known language is shown as it is, line by line: the first line without its line feed,
/// and then the lines behind it.
pub proof fn law_plain_code_is_shown_as_it_is(
    highlighter: Highlighter,
    line: Seq<char>,
    rest: Seq<char>,
    theme_name: Seq<char>,
    fallback: FallbackStyle,
)
    requires
        !line.contains('\n'),
    ensures
        ({
            let all = highlighter.block(line.push('\n') + rest, None, theme_name, fallback);
            let tail = highlighter.block(rest, None, theme_name, fallback);
            &&& all.len() == tail.len() + 1
            &&& line_text(all[0]) == line
            &&& all.skip(1) == tail
        }),
        line.len() > 0 ==> ({
            let one = highlighter.block(line, None, theme_name, fallback);
            one.len() == 1 && line_text(one[0]) == line
        }),
        highlighter.block(Seq::empty(), None, theme_name, fallback).len() == 0,
{
    let front = line.push('\n');
    let s = front + rest;
    lemma_next_char(s, '\n', 0);
    let i = next_char(s, '\n', 0);
    assert(s[line.len() as int] == '\n');
    if i < line.len() {
        assert(s[i] == line[i]);
        assert(line.contains('\n'));
    }
    assert(s.subrange(0, i + 1) =~= front);
    lemma_full_lines_behind(front, rest, 0);
    assert(full_lines(s) == seq![front] + full_lines(rest));
    assert(front.drop_last() =~= line);
    assert(line.len() > 0 ==> line.contains(line.last()));
    assert(without_newlines(line) == line);
    assert(without_newlines(front) == line);
    let style = fallback_to_style(fallback);
    let all = highlighter.block(s, None, theme_name, fallback);
    assert(all[0] == seq![span(line, style)]);
    lemma_one_span_text(span(line, style));
    assert(all.skip(1) =~= highlighter.block(rest, None, theme_name, fallback));
    if line.len() > 0 {
        lemma_next_char(line, '\n', 0);
        let k = next_char(line, '\n', 0);
        if k < line.len() {
            assert(line.contains('\n'));
        }
        assert(line.skip(0) =~= line);
        assert(full_lines(line) =~= seq![line]);
    }
}

/// Every token of a line is shown with its own text in its own style, in the order of the tokens.
pub proof fn law_tokens_are_shown_in_their_style(tokens: Seq<TokenView>, visible: Seq<char>, i: int)
    requires
        0 <= i < tokens.len(),
        forall|k: int| 0 <= k < tokens.len() ==> (#[trigger] tokens[k]).text.len() > 0,
        tokens_text(tokens).is_prefix_of(visible),
    ensures
        token_spans(tokens, visible).len() == tokens.len(),
        token_spans(tokens, visible)[i].content == tokens[i].text,
        token_spans(tokens, visible)[i].style == syntect_style_to_ratatui(tokens[i].style),
    decreases tokens.len(),
{
    let front = tokens.drop_last();
    let before = tokens_text(front);
    let last = tokens[tokens.len() - 1];
    let all = tokens_text(tokens);
    assert(all == before + last.text);
    assert(all =~= visible.subrange(0, all.len() as int));
    assert(before =~= visible.subrange(0, before.len() as int)) by {
        assert forall|k: int| 0 <= k < before.len() implies before[k] == visible[k] by {
            assert(all[k] == before[k]);
        }
    }
    assert(last.text =~= visible.subrange(before.len() as int, all.len() as int)) by {
        assert forall|k: int| 0 <= k < last.text.len() implies last.text[k] == visible[before.len()
            + k] by {
            assert(all[before.len() + k] == last.text[k]);
        }
    }
    assert forall|k: int| 0 <= k < front.len() implies (#[trigger] front[k]).text.len() > 0 by {
        assert(front[k] == tokens[k]);
    }
    if front.len() > 0 {
        let j = if i < front.len() {
            i
        } else {
            0
        };
        law_tokens_are_shown_in_their_style(front, visible, j);
        if i < front.len() {
            assert(token_spans(tokens, visible)[i] == token_spans(front, visible)[i]);
        }
    }
}

/// The colours of the theme are shown as they are; a background that cannot be seen is left out.
pub proof fn law_theme_colours_are_kept(s: SyntectStyle)
    ensures
        syntect_style_to_ratatui(s).fg == Some(
            Color::Rgb(s.foreground.r, s.foreground.g, s.foreground.b),
        ),
        s.background.a > 0 ==> syntect_style_to_ratatui(s).bg == Some(
            Color::Rgb(s.background.r, s.background.g, s.background.b),
        ),
        s.background.a == 0 ==> syntect_style_to_ratatui(s).bg is None,
{
}

/// The lines of a block are read one after the other: the first from the start of the language, and
/// each one behind it in the state that the line before it left, so that what spans lines is known
/// on all of them.
pub proof fn law_lines_are_read_one_after_the_other(
    syntaxes: SyntaxSet,
    syntax: SyntaxReference,
    theme: Theme,
    lines: Seq<Seq<char>>,
    i: int,
)
    requires
        0 <= i < lines.len(),
    ensures
        highlighted(syntaxes, syntax, theme, lines, 0) == highlight_tokens(
            highlight_start(syntax, theme),
            lines[0],
            syntaxes,
        ),
        i + 1 < lines.len() ==> highlighted(syntaxes, syntax, theme, lines, i + 1)
            == highlight_tokens(
            highlight_after(
                highlight_run(syntaxes, syntax, theme, lines.take(i)),
                lines[i],
                syntaxes,
            ),
            lines[i + 1],
            syntaxes,
        ),
{
    assert(lines.take(0) =~= Seq::<Seq<char>>::empty());
    assert(lines.take(i + 1).drop_last() =~= lines.take(i));
    assert(lines.take(i + 1).last() == lines[i]);
}

/// Highlighting keeps the text: a line whose tokens make up the line is shown whole, without its
/// line feed, and so is one that the highlighter could not read.
pub proof fn law_highlighting_keeps_the_text(
    highlighter: Highlighter,
    code: Seq<char>,
    lang: Option<Seq<char>>,
    syntax: SyntaxReference,
    theme_name: Seq<char>,
    fallback: FallbackStyle,
    k: int,
)
    requires
        0 <= k < full_lines(code).len(),
        highlighter.syntax(lang) == Some(syntax),
        highlighted(
            highlighter.syntaxes(),
            syntax,
            highlighter.theme(theme_name),
            full_lines(code),
            k,
        ) matches Some(tokens) ==> tokens_text(tokens) == full_lines(code)[k],
    ensures
        line_text(highlighter.block(code, lang, theme_name, fallback)[k]) == without_newlines(
            full_lines(code)[k],
        ),
{
    let line = full_lines(code)[k];
    let bare = without_newlines(line);
    lemma_without_newlines_len(line);
    match highlighted(
        highlighter.syntaxes(),
        syntax,
        highlighter.theme(theme_name),
        full_lines(code),
        k,
    ) {
        Some(tokens) => {
            lemma_token_spans_text(tokens, bare);
            assert(bare.take(bare.len() as int) =~= bare);
        },
        None => {
            lemma_one_span_text(span(bare, Style::plain()));
        },
    }
}

/// A theme is found by its name, and the default one is used for a name that is not known. Code
/// without a language is in no known one.
pub proof fn law_themes_are_found_by_name(highlighter: Highlighter, name: Seq<char>)
    ensures
        theme_named(highlighter.themes(), name) matches Some(t) ==> highlighter.theme(name) == t,
        theme_named(highlighter.themes(), name) is None ==> (theme_named(
            highlighter.themes(),
            "base16-ocean.dark"@,
        ) matches Some(t) ==> highlighter.theme(name) == t),
        highlighter.syntax(None) is None,
        highlighter.syntax(Some(name)) == syntax_for_token(highlighter.syntaxes(), name),
{
}

} // verus!
