//! The renderer: from the events of a document to styled terminal lines and a link index.
//!
//! The event stream is walked with an explicit state machine. `RenderState` is its state, and
//! `after_event` says how each event changes it. Malformed nesting (an end without its start)
//! leaves the style stack alone.
//!
//! Links are collected on the way: a link is registered when it closes, a heading registers an
//! anchor when it closes, and `[[wiki]]` or `[[wiki|title]]` patterns are registered at the end
//! of their paragraph. An image is registered with its address and shows a placeholder.
use vstd::prelude::*;

use crate::config::{FallbackStyle, HighlightingConfig};
use crate::links::{
    Link, LinkIndex, LinkTarget, LinkTargetView, LinkView, anchor_chars, normalize_anchor,
    target_of_href,
};
use crate::markdown::events::{MdEvent, MdEventView, MdTag, MdTagEnd, MdTagView, event_views};
use crate::markdown::highlight::Highlighter;
use crate::markdown::wrap::{law_wrapped_lines_fit, wrap_line, wrapped};
use crate::style::{
    Color, Line, Modifier, Span, SpanView, Style, Text, chars_of_spans, line_text, line_views,
    line_width, span, span_views,
};
use crate::text::{
    all_white_space, byte_len, byte_len_of, char_is_white_space, chars_of, decimal, find_char,
    find_from, first_at, is_white_space, lemma_first_at, lines_of, lowercased, next_char,
    repeat_char, repeated, string_of, text_lines, to_decimal, trim, trimmed, views,
};

verus! {

// ---------------------------------------------------------------------------
// State
// ---------------------------------------------------------------------------

#[derive(Clone, Copy, Debug, PartialEq, Eq, Structural)]
pub enum ListKind {
    Unordered,
    Ordered,
}

/// An open list: its kind and the number of its next item.
#[verifier::ext_equal]
pub struct ListLevelView {
    pub kind: ListKind,
    pub next: nat,
}

/// What stays fixed while a document is rendered.
#[verifier::ext_equal]
pub struct RenderEnv {
    /// The width to which lines are wrapped.
    pub col_width: nat,
    /// `[[wiki]]` patterns are links.
    pub wiki_links: bool,
    pub highlighter: Option<Highlighter>,
    /// Code blocks are highlighted.
    pub highlighting: bool,
    pub theme: Seq<char>,
    pub fallback: FallbackStyle,
}

/// The state of a rendering.
#[verifier::ext_equal]
pub struct RenderState {
    pub env: RenderEnv,
    /// The finished lines.
    pub lines: Seq<Seq<SpanView>>,
    /// The spans of the line that is being built.
    pub spans: Seq<SpanView>,
    /// The styles of the open constructs, the innermost last.
    pub styles: Seq<Style>,
    /// How many block quotes are open.
    pub quotes: nat,
    /// The open lists, the innermost last.
    pub lists: Seq<ListLevelView>,
    /// What stands before the first line of the open block: a heading mark or a list bullet.
    pub prefix: Option<Seq<char>>,
    pub in_code: bool,
    pub code_lang: Option<Seq<char>>,
    /// The content of the open code block.
    pub code: Seq<char>,
    pub links: Seq<LinkView>,
    /// The destination of the open link.
    pub link_href: Option<Seq<char>>,
    pub link_text: Seq<char>,
    pub link_line: nat,
    pub in_heading: bool,
    pub heading_text: Seq<char>,
    /// The text of the open paragraph, kept for wiki links.
    pub paragraph: Seq<char>,
    pub in_image: bool,
    pub image_url: Seq<char>,
    pub image_alt: Seq<char>,
}

/// The state before the first event.
pub open spec fn initial_state(env: RenderEnv) -> RenderState {
    RenderState {
        env,
        lines: Seq::empty(),
        spans: Seq::empty(),
        styles: seq![Style::plain()],
        quotes: 0,
        lists: Seq::empty(),
        prefix: None,
        in_code: false,
        code_lang: None,
        code: Seq::empty(),
        links: Seq::empty(),
        link_href: None,
        link_text: Seq::empty(),
        link_line: 0,
        in_heading: false,
        heading_text: Seq::empty(),
        paragraph: Seq::empty(),
        in_image: false,
        image_url: Seq::empty(),
        image_alt: Seq::empty(),
    }
}

// ---------------------------------------------------------------------------
// Steps
// ---------------------------------------------------------------------------

impl RenderState {
    pub open spec fn style(self) -> Style {
        if self.styles.len() > 0 {
            self.styles.last()
        } else {
            Style::plain()
        }
    }

    pub open spec fn push_style(self, style: Style) -> RenderState {
        RenderState { styles: self.styles.push(style), ..self }
    }

    /// Leaves the innermost style. The outermost one stays.
    pub open spec fn pop_style(self) -> RenderState {
        if self.styles.len() > 1 {
            RenderState { styles: self.styles.drop_last(), ..self }
        } else {
            self
        }
    }

    pub open spec fn push_span(self, content: Seq<char>, style: Style) -> RenderState {
        RenderState { spans: self.spans.push(span(content, style)), ..self }
    }

    /// Adds text in the current style. Empty text adds nothing.
    pub open spec fn push_text(self, text: Seq<char>) -> RenderState {
        if text.len() == 0 {
            self
        } else {
            self.push_span(text, self.style())
        }
    }

    pub open spec fn push_line(self, line: Seq<SpanView>) -> RenderState {
        RenderState { lines: self.lines.push(line), ..self }
    }

    pub open spec fn blank_line(self) -> RenderState {
        self.push_line(Seq::empty())
    }

    /// A horizontal rule over the whole width.
    pub open spec fn push_rule(self) -> RenderState {
        self.push_line(
            seq![span(repeated('─', self.rule_width()), Style::plain().fg(Color::DarkGray))],
        )
    }

    pub open spec fn rule_width(self) -> nat {
        if self.env.col_width > 1 {
            self.env.col_width
        } else {
            1
        }
    }

    /// The spans of the line that is being built with everything that stands before them: one
    /// gutter per open block quote, then the prefix of the block.
    pub open spec fn assembled(self) -> Seq<SpanView> {
        let gutter = Seq::new(self.quotes, |i: int| gutter_span());
        let prefix_style = if self.quotes > 0 {
            Style::plain().fg(Color::Cyan)
        } else {
            Style::plain()
        };
        let prefix = match self.prefix {
            Some(p) => seq![span(p, prefix_style)],
            None => Seq::empty(),
        };
        gutter + prefix + self.spans
    }

    /// Finishes the line that is being built. Outside block quotes a line of nothing but white
    /// space becomes a blank line. Every other line is wrapped to the column width.
    #[verifier::opaque]
    pub open spec fn flush(self) -> RenderState {
        let all = self.assembled();
        let new = if self.quotes == 0 && all_white_space(line_text(all)) {
            seq![Seq::<SpanView>::empty()]
        } else {
            wrapped(all, self.env.col_width)
        };
        RenderState { lines: self.lines + new, spans: Seq::empty(), prefix: None, ..self }
    }

    /// Opens a code block with its header line.
    #[verifier::opaque]
    pub open spec fn begin_code(self, lang: Option<Seq<char>>) -> RenderState {
        let label = match lang {
            Some(l) => l,
            None => "text"@,
        };
        let taken = byte_len(label) + 4;
        let dashes = if self.rule_width() > taken {
            (self.rule_width() - taken) as nat
        } else {
            0
        };
        let header = "┌─ "@ + label + " "@ + repeated('─', dashes);
        RenderState { in_code: true, code_lang: lang, code: Seq::empty(), ..self }.push_line(
            seq![span(header, frame_style())],
        )
    }

    /// The lines that show the open code block.
    #[verifier::opaque]
    pub open spec fn code_lines(self) -> Seq<Seq<SpanView>> {
        match self.env.highlighter {
            Some(h) if self.env.highlighting && self.code.len() > 0 => {
                h.block(
                    self.code,
                    self.code_lang,
                    self.env.theme,
                    self.env.fallback,
                ).map_values(|line: Seq<SpanView>| seq![span("\t"@, Style::plain())] + line)
            },
            _ => text_lines(self.code).map_values(
                |line: Seq<char>| seq![span("\t"@ + line, code_style())],
            ) + (if self.code.len() > 0 {
                seq![seq![span("\t"@, code_style())]]
            } else {
                Seq::empty()
            }),
        }
    }

    /// Closes the open code block: its lines, its footer line and a blank line.
    #[verifier::opaque]
    pub open spec fn end_code(self) -> RenderState {
        let pending = if self.spans.len() > 0 {
            seq![self.spans]
        } else {
            Seq::empty()
        };
        let footer = "└"@ + repeated('─', (self.rule_width() - 1) as nat);
        RenderState {
            lines: self.lines + pending + self.code_lines(),
            spans: Seq::empty(),
            code: Seq::empty(),
            in_code: false,
            code_lang: None,
            ..self
        }.push_line(seq![span(footer, frame_style())]).blank_line()
    }

    pub open spec fn push_link(
        self,
        display_text: Seq<char>,
        target: LinkTargetView,
        line: nat,
    ) -> RenderState {
        RenderState {
            links: self.links.push(
                LinkView { display_text, target, source_line: line, source_col: 0 },
            ),
            ..self
        }
    }

    pub open spec fn begin_link(self, href: Seq<char>) -> RenderState {
        RenderState {
            link_href: Some(href),
            link_text: Seq::empty(),
            link_line: self.lines.len(),
            ..self
        }
    }

    /// Registers the open link.
    pub open spec fn end_link(self) -> RenderState {
        let s = match self.link_href {
            Some(href) => self.push_link(self.link_text, target_of_href(href), self.link_line),
            None => self,
        };
        RenderState { link_href: None, link_text: Seq::empty(), ..s }
    }

    /// Registers the anchor of the heading that closes, if it has one.
    #[verifier::opaque]
    pub open spec fn end_heading(self) -> RenderState {
        let anchor = anchor_chars(lowercased(self.heading_text));
        let line = if self.lines.len() > 0 {
            (self.lines.len() - 1) as nat
        } else {
            0
        };
        let s = if anchor.len() > 0 {
            self.push_link(self.heading_text, LinkTargetView::InternalAnchor(anchor), line)
        } else {
            self
        };
        RenderState { heading_text: Seq::empty(), ..s }
    }

    /// Registers the image that closes and shows its placeholder.
    #[verifier::opaque]
    pub open spec fn end_image(self) -> RenderState {
        let alt = trimmed(self.image_alt);
        let url = self.image_url;
        let label = if alt.len() == 0 {
            "[Image: "@ + url + "]"@
        } else {
            "[Image: "@ + alt + " ("@ + url + ")]"@
        };
        let s = self.push_link(alt, LinkTargetView::Image { url, alt }, self.lines.len());
        RenderState {
            in_image: false,
            image_url: Seq::empty(),
            image_alt: Seq::empty(),
            ..s
        }.push_span(label, Style::plain().fg(Color::Magenta).add_modifier(Modifier::dim()))
    }
}

/// The gutter of a block quote.
pub open spec fn gutter_span() -> SpanView {
    span("▌ "@, Style::plain().fg(Color::Cyan).add_modifier(Modifier::dim()))
}

/// The style of the frame around a code block.
#[verifier::allow_in_spec]
pub fn frame_style() -> Style
    returns
        Style::plain().fg(Color::DarkGray).add_modifier(Modifier::dim()),
{
    Style::plain().fg(Color::DarkGray).add_modifier(Modifier::dim())
}

/// The style of code without highlighting.
#[verifier::allow_in_spec]
pub fn code_style() -> Style
    returns
        Style::plain().fg(Color::White).bg(Color::Reset),
{
    Style::plain().fg(Color::White).bg(Color::Reset)
}

/// The page that a wiki link names: what stands before the first `|`, trimmed.
pub open spec fn wiki_page(inner: Seq<char>) -> Seq<char> {
    trimmed(inner.take(next_char(inner, '|', 0)))
}

/// The wiki links in `text` from position `from` on. Brackets without a partner end the search.
pub open spec fn wiki_links_from(text: Seq<char>, from: int, line: nat) -> Seq<LinkView>
    decreases text.len() - from,
{
    match first_at(text, "[["@, from) {
        Some(open) => match first_at(text, "]]"@, open + 2) {
            Some(close) => if from <= open && open + 2 <= close && close + 2 <= text.len() {
                let inner = text.subrange(open + 2, close);
                let page = wiki_page(inner);
                let found = if page.len() > 0 {
                    seq![
                        LinkView {
                            display_text: inner,
                            target: LinkTargetView::WikiLink(page),
                            source_line: line,
                            source_col: 0,
                        },
                    ]
                } else {
                    Seq::empty()
                };
                found + wiki_links_from(text, close + 2, line)
            } else {
                Seq::empty()
            },
            None => Seq::empty(),
        },
        None => Seq::empty(),
    }
}

/// The mark in front of a heading.
pub open spec fn heading_prefix(level: u8) -> Seq<char> {
    match level {
        1 => "# "@,
        2 => "## "@,
        3 => "### "@,
        4 => "#### "@,
        5 => "##### "@,
        _ => "###### "@,
    }
}

#[verifier::allow_in_spec]
pub fn heading_color(level: u8) -> Color
    returns
        (match level {
            1 => Color::LightCyan,
            2 => Color::Cyan,
            3 => Color::Blue,
            4 => Color::LightBlue,
            _ => Color::DarkGray,
        }),
{
    match level {
        1 => Color::LightCyan,
        2 => Color::Cyan,
        3 => Color::Blue,
        4 => Color::LightBlue,
        _ => Color::DarkGray,
    }
}

/// The mark and the style of a heading.
pub fn heading_style(level: u8) -> (r: (String, Style))
    ensures
        r.0@ == heading_prefix(level),
        r.1 == Style::plain().fg(heading_color(level)).add_modifier(Modifier::bold()),
{
    let prefix = match level {
        1 => "# ",
        2 => "## ",
        3 => "### ",
        4 => "#### ",
        5 => "##### ",
        _ => "###### ",
    };
    (
        prefix.to_owned(),
        Style::plain().fg(heading_color(level)).add_modifier(Modifier::bold()),
    )
}

/// The bullet of an unordered list at a nesting depth.
pub open spec fn bullet(depth: nat) -> Seq<char> {
    if depth == 1 {
        "●"@
    } else if depth == 2 {
        "○"@
    } else {
        "▸"@
    }
}

/// How an event changes the state.
pub open spec fn after_event(s: RenderState, event: MdEventView) -> RenderState {
    match event {
        MdEventView::Text(text) => after_text(s, text),
        MdEventView::Code(text) => s.push_span(
            "`"@ + text + "`"@,
            Style::plain().fg(Color::Yellow).bg(Color::Rgb(40, 40, 40)),
        ),
        MdEventView::SoftBreak => s.push_text(" "@),
        MdEventView::HardBreak => s.flush(),
        MdEventView::Rule => s.flush().push_rule().blank_line(),
        MdEventView::Start(tag) => after_start(s, tag),
        MdEventView::End(tag) => after_end(s, tag),
        MdEventView::TaskListMarker(checked) => if checked {
            s.push_span("✓ "@, Style::plain().fg(Color::Green))
        } else {
            s.push_span("☐ "@, Style::plain().fg(Color::DarkGray))
        },
        MdEventView::Other => s,
    }
}

/// Text goes to the open code block or image. Everywhere else it is shown, and kept for the
/// heading, the link and the paragraph that it stands in.
pub open spec fn after_text(s: RenderState, text: Seq<char>) -> RenderState {
    if s.in_code {
        RenderState { code: s.code + text, ..s }
    } else if s.in_image {
        RenderState { image_alt: s.image_alt + text, ..s }
    } else {
        RenderState {
            heading_text: if s.in_heading {
                s.heading_text + text
            } else {
                s.heading_text
            },
            link_text: if s.link_href is Some {
                s.link_text + text
            } else {
                s.link_text
            },
            paragraph: if s.env.wiki_links {
                s.paragraph + text
            } else {
                s.paragraph
            },
            ..s
        }.push_text(text)
    }
}

pub open spec fn after_start(s: RenderState, tag: MdTagView) -> RenderState {
    match tag {
        MdTagView::Heading(level) => RenderState {
            prefix: Some(heading_prefix(level)),
            in_heading: true,
            heading_text: Seq::empty(),
            ..s.flush()
        }.push_style(Style::plain().fg(heading_color(level)).add_modifier(Modifier::bold())),
        MdTagView::BlockQuote => {
            let f = RenderState { quotes: s.quotes + 1, ..s.flush() };
            f.push_style(
                f.style().fg(Color::Rgb(160, 160, 160)).add_modifier(Modifier::italic()),
            )
        },
        MdTagView::FencedCode(info) => s.flush().begin_code(
            if trimmed(info).len() == 0 {
                None
            } else {
                Some(trimmed(info))
            },
        ),
        MdTagView::IndentedCode => s.flush().begin_code(None),
        MdTagView::List(start) => {
            let f = s.flush();
            let level = match start {
                None => ListLevelView { kind: ListKind::Unordered, next: 0 },
                Some(n) => ListLevelView { kind: ListKind::Ordered, next: n as nat },
            };
            RenderState { lists: f.lists.push(level), ..f }
        },
        MdTagView::Item => after_item(s.flush()),
        MdTagView::Table => {
            let f = s.flush();
            f.push_style(f.style().fg(Color::Rgb(200, 200, 200)))
        },
        MdTagView::TableHead => s.push_style(
            s.style().add_modifier(Modifier::bold()).fg(Color::Cyan),
        ),
        MdTagView::Strong => s.push_style(s.style().add_modifier(Modifier::bold())),
        MdTagView::Emphasis => s.push_style(s.style().add_modifier(Modifier::italic())),
        MdTagView::Strikethrough => s.push_style(
            s.style().add_modifier(Modifier::crossed_out()).fg(Color::DarkGray),
        ),
        MdTagView::Link(url) => {
            let b = s.begin_link(url);
            b.push_style(b.style().fg(Color::Cyan).add_modifier(Modifier::underlined()))
        },
        MdTagView::Image(url) => RenderState {
            in_image: true,
            image_url: url,
            image_alt: Seq::empty(),
            ..s
        },
        MdTagView::Paragraph | MdTagView::TableRow | MdTagView::TableCell | MdTagView::Other => s,
    }
}

/// A list item: its bullet or number is the prefix of its first line.
pub open spec fn after_item(s: RenderState) -> RenderState {
    let depth = s.lists.len();
    let indent = repeated(
        ' ',
        if depth > 0 {
            (depth - 1) as nat
        } else {
            0
        },
    );
    let t = if depth > 0 && s.lists.last().kind is Ordered {
        let level = s.lists.last();
        RenderState {
            prefix: Some(indent + decimal(level.next) + ". "@),
            lists: s.lists.drop_last().push(ListLevelView { next: level.next + 1, ..level }),
            ..s
        }
    } else {
        RenderState { prefix: Some(indent + bullet(depth) + " "@), ..s }
    };
    t.push_style(t.style())
}

pub open spec fn after_end(s: RenderState, tag: MdTagEnd) -> RenderState {
    match tag {
        MdTagEnd::Heading => RenderState {
            in_heading: false,
            ..s
        }.end_heading().flush().pop_style().blank_line(),
        MdTagEnd::Paragraph => {
            let f = s.flush().blank_line();
            RenderState {
                links: if s.env.wiki_links {
                    f.links + wiki_links_from(f.paragraph, 0, f.lines.len())
                } else {
                    f.links
                },
                paragraph: Seq::empty(),
                ..f
            }
        },
        MdTagEnd::BlockQuote => {
            let f = s.flush();
            let q = RenderState {
                quotes: if f.quotes > 0 {
                    (f.quotes - 1) as nat
                } else {
                    0
                },
                ..f
            }.pop_style();
            if q.quotes == 0 {
                q.blank_line()
            } else {
                q
            }
        },
        MdTagEnd::CodeBlock => s.end_code(),
        MdTagEnd::List => {
            let f = s.flush();
            let l = RenderState {
                lists: if f.lists.len() > 0 {
                    f.lists.drop_last()
                } else {
                    f.lists
                },
                ..f
            };
            if l.lists.len() == 0 {
                l.blank_line()
            } else {
                l
            }
        },
        MdTagEnd::Item | MdTagEnd::Strong | MdTagEnd::Emphasis | MdTagEnd::Strikethrough => {
            s.pop_style()
        },
        MdTagEnd::Table => s.flush().pop_style().blank_line(),
        MdTagEnd::TableHead => s.flush().pop_style().push_rule(),
        MdTagEnd::TableRow => s.flush(),
        MdTagEnd::TableCell => s.push_span("  |  "@, Style::plain().fg(Color::DarkGray)),
        MdTagEnd::Link => s.end_link().pop_style(),
        MdTagEnd::Image => s.end_image(),
        MdTagEnd::Other => s,
    }
}

/// The state after all of `events`.
pub open spec fn after_events(s: RenderState, events: Seq<MdEventView>) -> RenderState
    decreases events.len(),
{
    if events.len() == 0 {
        s
    } else {
        after_event(after_events(s, events.drop_last()), events.last())
    }
}

/// The state at the end of a document: what is left of the last line is flushed.
pub open spec fn rendered(env: RenderEnv, events: Seq<MdEventView>) -> RenderState {
    after_events(initial_state(env), events).flush()
}

// ---------------------------------------------------------------------------
// The renderer
// ---------------------------------------------------------------------------

/// An open list. The number is wide enough that it never overflows.
#[derive(Clone, Copy)]
struct ListLevel {
    kind: ListKind,
    next: u128,
}

spec fn level_views(v: Seq<ListLevel>) -> Seq<ListLevelView> {
    v.map_values(|l: ListLevel| ListLevelView { kind: l.kind, next: l.next as nat })
}

spec fn opt_view(s: Option<String>) -> Option<Seq<char>> {
    match s {
        Some(t) => Some(t@),
        None => None,
    }
}

/// Everything that changes during a single render pass.
pub struct RenderContext<'h> {
    lines: Vec<Line>,
    current_spans: Vec<Span>,
    style_stack: Vec<Style>,
    blockquote_depth: usize,
    list_stack: Vec<ListLevel>,
    block_prefix: Option<String>,
    in_code_block: bool,
    code_block_lang: Option<String>,
    code_block_content: String,
    col_width: u16,
    link_index: LinkIndex,
    pending_link_href: Option<String>,
    pending_link_text: String,
    pending_link_source_line: usize,
    in_heading: bool,
    pending_heading_text: String,
    wiki_links_enabled: bool,
    paragraph_accumulator: String,
    in_image: bool,
    pending_image_url: String,
    pending_image_alt: String,
    highlighter: Option<&'h Highlighter>,
    hl_config: &'h HighlightingConfig,
    /// How many events have been handled.
    steps: Ghost<nat>,
}

impl<'h> View for RenderContext<'h> {
    type V = RenderState;

    closed spec fn view(&self) -> RenderState {
        RenderState {
            env: env_of(
                self.col_width,
                self.wiki_links_enabled,
                self.highlighter,
                *self.hl_config,
            ),
            lines: line_views(self.lines@),
            spans: span_views(self.current_spans@),
            styles: self.style_stack@,
            quotes: self.blockquote_depth as nat,
            lists: level_views(self.list_stack@),
            prefix: opt_view(self.block_prefix),
            in_code: self.in_code_block,
            code_lang: opt_view(self.code_block_lang),
            code: self.code_block_content@,
            links: self.link_index@,
            link_href: opt_view(self.pending_link_href),
            link_text: self.pending_link_text@,
            link_line: self.pending_link_source_line as nat,
            in_heading: self.in_heading,
            heading_text: self.pending_heading_text@,
            paragraph: self.paragraph_accumulator@,
            in_image: self.in_image,
            image_url: self.pending_image_url@,
            image_alt: self.pending_image_alt@,
        }
    }
}

/// The settings of a rendering.
pub open spec fn env_of(
    col_width: u16,
    wiki_links: bool,
    highlighter: Option<&Highlighter>,
    config: HighlightingConfig,
) -> RenderEnv {
    RenderEnv {
        col_width: col_width as nat,
        wiki_links,
        highlighter: match highlighter {
            Some(h) => Some(*h),
            None => None,
        },
        highlighting: config.enabled,
        theme: config.theme@,
        fallback: config.fallback_style,
    }
}

impl<'h> RenderContext<'h> {
    /// What holds between events: the counters are bounded by the number of events.
    pub closed spec fn inv(self) -> bool {
        &&& self.style_stack@.len() > 0
        &&& self.blockquote_depth <= self.steps@
        &&& self.numbers_within(self.steps@)
    }

    /// No item number has been counted up by more than `n`.
    spec fn numbers_within(self, n: nat) -> bool {
        forall|i: int|
            0 <= i < self.list_stack@.len() ==> (#[trigger] self.list_stack@[i]).next <= u64::MAX
                + n
    }

    /// How many events have been handled.
    pub closed spec fn handled(self) -> nat {
        self.steps@
    }

    /// There is room for one more event.
    pub closed spec fn ready(self) -> bool {
        &&& self.inv()
        &&& self.steps@ < usize::MAX
    }

    /// A rendering before its first event.
    pub fn new(
        col_width: u16,
        wiki_links_enabled: bool,
        highlighter: Option<&'h Highlighter>,
        hl_config: &'h HighlightingConfig,
    ) -> (r: RenderContext<'h>)
        ensures
            r@ == initial_state(env_of(col_width, wiki_links_enabled, highlighter, *hl_config)),
            r.inv(),
            r.ready(),
            r.handled() == 0,
    {
        let mut style_stack: Vec<Style> = Vec::new();
        style_stack.push(Style::plain());
        let r = RenderContext {
            lines: Vec::new(),
            current_spans: Vec::new(),
            style_stack,
            blockquote_depth: 0,
            list_stack: Vec::new(),
            block_prefix: None,
            in_code_block: false,
            code_block_lang: None,
            code_block_content: String::new(),
            col_width,
            link_index: LinkIndex::new(),
            pending_link_href: None,
            pending_link_text: String::new(),
            pending_link_source_line: 0,
            in_heading: false,
            pending_heading_text: String::new(),
            wiki_links_enabled,
            paragraph_accumulator: String::new(),
            in_image: false,
            pending_image_url: String::new(),
            pending_image_alt: String::new(),
            highlighter,
            hl_config,
            steps: Ghost(0),
        };
        assert(r@ =~= initial_state(env_of(col_width, wiki_links_enabled, highlighter, *hl_config)));
        r
    }

    fn current_style(&self) -> (r: Style)
        requires
            self.inv(),
        ensures
            r == self@.style(),
    {
        self.style_stack[self.style_stack.len() - 1]
    }

    fn push_style(&mut self, style: Style)
        requires
            old(self).inv(),
        ensures
            final(self)@ == old(self)@.push_style(style),
            final(self).inv(),
            final(self).steps == old(self).steps,
    {
        self.style_stack.push(style);
        assert(self@ =~= old(self)@.push_style(style));
    }

    fn pop_style(&mut self)
        requires
            old(self).inv(),
        ensures
            final(self)@ == old(self)@.pop_style(),
            final(self).inv(),
            final(self).steps == old(self).steps,
    {
        if self.style_stack.len() > 1 {
            self.style_stack.pop();
            assert(self@ =~= old(self)@.pop_style());
        }
    }

    fn push_span(&mut self, content: String, style: Style)
        requires
            old(self).inv(),
        ensures
            final(self)@ == old(self)@.push_span(content@, style),
            final(self).inv(),
            final(self).steps == old(self).steps,
    {
        self.current_spans.push(Span::styled(content, style));
        assert(self@ =~= old(self)@.push_span(content@, style));
    }

    fn push_text(&mut self, text: String)
        requires
            old(self).inv(),
        ensures
            final(self)@ == old(self)@.push_text(text@),
            final(self).inv(),
            final(self).steps == old(self).steps,
    {
        if chars_of(text.as_str()).len() == 0 {
            return;
        }
        let style = self.current_style();
        self.push_span(text, style);
    }

    fn push_line(&mut self, line: Line)
        requires
            old(self).inv(),
        ensures
            final(self)@ == old(self)@.push_line(line@),
            final(self).inv(),
            final(self).steps == old(self).steps,
    {
        self.lines.push(line);
        assert(self@ =~= old(self)@.push_line(line@));
    }

    /// Finishes the line that is being built.
    fn flush_line(&mut self)
        requires
            old(self).inv(),
        ensures
            final(self)@ == old(self)@.flush(),
            final(self).inv(),
            final(self).steps == old(self).steps,
    {
        proof {
            reveal(RenderState::flush);
        }
        let prefix_style = if self.blockquote_depth > 0 {
            Style::plain().fg(Color::Cyan)
        } else {
            Style::plain()
        };
        let mut spans: Vec<Span> = Vec::new();
        let mut i: usize = 0;
        assert(span_views(spans@) =~= Seq::new(0, |i: int| gutter_span()));
        while i < self.blockquote_depth
            invariant
                self == old(self),
                i <= self.blockquote_depth,
                span_views(spans@) == Seq::new(i as nat, |i: int| gutter_span()),
            decreases self.blockquote_depth - i,
        {
            let ghost before = spans@;
            spans.push(
                Span::styled(
                    "▌ ".to_owned(),
                    Style::plain().fg(Color::Cyan).add_modifier(Modifier::dim()),
                ),
            );
            i = i + 1;
            assert(span_views(spans@) =~= span_views(before).push(gutter_span()));
            assert(Seq::new(i as nat, |i: int| gutter_span()) =~= Seq::new(
                (i - 1) as nat,
                |i: int| gutter_span(),
            ).push(gutter_span()));
        }
        let ghost gutter = span_views(spans@);
        let prefix = self.block_prefix.take();
        if let Some(p) = prefix {
            let ghost before = spans@;
            spans.push(Span::styled(p, prefix_style));
            assert(span_views(spans@) =~= span_views(before).push(span(p@, prefix_style)));
        }
        let ghost before = spans@;
        spans.append(&mut self.current_spans);
        let ghost all = span_views(spans@);
        assert(all =~= old(self)@.assembled());
        if self.blockquote_depth == 0 && is_blank(&spans) {
            self.lines.push(Line::blank());
            assert(line_views(self.lines@) =~= old(self)@.lines + seq![Seq::<SpanView>::empty()]);
        } else {
            let mut new = wrap_line(spans, self.col_width);
            self.lines.append(&mut new);
            assert(line_views(self.lines@) =~= old(self)@.lines + wrapped(
                all,
                old(self)@.env.col_width,
            ));
        }
        assert(self@ =~= old(self)@.flush());
    }

    fn blank_line(&mut self)
        requires
            old(self).inv(),
        ensures
            final(self)@ == old(self)@.blank_line(),
            final(self).inv(),
            final(self).steps == old(self).steps,
    {
        self.push_line(Line::blank());
    }

    fn rule_width(&self) -> (r: usize)
        ensures
            r == self@.rule_width(),
    {
        if self.col_width > 1 {
            self.col_width as usize
        } else {
            1
        }
    }

    /// Pushes a horizontal rule over the whole width.
    fn push_rule(&mut self)
        requires
            old(self).inv(),
        ensures
            final(self)@ == old(self)@.push_rule(),
            final(self).inv(),
            final(self).steps == old(self).steps,
    {
        let width: usize = self.rule_width();
        self.push_line(Line::of(repeat_char('─', width), Style::plain().fg(Color::DarkGray)));
    }

    fn begin_code_block(&mut self, lang: Option<String>)
        requires
            old(self).inv(),
        ensures
            final(self)@ == old(self)@.begin_code(opt_view(lang)),
            final(self).inv(),
            final(self).steps == old(self).steps,
    {
        proof {
            reveal(RenderState::begin_code);
        }
        let label = match &lang {
            Some(l) => l.clone(),
            None => "text".to_owned(),
        };
        let width: usize = self.rule_width();
        let label_len: usize = byte_len_of(label.as_str());
        let dashes: usize = if width > 4 && width - 4 > label_len {
            width - 4 - label_len
        } else {
            0
        };
        let mut header = "┌─ ".to_owned();
        header.append(label.as_str());
        header.append(" ");
        header.append(repeat_char('─', dashes).as_str());
        self.in_code_block = true;
        self.code_block_lang = lang;
        self.code_block_content = String::new();
        let ghost opened = self@;
        assert(opened =~= RenderState {
            in_code: true,
            code_lang: opt_view(lang),
            code: Seq::empty(),
            ..old(self)@
        });
        self.push_line(Line::of(header, frame_style()));
    }

    /// The lines that show the open code block.
    fn code_lines(&self) -> (r: Vec<Line>)
        ensures
            line_views(r@) == self@.code_lines(),
    {
        proof {
            reveal(RenderState::code_lines);
        }
        let mut out: Vec<Line> = Vec::new();
        let empty = chars_of(self.code_block_content.as_str()).len() == 0;
        let ghost goal = self@.code_lines();
        match self.highlighter {
            Some(h) if self.hl_config.enabled && !empty => {
                let lang = match &self.code_block_lang {
                    Some(l) => Some(l.as_str()),
                    None => None,
                };
                let lines = h.highlight_block(
                    self.code_block_content.as_str(),
                    lang,
                    self.hl_config.theme.as_str(),
                    self.hl_config.fallback_style,
                );
                let ghost shown = line_views(lines@);
                assert(line_views(out@) =~= goal.take(0));
                for line in it: lines
                    invariant
                        line_views(it.seq()) == shown,
                        goal == shown.map_values(
                            |line: Seq<SpanView>| seq![span("\t"@, Style::plain())] + line,
                        ),
                        line_views(out@) == goal.take(it.index() as int),
                {
                    let ghost before = out@;
                    let ghost shown_line = line@;
                    let mut spans: Vec<Span> = Vec::new();
                    spans.push(Span::styled("\t".to_owned(), Style::plain()));
                    let mut rest = line.spans;
                    spans.append(&mut rest);
                    let new = Line::from_spans(spans);
                    let ghost new_view = new@;
                    out.push(new);
                    proof {
                        let i = it.index() as int;
                        assert(shown_line == shown[i]);
                        assert(new_view =~= seq![span("\t"@, Style::plain())] + shown_line);
                        assert(line_views(out@) =~= line_views(before).push(new_view));
                        assert(goal.take(i + 1) =~= goal.take(i).push(goal[i]));
                    }
                }
                assert(goal.take(goal.len() as int) =~= goal);
            },
            _ => {
                let lines = lines_of(self.code_block_content.as_str());
                let ghost shown = text_lines(self.code_block_content@);
                let ghost body = shown.map_values(
                    |line: Seq<char>| seq![span("\t"@ + line, code_style())],
                );
                let mut i: usize = 0;
                assert(line_views(out@) =~= body.take(0));
                while i < lines.len()
                    invariant
                        i <= lines@.len(),
                        views(lines@) == shown,
                        body == shown.map_values(
                            |line: Seq<char>| seq![span("\t"@ + line, code_style())],
                        ),
                        line_views(out@) == body.take(i as int),
                    decreases lines@.len() - i,
                {
                    let ghost before = out@;
                    let mut content = "\t".to_owned();
                    content.append(lines[i].as_str());
                    let new = Line::of(content, code_style());
                    let ghost new_view = new@;
                    out.push(new);
                    i = i + 1;
                    proof {
                        assert(line_views(out@) =~= line_views(before).push(new_view));
                        assert(body.take(i as int) =~= body.take(i - 1).push(body[i - 1]));
                    }
                }
                assert(body.take(body.len() as int) =~= body);
                let ghost before = out@;
                if !empty {
                    let new = Line::of("\t".to_owned(), code_style());
                    let ghost new_view = new@;
                    out.push(new);
                    assert(line_views(out@) =~= body.push(new_view));
                }
                assert(line_views(out@) =~= goal);
            },
        }
        out
    }

    fn end_code_block(&mut self)
        requires
            old(self).inv(),
        ensures
            final(self)@ == old(self)@.end_code(),
            final(self).inv(),
            final(self).steps == old(self).steps,
    {
        proof {
            reveal(RenderState::end_code);
        }
        let mut new = self.code_lines();
        let ghost shown = line_views(new@);
        let mut spans: Vec<Span> = Vec::new();
        spans.append(&mut self.current_spans);
        let ghost pending = span_views(spans@);
        assert(pending =~= old(self)@.spans);
        if spans.len() > 0 {
            self.lines.push(Line::from_spans(spans));
            assert(line_views(self.lines@) =~= old(self)@.lines + seq![pending]);
        } else {
            assert(line_views(self.lines@) =~= old(self)@.lines + Seq::<Seq<SpanView>>::empty());
        }
        let ghost upto = line_views(self.lines@);
        self.lines.append(&mut new);
        assert(line_views(self.lines@) =~= upto + shown);
        self.code_block_content = String::new();
        self.in_code_block = false;
        self.code_block_lang = None;
        let width: usize = self.rule_width();
        let mut footer = "└".to_owned();
        footer.append(repeat_char('─', width - 1).as_str());
        self.push_line(Line::of(footer, frame_style()));
        self.blank_line();
        assert(self@ =~= old(self)@.end_code());
    }

    fn begin_link(&mut self, href: String)
        requires
            old(self).inv(),
        ensures
            final(self)@ == old(self)@.begin_link(href@),
            final(self).inv(),
            final(self).steps == old(self).steps,
    {
        self.pending_link_href = Some(href);
        self.pending_link_text = String::new();
        self.pending_link_source_line = self.lines.len();
        assert(self@ =~= old(self)@.begin_link(href@));
    }

    fn push_link(&mut self, display_text: String, target: LinkTarget, line: usize)
        requires
            old(self).inv(),
        ensures
            final(self)@ == old(self)@.push_link(display_text@, target@, line as nat),
            final(self).inv(),
            final(self).steps == old(self).steps,
    {
        self.link_index.push(Link { display_text, target, source_line: line, source_col: 0 });
        assert(self@ =~= old(self)@.push_link(display_text@, target@, line as nat));
    }

    fn end_link(&mut self)
        requires
            old(self).inv(),
        ensures
            final(self)@ == old(self)@.end_link(),
            final(self).inv(),
            final(self).steps == old(self).steps,
    {
        let pending = self.pending_link_href.take();
        if let Some(href) = pending {
            let target = LinkTarget::from_href(href.as_str());
            let text = self.pending_link_text.clone();
            let line: usize = self.pending_link_source_line;
            self.push_link(text, target, line);
        }
        self.pending_link_text = String::new();
        assert(self@ =~= old(self)@.end_link());
    }

    fn end_heading(&mut self)
        requires
            old(self).inv(),
        ensures
            final(self)@ == old(self)@.end_heading(),
            final(self).inv(),
            final(self).steps == old(self).steps,
    {
        proof {
            reveal(RenderState::end_heading);
        }
        let anchor = normalize_anchor(self.pending_heading_text.as_str());
        if chars_of(anchor.as_str()).len() > 0 {
            let text = self.pending_heading_text.clone();
            let line: usize = if self.lines.len() > 0 {
                self.lines.len() - 1
            } else {
                0
            };
            self.push_link(text, LinkTarget::InternalAnchor(anchor), line);
        }
        self.pending_heading_text = String::new();
        assert(self@ =~= old(self)@.end_heading());
    }

    /// Registers the wiki links of a text.
    fn scan_wiki_links(&mut self, text: String)
        requires
            old(self).inv(),
        ensures
            final(self)@ == (RenderState {
                links: old(self)@.links + wiki_links_from(text@, 0, old(self)@.lines.len()),
                ..old(self)@
            }),
            final(self).inv(),
            final(self).steps == old(self).steps,
    {
        let v = chars_of(text.as_str());
        let open_mark = chars_of("[[");
        let close_mark = chars_of("]]");
        proof {
            reveal_strlit("[[");
            reveal_strlit("]]");
        }
        let line: usize = self.lines.len();
        let mut from: usize = 0;
        let ghost goal = old(self)@.links + wiki_links_from(text@, 0, line as nat);
        loop
            invariant
                v@ == text@,
                open_mark@ == "[["@,
                close_mark@ == "]]"@,
                open_mark@.len() == 2,
                close_mark@.len() == 2,
                from <= v.len(),
                line == old(self)@.lines.len(),
                self.inv(),
                self.steps == old(self).steps,
                self@ == (RenderState { links: self@.links, ..old(self)@ }),
                self@.links + wiki_links_from(text@, from as int, line as nat) == goal,
                goal == old(self)@.links + wiki_links_from(text@, 0, line as nat),
            decreases v@.len() - from,
        {
            proof {
                lemma_first_at(text@, "[["@, from as int);
            }
            let open: usize = match find_from(&v, &open_mark, from) {
                Some(i) => i,
                None => {
                    assert(self@.links + Seq::<LinkView>::empty() =~= self@.links);
                    return;
                },
            };
            proof {
                lemma_first_at(text@, "]]"@, open + 2);
            }
            let close: usize = match find_from(&v, &close_mark, open + 2) {
                Some(i) => i,
                None => {
                    assert(self@.links + Seq::<LinkView>::empty() =~= self@.links);
                    return;
                },
            };
            let inner = string_of(&v, open + 2, close);
            let inner_chars = chars_of(inner.as_str());
            let bar: usize = find_char(&inner_chars, '|', 0);
            let before_bar = string_of(&inner_chars, 0, bar);
            let page = trim(before_bar.as_str()).to_owned();
            assert(inner@.subrange(0, bar as int) =~= inner@.take(bar as int));
            let ghost links = self@.links;
            let ghost rest = wiki_links_from(text@, close + 2, line as nat);
            if chars_of(page.as_str()).len() > 0 {
                self.push_link(inner, LinkTarget::WikiLink(page), line);
                proof {
                    let found = LinkView {
                        display_text: inner@,
                        target: LinkTargetView::WikiLink(page@),
                        source_line: line as nat,
                        source_col: 0,
                    };
                    assert(self@.links == links.push(found));
                    assert(links + (seq![found] + rest) =~= links.push(found) + rest);
                }
            } else {
                assert(links + (Seq::<LinkView>::empty() + rest) =~= links + rest);
            }
            from = close + 2;
        }
    }

    fn end_image(&mut self)
        requires
            old(self).inv(),
        ensures
            final(self)@ == old(self)@.end_image(),
            final(self).inv(),
            final(self).steps == old(self).steps,
    {
        proof {
            reveal(RenderState::end_image);
        }
        let url = self.pending_image_url.clone();
        let alt = trim(self.pending_image_alt.as_str()).to_owned();
        let line: usize = self.lines.len();
        self.push_link(
            alt.clone(),
            LinkTarget::Image { url: url.clone(), alt: alt.clone() },
            line,
        );
        let mut label = "[Image: ".to_owned();
        if chars_of(alt.as_str()).len() == 0 {
            label.append(url.as_str());
            label.append("]");
        } else {
            label.append(alt.as_str());
            label.append(" (");
            label.append(url.as_str());
            label.append(")]");
        }
        self.in_image = false;
        self.pending_image_url = String::new();
        self.pending_image_alt = String::new();
        self.push_span(label, Style::plain().fg(Color::Magenta).add_modifier(Modifier::dim()));
        assert(self@ =~= old(self)@.end_image());
    }
}

impl<'h> RenderContext<'h> {
    /// Handles one event.
    pub fn handle_event(&mut self, event: MdEvent)
        requires
            old(self).ready(),
        ensures
            final(self)@ == after_event(old(self)@, event@),
            final(self).inv(),
            final(self).handled() == old(self).handled() + 1,
            final(self).handled() < usize::MAX ==> final(self).ready(),
    {
        match event {
            MdEvent::Text(text) => self.handle_text(text),
            MdEvent::Code(text) => {
                let mut content = "`".to_owned();
                content.append(text.as_str());
                content.append("`");
                self.push_span(
                    content,
                    Style::plain().fg(Color::Yellow).bg(Color::Rgb(40, 40, 40)),
                );
            },
            MdEvent::SoftBreak => self.push_text(" ".to_owned()),
            MdEvent::HardBreak => self.flush_line(),
            MdEvent::Rule => {
                self.flush_line();
                self.push_rule();
                self.blank_line();
            },
            MdEvent::Start(tag) => self.handle_start(tag),
            MdEvent::End(tag) => self.handle_end(tag),
            MdEvent::TaskListMarker(checked) => {
                if checked {
                    self.push_span("✓ ".to_owned(), Style::plain().fg(Color::Green));
                } else {
                    self.push_span("☐ ".to_owned(), Style::plain().fg(Color::DarkGray));
                }
            },
            MdEvent::Other => {},
        }
        proof {
            self.steps@ = old(self).steps@ + 1;
        }
    }

    fn handle_text(&mut self, text: String)
        requires
            old(self).inv(),
        ensures
            final(self)@ == after_text(old(self)@, text@),
            final(self).inv(),
            final(self).steps == old(self).steps,
    {
        if self.in_code_block {
            self.code_block_content.append(text.as_str());
            assert(self@ =~= after_text(old(self)@, text@));
        } else if self.in_image {
            self.pending_image_alt.append(text.as_str());
            assert(self@ =~= after_text(old(self)@, text@));
        } else {
            if self.in_heading {
                self.pending_heading_text.append(text.as_str());
            }
            if self.pending_link_href.is_some() {
                self.pending_link_text.append(text.as_str());
            }
            if self.wiki_links_enabled {
                self.paragraph_accumulator.append(text.as_str());
            }
            self.push_text(text);
            assert(self@ =~= after_text(old(self)@, text@));
        }
    }

    /// One more event has been handled.
    fn count_event(&mut self)
        requires
            old(self).style_stack@.len() > 0,
            old(self).blockquote_depth <= old(self).steps@ + 1,
            old(self).numbers_within(old(self).steps@ + 1),
        ensures
            final(self)@ == old(self)@,
            final(self).inv(),
            final(self).steps@ == old(self).steps@ + 1,
    {
        proof {
            self.steps@ = old(self).steps@ + 1;
        }
    }

    /// Handles the start of a construct.
    pub fn handle_start(&mut self, tag: MdTag)
        requires
            old(self).ready(),
        ensures
            final(self)@ == after_start(old(self)@, tag@),
            final(self).inv(),
            final(self).handled() == old(self).handled() + 1,
            final(self).handled() < usize::MAX ==> final(self).ready(),
    {
        match tag {
            MdTag::Heading(level) => self.begin_heading(level),
            MdTag::BlockQuote => self.begin_quote(),
            MdTag::FencedCode(info) => {
                self.flush_line();
                let label = trim(info.as_str()).to_owned();
                let lang = if chars_of(label.as_str()).len() == 0 {
                    None
                } else {
                    Some(label)
                };
                self.begin_code_block(lang);
            },
            MdTag::IndentedCode => {
                self.flush_line();
                self.begin_code_block(None);
            },
            MdTag::List(start) => self.begin_list(start),
            MdTag::Item => {
                self.flush_line();
                self.begin_item();
            },
            MdTag::Table => {
                self.flush_line();
                let style = self.current_style().fg(Color::Rgb(200, 200, 200));
                self.push_style(style);
            },
            MdTag::TableHead => {
                let style = self.current_style().add_modifier(Modifier::bold()).fg(Color::Cyan);
                self.push_style(style);
            },
            MdTag::TableRow | MdTag::TableCell | MdTag::Paragraph | MdTag::Other => {},
            MdTag::Strong => {
                let style = self.current_style().add_modifier(Modifier::bold());
                self.push_style(style);
            },
            MdTag::Emphasis => {
                let style = self.current_style().add_modifier(Modifier::italic());
                self.push_style(style);
            },
            MdTag::Strikethrough => {
                let style = self.current_style().add_modifier(Modifier::crossed_out()).fg(
                    Color::DarkGray,
                );
                self.push_style(style);
            },
            MdTag::Link(url) => {
                self.begin_link(url);
                let style = self.current_style().fg(Color::Cyan).add_modifier(
                    Modifier::underlined(),
                );
                self.push_style(style);
            },
            MdTag::Image(url) => {
                self.in_image = true;
                self.pending_image_url = url;
                self.pending_image_alt = String::new();
                assert(self@ =~= after_start(old(self)@, tag@));
            },
        }
        self.count_event();
    }

    /// Gives a list item its bullet or number.
    fn begin_item(&mut self)
        requires
            old(self).ready(),
        ensures
            final(self)@ == after_item(old(self)@),
            final(self).style_stack@.len() > 0,
            final(self).blockquote_depth <= old(self).steps@ + 1,
            final(self).numbers_within(old(self).steps@ + 1),
            final(self).steps == old(self).steps,
    {
        let style = self.current_style();
        self.push_style(style);
        let depth: usize = self.list_stack.len();
        let mut prefix = repeat_char(
            ' ',
            if depth > 0 {
                depth - 1
            } else {
                0
            },
        );
        let ordered = depth > 0 && self.list_stack[depth - 1].kind == ListKind::Ordered;
        if ordered {
            let level = self.list_stack[depth - 1];
            prefix.append(to_decimal(level.next).as_str());
            prefix.append(". ");
            self.list_stack.pop();
            self.list_stack.push(ListLevel { next: level.next + 1, ..level });
        } else {
            let mark = match depth {
                1 => "●",
                2 => "○",
                _ => "▸",
            };
            prefix.append(mark);
            prefix.append(" ");
        }
        self.block_prefix = Some(prefix);
        assert(self@ =~= after_item(old(self)@));
    }

    fn begin_heading(&mut self, level: u8)
        requires
            old(self).inv(),
        ensures
            final(self)@ == after_start(old(self)@, MdTagView::Heading(level)),
            final(self).inv(),
            final(self).steps == old(self).steps,
    {
        self.flush_line();
        let ghost f = self@;
        let (prefix, style) = heading_style(level);
        self.block_prefix = Some(prefix);
        self.in_heading = true;
        self.pending_heading_text = String::new();
        assert(self@ =~= RenderState {
            prefix: Some(heading_prefix(level)),
            in_heading: true,
            heading_text: Seq::empty(),
            ..f
        });
        self.push_style(style);
    }

    fn begin_quote(&mut self)
        requires
            old(self).ready(),
        ensures
            final(self)@ == after_start(old(self)@, MdTagView::BlockQuote),
            final(self).style_stack@.len() > 0,
            final(self).blockquote_depth <= old(self).steps@ + 1,
            final(self).numbers_within(old(self).steps@ + 1),
            final(self).steps == old(self).steps,
    {
        self.flush_line();
        let ghost f = self@;
        let style = self.current_style().fg(Color::Rgb(160, 160, 160)).add_modifier(
            Modifier::italic(),
        );
        self.push_style(style);
        self.blockquote_depth = self.blockquote_depth + 1;
        proof {
            reveal(RenderState::flush);
            assert(self@ =~= RenderState { quotes: f.quotes + 1, ..f.push_style(style) });
        }
    }

    fn begin_list(&mut self, start: Option<u64>)
        requires
            old(self).ready(),
        ensures
            final(self)@ == after_start(old(self)@, MdTagView::List(start)),
            final(self).style_stack@.len() > 0,
            final(self).blockquote_depth <= old(self).steps@ + 1,
            final(self).numbers_within(old(self).steps@ + 1),
            final(self).steps == old(self).steps,
    {
        self.flush_line();
        let ghost f = self@;
        let level = match start {
            None => ListLevel { kind: ListKind::Unordered, next: 0 },
            Some(n) => ListLevel { kind: ListKind::Ordered, next: n as u128 },
        };
        self.list_stack.push(level);
        proof {
            let level_view = ListLevelView { kind: level.kind, next: level.next as nat };
            assert(self@ =~= RenderState { lists: f.lists.push(level_view), ..f });
        }
    }

    fn end_paragraph(&mut self)
        requires
            old(self).inv(),
        ensures
            final(self)@ == after_end(old(self)@, MdTagEnd::Paragraph),
            final(self).inv(),
            final(self).steps == old(self).steps,
    {
        self.flush_line();
        self.blank_line();
        let ghost f = self@;
        let text = self.paragraph_accumulator.clone();
        self.paragraph_accumulator = String::new();
        let ghost g = self@;
        assert(g =~= RenderState { paragraph: Seq::empty(), ..f });
        proof {
            reveal(RenderState::flush);
        }
        if self.wiki_links_enabled {
            self.scan_wiki_links(text);
        }
        assert(self@ =~= after_end(old(self)@, MdTagEnd::Paragraph));
    }

    fn end_quote(&mut self)
        requires
            old(self).inv(),
        ensures
            final(self)@ == after_end(old(self)@, MdTagEnd::BlockQuote),
            final(self).inv(),
            final(self).steps == old(self).steps,
    {
        self.flush_line();
        let ghost f = self@;
        if self.blockquote_depth > 0 {
            self.blockquote_depth = self.blockquote_depth - 1;
        }
        assert(self@ =~= RenderState {
            quotes: if f.quotes > 0 {
                (f.quotes - 1) as nat
            } else {
                0
            },
            ..f
        });
        self.pop_style();
        if self.blockquote_depth == 0 {
            self.blank_line();
        }
    }

    fn end_list(&mut self)
        requires
            old(self).inv(),
        ensures
            final(self)@ == after_end(old(self)@, MdTagEnd::List),
            final(self).inv(),
            final(self).steps == old(self).steps,
    {
        self.flush_line();
        let ghost f = self@;
        self.list_stack.pop();
        assert(self@ =~= RenderState {
            lists: if f.lists.len() > 0 {
                f.lists.drop_last()
            } else {
                f.lists
            },
            ..f
        });
        if self.list_stack.len() == 0 {
            self.blank_line();
        }
    }

    /// Handles the end of a construct, whether it was started or not.
    pub fn handle_end(&mut self, tag: MdTagEnd)
        requires
            old(self).inv(),
        ensures
            final(self)@ == after_end(old(self)@, tag),
            final(self).inv(),
            final(self).handled() == old(self).handled(),
            old(self).ready() ==> final(self).ready(),
    {
        match tag {
            MdTagEnd::Heading => {
                self.in_heading = false;
                assert(self@ =~= RenderState { in_heading: false, ..old(self)@ });
                self.end_heading();
                self.flush_line();
                self.pop_style();
                self.blank_line();
            },
            MdTagEnd::Paragraph => self.end_paragraph(),
            MdTagEnd::BlockQuote => self.end_quote(),
            MdTagEnd::CodeBlock => self.end_code_block(),
            MdTagEnd::List => self.end_list(),
            MdTagEnd::Item | MdTagEnd::Strong | MdTagEnd::Emphasis | MdTagEnd::Strikethrough => {
                self.pop_style();
            },
            MdTagEnd::Table => {
                self.flush_line();
                self.pop_style();
                self.blank_line();
            },
            MdTagEnd::TableHead => {
                self.flush_line();
                self.pop_style();
                self.push_rule();
            },
            MdTagEnd::TableRow => self.flush_line(),
            MdTagEnd::TableCell => {
                self.push_span("  |  ".to_owned(), Style::plain().fg(Color::DarkGray));
            },
            MdTagEnd::Link => {
                self.end_link();
                self.pop_style();
            },
            MdTagEnd::Image => self.end_image(),
            MdTagEnd::Other => {},
        }
    }
}

/// Renders the events of a document.
///
/// Content that did not end with an explicit block end is flushed at the end.
pub fn render_events(
    events: Vec<MdEvent>,
    col_width: u16,
    wiki_links: bool,
    highlighter: Option<&Highlighter>,
    hl_config: &HighlightingConfig,
) -> (r: (Text, LinkIndex))
    ensures
        ({
            let end = rendered(
                env_of(col_width, wiki_links, highlighter, *hl_config),
                event_views(events@),
            );
            r.0@ == end.lines && r.1@ == end.links
        }),
{
    let mut ctx = RenderContext::new(col_width, wiki_links, highlighter, hl_config);
    let ghost start = ctx@;
    let ghost all = event_views(events@);
    let n: usize = events.len();
    assert(all.take(0) =~= Seq::<MdEventView>::empty());
    for event in it: events
        invariant
            it.seq() == events@,
            n == events@.len(),
            all == event_views(events@),
            ctx@ == after_events(start, all.take(it.index() as int)),
            ctx.inv(),
            ctx.steps@ == it.index(),
    {
        let ghost i = it.index() as int;
        ctx.handle_event(event);
        proof {
            assert(all.take(i + 1).drop_last() =~= all.take(i));
            assert(all.take(i + 1).last() == all[i]);
        }
    }
    assert(all.take(all.len() as int) =~= all);
    ctx.flush_line();
    (Text { lines: ctx.lines }, ctx.link_index)
}

/// Nothing but white space stands on the line.
fn is_blank(spans: &Vec<Span>) -> (r: bool)
    ensures
        r == all_white_space(line_text(span_views(spans@))),
{
    let v = chars_of_spans(spans);
    let mut i: usize = 0;
    while i < v.len()
        invariant
            i <= v@.len(),
            v@ == line_text(span_views(spans@)),
            forall|k: int| 0 <= k < i ==> is_white_space(#[trigger] v@[k]),
        decreases v@.len() - i,
    {
        if !char_is_white_space(v[i]) {
            return false;
        }
        i = i + 1;
    }
    true
}

// ---------------------------------------------------------------------------
// Laws
// ---------------------------------------------------------------------------

/// What holds of a rendering at any point: there is a current style, and no link stands behind
/// the end of the text.
pub open spec fn sound(s: RenderState) -> bool {
    &&& s.styles.len() > 0
    &&& s.link_line <= s.lines.len()
    &&& forall|i: int|
        0 <= i < s.links.len() ==> (#[trigger] s.links[i]).source_line <= s.lines.len()
}

/// `t` has all the lines and links of `s`, at the same places.
pub open spec fn extends(t: RenderState, s: RenderState) -> bool {
    &&& s.lines.len() <= t.lines.len()
    &&& t.lines.take(s.lines.len() as int) == s.lines
    &&& s.links.len() <= t.links.len()
    &&& t.links.take(s.links.len() as int) == s.links
}

proof fn lemma_wiki_links_lines(text: Seq<char>, from: int, line: nat)
    ensures
        forall|i: int|
            0 <= i < wiki_links_from(text, from, line).len() ==> (#[trigger] wiki_links_from(
                text,
                from,
                line,
            )[i]).source_line == line,
    decreases text.len() - from,
{
    match first_at(text, "[["@, from) {
        Some(open) => match first_at(text, "]]"@, open + 2) {
            Some(close) => {
                if from <= open && open + 2 <= close && close + 2 <= text.len() {
                    lemma_wiki_links_lines(text, close + 2, line);
                }
            },
            None => {},
        },
        None => {},
    }
}

proof fn lemma_flush_sound(s: RenderState)
    requires
        sound(s),
    ensures
        sound(s.flush()),
        extends(s.flush(), s),
        s.flush().links == s.links,
        s.flush().styles == s.styles,
{
    reveal(RenderState::flush);
    assert(s.flush().lines.take(s.lines.len() as int) =~= s.lines);
    assert(s.links.take(s.links.len() as int) =~= s.links);
}

proof fn lemma_push_line_sound(s: RenderState, line: Seq<SpanView>)
    requires
        sound(s),
    ensures
        sound(s.push_line(line)),
        extends(s.push_line(line), s),
{
    assert(s.push_line(line).lines.take(s.lines.len() as int) =~= s.lines);
    assert(s.links.take(s.links.len() as int) =~= s.links);
}

proof fn lemma_extends_trans(a: RenderState, b: RenderState, c: RenderState)
    requires
        extends(b, a),
        extends(c, b),
    ensures
        extends(c, a),
{
    let n = a.lines.len() as int;
    let m = a.links.len() as int;
    assert(c.lines.take(b.lines.len() as int).take(n) =~= c.lines.take(n));
    assert(c.links.take(b.links.len() as int).take(m) =~= c.links.take(m));
}

proof fn lemma_extends_refl(s: RenderState, t: RenderState)
    requires
        s.lines == t.lines,
        s.links == t.links,
    ensures
        extends(t, s),
{
    assert(t.lines.take(s.lines.len() as int) =~= s.lines);
    assert(t.links.take(s.links.len() as int) =~= s.links);
}

/// One more link at a line that exists keeps the rendering sound.
proof fn lemma_push_link_sound(
    s: RenderState,
    display_text: Seq<char>,
    target: LinkTargetView,
    line: nat,
)
    requires
        sound(s),
        line <= s.lines.len(),
    ensures
        sound(s.push_link(display_text, target, line)),
        extends(s.push_link(display_text, target, line), s),
{
    let t = s.push_link(display_text, target, line);
    assert(t.lines.take(s.lines.len() as int) =~= s.lines);
    assert(t.links.take(s.links.len() as int) =~= s.links);
}

proof fn lemma_start_sound(s: RenderState, tag: MdTagView)
    requires
        sound(s),
    ensures
        sound(after_start(s, tag)),
        extends(after_start(s, tag), s),
{
    let t = after_start(s, tag);
    let f = s.flush();
    lemma_flush_sound(s);
    match tag {
        MdTagView::FencedCode(_) | MdTagView::IndentedCode => {
            reveal(RenderState::begin_code);
            assert(t.lines =~= f.lines.push(t.lines.last()));
            assert(t.lines.take(f.lines.len() as int) =~= f.lines);
            assert(t.links.take(f.links.len() as int) =~= f.links);
            lemma_extends_trans(s, f, t);
        },
        MdTagView::Heading(_) | MdTagView::BlockQuote | MdTagView::List(_) | MdTagView::Item
        | MdTagView::Table => {
            lemma_extends_refl(f, t);
            lemma_extends_trans(s, f, t);
        },
        _ => {
            lemma_extends_refl(s, t);
        },
    }
}

proof fn lemma_end_sound(s: RenderState, tag: MdTagEnd)
    requires
        sound(s),
    ensures
        sound(after_end(s, tag)),
        extends(after_end(s, tag), s),
{
    let t = after_end(s, tag);
    let f = s.flush();
    lemma_flush_sound(s);
    match tag {
        MdTagEnd::Heading => {
            reveal(RenderState::end_heading);
            let a = RenderState { in_heading: false, ..s };
            let b = a.end_heading();
            let line = if s.lines.len() > 0 {
                (s.lines.len() - 1) as nat
            } else {
                0
            };
            lemma_push_link_sound(
                a,
                a.heading_text,
                LinkTargetView::InternalAnchor(anchor_chars(lowercased(a.heading_text))),
                line,
            );
            assert(s.links.take(s.links.len() as int) =~= s.links);
            assert(s.lines.take(s.lines.len() as int) =~= s.lines);
            assert(sound(b) && extends(b, s));
            lemma_flush_sound(b);
            let c = b.flush().pop_style();
            lemma_push_line_sound(c, Seq::empty());
            lemma_extends_refl(b.flush(), c);
            lemma_extends_trans(s, b, b.flush());
            lemma_extends_trans(s, b.flush(), c);
            lemma_extends_trans(s, c, t);
        },
        MdTagEnd::Paragraph => {
            let b = f.blank_line();
            lemma_push_line_sound(f, Seq::empty());
            lemma_wiki_links_lines(b.paragraph, 0, b.lines.len());
            assert(t.links.take(b.links.len() as int) =~= b.links);
            assert(t.lines.take(b.lines.len() as int) =~= b.lines);
            lemma_extends_trans(s, f, b);
            lemma_extends_trans(s, b, t);
        },
        MdTagEnd::BlockQuote => {
            let q = RenderState {
                quotes: if f.quotes > 0 {
                    (f.quotes - 1) as nat
                } else {
                    0
                },
                ..f
            }.pop_style();
            lemma_extends_refl(f, q);
            lemma_push_line_sound(q, Seq::empty());
            lemma_extends_trans(s, f, q);
            lemma_extends_trans(s, q, q.blank_line());
        },
        MdTagEnd::CodeBlock => {
            reveal(RenderState::end_code);
            assert(t.lines.take(s.lines.len() as int) =~= s.lines);
            assert(t.links.take(s.links.len() as int) =~= s.links);
        },
        MdTagEnd::List => {
            let l = RenderState {
                lists: if f.lists.len() > 0 {
                    f.lists.drop_last()
                } else {
                    f.lists
                },
                ..f
            };
            lemma_extends_refl(f, l);
            lemma_push_line_sound(l, Seq::empty());
            lemma_extends_trans(s, f, l);
            lemma_extends_trans(s, l, l.blank_line());
        },
        MdTagEnd::Table => {
            let p = f.pop_style();
            lemma_extends_refl(f, p);
            lemma_push_line_sound(p, Seq::empty());
            lemma_extends_trans(s, f, p);
            lemma_extends_trans(s, p, t);
        },
        MdTagEnd::TableHead => {
            let p = f.pop_style();
            lemma_extends_refl(f, p);
            lemma_push_line_sound(p, t.lines.last());
            assert(t.lines =~= p.push_line(t.lines.last()).lines);
            lemma_extends_trans(s, f, p);
            lemma_extends_trans(s, p, t);
        },
        MdTagEnd::Link => {
            match s.link_href {
                Some(href) => {
                    let b = s.push_link(s.link_text, target_of_href(href), s.link_line);
                    lemma_push_link_sound(s, s.link_text, target_of_href(href), s.link_line);
                    lemma_extends_refl(b, t);
                    lemma_extends_trans(s, b, t);
                },
                None => {
                    lemma_extends_refl(s, t);
                },
            }
        },
        MdTagEnd::Image => {
            reveal(RenderState::end_image);
            let alt = trimmed(s.image_alt);
            let target = LinkTargetView::Image { url: s.image_url, alt };
            let b = s.push_link(alt, target, s.lines.len());
            lemma_push_link_sound(s, alt, target, s.lines.len());
            lemma_extends_refl(b, t);
            lemma_extends_trans(s, b, t);
        },
        MdTagEnd::TableRow => {},
        _ => {
            lemma_extends_refl(s, t);
        },
    }
}

proof fn lemma_event_sound(s: RenderState, event: MdEventView)
    requires
        sound(s),
    ensures
        sound(after_event(s, event)),
        extends(after_event(s, event), s),
{
    let t = after_event(s, event);
    match event {
        MdEventView::Start(tag) => lemma_start_sound(s, tag),
        MdEventView::End(tag) => lemma_end_sound(s, tag),
        MdEventView::HardBreak => lemma_flush_sound(s),
        MdEventView::Rule => {
            let f = s.flush();
            let r = f.push_rule();
            lemma_flush_sound(s);
            lemma_push_line_sound(f, r.lines.last());
            assert(r.lines =~= f.push_line(r.lines.last()).lines);
            lemma_push_line_sound(r, Seq::empty());
            lemma_extends_trans(s, f, r);
            lemma_extends_trans(s, r, t);
        },
        _ => {
            lemma_extends_refl(s, t);
        },
    }
}

proof fn lemma_events_sound(env: RenderEnv, events: Seq<MdEventView>)
    ensures
        sound(after_events(initial_state(env), events)),
    decreases events.len(),
{
    if events.len() > 0 {
        lemma_events_sound(env, events.drop_last());
        lemma_event_sound(after_events(initial_state(env), events.drop_last()), events.last());
    }
}

/// Rendering only adds: whatever an event does, the lines and links that were there before it
/// stay as they are.
pub proof fn law_rendering_only_adds(env: RenderEnv, events: Seq<MdEventView>, next: MdEventView)
    ensures
        extends(
            after_event(after_events(initial_state(env), events), next),
            after_events(initial_state(env), events),
        ),
{
    lemma_events_sound(env, events);
    lemma_event_sound(after_events(initial_state(env), events), next);
}

/// Whatever the nesting of the events, every link of a rendered document points to a line of the
/// text or to its end.
pub proof fn law_links_point_into_the_text(env: RenderEnv, events: Seq<MdEventView>)
    ensures
        forall|i: int|
            0 <= i < rendered(env, events).links.len() ==> (#[trigger] rendered(
                env,
                events,
            ).links[i]).source_line <= rendered(env, events).lines.len(),
{
    lemma_events_sound(env, events);
    lemma_flush_sound(after_events(initial_state(env), events));
}

/// Every line that is flushed fits into the column width.
pub proof fn law_flushed_lines_fit(s: RenderState, i: int)
    requires
        s.env.col_width > 0,
        s.lines.len() <= i < s.flush().lines.len(),
    ensures
        line_width(s.flush().lines[i]) <= s.env.col_width,
{
    reveal(RenderState::flush);
    law_wrapped_lines_fit(s.assembled(), s.env.col_width);
    let new = wrapped(s.assembled(), s.env.col_width);
    if !(s.quotes == 0 && all_white_space(line_text(s.assembled()))) {
        assert(s.flush().lines[i] == new[i - s.lines.len()]);
    }
}

/// A document without events renders to one blank line and no links.
pub proof fn law_empty_document(env: RenderEnv)
    ensures
        rendered(env, Seq::empty()).lines == seq![Seq::<SpanView>::empty()],
        rendered(env, Seq::empty()).links == Seq::<LinkView>::empty(),
{
    reveal(RenderState::flush);
    let s = initial_state(env);
    assert(after_events(s, Seq::empty()) == s);
    assert(s.assembled() =~= Seq::<SpanView>::empty());
    assert(line_text(s.assembled()) =~= Seq::<char>::empty());
    assert(s.flush().lines =~= seq![Seq::<SpanView>::empty()]);
}

/// What the open lists are after an event.
spec fn lists_after(s: RenderState, event: MdEventView) -> Seq<ListLevelView> {
    match event {
        MdEventView::Start(MdTagView::List(None)) => s.lists.push(
            ListLevelView { kind: ListKind::Unordered, next: 0 },
        ),
        MdEventView::Start(MdTagView::List(Some(n))) => s.lists.push(
            ListLevelView { kind: ListKind::Ordered, next: n as nat },
        ),
        MdEventView::End(MdTagEnd::List) => if s.lists.len() > 0 {
            s.lists.drop_last()
        } else {
            s.lists
        },
        MdEventView::Start(MdTagView::Item) => after_item(s).lists,
        _ => s.lists,
    }
}

proof fn lemma_steps_frame(s: RenderState)
    ensures
        s.flush().lists == s.lists,
        s.flush().styles == s.styles,
        s.flush().quotes == s.quotes,
        s.end_code().lists == s.lists,
        s.end_code().styles == s.styles,
        s.end_code().quotes == s.quotes,
        s.end_heading().lists == s.lists,
        s.end_heading().styles == s.styles,
        s.end_heading().quotes == s.quotes,
        s.end_image().lists == s.lists,
        s.end_image().styles == s.styles,
        s.end_image().quotes == s.quotes,
        forall|l: Option<Seq<char>>| (#[trigger] s.begin_code(l)).lists == s.lists,
        forall|l: Option<Seq<char>>| (#[trigger] s.begin_code(l)).styles == s.styles,
{
    reveal(RenderState::flush);
    reveal(RenderState::end_code);
    reveal(RenderState::end_heading);
    reveal(RenderState::end_image);
    reveal(RenderState::begin_code);
}

proof fn lemma_event_frame(s: RenderState, event: MdEventView)
    requires
        s.styles.len() > 0,
    ensures
        after_event(s, event).styles.len() > 0,
        after_event(s, event).lists == lists_after(s, event),
        event is End && s.quotes == 0 ==> after_event(s, event).quotes == 0,
        event is End && s.styles.len() == 1 ==> after_event(s, event).styles == s.styles,
{
    lemma_steps_frame(s);
    lemma_steps_frame(s.flush());
    lemma_steps_frame(RenderState { in_heading: false, ..s });
    lemma_steps_frame(RenderState { in_heading: false, ..s }.end_heading());
}

proof fn lemma_styles_stay(env: RenderEnv, events: Seq<MdEventView>)
    ensures
        after_events(initial_state(env), events).styles.len() > 0,
    decreases events.len(),
{
    if events.len() > 0 {
        lemma_styles_stay(env, events.drop_last());
        lemma_event_frame(after_events(initial_state(env), events.drop_last()), events.last());
    }
}

/// Every end is handled, also one without a start: there is always a style, no block quote and no
/// list is closed that is not open, the outermost style stays, and no line or link is lost.
pub proof fn law_ends_need_no_start(env: RenderEnv, events: Seq<MdEventView>, tag: MdTagEnd)
    ensures
        ({
            let s = after_events(initial_state(env), events);
            let t = after_event(s, MdEventView::End(tag));
            &&& t.styles.len() > 0
            &&& s.styles.len() == 1 ==> t.styles == s.styles
            &&& s.quotes == 0 ==> t.quotes == 0
            &&& s.lists.len() == 0 ==> t.lists.len() == 0
            &&& extends(t, s)
            &&& s.lines.is_prefix_of(t.lines)
        }),
{
    let s = after_events(initial_state(env), events);
    let t = after_event(s, MdEventView::End(tag));
    lemma_styles_stay(env, events);
    lemma_event_frame(s, MdEventView::End(tag));
    law_rendering_only_adds(env, events, MdEventView::End(tag));
    assert(s.lines =~= t.lines.subrange(0, s.lines.len() as int));
}

/// How many more lists are open after these events than before them.
pub open spec fn lists_opened(events: Seq<MdEventView>) -> int
    decreases events.len(),
{
    if events.len() == 0 {
        0
    } else {
        lists_opened(events.drop_last()) + match events.last() {
            MdEventView::Start(MdTagView::List(_)) => 1int,
            MdEventView::End(MdTagEnd::List) => -1,
            _ => 0,
        }
    }
}

/// None of these events closes a list that was open before them.
pub open spec fn stays_open(events: Seq<MdEventView>) -> bool {
    forall|k: int| 0 <= k <= events.len() ==> lists_opened(#[trigger] events.take(k)) >= 0
}

/// How many items these events start in the list that was open before them; the items of nested
/// lists do not count.
pub open spec fn items_started(events: Seq<MdEventView>) -> nat
    decreases events.len(),
{
    if events.len() == 0 {
        0
    } else {
        items_started(events.drop_last()) + if events.last() == MdEventView::Start(MdTagView::Item)
            && lists_opened(events.drop_last()) == 0 {
            1nat
        } else {
            0
        }
    }
}

/// While a list stays open, its own items count its number up, the lists around it stay as they
/// are, and nested lists come and go behind it.
proof fn lemma_numbers(s: RenderState, n: u64, events: Seq<MdEventView>)
    requires
        s.styles.len() > 0,
        stays_open(events),
    ensures
        ({
            let list = after_event(s, MdEventView::Start(MdTagView::List(Some(n))));
            let t = after_events(list, events);
            let d = s.lists.len() as int;
            &&& t.styles.len() > 0
            &&& t.lists.len() == d + 1 + lists_opened(events)
            &&& t.lists.take(d) == s.lists
            &&& t.lists[d] == (ListLevelView {
                kind: ListKind::Ordered,
                next: n as nat + items_started(events),
            })
        }),
    decreases events.len(),
{
    let start = MdEventView::Start(MdTagView::List(Some(n)));
    let list = after_event(s, start);
    let d = s.lists.len() as int;
    lemma_event_frame(s, start);
    assert(events.take(events.len() as int) =~= events);
    if events.len() == 0 {
        assert(list.lists.take(d) =~= s.lists);
    } else {
        let front = events.drop_last();
        assert forall|k: int| 0 <= k <= front.len() implies lists_opened(#[trigger] front.take(k))
            >= 0 by {
            assert(front.take(k) =~= events.take(k));
        }
        lemma_numbers(s, n, front);
        let u = after_events(list, front);
        let t = after_events(list, events);
        lemma_event_frame(u, events.last());
        assert(t == after_event(u, events.last()));
        assert(lists_opened(events.take(events.len() as int)) >= 0);
        assert(t.lists.take(d) =~= u.lists.take(d));
    }
}

/// The items of an ordered list are numbered one after another from the number that the list
/// starts with. Whatever stands in the items, whole nested lists included, does not disturb the
/// count.
pub proof fn law_list_items_are_numbered(
    env: RenderEnv,
    before: Seq<MdEventView>,
    n: u64,
    events: Seq<MdEventView>,
)
    requires
        stays_open(events),
        lists_opened(events) == 0,
    ensures
        ({
            let s = after_events(initial_state(env), before);
            let list = after_event(s, MdEventView::Start(MdTagView::List(Some(n))));
            let item = after_event(
                after_events(list, events),
                MdEventView::Start(MdTagView::Item),
            );
            item.prefix == Some(
                repeated(' ', s.lists.len()) + decimal(n as nat + items_started(events)) + ". "@,
            )
        }),
{
    let s = after_events(initial_state(env), before);
    let list = after_event(s, MdEventView::Start(MdTagView::List(Some(n))));
    lemma_styles_stay(env, before);
    lemma_numbers(s, n, events);
    lemma_steps_frame(after_events(list, events));
}

} // verus!
