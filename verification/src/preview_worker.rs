//! The preview worker: what it renders, and which request it renders.
//!
//! The worker renders both the terminal lines and the HTML of a request, so that switching the
//! preview mode needs no further pass. Requests are debounced: as long as newer ones arrive
//! within the debounce window, only the newest is kept.
//!
//! The terminal lines come from the engine that the configuration names, the HTML always from
//! Comrak.
//!
//! A renderer that fails does not take the worker down: an error message takes the place of what
//! it should have rendered.
use vstd::prelude::*;

use std::sync::Arc;

use crate::config;
use crate::config::HighlightingConfig;
use crate::links::{LinkIndex, LinkView};
use crate::markdown::comrak::{ComrakEngine, ComrakExtensions, comrak_html, comrak_options};
use crate::markdown::engine::MarkdownEngine;
use crate::markdown::highlight::{Highlighter, holds_bundled_themes, knows_common_languages};
use crate::markdown::pulldown::{EngineExtensions, PulldownEngine};
use crate::style::{Color, Line, Modifier, SpanView, Style, Text, line_text, span};

verus! {

/// The settings of both engines.
#[derive(Debug, Clone)]
pub struct WorkerExtensions {
    pub gfm: bool,
    pub wiki_links: bool,
    pub footnotes: bool,
    pub frontmatter: bool,
    pub math: bool,
    pub highlighting: HighlightingConfig,
    /// The engine for the terminal lines.
    pub engine: config::MarkdownEngine,
}

impl Default for WorkerExtensions {
    fn default() -> (r: WorkerExtensions)
        ensures
            !r.gfm,
            !r.wiki_links,
            !r.footnotes,
            !r.frontmatter,
            !r.math,
            r.highlighting.is_default(),
            r.engine is PulldownCmark,
    {
        WorkerExtensions {
            gfm: false,
            wiki_links: false,
            footnotes: false,
            frontmatter: false,
            math: false,
            highlighting: HighlightingConfig::default(),
            engine: config::MarkdownEngine::PulldownCmark,
        }
    }
}

impl WorkerExtensions {
    /// The extensions of the terminal engine.
    #[verifier::allow_in_spec]
    pub fn to_engine_extensions(&self) -> EngineExtensions
        returns
            (EngineExtensions {
                gfm: self.gfm,
                footnotes: self.footnotes,
                wiki_links: self.wiki_links,
            }),
    {
        EngineExtensions {
            gfm: self.gfm,
            footnotes: self.footnotes,
            wiki_links: self.wiki_links,
        }
    }

    /// The extensions of the HTML engine.
    #[verifier::allow_in_spec]
    pub fn to_comrak_extensions(&self) -> ComrakExtensions
        returns
            (ComrakExtensions {
                gfm: self.gfm,
                wiki_links: self.wiki_links,
                footnotes: self.footnotes,
                frontmatter: self.frontmatter,
                math: self.math,
            }),
    {
        ComrakExtensions {
            gfm: self.gfm,
            wiki_links: self.wiki_links,
            footnotes: self.footnotes,
            frontmatter: self.frontmatter,
            math: self.math,
        }
    }
}

/// A request to render the document.
#[derive(Debug, Clone)]
pub struct RenderRequest {
    /// The revision of the document. A result for another revision is discarded.
    pub revision: u64,
    /// The Markdown source.
    pub markdown: String,
    /// Width of the preview pane in columns.
    pub col_width: u16,
}

/// What was rendered for a request.
#[derive(Debug)]
pub struct RenderResult {
    pub revision: u64,
    /// The terminal lines.
    pub rendered: Text,
    pub html: String,
    /// The links of the document.
    pub link_index: LinkIndex,
}

#[verifier::ext_equal]
pub struct RenderRequestView {
    pub revision: u64,
    pub markdown: Seq<char>,
    pub col_width: u16,
}

impl View for RenderRequest {
    type V = RenderRequestView;

    open spec fn view(&self) -> RenderRequestView {
        RenderRequestView {
            revision: self.revision,
            markdown: self.markdown@,
            col_width: self.col_width,
        }
    }
}

#[verifier::ext_equal]
pub struct RenderResultView {
    pub revision: u64,
    pub rendered: Seq<Seq<SpanView>>,
    pub html: Seq<char>,
    pub links: Seq<LinkView>,
}

impl View for RenderResult {
    type V = RenderResultView;

    open spec fn view(&self) -> RenderResultView {
        RenderResultView {
            revision: self.revision,
            rendered: self.rendered@,
            html: self.html@,
            links: self.link_index@,
        }
    }
}

/// The engines of the worker.
pub struct WorkerEngines {
    pub terminal: PulldownEngine,
    pub html: ComrakEngine,
    /// The engine for the terminal lines. One that there is no backend for is replaced by
    /// `PulldownCmark`.
    pub engine: config::MarkdownEngine,
}

impl WorkerEngines {
    /// The engines for a set of extensions. The terminal engine highlights code as the settings
    /// say.
    pub fn new(extensions: WorkerExtensions) -> (r: WorkerEngines)
        ensures
            r.terminal.extensions() == extensions.to_engine_extensions(),
            r.terminal.highlighter() matches Some(h) && holds_bundled_themes(h.themes())
                && knows_common_languages(h.syntaxes()),
            r.terminal.highlighting() == extensions.highlighting,
            r.html.options() == comrak_options(extensions.to_comrak_extensions()),
            r.html.terminal_engine().extensions() == extensions.to_engine_extensions(),
            r.html.terminal_engine().highlighter() is None,
            r.engine == extensions.engine,
    {
        let engine_extensions = extensions.to_engine_extensions();
        let html = ComrakEngine::new(extensions.to_comrak_extensions());
        let highlighter = Arc::new(Highlighter::load_defaults());
        let terminal = PulldownEngine::new_with_highlighting(
            engine_extensions,
            highlighter,
            extensions.highlighting,
        );
        WorkerEngines { terminal, html, engine: extensions.engine }
    }

    /// The terminal lines of a document.
    pub open spec fn lines(&self, src: Seq<char>, col_width: u16) -> Seq<Seq<SpanView>> {
        if self.engine is Comrak {
            self.html.terminal(src, col_width)
        } else {
            self.terminal.rendering(src, col_width).lines
        }
    }

    /// The links of a document. Comrak collects none.
    pub open spec fn links(&self, src: Seq<char>, col_width: u16) -> Seq<LinkView> {
        if self.engine is Comrak {
            Seq::empty()
        } else {
            self.terminal.rendering(src, col_width).links
        }
    }

    /// Renders a document for the terminal.
    pub fn render_terminal(&self, src: &str, col_width: u16) -> (r: (Text, LinkIndex))
        ensures
            r.0@ == self.lines(src@, col_width),
            r.1@ == self.links(src@, col_width),
    {
        match self.engine {
            config::MarkdownEngine::Comrak => self.html.render_terminal_with_links(
                src,
                col_width,
            ),
            _ => self.terminal.render_terminal_with_links(src, col_width),
        }
    }

    /// Renders a request with both engines.
    pub fn render(&self, request: &RenderRequest) -> (r: RenderResult)
        ensures
            r@ == (RenderResultView {
                revision: request.revision,
                rendered: self.lines(request.markdown@, request.col_width),
                html: comrak_html(request.markdown@, self.html.options()),
                links: self.links(request.markdown@, request.col_width),
            }),
    {
        let (text, links) = self.render_terminal(request.markdown.as_str(), request.col_width);
        let html = self.html.render_html(request.markdown.as_str());
        assemble_result(request.revision, Some((text, links)), Some(html))
    }
}

/// The lines shown in place of a preview that could not be rendered.
pub open spec fn error_lines(message: Seq<char>) -> Seq<Seq<SpanView>> {
    seq![
        seq![span(message, Style::plain().fg(Color::Red).add_modifier(Modifier::bold()))],
    ]
}

/// One line with an error message.
pub fn error_text(msg: &str) -> (r: Text)
    ensures
        r@ == error_lines(msg@),
{
    let mut lines: Vec<Line> = Vec::new();
    lines.push(
        Line::of(msg.to_owned(), Style::plain().fg(Color::Red).add_modifier(Modifier::bold())),
    );
    let r = Text { lines };
    assert(r@ =~= error_lines(msg@));
    r
}

/// Puts a result together. A renderer that failed is given as `None`; a message takes its place.
pub fn assemble_result(
    revision: u64,
    terminal: Option<(Text, LinkIndex)>,
    html: Option<String>,
) -> (r: RenderResult)
    ensures
        r@ == (RenderResultView {
            revision,
            rendered: match terminal {
                Some((text, _)) => text@,
                None => error_lines(
                    "Preview renderer panicked. Please check logs for details."@,
                ),
            },
            html: match html {
                Some(h) => h@,
                None =>
                    "<!-- HTML renderer panicked. Please check logs for more detail -->"@,
            },
            links: match terminal {
                Some((_, links)) => links@,
                None => Seq::empty(),
            },
        }),
{
    let (rendered, link_index) = match terminal {
        Some((text, links)) => (text, links),
        None => (
            error_text("Preview renderer panicked. Please check logs for details."),
            LinkIndex::new(),
        ),
    };
    let html = match html {
        Some(h) => h,
        None => "<!-- HTML renderer panicked. Please check logs for more detail -->".to_owned(),
    };
    RenderResult { revision, rendered, html, link_index }
}

/// What happened while the worker waited for a newer request.
pub enum Arrival {
    /// A newer request arrived within the debounce window.
    Newer(RenderRequest),
    /// The window passed without one.
    Timeout,
    /// No more requests can arrive.
    Disconnected,
}

/// What the worker does next.
pub enum Drain {
    /// Wait on with this request.
    Wait(RenderRequest),
    /// Render this request.
    Render(RenderRequest),
}

/// Keeps the most recent request until the debounce window passes without a newer one.
pub fn drain_to_latest(current: RenderRequest, arrival: Arrival) -> (r: Drain)
    ensures
        r == drain_step(current, arrival),
{
    match arrival {
        Arrival::Newer(newer) => Drain::Wait(newer),
        Arrival::Timeout => Drain::Render(current),
        Arrival::Disconnected => Drain::Render(current),
    }
}

/// The request that is rendered after a run of arrivals of which only the last is no request.
pub open spec fn drained(current: RenderRequest, newer: Seq<RenderRequest>) -> RenderRequest {
    if newer.len() == 0 {
        current
    } else {
        newer.last()
    }
}

/// What is held after each of `newer` has arrived.
pub open spec fn held(current: RenderRequest, newer: Seq<RenderRequest>) -> RenderRequest
    decreases newer.len(),
{
    if newer.len() == 0 {
        current
    } else {
        match drain_step(held(current, newer.drop_last()), Arrival::Newer(newer.last())) {
            Drain::Wait(r) => r,
            Drain::Render(r) => r,
        }
    }
}

/// The step of `drain_to_latest`.
pub open spec fn drain_step(current: RenderRequest, arrival: Arrival) -> Drain {
    match arrival {
        Arrival::Newer(newer) => Drain::Wait(newer),
        Arrival::Timeout => Drain::Render(current),
        Arrival::Disconnected => Drain::Render(current),
    }
}

/// Of a burst of requests only the latest is rendered, whether the burst ends because no newer one
/// came in time or because no more can come.
pub proof fn law_only_the_latest_request_is_rendered(
    current: RenderRequest,
    newer: Seq<RenderRequest>,
)
    ensures
        drain_step(held(current, newer), Arrival::Timeout) == Drain::Render(
            drained(current, newer),
        ),
        drain_step(held(current, newer), Arrival::Disconnected) == Drain::Render(
            drained(current, newer),
        ),
{
    if newer.len() > 0 {
        assert(held(current, newer) == newer.last());
    }
}

/// Both engines read the same dialect: what is switched on for the one is switched on for the
/// other, and nothing else is.
pub proof fn law_both_engines_read_the_same_dialect(extensions: WorkerExtensions)
    ensures
        ({
            let terminal = extensions.to_engine_extensions();
            let html = extensions.to_comrak_extensions();
            let parser = terminal.to_pulldown_options();
            let options = comrak_options(html);
            &&& parser.tables == extensions.gfm && options.table == extensions.gfm
            &&& parser.tasklists == extensions.gfm && options.tasklist == extensions.gfm
            &&& parser.strikethrough == extensions.gfm && options.strikethrough == extensions.gfm
            &&& options.autolink == extensions.gfm
            &&& parser.footnotes == extensions.footnotes && options.footnotes
                == extensions.footnotes
            &&& terminal.wiki_links == extensions.wiki_links && options.wikilinks_title_after_pipe
                == extensions.wiki_links
            &&& options.math_code == extensions.math && options.math_dollars == extensions.math
            &&& extensions.frontmatter ==> options.front_matter_delimiter == Some(
                seq!['-', '-', '-'],
            )
            &&& !extensions.frontmatter ==> options.front_matter_delimiter is None
            &&& html.to_pulldown_extensions() == terminal
        }),
{
    reveal_strlit("---");
    assert("---"@ =~= seq!['-', '-', '-']);
}

/// What the engine that was chosen draws is shown; an engine without a backend is replaced by the
/// default one. Only the default one collects links.
pub proof fn law_the_chosen_engine_draws(engines: WorkerEngines, src: Seq<char>, col_width: u16)
    ensures
        engines.engine is Comrak ==> engines.lines(src, col_width) == engines.html.terminal(
            src,
            col_width,
        ) && engines.links(src, col_width).len() == 0,
        !(engines.engine is Comrak) ==> engines.lines(src, col_width) == engines.terminal.terminal(
            src,
            col_width,
        ) && engines.links(src, col_width) == engines.terminal.rendering(src, col_width).links,
{
}

/// A preview that failed shows its message, and nothing but it.
pub proof fn law_failures_are_shown(message: Seq<char>)
    ensures
        error_lines(message).len() == 1,
        line_text(error_lines(message)[0]) == message,
        error_lines(message)[0][0].style.fg == Some(Color::Red),
{
    let line = error_lines(message)[0];
    assert(line.drop_last() =~= Seq::<SpanView>::empty());
    assert(line_text(line.drop_last()) =~= Seq::<char>::empty());
    assert(line_text(line) =~= message);
}

} // verus!
