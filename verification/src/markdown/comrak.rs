//! The engine for HTML output.
//!
//! Terminal rendering is delegated to an embedded `PulldownEngine`, so that there is one
//! terminal rendering across the whole application.
use vstd::prelude::*;

use comrak::{Options, markdown_to_html};

use crate::markdown::engine::MarkdownEngine;
use crate::markdown::pulldown::{EngineExtensions, PulldownEngine};
use crate::style::{SpanView, Text};
use crate::text::{lines_of, text_lines, views};

verus! {

/// The most HTML lines that the preview pane shows.
pub const HTML_LINE_LIMIT: usize = 2000;

/// The dialect extensions of the HTML output.
#[derive(Debug, Clone, Copy, PartialEq, Eq, Structural)]
pub struct ComrakExtensions {
    pub gfm: bool,
    pub wiki_links: bool,
    pub footnotes: bool,
    pub frontmatter: bool,
    pub math: bool,
}

impl Default for ComrakExtensions {
    fn default() -> (r: ComrakExtensions)
        ensures
            r == (ComrakExtensions {
                gfm: false,
                wiki_links: false,
                footnotes: false,
                frontmatter: false,
                math: false,
            }),
    {
        ComrakExtensions {
            gfm: false,
            wiki_links: false,
            footnotes: false,
            frontmatter: false,
            math: false,
        }
    }
}

/// The options with which the HTML renderer is called. Everything that is not named here keeps
/// its default; in particular raw HTML in the source is not passed through.
#[derive(Debug)]
pub struct ComrakOptions {
    pub table: bool,
    pub tasklist: bool,
    pub strikethrough: bool,
    pub autolink: bool,
    pub wikilinks_title_after_pipe: bool,
    pub footnotes: bool,
    pub front_matter_delimiter: Option<String>,
    pub math_code: bool,
    pub math_dollars: bool,
}

#[verifier::ext_equal]
pub struct ComrakOptionsView {
    pub table: bool,
    pub tasklist: bool,
    pub strikethrough: bool,
    pub autolink: bool,
    pub wikilinks_title_after_pipe: bool,
    pub footnotes: bool,
    pub front_matter_delimiter: Option<Seq<char>>,
    pub math_code: bool,
    pub math_dollars: bool,
}

impl View for ComrakOptions {
    type V = ComrakOptionsView;

    open spec fn view(&self) -> ComrakOptionsView {
        ComrakOptionsView {
            table: self.table,
            tasklist: self.tasklist,
            strikethrough: self.strikethrough,
            autolink: self.autolink,
            wikilinks_title_after_pipe: self.wikilinks_title_after_pipe,
            footnotes: self.footnotes,
            front_matter_delimiter: match self.front_matter_delimiter {
                Some(d) => Some(d@),
                None => None,
            },
            math_code: self.math_code,
            math_dollars: self.math_dollars,
        }
    }
}

/// The options for a set of extensions.
pub open spec fn comrak_options(e: ComrakExtensions) -> ComrakOptionsView {
    ComrakOptionsView {
        table: e.gfm,
        tasklist: e.gfm,
        strikethrough: e.gfm,
        autolink: e.gfm,
        wikilinks_title_after_pipe: e.wiki_links,
        footnotes: e.footnotes,
        front_matter_delimiter: if e.frontmatter {
            Some("---"@)
        } else {
            None
        },
        math_code: e.math,
        math_dollars: e.math,
    }
}

impl ComrakExtensions {
    /// The renderer options for these extensions.
    pub fn to_comrak_options(&self) -> (r: ComrakOptions)
        ensures
            r@ == comrak_options(*self),
    {
        ComrakOptions {
            table: self.gfm,
            tasklist: self.gfm,
            strikethrough: self.gfm,
            autolink: self.gfm,
            wikilinks_title_after_pipe: self.wiki_links,
            footnotes: self.footnotes,
            front_matter_delimiter: if self.frontmatter {
                Some("---".to_owned())
            } else {
                None
            },
            math_code: self.math,
            math_dollars: self.math,
        }
    }

    /// The matching extensions of the embedded terminal engine.
    #[verifier::allow_in_spec]
    pub fn to_pulldown_extensions(&self) -> EngineExtensions
        returns
            (EngineExtensions {
                gfm: self.gfm,
                footnotes: self.footnotes,
                wiki_links: self.wiki_links,
            }),
    {
        EngineExtensions {
            gfm: self.gfm,
            footnotes: self.footnotes,
            wiki_links: self.wiki_links,
        }
    }
}

/// The HTML of a Markdown document.
pub uninterp spec fn comrak_html(src: Seq<char>, options: ComrakOptionsView) -> Seq<char>;

/// `comrak::markdown_to_html` with default options but for the named ones. The HTML depends on
/// the source and the options alone.
#[verifier::external_body]
fn to_html(src: &str, options: &ComrakOptions) -> (r: String)
    ensures
        r@ == comrak_html(src@, options@),
{
    let mut opts = Options::default();
    opts.extension.table = options.table;
    opts.extension.tasklist = options.tasklist;
    opts.extension.strikethrough = options.strikethrough;
    opts.extension.autolink = options.autolink;
    opts.extension.wikilinks_title_after_pipe = options.wikilinks_title_after_pipe;
    opts.extension.footnotes = options.footnotes;
    opts.extension.front_matter_delimiter = options.front_matter_delimiter.clone();
    opts.extension.math_code = options.math_code;
    opts.extension.math_dollars = options.math_dollars;
    markdown_to_html(src, &opts)
}

/// The engine that produces HTML.
pub struct ComrakEngine {
    opts: ComrakOptions,
    terminal_engine: PulldownEngine,
}

impl ComrakEngine {
    pub closed spec fn options(self) -> ComrakOptionsView {
        self.opts@
    }

    /// The engine that renders for the terminal.
    pub closed spec fn terminal_engine(self) -> PulldownEngine {
        self.terminal_engine
    }

    pub fn new(extensions: ComrakExtensions) -> (r: ComrakEngine)
        ensures
            r.options() == comrak_options(extensions),
            r.terminal_engine().extensions() == extensions.to_pulldown_extensions(),
            r.terminal_engine().highlighter() is None,
            !r.terminal_engine().highlighting().enabled,
    {
        let terminal_engine = PulldownEngine::new(extensions.to_pulldown_extensions());
        let opts = extensions.to_comrak_options();
        ComrakEngine { opts, terminal_engine }
    }

    /// An engine with GFM on and everything else off.
    pub fn with_gfm() -> (r: ComrakEngine)
        ensures
            r.options() == comrak_options(
                (ComrakExtensions {
                    gfm: true,
                    wiki_links: false,
                    footnotes: false,
                    frontmatter: false,
                    math: false,
                }),
            ),
            r.terminal_engine().extensions() == (EngineExtensions {
                gfm: true,
                footnotes: false,
                wiki_links: false,
            }),
            r.terminal_engine().highlighter() is None,
            !r.terminal_engine().highlighting().enabled,
    {
        ComrakEngine::new(
            ComrakExtensions {
                gfm: true,
                wiki_links: false,
                footnotes: false,
                frontmatter: false,
                math: false,
            },
        )
    }
}

impl MarkdownEngine for ComrakEngine {
    open spec fn terminal(&self, src: Seq<char>, col_width: u16) -> Seq<Seq<SpanView>> {
        self.terminal_engine().terminal(src, col_width)
    }

    open spec fn html(&self, src: Seq<char>) -> Seq<char> {
        comrak_html(src, self.options())
    }

    fn render_terminal(&self, src: &str, col_width: u16) -> (r: Text) {
        self.terminal_engine.render_terminal(src, col_width)
    }

    fn render_html(&self, src: &str) -> (r: String) {
        to_html(src, &self.opts)
    }
}

/// The lines of an HTML text as the preview pane shows them: at most `HTML_LINE_LIMIT`, with a
/// note at the end where there are more.
pub open spec fn shown_html_lines(html: Seq<char>) -> Seq<Seq<char>> {
    let lines = text_lines(html);
    if lines.len() > HTML_LINE_LIMIT {
        lines.take(HTML_LINE_LIMIT as int).push(
            "// [truncated - document too large for inline HTML view]"@,
        )
    } else {
        lines
    }
}

/// Splits an HTML text into the lines that the preview pane shows.
pub fn html_to_lines(html: &str) -> (r: Vec<String>)
    ensures
        views(r@) == shown_html_lines(html@),
{
    let mut lines = lines_of(html);
    if lines.len() > HTML_LINE_LIMIT {
        let ghost all = lines@;
        lines.truncate(HTML_LINE_LIMIT);
        let note = "// [truncated - document too large for inline HTML view]".to_owned();
        let ghost note_view = note@;
        let ghost cut = lines@;
        lines.push(note);
        assert(views(lines@) =~= views(cut).push(note_view));
        assert(views(cut) =~= views(all).take(HTML_LINE_LIMIT as int));
    }
    lines
}

/// However long the HTML is, the preview shows at most `HTML_LINE_LIMIT` of its lines and one
/// note.
pub proof fn law_html_lines_are_capped(html: Seq<char>)
    ensures
        shown_html_lines(html).len() <= HTML_LINE_LIMIT + 1,
        text_lines(html).len() <= HTML_LINE_LIMIT ==> shown_html_lines(html) == text_lines(html),
        forall|i: int|
            0 <= i < text_lines(html).len() && i < HTML_LINE_LIMIT ==> #[trigger] shown_html_lines(
                html,
            )[i] == text_lines(html)[i],
{
}

} // verus!
