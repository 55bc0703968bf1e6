//! The Markdown engines: a common interface over the parser backends.
use vstd::prelude::*;

use crate::links::{LinkIndex, LinkView};
use crate::style::{SpanView, Text};

verus! {

/// A Markdown parser and renderer.
pub trait MarkdownEngine {
    /// The terminal lines of a document for a width in columns.
    spec fn terminal(&self, src: Seq<char>, col_width: u16) -> Seq<Seq<SpanView>>;

    /// The HTML of a document.
    spec fn html(&self, src: Seq<char>) -> Seq<char>;

    /// Renders `src` for the preview pane.
    ///
    /// `col_width` is the usable column count of the pane. Long lines are wrapped to it.
    fn render_terminal(&self, src: &str, col_width: u16) -> (r: Text)
        ensures
            r@ == self.terminal(src@, col_width),
    ;

    /// Renders `src` as HTML.
    fn render_html(&self, src: &str) -> (r: String)
        ensures
            r@ == self.html(src@),
    ;

    /// Renders `src` for the preview pane and collects its links in the same pass.
    ///
    /// An engine that does not collect links returns an empty index.
    fn render_terminal_with_links(&self, src: &str, col_width: u16) -> (r: (Text, LinkIndex))
        ensures
            r.0@ == self.terminal(src@, col_width),
        default_ensures
            r.1@ == Seq::<LinkView>::empty(),
    {
        (self.render_terminal(src, col_width), LinkIndex::new())
    }
}

} // verus!
