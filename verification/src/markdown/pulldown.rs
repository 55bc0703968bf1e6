//! The engine for the terminal preview.
use vstd::prelude::*;

use std::sync::Arc;

use crate::config::{FallbackStyle, HighlightingConfig};
use crate::links::LinkIndex;
use crate::markdown::engine::MarkdownEngine;
use crate::markdown::events::{PulldownOptions, markdown_events, parse_markdown};
use crate::markdown::highlight::{Highlighter, holds_bundled_themes, knows_common_languages};
use crate::markdown::render::{RenderEnv, RenderState, env_of, render_events, rendered};
use crate::style::{SpanView, Text};

verus! {

/// The dialect extensions of the terminal preview.
#[derive(Debug, Clone, Copy, PartialEq, Eq, Structural)]
pub struct EngineExtensions {
    pub gfm: bool,
    pub footnotes: bool,
    pub wiki_links: bool,
}

impl Default for EngineExtensions {
    fn default() -> (r: EngineExtensions)
        ensures
            r == (EngineExtensions { gfm: false, footnotes: false, wiki_links: false }),
    {
        EngineExtensions { gfm: false, footnotes: false, wiki_links: false }
    }
}

impl EngineExtensions {
    /// The parser options for these extensions.
    ///
    /// GFM stands for tables, task lists and strikethrough. Smart punctuation is never asked for:
    /// it can mangle code that contains `--` or `...`.
    #[verifier::allow_in_spec]
    pub fn to_pulldown_options(&self) -> PulldownOptions
        returns
            (PulldownOptions {
                tables: self.gfm,
                tasklists: self.gfm,
                strikethrough: self.gfm,
                footnotes: self.footnotes,
            }),
    {
        PulldownOptions {
            tables: self.gfm,
            tasklists: self.gfm,
            strikethrough: self.gfm,
            footnotes: self.footnotes,
        }
    }
}

/// The default engine for the terminal preview.
#[derive(Debug)]
pub struct PulldownEngine {
    extensions: EngineExtensions,
    /// The shared syntax highlighter, if any.
    highlighter: Option<Arc<Highlighter>>,
    highlighting_config: HighlightingConfig,
}

impl Clone for PulldownEngine {
    fn clone(&self) -> (r: PulldownEngine)
        ensures
            r == *self,
    {
        PulldownEngine {
            extensions: self.extensions,
            highlighter: match &self.highlighter {
                Some(h) => Some(h.clone()),
                None => None,
            },
            highlighting_config: self.highlighting_config.clone(),
        }
    }
}

impl PulldownEngine {
    pub closed spec fn extensions(self) -> EngineExtensions {
        self.extensions
    }

    pub closed spec fn highlighter(self) -> Option<Highlighter> {
        match self.highlighter {
            Some(h) => Some(*h),
            None => None,
        }
    }

    pub closed spec fn highlighting(self) -> HighlightingConfig {
        self.highlighting_config
    }

    /// The settings with which this engine renders.
    pub open spec fn env(self, col_width: u16) -> RenderEnv {
        RenderEnv {
            col_width: col_width as nat,
            wiki_links: self.extensions().wiki_links,
            highlighter: self.highlighter(),
            highlighting: self.highlighting().enabled,
            theme: self.highlighting().theme@,
            fallback: self.highlighting().fallback_style,
        }
    }

    /// The rendering of a document.
    pub open spec fn rendering(self, src: Seq<char>, col_width: u16) -> RenderState {
        rendered(
            self.env(col_width),
            markdown_events(src, self.extensions().to_pulldown_options()),
        )
    }

    /// An engine without a highlighter. Code blocks use plain styling.
    pub fn new(extensions: EngineExtensions) -> (r: PulldownEngine)
        ensures
            r.extensions() == extensions,
            r.highlighter() is None,
            !r.highlighting().enabled,
            r.highlighting().theme@ == "base16-ocean.dark"@,
            r.highlighting().fallback_style is Dimmed,
    {
        PulldownEngine {
            extensions,
            highlighter: None,
            highlighting_config: HighlightingConfig {
                enabled: false,
                ..HighlightingConfig::default()
            },
        }
    }

    /// An engine with a shared highlighter.
    pub fn new_with_highlighting(
        extensions: EngineExtensions,
        highlighter: Arc<Highlighter>,
        highlighting_config: HighlightingConfig,
    ) -> (r: PulldownEngine)
        ensures
            r.extensions() == extensions,
            r.highlighter() == Some(*highlighter),
            r.highlighting() == highlighting_config,
    {
        PulldownEngine { extensions, highlighter: Some(highlighter), highlighting_config }
    }

    /// An engine with GFM on, footnotes off and no highlighting.
    pub fn with_gfm() -> (r: PulldownEngine)
        ensures
            r.extensions() == (EngineExtensions {
                gfm: true,
                footnotes: false,
                wiki_links: false,
            }),
            r.highlighter() is None,
            !r.highlighting().enabled,
            r.highlighting().theme@ == "base16-ocean.dark"@,
            r.highlighting().fallback_style is Dimmed,
    {
        PulldownEngine::new(EngineExtensions { gfm: true, footnotes: false, wiki_links: false })
    }

    /// An engine with GFM on that highlights with the bundled syntaxes and the given theme.
    pub fn with_highlighting(theme: &str) -> (r: PulldownEngine)
        ensures
            r.extensions() == (EngineExtensions {
                gfm: true,
                footnotes: false,
                wiki_links: false,
            }),
            r.highlighter() matches Some(h) && holds_bundled_themes(h.themes())
                && knows_common_languages(h.syntaxes()),
            r.highlighting().enabled,
            r.highlighting().theme@ == theme@,
            r.highlighting().fallback_style is Dimmed,
    {
        let highlighter = Arc::new(Highlighter::load_defaults());
        let config = HighlightingConfig {
            enabled: true,
            theme: theme.to_owned(),
            fallback_style: FallbackStyle::Dimmed,
        };
        PulldownEngine::new_with_highlighting(
            EngineExtensions { gfm: true, footnotes: false, wiki_links: false },
            highlighter,
            config,
        )
    }
}

impl Default for PulldownEngine {
    fn default() -> (r: PulldownEngine)
        ensures
            r.extensions() == (EngineExtensions {
                gfm: false,
                footnotes: false,
                wiki_links: false,
            }),
            r.highlighter() is None,
            r.highlighting().is_default(),
    {
        PulldownEngine {
            extensions: EngineExtensions::default(),
            highlighter: None,
            highlighting_config: HighlightingConfig::default(),
        }
    }
}

impl MarkdownEngine for PulldownEngine {
    open spec fn terminal(&self, src: Seq<char>, col_width: u16) -> Seq<Seq<SpanView>> {
        self.rendering(src, col_width).lines
    }

    /// The source in a `<pre>` element, as it is.
    open spec fn html(&self, src: Seq<char>) -> Seq<char> {
        "<pre>\n"@ + src + "\n</pre>"@
    }

    fn render_terminal(&self, src: &str, col_width: u16) -> (r: Text) {
        let (text, _links) = self.render_terminal_with_links(src, col_width);
        text
    }

    fn render_html(&self, src: &str) -> (r: String) {
        let mut r = "<pre>\n".to_owned();
        r.append(src);
        r.append("\n</pre>");
        r
    }

    fn render_terminal_with_links(&self, src: &str, col_width: u16) -> (r: (Text, LinkIndex))
        ensures
            r.1@ == self.rendering(src@, col_width).links,
    {
        let events = parse_markdown(src, self.extensions.to_pulldown_options());
        let highlighter: Option<&Highlighter> = match &self.highlighter {
            Some(h) => Some(&**h),
            None => None,
        };
        proof {
            assert(env_of(
                col_width,
                self.extensions.wiki_links,
                highlighter,
                self.highlighting_config,
            ) == self.env(col_width));
        }
        render_events(
            events,
            col_width,
            self.extensions.wiki_links,
            highlighter,
            &self.highlighting_config,
        )
    }
}

} // verus!
