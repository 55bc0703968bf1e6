//! The application: its state and how actions change it.
//!
//! `App` owns the live text area, the document on disk, the mode, the keymap, the notifications,
//! the command line, the search, the links and the preview. It decides; what has to be done
//! outside (rendering, writing and opening files, opening the browser) is handed out as an
//! `Effect`, and what came of it is handed back in.
//!
//! The text area is what the user edits. The document is only brought up to date when it is
//! opened and when it is saved.
//!
//! Times are milliseconds of a clock that never runs backwards.
use vstd::prelude::*;

use ratatui_image::picker::Picker;

use crate::app::model::{
    AppView, anchor_line, command_parts, escaped, highlight_query, latest, lemma_escaped_len,
    next_white_space, save_error_text, scrolled_down, scrolled_up, unexpired,
};
use crate::app_state::{status_name_of, status_shows};
use crate::config::{Config, HighlightingConfig, HyperlinksMode, PreviewModeConfig, code_theme};
use crate::document::{
    Document, DocumentView, FileContent, WriteOutcome, opened, saved_in_place, shows_as,
};
use crate::errors::CoreError;
use crate::image_cache::{ImageCache, kind_of_protocol, picker_for, picker_kind};
use crate::image_proto::{DetectedImageProtocol, graphics_capable, protocol_label};
use crate::keymap::{EditorAction, KeyEvent, KeymapDispatcher};
use crate::links::{LinkIndex, LinkTarget, target_text};
use crate::modes::EditorMode;
use crate::preview_worker::{
    RenderRequest, RenderRequestView, RenderResult, RenderResultView, WorkerExtensions,
};
use crate::search::{LARGE_DOC_THRESHOLD_BYTES, SearchKind, SearchState};
use crate::style::{Color, Modifier, Style, Text};
use crate::text::{
    byte_len_of, char_is_white_space, chars_of, concat2, concat3, decimal, join, split_char,
    str_is, to_decimal, trim, views,
};
use crate::textarea::{CursorMove, TextArea, typed_into};

pub mod commands;
pub mod editing;
pub mod laws;
pub mod model;
pub mod searching;
pub mod viewing;

verus! {

// ---------------------------------------------------------------------------
// Types
// ---------------------------------------------------------------------------

/// What the preview pane shows.
#[derive(Debug, Clone, Copy, PartialEq, Eq, Structural, Default)]
pub enum PreviewMode {
    /// Rendered Markdown.
    #[default]
    Rendered,
    /// The HTML source.
    Html,
    /// Nothing: the editor takes the full width.
    Hidden,
}

/// How serious a notification is.
#[derive(Debug, Clone, Copy, PartialEq, Eq, Structural)]
pub enum NotificationLevel {
    Info,
    Warn,
    Error,
}

/// A message shown in the status bar until it expires.
#[derive(Debug, Clone)]
pub struct Notification {
    pub message: String,
    pub level: NotificationLevel,
    /// From then on the message is no longer shown.
    pub expires_at: u64,
}

#[verifier::ext_equal]
pub struct NotificationView {
    pub message: Seq<char>,
    pub level: NotificationLevel,
    pub expires_at: u64,
}

impl View for Notification {
    type V = NotificationView;

    open spec fn view(&self) -> NotificationView {
        NotificationView {
            message: self.message@,
            level: self.level,
            expires_at: self.expires_at,
        }
    }
}

pub open spec fn notification_views(v: Seq<Notification>) -> Seq<NotificationView> {
    v.map_values(|n: Notification| n@)
}

/// How the cursor and its line are drawn.
#[derive(Debug, Clone, Copy, PartialEq, Eq, Structural)]
pub struct TextAreaStyle {
    pub cursor: Style,
    pub cursor_line: Style,
}

/// The style of the text area while nothing is typed.
#[verifier::allow_in_spec]
pub fn apply_normal_mode_style() -> TextAreaStyle
    returns
        (TextAreaStyle {
            cursor: Style::plain().bg(Color::LightYellow).fg(Color::Black),
            cursor_line: Style::plain(),
        }),
{
    TextAreaStyle {
        cursor: Style::plain().bg(Color::LightYellow).fg(Color::Black),
        cursor_line: Style::plain(),
    }
}

/// The style of the text area while text is typed.
#[verifier::allow_in_spec]
pub fn apply_insert_mode_style() -> TextAreaStyle
    returns
        (TextAreaStyle {
            cursor: Style::plain().bg(Color::LightCyan).fg(Color::Black),
            cursor_line: Style::plain().bg(Color::Reset),
        }),
{
    TextAreaStyle {
        cursor: Style::plain().bg(Color::LightCyan).fg(Color::Black),
        cursor_line: Style::plain().bg(Color::Reset),
    }
}

/// The style of search matches.
#[verifier::allow_in_spec]
pub fn search_highlight_style() -> Style
    returns
        Style::plain().bg(Color::Rgb(80, 60, 0)).fg(Color::White).add_modifier(Modifier::bold()),
{
    Style::plain().bg(Color::Rgb(80, 60, 0)).fg(Color::White).add_modifier(Modifier::bold())
}

/// What follows when a file has been saved.
#[derive(Debug, Clone, Copy, PartialEq, Eq, Structural)]
pub enum AfterSave {
    /// Nothing.
    Stay,
    /// A notification.
    Report,
    /// The application ends.
    Quit,
}

/// What has to be done outside of the application state.
#[derive(Debug)]
pub enum Effect {
    Nothing,
    /// Render the preview.
    Render(RenderRequest),
    /// Write `content` to `path`, then call `finish_save`.
    Write { path: String, content: String, then: AfterSave },
    /// Read the file at `path`, then call `finish_open`.
    Open { path: String },
    /// Open an address in the browser.
    Browse { url: String },
}

#[verifier::ext_equal]
pub enum EffectView {
    Nothing,
    Render(RenderRequestView),
    Write { path: Seq<char>, content: Seq<char>, then: AfterSave },
    Open { path: Seq<char> },
    Browse { url: Seq<char> },
}

impl View for Effect {
    type V = EffectView;

    open spec fn view(&self) -> EffectView {
        match self {
            Effect::Nothing => EffectView::Nothing,
            Effect::Render(r) => EffectView::Render(r@),
            Effect::Write { path, content, then } => EffectView::Write {
                path: path@,
                content: content@,
                then: *then,
            },
            Effect::Open { path } => EffectView::Open { path: path@ },
            Effect::Browse { url } => EffectView::Browse { url: url@ },
        }
    }
}

/// The complete state of the editor.
pub struct App {
    pub document: Document,
    pub mode: EditorMode,
    /// What the user edits.
    pub textarea: TextArea,
    pub textarea_style: TextAreaStyle,
    pub config: Config,
    /// The event loop ends.
    pub should_quit: bool,
    pub keymap: KeymapDispatcher,
    pub notifications: Vec<Notification>,
    /// What has been typed behind the `:`.
    pub command_input: String,
    /// The search, from the first one on.
    pub search: Option<SearchState>,
    /// Where the cursor stood when the search began.
    pub search_saved_cursor: (usize, usize),
    /// The links of the rendered document.
    pub link_index: LinkIndex,
    /// The selected link.
    pub link_cursor: usize,
    /// The terminal supports hyperlinks.
    pub hyperlinks_supported: bool,
    pub detected_image_protocol: DetectedImageProtocol,
    /// Makes images ready for the terminal; `None` when images are disabled.
    pub picker: Option<Picker>,
    pub image_cache: ImageCache,
    pub preview_mode: PreviewMode,
    /// First line shown of the rendered preview.
    pub preview_scroll: u16,
    /// First line shown of the HTML preview.
    pub preview_scroll_html: u16,
    /// Counts the render requests. Results of older ones are discarded.
    pub doc_revision: u64,
    pub preview_text: Text,
    pub preview_html: String,
    /// Width of the preview pane when it was last drawn.
    pub last_preview_width: u16,
}

/// The preview mode that the toggle leads to.
#[verifier::allow_in_spec]
pub fn next_preview_mode(mode: PreviewMode) -> PreviewMode
    returns
        (match mode {
            PreviewMode::Rendered => PreviewMode::Html,
            PreviewMode::Html => PreviewMode::Hidden,
            PreviewMode::Hidden => PreviewMode::Rendered,
        }),
{
    match mode {
        PreviewMode::Rendered => PreviewMode::Html,
        PreviewMode::Html => PreviewMode::Hidden,
        PreviewMode::Hidden => PreviewMode::Rendered,
    }
}

/// The preview mode on startup.
#[verifier::allow_in_spec]
pub fn initial_preview_mode(mode: PreviewModeConfig) -> PreviewMode
    returns
        (match mode {
            PreviewModeConfig::Rendered => PreviewMode::Rendered,
            PreviewModeConfig::Html => PreviewMode::Html,
            PreviewModeConfig::Hidden => PreviewMode::Hidden,
        }),
{
    match mode {
        PreviewModeConfig::Rendered => PreviewMode::Rendered,
        PreviewModeConfig::Html => PreviewMode::Html,
        PreviewModeConfig::Hidden => PreviewMode::Hidden,
    }
}

/// `regex::escape`: puts a backslash before every character with a meaning.
#[verifier::external_body]
fn escape_regex(s: &str) -> (r: String)
    ensures
        r@ == escaped(s@),
{
    regex::escape(s)
}

/// Appends the text of an error's cause.
fn append_source(text: &mut String, source: &String)
    ensures
        final(text)@ == old(text)@ + (": "@ + source@),
{
    text.append(": ");
    text.append(source.as_str());
    assert(text@ =~= old(text)@ + (": "@ + source@));
}

/// The text of a failed save with everything that caused it.
fn save_error(e: &CoreError) -> (r: String)
    ensures
        r@ == save_error_text(e@),
{
    let mut r = "failed to write file: ".to_owned();
    r.append(e.message().as_str());
    assert(r@ + Seq::<char>::empty() =~= r@);
    match e {
        CoreError::ConfigParse { source, .. } => append_source(&mut r, source),
        CoreError::ConfigSerialize(source) => append_source(&mut r, source),
        CoreError::ConfigIo { source, .. } => append_source(&mut r, source),
        CoreError::DocumentIo { source, .. } => append_source(&mut r, source),
        _ => {},
    }
    r
}

/// Splits a command into its verb and what follows it.
///
/// `w` has only the verb; `w foo.md` has the verb `w` and the rest `foo.md`.
pub fn split_command(cmd: &str) -> (r: (&str, Option<&str>))
    ensures
        r.0@ == command_parts(cmd@).0,
        match r.1 {
            Some(rest) => command_parts(cmd@).1 == Some(rest@),
            None => command_parts(cmd@).1 is None,
        },
{
    let c = trim(cmd);
    let v = chars_of(c);
    let mut i: usize = 0;
    while i < v.len() && !char_is_white_space(v[i])
        invariant
            v@ == c@,
            i <= v@.len(),
            next_white_space(c@, 0) == next_white_space(c@, i as int),
        decreases v@.len() - i,
    {
        i = i + 1;
    }
    assert(c@.take(i as int) =~= c@.subrange(0, i as int));
    assert(c@.skip(i as int) =~= c@.subrange(i as int, c@.len() as int));
    let verb = c.substring_char(0, i);
    let rest = trim(c.substring_char(i, v.len()));
    let len: usize = chars_of(rest).len();
    (
        verb,
        if len == 0 {
            None
        } else {
            Some(rest)
        },
    )
}

impl App {
    /// The text area, the search and the image cache are as their operations leave them.
    pub open spec fn wf(self) -> bool {
        &&& self.textarea@.valid()
        &&& self.image_cache.wf()
        &&& self.search matches Some(s) ==> s.wf()
    }

    /// The application on startup, with the request for the first preview.
    ///
    /// The text area is seeded from the document.
    pub fn new(
        config: Config,
        document: Document,
        detected_image_protocol: DetectedImageProtocol,
        hyperlinks_supported: bool,
        now: u64,
    ) -> (r: (App, RenderRequest))
        ensures
            r.0.wf(),
            match kind_of_protocol(detected_image_protocol) {
                Some(kind) => r.0.picker matches Some(p) && picker_kind(p) == kind,
                None => r.0.picker is None,
            },
            ({
                let (first, request) = AppView::initial(
                    config,
                    document@,
                    detected_image_protocol,
                    hyperlinks_supported,
                    r.0.picker,
                ).request();
                &&& r.0@ == if graphics_capable(detected_image_protocol) {
                    first.info(
                        "Image rendering: "@ + protocol_label(detected_image_protocol)
                            + " protocol active"@,
                        now,
                    )
                } else {
                    first
                }
                &&& EffectView::Render(r.1@) == request
            }),
    {
        let content = document.content();
        let lines = split_char(content.as_str(), '\n');
        assert(views(lines@).len() > 0);
        let mut textarea = TextArea::new(lines);
        textarea.set_tab_width(config.editor.tab_width);
        let picker = picker_for(detected_image_protocol);
        let keymap = KeymapDispatcher::with_overrides(
            config.editor.sequence_timeout_ms,
            &config.keymap,
        );
        let preview_mode = initial_preview_mode(config.ui.initial_preview_mode);
        let mut app = App {
            document,
            mode: EditorMode::Normal,
            textarea,
            textarea_style: apply_normal_mode_style(),
            config,
            should_quit: false,
            keymap,
            notifications: Vec::new(),
            command_input: String::new(),
            search: None,
            search_saved_cursor: (0, 0),
            link_index: LinkIndex::new(),
            link_cursor: 0,
            hyperlinks_supported,
            detected_image_protocol,
            picker,
            image_cache: ImageCache::new(20),
            preview_mode,
            preview_scroll: 0,
            preview_scroll_html: 0,
            doc_revision: 0,
            preview_text: Text { lines: Vec::new() },
            preview_html: String::new(),
            last_preview_width: 80,
        };
        assert(app@ =~= AppView::initial(
            config,
            document@,
            detected_image_protocol,
            hyperlinks_supported,
            app.picker,
        ));
        let request = app.send_render_request();
        if app.detected_image_protocol.is_graphics_capable() {
            let message = concat3(
                "Image rendering: ",
                app.detected_image_protocol.label(),
                " protocol active",
            );
            app.notify_info(message, now);
        }
        (app, request)
    }

    /// The settings of the preview worker.
    pub fn worker_extensions(&self) -> (r: WorkerExtensions)
        ensures
            r.gfm == self.config.markdown.extensions.gfm,
            r.wiki_links == self.config.markdown.extensions.wiki_links,
            !r.footnotes,
            r.frontmatter == self.config.markdown.extensions.frontmatter,
            r.math == self.config.markdown.extensions.math,
            r.highlighting.enabled == self.config.highlighting.enabled,
            r.highlighting.theme@ == code_theme(self.config),
            r.highlighting.fallback_style == self.config.highlighting.fallback_style,
            r.engine == self.config.markdown.engine,
    {
        WorkerExtensions {
            gfm: self.config.markdown.extensions.gfm,
            wiki_links: self.config.markdown.extensions.wiki_links,
            footnotes: false,
            frontmatter: self.config.markdown.extensions.frontmatter,
            math: self.config.markdown.extensions.math,
            highlighting: HighlightingConfig {
                enabled: self.config.highlighting.enabled,
                theme: self.config.code_theme(),
                fallback_style: self.config.highlighting.fallback_style,
            },
            engine: self.config.markdown.engine,
        }
    }

    // -----------------------------------------------------------------------
    // Preview and search highlighting
    // -----------------------------------------------------------------------

    /// A request to render what is in the text area, under a new revision.
    pub fn send_render_request(&mut self) -> (r: RenderRequest)
        requires
            old(self).doc_revision < u64::MAX,
        ensures
            (final(self)@, EffectView::Render(r@)) == old(self)@.request(),
            final(self).doc_revision == old(self).doc_revision + 1,
            old(self).wf() ==> final(self).wf(),
    {
        self.doc_revision = self.doc_revision + 1;
        let r = RenderRequest {
            revision: self.doc_revision,
            markdown: self.textarea_content(),
            col_width: self.last_preview_width,
        };
        assert(self@ =~= old(self)@.request().0);
        r
    }

    /// Lets the text area highlight the matches of the search.
    ///
    /// Without a pattern, or with one that is not valid, nothing is highlighted. A literal
    /// pattern is escaped first.
    fn sync_textarea_search(&mut self)
        requires
            old(self).wf(),
        ensures
            final(self).wf(),
            final(self)@ == old(self)@.synced(),
            final(self).doc_revision == old(self).doc_revision,
    {
        proof {
            reveal_strlit("");
        }
        let mut query = String::new();
        if let Some(s) = &self.search {
            if chars_of(s.pattern_str()).len() > 0 {
                let pattern = match s.search_kind() {
                    SearchKind::Literal => escape_regex(s.pattern_str()),
                    SearchKind::Regex => s.pattern_str().to_owned(),
                };
                if s.ignores_case() {
                    query.append("(?i)");
                }
                query.append(pattern.as_str());
                proof {
                    lemma_escaped_len(s@.pattern);
                    assert(query@ =~= highlight_query(s@));
                    assert(query@.len() > 0);
                }
            }
        }
        if !self.textarea.set_search_pattern(query.as_str()) {
            let _cleared = self.textarea.set_search_pattern("");
        }
        assert(self@ =~= old(self)@.synced());
    }

    // -----------------------------------------------------------------------
    // Notifications
    // -----------------------------------------------------------------------

    /// Adds a notification that is shown for `duration` milliseconds.
    pub fn push_notification(
        &mut self,
        message: String,
        level: NotificationLevel,
        duration: u64,
        now: u64,
    )
        ensures
            final(self)@ == old(self)@.notified(message@, level, duration, now),
            old(self).wf() ==> final(self).wf(),
            final(self).doc_revision == old(self).doc_revision,
    {
        let expires_at: u64 = if now <= u64::MAX - duration {
            now + duration
        } else {
            u64::MAX
        };
        let n = Notification { message, level, expires_at };
        self.notifications.push(n);
        assert(notification_views(self.notifications@) =~= notification_views(
            old(self).notifications@,
        ).push(n@));
        assert(self@ =~= old(self)@.notified(message@, level, duration, now));
    }

    /// Adds an information.
    pub fn notify_info(&mut self, message: String, now: u64)
        ensures
            final(self)@ == old(self)@.info(message@, now),
            old(self).wf() ==> final(self).wf(),
            final(self).doc_revision == old(self).doc_revision,
    {
        self.push_notification(message, NotificationLevel::Info, 4000, now);
    }

    /// Adds a warning.
    pub fn notify_warn(&mut self, message: String, now: u64)
        ensures
            final(self)@ == old(self)@.warn(message@, now),
            old(self).wf() ==> final(self).wf(),
            final(self).doc_revision == old(self).doc_revision,
    {
        self.push_notification(message, NotificationLevel::Warn, 5000, now);
    }

    /// Adds an error.
    pub fn notify_error(&mut self, message: String, now: u64)
        ensures
            final(self)@ == old(self)@.error(message@, now),
            old(self).wf() ==> final(self).wf(),
            final(self).doc_revision == old(self).doc_revision,
    {
        self.push_notification(message, NotificationLevel::Error, 6000, now);
    }

    /// The latest notification that has not expired.
    pub fn active_notification(&self, now: u64) -> (r: Option<&Notification>)
        ensures
            match r {
                Some(n) => latest(self@.notifications, now) == Some(n@),
                None => latest(self@.notifications, now) is None,
            },
    {
        let ghost all = self@.notifications;
        let mut i: usize = self.notifications.len();
        assert(all.take(i as int) =~= all);
        while i > 0
            invariant
                all == notification_views(self.notifications@),
                i <= self.notifications@.len(),
                latest(all, now) == latest(all.take(i as int), now),
            decreases i,
        {
            assert(all.take(i as int).last() == self.notifications@[i - 1]@);
            assert(all.take(i as int).drop_last() =~= all.take(i - 1));
            if self.notifications[i - 1].expires_at > now {
                return Some(&self.notifications[i - 1]);
            }
            i = i - 1;
        }
        None
    }

    // -----------------------------------------------------------------------
    // Accessors
    // -----------------------------------------------------------------------

    /// What is in the text area.
    pub fn textarea_content(&self) -> (r: String)
        ensures
            r@ == self@.content(),
    {
        join(&self.textarea.lines(), "\n")
    }

    /// Line and column of the cursor, from one.
    pub fn cursor_position(&self) -> (r: (usize, usize))
        ensures
            r.0 == self@.textarea.cursor.0 + 1,
            r.1 == self@.textarea.cursor.1 + 1,
    {
        let (row, col) = self.textarea.cursor();
        (row + 1, col + 1)
    }

    /// The name shown in the status bar. Appends `[+]` when the document has unsaved changes.
    pub fn status_filename(&self) -> (r: String)
        ensures
            status_shows(self@.document, r@),
    {
        status_name_of(&self.document)
    }

    /// The search counter for the status bar, such as `3/12`; `None` without a search or a
    /// pattern.
    pub fn search_counter_str(&self) -> (r: Option<String>)
        requires
            self.wf(),
        ensures
            match self@.search {
                Some(s) => if s.pattern.len() > 0 {
                    r matches Some(c) && c@ == s.counter()
                } else {
                    r is None
                },
                None => r is None,
            },
    {
        match &self.search {
            Some(s) => if chars_of(s.pattern_str()).len() > 0 {
                Some(s.counter_str())
            } else {
                None
            },
            None => None,
        }
    }

    /// The kind of the search, if there is one.
    pub fn search_kind(&self) -> (r: Option<SearchKind>)
        ensures
            match self@.search {
                Some(s) => r == Some(s.kind),
                None => r is None,
            },
    {
        match &self.search {
            Some(s) => Some(s.search_kind()),
            None => None,
        }
    }

    /// The search pattern; empty without a search.
    pub fn search_pattern(&self) -> (r: &str)
        ensures
            match self@.search {
                Some(s) => r@ == s.pattern,
                None => r@.len() == 0,
            },
    {
        proof {
            reveal_strlit("");
        }
        match &self.search {
            Some(s) => s.pattern_str(),
            None => "",
        }
    }

    /// What is shown of the selected link; `None` outside of LinkSelect mode or without links.
    pub fn current_link_display(&self) -> (r: Option<String>)
        ensures
            if self.mode is LinkSelect && self.link_cursor < self@.links.len() {
                r matches Some(s) && s@ == target_text(self@.links[self.link_cursor as int].target)
            } else {
                r is None
            },
    {
        if self.mode != EditorMode::LinkSelect {
            return None;
        }
        match self.link_index.get(self.link_cursor) {
            Some(l) => Some(l.target.display_str()),
            None => None,
        }
    }

    /// The position among the links, such as `2/8`.
    pub fn link_select_counter(&self) -> (r: String)
        ensures
            r@ == if self@.links.len() == 0 {
                "0/0"@
            } else {
                decimal((self.link_cursor + 1) as nat) + "/"@ + decimal(self@.links.len())
            },
    {
        if self.link_index.is_empty() {
            return "0/0".to_owned();
        }
        let position = to_decimal(self.link_cursor as u128 + 1);
        let total = to_decimal(self.link_index.len() as u128);
        concat3(position.as_str(), "/", total.as_str())
    }

    /// Hyperlinks are to be emitted in the preview pane.
    pub fn hyperlinks_enabled(&self) -> (r: bool)
        ensures
            r == match self.config.terminal.hyperlinks {
                HyperlinksMode::On => true,
                HyperlinksMode::Off => false,
                HyperlinksMode::Auto => self.hyperlinks_supported,
            },
    {
        match self.config.terminal.hyperlinks {
            HyperlinksMode::On => true,
            HyperlinksMode::Off => false,
            HyperlinksMode::Auto => self.hyperlinks_supported,
        }
    }

    /// Images are enabled and can be drawn.
    pub fn images_enabled(&self) -> (r: bool)
        ensures
            r == (self.config.images.enabled && self.detected_image_protocol !is Disabled
                && self.picker is Some),
    {
        self.config.images.enabled && !matches!(
            self.detected_image_protocol,
            DetectedImageProtocol::Disabled
        ) && self.picker.is_some()
    }

    /// The terminal was resized: images have to be made ready anew.
    pub fn on_resize(&mut self)
        ensures
            final(self)@ == (AppView { images: Seq::empty(), ..old(self)@ }),
            old(self).wf() ==> final(self).wf(),
            final(self).doc_revision == old(self).doc_revision,
    {
        self.image_cache.invalidate_all();
        assert(self@ =~= AppView { images: Seq::empty(), ..old(self)@ });
    }
}

// ---------------------------------------------------------------------------
// Events
// ---------------------------------------------------------------------------

/// An action after which the preview has to be rendered anew.
pub open spec fn requests_render(action: EditorAction) -> bool {
    action is TextInput || action is DeleteCharBackward || action is DeleteCharForward
}

impl App {
    /// Moves the cursor to a line and column, or as close as the text allows.
    fn jump(&mut self, line: usize, col: usize)
        requires
            old(self).wf(),
        ensures
            final(self).wf(),
            final(self)@ == old(self)@.jumped(line as nat, col as nat),
            final(self).doc_revision == old(self).doc_revision,
    {
        self.textarea.jump_to(line, col);
        assert(self@ =~= old(self)@.jumped(line as nat, col as nat));
    }

    /// Moves the cursor.
    fn move_cursor(&mut self, m: CursorMove)
        requires
            old(self).wf(),
        ensures
            final(self).wf(),
            final(self)@ == old(self)@.moved(m),
            final(self).doc_revision == old(self).doc_revision,
    {
        proof {
            reveal(AppView::moved);
        }
        self.textarea.move_cursor(m);
        assert(self@ =~= old(self)@.moved(m));
    }

    /// Returns to Normal mode.
    fn enter_normal(&mut self)
        requires
            old(self).wf(),
        ensures
            final(self).wf(),
            final(self)@ == old(self)@.normal(),
            final(self).doc_revision == old(self).doc_revision,
    {
        self.mode = EditorMode::Normal;
        self.textarea_style = apply_normal_mode_style();
        assert(self@ =~= old(self)@.normal());
    }

    /// The text was edited: where it is not the one that was last saved, the document is modified.
    /// The preview is out of date.
    fn after_edit(&mut self) -> (r: Effect)
        requires
            old(self).wf(),
            old(self).doc_revision < u64::MAX,
        ensures
            final(self).wf(),
            (final(self)@, r@) == old(self)@.edited().request(),
    {
        let saved = self.document.content();
        self.document.modified = !str_is(self.textarea_content().as_str(), saved.as_str());
        assert(self@ =~= old(self)@.edited());
        Effect::Render(self.send_render_request())
    }

    /// Starts a search.
    fn enter_search(&mut self, kind: SearchKind)
        requires
            old(self).wf(),
        ensures
            final(self).wf(),
            final(self)@ == old(self)@.searching(kind),
    {
        proof {
            reveal(AppView::searching);
        }
        self.search_saved_cursor = self.textarea.cursor();
        self.search = Some(SearchState::new(kind, self.config.editor.search_case_insensitive));
        self.mode = EditorMode::Search;
        self.sync_textarea_search();
        assert(self@ =~= old(self)@.searching(kind));
    }

    /// Adds a character to the search pattern.
    fn search_input(&mut self, c: char)
        requires
            old(self).wf(),
        ensures
            final(self).wf(),
            final(self)@ == old(self)@.search_input(c),
    {
        proof {
            reveal(AppView::search_input);
        }
        let content = self.textarea_content();
        let small = byte_len_of(content.as_str()) <= LARGE_DOC_THRESHOLD_BYTES;
        let mut target: Option<(usize, usize)> = None;
        if let Some(s) = &mut self.search {
            s.push_char(c);
            if small {
                s.recompute(content.as_str());
            }
            target = match s.current() {
                Some(m) => Some((m.line, m.col)),
                None => None,
            };
        }
        if let Some((line, col)) = target {
            self.jump(line, col);
        }
        self.sync_textarea_search();
        assert(self@ =~= old(self)@.search_input(c));
    }

    /// Removes a character from the search pattern.
    fn search_backspace(&mut self)
        requires
            old(self).wf(),
        ensures
            final(self).wf(),
            final(self)@ == old(self)@.search_backspace(),
    {
        proof {
            reveal(AppView::search_backspace);
        }
        let content = self.textarea_content();
        let small = byte_len_of(content.as_str()) <= LARGE_DOC_THRESHOLD_BYTES;
        let mut target: Option<(usize, usize)> = None;
        if let Some(s) = &mut self.search {
            s.pop_char();
            if small {
                s.recompute(content.as_str());
            }
            if chars_of(s.pattern_str()).len() == 0 {
                target = Some(self.search_saved_cursor);
            } else {
                target = match s.current() {
                    Some(m) => Some((m.line, m.col)),
                    None => None,
                };
            }
        }
        if let Some((line, col)) = target {
            self.jump(line, col);
        }
        self.sync_textarea_search();
        assert(self@ =~= old(self)@.search_backspace());
    }

    /// Ends the search at the current match.
    fn commit_search(&mut self)
        requires
            old(self).wf(),
        ensures
            final(self).wf(),
            final(self)@ == old(self)@.search_committed(),
    {
        proof {
            reveal(AppView::search_committed);
        }
        self.enter_normal();
        let target: Option<(usize, usize)> = match &self.search {
            Some(s) => match s.current() {
                Some(m) => Some((m.line, m.col)),
                None => None,
            },
            None => None,
        };
        if let Some((line, col)) = target {
            self.jump(line, col);
        }
        self.sync_textarea_search();
    }

    /// Calls the search off.
    fn cancel_search(&mut self)
        requires
            old(self).wf(),
        ensures
            final(self).wf(),
            final(self)@ == old(self)@.search_cancelled(),
    {
        proof {
            reveal(AppView::search_cancelled);
        }
        self.enter_normal();
        let (line, col) = self.search_saved_cursor;
        self.jump(line, col);
        if let Some(s) = &mut self.search {
            s.clear();
        }
        self.sync_textarea_search();
        assert(self@ =~= old(self)@.search_cancelled());
    }

    /// Steps to the next match, or to the one before.
    fn search_step(&mut self, forward: bool, now: u64)
        requires
            old(self).wf(),
        ensures
            final(self).wf(),
            final(self)@ == old(self)@.search_stepped(forward, now),
    {
        proof {
            reveal(AppView::search_stepped);
        }
        let mut target: Option<(usize, usize)> = None;
        let mut missed = false;
        if let Some(s) = &mut self.search {
            let found = if forward {
                s.next_match()
            } else {
                s.prev_match()
            };
            target = match found {
                Some(m) => Some((m.line, m.col)),
                None => None,
            };
            missed = target.is_none() && chars_of(s.pattern_str()).len() > 0;
        }
        if let Some((line, col)) = target {
            self.jump(line, col);
        } else if missed {
            self.notify_info("No matches found".to_owned(), now);
        }
        assert(self@ =~= old(self)@.search_stepped(forward, now));
    }

    /// The line of the first anchor with this name; `fallback` where there is none.
    fn find_anchor(&self, anchor: &String, fallback: usize) -> (r: usize)
        ensures
            r == anchor_line(self@.links, anchor@, fallback as nat),
    {
        let ghost all = self@.links;
        let mut i: usize = 0;
        assert(all.skip(0) =~= all);
        while i < self.link_index.len()
            invariant
                all == self@.links,
                i <= all.len(),
                anchor_line(all, anchor@, fallback as nat) == anchor_line(
                    all.skip(i as int),
                    anchor@,
                    fallback as nat,
                ),
            decreases all.len() - i,
        {
            let link = &self.link_index.0[i];
            assert(all.skip(i as int)[0] == link@);
            assert(all.skip(i as int).drop_first() =~= all.skip(i + 1));
            if let LinkTarget::InternalAnchor(a) = &link.target {
                if str_is(a.as_str(), anchor.as_str()) {
                    return link.source_line;
                }
            }
            i = i + 1;
        }
        fallback
    }

    /// Follows the selected link: a web address opens in the browser, an anchor moves the cursor
    /// to the line of the first link to it. Other files cannot be navigated to.
    fn follow_current_link(&mut self, now: u64) -> (r: Effect)
        requires
            old(self).wf(),
        ensures
            final(self).wf(),
            (final(self)@, r@) == old(self)@.followed(now),
            final(self).doc_revision == old(self).doc_revision,
    {
        proof {
            reveal(AppView::followed);
        }
        let (target, source_line) = match self.link_index.get(self.link_cursor) {
            Some(link) => (link.target.clone(), link.source_line),
            None => {
                return Effect::Nothing;
            },
        };
        match target {
            LinkTarget::External(url) => {
                self.notify_info(concat2("Opening: ", url.as_str()), now);
                Effect::Browse { url }
            },
            LinkTarget::InternalAnchor(anchor) => {
                let line: usize = self.find_anchor(&anchor, source_line);
                self.jump(line, 0);
                self.notify_info(concat2("Jumped to #", anchor.as_str()), now);
                Effect::Nothing
            },
            LinkTarget::WikiLink(page) => {
                self.notify_warn(
                    concat3(
                        "Wiki link navigation not supported in MVP: [[",
                        page.as_str(),
                        "]]",
                    ),
                    now,
                );
                Effect::Nothing
            },
            LinkTarget::FilePath(path) => {
                self.notify_warn(
                    concat2("File path navigation not supported in MVP: ", path.as_str()),
                    now,
                );
                Effect::Nothing
            },
            LinkTarget::Image { .. } => Effect::Nothing,
        }
    }

    /// Starts to save the text. A document without a path cannot be saved.
    fn start_save(&mut self, then: AfterSave, now: u64) -> (r: Effect)
        requires
            old(self).wf(),
        ensures
            final(self).wf(),
            (final(self)@, r@) == old(self)@.saving(then, now),
            final(self).doc_revision == old(self).doc_revision,
    {
        proof {
            reveal(AppView::saving);
        }
        match self.document.file_path() {
            Some(path) => Effect::Write { path, content: self.textarea_content(), then },
            None => {
                let text = save_error(&CoreError::DocumentNoPath);
                self.notify_error(concat2("Save failed: ", text.as_str()), now);
                Effect::Nothing
            },
        }
    }

    /// Takes over what came of writing the text to the document's path. The result is an error
    /// text for the user where the document has no path or the writing failed.
    pub fn save(&mut self, outcome: WriteOutcome) -> (r: Result<(), String>)
        ensures
            ({
                let (document, error) = saved_in_place(
                    old(self)@.document,
                    old(self)@.content(),
                    outcome@,
                );
                &&& final(self)@ == (AppView { document, ..old(self)@ })
                &&& match error {
                    Some(e) => r matches Err(text) && text@ == save_error_text(e),
                    None => r is Ok,
                }
            }),
            old(self).wf() ==> final(self).wf(),
            final(self).doc_revision == old(self).doc_revision,
    {
        let content = self.textarea_content();
        let r = match self.document.save(content.as_str(), outcome) {
            Ok(()) => Ok(()),
            Err(e) => Err(save_error(&e)),
        };
        assert(self@ =~= AppView { document: self@.document, ..old(self)@ });
        r
    }

    /// The end of a save that was started by an action or a command.
    pub fn finish_save(&mut self, then: AfterSave, outcome: WriteOutcome, now: u64)
        requires
            old(self).wf(),
        ensures
            final(self).wf(),
            exists|shown: Seq<char>| #[trigger]
                shows_as(final(self)@.document.path, shown) && final(self)@
                    == old(self)@.save_finished(then, outcome@, now, shown),
            final(self).doc_revision == old(self).doc_revision,
    {
        let saved = self.save(outcome);
        let name = self.document.display_name();
        match saved {
            Err(text) => self.notify_error(concat2("Save failed: ", text.as_str()), now),
            Ok(()) => match then {
                AfterSave::Stay => {},
                AfterSave::Report => {
                    self.notify_info(concat3("Saved \"", name.as_str(), "\""), now);
                },
                AfterSave::Quit => {
                    self.should_quit = true;
                },
            },
        }
        assert(shows_as(self@.document.path, name@));
        assert(self@ =~= old(self)@.save_finished(then, outcome@, now, name@));
    }

    /// The end of opening a file: the file takes the place of what was edited.
    pub fn finish_open(&mut self, path: &str, content: FileContent, now: u64) -> (r: Effect)
        requires
            old(self).wf(),
            old(self).doc_revision < u64::MAX,
        ensures
            final(self).wf(),
            match opened(path@, content@) {
                Err(_) => (final(self)@, r@) == old(self)@.open_finished(
                    path@,
                    content@,
                    now,
                    Seq::empty(),
                ),
                Ok(_) => exists|shown: Seq<char>| #[trigger]
                    shows_as(Some(path@), shown) && (final(self)@, r@)
                        == old(self)@.open_finished(path@, content@, now, shown),
            },
    {
        match Document::open(path, content) {
            Err(e) => {
                let mut message = concat3("Cannot open '", path, "': ");
                message.append(e.message().as_str());
                self.notify_error(message, now);
                Effect::Nothing
            },
            Ok(document) => {
                let lines = split_char(document.content().as_str(), '\n');
                assert(views(lines@).len() > 0);
                self.document = document;
                self.textarea = TextArea::new(lines);
                self.textarea.set_tab_width(self.config.editor.tab_width);
                self.textarea_style = apply_normal_mode_style();
                self.search = None;
                self.link_index = LinkIndex::new();
                self.link_cursor = 0;
                let request = self.send_render_request();
                let name = self.document.display_name();
                self.notify_info(concat3("Opened \"", name.as_str(), "\""), now);
                assert(shows_as(Some(path@), name@));
                assert(self@ =~= old(self)@.open_finished(path@, content@, now, name@).0);
                Effect::Render(request)
            },
        }
    }

    /// Carries out a command: the text typed behind the `:`. All errors become notifications.
    pub fn execute_command(&mut self, cmd: &str, now: u64) -> (r: Effect)
        requires
            old(self).wf(),
        ensures
            final(self).wf(),
            (final(self)@, r@) == old(self)@.commanded(cmd@, now),
            final(self).doc_revision == old(self).doc_revision,
    {
        proof {
            reveal(AppView::commanded);
        }
        let (verb, rest) = split_command(cmd);
        if str_is(verb, "w") {
            if let Some(path) = rest {
                self.document.set_path(path);
                assert(self@ =~= AppView {
                    document: DocumentView { path: Some(path@), ..old(self)@.document },
                    ..old(self)@
                });
            }
            self.start_save(AfterSave::Report, now)
        } else if str_is(verb, "q") {
            if self.document.is_modified() {
                self.notify_error(
                    "Unsaved changes - use `:w` to save and `:q!` to foce quit".to_owned(),
                    now,
                );
            } else {
                self.should_quit = true;
            }
            Effect::Nothing
        } else if str_is(verb, "q!") {
            self.should_quit = true;
            Effect::Nothing
        } else if str_is(verb, "wq") {
            self.start_save(AfterSave::Quit, now)
        } else if str_is(verb, "e") {
            match rest {
                Some(path) => Effect::Open { path: path.to_owned() },
                None => {
                    self.notify_error(":e requires a file path".to_owned(), now);
                    Effect::Nothing
                },
            }
        } else {
            self.notify_error(concat2("Unkown command: :", verb), now);
            Effect::Nothing
        }
    }

    /// Carries out an action that types text, or that enters or leaves a mode in which text is
    /// typed.
    fn handle_typing(&mut self, action: EditorAction, now: u64) -> (r: Effect)
        requires
            old(self).wf(),
            requests_render(action) ==> old(self).doc_revision < u64::MAX,
        ensures
            final(self).wf(),
            (final(self)@, r@) == old(self)@.after_typing(action, final(self)@.textarea, now),
            action matches EditorAction::TextInput(key) ==> typed_into(
                old(self).textarea,
                key,
                final(self)@.textarea,
            ),
    {
        proof {
            reveal(AppView::after_typing);
        }
        match action {
            EditorAction::EnterInsert => {
                self.mode = EditorMode::Insert;
                self.textarea_style = apply_insert_mode_style();
            },
            EditorAction::ExitInsert => {
                if self.mode == EditorMode::Command {
                    self.command_input.clear();
                }
                self.enter_normal();
            },
            EditorAction::TextInput(key) => {
                self.textarea.input(key);
                return self.after_edit();
            },
            EditorAction::EnterCommand => {
                self.mode = EditorMode::Command;
                self.command_input.clear();
            },
            EditorAction::CommandInput(c) => self.command_input.push(c),
            EditorAction::CommandBackspace => {
                let _last = self.command_input.pop();
            },
            EditorAction::ExecuteCommand => {
                let cmd = trim(self.command_input.as_str()).to_owned();
                self.command_input.clear();
                self.enter_normal();
                return self.execute_command(cmd.as_str(), now);
            },
            _ => {},
        }
        Effect::Nothing
    }

    /// Carries out an action on the links of the document.
    fn handle_link_action(&mut self, action: EditorAction, now: u64) -> (r: Effect)
        requires
            old(self).wf(),
        ensures
            final(self).wf(),
            (final(self)@, r@) == old(self)@.after_link_action(action, now),
    {
        proof {
            reveal(AppView::after_link_action);
        }
        let len: usize = self.link_index.len();
        match action {
            EditorAction::EnterLinkSelect => {
                if len == 0 {
                    self.notify_info("No links in document".to_owned(), now);
                } else {
                    self.link_cursor = 0;
                    self.mode = EditorMode::LinkSelect;
                }
            },
            EditorAction::LinkSelectNext => {
                if len > 0 {
                    proof {
                        vstd::arithmetic::div_mod::lemma_add_mod_noop_right(
                            1,
                            self.link_cursor as int,
                            len as int,
                        );
                    }
                    self.link_cursor = (self.link_cursor % len + 1) % len;
                }
            },
            EditorAction::LinkSelectPrev => {
                if len > 0 {
                    self.link_cursor = if self.link_cursor > 0 {
                        self.link_cursor - 1
                    } else {
                        len - 1
                    };
                }
            },
            EditorAction::FollowLink => {
                let effect = self.follow_current_link(now);
                self.enter_normal();
                return effect;
            },
            _ => {},
        }
        Effect::Nothing
    }

    /// Carries out an action of the search.
    fn handle_search_action(&mut self, action: EditorAction, now: u64)
        requires
            old(self).wf(),
        ensures
            final(self).wf(),
            final(self)@ == old(self)@.after_search_action(action, now),
    {
        proof {
            reveal(AppView::after_search_action);
        }
        match action {
            EditorAction::EnterLiteralSearch => self.enter_search(SearchKind::Literal),
            EditorAction::EnterRegexSearch => self.enter_search(SearchKind::Regex),
            EditorAction::SearchInput(c) => self.search_input(c),
            EditorAction::SearchBackspace => self.search_backspace(),
            EditorAction::CommitSearch => self.commit_search(),
            EditorAction::CancelSearch => self.cancel_search(),
            EditorAction::SearchNext => self.search_step(true, now),
            EditorAction::SearchPrev => self.search_step(false, now),
            _ => {},
        }
    }

    /// Carries out an action on the preview pane.
    fn handle_preview_action(&mut self, action: EditorAction)
        requires
            old(self).wf(),
        ensures
            final(self).wf(),
            final(self)@ == old(self)@.after_preview_action(action),
    {
        proof {
            reveal(AppView::after_preview_action);
        }
        match action {
            EditorAction::PreviewScrollDown => {
                if self.preview_mode == PreviewMode::Html {
                    self.preview_scroll_html = scroll_down(self.preview_scroll_html);
                } else {
                    self.preview_scroll = scroll_down(self.preview_scroll);
                }
            },
            EditorAction::PreviewScrollUp => {
                if self.preview_mode == PreviewMode::Html {
                    self.preview_scroll_html = scroll_up(self.preview_scroll_html);
                } else {
                    self.preview_scroll = scroll_up(self.preview_scroll);
                }
            },
            EditorAction::TogglePreview => {
                self.preview_mode = next_preview_mode(self.preview_mode);
            },
            _ => {},
        }
    }

    /// Ends the application, unless the document has unsaved changes.
    fn quit(&mut self, now: u64)
        requires
            old(self).wf(),
        ensures
            final(self).wf(),
            final(self)@ == old(self)@.quitting(now),
    {
        proof {
            reveal(AppView::quitting);
        }
        if self.document.is_modified() {
            self.notify_warn(
                "Unsaved changes - use `:w` to save, `:q!` to force quit".to_owned(),
                now,
            );
        } else {
            self.should_quit = true;
        }
    }

    /// Carries out an action.
    pub fn handle_action(&mut self, action: EditorAction, now: u64) -> (r: Effect)
        requires
            old(self).wf(),
            requests_render(action) ==> old(self).doc_revision < u64::MAX,
        ensures
            final(self).wf(),
            (final(self)@, r@) == old(self)@.after_action(action, final(self)@.textarea, now),
            action matches EditorAction::TextInput(key) ==> typed_into(
                old(self).textarea,
                key,
                final(self)@.textarea,
            ),
    {
        match action {
            EditorAction::EnterInsert
            | EditorAction::ExitInsert
            | EditorAction::TextInput(_)
            | EditorAction::EnterCommand
            | EditorAction::CommandInput(_)
            | EditorAction::CommandBackspace
            | EditorAction::ExecuteCommand => {
                return self.handle_typing(action, now);
            },
            EditorAction::EnterLinkSelect
            | EditorAction::LinkSelectNext
            | EditorAction::LinkSelectPrev
            | EditorAction::FollowLink => {
                return self.handle_link_action(action, now);
            },
            EditorAction::EnterLiteralSearch
            | EditorAction::EnterRegexSearch
            | EditorAction::SearchInput(_)
            | EditorAction::SearchBackspace
            | EditorAction::CommitSearch
            | EditorAction::CancelSearch
            | EditorAction::SearchNext
            | EditorAction::SearchPrev => self.handle_search_action(action, now),
            EditorAction::MoveLeft => self.move_cursor(CursorMove::Back),
            EditorAction::MoveDown => self.move_cursor(CursorMove::Down),
            EditorAction::MoveUp => self.move_cursor(CursorMove::Up),
            EditorAction::MoveRight => self.move_cursor(CursorMove::Forward),
            EditorAction::MoveWordForward => self.move_cursor(CursorMove::WordForward),
            EditorAction::MoveWordBackward => self.move_cursor(CursorMove::WordBack),
            EditorAction::MoveLineStart => self.move_cursor(CursorMove::Head),
            EditorAction::MoveLineEnd => self.move_cursor(CursorMove::End),
            EditorAction::MoveDocStart => self.move_cursor(CursorMove::Top),
            EditorAction::MoveDocEnd => self.move_cursor(CursorMove::Bottom),
            EditorAction::DeleteCharBackward => {
                self.textarea.delete_char();
                return self.after_edit();
            },
            EditorAction::DeleteCharForward => {
                self.textarea.delete_next_char();
                return self.after_edit();
            },
            EditorAction::PreviewScrollDown
            | EditorAction::PreviewScrollUp
            | EditorAction::TogglePreview => self.handle_preview_action(action),
            EditorAction::Save => {
                return self.start_save(AfterSave::Stay, now);
            },
            EditorAction::Quit => self.quit(now),
            EditorAction::Unbound => {},
        }
        Effect::Nothing
    }

    /// Handles a key event.
    pub fn handle_key(&mut self, key: KeyEvent, now: u64) -> (r: Effect)
        requires
            old(self).wf(),
            old(self).doc_revision < u64::MAX,
        ensures
            final(self).wf(),
            (final(self)@, r@) == old(self)@.after_key(key, final(self)@.textarea, now),
            old(self)@.keymap.after_key(key, old(self).mode, now).1 matches Some(action) ==> (
            action matches EditorAction::TextInput(k) ==> typed_into(
                old(self).textarea,
                k,
                final(self)@.textarea,
            )),
    {
        match self.keymap.dispatch(key, &self.mode, now) {
            Some(action) => self.handle_action(action, now),
            None => Effect::Nothing,
        }
    }

    /// To be called on every turn of the event loop before new events are read.
    ///
    /// Flushes keys of a sequence that timed out, drops expired notifications, and takes over
    /// the previews that the worker has rendered for the current revision.
    pub fn tick(&mut self, results: Vec<RenderResult>, now: u64)
        requires
            old(self).wf(),
        ensures
            final(self).wf(),
            final(self)@ == old(self)@.ticked(now, result_views(results@)),
            final(self).doc_revision == old(self).doc_revision,
    {
        self.flush_keys(now);
        self.drop_expired(now);
        self.apply_results(results);
    }
}

/// Five lines further down.
fn scroll_down(scroll: u16) -> (r: u16)
    ensures
        r == scrolled_down(scroll),
{
    if scroll <= u16::MAX - 5 {
        scroll + 5
    } else {
        u16::MAX
    }
}

/// Five lines further up.
fn scroll_up(scroll: u16) -> (r: u16)
    ensures
        r == scrolled_up(scroll),
{
    if scroll >= 5 {
        scroll - 5
    } else {
        0
    }
}

pub open spec fn result_views(v: Seq<RenderResult>) -> Seq<RenderResultView> {
    v.map_values(|r: RenderResult| r@)
}

impl App {
    /// Flushes the keys of a sequence that timed out.
    fn flush_keys(&mut self, now: u64)
        requires
            old(self).wf(),
        ensures
            final(self).wf(),
            final(self)@ == (AppView {
                keymap: AppView::after_ticks(old(self)@.keymap, now),
                ..old(self)@
            }),
            final(self).doc_revision == old(self).doc_revision,
    {
        loop
            invariant
                self.wf(),
                self@ == (AppView { keymap: self@.keymap, ..old(self)@ }),
                self.doc_revision == old(self).doc_revision,
                AppView::after_ticks(self@.keymap, now) == AppView::after_ticks(
                    old(self)@.keymap,
                    now,
                ),
            ensures
                self@.keymap == AppView::after_ticks(old(self)@.keymap, now),
            decreases self@.keymap.pending.len(),
        {
            let ghost before = self@;
            let action = self.keymap.tick(now);
            match action {
                Some(action) => {
                    let _nothing = self.handle_action(action, now);
                },
                None => {
                    break;
                },
            }
        }
    }

    /// Drops the notifications that have expired.
    fn drop_expired(&mut self, now: u64)
        requires
            old(self).wf(),
        ensures
            final(self).wf(),
            final(self)@ == (AppView {
                notifications: unexpired(old(self)@.notifications, now),
                ..old(self)@
            }),
            final(self).doc_revision == old(self).doc_revision,
    {
        let mut all: Vec<Notification> = Vec::new();
        std::mem::swap(&mut all, &mut self.notifications);
        let ghost views = notification_views(all@);
        let mut kept: Vec<Notification> = Vec::new();
        assert(notification_views(kept@) =~= unexpired(views.take(0), now));
        let ghost mut i: int = 0;
        for n in iter: all
            invariant
                views == notification_views(iter.seq()),
                notification_views(kept@) == unexpired(views.take(iter.index()), now),
        {
            let ghost k = iter.index();
            assert(views.take(k + 1).drop_last() =~= views.take(k));
            assert(views.take(k + 1).last() == n@);
            if n.expires_at > now {
                let ghost front = kept@;
                kept.push(n);
                assert(notification_views(kept@) =~= notification_views(front).push(n@));
            }
        }
        assert(views.take(views.len() as int) =~= views);
        self.notifications = kept;
        assert(self@ =~= AppView {
            notifications: unexpired(old(self)@.notifications, now),
            ..old(self)@
        });
    }

    /// Takes over the previews for the current revision.
    fn apply_results(&mut self, results: Vec<RenderResult>)
        requires
            old(self).wf(),
        ensures
            final(self).wf(),
            final(self)@ == old(self)@.with_results(result_views(results@)),
            final(self).doc_revision == old(self).doc_revision,
    {
        let ghost all = result_views(results@);
        assert(all.take(0) =~= Seq::<RenderResultView>::empty());
        for result in iter: results
            invariant
                all == result_views(iter.seq()),
                self.wf(),
                self.doc_revision == old(self).doc_revision,
                self@ == old(self)@.with_results(all.take(iter.index())),
        {
            let ghost k = iter.index();
            assert(all.take(k + 1).drop_last() =~= all.take(k));
            assert(all.take(k + 1).last() == result@);
            let ghost before = self@;
            if result.revision == self.doc_revision {
                self.preview_text = result.rendered;
                self.preview_html = result.html;
                self.link_index = result.link_index;
            }
            assert(self@ =~= before.with_result(result@));
        }
        assert(all.take(all.len() as int) =~= all);
    }
}

} // verus!
