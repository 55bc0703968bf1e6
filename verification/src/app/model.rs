//! What the application state is, and how it changes.
use vstd::prelude::*;

use ratatui_image::picker::Picker;

use crate::app::{
    AfterSave, App, EffectView, NotificationLevel, NotificationView, PreviewMode, TextAreaStyle,
    apply_insert_mode_style, apply_normal_mode_style, initial_preview_mode, next_preview_mode,
    notification_views,
};
use crate::config::Config;
use crate::document::{
    DocumentView, FileContentView, WriteOutcomeView, opened, saved_in_place,
};
use crate::errors::{CoreErrorView, error_message};
use crate::image_cache::CacheEntryView;
use crate::image_proto::DetectedImageProtocol;
use crate::keymap::{EditorAction, KeyEvent, KeymapView, configured_bindings, exit_key};
use crate::links::{LinkTargetView, LinkView};
use crate::modes::EditorMode;
use crate::preview_worker::{RenderRequestView, RenderResultView};
use crate::search::{
    LARGE_DOC_THRESHOLD_BYTES, MatchView, SearchKind, SearchState, SearchView, effective_pattern,
    regex_compiled,
};
use crate::style::SpanView;
use crate::text::{byte_len, is_white_space, joined, split_on, trimmed};
use crate::textarea::{CursorMove, TextAreaView, fresh_textarea};

verus! {

/// The state of the application.
#[verifier::ext_equal]
pub struct AppView {
    pub document: DocumentView,
    pub mode: EditorMode,
    pub textarea: TextAreaView,
    pub style: TextAreaStyle,
    pub config: Config,
    pub should_quit: bool,
    pub keymap: KeymapView,
    pub notifications: Seq<NotificationView>,
    pub command: Seq<char>,
    pub search: Option<SearchView>,
    pub saved_cursor: (nat, nat),
    pub links: Seq<LinkView>,
    pub link_cursor: nat,
    pub hyperlinks_supported: bool,
    pub protocol: DetectedImageProtocol,
    pub picker: Option<Picker>,
    pub images: Seq<CacheEntryView>,
    pub max_images: nat,
    pub preview_mode: PreviewMode,
    pub scroll: u16,
    pub scroll_html: u16,
    pub revision: nat,
    pub preview_text: Seq<Seq<SpanView>>,
    pub preview_html: Seq<char>,
    pub preview_width: u16,
}

pub open spec fn search_view(s: Option<SearchState>) -> Option<SearchView> {
    match s {
        Some(s) => Some(s@),
        None => None,
    }
}

impl View for App {
    type V = AppView;

    open spec fn view(&self) -> AppView {
        AppView {
            document: self.document@,
            mode: self.mode,
            textarea: self.textarea@,
            style: self.textarea_style,
            config: self.config,
            should_quit: self.should_quit,
            keymap: self.keymap@,
            notifications: notification_views(self.notifications@),
            command: self.command_input@,
            search: search_view(self.search),
            saved_cursor: (self.search_saved_cursor.0 as nat, self.search_saved_cursor.1 as nat),
            links: self.link_index@,
            link_cursor: self.link_cursor as nat,
            hyperlinks_supported: self.hyperlinks_supported,
            protocol: self.detected_image_protocol,
            picker: self.picker,
            images: self.image_cache@,
            max_images: self.image_cache.max_entries as nat,
            preview_mode: self.preview_mode,
            scroll: self.preview_scroll,
            scroll_html: self.preview_scroll_html,
            revision: self.doc_revision as nat,
            preview_text: self.preview_text@,
            preview_html: self.preview_html@,
            preview_width: self.last_preview_width,
        }
    }
}

// ---------------------------------------------------------------------------
// How the state changes
// ---------------------------------------------------------------------------

/// The characters that have a meaning in regular expressions.
pub open spec fn is_meta_char(c: char) -> bool {
    ||| c == '\\'
    ||| c == '.'
    ||| c == '+'
    ||| c == '*'
    ||| c == '?'
    ||| c == '('
    ||| c == ')'
    ||| c == '|'
    ||| c == '['
    ||| c == ']'
    ||| c == '{'
    ||| c == '}'
    ||| c == '^'
    ||| c == '$'
    ||| c == '#'
    ||| c == '&'
    ||| c == '-'
    ||| c == '~'
}

/// A text with a backslash before every character that has a meaning in regular expressions.
pub open spec fn escaped(s: Seq<char>) -> Seq<char>
    decreases s.len(),
{
    if s.len() == 0 {
        Seq::empty()
    } else {
        let front = escaped(s.drop_last());
        if is_meta_char(s.last()) {
            front.push('\\').push(s.last())
        } else {
            front.push(s.last())
        }
    }
}

/// The pattern for which the text area highlights matches.
pub open spec fn highlight_query(s: SearchView) -> Seq<char> {
    effective_pattern(
        if s.kind is Literal {
            escaped(s.pattern)
        } else {
            s.pattern
        },
        s.case_insensitive,
    )
}

/// The pattern highlighted for a search: none without a pattern or with an invalid one.
pub open spec fn highlighted_pattern(search: Option<SearchView>) -> Option<Seq<char>> {
    match search {
        Some(s) => if s.pattern.len() > 0 && regex_compiled(highlight_query(s)) is Some {
            Some(highlight_query(s))
        } else {
            None
        },
        None => None,
    }
}

/// A point in time `duration` after `now`.
pub open spec fn later(now: u64, duration: u64) -> u64 {
    if now + duration <= u64::MAX {
        (now + duration) as u64
    } else {
        u64::MAX
    }
}

/// The text of a failed save with everything that caused it.
pub open spec fn save_error_text(e: CoreErrorView) -> Seq<char> {
    "failed to write file: "@ + error_message(e) + (match e {
        CoreErrorView::ConfigParse { source, .. } => ": "@ + source,
        CoreErrorView::ConfigSerialize(source) => ": "@ + source,
        CoreErrorView::ConfigIo { source, .. } => ": "@ + source,
        CoreErrorView::DocumentIo { source, .. } => ": "@ + source,
        _ => Seq::empty(),
    })
}

/// The first white-space character at or behind `from`; the length where there is none.
pub open spec fn next_white_space(s: Seq<char>, from: int) -> int
    decreases s.len() - from,
{
    if from < 0 || from >= s.len() {
        s.len() as int
    } else if is_white_space(s[from]) {
        from
    } else {
        next_white_space(s, from + 1)
    }
}

/// A command: its verb and what follows it, if anything does.
pub open spec fn command_parts(cmd: Seq<char>) -> (Seq<char>, Option<Seq<char>>) {
    let c = trimmed(cmd);
    let i = next_white_space(c, 0);
    let rest = trimmed(c.skip(i));
    (
        c.take(i),
        if rest.len() == 0 {
            None
        } else {
            Some(rest)
        },
    )
}

/// The place of the first anchor with this name.
pub open spec fn anchor_line(links: Seq<LinkView>, anchor: Seq<char>, fallback: nat) -> nat
    decreases links.len(),
{
    if links.len() == 0 {
        fallback
    } else if links[0].target == LinkTargetView::InternalAnchor(anchor) {
        links[0].source_line
    } else {
        anchor_line(links.drop_first(), anchor, fallback)
    }
}

/// Five lines further down, as far as the count goes.
pub open spec fn scrolled_down(scroll: u16) -> u16 {
    if scroll <= u16::MAX - 5 {
        (scroll + 5) as u16
    } else {
        u16::MAX
    }
}

/// Five lines further up, at most to the top.
pub open spec fn scrolled_up(scroll: u16) -> u16 {
    if scroll >= 5 {
        (scroll - 5) as u16
    } else {
        0
    }
}

impl AppView {
    /// What is in the text area.
    pub open spec fn content(self) -> Seq<char> {
        joined(self.textarea.lines, "\n"@)
    }

    pub open spec fn notified(
        self,
        message: Seq<char>,
        level: NotificationLevel,
        duration: u64,
        now: u64,
    ) -> AppView {
        AppView {
            notifications: self.notifications.push(
                NotificationView { message, level, expires_at: later(now, duration) },
            ),
            ..self
        }
    }

    /// An information is shown for four seconds.
    pub open spec fn info(self, message: Seq<char>, now: u64) -> AppView {
        self.notified(message, NotificationLevel::Info, 4000, now)
    }

    /// A warning is shown for five seconds.
    pub open spec fn warn(self, message: Seq<char>, now: u64) -> AppView {
        self.notified(message, NotificationLevel::Warn, 5000, now)
    }

    /// An error is shown for six seconds.
    pub open spec fn error(self, message: Seq<char>, now: u64) -> AppView {
        self.notified(message, NotificationLevel::Error, 6000, now)
    }

    /// Back in Normal mode.
    pub open spec fn normal(self) -> AppView {
        AppView { mode: EditorMode::Normal, style: apply_normal_mode_style(), ..self }
    }

    /// The cursor at a line and column, or as close as the text allows.
    pub open spec fn jumped(self, line: nat, col: nat) -> AppView {
        AppView { textarea: self.textarea.jump_to(line, col), ..self }
    }

    pub open spec fn jumped_to(self, m: Option<MatchView>) -> AppView {
        match m {
            Some(m) => self.jumped(m.line, m.col),
            None => self,
        }
    }

    /// The highlighting follows the search.
    pub open spec fn synced(self) -> AppView {
        AppView {
            textarea: TextAreaView {
                pattern: highlighted_pattern(self.search),
                ..self.textarea
            },
            ..self
        }
    }

    /// What is in the text area differs from what is on disk.
    pub open spec fn has_unsaved_changes(self) -> bool {
        self.content() != self.document.text
    }

    /// After an edit the document is modified where the text is not the one that was last saved.
    pub open spec fn edited(self) -> AppView {
        AppView {
            document: DocumentView {
                modified: self.has_unsaved_changes(),
                ..self.document
            },
            ..self
        }
    }

    /// A request to render what is in the text area, under a new revision.
    pub open spec fn request(self) -> (AppView, EffectView) {
        let next = AppView { revision: self.revision + 1, ..self };
        (
            next,
            EffectView::Render(
                RenderRequestView {
                    revision: (self.revision + 1) as u64,
                    markdown: self.content(),
                    col_width: self.preview_width,
                },
            ),
        )
    }

    pub open spec fn and_nothing(self) -> (AppView, EffectView) {
        (self, EffectView::Nothing)
    }

    pub open spec fn current_match(self) -> Option<MatchView> {
        match self.search {
            Some(s) => s.current_match(),
            None => None,
        }
    }

    /// A new search.
    #[verifier::opaque]
    pub open spec fn searching(self, kind: SearchKind) -> AppView {
        AppView {
            saved_cursor: self.textarea.cursor,
            search: Some(
                SearchView {
                    pattern: Seq::empty(),
                    kind,
                    matches: Seq::empty(),
                    current: 0,
                    wrap: true,
                    case_insensitive: self.config.editor.search_case_insensitive,
                },
            ),
            mode: EditorMode::Search,
            ..self
        }.synced()
    }

    /// A search with its matches brought up to date, unless the document is too large.
    pub open spec fn refreshed(self, s: SearchView) -> SearchView {
        if byte_len(self.content()) <= LARGE_DOC_THRESHOLD_BYTES {
            s.recomputed(self.content())
        } else {
            s
        }
    }

    /// One more character in the search pattern.
    #[verifier::opaque]
    pub open spec fn search_input(self, c: char) -> AppView {
        match self.search {
            Some(s) => {
                let t = self.refreshed(SearchView { pattern: s.pattern.push(c), ..s });
                AppView { search: Some(t), ..self }.jumped_to(t.current_match()).synced()
            },
            None => self.synced(),
        }
    }

    /// One character less in the search pattern. Without a pattern the cursor returns to where
    /// the search began.
    #[verifier::opaque]
    pub open spec fn search_backspace(self) -> AppView {
        match self.search {
            Some(s) => {
                let t = self.refreshed(
                    SearchView {
                        pattern: if s.pattern.len() > 0 {
                            s.pattern.drop_last()
                        } else {
                            s.pattern
                        },
                        ..s
                    },
                );
                let a = AppView { search: Some(t), ..self };
                if t.pattern.len() == 0 {
                    a.jumped(self.saved_cursor.0, self.saved_cursor.1).synced()
                } else {
                    a.jumped_to(t.current_match()).synced()
                }
            },
            None => self.synced(),
        }
    }

    /// The end of a search at the current match.
    #[verifier::opaque]
    pub open spec fn search_committed(self) -> AppView {
        self.normal().jumped_to(self.current_match()).synced()
    }

    /// The end of a search that is called off: the cursor returns, the pattern is gone.
    #[verifier::opaque]
    pub open spec fn search_cancelled(self) -> AppView {
        let a = self.normal().jumped(self.saved_cursor.0, self.saved_cursor.1);
        AppView {
            search: match self.search {
                Some(s) => Some(
                    SearchView { pattern: Seq::empty(), matches: Seq::empty(), ..s },
                ),
                None => None,
            },
            ..a
        }.synced()
    }

    /// A step to the next match, or to the one before.
    #[verifier::opaque]
    pub open spec fn search_stepped(self, forward: bool, now: u64) -> AppView {
        match self.search {
            Some(s) => {
                let t = if forward {
                    s.next()
                } else {
                    s.prev()
                };
                let a = AppView { search: Some(t), ..self };
                match t.current_match() {
                    Some(m) => a.jumped(m.line, m.col),
                    None => if s.pattern.len() > 0 {
                        a.info("No matches found"@, now)
                    } else {
                        a
                    },
                }
            },
            None => self,
        }
    }

    /// The selected link is followed.
    #[verifier::opaque]
    pub open spec fn followed(self, now: u64) -> (AppView, EffectView) {
        if self.link_cursor < self.links.len() {
            let link = self.links[self.link_cursor as int];
            match link.target {
                LinkTargetView::External(url) => (
                    self.info("Opening: "@ + url, now),
                    EffectView::Browse { url },
                ),
                LinkTargetView::InternalAnchor(anchor) => self.jumped(
                    anchor_line(self.links, anchor, link.source_line),
                    0,
                ).info("Jumped to #"@ + anchor, now).and_nothing(),
                LinkTargetView::WikiLink(page) => self.warn(
                    "Wiki link navigation not supported in MVP: [["@ + page + "]]"@,
                    now,
                ).and_nothing(),
                LinkTargetView::FilePath(path) => self.warn(
                    "File path navigation not supported in MVP: "@ + path,
                    now,
                ).and_nothing(),
                LinkTargetView::Image { .. } => self.and_nothing(),
            }
        } else {
            self.and_nothing()
        }
    }

    /// The start of a save. A document without a path cannot be saved.
    #[verifier::opaque]
    pub open spec fn saving(self, then: AfterSave, now: u64) -> (AppView, EffectView) {
        match self.document.path {
            Some(path) => (self, EffectView::Write { path, content: self.content(), then }),
            None => self.error(
                "Save failed: "@ + save_error_text(CoreErrorView::DocumentNoPath),
                now,
            ).and_nothing(),
        }
    }

    /// The end of a save of a document whose name is shown so.
    pub open spec fn save_finished(
        self,
        then: AfterSave,
        outcome: WriteOutcomeView,
        now: u64,
        shown: Seq<char>,
    ) -> AppView {
        let (document, error) = saved_in_place(self.document, self.content(), outcome);
        let a = AppView { document, ..self };
        match error {
            Some(e) => a.error("Save failed: "@ + save_error_text(e), now),
            None => match then {
                AfterSave::Stay => a,
                AfterSave::Report => a.info("Saved \""@ + shown + "\""@, now),
                AfterSave::Quit => AppView { should_quit: true, ..a },
            },
        }
    }

    /// A file was read that is to be edited from now on; its name is shown so.
    pub open spec fn open_finished(
        self,
        path: Seq<char>,
        content: FileContentView,
        now: u64,
        shown: Seq<char>,
    ) -> (AppView, EffectView) {
        match opened(path, content) {
            Err(e) => self.error(
                "Cannot open '"@ + path + "': "@ + error_message(e),
                now,
            ).and_nothing(),
            Ok(document) => {
                let (a, effect) = AppView {
                    document,
                    textarea: fresh_textarea(
                        split_on(document.text, '\n'),
                        self.config.editor.tab_width,
                    ),
                    style: apply_normal_mode_style(),
                    search: None,
                    links: Seq::empty(),
                    link_cursor: 0,
                    ..self
                }.request();
                (a.info("Opened \""@ + shown + "\""@, now), effect)
            },
        }
    }

    /// A command is carried out.
    #[verifier::opaque]
    pub open spec fn commanded(self, cmd: Seq<char>, now: u64) -> (AppView, EffectView) {
        let (verb, rest) = command_parts(cmd);
        if verb == "w"@ {
            match rest {
                Some(path) => AppView {
                    document: DocumentView { path: Some(path), ..self.document },
                    ..self
                }.saving(AfterSave::Report, now),
                None => self.saving(AfterSave::Report, now),
            }
        } else if verb == "q"@ {
            if self.document.modified {
                self.error(
                    "Unsaved changes - use `:w` to save and `:q!` to foce quit"@,
                    now,
                ).and_nothing()
            } else {
                AppView { should_quit: true, ..self }.and_nothing()
            }
        } else if verb == "q!"@ {
            AppView { should_quit: true, ..self }.and_nothing()
        } else if verb == "wq"@ {
            self.saving(AfterSave::Quit, now)
        } else if verb == "e"@ {
            match rest {
                Some(path) => (self, EffectView::Open { path }),
                None => self.error(":e requires a file path"@, now).and_nothing(),
            }
        } else {
            self.error("Unkown command: :"@ + verb, now).and_nothing()
        }
    }

    /// The text area after a motion.
    #[verifier::opaque]
    pub open spec fn moved(self, m: CursorMove) -> AppView {
        AppView { textarea: self.textarea.move_cursor(m), ..self }
    }

    /// An action that types text, or that enters or leaves a mode in which text is typed.
    /// `typed` is what the text area makes of a key.
    #[verifier::opaque]
    pub open spec fn after_typing(self, action: EditorAction, typed: TextAreaView, now: u64) -> (
        AppView,
        EffectView,
    ) {
        match action {
            EditorAction::EnterInsert => AppView {
                mode: EditorMode::Insert,
                style: apply_insert_mode_style(),
                ..self
            }.and_nothing(),
            EditorAction::ExitInsert => AppView {
                command: if self.mode is Command {
                    Seq::empty()
                } else {
                    self.command
                },
                ..self
            }.normal().and_nothing(),
            EditorAction::TextInput(_) => AppView {
                textarea: typed,
                ..self
            }.edited().request(),
            EditorAction::EnterCommand => AppView {
                mode: EditorMode::Command,
                command: Seq::empty(),
                ..self
            }.and_nothing(),
            EditorAction::CommandInput(c) => AppView {
                command: self.command.push(c),
                ..self
            }.and_nothing(),
            EditorAction::CommandBackspace => AppView {
                command: if self.command.len() > 0 {
                    self.command.drop_last()
                } else {
                    self.command
                },
                ..self
            }.and_nothing(),
            EditorAction::ExecuteCommand => AppView {
                command: Seq::empty(),
                ..self
            }.normal().commanded(trimmed(self.command), now),
            _ => self.and_nothing(),
        }
    }

    /// An action on the links of the document.
    #[verifier::opaque]
    pub open spec fn after_link_action(self, action: EditorAction, now: u64) -> (
        AppView,
        EffectView,
    ) {
        let len = self.links.len();
        match action {
            EditorAction::EnterLinkSelect => if len == 0 {
                self.info("No links in document"@, now).and_nothing()
            } else {
                AppView { link_cursor: 0, mode: EditorMode::LinkSelect, ..self }.and_nothing()
            },
            EditorAction::LinkSelectNext => AppView {
                link_cursor: if len == 0 {
                    self.link_cursor
                } else {
                    (self.link_cursor + 1) % len
                },
                ..self
            }.and_nothing(),
            EditorAction::LinkSelectPrev => AppView {
                link_cursor: if len == 0 {
                    self.link_cursor
                } else if self.link_cursor > 0 {
                    (self.link_cursor - 1) as nat
                } else {
                    (len - 1) as nat
                },
                ..self
            }.and_nothing(),
            EditorAction::FollowLink => {
                let (a, effect) = self.followed(now);
                (a.normal(), effect)
            },
            _ => self.and_nothing(),
        }
    }

    /// An action of the search.
    #[verifier::opaque]
    pub open spec fn after_search_action(self, action: EditorAction, now: u64) -> AppView {
        match action {
            EditorAction::EnterLiteralSearch => self.searching(SearchKind::Literal),
            EditorAction::EnterRegexSearch => self.searching(SearchKind::Regex),
            EditorAction::SearchInput(c) => self.search_input(c),
            EditorAction::SearchBackspace => self.search_backspace(),
            EditorAction::CommitSearch => self.search_committed(),
            EditorAction::CancelSearch => self.search_cancelled(),
            EditorAction::SearchNext => self.search_stepped(true, now),
            EditorAction::SearchPrev => self.search_stepped(false, now),
            _ => self,
        }
    }

    /// An action on the preview pane.
    #[verifier::opaque]
    pub open spec fn after_preview_action(self, action: EditorAction) -> AppView {
        match action {
            EditorAction::PreviewScrollDown => if self.preview_mode is Html {
                AppView { scroll_html: scrolled_down(self.scroll_html), ..self }
            } else {
                AppView { scroll: scrolled_down(self.scroll), ..self }
            },
            EditorAction::PreviewScrollUp => if self.preview_mode is Html {
                AppView { scroll_html: scrolled_up(self.scroll_html), ..self }
            } else {
                AppView { scroll: scrolled_up(self.scroll), ..self }
            },
            EditorAction::TogglePreview => AppView {
                preview_mode: next_preview_mode(self.preview_mode),
                ..self
            },
            _ => self,
        }
    }

    /// The application is to end. It does not while the document has unsaved changes.
    #[verifier::opaque]
    pub open spec fn quitting(self, now: u64) -> AppView {
        if self.document.modified {
            self.warn("Unsaved changes - use `:w` to save, `:q!` to force quit"@, now)
        } else {
            AppView { should_quit: true, ..self }
        }
    }

    /// An action is carried out. `typed` is what the text area makes of a key.
    pub open spec fn after_action(self, action: EditorAction, typed: TextAreaView, now: u64) -> (
        AppView,
        EffectView,
    ) {
        match action {
            EditorAction::EnterInsert
            | EditorAction::ExitInsert
            | EditorAction::TextInput(_)
            | EditorAction::EnterCommand
            | EditorAction::CommandInput(_)
            | EditorAction::CommandBackspace
            | EditorAction::ExecuteCommand => self.after_typing(action, typed, now),
            EditorAction::EnterLinkSelect
            | EditorAction::LinkSelectNext
            | EditorAction::LinkSelectPrev
            | EditorAction::FollowLink => self.after_link_action(action, now),
            EditorAction::EnterLiteralSearch
            | EditorAction::EnterRegexSearch
            | EditorAction::SearchInput(_)
            | EditorAction::SearchBackspace
            | EditorAction::CommitSearch
            | EditorAction::CancelSearch
            | EditorAction::SearchNext
            | EditorAction::SearchPrev => self.after_search_action(action, now).and_nothing(),
            EditorAction::MoveLeft => self.moved(CursorMove::Back).and_nothing(),
            EditorAction::MoveDown => self.moved(CursorMove::Down).and_nothing(),
            EditorAction::MoveUp => self.moved(CursorMove::Up).and_nothing(),
            EditorAction::MoveRight => self.moved(CursorMove::Forward).and_nothing(),
            EditorAction::MoveWordForward => self.moved(CursorMove::WordForward).and_nothing(),
            EditorAction::MoveWordBackward => self.moved(CursorMove::WordBack).and_nothing(),
            EditorAction::MoveLineStart => self.moved(CursorMove::Head).and_nothing(),
            EditorAction::MoveLineEnd => self.moved(CursorMove::End).and_nothing(),
            EditorAction::MoveDocStart => self.moved(CursorMove::Top).and_nothing(),
            EditorAction::MoveDocEnd => self.moved(CursorMove::Bottom).and_nothing(),
            EditorAction::DeleteCharBackward => AppView {
                textarea: self.textarea.delete_char(),
                ..self
            }.edited().request(),
            EditorAction::DeleteCharForward => AppView {
                textarea: self.textarea.delete_next_char(),
                ..self
            }.edited().request(),
            EditorAction::PreviewScrollDown
            | EditorAction::PreviewScrollUp
            | EditorAction::TogglePreview => self.after_preview_action(action).and_nothing(),
            EditorAction::Save => self.saving(AfterSave::Stay, now),
            EditorAction::Quit => self.quitting(now).and_nothing(),
            EditorAction::Unbound => self.and_nothing(),
        }
    }

    /// Keys of a sequence that timed out are flushed, one after the other.
    pub open spec fn after_ticks(keymap: KeymapView, now: u64) -> KeymapView
        decreases keymap.pending.len(),
    {
        match keymap.after_tick(now) {
            (k, Some(_)) => if k.pending.len() < keymap.pending.len() {
                AppView::after_ticks(k, now)
            } else {
                k
            },
            (k, None) => k,
        }
    }

    /// A rendered preview is taken over, unless the document has changed since it was requested.
    pub open spec fn with_result(self, result: RenderResultView) -> AppView {
        if result.revision == self.revision {
            AppView {
                preview_text: result.rendered,
                preview_html: result.html,
                links: result.links,
                ..self
            }
        } else {
            self
        }
    }

    pub open spec fn with_results(self, results: Seq<RenderResultView>) -> AppView
        decreases results.len(),
    {
        if results.len() == 0 {
            self
        } else {
            self.with_results(results.drop_last()).with_result(results.last())
        }
    }

    /// A turn of the event loop.
    pub open spec fn ticked(self, now: u64, results: Seq<RenderResultView>) -> AppView {
        AppView {
            keymap: AppView::after_ticks(self.keymap, now),
            notifications: unexpired(self.notifications, now),
            ..self
        }.with_results(results)
    }

    /// A key is pressed.
    pub open spec fn after_key(self, key: KeyEvent, typed: TextAreaView, now: u64) -> (
        AppView,
        EffectView,
    ) {
        let (keymap, action) = self.keymap.after_key(key, self.mode, now);
        let a = AppView { keymap, ..self };
        match action {
            Some(action) => a.after_action(action, typed, now),
            None => a.and_nothing(),
        }
    }

    /// The state on startup, before the first request to render.
    pub open spec fn initial(
        config: Config,
        document: DocumentView,
        protocol: DetectedImageProtocol,
        hyperlinks_supported: bool,
        picker: Option<Picker>,
    ) -> AppView {
        AppView {
            document,
            mode: EditorMode::Normal,
            textarea: fresh_textarea(split_on(document.text, '\n'), config.editor.tab_width),
            style: apply_normal_mode_style(),
            config,
            should_quit: false,
            keymap: KeymapView {
                pending: Seq::empty(),
                last_key_at: None,
                timeout: config.editor.sequence_timeout_ms,
                bindings: configured_bindings(config.keymap),
                exit: exit_key(config.keymap.exit_insert),
            },
            notifications: Seq::empty(),
            command: Seq::empty(),
            search: None,
            saved_cursor: (0, 0),
            links: Seq::empty(),
            link_cursor: 0,
            hyperlinks_supported,
            protocol,
            picker,
            images: Seq::empty(),
            max_images: 20,
            preview_mode: initial_preview_mode(config.ui.initial_preview_mode),
            scroll: 0,
            scroll_html: 0,
            revision: 0,
            preview_text: Seq::empty(),
            preview_html: Seq::empty(),
            preview_width: 80,
        }
    }
}

/// The notifications that are still shown.
pub open spec fn unexpired(v: Seq<NotificationView>, now: u64) -> Seq<NotificationView>
    decreases v.len(),
{
    if v.len() == 0 {
        Seq::empty()
    } else {
        let front = unexpired(v.drop_last(), now);
        if v.last().expires_at > now {
            front.push(v.last())
        } else {
            front
        }
    }
}

/// The latest notification that is still shown.
pub open spec fn latest(v: Seq<NotificationView>, now: u64) -> Option<NotificationView>
    decreases v.len(),
{
    if v.len() == 0 {
        None
    } else if v.last().expires_at > now {
        Some(v.last())
    } else {
        latest(v.drop_last(), now)
    }
}

/// Escaping makes no text shorter.
pub proof fn lemma_escaped_len(s: Seq<char>)
    ensures
        escaped(s).len() >= s.len(),
    decreases s.len(),
{
    if s.len() > 0 {
        lemma_escaped_len(s.drop_last());
    }
}

} // verus!
