//! What modes, links, previews and notifications do.
use vstd::prelude::*;

use ratatui_image::picker::Picker;

use crate::app::commands::{command_line, law_a_save_writes_what_is_seen, law_write_commands, tells};
use crate::app::editing::{law_left_and_right, law_up_and_down};
use crate::app::model::{AppView, anchor_line, latest, unexpired};
use crate::app::{EffectView, NotificationLevel, NotificationView, requests_render};
use crate::config::Config;
use crate::document::DocumentView;
use crate::image_proto::DetectedImageProtocol;
use crate::keymap::keys::{
    bare, gives, is_fresh, law_edit_and_preview_keys, law_mode_and_search_keys, law_motion_keys,
    law_unfinished_sequences_time_out, with_control,
};
use crate::keymap::{EditorAction, KeyCode, KeyEvent, NormalAction, law_defaults_without_overrides};
use crate::links::{LinkTargetView, LinkView};
use crate::modes::EditorMode;
use crate::preview_worker::RenderResultView;
use crate::text::{all_white_space, joined, law_split_then_join, lemma_trimmed_empty, trimmed};
use crate::textarea::TextAreaView;

verus! {

// ---------------------------------------------------------------------------
// Modes
// ---------------------------------------------------------------------------

/// An action that leads to a mode.
pub open spec fn enters(action: EditorAction) -> Option<EditorMode> {
    match action {
        EditorAction::EnterInsert => Some(EditorMode::Insert),
        EditorAction::EnterCommand => Some(EditorMode::Command),
        EditorAction::EnterLiteralSearch | EditorAction::EnterRegexSearch => Some(
            EditorMode::Search,
        ),
        EditorAction::ExitInsert
        | EditorAction::ExecuteCommand
        | EditorAction::CommitSearch
        | EditorAction::CancelSearch
        | EditorAction::FollowLink => Some(EditorMode::Normal),
        _ => None,
    }
}

/// Each of these actions leads to its mode, whatever the mode was before. Selecting links needs
/// links; every other action stays in the mode.
pub proof fn law_actions_lead_to_their_mode(
    app: AppView,
    action: EditorAction,
    typed: TextAreaView,
    now: u64,
)
    requires
        action !is ExecuteCommand,
    ensures
        ({
            let after = app.after_action(action, typed, now).0;
            match enters(action) {
                Some(mode) => after.mode == mode,
                None => if action is EnterLinkSelect && app.links.len() > 0 {
                    after.mode is LinkSelect
                } else {
                    after.mode == app.mode
                },
            }
        }),
{
    reveal(AppView::after_typing);
    reveal(AppView::after_link_action);
    reveal(AppView::after_search_action);
    reveal(AppView::searching);
    reveal(AppView::search_committed);
    reveal(AppView::search_cancelled);
    assert(forall|c: char| (#[trigger] app.search_input(c)).mode == app.mode) by {
        reveal(AppView::search_input);
    }
    assert(app.search_backspace().mode == app.mode) by {
        reveal(AppView::search_backspace);
    }
    assert(forall|f: bool| (#[trigger] app.search_stepped(f, now)).mode == app.mode) by {
        reveal(AppView::search_stepped);
    }
    reveal(AppView::after_preview_action);
    reveal(AppView::saving);
    reveal(AppView::quitting);
    reveal(AppView::moved);
}

/// Entering and leaving Insert mode changes nothing but the mode and how the cursor looks, so that
/// the two can be told apart.
pub proof fn law_insert_mode_can_be_seen(app: AppView, typed: TextAreaView, now: u64)
    requires
        app.mode !is Command,
    ensures
        ({
            let (insert, e) = app.after_action(EditorAction::EnterInsert, typed, now);
            let (normal, f) = insert.after_action(EditorAction::ExitInsert, typed, now);
            &&& insert == (AppView { mode: EditorMode::Insert, style: insert.style, ..app })
            &&& normal == (AppView { mode: EditorMode::Normal, style: normal.style, ..app })
            &&& insert.style.cursor != normal.style.cursor
            &&& e is Nothing
            &&& f is Nothing
        }),
{
    reveal(AppView::after_typing);
}

// ---------------------------------------------------------------------------
// Preview
// ---------------------------------------------------------------------------

/// The toggle leads from the rendered text to the HTML source, from there to no preview, and from
/// there to the rendered text again. Nothing else changes.
pub proof fn law_the_toggle_goes_on(app: AppView, typed: TextAreaView, now: u64)
    ensures
        ({
            let (after, effect) = app.after_action(EditorAction::TogglePreview, typed, now);
            &&& app.preview_mode is Rendered ==> after.preview_mode is Html
            &&& app.preview_mode is Html ==> after.preview_mode is Hidden
            &&& app.preview_mode is Hidden ==> after.preview_mode is Rendered
            &&& after == (AppView { preview_mode: after.preview_mode, ..app })
            &&& effect is Nothing
        }),
{
    reveal(AppView::after_preview_action);
}

/// The preview that is shown scrolls by five lines, down as far as can be counted and up to the
/// top. Nothing else changes.
pub proof fn law_previews_scroll_by_five_lines(app: AppView, typed: TextAreaView, now: u64)
    ensures
        ({
            let (down, e) = app.after_action(EditorAction::PreviewScrollDown, typed, now);
            let (up, f) = app.after_action(EditorAction::PreviewScrollUp, typed, now);
            let (at, lower, upper) = if app.preview_mode is Html {
                (app.scroll_html as int, down.scroll_html as int, up.scroll_html as int)
            } else {
                (app.scroll as int, down.scroll as int, up.scroll as int)
            };
            &&& at + 5 <= u16::MAX ==> lower == at + 5
            &&& at + 5 > u16::MAX ==> lower == u16::MAX
            &&& at >= 5 ==> upper == at - 5
            &&& at < 5 ==> upper == 0
            &&& if app.preview_mode is Html {
                &&& down == (AppView { scroll_html: down.scroll_html, ..app })
                &&& up == (AppView { scroll_html: up.scroll_html, ..app })
            } else {
                &&& down == (AppView { scroll: down.scroll, ..app })
                &&& up == (AppView { scroll: up.scroll, ..app })
            }
            &&& e is Nothing
            &&& f is Nothing
        }),
{
    reveal(AppView::after_preview_action);
}

/// Every edit asks for the preview of the text as it is after the edit, under a number of its own.
pub proof fn law_edits_request_their_own_preview(
    app: AppView,
    action: EditorAction,
    typed: TextAreaView,
    now: u64,
)
    requires
        requests_render(action),
        app.revision < u64::MAX,
    ensures
        ({
            let (after, effect) = app.after_action(action, typed, now);
            &&& effect is Render
            &&& effect->Render_0.markdown == joined(after.textarea.lines, seq!['\n'])
            &&& effect->Render_0.revision == app.revision + 1
            &&& effect->Render_0.col_width == app.preview_width
            &&& after.revision == app.revision + 1
        }),
{
    reveal(AppView::after_typing);
    reveal_strlit("\n");
    assert("\n"@ =~= seq!['\n']);
}

/// A preview is shown exactly when it is that of the last request: its text, its HTML and its links
/// replace those before it. Any other is left out. Nothing else changes.
pub proof fn law_the_last_requested_preview_is_shown(app: AppView, result: RenderResultView)
    ensures
        ({
            let after = app.with_result(result);
            &&& result.revision == app.revision ==> after.preview_text == result.rendered
                && after.preview_html == result.html && after.links == result.links
            &&& result.revision != app.revision ==> after == app
            &&& after == (AppView {
                preview_text: after.preview_text,
                preview_html: after.preview_html,
                links: after.links,
                ..app
            })
        }),
{
}

/// Of several previews that came in, the last one of those that were asked for last is shown,
/// wherever it stands among them; without such a one the preview stays.
pub proof fn law_the_latest_preview_wins(app: AppView, results: Seq<RenderResultView>, k: int)
    requires
        -1 <= k < results.len(),
        k >= 0 ==> results[k].revision == app.revision,
        forall|i: int| k < i < results.len() ==> (#[trigger] results[i]).revision != app.revision,
    ensures
        k >= 0 ==> app.with_results(results).preview_text == results[k].rendered,
        k >= 0 ==> app.with_results(results).preview_html == results[k].html,
        k >= 0 ==> app.with_results(results).links == results[k].links,
        k < 0 ==> app.with_results(results) == app,
        app.with_results(results).revision == app.revision,
        app.with_results(results).textarea == app.textarea,
    decreases results.len(),
{
    if results.len() > 0 {
        let front = results.drop_last();
        if k == results.len() - 1 {
            lemma_results_keep(app, front);
        } else {
            assert forall|i: int| k < i < front.len() implies (#[trigger] front[i]).revision
                != app.revision by {
                assert(front[i] == results[i]);
            }
            law_the_latest_preview_wins(app, front, k);
            assert(results[results.len() - 1].revision != app.revision);
        }
    }
}

proof fn lemma_results_keep(app: AppView, results: Seq<RenderResultView>)
    ensures
        app.with_results(results).revision == app.revision,
        app.with_results(results).textarea == app.textarea,
    decreases results.len(),
{
    if results.len() > 0 {
        lemma_results_keep(app, results.drop_last());
    }
}

// ---------------------------------------------------------------------------
// Links
// ---------------------------------------------------------------------------

/// The next link is the one behind the selected one, and the first behind the last; the previous
/// link is the one before it, and the last before the first. Nothing else changes.
pub proof fn law_link_steps_select_the_neighbours(app: AppView, typed: TextAreaView, now: u64)
    requires
        app.link_cursor < app.links.len(),
    ensures
        ({
            let (next, e) = app.after_action(EditorAction::LinkSelectNext, typed, now);
            let (prev, f) = app.after_action(EditorAction::LinkSelectPrev, typed, now);
            let last = app.links.len() - 1;
            &&& app.link_cursor < last ==> next.link_cursor == app.link_cursor + 1
            &&& app.link_cursor == last ==> next.link_cursor == 0
            &&& app.link_cursor > 0 ==> prev.link_cursor == app.link_cursor - 1
            &&& app.link_cursor == 0 ==> prev.link_cursor == last
            &&& next == (AppView { link_cursor: next.link_cursor, ..app })
            &&& prev == (AppView { link_cursor: prev.link_cursor, ..app })
            &&& e is Nothing
            &&& f is Nothing
        }),
{
    reveal(AppView::after_link_action);
    let n = app.links.len();
    if app.link_cursor + 1 < n {
        vstd::arithmetic::div_mod::lemma_small_mod(app.link_cursor + 1, n);
    } else {
        vstd::arithmetic::div_mod::lemma_mod_self_0(n as int);
    }
}

/// Selecting links starts at the first one; without links a message says so and nothing else
/// changes.
pub proof fn law_link_selection_starts_at_the_first(app: AppView, typed: TextAreaView, now: u64)
    ensures
        ({
            let (after, effect) = app.after_action(EditorAction::EnterLinkSelect, typed, now);
            &&& effect is Nothing
            &&& app.links.len() > 0 ==> after == (AppView {
                mode: EditorMode::LinkSelect,
                link_cursor: 0,
                ..app
            })
            &&& app.links.len() == 0 ==> after == (AppView {
                notifications: after.notifications,
                ..app
            }) && tells(after, app, "No links in document"@, NotificationLevel::Info, now + 4000)
        }),
{
    reveal(AppView::after_link_action);
    let after = app.after_action(EditorAction::EnterLinkSelect, typed, now).0;
    if app.links.len() == 0 {
        assert(after.notifications.drop_last() =~= app.notifications);
    }
}

proof fn lemma_anchor_line(links: Seq<LinkView>, anchor: Seq<char>, k: int, fallback: nat)
    requires
        0 <= k < links.len(),
        links[k].target == LinkTargetView::InternalAnchor(anchor),
        forall|i: int|
            0 <= i < k ==> (#[trigger] links[i]).target != LinkTargetView::InternalAnchor(anchor),
    ensures
        anchor_line(links, anchor, fallback) == links[k].source_line,
    decreases k,
{
    if k > 0 {
        assert(links[0].target != LinkTargetView::InternalAnchor(anchor));
        let rest = links.drop_first();
        assert forall|i: int| 0 <= i < k - 1 implies (#[trigger] rest[i]).target
            != LinkTargetView::InternalAnchor(anchor) by {
            assert(rest[i] == links[i + 1]);
        }
        lemma_anchor_line(rest, anchor, k - 1, fallback);
    }
}

/// Following a link to the web opens exactly its address in the browser, and a message says so. The
/// cursor and the text stay.
pub proof fn law_following_a_link_to_the_web(app: AppView, typed: TextAreaView, now: u64)
    requires
        app.link_cursor < app.links.len(),
        app.links[app.link_cursor as int].target is External,
    ensures
        ({
            let (after, effect) = app.after_action(EditorAction::FollowLink, typed, now);
            let url = app.links[app.link_cursor as int].target->External_0;
            &&& effect is Browse
            &&& effect->url == url
            &&& tells(after, app, "Opening: "@ + url, NotificationLevel::Info, now + 4000)
            &&& after.mode is Normal
            &&& after.textarea == app.textarea
        }),
{
    reveal(AppView::after_link_action);
    reveal(AppView::followed);
    let after = app.after_action(EditorAction::FollowLink, typed, now).0;
    assert(after.notifications.drop_last() =~= app.notifications);
}

/// Following a link to a heading goes to the start of the line of the first heading with that
/// anchor, as far as the text reaches, and a message says so.
pub proof fn law_following_a_link_to_a_heading(app: AppView, typed: TextAreaView, now: u64, k: int)
    requires
        app.link_cursor < app.links.len(),
        app.links[app.link_cursor as int].target is InternalAnchor,
        0 <= k < app.links.len(),
        app.links[k].target == app.links[app.link_cursor as int].target,
        forall|i: int|
            0 <= i < k ==> (#[trigger] app.links[i]).target
                != app.links[app.link_cursor as int].target,
        app.textarea.lines.len() > 0,
    ensures
        ({
            let (after, effect) = app.after_action(EditorAction::FollowLink, typed, now);
            let anchor = app.links[app.link_cursor as int].target->InternalAnchor_0;
            &&& effect is Nothing
            &&& app.links[k].source_line < app.textarea.lines.len() ==> after.textarea.cursor == (
                app.links[k].source_line,
                0nat,
            )
            &&& after.textarea.cursor.1 == 0
            &&& after.textarea == (TextAreaView { cursor: after.textarea.cursor, ..app.textarea })
            &&& tells(after, app, "Jumped to #"@ + anchor, NotificationLevel::Info, now + 4000)
            &&& after.mode is Normal
        }),
{
    reveal(AppView::after_link_action);
    reveal(AppView::followed);
    let link = app.links[app.link_cursor as int];
    lemma_anchor_line(app.links, link.target->InternalAnchor_0, k, link.source_line);
    let after = app.after_action(EditorAction::FollowLink, typed, now).0;
    assert(after.notifications.drop_last() =~= app.notifications);
}

/// Following any other link changes neither the text nor the cursor and opens nothing. Links to
/// pages and files are named in a warning.
pub proof fn law_following_any_other_link(app: AppView, typed: TextAreaView, now: u64)
    requires
        app.link_cursor < app.links.len() ==> !(app.links[app.link_cursor as int].target is External)
            && !(app.links[app.link_cursor as int].target is InternalAnchor),
    ensures
        ({
            let (after, effect) = app.after_action(EditorAction::FollowLink, typed, now);
            &&& effect is Nothing
            &&& after.mode is Normal
            &&& after.textarea == app.textarea
            &&& app.link_cursor >= app.links.len() ==> after.notifications == app.notifications
            &&& app.link_cursor < app.links.len() ==> match app.links[app.link_cursor as int].target {
                LinkTargetView::WikiLink(page) => tells(
                    after,
                    app,
                    "Wiki link navigation not supported in MVP: [["@ + page + "]]"@,
                    NotificationLevel::Warn,
                    now + 5000,
                ),
                LinkTargetView::FilePath(path) => tells(
                    after,
                    app,
                    "File path navigation not supported in MVP: "@ + path,
                    NotificationLevel::Warn,
                    now + 5000,
                ),
                _ => after.notifications == app.notifications,
            }
        }),
{
    reveal(AppView::after_link_action);
    reveal(AppView::followed);
    let after = app.after_action(EditorAction::FollowLink, typed, now).0;
    if after.notifications.len() > app.notifications.len() {
        assert(after.notifications.drop_last() =~= app.notifications);
    }
}

// ---------------------------------------------------------------------------
// Notifications
// ---------------------------------------------------------------------------

/// Information is shown for four seconds, a warning for five, an error for six.
pub proof fn law_notifications_last(app: AppView, message: Seq<char>, now: u64)
    ensures
        tells(app.info(message, now), app, message, NotificationLevel::Info, now + 4000),
        tells(app.warn(message, now), app, message, NotificationLevel::Warn, now + 5000),
        tells(app.error(message, now), app, message, NotificationLevel::Error, now + 6000),
{
    assert(app.info(message, now).notifications.drop_last() =~= app.notifications);
    assert(app.warn(message, now).notifications.drop_last() =~= app.notifications);
    assert(app.error(message, now).notifications.drop_last() =~= app.notifications);
}

/// The notification that is shown is the latest one whose time is not over, and there is none where
/// the time of all of them is over.
pub proof fn law_the_latest_notification_is_shown(v: Seq<NotificationView>, now: u64)
    ensures
        match latest(v, now) {
            Some(n) => exists|i: int|
                0 <= i < v.len() && #[trigger] v[i] == n && n.expires_at > now && forall|j: int|
                    i < j < v.len() ==> (#[trigger] v[j]).expires_at <= now,
            None => forall|i: int| 0 <= i < v.len() ==> (#[trigger] v[i]).expires_at <= now,
        },
    decreases v.len(),
{
    if v.len() > 0 {
        let front = v.drop_last();
        let last = v[v.len() - 1];
        law_the_latest_notification_is_shown(front, now);
        if last.expires_at <= now {
            match latest(front, now) {
                Some(n) => {
                    let i = choose|i: int|
                        0 <= i < front.len() && #[trigger] front[i] == n && n.expires_at > now
                            && forall|j: int|
                            i < j < front.len() ==> (#[trigger] front[j]).expires_at <= now;
                    assert(v[i] == n);
                    assert forall|j: int| i < j < v.len() implies (#[trigger] v[j]).expires_at
                        <= now by {
                        if j < front.len() {
                            assert(front[j] == v[j]);
                        }
                    }
                },
                None => {
                    assert forall|i: int| 0 <= i < v.len() implies (#[trigger] v[i]).expires_at
                        <= now by {
                        if i < front.len() {
                            assert(front[i] == v[i]);
                        }
                    }
                },
            }
        }
    }
}

/// A tick takes away the notifications whose time is over, and no others; the order of the others
/// stays.
pub proof fn law_ticks_take_what_is_over(v: Seq<NotificationView>, now: u64)
    ensures
        unexpired(v, now) == v.filter(|n: NotificationView| n.expires_at > now),
    decreases v.len(),
{
    reveal(Seq::filter);
    if v.len() > 0 {
        law_ticks_take_what_is_over(v.drop_last(), now);
    }
}

// ---------------------------------------------------------------------------
// Startup
// ---------------------------------------------------------------------------

/// The editor starts in Normal mode at the beginning of the document, with nothing typed, searched
/// for, selected or shown so far, and does not end by itself. What is edited is the document.
pub proof fn law_startup(
    config: Config,
    document: DocumentView,
    protocol: DetectedImageProtocol,
    hyperlinks_supported: bool,
    picker: Option<Picker>,
)
    ensures
        ({
            let app = AppView::initial(config, document, protocol, hyperlinks_supported, picker);
            &&& app.document == document
            &&& joined(app.textarea.lines, seq!['\n']) == document.text
            &&& app.textarea.cursor == (0nat, 0nat)
            &&& app.textarea.anchor is None
            &&& app.textarea.pattern is None
            &&& app.mode is Normal
            &&& app.config == config
            &&& !app.should_quit
            &&& app.notifications.len() == 0
            &&& app.command.len() == 0
            &&& app.search is None
            &&& app.links.len() == 0
            &&& app.link_cursor == 0
            &&& app.images.len() == 0
            &&& app.scroll == 0
            &&& app.scroll_html == 0
            &&& app.revision == 0
            &&& app.preview_text.len() == 0
            &&& app.preview_html.len() == 0
            &&& app.keymap.pending.len() == 0
            &&& app.keymap.last_key_at is None
            &&& app.keymap.timeout == config.editor.sequence_timeout_ms
            &&& app.hyperlinks_supported == hyperlinks_supported
            &&& app.protocol == protocol
        }),
{
    reveal_strlit("\n");
    assert("\n"@ =~= seq!['\n']);
    law_split_then_join(document.text, '\n');
}

// ---------------------------------------------------------------------------
// Keys
// ---------------------------------------------------------------------------

/// A key does what its action does, and nothing where it has none yet.
pub proof fn law_keys_do_what_their_action_does(
    app: AppView,
    key: KeyEvent,
    typed: TextAreaView,
    now: u64,
)
    ensures
        ({
            let (keymap, action) = app.keymap.after_key(key, app.mode, now);
            let pressed = AppView { keymap, ..app };
            &&& action matches Some(a) ==> app.after_key(key, typed, now) == pressed.after_action(
                a,
                typed,
                now,
            )
            &&& action is None ==> app.after_key(key, typed, now) == (pressed, EffectView::Nothing)
        }),
{
}

/// The cursor is in another place, and nothing else differs but what the dispatcher has pending.
pub open spec fn moved_to(after: AppView, app: AppView, row: int, col: int) -> bool {
    &&& after.textarea.cursor == (row as nat, col as nat)
    &&& after == (AppView {
        keymap: after.keymap,
        textarea: TextAreaView { cursor: after.textarea.cursor, ..app.textarea },
        ..app
    })
}

proof fn lemma_key_moves(
    app: AppView,
    key: KeyEvent,
    action: EditorAction,
    typed: TextAreaView,
    now: u64,
)
    requires
        app.textarea.valid(),
        app.mode is Normal,
        gives(app.keymap, key, now, action),
    ensures
        ({
            let (row, col) = (app.textarea.cursor.0 as int, app.textarea.cursor.1 as int);
            let lines = app.textarea.lines;
            let after = app.after_key(key, typed, now).0;
            &&& action is MoveLeft && col > 0 ==> moved_to(after, app, row, col - 1)
            &&& action is MoveRight && col < lines[row].len() ==> moved_to(
                after,
                app,
                row,
                col + 1,
            )
            &&& action is MoveUp && row > 0 && col <= lines[row - 1].len() ==> moved_to(
                after,
                app,
                row - 1,
                col,
            )
            &&& action is MoveDown && row + 1 < lines.len() && col <= lines[row + 1].len()
                ==> moved_to(after, app, row + 1, col)
        }),
{
    let pressed = AppView {
        keymap: app.keymap.after_key(key, EditorMode::Normal, now).0,
        ..app
    };
    assert(app.after_key(key, typed, now) == pressed.after_action(action, typed, now));
    law_left_and_right(pressed, typed, now);
    law_up_and_down(pressed, typed, now);
}

/// With the built-in bindings `h` and `l` move by one column, and so do the arrow keys to the left
/// and to the right.
pub proof fn law_motion_keys_move_by_a_column(app: AppView, typed: TextAreaView, now: u64)
    requires
        app.textarea.valid(),
        app.mode is Normal,
        is_fresh(app.keymap),
    ensures
        ({
            let (row, col) = (app.textarea.cursor.0 as int, app.textarea.cursor.1 as int);
            let h = app.after_key(bare(KeyCode::Char('h')), typed, now).0;
            let l = app.after_key(bare(KeyCode::Char('l')), typed, now).0;
            let left = app.after_key(bare(KeyCode::Left), typed, now).0;
            let right = app.after_key(bare(KeyCode::Right), typed, now).0;
            &&& col > 0 ==> moved_to(h, app, row, col - 1) && moved_to(left, app, row, col - 1)
            &&& col < app.textarea.lines[row].len() ==> moved_to(l, app, row, col + 1) && moved_to(
                right,
                app,
                row,
                col + 1,
            )
        }),
{
    law_motion_keys(app.keymap, now, now);
    lemma_key_moves(app, bare(KeyCode::Char('h')), EditorAction::MoveLeft, typed, now);
    lemma_key_moves(app, bare(KeyCode::Left), EditorAction::MoveLeft, typed, now);
    lemma_key_moves(app, bare(KeyCode::Char('l')), EditorAction::MoveRight, typed, now);
    lemma_key_moves(app, bare(KeyCode::Right), EditorAction::MoveRight, typed, now);
}

/// With the built-in bindings `k` and `j` move by one row, and so do the arrow keys up and down.
pub proof fn law_motion_keys_move_by_a_row(app: AppView, typed: TextAreaView, now: u64)
    requires
        app.textarea.valid(),
        app.mode is Normal,
        is_fresh(app.keymap),
    ensures
        ({
            let (row, col) = (app.textarea.cursor.0 as int, app.textarea.cursor.1 as int);
            let lines = app.textarea.lines;
            let k = app.after_key(bare(KeyCode::Char('k')), typed, now).0;
            let j = app.after_key(bare(KeyCode::Char('j')), typed, now).0;
            let up = app.after_key(bare(KeyCode::Up), typed, now).0;
            let down = app.after_key(bare(KeyCode::Down), typed, now).0;
            &&& row > 0 && col <= lines[row - 1].len() ==> moved_to(k, app, row - 1, col)
                && moved_to(up, app, row - 1, col)
            &&& row + 1 < lines.len() && col <= lines[row + 1].len() ==> moved_to(
                j,
                app,
                row + 1,
                col,
            ) && moved_to(down, app, row + 1, col)
        }),
{
    law_motion_keys(app.keymap, now, now);
    lemma_key_moves(app, bare(KeyCode::Char('k')), EditorAction::MoveUp, typed, now);
    lemma_key_moves(app, bare(KeyCode::Up), EditorAction::MoveUp, typed, now);
    lemma_key_moves(app, bare(KeyCode::Char('j')), EditorAction::MoveDown, typed, now);
    lemma_key_moves(app, bare(KeyCode::Down), EditorAction::MoveDown, typed, now);
}

/// A blank command is no command, and an error says so.
pub proof fn law_blank_commands(app: AppView, typed: TextAreaView, now: u64)
    requires
        all_white_space(app.command),
    ensures
        ({
            let (after, effect) = app.after_action(EditorAction::ExecuteCommand, typed, now);
            &&& effect is Nothing
            &&& after.mode is Normal
            &&& after.command.len() == 0
            &&& after.textarea == app.textarea
            &&& after.document == app.document
            &&& after.should_quit == app.should_quit
            &&& tells(after, app, "Unkown command: :"@, NotificationLevel::Error, now + 6000)
        }),
{
    reveal(AppView::after_typing);
    reveal(AppView::commanded);
    reveal_strlit("w");
    reveal_strlit("q");
    reveal_strlit("q!");
    reveal_strlit("wq");
    reveal_strlit("e");
    let empty = Seq::<char>::empty();
    lemma_trimmed_empty(app.command);
    assert(trimmed(app.command) =~= empty);
    lemma_trimmed_empty(empty);
    assert(trimmed(empty) =~= empty);
    assert(empty.take(0) =~= empty);
    assert(empty.skip(0) =~= empty);
    let after = app.after_action(EditorAction::ExecuteCommand, typed, now).0;
    assert("Unkown command: :"@ + empty =~= "Unkown command: :"@);
    assert(after.notifications.drop_last() =~= app.notifications);
}

/// A key without a meaning does nothing to the text or to anything else.
pub proof fn law_unbound_keys_do_nothing(app: AppView, typed: TextAreaView, now: u64)
    ensures
        app.after_action(EditorAction::Unbound, typed, now) == (app, EffectView::Nothing),
{
}

/// The preview starts as the configuration says, and the keys are those of the configuration.
pub proof fn law_startup_follows_the_configuration(
    config: Config,
    document: DocumentView,
    protocol: DetectedImageProtocol,
    hyperlinks_supported: bool,
    picker: Option<Picker>,
)
    ensures
        ({
            let app = AppView::initial(config, document, protocol, hyperlinks_supported, picker);
            &&& config.ui.initial_preview_mode is Rendered ==> app.preview_mode is Rendered
            &&& config.ui.initial_preview_mode is Html ==> app.preview_mode is Html
            &&& config.ui.initial_preview_mode is Hidden ==> app.preview_mode is Hidden
            &&& config.editor.tab_width > 0 ==> app.textarea.tab_length == config.editor.tab_width
                && !app.textarea.hard_tabs
            &&& config.editor.tab_width == 0 ==> app.textarea.hard_tabs
            &&& config.keymap.is_default() ==> is_fresh(app.keymap) && app.keymap.exit is None
            &&& app.max_images == 20
            &&& app.preview_width == 80
        }),
{
    law_defaults_without_overrides(
        config.keymap,
        Seq::empty(),
        config.theme.name,
        NormalAction::Save,
    );
}

/// A tick gives up the first key of a sequence that was not finished in time, and leaves one alone
/// that still can be.
pub proof fn law_ticks_give_up_unfinished_sequences(
    app: AppView,
    at: u64,
    now: u64,
    results: Seq<RenderResultView>,
)
    requires
        app.keymap.last_key_at == Some(at),
        app.keymap.pending.len() > 0,
        app.keymap.timeout > 0,
        at <= now,
    ensures
        now < at + app.keymap.timeout ==> app.ticked(now, results).keymap == app.keymap,
        now >= at + app.keymap.timeout ==> app.ticked(now, results).keymap.pending
            == app.keymap.pending.skip(1),
        app.ticked(now, results).textarea == app.textarea,
{
    law_unfinished_sequences_time_out(app.keymap, at, now);
    let k = app.keymap.after_tick(now).0;
    let ticked = AppView {
        keymap: AppView::after_ticks(app.keymap, now),
        notifications: unexpired(app.notifications, now),
        ..app
    };
    lemma_results_keep_keymap(ticked, results);
    lemma_results_keep(ticked, results);
    reveal_with_fuel(AppView::after_ticks, 3);
    if now >= at + app.keymap.timeout && k.pending.len() > 0 {
        assert(k.last_key_at == Some(now));
        assert(k.after_tick(now) == (k, None::<EditorAction>));
    }
}

proof fn lemma_results_keep_keymap(app: AppView, results: Seq<RenderResultView>)
    ensures
        app.with_results(results).keymap == app.keymap,
    decreases results.len(),
{
    if results.len() > 0 {
        lemma_results_keep_keymap(app, results.drop_last());
    }
}

/// Control and `s` saves: what is in the text area is written to the path of the document.
pub proof fn law_control_s_saves(app: AppView, typed: TextAreaView, now: u64)
    requires
        app.mode is Normal,
        is_fresh(app.keymap),
        app.document.path is Some,
    ensures
        ({
            let effect = app.after_key(with_control(KeyCode::Char('s')), typed, now).1;
            &&& effect is Write
            &&& effect->Write_content == joined(app.textarea.lines, seq!['\n'])
            &&& Some(effect->Write_path) == app.document.path
        }),
{
    law_edit_and_preview_keys(app.keymap, now, now);
    law_a_save_writes_what_is_seen(
        AppView {
            keymap: app.keymap.after_key(
                with_control(KeyCode::Char('s')),
                EditorMode::Normal,
                now,
            ).0,
            ..app
        },
        typed,
        now,
    );
}

/// A colon, `w` and Enter save as well, and lead back to Normal mode.
pub proof fn law_typing_the_write_command_saves(app: AppView, typed: TextAreaView, now: u64)
    requires
        app.mode is Normal,
        is_fresh(app.keymap),
        app.document.path is Some,
    ensures
        ({
            let prompt = app.after_key(bare(KeyCode::Char(':')), typed, now).0;
            let command = prompt.after_key(bare(KeyCode::Char('w')), typed, now).0;
            let (after, effect) = command.after_key(bare(KeyCode::Enter), typed, now);
            &&& prompt.mode is Command
            &&& command.command == seq!['w']
            &&& effect is Write
            &&& effect->Write_content == joined(app.textarea.lines, seq!['\n'])
            &&& Some(effect->Write_path) == app.document.path
            &&& after.mode is Normal
            &&& after.textarea == app.textarea
        }),
{
    law_mode_and_search_keys(app.keymap, now, now);
    reveal(AppView::after_typing);
    let prompt = app.after_key(bare(KeyCode::Char(':')), typed, now).0;
    let command = prompt.after_key(bare(KeyCode::Char('w')), typed, now).0;
    assert(prompt.command =~= Seq::<char>::empty());
    assert(command.command =~= seq!['w']);
    let empty = Seq::<char>::empty();
    let pressed = AppView {
        keymap: command.keymap.after_key(bare(KeyCode::Enter), EditorMode::Command, now).0,
        ..command
    };
    assert(command_line(empty, seq!['w'], empty, empty, empty) =~= seq!['w']);
    law_write_commands(pressed, empty, seq!['w'], empty, empty, empty, typed, now);
}

} // verus!
