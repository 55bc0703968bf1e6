//! What holds of the application whatever happens.
use vstd::prelude::*;

use ratatui_image::picker::Picker;

use crate::app::model::{AppView, command_parts, latest, next_white_space, unexpired};
use crate::app::{AfterSave, NotificationView, requests_render};
use crate::config::Config;
use crate::document::{DocumentView, FileContentView, WriteOutcomeView, opened};
use crate::image_proto::DetectedImageProtocol;
use crate::keymap::{EditorAction, KeyCode, KeyEvent, KeyModifiers, exits_insert};
use crate::preview_worker::RenderResultView;
use crate::search::SearchKind;
use crate::text::{law_split_then_join, trimmed};
use crate::textarea::{
    CursorMove, TextAreaView, in_text, law_backspace_takes_back_a_character,
};

verus! {

/// What is opened is what is edited: the text area holds the text of the document, so that
/// saving an unedited file writes what was read. The same holds on startup.
pub proof fn law_opened_text_is_edited(
    app: AppView,
    path: Seq<char>,
    content: FileContentView,
    now: u64,
    shown: Seq<char>,
)
    requires
        opened(path, content) is Ok,
    ensures
        app.open_finished(path, content, now, shown).0.content() == opened(
            path,
            content,
        )->Ok_0.text,
        !app.open_finished(path, content, now, shown).0.document.modified,
{
    reveal_strlit("\n");
    assert("\n"@ =~= seq!['\n']);
    law_split_then_join(opened(path, content)->Ok_0.text, '\n');
}

/// On startup the text area holds the text of the document.
pub proof fn law_initial_text_is_the_document(
    config: Config,
    document: DocumentView,
    protocol: DetectedImageProtocol,
    hyperlinks_supported: bool,
    picker: Option<Picker>,
)
    ensures
        AppView::initial(config, document, protocol, hyperlinks_supported, picker).content()
            == document.text,
{
    reveal_strlit("\n");
    assert("\n"@ =~= seq!['\n']);
    law_split_then_join(document.text, '\n');
}

/// Only typing and deleting change the text. They ask for a new preview, and the document counts as
/// modified exactly when the text is not the one that was last saved; every other action leaves the
/// text and that mark alone. No action touches what is known of the file on disk: the document is
/// brought up to date only when a file has been saved or opened.
pub proof fn law_only_edits_change_the_text(
    app: AppView,
    action: EditorAction,
    typed: TextAreaView,
    now: u64,
)
    ensures
        ({
            let (after, effect) = app.after_action(action, typed, now);
            &&& after.document.text == app.document.text
            &&& if requests_render(action) {
                &&& after.document.modified == after.has_unsaved_changes()
                &&& effect is Render
                &&& after.revision == app.revision + 1
            } else {
                &&& after.textarea.lines == app.textarea.lines
                &&& after.document.modified == app.document.modified
                &&& effect !is Render
                &&& after.revision == app.revision
            }
        }),
{
    lemma_typing_text(app, action, typed, now);
    lemma_link_text(app, action, now);
    lemma_search_text(app, action, now);
    lemma_other_text(app, action, now);
}

/// The text, the document and the revision are the same, but perhaps for the document's path.
spec fn same_text(a: AppView, b: AppView) -> bool {
    &&& a.textarea.lines == b.textarea.lines
    &&& a.document.modified == b.document.modified
    &&& a.document.text == b.document.text
    &&& a.revision == b.revision
}

proof fn lemma_saving_text(app: AppView, then: AfterSave, now: u64)
    ensures
        same_text(app.saving(then, now).0, app),
        app.saving(then, now).1 !is Render,
{
    reveal(AppView::saving);
}

proof fn lemma_commanded_text(app: AppView, cmd: Seq<char>, now: u64)
    ensures
        same_text(app.commanded(cmd, now).0, app),
        app.commanded(cmd, now).1 !is Render,
{
    reveal(AppView::commanded);
    lemma_saving_text(app, AfterSave::Report, now);
    lemma_saving_text(app, AfterSave::Quit, now);
    if let Some(path) = command_parts(cmd).1 {
        lemma_saving_text(
            AppView { document: DocumentView { path: Some(path), ..app.document }, ..app },
            AfterSave::Report,
            now,
        );
    }
}

proof fn lemma_typing_text(app: AppView, action: EditorAction, typed: TextAreaView, now: u64)
    ensures
        ({
            let (after, effect) = app.after_typing(action, typed, now);
            if action is TextInput {
                &&& after.document.text == app.document.text
                &&& after.document.modified == after.has_unsaved_changes()
                &&& effect is Render
                &&& after.revision == app.revision + 1
            } else {
                same_text(after, app) && effect !is Render
            }
        }),
{
    reveal(AppView::after_typing);
    if action is ExecuteCommand {
        lemma_commanded_text(
            AppView { command: Seq::empty(), ..app }.normal(),
            trimmed(app.command),
            now,
        );
    }
}

proof fn lemma_link_text(app: AppView, action: EditorAction, now: u64)
    ensures
        same_text(app.after_link_action(action, now).0, app),
        app.after_link_action(action, now).1 !is Render,
{
    reveal(AppView::after_link_action);
    assert(same_text(app.followed(now).0, app) && app.followed(now).1 !is Render) by {
        reveal(AppView::followed);
    }
}

proof fn lemma_search_text(app: AppView, action: EditorAction, now: u64)
    ensures
        same_text(app.after_search_action(action, now), app),
{
    reveal(AppView::after_search_action);
    assert(forall|k: SearchKind| same_text(#[trigger] app.searching(k), app)) by {
        reveal(AppView::searching);
    }
    assert(forall|c: char| same_text(#[trigger] app.search_input(c), app)) by {
        reveal(AppView::search_input);
    }
    assert(same_text(app.search_backspace(), app)) by {
        reveal(AppView::search_backspace);
    }
    assert(same_text(app.search_committed(), app)) by {
        reveal(AppView::search_committed);
    }
    assert(same_text(app.search_cancelled(), app)) by {
        reveal(AppView::search_cancelled);
    }
    assert(forall|f: bool| same_text(#[trigger] app.search_stepped(f, now), app)) by {
        reveal(AppView::search_stepped);
    }
}

proof fn lemma_other_text(app: AppView, action: EditorAction, now: u64)
    ensures
        same_text(app.after_preview_action(action), app),
        same_text(app.quitting(now), app),
        forall|m: CursorMove| same_text(#[trigger] app.moved(m), app),
        same_text(app.saving(AfterSave::Stay, now).0, app),
        app.saving(AfterSave::Stay, now).1 !is Render,
{
    reveal(AppView::after_preview_action);
    reveal(AppView::quitting);
    reveal(AppView::moved);
    lemma_saving_text(app, AfterSave::Stay, now);
}

/// The mark of unsaved changes tells the truth: where it does so before, it does so after every
/// action, after a save whatever came of it, and after a file was opened or could not be.
pub proof fn law_unsaved_changes_are_marked(
    app: AppView,
    action: EditorAction,
    typed: TextAreaView,
    then: AfterSave,
    outcome: WriteOutcomeView,
    path: Seq<char>,
    content: FileContentView,
    now: u64,
    shown: Seq<char>,
)
    requires
        app.document.modified == app.has_unsaved_changes(),
    ensures
        ({
            let after = app.after_action(action, typed, now).0;
            after.document.modified == after.has_unsaved_changes()
        }),
        ({
            let after = app.save_finished(then, outcome, now, shown);
            after.document.modified == after.has_unsaved_changes()
        }),
        ({
            let after = app.open_finished(path, content, now, shown).0;
            after.document.modified == after.has_unsaved_changes()
        }),
{
    law_only_edits_change_the_text(app, action, typed, now);
    if opened(path, content) is Ok {
        law_opened_text_is_edited(app, path, content, now, shown);
    }
}

/// Typing a character and deleting it again leaves nothing unsaved that was not so before: the text
/// is the same, and the mark is that of the text.
pub proof fn law_taking_back_a_character_leaves_no_mark(app: AppView, c: char, now: u64)
    requires
        app.textarea.valid(),
        app.textarea.selection() is None,
        !app.has_unsaved_changes(),
    ensures
        ({
            let typed = app.textarea.insert_char(c);
            let key = KeyEvent { code: KeyCode::Char(c), modifiers: KeyModifiers::none() };
            let after = app.after_action(EditorAction::TextInput(key), typed, now).0;
            let back = after.after_action(EditorAction::DeleteCharBackward, typed, now).0;
            &&& back.textarea.lines == app.textarea.lines
            &&& !back.document.modified
        }),
{
    reveal(AppView::after_typing);
    law_backspace_takes_back_a_character(app.textarea, c);
}

/// Leaving with unsaved changes is refused, by the key as by the command `:q`.
pub proof fn law_unsaved_changes_refuse_to_quit(app: AppView, typed: TextAreaView, now: u64)
    requires
        app.document.modified,
        !app.should_quit,
    ensures
        !app.after_action(EditorAction::Quit, typed, now).0.should_quit,
        !app.commanded("q"@, now).0.should_quit,
{
    reveal(AppView::quitting);
    reveal(AppView::commanded);
    reveal(AppView::saving);
    reveal_strlit("q");
    reveal_strlit("q!");
    assert("q!"@.len() == 2);
    assert("q"@.len() == 1);
    lemma_command_q();
}

/// A save that succeeds leaves nothing unsaved, and the document holds what is in the text area.
/// One that fails changes nothing of the document and never ends the application.
pub proof fn law_saving(
    app: AppView,
    then: AfterSave,
    outcome: WriteOutcomeView,
    now: u64,
    shown: Seq<char>,
)
    requires
        app.document.path is Some,
    ensures
        ({
            let after = app.save_finished(then, outcome, now, shown);
            if outcome is Written {
                &&& !after.document.modified
                &&& after.document.text == app.content()
                &&& after.content() == app.content()
                &&& then is Quit ==> after.should_quit
            } else {
                &&& after.document == app.document
                &&& after.should_quit == app.should_quit
                &&& after.notifications.len() == app.notifications.len() + 1
            }
        }),
{
}

/// A preview that was requested before the last edit is never shown.
pub proof fn law_stale_previews_are_discarded(
    app: AppView,
    action: EditorAction,
    typed: TextAreaView,
    result: RenderResultView,
    now: u64,
)
    requires
        requests_render(action),
        result.revision <= app.revision,
    ensures
        ({
            let after = app.after_action(action, typed, now).0;
            after.with_result(result) == after
        }),
{
    law_only_edits_change_the_text(app, action, typed, now);
}

/// The toggle goes through all three preview modes and returns to the first.
pub proof fn law_preview_modes_cycle(app: AppView, typed: TextAreaView, now: u64)
    ensures
        ({
            let once = app.after_action(EditorAction::TogglePreview, typed, now).0;
            let twice = once.after_action(EditorAction::TogglePreview, typed, now).0;
            let thrice = twice.after_action(EditorAction::TogglePreview, typed, now).0;
            &&& thrice == app
            &&& once.preview_mode != app.preview_mode
            &&& twice.preview_mode != app.preview_mode
            &&& twice.preview_mode != once.preview_mode
        }),
{
    reveal(AppView::after_preview_action);
}

/// The two preview panes scroll independently of each other, and scrolling up takes back
/// scrolling down as long as the position can be counted.
pub proof fn law_previews_scroll_independently(app: AppView, typed: TextAreaView, now: u64)
    ensures
        ({
            let down = app.after_action(EditorAction::PreviewScrollDown, typed, now).0;
            let up = app.after_action(EditorAction::PreviewScrollUp, typed, now).0;
            let back = down.after_action(EditorAction::PreviewScrollUp, typed, now).0;
            if app.preview_mode is Html {
                &&& down.scroll == app.scroll
                &&& up.scroll == app.scroll
                &&& app.scroll_html <= u16::MAX - 5 ==> back == app
            } else {
                &&& down.scroll_html == app.scroll_html
                &&& up.scroll_html == app.scroll_html
                &&& app.scroll <= u16::MAX - 5 ==> back == app
            }
        }),
{
    reveal(AppView::after_preview_action);
}

/// While the selected link is one of the document, so are the one behind it and the one before it,
/// and stepping to the next link and back (or back and forth) selects the same link again.
pub proof fn law_link_selection_wraps(app: AppView, typed: TextAreaView, now: u64)
    requires
        app.link_cursor < app.links.len(),
    ensures
        ({
            let next = app.after_action(EditorAction::LinkSelectNext, typed, now).0;
            let prev = app.after_action(EditorAction::LinkSelectPrev, typed, now).0;
            &&& next.link_cursor < app.links.len()
            &&& prev.link_cursor < app.links.len()
            &&& next.after_action(EditorAction::LinkSelectPrev, typed, now).0 == app
            &&& prev.after_action(EditorAction::LinkSelectNext, typed, now).0 == app
        }),
{
    let next = lemma_link_next(app, typed, now);
    let prev = lemma_link_prev(app, typed, now);
    let _ = lemma_link_prev(next, typed, now);
    let _ = lemma_link_next(prev, typed, now);
}

proof fn lemma_link_next(app: AppView, typed: TextAreaView, now: u64) -> (r: AppView)
    requires
        app.link_cursor < app.links.len(),
    ensures
        r == app.after_action(EditorAction::LinkSelectNext, typed, now).0,
        r == (AppView {
            link_cursor: if app.link_cursor + 1 < app.links.len() {
                app.link_cursor + 1
            } else {
                0
            },
            ..app
        }),
{
    reveal(AppView::after_link_action);
    if app.link_cursor + 1 < app.links.len() {
        vstd::arithmetic::div_mod::lemma_small_mod(app.link_cursor + 1, app.links.len());
    } else {
        vstd::arithmetic::div_mod::lemma_mod_self_0(app.links.len() as int);
    }
    app.after_action(EditorAction::LinkSelectNext, typed, now).0
}

proof fn lemma_link_prev(app: AppView, typed: TextAreaView, now: u64) -> (r: AppView)
    requires
        app.link_cursor < app.links.len(),
    ensures
        r == app.after_action(EditorAction::LinkSelectPrev, typed, now).0,
        r == (AppView {
            link_cursor: if app.link_cursor > 0 {
                (app.link_cursor - 1) as nat
            } else {
                (app.links.len() - 1) as nat
            },
            ..app
        }),
{
    reveal(AppView::after_link_action);
    app.after_action(EditorAction::LinkSelectPrev, typed, now).0
}

/// Selecting links starts at the first one, and is refused where there are none.
pub proof fn law_link_selection_needs_links(app: AppView, typed: TextAreaView, now: u64)
    ensures
        ({
            let after = app.after_action(EditorAction::EnterLinkSelect, typed, now).0;
            if app.links.len() == 0 {
                after.mode == app.mode && after.link_cursor == app.link_cursor
            } else {
                after.mode is LinkSelect && after.link_cursor == 0
            }
        }),
{
    reveal(AppView::after_link_action);
}

/// The escape key leads to Normal mode from every mode. In Insert mode the configuration can put
/// another key in its place.
pub proof fn law_escape_leads_to_normal_mode(
    app: AppView,
    key: KeyEvent,
    typed: TextAreaView,
    now: u64,
)
    requires
        if app.mode is Insert {
            exits_insert(key, app.keymap.exit)
        } else {
            key.code is Esc
        },
    ensures
        app.after_key(key, typed, now).0.mode is Normal,
{
    reveal(AppView::after_typing);
    reveal(AppView::after_search_action);
    reveal(AppView::search_cancelled);
}

/// A tick drops no notification that is still shown: the latest one stays the same.
pub proof fn law_ticks_keep_the_active_notification(
    app: AppView,
    now: u64,
    results: Seq<RenderResultView>,
)
    ensures
        latest(app.ticked(now, results).notifications, now) == latest(app.notifications, now),
        forall|i: int|
            0 <= i < app.ticked(now, results).notifications.len() ==> (
            #[trigger] app.ticked(now, results).notifications[i]).expires_at > now,
{
    let ticked = AppView {
        keymap: AppView::after_ticks(app.keymap, now),
        notifications: unexpired(app.notifications, now),
        ..app
    };
    lemma_results_keep(ticked, results);
    lemma_unexpired(app.notifications, now);
}

/// A search that is called off leaves no trace: the cursor is back where it was, nothing is
/// highlighted or counted, and the text and the document are as before. This holds whatever was
/// typed and wherever the search has led.
pub proof fn law_cancelled_search_leaves_no_trace(
    app: AppView,
    kind: SearchKind,
    inputs: Seq<(EditorAction, u64)>,
)
    requires
        in_text(app.textarea.lines, app.textarea.cursor),
        forall|i: int| 0 <= i < inputs.len() ==> is_search_input((#[trigger] inputs[i]).0),
    ensures
        ({
            let after = searched(app.searching(kind), inputs).search_cancelled();
            &&& after.textarea.cursor == app.textarea.cursor
            &&& after.textarea.lines == app.textarea.lines
            &&& after.textarea.pattern is None
            &&& after.mode is Normal
            &&& after.search matches Some(s) && s.pattern.len() == 0 && s.matches.len() == 0
            &&& after.document == app.document
            &&& after.revision == app.revision
            &&& after.content() == app.content()
        }),
{
    reveal(AppView::searching);
    reveal(AppView::search_cancelled);
    lemma_searched_keeps(app.searching(kind), inputs);
}

/// An action by which a search goes on.
pub open spec fn is_search_input(action: EditorAction) -> bool {
    ||| action is SearchInput
    ||| action is SearchBackspace
    ||| action is SearchNext
    ||| action is SearchPrev
}

/// The application after a series of search actions, each at its own time.
pub open spec fn searched(app: AppView, inputs: Seq<(EditorAction, u64)>) -> AppView
    decreases inputs.len(),
{
    if inputs.len() == 0 {
        app
    } else {
        searched(app, inputs.drop_last()).after_search_action(inputs.last().0, inputs.last().1)
    }
}

proof fn lemma_searched_keeps(app: AppView, inputs: Seq<(EditorAction, u64)>)
    requires
        app.mode is Search,
        forall|i: int| 0 <= i < inputs.len() ==> is_search_input((#[trigger] inputs[i]).0),
    ensures
        searched(app, inputs).textarea.lines == app.textarea.lines,
        searched(app, inputs).saved_cursor == app.saved_cursor,
        searched(app, inputs).document == app.document,
        searched(app, inputs).revision == app.revision,
        app.search is Some ==> searched(app, inputs).search is Some,
        searched(app, inputs).mode is Search,
    decreases inputs.len(),
{
    if inputs.len() > 0 {
        let front = inputs.drop_last();
        assert forall|i: int| 0 <= i < front.len() implies is_search_input(
            (#[trigger] front[i]).0,
        ) by {
            assert(front[i] == inputs[i]);
        }
        lemma_searched_keeps(app, front);
        assert(is_search_input(inputs[inputs.len() - 1].0));
        reveal(AppView::after_search_action);
        reveal(AppView::search_input);
        reveal(AppView::search_backspace);
        reveal(AppView::search_stepped);
    }
}

proof fn lemma_results_keep(app: AppView, results: Seq<RenderResultView>)
    ensures
        app.with_results(results).notifications == app.notifications,
    decreases results.len(),
{
    if results.len() > 0 {
        lemma_results_keep(app, results.drop_last());
    }
}

proof fn lemma_unexpired(v: Seq<NotificationView>, now: u64)
    ensures
        latest(unexpired(v, now), now) == latest(v, now),
        forall|i: int|
            0 <= i < unexpired(v, now).len() ==> (#[trigger] unexpired(v, now)[i]).expires_at > now,
    decreases v.len(),
{
    if v.len() > 0 {
        lemma_unexpired(v.drop_last(), now);
        if v.last().expires_at > now {
            assert(unexpired(v, now).drop_last() =~= unexpired(v.drop_last(), now));
        }
    }
}

proof fn lemma_command_q()
    ensures
        command_parts("q"@) == ("q"@, None::<Seq<char>>),
{
    reveal_strlit("q");
    reveal_with_fuel(next_white_space, 3);
    assert(trimmed("q"@) =~= "q"@);
    assert("q"@.take(1) =~= "q"@);
    assert(trimmed("q"@.skip(1)) =~= Seq::empty());
}

} // verus!
