//! What saving, opening and the commands do.
use vstd::prelude::*;
use vstd::utf8::{
    decode_utf8, encode_utf8, encode_utf8_decode_utf8, encode_utf8_valid_utf8, valid_utf8,
};

use crate::app::model::{AppView, command_parts, next_white_space, save_error_text};
use crate::app::{AfterSave, NotificationLevel};
use crate::document::{DocumentView, FileContentView, WriteOutcomeView, opened};
use crate::errors::CoreErrorView;
use crate::keymap::EditorAction;
use crate::text::{
    all_white_space, is_trim, is_white_space, joined, law_join_then_split,
    law_joined_parts_follow_each_other, law_trimming_takes_white_space_from_both_ends, trimmed,
};
use crate::textarea::TextAreaView;

verus! {

/// The text of the application is its lines, one behind the other, with a line feed between two
/// lines and none at the end.
pub proof fn law_content_is_the_lines(app: AppView, shorter: AppView, line: Seq<char>)
    requires
        app.textarea.lines == shorter.textarea.lines.push(line),
    ensures
        shorter.textarea.lines.len() == 0 ==> app.content() == line,
        shorter.textarea.lines.len() > 0 ==> app.content() == shorter.content().push('\n') + line,
{
    reveal_strlit("\n");
    assert("\n"@ =~= seq!['\n']);
    let front = shorter.textarea.lines;
    law_joined_parts_follow_each_other(front, line, "\n"@);
    if front.len() == 0 {
        assert(front.push(line) =~= seq![line]);
    } else {
        assert(joined(front, "\n"@) + "\n"@ =~= joined(front, "\n"@).push('\n'));
    }
}

/// The application has one notification more, with this text and level, until a point in time.
pub open spec fn tells(
    after: AppView,
    before: AppView,
    message: Seq<char>,
    level: NotificationLevel,
    until: int,
) -> bool {
    &&& after.notifications.len() == before.notifications.len() + 1
    &&& after.notifications.drop_last() == before.notifications
    &&& after.notifications.last().message == message
    &&& after.notifications.last().level == level
    &&& until <= u64::MAX ==> after.notifications.last().expires_at == until
    &&& until > u64::MAX ==> after.notifications.last().expires_at == u64::MAX
}

/// What a save without a path is answered.
pub open spec fn no_path_message() -> Seq<char> {
    "Save failed: "@ + save_error_text(CoreErrorView::DocumentNoPath)
}

/// What a save writes is what is in the text area, whatever was on disk, and it goes to the path of
/// the document. Without a path nothing is written, and an error says so. The state does not change
/// otherwise: the document counts as saved only when the write is done.
pub proof fn law_a_save_writes_what_is_seen(app: AppView, typed: TextAreaView, now: u64)
    ensures
        ({
            let (after, effect) = app.after_action(EditorAction::Save, typed, now);
            &&& app.document.path matches Some(path) ==> {
                &&& effect is Write
                &&& effect->Write_content == joined(app.textarea.lines, seq!['\n'])
                &&& effect->Write_path == path
                &&& effect->then is Stay
                &&& after == app
            }
            &&& app.document.path is None ==> {
                &&& effect is Nothing
                &&& tells(after, app, no_path_message(), NotificationLevel::Error, now + 6000)
                &&& after == (AppView { notifications: after.notifications, ..app })
            }
        }),
{
    reveal(AppView::saving);
    reveal_strlit("\n");
    assert("\n"@ =~= seq!['\n']);
    if app.document.path is None {
        let after = app.after_action(EditorAction::Save, typed, now).0;
        assert(after.notifications.drop_last() =~= app.notifications);
    }
}

/// Something is written at all only on a request to save, and what is written is always the text in
/// the text area.
pub proof fn law_only_a_save_writes(
    app: AppView,
    action: EditorAction,
    typed: TextAreaView,
    now: u64,
)
    ensures
        ({
            let (after, effect) = app.after_action(action, typed, now);
            effect is Write ==> {
                &&& action is Save || action is ExecuteCommand
                &&& effect->Write_content == joined(app.textarea.lines, seq!['\n'])
                &&& after.document.path == Some(effect->Write_path)
                &&& after.textarea == app.textarea
                &&& after.document.text == app.document.text
                &&& after.document.modified == app.document.modified
            }
        }),
{
    reveal_strlit("\n");
    assert("\n"@ =~= seq!['\n']);
    reveal(AppView::saving);
    reveal(AppView::commanded);
    reveal(AppView::after_typing);
    reveal(AppView::after_link_action);
    reveal(AppView::followed);
}

/// One or more characters, none of which is white space.
pub open spec fn is_word(s: Seq<char>) -> bool {
    s.len() > 0 && forall|i: int| 0 <= i < s.len() ==> !is_white_space(#[trigger] s[i])
}

/// A command as it is typed: a verb, behind white space what it is given, and white space around
/// both.
pub open spec fn command_line(
    before: Seq<char>,
    verb: Seq<char>,
    gap: Seq<char>,
    given: Seq<char>,
    after: Seq<char>,
) -> Seq<char> {
    before + verb + gap + given + after
}

/// The parts of a command are where they should be.
pub open spec fn is_command(
    before: Seq<char>,
    verb: Seq<char>,
    gap: Seq<char>,
    given: Seq<char>,
    after: Seq<char>,
) -> bool {
    &&& all_white_space(before)
    &&& is_word(verb)
    &&& all_white_space(gap)
    &&& is_trim(given)
    &&& given.len() > 0 ==> gap.len() > 0
    &&& all_white_space(after)
}

proof fn lemma_next_white_space(s: Seq<char>, from: int, to: int)
    requires
        0 <= from <= to <= s.len(),
        forall|i: int| from <= i < to ==> !is_white_space(#[trigger] s[i]),
        to < s.len() ==> is_white_space(s[to]),
    ensures
        next_white_space(s, from) == to,
    decreases to - from,
{
    if from < to {
        lemma_next_white_space(s, from + 1, to);
    }
}

/// A command is taken apart into its verb and what the verb is given, whatever white space stands
/// around them.
pub proof fn law_commands_are_taken_apart(
    before: Seq<char>,
    verb: Seq<char>,
    gap: Seq<char>,
    given: Seq<char>,
    after: Seq<char>,
)
    requires
        is_command(before, verb, gap, given, after),
    ensures
        command_parts(command_line(before, verb, gap, given, after)) == (
            verb,
            if given.len() > 0 {
                Some(given)
            } else {
                None
            },
        ),
        command_parts(trimmed(command_line(before, verb, gap, given, after))) == (
            verb,
            if given.len() > 0 {
                Some(given)
            } else {
                None
            },
        ),
{
    let empty = Seq::<char>::empty();
    let line = command_line(before, verb, gap, given, after);
    if given.len() == 0 {
        assert(line =~= before + verb + (gap + after));
        law_trimming_takes_white_space_from_both_ends(before, verb, gap + after);
        law_trimming_takes_white_space_from_both_ends(empty, verb, empty);
        assert(empty + verb + empty =~= verb);
        lemma_next_white_space(verb, 0, verb.len() as int);
        assert(verb.take(verb.len() as int) =~= verb);
        assert(verb.skip(verb.len() as int) =~= empty);
        assert(trimmed(empty) =~= empty);
    } else {
        let c = verb + gap + given;
        assert(line =~= before + c + after);
        assert(c[0] == verb[0]);
        assert(c.last() == given.last());
        law_trimming_takes_white_space_from_both_ends(before, c, after);
        law_trimming_takes_white_space_from_both_ends(empty, c, empty);
        assert(empty + c + empty =~= c);
        assert(c[verb.len() as int] == gap[0]);
        lemma_next_white_space(c, 0, verb.len() as int);
        assert(c.take(verb.len() as int) =~= verb);
        assert(c.skip(verb.len() as int) =~= gap + given + empty);
        law_trimming_takes_white_space_from_both_ends(gap, given, empty);
    }
}

proof fn lemma_verbs()
    ensures
        "w"@ =~= seq!['w'],
        "q"@ =~= seq!['q'],
        "q!"@ =~= seq!['q', '!'],
        "wq"@ =~= seq!['w', 'q'],
        "e"@ =~= seq!['e'],
{
    reveal_strlit("w");
    reveal_strlit("q");
    reveal_strlit("q!");
    reveal_strlit("wq");
    reveal_strlit("e");
}

/// A command ends Command mode and empties the prompt. It leaves the text, what is known of the
/// file on disk and everything else alone, but for the path, the notifications and whether to quit.
pub open spec fn ends_command(after: AppView, app: AppView) -> bool {
    &&& after.mode is Normal
    &&& after.command.len() == 0
    &&& after == (AppView {
        mode: after.mode,
        style: after.style,
        command: after.command,
        document: DocumentView { path: after.document.path, ..app.document },
        notifications: after.notifications,
        should_quit: after.should_quit,
        ..app
    })
}

/// The commands that save write what is in the text area: `:w` to the path of the document, or to
/// the given one, which becomes the path of the document; `:wq` to the path of the document, to end
/// once it is written. Without a path nothing is written, and an error says so.
pub proof fn law_write_commands(
    app: AppView,
    before: Seq<char>,
    verb: Seq<char>,
    gap: Seq<char>,
    given: Seq<char>,
    after: Seq<char>,
    typed: TextAreaView,
    now: u64,
)
    requires
        is_command(before, verb, gap, given, after),
        app.command == command_line(before, verb, gap, given, after),
        verb == seq!['w'] || verb == seq!['w', 'q'],
    ensures
        ({
            let (next, effect) = app.after_action(EditorAction::ExecuteCommand, typed, now);
            let path = if verb == seq!['w'] && given.len() > 0 {
                Some(given)
            } else {
                app.document.path
            };
            &&& ends_command(next, app)
            &&& next.should_quit == app.should_quit
            &&& next.document.path == path
            &&& match path {
                Some(path) => {
                    &&& effect is Write
                    &&& effect->Write_path == path
                    &&& effect->Write_content == joined(app.textarea.lines, seq!['\n'])
                    &&& verb == seq!['w'] ==> effect->then is Report
                    &&& verb == seq!['w', 'q'] ==> effect->then is Quit
                    &&& next.notifications == app.notifications
                },
                None => {
                    &&& effect is Nothing
                    &&& tells(next, app, no_path_message(), NotificationLevel::Error, now + 6000)
                },
            }
        }),
{
    law_commands_are_taken_apart(before, verb, gap, given, after);
    lemma_verbs();
    reveal_strlit("\n");
    assert("\n"@ =~= seq!['\n']);
    reveal(AppView::after_typing);
    reveal(AppView::commanded);
    reveal(AppView::saving);
    let (next, effect) = app.after_action(EditorAction::ExecuteCommand, typed, now);
    assert(verb.len() == 2 ==> verb != "w"@ && verb != "q"@ && verb[1] == 'q');
    if effect is Nothing {
        assert(next.notifications.drop_last() =~= app.notifications);
    }
}

/// The commands that end: `:q` does so where nothing is unsaved and is refused with an error where
/// something is, `:q!` does so in any case. Neither writes anything.
pub proof fn law_quit_commands(
    app: AppView,
    before: Seq<char>,
    verb: Seq<char>,
    gap: Seq<char>,
    given: Seq<char>,
    after: Seq<char>,
    typed: TextAreaView,
    now: u64,
)
    requires
        is_command(before, verb, gap, given, after),
        app.command == command_line(before, verb, gap, given, after),
        verb == seq!['q'] || verb == seq!['q', '!'],
    ensures
        ({
            let (next, effect) = app.after_action(EditorAction::ExecuteCommand, typed, now);
            &&& ends_command(next, app)
            &&& effect is Nothing
            &&& next.document == app.document
            &&& if verb == seq!['q'] && app.document.modified {
                &&& next.should_quit == app.should_quit
                &&& tells(
                    next,
                    app,
                    "Unsaved changes - use `:w` to save and `:q!` to foce quit"@,
                    NotificationLevel::Error,
                    now + 6000,
                )
            } else {
                &&& next.should_quit
                &&& next.notifications == app.notifications
            }
        }),
{
    law_commands_are_taken_apart(before, verb, gap, given, after);
    lemma_verbs();
    reveal(AppView::after_typing);
    reveal(AppView::commanded);
    let (next, effect) = app.after_action(EditorAction::ExecuteCommand, typed, now);
    assert(verb.len() == 2 ==> verb != "w"@ && verb != "q"@ && verb[1] == '!');
    assert(verb[0] == 'q');
    if verb == seq!['q'] && app.document.modified {
        assert(next.notifications.drop_last() =~= app.notifications);
    }
}

/// `:e` asks for the given file to be opened, and for a path where none is given. A verb that is
/// no command is named in an error. Neither changes the document.
pub proof fn law_other_commands(
    app: AppView,
    before: Seq<char>,
    verb: Seq<char>,
    gap: Seq<char>,
    given: Seq<char>,
    after: Seq<char>,
    typed: TextAreaView,
    now: u64,
)
    requires
        is_command(before, verb, gap, given, after),
        app.command == command_line(before, verb, gap, given, after),
        verb != seq!['w'],
        verb != seq!['w', 'q'],
        verb != seq!['q'],
        verb != seq!['q', '!'],
    ensures
        ({
            let (next, effect) = app.after_action(EditorAction::ExecuteCommand, typed, now);
            &&& ends_command(next, app)
            &&& next.document == app.document
            &&& next.should_quit == app.should_quit
            &&& if verb == seq!['e'] && given.len() > 0 {
                &&& effect is Open
                &&& effect->Open_path == given
                &&& next.notifications == app.notifications
            } else if verb == seq!['e'] {
                &&& effect is Nothing
                &&& tells(
                    next,
                    app,
                    ":e requires a file path"@,
                    NotificationLevel::Error,
                    now + 6000,
                )
            } else {
                &&& effect is Nothing
                &&& tells(
                    next,
                    app,
                    "Unkown command: :"@ + verb,
                    NotificationLevel::Error,
                    now + 6000,
                )
            }
        }),
{
    law_commands_are_taken_apart(before, verb, gap, given, after);
    lemma_verbs();
    reveal(AppView::after_typing);
    reveal(AppView::commanded);
    let (next, effect) = app.after_action(EditorAction::ExecuteCommand, typed, now);
    if effect is Nothing {
        assert(next.notifications.drop_last() =~= app.notifications);
    }
}

/// What is typed at the prompt is the command: each character is added at its end, and the last one
/// can be taken back. Leaving the prompt, or opening it again, empties it.
pub proof fn law_the_prompt_holds_what_is_typed(
    app: AppView,
    c: char,
    typed: TextAreaView,
    now: u64,
)
    ensures
        ({
            let more = app.after_action(EditorAction::CommandInput(c), typed, now);
            let less = app.after_action(EditorAction::CommandBackspace, typed, now);
            let open = app.after_action(EditorAction::EnterCommand, typed, now);
            let left = app.after_action(EditorAction::ExitInsert, typed, now);
            &&& more.0 == (AppView { command: app.command.push(c), ..app })
            &&& more.0.after_action(EditorAction::CommandBackspace, typed, now).0 == app
            &&& app.command.len() == 0 ==> less.0 == app
            &&& app.command.len() > 0 ==> less.0 == (AppView {
                command: app.command.take(app.command.len() - 1),
                ..app
            })
            &&& open.0.command.len() == 0
            &&& open.0.mode is Command
            &&& app.mode is Command ==> left.0.command.len() == 0 && left.0.mode is Normal
            &&& more.1 is Nothing && less.1 is Nothing && open.1 is Nothing && left.1 is Nothing
        }),
{
    reveal(AppView::after_typing);
    assert(app.command.push(c).drop_last() =~= app.command);
    if app.command.len() > 0 {
        assert(app.command.drop_last() =~= app.command.take(app.command.len() - 1));
    }
}

/// A save that succeeds makes the text of the text area the text on disk; the path stays. What
/// follows is what was asked for: nothing, a report, or the end of the application. A save that
/// fails is reported as an error and does none of this.
pub proof fn law_the_end_of_a_save(
    app: AppView,
    then: AfterSave,
    outcome: WriteOutcomeView,
    now: u64,
    shown: Seq<char>,
)
    requires
        app.document.path is Some,
    ensures
        ({
            let after = app.save_finished(then, outcome, now, shown);
            &&& after.document.path == app.document.path
            &&& after == (AppView {
                document: after.document,
                notifications: after.notifications,
                should_quit: after.should_quit,
                ..app
            })
            &&& if outcome is Written {
                &&& after.document.text == joined(app.textarea.lines, seq!['\n'])
                &&& !after.document.modified
                &&& then is Quit ==> after.should_quit
                &&& !(then is Quit) ==> after.should_quit == app.should_quit
                &&& then is Report ==> tells(
                    after,
                    app,
                    "Saved \""@ + shown + "\""@,
                    NotificationLevel::Info,
                    now + 4000,
                )
                &&& !(then is Report) ==> after.notifications == app.notifications
            } else {
                &&& after.document == app.document
                &&& after.should_quit == app.should_quit
                &&& after.notifications.len() == app.notifications.len() + 1
                &&& after.notifications.drop_last() == app.notifications
                &&& after.notifications.last().level is Error
                &&& now + 6000 <= u64::MAX ==> after.notifications.last().expires_at == now + 6000
            }
        }),
{
    reveal_strlit("\n");
    assert("\n"@ =~= seq!['\n']);
    let after = app.save_finished(then, outcome, now, shown);
    if after.notifications.len() > app.notifications.len() {
        assert(after.notifications.drop_last() =~= app.notifications);
    }
}

/// A file that can be read replaces the document: the text area holds its text with the cursor at
/// the start and nothing selected, searched for or linked to, and the preview of exactly this text
/// is requested. One that cannot be read changes nothing, and an error says so.
pub proof fn law_the_end_of_opening(
    app: AppView,
    path: Seq<char>,
    content: FileContentView,
    now: u64,
    shown: Seq<char>,
)
    ensures
        ({
            let (after, effect) = app.open_finished(path, content, now, shown);
            if content matches FileContentView::Bytes(bytes) && valid_utf8(bytes) {
                let text = decode_utf8(content->Bytes_0);
                &&& joined(after.textarea.lines, seq!['\n']) == text
                &&& after.document == (DocumentView { text, path: Some(path), modified: false })
                &&& after.textarea.cursor == (0nat, 0nat)
                &&& after.textarea.anchor is None
                &&& after.textarea.pattern is None
                &&& after.search is None
                &&& after.links.len() == 0
                &&& after.link_cursor == 0
                &&& after.revision == app.revision + 1
                &&& effect is Render
                &&& effect->Render_0.markdown == text
                &&& effect->Render_0.col_width == app.preview_width
                &&& after.revision <= u64::MAX ==> effect->Render_0.revision == after.revision
                &&& tells(
                    after,
                    app,
                    "Opened \""@ + shown + "\""@,
                    NotificationLevel::Info,
                    now + 4000,
                )
                &&& after.mode == app.mode
                &&& after.should_quit == app.should_quit
                &&& after.preview_mode == app.preview_mode
                &&& after.config == app.config
                &&& after.keymap == app.keymap
                &&& after == (AppView {
                    document: after.document,
                    textarea: after.textarea,
                    style: after.style,
                    search: after.search,
                    links: after.links,
                    link_cursor: after.link_cursor,
                    revision: after.revision,
                    notifications: after.notifications,
                    ..app
                })
            } else {
                &&& effect is Nothing
                &&& after == (AppView { notifications: after.notifications, ..app })
                &&& after.notifications.len() == app.notifications.len() + 1
                &&& after.notifications.drop_last() == app.notifications
                &&& after.notifications.last().level is Error
            }
        }),
{
    reveal_strlit("\n");
    assert("\n"@ =~= seq!['\n']);
    let (after, effect) = app.open_finished(path, content, now, shown);
    assert(after.notifications.drop_last() =~= app.notifications);
    if opened(path, content) is Ok {
        crate::text::law_split_then_join(opened(path, content)->Ok_0.text, '\n');
    }
}

/// Opening a file gives back what a save has written to it: the same lines.
pub proof fn law_opening_gives_back_what_was_saved(
    app: AppView,
    typed: TextAreaView,
    now: u64,
    shown: Seq<char>,
)
    requires
        app.textarea.lines.len() > 0,
        forall|i: int|
            0 <= i < app.textarea.lines.len() ==> !(#[trigger] app.textarea.lines[i]).contains('\n'),
        app.document.path is Some,
    ensures
        ({
            let effect = app.after_action(EditorAction::Save, typed, now).1;
            let bytes = FileContentView::Bytes(encode_utf8(effect->Write_content));
            let again = app.open_finished(effect->Write_path, bytes, now, shown).0;
            &&& again.textarea.lines == app.textarea.lines
            &&& again.document.path == app.document.path
            &&& again.document.text == app.content()
        }),
{
    law_a_save_writes_what_is_seen(app, typed, now);
    reveal_strlit("\n");
    assert("\n"@ =~= seq!['\n']);
    let effect = app.after_action(EditorAction::Save, typed, now).1;
    encode_utf8_valid_utf8(effect->Write_content);
    encode_utf8_decode_utf8(effect->Write_content);
    law_join_then_split(app.textarea.lines, '\n');
}

/// The key that ends does so only where nothing is unsaved; a warning says so otherwise.
pub proof fn law_the_quit_key(app: AppView, typed: TextAreaView, now: u64)
    ensures
        ({
            let (after, effect) = app.after_action(EditorAction::Quit, typed, now);
            &&& effect is Nothing
            &&& app.document.modified ==> after == (AppView {
                notifications: after.notifications,
                ..app
            }) && tells(
                after,
                app,
                "Unsaved changes - use `:w` to save, `:q!` to force quit"@,
                NotificationLevel::Warn,
                now + 5000,
            )
            &&& !app.document.modified ==> after == (AppView { should_quit: true, ..app })
        }),
{
    reveal(AppView::quitting);
    let after = app.after_action(EditorAction::Quit, typed, now).0;
    if app.document.modified {
        assert(after.notifications.drop_last() =~= app.notifications);
    }
}

} // verus!
