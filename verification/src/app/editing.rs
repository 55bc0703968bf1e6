//! What moving and typing do, in rows and columns.
use vstd::prelude::*;

use crate::app::EffectView;
use crate::app::model::AppView;
use crate::keymap::{EditorAction, KeyCode, KeyEvent};
use crate::textarea::{
    TextArea, TextAreaView, before, char_kind, is_plain, starts_word, typed_into, word_before,
    word_from,
};

verus! {

/// The application with the cursor elsewhere, and nothing else changed.
pub open spec fn with_cursor(app: AppView, row: int, col: int) -> AppView {
    AppView {
        textarea: TextAreaView { cursor: (row as nat, col as nat), ..app.textarea },
        ..app
    }
}

/// The length of a line of the text area.
pub open spec fn width(app: AppView, row: int) -> int {
    app.textarea.lines[row].len() as int
}

/// Moving left goes back by one column, and from the start of a line to the end of the one above.
/// Moving right goes on by one column, and from the end of a line to the start of the one below.
/// At the ends of the text the cursor stays. Nothing but the cursor changes.
pub proof fn law_left_and_right(app: AppView, typed: TextAreaView, now: u64)
    requires
        app.textarea.valid(),
    ensures
        ({
            let (row, col) = (app.textarea.cursor.0 as int, app.textarea.cursor.1 as int);
            let left = app.after_action(EditorAction::MoveLeft, typed, now);
            let right = app.after_action(EditorAction::MoveRight, typed, now);
            &&& col > 0 ==> left.0 == with_cursor(app, row, col - 1)
            &&& col == 0 && row > 0 ==> left.0 == with_cursor(app, row - 1, width(app, row - 1))
            &&& col == 0 && row == 0 ==> left.0 == app
            &&& col < width(app, row) ==> right.0 == with_cursor(app, row, col + 1)
            &&& col == width(app, row) && row + 1 < app.textarea.lines.len() ==> right.0
                == with_cursor(app, row + 1, 0)
            &&& col == width(app, row) && row + 1 == app.textarea.lines.len() ==> right.0 == app
            &&& left.1 is Nothing
            &&& right.1 is Nothing
        }),
{
    reveal(AppView::moved);
}

/// Moving up and down goes by one row and keeps the column, as far as the line reaches. In the
/// first and in the last row the cursor stays.
pub proof fn law_up_and_down(app: AppView, typed: TextAreaView, now: u64)
    requires
        app.textarea.valid(),
    ensures
        ({
            let (row, col) = (app.textarea.cursor.0 as int, app.textarea.cursor.1 as int);
            let up = app.after_action(EditorAction::MoveUp, typed, now);
            let down = app.after_action(EditorAction::MoveDown, typed, now);
            &&& row > 0 && col <= width(app, row - 1) ==> up.0 == with_cursor(app, row - 1, col)
            &&& row > 0 && col > width(app, row - 1) ==> up.0 == with_cursor(
                app,
                row - 1,
                width(app, row - 1),
            )
            &&& row == 0 ==> up.0 == app
            &&& row + 1 < app.textarea.lines.len() && col <= width(app, row + 1) ==> down.0
                == with_cursor(app, row + 1, col)
            &&& row + 1 < app.textarea.lines.len() && col > width(app, row + 1) ==> down.0
                == with_cursor(app, row + 1, width(app, row + 1))
            &&& row + 1 == app.textarea.lines.len() ==> down.0 == app
            &&& up.1 is Nothing
            &&& down.1 is Nothing
        }),
{
    reveal(AppView::moved);
}

/// The start of a line is its column zero, its end the column behind its last character. The first
/// and the last line are reached in the column of the cursor, as far as they reach.
pub proof fn law_ends_of_line_and_document(app: AppView, typed: TextAreaView, now: u64)
    requires
        app.textarea.valid(),
    ensures
        ({
            let (row, col) = (app.textarea.cursor.0 as int, app.textarea.cursor.1 as int);
            let last = app.textarea.lines.len() - 1;
            let top = app.after_action(EditorAction::MoveDocStart, typed, now);
            let bottom = app.after_action(EditorAction::MoveDocEnd, typed, now);
            &&& app.after_action(EditorAction::MoveLineStart, typed, now) == (
                with_cursor(app, row, 0),
                EffectView::Nothing,
            )
            &&& app.after_action(EditorAction::MoveLineEnd, typed, now) == (
                with_cursor(app, row, width(app, row)),
                EffectView::Nothing,
            )
            &&& col <= width(app, 0) ==> top.0 == with_cursor(app, 0, col)
            &&& col > width(app, 0) ==> top.0 == with_cursor(app, 0, width(app, 0))
            &&& col <= width(app, last) ==> bottom.0 == with_cursor(app, last, col)
            &&& col > width(app, last) ==> bottom.0 == with_cursor(app, last, width(app, last))
            &&& top.1 is Nothing
            &&& bottom.1 is Nothing
        }),
{
    reveal(AppView::moved);
}

/// What a printable ASCII character is to a word: a blank, a letter or digit, or a sign.
pub open spec fn ascii_class(c: char) -> int {
    if c == ' ' {
        0
    } else if 'a' <= c <= 'z' || 'A' <= c <= 'Z' || '0' <= c <= '9' {
        1
    } else {
        2
    }
}

/// Every character of a line is printable ASCII.
pub open spec fn is_printable(line: Seq<char>) -> bool {
    forall|i: int| 0 <= i < line.len() ==> ' ' <= #[trigger] line[i] <= '~'
}

/// A run of letters and digits, or of signs, starts at a column.
pub open spec fn run_starts(line: Seq<char>, col: int) -> bool {
    &&& ascii_class(line[col]) != 0
    &&& col == 0 || ascii_class(line[col - 1]) != ascii_class(line[col])
}

proof fn lemma_run_starts(line: Seq<char>, col: int)
    requires
        is_printable(line),
        0 <= col < line.len(),
    ensures
        starts_word(line, col) == run_starts(line, col),
{
    let c = line[col];
    assert(' ' <= line[col] <= '~');
    assert((char_kind(c) is Space) == (ascii_class(c) == 0));
    if col > 0 {
        let b = line[col - 1];
        assert(' ' <= line[col - 1] <= '~');
        assert((char_kind(b) == char_kind(c)) == (ascii_class(b) == ascii_class(c)));
    }
}

proof fn lemma_word_from_run(line: Seq<char>, col: int)
    requires
        is_printable(line),
        0 <= col,
    ensures
        match word_from(line, col) {
            Some(c) => col <= c < line.len() && run_starts(line, c) && forall|j: int|
                col <= j < c ==> !#[trigger] run_starts(line, j),
            None => forall|j: int| col <= j < line.len() ==> !#[trigger] run_starts(line, j),
        },
    decreases line.len() - col,
{
    if col < line.len() {
        lemma_run_starts(line, col);
        if !starts_word(line, col) {
            lemma_word_from_run(line, col + 1);
        }
    }
}

proof fn lemma_word_before_run(line: Seq<char>, col: int)
    requires
        is_printable(line),
        0 <= col <= line.len(),
    ensures
        match word_before(line, col) {
            Some(c) => 0 <= c < col && run_starts(line, c) && forall|j: int|
                c < j < col ==> !#[trigger] run_starts(line, j),
            None => forall|j: int| 0 <= j < col ==> !#[trigger] run_starts(line, j),
        },
    decreases col,
{
    if col > 0 {
        lemma_run_starts(line, col - 1);
        if !starts_word(line, col - 1) {
            lemma_word_before_run(line, col - 1);
        }
    }
}

/// A step by a word forward goes to the next start of a run in the line, over no other one, and
/// where there is none to the start of the next line or to the end of the text.
pub proof fn law_word_forward(app: AppView, typed: TextAreaView, now: u64)
    requires
        app.textarea.valid(),
        is_printable(app.textarea.lines[app.textarea.cursor.0 as int]),
    ensures
        ({
            let (row, col) = (app.textarea.cursor.0 as int, app.textarea.cursor.1 as int);
            let line = app.textarea.lines[row];
            let (after, effect) = app.after_action(EditorAction::MoveWordForward, typed, now);
            let (r, c) = (after.textarea.cursor.0 as int, after.textarea.cursor.1 as int);
            &&& after == with_cursor(app, r, c)
            &&& effect is Nothing
            &&& if exists|j: int| col < j < line.len() && #[trigger] run_starts(line, j) {
                &&& r == row
                &&& col < c < line.len()
                &&& run_starts(line, c)
                &&& forall|j: int| col < j < c ==> !#[trigger] run_starts(line, j)
            } else if row + 1 < app.textarea.lines.len() {
                r == row + 1 && c == 0
            } else {
                r == row && c == line.len()
            }
        }),
{
    reveal(AppView::moved);
    let (row, col) = (app.textarea.cursor.0 as int, app.textarea.cursor.1 as int);
    lemma_word_from_run(app.textarea.lines[row], col + 1);
}

/// A step by a word back goes to the last start of a run before the cursor, over no other one, and
/// where there is none to the end of the line above or to the start of the text.
pub proof fn law_word_back(app: AppView, typed: TextAreaView, now: u64)
    requires
        app.textarea.valid(),
        is_printable(app.textarea.lines[app.textarea.cursor.0 as int]),
    ensures
        ({
            let (row, col) = (app.textarea.cursor.0 as int, app.textarea.cursor.1 as int);
            let line = app.textarea.lines[row];
            let (after, effect) = app.after_action(EditorAction::MoveWordBackward, typed, now);
            let (r, c) = (after.textarea.cursor.0 as int, after.textarea.cursor.1 as int);
            &&& after == with_cursor(app, r, c)
            &&& effect is Nothing
            &&& if exists|j: int| 0 <= j < col && #[trigger] run_starts(line, j) {
                &&& r == row
                &&& 0 <= c < col
                &&& run_starts(line, c)
                &&& forall|j: int| c < j < col ==> !#[trigger] run_starts(line, j)
            } else if row > 0 {
                r == row - 1 && c == width(app, row - 1)
            } else {
                r == 0 && c == 0
            }
        }),
{
    reveal(AppView::moved);
    let (row, col) = (app.textarea.cursor.0 as int, app.textarea.cursor.1 as int);
    lemma_word_before_run(app.textarea.lines[row], col);
}

// ---------------------------------------------------------------------------
// Deleting
// ---------------------------------------------------------------------------

/// `new` has the lines of `old` but for line `row`, which is `line`.
pub open spec fn only_line_differs(
    new: Seq<Seq<char>>,
    old: Seq<Seq<char>>,
    row: int,
    line: Seq<char>,
) -> bool {
    &&& new.len() == old.len()
    &&& new[row] == line
    &&& forall|i: int| 0 <= i < old.len() && i != row ==> #[trigger] new[i] == old[i]
}

/// `new` has the lines of `old`, with line `row` and the one below it made one.
pub open spec fn lines_are_joined(new: Seq<Seq<char>>, old: Seq<Seq<char>>, row: int) -> bool {
    &&& new.len() + 1 == old.len()
    &&& new[row] == old[row] + old[row + 1]
    &&& forall|i: int| 0 <= i < row ==> #[trigger] new[i] == old[i]
    &&& forall|i: int| row < i < new.len() ==> #[trigger] new[i] == old[i + 1]
}

/// Deleting backwards takes the character before the cursor out of its line and moves the cursor
/// there. At the start of a line it joins the line to the one above. At the start of the text it
/// does nothing to it. A preview is asked for.
pub proof fn law_delete_backward(app: AppView, typed: TextAreaView, now: u64)
    requires
        app.textarea.valid(),
        app.textarea.anchor is None,
    ensures
        ({
            let (row, col) = (app.textarea.cursor.0 as int, app.textarea.cursor.1 as int);
            let old = app.textarea.lines;
            let (after, effect) = app.after_action(EditorAction::DeleteCharBackward, typed, now);
            let new = after.textarea;
            &&& effect is Render
            &&& after.mode == app.mode
            &&& if col > 0 {
                &&& new.cursor == (row as nat, (col - 1) as nat)
                &&& only_line_differs(
                    new.lines,
                    old,
                    row,
                    old[row].subrange(0, col - 1) + old[row].subrange(col, old[row].len() as int),
                )
            } else if row > 0 {
                &&& new.cursor == ((row - 1) as nat, old[row - 1].len())
                &&& lines_are_joined(new.lines, old, row - 1)
            } else {
                new.cursor == app.textarea.cursor && new.lines == old
            }
        }),
{
    let (row, col) = (app.textarea.cursor.0 as int, app.textarea.cursor.1 as int);
    let old = app.textarea.lines;
    let new = app.textarea.delete_char().lines;
    if col > 0 {
        assert(new =~= old.update(row, old[row].take(col - 1) + old[row].skip(col)));
        assert(old[row].take(col - 1) =~= old[row].subrange(0, col - 1));
        assert(old[row].skip(col) =~= old[row].subrange(col, old[row].len() as int));
    } else if row > 0 {
        let len = old[row - 1].len() as int;
        assert(old[row - 1].take(len) =~= old[row - 1]);
        assert(old[row].skip(0) =~= old[row]);
        assert(new[row - 1] =~= old[row - 1] + old[row]);
    }
}

/// Deleting forwards takes the character behind the cursor out of its line. At the end of a line it
/// joins the line below. At the end of the text it does nothing to it. The cursor stays, and a
/// preview is asked for.
pub proof fn law_delete_forward(app: AppView, typed: TextAreaView, now: u64)
    requires
        app.textarea.valid(),
        app.textarea.anchor is None,
    ensures
        ({
            let (row, col) = (app.textarea.cursor.0 as int, app.textarea.cursor.1 as int);
            let old = app.textarea.lines;
            let (after, effect) = app.after_action(EditorAction::DeleteCharForward, typed, now);
            let new = after.textarea;
            &&& effect is Render
            &&& after.mode == app.mode
            &&& new.cursor == app.textarea.cursor
            &&& if col < old[row].len() {
                only_line_differs(
                    new.lines,
                    old,
                    row,
                    old[row].subrange(0, col) + old[row].subrange(
                        col + 1,
                        old[row].len() as int,
                    ),
                )
            } else if row + 1 < old.len() {
                lines_are_joined(new.lines, old, row)
            } else {
                new.lines == old
            }
        }),
{
    let (row, col) = (app.textarea.cursor.0 as int, app.textarea.cursor.1 as int);
    let old = app.textarea.lines;
    let new = app.textarea.delete_next_char().lines;
    if col < old[row].len() {
        assert(new =~= old.update(row, old[row].take(col) + old[row].skip(col + 1)));
        assert(old[row].take(col) =~= old[row].subrange(0, col));
        assert(old[row].skip(col + 1) =~= old[row].subrange(col + 1, old[row].len() as int));
    } else if row + 1 < old.len() {
        assert(old[row].take(col) =~= old[row]);
        assert(old[row + 1].skip(0) =~= old[row + 1]);
        assert(new[row] =~= old[row] + old[row + 1]);
    }
}

/// A selection, from its start to its end, is deleted by either key: what stands before it and what
/// stands behind it come together, and the cursor stands between them.
pub proof fn law_selections_are_deleted(
    app: AppView,
    from: (nat, nat),
    to: (nat, nat),
    typed: TextAreaView,
    now: u64,
)
    requires
        app.textarea.valid(),
        before(from, to),
        (app.textarea.anchor == Some(from) && app.textarea.cursor == to) || (app.textarea.anchor
            == Some(to) && app.textarea.cursor == from),
    ensures
        ({
            let old = app.textarea.lines;
            let one = app.after_action(EditorAction::DeleteCharBackward, typed, now).0.textarea;
            let two = app.after_action(EditorAction::DeleteCharForward, typed, now).0.textarea;
            &&& one == two
            &&& one.cursor == from
            &&& one.anchor is None
            &&& one.lines.len() == old.len() - (to.0 - from.0)
            &&& one.lines[from.0 as int] == old[from.0 as int].subrange(0, from.1 as int)
                + old[to.0 as int].subrange(to.1 as int, old[to.0 as int].len() as int)
            &&& forall|i: int| 0 <= i < from.0 ==> #[trigger] one.lines[i] == old[i]
            &&& forall|i: int|
                from.0 < i < one.lines.len() ==> #[trigger] one.lines[i] == old[i + (to.0
                    - from.0)]
        }),
{
    let old = app.textarea.lines;
    let (a, b) = (from.0 as int, to.0 as int);
    assert(old[a].take(from.1 as int) =~= old[a].subrange(0, from.1 as int));
    assert(old[b].skip(to.1 as int) =~= old[b].subrange(to.1 as int, old[b].len() as int));
}

// ---------------------------------------------------------------------------
// Typing
// ---------------------------------------------------------------------------

/// A typed character comes to stand at the cursor, which goes on behind it. What stood there moves
/// to the right, and no other line changes.
pub proof fn law_typed_characters_are_inserted(
    area: TextArea,
    key: KeyEvent,
    c: char,
    after: TextAreaView,
)
    requires
        area@.valid(),
        area@.anchor is None,
        key.code == KeyCode::Char(c),
        is_plain(key),
        c != '\n',
        c != '\r',
        typed_into(area, key, after),
    ensures
        ({
            let (row, col) = (area@.cursor.0 as int, area@.cursor.1 as int);
            let line = area@.lines[row];
            &&& after.cursor == (row as nat, (col + 1) as nat)
            &&& only_line_differs(
                after.lines,
                area@.lines,
                row,
                line.subrange(0, col) + seq![c] + line.subrange(col, line.len() as int),
            )
            &&& after.anchor is None
        }),
{
    let (row, col) = (area@.cursor.0 as int, area@.cursor.1 as int);
    let line = area@.lines[row];
    assert(line.take(col).push(c) + line.skip(col) =~= line.subrange(0, col) + seq![c]
        + line.subrange(col, line.len() as int));
}

/// Enter breaks the line at the cursor: what stood before it stays, what stood behind it becomes the
/// line below, and the cursor goes to the start of that.
pub proof fn law_enter_breaks_the_line(area: TextArea, key: KeyEvent, after: TextAreaView)
    requires
        area@.valid(),
        area@.anchor is None,
        key.code is Enter,
        typed_into(area, key, after),
    ensures
        ({
            let (row, col) = (area@.cursor.0 as int, area@.cursor.1 as int);
            let line = area@.lines[row];
            &&& after.cursor == ((row + 1) as nat, 0nat)
            &&& after.lines.len() == area@.lines.len() + 1
            &&& after.lines[row] == line.subrange(0, col)
            &&& after.lines[row + 1] == line.subrange(col, line.len() as int)
            &&& forall|i: int| 0 <= i < row ==> #[trigger] after.lines[i] == area@.lines[i]
            &&& forall|i: int|
                row + 1 < i < after.lines.len() ==> #[trigger] after.lines[i] == area@.lines[i - 1]
        }),
{
    let (row, col) = (area@.cursor.0 as int, area@.cursor.1 as int);
    let line = area@.lines[row];
    assert(line.take(col) =~= line.subrange(0, col));
    assert(line.skip(col) =~= line.subrange(col, line.len() as int));
}

/// Backspace and Delete do while typing what the deletions of Normal mode do.
pub proof fn law_delete_keys_delete(
    area: TextArea,
    key: KeyEvent,
    after: TextAreaView,
    app: AppView,
    typed: TextAreaView,
    now: u64,
)
    requires
        area@ == app.textarea,
        is_plain(key),
        typed_into(area, key, after),
    ensures
        key.code is Backspace ==> after == app.after_action(
            EditorAction::DeleteCharBackward,
            typed,
            now,
        ).0.textarea,
        key.code is Delete ==> after == app.after_action(
            EditorAction::DeleteCharForward,
            typed,
            now,
        ).0.textarea,
{
}

/// A character that is typed over a selection takes its place.
pub proof fn law_selections_are_replaced(
    area: TextArea,
    key: KeyEvent,
    c: char,
    from: (nat, nat),
    to: (nat, nat),
    after: TextAreaView,
)
    requires
        area@.valid(),
        before(from, to),
        (area@.anchor == Some(from) && area@.cursor == to) || (area@.anchor == Some(to)
            && area@.cursor == from),
        key.code == KeyCode::Char(c),
        is_plain(key),
        c != '\n',
        c != '\r',
        typed_into(area, key, after),
    ensures
        ({
            let old = area@.lines;
            &&& after.cursor == (from.0, from.1 + 1)
            &&& after.lines.len() == old.len() - (to.0 - from.0)
            &&& after.lines[from.0 as int] == old[from.0 as int].subrange(0, from.1 as int)
                + seq![c] + old[to.0 as int].subrange(to.1 as int, old[to.0 as int].len() as int)
            &&& forall|i: int| 0 <= i < from.0 ==> #[trigger] after.lines[i] == old[i]
            &&& forall|i: int|
                from.0 < i < after.lines.len() ==> #[trigger] after.lines[i] == old[i + (to.0
                    - from.0)]
        }),
{
    let old = area@.lines;
    let (a, b) = (from.0 as int, to.0 as int);
    let d = area@.delete_selection();
    assert(d.lines[a] == old[a].take(from.1 as int) + old[b].skip(to.1 as int));
    assert(after.lines[a] =~= old[a].subrange(0, from.1 as int) + seq![c] + old[b].subrange(
        to.1 as int,
        old[b].len() as int,
    ));
}

/// What is typed in Insert mode becomes the text area, asks for a preview of the new text and
/// changes neither the mode nor the search.
pub proof fn law_typing_takes_effect(app: AppView, key: KeyEvent, typed: TextAreaView, now: u64)
    ensures
        ({
            let (after, effect) = app.after_action(EditorAction::TextInput(key), typed, now);
            &&& after.textarea == typed
            &&& after.mode == app.mode
            &&& after.search == app.search
            &&& after.document.text == app.document.text
            &&& after.document.path == app.document.path
            &&& effect matches EffectView::Render(request) && request.markdown == after.content()
                && request.revision == (app.revision + 1) as u64 && request.col_width
                == app.preview_width
            &&& after.revision == app.revision + 1
        }),
{
    reveal(AppView::after_typing);
}

/// The Tab key inserts blanks up to the next tab stop, one at least: the cursor comes to stand in a
/// column that is a multiple of the tab width, and what stood behind it moves along. Where tabs are
/// kept a tab character is inserted.
pub proof fn law_tab_goes_to_the_next_stop(area: TextArea, key: KeyEvent, after: TextAreaView)
    requires
        area@.valid(),
        area@.anchor is None,
        area@.tab_length > 0,
        key.code is Tab,
        is_plain(key),
        area@.tab_is_told(),
        typed_into(area, key, after),
    ensures
        ({
            let (row, col) = (area@.cursor.0 as int, area@.cursor.1 as int);
            let line = area@.lines[row];
            let to = after.cursor.1 as int;
            let width = area@.tab_length as int;
            &&& after.cursor.0 == row
            &&& if area@.hard_tabs {
                &&& to == col + 1
                &&& only_line_differs(
                    after.lines,
                    area@.lines,
                    row,
                    line.subrange(0, col) + seq!['\t'] + line.subrange(col, line.len() as int),
                )
            } else {
                &&& col < to <= col + width
                &&& to % width == 0
                &&& only_line_differs(
                    after.lines,
                    area@.lines,
                    row,
                    line.subrange(0, col) + Seq::new((to - col) as nat, |i: int| ' ')
                        + line.subrange(col, line.len() as int),
                )
            }
        }),
{
    let (row, col) = (area@.cursor.0 as int, area@.cursor.1 as int);
    let line = area@.lines[row];
    let width = area@.tab_length as int;
    if area@.hard_tabs {
        assert(line.take(col).push('\t') + line.skip(col) =~= line.subrange(0, col) + seq!['\t']
            + line.subrange(col, line.len() as int));
    } else {
        let n = width - col % width;
        vstd::arithmetic::div_mod::lemma_fundamental_div_mod(col, width);
        assert(0 <= col % width < width);
        assert((col + n) % width == 0) by {
            let q = col / width;
            assert(col + n == width * (q + 1)) by (nonlinear_arith)
                requires
                    col == width * q + col % width,
                    n == width - col % width,
            ;
            vstd::arithmetic::div_mod::lemma_mod_multiples_basic(q + 1, width);
            assert(width * (q + 1) == (q + 1) * width) by (nonlinear_arith);
        }
        assert(line.take(col) + Seq::new(n as nat, |i: int| ' ') + line.skip(col)
            =~= line.subrange(0, col) + Seq::new(n as nat, |i: int| ' ') + line.subrange(
            col,
            line.len() as int,
        ));
        assert(after.lines[row] =~= line.subrange(0, col) + Seq::new(n as nat, |i: int| ' ')
            + line.subrange(col, line.len() as int));
    }
}

/// The tab width is the configured one, and zero stands for tab characters.
pub proof fn law_the_tab_width_is_the_configured_one(t: TextAreaView, width: u8)
    ensures
        width > 0 ==> t.with_tab_width(width).tab_length == width && !t.with_tab_width(
            width,
        ).hard_tabs,
        width == 0 ==> t.with_tab_width(width).hard_tabs,
        t.with_tab_width(width).lines == t.lines,
        t.with_tab_width(width).cursor == t.cursor,
{
}

/// A jump goes to the line and column that are asked for, and where the text does not reach so far
/// to its last line and to the end of the line.
pub proof fn law_jumps_stay_in_the_text(t: TextAreaView, line: nat, col: nat)
    requires
        t.lines.len() > 0,
    ensures
        ({
            let after = t.jump_to(line, col);
            let row = if line < t.lines.len() {
                line as int
            } else {
                t.lines.len() - 1
            };
            &&& after.cursor.0 == row
            &&& col <= t.lines[row].len() ==> after.cursor.1 == col
            &&& col > t.lines[row].len() ==> after.cursor.1 == t.lines[row].len()
            &&& after == (TextAreaView { cursor: after.cursor, ..t })
        }),
{
}

} // verus!
