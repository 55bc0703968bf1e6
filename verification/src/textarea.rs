//! The text area: the live editing buffer.
//!
//! The buffer, its cursor, its selection and its undo history are those of the text area widget.
//! Its state is modelled by its lines, its cursor, the place where a selection was started, the
//! pattern whose matches are highlighted, and what the Tab key inserts.
use vstd::prelude::*;

use ratatui_textarea::{Input, Key};

use crate::keymap::{KeyCode, KeyEvent};
use crate::search::regex_compiled;
use crate::text::{chars_of, is_white_space, repeated, views};

verus! {

/// The text area widget.
#[verifier::external_body]
pub struct TextArea {
    pub inner: ratatui_textarea::TextArea<'static>,
}

/// The lines of a text area.
pub uninterp spec fn textarea_lines(t: TextArea) -> Seq<Seq<char>>;

/// The cursor of a text area: line and column in characters, from zero.
pub uninterp spec fn textarea_cursor(t: TextArea) -> (nat, nat);

/// Where the selection of a text area was started, if one is in progress.
pub uninterp spec fn textarea_anchor(t: TextArea) -> Option<(nat, nat)>;

/// The pattern whose matches a text area highlights.
pub uninterp spec fn textarea_pattern(t: TextArea) -> Option<Seq<char>>;

/// How many columns lie between the tab stops of a text area.
pub uninterp spec fn textarea_tab_length(t: TextArea) -> u8;

/// The Tab key inserts a tab character into a text area, and no spaces.
pub uninterp spec fn textarea_hard_tabs(t: TextArea) -> bool;

/// The state in which a key leaves a text area, for keys that do not scroll.
pub uninterp spec fn textarea_input(t: TextArea, key: KeyEvent) -> TextAreaView;

/// What a character is to a step by a word.
#[derive(Debug, Clone, Copy, PartialEq, Eq, Structural)]
pub enum CharKind {
    Space,
    Punctuation,
    Other,
}

/// What kind of character words are told apart by. Punctuation is that of ASCII.
pub open spec fn char_kind(c: char) -> CharKind {
    if is_white_space(c) {
        CharKind::Space
    } else if 0x21 <= c as u32 <= 0x2F || 0x3A <= c as u32 <= 0x40 || 0x5B <= c as u32 <= 0x60
        || 0x7B <= c as u32 <= 0x7E {
        CharKind::Punctuation
    } else {
        CharKind::Other
    }
}

/// A word starts at a column: a run of punctuation, or of other characters that are no space.
pub open spec fn starts_word(line: Seq<char>, col: int) -> bool {
    &&& 0 <= col < line.len()
    &&& char_kind(line[col]) !is Space
    &&& col > 0 ==> char_kind(line[col - 1]) != char_kind(line[col])
}

/// The first column from `col` on at which a word starts.
pub open spec fn word_from(line: Seq<char>, col: int) -> Option<int>
    decreases line.len() - col,
{
    if col < 0 || col >= line.len() {
        None
    } else if starts_word(line, col) {
        Some(col)
    } else {
        word_from(line, col + 1)
    }
}

/// The last column before `col` at which a word starts.
pub open spec fn word_before(line: Seq<char>, col: int) -> Option<int>
    decreases col,
{
    if col <= 0 {
        None
    } else if starts_word(line, col - 1) {
        Some(col - 1)
    } else {
        word_before(line, col - 1)
    }
}

/// Where the cursor goes at a step to the next word: to its start, or else to the next line, or
/// else to the end of the text.
pub open spec fn cursor_word_forward(lines: Seq<Seq<char>>, cursor: (nat, nat)) -> (nat, nat) {
    let (row, col) = cursor;
    match word_from(lines[row as int], col as int + 1) {
        Some(c) => (row, c as nat),
        None => if row + 1 < lines.len() {
            (row + 1, 0)
        } else {
            (row, lines[row as int].len())
        },
    }
}

/// Where the cursor goes at a step to the start of a word before it: there, or else to the end of
/// the line before, or else to the start of the text.
pub open spec fn cursor_word_back(lines: Seq<Seq<char>>, cursor: (nat, nat)) -> (nat, nat) {
    let (row, col) = cursor;
    match word_before(lines[row as int], col as int) {
        Some(c) => (row, c as nat),
        None => if row > 0 {
            ((row - 1) as nat, lines[row - 1].len())
        } else {
            (row, 0)
        },
    }
}

/// The state of a text area.
#[verifier::ext_equal]
pub struct TextAreaView {
    pub lines: Seq<Seq<char>>,
    pub cursor: (nat, nat),
    pub anchor: Option<(nat, nat)>,
    pub pattern: Option<Seq<char>>,
    pub tab_length: u8,
    pub hard_tabs: bool,
}

/// The state of a new text area with these lines. The Tab key inserts `tab_width` spaces, or tab
/// characters where that is zero.
pub open spec fn fresh_textarea(lines: Seq<Seq<char>>, tab_width: u8) -> TextAreaView {
    TextAreaView {
        lines,
        cursor: (0, 0),
        anchor: None,
        pattern: None,
        tab_length: 4,
        hard_tabs: false,
    }.with_tab_width(tab_width)
}

/// Every character before a column is a printable ASCII character, which is one column wide.
pub open spec fn is_narrow(line: Seq<char>, col: nat) -> bool {
    forall|i: int| 0 <= i < col && i < line.len() ==> 0x20 <= (#[trigger] line[i]) as u32 <= 0x7E
}

/// A position that lies in the text.
pub open spec fn in_text(lines: Seq<Seq<char>>, pos: (nat, nat)) -> bool {
    pos.0 < lines.len() && pos.1 <= lines[pos.0 as int].len()
}

/// The column of a line that is closest to `col`.
pub open spec fn fit_col(line: Seq<char>, col: nat) -> nat {
    if col < line.len() {
        col
    } else {
        line.len()
    }
}

/// A motion of the cursor.
#[derive(Debug, Clone, Copy, PartialEq, Eq, Structural)]
pub enum CursorMove {
    Forward,
    Back,
    Up,
    Down,
    Head,
    End,
    Top,
    Bottom,
    WordForward,
    WordBack,
    /// To a line and column, or as close to it as the text allows.
    Jump(u16, u16),
}

/// Where a motion takes the cursor.
pub open spec fn moved(lines: Seq<Seq<char>>, cursor: (nat, nat), m: CursorMove) -> (nat, nat) {
    let (row, col) = cursor;
    let last = (lines.len() - 1) as nat;
    match m {
        CursorMove::Forward => if col < lines[row as int].len() {
            (row, col + 1)
        } else if row < last {
            (row + 1, 0)
        } else {
            cursor
        },
        CursorMove::Back => if col > 0 {
            (row, (col - 1) as nat)
        } else if row > 0 {
            ((row - 1) as nat, lines[row - 1].len())
        } else {
            cursor
        },
        CursorMove::Up => if row > 0 {
            ((row - 1) as nat, fit_col(lines[row - 1], col))
        } else {
            cursor
        },
        CursorMove::Down => if row < last {
            (row + 1, fit_col(lines[row as int + 1], col))
        } else {
            cursor
        },
        CursorMove::Head => (row, 0),
        CursorMove::End => (row, lines[row as int].len()),
        CursorMove::Top => (0, fit_col(lines[0], col)),
        CursorMove::Bottom => (last, fit_col(lines[last as int], col)),
        CursorMove::WordForward => cursor_word_forward(lines, cursor),
        CursorMove::WordBack => cursor_word_back(lines, cursor),
        CursorMove::Jump(r, c) => {
            let to = if r < last {
                r as nat
            } else {
                last
            };
            (to, fit_col(lines[to as int], c as nat))
        },
    }
}

/// The position of the text that is closest to a line and column.
pub open spec fn closest(lines: Seq<Seq<char>>, line: nat, col: nat) -> (nat, nat) {
    let row = if line < lines.len() {
        line
    } else {
        (lines.len() - 1) as nat
    };
    (row, fit_col(lines[row as int], col))
}

/// `a` stands before `b` in the text.
pub open spec fn before(a: (nat, nat), b: (nat, nat)) -> bool {
    a.0 < b.0 || (a.0 == b.0 && a.1 < b.1)
}

/// The text without what stands between two positions.
pub open spec fn without_range(lines: Seq<Seq<char>>, from: (nat, nat), to: (nat, nat)) -> Seq<
    Seq<char>,
> {
    lines.take(from.0 as int).push(
        lines[from.0 as int].take(from.1 as int) + lines[to.0 as int].skip(to.1 as int),
    ) + lines.skip(to.0 as int + 1)
}

impl TextAreaView {
    /// There is a line, and the cursor and the selection lie in the text.
    pub open spec fn valid(self) -> bool {
        &&& in_text(self.lines, self.cursor)
        &&& self.anchor matches Some(a) ==> in_text(self.lines, a)
    }

    pub open spec fn move_cursor(self, m: CursorMove) -> TextAreaView {
        TextAreaView { cursor: moved(self.lines, self.cursor, m), ..self }
    }

    pub open spec fn jump_to(self, line: nat, col: nat) -> TextAreaView {
        TextAreaView { cursor: closest(self.lines, line, col), ..self }
    }

    /// The selected text, from its start to its end, where it is not empty.
    pub open spec fn selection(self) -> Option<((nat, nat), (nat, nat))> {
        match self.anchor {
            Some(a) => if before(a, self.cursor) {
                Some((a, self.cursor))
            } else if before(self.cursor, a) {
                Some((self.cursor, a))
            } else {
                None
            },
            None => None,
        }
    }

    pub open spec fn delete_selection(self) -> TextAreaView {
        match self.selection() {
            Some((from, to)) => TextAreaView {
                lines: without_range(self.lines, from, to),
                cursor: from,
                anchor: None,
                ..self
            },
            None => TextAreaView { anchor: None, ..self },
        }
    }

    /// Deletes the selection, or else the character before the cursor.
    pub open spec fn delete_char(self) -> TextAreaView {
        let back = moved(self.lines, self.cursor, CursorMove::Back);
        if self.selection() is Some {
            self.delete_selection()
        } else if back == self.cursor {
            TextAreaView { anchor: None, ..self }
        } else {
            TextAreaView {
                lines: without_range(self.lines, back, self.cursor),
                cursor: back,
                anchor: None,
                ..self
            }
        }
    }

    /// Deletes the selection, or else the character behind the cursor.
    pub open spec fn delete_next_char(self) -> TextAreaView {
        let next = moved(self.lines, self.cursor, CursorMove::Forward);
        if self.selection() is Some {
            self.delete_selection()
        } else if next == self.cursor {
            TextAreaView { anchor: None, ..self }
        } else {
            TextAreaView {
                lines: without_range(self.lines, self.cursor, next),
                anchor: None,
                ..self
            }
        }
    }

    /// Replaces the selection by a character.
    pub open spec fn insert_char(self, c: char) -> TextAreaView {
        let d = self.delete_selection();
        let (row, col) = d.cursor;
        let line = d.lines[row as int];
        TextAreaView {
            lines: d.lines.update(
                row as int,
                line.take(col as int).push(c) + line.skip(col as int),
            ),
            cursor: (row, col + 1),
            ..d
        }
    }

    /// A tab width of zero stands for tab characters.
    pub open spec fn with_tab_width(self, width: u8) -> TextAreaView {
        TextAreaView {
            tab_length: if width == 0 {
                self.tab_length
            } else {
                width
            },
            hard_tabs: width == 0,
            ..self
        }
    }

    /// What the Tab key does can be told from the characters: it inserts a tab character, or the
    /// text before the cursor is as wide as it is long.
    pub open spec fn tab_is_told(self) -> bool {
        let d = self.delete_selection();
        self.hard_tabs || is_narrow(d.lines[d.cursor.0 as int], d.cursor.1)
    }

    /// Replaces the selection by a tab: by a tab character, or by spaces up to the next tab stop.
    pub open spec fn insert_tab(self) -> TextAreaView {
        let d = self.delete_selection();
        let (row, col) = d.cursor;
        let line = d.lines[row as int];
        if d.tab_length == 0 {
            d
        } else if d.hard_tabs {
            d.insert_char('\t')
        } else {
            let n = (d.tab_length - col % (d.tab_length as nat)) as nat;
            TextAreaView {
                lines: d.lines.update(
                    row as int,
                    line.take(col as int) + repeated(' ', n) + line.skip(col as int),
                ),
                cursor: (row, col + n),
                ..d
            }
        }
    }

    /// Replaces the selection by a line break.
    pub open spec fn insert_newline(self) -> TextAreaView {
        let d = self.delete_selection();
        let (row, col) = d.cursor;
        let line = d.lines[row as int];
        TextAreaView {
            lines: d.lines.take(row as int).push(line.take(col as int)).push(
                line.skip(col as int),
            ) + d.lines.skip(row as int + 1),
            cursor: (row + 1, 0),
            ..d
        }
    }
}

/// A key that scrolls by pages: what it does depends on what is on screen.
pub open spec fn scrolls(key: KeyEvent) -> bool {
    ||| key.code is PageUp
    ||| key.code is PageDown
    ||| (key.code matches KeyCode::Char(c) && c == 'v' && (key.modifiers.control
        != key.modifiers.alt))
}

/// A key without Control or Alt.
pub open spec fn is_plain(key: KeyEvent) -> bool {
    !key.modifiers.control && !key.modifiers.alt
}

/// What a key makes of a text area. Unless the key scrolls, the result depends on the text area
/// and the key; one that scrolls leaves the text as it is. A plain character is inserted, Enter
/// breaks the line, Backspace and Delete delete, and Tab goes to the next tab stop. The search
/// pattern and the settings stay, and the cursor and the selection stay in the text.
pub open spec fn typed_into(t: TextArea, key: KeyEvent, after: TextAreaView) -> bool {
    &&& !scrolls(key) ==> after == textarea_input(t, key)
    &&& scrolls(key) ==> after.lines == t@.lines
    &&& (key.code matches KeyCode::Char(c) && c != '\n' && c != '\r' && is_plain(key)) ==> after
        == t@.insert_char(key.code->Char_0)
    &&& key.code is Enter ==> after == t@.insert_newline()
    &&& key.code is Backspace && is_plain(key) ==> after == t@.delete_char()
    &&& key.code is Delete && is_plain(key) ==> after == t@.delete_next_char()
    &&& key.code is Tab && is_plain(key) && t@.tab_is_told() ==> after == t@.insert_tab()
    &&& after.pattern == t@.pattern
    &&& after.tab_length == t@.tab_length
    &&& after.hard_tabs == t@.hard_tabs
    &&& after.valid()
}

impl View for TextArea {
    type V = TextAreaView;

    open spec fn view(&self) -> TextAreaView {
        TextAreaView {
            lines: textarea_lines(*self),
            cursor: textarea_cursor(*self),
            anchor: textarea_anchor(*self),
            pattern: textarea_pattern(*self),
            tab_length: textarea_tab_length(*self),
            hard_tabs: textarea_hard_tabs(*self),
        }
    }
}

/// `TextArea::new`: a text area with these lines, or with one empty line where there are none.
/// The cursor stands at the start, nothing is selected and nothing is highlighted. The Tab key
/// inserts up to four spaces.
#[verifier::external_body]
fn widget_new(lines: Vec<String>) -> (r: TextArea)
    ensures
        textarea_lines(r) == if lines@.len() == 0 {
            seq![Seq::empty()]
        } else {
            views(lines@)
        },
        textarea_cursor(r) == (0nat, 0nat),
        textarea_anchor(r) is None,
        textarea_pattern(r) is None,
        textarea_tab_length(r) == 4,
        !textarea_hard_tabs(r),
{
    TextArea { inner: ratatui_textarea::TextArea::new(lines) }
}

/// `TextArea::lines`: the lines.
#[verifier::external_body]
fn widget_lines(t: &TextArea) -> (r: Vec<String>)
    ensures
        views(r@) == textarea_lines(*t),
{
    t.inner.lines().to_vec()
}

/// `TextArea::cursor`: line and column of the cursor. No text is so long that one more would not
/// fit.
#[verifier::external_body]
fn widget_cursor(t: &TextArea) -> (r: (usize, usize))
    ensures
        (r.0 as nat, r.1 as nat) == textarea_cursor(*t),
        r.0 < usize::MAX,
        r.1 < usize::MAX,
{
    t.inner.cursor()
}

/// `TextArea::move_cursor`: moves the cursor; a selection in progress goes on.
#[verifier::external_body]
fn widget_move(t: &mut TextArea, m: CursorMove)
    requires
        old(t)@.valid(),
    ensures
        final(t)@ == old(t)@.move_cursor(m),
{
    t.inner.move_cursor(match m {
        CursorMove::Forward => ratatui_textarea::CursorMove::Forward,
        CursorMove::Back => ratatui_textarea::CursorMove::Back,
        CursorMove::Up => ratatui_textarea::CursorMove::Up,
        CursorMove::Down => ratatui_textarea::CursorMove::Down,
        CursorMove::Head => ratatui_textarea::CursorMove::Head,
        CursorMove::End => ratatui_textarea::CursorMove::End,
        CursorMove::Top => ratatui_textarea::CursorMove::Top,
        CursorMove::Bottom => ratatui_textarea::CursorMove::Bottom,
        CursorMove::WordForward => ratatui_textarea::CursorMove::WordForward,
        CursorMove::WordBack => ratatui_textarea::CursorMove::WordBack,
        CursorMove::Jump(row, col) => ratatui_textarea::CursorMove::Jump(row, col),
    })
}

/// `TextArea::delete_char`: deletes the selection or the character before the cursor; at the
/// start of a line that is the line break before it.
#[verifier::external_body]
fn widget_delete_char(t: &mut TextArea)
    requires
        old(t)@.valid(),
    ensures
        final(t)@ == old(t)@.delete_char(),
{
    t.inner.delete_char();
}

/// `TextArea::delete_next_char`: deletes the selection or the character behind the cursor; at
/// the end of a line that is the line break behind it.
#[verifier::external_body]
fn widget_delete_next_char(t: &mut TextArea)
    requires
        old(t)@.valid(),
    ensures
        final(t)@ == old(t)@.delete_next_char(),
{
    t.inner.delete_next_char();
}

/// `TextArea::input`: lets the text area handle a key. Unless the key scrolls, the new state
/// depends on the text area and the key. A plain character is inserted, Enter breaks the line,
/// Backspace and Delete delete, and Tab goes to the next tab stop. How wide characters are that
/// are not printable ASCII is left unsaid, and with it how many spaces Tab then inserts. The search
/// pattern and the settings stay, and the cursor and the selection stay in the text.
#[verifier::external_body]
fn widget_input(t: &mut TextArea, key: KeyEvent)
    requires
        old(t)@.valid(),
    ensures
        !scrolls(key) ==> final(t)@ == textarea_input(*old(t), key),
        scrolls(key) ==> final(t)@.lines == old(t)@.lines,
        (key.code matches KeyCode::Char(c) && c != '\n' && c != '\r' && is_plain(key))
            ==> final(t)@ == old(t)@.insert_char(key.code->Char_0),
        key.code is Enter ==> final(t)@ == old(t)@.insert_newline(),
        key.code is Backspace && is_plain(key) ==> final(t)@ == old(t)@.delete_char(),
        key.code is Delete && is_plain(key) ==> final(t)@ == old(t)@.delete_next_char(),
        key.code is Tab && is_plain(key) && old(t)@.tab_is_told() ==> final(t)@
            == old(t)@.insert_tab(),
        final(t)@.pattern == old(t)@.pattern,
        final(t)@.tab_length == old(t)@.tab_length,
        final(t)@.hard_tabs == old(t)@.hard_tabs,
        final(t)@.valid(),
{
    let code = match key.code {
        KeyCode::Char(c) => Key::Char(c), KeyCode::F(n) => Key::F(n), KeyCode::Esc => Key::Esc,
        KeyCode::Backspace => Key::Backspace, KeyCode::Enter => Key::Enter,
        KeyCode::Left => Key::Left, KeyCode::Right => Key::Right, KeyCode::Up => Key::Up,
        KeyCode::Down => Key::Down, KeyCode::Tab => Key::Tab, KeyCode::Delete => Key::Delete,
        KeyCode::Home => Key::Home, KeyCode::End => Key::End, KeyCode::PageUp => Key::PageUp,
        KeyCode::PageDown => Key::PageDown, KeyCode::Null => Key::Null,
    };
    let m = key.modifiers;
    t.inner.input(Input { key: code, ctrl: m.control, alt: m.alt, shift: m.shift });
}

/// `TextArea::set_tab_length`: sets the distance of the tab stops.
#[verifier::external_body]
fn widget_set_tab_length(t: &mut TextArea, length: u8)
    ensures
        final(t)@ == (TextAreaView { tab_length: length, ..old(t)@ }),
{
    t.inner.set_tab_length(length);
}

/// `TextArea::set_hard_tab_indent`: sets whether the Tab key inserts a tab character.
#[verifier::external_body]
fn widget_set_hard_tabs(t: &mut TextArea, enabled: bool)
    ensures
        final(t)@ == (TextAreaView { hard_tabs: enabled, ..old(t)@ }),
{
    t.inner.set_hard_tab_indent(enabled);
}

/// `TextArea::set_search_pattern`: highlights the matches of a regular expression; an empty one
/// ends the highlighting. Returns `false` and changes nothing where it is not valid.
#[verifier::external_body]
fn widget_set_search_pattern(t: &mut TextArea, query: &str) -> (r: bool)
    ensures
        r == (query@.len() == 0 || regex_compiled(query@) is Some),
        final(t)@ == (TextAreaView {
            pattern: if query@.len() == 0 {
                None
            } else if regex_compiled(query@) is Some {
                Some(query@)
            } else {
                old(t)@.pattern
            },
            ..old(t)@
        }),
{
    t.inner.set_search_pattern(query).is_ok()
}

impl TextArea {
    /// A text area with the given lines; without lines it has one empty line.
    pub fn new(lines: Vec<String>) -> (r: TextArea)
        ensures
            r@ == (TextAreaView {
                lines: if lines@.len() == 0 {
                    seq![Seq::empty()]
                } else {
                    views(lines@)
                },
                cursor: (0, 0),
                anchor: None,
                pattern: None,
                tab_length: 4,
                hard_tabs: false,
            }),
            r@.valid(),
    {
        let r = widget_new(lines);
        assert(lines@.len() > 0 ==> views(lines@).len() == lines@.len());
        r
    }

    /// Sets how many spaces the Tab key inserts; zero stands for tab characters.
    pub fn set_tab_width(&mut self, width: u8)
        ensures
            final(self)@ == old(self)@.with_tab_width(width),
            old(self)@.valid() ==> final(self)@.valid(),
    {
        if width > 0 {
            widget_set_tab_length(self, width);
        }
        widget_set_hard_tabs(self, width == 0);
    }

    /// The lines.
    pub fn lines(&self) -> (r: Vec<String>)
        ensures
            views(r@) == self@.lines,
    {
        widget_lines(self)
    }

    /// Line and column of the cursor, from zero.
    pub fn cursor(&self) -> (r: (usize, usize))
        ensures
            (r.0 as nat, r.1 as nat) == self@.cursor,
            r.0 < usize::MAX,
            r.1 < usize::MAX,
    {
        widget_cursor(self)
    }

    pub fn move_cursor(&mut self, m: CursorMove)
        requires
            old(self)@.valid(),
        ensures
            final(self)@ == old(self)@.move_cursor(m),
            final(self)@.valid(),
    {
        widget_move(self, m);
        proof {
            lemma_move_valid(old(self)@, m);
        }
    }

    /// Moves the cursor to a line and column, or as close as the text allows. One jump reaches
    /// 65536 lines and columns; what lies behind them is reached in steps.
    pub fn jump_to(&mut self, line: usize, col: usize)
        requires
            old(self)@.valid(),
        ensures
            final(self)@ == old(self)@.jump_to(line as nat, col as nat),
            final(self)@.valid(),
    {
        if line <= 65535 && col <= 65535 {
            self.move_cursor(CursorMove::Jump(line as u16, col as u16));
            assert(self@ =~= old(self)@.jump_to(line as nat, col as nat));
            return;
        }
        let lines = self.lines();
        assert(lines@.len() == old(self)@.lines.len());
        let row: usize = if line < lines.len() {
            line
        } else {
            lines.len() - 1
        };
        assert(views(lines@)[row as int] == lines@[row as int]@);
        let width: usize = chars_of(lines[row].as_str()).len();
        let end: usize = if col < width {
            col
        } else {
            width
        };
        let mut at: usize = 0;
        let mut r: usize = row;
        if row <= 65535 {
            at = if end <= 65535 {
                end
            } else {
                65535
            };
        } else {
            r = 65535;
        }
        self.move_cursor(CursorMove::Jump(r as u16, at as u16));
        assert(self@ =~= TextAreaView { cursor: (r as nat, at as nat), ..old(self)@ });
        while r < row
            invariant
                r <= row < old(self)@.lines.len(),
                r < row ==> at == 0,
                at <= end,
                old(self)@.valid(),
                self@.valid(),
                self@ == (TextAreaView { cursor: (r as nat, at as nat), ..old(self)@ }),
            decreases row - r,
        {
            self.move_cursor(CursorMove::Down);
            r = r + 1;
        }
        while at < end
            invariant
                r == row < old(self)@.lines.len(),
                at <= end <= old(self)@.lines[row as int].len(),
                self@.valid(),
                self@ == (TextAreaView { cursor: (r as nat, at as nat), ..old(self)@ }),
            decreases end - at,
        {
            self.move_cursor(CursorMove::Forward);
            at = at + 1;
        }
        assert(self@ =~= old(self)@.jump_to(line as nat, col as nat));
    }

    /// Deletes the selection or the character before the cursor.
    pub fn delete_char(&mut self)
        requires
            old(self)@.valid(),
        ensures
            final(self)@ == old(self)@.delete_char(),
            final(self)@.valid(),
    {
        widget_delete_char(self);
        proof {
            lemma_delete_char_valid(old(self)@);
        }
    }

    /// Deletes the selection or the character behind the cursor.
    pub fn delete_next_char(&mut self)
        requires
            old(self)@.valid(),
        ensures
            final(self)@ == old(self)@.delete_next_char(),
            final(self)@.valid(),
    {
        widget_delete_next_char(self);
        proof {
            lemma_delete_next_char_valid(old(self)@);
        }
    }

    /// Lets the text area handle a key.
    pub fn input(&mut self, key: KeyEvent)
        requires
            old(self)@.valid(),
        ensures
            typed_into(*old(self), key, final(self)@),
    {
        widget_input(self, key)
    }

    /// Highlights the matches of a regular expression. Returns `false` where it is not valid.
    pub fn set_search_pattern(&mut self, query: &str) -> (r: bool)
        ensures
            r == (query@.len() == 0 || regex_compiled(query@) is Some),
            final(self)@ == (TextAreaView {
                pattern: if query@.len() == 0 {
                    None
                } else if regex_compiled(query@) is Some {
                    Some(query@)
                } else {
                    old(self)@.pattern
                },
                ..old(self)@
            }),
    {
        widget_set_search_pattern(self, query)
    }
}

proof fn lemma_without_range_valid(lines: Seq<Seq<char>>, from: (nat, nat), to: (nat, nat))
    requires
        in_text(lines, from),
        in_text(lines, to),
        before(from, to),
    ensures
        in_text(without_range(lines, from, to), from),
{
}

proof fn lemma_word_from(line: Seq<char>, col: int)
    ensures
        word_from(line, col) matches Some(c) ==> 0 <= c < line.len(),
    decreases line.len() - col,
{
    if 0 <= col < line.len() && !starts_word(line, col) {
        lemma_word_from(line, col + 1);
    }
}

proof fn lemma_word_before(line: Seq<char>, col: int)
    ensures
        word_before(line, col) matches Some(c) ==> 0 <= c < line.len(),
    decreases col,
{
    if col > 0 && !starts_word(line, col - 1) {
        lemma_word_before(line, col - 1);
    }
}

/// Every motion stays in the text.
proof fn lemma_move_valid(v: TextAreaView, m: CursorMove)
    requires
        v.valid(),
    ensures
        v.move_cursor(m).valid(),
{
    lemma_word_from(v.lines[v.cursor.0 as int], v.cursor.1 as int + 1);
    lemma_word_before(v.lines[v.cursor.0 as int], v.cursor.1 as int);
}

proof fn lemma_delete_char_valid(v: TextAreaView)
    requires
        v.valid(),
    ensures
        v.delete_char().valid(),
{
    match v.selection() {
        Some((from, to)) => {
            lemma_without_range_valid(v.lines, from, to);
        },
        None => {
            let back = moved(v.lines, v.cursor, CursorMove::Back);
            if back != v.cursor {
                lemma_without_range_valid(v.lines, back, v.cursor);
            }
        },
    }
}

proof fn lemma_delete_next_char_valid(v: TextAreaView)
    requires
        v.valid(),
    ensures
        v.delete_next_char().valid(),
{
    match v.selection() {
        Some((from, to)) => {
            lemma_without_range_valid(v.lines, from, to);
        },
        None => {
            let next = moved(v.lines, v.cursor, CursorMove::Forward);
            if next != v.cursor {
                lemma_without_range_valid(v.lines, v.cursor, next);
            }
        },
    }
}

// ---------------------------------------------------------------------------
// Laws
// ---------------------------------------------------------------------------

/// Deleting backwards takes back what was typed: the text and the cursor are as before.
pub proof fn law_backspace_takes_back_a_character(v: TextAreaView, c: char)
    requires
        v.valid(),
        v.selection() is None,
    ensures
        v.insert_char(c).delete_char() == (TextAreaView { anchor: None, ..v }),
{
    let (row, col) = v.cursor;
    let line = v.lines[row as int];
    let typed = line.take(col as int).push(c) + line.skip(col as int);
    let after = v.insert_char(c);
    assert(typed.take(col as int) + typed.skip(col as int + 1) =~= line);
    assert(after.delete_char().lines =~= v.lines);
}

/// The Tab key goes forward, to a column at which a tab stop lies, where it inserts spaces.
pub proof fn law_tab_reaches_a_tab_stop(v: TextAreaView)
    requires
        v.valid(),
        !v.hard_tabs,
        v.tab_length > 0,
    ensures
        v.insert_tab().cursor.0 == v.delete_selection().cursor.0,
        v.insert_tab().cursor.1 > v.delete_selection().cursor.1,
        v.insert_tab().cursor.1 % (v.tab_length as nat) == 0,
{
    let n = v.tab_length as int;
    let col = v.delete_selection().cursor.1 as int;
    vstd::arithmetic::div_mod::lemma_fundamental_div_mod(col, n);
    vstd::arithmetic::div_mod::lemma_mod_multiples_basic(col / n + 1, n);
    assert((col / n + 1) * n == n * (col / n) + n) by (nonlinear_arith);
}

/// Deleting backwards joins the lines that Enter has parted.
pub proof fn law_backspace_takes_back_a_line_break(v: TextAreaView)
    requires
        v.valid(),
        v.selection() is None,
    ensures
        v.insert_newline().delete_char() == (TextAreaView { anchor: None, ..v }),
{
    let (row, col) = v.cursor;
    let line = v.lines[row as int];
    let after = v.insert_newline();
    assert(after.lines[row as int] == line.take(col as int));
    assert(after.lines[row as int + 1] == line.skip(col as int));
    let joined = after.lines[row as int].take(col as int) + after.lines[row as int + 1].skip(0);
    assert(joined =~= line);
    assert(after.delete_char().lines =~= v.lines);
}

} // verus!
