//! The keymap: from key events to editor actions, with multi-key sequences in Normal mode.
//!
//! - Insert mode: every key is text input, except `Esc` or the key that the configuration puts in
//!   its place. Nothing is buffered.
//! - Normal mode: keys are collected in a pending buffer. After each key the buffer is held
//!   against the binding table. A definite match gives its action and clears the buffer. A
//!   buffer that starts a longer sequence waits for the next key. Everything else is dropped.
//! - A pending sequence times out: its keys are flushed one by one, as unbound.
//! - Command mode: printable keys, Backspace, Enter and Esc edit, run and leave the command.
//! - Search mode: likewise for the search pattern, with Right/`n` and Left/`N` for stepping.
//! - LinkSelect mode: `j` and `k` step through the links, Enter follows, Esc leaves; other keys
//!   are those of Normal mode.
//!
//! The configuration can put other key sequences in the place of some of the built-in ones.
//!
//! Times are milliseconds of a clock that never runs backwards.
use vstd::prelude::*;

use crate::config::KeymapConfig;
use crate::modes::EditorMode;
use crate::text::{chars_of, occurs_at, split_char, split_on, starts_with, str_is, views};

pub mod keys;

verus! {

/// A key.
#[derive(Debug, Clone, Copy, PartialEq, Eq, Structural)]
pub enum KeyCode {
    Char(char),
    Backspace,
    Enter,
    Left,
    Right,
    Up,
    Down,
    Tab,
    Delete,
    Home,
    End,
    PageUp,
    PageDown,
    Esc,
    F(u8),
    /// Any other key.
    Null,
}

/// The modifiers held down with a key.
#[derive(Debug, Clone, Copy, PartialEq, Eq, Structural)]
pub struct KeyModifiers {
    pub shift: bool,
    pub control: bool,
    pub alt: bool,
    /// Any modifier other than these.
    pub other: bool,
}

impl KeyModifiers {
    #[verifier::allow_in_spec]
    pub fn none() -> KeyModifiers
        returns
            (KeyModifiers { shift: false, control: false, alt: false, other: false }),
    {
        KeyModifiers { shift: false, control: false, alt: false, other: false }
    }

    #[verifier::allow_in_spec]
    pub fn shift() -> KeyModifiers
        returns
            (KeyModifiers { shift: true, control: false, alt: false, other: false }),
    {
        KeyModifiers { shift: true, control: false, alt: false, other: false }
    }

    #[verifier::allow_in_spec]
    pub fn control() -> KeyModifiers
        returns
            (KeyModifiers { shift: false, control: true, alt: false, other: false }),
    {
        KeyModifiers { shift: false, control: true, alt: false, other: false }
    }
}

/// A key press.
#[derive(Debug, Clone, Copy, PartialEq, Eq, Structural)]
pub struct KeyEvent {
    pub code: KeyCode,
    pub modifiers: KeyModifiers,
}

/// What the editor is asked to do.
#[derive(Debug, Clone, Copy, PartialEq, Eq, Structural)]
pub enum EditorAction {
    // Mode transitions
    EnterInsert,
    ExitInsert,
    EnterCommand,
    EnterLiteralSearch,
    EnterRegexSearch,
    EnterLinkSelect,
    // Motions
    MoveLeft,
    MoveRight,
    MoveDown,
    MoveUp,
    MoveWordForward,
    MoveWordBackward,
    MoveLineStart,
    MoveLineEnd,
    MoveDocStart,
    MoveDocEnd,
    // Editing in Normal mode
    DeleteCharBackward,
    DeleteCharForward,
    // Preview
    PreviewScrollDown,
    PreviewScrollUp,
    TogglePreview,
    // Application
    Save,
    Quit,
    // Search navigation
    SearchNext,
    SearchPrev,
    /// A key for the text area.
    TextInput(KeyEvent),
    // Command mode
    CommandInput(char),
    CommandBackspace,
    ExecuteCommand,
    // Search mode
    SearchInput(char),
    SearchBackspace,
    CommitSearch,
    CancelSearch,
    // LinkSelect mode
    LinkSelectNext,
    LinkSelectPrev,
    FollowLink,
    /// A key without a meaning in the current mode.
    Unbound,
}

/// A key of Normal mode.
#[derive(Debug, Clone, Copy, PartialEq, Eq, Structural)]
pub enum NormalKey {
    Char(char),
    Left,
    Right,
    Up,
    Down,
    CtrlS,
    CtrlW,
    CtrlF,
    CtrlB,
    Colon,
    Backspace,
    Delete,
    Slash,
    Question,
}

/// An action that a Normal-mode sequence can stand for.
#[derive(Debug, Clone, Copy, PartialEq, Eq, Structural)]
pub enum NormalAction {
    EnterInsert,
    EnterCommand,
    EnterLiteralSearch,
    EnterRegexSearch,
    EnterLinkSelect,
    MoveLeft,
    MoveRight,
    MoveUp,
    MoveDown,
    MoveWordBackward,
    MoveWordForward,
    MoveLineEnd,
    MoveLineStart,
    MoveDocEnd,
    MoveDocStart,
    DeleteCharBackward,
    DeleteCharForward,
    PreviewScrollDown,
    PreviewScrollUp,
    TogglePreview,
    Save,
    Quit,
    SearchNext,
    SearchPrev,
}

/// The editor action of a Normal-mode action.
pub open spec fn editor_action(a: NormalAction) -> EditorAction {
    match a {
        NormalAction::EnterInsert => EditorAction::EnterInsert,
        NormalAction::EnterCommand => EditorAction::EnterCommand,
        NormalAction::EnterLiteralSearch => EditorAction::EnterLiteralSearch,
        NormalAction::EnterRegexSearch => EditorAction::EnterRegexSearch,
        NormalAction::EnterLinkSelect => EditorAction::EnterLinkSelect,
        NormalAction::MoveLeft => EditorAction::MoveLeft,
        NormalAction::MoveRight => EditorAction::MoveRight,
        NormalAction::MoveUp => EditorAction::MoveUp,
        NormalAction::MoveDown => EditorAction::MoveDown,
        NormalAction::MoveWordBackward => EditorAction::MoveWordBackward,
        NormalAction::MoveWordForward => EditorAction::MoveWordForward,
        NormalAction::MoveLineEnd => EditorAction::MoveLineEnd,
        NormalAction::MoveLineStart => EditorAction::MoveLineStart,
        NormalAction::MoveDocEnd => EditorAction::MoveDocEnd,
        NormalAction::MoveDocStart => EditorAction::MoveDocStart,
        NormalAction::DeleteCharBackward => EditorAction::DeleteCharBackward,
        NormalAction::DeleteCharForward => EditorAction::DeleteCharForward,
        NormalAction::PreviewScrollDown => EditorAction::PreviewScrollDown,
        NormalAction::PreviewScrollUp => EditorAction::PreviewScrollUp,
        NormalAction::TogglePreview => EditorAction::TogglePreview,
        NormalAction::Save => EditorAction::Save,
        NormalAction::Quit => EditorAction::Quit,
        NormalAction::SearchNext => EditorAction::SearchNext,
        NormalAction::SearchPrev => EditorAction::SearchPrev,
    }
}

impl From<NormalAction> for EditorAction {
    fn from(value: NormalAction) -> (r: EditorAction) {
        match value {
            NormalAction::EnterInsert => EditorAction::EnterInsert,
            NormalAction::EnterCommand => EditorAction::EnterCommand,
            NormalAction::EnterLiteralSearch => EditorAction::EnterLiteralSearch,
            NormalAction::EnterRegexSearch => EditorAction::EnterRegexSearch,
            NormalAction::EnterLinkSelect => EditorAction::EnterLinkSelect,
            NormalAction::MoveLeft => EditorAction::MoveLeft,
            NormalAction::MoveRight => EditorAction::MoveRight,
            NormalAction::MoveUp => EditorAction::MoveUp,
            NormalAction::MoveDown => EditorAction::MoveDown,
            NormalAction::MoveWordBackward => EditorAction::MoveWordBackward,
            NormalAction::MoveWordForward => EditorAction::MoveWordForward,
            NormalAction::MoveLineEnd => EditorAction::MoveLineEnd,
            NormalAction::MoveLineStart => EditorAction::MoveLineStart,
            NormalAction::MoveDocEnd => EditorAction::MoveDocEnd,
            NormalAction::MoveDocStart => EditorAction::MoveDocStart,
            NormalAction::DeleteCharBackward => EditorAction::DeleteCharBackward,
            NormalAction::DeleteCharForward => EditorAction::DeleteCharForward,
            NormalAction::PreviewScrollDown => EditorAction::PreviewScrollDown,
            NormalAction::PreviewScrollUp => EditorAction::PreviewScrollUp,
            NormalAction::TogglePreview => EditorAction::TogglePreview,
            NormalAction::Save => EditorAction::Save,
            NormalAction::Quit => EditorAction::Quit,
            NormalAction::SearchNext => EditorAction::SearchNext,
            NormalAction::SearchPrev => EditorAction::SearchPrev,
        }
    }
}

impl vstd::std_specs::convert::FromSpecImpl<NormalAction> for EditorAction {
    open spec fn obeys_from_spec() -> bool {
        true
    }

    open spec fn from_spec(value: NormalAction) -> EditorAction {
        editor_action(value)
    }
}

// ---------------------------------------------------------------------------
// The binding table
// ---------------------------------------------------------------------------

/// A key sequence with its action.
pub struct Binding {
    pub keys: Vec<NormalKey>,
    pub action: NormalAction,
}

#[verifier::ext_equal]
pub struct BindingView {
    pub keys: Seq<NormalKey>,
    pub action: NormalAction,
}

impl View for Binding {
    type V = BindingView;

    open spec fn view(&self) -> BindingView {
        BindingView { keys: self.keys@, action: self.action }
    }
}

pub open spec fn binding_views(v: Seq<Binding>) -> Seq<BindingView> {
    v.map_values(|b: Binding| b@)
}

/// A binding of one key.
pub open spec fn one(key: NormalKey, action: NormalAction) -> BindingView {
    BindingView { keys: seq![key], action }
}

/// A binding of two keys.
pub open spec fn two(first: NormalKey, second: NormalKey, action: NormalAction) -> BindingView {
    BindingView { keys: seq![first, second], action }
}

/// The bindings of Normal mode.
pub open spec fn normal_bindings() -> Seq<BindingView> {
    Seq::<BindingView>::empty().push(one(NormalKey::Char('i'), NormalAction::EnterInsert)).push(
        one(NormalKey::Colon, NormalAction::EnterCommand),
    ).push(one(NormalKey::Slash, NormalAction::EnterLiteralSearch)).push(
        one(NormalKey::Question, NormalAction::EnterRegexSearch),
    ).push(one(NormalKey::Left, NormalAction::MoveLeft)).push(
        one(NormalKey::Right, NormalAction::MoveRight),
    ).push(one(NormalKey::Up, NormalAction::MoveUp)).push(
        one(NormalKey::Down, NormalAction::MoveDown),
    ).push(one(NormalKey::Char('h'), NormalAction::MoveLeft)).push(
        one(NormalKey::Char('l'), NormalAction::MoveRight),
    ).push(one(NormalKey::Char('k'), NormalAction::MoveUp)).push(
        one(NormalKey::Char('j'), NormalAction::MoveDown),
    ).push(one(NormalKey::Char('w'), NormalAction::MoveWordForward)).push(
        one(NormalKey::Char('b'), NormalAction::MoveWordBackward),
    ).push(one(NormalKey::Char('0'), NormalAction::MoveLineStart)).push(
        one(NormalKey::Char('1'), NormalAction::MoveLineEnd),
    ).push(
        two(NormalKey::Char('g'), NormalKey::Char('g'), NormalAction::MoveDocStart),
    ).push(two(NormalKey::Char('g'), NormalKey::Char('e'), NormalAction::MoveDocEnd)).push(
        one(NormalKey::CtrlF, NormalAction::PreviewScrollDown),
    ).push(one(NormalKey::CtrlB, NormalAction::PreviewScrollUp)).push(
        two(NormalKey::Char('t'), NormalKey::Char('p'), NormalAction::TogglePreview),
    ).push(
        two(NormalKey::Char('f'), NormalKey::Char('l'), NormalAction::EnterLinkSelect),
    ).push(one(NormalKey::Backspace, NormalAction::DeleteCharBackward)).push(
        one(NormalKey::Delete, NormalAction::DeleteCharForward),
    ).push(one(NormalKey::CtrlS, NormalAction::Save)).push(
        one(NormalKey::CtrlW, NormalAction::Quit),
    ).push(one(NormalKey::Char('n'), NormalAction::SearchNext)).push(
        one(NormalKey::Char('N'), NormalAction::SearchPrev),
    )
}

fn bind(table: &mut Vec<Binding>, key: NormalKey, action: NormalAction)
    ensures
        binding_views(final(table)@) == binding_views(old(table)@).push(one(key, action)),
{
    let mut keys: Vec<NormalKey> = Vec::new();
    keys.push(key);
    table.push(Binding { keys, action });
    assert(binding_views(table@) =~= binding_views(old(table)@).push(one(key, action)));
}

fn bind_two(table: &mut Vec<Binding>, first: NormalKey, second: NormalKey, action: NormalAction)
    ensures
        binding_views(final(table)@) == binding_views(old(table)@).push(
            two(first, second, action),
        ),
{
    let mut keys: Vec<NormalKey> = Vec::new();
    keys.push(first);
    keys.push(second);
    assert(keys@ =~= seq![first, second]);
    table.push(Binding { keys, action });
    assert(binding_views(table@) =~= binding_views(old(table)@).push(two(first, second, action)));
}

/// The built-in bindings of Normal mode.
pub fn default_normal_bindings() -> (r: Vec<Binding>)
    ensures
        binding_views(r@) == normal_bindings(),
{
    let mut t: Vec<Binding> = Vec::new();
    assert(binding_views(t@) =~= Seq::<BindingView>::empty());
    // Mode transitions
    bind(&mut t, NormalKey::Char('i'), NormalAction::EnterInsert);
    bind(&mut t, NormalKey::Colon, NormalAction::EnterCommand);
    bind(&mut t, NormalKey::Slash, NormalAction::EnterLiteralSearch);
    bind(&mut t, NormalKey::Question, NormalAction::EnterRegexSearch);
    // Arrow keys
    bind(&mut t, NormalKey::Left, NormalAction::MoveLeft);
    bind(&mut t, NormalKey::Right, NormalAction::MoveRight);
    bind(&mut t, NormalKey::Up, NormalAction::MoveUp);
    bind(&mut t, NormalKey::Down, NormalAction::MoveDown);
    // Motion keys
    bind(&mut t, NormalKey::Char('h'), NormalAction::MoveLeft);
    bind(&mut t, NormalKey::Char('l'), NormalAction::MoveRight);
    bind(&mut t, NormalKey::Char('k'), NormalAction::MoveUp);
    bind(&mut t, NormalKey::Char('j'), NormalAction::MoveDown);
    bind(&mut t, NormalKey::Char('w'), NormalAction::MoveWordForward);
    bind(&mut t, NormalKey::Char('b'), NormalAction::MoveWordBackward);
    bind(&mut t, NormalKey::Char('0'), NormalAction::MoveLineStart);
    bind(&mut t, NormalKey::Char('1'), NormalAction::MoveLineEnd);
    bind_two(&mut t, NormalKey::Char('g'), NormalKey::Char('g'), NormalAction::MoveDocStart);
    bind_two(&mut t, NormalKey::Char('g'), NormalKey::Char('e'), NormalAction::MoveDocEnd);
    // Preview
    bind(&mut t, NormalKey::CtrlF, NormalAction::PreviewScrollDown);
    bind(&mut t, NormalKey::CtrlB, NormalAction::PreviewScrollUp);
    bind_two(&mut t, NormalKey::Char('t'), NormalKey::Char('p'), NormalAction::TogglePreview);
    // Links
    bind_two(&mut t, NormalKey::Char('f'), NormalKey::Char('l'), NormalAction::EnterLinkSelect);
    // Editing
    bind(&mut t, NormalKey::Backspace, NormalAction::DeleteCharBackward);
    bind(&mut t, NormalKey::Delete, NormalAction::DeleteCharForward);
    // Application
    bind(&mut t, NormalKey::CtrlS, NormalAction::Save);
    bind(&mut t, NormalKey::CtrlW, NormalAction::Quit);
    // Search navigation
    bind(&mut t, NormalKey::Char('n'), NormalAction::SearchNext);
    bind(&mut t, NormalKey::Char('N'), NormalAction::SearchPrev);
    t
}

/// The Normal-mode key of a key event; `None` for keys without a meaning there.
pub open spec fn normal_key(key: KeyEvent) -> Option<NormalKey> {
    let m = key.modifiers;
    let plain = m == KeyModifiers::none();
    let shifted = m == KeyModifiers::shift();
    match key.code {
        KeyCode::Char(c) => if m == KeyModifiers::control() {
            if c == 's' {
                Some(NormalKey::CtrlS)
            } else if c == 'w' {
                Some(NormalKey::CtrlW)
            } else if c == 'f' {
                Some(NormalKey::CtrlF)
            } else if c == 'b' {
                Some(NormalKey::CtrlB)
            } else {
                None
            }
        } else if plain || shifted {
            if c == ':' {
                Some(NormalKey::Colon)
            } else if c == '?' {
                Some(NormalKey::Question)
            } else if c == '/' && plain {
                Some(NormalKey::Slash)
            } else {
                Some(NormalKey::Char(c))
            }
        } else {
            None
        },
        KeyCode::Left if plain => Some(NormalKey::Left),
        KeyCode::Right if plain => Some(NormalKey::Right),
        KeyCode::Up if plain => Some(NormalKey::Up),
        KeyCode::Down if plain => Some(NormalKey::Down),
        KeyCode::Backspace if plain => Some(NormalKey::Backspace),
        KeyCode::Delete if plain => Some(NormalKey::Delete),
        _ => None,
    }
}

/// Converts a key event to a Normal-mode key.
pub fn to_normal_key(key: &KeyEvent) -> (r: Option<NormalKey>)
    ensures
        r == normal_key(*key),
{
    let plain = key.modifiers == KeyModifiers::none();
    let shifted = key.modifiers == KeyModifiers::shift();
    let control = key.modifiers == KeyModifiers::control();
    match key.code {
        KeyCode::Char('s') if control => Some(NormalKey::CtrlS),
        KeyCode::Char('w') if control => Some(NormalKey::CtrlW),
        KeyCode::Char('f') if control => Some(NormalKey::CtrlF),
        KeyCode::Char('b') if control => Some(NormalKey::CtrlB),
        KeyCode::Char(':') if plain || shifted => Some(NormalKey::Colon),
        KeyCode::Char('/') if plain => Some(NormalKey::Slash),
        KeyCode::Char('?') if plain || shifted => Some(NormalKey::Question),
        KeyCode::Char(c) if plain || shifted => Some(NormalKey::Char(c)),
        KeyCode::Left if plain => Some(NormalKey::Left),
        KeyCode::Right if plain => Some(NormalKey::Right),
        KeyCode::Up if plain => Some(NormalKey::Up),
        KeyCode::Down if plain => Some(NormalKey::Down),
        KeyCode::Backspace if plain => Some(NormalKey::Backspace),
        KeyCode::Delete if plain => Some(NormalKey::Delete),
        _ => None,
    }
}

// ---------------------------------------------------------------------------
// Overrides
// ---------------------------------------------------------------------------

/// A key without modifiers.
#[verifier::allow_in_spec]
pub fn plain_key(code: KeyCode) -> KeyEvent
    returns
        (KeyEvent { code, modifiers: KeyModifiers::none() }),
{
    KeyEvent { code, modifiers: KeyModifiers::none() }
}

/// The key that a token names: a character stands for itself, `Ctrl+` and a character for the two
/// together, and the other keys have names.
pub open spec fn token_key(token: Seq<char>) -> Option<KeyEvent> {
    if token.len() == 1 {
        Some(plain_key(KeyCode::Char(token[0])))
    } else if token.len() == 6 && occurs_at(token, "Ctrl+"@, 0) {
        Some(KeyEvent { code: KeyCode::Char(token[5]), modifiers: KeyModifiers::control() })
    } else if token == "Esc"@ {
        Some(plain_key(KeyCode::Esc))
    } else if token == "Enter"@ {
        Some(plain_key(KeyCode::Enter))
    } else if token == "Tab"@ {
        Some(plain_key(KeyCode::Tab))
    } else if token == "Space"@ {
        Some(plain_key(KeyCode::Char(' ')))
    } else if token == "Backspace"@ {
        Some(plain_key(KeyCode::Backspace))
    } else if token == "Delete"@ {
        Some(plain_key(KeyCode::Delete))
    } else if token == "Left"@ {
        Some(plain_key(KeyCode::Left))
    } else if token == "Right"@ {
        Some(plain_key(KeyCode::Right))
    } else if token == "Up"@ {
        Some(plain_key(KeyCode::Up))
    } else if token == "Down"@ {
        Some(plain_key(KeyCode::Down))
    } else {
        None
    }
}

/// The keys that these tokens name; empty ones count for nothing. `None` where one names no key.
pub open spec fn token_keys(tokens: Seq<Seq<char>>) -> Option<Seq<KeyEvent>>
    decreases tokens.len(),
{
    if tokens.len() == 0 {
        Some(Seq::empty())
    } else {
        match token_keys(tokens.drop_last()) {
            None => None,
            Some(keys) => if tokens.last().len() == 0 {
                Some(keys)
            } else {
                match token_key(tokens.last()) {
                    Some(k) => Some(keys.push(k)),
                    None => None,
                }
            },
        }
    }
}

/// The key sequence that a setting describes: its tokens are separated by spaces.
pub open spec fn key_sequence(text: Seq<char>) -> Option<Seq<KeyEvent>> {
    token_keys(split_on(text, ' '))
}

/// The keys of Normal mode for these key events; `None` where one has no meaning there.
pub open spec fn normal_keys(keys: Seq<KeyEvent>) -> Option<Seq<NormalKey>>
    decreases keys.len(),
{
    if keys.len() == 0 {
        Some(Seq::empty())
    } else {
        match (normal_keys(keys.drop_last()), normal_key(keys.last())) {
            (Some(front), Some(k)) => Some(front.push(k)),
            _ => None,
        }
    }
}

/// The Normal-mode sequence that a setting describes; `None` where it describes none.
pub open spec fn normal_sequence(text: Seq<char>) -> Option<Seq<NormalKey>> {
    match key_sequence(text) {
        Some(keys) => if keys.len() > 0 {
            normal_keys(keys)
        } else {
            None
        },
        None => None,
    }
}

/// The bindings that stay when `keys` are bound to `action`: not those of the action itself, and
/// not those that would be complete before `keys` are.
pub open spec fn left_beside(
    table: Seq<BindingView>,
    keys: Seq<NormalKey>,
    action: NormalAction,
) -> Seq<BindingView>
    decreases table.len(),
{
    if table.len() == 0 {
        Seq::empty()
    } else {
        let front = left_beside(table.drop_last(), keys, action);
        if table.last().action == action || table.last().keys.is_prefix_of(keys) {
            front
        } else {
            front.push(table.last())
        }
    }
}

/// The bindings with `keys` bound to `action`.
pub open spec fn rebound(
    table: Seq<BindingView>,
    keys: Seq<NormalKey>,
    action: NormalAction,
) -> Seq<BindingView> {
    seq![BindingView { keys, action }] + left_beside(table, keys, action)
}

/// The bindings with a setting for an action. Without a setting, or with one that describes no
/// sequence, they stay as they are.
pub open spec fn overridden(
    table: Seq<BindingView>,
    setting: Option<String>,
    action: NormalAction,
) -> Seq<BindingView> {
    match setting {
        Some(text) => match normal_sequence(text@) {
            Some(keys) => rebound(table, keys, action),
            None => table,
        },
        None => table,
    }
}

/// The bindings of Normal mode under a configuration.
pub open spec fn configured_bindings(config: KeymapConfig) -> Seq<BindingView> {
    let t = overridden(normal_bindings(), config.enter_insert, NormalAction::EnterInsert);
    let t = overridden(t, config.save, NormalAction::Save);
    let t = overridden(t, config.quit, NormalAction::Quit);
    let t = overridden(t, config.toggle_preview, NormalAction::TogglePreview);
    let t = overridden(t, config.link_select, NormalAction::EnterLinkSelect);
    let t = overridden(t, config.search_literal, NormalAction::EnterLiteralSearch);
    overridden(t, config.search_regex, NormalAction::EnterRegexSearch)
}

/// The key that a setting puts in the place of `Esc` in Insert mode: a sequence of one key. Nothing
/// is buffered there, so that longer ones do not count.
pub open spec fn exit_key(setting: Option<String>) -> Option<KeyEvent> {
    match setting {
        Some(text) => match key_sequence(text@) {
            Some(keys) => if keys.len() == 1 {
                Some(keys[0])
            } else {
                None
            },
            None => None,
        },
        None => None,
    }
}

fn parse_token(token: &str) -> (r: Option<KeyEvent>)
    ensures
        r == token_key(token@),
{
    let v = chars_of(token);
    if v.len() == 1 {
        Some(plain_key(KeyCode::Char(v[0])))
    } else if v.len() == 6 && starts_with(token, "Ctrl+") {
        Some(KeyEvent { code: KeyCode::Char(v[5]), modifiers: KeyModifiers::control() })
    } else if str_is(token, "Esc") {
        Some(plain_key(KeyCode::Esc))
    } else if str_is(token, "Enter") {
        Some(plain_key(KeyCode::Enter))
    } else if str_is(token, "Tab") {
        Some(plain_key(KeyCode::Tab))
    } else if str_is(token, "Space") {
        Some(plain_key(KeyCode::Char(' ')))
    } else if str_is(token, "Backspace") {
        Some(plain_key(KeyCode::Backspace))
    } else if str_is(token, "Delete") {
        Some(plain_key(KeyCode::Delete))
    } else if str_is(token, "Left") {
        Some(plain_key(KeyCode::Left))
    } else if str_is(token, "Right") {
        Some(plain_key(KeyCode::Right))
    } else if str_is(token, "Up") {
        Some(plain_key(KeyCode::Up))
    } else if str_is(token, "Down") {
        Some(plain_key(KeyCode::Down))
    } else {
        None
    }
}

/// Parses a space-separated sequence of key tokens. `None` where one of them names no key.
pub fn parse_keys(text: &str) -> (r: Option<Vec<KeyEvent>>)
    ensures
        match r {
            Some(keys) => key_sequence(text@) == Some(keys@),
            None => key_sequence(text@) is None,
        },
{
    let tokens = split_char(text, ' ');
    let ghost all = split_on(text@, ' ');
    let mut keys: Vec<KeyEvent> = Vec::new();
    let mut i: usize = 0;
    assert(all.take(0) =~= Seq::<Seq<char>>::empty());
    while i < tokens.len()
        invariant
            i <= tokens@.len(),
            all == split_on(text@, ' '),
            all == views(tokens@),
            token_keys(all.take(i as int)) == Some(keys@),
        decreases tokens@.len() - i,
    {
        proof {
            assert(all.take(i + 1).drop_last() =~= all.take(i as int));
            assert(all.take(i + 1).last() == tokens@[i as int]@);
        }
        if chars_of(tokens[i].as_str()).len() > 0 {
            match parse_token(tokens[i].as_str()) {
                Some(k) => {
                    keys.push(k);
                },
                None => {
                    proof {
                        lemma_bad_tokens_stay(all, i + 1);
                    }
                    return None;
                },
            }
        }
        i = i + 1;
    }
    assert(all.take(tokens@.len() as int) =~= all);
    Some(keys)
}

proof fn lemma_bad_tokens_stay(tokens: Seq<Seq<char>>, i: int)
    requires
        0 <= i <= tokens.len(),
        token_keys(tokens.take(i)) is None,
    ensures
        token_keys(tokens) is None,
    decreases tokens.len() - i,
{
    if i < tokens.len() {
        assert(tokens.take(i + 1).drop_last() =~= tokens.take(i));
        lemma_bad_tokens_stay(tokens, i + 1);
    } else {
        assert(tokens.take(i) =~= tokens);
    }
}

fn to_normal_keys(keys: &Vec<KeyEvent>) -> (r: Option<Vec<NormalKey>>)
    ensures
        match r {
            Some(v) => normal_keys(keys@) == Some(v@),
            None => normal_keys(keys@) is None,
        },
{
    let mut out: Vec<NormalKey> = Vec::new();
    let mut i: usize = 0;
    assert(keys@.take(0) =~= Seq::<KeyEvent>::empty());
    while i < keys.len()
        invariant
            i <= keys@.len(),
            normal_keys(keys@.take(i as int)) == Some(out@),
        decreases keys@.len() - i,
    {
        assert(keys@.take(i + 1).drop_last() =~= keys@.take(i as int));
        match to_normal_key(&keys[i]) {
            Some(k) => {
                out.push(k);
            },
            None => {
                proof {
                    lemma_unknown_keys_stay(keys@, i + 1);
                }
                return None;
            },
        }
        i = i + 1;
    }
    assert(keys@.take(keys@.len() as int) =~= keys@);
    Some(out)
}

proof fn lemma_unknown_keys_stay(keys: Seq<KeyEvent>, i: int)
    requires
        0 <= i <= keys.len(),
        normal_keys(keys.take(i)) is None,
    ensures
        normal_keys(keys) is None,
    decreases keys.len() - i,
{
    if i < keys.len() {
        assert(keys.take(i + 1).drop_last() =~= keys.take(i));
        lemma_unknown_keys_stay(keys, i + 1);
    } else {
        assert(keys.take(i) =~= keys);
    }
}

fn parse_normal_keys(text: &str) -> (r: Option<Vec<NormalKey>>)
    ensures
        match r {
            Some(keys) => normal_sequence(text@) == Some(keys@),
            None => normal_sequence(text@) is None,
        },
{
    match parse_keys(text) {
        Some(keys) => if keys.len() > 0 {
            to_normal_keys(&keys)
        } else {
            None
        },
        None => None,
    }
}

/// Puts a setting for an action into the table.
fn override_binding(
    table: Vec<Binding>,
    setting: &Option<String>,
    action: NormalAction,
) -> (r: Vec<Binding>)
    ensures
        binding_views(r@) == overridden(binding_views(table@), *setting, action),
{
    let keys = match setting {
        Some(text) => match parse_normal_keys(text.as_str()) {
            Some(keys) => keys,
            None => {
                return table;
            },
        },
        None => {
            return table;
        },
    };
    let ghost all = binding_views(table@);
    let ghost first = BindingView { keys: keys@, action };
    let mut out: Vec<Binding> = Vec::new();
    out.push(Binding { keys: keys.clone(), action });
    assert(binding_views(out@) =~= seq![first]);
    let mut i: usize = 0;
    assert(all.take(0) =~= Seq::<BindingView>::empty());
    assert(binding_views(out@) =~= seq![first] + left_beside(all.take(0), keys@, action));
    while i < table.len()
        invariant
            i <= table@.len(),
            all == binding_views(table@),
            binding_views(out@) == seq![first] + left_beside(all.take(i as int), keys@, action),
        decreases table@.len() - i,
    {
        let ghost front = left_beside(all.take(i as int), keys@, action);
        proof {
            assert(all.take(i + 1).drop_last() =~= all.take(i as int));
            assert(all.take(i + 1).last() == table@[i as int]@);
        }
        if table[i].action != action && !is_prefix(&table[i].keys, &keys) {
            let ghost before = binding_views(out@);
            out.push(Binding { keys: table[i].keys.clone(), action: table[i].action });
            assert(binding_views(out@) =~= before.push(table@[i as int]@));
            assert(before.push(table@[i as int]@) =~= seq![first] + front.push(
                table@[i as int]@,
            ));
        }
        i = i + 1;
    }
    assert(all.take(table@.len() as int) =~= all);
    out
}

/// The bindings of Normal mode under a configuration.
pub fn bindings_for(config: &KeymapConfig) -> (r: Vec<Binding>)
    ensures
        binding_views(r@) == configured_bindings(*config),
{
    let t = default_normal_bindings();
    let t = override_binding(t, &config.enter_insert, NormalAction::EnterInsert);
    let t = override_binding(t, &config.save, NormalAction::Save);
    let t = override_binding(t, &config.quit, NormalAction::Quit);
    let t = override_binding(t, &config.toggle_preview, NormalAction::TogglePreview);
    let t = override_binding(t, &config.link_select, NormalAction::EnterLinkSelect);
    let t = override_binding(t, &config.search_literal, NormalAction::EnterLiteralSearch);
    override_binding(t, &config.search_regex, NormalAction::EnterRegexSearch)
}

fn exit_key_for(setting: &Option<String>) -> (r: Option<KeyEvent>)
    ensures
        r == exit_key(*setting),
{
    match setting {
        Some(text) => match parse_keys(text.as_str()) {
            Some(keys) => if keys.len() == 1 {
                Some(keys[0])
            } else {
                None
            },
            None => None,
        },
        None => None,
    }
}

// ---------------------------------------------------------------------------
// Dispatching
// ---------------------------------------------------------------------------

/// The action bound to exactly these keys: the first such binding counts.
pub open spec fn bound_action(table: Seq<BindingView>, keys: Seq<NormalKey>) -> Option<NormalAction>
    decreases table.len(),
{
    if table.len() == 0 {
        None
    } else if table[0].keys == keys {
        Some(table[0].action)
    } else {
        bound_action(table.drop_first(), keys)
    }
}

/// The keys start a longer sequence of the table.
pub open spec fn starts_sequence(table: Seq<BindingView>, keys: Seq<NormalKey>) -> bool {
    exists|i: int|
        0 <= i < table.len() && (#[trigger] table[i]).keys.len() > keys.len()
            && keys.is_prefix_of(table[i].keys)
}

/// What the dispatcher remembers.
#[verifier::ext_equal]
pub struct KeymapView {
    pub pending: Seq<NormalKey>,
    pub last_key_at: Option<u64>,
    pub timeout: u64,
    /// The bindings of Normal mode.
    pub bindings: Seq<BindingView>,
    /// The key that leaves Insert mode in the place of `Esc`.
    pub exit: Option<KeyEvent>,
}

impl KeymapView {
    /// Nothing is pending.
    pub open spec fn cleared(self) -> KeymapView {
        KeymapView { pending: Seq::empty(), last_key_at: None, ..self }
    }

    /// The pending sequence has timed out.
    pub open spec fn timed_out(self, now: u64) -> bool {
        self.last_key_at matches Some(t) && self.timeout <= if now > t {
            now - t
        } else {
            0
        }
    }

    /// The state and the action after a tick: a pending sequence that has timed out loses its
    /// first key.
    pub open spec fn after_tick(self, now: u64) -> (KeymapView, Option<EditorAction>) {
        if self.timed_out(now) && self.pending.len() > 0 {
            let rest = self.pending.drop_first();
            (
                KeymapView {
                    pending: rest,
                    last_key_at: if rest.len() == 0 {
                        None
                    } else {
                        Some(now)
                    },
                    ..self
                },
                Some(EditorAction::Unbound),
            )
        } else {
            (self, None)
        }
    }

    /// The state and the action after a key in Normal mode.
    pub open spec fn after_normal(self, key: KeyEvent, now: u64) -> (
        KeymapView,
        Option<EditorAction>,
    ) {
        match normal_key(key) {
            None => (self.cleared(), Some(EditorAction::Unbound)),
            Some(k) => {
                let keys = self.pending.push(k);
                match bound_action(self.bindings, keys) {
                    Some(a) => (self.cleared(), Some(editor_action(a))),
                    None => if starts_sequence(self.bindings, keys) {
                        (KeymapView { pending: keys, last_key_at: Some(now), ..self }, None)
                    } else {
                        (self.cleared(), Some(EditorAction::Unbound))
                    },
                }
            },
        }
    }

    /// The state and the action after a key in a mode.
    pub open spec fn after_key(self, key: KeyEvent, mode: EditorMode, now: u64) -> (
        KeymapView,
        Option<EditorAction>,
    ) {
        match mode {
            EditorMode::Insert => (self, Some(insert_action(key, self.exit))),
            EditorMode::Command => (self, Some(command_action(key))),
            EditorMode::Search => (self, Some(search_action(key))),
            EditorMode::Normal => self.after_normal(key, now),
            EditorMode::LinkSelect => match link_action(key) {
                Some(a) => (self.cleared(), Some(a)),
                None => self.after_normal(key, now),
            },
        }
    }
}

/// The key leaves Insert mode: the given one does, or `Esc` where none is given.
#[verifier::allow_in_spec]
pub fn exits_insert(key: KeyEvent, exit: Option<KeyEvent>) -> bool
    returns
        (match exit {
            Some(k) => key == k,
            None => key.code == KeyCode::Esc,
        }),
{
    match exit {
        Some(k) => key == k,
        None => key.code == KeyCode::Esc,
    }
}

#[verifier::allow_in_spec]
pub fn insert_action(key: KeyEvent, exit: Option<KeyEvent>) -> EditorAction
    returns
        (if exits_insert(key, exit) {
            EditorAction::ExitInsert
        } else {
            EditorAction::TextInput(key)
        }),
{
    if exits_insert(key, exit) {
        EditorAction::ExitInsert
    } else {
        EditorAction::TextInput(key)
    }
}

#[verifier::allow_in_spec]
pub fn command_action(key: KeyEvent) -> EditorAction
    returns
        (match key.code {
            KeyCode::Esc => EditorAction::ExitInsert,
            KeyCode::Enter => EditorAction::ExecuteCommand,
            KeyCode::Backspace => EditorAction::CommandBackspace,
            KeyCode::Char(c) => EditorAction::CommandInput(c),
            _ => EditorAction::Unbound,
        }),
{
    match key.code {
        KeyCode::Esc => EditorAction::ExitInsert,
        KeyCode::Enter => EditorAction::ExecuteCommand,
        KeyCode::Backspace => EditorAction::CommandBackspace,
        KeyCode::Char(c) => EditorAction::CommandInput(c),
        _ => EditorAction::Unbound,
    }
}

#[verifier::allow_in_spec]
pub fn search_action(key: KeyEvent) -> EditorAction
    returns
        (match key.code {
            KeyCode::Esc => EditorAction::CancelSearch,
            KeyCode::Enter => EditorAction::CommitSearch,
            KeyCode::Backspace => EditorAction::SearchBackspace,
            KeyCode::Right => EditorAction::SearchNext,
            KeyCode::Left => EditorAction::SearchPrev,
            KeyCode::Char(c) => if c == 'n' && key.modifiers == KeyModifiers::none() {
                EditorAction::SearchNext
            } else if (c == 'N' && key.modifiers == KeyModifiers::none()) || ((c == 'N' || c == 'n')
                && key.modifiers == KeyModifiers::shift()) {
                EditorAction::SearchPrev
            } else {
                EditorAction::SearchInput(c)
            },
            _ => EditorAction::Unbound,
        }),
{
    match key.code {
        KeyCode::Esc => EditorAction::CancelSearch,
        KeyCode::Enter => EditorAction::CommitSearch,
        KeyCode::Backspace => EditorAction::SearchBackspace,
        KeyCode::Right => EditorAction::SearchNext,
        KeyCode::Left => EditorAction::SearchPrev,
        KeyCode::Char(c) => if c == 'n' && key.modifiers == KeyModifiers::none() {
            EditorAction::SearchNext
        } else if (c == 'N' && key.modifiers == KeyModifiers::none()) || ((c == 'N' || c == 'n')
            && key.modifiers == KeyModifiers::shift()) {
            EditorAction::SearchPrev
        } else {
            EditorAction::SearchInput(c)
        },
        _ => EditorAction::Unbound,
    }
}

/// The action of a key that has a meaning of its own in LinkSelect mode.
#[verifier::allow_in_spec]
pub fn link_action(key: KeyEvent) -> Option<EditorAction>
    returns
        (match key.code {
            KeyCode::Esc => Some(EditorAction::ExitInsert),
            KeyCode::Enter => Some(EditorAction::FollowLink),
            KeyCode::Char(c) => if c == 'j' && key.modifiers == KeyModifiers::none() {
                Some(EditorAction::LinkSelectNext)
            } else if c == 'k' && key.modifiers == KeyModifiers::none() {
                Some(EditorAction::LinkSelectPrev)
            } else {
                None
            },
            _ => None,
        }),
{
    match key.code {
        KeyCode::Esc => Some(EditorAction::ExitInsert),
        KeyCode::Enter => Some(EditorAction::FollowLink),
        KeyCode::Char(c) => if c == 'j' && key.modifiers == KeyModifiers::none() {
            Some(EditorAction::LinkSelectNext)
        } else if c == 'k' && key.modifiers == KeyModifiers::none() {
            Some(EditorAction::LinkSelectPrev)
        } else {
            None
        },
        _ => None,
    }
}

/// The settings of a dispatcher.
pub struct KeyTable {
    /// How long to wait for the next key of a sequence, in milliseconds.
    sequence_timeout: u64,
    bindings: Vec<Binding>,
    /// The key that leaves Insert mode in the place of `Esc`.
    exit_insert: Option<KeyEvent>,
}

impl KeyTable {
    pub closed spec fn timeout(self) -> u64 {
        self.sequence_timeout
    }

    pub closed spec fn bound(self) -> Seq<BindingView> {
        binding_views(self.bindings@)
    }

    pub closed spec fn exit(self) -> Option<KeyEvent> {
        self.exit_insert
    }
}

/// Maps key events to actions. One dispatcher lives as long as the application.
pub struct KeymapDispatcher {
    /// Keys of a sequence that is not complete yet.
    pub pending: Vec<NormalKey>,
    /// When the last of them was pressed.
    pub last_key_at: Option<u64>,
    pub table: KeyTable,
}

impl View for KeymapDispatcher {
    type V = KeymapView;

    open spec fn view(&self) -> KeymapView {
        KeymapView {
            pending: self.pending@,
            last_key_at: self.last_key_at,
            timeout: self.table.timeout(),
            bindings: self.table.bound(),
            exit: self.table.exit(),
        }
    }
}

fn same_keys(a: &Vec<NormalKey>, b: &Vec<NormalKey>) -> (r: bool)
    ensures
        r == (a@ == b@),
{
    if a.len() != b.len() {
        return false;
    }
    let r = is_prefix(a, b);
    proof {
        if r {
            assert(a@ =~= b@);
        }
    }
    r
}

fn is_prefix(a: &Vec<NormalKey>, b: &Vec<NormalKey>) -> (r: bool)
    ensures
        r == a@.is_prefix_of(b@),
{
    if a.len() > b.len() {
        return false;
    }
    let mut i: usize = 0;
    while i < a.len()
        invariant
            i <= a@.len() <= b@.len(),
            forall|k: int| 0 <= k < i ==> a@[k] == b@[k],
        decreases a@.len() - i,
    {
        if a[i] != b[i] {
            assert(b@.subrange(0, a@.len() as int)[i as int] == b@[i as int]);
            return false;
        }
        i = i + 1;
    }
    assert(a@ =~= b@.subrange(0, a@.len() as int));
    true
}

impl KeymapDispatcher {
    /// A dispatcher with the built-in bindings and the given sequence timeout.
    pub fn new(sequence_timeout_ms: u64) -> (r: KeymapDispatcher)
        ensures
            r@ == (KeymapView {
                pending: Seq::empty(),
                last_key_at: None,
                timeout: sequence_timeout_ms,
                bindings: normal_bindings(),
                exit: None,
            }),
    {
        let r = KeymapDispatcher {
            pending: Vec::new(),
            last_key_at: None,
            table: KeyTable {
                sequence_timeout: sequence_timeout_ms,
                bindings: default_normal_bindings(),
                exit_insert: None,
            },
        };
        assert(r@.pending =~= Seq::<NormalKey>::empty());
        r
    }

    /// A dispatcher with the bindings of a configuration.
    pub fn with_overrides(sequence_timeout_ms: u64, config: &KeymapConfig) -> (r: KeymapDispatcher)
        ensures
            r@ == (KeymapView {
                pending: Seq::empty(),
                last_key_at: None,
                timeout: sequence_timeout_ms,
                bindings: configured_bindings(*config),
                exit: exit_key(config.exit_insert),
            }),
    {
        let r = KeymapDispatcher {
            pending: Vec::new(),
            last_key_at: None,
            table: KeyTable {
                sequence_timeout: sequence_timeout_ms,
                bindings: bindings_for(config),
                exit_insert: exit_key_for(&config.exit_insert),
            },
        };
        assert(r@.pending =~= Seq::<NormalKey>::empty());
        r
    }

    /// To be called on every turn of the event loop before new keys are read, until it returns
    /// `None`: flushes the keys of a sequence that has timed out, one per call.
    pub fn tick(&mut self, now: u64) -> (r: Option<EditorAction>)
        ensures
            (final(self)@, r) == old(self)@.after_tick(now),
    {
        let elapsed: Option<u64> = match self.last_key_at {
            Some(t) => Some(
                if now > t {
                    now - t
                } else {
                    0
                },
            ),
            None => None,
        };
        let timed_out = match elapsed {
            Some(e) => e >= self.table.sequence_timeout,
            None => false,
        };
        if timed_out && self.pending.len() > 0 {
            let _first = self.pending.remove(0);
            self.last_key_at = if self.pending.len() == 0 {
                None
            } else {
                Some(now)
            };
            assert(self@.pending =~= old(self)@.pending.drop_first());
            return Some(EditorAction::Unbound);
        }
        None
    }

    /// Maps a key event to an action. `None` means that the key waits for the rest of its
    /// sequence.
    pub fn dispatch(&mut self, key: KeyEvent, mode: &EditorMode, now: u64) -> (r: Option<
        EditorAction,
    >)
        ensures
            (final(self)@, r) == old(self)@.after_key(key, *mode, now),
    {
        match mode {
            EditorMode::Insert => Some(insert_action(key, self.table.exit_insert)),
            EditorMode::Normal => self.dispatch_normal(key, now),
            EditorMode::Command => Some(command_action(key)),
            EditorMode::Search => Some(search_action(key)),
            EditorMode::LinkSelect => match link_action(key) {
                Some(a) => {
                    self.clear_pending();
                    Some(a)
                },
                None => self.dispatch_normal(key, now),
            },
        }
    }

    fn clear_pending(&mut self)
        ensures
            final(self)@ == old(self)@.cleared(),
    {
        self.pending = Vec::new();
        self.last_key_at = None;
        assert(self@ =~= old(self)@.cleared());
    }

    fn dispatch_normal(&mut self, key: KeyEvent, now: u64) -> (r: Option<EditorAction>)
        ensures
            (final(self)@, r) == old(self)@.after_normal(key, now),
    {
        match to_normal_key(&key) {
            Some(k) => {
                self.pending.push(k);
                self.last_key_at = Some(now);
                assert(self@ =~= KeymapView {
                    pending: old(self)@.pending.push(k),
                    last_key_at: Some(now),
                    ..old(self)@
                });
                let ghost held = self@;
                let r = self.evaluate_pending();
                assert(held.cleared() =~= old(self)@.cleared());
                r
            },
            None => {
                self.clear_pending();
                Some(EditorAction::Unbound)
            },
        }
    }

    /// Holds the pending buffer against the binding table.
    fn evaluate_pending(&mut self) -> (r: Option<EditorAction>)
        ensures
            match bound_action(old(self)@.bindings, old(self)@.pending) {
                Some(a) => r == Some(editor_action(a)) && final(self)@ == old(self)@.cleared(),
                None => if starts_sequence(old(self)@.bindings, old(self)@.pending) {
                    r is None && final(self)@ == old(self)@
                } else {
                    r == Some(EditorAction::Unbound) && final(self)@ == old(self)@.cleared()
                },
            },
    {
        let ghost table = self@.bindings;
        let mut waiting = false;
        let mut i: usize = 0;
        assert(table.skip(0) =~= table);
        while i < self.table.bindings.len()
            invariant
                self == old(self),
                table == self@.bindings,
                table == binding_views(self.table.bindings@),
                i <= self.table.bindings@.len(),
                bound_action(table, self@.pending) == bound_action(
                    table.skip(i as int),
                    self@.pending,
                ),
                waiting == exists|k: int|
                    0 <= k < i && (#[trigger] table[k]).keys.len() > self@.pending.len()
                        && self@.pending.is_prefix_of(table[k].keys),
            decreases self.table.bindings@.len() - i,
        {
            assert(table[i as int] == self.table.bindings@[i as int]@);
            assert(table.skip(i as int)[0] == table[i as int]);
            assert(table.skip(i as int).drop_first() =~= table.skip(i + 1));
            if same_keys(&self.table.bindings[i].keys, &self.pending) {
                let action = EditorAction::from(self.table.bindings[i].action);
                self.clear_pending();
                return Some(action);
            }
            if self.table.bindings[i].keys.len() > self.pending.len() && is_prefix(
                &self.pending,
                &self.table.bindings[i].keys,
            ) {
                waiting = true;
            }
            i = i + 1;
        }
        if waiting {
            return None;
        }
        self.clear_pending();
        Some(EditorAction::Unbound)
    }
}

// ---------------------------------------------------------------------------
// Laws
// ---------------------------------------------------------------------------

/// The place of a key sequence in the binding table, read off its keys.
spec fn slot(keys: Seq<NormalKey>) -> int {
    match keys[0] {
        NormalKey::Char(c) => match c {
            'i' => 0,
            'h' => 8,
            'l' => 9,
            'k' => 10,
            'j' => 11,
            'w' => 12,
            'b' => 13,
            '0' => 14,
            '1' => 15,
            'g' => if keys[1] == NormalKey::Char('g') { 16 } else { 17 },
            't' => 20,
            'f' => 21,
            'n' => 26,
            'N' => 27,
            _ => -1,
        },
        NormalKey::Colon => 1,
        NormalKey::Slash => 2,
        NormalKey::Question => 3,
        NormalKey::Left => 4,
        NormalKey::Right => 5,
        NormalKey::Up => 6,
        NormalKey::Down => 7,
        NormalKey::CtrlF => 18,
        NormalKey::CtrlB => 19,
        NormalKey::Backspace => 22,
        NormalKey::Delete => 23,
        NormalKey::CtrlS => 24,
        NormalKey::CtrlW => 25,
    }
}

proof fn lemma_slots()
    ensures
        normal_bindings().len() == 28,
        forall|i: int|
            0 <= i < 28 ==> slot((#[trigger] normal_bindings()[i]).keys) == i && 1
                <= normal_bindings()[i].keys.len() <= 2,
        normal_bindings()[16].keys.len() == 2,
        normal_bindings()[17].keys.len() == 2,
{
    let t = normal_bindings();
    assert forall|i: int| 0 <= i < 28 implies slot((#[trigger] t[i]).keys) == i && 1
        <= t[i].keys.len() <= 2 by {
        lemma_slot_at(i);
    }
}

proof fn lemma_slot_at(i: int)
    requires
        0 <= i < 28,
    ensures
        slot(normal_bindings()[i].keys) == i,
        1 <= normal_bindings()[i].keys.len() <= 2,
{
    let t = normal_bindings();
    assert(i == 0 || i == 1 || i == 2 || i == 3 || i == 4 || i == 5 || i == 6 || i == 7 || i == 8
        || i == 9 || i == 10 || i == 11 || i == 12 || i == 13 || i == 14 || i == 15 || i == 16 || i
        == 17 || i == 18 || i == 19 || i == 20 || i == 21 || i == 22 || i == 23 || i == 24 || i
        == 25 || i == 26 || i == 27);
}

/// No binding is the start of another, so that a definite match never hides a longer sequence.
pub proof fn law_bindings_are_prefix_free(i: int, j: int)
    requires
        0 <= i < normal_bindings().len(),
        0 <= j < normal_bindings().len(),
        i != j,
    ensures
        !normal_bindings()[i].keys.is_prefix_of(normal_bindings()[j].keys),
{
    lemma_slots();
    let a = normal_bindings()[i].keys;
    let b = normal_bindings()[j].keys;
    if a.is_prefix_of(b) {
        assert(a == b.subrange(0, a.len() as int));
        assert(a[0] == b[0]);
        if a.len() == 2 {
            assert(a[1] == b[1]);
        }
        assert(slot(a) == slot(b));
    }
}

proof fn lemma_left_beside(
    table: Seq<BindingView>,
    keys: Seq<NormalKey>,
    action: NormalAction,
    i: int,
)
    requires
        0 <= i < left_beside(table, keys, action).len(),
    ensures
        left_beside(table, keys, action)[i].action != action,
        !left_beside(table, keys, action)[i].keys.is_prefix_of(keys),
    decreases table.len(),
{
    if table.len() > 0 {
        let front = left_beside(table.drop_last(), keys, action);
        if i < front.len() {
            lemma_left_beside(table.drop_last(), keys, action, i);
        }
    }
}

/// A bound action comes from the table.
proof fn lemma_bound(table: Seq<BindingView>, keys: Seq<NormalKey>)
    ensures
        bound_action(table, keys) matches Some(a) ==> exists|i: int|
            0 <= i < table.len() && (#[trigger] table[i]).keys == keys && table[i].action == a,
    decreases table.len(),
{
    if table.len() > 0 && table[0].keys != keys {
        let rest = table.drop_first();
        lemma_bound(rest, keys);
        if let Some(a) = bound_action(rest, keys) {
            let i = choose|i: int|
                0 <= i < rest.len() && (#[trigger] rest[i]).keys == keys && rest[i].action == a;
            assert(table[i + 1] == rest[i]);
        }
    } else if table.len() > 0 {
        assert(table[0].keys == keys);
    }
}

/// A sequence from the configuration can be typed and does what it is set to: each of its keys but
/// the last one waits for the next, and all of them give the action. The action has no other
/// sequence.
pub proof fn law_overrides_take_effect(
    table: Seq<BindingView>,
    keys: Seq<NormalKey>,
    action: NormalAction,
    typed: Seq<NormalKey>,
)
    requires
        keys.len() > 0,
    ensures
        bound_action(rebound(table, keys, action), keys) == Some(action),
        typed.is_prefix_of(keys) && typed.len() < keys.len() ==> bound_action(
            rebound(table, keys, action),
            typed,
        ) is None && starts_sequence(rebound(table, keys, action), typed),
        typed != keys ==> bound_action(rebound(table, keys, action), typed) != Some(action),
{
    let t = rebound(table, keys, action);
    let rest = left_beside(table, keys, action);
    assert(t[0] == BindingView { keys, action });
    assert(t.drop_first() =~= rest);
    if typed != keys {
        lemma_bound(t, typed);
        if let Some(a) = bound_action(t, typed) {
            let i = choose|i: int|
                0 <= i < t.len() && (#[trigger] t[i]).keys == typed && t[i].action == a;
            assert(i > 0);
            assert(t[i] == rest[i - 1]);
            lemma_left_beside(table, keys, action, i - 1);
        }
    }
}

/// Without settings the built-in bindings hold, and a setting that describes no key sequence
/// changes nothing.
pub proof fn law_defaults_without_overrides(
    config: KeymapConfig,
    table: Seq<BindingView>,
    text: String,
    action: NormalAction,
)
    ensures
        config.is_default() ==> configured_bindings(config) == normal_bindings() && exit_key(
            config.exit_insert,
        ) is None,
        normal_sequence(text@) is None ==> overridden(table, Some(text), action) == table,
{
}

/// A key in Normal mode either gives an action and leaves nothing pending, or it waits and what
/// is pending starts a longer sequence.
pub proof fn law_pending_keys_start_a_sequence(s: KeymapView, key: KeyEvent, now: u64)
    ensures
        match s.after_normal(key, now).1 {
            Some(_) => s.after_normal(key, now).0.pending.len() == 0,
            None => starts_sequence(s.bindings, s.after_normal(key, now).0.pending),
        },
{
}

/// Nothing is buffered while text, a command or a search pattern is typed: every key gives an
/// action at once, and a sequence that was pending stays as it was.
pub proof fn law_typing_is_not_buffered(s: KeymapView, key: KeyEvent, mode: EditorMode, now: u64)
    requires
        mode is Insert || mode is Command || mode is Search,
    ensures
        s.after_key(key, mode, now).0 == s,
        s.after_key(key, mode, now).1 is Some,
{
}

/// A tick flushes nothing before the timeout, and exactly the first pending key after it.
pub proof fn law_tick_flushes_one_key(s: KeymapView, now: u64)
    ensures
        !s.timed_out(now) ==> s.after_tick(now) == (s, None::<EditorAction>),
        s.timed_out(now) && s.pending.len() > 0 ==> s.after_tick(now).0.pending
            == s.pending.drop_first() && s.after_tick(now).1 == Some(EditorAction::Unbound),
{
}

} // verus!
