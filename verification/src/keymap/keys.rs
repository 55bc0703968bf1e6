//! What the keys mean.
use vstd::prelude::*;

use crate::config::KeymapConfig;
use crate::keymap::{
    BindingView, EditorAction, KeyCode, KeyEvent, KeyModifiers, KeymapView, NormalAction, NormalKey,
    bound_action, configured_bindings, editor_action, exit_key, key_sequence,
    law_bindings_are_prefix_free, law_overrides_take_effect, left_beside, normal_bindings,
    normal_key, normal_keys, normal_sequence, rebound, starts_sequence, token_key, token_keys,
};
use crate::modes::EditorMode;
use crate::text::{joined, law_join_then_split, law_joined_parts_follow_each_other, occurs_at};

verus! {

/// A key without a modifier.
pub open spec fn bare(code: KeyCode) -> KeyEvent {
    KeyEvent {
        code,
        modifiers: KeyModifiers { shift: false, control: false, alt: false, other: false },
    }
}

/// A key together with Shift.
pub open spec fn with_shift(code: KeyCode) -> KeyEvent {
    KeyEvent {
        code,
        modifiers: KeyModifiers { shift: true, control: false, alt: false, other: false },
    }
}

/// A key together with Control.
pub open spec fn with_control(code: KeyCode) -> KeyEvent {
    KeyEvent {
        code,
        modifiers: KeyModifiers { shift: false, control: true, alt: false, other: false },
    }
}

/// The dispatcher after a key gives the action at once and has nothing pending.
pub open spec fn gives(s: KeymapView, key: KeyEvent, now: u64, action: EditorAction) -> bool {
    let (t, a) = s.after_key(key, EditorMode::Normal, now);
    &&& a == Some(action)
    &&& t.pending.len() == 0
    &&& t.bindings == s.bindings
    &&& t.exit == s.exit
    &&& t.timeout == s.timeout
}

/// The dispatcher waits after the first key and gives the action after the second.
pub open spec fn gives_after_both(
    s: KeymapView,
    first: KeyEvent,
    second: KeyEvent,
    now: u64,
    then: u64,
    action: EditorAction,
) -> bool {
    let (t, a) = s.after_key(first, EditorMode::Normal, now);
    &&& a is None
    &&& gives(t, second, then, action)
}

proof fn lemma_bound_at(table: Seq<BindingView>, keys: Seq<NormalKey>, i: int)
    requires
        0 <= i < table.len(),
        table[i].keys == keys,
        forall|j: int| 0 <= j < i ==> (#[trigger] table[j]).keys != keys,
    ensures
        bound_action(table, keys) == Some(table[i].action),
    decreases i,
{
    if i > 0 {
        assert(table[0].keys != keys);
        let rest = table.drop_first();
        assert(rest[i - 1] == table[i]);
        assert forall|j: int| 0 <= j < i - 1 implies (#[trigger] rest[j]).keys != keys by {
            assert(rest[j] == table[j + 1]);
        }
        lemma_bound_at(rest, keys, i - 1);
    }
}

/// The built-in binding at a place of the table is the one that counts.
proof fn lemma_entry(i: int)
    requires
        0 <= i < normal_bindings().len(),
    ensures
        bound_action(normal_bindings(), normal_bindings()[i].keys) == Some(
            normal_bindings()[i].action,
        ),
{
    let table = normal_bindings();
    let keys = table[i].keys;
    assert forall|j: int| 0 <= j < i implies (#[trigger] table[j]).keys != keys by {
        law_bindings_are_prefix_free(j, i);
        if table[j].keys == keys {
            assert(keys =~= keys.subrange(0, keys.len() as int));
        }
    }
    lemma_bound_at(table, keys, i);
}

proof fn lemma_single(s: KeymapView, key: KeyEvent, now: u64, i: int)
    requires
        s.bindings == normal_bindings(),
        s.pending.len() == 0,
        0 <= i < normal_bindings().len(),
        normal_key(key) is Some,
        normal_bindings()[i].keys == seq![normal_key(key)->0],
    ensures
        gives(s, key, now, editor_action(normal_bindings()[i].action)),
{
    lemma_entry(i);
    assert(s.pending.push(normal_key(key)->0) =~= seq![normal_key(key)->0]);
}

proof fn lemma_pair(s: KeymapView, first: KeyEvent, second: KeyEvent, now: u64, then: u64, i: int)
    requires
        s.bindings == normal_bindings(),
        s.pending.len() == 0,
        0 <= i < normal_bindings().len(),
        normal_key(first) is Some,
        normal_key(second) is Some,
        normal_bindings()[i].keys == seq![normal_key(first)->0, normal_key(second)->0],
    ensures
        gives_after_both(
            s,
            first,
            second,
            now,
            then,
            editor_action(normal_bindings()[i].action),
        ),
{
    let table = normal_bindings();
    let k = normal_key(first)->0;
    let both = table[i].keys;
    let one = s.pending.push(k);
    assert(one =~= seq![k]);
    assert(one =~= both.subrange(0, 1));
    if bound_action(table, one) is Some {
        let j = lemma_bound_from(table, one);
        if j == i {
            assert(one.len() == both.len());
        }
        law_bindings_are_prefix_free(j, i);
    }
    assert(starts_sequence(table, one));
    lemma_entry(i);
    assert(one.push(normal_key(second)->0) =~= both);
}

proof fn lemma_bound_from(table: Seq<BindingView>, keys: Seq<NormalKey>) -> (j: int)
    requires
        bound_action(table, keys) is Some,
    ensures
        0 <= j < table.len(),
        table[j].keys == keys,
    decreases table.len(),
{
    if table[0].keys == keys {
        0
    } else {
        let j = lemma_bound_from(table.drop_first(), keys);
        assert(table[j + 1] == table.drop_first()[j]);
        j + 1
    }
}

/// The built-in bindings are at work and nothing is pending.
pub open spec fn is_fresh(s: KeymapView) -> bool {
    s.bindings == normal_bindings() && s.pending.len() == 0
}

proof fn lemma_bindings_1()
    ensures
        normal_bindings().len() == 28,
        normal_bindings()[0] == (BindingView {
            keys: seq![NormalKey::Char('i')],
            action: NormalAction::EnterInsert,
        }),
        normal_bindings()[1] == (BindingView {
            keys: seq![NormalKey::Colon],
            action: NormalAction::EnterCommand,
        }),
        normal_bindings()[2] == (BindingView {
            keys: seq![NormalKey::Slash],
            action: NormalAction::EnterLiteralSearch,
        }),
        normal_bindings()[3] == (BindingView {
            keys: seq![NormalKey::Question],
            action: NormalAction::EnterRegexSearch,
        }),
        normal_bindings()[4] == (BindingView {
            keys: seq![NormalKey::Left],
            action: NormalAction::MoveLeft,
        }),
        normal_bindings()[5] == (BindingView {
            keys: seq![NormalKey::Right],
            action: NormalAction::MoveRight,
        }),
        normal_bindings()[6] == (BindingView {
            keys: seq![NormalKey::Up],
            action: NormalAction::MoveUp,
        }),
        normal_bindings()[7] == (BindingView {
            keys: seq![NormalKey::Down],
            action: NormalAction::MoveDown,
        }),
        normal_bindings()[8] == (BindingView {
            keys: seq![NormalKey::Char('h')],
            action: NormalAction::MoveLeft,
        }),
        normal_bindings()[9] == (BindingView {
            keys: seq![NormalKey::Char('l')],
            action: NormalAction::MoveRight,
        }),
        normal_bindings()[10] == (BindingView {
            keys: seq![NormalKey::Char('k')],
            action: NormalAction::MoveUp,
        }),
        normal_bindings()[11] == (BindingView {
            keys: seq![NormalKey::Char('j')],
            action: NormalAction::MoveDown,
        }),
        normal_bindings()[12] == (BindingView {
            keys: seq![NormalKey::Char('w')],
            action: NormalAction::MoveWordForward,
        }),
        normal_bindings()[13] == (BindingView {
            keys: seq![NormalKey::Char('b')],
            action: NormalAction::MoveWordBackward,
        }),
{
}

proof fn lemma_bindings_2()
    ensures
        normal_bindings().len() == 28,
        normal_bindings()[14] == (BindingView {
            keys: seq![NormalKey::Char('0')],
            action: NormalAction::MoveLineStart,
        }),
        normal_bindings()[15] == (BindingView {
            keys: seq![NormalKey::Char('1')],
            action: NormalAction::MoveLineEnd,
        }),
        normal_bindings()[16] == (BindingView {
            keys: seq![NormalKey::Char('g'), NormalKey::Char('g')],
            action: NormalAction::MoveDocStart,
        }),
        normal_bindings()[17] == (BindingView {
            keys: seq![NormalKey::Char('g'), NormalKey::Char('e')],
            action: NormalAction::MoveDocEnd,
        }),
        normal_bindings()[18] == (BindingView {
            keys: seq![NormalKey::CtrlF],
            action: NormalAction::PreviewScrollDown,
        }),
        normal_bindings()[19] == (BindingView {
            keys: seq![NormalKey::CtrlB],
            action: NormalAction::PreviewScrollUp,
        }),
        normal_bindings()[20] == (BindingView {
            keys: seq![NormalKey::Char('t'), NormalKey::Char('p')],
            action: NormalAction::TogglePreview,
        }),
        normal_bindings()[21] == (BindingView {
            keys: seq![NormalKey::Char('f'), NormalKey::Char('l')],
            action: NormalAction::EnterLinkSelect,
        }),
        normal_bindings()[22] == (BindingView {
            keys: seq![NormalKey::Backspace],
            action: NormalAction::DeleteCharBackward,
        }),
        normal_bindings()[23] == (BindingView {
            keys: seq![NormalKey::Delete],
            action: NormalAction::DeleteCharForward,
        }),
        normal_bindings()[24] == (BindingView {
            keys: seq![NormalKey::CtrlS],
            action: NormalAction::Save,
        }),
        normal_bindings()[25] == (BindingView {
            keys: seq![NormalKey::CtrlW],
            action: NormalAction::Quit,
        }),
        normal_bindings()[26] == (BindingView {
            keys: seq![NormalKey::Char('n')],
            action: NormalAction::SearchNext,
        }),
        normal_bindings()[27] == (BindingView {
            keys: seq![NormalKey::Char('N')],
            action: NormalAction::SearchPrev,
        }),
{
}

/// In Normal mode `h`, `j`, `k` and `l` move like the arrow keys, `w` and `b` by words, `0` and `1`
/// to the ends of the line, and `gg` and `ge` to those of the document.
pub proof fn law_motion_keys(s: KeymapView, now: u64, then: u64)
    requires
        is_fresh(s),
    ensures
        gives(s, bare(KeyCode::Char('h')), now, EditorAction::MoveLeft),
        gives(s, bare(KeyCode::Left), now, EditorAction::MoveLeft),
        gives(s, bare(KeyCode::Char('l')), now, EditorAction::MoveRight),
        gives(s, bare(KeyCode::Right), now, EditorAction::MoveRight),
        gives(s, bare(KeyCode::Char('k')), now, EditorAction::MoveUp),
        gives(s, bare(KeyCode::Up), now, EditorAction::MoveUp),
        gives(s, bare(KeyCode::Char('j')), now, EditorAction::MoveDown),
        gives(s, bare(KeyCode::Down), now, EditorAction::MoveDown),
        gives(s, bare(KeyCode::Char('w')), now, EditorAction::MoveWordForward),
        gives(s, bare(KeyCode::Char('b')), now, EditorAction::MoveWordBackward),
        gives(s, bare(KeyCode::Char('0')), now, EditorAction::MoveLineStart),
        gives(s, bare(KeyCode::Char('1')), now, EditorAction::MoveLineEnd),
        gives_after_both(
            s,
            bare(KeyCode::Char('g')),
            bare(KeyCode::Char('g')),
            now,
            then,
            EditorAction::MoveDocStart,
        ),
        gives_after_both(
            s,
            bare(KeyCode::Char('g')),
            bare(KeyCode::Char('e')),
            now,
            then,
            EditorAction::MoveDocEnd,
        ),
{
    lemma_bindings_1();
    lemma_bindings_2();
    lemma_single(s, bare(KeyCode::Char('h')), now, 8);
    lemma_single(s, bare(KeyCode::Left), now, 4);
    lemma_single(s, bare(KeyCode::Char('l')), now, 9);
    lemma_single(s, bare(KeyCode::Right), now, 5);
    lemma_single(s, bare(KeyCode::Char('k')), now, 10);
    lemma_single(s, bare(KeyCode::Up), now, 6);
    lemma_single(s, bare(KeyCode::Char('j')), now, 11);
    lemma_single(s, bare(KeyCode::Down), now, 7);
    lemma_single(s, bare(KeyCode::Char('w')), now, 12);
    lemma_single(s, bare(KeyCode::Char('b')), now, 13);
    lemma_single(s, bare(KeyCode::Char('0')), now, 14);
    lemma_single(s, bare(KeyCode::Char('1')), now, 15);
    lemma_pair(s, bare(KeyCode::Char('g')), bare(KeyCode::Char('g')), now, then, 16);
    lemma_pair(s, bare(KeyCode::Char('g')), bare(KeyCode::Char('e')), now, then, 17);
}

/// In Normal mode `i` begins to type, `:` a command, `/` and `?` a search and `fl` the selection of
/// links; `n` and `N` step through the matches, whether or not Shift is reported with the capital.
pub proof fn law_mode_and_search_keys(s: KeymapView, now: u64, then: u64)
    requires
        is_fresh(s),
    ensures
        gives(s, bare(KeyCode::Char('i')), now, EditorAction::EnterInsert),
        gives(s, bare(KeyCode::Char(':')), now, EditorAction::EnterCommand),
        gives(s, with_shift(KeyCode::Char(':')), now, EditorAction::EnterCommand),
        gives(s, bare(KeyCode::Char('/')), now, EditorAction::EnterLiteralSearch),
        gives(s, bare(KeyCode::Char('?')), now, EditorAction::EnterRegexSearch),
        gives(s, with_shift(KeyCode::Char('?')), now, EditorAction::EnterRegexSearch),
        gives(s, bare(KeyCode::Char('n')), now, EditorAction::SearchNext),
        gives(s, bare(KeyCode::Char('N')), now, EditorAction::SearchPrev),
        gives(s, with_shift(KeyCode::Char('N')), now, EditorAction::SearchPrev),
        gives_after_both(
            s,
            bare(KeyCode::Char('f')),
            bare(KeyCode::Char('l')),
            now,
            then,
            EditorAction::EnterLinkSelect,
        ),
{
    lemma_bindings_1();
    lemma_bindings_2();
    lemma_single(s, bare(KeyCode::Char('i')), now, 0);
    lemma_single(s, bare(KeyCode::Char(':')), now, 1);
    lemma_single(s, with_shift(KeyCode::Char(':')), now, 1);
    lemma_single(s, bare(KeyCode::Char('/')), now, 2);
    lemma_single(s, bare(KeyCode::Char('?')), now, 3);
    lemma_single(s, with_shift(KeyCode::Char('?')), now, 3);
    lemma_single(s, bare(KeyCode::Char('n')), now, 26);
    lemma_single(s, bare(KeyCode::Char('N')), now, 27);
    lemma_single(s, with_shift(KeyCode::Char('N')), now, 27);
    lemma_pair(s, bare(KeyCode::Char('f')), bare(KeyCode::Char('l')), now, then, 21);
}

/// In Normal mode Backspace and Delete delete, Control with `s` saves, with `w` quits, with `f` and
/// `b` scrolls the preview, and `tp` changes what the preview shows.
pub proof fn law_edit_and_preview_keys(s: KeymapView, now: u64, then: u64)
    requires
        is_fresh(s),
    ensures
        gives(s, bare(KeyCode::Backspace), now, EditorAction::DeleteCharBackward),
        gives(s, bare(KeyCode::Delete), now, EditorAction::DeleteCharForward),
        gives(s, with_control(KeyCode::Char('s')), now, EditorAction::Save),
        gives(s, with_control(KeyCode::Char('w')), now, EditorAction::Quit),
        gives(s, with_control(KeyCode::Char('f')), now, EditorAction::PreviewScrollDown),
        gives(s, with_control(KeyCode::Char('b')), now, EditorAction::PreviewScrollUp),
        gives_after_both(
            s,
            bare(KeyCode::Char('t')),
            bare(KeyCode::Char('p')),
            now,
            then,
            EditorAction::TogglePreview,
        ),
{
    lemma_bindings_2();
    lemma_single(s, bare(KeyCode::Backspace), now, 22);
    lemma_single(s, bare(KeyCode::Delete), now, 23);
    lemma_single(s, with_control(KeyCode::Char('s')), now, 24);
    lemma_single(s, with_control(KeyCode::Char('w')), now, 25);
    lemma_single(s, with_control(KeyCode::Char('f')), now, 18);
    lemma_single(s, with_control(KeyCode::Char('b')), now, 19);
    lemma_pair(s, bare(KeyCode::Char('t')), bare(KeyCode::Char('p')), now, then, 20);
}

/// While text is typed every key goes to the text area, but the one that leaves Insert mode: the
/// key of the configuration, or Escape with whatever modifier where none is configured.
pub proof fn law_insert_keys(s: KeymapView, key: KeyEvent, now: u64)
    ensures
        ({
            let (t, a) = s.after_key(key, EditorMode::Insert, now);
            &&& t == s
            &&& s.exit is None && key.code is Esc ==> a == Some(EditorAction::ExitInsert)
            &&& s.exit == Some(key) ==> a == Some(EditorAction::ExitInsert)
            &&& s.exit is None && !(key.code is Esc) ==> a == Some(EditorAction::TextInput(key))
            &&& s.exit is Some && s.exit != Some(key) ==> a == Some(EditorAction::TextInput(key))
        }),
{
}

/// At the prompt characters are typed, Backspace takes one back, Enter carries the command out and
/// Escape leaves.
pub proof fn law_prompt_keys(s: KeymapView, m: KeyModifiers, c: char, now: u64)
    ensures
        at_prompt(s, KeyEvent { code: KeyCode::Char(c), modifiers: m }, now)
            == EditorAction::CommandInput(c),
        at_prompt(s, KeyEvent { code: KeyCode::Backspace, modifiers: m }, now)
            == EditorAction::CommandBackspace,
        at_prompt(s, KeyEvent { code: KeyCode::Enter, modifiers: m }, now)
            == EditorAction::ExecuteCommand,
        at_prompt(s, KeyEvent { code: KeyCode::Esc, modifiers: m }, now)
            == EditorAction::ExitInsert,
{
}

/// The action of a key at the command prompt.
pub open spec fn at_prompt(s: KeymapView, key: KeyEvent, now: u64) -> EditorAction {
    s.after_key(key, EditorMode::Command, now).1->0
}

/// In a search characters are typed, but `n` and `N` and the arrow keys step through the matches;
/// Backspace takes a character back, Enter confirms and Escape calls off.
pub proof fn law_search_keys(s: KeymapView, m: KeyModifiers, c: char, now: u64)
    ensures
        c != 'n' && c != 'N' ==> in_search(
            s,
            KeyEvent { code: KeyCode::Char(c), modifiers: m },
            now,
        ) == EditorAction::SearchInput(c),
        in_search(s, bare(KeyCode::Char('n')), now) == EditorAction::SearchNext,
        in_search(s, bare(KeyCode::Char('N')), now) == EditorAction::SearchPrev,
        in_search(s, with_shift(KeyCode::Char('N')), now) == EditorAction::SearchPrev,
        in_search(s, KeyEvent { code: KeyCode::Right, modifiers: m }, now)
            == EditorAction::SearchNext,
        in_search(s, KeyEvent { code: KeyCode::Left, modifiers: m }, now)
            == EditorAction::SearchPrev,
        in_search(s, KeyEvent { code: KeyCode::Backspace, modifiers: m }, now)
            == EditorAction::SearchBackspace,
        in_search(s, KeyEvent { code: KeyCode::Enter, modifiers: m }, now)
            == EditorAction::CommitSearch,
        in_search(s, KeyEvent { code: KeyCode::Esc, modifiers: m }, now)
            == EditorAction::CancelSearch,
{
}

/// The action of a key in a search.
pub open spec fn in_search(s: KeymapView, key: KeyEvent, now: u64) -> EditorAction {
    s.after_key(key, EditorMode::Search, now).1->0
}

/// While links are selected `j` and `k` step through them, Enter follows the selected one and
/// Escape leaves. Every other key means what it means in Normal mode.
pub proof fn law_link_keys(s: KeymapView, m: KeyModifiers, key: KeyEvent, now: u64)
    ensures
        in_links(s, bare(KeyCode::Char('j')), now) == Some(EditorAction::LinkSelectNext),
        in_links(s, bare(KeyCode::Char('k')), now) == Some(EditorAction::LinkSelectPrev),
        in_links(s, KeyEvent { code: KeyCode::Enter, modifiers: m }, now) == Some(
            EditorAction::FollowLink,
        ),
        in_links(s, KeyEvent { code: KeyCode::Esc, modifiers: m }, now) == Some(
            EditorAction::ExitInsert,
        ),
        key != bare(KeyCode::Char('j')) && key != bare(KeyCode::Char('k')) && !(key.code is Enter)
            && !(key.code is Esc) ==> s.after_key(key, EditorMode::LinkSelect, now)
            == s.after_key(key, EditorMode::Normal, now),
{
}

/// The action of a key while links are selected.
pub open spec fn in_links(s: KeymapView, key: KeyEvent, now: u64) -> Option<EditorAction> {
    s.after_key(key, EditorMode::LinkSelect, now).1
}

/// A sequence that is not finished within the timeout is given up: before that a tick changes
/// nothing, from then on each tick takes its first key, until nothing is pending.
pub proof fn law_unfinished_sequences_time_out(s: KeymapView, at: u64, now: u64)
    requires
        s.last_key_at == Some(at),
        s.pending.len() > 0,
    ensures
        at <= now < at + s.timeout ==> s.after_tick(now) == (s, None::<EditorAction>),
        at <= now && now >= at + s.timeout ==> s.after_tick(now).0.pending == s.pending.skip(1)
            && s.after_tick(now).1 == Some(EditorAction::Unbound),
        at <= now && now >= at + s.timeout && s.pending.len() == 1 ==> s.after_tick(
            now,
        ).0.last_key_at is None,
{
    assert(s.pending.drop_first() =~= s.pending.skip(1));
}

// ---------------------------------------------------------------------------
// Settings
// ---------------------------------------------------------------------------

/// A character stands for itself in a setting, and with `Ctrl+` before it for the two together.
pub proof fn law_tokens_name_keys(c: char)
    ensures
        token_key(seq![c]) == Some(bare(KeyCode::Char(c))),
        token_key(seq!['C', 't', 'r', 'l', '+', c]) == Some(with_control(KeyCode::Char(c))),
        token_key("Esc"@) == Some(bare(KeyCode::Esc)),
        token_key("Enter"@) == Some(bare(KeyCode::Enter)),
        token_key("Tab"@) == Some(bare(KeyCode::Tab)),
        token_key("Space"@) == Some(bare(KeyCode::Char(' '))),
        token_key("Backspace"@) == Some(bare(KeyCode::Backspace)),
        token_key("Delete"@) == Some(bare(KeyCode::Delete)),
        token_key("Left"@) == Some(bare(KeyCode::Left)),
        token_key("Right"@) == Some(bare(KeyCode::Right)),
        token_key("Up"@) == Some(bare(KeyCode::Up)),
        token_key("Down"@) == Some(bare(KeyCode::Down)),
{
    reveal_strlit("Ctrl+");
    reveal_strlit("Esc");
    reveal_strlit("Enter");
    reveal_strlit("Tab");
    reveal_strlit("Space");
    reveal_strlit("Backspace");
    reveal_strlit("Delete");
    reveal_strlit("Left");
    reveal_strlit("Right");
    reveal_strlit("Up");
    reveal_strlit("Down");
    let ctrl = seq!['C', 't', 'r', 'l', '+', c];
    assert(ctrl.subrange(0, 5) =~= "Ctrl+"@);
    if occurs_at("Delete"@, "Ctrl+"@, 0) {
        assert("Delete"@.subrange(0, 5)[0] == "Ctrl+"@[0]);
    }
    assert("Esc"@[0] == 'E' && "Tab"@[0] == 'T' && "Up"@[0] == 'U');
    assert("Enter"@[0] == 'E' && "Space"@[0] == 'S' && "Right"@[0] == 'R');
    assert("Left"@[0] == 'L' && "Down"@[0] == 'D');
}

/// The keys of a sequence are those of its tokens, in order. Tokens without a character, as between
/// two spaces, count for nothing, and one token that names no key spoils the sequence.
pub proof fn law_sequences_are_read_token_by_token(
    tokens: Seq<Seq<char>>,
    keys: Seq<KeyEvent>,
    token: Seq<char>,
)
    requires
        token_keys(tokens) == Some(keys),
    ensures
        token.len() == 0 ==> token_keys(tokens.push(token)) == Some(keys),
        token.len() > 0 ==> (token_key(token) matches Some(k) ==> token_keys(tokens.push(token))
            == Some(keys.push(k))),
        token.len() > 0 && token_key(token) is None ==> token_keys(tokens.push(token)) is None,
        token_keys(Seq::empty()) == Some(Seq::<KeyEvent>::empty()),
{
    assert(tokens.push(token).drop_last() =~= tokens);
}

/// Two keys with a space between them are that sequence of two.
pub proof fn law_a_space_stands_between_keys(a: char, b: char)
    requires
        a != ' ',
        b != ' ',
    ensures
        key_sequence(seq![a, ' ', b]) == Some(
            seq![bare(KeyCode::Char(a)), bare(KeyCode::Char(b))],
        ),
        key_sequence(seq![a]) == Some(seq![bare(KeyCode::Char(a))]),
{
    let parts = seq![seq![a], seq![b]];
    assert forall|i: int| 0 <= i < parts.len() implies !(#[trigger] parts[i]).contains(' ') by {}
    law_join_then_split(parts, ' ');
    law_joined_parts_follow_each_other(seq![seq![a]], seq![b], seq![' ']);
    assert(seq![seq![a]].push(seq![b]) =~= parts);
    law_joined_parts_follow_each_other(Seq::empty(), seq![a], seq![' ']);
    assert(joined(parts, seq![' ']) =~= seq![a, ' ', b]);
    let empty = Seq::<Seq<char>>::empty();
    law_sequences_are_read_token_by_token(empty, Seq::empty(), seq![a]);
    assert(token_key(seq![a]) == Some(bare(KeyCode::Char(a))));
    assert(empty.push(seq![a]) =~= seq![seq![a]]);
    let one = seq![bare(KeyCode::Char(a))];
    assert(Seq::<KeyEvent>::empty().push(bare(KeyCode::Char(a))) =~= one);
    law_sequences_are_read_token_by_token(seq![seq![a]], one, seq![b]);
    assert(one.push(bare(KeyCode::Char(b))) =~= seq![
        bare(KeyCode::Char(a)),
        bare(KeyCode::Char(b)),
    ]);
    let single = seq![seq![a]];
    assert forall|i: int| 0 <= i < single.len() implies !(#[trigger] single[i]).contains(' ') by {}
    law_join_then_split(single, ' ');
}

/// Every setting binds the action that it is named after, and no other setting does.
pub proof fn law_settings_bind_their_action(config: KeymapConfig, text: String)
    requires
        normal_sequence(text@) is Some,
        others_unset(config, text),
    ensures
        ({
            let keys = normal_sequence(text@)->0;
            let bound = bound_action(configured_bindings(config), keys);
            &&& config.enter_insert is Some ==> bound == Some(NormalAction::EnterInsert)
            &&& config.save is Some ==> bound == Some(NormalAction::Save)
            &&& config.quit is Some ==> bound == Some(NormalAction::Quit)
            &&& config.toggle_preview is Some ==> bound == Some(NormalAction::TogglePreview)
            &&& config.link_select is Some ==> bound == Some(NormalAction::EnterLinkSelect)
            &&& config.search_literal is Some ==> bound == Some(NormalAction::EnterLiteralSearch)
            &&& config.search_regex is Some ==> bound == Some(NormalAction::EnterRegexSearch)
        }),
{
    let keys = normal_sequence(text@)->0;
    lemma_normal_keys_len(key_sequence(text@)->0);
    let t = normal_bindings();
    law_overrides_take_effect(t, keys, NormalAction::EnterInsert, keys);
    law_overrides_take_effect(t, keys, NormalAction::Save, keys);
    law_overrides_take_effect(t, keys, NormalAction::Quit, keys);
    law_overrides_take_effect(t, keys, NormalAction::TogglePreview, keys);
    law_overrides_take_effect(t, keys, NormalAction::EnterLinkSelect, keys);
    law_overrides_take_effect(t, keys, NormalAction::EnterLiteralSearch, keys);
    law_overrides_take_effect(t, keys, NormalAction::EnterRegexSearch, keys);
}

proof fn lemma_normal_keys_len(keys: Seq<KeyEvent>)
    ensures
        normal_keys(keys) matches Some(n) ==> n.len() == keys.len(),
    decreases keys.len(),
{
    if keys.len() > 0 {
        lemma_normal_keys_len(keys.drop_last());
    }
}

/// One setting for Normal mode is made, with this text, and no other one.
pub open spec fn others_unset(config: KeymapConfig, text: String) -> bool {
    let made = seq![
        config.enter_insert,
        config.save,
        config.quit,
        config.toggle_preview,
        config.link_select,
        config.search_literal,
        config.search_regex,
    ];
    exists|k: int|
        0 <= k < 7 && #[trigger] made[k] == Some(text) && forall|j: int|
            0 <= j < 7 && j != k ==> (#[trigger] made[j]) is None
}

/// The key that leaves Insert mode can be set to any single key; a longer sequence does not count.
pub proof fn law_the_exit_key_is_a_single_key(text: String, k: KeyEvent)
    ensures
        key_sequence(text@) == Some(seq![k]) ==> exit_key(Some(text)) == Some(k),
        key_sequence(text@) matches Some(keys) ==> (keys.len() != 1 ==> exit_key(Some(text))
            is None),
        exit_key(None) is None,
{
}

proof fn lemma_bound_push(table: Seq<BindingView>, last: BindingView, keys: Seq<NormalKey>)
    ensures
        bound_action(table.push(last), keys) == (match bound_action(table, keys) {
            Some(a) => Some(a),
            None => if last.keys == keys {
                Some(last.action)
            } else {
                None
            },
        }),
    decreases table.len(),
{
    let all = table.push(last);
    if table.len() == 0 {
        assert(all.drop_first() =~= Seq::<BindingView>::empty());
        assert(bound_action(all.drop_first(), keys) is None);
    } else {
        assert(all[0] == table[0]);
        assert(all.drop_first() =~= table.drop_first().push(last));
        lemma_bound_push(table.drop_first(), last, keys);
    }
}

/// A setting leaves the other bindings alone: the keys of another action still give it, unless they
/// would be complete before the keys of the setting are.
pub proof fn law_settings_leave_other_bindings(
    table: Seq<BindingView>,
    keys: Seq<NormalKey>,
    action: NormalAction,
    typed: Seq<NormalKey>,
    other: NormalAction,
)
    requires
        bound_action(table, typed) == Some(other),
        other != action,
        !typed.is_prefix_of(keys),
    ensures
        bound_action(rebound(table, keys, action), typed) == Some(other),
{
    lemma_left_bindings(table, keys, action, typed, other);
    let t = rebound(table, keys, action);
    assert(t.drop_first() =~= left_beside(table, keys, action));
    if keys == typed {
        assert(typed =~= keys.subrange(0, typed.len() as int));
    }
}

proof fn lemma_left_bindings(
    table: Seq<BindingView>,
    keys: Seq<NormalKey>,
    action: NormalAction,
    typed: Seq<NormalKey>,
    other: NormalAction,
)
    requires
        !typed.is_prefix_of(keys),
        other != action,
    ensures
        bound_action(table, typed) == Some(other) ==> bound_action(
            left_beside(table, keys, action),
            typed,
        ) == Some(other),
        bound_action(table, typed) is None ==> bound_action(
            left_beside(table, keys, action),
            typed,
        ) is None,
    decreases table.len(),
{
    if table.len() > 0 {
        let front = table.drop_last();
        let last = table.last();
        lemma_left_bindings(front, keys, action, typed, other);
        assert(table =~= front.push(last));
        lemma_bound_push(front, last, typed);
        lemma_bound_push(left_beside(front, keys, action), last, typed);
    }
}

/// A key with Alt has no meaning in Normal mode, and neither has one that goes on with no sequence:
/// it ends the one that is pending.
pub proof fn law_other_keys_end_a_sequence(s: KeymapView, key: KeyEvent, now: u64)
    ensures
        key.modifiers.alt ==> gives(s, key, now, EditorAction::Unbound),
        normal_key(key) matches Some(k) ==> (bound_action(s.bindings, s.pending + seq![k]) is None
            && !starts_sequence(s.bindings, s.pending + seq![k]) ==> gives(
            s,
            key,
            now,
            EditorAction::Unbound,
        )),
{
    if let Some(k) = normal_key(key) {
        assert(s.pending.push(k) =~= s.pending + seq![k]);
    }
}

} // verus!
