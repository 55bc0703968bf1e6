//! What searching does, in rows and columns.
use vstd::prelude::*;

use crate::app::commands::tells;
use crate::app::model::{AppView, escaped};
use crate::app::NotificationLevel;
use crate::keymap::EditorAction;
use crate::search::places::{
    are_lines, law_literal_matches_are_the_occurrences, law_steps_select_the_neighbours,
    law_the_text_reads_like_the_pattern, stands_at,
};
use crate::search::{LARGE_DOC_THRESHOLD_BYTES, MatchView, SearchKind, SearchView, regex_compiled};
use crate::text::{byte_len, joined, occurs_at};
use crate::textarea::{TextAreaView, in_text};

verus! {

/// The matches stand in the text of the text area.
pub open spec fn stand_in_text(matches: Seq<MatchView>, textarea: TextAreaView) -> bool {
    forall|k: int|
        0 <= k < matches.len() ==> in_text(
            textarea.lines,
            ((#[trigger] matches[k]).line, matches[k].col),
        )
}

/// The application with another match selected and the cursor on it, and nothing else changed.
pub open spec fn at_match(app: AppView, s: SearchView, k: int) -> AppView {
    AppView {
        search: Some(SearchView { current: k as nat, ..s }),
        textarea: TextAreaView {
            cursor: (s.matches[k].line, s.matches[k].col),
            ..app.textarea
        },
        ..app
    }
}

/// `n` selects the match behind the current one and puts the cursor on it, `N` the one before it.
/// Where the search wraps around, `n` goes from the last match to the first and `N` from the first
/// to the last; where it does not, they stay. Nothing else changes.
pub proof fn law_search_steps(app: AppView, s: SearchView, typed: TextAreaView, now: u64)
    requires
        app.search == Some(s),
        s.current < s.matches.len(),
        stand_in_text(s.matches, app.textarea),
    ensures
        ({
            let last = s.matches.len() - 1;
            let next = app.after_action(EditorAction::SearchNext, typed, now);
            let prev = app.after_action(EditorAction::SearchPrev, typed, now);
            &&& s.current < last ==> next.0 == at_match(app, s, 1 + s.current as int)
            &&& s.current == last && s.wrap ==> next.0 == at_match(app, s, 0)
            &&& s.current == last && !s.wrap ==> next.0 == at_match(app, s, last)
            &&& s.current > 0 ==> prev.0 == at_match(app, s, s.current - 1)
            &&& s.current == 0 && s.wrap ==> prev.0 == at_match(app, s, last)
            &&& s.current == 0 && !s.wrap ==> prev.0 == at_match(app, s, 0)
            &&& next.1 is Nothing
            &&& prev.1 is Nothing
        }),
{
    lemma_step(app, s, true, typed, now);
    lemma_step(app, s, false, typed, now);
}

/// The match behind a match, or the one before it.
spec fn neighbour(s: SearchView, forward: bool) -> int {
    let last = s.matches.len() - 1;
    if forward {
        if s.current < last {
            1 + s.current as int
        } else if s.wrap {
            0
        } else {
            last
        }
    } else if s.current > 0 {
        s.current - 1
    } else if s.wrap {
        last
    } else {
        0
    }
}

proof fn lemma_step(app: AppView, s: SearchView, forward: bool, typed: TextAreaView, now: u64)
    requires
        app.search == Some(s),
        s.current < s.matches.len(),
        stand_in_text(s.matches, app.textarea),
    ensures
        ({
            let action = if forward {
                EditorAction::SearchNext
            } else {
                EditorAction::SearchPrev
            };
            let (after, effect) = app.after_action(action, typed, now);
            after == at_match(app, s, neighbour(s, forward)) && effect is Nothing
        }),
{
    reveal(AppView::after_search_action);
    reveal(AppView::search_stepped);
    law_steps_select_the_neighbours(s);
    let t = if forward {
        s.next()
    } else {
        s.prev()
    };
    let k = neighbour(s, forward);
    assert(t =~= SearchView { current: k as nat, ..s });
    assert(t.current_match() == Some(s.matches[k]));
    assert(in_text(app.textarea.lines, (s.matches[k].line, s.matches[k].col)));
    assert(app.search_stepped(forward, now) =~= at_match(app, s, k));
}

/// `n` and `N` take each other back: where the search wraps around, each after the other selects
/// the match that was selected before, with the cursor on it.
pub proof fn law_search_steps_take_each_other_back(
    app: AppView,
    s: SearchView,
    typed: TextAreaView,
    now: u64,
)
    requires
        app.search == Some(s),
        s.wrap,
        s.current < s.matches.len(),
        stand_in_text(s.matches, app.textarea),
    ensures
        ({
            let next = app.after_action(EditorAction::SearchNext, typed, now).0;
            let prev = app.after_action(EditorAction::SearchPrev, typed, now).0;
            let there_and_back = next.after_action(EditorAction::SearchPrev, typed, now).0;
            let back_and_there = prev.after_action(EditorAction::SearchNext, typed, now).0;
            let m = s.matches[s.current as int];
            &&& there_and_back == at_match(app, s, s.current as int)
            &&& back_and_there == at_match(app, s, s.current as int)
            &&& there_and_back.search == app.search
            &&& back_and_there.search == app.search
            &&& app.textarea.cursor == (m.line, m.col) ==> there_and_back == app
                && back_and_there == app
        }),
{
    let forth = neighbour(s, true);
    let back = neighbour(s, false);
    lemma_step(app, s, true, typed, now);
    lemma_step(app, s, false, typed, now);
    let s_forth = SearchView { current: forth as nat, ..s };
    let s_back = SearchView { current: back as nat, ..s };
    lemma_step(at_match(app, s, forth), s_forth, false, typed, now);
    lemma_step(at_match(app, s, back), s_back, true, typed, now);
    let k = s.current as int;
    assert(neighbour(s_forth, false) == k);
    assert(neighbour(s_back, true) == k);
    assert(at_match(at_match(app, s, forth), s_forth, k) =~= at_match(app, s, k));
    assert(at_match(at_match(app, s, back), s_back, k) =~= at_match(app, s, k));
    if app.textarea.cursor == (s.matches[k].line, s.matches[k].col) {
        assert(at_match(app, s, k) =~= app);
    }
}

/// Without a match the cursor stays where it is, and where there is a pattern a message says that
/// it was not found. Without a search nothing happens at all.
pub proof fn law_search_steps_need_matches(app: AppView, typed: TextAreaView, now: u64, next: bool)
    requires
        app.search matches Some(s) ==> s.matches.len() == 0,
    ensures
        ({
            let action = if next {
                EditorAction::SearchNext
            } else {
                EditorAction::SearchPrev
            };
            let (after, effect) = app.after_action(action, typed, now);
            &&& effect is Nothing
            &&& after == (AppView { notifications: after.notifications, ..app })
            &&& match app.search {
                Some(s) if s.pattern.len() > 0 => tells(
                    after,
                    app,
                    "No matches found"@,
                    NotificationLevel::Info,
                    now + 4000,
                ),
                _ => after == app,
            }
        }),
{
    reveal(AppView::after_search_action);
    reveal(AppView::search_stepped);
    let action = if next {
        EditorAction::SearchNext
    } else {
        EditorAction::SearchPrev
    };
    let after = app.after_action(action, typed, now).0;
    if after.notifications.len() > app.notifications.len() {
        assert(after.notifications.drop_last() =~= app.notifications);
    }
}

/// A search begins with no pattern and no match, of the kind that was asked for, and it remembers
/// where the cursor is. Whether case matters is up to the configuration.
pub proof fn law_a_search_begins_empty(app: AppView, typed: TextAreaView, now: u64, literal: bool)
    ensures
        ({
            let action = if literal {
                EditorAction::EnterLiteralSearch
            } else {
                EditorAction::EnterRegexSearch
            };
            let (after, effect) = app.after_action(action, typed, now);
            &&& effect is Nothing
            &&& after.mode is Search
            &&& after.saved_cursor == app.textarea.cursor
            &&& after.textarea == (TextAreaView { pattern: None, ..app.textarea })
            &&& after.search is Some
            &&& after.search->0.pattern.len() == 0
            &&& after.search->0.matches.len() == 0
            &&& after.search->0.current == 0
            &&& after.search->0.wrap
            &&& after.search->0.case_insensitive == app.config.editor.search_case_insensitive
            &&& literal ==> after.search->0.kind == SearchKind::Literal
            &&& !literal ==> after.search->0.kind == SearchKind::Regex
            &&& after == (AppView {
                mode: after.mode,
                saved_cursor: after.saved_cursor,
                textarea: after.textarea,
                search: after.search,
                ..app
            })
        }),
{
    reveal(AppView::after_search_action);
    reveal(AppView::searching);
}

/// Typing in a search adds to its pattern; the kind of the search and its settings stay. With a
/// match the cursor stands on the current one, without one it stays.
pub proof fn law_a_search_follows_its_pattern(
    app: AppView,
    s: SearchView,
    c: char,
    typed: TextAreaView,
    now: u64,
)
    requires
        app.search == Some(s),
        byte_len(app.content()) <= LARGE_DOC_THRESHOLD_BYTES,
    ensures
        ({
            let (more, effect) = app.after_action(EditorAction::SearchInput(c), typed, now);
            &&& more.search is Some
            &&& same_settings(more.search->0, s)
            &&& more.search->0.pattern == s.pattern + seq![c]
            &&& follows(more, app)
            &&& only_search_differs(more, app)
            &&& effect is Nothing
        }),
{
    reveal(AppView::after_search_action);
    reveal(AppView::search_input);
    assert(s.pattern.push(c) =~= s.pattern + seq![c]);
}

/// Backspace in a search takes the last character off its pattern; the kind of the search and its
/// settings stay. The cursor follows the matches, and returns to where the search began when there
/// is no pattern any more.
pub proof fn law_a_search_follows_its_shorter_pattern(
    app: AppView,
    s: SearchView,
    typed: TextAreaView,
    now: u64,
)
    requires
        app.search == Some(s),
        byte_len(app.content()) <= LARGE_DOC_THRESHOLD_BYTES,
    ensures
        ({
            let (less, effect) = app.after_action(EditorAction::SearchBackspace, typed, now);
            &&& less.search is Some
            &&& same_settings(less.search->0, s)
            &&& s.pattern.len() > 0 ==> less.search->0.pattern == s.pattern.take(
                s.pattern.len() - 1,
            )
            &&& s.pattern.len() == 0 ==> less.search->0.pattern == s.pattern
            &&& s.pattern.len() > 1 ==> follows(less, app)
            &&& s.pattern.len() <= 1 && in_text(app.textarea.lines, app.saved_cursor)
                ==> less.textarea.cursor == app.saved_cursor
            &&& only_search_differs(less, app)
            &&& effect is Nothing
        }),
{
    reveal(AppView::after_search_action);
    reveal(AppView::search_backspace);
    if s.pattern.len() > 0 {
        assert(s.pattern.drop_last() =~= s.pattern.take(s.pattern.len() - 1));
    }
}

/// The kind of a search, whether it wraps around and whether case matters.
pub open spec fn same_settings(a: SearchView, b: SearchView) -> bool {
    a.kind == b.kind && a.wrap == b.wrap && a.case_insensitive == b.case_insensitive
}

/// Only the search, the cursor and what is highlighted differ.
pub open spec fn only_search_differs(after: AppView, app: AppView) -> bool {
    after == (AppView {
        search: after.search,
        textarea: TextAreaView {
            cursor: after.textarea.cursor,
            pattern: after.textarea.pattern,
            ..app.textarea
        },
        ..app
    })
}

/// The cursor stands on the current match of the search, and where there is none it stays.
pub open spec fn follows(after: AppView, app: AppView) -> bool {
    &&& after.search is Some
    &&& if after.search->0.matches.len() == 0 {
        after.textarea.cursor == app.textarea.cursor
    } else {
        let k = after.search->0.current;
        &&& k < after.search->0.matches.len()
        &&& in_text(
            app.textarea.lines,
            (after.search->0.matches[k as int].line, after.search->0.matches[k as int].col),
        ) ==> after.textarea.cursor == (
            after.search->0.matches[k as int].line,
            after.search->0.matches[k as int].col,
        )
    }
}

/// Searching for a text finds it: while a literal pattern is typed and case matters, the cursor
/// stands where the text reads like the pattern, as soon as it does so anywhere; where it does not,
/// the cursor stays and there is no match.
pub proof fn law_the_cursor_stands_on_what_is_searched(
    app: AppView,
    s: SearchView,
    c: char,
    typed: TextAreaView,
    now: u64,
)
    requires
        app.textarea.valid(),
        are_lines(app.textarea.lines),
        app.search == Some(s),
        s.kind == SearchKind::Literal,
        !s.case_insensitive,
        !s.pattern.contains('\n'),
        c != '\n',
        byte_len(app.content()) <= LARGE_DOC_THRESHOLD_BYTES,
    ensures
        ({
            let after = app.after_action(EditorAction::SearchInput(c), typed, now).0;
            let pattern = s.pattern + seq![c];
            let (row, col) = (after.textarea.cursor.0 as int, after.textarea.cursor.1 as int);
            let text = joined(app.textarea.lines, seq!['\n']);
            if exists|i: int| 0 <= i && #[trigger] occurs_at(text, pattern, i) {
                &&& row < app.textarea.lines.len()
                &&& col + pattern.len() <= app.textarea.lines[row].len()
                &&& app.textarea.lines[row].subrange(col, col + pattern.len()) == pattern
            } else {
                &&& after.textarea.cursor == app.textarea.cursor
                &&& after.search matches Some(t) && t.matches.len() == 0
            }
        }),
{
    reveal_strlit("\n");
    assert("\n"@ =~= seq!['\n']);
    law_a_search_follows_its_pattern(app, s, c, typed, now);
    reveal(AppView::after_search_action);
    reveal(AppView::search_input);
    let lines = app.textarea.lines;
    let text = joined(lines, seq!['\n']);
    let t = SearchView { pattern: s.pattern.push(c), ..s };
    let pattern = s.pattern + seq![c];
    assert(t.pattern =~= pattern);
    let found = t.recomputed(text);
    let after = app.after_action(EditorAction::SearchInput(c), typed, now).0;
    assert(after.search == Some(found));
    let starts = law_literal_matches_are_the_occurrences(t, lines);
    if exists|i: int| 0 <= i && #[trigger] occurs_at(text, pattern, i) {
        let i = choose|i: int| 0 <= i && #[trigger] occurs_at(text, pattern, i);
        assert(occurs_at(text, t.pattern, i));
        assert(starts.len() > 0);
        let k = found.current as int;
        assert(stands_at(lines, t.pattern, found.matches[k], starts[k]));
        assert(!t.pattern.contains('\n')) by {
            if t.pattern.contains('\n') {
                let j = choose|j: int| 0 <= j < t.pattern.len() && t.pattern[j] == '\n';
                assert(j < s.pattern.len());
                assert(s.pattern[j] == '\n');
            }
        }
        law_the_text_reads_like_the_pattern(lines, t.pattern, found.matches[k], starts[k]);
    } else if found.matches.len() > 0 {
        assert(stands_at(lines, t.pattern, found.matches[0], starts[0]));
        assert(occurs_at(text, pattern, starts[0]));
    }
}

/// A search that is confirmed ends with the cursor on the current match, and keeps the pattern and
/// the matches, so that they can be stepped through. One that is called off ends where it began,
/// without a pattern.
pub proof fn law_the_end_of_a_search(app: AppView, s: SearchView, typed: TextAreaView, now: u64)
    requires
        app.search == Some(s),
    ensures
        ({
            let kept = app.after_action(EditorAction::CommitSearch, typed, now);
            let left = app.after_action(EditorAction::CancelSearch, typed, now);
            &&& kept.0.mode is Normal
            &&& left.0.mode is Normal
            &&& kept.0.search == app.search
            &&& kept.0.textarea.lines == app.textarea.lines
            &&& s.current < s.matches.len() && stand_in_text(s.matches, app.textarea)
                ==> kept.0.textarea.cursor == (
                s.matches[s.current as int].line,
                s.matches[s.current as int].col,
            )
            &&& s.current >= s.matches.len() ==> kept.0.textarea.cursor == app.textarea.cursor
            &&& left.0.search matches Some(t) && t.pattern.len() == 0 && t.matches.len() == 0
            &&& in_text(app.textarea.lines, app.saved_cursor) ==> left.0.textarea.cursor
                == app.saved_cursor
            &&& left.0.textarea.pattern is None
            &&& only_search_differs(
                AppView { mode: app.mode, style: app.style, ..kept.0 },
                app,
            )
            &&& only_search_differs(
                AppView { mode: app.mode, style: app.style, ..left.0 },
                app,
            )
            &&& kept.1 is Nothing
            &&& left.1 is Nothing
        }),
{
    reveal(AppView::after_search_action);
    reveal(AppView::search_committed);
    reveal(AppView::search_cancelled);
}

/// Letters, digits and blanks: characters that mean themselves in a regular expression.
pub open spec fn means_itself(s: Seq<char>) -> bool {
    forall|i: int|
        0 <= i < s.len() ==> {
            let c = #[trigger] s[i];
            c == ' ' || '0' <= c <= '9' || 'a' <= c <= 'z' || 'A' <= c <= 'Z'
        }
}

proof fn lemma_escaped_is_same(s: Seq<char>)
    requires
        means_itself(s),
    ensures
        escaped(s) == s,
    decreases s.len(),
{
    if s.len() > 0 {
        let front = s.drop_last();
        assert forall|i: int| 0 <= i < front.len() implies {
            let c = #[trigger] front[i];
            c == ' ' || '0' <= c <= '9' || 'a' <= c <= 'z' || 'A' <= c <= 'Z'
        } by {
            assert(front[i] == s[i]);
        }
        lemma_escaped_is_same(front);
        assert(s[s.len() - 1] == s.last());
        assert(s =~= front.push(s.last()));
    }
}

/// While a pattern is typed the text area highlights what it finds: the pattern itself, with the
/// mark for ignoring case before it where case does not matter. A pattern that is no valid regular
/// expression highlights nothing.
pub proof fn law_what_is_searched_is_highlighted(
    app: AppView,
    s: SearchView,
    c: char,
    typed: TextAreaView,
    now: u64,
)
    requires
        app.search == Some(s),
        s.kind == SearchKind::Regex || means_itself(s.pattern + seq![c]),
    ensures
        ({
            let after = app.after_action(EditorAction::SearchInput(c), typed, now).0;
            let pattern = if s.case_insensitive {
                seq!['(', '?', 'i', ')'] + (s.pattern + seq![c])
            } else {
                s.pattern + seq![c]
            };
            &&& regex_compiled(pattern) is Some ==> after.textarea.pattern == Some(pattern)
            &&& regex_compiled(pattern) is None ==> after.textarea.pattern is None
        }),
{
    reveal(AppView::after_search_action);
    reveal(AppView::search_input);
    reveal_strlit("(?i)");
    assert("(?i)"@ =~= seq!['(', '?', 'i', ')']);
    assert(s.pattern.push(c) =~= s.pattern + seq![c]);
    if s.kind != SearchKind::Regex {
        lemma_escaped_is_same(s.pattern + seq![c]);
    }
}

/// A character with a meaning in regular expressions is searched for as itself: it is highlighted
/// with a backslash before it.
pub proof fn law_characters_with_a_meaning_are_escaped(a: Seq<char>, c: char)
    requires
        c == '.' || c == '*' || c == '+' || c == '?' || c == '(' || c == ')' || c == '[' || c == ']'
            || c == '{' || c == '}' || c == '|' || c == '^' || c == '$' || c == '\\',
    ensures
        escaped(a.push(c)) == escaped(a) + seq!['\\', c],
{
    assert(a.push(c).drop_last() =~= a);
    assert(escaped(a).push('\\').push(c) =~= escaped(a) + seq!['\\', c]);
}

/// A document that is too large to be searched on every key keeps its matches while the pattern
/// changes.
pub proof fn law_large_documents_keep_their_matches(
    app: AppView,
    s: SearchView,
    c: char,
    typed: TextAreaView,
    now: u64,
)
    requires
        app.search == Some(s),
        byte_len(app.content()) > 524288,
    ensures
        ({
            let more = app.after_action(EditorAction::SearchInput(c), typed, now).0;
            &&& more.search is Some
            &&& more.search->0.pattern == s.pattern + seq![c]
            &&& more.search->0.matches == s.matches
            &&& more.search->0.current == s.current
        }),
{
    reveal(AppView::after_search_action);
    reveal(AppView::search_input);
    assert(s.pattern.push(c) =~= s.pattern + seq![c]);
}

} // verus!
