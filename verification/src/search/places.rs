//! Where the matches of a search stand, in rows and columns.
use vstd::prelude::*;

use crate::search::{
    MatchView, SearchKind, SearchView, column, each_position, lemma_position_of,
    literal_matches_from, match_between, newlines, ordered_spans, position_of, regex_compiled,
    regex_spans, span_matches,
};
use crate::text::{
    byte_len, first_at, index_of_byte, joined, lemma_first_at, lemma_index_of_byte, lowercased,
    occurs_at,
};

verus! {

/// The place of a character in a text of lines that are joined by line feeds: its row and column.
pub open spec fn at_row_and_column(lines: Seq<Seq<char>>, i: int, row: int, col: int) -> bool {
    &&& 0 <= row < lines.len()
    &&& 0 <= col <= lines[row].len()
    &&& i == col + if row == 0 {
        0
    } else {
        joined(lines.take(row), seq!['\n']).len() + 1
    }
}

/// No line holds a line feed.
pub open spec fn are_lines(lines: Seq<Seq<char>>) -> bool {
    forall|k: int, j: int|
        0 <= k < lines.len() && 0 <= j < lines[k].len() ==> #[trigger] lines[k][j] != '\n'
}

proof fn lemma_column_behind(front: Seq<char>, part: Seq<char>)
    requires
        forall|j: int| 0 <= j < part.len() ==> #[trigger] part[j] != '\n',
        front.len() == 0 || front.last() == '\n',
    ensures
        newlines(front + part) == newlines(front),
        column(front + part) == part.len(),
    decreases part.len(),
{
    let all = front + part;
    if part.len() == 0 {
        assert(all =~= front);
    } else {
        assert(all.last() == part[part.len() - 1]);
        assert(all.drop_last() =~= front + part.drop_last());
        lemma_column_behind(front, part.drop_last());
    }
}

proof fn lemma_newlines_of_lines(lines: Seq<Seq<char>>)
    requires
        lines.len() > 0,
        are_lines(lines),
    ensures
        newlines(joined(lines, seq!['\n'])) == lines.len() - 1,
    decreases lines.len(),
{
    let last = lines[lines.len() - 1];
    if lines.len() == 1 {
        assert(Seq::<char>::empty() + last =~= last);
        lemma_column_behind(Seq::empty(), last);
    } else {
        let front = lines.drop_last();
        assert forall|k: int, j: int|
            0 <= k < front.len() && 0 <= j < front[k].len() implies #[trigger] front[k][j]
            != '\n' by {
            assert(front[k][j] == lines[k][j]);
        }
        lemma_newlines_of_lines(front);
        let head = joined(front, seq!['\n']) + seq!['\n'];
        assert(head.drop_last() =~= joined(front, seq!['\n']));
        assert(head.last() == '\n');
        lemma_column_behind(head, last);
    }
}

proof fn lemma_joined_prefix(lines: Seq<Seq<char>>, n: int)
    requires
        0 < n <= lines.len(),
    ensures
        joined(lines.take(n), seq!['\n']).is_prefix_of(joined(lines, seq!['\n'])),
    decreases lines.len(),
{
    let all = joined(lines, seq!['\n']);
    if n == lines.len() {
        assert(lines.take(n) =~= lines);
        assert(all.subrange(0, all.len() as int) =~= all);
    } else {
        let front = joined(lines.drop_last(), seq!['\n']);
        lemma_joined_prefix(lines.drop_last(), n);
        assert(lines.drop_last().take(n) =~= lines.take(n));
        let p = joined(lines.take(n), seq!['\n']);
        assert(p =~= front.subrange(0, p.len() as int));
        assert(p =~= all.subrange(0, p.len() as int));
    }
}

/// The start of a text up to a row and column: the rows above, and the start of the row.
proof fn lemma_text_before(lines: Seq<Seq<char>>, i: int, row: int, col: int)
    requires
        at_row_and_column(lines, i, row, col),
    ensures
        0 <= i <= joined(lines, seq!['\n']).len(),
        i - col + lines[row].len() <= joined(lines, seq!['\n']).len(),
        joined(lines, seq!['\n']).subrange(i - col, i - col + lines[row].len()) == lines[row],
        joined(lines, seq!['\n']).take(i) == (if row == 0 {
            Seq::<char>::empty()
        } else {
            joined(lines.take(row), seq!['\n']) + seq!['\n']
        }) + lines[row].take(col),
{
    let all = joined(lines, seq!['\n']);
    let upto = joined(lines.take(row + 1), seq!['\n']);
    lemma_joined_prefix(lines, row + 1);
    assert(upto =~= all.subrange(0, upto.len() as int));
    let above = if row == 0 {
        Seq::<char>::empty()
    } else {
        joined(lines.take(row), seq!['\n']) + seq!['\n']
    };
    if row == 0 {
        assert(lines.take(1) =~= seq![lines[0]]);
        assert(upto == lines[0]);
    } else {
        assert(lines.take(row + 1).drop_last() =~= lines.take(row));
        assert(lines.take(row + 1).last() == lines[row]);
    }
    assert(upto =~= above + lines[row]);
    assert(above.len() == i - col);
    assert forall|k: int| 0 <= k < lines[row].len() implies all[i - col + k]
        == #[trigger] lines[row][k] by {
        assert(upto[i - col + k] == lines[row][k]);
        assert(all[i - col + k] == upto[i - col + k]);
    }
    assert(all.subrange(i - col, i - col + lines[row].len()) =~= lines[row]);
    assert forall|k: int| 0 <= k < i implies #[trigger] all.take(i)[k] == (above + lines[row].take(
        col,
    ))[k] by {
        assert(all[k] == upto[k]);
        assert(upto[k] == (above + lines[row])[k]);
    }
    assert(all.take(i) =~= above + lines[row].take(col));
}

/// The row and column of a match are those of the text: as many rows stand above it as there are
/// line feeds before it, and the column counts the characters of its row.
pub proof fn law_places_are_rows_and_columns(lines: Seq<Seq<char>>, i: int, row: int, col: int)
    requires
        are_lines(lines),
        at_row_and_column(lines, i, row, col),
    ensures
        ({
            let text = joined(lines, seq!['\n']);
            newlines(text.take(i)) == row && column(text.take(i)) == col
        }),
{
    lemma_text_before(lines, i, row, col);
    let above = if row == 0 {
        Seq::<char>::empty()
    } else {
        joined(lines.take(row), seq!['\n']) + seq!['\n']
    };
    let part = lines[row].take(col);
    assert forall|j: int| 0 <= j < part.len() implies #[trigger] part[j] != '\n' by {
        assert(part[j] == lines[row][j]);
    }
    if row > 0 {
        let front = lines.take(row);
        assert forall|k: int, j: int|
            0 <= k < front.len() && 0 <= j < front[k].len() implies #[trigger] front[k][j]
            != '\n' by {
            assert(front[k][j] == lines[k][j]);
        }
        lemma_newlines_of_lines(front);
        assert(above.drop_last() =~= joined(front, seq!['\n']));
        assert(above.last() == '\n');
    }
    lemma_column_behind(above, part);
}

/// Every position of a text of lines has a row and a column.
pub proof fn lemma_row_and_column(lines: Seq<Seq<char>>, i: int) -> (r: (int, int))
    requires
        lines.len() > 0,
        0 <= i <= joined(lines, seq!['\n']).len(),
    ensures
        at_row_and_column(lines, i, r.0, r.1),
    decreases lines.len(),
{
    if lines.len() == 1 {
        (0, i)
    } else {
        let front = lines.drop_last();
        let n = joined(front, seq!['\n']).len();
        assert(front =~= lines.take(lines.len() - 1));
        if i <= n {
            let r = lemma_row_and_column(front, i);
            assert(front.take(r.0) =~= lines.take(r.0));
            r
        } else {
            (lines.len() - 1, i - n - 1)
        }
    }
}

/// The match stands at a position of the text: it begins there and is as long as the pattern, and
/// its row and column are those of the position.
pub open spec fn stands_at(lines: Seq<Seq<char>>, pattern: Seq<char>, m: MatchView, i: int) -> bool {
    let text = joined(lines, seq!['\n']);
    &&& occurs_at(text, pattern, i)
    &&& at_row_and_column(lines, i, m.line as int, m.col as int)
    &&& m.byte_start == byte_len(text.take(i))
    &&& m.byte_end == byte_len(text.take(i + pattern.len()))
}

/// The positions of the matches of `needle` from `at` on.
spec fn starts(haystack: Seq<char>, needle: Seq<char>, at: int) -> Seq<int>
    decreases haystack.len() - at,
{
    match first_at(haystack, needle, at) {
        Some(i) => if 0 <= at <= i && 0 < needle.len() && i + needle.len() <= haystack.len() {
            seq![i] + starts(haystack, needle, i + needle.len())
        } else {
            Seq::empty()
        },
        None => Seq::empty(),
    }
}

proof fn lemma_found_at_starts(text: Seq<char>, needle: Seq<char>, at: int, k: int)
    requires
        0 <= at,
        needle.len() > 0,
    ensures
        ({
            let found = literal_matches_from(text, text, each_position(text.len()), needle, at);
            let starts = starts(text, needle, at);
            &&& found.len() == starts.len()
            &&& 0 <= k < found.len() ==> found[k] == match_between(
                text,
                starts[k],
                starts[k] + needle.len(),
            )
        }),
    decreases text.len() - at,
{
    lemma_first_at(text, needle, at);
    let from = each_position(text.len());
    if let Some(i) = first_at(text, needle, at) {
        let next = i + needle.len();
        lemma_found_at_starts(text, needle, next, k - 1);
        lemma_position_of(from, next, next);
        assert(from[next - 1] == next - 1);
        assert(from[i] == i);
        assert(position_of(from, next, next) == next);
        let found = literal_matches_from(text, text, from, needle, at);
        let rest = literal_matches_from(text, text, from, needle, next);
        assert(found == seq![match_between(text, i, next)] + rest);
        assert(starts(text, needle, at) == seq![i] + starts(text, needle, next));
        if 0 < k < found.len() {
            assert(found[k] == rest[k - 1]);
            assert(starts(text, needle, at)[k] == starts(text, needle, next)[k - 1]);
        }
    }
}

proof fn lemma_starts_are_occurrences(text: Seq<char>, needle: Seq<char>, at: int, k: int)
    requires
        0 <= at,
        needle.len() > 0,
        0 <= k < starts(text, needle, at).len(),
    ensures
        at <= starts(text, needle, at)[k],
        occurs_at(text, needle, starts(text, needle, at)[k]),
        forall|j: int|
            0 <= j < k ==> #[trigger] starts(text, needle, at)[j] + needle.len() <= starts(
                text,
                needle,
                at,
            )[k],
    decreases text.len() - at,
{
    lemma_first_at(text, needle, at);
    let i = first_at(text, needle, at)->0;
    let next = i + needle.len();
    let all = starts(text, needle, at);
    let rest = starts(text, needle, next);
    assert(all == seq![i] + rest);
    assert(all[0] == i);
    if k > 0 {
        lemma_starts_are_occurrences(text, needle, next, k - 1);
        assert(all[k] == rest[k - 1]);
        assert forall|j: int| 0 <= j < k implies #[trigger] all[j] + needle.len() <= all[k] by {
            if j > 0 {
                assert(all[j] == rest[j - 1]);
            }
        }
    }
}

proof fn lemma_occurrences_are_covered(text: Seq<char>, needle: Seq<char>, at: int, o: int) -> (k:
    int)
    requires
        0 <= at <= o,
        needle.len() > 0,
        occurs_at(text, needle, o),
    ensures
        0 <= k < starts(text, needle, at).len(),
        starts(text, needle, at)[k] <= o < starts(text, needle, at)[k] + needle.len(),
    decreases text.len() - at,
{
    lemma_first_at(text, needle, at);
    let i = first_at(text, needle, at)->0;
    let next = i + needle.len();
    let all = starts(text, needle, at);
    let rest = starts(text, needle, next);
    assert(all == seq![i] + rest);
    if o < next {
        assert(all[0] == i);
        0
    } else {
        let k = lemma_occurrences_are_covered(text, needle, next, o);
        assert(all[k + 1] == rest[k]);
        k + 1
    }
}

/// A literal search finds the pattern, all of it and nothing else: every match stands where the
/// pattern occurs, with the row and column of that place; the matches come in the order of the text
/// and share no character; and every place at which the pattern occurs belongs to one of them.
pub proof fn law_literal_matches_are_the_occurrences(
    s: SearchView,
    lines: Seq<Seq<char>>,
) -> (starts: Seq<int>)
    requires
        s.kind == SearchKind::Literal,
        !s.case_insensitive,
        s.pattern.len() > 0,
        lines.len() > 0,
        are_lines(lines),
    ensures
        ({
            let text = joined(lines, seq!['\n']);
            let matches = s.recomputed(text).matches;
            &&& starts.len() == matches.len()
            &&& forall|k: int|
                0 <= k < matches.len() ==> stands_at(
                    lines,
                    s.pattern,
                    #[trigger] matches[k],
                    starts[k],
                )
            &&& forall|j: int, k: int|
                0 <= j < k < starts.len() ==> #[trigger] starts[j] + s.pattern.len()
                    <= #[trigger] starts[k]
            &&& forall|i: int|
                0 <= i && #[trigger] occurs_at(text, s.pattern, i) ==> exists|k: int|
                    0 <= k < starts.len() && #[trigger] starts[k] <= i && i < starts[k]
                        + s.pattern.len()
        }),
{
    let text = joined(lines, seq!['\n']);
    lemma_found_at_starts(text, s.pattern, 0, 0);
    let all = self::starts(text, s.pattern, 0);
    let matches = s.recomputed(text).matches;
    assert(matches == literal_matches_from(text, text, each_position(text.len()), s.pattern, 0));
    assert forall|k: int| 0 <= k < matches.len() implies stands_at(
        lines,
        s.pattern,
        #[trigger] matches[k],
        all[k],
    ) by {
        lemma_found_at_starts(text, s.pattern, 0, k);
        lemma_starts_are_occurrences(text, s.pattern, 0, k);
        let (row, col) = lemma_row_and_column(lines, all[k]);
        law_places_are_rows_and_columns(lines, all[k], row, col);
    }
    assert forall|j: int, k: int| 0 <= j < k < all.len() implies #[trigger] all[j]
        + s.pattern.len() <= #[trigger] all[k] by {
        lemma_starts_are_occurrences(text, s.pattern, 0, k);
    }
    assert forall|i: int| 0 <= i && #[trigger] occurs_at(text, s.pattern, i) implies exists|k: int|
        0 <= k < all.len() && #[trigger] all[k] <= i && i < all[k] + s.pattern.len() by {
        let k = lemma_occurrences_are_covered(text, s.pattern, 0, i);
        assert(all[k] <= i);
    }
    all
}

/// Where a match of a pattern without line feeds stands, the text reads like the pattern.
pub proof fn law_the_text_reads_like_the_pattern(
    lines: Seq<Seq<char>>,
    pattern: Seq<char>,
    m: MatchView,
    i: int,
)
    requires
        stands_at(lines, pattern, m, i),
        pattern.len() > 0,
        !pattern.contains('\n'),
    ensures
        m.line < lines.len(),
        m.col + pattern.len() <= lines[m.line as int].len(),
        lines[m.line as int].subrange(m.col as int, (m.col + pattern.len()) as int) == pattern,
{
    let text = joined(lines, seq!['\n']);
    let (row, col) = (m.line as int, m.col as int);
    let line = lines[row];
    lemma_text_before(lines, i, row, col);
    let start = i - col;
    assert(text.subrange(start, start + line.len()) == line);
    if col + pattern.len() > line.len() {
        // The line feed behind the row would belong to the pattern.
        let end = start + line.len();
        assert(text.subrange(i, i + pattern.len())[end - i] == text[end]);
        assert(row + 1 < lines.len()) by {
            if row + 1 == lines.len() {
                if row == 0 {
                    assert(text == lines[0]);
                } else {
                    assert(lines.drop_last() =~= lines.take(row));
                    assert(text.len() == start + line.len());
                }
            }
        }
        assert(lines.take(row + 1).take(row) =~= lines.take(row));
        let upto = joined(lines.take(row + 1), seq!['\n']);
        if row == 0 {
            assert(lines.take(1) =~= seq![lines[0]]);
        } else {
            assert(lines.take(row + 1).drop_last() =~= lines.take(row));
        }
        assert(upto.len() == end);
        assert(at_row_and_column(lines, end + 1, row + 1, 0));
        lemma_text_before(lines, end + 1, row + 1, 0);
        assert(text.take(end + 1)[end] == '\n');
        assert(pattern.contains('\n'));
    }
    assert forall|k: int| 0 <= k < pattern.len() implies #[trigger] line.subrange(
        col,
        col + pattern.len(),
    )[k] == pattern[k] by {
        assert(text.subrange(i, i + pattern.len())[k] == text[i + k]);
        assert(text.subrange(start, start + line.len())[col + k] == text[i + k]);
    }
    assert(line.subrange(col, col + pattern.len()) =~= pattern);
}

/// Stepping forward selects the match behind the current one, stepping back the one before it. At
/// the ends a search that wraps around goes on at the other end, and one that does not stays.
pub proof fn law_steps_select_the_neighbours(s: SearchView)
    requires
        s.current < s.matches.len(),
    ensures
        ({
            let last = s.matches.len() - 1;
            &&& s.current < last ==> s.next().current == s.current + 1
            &&& s.current == last && s.wrap ==> s.next().current == 0
            &&& s.current == last && !s.wrap ==> s.next().current == s.current
            &&& s.current > 0 ==> s.prev().current == s.current - 1
            &&& s.current == 0 && s.wrap ==> s.prev().current == last
            &&& s.current == 0 && !s.wrap ==> s.prev().current == s.current
            &&& s.next() == (SearchView { current: s.next().current, ..s })
            &&& s.prev() == (SearchView { current: s.prev().current, ..s })
        }),
{
    let n = s.matches.len();
    if s.current + 1 < n {
        vstd::arithmetic::div_mod::lemma_small_mod(s.current + 1, n);
    } else {
        vstd::arithmetic::div_mod::lemma_mod_self_0(n as int);
    }
}

/// Searching anew keeps the number of the current match, or takes the last match where there are
/// not so many any more. The pattern and the settings stay.
pub proof fn law_searching_anew_keeps_the_current_match(s: SearchView, text: Seq<char>)
    ensures
        ({
            let t = s.recomputed(text);
            &&& t == (SearchView { matches: t.matches, current: t.current, ..s })
            &&& s.current < t.matches.len() ==> t.current == s.current
            &&& 0 < t.matches.len() <= s.current ==> t.current == t.matches.len() - 1
            &&& s.pattern.len() == 0 ==> t.matches.len() == 0
        }),
{
}

/// Where case does not matter, two patterns with one lower case find the same.
pub proof fn law_case_does_not_matter(a: SearchView, b: SearchView, text: Seq<char>)
    requires
        a.kind == SearchKind::Literal,
        b.kind == SearchKind::Literal,
        a.case_insensitive,
        b.case_insensitive,
        a.pattern.len() > 0,
        b.pattern.len() > 0,
        lowercased(a.pattern) == lowercased(b.pattern),
    ensures
        a.found(text) == b.found(text),
{
}

/// A regular expression is searched as it is typed, or with the mark for ignoring case before it.
/// One that is not valid finds nothing.
pub proof fn law_regular_expressions_are_taken_as_typed(s: SearchView, text: Seq<char>)
    requires
        s.kind == SearchKind::Regex,
        s.pattern.len() > 0,
    ensures
        ({
            let pattern = if s.case_insensitive {
                seq!['(', '?', 'i', ')'] + s.pattern
            } else {
                s.pattern
            };
            &&& regex_compiled(pattern) is None ==> s.found(text).len() == 0
            &&& regex_compiled(pattern) matches Some(re) ==> s.found(text) == span_matches(
                text,
                regex_spans(re, text),
            )
        }),
{
    reveal_strlit("(?i)");
    assert("(?i)"@ =~= seq!['(', '?', 'i', ')']);
}

/// Every range of the text that a regular expression finds becomes a match, in order, with the row
/// and column at which the range begins.
pub proof fn law_ranges_become_matches(
    lines: Seq<Seq<char>>,
    spans: Seq<(usize, usize)>,
    k: int,
)
    requires
        lines.len() > 0,
        are_lines(lines),
        ordered_spans(spans, joined(lines, seq!['\n'])),
        0 <= k < spans.len(),
    ensures
        ({
            let text = joined(lines, seq!['\n']);
            let found = span_matches(text, spans);
            &&& found.len() == spans.len()
            &&& found[k].byte_start == spans[k].0
            &&& found[k].byte_end == spans[k].1
            &&& index_of_byte(text, spans[k].0 as nat) matches Some(i) && at_row_and_column(
                lines,
                i as int,
                found[k].line as int,
                found[k].col as int,
            )
        }),
    decreases spans.len(),
{
    let text = joined(lines, seq!['\n']);
    let front = spans.drop_last();
    let last = spans[spans.len() - 1];
    assert(index_of_byte(text, last.0 as nat) is Some);
    assert(ordered_spans(front, text)) by {
        assert forall|j: int| 0 <= j < front.len() implies front[j] == spans[j] by {}
    }
    lemma_all_ranges(text, front);
    if k < spans.len() - 1 {
        law_ranges_become_matches(lines, front, k);
        assert(span_matches(text, spans)[k] == span_matches(text, front)[k]);
        assert(front[k] == spans[k]);
    } else {
        let i = index_of_byte(text, last.0 as nat)->0 as int;
        lemma_index_of_byte(text, last.0 as nat);
        let (row, col) = lemma_row_and_column(lines, i);
        law_places_are_rows_and_columns(lines, i, row, col);
    }
}

proof fn lemma_all_ranges(text: Seq<char>, spans: Seq<(usize, usize)>)
    requires
        ordered_spans(spans, text),
    ensures
        span_matches(text, spans).len() == spans.len(),
    decreases spans.len(),
{
    if spans.len() > 0 {
        let front = spans.drop_last();
        assert(ordered_spans(front, text)) by {
            assert forall|j: int| 0 <= j < front.len() implies front[j] == spans[j] by {}
        }
        lemma_all_ranges(text, front);
        let last = spans[spans.len() - 1];
        assert(index_of_byte(text, last.0 as nat) is Some);
    }
}

} // verus!
