//! Incremental search in the document.
//!
//! A `SearchState` lives from the first `/` or `?` on. It keeps its pattern and its matches
//! across mode changes, so that `n` and `N` can walk through them.
//!
//! A match is given in characters (`line`, `col`), as the editor counts, and in bytes
//! (`byte_start`, `byte_end`).
//!
//! A literal search that ignores case looks for the lower-case pattern in the lower-case text. As
//! lower case can be longer, every position of the lower-case text is traced back to the character
//! that it came from: a match is always a range of characters of the text itself. A regex search
//! that ignores case puts `(?i)` in front of the pattern.
//!
//! The lower case of a text is as long as those of its characters together. Only which of two
//! forms a sigma takes depends on what stands around it.
use vstd::prelude::*;

use regex::Regex;

use crate::text::{
    all_ascii, ascii_lowercased, byte_len, byte_len_of, char_lowercased, chars_of, decimal,
    find_from, first_at, index_of_byte, lemma_byte_len_take, lemma_first_at, lemma_index_of_byte,
    lemma_index_of_byte_at, lowercase_chars, lowercased, occurs_at, to_decimal, to_lowercase,
    width_of,
};

pub mod places;

verus! {

/// Documents larger than this are not searched on every keystroke.
pub const LARGE_DOC_THRESHOLD_BYTES: usize = 524288;

#[verifier::external_type_specification]
#[verifier::external_body]
pub struct ExRegex(regex::Regex);

/// What `Regex::new` makes of a pattern; `None` where it is not a valid regular expression.
pub uninterp spec fn regex_compiled(pattern: Seq<char>) -> Option<Regex>;

/// The byte ranges that `Regex::find_iter` finds in a text.
pub uninterp spec fn regex_spans(re: Regex, text: Seq<char>) -> Seq<(usize, usize)>;

/// `Regex::new`: the result depends on the pattern alone.
#[verifier::external_body]
fn compile_regex(pattern: &str) -> (r: Option<Regex>)
    ensures
        r == regex_compiled(pattern@),
{
    Regex::new(pattern).ok()
}

/// Ranges of bytes that lie in `text` on character boundaries and follow one another without
/// overlap, no two from one start.
pub open spec fn ordered_spans(spans: Seq<(usize, usize)>, text: Seq<char>) -> bool {
    &&& forall|k: int|
        0 <= k < spans.len() ==> {
            let s = #[trigger] spans[k];
            &&& s.0 <= s.1 <= byte_len(text)
            &&& index_of_byte(text, s.0 as nat) is Some
            &&& index_of_byte(text, s.1 as nat) is Some
        }
    &&& forall|j: int, k: int|
        0 <= j < k < spans.len() ==> (#[trigger] spans[j]).1 <= (#[trigger] spans[k]).0
            && spans[j].0 < spans[k].0
}

/// `Regex::find_iter`: the byte ranges of the successive non-overlapping matches, on character
/// boundaries. There is no empty match where the last match ended, so that every match starts
/// behind the start of the one before. They depend on the regex and the text alone.
#[verifier::external_body]
fn find_regex(re: &Regex, text: &str) -> (r: Vec<(usize, usize)>)
    ensures
        r@ == regex_spans(*re, text@),
        ordered_spans(r@, text@),
{
    re.find_iter(text).map(|m| (m.start(), m.end())).collect()
}

/// A match within the document.
#[derive(Debug, Clone, Copy, PartialEq, Eq, Structural)]
pub struct Match {
    /// 0-indexed line number.
    pub line: usize,
    /// 0-indexed character offset within the line.
    pub col: usize,
    /// Byte offset of the match start in the document.
    pub byte_start: usize,
    /// Byte offset of the match end (exclusive) in the document.
    pub byte_end: usize,
}

#[verifier::ext_equal]
pub struct MatchView {
    pub line: nat,
    pub col: nat,
    pub byte_start: nat,
    pub byte_end: nat,
}

impl View for Match {
    type V = MatchView;

    open spec fn view(&self) -> MatchView {
        MatchView {
            line: self.line as nat,
            col: self.col as nat,
            byte_start: self.byte_start as nat,
            byte_end: self.byte_end as nat,
        }
    }
}

pub open spec fn match_views(v: Seq<Match>) -> Seq<MatchView> {
    v.map_values(|m: Match| m@)
}

/// Which kind of search is active.
#[derive(Debug, Clone, Copy, PartialEq, Eq, Structural, Default)]
pub enum SearchKind {
    /// Literal text.
    #[default]
    Literal,
    /// Regular expression.
    Regex,
}

// ---------------------------------------------------------------------------
// Positions
// ---------------------------------------------------------------------------

/// The number of line feeds in a text.
pub open spec fn newlines(s: Seq<char>) -> nat
    decreases s.len(),
{
    if s.len() == 0 {
        0
    } else {
        newlines(s.drop_last()) + if s.last() == '\n' {
            1nat
        } else {
            0nat
        }
    }
}

/// The number of characters behind the last line feed of a text.
pub open spec fn column(s: Seq<char>) -> nat
    decreases s.len(),
{
    if s.len() == 0 || s.last() == '\n' {
        0
    } else {
        column(s.drop_last()) + 1
    }
}

/// The match for a byte range of a text; `None` when the range does not lie in it.
pub open spec fn match_of(text: Seq<char>, byte_start: nat, byte_end: nat) -> Option<MatchView> {
    if byte_start > byte_len(text) || byte_end > byte_len(text) {
        None
    } else {
        let before = text.take(index_of_byte(text, byte_start)->0 as int);
        Some(
            MatchView {
                line: newlines(before),
                col: column(before),
                byte_start,
                byte_end,
            },
        )
    }
}

/// The range lies outside the text, or it starts where a character starts.
pub open spec fn starts_on_char(text: Seq<char>, byte_start: nat, byte_end: nat) -> bool {
    byte_start <= byte_len(text) && byte_end <= byte_len(text) ==> index_of_byte(text, byte_start)
        is Some
}

/// Finds the character at which byte `b` starts.
fn find_byte(v: &Vec<char>, b: usize) -> (r: Option<usize>)
    requires
        byte_len(v@) <= usize::MAX,
    ensures
        match r {
            Some(i) => index_of_byte(v@, b as nat) == Some(i as nat) && i <= v@.len(),
            None => index_of_byte(v@, b as nat) is None,
        },
{
    let mut i: usize = 0;
    let mut at: usize = 0;
    assert(v@.take(0) =~= Seq::<char>::empty());
    while i < v.len() && at < b
        invariant
            i <= v@.len(),
            at == byte_len(v@.take(i as int)),
            byte_len(v@) <= usize::MAX,
            forall|k: int| 0 <= k < i ==> byte_len(#[trigger] v@.take(k)) < b,
        decreases v@.len() - i,
    {
        proof {
            assert(v@.take(i + 1).drop_last() =~= v@.take(i as int));
            lemma_byte_len_take(v@, i as int, i + 1);
        }
        at = at + width_of(v[i]);
        i = i + 1;
    }
    proof {
        lemma_index_of_byte(v@, b as nat);
        if at == b {
            lemma_index_of_byte_at(v@, i as int);
        } else {
            assert forall|k: int| 0 <= k <= v@.len() implies byte_len(#[trigger] v@.take(k)) != b by {
                if k >= i {
                    lemma_byte_len_take(v@, i as int, k);
                }
            }
        }
    }
    if at == b {
        Some(i)
    } else {
        None
    }
}

/// Turns a byte range of `text` into a match with its line and column in characters. `None` when
/// the range does not lie in the text.
pub fn byte_offset_to_match(text: &str, byte_start: usize, byte_end: usize) -> (r: Option<Match>)
    requires
        starts_on_char(text@, byte_start as nat, byte_end as nat),
    ensures
        match r {
            Some(m) => match_of(text@, byte_start as nat, byte_end as nat) == Some(m@),
            None => match_of(text@, byte_start as nat, byte_end as nat) is None,
        },
{
    let total: usize = byte_len_of(text);
    if byte_start > total || byte_end > total {
        return None;
    }
    let v = chars_of(text);
    let n: usize = match find_byte(&v, byte_start) {
        Some(i) => i,
        None => {
            return None;
        },
    };
    let mut line: usize = 0;
    let mut col: usize = 0;
    let mut i: usize = 0;
    assert(v@.take(0) =~= Seq::<char>::empty());
    while i < n
        invariant
            i <= n <= v@.len(),
            line <= i,
            col <= i,
            line == newlines(v@.take(i as int)),
            col == column(v@.take(i as int)),
        decreases n - i,
    {
        if v[i] == '\n' {
            line = line + 1;
            col = 0;
        } else {
            col = col + 1;
        }
        i = i + 1;
        assert(v@.take(i as int).drop_last() =~= v@.take(i - 1));
    }
    Some(Match { line, col, byte_start, byte_end })
}

// ---------------------------------------------------------------------------
// Literal search
// ---------------------------------------------------------------------------

/// The lower-case forms of the characters of a text, one after the other.
pub open spec fn lowered_by_char(text: Seq<char>) -> Seq<char>
    decreases text.len(),
{
    if text.len() == 0 {
        Seq::empty()
    } else {
        lowered_by_char(text.drop_last()) + char_lowercased(text.last())
    }
}

/// What a literal search compares: the text, in lower case where case is ignored. Should the lower
/// case of the text not be as long as those of its characters, the latter count, so that every
/// position can be traced back.
pub open spec fn folded(text: Seq<char>, ignore_case: bool) -> Seq<char> {
    if !ignore_case {
        text
    } else if lowercased(text).len() == lowered_by_char(text).len() {
        lowercased(text)
    } else {
        lowered_by_char(text)
    }
}

/// What a literal search looks for: the pattern, in lower case where case is ignored.
pub open spec fn needle(pattern: Seq<char>, ignore_case: bool) -> Seq<char> {
    if ignore_case {
        lowercased(pattern)
    } else {
        pattern
    }
}

/// The positions of a text of length `n`, one after the other.
pub open spec fn each_position(n: nat) -> Seq<int> {
    Seq::new(n, |i: int| i)
}

/// For each position of the folded text the character that it came from.
pub open spec fn origins(text: Seq<char>, ignore_case: bool) -> Seq<int>
    decreases text.len(),
{
    if !ignore_case {
        each_position(text.len())
    } else if text.len() == 0 {
        Seq::empty()
    } else {
        origins(text.drop_last(), ignore_case) + Seq::new(
            char_lowercased(text.last()).len(),
            |i: int| text.len() - 1,
        )
    }
}

/// Positions that came from the characters of a text of length `n`, in order.
pub open spec fn well_traced(from: Seq<int>, n: nat) -> bool {
    &&& forall|k: int| 0 <= k < from.len() ==> 0 <= #[trigger] from[k] < n
    &&& forall|j: int, k: int|
        0 <= j <= k < from.len() ==> #[trigger] from[j] <= #[trigger] from[k]
}

proof fn lemma_origins(text: Seq<char>, ignore_case: bool)
    ensures
        origins(text, ignore_case).len() == folded(text, ignore_case).len(),
        well_traced(origins(text, ignore_case), text.len()),
{
    lemma_origins_by_char(text);
}

proof fn lemma_origins_by_char(text: Seq<char>)
    ensures
        origins(text, true).len() == lowered_by_char(text).len(),
        well_traced(origins(text, true), text.len()),
    decreases text.len(),
{
    if text.len() > 0 {
        lemma_origins_by_char(text.drop_last());
    }
}

spec fn ints(v: Seq<usize>) -> Seq<int> {
    v.map_values(|n: usize| n as int)
}

/// The lower-case forms of the characters of a text, with every position of them traced back.
fn lower_by_char(v: &Vec<char>) -> (r: (Vec<char>, Vec<usize>))
    ensures
        r.0@ == lowered_by_char(v@),
        ints(r.1@) == origins(v@, true),
        all_ascii(v@) ==> r.0@ == ascii_lowercased(v@) && ints(r.1@) == each_position(v@.len()),
{
    let mut chars: Vec<char> = Vec::new();
    let mut from: Vec<usize> = Vec::new();
    let mut i: usize = 0;
    assert(v@.take(0) =~= Seq::<char>::empty());
    assert(chars@ =~= lowered_by_char(v@.take(0)));
    assert(ints(from@) =~= origins(v@.take(0), true));
    assert(chars@ =~= ascii_lowercased(v@.take(0)));
    assert(ints(from@) =~= each_position(0));
    while i < v.len()
        invariant
            i <= v@.len(),
            chars@ == lowered_by_char(v@.take(i as int)),
            ints(from@) == origins(v@.take(i as int), true),
            all_ascii(v@) ==> chars@ == ascii_lowercased(v@.take(i as int)) && ints(from@)
                == each_position(i as nat),
        decreases v@.len() - i,
    {
        let ghost front = from@;
        assert(v@.take(i + 1).drop_last() =~= v@.take(i as int));
        let mut lower = lowercase_chars(v[i]);
        let n: usize = lower.len();
        chars.append(&mut lower);
        let mut j: usize = 0;
        while j < n
            invariant
                j <= n,
                ints(from@) == ints(front) + Seq::new(j as nat, |k: int| i as int),
            decreases n - j,
        {
            let ghost before = from@;
            from.push(i);
            j = j + 1;
            assert(ints(from@) =~= ints(before).push(i as int));
            assert(ints(from@) =~= ints(front) + Seq::new(j as nat, |k: int| i as int));
        }
        assert(ints(from@) =~= origins(v@.take(i + 1), true));
        proof {
            if all_ascii(v@) {
                assert(v@[i as int] as u32 <= 127);
                assert(chars@ =~= ascii_lowercased(v@.take(i + 1)));
                assert(ints(from@) =~= each_position((i + 1) as nat));
            }
        }
        i = i + 1;
    }
    assert(v@.take(i as int) =~= v@);
    (chars, from)
}

/// Every character of a text by itself.
fn each_char(n: usize) -> (r: Vec<usize>)
    ensures
        ints(r@) == each_position(n as nat),
{
    let mut r: Vec<usize> = Vec::new();
    let mut i: usize = 0;
    while i < n
        invariant
            i <= n,
            r@.len() == i,
            forall|k: int| 0 <= k < i ==> r@[k] == k,
        decreases n - i,
    {
        r.push(i);
        i = i + 1;
    }
    assert(ints(r@) =~= each_position(n as nat));
    r
}

/// Folds a text and traces every position of it back.
fn fold(text: &str, ignore_case: bool) -> (r: (Vec<char>, Vec<usize>))
    ensures
        r.0@ == folded(text@, ignore_case),
        ints(r.1@) == origins(text@, ignore_case),
        ignore_case && all_ascii(text@) ==> r.0@ == ascii_lowercased(text@) && ints(r.1@)
            == each_position(text@.len()),
{
    let chars = chars_of(text);
    if !ignore_case {
        let from = each_char(chars.len());
        return (chars, from);
    }
    let (by_char, from) = lower_by_char(&chars);
    let lower = chars_of(to_lowercase(text).as_str());
    if lower.len() == by_char.len() {
        (lower, from)
    } else {
        (by_char, from)
    }
}

/// What a literal search looks for.
fn needle_of(pattern: &str, ignore_case: bool) -> (r: Vec<char>)
    ensures
        r@ == needle(pattern@, ignore_case),
        ignore_case && all_ascii(pattern@) ==> r@ == ascii_lowercased(pattern@),
{
    if ignore_case {
        chars_of(to_lowercase(pattern).as_str())
    } else {
        chars_of(pattern)
    }
}

/// The match for the characters of a text from `start` to `end`.
pub open spec fn match_between(text: Seq<char>, start: int, end: int) -> MatchView {
    MatchView {
        line: newlines(text.take(start)),
        col: column(text.take(start)),
        byte_start: byte_len(text.take(start)),
        byte_end: byte_len(text.take(end)),
    }
}

/// The first position from `at` on that came from character `c` or one behind it.
pub open spec fn position_of(from: Seq<int>, c: int, at: int) -> int
    decreases from.len() - at,
{
    if 0 <= at < from.len() && from[at] < c {
        position_of(from, c, at + 1)
    } else {
        at
    }
}

pub proof fn lemma_position_of(from: Seq<int>, c: int, at: int)
    requires
        0 <= at <= from.len(),
    ensures
        at <= position_of(from, c, at) <= from.len(),
        position_of(from, c, at) < from.len() ==> from[position_of(from, c, at)] >= c,
    decreases from.len() - at,
{
    if at < from.len() && from[at] < c {
        lemma_position_of(from, c, at + 1);
    }
}

/// The matches of `needle` in a folded text from position `at` on, as ranges of the characters of
/// `text` that they came from. Occurrences are found from left to right and share no character.
pub open spec fn literal_matches_from(
    text: Seq<char>,
    haystack: Seq<char>,
    from: Seq<int>,
    needle: Seq<char>,
    at: int,
) -> Seq<MatchView>
    decreases haystack.len() - at,
{
    match first_at(haystack, needle, at) {
        Some(i) => if 0 <= at <= i && 0 < needle.len() && i + needle.len() <= haystack.len()
            && from.len() == haystack.len() {
            proof {
                lemma_position_of(from, from[i + needle.len() - 1] + 1, i + needle.len());
            }
            let end = from[i + needle.len() - 1] + 1;
            seq![match_between(text, from[i], end)] + literal_matches_from(
                text,
                haystack,
                from,
                needle,
                position_of(from, end, i + needle.len()),
            )
        } else {
            Seq::empty()
        },
        None => Seq::empty(),
    }
}

/// The matches of a literal pattern in a text.
pub open spec fn literal_matches(
    text: Seq<char>,
    pattern: Seq<char>,
    ignore_case: bool,
) -> Seq<MatchView> {
    literal_matches_from(
        text,
        folded(text, ignore_case),
        origins(text, ignore_case),
        needle(pattern, ignore_case),
        0,
    )
}

/// The matches of a literal pattern in an ASCII text where case is ignored: those of the one in
/// lower case in the other in lower case.
pub open spec fn ascii_matches(text: Seq<char>, pattern: Seq<char>) -> Seq<MatchView> {
    literal_matches(ascii_lowercased(text), ascii_lowercased(pattern), false)
}

/// Positions are the same in an ASCII text and in its lower case.
proof fn lemma_ascii_places(text: Seq<char>)
    requires
        all_ascii(text),
    ensures
        newlines(ascii_lowercased(text)) == newlines(text),
        column(ascii_lowercased(text)) == column(text),
        byte_len(ascii_lowercased(text)) == byte_len(text),
    decreases text.len(),
{
    if text.len() > 0 {
        let front = text.drop_last();
        assert(all_ascii(front));
        lemma_ascii_places(front);
        assert(ascii_lowercased(text).drop_last() =~= ascii_lowercased(front));
        assert(text.last() == text[text.len() - 1]);
    }
}

/// An ASCII text can take the place of its lower case where matches are placed.
proof fn lemma_ascii_matches_from(
    text: Seq<char>,
    haystack: Seq<char>,
    from: Seq<int>,
    needle: Seq<char>,
    at: int,
)
    requires
        all_ascii(text),
        well_traced(from, text.len()),
    ensures
        literal_matches_from(text, haystack, from, needle, at) == literal_matches_from(
            ascii_lowercased(text),
            haystack,
            from,
            needle,
            at,
        ),
    decreases haystack.len() - at,
{
    if let Some(i) = first_at(haystack, needle, at) {
        if 0 <= at <= i && 0 < needle.len() && i + needle.len() <= haystack.len() && from.len()
            == haystack.len() {
            let start = from[i];
            let end = from[i + needle.len() - 1] + 1;
            let lower = ascii_lowercased(text);
            assert(all_ascii(text.take(start)));
            assert(all_ascii(text.take(end)));
            lemma_ascii_places(text.take(start));
            lemma_ascii_places(text.take(end));
            assert(lower.take(start) =~= ascii_lowercased(text.take(start)));
            assert(lower.take(end) =~= ascii_lowercased(text.take(end)));
            lemma_position_of(from, end, i + needle.len());
            lemma_ascii_matches_from(
                text,
                haystack,
                from,
                needle,
                position_of(from, end, i + needle.len()),
            );
        }
    }
}

/// Line, column and byte offset of the character at an index.
spec fn is_place(text: Seq<char>, i: int, place: (usize, usize, usize)) -> bool {
    &&& place.0 == newlines(text.take(i))
    &&& place.1 == column(text.take(i))
    &&& place.2 == byte_len(text.take(i))
    &&& place.0 <= i
    &&& place.1 <= i
}

/// Walks from one character to a later one.
fn walk(v: &Vec<char>, from: usize, place: (usize, usize, usize), to: usize) -> (r: (
    usize,
    usize,
    usize,
))
    requires
        from <= to <= v@.len(),
        byte_len(v@) <= usize::MAX,
        is_place(v@, from as int, place),
    ensures
        is_place(v@, to as int, r),
{
    let (mut line, mut col, mut byte) = place;
    let mut i: usize = from;
    while i < to
        invariant
            from <= i <= to <= v@.len(),
            byte_len(v@) <= usize::MAX,
            is_place(v@, i as int, (line, col, byte)),
        decreases to - i,
    {
        proof {
            assert(v@.take(i + 1).drop_last() =~= v@.take(i as int));
            lemma_byte_len_take(v@, i as int, i + 1);
        }
        byte = byte + width_of(v[i]);
        if v[i] == '\n' {
            line = line + 1;
            col = 0;
        } else {
            col = col + 1;
        }
        i = i + 1;
    }
    (line, col, byte)
}

fn skip_to(from: &Vec<usize>, c: usize, at: usize) -> (r: usize)
    requires
        at <= from@.len(),
    ensures
        r == position_of(ints(from@), c as int, at as int),
{
    let mut i: usize = at;
    while i < from.len() && from[i] < c
        invariant
            i <= from@.len(),
            position_of(ints(from@), c as int, at as int) == position_of(
                ints(from@),
                c as int,
                i as int,
            ),
        decreases from@.len() - i,
    {
        assert(ints(from@)[i as int] == from@[i as int]);
        i = i + 1;
    }
    assert(i < from@.len() ==> ints(from@)[i as int] == from@[i as int]);
    i
}

/// Collects the matches of `needle` in `haystack`, whose positions came from the characters `from`
/// of `text`.
fn collect_matches(
    text: &Vec<char>,
    haystack: &Vec<char>,
    from: &Vec<usize>,
    needle: &Vec<char>,
) -> (r: Vec<Match>)
    requires
        byte_len(text@) <= usize::MAX,
        from@.len() == haystack@.len(),
        well_traced(ints(from@), text@.len()),
    ensures
        match_views(r@) == literal_matches_from(text@, haystack@, ints(from@), needle@, 0),
{
    let mut out: Vec<Match> = Vec::new();
    assert(match_views(out@) =~= Seq::<MatchView>::empty());
    let ghost trace = ints(from@);
    let ghost goal = literal_matches_from(text@, haystack@, trace, needle@, 0);
    if needle.len() == 0 {
        return out;
    }
    let mut at: usize = 0;
    let mut c: usize = 0;
    let mut place: (usize, usize, usize) = (0, 0, 0);
    assert(text@.take(0) =~= Seq::<char>::empty());
    assert(match_views(out@) + goal =~= goal);
    loop
        invariant
            needle@.len() > 0,
            byte_len(text@) <= usize::MAX,
            trace == ints(from@),
            trace.len() == from@.len() == haystack@.len(),
            well_traced(trace, text@.len()),
            at <= haystack@.len(),
            c <= text@.len(),
            forall|k: int| at <= k < trace.len() ==> c <= #[trigger] trace[k],
            is_place(text@, c as int, place),
            match_views(out@) + literal_matches_from(text@, haystack@, trace, needle@, at as int)
                == goal,
        ensures
            match_views(out@) == goal,
        decreases haystack@.len() - at,
    {
        proof {
            lemma_first_at(haystack@, needle@, at as int);
        }
        let i: usize = match find_from(haystack, needle, at) {
            Some(i) => i,
            None => {
                assert(match_views(out@) =~= match_views(out@) + Seq::<MatchView>::empty());
                break;
            },
        };
        assert(i + needle@.len() <= haystack.len());
        let last: usize = i + (needle.len() - 1);
        proof {
            assert(trace[i as int] == from@[i as int]);
            assert(trace[last as int] == from@[last as int]);
            lemma_position_of(trace, trace[last as int] + 1, last + 1);
        }
        let start: usize = from[i];
        assert(from@[last as int] < text.len());
        let end: usize = from[last] + 1;
        let begin = walk(text, c, place, start);
        place = walk(text, start, begin, end);
        c = end;
        let m = Match { line: begin.0, col: begin.1, byte_start: begin.2, byte_end: place.2 };
        let ghost before = match_views(out@);
        let ghost rest = literal_matches_from(
            text@,
            haystack@,
            trace,
            needle@,
            position_of(trace, end as int, last + 1),
        );
        out.push(m);
        assert(match_views(out@) =~= before.push(m@));
        assert(m@ =~= match_between(text@, start as int, end as int));
        assert(before + (seq![m@] + rest) =~= before.push(m@) + rest);
        at = skip_to(from, end, last + 1);
    }
    out
}

// ---------------------------------------------------------------------------
// Search state
// ---------------------------------------------------------------------------

/// The pattern handed to the regex compiler.
pub open spec fn effective_pattern(pattern: Seq<char>, case_insensitive: bool) -> Seq<char> {
    if case_insensitive {
        "(?i)"@ + pattern
    } else {
        pattern
    }
}

/// The matches for a list of byte ranges.
pub open spec fn span_matches(text: Seq<char>, spans: Seq<(usize, usize)>) -> Seq<MatchView>
    decreases spans.len(),
{
    if spans.len() == 0 {
        Seq::empty()
    } else {
        let front = span_matches(text, spans.drop_last());
        match match_of(text, spans.last().0 as nat, spans.last().1 as nat) {
            Some(m) => front.push(m),
            None => front,
        }
    }
}

/// Every match ends before the next one starts, and no two have one start.
pub open spec fn in_order(matches: Seq<MatchView>) -> bool {
    &&& forall|j: int|
        0 <= j < matches.len() ==> (#[trigger] matches[j]).byte_start <= matches[j].byte_end
    &&& forall|j: int, k: int|
        0 <= j < k < matches.len() ==> (#[trigger] matches[j]).byte_end <= (
        #[trigger] matches[k]).byte_start && matches[j].byte_start < matches[k].byte_start
}

/// Every match is a range of whole characters of the text.
pub open spec fn on_characters(matches: Seq<MatchView>, text: Seq<char>) -> bool {
    forall|k: int|
        0 <= k < matches.len() ==> {
            let m = #[trigger] matches[k];
            &&& m.byte_start <= m.byte_end <= byte_len(text)
            &&& index_of_byte(text, m.byte_start) is Some
            &&& index_of_byte(text, m.byte_end) is Some
        }
}

/// The matches of a regular expression in a text. One that is not valid matches nothing.
pub open spec fn regex_matches(
    text: Seq<char>,
    pattern: Seq<char>,
    ignore_case: bool,
) -> Seq<MatchView> {
    match regex_compiled(effective_pattern(pattern, ignore_case)) {
        Some(re) => span_matches(text, regex_spans(re, text)),
        None => Seq::empty(),
    }
}

/// What a search state shows to the outside.
#[verifier::ext_equal]
pub struct SearchView {
    pub pattern: Seq<char>,
    pub kind: SearchKind,
    pub matches: Seq<MatchView>,
    pub current: nat,
    pub wrap: bool,
    pub case_insensitive: bool,
}

impl SearchView {
    /// The matches of the pattern in `text`. An empty pattern and an invalid regex match nothing.
    pub open spec fn found(self, text: Seq<char>) -> Seq<MatchView> {
        if self.pattern.len() == 0 {
            Seq::empty()
        } else {
            match self.kind {
                SearchKind::Literal => literal_matches(text, self.pattern, self.case_insensitive),
                SearchKind::Regex => regex_matches(text, self.pattern, self.case_insensitive),
            }
        }
    }

    /// The state after its matches were computed anew. The current match stays where it was, as
    /// far as there still are so many matches.
    pub open spec fn recomputed(self, text: Seq<char>) -> SearchView {
        let matches = self.found(text);
        SearchView {
            matches,
            current: if matches.len() == 0 {
                0
            } else if self.current < matches.len() {
                self.current
            } else {
                (matches.len() - 1) as nat
            },
            ..self
        }
    }

    /// The state after a step to the next match.
    pub open spec fn next(self) -> SearchView {
        if self.matches.len() > 0 && (self.wrap || self.current + 1 < self.matches.len()) {
            SearchView { current: (self.current + 1) % self.matches.len(), ..self }
        } else {
            self
        }
    }

    /// The state after a step to the match before.
    pub open spec fn prev(self) -> SearchView {
        if self.matches.len() == 0 {
            self
        } else if self.current > 0 {
            SearchView { current: (self.current - 1) as nat, ..self }
        } else if self.wrap {
            SearchView { current: (self.matches.len() - 1) as nat, ..self }
        } else {
            self
        }
    }

    pub open spec fn current_match(self) -> Option<MatchView> {
        if self.current < self.matches.len() {
            Some(self.matches[self.current as int])
        } else {
            None
        }
    }

    /// "3/12", or "0/0" where there are no matches.
    pub open spec fn counter(self) -> Seq<char> {
        if self.matches.len() == 0 {
            "0/0"@
        } else {
            decimal(self.current + 1) + "/"@ + decimal(self.matches.len())
        }
    }
}

/// The regex that was compiled last, with its pattern.
#[derive(Debug)]
pub struct RegexCache {
    last: Option<(String, Regex)>,
}

impl RegexCache {
    /// The regex is the one that its pattern compiles to.
    pub closed spec fn wf(self) -> bool {
        self.last matches Some((p, re)) ==> regex_compiled(p@) == Some(re)
    }
}

/// The state of a search.
#[derive(Debug)]
pub struct SearchState {
    /// The pattern as the user typed it.
    pub pattern: String,
    pub kind: SearchKind,
    /// The matches in the document, sorted by byte offset.
    pub matches: Vec<Match>,
    /// Index of the current match.
    pub current_match: usize,
    /// Stepping wraps around at both ends.
    pub wrap: bool,
    pub case_insensitive: bool,
    pub regex_cache: RegexCache,
}

impl View for SearchState {
    type V = SearchView;

    open spec fn view(&self) -> SearchView {
        SearchView {
            pattern: self.pattern@,
            kind: self.kind,
            matches: match_views(self.matches@),
            current: self.current_match as nat,
            wrap: self.wrap,
            case_insensitive: self.case_insensitive,
        }
    }
}

impl Clone for SearchState {
    /// The copy compiles its regex anew; that never shows.
    fn clone(&self) -> (r: SearchState)
        ensures
            r.wf(),
            r@ == self@,
    {
        let mut matches: Vec<Match> = Vec::new();
        let ghost all = match_views(self.matches@);
        let mut i: usize = 0;
        assert(match_views(matches@) =~= all.take(0));
        while i < self.matches.len()
            invariant
                i <= self.matches@.len(),
                all == match_views(self.matches@),
                match_views(matches@) == all.take(i as int),
            decreases self.matches@.len() - i,
        {
            let ghost before = match_views(matches@);
            let m = &self.matches[i];
            matches.push(
                Match {
                    line: m.line,
                    col: m.col,
                    byte_start: m.byte_start,
                    byte_end: m.byte_end,
                },
            );
            assert(match_views(matches@) =~= before.push(all[i as int]));
            assert(all.take(i + 1) =~= all.take(i as int).push(all[i as int]));
            i = i + 1;
        }
        assert(all.take(i as int) =~= all);
        SearchState {
            pattern: self.pattern.clone(),
            kind: self.kind,
            matches,
            current_match: self.current_match,
            wrap: self.wrap,
            case_insensitive: self.case_insensitive,
            regex_cache: RegexCache { last: None },
        }
    }
}

impl Default for SearchState {
    /// A literal search without a pattern that minds case and does not wrap around.
    fn default() -> (r: SearchState)
        ensures
            r.wf(),
            r@ == (SearchView {
                pattern: Seq::empty(),
                kind: SearchKind::Literal,
                matches: Seq::empty(),
                current: 0,
                wrap: false,
                case_insensitive: false,
            }),
    {
        let r = SearchState { wrap: false, ..SearchState::new(SearchKind::Literal, false) };
        assert(r@.matches =~= Seq::<MatchView>::empty());
        r
    }
}

impl SearchState {
    /// The cached regex is the one that its pattern compiles to.
    pub open spec fn wf(self) -> bool {
        self.regex_cache.wf()
    }

    /// A search with an empty pattern.
    pub fn new(kind: SearchKind, case_insensitive: bool) -> (r: SearchState)
        ensures
            r.wf(),
            r@ == (SearchView {
                pattern: Seq::empty(),
                kind,
                matches: Seq::empty(),
                current: 0,
                wrap: true,
                case_insensitive,
            }),
    {
        let r = SearchState {
            pattern: String::new(),
            kind,
            matches: Vec::new(),
            current_match: 0,
            wrap: true,
            case_insensitive,
            regex_cache: RegexCache { last: None },
        };
        assert(r@.matches =~= Seq::<MatchView>::empty());
        r
    }

    /// Appends a character to the pattern.
    pub fn push_char(&mut self, c: char)
        ensures
            final(self)@ == (SearchView { pattern: old(self)@.pattern.push(c), ..old(self)@ }),
            final(self).wf() == old(self).wf(),
    {
        self.pattern.push(c);
        assert(self@ =~= SearchView { pattern: old(self)@.pattern.push(c), ..old(self)@ });
    }

    /// Removes the last character of the pattern, if it has one.
    pub fn pop_char(&mut self)
        ensures
            final(self)@ == (SearchView {
                pattern: if old(self)@.pattern.len() > 0 {
                    old(self)@.pattern.drop_last()
                } else {
                    old(self)@.pattern
                },
                ..old(self)@
            }),
            final(self).wf() == old(self).wf(),
    {
        let _last = self.pattern.pop();
    }

    /// Removes the pattern and the matches.
    pub fn clear(&mut self)
        ensures
            final(self)@ == (SearchView {
                pattern: Seq::empty(),
                matches: Seq::empty(),
                ..old(self)@
            }),
            final(self).wf() == old(self).wf(),
    {
        self.pattern = String::new();
        self.matches = Vec::new();
        assert(self@.matches =~= Seq::<MatchView>::empty());
    }

    /// The pattern as the user typed it.
    pub fn pattern_str(&self) -> (r: &str)
        ensures
            r@ == self@.pattern,
    {
        self.pattern.as_str()
    }

    /// The kind of the search.
    pub fn search_kind(&self) -> (r: SearchKind)
        ensures
            r == self@.kind,
    {
        self.kind
    }

    /// Case is ignored.
    pub fn ignores_case(&self) -> (r: bool)
        ensures
            r == self@.case_insensitive,
    {
        self.case_insensitive
    }

    /// Computes the matches of the pattern in `text` anew.
    ///
    /// An empty pattern clears the matches. The current match is kept within the valid range.
    pub fn recompute(&mut self, text: &str)
        requires
            old(self).wf(),
        ensures
            final(self).wf(),
            final(self)@ == old(self)@.recomputed(text@),
            old(self)@.kind is Literal && old(self)@.case_insensitive && old(self)@.pattern.len()
                > 0 && all_ascii(text@) && all_ascii(old(self)@.pattern) ==> final(self)@.matches
                == ascii_matches(text@, old(self)@.pattern),
            in_order(final(self)@.matches),
            on_characters(final(self)@.matches, text@),
    {
        if chars_of(self.pattern.as_str()).len() == 0 {
            self.matches = Vec::new();
            self.current_match = 0;
            assert(self@ =~= old(self)@.recomputed(text@));
            return;
        }
        let matches = match self.kind {
            SearchKind::Literal => self.compute_literal(text),
            SearchKind::Regex => self.compute_regex(text),
        };
        self.matches = matches;
        if self.matches.len() == 0 {
            self.current_match = 0;
        } else if self.current_match > self.matches.len() - 1 {
            self.current_match = self.matches.len() - 1;
        }
        assert(self@ =~= old(self)@.recomputed(text@));
    }

    /// Steps to the next match and returns it; `None` when there are no matches.
    pub fn next_match(&mut self) -> (r: Option<&Match>)
        ensures
            final(self)@ == old(self)@.next(),
            final(self).wf() == old(self).wf(),
            match r {
                Some(m) => old(self)@.next().current_match() == Some(m@),
                None => old(self)@.next().current_match() is None,
            },
    {
        if self.matches.len() == 0 {
            return None;
        }
        let n: usize = self.matches.len();
        if self.wrap || self.current_match < n - 1 {
            proof {
                vstd::arithmetic::div_mod::lemma_add_mod_noop_right(
                    1,
                    self.current_match as int,
                    n as int,
                );
            }
            self.current_match = (self.current_match % n + 1) % n;
        }
        assert(self@ =~= old(self)@.next());
        self.current()
    }

    /// Steps to the match before and returns it; `None` when there are no matches.
    pub fn prev_match(&mut self) -> (r: Option<&Match>)
        ensures
            final(self)@ == old(self)@.prev(),
            final(self).wf() == old(self).wf(),
            match r {
                Some(m) => old(self)@.prev().current_match() == Some(m@),
                None => old(self)@.prev().current_match() is None,
            },
    {
        if self.matches.len() == 0 {
            return None;
        }
        if self.current_match == 0 {
            if self.wrap {
                self.current_match = self.matches.len() - 1;
            }
        } else {
            self.current_match = self.current_match - 1;
        }
        assert(self@ =~= old(self)@.prev());
        self.current()
    }

    /// The current match.
    pub fn current(&self) -> (r: Option<&Match>)
        ensures
            match r {
                Some(m) => self@.current_match() == Some(m@),
                None => self@.current_match() is None,
            },
    {
        if self.current_match < self.matches.len() {
            Some(&self.matches[self.current_match])
        } else {
            None
        }
    }

    /// There are no matches.
    pub fn is_empty(&self) -> (r: bool)
        ensures
            r == (self@.matches.len() == 0),
    {
        self.matches.len() == 0
    }

    /// The number of matches.
    pub fn match_count(&self) -> (r: usize)
        ensures
            r == self@.matches.len(),
    {
        self.matches.len()
    }

    /// The match counter of the status bar: "3/12" or "0/0".
    pub fn counter_str(&self) -> (r: String)
        ensures
            r@ == self@.counter(),
    {
        if self.matches.len() == 0 {
            return "0/0".to_owned();
        }
        let mut r = to_decimal(self.current_match as u128 + 1);
        r.append("/");
        r.append(to_decimal(self.matches.len() as u128).as_str());
        r
    }

    /// The matches of the pattern, taken literally.
    pub fn compute_literal(&self, text: &str) -> (r: Vec<Match>)
        ensures
            match_views(r@) == literal_matches(
                text@,
                self@.pattern,
                self@.case_insensitive,
            ),
            self@.case_insensitive && all_ascii(text@) && all_ascii(self@.pattern) ==> match_views(
                r@,
            ) == ascii_matches(text@, self@.pattern),
            in_order(match_views(r@)),
            on_characters(match_views(r@), text@),
    {
        let _total: usize = byte_len_of(text);
        let chars = chars_of(text);
        let (haystack, from) = fold(text, self.case_insensitive);
        let needle = needle_of(self.pattern.as_str(), self.case_insensitive);
        proof {
            lemma_origins(text@, self.case_insensitive);
            assert(ints(from@).len() == from@.len());
            lemma_literal_in_order(text@, haystack@, ints(from@), needle@, 0, 0);
            lemma_on_characters(text@, haystack@, ints(from@), needle@);
            if self.case_insensitive && all_ascii(text@) {
                lemma_ascii_matches_from(text@, haystack@, ints(from@), needle@, 0);
                assert(ascii_lowercased(text@).len() == text@.len());
            }
        }
        collect_matches(&chars, &haystack, &from, &needle)
    }

    /// The matches of the pattern, taken as a regular expression. The regex is compiled where the
    /// one that was kept is another; that never shows in the result.
    pub fn compute_regex(&mut self, text: &str) -> (r: Vec<Match>)
        requires
            old(self).wf(),
        ensures
            final(self).wf(),
            final(self)@ == old(self)@,
            match_views(r@) == regex_matches(
                text@,
                old(self)@.pattern,
                old(self)@.case_insensitive,
            ),
            in_order(match_views(r@)),
            on_characters(match_views(r@), text@),
    {
        let pattern = if self.case_insensitive {
            let mut p = "(?i)".to_owned();
            p.append(self.pattern.as_str());
            p
        } else {
            self.pattern.clone()
        };
        let cached = match &self.regex_cache.last {
            Some((p, _re)) => *p == pattern,
            None => false,
        };
        if !cached {
            self.regex_cache = RegexCache { last: None };
            match compile_regex(pattern.as_str()) {
                Some(re) => {
                    self.regex_cache = RegexCache { last: Some((pattern, re)) };
                },
                None => {
                    let out: Vec<Match> = Vec::new();
                    assert(match_views(out@) =~= Seq::<MatchView>::empty());
                    return out;
                },
            }
        }
        let mut out: Vec<Match> = Vec::new();
        assert(match_views(out@) =~= Seq::<MatchView>::empty());
        if let Some((p, re)) = &self.regex_cache.last {
            proof {
                assert(p@ == effective_pattern(self.pattern@, self.case_insensitive));
            }
            let spans = find_regex(re, text);
            let mut i: usize = 0;
            assert(spans@.take(0) =~= Seq::<(usize, usize)>::empty());
            while i < spans.len()
                invariant
                    i <= spans@.len(),
                    ordered_spans(spans@, text@),
                    match_views(out@) == span_matches(text@, spans@.take(i as int)),
                    in_order(match_views(out@)),
                    on_characters(match_views(out@), text@),
                    forall|k: int|
                        0 <= k < out@.len() ==> forall|j: int|
                            i <= j < spans@.len() ==> (#[trigger] out@[k]).byte_end <= (
                            #[trigger] spans@[j]).0 && out@[k].byte_start < spans@[j].0,
                decreases spans@.len() - i,
            {
                let (start, end) = spans[i];
                let ghost before = match_views(out@);
                assert(spans@.take(i + 1).drop_last() =~= spans@.take(i as int));
                match byte_offset_to_match(text, start, end) {
                    Some(m) => {
                        out.push(m);
                        assert(match_views(out@) =~= before.push(m@));
                    },
                    None => {},
                }
                i = i + 1;
            }
            assert(spans@.take(spans@.len() as int) =~= spans@);
        }
        out
    }
}

/// Matches of a literal pattern come in the order of their offsets, none before character `c`,
/// where no position from `at` on came from a character before it.
proof fn lemma_literal_in_order(
    text: Seq<char>,
    haystack: Seq<char>,
    from: Seq<int>,
    needle: Seq<char>,
    at: int,
    c: int,
)
    requires
        0 <= at <= haystack.len(),
        0 <= c <= text.len(),
        from.len() == haystack.len(),
        well_traced(from, text.len()),
        forall|k: int| at <= k < from.len() ==> c <= #[trigger] from[k],
    ensures
        in_order(literal_matches_from(text, haystack, from, needle, at)),
        forall|k: int|
            0 <= k < literal_matches_from(text, haystack, from, needle, at).len() ==> byte_len(
                text.take(c),
            ) <= (#[trigger] literal_matches_from(text, haystack, from, needle, at)[k]).byte_start,
    decreases haystack.len() - at,
{
    lemma_first_at(haystack, needle, at);
    match first_at(haystack, needle, at) {
        Some(i) => {
            if 0 < needle.len() {
                let last = i + needle.len() - 1;
                let start = from[i];
                let end = from[last] + 1;
                let next = position_of(from, end, last + 1);
                lemma_position_of(from, end, last + 1);
                let m = match_between(text, start, end);
                let rest = literal_matches_from(text, haystack, from, needle, next);
                let all = literal_matches_from(text, haystack, from, needle, at);
                lemma_literal_in_order(text, haystack, from, needle, next, end);
                lemma_byte_len_take(text, c, start);
                lemma_byte_len_take(text, start, end);
                assert(all == seq![m] + rest);
                assert forall|j: int, k: int| 0 <= j < k < all.len() implies (
                #[trigger] all[j]).byte_end <= (#[trigger] all[k]).byte_start && all[j].byte_start
                    < all[k].byte_start by {
                    assert(all[k] == rest[k - 1]);
                    if j > 0 {
                        assert(all[j] == rest[j - 1]);
                    }
                }
                assert forall|j: int| 0 <= j < all.len() implies (#[trigger] all[j]).byte_start
                    <= all[j].byte_end && byte_len(text.take(c)) <= all[j].byte_start by {
                    if j > 0 {
                        assert(all[j] == rest[j - 1]);
                    }
                }
            }
        },
        None => {},
    }
}

// ---------------------------------------------------------------------------
// Laws
// ---------------------------------------------------------------------------

/// An empty pattern matches nothing, and leaves the current match at the start.
pub proof fn law_empty_pattern_clears(s: SearchView, text: Seq<char>)
    requires
        s.pattern.len() == 0,
    ensures
        s.recomputed(text).matches.len() == 0,
        s.recomputed(text).current == 0,
{
}

/// After a search the current match is one of the matches, if there are any.
pub proof fn law_current_match_is_in_range(s: SearchView, text: Seq<char>)
    ensures
        s.recomputed(text).matches.len() > 0 ==> s.recomputed(text).current < s.recomputed(
            text,
        ).matches.len(),
{
}

/// What is found depends on the pattern, the kind of the search and whether case is ignored, and
/// on nothing that was searched before: the regex that a search keeps never shows in a result. A
/// pattern that does not compile finds nothing, even right after one that did.
pub proof fn law_earlier_searches_do_not_show(a: SearchState, b: SearchState, text: Seq<char>)
    requires
        a.wf(),
        b.wf(),
        a@.pattern == b@.pattern,
        a@.kind == b@.kind,
        a@.case_insensitive == b@.case_insensitive,
    ensures
        a@.found(text) == b@.found(text),
        a@.recomputed(text).matches == b@.recomputed(text).matches,
        a@.kind is Regex && regex_compiled(
            effective_pattern(a@.pattern, a@.case_insensitive),
        ) is None ==> a@.recomputed(text).matches.len() == 0,
{
}

/// The match is made of the characters that an occurrence of `needle` in the folded text came from.
pub open spec fn comes_from(
    text: Seq<char>,
    haystack: Seq<char>,
    from: Seq<int>,
    needle: Seq<char>,
    m: MatchView,
) -> bool {
    exists|i: int|
        #[trigger] occurs_at(haystack, needle, i) && 0 <= from[i] < from[i + needle.len() - 1] + 1
            <= text.len() && m == match_between(text, from[i], from[i + needle.len() - 1] + 1)
}

proof fn lemma_comes_from(
    text: Seq<char>,
    haystack: Seq<char>,
    from: Seq<int>,
    needle: Seq<char>,
    at: int,
    k: int,
)
    requires
        0 <= at,
        from.len() == haystack.len(),
        well_traced(from, text.len()),
        0 <= k < literal_matches_from(text, haystack, from, needle, at).len(),
    ensures
        comes_from(
            text,
            haystack,
            from,
            needle,
            literal_matches_from(text, haystack, from, needle, at)[k],
        ),
    decreases haystack.len() - at,
{
    lemma_first_at(haystack, needle, at);
    let i = first_at(haystack, needle, at)->0;
    let last = i + needle.len() - 1;
    let next = position_of(from, from[last] + 1, last + 1);
    lemma_position_of(from, from[last] + 1, last + 1);
    assert(occurs_at(haystack, needle, i));
    if k > 0 {
        lemma_comes_from(text, haystack, from, needle, next, k - 1);
        assert(literal_matches_from(text, haystack, from, needle, at)[k] == literal_matches_from(
            text,
            haystack,
            from,
            needle,
            next,
        )[k - 1]);
    }
}

proof fn lemma_on_characters(
    text: Seq<char>,
    haystack: Seq<char>,
    from: Seq<int>,
    needle: Seq<char>,
)
    requires
        from.len() == haystack.len(),
        well_traced(from, text.len()),
    ensures
        on_characters(literal_matches_from(text, haystack, from, needle, 0), text),
{
    let all = literal_matches_from(text, haystack, from, needle, 0);
    assert forall|k: int| 0 <= k < all.len() implies {
        let m = #[trigger] all[k];
        &&& m.byte_start <= m.byte_end <= byte_len(text)
        &&& index_of_byte(text, m.byte_start) is Some
        &&& index_of_byte(text, m.byte_end) is Some
    } by {
        lemma_comes_from(text, haystack, from, needle, 0, k);
        let i = choose|i: int| #[trigger]
            occurs_at(haystack, needle, i) && 0 <= from[i] < from[i + needle.len() - 1] + 1
                <= text.len() && all[k] == match_between(
                text,
                from[i],
                from[i + needle.len() - 1] + 1,
            );
        lemma_index_of_byte_at(text, from[i]);
        lemma_index_of_byte_at(text, from[i + needle.len() - 1] + 1);
        lemma_byte_len_take(text, from[i], from[i + needle.len() - 1] + 1);
    }
}

/// Every match of a literal search is a range of whole characters of the text: those that an
/// occurrence of the pattern came from, in lower case where case is ignored.
pub proof fn law_literal_matches_are_ranges_of_the_text(
    text: Seq<char>,
    pattern: Seq<char>,
    ignore_case: bool,
    k: int,
)
    requires
        0 <= k < literal_matches(text, pattern, ignore_case).len(),
    ensures
        comes_from(
            text,
            folded(text, ignore_case),
            origins(text, ignore_case),
            needle(pattern, ignore_case),
            literal_matches(text, pattern, ignore_case)[k],
        ),
{
    lemma_origins(text, ignore_case);
    lemma_comes_from(
        text,
        folded(text, ignore_case),
        origins(text, ignore_case),
        needle(pattern, ignore_case),
        0,
        k,
    );
}

/// Searching the same text again changes nothing.
pub proof fn law_recompute_is_idempotent(s: SearchView, text: Seq<char>)
    ensures
        s.recomputed(text).recomputed(text) == s.recomputed(text),
{
}

/// With wrap-around, stepping forward and back, in either order, returns to the same match.
pub proof fn law_next_and_prev_undo_each_other(s: SearchView)
    requires
        s.wrap,
        s.current < s.matches.len(),
    ensures
        s.next().prev() == s,
        s.prev().next() == s,
{
    let n = s.matches.len();
    if s.current + 1 < n {
        assert((s.current + 1) % n == s.current + 1) by (nonlinear_arith)
            requires
                0 <= s.current + 1 < n,
        ;
    } else {
        assert((s.current + 1) % n == 0) by (nonlinear_arith)
            requires
                s.current + 1 == n,
                n > 0,
        ;
    }
    assert(s.next().prev() =~= s);
    let p = s.prev();
    if s.current > 0 {
        assert((p.current + 1) % n == s.current) by (nonlinear_arith)
            requires
                p.current + 1 == s.current,
                s.current < n,
        ;
    } else {
        assert((p.current + 1) % n == 0) by (nonlinear_arith)
            requires
                p.current + 1 == n,
                n > 0,
        ;
    }
    assert(p.next() =~= s);
}

/// With wrap-around, stepping forward as often as there are matches returns to the same match.
pub proof fn law_next_cycles(s: SearchView)
    requires
        s.wrap,
        s.current < s.matches.len(),
    ensures
        steps(s, s.matches.len()) == s,
{
    lemma_steps(s, s.matches.len());
    let n = s.matches.len();
    assert((s.current + n) % n == s.current) by (nonlinear_arith)
        requires
            s.current < n,
    ;
    assert(steps(s, n) =~= s);
}

/// `n` steps forward.
pub open spec fn steps(s: SearchView, n: nat) -> SearchView
    decreases n,
{
    if n == 0 {
        s
    } else {
        steps(s, (n - 1) as nat).next()
    }
}

proof fn lemma_steps(s: SearchView, n: nat)
    requires
        s.wrap,
        s.current < s.matches.len(),
    ensures
        steps(s, n) == (SearchView { current: (s.current + n) % s.matches.len(), ..s }),
    decreases n,
{
    let m = s.matches.len();
    if n == 0 {
        assert(s.current % m == s.current) by (nonlinear_arith)
            requires
                s.current < m,
        ;
        assert(steps(s, n) =~= SearchView { current: (s.current + n) % m, ..s });
    } else {
        lemma_steps(s, (n - 1) as nat);
        let k = (s.current + n - 1) as nat;
        vstd::arithmetic::div_mod::lemma_add_mod_noop_right(1, k as int, m as int);
        assert((k % m + 1) % m == (k + 1) % m);
    }
}

proof fn lemma_position_of_skips(from: Seq<int>, c: int, at: int, p: int)
    requires
        0 <= at <= p < position_of(from, c, at),
        at <= from.len(),
    ensures
        p < from.len(),
        from[p] < c,
    decreases from.len() - at,
{
    lemma_position_of(from, c, at);
    if at < from.len() && from[at] < c && p > at {
        lemma_position_of_skips(from, c, at + 1, p);
    }
}

/// The match is made of the characters of an occurrence of `needle`, and the character at which
/// occurrence `i` begins is one of them.
pub open spec fn covers(
    text: Seq<char>,
    haystack: Seq<char>,
    from: Seq<int>,
    needle: Seq<char>,
    m: MatchView,
    i: int,
) -> bool {
    exists|j: int|
        #[trigger] occurs_at(haystack, needle, j) && m == match_between(
            text,
            from[j],
            from[j + needle.len() - 1] + 1,
        ) && from[j] <= from[i] <= from[j + needle.len() - 1]
}

proof fn lemma_covered(
    text: Seq<char>,
    haystack: Seq<char>,
    from: Seq<int>,
    needle: Seq<char>,
    at: int,
    i: int,
) -> (k: int)
    requires
        0 <= at <= i,
        needle.len() > 0,
        occurs_at(haystack, needle, i),
        from.len() == haystack.len(),
        well_traced(from, text.len()),
    ensures
        0 <= k < literal_matches_from(text, haystack, from, needle, at).len(),
        covers(
            text,
            haystack,
            from,
            needle,
            literal_matches_from(text, haystack, from, needle, at)[k],
            i,
        ),
    decreases haystack.len() - at,
{
    lemma_first_at(haystack, needle, at);
    let f = first_at(haystack, needle, at)->0;
    let last = f + needle.len() - 1;
    let end = from[last] + 1;
    let next = position_of(from, end, last + 1);
    lemma_position_of(from, end, last + 1);
    let all = literal_matches_from(text, haystack, from, needle, at);
    let rest = literal_matches_from(text, haystack, from, needle, next);
    let first = match_between(text, from[f], end);
    assert(all == seq![first] + rest);
    if i < next {
        assert(from[f] <= from[i]);
        if i > last {
            lemma_position_of_skips(from, end, last + 1, i);
        } else {
            assert(from[i] <= from[last]);
        }
        assert(occurs_at(haystack, needle, f));
        assert(all[0] == first);
        0
    } else {
        let k = lemma_covered(text, haystack, from, needle, next, i);
        assert(all[k + 1] == rest[k]);
        k + 1
    }
}

/// A literal search leaves out nothing, whether or not case matters: every place at which the
/// pattern occurs, in lower case where case is ignored, belongs to a match.
pub proof fn law_every_occurrence_belongs_to_a_match(
    text: Seq<char>,
    pattern: Seq<char>,
    ignore_case: bool,
    i: int,
) -> (k: int)
    requires
        0 <= i,
        needle(pattern, ignore_case).len() > 0,
        occurs_at(folded(text, ignore_case), needle(pattern, ignore_case), i),
    ensures
        0 <= k < literal_matches(text, pattern, ignore_case).len(),
        covers(
            text,
            folded(text, ignore_case),
            origins(text, ignore_case),
            needle(pattern, ignore_case),
            literal_matches(text, pattern, ignore_case)[k],
            i,
        ),
{
    lemma_origins(text, ignore_case);
    lemma_covered(
        text,
        folded(text, ignore_case),
        origins(text, ignore_case),
        needle(pattern, ignore_case),
        0,
        i,
    )
}

/// Where case matters the text and the pattern are taken as they are; where it does not, both are
/// taken in lower case, and every position of the text is that of the character that it came from.
pub proof fn law_case_is_folded_on_both_sides(text: Seq<char>, pattern: Seq<char>, i: int)
    requires
        0 <= i < text.len(),
    ensures
        folded(text, false) == text,
        needle(pattern, false) == pattern,
        origins(text, false)[i] == i,
        needle(pattern, true) == lowercased(pattern),
        lowercased(text).len() == lowered_by_char(text).len() ==> folded(text, true) == lowercased(
            text,
        ),
        origins(text, true).len() == folded(text, true).len(),
{
    lemma_origins(text, true);
}

} // verus!
