use alloy::search::{Match, SearchKind, SearchState, byte_offset_to_match};

fn literal_state(pattern: &str, case_insensitive: bool) -> SearchState {
    let mut s = SearchState::new(SearchKind::Literal, case_insensitive);
    s.pattern = pattern.to_owned();

    s
}

fn regex_state(pattern: &str, case_insensitive: bool) -> SearchState {
    let mut s = SearchState::new(SearchKind::Regex, case_insensitive);
    s.pattern = pattern.to_owned();

    s
}

// recompute (basic correctness)

#[test]
fn empty_pattern_produces_no_matches() {
    let mut s = SearchState::new(SearchKind::Literal, true);
    s.recompute("hello world");

    assert!(s.matches.is_empty());
    assert_eq!(s.current_match, 0);
}

#[test]
fn literal_single_match() {
    let mut s = literal_state("world", false);
    s.recompute("hello world");

    assert_eq!(s.matches.len(), 1);
    assert_eq!(s.matches[0].line, 0);
    assert_eq!(s.matches[0].col, 6);
    assert_eq!(s.matches[0].byte_start, 6);
}

#[test]
fn literal_multiple_matches_on_same_line() {
    let mut s = literal_state("ab", false);
    s.recompute("ab cd ab ef ab");

    assert_eq!(s.matches.len(), 3);
    assert_eq!(s.matches[0].col, 0);
    assert_eq!(s.matches[1].col, 6);
    assert_eq!(s.matches[2].col, 12);
}

#[test]
fn literal_multiline_match() {
    let text = "line one\nline two\nline three";
    let mut s = literal_state("line", false);
    s.recompute(text);

    assert_eq!(s.matches.len(), 3);
    assert_eq!(s.matches[0].line, 0);
    assert_eq!(s.matches[1].line, 1);
    assert_eq!(s.matches[2].line, 2);

    // All start at col 0 on their respective lines.
    for m in &s.matches {
        assert_eq!(m.col, 0);
    }
}

#[test]
fn literal_case_insensitive_finds_mixed_case() {
    let mut s = literal_state("HELLO", true);
    s.recompute("hello world HELLO");

    assert_eq!(s.matches.len(), 2, "case-insensitive should find both");
}

#[test]
fn literal_case_sensitive_only_finds_exact() {
    let mut s = literal_state("HELLO", false);
    s.recompute("hello world HELLO");

    assert_eq!(s.matches.len(), 1);
    assert_eq!(s.matches[0].col, 12);
}

#[test]
fn no_matches_returns_empty_vec() {
    let mut s = literal_state("xyz", false);
    s.recompute("hello world");

    assert!(s.matches.is_empty());
}

// recompute - regex

#[test]
fn regex_word_boundary_match() {
    let mut s = regex_state(r"\bword\b", false);
    s.recompute("a word in a sentence, not swordfish");

    assert_eq!(s.matches.len(), 1);
    assert_eq!(s.matches[0].col, 2);
}

#[test]
fn regex_case_insensitive_prefix() {
    let mut s = regex_state("hello", true);
    s.recompute("Hello HELLO hello");

    assert_eq!(s.matches.len(), 3);
}

#[test]
fn invalid_regex_produces_no_matches_no_panic() {
    let mut s = regex_state("[[[", false);
    s.recompute("hello world");

    assert!(
        s.matches.is_empty(),
        "invalid regex should produce no matches, not panic"
    );
}

// Navigation

#[test]
fn next_match_advances_with_wrap() {
    let mut s = literal_state("a", false);
    s.recompute("a b a c a");

    assert_eq!(s.matches.len(), 3);

    // Start at 0; next -> 1.
    let m = s.next_match().unwrap();

    assert_eq!(m.col, 4);
    assert_eq!(s.current_match, 1);

    // next -> 2.
    s.next_match();

    assert_eq!(s.current_match, 2);

    // next wraps -> 0.
    s.next_match();

    assert_eq!(s.current_match, 0);
}

#[test]
fn prev_match_decrements_with_wrap() {
    let mut s = literal_state("a", false);
    s.recompute("a b a c a");

    // At 0; prev wraps -> 2.
    s.prev_match();

    assert_eq!(s.current_match, 2);

    // prev -> 1.
    s.prev_match();

    assert_eq!(s.current_match, 1);
}

#[test]
fn navigation_no_op_when_no_matches() {
    let mut s = literal_state("xyz", false);
    s.recompute("hello world");

    assert!(s.next_match().is_none());
    assert!(s.prev_match().is_none());
    assert_eq!(s.current_match, 0);
}

#[test]
fn navigation_single_match_stays_at_zero() {
    let mut s = literal_state("world", false);
    s.recompute("hello world");

    // next wraps back to 0.
    s.next_match();

    assert_eq!(s.current_match, 0);

    // prev also stays at 0.
    s.prev_match();

    assert_eq!(s.current_match, 0);
}

#[test]
fn current_returns_match_at_cursor() {
    let mut s = literal_state("a", false);
    s.recompute("a b a");

    assert_eq!(s.current().unwrap().col, 0);

    s.next_match();

    assert_eq!(s.current().unwrap().col, 4);
}

// counter_str

#[test]
fn counter_str_no_matches() {
    let s = SearchState::new(SearchKind::Literal, true);

    assert_eq!(s.counter_str(), "0/0");
}

#[test]
fn counter_str_with_matches() {
    let mut s = literal_state("a", false);
    s.recompute("a b a c a");

    // current_match starts at 0 -> "1/3".
    assert_eq!(s.counter_str(), "1/3");

    s.next_match();

    assert_eq!(s.counter_str(), "2/3");
}

// current_match clamping after recompute

#[test]
fn current_match_clamped_after_fewer_matches() {
    let mut s = literal_state("a", false);
    // 3 matches; navigate to last.
    s.recompute("a b a c a");
    s.current_match = 2;

    // Now recompute with a pattern that only finds 1 match.
    s.pattern = "b".to_owned();
    s.recompute("a b a c a");

    assert_eq!(s.matches.len(), 1);
    assert_eq!(s.current_match, 0, "current_match must be clamped");
}

// Unicode correctness

#[test]
fn col_is_char_indexed_not_byte_indexed() {
    // "café" is 5 bytes (c=1, a=1, f=1, é=2) but 4 chars.
    let text = "café world";
    let mut s = literal_state("world", false);
    s.recompute(text);

    assert_eq!(s.matches.len(), 1);
    // "world" starts at char index 5 (c,a,f,é,space = 5 chars).
    assert_eq!(s.matches[0].col, 5, "col should be char-indexed");
}

#[test]
fn multiline_col_reset_per_line() {
    let text = "abc\nxyz abc";
    let mut s = literal_state("abc", false);
    s.recompute(text);

    assert_eq!(s.matches.len(), 2);
    assert_eq!(s.matches[0].line, 0);
    assert_eq!(s.matches[0].col, 0);
    assert_eq!(s.matches[1].line, 1);
    assert_eq!(s.matches[1].col, 4); // "xyz " = 4 chars
}

#[test]
fn an_empty_pattern_clears_the_matches() {
    let mut s = literal_state("a", false);
    s.recompute("a a a");
    s.next_match();
    s.pop_char();
    s.recompute("a a a");
    assert!(s.is_empty());
    assert_eq!(s.match_count(), 0);
    assert_eq!(s.current_match, 0);
}

#[test]
fn next_and_prev_undo_each_other() {
    let mut s = literal_state("a", false);
    s.recompute("a b a c a");
    for _ in 0..4 {
        let before = s.current_match;
        s.next_match();
        s.prev_match();
        assert_eq!(s.current_match, before);
        s.prev_match();
        s.next_match();
        assert_eq!(s.current_match, before);
        s.next_match();
    }
}

#[test]
fn without_wrap_stepping_stops_at_the_ends() {
    let mut s = literal_state("a", false);
    s.wrap = false;
    s.recompute("a b a");
    s.prev_match();
    assert_eq!(s.current_match, 0);
    s.next_match();
    s.next_match();
    assert_eq!(s.current_match, 1);
}

#[test]
fn regex_matches_do_not_overlap_and_are_in_order() {
    let mut s = regex_state("a+|é", false);
    s.recompute("aaé\naa");
    let spans: Vec<(usize, usize)> =
        s.matches.iter().map(|m| (m.byte_start, m.byte_end)).collect();
    assert_eq!(spans, vec![(0, 2), (2, 4), (5, 7)]);
    assert_eq!((s.matches[2].line, s.matches[2].col), (1, 0));
    let again = s.matches.len();
    s.recompute("aaé\naa");
    assert_eq!(s.matches.len(), again);
}

#[test]
fn a_changed_pattern_is_compiled_anew() {
    let mut s = regex_state("a", false);
    s.recompute("ab");
    s.push_char('b');
    s.recompute("ab");
    assert_eq!(s.matches[0].byte_end, 2);
    assert_eq!(s.pattern_str(), "ab");
    assert_eq!(s.search_kind(), SearchKind::Regex);
    assert!(!s.ignores_case());
}

#[test]
fn longer_lower_case_is_traced_back_to_the_text() {
    // The lower case of the dotted capital I takes three bytes instead of two.
    let mut s = literal_state("x", true);
    s.recompute("\u{130}x");
    assert_eq!(s.matches, vec![Match { line: 0, col: 1, byte_start: 2, byte_end: 3 }]);

    let mut s = literal_state("é", true);
    s.recompute("\u{130}É\né");
    let spans: Vec<(usize, usize)> =
        s.matches.iter().map(|m| (m.byte_start, m.byte_end)).collect();
    assert_eq!(spans, vec![(2, 4), (5, 7)]);
    assert_eq!((s.matches[1].line, s.matches[1].col), (1, 0));

    // A part of a lower-case form is found at the whole character.
    let mut s = literal_state("i", true);
    s.recompute("a\u{130}I");
    let spans: Vec<(usize, usize)> =
        s.matches.iter().map(|m| (m.byte_start, m.byte_end)).collect();
    assert_eq!(spans, vec![(1, 3), (3, 4)]);
}

#[test]
fn empty_regex_matches_have_starts_of_their_own() {
    let mut s = regex_state("a*", false);
    s.recompute("baac");
    let starts: Vec<usize> = s.matches.iter().map(|m| m.byte_start).collect();
    assert_eq!(starts, vec![0, 1, 4]);
}

#[test]
fn earlier_searches_do_not_show() {
    let mut s = regex_state("a", false);
    s.recompute("aXa");
    s.push_char('(');
    s.recompute("aXa");
    assert!(s.matches.is_empty());
    s.pop_char();
    s.recompute("aXa");
    let mut fresh = regex_state("a", false);
    fresh.recompute("aXa");
    assert_eq!(s.matches, fresh.matches);
    assert_eq!(s.matches.len(), 2);
}

#[test]
fn byte_offsets_become_positions() {
    let m = byte_offset_to_match("aé\nb", 4, 5).unwrap();
    assert_eq!((m.line, m.col, m.byte_start, m.byte_end), (1, 0, 4, 5));
    assert!(byte_offset_to_match("ab", 1, 3).is_none());
    assert!(byte_offset_to_match("ab", 3, 3).is_none());
}

#[test]
fn case_is_ignored_by_the_lower_case_of_the_whole_text() {
    // A capital sigma at the end of a word has a lower case of its own.
    let mut s = literal_state("\u{39f}\u{394}\u{39f}\u{3a3}", true);
    s.recompute("\u{3bf}\u{3b4}\u{3bf}\u{3c2}, \u{39f}\u{394}\u{39f}\u{3a3}");
    let spans: Vec<(usize, usize)> =
        s.matches.iter().map(|m| (m.byte_start, m.byte_end)).collect();
    assert_eq!(spans, vec![(0, 8), (10, 18)]);

    // Inside a word it has the usual one.
    s.recompute("\u{39f}\u{394}\u{39f}\u{3a3}\u{391}");
    assert!(s.matches.is_empty());
    let mut s = literal_state("\u{3c3}\u{3b1}", true);
    s.recompute("\u{39f}\u{394}\u{39f}\u{3a3}\u{391}");
    assert_eq!(s.matches.len(), 1);
    assert_eq!((s.matches[0].col, s.matches[0].byte_start), (3, 6));
}

#[test]
fn matches_can_be_computed_on_their_own() {
    let mut s = regex_state("[ab]+", false);
    let found = s.compute_regex("xab b");
    let spans: Vec<(usize, usize)> = found.iter().map(|m| (m.byte_start, m.byte_end)).collect();
    assert_eq!(spans, vec![(1, 3), (4, 5)]);
    assert!(s.matches.is_empty());
    assert_eq!(s.compute_regex("xab b"), found);

    let s = literal_state("ab", false);
    assert_eq!(s.compute_literal("xab b").len(), 1);
}

#[test]
fn searches_can_be_copied() {
    let mut s = regex_state("a+", true);
    s.recompute("aAxa");
    s.next_match();
    let mut copy = s.clone();
    assert_eq!(copy.matches, s.matches);
    assert_eq!(copy.counter_str(), "2/2");
    copy.recompute("aa");
    assert_eq!(copy.match_count(), 1);
    assert_eq!(s.match_count(), 2);
    assert!(SearchState::default().is_empty());
    assert!(!SearchState::default().wrap);
}

#[test]
fn ascii_text_is_searched_without_case() {
    let mut s = literal_state("aB", true);
    s.recompute("xAb\nab AB");
    let found: Vec<(usize, usize, usize, usize)> =
        s.matches.iter().map(|m| (m.line, m.col, m.byte_start, m.byte_end)).collect();
    assert_eq!(found, vec![(0, 1, 1, 3), (1, 0, 4, 6), (1, 3, 7, 9)]);
    let mut lower = literal_state("ab", false);
    lower.recompute("xab\nab ab");
    assert_eq!(lower.matches, s.matches);
}
