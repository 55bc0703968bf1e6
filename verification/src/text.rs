//! Character-level text functions shared by the rest of the library.
//!
//! A string is modelled by the sequence of its characters (`s@`). Every function here says
//! exactly which characters it returns.
use vstd::prelude::*;
use vstd::utf8::{char_is_scalar, encode_scalar, encode_utf8};

verus! {

/// `String::push` appends one character.
pub assume_specification[ String::push ](s: &mut String, ch: char)
    ensures
        final(s)@ == old(s)@.push(ch),
;

/// `String::pop` removes the last character and returns it, or returns `None` on an empty string.
pub assume_specification[ String::pop ](s: &mut String) -> (r: Option<char>)
    ensures
        old(s)@.len() == 0 ==> r.is_none() && final(s)@ == old(s)@,
        old(s)@.len() > 0 ==> r == Some(old(s)@.last()) && final(s)@ == old(s)@.drop_last(),
;

/// `String::clear` removes every character.
pub assume_specification[ String::clear ](s: &mut String)
    ensures
        final(s)@ == Seq::<char>::empty(),
;

/// What `str::to_lowercase` returns: the Unicode lower-case form of a text.
pub uninterp spec fn lowercased(s: Seq<char>) -> Seq<char>;

/// All characters are ASCII.
pub open spec fn all_ascii(s: Seq<char>) -> bool {
    forall|i: int| 0 <= i < s.len() ==> (#[trigger] s[i]) as u32 <= 127
}

/// The text with its ASCII letters in lower case.
pub open spec fn ascii_lowercased(s: Seq<char>) -> Seq<char> {
    s.map_values(
        |c: char|
            if 'A' <= c <= 'Z' {
                (c as u32 + 32) as char
            } else {
                c
            },
    )
}

/// `str::to_lowercase`: the result depends on the characters of `s` alone. Of a text in ASCII it
/// lowers the letters and nothing else.
#[verifier::external_body]
pub(crate) fn to_lowercase(s: &str) -> (r: String)
    ensures
        r@ == lowercased(s@),
        all_ascii(s@) ==> r@ == ascii_lowercased(s@),
{
    s.to_lowercase()
}

/// What `char::to_lowercase` returns: the lower-case form of a character.
pub uninterp spec fn char_lowercased(c: char) -> Seq<char>;

/// `char::to_lowercase`: one or more characters, which depend on the character alone. An ASCII
/// character gives one, which is another only for a letter in upper case.
#[verifier::external_body]
pub(crate) fn lowercase_chars(c: char) -> (r: Vec<char>)
    ensures
        r@ == char_lowercased(c),
        r@.len() > 0,
        c as u32 <= 127 ==> r@ == ascii_lowercased(seq![c]),
{
    c.to_lowercase().collect()
}

/// What the `{:?}` form of a string is: the text in double quotes, with escapes.
pub uninterp spec fn debug_quoted(s: Seq<char>) -> Seq<char>;

/// `format!("{:?}", s)`: the result depends on the characters of `s` alone.
#[verifier::external_body]
pub(crate) fn quote_debug(s: &str) -> (r: String)
    ensures
        r@ == debug_quoted(s@),
{
    format!("{:?}", s)
}

/// The characters with the Unicode property `White_Space`.
pub open spec fn is_white_space(c: char) -> bool {
    ||| 0x09 <= c as u32 <= 0x0D
    ||| c as u32 == 0x20
    ||| c as u32 == 0x85
    ||| c as u32 == 0xA0
    ||| c as u32 == 0x1680
    ||| 0x2000 <= c as u32 <= 0x200A
    ||| c as u32 == 0x2028
    ||| c as u32 == 0x2029
    ||| c as u32 == 0x202F
    ||| c as u32 == 0x205F
    ||| c as u32 == 0x3000
}

pub fn char_is_white_space(c: char) -> (r: bool)
    ensures
        r == is_white_space(c),
{
    let u: u32 = c as u32;
    (0x09 <= u && u <= 0x0D) || u == 0x20 || u == 0x85 || u == 0xA0 || u == 0x1680 || (0x2000 <= u
        && u <= 0x200A) || u == 0x2028 || u == 0x2029 || u == 0x202F || u == 0x205F || u == 0x3000
}

/// Every character of `s` is white space.
pub open spec fn all_white_space(s: Seq<char>) -> bool {
    forall|i: int| 0 <= i < s.len() ==> is_white_space(#[trigger] s[i])
}

/// The characters of `s` as a vector.
pub fn chars_of(s: &str) -> (v: Vec<char>)
    ensures
        v@ == s@,
{
    let mut v: Vec<char> = Vec::new();
    for c in it: s.chars()
        invariant
            v@ == s@.take(it.index() as int),
            it.seq() == s@,
    {
        v.push(c);
        proof {
            assert(s@.take(it.index() as int + 1) =~= s@.take(it.index() as int).push(
                s@[it.index() as int],
            ));
        }
    }
    assert(s@.take(s@.len() as int) =~= s@);
    v
}

/// The string made of the characters `v[from..to]`.
pub fn string_of(v: &Vec<char>, from: usize, to: usize) -> (r: String)
    requires
        from <= to <= v@.len(),
    ensures
        r@ == v@.subrange(from as int, to as int),
{
    let mut r = String::new();
    let mut i: usize = from;
    while i < to
        invariant
            from <= i <= to <= v@.len(),
            r@ == v@.subrange(from as int, i as int),
        decreases to - i,
    {
        r.push(v[i]);
        i = i + 1;
        assert(v@.subrange(from as int, i as int) =~= v@.subrange(from as int, i - 1).push(
            v@[i - 1],
        ));
    }
    r
}

/// `a`, `b` and `c` one after the other.
pub fn concat3(a: &str, b: &str, c: &str) -> (r: String)
    ensures
        r@ == a@ + b@ + c@,
{
    let mut r = a.to_owned();
    r.append(b);
    r.append(c);
    r
}

/// `a` and `b` one after the other.
pub fn concat2(a: &str, b: &str) -> (r: String)
    ensures
        r@ == a@ + b@,
{
    let mut r = a.to_owned();
    r.append(b);
    r
}

/// `n` copies of `c`.
pub open spec fn repeated(c: char, n: nat) -> Seq<char> {
    Seq::new(n, |i: int| c)
}

pub fn repeat_char(c: char, n: usize) -> (r: String)
    ensures
        r@ == repeated(c, n as nat),
{
    let mut r = String::new();
    let mut i: usize = 0;
    while i < n
        invariant
            0 <= i <= n,
            r@ == repeated(c, i as nat),
        decreases n - i,
    {
        r.push(c);
        i = i + 1;
        assert(repeated(c, i as nat) =~= repeated(c, (i - 1) as nat).push(c));
    }
    r
}

// ---------------------------------------------------------------------------
// Trimming
// ---------------------------------------------------------------------------

/// `s` without its leading white space.
pub open spec fn trimmed_start(s: Seq<char>) -> Seq<char>
    decreases s.len(),
{
    if s.len() > 0 && is_white_space(s[0]) {
        trimmed_start(s.drop_first())
    } else {
        s
    }
}

/// `s` without its trailing white space.
pub open spec fn trimmed_end(s: Seq<char>) -> Seq<char>
    decreases s.len(),
{
    if s.len() > 0 && is_white_space(s.last()) {
        trimmed_end(s.drop_last())
    } else {
        s
    }
}

/// `s` without its leading and trailing white space.
pub open spec fn trimmed(s: Seq<char>) -> Seq<char> {
    trimmed_end(trimmed_start(s))
}

/// A text is blank (only white space) exactly when nothing is left after trimming.
pub proof fn lemma_trimmed_empty(s: Seq<char>)
    ensures
        trimmed(s).len() == 0 <==> all_white_space(s),
    decreases s.len(),
{
    if s.len() > 0 && is_white_space(s[0]) {
        lemma_trimmed_empty(s.drop_first());
        assert forall|i: int| 0 <= i < s.len() && all_white_space(s.drop_first()) implies is_white_space(
            #[trigger] s[i],
        ) by {
            if i > 0 {
                assert(s[i] == s.drop_first()[i - 1]);
            }
        }
        assert forall|i: int| 0 <= i < s.drop_first().len() && all_white_space(s) implies is_white_space(
            #[trigger] s.drop_first()[i],
        ) by {
            assert(s.drop_first()[i] == s[i + 1]);
        }
    } else if s.len() > 0 {
        lemma_trimmed_end_keeps(s);
    }
}

proof fn lemma_trimmed_end_keeps(s: Seq<char>)
    requires
        s.len() > 0,
        !is_white_space(s[0]),
    ensures
        trimmed_end(s).len() > 0,
    decreases s.len(),
{
    if is_white_space(s.last()) {
        assert(s.len() > 1);
        assert(s.drop_last()[0] == s[0]);
        lemma_trimmed_end_keeps(s.drop_last());
    }
}

proof fn lemma_trimmed_start_behind(blank: Seq<char>, s: Seq<char>)
    requires
        all_white_space(blank),
    ensures
        trimmed_start(blank + s) == trimmed_start(s),
    decreases blank.len(),
{
    if blank.len() == 0 {
        assert(blank + s =~= s);
    } else {
        assert((blank + s)[0] == blank[0]);
        assert((blank + s).drop_first() =~= blank.drop_first() + s);
        assert forall|i: int| 0 <= i < blank.drop_first().len() implies is_white_space(
            #[trigger] blank.drop_first()[i],
        ) by {
            assert(blank.drop_first()[i] == blank[i + 1]);
        }
        lemma_trimmed_start_behind(blank.drop_first(), s);
    }
}

proof fn lemma_trimmed_end_before(s: Seq<char>, blank: Seq<char>)
    requires
        all_white_space(blank),
    ensures
        trimmed_end(s + blank) == trimmed_end(s),
    decreases blank.len(),
{
    if blank.len() == 0 {
        assert(s + blank =~= s);
    } else {
        assert((s + blank).last() == blank[blank.len() - 1]);
        assert((s + blank).drop_last() =~= s + blank.drop_last());
        lemma_trimmed_end_before(s, blank.drop_last());
    }
}

/// White space neither at the start of a text nor at its end.
pub open spec fn is_trim(s: Seq<char>) -> bool {
    s.len() > 0 ==> !is_white_space(s[0]) && !is_white_space(s.last())
}

/// Trimming takes the white space from both ends of a text, all of it, and nothing else.
pub proof fn law_trimming_takes_white_space_from_both_ends(
    before: Seq<char>,
    s: Seq<char>,
    after: Seq<char>,
)
    requires
        all_white_space(before),
        is_trim(s),
        all_white_space(after),
    ensures
        trimmed(before + s + after) == s,
{
    assert(before + s + after =~= before + (s + after));
    lemma_trimmed_start_behind(before, s + after);
    if s.len() > 0 {
        assert((s + after)[0] == s[0]);
        lemma_trimmed_end_before(s, after);
    } else {
        assert(s + after =~= after + Seq::<char>::empty());
        lemma_trimmed_start_behind(after, Seq::empty());
        assert(trimmed(before + s + after) =~= s);
    }
}

/// `str::trim`: the part of `s` between its leading and trailing white space.
pub fn trim(s: &str) -> (r: &str)
    ensures
        r@ == trimmed(s@),
{
    let v = chars_of(s);
    let mut from: usize = 0;
    assert(s@.skip(0) =~= s@);
    while from < v.len() && char_is_white_space(v[from])
        invariant
            v@ == s@,
            from <= v@.len(),
            trimmed_start(s@) == trimmed_start(s@.skip(from as int)),
        decreases v@.len() - from,
    {
        assert(s@.skip(from as int).drop_first() =~= s@.skip(from + 1));
        from = from + 1;
        proof {
            let t = s@.skip(from - 1);
            assert(t[0] == s@[from - 1]);
        }
    }
    proof {
        if from < v.len() {
            assert(s@.skip(from as int)[0] == s@[from as int]);
        }
        assert(trimmed_start(s@) == s@.skip(from as int));
    }
    let mut to: usize = v.len();
    assert(s@.subrange(from as int, to as int) =~= s@.skip(from as int));
    while to > from && char_is_white_space(v[to - 1])
        invariant
            v@ == s@,
            from <= to <= v@.len(),
            trimmed(s@) == trimmed_end(s@.subrange(from as int, to as int)),
        decreases to,
    {
        let ghost t = s@.subrange(from as int, to as int);
        assert(t.last() == s@[to - 1]);
        assert(t.drop_last() =~= s@.subrange(from as int, to - 1));
        to = to - 1;
    }
    proof {
        let t = s@.subrange(from as int, to as int);
        if to > from {
            assert(t.last() == s@[to - 1]);
        }
    }
    s.substring_char(from, to)
}

// ---------------------------------------------------------------------------
// Searching and splitting
// ---------------------------------------------------------------------------

/// `pat` stands in `s` at position `i`.
pub open spec fn occurs_at(s: Seq<char>, pat: Seq<char>, i: int) -> bool {
    0 <= i && i + pat.len() <= s.len() && s.subrange(i, i + pat.len()) == pat
}

pub fn matches_at(v: &Vec<char>, pat: &Vec<char>, i: usize) -> (r: bool)
    requires
        i <= v@.len(),
    ensures
        r == occurs_at(v@, pat@, i as int),
{
    if pat.len() > v.len() - i {
        return false;
    }
    let mut j: usize = 0;
    while j < pat.len()
        invariant
            i + pat.len() <= v.len(),
            0 <= j <= pat@.len(),
            forall|k: int| 0 <= k < j ==> v@[i + k] == #[trigger] pat@[k],
        decreases pat@.len() - j,
    {
        if v[i + j] != pat[j] {
            assert(v@.subrange(i as int, i + pat@.len())[j as int] != pat@[j as int]);
            return false;
        }
        j = j + 1;
    }
    assert(v@.subrange(i as int, i + pat@.len()) =~= pat@);
    true
}

/// The first position, at or after `from`, at which `pat` stands in `s`.
pub open spec fn first_at(s: Seq<char>, pat: Seq<char>, from: int) -> Option<int>
    decreases s.len() + 1 - from,
{
    if from < 0 || from + pat.len() > s.len() {
        None
    } else if occurs_at(s, pat, from) {
        Some(from)
    } else {
        first_at(s, pat, from + 1)
    }
}

/// What `first_at` finds is an occurrence, and there is none before it.
pub proof fn lemma_first_at(s: Seq<char>, pat: Seq<char>, from: int)
    requires
        0 <= from,
    ensures
        match first_at(s, pat, from) {
            Some(i) => from <= i && occurs_at(s, pat, i) && forall|k: int|
                from <= k < i ==> !occurs_at(s, pat, k),
            None => forall|k: int| from <= k ==> !occurs_at(s, pat, k),
        },
    decreases s.len() + 1 - from,
{
    if from + pat.len() > s.len() {
    } else if occurs_at(s, pat, from) {
    } else {
        lemma_first_at(s, pat, from + 1);
    }
}

pub fn find_from(v: &Vec<char>, pat: &Vec<char>, from: usize) -> (r: Option<usize>)
    requires
        from <= v@.len(),
    ensures
        match r {
            Some(i) => first_at(v@, pat@, from as int) == Some(i as int),
            None => first_at(v@, pat@, from as int) is None,
        },
{
    let mut i: usize = from;
    loop
        invariant
            from <= i <= v@.len(),
            first_at(v@, pat@, from as int) == first_at(v@, pat@, i as int),
        decreases v@.len() - i,
    {
        if pat.len() > v.len() - i {
            return None;
        }
        if matches_at(v, pat, i) {
            return Some(i);
        }
        assert(i < v.len()) by {
            if i == v.len() {
                assert(v@.subrange(i as int, i as int) =~= pat@);
            }
        }
        i = i + 1;
    }
}

/// Two texts are the same.
pub fn str_is(s: &str, t: &str) -> (r: bool)
    ensures
        r == (s@ == t@),
{
    s.to_owned() == t.to_owned()
}

pub fn starts_with(s: &str, pat: &str) -> (r: bool)
    ensures
        r == occurs_at(s@, pat@, 0),
{
    matches_at(&chars_of(s), &chars_of(pat), 0)
}

pub fn ends_with(s: &str, pat: &str) -> (r: bool)
    ensures
        r == pat@.is_suffix_of(s@),
{
    let v = chars_of(s);
    let p = chars_of(pat);
    if p.len() > v.len() {
        return false;
    }
    let at: usize = v.len() - p.len();
    assert(s@.subrange(at as int, s@.len() as int) == s@.subrange(at as int, at + pat@.len()));
    matches_at(&v, &p, at)
}

pub open spec fn contains_text(s: Seq<char>, pat: Seq<char>) -> bool {
    first_at(s, pat, 0) is Some
}

pub fn contains_str(s: &str, pat: &str) -> (r: bool)
    ensures
        r == contains_text(s@, pat@),
{
    find_from(&chars_of(s), &chars_of(pat), 0).is_some()
}

/// The position of the first `c` at or after `from`; the length of `s` when there is none.
pub open spec fn next_char(s: Seq<char>, c: char, from: int) -> int
    decreases s.len() - from,
{
    if from < 0 || from >= s.len() {
        s.len() as int
    } else if s[from] == c {
        from
    } else {
        next_char(s, c, from + 1)
    }
}

pub proof fn lemma_next_char(s: Seq<char>, c: char, from: int)
    requires
        0 <= from <= s.len(),
    ensures
        from <= next_char(s, c, from) <= s.len(),
        next_char(s, c, from) < s.len() ==> s[next_char(s, c, from)] == c,
        forall|k: int| from <= k < next_char(s, c, from) ==> s[k] != c,
    decreases s.len() - from,
{
    if from < s.len() && s[from] != c {
        lemma_next_char(s, c, from + 1);
    }
}

pub fn find_char(v: &Vec<char>, c: char, from: usize) -> (r: usize)
    requires
        from <= v@.len(),
    ensures
        r == next_char(v@, c, from as int),
        from <= r <= v@.len(),
{
    let mut i: usize = from;
    while i < v.len() && v[i] != c
        invariant
            from <= i <= v@.len(),
            next_char(v@, c, from as int) == next_char(v@, c, i as int),
        decreases v@.len() - i,
    {
        i = i + 1;
    }
    i
}

/// The pieces of `s` from position `from` on, separated by the character `sep`.
pub open spec fn split_from(s: Seq<char>, sep: char, from: int) -> Seq<Seq<char>>
    decreases s.len() - from,
{
    let i = next_char(s, sep, from);
    if from < 0 || from >= s.len() || i >= s.len() || i < from {
        seq![s.skip(from)]
    } else {
        seq![s.subrange(from, i)] + split_from(s, sep, i + 1)
    }
}

/// The pieces of `s` separated by `sep`: always one more than there are separators.
pub open spec fn split_on(s: Seq<char>, sep: char) -> Seq<Seq<char>> {
    split_from(s, sep, 0)
}

/// The views of a vector of strings.
pub open spec fn views(v: Seq<String>) -> Seq<Seq<char>> {
    v.map_values(|s: String| s@)
}

pub fn split_char(s: &str, sep: char) -> (r: Vec<String>)
    ensures
        views(r@) == split_on(s@, sep),
{
    let v = chars_of(s);
    let mut out: Vec<String> = Vec::new();
    let mut from: usize = 0;
    loop
        invariant
            v@ == s@,
            from <= v@.len(),
            views(out@) + split_from(s@, sep, from as int) == split_on(s@, sep),
        decreases v@.len() - from,
    {
        let i: usize = find_char(&v, sep, from);
        let piece = string_of(&v, from, i);
        let ghost before = out@;
        let ghost piece_view = piece@;
        out.push(piece);
        assert(views(out@) =~= views(before).push(piece_view));
        if i == v.len() {
            assert(piece_view =~= s@.skip(from as int));
            assert(views(out@) =~= split_on(s@, sep));
            return out;
        }
        assert(views(out@) + split_from(s@, sep, i + 1) =~= views(before) + split_from(
            s@,
            sep,
            from as int,
        ));
        from = i + 1;
    }
}

/// The texts of `parts` one after the other, with `sep` between any two.
pub open spec fn joined(parts: Seq<Seq<char>>, sep: Seq<char>) -> Seq<char>
    decreases parts.len(),
{
    if parts.len() == 0 {
        Seq::empty()
    } else if parts.len() == 1 {
        parts[0]
    } else {
        joined(parts.drop_last(), sep) + sep + parts.last()
    }
}

proof fn lemma_joined_first(first: Seq<char>, rest: Seq<Seq<char>>, sep: Seq<char>)
    requires
        rest.len() > 0,
    ensures
        joined(seq![first] + rest, sep) == first + sep + joined(rest, sep),
    decreases rest.len(),
{
    let all = seq![first] + rest;
    assert(all.drop_last() =~= seq![first] + rest.drop_last());
    assert(all.last() == rest.last());
    if rest.len() == 1 {
        assert(all.drop_last() =~= seq![first]);
        assert(joined(all.drop_last(), sep) == first);
    } else {
        lemma_joined_first(first, rest.drop_last(), sep);
        assert(joined(all, sep) =~= first + sep + joined(rest, sep));
    }
}

proof fn lemma_split_from_joined(s: Seq<char>, sep: char, from: int)
    requires
        0 <= from <= s.len(),
    ensures
        split_from(s, sep, from).len() > 0,
        joined(split_from(s, sep, from), seq![sep]) == s.skip(from),
    decreases s.len() - from,
{
    lemma_next_char(s, sep, from);
    let i = next_char(s, sep, from);
    if from < s.len() && i < s.len() {
        lemma_split_from_joined(s, sep, i + 1);
        lemma_joined_first(s.subrange(from, i), split_from(s, sep, i + 1), seq![sep]);
        assert(s.subrange(from, i) + seq![sep] + s.skip(i + 1) =~= s.skip(from));
    }
}

/// The pieces between separators, joined by the separator, give back the text.
pub proof fn law_split_then_join(s: Seq<char>, sep: char)
    ensures
        joined(split_on(s, sep), seq![sep]) == s,
{
    lemma_split_from_joined(s, sep, 0);
    assert(s.skip(0) =~= s);
}

proof fn lemma_split_from_behind(front: Seq<char>, s: Seq<char>, sep: char, from: int)
    requires
        0 <= from <= s.len(),
    ensures
        split_from(front + s, sep, front.len() + from) == split_from(s, sep, from),
    decreases s.len() - from,
{
    let all = front + s;
    let n = front.len() as int;
    lemma_next_char(s, sep, from);
    lemma_next_char(all, sep, n + from);
    let i = next_char(s, sep, from);
    let k = next_char(all, sep, n + from);
    if i < s.len() {
        assert(all[n + i] == s[i]);
        if k < n + i {
            assert(all[k] == s[k - n]);
        }
        assert(k == n + i);
        lemma_split_from_behind(front, s, sep, i + 1);
        assert(all.subrange(n + from, n + i) =~= s.subrange(from, i));
    } else {
        if k < all.len() {
            assert(all[k] == s[k - n]);
        }
        assert(all.skip(n + from) =~= s.skip(from));
    }
}

/// Lines without a separator, joined by it and taken apart again, are the same lines: as many, and
/// each with the same characters.
pub proof fn law_join_then_split(parts: Seq<Seq<char>>, sep: char)
    requires
        parts.len() > 0,
        forall|i: int| 0 <= i < parts.len() ==> !(#[trigger] parts[i]).contains(sep),
    ensures
        split_on(joined(parts, seq![sep]), sep) == parts,
    decreases parts.len(),
{
    let s = joined(parts, seq![sep]);
    let first = parts[0];
    lemma_next_char(s, sep, 0);
    let i = next_char(s, sep, 0);
    if parts.len() == 1 {
        if i < s.len() {
            assert(first[i] == sep);
        }
        assert(s.skip(0) =~= s);
        assert(split_on(s, sep) =~= parts);
    } else {
        let rest = parts.drop_first();
        assert forall|k: int| 0 <= k < rest.len() implies !(#[trigger] rest[k]).contains(sep) by {
            assert(rest[k] == parts[k + 1]);
        }
        law_join_then_split(rest, sep);
        assert(seq![first] + rest =~= parts);
        lemma_joined_first(first, rest, seq![sep]);
        let head = first + seq![sep];
        let tail = joined(rest, seq![sep]);
        assert(s =~= head + tail);
        assert(s[first.len() as int] == sep);
        if i < first.len() {
            assert(first[i] == s[i]);
            assert(first.contains(sep));
        }
        assert(i == first.len());
        lemma_split_from_behind(head, tail, sep, 0);
        assert(s.subrange(0, i) =~= first);
        assert(split_on(s, sep) =~= parts);
    }
}

/// Joined parts follow each other in order, with one separator between two neighbours and none at
/// the ends.
pub proof fn law_joined_parts_follow_each_other(
    front: Seq<Seq<char>>,
    line: Seq<char>,
    sep: Seq<char>,
)
    ensures
        joined(seq![line], sep) == line,
        front.len() > 0 ==> joined(front.push(line), sep) == joined(front, sep) + sep + line,
        front.len() > 0 ==> joined(seq![line] + front, sep) == line + sep + joined(front, sep),
{
    if front.len() > 0 {
        assert(front.push(line).drop_last() =~= front);
        lemma_joined_first(line, front, sep);
    }
}

pub fn join(parts: &Vec<String>, sep: &str) -> (r: String)
    ensures
        r@ == joined(views(parts@), sep@),
{
    let mut r = String::new();
    let mut i: usize = 0;
    while i < parts.len()
        invariant
            i <= parts@.len(),
            r@ == joined(views(parts@).take(i as int), sep@),
        decreases parts@.len() - i,
    {
        if i > 0 {
            r.append(sep);
        }
        r.append(parts[i].as_str());
        i = i + 1;
        proof {
            let all = views(parts@);
            assert(all.take(i as int).drop_last() =~= all.take(i - 1));
            assert(all.take(i as int).last() == parts@[i - 1]@);
            if i == 1 {
                assert(r@ =~= parts@[0]@);
            }
        }
    }
    assert(views(parts@).take(parts@.len() as int) =~= views(parts@));
    r
}

/// `line` without one trailing carriage return.
pub open spec fn without_cr(line: Seq<char>) -> Seq<char> {
    if line.len() > 0 && line.last() == '\r' {
        line.drop_last()
    } else {
        line
    }
}

/// The lines of a text as `str::lines` gives them: the text is cut at each `'\n'`, a `'\r'` just
/// before it is dropped too, and a final `'\n'` does not open one more (empty) line.
pub open spec fn text_lines(s: Seq<char>) -> Seq<Seq<char>> {
    lines_from(s, 0)
}

pub open spec fn lines_from(s: Seq<char>, from: int) -> Seq<Seq<char>>
    decreases s.len() - from,
{
    let i = next_char(s, '\n', from);
    if from < 0 || from >= s.len() {
        Seq::empty()
    } else if i >= s.len() || i < from {
        seq![s.skip(from)]
    } else {
        seq![without_cr(s.subrange(from, i))] + lines_from(s, i + 1)
    }
}

proof fn lemma_lines_from_behind(front: Seq<char>, s: Seq<char>, from: int)
    requires
        0 <= from <= s.len(),
    ensures
        lines_from(front + s, front.len() + from) == lines_from(s, from),
    decreases s.len() - from,
{
    let all = front + s;
    let n = front.len() as int;
    lemma_next_char(s, '\n', from);
    lemma_next_char(all, '\n', n + from);
    let i = next_char(s, '\n', from);
    let k = next_char(all, '\n', n + from);
    if i < s.len() {
        assert(all[n + i] == s[i]);
        if k < n + i {
            assert(all[k] == s[k - n]);
        }
        assert(k == n + i);
        lemma_lines_from_behind(front, s, i + 1);
        assert(all.subrange(n + from, n + i) =~= s.subrange(from, i));
    } else {
        if k < all.len() {
            assert(all[k] == s[k - n]);
        }
        assert(all.skip(n + from) =~= s.skip(from));
    }
}

/// The lines of a text are what stands between its line feeds: the first line, which loses a
/// carriage return at its end, and the lines of what follows. A line feed at the end opens no line,
/// a text without line feeds is one line, and an empty text has none.
pub proof fn law_lines_stand_between_line_feeds(line: Seq<char>, rest: Seq<char>)
    requires
        !line.contains('\n'),
    ensures
        text_lines(line.push('\n') + rest) == seq![without_cr(line)] + text_lines(rest),
        line.len() > 0 ==> text_lines(line) == seq![line],
        text_lines(Seq::empty()).len() == 0,
{
    let front = line.push('\n');
    let s = front + rest;
    lemma_next_char(s, '\n', 0);
    let i = next_char(s, '\n', 0);
    assert(s[line.len() as int] == '\n');
    if i < line.len() {
        assert(s[i] == line[i]);
        assert(line.contains('\n'));
    }
    assert(s.subrange(0, i) =~= line);
    lemma_lines_from_behind(front, rest, 0);
    if line.len() > 0 {
        lemma_next_char(line, '\n', 0);
        let k = next_char(line, '\n', 0);
        if k < line.len() {
            assert(line.contains('\n'));
        }
        assert(line.skip(0) =~= line);
    }
}

pub fn lines_of(s: &str) -> (r: Vec<String>)
    ensures
        views(r@) == text_lines(s@),
{
    let v = chars_of(s);
    let mut out: Vec<String> = Vec::new();
    let mut from: usize = 0;
    while from < v.len()
        invariant
            v@ == s@,
            from <= v@.len(),
            views(out@) + lines_from(s@, from as int) == text_lines(s@),
        decreases v@.len() - from,
    {
        let i: usize = find_char(&v, '\n', from);
        proof { lemma_next_char(s@, '\n', from as int); }
        let mut to: usize = i;
        if i < v.len() && to > from && v[to - 1] == '\r' {
            to = to - 1;
        }
        let piece = string_of(&v, from, to);
        let ghost before = out@;
        let ghost piece_view = piece@;
        out.push(piece);
        assert(views(out@) =~= views(before).push(piece_view));
        if i == v.len() {
            assert(piece_view =~= s@.skip(from as int));
            from = i;
            assert(lines_from(s@, from as int) =~= Seq::empty());
        } else {
            proof {
                let whole = s@.subrange(from as int, i as int);
                if whole.len() > 0 {
                    assert(whole.last() == s@[i - 1]);
                    assert(whole.drop_last() =~= s@.subrange(from as int, i - 1));
                }
                assert(piece_view =~= without_cr(whole));
            }
            assert(views(out@) + lines_from(s@, i + 1) =~= views(before) + lines_from(
                s@,
                from as int,
            ));
            from = i + 1;
        }
    }
    assert(views(out@) =~= views(out@) + lines_from(s@, from as int));
    out
}

// ---------------------------------------------------------------------------
// Numbers
// ---------------------------------------------------------------------------

/// The decimal digit with value `d`.
pub open spec fn digit(d: nat) -> char {
    if d == 0 { '0' }
    else if d == 1 { '1' }
    else if d == 2 { '2' }
    else if d == 3 { '3' }
    else if d == 4 { '4' }
    else if d == 5 { '5' }
    else if d == 6 { '6' }
    else if d == 7 { '7' }
    else if d == 8 { '8' }
    else { '9' }
}

/// `n` in decimal, without leading zeros.
pub open spec fn decimal(n: nat) -> Seq<char>
    decreases n,
{
    if n < 10 {
        seq![digit(n)]
    } else {
        decimal(n / 10).push(digit(n % 10))
    }
}

/// The number that a digit stands for.
pub open spec fn digit_value(c: char) -> int {
    c as u32 as int - '0' as u32 as int
}

/// The number that a text of digits stands for.
pub open spec fn number_of(s: Seq<char>) -> int
    decreases s.len(),
{
    if s.len() == 0 {
        0
    } else {
        10 * number_of(s.drop_last()) + digit_value(s.last())
    }
}

/// The decimal form of a number is made of digits, reads as that number, and has no zero in front
/// of another digit.
pub proof fn law_decimals_read_as_their_number(n: nat)
    ensures
        number_of(decimal(n)) == n,
        decimal(n).len() > 0,
        forall|i: int| 0 <= i < decimal(n).len() ==> '0' <= #[trigger] decimal(n)[i] <= '9',
        n > 0 ==> decimal(n)[0] != '0',
    decreases n,
{
    if n < 10 {
        assert(decimal(n).drop_last() =~= Seq::<char>::empty());
        assert(number_of(decimal(n).drop_last()) == 0);
    } else {
        law_decimals_read_as_their_number(n / 10);
        assert(decimal(n).drop_last() =~= decimal(n / 10));
    }
}

pub fn digit_char(d: u8) -> (c: char)
    requires
        d < 10,
    ensures
        c == digit(d as nat),
{
    match d {
        0 => '0',
        1 => '1',
        2 => '2',
        3 => '3',
        4 => '4',
        5 => '5',
        6 => '6',
        7 => '7',
        8 => '8',
        _ => '9',
    }
}

pub fn to_decimal(n: u128) -> (r: String)
    ensures
        r@ == decimal(n as nat),
    decreases n,
{
    let low: u8 = (n % 10) as u8;
    let mut r = if n < 10 {
        String::new()
    } else {
        to_decimal(n / 10)
    };
    r.push(digit_char(low));
    proof {
        if n < 10 {
            assert(r@ =~= decimal(n as nat));
        }
    }
    r
}

// ---------------------------------------------------------------------------
// Bytes
// ---------------------------------------------------------------------------

/// The number of bytes of a character in UTF-8.
pub open spec fn char_width(c: char) -> nat {
    if c as u32 <= 0x7F {
        1
    } else if c as u32 <= 0x7FF {
        2
    } else if c as u32 <= 0xFFFF {
        3
    } else {
        4
    }
}

/// The number of bytes of a text in UTF-8.
pub open spec fn byte_len(s: Seq<char>) -> nat
    decreases s.len(),
{
    if s.len() == 0 {
        0
    } else {
        byte_len(s.drop_last()) + char_width(s.last())
    }
}

pub proof fn lemma_byte_len_add(a: Seq<char>, b: Seq<char>)
    ensures
        byte_len(a + b) == byte_len(a) + byte_len(b),
    decreases b.len(),
{
    if b.len() == 0 {
        assert(a + b =~= a);
    } else {
        assert((a + b).drop_last() =~= a + b.drop_last());
        lemma_byte_len_add(a, b.drop_last());
    }
}

proof fn lemma_byte_len_front(s: Seq<char>)
    requires
        s.len() > 0,
    ensures
        byte_len(s) == char_width(s[0]) + byte_len(s.drop_first()),
{
    assert(s =~= seq![s[0]] + s.drop_first());
    lemma_byte_len_add(seq![s[0]], s.drop_first());
    assert(seq![s[0]].drop_last() =~= Seq::<char>::empty());
    reveal_with_fuel(byte_len, 2);
}

/// `byte_len` counts the bytes of the UTF-8 encoding.
pub proof fn lemma_byte_len_is_utf8(s: Seq<char>)
    ensures
        byte_len(s) == encode_utf8(s).len(),
    decreases s.len(),
{
    if s.len() > 0 {
        lemma_byte_len_front(s);
        lemma_byte_len_is_utf8(s.drop_first());
        char_is_scalar(s[0]);
        assert(encode_scalar(s[0] as u32).len() == char_width(s[0]));
    }
}

/// A prefix of a text has at most as many bytes as the text.
pub proof fn lemma_byte_len_take(s: Seq<char>, i: int, j: int)
    requires
        0 <= i <= j <= s.len(),
    ensures
        byte_len(s.take(i)) <= byte_len(s.take(j)),
        i < j ==> byte_len(s.take(i)) < byte_len(s.take(j)),
        byte_len(s.take(j)) <= byte_len(s),
        byte_len(s.subrange(i, j)) == byte_len(s.take(j)) - byte_len(s.take(i)),
{
    assert(s.take(j) =~= s.take(i) + s.subrange(i, j));
    lemma_byte_len_add(s.take(i), s.subrange(i, j));
    assert(s =~= s.take(j) + s.skip(j));
    lemma_byte_len_add(s.take(j), s.skip(j));
    if i < j {
        let t = s.subrange(i, j);
        assert(char_width(t.last()) > 0);
    }
}

/// `str::len`: the number of bytes.
pub fn byte_len_of(s: &str) -> (r: usize)
    ensures
        r == byte_len(s@),
{
    proof {
        lemma_byte_len_is_utf8(s@);
    }
    s.as_bytes().len()
}

pub fn width_of(c: char) -> (r: usize)
    ensures
        r == char_width(c),
{
    let u: u32 = c as u32;
    if u <= 0x7F {
        1
    } else if u <= 0x7FF {
        2
    } else if u <= 0xFFFF {
        3
    } else {
        4
    }
}

/// The number of characters in front of byte `b`, where a character starts or the text ends
/// there.
pub open spec fn index_of_byte(s: Seq<char>, b: nat) -> Option<nat>
    decreases s.len(),
{
    if byte_len(s) == b {
        Some(s.len())
    } else if s.len() == 0 {
        None
    } else {
        index_of_byte(s.drop_last(), b)
    }
}

pub proof fn lemma_index_of_byte(s: Seq<char>, b: nat)
    ensures
        match index_of_byte(s, b) {
            Some(i) => i <= s.len() && byte_len(s.take(i as int)) == b,
            None => forall|i: int| 0 <= i <= s.len() ==> byte_len(#[trigger] s.take(i)) != b,
        },
    decreases s.len(),
{
    if byte_len(s) == b {
        assert(s.take(s.len() as int) =~= s);
    } else if s.len() == 0 {
        assert forall|i: int| 0 <= i <= s.len() implies byte_len(#[trigger] s.take(i)) != b by {
            assert(s.take(i) =~= s);
        }
    } else {
        lemma_index_of_byte(s.drop_last(), b);
        match index_of_byte(s.drop_last(), b) {
            Some(i) => {
                assert(s.drop_last().take(i as int) =~= s.take(i as int));
            },
            None => {
                assert forall|i: int| 0 <= i <= s.len() implies byte_len(#[trigger] s.take(i))
                    != b by {
                    if i < s.len() {
                        assert(s.drop_last().take(i) =~= s.take(i));
                    } else {
                        assert(s.take(i) =~= s);
                    }
                }
            },
        }
    }
}

pub proof fn lemma_index_of_byte_at(s: Seq<char>, i: int)
    requires
        0 <= i <= s.len(),
    ensures
        index_of_byte(s, byte_len(s.take(i))) == Some(i as nat),
{
    let b = byte_len(s.take(i));
    lemma_index_of_byte(s, b);
    match index_of_byte(s, b) {
        Some(k) => {
            if k < i {
                lemma_byte_len_take(s, k as int, i);
            } else if i < k {
                lemma_byte_len_take(s, i, k as int);
            }
        },
        None => {
            assert(byte_len(s.take(i)) != b);
        },
    }
}

/// Among the ASCII characters the blank and the control characters from tab to carriage return are
/// white space, and no others.
pub proof fn law_ascii_white_space(c: char)
    requires
        c as u32 <= 127,
    ensures
        is_white_space(c) <==> c == ' ' || '\t' <= c <= '\r',
{
}

/// A repeated character stands as often as it is asked for, and nothing else does.
pub proof fn law_repetitions_are_counted(c: char, n: nat)
    ensures
        repeated(c, n).len() == n,
        forall|i: int| 0 <= i < n ==> #[trigger] repeated(c, n)[i] == c,
{
}

} // verus!
