//! Hard-wrapping of styled lines.
use vstd::prelude::*;

use crate::style::{
    Line, Span, SpanView, Style, chars_of_spans, lemma_line_text_add, lemma_line_text_push,
    line_text, line_views, line_width, span, span_views,
};
use crate::text::{chars_of, find_char, lemma_next_char, next_char, string_of};

verus! {

/// The last position `p` with `lo <= p <= hi` at which `text` has a space.
pub open spec fn last_space(text: Seq<char>, lo: int, hi: int) -> Option<int>
    decreases hi - lo + 1,
{
    if hi < lo {
        None
    } else if 0 <= hi < text.len() && text[hi] == ' ' {
        Some(hi)
    } else {
        last_space(text, lo, hi - 1)
    }
}

/// Where the line that starts at position `start` ends.
///
/// What is left of the text is one line where it fits. Otherwise the line ends behind its last
/// space, but it is full where the next line can start with a space, and where it holds no space
/// to break at.
pub open spec fn line_end(text: Seq<char>, max: int, start: int) -> int {
    if text.len() - start <= max {
        text.len() as int
    } else {
        match last_space(text, start, start + max) {
            Some(p) => if p < start + max {
                p + 1
            } else {
                p
            },
            None => start + max,
        }
    }
}

/// The ranges of `text`, from position `start` on, that become lines of at most `max` columns.
pub open spec fn wrap_ranges(text: Seq<char>, max: int, start: int) -> Seq<(int, int)>
    decreases text.len() - start,
{
    if start < 0 || start >= text.len() || max <= 0 {
        Seq::empty()
    } else {
        proof {
            lemma_last_space(text, start, start + max);
        }
        let end = line_end(text, max, start);
        seq![(start, end)] + wrap_ranges(text, max, end)
    }
}

/// The part of a line between the columns `from` and `to`, each character in its own style.
pub open spec fn clip(spans: Seq<SpanView>, from: int, to: int) -> Seq<SpanView>
    decreases spans.len(),
{
    if spans.len() == 0 {
        Seq::empty()
    } else {
        let front = clip(spans.drop_last(), from, to);
        let offset = line_width(spans.drop_last());
        let last = spans.last();
        let lo = if from > offset { from - offset } else { 0 };
        let hi = if to - offset < last.content.len() { to - offset } else { last.content.len() as int };
        if lo < hi {
            front.push(span(last.content.subrange(lo, hi), last.style))
        } else {
            front
        }
    }
}

/// The words of a text and the spaces between them. A space that is the first character of the
/// text, or follows another one, belongs to the word behind it.
pub open spec fn pieces(text: Seq<char>) -> Seq<Seq<char>>
    decreases text.len(),
{
    if text.len() == 0 {
        Seq::empty()
    } else {
        proof {
            lemma_next_char(text, ' ', 1);
        }
        let end = next_char(text, ' ', 1);
        if end < text.len() {
            seq![text.take(end), seq![' ']] + pieces(text.skip(end + 1))
        } else {
            seq![text]
        }
    }
}

/// A line with a span for each word and for each space.
pub open spec fn pieced(spans: Seq<SpanView>) -> Seq<SpanView>
    decreases spans.len(),
{
    if spans.len() == 0 {
        Seq::empty()
    } else {
        pieced(spans.drop_last()) + styled_pieces(spans.last().content, spans.last().style)
    }
}

/// The words and spaces of a text in a style.
pub open spec fn styled_pieces(text: Seq<char>, style: Style) -> Seq<SpanView> {
    pieces(text).map_values(|p: Seq<char>| span(p, style))
}

/// A line wrapped to `col_width` columns. With a width of zero, or where it fits, the line stays
/// as it is. Otherwise each word and each space becomes a span of its own, which the end of a line
/// can cut in two.
pub open spec fn wrapped(spans: Seq<SpanView>, col_width: nat) -> Seq<Seq<SpanView>> {
    if col_width == 0 || line_width(spans) <= col_width {
        seq![spans]
    } else {
        wrap_ranges(line_text(spans), col_width as int, 0).map_values(
            |r: (int, int)| clip(pieced(spans), r.0, r.1),
        )
    }
}

pub proof fn lemma_last_space(text: Seq<char>, lo: int, hi: int)
    requires
        0 <= lo,
    ensures
        match last_space(text, lo, hi) {
            Some(p) => lo <= p <= hi && p < text.len() && text[p] == ' ',
            None => forall|k: int| lo <= k <= hi && k < text.len() ==> #[trigger] text[k] != ' ',
        },
    decreases hi - lo + 1,
{
    if hi >= lo && !(0 <= hi < text.len() && text[hi] == ' ') {
        lemma_last_space(text, lo, hi - 1);
    }
}

proof fn lemma_prefix_width(spans: Seq<SpanView>, i: int)
    requires
        0 <= i <= spans.len(),
    ensures
        line_width(spans.take(i)) <= line_width(spans),
    decreases spans.len() - i,
{
    if i < spans.len() {
        lemma_prefix_width(spans, i + 1);
        assert(spans.take(i + 1).drop_last() =~= spans.take(i));
    } else {
        assert(spans.take(i) =~= spans);
    }
}

/// Clipping a line clips its text.
proof fn lemma_clip_text(spans: Seq<SpanView>, from: int, to: int)
    requires
        0 <= from <= to <= line_width(spans),
    ensures
        line_text(clip(spans, from, to)) == line_text(spans).subrange(from, to),
    decreases spans.len(),
{
    if spans.len() == 0 {
        assert(line_text(spans).subrange(from, to) =~= Seq::<char>::empty());
    } else {
        let head = spans.drop_last();
        let offset = line_width(head) as int;
        let last = spans.last();
        let cut_from = if from < offset { from } else { offset };
        let cut_to = if to < offset { to } else { offset };
        lemma_clip_same(head, from, to, cut_from, cut_to);
        lemma_clip_text(head, cut_from, cut_to);
        let lo = if from > offset { from - offset } else { 0 };
        let hi = if to - offset < last.content.len() { to - offset } else { last.content.len() as int };
        if lo < hi {
            let part = span(last.content.subrange(lo, hi), last.style);
            lemma_line_text_push(clip(head, from, to), part);
        }
        assert(line_text(clip(spans, from, to)) =~= line_text(spans).subrange(from, to));
    }
}

/// Columns past the end of a line make no difference.
proof fn lemma_clip_same(spans: Seq<SpanView>, from: int, to: int, from2: int, to2: int)
    requires
        from2 == if from < line_width(spans) { from } else { line_width(spans) as int },
        to2 == if to < line_width(spans) { to } else { line_width(spans) as int },
    ensures
        clip(spans, from, to) == clip(spans, from2, to2),
    decreases spans.len(),
{
    if spans.len() > 0 {
        let head = spans.drop_last();
        let w = line_width(head) as int;
        lemma_clip_same(
            head,
            from,
            to,
            if from < w { from } else { w },
            if to < w { to } else { w },
        );
        lemma_clip_same(
            head,
            from2,
            to2,
            if from2 < w { from2 } else { w },
            if to2 < w { to2 } else { w },
        );
    }
}

/// How clipping grows by one span.
proof fn lemma_clip_step(spans: Seq<SpanView>, i: int, from: int, to: int)
    requires
        0 <= i < spans.len(),
    ensures
        ({
            let offset = line_width(spans.take(i)) as int;
            let s = spans[i];
            let lo = if from > offset { from - offset } else { 0 };
            let hi = if to - offset < s.content.len() { to - offset } else { s.content.len() as int };
            &&& line_width(spans.take(i + 1)) == offset + s.content.len()
            &&& line_width(spans.take(i + 1)) <= line_width(spans)
            &&& lo < hi ==> clip(spans.take(i + 1), from, to) == clip(
                spans.take(i),
                from,
                to,
            ).push(span(s.content.subrange(lo, hi), s.style))
            &&& lo >= hi ==> clip(spans.take(i + 1), from, to) == clip(spans.take(i), from, to)
        }),
{
    assert(spans.take(i + 1).drop_last() =~= spans.take(i));
    lemma_prefix_width(spans, i + 1);
}

#[verifier::spinoff_prover]
fn clip_spans(spans: &Vec<Span>, from: usize, to: usize, Ghost(total): Ghost<usize>) -> (r: Vec<
    Span,
>)
    requires
        line_width(span_views(spans@)) <= total,
    ensures
        span_views(r@) == clip(span_views(spans@), from as int, to as int),
{
    let mut r: Vec<Span> = Vec::new();
    let mut offset: usize = 0;
    let mut i: usize = 0;
    let ghost all = span_views(spans@);
    assert(all.take(0) =~= Seq::<SpanView>::empty());
    assert(span_views(r@) =~= Seq::<SpanView>::empty());
    while i < spans.len()
        invariant
            i <= spans@.len(),
            all == span_views(spans@),
            offset == line_width(all.take(i as int)),
            line_width(all) <= total,
            span_views(r@) == clip(all.take(i as int), from as int, to as int),
        decreases spans@.len() - i,
    {
        let cs = chars_of(spans[i].content.as_str());
        let n: usize = cs.len();
        proof {
            lemma_clip_step(all, i as int, from as int, to as int);
        }
        let lo: usize = if from > offset { from - offset } else { 0 };
        let hi: usize = if to <= offset {
            0
        } else if to - offset < n {
            to - offset
        } else {
            n
        };
        if lo < hi {
            let part = Span::styled(string_of(&cs, lo, hi), spans[i].style);
            let ghost before = r@;
            let ghost part_view = part@;
            r.push(part);
            assert(span_views(r@) =~= span_views(before).push(part_view));
        }
        offset = offset + n;
        i = i + 1;
    }
    assert(all.take(spans@.len() as int) =~= all);
    r
}

fn find_last_space(text: &Vec<char>, lo: usize, hi: usize) -> (r: Option<usize>)
    requires
        hi < text@.len(),
    ensures
        match r {
            Some(p) => last_space(text@, lo as int, hi as int) == Some(p as int),
            None => last_space(text@, lo as int, hi as int) is None,
        },
{
    assert(hi < text.len());
    let mut end: usize = hi + 1;
    while end > lo
        invariant
            end <= hi + 1 <= text@.len(),
            last_space(text@, lo as int, hi as int) == last_space(text@, lo as int, end - 1),
        decreases end,
    {
        if text[end - 1] == ' ' {
            return Some(end - 1);
        }
        end = end - 1;
    }
    None
}

/// The words and spaces of a text make up the text.
proof fn lemma_pieces(text: Seq<char>, style: Style)
    ensures
        line_text(styled_pieces(text, style)) == text,
        line_cells(styled_pieces(text, style)) == text.map_values(|c: char| (c, style)),
    decreases text.len(),
{
    let f = |c: char| (c, style);
    let all = styled_pieces(text, style);
    if text.len() == 0 {
        assert(all =~= Seq::<SpanView>::empty());
        assert(text.map_values(f) =~= Seq::<(char, Style)>::empty());
    } else {
        lemma_next_char(text, ' ', 1);
        let end = next_char(text, ' ', 1);
        if end < text.len() {
            let word = text.take(end);
            let rest = text.skip(end + 1);
            let head = seq![span(word, style), span(seq![' '], style)];
            lemma_pieces(rest, style);
            assert(all =~= head + styled_pieces(rest, style));
            lemma_line_text_add(head, styled_pieces(rest, style));
            lemma_cells_add(head, styled_pieces(rest, style));
            lemma_two_spans(span(word, style), span(seq![' '], style));
            assert(text =~= (word + seq![' ']) + rest);
            assert(text.map_values(f) =~= (word.map_values(f) + seq![' '].map_values(f))
                + rest.map_values(f));
        } else {
            assert(all =~= seq![span(text, style)]);
            lemma_one_span(span(text, style));
        }
    }
}

proof fn lemma_one_span(a: SpanView)
    ensures
        line_text(seq![a]) == a.content,
        line_cells(seq![a]) == a.content.map_values(|c: char| (c, a.style)),
{
    let none = Seq::<SpanView>::empty();
    assert(seq![a] =~= none.push(a));
    lemma_line_text_push(none, a);
    lemma_cells_push(none, a);
    assert(line_text(none) + a.content =~= a.content);
    assert(line_cells(none) + a.content.map_values(|c: char| (c, a.style)) =~= a.content.map_values(
        |c: char| (c, a.style),
    ));
}

proof fn lemma_two_spans(a: SpanView, b: SpanView)
    ensures
        line_text(seq![a, b]) == a.content + b.content,
        line_cells(seq![a, b]) == a.content.map_values(|c: char| (c, a.style))
            + b.content.map_values(|c: char| (c, b.style)),
{
    lemma_one_span(a);
    assert(seq![a, b] =~= seq![a].push(b));
    lemma_line_text_push(seq![a], b);
    lemma_cells_push(seq![a], b);
}

proof fn lemma_cells_push(spans: Seq<SpanView>, s: SpanView)
    ensures
        line_cells(spans.push(s)) == line_cells(spans) + s.content.map_values(
            |c: char| (c, s.style),
        ),
{
    assert(spans.push(s).drop_last() =~= spans);
}

proof fn lemma_cells_add(a: Seq<SpanView>, b: Seq<SpanView>)
    ensures
        line_cells(a + b) == line_cells(a) + line_cells(b),
    decreases b.len(),
{
    if b.len() == 0 {
        assert(a + b =~= a);
        assert(line_cells(a) + line_cells(b) =~= line_cells(a));
    } else {
        assert((a + b).drop_last() =~= a + b.drop_last());
        lemma_cells_add(a, b.drop_last());
        assert(line_cells(a + b) =~= line_cells(a) + line_cells(b));
    }
}

/// Cutting a line into words and spaces changes no character and no style.
proof fn lemma_pieced(spans: Seq<SpanView>)
    ensures
        line_text(pieced(spans)) == line_text(spans),
        line_cells(pieced(spans)) == line_cells(spans),
    decreases spans.len(),
{
    if spans.len() > 0 {
        let front = pieced(spans.drop_last());
        let last = styled_pieces(spans.last().content, spans.last().style);
        lemma_pieced(spans.drop_last());
        lemma_pieces(spans.last().content, spans.last().style);
        lemma_line_text_add(front, last);
        lemma_cells_add(front, last);
    }
}

/// Skipping characters shifts where the next one is found.
proof fn lemma_next_char_skip(s: Seq<char>, start: int, from: int)
    requires
        0 <= start,
        0 <= from,
        start + from <= s.len(),
    ensures
        next_char(s.skip(start), ' ', from) == next_char(s, ' ', start + from) - start,
    decreases s.len() - from,
{
    if start + from < s.len() && s[start + from] != ' ' {
        lemma_next_char_skip(s, start, from + 1);
    }
}

/// Appends the words and spaces of a text in a style.
fn push_pieces(out: &mut Vec<Span>, content: &str, style: Style)
    ensures
        span_views(final(out)@) == span_views(old(out)@) + styled_pieces(content@, style),
{
    let v = chars_of(content);
    let ghost goal = span_views(out@) + styled_pieces(content@, style);
    let mut start: usize = 0;
    assert(v@.skip(0) =~= v@);
    while start < v.len()
        invariant
            start <= v@.len(),
            span_views(out@) + styled_pieces(v@.skip(start as int), style) == goal,
        decreases v@.len() - start,
    {
        let ghost rest = v@.skip(start as int);
        let ghost before = span_views(out@);
        let end: usize = find_char(&v, ' ', start + 1);
        proof {
            lemma_next_char_skip(v@, start as int, 1);
            assert(v@.subrange(start as int, end as int) =~= rest.take(end - start));
        }
        let word = Span::styled(string_of(&v, start, end), style);
        let ghost word_view = word@;
        out.push(word);
        assert(span_views(out@) =~= before.push(word_view));
        if end < v.len() {
            let space = Span::styled(" ".to_owned(), style);
            let ghost space_view = space@;
            proof {
                reveal_strlit(" ");
                assert(" "@ =~= seq![' ']);
            }
            out.push(space);
            proof {
                let tail = v@.skip(end + 1);
                assert(span_views(out@) =~= before.push(word_view).push(space_view));
                assert(rest.skip(end - start + 1) =~= tail);
                assert(styled_pieces(rest, style) =~= seq![word_view, space_view]
                    + styled_pieces(tail, style));
                assert(before.push(word_view).push(space_view) + styled_pieces(tail, style)
                    =~= before + (seq![word_view, space_view] + styled_pieces(tail, style)));
            }
            start = end + 1;
        } else {
            proof {
                let tail = v@.skip(end as int);
                assert(rest.take(end - start) =~= rest);
                assert(styled_pieces(rest, style) =~= seq![word_view]);
                assert(styled_pieces(tail, style) =~= Seq::<SpanView>::empty());
                assert(before.push(word_view) + styled_pieces(tail, style) =~= before + seq![
                    word_view,
                ]);
            }
            start = end;
        }
    }
    assert(styled_pieces(v@.skip(start as int), style) =~= Seq::<SpanView>::empty());
    assert(span_views(out@) =~= goal);
}

/// Cuts a line into its words and spaces.
fn cut_words(spans: &Vec<Span>) -> (r: Vec<Span>)
    ensures
        span_views(r@) == pieced(span_views(spans@)),
{
    let mut r: Vec<Span> = Vec::new();
    let ghost all = span_views(spans@);
    let mut i: usize = 0;
    assert(all.take(0) =~= Seq::<SpanView>::empty());
    assert(span_views(r@) =~= pieced(all.take(0)));
    while i < spans.len()
        invariant
            i <= spans@.len(),
            all == span_views(spans@),
            span_views(r@) == pieced(all.take(i as int)),
        decreases spans@.len() - i,
    {
        push_pieces(&mut r, spans[i].content.as_str(), spans[i].style);
        i = i + 1;
        assert(all.take(i as int).drop_last() =~= all.take(i - 1));
        assert(all.take(i as int).last() == spans@[i - 1]@);
    }
    assert(all.take(i as int) =~= all);
    r
}

/// Hard-wraps a sequence of styled spans into lines no wider than `col_width` columns.
///
/// Wrapping occurs at the last space boundary before `col_width`. A single word that exceeds
/// `col_width` is split at the column boundary. Every character stays: a space that would stand
/// just behind a full line starts the next one. In a line that is wrapped each word and each space
/// is a span of its own.
pub fn wrap_line(spans: Vec<Span>, col_width: u16) -> (r: Vec<Line>)
    ensures
        line_views(r@) == wrapped(span_views(spans@), col_width as nat),
{
    let text = chars_of_spans(&spans);
    let ghost all = span_views(spans@);
    let max: usize = col_width as usize;
    let mut out: Vec<Line> = Vec::new();
    if max == 0 || text.len() <= max {
        out.push(Line::from_spans(spans));
        assert(line_views(out@) =~= seq![all]);
        return out;
    }
    let words = cut_words(&spans);
    proof {
        lemma_pieced(all);
    }
    let ghost cut = pieced(all);
    let ghost f = |r: (int, int)| clip(cut, r.0, r.1);
    let ghost goal = wrap_ranges(text@, max as int, 0);
    let ghost mut done: Seq<(int, int)> = Seq::empty();
    let mut start: usize = 0;
    assert(done + wrap_ranges(text@, max as int, 0) =~= goal);
    assert(line_views(out@) =~= done.map_values(f));
    while start < text.len()
        invariant
            cut == span_views(words@),
            text@ == line_text(cut),
            max > 0,
            start <= text@.len(),
            f == (|r: (int, int)| clip(cut, r.0, r.1)),
            done + wrap_ranges(text@, max as int, start as int) == goal,
            line_views(out@) == done.map_values(f),
        decreases text@.len() - start,
    {
        proof {
            lemma_last_space(text@, start as int, start + max);
        }
        let end: usize = if text.len() - start <= max {
            text.len()
        } else {
            match find_last_space(&text, start, start + max) {
                Some(p) => if p < start + max {
                    p + 1
                } else {
                    p
                },
                None => start + max,
            }
        };
        let ghost before = out@;
        let ghost rest = wrap_ranges(text@, max as int, end as int);
        let line = Line::from_spans(clip_spans(&words, start, end, Ghost(text.len())));
        let ghost line_view = line@;
        out.push(line);
        proof {
            assert(wrap_ranges(text@, max as int, start as int) =~= seq![
                (start as int, end as int),
            ] + rest);
            assert(done + (seq![(start as int, end as int)] + rest) =~= done.push(
                (start as int, end as int),
            ) + rest);
            assert(line_views(out@) =~= line_views(before).push(line_view));
            assert(done.push((start as int, end as int)).map_values(f) =~= done.map_values(f).push(
                clip(cut, start as int, end as int),
            ));
            done = done.push((start as int, end as int));
        }
        start = end;
    }
    assert(done + wrap_ranges(text@, max as int, start as int) =~= done);
    assert(goal.map_values(f) =~= wrapped(all, col_width as nat));
    out
}

// ---------------------------------------------------------------------------
// Laws
// ---------------------------------------------------------------------------

proof fn lemma_line_end(text: Seq<char>, max: int, start: int)
    requires
        0 <= start < text.len(),
        max > 0,
    ensures
        start < line_end(text, max, start) <= text.len(),
        line_end(text, max, start) - start <= max,
        cut_is_fair(text, max, start, line_end(text, max, start)),
{
    lemma_last_space(text, start, start + max);
}

/// The ranges follow one another from `start` to the end of the text without a hole.
pub open spec fn cover(ranges: Seq<(int, int)>, start: int, end: int) -> bool {
    &&& ranges.len() == 0 ==> start == end
    &&& ranges.len() > 0 ==> ranges[0].0 == start && ranges.last().1 == end
    &&& forall|k: int|
        0 <= k < ranges.len() - 1 ==> (#[trigger] ranges[k]).1 == ranges[k + 1].0
}

proof fn lemma_ranges(text: Seq<char>, max: int, start: int)
    requires
        0 <= start <= text.len(),
        max > 0,
    ensures
        cover(wrap_ranges(text, max, start), start, text.len() as int),
        forall|k: int|
            0 <= k < wrap_ranges(text, max, start).len() ==> {
                let r = #[trigger] wrap_ranges(text, max, start)[k];
                start <= r.0 < r.1 <= text.len() && r.1 - r.0 <= max && cut_is_fair(
                    text,
                    max,
                    r.0,
                    r.1,
                )
            },
    decreases text.len() - start,
{
    let ranges = wrap_ranges(text, max, start);
    if start < text.len() {
        let end = line_end(text, max, start);
        let rest = wrap_ranges(text, max, end);
        lemma_line_end(text, max, start);
        lemma_ranges(text, max, end);
        assert(ranges =~= seq![(start, end)] + rest);
        assert forall|k: int| 0 <= k < ranges.len() implies {
            let r = #[trigger] ranges[k];
            start <= r.0 < r.1 <= text.len() && r.1 - r.0 <= max && cut_is_fair(
                text,
                max,
                r.0,
                r.1,
            )
        } by {
            if k > 0 {
                assert(ranges[k] == rest[k - 1]);
            }
        }
        assert forall|k: int| 0 <= k < ranges.len() - 1 implies (#[trigger] ranges[k]).1 == ranges[k
            + 1].0 by {
            assert(ranges[k + 1] == rest[k]);
            if k > 0 {
                assert(ranges[k] == rest[k - 1]);
            }
        }
        if rest.len() > 0 {
            assert(ranges.last() == rest.last());
        }
    }
}

/// A line that ends at column `to` ends at the end of the text or at a space, unless it is full
/// and holds no space.
pub open spec fn cut_is_fair(text: Seq<char>, max: int, from: int, to: int) -> bool {
    ||| to == text.len()
    ||| text[to] == ' '
    ||| text[to - 1] == ' '
    ||| (to - from == max && forall|k: int| from <= k < to ==> #[trigger] text[k] != ' ')
}

/// No line of a wrapped text is wider than the column width.
pub proof fn law_wrapped_lines_fit(spans: Seq<SpanView>, col_width: nat)
    requires
        col_width > 0,
    ensures
        forall|k: int|
            0 <= k < wrapped(spans, col_width).len() ==> line_width(
                #[trigger] wrapped(spans, col_width)[k],
            ) <= col_width,
{
    let text = line_text(spans);
    if line_width(spans) > col_width {
        let ranges = wrap_ranges(text, col_width as int, 0);
        lemma_ranges(text, col_width as int, 0);
        assert forall|k: int| 0 <= k < wrapped(spans, col_width).len() implies line_width(
            #[trigger] wrapped(spans, col_width)[k],
        ) <= col_width by {
            let r = ranges[k];
            lemma_pieced(spans);
            lemma_clip_text(pieced(spans), r.0, r.1);
        }
    }
}

/// A line is only cut inside a word that is wider than the line: every line of a wrapped text is
/// a range of the text that ends at a space, at the end of the text, or is full and has no space
/// in it.
pub proof fn law_words_are_kept_whole(spans: Seq<SpanView>, col_width: nat, k: int)
    requires
        col_width > 0,
        0 <= k < wrapped(spans, col_width).len(),
    ensures
        exists|from: int, to: int|
            0 <= from <= to <= line_width(spans) && cut_is_fair(
                line_text(spans),
                col_width as int,
                from,
                to,
            ) && line_text(wrapped(spans, col_width)[k]) == #[trigger] line_text(spans).subrange(
                from,
                to,
            ),
{
    let text = line_text(spans);
    if line_width(spans) > col_width {
        let r = wrap_ranges(text, col_width as int, 0)[k];
        lemma_ranges(text, col_width as int, 0);
        lemma_pieced(spans);
        lemma_clip_text(pieced(spans), r.0, r.1);
        assert(line_text(wrapped(spans, col_width)[k]) == text.subrange(r.0, r.1));
    } else {
        assert(text.subrange(0, text.len() as int) =~= text);
        assert(cut_is_fair(text, col_width as int, 0, text.len() as int));
    }
}

/// The characters of a line, each with its style.
pub open spec fn line_cells(spans: Seq<SpanView>) -> Seq<(char, Style)>
    decreases spans.len(),
{
    if spans.len() == 0 {
        Seq::empty()
    } else {
        line_cells(spans.drop_last()) + spans.last().content.map_values(
            |c: char| (c, spans.last().style),
        )
    }
}

/// The characters of all lines, one line after the other.
pub open spec fn lines_text(lines: Seq<Seq<SpanView>>) -> Seq<char>
    decreases lines.len(),
{
    if lines.len() == 0 {
        Seq::empty()
    } else {
        line_text(lines[0]) + lines_text(lines.drop_first())
    }
}

/// The characters of all lines, each with its style, one line after the other.
pub open spec fn lines_cells(lines: Seq<Seq<SpanView>>) -> Seq<(char, Style)>
    decreases lines.len(),
{
    if lines.len() == 0 {
        Seq::empty()
    } else {
        line_cells(lines[0]) + lines_cells(lines.drop_first())
    }
}

proof fn lemma_cells_len(spans: Seq<SpanView>)
    ensures
        line_cells(spans).len() == line_width(spans),
    decreases spans.len(),
{
    if spans.len() > 0 {
        lemma_cells_len(spans.drop_last());
    }
}

/// Clipping a line keeps the style of every character.
proof fn lemma_clip_cells(spans: Seq<SpanView>, from: int, to: int)
    requires
        0 <= from <= to <= line_width(spans),
    ensures
        line_cells(clip(spans, from, to)) == line_cells(spans).subrange(from, to),
    decreases spans.len(),
{
    lemma_cells_len(spans);
    if spans.len() == 0 {
        assert(line_cells(spans).subrange(from, to) =~= Seq::<(char, Style)>::empty());
    } else {
        let head = spans.drop_last();
        let offset = line_width(head) as int;
        let last = spans.last();
        lemma_cells_len(head);
        let cut_from = if from < offset {
            from
        } else {
            offset
        };
        let cut_to = if to < offset {
            to
        } else {
            offset
        };
        lemma_clip_same(head, from, to, cut_from, cut_to);
        lemma_clip_cells(head, cut_from, cut_to);
        let lo = if from > offset {
            from - offset
        } else {
            0
        };
        let hi = if to - offset < last.content.len() {
            to - offset
        } else {
            last.content.len() as int
        };
        if lo < hi {
            let part = span(last.content.subrange(lo, hi), last.style);
            assert(clip(head, from, to).push(part).drop_last() =~= clip(head, from, to));
        }
        assert(line_cells(clip(spans, from, to)) =~= line_cells(spans).subrange(from, to));
    }
}

proof fn lemma_ranges_content(spans: Seq<SpanView>, max: int, start: int)
    requires
        0 <= start <= line_width(spans),
        max > 0,
    ensures
        ({
            let lines = wrap_ranges(line_text(spans), max, start).map_values(
                |r: (int, int)| clip(spans, r.0, r.1),
            );
            &&& lines_text(lines) == line_text(spans).skip(start)
            &&& lines_cells(lines) == line_cells(spans).skip(start)
        }),
    decreases line_width(spans) - start,
{
    let text = line_text(spans);
    let cells = line_cells(spans);
    let f = |r: (int, int)| clip(spans, r.0, r.1);
    let ranges = wrap_ranges(text, max, start);
    let lines = ranges.map_values(f);
    lemma_cells_len(spans);
    if start >= text.len() {
        assert(text.skip(start) =~= Seq::<char>::empty());
        assert(cells.skip(start) =~= Seq::<(char, Style)>::empty());
        assert(lines =~= Seq::<Seq<SpanView>>::empty());
    } else {
        let end = line_end(text, max, start);
        let rest = wrap_ranges(text, max, end);
        lemma_line_end(text, max, start);
        assert(ranges =~= seq![(start, end)] + rest);
        assert(lines.drop_first() =~= rest.map_values(f));
        assert(lines[0] == clip(spans, start, end));
        lemma_clip_text(spans, start, end);
        lemma_clip_cells(spans, start, end);
        lemma_ranges_content(spans, max, end);
        assert(text.skip(start) =~= text.subrange(start, end) + text.skip(end));
        assert(cells.skip(start) =~= cells.subrange(start, end) + cells.skip(end));
    }
}

/// Wrapping loses, adds and reorders no character, spaces included, and every character keeps its
/// style.
pub proof fn law_wrapping_keeps_content(spans: Seq<SpanView>, col_width: nat)
    ensures
        lines_text(wrapped(spans, col_width)) == line_text(spans),
        lines_cells(wrapped(spans, col_width)) == line_cells(spans),
        wrapped(spans, col_width).len() > 0,
{
    if col_width == 0 || line_width(spans) <= col_width {
        let lines = seq![spans];
        assert(lines.drop_first() =~= Seq::<Seq<SpanView>>::empty());
        assert(lines_text(lines.drop_first()) =~= Seq::<char>::empty());
        assert(lines_cells(lines.drop_first()) =~= Seq::<(char, Style)>::empty());
        assert(lines_text(lines) =~= line_text(spans));
        assert(lines_cells(lines) =~= line_cells(spans));
    } else {
        lemma_pieced(spans);
        lemma_ranges_content(pieced(spans), col_width as int, 0);
        assert(line_text(spans).skip(0) =~= line_text(spans));
        assert(line_cells(spans).skip(0) =~= line_cells(spans));
    }
}

/// The lines of a wrapped text are ranges of it that follow one another without a hole.
pub proof fn law_wrapped_lines_cover_the_text(spans: Seq<SpanView>, col_width: nat)
    requires
        0 < col_width < line_width(spans),
    ensures
        cover(wrap_ranges(line_text(spans), col_width as int, 0), 0, line_width(spans) as int),
{
    lemma_ranges(line_text(spans), col_width as int, 0);
}

/// A line from column `from` to column `to` is as full as it can be: no space at which it could
/// have been broken further to the right lies within the width, and the next line begins with a
/// space only where this one is full.
pub open spec fn is_filled(text: Seq<char>, max: int, from: int, to: int) -> bool {
    to < text.len() ==> {
        &&& forall|p: int| to < p <= from + max && p < text.len() ==> #[trigger] text[p] != ' '
        &&& text[to] == ' ' ==> to == from + max
    }
}

proof fn lemma_last_space_is_last(text: Seq<char>, lo: int, hi: int)
    requires
        0 <= lo,
        hi < text.len(),
    ensures
        match last_space(text, lo, hi) {
            Some(p) => lo <= p <= hi && text[p] == ' ' && forall|q: int|
                p < q <= hi ==> #[trigger] text[q] != ' ',
            None => forall|q: int| lo <= q <= hi ==> #[trigger] text[q] != ' ',
        },
    decreases hi - lo + 1,
{
    if lo <= hi && text[hi] != ' ' {
        lemma_last_space_is_last(text, lo, hi - 1);
    }
}

proof fn lemma_filled(text: Seq<char>, max: int, start: int, k: int)
    requires
        0 <= start <= text.len(),
        max > 0,
        0 <= k < wrap_ranges(text, max, start).len(),
    ensures
        ({
            let r = wrap_ranges(text, max, start)[k];
            is_filled(text, max, r.0, r.1)
        }),
    decreases text.len() - start,
{
    let end = line_end(text, max, start);
    let rest = wrap_ranges(text, max, end);
    lemma_line_end(text, max, start);
    assert(wrap_ranges(text, max, start) == seq![(start, end)] + rest);
    if k == 0 {
        if end < text.len() {
            lemma_last_space_is_last(text, start, start + max);
        }
    } else {
        lemma_filled(text, max, end, k - 1);
        assert(wrap_ranges(text, max, start)[k] == rest[k - 1]);
    }
}

/// Wrapping fills the lines: a text that is too wide is cut into ranges that follow one another,
/// each of which becomes a line, and every line takes as many words as fit.
pub proof fn law_lines_are_filled(spans: Seq<SpanView>, col_width: nat) -> (ranges: Seq<(int, int)>)
    requires
        0 < col_width < line_width(spans),
    ensures
        ({
            let text = line_text(spans);
            let lines = wrapped(spans, col_width);
            &&& ranges.len() == lines.len()
            &&& cover(ranges, 0, text.len() as int)
            &&& forall|k: int|
                0 <= k < ranges.len() ==> {
                    let r = #[trigger] ranges[k];
                    &&& 0 <= r.0 < r.1 <= text.len()
                    &&& r.1 - r.0 <= col_width
                    &&& is_filled(text, col_width as int, r.0, r.1)
                    &&& line_text(lines[k]) == text.subrange(r.0, r.1)
                }
        }),
{
    let text = line_text(spans);
    let max = col_width as int;
    let ranges = wrap_ranges(text, max, 0);
    lemma_ranges(text, max, 0);
    lemma_pieced(spans);
    assert forall|k: int| 0 <= k < ranges.len() implies {
        let r = #[trigger] ranges[k];
        &&& 0 <= r.0 < r.1 <= text.len()
        &&& r.1 - r.0 <= col_width
        &&& is_filled(text, col_width as int, r.0, r.1)
        &&& line_text(wrapped(spans, col_width)[k]) == text.subrange(r.0, r.1)
    } by {
        let r = ranges[k];
        lemma_filled(text, max, 0, k);
        lemma_clip_text(pieced(spans), r.0, r.1);
    }
    ranges
}

/// A line that fits is not cut.
pub proof fn law_lines_that_fit_stay(spans: Seq<SpanView>, col_width: nat)
    requires
        line_width(spans) <= col_width || col_width == 0,
    ensures
        wrapped(spans, col_width) == seq![spans],
{
}

} // verus!
