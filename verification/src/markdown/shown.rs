//! What a rendered document shows, in terms of what was written.
use vstd::prelude::*;

use crate::links::{LinkTargetView, LinkView};
use crate::markdown::events::{MdEventView, MdTagEnd, MdTagView};
use crate::markdown::render::{
    RenderEnv, RenderState, after_event, after_events, gutter_span, initial_state, rendered,
    wiki_links_from, wiki_page,
};
use crate::markdown::wrap::{law_wrapping_keeps_content, lines_text, wrapped};
use crate::style::{SpanView, Style, lemma_line_text_add, lemma_line_text_push, line_text, span};
use crate::text::{
    all_white_space, first_at, is_trim, law_trimming_takes_white_space_from_both_ends,
    lemma_first_at, lemma_next_char, next_char, occurs_at,
};

verus! {

// ---------------------------------------------------------------------------
// Running text
// ---------------------------------------------------------------------------

/// An event of running text: it neither opens nor closes a block, nor ends the line.
pub open spec fn is_inline(event: MdEventView) -> bool {
    match event {
        MdEventView::Text(_)
        | MdEventView::Code(_)
        | MdEventView::SoftBreak
        | MdEventView::TaskListMarker(_)
        | MdEventView::Other => true,
        MdEventView::Start(tag) => tag is Strong || tag is Emphasis || tag is Strikethrough
            || tag is Link || tag is Paragraph || tag is TableHead || tag is TableRow
            || tag is TableCell || tag is Other,
        MdEventView::End(tag) => tag is Strong || tag is Emphasis || tag is Strikethrough
            || tag is Link || tag is Item || tag is TableCell || tag is Other,
        _ => false,
    }
}

/// The characters that an event of running text puts on the line.
pub open spec fn written(event: MdEventView) -> Seq<char> {
    match event {
        MdEventView::Text(text) => text,
        MdEventView::Code(text) => seq!['`'] + text + seq!['`'],
        MdEventView::SoftBreak => seq![' '],
        MdEventView::TaskListMarker(true) => seq!['✓', ' '],
        MdEventView::TaskListMarker(false) => seq!['☐', ' '],
        MdEventView::End(MdTagEnd::TableCell) => seq![' ', ' ', '|', ' ', ' '],
        _ => Seq::empty(),
    }
}

/// What events of running text put on the line, one behind the other.
pub open spec fn written_all(events: Seq<MdEventView>) -> Seq<char>
    decreases events.len(),
{
    if events.len() == 0 {
        Seq::empty()
    } else {
        written_all(events.drop_last()) + written(events.last())
    }
}

/// The plain text among events.
pub open spec fn plain_text(events: Seq<MdEventView>) -> Seq<char>
    decreases events.len(),
{
    if events.len() == 0 {
        Seq::empty()
    } else {
        plain_text(events.drop_last()) + match events.last() {
            MdEventView::Text(text) => text,
            _ => Seq::empty(),
        }
    }
}

pub open spec fn all_inline(events: Seq<MdEventView>) -> bool {
    forall|i: int| 0 <= i < events.len() ==> is_inline(#[trigger] events[i])
}

/// Text is neither code of a block nor the description of an image.
pub open spec fn takes_text(s: RenderState) -> bool {
    !s.in_code && !s.in_image
}

/// The blocks that are open, and the lines that are finished.
pub open spec fn same_block(t: RenderState, s: RenderState) -> bool {
    &&& t.lines == s.lines
    &&& t.quotes == s.quotes
    &&& t.prefix == s.prefix
    &&& t.lists == s.lists
    &&& t.in_code == s.in_code
    &&& t.in_image == s.in_image
    &&& t.in_heading == s.in_heading
    &&& t.env == s.env
}

proof fn lemma_literals()
    ensures
        "`"@ == seq!['`'],
        " "@ == seq![' '],
        "✓ "@ == seq!['✓', ' '],
        "☐ "@ == seq!['☐', ' '],
        "  |  "@ == seq![' ', ' ', '|', ' ', ' '],
{
    reveal_strlit("`");
    reveal_strlit(" ");
    reveal_strlit("✓ ");
    reveal_strlit("☐ ");
    reveal_strlit("  |  ");
    assert("`"@ =~= seq!['`']);
    assert(" "@ =~= seq![' ']);
    assert("✓ "@ =~= seq!['✓', ' ']);
    assert("☐ "@ =~= seq!['☐', ' ']);
    assert("  |  "@ =~= seq![' ', ' ', '|', ' ', ' ']);
}

proof fn lemma_push_text(s: RenderState, text: Seq<char>)
    ensures
        line_text(s.push_text(text).spans) == line_text(s.spans) + text,
        s.push_text(text) == (RenderState { spans: s.push_text(text).spans, ..s }),
{
    if text.len() > 0 {
        lemma_line_text_push(s.spans, span(text, s.style()));
    } else {
        assert(line_text(s.spans) + text =~= line_text(s.spans));
        assert(s.push_text(text) =~= s);
    }
}

proof fn lemma_push_span(s: RenderState, content: Seq<char>, style: Style)
    ensures
        line_text(s.push_span(content, style).spans) == line_text(s.spans) + content,
{
    lemma_line_text_push(s.spans, span(content, style));
}

proof fn lemma_inline_event(s: RenderState, event: MdEventView)
    requires
        takes_text(s),
        is_inline(event),
    ensures
        line_text(after_event(s, event).spans) == line_text(s.spans) + written(event),
        same_block(after_event(s, event), s),
        s.env.wiki_links ==> after_event(s, event).paragraph == s.paragraph + plain_text(
            seq![event],
        ),
        s.in_heading ==> after_event(s, event).heading_text == s.heading_text + plain_text(
            seq![event],
        ),
{
    lemma_literals();
    assert(seq![event].drop_last() =~= Seq::<MdEventView>::empty());
    assert(plain_text(seq![event].drop_last()) =~= Seq::<char>::empty());
    let t = after_event(s, event);
    match event {
        MdEventView::Text(text) => {
            lemma_push_text(
                RenderState {
                    heading_text: t.heading_text,
                    link_text: t.link_text,
                    paragraph: t.paragraph,
                    ..s
                },
                text,
            );
            assert(plain_text(seq![event]) =~= text);
        },
        MdEventView::SoftBreak => {
            lemma_push_text(s, " "@);
            assert(s.paragraph + plain_text(seq![event]) =~= s.paragraph);
            assert(s.heading_text + plain_text(seq![event]) =~= s.heading_text);
        },
        MdEventView::Code(text) => {
            lemma_push_span(s, "`"@ + text + "`"@, t.spans.last().style);
            assert(s.paragraph + plain_text(seq![event]) =~= s.paragraph);
            assert(s.heading_text + plain_text(seq![event]) =~= s.heading_text);
        },
        MdEventView::TaskListMarker(checked) => {
            lemma_push_span(s, written(event), t.spans.last().style);
            assert(s.paragraph + plain_text(seq![event]) =~= s.paragraph);
            assert(s.heading_text + plain_text(seq![event]) =~= s.heading_text);
        },
        MdEventView::End(MdTagEnd::TableCell) => {
            lemma_push_span(s, written(event), t.spans.last().style);
            assert(s.paragraph + plain_text(seq![event]) =~= s.paragraph);
            assert(s.heading_text + plain_text(seq![event]) =~= s.heading_text);
        },
        _ => {
            assert(line_text(s.spans) + written(event) =~= line_text(s.spans));
            assert(s.paragraph + plain_text(seq![event]) =~= s.paragraph);
            assert(s.heading_text + plain_text(seq![event]) =~= s.heading_text);
        },
    }
}

/// Running text is shown as it is written: the line that is being built grows by exactly the text,
/// in order, with one space for every soft break, inline code between back quotes, and a mark for
/// every task. No line ends, and no text is lost to a style, a link or a table.
pub proof fn law_running_text_is_shown(s: RenderState, events: Seq<MdEventView>)
    requires
        takes_text(s),
        all_inline(events),
    ensures
        line_text(after_events(s, events).spans) == line_text(s.spans) + written_all(events),
        same_block(after_events(s, events), s),
        s.env.wiki_links ==> after_events(s, events).paragraph == s.paragraph + plain_text(events),
        s.in_heading ==> after_events(s, events).heading_text == s.heading_text + plain_text(
            events,
        ),
    decreases events.len(),
{
    if events.len() == 0 {
        assert(line_text(s.spans) + written_all(events) =~= line_text(s.spans));
        assert(s.paragraph + plain_text(events) =~= s.paragraph);
        assert(s.heading_text + plain_text(events) =~= s.heading_text);
    } else {
        let front = events.drop_last();
        let last = events.last();
        assert(events[events.len() - 1] == last);
        law_running_text_is_shown(s, front);
        let u = after_events(s, front);
        lemma_inline_event(u, last);
        assert(seq![last].drop_last() =~= Seq::<MdEventView>::empty());
        assert(plain_text(seq![last].drop_last()) =~= Seq::<char>::empty());
        assert(plain_text(events) =~= plain_text(front) + plain_text(seq![last]));
        assert(line_text(s.spans) + written_all(events) =~= line_text(s.spans) + written_all(front)
            + written(last));
        assert(s.paragraph + plain_text(events) =~= s.paragraph + plain_text(front) + plain_text(
            seq![last],
        ));
        assert(s.heading_text + plain_text(events) =~= s.heading_text + plain_text(front)
            + plain_text(seq![last]));
    }
}

/// The words of a paragraph stay apart: two texts with a soft break between them stand on the line
/// with exactly one space between them.
pub proof fn law_words_stay_apart(s: RenderState, a: Seq<char>, b: Seq<char>)
    requires
        takes_text(s),
    ensures
        ({
            let events = seq![MdEventView::Text(a), MdEventView::SoftBreak, MdEventView::Text(b)];
            let t = after_events(s, events);
            &&& line_text(t.spans) == line_text(s.spans) + a + seq![' '] + b
            &&& t.lines == s.lines
        }),
{
    let events = seq![MdEventView::Text(a), MdEventView::SoftBreak, MdEventView::Text(b)];
    law_running_text_is_shown(s, events);
    let two = events.drop_last();
    let one = two.drop_last();
    assert(one.drop_last() =~= Seq::<MdEventView>::empty());
    assert(written_all(one.drop_last()) =~= Seq::<char>::empty());
    assert(written_all(one) =~= a);
    assert(written_all(two) =~= a + seq![' ']);
    assert(written_all(events) =~= a + seq![' '] + b);
    assert(line_text(s.spans) + written_all(events) =~= line_text(s.spans) + a + seq![' '] + b);
}

// ---------------------------------------------------------------------------
// Finished lines
// ---------------------------------------------------------------------------

/// The gutter of block quotes that are open.
pub open spec fn gutters(quotes: nat) -> Seq<char>
    decreases quotes,
{
    if quotes == 0 {
        Seq::empty()
    } else {
        gutters((quotes - 1) as nat) + seq!['▌', ' ']
    }
}

/// What the line that is being built shows: a gutter for each open block quote, the mark of the
/// block, and the text.
pub open spec fn shown_line(s: RenderState) -> Seq<char> {
    gutters(s.quotes) + (match s.prefix {
        Some(p) => p,
        None => Seq::empty(),
    }) + line_text(s.spans)
}

proof fn lemma_gutters(n: nat)
    ensures
        line_text(Seq::new(n, |i: int| gutter_span())) == gutters(n),
    decreases n,
{
    let all = Seq::new(n, |i: int| gutter_span());
    if n > 0 {
        reveal_strlit("▌ ");
        assert("▌ "@ =~= seq!['▌', ' ']);
        assert(all.drop_last() =~= Seq::new((n - 1) as nat, |i: int| gutter_span()));
        lemma_gutters((n - 1) as nat);
    }
}

proof fn lemma_assembled(s: RenderState)
    ensures
        line_text(s.assembled()) == shown_line(s),
{
    let gutter = Seq::new(s.quotes, |i: int| gutter_span());
    lemma_gutters(s.quotes);
    let all = s.assembled();
    match s.prefix {
        Some(p) => {
            let mark = all[s.quotes as int];
            assert(all =~= gutter + seq![mark] + s.spans);
            lemma_line_text_add(gutter + seq![mark], s.spans);
            lemma_line_text_add(gutter, seq![mark]);
            assert(seq![mark].drop_last() =~= Seq::<SpanView>::empty());
            assert(mark.content == p);
            assert(line_text(seq![mark].drop_last()) =~= Seq::<char>::empty());
            assert(line_text(seq![mark]) =~= p);
        },
        None => {
            assert(all =~= gutter + s.spans);
            lemma_line_text_add(gutter, s.spans);
            assert(shown_line(s) =~= gutters(s.quotes) + line_text(s.spans));
        },
    }
}

/// The lines by which `t` is longer than `s`.
pub open spec fn new_lines(t: RenderState, s: RenderState) -> Seq<Seq<SpanView>> {
    t.lines.skip(s.lines.len() as int)
}

/// A line that ends is added to the finished lines, and all of it: its text with the gutters and
/// the mark before it, on as many lines as it takes. A line of nothing but white space is shown as
/// one blank line outside block quotes. The next line begins empty, without a mark.
pub proof fn law_finished_lines_show_everything(s: RenderState)
    ensures
        ({
            let t = s.flush();
            let new = new_lines(t, s);
            &&& s.lines.is_prefix_of(t.lines)
            &&& new.len() > 0
            &&& t.lines == s.lines + new
            &&& t.spans.len() == 0
            &&& t.prefix is None
            &&& t == (RenderState { lines: t.lines, spans: t.spans, prefix: t.prefix, ..s })
            &&& if s.quotes == 0 && all_white_space(shown_line(s)) {
                new == seq![Seq::<SpanView>::empty()]
            } else {
                lines_text(new) == shown_line(s)
            }
        }),
{
    reveal(RenderState::flush);
    lemma_assembled(s);
    law_wrapping_keeps_content(s.assembled(), s.env.col_width);
    let t = s.flush();
    let added = if s.quotes == 0 && all_white_space(line_text(s.assembled())) {
        seq![Seq::<SpanView>::empty()]
    } else {
        wrapped(s.assembled(), s.env.col_width)
    };
    assert(t.lines == s.lines + added);
    assert(new_lines(t, s) =~= added);
    assert(s.lines =~= t.lines.subrange(0, s.lines.len() as int));
}

/// A hard break ends the line: what was written before it is finished, and what is written behind
/// it begins a new line.
pub proof fn law_hard_breaks_end_the_line(
    s: RenderState,
    before: Seq<MdEventView>,
    behind: Seq<MdEventView>,
)
    requires
        takes_text(s),
        all_inline(before),
        all_inline(behind),
        s.quotes > 0 || !all_white_space(shown_line(s) + written_all(before)),
    ensures
        ({
            let t = after_events(
                after_event(after_events(s, before), MdEventView::HardBreak),
                behind,
            );
            &&& t.lines.len() > s.lines.len()
            &&& s.lines.is_prefix_of(t.lines)
            &&& lines_text(new_lines(t, s)) == shown_line(s) + written_all(before)
            &&& line_text(t.spans) == written_all(behind)
            &&& t.prefix is None
        }),
{
    let u = after_events(s, before);
    law_running_text_is_shown(s, before);
    assert(shown_line(u) =~= shown_line(s) + written_all(before));
    law_finished_lines_show_everything(u);
    law_running_text_is_shown(u.flush(), behind);
    assert(line_text(u.flush().spans) =~= Seq::<char>::empty());
    assert(line_text(u.flush().spans) + written_all(behind) =~= written_all(behind));
}

/// A paragraph shows its text on lines of its own, all of it and nothing else but the marks before
/// it, and a blank line follows.
pub proof fn law_paragraphs_show_their_text(s: RenderState, events: Seq<MdEventView>)
    requires
        takes_text(s),
        all_inline(events),
        s.quotes > 0 || !all_white_space(shown_line(s) + written_all(events)),
    ensures
        ({
            let open = after_event(s, MdEventView::Start(MdTagView::Paragraph));
            let t = after_event(
                after_events(open, events),
                MdEventView::End(MdTagEnd::Paragraph),
            );
            let new = new_lines(t, s);
            &&& s.lines.is_prefix_of(t.lines)
            &&& new.len() > 1
            &&& new.last().len() == 0
            &&& lines_text(new.drop_last()) == shown_line(s) + written_all(events)
            &&& t.spans.len() == 0
            &&& t.prefix is None
        }),
{
    let open = after_event(s, MdEventView::Start(MdTagView::Paragraph));
    assert(open == s);
    let u = after_events(s, events);
    law_running_text_is_shown(s, events);
    assert(shown_line(u) =~= shown_line(s) + written_all(events));
    law_finished_lines_show_everything(u);
    let t = after_event(u, MdEventView::End(MdTagEnd::Paragraph));
    assert(t.lines =~= u.flush().lines.push(Seq::empty()));
    assert(new_lines(t, s).drop_last() =~= new_lines(u.flush(), s));
    assert(s.lines =~= t.lines.subrange(0, s.lines.len() as int));
}

// ---------------------------------------------------------------------------
// Wiki links
// ---------------------------------------------------------------------------

/// Two of a character stand next to each other.
pub open spec fn has_pair(s: Seq<char>, c: char) -> bool {
    exists|i: int| 0 <= i < s.len() - 1 && #[trigger] s[i] == c && s[i + 1] == c
}

proof fn lemma_brackets()
    ensures
        "[["@ == seq!['[', '['],
        "]]"@ == seq![']', ']'],
{
    reveal_strlit("[[");
    reveal_strlit("]]");
    assert("[["@ =~= seq!['[', '[']);
    assert("]]"@ =~= seq![']', ']']);
}

/// The first pair of a character in a text that begins without one.
proof fn lemma_first_pair(text: Seq<char>, c: char, from: int, at: int)
    requires
        0 <= from <= at,
        at + 2 <= text.len(),
        text[at] == c,
        text[at + 1] == c,
        !has_pair(text.subrange(from, at + 1), c),
    ensures
        first_at(text, seq![c, c], from) == Some(at),
{
    let pair = seq![c, c];
    lemma_first_at(text, pair, from);
    assert(text.subrange(at, at + 2) =~= pair);
    assert(occurs_at(text, pair, at));
    let i = first_at(text, pair, from)->0;
    if i < at {
        let part = text.subrange(from, at + 1);
        assert(text.subrange(i, i + 2) == pair);
        assert(text[i] == text.subrange(i, i + 2)[0]);
        assert(text[i + 1] == text.subrange(i, i + 2)[1]);
        assert(part[i - from] == c && part[i - from + 1] == c);
    }
}

proof fn lemma_no_pair(text: Seq<char>, c: char, from: int)
    requires
        0 <= from <= text.len(),
        !has_pair(text.skip(from), c),
    ensures
        first_at(text, seq![c, c], from) is None,
{
    let pair = seq![c, c];
    lemma_first_at(text, pair, from);
    if let Some(i) = first_at(text, pair, from) {
        let part = text.skip(from);
        assert(text.subrange(i, i + 2) == pair);
        assert(text[i] == text.subrange(i, i + 2)[0]);
        assert(text[i + 1] == text.subrange(i, i + 2)[1]);
        assert(part[i - from] == c && part[i - from + 1] == c);
    }
}

proof fn lemma_first_at_behind(front: Seq<char>, s: Seq<char>, pat: Seq<char>, from: int)
    requires
        0 <= from <= s.len() + 1,
    ensures
        first_at(front + s, pat, front.len() + from) == (match first_at(s, pat, from) {
            Some(i) => Some(front.len() + i),
            None => None,
        }),
    decreases s.len() + 1 - from,
{
    let all = front + s;
    let n = front.len() as int;
    if from + pat.len() <= s.len() {
        assert(all.subrange(n + from, n + from + pat.len()) =~= s.subrange(from, from + pat.len()));
        assert(occurs_at(all, pat, n + from) == occurs_at(s, pat, from));
        if !occurs_at(s, pat, from) {
            lemma_first_at_behind(front, s, pat, from + 1);
        }
    }
}

proof fn lemma_wiki_links_behind(front: Seq<char>, s: Seq<char>, from: int, line: nat)
    requires
        0 <= from <= s.len(),
    ensures
        wiki_links_from(front + s, front.len() + from, line) == wiki_links_from(s, from, line),
    decreases s.len() - from,
{
    lemma_brackets();
    let all = front + s;
    let n = front.len() as int;
    lemma_first_at_behind(front, s, "[["@, from);
    lemma_first_at(s, "[["@, from);
    if let Some(open) = first_at(s, "[["@, from) {
        lemma_first_at_behind(front, s, "]]"@, open + 2);
        lemma_first_at(s, "]]"@, open + 2);
        if let Some(close) = first_at(s, "]]"@, open + 2) {
            assert(all.subrange(n + open + 2, n + close) =~= s.subrange(open + 2, close));
            lemma_wiki_links_behind(front, s, close + 2, line);
            assert(n + (close + 2) == (n + close) + 2);
        }
    }
}

/// What stands between the brackets of a wiki link, if it names a page.
pub open spec fn link_of(inner: Seq<char>, line: nat) -> Seq<LinkView> {
    if wiki_page(inner).len() > 0 {
        seq![
            LinkView {
                display_text: inner,
                target: LinkTargetView::WikiLink(wiki_page(inner)),
                source_line: line,
                source_col: 0,
            },
        ]
    } else {
        Seq::empty()
    }
}

/// The wiki links of a text are the first one, if its brackets name a page, followed by all of
/// those behind it. A text without brackets, or without a second pair of them, has none.
pub proof fn law_the_first_wiki_link_and_the_rest(
    a: Seq<char>,
    p: Seq<char>,
    b: Seq<char>,
    line: nat,
)
    requires
        !has_pair(a.push('['), '['),
        !has_pair(p.push(']'), ']'),
    ensures
        wiki_links_from(a + seq!['[', '['] + p + seq![']', ']'] + b, 0, line) == link_of(p, line)
            + wiki_links_from(b, 0, line),
        wiki_links_from(a, 0, line).len() == 0,
        wiki_links_from(a + seq!['[', '['] + p, 0, line).len() == 0,
{
    lemma_brackets();
    let n = a.len() as int;
    let m = p.len() as int;
    let front = a + seq!['[', '['] + p + seq![']', ']'];
    let text = front + b;
    assert(text.subrange(0, n + 1) =~= a.push('['));
    lemma_first_pair(text, '[', 0, n);
    assert(text.subrange(n + 2, n + 2 + m + 1) =~= p.push(']'));
    lemma_first_pair(text, ']', n + 2, n + 2 + m);
    assert(text.subrange(n + 2, n + 2 + m) =~= p);
    lemma_wiki_links_behind(front, b, 0, line);
    assert(front.len() == n + m + 4);
    assert(!has_pair(a, '[')) by {
        if has_pair(a, '[') {
            let i = choose|i: int| 0 <= i < a.len() - 1 && #[trigger] a[i] == '[' && a[i + 1] == '[';
            assert(a.push('[')[i] == '[' && a.push('[')[i + 1] == '[');
        }
    }
    assert(a.skip(0) =~= a);
    lemma_no_pair(a, '[', 0);
    let open = a + seq!['[', '['] + p;
    assert(open.subrange(0, n + 1) =~= a.push('['));
    lemma_first_pair(open, '[', 0, n);
    assert(open.skip(n + 2) =~= p);
    assert(!has_pair(p, ']')) by {
        if has_pair(p, ']') {
            let i = choose|i: int| 0 <= i < p.len() - 1 && #[trigger] p[i] == ']' && p[i + 1] == ']';
            assert(p.push(']')[i] == ']' && p.push(']')[i + 1] == ']');
        }
    }
    lemma_no_pair(open, ']', n + 2);
}

/// A text made of parts that each end in double brackets, and what is left behind the last of them.
pub open spec fn bracketed(parts: Seq<(Seq<char>, Seq<char>)>, rest: Seq<char>) -> Seq<char>
    decreases parts.len(),
{
    if parts.len() == 0 {
        rest
    } else {
        parts[0].0 + seq!['[', '['] + parts[0].1 + seq![']', ']'] + bracketed(
            parts.drop_first(),
            rest,
        )
    }
}

/// The links of those brackets that name a page, in order.
pub open spec fn links_of(parts: Seq<(Seq<char>, Seq<char>)>, line: nat) -> Seq<LinkView>
    decreases parts.len(),
{
    if parts.len() == 0 {
        Seq::empty()
    } else {
        link_of(parts[0].1, line) + links_of(parts.drop_first(), line)
    }
}

/// Every wiki link of a text is registered, in order, and nothing else is: there is one link for
/// each pair of brackets that names a page.
pub proof fn law_every_wiki_link_is_registered(
    parts: Seq<(Seq<char>, Seq<char>)>,
    rest: Seq<char>,
    line: nat,
)
    requires
        forall|i: int|
            0 <= i < parts.len() ==> !has_pair((#[trigger] parts[i]).0.push('['), '[')
                && !has_pair(parts[i].1.push(']'), ']'),
        !has_pair(rest, '['),
    ensures
        wiki_links_from(bracketed(parts, rest), 0, line) == links_of(parts, line),
    decreases parts.len(),
{
    lemma_brackets();
    if parts.len() == 0 {
        assert(rest.skip(0) =~= rest);
        lemma_no_pair(rest, '[', 0);
    } else {
        let tail = parts.drop_first();
        assert forall|i: int| 0 <= i < tail.len() implies !has_pair(
            (#[trigger] tail[i]).0.push('['),
            '[',
        ) && !has_pair(tail[i].1.push(']'), ']') by {
            assert(tail[i] == parts[i + 1]);
        }
        law_every_wiki_link_is_registered(tail, rest, line);
        law_the_first_wiki_link_and_the_rest(
            parts[0].0,
            parts[0].1,
            bracketed(tail, rest),
            line,
        );
    }
}

/// The page of a wiki link is what stands before the first bar, without the white space around it;
/// without a bar it is all that stands between the brackets.
pub proof fn law_wiki_links_name_a_page(
    before: Seq<char>,
    page: Seq<char>,
    behind: Seq<char>,
    title: Seq<char>,
)
    requires
        all_white_space(before),
        is_trim(page),
        !page.contains('|'),
        all_white_space(behind),
        title.len() > 0 ==> title[0] == '|',
    ensures
        wiki_page(before + page + behind + title) == page,
{
    let name = before + page + behind;
    let inner = name + title;
    lemma_next_char(inner, '|', 0);
    let i = next_char(inner, '|', 0);
    if i < name.len() {
        assert(inner[i] == name[i]);
        if i < before.len() {
            assert(name[i] == before[i]);
        } else if i < before.len() + page.len() {
            assert(name[i] == page[i - before.len()]);
        } else {
            assert(name[i] == behind[i - before.len() - page.len()]);
        }
    }
    if title.len() > 0 {
        assert(inner[name.len() as int] == '|');
    }
    assert(i == name.len());
    assert(inner.take(i) =~= name);
    law_trimming_takes_white_space_from_both_ends(before, page, behind);
}

/// A paragraph registers the wiki links of its plain text when it ends, behind the links that it
/// had registered so far, at the line that follows it. They are text like any other until then, and
/// nothing is registered where wiki links are turned off.
pub proof fn law_paragraphs_register_their_wiki_links(
    s: RenderState,
    events: Seq<MdEventView>,
    parts: Seq<(Seq<char>, Seq<char>)>,
    rest: Seq<char>,
)
    requires
        takes_text(s),
        all_inline(events),
        s.paragraph.len() == 0,
        plain_text(events) == bracketed(parts, rest),
        forall|i: int|
            0 <= i < parts.len() ==> !has_pair((#[trigger] parts[i]).0.push('['), '[')
                && !has_pair(parts[i].1.push(']'), ']'),
        !has_pair(rest, '['),
    ensures
        ({
            let u = after_events(s, events);
            let t = after_event(u, MdEventView::End(MdTagEnd::Paragraph));
            &&& s.env.wiki_links ==> t.links == u.links + links_of(parts, t.lines.len())
            &&& !s.env.wiki_links ==> t.links == u.links
            &&& t.paragraph.len() == 0
        }),
{
    let u = after_events(s, events);
    let t = after_event(u, MdEventView::End(MdTagEnd::Paragraph));
    law_running_text_is_shown(s, events);
    law_finished_lines_show_everything(u);
    assert(s.paragraph + plain_text(events) =~= plain_text(events));
    law_every_wiki_link_is_registered(parts, rest, t.lines.len());
}

// ---------------------------------------------------------------------------
// Whole documents
// ---------------------------------------------------------------------------

/// A document is rendered from its start to its end: what comes first is rendered first, and what
/// follows goes on from there.
pub proof fn law_documents_are_rendered_in_order(
    s: RenderState,
    a: Seq<MdEventView>,
    b: Seq<MdEventView>,
)
    ensures
        after_events(s, a + b) == after_events(after_events(s, a), b),
    decreases b.len(),
{
    if b.len() == 0 {
        assert(a + b =~= a);
    } else {
        assert((a + b).drop_last() =~= a + b.drop_last());
        assert((a + b).last() == b.last());
        law_documents_are_rendered_in_order(s, a, b.drop_last());
    }
}

/// A document begins with nothing shown and nothing open, and what is left of its last line is
/// shown at its end.
pub proof fn law_the_last_line_is_shown(env: RenderEnv, events: Seq<MdEventView>)
    ensures
        ({
            let start = initial_state(env);
            let end = after_events(start, events);
            let t = rendered(env, events);
            &&& start.lines.len() == 0 && start.spans.len() == 0 && start.links.len() == 0
            &&& start.quotes == 0 && start.lists.len() == 0 && start.prefix is None
            &&& takes_text(start) && !start.in_heading && start.paragraph.len() == 0
            &&& start.link_href is None
            &&& end.lines.is_prefix_of(t.lines)
            &&& end.quotes > 0 || !all_white_space(shown_line(end)) ==> lines_text(
                new_lines(t, end),
            ) == shown_line(end)
            &&& t.links == end.links
        }),
{
    law_finished_lines_show_everything(after_events(initial_state(env), events));
}

/// A document of one paragraph shows the text of the paragraph and a blank line, and at the end
/// another one.
pub proof fn law_a_paragraph_is_a_document(env: RenderEnv, events: Seq<MdEventView>)
    requires
        all_inline(events),
        !all_white_space(written_all(events)),
    ensures
        ({
            let open = seq![MdEventView::Start(MdTagView::Paragraph)];
            let close = seq![MdEventView::End(MdTagEnd::Paragraph)];
            let lines = rendered(env, open + events + close).lines;
            &&& lines.len() > 2
            &&& lines[lines.len() - 1].len() == 0
            &&& lines[lines.len() - 2].len() == 0
            &&& lines_text(lines.take(lines.len() - 2)) == written_all(events)
        }),
{
    let s = initial_state(env);
    let open = seq![MdEventView::Start(MdTagView::Paragraph)];
    let close = seq![MdEventView::End(MdTagEnd::Paragraph)];
    law_documents_are_rendered_in_order(s, open + events, close);
    law_documents_are_rendered_in_order(s, open, events);
    assert(open.drop_last() =~= Seq::<MdEventView>::empty());
    assert(after_events(s, open.drop_last()) == s);
    assert(after_events(s, open) == s);
    let u = after_events(s, events);
    assert(close.drop_last() =~= Seq::<MdEventView>::empty());
    assert(after_events(u, close.drop_last()) == u);
    let t = after_event(u, MdEventView::End(MdTagEnd::Paragraph));
    assert(after_events(u, close) == t);
    assert(line_text(s.spans) =~= Seq::<char>::empty());
    assert(shown_line(s) =~= Seq::<char>::empty());
    assert(shown_line(s) + written_all(events) =~= written_all(events));
    law_paragraphs_show_their_text(s, events);
    law_running_text_is_shown(s, events);
    law_finished_lines_show_everything(u);
    assert(new_lines(t, s) =~= t.lines);
    assert(t.quotes == 0);
    assert(line_text(t.spans) =~= Seq::<char>::empty());
    assert(shown_line(t) =~= Seq::<char>::empty());
    law_finished_lines_show_everything(t);
    let lines = rendered(env, open + events + close).lines;
    assert(lines == t.flush().lines);
    assert(lines =~= t.lines.push(Seq::empty()));
    assert(lines.take(lines.len() - 2) =~= t.lines.drop_last());
}

/// How many pairs of brackets name a page.
pub open spec fn pages_named(parts: Seq<(Seq<char>, Seq<char>)>) -> nat
    decreases parts.len(),
{
    if parts.len() == 0 {
        0
    } else {
        pages_named(parts.drop_first()) + if wiki_page(parts[0].1).len() > 0 {
            1nat
        } else {
            0nat
        }
    }
}

/// There are as many wiki links as pairs of brackets that name a page.
pub proof fn law_wiki_links_are_counted(
    parts: Seq<(Seq<char>, Seq<char>)>,
    rest: Seq<char>,
    line: nat,
)
    requires
        forall|i: int|
            0 <= i < parts.len() ==> !has_pair((#[trigger] parts[i]).0.push('['), '[')
                && !has_pair(parts[i].1.push(']'), ']'),
        !has_pair(rest, '['),
    ensures
        wiki_links_from(bracketed(parts, rest), 0, line).len() == pages_named(parts),
{
    law_every_wiki_link_is_registered(parts, rest, line);
    lemma_links_counted(parts, line);
}

proof fn lemma_links_counted(parts: Seq<(Seq<char>, Seq<char>)>, line: nat)
    ensures
        links_of(parts, line).len() == pages_named(parts),
    decreases parts.len(),
{
    if parts.len() > 0 {
        lemma_links_counted(parts.drop_first(), line);
    }
}

} // verus!
