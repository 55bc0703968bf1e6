//! What headings, lists, quotes, code, links and images show.
use vstd::prelude::*;

use crate::links::{LinkTargetView, anchor_chars, target_of_href};
use crate::markdown::events::{MdEventView, MdTagEnd, MdTagView};
use crate::markdown::render::{RenderState, after_event, after_events, bullet, heading_prefix};
use crate::markdown::shown::{
    all_inline, gutters, is_inline, law_finished_lines_show_everything, law_running_text_is_shown,
    new_lines, plain_text, shown_line, takes_text, written_all,
};
use crate::markdown::wrap::lines_text;
use crate::style::{
    Modifier, SpanView, Style, lemma_line_text_add, lemma_line_text_push, line_text, span,
};
use crate::text::{
    all_white_space, byte_len, decimal, is_trim, is_white_space, law_lines_stand_between_line_feeds,
    law_trimming_takes_white_space_from_both_ends, lowercased, repeated, text_lines,
};

verus! {

/// A line that holds a character other than white space is not blank.
proof fn lemma_not_blank(s: Seq<char>, i: int)
    requires
        0 <= i < s.len(),
        !is_white_space(s[i]),
    ensures
        !all_white_space(s),
{
}

proof fn lemma_empty_line(s: RenderState)
    requires
        s.spans.len() == 0,
    ensures
        line_text(s.spans) == Seq::<char>::empty(),
{
}

// ---------------------------------------------------------------------------
// Headings
// ---------------------------------------------------------------------------

proof fn lemma_heading_prefix(level: u8)
    requires
        1 <= level <= 6,
    ensures
        heading_prefix(level) == repeated('#', level as nat).push(' '),
{
    reveal_strlit("# ");
    reveal_strlit("## ");
    reveal_strlit("### ");
    reveal_strlit("#### ");
    reveal_strlit("##### ");
    reveal_strlit("###### ");
    assert(heading_prefix(level) =~= repeated('#', level as nat).push(' '));
}

/// A heading shows as many hash signs as it has levels, a space and its text, on lines of their own
/// with a blank line behind them. The line before it is finished first.
pub proof fn law_headings_show_their_level(s: RenderState, level: u8, events: Seq<MdEventView>)
    requires
        takes_text(s),
        1 <= level <= 6,
        all_inline(events),
    ensures
        ({
            let open = after_event(s, MdEventView::Start(MdTagView::Heading(level)));
            let t = after_event(after_events(open, events), MdEventView::End(MdTagEnd::Heading));
            let new = new_lines(t, open);
            &&& open.lines == s.flush().lines
            &&& open.spans.len() == 0
            &&& open.lines.is_prefix_of(t.lines)
            &&& new.len() > 1
            &&& new.last().len() == 0
            &&& lines_text(new.drop_last()) == gutters(s.quotes) + repeated(
                '#',
                level as nat,
            ).push(' ') + written_all(events)
            &&& t.spans.len() == 0
            &&& t.prefix is None
            &&& !t.in_heading
        }),
{
    let open = after_event(s, MdEventView::Start(MdTagView::Heading(level)));
    law_finished_lines_show_everything(s);
    lemma_heading_prefix(level);
    law_running_text_is_shown(open, events);
    let u = after_events(open, events);
    lemma_empty_line(open);
    reveal(RenderState::end_heading);
    let v = RenderState { in_heading: false, ..u }.end_heading();
    assert(shown_line(v) == shown_line(u));
    assert(shown_line(u) =~= gutters(s.quotes) + repeated('#', level as nat).push(' ')
        + written_all(events));
    lemma_not_blank(shown_line(u), gutters(s.quotes).len() as int);
    law_finished_lines_show_everything(v);
    let t = after_event(u, MdEventView::End(MdTagEnd::Heading));
    assert(t.lines =~= v.flush().lines.push(Seq::empty()));
    assert(new_lines(t, open).drop_last() =~= new_lines(v.flush(), v));
    assert(open.lines =~= t.lines.subrange(0, open.lines.len() as int));
}

/// A heading can be reached: it registers its plain text with the anchor made of it, at the line
/// before its own. A heading that leaves nothing in its anchor registers nothing.
pub proof fn law_headings_register_their_anchor(s: RenderState, level: u8, events: Seq<MdEventView>)
    requires
        takes_text(s),
        all_inline(events),
    ensures
        ({
            let open = after_event(s, MdEventView::Start(MdTagView::Heading(level)));
            let u = after_events(open, events);
            let t = after_event(u, MdEventView::End(MdTagEnd::Heading));
            let anchor = anchor_chars(lowercased(plain_text(events)));
            &&& anchor.len() == 0 ==> t.links == u.links
            &&& anchor.len() > 0 ==> {
                &&& t.links.len() == u.links.len() + 1
                &&& t.links.drop_last() == u.links
                &&& t.links.last().display_text == plain_text(events)
                &&& t.links.last().target == LinkTargetView::InternalAnchor(anchor)
                &&& t.links.last().source_line == open.lines.len() - 1
                &&& t.links.last().source_col == 0
            }
        }),
{
    let open = after_event(s, MdEventView::Start(MdTagView::Heading(level)));
    law_finished_lines_show_everything(s);
    law_running_text_is_shown(open, events);
    let u = after_events(open, events);
    assert(open.heading_text + plain_text(events) =~= plain_text(events));
    reveal(RenderState::end_heading);
    let v = RenderState { in_heading: false, ..u }.end_heading();
    law_finished_lines_show_everything(v);
    let t = after_event(u, MdEventView::End(MdTagEnd::Heading));
    if anchor_chars(lowercased(plain_text(events))).len() > 0 {
        assert(t.links.drop_last() =~= u.links);
    }
}

// ---------------------------------------------------------------------------
// Lists
// ---------------------------------------------------------------------------

/// An item of a bulleted list begins with a bullet that shows how deep the list is nested, indented
/// by one space for each list around its own. The line before it is finished first.
pub proof fn law_bullets_show_the_depth(s: RenderState)
    requires
        s.lists.len() > 0,
        s.lists.last().kind is Unordered,
    ensures
        ({
            let t = after_event(s, MdEventView::Start(MdTagView::Item));
            let depth = s.lists.len();
            let bullet = if depth == 1 {
                '●'
            } else if depth == 2 {
                '○'
            } else {
                '▸'
            };
            &&& t.prefix == Some(repeated(' ', (depth - 1) as nat).push(bullet).push(' '))
            &&& t.lines == s.flush().lines
            &&& t.spans.len() == 0
            &&& t.lists == s.lists
        }),
{
    reveal(RenderState::flush);
    reveal_strlit("●");
    reveal_strlit("○");
    reveal_strlit("▸");
    reveal_strlit(" ");
    let depth = s.lists.len();
    let indent = repeated(' ', (depth - 1) as nat);
    let mark = bullet(depth);
    assert(indent + mark + " "@ =~= indent.push(mark[0]).push(' '));
}

/// An item of a numbered list begins with its number, a full stop and a space, indented by one
/// space for each list around its own, and the next item has the next number.
pub proof fn law_items_count_up(s: RenderState)
    requires
        s.lists.len() > 0,
        s.lists.last().kind is Ordered,
    ensures
        ({
            let t = after_event(s, MdEventView::Start(MdTagView::Item));
            let depth = s.lists.len();
            &&& t.prefix == Some(
                repeated(' ', (depth - 1) as nat) + decimal(s.lists.last().next) + seq!['.', ' '],
            )
            &&& t.lists.len() == depth
            &&& t.lists.drop_last() == s.lists.drop_last()
            &&& t.lists.last().kind is Ordered
            &&& t.lists.last().next == s.lists.last().next + 1
            &&& t.lines == s.flush().lines
            &&& t.spans.len() == 0
        }),
{
    reveal(RenderState::flush);
    reveal_strlit(". ");
    assert(". "@ =~= seq!['.', ' ']);
    let t = after_event(s, MdEventView::Start(MdTagView::Item));
    assert(t.lists.drop_last() =~= s.lists.drop_last());
}

/// A list opens inside those that are open, and closing it leaves them as they were. Only behind
/// the outermost list stands a blank line.
pub proof fn law_lists_nest(s: RenderState, start: Option<u64>)
    ensures
        ({
            let open = after_event(s, MdEventView::Start(MdTagView::List(start)));
            let close = after_event(open, MdEventView::End(MdTagEnd::List));
            &&& open.lists.len() == s.lists.len() + 1
            &&& open.lists.drop_last() == s.lists
            &&& start is None ==> open.lists.last().kind is Unordered
            &&& start matches Some(n) ==> open.lists.last().kind is Ordered
                && open.lists.last().next == n
            &&& open.lines == s.flush().lines
            &&& close.lists == s.lists
            &&& s.lists.len() > 0 ==> close.lines == open.flush().lines
            &&& s.lists.len() == 0 ==> close.lines == open.flush().lines.push(Seq::empty())
        }),
{
    reveal(RenderState::flush);
    let open = after_event(s, MdEventView::Start(MdTagView::List(start)));
    assert(open.lists.drop_last() =~= s.lists);
}

/// The text of an item stands behind its mark.
pub proof fn law_items_show_mark_and_text(s: RenderState, events: Seq<MdEventView>)
    requires
        takes_text(s),
        all_inline(events),
        s.lists.len() > 0,
    ensures
        ({
            let item = after_event(s, MdEventView::Start(MdTagView::Item));
            let t = after_events(item, events).flush();
            &&& item.prefix is Some
            &&& lines_text(new_lines(t, item)) == gutters(s.quotes) + item.prefix->0 + written_all(
                events,
            )
            &&& t.prefix is None
        }),
{
    let item = after_event(s, MdEventView::Start(MdTagView::Item));
    law_finished_lines_show_everything(s);
    if s.lists.last().kind is Ordered {
        law_items_count_up(s);
        crate::text::law_decimals_read_as_their_number(s.lists.last().next);
        let indent = repeated(' ', (s.lists.len() - 1) as nat);
        let number = decimal(s.lists.last().next);
        assert(item.prefix->0[indent.len() as int] == number[0]);
    } else {
        law_bullets_show_the_depth(s);
        assert(!is_white_space(item.prefix->0[s.lists.len() - 1]));
    }
    lemma_empty_line(item);
    law_running_text_is_shown(item, events);
    let u = after_events(item, events);
    law_finished_lines_show_everything(u);
    let mark = item.prefix->0;
    assert(shown_line(u) =~= gutters(s.quotes) + mark + written_all(events));
    lemma_not_blank(shown_line(u), gutters(s.quotes).len() + s.lists.len() - 1);
}

// ---------------------------------------------------------------------------
// Quotes, rules and tables
// ---------------------------------------------------------------------------

/// A block quote adds one gutter to the lines in it, and takes it away at its end. Only behind the
/// outermost quote stands a blank line.
pub proof fn law_quotes_nest(s: RenderState)
    ensures
        ({
            let open = after_event(s, MdEventView::Start(MdTagView::BlockQuote));
            let close = after_event(s, MdEventView::End(MdTagEnd::BlockQuote));
            &&& open.quotes == s.quotes + 1
            &&& open.lines == s.flush().lines
            &&& open.spans.len() == 0
            &&& s.quotes > 0 ==> close.quotes == s.quotes - 1
            &&& s.quotes > 1 ==> close.lines == s.flush().lines
            &&& s.quotes <= 1 ==> close.lines == s.flush().lines.push(Seq::empty())
        }),
{
    reveal(RenderState::flush);
}

/// Every line that is finished inside a block quote begins with a gutter for each open quote.
pub proof fn law_quoted_text_has_gutters(s: RenderState, events: Seq<MdEventView>)
    requires
        takes_text(s),
        all_inline(events),
        s.styles.len() > 0,
    ensures
        ({
            let open = after_event(s, MdEventView::Start(MdTagView::BlockQuote));
            let t = after_events(open, events).flush();
            lines_text(new_lines(t, open)) == gutters(s.quotes) + seq!['▌', ' '] + written_all(
                events,
            )
        }),
{
    let open = after_event(s, MdEventView::Start(MdTagView::BlockQuote));
    law_quotes_nest(s);
    law_finished_lines_show_everything(s);
    law_running_text_is_shown(open, events);
    lemma_empty_line(open);
    let u = after_events(open, events);
    law_finished_lines_show_everything(u);
    assert(shown_line(u) =~= gutters(s.quotes) + seq!['▌', ' '] + written_all(events));
}

/// A rule ends the line before it, is drawn over the whole width, and a blank line follows.
pub proof fn law_rules_are_drawn_over_the_width(s: RenderState)
    ensures
        ({
            let t = after_event(s, MdEventView::Rule);
            let f = s.flush();
            let width = if s.env.col_width > 1 {
                s.env.col_width
            } else {
                1
            };
            &&& t.lines.len() == f.lines.len() + 2
            &&& t.lines.take(f.lines.len() as int) == f.lines
            &&& line_text(t.lines[f.lines.len() as int]) == repeated('─', width)
            &&& t.lines.last().len() == 0
        }),
{
    reveal(RenderState::flush);
    let t = after_event(s, MdEventView::Rule);
    let f = s.flush();
    assert(t.lines.take(f.lines.len() as int) =~= f.lines);
    lemma_one_span(t.lines[f.lines.len() as int]);
}

proof fn lemma_one_span(line: Seq<SpanView>)
    requires
        line.len() == 1,
    ensures
        line_text(line) == line[0].content,
{
    assert(line.drop_last() =~= Seq::<SpanView>::empty());
    assert(line_text(line.drop_last()) =~= Seq::<char>::empty());
    assert(line_text(line) =~= line[0].content);
}

/// The head and each row of a table end their line; a rule stands below the head, and a blank line
/// behind the table.
pub proof fn law_tables_end_their_rows(s: RenderState)
    ensures
        ({
            let f = s.flush();
            let head = after_event(s, MdEventView::End(MdTagEnd::TableHead));
            let row = after_event(s, MdEventView::End(MdTagEnd::TableRow));
            let table = after_event(s, MdEventView::End(MdTagEnd::Table));
            let width = if s.env.col_width > 1 {
                s.env.col_width
            } else {
                1
            };
            &&& row == f
            &&& head.lines.len() == f.lines.len() + 1
            &&& head.lines.drop_last() == f.lines
            &&& line_text(head.lines.last()) == repeated('─', width)
            &&& table.lines == f.lines.push(Seq::empty())
        }),
{
    reveal(RenderState::flush);
    let head = after_event(s, MdEventView::End(MdTagEnd::TableHead));
    assert(head.lines.drop_last() =~= s.flush().lines);
    lemma_one_span(head.lines.last());
}

// ---------------------------------------------------------------------------
// Code blocks
// ---------------------------------------------------------------------------

/// Text in a code block is code, every character of it, whatever it looks like; nothing is shown
/// before the block ends.
pub proof fn law_text_in_a_code_block_is_code(s: RenderState, text: Seq<char>)
    requires
        s.in_code,
    ensures
        after_event(s, MdEventView::Text(text)) == (RenderState { code: s.code + text, ..s }),
{
}

/// A code block opens with a line that names its language, and is empty at first. The line before
/// it is finished.
pub proof fn law_code_blocks_name_their_language(
    s: RenderState,
    before: Seq<char>,
    lang: Seq<char>,
    behind: Seq<char>,
)
    requires
        all_white_space(before),
        is_trim(lang),
        all_white_space(behind),
    ensures
        ({
            let t = after_event(
                s,
                MdEventView::Start(MdTagView::FencedCode(before + lang + behind)),
            );
            let indented = after_event(s, MdEventView::Start(MdTagView::IndentedCode));
            let label = if lang.len() > 0 {
                lang
            } else {
                seq!['t', 'e', 'x', 't']
            };
            &&& t.in_code
            &&& t.code.len() == 0
            &&& lang.len() > 0 ==> t.code_lang == Some(lang)
            &&& lang.len() == 0 ==> t.code_lang is None
            &&& t.lines.len() == s.flush().lines.len() + 1
            &&& t.lines.drop_last() == s.flush().lines
            &&& shows_header(line_text(t.lines.last()), label, s.rule_width())
            &&& lang.len() == 0 ==> indented == t
        }),
{
    reveal(RenderState::flush);
    reveal(RenderState::begin_code);
    reveal_strlit("text");
    reveal_strlit("┌─ ");
    reveal_strlit(" ");
    assert("text"@ =~= seq!['t', 'e', 'x', 't']);
    assert("┌─ "@ =~= seq!['┌', '─', ' ']);
    assert(" "@ =~= seq![' ']);
    law_trimming_takes_white_space_from_both_ends(before, lang, behind);
    let t = after_event(s, MdEventView::Start(MdTagView::FencedCode(before + lang + behind)));
    assert(t.lines.drop_last() =~= s.flush().lines);
    lemma_one_span(t.lines.last());
    let label = if lang.len() > 0 {
        lang
    } else {
        seq!['t', 'e', 'x', 't']
    };
    let n = if s.rule_width() > byte_len(label) + 4 {
        (s.rule_width() - byte_len(label) - 4) as nat
    } else {
        0
    };
    assert(line_text(t.lines.last()) =~= seq!['┌', '─', ' '] + label + seq![' '] + repeated(
        '─',
        n,
    ));
}

/// The header of a code block: a corner, the label and a rule. It takes the whole width, counted in
/// the bytes of the label, where the label leaves room for a rule.
pub open spec fn shows_header(header: Seq<char>, label: Seq<char>, width: nat) -> bool {
    exists|n: nat|
        header == seq!['┌', '─', ' '] + label + seq![' '] + #[trigger] repeated('─', n) && if width
            > byte_len(label) + 4 {
            n + byte_len(label) + 4 == width
        } else {
            n == 0
        }
}

/// A code block without highlighting shows its lines one below the other, each behind a tab, then
/// one more line with a tab, a footer over the whole width and a blank line.
pub proof fn law_code_is_shown_line_by_line(s: RenderState, k: int)
    requires
        s.env.highlighter is None || !s.env.highlighting,
        s.spans.len() == 0,
        s.code.len() > 0,
    ensures
        ({
            let t = after_event(s, MdEventView::End(MdTagEnd::CodeBlock));
            let code = text_lines(s.code);
            let new = new_lines(t, s);
            &&& s.lines.is_prefix_of(t.lines)
            &&& new.len() == code.len() + 3
            &&& 0 <= k < code.len() ==> line_text(new[k]) == seq!['\t'] + code[k]
            &&& line_text(new[code.len() as int]) == seq!['\t']
            &&& line_text(new[1 + code.len() as int]) == seq!['└'] + repeated(
                '─',
                (s.rule_width() - 1) as nat,
            )
            &&& new.last().len() == 0
            &&& !t.in_code
            &&& t.code.len() == 0
            &&& t.code_lang is None
        }),
{
    reveal(RenderState::end_code);
    reveal(RenderState::code_lines);
    reveal_strlit("\t");
    reveal_strlit("└");
    assert("\t"@ =~= seq!['\t']);
    assert("└"@ =~= seq!['└']);
    let t = after_event(s, MdEventView::End(MdTagEnd::CodeBlock));
    let code = text_lines(s.code);
    let shown = s.code_lines();
    let new = new_lines(t, s);
    assert(shown.len() == code.len() + 1);
    assert(t.lines.len() == s.lines.len() + shown.len() + 2);
    assert(s.lines =~= t.lines.subrange(0, s.lines.len() as int));
    if 0 <= k < code.len() {
        assert(new[k] == shown[k]);
        lemma_one_span(new[k]);
    }
    assert(new[code.len() as int] == shown[code.len() as int]);
    lemma_one_span(new[code.len() as int]);
    lemma_one_span(new[1 + code.len() as int]);
}

/// A code block without code shows nothing between its header and its footer.
pub proof fn law_empty_code_blocks(s: RenderState)
    requires
        s.spans.len() == 0,
        s.code.len() == 0,
    ensures
        ({
            let t = after_event(s, MdEventView::End(MdTagEnd::CodeBlock));
            let new = new_lines(t, s);
            &&& new.len() == 2
            &&& line_text(new[0]) == seq!['└'] + repeated('─', (s.rule_width() - 1) as nat)
            &&& new[1].len() == 0
        }),
{
    reveal(RenderState::end_code);
    reveal(RenderState::code_lines);
    reveal_strlit("└");
    assert("└"@ =~= seq!['└']);
    law_lines_stand_between_line_feeds(Seq::empty(), Seq::empty());
    assert(s.code =~= Seq::<char>::empty());
    let t = after_event(s, MdEventView::End(MdTagEnd::CodeBlock));
    let new = new_lines(t, s);
    assert(s.code_lines().len() == 0);
    lemma_one_span(new[0]);
}

/// With highlighting every line of a code block stands behind a tab: what the highlighter shows for
/// it follows, and no line is added or left out.
pub proof fn law_highlighted_code_stands_behind_a_tab(s: RenderState, k: int)
    requires
        s.env.highlighter is Some,
        s.env.highlighting,
        s.spans.len() == 0,
        s.code.len() > 0,
    ensures
        ({
            let t = after_event(s, MdEventView::End(MdTagEnd::CodeBlock));
            let block = s.env.highlighter->0.block(
                s.code,
                s.code_lang,
                s.env.theme,
                s.env.fallback,
            );
            let new = new_lines(t, s);
            &&& new.len() == block.len() + 2
            &&& 0 <= k < block.len() ==> line_text(new[k]) == seq!['\t'] + line_text(block[k])
        }),
{
    reveal(RenderState::end_code);
    reveal(RenderState::code_lines);
    reveal_strlit("\t");
    assert("\t"@ =~= seq!['\t']);
    let t = after_event(s, MdEventView::End(MdTagEnd::CodeBlock));
    let block = s.env.highlighter->0.block(s.code, s.code_lang, s.env.theme, s.env.fallback);
    let shown = s.code_lines();
    assert(shown.len() == block.len());
    if 0 <= k < block.len() {
        let tab = seq![span("\t"@, Style::plain())];
        assert(new_lines(t, s)[k] == shown[k]);
        assert(shown[k] == tab + block[k]);
        lemma_line_text_add(tab, block[k]);
        lemma_one_span(tab);
    }
}

// ---------------------------------------------------------------------------
// Links and images
// ---------------------------------------------------------------------------

/// No link or image begins or ends in these events.
pub open spec fn no_link(events: Seq<MdEventView>) -> bool {
    forall|i: int|
        0 <= i < events.len() ==> !((#[trigger] events[i]) matches MdEventView::Start(
            MdTagView::Link(_),
        )) && events[i] != MdEventView::End(MdTagEnd::Link)
}

proof fn lemma_link_text(s: RenderState, events: Seq<MdEventView>)
    requires
        takes_text(s),
        all_inline(events),
        no_link(events),
        s.link_href is Some,
    ensures
        ({
            let t = after_events(s, events);
            &&& t.link_href == s.link_href
            &&& t.link_line == s.link_line
            &&& t.link_text == s.link_text + plain_text(events)
            &&& t.links == s.links
            &&& takes_text(t)
        }),
    decreases events.len(),
{
    if events.len() == 0 {
        assert(s.link_text + plain_text(events) =~= s.link_text);
    } else {
        let front = events.drop_last();
        let last = events.last();
        assert(events[events.len() - 1] == last);
        assert forall|i: int| 0 <= i < front.len() implies is_inline(#[trigger] front[i]) && !(
        front[i] matches MdEventView::Start(MdTagView::Link(_))) && front[i] != MdEventView::End(
            MdTagEnd::Link,
        ) by {
            assert(front[i] == events[i]);
        }
        lemma_link_text(s, front);
        law_running_text_is_shown(s, front);
        assert(s.link_text + plain_text(events) =~= s.link_text + plain_text(front) + (match last {
            MdEventView::Text(text) => text,
            _ => Seq::empty(),
        }));
    }
}

/// A link is registered when it ends: with its plain text, the target of its address and the line
/// that was being built when it began. Its text is shown like any other.
pub proof fn law_links_are_registered(s: RenderState, url: Seq<char>, events: Seq<MdEventView>)
    requires
        takes_text(s),
        all_inline(events),
        no_link(events),
    ensures
        ({
            let open = after_event(s, MdEventView::Start(MdTagView::Link(url)));
            let u = after_events(open, events);
            let t = after_event(u, MdEventView::End(MdTagEnd::Link));
            &&& t.links.len() == s.links.len() + 1
            &&& t.links.drop_last() == s.links
            &&& t.links.last().display_text == plain_text(events)
            &&& t.links.last().target == target_of_href(url)
            &&& t.links.last().source_line == s.lines.len()
            &&& t.links.last().source_col == 0
            &&& t.link_href is None
            &&& line_text(t.spans) == line_text(s.spans) + written_all(events)
            &&& t.lines == s.lines
        }),
{
    let open = after_event(s, MdEventView::Start(MdTagView::Link(url)));
    lemma_link_text(open, events);
    law_running_text_is_shown(open, events);
    let u = after_events(open, events);
    let t = after_event(u, MdEventView::End(MdTagEnd::Link));
    assert(open.link_text + plain_text(events) =~= plain_text(events));
    assert(t.links.drop_last() =~= s.links);
}

/// An image shows a placeholder with its description and its address, or with its address alone
/// where it has no description. It is registered with both, at the line that is being built.
pub proof fn law_images_show_a_placeholder(
    s: RenderState,
    url: Seq<char>,
    before: Seq<char>,
    alt: Seq<char>,
    behind: Seq<char>,
)
    requires
        takes_text(s),
        all_white_space(before),
        is_trim(alt),
        all_white_space(behind),
    ensures
        ({
            let open = after_event(s, MdEventView::Start(MdTagView::Image(url)));
            let u = after_event(open, MdEventView::Text(before + alt + behind));
            let t = after_event(u, MdEventView::End(MdTagEnd::Image));
            let label = if alt.len() == 0 {
                url
            } else {
                alt + seq![' ', '('] + url + seq![')']
            };
            &&& u.spans == s.spans
            &&& line_text(t.spans) == line_text(s.spans) + seq![
                '[',
                'I',
                'm',
                'a',
                'g',
                'e',
                ':',
                ' ',
            ] + label + seq![']']
            &&& t.lines == s.lines
            &&& t.links.len() == s.links.len() + 1
            &&& t.links.drop_last() == s.links
            &&& t.links.last().display_text == alt
            &&& t.links.last().target == (LinkTargetView::Image { url, alt })
            &&& t.links.last().source_line == s.lines.len()
            &&& !t.in_image
            &&& t.image_alt.len() == 0
        }),
{
    reveal(RenderState::end_image);
    reveal_strlit("[Image: ");
    reveal_strlit("]");
    reveal_strlit(" (");
    reveal_strlit(")]");
    law_trimming_takes_white_space_from_both_ends(before, alt, behind);
    let open = after_event(s, MdEventView::Start(MdTagView::Image(url)));
    let u = after_event(open, MdEventView::Text(before + alt + behind));
    let t = after_event(u, MdEventView::End(MdTagEnd::Image));
    assert(u.image_alt =~= before + alt + behind);
    assert(t.links.drop_last() =~= s.links);
    lemma_line_text_push(s.spans, t.spans.last());
    assert(t.spans =~= s.spans.push(t.spans.last()));
    let head = seq!['[', 'I', 'm', 'a', 'g', 'e', ':', ' '];
    assert("[Image: "@ =~= head);
    let label = if alt.len() == 0 {
        url
    } else {
        alt + seq![' ', '('] + url + seq![')']
    };
    assert(t.spans.last().content =~= head + label + seq![']']);
    assert(line_text(s.spans) + (head + label + seq![']']) =~= line_text(s.spans) + head + label
        + seq![']']);
}

// ---------------------------------------------------------------------------
// Styles
// ---------------------------------------------------------------------------

/// Every attribute of `b` is one of `a`.
pub open spec fn has_attributes(a: Modifier, b: Modifier) -> bool {
    &&& b.bold ==> a.bold
    &&& b.dim ==> a.dim
    &&& b.italic ==> a.italic
    &&& b.underlined ==> a.underlined
    &&& b.reversed ==> a.reversed
    &&& b.crossed_out ==> a.crossed_out
}

/// Text is shown in the style of the innermost construct that it stands in.
pub proof fn law_text_is_shown_in_its_style(s: RenderState, text: Seq<char>)
    requires
        takes_text(s),
        s.styles.len() > 0,
        text.len() > 0,
    ensures
        after_event(s, MdEventView::Text(text)).spans == s.spans.push(
            SpanView { content: text, style: s.styles.last() },
        ),
{
}

/// Strong text is bold, emphasised text italic, struck text crossed out and link text underlined,
/// each in addition to what the text around it is. The end of such a text gives back the style that
/// was there before it.
pub proof fn law_styles_nest(s: RenderState, url: Seq<char>)
    requires
        s.styles.len() > 0,
    ensures
        ({
            let around = s.styles.last().add_modifier;
            let strong = after_event(s, MdEventView::Start(MdTagView::Strong));
            let emphasis = after_event(s, MdEventView::Start(MdTagView::Emphasis));
            let strike = after_event(s, MdEventView::Start(MdTagView::Strikethrough));
            let link = after_event(s, MdEventView::Start(MdTagView::Link(url)));
            &&& strong.styles.last().add_modifier.bold
            &&& emphasis.styles.last().add_modifier.italic
            &&& strike.styles.last().add_modifier.crossed_out
            &&& link.styles.last().add_modifier.underlined
            &&& has_attributes(strong.styles.last().add_modifier, around)
            &&& has_attributes(emphasis.styles.last().add_modifier, around)
            &&& has_attributes(strike.styles.last().add_modifier, around)
            &&& has_attributes(link.styles.last().add_modifier, around)
            &&& strong.styles.last().fg == s.styles.last().fg
            &&& emphasis.styles.last().fg == s.styles.last().fg
            &&& after_event(strong, MdEventView::End(MdTagEnd::Strong)) == s
            &&& after_event(emphasis, MdEventView::End(MdTagEnd::Emphasis)) == s
            &&& after_event(strike, MdEventView::End(MdTagEnd::Strikethrough)) == s
            &&& after_event(link, MdEventView::End(MdTagEnd::Link)).styles == s.styles
        }),
{
    let strong = after_event(s, MdEventView::Start(MdTagView::Strong));
    let emphasis = after_event(s, MdEventView::Start(MdTagView::Emphasis));
    let strike = after_event(s, MdEventView::Start(MdTagView::Strikethrough));
    let link = after_event(s, MdEventView::Start(MdTagView::Link(url)));
    assert(strong.styles.drop_last() =~= s.styles);
    assert(emphasis.styles.drop_last() =~= s.styles);
    assert(strike.styles.drop_last() =~= s.styles);
    assert(link.styles.drop_last() =~= s.styles);
}

proof fn lemma_flush_keeps(s: RenderState)
    ensures
        s.flush().styles == s.styles,
        s.flush().quotes == s.quotes,
        s.flush().style() == s.style(),
{
    reveal(RenderState::flush);
}

/// A heading is bold, and behind its end the style is the one before it.
pub proof fn law_headings_give_back_the_style(s: RenderState, level: u8)
    requires
        s.styles.len() > 0,
    ensures
        ({
            let open = after_event(s, MdEventView::Start(MdTagView::Heading(level)));
            &&& open.styles.last().add_modifier.bold
            &&& after_event(open, MdEventView::End(MdTagEnd::Heading)).styles == s.styles
        }),
{
    lemma_flush_keeps(s);
    let open = after_event(s, MdEventView::Start(MdTagView::Heading(level)));
    assert(open.styles.drop_last() =~= s.styles);
    let v = RenderState { in_heading: false, ..open };
    assert(v.end_heading().styles == open.styles) by {
        reveal(RenderState::end_heading);
    }
    lemma_flush_keeps(v.end_heading());
}

/// A quote is italic in addition to what the text around it is, and behind its end the style is the
/// one before it.
pub proof fn law_quotes_give_back_the_style(s: RenderState)
    requires
        s.styles.len() > 0,
    ensures
        ({
            let open = after_event(s, MdEventView::Start(MdTagView::BlockQuote));
            &&& open.styles.last().add_modifier.italic
            &&& has_attributes(open.styles.last().add_modifier, s.styles.last().add_modifier)
            &&& after_event(open, MdEventView::End(MdTagEnd::BlockQuote)).styles == s.styles
        }),
{
    lemma_flush_keeps(s);
    let open = after_event(s, MdEventView::Start(MdTagView::BlockQuote));
    assert(open.styles.drop_last() =~= s.styles);
    lemma_flush_keeps(open);
}

/// Items and tables give back the style as well. The head of a table is bold, an item looks like
/// the text around it.
pub proof fn law_items_and_tables_give_back_the_style(s: RenderState)
    requires
        s.styles.len() > 0,
    ensures
        ({
            let item = after_event(s, MdEventView::Start(MdTagView::Item));
            let table = after_event(s, MdEventView::Start(MdTagView::Table));
            let head = after_event(s, MdEventView::Start(MdTagView::TableHead));
            &&& item.styles.last() == s.styles.last()
            &&& head.styles.last().add_modifier.bold
            &&& has_attributes(head.styles.last().add_modifier, s.styles.last().add_modifier)
            &&& after_event(item, MdEventView::End(MdTagEnd::Item)).styles == s.styles
            &&& after_event(table, MdEventView::End(MdTagEnd::Table)).styles == s.styles
            &&& after_event(head, MdEventView::End(MdTagEnd::TableHead)).styles == s.styles
        }),
{
    lemma_flush_keeps(s);
    let item = after_event(s, MdEventView::Start(MdTagView::Item));
    let table = after_event(s, MdEventView::Start(MdTagView::Table));
    let head = after_event(s, MdEventView::Start(MdTagView::TableHead));
    lemma_flush_keeps(table);
    lemma_flush_keeps(head);
    assert(item.styles.drop_last() =~= s.styles);
    assert(table.styles.drop_last() =~= s.styles);
    assert(head.styles.drop_last() =~= s.styles);
}

// ---------------------------------------------------------------------------
// Nesting
// ---------------------------------------------------------------------------

/// What surrounds the text is the same.
spec fn same_surroundings(t: RenderState, s: RenderState) -> bool {
    &&& t.env == s.env
    &&& t.quotes == s.quotes
    &&& t.lists == s.lists
}

proof fn lemma_steps_keep_surroundings(s: RenderState)
    ensures
        same_surroundings(s.flush(), s),
        same_surroundings(s.end_code(), s),
        same_surroundings(s.end_heading(), s),
        same_surroundings(s.end_image(), s),
        forall|l: Option<Seq<char>>| same_surroundings(#[trigger] s.begin_code(l), s),
        s.flush().in_code == s.in_code,
        s.flush().in_image == s.in_image,
        s.end_heading().in_code == s.in_code,
        s.end_heading().in_image == s.in_image,
        s.end_image().in_code == s.in_code,
        s.end_code().in_image == s.in_image,
        forall|l: Option<Seq<char>>| (#[trigger] s.begin_code(l)).in_image == s.in_image,
{
    reveal(RenderState::flush);
    reveal(RenderState::end_code);
    reveal(RenderState::end_heading);
    reveal(RenderState::end_image);
    reveal(RenderState::begin_code);
}

/// Only block quotes change how many gutters there are, only lists change which lists are open, and
/// nothing changes the settings. Code begins and ends with code blocks alone, and the description
/// of an image with images alone.
pub proof fn law_only_blocks_change_what_surrounds_the_text(s: RenderState, event: MdEventView)
    ensures
        ({
            let t = after_event(s, event);
            &&& t.env == s.env
            &&& t.quotes != s.quotes ==> event == MdEventView::Start(MdTagView::BlockQuote) || event
                == MdEventView::End(MdTagEnd::BlockQuote)
            &&& t.lists.len() != s.lists.len() ==> event == MdEventView::End(MdTagEnd::List) || (
            event matches MdEventView::Start(tag) && tag is List)
            &&& t.in_code != s.in_code ==> event == MdEventView::End(MdTagEnd::CodeBlock) || (
            event matches MdEventView::Start(tag) && (tag is FencedCode || tag is IndentedCode))
            &&& t.in_image != s.in_image ==> event == MdEventView::End(MdTagEnd::Image) || (
            event matches MdEventView::Start(tag) && tag is Image)
        }),
{
    lemma_steps_keep_surroundings(s);
    lemma_steps_keep_surroundings(s.flush());
    let h = RenderState { in_heading: false, ..s };
    lemma_steps_keep_surroundings(h);
    lemma_steps_keep_surroundings(h.end_heading());
}

/// The levels of headings can be told apart: the first five have colours of their own.
pub proof fn law_heading_levels_have_colours_of_their_own(s: RenderState, a: u8, b: u8)
    requires
        1 <= a < b <= 5,
    ensures
        ({
            let one = after_event(s, MdEventView::Start(MdTagView::Heading(a)));
            let other = after_event(s, MdEventView::Start(MdTagView::Heading(b)));
            &&& one.styles.last().fg is Some
            &&& one.styles.last().fg != other.styles.last().fg
        }),
{
}

} // verus!
