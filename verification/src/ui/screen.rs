//! What the screen shows.
use vstd::prelude::*;

use crate::app::model::{AppView, latest};
use crate::app::{App, PreviewMode};
use crate::links::{LinkTargetView, LinkView, target_text};
use crate::modes::{EditorMode, mode_label};
use crate::search::SearchView;
use crate::style::{Color, SpanView};
use crate::text::{
    all_white_space, decimal, digit, is_trim, is_white_space, law_decimals_read_as_their_number,
    law_trimming_takes_white_space_from_both_ends, lowercased,
};
use crate::ui::{
    Area, ImagePlacementView, MIN_SPLIT_WIDTH, body_panes, border_style, command_bar,
    emits_hyperlinks, grouped, image_area, image_source, kind_label, link_bar, link_prompt_text,
    linked_span, mode_colors, preview_columns, rows, search_bar, status_bar, visible_images, words_in,
    words_in_lines,
};

verus! {

// ---------------------------------------------------------------------------
// Words
// ---------------------------------------------------------------------------

/// White space ends at this border of two texts, or one of them is empty.
pub open spec fn parted(a: Seq<char>, b: Seq<char>) -> bool {
    a.len() == 0 || b.len() == 0 || is_white_space(a.last()) || is_white_space(b[0])
}

proof fn lemma_words_of_parts(a: Seq<char>, b: Seq<char>)
    requires
        parted(a, b),
    ensures
        words_in(a + b) == words_in(a) + words_in(b),
    decreases b.len(),
{
    if b.len() == 0 {
        assert(a + b =~= a);
    } else {
        let all = a + b;
        let front = b.drop_last();
        assert(all.drop_last() =~= a + front);
        assert(front.len() > 0 ==> front[0] == b[0]);
        lemma_words_of_parts(a, front);
        let n = all.len() - 1;
        assert(all[n] == b[b.len() - 1]);
        if b.len() > 1 {
            assert(all[n - 1] == b[b.len() - 2]);
        } else if a.len() > 0 {
            assert(all[n - 1] == a.last());
        }
    }
}

proof fn lemma_one_word(w: Seq<char>)
    requires
        w.len() > 0,
        forall|i: int| 0 <= i < w.len() ==> !is_white_space(#[trigger] w[i]),
    ensures
        words_in(w) == 1,
    decreases w.len(),
{
    if w.len() == 1 {
        assert(w.drop_last() =~= Seq::<char>::empty());
        assert(words_in(w.drop_last()) == 0);
    } else {
        assert forall|i: int| 0 <= i < w.drop_last().len() implies !is_white_space(
            #[trigger] w.drop_last()[i],
        ) by {
            assert(w.drop_last()[i] == w[i]);
        }
        lemma_one_word(w.drop_last());
        assert(!is_white_space(w[w.len() - 2]));
    }
}

proof fn lemma_no_words(s: Seq<char>)
    requires
        all_white_space(s),
    ensures
        words_in(s) == 0,
    decreases s.len(),
{
    if s.len() > 0 {
        lemma_no_words(s.drop_last());
        assert(is_white_space(s[s.len() - 1]));
    }
}

/// Words are counted as they stand between white space: one for each run of other characters. White
/// space counts for nothing, however much of it there is.
pub proof fn law_words_stand_between_white_space(
    before: Seq<char>,
    word: Seq<char>,
    behind: Seq<char>,
    blank: Seq<char>,
)
    requires
        word.len() > 0,
        forall|i: int| 0 <= i < word.len() ==> !is_white_space(#[trigger] word[i]),
        before.len() > 0 ==> is_white_space(before.last()),
        behind.len() > 0 ==> is_white_space(behind[0]),
        all_white_space(blank),
    ensures
        words_in(before + word + behind) == words_in(before) + 1 + words_in(behind),
        words_in(blank) == 0,
{
    lemma_words_of_parts(before, word);
    lemma_one_word(word);
    lemma_words_of_parts(before + word, behind);
    lemma_no_words(blank);
}

// ---------------------------------------------------------------------------
// Numbers
// ---------------------------------------------------------------------------

/// A text without its commas.
pub open spec fn without_commas(s: Seq<char>) -> Seq<char>
    decreases s.len(),
{
    if s.len() == 0 {
        Seq::empty()
    } else if s.last() == ',' {
        without_commas(s.drop_last())
    } else {
        without_commas(s.drop_last()).push(s.last())
    }
}

proof fn lemma_no_commas(s: Seq<char>)
    requires
        !s.contains(','),
    ensures
        without_commas(s) == s,
    decreases s.len(),
{
    if s.len() > 0 {
        assert(s.contains(s.last()));
        assert forall|i: int| 0 <= i < s.drop_last().len() implies s.drop_last()[i] != ',' by {
            assert(s.contains(s[i]));
        }
        lemma_no_commas(s.drop_last());
        assert(s =~= s.drop_last().push(s.last()));
    }
}

proof fn lemma_without_commas_push(s: Seq<char>, c: char)
    ensures
        without_commas(s.push(c)) == if c == ',' {
            without_commas(s)
        } else {
            without_commas(s).push(c)
        },
{
    assert(s.push(c).drop_last() =~= s);
}

/// Large numbers are shown with a comma between groups of three digits, counted from the right, and
/// nowhere else; without the commas they are the number.
pub proof fn law_digits_are_grouped_by_three(n: nat)
    ensures
        without_commas(grouped(n)) == decimal(n),
        forall|k: int|
            0 <= k < grouped(n).len() ==> ((#[trigger] grouped(n)[grouped(n).len() - 1 - k] == ',')
                <==> k % 4 == 3),
        grouped(n).len() > 0 && grouped(n)[0] != ',',
    decreases n,
{
    law_decimals_read_as_their_number(n);
    let g = grouped(n);
    if n < 1000 {
        assert(!g.contains(',')) by {
            if g.contains(',') {
                let i = choose|i: int| 0 <= i < g.len() && g[i] == ',';
                assert('0' <= decimal(n)[i] <= '9');
            }
        }
        lemma_no_commas(g);
        assert(g.len() <= 3) by {
            reveal_with_fuel(decimal, 4);
        }
        assert forall|k: int| 0 <= k < g.len() implies ((#[trigger] g[g.len() - 1 - k] == ',')
            <==> k % 4 == 3) by {
            assert(g.contains(g[g.len() - 1 - k]));
        }
        assert(g.contains(g[0]));
    } else {
        let front = grouped(n / 1000);
        let a = digit(n % 1000 / 100);
        let b = digit(n % 100 / 10);
        let c = digit(n % 10);
        law_digits_are_grouped_by_three(n / 1000);
        assert(g =~= front.push(',').push(a).push(b).push(c));
        lemma_without_commas_push(front.push(',').push(a).push(b), c);
        lemma_without_commas_push(front.push(',').push(a), b);
        lemma_without_commas_push(front.push(','), a);
        lemma_without_commas_push(front, ',');
        assert(decimal(n) == decimal(n / 10).push(digit(n % 10)));
        assert(decimal(n / 10) == decimal(n / 10 / 10).push(digit(n / 10 % 10)));
        assert(decimal(n / 10 / 10) == decimal(n / 10 / 10 / 10).push(digit(n / 10 / 10 % 10)));
        assert(n / 10 / 10 / 10 == n / 1000);
        assert(n / 10 % 10 == n % 100 / 10);
        assert(n / 10 / 10 % 10 == n % 1000 / 100);
        assert forall|k: int| 0 <= k < g.len() implies ((#[trigger] g[g.len() - 1 - k] == ',')
            <==> k % 4 == 3) by {
            if k >= 4 {
                assert(g[g.len() - 1 - k] == front[front.len() - 1 - (k - 4)]);
                assert(k % 4 == (k - 4) % 4);
            }
        }
        assert(g[0] == front[0]);
    }
}

/// The counter of a search shows which match is selected, counted from one, and how many there are.
pub proof fn law_counters_count_from_one(s: SearchView)
    ensures
        s.matches.len() > 0 ==> s.counter() == decimal(s.current + 1).push('/') + decimal(
            s.matches.len(),
        ),
        s.matches.len() == 0 ==> s.counter() == seq!['0', '/', '0'],
{
    reveal_strlit("/");
    reveal_strlit("0/0");
    assert("0/0"@ =~= seq!['0', '/', '0']);
    assert(decimal(s.current + 1) + "/"@ =~= decimal(s.current + 1).push('/'));
}

// ---------------------------------------------------------------------------
// The bottom line
// ---------------------------------------------------------------------------

/// The name of a mode.
pub open spec fn mode_name(mode: EditorMode) -> Seq<char> {
    match mode {
        EditorMode::Normal => seq!['N', 'O', 'R', 'M', 'A', 'L'],
        EditorMode::Insert => seq!['I', 'N', 'S', 'E', 'R', 'T'],
        EditorMode::Search => seq!['S', 'E', 'A', 'R', 'C', 'H'],
        EditorMode::Command => seq!['C', 'O', 'M', 'M', 'A', 'N', 'D'],
        EditorMode::LinkSelect => seq!['L', 'I', 'N', 'K', 'S'],
    }
}

/// The status bar names the mode and the file and says where the cursor is, rows and columns
/// counted from one.
pub proof fn law_the_status_bar_shows_where_one_is(app: AppView, name: Seq<char>, now: u64)
    ensures
        ({
            let line = status_bar(app, name, now).line;
            &&& line.len() == 8
            &&& line[0].content == seq![' '] + mode_name(app.mode) + seq![' ']
            &&& line[1].content == seq![' '] + name + seq![' ']
            &&& line[3].content == seq![' '] + decimal(app.textarea.cursor.0 + 1) + seq![':']
                + decimal(app.textarea.cursor.1 + 1)
            &&& line[2].content == seq![' ', '|', ' ']
            &&& line[4] == line[2]
            &&& line[6] == line[2]
        }),
{
    reveal_strlit(" ");
    reveal_strlit(":");
    reveal_strlit(" | ");
    reveal_strlit("NORMAL");
    reveal_strlit("INSERT");
    reveal_strlit("SEARCH");
    reveal_strlit("COMMAND");
    reveal_strlit("LINKS");
    assert(" "@ =~= seq![' ']);
    assert(":"@ =~= seq![':']);
    assert(" | "@ =~= seq![' ', '|', ' ']);
    assert(mode_label(app.mode) =~= mode_name(app.mode));
}

/// At the right end of the status bar stands the notification that is shown now, if there is one;
/// else the counter of a search that has a pattern; else the number of words in the text.
pub proof fn law_the_status_bar_tells_the_news(app: AppView, name: Seq<char>, now: u64)
    ensures
        ({
            let last = status_bar(app, name, now).line[7];
            match latest(app.notifications, now) {
                Some(n) => {
                    &&& last.content == seq![' '] + n.message + seq![' ']
                    &&& n.level is Error ==> last.style.fg == Some(Color::Red)
                    &&& n.level is Warn ==> last.style.fg == Some(Color::Yellow)
                    &&& n.level is Info ==> last.style.fg == Some(Color::Green)
                },
                None => match app.search {
                    Some(s) if s.pattern.len() > 0 => last.content == seq![' ', '['] + s.counter()
                        + seq![']', ' '],
                    _ => words_in_lines(app.textarea.lines) <= usize::MAX ==> last.content == seq![
                        ' ',
                    ] + grouped(words_in_lines(app.textarea.lines)) + seq![
                        ' ',
                        'w',
                        'o',
                        'r',
                        'd',
                        's',
                    ],
                },
            }
        }),
{
    reveal_strlit(" ");
    reveal_strlit(" [");
    reveal_strlit("] ");
    reveal_strlit(" words");
    assert(" "@ =~= seq![' ']);
    assert(" ["@ =~= seq![' ', '[']);
    assert("] "@ =~= seq![']', ' ']);
    assert(" words"@ =~= seq![' ', 'w', 'o', 'r', 'd', 's']);
}

/// The prompts show what is typed: the command behind a colon, the pattern behind a slash, or
/// behind a question mark where it is a regular expression.
pub proof fn law_prompts_show_what_is_typed(app: AppView, s: SearchView, width: u16)
    requires
        app.search == Some(s),
    ensures
        command_bar(app).line.len() == 1,
        command_bar(app).line[0].content == seq![':'] + app.command + seq!['_'],
        search_bar(app, width).line[0].content == (if s.kind is Regex {
            seq!['?', ' ']
        } else {
            seq!['/', ' ']
        }) + s.pattern + seq!['_'],
        s.pattern.len() > 0 ==> search_bar(app, width).line.last().content == seq!['[']
            + s.counter() + seq![']'],
        forall|i: int|
            0 <= i < search_bar(app, width).line[1].content.len() ==> #[trigger] search_bar(
                app,
                width,
            ).line[1].content[i] == ' ',
{
    reveal_strlit(":");
    reveal_strlit("_");
    reveal_strlit("/");
    reveal_strlit("?");
    reveal_strlit(" ");
    reveal_strlit("[");
    reveal_strlit("]");
    assert(":"@ =~= seq![':']);
    assert("_"@ =~= seq!['_']);
    assert("["@ =~= seq!['[']);
    assert("]"@ =~= seq![']']);
    assert("/"@ + " "@ =~= seq!['/', ' ']);
    assert("?"@ + " "@ =~= seq!['?', ' ']);
}

// ---------------------------------------------------------------------------
// Panes
// ---------------------------------------------------------------------------

/// The editor takes its percentage of the width, to the nearest column, as long as it is between
/// ten and ninety-eight.
pub proof fn law_the_split_is_the_configured_one(
    body: Area,
    mode: PreviewMode,
    split_ratio: u8,
)
    requires
        body.wf(),
        body.width >= MIN_SPLIT_WIDTH,
        mode !is Hidden,
        10 <= split_ratio <= 98,
    ensures
        ({
            let width = body_panes(mode, split_ratio, body).0.width as int;
            -50 <= 100 * width - body.width * split_ratio <= 50
        }),
{
    let w = body.width as int;
    let ratio = split_ratio as int;
    assert(0 <= w * ratio <= w * 98) by (nonlinear_arith)
        requires
            10 <= ratio <= 98,
            w >= 0,
    ;
    assert((w * ratio + 50) / 100 <= w);
}

// ---------------------------------------------------------------------------
// Hyperlinks and images
// ---------------------------------------------------------------------------

/// A span that shows the address of a link, perhaps with white space around it, becomes a hyperlink
/// to exactly that address: the escape sequences stand around the text, which stays as it is. Every
/// other span stays.
pub proof fn law_shown_addresses_become_hyperlinks(
    s: SpanView,
    links: Seq<LinkView>,
    before: Seq<char>,
    url: Seq<char>,
    behind: Seq<char>,
)
    requires
        s.content == before + url + behind,
        all_white_space(before),
        is_trim(url),
        all_white_space(behind),
    ensures
        ({
            let open = seq!['\u{1b}', ']', '8', ';', ';'];
            let end = seq!['\u{1b}', '\\'];
            let linked = exists|i: int|
                0 <= i < links.len() && (#[trigger] links[i]).target == LinkTargetView::External(
                    url,
                );
            &&& linked ==> linked_span(s, links).content == open + url + end + s.content + open
                + end
            &&& !linked ==> linked_span(s, links) == s
            &&& linked_span(s, links).style == s.style
        }),
{
    law_trimming_takes_white_space_from_both_ends(before, url, behind);
    reveal_strlit("\u{1b}]8;;");
    reveal_strlit("\u{1b}\\");
    reveal_strlit("\u{1b}]8;;\u{1b}\\");
    let open = seq!['\u{1b}', ']', '8', ';', ';'];
    let end = seq!['\u{1b}', '\\'];
    assert("\u{1b}]8;;"@ =~= open);
    assert("\u{1b}\\"@ =~= end);
    assert("\u{1b}]8;;\u{1b}\\"@ =~= open + end);
    assert(open + url + end + s.content + (open + end) =~= open + url + end + s.content + open
        + end);
}

/// An image stands below its line, as far as the pane reaches, and is eight lines high or as high
/// as there is room. It is left out when its line is below the pane.
pub proof fn law_images_stand_below_their_line(source_line: nat, scroll: u16, inner: Area)
    requires
        inner.wf(),
        source_line >= scroll,
    ensures
        ({
            let row = source_line - scroll;
            let place = image_area(source_line, scroll, inner);
            &&& row >= inner.height ==> place is None
            &&& row < inner.height ==> place is Some
            &&& row + 1 < inner.height ==> {
                &&& place->0.y == inner.y + row + 1
                &&& place->0.height == if inner.height - row - 1 < 8 {
                    inner.height - row - 1
                } else {
                    8
                }
            }
            &&& row + 1 == inner.height ==> place->0.y == inner.y + row && place->0.height == 1
            &&& row < inner.height ==> place->0.x == inner.x && place->0.width == inner.width
        }),
{
}

/// Of the links of a document those are shown that have an image and stand in the pane, in order:
/// the images of two lists of links are those of the first and those of the second.
pub proof fn law_all_visible_images_are_shown(
    a: Seq<LinkView>,
    a_sources: Seq<Option<Seq<char>>>,
    b: Seq<LinkView>,
    b_sources: Seq<Option<Seq<char>>>,
    scroll: u16,
    inner: Area,
)
    requires
        a.len() == a_sources.len(),
        b.len() == b_sources.len(),
    ensures
        visible_images(a + b, a_sources + b_sources, scroll, inner) == visible_images(
            a,
            a_sources,
            scroll,
            inner,
        ) + visible_images(b, b_sources, scroll, inner),
    decreases b.len(),
{
    if b.len() == 0 {
        assert(a + b =~= a);
        assert(a_sources + b_sources =~= a_sources);
        assert(visible_images(b, b_sources, scroll, inner) =~= Seq::empty());
        assert(visible_images(a, a_sources, scroll, inner) =~= visible_images(
            a,
            a_sources,
            scroll,
            inner,
        ) + visible_images(b, b_sources, scroll, inner));
    } else {
        assert((a + b).drop_last() =~= a + b.drop_last());
        assert((a_sources + b_sources).drop_last() =~= a_sources + b_sources.drop_last());
        law_all_visible_images_are_shown(
            a,
            a_sources,
            b.drop_last(),
            b_sources.drop_last(),
            scroll,
            inner,
        );
        let first = visible_images(a, a_sources, scroll, inner);
        let front = visible_images(b.drop_last(), b_sources.drop_last(), scroll, inner);
        match (b_sources.last(), image_area(b.last().source_line, scroll, inner)) {
            (Some(source), Some(area)) => {
                let p = ImagePlacementView { source, area };
                assert(first + front.push(p) =~= (first + front).push(p));
            },
            _ => {},
        }
    }
}

/// A link shows its image exactly where it has one and its line is in the pane.
pub proof fn law_a_link_shows_its_image(
    link: LinkView,
    source: Option<Seq<char>>,
    scroll: u16,
    inner: Area,
)
    ensures
        ({
            let shown = visible_images(seq![link], seq![source], scroll, inner);
            let area = image_area(link.source_line, scroll, inner);
            if source is Some && area is Some {
                &&& shown.len() == 1
                &&& shown[0].source == source->0
                &&& shown[0].area == area->0
            } else {
                shown.len() == 0
            }
        }),
{
    assert(seq![link].drop_last() =~= Seq::<LinkView>::empty());
    assert(visible_images(seq![link].drop_last(), seq![source].drop_last(), scroll, inner)
        =~= Seq::empty());
}

/// A percentage out of its range counts as the nearest one in it. The bottom line is one row high
/// wherever there is room for it below another row.
pub proof fn law_settings_out_of_range(area: Area, mode: PreviewMode, split_ratio: u8)
    ensures
        split_ratio < 10 ==> body_panes(mode, split_ratio, area) == body_panes(mode, 10, area),
        split_ratio > 98 ==> body_panes(mode, split_ratio, area) == body_panes(mode, 98, area),
        area.height > 1 ==> rows(area).1.height == 1,
        area.height <= 1 ==> rows(area).1.height == 0,
        rows(area).0.width == area.width && rows(area).1.width == area.width,
{
}

/// The name of the kind of a link.
pub open spec fn kind_name(target: LinkTargetView) -> Seq<char> {
    match target {
        LinkTargetView::External(_) => seq!['E', 'X', 'T', 'E', 'R', 'N', 'A', 'L'],
        LinkTargetView::InternalAnchor(_) => seq!['A', 'N', 'C', 'H', 'O', 'R'],
        LinkTargetView::WikiLink(_) => seq!['W', 'I', 'K', 'I', 'L', 'I', 'N', 'K'],
        LinkTargetView::FilePath(_) => seq!['F', 'I', 'L', 'E', 'P', 'A', 'T', 'H'],
        LinkTargetView::Image { .. } => seq!['I', 'M', 'A', 'G', 'E'],
    }
}

/// While links are selected the prompt says which one it is, counted from one, how many there are,
/// what kind of link it is and where it leads.
pub proof fn law_the_link_prompt_shows_the_selected_link(app: AppView, width: u16)
    requires
        app.mode is LinkSelect,
        app.link_cursor < app.links.len(),
    ensures
        ({
            let target = app.links[app.link_cursor as int].target;
            link_bar(app, width).line[0].content == seq!['[', 'L', 'I', 'N', 'K', 'S', ' ']
                + decimal(app.link_cursor + 1) + seq!['/'] + decimal(app.links.len()) + seq![
                ']',
                ' ',
            ] + kind_name(target) + seq![' ', '→', ' '] + target_text(target)
        }),
{
    reveal_strlit("[LINKS ");
    reveal_strlit("/");
    reveal_strlit("] ");
    reveal_strlit(" → ");
    reveal_strlit("EXTERNAL");
    reveal_strlit("ANCHOR");
    reveal_strlit("WIKILINK");
    reveal_strlit("FILEPATH");
    reveal_strlit("IMAGE");
    let target = app.links[app.link_cursor as int].target;
    assert(kind_label(target) =~= kind_name(target));
    assert(link_prompt_text(app) =~= seq!['[', 'L', 'I', 'N', 'K', 'S', ' '] + decimal(
        app.link_cursor + 1,
    ) + seq!['/'] + decimal(app.links.len()) + seq![']', ' '] + kind_name(target) + seq![
        ' ',
        '→',
        ' ',
    ] + target_text(target));
}

/// The status bar says which preview is shown.
pub proof fn law_the_status_bar_names_the_preview(app: AppView, name: Seq<char>, now: u64)
    ensures
        ({
            let text = status_bar(app, name, now).line[5].content;
            &&& app.preview_mode is Rendered ==> text == " "@ + "[P:Rendered]"@
            &&& app.preview_mode is Html ==> text == " "@ + "[P:HTML]"@
            &&& app.preview_mode is Hidden ==> text == " "@ + "[P:Off]"@
        }),
{
}

/// An image of the document is drawn from its own address. A link to a file is drawn where the file
/// has the extension of an image, whatever its case, and a link to a heading or a page is not.
pub proof fn law_images_come_from_their_address(
    url: Seq<char>,
    alt: Seq<char>,
    path: Seq<char>,
    ext: Seq<char>,
)
    ensures
        image_source(LinkTargetView::Image { url, alt }, None) == Some(url),
        image_source(LinkTargetView::InternalAnchor(url), None) is None,
        image_source(LinkTargetView::WikiLink(url), None) is None,
        image_source(LinkTargetView::FilePath(path), None) is None,
        ({
            let e = lowercased(ext);
            let known = e == "png"@ || e == "jpg"@ || e == "jpeg"@ || e == "gif"@ || e == "webp"@
                || e == "bmp"@;
            &&& known ==> image_source(LinkTargetView::FilePath(path), Some(ext)) == Some(path)
            &&& !known ==> image_source(LinkTargetView::FilePath(path), Some(ext)) is None
        }),
        image_source(LinkTargetView::External(url), None) matches Some(source) ==> source == url,
        forall|front: Seq<char>|
            lowercased(url) == #[trigger] (front + ".png"@) ==> image_source(
                LinkTargetView::External(url),
                None,
            ) == Some(url),
{
    assert forall|front: Seq<char>|
        lowercased(url) == #[trigger] (front + ".png"@) implies image_source(
        LinkTargetView::External(url),
        None,
    ) == Some(url) by {
        let all = front + ".png"@;
        assert(".png"@ =~= all.subrange(all.len() - ".png"@.len(), all.len() as int));
    }
}

/// The mode can be seen: no two modes have the same colour in the status bar or at the border of
/// the editor.
pub proof fn law_modes_have_colours_of_their_own(a: EditorMode, b: EditorMode)
    requires
        a != b,
    ensures
        mode_colors(&a).0 != mode_colors(&b).0,
        border_style(a).fg != border_style(b).fg,
{
}

/// Hyperlinks are emitted where they are switched on, not where they are switched off, and
/// otherwise where the terminal supports them.
pub proof fn law_hyperlinks_follow_the_setting(app: App)
    ensures
        app.config.terminal.hyperlinks is On ==> emits_hyperlinks(app),
        app.config.terminal.hyperlinks is Off ==> !emits_hyperlinks(app),
        app.config.terminal.hyperlinks is Auto ==> emits_hyperlinks(app)
            == app.hyperlinks_supported,
{
}

/// The preview is rendered for the pane without its two borders, so that every line of it can be
/// seen, but never for less than twenty columns.
pub proof fn law_the_preview_fits_its_pane(area: Area)
    ensures
        preview_columns(Some(area)) >= 20,
        preview_columns(Some(area)) > 20 ==> preview_columns(Some(area)) + 2 == area.width,
        area.width >= 22 ==> preview_columns(Some(area)) + 2 == area.width,
        preview_columns(None) == 80,
{
}

} // verus!
