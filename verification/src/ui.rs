//! What the screen shows: layout, status bar, prompts and preview, as plain values.
use vstd::prelude::*;

use ratatui::layout::{Constraint, Direction, Layout, Rect};

use crate::app::model::{AppView, latest};
use crate::app::{App, NotificationLevel, PreviewMode};
use crate::app_state::status_shows;
use crate::config::HyperlinksMode;
use crate::links::{LinkIndex, LinkTarget, LinkTargetView, LinkView, target_text};
use crate::markdown::comrak::{html_to_lines, shown_html_lines};
use crate::modes::{EditorMode, mode_label};
use crate::paths::{extension, has_extension, is_portable, opt_view, path_extension};
use crate::search::SearchKind;
use crate::style::{
    Color, Line, Modifier, Span, SpanView, Style, Text, line_views, span, span_views,
};
use crate::text::{
    byte_len, byte_len_of, char_is_white_space, chars_of, concat3, decimal, digit, digit_char,
    ends_with, is_white_space, lowercased, repeat_char, repeated, str_is, to_decimal,
    to_lowercase, trim, trimmed, views,
};

pub mod screen;

verus! {

/// A word starts at position `i`: a character that is not white space, with white space or
/// nothing before it.
pub open spec fn word_starts_at(s: Seq<char>, i: int) -> bool {
    0 <= i < s.len() && !is_white_space(s[i]) && (i == 0 || is_white_space(s[i - 1]))
}

/// The number of words of a text.
pub open spec fn words_in(s: Seq<char>) -> nat
    decreases s.len(),
{
    if s.len() == 0 {
        0
    } else {
        words_in(s.drop_last()) + if word_starts_at(s, s.len() - 1) {
            1nat
        } else {
            0nat
        }
    }
}

/// The number of words of all lines.
pub open spec fn words_in_lines(lines: Seq<Seq<char>>) -> nat
    decreases lines.len(),
{
    if lines.len() == 0 {
        0
    } else {
        words_in_lines(lines.drop_last()) + words_in(lines.last())
    }
}

pub open spec fn str_views(v: Seq<&str>) -> Seq<Seq<char>> {
    v.map_values(|s: &str| s@)
}

/// Counts white-space-delimited words across all lines. A count beyond the range of the result
/// saturates.
pub fn word_count(lines: &[&str]) -> (r: usize)
    ensures
        r == if words_in_lines(str_views(lines@)) < usize::MAX {
            words_in_lines(str_views(lines@)) as usize
        } else {
            usize::MAX
        },
{
    let mut total: usize = 0;
    let mut i: usize = 0;
    let ghost all = str_views(lines@);
    while i < lines.len()
        invariant
            i <= lines@.len(),
            all == str_views(lines@),
            total < usize::MAX ==> total == words_in_lines(all.take(i as int)),
            total == usize::MAX ==> words_in_lines(all.take(i as int)) >= total,
        decreases lines@.len() - i,
    {
        let v = chars_of(lines[i]);
        let mut j: usize = 0;
        let ghost before = words_in_lines(all.take(i as int));
        while j < v.len()
            invariant
                j <= v@.len(),
                total < usize::MAX ==> total == before + words_in(v@.take(j as int)),
                total == usize::MAX ==> before + words_in(v@.take(j as int)) >= total,
            decreases v@.len() - j,
        {
            let starts = !char_is_white_space(v[j]) && (j == 0 || char_is_white_space(v[j - 1]));
            if starts && total < usize::MAX {
                total = total + 1;
            }
            j = j + 1;
            proof {
                let t = v@.take(j as int);
                assert(t.drop_last() =~= v@.take(j - 1));
                assert(word_starts_at(t, j - 1) == starts);
            }
        }
        assert(v@.take(v@.len() as int) =~= v@);
        i = i + 1;
        proof {
            assert(all.take(i as int).drop_last() =~= all.take(i - 1));
            assert(all.take(i as int).last() == lines@[i - 1]@);
        }
    }
    assert(all.take(all.len() as int) =~= all);
    total
}

// ---------------------------------------------------------------------------
// Layout
// ---------------------------------------------------------------------------

/// The body must be this wide for the preview to be shown beside the editor.
pub const MIN_SPLIT_WIDTH: u16 = 40;

/// A rectangle on the screen.
#[derive(Debug, Clone, Copy, PartialEq, Eq, Structural)]
pub struct Area {
    pub x: u16,
    pub y: u16,
    pub width: u16,
    pub height: u16,
}

impl Area {
    /// The rectangle ends within the coordinates.
    pub open spec fn wf(self) -> bool {
        self.x + self.width <= u16::MAX && self.y + self.height <= u16::MAX
    }

    /// The rectangle lies in another one.
    pub open spec fn within(self, outer: Area) -> bool {
        &&& outer.x <= self.x
        &&& self.x + self.width <= outer.x + outer.width
        &&& outer.y <= self.y
        &&& self.y + self.height <= outer.y + outer.height
    }
}

/// The direction in which an area is divided.
#[derive(Debug, Clone, Copy, PartialEq, Eq, Structural)]
pub enum Axis {
    Vertical,
    Horizontal,
}

/// How large one of two neighbouring areas is to be.
#[derive(Debug, Clone, Copy, PartialEq, Eq, Structural)]
pub enum Share {
    Min(u16),
    Length(u16),
    Percentage(u16),
}

/// The top row takes what the bottom row of one line leaves, but at least one line.
pub open spec fn rows(area: Area) -> (Area, Area) {
    let bottom: u16 = if area.height > 1 {
        1
    } else {
        0
    };
    let top = (area.height - bottom) as u16;
    (
        Area { height: top, ..area },
        Area { y: (area.y + top) as u16, height: bottom, ..area },
    )
}

/// The left column takes a percentage of the width, rounded to the nearest whole column; the
/// right column takes the rest.
pub open spec fn columns(area: Area, percent: int) -> (Area, Area) {
    let left = ((area.width * percent + 50) / 100) as u16;
    (
        Area { width: left, ..area },
        Area { x: (area.x + left) as u16, width: (area.width - left) as u16, ..area },
    )
}

/// `Layout::areas` for two constraints. Of a minimum and a length of one line each, one above the
/// other, the minimum is met first, then the length, and the rest goes to the upper area. Two
/// percentages that make up the whole, side by side, meet at the column nearest to their border.
#[verifier::external_body]
fn split_area(axis: Axis, first: Share, second: Share, area: Area) -> (r: (Area, Area))
    requires
        area.wf(),
        axis is Vertical ==> first == Share::Min(1) && second == Share::Length(1),
        axis is Horizontal ==> first is Percentage && second is Percentage
            && first->Percentage_0 + second->Percentage_0 == 100,
    ensures
        axis is Vertical ==> r == rows(area),
        axis is Horizontal ==> r == columns(area, first->Percentage_0 as int),
{
    let shares = [first, second].map(|s| match s {
        Share::Min(n) => Constraint::Min(n),
        Share::Length(n) => Constraint::Length(n),
        Share::Percentage(n) => Constraint::Percentage(n),
    });
    let direction = match axis {
        Axis::Vertical => Direction::Vertical,
        Axis::Horizontal => Direction::Horizontal,
    };
    let rect = Rect { x: area.x, y: area.y, width: area.width, height: area.height };
    let [a, b] = Layout::new(direction, shares).areas(rect);
    let back = |r: Rect| Area { x: r.x, y: r.y, width: r.width, height: r.height };
    (back(a), back(b))
}

/// The percentage that the editor gets, kept in its valid range.
#[verifier::allow_in_spec]
pub fn editor_share(split_ratio: u8) -> u16
    returns
        (if split_ratio < 10 {
            10u16
        } else if split_ratio > 98 {
            98u16
        } else {
            split_ratio as u16
        }),
{
    if split_ratio < 10 {
        10
    } else if split_ratio > 98 {
        98
    } else {
        split_ratio as u16
    }
}

/// The editor and the preview pane in the body of the screen. The editor takes the whole body
/// when the preview is hidden or the body is too narrow.
pub open spec fn body_panes(mode: PreviewMode, split_ratio: u8, body: Area) -> (
    Area,
    Option<Area>,
) {
    if mode is Hidden || body.width < MIN_SPLIT_WIDTH {
        (body, None)
    } else {
        let (left, right) = columns(body, editor_share(split_ratio) as int);
        (left, Some(right))
    }
}

/// The editor and the preview pane in the body of the screen.
pub fn split_body(app: &App, body: Area) -> (r: (Area, Option<Area>))
    requires
        body.wf(),
    ensures
        r == body_panes(app.preview_mode, app.config.ui.split_ratio, body),
{
    if app.preview_mode == PreviewMode::Hidden || body.width < MIN_SPLIT_WIDTH {
        return (body, None);
    }
    let ratio: u16 = editor_share(app.config.ui.split_ratio);
    let (left, right) = split_area(
        Axis::Horizontal,
        Share::Percentage(ratio),
        Share::Percentage(100 - ratio),
        body,
    );
    (left, Some(right))
}

/// The number of columns that the preview is rendered for: the pane without its borders, but at
/// least 20; 80 without a pane.
pub open spec fn preview_columns(preview: Option<Area>) -> u16 {
    match preview {
        Some(area) => if area.width >= 22 {
            (area.width - 2) as u16
        } else {
            20
        },
        None => 80,
    }
}

/// The number of columns that the preview is rendered for.
pub fn preview_width(preview: Option<Area>) -> (r: u16)
    ensures
        r == match preview {
            Some(area) => if area.width >= 22 {
                (area.width - 2) as u16
            } else {
                20
            },
            None => 80,
        },
        r == preview_columns(preview),
{
    match preview {
        Some(area) => if area.width >= 22 {
            area.width - 2
        } else {
            20
        },
        None => 80,
    }
}

/// Where everything is drawn.
#[derive(Debug, Clone, Copy, PartialEq, Eq, Structural)]
pub struct ScreenLayout {
    pub editor: Area,
    pub preview: Option<Area>,
    /// The status bar or a prompt.
    pub bottom: Area,
}

/// Lays out the screen: editor and preview in the body, one line for the status bar or a prompt
/// below. The width of the preview pane is noted for the next request to render.
pub fn layout(app: &mut App, area: Area) -> (r: ScreenLayout)
    requires
        area.wf(),
    ensures
        ({
            let (body, bottom) = rows(area);
            let (editor, preview) = body_panes(
                old(app).preview_mode,
                old(app).config.ui.split_ratio,
                body,
            );
            r == (ScreenLayout { editor, preview, bottom })
        }),
        final(app)@ == (AppView {
            preview_width: match r.preview {
                Some(preview) => if preview.width >= 22 {
                    (preview.width - 2) as u16
                } else {
                    20
                },
                None => 80,
            },
            ..old(app)@
        }),
        old(app).wf() ==> final(app).wf(),
        final(app).doc_revision == old(app).doc_revision,
{
    let (body, bottom) = split_area(Axis::Vertical, Share::Min(1), Share::Length(1), area);
    let (editor, preview) = split_body(app, body);
    app.last_preview_width = preview_width(preview);
    assert(app@ =~= AppView { preview_width: app.last_preview_width, ..old(app)@ });
    ScreenLayout { editor, preview, bottom }
}

// ---------------------------------------------------------------------------
// Panes
// ---------------------------------------------------------------------------

/// The frame around a pane.
#[derive(Debug)]
pub struct PaneFrame {
    pub border: Style,
    pub title: Span,
}

#[verifier::ext_equal]
pub struct PaneFrameView {
    pub border: Style,
    pub title: SpanView,
}

impl View for PaneFrame {
    type V = PaneFrameView;

    open spec fn view(&self) -> PaneFrameView {
        PaneFrameView { border: self.border, title: self.title@ }
    }
}

/// The colour of the editor's border shows the mode.
#[verifier::allow_in_spec]
pub fn border_style(mode: EditorMode) -> Style
    returns
        (match mode {
            EditorMode::Insert => Style::plain().fg(Color::LightCyan).add_modifier(
                Modifier::bold(),
            ),
            EditorMode::Command => Style::plain().fg(Color::Magenta).add_modifier(
                Modifier::bold(),
            ),
            EditorMode::Search => Style::plain().fg(Color::Yellow).add_modifier(Modifier::bold()),
            EditorMode::LinkSelect => Style::plain().fg(Color::Blue).add_modifier(
                Modifier::bold(),
            ),
            EditorMode::Normal => Style::plain().fg(Color::DarkGray),
        }),
{
    match mode {
        EditorMode::Insert => Style::plain().fg(Color::LightCyan).add_modifier(Modifier::bold()),
        EditorMode::Command => Style::plain().fg(Color::Magenta).add_modifier(Modifier::bold()),
        EditorMode::Search => Style::plain().fg(Color::Yellow).add_modifier(Modifier::bold()),
        EditorMode::LinkSelect => Style::plain().fg(Color::Blue).add_modifier(Modifier::bold()),
        EditorMode::Normal => Style::plain().fg(Color::DarkGray),
    }
}

/// The frame of the editor pane, with the name of the file.
pub fn editor_frame(app: &App) -> (r: PaneFrame)
    ensures
        exists|name: Seq<char>| #[trigger]
            status_shows(app@.document, name) && r@ == (PaneFrameView {
                border: border_style(app.mode),
                title: span(
                    " "@ + name + " "@,
                    Style::plain().fg(Color::Cyan).add_modifier(Modifier::bold()),
                ),
            }),
{
    let name = app.status_filename();
    assert(status_shows(app@.document, name@));
    let title = concat3(" ", name.as_str(), " ");
    PaneFrame {
        border: border_style(app.mode),
        title: Span::styled(
            title,
            Style::plain().fg(Color::Cyan).add_modifier(Modifier::bold()),
        ),
    }
}

/// The style of the line numbers; `None` where they are not shown.
pub fn line_number_style(app: &App) -> (r: Option<Style>)
    ensures
        r == if app.config.editor.line_numbers {
            Some(Style::plain().fg(Color::DarkGray))
        } else {
            None
        },
{
    if app.config.editor.line_numbers {
        Some(Style::plain().fg(Color::DarkGray))
    } else {
        None
    }
}

/// The frame of a preview pane.
pub fn preview_block(title: &str, border_color: Color) -> (r: PaneFrame)
    ensures
        r@ == (PaneFrameView {
            border: Style::plain().fg(border_color),
            title: span(title@, Style::plain().fg(Color::DarkGray)),
        }),
{
    PaneFrame {
        border: Style::plain().fg(border_color),
        title: Span::styled(title.to_owned(), Style::plain().fg(Color::DarkGray)),
    }
}

/// An HTML text as unstyled lines.
pub fn html_string_to_text(html: &str) -> (r: Text)
    ensures
        r@ == shown_html_lines(html@).map_values(|l: Seq<char>| seq![span(l, Style::plain())]),
{
    let lines = html_to_lines(html);
    let ghost all = shown_html_lines(html@);
    let ghost shown = all.map_values(|l: Seq<char>| seq![span(l, Style::plain())]);
    let mut out: Vec<Line> = Vec::new();
    let mut i: usize = 0;
    assert(line_views(out@) =~= shown.take(0));
    while i < lines.len()
        invariant
            i <= lines@.len(),
            views(lines@) == all,
            shown == all.map_values(|l: Seq<char>| seq![span(l, Style::plain())]),
            line_views(out@) == shown.take(i as int),
        decreases lines@.len() - i,
    {
        let ghost front = out@;
        let line = Line::of(lines[i].clone(), Style::plain());
        assert(line@ == shown[i as int]);
        out.push(line);
        i = i + 1;
        assert(line_views(out@) =~= line_views(front).push(line@));
        assert(shown.take(i as int) =~= shown.take(i - 1).push(shown[i - 1]));
    }
    assert(shown.take(i as int) =~= shown);
    Text { lines: out }
}

/// A web address that the document links to.
pub open spec fn is_linked_url(links: Seq<LinkView>, url: Seq<char>) -> bool {
    exists|i: int|
        0 <= i < links.len() && (#[trigger] links[i]).target == LinkTargetView::External(url)
}

/// A text with a terminal hyperlink round it.
pub open spec fn hyperlinked(url: Seq<char>, text: Seq<char>) -> Seq<char> {
    "\u{1b}]8;;"@ + url + "\u{1b}\\"@ + text + "\u{1b}]8;;\u{1b}\\"@
}

/// A span that shows nothing but a linked web address becomes a hyperlink.
pub open spec fn linked_span(s: SpanView, links: Seq<LinkView>) -> SpanView {
    if is_linked_url(links, trimmed(s.content)) {
        span(hyperlinked(trimmed(s.content), s.content), s.style)
    } else {
        s
    }
}

pub open spec fn linked_line(l: Seq<SpanView>, links: Seq<LinkView>) -> Seq<SpanView> {
    l.map_values(|s: SpanView| linked_span(s, links))
}

pub open spec fn linked_text(t: Seq<Seq<SpanView>>, links: Seq<LinkView>) -> Seq<Seq<SpanView>> {
    t.map_values(|l: Seq<SpanView>| linked_line(l, links))
}

/// The document links to this web address.
fn has_url(link_index: &LinkIndex, url: &str) -> (r: bool)
    ensures
        r == is_linked_url(link_index@, url@),
{
    let mut i: usize = 0;
    while i < link_index.len()
        invariant
            i <= link_index@.len(),
            forall|k: int|
                0 <= k < i ==> (#[trigger] link_index@[k]).target != LinkTargetView::External(url@),
        decreases link_index@.len() - i,
    {
        assert(link_index@[i as int] == link_index.0@[i as int]@);
        if let LinkTarget::External(u) = &link_index.0[i].target {
            if str_is(u.as_str(), url) {
                return true;
            }
        }
        i = i + 1;
    }
    false
}

/// Wraps spans that show a linked web address in OSC 8 escape sequences, so that terminals that
/// know them make the address clickable.
///
/// A span counts when its text without surrounding white space is the address of a link. Spans
/// with another link text are left alone.
pub fn inject_osc8(text: Text, link_index: &LinkIndex) -> (r: Text)
    ensures
        r@ == linked_text(text@, link_index@),
{
    let ghost links = link_index@;
    let ghost all = linked_text(text@, links);
    let mut lines: Vec<Line> = Vec::new();
    let mut i: usize = 0;
    assert(line_views(lines@) =~= all.take(0));
    while i < text.lines.len()
        invariant
            i <= text.lines@.len(),
            links == link_index@,
            all == linked_text(text@, links),
            line_views(lines@) == all.take(i as int),
        decreases text.lines@.len() - i,
    {
        let line = inject_osc8_line(&text.lines[i], link_index);
        assert(line@ == all[i as int]);
        let ghost front = lines@;
        lines.push(line);
        i = i + 1;
        assert(line_views(lines@) =~= line_views(front).push(line@));
        assert(all.take(i as int) =~= all.take(i - 1).push(all[i - 1]));
    }
    assert(all.take(i as int) =~= all);
    Text { lines }
}

fn inject_osc8_line(line: &Line, link_index: &LinkIndex) -> (r: Line)
    ensures
        r@ == linked_line(line@, link_index@),
{
    let ghost links = link_index@;
    let ghost all = linked_line(line@, links);
    let mut spans: Vec<Span> = Vec::new();
    let mut i: usize = 0;
    assert(span_views(spans@) =~= all.take(0));
    while i < line.spans.len()
        invariant
            i <= line.spans@.len(),
            links == link_index@,
            all == linked_line(line@, links),
            span_views(spans@) == all.take(i as int),
        decreases line.spans@.len() - i,
    {
        let old_span = &line.spans[i];
        let url = trim(old_span.content.as_str());
        let s = if has_url(link_index, url) {
            let mut wrapped = concat3("\u{1b}]8;;", url, "\u{1b}\\");
            wrapped.append(old_span.content.as_str());
            wrapped.append("\u{1b}]8;;\u{1b}\\");
            Span::styled(wrapped, old_span.style)
        } else {
            old_span.clone()
        };
        assert(s@ == all[i as int]);
        let ghost front = spans@;
        spans.push(s);
        i = i + 1;
        assert(span_views(spans@) =~= span_views(front).push(s@));
        assert(all.take(i as int) =~= all.take(i - 1).push(all[i - 1]));
    }
    assert(all.take(i as int) =~= all);
    Line { spans }
}

/// What a preview pane shows: its frame, its text, and the first line that is visible.
#[derive(Debug)]
pub struct PreviewPane {
    pub frame: PaneFrame,
    pub text: Text,
    pub scroll: u16,
}

/// Hyperlinks are to be emitted.
pub open spec fn emits_hyperlinks(app: App) -> bool {
    match app.config.terminal.hyperlinks {
        HyperlinksMode::On => true,
        HyperlinksMode::Off => false,
        HyperlinksMode::Auto => app.hyperlinks_supported,
    }
}

/// The preview pane; `None` where it is hidden.
pub fn preview_pane(app: &App) -> (r: Option<PreviewPane>)
    ensures
        match app.preview_mode {
            PreviewMode::Rendered => {
                &&& r matches Some(p)
                &&& p.frame@.title.content == " Preview "@
                &&& p.text@ == if emits_hyperlinks(*app) {
                    linked_text(app@.preview_text, app@.links)
                } else {
                    app@.preview_text
                }
                &&& p.scroll == app.preview_scroll
            },
            PreviewMode::Html => {
                &&& r matches Some(p)
                &&& p.frame@.title.content == " HTML "@
                &&& p.text@ == shown_html_lines(app@.preview_html).map_values(
                    |l: Seq<char>| seq![span(l, Style::plain())],
                )
                &&& p.scroll == app.preview_scroll_html
            },
            PreviewMode::Hidden => r is None,
        },
        r matches Some(p) ==> p.frame.border == Style::plain().fg(Color::DarkGray)
            && p.frame@.title.style == Style::plain().fg(Color::DarkGray),
{
    match app.preview_mode {
        PreviewMode::Rendered => {
            let text = if app.hyperlinks_enabled() {
                inject_osc8(app.preview_text.clone(), &app.link_index)
            } else {
                app.preview_text.clone()
            };
            Some(
                PreviewPane {
                    frame: preview_block(" Preview ", Color::DarkGray),
                    text,
                    scroll: app.preview_scroll,
                },
            )
        },
        PreviewMode::Html => Some(
            PreviewPane {
                frame: preview_block(" HTML ", Color::DarkGray),
                text: html_string_to_text(app.preview_html.as_str()),
                scroll: app.preview_scroll_html,
            },
        ),
        PreviewMode::Hidden => None,
    }
}

// ---------------------------------------------------------------------------
// Images
// ---------------------------------------------------------------------------

/// The extensions of image files.
pub open spec fn is_image_extension(ext: Seq<char>) -> bool {
    ||| ext == "png"@
    ||| ext == "jpg"@
    ||| ext == "jpeg"@
    ||| ext == "gif"@
    ||| ext == "webp"@
    ||| ext == "bmp"@
}

/// A web address that looks like an image.
pub open spec fn is_image_url(url: Seq<char>) -> bool {
    let lower = lowercased(url);
    ||| ".png"@.is_suffix_of(lower)
    ||| ".jpg"@.is_suffix_of(lower)
    ||| ".jpeg"@.is_suffix_of(lower)
    ||| ".gif"@.is_suffix_of(lower)
    ||| "webp"@.is_suffix_of(lower)
}

/// Where the image of a link comes from; `None` for a link to something else. A file counts by its
/// extension.
pub open spec fn image_source(target: LinkTargetView, ext: Option<Seq<char>>) -> Option<
    Seq<char>,
> {
    match target {
        LinkTargetView::FilePath(path) => if ext is Some && is_image_extension(
            lowercased(ext->0),
        ) {
            Some(path)
        } else {
            None
        },
        LinkTargetView::External(url) => if is_image_url(url) {
            Some(url)
        } else {
            None
        },
        LinkTargetView::Image { url, .. } => Some(url),
        _ => None,
    }
}

/// Where the image of a link can come from: that depends on the extension that the platform finds
/// in the path of a file.
pub open spec fn is_source(target: LinkTargetView, source: Option<Seq<char>>) -> bool {
    match target {
        LinkTargetView::FilePath(path) => exists|ext: Option<Seq<char>>| #[trigger]
            has_extension(path, ext) && source == image_source(target, ext),
        _ => source == image_source(target, None),
    }
}

/// Where the image of a link comes from.
pub fn image_source_of(target: &LinkTarget) -> (r: Option<String>)
    ensures
        is_source(target@, opt_view(r)),
{
    match target {
        LinkTarget::FilePath(path) => {
            let ext = extension(path.as_str());
            assert(has_extension(path@, opt_view(ext)));
            image_source_with(target, &ext)
        },
        _ => image_source_with(target, &None),
    }
}

/// Where the image of a link comes from, given the extension of its file.
pub fn image_source_with(target: &LinkTarget, ext: &Option<String>) -> (r: Option<String>)
    ensures
        opt_view(r) == image_source(target@, opt_view(*ext)),
{
    match target {
        LinkTarget::FilePath(path) => {
            let ext = match ext {
                Some(ext) => to_lowercase(ext.as_str()),
                None => {
                    return None;
                },
            };
            let e = ext.as_str();
            if str_is(e, "png") || str_is(e, "jpg") || str_is(e, "jpeg") || str_is(e, "gif")
                || str_is(e, "webp") || str_is(e, "bmp") {
                Some(path.clone())
            } else {
                None
            }
        },
        LinkTarget::External(url) => {
            let lower = to_lowercase(url.as_str());
            let l = lower.as_str();
            if ends_with(l, ".png") || ends_with(l, ".jpg") || ends_with(l, ".jpeg") || ends_with(
                l,
                ".gif",
            ) || ends_with(l, "webp") {
                Some(url.clone())
            } else {
                None
            }
        },
        LinkTarget::Image { url, .. } => Some(url.clone()),
        _ => None,
    }
}

/// Where an image is drawn that stands in the given line: below that line, up to eight lines
/// high. `None` where the line is scrolled off the lower end.
pub open spec fn image_area(source_line: nat, scroll: u16, inner: Area) -> Option<Area> {
    let row: int = if source_line > scroll {
        source_line - scroll
    } else {
        0
    };
    if row >= inner.height {
        None
    } else {
        let last = inner.y + inner.height - 1;
        let y = if inner.y + row + 1 <= last {
            inner.y + row + 1
        } else {
            last
        };
        let room = inner.y + inner.height - y;
        Some(
            Area {
                x: inner.x,
                y: y as u16,
                width: inner.width,
                height: if room < 8 {
                    room as u16
                } else {
                    8
                },
            },
        )
    }
}

/// Where an image is drawn.
fn place_image(source_line: usize, scroll: u16, inner: Area) -> (r: Option<Area>)
    requires
        inner.wf(),
    ensures
        r == image_area(source_line as nat, scroll, inner),
{
    let row: usize = if source_line > scroll as usize {
        source_line - scroll as usize
    } else {
        0
    };
    if row >= inner.height as usize {
        return None;
    }
    let last: u16 = inner.y + (inner.height - 1);
    let y: u16 = if inner.y as u32 + row as u32 + 1 <= last as u32 {
        inner.y + row as u16 + 1
    } else {
        last
    };
    let room: u16 = inner.height - (y - inner.y);
    Some(
        Area {
            x: inner.x,
            y,
            width: inner.width,
            height: if room < 8 {
                room
            } else {
                8
            },
        },
    )
}

/// An image of the preview and where it is drawn.
#[derive(Debug)]
pub struct ImagePlacement {
    pub source: String,
    pub area: Area,
}

#[verifier::ext_equal]
pub struct ImagePlacementView {
    pub source: Seq<char>,
    pub area: Area,
}

impl View for ImagePlacement {
    type V = ImagePlacementView;

    open spec fn view(&self) -> ImagePlacementView {
        ImagePlacementView { source: self.source@, area: self.area }
    }
}

pub open spec fn placement_views(v: Seq<ImagePlacement>) -> Seq<ImagePlacementView> {
    v.map_values(|p: ImagePlacement| p@)
}

/// The images that are visible, in the order of the links, given where the image of each link comes
/// from.
pub open spec fn visible_images(
    links: Seq<LinkView>,
    sources: Seq<Option<Seq<char>>>,
    scroll: u16,
    inner: Area,
) -> Seq<ImagePlacementView>
    decreases links.len(),
{
    if links.len() == 0 {
        Seq::empty()
    } else {
        let front = visible_images(links.drop_last(), sources.drop_last(), scroll, inner);
        match (sources.last(), image_area(links.last().source_line, scroll, inner)) {
            (Some(source), Some(area)) => front.push(ImagePlacementView { source, area }),
            _ => front,
        }
    }
}

/// Where the images of the links can come from.
pub open spec fn are_sources(links: Seq<LinkView>, sources: Seq<Option<Seq<char>>>) -> bool {
    &&& sources.len() == links.len()
    &&& forall|i: int|
        0 <= i < links.len() ==> is_source((#[trigger] links[i]).target, sources[i])
}

pub open spec fn opt_views(v: Seq<Option<String>>) -> Seq<Option<Seq<char>>> {
    v.map_values(|s: Option<String>| opt_view(s))
}

/// The images that are visible in the inside of the preview pane. None are while images are
/// disabled.
pub fn preview_images(app: &App, inner: Area) -> (r: Vec<ImagePlacement>)
    requires
        inner.wf(),
    ensures
        if app.config.images.enabled && app.detected_image_protocol !is Disabled && app.picker
            is Some {
            exists|sources: Seq<Option<Seq<char>>>| #[trigger]
                are_sources(app@.links, sources) && placement_views(r@) == visible_images(
                    app@.links,
                    sources,
                    app.preview_scroll,
                    inner,
                )
        } else {
            r@.len() == 0
        },
{
    if !app.images_enabled() {
        return Vec::new();
    }
    let mut sources: Vec<Option<String>> = Vec::new();
    let ghost links = app@.links;
    let mut i: usize = 0;
    while i < app.link_index.len()
        invariant
            links == app@.links,
            i <= links.len(),
            sources@.len() == i,
            forall|k: int|
                0 <= k < i ==> is_source((#[trigger] links[k]).target, opt_view(sources@[k])),
        decreases links.len() - i,
    {
        assert(links[i as int] == app.link_index.0@[i as int]@);
        let source = image_source_of(&app.link_index.0[i].target);
        sources.push(source);
        i = i + 1;
    }
    assert(are_sources(links, opt_views(sources@)));
    place_images(&app.link_index, &sources, app.preview_scroll, inner)
}

/// The images that are visible, given where the image of each link comes from.
pub fn place_images(
    links: &LinkIndex,
    sources: &Vec<Option<String>>,
    scroll: u16,
    inner: Area,
) -> (r: Vec<ImagePlacement>)
    requires
        inner.wf(),
        sources@.len() == links@.len(),
    ensures
        placement_views(r@) == visible_images(links@, opt_views(sources@), scroll, inner),
{
    let mut out: Vec<ImagePlacement> = Vec::new();
    let ghost all = links@;
    let ghost from = opt_views(sources@);
    let mut i: usize = 0;
    assert(placement_views(out@) =~= Seq::<ImagePlacementView>::empty());
    assert(all.take(0) =~= Seq::<LinkView>::empty());
    while i < links.len()
        invariant
            all == links@,
            from == opt_views(sources@),
            sources@.len() == links@.len(),
            inner.wf(),
            i <= all.len(),
            placement_views(out@) == visible_images(
                all.take(i as int),
                from.take(i as int),
                scroll,
                inner,
            ),
        decreases all.len() - i,
    {
        let link = &links.0[i];
        proof {
            assert(all.take(i + 1).drop_last() =~= all.take(i as int));
            assert(all.take(i + 1).last() == link@);
            assert(from.take(i + 1).drop_last() =~= from.take(i as int));
            assert(from.take(i + 1).last() == opt_view(sources@[i as int]));
        }
        let area = place_image(link.source_line, scroll, inner);
        if let Some(source) = &sources[i] {
            if let Some(area) = area {
                let ghost front = out@;
                let p = ImagePlacement { source: source.clone(), area };
                out.push(p);
                assert(placement_views(out@) =~= placement_views(front).push(p@));
            }
        }
        i = i + 1;
    }
    assert(all.take(all.len() as int) =~= all);
    assert(from.take(all.len() as int) =~= from);
    out
}

// ---------------------------------------------------------------------------
// The bottom line
// ---------------------------------------------------------------------------

/// The line at the bottom of the screen, and the style of what it does not cover.
#[derive(Debug)]
pub struct Bar {
    pub line: Line,
    pub style: Style,
}

#[verifier::ext_equal]
pub struct BarView {
    pub line: Seq<SpanView>,
    pub style: Style,
}

impl View for Bar {
    type V = BarView;

    open spec fn view(&self) -> BarView {
        BarView { line: self.line@, style: self.style }
    }
}

/// The background of the status bar and of the command and search prompts.
#[verifier::allow_in_spec]
pub fn bar_style() -> Style
    returns
        Style::plain().bg(Color::Rgb(30, 30, 30)),
{
    Style::plain().bg(Color::Rgb(30, 30, 30))
}

/// The background of the link prompt.
#[verifier::allow_in_spec]
pub fn link_bar_style() -> Style
    returns
        Style::plain().bg(Color::Rgb(20, 40, 80)),
{
    Style::plain().bg(Color::Rgb(20, 40, 80))
}

/// The command prompt: `:wq_`
pub open spec fn command_bar(app: AppView) -> BarView {
    BarView {
        line: seq![
            span(
                ":"@ + app.command + "_"@,
                bar_style().fg(Color::White).add_modifier(Modifier::bold()),
            ),
        ],
        style: bar_style(),
    }
}

/// The command prompt.
pub fn command_prompt(app: &App) -> (r: Bar)
    ensures
        r@ == command_bar(app@),
{
    Bar {
        line: Line::of(
            concat3(":", app.command_input.as_str(), "_"),
            bar_style().fg(Color::White).add_modifier(Modifier::bold()),
        ),
        style: bar_style(),
    }
}

/// The number of blanks between a text on the left and one on the right, given in bytes.
pub open spec fn padding_between(width: nat, left: nat, right: nat) -> nat {
    if left + right <= width {
        (width - left - right) as nat
    } else {
        0
    }
}

fn padding(width: u16, left: usize, right: usize) -> (r: usize)
    ensures
        r == padding_between(width as nat, left as nat, right as nat),
{
    let total: usize = width as usize;
    if left <= total && right <= total - left {
        total - left - right
    } else {
        0
    }
}

/// What is typed on the search prompt: `/ hello_`, or with a `?` for a regular expression.
pub open spec fn search_prompt_text(app: AppView) -> Seq<char> {
    match app.search {
        Some(s) => (if s.kind is Regex {
            "?"@
        } else {
            "/"@
        }) + " "@ + s.pattern + "_"@,
        None => "/"@ + " "@ + Seq::<char>::empty() + "_"@,
    }
}

/// The match counter on the search prompt: `[2/4]`
pub open spec fn search_prompt_counter(app: AppView) -> Seq<char> {
    "["@ + (match app.search {
        Some(s) => if s.pattern.len() > 0 {
            s.counter()
        } else {
            "0/0"@
        },
        None => "0/0"@,
    }) + "]"@
}

/// The search prompt: the pattern on the left, the match counter on the right.
pub open spec fn search_bar(app: AppView, width: u16) -> BarView {
    let text = search_prompt_text(app);
    let counter = search_prompt_counter(app);
    BarView {
        line: seq![
            span(text, bar_style().fg(Color::Yellow).add_modifier(Modifier::bold())),
            span(
                repeated(' ', padding_between(width as nat, byte_len(text), byte_len(counter))),
                bar_style(),
            ),
            span(counter, bar_style().fg(Color::Cyan)),
        ],
        style: bar_style(),
    }
}

/// The search prompt.
pub fn search_prompt(app: &App, width: u16) -> (r: Bar)
    requires
        app.wf(),
    ensures
        r@ == search_bar(app@, width),
{
    let prefix = match app.search_kind() {
        Some(SearchKind::Regex) => "?",
        _ => "/",
    };
    let mut text = concat3(prefix, " ", app.search_pattern());
    text.append("_");
    assert(text@ =~= search_prompt_text(app@));
    let counter = match app.search_counter_str() {
        Some(c) => concat3("[", c.as_str(), "]"),
        None => concat3("[", "0/0", "]"),
    };
    assert(counter@ =~= search_prompt_counter(app@));
    let blanks: usize = padding(width, byte_len_of(text.as_str()), byte_len_of(counter.as_str()));
    let mut spans: Vec<Span> = Vec::new();
    spans.push(
        Span::styled(text, bar_style().fg(Color::Yellow).add_modifier(Modifier::bold())),
    );
    spans.push(Span::styled(repeat_char(' ', blanks), bar_style()));
    spans.push(Span::styled(counter, bar_style().fg(Color::Cyan)));
    let r = Bar { line: Line::from_spans(spans), style: bar_style() };
    assert(r@.line =~= search_bar(app@, width).line);
    r
}

/// What kind of link is selected.
pub open spec fn kind_label(target: LinkTargetView) -> Seq<char> {
    match target {
        LinkTargetView::External(_) => "EXTERNAL"@,
        LinkTargetView::InternalAnchor(_) => "ANCHOR"@,
        LinkTargetView::WikiLink(_) => "WIKILINK"@,
        LinkTargetView::FilePath(_) => "FILEPATH"@,
        LinkTargetView::Image { .. } => "IMAGE"@,
    }
}

/// The position among the links.
pub open spec fn link_counter(app: AppView) -> Seq<char> {
    if app.links.len() == 0 {
        "0/0"@
    } else {
        decimal(app.link_cursor + 1) + "/"@ + decimal(app.links.len())
    }
}

/// What the link prompt says of the selected link.
pub open spec fn link_prompt_text(app: AppView) -> Seq<char> {
    let selected = app.link_cursor < app.links.len();
    let target = app.links[app.link_cursor as int].target;
    "[LINKS "@ + link_counter(app) + "] "@ + (if selected {
        kind_label(target)
    } else {
        "-"@
    }) + " → "@ + (if selected && app.mode is LinkSelect {
        target_text(target)
    } else {
        "-"@
    })
}

/// The link prompt: the selected link on the left, and the keys on the right where there is
/// room for them.
pub open spec fn link_bar(app: AppView, width: u16) -> BarView {
    let text = link_prompt_text(app);
    let hint = " j/k:nav | Enter:follow | Esc:cancel "@;
    let left = span(text, link_bar_style().fg(Color::White).add_modifier(Modifier::bold()));
    BarView {
        line: if width > byte_len(text) + byte_len(hint) + 2 {
            seq![
                left,
                span(
                    repeated(' ', padding_between(width as nat, byte_len(text), byte_len(hint))),
                    link_bar_style(),
                ),
                span(hint, link_bar_style().fg(Color::DarkGray)),
            ]
        } else {
            seq![left]
        },
        style: link_bar_style(),
    }
}

/// The link prompt.
pub fn link_select_prompt(app: &App, width: u16) -> (r: Bar)
    requires
        app.wf(),
    ensures
        r@ == link_bar(app@, width),
{
    let mut text = concat3("[LINKS ", app.link_select_counter().as_str(), "] ");
    let kind = match app.link_index.get(app.link_cursor) {
        Some(l) => match &l.target {
            LinkTarget::External(_) => "EXTERNAL",
            LinkTarget::InternalAnchor(_) => "ANCHOR",
            LinkTarget::WikiLink(_) => "WIKILINK",
            LinkTarget::FilePath(_) => "FILEPATH",
            LinkTarget::Image { .. } => "IMAGE",
        },
        None => "-",
    };
    text.append(kind);
    text.append(" → ");
    match app.current_link_display() {
        Some(target) => text.append(target.as_str()),
        None => text.append("-"),
    }
    assert(text@ =~= link_prompt_text(app@));
    let hint = " j/k:nav | Enter:follow | Esc:cancel ";
    let left_width: usize = byte_len_of(text.as_str());
    let hint_width: usize = byte_len_of(hint);
    let blanks: usize = padding(width, left_width, hint_width);
    let mut spans: Vec<Span> = Vec::new();
    spans.push(
        Span::styled(text, link_bar_style().fg(Color::White).add_modifier(Modifier::bold())),
    );
    if blanks > 2 {
        spans.push(Span::styled(repeat_char(' ', blanks), link_bar_style()));
        spans.push(Span::styled(hint.to_owned(), link_bar_style().fg(Color::DarkGray)));
    }
    let r = Bar { line: Line::from_spans(spans), style: link_bar_style() };
    assert(r@.line =~= link_bar(app@, width).line);
    r
}

/// The colours of the mode in the status bar: background and foreground.
#[verifier::allow_in_spec]
pub fn mode_colors(mode: &EditorMode) -> (Color, Color)
    returns
        (match mode {
            EditorMode::Normal => (Color::Green, Color::Black),
            EditorMode::Insert => (Color::LightCyan, Color::Black),
            EditorMode::Search => (Color::Yellow, Color::Black),
            EditorMode::Command => (Color::Magenta, Color::Black),
            EditorMode::LinkSelect => (Color::Blue, Color::White),
        }),
{
    match mode {
        EditorMode::Normal => (Color::Green, Color::Black),
        EditorMode::Insert => (Color::LightCyan, Color::Black),
        EditorMode::Search => (Color::Yellow, Color::Black),
        EditorMode::Command => (Color::Magenta, Color::Black),
        EditorMode::LinkSelect => (Color::Blue, Color::White),
    }
}

/// The colour of a notification.
#[verifier::allow_in_spec]
pub fn level_color(level: NotificationLevel) -> Color
    returns
        (match level {
            NotificationLevel::Info => Color::Green,
            NotificationLevel::Warn => Color::Yellow,
            NotificationLevel::Error => Color::Red,
        }),
{
    match level {
        NotificationLevel::Info => Color::Green,
        NotificationLevel::Warn => Color::Yellow,
        NotificationLevel::Error => Color::Red,
    }
}

/// A number with a comma between groups of three digits: `1,234`
pub open spec fn grouped(n: nat) -> Seq<char>
    decreases n,
{
    if n < 1000 {
        decimal(n)
    } else {
        grouped(n / 1000) + seq![
            ',',
            digit(n % 1000 / 100),
            digit(n % 100 / 10),
            digit(n % 10),
        ]
    }
}

/// A number with a comma between groups of three digits.
pub fn group_digits(n: usize) -> (r: String)
    ensures
        r@ == grouped(n as nat),
    decreases n,
{
    if n < 1000 {
        return to_decimal(n as u128);
    }
    let mut r = group_digits(n / 1000);
    r.push(',');
    r.push(digit_char((n % 1000 / 100) as u8));
    r.push(digit_char((n % 100 / 10) as u8));
    r.push(digit_char((n % 10) as u8));
    assert(r@ =~= grouped(n as nat));
    r
}

/// Which preview the status bar names.
pub open spec fn preview_label(mode: PreviewMode) -> Seq<char> {
    match mode {
        PreviewMode::Rendered => "[P:Rendered]"@,
        PreviewMode::Html => "[P:HTML]"@,
        PreviewMode::Hidden => "[P:Off]"@,
    }
}

/// The number of words that the status bar shows.
pub open spec fn shown_words(lines: Seq<Seq<char>>) -> nat {
    if words_in_lines(lines) < usize::MAX {
        words_in_lines(lines)
    } else {
        usize::MAX as nat
    }
}

/// The right end of the status bar: the latest notification, or else the search counter, or else
/// the number of words.
pub open spec fn status_right(app: AppView, now: u64) -> SpanView {
    match latest(app.notifications, now) {
        Some(n) => span(
            " "@ + n.message + " "@,
            Style::plain().fg(level_color(n.level)).add_modifier(Modifier::bold()),
        ),
        None => if app.search is Some && app.search->0.pattern.len() > 0 {
            span(
                " ["@ + app.search->0.counter() + "] "@,
                Style::plain().fg(Color::Cyan).add_modifier(Modifier::bold()),
            )
        } else {
            span(
                " "@ + grouped(shown_words(app.textarea.lines)) + " words"@,
                Style::plain().fg(Color::DarkGray),
            )
        },
    }
}

/// The status bar: mode, file, cursor, preview mode, and a notification or counter. The file is
/// shown by this name.
pub open spec fn status_bar(app: AppView, name: Seq<char>, now: u64) -> BarView {
    let sep = span(" | "@, Style::plain().fg(Color::DarkGray));
    let colors = mode_colors(&app.mode);
    BarView {
        line: seq![
            span(
                " "@ + mode_label(app.mode) + " "@,
                Style::plain().fg(colors.1).bg(colors.0).add_modifier(Modifier::bold()),
            ),
            span(" "@ + name + " "@, Style::plain().fg(Color::White)),
            sep,
            span(
                " "@ + decimal(app.textarea.cursor.0 + 1) + ":"@ + decimal(
                    app.textarea.cursor.1 + 1,
                ),
                Style::plain().fg(Color::Yellow),
            ),
            sep,
            span(" "@ + preview_label(app.preview_mode), Style::plain().fg(Color::DarkGray)),
            sep,
            status_right(app, now),
        ],
        style: bar_style(),
    }
}

/// The lines as string slices.
fn slices(lines: &Vec<String>) -> (r: Vec<&str>)
    ensures
        str_views(r@) == views(lines@),
{
    let mut r: Vec<&str> = Vec::new();
    let mut i: usize = 0;
    assert(str_views(r@) =~= views(lines@).take(0));
    while i < lines.len()
        invariant
            i <= lines@.len(),
            str_views(r@) == views(lines@).take(i as int),
        decreases lines@.len() - i,
    {
        let ghost front = r@;
        r.push(lines[i].as_str());
        i = i + 1;
        assert(str_views(r@) =~= str_views(front).push(views(lines@)[i - 1]));
        assert(views(lines@).take(i as int) =~= views(lines@).take(i - 1).push(
            views(lines@)[i - 1],
        ));
    }
    assert(views(lines@).take(i as int) =~= views(lines@));
    r
}

/// The right end of the status bar.
fn status_right_span(app: &App, now: u64) -> (r: Span)
    requires
        app.wf(),
    ensures
        r@ == status_right(app@, now),
{
    if let Some(n) = app.active_notification(now) {
        return Span::styled(
            concat3(" ", n.message.as_str(), " "),
            Style::plain().fg(level_color(n.level)).add_modifier(Modifier::bold()),
        );
    }
    if let Some(counter) = app.search_counter_str() {
        return Span::styled(
            concat3(" [", counter.as_str(), "] "),
            Style::plain().fg(Color::Cyan).add_modifier(Modifier::bold()),
        );
    }
    let lines = app.textarea.lines();
    let words: usize = word_count(slices(&lines).as_slice());
    Span::styled(
        concat3(" ", group_digits(words).as_str(), " words"),
        Style::plain().fg(Color::DarkGray),
    )
}

/// The status bar.
pub fn status_line(app: &App, now: u64) -> (r: Bar)
    requires
        app.wf(),
    ensures
        exists|name: Seq<char>| #[trigger]
            status_shows(app@.document, name) && r@ == status_bar(app@, name, now),
{
    let name = app.status_filename();
    assert(status_shows(app@.document, name@));
    named_status_line(app, name.as_str(), now)
}

/// The status bar with this name for the file.
pub fn named_status_line(app: &App, name: &str, now: u64) -> (r: Bar)
    requires
        app.wf(),
    ensures
        r@ == status_bar(app@, name@, now),
{
    let (bg, fg) = mode_colors(&app.mode);
    let sep_style = Style::plain().fg(Color::DarkGray);
    let (row, col) = app.cursor_position();
    let mut pos = concat3(" ", to_decimal(row as u128).as_str(), ":");
    pos.append(to_decimal(col as u128).as_str());
    let mut preview = " ".to_owned();
    preview.append(match app.preview_mode {
        PreviewMode::Rendered => "[P:Rendered]",
        PreviewMode::Html => "[P:HTML]",
        PreviewMode::Hidden => "[P:Off]",
    });
    let mut spans: Vec<Span> = Vec::new();
    spans.push(
        Span::styled(
            concat3(" ", app.mode.label(), " "),
            Style::plain().fg(fg).bg(bg).add_modifier(Modifier::bold()),
        ),
    );
    spans.push(
        Span::styled(
            concat3(" ", name, " "),
            Style::plain().fg(Color::White),
        ),
    );
    spans.push(Span::styled(" | ".to_owned(), sep_style));
    spans.push(Span::styled(pos, Style::plain().fg(Color::Yellow)));
    spans.push(Span::styled(" | ".to_owned(), sep_style));
    spans.push(Span::styled(preview, Style::plain().fg(Color::DarkGray)));
    spans.push(Span::styled(" | ".to_owned(), sep_style));
    spans.push(status_right_span(app, now));
    let r = Bar { line: Line::from_spans(spans), style: bar_style() };
    assert(r@.line =~= status_bar(app@, name@, now).line);
    r
}

/// The line at the bottom of the screen: a prompt in the modes that have one, else the status
/// bar.
pub fn bottom_bar(app: &App, width: u16, now: u64) -> (r: Bar)
    requires
        app.wf(),
    ensures
        match app.mode {
            EditorMode::Command => r@ == command_bar(app@),
            EditorMode::Search => r@ == search_bar(app@, width),
            EditorMode::LinkSelect => r@ == link_bar(app@, width),
            _ => exists|name: Seq<char>| #[trigger]
                status_shows(app@.document, name) && r@ == status_bar(app@, name, now),
        },
{
    match app.mode {
        EditorMode::Command => command_prompt(app),
        EditorMode::Search => search_prompt(app, width),
        EditorMode::LinkSelect => link_select_prompt(app, width),
        _ => status_line(app, now),
    }
}

// ---------------------------------------------------------------------------
// Laws
// ---------------------------------------------------------------------------

/// Counting words adds up over lists of lines, so that a line break always ends a word and the
/// order of the lines does not matter. No lines have no words, and one line has as many as there
/// are places where a word starts in it.
pub proof fn law_word_counts_add_up(a: Seq<Seq<char>>, b: Seq<Seq<char>>)
    ensures
        words_in_lines(a + b) == words_in_lines(a) + words_in_lines(b),
        words_in_lines(a + b) == words_in_lines(b + a),
        words_in_lines(Seq::empty()) == 0,
        forall|l: Seq<char>| #[trigger] words_in_lines(seq![l]) == words_in(l),
{
    lemma_words_add(a, b);
    lemma_words_add(b, a);
    assert forall|l: Seq<char>| #[trigger] words_in_lines(seq![l]) == words_in(l) by {
        assert(seq![l].drop_last() =~= Seq::<Seq<char>>::empty());
        assert(words_in_lines(seq![l].drop_last()) == 0);
    }
}

proof fn lemma_words_add(a: Seq<Seq<char>>, b: Seq<Seq<char>>)
    ensures
        words_in_lines(a + b) == words_in_lines(a) + words_in_lines(b),
    decreases b.len(),
{
    if b.len() == 0 {
        assert(a + b =~= a);
    } else {
        assert((a + b).drop_last() =~= a + b.drop_last());
        lemma_words_add(a, b.drop_last());
    }
}

/// Editor, preview and bottom line tile the screen: they lie side by side and one above the
/// other, and leave nothing out.
pub proof fn law_panes_tile_the_screen(area: Area, mode: PreviewMode, split_ratio: u8)
    requires
        area.wf(),
    ensures
        ({
            let (body, bottom) = rows(area);
            let (editor, preview) = body_panes(mode, split_ratio, body);
            &&& body.within(area) && bottom.within(area)
            &&& body.height + bottom.height == area.height
            &&& bottom.y == body.y + body.height
            &&& editor.within(body)
            &&& match preview {
                Some(p) => {
                    &&& p.within(body)
                    &&& p.x == editor.x + editor.width
                    &&& editor.width + p.width == body.width
                    &&& editor.width > 0 && editor.height == body.height && p.height == body.height
                },
                None => editor == body,
            }
        }),
{
    let (body, bottom) = rows(area);
    let ratio = editor_share(split_ratio) as int;
    let w = body.width as int;
    assert(10 <= ratio <= 98);
    assert(0 <= w * ratio <= w * 98 && w * ratio >= w * 10) by (nonlinear_arith)
        requires
            10 <= ratio <= 98,
            w >= 0,
    ;
    assert((w * ratio + 50) / 100 <= w);
    if w >= MIN_SPLIT_WIDTH {
        assert((w * ratio + 50) / 100 >= 1);
    }
}

/// The preview is shown exactly when it is not hidden and the body is wide enough.
pub proof fn law_narrow_screens_have_no_preview(body: Area, mode: PreviewMode, split_ratio: u8)
    ensures
        body_panes(mode, split_ratio, body).1 is Some <==> mode !is Hidden && body.width
            >= MIN_SPLIT_WIDTH,
{
}

/// Which file is an image is the same on every platform where its path is portable.
pub proof fn law_portable_images_are_recognised(path: Seq<char>, source: Option<Seq<char>>)
    requires
        is_portable(path),
        is_source(LinkTargetView::FilePath(path), source),
    ensures
        source == image_source(LinkTargetView::FilePath(path), path_extension(path)),
{
}

/// Images are drawn inside the preview pane, at least one line and at most eight lines high.
pub proof fn law_images_stay_in_the_pane(source_line: nat, scroll: u16, inner: Area)
    requires
        inner.wf(),
    ensures
        image_area(source_line, scroll, inner) matches Some(area) ==> area.within(inner) && 1
            <= area.height <= 8,
{
}

/// Hyperlinks change neither the number of lines and spans nor their styles, and a text without
/// linked addresses not at all.
pub proof fn law_hyperlinks_keep_the_layout(text: Seq<Seq<SpanView>>, links: Seq<LinkView>)
    ensures
        linked_text(text, links).len() == text.len(),
        forall|i: int|
            0 <= i < text.len() ==> (#[trigger] linked_text(text, links)[i]).len() == text[i].len(),
        forall|i: int, j: int|
            0 <= i < text.len() && 0 <= j < text[i].len() ==> (#[trigger] linked_text(
                text,
                links,
            )[i][j]).style == text[i][j].style,
        (forall|i: int| 0 <= i < links.len() ==> !((#[trigger] links[i]).target is External))
            ==> linked_text(text, links) == text,
{
    if forall|i: int| 0 <= i < links.len() ==> !((#[trigger] links[i]).target is External) {
        assert forall|i: int| 0 <= i < text.len() implies #[trigger] linked_text(text, links)[i]
            == text[i] by {
            assert(linked_line(text[i], links) =~= text[i]);
        }
        assert(linked_text(text, links) =~= text);
    }
}

/// The search counter stands at the right end: where everything fits, the prompt fills the line
/// exactly.
pub proof fn law_search_prompt_fills_the_line(app: AppView, width: u16)
    requires
        byte_len(search_prompt_text(app)) + byte_len(search_prompt_counter(app)) <= width,
    ensures
        ({
            let line = search_bar(app, width).line;
            byte_len(line[0].content) + line[1].content.len() + byte_len(line[2].content) == width
        }),
{
}

} // verus!
