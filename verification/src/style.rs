//! Styled text: colours, text attributes, spans, lines and whole texts.
//!
//! These are plain values. The terminal front end turns them into the widgets of its drawing
//! library.
use vstd::prelude::*;

use crate::text::chars_of;

verus! {

/// A terminal colour.
#[derive(Clone, Copy, Debug, PartialEq, Eq, Structural)]
pub enum Color {
    Reset,
    Black,
    Red,
    Green,
    Yellow,
    Blue,
    Magenta,
    Cyan,
    Gray,
    DarkGray,
    LightRed,
    LightGreen,
    LightYellow,
    LightBlue,
    LightMagenta,
    LightCyan,
    White,
    Rgb(u8, u8, u8),
}

/// A set of text attributes.
#[derive(Clone, Copy, Debug, PartialEq, Eq, Structural)]
pub struct Modifier {
    pub bold: bool,
    pub dim: bool,
    pub italic: bool,
    pub underlined: bool,
    pub reversed: bool,
    pub crossed_out: bool,
}

impl Modifier {
    #[verifier::allow_in_spec]
    pub fn empty() -> Modifier
        returns
            (Modifier {
                bold: false,
                dim: false,
                italic: false,
                underlined: false,
                reversed: false,
                crossed_out: false,
            }),
    {
        Modifier {
            bold: false,
            dim: false,
            italic: false,
            underlined: false,
            reversed: false,
            crossed_out: false,
        }
    }

    #[verifier::allow_in_spec]
    pub fn bold() -> Modifier
        returns
            (Modifier { bold: true, ..Modifier::empty() }),
    {
        Modifier { bold: true, ..Modifier::empty() }
    }

    #[verifier::allow_in_spec]
    pub fn dim() -> Modifier
        returns
            (Modifier { dim: true, ..Modifier::empty() }),
    {
        Modifier { dim: true, ..Modifier::empty() }
    }

    #[verifier::allow_in_spec]
    pub fn italic() -> Modifier
        returns
            (Modifier { italic: true, ..Modifier::empty() }),
    {
        Modifier { italic: true, ..Modifier::empty() }
    }

    #[verifier::allow_in_spec]
    pub fn underlined() -> Modifier
        returns
            (Modifier { underlined: true, ..Modifier::empty() }),
    {
        Modifier { underlined: true, ..Modifier::empty() }
    }

    #[verifier::allow_in_spec]
    pub fn reversed() -> Modifier
        returns
            (Modifier { reversed: true, ..Modifier::empty() }),
    {
        Modifier { reversed: true, ..Modifier::empty() }
    }

    #[verifier::allow_in_spec]
    pub fn crossed_out() -> Modifier
        returns
            (Modifier { crossed_out: true, ..Modifier::empty() }),
    {
        Modifier { crossed_out: true, ..Modifier::empty() }
    }

    /// The attributes of either set.
    #[verifier::allow_in_spec]
    pub fn union(self, other: Modifier) -> Modifier
        returns
            (Modifier {
                bold: self.bold || other.bold,
                dim: self.dim || other.dim,
                italic: self.italic || other.italic,
                underlined: self.underlined || other.underlined,
                reversed: self.reversed || other.reversed,
                crossed_out: self.crossed_out || other.crossed_out,
            }),
    {
        Modifier {
            bold: self.bold || other.bold,
            dim: self.dim || other.dim,
            italic: self.italic || other.italic,
            underlined: self.underlined || other.underlined,
            reversed: self.reversed || other.reversed,
            crossed_out: self.crossed_out || other.crossed_out,
        }
    }

    /// Every attribute of `other` is in `self`.
    pub fn contains(self, other: Modifier) -> (r: bool)
        ensures
            r <==> self.union(other) == self,
    {
        self.union(other) == self
    }
}

/// How a piece of text is drawn. `None` keeps the colour of what is below.
#[derive(Clone, Copy, Debug, PartialEq, Eq, Structural)]
pub struct Style {
    pub fg: Option<Color>,
    pub bg: Option<Color>,
    pub add_modifier: Modifier,
}

impl Style {
    /// The style that changes nothing.
    #[verifier::allow_in_spec]
    pub fn plain() -> Style
        returns
            (Style { fg: None, bg: None, add_modifier: Modifier::empty() }),
    {
        Style { fg: None, bg: None, add_modifier: Modifier::empty() }
    }

    #[verifier::allow_in_spec]
    pub fn fg(self, color: Color) -> Style
        returns
            (Style { fg: Some(color), ..self }),
    {
        Style { fg: Some(color), ..self }
    }

    #[verifier::allow_in_spec]
    pub fn bg(self, color: Color) -> Style
        returns
            (Style { bg: Some(color), ..self }),
    {
        Style { bg: Some(color), ..self }
    }

    #[verifier::allow_in_spec]
    pub fn add_modifier(self, modifier: Modifier) -> Style
        returns
            (Style { add_modifier: self.add_modifier.union(modifier), ..self }),
    {
        Style { add_modifier: self.add_modifier.union(modifier), ..self }
    }
}

/// What a span shows: its characters and their style.
#[verifier::ext_equal]
pub struct SpanView {
    pub content: Seq<char>,
    pub style: Style,
}

/// A run of text in one style.
#[derive(Debug)]
pub struct Span {
    pub content: String,
    pub style: Style,
}

impl View for Span {
    type V = SpanView;

    open spec fn view(&self) -> SpanView {
        SpanView { content: self.content@, style: self.style }
    }
}

impl Clone for Span {
    fn clone(&self) -> (r: Span)
        ensures
            r@ == self@,
    {
        Span { content: self.content.clone(), style: self.style }
    }
}

impl Span {
    pub fn styled(content: String, style: Style) -> (r: Span)
        ensures
            r@ == (SpanView { content: content@, style }),
    {
        Span { content, style }
    }
}

/// The view of a span with the given text and style.
pub open spec fn span(content: Seq<char>, style: Style) -> SpanView {
    SpanView { content, style }
}

pub open spec fn span_views(v: Seq<Span>) -> Seq<SpanView> {
    v.map_values(|s: Span| s@)
}

/// One line of styled text.
#[derive(Debug)]
pub struct Line {
    pub spans: Vec<Span>,
}

impl View for Line {
    type V = Seq<SpanView>;

    open spec fn view(&self) -> Seq<SpanView> {
        span_views(self.spans@)
    }
}

pub open spec fn line_views(v: Seq<Line>) -> Seq<Seq<SpanView>> {
    v.map_values(|l: Line| l@)
}

/// A whole styled text: its lines from top to bottom.
#[derive(Debug)]
pub struct Text {
    pub lines: Vec<Line>,
}

impl View for Text {
    type V = Seq<Seq<SpanView>>;

    open spec fn view(&self) -> Seq<Seq<SpanView>> {
        line_views(self.lines@)
    }
}

impl Line {
    /// A line without spans.
    pub fn blank() -> (r: Line)
        ensures
            r@ == Seq::<SpanView>::empty(),
    {
        let r = Line { spans: Vec::new() };
        assert(r@ =~= Seq::<SpanView>::empty());
        r
    }

    pub fn from_spans(spans: Vec<Span>) -> (r: Line)
        ensures
            r@ == span_views(spans@),
    {
        Line { spans }
    }

    /// A line with one span.
    pub fn of(content: String, style: Style) -> (r: Line)
        ensures
            r@ == seq![span(content@, style)],
    {
        let mut spans: Vec<Span> = Vec::new();
        spans.push(Span::styled(content, style));
        let r = Line { spans };
        assert(r@ =~= seq![span(content@, style)]);
        r
    }
}

/// The characters of a line, whatever their style.
pub open spec fn line_text(spans: Seq<SpanView>) -> Seq<char>
    decreases spans.len(),
{
    if spans.len() == 0 {
        Seq::empty()
    } else {
        line_text(spans.drop_last()) + spans.last().content
    }
}

/// The number of terminal columns that a line takes: one per character.
pub open spec fn line_width(spans: Seq<SpanView>) -> nat {
    line_text(spans).len()
}

pub proof fn lemma_line_text_push(spans: Seq<SpanView>, s: SpanView)
    ensures
        line_text(spans.push(s)) == line_text(spans) + s.content,
{
    assert(spans.push(s).drop_last() =~= spans);
}

pub proof fn lemma_line_text_add(a: Seq<SpanView>, b: Seq<SpanView>)
    ensures
        line_text(a + b) == line_text(a) + line_text(b),
    decreases b.len(),
{
    if b.len() == 0 {
        assert(a + b =~= a);
        assert(line_text(a) + line_text(b) =~= line_text(a));
    } else {
        assert((a + b).drop_last() =~= a + b.drop_last());
        lemma_line_text_add(a, b.drop_last());
        assert(line_text(a + b) =~= line_text(a) + line_text(b));
    }
}

/// The characters of a line, whatever their style.
pub fn chars_of_spans(spans: &Vec<Span>) -> (r: Vec<char>)
    ensures
        r@ == line_text(span_views(spans@)),
{
    let mut r: Vec<char> = Vec::new();
    let mut i: usize = 0;
    while i < spans.len()
        invariant
            i <= spans@.len(),
            r@ == line_text(span_views(spans@).take(i as int)),
        decreases spans@.len() - i,
    {
        let mut cs = chars_of(spans[i].content.as_str());
        r.append(&mut cs);
        i = i + 1;
        proof {
            let all = span_views(spans@);
            assert(all.take(i as int).drop_last() =~= all.take(i - 1));
        }
    }
    assert(span_views(spans@).take(spans@.len() as int) =~= span_views(spans@));
    r
}

impl Clone for Line {
    fn clone(&self) -> (r: Line)
        ensures
            r@ == self@,
    {
        let mut spans: Vec<Span> = Vec::new();
        let mut i: usize = 0;
        while i < self.spans.len()
            invariant
                i <= self.spans@.len(),
                span_views(spans@) == self@.take(i as int),
            decreases self.spans@.len() - i,
        {
            let ghost front = spans@;
            spans.push(self.spans[i].clone());
            i = i + 1;
            assert(span_views(spans@) =~= span_views(front).push(self@[i - 1]));
            assert(self@.take(i as int) =~= self@.take(i - 1).push(self@[i - 1]));
        }
        assert(self@.take(i as int) =~= self@);
        Line { spans }
    }
}

impl Clone for Text {
    fn clone(&self) -> (r: Text)
        ensures
            r@ == self@,
    {
        let mut lines: Vec<Line> = Vec::new();
        let mut i: usize = 0;
        while i < self.lines.len()
            invariant
                i <= self.lines@.len(),
                line_views(lines@) == self@.take(i as int),
            decreases self.lines@.len() - i,
        {
            let ghost front = lines@;
            lines.push(self.lines[i].clone());
            i = i + 1;
            assert(line_views(lines@) =~= line_views(front).push(self@[i - 1]));
            assert(self@.take(i as int) =~= self@.take(i - 1).push(self@[i - 1]));
        }
        assert(self@.take(i as int) =~= self@);
        Text { lines }
    }
}

} // verus!
