//! The events of a Markdown document.
//!
//! The parser emits a flat stream of events. Block-level constructs are bracketed by a start and
//! an end event; inline constructs nest inside them.
use vstd::prelude::*;

use pulldown_cmark::{CodeBlockKind, Event, Options, Parser, Tag, TagEnd};

verus! {

#[verifier::external_type_specification]
#[verifier::external_body]
pub struct ExEvent<'a>(pulldown_cmark::Event<'a>);

#[verifier::external_type_specification]
#[verifier::external_body]
pub struct ExTag<'a>(pulldown_cmark::Tag<'a>);

#[verifier::external_type_specification]
#[verifier::external_body]
pub struct ExTagEnd(pulldown_cmark::TagEnd);

/// The syntax extensions that the parser can be asked for.
#[derive(Clone, Copy, Debug, PartialEq, Eq, Structural)]
pub struct PulldownOptions {
    pub tables: bool,
    pub tasklists: bool,
    pub strikethrough: bool,
    pub footnotes: bool,
}

/// The start of a construct.
pub enum MdTag {
    Paragraph,
    /// A heading with its level, from one to six.
    Heading(u8),
    BlockQuote,
    /// A fenced code block with its info string.
    FencedCode(String),
    IndentedCode,
    /// A list; an ordered list has the number of its first item.
    List(Option<u64>),
    Item,
    Table,
    TableHead,
    TableRow,
    TableCell,
    Strong,
    Emphasis,
    Strikethrough,
    /// A link with its destination.
    Link(String),
    /// An image with its destination.
    Image(String),
    /// A construct that the renderer does not show.
    Other,
}

#[verifier::ext_equal]
pub enum MdTagView {
    Paragraph,
    Heading(u8),
    BlockQuote,
    FencedCode(Seq<char>),
    IndentedCode,
    List(Option<u64>),
    Item,
    Table,
    TableHead,
    TableRow,
    TableCell,
    Strong,
    Emphasis,
    Strikethrough,
    Link(Seq<char>),
    Image(Seq<char>),
    Other,
}

impl View for MdTag {
    type V = MdTagView;

    open spec fn view(&self) -> MdTagView {
        match self {
            MdTag::Paragraph => MdTagView::Paragraph,
            MdTag::Heading(level) => MdTagView::Heading(*level),
            MdTag::BlockQuote => MdTagView::BlockQuote,
            MdTag::FencedCode(info) => MdTagView::FencedCode(info@),
            MdTag::IndentedCode => MdTagView::IndentedCode,
            MdTag::List(start) => MdTagView::List(*start),
            MdTag::Item => MdTagView::Item,
            MdTag::Table => MdTagView::Table,
            MdTag::TableHead => MdTagView::TableHead,
            MdTag::TableRow => MdTagView::TableRow,
            MdTag::TableCell => MdTagView::TableCell,
            MdTag::Strong => MdTagView::Strong,
            MdTag::Emphasis => MdTagView::Emphasis,
            MdTag::Strikethrough => MdTagView::Strikethrough,
            MdTag::Link(url) => MdTagView::Link(url@),
            MdTag::Image(url) => MdTagView::Image(url@),
            MdTag::Other => MdTagView::Other,
        }
    }
}

/// The end of a construct.
#[derive(Clone, Copy, Debug, PartialEq, Eq, Structural)]
pub enum MdTagEnd {
    Paragraph,
    Heading,
    BlockQuote,
    CodeBlock,
    List,
    Item,
    Table,
    TableHead,
    TableRow,
    TableCell,
    Strong,
    Emphasis,
    Strikethrough,
    Link,
    Image,
    Other,
}

/// One event of a document.
pub enum MdEvent {
    Start(MdTag),
    End(MdTagEnd),
    Text(String),
    /// Inline code.
    Code(String),
    SoftBreak,
    HardBreak,
    Rule,
    /// The checkbox of a task list item; `true` when it is ticked.
    TaskListMarker(bool),
    /// An event that the renderer does not show.
    Other,
}

#[verifier::ext_equal]
pub enum MdEventView {
    Start(MdTagView),
    End(MdTagEnd),
    Text(Seq<char>),
    Code(Seq<char>),
    SoftBreak,
    HardBreak,
    Rule,
    TaskListMarker(bool),
    Other,
}

impl View for MdEvent {
    type V = MdEventView;

    open spec fn view(&self) -> MdEventView {
        match self {
            MdEvent::Start(tag) => MdEventView::Start(tag@),
            MdEvent::End(tag) => MdEventView::End(*tag),
            MdEvent::Text(s) => MdEventView::Text(s@),
            MdEvent::Code(s) => MdEventView::Code(s@),
            MdEvent::SoftBreak => MdEventView::SoftBreak,
            MdEvent::HardBreak => MdEventView::HardBreak,
            MdEvent::Rule => MdEventView::Rule,
            MdEvent::TaskListMarker(checked) => MdEventView::TaskListMarker(*checked),
            MdEvent::Other => MdEventView::Other,
        }
    }
}

pub open spec fn event_views(v: Seq<MdEvent>) -> Seq<MdEventView> {
    v.map_values(|e: MdEvent| e@)
}

/// An event with the tags still as the parser gives them.
pub enum ParsedEvent<'a> {
    Start(Tag<'a>),
    End(TagEnd),
    Text(String),
    Code(String),
    SoftBreak,
    HardBreak,
    Rule,
    TaskListMarker(bool),
    Other,
}

/// The view of `ParsedEvent`.
#[verifier::ext_equal]
pub enum ParsedEventView {
    Start(Tag<'static>),
    End(TagEnd),
    Text(Seq<char>),
    Code(Seq<char>),
    SoftBreak,
    HardBreak,
    Rule,
    TaskListMarker(bool),
    Other,
}

impl<'a> ParsedEvent<'a> {
    pub open spec fn parts(self) -> ParsedEventView {
        match self {
            ParsedEvent::Start(tag) => ParsedEventView::Start(tag),
            ParsedEvent::End(tag) => ParsedEventView::End(tag),
            ParsedEvent::Text(s) => ParsedEventView::Text(s@),
            ParsedEvent::Code(s) => ParsedEventView::Code(s@),
            ParsedEvent::SoftBreak => ParsedEventView::SoftBreak,
            ParsedEvent::HardBreak => ParsedEventView::HardBreak,
            ParsedEvent::Rule => ParsedEventView::Rule,
            ParsedEvent::TaskListMarker(checked) => ParsedEventView::TaskListMarker(checked),
            ParsedEvent::Other => ParsedEventView::Other,
        }
    }
}

/// The events that the parser emits for a document.
pub uninterp spec fn parser_events(src: Seq<char>, options: PulldownOptions) -> Seq<Event<'static>>;

/// The variant of an event with what it carries.
pub uninterp spec fn event_parts(event: Event<'static>) -> ParsedEventView;

/// The block-level construct that a tag opens; `Other` for an inline tag.
pub uninterp spec fn block_tag_parts(tag: Tag<'static>) -> MdTagView;

/// The inline construct that a tag opens; `Other` for a block-level tag.
pub uninterp spec fn inline_tag_parts(tag: Tag<'static>) -> MdTagView;

/// The construct that a tag closes.
pub uninterp spec fn tag_end_parts(tag: TagEnd) -> MdTagEnd;

/// `Parser::new_ext` and its iterator: every event of `src`, in order. The events depend on the
/// source and the options alone.
#[verifier::external_body]
fn parse_events<'a>(src: &'a str, options: PulldownOptions) -> (r: Vec<Event<'a>>)
    ensures
        r@ == parser_events(src@, options),
{
    let mut flags = Options::empty();
    flags.set(Options::ENABLE_TABLES, options.tables);
    flags.set(Options::ENABLE_TASKLISTS, options.tasklists);
    flags.set(Options::ENABLE_STRIKETHROUGH, options.strikethrough);
    flags.set(Options::ENABLE_FOOTNOTES, options.footnotes);
    Parser::new_ext(src, flags).collect()
}

/// Tells the variants of `pulldown_cmark::Event` apart.
#[verifier::external_body]
fn split_event<'a>(event: Event<'a>) -> (r: ParsedEvent<'a>)
    ensures
        r.parts() == event_parts(event),
{
    match event {
        Event::Start(tag) => ParsedEvent::Start(tag),
        Event::End(tag) => ParsedEvent::End(tag),
        Event::Text(s) => ParsedEvent::Text(s.into_string()),
        Event::Code(s) => ParsedEvent::Code(s.into_string()),
        Event::SoftBreak => ParsedEvent::SoftBreak,
        Event::HardBreak => ParsedEvent::HardBreak,
        Event::Rule => ParsedEvent::Rule,
        Event::TaskListMarker(checked) => ParsedEvent::TaskListMarker(checked),
        _ => ParsedEvent::Other,
    }
}

/// Tells the block-level variants of `pulldown_cmark::Tag` apart.
#[verifier::external_body]
fn split_block_tag(tag: &Tag<'_>) -> (r: MdTag)
    ensures
        r@ == block_tag_parts(*tag),
{
    match tag {
        Tag::Paragraph => MdTag::Paragraph,
        Tag::Heading { level, .. } => MdTag::Heading(*level as u8),
        Tag::BlockQuote(_) => MdTag::BlockQuote,
        Tag::CodeBlock(CodeBlockKind::Fenced(info)) => MdTag::FencedCode(info.to_string()),
        Tag::CodeBlock(CodeBlockKind::Indented) => MdTag::IndentedCode,
        Tag::List(start) => MdTag::List(*start),
        Tag::Item => MdTag::Item,
        Tag::Table(_) => MdTag::Table,
        Tag::TableHead => MdTag::TableHead,
        Tag::TableRow => MdTag::TableRow,
        Tag::TableCell => MdTag::TableCell,
        _ => MdTag::Other,
    }
}

/// Tells the inline variants of `pulldown_cmark::Tag` apart.
#[verifier::external_body]
fn split_inline_tag(tag: &Tag<'_>) -> (r: MdTag)
    ensures
        r@ == inline_tag_parts(*tag),
{
    match tag {
        Tag::Strong => MdTag::Strong,
        Tag::Emphasis => MdTag::Emphasis,
        Tag::Strikethrough => MdTag::Strikethrough,
        Tag::Link { dest_url, .. } => MdTag::Link(dest_url.to_string()),
        Tag::Image { dest_url, .. } => MdTag::Image(dest_url.to_string()),
        _ => MdTag::Other,
    }
}

/// Tells the variants of `pulldown_cmark::TagEnd` apart.
#[verifier::external_body]
fn split_tag_end(tag: TagEnd) -> (r: MdTagEnd)
    ensures
        r == tag_end_parts(tag),
{
    match tag {
        TagEnd::Paragraph => MdTagEnd::Paragraph, TagEnd::Heading(_) => MdTagEnd::Heading,
        TagEnd::BlockQuote(_) => MdTagEnd::BlockQuote, TagEnd::CodeBlock => MdTagEnd::CodeBlock,
        TagEnd::List(_) => MdTagEnd::List, TagEnd::Item => MdTagEnd::Item,
        TagEnd::Table => MdTagEnd::Table, TagEnd::TableHead => MdTagEnd::TableHead,
        TagEnd::TableRow => MdTagEnd::TableRow, TagEnd::TableCell => MdTagEnd::TableCell,
        TagEnd::Strong => MdTagEnd::Strong, TagEnd::Emphasis => MdTagEnd::Emphasis,
        TagEnd::Strikethrough => MdTagEnd::Strikethrough,
        TagEnd::Link => MdTagEnd::Link, TagEnd::Image => MdTagEnd::Image,
        _ => MdTagEnd::Other,
    }
}

/// The construct that a tag opens.
pub open spec fn tag_parts(tag: Tag<'static>) -> MdTagView {
    if block_tag_parts(tag) is Other {
        inline_tag_parts(tag)
    } else {
        block_tag_parts(tag)
    }
}

/// A parser event as a plain event.
pub open spec fn plain_event(event: Event<'static>) -> MdEventView {
    match event_parts(event) {
        ParsedEventView::Start(tag) => MdEventView::Start(tag_parts(tag)),
        ParsedEventView::End(tag) => MdEventView::End(tag_end_parts(tag)),
        ParsedEventView::Text(s) => MdEventView::Text(s),
        ParsedEventView::Code(s) => MdEventView::Code(s),
        ParsedEventView::SoftBreak => MdEventView::SoftBreak,
        ParsedEventView::HardBreak => MdEventView::HardBreak,
        ParsedEventView::Rule => MdEventView::Rule,
        ParsedEventView::TaskListMarker(checked) => MdEventView::TaskListMarker(checked),
        ParsedEventView::Other => MdEventView::Other,
    }
}

/// The events of a document.
pub open spec fn markdown_events(src: Seq<char>, options: PulldownOptions) -> Seq<MdEventView> {
    parser_events(src, options).map_values(|e: Event<'static>| plain_event(e))
}

fn convert_event(event: Event<'_>) -> (r: MdEvent)
    ensures
        r@ == plain_event(event),
{
    match split_event(event) {
        ParsedEvent::Start(tag) => {
            let block = split_block_tag(&tag);
            if let MdTag::Other = block {
                MdEvent::Start(split_inline_tag(&tag))
            } else {
                MdEvent::Start(block)
            }
        },
        ParsedEvent::End(tag) => MdEvent::End(split_tag_end(tag)),
        ParsedEvent::Text(s) => MdEvent::Text(s),
        ParsedEvent::Code(s) => MdEvent::Code(s),
        ParsedEvent::SoftBreak => MdEvent::SoftBreak,
        ParsedEvent::HardBreak => MdEvent::HardBreak,
        ParsedEvent::Rule => MdEvent::Rule,
        ParsedEvent::TaskListMarker(checked) => MdEvent::TaskListMarker(checked),
        ParsedEvent::Other => MdEvent::Other,
    }
}

/// Parses a Markdown document into its events.
pub fn parse_markdown(src: &str, options: PulldownOptions) -> (r: Vec<MdEvent>)
    ensures
        event_views(r@) == markdown_events(src@, options),
{
    let events = parse_events(src, options);
    let ghost goal = markdown_events(src@, options);
    let mut out: Vec<MdEvent> = Vec::new();
    assert(event_views(out@) =~= goal.take(0));
    for event in it: events
        invariant
            it.seq() == parser_events(src@, options),
            goal == markdown_events(src@, options),
            event_views(out@) == goal.take(it.index() as int),
    {
        let ghost before = out@;
        let e = convert_event(event);
        let ghost ev = e@;
        out.push(e);
        proof {
            assert(event_views(out@) =~= event_views(before).push(ev));
            assert(goal.take(it.index() as int + 1) =~= goal.take(it.index() as int).push(
                goal[it.index() as int],
            ));
        }
    }
    assert(goal.take(goal.len() as int) =~= goal);
    out
}

/// The parser's events are handed on one by one, in order, each as what it is.
pub proof fn law_events_are_handed_on(src: Seq<char>, options: PulldownOptions, i: int)
    requires
        0 <= i < parser_events(src, options).len(),
    ensures
        markdown_events(src, options).len() == parser_events(src, options).len(),
        ({
            let event = markdown_events(src, options)[i];
            match event_parts(parser_events(src, options)[i]) {
                ParsedEventView::Text(text) => event == MdEventView::Text(text),
                ParsedEventView::Code(text) => event == MdEventView::Code(text),
                ParsedEventView::SoftBreak => event is SoftBreak,
                ParsedEventView::HardBreak => event is HardBreak,
                ParsedEventView::Rule => event is Rule,
                ParsedEventView::TaskListMarker(checked) => event
                    == MdEventView::TaskListMarker(checked),
                ParsedEventView::Start(tag) => event matches MdEventView::Start(t) && (
                block_tag_parts(tag) is Other ==> t == inline_tag_parts(tag)) && (!(block_tag_parts(
                    tag,
                ) is Other) ==> t == block_tag_parts(tag)),
                ParsedEventView::End(tag) => event == MdEventView::End(tag_end_parts(tag)),
                ParsedEventView::Other => event is Other,
            }
        }),
{
}

} // verus!
