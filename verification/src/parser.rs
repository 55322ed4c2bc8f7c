use vstd::prelude::*;
use pulldown_cmark::{Alignment, CodeBlockKind, CowStr, Event, HeadingLevel, LinkType, Tag};
use crate::event::{EventModel, MarkdownEvent, TagKind, TagModel};

verus! {

/// The parser's string type, which is borrowed, boxed or stored inline.
#[verifier::external_type_specification]
#[verifier::external_body]
pub struct ExCowStr<'a>(CowStr<'a>);

// The parser's enums are declared with their variants, as the parser crate defines
// them, so that the conversion below is verified against every variant.

/// The parser's heading levels, `H1` to `H6`.
#[verifier::external_type_specification]
pub struct ExHeadingLevel(HeadingLevel);

/// The parser's column alignments, which occur in its table tag.
#[verifier::external_type_specification]
pub struct ExAlignment(Alignment);

/// The parser's link types, which occur in its link and image tags.
#[verifier::external_type_specification]
pub struct ExLinkType(LinkType);

/// The parser's two kinds of code block, fenced and indented.
#[verifier::external_type_specification]
pub struct ExCodeBlockKind<'a>(CodeBlockKind<'a>);

/// The parser's tags for elements that have a start and an end.
#[verifier::external_type_specification]
pub struct ExTag<'a>(Tag<'a>);

/// The parser's events.
#[verifier::external_type_specification]
pub struct ExEvent<'a>(Event<'a>);

/// The events that the markdown parser reads out of a text, in order.
pub uninterp spec fn parsed(text: Seq<char>) -> Seq<Event<'static>>;

/// The characters of a string of the markdown parser.
pub uninterp spec fn cow_chars(text: CowStr) -> Seq<char>;

/// `Parser::new` with the parser's default options, run to its end: the events depend
/// on the text alone.
#[verifier::external_body]
fn collect_events<'a>(text: &'a str) -> (events: Vec<Event<'a>>)
    ensures
        events@ == parsed(text@),
{
    pulldown_cmark::Parser::new(text).collect()
}

/// `CowStr::to_string`: an owned copy of the parser's string.
#[verifier::external_body]
fn cow_to_string(text: &CowStr) -> (copy: String)
    ensures
        copy@ == cow_chars(*text),
{
    text.to_string()
}

/// The number of a heading level, from 1 to 6.
pub open spec fn level_number(level: HeadingLevel) -> nat {
    match level {
        HeadingLevel::H1 => 1,
        HeadingLevel::H2 => 2,
        HeadingLevel::H3 => 3,
        HeadingLevel::H4 => 4,
        HeadingLevel::H5 => 5,
        HeadingLevel::H6 => 6,
    }
}

/// The element kind that one of the parser's tags stands for. A fenced code block
/// carries its language hint, an indented one carries none; a tag that the
/// interpreter has no rule for becomes `Other`.
pub open spec fn tag_model(tag: Tag) -> TagModel {
    match tag {
        Tag::Heading(level, _, _) => TagModel::Heading(level_number(level)),
        Tag::Paragraph => TagModel::Paragraph,
        Tag::CodeBlock(CodeBlockKind::Fenced(language)) => TagModel::CodeBlock(
            Some(cow_chars(language)),
        ),
        Tag::CodeBlock(CodeBlockKind::Indented) => TagModel::CodeBlock(None),
        Tag::List(_) => TagModel::List,
        Tag::Item => TagModel::ListItem,
        Tag::Emphasis => TagModel::Emphasis,
        Tag::Strong => TagModel::Strong,
        Tag::BlockQuote => TagModel::BlockQuote,
        Tag::Link(_, url, _) => TagModel::Link(cow_chars(url)),
        _ => TagModel::Other,
    }
}

/// The event that one of the parser's events stands for; one that the interpreter
/// has no rule for becomes `Other`.
pub open spec fn event_model(event: Event) -> EventModel {
    match event {
        Event::Start(tag) => EventModel::StartTag(tag_model(tag)),
        Event::End(tag) => EventModel::EndTag(tag_model(tag)),
        Event::Text(text) => EventModel::Text(cow_chars(text)),
        Event::Code(text) => EventModel::InlineCode(cow_chars(text)),
        Event::SoftBreak => EventModel::SoftBreak,
        Event::HardBreak => EventModel::HardBreak,
        Event::Rule => EventModel::Rule,
        _ => EventModel::Other,
    }
}

/// The event stream of a markdown text.
pub open spec fn parsed_events(text: Seq<char>) -> Seq<EventModel> {
    Seq::new(parsed(text).len(), |i: int| event_model(parsed(text)[i]))
}

/// Returns the number of a heading level.
pub fn heading_level_number(level: &HeadingLevel) -> (n: usize)
    ensures
        n == level_number(*level),
        1 <= n <= 6,
{
    match level {
        HeadingLevel::H1 => 1,
        HeadingLevel::H2 => 2,
        HeadingLevel::H3 => 3,
        HeadingLevel::H4 => 4,
        HeadingLevel::H5 => 5,
        HeadingLevel::H6 => 6,
    }
}

/// Converts one of the parser's tags.
pub fn convert_tag(tag: &Tag) -> (kind: TagKind)
    ensures
        kind@ == tag_model(*tag),
{
    match tag {
        Tag::Heading(level, _, _) => TagKind::Heading(heading_level_number(level)),
        Tag::Paragraph => TagKind::Paragraph,
        Tag::CodeBlock(CodeBlockKind::Fenced(language)) => TagKind::CodeBlock(
            Some(cow_to_string(language)),
        ),
        Tag::CodeBlock(CodeBlockKind::Indented) => TagKind::CodeBlock(None),
        Tag::List(_) => TagKind::List,
        Tag::Item => TagKind::ListItem,
        Tag::Emphasis => TagKind::Emphasis,
        Tag::Strong => TagKind::Strong,
        Tag::BlockQuote => TagKind::BlockQuote,
        Tag::Link(_, url, _) => TagKind::Link(cow_to_string(url)),
        _ => TagKind::Other,
    }
}

/// Converts one of the parser's events.
pub fn convert_event(event: &Event) -> (converted: MarkdownEvent)
    ensures
        converted@ == event_model(*event),
{
    match event {
        Event::Start(tag) => MarkdownEvent::StartTag(convert_tag(tag)),
        Event::End(tag) => MarkdownEvent::EndTag(convert_tag(tag)),
        Event::Text(text) => MarkdownEvent::Text(cow_to_string(text)),
        Event::Code(text) => MarkdownEvent::InlineCode(cow_to_string(text)),
        Event::SoftBreak => MarkdownEvent::SoftBreak,
        Event::HardBreak => MarkdownEvent::HardBreak,
        Event::Rule => MarkdownEvent::Rule,
        _ => MarkdownEvent::Other,
    }
}

/// Parses a markdown text into its event stream.
pub fn parse_markdown(content: &str) -> (events: Vec<MarkdownEvent>)
    ensures
        events.deep_view() == parsed_events(content@),
{
    let raw = collect_events(content);
    let mut events: Vec<MarkdownEvent> = Vec::new();
    let mut i: usize = 0;
    while i < raw.len()
        invariant
            i <= raw.len(),
            raw@ == parsed(content@),
            events.deep_view() == parsed_events(content@).take(i as int),
        decreases raw.len() - i,
    {
        let ghost before = events.deep_view();
        let converted = convert_event(&raw[i]);
        events.push(converted);
        assert(events.deep_view() == before.push(converted@));
        i = i + 1;
    }
    assert(parsed_events(content@).take(i as int) == parsed_events(content@));
    events
}

} // verus!
