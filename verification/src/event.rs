use vstd::prelude::*;

verus! {

/// The kinds of element that a start or end marker can name.
#[derive(Clone, Debug, PartialEq, Eq)]
pub enum TagKind {
    Heading(usize),
    Paragraph,
    /// A code block with its language hint, if it has one.
    CodeBlock(Option<String>),
    List,
    ListItem,
    Emphasis,
    Strong,
    BlockQuote,
    Link(String),
    /// An element that the interpreter has no rule for.
    Other,
}

/// The mathematical value of a `TagKind`.
pub enum TagModel {
    Heading(nat),
    Paragraph,
    CodeBlock(Option<Seq<char>>),
    List,
    ListItem,
    Emphasis,
    Strong,
    BlockQuote,
    Link(Seq<char>),
    Other,
}

impl View for TagKind {
    type V = TagModel;

    open spec fn view(&self) -> TagModel {
        match self {
            TagKind::Heading(level) => TagModel::Heading(*level as nat),
            TagKind::Paragraph => TagModel::Paragraph,
            TagKind::CodeBlock(Some(language)) => TagModel::CodeBlock(Some(language@)),
            TagKind::CodeBlock(None) => TagModel::CodeBlock(None),
            TagKind::List => TagModel::List,
            TagKind::ListItem => TagModel::ListItem,
            TagKind::Emphasis => TagModel::Emphasis,
            TagKind::Strong => TagModel::Strong,
            TagKind::BlockQuote => TagModel::BlockQuote,
            TagKind::Link(url) => TagModel::Link(url@),
            TagKind::Other => TagModel::Other,
        }
    }
}

impl DeepView for TagKind {
    type V = TagModel;

    open spec fn deep_view(&self) -> TagModel {
        self@
    }
}

/// One structural marker of a markdown document.
#[derive(Clone, Debug, PartialEq, Eq)]
pub enum MarkdownEvent {
    StartTag(TagKind),
    EndTag(TagKind),
    Text(String),
    InlineCode(String),
    SoftBreak,
    HardBreak,
    Rule,
    /// A marker that the interpreter has no rule for.
    Other,
}

/// The mathematical value of a `MarkdownEvent`.
pub enum EventModel {
    StartTag(TagModel),
    EndTag(TagModel),
    Text(Seq<char>),
    InlineCode(Seq<char>),
    SoftBreak,
    HardBreak,
    Rule,
    Other,
}

impl View for MarkdownEvent {
    type V = EventModel;

    open spec fn view(&self) -> EventModel {
        match self {
            MarkdownEvent::StartTag(kind) => EventModel::StartTag(kind@),
            MarkdownEvent::EndTag(kind) => EventModel::EndTag(kind@),
            MarkdownEvent::Text(text) => EventModel::Text(text@),
            MarkdownEvent::InlineCode(text) => EventModel::InlineCode(text@),
            MarkdownEvent::SoftBreak => EventModel::SoftBreak,
            MarkdownEvent::HardBreak => EventModel::HardBreak,
            MarkdownEvent::Rule => EventModel::Rule,
            MarkdownEvent::Other => EventModel::Other,
        }
    }
}

impl DeepView for MarkdownEvent {
    type V = EventModel;

    open spec fn deep_view(&self) -> EventModel {
        self@
    }
}

} // verus!
