use vstd::prelude::*;
use crate::color::Color;

verus! {

/// The single style under which text is being gathered.
#[derive(Clone, Debug, PartialEq, Eq)]
pub enum TextFormat {
    Normal,
    Heading(usize),
    Strong,
    Emphasis,
    Code,
    Link(String),
}

/// The mathematical value of a `TextFormat`.
pub enum FormatModel {
    Normal,
    Heading(nat),
    Strong,
    Emphasis,
    Code,
    Link(Seq<char>),
}

impl View for TextFormat {
    type V = FormatModel;

    open spec fn view(&self) -> FormatModel {
        match self {
            TextFormat::Normal => FormatModel::Normal,
            TextFormat::Heading(level) => FormatModel::Heading(*level as nat),
            TextFormat::Strong => FormatModel::Strong,
            TextFormat::Emphasis => FormatModel::Emphasis,
            TextFormat::Code => FormatModel::Code,
            TextFormat::Link(url) => FormatModel::Link(url@),
        }
    }
}

impl DeepView for TextFormat {
    type V = FormatModel;

    open spec fn deep_view(&self) -> FormatModel {
        self@
    }
}

impl TextFormat {
    /// Returns a format of the same value.
    pub fn duplicate(&self) -> (copy: TextFormat)
        ensures
            copy@ == self@,
    {
        match self {
            TextFormat::Normal => TextFormat::Normal,
            TextFormat::Heading(level) => TextFormat::Heading(*level),
            TextFormat::Strong => TextFormat::Strong,
            TextFormat::Emphasis => TextFormat::Emphasis,
            TextFormat::Code => TextFormat::Code,
            TextFormat::Link(url) => TextFormat::Link(url.clone()),
        }
    }
}

/// A piece of text with the format it was gathered under.
#[derive(Clone, Debug, PartialEq, Eq)]
pub struct TextRun {
    pub text: String,
    pub format: TextFormat,
}

/// The mathematical value of a `TextRun`.
pub struct RunModel {
    pub text: Seq<char>,
    pub format: FormatModel,
}

impl View for TextRun {
    type V = RunModel;

    open spec fn view(&self) -> RunModel {
        RunModel { text: self.text@, format: self.format@ }
    }
}

impl DeepView for TextRun {
    type V = RunModel;

    open spec fn deep_view(&self) -> RunModel {
        self@
    }
}

/// One line of a code block: coloured fragments from left to right.
#[derive(Clone, Debug, PartialEq, Eq)]
pub struct HighlightedLine {
    pub fragments: Vec<(String, Color)>,
}

/// The mathematical value of a `HighlightedLine`.
pub type LineModel = Seq<(Seq<char>, Color)>;

impl View for HighlightedLine {
    type V = LineModel;

    open spec fn view(&self) -> LineModel {
        self.fragments.deep_view()
    }
}

impl DeepView for HighlightedLine {
    type V = LineModel;

    open spec fn deep_view(&self) -> LineModel {
        self@
    }
}

/// One unit of the styled document.
#[derive(Clone, Debug, PartialEq, Eq)]
pub enum Block {
    Heading { level: usize, text: String, color: Color },
    Paragraph { runs: Vec<TextRun> },
    CodeBlock { language: String, lines: Vec<HighlightedLine> },
    ListItem { text: String },
    BlockQuote { runs: Vec<TextRun> },
    LinkRun { text: String, url: String, color: Color },
    Rule,
}

/// The mathematical value of a `Block`.
pub enum BlockModel {
    Heading { level: nat, text: Seq<char>, color: Color },
    Paragraph { runs: Seq<RunModel> },
    CodeBlock { language: Seq<char>, lines: Seq<LineModel> },
    ListItem { text: Seq<char> },
    BlockQuote { runs: Seq<RunModel> },
    LinkRun { text: Seq<char>, url: Seq<char>, color: Color },
    Rule,
}

impl View for Block {
    type V = BlockModel;

    open spec fn view(&self) -> BlockModel {
        match self {
            Block::Heading { level, text, color } => BlockModel::Heading {
                level: *level as nat,
                text: text@,
                color: *color,
            },
            Block::Paragraph { runs } => BlockModel::Paragraph { runs: runs.deep_view() },
            Block::CodeBlock { language, lines } => BlockModel::CodeBlock {
                language: language@,
                lines: lines.deep_view(),
            },
            Block::ListItem { text } => BlockModel::ListItem { text: text@ },
            Block::BlockQuote { runs } => BlockModel::BlockQuote { runs: runs.deep_view() },
            Block::LinkRun { text, url, color } => BlockModel::LinkRun {
                text: text@,
                url: url@,
                color: *color,
            },
            Block::Rule => BlockModel::Rule,
        }
    }
}

impl DeepView for Block {
    type V = BlockModel;

    open spec fn deep_view(&self) -> BlockModel {
        self@
    }
}

/// The styled document: its blocks in source order.
#[derive(Clone, Debug, PartialEq, Eq)]
pub struct Document {
    pub blocks: Vec<Block>,
}

impl View for Document {
    type V = Seq<BlockModel>;

    open spec fn view(&self) -> Seq<BlockModel> {
        self.blocks.deep_view()
    }
}

impl DeepView for Document {
    type V = Seq<BlockModel>;

    open spec fn deep_view(&self) -> Seq<BlockModel> {
        self@
    }
}

/// Whether a run carries text.
pub open spec fn run_has_text(run: RunModel) -> bool {
    run.text.len() > 0
}

/// Whether the block carries what it is there for: a heading, a list item and a link
/// their text, a paragraph at least one run, every run its text, a code block at
/// least one line.
pub open spec fn block_has_payload(block: BlockModel) -> bool {
    match block {
        BlockModel::Heading { text, .. } => text.len() > 0,
        BlockModel::Paragraph { runs } => runs.len() > 0 && forall|i: int|
            0 <= i < runs.len() ==> run_has_text(#[trigger] runs[i]),
        BlockModel::CodeBlock { lines, .. } => lines.len() > 0,
        BlockModel::ListItem { text } => text.len() > 0,
        BlockModel::BlockQuote { runs } => forall|i: int|
            0 <= i < runs.len() ==> run_has_text(#[trigger] runs[i]),
        BlockModel::LinkRun { text, .. } => text.len() > 0,
        BlockModel::Rule => true,
    }
}

} // verus!
