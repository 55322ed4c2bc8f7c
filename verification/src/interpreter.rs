use vstd::prelude::*;
use vstd::string::StringExecFns;
use crate::color::{get_link_color, heading_color, heading_style_to_color, link_color};
use crate::document::{
    block_has_payload, Block, BlockModel, Document, FormatModel, RunModel, TextFormat, TextRun,
};
use crate::event::{EventModel, MarkdownEvent, TagKind, TagModel};
use crate::highlight::{
    highlight_code, highlighted_code, lemma_highlighted_code_len, HighlightResources,
};
use crate::text::lemma_lines_of_nonempty;

verus! {

/// The marker that opens the text of a list item.
pub open spec fn bullet() -> Seq<char> {
    "• "@
}

/// The block that a flush makes of gathered text: a heading and a link become blocks
/// of their own kind with their resolved colour, any other format a paragraph of one
/// run.
pub open spec fn block_of(format: FormatModel, text: Seq<char>, dark: bool) -> BlockModel {
    match format {
        FormatModel::Heading(level) => BlockModel::Heading {
            level,
            text,
            color: heading_color(level, dark),
        },
        FormatModel::Link(url) => BlockModel::LinkRun { text, url, color: link_color(dark) },
        _ => BlockModel::Paragraph { runs: seq![RunModel { text, format }] },
    }
}

/// The paragraph that stands for a piece of inline code.
pub open spec fn inline_code_block(text: Seq<char>) -> BlockModel {
    BlockModel::Paragraph { runs: seq![RunModel { text, format: FormatModel::Code }] }
}

/// The mathematical value of an `Interpreter`.
pub struct InterpreterModel {
    pub dark: bool,
    pub format: FormatModel,
    pub text: Seq<char>,
    pub in_code_block: bool,
    pub code: Seq<char>,
    pub language: Seq<char>,
    pub blocks: Seq<BlockModel>,
}

impl InterpreterModel {
    /// The state before the first event: normal format, nothing gathered, nothing emitted.
    pub open spec fn start(dark: bool) -> InterpreterModel {
        InterpreterModel {
            dark,
            format: FormatModel::Normal,
            text: Seq::empty(),
            in_code_block: false,
            code: Seq::empty(),
            language: Seq::empty(),
            blocks: Seq::empty(),
        }
    }

    /// The state with one more block at the end of the output.
    pub open spec fn emitted(self, block: BlockModel) -> InterpreterModel {
        InterpreterModel { blocks: self.blocks.push(block), ..self }
    }

    /// The state after a flush: gathered text leaves as a block under the current
    /// format; where nothing was gathered, nothing happens.
    pub open spec fn flushed(self) -> InterpreterModel {
        if self.text.len() == 0 {
            self
        } else {
            InterpreterModel {
                text: Seq::empty(),
                ..self.emitted(block_of(self.format, self.text, self.dark))
            }
        }
    }

    /// The state after a flush followed by a change of format.
    pub open spec fn transitioned(self, format: FormatModel) -> InterpreterModel {
        InterpreterModel { format, ..self.flushed() }
    }

    /// The state after the end of a list item: gathered text leaves as a list item.
    pub open spec fn item_closed(self) -> InterpreterModel {
        if self.text.len() == 0 {
            self
        } else {
            InterpreterModel {
                text: Seq::empty(),
                ..self.emitted(BlockModel::ListItem { text: self.text })
            }
        }
    }

    /// The state after the end of a code block: a buffer that is not empty leaves as
    /// one highlighted block.
    pub open spec fn code_closed(self, resources: HighlightResources) -> InterpreterModel {
        let after = if self.code.len() == 0 {
            self
        } else {
            self.emitted(
                BlockModel::CodeBlock {
                    language: self.language,
                    lines: highlighted_code(resources, self.language, self.code, self.dark),
                },
            )
        };
        InterpreterModel { in_code_block: false, ..after }
    }

    /// The state after the start of an element.
    pub open spec fn opened(self, kind: TagModel) -> InterpreterModel {
        match kind {
            TagModel::Heading(level) => self.transitioned(FormatModel::Heading(level)),
            TagModel::Paragraph => self.flushed(),
            TagModel::CodeBlock(language) => InterpreterModel {
                in_code_block: true,
                code: Seq::empty(),
                language: match language {
                    Some(name) => name,
                    None => Seq::empty(),
                },
                ..self.flushed()
            },
            TagModel::List => self.flushed(),
            TagModel::ListItem => InterpreterModel { text: bullet(), ..self.flushed() },
            TagModel::Emphasis => self.transitioned(FormatModel::Emphasis),
            TagModel::Strong => self.transitioned(FormatModel::Strong),
            TagModel::BlockQuote => self.flushed().emitted(
                BlockModel::BlockQuote { runs: Seq::empty() },
            ),
            TagModel::Link(url) => self.transitioned(FormatModel::Link(url)),
            TagModel::Other => self,
        }
    }

    /// The state after the end of an element.
    pub open spec fn closed(
        self,
        kind: TagModel,
        resources: HighlightResources,
    ) -> InterpreterModel {
        match kind {
            TagModel::Heading(_) => self.transitioned(FormatModel::Normal),
            TagModel::Paragraph => self.flushed(),
            TagModel::CodeBlock(_) => self.code_closed(resources),
            TagModel::List => self.flushed(),
            TagModel::ListItem => self.item_closed(),
            TagModel::Emphasis => self.transitioned(FormatModel::Normal),
            TagModel::Strong => self.transitioned(FormatModel::Normal),
            TagModel::BlockQuote => self.flushed(),
            TagModel::Link(_) => self.transitioned(FormatModel::Normal),
            TagModel::Other => self,
        }
    }

    /// The state after one event.
    pub open spec fn step(
        self,
        event: EventModel,
        resources: HighlightResources,
    ) -> InterpreterModel {
        match event {
            EventModel::StartTag(kind) => self.opened(kind),
            EventModel::EndTag(kind) => self.closed(kind, resources),
            EventModel::Text(text) => if self.in_code_block {
                InterpreterModel { code: self.code + text, ..self }
            } else {
                InterpreterModel { text: self.text + text, ..self }
            },
            EventModel::InlineCode(text) => self.flushed().emitted(inline_code_block(text)),
            EventModel::SoftBreak => InterpreterModel { text: self.text.push(' '), ..self },
            EventModel::HardBreak => self.flushed(),
            EventModel::Rule => self.flushed().emitted(BlockModel::Rule),
            EventModel::Other => self,
        }
    }

    /// The state after a sequence of events, taken from first to last.
    pub open spec fn run(
        self,
        events: Seq<EventModel>,
        resources: HighlightResources,
    ) -> InterpreterModel
        decreases events.len(),
    {
        if events.len() == 0 {
            self
        } else {
            self.run(events.drop_last(), resources).step(events.last(), resources)
        }
    }

    /// The document at the end of the stream: what was emitted, and what a last flush adds.
    pub open spec fn finished(self) -> Seq<BlockModel> {
        self.flushed().blocks
    }
}

/// The document that an event stream stands for.
pub open spec fn interpreted(
    events: Seq<EventModel>,
    dark: bool,
    resources: HighlightResources,
) -> Seq<BlockModel> {
    InterpreterModel::start(dark).run(events, resources).finished()
}

/// Whether every block carries its payload.
pub open spec fn all_have_payload(blocks: Seq<BlockModel>) -> bool {
    forall|i: int| 0 <= i < blocks.len() ==> block_has_payload(#[trigger] blocks[i])
}

/// Whether the event is a piece of inline code without text.
pub open spec fn is_empty_inline_code(event: EventModel) -> bool {
    event matches EventModel::InlineCode(text) && text.len() == 0
}

/// Whether no event of the stream is a piece of inline code without text.
pub open spec fn no_empty_inline_code(events: Seq<EventModel>) -> bool {
    forall|i: int| 0 <= i < events.len() ==> !is_empty_inline_code(#[trigger] events[i])
}

/// One event keeps the output free of blocks without payload, unless the event is a
/// piece of inline code without text.
pub proof fn lemma_step_keeps_payload(
    state: InterpreterModel,
    event: EventModel,
    resources: HighlightResources,
)
    requires
        all_have_payload(state.blocks),
        !is_empty_inline_code(event),
    ensures
        all_have_payload(state.step(event, resources).blocks),
{
    let flushed = state.flushed();
    assert(all_have_payload(flushed.blocks)) by {
        if state.text.len() > 0 {
            let block = block_of(state.format, state.text, state.dark);
            assert(block_has_payload(block));
        }
    }
    let closed = state.item_closed();
    assert(all_have_payload(closed.blocks));
    let coded = state.code_closed(resources);
    assert(all_have_payload(coded.blocks)) by {
        if state.code.len() > 0 {
            lemma_lines_of_nonempty(state.code);
            lemma_highlighted_code_len(resources, state.language, state.code, state.dark);
        }
    }
    match event {
        EventModel::InlineCode(text) => {
            assert(block_has_payload(inline_code_block(text)));
        },
        EventModel::StartTag(TagModel::BlockQuote) => {
            assert(block_has_payload(BlockModel::BlockQuote { runs: Seq::empty() }));
        },
        _ => {},
    }
}

/// No emitted block is without payload: in the document of an event stream every
/// heading, list item and link has text, every paragraph has runs and every run has
/// text, and every code block has lines. The one exception is a stream that holds a
/// piece of inline code without text, which is emitted as it is.
pub proof fn lemma_document_has_payload(
    events: Seq<EventModel>,
    dark: bool,
    resources: HighlightResources,
)
    requires
        no_empty_inline_code(events),
    ensures
        all_have_payload(interpreted(events, dark, resources)),
{
    lemma_run_keeps_payload(InterpreterModel::start(dark), events, resources);
    let last = InterpreterModel::start(dark).run(events, resources);
    if last.text.len() > 0 {
        assert(block_has_payload(block_of(last.format, last.text, last.dark)));
    }
}

/// A sequence of events keeps the output free of blocks without payload, unless one
/// of them is a piece of inline code without text.
pub proof fn lemma_run_keeps_payload(
    state: InterpreterModel,
    events: Seq<EventModel>,
    resources: HighlightResources,
)
    requires
        all_have_payload(state.blocks),
        no_empty_inline_code(events),
    ensures
        all_have_payload(state.run(events, resources).blocks),
    decreases events.len(),
{
    if events.len() > 0 {
        let earlier = events.drop_last();
        assert(no_empty_inline_code(earlier)) by {
            assert forall|i: int| 0 <= i < earlier.len() implies !is_empty_inline_code(
                #[trigger] earlier[i],
            ) by {
                assert(earlier[i] == events[i]);
            }
        }
        lemma_run_keeps_payload(state, earlier, resources);
        lemma_step_keeps_payload(state.run(earlier, resources), events.last(), resources);
    }
}

/// An event never takes back what was emitted: the blocks from before the event stand
/// unchanged at the front of the blocks after it.
pub proof fn lemma_step_appends(
    state: InterpreterModel,
    event: EventModel,
    resources: HighlightResources,
)
    ensures
        state.blocks.len() <= state.step(event, resources).blocks.len(),
        state.step(event, resources).blocks.take(state.blocks.len() as int) == state.blocks,
{
    let n = state.blocks.len() as int;
    assert(state.blocks.take(n) == state.blocks);
    assert(state.flushed().blocks.take(n) == state.blocks);
    assert(state.item_closed().blocks.take(n) == state.blocks);
    assert(state.code_closed(resources).blocks.take(n) == state.blocks);
    match event {
        EventModel::InlineCode(text) => {
            assert(state.flushed().emitted(inline_code_block(text)).blocks.take(n)
                == state.blocks);
        },
        EventModel::Rule => {
            assert(state.flushed().emitted(BlockModel::Rule).blocks.take(n) == state.blocks);
        },
        EventModel::StartTag(TagModel::BlockQuote) => {
            assert(state.flushed().emitted(
                BlockModel::BlockQuote { runs: Seq::empty() },
            ).blocks.take(n) == state.blocks);
        },
        _ => {},
    }
}

/// The document grows in source order: what the first events of a stream emitted
/// stands unchanged at the front of what the whole stream emits.
pub proof fn lemma_run_appends(
    state: InterpreterModel,
    events: Seq<EventModel>,
    count: int,
    resources: HighlightResources,
)
    requires
        0 <= count <= events.len(),
    ensures
        state.run(events.take(count), resources).blocks.len() <= state.run(
            events,
            resources,
        ).blocks.len(),
        state.run(events, resources).blocks.take(
            state.run(events.take(count), resources).blocks.len() as int,
        ) == state.run(events.take(count), resources).blocks,
    decreases events.len() - count,
{
    let early = state.run(events.take(count), resources);
    if count == events.len() {
        assert(events.take(count) == events);
        assert(early.blocks.take(early.blocks.len() as int) == early.blocks);
    } else {
        let all = state.run(events, resources);
        let front = events.drop_last();
        let before = state.run(front, resources);
        assert(front.take(count) == events.take(count));
        lemma_run_appends(state, front, count, resources);
        lemma_step_appends(before, events.last(), resources);
        assert(all.blocks.take(early.blocks.len() as int) == all.blocks.take(
            before.blocks.len() as int,
        ).take(early.blocks.len() as int));
    }
}

/// A stream without events stands for a document without blocks.
pub proof fn lemma_no_events_no_blocks(dark: bool, resources: HighlightResources)
    ensures
        interpreted(Seq::empty(), dark, resources) == Seq::<BlockModel>::empty(),
{
}

/// The state machine that turns structural events into blocks. Text is gathered under
/// one format at a time and leaves as a block whenever the format or the structure
/// changes.
pub struct Interpreter {
    pub is_dark: bool,
    pub current_format: TextFormat,
    pub current_text: String,
    pub in_code_block: bool,
    pub code_buffer: String,
    pub code_language: String,
    pub blocks: Vec<Block>,
}

impl View for Interpreter {
    type V = InterpreterModel;

    open spec fn view(&self) -> InterpreterModel {
        InterpreterModel {
            dark: self.is_dark,
            format: self.current_format@,
            text: self.current_text@,
            in_code_block: self.in_code_block,
            code: self.code_buffer@,
            language: self.code_language@,
            blocks: self.blocks.deep_view(),
        }
    }
}

impl Interpreter {
    /// Creates the interpreter in its initial state.
    pub fn new(is_dark: bool) -> (interpreter: Interpreter)
        ensures
            interpreter@ == InterpreterModel::start(is_dark),
    {
        let interpreter = Interpreter {
            is_dark,
            current_format: TextFormat::Normal,
            current_text: String::new(),
            in_code_block: false,
            code_buffer: String::new(),
            code_language: String::new(),
            blocks: Vec::new(),
        };
        assert(interpreter.blocks.deep_view() == Seq::<BlockModel>::empty());
        interpreter
    }

    /// Appends a block to the output.
    pub fn emit(&mut self, block: Block)
        ensures
            final(self)@ == old(self)@.emitted(block@),
    {
        self.blocks.push(block);
        assert(self.blocks.deep_view() == old(self).blocks.deep_view().push(block@));
    }

    /// Takes the gathered text out of the interpreter.
    fn take_text(&mut self) -> (text: String)
        ensures
            text@ == old(self)@.text,
            final(self)@ == (InterpreterModel { text: Seq::empty(), ..old(self)@ }),
    {
        let mut text = String::new();
        std::mem::swap(&mut text, &mut self.current_text);
        text
    }

    /// Emits the gathered text as a block under the current format and empties the
    /// buffer. Without gathered text nothing is emitted.
    pub fn flush(&mut self)
        ensures
            final(self)@ == old(self)@.flushed(),
    {
        if self.current_text.as_str().is_empty() {
            return ;
        }
        let text = self.take_text();
        let block = match &self.current_format {
            TextFormat::Heading(level) => Block::Heading {
                level: *level,
                text,
                color: heading_style_to_color(*level, self.is_dark),
            },
            TextFormat::Link(url) => Block::LinkRun {
                text,
                url: url.clone(),
                color: get_link_color(self.is_dark),
            },
            _ => {
                let mut runs: Vec<TextRun> = Vec::new();
                runs.push(TextRun { text, format: self.current_format.duplicate() });
                assert(runs.deep_view() == seq![
                    RunModel { text: old(self)@.text, format: old(self)@.format },
                ]);
                Block::Paragraph { runs }
            },
        };
        self.emit(block);
    }

    /// Flushes, then makes `format` the current format.
    pub fn flush_and_transition(&mut self, format: TextFormat)
        ensures
            final(self)@ == old(self)@.transitioned(format@),
    {
        self.flush();
        self.current_format = format;
    }

    /// Handles the start of an element.
    pub fn open(&mut self, kind: &TagKind)
        ensures
            final(self)@ == old(self)@.opened(kind@),
    {
        match kind {
            TagKind::Heading(level) => self.flush_and_transition(TextFormat::Heading(*level)),
            TagKind::Paragraph => self.flush(),
            TagKind::CodeBlock(language) => {
                self.flush();
                self.in_code_block = true;
                self.code_buffer = String::new();
                self.code_language = match language {
                    Some(name) => name.clone(),
                    None => String::new(),
                };
            },
            TagKind::List => self.flush(),
            TagKind::ListItem => {
                self.flush();
                self.current_text = "• ".to_owned();
            },
            TagKind::Emphasis => self.flush_and_transition(TextFormat::Emphasis),
            TagKind::Strong => self.flush_and_transition(TextFormat::Strong),
            TagKind::BlockQuote => {
                self.flush();
                let runs: Vec<TextRun> = Vec::new();
                assert(runs.deep_view() == Seq::<RunModel>::empty());
                self.emit(Block::BlockQuote { runs });
            },
            TagKind::Link(url) => self.flush_and_transition(TextFormat::Link(url.clone())),
            TagKind::Other => {},
        }
    }

    /// Handles the end of an element.
    pub fn close(&mut self, kind: &TagKind, resources: &HighlightResources)
        ensures
            final(self)@ == old(self)@.closed(kind@, *resources),
    {
        match kind {
            TagKind::Heading(_) => self.flush_and_transition(TextFormat::Normal),
            TagKind::Paragraph => self.flush(),
            TagKind::CodeBlock(_) => {
                if !self.code_buffer.as_str().is_empty() {
                    let lines = highlight_code(
                        resources,
                        self.code_language.as_str(),
                        self.code_buffer.as_str(),
                        self.is_dark,
                    );
                    let language = self.code_language.clone();
                    self.emit(Block::CodeBlock { language, lines });
                }
                self.in_code_block = false;
            },
            TagKind::List => self.flush(),
            TagKind::ListItem => {
                if !self.current_text.as_str().is_empty() {
                    let text = self.take_text();
                    self.emit(Block::ListItem { text });
                }
            },
            TagKind::Emphasis => self.flush_and_transition(TextFormat::Normal),
            TagKind::Strong => self.flush_and_transition(TextFormat::Normal),
            TagKind::BlockQuote => self.flush(),
            TagKind::Link(_) => self.flush_and_transition(TextFormat::Normal),
            TagKind::Other => {},
        }
    }

    /// Handles one event.
    pub fn step(&mut self, event: &MarkdownEvent, resources: &HighlightResources)
        ensures
            final(self)@ == old(self)@.step(event@, *resources),
    {
        match event {
            MarkdownEvent::StartTag(kind) => self.open(kind),
            MarkdownEvent::EndTag(kind) => self.close(kind, resources),
            MarkdownEvent::Text(text) => {
                if self.in_code_block {
                    self.code_buffer.append(text.as_str());
                } else {
                    self.current_text.append(text.as_str());
                }
            },
            MarkdownEvent::InlineCode(text) => {
                self.flush();
                let mut runs: Vec<TextRun> = Vec::new();
                runs.push(TextRun { text: text.clone(), format: TextFormat::Code });
                assert(runs.deep_view() == seq![
                    RunModel { text: text@, format: FormatModel::Code },
                ]);
                self.emit(Block::Paragraph { runs });
            },
            MarkdownEvent::SoftBreak => {
                self.current_text.push(' ');
            },
            MarkdownEvent::HardBreak => self.flush(),
            MarkdownEvent::Rule => {
                self.flush();
                self.emit(Block::Rule);
            },
            MarkdownEvent::Other => {},
        }
    }

    /// Ends the stream: flushes what is still gathered and hands out the document.
    pub fn finish(self) -> (document: Document)
        ensures
            document@ == self@.finished(),
    {
        let mut interpreter = self;
        interpreter.flush();
        Document { blocks: interpreter.blocks }
    }
}

/// Interprets a whole event stream and returns its document, the blocks in source
/// order. No stream is refused: events without a rule are passed over. No block of
/// the document is without payload, unless the stream holds a piece of inline code
/// without text.
pub fn interpret(
    events: &Vec<MarkdownEvent>,
    is_dark: bool,
    resources: &HighlightResources,
) -> (document: Document)
    ensures
        document@ == interpreted(events.deep_view(), is_dark, *resources),
        no_empty_inline_code(events.deep_view()) ==> all_have_payload(document@),
{
    proof {
        if no_empty_inline_code(events.deep_view()) {
            lemma_document_has_payload(events.deep_view(), is_dark, *resources);
        }
    }
    let mut interpreter = Interpreter::new(is_dark);
    let mut i: usize = 0;
    assert(events.deep_view().take(0) == Seq::<EventModel>::empty());
    while i < events.len()
        invariant
            i <= events.len(),
            interpreter@ == InterpreterModel::start(is_dark).run(
                events.deep_view().take(i as int),
                *resources,
            ),
        decreases events.len() - i,
    {
        interpreter.step(&events[i], resources);
        proof {
            let next = events.deep_view().take(i + 1);
            assert(next.drop_last() == events.deep_view().take(i as int));
            assert(next.last() == events[i as int]@);
        }
        i = i + 1;
    }
    assert(events.deep_view().take(i as int) == events.deep_view());
    interpreter.finish()
}

} // verus!
