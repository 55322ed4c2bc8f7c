use rodo::color::Color;
use rodo::document::{Block, TextFormat, TextRun};
use rodo::event::{MarkdownEvent, TagKind};
use rodo::highlight::HighlightResources;
use rodo::interpreter::{interpret, Interpreter};

fn text(s: &str) -> MarkdownEvent {
    MarkdownEvent::Text(s.to_string())
}

fn start(kind: TagKind) -> MarkdownEvent {
    MarkdownEvent::StartTag(kind)
}

fn end(kind: TagKind) -> MarkdownEvent {
    MarkdownEvent::EndTag(kind)
}

fn run(s: &str, format: TextFormat) -> Block {
    Block::Paragraph { runs: vec![TextRun { text: s.to_string(), format }] }
}

fn blocks_of(events: Vec<MarkdownEvent>, dark: bool) -> Vec<Block> {
    let resources = HighlightResources::load();
    interpret(&events, dark, &resources).blocks
}

fn has_payload(block: &Block) -> bool {
    match block {
        Block::Heading { text, .. } => !text.is_empty(),
        Block::Paragraph { runs } => !runs.is_empty() && runs.iter().all(|r| !r.text.is_empty()),
        Block::CodeBlock { lines, .. } => !lines.is_empty(),
        Block::ListItem { text } => !text.is_empty(),
        Block::BlockQuote { runs } => runs.iter().all(|r| !r.text.is_empty()),
        Block::LinkRun { text, .. } => !text.is_empty(),
        Block::Rule => true,
    }
}

#[test]
fn no_events_no_blocks() {
    assert_eq!(blocks_of(vec![], true), vec![]);
    assert_eq!(blocks_of(vec![], false), vec![]);
}

#[test]
fn new_interpreter_starts_normal_and_empty() {
    let interpreter = Interpreter::new(true);
    assert!(interpreter.is_dark);
    assert_eq!(interpreter.current_format, TextFormat::Normal);
    assert_eq!(interpreter.current_text, "");
    assert!(!interpreter.in_code_block);
    assert_eq!(interpreter.code_buffer, "");
    assert_eq!(interpreter.code_language, "");
    assert!(interpreter.blocks.is_empty());
    assert_eq!(interpreter.finish().blocks, vec![]);
}

#[test]
fn flush_of_nothing_emits_nothing() {
    let mut interpreter = Interpreter::new(false);
    interpreter.flush();
    interpreter.flush_and_transition(TextFormat::Strong);
    interpreter.flush_and_transition(TextFormat::Normal);
    assert!(interpreter.blocks.is_empty());
    assert_eq!(interpreter.current_format, TextFormat::Normal);
}

#[test]
fn flush_emits_the_text_under_its_format_and_keeps_the_format() {
    let mut interpreter = Interpreter::new(false);
    interpreter.current_format = TextFormat::Emphasis;
    interpreter.current_text = "x".to_string();
    interpreter.flush();
    assert_eq!(interpreter.blocks, vec![run("x", TextFormat::Emphasis)]);
    assert_eq!(interpreter.current_text, "");
    assert_eq!(interpreter.current_format, TextFormat::Emphasis);
}

#[test]
fn end_of_stream_flushes_pending_text() {
    assert_eq!(blocks_of(vec![text("tail")], true), vec![run("tail", TextFormat::Normal)]);
}

#[test]
fn heading_resolves_its_colour_for_the_mode() {
    let events = vec![start(TagKind::Heading(2)), text("H"), end(TagKind::Heading(2)), text("x")];
    assert_eq!(
        blocks_of(events.clone(), true),
        vec![
            Block::Heading { level: 2, text: "H".to_string(), color: Color { r: 200, g: 175, b: 255 } },
            run("x", TextFormat::Normal),
        ]
    );
    assert_eq!(
        blocks_of(events, false)[0],
        Block::Heading { level: 2, text: "H".to_string(), color: Color { r: 100, g: 80, b: 175 } }
    );
}

#[test]
fn heading_of_an_unlisted_level_is_grey() {
    let events = vec![start(TagKind::Heading(9)), text("H"), end(TagKind::Heading(9))];
    assert_eq!(
        blocks_of(events, false),
        vec![Block::Heading { level: 9, text: "H".to_string(), color: Color { r: 60, g: 60, b: 60 } }]
    );
}

#[test]
fn text_gathers_across_events_and_soft_breaks() {
    let events = vec![
        start(TagKind::Paragraph),
        text("a"),
        MarkdownEvent::SoftBreak,
        text("b"),
        end(TagKind::Paragraph),
    ];
    assert_eq!(blocks_of(events, true), vec![run("a b", TextFormat::Normal)]);
}

#[test]
fn soft_break_alone_is_a_run_of_one_space() {
    assert_eq!(blocks_of(vec![MarkdownEvent::SoftBreak], true), vec![run(" ", TextFormat::Normal)]);
}

#[test]
fn hard_break_flushes_without_a_block_of_its_own() {
    let events = vec![text("a"), MarkdownEvent::HardBreak, text("b")];
    assert_eq!(
        blocks_of(events, true),
        vec![run("a", TextFormat::Normal), run("b", TextFormat::Normal)]
    );
    assert_eq!(blocks_of(vec![MarkdownEvent::HardBreak], true), vec![]);
}

#[test]
fn rule_flushes_and_emits_a_rule() {
    let events = vec![text("a"), MarkdownEvent::Rule, MarkdownEvent::Rule];
    assert_eq!(
        blocks_of(events, true),
        vec![run("a", TextFormat::Normal), Block::Rule, Block::Rule]
    );
}

#[test]
fn strong_and_emphasis_reset_to_normal() {
    let events = vec![
        start(TagKind::Strong),
        text("s"),
        end(TagKind::Strong),
        text("n"),
        start(TagKind::Emphasis),
        text("e"),
        end(TagKind::Emphasis),
        text("m"),
    ];
    assert_eq!(
        blocks_of(events, false),
        vec![
            run("s", TextFormat::Strong),
            run("n", TextFormat::Normal),
            run("e", TextFormat::Emphasis),
            run("m", TextFormat::Normal),
        ]
    );
}

#[test]
fn last_entered_style_wins() {
    let events = vec![
        start(TagKind::Strong),
        start(TagKind::Emphasis),
        text("both"),
        end(TagKind::Emphasis),
        text("after"),
        end(TagKind::Strong),
    ];
    assert_eq!(
        blocks_of(events, false),
        vec![run("both", TextFormat::Emphasis), run("after", TextFormat::Normal)]
    );
}

#[test]
fn link_becomes_a_link_run_with_url_and_colour() {
    let events = vec![
        text("see "),
        start(TagKind::Link("http://x".to_string())),
        text("here"),
        end(TagKind::Link("http://x".to_string())),
    ];
    assert_eq!(
        blocks_of(events.clone(), true),
        vec![
            run("see ", TextFormat::Normal),
            Block::LinkRun {
                text: "here".to_string(),
                url: "http://x".to_string(),
                color: Color { r: 100, g: 149, b: 237 },
            },
        ]
    );
    assert_eq!(
        blocks_of(events, false)[1],
        Block::LinkRun {
            text: "here".to_string(),
            url: "http://x".to_string(),
            color: Color { r: 0, g: 0, b: 238 },
        }
    );
}

#[test]
fn inline_code_is_atomic() {
    let events = vec![text("a"), MarkdownEvent::InlineCode("c".to_string()), text("b")];
    assert_eq!(
        blocks_of(events, true),
        vec![run("a", TextFormat::Normal), run("c", TextFormat::Code), run("b", TextFormat::Normal)]
    );
}

#[test]
fn inline_code_keeps_the_current_format() {
    let events = vec![
        start(TagKind::Strong),
        text("a"),
        MarkdownEvent::InlineCode("c".to_string()),
        text("b"),
        end(TagKind::Strong),
    ];
    assert_eq!(
        blocks_of(events, true),
        vec![run("a", TextFormat::Strong), run("c", TextFormat::Code), run("b", TextFormat::Strong)]
    );
}

#[test]
fn inline_code_without_text_is_emitted_as_it_is() {
    let events = vec![MarkdownEvent::InlineCode(String::new())];
    assert_eq!(blocks_of(events, true), vec![run("", TextFormat::Code)]);
}

#[test]
fn list_item_starts_with_a_bullet_and_ends_as_a_list_item() {
    let events = vec![
        start(TagKind::List),
        start(TagKind::ListItem),
        text("one"),
        end(TagKind::ListItem),
        start(TagKind::ListItem),
        text("two"),
        end(TagKind::ListItem),
        end(TagKind::List),
    ];
    assert_eq!(
        blocks_of(events, true),
        vec![
            Block::ListItem { text: "• one".to_string() },
            Block::ListItem { text: "• two".to_string() },
        ]
    );
}

#[test]
fn empty_list_item_is_its_bullet() {
    let events = vec![start(TagKind::ListItem), end(TagKind::ListItem)];
    assert_eq!(blocks_of(events, true), vec![Block::ListItem { text: "• ".to_string() }]);
}

#[test]
fn list_item_is_emitted_whatever_the_format() {
    let events = vec![start(TagKind::Strong), text("x"), end(TagKind::ListItem), text("y")];
    assert_eq!(
        blocks_of(events, true),
        vec![Block::ListItem { text: "x".to_string() }, run("y", TextFormat::Strong)]
    );
}

#[test]
fn paragraph_inside_a_list_item_flushes_the_bullet() {
    let events = vec![
        start(TagKind::ListItem),
        start(TagKind::Paragraph),
        text("p"),
        end(TagKind::Paragraph),
        end(TagKind::ListItem),
    ];
    assert_eq!(
        blocks_of(events, true),
        vec![run("• ", TextFormat::Normal), run("p", TextFormat::Normal)]
    );
}

#[test]
fn block_quote_marks_its_start_and_its_content_stays_outside() {
    let events = vec![
        text("before"),
        start(TagKind::BlockQuote),
        start(TagKind::Paragraph),
        text("quoted"),
        end(TagKind::Paragraph),
        end(TagKind::BlockQuote),
        text("after"),
    ];
    assert_eq!(
        blocks_of(events, true),
        vec![
            run("before", TextFormat::Normal),
            Block::BlockQuote { runs: vec![] },
            run("quoted", TextFormat::Normal),
            run("after", TextFormat::Normal),
        ]
    );
}

#[test]
fn end_of_block_quote_flushes() {
    let events = vec![start(TagKind::BlockQuote), text("q"), end(TagKind::BlockQuote)];
    assert_eq!(
        blocks_of(events, false),
        vec![Block::BlockQuote { runs: vec![] }, run("q", TextFormat::Normal)]
    );
}

#[test]
fn code_block_gathers_text_apart_from_the_run() {
    let events = vec![
        text("before"),
        start(TagKind::CodeBlock(Some("nolang".to_string()))),
        text("a\n"),
        text("\nb\n"),
        end(TagKind::CodeBlock(Some("nolang".to_string()))),
        text("after"),
    ];
    let blocks = blocks_of(events, false);
    assert_eq!(blocks.len(), 3);
    assert_eq!(blocks[0], run("before", TextFormat::Normal));
    match &blocks[1] {
        Block::CodeBlock { language, lines } => {
            assert_eq!(language, "nolang");
            let texts: Vec<String> = lines
                .iter()
                .map(|line| line.fragments.iter().map(|(t, _)| t.as_str()).collect())
                .collect();
            assert_eq!(texts, vec!["a", "", "b"]);
        }
        other => panic!("not a code block: {:?}", other),
    }
    assert_eq!(blocks[2], run("after", TextFormat::Normal));
}

#[test]
fn code_block_without_hint_has_an_empty_language() {
    let events = vec![
        start(TagKind::CodeBlock(Some("rs".to_string()))),
        text("x"),
        end(TagKind::CodeBlock(None)),
        start(TagKind::CodeBlock(None)),
        text("y"),
        end(TagKind::CodeBlock(None)),
    ];
    let blocks = blocks_of(events, false);
    assert_eq!(blocks.len(), 2);
    assert!(matches!(&blocks[0], Block::CodeBlock { language, .. } if language == "rs"));
    assert!(matches!(&blocks[1], Block::CodeBlock { language, .. } if language.is_empty()));
}

#[test]
fn empty_code_block_emits_nothing() {
    let events = vec![start(TagKind::CodeBlock(None)), end(TagKind::CodeBlock(None)), text("t")];
    assert_eq!(blocks_of(events, true), vec![run("t", TextFormat::Normal)]);
}

#[test]
fn soft_break_inside_a_code_block_goes_to_the_run() {
    let events = vec![
        start(TagKind::CodeBlock(None)),
        MarkdownEvent::SoftBreak,
        text("c"),
        end(TagKind::CodeBlock(None)),
    ];
    let blocks = blocks_of(events, false);
    assert_eq!(blocks.len(), 2);
    assert!(matches!(&blocks[0], Block::CodeBlock { lines, .. } if lines.len() == 1));
    assert_eq!(blocks[1], run(" ", TextFormat::Normal));
}

#[test]
fn unknown_events_are_passed_over() {
    let events = vec![
        text("a"),
        MarkdownEvent::Other,
        start(TagKind::Other),
        text("b"),
        end(TagKind::Other),
    ];
    assert_eq!(blocks_of(events, true), vec![run("ab", TextFormat::Normal)]);
}

#[test]
fn unbalanced_end_tags_are_no_failure() {
    let events = vec![
        end(TagKind::Heading(1)),
        end(TagKind::Link("u".to_string())),
        end(TagKind::CodeBlock(None)),
        end(TagKind::ListItem),
        end(TagKind::List),
        text("t"),
    ];
    assert_eq!(blocks_of(events, true), vec![run("t", TextFormat::Normal)]);
}

#[test]
fn step_by_step_equals_interpret() {
    let resources = HighlightResources::load();
    let events = vec![
        start(TagKind::Heading(1)),
        text("T"),
        end(TagKind::Heading(1)),
        start(TagKind::Paragraph),
        text("p"),
        MarkdownEvent::InlineCode("c".to_string()),
        end(TagKind::Paragraph),
        text("rest"),
    ];
    let mut interpreter = Interpreter::new(true);
    for event in &events {
        interpreter.step(event, &resources);
    }
    assert_eq!(interpreter.finish(), interpret(&events, true, &resources));
}

#[test]
fn every_block_of_a_stream_has_its_payload() {
    let events = vec![
        start(TagKind::Heading(1)),
        end(TagKind::Heading(1)),
        start(TagKind::Paragraph),
        end(TagKind::Paragraph),
        start(TagKind::Strong),
        end(TagKind::Strong),
        start(TagKind::Link("u".to_string())),
        end(TagKind::Link("u".to_string())),
        start(TagKind::CodeBlock(None)),
        end(TagKind::CodeBlock(None)),
        start(TagKind::BlockQuote),
        end(TagKind::BlockQuote),
        MarkdownEvent::Rule,
        MarkdownEvent::HardBreak,
        text(""),
        start(TagKind::ListItem),
        text("i"),
        end(TagKind::ListItem),
        MarkdownEvent::InlineCode("c".to_string()),
        start(TagKind::CodeBlock(Some("rs".to_string()))),
        text("\n"),
        end(TagKind::CodeBlock(None)),
    ];
    for dark in [false, true] {
        let blocks = blocks_of(events.clone(), dark);
        assert!(blocks.iter().all(has_payload));
        assert_eq!(blocks.len(), 5);
    }
}

#[test]
fn emitted_blocks_are_never_taken_back() {
    let resources = HighlightResources::load();
    let events = vec![
        text("a"),
        start(TagKind::Strong),
        text("b"),
        MarkdownEvent::InlineCode("c".to_string()),
        end(TagKind::Strong),
        start(TagKind::BlockQuote),
        start(TagKind::CodeBlock(Some("rs".to_string()))),
        text("fn f() {}\n"),
        end(TagKind::CodeBlock(None)),
        MarkdownEvent::Rule,
        start(TagKind::ListItem),
        end(TagKind::ListItem),
        text("tail"),
    ];
    let mut interpreter = Interpreter::new(true);
    let mut before: Vec<Block> = Vec::new();
    for event in &events {
        interpreter.step(event, &resources);
        assert!(interpreter.blocks.len() >= before.len());
        assert_eq!(&interpreter.blocks[..before.len()], &before[..]);
        before = interpreter.blocks.clone();
    }
    let document = interpreter.finish();
    assert_eq!(&document.blocks[..before.len()], &before[..]);
    assert_eq!(document.blocks.len(), before.len() + 1);
}
