use rodo::color::Color;
use rodo::document::{Block, Document, HighlightedLine, TextFormat, TextRun};
use rodo::event::{MarkdownEvent, TagKind};
use rodo::highlight::HighlightResources;
use rodo::markdown::{render_markdown, render_with};
use rodo::parser::parse_markdown;

fn paragraph(text: &str, format: TextFormat) -> Block {
    Block::Paragraph { runs: vec![TextRun { text: text.to_string(), format }] }
}

fn line_text(line: &HighlightedLine) -> String {
    line.fragments.iter().map(|(text, _)| text.as_str()).collect()
}

#[test]
fn heading_becomes_one_heading_block() {
    let document = render_markdown("# Title", false);
    assert_eq!(
        document,
        Document {
            blocks: vec![Block::Heading {
                level: 1,
                text: "Title".to_string(),
                color: Color { r: 180, g: 85, b: 20 },
            }],
        }
    );
}

#[test]
fn bold_and_italic_flush_on_transition() {
    for dark in [false, true] {
        let document = render_markdown("**bold** and *italic*", dark);
        assert_eq!(
            document.blocks,
            vec![
                paragraph("bold", TextFormat::Strong),
                paragraph(" and ", TextFormat::Normal),
                paragraph("italic", TextFormat::Emphasis),
            ]
        );
    }
}

#[test]
fn empty_text_renders_to_no_blocks() {
    assert_eq!(render_markdown("", true).blocks, vec![]);
    assert_eq!(render_markdown("", false).blocks, vec![]);
}

#[test]
fn fenced_rust_block_keeps_its_blank_line() {
    for dark in [false, true] {
        let document = render_markdown("```rust\nfn main() {}\n\n```", dark);
        assert_eq!(document.blocks.len(), 1);
        match &document.blocks[0] {
            Block::CodeBlock { language, lines } => {
                assert_eq!(language, "rust");
                assert_eq!(lines.len(), 2);
                assert_eq!(line_text(&lines[0]), "fn main() {}");
                assert_eq!(line_text(&lines[1]), "");
            }
            other => panic!("not a code block: {:?}", other),
        }
    }
}

#[test]
fn unknown_language_falls_back_to_plain_text() {
    let document = render_markdown("```foolang\nlet x = 1;\n```", true);
    assert_eq!(document.blocks.len(), 1);
    match &document.blocks[0] {
        Block::CodeBlock { language, lines } => {
            assert_eq!(language, "foolang");
            assert_eq!(lines.len(), 1);
            assert_eq!(line_text(&lines[0]), "let x = 1;");
            let first = lines[0].fragments[0].1;
            assert!(lines[0].fragments.iter().all(|(_, color)| *color == first));
        }
        other => panic!("not a code block: {:?}", other),
    }
}

#[test]
fn known_language_gets_more_than_one_colour() {
    let document = render_markdown("```rs\nfn main() { let x = \"s\"; }\n```", true);
    match &document.blocks[0] {
        Block::CodeBlock { lines, .. } => {
            assert_eq!(lines.len(), 1);
            assert_eq!(line_text(&lines[0]), "fn main() { let x = \"s\"; }");
            let first = lines[0].fragments[0].1;
            assert!(lines[0].fragments.iter().any(|(_, color)| *color != first));
        }
        other => panic!("not a code block: {:?}", other),
    }
}

#[test]
fn light_mode_has_a_theme_of_its_own() {
    let source = "```rs\nfn main() { let x = \"s\"; }\n```";
    let light = render_markdown(source, false);
    let dark = render_markdown(source, true);
    match (&light.blocks[0], &dark.blocks[0]) {
        (Block::CodeBlock { lines: light_lines, .. }, Block::CodeBlock { lines: dark_lines, .. }) => {
            assert_eq!(light_lines.len(), 1);
            assert_eq!(line_text(&light_lines[0]), "fn main() { let x = \"s\"; }");
            let first = light_lines[0].fragments[0].1;
            assert!(light_lines[0].fragments.iter().any(|(_, color)| *color != first));
            let light_colors: Vec<Color> = light_lines[0].fragments.iter().map(|f| f.1).collect();
            let dark_colors: Vec<Color> = dark_lines[0].fragments.iter().map(|f| f.1).collect();
            assert_ne!(light_colors, dark_colors);
        }
        other => panic!("not code blocks: {:?}", other),
    }
}

#[test]
fn rendering_twice_gives_the_same_document() {
    let resources = HighlightResources::load();
    let content = "# A\n\ntext `code` more\n\n```rs\nfn f() {}\n```\n\n- one\n- two\n\n> quote\n\n[l](http://x)\n\n---\n";
    for dark in [false, true] {
        let first = render_with(&resources, content, dark);
        let second = render_with(&resources, content, dark);
        assert_eq!(first, second);
        assert_eq!(first, render_markdown(content, dark));
    }
}

#[test]
fn parser_events_are_converted() {
    let events = parse_markdown("## T\n\n[a](u) `c`\n");
    assert_eq!(
        events,
        vec![
            MarkdownEvent::StartTag(TagKind::Heading(2)),
            MarkdownEvent::Text("T".to_string()),
            MarkdownEvent::EndTag(TagKind::Heading(2)),
            MarkdownEvent::StartTag(TagKind::Paragraph),
            MarkdownEvent::StartTag(TagKind::Link("u".to_string())),
            MarkdownEvent::Text("a".to_string()),
            MarkdownEvent::EndTag(TagKind::Link("u".to_string())),
            MarkdownEvent::Text(" ".to_string()),
            MarkdownEvent::InlineCode("c".to_string()),
            MarkdownEvent::EndTag(TagKind::Paragraph),
        ]
    );
}

#[test]
fn code_block_kinds_are_converted() {
    let fenced = parse_markdown("```py\nx\n```\n");
    assert_eq!(fenced[0], MarkdownEvent::StartTag(TagKind::CodeBlock(Some("py".to_string()))));
    assert_eq!(fenced[1], MarkdownEvent::Text("x\n".to_string()));
    let bare = parse_markdown("```\nx\n```\n");
    assert_eq!(bare[0], MarkdownEvent::StartTag(TagKind::CodeBlock(Some(String::new()))));
    let indented = parse_markdown("    x\n");
    assert_eq!(indented[0], MarkdownEvent::StartTag(TagKind::CodeBlock(None)));
}

#[test]
fn unhandled_events_become_other() {
    let events = parse_markdown("<div>\n\n![alt](img.png)\n");
    assert!(events.contains(&MarkdownEvent::Other));
    assert!(events.contains(&MarkdownEvent::StartTag(TagKind::Other)));
    assert!(events.contains(&MarkdownEvent::EndTag(TagKind::Other)));
}
