use vstd::prelude::*;
use crate::document::{BlockModel, Document};
use crate::highlight::HighlightResources;
use crate::interpreter::{all_have_payload, interpret, interpreted, no_empty_inline_code};
use crate::parser::{parse_markdown, parsed_events};

verus! {

/// The document of a markdown text: its event stream, interpreted.
pub open spec fn rendered(
    resources: HighlightResources,
    content: Seq<char>,
    dark: bool,
) -> Seq<BlockModel> {
    interpreted(parsed_events(content), dark, resources)
}

/// Renders a markdown text into its styled document with highlighting resources that
/// the caller loaded once and shares between renderings.
pub fn render_with(
    resources: &HighlightResources,
    content: &str,
    is_dark: bool,
) -> (document: Document)
    ensures
        document@ == rendered(*resources, content@, is_dark),
        no_empty_inline_code(parsed_events(content@)) ==> all_have_payload(document@),
{
    let events = parse_markdown(content);
    interpret(&events, is_dark, resources)
}

/// Renders a markdown text into its styled document. The highlighting resources are
/// loaded for this one rendering.
pub fn render_markdown(content: &str, is_dark: bool) -> (document: Document)
    ensures
        exists|resources: HighlightResources| document@ == rendered(resources, content@, is_dark),
        no_empty_inline_code(parsed_events(content@)) ==> all_have_payload(document@),
{
    let resources = HighlightResources::load();
    render_with(&resources, content, is_dark)
}

/// Rendering is a function of the text and the mode: two renderings of one text in
/// one mode, with the same resources, give the same document.
pub proof fn lemma_render_is_repeatable(
    first: Document,
    second: Document,
    resources: HighlightResources,
    content: Seq<char>,
    dark: bool,
)
    requires
        first@ == rendered(resources, content, dark),
        second@ == rendered(resources, content, dark),
    ensures
        first@ == second@,
{
}

} // verus!
