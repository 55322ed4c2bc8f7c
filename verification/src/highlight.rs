use vstd::prelude::*;
use syntect::easy::HighlightLines;
use syntect::highlighting::ThemeSet;
use syntect::parsing::{SyntaxReference, SyntaxSet};
use crate::color::{get_text_color, normal_color, Color};
use crate::document::{HighlightedLine, LineModel};
use crate::text::{lines_of, split_lines};

verus! {

/// The highlighting crate's set of syntax definitions.
#[verifier::external_type_specification]
#[verifier::external_body]
pub struct ExSyntaxSet(SyntaxSet);

/// The highlighting crate's syntax definition of one language.
#[verifier::external_type_specification]
#[verifier::external_body]
pub struct ExSyntaxReference(SyntaxReference);

/// The highlighting crate's set of themes.
#[verifier::external_type_specification]
#[verifier::external_body]
pub struct ExThemeSet(ThemeSet);

/// The highlighting crate's line highlighter, which carries its state from line to
/// line.
#[verifier::external_type_specification]
#[verifier::external_body]
pub struct ExHighlightLines<'a>(HighlightLines<'a>);

/// The definition that `syntaxes` holds for a file extension, if it holds one.
pub uninterp spec fn syntax_for_extension(syntaxes: SyntaxSet, extension: Seq<char>) -> Option<
    SyntaxReference,
>;

/// The plain-text definition of `syntaxes`.
pub uninterp spec fn plain_text_syntax(syntaxes: SyntaxSet) -> SyntaxReference;

/// Whether `syntax` is one of the definitions of `syntaxes`.
pub uninterp spec fn belongs(syntax: SyntaxReference, syntaxes: SyntaxSet) -> bool;

/// The names under which `themes` holds its themes.
pub uninterp spec fn theme_names(themes: ThemeSet) -> Set<Seq<char>>;

/// The line highlighter at the start of a text, for a definition and the theme that
/// `themes` holds under a name; nothing where it holds none of that name.
pub uninterp spec fn fresh_highlighter(
    syntax: SyntaxReference,
    themes: ThemeSet,
    theme: Seq<char>,
) -> Option<HighlightLines<'static>>;

/// The definition that a line highlighter was started with.
pub uninterp spec fn syntax_of(highlighter: HighlightLines) -> SyntaxReference;

/// What a line highlighter makes of one more line: the coloured fragments, or nothing
/// where it fails.
pub uninterp spec fn line_outcome(
    highlighter: HighlightLines,
    line: Seq<char>,
    syntaxes: SyntaxSet,
) -> Option<LineModel>;

/// The line highlighter after it was given one more line.
pub uninterp spec fn state_after(
    highlighter: HighlightLines,
    line: Seq<char>,
    syntaxes: SyntaxSet,
) -> HighlightLines<'static>;

/// `SyntaxSet::load_defaults_newlines`: the definitions that the highlighting crate
/// ships. The set was built with a plain-text definition in it.
#[verifier::external_body]
fn load_default_syntaxes() -> (syntaxes: SyntaxSet)
    ensures
        belongs(plain_text_syntax(syntaxes), syntaxes),
{
    SyntaxSet::load_defaults_newlines()
}

/// `ThemeSet::load_defaults`: the themes that the highlighting crate ships. Its
/// documentation lists the names that the set holds them under; the dark and the
/// light form of the ocean theme are two of them.
#[verifier::external_body]
fn load_default_themes() -> (themes: ThemeSet)
    ensures
        theme_names(themes).contains("base16-ocean.dark"@),
        theme_names(themes).contains("base16-ocean.light"@),
{
    ThemeSet::load_defaults()
}

/// `SyntaxSet::find_syntax_by_extension`: the result depends on the set and the
/// extension alone, and a definition that is found is one of the set.
#[verifier::external_body]
fn find_syntax_by_extension<'a>(syntaxes: &'a SyntaxSet, extension: &str) -> (found: Option<
    &'a SyntaxReference,
>)
    ensures
        found matches Some(syntax) ==> syntax_for_extension(*syntaxes, extension@) == Some(*syntax)
            && belongs(*syntax, *syntaxes),
        found is None ==> syntax_for_extension(*syntaxes, extension@) is None,
{
    syntaxes.find_syntax_by_extension(extension)
}

/// `SyntaxSet::find_syntax_plain_text`, which panics on a set without a plain-text
/// definition: the result is the plain-text definition of the set.
#[verifier::external_body]
fn find_syntax_plain_text(syntaxes: &SyntaxSet) -> (syntax: &SyntaxReference)
    requires
        belongs(plain_text_syntax(*syntaxes), *syntaxes),
    ensures
        *syntax == plain_text_syntax(*syntaxes),
{
    syntaxes.find_syntax_plain_text()
}

/// `HighlightLines::new` with the theme that the public map `ThemeSet::themes` holds
/// under the name: the highlighter depends on the definition, the set and the name
/// alone, there is one exactly where the set holds a theme of that name, and it was
/// started with that definition.
#[verifier::external_body]
fn start_highlighter<'a>(syntax: &SyntaxReference, themes: &'a ThemeSet, theme: &str) -> (started:
    Option<HighlightLines<'a>>)
    ensures
        started is Some <==> theme_names(*themes).contains(theme@),
        started matches Some(highlighter) ==> fresh_highlighter(*syntax, *themes, theme@) == Some(
            highlighter,
        ) && syntax_of(highlighter) == *syntax,
        started is None ==> fresh_highlighter(*syntax, *themes, theme@) is None,
{
    themes.themes.get(theme).map(|found| HighlightLines::new(syntax, found))
}

/// `HighlightLines::highlight_line`, which asks for the set that the highlighter's
/// definition was taken from. Each fragment comes back with the red, green and blue
/// of its foreground; an error comes back as `None`. Outcome and new state depend on
/// the old state, the line and the set alone.
#[verifier::external_body]
fn highlight_line(highlighter: &mut HighlightLines, line: &str, syntaxes: &SyntaxSet) -> (outcome:
    Option<Vec<(String, Color)>>)
    requires
        belongs(syntax_of(*old(highlighter)), *syntaxes),
    ensures
        outcome.deep_view() == line_outcome(*old(highlighter), line@, *syntaxes),
        *final(highlighter) == state_after(*old(highlighter), line@, *syntaxes),
        syntax_of(*final(highlighter)) == syntax_of(*old(highlighter)),
{
    let ranges = highlighter.highlight_line(line, syntaxes).ok()?;
    Some(
        ranges.into_iter().map(
            |(style, text)|
                {
                    let ink = style.foreground;
                    (text.to_string(), Color { r: ink.r, g: ink.g, b: ink.b })
                },
        ).collect(),
    )
}

/// The syntax definitions and themes that highlighting reads. They are costly to
/// load and never change afterwards, so one value serves every rendering.
pub struct HighlightResources {
    syntaxes: SyntaxSet,
    themes: ThemeSet,
}

impl HighlightResources {
    #[verifier::type_invariant]
    spec fn well_formed(self) -> bool {
        &&& belongs(plain_text_syntax(self.syntaxes), self.syntaxes)
        &&& theme_names(self.themes).contains(theme_name(true))
        &&& theme_names(self.themes).contains(theme_name(false))
    }

    /// The syntax definitions of the resources.
    pub closed spec fn syntaxes(self) -> SyntaxSet {
        self.syntaxes
    }

    /// The themes of the resources.
    pub closed spec fn themes(self) -> ThemeSet {
        self.themes
    }

    /// Whether the resources hold what highlighting asks of them: a plain-text
    /// definition for hints without a definition of their own, and the highlighting
    /// theme of either mode.
    pub open spec fn is_stocked(self) -> bool {
        &&& belongs(plain_text_syntax(self.syntaxes()), self.syntaxes())
        &&& theme_names(self.themes()).contains(theme_name(true))
        &&& theme_names(self.themes()).contains(theme_name(false))
    }

    /// Loads the definitions and themes that the highlighting crate ships. They hold
    /// a plain-text definition and the highlighting themes of both modes.
    pub fn load() -> (resources: HighlightResources)
        ensures
            resources.is_stocked(),
    {
        HighlightResources { syntaxes: load_default_syntaxes(), themes: load_default_themes() }
    }
}

/// The name of the highlighting theme for dark or light mode: the dark and the light
/// form of one theme that the highlighting crate ships.
pub open spec fn theme_name(dark: bool) -> Seq<char> {
    if dark {
        "base16-ocean.dark"@
    } else {
        "base16-ocean.light"@
    }
}

/// The line as one fragment in the colour of ordinary text.
pub open spec fn plain_line(line: Seq<char>, dark: bool) -> LineModel {
    seq![(line, normal_color(dark))]
}

/// The fragments of a line: those that the highlighter gave, or, where it failed, the
/// whole line as one fragment in the colour of ordinary text.
pub open spec fn line_or_plain(
    outcome: Option<LineModel>,
    line: Seq<char>,
    dark: bool,
) -> LineModel {
    match outcome {
        Some(fragments) => fragments,
        None => plain_line(line, dark),
    }
}

/// The lines highlighted one after another, the highlighter's state carried from each
/// line to the next, a failed line replaced by its plain form.
pub open spec fn highlighted_lines(
    highlighter: HighlightLines,
    syntaxes: SyntaxSet,
    lines: Seq<Seq<char>>,
    dark: bool,
) -> Seq<LineModel>
    decreases lines.len(),
{
    if lines.len() == 0 {
        Seq::empty()
    } else {
        seq![line_or_plain(line_outcome(highlighter, lines[0], syntaxes), lines[0], dark)]
            + highlighted_lines(
            state_after(highlighter, lines[0], syntaxes),
            syntaxes,
            lines.drop_first(),
            dark,
        )
    }
}

/// Every line in its plain form.
pub open spec fn plain_lines(lines: Seq<Seq<char>>, dark: bool) -> Seq<LineModel> {
    Seq::new(lines.len(), |i: int| plain_line(lines[i], dark))
}

/// The definition for a language hint: the one registered for the hint as a file
/// extension, or the plain-text definition where there is none.
pub open spec fn syntax_for(syntaxes: SyntaxSet, language: Seq<char>) -> SyntaxReference {
    match syntax_for_extension(syntaxes, language) {
        Some(syntax) => syntax,
        None => plain_text_syntax(syntaxes),
    }
}

/// The highlighted lines of a code block. The block is split into its lines, and a
/// highlighter that starts afresh works through them under the theme for the mode.
/// Where the resources hold no theme of that name, every line is plain.
pub open spec fn highlighted_code(
    resources: HighlightResources,
    language: Seq<char>,
    code: Seq<char>,
    dark: bool,
) -> Seq<LineModel> {
    match fresh_highlighter(
        syntax_for(resources.syntaxes(), language),
        resources.themes(),
        theme_name(dark),
    ) {
        Some(highlighter) => highlighted_lines(
            highlighter,
            resources.syntaxes(),
            lines_of(code),
            dark,
        ),
        None => plain_lines(lines_of(code), dark),
    }
}

/// The highlighted form of a code block has as many lines as the block.
pub proof fn lemma_highlighted_code_len(
    resources: HighlightResources,
    language: Seq<char>,
    code: Seq<char>,
    dark: bool,
)
    ensures
        highlighted_code(resources, language, code, dark).len() == lines_of(code).len(),
{
    match fresh_highlighter(
        syntax_for(resources.syntaxes(), language),
        resources.themes(),
        theme_name(dark),
    ) {
        Some(highlighter) => {
            lemma_highlighted_lines_len(highlighter, resources.syntaxes(), lines_of(code), dark);
        },
        None => {},
    }
}

/// Highlighting keeps the number of lines.
pub proof fn lemma_highlighted_lines_len(
    highlighter: HighlightLines,
    syntaxes: SyntaxSet,
    lines: Seq<Seq<char>>,
    dark: bool,
)
    ensures
        highlighted_lines(highlighter, syntaxes, lines, dark).len() == lines.len(),
    decreases lines.len(),
{
    if lines.len() > 0 {
        lemma_highlighted_lines_len(
            state_after(highlighter, lines[0], syntaxes),
            syntaxes,
            lines.drop_first(),
            dark,
        );
    }
}

/// Returns the name of the highlighting theme for dark or light mode.
pub fn highlight_theme_name(is_dark: bool) -> (name: &'static str)
    ensures
        name@ == theme_name(is_dark),
{
    if is_dark {
        "base16-ocean.dark"
    } else {
        "base16-ocean.light"
    }
}

/// Returns the line as one fragment in the colour of ordinary text.
pub fn plain_fragments(line: &str, is_dark: bool) -> (plain: HighlightedLine)
    ensures
        plain@ == plain_line(line@, is_dark),
{
    let mut fragments: Vec<(String, Color)> = Vec::new();
    fragments.push((line.to_owned(), get_text_color(is_dark)));
    assert(fragments.deep_view() == plain_line(line@, is_dark));
    HighlightedLine { fragments }
}

/// Turns what the highlighter made of a line into the line of the document: its
/// fragments, or the plain line where it failed.
pub fn line_from_outcome(
    outcome: Option<Vec<(String, Color)>>,
    line: &str,
    is_dark: bool,
) -> (result: HighlightedLine)
    ensures
        result@ == line_or_plain(outcome.deep_view(), line@, is_dark),
{
    match outcome {
        Some(fragments) => HighlightedLine { fragments },
        None => plain_fragments(line, is_dark),
    }
}

/// Highlights a code block line by line. A language hint that no definition is
/// registered for is read as plain text; a line on which the highlighter fails is
/// returned plain, and the lines after it are still highlighted.
pub fn highlight_code(
    resources: &HighlightResources,
    language: &str,
    code: &str,
    is_dark: bool,
) -> (lines: Vec<HighlightedLine>)
    ensures
        lines.deep_view() == highlighted_code(*resources, language@, code@, is_dark),
        lines.len() == lines_of(code@).len(),
{
    proof {
        use_type_invariant(resources);
        lemma_highlighted_code_len(*resources, language@, code@, is_dark);
    }
    let raw = split_lines(code);
    let mut lines: Vec<HighlightedLine> = Vec::new();
    let mut i: usize = 0;
    let syntax = match find_syntax_by_extension(&resources.syntaxes, language) {
        Some(syntax) => syntax,
        None => find_syntax_plain_text(&resources.syntaxes),
    };
    match start_highlighter(syntax, &resources.themes, highlight_theme_name(is_dark)) {
        Some(fresh) => {
            let mut highlighter = fresh;
            let ghost start = highlighter;
            let ghost all = raw.deep_view();
            assert(all.skip(0) == all);
            while i < raw.len()
                invariant
                    i <= raw.len(),
                    all == raw.deep_view(),
                    belongs(syntax_of(highlighter), resources.syntaxes),
                    highlighted_lines(start, resources.syntaxes, all, is_dark)
                        == lines.deep_view() + highlighted_lines(
                        highlighter,
                        resources.syntaxes,
                        all.skip(i as int),
                        is_dark,
                    ),
                decreases raw.len() - i,
            {
                let ghost before = lines.deep_view();
                let ghost state = highlighter;
                let outcome = highlight_line(
                    &mut highlighter,
                    raw[i].as_str(),
                    &resources.syntaxes,
                );
                let line = line_from_outcome(outcome, raw[i].as_str(), is_dark);
                lines.push(line);
                proof {
                    let rest = all.skip(i as int);
                    assert(rest[0] == raw[i as int]@);
                    assert(rest.drop_first() == all.skip(i + 1));
                    assert(lines.deep_view() == before.push(line@));
                    assert(before + highlighted_lines(state, resources.syntaxes, rest, is_dark)
                        == lines.deep_view() + highlighted_lines(
                        highlighter,
                        resources.syntaxes,
                        all.skip(i + 1),
                        is_dark,
                    ));
                }
                i = i + 1;
            }
            assert(all.skip(i as int).len() == 0);
        },
        None => {
            while i < raw.len()
                invariant
                    i <= raw.len(),
                    lines.deep_view() == plain_lines(raw.deep_view(), is_dark).take(i as int),
                decreases raw.len() - i,
            {
                let ghost before = lines.deep_view();
                let line = plain_fragments(raw[i].as_str(), is_dark);
                lines.push(line);
                assert(lines.deep_view() == before.push(line@));
                i = i + 1;
            }
            assert(plain_lines(raw.deep_view(), is_dark).take(i as int) == plain_lines(
                raw.deep_view(),
                is_dark,
            ));
        },
    }
    lines
}

} // verus!
