//! The external line highlighter: syntect grammars and themes, reached
//! through trusted items. A highlighted line comes back as styled spans;
//! what the grammar engine produces for a given line is its own affair, so
//! nothing is assumed of the spans' content, and everything done with them
//! afterwards is verified for arbitrary spans.

use vstd::prelude::*;
use syntect::easy::HighlightLines;
use syntect::highlighting::{Theme, ThemeSet};
use syntect::parsing::{SyntaxReference, SyntaxSet};
use crate::render_op::{TuiColor, TuiStyle};
use crate::seg::concat_chunks;

verus! {

#[verifier::external_type_specification]
#[verifier::external_body]
pub struct ExSyntaxSet(SyntaxSet);

#[verifier::external_type_specification]
#[verifier::external_body]
pub struct ExTheme(Theme);

#[verifier::external_type_specification]
#[verifier::external_body]
pub struct ExSyntaxReference(SyntaxReference);

/// One styled run of text in a highlighted line.
#[derive(Debug)]
pub struct StyledSpan {
    pub style: TuiStyle,
    pub text: String,
}

/// The mathematical value of a styled span.
pub struct SpanView {
    pub style: TuiStyle,
    pub text: Seq<char>,
}

impl View for StyledSpan {
    type V = SpanView;

    open spec fn view(&self) -> SpanView {
        SpanView { style: self.style, text: self.text@ }
    }
}

pub open spec fn spans_view(spans: Seq<StyledSpan>) -> Seq<SpanView> {
    spans.map_values(|s: StyledSpan| s@)
}

/// Relies on syntect's `SyntaxSet::load_defaults_newlines`, which unpacks
/// the grammar definitions compiled into the crate.
#[verifier::external_body]
pub fn load_default_syntax_set() -> (r: SyntaxSet)
{
    SyntaxSet::load_defaults_newlines()
}

/// Relies on syntect's `ThemeSet::load_defaults`, which unpacks the themes
/// compiled into the crate; hands out one of them, if present.
#[verifier::external_body]
pub fn load_default_theme() -> (r: Option<Theme>)
{
    let mut themes = ThemeSet::load_defaults().themes;
    themes.remove("base16-ocean.dark")
}

/// Relies on syntect's `SyntaxSet::find_syntax_by_extension`: looks the
/// grammar up by file extension, `None` when no grammar matches.
#[verifier::external_body]
pub fn find_syntax_by_extension<'a>(
    syntax_set: &'a SyntaxSet,
    extension: &str,
) -> (r: Option<&'a SyntaxReference>)
{
    syntax_set.find_syntax_by_extension(extension)
}

/// Relies on syntect's `HighlightLines::new` and `highlight_line`: styles
/// one line with the given grammar and theme. The returned tokens are
/// consecutive slices of the input line — their concatenation is the line,
/// as the highlight iterator documents — carried over verbatim into the
/// spans' texts. Which styles the grammar assigns, and where it cuts, is
/// the grammar engine's own affair; an error becomes `None`.
#[verifier::external_body]
pub fn highlight_line_spans(
    syntax: &SyntaxReference,
    syntax_set: &SyntaxSet,
    theme: &Theme,
    line: &str,
) -> (r: Option<Vec<StyledSpan>>)
    ensures
        r is Some ==> concat_chunks(r->Some_0@.map_values(|sp: StyledSpan| sp@.text)) == line@,
{
    let mut highlighter = HighlightLines::new(syntax, theme);
    let spans = highlighter.highlight_line(line, syntax_set).ok()?;
    Some(spans.into_iter().map(|(style, text)| StyledSpan {
        style: TuiStyle {
            color_fg: Some(TuiColor::Rgb(style.foreground.r, style.foreground.g, style.foreground.b)),
            color_bg: None,
            reverse: false,
        },
        text: text.to_owned(),
    }).collect())
}

} // verus!
