//! The trusted boundary to the syntect tokenization and theming engine.
//! Everything the library takes from syntect passes through here.

use vstd::prelude::*;
use syntect::easy::HighlightLines;
use syntect::highlighting::Theme;
use syntect::parsing::{SyntaxReference, SyntaxSet};
use crate::color::Color;
use crate::paint::{spans_text, StyledSpan};

verus! {

#[verifier::external_type_specification]
#[verifier::external_body]
pub struct ExTheme(Theme);

#[verifier::external_type_specification]
#[verifier::external_body]
pub struct ExSyntaxSet(SyntaxSet);

#[verifier::external_type_specification]
#[verifier::external_body]
pub struct ExSyntaxReference(SyntaxReference);

#[verifier::external_type_specification]
#[verifier::external_body]
pub struct ExSyntectError(syntect::Error);

/// The grammar set is the one that syntect's default loader builds from its
/// bundled dump.
pub uninterp spec fn is_default_syntax_set(syntax_set: SyntaxSet) -> bool;

/// The grammar reference lives in (was looked up from) the given grammar
/// set. Syntect documents that parsing with a reference from one set against
/// another returns wrong results or panics, so every tokenizing call demands
/// this pairing.
pub uninterp spec fn syntax_in_set(syntax: SyntaxReference, syntax_set: SyntaxSet) -> bool;

/// What syntect's highlighter returns for a line under a grammar, theme and
/// grammar set — `None` when it reports an error — already converted to this
/// library's spans. The call is deterministic: a fresh highlighter is built
/// per call, so the result depends on these four arguments alone.
pub uninterp spec fn highlight_result(
    line: Seq<char>,
    syntax: SyntaxReference,
    theme: Theme,
    syntax_set: SyntaxSet,
) -> Option<Seq<StyledSpan>>;

/// Relies on syntect::parsing::SyntaxSet::load_defaults_newlines: loads the
/// grammar set bundled with syntect. The handle is opaque to this library.
#[verifier::external_body]
pub(crate) fn load_default_syntax_set() -> (syntax_set: SyntaxSet)
    ensures
        is_default_syntax_set(syntax_set),
{
    SyntaxSet::load_defaults_newlines()
}

/// Relies on syntect::parsing::SyntaxSet::find_syntax_by_name: a found
/// reference is borrowed from the set it was looked up in.
#[verifier::external_body]
pub(crate) fn find_syntax_by_name_in<'a>(syntax_set: &'a SyntaxSet, name: &str) -> (result: Option<
    &'a SyntaxReference,
>)
    ensures
        result matches Some(syntax) ==> syntax_in_set(*syntax, *syntax_set),
{
    syntax_set.find_syntax_by_name(name)
}

/// Relies on syntect::parsing::SyntaxSet::find_syntax_by_extension: a found
/// reference is borrowed from the set it was looked up in.
#[verifier::external_body]
pub(crate) fn find_syntax_by_extension_in<'a>(
    syntax_set: &'a SyntaxSet,
    extension: &str,
) -> (result: Option<&'a SyntaxReference>)
    ensures
        result matches Some(syntax) ==> syntax_in_set(*syntax, *syntax_set),
{
    syntax_set.find_syntax_by_extension(extension)
}

/// Relies on syntect::easy::HighlightLines::highlight_line: it tokenizes one
/// line into (style, text) ranges, and the concatenation of the range texts
/// makes the original line back exactly (so stated in its documentation).
/// Each range is handed on as a span of its style's foreground color and its
/// text; the whole outcome, `None` on an error, is the named
/// `highlight_result` of the four arguments. The pairing of `syntax` and
/// `syntax_set` is required because syntect documents a mismatched pair as
/// wrong results or a panic.
#[verifier::external_body]
pub(crate) fn highlight_line_spans(
    line: &str,
    syntax: &SyntaxReference,
    theme: &Theme,
    syntax_set: &SyntaxSet,
) -> (result: Result<Vec<StyledSpan>, syntect::Error>)
    requires
        syntax_in_set(*syntax, *syntax_set),
    ensures
        result matches Ok(spans) ==> highlight_result(line@, *syntax, *theme, *syntax_set)
            == Some(spans@),
        result is Err ==> highlight_result(line@, *syntax, *theme, *syntax_set) is None,
        result matches Ok(spans) ==> spans_text(spans@) == line@,
{
    let mut highlighter = HighlightLines::new(syntax, theme);
    match highlighter.highlight_line(line, syntax_set) {
        Ok(ranges) => Ok(ranges.into_iter().map(|(style, text)| {
            let f = style.foreground;
            StyledSpan { fg: Color { r: f.r, g: f.g, b: f.b, a: f.a }, text: text.to_string() }
        }).collect()),
        Err(e) => Err(e),
    }
}

} // verus!
