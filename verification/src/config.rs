//! The configuration resolver: classifies a theme as dark or light by its
//! display name and resolves the two diff background tints.

use vstd::prelude::*;
use syntect::highlighting::Theme;
use syntect::parsing::{SyntaxReference, SyntaxSet};
use crate::color::Color;
use crate::syntect_api::{
    find_syntax_by_extension_in, find_syntax_by_name_in, is_default_syntax_set,
    load_default_syntax_set, syntax_in_set,
};

verus! {

use vstd::string::StringExecFns;

/// The display names of the themes classified as dark, in order.
pub open spec fn dark_theme_name_list() -> Seq<Seq<char>> {
    seq![
        "Solarized (dark)"@,
        "base16-eighties.dark"@,
        "base16-mocha.dark"@,
        "base16-ocean.dark"@,
    ]
}

/// A theme is dark iff its display name exactly matches one of the known
/// dark-theme names.
pub open spec fn is_dark_theme_name(name: Seq<char>) -> bool {
    name == "Solarized (dark)"@ || name == "base16-eighties.dark"@ || name
        == "base16-mocha.dark"@ || name == "base16-ocean.dark"@
}

/// Dark-theme classification is exactly membership in the dark-theme name
/// list.
pub proof fn lemma_dark_theme_names_complete(name: Seq<char>)
    ensures
        is_dark_theme_name(name) <==> dark_theme_name_list().contains(name),
{
    if is_dark_theme_name(name) {
        if name == "Solarized (dark)"@ {
            assert(dark_theme_name_list()[0] == name);
        } else if name == "base16-eighties.dark"@ {
            assert(dark_theme_name_list()[1] == name);
        } else if name == "base16-mocha.dark"@ {
            assert(dark_theme_name_list()[2] == name);
        } else {
            assert(dark_theme_name_list()[3] == name);
        }
    }
}

/// The pale green used behind added lines on a light theme.
pub open spec fn light_theme_plus_color() -> Color {
    Color { r: 0xd0, g: 0xff, b: 0xd0, a: 0xff }
}

/// The pale red used behind removed lines on a light theme.
pub open spec fn light_theme_minus_color() -> Color {
    Color { r: 0xff, g: 0xd0, b: 0xd0, a: 0xff }
}

/// The near-black green used behind added lines on a dark theme.
pub open spec fn dark_theme_plus_color() -> Color {
    Color { r: 0x01, g: 0x3b, b: 0x01, a: 0xff }
}

/// The near-black red used behind removed lines on a dark theme.
pub open spec fn dark_theme_minus_color() -> Color {
    Color { r: 0x3f, g: 0x00, b: 0x01, a: 0xff }
}

/// The effective background tint for added lines: the explicit override when
/// one is given, else the theme-class default.
pub open spec fn resolved_plus_color(theme_name: Seq<char>, plus_color: Option<Color>) -> Color {
    match plus_color {
        Some(c) => c,
        None => if is_dark_theme_name(theme_name) {
            dark_theme_plus_color()
        } else {
            light_theme_plus_color()
        },
    }
}

/// The effective background tint for removed lines: the explicit override
/// when one is given, else the theme-class default.
pub open spec fn resolved_minus_color(theme_name: Seq<char>, minus_color: Option<Color>) -> Color {
    match minus_color {
        Some(c) => c,
        None => if is_dark_theme_name(theme_name) {
            dark_theme_minus_color()
        } else {
            light_theme_minus_color()
        },
    }
}

/// A resolved configuration: the active theme, the two background tints, the
/// loaded grammar set, and the optional target width.
pub struct Config<'a> {
    pub theme: &'a Theme,
    pub plus_color: Color,
    pub minus_color: Color,
    pub syntax_set: SyntaxSet,
    pub width: Option<usize>,
}

impl<'a> Config<'a> {
    /// The plain-text grammar from this configuration's own grammar set,
    /// paired with it for tokenization.
    pub fn plain_text_syntax(&self) -> (result: Option<&SyntaxReference>)
        ensures
            result matches Some(syntax) ==> syntax_in_set(*syntax, self.syntax_set),
    {
        find_syntax_by_name_in(&self.syntax_set, "Plain Text")
    }

    /// The grammar registered for a file extension in this configuration's
    /// own grammar set, paired with it for tokenization; `None` when the set
    /// knows no such extension.
    pub fn syntax_for_extension(&self, extension: &str) -> (result: Option<&SyntaxReference>)
        ensures
            result matches Some(syntax) ==> syntax_in_set(*syntax, self.syntax_set),
    {
        find_syntax_by_extension_in(&self.syntax_set, extension)
    }
}

fn string_eq_lit(s: &String, lit: &str) -> (r: bool)
    ensures
        r == (s@ == lit@),
{
    let other = String::from_str(lit);
    *s == other
}

/// Whether `theme_name` names one of the known dark themes.
pub fn is_dark_theme(theme_name: &String) -> (r: bool)
    ensures
        r == is_dark_theme_name(theme_name@),
{
    string_eq_lit(theme_name, "Solarized (dark)") || string_eq_lit(theme_name, "base16-eighties.dark")
        || string_eq_lit(theme_name, "base16-mocha.dark") || string_eq_lit(
        theme_name,
        "base16-ocean.dark",
    )
}

/// The display names of the known dark themes, as owned strings.
pub fn dark_theme_names() -> (names: Vec<String>)
    ensures
        names@.len() == dark_theme_name_list().len(),
        forall|i: int| 0 <= i < names@.len() ==> #[trigger] names@[i]@ == dark_theme_name_list()[i],
{
    let mut names: Vec<String> = Vec::new();
    names.push(String::from_str("Solarized (dark)"));
    names.push(String::from_str("base16-eighties.dark"));
    names.push(String::from_str("base16-mocha.dark"));
    names.push(String::from_str("base16-ocean.dark"));
    names
}

/// Resolves a configuration: classifies the theme by `theme_name`, settles
/// both background tints (an explicit override always wins over the
/// theme-class default), loads the default grammar set, and carries `width`
/// through unchanged.
pub fn get_config<'a>(
    theme: &'a Theme,
    theme_name: &'a String,
    plus_color: Option<Color>,
    minus_color: Option<Color>,
    width: Option<usize>,
) -> (config: Config<'a>)
    ensures
        config.theme == theme,
        config.plus_color == resolved_plus_color(theme_name@, plus_color),
        config.minus_color == resolved_minus_color(theme_name@, minus_color),
        config.width == width,
        is_default_syntax_set(config.syntax_set),
{
    let is_dark = is_dark_theme(theme_name);
    let plus = match plus_color {
        Some(c) => c,
        None => if is_dark {
            Color { r: 0x01, g: 0x3b, b: 0x01, a: 0xff }
        } else {
            Color { r: 0xd0, g: 0xff, b: 0xd0, a: 0xff }
        },
    };
    let minus = match minus_color {
        Some(c) => c,
        None => if is_dark {
            Color { r: 0x3f, g: 0x00, b: 0x01, a: 0xff }
        } else {
            Color { r: 0xff, g: 0xd0, b: 0xd0, a: 0xff }
        },
    };
    Config {
        theme,
        plus_color: plus,
        minus_color: minus,
        width,
        syntax_set: load_default_syntax_set(),
    }
}

} // verus!
