//! The line painter: merges foreground token spans with one optional
//! background color into an escape-coded rendering of a line.

use vstd::prelude::*;
use syntect::parsing::SyntaxReference;
use crate::ansi::{
    bg_escape, fg_escape, reset_escape, push_bg_escape, push_fg_escape, push_reset_escape,
    visible_chars_from, esc_char, lemma_visible_plain, lemma_visible_bg_escape,
    lemma_visible_fg_escape, lemma_visible_reset_escape,
};
use crate::color::Color;
use crate::config::Config;
use crate::syntect_api::{highlight_line_spans, highlight_result, syntax_in_set};

verus! {

use vstd::string::StringExecFns;
use vstd::string::StrSliceExecFns;

/// A contiguous substring of a line paired with the foreground color to
/// apply to it, as handed back by the tokenization engine.
#[derive(Debug)]
pub struct StyledSpan {
    pub fg: Color,
    pub text: String,
}

/// The text of a sequence of spans, in order.
pub open spec fn spans_text(spans: Seq<StyledSpan>) -> Seq<char>
    decreases spans.len(),
{
    if spans.len() == 0 {
        Seq::empty()
    } else {
        spans[0].text@ + spans_text(spans.skip(1))
    }
}

/// What one paint step appends: the background escape if a background color
/// is given, the foreground escape if a foreground color is given, the text,
/// with an extra reset after each escape when `reset` is set.
pub open spec fn paint_chars(
    text: Seq<char>,
    foreground_color: Option<Color>,
    background_color: Option<Color>,
    reset_color: bool,
) -> Seq<char> {
    (match background_color {
        Some(b) => bg_escape(b) + if reset_color {
            reset_escape()
        } else {
            Seq::empty()
        },
        None => Seq::empty(),
    }) + (match foreground_color {
        Some(f) => fg_escape(f) + text + if reset_color {
            reset_escape()
        } else {
            Seq::empty()
        },
        None => text,
    })
}

/// The escape-coded body for a sequence of spans: for each span in order,
/// a fresh background escape (when one is selected), its foreground escape,
/// then its text.
pub open spec fn rendered_spans(spans: Seq<StyledSpan>, background_color: Option<Color>) -> Seq<
    char,
>
    decreases spans.len(),
{
    if spans.len() == 0 {
        Seq::empty()
    } else {
        paint_chars(spans[0].text@, Some(spans[0].fg), background_color, false) + rendered_spans(
            spans.skip(1),
            background_color,
        )
    }
}

/// The whole rendering of a line's spans: the body, closed by one reset.
pub open spec fn rendered_line(spans: Seq<StyledSpan>, background_color: Option<Color>) -> Seq<
    char,
> {
    rendered_spans(spans, background_color) + reset_escape()
}

/// No character of `s` is the escape character.
pub open spec fn plain_text(s: Seq<char>) -> bool {
    forall|i: int| 0 <= i < s.len() ==> s[i] != esc_char()
}

/// No span's text contains the escape character.
pub open spec fn spans_plain(spans: Seq<StyledSpan>) -> bool {
    forall|i: int, j: int|
        0 <= i < spans.len() && 0 <= j < spans[i].text@.len() ==> #[trigger] spans[i].text@[j]
            != esc_char()
}

/// Spans whose concatenated text is free of the escape character are free of
/// it span by span.
proof fn lemma_spans_of_plain_text(spans: Seq<StyledSpan>)
    requires
        plain_text(spans_text(spans)),
    ensures
        spans_plain(spans),
    decreases spans.len(),
{
    if spans.len() > 0 {
        let t0 = spans[0].text@;
        let rest = spans_text(spans.skip(1));
        assert(spans_text(spans) == t0 + rest);
        assert(plain_text(rest)) by {
            assert(forall|k: int| 0 <= k < rest.len() ==> rest[k] == (t0 + rest)[t0.len() + k]);
        }
        lemma_spans_of_plain_text(spans.skip(1));
        assert forall|i: int, j: int|
            0 <= i < spans.len() && 0 <= j < spans[i].text@.len() implies #[trigger] spans[i].text@[j]
            != esc_char() by {
            if i == 0 {
                assert(spans[0].text@[j] == (t0 + rest)[j]);
            } else {
                assert(spans.skip(1)[i - 1] == spans[i]);
            }
        }
    }
}

proof fn lemma_visible_rendered_spans(
    spans: Seq<StyledSpan>,
    background_color: Option<Color>,
    rest: Seq<char>,
)
    requires
        spans_plain(spans),
    ensures
        visible_chars_from(rendered_spans(spans, background_color) + rest, false) == spans_text(
            spans,
        ) + visible_chars_from(rest, false),
    decreases spans.len(),
{
    if spans.len() == 0 {
        assert(rendered_spans(spans, background_color) + rest =~= rest);
        assert(spans_text(spans) + visible_chars_from(rest, false) =~= visible_chars_from(
            rest,
            false,
        ));
    } else {
        let t0 = spans[0].text@;
        let f0 = spans[0].fg;
        let tail = spans.skip(1);
        let tail_then_rest = rendered_spans(tail, background_color) + rest;
        assert(spans_plain(tail)) by {
            assert(forall|i: int, j: int|
                0 <= i < tail.len() && 0 <= j < tail[i].text@.len() ==> #[trigger] tail[i].text@[j]
                    == spans[i + 1].text@[j]);
        }
        lemma_visible_plain(t0, tail_then_rest);
        lemma_visible_fg_escape(f0, t0 + tail_then_rest);
        lemma_visible_rendered_spans(tail, background_color, rest);
        match background_color {
            Some(b) => {
                lemma_visible_bg_escape(b, fg_escape(f0) + (t0 + tail_then_rest));
                assert(rendered_spans(spans, background_color) + rest =~= bg_escape(b) + (
                fg_escape(f0) + (t0 + tail_then_rest)));
            },
            None => {
                assert(rendered_spans(spans, background_color) + rest =~= fg_escape(f0) + (t0
                    + tail_then_rest));
            },
        }
        assert(spans_text(spans) + visible_chars_from(rest, false) =~= t0 + (spans_text(tail)
            + visible_chars_from(rest, false)));
    }
}

/// The round-trip law of the escape emission: stripping all escape sequences
/// from the rendering of a sequence of spans, with or without a background
/// color, gives back exactly the spans' text — provided no span's text holds
/// the escape character itself.
pub proof fn lemma_visible_rendered_line(spans: Seq<StyledSpan>, background_color: Option<Color>)
    requires
        spans_plain(spans),
    ensures
        visible_chars_from(rendered_line(spans, background_color), false) == spans_text(spans),
{
    lemma_visible_rendered_spans(spans, background_color, reset_escape());
    assert(reset_escape() + Seq::<char>::empty() =~= reset_escape());
    lemma_visible_reset_escape(Seq::<char>::empty());
    assert(visible_chars_from(Seq::<char>::empty(), false) == Seq::<char>::empty());
    assert(spans_text(spans) + Seq::<char>::empty() =~= spans_text(spans));
}

/// Writes `text` to `buf` with color escape codes applied.
pub fn paint(
    text: &str,
    foreground_color: Option<Color>,
    background_color: Option<Color>,
    reset_color: bool,
    buf: &mut String,
)
    ensures
        final(buf)@ == old(buf)@ + paint_chars(
            text@,
            foreground_color,
            background_color,
            reset_color,
        ),
{
    match background_color {
        Some(b) => {
            push_bg_escape(buf, b);
            if reset_color {
                push_reset_escape(buf);
            }
        },
        None => (),
    }
    match foreground_color {
        Some(f) => {
            push_fg_escape(buf, f);
            buf.append(text);
            if reset_color {
                push_reset_escape(buf);
            }
        },
        None => {
            buf.append(text);
        },
    }
    proof {
        assert(final(buf)@ =~= old(buf)@ + paint_chars(
            text@,
            foreground_color,
            background_color,
            reset_color,
        ));
    }
}

proof fn lemma_rendered_spans_push(
    spans: Seq<StyledSpan>,
    span: StyledSpan,
    background_color: Option<Color>,
)
    ensures
        rendered_spans(spans.push(span), background_color) == rendered_spans(
            spans,
            background_color,
        ) + paint_chars(span.text@, Some(span.fg), background_color, false),
    decreases spans.len(),
{
    if spans.len() == 0 {
        assert(spans.push(span)[0] == span);
        assert(spans.push(span).skip(1) =~= Seq::<StyledSpan>::empty());
        assert(rendered_spans(Seq::<StyledSpan>::empty(), background_color) == Seq::<
            char,
        >::empty());
        assert(rendered_spans(spans.push(span), background_color) =~= rendered_spans(
            spans,
            background_color,
        ) + paint_chars(span.text@, Some(span.fg), background_color, false));
    } else {
        assert(spans.push(span)[0] == spans[0]);
        assert(spans.push(span).skip(1) =~= spans.skip(1).push(span));
        lemma_rendered_spans_push(spans.skip(1), span, background_color);
        assert(rendered_spans(spans.push(span), background_color) =~= rendered_spans(
            spans,
            background_color,
        ) + paint_chars(span.text@, Some(span.fg), background_color, false));
    }
}

/// Writes each span's text to `buf` with color escape codes applied, closing
/// with a single reset.
pub fn paint_ranges(
    foreground_style_ranges: &Vec<StyledSpan>,
    background_color: Option<Color>,
    buf: &mut String,
)
    ensures
        final(buf)@ == old(buf)@ + rendered_line(foreground_style_ranges@, background_color),
{
    let ghost spans = foreground_style_ranges@;
    let mut i: usize = 0;
    while i < foreground_style_ranges.len()
        invariant
            0 <= i <= spans.len(),
            foreground_style_ranges@ == spans,
            buf@ == old(buf)@ + rendered_spans(spans.take(i as int), background_color),
        decreases spans.len() - i,
    {
        let span = &foreground_style_ranges[i];
        paint(span.text.as_str(), Some(span.fg), background_color, false, buf);
        proof {
            assert(spans.take(i + 1 as int) =~= spans.take(i as int).push(spans[i as int]));
            lemma_rendered_spans_push(spans.take(i as int), spans[i as int], background_color);
        }
        i = i + 1;
    }
    proof {
        assert(spans.take(spans.len() as int) =~= spans);
    }
    push_reset_escape(buf);
}

/// A line carries a diff marker iff its first character is `+` or `-`.
pub open spec fn has_diff_marker(line: Seq<char>) -> bool {
    line.len() > 0 && (line[0] == '+' || line[0] == '-')
}

/// The line with its diff marker, if any, removed.
pub open spec fn stripped_line(line: Seq<char>) -> Seq<char> {
    if has_diff_marker(line) {
        line.skip(1)
    } else {
        line
    }
}

/// The one literal space that replaces a consumed diff marker; empty when
/// the line carries none.
pub open spec fn marker_space(line: Seq<char>) -> Seq<char> {
    if has_diff_marker(line) {
        seq![' ']
    } else {
        Seq::empty()
    }
}

/// The background color a line selects: the plus tint behind a leading `+`,
/// the minus tint behind a leading `-`, none otherwise.
pub open spec fn line_background(line: Seq<char>, plus_color: Color, minus_color: Color) -> Option<
    Color,
> {
    if line.len() > 0 && line[0] == '+' {
        Some(plus_color)
    } else if line.len() > 0 && line[0] == '-' {
        Some(minus_color)
    } else {
        None
    }
}

/// A line that starts with neither `+` nor `-` never selects a background
/// color.
pub proof fn lemma_no_marker_no_background(line: Seq<char>, plus_color: Color, minus_color: Color)
    requires
        !has_diff_marker(line),
    ensures
        line_background(line, plus_color, minus_color) is None,
        stripped_line(line) == line,
        marker_space(line) == Seq::<char>::empty(),
{
}

/// A line that starts with `+` selects the plus tint as its background, and
/// what is padded and tokenized is the line minus that first character.
pub proof fn lemma_plus_marker(line: Seq<char>, plus_color: Color, minus_color: Color)
    requires
        line.len() > 0,
        line[0] == '+',
    ensures
        line_background(line, plus_color, minus_color) == Some(plus_color),
        stripped_line(line) == line.skip(1),
        marker_space(line) == seq![' '],
{
}

/// A line that starts with `-` selects the minus tint as its background, and
/// what is padded and tokenized is the line minus that first character.
pub proof fn lemma_minus_marker(line: Seq<char>, plus_color: Color, minus_color: Color)
    requires
        line.len() > 0,
        line[0] == '-',
    ensures
        line_background(line, plus_color, minus_color) == Some(minus_color),
        stripped_line(line) == line.skip(1),
        marker_space(line) == seq![' '],
{
}

/// `n` space characters.
pub open spec fn space_padding(n: nat) -> Seq<char> {
    Seq::new(n, |i: int| ' ')
}

/// The line padded on the right with spaces up to `width` characters; a line
/// already at or beyond the width, or an absent width, leaves it unchanged.
pub open spec fn padded_line(line: Seq<char>, width: Option<usize>) -> Seq<char> {
    match width {
        Some(w) => if line.len() >= w {
            line
        } else {
            line + space_padding((w - line.len()) as nat)
        },
        None => line,
    }
}

/// Padding never truncates: a line already at or beyond the width is left
/// exactly as it is; a shorter line gains exactly the missing number of
/// spaces; an absent width changes nothing.
pub proof fn lemma_padding_idempotent(line: Seq<char>, width: usize)
    ensures
        line.len() >= width ==> padded_line(line, Some(width)) == line,
        line.len() < width ==> padded_line(line, Some(width)) == line + space_padding(
            (width - line.len()) as nat,
        ) && padded_line(line, Some(width)).len() == width,
        padded_line(line, None) == line,
{
}

/// Pads `line` on the right with spaces to exactly `width` characters; never
/// truncates, and an absent width changes nothing.
pub fn pad_line(line: String, width: Option<usize>) -> (padded: String)
    ensures
        padded@ == padded_line(line@, width),
{
    let ghost original = line@;
    match width {
        Some(w) => {
            let mut s = line;
            let mut n = s.as_str().unicode_len();
            if n >= w {
                return s;
            }
            while n < w
                invariant
                    original.len() <= n <= w,
                    n == s@.len(),
                    s@ == original + space_padding((n - original.len()) as nat),
                decreases w - n,
            {
                s.append(" ");
                proof {
                    reveal_strlit(" ");
                    assert(" "@ =~= seq![' ']);
                    assert(original + space_padding((n + 1 - original.len()) as nat) =~= (original
                        + space_padding((n - original.len()) as nat)) + seq![' ']);
                }
                n = n + 1;
            }
            proof {
                assert(s@ =~= padded_line(original, width));
            }
            s
        },
        None => line,
    }
}

/// The round trip of a whole rendered output: stripping all escape
/// sequences from what is emitted for a line — the marker-replacement space,
/// then the rendered spans — gives back exactly that space and the spans'
/// text. With no width configured the spans' text is the marker-stripped
/// line itself.
pub proof fn lemma_round_trip_visible(
    line: Seq<char>,
    spans: Seq<StyledSpan>,
    background_color: Option<Color>,
)
    requires
        spans_plain(spans),
    ensures
        visible_chars_from(marker_space(line) + rendered_line(spans, background_color), false)
            == marker_space(line) + spans_text(spans),
{
    lemma_visible_plain(marker_space(line), rendered_line(spans, background_color));
    lemma_visible_rendered_line(spans, background_color);
}

/// Every rendered output — with or without a marker, spans or background —
/// ends with the literal reset escape.
pub proof fn lemma_output_ends_with_reset(
    line: Seq<char>,
    spans: Seq<StyledSpan>,
    background_color: Option<Color>,
)
    ensures
        (marker_space(line) + rendered_line(spans, background_color)).len() >= 4,
        (marker_space(line) + rendered_line(spans, background_color)).skip(
            (marker_space(line) + rendered_line(spans, background_color)).len() - 4,
        ) == reset_escape(),
{
    let out = marker_space(line) + rendered_line(spans, background_color);
    assert(out.skip(out.len() - 4) =~= reset_escape());
}

/// The way a rendering can fail: the tokenization engine refused the line.
#[derive(Debug, PartialEq, Eq, Structural)]
pub enum PaintError {
    Highlight,
}

/// Writes `line` to `buf` with color escape codes applied: a leading diff
/// marker is consumed, selecting the matching background tint and leaving
/// one uncolored space; the rest is padded to the configured width,
/// tokenized, and emitted span by span, closed by one reset escape. It
/// succeeds exactly when the tokenization engine does, the spans it emits
/// are the engine's result for the padded marker-stripped line, and on a
/// tokenization failure nothing is appended. The grammar must come from the
/// configuration's own grammar set (its lookup methods establish that).
pub fn paint_line(
    line: String,
    syntax: &SyntaxReference,
    config: &Config,
    buf: &mut String,
) -> (result: Result<(), PaintError>)
    requires
        syntax_in_set(*syntax, config.syntax_set),
    ensures
        ({
            let padded = padded_line(stripped_line(line@), config.width);
            let outcome = highlight_result(padded, *syntax, *config.theme, config.syntax_set);
            &&& (result is Ok <==> outcome is Some)
            &&& result is Ok ==> spans_text(outcome.unwrap()) == padded && final(buf)@ == old(
                buf,
            )@ + marker_space(line@) + rendered_line(
                outcome.unwrap(),
                line_background(line@, config.plus_color, config.minus_color),
            )
        }),
        result is Ok ==> final(buf)@.len() >= old(buf)@.len() + 4 && final(buf)@.skip(
            final(buf)@.len() - 4,
        ) == reset_escape(),
        result is Ok && plain_text(line@) ==> visible_chars_from(
            final(buf)@.skip(old(buf)@.len() as int),
            false,
        ) == marker_space(line@) + padded_line(stripped_line(line@), config.width),
        result is Err ==> final(buf)@ == old(buf)@,
{
    let ghost original = line@;
    let len = line.as_str().unicode_len();
    let first_plus = len > 0 && line.as_str().get_char(0) == '+';
    let first_minus = !first_plus && len > 0 && line.as_str().get_char(0) == '-';
    let has_marker = first_plus || first_minus;
    let background_color: Option<Color> = if first_plus {
        Some(config.plus_color)
    } else if first_minus {
        Some(config.minus_color)
    } else {
        None
    };
    let stripped = if has_marker {
        String::from_str(line.as_str().substring_char(1, len))
    } else {
        line
    };
    proof {
        assert(original.subrange(1, original.len() as int) =~= original.skip(1));
        assert(stripped@ == stripped_line(original));
        assert(background_color == line_background(
            original,
            config.plus_color,
            config.minus_color,
        ));
    }
    let padded = pad_line(stripped, config.width);
    match highlight_line_spans(padded.as_str(), syntax, config.theme, &config.syntax_set) {
        Ok(spans) => {
            if has_marker {
                buf.append(" ");
            }
            paint_ranges(&spans, background_color, buf);
            proof {
                reveal_strlit(" ");
                assert(" "@ =~= seq![' ']);
                assert(spans_text(spans@) == padded_line(stripped_line(original), config.width));
                let bg = line_background(original, config.plus_color, config.minus_color);
                let out = marker_space(original) + rendered_line(spans@, bg);
                assert(buf@ =~= old(buf)@ + out);
                lemma_output_ends_with_reset(original, spans@, bg);
                assert(buf@.skip(buf@.len() - 4) =~= out.skip(out.len() - 4));
                assert(buf@.skip(old(buf)@.len() as int) =~= out);
                if plain_text(original) {
                    let stripped_spec = stripped_line(original);
                    let padded_spec = padded_line(stripped_spec, config.width);
                    assert(plain_text(stripped_spec)) by {
                        if has_diff_marker(original) {
                            assert(forall|i: int|
                                0 <= i < stripped_spec.len() ==> stripped_spec[i] == original[i
                                    + 1]);
                        }
                    }
                    assert(plain_text(padded_spec)) by {
                        assert(forall|i: int|
                            stripped_spec.len() <= i < padded_spec.len() ==> padded_spec[i]
                                == ' ');
                        assert(forall|i: int|
                            0 <= i < stripped_spec.len() ==> padded_spec[i] == stripped_spec[i]);
                    }
                    lemma_spans_of_plain_text(spans@);
                    lemma_round_trip_visible(original, spans@, bg);
                }
            }
            Ok(())
        },
        Err(_) => Err(PaintError::Highlight),
    }
}

} // verus!
