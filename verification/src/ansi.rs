//! Emission of SGR true-color escape sequences, and the model of what a
//! terminal keeps as visible text once all escape sequences are stripped.

use vstd::prelude::*;
use crate::color::Color;

verus! {

use vstd::string::StringExecFns;

/// The escape character that opens every SGR sequence.
pub open spec fn esc_char() -> char {
    '\u{1b}'
}

/// The decimal digit character for `d` (`d < 10`).
pub open spec fn digit_char(d: nat) -> char {
    if d == 0 {
        '0'
    } else if d == 1 {
        '1'
    } else if d == 2 {
        '2'
    } else if d == 3 {
        '3'
    } else if d == 4 {
        '4'
    } else if d == 5 {
        '5'
    } else if d == 6 {
        '6'
    } else if d == 7 {
        '7'
    } else if d == 8 {
        '8'
    } else {
        '9'
    }
}

/// The decimal digits of `n`, most significant first, no leading zeros.
pub open spec fn decimal_chars(n: nat) -> Seq<char>
    decreases n,
{
    if n < 10 {
        seq![digit_char(n)]
    } else {
        decimal_chars(n / 10).push(digit_char(n % 10))
    }
}

pub open spec fn is_digit_char(c: char) -> bool {
    c == '0' || c == '1' || c == '2' || c == '3' || c == '4' || c == '5' || c == '6' || c == '7'
        || c == '8' || c == '9'
}

pub proof fn lemma_decimal_chars_are_digits(n: nat)
    ensures
        decimal_chars(n).len() >= 1,
        forall|i: int| 0 <= i < decimal_chars(n).len() ==> is_digit_char(#[trigger] decimal_chars(n)[i]),
    decreases n,
{
    if n < 10 {
    } else {
        lemma_decimal_chars_are_digits(n / 10);
    }
}

fn digit_str(d: u8) -> (s: &'static str)
    requires
        d < 10,
    ensures
        s@ == seq![digit_char(d as nat)],
{
    match d {
        0 => {
            proof {
                reveal_strlit("0");
                assert("0"@ =~= seq![digit_char(0)]);
            }
            "0"
        },
        1 => {
            proof {
                reveal_strlit("1");
                assert("1"@ =~= seq![digit_char(1)]);
            }
            "1"
        },
        2 => {
            proof {
                reveal_strlit("2");
                assert("2"@ =~= seq![digit_char(2)]);
            }
            "2"
        },
        3 => {
            proof {
                reveal_strlit("3");
                assert("3"@ =~= seq![digit_char(3)]);
            }
            "3"
        },
        4 => {
            proof {
                reveal_strlit("4");
                assert("4"@ =~= seq![digit_char(4)]);
            }
            "4"
        },
        5 => {
            proof {
                reveal_strlit("5");
                assert("5"@ =~= seq![digit_char(5)]);
            }
            "5"
        },
        6 => {
            proof {
                reveal_strlit("6");
                assert("6"@ =~= seq![digit_char(6)]);
            }
            "6"
        },
        7 => {
            proof {
                reveal_strlit("7");
                assert("7"@ =~= seq![digit_char(7)]);
            }
            "7"
        },
        8 => {
            proof {
                reveal_strlit("8");
                assert("8"@ =~= seq![digit_char(8)]);
            }
            "8"
        },
        _ => {
            proof {
                reveal_strlit("9");
                assert("9"@ =~= seq![digit_char(9)]);
            }
            "9"
        },
    }
}

/// Appends the decimal representation of `n` to `buf`.
pub fn push_decimal(buf: &mut String, n: u8)
    ensures
        final(buf)@ == old(buf)@ + decimal_chars(n as nat),
{
    if n >= 100 {
        buf.append(digit_str(n / 100));
        buf.append(digit_str((n / 10) % 10));
        buf.append(digit_str(n % 10));
        proof {
            assert(decimal_chars(n as nat / 100) =~= seq![digit_char(n as nat / 100)]);
            assert(decimal_chars(n as nat / 10) =~= decimal_chars(n as nat / 100).push(
                digit_char((n as nat / 10) % 10),
            ));
            assert(decimal_chars(n as nat) =~= decimal_chars(n as nat / 10).push(
                digit_char(n as nat % 10),
            ));
            assert(final(buf)@ =~= old(buf)@ + decimal_chars(n as nat));
        }
    } else if n >= 10 {
        buf.append(digit_str(n / 10));
        buf.append(digit_str(n % 10));
        proof {
            assert(decimal_chars(n as nat / 10) =~= seq![digit_char(n as nat / 10)]);
            assert(decimal_chars(n as nat) =~= decimal_chars(n as nat / 10).push(
                digit_char(n as nat % 10),
            ));
            assert(final(buf)@ =~= old(buf)@ + decimal_chars(n as nat));
        }
    } else {
        buf.append(digit_str(n));
        proof {
            assert(final(buf)@ =~= old(buf)@ + decimal_chars(n as nat));
        }
    }
}

/// The opening characters of a background escape, `ESC[48;2;`.
pub open spec fn bg_intro() -> Seq<char> {
    seq![esc_char(), '[', '4', '8', ';', '2', ';']
}

/// The opening characters of a foreground escape, `ESC[38;2;`.
pub open spec fn fg_intro() -> Seq<char> {
    seq![esc_char(), '[', '3', '8', ';', '2', ';']
}

/// A background escape without its closing `m`.
pub open spec fn bg_escape_core(c: Color) -> Seq<char> {
    bg_intro() + decimal_chars(c.r as nat) + seq![';'] + decimal_chars(c.g as nat) + seq![';']
        + decimal_chars(c.b as nat)
}

/// A foreground escape without its closing `m`.
pub open spec fn fg_escape_core(c: Color) -> Seq<char> {
    fg_intro() + decimal_chars(c.r as nat) + seq![';'] + decimal_chars(c.g as nat) + seq![';']
        + decimal_chars(c.b as nat)
}

/// The full background escape `ESC[48;2;R;G;Bm` for color `c`.
pub open spec fn bg_escape(c: Color) -> Seq<char> {
    bg_escape_core(c).push('m')
}

/// The full foreground escape `ESC[38;2;R;G;Bm` for color `c`.
pub open spec fn fg_escape(c: Color) -> Seq<char> {
    fg_escape_core(c).push('m')
}

/// The full reset escape `ESC[0m`.
pub open spec fn reset_escape() -> Seq<char> {
    seq![esc_char(), '[', '0', 'm']
}

/// Appends the background escape for `c` to `buf`.
pub fn push_bg_escape(buf: &mut String, c: Color)
    ensures
        final(buf)@ == old(buf)@ + bg_escape(c),
{
    buf.append("\x1b[48;2;");
    push_decimal(buf, c.r);
    buf.append(";");
    push_decimal(buf, c.g);
    buf.append(";");
    push_decimal(buf, c.b);
    buf.append("m");
    proof {
        reveal_strlit("\x1b[48;2;");
        reveal_strlit(";");
        reveal_strlit("m");
        assert("\x1b[48;2;"@ =~= bg_intro());
        assert(";"@ =~= seq![';']);
        assert("m"@ =~= seq!['m']);
        assert(final(buf)@ =~= old(buf)@ + bg_escape(c));
    }
}

/// Appends the foreground escape for `c` to `buf`.
pub fn push_fg_escape(buf: &mut String, c: Color)
    ensures
        final(buf)@ == old(buf)@ + fg_escape(c),
{
    buf.append("\x1b[38;2;");
    push_decimal(buf, c.r);
    buf.append(";");
    push_decimal(buf, c.g);
    buf.append(";");
    push_decimal(buf, c.b);
    buf.append("m");
    proof {
        reveal_strlit("\x1b[38;2;");
        reveal_strlit(";");
        reveal_strlit("m");
        assert("\x1b[38;2;"@ =~= fg_intro());
        assert(";"@ =~= seq![';']);
        assert("m"@ =~= seq!['m']);
        assert(final(buf)@ =~= old(buf)@ + fg_escape(c));
    }
}

/// Appends the reset escape to `buf`.
pub fn push_reset_escape(buf: &mut String)
    ensures
        final(buf)@ == old(buf)@ + reset_escape(),
{
    buf.append("\x1b[0m");
    proof {
        reveal_strlit("\x1b[0m");
        assert("\x1b[0m"@ =~= reset_escape());
        assert(final(buf)@ =~= old(buf)@ + reset_escape());
    }
}

/// The text a terminal keeps of `s`: every escape sequence, from an escape
/// character to the next `m` inclusive, is dropped. `in_escape` says whether
/// an escape sequence is open when `s` begins.
pub open spec fn visible_chars_from(s: Seq<char>, in_escape: bool) -> Seq<char>
    decreases s.len(),
{
    if s.len() == 0 {
        Seq::empty()
    } else if in_escape {
        if s[0] == 'm' {
            visible_chars_from(s.skip(1), false)
        } else {
            visible_chars_from(s.skip(1), true)
        }
    } else if s[0] == esc_char() {
        visible_chars_from(s.skip(1), true)
    } else {
        seq![s[0]] + visible_chars_from(s.skip(1), false)
    }
}

/// The text a terminal keeps of `s` once all escape sequences are stripped.
pub open spec fn visible_chars(s: Seq<char>) -> Seq<char> {
    visible_chars_from(s, false)
}

/// A text with no escape character is kept whole.
pub proof fn lemma_visible_plain(t: Seq<char>, rest: Seq<char>)
    requires
        forall|i: int| 0 <= i < t.len() ==> t[i] != esc_char(),
    ensures
        visible_chars_from(t + rest, false) == t + visible_chars_from(rest, false),
    decreases t.len(),
{
    if t.len() == 0 {
        assert(t + rest =~= rest);
        assert(t + visible_chars_from(rest, false) =~= visible_chars_from(rest, false));
    } else {
        assert((t + rest)[0] == t[0]);
        assert((t + rest).skip(1) =~= t.skip(1) + rest);
        lemma_visible_plain(t.skip(1), rest);
        assert(seq![t[0]] + (t.skip(1) + visible_chars_from(rest, false)) =~= t
            + visible_chars_from(rest, false));
    }
}

/// Inside an open escape sequence, everything up to and including the first
/// `m` is dropped.
proof fn lemma_visible_escape_tail(e: Seq<char>, rest: Seq<char>)
    requires
        e.len() >= 1,
        e[e.len() - 1] == 'm',
        forall|i: int| 0 <= i < e.len() - 1 ==> e[i] != 'm',
    ensures
        visible_chars_from(e + rest, true) == visible_chars_from(rest, false),
    decreases e.len(),
{
    if e.len() == 1 {
        assert((e + rest)[0] == 'm');
        assert((e + rest).skip(1) =~= rest);
    } else {
        assert((e + rest)[0] == e[0]);
        assert(e[0] != 'm');
        assert((e + rest).skip(1) =~= e.skip(1) + rest);
        assert(e.skip(1)[e.skip(1).len() - 1] == 'm');
        lemma_visible_escape_tail(e.skip(1), rest);
    }
}

/// A whole escape sequence — escape character, a body free of `m`, a closing
/// `m` — leaves no visible text.
pub proof fn lemma_visible_escape(e: Seq<char>, rest: Seq<char>)
    requires
        e.len() >= 2,
        e[0] == esc_char(),
        e[e.len() - 1] == 'm',
        forall|i: int| 1 <= i < e.len() - 1 ==> e[i] != 'm',
    ensures
        visible_chars_from(e + rest, false) == visible_chars_from(rest, false),
{
    assert((e + rest)[0] == esc_char());
    assert((e + rest).skip(1) =~= e.skip(1) + rest);
    assert(e.skip(1)[e.skip(1).len() - 1] == 'm');
    lemma_visible_escape_tail(e.skip(1), rest);
}

/// No character of `s` is the closing `m`.
pub open spec fn free_of_m(s: Seq<char>) -> bool {
    forall|i: int| 0 <= i < s.len() ==> s[i] != 'm'
}

proof fn lemma_decimal_free_of_m(n: nat)
    ensures
        free_of_m(decimal_chars(n)),
{
    lemma_decimal_chars_are_digits(n);
    assert forall|i: int| 0 <= i < decimal_chars(n).len() implies decimal_chars(n)[i]
        != 'm' by {
        assert(is_digit_char(decimal_chars(n)[i]));
    }
}

proof fn lemma_escape_core_free_of_m(c: Color)
    ensures
        free_of_m(bg_escape_core(c)),
        free_of_m(fg_escape_core(c)),
        bg_escape_core(c).len() >= 2,
        fg_escape_core(c).len() >= 2,
        bg_escape_core(c)[0] == esc_char(),
        fg_escape_core(c)[0] == esc_char(),
{
    lemma_decimal_free_of_m(c.r as nat);
    lemma_decimal_free_of_m(c.g as nat);
    lemma_decimal_free_of_m(c.b as nat);
}

/// A background escape leaves no visible text.
pub proof fn lemma_visible_bg_escape(c: Color, rest: Seq<char>)
    ensures
        visible_chars_from(bg_escape(c) + rest, false) == visible_chars_from(rest, false),
{
    lemma_escape_core_free_of_m(c);
    lemma_visible_escape(bg_escape(c), rest);
}

/// A foreground escape leaves no visible text.
pub proof fn lemma_visible_fg_escape(c: Color, rest: Seq<char>)
    ensures
        visible_chars_from(fg_escape(c) + rest, false) == visible_chars_from(rest, false),
{
    lemma_escape_core_free_of_m(c);
    lemma_visible_escape(fg_escape(c), rest);
}

/// The reset escape leaves no visible text.
pub proof fn lemma_visible_reset_escape(rest: Seq<char>)
    ensures
        visible_chars_from(reset_escape() + rest, false) == visible_chars_from(rest, false),
{
    lemma_visible_escape(reset_escape(), rest);
}

} // verus!

