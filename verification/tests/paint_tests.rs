use diffpaint::{get_config, pad_line, paint, paint_line, paint_ranges, Color, Config, StyledSpan};
use syntect::highlighting::{Theme, ThemeSet};

fn some_theme() -> Theme {
    let themes = ThemeSet::load_defaults();
    themes.themes["base16-ocean.dark"].clone()
}

fn strip_escapes(s: &str) -> String {
    let mut out = String::new();
    let mut in_escape = false;
    for c in s.chars() {
        if in_escape {
            if c == 'm' {
                in_escape = false;
            }
        } else if c == '\u{1b}' {
            in_escape = true;
        } else {
            out.push(c);
        }
    }
    out
}

fn render(line: &str, config: &Config) -> String {
    let syntax = config.plain_text_syntax().unwrap();
    let mut buf = String::new();
    let result = paint_line(line.to_string(), syntax, config, &mut buf);
    assert!(result.is_ok());
    buf
}

#[test]
fn no_marker_selects_no_background() {
    let theme = some_theme();
    let name = String::from("Monokai");
    let config = get_config(&theme, &name, None, None, None);
    for line in ["hello world", " + not a marker", "fn main() {}", ""] {
        let out = render(line, &config);
        assert!(!out.contains("[48;2;"));
    }
}

#[test]
fn plus_marker_selects_plus_background() {
    let theme = some_theme();
    let name = String::from("Monokai");
    let config = get_config(&theme, &name, None, None, None);
    let out = render("+added line", &config);
    // The resolved plus tint for a light theme, as a background escape.
    assert!(out.contains("\u{1b}[48;2;208;255;208m"));
    assert!(!out.contains("\u{1b}[48;2;255;208;208m"));
    assert_eq!(strip_escapes(&out), " added line");
}

#[test]
fn minus_marker_selects_minus_background() {
    let theme = some_theme();
    let name = String::from("Monokai");
    let config = get_config(&theme, &name, None, None, None);
    let out = render("-removed line", &config);
    assert!(out.contains("\u{1b}[48;2;255;208;208m"));
    assert!(!out.contains("\u{1b}[48;2;208;255;208m"));
    assert_eq!(strip_escapes(&out), " removed line");
}

#[test]
fn marker_replacement_space_is_uncolored() {
    let theme = some_theme();
    let name = String::from("Monokai");
    let config = get_config(&theme, &name, None, None, None);
    let out = render("+x", &config);
    // The literal space stands before any escape code and carries none.
    assert!(out.starts_with(" \u{1b}["));
}

#[test]
fn padding_pads_short_lines_only() {
    let theme = some_theme();
    let name = String::from("Monokai");
    let config = get_config(&theme, &name, None, None, Some(10));
    let out = render("abc", &config);
    assert_eq!(strip_escapes(&out), "abc       ");
    let config_narrow = get_config(&theme, &name, None, None, Some(2));
    let out_long = render("abcd", &config_narrow);
    assert_eq!(strip_escapes(&out_long), "abcd");
}

#[test]
fn padding_counts_the_stripped_line() {
    let theme = some_theme();
    let name = String::from("Monokai");
    let config = get_config(&theme, &name, None, None, Some(6));
    // The marker is stripped before padding, so "abc" gains three spaces,
    // and the marker-replacement space stands outside the padded text.
    let out = render("+abc", &config);
    assert_eq!(strip_escapes(&out), " abc   ");
}

#[test]
fn round_trip_without_width() {
    let theme = some_theme();
    let name = String::from("Monokai");
    let config = get_config(&theme, &name, None, None, None);
    let cases = [
        ("hello world", "hello world"),
        ("+added", " added"),
        ("-removed", " removed"),
        ("+", " "),
        ("", ""),
        ("let x = 1;", "let x = 1;"),
    ];
    for (line, visible) in cases {
        let out = render(line, &config);
        assert_eq!(strip_escapes(&out), visible);
    }
}

#[test]
fn width_none_leaves_length_unchanged() {
    let theme = some_theme();
    let name = String::from("Monokai");
    let config = get_config(&theme, &name, None, None, None);
    let out = render("some text", &config);
    assert_eq!(strip_escapes(&out).chars().count(), "some text".chars().count());
}

#[test]
fn every_rendering_ends_with_reset() {
    let theme = some_theme();
    let name = String::from("Monokai");
    let config = get_config(&theme, &name, None, None, None);
    for line in ["plain", "+plus", "-minus", ""] {
        let out = render(line, &config);
        assert!(out.ends_with("\u{1b}[0m"));
    }
}

#[test]
fn renders_with_a_real_grammar() {
    let theme = some_theme();
    let name = String::from("base16-ocean.dark");
    let config = get_config(&theme, &name, None, None, None);
    let syntax = config.syntax_for_extension("rs").unwrap();
    let mut buf = String::new();
    let result = paint_line("+fn main() {}".to_string(), syntax, &config, &mut buf);
    assert!(result.is_ok());
    assert_eq!(strip_escapes(&buf), " fn main() {}");
    assert!(buf.contains("\u{1b}[48;2;1;59;1m"));
    assert!(buf.contains("\u{1b}[38;2;"));
    assert!(buf.ends_with("\u{1b}[0m"));
}

#[test]
fn paint_emits_exact_escapes() {
    let mut buf = String::new();
    paint(
        "hi",
        Some(Color { r: 10, g: 20, b: 30, a: 255 }),
        Some(Color { r: 1, g: 2, b: 3, a: 255 }),
        false,
        &mut buf,
    );
    assert_eq!(buf, "\u{1b}[48;2;1;2;3m\u{1b}[38;2;10;20;30mhi");
}

#[test]
fn paint_without_background() {
    let mut buf = String::new();
    paint("text", Some(Color { r: 0, g: 100, b: 200, a: 255 }), None, false, &mut buf);
    assert_eq!(buf, "\u{1b}[38;2;0;100;200mtext");
}

#[test]
fn paint_without_foreground_writes_bare_text() {
    let mut buf = String::new();
    paint("bare", None, None, false, &mut buf);
    assert_eq!(buf, "bare");
}

#[test]
fn paint_with_reset_after_each_escape() {
    let mut buf = String::new();
    paint(
        "x",
        Some(Color { r: 4, g: 5, b: 6, a: 255 }),
        Some(Color { r: 7, g: 8, b: 9, a: 255 }),
        true,
        &mut buf,
    );
    assert_eq!(buf, "\u{1b}[48;2;7;8;9m\u{1b}[0m\u{1b}[38;2;4;5;6mx\u{1b}[0m");
}

#[test]
fn paint_ranges_re_emits_background_per_span() {
    let spans = vec![
        StyledSpan { fg: Color { r: 1, g: 1, b: 1, a: 255 }, text: String::from("ab") },
        StyledSpan { fg: Color { r: 2, g: 2, b: 2, a: 255 }, text: String::from("cd") },
    ];
    let mut buf = String::new();
    paint_ranges(&spans, Some(Color { r: 9, g: 9, b: 9, a: 255 }), &mut buf);
    assert_eq!(
        buf,
        "\u{1b}[48;2;9;9;9m\u{1b}[38;2;1;1;1mab\u{1b}[48;2;9;9;9m\u{1b}[38;2;2;2;2mcd\u{1b}[0m"
    );
}

#[test]
fn paint_ranges_empty_is_just_reset() {
    let spans: Vec<StyledSpan> = Vec::new();
    let mut buf = String::new();
    paint_ranges(&spans, None, &mut buf);
    assert_eq!(buf, "\u{1b}[0m");
}

#[test]
fn pad_line_pads_and_never_truncates() {
    assert_eq!(pad_line(String::from("ab"), Some(5)), "ab   ");
    assert_eq!(pad_line(String::from("abcdef"), Some(3)), "abcdef");
    assert_eq!(pad_line(String::from("abc"), Some(3)), "abc");
    assert_eq!(pad_line(String::from("ab"), None), "ab");
    assert_eq!(pad_line(String::new(), Some(2)), "  ");
}
