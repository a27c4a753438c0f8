use diffpaint::{dark_theme_names, get_config, is_dark_theme, Color};
use syntect::highlighting::ThemeSet;

fn some_theme() -> syntect::highlighting::Theme {
    let themes = ThemeSet::load_defaults();
    themes.themes["base16-ocean.dark"].clone()
}

#[test]
fn dark_theme_defaults() {
    let theme = some_theme();
    let name = String::from("Solarized (dark)");
    let config = get_config(&theme, &name, None, None, None);
    assert_eq!(config.plus_color, Color { r: 0x01, g: 0x3b, b: 0x01, a: 0xff });
    assert_eq!(config.minus_color, Color { r: 0x3f, g: 0x00, b: 0x01, a: 0xff });
    assert_eq!(config.width, None);
}

#[test]
fn light_theme_defaults() {
    let theme = some_theme();
    let name = String::from("Monokai");
    let config = get_config(&theme, &name, None, None, None);
    assert_eq!(config.plus_color, Color { r: 0xd0, g: 0xff, b: 0xd0, a: 0xff });
    assert_eq!(config.minus_color, Color { r: 0xff, g: 0xd0, b: 0xd0, a: 0xff });
}

#[test]
fn explicit_override_wins() {
    let theme = some_theme();
    let name = String::from("base16-ocean.dark");
    let custom = Color { r: 12, g: 34, b: 56, a: 0xff };
    let config = get_config(&theme, &name, Some(custom), None, None);
    assert_eq!(config.plus_color, custom);
    // The minus tint still falls back to the dark-theme default.
    assert_eq!(config.minus_color, Color { r: 0x3f, g: 0x00, b: 0x01, a: 0xff });
}

#[test]
fn both_overrides_win_on_light_theme() {
    let theme = some_theme();
    let name = String::from("InspiredGitHub");
    let plus = Color { r: 1, g: 2, b: 3, a: 4 };
    let minus = Color { r: 5, g: 6, b: 7, a: 8 };
    let config = get_config(&theme, &name, Some(plus), Some(minus), Some(80));
    assert_eq!(config.plus_color, plus);
    assert_eq!(config.minus_color, minus);
    assert_eq!(config.width, Some(80));
}

#[test]
fn dark_theme_name_list_is_exact() {
    let names = dark_theme_names();
    let expected = vec![
        "Solarized (dark)",
        "base16-eighties.dark",
        "base16-mocha.dark",
        "base16-ocean.dark",
    ];
    assert_eq!(names.len(), expected.len());
    for (name, want) in names.iter().zip(expected.iter()) {
        assert_eq!(name, want);
    }
    for name in names.iter() {
        assert!(is_dark_theme(name));
    }
}

#[test]
fn classification_is_exact_match_only() {
    assert!(!is_dark_theme(&String::from("Monokai")));
    assert!(!is_dark_theme(&String::from("solarized (dark)")));
    assert!(!is_dark_theme(&String::from("Solarized (dark) ")));
    assert!(!is_dark_theme(&String::from("base16-ocean")));
    assert!(!is_dark_theme(&String::from("")));
}
