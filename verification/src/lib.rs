//! Diff-aware line painter: renders lines of text with syntax-aware
//! foreground colors and a diff-aware background tint, as true-color
//! ANSI escape sequences.

pub mod ansi;
pub mod color;
pub mod config;
pub mod paint;
pub mod syntect_api;

pub use color::Color;
pub use config::{dark_theme_names, get_config, is_dark_theme, Config};
pub use paint::{pad_line, paint, paint_line, paint_ranges, PaintError, StyledSpan};
