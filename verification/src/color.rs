//! The RGBA color value used for foreground and background tints.

use vstd::prelude::*;

verus! {

/// An RGB color with an alpha channel, each channel eight bits.
#[derive(Clone, Copy, Debug, PartialEq, Eq, Structural)]
pub struct Color {
    pub r: u8,
    pub g: u8,
    pub b: u8,
    pub a: u8,
}

} // verus!
