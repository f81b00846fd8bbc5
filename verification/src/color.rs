//! Colors as plain 8-bit-per-channel RGB triples.

use vstd::prelude::*;

verus! {

/// An RGB color with 8-bit channels, as written in `#rrggbb` color codes.
#[derive(Clone, Copy, PartialEq, Eq, Structural, Debug)]
pub struct Rgb {
    pub r: u8,
    pub g: u8,
    pub b: u8,
}

/// Default background color.
pub fn bg() -> (c: Rgb)
    ensures
        c == (Rgb { r: 0x1f, g: 0x24, b: 0x0a }),
{
    Rgb { r: 0x1f, g: 0x24, b: 0x0a }
}

/// Foreground color of the player glyph.
pub fn player_fg() -> (c: Rgb)
    ensures
        c == (Rgb { r: 0xef, g: 0xd8, b: 0xa1 }),
{
    Rgb { r: 0xef, g: 0xd8, b: 0xa1 }
}

/// Foreground color of walls in view.
pub fn wall_fg() -> (c: Rgb)
    ensures
        c == (Rgb { r: 0x3c, g: 0x9f, b: 0x9c }),
{
    Rgb { r: 0x3c, g: 0x9f, b: 0x9c }
}

/// Foreground color of walls remembered through the fog of war.
pub fn wall_fog_fg() -> (c: Rgb)
    ensures
        c == (Rgb { r: 0x39, g: 0x57, b: 0x1c }),
{
    Rgb { r: 0x39, g: 0x57, b: 0x1c }
}

/// Foreground color of floors in view.
pub fn floor_fg() -> (c: Rgb)
    ensures
        c == (Rgb { r: 0xef, g: 0xd8, b: 0xa1 }),
{
    Rgb { r: 0xef, g: 0xd8, b: 0xa1 }
}

/// Foreground color of floors remembered through the fog of war.
pub fn floor_fog_fg() -> (c: Rgb)
    ensures
        c == (Rgb { r: 0x92, g: 0x7e, b: 0x6a }),
{
    Rgb { r: 0x92, g: 0x7e, b: 0x6a }
}

} // verus!
