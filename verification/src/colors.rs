//! Colours: the value type and the named colours that the game uses.

use vstd::prelude::*;

verus! {

/// A colour as red, green and blue parts.
#[derive(Clone, Copy, Debug, Default, PartialEq, Eq, Structural)]
pub struct Color {
    pub r: u8,
    pub g: u8,
    pub b: u8,
}

/// Black.
#[verifier::allow_in_spec]
pub fn black() -> Color
    returns
        (Color { r: 0, g: 0, b: 0 }),
{
    Color { r: 0, g: 0, b: 0 }
}

/// White.
#[verifier::allow_in_spec]
pub fn white() -> Color
    returns
        (Color { r: 255, g: 255, b: 255 }),
{
    Color { r: 255, g: 255, b: 255 }
}

/// Light grey.
#[verifier::allow_in_spec]
pub fn light_grey() -> Color
    returns
        (Color { r: 159, g: 159, b: 159 }),
{
    Color { r: 159, g: 159, b: 159 }
}

/// Red.
#[verifier::allow_in_spec]
pub fn red() -> Color
    returns
        (Color { r: 255, g: 0, b: 0 }),
{
    Color { r: 255, g: 0, b: 0 }
}

/// Dark red.
#[verifier::allow_in_spec]
pub fn dark_red() -> Color
    returns
        (Color { r: 191, g: 0, b: 0 }),
{
    Color { r: 191, g: 0, b: 0 }
}

/// Orange.
#[verifier::allow_in_spec]
pub fn orange() -> Color
    returns
        (Color { r: 255, g: 127, b: 0 }),
{
    Color { r: 255, g: 127, b: 0 }
}

/// A darker orange.
#[verifier::allow_in_spec]
pub fn darker_orange() -> Color
    returns
        (Color { r: 127, g: 63, b: 0 }),
{
    Color { r: 127, g: 63, b: 0 }
}

/// Yellow.
#[verifier::allow_in_spec]
pub fn yellow() -> Color
    returns
        (Color { r: 255, g: 255, b: 0 }),
{
    Color { r: 255, g: 255, b: 0 }
}

/// Light yellow.
#[verifier::allow_in_spec]
pub fn light_yellow() -> Color
    returns
        (Color { r: 255, g: 255, b: 63 }),
{
    Color { r: 255, g: 255, b: 63 }
}

/// Green.
#[verifier::allow_in_spec]
pub fn green() -> Color
    returns
        (Color { r: 0, g: 255, b: 0 }),
{
    Color { r: 0, g: 255, b: 0 }
}

/// Light green.
#[verifier::allow_in_spec]
pub fn light_green() -> Color
    returns
        (Color { r: 63, g: 255, b: 63 }),
{
    Color { r: 63, g: 255, b: 63 }
}

/// A darker green.
#[verifier::allow_in_spec]
pub fn darker_green() -> Color
    returns
        (Color { r: 0, g: 127, b: 0 }),
{
    Color { r: 0, g: 127, b: 0 }
}

/// Sky blue.
#[verifier::allow_in_spec]
pub fn sky() -> Color
    returns
        (Color { r: 0, g: 191, b: 255 }),
{
    Color { r: 0, g: 191, b: 255 }
}

/// Violet.
#[verifier::allow_in_spec]
pub fn violet() -> Color
    returns
        (Color { r: 127, g: 0, b: 255 }),
{
    Color { r: 127, g: 0, b: 255 }
}

/// A wall that was seen before and is out of sight now.
#[verifier::allow_in_spec]
pub fn dark_wall() -> Color
    returns
        (Color { r: 0, g: 0, b: 100 }),
{
    Color { r: 0, g: 0, b: 100 }
}

/// A wall in sight.
#[verifier::allow_in_spec]
pub fn light_wall() -> Color
    returns
        (Color { r: 130, g: 110, b: 50 }),
{
    Color { r: 130, g: 110, b: 50 }
}

/// Floor that was seen before and is out of sight now.
#[verifier::allow_in_spec]
pub fn dark_ground() -> Color
    returns
        (Color { r: 50, g: 50, b: 150 }),
{
    Color { r: 50, g: 50, b: 150 }
}

/// Floor in sight.
#[verifier::allow_in_spec]
pub fn light_ground() -> Color
    returns
        (Color { r: 200, g: 180, b: 50 }),
{
    Color { r: 200, g: 180, b: 50 }
}

/// The background of a tile: one of four palette entries, by whether the tile
/// is in sight and whether it is a wall.
pub open spec fn spec_tile_color(visible: bool, wall: bool) -> Color {
    if visible {
        if wall {
            light_wall()
        } else {
            light_ground()
        }
    } else {
        if wall {
            dark_wall()
        } else {
            dark_ground()
        }
    }
}

/// Picks the background of a tile from the palette.
pub fn tile_color(visible: bool, wall: bool) -> (color: Color)
    ensures
        color == spec_tile_color(visible, wall),
{
    match (visible, wall) {
        (false, true) => dark_wall(),
        (false, false) => dark_ground(),
        (true, true) => light_wall(),
        (true, false) => light_ground(),
    }
}

} // verus!
