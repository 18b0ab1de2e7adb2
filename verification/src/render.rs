//! What a renderer needs to know of a thing: its glyph and its colour.

use vstd::prelude::*;
use crate::level_data::TileType;

verus! {

/// A colour as red, green and blue.
#[derive(Clone, Copy, Debug, PartialEq, Eq, Structural)]
pub struct Color {
    pub r: u8,
    pub g: u8,
    pub b: u8,
}

impl Color {
    /// The colour with the given red, green and blue parts.
    pub fn rgb(r: u8, g: u8, b: u8) -> (c: Color)
        ensures
            c == (Color { r, g, b }),
    {
        Color { r, g, b }
    }

    /// The colour at half brightness, as things remembered but out of sight
    /// are drawn: each channel halved, rounding down.
    pub fn dimmed(self) -> (r: Color)
        ensures
            r.r == self.r / 2,
            r.g == self.g / 2,
            r.b == self.b / 2,
    {
        Color { r: self.r / 2, g: self.g / 2, b: self.b / 2 }
    }
}

/// Pure red.
pub open spec fn red() -> Color {
    Color { r: 255, g: 0, b: 0 }
}

/// Pure yellow.
pub open spec fn yellow() -> Color {
    Color { r: 255, g: 255, b: 0 }
}

/// Medium grey, the colour of lit floor and of lit walls.
pub open spec fn grey() -> Color {
    Color { r: 127, g: 127, b: 127 }
}

/// A pale green.
pub open spec fn desaturated_green() -> Color {
    Color { r: 63, g: 127, b: 63 }
}

/// A dark green.
pub open spec fn darker_green() -> Color {
    Color { r: 0, g: 127, b: 0 }
}

/// Something that can be drawn in a cell.
pub trait Renderable {
    /// The colour to draw it in.
    spec fn spec_color(&self) -> Color;

    /// The character to draw it as.
    spec fn glyph(&self) -> char;

    /// The colour to draw it in.
    fn color(&self) -> (r: Color)
        ensures
            r == self.spec_color(),
    ;

    /// The character to draw it as.
    fn display_char(&self) -> (r: char)
        ensures
            r == self.glyph(),
    ;
}

impl Renderable for TileType {
    open spec fn spec_color(&self) -> Color {
        match self {
            TileType::Wall => grey(),
            TileType::RoomWall => grey(),
            TileType::Ground => grey(),
        }
    }

    open spec fn glyph(&self) -> char {
        match self {
            TileType::Wall => '#',
            TileType::RoomWall => '\u{b1}',
            TileType::Ground => '.',
        }
    }

    fn color(&self) -> (r: Color) {
        match self {
            TileType::Wall => Color::rgb(127, 127, 127),
            TileType::RoomWall => Color::rgb(127, 127, 127),
            TileType::Ground => Color::rgb(127, 127, 127),
        }
    }

    fn display_char(&self) -> (r: char) {
        match self {
            TileType::Wall => '#',
            TileType::RoomWall => '\u{b1}',
            TileType::Ground => '.',
        }
    }
}

} // verus!
