//! Colours, pixels and what the game asks a screen to draw.

use crate::geometry::Coord;
use vstd::prelude::*;

verus! {

/// Width of the screen in pixels.
pub const WIDTH: usize = 480;

/// Height of the screen in pixels.
pub const HEIGHT: usize = 272;

/// A colour as `0xRRGGBB`.
#[derive(Copy, Clone, PartialEq, Eq, Structural, Debug)]
pub struct GameColor {
    pub value: u32,
}

impl Default for GameColor {
    fn default() -> (c: GameColor)
        ensures
            c.value == 0,
    {
        GameColor { value: 0 }
    }
}

impl From<u8> for GameColor {
    fn from(other: u8) -> (c: GameColor) {
        GameColor { value: other as u32 }
    }
}

impl vstd::std_specs::convert::FromSpecImpl<u8> for GameColor {
    open spec fn obeys_from_spec() -> bool {
        true
    }

    open spec fn from_spec(other: u8) -> GameColor {
        GameColor { value: other as u32 }
    }
}

/// Colour values, as `0xRRGGBB`.
pub const BLACK: u32 = 0x00_0000;

pub const WHITE: u32 = 0xFF_FFFF;

pub const RED: u32 = 0xFF_0000;

pub const YELLOW: u32 = 0xFF_FF00;

pub const BLUE: u32 = 0x00_00FF;

pub const GREEN: u32 = 0x00_FF00;

/// One coloured pixel.
#[derive(Copy, Clone, PartialEq, Eq, Structural, Debug)]
pub struct Pixel {
    pub x: u32,
    pub y: u32,
    pub color: GameColor,
}

impl Pixel {
    pub open spec fn visible(self) -> bool {
        self.x < WIDTH && self.y < HEIGHT
    }

    /// Whether the pixel lies on the screen. A screen drops the others.
    pub fn on_screen(&self) -> (shown: bool)
        ensures
            shown == self.visible(),
    {
        (self.x as usize) < WIDTH && (self.y as usize) < HEIGHT
    }
}

/// The bitmaps that pickups are drawn with, ten pixels wide and high.
#[derive(Copy, Clone, PartialEq, Eq, Structural, Debug)]
pub enum Icon {
    Fast,
    Clear,
    ChangeDirection,
    Slow,
    Small,
    Big,
    Color,
    Border,
}

/// A shape for the screen. Corners are pixels and belong to the shape.
#[derive(Copy, Clone, PartialEq, Eq, Structural, Debug)]
pub enum DrawCommand {
    /// A filled circle.
    Disc { center: Coord, radius: u32, color: GameColor },
    /// The outline of a rectangle, one pixel wide.
    Outline { top_left: Coord, bottom_right: Coord, color: GameColor },
    /// A filled rectangle.
    Fill { top_left: Coord, bottom_right: Coord, color: GameColor },
    /// A bitmap with its top left corner at `pos`.
    Sprite { icon: Icon, pos: Coord },
}

} // verus!
