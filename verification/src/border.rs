//! The rectangle that closes the field while it is switched on.

use crate::display::{DrawCommand, GameColor, BLACK, WHITE};
use crate::geometry::Coord;
use vstd::prelude::*;

verus! {

/// Left edge of the border: the pad from the left edge of the screen.
pub const BORDER_LEFT: i32 = 10;

/// Upper edge of the border: the pad from the upper edge of the screen.
pub const BORDER_TOP: i32 = 10;

/// Right edge of the border: the pad from the last column of the screen.
pub const BORDER_RIGHT: i32 = 469;

/// Lower edge of the border: the pad from the last row of the screen.
pub const BORDER_BOTTOM: i32 = 261;

/// A rectangle around the field. Curves that touch it lose while it is
/// `active`; `drawn` says whether the screen shows its present state.
pub struct Border {
    pub top_left: Coord,
    pub bottom_right: Coord,
    pub active: bool,
    pub drawn: bool,
}

impl Border {
    /// The outline that shows the border in its present state: white while it
    /// is switched on, black (erased) while it is off.
    pub open spec fn outline(&self) -> DrawCommand {
        DrawCommand::Outline {
            top_left: self.top_left,
            bottom_right: self.bottom_right,
            color: GameColor { value: if self.active {
                WHITE
            } else {
                BLACK
            } },
        }
    }

    /// The border as a round begins: switched off and not yet drawn.
    pub fn new() -> (border: Border)
        ensures
            border.top_left == (Coord { x: BORDER_LEFT, y: BORDER_TOP }),
            border.bottom_right == (Coord { x: BORDER_RIGHT, y: BORDER_BOTTOM }),
            !border.active,
            !border.drawn,
    {
        Border {
            top_left: Coord::new(BORDER_LEFT, BORDER_TOP),
            bottom_right: Coord::new(BORDER_RIGHT, BORDER_BOTTOM),
            active: false,
            drawn: false,
        }
    }

    /// Draws the border in its present state, unless the screen shows it
    /// already.
    pub fn draw(&mut self, display: &mut Vec<DrawCommand>)
        ensures
            final(display)@ == if old(self).drawn {
                old(display)@
            } else {
                old(display)@.push(old(self).outline())
            },
            final(self).drawn,
            final(self).active == old(self).active,
            final(self).top_left == old(self).top_left,
            final(self).bottom_right == old(self).bottom_right,
    {
        if self.drawn {
            return ;
        }
        let color = GameColor { value: if self.active {
            WHITE
        } else {
            BLACK
        } };
        display.push(
            DrawCommand::Outline {
                top_left: self.top_left,
                bottom_right: self.bottom_right,
                color,
            },
        );
        self.drawn = true;
    }
}

} // verus!
