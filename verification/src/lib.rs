//! Simulation core of a multiplayer curve game.
//!
//! Every player steers a point that moves at a steady pace and leaves a trail
//! of capsule segments behind. Running into a trail, into the border (while it
//! is switched on) or into one's own trail ends the round for that player.
//! Pickups that appear on the field change how curves move for a while.
//!
//! All geometry is done in fixed-point integers (see [`fixed`]); sines and
//! cosines come from a [`geometry::TrigTable`] that the caller supplies.
//! Nothing here draws or reads hardware: functions write down what is to be
//! drawn as [`display::DrawCommand`] values and take touches and random
//! numbers as plain data.

pub mod border;
pub mod buffs;
pub mod display;
pub mod draw;
pub mod fixed;
pub mod game;
pub mod geometry;
pub mod player;
pub mod playingfield;
pub mod sequences;
