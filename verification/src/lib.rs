#![allow(unused_imports)]
use vstd::prelude::*;

pub mod game;
pub mod helpers;
pub mod keyevents;
pub mod sprites;

verus! {

/// Width of the play area that the game requests at startup.
pub const WIDTH: usize = 50;

/// Height of the play area that the game requests at startup.
pub const HEIGHT: usize = 30;

/// Initial number of milliseconds the game waits for a keypress each tick.
pub const TIMEOUT_MS: usize = 80;

/// Floor for the input poll timeout: the game never polls faster than this.
pub const MIN_TIMEOUT_MS: usize = 10;

/// Initial number of scroll lines between two cliff spawns.
pub const CLIFF_SEPARATION: usize = 8;

/// Floor for the cliff spacing: cliffs never spawn closer than this.
pub const MIN_CLIFF_SEPARATION: usize = 2;

/// Horizontal displacement of the jumper per keypress.
pub const JUMPER_X: usize = 3;

/// Vertical movement step of the jumper (vertical motion is disabled by design).
pub const JUMPER_Y: usize = 1;

/// Vertical displacement of a cliff per scroll tick.
pub const CLIFF_Y: usize = 1;

/// Minimum number of columns the viewport and the requested area must have.
pub const MIN_COLS: usize = 40;

/// Minimum number of rows the viewport and the requested area must have.
pub const MIN_ROWS: usize = 30;

} // verus!
