use vstd::prelude::*;

verus! {

/// A cell of open floor.
pub const FLOOR: u8 = 0;

/// A wall; nothing ever enters it.
pub const WALL: u8 = 1;

/// An empty goal cell.
pub const GOAL: u8 = 2;

/// A crate on open floor.
pub const CRATE: u8 = 3;

/// A crate standing on a goal.
pub const CRATE_GOAL: u8 = 4;

/// The player on open floor.
pub const PLAYER: u8 = 5;

/// The player standing on a goal.
pub const PLAYER_GOAL: u8 = 6;

/// The number of levels the game offers; levels are numbered from 1.
pub const MAX_LEVEL: usize = 60;

} // verus!
