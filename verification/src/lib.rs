//! A per-dot model of the Ricoh 2C02 (the NES PPU), verified with Verus.

use vstd::prelude::*;

pub mod bitfacts;
pub mod bus;
pub mod capture;
pub mod events;
pub mod fast;
pub mod holds;
pub mod laws;
pub mod picture;
pub mod pins;
pub mod position;
pub mod race;
pub mod recorder;
pub mod scroll;
pub mod table;
pub mod world;

verus! {

/// Lines in a frame, the pre-render line 261 included.
pub const LINES: usize = 262;
/// Dots in a line.
pub const DOTS_PER_LINE: usize = 341;
/// Visible rows.
pub const ACTIVE_ROWS: usize = 240;
/// Visible dots in a row (pixels 0..256 land at dots 1..=256).
pub const ACTIVE_DOTS: usize = 256;

} // verus!
