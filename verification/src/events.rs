//! The per-dot event bits of the sequencer table: one `u16` per dot of a
//! frame, each bit an event the chip performs at that dot with rendering
//! on, measured off the switch-level chip.

use vstd::prelude::*;

verus! {

/// A nametable fetch: a $2xxx address outside the attribute rows.
pub const FETCH_NT: u16 = 0x0001;
/// An attribute fetch: a $2xxx address with bits 6..9 all set.
pub const FETCH_AT: u16 = 0x0002;
/// A pattern fetch below $2000, low plane (bit 3 clear).
pub const FETCH_PT_LO: u16 = 0x0004;
/// A pattern fetch below $2000, high plane (bit 3 set).
pub const FETCH_PT_HI: u16 = 0x0008;
/// A garbage nametable fetch inside the sprite window.
pub const SPR_GARBAGE: u16 = 0x0010;
/// A sprite pattern fetch, low plane.
pub const SPR_PT_LO: u16 = 0x0020;
/// A sprite pattern fetch, high plane.
pub const SPR_PT_HI: u16 = 0x0040;
/// The coarse X increment.
pub const INC_X: u16 = 0x0080;
/// The Y increment.
pub const INC_Y: u16 = 0x0100;
/// t's horizontal bits into v.
pub const COPY_X: u16 = 0x0200;
/// t's vertical bits into v.
pub const COPY_Y: u16 = 0x0400;
/// The vblank flag rises.
pub const SET_VBL: u16 = 0x0800;
/// The vblank flag (and the sprite flags with it) are cleared.
pub const CLR_FLAGS: u16 = 0x1000;
/// /RD fell during the dot: the byte of the preceding fetch lands here.
pub const RD: u16 = 0x2000;

} // verus!
