//! The build-time measurements as bytes: the sequencer table (a
//! little-endian `u16` per dot, line-major), the palette RAM as the chip
//! holds it, and the netlist blob. Whoever holds the bytes hands them in.

use vstd::prelude::*;

use crate::{DOTS_PER_LINE, LINES};

verus! {

/// The little-endian `u16` of two bytes.
pub open spec fn le_u16(lo: u8, hi: u8) -> u16 {
    (lo as int + hi as int * 256) as u16
}

/// Both measurements are real: a word per dot of a frame and the 32
/// palette bytes.
pub fn table_available(table_bytes: &[u8], palette_bytes: &[u8]) -> (r: bool)
    ensures
        r == (table_bytes@.len() == LINES * DOTS_PER_LINE * 2 && palette_bytes@.len() == 32),
{
    table_bytes.len() == LINES * DOTS_PER_LINE * 2 && palette_bytes.len() == 32
}

/// The recorded table, decoded: word i from bytes 2i (low) and 2i + 1.
pub fn table(table_bytes: &[u8]) -> (t: Vec<u16>)
    requires
        table_bytes@.len() == LINES * DOTS_PER_LINE * 2,
    ensures
        t@.len() == LINES * DOTS_PER_LINE,
        forall|i: int|
            0 <= i < t@.len() ==> #[trigger] t@[i] == le_u16(
                table_bytes@[2 * i],
                table_bytes@[2 * i + 1],
            ),
{
    let n = LINES * DOTS_PER_LINE;
    let mut t: Vec<u16> = Vec::with_capacity(n);
    let mut i: usize = 0;
    while i < n
        invariant
            n == LINES * DOTS_PER_LINE,
            table_bytes@.len() == 2 * n,
            i <= n,
            t@.len() == i,
            forall|j: int|
                0 <= j < i ==> #[trigger] t@[j] == le_u16(table_bytes@[2 * j], table_bytes@[2 * j + 1]),
        decreases n - i,
    {
        let lo = table_bytes[2 * i];
        let hi = table_bytes[2 * i + 1];
        let w = (lo as u16) | ((hi as u16) << 8);
        assert((lo as u16) | ((hi as u16) << 8u16) == (lo as int + hi as int * 256) as u16)
            by (bit_vector);
        t.push(w);
        i = i + 1;
    }
    t
}

/// The palette RAM as measured. Entry 0 is the backdrop the chip
/// actually renders with.
pub fn palette_as_loaded(palette_bytes: &[u8]) -> (p: [u8; 32])
    requires
        palette_bytes@.len() == 32,
    ensures
        p@ == palette_bytes@,
{
    let mut p = [0u8; 32];
    let mut i: usize = 0;
    while i < 32
        invariant
            palette_bytes@.len() == 32,
            i <= 32,
            forall|j: int| 0 <= j < i ==> #[trigger] p@[j] == palette_bytes@[j],
        decreases 32 - i,
    {
        p[i] = palette_bytes[i];
        i = i + 1;
    }
    assert(p@ =~= palette_bytes@);
    p
}

/// Whether the die data was present at build time: the netlist blob is
/// not empty.
pub fn available(blob: &[u8]) -> (r: bool)
    ensures
        r == (blob@.len() > 0),
{
    blob.len() > 0
}

} // verus!
