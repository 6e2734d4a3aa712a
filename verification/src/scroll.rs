//! The fifteen-bit VRAM address register (v and t) as the PPU's scroll
//! model reads it: coarse X, coarse Y, the two nametable-select bits and
//! fine Y, and the increments and copies the rendering pipeline applies.

use vstd::prelude::*;

verus! {

/// Coarse X: the tile column, bits 0..4.
pub open spec fn coarse_x(v: u16) -> u16 {
    v & 0x1f
}

/// Coarse Y: the tile row, bits 5..9.
pub open spec fn coarse_y(v: u16) -> u16 {
    (v >> 5u16) & 0x1f
}

/// The horizontal nametable select, bit 10.
pub open spec fn nt_x(v: u16) -> u16 {
    (v >> 10u16) & 1
}

/// The vertical nametable select, bit 11.
pub open spec fn nt_y(v: u16) -> u16 {
    (v >> 11u16) & 1
}

/// Fine Y: the row inside the tile, bits 12..14.
pub open spec fn fine_y(v: u16) -> u16 {
    (v >> 12u16) & 7
}

/// Bit 15, which no scroll operation reads.
pub open spec fn top_bit(v: u16) -> u16 {
    v >> 15u16
}

/// The register assembled from its fields.
pub open spec fn vaddr(cx: u16, cy: u16, nx: u16, ny: u16, fy: u16, hi: u16) -> u16 {
    (cx & 0x1f) | ((cy & 0x1f) << 5u16) | ((nx & 1) << 10u16) | ((ny & 1) << 11u16) | ((fy & 7) << 12u16) | (
    (hi & 1) << 15u16)
}

/// The fields of an assembled register are the (masked) parts it was
/// assembled from.
pub proof fn lemma_fields_of_vaddr(cx: u16, cy: u16, nx: u16, ny: u16, fy: u16, hi: u16)
    ensures
        coarse_x(vaddr(cx, cy, nx, ny, fy, hi)) == cx & 0x1f,
        coarse_y(vaddr(cx, cy, nx, ny, fy, hi)) == cy & 0x1f,
        nt_x(vaddr(cx, cy, nx, ny, fy, hi)) == nx & 1,
        nt_y(vaddr(cx, cy, nx, ny, fy, hi)) == ny & 1,
        fine_y(vaddr(cx, cy, nx, ny, fy, hi)) == fy & 7,
        top_bit(vaddr(cx, cy, nx, ny, fy, hi)) == hi & 1,
{
    assert(coarse_x(vaddr(cx, cy, nx, ny, fy, hi)) == cx & 0x1f && coarse_y(
        vaddr(cx, cy, nx, ny, fy, hi),
    ) == cy & 0x1f && nt_x(vaddr(cx, cy, nx, ny, fy, hi)) == nx & 1 && nt_y(
        vaddr(cx, cy, nx, ny, fy, hi),
    ) == ny & 1 && fine_y(vaddr(cx, cy, nx, ny, fy, hi)) == fy & 7 && top_bit(
        vaddr(cx, cy, nx, ny, fy, hi),
    ) == hi & 1) by (bit_vector);
}

/// The coarse X increment: the next tile column, wrapping from 31 to 0
/// into the horizontally adjacent nametable.
pub open spec fn inc_x_spec(v: u16) -> u16 {
    if coarse_x(v) == 31 {
        vaddr(0, coarse_y(v), nt_x(v) ^ 1, nt_y(v), fine_y(v), top_bit(v))
    } else {
        vaddr((coarse_x(v) + 1) as u16, coarse_y(v), nt_x(v), nt_y(v), fine_y(v), top_bit(v))
    }
}

/// The Y increment: the next pixel row; past fine Y 7 the next tile row,
/// where row 29 wraps to 0 into the vertically adjacent nametable and
/// row 31 (outside the visible nametable) wraps to 0 in place.
pub open spec fn inc_y_spec(v: u16) -> u16 {
    if fine_y(v) < 7 {
        vaddr(coarse_x(v), coarse_y(v), nt_x(v), nt_y(v), (fine_y(v) + 1) as u16, top_bit(v))
    } else if coarse_y(v) == 29 {
        vaddr(coarse_x(v), 0, nt_x(v), nt_y(v) ^ 1, 0, top_bit(v))
    } else if coarse_y(v) == 31 {
        vaddr(coarse_x(v), 0, nt_x(v), nt_y(v), 0, top_bit(v))
    } else {
        vaddr(coarse_x(v), (coarse_y(v) + 1) as u16, nt_x(v), nt_y(v), 0, top_bit(v))
    }
}

/// The horizontal copy: t's coarse X and horizontal nametable into v.
pub open spec fn copy_x_spec(v: u16, t: u16) -> u16 {
    vaddr(coarse_x(t), coarse_y(v), nt_x(t), nt_y(v), fine_y(v), top_bit(v))
}

/// The vertical copy: t's coarse Y, vertical nametable and fine Y into v.
pub open spec fn copy_y_spec(v: u16, t: u16) -> u16 {
    vaddr(coarse_x(v), coarse_y(t), nt_x(v), nt_y(t), fine_y(t), top_bit(v))
}

/// The coarse X increment (`inc_x_spec`).
pub fn inc_x(v: u16) -> (r: u16)
    ensures
        r == inc_x_spec(v),
{
    assert((v & 0x1f == 31u16 ==> (v & !0x001fu16) ^ 0x0400u16 == vaddr(
        0,
        coarse_y(v),
        nt_x(v) ^ 1,
        nt_y(v),
        fine_y(v),
        top_bit(v),
    )) && (v & 0x1f != 31u16 ==> v < 0xffff && (v + 1) as u16 == vaddr(
        (coarse_x(v) + 1) as u16,
        coarse_y(v),
        nt_x(v),
        nt_y(v),
        fine_y(v),
        top_bit(v),
    ))) by (bit_vector);
    if v & 0x001f == 31 {
        (v & !0x001f) ^ 0x0400
    } else {
        v + 1
    }
}

/// The Y increment (`inc_y_spec`).
pub fn inc_y(v: u16) -> (r: u16)
    ensures
        r == inc_y_spec(v),
{
    let w = v & !0x7000;
    assert((v & 0x7000 != 0x7000u16 ==> v <= 0xffffu16 - 0x1000u16 && fine_y(v) < 7 && (v
        + 0x1000u16) as u16 == vaddr(
        coarse_x(v),
        coarse_y(v),
        nt_x(v),
        nt_y(v),
        (fine_y(v) + 1) as u16,
        top_bit(v),
    )) && (v & 0x7000 == 0x7000u16 ==> fine_y(v) == 7) && ((w >> 5u16) & 0x1f) == coarse_y(v)
        && coarse_y(v) <= 31 && ((w ^ 0x0800u16) & !0x03e0u16) | (0u16 << 5u16) == vaddr(
        coarse_x(v),
        0,
        nt_x(v),
        nt_y(v) ^ 1,
        0,
        top_bit(v),
    ) && (forall|y: u16|
        y < 32 ==> #[trigger] ((w & !0x03e0u16) | (y << 5u16)) == vaddr(
            coarse_x(v),
            y,
            nt_x(v),
            nt_y(v),
            0,
            top_bit(v),
        ))) by (bit_vector)
        requires
            w == v & !0x7000u16,
    ;
    if v & 0x7000 != 0x7000 {
        v + 0x1000
    } else {
        let mut y = (w >> 5) & 0x1f;
        let mut x = w;
        if y == 29 {
            y = 0;
            x = x ^ 0x0800;
        } else if y == 31 {
            y = 0;
        } else {
            y = y + 1;
        }
        assert(((w & !0x03e0u16) | (0u16 << 5u16)) == vaddr(coarse_x(v), 0, nt_x(v), nt_y(v), 0, top_bit(v)));
        (x & !0x03e0) | (y << 5)
    }
}

/// The copies as masks: t's bits 0x041f, or 0x7be0, into v.
proof fn lemma_copies(v: u16, t: u16)
    ensures
        (v & !0x041fu16) | (t & 0x041fu16) == copy_x_spec(v, t),
        (v & !0x7be0u16) | (t & 0x7be0u16) == copy_y_spec(v, t),
{
    assert((v & !0x041fu16) | (t & 0x041fu16) == copy_x_spec(v, t) && (v & !0x7be0u16) | (t
        & 0x7be0u16) == copy_y_spec(v, t)) by (bit_vector);
}

/// The horizontal copy (`copy_x_spec`).
pub fn copy_x(v: u16, t: u16) -> (r: u16)
    ensures
        r == copy_x_spec(v, t),
{
    proof {
        lemma_copies(v, t);
    }
    (v & !0x041f) | (t & 0x041f)
}

/// The vertical copy (`copy_y_spec`).
pub fn copy_y(v: u16, t: u16) -> (r: u16)
    ensures
        r == copy_y_spec(v, t),
{
    proof {
        lemma_copies(v, t);
    }
    (v & !0x7be0) | (t & 0x7be0)
}

/// t after a $2000 write of `val`: its nametable select from val's low two bits.
pub open spec fn t_after_ctrl(t: u16, val: u8) -> u16 {
    vaddr(coarse_x(t), coarse_y(t), (val & 1) as u16, ((val >> 1u8) & 1) as u16, fine_y(t), top_bit(t))
}

/// t after the first $2005 write: coarse X from val's top five bits.
pub open spec fn t_after_scroll_x(t: u16, val: u8) -> u16 {
    vaddr((val >> 3u8) as u16, coarse_y(t), nt_x(t), nt_y(t), fine_y(t), top_bit(t))
}

/// t after the second $2005 write: coarse Y from val's top five bits,
/// fine Y from its low three.
pub open spec fn t_after_scroll_y(t: u16, val: u8) -> u16 {
    vaddr(coarse_x(t), (val >> 3u8) as u16, nt_x(t), nt_y(t), (val & 7) as u16, top_bit(t))
}

/// t after the first $2006 write: the high byte becomes val's low six bits.
pub open spec fn t_after_addr_hi(t: u16, val: u8) -> u16 {
    (t % 256 + (val % 64) * 256) as u16
}

/// t after the second $2006 write: the low byte becomes val.
pub open spec fn t_after_addr_lo(t: u16, val: u8) -> u16 {
    (t / 256 * 256 + val) as u16
}

/// The register file's writes into t as masks.
proof fn lemma_t_writes(t: u16, val: u8)
    ensures
        (t & !0x0c00u16) | (((val & 3) as u16) << 10u16) == t_after_ctrl(t, val),
        (t & !0x001fu16) | (val >> 3u8) as u16 == t_after_scroll_x(t, val),
        (t & !0x73e0u16) | (((val & 7) as u16) << 12u16) | (((val >> 3u8) as u16) << 5u16)
            == t_after_scroll_y(t, val),
        (t & 0x00ffu16) | (((val & 0x3f) as u16) << 8u16) == t_after_addr_hi(t, val),
        (t & 0xff00u16) | val as u16 == t_after_addr_lo(t, val),
{
    assert((t & !0x0c00u16) | (((val & 3) as u16) << 10u16) == t_after_ctrl(t, val) && (t
        & !0x001fu16) | (val >> 3u8) as u16 == t_after_scroll_x(t, val) && (t & !0x73e0u16) | (((val
        & 7) as u16) << 12u16) | (((val >> 3u8) as u16) << 5u16) == t_after_scroll_y(t, val) && (t
        & 0x00ffu16) | (((val & 0x3f) as u16) << 8u16) == (t % 256 + (val % 64) * 256) as u16 && (t
        & 0xff00u16) | val as u16 == (t / 256 * 256 + val) as u16) by (bit_vector);
}

/// t after a $2000 write.
pub fn ctrl_into_t(t: u16, val: u8) -> (r: u16)
    ensures
        r == t_after_ctrl(t, val),
{
    proof {
        lemma_t_writes(t, val);
    }
    (t & !0x0c00) | (((val & 3) as u16) << 10)
}

/// t after the first $2005 write.
pub fn scroll_x_into_t(t: u16, val: u8) -> (r: u16)
    ensures
        r == t_after_scroll_x(t, val),
{
    proof {
        lemma_t_writes(t, val);
    }
    (t & !0x001f) | (val >> 3) as u16
}

/// t after the second $2005 write.
pub fn scroll_y_into_t(t: u16, val: u8) -> (r: u16)
    ensures
        r == t_after_scroll_y(t, val),
{
    proof {
        lemma_t_writes(t, val);
    }
    (t & !0x73e0) | (((val & 7) as u16) << 12) | (((val >> 3) as u16) << 5)
}

/// t after the first $2006 write.
pub fn addr_hi_into_t(t: u16, val: u8) -> (r: u16)
    ensures
        r == t_after_addr_hi(t, val),
{
    proof {
        lemma_t_writes(t, val);
    }
    (t & 0x00ff) | (((val & 0x3f) as u16) << 8)
}

/// t after the second $2006 write.
pub fn addr_lo_into_t(t: u16, val: u8) -> (r: u16)
    ensures
        r == t_after_addr_lo(t, val),
{
    proof {
        lemma_t_writes(t, val);
    }
    (t & 0xff00) | val as u16
}

/// The nametable byte v addresses: $2000 plus the nametable select, the
/// tile row and the tile column.
pub open spec fn nametable_addr(v: u16) -> u16 {
    (0x2000 + nt_y(v) * 0x800 + nt_x(v) * 0x400 + coarse_y(v) * 32 + coarse_x(v)) as u16
}

/// The attribute byte covering v's tile: the nametable's $3C0 block, one
/// byte per four-by-four tile square.
pub open spec fn attribute_addr(v: u16) -> u16 {
    (0x23c0 + nt_y(v) * 0x800 + nt_x(v) * 0x400 + (coarse_y(v) / 4) * 8 + coarse_x(v) / 4) as u16
}

/// Where v's two-by-two tile quadrant sits in its attribute byte.
pub open spec fn attribute_shift(v: u16) -> u16 {
    ((coarse_y(v) / 2) % 2 * 4 + (coarse_x(v) / 2) % 2 * 2) as u16
}

/// The fetch addresses as masks.
proof fn lemma_fetch_addrs(v: u16)
    ensures
        0x2000u16 | (v & 0x0fffu16) == nametable_addr(v),
        0x2000u16 | (v & 0x0fffu16) < 0x3000,
        0x23c0u16 | (v & 0x0c00u16) | ((v >> 4u16) & 0x38u16) | ((v >> 2u16) & 0x07u16)
            == attribute_addr(v),
        0x23c0u16 | (v & 0x0c00u16) | ((v >> 4u16) & 0x38u16) | ((v >> 2u16) & 0x07u16) < 0x3000,
        ((v >> 4u16) & 4u16) | (v & 2u16) == attribute_shift(v),
        ((v >> 4u16) & 4u16) | (v & 2u16) <= 6,
{
    assert(0x2000u16 | (v & 0x0fffu16) == nametable_addr(v) && 0x2000u16 | (v & 0x0fffu16)
        < 0x3000u16 && 0x23c0u16 | (v & 0x0c00u16) | ((v >> 4u16) & 0x38u16) | ((v >> 2u16)
        & 0x07u16) == attribute_addr(v) && 0x23c0u16 | (v & 0x0c00u16) | ((v >> 4u16) & 0x38u16) | ((v
        >> 2u16) & 0x07u16) < 0x3000u16 && ((v >> 4u16) & 4u16) | (v & 2u16) == attribute_shift(v)
        && ((v >> 4u16) & 4u16) | (v & 2u16) <= 6u16) by (bit_vector);
}

/// The nametable fetch's address for v.
pub fn nametable_fetch_addr(v: u16) -> (a: u16)
    ensures
        a == nametable_addr(v),
        a < 0x3000,
{
    proof {
        lemma_fetch_addrs(v);
    }
    0x2000 | (v & 0x0fff)
}

/// The attribute fetch's address for v.
pub fn attribute_fetch_addr(v: u16) -> (a: u16)
    ensures
        a == attribute_addr(v),
        a < 0x3000,
{
    proof {
        lemma_fetch_addrs(v);
    }
    0x23c0 | (v & 0x0c00) | ((v >> 4) & 0x38) | ((v >> 2) & 0x07)
}

/// Where v's quadrant sits in the fetched attribute byte.
pub fn attribute_fetch_shift(v: u16) -> (s: u16)
    ensures
        s == attribute_shift(v),
        s <= 6,
{
    proof {
        lemma_fetch_addrs(v);
    }
    ((v >> 4) & 4) | (v & 2)
}

/// A pattern row's address: the pattern table half, sixteen bytes per
/// tile, the row; the high plane is eight bytes on.
pub open spec fn pattern_addr(high_table: bool, tile: u8, row: u16) -> u16 {
    ((if high_table { 0x1000int } else { 0 }) + tile * 16 + row) as u16
}

/// A pattern row's address (`pattern_addr`); the high plane is it
/// with bit 3 set.
pub fn pattern_fetch_addr(high_table: bool, tile: u8, row: u16) -> (a: u16)
    requires
        row < 8,
    ensures
        a == pattern_addr(high_table, tile, row),
        a < 0x2000,
        a | 8 == pattern_addr(high_table, tile, row) + 8,
        (a | 8) < 0x2000,
{
    let hi: u16 = if high_table {
        1
    } else {
        0
    };
    let a = (hi << 12) | ((tile as u16) << 4) | row;
    assert((hi << 12u16) | ((tile as u16) << 4u16) | row == (hi * 0x1000 + tile * 16 + row) as u16
        && ((hi << 12u16) | ((tile as u16) << 4u16) | row) < 0x2000u16 && ((hi << 12u16) | ((
    tile as u16) << 4u16) | row) | 8u16 == ((hi * 0x1000 + tile * 16 + row) + 8) as u16 && (((hi
        << 12u16) | ((tile as u16) << 4u16) | row) | 8u16) < 0x2000u16) by (bit_vector)
        requires
            hi <= 1,
            row < 8,
    ;
    a
}

/// The increments and copies keep a fifteen-bit register fifteen-bit.
pub proof fn lemma_scroll_ops_fifteen_bit(v: u16, t: u16)
    requires
        v < 0x8000,
        t < 0x8000,
    ensures
        inc_x_spec(v) < 0x8000,
        inc_y_spec(v) < 0x8000,
        copy_x_spec(v, t) < 0x8000,
        copy_y_spec(v, t) < 0x8000,
{
    assert(inc_x_spec(v) < 0x8000 && inc_y_spec(v) < 0x8000 && copy_x_spec(v, t) < 0x8000
        && copy_y_spec(v, t) < 0x8000) by (bit_vector)
        requires
            v < 0x8000,
            t < 0x8000,
    ;
}

/// The register writes into t keep it fifteen-bit.
pub proof fn lemma_t_writes_fifteen_bit(t: u16, val: u8)
    requires
        t < 0x8000,
    ensures
        t_after_ctrl(t, val) < 0x8000,
        t_after_scroll_x(t, val) < 0x8000,
        t_after_scroll_y(t, val) < 0x8000,
        t_after_addr_hi(t, val) < 0x8000,
        t_after_addr_lo(t, val) < 0x8000,
{
    assert(t_after_ctrl(t, val) < 0x8000 && t_after_scroll_x(t, val) < 0x8000 && t_after_scroll_y(
        t,
        val,
    ) < 0x8000) by (bit_vector)
        requires
            t < 0x8000,
    ;
}

/// The coarse X increment as arithmetic on the address: the next column,
/// except that past column 31 it returns to column 0 and flips the
/// horizontal nametable (bit 10).
pub proof fn law_inc_x(v: u16)
    ensures
        v % 32 < 31 ==> inc_x_spec(v) == v + 1,
        v % 32 == 31 && (v / 1024) % 2 == 0 ==> inc_x_spec(v) == v - 31 + 1024,
        v % 32 == 31 && (v / 1024) % 2 == 1 ==> inc_x_spec(v) == v - 31 - 1024,
{
    assert((v % 32 < 31 ==> inc_x_spec(v) == v + 1) && (v % 32 == 31 && (v / 1024) % 2 == 0
        ==> inc_x_spec(v) == v - 31 + 1024) && (v % 32 == 31 && (v / 1024) % 2 == 1 ==> inc_x_spec(
        v,
    ) == v - 31 - 1024)) by (bit_vector);
}

/// The Y increment as arithmetic on the address: the next fine row
/// (bits 12..14); past fine row 7, fine Y returns to 0 and the tile row
/// (bits 5..9) steps, row 29 returning to 0 and flipping the vertical
/// nametable (bit 11), row 31 returning to 0 in place.
pub proof fn law_inc_y(v: u16)
    ensures
        (v / 4096) % 8 < 7 ==> inc_y_spec(v) == v + 4096,
        (v / 4096) % 8 == 7 && (v / 32) % 32 < 29 ==> inc_y_spec(v) == v - 7 * 4096 + 32,
        (v / 4096) % 8 == 7 && (v / 32) % 32 == 30 ==> inc_y_spec(v) == v - 7 * 4096 + 32,
        (v / 4096) % 8 == 7 && (v / 32) % 32 == 29 && (v / 2048) % 2 == 0 ==> inc_y_spec(v) == v
            - 7 * 4096 - 29 * 32 + 2048,
        (v / 4096) % 8 == 7 && (v / 32) % 32 == 29 && (v / 2048) % 2 == 1 ==> inc_y_spec(v) == v
            - 7 * 4096 - 29 * 32 - 2048,
        (v / 4096) % 8 == 7 && (v / 32) % 32 == 31 ==> inc_y_spec(v) == v - 7 * 4096 - 31 * 32,
{
    assert(((v / 4096) % 8 < 7 ==> inc_y_spec(v) == v + 4096) && ((v / 4096) % 8 == 7 && (v / 32)
        % 32 < 29 ==> inc_y_spec(v) == v - 7 * 4096 + 32) && ((v / 4096) % 8 == 7 && (v / 32) % 32
        == 30 ==> inc_y_spec(v) == v - 7 * 4096 + 32) && ((v / 4096) % 8 == 7 && (v / 32) % 32 == 29
        && (v / 2048) % 2 == 0 ==> inc_y_spec(v) == v - 7 * 4096 - 29 * 32 + 2048) && ((v / 4096)
        % 8 == 7 && (v / 32) % 32 == 29 && (v / 2048) % 2 == 1 ==> inc_y_spec(v) == v - 7 * 4096 - 29
        * 32 - 2048) && ((v / 4096) % 8 == 7 && (v / 32) % 32 == 31 ==> inc_y_spec(v) == v - 7 * 4096
        - 31 * 32)) by (bit_vector);
}

/// The copies as arithmetic: the horizontal copy takes coarse X (bits
/// 0..4) and the horizontal nametable (bit 10) from t; the vertical copy
/// takes coarse Y (bits 5..9), the vertical nametable (bit 11) and fine Y
/// (bits 12..14) from t; every other bit stays v's.
pub proof fn law_copies(v: u16, t: u16)
    ensures
        copy_x_spec(v, t) == v - v % 32 - 1024 * ((v / 1024) % 2) + t % 32 + 1024 * ((t / 1024)
            % 2),
        copy_y_spec(v, t) == v - 32 * ((v / 32) % 32) - 2048 * ((v / 2048) % 16) + 32 * ((t / 32)
            % 32) + 2048 * ((t / 2048) % 16),
{
    assert(copy_x_spec(v, t) == v - v % 32 - 1024 * ((v / 1024) % 2) + t % 32 + 1024 * ((t / 1024)
        % 2) && copy_y_spec(v, t) == v - 32 * ((v / 32) % 32) - 2048 * ((v / 2048) % 16) + 32 * ((t
        / 32) % 32) + 2048 * ((t / 2048) % 16)) by (bit_vector);
}

} // verus!
