//! The worlds the gates run: the VRAM as a pure function of the address,
//! the palettes and sprites they load, and the register programs that load
//! them (register, value, idle half-steps after the access).

use vstd::prelude::*;

verus! {

/// The standard world's VRAM: byte `((a >> 4) ^ a) & 0xff` at address `a`.
pub open spec fn vram_spec(a: u16) -> u8 {
    (((a >> 4u16) ^ a) & 0xffu16) as u8
}

/// The shared world's VRAM function.
pub fn vram(a: u16) -> (r: u8)
    ensures
        r == vram_spec(a),
{
    (((a >> 4) ^ a) & 0xff) as u8
}

/// The standard world's background palette, $3F00..$3F0F as written.
pub const PALETTE: [u8; 16] = [
    0x0f,
    0x16,
    0x2a,
    0x12,
    0x0f,
    0x28,
    0x14,
    0x02,
    0x0f,
    0x26,
    0x1a,
    0x31,
    0x0f,
    0x30,
    0x27,
    0x06,
];

/// The three colours of each sprite palette the sprite world writes to
/// $3F11.., $3F15.., $3F19.., $3F1D.. (entry 0 of each mirrors the
/// backdrop and is left alone).
pub const SPRITE_PALETTE: [[u8; 3]; 4] = [
    [0x21, 0x11, 0x01],
    [0x24, 0x15, 0x04],
    [0x29, 0x19, 0x09],
    [0x2c, 0x1c, 0x0c],
];

/// `PALETTE` as a sequence.
pub open spec fn palette_spec() -> Seq<u8> {
    seq![
        0x0fu8,
        0x16,
        0x2a,
        0x12,
        0x0f,
        0x28,
        0x14,
        0x02,
        0x0f,
        0x26,
        0x1a,
        0x31,
        0x0f,
        0x30,
        0x27,
        0x06,
    ]
}

/// Colour `c` of sprite palette `p` in `SPRITE_PALETTE`.
pub open spec fn sprite_palette_spec(p: int, c: int) -> u8 {
    let rows = seq![
        seq![0x21u8, 0x11, 0x01],
        seq![0x24u8, 0x15, 0x04],
        seq![0x29u8, 0x19, 0x09],
        seq![0x2cu8, 0x1c, 0x0c],
    ];
    rows[p][c]
}

/// Sprite `i` of the sprite world as (y, tile, attribute, x): sprite 0
/// over solid background for the hit; palette 1 with each flip; one behind
/// the background; nine on one line (the eighth is the last drawn); one off
/// the right edge, one off the bottom; two overlapping; the rest parked
/// at y = $F0.
pub open spec fn sprite_spec(i: int) -> (u8, u8, u8, u8) {
    if i == 0 {
        (90, 1, 0x00, 180)
    } else if i == 1 {
        (40, 3, 0x01, 20)
    } else if i == 2 {
        (40, 3, 0x41, 28)
    } else if i == 3 {
        (40, 3, 0x81, 36)
    } else if i == 4 {
        (40, 3, 0xc1, 44)
    } else if i == 5 {
        (40, 5, 0x22, 52)
    } else if 6 <= i <= 14 {
        let k = i - 6;
        (120, (2 + k) as u8, (k % 4) as u8, (16 + 24 * k) as u8)
    } else if i == 15 {
        (200, 4, 0x03, 250)
    } else if i == 16 {
        (236, 6, 0x00, 100)
    } else if i == 17 {
        (60, 2, 0x00, 100)
    } else if i == 18 {
        (62, 4, 0x01, 104)
    } else {
        (0xf0, 0, 0, 0)
    }
}

/// The sprite world's OAM: sprite i's four bytes at 4i..4i + 4.
pub open spec fn sprite_oam_spec() -> Seq<u8> {
    Seq::new(
        256,
        |b: int|
            {
                let (y, tile, attr, x) = sprite_spec(b / 4);
                if b % 4 == 0 {
                    y
                } else if b % 4 == 1 {
                    tile
                } else if b % 4 == 2 {
                    attr
                } else {
                    x
                }
            },
    )
}

/// Sprite `i`'s four bytes into `oam`.
fn put(oam: &mut [u8; 256], i: usize, y: u8, tile: u8, attr: u8, x: u8)
    requires
        i < 64,
    ensures
        final(oam)@ == old(oam)@.update(4 * i as int, y).update(4 * i + 1, tile).update(
            4 * i + 2,
            attr,
        ).update(4 * i + 3, x),
{
    oam[i * 4] = y;
    oam[i * 4 + 1] = tile;
    oam[i * 4 + 2] = attr;
    oam[i * 4 + 3] = x;
}

/// The 64 sprites the sprite world loads, (y, tile, attribute, x) each.
pub fn sprite_oam() -> (oam: [u8; 256])
    ensures
        oam@ == sprite_oam_spec(),
{
    let mut oam = [0u8; 256];
    let mut i: usize = 0;
    while i < 64
        invariant
            i <= 64,
            forall|b: int|
                0 <= b < 4 * i ==> #[trigger] oam@[b] == (if b % 4 == 0 {
                    0xf0u8
                } else {
                    0u8
                }),
        decreases 64 - i,
    {
        put(&mut oam, i, 0xf0, 0, 0, 0);
        i = i + 1;
    }
    put(&mut oam, 0, 90, 1, 0x00, 180);
    put(&mut oam, 1, 40, 3, 0x01, 20);
    put(&mut oam, 2, 40, 3, 0x41, 28);
    put(&mut oam, 3, 40, 3, 0x81, 36);
    put(&mut oam, 4, 40, 3, 0xc1, 44);
    put(&mut oam, 5, 40, 5, 0x22, 52);
    let ghost before = oam@;
    let mut k: u8 = 0;
    while k < 9
        invariant
            k <= 9,
            forall|b: int|
                0 <= b < 256 && !(24 <= b < 24 + 4 * k) ==> #[trigger] oam@[b] == before[b],
            forall|b: int|
                24 <= b < 24 + 4 * k ==> #[trigger] oam@[b] == ({
                    let j = b / 4 - 6;
                    if b % 4 == 0 {
                        120u8
                    } else if b % 4 == 1 {
                        (2 + j) as u8
                    } else if b % 4 == 2 {
                        (j % 4) as u8
                    } else {
                        (16 + 24 * j) as u8
                    }
                }),
        decreases 9 - k,
    {
        proof {
            crate::bitfacts::lemma_byte_fields(k);
        }
        put(&mut oam, 6 + k as usize, 120, 2 + k, k & 3, 16 + 24 * k);
        k = k + 1;
    }
    put(&mut oam, 15, 200, 4, 0x03, 250);
    put(&mut oam, 16, 236, 6, 0x00, 100);
    put(&mut oam, 17, 60, 2, 0x00, 100);
    put(&mut oam, 18, 62, 4, 0x01, 104);
    assert(oam@ =~= sprite_oam_spec());
    oam
}

/// The standard world's register program, after its $2002 read: ctrl and
/// mask zero, the address at $3F00, the palette written, the address
/// parked in the nametable, scroll zeroed, background rendering on. The
/// writes go back to back.
pub open spec fn standard_program_spec() -> Seq<(u8, u8, u64)> {
    seq![(0u8, 0x00u8, 0u64), (1, 0x00, 0), (6, 0x3f, 0), (6, 0x00, 0)] + Seq::new(
        16,
        |i: int| (7u8, palette_spec()[i], 0u64),
    ) + seq![(6u8, 0x20u8, 0u64), (6, 0x00, 0), (5, 0x00, 0), (5, 0x00, 0), (1, 0x0a, 0)]
}

/// Append `accesses` to `program`.
fn push_all(program: &mut Vec<(u8, u8, u64)>, accesses: &[(u8, u8, u64)])
    ensures
        final(program)@ == old(program)@ + accesses@,
{
    let ghost p0 = program@;
    let mut i: usize = 0;
    while i < accesses.len()
        invariant
            i <= accesses@.len(),
            program@ == p0 + accesses@.take(i as int),
        decreases accesses@.len() - i,
    {
        program.push(accesses[i]);
        proof {
            assert(accesses@.take(i + 1) =~= accesses@.take(i as int).push(accesses@[i as int]));
        }
        i = i + 1;
    }
    assert(accesses@.take(accesses@.len() as int) =~= accesses@);
}

/// The standard world's register program.
pub fn standard_program() -> (p: Vec<(u8, u8, u64)>)
    ensures
        p@ == standard_program_spec(),
{
    let mut p: Vec<(u8, u8, u64)> = Vec::new();
    push_all(&mut p, &[(0u8, 0x00u8, 0u64), (1, 0x00, 0), (6, 0x3f, 0), (6, 0x00, 0)]);
    let ghost p1 = p@;
    let mut i: usize = 0;
    while i < 16
        invariant
            i <= 16,
            p@ == p1 + Seq::new(i as nat, |j: int| (7u8, palette_spec()[j], 0u64)),
        decreases 16 - i,
    {
        p.push((7, PALETTE[i], 0));
        proof {
            assert(Seq::new((i + 1) as nat, |j: int| (7u8, palette_spec()[j], 0u64)) =~= Seq::new(
                i as nat,
                |j: int| (7u8, palette_spec()[j], 0u64),
            ).push((7u8, palette_spec()[i as int], 0u64)));
        }
        i = i + 1;
    }
    push_all(&mut p, &[(6u8, 0x20u8, 0u64), (6, 0x00, 0), (5, 0x00, 0), (5, 0x00, 0), (1, 0x0a, 0)]);
    assert(p@ =~= standard_program_spec());
    p
}

/// The sprite world's palette accesses: per sprite palette, the $2006
/// pair with the delayed low write waited out, then its three colours
/// back to back and an access-width of idle.
pub open spec fn sprite_palette_accesses() -> Seq<(u8, u8, u64)> {
    Seq::new(
        20,
        |i: int|
            {
                let p = i / 5;
                let j = i % 5;
                if j == 0 {
                    (6u8, 0x3fu8, 24u64)
                } else if j == 1 {
                    (6u8, (0x11 + 4 * p) as u8, 48u64)
                } else {
                    (7u8, sprite_palette_spec(p, j - 2), if j == 4 {
                        24u64
                    } else {
                        0u64
                    })
                }
            },
    )
}

/// The sprite world's register program, after the standard world's:
/// rendering paused, the four sprite palettes and the 64 sprites loaded
/// with an access-width of idle after every OAM write, t restored the
/// way the standard world sets it, and rendering resumed with sprites on
/// and no left-edge clipping (mask $1E).
pub open spec fn sprite_program_spec() -> Seq<(u8, u8, u64)> {
    seq![(1u8, 0x00u8, 24u64)] + sprite_palette_accesses() + seq![(3u8, 0x00u8, 24u64)] + Seq::new(
        256,
        |i: int| (4u8, sprite_oam_spec()[i], 24u64),
    ) + seq![(6u8, 0x20u8, 48u64), (6, 0x00, 48), (5, 0x00, 48), (5, 0x00, 48), (1, 0x1e, 0)]
}

/// The sprite world's register program.
pub fn sprite_program() -> (p: Vec<(u8, u8, u64)>)
    ensures
        p@ == sprite_program_spec(),
{
    let mut p: Vec<(u8, u8, u64)> = Vec::new();
    p.push((1, 0x00, 24));
    let ghost p1 = p@;
    let mut q: usize = 0;
    while q < 4
        invariant
            q <= 4,
            p@ == p1 + sprite_palette_accesses().take(5 * q as int),
        decreases 4 - q,
    {
        let cols = SPRITE_PALETTE[q];
        let ghost before = p@;
        p.push((6, 0x3f, 24));
        p.push((6, 0x11 + 4 * q as u8, 48));
        p.push((7, cols[0], 0));
        p.push((7, cols[1], 0));
        p.push((7, cols[2], 24));
        proof {
            assert(sprite_palette_accesses().take(5 * (q + 1)) =~= sprite_palette_accesses().take(
                5 * q as int,
            ) + p@.subrange(before.len() as int, p@.len() as int));
        }
        q = q + 1;
    }
    p.push((3, 0x00, 24));
    let oam = sprite_oam();
    let ghost p2 = p@;
    let mut i: usize = 0;
    while i < 256
        invariant
            i <= 256,
            oam@ == sprite_oam_spec(),
            p@ == p2 + Seq::new(i as nat, |j: int| (4u8, sprite_oam_spec()[j], 24u64)),
        decreases 256 - i,
    {
        p.push((4, oam[i], 24));
        proof {
            assert(Seq::new((i + 1) as nat, |j: int| (4u8, sprite_oam_spec()[j], 24u64)) =~= Seq::new(
                i as nat,
                |j: int| (4u8, sprite_oam_spec()[j], 24u64),
            ).push((4u8, sprite_oam_spec()[i as int], 24u64)));
        }
        i = i + 1;
    }
    push_all(
        &mut p,
        &[(6u8, 0x20u8, 48u64), (6, 0x00, 48), (5, 0x00, 48), (5, 0x00, 48), (1, 0x1e, 0)],
    );
    proof {
        assert(sprite_palette_accesses().take(20) =~= sprite_palette_accesses());
    }
    assert(p@ =~= sprite_program_spec());
    p
}

/// One CPU access of a script, and the idle half-steps after it.
#[derive(Clone, Copy, PartialEq, Eq, Debug, Structural)]
pub enum Access {
    /// Write the byte to $2000 + register.
    Write(u8, u8, u64),
    /// Read $2000 + register.
    Read(u8, u64),
    /// Let the chip run this many half-steps.
    Idle(u64),
}

/// The half-steps the chip needs after power-on before its registers
/// take writes: the measured 712,010-half-step reset gate plus margin.
pub const WARM_UP_HALF_STEPS: u64 = 712_100;

/// The line the read-back scripts wait for: vblank, clear of the flag's
/// set.
pub const READ_BACK_LINE: u32 = 242;

/// The standard world from power-on: the warm-up, a $2002 read to reset
/// the write toggle, then the standard program's writes.
pub open spec fn standard_world_spec() -> Seq<Access> {
    seq![Access::Idle(WARM_UP_HALF_STEPS), Access::Read(2, 0)] + standard_program_spec().map_values(
        |a: (u8, u8, u64)| Access::Write(a.0, a.1, a.2),
    )
}

/// The standard world's script from power-on.
pub fn standard_world_script() -> (p: Vec<Access>)
    ensures
        p@ == standard_world_spec(),
{
    let program = standard_program();
    let mut p: Vec<Access> = Vec::new();
    p.push(Access::Idle(WARM_UP_HALF_STEPS));
    p.push(Access::Read(2, 0));
    let ghost p1 = p@;
    let mut i: usize = 0;
    while i < program.len()
        invariant
            i <= program@.len(),
            program@ == standard_program_spec(),
            p@ == p1 + program@.take(i as int).map_values(
                |a: (u8, u8, u64)| Access::Write(a.0, a.1, a.2),
            ),
        decreases program@.len() - i,
    {
        let (reg, val, idle) = program[i];
        p.push(Access::Write(reg, val, idle));
        proof {
            assert(program@.take(i + 1).map_values(|a: (u8, u8, u64)| Access::Write(a.0, a.1, a.2))
                =~= program@.take(i as int).map_values(
                |a: (u8, u8, u64)| Access::Write(a.0, a.1, a.2),
            ).push(Access::Write(reg, val, idle)));
        }
        i = i + 1;
    }
    proof {
        assert(program@.take(program@.len() as int) =~= program@);
    }
    assert(p@ =~= standard_world_spec());
    p
}

/// Reading the palette RAM and OAM back out of the chip in vblank, paced:
/// the address pair to $3F00 with the delayed low write waited out, the
/// 32 palette bytes through $2007, then per OAM byte its address through
/// $2003 and the byte through $2004; the OAM address put back at 0, and t
/// restored the way the worlds set it, since the $2007 reads moved v. The
/// reads answer the palette bytes in order, then the OAM bytes.
pub open spec fn read_back_spec() -> Seq<Access> {
    seq![Access::Write(6, 0x3f, 24), Access::Write(6, 0x00, 48)] + Seq::new(
        32,
        |i: int| Access::Read(7, 24),
    ) + Seq::new(
        512,
        |i: int|
            if i % 2 == 0 {
                Access::Write(3, (i / 2) as u8, 24)
            } else {
                Access::Read(4, 24)
            },
    ) + seq![
        Access::Write(3, 0x00, 24),
        Access::Write(6, 0x20, 48),
        Access::Write(6, 0x00, 48),
        Access::Write(5, 0x00, 48),
        Access::Write(5, 0x00, 48),
    ]
}

/// The read-back script.
pub fn read_back_program() -> (p: Vec<Access>)
    ensures
        p@ == read_back_spec(),
{
    let mut p: Vec<Access> = Vec::new();
    p.push(Access::Write(6, 0x3f, 24));
    p.push(Access::Write(6, 0x00, 48));
    let ghost p1 = p@;
    let mut i: usize = 0;
    while i < 32
        invariant
            i <= 32,
            p@ == p1 + Seq::new(i as nat, |j: int| Access::Read(7, 24)),
        decreases 32 - i,
    {
        p.push(Access::Read(7, 24));
        proof {
            assert(Seq::new((i + 1) as nat, |j: int| Access::Read(7, 24)) =~= Seq::new(
                i as nat,
                |j: int| Access::Read(7, 24),
            ).push(Access::Read(7, 24)));
        }
        i = i + 1;
    }
    let ghost p2 = p@;
    let ghost oam_part = Seq::new(
        512,
        |j: int|
            if j % 2 == 0 {
                Access::Write(3, (j / 2) as u8, 24)
            } else {
                Access::Read(4, 24)
            },
    );
    let mut k: usize = 0;
    while k < 256
        invariant
            k <= 256,
            p@ == p2 + oam_part.take(2 * k as int),
            oam_part == Seq::new(
                512,
                |j: int|
                    if j % 2 == 0 {
                        Access::Write(3, (j / 2) as u8, 24)
                    } else {
                        Access::Read(4, 24)
                    },
            ),
        decreases 256 - k,
    {
        p.push(Access::Write(3, k as u8, 24));
        p.push(Access::Read(4, 24));
        proof {
            assert(oam_part[2 * k as int] == Access::Write(3, k as u8, 24));
            assert(oam_part.take(2 * (k + 1)) =~= oam_part.take(2 * k as int).push(
                Access::Write(3, k as u8, 24),
            ).push(Access::Read(4, 24)));
        }
        k = k + 1;
    }
    p.push(Access::Write(3, 0x00, 24));
    p.push(Access::Write(6, 0x20, 48));
    p.push(Access::Write(6, 0x00, 48));
    p.push(Access::Write(5, 0x00, 48));
    p.push(Access::Write(5, 0x00, 48));
    proof {
        assert(oam_part.take(512) =~= oam_part);
    }
    assert(p@ =~= read_back_spec());
    p
}

/// Reading the palette RAM back in vblank, paced, as the table's recorder
/// measures it: the address pair to $3F00, then the 32 bytes through
/// $2007, an access-width of idle after each access.
pub open spec fn palette_read_spec() -> Seq<Access> {
    seq![Access::Write(6, 0x3f, 24), Access::Write(6, 0x00, 24)] + Seq::new(
        32,
        |i: int| Access::Read(7, 24),
    )
}

/// The palette read-back script.
pub fn palette_read_program() -> (p: Vec<Access>)
    ensures
        p@ == palette_read_spec(),
{
    let mut p: Vec<Access> = Vec::new();
    p.push(Access::Write(6, 0x3f, 24));
    p.push(Access::Write(6, 0x00, 24));
    let ghost p1 = p@;
    let mut i: usize = 0;
    while i < 32
        invariant
            i <= 32,
            p@ == p1 + Seq::new(i as nat, |j: int| Access::Read(7, 24)),
        decreases 32 - i,
    {
        p.push(Access::Read(7, 24));
        proof {
            assert(Seq::new((i + 1) as nat, |j: int| Access::Read(7, 24)) =~= Seq::new(
                i as nat,
                |j: int| Access::Read(7, 24),
            ).push(Access::Read(7, 24)));
        }
        i = i + 1;
    }
    assert(p@ =~= palette_read_spec());
    p
}

} // verus!
