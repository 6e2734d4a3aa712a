//! The worlds: the VRAM function, the sprite OAM and the register programs,
//! and what the register file holds after running them.

use v2c02::bus::FnVram;
use v2c02::fast::Fast;
use v2c02::world::{
    read_back_program, sprite_oam, sprite_program, standard_program, vram, Access, PALETTE,
    SPRITE_PALETTE,
};
use v2c02::{DOTS_PER_LINE, LINES};

fn fresh() -> Fast<FnVram> {
    Fast::with_table(vec![0u16; LINES * DOTS_PER_LINE], vram, [0u8; 32])
}

#[test]
fn the_world_vram_is_the_address_folded_onto_itself() {
    assert_eq!(vram(0x0000), 0x00);
    assert_eq!(vram(0x0010), 0x11);
    assert_eq!(vram(0x0ff0), 0x0f);
    assert_eq!(vram(0x1234), 0x17);
    assert_eq!(vram(0x2000), 0x00);
    assert_eq!(vram(0xffff), 0x00);
}

#[test]
fn the_sprite_oam_places_each_sprite() {
    let oam = sprite_oam();
    assert_eq!(&oam[0..4], &[90, 1, 0x00, 180]);
    assert_eq!(&oam[4..8], &[40, 3, 0x01, 20]);
    assert_eq!(&oam[8..12], &[40, 3, 0x41, 28]);
    assert_eq!(&oam[12..16], &[40, 3, 0x81, 36]);
    assert_eq!(&oam[16..20], &[40, 3, 0xc1, 44]);
    assert_eq!(&oam[20..24], &[40, 5, 0x22, 52]);
    for k in 0..9u8 {
        let i = 6 + k as usize;
        assert_eq!(&oam[i * 4..i * 4 + 4], &[120, 2 + k, k & 3, 16 + 24 * k], "sprite {i}");
    }
    assert_eq!(&oam[60..64], &[200, 4, 0x03, 250]);
    assert_eq!(&oam[64..68], &[236, 6, 0x00, 100]);
    assert_eq!(&oam[68..72], &[60, 2, 0x00, 100]);
    assert_eq!(&oam[72..76], &[62, 4, 0x01, 104]);
    for i in 19..64 {
        assert_eq!(&oam[i * 4..i * 4 + 4], &[0xf0, 0, 0, 0], "sprite {i} parked");
    }
}

#[test]
fn the_standard_program_loads_the_palette_and_parks_the_address() {
    let p = standard_program();
    assert_eq!(p.len(), 25);
    assert_eq!(p[0], (0, 0x00, 0));
    assert_eq!(p[2], (6, 0x3f, 0));
    for (i, &c) in PALETTE.iter().enumerate() {
        assert_eq!(p[4 + i], (7, c, 0));
    }
    assert_eq!(p[24], (1, 0x0a, 0));
    let mut f = fresh();
    f.run_program(&p);
    assert_eq!(&f.palette[..16], &PALETTE[..]);
    assert_eq!((f.ctrl, f.mask), (0x00, 0x0a));
    assert_eq!((f.t, f.v, f.fine_x, f.w), (0x0000, 0x2000, 0, false));
    assert!(f.vram_writes.is_empty());
}

#[test]
fn the_sprite_program_loads_the_sprites_and_their_palettes() {
    let p = sprite_program();
    assert_eq!(p.len(), 1 + 20 + 1 + 256 + 5);
    assert_eq!(p[0], (1, 0x00, 24));
    assert_eq!(p[1], (6, 0x3f, 24));
    assert_eq!(p[2], (6, 0x11, 48));
    assert_eq!(p[5], (7, 0x01, 24));
    assert_eq!(p[7], (6, 0x15, 48));
    assert_eq!(p[21], (3, 0x00, 24));
    assert_eq!(p[22], (4, 90, 24));
    assert_eq!(p[282], (1, 0x1e, 0));
    let mut f = fresh();
    f.run_program(&standard_program());
    f.run_program(&p);
    assert_eq!(f.oam, sprite_oam());
    for (q, cols) in SPRITE_PALETTE.iter().enumerate() {
        assert_eq!(&f.palette[0x11 + 4 * q..0x14 + 4 * q], &cols[..], "sprite palette {q}");
    }
    assert_eq!(&f.palette[..16], &PALETTE[..]);
    assert_eq!((f.ctrl, f.mask), (0x00, 0x1e));
    assert_eq!((f.t, f.v, f.fine_x, f.w), (0x0000, 0x2000, 0, false));
    assert_eq!(f.oamaddr, 0);
}

#[test]
fn the_read_back_script_reads_the_palette_then_each_oam_byte() {
    let p = read_back_program();
    assert_eq!(p.len(), 2 + 32 + 512 + 5);
    assert_eq!(&p[..2], &[Access::Write(6, 0x3f, 24), Access::Write(6, 0x00, 48)]);
    assert!(p[2..34].iter().all(|&a| a == Access::Read(7, 24)));
    for i in 0..256usize {
        assert_eq!(p[34 + 2 * i], Access::Write(3, i as u8, 24));
        assert_eq!(p[35 + 2 * i], Access::Read(4, 24));
    }
    assert_eq!(
        &p[546..],
        &[
            Access::Write(3, 0x00, 24),
            Access::Write(6, 0x20, 48),
            Access::Write(6, 0x00, 48),
            Access::Write(5, 0x00, 48),
            Access::Write(5, 0x00, 48),
        ]
    );
    let reads = p.iter().filter(|a| matches!(a, Access::Read(..))).count();
    assert_eq!(reads, 32 + 256);
}

#[test]
fn the_read_back_script_on_the_register_file_reads_what_the_worlds_loaded() {
    let mut f = fresh();
    f.run_program(&standard_program());
    f.run_program(&sprite_program());
    let mut reads = Vec::new();
    for a in read_back_program() {
        match a {
            Access::Write(reg, val, _) => f.write(reg, val),
            Access::Read(reg, _) => reads.push(f.read(reg)),
            Access::Idle(_) => {}
        }
    }
    assert_eq!(&reads[..16], &PALETTE[..]);
    assert_eq!(&reads[32..], &sprite_oam()[..]);
    assert_eq!((f.t, f.v, f.oamaddr), (0x0000, 0x2000, 0));
}

#[test]
fn the_palette_read_script_reads_the_32_entries_from_3f00() {
    let p = v2c02::world::palette_read_program();
    assert_eq!(p.len(), 34);
    assert_eq!(&p[..2], &[Access::Write(6, 0x3f, 24), Access::Write(6, 0x00, 24)]);
    assert!(p[2..].iter().all(|&a| a == Access::Read(7, 24)));
    let mut f = fresh();
    f.run_program(&standard_program());
    let reads: Vec<u8> = p
        .iter()
        .filter_map(|&a| match a {
            Access::Write(reg, val, _) => {
                f.write(reg, val);
                None
            }
            Access::Read(reg, _) => Some(f.read(reg)),
            Access::Idle(_) => None,
        })
        .collect();
    assert_eq!(&reads[..16], &PALETTE[..]);
}

#[test]
fn the_standard_world_warms_up_resets_the_toggle_then_runs_its_program() {
    let p = v2c02::world::standard_world_script();
    assert_eq!(&p[..2], &[Access::Idle(712_100), Access::Read(2, 0)]);
    assert_eq!(p.len(), 2 + standard_program().len());
    for (a, &(reg, val, idle)) in p[2..].iter().zip(standard_program().iter()) {
        assert_eq!(*a, Access::Write(reg, val, idle));
    }
    assert_eq!(v2c02::world::READ_BACK_LINE, 242);
    assert!(v2c02::capture::at_frame_boundary(261, 340));
    assert!(!v2c02::capture::at_frame_boundary(261, 339));
    assert!(!v2c02::capture::at_frame_boundary(260, 340));
}
