//! The register file: what each write does to the state, what each read
//! answers.

use v2c02::bus::FnVram;
use v2c02::fast::Fast;
use v2c02::{DOTS_PER_LINE, LINES};

fn world(a: u16) -> u8 {
    (a >> 8) as u8 ^ (a as u8)
}

fn fresh() -> Fast<FnVram> {
    Fast::with_table(vec![0u16; LINES * DOTS_PER_LINE], world, [0u8; 32])
}

#[test]
fn a_fresh_stepper_starts_at_the_pre_render_line_with_oam_all_ones() {
    let f = fresh();
    assert_eq!(f.position(), v2c02::position::Position { line: 261, dot: 0 });
    assert!(f.oam.iter().all(|&b| b == 0xff));
    assert_eq!((f.ctrl, f.mask, f.v, f.t, f.fine_x, f.w, f.oamaddr), (0, 0, 0, 0, 0, false, 0));
    assert!(!f.vbl && f.spr0_hit.is_none() && !f.spr_overflow);
}

#[test]
fn an_address_pair_points_v_at_the_address() {
    let mut f = fresh();
    f.write(6, 0xff);
    assert!(f.w);
    assert_eq!(f.t, 0x3f00);
    assert_eq!(f.v, 0, "v waits for the second write");
    f.write(6, 0x42);
    assert!(!f.w);
    assert_eq!((f.t, f.v), (0x3f42, 0x3f42));
}

#[test]
fn a_scroll_pair_sets_coarse_and_fine_scroll() {
    let mut f = fresh();
    f.write(5, 0x7d); // coarse X 15, fine X 5
    assert_eq!((f.t, f.fine_x, f.w), (0x000f, 5, true));
    f.write(5, 0x5e); // coarse Y 11, fine Y 6
    assert_eq!((f.t, f.fine_x, f.w), (0x616f, 5, false));
    assert_eq!(f.v, 0);
}

#[test]
fn ctrl_selects_the_nametable_bits_of_t() {
    let mut f = fresh();
    f.write(5, 0xff);
    f.write(5, 0xff);
    f.write(0, 0x03);
    assert_eq!(f.t, 0x7fff);
    f.write(0, 0x80);
    assert_eq!(f.t, 0x73ff);
    assert_eq!(f.ctrl, 0x80);
}

#[test]
fn registers_repeat_every_eight_addresses() {
    let mut f = fresh();
    f.write(9, 0x18);
    assert_eq!(f.mask, 0x18);
    f.write(0x0b, 0x40);
    assert_eq!(f.oamaddr, 0x40);
}

#[test]
fn a_status_read_answers_the_flags_and_clears_vblank_and_the_toggle() {
    let mut f = fresh();
    f.vbl = true;
    f.spr_overflow = true;
    f.spr0_hit = Some((3, 4));
    f.write(6, 0x21);
    assert!(f.w);
    assert_eq!(f.read(2), 0xe0);
    assert!(!f.vbl && !f.w);
    assert_eq!(f.read(2), 0x60, "the sprite flags stay, vblank went");
}

#[test]
fn write_only_registers_read_as_zero() {
    let mut f = fresh();
    f.write(0, 0x80);
    for reg in [0u8, 1, 3, 5, 6] {
        assert_eq!(f.read(reg), 0);
    }
}

#[test]
fn oam_writes_advance_the_address_and_read_back() {
    let mut f = fresh();
    f.write(3, 0xfe);
    f.write(4, 0x11);
    f.write(4, 0x22);
    f.write(4, 0x33);
    assert_eq!(f.oamaddr, 0x01, "the address wraps");
    assert_eq!((f.oam[0xfe], f.oam[0xff], f.oam[0x00]), (0x11, 0x22, 0x33));
    f.write(3, 0xff);
    assert_eq!(f.read(4), 0x22);
    assert_eq!(f.oamaddr, 0xff, "a read does not advance it");
}

#[test]
fn palette_writes_keep_six_bits_and_read_back_at_once() {
    let mut f = fresh();
    f.write(6, 0x3f);
    f.write(6, 0x05);
    f.write(7, 0xe7);
    assert_eq!(f.palette[5], 0x27);
    assert_eq!(f.v, 0x3f06);
    f.write(6, 0x3f);
    f.write(6, 0x05);
    assert_eq!(f.read(7), 0x27);
    assert!(f.vram_writes.is_empty());
}

#[test]
fn the_sprite_backdrop_entries_mirror_the_background_ones() {
    let mut f = fresh();
    for (a, slot) in [(0x10u8, 0usize), (0x14, 4), (0x18, 8), (0x1c, 12)] {
        f.write(6, 0x3f);
        f.write(6, a);
        f.write(7, 0x30 + slot as u8);
        assert_eq!(f.palette[slot], 0x30 + slot as u8, "$3F{a:02X}");
        f.write(6, 0x3f);
        f.write(6, slot as u8);
        assert_eq!(f.read(7), 0x30 + slot as u8);
    }
    f.write(6, 0x3f);
    f.write(6, 0x11);
    f.write(7, 0x21);
    assert_eq!(f.palette[0x11], 0x21, "$3F11 is its own entry");
    f.write(6, 0x3f);
    f.write(6, 0x31);
    f.write(7, 0x22);
    assert_eq!(f.palette[0x11], 0x22, "$3F31 mirrors $3F11");
}

#[test]
fn vram_reads_go_through_the_buffer() {
    let mut f = fresh();
    f.write(6, 0x21);
    f.write(6, 0x34);
    assert_eq!(f.read(7), 0x00, "the first read answers the empty buffer");
    assert_eq!(f.read(7), world(0x2134));
    assert_eq!(f.read(7), world(0x2135));
    assert_eq!(f.v, 0x2137);
}

#[test]
fn a_palette_read_fills_the_buffer_from_the_nametable_beneath() {
    let mut f = fresh();
    f.write(6, 0x3f);
    f.write(6, 0x07);
    let _ = f.read(7);
    f.write(6, 0x00);
    f.write(6, 0x00);
    assert_eq!(f.read(7), world(0x2f07));
}

#[test]
fn vram_writes_are_recorded_and_step_by_the_ctrl_increment() {
    let mut f = fresh();
    f.write(0, 0x04);
    f.write(6, 0x20);
    f.write(6, 0x00);
    f.write(7, 0xaa);
    f.write(7, 0xbb);
    assert_eq!(f.vram_writes, vec![(0x2000, 0xaa), (0x2020, 0xbb)]);
    assert_eq!(f.v, 0x2040);
}

#[test]
fn v_wraps_within_fifteen_bits() {
    let mut f = fresh();
    f.write(6, 0x3f);
    f.write(6, 0xff);
    f.v = 0x7fff;
    f.write(7, 0x01);
    assert_eq!(f.v, 0x0000);
    assert!(f.vram_writes.is_empty(), "$3FFF is palette RAM");
    assert_eq!(f.palette[0x1f], 0x01);
}

#[test]
fn nmi_needs_the_flag_and_the_enable() {
    let mut f = fresh();
    f.vbl = true;
    assert!(!f.nmi_asserted());
    f.write(0, 0x80);
    assert!(f.nmi_asserted());
    let _ = f.read(2);
    assert!(!f.nmi_asserted());
}

#[test]
fn a_program_is_its_writes_in_order() {
    let mut a = fresh();
    let mut b = fresh();
    let program = [(6u8, 0x3fu8, 24u64), (6, 0x00, 0), (7, 0x0f, 0), (7, 0x16, 48), (1, 0x1e, 0)];
    a.run_program(&program);
    for &(reg, val, _) in program.iter() {
        b.write(reg, val);
    }
    assert_eq!((a.palette, a.v, a.mask), (b.palette, b.v, b.mask));
    assert_eq!((a.palette[0], a.palette[1]), (0x0f, 0x16));
}
