//! Whole frames over a sequencer table laid out as the chip's: per tile
//! the nametable, attribute and two pattern fetches on dots 8k+1, +3, +5,
//! +7 and the coarse X increment on 8k+8, for dots 1..256 and the
//! prefetch 321..336; the Y increment at 256, the horizontal copy at 257,
//! the sprite window 257..320 (two garbage fetches and two pattern fetches
//! per sprite), the vertical copy on the pre-render line 280..304; the
//! flag set at (241, 1) and the clear on the pre-render line.

use v2c02::bus::FnVram;
use v2c02::events::{
    CLR_FLAGS, COPY_X, COPY_Y, FETCH_AT, FETCH_NT, FETCH_PT_HI, FETCH_PT_LO, INC_X, INC_Y,
    SET_VBL, SPR_GARBAGE, SPR_PT_HI, SPR_PT_LO,
};
use v2c02::fast::{DotWrite, Fast};
use v2c02::picture::Picture;
use v2c02::position::{traversal_order, Position};
use v2c02::{ACTIVE_DOTS, ACTIVE_ROWS, DOTS_PER_LINE, LINES};

fn chip_table() -> Vec<u16> {
    let mut t = vec![0u16; LINES * DOTS_PER_LINE];
    for line in (0..ACTIVE_ROWS).chain([LINES - 1]) {
        let row = &mut t[line * DOTS_PER_LINE..(line + 1) * DOTS_PER_LINE];
        for start in (1..=249).step_by(8).chain([321, 329]) {
            row[start] |= FETCH_NT;
            row[start + 2] |= FETCH_AT;
            row[start + 4] |= FETCH_PT_LO;
            row[start + 6] |= FETCH_PT_HI;
            row[start + 7] |= INC_X;
        }
        row[337] |= FETCH_NT;
        row[339] |= FETCH_NT;
        row[256] |= INC_Y;
        row[257] |= COPY_X;
        for k in 0..8 {
            let s = 257 + 8 * k;
            row[s] |= SPR_GARBAGE;
            row[s + 2] |= SPR_GARBAGE;
            row[s + 4] |= SPR_PT_LO;
            row[s + 6] |= SPR_PT_HI;
        }
        if line == LINES - 1 {
            for d in 280..=304 {
                row[d] |= COPY_Y;
            }
        }
    }
    t[(ACTIVE_ROWS + 1) * DOTS_PER_LINE + 1] |= SET_VBL;
    t[(LINES - 1) * DOTS_PER_LINE + 1] |= CLR_FLAGS;
    t
}

/// Palette entry i holds $20 + i, so every index shows as itself.
fn palette() -> [u8; 32] {
    let mut p = [0u8; 32];
    for (i, e) in p.iter_mut().enumerate() {
        *e = 0x20 + i as u8;
    }
    p
}

fn solid(_a: u16) -> u8 {
    0xff
}

fn rows_with<F: Fn(usize, usize) -> u8>(pic: &Picture, expect: F) -> Vec<(usize, usize, u8, u8)> {
    let mut bad = Vec::new();
    for r in 0..ACTIVE_ROWS {
        for x in 0..ACTIVE_DOTS {
            let c = pic.at(r, x + 1).0;
            let e = expect(r, x);
            if c != e {
                bad.push((r, x, c, e));
            }
        }
    }
    bad
}

fn with_sprites(mask: u8, sprites: &[(u8, u8, u8, u8)]) -> Fast<FnVram> {
    let mut f = Fast::with_table(chip_table(), solid, palette());
    f.write(3, 0);
    for i in 0..64 {
        let (y, tile, attr, x) = sprites.get(i).copied().unwrap_or((0xf0, 0, 0, 0));
        for b in [y, tile, attr, x] {
            f.write(4, b);
        }
    }
    f.write(1, mask);
    f
}

#[test]
fn a_solid_world_fills_the_picture_with_its_last_background_colour() {
    let mut f = Fast::with_table(chip_table(), solid, palette());
    f.write(1, 0x08);
    let pic = f.frame();
    assert!(rows_with(&pic, |_, _| 0x20 + 15).is_empty());
    assert_eq!(f.position(), Position { line: LINES - 1, dot: 0 });
    assert!(f.spr0_hit.is_none() && !f.spr_overflow);
}

#[test]
fn dots_outside_the_visible_pixels_keep_the_backdrop() {
    let mut f = Fast::with_table(chip_table(), solid, palette());
    f.write(1, 0x08);
    let pic = f.frame();
    for r in [0, 100, ACTIVE_ROWS - 1] {
        assert_eq!(pic.at(r, 0), (0x20, 0));
        for d in ACTIVE_DOTS + 1..DOTS_PER_LINE {
            assert_eq!(pic.at(r, d), (0x20, 0), "row {r} dot {d}");
        }
    }
    for r in ACTIVE_ROWS..LINES {
        for d in 0..DOTS_PER_LINE {
            assert_eq!(pic.at(r, d), (0x20, 0), "row {r} dot {d}");
        }
    }
    assert_eq!(pic.to_vec().len(), LINES * DOTS_PER_LINE);
}

#[test]
fn with_rendering_off_a_fresh_stepper_shows_the_backdrop_and_v_stays() {
    let mut f = Fast::with_table(chip_table(), solid, palette());
    f.write(6, 0x21);
    f.write(6, 0x08);
    let pic = f.frame();
    assert!(rows_with(&pic, |_, _| 0x20).is_empty());
    assert_eq!(f.v, 0x2108);
}

#[test]
fn rendering_walks_v_through_the_frame_and_the_copies_restore_it() {
    let mut f = Fast::with_table(chip_table(), solid, palette());
    f.write(1, 0x08);
    f.write(6, 0x00);
    f.write(6, 0x00);
    f.frame();
    // The pre-render line's copy put t's zero in; 240 Y increments from
    // row 0 pass row 29 into the other nametable's row 0; each line's copy
    // reset X and its prefetch stepped two columns.
    assert_eq!(f.v, 0x0802);
}

#[test]
fn a_mid_frame_ctrl_write_switches_the_pattern_table_two_tiles_late() {
    // Patterns below $1000 are empty, above it solid; the nametable and
    // attribute bytes are solid.
    fn world(a: u16) -> u8 {
        if a < 0x1000 {
            0x00
        } else {
            0xff
        }
    }
    let mut f = Fast::with_table(chip_table(), world, palette());
    f.write(1, 0x08);
    let writes = [DotWrite { vpos: 100, hpos: 0, reg: 0, val: 0x10 }];
    let pic = f.frame_with_writes(&writes);
    let bad = rows_with(&pic, |r, x| {
        if r < 100 || (r == 100 && x < 16) {
            0x20
        } else {
            0x20 + 15
        }
    });
    assert!(bad.is_empty(), "{} dots differ, first {:?}", bad.len(), bad.first());
    assert_eq!(f.ctrl, 0x10);
}

#[test]
fn writes_on_the_same_dot_land_in_order() {
    let mut f = Fast::with_table(chip_table(), solid, palette());
    let writes = [
        DotWrite { vpos: 261, hpos: 0, reg: 1, val: 0x08 },
        DotWrite { vpos: 261, hpos: 0, reg: 6, val: 0x3f },
        DotWrite { vpos: 261, hpos: 0, reg: 6, val: 0x0f },
        DotWrite { vpos: 261, hpos: 0, reg: 7, val: 0x05 },
    ];
    let pic = f.frame_with_writes(&writes);
    assert_eq!(f.palette[15], 0x05);
    assert!(rows_with(&pic, |_, _| 0x05).is_empty());
}

#[test]
fn a_sprite_shows_on_the_eight_rows_after_its_y_and_hits_on_the_first() {
    let mut f = with_sprites(0x18, &[(10, 0, 0x00, 20)]);
    let pic = f.frame();
    let bad = rows_with(&pic, |r, x| {
        if (11..19).contains(&r) && (20..28).contains(&x) {
            0x20 + 0x13
        } else {
            0x20 + 15
        }
    });
    assert!(bad.is_empty(), "{} dots differ, first {:?}", bad.len(), bad.first());
    assert_eq!(f.spr0_hit, Some((11, 20)));
    assert!(!f.spr_overflow);
}

#[test]
fn a_sprite_behind_an_opaque_background_is_hidden_but_still_hits() {
    let mut f = with_sprites(0x18, &[(10, 0, 0x20, 20)]);
    let pic = f.frame();
    assert!(rows_with(&pic, |_, _| 0x20 + 15).is_empty());
    assert_eq!(f.spr0_hit, Some((11, 20)));
}

#[test]
fn with_the_background_off_a_sprite_shows_over_the_backdrop_and_never_hits() {
    let mut f = with_sprites(0x10, &[(10, 0, 0x02, 20)]);
    let pic = f.frame();
    let bad = rows_with(&pic, |r, x| {
        if (11..19).contains(&r) && (20..28).contains(&x) {
            0x20 + 0x1b
        } else {
            0x20
        }
    });
    assert!(bad.is_empty(), "{} dots differ, first {:?}", bad.len(), bad.first());
    assert!(f.spr0_hit.is_none());
}

#[test]
fn a_sprite_at_the_right_edge_hits_short_of_pixel_255() {
    let mut f = with_sprites(0x18, &[(50, 0, 0x00, 255)]);
    f.frame();
    assert!(f.spr0_hit.is_none(), "pixel 255 never hits");
    let mut g = with_sprites(0x18, &[(50, 0, 0x00, 254)]);
    g.frame();
    assert_eq!(g.spr0_hit, Some((51, 254)));
}

#[test]
fn the_lower_oam_index_wins_where_sprites_overlap() {
    let mut f = with_sprites(0x10, &[(0xf0, 0, 0, 0), (30, 0, 0x01, 40), (30, 0, 0x03, 44)]);
    let pic = f.frame();
    assert_eq!(pic.at(31, 41).0, 0x20 + 0x17, "sprite 1 alone");
    assert_eq!(pic.at(31, 45).0, 0x20 + 0x17, "sprite 1 over sprite 2");
    assert_eq!(pic.at(31, 49).0, 0x20 + 0x1f, "sprite 2 alone");
    assert!(f.spr0_hit.is_none(), "sprite 0 is parked");
}

#[test]
fn a_ninth_sprite_on_a_line_sets_overflow_and_is_not_drawn() {
    let sprites: Vec<(u8, u8, u8, u8)> = (0..9u8).map(|k| (100, 0, k & 3, 10 * k)).collect();
    let mut f = with_sprites(0x10, &sprites);
    let pic = f.frame();
    assert!(f.spr_overflow);
    for k in 0..8u8 {
        assert_eq!(pic.at(101, 10 * k as usize + 1).0, 0x20 + 0x13 + 4 * (k & 3), "sprite {k}");
    }
    assert_eq!(pic.at(101, 80 + 8).0, 0x20, "the ninth is not drawn");
}

#[test]
fn line_zero_draws_no_sprites() {
    let mut f = with_sprites(0x10, &[(0xff, 0, 0, 0), (0, 0, 0, 0)]);
    let pic = f.frame();
    assert_eq!(pic.at(0, 1).0, 0x20);
    assert_eq!(pic.at(1, 1).0, 0x20 + 0x13);
}

#[test]
fn the_flags_reset_as_a_new_frame_starts_and_vblank_sets_at_241() {
    let mut f = with_sprites(0x18, &[(10, 0, 0x00, 20)]);
    f.write(0, 0x80);
    f.frame();
    assert!(f.vbl && f.nmi_asserted(), "the set at (241, 1) went ahead");
    assert_eq!(f.read(2), 0xc0);
    assert!(!f.vbl);
    assert_eq!(f.spr0_hit, Some((11, 20)), "the hit stays until the next frame");
    f.step_dot();
    assert!(f.spr0_hit.is_none(), "the frame's start clears the hit");
}

#[test]
fn step_dot_hands_the_picture_out_on_the_last_dot_of_line_260() {
    let mut f = Fast::with_table(chip_table(), solid, palette());
    f.write(1, 0x08);
    let mut steps = 0usize;
    loop {
        steps += 1;
        let before = f.position();
        if let Some(pic) = f.step_dot() {
            assert_eq!(before, Position { line: 260, dot: 340 });
            assert_eq!(pic.at(5, 5).0, 0x20 + 15);
            break;
        }
    }
    assert_eq!(steps, LINES * DOTS_PER_LINE);
    assert_eq!(f.position(), Position { line: 261, dot: 0 });
}

#[test]
fn traversal_order_starts_at_the_pre_render_line() {
    assert_eq!(traversal_order(Position { line: 261, dot: 0 }), 0);
    assert_eq!(traversal_order(Position { line: 261, dot: 340 }), 340);
    assert_eq!(traversal_order(Position { line: 0, dot: 0 }), 341);
    assert_eq!(traversal_order(Position { line: 260, dot: 340 }), LINES * DOTS_PER_LINE - 1);
}

#[test]
fn a_frame_is_ready_at_the_start_with_its_writes_in_order() {
    let w = |vpos: usize, hpos: usize, reg: u8, val: u8| DotWrite { vpos, hpos, reg, val };
    let mut f = Fast::with_table(chip_table(), solid, palette());
    assert!(f.frame_ready(&[]));
    assert!(f.frame_ready(&[w(261, 0, 1, 8), w(261, 0, 1, 0), w(0, 5, 6, 0), w(100, 0, 0, 0x10)]));
    assert!(!f.frame_ready(&[w(0, 5, 6, 0), w(261, 0, 1, 8)]), "line 261 comes first");
    assert!(!f.frame_ready(&[w(10, 341, 1, 0)]), "no dot 341");
    assert!(!f.frame_ready(&[w(262, 0, 1, 0)]), "no line 262");
    assert!(!f.frame_ready(&[w(261, 0, 8, 0x20)]), "8x16 sprites at the start");
    assert!(f.frame_ready(&[w(261, 0, 0, 0x20), w(261, 0, 0, 0x00)]), "cleared again on the same dot");
    assert!(f.frame_ready(&[w(261, 1, 0, 0x20)]), "later is the next frame's concern");
    f.write(0, 0x20);
    assert!(!f.frame_ready(&[]));
    assert!(f.frame_ready(&[w(261, 0, 0, 0x00)]));
    f.write(0, 0x00);
    f.step_dot();
    assert!(!f.frame_ready(&[]), "the stepper has left the frame's start");
}

fn blank_frame(writes: &[DotWrite]) -> (Fast<FnVram>, Picture) {
    let mut f = Fast::with_table(vec![0u16; LINES * DOTS_PER_LINE], |_| 0, palette());
    assert!(f.frame_ready(writes));
    let pic = f.frame_with_writes(writes);
    (f, pic)
}

#[test]
fn the_blank_picture_follows_v_into_palette_ram() {
    let w = |vpos: usize, hpos: usize, reg: u8, val: u8| DotWrite { vpos, hpos, reg, val };
    let writes = [
        w(10, 0, 6, 0x3f),
        w(10, 0, 6, 0x05),
        w(20, 100, 7, 0x11),
        w(30, 0, 6, 0x3f),
        w(30, 0, 6, 0x10),
        w(40, 0, 6, 0x3f),
        w(40, 0, 6, 0x14),
        w(50, 0, 6, 0x20),
        w(50, 0, 6, 0x00),
    ];
    let (f, pic) = blank_frame(&writes);
    let bad = rows_with(&pic, |r, x| {
        let d = x + 1;
        match r {
            0..=9 => 0x20,
            10..=19 => 0x25,
            20 if d < 100 => 0x25,
            20 if d == 100 => 0x11,
            20..=29 => 0x26,
            30..=39 => 0x20,
            40..=49 => 0x24,
            _ => 0x20,
        }
    });
    assert!(bad.is_empty(), "{} dots differ, first {:?}", bad.len(), bad.first());
    assert_eq!(f.palette[5], 0x11);
    assert_eq!(f.v, 0x2000);
}

#[test]
fn a_2007_step_shows_one_dot_after_the_write() {
    let w = |vpos: usize, hpos: usize, reg: u8, val: u8| DotWrite { vpos, hpos, reg, val };
    let (_, pic) = blank_frame(&[w(5, 0, 6, 0x3f), w(5, 0, 6, 0xff), w(5, 50, 0, 0x04), w(5, 50, 7, 0x07)]);
    assert_eq!(pic.at(5, 49).0, 0x20 + 0x1f);
    assert_eq!(pic.at(5, 50).0, 0x07, "the write's dot shows the address it wrote");
    assert_eq!(pic.at(5, 51).0, 0x20, "then v's step by 32, to $401F, is outside palette RAM");
}

#[test]
fn emphasis_rides_beside_each_pixel_from_the_mask() {
    let w = |vpos: usize, hpos: usize, reg: u8, val: u8| DotWrite { vpos, hpos, reg, val };
    let (_, pic) = blank_frame(&[w(67, 102, 1, 0x20), w(67, 202, 1, 0x00), w(70, 0, 1, 0xe0)]);
    for d in 1..=ACTIVE_DOTS {
        let want = if (102..202).contains(&d) { 1 } else { 0 };
        assert_eq!(pic.at(67, d).1, want, "row 67 dot {d}");
    }
    assert!((0..67).all(|r| (1..=ACTIVE_DOTS).all(|d| pic.at(r, d).1 == 0)));
    assert!((70..ACTIVE_ROWS).all(|r| (1..=ACTIVE_DOTS).all(|d| pic.at(r, d) == (0x20, 7))));
    assert_eq!(pic.at(70, 0), (0x20, 0), "dots off the pixels carry no emphasis");
    assert_eq!(pic.at(240, 5), (0x20, 0));
}

#[test]
fn a_fresh_blank_frame_is_the_backdrop_everywhere() {
    let mut f = Fast::with_table(vec![0u16; LINES * DOTS_PER_LINE], |_| 0, [0x56u8; 32]);
    let mut out = None;
    for i in 1..=LINES * DOTS_PER_LINE {
        let r = f.step_dot();
        assert_eq!(r.is_some(), i == LINES * DOTS_PER_LINE, "call {i}");
        out = out.or(r);
    }
    let pic = out.unwrap();
    assert!(pic.to_vec().iter().all(|&d| d == (0x16, 0)));
    assert_eq!(f.position(), Position { line: 261, dot: 0 });
}
