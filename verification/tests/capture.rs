//! The capture's reading of the chip, half-step by half-step.

use v2c02::capture::{Capture, HalfStep, Leg};

fn step(vpos: u16, hpos: u16, pclk1: bool, colour: u8) -> HalfStep {
    HalfStep { hpos, vpos, hit: false, overflow: false, legs: 0, emph: false, pclk1, colour }
}

#[test]
fn the_colour_is_sampled_on_the_second_pclk1_half_step_at_dot_h_plus_one() {
    let mut c = Capture::new(2, false, false);
    assert!(c.observe(step(261, 340, false, 0)));
    assert!(c.observe(step(0, 0, true, 0x11)));
    assert!(c.observe(step(0, 0, true, 0x12)));
    assert!(c.observe(step(0, 1, false, 0x00)));
    assert!(c.observe(step(0, 1, true, 0x21)));
    assert!(c.observe(step(0, 1, true, 0x22)));
    assert!(c.observe(step(1, 339, true, 0x31)));
    assert!(c.observe(step(1, 339, true, 0x32)));
    assert!(c.observe(step(1, 340, true, 0x3f)));
    assert!(!c.observe(step(2, 0, true, 0x05)), "row 2 is past the capture");
    let cap = c.finish();
    assert_eq!(cap.dots.at(0, 1).0, 0x12);
    assert_eq!(cap.dots.at(0, 2).0, 0x22);
    assert_eq!(cap.dots.at(1, 340).0, 0x32);
    assert_eq!(cap.dots.at(0, 0).0, 0x0f, "untouched dots keep the $0F black");
    assert_eq!(cap.dots.at(1, 1).0, 0x0f);
    assert_eq!(cap.trace.len(), 9);
    assert_eq!(cap.trace[0], (340, 261, 0, false));
}

#[test]
fn the_last_dot_of_a_line_is_never_sampled() {
    let mut c = Capture::new(240, false, false);
    c.observe(step(5, 340, true, 0x01));
    c.observe(step(5, 340, true, 0x02));
    let cap = c.finish();
    assert_eq!(cap.dots.to_vec().iter().filter(|&&d| d != (0x0f, 0)).count(), 0);
}

#[test]
fn the_flags_record_their_first_rise_only() {
    let mut c = Capture::new(240, true, false);
    let mut h = step(3, 10, false, 0);
    h.hit = true;
    c.observe(h);
    h = step(3, 11, false, 0);
    c.observe(h);
    h = step(4, 20, false, 0);
    h.hit = true;
    h.overflow = true;
    h.legs = 1 << Leg::Blank.index();
    h.emph = true;
    c.observe(h);
    h = step(5, 30, false, 0);
    h.hit = false;
    c.observe(h);
    h = step(6, 40, false, 0);
    h.hit = true;
    h.overflow = true;
    c.observe(h);
    let cap = c.finish();
    assert_eq!(cap.spr0_hit, Some((4, 20)), "high at the start is no rise");
    assert_eq!(cap.spr_overflow, Some((4, 20)));
    assert_eq!(cap.trace[2], (20, 4, 2, true));
}

#[test]
fn the_legs_count_in_canonical_order() {
    let legs = [
        Leg::SyncTip,
        Leg::Blank,
        Leg::BurstLow,
        Leg::BurstHigh,
        Leg::Luma0Low,
        Leg::Luma0High,
        Leg::Luma1Low,
        Leg::Luma1High,
        Leg::Luma2Low,
        Leg::Luma2High,
        Leg::Luma3Low,
        Leg::Luma3High,
    ];
    for (i, leg) in legs.iter().enumerate() {
        assert_eq!(leg.index(), i);
    }
}
