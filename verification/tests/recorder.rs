//! The table's recorder: the fetch an address names, and the folding of
//! half-steps into one word per dot.

use v2c02::events::{
    FETCH_AT, FETCH_NT, FETCH_PT_HI, FETCH_PT_LO, INC_X, RD, SET_VBL, SPR_GARBAGE, SPR_PT_HI,
    SPR_PT_LO,
};
use v2c02::recorder::{classify, RecordStep, Recorder};
use v2c02::{DOTS_PER_LINE, LINES};

#[test]
fn an_address_names_its_fetch() {
    assert_eq!(classify(0x2000, false), FETCH_NT);
    assert_eq!(classify(0x2bbf, false), FETCH_NT);
    assert_eq!(classify(0x23c0, false), FETCH_AT);
    assert_eq!(classify(0x2fff, false), FETCH_AT);
    assert_eq!(classify(0x0ff0, false), FETCH_PT_LO);
    assert_eq!(classify(0x1ff8, false), FETCH_PT_HI);
    assert_eq!(classify(0x0ff0, true), SPR_PT_LO);
    assert_eq!(classify(0x0008, true), SPR_PT_HI);
    assert_eq!(classify(0x23c0, true), SPR_GARBAGE);
    assert_eq!(classify(0x2000, true), SPR_GARBAGE);
}

fn step(vpos: usize, hpos: usize) -> RecordStep {
    RecordStep { hpos, vpos, clear_spr_ptr: false, ale: false, addr: 0, rd_low: false, nodes: 0 }
}

#[test]
fn half_steps_fold_into_their_dots_word() {
    let mut r = Recorder::new();
    for v in 0..LINES {
        for h in 0..DOTS_PER_LINE {
            let mut s = step(v, h);
            match (v, h) {
                (0, 0) => {
                    s.ale = true;
                    s.addr = 0x2001;
                    assert!(r.record(s));
                    s = step(0, 0);
                    s.rd_low = true;
                }
                (0, 1) => s.nodes = INC_X,
                (0, 201) => {
                    s.clear_spr_ptr = true;
                    s.ale = true;
                    s.addr = 0x0008;
                }
                (0, 264) | (0, 265) => {
                    s.ale = true;
                    s.addr = 0x0000;
                }
                (1, 0) => s.nodes = SET_VBL,
                _ => {}
            }
            assert!(r.record(s));
        }
    }
    assert_eq!(r.seen(), LINES * DOTS_PER_LINE - 1);
    assert!(!r.record(step(0, 0)), "the pre-render line's last dot ends it");
    assert_eq!(r.seen(), LINES * DOTS_PER_LINE);
    let t = r.finish();
    assert_eq!(t[0], FETCH_NT | RD);
    assert_eq!(t[1], INC_X);
    assert_eq!(t[201], SPR_PT_HI, "the window starts at the pulse past dot 200");
    assert_eq!(t[264], SPR_PT_LO, "inside the 64 dots");
    assert_eq!(t[265], FETCH_PT_LO, "past them");
    assert_eq!(t[DOTS_PER_LINE], SET_VBL);
    assert_eq!(t.iter().filter(|&&e| e != 0).count(), 6);
}

#[test]
fn an_odd_frame_is_discarded() {
    let mut r = Recorder::new();
    let mut s = step(5, 5);
    s.nodes = INC_X;
    assert!(r.record(s));
    assert!(r.record(step(LINES - 1, DOTS_PER_LINE - 2)));
    assert!(r.record(step(0, 0)));
    assert_eq!(r.seen(), 0, "the frame that ended at dot 339 is thrown away");
    for v in 0..LINES {
        for h in 0..DOTS_PER_LINE {
            if (v, h) != (0, 0) {
                assert!(r.record(step(v, h)));
            }
        }
    }
    assert!(!r.record(step(0, 0)));
    assert_eq!(r.seen(), LINES * DOTS_PER_LINE);
    let t = r.finish();
    assert!(t.iter().all(|&e| e == 0));
}
