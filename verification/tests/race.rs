//! The $2002 read race: at every half-step of the two dots before the
//! set, a timed read misses, or suppresses the set; on the set's dot it
//! consumes. The sequencer table here carries the two flag events at the
//! measured positions: the set at (241, 1), the clear across the
//! pre-render line from dot 1.

use v2c02::bus::FnVram;
use v2c02::events::{CLR_FLAGS, SET_VBL};
use v2c02::fast::Fast;
use v2c02::position::Position;
use v2c02::race::{race_outcome, RaceOutcome, CONSUME_FROM, SUPPRESS_FROM};
use v2c02::{ACTIVE_ROWS, DOTS_PER_LINE, LINES};

fn flag_table() -> Vec<u16> {
    let mut t = vec![0u16; LINES * DOTS_PER_LINE];
    t[(ACTIVE_ROWS + 1) * DOTS_PER_LINE + 1] |= SET_VBL;
    for d in 1..DOTS_PER_LINE {
        t[(LINES - 1) * DOTS_PER_LINE + d] |= CLR_FLAGS;
    }
    t
}

/// NMI enabled, rendering off, stepped until the dot `before` the set
/// (1 = the dot before, 2 = two before) is the last one stepped.
fn at(before: usize) -> Fast<FnVram> {
    let mut f = Fast::with_table(flag_table(), |_| 0, [0u8; 32]);
    f.write(0, 0x80);
    let set = Position { line: ACTIVE_ROWS + 1, dot: 1 };
    let target = if before <= set.dot {
        Position { line: set.line, dot: set.dot - before }
    } else {
        Position { line: set.line - 1, dot: DOTS_PER_LINE - (before - set.dot) }
    };
    let next = if target.dot + 1 < DOTS_PER_LINE {
        Position { line: target.line, dot: target.dot + 1 }
    } else {
        Position { line: target.line + 1, dot: 0 }
    };
    while f.position() != next {
        f.step_dot();
    }
    assert_eq!(f.nmi_asserted(), before == 0, "the set's dot is stepped only when `before` is 0");
    f
}

#[test]
fn a_read_starting_eight_or_more_half_steps_before_the_set_misses_it() {
    let mut cases: Vec<(usize, u8)> = (0..8u8).map(|h| (2, h)).collect();
    cases.push((1, 0));
    for (before, into) in cases {
        let mut f = at(before);
        let byte = f.read_timed(2, into);
        assert_eq!(byte & 0x80, 0, "{before} dots before, half-step {into}: read as clear");
        while f.position() != (Position { line: ACTIVE_ROWS + 1, dot: 2 }) {
            f.step_dot();
        }
        assert!(f.nmi_asserted(), "{before} dots before, half-step {into}: the set went ahead, /INT falls");
        assert_eq!(f.read(2) & 0x80, 0x80, "{before} dots before, half-step {into}: the flag is there for a later read");
    }
}

#[test]
fn a_read_starting_inside_the_dot_before_the_set_suppresses_it() {
    for into in 1..8u8 {
        let mut f = at(1);
        let byte = f.read_timed(2, into);
        assert_eq!(byte & 0x80, 0, "half-step {into}: read as clear");
        while f.position() != (Position { line: ACTIVE_ROWS + 1, dot: 2 }) {
            f.step_dot();
        }
        assert!(!f.nmi_asserted(), "half-step {into}: the set was suppressed, /INT never falls");
        assert_eq!(f.read(2) & 0x80, 0, "half-step {into}: the flag never set");
    }
}

#[test]
fn a_read_on_the_sets_dot_consumes_it_after_int_fell() {
    for into in 0..8u8 {
        let mut f = at(0);
        assert!(f.nmi_asserted(), "the set's dot was stepped: /INT is low");
        let byte = f.read_timed(2, into);
        assert_eq!(byte & 0x80, 0x80, "half-step {into}: read as set");
        assert!(!f.nmi_asserted(), "half-step {into}: consumed, /INT back up");
    }
}

#[test]
fn a_read_starting_at_the_sets_dot_before_it_is_stepped_consumes_it() {
    // The set's dot is the next to step and the read starts as that dot
    // begins (eight half-steps into the dot last stepped): it reads the
    // flag as set, and stepping the set's dot then leaves the flag down.
    let mut f = at(1);
    assert_eq!(f.read_timed(2, 8) & 0x80, 0x80, "read as set");
    f.step_dot();
    assert!(!f.nmi_asserted(), "the consumed set never raises the flag");
    assert_eq!(f.read(2) & 0x80, 0, "the flag never set");
}

#[test]
fn a_timed_read_of_another_register_reads_as_read() {
    let mut f = at(1);
    f.write(3, 5);
    f.write(4, 0x42);
    f.write(3, 5);
    assert_eq!(f.read_timed(4, 3), 0x42);
}

#[test]
fn the_race_outcome_follows_the_offset_from_the_set() {
    assert_eq!((CONSUME_FROM, SUPPRESS_FROM), (-1, -8));
    assert_eq!(race_outcome(None, 3), RaceOutcome::Miss);
    assert_eq!(race_outcome(Some(0), 0), RaceOutcome::Miss);
    for into in 1..8 {
        assert_eq!(race_outcome(Some(0), into), RaceOutcome::Suppress, "into {into}");
    }
    assert_eq!(race_outcome(Some(0), 8), RaceOutcome::Consume);
    for into in 0..8 {
        assert_eq!(race_outcome(Some(1), into), RaceOutcome::Miss, "a dot further, into {into}");
    }
    assert_eq!(race_outcome(Some(1), 9), RaceOutcome::Suppress);
    assert_eq!(race_outcome(Some(-1), 0), RaceOutcome::Consume);
}

#[test]
fn a_suppression_is_spent_and_the_next_frames_set_raises_the_flag() {
    let mut f = at(1);
    assert_eq!(f.read_timed(2, 3) & 0x80, 0);
    let after_set = Position { line: ACTIVE_ROWS + 1, dot: 2 };
    while f.position() != after_set {
        f.step_dot();
    }
    assert!(!f.nmi_asserted(), "this frame's set was suppressed");
    f.step_dot();
    while f.position() != after_set {
        f.step_dot();
    }
    assert!(f.nmi_asserted(), "the next frame's set goes ahead");
}
