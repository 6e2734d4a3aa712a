//! The sequencer table's recorder: one frame of the switch-level chip
//! reduced to one event word per dot. Each half-step the chip shows is
//! folded into the word of the dot it belongs to: the fetch the address
//! latched at ALE names (classified by address, and by whether the dot
//! lies in the sprite window, the 64 dots from the `clear_spr_ptr` pulse
//! past dot 200), /RD low, and the named nodes that were high.

use vstd::prelude::*;

use crate::events::{
    FETCH_AT, FETCH_NT, FETCH_PT_HI, FETCH_PT_LO, RD, SPR_GARBAGE, SPR_PT_HI, SPR_PT_LO,
};
use crate::position::frame_dots;
use crate::{DOTS_PER_LINE, LINES};

verus! {

/// The fetch an address latched at ALE names: below $2000 a pattern fetch,
/// its plane by bit 3; above it, outside the sprite window, an attribute
/// fetch when bits 6..9 are all set and a nametable fetch otherwise; inside
/// the sprite window the pattern planes are the sprites' and everything
/// else is a garbage fetch.
pub open spec fn classify_spec(addr: u16, in_sprite_window: bool) -> u16 {
    let high_plane = (addr / 8) % 2 == 1;
    if addr < 0x2000 {
        if in_sprite_window {
            if high_plane {
                SPR_PT_HI
            } else {
                SPR_PT_LO
            }
        } else if high_plane {
            FETCH_PT_HI
        } else {
            FETCH_PT_LO
        }
    } else if in_sprite_window {
        SPR_GARBAGE
    } else if (addr / 64) % 16 == 15 {
        FETCH_AT
    } else {
        FETCH_NT
    }
}

/// Classify a latched address.
pub fn classify(addr: u16, in_sprite_window: bool) -> (e: u16)
    ensures
        e == classify_spec(addr, in_sprite_window),
{
    assert((addr & 8 != 0) == ((addr / 8) % 2 == 1) && (addr & 0x03c0 == 0x03c0) == ((addr / 64)
        % 16 == 15)) by (bit_vector);
    if addr < 0x2000 {
        let high = addr & 8 != 0;
        if in_sprite_window {
            if high {
                SPR_PT_HI
            } else {
                SPR_PT_LO
            }
        } else if high {
            FETCH_PT_HI
        } else {
            FETCH_PT_LO
        }
    } else if in_sprite_window {
        SPR_GARBAGE
    } else if addr & 0x03c0 == 0x03c0 {
        FETCH_AT
    } else {
        FETCH_NT
    }
}

/// What the recorder reads off the chip on one half-step.
#[derive(Clone, Copy, PartialEq, Eq, Debug, Structural)]
pub struct RecordStep {
    pub hpos: usize,
    pub vpos: usize,
    /// `clear_spr_ptr` high.
    pub clear_spr_ptr: bool,
    /// ALE high, and the address on the bus.
    pub ale: bool,
    pub addr: u16,
    /// /RD low.
    pub rd_low: bool,
    /// The event bits of the named nodes that were high.
    pub nodes: u16,
}

/// A recording in progress.
pub struct Recorder {
    table: Vec<u16>,
    key: Option<(usize, usize)>,
    cur: u16,
    spr_start: Option<usize>,
    seen: usize,
}

/// A recording's state as values.
#[verifier::ext_equal]
pub struct RecorderView {
    pub table: Seq<u16>,
    /// The dot the half-steps being folded belong to.
    pub key: Option<(usize, usize)>,
    /// Its word so far.
    pub cur: u16,
    /// Where this line's sprite window began.
    pub spr_start: Option<usize>,
    /// Dots recorded.
    pub seen: usize,
}

impl View for Recorder {
    type V = RecorderView;

    closed spec fn view(&self) -> RecorderView {
        RecorderView {
            table: self.table@,
            key: self.key,
            cur: self.cur,
            spr_start: self.spr_start,
            seen: self.seen,
        }
    }
}

/// The half-step lies in the line's sprite window.
pub open spec fn in_window(spr_start: Option<usize>, hpos: int) -> bool {
    match spr_start {
        Some(s) => s <= hpos < s + 64,
        None => false,
    }
}

/// The recording ends once the pre-render line's last dot is recorded.
pub open spec fn record_done(r: RecorderView, h: RecordStep) -> bool {
    r.key != Some((h.vpos, h.hpos)) && r.key == Some(((LINES - 1) as usize, (DOTS_PER_LINE
        - 1) as usize))
}

/// The dot left behind is recorded when a half-step of a new dot arrives;
/// when that dot is the odd frame's last (dot 339 of the pre-render line,
/// rolling straight to (0, 0)) the frame so far is discarded.
pub open spec fn flush_spec(r: RecorderView, h: RecordStep) -> RecorderView {
    match r.key {
        Some((pv, ph)) => {
            let table = r.table.update(pv * DOTS_PER_LINE + ph, r.cur);
            if (pv, ph) == ((LINES - 1) as usize, (DOTS_PER_LINE - 2) as usize) && h.vpos == 0
                && h.hpos == 0 {
                RecorderView { table: Seq::new(table.len(), |i: int| 0u16), seen: 0, ..r }
            } else {
                RecorderView { table, seen: (r.seen + 1) as usize, ..r }
            }
        },
        None => r,
    }
}

/// One half-step folded in.
pub open spec fn record_spec(r: RecorderView, h: RecordStep) -> RecorderView {
    let r1 = if r.key != Some((h.vpos, h.hpos)) {
        let f = flush_spec(r, h);
        RecorderView {
            key: Some((h.vpos, h.hpos)),
            cur: 0,
            spr_start: if h.hpos == 0 {
                None
            } else {
                f.spr_start
            },
            ..f
        }
    } else {
        r
    };
    let spr_start = if h.clear_spr_ptr && h.hpos > 200 && r1.spr_start is None {
        Some(h.hpos)
    } else {
        r1.spr_start
    };
    let with_fetch = if h.ale {
        r1.cur | classify_spec(h.addr, in_window(spr_start, h.hpos as int))
    } else {
        r1.cur
    };
    let with_rd = if h.rd_low {
        with_fetch | RD
    } else {
        with_fetch
    };
    RecorderView { spr_start, cur: with_rd | h.nodes, ..r1 }
}

impl Recorder {
    /// The table holds a word per dot of the frame, and a dot being folded
    /// is one of the frame's.
    pub closed spec fn wf(&self) -> bool {
        &&& self@.table.len() == frame_dots()
        &&& self@.key matches Some((v, h)) ==> v < LINES && h < DOTS_PER_LINE
    }

    /// A recording of nothing yet.
    pub fn new() -> (r: Recorder)
        ensures
            r.wf(),
            r@ == (RecorderView {
                table: Seq::new(frame_dots() as nat, |i: int| 0u16),
                key: None,
                cur: 0,
                spr_start: None,
                seen: 0,
            }),
    {
        let r = Recorder { table: zeros(), key: None, cur: 0, spr_start: None, seen: 0 };
        assert(r@ =~= RecorderView {
            table: Seq::new(frame_dots() as nat, |i: int| 0u16),
            key: None,
            cur: 0,
            spr_start: None,
            seen: 0,
        });
        r
    }

    /// Dots recorded so far.
    pub fn seen(&self) -> (n: usize)
        ensures
            n == self@.seen,
    {
        self.seen
    }

    /// Fold in one half-step. Returns false, changing nothing, once the
    /// pre-render line's last dot has been recorded.
    pub fn record(&mut self, h: RecordStep) -> (more: bool)
        requires
            old(self).wf(),
            h.vpos < LINES,
            h.hpos < DOTS_PER_LINE,
            old(self)@.seen < frame_dots(),
        ensures
            final(self).wf(),
            more == !record_done(old(self)@, h),
            more ==> final(self)@ == record_spec(old(self)@, h),
            !more ==> final(self)@ == flush_spec(old(self)@, h),
    {
        let here = Some((h.vpos, h.hpos));
        if self.key != here {
            if let Some((pv, ph)) = self.key {
                proof {
                    crate::position::lemma_linear_bounds(
                        crate::position::Position { line: pv, dot: ph },
                    );
                }
                self.table.set(pv * DOTS_PER_LINE + ph, self.cur);
                if pv == LINES - 1 && ph == DOTS_PER_LINE - 2 && h.vpos == 0 && h.hpos == 0 {
                    self.table = zeros();
                    self.seen = 0;
                } else {
                    self.seen = self.seen + 1;
                }
                if pv == LINES - 1 && ph == DOTS_PER_LINE - 1 {
                    proof {
                        assert(self@ =~= flush_spec(old(self)@, h));
                    }
                    return false;
                }
            }
            if h.hpos == 0 {
                self.spr_start = None;
            }
            self.key = here;
            self.cur = 0;
        }
        if h.clear_spr_ptr && h.hpos > 200 && self.spr_start.is_none() {
            self.spr_start = Some(h.hpos);
        }
        let in_spr = match self.spr_start {
            Some(s) => h.hpos >= s && h.hpos - s < 64,
            None => false,
        };
        if h.ale {
            self.cur = self.cur | classify(h.addr, in_spr);
        }
        if h.rd_low {
            self.cur = self.cur | RD;
        }
        self.cur = self.cur | h.nodes;
        proof {
            assert(self@ =~= record_spec(old(self)@, h));
        }
        true
    }

    /// The recorded table, once every dot of the frame is in it.
    pub fn finish(self) -> (t: Vec<u16>)
        requires
            self.wf(),
            self@.seen == frame_dots(),
        ensures
            t@ == self@.table,
            t@.len() == LINES * DOTS_PER_LINE,
    {
        self.table
    }
}

/// A word of zeros per dot of the frame.
fn zeros() -> (t: Vec<u16>)
    ensures
        t@ == Seq::new(frame_dots() as nat, |i: int| 0u16),
{
    let n = LINES * DOTS_PER_LINE;
    let mut t: Vec<u16> = Vec::with_capacity(n);
    let mut i: usize = 0;
    while i < n
        invariant
            n == LINES * DOTS_PER_LINE,
            i <= n,
            t@.len() == i,
            forall|j: int| 0 <= j < i ==> t@[j] == 0u16,
        decreases n - i,
    {
        t.push(0);
        i = i + 1;
    }
    assert(t@ =~= Seq::new(frame_dots() as nat, |i: int| 0u16));
    t
}

} // verus!
