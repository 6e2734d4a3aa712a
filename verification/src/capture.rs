//! Frame capture off the chip: per half-step, the colour on the palette
//! output bus, the video DAC's level legs, and the first rises of the
//! sprite flags. The colour of dot h on a visible line is the palette bus
//! sampled in the dot's pclk1 phase, landing at picture dot h + 1.

use vstd::prelude::*;

use crate::picture::{dot_index, filled_spec, picture_len, Picture};
use crate::{ACTIVE_ROWS, DOTS_PER_LINE, LINES};

verus! {

/// The DAC's level legs, in this crate's canonical order. The meanings
/// were calibrated from a scanline's geography, not from the node names:
/// `vid_sync_h` is the blanking level.
#[derive(Clone, Copy, PartialEq, Eq, Debug, Structural)]
pub enum Leg {
    /// vid_sync_l, the sync tip.
    SyncTip,
    /// vid_sync_h: the name lies, the geography does not.
    Blank,
    BurstLow,
    BurstHigh,
    Luma0Low,
    Luma0High,
    Luma1Low,
    Luma1High,
    Luma2Low,
    Luma2High,
    Luma3Low,
    Luma3High,
}

/// A leg's bit in a leg mask.
pub open spec fn leg_index_spec(leg: Leg) -> usize {
    match leg {
        Leg::SyncTip => 0,
        Leg::Blank => 1,
        Leg::BurstLow => 2,
        Leg::BurstHigh => 3,
        Leg::Luma0Low => 4,
        Leg::Luma0High => 5,
        Leg::Luma1Low => 6,
        Leg::Luma1High => 7,
        Leg::Luma2Low => 8,
        Leg::Luma2High => 9,
        Leg::Luma3Low => 10,
        Leg::Luma3High => 11,
    }
}

impl Leg {
    /// The leg's bit in a leg mask.
    pub fn index(self) -> (i: usize)
        ensures
            i == leg_index_spec(self),
            i < 12,
    {
        match self {
            Leg::SyncTip => 0,
            Leg::Blank => 1,
            Leg::BurstLow => 2,
            Leg::BurstHigh => 3,
            Leg::Luma0Low => 4,
            Leg::Luma0High => 5,
            Leg::Luma1Low => 6,
            Leg::Luma1High => 7,
            Leg::Luma2Low => 8,
            Leg::Luma2High => 9,
            Leg::Luma3Low => 10,
            Leg::Luma3High => 11,
        }
    }
}

/// What the capture reads off the chip after one half-step.
#[derive(Clone, Copy, PartialEq, Eq, Debug, Structural)]
pub struct HalfStep {
    pub hpos: u16,
    pub vpos: u16,
    /// `spr0_hit` and `spr_overflow` high.
    pub hit: bool,
    pub overflow: bool,
    /// The twelve level legs as a bitmask, bit `Leg::index`.
    pub legs: u16,
    /// `vid_emph` high.
    pub emph: bool,
    /// `pclk1` high.
    pub pclk1: bool,
    /// The palette output bus.
    pub colour: u8,
}

/// One captured frame: the dots; per half-step (hpos, vpos, leg mask,
/// emphasis); and the (vpos, hpos) at which `spr0_hit` and `spr_overflow`
/// first rose, if they did.
pub struct Captured {
    pub dots: Picture,
    pub trace: Vec<(u16, u16, u16, bool)>,
    pub spr0_hit: Option<(u16, u16)>,
    pub spr_overflow: Option<(u16, u16)>,
}

/// A capture in progress, over `rows` scanlines.
pub struct Capture {
    rows: usize,
    seen_pclk1: bool,
    was_hit: bool,
    was_overflow: bool,
    captured: Captured,
}

/// A capture's state as values.
#[verifier::ext_equal]
pub struct CaptureView {
    pub rows: usize,
    pub seen_pclk1: bool,
    pub was_hit: bool,
    pub was_overflow: bool,
    pub dots: Seq<(u8, u8)>,
    pub trace: Seq<(u16, u16, u16, bool)>,
    pub spr0_hit: Option<(u16, u16)>,
    pub spr_overflow: Option<(u16, u16)>,
}

impl View for Capture {
    type V = CaptureView;

    closed spec fn view(&self) -> CaptureView {
        CaptureView {
            rows: self.rows,
            seen_pclk1: self.seen_pclk1,
            was_hit: self.was_hit,
            was_overflow: self.was_overflow,
            dots: self.captured.dots@,
            trace: self.captured.trace@,
            spr0_hit: self.captured.spr0_hit,
            spr_overflow: self.captured.spr_overflow,
        }
    }
}

/// The chip stands at the frame boundary a capture or recording starts
/// from: the last dot of the pre-render line, which only an even frame
/// has.
pub fn at_frame_boundary(vpos: u32, hpos: u32) -> (r: bool)
    ensures
        r == (vpos == LINES - 1 && hpos == DOTS_PER_LINE - 1),
{
    vpos == 261 && hpos == 340
}

/// The capture is over once the chip leaves the captured rows (the
/// pre-render line 261 belongs to the capture).
pub open spec fn capture_done(c: CaptureView, h: HalfStep) -> bool {
    h.vpos as int >= c.rows && h.vpos != LINES - 1
}

/// The half-step samples the colour: the second pclk1 half-step of a dot
/// on a visible line, the dot inside the line.
pub open spec fn samples_colour(c: CaptureView, h: HalfStep) -> bool {
    h.pclk1 && c.seen_pclk1 && (h.vpos as int) < ACTIVE_ROWS && (h.hpos as int) < DOTS_PER_LINE - 1
}

/// One observed half-step: the flags' first rises, the trace, and the
/// colour sample.
pub open spec fn observe_spec(c: CaptureView, h: HalfStep) -> CaptureView {
    let spr0_hit = if h.hit && !c.was_hit && c.spr0_hit is None {
        Some((h.vpos, h.hpos))
    } else {
        c.spr0_hit
    };
    let spr_overflow = if h.overflow && !c.was_overflow && c.spr_overflow is None {
        Some((h.vpos, h.hpos))
    } else {
        c.spr_overflow
    };
    let sample = samples_colour(c, h);
    CaptureView {
        seen_pclk1: if sample {
            false
        } else {
            h.pclk1
        },
        was_hit: h.hit,
        was_overflow: h.overflow,
        dots: if sample {
            c.dots.update(dot_index(h.vpos as int, h.hpos as int + 1), (h.colour, 0u8))
        } else {
            c.dots
        },
        trace: c.trace.push((h.hpos, h.vpos, h.legs, h.emph)),
        spr0_hit,
        spr_overflow,
        ..c
    }
}

impl Capture {
    /// The capture's picture holds a dot per visible row and dot.
    pub closed spec fn wf(&self) -> bool {
        self@.dots.len() == picture_len()
    }

    /// A capture of `rows` scanlines starting at the frame boundary, the
    /// sprite flags' present levels given; the picture starts the $0F
    /// black.
    pub fn new(rows: usize, hit: bool, overflow: bool) -> (c: Capture)
        ensures
            c.wf(),
            c@ == (CaptureView {
                rows,
                seen_pclk1: false,
                was_hit: hit,
                was_overflow: overflow,
                dots: filled_spec(0x0f),
                trace: Seq::empty(),
                spr0_hit: None,
                spr_overflow: None,
            }),
    {
        let c = Capture {
            rows,
            seen_pclk1: false,
            was_hit: hit,
            was_overflow: overflow,
            captured: Captured {
                dots: Picture::filled(0x0f),
                trace: Vec::new(),
                spr0_hit: None,
                spr_overflow: None,
            },
        };
        assert(c@ =~= CaptureView {
            rows,
            seen_pclk1: false,
            was_hit: hit,
            was_overflow: overflow,
            dots: filled_spec(0x0f),
            trace: Seq::empty(),
            spr0_hit: None,
            spr_overflow: None,
        });
        c
    }

    /// Observe one half-step. Returns false, recording nothing, once the
    /// chip has left the captured rows.
    pub fn observe(&mut self, h: HalfStep) -> (more: bool)
        requires
            old(self).wf(),
        ensures
            final(self).wf(),
            more == !capture_done(old(self)@, h),
            more ==> final(self)@ == observe_spec(old(self)@, h),
            !more ==> final(self)@ == old(self)@,
    {
        let hp = h.hpos as usize;
        let vp = h.vpos as usize;
        if vp >= self.rows && vp != LINES - 1 {
            return false;
        }
        if h.hit && !self.was_hit && self.captured.spr0_hit.is_none() {
            self.captured.spr0_hit = Some((h.vpos, h.hpos));
        }
        if h.overflow && !self.was_overflow && self.captured.spr_overflow.is_none() {
            self.captured.spr_overflow = Some((h.vpos, h.hpos));
        }
        self.was_hit = h.hit;
        self.was_overflow = h.overflow;
        self.captured.trace.push((h.hpos, h.vpos, h.legs, h.emph));
        if h.pclk1 && self.seen_pclk1 && vp < ACTIVE_ROWS && hp < DOTS_PER_LINE - 1 {
            self.captured.dots.set(vp, hp + 1, h.colour, 0);
            self.seen_pclk1 = false;
        } else {
            self.seen_pclk1 = h.pclk1;
        }
        proof {
            assert(self@ =~= observe_spec(old(self)@, h));
        }
        true
    }

    /// The captured frame.
    pub fn finish(self) -> (c: Captured)
        requires
            self.wf(),
        ensures
            c.dots@ == self@.dots,
            c.dots@.len() == picture_len(),
            c.trace@ == self@.trace,
            c.spr0_hit == self@.spr0_hit,
            c.spr_overflow == self@.spr_overflow,
    {
        self.captured
    }
}

} // verus!
