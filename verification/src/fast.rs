//! The per-dot stepper. Its SEQUENCER is a table, one event word per dot
//! of a frame, measured out of the switch-level chip; its DATAPATH (the v
//! and t registers, fine X, the latches and shifters, the increments and
//! copies, sprite evaluation and the priority mux, the palette lookup) is
//! authored from the scroll model the chip was shown to implement. The
//! register file makes a world a register program: writes to $2000..$2007
//! land in the same state the pipeline renders from.

use vstd::prelude::*;

use crate::bus::{FnVram, VramBus};
use crate::events::{
    CLR_FLAGS, COPY_X, COPY_Y, FETCH_AT, FETCH_NT, FETCH_PT_HI, FETCH_PT_LO, INC_X, INC_Y, SET_VBL,
    SPR_GARBAGE, SPR_PT_HI, SPR_PT_LO,
};
use crate::laws::law_step_advances_one_dot;
use crate::picture::{dot_index, filled_spec, picture_len, Picture};
use crate::position::{
    dots_ahead, dots_ahead_spec, frame_dots, frame_start, lemma_next_linear,
    lemma_traversal_bounds, lemma_traversal_injective, next, next_position, traversal_index,
    traversal_order,
    valid_position, Position,
};
use crate::race::{race_outcome, race_outcome_spec, RaceOutcome};
use crate::scroll::{
    attribute_addr, attribute_fetch_addr, attribute_fetch_shift, attribute_shift, copy_x, copy_x_spec,
    copy_y, copy_y_spec, fine_y, inc_x, inc_x_spec, inc_y, inc_y_spec, nametable_addr,
    nametable_fetch_addr, pattern_addr, pattern_fetch_addr, addr_hi_into_t, addr_lo_into_t, ctrl_into_t, scroll_x_into_t, scroll_y_into_t, t_after_addr_hi,
    t_after_addr_lo, t_after_ctrl, t_after_scroll_x, t_after_scroll_y,
};
use crate::{ACTIVE_ROWS, DOTS_PER_LINE, LINES};

verus! {

/// How many dots the blank picture keeps showing the address a $2007
/// access used before it follows the access's step of v: the step lands
/// with the access's end, a dot after the write.
pub const BLANK_2007_HOLD: u8 = 1;

/// A register write inside a frame, applied on the first half-step of
/// dot (vpos, hpos) of the stepper's traversal.
#[derive(Clone, Copy, Debug)]
pub struct DotWrite {
    pub vpos: usize,
    pub hpos: usize,
    pub reg: u8,
    pub val: u8,
}

/// One of the eight sprite units: the pattern row fetched for the next
/// line, where it starts, and how it composes.
#[derive(Clone, Copy)]
pub struct Unit {
    pub lo: u8,
    pub hi: u8,
    pub x: u8,
    pub palette: u8,
    pub behind: bool,
    pub hflip: bool,
    /// This unit carries OAM sprite 0 (for the hit).
    pub is_zero: bool,
    pub active: bool,
}

/// The unit every slot holds before a line's fetch: inactive.
pub open spec fn empty_unit() -> Unit {
    Unit { lo: 0, hi: 0, x: 0, palette: 0, behind: false, hflip: false, is_zero: false, active: false }
}

/// A sprite the evaluation selected: its four OAM bytes and whether it is
/// OAM sprite 0.
#[derive(Clone, Copy)]
pub struct OamEntry {
    pub y: u8,
    pub tile: u8,
    pub attr: u8,
    pub x: u8,
    pub is_zero: bool,
}

/// The background side of the pipeline: the four fetch latches and the
/// four sixteen-bit shifters.
#[derive(Clone, Copy)]
pub struct Background {
    pub nt: u8,
    pub at: u8,
    pub pt_lo: u8,
    pub pt_hi: u8,
    pub shift_lo: u16,
    pub shift_hi: u16,
    pub attr_lo: u16,
    pub attr_hi: u16,
}

/// The pipeline before any fetch: latches and shifters zero.
pub open spec fn empty_background() -> Background {
    Background { nt: 0, at: 0, pt_lo: 0, pt_hi: 0, shift_lo: 0, shift_hi: 0, attr_lo: 0, attr_hi: 0 }
}

/// The stepper: sequencer table, datapath, register file, palette RAM and
/// OAM, over a VRAM bus `B`.
pub struct Fast<B: VramBus> {
    table: Vec<u16>,
    /// Per dot: the background shifters present a pixel and advance; the
    /// eight dots ending at each INC_X of the table, within the line.
    active: Vec<bool>,
    vram: B,
    /// The dot stepper's cursor and the frame it is filling.
    pos: Position,
    line_buf: [u8; 341],
    /// Per dot of the line: the buffered entry is already a colour (the
    /// blank picture's), not a palette index.
    line_blank: [bool; 341],
    /// Per dot of the line: the emphasis bits when it was stepped.
    line_emph: [u8; 341],
    evaluated: bool,
    out: Picture,
    /// The 32-byte palette RAM.
    pub palette: [u8; 32],
    /// The 256-byte OAM.
    pub oam: [u8; 256],
    /// $2000 and $2001 as last written. 8x16 sprites (bit 5 of $2000) and
    /// left-edge clipping (bits 1, 2 of $2001) are not modelled.
    pub ctrl: u8,
    pub mask: u8,
    pub v: u16,
    pub t: u16,
    pub fine_x: u8,
    /// The first/second write toggle shared by $2005 and $2006.
    pub w: bool,
    pub oamaddr: u8,
    read_buffer: u8,
    /// The address the blank picture shows while a $2007 access's step is
    /// held, and for how many more dots it is held.
    held_v: u16,
    hold: u8,
    /// $2007 writes outside the palette, recorded as (address, byte) as
    /// well as sent to the bus.
    pub vram_writes: Vec<(u16, u8)>,
    bg: Background,
    /// The secondary OAM the evaluation selected for the next line, and
    /// the units the sprite window fetched from it.
    sec: [OamEntry; 8],
    sec_n: usize,
    fetched: usize,
    units: [Unit; 8],
    pub vbl: bool,
    /// A $2002 read landed inside the race window before the set: the set
    /// dot must not raise the flag.
    vbl_suppressed: bool,
    /// The first sprite-0 hit of the frame, as (line, pixel), and the
    /// evaluation overflow (a ninth sprite in range on some line).
    pub spr0_hit: Option<(usize, usize)>,
    pub spr_overflow: bool,
}

/// The stepper's whole state as values.
#[verifier::ext_equal]
pub struct FastView<B> {
    pub table: Seq<u16>,
    pub active: Seq<bool>,
    pub bus: B,
    pub pos: Position,
    pub line_buf: Seq<u8>,
    pub line_blank: Seq<bool>,
    pub line_emph: Seq<u8>,
    pub evaluated: bool,
    pub out: Seq<(u8, u8)>,
    pub palette: Seq<u8>,
    pub oam: Seq<u8>,
    pub ctrl: u8,
    pub mask: u8,
    pub v: u16,
    pub t: u16,
    pub fine_x: u8,
    pub w: bool,
    pub oamaddr: u8,
    pub read_buffer: u8,
    pub held_v: u16,
    pub hold: u8,
    pub vram_writes: Seq<(u16, u8)>,
    pub bg: Background,
    pub sec: Seq<OamEntry>,
    pub sec_n: usize,
    pub fetched: usize,
    pub units: Seq<Unit>,
    pub vbl: bool,
    pub vbl_suppressed: bool,
    pub spr0_hit: Option<(usize, usize)>,
    pub spr_overflow: bool,
}

impl<B: VramBus> View for Fast<B> {
    type V = FastView<B>;

    closed spec fn view(&self) -> FastView<B> {
        FastView {
            table: self.table@,
            active: self.active@,
            bus: self.vram,
            pos: self.pos,
            line_buf: self.line_buf@,
            line_blank: self.line_blank@,
            line_emph: self.line_emph@,
            evaluated: self.evaluated,
            out: self.out@,
            palette: self.palette@,
            oam: self.oam@,
            ctrl: self.ctrl,
            mask: self.mask,
            v: self.v,
            t: self.t,
            fine_x: self.fine_x,
            w: self.w,
            oamaddr: self.oamaddr,
            read_buffer: self.read_buffer,
            held_v: self.held_v,
            hold: self.hold,
            vram_writes: self.vram_writes@,
            bg: self.bg,
            sec: self.sec@,
            sec_n: self.sec_n,
            fetched: self.fetched,
            units: self.units@,
            vbl: self.vbl,
            vbl_suppressed: self.vbl_suppressed,
            spr0_hit: self.spr0_hit,
            spr_overflow: self.spr_overflow,
        }
    }
}

/// The selected sprites cover the line the cursor stands on.
pub open spec fn sprites_cover_line<B>(s: FastView<B>) -> bool {
    forall|k: int|
        0 <= k < s.sec_n ==> (#[trigger] s.sec[k]).y as int <= s.pos.line as int && s.pos.line
            - s.sec[k].y < 8
}

/// Well-formedness: the table and the shifter window cover a frame, the
/// cursor is on a dot of it, the counters are in range, fine X selects a
/// shifter bit, and once a line's evaluation ran its sprites cover it.
pub open spec fn wf_view<B>(s: FastView<B>) -> bool {
    &&& s.table.len() == frame_dots()
    &&& s.active.len() == frame_dots()
    &&& valid_position(s.pos)
    &&& s.line_buf.len() == DOTS_PER_LINE
    &&& s.line_blank.len() == DOTS_PER_LINE
    &&& s.line_emph.len() == DOTS_PER_LINE
    &&& s.out.len() == picture_len()
    &&& s.palette.len() == 32
    &&& s.oam.len() == 256
    &&& s.sec.len() == 8
    &&& s.units.len() == 8
    &&& s.sec_n <= 8
    &&& s.fetched <= 8
    &&& s.fine_x <= 15
    &&& (s.evaluated && s.pos.dot > 0 ==> sprites_cover_line(s))
}

/// The shifter window: dot `j` shifts when some INC_X of its own line
/// falls on it or on one of the seven dots after it.
pub open spec fn inc_x_covers(table: Seq<u16>, j: int, i: int) -> bool {
    &&& j <= i <= j + 7
    &&& i / (DOTS_PER_LINE as int) == j / (DOTS_PER_LINE as int)
    &&& 0 <= i < table.len()
    &&& table[i] & INC_X != 0
}

/// Per dot of `table`, whether the shifters present a pixel and advance.
pub open spec fn active_spec(table: Seq<u16>) -> Seq<bool> {
    Seq::new(table.len(), |j: int| exists|i: int| #[trigger] inc_x_covers(table, j, i))
}

/// A fresh stepper: the cursor at the frame's start, OAM all ones,
/// registers and latches zero, the picture the $0F black.
pub open spec fn initial_view<B>(table: Seq<u16>, bus: B, palette: Seq<u8>) -> FastView<B> {
    FastView {
        table,
        active: active_spec(table),
        bus,
        pos: frame_start(),
        line_buf: Seq::new(DOTS_PER_LINE as nat, |i: int| 0u8),
        line_blank: Seq::new(DOTS_PER_LINE as nat, |i: int| false),
        line_emph: Seq::new(DOTS_PER_LINE as nat, |i: int| 0u8),
        evaluated: false,
        out: filled_spec(0x0f),
        palette,
        oam: Seq::new(256, |i: int| 0xffu8),
        ctrl: 0,
        mask: 0,
        v: 0,
        t: 0,
        fine_x: 0,
        w: false,
        oamaddr: 0,
        read_buffer: 0,
        held_v: 0,
        hold: 0,
        vram_writes: Seq::empty(),
        bg: empty_background(),
        sec: Seq::new(
            8,
            |i: int| OamEntry { y: 0xff, tile: 0xff, attr: 0xff, x: 0xff, is_zero: false },
        ),
        sec_n: 0,
        fetched: 0,
        units: Seq::new(8, |i: int| empty_unit()),
        vbl: false,
        vbl_suppressed: false,
        spr0_hit: None,
        spr_overflow: false,
    }
}

/// The palette RAM slot address `a` reaches: $3F00..$3F1F, with
/// $3F10/$14/$18/$1C mirroring $3F00/$04/$08/$0C.
pub open spec fn palette_slot(a: u16) -> int {
    let i = a as int % 32;
    if i >= 16 && i % 4 == 0 {
        i - 16
    } else {
        i
    }
}

/// How far a $2007 access moves v: 32 with $2000 bit 2, else 1.
pub open spec fn vram_step(ctrl: u8) -> int {
    if ctrl & 4 != 0 {
        32
    } else {
        1
    }
}

/// $2002: the vblank flag in bit 7, sprite-0 hit in bit 6, overflow in 5.
pub open spec fn status_byte(vbl: bool, hit: bool, overflow: bool) -> u8 {
    ((if vbl { 0x80int } else { 0 }) + (if hit { 0x40int } else { 0 }) + (if overflow {
        0x20int
    } else {
        0
    })) as u8
}

/// v after a $2007 access.
pub open spec fn v_after_access(v: u16, ctrl: u8) -> u16 {
    ((v + vram_step(ctrl)) % 0x8000) as u16
}

/// A CPU write of `val` to $2000 + (reg % 8).
pub open spec fn write_spec<B: VramBus>(s: FastView<B>, reg: u8, val: u8) -> FastView<B> {
    let r = reg % 8;
    if r == 0 {
        FastView { ctrl: val, t: t_after_ctrl(s.t, val), ..s }
    } else if r == 1 {
        FastView { mask: val, ..s }
    } else if r == 3 {
        FastView { oamaddr: val, ..s }
    } else if r == 4 {
        FastView {
            oam: s.oam.update(s.oamaddr as int, val),
            oamaddr: ((s.oamaddr + 1) % 256) as u8,
            ..s
        }
    } else if r == 5 {
        if !s.w {
            FastView { t: t_after_scroll_x(s.t, val), fine_x: val & 7, w: true, ..s }
        } else {
            FastView { t: t_after_scroll_y(s.t, val), w: false, ..s }
        }
    } else if r == 6 {
        if !s.w {
            FastView { t: t_after_addr_hi(s.t, val), w: true, ..s }
        } else {
            FastView {
                t: t_after_addr_lo(s.t, val),
                v: t_after_addr_lo(s.t, val),
                w: false,
                hold: 0,
                ..s
            }
        }
    } else if r == 7 {
        let a = s.v & 0x3fff;
        if a >= 0x3f00 {
            FastView {
                palette: s.palette.update(palette_slot(a), val & 0x3f),
                v: v_after_access(s.v, s.ctrl),
                held_v: s.v,
                hold: BLANK_2007_HOLD,
                ..s
            }
        } else {
            FastView {
                vram_writes: s.vram_writes.push((a, val)),
                bus: s.bus.written(a, val),
                v: v_after_access(s.v, s.ctrl),
                held_v: s.v,
                hold: BLANK_2007_HOLD,
                ..s
            }
        }
    } else {
        s
    }
}

/// A CPU read of $2000 + (reg % 8): the byte and the state after it.
pub open spec fn read_spec<B: VramBus>(s: FastView<B>, reg: u8) -> (u8, FastView<B>) {
    let r = reg % 8;
    if r == 2 {
        (
            status_byte(s.vbl, s.spr0_hit is Some, s.spr_overflow),
            FastView { vbl: false, w: false, ..s },
        )
    } else if r == 4 {
        (s.oam[s.oamaddr as int], s)
    } else if r == 7 {
        let a = s.v & 0x3fff;
        if a >= 0x3f00 {
            (
                s.palette[palette_slot(a)],
                FastView {
                    read_buffer: s.bus.peek(a & 0x2fff),
                    bus: s.bus.after_read(a & 0x2fff),
                    v: v_after_access(s.v, s.ctrl),
                    held_v: s.v,
                    hold: BLANK_2007_HOLD,
                    ..s
                },
            )
        } else {
            (
                s.read_buffer,
                FastView {
                    read_buffer: s.bus.peek(a),
                    bus: s.bus.after_read(a),
                    v: v_after_access(s.v, s.ctrl),
                    held_v: s.v,
                    hold: BLANK_2007_HOLD,
                    ..s
                },
            )
        }
    } else {
        (0, s)
    }
}

/// The dot whose first half-step raises the vblank flag: (241, 1).
pub open spec fn vbl_set_position() -> Position {
    Position { line: (ACTIVE_ROWS + 1) as usize, dot: 1 }
}

/// A timed $2002 read, the race decided from where the read starts
/// against the set's dot; other registers read as `read_spec`.
pub open spec fn read_timed_spec<B: VramBus>(s: FastView<B>, reg: u8, into: u8) -> (
    u8,
    FastView<B>,
) {
    if reg % 8 != 2 {
        read_spec(s, reg)
    } else {
        match race_outcome_spec(dots_ahead_spec(s.pos, vbl_set_position()), into) {
            RaceOutcome::Consume => (
                status_byte(true, s.spr0_hit is Some, s.spr_overflow),
                FastView { vbl_suppressed: true, w: false, ..s },
            ),
            RaceOutcome::Suppress => (
                status_byte(false, s.spr0_hit is Some, s.spr_overflow),
                FastView { vbl_suppressed: true, w: false, ..s },
            ),
            RaceOutcome::Miss => read_spec(s, reg),
        }
    }
}

/// A register program run write after write.
pub open spec fn program_spec<B: VramBus>(s: FastView<B>, program: Seq<(u8, u8, u64)>) -> FastView<
    B,
>
    decreases program.len(),
{
    if program.len() == 0 {
        s
    } else {
        write_spec(program_spec(s, program.drop_last()), program.last().0, program.last().1)
    }
}

impl<B: VramBus> Fast<B> {
    /// The stepper is well formed (`wf_view`).
    pub closed spec fn wf(&self) -> bool {
        wf_view(self@)
    }

    /// The palette RAM.
    pub fn palette(&self) -> (r: [u8; 32])
        ensures
            r@ == self@.palette,
    {
        self.palette
    }

    /// The OAM.
    pub fn oam(&self) -> (r: [u8; 256])
        ensures
            r@ == self@.oam,
    {
        self.oam
    }

    /// $2000 as last written.
    pub fn ctrl(&self) -> (r: u8)
        ensures
            r == self@.ctrl,
    {
        self.ctrl
    }

    /// $2001 as last written.
    pub fn mask(&self) -> (r: u8)
        ensures
            r == self@.mask,
    {
        self.mask
    }

    /// The VRAM address register v.
    pub fn v(&self) -> (r: u16)
        ensures
            r == self@.v,
    {
        self.v
    }

    /// The temporary address register t.
    pub fn t(&self) -> (r: u16)
        ensures
            r == self@.t,
    {
        self.t
    }

    /// Fine X scroll.
    pub fn fine_x(&self) -> (r: u8)
        ensures
            r == self@.fine_x,
    {
        self.fine_x
    }

    /// The $2005/$2006 write toggle: set after a first write.
    pub fn w(&self) -> (r: bool)
        ensures
            r == self@.w,
    {
        self.w
    }

    /// $2003, the OAM address.
    pub fn oamaddr(&self) -> (r: u8)
        ensures
            r == self@.oamaddr,
    {
        self.oamaddr
    }

    /// The vblank flag.
    pub fn vbl(&self) -> (r: bool)
        ensures
            r == self@.vbl,
    {
        self.vbl
    }

    /// The frame's first sprite-0 hit, as (line, pixel).
    pub fn spr0_hit(&self) -> (r: Option<(usize, usize)>)
        ensures
            r == self@.spr0_hit,
    {
        self.spr0_hit
    }

    /// The sprite overflow flag.
    pub fn spr_overflow(&self) -> (r: bool)
        ensures
            r == self@.spr_overflow,
    {
        self.spr_overflow
    }

    /// The $2007 writes outside the palette, in order.
    pub fn vram_writes(&self) -> (r: &Vec<(u16, u8)>)
        ensures
            r@ == self@.vram_writes,
    {
        &self.vram_writes
    }

    /// A well-formed stepper's view is `wf_view`: callers outside this
    /// module learn the view's sizes and ranges from it.
    pub proof fn lemma_wf(&self)
        requires
            self.wf(),
        ensures
            wf_view(self@),
    {
    }

    /// A stepper over `table` on a console's bus.
    pub fn with_table_on_bus(table: Vec<u16>, vram: B, palette: [u8; 32]) -> (f: Fast<B>)
        requires
            table.len() == LINES * DOTS_PER_LINE,
        ensures
            f.wf(),
            f@ == initial_view(table@, vram, palette@),
    {
        let active = shifter_window(&table);
        let f = Fast {
            table,
            active,
            vram,
            pos: Position { line: LINES - 1, dot: 0 },
            line_buf: [0u8; 341],
            line_blank: [false; 341],
            line_emph: [0u8; 341],
            evaluated: false,
            out: Picture::filled(0x0f),
            palette,
            oam: [0xffu8; 256],
            ctrl: 0,
            mask: 0,
            v: 0,
            t: 0,
            fine_x: 0,
            w: false,
            oamaddr: 0,
            read_buffer: 0,
            held_v: 0,
            hold: 0,
            vram_writes: Vec::new(),
            bg: Background {
                nt: 0,
                at: 0,
                pt_lo: 0,
                pt_hi: 0,
                shift_lo: 0,
                shift_hi: 0,
                attr_lo: 0,
                attr_hi: 0,
            },
            sec: [OamEntry { y: 0xff, tile: 0xff, attr: 0xff, x: 0xff, is_zero: false }; 8],
            sec_n: 0,
            fetched: 0,
            units: [Unit {
                lo: 0,
                hi: 0,
                x: 0,
                palette: 0,
                behind: false,
                hflip: false,
                is_zero: false,
                active: false,
            }; 8],
            vbl: false,
            vbl_suppressed: false,
            spr0_hit: None,
            spr_overflow: false,
        };
        assert(f@ =~= initial_view(f.table@, f.vram, f.palette@));
        f
    }
}

impl<B: VramBus> Fast<B> {
    /// A CPU write to $2000 + reg.
    pub fn write(&mut self, reg: u8, val: u8)
        requires
            old(self).wf(),
        ensures
            final(self).wf(),
            final(self)@ == write_spec(old(self)@, reg, val),
    {
        let r = reg & 7;
        proof {
            crate::bitfacts::lemma_byte_fields(reg);
            crate::bitfacts::lemma_byte_fields(val);
        }
        if r == 0 {
            self.ctrl = val;
            self.t = ctrl_into_t(self.t, val);
        } else if r == 1 {
            self.mask = val;
        } else if r == 3 {
            self.oamaddr = val;
        } else if r == 4 {
            self.oam[self.oamaddr as usize] = val;
            self.oamaddr = self.oamaddr.wrapping_add(1);
        } else if r == 5 {
            if !self.w {
                self.t = scroll_x_into_t(self.t, val);
                self.fine_x = val & 7;
            } else {
                self.t = scroll_y_into_t(self.t, val);
            }
            self.w = !self.w;
        } else if r == 6 {
            if !self.w {
                self.t = addr_hi_into_t(self.t, val);
            } else {
                self.t = addr_lo_into_t(self.t, val);
                self.v = self.t;
                self.hold = 0;
            }
            self.w = !self.w;
        } else if r == 7 {
            let a = self.v & 0x3fff;
            if a >= 0x3f00 {
                let i = palette_index(a);
                self.palette[i] = val & 0x3f;
            } else {
                self.vram_writes.push((a, val));
                self.vram.write(a, val);
            }
            self.held_v = self.v;
            self.hold = BLANK_2007_HOLD;
            self.v = advance_v(self.v, self.ctrl);
        }
        proof {
            assert(self@ =~= write_spec(old(self)@, reg, val));
        }
    }

    /// /INT as the chip drives it: the flag and $2000's enable together.
    pub fn nmi_asserted(&self) -> (r: bool)
        ensures
            r == (self@.vbl && self@.ctrl & 0x80 != 0),
    {
        self.vbl && self.ctrl & 0x80 != 0
    }

    /// The next dot the stepper will step.
    pub fn position(&self) -> (p: Position)
        ensures
            p == self@.pos,
    {
        self.pos
    }

    /// A CPU read of $2000 + reg.
    pub fn read(&mut self, reg: u8) -> (r: u8)
        requires
            old(self).wf(),
        ensures
            final(self).wf(),
            (r, final(self)@) == read_spec(old(self)@, reg),
    {
        let rr = reg & 7;
        proof {
            crate::bitfacts::lemma_byte_fields(reg);
        }
        if rr == 2 {
            let s = status(self.vbl, self.spr0_hit.is_some(), self.spr_overflow);
            self.vbl = false;
            self.w = false;
            proof {
                assert(self@ =~= read_spec(old(self)@, reg).1);
            }
            s
        } else if rr == 4 {
            self.oam[self.oamaddr as usize]
        } else if rr == 7 {
            let v0 = self.v;
            let a = v0 & 0x3fff;
            proof {
                crate::bitfacts::lemma_word_fields(v0);
                crate::bitfacts::lemma_word_fields(a);
            }
            let out = if a >= 0x3f00 {
                self.read_buffer = self.read_vram(a & 0x2fff);
                self.palette[palette_index(a)]
            } else {
                let out = self.read_buffer;
                self.read_buffer = self.read_vram(a);
                out
            };
            self.held_v = self.v;
            self.hold = BLANK_2007_HOLD;
            self.v = advance_v(self.v, self.ctrl);
            proof {
                assert(self@ =~= read_spec(old(self)@, reg).1);
            }
            out
        } else {
            0
        }
    }

    /// A CPU read of $2002 whose access begins `half_steps_into_dot` PPU
    /// half-steps after the start of the dot the stepper last stepped:
    /// the race is decided from where that start falls against the set's
    /// dot, (241, 1). Any other register reads as `read`.
    pub fn read_timed(&mut self, reg: u8, half_steps_into_dot: u8) -> (r: u8)
        requires
            old(self).wf(),
        ensures
            final(self).wf(),
            (r, final(self)@) == read_timed_spec(old(self)@, reg, half_steps_into_dot),
    {
        proof {
            crate::bitfacts::lemma_byte_fields(reg);
        }
        if reg & 7 != 2 {
            return self.read(reg);
        }
        let set = Position { line: ACTIVE_ROWS + 1, dot: 1 };
        let ahead = dots_ahead(self.pos, set);
        match race_outcome(ahead, half_steps_into_dot) {
            RaceOutcome::Consume => {
                self.vbl_suppressed = true;
                self.w = false;
                proof {
                    assert(self@ =~= read_timed_spec(old(self)@, reg, half_steps_into_dot).1);
                }
                status(true, self.spr0_hit.is_some(), self.spr_overflow)
            },
            RaceOutcome::Suppress => {
                self.vbl_suppressed = true;
                self.w = false;
                proof {
                    assert(self@ =~= read_timed_spec(old(self)@, reg, half_steps_into_dot).1);
                }
                status(false, self.spr0_hit.is_some(), self.spr_overflow)
            },
            RaceOutcome::Miss => self.read(reg),
        }
    }

    /// Run a register program, write after write. The third field of
    /// each access is the idle a harness leaves after it, which the
    /// register file has no use for.
    pub fn run_program(&mut self, program: &[(u8, u8, u64)])
        requires
            old(self).wf(),
        ensures
            final(self).wf(),
            final(self)@ == program_spec(old(self)@, program@),
    {
        let mut i: usize = 0;
        while i < program.len()
            invariant
                i <= program@.len(),
                self.wf(),
                self@ == program_spec(old(self)@, program@.take(i as int)),
            decreases program@.len() - i,
        {
            let (reg, val, _) = program[i];
            self.write(reg, val);
            proof {
                assert(program@.take(i + 1).drop_last() =~= program@.take(i as int));
            }
            i = i + 1;
        }
        proof {
            assert(program@.take(program@.len() as int) =~= program@);
        }
    }
}

impl<B: VramBus> Fast<B> {
    /// The colour a palette index shows.
    fn colour(&self, index: u8) -> (c: u8)
        requires
            self.wf(),
        ensures
            c == colour_of(self@.palette, index),
    {
        let i = (index & 0x1f) as usize;
        proof {
            crate::bitfacts::lemma_byte_fields(index);
        }
        self.palette[i] & 0x3f
    }

    /// Read the VRAM bus at `addr` (inside the 14-bit space).
    fn read_vram(&mut self, addr: u16) -> (r: u8)
        requires
            addr < 0x4000,
        ensures
            r == old(self)@.bus.peek(addr),
            final(self)@ == (FastView { bus: old(self)@.bus.after_read(addr), ..old(self)@ }),
    {
        proof {
            crate::bitfacts::lemma_word_fields(addr);
        }
        let r = self.vram.read(addr & 0x3fff);
        proof {
            assert(self@ =~= FastView { bus: old(self)@.bus.after_read(addr), ..old(self)@ });
        }
        r
    }

    /// Phase 1 (`start_spec`).
    fn start_phase(&mut self)
        requires
            old(self).wf(),
        ensures
            final(self).wf(),
            final(self)@ == start_spec(old(self)@),
    {
        if self.pos.line == LINES - 1 && self.pos.dot == 0 {
            let backdrop = self.colour(0);
            self.out = Picture::filled(backdrop);
            self.spr0_hit = None;
            self.spr_overflow = false;
        }
        if self.pos.dot == 0 {
            self.fetched = 0;
            self.evaluated = false;
        }
        proof {
            assert(self@ =~= start_spec(old(self)@));
        }
    }

    /// The background's palette index for the shifters' current bit.
    fn bg_pixel(&self) -> (r: u8)
        requires
            self.wf(),
        ensures
            r == bg_pixel_spec(self@.bg, self@.fine_x),
    {
        let sel: u16 = 15 - self.fine_x as u16;
        let (hi, lo, ah, al) = (self.bg.shift_hi, self.bg.shift_lo, self.bg.attr_hi, self.bg.attr_lo);
        proof {
            lemma_pixel_bits(hi, lo, ah, al, sel);
        }
        let p = (((hi >> sel) & 1) << 1 | ((lo >> sel) & 1)) as u8;
        if p == 0 {
            return 0;
        }
        let a = (((ah >> sel) & 1) << 1 | ((al >> sel) & 1)) as u8;
        (a << 2) | p
    }

    /// The sprite side of the mux for pixel `x`.
    fn spr_pixel(&self, x: usize) -> (r: Option<(u8, bool, bool)>)
        requires
            self.wf(),
            x < 256,
        ensures
            r == spr_pixel_from(self@.units, x as int, 0),
    {
        let mut k: usize = 0;
        while k < 8
            invariant
                self.wf(),
                x < 256,
                k <= 8,
                spr_pixel_from(self@.units, x as int, 0) == spr_pixel_from(
                    self@.units,
                    x as int,
                    k as int,
                ),
            decreases 8 - k,
        {
            let u = self.units[k];
            if u.active {
                let ux = u.x as usize;
                if !(x < ux || x >= ux + 8) {
                    let col = (x - ux) as u8;
                    let bit = if u.hflip {
                        col
                    } else {
                        7 - col
                    };
                    let p = ((u.hi >> bit) & 1) << 1 | ((u.lo >> bit) & 1);
                    assert(p == unit_pattern(u, x as int));
                    if p != 0 {
                        return Some((0x10 | (u.palette << 2) | p, u.behind, u.is_zero));
                    }
                }
            }
            k = k + 1;
        }
        None
    }

    /// The blank picture's colour.
    fn blank_colour(&self) -> (c: u8)
        requires
            self.wf(),
        ensures
            c == blank_colour(self@),
    {
        let shown = if self.hold > 0 {
            self.held_v
        } else {
            self.v
        };
        let a = shown & 0x3fff;
        proof {
            crate::bitfacts::lemma_word_fields(shown);
        }
        if a >= 0x3f00 {
            self.palette[palette_index(a)] & 0x3f
        } else {
            self.palette[0] & 0x3f
        }
    }

    /// Phase 2 (`pixel_spec`): the mux and the shift.
    #[verifier::rlimit(50)]
    #[verifier::spinoff_prover]
    fn pixel_phase(&mut self)
        requires
            old(self).wf(),
        ensures
            final(self).wf(),
            final(self)@ == pixel_spec(old(self)@),
    {
        let vp = self.pos.line;
        let hp = self.pos.dot;
        let idx = vp * DOTS_PER_LINE + hp;
        proof {
            crate::position::lemma_linear_bounds(self.pos);
        }
        let rendering = self.mask & 0x18 != 0;
        let render_line = rendering && (vp < ACTIVE_ROWS || vp == LINES - 1);
        if render_line && self.active[idx] {
            let show_sprites = self.mask & 0x10 != 0;
            let show_bg = self.mask & 0x08 != 0;
            let mut index = if show_bg {
                self.bg_pixel()
            } else {
                0
            };
            if show_sprites && vp < ACTIVE_ROWS && 1 <= hp && hp <= 256 {
                let x = hp - 1;
                if let Some((sp, behind, is_zero)) = self.spr_pixel(x) {
                    let bg_opaque = index & 3 != 0;
                    if is_zero && bg_opaque && x != 255 && self.spr0_hit.is_none() {
                        self.spr0_hit = Some((vp, x));
                    }
                    if !(behind && bg_opaque) {
                        index = sp;
                    }
                }
            }
            self.line_buf[hp] = index;
            self.line_blank[hp] = false;
            let (a, b, c, d) = (self.bg.shift_lo, self.bg.shift_hi, self.bg.attr_lo, self.bg.attr_hi);
            proof {
                crate::bitfacts::lemma_word_fields(a);
                crate::bitfacts::lemma_word_fields(b);
                crate::bitfacts::lemma_word_fields(c);
                crate::bitfacts::lemma_word_fields(d);
            }
            self.bg.shift_lo = a << 1;
            self.bg.shift_hi = b << 1;
            self.bg.attr_lo = c << 1;
            self.bg.attr_hi = d << 1;
        } else if !rendering && vp < ACTIVE_ROWS && 1 <= hp && hp <= 256 {
            let c = self.blank_colour();
            self.line_buf[hp] = c;
            self.line_blank[hp] = true;
        }
        if vp < ACTIVE_ROWS && 1 <= hp && hp <= 256 {
            let m = self.mask;
            proof {
                crate::bitfacts::lemma_byte_fields(m);
            }
            self.line_emph[hp] = m >> 5;
        }
        if self.hold > 0 {
            self.hold = self.hold - 1;
        }
        proof {
            assert(self@ =~= pixel_spec(old(self)@));
        }
    }

    /// Phase 3 (`fetch_spec`): the background fetches.
    fn fetch_phase(&mut self, e: u16)
        requires
            old(self).wf(),
        ensures
            final(self).wf(),
            final(self)@ == fetch_spec(old(self)@, e),
    {
        if e & FETCH_NT != 0 {
            let a = nametable_fetch_addr(self.v);
            self.bg.nt = self.read_vram(a);
        }
        if e & FETCH_AT != 0 {
            let a = attribute_fetch_addr(self.v);
            let byte = self.read_vram(a);
            let shift = attribute_fetch_shift(self.v);
            self.bg.at = (byte >> shift) & 3;
        }
        if e & FETCH_PT_LO != 0 || e & FETCH_PT_HI != 0 {
            let v0 = self.v;
            let row = (v0 >> 12) & 7;
            proof {
                crate::bitfacts::lemma_word_fields(v0);
            }
            let base_addr = pattern_fetch_addr(self.ctrl & 0x10 != 0, self.bg.nt, row);
            if e & FETCH_PT_LO != 0 {
                self.bg.pt_lo = self.read_vram(base_addr);
            }
            if e & FETCH_PT_HI != 0 {
                self.bg.pt_hi = self.read_vram(base_addr | 8);
            }
        }
        proof {
            assert(self@ =~= fetch_spec(old(self)@, e));
        }
    }
}

/// The in-range indices below `n` are below `n`, in range, and no more
/// than `n` of them.
pub proof fn lemma_hits_in_range(oam: Seq<u8>, line: int, n: int)
    requires
        0 <= n,
    ensures
        hits(oam, line, n).len() <= n,
        forall|k: int|
            0 <= k < hits(oam, line, n).len() ==> 0 <= #[trigger] hits(oam, line, n)[k] < n
                && in_range(oam, hits(oam, line, n)[k], line),
    decreases n,
{
    if n > 0 {
        lemma_hits_in_range(oam, line, n - 1);
    }
}

/// Scanning further only appends: the hits below `n` are a prefix of the
/// hits below `m`.
proof fn lemma_hits_prefix(oam: Seq<u8>, line: int, n: int, m: int)
    requires
        0 <= n <= m,
    ensures
        hits(oam, line, n).len() <= hits(oam, line, m).len(),
        forall|k: int|
            0 <= k < hits(oam, line, n).len() ==> #[trigger] hits(oam, line, m)[k] == hits(
                oam,
                line,
                n,
            )[k],
    decreases m - n,
{
    if n < m {
        lemma_hits_prefix(oam, line, n, m - 1);
    }
}

impl<B: VramBus> Fast<B> {
    /// Evaluation for `line`: the sprites whose eight rows cover it, in OAM
    /// order, the first eight kept; a ninth sets the overflow flag.
    fn evaluate(&mut self, line: usize)
        requires
            old(self).wf(),
            !old(self)@.evaluated,
        ensures
            final(self).wf(),
            final(self)@ == evaluate_spec(old(self)@, line as int),
            forall|k: int|
                0 <= k < final(self)@.sec_n ==> (#[trigger] final(self)@.sec[k]).y as int
                    <= line as int && line - final(self)@.sec[k].y < 8,
    {
        let ghost s0 = self@;
        let ghost oam = self@.oam;
        self.sec_n = 0;
        let mut i: usize = 0;
        while i < 64
            invariant_except_break
                self.sec_n == hits(oam, line as int, i as int).len(),
                self.spr_overflow == s0.spr_overflow,
            invariant
                i <= 64,
                self.wf(),
                !self@.evaluated,
                self@.oam == oam,
                self.sec_n <= 8,
                forall|k: int|
                    0 <= k < self.sec_n ==> #[trigger] self@.sec[k] == oam_entry(
                        oam,
                        hits(oam, line as int, i as int)[k],
                    ),
                forall|k: int| self.sec_n <= k < 8 ==> #[trigger] self@.sec[k] == s0.sec[k],
                self@ == (FastView { sec: self@.sec, sec_n: self@.sec_n, spr_overflow: self@.spr_overflow, ..s0 }),
            ensures
                self.wf(),
                self@ == (FastView { sec: self@.sec, sec_n: self@.sec_n, spr_overflow: self@.spr_overflow, ..s0 }),
                self.sec_n == (if hits(oam, line as int, 64).len() < 8 {
                    hits(oam, line as int, 64).len() as int
                } else {
                    8
                }),
                forall|k: int|
                    0 <= k < self.sec_n ==> #[trigger] self@.sec[k] == oam_entry(
                        oam,
                        hits(oam, line as int, 64)[k],
                    ),
                forall|k: int| self.sec_n <= k < 8 ==> #[trigger] self@.sec[k] == s0.sec[k],
                self.spr_overflow == (s0.spr_overflow || hits(oam, line as int, 64).len() > 8),
            decreases 64 - i,
        {
            let y = self.oam[i * 4] as usize;
            proof {
                lemma_hits_prefix(oam, line as int, i as int, i + 1);
            }
            if line < y || line - y >= 8 {
                assert(!in_range(oam, i as int, line as int));
                assert(hits(oam, line as int, i + 1) == hits(oam, line as int, i as int));
                i = i + 1;
                if i == 64 {
                    assert(self.sec_n <= 8);
                }
                continue;
            }
            assert(in_range(oam, i as int, line as int));
            if self.sec_n == 8 {
                self.spr_overflow = true;
                proof {
                    lemma_hits_prefix(oam, line as int, i + 1, 64);
                    lemma_hits_prefix(oam, line as int, i as int, 64);
                    assert(hits(oam, line as int, i + 1).len() == 9);
                }
                break;
            }
            let n = self.sec_n;
            self.sec[n] = OamEntry {
                y: self.oam[i * 4],
                tile: self.oam[i * 4 + 1],
                attr: self.oam[i * 4 + 2],
                x: self.oam[i * 4 + 3],
                is_zero: i == 0,
            };
            self.sec_n = n + 1;
            proof {
                assert(hits(oam, line as int, i + 1) == hits(oam, line as int, i as int).push(
                    i as int,
                ));
                assert(self@.sec[n as int] == oam_entry(oam, i as int));
            }
            i = i + 1;
        }
        proof {
            lemma_hits_in_range(oam, line as int, 64);
            assert(self@ =~= evaluate_spec(s0, line as int));
            assert forall|k: int| 0 <= k < self@.sec_n implies (#[trigger] self@.sec[k]).y as int
                <= line as int && line - self@.sec[k].y < 8 by {
                let h = hits(oam, line as int, 64)[k];
                assert(in_range(oam, h, line as int));
            }
        }
    }

    /// The sprite window's first event on a line: the evaluation (none on
    /// the pre-render line) and empty units.
    fn begin_sprite_window(&mut self)
        requires
            old(self).wf(),
            old(self)@.evaluated ==> sprites_cover_line(old(self)@),
        ensures
            final(self).wf(),
            sprites_cover_line(final(self)@),
            final(self)@.evaluated,
            final(self)@ == (if !old(self)@.evaluated {
                let s = old(self)@;
                let se = if s.pos.line < ACTIVE_ROWS {
                    evaluate_spec(s, s.pos.line as int)
                } else {
                    FastView { sec_n: 0, ..s }
                };
                FastView { evaluated: true, units: Seq::new(8, |k: int| empty_unit()), ..se }
            } else {
                old(self)@
            }),
    {
        if !self.evaluated {
            let vp = self.pos.line;
            if vp < ACTIVE_ROWS {
                self.evaluate(vp);
            } else {
                self.sec_n = 0;
            }
            self.evaluated = true;
            self.units = [Unit {
                lo: 0,
                hi: 0,
                x: 0,
                palette: 0,
                behind: false,
                hflip: false,
                is_zero: false,
                active: false,
            }; 8];
            proof {
                assert(self@.units =~= Seq::new(8, |k: int| empty_unit()));
                let s = old(self)@;
                let se = if s.pos.line < ACTIVE_ROWS {
                    evaluate_spec(s, s.pos.line as int)
                } else {
                    FastView { sec_n: 0, ..s }
                };
                assert(self@ =~= FastView {
                    evaluated: true,
                    units: Seq::new(8, |k: int| empty_unit()),
                    ..se
                });
            }
        }
    }

    /// A low-plane sprite pattern fetch: the next unit loads from the
    /// selection, if one is left.
    fn fetch_sprite_unit(&mut self)
        requires
            old(self).wf(),
            sprites_cover_line(old(self)@),
        ensures
            final(self).wf(),
            final(self)@ == (if old(self)@.fetched < 8 {
                let s1 = old(self)@;
                let k = s1.fetched as int;
                let s2 = FastView { fetched: (s1.fetched + 1) as usize, ..s1 };
                if k < s1.sec_n {
                    FastView {
                        units: s2.units.update(
                            k,
                            fetched_unit(s2.bus, s2.ctrl, s1.sec[k], s1.pos.line as int),
                        ),
                        bus: unit_fetched_bus(s2.bus, s2.ctrl, s1.sec[k], s1.pos.line as int),
                        ..s2
                    }
                } else {
                    s2
                }
            } else {
                old(self)@
            }),
    {
        if self.fetched < 8 {
            let vp = self.pos.line;
            let k = self.fetched;
            self.fetched = self.fetched + 1;
            if k < self.sec_n {
                let entry = self.sec[k];
                assert(entry.y <= vp && vp - entry.y < 8);
                let d = (vp - entry.y as usize) as u16;
                let mut row = d & 7;
                proof {
                    crate::bitfacts::lemma_word_fields(d);
                }
                if entry.attr & 0x80 != 0 {
                    row = 7 - row;
                }
                let addr = pattern_fetch_addr(self.ctrl & 0x08 != 0, entry.tile, row);
                let lo = self.read_vram(addr);
                let hi = self.read_vram(addr | 8);
                self.units[k] = Unit {
                    lo,
                    hi,
                    x: entry.x,
                    palette: entry.attr & 3,
                    behind: entry.attr & 0x20 != 0,
                    hflip: entry.attr & 0x40 != 0,
                    is_zero: entry.is_zero,
                    active: true,
                };
                proof {
                    let s1 = old(self)@;
                    let s2 = FastView { fetched: (s1.fetched + 1) as usize, ..s1 };
                    assert(self@ =~= FastView {
                        units: s2.units.update(
                            k as int,
                            fetched_unit(s2.bus, s2.ctrl, s1.sec[k as int], s1.pos.line as int),
                        ),
                        bus: unit_fetched_bus(s2.bus, s2.ctrl, s1.sec[k as int], s1.pos.line as int),
                        ..s2
                    });
                }
            }
        }
    }

    /// Phase 4 (`sprite_spec`): evaluation and the sprite fetches.
    fn sprite_phase(&mut self, e: u16)
        requires
            old(self).wf(),
            old(self)@.evaluated ==> sprites_cover_line(old(self)@),
        ensures
            final(self).wf(),
            final(self)@ == sprite_spec(old(self)@, e),
            final(self)@.evaluated ==> sprites_cover_line(final(self)@),
    {
        let vp = self.pos.line;
        let rendering = self.mask & 0x18 != 0;
        let render_line = rendering && (vp < ACTIVE_ROWS || vp == LINES - 1);
        if render_line && e & (SPR_GARBAGE | SPR_PT_LO | SPR_PT_HI) != 0 {
            self.begin_sprite_window();
            if e & SPR_PT_LO != 0 {
                self.fetch_sprite_unit();
            }
        }
    }

    /// The coarse X increment, loading the fetched tile into the shifters'
    /// low bytes.
    fn inc_x_phase(&mut self)
        requires
            old(self).wf(),
        ensures
            final(self).wf(),
            final(self)@ == inc_x_step(old(self)@),
    {
        self.v = inc_x(self.v);
        let (a, b, c, d) = (self.bg.shift_lo, self.bg.shift_hi, self.bg.attr_lo, self.bg.attr_hi);
        let (plo, phi) = (self.bg.pt_lo, self.bg.pt_hi);
        let alo: u8 = if self.bg.at & 1 != 0 {
            0xff
        } else {
            0
        };
        let ahi: u8 = if self.bg.at & 2 != 0 {
            0xff
        } else {
            0
        };
        proof {
            crate::bitfacts::lemma_low_byte(a, plo);
            crate::bitfacts::lemma_low_byte(b, phi);
            crate::bitfacts::lemma_low_byte(c, alo);
            crate::bitfacts::lemma_low_byte(d, ahi);
        }
        self.bg.shift_lo = (a & 0xff00) | plo as u16;
        self.bg.shift_hi = (b & 0xff00) | phi as u16;
        self.bg.attr_lo = (c & 0xff00) | alo as u16;
        self.bg.attr_hi = (d & 0xff00) | ahi as u16;
        proof {
            assert(self@ =~= inc_x_step(old(self)@));
        }
    }

    /// Phase 5 (`scroll_spec`): the increments and copies.
    fn scroll_phase(&mut self, e: u16)
        requires
            old(self).wf(),
        ensures
            final(self).wf(),
            final(self)@ == scroll_spec(old(self)@, e),
    {
        let ghost s0 = self@;
        if e & INC_X != 0 {
            self.inc_x_phase();
        }
        let ghost s1 = self@;
        proof {
            assert(s1 == (if e & INC_X != 0 {
                inc_x_step(s0)
            } else {
                s0
            }));
        }
        if e & INC_Y != 0 {
            self.v = inc_y(self.v);
        }
        if e & COPY_X != 0 {
            self.v = copy_x(self.v, self.t);
        }
        if e & COPY_Y != 0 {
            self.v = copy_y(self.v, self.t);
        }
        proof {
            assert(self@ =~= scroll_spec(old(self)@, e));
        }
    }

    /// Phase 6 (`flag_spec`): the vblank flag events.
    fn flag_phase(&mut self, e: u16)
        requires
            old(self).wf(),
        ensures
            final(self).wf(),
            final(self)@ == flag_spec(old(self)@, e),
    {
        if e & SET_VBL != 0 {
            if self.vbl_suppressed {
                self.vbl_suppressed = false;
            } else {
                self.vbl = true;
            }
        }
        if e & CLR_FLAGS != 0 {
            self.vbl = false;
        }
        proof {
            assert(self@ =~= flag_spec(old(self)@, e));
        }
    }
}

/// The shifters' bits at `sel` as a two-bit pattern and a four-bit index.
proof fn lemma_pixel_bits(hi: u16, lo: u16, ah: u16, al: u16, sel: u16)
    ensures
        (((hi >> sel) & 1) << 1u16 | ((lo >> sel) & 1)) == bit16(hi, sel) * 2 + bit16(lo, sel),
        (((hi >> sel) & 1) << 1u16 | ((lo >> sel) & 1)) <= 3,
        ((((ah >> sel) & 1) << 1u16 | ((al >> sel) & 1)) as u8) << 2u8 | ((((hi >> sel) & 1) << 1u16 | ((lo >> sel) & 1)) as u8)
            == bit16(ah, sel) * 8 + bit16(al, sel) * 4 + bit16(hi, sel) * 2 + bit16(lo, sel),
{
    assert((((hi >> sel) & 1) << 1u16 | ((lo >> sel) & 1)) == ((hi >> sel) & 1) * 2 + ((lo >> sel)
        & 1) && (((hi >> sel) & 1) << 1u16 | ((lo >> sel) & 1)) <= 3 && ((((ah >> sel) & 1) << 1u16 | (
    (al >> sel) & 1)) as u8) << 2u8 | ((((hi >> sel) & 1) << 1u16 | ((lo >> sel) & 1)) as u8) == ((ah
        >> sel) & 1) * 8 + ((al >> sel) & 1) * 4 + ((hi >> sel) & 1) * 2 + ((lo >> sel) & 1))
        by (bit_vector);
}

/// (row, dot) of a picture index.
proof fn lemma_row_dot(row: int, dot: int)
    requires
        0 <= dot < DOTS_PER_LINE,
    ensures
        (row * DOTS_PER_LINE as int + dot) / (DOTS_PER_LINE as int) == row,
        (row * DOTS_PER_LINE as int + dot) % (DOTS_PER_LINE as int) == dot,
{
    vstd::arithmetic::div_mod::lemma_fundamental_div_mod_converse(
        row * DOTS_PER_LINE as int + dot,
        DOTS_PER_LINE as int,
        row,
        dot,
    );
}

impl<B: VramBus> Fast<B> {
    /// Put line `vp`'s buffered dots into the picture.
    fn emit_line(&mut self, vp: usize)
        requires
            old(self).wf(),
            vp < ACTIVE_ROWS,
        ensures
            final(self).wf(),
            final(self)@ == (FastView {
                out: emit_row(old(self)@.out, old(self)@, vp as int),
                ..old(self)@
            }),
    {
        let ghost s0 = self@;
        let mut d: usize = 1;
        while d <= 256
            invariant
                1 <= d <= 257,
                vp < ACTIVE_ROWS,
                self.wf(),
                self@ == (FastView { out: self@.out, ..s0 }),
                self@.out.len() == s0.out.len(),
                forall|i: int|
                    0 <= i < s0.out.len() ==> #[trigger] self@.out[i] == (if i / (
                    DOTS_PER_LINE as int) == vp && 1 <= i % (DOTS_PER_LINE as int) < d {
                        emitted_dot(s0, i % (DOTS_PER_LINE as int))
                    } else {
                        s0.out[i]
                    }),
            decreases 257 - d,
        {
            let c = if self.line_blank[d] {
                self.line_buf[d]
            } else {
                self.colour(self.line_buf[d])
            };
            let e = self.line_emph[d];
            self.out.set(vp, d, c, e);
            proof {
                lemma_row_dot(vp as int, d as int);
                assert forall|i: int| 0 <= i < s0.out.len() implies #[trigger] self@.out[i] == (if i
                    / (DOTS_PER_LINE as int) == vp && 1 <= i % (DOTS_PER_LINE as int) < d + 1 {
                    emitted_dot(s0, i % (DOTS_PER_LINE as int))
                } else {
                    s0.out[i]
                }) by {
                    if i == vp * DOTS_PER_LINE + d {
                    } else {
                        if i / (DOTS_PER_LINE as int) == vp && i % (DOTS_PER_LINE as int) == d {
                            vstd::arithmetic::div_mod::lemma_fundamental_div_mod(
                                i,
                                DOTS_PER_LINE as int,
                            );
                        }
                    }
                }
            }
            d = d + 1;
        }
        proof {
            assert(self@.out =~= emit_row(s0.out, s0, vp as int));
            assert(self@ =~= FastView {
                out: emit_row(s0.out, s0, vp as int),
                ..s0
            });
        }
    }

    /// Advance the cursor; a finished visible line lands in the picture,
    /// and line 260's last dot hands the picture out.
    fn advance(&mut self) -> (r: Option<Picture>)
        requires
            old(self).wf(),
            old(self)@.evaluated ==> sprites_cover_line(old(self)@),
        ensures
            final(self).wf(),
            final(self)@ == advance_spec(old(self)@).0,
            r matches Some(p) ==> advance_spec(old(self)@).1 == Some(p@) && p@.len() == picture_len(),
            r is None ==> advance_spec(old(self)@).1 is None,
    {
        let vp = self.pos.line;
        let hp = self.pos.dot;
        if hp + 1 < DOTS_PER_LINE {
            self.pos.dot = hp + 1;
            proof {
                assert(self@ =~= advance_spec(old(self)@).0);
            }
            return None;
        }
        if vp < ACTIVE_ROWS {
            self.emit_line(vp);
        }
        let ghost s1 = self@;
        self.pos = if vp == LINES - 1 {
            Position { line: 0, dot: 0 }
        } else if vp + 1 == LINES - 1 {
            Position { line: LINES - 1, dot: 0 }
        } else {
            Position { line: vp + 1, dot: 0 }
        };
        assert(self.pos == next_position(old(self)@.pos));
        if vp == LINES - 2 {
            let mut fresh = Picture::filled(0x0f);
            core::mem::swap(&mut self.out, &mut fresh);
            proof {
                assert(self@ =~= advance_spec(old(self)@).0);
            }
            return Some(fresh);
        }
        proof {
            assert(self@ =~= advance_spec(old(self)@).0);
        }
        None
    }

    /// One dot of the frame, in traversal order: the pre-render line 261
    /// first, then 0 through 260; the completed picture comes back on the
    /// last dot of line 260, and the cursor returns to (261, 0).
    pub fn step_dot(&mut self) -> (r: Option<Picture>)
        requires
            old(self).wf(),
            old(self)@.pos == frame_start() ==> old(self)@.ctrl & 0x20 == 0,
        ensures
            final(self).wf(),
            final(self)@ == step_spec(old(self)@).0,
            r matches Some(p) ==> step_spec(old(self)@).1 == Some(p@) && p@.len() == picture_len(),
            r is None ==> step_spec(old(self)@).1 is None,
    {
        proof {
            reveal(step_spec);
        }
        self.start_phase();
        let vp = self.pos.line;
        let hp = self.pos.dot;
        proof {
            crate::position::lemma_linear_bounds(self.pos);
        }
        let rendering = self.mask & 0x18 != 0;
        let base = vp * DOTS_PER_LINE;
        let e = if rendering {
            self.table[base + hp]
        } else {
            self.table[base + hp] & (SET_VBL | CLR_FLAGS)
        };
        assert(e == effective_event(self@));
        self.pixel_phase();
        self.fetch_phase(e);
        self.sprite_phase(e);
        self.scroll_phase(e);
        self.flag_phase(e);
        self.advance()
    }
}

/// The writes scheduled at the cursor, from index `i` on, applied in
/// order: the state after them and the index of the first write left.
pub open spec fn writes_at_cursor<B: VramBus>(s: FastView<B>, writes: Seq<DotWrite>, i: int) -> (
    FastView<B>,
    int,
)
    decreases writes.len() - i,
{
    if 0 <= i < writes.len() && writes[i].vpos == s.pos.line && writes[i].hpos == s.pos.dot {
        writes_at_cursor(write_spec(s, writes[i].reg, writes[i].val), writes, i + 1)
    } else {
        (s, i)
    }
}

/// Dots stepped, each preceded by the writes scheduled at it, until the
/// picture comes out (at most `n` dots): the state then and the picture.
#[verifier::opaque]
pub open spec fn frame_spec<B: VramBus>(s: FastView<B>, writes: Seq<DotWrite>, i: int, n: nat) -> (
    FastView<B>,
    Seq<(u8, u8)>,
)
    decreases n,
{
    let (s1, j) = writes_at_cursor(s, writes, i);
    let (s2, out) = step_spec(s1);
    match out {
        Some(p) => (s2, p),
        None => if n <= 1 {
            (s2, s2.out)
        } else {
            frame_spec(s2, writes, j, (n - 1) as nat)
        },
    }
}

/// The writes sit on dots of the frame, in traversal order.
pub open spec fn writes_in_order(writes: Seq<DotWrite>) -> bool {
    &&& forall|i: int|
        0 <= i < writes.len() ==> valid_position(
            #[trigger] write_position(writes[i]),
        )
    &&& forall|i: int, j: int|
        0 <= i < j < writes.len() ==> traversal_index(#[trigger] write_position(writes[i]))
            <= traversal_index(#[trigger] write_position(writes[j]))
}

/// The dot a write is scheduled on.
pub open spec fn write_position(w: DotWrite) -> Position {
    Position { line: w.vpos, dot: w.hpos }
}

/// Whether the writes sit on dots of the frame, in traversal order.
fn check_writes_in_order(writes: &[DotWrite]) -> (r: bool)
    ensures
        r == writes_in_order(writes@),
{
    let mut i: usize = 0;
    let mut last: usize = 0;
    while i < writes.len()
        invariant
            i <= writes@.len(),
            forall|a: int| 0 <= a < i ==> valid_position(#[trigger] write_position(writes@[a])),
            forall|a: int, b: int|
                0 <= a < b < i ==> traversal_index(#[trigger] write_position(writes@[a]))
                    <= traversal_index(#[trigger] write_position(writes@[b])),
            forall|a: int| 0 <= a < i ==> traversal_index(#[trigger] write_position(writes@[a])) <= last,
            i > 0 ==> last == traversal_index(write_position(writes@[i - 1])),
        decreases writes@.len() - i,
    {
        let w = writes[i];
        if w.vpos >= LINES || w.hpos >= DOTS_PER_LINE {
            assert(!valid_position(write_position(writes@[i as int])));
            return false;
        }
        let p = Position { line: w.vpos, dot: w.hpos };
        let k = traversal_order(p);
        if i > 0 && k < last {
            assert(traversal_index(write_position(writes@[i - 1])) > traversal_index(
                write_position(writes@[i as int]),
            ));
            return false;
        }
        last = k;
        i = i + 1;
    }
    true
}

/// $2000 after the writes scheduled at `pos`, from index `i` on.
pub open spec fn cursor_ctrl(ctrl: u8, pos: Position, writes: Seq<DotWrite>, i: int) -> u8
    decreases writes.len() - i,
{
    if 0 <= i < writes.len() && write_position(writes[i]) == pos {
        cursor_ctrl(
            if writes[i].reg % 8 == 0 {
                writes[i].val
            } else {
                ctrl
            },
            pos,
            writes,
            i + 1,
        )
    } else {
        ctrl
    }
}

/// Only $2000 writes change $2000, and no write moves the cursor.
proof fn lemma_cursor_ctrl<B: VramBus>(s: FastView<B>, writes: Seq<DotWrite>, i: int)
    ensures
        writes_at_cursor(s, writes, i).0.ctrl == cursor_ctrl(s.ctrl, s.pos, writes, i),
    decreases writes.len() - i,
{
    if 0 <= i < writes.len() && writes[i].vpos == s.pos.line && writes[i].hpos == s.pos.dot {
        let s1 = write_spec(s, writes[i].reg, writes[i].val);
        assert(s1.pos == s.pos);
        lemma_cursor_ctrl(s1, writes, i + 1);
    }
}

impl<B: VramBus> Fast<B> {
    /// Whether `frame_with_writes` can run with `writes` now: the stepper
    /// at a frame's start, the writes on dots of the frame in traversal
    /// order, and $2000 not selecting 8x16 sprites once the writes on the
    /// frame's first dot have landed.
    pub fn frame_ready(&self, writes: &[DotWrite]) -> (r: bool)
        ensures
            r == (self@.pos == frame_start() && writes_in_order(writes@) && writes_at_cursor(
                self@,
                writes@,
                0,
            ).0.ctrl & 0x20 == 0),
    {
        if !(self.pos.line == LINES - 1 && self.pos.dot == 0) {
            return false;
        }
        if !check_writes_in_order(writes) {
            return false;
        }
        proof {
            lemma_cursor_ctrl(self@, writes@, 0);
        }
        let mut ctrl = self.ctrl;
        let mut i: usize = 0;
        while i < writes.len() && writes[i].vpos == LINES - 1 && writes[i].hpos == 0
            invariant
                i <= writes@.len(),
                cursor_ctrl(self@.ctrl, frame_start(), writes@, 0) == cursor_ctrl(
                    ctrl,
                    frame_start(),
                    writes@,
                    i as int,
                ),
            decreases writes@.len() - i,
        {
            proof {
                crate::bitfacts::lemma_byte_fields(writes@[i as int].reg);
            }
            if writes[i].reg & 7 == 0 {
                ctrl = writes[i].val;
            }
            i = i + 1;
        }
        ctrl & 0x20 == 0
    }
}

/// A dot of the picture that no pixel lands on: every dot of lines
/// 240..261, and dot 0 and dots 257..340 of the visible rows.
pub open spec fn outside_pixels(r: int, d: int) -> bool {
    r >= ACTIVE_ROWS || d == 0 || d > 256
}

/// Every dot of a picture outside the pixels holds `c` without emphasis.
#[verifier::opaque]
pub open spec fn backdrop_kept(out: Seq<(u8, u8)>, c: u8) -> bool {
    forall|r: int, d: int|
        0 <= r < LINES && 0 <= d < DOTS_PER_LINE && outside_pixels(r, d) ==> #[trigger] out[dot_index(
            r,
            d,
        )] == (c, 0u8)
}

/// A picture index lies inside the picture, at its row and dot.
proof fn lemma_picture_index(r: int, d: int)
    requires
        0 <= r < LINES,
        0 <= d < DOTS_PER_LINE,
    ensures
        0 <= dot_index(r, d) < picture_len(),
        dot_index(r, d) / (DOTS_PER_LINE as int) == r,
        dot_index(r, d) % (DOTS_PER_LINE as int) == d,
{
    lemma_row_dot(r, d);
    assert(0 <= dot_index(r, d) < picture_len()) by (nonlinear_arith)
        requires
            0 <= r < 262,
            0 <= d < 341,
            dot_index(r, d) == r * 341 + d,
            picture_len() == 262 * 341,
    ;
}

/// Emitting a row leaves the dots outside the pixels alone.
proof fn lemma_emit_keeps_backdrop<B>(out: Seq<(u8, u8)>, s: FastView<B>, row: int, c: u8)
    requires
        out.len() == picture_len(),
        0 <= row < ACTIVE_ROWS,
        backdrop_kept(out, c),
    ensures
        backdrop_kept(emit_row(out, s, row), c),
{
    reveal(backdrop_kept);
    assert forall|r: int, d: int|
        0 <= r < LINES && 0 <= d < DOTS_PER_LINE && outside_pixels(r, d) implies #[trigger] emit_row(
        out,
        s,
        row,
    )[dot_index(r, d)] == (c, 0u8) by {
        lemma_picture_index(r, d);
        assert(out[dot_index(r, d)] == (c, 0u8));
    }
}

/// A step away from the frame's first dot keeps the picture's dots
/// outside the pixels, in the picture it hands out too.
proof fn lemma_step_keeps_backdrop<B: VramBus>(s: FastView<B>, c: u8)
    requires
        wf_view(s),
        s.pos != frame_start(),
        backdrop_kept(s.out, c),
    ensures
        step_spec(s).1 matches Some(p) ==> backdrop_kept(p, c),
        step_spec(s).1 is None ==> backdrop_kept(step_spec(s).0.out, c),
{
    reveal(step_spec);
    let s1 = start_spec(s);
    let e = effective_event(s1);
    let s6 = flag_spec(scroll_spec(sprite_spec(fetch_spec(pixel_spec(s1), e), e), e), e);
    assert(s6.out == s.out);
    if s6.pos.dot + 1 >= DOTS_PER_LINE && (s6.pos.line as int) < ACTIVE_ROWS {
        lemma_emit_keeps_backdrop(s6.out, s6, s6.pos.line as int, c);
    }
}

/// The frame's first step fills the picture with the backdrop colour.
proof fn lemma_start_fills_backdrop<B: VramBus>(s: FastView<B>)
    requires
        wf_view(s),
        s.pos == frame_start(),
    ensures
        step_spec(s).1 is None,
        backdrop_kept(step_spec(s).0.out, colour_of(s.palette, 0)),
{
    reveal(step_spec);
    reveal(backdrop_kept);
    let c = colour_of(s.palette, 0);
    let s1 = start_spec(s);
    let e = effective_event(s1);
    let s6 = flag_spec(scroll_spec(sprite_spec(fetch_spec(pixel_spec(s1), e), e), e), e);
    assert(s6.out == filled_spec(c));
    assert forall|r: int, d: int|
        0 <= r < LINES && 0 <= d < DOTS_PER_LINE && outside_pixels(r, d) implies #[trigger] step_spec(
        s,
    ).0.out[dot_index(r, d)] == (c, 0u8) by {
        lemma_picture_index(r, d);
    }
}

/// One unfolding of `frame_spec`.
proof fn lemma_frame_unfold<B: VramBus>(s: FastView<B>, writes: Seq<DotWrite>, i: int, n: nat)
    requires
        n > 1,
    ensures
        ({
            let (s1, j) = writes_at_cursor(s, writes, i);
            let (s2, out) = step_spec(s1);
            frame_spec(s, writes, i, n) == match out {
                Some(p) => (s2, p),
                None => frame_spec(s2, writes, j, (n - 1) as nat),
            }
        }),
{
    reveal(frame_spec);
}

impl<B: VramBus> Fast<B> {
    /// Render one frame with register writes applied at their dots. Pixel
    /// x of row y lands at dot x + 1; rows and dots the stepper does not
    /// produce keep the backdrop; with rendering off a pixel shows the
    /// blank picture (`blank_colour`). `writes` must be in traversal order (the
    /// pre-render line first, then lines 0..), and the stepper must stand
    /// at the start of a frame (line 261, dot 0), where a fresh one does.
    pub fn frame_with_writes(&mut self, writes: &[DotWrite]) -> (p: Picture)
        requires
            old(self).wf(),
            old(self)@.pos == frame_start(),
            writes_in_order(writes@),
            writes_at_cursor(old(self)@, writes@, 0).0.ctrl & 0x20 == 0,
        ensures
            final(self).wf(),
            final(self)@ == frame_spec(old(self)@, writes@, 0, frame_dots() as nat).0,
            p@ == frame_spec(old(self)@, writes@, 0, frame_dots() as nat).1,
            p@.len() == picture_len(),
            final(self)@.pos == frame_start(),
            backdrop_kept(p@, colour_of(writes_at_cursor(old(self)@, writes@, 0).0.palette, 0)),
    {
        let ghost s0 = self@;
        let ghost c0 = colour_of(writes_at_cursor(s0, writes@, 0).0.palette, 0);
        let ghost n = frame_dots() as nat;
        let mut next_write: usize = 0;
        let ghost mut k: int = 0;
        proof {
            lemma_traversal_bounds(self@.pos);
        }
        loop
            invariant
                self.wf(),
                s0 == old(self)@,
                n == frame_dots(),
                writes_in_order(writes@),
                writes_at_cursor(s0, writes@, 0).0.ctrl & 0x20 == 0,
                next_write <= writes@.len(),
                k == traversal_index(self@.pos),
                0 <= k < frame_dots(),
                frame_spec(s0, writes@, 0, n) == frame_spec(self@, writes@, next_write as int, (n
                    - k) as nat),
                next_write < writes@.len() ==> traversal_index(
                    write_position(writes@[next_write as int]),
                ) >= k,
                k == 0 ==> self@ == s0 && next_write == 0,
                k > 0 ==> backdrop_kept(self@.out, c0),
                c0 == colour_of(writes_at_cursor(s0, writes@, 0).0.palette, 0),
            decreases n - k,
        {
            let pos = self.pos;
            let ghost s_before = self@;
            let ghost i0 = next_write as int;
            while next_write < writes.len() && writes[next_write].vpos == pos.line
                && writes[next_write].hpos == pos.dot
                invariant
                    self.wf(),
                    self@.pos == pos,
                    k == traversal_index(pos),
                    0 <= k < frame_dots(),
                    writes_in_order(writes@),
                    writes_at_cursor(s0, writes@, 0).0.ctrl & 0x20 == 0,
                    i0 <= next_write <= writes@.len(),
                    writes_at_cursor(s_before, writes@, i0) == writes_at_cursor(
                        self@,
                        writes@,
                        next_write as int,
                    ),
                    next_write < writes@.len() ==> traversal_index(
                        write_position(writes@[next_write as int]),
                    ) >= k,
                    k == 0 ==> s_before == s0 && i0 == 0,
                    self@.out == s_before.out,
                decreases writes@.len() - next_write,
            {
                let w = writes[next_write];
                self.write(w.reg, w.val);
                proof {
                    if next_write + 1 < writes@.len() {
                        assert(traversal_index(write_position(writes@[next_write as int]))
                            <= traversal_index(write_position(writes@[next_write + 1])));
                    }
                }
                next_write = next_write + 1;
            }
            proof {
                if next_write < writes@.len() {
                    let wp = write_position(writes@[next_write as int]);
                    assert(valid_position(wp));
                    if traversal_index(wp) == k {
                        lemma_traversal_injective(wp, pos);
                    }
                    assert(traversal_index(wp) > k);
                }
                law_step_advances_one_dot(self@);
                lemma_next_linear(pos);
                lemma_traversal_bounds(pos);
                assert(writes_at_cursor(s_before, writes@, i0) == (self@, next_write as int));
                if k == 0 {
                    lemma_start_fills_backdrop(self@);
                } else {
                    lemma_traversal_bounds(frame_start());
                    lemma_step_keeps_backdrop(self@, c0);
                }
            }
            let ghost s_mid = self@;
            let r = self.step_dot();
            match r {
                Some(frame) => {
                    proof {
                        assert(traversal_index(pos) == frame_dots() - 1);
                        reveal(frame_spec);
                        assert(frame_spec(s_before, writes@, i0, 1) == (self@, frame@));
                    }
                    return frame;
                },
                None => {
                    proof {
                        let lastp = Position {
                            line: (LINES - 2) as usize,
                            dot: (DOTS_PER_LINE - 1) as usize,
                        };
                        assert(traversal_index(lastp) == frame_dots() - 1);
                        if k == frame_dots() - 1 {
                            lemma_traversal_injective(pos, lastp);
                        }
                        lemma_frame_unfold(s_before, writes@, i0, (n - k) as nat);
                        k = k + 1;
                    }
                },
            }
        }
    }

    /// Render one frame from the current register state.
    pub fn frame(&mut self) -> (p: Picture)
        requires
            old(self).wf(),
            old(self)@.pos == frame_start(),
            old(self)@.ctrl & 0x20 == 0,
        ensures
            final(self).wf(),
            final(self)@ == frame_spec(old(self)@, Seq::empty(), 0, frame_dots() as nat).0,
            p@ == frame_spec(old(self)@, Seq::empty(), 0, frame_dots() as nat).1,
            p@.len() == picture_len(),
            final(self)@.pos == frame_start(),
            backdrop_kept(p@, colour_of(old(self)@.palette, 0)),
    {
        let writes: [DotWrite; 0] = [];
        proof {
            assert(writes@ =~= Seq::<DotWrite>::empty());
            assert(writes_at_cursor(old(self)@, writes@, 0) == (old(self)@, 0int));
        }
        self.frame_with_writes(&writes)
    }
}

/// The palette RAM slot of address `a`.
fn palette_index(a: u16) -> (i: usize)
    ensures
        i == palette_slot(a),
        i < 32,
{
    let i = a & 0x1f;
    assert(i == a % 32 && (i & 0x13u16 == 0x10u16 ==> i >= 16 && i % 4 == 0 && i & !0x10u16 == i
        - 16) && (i & 0x13u16 != 0x10u16 ==> !(i >= 16 && i % 4 == 0))) by (bit_vector)
        requires
            i == a & 0x1fu16,
    ;
    if i & 0x13 == 0x10 {
        (i & !0x10) as usize
    } else {
        i as usize
    }
}

/// v after a $2007 access.
fn advance_v(v: u16, ctrl: u8) -> (r: u16)
    ensures
        r == v_after_access(v, ctrl),
{
    let inc: u16 = if ctrl & 4 != 0 {
        32
    } else {
        1
    };
    let r = v.wrapping_add(inc) & 0x7fff;
    assert(v.wrapping_add(inc) & 0x7fffu16 == ((v + inc) % 0x8000) as u16) by (bit_vector);
    r
}

/// The $2002 status byte.
fn status(vbl: bool, hit: bool, overflow: bool) -> (r: u8)
    ensures
        r == status_byte(vbl, hit, overflow),
{
    let a: u8 = if vbl {
        0x80
    } else {
        0
    };
    let b: u8 = if hit {
        0x40
    } else {
        0
    };
    let c: u8 = if overflow {
        0x20
    } else {
        0
    };
    a + b + c
}

/// Bit `i` of `x`.
pub open spec fn bit16(x: u16, i: u16) -> u16 {
    (x >> i) & 1
}

/// The background's palette index for the shifters' current bit: the
/// pattern from the two planes, the attribute above it, and a
/// transparent pattern folded to index 0 (the backdrop).
pub open spec fn bg_pixel_spec(bg: Background, fine_x: u8) -> u8 {
    let sel = (15 - fine_x) as u16;
    let p = bit16(bg.shift_hi, sel) * 2 + bit16(bg.shift_lo, sel);
    if p == 0 {
        0
    } else {
        (bit16(bg.attr_hi, sel) * 8 + bit16(bg.attr_lo, sel) * 4 + p) as u8
    }
}

/// The two-bit pattern a unit shows at pixel `x` (which it covers).
pub open spec fn unit_pattern(u: Unit, x: int) -> u8 {
    let col = (x - u.x) as u8;
    let bit = if u.hflip {
        col
    } else {
        (7 - col) as u8
    };
    ((((u.hi >> bit) & 1) << 1u8) | ((u.lo >> bit) & 1)) as u8
}

/// Unit `u` draws an opaque pixel at `x`.
pub open spec fn unit_shows(u: Unit, x: int) -> bool {
    &&& u.active
    &&& u.x as int <= x < u.x as int + 8
    &&& unit_pattern(u, x) != 0
}

/// The sprite side of the mux at pixel `x`: the first unit from slot `k`
/// on, in slot order, with an opaque pixel there, as (palette index in
/// the sprite half, behind the background, is sprite 0).
pub open spec fn spr_pixel_from(units: Seq<Unit>, x: int, k: int) -> Option<(u8, bool, bool)>
    decreases units.len() - k,
{
    if k < 0 || k >= units.len() {
        None
    } else if unit_shows(units[k], x) {
        let u = units[k];
        Some(((0x10u8 | (u.palette << 2u8) | unit_pattern(u, x)) as u8, u.behind, u.is_zero))
    } else {
        spr_pixel_from(units, x, k + 1)
    }
}

/// The palette index the mux puts on dot `hp` of line `vp`, and sprite
/// 0's hit after it: the background's index (0 with the background off),
/// replaced by an opaque sprite pixel unless that sprite is behind an
/// opaque background pixel; sprite 0 over an opaque background pixel,
/// not at pixel 255, records the frame's first hit.
pub open spec fn mux_spec<B>(s: FastView<B>, vp: int, hp: int) -> (u8, Option<(usize, usize)>) {
    let show_sprites = s.mask & 0x10 != 0;
    let show_bg = s.mask & 0x08 != 0;
    let index = if show_bg {
        bg_pixel_spec(s.bg, s.fine_x)
    } else {
        0
    };
    if show_sprites && vp < ACTIVE_ROWS && 1 <= hp <= 256 {
        let x = hp - 1;
        match spr_pixel_from(s.units, x, 0) {
            Some((sp, behind, is_zero)) => {
                let bg_opaque = index & 3 != 0;
                let hit = if is_zero && bg_opaque && x != 255 && s.spr0_hit is None {
                    Some((vp as usize, x as usize))
                } else {
                    s.spr0_hit
                };
                (
                    if !(behind && bg_opaque) {
                        sp
                    } else {
                        index
                    },
                    hit,
                )
            },
            None => (index, s.spr0_hit),
        }
    } else {
        (index, s.spr0_hit)
    }
}

/// The colour a palette index shows.
pub open spec fn colour_of(palette: Seq<u8>, index: u8) -> u8 {
    palette[(index & 0x1f) as int] & 0x3f
}

/// Rendering is on: either of $2001's background and sprite bits.
pub open spec fn rendering(mask: u8) -> bool {
    mask & 0x18 != 0
}

/// The table index of position `p`.
pub open spec fn table_index(p: Position) -> int {
    p.line as int * DOTS_PER_LINE as int + p.dot as int
}

/// The events the stepper performs at its cursor: the table's word with
/// rendering on; with rendering off only the flag events.
pub open spec fn effective_event<B>(s: FastView<B>) -> u16 {
    let e = s.table[table_index(s.pos)];
    if rendering(s.mask) {
        e
    } else {
        e & (SET_VBL | CLR_FLAGS)
    }
}

/// The cursor's line is one the pipeline renders: visible or pre-render.
pub open spec fn render_line<B>(s: FastView<B>) -> bool {
    rendering(s.mask) && (s.pos.line < ACTIVE_ROWS || s.pos.line == LINES - 1)
}

/// Phase 1: at the frame's first dot the picture is filled with the
/// backdrop and the sprite flags clear; at a line's first dot the sprite
/// fetch count and the evaluation restart.
pub open spec fn start_spec<B>(s: FastView<B>) -> FastView<B> {
    let s1 = if s.pos == frame_start() {
        FastView {
            out: filled_spec(colour_of(s.palette, 0)),
            spr0_hit: None,
            spr_overflow: false,
            ..s
        }
    } else {
        s
    };
    if s.pos.dot == 0 {
        FastView { fetched: 0, evaluated: false, ..s1 }
    } else {
        s1
    }
}

/// The background shifters after one shift.
pub open spec fn shifted(bg: Background) -> Background {
    Background {
        shift_lo: ((bg.shift_lo * 2) % 0x10000) as u16,
        shift_hi: ((bg.shift_hi * 2) % 0x10000) as u16,
        attr_lo: ((bg.attr_lo * 2) % 0x10000) as u16,
        attr_hi: ((bg.attr_hi * 2) % 0x10000) as u16,
        ..bg
    }
}

/// The address the blank picture shows: v, or, while a $2007 access's
/// step is held, the address that access used.
pub open spec fn shown_v<B>(s: FastView<B>) -> u16 {
    if s.hold > 0 {
        s.held_v
    } else {
        s.v
    }
}

/// The blank picture's colour, with rendering off: the palette entry the
/// shown address reaches when it lies in palette RAM ($3F00..$3FFF, with
/// the $3F10/14/18/1C mirrors), the backdrop otherwise.
pub open spec fn blank_colour<B>(s: FastView<B>) -> u8 {
    let a = shown_v(s) % 0x4000;
    if a >= 0x3f00 {
        s.palette[palette_slot(a as u16)] & 0x3f
    } else {
        s.palette[0] & 0x3f
    }
}

/// A pixel's dot: dots 1..=256 of a visible line.
pub open spec fn pixel_dot(p: Position) -> bool {
    p.line < ACTIVE_ROWS && 1 <= p.dot <= 256
}

/// $2001's emphasis bits, 5..7.
pub open spec fn emphasis(mask: u8) -> u8 {
    mask / 32
}

/// Phase 2: on a rendered line's shifting dots the mux's index enters the
/// line buffer and the shifters advance; with rendering off a pixel's dot
/// buffers the blank colour. Every pixel's dot records the emphasis bits,
/// and a held $2007 step comes a dot nearer.
pub open spec fn pixel_spec<B>(s: FastView<B>) -> FastView<B> {
    let hp = s.pos.dot as int;
    let s1 = if render_line(s) && s.active[table_index(s.pos)] {
        let (index, hit) = mux_spec(s, s.pos.line as int, hp);
        FastView {
            line_buf: s.line_buf.update(hp, index),
            line_blank: s.line_blank.update(hp, false),
            spr0_hit: hit,
            bg: shifted(s.bg),
            ..s
        }
    } else if !rendering(s.mask) && pixel_dot(s.pos) {
        FastView {
            line_buf: s.line_buf.update(hp, blank_colour(s)),
            line_blank: s.line_blank.update(hp, true),
            ..s
        }
    } else {
        s
    };
    let s2 = if pixel_dot(s.pos) {
        FastView { line_emph: s1.line_emph.update(hp, emphasis(s.mask)), ..s1 }
    } else {
        s1
    };
    FastView {
        hold: if s.hold > 0 {
            (s.hold - 1) as u8
        } else {
            0
        },
        ..s2
    }
}

/// Phase 3: the background fetches the event word names, in order:
/// nametable, attribute, then the pattern planes of the nametable's tile
/// at v's fine Y.
pub open spec fn fetch_spec<B: VramBus>(s: FastView<B>, e: u16) -> FastView<B> {
    let na = nametable_addr(s.v);
    let (nt, b1) = if e & FETCH_NT != 0 {
        (s.bus.peek(na), s.bus.after_read(na))
    } else {
        (s.bg.nt, s.bus)
    };
    let aa = attribute_addr(s.v);
    let (at, b2) = if e & FETCH_AT != 0 {
        ((b1.peek(aa) >> attribute_shift(s.v)) & 3, b1.after_read(aa))
    } else {
        (s.bg.at, b1)
    };
    let addr = pattern_addr(s.ctrl & 0x10 != 0, nt, fine_y(s.v));
    let (pt_lo, b3) = if e & FETCH_PT_LO != 0 {
        (b2.peek(addr), b2.after_read(addr))
    } else {
        (s.bg.pt_lo, b2)
    };
    let (pt_hi, b4) = if e & FETCH_PT_HI != 0 {
        (b3.peek((addr + 8) as u16), b3.after_read((addr + 8) as u16))
    } else {
        (s.bg.pt_hi, b3)
    };
    FastView { bg: Background { nt, at, pt_lo, pt_hi, ..s.bg }, bus: b4, ..s }
}

/// OAM sprite `i` is in range of `line`: its eight rows cover it.
pub open spec fn in_range(oam: Seq<u8>, i: int, line: int) -> bool {
    let y = oam[4 * i] as int;
    y <= line && line - y < 8
}

/// The OAM indices below `n` whose sprites are in range of `line`, in
/// OAM order.
pub open spec fn hits(oam: Seq<u8>, line: int, n: int) -> Seq<int>
    decreases n,
{
    if n <= 0 {
        Seq::empty()
    } else if in_range(oam, n - 1, line) {
        hits(oam, line, n - 1).push(n - 1)
    } else {
        hits(oam, line, n - 1)
    }
}

/// OAM sprite `i`'s four bytes.
pub open spec fn oam_entry(oam: Seq<u8>, i: int) -> OamEntry {
    OamEntry {
        y: oam[4 * i],
        tile: oam[4 * i + 1],
        attr: oam[4 * i + 2],
        x: oam[4 * i + 3],
        is_zero: i == 0,
    }
}

/// Evaluation for `line`: the sprites in range of it, in OAM order, the
/// first eight kept; a ninth sets the overflow flag.
pub open spec fn evaluate_spec<B>(s: FastView<B>, line: int) -> FastView<B> {
    let h = hits(s.oam, line, 64);
    let n = if h.len() < 8 {
        h.len() as int
    } else {
        8
    };
    FastView {
        sec: Seq::new(
            8,
            |k: int|
                if k < n {
                    oam_entry(s.oam, h[k])
                } else {
                    s.sec[k]
                },
        ),
        sec_n: n as usize,
        spr_overflow: s.spr_overflow || h.len() > 8,
        ..s
    }
}

/// The pattern row a selected sprite shows on `line`: its row inside the
/// sprite, flipped by attribute bit 7.
pub open spec fn sprite_row(entry: OamEntry, line: int) -> u16 {
    let row = (line - entry.y) as u16 & 7;
    if entry.attr & 0x80 != 0 {
        (7 - row) as u16
    } else {
        row
    }
}

/// The pattern address of a selected sprite's row on `line`.
pub open spec fn unit_addr(ctrl: u8, entry: OamEntry, line: int) -> u16 {
    pattern_addr(ctrl & 0x08 != 0, entry.tile, sprite_row(entry, line))
}

/// The unit the sprite window fetches for a selected sprite from `bus`:
/// the low plane, then the high plane eight bytes on.
pub open spec fn fetched_unit<B: VramBus>(bus: B, ctrl: u8, entry: OamEntry, line: int) -> Unit {
    let addr = unit_addr(ctrl, entry, line);
    Unit {
        lo: bus.peek(addr),
        hi: bus.after_read(addr).peek((addr + 8) as u16),
        x: entry.x,
        palette: entry.attr & 3,
        behind: entry.attr & 0x20 != 0,
        hflip: entry.attr & 0x40 != 0,
        is_zero: entry.is_zero,
        active: true,
    }
}

/// The bus after a unit's two pattern reads.
pub open spec fn unit_fetched_bus<B: VramBus>(bus: B, ctrl: u8, entry: OamEntry, line: int) -> B {
    let addr = unit_addr(ctrl, entry, line);
    bus.after_read(addr).after_read((addr + 8) as u16)
}

/// Phase 4: the sprite window. Its first event on a rendered line runs
/// the evaluation (none on the pre-render line) and empties the units;
/// each low-plane pattern fetch loads the next unit from the selection.
pub open spec fn sprite_spec<B: VramBus>(s: FastView<B>, e: u16) -> FastView<B> {
    if render_line(s) && e & (SPR_GARBAGE | SPR_PT_LO | SPR_PT_HI) != 0 {
        let s1 = if !s.evaluated {
            let se = if s.pos.line < ACTIVE_ROWS {
                evaluate_spec(s, s.pos.line as int)
            } else {
                FastView { sec_n: 0, ..s }
            };
            FastView { evaluated: true, units: Seq::new(8, |k: int| empty_unit()), ..se }
        } else {
            s
        };
        if e & SPR_PT_LO != 0 && s1.fetched < 8 {
            let k = s1.fetched as int;
            let s2 = FastView { fetched: (s1.fetched + 1) as usize, ..s1 };
            if k < s1.sec_n {
                FastView {
                    units: s2.units.update(
                        k,
                        fetched_unit(s2.bus, s2.ctrl, s1.sec[k], s.pos.line as int),
                    ),
                    bus: unit_fetched_bus(s2.bus, s2.ctrl, s1.sec[k], s.pos.line as int),
                    ..s2
                }
            } else {
                s2
            }
        } else {
            s1
        }
    } else {
        s
    }
}

/// A shifter's low byte replaced by `b`.
pub open spec fn reload_low(shifter: u16, b: u8) -> u16 {
    (shifter / 256 * 256 + b) as u16
}

/// The coarse X increment, which also loads the fetched tile into the
/// shifters' low bytes.
pub open spec fn inc_x_step<B>(s: FastView<B>) -> FastView<B> {
        FastView {
            v: inc_x_spec(s.v),
            bg: Background {
                shift_lo: reload_low(s.bg.shift_lo, s.bg.pt_lo),
                shift_hi: reload_low(s.bg.shift_hi, s.bg.pt_hi),
                attr_lo: reload_low(
                    s.bg.attr_lo,
                    if s.bg.at & 1 != 0 {
                        0xffu8
                    } else {
                        0
                    },
                ),
                attr_hi: reload_low(
                    s.bg.attr_hi,
                    if s.bg.at & 2 != 0 {
                        0xffu8
                    } else {
                        0
                    },
                ),
                ..s.bg
            },
            ..s
        }
}

/// Phase 5: the increments and copies on v, in order.
pub open spec fn scroll_spec<B>(s: FastView<B>, e: u16) -> FastView<B> {
    let s1 = if e & INC_X != 0 {
        inc_x_step(s)
    } else {
        s
    };
    let v2 = if e & INC_Y != 0 {
        inc_y_spec(s1.v)
    } else {
        s1.v
    };
    let v3 = if e & COPY_X != 0 {
        copy_x_spec(v2, s1.t)
    } else {
        v2
    };
    let v4 = if e & COPY_Y != 0 {
        copy_y_spec(v3, s1.t)
    } else {
        v3
    };
    FastView { v: v4, ..s1 }
}

/// Phase 6: the flag events. The set raises the vblank flag unless a race
/// read suppressed it (which it then forgets); the clear lowers it.
pub open spec fn flag_spec<B>(s: FastView<B>, e: u16) -> FastView<B> {
    let s1 = if e & SET_VBL != 0 {
        if s.vbl_suppressed {
            FastView { vbl_suppressed: false, ..s }
        } else {
            FastView { vbl: true, ..s }
        }
    } else {
        s
    };
    if e & CLR_FLAGS != 0 {
        FastView { vbl: false, ..s1 }
    } else {
        s1
    }
}

/// Row `row` of the picture filled from the line buffer: dots 1..=256
/// take their index's colour, everything else stays.
pub open spec fn emit_row<B>(out: Seq<(u8, u8)>, s: FastView<B>, row: int) -> Seq<(u8, u8)> {
    Seq::new(out.len(), |i: int| if i / (DOTS_PER_LINE as int) == row && 1 <= i % (DOTS_PER_LINE as int) <= 256 {
        emitted_dot(s, i % (DOTS_PER_LINE as int))
    } else {
        out[i]
    })
}

/// What dot `d` of the line buffer puts in the picture: the blank colour
/// as buffered, or the colour of the buffered index; and its emphasis.
pub open spec fn emitted_dot<B>(s: FastView<B>, d: int) -> (u8, u8) {
    (
        if s.line_blank[d] {
            s.line_buf[d]
        } else {
            colour_of(s.palette, s.line_buf[d])
        },
        s.line_emph[d],
    )
}

/// Phase 7: the cursor advances; a finished visible line lands in the
/// picture, and line 260's last dot hands the picture out and starts a
/// fresh one.
pub open spec fn advance_spec<B>(s: FastView<B>) -> (FastView<B>, Option<Seq<(u8, u8)>>) {
    let vp = s.pos.line as int;
    if s.pos.dot + 1 < DOTS_PER_LINE {
        (FastView { pos: next_position(s.pos), ..s }, None)
    } else {
        let out = if vp < ACTIVE_ROWS {
            emit_row(s.out, s, vp)
        } else {
            s.out
        };
        if vp == LINES - 2 {
            (FastView { pos: next_position(s.pos), out: filled_spec(0x0f), ..s }, Some(out))
        } else {
            (FastView { pos: next_position(s.pos), out, ..s }, None)
        }
    }
}

/// One dot of the frame, in traversal order.
#[verifier::opaque]
pub open spec fn step_spec<B: VramBus>(s: FastView<B>) -> (FastView<B>, Option<Seq<(u8, u8)>>) {
    let s1 = start_spec(s);
    let e = effective_event(s1);
    let s2 = pixel_spec(s1);
    let s3 = fetch_spec(s2, e);
    let s4 = sprite_spec(s3, e);
    let s5 = scroll_spec(s4, e);
    let s6 = flag_spec(s5, e);
    advance_spec(s6)
}

impl Fast<FnVram> {
    /// A stepper over `table` in a world whose VRAM is the pure function
    /// `vram`, with the given palette RAM.
    pub fn with_table<F: Fn(u16) -> u8>(table: Vec<u16>, vram: F, palette: [u8; 32]) -> (f: Fast<
        FnVram,
    >)
        requires
            table.len() == LINES * DOTS_PER_LINE,
            forall|a: u16| #[trigger] vram.requires((a,)),
        ensures
            f.wf(),
            f@ == initial_view(table@, f@.bus, palette@),
            forall|a: u16| #[trigger] vram.ensures((a,), f@.bus.value(a)),
    {
        Fast::with_table_on_bus(table, FnVram::from_fn(vram), palette)
    }
}

/// The shifter window of a table: per dot, whether an INC_X of its line
/// falls on it or within the seven dots after it.
fn shifter_window(table: &Vec<u16>) -> (active: Vec<bool>)
    requires
        table.len() == LINES * DOTS_PER_LINE,
    ensures
        active@ == active_spec(table@),
{
    let n = table.len();
    let mut active: Vec<bool> = Vec::with_capacity(n);
    let mut k: usize = 0;
    while k < n
        invariant
            n == table.len(),
            k <= n,
            active@.len() == k,
            forall|j: int| 0 <= j < k ==> !active@[j],
        decreases n - k,
    {
        active.push(false);
        k = k + 1;
    }
    let mut i: usize = 0;
    while i < n
        invariant
            n == table.len() == LINES * DOTS_PER_LINE,
            i <= n,
            active@.len() == n,
            forall|j: int|
                0 <= j < n ==> (active@[j] <==> exists|ii: int|
                    ii < i && #[trigger] inc_x_covers(table@, j, ii)),
        decreases n - i,
    {
        if table[i] & INC_X != 0 {
            let line_start = (i / DOTS_PER_LINE) * DOTS_PER_LINE;
            let lo0 = if i >= 7 {
                i - 7
            } else {
                0
            };
            let lo = if lo0 > line_start {
                lo0
            } else {
                line_start
            };
            proof {
                assert forall|j: int| 0 <= j < n implies (inc_x_covers(table@, j, i as int) <==> lo
                    <= j <= i) by {
                    lemma_same_line(j, i as int, line_start as int);
                }
            }
            let mut m = lo;
            while m <= i
                invariant
                    n == table.len() == LINES * DOTS_PER_LINE,
                    lo <= m <= i + 1,
                    i < n,
                    active@.len() == n,
                    forall|j: int|
                        0 <= j < n ==> (active@[j] <==> (exists|ii: int|
                            ii < i && #[trigger] inc_x_covers(table@, j, ii)) || (lo <= j < m)),
                decreases i + 1 - m,
            {
                active.set(m, true);
                m = m + 1;
            }
            assert forall|j: int| 0 <= j < n implies (active@[j] <==> exists|ii: int|
                ii < i + 1 && #[trigger] inc_x_covers(table@, j, ii)) by {
                if lo <= j <= i {
                    assert(inc_x_covers(table@, j, i as int));
                }
                if exists|ii: int| ii < i + 1 && #[trigger] inc_x_covers(table@, j, ii) {
                    let ii = choose|ii: int| ii < i + 1 && #[trigger] inc_x_covers(table@, j, ii);
                    if ii == i {
                        assert(lo <= j <= i);
                    }
                }
            }
        } else {
            assert forall|j: int| 0 <= j < n implies (active@[j] <==> exists|ii: int|
                ii < i + 1 && #[trigger] inc_x_covers(table@, j, ii)) by {
                if exists|ii: int| ii < i + 1 && #[trigger] inc_x_covers(table@, j, ii) {
                    let ii = choose|ii: int| ii < i + 1 && #[trigger] inc_x_covers(table@, j, ii);
                    assert(ii != i);
                }
            }
        }
        i = i + 1;
    }
    assert(active@ =~= active_spec(table@));
    active
}

/// Two dots `j <= i` share a line exactly when `j` is at or past the
/// first dot of `i`'s line.
proof fn lemma_same_line(j: int, i: int, line_start: int)
    requires
        0 <= i,
        line_start == (i / 341) * 341,
    ensures
        (j <= i <= j + 7 && j / 341 == i / 341) <==> (j <= i && j >= i - 7 && j >= line_start),
{
    assert(0 <= i - line_start < 341) by (nonlinear_arith)
        requires
            0 <= i,
            line_start == (i / 341) * 341,
    ;
    if j <= i && j >= line_start {
        assert(j / 341 == i / 341) by (nonlinear_arith)
            requires
                line_start <= j <= i,
                line_start == (i / 341) * 341,
                0 <= i - line_start < 341,
        ;
    }
    if j < line_start {
        assert(j / 341 < i / 341) by (nonlinear_arith)
            requires
                j < line_start,
                line_start == (i / 341) * 341,
        ;
    }
}

} // verus!
