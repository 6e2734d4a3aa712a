//! What the register file and the stepper keep across calls, stated over
//! the specifications the exec functions are proved against.

use vstd::prelude::*;

use crate::bus::VramBus;
use crate::events::{CLR_FLAGS, COPY_X, COPY_Y, INC_X, INC_Y, SET_VBL, SPR_GARBAGE, SPR_PT_HI, SPR_PT_LO};
use crate::fast::{
    bg_pixel_spec, fetched_unit, shifted, unit_addr, Background, OamEntry, Unit,
    blank_colour, emphasis, fetch_spec, inc_x_step, pixel_dot, pixel_spec, sprite_spec, effective_event, hits, palette_slot, read_spec, read_timed_spec, rendering, start_spec,
    status_byte, step_spec, table_index, v_after_access, vbl_set_position, write_spec, wf_view,
    FastView,
};
use crate::position::{
    frame_dots, frame_start, lemma_next_linear, lemma_traversal_bounds, lemma_traversal_injective,
    linear_index, next_position, traversal_index, valid_position, Position,
};
use crate::{ACTIVE_ROWS, DOTS_PER_LINE, LINES};
use crate::scroll::{
    coarse_x, coarse_y, copy_x_spec, copy_y_spec, fine_y, inc_y_spec, lemma_fields_of_vaddr,
    lemma_scroll_ops_fifteen_bit, lemma_t_writes_fifteen_bit,
};

verus! {

/// Two $2006 writes from the first-write state point v, and t with it, at
/// the address they spell: the first byte's low six bits high, the second
/// byte low; the toggle is back at the first write.
pub proof fn law_address_pair<B: VramBus>(s: FastView<B>, hi: u8, lo: u8)
    requires
        !s.w,
    ensures
        write_spec(write_spec(s, 6, hi), 6, lo).v == (hi % 64) * 256 + lo,
        write_spec(write_spec(s, 6, hi), 6, lo).t == write_spec(write_spec(s, 6, hi), 6, lo).v,
        !write_spec(write_spec(s, 6, hi), 6, lo).w,
{
    let t1 = (s.t % 256 + (hi % 64) * 256) as u16;
    assert(t1 as int == s.t % 256 + (hi % 64) * 256);
    vstd::arithmetic::div_mod::lemma_fundamental_div_mod_converse(
        t1 as int,
        256,
        (hi % 64) as int,
        (s.t % 256) as int,
    );
}

/// Two $2005 writes from the first-write state set the scroll: the first
/// byte's coarse X into t and its low three bits into fine X, the second
/// byte's coarse and fine Y into t; the toggle is back at the first write.
#[verifier::rlimit(80)]
#[verifier::spinoff_prover]
pub proof fn law_scroll_pair<B: VramBus>(s: FastView<B>, x: u8, y: u8)
    requires
        !s.w,
    ensures
        coarse_x(write_spec(write_spec(s, 5, x), 5, y).t) == x / 8,
        write_spec(write_spec(s, 5, x), 5, y).fine_x == x % 8,
        coarse_y(write_spec(write_spec(s, 5, x), 5, y).t) == y / 8,
        fine_y(write_spec(write_spec(s, 5, x), 5, y).t) == y % 8,
        !write_spec(write_spec(s, 5, x), 5, y).w,
{
    let s1 = write_spec(s, 5, x);
    let t1 = s1.t;
    lemma_fields_of_vaddr((x >> 3u8) as u16, coarse_y(s.t), crate::scroll::nt_x(s.t), crate::scroll::nt_y(s.t), fine_y(s.t), crate::scroll::top_bit(s.t));
    lemma_fields_of_vaddr(coarse_x(t1), (y >> 3u8) as u16, crate::scroll::nt_x(t1), crate::scroll::nt_y(t1), (y & 7) as u16, crate::scroll::top_bit(t1));
    crate::bitfacts::lemma_byte_fields(x);
    crate::bitfacts::lemma_byte_fields(y);
    crate::bitfacts::lemma_word_fields((x >> 3u8) as u16);
    crate::bitfacts::lemma_word_fields((y >> 3u8) as u16);
    crate::bitfacts::lemma_word_fields((y & 7) as u16);
    crate::bitfacts::lemma_word_fields(((x >> 3u8) as u16) & 0x1f);
}

/// A $2002 read answers the flags and clears the vblank flag and the
/// write toggle.
pub proof fn law_status_read_clears<B: VramBus>(s: FastView<B>)
    ensures
        read_spec(s, 2).0 == status_byte(s.vbl, s.spr0_hit is Some, s.spr_overflow),
        !read_spec(s, 2).1.vbl,
        !read_spec(s, 2).1.w,
{
}

/// A palette byte written through $2007 reads back through $2007 at the
/// same address, masked to its six colour bits.
pub proof fn law_palette_read_back<B: VramBus>(s: FastView<B>, val: u8)
    requires
        s.palette.len() == 32,
        s.v & 0x3fff >= 0x3f00,
    ensures
        read_spec(FastView { v: s.v, ..write_spec(s, 7, val) }, 7).0 == val & 0x3f,
{
}

/// $3F10, $3F14, $3F18 and $3F1C are $3F00, $3F04, $3F08 and $3F0C: a
/// write at one reads back at the other.
pub proof fn law_palette_mirrors(a: u16)
    requires
        a % 4 == 0,
    ensures
        palette_slot(a) == palette_slot((a / 32 * 32 + a % 16) as u16),
        palette_slot(a) == palette_slot((a / 32 * 32 + a % 16 + 16) as u16),
{
}

/// An OAM byte written through $2004 reads back through $2004 once
/// $2003 points at it again.
pub proof fn law_oam_read_back<B: VramBus>(s: FastView<B>, addr: u8, val: u8)
    requires
        s.oam.len() == 256,
    ensures
        read_spec(write_spec(write_spec(write_spec(s, 3, addr), 4, val), 3, addr), 4).0 == val,
{
}

/// Every $2007 access leaves v a fifteen-bit address.
pub proof fn law_access_keeps_v_in_range(v: u16, ctrl: u8)
    ensures
        v_after_access(v, ctrl) < 0x8000,
{
}

/// Sprite 0's hit is the frame's first: once recorded it stays until the
/// next frame starts.
pub proof fn law_first_hit_kept<B: VramBus>(s: FastView<B>)
    requires
        s.spr0_hit is Some,
        s.pos != frame_start(),
    ensures
        step_spec(s).0.spr0_hit == s.spr0_hit,
{
    reveal(step_spec);
}

/// A set the race suppressed does not raise the vblank flag: stepping a
/// dot whose only flag event is the set leaves the flag as it was and
/// forgets the suppression; without the suppression the flag rises.
pub proof fn law_suppressed_set<B: VramBus>(s: FastView<B>)
    requires
        effective_event(start_spec(s)) & SET_VBL != 0,
        effective_event(start_spec(s)) & CLR_FLAGS == 0,
    ensures
        s.vbl_suppressed ==> step_spec(s).0.vbl == s.vbl && !step_spec(s).0.vbl_suppressed,
        !s.vbl_suppressed ==> step_spec(s).0.vbl,
{
    reveal(step_spec);
}

/// With rendering off the pipeline never touches v, t or the background
/// latches and shifters.
pub proof fn law_rendering_off_keeps_v<B: VramBus>(s: FastView<B>)
    requires
        wf_view(s),
        !rendering(s.mask),
    ensures
        step_spec(s).0.v == s.v,
        step_spec(s).0.t == s.t,
        step_spec(s).0.bg == s.bg,
{
    reveal(step_spec);
    let e = effective_event(start_spec(s));
    let w = start_spec(s).table[crate::fast::table_index(start_spec(s).pos)];
    assert(e == w & (SET_VBL | CLR_FLAGS));
    assert(e & 0x0001u16 == 0 && e & 0x0002u16 == 0 && e & 0x0004u16 == 0 && e & 0x0008u16 == 0
        && e & 0x0080u16 == 0 && e & 0x0100u16 == 0 && e & 0x0200u16 == 0 && e & 0x0400u16 == 0)
        by (bit_vector)
        requires
            e == w & (0x0800u16 | 0x1000u16),
    ;
}

/// The evaluation keeps OAM order: the selected sprites' OAM indices
/// increase with their slots, so of two overlapping sprites the lower
/// OAM index takes the lower slot, which the mux consults first.
pub proof fn law_selection_in_oam_order(oam: Seq<u8>, line: int, n: int)
    requires
        0 <= n,
    ensures
        forall|j: int, k: int|
            0 <= j < k < hits(oam, line, n).len() ==> #[trigger] hits(oam, line, n)[j]
                < #[trigger] hits(oam, line, n)[k],
    decreases n,
{
    if n > 0 {
        law_selection_in_oam_order(oam, line, n - 1);
        crate::fast::lemma_hits_in_range(oam, line, n - 1);
    }
}

/// Stepping moves the cursor exactly one dot along the traversal, and the
/// picture comes out on exactly one dot of the frame: the last of line
/// 260.
pub proof fn law_step_advances_one_dot<B: VramBus>(s: FastView<B>)
    requires
        valid_position(s.pos),
    ensures
        step_spec(s).0.pos == next_position(s.pos),
        step_spec(s).1 is Some <==> s.pos == (Position {
            line: (LINES - 2) as usize,
            dot: (DOTS_PER_LINE - 1) as usize,
        }),
{
    reveal(step_spec);
}

/// Sprite 0's hit lands on the dot being stepped: on a visible row, at the
/// pixel one left of the dot (pixel x is drawn at dot x + 1), and never on
/// pixel 255.
#[verifier::rlimit(40)]
pub proof fn law_hit_lands_on_its_pixel<B: VramBus>(s: FastView<B>)
    requires
        s.spr0_hit is None,
        step_spec(s).0.spr0_hit is Some,
    ensures
        step_spec(s).0.spr0_hit == Some((s.pos.line, (s.pos.dot - 1) as usize)),
        s.pos.line < ACTIVE_ROWS,
        1 <= s.pos.dot <= 255,
        s.mask & 0x18 == 0x18,
{
    reveal(step_spec);
    let m = s.mask;
    assert((m & 0x10 != 0 && m & 0x08 != 0 ==> m & 0x18 == 0x18) && 0u8 & 3 == 0) by (bit_vector);
}

/// A set's word carries the set and not the clear whether or not
/// rendering is on.
proof fn lemma_set_event(w: u16)
    requires
        w & SET_VBL != 0,
        w & CLR_FLAGS == 0,
    ensures
        (w & (SET_VBL | CLR_FLAGS)) & SET_VBL != 0,
        (w & (SET_VBL | CLR_FLAGS)) & CLR_FLAGS == 0,
{
    assert((w & (0x0800u16 | 0x1000u16)) & 0x0800u16 != 0 && (w & (0x0800u16 | 0x1000u16))
        & 0x1000u16 == 0) by (bit_vector)
        requires
            w & 0x0800u16 != 0,
            w & 0x1000u16 == 0,
    ;
}

/// The vblank read race, for a $2002 read starting `into` half-steps into
/// the dot before the set's (the set's dot is the next to step): one
/// starting with that dot is an ordinary read, and the set goes ahead
/// after it; one starting later inside it reads the flag clear, and the
/// set never raises the flag.
pub proof fn law_vbl_race<B: VramBus>(s: FastView<B>, into: u8)
    requires
        wf_view(s),
        into < 8,
        s.pos == vbl_set_position(),
        !s.vbl_suppressed,
        s.table[table_index(s.pos)] & SET_VBL != 0,
        s.table[table_index(s.pos)] & CLR_FLAGS == 0,
    ensures
        into == 0 ==> read_timed_spec(s, 2, into) == read_spec(s, 2),
        into == 0 ==> step_spec(read_timed_spec(s, 2, into).1).0.vbl,
        into > 0 ==> read_timed_spec(s, 2, into).0 & 0x80 == 0,
        into > 0 ==> step_spec(read_timed_spec(s, 2, into).1).0.vbl == s.vbl,
{
    let s1 = read_timed_spec(s, 2, into).1;
    assert(crate::position::frame_dots() == 89342);
    assert(crate::position::dots_ahead_spec(s.pos, vbl_set_position()) == Some(0int));
    lemma_set_event(s.table[table_index(s.pos)]);
    assert(start_spec(s1) == s1);
    assert(effective_event(start_spec(s1)) & SET_VBL != 0);
    assert(effective_event(start_spec(s1)) & CLR_FLAGS == 0);
    law_suppressed_set(s1);
    crate::bitfacts::lemma_top_bit(read_timed_spec(s, 2, into).0);
}

/// A $2002 read starting anywhere in the dot two before the set's is an
/// ordinary read: the race has not begun.
pub proof fn law_early_read_is_plain<B: VramBus>(s: FastView<B>, into: u8)
    requires
        wf_view(s),
        into < 8,
        next_position(s.pos) == vbl_set_position(),
    ensures
        read_timed_spec(s, 2, into) == read_spec(s, 2),
{
    assert(s.pos == (Position { line: 241, dot: 0 }));
    assert(crate::position::frame_dots() == 89342);
    assert(crate::position::dots_ahead_spec(s.pos, vbl_set_position()) == Some(1int));
}

/// No sprite is drawn from the pre-render line's sprite window, which is
/// why line 0 shows no sprites: the window's first event there selects
/// nothing and empties the units, and its later events leave every unit
/// inactive.
pub proof fn law_no_sprites_from_pre_render<B: VramBus>(s: FastView<B>)
    requires
        wf_view(s),
        s.pos.line == LINES - 1,
    ensures
        !start_spec(s).evaluated && step_spec(s).0.evaluated ==> step_spec(s).0.sec_n == 0
            && forall|k: int| 0 <= k < 8 ==> !(#[trigger] step_spec(s).0.units[k]).active,
        start_spec(s).evaluated && s.sec_n == 0 && (forall|k: int|
            0 <= k < 8 ==> !(#[trigger] s.units[k]).active) ==> step_spec(s).0.sec_n == 0
            && forall|k: int| 0 <= k < 8 ==> !(#[trigger] step_spec(s).0.units[k]).active,
{
    reveal(step_spec);
}

/// v and t stay fifteen-bit addresses: no write, read, timed read or step
/// sets bit 15 of either.
pub proof fn law_v_t_fifteen_bit<B: VramBus>(s: FastView<B>, reg: u8, val: u8, into: u8)
    requires
        wf_view(s),
        s.v < 0x8000,
        s.t < 0x8000,
    ensures
        write_spec(s, reg, val).v < 0x8000 && write_spec(s, reg, val).t < 0x8000,
        read_spec(s, reg).1.v < 0x8000 && read_spec(s, reg).1.t < 0x8000,
        read_timed_spec(s, reg, into).1.v < 0x8000 && read_timed_spec(s, reg, into).1.t < 0x8000,
        step_spec(s).0.v < 0x8000 && step_spec(s).0.t < 0x8000,
{
    lemma_t_writes_fifteen_bit(s.t, val);
    reveal(step_spec);
    let s1 = start_spec(s);
    let e = effective_event(s1);
    let s4 = sprite_spec(fetch_spec(pixel_spec(s1), e), e);
    assert(s4.v == s.v && s4.t == s.t);
    lemma_scroll_ops_fifteen_bit(s4.v, s4.t);
    let s5 = if e & INC_X != 0 {
        inc_x_step(s4)
    } else {
        s4
    };
    let v2 = if e & INC_Y != 0 {
        inc_y_spec(s5.v)
    } else {
        s5.v
    };
    lemma_scroll_ops_fifteen_bit(s5.v, s.t);
    let v3 = if e & COPY_X != 0 {
        copy_x_spec(v2, s5.t)
    } else {
        v2
    };
    lemma_scroll_ops_fifteen_bit(v2, s.t);
    lemma_scroll_ops_fifteen_bit(v3, s.t);
    let v4 = if e & COPY_Y != 0 {
        copy_y_spec(v3, s5.t)
    } else {
        v3
    };
}

/// With rendering off, a pixel's dot shows the blank picture: stepping it
/// buffers the palette entry the shown address reaches inside palette RAM,
/// the backdrop outside it, with $2001's emphasis bits beside it.
pub proof fn law_blank_dot<B: VramBus>(s: FastView<B>)
    requires
        wf_view(s),
        !rendering(s.mask),
        pixel_dot(s.pos),
    ensures
        step_spec(s).0.line_buf[s.pos.dot as int] == blank_colour(s),
        step_spec(s).0.line_blank[s.pos.dot as int],
        step_spec(s).0.line_emph[s.pos.dot as int] == emphasis(s.mask),
{
    reveal(step_spec);
    assert(start_spec(s) == s);
}

/// Only a timed $2002 read arms a suppression: writes, plain reads and
/// steps never do, so once a suppressed set has spent it, the next set
/// raises the flag unless another race read comes first.
pub proof fn law_only_race_reads_suppress<B: VramBus>(s: FastView<B>, reg: u8, val: u8)
    ensures
        write_spec(s, reg, val).vbl_suppressed == s.vbl_suppressed,
        read_spec(s, reg).1.vbl_suppressed == s.vbl_suppressed,
        step_spec(s).0.vbl_suppressed ==> s.vbl_suppressed,
{
    reveal(step_spec);
}

/// The overflow flag within a frame: cleared as the frame starts, it never
/// falls again, it rises only on the step that runs a visible line's
/// evaluation with nine or more sprites in range of that line, and such a
/// step always raises it.
pub proof fn law_overflow_from_evaluation<B: VramBus>(s: FastView<B>)
    ensures
        s.pos == frame_start() ==> !start_spec(s).spr_overflow,
        s.pos != frame_start() && s.spr_overflow ==> step_spec(s).0.spr_overflow,
        step_spec(s).0.spr_overflow && !start_spec(s).spr_overflow ==> s.pos.line < ACTIVE_ROWS
            && hits(s.oam, s.pos.line as int, 64).len() > 8,
        crate::fast::render_line(s) && s.pos.line < ACTIVE_ROWS && !start_spec(s).evaluated
            && effective_event(start_spec(s)) & (SPR_GARBAGE | SPR_PT_LO | SPR_PT_HI) != 0
            && hits(s.oam, s.pos.line as int, 64).len() > 8 ==> step_spec(s).0.spr_overflow,
{
    reveal(step_spec);
}

/// The stepper's state after `k` steps from `s`.
pub open spec fn steps<B: VramBus>(s: FastView<B>, k: nat) -> FastView<B>
    decreases k,
{
    if k == 0 {
        s
    } else {
        step_spec(steps(s, (k - 1) as nat)).0
    }
}

/// The dot the `k`-th step from a frame's start steps: the pre-render
/// line's dots first, then line 0's, and so on, frame after frame.
pub open spec fn kth_dot(k: int) -> Position {
    let i = k % frame_dots();
    let l = i / (DOTS_PER_LINE as int);
    Position {
        line: if l == 0 {
            (LINES - 1) as usize
        } else {
            (l - 1) as usize
        },
        dot: (i % (DOTS_PER_LINE as int)) as usize,
    }
}

/// Stepping leaves the sequencer table, OAM, $2000 and $2001 as they are.
proof fn lemma_step_keeps_registers<B: VramBus>(s: FastView<B>)
    ensures
        step_spec(s).0.table == s.table,
        step_spec(s).0.oam == s.oam,
        step_spec(s).0.mask == s.mask,
        step_spec(s).0.ctrl == s.ctrl,
{
    reveal(step_spec);
}

/// ... and so do `k` steps; the cursor moves `k` dots along the traversal.
proof fn lemma_steps<B: VramBus>(s: FastView<B>, k: nat)
    requires
        valid_position(s.pos),
    ensures
        steps(s, k).table == s.table,
        steps(s, k).oam == s.oam,
        steps(s, k).mask == s.mask,
        steps(s, k).ctrl == s.ctrl,
        valid_position(steps(s, k).pos),
        traversal_index(steps(s, k).pos) == (traversal_index(s.pos) + k) % frame_dots(),
    decreases k,
{
    if k == 0 {
        lemma_traversal_bounds(s.pos);
        assert(traversal_index(s.pos) % frame_dots() == traversal_index(s.pos)) by (nonlinear_arith)
            requires
                0 <= traversal_index(s.pos) < frame_dots(),
        ;
    } else {
        let p = steps(s, (k - 1) as nat);
        lemma_steps(s, (k - 1) as nat);
        lemma_step_keeps_registers(p);
        law_step_advances_one_dot(p);
        lemma_next_linear(p.pos);
        let t0 = traversal_index(s.pos);
        assert(((t0 + k - 1) % frame_dots() + 1) % frame_dots() == (t0 + k) % frame_dots()) by {
            vstd::arithmetic::div_mod::lemma_add_mod_noop(t0 + k - 1, 1, frame_dots());
            vstd::arithmetic::div_mod::lemma_mod_twice(t0 + k - 1, frame_dots());
            vstd::arithmetic::div_mod::lemma_small_mod(1, frame_dots() as nat);
            vstd::arithmetic::div_mod::lemma_add_mod_noop(
                (t0 + k - 1) % frame_dots(),
                1,
                frame_dots(),
            );
        }
    }
}

/// `kth_dot(k)` is a dot of the frame, the `k`-th of the traversal.
proof fn lemma_kth_dot(k: int)
    requires
        k >= 0,
    ensures
        valid_position(kth_dot(k)),
        traversal_index(kth_dot(k)) == k % frame_dots(),
{
    let f = frame_dots();
    let i = k % f;
    let l = i / 341;
    let d = i % 341;
    assert(f == 89342);
    vstd::arithmetic::div_mod::lemma_fundamental_div_mod(i, 341);
    assert(0 <= i < f);
    assert(0 <= d < 341);
    assert(0 <= l < 262) by (nonlinear_arith)
        requires
            i == 341 * l + d,
            0 <= i < 89342,
            0 <= d < 341,
    ;
    let p = kth_dot(k);
    if l == 0 {
        assert(linear_index(p) - linear_index(frame_start()) == d);
    } else {
        assert(linear_index(p) - linear_index(frame_start()) == i - f) by (nonlinear_arith)
            requires
                linear_index(p) == (l - 1) * 341 + d,
                linear_index(frame_start()) == 261 * 341,
                i == 341 * l + d,
                f == 89342,
        ;
        vstd::arithmetic::div_mod::lemma_mod_add_multiples_vanish(i - f, f);
    }
}

/// The `k`-th step from a frame's start steps the `k`-th dot of the
/// traversal (the pre-render line first, then lines 0 through 260, frame
/// after frame), ends on the dot after it, and hands the picture out
/// exactly when that dot is the last of line 260.
pub proof fn law_kth_step<B: VramBus>(s: FastView<B>, k: nat)
    requires
        s.pos == frame_start(),
    ensures
        steps(s, k).pos == kth_dot(k as int),
        steps(s, k + 1).pos == kth_dot(k + 1int),
        step_spec(steps(s, k)).1 is Some <==> kth_dot(k as int) == (Position {
            line: (LINES - 2) as usize,
            dot: (DOTS_PER_LINE - 1) as usize,
        }),
{
    lemma_traversal_bounds(s.pos);
    lemma_steps(s, k);
    lemma_steps(s, k + 1);
    lemma_kth_dot(k as int);
    lemma_kth_dot(k + 1int);
    lemma_traversal_injective(steps(s, k).pos, kth_dot(k as int));
    lemma_traversal_injective(steps(s, k + 1).pos, kth_dot(k + 1int));
    law_step_advances_one_dot(steps(s, k));
}

/// The first step of a frame clears sprite 0's hit and the overflow, and
/// sets neither: the pre-render line draws no pixel and evaluates no
/// sprite.
proof fn lemma_frame_first_step<B: VramBus>(s: FastView<B>)
    requires
        s.pos == frame_start(),
    ensures
        step_spec(s).0.spr0_hit is None,
        !step_spec(s).0.spr_overflow,
{
    reveal(step_spec);
}

/// Over one frame from its start: sprite 0's hit, once recorded, is the
/// frame's, kept to the frame's end; it lies on a visible row, at a pixel
/// short of 255, and needs both the background and the sprites shown; and
/// the overflow flag is set only if some visible line has nine or more
/// sprites in range.
pub proof fn law_frame_hit_and_overflow<B: VramBus>(s: FastView<B>, k: nat)
    requires
        s.pos == frame_start(),
        1 <= k <= frame_dots(),
    ensures
        steps(s, k).spr0_hit matches Some((l, x)) ==> l < ACTIVE_ROWS && x < 255 && s.mask & 0x18
            == 0x18,
        forall|j: nat|
            1 <= j <= k && (#[trigger] steps(s, j)).spr0_hit is Some ==> steps(s, k).spr0_hit
                == steps(s, j).spr0_hit,
        steps(s, k).spr_overflow ==> exists|l: int|
            0 <= l < ACTIVE_ROWS && #[trigger] hits(s.oam, l, 64).len() > 8,
    decreases k,
{
    lemma_traversal_bounds(s.pos);
    if k == 1 {
        lemma_frame_first_step(s);
        assert(steps(s, 0) == s);
    assert(steps(s, 1) == step_spec(s).0);
    } else {
        let p = steps(s, (k - 1) as nat);
        law_frame_hit_and_overflow(s, (k - 1) as nat);
        lemma_steps(s, (k - 1) as nat);
        assert(p.pos != frame_start()) by {
            lemma_traversal_bounds(frame_start());
            assert(traversal_index(p.pos) == (k - 1) as int);
        }
        assert(steps(s, k) == step_spec(p).0);
        if p.spr0_hit is Some {
            law_first_hit_kept(p);
        } else if step_spec(p).0.spr0_hit is Some {
            law_hit_lands_on_its_pixel(p);
        }
        law_overflow_from_evaluation(p);
        assert forall|j: nat|
            1 <= j <= k && (#[trigger] steps(s, j)).spr0_hit is Some implies steps(s, k).spr0_hit
            == steps(s, j).spr0_hit by {
            if j < k {
                assert(steps(s, (k - 1) as nat).spr0_hit == steps(s, j).spr0_hit);
                law_first_hit_kept(p);
            }
        }
        if steps(s, k).spr_overflow && !p.spr_overflow {
            assert(hits(s.oam, p.pos.line as int, 64).len() > 8);
        }
    }
}

/// A suppressed set is spent: stepping the set's dot leaves the flag as it
/// was and forgets the suppression, and a frame later, with no race read
/// in between, the set raises the flag.
pub proof fn law_suppression_spent<B: VramBus>(s: FastView<B>)
    requires
        s.pos == vbl_set_position(),
        s.vbl_suppressed,
        s.table[table_index(s.pos)] & SET_VBL != 0,
        s.table[table_index(s.pos)] & CLR_FLAGS == 0,
    ensures
        steps(s, 1).vbl == s.vbl,
        !steps(s, 1).vbl_suppressed,
        steps(s, frame_dots() as nat + 1).vbl,
{
    let f = frame_dots() as nat;
    lemma_set_event(s.table[table_index(s.pos)]);
    assert(start_spec(s) == s);
    law_suppressed_set(s);
    assert(steps(s, 0) == s);
    assert(steps(s, 1) == step_spec(s).0);
    lemma_not_suppressed(s, f);
    lemma_steps(s, f);
    let q = steps(s, f);
    lemma_traversal_bounds(s.pos);
    assert(traversal_index(q.pos) == traversal_index(s.pos)) by {
        vstd::arithmetic::div_mod::lemma_mod_add_multiples_vanish(traversal_index(s.pos), frame_dots());
        vstd::arithmetic::div_mod::lemma_small_mod(traversal_index(s.pos) as nat, frame_dots() as nat);
    }
    lemma_traversal_injective(q.pos, s.pos);
    assert(start_spec(q) == q);
    law_suppressed_set(q);
}

/// After the first of `k` steps from a suppressed set, no suppression is
/// armed: only a timed read arms one.
proof fn lemma_not_suppressed<B: VramBus>(s: FastView<B>, k: nat)
    requires
        1 <= k,
        !steps(s, 1).vbl_suppressed,
    ensures
        !steps(s, k).vbl_suppressed,
    decreases k,
{
    if k > 1 {
        lemma_not_suppressed(s, (k - 1) as nat);
        law_only_race_reads_suppress(steps(s, (k - 1) as nat), 0, 0);
    }
}

/// Every visible line's row of the table has a sprite-window event: the
/// dot where the line's evaluation runs.
pub open spec fn windows_on_every_line(table: Seq<u16>) -> bool {
    forall|l: int| 0 <= l < ACTIVE_ROWS ==> #[trigger] line_has_window(table, l)
}

/// Some dot of line `l` carries a sprite-window event.
pub open spec fn line_has_window(table: Seq<u16>, l: int) -> bool {
    exists|d: int| 0 <= d < DOTS_PER_LINE && #[trigger] sprite_event(table, l, d)
}

/// Dot `d` of line `l` carries a sprite-window event.
pub open spec fn sprite_event(table: Seq<u16>, l: int, d: int) -> bool {
    table[l * DOTS_PER_LINE as int + d] & (SPR_GARBAGE | SPR_PT_LO | SPR_PT_HI) != 0
}

/// The first dot of line `l` with a sprite-window event, at or before `d`.
proof fn lemma_first_event(table: Seq<u16>, l: int, d: int) -> (d0: int)
    requires
        0 <= d < DOTS_PER_LINE,
        sprite_event(table, l, d),
    ensures
        0 <= d0 <= d,
        sprite_event(table, l, d0),
        forall|e: int| 0 <= e < d0 ==> !#[trigger] sprite_event(table, l, e),
    decreases d,
{
    if d > 0 && exists|e: int| 0 <= e < d && #[trigger] sprite_event(table, l, e) {
        let e = choose|e: int| 0 <= e < d && #[trigger] sprite_event(table, l, e);
        lemma_first_event(table, l, e)
    } else {
        d
    }
}

/// Before a visible line's first sprite-window event no evaluation has run
/// on it: stepping its dots up to that event leaves `evaluated` clear.
proof fn lemma_not_evaluated<B: VramBus>(s: FastView<B>, l: int, d0: int, j: nat)
    requires
        s.pos == frame_start(),
        rendering(s.mask),
        0 <= l < ACTIVE_ROWS,
        0 <= d0 < DOTS_PER_LINE,
        1 <= j <= d0,
        forall|e: int| 0 <= e < d0 ==> !#[trigger] sprite_event(s.table, l, e),
    ensures
        !steps(s, ((l + 1) * 341 + j) as nat).evaluated,
    decreases j,
{
    let k = ((l + 1) * 341 + j - 1) as nat;
    let x = steps(s, k);
    law_kth_step(s, k);
    lemma_steps(s, k);
    assert(kth_dot(k as int) == (Position { line: l as usize, dot: (j - 1) as usize })) by {
        assert(frame_dots() == 89342);
        assert((k as int) % frame_dots() == k) by (nonlinear_arith)
            requires
                k == (l + 1) * 341 + j - 1,
                0 <= l < 240,
                1 <= j < 341,
                frame_dots() == 89342,
        ;
        vstd::arithmetic::div_mod::lemma_fundamental_div_mod_converse(
            k as int,
            341,
            l + 1,
            j - 1,
        );
    }
    if j > 1 {
        lemma_not_evaluated(s, l, d0, (j - 1) as nat);
    }
    assert(!sprite_event(s.table, l, j - 1));
    reveal(step_spec);
    assert(table_index(x.pos) == l * 341 + j - 1);
    assert(steps(s, k + 1) == step_spec(x).0);
}

/// Once set within a frame, the overflow stays set to the frame's end.
proof fn lemma_overflow_kept<B: VramBus>(s: FastView<B>, j: nat, k: nat)
    requires
        s.pos == frame_start(),
        1 <= j <= k <= frame_dots(),
        steps(s, j).spr_overflow,
    ensures
        steps(s, k).spr_overflow,
    decreases k - j,
{
    if j < k {
        let p = steps(s, (k - 1) as nat);
        lemma_overflow_kept(s, j, (k - 1) as nat);
        lemma_traversal_bounds(s.pos);
        lemma_steps(s, (k - 1) as nat);
        assert(p.pos != frame_start()) by {
            lemma_traversal_bounds(frame_start());
            assert(traversal_index(p.pos) == (k - 1) as int);
        }
        law_overflow_from_evaluation(p);
        assert(steps(s, k) == step_spec(p).0);
    }
}

/// Over one frame with rendering on, when every visible line's row of the
/// table has a sprite-window event: the overflow flag at the frame's end
/// is set exactly when some visible line has nine or more sprites in
/// range.
pub proof fn law_frame_overflow<B: VramBus>(s: FastView<B>)
    requires
        s.pos == frame_start(),
        rendering(s.mask),
        windows_on_every_line(s.table),
    ensures
        steps(s, frame_dots() as nat).spr_overflow <==> exists|l: int|
            0 <= l < ACTIVE_ROWS && #[trigger] hits(s.oam, l, 64).len() > 8,
{
    let f = frame_dots() as nat;
    law_frame_hit_and_overflow(s, f);
    if exists|l: int| 0 <= l < ACTIVE_ROWS && #[trigger] hits(s.oam, l, 64).len() > 8 {
        let l = choose|l: int| 0 <= l < ACTIVE_ROWS && #[trigger] hits(s.oam, l, 64).len() > 8;
        assert(line_has_window(s.table, l));
        let d = choose|d: int| 0 <= d < DOTS_PER_LINE && #[trigger] sprite_event(s.table, l, d);
        let d0 = lemma_first_event(s.table, l, d);
        let kk = ((l + 1) * 341 + d0) as nat;
        let x = steps(s, kk);
        law_kth_step(s, kk);
        lemma_steps(s, kk);
        assert(kth_dot(kk as int) == (Position { line: l as usize, dot: d0 as usize })) by {
            assert(frame_dots() == 89342);
            assert((kk as int) % frame_dots() == kk) by (nonlinear_arith)
                requires
                    kk == (l + 1) * 341 + d0,
                    0 <= l < 240,
                    0 <= d0 < 341,
                    frame_dots() == 89342,
            ;
            vstd::arithmetic::div_mod::lemma_fundamental_div_mod_converse(kk as int, 341, l + 1, d0);
        }
        if d0 > 0 {
            lemma_not_evaluated(s, l, d0, d0 as nat);
        }
        assert(!start_spec(x).evaluated);
        assert(table_index(x.pos) == l * 341 + d0);
        assert(effective_event(start_spec(x)) & (SPR_GARBAGE | SPR_PT_LO | SPR_PT_HI) != 0);
        law_overflow_from_evaluation(x);
        assert(steps(s, kk + 1) == step_spec(x).0);
        assert(kk + 1 <= f) by (nonlinear_arith)
            requires
                kk == (l + 1) * 341 + d0,
                0 <= l < 240,
                0 <= d0 < 341,
                f == 262 * 341,
        ;
        lemma_overflow_kept(s, kk + 1, f);
    }
}

/// Bit `i` of a byte, as 0 or 1.
pub open spec fn bit8(b: u8, i: u8) -> int {
    ((b >> i) & 1) as int
}

/// Bit `i` of a word, as 0 or 1.
pub open spec fn bit_of_word(w: u16, i: int) -> int {
    ((w >> (i as u16)) & 1) as int
}

/// A sprite's column `c` (0 the leftmost) draws from bit `7 - c` of its
/// pattern planes, the leftmost pixel being the planes' most significant
/// bit; a horizontally flipped sprite draws column `c` from bit `c`.
/// Stepping a visible dot with only sprites shown and unit 0 opaque there
/// buffers that unit's colour index from those bits.
pub proof fn law_sprite_columns<B: VramBus>(s: FastView<B>)
    requires
        s.pos.line < ACTIVE_ROWS,
        1 <= s.pos.dot <= 256,
        s.active[table_index(s.pos)],
        s.mask & 0x18 == 0x10,
        s.units.len() == 8,
        s.line_buf.len() == DOTS_PER_LINE,
        s.units[0].active,
        s.units[0].palette < 4,
        s.units[0].x as int <= s.pos.dot - 1 < s.units[0].x as int + 8,
        ({
            let u = s.units[0];
            let c = (s.pos.dot - 1 - u.x) as u8;
            let b = if u.hflip {
                c
            } else {
                (7 - c) as u8
            };
            2 * bit8(u.hi, b) + bit8(u.lo, b) != 0
        }),
    ensures
        ({
            let u = s.units[0];
            let c = (s.pos.dot - 1 - u.x) as u8;
            let b = if u.hflip {
                c
            } else {
                (7 - c) as u8
            };
            step_spec(s).0.line_buf[s.pos.dot as int] == 16 + 4 * u.palette + 2 * bit8(u.hi, b)
                + bit8(u.lo, b)
        }),
{
    reveal(step_spec);
    let u = s.units[0];
    let c = (s.pos.dot - 1 - u.x) as u8;
    let b = if u.hflip {
        c
    } else {
        (7 - c) as u8
    };
    let (hi, lo, pal) = (u.hi, u.lo, u.palette);
    assert(((((hi >> b) & 1) << 1u8) | ((lo >> b) & 1)) == 2 * ((hi >> b) & 1) + ((lo >> b) & 1)
        && 2 * ((hi >> b) & 1) + ((lo >> b) & 1) < 4) by (bit_vector);
    let p = ((((hi >> b) & 1) << 1u8) | ((lo >> b) & 1)) as u8;
    assert((pal < 4 && p < 4) ==> (0x10u8 | (pal << 2u8) | p) == 16 + 4 * pal + p && (0x10u8
        | (pal << 2u8) | p) & 3 == p && 0u8 & 3 == 0) by (bit_vector);
    let m = s.mask;
    assert(m & 0x18 == 0x10 ==> m & 0x08 == 0 && m & 0x10 != 0) by (bit_vector);
    assert(start_spec(s) == s);
    assert(crate::fast::unit_pattern(u, s.pos.dot - 1) == p);
    assert(crate::fast::unit_shows(u, s.pos.dot - 1));
    assert(crate::fast::spr_pixel_from(s.units, s.pos.dot - 1, 0) == Some(
        ((0x10u8 | (pal << 2u8) | p) as u8, u.behind, u.is_zero),
    ));
    assert(crate::fast::mux_spec(s, s.pos.line as int, s.pos.dot as int).0 == (0x10u8 | (pal
        << 2u8) | p));
    assert(pixel_spec(s).line_buf[s.pos.dot as int] == (0x10u8 | (pal << 2u8) | p));
}

/// The sprite pattern table is chosen by $2000 bit 3 alone: bit 4 (the
/// background's) leaves a sprite's fetch as it is, and bit 3 moves it
/// from $0000 to $1000.
pub proof fn law_sprite_table_select<B: VramBus>(bus: B, ctrl: u8, entry: OamEntry, line: int)
    ensures
        fetched_unit(bus, ctrl ^ 0x10, entry, line) == fetched_unit(bus, ctrl, entry, line),
        unit_addr(ctrl | 0x08, entry, line) == unit_addr(ctrl & 0xf7, entry, line) + 0x1000,
        unit_addr(ctrl & 0xf7, entry, line) == 16 * entry.tile + crate::fast::sprite_row(
            entry,
            line,
        ),
{
    assert(((ctrl ^ 0x10) & 0x08 != 0) == (ctrl & 0x08 != 0) && (ctrl | 0x08) & 0x08 != 0 && (ctrl
        & 0xf7) & 0x08 == 0 && 0u8 & 0x08 == 0) by (bit_vector);
    let x = (line - entry.y) as u16;
    assert(x & 7 < 8) by (bit_vector);
}

/// The background's shifters advanced `n` times.
pub open spec fn shifted_by(bg: Background, n: nat) -> Background
    decreases n,
{
    if n == 0 {
        bg
    } else {
        shifted(shifted_by(bg, (n - 1) as nat))
    }
}

/// A shift moves every bit one place up.
proof fn lemma_shift_bit(x: u16, i: u16)
    requires
        i < 15,
    ensures
        bit_of_word(((x * 2) % 0x10000) as u16, i + 1) == bit_of_word(x, i as int),
{
    assert((((x * 2) % 0x10000) as u16 >> (i + 1)) & 1 == (x >> i) & 1) by (bit_vector)
        requires
            i < 15,
    ;
}

/// After `n` shifts, bit `j` of each shifter is what bit `j - n` was.
proof fn lemma_shifted_by_bits(bg: Background, n: nat, j: int)
    requires
        n <= j <= 15,
    ensures
        bit_of_word(shifted_by(bg, n).shift_lo, j) == bit_of_word(bg.shift_lo, j - n),
        bit_of_word(shifted_by(bg, n).shift_hi, j) == bit_of_word(bg.shift_hi, j - n),
        bit_of_word(shifted_by(bg, n).attr_lo, j) == bit_of_word(bg.attr_lo, j - n),
        bit_of_word(shifted_by(bg, n).attr_hi, j) == bit_of_word(bg.attr_hi, j - n),
    decreases n,
{
    if n > 0 {
        let p = shifted_by(bg, (n - 1) as nat);
        lemma_shifted_by_bits(bg, (n - 1) as nat, j - 1);
        lemma_shift_bit(p.shift_lo, (j - 1) as u16);
        lemma_shift_bit(p.shift_hi, (j - 1) as u16);
        lemma_shift_bit(p.attr_lo, (j - 1) as u16);
        lemma_shift_bit(p.attr_hi, (j - 1) as u16);
    }
}

/// Fine X scrolls the background left: the pixel drawn with fine X `f` is
/// the one drawn without fine scroll `f` pixels (shifts) later.
pub proof fn law_fine_x_scrolls<B: VramBus>(bg: Background, f: u8)
    requires
        f < 8,
    ensures
        bg_pixel_spec(bg, f) == bg_pixel_spec(shifted_by(bg, f as nat), 0),
{
    lemma_shifted_by_bits(bg, f as nat, 15);
    let g = shifted_by(bg, f as nat);
    assert(crate::fast::bit16(bg.shift_lo, (15 - f) as u16) == bit_of_word(bg.shift_lo, 15 - f));
    assert(crate::fast::bit16(g.shift_lo, 15) == bit_of_word(g.shift_lo, 15));
}

/// The background pixel at fine X 0 is the shifters' top bits: pattern
/// from bit 15 of the two pattern shifters, palette from bit 15 of the two
/// attribute shifters, a transparent pattern giving index 0.
pub proof fn law_background_top_bits(bg: Background)
    ensures
        bg_pixel_spec(bg, 0) == (if bit_of_word(bg.shift_hi, 15) == 0 && bit_of_word(
            bg.shift_lo,
            15,
        ) == 0 {
            0
        } else {
            8 * bit_of_word(bg.attr_hi, 15) + 4 * bit_of_word(bg.attr_lo, 15) + 2 * bit_of_word(
                bg.shift_hi,
                15,
            ) + bit_of_word(bg.shift_lo, 15)
        }),
{
    let (a, b, c, d) = (bg.shift_hi, bg.shift_lo, bg.attr_hi, bg.attr_lo);
    assert((a >> 15u16) & 1 <= 1 && (b >> 15u16) & 1 <= 1 && (c >> 15u16) & 1 <= 1 && (d >> 15u16)
        & 1 <= 1) by (bit_vector);
}

/// Sprite 0 hits only over an opaque background pixel: a step that records
/// the hit has a set bit `15 - fine_x` in one of the pattern shifters.
pub proof fn law_hit_needs_opaque_background<B: VramBus>(s: FastView<B>)
    requires
        s.spr0_hit is None,
        s.pos != frame_start(),
        step_spec(s).0.spr0_hit is Some,
    ensures
        bit_of_word(s.bg.shift_lo, 15 - s.fine_x) != 0 || bit_of_word(s.bg.shift_hi, 15
            - s.fine_x) != 0,
{
    reveal(step_spec);
    assert(0u8 & 3 == 0) by (bit_vector);
    assert(start_spec(s).bg == s.bg);
    assert(start_spec(s).fine_x == s.fine_x);
}

/// The clear lowers the vblank flag: stepping a dot whose events carry
/// the clear leaves the flag down, whatever else the dot carries.
pub proof fn law_clear_lowers_vblank<B: VramBus>(s: FastView<B>)
    requires
        effective_event(start_spec(s)) & CLR_FLAGS != 0,
    ensures
        !step_spec(s).0.vbl,
{
    reveal(step_spec);
}

/// A sprite's rows: on the `r`-th line of the sprite (the line `y + 1 + r`
/// drawn from the evaluation on line `y + r`), its pattern row is `r`, or
/// `7 - r` when flipped vertically (attribute bit 7); the row is the low
/// nibble of the fetch address.
pub proof fn law_sprite_rows(ctrl: u8, entry: OamEntry, line: int)
    requires
        entry.y <= line < entry.y + 8,
    ensures
        unit_addr(ctrl, entry, line) % 16 == (if entry.attr >= 0x80 {
            7 - (line - entry.y)
        } else {
            line - entry.y
        }),
{
    let r = (line - entry.y) as u16;
    assert(r < 8 ==> r & 7 == r) by (bit_vector);
    let a = entry.attr;
    assert((a & 0x80 != 0) == (a >= 0x80)) by (bit_vector);
    let c = ctrl;
    assert(((c & 0x08) != 0) || ((c & 0x08) == 0));
}

/// The evaluation takes exactly the sprites whose eight rows cover the
/// line: OAM sprite `i` is among those considered for `line` exactly when
/// its Y is at most `line` and more than `line - 8`.
pub proof fn law_in_range_sprites(oam: Seq<u8>, line: int, n: int)
    requires
        0 <= n <= 64,
    ensures
        forall|i: int|
            0 <= i < n ==> (#[trigger] hits(oam, line, n).contains(i) <==> (oam[4 * i] as int <= line
                && line < oam[4 * i] as int + 8)),
    decreases n,
{
    if n > 0 {
        law_in_range_sprites(oam, line, n - 1);
        crate::fast::lemma_hits_in_range(oam, line, n - 1);
        assert forall|i: int| 0 <= i < n implies (#[trigger] hits(oam, line, n).contains(i) <==> (
        oam[4 * i] as int <= line && line < oam[4 * i] as int + 8)) by {
            let h = hits(oam, line, n - 1);
            if hits(oam, line, n).contains(i) {
                let k = choose|k: int| 0 <= k < hits(oam, line, n).len() && hits(oam, line, n)[k]
                    == i;
                if k < h.len() {
                    assert(h[k] == i);
                    assert(h.contains(i));
                }
            }
            if i < n - 1 && h.contains(i) {
                let k = choose|k: int| 0 <= k < h.len() && h[k] == i;
                assert(hits(oam, line, n)[k] == i);
            }
            if i == n - 1 && crate::fast::in_range(oam, i, line) {
                assert(hits(oam, line, n)[h.len() as int] == i);
            }
            if i < n - 1 && hits(oam, line, n).contains(i) {
                let k = choose|k: int| 0 <= k < hits(oam, line, n).len() && hits(oam, line, n)[k]
                    == i;
                if k == h.len() {
                    assert(hits(oam, line, n)[k] == n - 1);
                }
            }
            if i == n - 1 && hits(oam, line, n).contains(i) {
                let k = choose|k: int| 0 <= k < hits(oam, line, n).len() && hits(oam, line, n)[k]
                    == i;
                if k < h.len() {
                    assert(h[k] < n - 1);
                }
            }
        }
    }
}

/// The sprite side of the mux at `x` comes from a unit that is active and
/// covers `x`, with its priority and sprite-0 mark.
proof fn lemma_sprite_from_unit(units: Seq<Unit>, x: int, k: int)
    requires
        0 <= k,
        crate::fast::spr_pixel_from(units, x, k) is Some,
    ensures
        ({
            let (c, behind, z) = crate::fast::spr_pixel_from(units, x, k)->0;
            exists|j: int|
                k <= j < units.len() && #[trigger] units[j].active && units[j].x <= x < units[j].x
                    + 8 && units[j].behind == behind && units[j].is_zero == z
        }),
    decreases units.len() - k,
{
    if k < units.len() && !crate::fast::unit_shows(units[k], x) {
        lemma_sprite_from_unit(units, x, k + 1);
    }
}

/// Sprite 0's hit is sprite 0's: a step that records it does so where an
/// active unit carrying OAM sprite 0 covers the pixel.
pub proof fn law_hit_is_sprite_zero<B: VramBus>(s: FastView<B>)
    requires
        s.spr0_hit is None,
        s.pos != frame_start(),
        step_spec(s).0.spr0_hit is Some,
    ensures
        exists|j: int|
            0 <= j < s.units.len() && #[trigger] s.units[j].is_zero && s.units[j].active
                && s.units[j].x <= s.pos.dot - 1 < s.units[j].x + 8,
{
    reveal(step_spec);
    assert(start_spec(s).units == s.units);
    lemma_sprite_from_unit(s.units, s.pos.dot - 1, 0);
}

/// The priority mux with both layers shown, at a visible dot where unit 0
/// draws an opaque pixel: a sprite in front shows over anything; a sprite
/// behind the background shows only where the background pixel is
/// transparent, and elsewhere the background pixel shows.
pub proof fn law_sprite_priority<B: VramBus>(s: FastView<B>)
    requires
        s.pos.line < ACTIVE_ROWS,
        1 <= s.pos.dot <= 256,
        s.active[table_index(s.pos)],
        s.mask & 0x18 == 0x18,
        s.units.len() == 8,
        s.line_buf.len() == DOTS_PER_LINE,
        s.units[0].active,
        s.units[0].palette < 4,
        s.units[0].x as int <= s.pos.dot - 1 < s.units[0].x as int + 8,
        ({
            let u = s.units[0];
            let c = (s.pos.dot - 1 - u.x) as u8;
            let b = if u.hflip {
                c
            } else {
                (7 - c) as u8
            };
            2 * bit8(u.hi, b) + bit8(u.lo, b) != 0
        }),
    ensures
        ({
            let u = s.units[0];
            let bg = bg_pixel_spec(s.bg, s.fine_x);
            let out = step_spec(s).0.line_buf[s.pos.dot as int];
            &&& (!u.behind || bg % 4 == 0) ==> out >= 16 && out == 16 + 4 * u.palette + out % 4
            &&& (u.behind && bg % 4 != 0) ==> out == bg
        }),
{
    reveal(step_spec);
    let u = s.units[0];
    let c = (s.pos.dot - 1 - u.x) as u8;
    let b = if u.hflip {
        c
    } else {
        (7 - c) as u8
    };
    let (hi, lo, pal) = (u.hi, u.lo, u.palette);
    assert(((((hi >> b) & 1) << 1u8) | ((lo >> b) & 1)) == 2 * ((hi >> b) & 1) + ((lo >> b) & 1)
        && 2 * ((hi >> b) & 1) + ((lo >> b) & 1) < 4) by (bit_vector);
    let p = ((((hi >> b) & 1) << 1u8) | ((lo >> b) & 1)) as u8;
    assert((pal < 4 && p < 4) ==> (0x10u8 | (pal << 2u8) | p) == 16 + 4 * pal + p) by (bit_vector);
    let m = s.mask;
    assert(m & 0x18 == 0x18 ==> m & 0x08 != 0 && m & 0x10 != 0) by (bit_vector);
    let g = bg_pixel_spec(s.bg, s.fine_x);
    assert(g & 3 == g % 4) by (bit_vector);
    assert(start_spec(s) == s);
    assert(crate::fast::unit_pattern(u, s.pos.dot - 1) == p);
    assert(crate::fast::unit_shows(u, s.pos.dot - 1));
}

/// Palette RAM addressing: an address not a multiple of four reaches its
/// own entry (`a % 32`), and a multiple of four reaches entry `a % 16`,
/// so $3F10/14/18/1C share $3F00/04/08/0C's.
pub proof fn law_palette_addressing(a: u16)
    ensures
        a % 4 != 0 ==> palette_slot(a) == a % 32,
        a % 4 == 0 ==> palette_slot(a) == a % 16,
{
}

/// $2002's byte: the vblank flag in bit 7, sprite 0's hit in bit 6, the
/// overflow in bit 5, the rest clear.
pub proof fn law_status_bits(vbl: bool, hit: bool, overflow: bool)
    ensures
        status_byte(vbl, hit, overflow) == 128 * (if vbl { 1int } else { 0 }) + 64 * (if hit {
            1int
        } else {
            0
        }) + 32 * (if overflow { 1int } else { 0 }),
{
}

/// A $2007 access outside palette RAM goes through the read buffer: the
/// read answers the byte the previous read fetched and fetches the byte
/// at v; a write reaches the bus at v; either steps v by 32 when $2000
/// bit 2 is set and by 1 otherwise, within fifteen bits. Inside palette
/// RAM a write stores the byte's low six bits in the entry v reaches, and
/// a read answers that entry at once.
pub proof fn law_vram_access<B: VramBus>(s: FastView<B>, val: u8)
    ensures
        ({
            let a = (s.v % 0x4000) as u16;
            let step: int = if (s.ctrl / 4) % 2 == 1 {
                32
            } else {
                1
            };
            &&& read_spec(s, 7).1.v == (s.v + step) % 0x8000
            &&& write_spec(s, 7, val).v == (s.v + step) % 0x8000
            &&& a < 0x3f00 ==> read_spec(s, 7).0 == s.read_buffer && read_spec(s, 7).1.read_buffer
                == s.bus.peek(a)
            &&& a < 0x3f00 ==> write_spec(s, 7, val).bus == s.bus.written(a, val)
                && write_spec(s, 7, val).vram_writes == s.vram_writes.push((a, val))
            &&& a >= 0x3f00 ==> write_spec(s, 7, val).palette == s.palette.update(
                palette_slot(a),
                (val % 64) as u8,
            )
            &&& a >= 0x3f00 ==> read_spec(s, 7).0 == s.palette[palette_slot(a)]
        }),
{
    let (v, c) = (s.v, s.ctrl);
    assert(v & 0x3fff == v % 0x4000 && (c & 4 != 0) == ((c / 4) % 2 == 1) && val & 0x3f == val % 64)
        by (bit_vector);
}

} // verus!
