//! Where the dot stepper stands, and the order it walks a frame in: the
//! pre-render line 261 first, then lines 0 through 260.

use vstd::prelude::*;

use crate::{DOTS_PER_LINE, LINES};

verus! {

/// A dot of the frame: the line and the dot in it.
#[derive(Clone, Copy, PartialEq, Eq, Debug, Structural)]
pub struct Position {
    pub line: usize,
    pub dot: usize,
}

/// Dots in a frame.
pub open spec fn frame_dots() -> int {
    LINES as int * DOTS_PER_LINE as int
}

/// `p` is a dot of the frame.
pub open spec fn valid_position(p: Position) -> bool {
    p.line < LINES && p.dot < DOTS_PER_LINE
}

/// The first dot a frame steps: (261, 0).
pub open spec fn frame_start() -> Position {
    Position { line: (LINES - 1) as usize, dot: 0 }
}

/// The dot after `p`: the next dot of the line, or the first dot of the
/// next line, line 261 wrapping to 0.
pub open spec fn next_position(p: Position) -> Position {
    if p.dot + 1 < DOTS_PER_LINE {
        Position { line: p.line, dot: (p.dot + 1) as usize }
    } else {
        Position { line: ((p.line + 1) % (LINES as int)) as usize, dot: 0 }
    }
}

/// The index of `p` in line-major order, line 0 first.
pub open spec fn linear_index(p: Position) -> int {
    p.line as int * DOTS_PER_LINE as int + p.dot as int
}

/// The index of `p` in a frame's traversal order, (261, 0) being 0.
pub open spec fn traversal_index(p: Position) -> int {
    (linear_index(p) - linear_index(frame_start())) % frame_dots()
}

/// A valid position's line-major index lies inside the frame.
pub proof fn lemma_linear_bounds(p: Position)
    requires
        valid_position(p),
    ensures
        0 <= linear_index(p) < frame_dots(),
        linear_index(p) % frame_dots() == linear_index(p),
{
    assert(0 <= linear_index(p) < frame_dots()) by (nonlinear_arith)
        requires
            p.line < 262,
            p.dot < 341,
            linear_index(p) == p.line * 341 + p.dot,
            frame_dots() == 262 * 341,
    ;
    assert(linear_index(p) % frame_dots() == linear_index(p)) by (nonlinear_arith)
        requires
            0 <= linear_index(p) < frame_dots(),
    ;
}

/// Stepping moves one dot along the line-major cycle.
pub proof fn lemma_next_linear(p: Position)
    requires
        valid_position(p),
    ensures
        valid_position(next_position(p)),
        linear_index(next_position(p)) == (linear_index(p) + 1) % frame_dots(),
        traversal_index(next_position(p)) == (traversal_index(p) + 1) % frame_dots(),
{
    let n = next_position(p);
    if p.dot + 1 < DOTS_PER_LINE {
        assert(linear_index(n) == linear_index(p) + 1);
        assert(linear_index(p) + 1 < frame_dots()) by (nonlinear_arith)
            requires
                p.line < 262,
                p.dot + 1 < 341,
                linear_index(p) == p.line * 341 + p.dot,
                frame_dots() == 262 * 341,
        ;
    } else {
        if p.line + 1 < LINES {
            assert(linear_index(n) == (p.line + 1) * 341) by (nonlinear_arith)
                requires
                    n.line == p.line + 1,
                    n.dot == 0,
                    linear_index(n) == n.line * 341 + n.dot,
            ;
            assert(linear_index(p) + 1 == (p.line + 1) * 341) by (nonlinear_arith)
                requires
                    p.dot == 340,
                    linear_index(p) == p.line * 341 + p.dot,
            ;
            assert(linear_index(p) + 1 < frame_dots()) by (nonlinear_arith)
                requires
                    p.line + 1 < 262,
                    linear_index(p) + 1 == (p.line + 1) * 341,
                    frame_dots() == 262 * 341,
            ;
        } else {
            assert(linear_index(n) == 0);
            assert(linear_index(p) + 1 == frame_dots());
        }
    }
    let a = linear_index(p) - linear_index(frame_start());
    assert(((a + 1) % frame_dots()) == ((a % frame_dots()) + 1) % frame_dots()) by (nonlinear_arith)
        requires
            frame_dots() == 262 * 341,
    ;
    assert((linear_index(next_position(p)) - linear_index(frame_start())) % frame_dots() == (a + 1)
        % frame_dots()) by (nonlinear_arith)
        requires
            frame_dots() == 262 * 341,
            linear_index(next_position(p)) == (linear_index(p) + 1) % frame_dots(),
            a == linear_index(p) - linear_index(frame_start()),
    ;
}

/// The line-major index `k` dots after `p`.
pub open spec fn offset_index(p: Position, k: int) -> int {
    (linear_index(p) + k) % frame_dots()
}

/// How many dots ahead of `from` (the next dot to step) `to` lies, if
/// fewer than four.
pub open spec fn dots_ahead_spec(from: Position, to: Position) -> Option<int> {
    let d = (linear_index(to) - linear_index(from)) % frame_dots();
    if d < 4 {
        Some(d)
    } else {
        None
    }
}

/// The dot after `p`.
pub fn next(p: Position) -> (n: Position)
    requires
        valid_position(p),
    ensures
        n == next_position(p),
{
    if p.dot + 1 < DOTS_PER_LINE {
        Position { line: p.line, dot: p.dot + 1 }
    } else {
        Position { line: (p.line + 1) % LINES, dot: 0 }
    }
}

/// Distance in dots from `from` to `to` when `to` is within the next
/// few dots; `None` otherwise.
pub fn dots_ahead(from: Position, to: Position) -> (r: Option<i32>)
    requires
        valid_position(from),
        valid_position(to),
    ensures
        r matches Some(d) ==> dots_ahead_spec(from, to) == Some(d as int),
        r is None ==> dots_ahead_spec(from, to) is None,
{
    let mut p = from;
    let mut d: i32 = 0;
    proof {
        lemma_linear_bounds(from);
        lemma_linear_bounds(to);
    }
    while d < 4
        invariant
            0 <= d <= 4,
            valid_position(p),
            valid_position(to),
            0 <= linear_index(from) < frame_dots(),
            0 <= linear_index(to) < frame_dots(),
            linear_index(p) == (linear_index(from) + d) % frame_dots(),
            forall|k: int| 0 <= k < d ==> #[trigger] offset_index(from, k) != linear_index(to),
        decreases 4 - d,
    {
        if p == to {
            assert(linear_index(to) == (linear_index(from) + d) % frame_dots());
            assert((linear_index(to) - linear_index(from)) % frame_dots() == d) by (nonlinear_arith)
                requires
                    linear_index(to) == (linear_index(from) + d) % frame_dots(),
                    0 <= linear_index(from) < frame_dots(),
                    0 <= d < 4,
                    frame_dots() == 262 * 341,
            ;
            return Some(d);
        }
        proof {
            lemma_next_linear(p);
            assert(linear_index(next_position(p)) == (linear_index(from) + d + 1) % frame_dots())
                by (nonlinear_arith)
                requires
                    linear_index(next_position(p)) == (linear_index(p) + 1) % frame_dots(),
                    linear_index(p) == (linear_index(from) + d) % frame_dots(),
                    frame_dots() == 262 * 341,
            ;
            assert(linear_index(p) != linear_index(to)) by {
                if linear_index(p) == linear_index(to) {
                    assert(p.line * 341 + p.dot == to.line * 341 + to.dot);
                    assert(p.line == to.line && p.dot == to.dot) by (nonlinear_arith)
                        requires
                            p.line * 341 + p.dot == to.line * 341 + to.dot,
                            p.dot < 341,
                            to.dot < 341,
                    ;
                }
            }
        }
        p = next(p);
        d = d + 1;
        assert(offset_index(from, d - 1) != linear_index(to));
    }
    proof {
        let dd = (linear_index(to) - linear_index(from)) % frame_dots();
        if dd < 4 {
            assert((linear_index(from) + dd) % frame_dots() == linear_index(to)) by (nonlinear_arith)
                requires
                    dd == (linear_index(to) - linear_index(from)) % frame_dots(),
                    0 <= linear_index(from) < frame_dots(),
                    0 <= linear_index(to) < frame_dots(),
                    frame_dots() == 262 * 341,
            ;
            assert(offset_index(from, dd) == linear_index(to));
            assert(false);
        }
    }
    None
}

/// A valid position's traversal index lies inside the frame, and the
/// frame's start has index 0.
pub proof fn lemma_traversal_bounds(p: Position)
    requires
        valid_position(p),
    ensures
        0 <= traversal_index(p) < frame_dots(),
        traversal_index(frame_start()) == 0,
{
    lemma_linear_bounds(p);
    assert(0 <= traversal_index(p) < frame_dots()) by (nonlinear_arith)
        requires
            traversal_index(p) == (linear_index(p) - linear_index(frame_start())) % frame_dots(),
            frame_dots() == 262 * 341,
    ;
}

/// Distinct valid positions have distinct traversal indices.
pub proof fn lemma_traversal_injective(p: Position, q: Position)
    requires
        valid_position(p),
        valid_position(q),
        traversal_index(p) == traversal_index(q),
    ensures
        p == q,
{
    lemma_linear_bounds(p);
    lemma_linear_bounds(q);
    let s = linear_index(frame_start());
    assert(linear_index(p) == linear_index(q)) by (nonlinear_arith)
        requires
            (linear_index(p) - s) % frame_dots() == (linear_index(q) - s) % frame_dots(),
            0 <= linear_index(p) < frame_dots(),
            0 <= linear_index(q) < frame_dots(),
            0 <= s < frame_dots(),
            frame_dots() == 262 * 341,
    ;
    assert(p.line == q.line && p.dot == q.dot) by (nonlinear_arith)
        requires
            p.line * 341 + p.dot == q.line * 341 + q.dot,
            p.dot < 341,
            q.dot < 341,
    ;
}

/// Where `p` falls in a frame's traversal: the pre-render line's dots
/// first, then line 0's, and so on.
pub fn traversal_order(p: Position) -> (i: usize)
    requires
        valid_position(p),
    ensures
        i == traversal_index(p),
{
    proof {
        lemma_linear_bounds(p);
    }
    if p.line == LINES - 1 {
        assert(traversal_index(p) == p.dot) by (nonlinear_arith)
            requires
                p.line == 261,
                p.dot < 341,
                traversal_index(p) == (linear_index(p) - linear_index(frame_start())) % frame_dots(),
                linear_index(p) == p.line * 341 + p.dot,
                linear_index(frame_start()) == 261 * 341,
                frame_dots() == 262 * 341,
        ;
        p.dot
    } else {
        assert(traversal_index(p) == (p.line + 1) * 341 + p.dot) by (nonlinear_arith)
            requires
                p.line < 261,
                p.dot < 341,
                traversal_index(p) == (linear_index(p) - linear_index(frame_start())) % frame_dots(),
                linear_index(p) == p.line * 341 + p.dot,
                linear_index(frame_start()) == 261 * 341,
                frame_dots() == 262 * 341,
        ;
        (p.line + 1) * DOTS_PER_LINE + p.dot
    }
}

} // verus!
