//! The $2002 read race, as the chip shows it with the console's access
//! shape (address, R/W and /CS together, the byte sampled eleven
//! half-steps later): a read whose access starts eight or more PPU
//! half-steps before the set's dot misses the flag, and the flag sets
//! after it; one starting inside the dot before the set returns 0 and the
//! flag never sets; one starting on the set's dot or later sees the flag
//! and consumes it.

use vstd::prelude::*;

verus! {

/// Reads starting later than this many half-steps before the set consume
/// the flag (return 1, and the set never raises it).
pub const CONSUME_FROM: i32 = -1;
/// Reads starting later than this, and not consuming, suppress the set;
/// earlier reads miss it.
pub const SUPPRESS_FROM: i32 = -8;

/// What a timed $2002 read does to the coming vblank set.
#[derive(Clone, Copy, PartialEq, Eq, Debug, Structural)]
pub enum RaceOutcome {
    /// The read sees the flag as it is; the set goes ahead later.
    Miss,
    /// The read returns the flag clear and the set never happens.
    Suppress,
    /// The read returns the flag set and the set never happens.
    Consume,
}

/// Half-steps from the start of the set's dot to the start of the read's
/// access: the read starts `into` half-steps into the dot last stepped,
/// and the set's dot is `dots` dots after the next one to step.
pub open spec fn race_offset(dots: int, into: int) -> int {
    into - 8 * (dots + 1)
}

/// The race's outcome for a read `into` half-steps into the dot last
/// stepped, the set's dot `dots` dots after the next one (`None`: not
/// within the next few dots).
pub open spec fn race_outcome_spec(dots: Option<int>, into: u8) -> RaceOutcome {
    match dots {
        None => RaceOutcome::Miss,
        Some(d) => if race_offset(d, into as int) > CONSUME_FROM as int {
            RaceOutcome::Consume
        } else if race_offset(d, into as int) > SUPPRESS_FROM as int {
            RaceOutcome::Suppress
        } else {
            RaceOutcome::Miss
        },
    }
}

/// Decide the race for a read `half_steps_into_dot` half-steps into the
/// dot last stepped, the set's dot `dots_ahead` dots after the next.
pub fn race_outcome(dots_ahead: Option<i32>, half_steps_into_dot: u8) -> (r: RaceOutcome)
    requires
        dots_ahead matches Some(d) ==> -0x0fff_0000 < d < 0x0fff_0000,
    ensures
        r == race_outcome_spec(
            match dots_ahead {
                Some(d) => Some(d as int),
                None => None,
            },
            half_steps_into_dot,
        ),
{
    match dots_ahead {
        None => RaceOutcome::Miss,
        Some(dots) => {
            let offset = half_steps_into_dot as i32 - 8 * (dots + 1);
            if offset > CONSUME_FROM {
                RaceOutcome::Consume
            } else if offset > SUPPRESS_FROM {
                RaceOutcome::Suppress
            } else {
                RaceOutcome::Miss
            }
        },
    }
}

} // verus!
