//! Fixed-timestep pacing: how many simulation steps a frame owes, and how
//! long to sleep after them. Times are whole nanoseconds.
use vstd::prelude::*;

verus! {

/// Length of one simulation step.
pub const TIME_STEP_NS: u64 = 80_000_000;

/// A clock jump forward beyond this is not caught up step by step.
pub const MAX_JUMP_NS: u64 = 500_000_000;

/// Time owed after a forward clock jump: five steps.
pub const JUMP_CATCH_UP_NS: u64 = 400_000_000;

/// Sleeps shorter than this are skipped.
pub const MIN_SLEEP_NS: u64 = 1_000_000;

/// What the driver does this frame.
#[derive(Clone, Copy, Debug, PartialEq, Eq, Structural)]
pub struct Tick {
    /// Simulation steps to run now.
    pub steps: u64,
    /// Time owed to the simulation after those steps.
    pub timer_ns: u64,
    /// Time to sleep before the next frame.
    pub sleep_ns: u64,
}

/// The time owed before any step runs, given what was owed and how far the
/// clock moved: `None` when it went backward, which forgives everything.
pub open spec fn owed(timer_ns: u64, elapsed_ns: Option<u64>) -> int {
    match elapsed_ns {
        None => 0,
        Some(e) => if e > MAX_JUMP_NS {
            JUMP_CATCH_UP_NS as int
        } else {
            timer_ns + e
        },
    }
}

/// Decides a frame: steps run while more than one step is owed, each paying
/// one step; then, unless the clock went backward, the driver sleeps for the
/// rest of a step when that is at least `MIN_SLEEP_NS`.
pub fn tick(timer_ns: u64, elapsed_ns: Option<u64>) -> (t: Tick)
    requires
        timer_ns <= TIME_STEP_NS,
    ensures
        t.steps * TIME_STEP_NS + t.timer_ns == owed(timer_ns, elapsed_ns),
        t.timer_ns <= TIME_STEP_NS,
        owed(timer_ns, elapsed_ns) > TIME_STEP_NS ==> t.timer_ns > 0,
        elapsed_ns is None ==> t.sleep_ns == 0,
        elapsed_ns is Some ==> t.sleep_ns == if TIME_STEP_NS - t.timer_ns >= MIN_SLEEP_NS {
            TIME_STEP_NS - t.timer_ns
        } else {
            0
        },
{
    let mut timer: u64 = match elapsed_ns {
        None => 0,
        Some(e) => if e > MAX_JUMP_NS {
            JUMP_CATCH_UP_NS
        } else {
            timer_ns + e
        },
    };
    let mut steps: u64 = 0;
    while timer > TIME_STEP_NS
        invariant
            steps * TIME_STEP_NS + timer == owed(timer_ns, elapsed_ns),
            owed(timer_ns, elapsed_ns) <= TIME_STEP_NS + MAX_JUMP_NS,
            owed(timer_ns, elapsed_ns) > TIME_STEP_NS ==> timer > 0,
        decreases timer,
    {
        timer = timer - TIME_STEP_NS;
        steps = steps + 1;
    }
    let sleep_ns: u64 = if elapsed_ns.is_none() {
        0
    } else if TIME_STEP_NS - timer >= MIN_SLEEP_NS {
        TIME_STEP_NS - timer
    } else {
        0
    };
    Tick { steps, timer_ns: timer, sleep_ns }
}

} // verus!
