//! The frame timer: how long the last frame took, how many frames have
//! passed, and how much time is owed to fixed-step updates.
//!
//! Time is counted in whole nanoseconds on a clock that the embedding
//! program reads; the timer itself never looks at one.

use vstd::prelude::*;

verus! {

/// The number of nanoseconds in a second.
pub const NANOS_PER_SECOND: u64 = 1_000_000_000;

/// The state of the frame timer.
#[derive(Debug, Clone, Copy, PartialEq, Eq, Structural)]
pub struct TimeContext {
    /// The clock reading at the last tick.
    pub last: u64,
    /// The time between the last two ticks.
    pub delta: u64,
    /// The number of ticks so far.
    pub frames: u64,
    /// The time that fixed-step updates have not yet used up.
    pub residual: u64,
}

/// `a - b`, or zero where `b` is the larger.
pub open spec fn clamped_sub(a: u64, b: u64) -> u64 {
    if a >= b {
        (a - b) as u64
    } else {
        0
    }
}

/// `a + b`, or the largest `u64` where the sum does not fit.
pub open spec fn clamped_add(a: u64, b: u64) -> u64 {
    if a + b <= u64::MAX {
        (a + b) as u64
    } else {
        u64::MAX
    }
}

/// The length of one fixed step at `fps` updates a second: a whole number
/// of nanoseconds, at least one. There is no step at zero updates a second.
pub open spec fn spec_step_nanos(fps: u32) -> Option<u64> {
    if fps == 0 {
        None
    } else if NANOS_PER_SECOND / (fps as u64) == 0 {
        Some(1u64)
    } else {
        Some(NANOS_PER_SECOND / (fps as u64))
    }
}

/// The length of one fixed step at `fps` updates a second.
#[verifier::when_used_as_spec(spec_step_nanos)]
pub fn step_nanos(fps: u32) -> (step: Option<u64>)
    ensures
        step == spec_step_nanos(fps),
        step matches Some(s) ==> s >= 1,
{
    if fps == 0 {
        None
    } else {
        let step = NANOS_PER_SECOND / (fps as u64);
        if step == 0 {
            Some(1)
        } else {
            Some(step)
        }
    }
}

impl TimeContext {
    /// The timer after a tick at clock reading `now`: the delta is the time
    /// since the last tick (zero if the clock went backwards), one more
    /// frame is counted, and the delta is added to what fixed-step updates
    /// may use.
    pub open spec fn ticked(self, now: u64) -> TimeContext {
        TimeContext {
            last: now,
            delta: clamped_sub(now, self.last),
            frames: clamped_add(self.frames, 1),
            residual: clamped_add(self.residual, clamped_sub(now, self.last)),
        }
    }

    /// Whether a fixed-step update at `fps` updates a second is due.
    pub open spec fn update_due(self, fps: u32) -> bool {
        spec_step_nanos(fps) matches Some(step) && self.residual >= step
    }

    /// The timer after one fixed-step update at `fps` updates a second has
    /// been granted.
    pub open spec fn stepped(self, fps: u32) -> TimeContext {
        if self.update_due(fps) {
            TimeContext {
                residual: (self.residual - spec_step_nanos(fps).unwrap()) as u64,
                ..self
            }
        } else {
            self
        }
    }

    /// A timer that has never ticked, on a clock that starts at zero.
    pub fn new() -> (timer: TimeContext)
        ensures
            timer == (TimeContext { last: 0, delta: 0, frames: 0, residual: 0 }),
    {
        TimeContext { last: 0, delta: 0, frames: 0, residual: 0 }
    }

    /// A timer that has never ticked, created at clock reading `now`.
    pub fn starting_at(now: u64) -> (timer: TimeContext)
        ensures
            timer == (TimeContext { last: now, delta: 0, frames: 0, residual: 0 }),
    {
        TimeContext { last: now, delta: 0, frames: 0, residual: 0 }
    }

    /// Advances the timer by one frame that starts at clock reading `now`.
    pub fn tick(&mut self, now: u64)
        ensures
            *final(self) == old(self).ticked(now),
    {
        let delta = now.saturating_sub(self.last);
        self.last = now;
        self.delta = delta;
        self.frames = self.frames.saturating_add(1);
        self.residual = self.residual.saturating_add(delta);
    }

    /// The time between the last two ticks, in nanoseconds.
    pub fn get_delta(&self) -> (dt: u64)
        ensures
            dt == self.delta,
    {
        self.delta
    }

    /// The number of ticks so far.
    pub fn get_ticks(&self) -> (n: u64)
        ensures
            n == self.frames,
    {
        self.frames
    }

    /// Grants one fixed-step update at `fps` updates a second if enough time
    /// has piled up for it, and takes the step's length off the pile.
    /// Calling this until it says `false` runs as many updates as the
    /// elapsed time pays for; every granted update shrinks the pile, so such
    /// a loop ends.
    pub fn check_update_time(&mut self, fps: u32) -> (due: bool)
        ensures
            due == old(self).update_due(fps),
            *final(self) == old(self).stepped(fps),
            due ==> final(self).residual < old(self).residual,
    {
        match step_nanos(fps) {
            Some(step) => {
                if self.residual >= step {
                    self.residual = self.residual - step;
                    true
                } else {
                    false
                }
            },
            None => false,
        }
    }

    /// How many fixed-step updates at `fps` updates a second the piled-up
    /// time pays for.
    pub open spec fn updates_owed(self, fps: u32) -> nat {
        match spec_step_nanos(fps) {
            Some(step) => (self.residual / step) as nat,
            None => 0,
        }
    }
}

/// Granting a due update pays off exactly one of the updates owed, and no
/// update is due once none is owed.
pub proof fn lemma_step_pays_one(timer: TimeContext, fps: u32)
    ensures
        timer.update_due(fps) <==> timer.updates_owed(fps) > 0,
        timer.update_due(fps) ==> timer.stepped(fps).updates_owed(fps) + 1 == timer.updates_owed(
            fps,
        ),
{
    match spec_step_nanos(fps) {
        Some(step) => {
            assert(step >= 1);
            let r = timer.residual as int;
            let s = step as int;
            assert(r >= s <==> r / s > 0) by (nonlinear_arith)
                requires
                    s >= 1,
                    r >= 0,
            ;
            if r >= s {
                assert((r - s) / s + 1 == r / s) by (nonlinear_arith)
                    requires
                        s >= 1,
                        r >= s,
                ;
            }
        },
        None => {},
    }
}

} // verus!
