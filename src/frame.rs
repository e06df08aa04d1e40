//! Turns the wall clock into whole simulation steps of fixed length.
use vstd::prelude::*;
use crate::geometry::{clamp_i64, sat_add};

verus! {

/// One simulation step, in microseconds: a sixtieth of a second.
pub const FRAME_STEP: i64 = 16_667;

/// The time left over after whole steps: at most one step.
pub struct FrameClock {
    pub last_frame: i64,
    pub accumulated_delta: i64,
}

/// The time to share out when a frame comes at `now`: what was left over,
/// plus the time since the last frame (none if the clock went back).
pub open spec fn pending(clock: FrameClock, now: int) -> int {
    let elapsed = if now > clock.last_frame { now - clock.last_frame } else { 0 };
    clamp_i64(clock.accumulated_delta + clamp_i64(elapsed))
}

impl FrameClock {
    pub open spec fn wf(&self) -> bool {
        0 <= self.accumulated_delta <= FRAME_STEP
    }

    pub fn new() -> (r: FrameClock)
        ensures
            r.wf(),
            r.last_frame == 0 && r.accumulated_delta == 0,
    {
        FrameClock { last_frame: 0, accumulated_delta: 0 }
    }

    /// Starts counting from `now`, with nothing left over.
    pub fn restart(&mut self, now: i64)
        ensures
            final(self).wf(),
            final(self).last_frame == now && final(self).accumulated_delta == 0,
    {
        self.last_frame = now;
        self.accumulated_delta = 0;
    }

    /// How many whole steps are due at `now`; the rest, at most one step,
    /// is carried to the next frame.
    pub fn advance(&mut self, now: i64) -> (steps: i64)
        requires
            old(self).wf(),
        ensures
            final(self).wf(),
            final(self).last_frame == now,
            steps * FRAME_STEP + final(self).accumulated_delta == pending(*old(self), now as int),
            steps >= 0,
            (steps == 0) == (pending(*old(self), now as int) <= FRAME_STEP),
    {
        let elapsed = if now > self.last_frame {
            let d = (now as i128) - (self.last_frame as i128);
            if d > i64::MAX as i128 {
                i64::MAX
            } else {
                d as i64
            }
        } else {
            0
        };
        let total = sat_add(self.accumulated_delta, elapsed);
        let mut steps: i64 = 0;
        let mut rest = total;
        if total > FRAME_STEP {
            steps = (total - 1) / FRAME_STEP;
            rest = total - steps * FRAME_STEP;
        }
        self.last_frame = now;
        self.accumulated_delta = rest;
        steps
    }
}

} // verus!
