//! The fixed-timestep scheduler. Simulation advances in exact ticks of a
//! twenty-fifth of a second regardless of wall-clock jitter, and frames are
//! capped near sixty per second; the caller polls with a monotonic clock and
//! performs whatever the poll decides.

use vstd::prelude::*;

verus! {

/// One simulation tick, in microseconds (1/25 s).
pub const TICK_US: u64 = 40_000;

/// Minimum interval between frames, in microseconds (about 1/60 s).
pub const MIN_FRAME_US: u64 = 16_667;

/// Latest clock reading the scheduler accepts; far beyond any real uptime.
pub const CLOCK_LIMIT_US: u64 = 1_000_000_000_000_000_000;

/// What one poll decided: whether to run one simulation step, and whether to
/// render a frame, with which interpolation progress (thousandths of a tick;
/// may slightly exceed one tick under load, renderers clamp it).
#[derive(Clone, Copy, Debug, PartialEq, Eq, Structural)]
pub struct Poll {
    pub step: bool,
    pub render: bool,
    pub lerp_milli: u64,
}

/// The two monotonic clocks of the scheduler: when the last simulation tick
/// and the last frame were accounted for.
#[derive(Clone, Copy, Debug, PartialEq, Eq, Structural)]
pub struct Scheduler {
    pub last_update_us: u64,
    pub last_frame_us: u64,
}

/// Interpolation progress at `now`, in thousandths of a tick, capped at two
/// ticks.
pub open spec fn spec_lerp_milli(last_update_us: int, now_us: int) -> int {
    let since = now_us - last_update_us;
    if since >= 2 * TICK_US {
        2000
    } else {
        since * 1000 / (TICK_US as int)
    }
}

impl Scheduler {
    /// Both clocks start at the current time.
    pub fn new(now_us: u64) -> (r: Scheduler)
        ensures
            r.last_update_us == now_us,
            r.last_frame_us == now_us,
    {
        Scheduler { last_update_us: now_us, last_frame_us: now_us }
    }

    /// One scheduler poll at monotonic time `now_us`. A simulation step is
    /// due when a full tick has elapsed; the tick clock then advances by
    /// exactly one tick — not to the wall clock — so per-tick math never
    /// drifts. A frame is due when the minimum frame interval has elapsed,
    /// and carries the interpolation progress since the last accounted tick.
    pub fn poll(&mut self, now_us: u64) -> (r: Poll)
        requires
            old(self).last_update_us <= now_us,
            old(self).last_frame_us <= now_us,
            now_us <= CLOCK_LIMIT_US,
        ensures
            r.step == (now_us - old(self).last_update_us >= TICK_US),
            final(self).last_update_us == if r.step {
                old(self).last_update_us + TICK_US
            } else {
                old(self).last_update_us as int
            },
            r.render == (now_us - old(self).last_frame_us >= MIN_FRAME_US),
            final(self).last_frame_us == if r.render {
                old(self).last_frame_us + MIN_FRAME_US
            } else {
                old(self).last_frame_us as int
            },
            r.lerp_milli == spec_lerp_milli(final(self).last_update_us as int, now_us as int),
            final(self).last_update_us <= now_us,
            final(self).last_frame_us <= now_us,
    {
        let step = now_us - self.last_update_us >= TICK_US;
        if step {
            self.last_update_us = self.last_update_us + TICK_US;
        }
        let render = now_us - self.last_frame_us >= MIN_FRAME_US;
        if render {
            self.last_frame_us = self.last_frame_us + MIN_FRAME_US;
        }
        let since = now_us - self.last_update_us;
        let lerp_milli = if since >= 2 * TICK_US {
            2000
        } else {
            since * 1000 / TICK_US
        };
        Poll { step, render, lerp_milli }
    }
}

} // verus!
