//! The integer side of the frame-rate estimator: which calls contribute a
//! sample to the running average, and over which span of time.

use vstd::prelude::*;

verus! {

/// One contribution to the running average: `measurements` frames were
/// counted during `elapsed_nanos` nanoseconds.
#[derive(Clone, Copy, Debug, PartialEq, Eq, Structural)]
pub struct FpsSample {
    pub measurements: u32,
    pub elapsed_nanos: u128,
}

/// Time from `earlier` to `later`; zero where the clock ran backwards.
pub open spec fn elapsed_between(earlier: u128, later: u128) -> u128 {
    if later >= earlier {
        (later - earlier) as u128
    } else {
        0
    }
}

/// The call counter after one more call. It stops at its largest value, so
/// that it is zero before the first call only.
pub open spec fn counted(frames: u32) -> u32 {
    if frames < u32::MAX {
        (frames + 1) as u32
    } else {
        frames
    }
}

/// The sample that a call at time `now` contributes. The first call
/// contributes none: it has no earlier call to measure from.
pub open spec fn sample_at(frames: u32, last_frame: u128, fps_measurements: u32, now: u128) -> Option<
    FpsSample,
> {
    if frames != 0 {
        Some(
            FpsSample {
                measurements: fps_measurements,
                elapsed_nanos: elapsed_between(last_frame, now),
            },
        )
    } else {
        None
    }
}

/// The first call is the only one that contributes no sample: the counter
/// leaves zero with it and never comes back.
pub proof fn law_only_first_call_is_silent(
    frames: u32,
    last_frame: u128,
    fps_measurements: u32,
    now: u128,
)
    ensures
        sample_at(0, last_frame, fps_measurements, now) is None,
        counted(frames) != 0,
        sample_at(counted(frames), last_frame, fps_measurements, now) == Some(
            FpsSample {
                measurements: fps_measurements,
                elapsed_nanos: elapsed_between(last_frame, now),
            },
        ),
{
}

/// Remembers when the estimator was last advanced and how often. Times are
/// nanoseconds on a clock of the caller's choice.
#[derive(Clone, Copy, Debug)]
pub struct FpsCounter {
    last_frame: u128,
    frames: u32,
}

impl FpsCounter {
    /// Time of the last call of `tick`, or of construction before the first.
    pub closed spec fn last_frame(&self) -> u128 {
        self.last_frame
    }

    /// Number of calls of `tick` so far.
    pub closed spec fn frames(&self) -> u32 {
        self.frames
    }

    /// A counter made at time `now` that has seen no call yet.
    pub fn new(now: u128) -> (counter: FpsCounter)
        ensures
            counter.frames() == 0,
            counter.last_frame() == now,
    {
        FpsCounter { last_frame: now, frames: 0 }
    }

    /// Advances the estimator at time `now` and returns the sample to blend
    /// into the running average, if this call contributes one.
    pub fn tick(&mut self, fps_measurements: u32, now: u128) -> (sample: Option<FpsSample>)
        ensures
            sample == sample_at(old(self).frames(), old(self).last_frame(), fps_measurements, now),
            final(self).last_frame() == now,
            final(self).frames() == counted(old(self).frames()),
    {
        let elapsed_nanos: u128 = if now >= self.last_frame {
            now - self.last_frame
        } else {
            0
        };
        self.last_frame = now;
        let sample = if self.frames != 0 {
            Some(FpsSample { measurements: fps_measurements, elapsed_nanos })
        } else {
            None
        };
        if self.frames < u32::MAX {
            self.frames = self.frames + 1;
        }
        sample
    }

    /// Number of calls of `tick` so far.
    pub fn call_count(&self) -> (frames: u32)
        ensures
            frames == self.frames(),
    {
        self.frames
    }

    /// Time of the last call of `tick`, or of construction before the first.
    pub fn last_tick(&self) -> (last_frame: u128)
        ensures
            last_frame == self.last_frame(),
    {
        self.last_frame
    }
}

} // verus!
