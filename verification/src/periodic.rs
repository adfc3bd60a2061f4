//! The periodic trigger source: it fires once every interval.

use vstd::prelude::*;
use crate::fixed::ONE;

verus! {

/// True when `elapsed` frames at `samplerate` hertz amount to at least
/// `interval` (in millionths of a second). An interval of zero or less is
/// always reached.
pub open spec fn interval_reached(elapsed: int, interval: int, samplerate: int) -> bool {
    elapsed * ONE >= interval * samplerate
}

/// The frame count after one frame: back to zero on the frame that fires,
/// one more on any other.
pub open spec fn elapsed_after(elapsed: int, interval: int, samplerate: int) -> int {
    if interval_reached(elapsed, interval, samplerate) {
        0
    } else {
        elapsed + 1
    }
}

/// The signal of one frame: one on the frame that fires, zero on any other.
pub open spec fn pulse(elapsed: int, interval: int, samplerate: int) -> int {
    if interval_reached(elapsed, interval, samplerate) {
        ONE as int
    } else {
        0
    }
}

/// The number of frames that have to be counted before `interval` is
/// reached: the interval in frames, rounded up, and none for an interval of
/// zero or less.
pub open spec fn frames_to_wait(interval: int, samplerate: int) -> int {
    if interval * samplerate <= 0 {
        0
    } else {
        (interval * samplerate + ONE - 1) / (ONE as int)
    }
}

/// The frame count after `frames` frames at one interval.
pub open spec fn counted(elapsed: int, interval: int, samplerate: int, frames: nat) -> int
    decreases frames,
{
    if frames == 0 {
        elapsed
    } else {
        counted(
            elapsed_after(elapsed, interval, samplerate),
            interval,
            samplerate,
            (frames - 1) as nat,
        )
    }
}

/// The interval is reached exactly when the frames to wait have been
/// counted.
pub proof fn lemma_reached_after_wait(elapsed: int, interval: int, samplerate: int)
    requires
        elapsed >= 0,
    ensures
        interval_reached(elapsed, interval, samplerate) <==> elapsed >= frames_to_wait(
            interval,
            samplerate,
        ),
{
}

/// At a steady interval the count never runs past the frames to wait,
/// whether the source is listened to or not.
pub proof fn lemma_count_stays_within_interval(elapsed: int, interval: int, samplerate: int)
    requires
        0 <= elapsed <= frames_to_wait(interval, samplerate),
    ensures
        0 <= elapsed_after(elapsed, interval, samplerate) <= frames_to_wait(interval, samplerate),
{
    lemma_reached_after_wait(elapsed, interval, samplerate);
}

/// At a steady interval the source fires once per interval: while fewer
/// frames than the frames to wait have been counted, every frame is silent
/// and is counted; the frame after that fires and starts the count anew.
pub proof fn lemma_fires_once_per_interval(
    elapsed: int,
    interval: int,
    samplerate: int,
    frames: nat,
)
    requires
        0 <= elapsed,
        elapsed + frames <= frames_to_wait(interval, samplerate),
    ensures
        counted(elapsed, interval, samplerate, frames) == elapsed + frames,
        pulse(elapsed + frames, interval, samplerate) == if elapsed + frames == frames_to_wait(
            interval,
            samplerate,
        ) {
            ONE as int
        } else {
            0
        },
        counted(elapsed, interval, samplerate, frames + 1) == if elapsed + frames == frames_to_wait(
            interval,
            samplerate,
        ) {
            0
        } else {
            elapsed + frames + 1
        },
    decreases frames,
{
    lemma_reached_after_wait(elapsed + frames, interval, samplerate);
    lemma_reached_after_wait(elapsed, interval, samplerate);
    if frames == 0 {
        assert(counted(elapsed_after(elapsed, interval, samplerate), interval, samplerate, 0)
            == elapsed_after(elapsed, interval, samplerate));
    } else {
        lemma_fires_once_per_interval(elapsed + 1, interval, samplerate, (frames - 1) as nat);
    }
}

/// A trigger source that counts frames and fires when the interval has
/// passed.
pub struct Periodic {
    elapsed: u64,
    samplerate: u32,
}

impl Periodic {
    /// The number of frames since the source last fired.
    pub closed spec fn elapsed(self) -> int {
        self.elapsed as int
    }

    /// The sample rate in hertz.
    pub closed spec fn rate(self) -> int {
        self.samplerate as int
    }

    /// A source at `samplerate` hertz that has counted no frame yet.
    pub fn new(samplerate: u32) -> (source: Self)
        ensures
            source.elapsed() == 0,
            source.rate() == samplerate,
    {
        Periodic { elapsed: 0, samplerate }
    }

    /// Sets the sample rate and keeps the frame count.
    pub fn set_samplerate(&mut self, samplerate: u32)
        ensures
            final(self).rate() == samplerate,
            final(self).elapsed() == old(self).elapsed(),
    {
        self.samplerate = samplerate;
    }

    /// The number of frames since the source last fired.
    pub fn elapsed_samples(&self) -> (n: u64)
        ensures
            n == self.elapsed(),
    {
        self.elapsed
    }

    /// The sample rate in hertz.
    pub fn samplerate(&self) -> (hz: u32)
        ensures
            hz == self.rate(),
    {
        self.samplerate
    }

    /// The period that `interval` (millionths of a second) amounts to at
    /// the source's sample rate: the number of frames that have to be
    /// counted before the source fires.
    pub fn period_samples(&self, interval: i32) -> (frames: u64)
        ensures
            frames == frames_to_wait(interval as int, self.rate()),
    {
        if interval <= 0 || self.samplerate == 0 {
            assert(interval * self.samplerate <= 0) by (nonlinear_arith)
                requires
                    interval <= 0 || self.samplerate == 0,
                    self.samplerate >= 0,
            ;
            return 0;
        }
        assert(0 < interval * self.samplerate < 0x8000_0000_0000_0000) by (nonlinear_arith)
            requires
                0 < interval < 0x8000_0000,
                0 < self.samplerate < 0x1_0000_0000,
        ;
        let due: u64 = (interval as u64) * (self.samplerate as u64);
        (due + (ONE as u64 - 1)) / (ONE as u64)
    }

    /// Advances the source by one frame and returns its signal: one (as
    /// [`ONE`]) on the frame where the frames counted reach `interval`
    /// (millionths of a second), which also restarts the count, and zero on
    /// every other frame.
    pub fn play(&mut self, interval: i32) -> (signal: i32)
        ensures
            signal == pulse(old(self).elapsed(), interval as int, old(self).rate()),
            final(self).elapsed() == elapsed_after(
                old(self).elapsed(),
                interval as int,
                old(self).rate(),
            ),
            final(self).rate() == old(self).rate(),
    {
        let counted: i128 = (self.elapsed as i128) * (ONE as i128);
        assert(-0x8000_0000_0000_0000 < interval * self.samplerate < 0x8000_0000_0000_0000)
            by (nonlinear_arith)
            requires
                -0x8000_0000 <= interval < 0x8000_0000,
                0 <= self.samplerate < 0x1_0000_0000,
        ;
        let due: i128 = (interval as i128) * (self.samplerate as i128);
        if counted >= due {
            self.elapsed = 0;
            ONE
        } else {
            assert(counted == self.elapsed * 1_000_000);
            self.elapsed = self.elapsed + 1;
            0
        }
    }
}

} // verus!
