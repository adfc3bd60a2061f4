//! The stochastic trigger source: a ramp that heads for a new random target
//! each time its period ends.

use vstd::prelude::*;
use crate::chance::uniform;
use crate::fixed::{lemma_toward_zero_bounds, toward_zero, ONE};

verus! {

/// What a [`Random`] source holds, as plain numbers.
pub struct Ramp {
    /// The current value of the ramp, in millionths.
    pub value: int,
    /// What every frame adds to the value.
    pub increment: int,
    /// The value that the ramp is heading for.
    pub target: int,
    /// Frames since the ramp last took a new target.
    pub counter: int,
    /// Length of the current period in frames.
    pub duration: int,
    /// The sample rate in hertz.
    pub samplerate: int,
}

/// The number of whole frames that `interval` (millionths of a second)
/// lasts at `samplerate` hertz; none for an interval of zero or less.
pub open spec fn duration_in_samples(interval: int, samplerate: int) -> int {
    if interval <= 0 {
        0
    } else {
        (interval * samplerate) / (ONE as int)
    }
}

/// True when the coming frame ends the current period.
pub open spec fn renews(r: Ramp) -> bool {
    r.counter + 1 >= r.duration
}

/// The number of frames over which a ramp of `duration` frames is spread:
/// the duration itself, and one frame for an empty period.
pub open spec fn span(duration: int) -> int {
    if duration < 1 {
        1
    } else {
        duration
    }
}

/// The per-frame increment that takes `value` to `target` over `duration`
/// frames, rounded toward zero so that the ramp never overshoots.
pub open spec fn increment_toward(value: int, target: int, duration: int) -> int {
    toward_zero(target - value, span(duration))
}

/// One frame of the ramp. On the frame that ends a period the ramp takes
/// `target` as its new target, measures the new period by `interval` as it
/// is on that frame, and sets the increment; on every frame the increment
/// is added to the value.
pub open spec fn step(r: Ramp, interval: int, target: int) -> Ramp {
    if renews(r) {
        let duration = duration_in_samples(interval, r.samplerate);
        let increment = increment_toward(r.value, target, duration);
        Ramp {
            value: r.value + increment,
            increment,
            target,
            counter: 0,
            duration,
            samplerate: r.samplerate,
        }
    } else {
        Ramp { value: r.value + r.increment, counter: r.counter + 1, ..r }
    }
}

/// The ramp of a source that has seen no frame: at rest at zero, so that
/// its first frame starts the first period.
pub open spec fn at_rest(samplerate: int) -> Ramp {
    Ramp { value: 0, increment: 0, target: 0, counter: 0, duration: 0, samplerate }
}

/// True when the ramp, followed to the end of its period, stays between
/// minus one and one.
pub open spec fn bounded(r: Ramp) -> bool {
    &&& -ONE <= r.value <= ONE
    &&& -ONE <= r.target <= ONE
    &&& -2 * ONE <= r.increment <= 2 * ONE
    &&& 0 <= r.counter < span(r.duration)
    &&& -ONE <= r.value + (span(r.duration) - r.counter - 1) * r.increment <= ONE
}

/// A bounded ramp stays bounded through every frame, whatever the interval
/// and whichever target inside the range it is given.
pub proof fn lemma_step_bounded(r: Ramp, interval: int, target: int)
    requires
        bounded(r),
        r.samplerate >= 0,
        -ONE <= target <= ONE,
    ensures
        bounded(step(r, interval, target)),
{
    if renews(r) {
        let duration = duration_in_samples(interval, r.samplerate);
        assert(duration >= 0) by (nonlinear_arith)
            requires
                duration == duration_in_samples(interval, r.samplerate),
                r.samplerate >= 0,
        ;
        let n = span(duration);
        let increment = increment_toward(r.value, target, duration);
        lemma_toward_zero_bounds(target - r.value, n);
        assert(r.value + increment + (n - 0 - 1) * increment == r.value + n * increment)
            by (nonlinear_arith);
    } else {
        let rest = span(r.duration) - r.counter - 1;
        let i = r.increment;
        assert(i >= 0 ==> 0 <= i <= rest * i) by (nonlinear_arith)
            requires
                rest >= 1,
        ;
        assert(i <= 0 ==> rest * i <= i <= 0) by (nonlinear_arith)
            requires
                rest >= 1,
        ;
        assert(r.value + i + (rest - 1) * i == r.value + rest * i) by (nonlinear_arith);
    }
}

/// The ramp after a run of frames, each given as its interval and the
/// target that the ramp takes should its period end on that frame.
pub open spec fn stepped(r: Ramp, frames: Seq<(int, int)>) -> Ramp
    decreases frames.len(),
{
    if frames.len() == 0 {
        r
    } else {
        stepped(step(r, frames[0].0, frames[0].1), frames.drop_first())
    }
}

/// Within a period the ramp is a straight line: as long as the period does
/// not end, every frame adds the same increment, whatever interval and
/// target the frames bring.
pub proof fn lemma_ramp_is_linear(r: Ramp, frames: Seq<(int, int)>)
    requires
        0 <= r.counter,
        r.counter + frames.len() < r.duration,
    ensures
        stepped(r, frames) == (Ramp {
            value: r.value + frames.len() * r.increment,
            counter: r.counter + frames.len(),
            ..r
        }),
    decreases frames.len(),
{
    if frames.len() > 0 {
        let next = step(r, frames[0].0, frames[0].1);
        let rest = frames.drop_first();
        lemma_ramp_is_linear(next, rest);
        assert(r.value + r.increment + rest.len() * r.increment == r.value + frames.len()
            * r.increment) by (nonlinear_arith)
            requires
                frames.len() == rest.len() + 1,
        ;
    }
}

/// A ramp arrives: followed over its whole period, the increment takes the
/// value to the target, short of it by less than one millionth per frame
/// and never beyond it.
pub proof fn lemma_ramp_arrives(value: int, target: int, duration: int)
    ensures
        ({
            let frames = span(duration);
            let end = value + frames * increment_toward(value, target, duration);
            &&& value <= target ==> target - frames < end <= target
            &&& target <= value ==> target <= end < target + frames
        }),
{
    let frames = span(duration);
    let gap = target - value;
    let whole: int = if gap >= 0 { gap } else { -gap };
    assert(whole == frames * (whole / frames) + whole % frames && 0 <= whole % frames < frames)
        by (nonlinear_arith)
        requires
            whole >= 0,
            frames > 0,
    ;
    assert(frames * -(whole / frames) == -(frames * (whole / frames))) by (nonlinear_arith);
}

/// A trigger source whose signal ramps linearly toward a random target and
/// takes a new target when the period ends.
pub struct Random {
    value: i32,
    increment: i32,
    target: i32,
    counter: u64,
    duration: u64,
    samplerate: u32,
}

impl View for Random {
    type V = Ramp;

    closed spec fn view(&self) -> Ramp {
        Ramp {
            value: self.value as int,
            increment: self.increment as int,
            target: self.target as int,
            counter: self.counter as int,
            duration: self.duration as int,
            samplerate: self.samplerate as int,
        }
    }
}

impl Random {
    #[verifier::type_invariant]
    spec fn stays_bounded(self) -> bool {
        bounded(self@)
    }

    /// A source at rest at zero, at `samplerate` hertz. Its first frame
    /// starts the first period.
    pub fn new(samplerate: u32) -> (source: Self)
        ensures
            source@ == at_rest(samplerate as int),
    {
        Random { value: 0, increment: 0, target: 0, counter: 0, duration: 0, samplerate }
    }

    /// Sets the sample rate. The period under way keeps its length; the
    /// next one is measured at the new rate.
    pub fn set_samplerate(&mut self, samplerate: u32)
        ensures
            final(self)@ == (Ramp { samplerate: samplerate as int, ..old(self)@ }),
    {
        proof {
            use_type_invariant(&*self);
        }
        self.samplerate = samplerate;
    }

    /// The current value of the ramp, in millionths.
    pub fn value(&self) -> (v: i32)
        ensures
            v == self@.value,
            -ONE <= v <= ONE,
    {
        proof {
            use_type_invariant(self);
        }
        self.value
    }

    /// The value that the ramp is heading for, in millionths.
    pub fn target(&self) -> (v: i32)
        ensures
            v == self@.target,
            -ONE <= v <= ONE,
    {
        proof {
            use_type_invariant(self);
        }
        self.target
    }

    /// What every frame of the current period adds to the value, in
    /// millionths.
    pub fn increment(&self) -> (v: i32)
        ensures
            v == self@.increment,
    {
        self.increment
    }

    /// The length of the current period in frames.
    pub fn duration_samples(&self) -> (n: u64)
        ensures
            n == self@.duration,
    {
        self.duration
    }

    /// Frames since the ramp last took a new target.
    pub fn counter(&self) -> (n: u64)
        ensures
            n == self@.counter,
    {
        self.counter
    }

    /// The sample rate in hertz.
    pub fn samplerate(&self) -> (hz: u32)
        ensures
            hz == self@.samplerate,
    {
        self.samplerate
    }

    /// True when the coming frame ends the current period, so that
    /// [`Random::play_toward`] will take a new target.
    pub fn renews(&self) -> (due: bool)
        ensures
            due == renews(self@),
    {
        proof {
            use_type_invariant(self);
        }
        self.counter + 1 >= self.duration
    }

    /// Advances the source by one frame, with `target` (between minus one
    /// and one, in millionths) as the new target should this frame end a
    /// period, and returns the value of the ramp.
    pub fn play_toward(&mut self, interval: i32, target: i32) -> (signal: i32)
        requires
            -ONE <= target <= ONE,
        ensures
            final(self)@ == step(old(self)@, interval as int, target as int),
            signal == final(self)@.value,
            -ONE <= signal <= ONE,
    {
        proof {
            use_type_invariant(&*self);
            lemma_step_bounded(self@, interval as int, target as int);
        }
        if self.counter + 1 >= self.duration {
            let duration: u64 = if interval <= 0 {
                0
            } else {
                assert(0 <= interval * self.samplerate < 0x8000_0000_0000_0000) by (nonlinear_arith)
                    requires
                        0 < interval < 0x8000_0000,
                        0 <= self.samplerate < 0x1_0000_0000,
                ;
                ((interval as u64) * (self.samplerate as u64)) / (ONE as u64)
            };
            let frames: i64 = if duration < 1 {
                1
            } else {
                duration as i64
            };
            let increment: i64 = (target as i64 - self.value as i64) / frames;
            proof {
                lemma_toward_zero_bounds(target - self.value, frames as int);
                assert(increment == increment_toward(self@.value, target as int, duration as int));
            }
            let value: i32 = (self.value as i64 + increment) as i32;
            *self = Random {
                value,
                increment: increment as i32,
                target,
                counter: 0,
                duration,
                samplerate: self.samplerate,
            };
            value
        } else {
            let value: i32 = self.value + self.increment;
            *self = Random {
                value,
                increment: self.increment,
                target: self.target,
                counter: self.counter + 1,
                duration: self.duration,
                samplerate: self.samplerate,
            };
            value
        }
    }

    /// Advances the source by one frame and returns the value of the ramp.
    /// On the frame that ends a period the new target is drawn at random,
    /// uniformly between minus one and one.
    pub fn play(&mut self, interval: i32) -> (signal: i32)
        ensures
            -ONE <= final(self)@.target <= ONE,
            final(self)@ == step(old(self)@, interval as int, final(self)@.target),
            signal == final(self)@.value,
            -ONE <= signal <= ONE,
    {
        proof {
            use_type_invariant(&*self);
        }
        let target: i32 = if self.renews() {
            uniform(-ONE, ONE)
        } else {
            self.target
        };
        self.play_toward(interval, target)
    }
}

} // verus!
