//! The two trigger sources side by side. Both advance on every frame; a
//! switch only chooses whose signal is listened to.

use vstd::prelude::*;
use crate::fixed::ONE;
use crate::periodic::{elapsed_after, pulse, Periodic};
use crate::random::{at_rest, step, Ramp, Random};

verus! {

/// What the two sources hold, as plain numbers.
pub struct Pair {
    /// Frames since the periodic source last fired.
    pub elapsed: int,
    /// The sample rate of the periodic source in hertz.
    pub samplerate: int,
    /// The ramp of the stochastic source.
    pub ramp: Ramp,
}

/// What one frame brings: the trigger interval, the target that the ramp
/// takes should its period end on this frame, and which source is listened
/// to.
pub struct Tick {
    pub interval: int,
    pub target: int,
    pub random: bool,
}

/// Two sources at `samplerate` hertz that have seen no frame.
pub open spec fn unplayed(samplerate: int) -> Pair {
    Pair { elapsed: 0, samplerate, ramp: at_rest(samplerate) }
}

/// Both sources after one frame. The switch has no part in it.
pub open spec fn advanced(p: Pair, interval: int, target: int) -> Pair {
    Pair {
        elapsed: elapsed_after(p.elapsed, interval, p.samplerate),
        samplerate: p.samplerate,
        ramp: step(p.ramp, interval, target),
    }
}

/// The signal of the source that the switch selects, for one frame.
pub open spec fn selected(p: Pair, interval: int, target: int, random: bool) -> int {
    if random {
        step(p.ramp, interval, target).value
    } else {
        pulse(p.elapsed, interval, p.samplerate)
    }
}

/// True when a signal is at its ceiling: the frame is an onset.
pub open spec fn crosses(signal: int) -> bool {
    signal >= ONE
}

/// Both sources after a run of frames.
pub open spec fn run(p: Pair, ticks: Seq<Tick>) -> Pair
    decreases ticks.len(),
{
    if ticks.len() == 0 {
        p
    } else {
        run(advanced(p, ticks[0].interval, ticks[0].target), ticks.drop_first())
    }
}

/// Toggling the switch, however often, leaves no trace in either source:
/// two runs of frames that differ only in which source was listened to end
/// with both sources in the same state. A source that goes unheard is
/// therefore never frozen, and picks up where it would have been.
pub proof fn lemma_switch_leaves_no_trace(p: Pair, heard: Seq<Tick>, other: Seq<Tick>)
    requires
        heard.len() == other.len(),
        forall|i: int|
            0 <= i < heard.len() ==> heard[i].interval == other[i].interval && heard[i].target
                == other[i].target,
    ensures
        run(p, heard) == run(p, other),
    decreases heard.len(),
{
    if heard.len() > 0 {
        lemma_switch_leaves_no_trace(
            advanced(p, heard[0].interval, heard[0].target),
            heard.drop_first(),
            other.drop_first(),
        );
    }
}

/// The periodic and the stochastic trigger source, advanced together.
pub struct Triggers {
    periodic: Periodic,
    stochastic: Random,
}

impl View for Triggers {
    type V = Pair;

    closed spec fn view(&self) -> Pair {
        Pair {
            elapsed: self.periodic.elapsed(),
            samplerate: self.periodic.rate(),
            ramp: self.stochastic@,
        }
    }
}

impl Triggers {
    /// Two sources at `samplerate` hertz that have seen no frame yet.
    pub fn new(samplerate: u32) -> (pair: Self)
        ensures
            pair@ == unplayed(samplerate as int),
    {
        Triggers { periodic: Periodic::new(samplerate), stochastic: Random::new(samplerate) }
    }

    /// Sets the sample rate of both sources.
    pub fn set_samplerate(&mut self, samplerate: u32)
        ensures
            final(self)@ == (Pair {
                samplerate: samplerate as int,
                ramp: Ramp { samplerate: samplerate as int, ..old(self)@.ramp },
                ..old(self)@
            }),
    {
        self.periodic.set_samplerate(samplerate);
        self.stochastic.set_samplerate(samplerate);
    }

    /// The periodic source.
    pub fn periodic(&self) -> (source: &Periodic)
        ensures
            source.elapsed() == self@.elapsed,
            source.rate() == self@.samplerate,
    {
        &self.periodic
    }

    /// The stochastic source.
    pub fn stochastic(&self) -> (source: &Random)
        ensures
            source@ == self@.ramp,
    {
        &self.stochastic
    }

    /// Advances both sources by one frame, with `target` as the target that
    /// the ramp takes should its period end, and returns the signal of the
    /// source that `random` selects: the ramp if it is set, the pulse if
    /// not.
    pub fn play_toward(&mut self, interval: i32, random: bool, target: i32) -> (signal: i32)
        requires
            -ONE <= target <= ONE,
        ensures
            final(self)@ == advanced(old(self)@, interval as int, target as int),
            signal == selected(old(self)@, interval as int, target as int, random),
    {
        let pulse: i32 = self.periodic.play(interval);
        let ramp: i32 = self.stochastic.play_toward(interval, target);
        if random {
            ramp
        } else {
            pulse
        }
    }

    /// Advances both sources by one frame and returns the signal of the
    /// source that `random` selects. The ramp draws its own target when its
    /// period ends.
    pub fn play(&mut self, interval: i32, random: bool) -> (signal: i32)
        ensures
            -ONE <= final(self)@.ramp.target <= ONE,
            final(self)@ == advanced(old(self)@, interval as int, final(self)@.ramp.target),
            signal == selected(old(self)@, interval as int, final(self)@.ramp.target, random),
    {
        let pulse: i32 = self.periodic.play(interval);
        let ramp: i32 = self.stochastic.play(interval);
        if random {
            ramp
        } else {
            pulse
        }
    }
}

} // verus!
