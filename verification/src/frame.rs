//! The frame orchestrator: once per audio frame it takes in the host's
//! events and controls, advances the trigger sources and the resample gate,
//! and decides which grains the granulation engine is to start.
//!
//! A frame is run in two steps, because the engine has its say in between.
//! [`Orchestrator::begin_frame`] handles everything up to the moment the
//! input sample is handed to the engine's capture;
//! [`Orchestrator::finish_frame`] takes the engine's report and handles the
//! rest.

use vstd::prelude::*;
use crate::chance::uniform;
use crate::fixed::ONE;
use crate::gate::{
    after_capture,
    after_request,
    after_settle,
    rearms,
    Capture,
    GateState,
    ResampleGate,
};
use crate::multitable::{played, sounded};
use crate::pitch::{drained, DrainPolicy, MidiEvent, PitchTracker, NOTES};
use crate::random::Ramp;
use crate::router::{compute_rate, rate_of, scale, scaled, ModShape, Router, Wavetables};
use crate::trigger::{advanced, crosses, selected, unplayed, Pair, Triggers};

verus! {

/// The host's control values for one frame. Real-valued controls are in
/// millionths.
#[derive(Clone, Copy, Debug)]
pub struct Controls {
    /// Where in the captured audio a grain starts.
    pub position: i32,
    /// The length of a grain in seconds.
    pub duration: i32,
    /// How much of the jitter a grain gets at most.
    pub jitter: i32,
    /// The trigger interval in seconds.
    pub interval: i32,
    /// How far from the centre a grain may be panned.
    pub spread: i32,
    /// The base playback rate.
    pub rate: i32,
    /// How strongly the modulation acts on the rate.
    pub mod_amount: i32,
    /// The modulation frequency in hertz.
    pub mod_frequency: i64,
    /// The waveform of the modulation.
    pub mod_shape: ModShape,
    /// Listen to the stochastic trigger source instead of the periodic one.
    pub random: bool,
    /// Capture new audio.
    pub resample: bool,
}

/// One command to the granulation engine: start a grain.
#[derive(Clone, Copy, Debug, PartialEq, Eq, Structural)]
pub struct Grain {
    pub position: i32,
    pub duration: i32,
    pub pan: i64,
    pub rate: i64,
    pub jitter: i64,
}

/// The two random numbers of an onset, in millionths: `pan` between minus
/// one and one, `jitter` between zero and one.
#[derive(Clone, Copy, Debug, PartialEq, Eq, Structural)]
pub struct Draws {
    pub pan: i32,
    pub jitter: i32,
}

/// How a frame ended.
#[derive(Clone, Copy, Debug)]
pub struct FrameEnd {
    /// True when the engine is to produce the output of this frame.
    pub render: bool,
    /// The random numbers that went into the grains of this frame, if the
    /// frame was an onset.
    pub draws: Option<Draws>,
}

/// What an [`Orchestrator`] holds, as plain values.
pub struct State<const N: usize> {
    /// The held notes, oldest first.
    pub held: Seq<u8>,
    /// The playback rate of every note.
    pub rates: Seq<i32>,
    /// How a batch of events is drained.
    pub policy: DrainPolicy,
    /// The state of the resample gate.
    pub gate: GateState,
    /// True once synthesis has been released.
    pub active: bool,
    /// The two trigger sources.
    pub triggers: Pair,
    /// The read position of the modulation oscillator.
    pub position: int,
    /// The sample rate of the modulation oscillator in hertz.
    pub samplerate: int,
    /// The waveforms of the modulation.
    pub tables: Wavetables<N>,
    /// True between the two steps of a frame on which the selected trigger
    /// source is at its ceiling.
    pub onset: bool,
}

/// The state after the first step of a frame. The batch is drained into the
/// held notes; the resample control is read; synthesis is released if no
/// recording is under way; and if synthesis is released, both trigger
/// sources advance and the signal of the selected one decides whether the
/// frame is an onset.
pub open spec fn begun<const N: usize>(
    s: State<N>,
    batch: Seq<MidiEvent>,
    c: Controls,
    target: int,
) -> State<N> {
    let gate = after_request(s.gate, c.resample);
    let active = after_settle(gate, s.active);
    State {
        held: drained(s.held, batch, s.policy),
        gate,
        active,
        triggers: if active {
            advanced(s.triggers, c.interval as int, target)
        } else {
            s.triggers
        },
        onset: active && crosses(selected(s.triggers, c.interval as int, target, c.random)),
        ..s
    }
}

/// True when the second step of a frame runs the modulation: the capture is
/// complete and synthesis is released.
pub open spec fn modulates<const N: usize>(s: State<N>, capture: Capture) -> bool {
    capture == Capture::Complete && s.active
}

/// True when the second step of a frame starts grains: the modulation runs
/// and the frame is an onset.
pub open spec fn dispatches<const N: usize>(s: State<N>, capture: Capture) -> bool {
    modulates(s, capture) && s.onset
}

/// The state after the second step of a frame. The engine's report moves
/// the resample gate; the modulation oscillator advances if the modulation
/// runs; the onset is used up.
pub open spec fn finished<const N: usize>(s: State<N>, capture: Capture, c: Controls) -> State<N> {
    State {
        gate: after_capture(s.gate, capture),
        position: if modulates(s, capture) {
            played(s.position, N as int, c.mod_frequency as int, s.samplerate, 0)
        } else {
            s.position
        },
        onset: false,
        ..s
    }
}

/// The modulation value of a frame.
pub open spec fn mod_value<const N: usize>(s: State<N>, c: Controls) -> int {
    sounded(s.tables.of(c.mod_shape), s.position, c.mod_frequency as int, s.samplerate, 0)
}

/// The grain that an onset starts for a note whose rate is `note_rate`.
pub open spec fn grain_for(c: Controls, note_rate: int, value: int, draws: Draws) -> Grain {
    Grain {
        position: c.position,
        duration: c.duration,
        pan: scaled(c.spread as int, draws.pan as int) as i64,
        rate: rate_of(c.rate as int, note_rate, c.mod_amount as int, value) as i64,
        jitter: scaled(c.jitter as int, draws.jitter as int) as i64,
    }
}

/// The grains that an onset starts: one for every held note, oldest first,
/// all with the same pan and jitter.
pub open spec fn grains_for(
    held: Seq<u8>,
    rates: Seq<i32>,
    c: Controls,
    value: int,
    draws: Draws,
) -> Seq<Grain> {
    Seq::new(held.len(), |i: int| grain_for(c, rates[held[i] as int] as int, value, draws))
}

/// Which trigger source is listened to decides whether a frame is an onset,
/// and nothing else: with the switch the other way, the first step of a
/// frame leaves the held notes, the resample gate and both trigger sources
/// exactly as they are left with the switch this way.
pub proof fn lemma_switch_decides_the_onset_only<const N: usize>(
    s: State<N>,
    batch: Seq<MidiEvent>,
    c: Controls,
    target: int,
)
    ensures
        ({
            let heard = begun(s, batch, c, target);
            let other = begun(s, batch, Controls { random: !c.random, ..c }, target);
            other == (State { onset: other.onset, ..heard })
        }),
{
}

/// While the capture is filling, the second step of a frame starts no grain
/// and leaves the modulation where it is, whatever the first step found.
pub proof fn lemma_filling_holds_everything_back<const N: usize>(s: State<N>, c: Controls)
    ensures
        !dispatches(s, Capture::Filling),
        !modulates(s, Capture::Filling),
        finished(s, Capture::Filling, c) == (State { onset: false, ..s }),
{
}

/// The per-frame driver of the control layer, with everything it owns.
pub struct Orchestrator<const N: usize> {
    tracker: PitchTracker,
    gate: ResampleGate,
    triggers: Triggers,
    router: Router<N>,
    policy: DrainPolicy,
    onset: bool,
}

impl<const N: usize> View for Orchestrator<N> {
    type V = State<N>;

    closed spec fn view(&self) -> State<N> {
        State {
            held: self.tracker.held(),
            rates: self.tracker.rates(),
            policy: self.policy,
            gate: self.gate.state(),
            active: self.gate.active(),
            triggers: self.triggers@,
            position: self.router.position(),
            samplerate: self.router.rate(),
            tables: self.router.tables(),
            onset: self.onset,
        }
    }
}

impl<const N: usize> Orchestrator<N> {
    /// An orchestrator that holds no note and has seen no frame, with all
    /// rates zero and no sample rate yet. It starts out recording if
    /// `record_on_start` is set and playing if not.
    pub fn new(tables: Wavetables<N>, record_on_start: bool, policy: DrainPolicy) -> (fresh: Self)
        ensures
            fresh@.held == Seq::<u8>::empty(),
            fresh@.rates == Seq::new(NOTES as nat, |i: int| 0i32),
            fresh@.policy == policy,
            fresh@.gate == if record_on_start {
                GateState::Recording
            } else {
                GateState::Playing
            },
            !fresh@.active,
            fresh@.triggers == unplayed(0),
            fresh@.position == 0,
            fresh@.samplerate == 0,
            fresh@.tables == tables,
            !fresh@.onset,
    {
        let rates: [i32; 128] = [0; 128];
        assert(rates@ =~= Seq::new(NOTES as nat, |i: int| 0i32));
        Orchestrator {
            tracker: PitchTracker::new(rates),
            gate: ResampleGate::new(record_on_start),
            triggers: Triggers::new(0),
            router: Router::new(tables),
            policy,
            onset: false,
        }
    }

    /// Takes in the host's sample rate and the rate table. Notes, gate,
    /// counters and positions stay as they are.
    pub fn initialize(&mut self, samplerate: u32, rates: [i32; 128])
        ensures
            final(self)@ == (State {
                rates: rates@,
                samplerate: samplerate as int,
                triggers: Pair {
                    samplerate: samplerate as int,
                    ramp: Ramp {
                        samplerate: samplerate as int,
                        ..old(self)@.triggers.ramp
                    },
                    ..old(self)@.triggers
                },
                ..old(self)@
            }),
    {
        self.triggers.set_samplerate(samplerate);
        self.router.set_samplerate(samplerate);
        self.tracker.set_rates(rates);
    }

    /// The pitch tracker.
    pub fn tracker(&self) -> (tracker: &PitchTracker)
        ensures
            tracker.held() == self@.held,
            tracker.rates() == self@.rates,
    {
        &self.tracker
    }

    /// The resample gate.
    pub fn gate(&self) -> (gate: &ResampleGate)
        ensures
            gate.state() == self@.gate,
            gate.active() == self@.active,
    {
        &self.gate
    }

    /// The trigger sources.
    pub fn triggers(&self) -> (triggers: &Triggers)
        ensures
            triggers@ == self@.triggers,
    {
        &self.triggers
    }

    /// The modulation router.
    pub fn router(&self) -> (router: &Router<N>)
        ensures
            router.position() == self@.position,
            router.rate() == self@.samplerate,
            router.tables() == self@.tables,
    {
        &self.router
    }

    /// The first step of a frame. It drains `batch`, the events that the
    /// host stamped with this frame, into the held notes; reads the
    /// resample control; releases synthesis if no recording is under way;
    /// and, if synthesis is released, advances both trigger sources and
    /// notes whether the selected one is at its ceiling.
    ///
    /// The result tells the caller to arm the engine's capture again before
    /// handing it this frame's input sample.
    pub fn begin_frame(&mut self, batch: &Vec<MidiEvent>, controls: &Controls) -> (rearm: bool)
        requires
            forall|i: int| 0 <= i < batch@.len() ==> (#[trigger] batch@[i]).in_range(),
        ensures
            final(self)@.active ==> -ONE <= final(self)@.triggers.ramp.target <= ONE,
            final(self)@ == begun(old(self)@, batch@, *controls, final(self)@.triggers.ramp.target),
            rearm == rearms(old(self)@.gate, controls.resample),
    {
        self.tracker.drain(batch, self.policy);
        let rearm: bool = self.gate.request(controls.resample);
        self.gate.settle();
        if self.gate.is_active() {
            let signal: i32 = self.triggers.play(controls.interval, controls.random);
            self.onset = signal >= ONE;
        } else {
            self.onset = false;
        }
        rearm
    }

    /// Works out the grains of an onset: one for every held note, oldest
    /// first, put into `grains`, which is emptied first. The rate of each
    /// grain follows from its note and from `value`, the modulation value
    /// of the frame; pan and jitter are scaled by `draws` and are the same
    /// for all of them. With no note held there is no grain.
    ///
    /// This only computes. Whether the grains of a frame start at all is
    /// decided by [`Orchestrator::finish_frame`].
    pub fn fan_out(&self, controls: &Controls, value: i32, draws: Draws, grains: &mut Vec<Grain>)
        ensures
            final(grains)@ == grains_for(self@.held, self@.rates, *controls, value as int, draws),
            final(grains)@.len() == self@.held.len(),
    {
        let pan: i64 = scale(controls.spread, draws.pan);
        let jitter: i64 = scale(controls.jitter, draws.jitter);
        let notes: &Vec<u8> = self.tracker.active_notes();
        grains.clear();
        let mut i: usize = 0;
        while i < notes.len()
            invariant
                i <= notes@.len(),
                notes@ == self@.held,
                forall|k: int| 0 <= k < notes@.len() ==> notes@[k] < NOTES,
                pan == scaled(controls.spread as int, draws.pan as int),
                jitter == scaled(controls.jitter as int, draws.jitter as int),
                grains@.len() == i,
                forall|k: int|
                    0 <= k < i ==> grains@[k] == grain_for(
                        *controls,
                        self@.rates[notes@[k] as int] as int,
                        value as int,
                        draws,
                    ),
            decreases notes@.len() - i,
        {
            let note: u8 = notes[i];
            let rate: i64 = compute_rate(
                &self.tracker,
                controls.rate,
                note,
                controls.mod_amount,
                value,
            );
            grains.push(
                Grain {
                    position: controls.position,
                    duration: controls.duration,
                    pan,
                    rate,
                    jitter,
                },
            );
            i = i + 1;
        }
        assert(grains@ =~= grains_for(self@.held, self@.rates, *controls, value as int, draws));
    }

    /// The second step of a frame, given the engine's report on this
    /// frame's input sample. While the capture is filling nothing more
    /// happens: no grain starts and no output is asked for. Once it is
    /// complete the recording is over and output is asked for; if
    /// synthesis is released the modulation advances; and if the frame is
    /// an onset, pan and jitter are drawn once and one grain per held note
    /// is put into `grains`.
    pub fn finish_frame(
        &mut self,
        capture: Capture,
        controls: &Controls,
        grains: &mut Vec<Grain>,
    ) -> (end: FrameEnd)
        requires
            N > 0,
        ensures
            final(self)@ == finished(old(self)@, capture, *controls),
            end.render == (capture == Capture::Complete),
            (end.draws is Some) == dispatches(old(self)@, capture),
            match end.draws {
                Some(draws) => {
                    &&& -ONE <= draws.pan <= ONE
                    &&& 0 <= draws.jitter <= ONE
                    &&& final(grains)@ == grains_for(
                        old(self)@.held,
                        old(self)@.rates,
                        *controls,
                        mod_value(old(self)@, *controls),
                        draws,
                    )
                },
                None => final(grains)@ == Seq::<Grain>::empty(),
            },
            final(grains)@.len() == if dispatches(old(self)@, capture) {
                old(self)@.held.len()
            } else {
                0
            },
            capture == Capture::Filling ==> final(grains)@.len() == 0,
            final(grains)@.len() > 0 ==> final(self)@.gate == GateState::Playing,
    {
        let onset: bool = self.onset;
        self.onset = false;
        grains.clear();
        let proceed: bool = self.gate.observe(capture);
        if !proceed || !self.gate.is_active() {
            return FrameEnd { render: proceed, draws: None };
        }
        let value: i32 = self.router.modulate(controls.mod_shape, controls.mod_frequency);
        if !onset {
            return FrameEnd { render: true, draws: None };
        }
        let draws = Draws { pan: uniform(-ONE, ONE), jitter: uniform(0, ONE) };
        self.fan_out(controls, value, draws, grains);
        FrameEnd { render: true, draws: Some(draws) }
    }
}

} // verus!
