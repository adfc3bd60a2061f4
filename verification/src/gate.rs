//! The resample gate: whether incoming audio is being captured or grains may
//! be drawn from what was captured.

use vstd::prelude::*;

verus! {

/// The two states of a resample gate.
#[derive(Clone, Copy, Debug, PartialEq, Eq, Structural)]
pub enum GateState {
    /// Input is being captured; no grain may start.
    Recording,
    /// The capture is complete; grains may start.
    Playing,
}

/// What the granulation engine reports when it is handed an input sample.
#[derive(Clone, Copy, Debug, PartialEq, Eq, Structural)]
pub enum Capture {
    /// The capture buffer is still filling.
    Filling,
    /// The capture buffer is full.
    Complete,
}

/// The state after the host's resample control has been read: asserting it
/// while playing starts a recording, and nothing else changes the state.
pub open spec fn after_request(state: GateState, resample: bool) -> GateState {
    if resample {
        GateState::Recording
    } else {
        state
    }
}

/// True when reading the resample control starts a new recording, so that
/// the engine's capture has to be armed again.
pub open spec fn rearms(state: GateState, resample: bool) -> bool {
    resample && state == GateState::Playing
}

/// The state after the engine's report: a complete capture ends a recording,
/// and a capture that is still filling changes nothing.
pub open spec fn after_capture(state: GateState, capture: Capture) -> GateState {
    match capture {
        Capture::Complete => GateState::Playing,
        Capture::Filling => state,
    }
}

/// Whether synthesis is released after a look at the state: it is released
/// for good the first time the state is found to be playing.
pub open spec fn after_settle(state: GateState, active: bool) -> bool {
    active || state == GateState::Playing
}

/// The state of the capture, together with the flag that holds synthesis
/// back until a first capture is complete.
#[derive(Clone, Copy, Debug)]
pub struct ResampleGate {
    state: GateState,
    active: bool,
}

impl ResampleGate {
    /// Whether input is being captured or grains may start.
    pub closed spec fn state(self) -> GateState {
        self.state
    }

    /// True once synthesis has been released.
    pub closed spec fn active(self) -> bool {
        self.active
    }

    /// A gate that starts out recording if `record_on_start` is set and
    /// playing if not, with synthesis held back until it is first found
    /// playing.
    pub fn new(record_on_start: bool) -> (gate: Self)
        ensures
            gate.state() == if record_on_start {
                GateState::Recording
            } else {
                GateState::Playing
            },
            !gate.active(),
    {
        ResampleGate {
            state: if record_on_start {
                GateState::Recording
            } else {
                GateState::Playing
            },
            active: false,
        }
    }

    /// True while input is being captured.
    pub fn is_recording(&self) -> (recording: bool)
        ensures
            recording == (self.state() == GateState::Recording),
    {
        match self.state {
            GateState::Recording => true,
            GateState::Playing => false,
        }
    }

    /// True once synthesis has been released.
    pub fn is_active(&self) -> (active: bool)
        ensures
            active == self.active(),
    {
        self.active
    }

    /// Reads the host's resample control. Asserting it while playing starts
    /// a recording; the result then tells the caller to arm the engine's
    /// capture again.
    pub fn request(&mut self, resample: bool) -> (rearm: bool)
        ensures
            final(self).state() == after_request(old(self).state(), resample),
            final(self).active() == old(self).active(),
            rearm == rearms(old(self).state(), resample),
    {
        let rearm: bool = resample && !self.is_recording();
        if resample {
            self.state = GateState::Recording;
        }
        rearm
    }

    /// Releases synthesis if the state is playing. Once released, synthesis
    /// stays released.
    pub fn settle(&mut self)
        ensures
            final(self).state() == old(self).state(),
            final(self).active() == after_settle(old(self).state(), old(self).active()),
    {
        if !self.is_recording() {
            self.active = true;
        }
    }

    /// Takes in the engine's report for this frame and returns whether the
    /// rest of the frame may run: it may once the capture is complete, which
    /// also ends a recording.
    pub fn observe(&mut self, capture: Capture) -> (proceed: bool)
        ensures
            final(self).state() == after_capture(old(self).state(), capture),
            final(self).active() == old(self).active(),
            proceed == (capture == Capture::Complete),
            proceed ==> final(self).state() == GateState::Playing,
    {
        match capture {
            Capture::Complete => {
                self.state = GateState::Playing;
                true
            },
            Capture::Filling => false,
        }
    }
}

} // verus!
