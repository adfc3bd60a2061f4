use havregryn::fixed::ONE;
use havregryn::frame::{Controls, Draws, FrameEnd, Grain, Orchestrator};
use havregryn::gate::Capture;
use havregryn::pitch::{DrainPolicy, MidiEvent};
use havregryn::router::{scale, ModShape, Wavetables};

/// Stands in for the granulation engine: it counts what it is asked to do.
struct Engine {
    capacity: usize,
    filled: usize,
    rearmed: usize,
    triggered: Vec<(usize, Grain)>,
    rendered: Vec<usize>,
}

impl Engine {
    fn with_full_buffer(capacity: usize) -> Self {
        Engine {
            capacity,
            filled: capacity,
            rearmed: 0,
            triggered: Vec::new(),
            rendered: Vec::new(),
        }
    }

    fn reset_record(&mut self) {
        self.filled = 0;
        self.rearmed += 1;
    }

    fn record(&mut self) -> Capture {
        if self.filled < self.capacity {
            self.filled += 1;
            Capture::Filling
        } else {
            Capture::Complete
        }
    }
}

fn tables() -> Wavetables<4> {
    Wavetables {
        sine: [0, 1_000_000, 0, -1_000_000],
        triangle: [0, 500_000, 0, -500_000],
        sawtooth: [-1_000_000, -500_000, 0, 500_000],
        square: [1_000_000, 1_000_000, -1_000_000, -1_000_000],
    }
}

/// Two to the power of (note - 36) / 12, in millionths, for the notes used here.
fn rates() -> [i32; 128] {
    let mut rates = [0i32; 128];
    rates[36] = 1_000_000;
    rates[48] = 2_000_000;
    rates[60] = 4_000_000;
    rates[72] = 8_000_000;
    rates
}

fn controls() -> Controls {
    Controls {
        position: 250_000,
        duration: 200_000,
        jitter: 0,
        interval: 500_000,
        spread: 0,
        rate: ONE,
        mod_amount: 0,
        mod_frequency: 12_000_000,
        mod_shape: ModShape::Sine,
        random: false,
        resample: false,
    }
}

fn orchestrator(policy: DrainPolicy) -> Orchestrator<4> {
    let mut orchestrator = Orchestrator::new(tables(), false, policy);
    orchestrator.initialize(48_000, rates());
    orchestrator
}

fn run_frame(
    orchestrator: &mut Orchestrator<4>,
    engine: &mut Engine,
    frame: usize,
    batch: &Vec<MidiEvent>,
    controls: &Controls,
) -> FrameEnd {
    if orchestrator.begin_frame(batch, controls) {
        engine.reset_record();
    }
    let capture = engine.record();
    let mut grains: Vec<Grain> = Vec::new();
    let end = orchestrator.finish_frame(capture, controls, &mut grains);
    for grain in grains {
        engine.triggered.push((frame, grain));
    }
    if end.render {
        engine.rendered.push(frame);
    }
    end
}

#[test]
fn no_note_held_means_no_grain() {
    let mut orchestrator = orchestrator(DrainPolicy::StopAtOther);
    let mut engine = Engine::with_full_buffer(4_096);
    let controls = controls();
    let nothing = Vec::new();
    for frame in 0..24_000 {
        let end = run_frame(&mut orchestrator, &mut engine, frame, &nothing, &controls);
        assert!(end.draws.is_none());
    }
    // The interval is over on frame 24000: an onset, with nobody to play it.
    let end = run_frame(&mut orchestrator, &mut engine, 24_000, &nothing, &controls);
    assert!(end.draws.is_some());
    assert!(engine.triggered.is_empty());
    assert_eq!(engine.rendered.len(), 24_001);
}

#[test]
fn one_note_held_means_one_grain_per_onset() {
    let mut orchestrator = orchestrator(DrainPolicy::StopAtOther);
    let mut engine = Engine::with_full_buffer(4_096);
    let controls = controls();
    let nothing = Vec::new();
    run_frame(&mut orchestrator, &mut engine, 0, &vec![MidiEvent::NoteOn { note: 60 }], &controls);
    for frame in 1..=24_000 {
        run_frame(&mut orchestrator, &mut engine, frame, &nothing, &controls);
    }
    assert_eq!(engine.triggered.len(), 1);
    let (frame, grain) = engine.triggered[0];
    assert_eq!(frame, 24_000);
    // One times the rate of note 60, no modulation.
    assert_eq!(grain.rate, 4_000_000);
    assert_eq!(grain.position, 250_000);
    assert_eq!(grain.duration, 200_000);
    assert_eq!(grain.pan, 0);
    assert_eq!(grain.jitter, 0);
}

#[test]
fn recording_holds_grains_back() {
    let mut orchestrator = orchestrator(DrainPolicy::StopAtOther);
    let mut engine = Engine::with_full_buffer(4_096);
    let mut controls = controls();
    // Every frame would be an onset.
    controls.interval = 0;
    let nothing = Vec::new();
    for frame in 0..6_000usize {
        controls.resample = frame < 1_000;
        let batch = if frame == 0 { vec![MidiEvent::NoteOn { note: 60 }] } else { nothing.clone() };
        let end = run_frame(&mut orchestrator, &mut engine, frame, &batch, &controls);
        if frame < 4_096 {
            assert!(orchestrator.gate().is_recording(), "frame {}", frame);
            assert!(!end.render);
            assert!(engine.triggered.is_empty());
        } else {
            assert!(!orchestrator.gate().is_recording(), "frame {}", frame);
            assert!(end.render);
        }
    }
    assert_eq!(engine.rearmed, 1);
    assert!(!engine.triggered.is_empty());
    assert!(engine.triggered.iter().all(|(frame, _)| *frame > 4_096));
    // Synthesis is released on the frame after the capture is complete.
    assert_eq!(engine.triggered[0].0, 4_097);
    assert_eq!(engine.rendered[0], 4_096);
}

#[test]
fn no_grain_while_the_capture_is_filling() {
    let mut orchestrator = orchestrator(DrainPolicy::StopAtOther);
    let mut controls = controls();
    controls.interval = 0;
    let mut grains = vec![Grain { position: 1, duration: 2, pan: 3, rate: 4, jitter: 5 }];
    // Released and playing, a note held, every frame an onset.
    orchestrator.begin_frame(&vec![MidiEvent::NoteOn { note: 48 }], &controls);
    let end = orchestrator.finish_frame(Capture::Complete, &controls, &mut grains);
    assert!(end.render);
    assert_eq!(grains.len(), 1);
    for random in [false, true] {
        controls.random = random;
        orchestrator.begin_frame(&Vec::new(), &controls);
        let end = orchestrator.finish_frame(Capture::Filling, &controls, &mut grains);
        assert!(!end.render);
        assert!(end.draws.is_none());
        assert!(grains.is_empty());
        assert!(!orchestrator.gate().is_recording());
    }
}

#[test]
fn an_onset_is_used_up_by_its_frame() {
    let mut orchestrator = orchestrator(DrainPolicy::StopAtOther);
    let mut controls = controls();
    controls.interval = 0;
    let mut grains: Vec<Grain> = Vec::new();
    orchestrator.begin_frame(&vec![MidiEvent::NoteOn { note: 48 }], &controls);
    assert!(orchestrator.finish_frame(Capture::Filling, &controls, &mut grains).draws.is_none());
    // The onset of the frame above is gone: without a new first step nothing starts.
    assert!(orchestrator.finish_frame(Capture::Complete, &controls, &mut grains).draws.is_none());
    assert!(grains.is_empty());
}

#[test]
fn every_held_note_gets_a_grain_with_the_same_pan_and_jitter() {
    let mut orchestrator = orchestrator(DrainPolicy::StopAtOther);
    let mut controls = controls();
    controls.interval = 0;
    controls.spread = 800_000;
    controls.jitter = 600_000;
    controls.rate = 500_000;
    let batch = vec![
        MidiEvent::NoteOn { note: 72 },
        MidiEvent::NoteOn { note: 36 },
        MidiEvent::NoteOn { note: 60 },
    ];
    let mut grains: Vec<Grain> = Vec::new();
    orchestrator.begin_frame(&batch, &controls);
    let end = orchestrator.finish_frame(Capture::Complete, &controls, &mut grains);
    let draws: Draws = end.draws.unwrap();
    assert!((-ONE..=ONE).contains(&draws.pan));
    assert!((0..=ONE).contains(&draws.jitter));
    let rates: Vec<i64> = grains.iter().map(|grain| grain.rate).collect();
    assert_eq!(rates, vec![4_000_000, 500_000, 2_000_000]);
    for grain in &grains {
        assert_eq!(grain.pan, scale(800_000, draws.pan));
        assert_eq!(grain.jitter, scale(600_000, draws.jitter));
        assert_eq!(grain.position, 250_000);
        assert_eq!(grain.duration, 200_000);
    }
}

#[test]
fn pan_and_jitter_are_drawn_anew_for_every_onset() {
    let mut orchestrator = orchestrator(DrainPolicy::StopAtOther);
    let mut controls = controls();
    controls.interval = 0;
    let mut grains: Vec<Grain> = Vec::new();
    let mut pans: Vec<i32> = Vec::new();
    let mut jitters: Vec<i32> = Vec::new();
    for _ in 0..200 {
        orchestrator.begin_frame(&Vec::new(), &controls);
        let end = orchestrator.finish_frame(Capture::Complete, &controls, &mut grains);
        let draws = end.draws.unwrap();
        pans.push(draws.pan);
        jitters.push(draws.jitter);
    }
    assert!(pans.iter().all(|pan| (-ONE..=ONE).contains(pan)));
    assert!(jitters.iter().all(|jitter| (0..=ONE).contains(jitter)));
    assert!(pans.iter().any(|pan| *pan != pans[0]));
    assert!(jitters.iter().any(|jitter| *jitter != jitters[0]));
    assert!(pans.iter().any(|pan| *pan != -ONE) && pans.iter().any(|pan| *pan != ONE));
    assert!(jitters.iter().any(|jitter| *jitter != 0));
    assert!(jitters.iter().any(|jitter| *jitter != ONE));
}

#[test]
fn modulation_enters_the_rate() {
    let mut orchestrator = orchestrator(DrainPolicy::StopAtOther);
    let mut controls = controls();
    controls.interval = 0;
    controls.mod_amount = 500_000;
    controls.mod_shape = ModShape::Square;
    // One table entry per frame at 48 kHz.
    controls.mod_frequency = 12_000_000_000;
    let mut grains: Vec<Grain> = Vec::new();
    let mut rates: Vec<i64> = Vec::new();
    for frame in 0..4 {
        let batch = if frame == 0 { vec![MidiEvent::NoteOn { note: 60 }] } else { Vec::new() };
        orchestrator.begin_frame(&batch, &controls);
        orchestrator.finish_frame(Capture::Complete, &controls, &mut grains);
        rates.push(grains[0].rate);
    }
    // The square reads 1, -1, -1, 1 at entries 1, 2, 3, 0.
    assert_eq!(rates, vec![4_500_000, 3_500_000, 3_500_000, 4_500_000]);
    assert_eq!(orchestrator.router().oscillator().index(), 0);
}

#[test]
fn modulation_above_nyquist_is_silent() {
    let mut orchestrator = orchestrator(DrainPolicy::StopAtOther);
    let mut controls = controls();
    controls.interval = 0;
    controls.mod_amount = ONE;
    controls.mod_shape = ModShape::Square;
    controls.mod_frequency = 24_000_000_001;
    let mut grains: Vec<Grain> = Vec::new();
    orchestrator.begin_frame(&vec![MidiEvent::NoteOn { note: 60 }], &controls);
    orchestrator.finish_frame(Capture::Complete, &controls, &mut grains);
    assert_eq!(grains[0].rate, 4_000_000);
    assert_eq!(orchestrator.router().oscillator().index(), 0);
    assert_eq!(orchestrator.router().oscillator().fraction(), 0);
}

#[test]
fn modulation_rests_while_the_capture_is_filling() {
    let mut orchestrator = orchestrator(DrainPolicy::StopAtOther);
    let mut controls = controls();
    controls.mod_frequency = 12_000_000_000;
    let mut grains: Vec<Grain> = Vec::new();
    orchestrator.begin_frame(&Vec::new(), &controls);
    orchestrator.finish_frame(Capture::Complete, &controls, &mut grains);
    assert_eq!(orchestrator.router().oscillator().index(), 1);
    orchestrator.begin_frame(&Vec::new(), &controls);
    orchestrator.finish_frame(Capture::Filling, &controls, &mut grains);
    assert_eq!(orchestrator.router().oscillator().index(), 1);
}

#[test]
fn both_trigger_sources_advance_whichever_is_selected() {
    let mut steady = orchestrator(DrainPolicy::StopAtOther);
    let mut toggled = orchestrator(DrainPolicy::StopAtOther);
    let mut controls = controls();
    controls.interval = 1_000;
    let mut grains: Vec<Grain> = Vec::new();
    for frame in 0..2_000 {
        controls.random = false;
        steady.begin_frame(&Vec::new(), &controls);
        steady.finish_frame(Capture::Complete, &controls, &mut grains);
        controls.random = frame % 3 != 0;
        toggled.begin_frame(&Vec::new(), &controls);
        toggled.finish_frame(Capture::Complete, &controls, &mut grains);
        assert_eq!(
            toggled.triggers().periodic().elapsed_samples(),
            steady.triggers().periodic().elapsed_samples()
        );
        assert_eq!(
            toggled.triggers().stochastic().counter(),
            steady.triggers().stochastic().counter()
        );
        assert_eq!(
            toggled.triggers().stochastic().duration_samples(),
            steady.triggers().stochastic().duration_samples()
        );
    }
}

#[test]
fn trigger_sources_rest_until_synthesis_is_released() {
    let mut orchestrator = Orchestrator::new(tables(), true, DrainPolicy::StopAtOther);
    orchestrator.initialize(48_000, rates());
    let controls = controls();
    let mut grains: Vec<Grain> = Vec::new();
    for _ in 0..10 {
        assert!(!orchestrator.begin_frame(&Vec::new(), &controls));
        orchestrator.finish_frame(Capture::Filling, &controls, &mut grains);
    }
    assert!(orchestrator.gate().is_recording());
    assert!(!orchestrator.gate().is_active());
    assert_eq!(orchestrator.triggers().periodic().elapsed_samples(), 0);
    orchestrator.begin_frame(&Vec::new(), &controls);
    let end = orchestrator.finish_frame(Capture::Complete, &controls, &mut grains);
    assert!(end.render);
    assert!(!orchestrator.gate().is_recording());
    assert!(!orchestrator.gate().is_active());
    assert_eq!(orchestrator.triggers().periodic().elapsed_samples(), 0);
    orchestrator.begin_frame(&Vec::new(), &controls);
    assert!(orchestrator.gate().is_active());
    assert_eq!(orchestrator.triggers().periodic().elapsed_samples(), 1);
}

#[test]
fn notes_are_tracked_while_recording() {
    let mut orchestrator = Orchestrator::new(tables(), true, DrainPolicy::StopAtOther);
    orchestrator.initialize(48_000, rates());
    let controls = controls();
    let mut grains: Vec<Grain> = Vec::new();
    let batch = vec![MidiEvent::NoteOn { note: 60 }, MidiEvent::NoteOn { note: 48 }];
    orchestrator.begin_frame(&batch, &controls);
    orchestrator.finish_frame(Capture::Filling, &controls, &mut grains);
    orchestrator.begin_frame(&vec![MidiEvent::NoteOff { note: 60 }], &controls);
    orchestrator.finish_frame(Capture::Filling, &controls, &mut grains);
    assert_eq!(orchestrator.tracker().active_notes(), &vec![48]);
}

#[test]
fn frame_drain_stops_at_the_first_other_event() {
    let mut orchestrator = orchestrator(DrainPolicy::StopAtOther);
    let controls = controls();
    let batch = vec![
        MidiEvent::NoteOn { note: 60 },
        MidiEvent::Other,
        MidiEvent::NoteOn { note: 72 },
        MidiEvent::NoteOff { note: 60 },
    ];
    orchestrator.begin_frame(&batch, &controls);
    assert_eq!(orchestrator.tracker().active_notes(), &vec![60]);
}

#[test]
fn frame_drain_can_pass_over_other_events() {
    let mut orchestrator = orchestrator(DrainPolicy::SkipOther);
    let controls = controls();
    let batch = vec![
        MidiEvent::NoteOn { note: 60 },
        MidiEvent::Other,
        MidiEvent::NoteOn { note: 72 },
        MidiEvent::NoteOff { note: 60 },
    ];
    orchestrator.begin_frame(&batch, &controls);
    assert_eq!(orchestrator.tracker().active_notes(), &vec![72]);
}

#[test]
fn the_stochastic_source_is_heard_at_its_ceiling_only() {
    let mut orchestrator = orchestrator(DrainPolicy::StopAtOther);
    let mut controls = controls();
    controls.random = true;
    controls.interval = 0;
    let mut grains: Vec<Grain> = Vec::new();
    for frame in 0..2_000 {
        let batch = if frame == 0 { vec![MidiEvent::NoteOn { note: 60 }] } else { Vec::new() };
        orchestrator.begin_frame(&batch, &controls);
        let value = orchestrator.triggers().stochastic().value();
        let end = orchestrator.finish_frame(Capture::Complete, &controls, &mut grains);
        assert_eq!(end.draws.is_some(), value >= ONE);
        assert_eq!(grains.len(), if value >= ONE { 1 } else { 0 });
    }
}

#[test]
fn initialize_sets_rates_and_sample_rates() {
    let mut orchestrator = Orchestrator::new(tables(), false, DrainPolicy::StopAtOther);
    assert_eq!(orchestrator.tracker().rate_for(60), 0);
    assert_eq!(orchestrator.router().oscillator().samplerate(), 0);
    orchestrator.initialize(44_100, rates());
    assert_eq!(orchestrator.tracker().rate_for(60), 4_000_000);
    assert_eq!(orchestrator.router().oscillator().samplerate(), 44_100);
    assert_eq!(orchestrator.triggers().periodic().samplerate(), 44_100);
    assert_eq!(orchestrator.triggers().stochastic().samplerate(), 44_100);
    assert!(!orchestrator.gate().is_recording());
    assert!(orchestrator.tracker().active_notes().is_empty());
}

#[test]
fn a_held_resample_control_records_again_and_again() {
    let mut orchestrator = orchestrator(DrainPolicy::StopAtOther);
    let mut engine = Engine::with_full_buffer(8);
    let mut controls = controls();
    controls.resample = true;
    for frame in 0..27 {
        run_frame(&mut orchestrator, &mut engine, frame, &Vec::new(), &controls);
    }
    // Eight frames to fill, one to report: a new recording every nine frames.
    assert_eq!(engine.rearmed, 3);
    assert_eq!(engine.rendered, vec![8, 17, 26]);
}

#[test]
fn fan_out_gives_one_grain_per_note() {
    let mut orchestrator = orchestrator(DrainPolicy::StopAtOther);
    let mut controls = controls();
    controls.spread = ONE;
    controls.jitter = 400_000;
    controls.rate = -ONE;
    controls.mod_amount = 250_000;
    let batch = vec![MidiEvent::NoteOn { note: 48 }, MidiEvent::NoteOn { note: 36 }];
    orchestrator.begin_frame(&batch, &controls);
    let mut grains = vec![Grain { position: 1, duration: 2, pan: 3, rate: 4, jitter: 5 }];
    let draws = Draws { pan: -500_000, jitter: 250_000 };
    orchestrator.fan_out(&controls, -800_000, draws, &mut grains);
    assert_eq!(
        grains,
        vec![
            Grain {
                position: 250_000,
                duration: 200_000,
                pan: -500_000,
                rate: -2_200_000,
                jitter: 100_000,
            },
            Grain {
                position: 250_000,
                duration: 200_000,
                pan: -500_000,
                rate: -1_200_000,
                jitter: 100_000,
            },
        ]
    );
}
