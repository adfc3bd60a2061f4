use havregryn::gate::{Capture, ResampleGate};

#[test]
fn gate_starts_playing_and_held_back() {
    let gate = ResampleGate::new(false);
    assert!(!gate.is_recording());
    assert!(!gate.is_active());
}

#[test]
fn gate_can_start_recording() {
    let gate = ResampleGate::new(true);
    assert!(gate.is_recording());
    assert!(!gate.is_active());
}

#[test]
fn resample_request_starts_a_recording() {
    let mut gate = ResampleGate::new(false);
    assert!(!gate.request(false));
    assert!(!gate.is_recording());
    assert!(gate.request(true));
    assert!(gate.is_recording());
}

#[test]
fn resample_request_while_recording_does_not_rearm() {
    let mut gate = ResampleGate::new(true);
    assert!(!gate.request(true));
    assert!(gate.is_recording());
    assert!(!gate.request(false));
    assert!(gate.is_recording());
}

#[test]
fn complete_capture_ends_the_recording() {
    let mut gate = ResampleGate::new(true);
    assert!(!gate.observe(Capture::Filling));
    assert!(gate.is_recording());
    assert!(gate.observe(Capture::Complete));
    assert!(!gate.is_recording());
    assert!(gate.observe(Capture::Complete));
    assert!(!gate.is_recording());
}

#[test]
fn filling_capture_does_not_start_a_recording() {
    let mut gate = ResampleGate::new(false);
    assert!(!gate.observe(Capture::Filling));
    assert!(!gate.is_recording());
}

#[test]
fn settle_releases_synthesis_once_playing() {
    let mut gate = ResampleGate::new(true);
    gate.settle();
    assert!(!gate.is_active());
    gate.observe(Capture::Complete);
    assert!(!gate.is_active());
    gate.settle();
    assert!(gate.is_active());
}

#[test]
fn synthesis_stays_released_through_later_recordings() {
    let mut gate = ResampleGate::new(false);
    gate.settle();
    assert!(gate.is_active());
    gate.request(true);
    gate.settle();
    assert!(gate.is_recording());
    assert!(gate.is_active());
    gate.observe(Capture::Filling);
    assert!(gate.is_active());
}
