use openflow::audio::{CaptureState, FrameRoute, InputProbe, StartStep, StreamOutcome, StreamStep};

#[test]
fn idle_worker_drops_sound() {
    let s: CaptureState<i16> = CaptureState::new();
    assert_eq!(s.route(), FrameRoute::Discard);
}

#[test]
fn stop_returns_blocks_captured_since_start() {
    let mut s: CaptureState<i16> = CaptureState::new();
    assert_eq!(s.on_start(InputProbe::Ready), StartStep::OpenStream);
    assert_eq!(s.on_stream(StreamOutcome::Playing), StreamStep::Keep);
    assert_eq!(s.route(), FrameRoute::Capture);
    s.capture(vec![1, 2]);
    s.capture(vec![]);
    s.capture(vec![3]);
    assert_eq!(s.on_stop(), vec![1, 2, 3]);
    assert_eq!(s.route(), FrameRoute::Discard);
    assert_eq!(s.on_stop(), Vec::<i16>::new());
}

#[test]
fn start_discards_earlier_samples() {
    let mut s: CaptureState<i16> = CaptureState::new();
    s.on_start(InputProbe::Ready);
    s.capture(vec![9, 9]);
    s.on_start(InputProbe::Ready);
    s.capture(vec![4]);
    assert_eq!(s.on_stop(), vec![4]);
}

#[test]
fn failed_probe_changes_nothing() {
    let mut s: CaptureState<i16> = CaptureState::new();
    assert_eq!(s.on_start(InputProbe::NoDevice), StartStep::ReportNoDevice);
    assert_eq!(s.route(), FrameRoute::Discard);
    assert_eq!(
        s.on_start(InputProbe::BadConfig("no format".to_string())),
        StartStep::ReportConfigError("no format".to_string())
    );
    assert_eq!(s.route(), FrameRoute::Discard);
}

#[test]
fn stream_errors_are_reported_or_dropped() {
    let mut s: CaptureState<i16> = CaptureState::new();
    s.on_start(InputProbe::Ready);
    assert_eq!(
        s.on_stream(StreamOutcome::BuildFailed("busy".to_string())),
        StreamStep::ReportBuildError("busy".to_string())
    );
    assert_eq!(s.on_stream(StreamOutcome::PlayFailed), StreamStep::Drop);
    // The recording began before the stream was opened.
    assert_eq!(s.route(), FrameRoute::Capture);
}

#[test]
fn mute_silences_and_start_unmutes() {
    let mut s: CaptureState<i16> = CaptureState::new();
    s.on_start(InputProbe::Ready);
    s.set_muted(true);
    assert_eq!(s.route(), FrameRoute::Silence);
    s.set_muted(false);
    assert_eq!(s.route(), FrameRoute::Capture);
    s.set_muted(true);
    s.on_start(InputProbe::Ready);
    assert_eq!(s.route(), FrameRoute::Capture);
}

#[test]
fn muting_keeps_captured_samples() {
    let mut s: CaptureState<i16> = CaptureState::new();
    s.on_start(InputProbe::Ready);
    s.capture(vec![5]);
    s.set_muted(true);
    s.set_muted(false);
    s.capture(vec![6]);
    assert_eq!(s.on_stop(), vec![5, 6]);
}

#[test]
fn stopped_worker_drops_sound_even_unmuted() {
    let mut s: CaptureState<i16> = CaptureState::new();
    s.on_start(InputProbe::Ready);
    s.on_stop();
    s.set_muted(false);
    assert_eq!(s.route(), FrameRoute::Discard);
}
