use openflow::hotkey::{on_audio_stopped, on_transcription, Cue, HotkeyController, UiAction};

#[test]
fn first_press_asks_to_start() {
    let mut c = HotkeyController::new();
    let a = c.on_shortcut(true, true);
    assert_eq!(a, vec![UiAction::PlaceWindowNearCursor, UiAction::PlayCue(Cue::Begin), UiAction::StartAudio]);
    assert!(!c.is_recording());
}

#[test]
fn accepted_start_shows_overlay() {
    let mut c = HotkeyController::new();
    c.on_shortcut(true, true);
    let a = c.on_audio_started(true);
    assert_eq!(a, vec![UiAction::MuteStatus(false), UiAction::ShowWindow, UiAction::RecordingStatus(true)]);
    assert!(c.is_recording());
}

#[test]
fn refused_start_stays_idle() {
    let mut c = HotkeyController::new();
    c.on_shortcut(true, true);
    assert!(c.on_audio_started(false).is_empty());
    assert!(!c.is_recording());
    let a = c.on_shortcut(true, true);
    assert_eq!(a.last(), Some(&UiAction::StartAudio));
}

#[test]
fn second_press_stops() {
    let mut c = HotkeyController::new();
    c.on_shortcut(true, true);
    c.on_audio_started(true);
    let a = c.on_shortcut(true, true);
    assert_eq!(
        a,
        vec![
            UiAction::RecordingStatus(false),
            UiAction::TranscribingStatus(true),
            UiAction::PlayCue(Cue::End),
            UiAction::StopAudio,
        ]
    );
    assert!(!c.is_recording());
}

#[test]
fn release_and_missing_window_are_ignored() {
    let mut c = HotkeyController::new();
    assert!(c.on_shortcut(false, true).is_empty());
    assert!(c.on_shortcut(true, false).is_empty());
    c.on_shortcut(true, true);
    c.on_audio_started(true);
    assert!(c.on_shortcut(false, true).is_empty());
    assert!(c.is_recording());
}

#[test]
fn stop_outcomes() {
    assert_eq!(on_audio_stopped(true), vec![UiAction::Transcribe]);
    assert_eq!(on_audio_stopped(false), vec![UiAction::HideWindow]);
}

#[test]
fn transcription_outcomes() {
    assert_eq!(
        on_transcription(Some(Ok("hi".to_string()))),
        vec![
            UiAction::HideWindow,
            UiAction::Paste("hi".to_string()),
            UiAction::TranscriptionResult("hi".to_string()),
            UiAction::TranscribingStatus(false),
        ]
    );
    assert_eq!(
        on_transcription(Some(Err("boom".to_string()))),
        vec![UiAction::HideWindow, UiAction::TranscribingStatus(false)]
    );
    assert_eq!(on_transcription(None), vec![UiAction::HideWindow, UiAction::TranscribingStatus(false)]);
}
