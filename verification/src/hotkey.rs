//! What the global shortcut does: the first press starts a recording and
//! shows the overlay, the next press stops it and hands the sound to the
//! recogniser, whose outcome is pasted and reported.
//!
//! The window, the sounds, the events and the workers live outside this
//! crate; each handler here takes what happened and returns, in order, the
//! actions to perform.

use vstd::prelude::*;

verus! {

/// The short sound played when a recording begins or ends.
#[derive(Debug, PartialEq, Eq)]
pub enum Cue {
    /// Played when a recording begins.
    Begin,
    /// Played when a recording ends.
    End,
}

/// An action for the user interface or the workers.
#[derive(Debug, PartialEq, Eq)]
pub enum UiAction {
    /// Tell the overlay whether a recording is running.
    RecordingStatus(bool),
    /// Tell the overlay whether a transcription is running.
    TranscribingStatus(bool),
    /// Tell the overlay whether the microphone is muted.
    MuteStatus(bool),
    /// Play a cue.
    PlayCue(Cue),
    /// Place the overlay next to the mouse cursor.
    PlaceWindowNearCursor,
    /// Show the overlay.
    ShowWindow,
    /// Hide the overlay.
    HideWindow,
    /// Ask the microphone worker to start recording.
    StartAudio,
    /// Ask the microphone worker to stop and hand back its samples.
    StopAudio,
    /// Transcribe the samples that the worker handed back.
    Transcribe,
    /// Paste the text into the focused application.
    Paste(String),
    /// Tell the overlay the recognised text.
    TranscriptionResult(String),
}

/// The recording flag and the actions after a shortcut event.
pub open spec fn shortcut_step(recording: bool, pressed: bool, window_present: bool) -> (
    bool,
    Seq<UiAction>,
) {
    if !(pressed && window_present) {
        (recording, Seq::empty())
    } else if recording {
        (
            false,
            seq![
                UiAction::RecordingStatus(false),
                UiAction::TranscribingStatus(true),
                UiAction::PlayCue(Cue::End),
                UiAction::StopAudio,
            ],
        )
    } else {
        (
            false,
            seq![UiAction::PlaceWindowNearCursor, UiAction::PlayCue(Cue::Begin), UiAction::StartAudio],
        )
    }
}

/// The recording flag and the actions once the microphone worker has
/// accepted (`started`) or refused the request to record.
pub open spec fn start_step(recording: bool, started: bool) -> (bool, Seq<UiAction>) {
    if started {
        (
            true,
            seq![UiAction::MuteStatus(false), UiAction::ShowWindow, UiAction::RecordingStatus(true)],
        )
    } else {
        (recording, Seq::empty())
    }
}

/// The actions once the microphone worker has (`stopped`) or has not
/// handed back its samples.
pub open spec fn stop_step(stopped: bool) -> Seq<UiAction> {
    if stopped {
        seq![UiAction::Transcribe]
    } else {
        seq![UiAction::HideWindow]
    }
}

/// The actions once a transcription has ended: `None` when no model was
/// loaded, otherwise the recogniser's text or its error message.
pub open spec fn transcription_step(outcome: Option<Result<String, String>>) -> Seq<UiAction> {
    match outcome {
        Some(Ok(text)) => seq![
            UiAction::HideWindow,
            UiAction::Paste(text),
            UiAction::TranscriptionResult(text),
            UiAction::TranscribingStatus(false),
        ],
        _ => seq![UiAction::HideWindow, UiAction::TranscribingStatus(false)],
    }
}

/// The shortcut handler's state: whether a recording is running.
pub struct HotkeyController {
    recording: bool,
}

impl View for HotkeyController {
    type V = bool;

    closed spec fn view(&self) -> bool {
        self.recording
    }
}

impl HotkeyController {
    /// A handler with no recording running.
    pub fn new() -> (c: Self)
        ensures
            !c@,
    {
        HotkeyController { recording: false }
    }

    /// Whether a recording is running.
    pub fn is_recording(&self) -> (b: bool)
        ensures
            b == self@,
    {
        self.recording
    }

    /// The shortcut was pressed (`pressed`) or released, while the overlay
    /// window exists (`window_present`) or not. Only a press with the window
    /// present does anything: during a recording it ends the recording and
    /// stops the microphone; otherwise it asks the microphone to start,
    /// and the recording counts as running only once it has.
    pub fn on_shortcut(&mut self, pressed: bool, window_present: bool) -> (actions: Vec<UiAction>)
        ensures
            (final(self)@, actions@) == shortcut_step(old(self)@, pressed, window_present),
    {
        let mut actions: Vec<UiAction> = Vec::new();
        if !(pressed && window_present) {
            return actions;
        }
        if self.recording {
            self.recording = false;
            actions.push(UiAction::RecordingStatus(false));
            actions.push(UiAction::TranscribingStatus(true));
            actions.push(UiAction::PlayCue(Cue::End));
            actions.push(UiAction::StopAudio);
        } else {
            actions.push(UiAction::PlaceWindowNearCursor);
            actions.push(UiAction::PlayCue(Cue::Begin));
            actions.push(UiAction::StartAudio);
        }
        assert(actions@ =~= shortcut_step(old(self)@, pressed, window_present).1);
        actions
    }

    /// The microphone worker accepted (`started`) or refused the request
    /// to record. Only an accepted request starts the recording and shows
    /// the overlay; a refused one changes nothing.
    pub fn on_audio_started(&mut self, started: bool) -> (actions: Vec<UiAction>)
        ensures
            (final(self)@, actions@) == start_step(old(self)@, started),
    {
        let mut actions: Vec<UiAction> = Vec::new();
        if started {
            self.recording = true;
            actions.push(UiAction::MuteStatus(false));
            actions.push(UiAction::ShowWindow);
            actions.push(UiAction::RecordingStatus(true));
        }
        assert(actions@ =~= start_step(old(self)@, started).1);
        actions
    }
}

/// The microphone worker handed back its samples (`stopped`) or failed to;
/// a failure hides the overlay and nothing is transcribed.
pub fn on_audio_stopped(stopped: bool) -> (actions: Vec<UiAction>)
    ensures
        actions@ == stop_step(stopped),
{
    let mut actions: Vec<UiAction> = Vec::new();
    if stopped {
        actions.push(UiAction::Transcribe);
    } else {
        actions.push(UiAction::HideWindow);
    }
    assert(actions@ =~= stop_step(stopped));
    actions
}

/// A transcription ended: `None` when no model was loaded, otherwise the
/// text or the error. The overlay is hidden in every case; recognised text
/// is pasted and reported; the transcribing status is cleared last.
pub fn on_transcription(outcome: Option<Result<String, String>>) -> (actions: Vec<UiAction>)
    ensures
        actions@ == transcription_step(outcome),
{
    let mut actions: Vec<UiAction> = Vec::new();
    actions.push(UiAction::HideWindow);
    match outcome {
        Some(Ok(text)) => {
            let shown = text.clone();
            actions.push(UiAction::Paste(text));
            actions.push(UiAction::TranscriptionResult(shown));
        },
        _ => {},
    }
    actions.push(UiAction::TranscribingStatus(false));
    assert(actions@ =~= transcription_step(outcome));
    actions
}

/// A press during a recording always ends it: the microphone is stopped,
/// the recording status cleared before anything else, and no recording
/// runs afterwards.
pub proof fn lemma_press_ends_recording(window_present: bool)
    ensures
        window_present ==> ({
            let (rec, acts) = shortcut_step(true, true, window_present);
            &&& !rec
            &&& acts[0] == UiAction::RecordingStatus(false)
            &&& acts.contains(UiAction::StopAudio)
        }),
{
    if window_present {
        let acts = shortcut_step(true, true, window_present).1;
        assert(acts[3] == UiAction::StopAudio);
    }
}

/// Presses toggle the recording: from idle, a press whose start the
/// microphone accepts leads to a running recording, and the next press
/// returns to idle; a refused start leaves the handler idle, so the next
/// press asks to start again.
pub proof fn lemma_presses_toggle()
    ensures
        ({
            let (r1, _a1) = shortcut_step(false, true, true);
            let (r2, _a2) = start_step(r1, true);
            let (r3, a3) = shortcut_step(r2, true, true);
            r2 && !r3 && a3.contains(UiAction::StopAudio)
        }),
        ({
            let (r1, _a1) = shortcut_step(false, true, true);
            let (r2, _a2) = start_step(r1, false);
            let (r3, a3) = shortcut_step(r2, true, true);
            !r2 && !r3 && a3.contains(UiAction::StartAudio)
        }),
{
    let a3 = shortcut_step(true, true, true).1;
    assert(a3[3] == UiAction::StopAudio);
    let b3 = shortcut_step(false, true, true).1;
    assert(b3[2] == UiAction::StartAudio);
}

/// Releases, and presses while the overlay window is missing, are
/// ignored: the recording flag stays and nothing is done.
pub proof fn lemma_ignored_events(recording: bool, pressed: bool, window_present: bool)
    requires
        !pressed || !window_present,
    ensures
        shortcut_step(recording, pressed, window_present) == (recording, Seq::<UiAction>::empty()),
{
}

/// Every transcription outcome first hides the overlay and last clears
/// the transcribing status; recognised text, whatever characters it holds,
/// is pasted and then reported, and nothing is pasted or reported
/// otherwise.
pub proof fn lemma_transcription_outcomes(outcome: Option<Result<String, String>>, t: String)
    ensures
        ({
            let acts = transcription_step(outcome);
            &&& acts.len() >= 2
            &&& acts[0] == UiAction::HideWindow
            &&& acts.last() == UiAction::TranscribingStatus(false)
        }),
        ({
            let acts = transcription_step(Some(Ok(t)));
            &&& acts.len() == 4
            &&& acts[1] == UiAction::Paste(t)
            &&& acts[2] == UiAction::TranscriptionResult(t)
        }),
        !(outcome matches Some(Ok(_))) ==> transcription_step(outcome).len() == 2,
{
}

/// Whatever the handler held before, an accepted start leaves a running
/// recording with the overlay shown and a recording status of true, and a
/// refused start changes nothing and does nothing.
pub proof fn lemma_start_outcomes(recording: bool)
    ensures
        start_step(recording, true).0,
        start_step(recording, true).1.contains(UiAction::ShowWindow),
        start_step(recording, true).1.last() == UiAction::RecordingStatus(true),
        start_step(recording, false) == (recording, Seq::<UiAction>::empty()),
{
    assert(start_step(recording, true).1[1] == UiAction::ShowWindow);
}

} // verus!
