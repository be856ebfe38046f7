//! The decisions of the microphone worker: when captured sound is kept,
//! reported as silence or dropped, and what a stop hands back.
//!
//! The worker itself (device access, the audio stream, resampling) runs
//! outside this crate; it reports each step here and performs what comes
//! back. Samples are held as an opaque type `T`.

use vstd::prelude::*;

verus! {

/// What becomes of a block of sound that the input stream delivers.
#[derive(Debug, PartialEq, Eq)]
pub enum FrameRoute {
    /// Not recording: the block is dropped.
    Discard,
    /// Recording but muted: the block is dropped and the level meter is
    /// told that the input is silent.
    Silence,
    /// Recording and not muted: the block is converted and kept.
    Capture,
}

/// The outcome of looking for the default input device and its
/// configuration when a recording is asked for.
#[derive(Debug, PartialEq, Eq)]
pub enum InputProbe {
    /// There is no input device.
    NoDevice,
    /// The device's configuration could not be read; holds the report.
    BadConfig(String),
    /// The device and its configuration are available.
    Ready,
}

/// What the worker does after a recording was asked for.
#[derive(Debug, PartialEq, Eq)]
pub enum StartStep {
    /// Report that no microphone was found; nothing else changes.
    ReportNoDevice,
    /// Report the configuration error; nothing else changes.
    ReportConfigError(String),
    /// Open the input stream; the recording has begun.
    OpenStream,
}

/// The outcome of opening the input stream.
#[derive(Debug, PartialEq, Eq)]
pub enum StreamOutcome {
    /// The stream could not be built; holds the report.
    BuildFailed(String),
    /// The stream was built but would not play.
    PlayFailed,
    /// The stream is playing.
    Playing,
}

/// What the worker does with the stream it tried to open.
#[derive(Debug, PartialEq, Eq)]
pub enum StreamStep {
    /// Report the error and drop the stream.
    ReportBuildError(String),
    /// Drop the stream silently.
    Drop,
    /// Keep the stream as the current one.
    Keep,
}

/// What the worker state holds.
pub struct CaptureView<T> {
    /// Whether sound is being recorded.
    pub recording: bool,
    /// Whether the microphone is muted.
    pub muted: bool,
    /// Whether a playing stream is held.
    pub streaming: bool,
    /// The samples captured since the recording began.
    pub buffer: Seq<T>,
}

/// The state after a recording begins: recording, unmuted, nothing
/// captured yet.
pub open spec fn started<T>(s: CaptureView<T>) -> CaptureView<T> {
    CaptureView { recording: true, muted: false, streaming: s.streaming, buffer: Seq::empty() }
}

/// The state after a stop: not recording, no stream, nothing captured.
pub open spec fn stopped<T>(s: CaptureView<T>) -> CaptureView<T> {
    CaptureView { recording: false, muted: s.muted, streaming: false, buffer: Seq::empty() }
}

/// The state after `frame` is captured: its samples follow those already
/// held.
pub open spec fn captured<T>(s: CaptureView<T>, frame: Seq<T>) -> CaptureView<T> {
    CaptureView { buffer: s.buffer + frame, ..s }
}

/// The state after capturing each frame of `frames` in turn.
pub open spec fn captured_all<T>(s: CaptureView<T>, frames: Seq<Seq<T>>) -> CaptureView<T>
    decreases frames.len(),
{
    if frames.len() == 0 {
        s
    } else {
        captured(captured_all(s, frames.drop_last()), frames.last())
    }
}

/// What becomes of a block of sound in state `s`.
pub open spec fn route_of<T>(s: CaptureView<T>) -> FrameRoute {
    if !s.recording {
        FrameRoute::Discard
    } else if s.muted {
        FrameRoute::Silence
    } else {
        FrameRoute::Capture
    }
}

/// The worker's state.
pub struct CaptureState<T> {
    recording: bool,
    muted: bool,
    streaming: bool,
    buffer: Vec<T>,
}

impl<T> View for CaptureState<T> {
    type V = CaptureView<T>;

    closed spec fn view(&self) -> CaptureView<T> {
        CaptureView {
            recording: self.recording,
            muted: self.muted,
            streaming: self.streaming,
            buffer: self.buffer@,
        }
    }
}

impl<T> CaptureState<T> {
    /// An idle worker: not recording, not muted, no stream, nothing
    /// captured.
    pub fn new() -> (s: Self)
        ensures
            s@ == (CaptureView::<T> {
                recording: false,
                muted: false,
                streaming: false,
                buffer: Seq::empty(),
            }),
    {
        CaptureState { recording: false, muted: false, streaming: false, buffer: Vec::new() }
    }

    /// A recording was asked for and the device was probed. Only when the
    /// device is ready does the recording begin: recording, unmuted, with
    /// the samples of any earlier recording discarded.
    pub fn on_start(&mut self, probe: InputProbe) -> (step: StartStep)
        ensures
            match probe {
                InputProbe::NoDevice => step is ReportNoDevice && final(self)@ == old(self)@,
                InputProbe::BadConfig(e) => step == StartStep::ReportConfigError(e)
                    && final(self)@ == old(self)@,
                InputProbe::Ready => step is OpenStream && final(self)@ == started(old(self)@),
            },
    {
        match probe {
            InputProbe::NoDevice => StartStep::ReportNoDevice,
            InputProbe::BadConfig(e) => StartStep::ReportConfigError(e),
            InputProbe::Ready => {
                self.recording = true;
                self.muted = false;
                self.buffer.clear();
                StartStep::OpenStream
            },
        }
    }

    /// The input stream was opened. A playing stream becomes the current
    /// one; a failed one is dropped and leaves the state as it was.
    pub fn on_stream(&mut self, outcome: StreamOutcome) -> (step: StreamStep)
        ensures
            match outcome {
                StreamOutcome::BuildFailed(e) => step == StreamStep::ReportBuildError(e)
                    && final(self)@ == old(self)@,
                StreamOutcome::PlayFailed => step is Drop && final(self)@ == old(self)@,
                StreamOutcome::Playing => step is Keep && final(self)@ == (CaptureView {
                    streaming: true,
                    ..old(self)@
                }),
            },
    {
        match outcome {
            StreamOutcome::BuildFailed(e) => StreamStep::ReportBuildError(e),
            StreamOutcome::PlayFailed => StreamStep::Drop,
            StreamOutcome::Playing => {
                self.streaming = true;
                StreamStep::Keep
            },
        }
    }

    /// A stop: recording ends, the stream is dropped, and the samples
    /// captured since the recording began are handed back, leaving none.
    pub fn on_stop(&mut self) -> (samples: Vec<T>)
        ensures
            samples@ == old(self)@.buffer,
            final(self)@ == stopped(old(self)@),
    {
        self.recording = false;
        self.streaming = false;
        let mut samples: Vec<T> = Vec::new();
        std::mem::swap(&mut samples, &mut self.buffer);
        samples
    }

    /// Mutes or unmutes the microphone; nothing else changes.
    pub fn set_muted(&mut self, muted: bool)
        ensures
            final(self)@ == (CaptureView { muted: muted, ..old(self)@ }),
    {
        self.muted = muted;
    }

    /// What becomes of the next block of sound.
    pub fn route(&self) -> (r: FrameRoute)
        ensures
            r == route_of(self@),
    {
        if !self.recording {
            FrameRoute::Discard
        } else if self.muted {
            FrameRoute::Silence
        } else {
            FrameRoute::Capture
        }
    }

    /// Keeps the converted samples of a block after those already held.
    pub fn capture(&mut self, frame: Vec<T>)
        ensures
            final(self)@ == captured(old(self)@, frame@),
    {
        let mut frame = frame;
        self.buffer.append(&mut frame);
    }
}

/// A stop hands back exactly the samples captured since the recording
/// began, block after block, in the order they were captured, and a
/// second stop right after it hands back nothing.
pub proof fn lemma_stop_returns_capture<T>(s: CaptureView<T>, frames: Seq<Seq<T>>)
    ensures
        captured_all(started(s), frames).buffer == frames.flatten(),
        captured_all(started(s), frames).recording,
        stopped(captured_all(started(s), frames)).buffer.len() == 0,
    decreases frames.len(),
{
    if frames.len() == 0 {
        assert(frames.flatten() =~= Seq::<T>::empty());
    } else {
        let rest = frames.drop_last();
        lemma_stop_returns_capture(s, rest);
        rest.lemma_flatten_push(frames.last());
        assert(rest.push(frames.last()) =~= frames);
    }
}

/// Blocks are kept only while recording unmuted: a recording that has just
/// begun keeps them, muting turns them into silence, unmuting keeps them
/// again, and after a stop they are dropped whatever the mute setting.
pub proof fn lemma_routing<T>(s: CaptureView<T>, muted: bool)
    ensures
        route_of(started(s)) == FrameRoute::Capture,
        route_of(CaptureView { muted: true, ..started(s) }) == FrameRoute::Silence,
        route_of(CaptureView { muted: false, ..CaptureView { muted: true, ..started(s) } })
            == FrameRoute::Capture,
        route_of(CaptureView { muted: muted, ..stopped(s) }) == FrameRoute::Discard,
{
}

/// What becomes of a block depends on the recording and mute flags alone,
/// never on what has been captured: not recording drops it, recording
/// muted reports silence, recording unmuted keeps it; and capturing a
/// block leaves the route for the next one as it was.
pub proof fn lemma_route_by_flags<T>(s: CaptureView<T>, frame: Seq<T>)
    ensures
        !s.recording ==> route_of(s) == FrameRoute::Discard,
        s.recording && s.muted ==> route_of(s) == FrameRoute::Silence,
        s.recording && !s.muted ==> route_of(s) == FrameRoute::Capture,
        route_of(captured(s, frame)) == route_of(s),
{
}

} // verus!
