//! The recorder's control state: which requests it accepts in which state,
//! what the capture loop does next, and when read errors end a recording.
//! The capture thread and the audio device are driven by the caller.
use vstd::prelude::*;

use crate::text::{decimal, decimal_chars, push_chars, push_str, string_of};

verus! {

/// Read errors in a row that end a recording.
pub const MAX_CONSECUTIVE_READ_ERRORS: usize = 10;

#[derive(Debug, Clone, Copy, PartialEq, Eq, Structural)]
pub enum RecorderState {
    Idle,
    Recording,
    Paused,
    Stopping,
    Canceled,
}

/// A finished recording: the WAV when it was kept, and whether it was
/// canceled.
#[derive(Debug, Clone)]
pub struct RecordingResult {
    pub wav_path: Option<String>,
    pub canceled: bool,
}

#[derive(Debug, Clone)]
pub enum RecorderError {
    NotIdle,
    NotRunning,
    Canceled,
    Initialize(String),
    OpenStream(String),
    StartStream(String),
    CreateWav(String),
    Read { count: usize, message: String },
    WriteWav(String),
    CloseWav(String),
    WorkerStopped,
    UnsupportedPlatform,
}

impl RecorderError {
    pub open spec fn text(&self) -> Seq<char> {
        match self {
            RecorderError::NotIdle => "recorder not idle"@,
            RecorderError::NotRunning => "recorder not running"@,
            RecorderError::Canceled => "recording canceled"@,
            RecorderError::Initialize(m) => "portaudio init failed: "@ + m@,
            RecorderError::OpenStream(m) => "open stream failed: "@ + m@,
            RecorderError::StartStream(m) => "start stream failed: "@ + m@,
            RecorderError::CreateWav(m) => "create wav failed: "@ + m@,
            RecorderError::Read { count, message } => "stream read failed after "@ + decimal(
                *count as nat,
            ) + " consecutive errors: "@ + message@,
            RecorderError::WriteWav(m) => "wav write failed: "@ + m@,
            RecorderError::CloseWav(m) => "wav close failed: "@ + m@,
            RecorderError::WorkerStopped => "recorder worker stopped unexpectedly"@,
            RecorderError::UnsupportedPlatform => "PortAudio is only available in Windows builds"@,
        }
    }

    /// The error's message.
    pub fn message(&self) -> (r: String)
        ensures
            r@ == self.text(),
    {
        let mut out: Vec<char> = Vec::new();
        match self {
            RecorderError::NotIdle => push_str(&mut out, "recorder not idle"),
            RecorderError::NotRunning => push_str(&mut out, "recorder not running"),
            RecorderError::Canceled => push_str(&mut out, "recording canceled"),
            RecorderError::Initialize(m) => {
                push_str(&mut out, "portaudio init failed: ");
                push_str(&mut out, m.as_str());
            },
            RecorderError::OpenStream(m) => {
                push_str(&mut out, "open stream failed: ");
                push_str(&mut out, m.as_str());
            },
            RecorderError::StartStream(m) => {
                push_str(&mut out, "start stream failed: ");
                push_str(&mut out, m.as_str());
            },
            RecorderError::CreateWav(m) => {
                push_str(&mut out, "create wav failed: ");
                push_str(&mut out, m.as_str());
            },
            RecorderError::Read { count, message } => {
                push_str(&mut out, "stream read failed after ");
                push_chars(&mut out, decimal_chars(*count as u64).as_slice());
                push_str(&mut out, " consecutive errors: ");
                push_str(&mut out, message.as_str());
            },
            RecorderError::WriteWav(m) => {
                push_str(&mut out, "wav write failed: ");
                push_str(&mut out, m.as_str());
            },
            RecorderError::CloseWav(m) => {
                push_str(&mut out, "wav close failed: ");
                push_str(&mut out, m.as_str());
            },
            RecorderError::WorkerStopped => push_str(
                &mut out,
                "recorder worker stopped unexpectedly",
            ),
            RecorderError::UnsupportedPlatform => push_str(
                &mut out,
                "PortAudio is only available in Windows builds",
            ),
        }
        string_of(out.as_slice())
    }
}

/// A source of interleaved 16-bit samples.
pub trait AudioStream {
    fn start(&mut self) -> Result<(), String>;

    fn stop(&mut self) -> Result<(), String>;

    fn close(&mut self) -> Result<(), String>;

    fn read(&mut self, buffer: &mut [i16]) -> Result<(), String>;
}

/// Whether a recording is in progress (running or paused).
pub open spec fn running(state: RecorderState) -> bool {
    state == RecorderState::Recording || state == RecorderState::Paused
}

/// Pause or resume: the state a running recording switches to.
pub open spec fn toggled(state: RecorderState) -> Option<RecorderState> {
    match state {
        RecorderState::Recording => Some(RecorderState::Paused),
        RecorderState::Paused => Some(RecorderState::Recording),
        _ => None,
    }
}

/// The recorder's state and whether a capture worker is attached.
pub struct RecorderControl {
    pub state: RecorderState,
    pub worker: bool,
}

impl RecorderControl {
    pub fn new() -> (r: RecorderControl)
        ensures
            r.state == RecorderState::Idle,
            !r.worker,
    {
        RecorderControl { state: RecorderState::Idle, worker: false }
    }

    /// The current state.
    pub fn state(&self) -> (r: RecorderState)
        ensures
            r == self.state,
    {
        self.state
    }

    /// A start request: refused when the lifecycle is canceled or a
    /// recording exists; otherwise the recorder is recording with a worker.
    pub fn begin_start(&mut self, lifecycle_canceled: bool) -> (r: Result<(), RecorderError>)
        ensures
            lifecycle_canceled ==> (r matches Err(RecorderError::Canceled)) && *final(self)
                == *old(self),
            !lifecycle_canceled && old(self).state != RecorderState::Idle ==> (r matches Err(
                RecorderError::NotIdle,
            )) && *final(self) == *old(self),
            !lifecycle_canceled && old(self).state == RecorderState::Idle ==> r is Ok
                && final(self).state == RecorderState::Recording && final(self).worker,
    {
        if lifecycle_canceled {
            return Err(RecorderError::Canceled);
        }
        if self.state != RecorderState::Idle {
            return Err(RecorderError::NotIdle);
        }
        self.state = RecorderState::Recording;
        self.worker = true;
        Ok(())
    }

    /// The worker ended (or never started): back to idle, returning the
    /// state it ended in.
    pub fn worker_finished(&mut self) -> (previous: RecorderState)
        ensures
            previous == old(self).state,
            final(self).state == RecorderState::Idle,
            !final(self).worker,
    {
        let previous = self.state;
        self.state = RecorderState::Idle;
        self.worker = false;
        previous
    }

    /// Asks a running recording to cancel without waiting; whether it was
    /// running.
    pub fn request_cancel(&mut self) -> (r: bool)
        ensures
            r == running(old(self).state),
            final(self).worker == old(self).worker,
            final(self).state == if r {
                RecorderState::Canceled
            } else {
                old(self).state
            },
    {
        if !(self.state == RecorderState::Recording || self.state == RecorderState::Paused) {
            return false;
        }
        self.state = RecorderState::Canceled;
        true
    }

    /// Pauses a recording or resumes a paused one.
    pub fn toggle_pause(&mut self) -> (r: Result<RecorderState, RecorderError>)
        ensures
            final(self).worker == old(self).worker,
            match toggled(old(self).state) {
                Some(next) => r == Ok::<RecorderState, RecorderError>(next) && final(self).state
                    == next,
                None => (r matches Err(RecorderError::NotRunning)) && final(self).state == old(
                    self,
                ).state,
            },
    {
        match self.state {
            RecorderState::Recording => {
                self.state = RecorderState::Paused;
                Ok(RecorderState::Paused)
            },
            RecorderState::Paused => {
                self.state = RecorderState::Recording;
                Ok(RecorderState::Recording)
            },
            _ => Err(RecorderError::NotRunning),
        }
    }

    /// A stop (`Stopping`) or cancel (`Canceled`) request for a running
    /// recording; the caller then signals the worker and waits for its
    /// result.
    pub fn finish_request(&mut self, requested: RecorderState) -> (r: Result<(), RecorderError>)
        requires
            requested == RecorderState::Stopping || requested == RecorderState::Canceled,
        ensures
            !running(old(self).state) ==> (r matches Err(RecorderError::NotRunning))
                && *final(self) == *old(self),
            running(old(self).state) ==> final(self).state == requested && !final(self).worker
                && (old(self).worker ==> r is Ok) && (!old(self).worker ==> (r matches Err(
                RecorderError::WorkerStopped,
            ))),
    {
        if !(self.state == RecorderState::Recording || self.state == RecorderState::Paused) {
            return Err(RecorderError::NotRunning);
        }
        self.state = requested;
        if !self.worker {
            return Err(RecorderError::WorkerStopped);
        }
        self.worker = false;
        Ok(())
    }
}

/// What the capture loop does next.
#[derive(Debug, Clone, Copy, PartialEq, Eq, Structural)]
pub enum LoopStep {
    /// Finalize the WAV and return it.
    Finalize,
    /// Drop the WAV and report the recording canceled.
    Discard,
    /// Paused: wait and look again.
    Wait,
    /// Read the next buffer of samples.
    Read,
}

/// The capture loop's decision from the requested state and whether the
/// recording's cancellation was signalled.
pub fn loop_step(state: RecorderState, canceled: bool) -> (r: LoopStep)
    ensures
        r == if canceled {
            if state == RecorderState::Stopping {
                LoopStep::Finalize
            } else {
                LoopStep::Discard
            }
        } else if state == RecorderState::Paused {
            LoopStep::Wait
        } else {
            LoopStep::Read
        },
{
    if canceled {
        if state == RecorderState::Stopping {
            LoopStep::Finalize
        } else {
            LoopStep::Discard
        }
    } else if state == RecorderState::Paused {
        LoopStep::Wait
    } else {
        LoopStep::Read
    }
}

/// What the capture loop does after a read or a write.
#[derive(Debug, Clone)]
pub enum AfterRead {
    /// Keep recording.
    Continue,
    /// Delete the partial WAV and end the recording with this error.
    Discard(RecorderError),
}

/// Counts read errors in a row.
pub struct ReadErrors {
    count: usize,
}

impl ReadErrors {
    pub closed spec fn consecutive(&self) -> nat {
        self.count as nat
    }

    pub fn new() -> (r: ReadErrors)
        ensures
            r.consecutive() == 0,
    {
        ReadErrors { count: 0 }
    }

    /// Records one read: a success resets the count; the tenth failure in a
    /// row ends the recording with that failure and drops the partial WAV.
    pub fn record(&mut self, read: Result<(), String>) -> (r: AfterRead)
        requires
            old(self).consecutive() < 10,
        ensures
            read is Ok ==> r is Continue && final(self).consecutive() == 0,
            read is Err ==> final(self).consecutive() == old(self).consecutive() + 1,
            read is Err && final(self).consecutive() < 10 ==> r is Continue,
            read is Err && final(self).consecutive() >= 10 ==> (r matches AfterRead::Discard(
                RecorderError::Read { count, message },
            ) && count == 10 && message@ == read->Err_0@),
    {
        match read {
            Ok(()) => {
                self.count = 0;
                AfterRead::Continue
            },
            Err(message) => {
                self.count = self.count + 1;
                if self.count >= MAX_CONSECUTIVE_READ_ERRORS {
                    AfterRead::Discard(RecorderError::Read { count: self.count, message })
                } else {
                    AfterRead::Continue
                }
            },
        }
    }
}

/// A sample that could not be written ends the recording and drops the
/// partial WAV.
pub fn write_failure(message: String) -> (r: AfterRead)
    ensures
        r matches AfterRead::Discard(RecorderError::WriteWav(m)) && m@ == message@,
{
    AfterRead::Discard(RecorderError::WriteWav(message))
}

/// The result of a stop once the WAV was finalized (`closed`): the
/// recording, or the close error with the partial WAV to delete (`true`).
pub fn finalized(wav_path: String, closed: Result<(), String>) -> (r: (
    bool,
    Result<RecordingResult, RecorderError>,
))
    ensures
        match closed {
            Ok(()) => !r.0 && (r.1 matches Ok(rec) && rec.wav_path == Some(wav_path)
                && !rec.canceled),
            Err(m) => r.0 && (r.1 matches Err(RecorderError::CloseWav(e)) && e@ == m@),
        },
{
    match closed {
        Ok(()) => (false, Ok(RecordingResult { wav_path: Some(wav_path), canceled: false })),
        Err(m) => (true, Err(RecorderError::CloseWav(m))),
    }
}

/// A capture error is reported to the error handler only when the worker
/// failed on its own while recording or paused, not after a stop or cancel.
pub fn reports_worker_error(previous: RecorderState, failed: bool) -> (r: bool)
    ensures
        r == (failed && running(previous)),
{
    failed && (previous == RecorderState::Recording || previous == RecorderState::Paused)
}

/// Pausing twice gives back the state a recording had; only a running
/// recording can be paused or resumed.
pub proof fn pause_twice_restores(state: RecorderState)
    ensures
        toggled(state) is Some <==> running(state),
        running(state) ==> toggled(toggled(state).unwrap()) == Some(state),
{
}

} // verus!
