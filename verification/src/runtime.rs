//! The runtime's decisions: which actions run, are dropped or cancel the
//! active request; how recording sessions are tracked; which state and
//! message each outcome shows; and the upload pipeline from conversion to
//! paste. The caller holds the locks, runs the recorder, converter, ASR
//! client and clipboard, and reports each result back.
use vstd::prelude::*;

use crate::asr::{AsrError, Transcription};
use crate::clipboard::ClipboardError;
use crate::config::ConfigError;
use crate::converter::ConvertError;
use crate::hotkey::{fault_message, HotkeyError};
use crate::recorder::{RecorderError, RecorderState};
use crate::text::{owned, push_str, string_of};

verus! {

/// The states shown to the user.
#[derive(Debug, Clone, Copy, PartialEq, Eq, Structural)]
pub enum State {
    Idle,
    Recording,
    Paused,
    Uploading,
    Error,
}

pub open spec fn state_name(s: State) -> Seq<char> {
    match s {
        State::Idle => "Idle"@,
        State::Recording => "Recording"@,
        State::Paused => "Paused"@,
        State::Uploading => "Uploading"@,
        State::Error => "Error"@,
    }
}

impl State {
    /// The state's name.
    pub fn name(&self) -> (r: String)
        ensures
            r@ == state_name(*self),
    {
        match self {
            State::Idle => owned("Idle"),
            State::Recording => owned("Recording"),
            State::Paused => owned("Paused"),
            State::Uploading => owned("Uploading"),
            State::Error => owned("Error"),
        }
    }
}

/// What the user sees: a state, a message and an error text (empty when
/// there is none).
#[derive(Debug, Clone)]
pub struct Event {
    pub state: State,
    pub message: String,
    pub error: String,
    /// Whether a completed recording is kept for a retry.
    pub retry_available: bool,
}

impl Default for Event {
    fn default() -> (r: Self)
        ensures
            r.state == State::Idle,
            r.message@.len() == 0,
            r.error@.len() == 0,
            !r.retry_available,
    {
        Event {
            state: State::Idle,
            message: String::new(),
            error: String::new(),
            retry_available: false,
        }
    }
}

/// Why a runtime operation failed.
#[derive(Debug)]
pub enum RuntimeError {
    Config(ConfigError),
    Asr(AsrError),
    Recorder(RecorderError),
    Convert(ConvertError),
    Clipboard(ClipboardError),
    Hotkey(HotkeyError),
    Stopped,
    Busy,
    CannotReload(State),
    MissingWav,
    InputFile { path: String, message: String },
    OutputFile { path: String, message: String },
}

impl RuntimeError {
    pub open spec fn text(&self) -> Seq<char> {
        match self {
            RuntimeError::Config(e) => e.text(),
            RuntimeError::Asr(e) => e.text(),
            RuntimeError::Recorder(e) => e.text(),
            RuntimeError::Convert(e) => e.text(),
            RuntimeError::Clipboard(e) => e.text(),
            RuntimeError::Hotkey(e) => fault_message(e@),
            RuntimeError::Stopped => "runtime stopped"@,
            RuntimeError::Busy => "runtime action is busy"@,
            RuntimeError::CannotReload(s) => "cannot save settings while "@ + state_name(*s),
            RuntimeError::MissingWav => "recording completed without a WAV path"@,
            RuntimeError::InputFile { path, message } => "input file '"@ + path@
                + "' is unavailable: "@ + message@,
            RuntimeError::OutputFile { path, message } => "failed to write transcription '"@
                + path@ + "': "@ + message@,
        }
    }

    /// The error's message.
    pub fn message(&self) -> (r: String)
        ensures
            r@ == self.text(),
    {
        match self {
            RuntimeError::Config(e) => e.message(),
            RuntimeError::Asr(e) => e.message(),
            RuntimeError::Recorder(e) => e.message(),
            RuntimeError::Convert(e) => e.message(),
            RuntimeError::Clipboard(e) => e.message(),
            RuntimeError::Hotkey(e) => e.message(),
            RuntimeError::Stopped => owned("runtime stopped"),
            RuntimeError::Busy => owned("runtime action is busy"),
            RuntimeError::CannotReload(s) => {
                let mut out: Vec<char> = Vec::new();
                push_str(&mut out, "cannot save settings while ");
                let name = s.name();
                push_str(&mut out, name.as_str());
                string_of(out.as_slice())
            },
            RuntimeError::MissingWav => owned("recording completed without a WAV path"),
            RuntimeError::InputFile { path, message } => {
                let mut out: Vec<char> = Vec::new();
                push_str(&mut out, "input file '");
                push_str(&mut out, path.as_str());
                push_str(&mut out, "' is unavailable: ");
                push_str(&mut out, message.as_str());
                string_of(out.as_slice())
            },
            RuntimeError::OutputFile { path, message } => {
                let mut out: Vec<char> = Vec::new();
                push_str(&mut out, "failed to write transcription '");
                push_str(&mut out, path.as_str());
                push_str(&mut out, "': ");
                push_str(&mut out, message.as_str());
                string_of(out.as_slice())
            },
        }
    }
}

/// An action requested by a hotkey or the window.
#[derive(Debug, Clone, Copy, PartialEq, Eq, Structural)]
pub enum Action {
    ToggleRecording,
    TogglePause,
    Cancel,
}

/// The action of a hotkey binding's id (1 start/stop, 2 pause, 3 cancel).
pub fn action_for_id(id: i32) -> (r: Option<Action>)
    ensures
        r == if id == 1 {
            Some(Action::ToggleRecording)
        } else if id == 2 {
            Some(Action::TogglePause)
        } else if id == 3 {
            Some(Action::Cancel)
        } else {
            None::<Action>
        },
{
    if id == 1 {
        Some(Action::ToggleRecording)
    } else if id == 2 {
        Some(Action::TogglePause)
    } else if id == 3 {
        Some(Action::Cancel)
    } else {
        None
    }
}

/// What becomes of a requested action.
#[derive(Debug, Clone, Copy, PartialEq, Eq, Structural)]
pub enum Admission {
    /// Dropped: the runtime stopped, or another action holds the lock.
    Dropped,
    /// Cancel the active upload directly, without the action lock.
    CancelRequest,
    /// Take the action lock and run the action.
    Run,
}

/// Whether an action runs: nothing runs once the runtime stopped; cancel
/// during an upload with a registered token cancels it at once; any other
/// action runs only when the action lock is free, and is dropped otherwise.
pub open spec fn admitted(
    stopped: bool,
    state: State,
    request_active: bool,
    action: Action,
    busy: bool,
) -> Admission {
    if stopped {
        Admission::Dropped
    } else if action == Action::Cancel && state == State::Uploading && request_active {
        Admission::CancelRequest
    } else if busy {
        Admission::Dropped
    } else {
        Admission::Run
    }
}

/// Busy actions are dropped, not queued: while the action lock is held,
/// every action but an upload's cancel is dropped.
pub proof fn busy_actions_are_dropped(state: State, request_active: bool, action: Action)
    requires
        !(action == Action::Cancel && state == State::Uploading && request_active),
    ensures
        forall|stopped: bool| admitted(stopped, state, request_active, action, true)
            == Admission::Dropped,
{
}

/// Canceling an upload does not wait for the action lock.
pub proof fn upload_cancel_bypasses_the_lock(busy: bool)
    ensures
        admitted(false, State::Uploading, true, Action::Cancel, busy) == Admission::CancelRequest,
{
}

/// A stopped runtime runs nothing.
pub proof fn stopped_runtime_runs_nothing(
    state: State,
    request_active: bool,
    action: Action,
    busy: bool,
)
    ensures
        admitted(true, state, request_active, action, busy) == Admission::Dropped,
{
}

/// The runtime's bookkeeping between actions.
pub struct RuntimeCore {
    pub event: Event,
    pub stopped: bool,
    pub next_session: u64,
    pub active_session: u64,
    /// Whether an upload's cancellation token is registered.
    pub request_active: bool,
    /// Whether a completed recording is kept for a retry.
    pub retry_buffered: bool,
}

/// A user-visible outcome: the state, the message and the error text.
#[derive(Debug, Clone)]
pub struct Report {
    pub state: State,
    pub message: String,
    pub error: Option<String>,
}

pub open spec fn reports(r: Option<Report>, state: State, message: Seq<char>) -> bool {
    r matches Some(rep) && rep.state == state && rep.message@ == message && rep.error is None
}

pub open spec fn reports_error(r: Option<Report>, message: Seq<char>, error: Seq<char>) -> bool {
    r matches Some(rep) && rep.state == State::Error && rep.message@ == message && (rep.error
        matches Some(e) && e@ == error)
}

fn report(state: State, message: &str) -> (r: Option<Report>)
    ensures
        reports(r, state, message@),
{
    Some(Report { state, message: owned(message), error: None })
}

fn report_error(message: &str, error: String) -> (r: Option<Report>)
    ensures
        reports_error(r, message@, error@),
{
    Some(Report { state: State::Error, message: owned(message), error: Some(error) })
}

impl RuntimeCore {
    pub fn new() -> (r: RuntimeCore)
        ensures
            r.event.state == State::Idle,
            r.event.message@.len() == 0,
            r.event.error@.len() == 0,
            !r.event.retry_available,
            !r.stopped,
            r.next_session == 0,
            r.active_session == 0,
            !r.request_active,
            !r.retry_buffered,
    {
        RuntimeCore {
            event: Event::default(),
            stopped: false,
            next_session: 0,
            active_session: 0,
            request_active: false,
            retry_buffered: false,
        }
    }

    /// Settings may be saved (and the runtime reloaded) only when idle or
    /// after an error.
    pub fn can_reload(&self) -> (r: bool)
        ensures
            r == (self.event.state == State::Idle || self.event.state == State::Error),
    {
        self.event.state == State::Idle || self.event.state == State::Error
    }

    /// Shows an outcome, unless the runtime stopped: a stopped runtime keeps
    /// its last event. Returns the event to hand to the event handler.
    pub fn set_state(&mut self, outcome: Report) -> (r: Option<Event>)
        ensures
            old(self).stopped ==> r is None && final(self).event == old(self).event,
            !old(self).stopped ==> (r matches Some(e) && e == final(self).event)
                && final(self).event.state == outcome.state && final(self).event.message
                == outcome.message && final(self).event.error@ == match outcome.error {
                Some(e) => e@,
                None => Seq::<char>::empty(),
            } && final(self).event.retry_available == old(self).retry_buffered,
            final(self).stopped == old(self).stopped,
            final(self).retry_buffered == old(self).retry_buffered,
            final(self).active_session == old(self).active_session,
            final(self).next_session == old(self).next_session,
            final(self).request_active == old(self).request_active,
    {
        if self.stopped {
            return None;
        }
        let error = match outcome.error {
            Some(e) => e,
            None => String::new(),
        };
        let shown = Event {
            state: outcome.state,
            message: outcome.message.clone(),
            error: error.clone(),
            retry_available: self.retry_buffered,
        };
        self.event = Event {
            state: outcome.state,
            message: outcome.message,
            error,
            retry_available: self.retry_buffered,
        };
        Some(shown)
    }

    /// Whether a requested action runs, is dropped, or cancels the active
    /// upload. `busy` says whether the action lock is held. Actions never
    /// wait for the lock.
    pub fn admission(&self, action: Action, busy: bool) -> (r: Admission)
        ensures
            r == admitted(self.stopped, self.event.state, self.request_active, action, busy),
    {
        if self.stopped {
            Admission::Dropped
        } else if action == Action::Cancel && self.event.state == State::Uploading
            && self.request_active {
            Admission::CancelRequest
        } else if busy {
            Admission::Dropped
        } else {
            Admission::Run
        }
    }

    /// Stops the runtime for good.
    pub fn stop(&mut self) -> (first: bool)
        ensures
            first == !old(self).stopped,
            final(self).stopped,
            final(self).event == old(self).event,
            final(self).active_session == old(self).active_session,
            !final(self).request_active,
    {
        let first = !self.stopped;
        self.stopped = true;
        self.request_active = false;
        first
    }

    /// Whether settings may be reloaded now (`busy`: the action lock is held).
    pub fn reload_gate(&self, busy: bool) -> (r: Result<(), RuntimeError>)
        ensures
            self.stopped ==> (r matches Err(RuntimeError::Stopped)),
            !self.stopped && busy ==> (r matches Err(RuntimeError::Busy)),
            !self.stopped && !busy && !(self.event.state == State::Idle || self.event.state
                == State::Error) ==> (r matches Err(RuntimeError::CannotReload(s)) && s
                == self.event.state),
            !self.stopped && !busy && (self.event.state == State::Idle || self.event.state
                == State::Error) ==> r is Ok,
    {
        if self.stopped {
            return Err(RuntimeError::Stopped);
        }
        if busy {
            return Err(RuntimeError::Busy);
        }
        if !(self.event.state == State::Idle || self.event.state == State::Error) {
            return Err(RuntimeError::CannotReload(self.event.state));
        }
        Ok(())
    }

    /// After a reload: no session and no request are active.
    pub fn reloaded(&mut self)
        ensures
            final(self).active_session == 0,
            !final(self).request_active,
            final(self).event == old(self).event,
            final(self).stopped == old(self).stopped,
            final(self).next_session == old(self).next_session,
    {
        self.active_session = 0;
        self.request_active = false;
    }

    /// Opens a recording session and returns its number.
    pub fn begin_recording_session(&mut self) -> (session: u64)
        requires
            old(self).next_session < u64::MAX,
        ensures
            session == old(self).next_session + 1,
            final(self).next_session == session,
            final(self).active_session == session,
            final(self).event == old(self).event,
            final(self).stopped == old(self).stopped,
            final(self).request_active == old(self).request_active,
    {
        self.next_session = self.next_session + 1;
        self.active_session = self.next_session;
        self.active_session
    }

    /// Closes `session` if it is still the active one of the same recorder.
    pub fn clear_recording_session(&mut self, session: u64, same_recorder: bool)
        ensures
            final(self).active_session == if same_recorder && old(self).active_session
                == session {
                0
            } else {
                old(self).active_session
            },
            final(self).event == old(self).event,
            final(self).stopped == old(self).stopped,
            final(self).next_session == old(self).next_session,
            final(self).request_active == old(self).request_active,
    {
        if same_recorder && self.active_session == session {
            self.active_session = 0;
        }
    }

    /// Whether a recorder failure reported by `session`'s worker is shown:
    /// only for the active session of the current recorder, while
    /// recording, paused or in error; showing it closes the session.
    pub fn accept_recorder_failure(&mut self, session: u64, same_recorder: bool) -> (r: bool)
        ensures
            r == (!old(self).stopped && same_recorder && old(self).active_session == session && (
            old(self).event.state == State::Recording || old(self).event.state == State::Paused
                || old(self).event.state == State::Error)),
            final(self).active_session == if r {
                0
            } else {
                old(self).active_session
            },
            final(self).event == old(self).event,
            final(self).stopped == old(self).stopped,
            final(self).next_session == old(self).next_session,
            final(self).request_active == old(self).request_active,
    {
        if self.stopped {
            return false;
        }
        if !same_recorder || self.active_session != session || !(self.event.state
            == State::Recording || self.event.state == State::Paused || self.event.state
            == State::Error) {
            return false;
        }
        self.active_session = 0;
        true
    }

    /// An upload's cancellation token is registered or released.
    pub fn set_request_active(&mut self, active: bool)
        ensures
            final(self).request_active == active,
            final(self).event == old(self).event,
            final(self).stopped == old(self).stopped,
            final(self).next_session == old(self).next_session,
            final(self).active_session == old(self).active_session,
    {
        self.request_active = active;
    }
}

/// What start/stop does in the current state.
#[derive(Debug, Clone, Copy, PartialEq, Eq, Structural)]
pub enum ToggleRecording {
    Start,
    Stop,
    Ignore,
}

pub fn toggle_recording(state: State) -> (r: ToggleRecording)
    ensures
        r == if state == State::Idle || state == State::Error {
            ToggleRecording::Start
        } else if state == State::Recording || state == State::Paused {
            ToggleRecording::Stop
        } else {
            ToggleRecording::Ignore
        },
{
    if state == State::Idle || state == State::Error {
        ToggleRecording::Start
    } else if state == State::Recording || state == State::Paused {
        ToggleRecording::Stop
    } else {
        ToggleRecording::Ignore
    }
}

/// Whether cancel applies: only while recording or paused (an upload is
/// canceled through [`RuntimeCore::admission`]).
pub fn cancel_applies(state: State) -> (r: bool)
    ensures
        r == (state == State::Recording || state == State::Paused),
{
    state == State::Recording || state == State::Paused
}

/// What the cancel-or-retry key does.
#[derive(Debug, Clone, Copy, PartialEq, Eq, Structural)]
pub enum CancelOrRetry {
    /// Cancel the recording in progress.
    CancelRecording,
    /// Upload the retained recording again.
    Retry,
    /// Nothing to cancel or retry.
    Nothing,
}

/// Cancel while recording or paused; retry while idle with a retained
/// recording; nothing otherwise (an upload is canceled through
/// [`RuntimeCore::admission`]).
pub fn cancel_or_retry(state: State, retry_buffered: bool) -> (r: CancelOrRetry)
    ensures
        r == if state == State::Recording || state == State::Paused {
            CancelOrRetry::CancelRecording
        } else if state == State::Idle && retry_buffered {
            CancelOrRetry::Retry
        } else {
            CancelOrRetry::Nothing
        },
{
    if state == State::Recording || state == State::Paused {
        CancelOrRetry::CancelRecording
    } else if state == State::Idle && retry_buffered {
        CancelOrRetry::Retry
    } else {
        CancelOrRetry::Nothing
    }
}

/// The largest recording, in bytes, kept in memory for a retry.
pub const RETRY_BUFFER_LIMIT: usize = 100_000_000;

/// Whether a completed recording of `size` bytes is kept for a retry.
pub fn retains_for_retry(size: usize) -> (r: bool)
    ensures
        r == (size <= 100_000_000),
{
    size <= RETRY_BUFFER_LIMIT
}

/// The outcome of starting the recorder. `Ok(false)`: show the report;
/// `Ok(true)`: the runtime stopped meanwhile, so cancel the recording and
/// close the session without a report.
pub fn start_outcome(result: &Result<(), RecorderError>, stopped: bool) -> (r: (bool, Option<Report>))
    ensures
        match result {
            Err(e) => !r.0 && if stopped {
                r.1 is None
            } else {
                reports_error(r.1, "Recording start failed"@, e.text())
            },
            Ok(()) => if stopped {
                r.0 && r.1 is None
            } else {
                !r.0 && reports(r.1, State::Recording, "Recording started"@)
            },
        },
{
    match result {
        Err(e) => (
            false,
            if stopped {
                None
            } else {
                report_error("Recording start failed", e.message())
            },
        ),
        Ok(()) => if stopped {
            (true, None)
        } else {
            (false, report(State::Recording, "Recording started"))
        },
    }
}

/// Whether a recorder error still lets the session be closed (a recorder
/// that was not running or lost its worker has nothing to close).
pub open spec fn closes_session(e: RecorderError) -> bool {
    !(e is NotRunning || e is WorkerStopped)
}

/// What follows a stop request.
#[derive(Debug)]
pub enum StopOutcome {
    /// The runtime stopped meanwhile: delete the recording, show nothing.
    Discard,
    /// Show this report.
    Show(Report),
    /// Register the upload, show Uploading, and run the upload pipeline on
    /// this recording.
    Upload(Option<String>),
}

/// The outcome of stopping the recorder; `close_session` says whether the
/// recording session is closed.
pub fn stop_outcome(result: Result<crate::recorder::RecordingResult, RecorderError>, stopped: bool) -> (r: (bool, StopOutcome))
    ensures
        match result {
            Ok(rec) => r.0 && if stopped {
                r.1 is Discard
            } else if rec.canceled {
                r.1 matches StopOutcome::Show(rep) && reports(Some(rep), State::Idle, "Recording canceled"@)
            } else {
                r.1 matches StopOutcome::Upload(path) && path == rec.wav_path
            },
            Err(e) => r.0 == closes_session(e) && if stopped {
                r.1 is Discard
            } else {
                r.1 matches StopOutcome::Show(rep) && reports_error(Some(rep), "Recording stop failed"@, e.text())
            },
        },
{
    match result {
        Ok(rec) => {
            if stopped {
                (true, StopOutcome::Discard)
            } else if rec.canceled {
                (true, StopOutcome::Show(Report { state: State::Idle, message: owned("Recording canceled"), error: None }))
            } else {
                (true, StopOutcome::Upload(rec.wav_path))
            }
        },
        Err(e) => {
            let close = !(matches!(e, RecorderError::NotRunning) || matches!(e, RecorderError::WorkerStopped));
            if stopped {
                (close, StopOutcome::Discard)
            } else {
                (close, StopOutcome::Show(Report { state: State::Error, message: owned("Recording stop failed"), error: Some(e.message()) }))
            }
        },
    }
}

/// The outcome of canceling a recording: whether the session is closed and
/// the report to show.
pub fn cancel_outcome(result: &Result<crate::recorder::RecordingResult, RecorderError>, stopped: bool) -> (r: (bool, Option<Report>))
    ensures
        match result {
            Ok(_) => r.0 && if stopped {
                r.1 is None
            } else {
                reports(r.1, State::Idle, "Recording canceled"@)
            },
            Err(e) => r.0 == closes_session(*e) && if stopped {
                r.1 is None
            } else {
                reports_error(r.1, "Cancel failed"@, e.text())
            },
        },
{
    match result {
        Ok(_) => (true, if stopped { None } else { report(State::Idle, "Recording canceled") }),
        Err(e) => {
            let close = !(matches!(e, RecorderError::NotRunning) || matches!(e, RecorderError::WorkerStopped));
            (close, if stopped { None } else { report_error("Cancel failed", e.message()) })
        },
    }
}

/// The outcome of pausing or resuming.
pub fn pause_outcome(result: &Result<RecorderState, RecorderError>) -> (r: Option<Report>)
    ensures
        match result {
            Ok(RecorderState::Paused) => reports(r, State::Paused, "Recording paused"@),
            Ok(RecorderState::Recording) => reports(r, State::Recording, "Recording resumed"@),
            _ => r is None,
        },
{
    match result {
        Ok(RecorderState::Paused) => report(State::Paused, "Recording paused"),
        Ok(RecorderState::Recording) => report(State::Recording, "Recording resumed"),
        _ => None,
    }
}

// ---------------------------------------------------------------------------
// The upload pipeline
/// What happens to the recording and the converted audio at the end.
#[derive(Debug)]
pub enum Files {
    /// Nothing to do.
    Leave,
    /// Delete both files.
    Remove,
    /// Cache or delete them by the cache rules; a response is cached only
    /// after a successful upload.
    Cache { upload_succeeded: bool, response: Vec<u8> },
}

/// The end of the pipeline: the files' fate, then the report (none when
/// the runtime stopped).
#[derive(Debug)]
pub struct Finish {
    pub files: Files,
    pub report: Option<Report>,
}

/// What the caller does next.
#[derive(Debug)]
pub enum FlowStep {
    /// Convert the recording into the upload format.
    Convert,
    /// Upload the converted audio.
    Upload,
    /// Paste the transcription.
    Paste(String),
    /// Paste the failure placeholder `[request failed]`.
    PastePlaceholder,
    Done(Finish),
}

pub open spec fn caches(f: Files, upload_succeeded: bool, response: Seq<u8>) -> bool {
    f matches Files::Cache { upload_succeeded: u, response: r } && u == upload_succeeded && r@
        == response
}

pub open spec fn canceled_report(r: Option<Report>, stopped: bool) -> bool {
    if stopped {
        r is None
    } else {
        reports(r, State::Idle, "Request canceled"@)
    }
}

/// Where the pipeline stands.
#[derive(Debug, Clone, Copy, PartialEq, Eq, Structural)]
pub enum FlowStage {
    Converting,
    Uploading,
    Pasting,
    PastingPlaceholder,
    Done,
}

/// One upload of a finished recording.
pub struct UploadFlow {
    pub stage: FlowStage,
    /// `REQUEST_FAILED_NOTIFICATION`.
    pub notify_failure: bool,
    /// The successful response, kept for the cache while pasting.
    pub response: Vec<u8>,
    /// The upload failure, kept while the placeholder is pasted.
    pub failure: Option<AsrError>,
}

fn canceled_finish(files: Files, stopped: bool) -> (r: FlowStep)
    ensures
        r matches FlowStep::Done(f) && f.files == files && canceled_report(f.report, stopped),
{
    FlowStep::Done(Finish { files, report: if stopped { None } else { report(State::Idle, "Request canceled") } })
}

impl UploadFlow {
    /// Starts the pipeline for a recording; a recording without a WAV
    /// fails at once.
    pub fn begin(has_wav: bool, notify_failure: bool) -> (r: (UploadFlow, FlowStep))
        ensures
            r.0.notify_failure == notify_failure,
            has_wav ==> r.0.stage == FlowStage::Converting && r.1 is Convert,
            !has_wav ==> r.0.stage == FlowStage::Done && (r.1 matches FlowStep::Done(f) && f.files
                is Leave && reports_error(f.report, "Recording failed"@,
                "recording completed without a WAV path"@)),
    {
        let flow = UploadFlow {
            stage: if has_wav { FlowStage::Converting } else { FlowStage::Done },
            notify_failure,
            response: Vec::new(),
            failure: None,
        };
        if has_wav {
            (flow, FlowStep::Convert)
        } else {
            (flow, FlowStep::Done(Finish { files: Files::Leave, report: report_error("Recording failed", owned("recording completed without a WAV path")) }))
        }
    }

    /// After conversion. A failed conversion deletes both files; a
    /// cancellation shows Idle, never an error.
    pub fn converted(&mut self, result: Result<(), ConvertError>, stopped: bool, canceled: bool) -> (r: FlowStep)
        requires
            old(self).stage == FlowStage::Converting,
        ensures
            final(self).notify_failure == old(self).notify_failure,
            canceled && !stopped ==> (r matches FlowStep::Done(f) && reports(f.report, State::Idle, "Request canceled"@)),
            stopped ==> (r matches FlowStep::Done(f) && f.report is None),
            match result {
                Err(e) => (r matches FlowStep::Done(f) && f.files is Remove && if stopped {
                    f.report is None
                } else if canceled || e is Canceled {
                    reports(f.report, State::Idle, "Request canceled"@)
                } else {
                    reports_error(f.report, "FFmpeg conversion failed"@, e.text())
                }),
                Ok(()) => if stopped {
                    r matches FlowStep::Done(f) && caches(f.files, false, Seq::empty()) && f.report is None
                } else if canceled {
                    r matches FlowStep::Done(f) && caches(f.files, false, Seq::empty()) && canceled_report(f.report, false)
                } else {
                    r is Upload && final(self).stage == FlowStage::Uploading
                },
            },
    {
        match result {
            Err(e) => {
                self.stage = FlowStage::Done;
                let rep = if stopped {
                    None
                } else if canceled || matches!(e, ConvertError::Canceled) {
                    report(State::Idle, "Request canceled")
                } else {
                    report_error("FFmpeg conversion failed", e.message())
                };
                FlowStep::Done(Finish { files: Files::Remove, report: rep })
            },
            Ok(()) => {
                if stopped {
                    self.stage = FlowStage::Done;
                    FlowStep::Done(Finish { files: Files::Cache { upload_succeeded: false, response: Vec::new() }, report: None })
                } else if canceled {
                    self.stage = FlowStage::Done;
                    canceled_finish(Files::Cache { upload_succeeded: false, response: Vec::new() }, false)
                } else {
                    self.stage = FlowStage::Uploading;
                    FlowStep::Upload
                }
            },
        }
    }

    /// After the upload. Empty text shows Idle without pasting; only a
    /// retry exhaustion with `REQUEST_FAILED_NOTIFICATION` pastes the
    /// placeholder; a cancellation shows Idle, never an error.
    pub fn uploaded(&mut self, result: Result<Transcription, AsrError>, stopped: bool, canceled: bool) -> (r: FlowStep)
        requires
            old(self).stage == FlowStage::Uploading,
        ensures
            final(self).notify_failure == old(self).notify_failure,
            canceled && !stopped ==> (r matches FlowStep::Done(f) && reports(f.report, State::Idle, "Request canceled"@)),
            r is PastePlaceholder ==> old(self).notify_failure && (result matches Err(AsrError::RetryExhausted { .. })),
            (r matches FlowStep::Paste(text) ==> text@.len() > 0),
            stopped ==> (r matches FlowStep::Done(f) ==> f.report is None),
            match result {
                Ok(t) => if stopped {
                    r matches FlowStep::Done(f) && caches(f.files, true, t.raw_response@) && f.report is None
                } else if canceled {
                    r matches FlowStep::Done(f) && caches(f.files, false, Seq::empty()) && canceled_report(f.report, false)
                } else if t.text@.len() == 0 {
                    r matches FlowStep::Done(f) && caches(f.files, true, t.raw_response@)
                        && reports(f.report, State::Idle, "Empty result from ASR"@)
                } else {
                    (r matches FlowStep::Paste(text) && text@ == t.text@) && final(self).stage == FlowStage::Pasting
                        && final(self).response@ == t.raw_response@
                },
                Err(AsrError::Canceled) => r matches FlowStep::Done(f) && caches(f.files, false, Seq::empty())
                    && canceled_report(f.report, stopped),
                Err(AsrError::Extraction { error, raw_response }) => if canceled {
                    r matches FlowStep::Done(f) && caches(f.files, false, Seq::empty()) && canceled_report(f.report, stopped)
                } else {
                    r matches FlowStep::Done(f) && caches(f.files, true, raw_response@) && if stopped {
                        f.report is None
                    } else {
                        reports_error(f.report, "Upload failed"@, error.text())
                    }
                },
                Err(e) => if canceled {
                    r matches FlowStep::Done(f) && caches(f.files, false, Seq::empty()) && canceled_report(f.report, stopped)
                } else if old(self).notify_failure && e is RetryExhausted {
                    r is PastePlaceholder && final(self).stage == FlowStage::PastingPlaceholder
                        && final(self).failure == Some(e)
                } else {
                    r matches FlowStep::Done(f) && caches(f.files, false, match e {
                        AsrError::RetryExhausted { last_response, .. } => last_response@,
                        _ => Seq::<u8>::empty(),
                    }) && if stopped {
                        f.report is None
                    } else {
                        reports_error(f.report, "Upload failed"@, e.text())
                    }
                },
            },
    {
        match result {
            Ok(t) => {
                if stopped {
                    self.stage = FlowStage::Done;
                    FlowStep::Done(Finish { files: Files::Cache { upload_succeeded: true, response: t.raw_response }, report: None })
                } else if canceled {
                    self.stage = FlowStage::Done;
                    canceled_finish(Files::Cache { upload_succeeded: false, response: Vec::new() }, false)
                } else if t.text.as_str().is_empty() {
                    self.stage = FlowStage::Done;
                    FlowStep::Done(Finish { files: Files::Cache { upload_succeeded: true, response: t.raw_response }, report: report(State::Idle, "Empty result from ASR") })
                } else {
                    self.stage = FlowStage::Pasting;
                    self.response = t.raw_response;
                    FlowStep::Paste(t.text)
                }
            },
            Err(AsrError::Canceled) => {
                self.stage = FlowStage::Done;
                canceled_finish(Files::Cache { upload_succeeded: false, response: Vec::new() }, stopped)
            },
            Err(AsrError::Extraction { error, raw_response }) => {
                self.stage = FlowStage::Done;
                if canceled {
                    canceled_finish(Files::Cache { upload_succeeded: false, response: Vec::new() }, stopped)
                } else {
                    let rep = if stopped { None } else { report_error("Upload failed", error.message()) };
                    FlowStep::Done(Finish { files: Files::Cache { upload_succeeded: true, response: raw_response }, report: rep })
                }
            },
            Err(e) => {
                if canceled {
                    self.stage = FlowStage::Done;
                    return canceled_finish(Files::Cache { upload_succeeded: false, response: Vec::new() }, stopped);
                }
                if self.notify_failure && e.is_retry_exhausted() {
                    self.stage = FlowStage::PastingPlaceholder;
                    self.failure = Some(e);
                    return FlowStep::PastePlaceholder;
                }
                self.stage = FlowStage::Done;
                let raw = failure_response(&e);
                let rep = if stopped { None } else { report_error("Upload failed", e.message()) };
                FlowStep::Done(Finish { files: Files::Cache { upload_succeeded: false, response: raw }, report: rep })
            },
        }
    }

    /// After pasting the transcription: the response is cached either way.
    pub fn pasted(&mut self, result: Result<(), ClipboardError>, stopped: bool) -> (r: FlowStep)
        requires
            old(self).stage == FlowStage::Pasting,
        ensures
            r matches FlowStep::Done(f) && caches(f.files, true, old(self).response@) && if stopped {
                f.report is None
            } else {
                match result {
                    Ok(()) => reports(f.report, State::Idle, "Transcription pasted"@),
                    Err(ClipboardError::Canceled) => reports(f.report, State::Idle, "Request canceled"@),
                    Err(e) => reports_error(f.report, if e.paste_was_sent_before_restore_failure_spec() {
                        "Paste sent; clipboard restore failed"@
                    } else {
                        "Paste failed"@
                    }, e.text()),
                }
            },
    {
        self.stage = FlowStage::Done;
        let mut response: Vec<u8> = Vec::new();
        std::mem::swap(&mut response, &mut self.response);
        let rep = if stopped {
            None
        } else {
            match result {
                Ok(()) => report(State::Idle, "Transcription pasted"),
                Err(ClipboardError::Canceled) => report(State::Idle, "Request canceled"),
                Err(e) => {
                    if e.paste_was_sent_before_restore_failure() {
                        report_error("Paste sent; clipboard restore failed", e.message())
                    } else {
                        report_error("Paste failed", e.message())
                    }
                },
            }
        };
        FlowStep::Done(Finish { files: Files::Cache { upload_succeeded: true, response }, report: rep })
    }

    /// After pasting the placeholder (its own failure is only logged): the
    /// upload failure is reported, or Idle when canceled meanwhile.
    pub fn placeholder_pasted(&mut self, stopped: bool, canceled: bool) -> (r: FlowStep)
        requires
            old(self).stage == FlowStage::PastingPlaceholder,
            old(self).failure is Some,
        ensures
            ({
                let e = old(self).failure.unwrap();
                r matches FlowStep::Done(f) && caches(f.files, false, match e {
                    AsrError::RetryExhausted { last_response, .. } => last_response@,
                    _ => Seq::<u8>::empty(),
                }) && if stopped {
                    f.report is None
                } else if canceled {
                    reports(f.report, State::Idle, "Request canceled"@)
                } else {
                    reports_error(f.report, "Upload failed"@, e.text())
                }
            }),
    {
        self.stage = FlowStage::Done;
        let mut failure: Option<AsrError> = None;
        std::mem::swap(&mut failure, &mut self.failure);
        match failure {
            Some(e) => {
                let raw = failure_response(&e);
                let rep = if stopped {
                    None
                } else if canceled {
                    report(State::Idle, "Request canceled")
                } else {
                    report_error("Upload failed", e.message())
                };
                FlowStep::Done(Finish { files: Files::Cache { upload_succeeded: false, response: raw }, report: rep })
            },
            None => FlowStep::Done(Finish { files: Files::Leave, report: None }),
        }
    }
}

/// The last failed response of an upload failure, if it kept one.
fn failure_response(e: &AsrError) -> (r: Vec<u8>)
    ensures
        r@ == match e {
            AsrError::RetryExhausted { last_response, .. } => last_response@,
            _ => Seq::<u8>::empty(),
        },
{
    let bytes = e.last_response();
    let mut out: Vec<u8> = Vec::new();
    let mut i: usize = 0;
    while i < bytes.len()
        invariant
            0 <= i <= bytes@.len(),
            out@ == bytes@.take(i as int),
        decreases bytes@.len() - i,
    {
        out.push(bytes[i]);
        proof {
            assert(bytes@.take(i as int + 1) =~= bytes@.take(i as int).push(bytes@[i as int]));
        }
        i = i + 1;
    }
    proof {
        assert(bytes@.take(bytes@.len() as int) =~= bytes@);
    }
    out
}

} // verus!
