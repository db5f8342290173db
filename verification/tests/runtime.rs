use stt_core::asr::{AsrError, Transcription};
use stt_core::clipboard::ClipboardError;
use stt_core::converter::ConvertError;
use stt_core::recorder::{
    finalized, loop_step, reports_worker_error, write_failure, AfterRead, LoopStep,
    ReadErrors, RecorderControl, RecorderError, RecorderState, RecordingResult,
};
use stt_core::runtime::{
    action_for_id, cancel_applies, cancel_or_retry, cancel_outcome, pause_outcome,
    retains_for_retry, start_outcome, stop_outcome, toggle_recording, Action, Admission,
    CancelOrRetry, Files, FlowStep, Report, RuntimeCore, RuntimeError, State, StopOutcome,
    ToggleRecording, UploadFlow,
};

fn report(state: State, message: &str) -> Report {
    Report {
        state,
        message: message.into(),
        error: None,
    }
}

#[test]
fn busy_actions_are_dropped_not_queued() {
    let core = RuntimeCore::new();
    for action in [Action::ToggleRecording, Action::TogglePause, Action::Cancel] {
        assert_eq!(core.admission(action, true), Admission::Dropped);
        assert_eq!(core.admission(action, false), Admission::Run);
    }
    assert_eq!(core.event.state, State::Idle);
}

#[test]
fn uploading_request_cancel_bypasses_the_busy_action_lock() {
    let mut core = RuntimeCore::new();
    core.set_request_active(true);
    core.set_state(report(State::Uploading, "Uploading ASR request"));
    assert_eq!(core.admission(Action::Cancel, true), Admission::CancelRequest);
    assert_eq!(core.admission(Action::ToggleRecording, true), Admission::Dropped);
    // The pipeline then sees the cancellation while converting.
    let (mut flow, step) = UploadFlow::begin(true, false);
    assert!(matches!(step, FlowStep::Convert));
    match flow.converted(Err(ConvertError::Canceled), false, true) {
        FlowStep::Done(finish) => {
            assert!(matches!(finish.files, Files::Remove));
            let shown = core.set_state(finish.report.unwrap()).unwrap();
            assert_eq!(shown.state, State::Idle);
            assert_eq!(shown.message, "Request canceled");
            assert_eq!(shown.error, "");
        }
        _ => panic!("conversion cancel must finish"),
    }
}

#[test]
fn stopped_runtime_rejects_actions_and_late_events() {
    let mut core = RuntimeCore::new();
    core.set_state(report(State::Uploading, "uploading"));
    assert!(core.stop());
    assert_eq!(core.admission(Action::ToggleRecording, false), Admission::Dropped);
    assert!(core
        .set_state(Report {
            state: State::Error,
            message: "late".into(),
            error: Some(RuntimeError::Stopped.message()),
        })
        .is_none());
    assert_eq!(core.event.state, State::Uploading);
    assert!(!core.stop());
}

#[test]
fn reload_is_only_allowed_when_idle_or_error() {
    let mut core = RuntimeCore::new();
    core.set_state(report(State::Recording, "recording"));
    assert!(matches!(
        core.reload_gate(false),
        Err(RuntimeError::CannotReload(State::Recording))
    ));
    assert_eq!(
        core.reload_gate(false).unwrap_err().message(),
        "cannot save settings while Recording"
    );
    assert!(matches!(core.reload_gate(true), Err(RuntimeError::Busy)));
    core.set_state(report(State::Error, "failed"));
    assert!(core.reload_gate(false).is_ok());
    assert!(core.can_reload());
}

#[test]
fn actions_and_toggles() {
    assert_eq!(action_for_id(1), Some(Action::ToggleRecording));
    assert_eq!(action_for_id(3), Some(Action::Cancel));
    assert_eq!(action_for_id(4), None);
    assert_eq!(toggle_recording(State::Error), ToggleRecording::Start);
    assert_eq!(toggle_recording(State::Paused), ToggleRecording::Stop);
    assert_eq!(toggle_recording(State::Uploading), ToggleRecording::Ignore);
    assert_eq!(cancel_or_retry(State::Idle, true), CancelOrRetry::Retry);
    assert_eq!(cancel_or_retry(State::Idle, false), CancelOrRetry::Nothing);
    assert_eq!(
        cancel_or_retry(State::Recording, true),
        CancelOrRetry::CancelRecording
    );
    assert!(retains_for_retry(100_000_000));
    assert!(!retains_for_retry(100_000_001));
}

#[test]
fn recorder_sessions_are_tracked() {
    let mut core = RuntimeCore::new();
    let session = core.begin_recording_session();
    assert_eq!(session, 1);
    core.set_state(report(State::Recording, "Recording started"));
    assert!(!core.accept_recorder_failure(session, false));
    assert!(core.accept_recorder_failure(session, true));
    assert_eq!(core.active_session, 0);
    assert!(!core.accept_recorder_failure(session, true));
    let second = core.begin_recording_session();
    core.clear_recording_session(second, true);
    assert_eq!(core.active_session, 0);
}

fn finish(step: FlowStep) -> (Files, Option<Report>) {
    match step {
        FlowStep::Done(finish) => (finish.files, finish.report),
        _ => panic!("expected the pipeline to finish"),
    }
}

fn uploading(notify: bool) -> UploadFlow {
    let (mut flow, _) = UploadFlow::begin(true, notify);
    assert!(matches!(flow.converted(Ok(()), false, false), FlowStep::Upload));
    flow
}

#[test]
fn empty_text_is_not_pasted() {
    let mut flow = uploading(false);
    let (files, report) = finish(flow.uploaded(
        Ok(Transcription {
            text: String::new(),
            raw_response: b"{}".to_vec(),
        }),
        false,
        false,
    ));
    assert!(matches!(files, Files::Cache { upload_succeeded: true, .. }));
    assert_eq!(report.unwrap().message, "Empty result from ASR");
}

#[test]
fn transcription_is_pasted_then_cached() {
    let mut flow = uploading(false);
    match flow.uploaded(
        Ok(Transcription {
            text: "hello".into(),
            raw_response: b"{\"text\":\"hello\"}".to_vec(),
        }),
        false,
        false,
    ) {
        FlowStep::Paste(text) => assert_eq!(text, "hello"),
        _ => panic!("expected a paste"),
    }
    let (files, report) = finish(flow.pasted(Ok(()), false));
    match files {
        Files::Cache {
            upload_succeeded,
            response,
        } => {
            assert!(upload_succeeded);
            assert_eq!(response, b"{\"text\":\"hello\"}");
        }
        _ => panic!("expected caching"),
    }
    let report = report.unwrap();
    assert_eq!(report.state, State::Idle);
    assert_eq!(report.message, "Transcription pasted");
}

#[test]
fn restore_failure_after_paste_is_reported_distinctly() {
    let mut flow = uploading(false);
    flow.uploaded(
        Ok(Transcription {
            text: "hello".into(),
            raw_response: Vec::new(),
        }),
        false,
        false,
    );
    let (_, report) = finish(flow.pasted(
        Err(ClipboardError::Restore {
            paste_sent: true,
            message: "busy".into(),
        }),
        false,
    ));
    let report = report.unwrap();
    assert_eq!(report.state, State::Error);
    assert_eq!(report.message, "Paste sent; clipboard restore failed");
    assert_eq!(report.error.unwrap(), "restoring clipboard failed: busy");
}

#[test]
fn placeholder_only_after_exhausted_retries_with_notification() {
    let exhausted = || AsrError::RetryExhausted {
        max_retry: 3,
        attempts: 3,
        last_response: b"busy".to_vec(),
    };
    let mut flow = uploading(true);
    assert!(matches!(
        flow.uploaded(Err(exhausted()), false, false),
        FlowStep::PastePlaceholder
    ));
    let (files, report) = finish(flow.placeholder_pasted(false, false));
    match files {
        Files::Cache {
            upload_succeeded,
            response,
        } => {
            assert!(!upload_succeeded);
            assert_eq!(response, b"busy");
        }
        _ => panic!("expected caching"),
    }
    assert_eq!(report.unwrap().message, "Upload failed");

    let mut flow = uploading(false);
    let (_, report) = finish(flow.uploaded(Err(exhausted()), false, false));
    let report = report.unwrap();
    assert_eq!(report.state, State::Error);
    assert_eq!(report.error.unwrap(), "exceeded max retries (3), attempts: 3");

    let mut flow = uploading(true);
    let (_, report) = finish(flow.uploaded(Err(AsrError::EmptyEndpoint), false, false));
    assert_eq!(report.unwrap().message, "Upload failed");
}

#[test]
fn canceled_upload_returns_to_idle() {
    let mut flow = uploading(true);
    let (_, report) = finish(flow.uploaded(Err(AsrError::Canceled), false, true));
    let report = report.unwrap();
    assert_eq!(report.state, State::Idle);
    assert_eq!(report.message, "Request canceled");
    let (mut flow, _) = UploadFlow::begin(true, false);
    let (_, report) = finish(flow.converted(Ok(()), true, false));
    assert!(report.is_none());
}

#[test]
fn missing_wav_fails_at_once() {
    let (_, step) = UploadFlow::begin(false, false);
    let (files, report) = finish(step);
    assert!(matches!(files, Files::Leave));
    let report = report.unwrap();
    assert_eq!(report.message, "Recording failed");
    assert_eq!(report.error.unwrap(), "recording completed without a WAV path");
}

#[test]
fn recorder_control_accepts_requests_by_state() {
    let mut control = RecorderControl::new();
    assert!(matches!(control.toggle_pause(), Err(RecorderError::NotRunning)));
    assert!(matches!(control.begin_start(true), Err(RecorderError::Canceled)));
    control.begin_start(false).unwrap();
    assert!(matches!(control.begin_start(false), Err(RecorderError::NotIdle)));
    assert_eq!(control.toggle_pause().unwrap(), RecorderState::Paused);
    assert_eq!(control.toggle_pause().unwrap(), RecorderState::Recording);
    assert!(control.request_cancel());
    assert_eq!(control.state(), RecorderState::Canceled);
    assert!(!control.request_cancel());
    assert_eq!(control.worker_finished(), RecorderState::Canceled);
    assert_eq!(control.state(), RecorderState::Idle);
    control.begin_start(false).unwrap();
    control.finish_request(RecorderState::Stopping).unwrap();
    assert!(matches!(
        control.finish_request(RecorderState::Canceled),
        Err(RecorderError::NotRunning)
    ));
}

#[test]
fn ten_consecutive_read_errors_terminate_and_delete_partial_file() {
    let mut control = RecorderControl::new();
    control.begin_start(false).unwrap();
    let mut errors = ReadErrors::new();
    for _ in 0..9 {
        assert!(matches!(errors.record(Err("device disconnected".into())), AfterRead::Continue));
    }
    match errors.record(Err("device disconnected".into())) {
        AfterRead::Discard(error) => {
            assert!(matches!(error, RecorderError::Read { count: 10, .. }));
            assert!(error.message().contains("10 consecutive errors"));
        },
        AfterRead::Continue => panic!("the tenth error must end the recording"),
    }
    let previous = control.worker_finished();
    assert!(reports_worker_error(previous, true));
    assert_eq!(control.state(), RecorderState::Idle);

    let mut errors = ReadErrors::new();
    for _ in 0..9 {
        errors.record(Err("x".into()));
    }
    assert!(matches!(errors.record(Ok(())), AfterRead::Continue));
    assert!(matches!(errors.record(Err("x".into())), AfterRead::Continue));
}

#[test]
fn write_and_close_failures_drop_the_partial_file() {
    match write_failure("disk full".into()) {
        AfterRead::Discard(error) => assert_eq!(error.message(), "wav write failed: disk full"),
        AfterRead::Continue => panic!("a write failure ends the recording"),
    }
    let (delete, result) = finalized("a.wav".into(), Ok(()));
    assert!(!delete);
    let recording = result.unwrap();
    assert_eq!(recording.wav_path.as_deref(), Some("a.wav"));
    assert!(!recording.canceled);
    let (delete, result) = finalized("a.wav".into(), Err("io".into()));
    assert!(delete);
    assert_eq!(result.unwrap_err().message(), "wav close failed: io");
    assert_eq!(
        RecorderError::Initialize("x".into()).message(),
        "portaudio init failed: x"
    );
}

#[test]
fn capture_loop_steps() {
    assert_eq!(loop_step(RecorderState::Stopping, true), LoopStep::Finalize);
    assert_eq!(loop_step(RecorderState::Canceled, true), LoopStep::Discard);
    assert_eq!(loop_step(RecorderState::Paused, false), LoopStep::Wait);
    assert_eq!(loop_step(RecorderState::Recording, false), LoopStep::Read);
    assert!(reports_worker_error(RecorderState::Recording, true));
    assert!(!reports_worker_error(RecorderState::Stopping, true));
    assert!(!reports_worker_error(RecorderState::Paused, false));
}

fn shown(report: &Option<Report>) -> (State, String, Option<String>) {
    let report = report.as_ref().unwrap();
    (report.state, report.message.clone(), report.error.clone())
}

#[test]
fn recorder_outcomes_become_reports() {
    assert!(cancel_applies(State::Recording));
    assert!(cancel_applies(State::Paused));
    assert!(!cancel_applies(State::Uploading));
    assert!(!cancel_applies(State::Idle));

    let (cancel_recording, report) = start_outcome(&Ok(()), false);
    assert!(!cancel_recording);
    assert_eq!(shown(&report), (State::Recording, "Recording started".into(), None));
    assert_eq!(start_outcome(&Ok(()), true).0, true);
    assert!(start_outcome(&Ok(()), true).1.is_none());
    let (_, report) = start_outcome(&Err(RecorderError::NotIdle), false);
    assert_eq!(
        shown(&report),
        (State::Error, "Recording start failed".into(), Some("recorder not idle".into()))
    );

    let kept = RecordingResult { wav_path: Some("a.wav".into()), canceled: false };
    match stop_outcome(Ok(kept), false) {
        (true, StopOutcome::Upload(path)) => assert_eq!(path.as_deref(), Some("a.wav")),
        other => panic!("unexpected {other:?}"),
    }
    let canceled = RecordingResult { wav_path: None, canceled: true };
    match stop_outcome(Ok(canceled.clone()), false) {
        (true, StopOutcome::Show(report)) => {
            assert_eq!(report.state, State::Idle);
            assert_eq!(report.message, "Recording canceled");
        },
        other => panic!("unexpected {other:?}"),
    }
    assert!(matches!(stop_outcome(Ok(canceled), true), (true, StopOutcome::Discard)));
    match stop_outcome(Err(RecorderError::WorkerStopped), false) {
        (false, StopOutcome::Show(report)) => {
            assert_eq!(report.message, "Recording stop failed");
            assert_eq!(report.error.as_deref(), Some("recorder worker stopped unexpectedly"));
        },
        other => panic!("unexpected {other:?}"),
    }

    let (close, report) = cancel_outcome(&Ok(RecordingResult { wav_path: None, canceled: true }), false);
    assert!(close);
    assert_eq!(shown(&report), (State::Idle, "Recording canceled".into(), None));
    let (close, report) = cancel_outcome(&Err(RecorderError::NotRunning), false);
    assert!(!close);
    assert_eq!(
        shown(&report),
        (State::Error, "Cancel failed".into(), Some("recorder not running".into()))
    );
    assert!(cancel_outcome(&Err(RecorderError::Canceled), true).0);

    assert_eq!(
        shown(&pause_outcome(&Ok(RecorderState::Paused))),
        (State::Paused, "Recording paused".into(), None)
    );
    assert_eq!(
        shown(&pause_outcome(&Ok(RecorderState::Recording))),
        (State::Recording, "Recording resumed".into(), None)
    );
    assert!(pause_outcome(&Err(RecorderError::NotRunning)).is_none());
}
