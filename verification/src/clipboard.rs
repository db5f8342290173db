//! Pasting through the clipboard: read the old text, write the new text,
//! wait, send Ctrl+V, wait, and always put the old text back once it was
//! read. The session below decides each step; the caller performs it (the
//! clipboard calls and the cancellable waits) and reports what happened.
use vstd::prelude::*;

use crate::text::{push_str, string_of};

verus! {

/// Why a paste did not complete.
#[derive(Debug)]
pub enum ClipboardError {
    Canceled,
    Read(String),
    Write(String),
    Send(String),
    Restore { paste_sent: bool, message: String },
    OperationAndRestore { operation: Box<ClipboardError>, paste_sent: bool, restore: String },
    UnsupportedPlatform,
}

impl ClipboardError {
    pub open spec fn text(&self) -> Seq<char>
        decreases self,
    {
        match self {
            ClipboardError::Canceled => "clipboard operation canceled"@,
            ClipboardError::Read(m) => "read original clipboard: "@ + m@,
            ClipboardError::Write(m) => "write paste text to clipboard: "@ + m@,
            ClipboardError::Send(m) => "send paste shortcut: "@ + m@,
            ClipboardError::Restore { message, .. } => "restoring clipboard failed: "@ + message@,
            ClipboardError::OperationAndRestore { operation, restore, .. } => operation.text()
                + "; restoring clipboard failed: "@ + restore@,
            ClipboardError::UnsupportedPlatform => "clipboard is only available on Windows"@,
        }
    }

    /// The error's message.
    pub fn message(&self) -> (r: String)
        ensures
            r@ == self.text(),
        decreases self,
    {
        let mut out: Vec<char> = Vec::new();
        match self {
            ClipboardError::Canceled => push_str(&mut out, "clipboard operation canceled"),
            ClipboardError::Read(m) => {
                push_str(&mut out, "read original clipboard: ");
                push_str(&mut out, m.as_str());
            },
            ClipboardError::Write(m) => {
                push_str(&mut out, "write paste text to clipboard: ");
                push_str(&mut out, m.as_str());
            },
            ClipboardError::Send(m) => {
                push_str(&mut out, "send paste shortcut: ");
                push_str(&mut out, m.as_str());
            },
            ClipboardError::Restore { message, .. } => {
                push_str(&mut out, "restoring clipboard failed: ");
                push_str(&mut out, message.as_str());
            },
            ClipboardError::OperationAndRestore { operation, restore, .. } => {
                let first = operation.message();
                push_str(&mut out, first.as_str());
                push_str(&mut out, "; restoring clipboard failed: ");
                push_str(&mut out, restore.as_str());
            },
            ClipboardError::UnsupportedPlatform => push_str(
                &mut out,
                "clipboard is only available on Windows",
            ),
        }
        string_of(out.as_slice())
    }

    /// Whether Ctrl+V had been sent before restoring the clipboard failed.
    pub fn paste_was_sent_before_restore_failure(&self) -> (r: bool)
        ensures
            r == match self {
                ClipboardError::Restore { paste_sent, .. } => *paste_sent,
                ClipboardError::OperationAndRestore { paste_sent, .. } => *paste_sent,
                _ => false,
            },
    {
        match self {
            ClipboardError::Restore { paste_sent, .. } => *paste_sent,
            ClipboardError::OperationAndRestore { paste_sent, .. } => *paste_sent,
            _ => false,
        }
    }
}

/// Where a paste session stands.
#[derive(Debug, Clone, Copy, PartialEq, Eq, Structural)]
pub enum PasteStage {
    Reading,
    Writing,
    WaitingAfterWrite,
    Sending,
    WaitingAfterSend,
    Restoring,
    Done,
}

/// What the caller does next.
#[derive(Debug)]
pub enum PasteStep {
    /// Read the clipboard's current text.
    ReadOriginal,
    /// Put this text on the clipboard.
    Write(String),
    /// Wait the write delay (cancellable).
    WaitAfterWrite,
    /// Send Ctrl+V.
    SendPaste,
    /// Wait the restore delay (cancellable).
    WaitAfterSend,
    /// Put this (the original) text back on the clipboard.
    Restore(String),
    /// The paste is over, with this result.
    Finish(Result<(), ClipboardError>),
}

/// What happened when the caller performed a step.
#[derive(Debug)]
pub enum PasteEvent {
    Read(Result<String, String>),
    Written(Result<(), String>),
    Waited(Result<(), ClipboardError>),
    Sent(Result<(), String>),
    Restored(Result<(), String>),
}

/// A paste in progress.
pub struct PasteSession {
    pub stage: PasteStage,
    pub text: String,
    pub original: String,
    pub paste_sent: bool,
    pub operation: Result<(), ClipboardError>,
}

/// The result once the original text was written back (or not).
pub open spec fn combined(
    operation: Result<(), ClipboardError>,
    paste_sent: bool,
    restore: Result<(), String>,
) -> Result<(), ClipboardError> {
    match (operation, restore) {
        (Ok(()), Ok(())) => Ok(()),
        (Ok(()), Err(message)) => Err(ClipboardError::Restore { paste_sent, message }),
        (Err(e), Ok(())) => Err(e),
        (Err(e), Err(restore)) => Err(
            ClipboardError::OperationAndRestore { operation: Box::new(e), paste_sent, restore },
        ),
    }
}

/// Whether `event` reports the step that a session in `stage` asked for.
pub open spec fn event_fits(stage: PasteStage, event: PasteEvent) -> bool {
    match (stage, event) {
        (PasteStage::Reading, PasteEvent::Read(_)) => true,
        (PasteStage::Writing, PasteEvent::Written(_)) => true,
        (PasteStage::WaitingAfterWrite, PasteEvent::Waited(_)) => true,
        (PasteStage::Sending, PasteEvent::Sent(_)) => true,
        (PasteStage::WaitingAfterSend, PasteEvent::Waited(_)) => true,
        (PasteStage::Restoring, PasteEvent::Restored(_)) => true,
        _ => false,
    }
}

pub open spec fn with_stage(s: PasteSession, stage: PasteStage) -> PasteSession {
    PasteSession { stage, ..s }
}

/// The failed operation, then the original text goes back.
pub open spec fn restoring(s: PasteSession, e: ClipboardError) -> (PasteSession, PasteStep) {
    (
        PasteSession { stage: PasteStage::Restoring, operation: Err(e), ..s },
        PasteStep::Restore(s.original),
    )
}

/// One step of a paste: the session after `event` and what to do next.
pub open spec fn transition(s: PasteSession, event: PasteEvent, canceled: bool) -> (
    PasteSession,
    PasteStep,
) {
    match event {
        PasteEvent::Read(Err(m)) => (
            with_stage(s, PasteStage::Done),
            PasteStep::Finish(Err(ClipboardError::Read(m))),
        ),
        PasteEvent::Read(Ok(original)) => if canceled {
            (with_stage(s, PasteStage::Done), PasteStep::Finish(Err(ClipboardError::Canceled)))
        } else {
            (
                PasteSession { stage: PasteStage::Writing, original, ..s },
                PasteStep::Write(s.text),
            )
        },
        PasteEvent::Written(Err(m)) => restoring(s, ClipboardError::Write(m)),
        PasteEvent::Written(Ok(())) => (
            with_stage(s, PasteStage::WaitingAfterWrite),
            PasteStep::WaitAfterWrite,
        ),
        PasteEvent::Waited(Err(e)) => restoring(s, e),
        PasteEvent::Waited(Ok(())) => if s.stage == PasteStage::WaitingAfterSend {
            (with_stage(s, PasteStage::Restoring), PasteStep::Restore(s.original))
        } else if canceled {
            restoring(s, ClipboardError::Canceled)
        } else {
            (with_stage(s, PasteStage::Sending), PasteStep::SendPaste)
        },
        PasteEvent::Sent(Err(m)) => restoring(s, ClipboardError::Send(m)),
        PasteEvent::Sent(Ok(())) => (
            PasteSession { stage: PasteStage::WaitingAfterSend, paste_sent: true, ..s },
            PasteStep::WaitAfterSend,
        ),
        PasteEvent::Restored(restore) => (
            PasteSession { stage: PasteStage::Done, operation: Ok(()), ..s },
            PasteStep::Finish(combined(s.operation, s.paste_sent, restore)),
        ),
    }
}

impl PasteSession {
    /// Starts pasting `text`. A session canceled before it starts finishes
    /// at once without touching the clipboard.
    pub fn start(text: String, canceled: bool) -> (r: (PasteSession, PasteStep))
        ensures
            r.0.text == text,
            !r.0.paste_sent,
            r.0.operation is Ok,
            canceled ==> r.0.stage == PasteStage::Done && r.1 == PasteStep::Finish(
                Err(ClipboardError::Canceled),
            ),
            !canceled ==> r.0.stage == PasteStage::Reading && r.1 == PasteStep::ReadOriginal,
    {
        let stage = if canceled {
            PasteStage::Done
        } else {
            PasteStage::Reading
        };
        let session = PasteSession {
            stage,
            text,
            original: String::new(),
            paste_sent: false,
            operation: Ok(()),
        };
        if canceled {
            (session, PasteStep::Finish(Err(ClipboardError::Canceled)))
        } else {
            (session, PasteStep::ReadOriginal)
        }
    }

    /// Takes the outcome of the step asked for last and returns the next
    /// one (see [`transition`]); `canceled` is the cancellation state when
    /// the outcome is reported.
    pub fn next(&mut self, event: PasteEvent, canceled: bool) -> (r: PasteStep)
        requires
            event_fits(old(self).stage, event),
        ensures
            (*final(self), r) == transition(*old(self), event, canceled),
    {
        match event {
            PasteEvent::Read(Err(m)) => {
                self.stage = PasteStage::Done;
                PasteStep::Finish(Err(ClipboardError::Read(m)))
            },
            PasteEvent::Read(Ok(original)) => {
                if canceled {
                    self.stage = PasteStage::Done;
                    PasteStep::Finish(Err(ClipboardError::Canceled))
                } else {
                    self.stage = PasteStage::Writing;
                    self.original = original;
                    PasteStep::Write(self.text.clone())
                }
            },
            PasteEvent::Written(Err(m)) => self.restore_after(ClipboardError::Write(m)),
            PasteEvent::Written(Ok(())) => {
                self.stage = PasteStage::WaitingAfterWrite;
                PasteStep::WaitAfterWrite
            },
            PasteEvent::Waited(Err(e)) => self.restore_after(e),
            PasteEvent::Waited(Ok(())) => {
                if self.stage == PasteStage::WaitingAfterSend {
                    self.stage = PasteStage::Restoring;
                    PasteStep::Restore(self.original.clone())
                } else if canceled {
                    self.restore_after(ClipboardError::Canceled)
                } else {
                    self.stage = PasteStage::Sending;
                    PasteStep::SendPaste
                }
            },
            PasteEvent::Sent(Err(m)) => self.restore_after(ClipboardError::Send(m)),
            PasteEvent::Sent(Ok(())) => {
                self.stage = PasteStage::WaitingAfterSend;
                self.paste_sent = true;
                PasteStep::WaitAfterSend
            },
            PasteEvent::Restored(restore) => {
                self.stage = PasteStage::Done;
                let mut operation: Result<(), ClipboardError> = Ok(());
                std::mem::swap(&mut operation, &mut self.operation);
                let result = match (operation, restore) {
                    (Ok(()), Ok(())) => Ok(()),
                    (Ok(()), Err(message)) => Err(
                        ClipboardError::Restore { paste_sent: self.paste_sent, message },
                    ),
                    (Err(e), Ok(())) => Err(e),
                    (Err(e), Err(restore)) => Err(
                        ClipboardError::OperationAndRestore {
                            operation: Box::new(e),
                            paste_sent: self.paste_sent,
                            restore,
                        },
                    ),
                };
                PasteStep::Finish(result)
            },
        }
    }

    fn restore_after(&mut self, e: ClipboardError) -> (r: PasteStep)
        ensures
            (*final(self), r) == restoring(*old(self), e),
    {
        self.stage = PasteStage::Restoring;
        self.operation = Err(e);
        PasteStep::Restore(self.original.clone())
    }
}

/// The stages in which the original text has been read and not yet
/// written back.
pub open spec fn holds_original(stage: PasteStage) -> bool {
    ||| stage == PasteStage::Writing
    ||| stage == PasteStage::WaitingAfterWrite
    ||| stage == PasteStage::Sending
    ||| stage == PasteStage::WaitingAfterSend
}

/// Once the original text has been read, whatever happens (failure,
/// cancellation, success) the session goes on until it writes that same
/// text back: it never finishes from these stages, and it keeps the text.
pub proof fn restore_follows_read(s: PasteSession, event: PasteEvent, canceled: bool)
    requires
        holds_original(s.stage),
        event_fits(s.stage, event),
    ensures
        ({
            let (t, step) = transition(s, event, canceled);
            &&& t.original == s.original
            &&& holds_original(t.stage) || (t.stage == PasteStage::Restoring && step
                == PasteStep::Restore(s.original))
            &&& !(step is Finish)
        }),
{
}

/// `paste_sent` records exactly whether Ctrl+V went out: it becomes true
/// only when sending succeeds and never becomes false again.
pub proof fn paste_sent_records_the_send(s: PasteSession, event: PasteEvent, canceled: bool)
    requires
        event_fits(s.stage, event),
    ensures
        transition(s, event, canceled).0.paste_sent == (s.paste_sent || (s.stage
            == PasteStage::Sending && event matches PasteEvent::Sent(Ok(_)))),
{
}

/// A failed restore is reported with whether the paste had been sent, so a
/// restore failure after the paste stays distinct from one before it.
pub proof fn restore_failure_keeps_paste_sent(
    operation: Result<(), ClipboardError>,
    paste_sent: bool,
    message: String,
)
    ensures
        combined(operation, paste_sent, Err(message)) is Err,
        match combined(operation, paste_sent, Err(message)) {
            Err(ClipboardError::Restore { paste_sent: p, .. }) => p == paste_sent,
            Err(ClipboardError::OperationAndRestore { paste_sent: p, .. }) => p == paste_sent,
            _ => false,
        },
{
}


/// The steps a session asks for as it is handed `events` in turn (each with
/// whether the paste was canceled by then).
pub open spec fn steps(s: PasteSession, events: Seq<(PasteEvent, bool)>) -> Seq<PasteStep>
    decreases events.len(),
{
    if events.len() == 0 {
        Seq::empty()
    } else {
        let (t, step) = transition(s, events[0].0, events[0].1);
        seq![step] + steps(t, events.drop_first())
    }
}

/// Each event reports the step that the session asked for, and none comes
/// after the session is done.
pub open spec fn events_fit(s: PasteSession, events: Seq<(PasteEvent, bool)>) -> bool
    decreases events.len(),
{
    events.len() == 0 || (s.stage != PasteStage::Done && event_fits(s.stage, events[0].0)
        && events_fit(transition(s, events[0].0, events[0].1).0, events.drop_first()))
}

proof fn lemma_restoring_ends(s: PasteSession, events: Seq<(PasteEvent, bool)>)
    requires
        s.stage == PasteStage::Restoring,
        events_fit(s, events),
    ensures
        steps(s, events).len() <= 1,
        steps(s, events).len() == 1 ==> steps(s, events)[0] is Finish,
{
    if events.len() > 0 {
        let t = transition(s, events[0].0, events[0].1).0;
        assert(t.stage == PasteStage::Done);
        let rest = events.drop_first();
        if rest.len() > 0 {
            assert(!events_fit(t, rest));
        }
        assert(steps(t, rest) =~= Seq::<PasteStep>::empty());
    }
}

/// Once the original text has been read, a paste that finishes has written
/// that text back as its last clipboard step, whatever failed or was
/// canceled on the way.
pub proof fn original_is_restored_last(s: PasteSession, events: Seq<(PasteEvent, bool)>)
    requires
        holds_original(s.stage),
        events_fit(s, events),
        steps(s, events).len() > 0,
        steps(s, events).last() is Finish,
    ensures
        steps(s, events).len() >= 2,
        steps(s, events)[steps(s, events).len() - 2] == PasteStep::Restore(s.original),
    decreases events.len(),
{
    let (t, step) = transition(s, events[0].0, events[0].1);
    let rest = events.drop_first();
    restore_follows_read(s, events[0].0, events[0].1);
    let tail = steps(t, rest);
    assert(steps(s, events) == seq![step] + tail);
    if holds_original(t.stage) {
        assert(tail.len() > 0);
        assert(tail.last() == steps(s, events).last());
        original_is_restored_last(t, rest);
        assert(steps(s, events)[steps(s, events).len() - 2] == tail[tail.len() - 2]);
    } else {
        lemma_restoring_ends(t, rest);
        assert(tail.len() == 1);
    }
}

} // verus!
