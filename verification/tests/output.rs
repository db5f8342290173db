use stt_core::clipboard::{ClipboardError, PasteEvent, PasteSession, PasteStep};
use stt_core::config::Config;
use stt_core::keyboard::{
    ctrl_v_sequence, send_ctrl_v, KeyEvent, KeyboardError, CTRL_SCAN_ARGUMENT, KEYEVENTF_KEYUP,
    KEYEVENTF_SCANCODE, VK_CONTROL, V_SCAN_CODE, V_SECOND_ARGUMENT,
};
use stt_core::text_input::{
    output_channel, unicode_batches, OutputChannel, TextInputError, UnicodeDelivery,
};

#[test]
fn compatibility_constants_match_keybd_event_1_1_2() {
    assert_eq!(0x11_u8, 17);
    assert_eq!(47_u8 + 0x80, 175);
    assert_eq!(0x0002_u32 | 0x0008, 0x000a);
    assert_eq!(VK_CONTROL, 17);
    assert_eq!(V_SECOND_ARGUMENT, 175);
    assert_eq!(KEYEVENTF_KEYUP | KEYEVENTF_SCANCODE, 0x000a);
}

#[test]
fn ctrl_v_sequence_releases_ctrl_first() {
    let events = ctrl_v_sequence();
    assert_eq!(
        events,
        [
            KeyEvent {
                virtual_key: VK_CONTROL,
                scan_code: CTRL_SCAN_ARGUMENT,
                flags: 0
            },
            KeyEvent {
                virtual_key: V_SCAN_CODE,
                scan_code: 175,
                flags: 0x0008
            },
            KeyEvent {
                virtual_key: 0x11,
                scan_code: 0x91,
                flags: 0x0002
            },
            KeyEvent {
                virtual_key: 47,
                scan_code: 175,
                flags: 0x000a
            },
        ]
    );
    assert_eq!(send_ctrl_v(true).unwrap(), events);
    assert_eq!(send_ctrl_v(false), Err(KeyboardError::UnsupportedPlatform));
}

#[test]
fn encoding_and_batch_boundaries() {
    assert!(unicode_batches("").is_empty());
    let text = format!("{}😀中\r\n\n\r\t", "a".repeat(127));
    let batches = unicode_batches(&text);
    assert_eq!(batches[0].len(), 127);
    assert_eq!(
        String::from_utf16(&batches.concat()).unwrap(),
        format!("{}😀中\r\r\r\t", "a".repeat(127))
    );
    for batch in batches {
        assert!(String::from_utf16(&batch).is_ok());
    }
}

/// Drives a Unicode delivery with a backend that inserts at most `limit`
/// events per call and optionally reports cancellation after a send.
fn deliver(text: &str, limit: usize, cancel_after_send: bool) -> (Result<(), TextInputError>, usize) {
    let mut delivery = UnicodeDelivery::new(text);
    let mut calls = 0;
    let mut canceled = false;
    loop {
        if canceled {
            return (Err(delivery.canceled()), calls);
        }
        let Some(batch) = delivery.current() else {
            return (Ok(()), calls);
        };
        let inserted = (batch.len() * 2).min(limit);
        calls += 1;
        if cancel_after_send {
            canceled = true;
        }
        if let Err(error) = delivery.record_sent(inserted, 0) {
            return (Err(error), calls);
        }
    }
}

#[test]
fn complete_send_and_empty_text() {
    let (result, calls) = deliver("", usize::MAX, false);
    result.unwrap();
    assert_eq!(calls, 0);
    let (result, calls) = deliver(&"a".repeat(300), usize::MAX, false);
    result.unwrap();
    assert_eq!(calls, 3);
}

#[test]
fn held_modifiers_allow_cancellation_without_injection() {
    let delivery = UnicodeDelivery::new("abc");
    assert!(matches!(
        delivery.canceled(),
        TextInputError::Canceled { sent: 0 }
    ));
    assert!(matches!(
        delivery.modifiers_timed_out(),
        TextInputError::ModifiersHeld
    ));
}

#[test]
fn partial_or_zero_send_stops_without_retry() {
    for limit in [0, 1, 3] {
        let (result, calls) = deliver(&"中".repeat(300), limit, false);
        assert!(matches!(result, Err(TextInputError::Send { sent, .. }) if sent == limit));
        assert_eq!(calls, 1);
    }
}

#[test]
fn cancellation_stops_remaining_batches() {
    let (result, calls) = deliver(&"a".repeat(300), usize::MAX, true);
    assert!(matches!(result, Err(TextInputError::Canceled { sent: 256 })));
    assert_eq!(calls, 1);
}

#[test]
fn selected_channel_error_is_not_replaced_by_fallback() {
    let mut config = Config::default();
    assert_eq!(output_channel(&config), OutputChannel::Clipboard);
    config.use_sendinput = true;
    assert_eq!(output_channel(&config), OutputChannel::UnicodeInput);
}

#[test]
fn text_input_statuses() {
    let restore = TextInputError::Clipboard(ClipboardError::Restore {
        paste_sent: true,
        message: "x".into(),
    });
    assert_eq!(restore.status(), "Paste sent; clipboard restore failed");
    assert!(!restore.canceled_before_output());
    let canceled = TextInputError::Clipboard(ClipboardError::Canceled);
    assert_eq!(canceled.status(), "Paste failed");
    assert!(canceled.canceled_before_output());
    assert!(TextInputError::Canceled { sent: 0 }.canceled_before_output());
    assert!(!TextInputError::Canceled { sent: 2 }.canceled_before_output());
    assert_eq!(
        TextInputError::Send {
            sent: 2,
            total: 4,
            code: 5
        }
        .status(),
        "Input incomplete; text may already be present"
    );
    assert_eq!(
        TextInputError::Send {
            sent: 2,
            total: 4,
            code: 5
        }
        .message(),
        "SendInput inserted 2 of 4 events; system error: 5"
    );
    assert_eq!(TextInputError::ModifiersHeld.status(), "Text input failed");
}

// ---------------------------------------------------------------------------
// Clipboard paste sessions driven by a scripted clipboard.

#[derive(Default)]
struct Fake {
    calls: Vec<String>,
    cancel_on_wait: Option<usize>,
    waits: usize,
    fail_write_at: Option<usize>,
    writes: usize,
    send_error: bool,
    canceled: bool,
}

impl Fake {
    fn run(&mut self, text: &str) -> Result<(), ClipboardError> {
        let (mut session, mut step) = PasteSession::start(text.to_string(), self.canceled);
        loop {
            let event = match step {
                PasteStep::Finish(result) => return result,
                PasteStep::ReadOriginal => {
                    self.calls.push("read".into());
                    PasteEvent::Read(Ok("original".into()))
                }
                PasteStep::Write(text) | PasteStep::Restore(text) => {
                    let restoring = matches!(session.stage, stt_core::clipboard::PasteStage::Restoring);
                    self.calls.push(format!("write:{text}"));
                    self.writes += 1;
                    let result = if self.fail_write_at == Some(self.writes) {
                        Err("write failed".to_string())
                    } else {
                        Ok(())
                    };
                    if restoring {
                        PasteEvent::Restored(result)
                    } else {
                        PasteEvent::Written(result)
                    }
                }
                PasteStep::WaitAfterWrite | PasteStep::WaitAfterSend => {
                    self.calls.push("wait".into());
                    self.waits += 1;
                    if self.cancel_on_wait == Some(self.waits) {
                        self.canceled = true;
                        PasteEvent::Waited(Err(ClipboardError::Canceled))
                    } else {
                        PasteEvent::Waited(Ok(()))
                    }
                }
                PasteStep::SendPaste => {
                    self.calls.push("send".into());
                    PasteEvent::Sent(if self.send_error {
                        Err("send failed".into())
                    } else {
                        Ok(())
                    })
                }
            };
            step = session.next(event, self.canceled);
        }
    }
}

#[test]
fn writes_sends_and_restores_in_order() {
    let mut fake = Fake::default();
    fake.run("transcription").unwrap();
    assert_eq!(
        fake.calls,
        [
            "read",
            "write:transcription",
            "wait",
            "send",
            "wait",
            "write:original"
        ]
    );
}

#[test]
fn cancellation_before_and_after_send_restores() {
    for wait in [1, 2] {
        let mut fake = Fake {
            cancel_on_wait: Some(wait),
            ..Fake::default()
        };
        let error = fake.run("transcription").unwrap_err();
        assert!(matches!(error, ClipboardError::Canceled));
        assert!(fake.calls.iter().any(|call| call == "write:original"));
    }
}

#[test]
fn restore_after_sent_is_a_distinct_error() {
    let mut fake = Fake {
        fail_write_at: Some(2),
        ..Fake::default()
    };
    let error = fake.run("transcription").unwrap_err();
    assert!(error.paste_was_sent_before_restore_failure());
}

#[test]
fn send_and_restore_errors_are_both_preserved() {
    let mut fake = Fake {
        send_error: true,
        fail_write_at: Some(2),
        ..Fake::default()
    };
    let error = fake.run("transcription").unwrap_err();
    assert!(matches!(
        error,
        ClipboardError::OperationAndRestore {
            paste_sent: false,
            ..
        }
    ));
    assert!(error.message().contains("send paste shortcut"));
    assert!(error.message().contains("restoring clipboard failed"));
}

#[test]
fn canceled_before_start_never_touches_the_clipboard() {
    let mut fake = Fake {
        canceled: true,
        ..Fake::default()
    };
    assert!(matches!(
        fake.run("transcription"),
        Err(ClipboardError::Canceled)
    ));
    assert!(fake.calls.is_empty());
}
