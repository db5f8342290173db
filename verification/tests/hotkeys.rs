use stt_core::hotkey::capture::{allowed, modifier, Recorder, Update};
use stt_core::hotkey::hook::{Binding, HeldModifiers, HookFilter, HookVerdict, KeyMessage};
use stt_core::hotkey::{parse_hotkey, validate_bindings, HotkeyError, ParsedHotkey, MOD_WIN};

#[test]
fn rejects_invalid_and_duplicate_modifiers() {
    assert!(matches!(
        parse_hotkey("textctrrl+q"),
        Err(HotkeyError::UnsupportedModifier(_))
    ));
    assert!(matches!(parse_hotkey("ctrl++q"), Err(HotkeyError::EmptyModifier)));
    assert!(matches!(
        parse_hotkey("ctrl+control+q"),
        Err(HotkeyError::DuplicateModifier(_))
    ));
}

#[test]
fn normalizes_aliases_and_rejects_equivalent_bindings() {
    let error = validate_bindings("ctrl+alt+q", "ALT + CONTROL + Q", "alt+esc")
        .unwrap_err()
        .message();
    assert!(error.contains("PAUSE_KEY"));
    assert!(error.contains("duplicates START_KEY"));
    validate_bindings("control+alt+Q", "shift+F12", "menu+escape").unwrap();
}

#[test]
fn supports_key_aliases() {
    assert_eq!(parse_hotkey("kp1").unwrap().virtual_key, 0x61);
    assert_eq!(parse_hotkey("super+return").unwrap().modifiers, MOD_WIN);
    assert_eq!(parse_hotkey("F24").unwrap().virtual_key, 0x87);
}

#[test]
fn every_recordable_key_round_trips() {
    for vk in (0..256).filter(|vk| allowed(*vk)) {
        for modifiers in 0..8 {
            let key = ParsedHotkey {
                modifiers,
                virtual_key: vk,
            };
            assert_eq!(parse_hotkey(&stt_core::hotkey::capture::format(key, false)).unwrap(), key);
        }
    }
    assert_eq!(parse_hotkey("ctrl+;").unwrap().virtual_key, 0xba);
    assert_ne!(parse_hotkey("1").unwrap(), parse_hotkey("numpad1").unwrap());
}

#[test]
fn win_chords_read_back_from_configuration_text() {
    let key = ParsedHotkey {
        modifiers: MOD_WIN | 0x2,
        virtual_key: 0xe8,
    };
    let text = stt_core::hotkey::capture::format(key, false);
    assert_eq!(text, "ctrl+win+vk_e8");
    assert_eq!(parse_hotkey(&text).unwrap(), key);
    let volume = ParsedHotkey {
        modifiers: MOD_WIN | 0x4 | 0x1,
        virtual_key: 0xaf,
    };
    let text = stt_core::hotkey::capture::format(volume, false);
    assert_eq!(text, "shift+alt+win+volumeup");
    assert_eq!(parse_hotkey(&text).unwrap(), volume);
}

#[test]
fn records_on_final_release_and_ignores_repeat() {
    let mut r = Recorder::default();
    r.event(0xa2, true);
    r.event(0xa4, true);
    r.event(0x53, true);
    r.event(0x53, true);
    assert!(matches!(r.event(0xa2, false), Update::Preview(_)));
    r.event(0x53, false);
    assert_eq!(
        r.event(0xa4, false),
        Update::Complete(parse_hotkey("ctrl+alt+s").unwrap())
    );
    r.event(0x70, true);
    assert_eq!(
        r.event(0x70, false),
        Update::Complete(parse_hotkey("f1").unwrap())
    );
}

#[test]
fn forbidden_keys_poison_whole_chord() {
    for vk in [
        0x08, 0x09, 0x0d, 0x13, 0x14, 0x21, 0x22, 0x23, 0x24, 0x25, 0x26, 0x27, 0x28, 0x2c, 0x2d,
        0x2e, 0x5b, 0x5c, 0x5d, 0x90, 0x91,
    ] {
        assert!(!allowed(vk));
        let mut r = Recorder::default();
        r.event(vk, true);
        r.event(0x41, true);
        r.event(vk, false);
        assert_eq!(r.event(0x41, false), Update::Invalid);
        r.event(0x1b, true);
        assert_eq!(
            r.event(0x1b, false),
            Update::Complete(parse_hotkey("esc").unwrap())
        );
    }
}

#[test]
fn rejects_multiple_keys_and_pure_modifiers_and_entry_keys() {
    let mut r = Recorder::default();
    r.event(0x41, true);
    r.event(0x42, true);
    r.event(0x41, false);
    assert_eq!(r.event(0x42, false), Update::Invalid);
    r.event(0xa0, true);
    assert_eq!(r.event(0xa0, false), Update::Waiting);
    r.seed(&[0x09, 0xa0]);
    r.event(0x09, false);
    assert_eq!(r.event(0xa0, false), Update::Waiting);
}

#[test]
fn escape_and_symbols_keep_modifiers_in_either_release_order() {
    for (modifier_key, vk, spec) in [(0xa5, 0x1b, "alt+esc"), (0xa1, 0xbb, "shift+equals")] {
        for release_modifier_first in [false, true] {
            let mut r = Recorder::default();
            r.event(modifier_key, true);
            r.event(vk, true);
            let (first, last) = if release_modifier_first {
                (modifier_key, vk)
            } else {
                (vk, modifier_key)
            };
            assert!(matches!(r.event(first, false), Update::Preview(_)));
            assert_eq!(
                r.event(last, false),
                Update::Complete(parse_hotkey(spec).unwrap())
            );
        }
    }
}

#[test]
fn focus_entry_waits_for_held_keys_and_discard_resets_candidate() {
    let mut r = Recorder::default();
    r.seed(&[0xa0, 9]);
    r.event(0x41, true);
    r.event(9, false);
    r.event(0xa0, false);
    assert_eq!(r.event(0x41, false), Update::Waiting);
    r.event(0xa2, true);
    r.event(0x41, true);
    // Losing focus discards the recorder, keeping only the committed field value.
    r = Recorder::default();
    r.event(0x70, true);
    assert_eq!(
        r.event(0x70, false),
        Update::Complete(parse_hotkey("f1").unwrap())
    );
}

#[test]
fn modifier_keys_map_to_their_bits() {
    assert_eq!(modifier(0xa2), 0x0002);
    assert_eq!(modifier(0xa5), 0x0001);
    assert_eq!(modifier(0xa0), 0x0004);
    assert_eq!(modifier(0x41), 0);
}

#[test]
fn display_format_names_modifiers_and_key() {
    let key = parse_hotkey("ctrl+alt+q").unwrap();
    assert_eq!(parse_hotkey(&stt_core::hotkey::capture::format(key, true)).unwrap(), key);
    assert_eq!(parse_hotkey(&stt_core::hotkey::capture::format(key, false)).unwrap(), key);
}

#[test]
fn hotkey_error_messages() {
    assert_eq!(parse_hotkey("").unwrap_err().message(), "empty key");
    assert_eq!(
        parse_hotkey("ctrl+nokey").unwrap_err().message(),
        "unsupported key token: nokey"
    );
}

#[test]
fn vk_hex_codes_parse() {
    assert_eq!(parse_hotkey("vk_41").unwrap().virtual_key, 0x41);
    assert_eq!(parse_hotkey("ctrl+VK_BA").unwrap().virtual_key, 0xba);
}

fn held(control: bool, alt: bool, shift: bool, win: bool) -> HeldModifiers {
    HeldModifiers {
        control,
        alt,
        shift,
        win,
    }
}

#[test]
fn hook_fires_once_and_swallows_repeat_and_release() {
    let start = parse_hotkey("ctrl+alt+q").unwrap();
    let mut filter = HookFilter::new(vec![Binding {
        id: 1,
        virtual_key: start.virtual_key,
        modifiers: start.modifiers,
    }]);
    let q = start.virtual_key;
    let chord = held(true, true, false, false);
    // Missing modifiers: passed on.
    assert_eq!(
        filter.on_key(false, KeyMessage::Down, q, held(true, false, false, false)),
        HookVerdict::PassOn
    );
    // Extra modifiers do not block the binding.
    assert_eq!(
        filter.on_key(false, KeyMessage::Down, q, held(true, true, true, false)),
        HookVerdict::Fire(1)
    );
    assert_eq!(
        filter.on_key(false, KeyMessage::Down, q, chord),
        HookVerdict::Swallow
    );
    assert_eq!(
        filter.on_key(false, KeyMessage::Up, q, chord),
        HookVerdict::Swallow
    );
    assert_eq!(
        filter.on_key(false, KeyMessage::Up, q, chord),
        HookVerdict::PassOn
    );
    assert_eq!(
        filter.on_key(true, KeyMessage::Down, q, chord),
        HookVerdict::PassOn
    );
    assert_eq!(
        filter.on_key(false, KeyMessage::Down, q, chord),
        HookVerdict::Fire(1)
    );
}

#[test]
fn hotkey_case_does_not_matter() {
    assert_eq!(parse_hotkey("CTRL+Alt+Q").unwrap(), parse_hotkey("ctrl+alt+q").unwrap());
    assert_eq!(parse_hotkey("Shift+F12").unwrap(), parse_hotkey("shift+f12").unwrap());
    assert_eq!(
        parse_hotkey("Ctrl+Hyper+Q").unwrap_err().message(),
        parse_hotkey("ctrl+hyper+q").unwrap_err().message()
    );
}

#[test]
fn whitespace_order_and_aliases_do_not_change_a_hotkey() {
    let expected = parse_hotkey("ctrl+shift+escape").unwrap();
    assert_eq!(parse_hotkey(" Shift + CONTROL +  esc ").unwrap(), expected);
    assert_eq!(parse_hotkey("shift+ctrl+Esc").unwrap(), expected);
    assert_eq!(parse_hotkey("win+numpad1").unwrap(), parse_hotkey("META + Kp1").unwrap());
    assert_eq!(parse_hotkey("alt + super + return").unwrap(), parse_hotkey("win+menu+enter").unwrap());
    assert!(parse_hotkey("ctrl+control+q").is_err());
    assert!(parse_hotkey("control+ctrl+q").is_err());
}
