use stt_core::cache::{extension_with_dot, temporary_file_name};
use stt_core::hotkey::validate_bindings;
use stt_core::layout::{scrollbar_step, BarAction, BarEvent, BarState, Metrics};
use stt_core::runtime::{Event, State};
use stt_core::window_events::{
    main_window_step, settings_step, PointerEvent, PointerState, ScreenPoint, SettingsAction,
    SettingsEvent, SettingsUi, WindowCommand, BN_CLICKED, COMMAND_MINIMAL, COMMAND_QUIT,
    COMMAND_SETTINGS, EN_SETFOCUS, FIELD_COUNT, ID_CANCEL, ID_FIELD_BASE, ID_LANGUAGE,
    ID_LANGUAGE_ITEM_BASE, ID_PAGE_BASE, ID_SAVE, TRAY_DOUBLE_CLICK, TRAY_RIGHT_UP,
};

fn event(state: State, retry_available: bool) -> Event {
    Event { state, message: String::new(), error: String::new(), retry_available }
}

fn pointer(minimal: bool) -> PointerState {
    PointerState {
        event: event(State::Idle, false),
        minimal,
        pressed: None,
        hovered: None,
        tracking: false,
        drag_active: false,
        drag_moved: false,
        start_cursor: ScreenPoint { x: 0, y: 0 },
        start_window: ScreenPoint { x: 0, y: 0 },
        dpi: 96,
        language: 0,
    }
}

fn point(x: i32, y: i32) -> ScreenPoint {
    ScreenPoint { x, y }
}

fn bar() -> BarState {
    BarState {
        drag: None,
        hot: false,
        wheel: 0,
        horizontal: false,
        dpi: 96,
        extent: 0,
        offset: 0,
    }
}

fn settings() -> SettingsUi {
    SettingsUi {
        active_group: 0,
        language_open: false,
        language: 0,
        saving: false,
        booleans: vec![false; FIELD_COUNT],
        dpi: 96,
    }
}

fn clicked(id: usize) -> SettingsEvent {
    SettingsEvent::Command { id, notification: BN_CLICKED }
}

// ---------------------------------------------------------------------------
// Scrollbar

#[test]
fn scrollbar_press_on_thumb_starts_a_drag() {
    // 100 px track, 10 px rows, 50 rows: a page of 10, last index 40, a
    // 20 px thumb at the top.
    let m = Metrics::new(100, 10, 50, 0, 8);
    assert_eq!((m.page, m.max, m.thumb, m.top), (10, 40, 20, 0));
    let (s, a) = scrollbar_step(bar(), BarEvent::Press(5), m, 0);
    assert_eq!(s.drag, Some(5));
    assert!(a.capture && a.redraw);
    assert_eq!(a.scroll_to, None);
}

#[test]
fn scrollbar_press_off_thumb_pages_and_clamps() {
    let m = Metrics::new(100, 10, 50, 0, 8);
    let (s, a) = scrollbar_step(bar(), BarEvent::Press(50), m, 0);
    assert_eq!(s, bar());
    assert_eq!(a.scroll_to, Some(10));
    let (_, a) = scrollbar_step(bar(), BarEvent::Press(50), m, 35);
    assert_eq!(a.scroll_to, Some(40));
    let m = Metrics::new(100, 10, 50, 20, 8);
    assert_eq!(m.top, 40);
    let (_, a) = scrollbar_step(bar(), BarEvent::Press(10), m, 20);
    assert_eq!(a.scroll_to, Some(10));
    let (_, a) = scrollbar_step(bar(), BarEvent::Press(10), m, 4);
    assert_eq!(a.scroll_to, Some(0));
}

#[test]
fn scrollbar_press_without_scroll_range_does_nothing() {
    let m = Metrics::new(100, 10, 5, 0, 8);
    assert_eq!(m.max, 0);
    let (s, a) = scrollbar_step(bar(), BarEvent::Press(5), m, 0);
    assert_eq!(s, bar());
    assert_eq!(
        a,
        BarAction {
            scroll_to: None,
            capture: false,
            release_capture: false,
            track_leave: false,
            redraw: false
        }
    );
}

#[test]
fn scrollbar_drag_follows_the_pointer() {
    let m = Metrics::new(100, 10, 50, 0, 8);
    let dragging = BarState { drag: Some(5), ..bar() };
    // Thumb offset 40 of a travel of 80 is index 20.
    let (s, a) = scrollbar_step(dragging, BarEvent::Move(45), m, 0);
    assert!(s.hot);
    assert!(a.track_leave && a.redraw);
    assert_eq!(a.scroll_to, Some(20));
    let (_, a) = scrollbar_step(s, BarEvent::Move(500), m, 0);
    assert!(!a.track_leave);
    assert_eq!(a.scroll_to, Some(40));
    let (s, a) = scrollbar_step(s, BarEvent::Release, m, 0);
    assert_eq!(s.drag, None);
    assert!(a.release_capture);
    let (_, a) = scrollbar_step(s, BarEvent::Release, m, 0);
    assert!(!a.release_capture);
}

#[test]
fn scrollbar_wheel_keeps_the_unused_part_of_a_notch() {
    let m = Metrics::new(100, 10, 50, 0, 8);
    let (s, a) = scrollbar_step(
        bar(),
        BarEvent::Wheel { delta: -240, horizontal_wheel: false, lines: 3 },
        m,
        0,
    );
    assert_eq!(s.wheel, 0);
    assert_eq!(a.scroll_to, Some(6));
    let (s, a) = scrollbar_step(
        BarState { wheel: 50, ..bar() },
        BarEvent::Wheel { delta: 100, horizontal_wheel: false, lines: 3 },
        m,
        10,
    );
    assert_eq!(s.wheel, 30);
    assert_eq!(a.scroll_to, Some(7));
    let (s, a) = scrollbar_step(
        BarState { wheel: -50, ..bar() },
        BarEvent::Wheel { delta: -100, horizontal_wheel: false, lines: 3 },
        m,
        10,
    );
    assert_eq!(s.wheel, -30);
    assert_eq!(a.scroll_to, Some(13));
}

#[test]
fn scrollbar_wheel_pages_when_the_system_says_so() {
    let m = Metrics::new(100, 10, 50, 0, 8);
    let (_, a) = scrollbar_step(
        bar(),
        BarEvent::Wheel { delta: -120, horizontal_wheel: false, lines: u32::MAX },
        m,
        3,
    );
    assert_eq!(a.scroll_to, Some(13));
    // Many lines per notch are limited to a page.
    let (_, a) = scrollbar_step(
        bar(),
        BarEvent::Wheel { delta: -120, horizontal_wheel: false, lines: 50 },
        m,
        3,
    );
    assert_eq!(a.scroll_to, Some(13));
    // A horizontal wheel turns the other way.
    let (_, a) = scrollbar_step(
        bar(),
        BarEvent::Wheel { delta: 120, horizontal_wheel: true, lines: 2 },
        m,
        3,
    );
    assert_eq!(a.scroll_to, Some(5));
}

#[test]
fn horizontal_scrollbar_keys_and_offsets() {
    let m = Metrics::new(100, 1, 300, 0, 8);
    let h = BarState { horizontal: true, offset: 10, ..bar() };
    let (_, a) = scrollbar_step(h, BarEvent::Key { left: true }, m, 10);
    assert_eq!(a.scroll_to, Some(0));
    let (_, a) = scrollbar_step(h, BarEvent::Key { left: false }, m, 10);
    assert_eq!(a.scroll_to, Some(34));
    let (_, a) = scrollbar_step(bar(), BarEvent::Key { left: false }, m, 10);
    assert_eq!(a.scroll_to, None);
    let (s, a) = scrollbar_step(h, BarEvent::SetOffset(1000), m, 10);
    assert_eq!(s.offset, m.max);
    assert!(a.redraw);
    let (s, _) = scrollbar_step(h, BarEvent::SetOffset(-5), m, 10);
    assert_eq!(s.offset, 0);
    let (s, _) = scrollbar_step(h, BarEvent::UpdateDpi { dpi: 144, extent: 900 }, m, 10);
    assert_eq!((s.dpi, s.extent), (144, 900));
}

#[test]
fn hiding_a_scrollbar_forgets_drag_hover_and_wheel() {
    let m = Metrics::new(100, 10, 50, 0, 8);
    let s = BarState { drag: Some(3), hot: true, wheel: 40, ..bar() };
    let (t, a) = scrollbar_step(s, BarEvent::Hidden, m, 0);
    assert_eq!((t.drag, t.hot, t.wheel), (None, false, 0));
    assert!(a.release_capture);
    let (t, a) = scrollbar_step(s, BarEvent::Leave, m, 0);
    assert!(!t.hot);
    assert!(a.redraw);
    let (t, _) = scrollbar_step(s, BarEvent::CaptureChanged, m, 0);
    assert_eq!(t.drag, None);
}

// ---------------------------------------------------------------------------
// Floating window

#[test]
fn click_on_a_button_runs_its_command() {
    // The record button spans x 19..51, y 20..52 in the full window.
    let (s, a) = main_window_step(
        pointer(false),
        PointerEvent::Press { x: 20, y: 30, cursor: point(500, 500), window: point(400, 400) },
    );
    assert_eq!(s.pressed, Some(0));
    assert!(!s.drag_active);
    assert!(a.capture && a.redraw);
    let (s, a) = main_window_step(s, PointerEvent::Release { x: 25, y: 35 });
    assert_eq!(a.command, WindowCommand::ToggleRecording);
    assert!(a.release_capture);
    assert_eq!(s.pressed, None);
    assert_eq!(s.hovered, Some(0));
    assert!(a.hover_changed);
}

#[test]
fn release_over_another_button_does_not_click() {
    let (s, _) = main_window_step(
        pointer(false),
        PointerEvent::Press { x: 20, y: 30, cursor: point(0, 0), window: point(0, 0) },
    );
    // The settings button spans x 133..165.
    let (_, a) = main_window_step(s, PointerEvent::Release { x: 140, y: 30 });
    assert_eq!(a.command, WindowCommand::Nothing);
}

#[test]
fn disabled_buttons_do_not_click() {
    // Pause (x 57..89) is disabled while idle.
    let (s, _) = main_window_step(
        pointer(false),
        PointerEvent::Press { x: 60, y: 30, cursor: point(0, 0), window: point(0, 0) },
    );
    assert_eq!(s.pressed, Some(1));
    let (s, a) = main_window_step(s, PointerEvent::Release { x: 60, y: 30 });
    assert_eq!(a.command, WindowCommand::Nothing);
    assert_eq!(s.hovered, None);
    // Cancel (x 95..127) offers a retry while a recording is kept.
    let mut p = pointer(false);
    p.event = event(State::Idle, true);
    let (s, _) = main_window_step(
        p,
        PointerEvent::Press { x: 100, y: 30, cursor: point(0, 0), window: point(0, 0) },
    );
    let (_, a) = main_window_step(s, PointerEvent::Release { x: 100, y: 30 });
    assert_eq!(a.command, WindowCommand::Cancel);
}

#[test]
fn dragging_moves_the_window_after_the_threshold() {
    let (s, a) = main_window_step(
        pointer(false),
        PointerEvent::Press { x: 2, y: 2, cursor: point(500, 300), window: point(400, 250) },
    );
    assert!(s.drag_active && !s.drag_moved);
    assert_eq!(s.pressed, None);
    assert!(a.capture);
    // Three pixels are under the 4 px threshold at 96 dpi.
    let (s, a) = main_window_step(s, PointerEvent::Move { x: 4, y: 3, cursor: point(502, 301) });
    assert!(!s.drag_moved);
    assert_eq!(a.move_window, None);
    assert!(a.track_leave);
    let (s, a) = main_window_step(s, PointerEvent::Move { x: 5, y: 3, cursor: point(503, 301) });
    assert!(s.drag_moved);
    assert_eq!(a.move_window, Some(point(403, 251)));
    let (s, a) = main_window_step(s, PointerEvent::Move { x: 0, y: 0, cursor: point(490, 290) });
    assert_eq!(a.move_window, Some(point(390, 240)));
    let (s, a) = main_window_step(s, PointerEvent::Release { x: 0, y: 0 });
    assert!(!s.drag_active && !s.drag_moved);
    assert!(a.release_capture);
    assert_eq!(a.command, WindowCommand::Nothing);
}

#[test]
fn drag_threshold_scales_with_dpi() {
    let mut p = pointer(false);
    p.dpi = 192;
    let (s, _) = main_window_step(
        p,
        PointerEvent::Press { x: 2, y: 2, cursor: point(0, 0), window: point(0, 0) },
    );
    let (s, a) = main_window_step(s, PointerEvent::Move { x: 2, y: 2, cursor: point(5, -2) });
    assert!(!s.drag_moved);
    assert_eq!(a.move_window, None);
    let (s, a) = main_window_step(s, PointerEvent::Move { x: 2, y: 2, cursor: point(6, -2) });
    assert!(s.drag_moved);
    assert_eq!(a.move_window, Some(point(6, -2)));
}

#[test]
fn minimal_window_drags_from_buttons_and_clicks_when_still() {
    // In the minimal window the record button spans x 12..44, y 7..39.
    let (s, a) = main_window_step(
        pointer(true),
        PointerEvent::Press { x: 15, y: 10, cursor: point(100, 100), window: point(50, 50) },
    );
    assert!(s.drag_active);
    assert_eq!(s.pressed, Some(0));
    assert!(a.capture);
    let (_, a) = main_window_step(s.clone(), PointerEvent::Release { x: 15, y: 10 });
    assert_eq!(a.command, WindowCommand::ToggleRecording);
    let (s, _) = main_window_step(s, PointerEvent::Move { x: 15, y: 10, cursor: point(110, 100) });
    let (_, a) = main_window_step(s, PointerEvent::Release { x: 15, y: 10 });
    assert_eq!(a.command, WindowCommand::Nothing);
}

#[test]
fn window_size_buttons_switch_the_layout() {
    // Minimize is the fifth button (x 171..203) of the full window.
    let (s, _) = main_window_step(
        pointer(false),
        PointerEvent::Press { x: 180, y: 30, cursor: point(0, 0), window: point(0, 0) },
    );
    let (s, a) = main_window_step(s, PointerEvent::Release { x: 180, y: 30 });
    assert_eq!(a.command, WindowCommand::SetMinimal(true));
    assert!(s.minimal);
    // The fourth button (x 126..158) of the minimal window restores it.
    let (s, _) = main_window_step(
        s,
        PointerEvent::Press { x: 130, y: 10, cursor: point(0, 0), window: point(0, 0) },
    );
    let (s, a) = main_window_step(s, PointerEvent::Release { x: 130, y: 10 });
    assert_eq!(a.command, WindowCommand::SetMinimal(false));
    assert!(!s.minimal);
    // In the full window that button opens the settings.
    let (s, _) = main_window_step(
        s,
        PointerEvent::Press { x: 140, y: 30, cursor: point(0, 0), window: point(0, 0) },
    );
    let (_, a) = main_window_step(s, PointerEvent::Release { x: 140, y: 30 });
    assert_eq!(a.command, WindowCommand::OpenSettings);
}

#[test]
fn runtime_change_clears_hover_on_a_disabled_button() {
    let mut p = pointer(false);
    p.hovered = Some(0);
    let (s, a) = main_window_step(p.clone(), PointerEvent::Runtime(event(State::Uploading, false)));
    assert_eq!(s.hovered, None);
    assert_eq!(s.event.state, State::Uploading);
    assert!(a.redraw && a.hover_changed);
    let (s, a) = main_window_step(p, PointerEvent::Runtime(event(State::Recording, false)));
    assert_eq!(s.hovered, Some(0));
    assert!(a.redraw && !a.hover_changed);
}

#[test]
fn switching_layout_forgets_hover_and_tracking() {
    let mut p = pointer(false);
    p.hovered = Some(3);
    p.tracking = true;
    let (s, _) = main_window_step(p, PointerEvent::Command(COMMAND_MINIMAL));
    assert!(s.minimal);
    assert_eq!(s.hovered, None);
    assert!(!s.tracking);
    let mut p = pointer(true);
    p.hovered = Some(0);
    p.tracking = true;
    let (s, _) = main_window_step(p, PointerEvent::Tray(TRAY_DOUBLE_CLICK));
    assert!(!s.minimal && !s.tracking);
    assert_eq!(s.hovered, None);
}

#[test]
fn recording_start_restarts_the_animation() {
    let (s, a) = main_window_step(pointer(false), PointerEvent::Runtime(event(State::Recording, false)));
    assert!(a.restart_animation);
    let (_, a) = main_window_step(s, PointerEvent::Runtime(event(State::Recording, false)));
    assert!(!a.restart_animation);
}

#[test]
fn dpi_and_language_changes_are_kept() {
    let (s, _) = main_window_step(pointer(false), PointerEvent::DpiChanged(144));
    assert_eq!(s.dpi, 144);
    let (s, a) = main_window_step(s, PointerEvent::LanguageChanged(2));
    assert_eq!(s.language, 2);
    assert!(a.redraw);
    let (s, a) = main_window_step(s, PointerEvent::LanguageChanged(9));
    assert_eq!(s.language, 2);
    assert!(!a.redraw);
}

#[test]
fn hover_follows_enabled_buttons_only() {
    let (s, a) = main_window_step(pointer(false), PointerEvent::Move { x: 20, y: 30, cursor: point(0, 0) });
    assert_eq!(s.hovered, Some(0));
    assert!(a.hover_changed && a.track_leave);
    let (s, _) = main_window_step(s, PointerEvent::Tracking);
    assert!(s.tracking);
    let (s, a) = main_window_step(s, PointerEvent::Move { x: 60, y: 30, cursor: point(0, 0) });
    assert_eq!(s.hovered, None);
    assert!(a.hover_changed && !a.track_leave);
    let (s, _) = main_window_step(s, PointerEvent::Move { x: 20, y: 30, cursor: point(0, 0) });
    let (s, a) = main_window_step(s, PointerEvent::Leave);
    assert_eq!(s.hovered, None);
    assert!(!s.tracking);
    assert!(a.hover_changed);
}

#[test]
fn menu_tray_and_keyboard_commands_are_routed() {
    let (s, a) = main_window_step(pointer(false), PointerEvent::Command(COMMAND_MINIMAL));
    assert!(s.minimal);
    assert_eq!(a.command, WindowCommand::SetMinimal(true));
    let (s, a) = main_window_step(s, PointerEvent::Command(COMMAND_MINIMAL));
    assert!(!s.minimal);
    assert_eq!(a.command, WindowCommand::SetMinimal(false));
    let (_, a) = main_window_step(pointer(false), PointerEvent::Command(COMMAND_SETTINGS));
    assert_eq!(a.command, WindowCommand::OpenSettings);
    let (_, a) = main_window_step(pointer(false), PointerEvent::Command(COMMAND_QUIT));
    assert_eq!(a.command, WindowCommand::Quit);
    let (_, a) = main_window_step(pointer(false), PointerEvent::Command(7));
    assert_eq!(a.command, WindowCommand::Nothing);
    let (_, a) = main_window_step(pointer(false), PointerEvent::Tray(TRAY_RIGHT_UP));
    assert_eq!(a.command, WindowCommand::ShowMenu);
    let (s, a) = main_window_step(pointer(true), PointerEvent::Tray(TRAY_DOUBLE_CLICK));
    assert!(!s.minimal);
    assert_eq!(a.command, WindowCommand::SetMinimal(false));
    let (_, a) = main_window_step(pointer(true), PointerEvent::RightRelease);
    assert_eq!(a.command, WindowCommand::ShowMenu);
    let (_, a) = main_window_step(pointer(false), PointerEvent::RightRelease);
    assert_eq!(a.command, WindowCommand::Nothing);
    let (_, a) = main_window_step(pointer(false), PointerEvent::Escape);
    assert_eq!(a.command, WindowCommand::CloseSettingsOrQuit);
    let (_, a) = main_window_step(pointer(false), PointerEvent::Close);
    assert_eq!(a.command, WindowCommand::Quit);
}

// ---------------------------------------------------------------------------
// Settings window

#[test]
fn settings_caption_is_the_header_left_of_the_window_buttons() {
    let (_, a) = settings_step(settings(), SettingsEvent::HitTest { x: 10, y: 10 });
    assert!(matches!(a, SettingsAction::Caption));
    let (_, a) = settings_step(settings(), SettingsEvent::HitTest { x: 695, y: 71 });
    assert!(matches!(a, SettingsAction::Caption));
    let (_, a) = settings_step(settings(), SettingsEvent::HitTest { x: 696, y: 10 });
    assert!(matches!(a, SettingsAction::Client));
    let (_, a) = settings_step(settings(), SettingsEvent::HitTest { x: 10, y: 72 });
    assert!(matches!(a, SettingsAction::Client));
    // At twice the DPI the same logical caption spans twice the pixels.
    let (s, a) = settings_step(settings(), SettingsEvent::DpiChanged(192));
    assert_eq!(s.dpi, 192);
    assert!(matches!(a, SettingsAction::Nothing));
    let (_, a) = settings_step(s.clone(), SettingsEvent::HitTest { x: 1390, y: 142 });
    assert!(matches!(a, SettingsAction::Caption));
    let (_, a) = settings_step(s.clone(), SettingsEvent::HitTest { x: 1390, y: 143 });
    assert!(matches!(a, SettingsAction::Client));
    let (_, a) = settings_step(s, SettingsEvent::HitTest { x: 1392, y: 10 });
    assert!(matches!(a, SettingsAction::Client));
}

#[test]
fn settings_pages_and_languages() {
    let mut open = settings();
    open.language_open = true;
    let (s, a) = settings_step(open, clicked(ID_PAGE_BASE + 2));
    assert_eq!(s.active_group, 2);
    assert!(!s.language_open);
    assert!(matches!(a, SettingsAction::ShowPage(2)));
    // The language list opens on the first page only.
    let (s, a) = settings_step(s, clicked(ID_LANGUAGE));
    assert!(!s.language_open);
    assert!(matches!(a, SettingsAction::LanguageList(false)));
    let (s, a) = settings_step(settings(), clicked(ID_LANGUAGE));
    assert!(s.language_open);
    assert!(matches!(a, SettingsAction::LanguageList(true)));
    let (s, a) = settings_step(s, clicked(ID_LANGUAGE_ITEM_BASE + 3));
    assert_eq!(s.language, 3);
    assert!(!s.language_open);
    assert!(matches!(a, SettingsAction::ApplyLanguage(3)));
    let mut open = settings();
    open.language_open = true;
    let (s, a) = settings_step(open, SettingsEvent::LeftPress);
    assert!(!s.language_open);
    assert!(matches!(a, SettingsAction::LanguageList(false)));
    let (_, a) = settings_step(settings(), SettingsEvent::LeftPress);
    assert!(matches!(a, SettingsAction::Nothing));
}

#[test]
fn settings_check_boxes_toggle_and_text_fields_repaint() {
    let (s, a) = settings_step(settings(), clicked(ID_FIELD_BASE + 16));
    assert!(s.booleans[16]);
    assert_eq!(s.booleans.iter().filter(|b| **b).count(), 1);
    assert!(matches!(a, SettingsAction::RedrawField(16)));
    let (s, _) = settings_step(s, clicked(ID_FIELD_BASE + 16));
    assert!(!s.booleans[16]);
    let (s, a) = settings_step(s, clicked(ID_FIELD_BASE + 5));
    assert!(s.booleans.iter().all(|b| !*b));
    assert!(matches!(a, SettingsAction::Nothing));
    let (_, a) = settings_step(
        s,
        SettingsEvent::Command { id: ID_FIELD_BASE + 5, notification: EN_SETFOCUS },
    );
    assert!(matches!(a, SettingsAction::Redraw));
}

#[test]
fn settings_save_and_close_while_saving() {
    let (s, a) = settings_step(settings(), clicked(ID_SAVE));
    assert!(matches!(a, SettingsAction::Save));
    let (s, a) = settings_step(s, SettingsEvent::SaveStarted);
    assert!(s.saving);
    assert!(matches!(a, SettingsAction::DisableControls));
    let (s, a) = settings_step(s, clicked(ID_SAVE));
    assert!(matches!(a, SettingsAction::Nothing));
    let (s, a) = settings_step(s, SettingsEvent::Close);
    assert!(matches!(a, SettingsAction::Nothing));
    let (s, a) = settings_step(s, SettingsEvent::SaveFailed("disk full".to_string()));
    assert!(!s.saving);
    assert!(matches!(a, SettingsAction::ShowError(ref m) if m == "disk full"));
    let (s, _) = settings_step(s, SettingsEvent::SaveStarted);
    let (s, a) = settings_step(s, SettingsEvent::Saved);
    assert!(!s.saving);
    assert!(matches!(a, SettingsAction::SavedAndClose));
    let (_, a) = settings_step(s.clone(), SettingsEvent::Close);
    assert!(matches!(a, SettingsAction::Destroy));
    let (_, a) = settings_step(s, clicked(ID_CANCEL));
    assert!(matches!(a, SettingsAction::Destroy));
}

// ---------------------------------------------------------------------------
// Messages and cache names

#[test]
fn binding_messages_quote_specs_as_debug_text() {
    let message = validate_bindings("\u{7f}+q", "f1", "f2").unwrap_err().message();
    assert!(message.starts_with(r#"invalid START_KEY "\u{7f}+q": "#), "{message}");
    let message = validate_bindings("ctrl+q", "ctrl+\tq", "f2").unwrap_err().message();
    assert_eq!(message, r#"PAUSE_KEY "ctrl+\tq" duplicates START_KEY "ctrl+q""#);
}

#[test]
fn cached_names_keep_the_extension() {
    assert_eq!(extension_with_dot("cache/audio.ogg"), ".ogg");
    assert_eq!(extension_with_dot("cache/audio"), "");
    assert_eq!(extension_with_dot(".hidden"), "");
    assert_eq!(
        temporary_file_name("0123456789abcdef0123456789abcdef", "ogg"),
        "RecordTemp_0123456789abcdef.ogg"
    );
}
