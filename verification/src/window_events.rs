//! The decisions of the floating window and the settings window: what a
//! pointer, menu, tray or runtime event changes and what the window then
//! does. The caller performs the window calls (capture, moving the window,
//! painting) and hands the events in.
use vstd::prelude::*;

use crate::layout::{
    button_count, button_is_disabled, button_rect_spec, contains, hit_test_button, quotient, scale,
    unscale, unscale_spec,
};
use crate::runtime::{Event, State};

verus! {

/// Menu commands of the tray and the window.
pub const COMMAND_MINIMAL: u32 = 0x5101;
pub const COMMAND_SETTINGS: u32 = 0x5102;
pub const COMMAND_QUIT: u32 = 0x5103;

/// Tray notifications that open the menu or restore the full window.
pub const TRAY_CONTEXT_MENU: u32 = 0x007b;
pub const TRAY_RIGHT_UP: u32 = 0x0205;
pub const TRAY_DOUBLE_CLICK: u32 = 0x0203;

/// The first button (in order) under a logical point, if any.
pub open spec fn first_hit(x: int, y: int, minimal: bool, n: int) -> Option<i32>
    decreases n,
{
    if n <= 0 {
        None
    } else {
        match first_hit(x, y, minimal, n - 1) {
            Some(k) => Some(k),
            None => if contains(button_rect_spec(n - 1, minimal), x, y) {
                Some((n - 1) as i32)
            } else {
                None
            },
        }
    }
}

pub open spec fn button_at(x: int, y: int, minimal: bool) -> Option<i32> {
    first_hit(x, y, minimal, button_count(minimal))
}

proof fn lemma_first_hit(x: int, y: int, minimal: bool, n: int)
    requires
        0 <= n <= 5,
    ensures
        match first_hit(x, y, minimal, n) {
            Some(i) => 0 <= i < n && contains(button_rect_spec(i as int, minimal), x, y)
                && forall|j: int| 0 <= j < i ==> !contains(#[trigger] button_rect_spec(j, minimal), x, y),
            None => forall|j: int| 0 <= j < n ==> !contains(#[trigger] button_rect_spec(j, minimal), x, y),
        },
    decreases n,
{
    if n > 0 {
        lemma_first_hit(x, y, minimal, n - 1);
    }
}

/// The button under a logical point, as the hit test finds it.
fn button_under(x: i32, y: i32, minimal: bool) -> (r: Option<i32>)
    ensures
        r == button_at(x as int, y as int, minimal),
{
    let r = hit_test_button(x, y, minimal);
    proof {
        lemma_first_hit(x as int, y as int, minimal, button_count(minimal));
        let f = button_at(x as int, y as int, minimal);
        match (r, f) {
            (Some(i), Some(k)) => {
                if i < k {
                    assert(!contains(button_rect_spec(i as int, minimal), x as int, y as int));
                } else if k < i {
                    assert(!contains(button_rect_spec(k as int, minimal), x as int, y as int));
                }
            },
            (Some(i), None) => {
                assert(!contains(button_rect_spec(i as int, minimal), x as int, y as int));
            },
            (None, Some(k)) => {
                assert(!contains(button_rect_spec(k as int, minimal), x as int, y as int));
            },
            (None, None) => {},
        }
    }
    r
}

/// Which buttons are disabled in a runtime state (see `button_is_disabled`).
pub open spec fn disabled(index: i32, event: Event) -> bool {
    ||| (index == 1 && !(event.state == State::Recording || event.state == State::Paused))
    ||| (index == 2 && !(event.state == State::Recording || event.state == State::Paused
        || event.state == State::Uploading) && !(event.state == State::Idle
        && event.retry_available))
    ||| (index == 0 && event.state == State::Uploading)
}

/// What a button click or a menu command asks the program to do.
#[derive(Debug, Clone, Copy, PartialEq, Eq, Structural)]
pub enum WindowCommand {
    Nothing,
    ToggleRecording,
    TogglePause,
    Cancel,
    OpenSettings,
    /// Switch to (`true`) or leave (`false`) the minimal window.
    SetMinimal(bool),
    ShowMenu,
    Quit,
    /// Close the settings window if one is open, else quit.
    CloseSettingsOrQuit,
}

/// A position in screen pixels.
#[derive(Debug, Clone, Copy, PartialEq, Eq, Structural)]
pub struct ScreenPoint {
    pub x: i32,
    pub y: i32,
}

/// The floating window's pointer state.
#[derive(Debug, Clone)]
pub struct PointerState {
    pub event: Event,
    pub minimal: bool,
    pub pressed: Option<i32>,
    pub hovered: Option<i32>,
    pub tracking: bool,
    pub drag_active: bool,
    pub drag_moved: bool,
    /// Screen positions of the cursor and the window when the drag began.
    pub start_cursor: ScreenPoint,
    pub start_window: ScreenPoint,
    pub dpi: u32,
    /// The display language, by index.
    pub language: usize,
}

/// What the floating window is told. Points are logical (unscaled client
/// coordinates); `cursor` and `window` are screen pixels.
#[derive(Debug, Clone)]
pub enum PointerEvent {
    Press { x: i32, y: i32, cursor: ScreenPoint, window: ScreenPoint },
    Move { x: i32, y: i32, cursor: ScreenPoint },
    Release { x: i32, y: i32 },
    Leave,
    /// Leave tracking was granted.
    Tracking,
    RightRelease,
    Command(u32),
    Tray(u32),
    Runtime(Event),
    /// The window moved to a monitor of another DPI.
    DpiChanged(u32),
    /// The display language changed to this index.
    LanguageChanged(usize),
    Escape,
    Close,
}

/// What the window does after an event.
#[derive(Debug, Clone, Copy, PartialEq, Eq, Structural)]
pub struct PointerAction {
    pub redraw: bool,
    pub capture: bool,
    pub release_capture: bool,
    pub track_leave: bool,
    /// Restart the hover animation: the hovered button changed.
    pub hover_changed: bool,
    /// Move the window to this screen position.
    pub move_window: Option<ScreenPoint>,
    /// Recording just began: restart the recording animation.
    pub restart_animation: bool,
    pub command: WindowCommand,
}

pub open spec fn quiet() -> PointerAction {
    PointerAction {
        redraw: false,
        capture: false,
        release_capture: false,
        track_leave: false,
        hover_changed: false,
        move_window: None,
        restart_animation: false,
        command: WindowCommand::Nothing,
    }
}

/// The enabled button under a point, hovered from now on.
pub open spec fn hover_at(s: PointerState, x: int, y: int) -> Option<i32> {
    match button_at(x, y, s.minimal) {
        Some(b) => if disabled(b, s.event) {
            None
        } else {
            Some(b)
        },
        None => None,
    }
}

/// Switching between the full and the minimal window forgets the hovered
/// button and the leave tracking.
pub open spec fn with_minimal(s: PointerState, minimal: bool) -> PointerState {
    PointerState { minimal, hovered: None, tracking: false, ..s }
}

/// A click on a button: disabled buttons do nothing; the settings button
/// leaves the minimal window or opens the settings.
pub open spec fn click(s: PointerState, button: i32) -> (PointerState, WindowCommand) {
    if disabled(button, s.event) {
        (s, WindowCommand::Nothing)
    } else if button == 0 {
        (s, WindowCommand::ToggleRecording)
    } else if button == 1 {
        (s, WindowCommand::TogglePause)
    } else if button == 2 {
        (s, WindowCommand::Cancel)
    } else if button == 3 && s.minimal {
        (with_minimal(s, false), WindowCommand::SetMinimal(false))
    } else if button == 3 {
        (s, WindowCommand::OpenSettings)
    } else if button == 4 {
        (with_minimal(s, true), WindowCommand::SetMinimal(true))
    } else {
        (s, WindowCommand::Nothing)
    }
}

pub open spec fn abs_int(v: int) -> int {
    if v < 0 {
        -v
    } else {
        v
    }
}

/// The screen arithmetic of a move stays within `i32`.
pub open spec fn pointer_event_fits(s: PointerState, e: PointerEvent) -> bool {
    match e {
        PointerEvent::Move { cursor, .. } => s.drag_active ==> {
            let dx = cursor.x - s.start_cursor.x;
            let dy = cursor.y - s.start_cursor.y;
            &&& i32::MIN < dx <= i32::MAX
            &&& i32::MIN < dy <= i32::MAX
            &&& abs_int(dx) + abs_int(dy) <= i32::MAX
            &&& i32::MIN <= s.start_window.x + dx <= i32::MAX
            &&& i32::MIN <= s.start_window.y + dy <= i32::MAX
        },
        _ => true,
    }
}

/// One event of the floating window: the next state and what to do.
pub open spec fn pointer_step(s: PointerState, e: PointerEvent) -> (PointerState, PointerAction) {
    let none = quiet();
    match e {
        PointerEvent::Press { x, y, cursor, window } => {
            let pressed = button_at(x as int, y as int, s.minimal);
            let drag = s.minimal || pressed is None;
            (
                if drag {
                    PointerState {
                        pressed,
                        drag_active: true,
                        drag_moved: false,
                        start_cursor: cursor,
                        start_window: window,
                        ..s
                    }
                } else {
                    PointerState { pressed, ..s }
                },
                PointerAction { redraw: true, capture: pressed is Some || drag, ..none },
            )
        },
        PointerEvent::Move { x, y, cursor } => {
            let track = !s.tracking;
            if s.drag_active {
                let dx = cursor.x - s.start_cursor.x;
                let dy = cursor.y - s.start_cursor.y;
                let moved = s.drag_moved || abs_int(dx) + abs_int(dy) >= quotient(
                    4 * s.dpi + 48,
                    96,
                ) as i32;
                if moved {
                    (
                        PointerState { drag_moved: true, hovered: None, ..s },
                        PointerAction {
                            track_leave: track,
                            hover_changed: s.hovered is Some,
                            move_window: Some(
                                ScreenPoint {
                                    x: (s.start_window.x + dx) as i32,
                                    y: (s.start_window.y + dy) as i32,
                                },
                            ),
                            ..none
                        },
                    )
                } else {
                    let h = hover_at(s, x as int, y as int);
                    (
                        PointerState { hovered: h, ..s },
                        PointerAction { track_leave: track, hover_changed: s.hovered != h, ..none },
                    )
                }
            } else {
                let h = hover_at(s, x as int, y as int);
                (
                    PointerState { hovered: h, ..s },
                    PointerAction { track_leave: track, hover_changed: s.hovered != h, ..none },
                )
            }
        },
        PointerEvent::Release { x, y } => {
            let released = button_at(x as int, y as int, s.minimal);
            let t = PointerState { pressed: None, drag_active: false, drag_moved: false, ..s };
            let release = s.drag_active || s.pressed is Some;
            let (u, command) = match s.pressed {
                Some(b) => if !s.drag_moved && released == Some(b) {
                    click(t, b)
                } else {
                    (t, WindowCommand::Nothing)
                },
                None => (t, WindowCommand::Nothing),
            };
            let h = hover_at(u, x as int, y as int);
            (
                PointerState { hovered: h, ..u },
                PointerAction {
                    redraw: true,
                    release_capture: release,
                    hover_changed: u.hovered != h,
                    command,
                    ..none
                },
            )
        },
        PointerEvent::Leave => (
            PointerState { tracking: false, hovered: None, ..s },
            PointerAction { hover_changed: s.hovered is Some, ..none },
        ),
        PointerEvent::Tracking => (PointerState { tracking: true, ..s }, none),
        PointerEvent::RightRelease => (
            s,
            PointerAction {
                command: if s.minimal {
                    WindowCommand::ShowMenu
                } else {
                    WindowCommand::Nothing
                },
                ..none
            },
        ),
        PointerEvent::Command(id) => if id == COMMAND_MINIMAL {
            (
                with_minimal(s, !s.minimal),
                PointerAction { command: WindowCommand::SetMinimal(!s.minimal), ..none },
            )
        } else if id == COMMAND_SETTINGS {
            (s, PointerAction { command: WindowCommand::OpenSettings, ..none })
        } else if id == COMMAND_QUIT {
            (s, PointerAction { command: WindowCommand::Quit, ..none })
        } else {
            (s, none)
        },
        PointerEvent::Tray(code) => if code == TRAY_CONTEXT_MENU || code == TRAY_RIGHT_UP {
            (s, PointerAction { command: WindowCommand::ShowMenu, ..none })
        } else if code == TRAY_DOUBLE_CLICK {
            (
                with_minimal(s, false),
                PointerAction { command: WindowCommand::SetMinimal(false), ..none },
            )
        } else {
            (s, none)
        },
        PointerEvent::Runtime(event) => {
            let clear = match s.hovered {
                Some(b) => disabled(b, event),
                None => false,
            };
            (
                PointerState { event, hovered: if clear {
                    None
                } else {
                    s.hovered
                }, ..s },
                PointerAction {
                    redraw: true,
                    hover_changed: clear,
                    restart_animation: s.event.state != State::Recording && event.state
                        == State::Recording,
                    ..none
                },
            )
        },
        PointerEvent::DpiChanged(dpi) => (PointerState { dpi, ..s }, none),
        PointerEvent::LanguageChanged(index) => if index < LANGUAGE_COUNT {
            (PointerState { language: index, ..s }, PointerAction { redraw: true, ..none })
        } else {
            (s, none)
        },
        PointerEvent::Escape => (s, PointerAction { command: WindowCommand::CloseSettingsOrQuit, ..none }),
        PointerEvent::Close => (s, PointerAction { command: WindowCommand::Quit, ..none }),
    }
}

fn hover_exec(s: &PointerState, x: i32, y: i32) -> (r: Option<i32>)
    ensures
        r == hover_at(*s, x as int, y as int),
{
    match button_under(x, y, s.minimal) {
        Some(b) => if button_is_disabled(b, &s.event) {
            None
        } else {
            Some(b)
        },
        None => None,
    }
}

fn click_exec(s: PointerState, button: i32) -> (r: (PointerState, WindowCommand))
    ensures
        r == click(s, button),
{
    if button_is_disabled(button, &s.event) {
        (s, WindowCommand::Nothing)
    } else if button == 0 {
        (s, WindowCommand::ToggleRecording)
    } else if button == 1 {
        (s, WindowCommand::TogglePause)
    } else if button == 2 {
        (s, WindowCommand::Cancel)
    } else if button == 3 && s.minimal {
        (PointerState { minimal: false, hovered: None, tracking: false, ..s }, WindowCommand::SetMinimal(false))
    } else if button == 3 {
        (s, WindowCommand::OpenSettings)
    } else if button == 4 {
        (PointerState { minimal: true, hovered: None, tracking: false, ..s }, WindowCommand::SetMinimal(true))
    } else {
        (s, WindowCommand::Nothing)
    }
}

fn quiet_exec() -> (r: PointerAction)
    ensures
        r == quiet(),
{
    PointerAction {
        redraw: false,
        capture: false,
        release_capture: false,
        track_leave: false,
        hover_changed: false,
        move_window: None,
        restart_animation: false,
        command: WindowCommand::Nothing,
    }
}

fn same_button(a: Option<i32>, b: Option<i32>) -> (r: bool)
    ensures
        r == (a == b),
{
    match (a, b) {
        (Some(x), Some(y)) => x == y,
        (None, None) => true,
        _ => false,
    }
}

/// One event of the floating window (see [`pointer_step`]): a press on a
/// button captures it, a press in the minimal window or off the buttons
/// starts a drag, a drag moves the window once the pointer travelled
/// `scale(4, dpi)` pixels, and a release clicks the pressed button only when
/// nothing moved and it is released over the same button.
pub fn main_window_step(s: PointerState, e: PointerEvent) -> (r: (PointerState, PointerAction))
    requires
        pointer_event_fits(s, e),
    ensures
        r == pointer_step(s, e),
{
    let none = quiet_exec();
    match e {
        PointerEvent::Press { x, y, cursor, window } => {
            let pressed = button_under(x, y, s.minimal);
            let drag = s.minimal || pressed.is_none();
            let capture = pressed.is_some() || drag;
            let t = if drag {
                PointerState {
                    pressed,
                    drag_active: true,
                    drag_moved: false,
                    start_cursor: cursor,
                    start_window: window,
                    ..s
                }
            } else {
                PointerState { pressed, ..s }
            };
            (t, PointerAction { redraw: true, capture, ..none })
        },
        PointerEvent::Move { x, y, cursor } => {
            let track = !s.tracking;
            if s.drag_active {
                let dx = cursor.x - s.start_cursor.x;
                let dy = cursor.y - s.start_cursor.y;
                let ax = if dx < 0 {
                    -dx
                } else {
                    dx
                };
                let ay = if dy < 0 {
                    -dy
                } else {
                    dy
                };
                let moved = s.drag_moved || ax + ay >= scale(4, s.dpi);
                if moved {
                    let target = ScreenPoint { x: s.start_window.x + dx, y: s.start_window.y + dy };
                    let changed = s.hovered.is_some();
                    (
                        PointerState { drag_moved: true, hovered: None, ..s },
                        PointerAction {
                            track_leave: track,
                            hover_changed: changed,
                            move_window: Some(target),
                            ..none
                        },
                    )
                } else {
                    let h = hover_exec(&s, x, y);
                    let changed = !same_button(s.hovered, h);
                    (
                        PointerState { hovered: h, ..s },
                        PointerAction { track_leave: track, hover_changed: changed, ..none },
                    )
                }
            } else {
                let h = hover_exec(&s, x, y);
                let changed = !same_button(s.hovered, h);
                (
                    PointerState { hovered: h, ..s },
                    PointerAction { track_leave: track, hover_changed: changed, ..none },
                )
            }
        },
        PointerEvent::Release { x, y } => {
            let released = button_under(x, y, s.minimal);
            let release = s.drag_active || s.pressed.is_some();
            let pressed = s.pressed;
            let moved = s.drag_moved;
            let t = PointerState { pressed: None, drag_active: false, drag_moved: false, ..s };
            let (u, command) = match pressed {
                Some(b) => if !moved && same_button(released, Some(b)) {
                    click_exec(t, b)
                } else {
                    (t, WindowCommand::Nothing)
                },
                None => (t, WindowCommand::Nothing),
            };
            let h = hover_exec(&u, x, y);
            let changed = !same_button(u.hovered, h);
            (
                PointerState { hovered: h, ..u },
                PointerAction {
                    redraw: true,
                    release_capture: release,
                    hover_changed: changed,
                    command,
                    ..none
                },
            )
        },
        PointerEvent::Leave => {
            let changed = s.hovered.is_some();
            (
                PointerState { tracking: false, hovered: None, ..s },
                PointerAction { hover_changed: changed, ..none },
            )
        },
        PointerEvent::Tracking => (PointerState { tracking: true, ..s }, none),
        PointerEvent::RightRelease => {
            let command = if s.minimal {
                WindowCommand::ShowMenu
            } else {
                WindowCommand::Nothing
            };
            (s, PointerAction { command, ..none })
        },
        PointerEvent::Command(id) => {
            if id == COMMAND_MINIMAL {
                let minimal = !s.minimal;
                (
                    PointerState { minimal, hovered: None, tracking: false, ..s },
                    PointerAction { command: WindowCommand::SetMinimal(minimal), ..none },
                )
            } else if id == COMMAND_SETTINGS {
                (s, PointerAction { command: WindowCommand::OpenSettings, ..none })
            } else if id == COMMAND_QUIT {
                (s, PointerAction { command: WindowCommand::Quit, ..none })
            } else {
                (s, none)
            }
        },
        PointerEvent::Tray(code) => {
            if code == TRAY_CONTEXT_MENU || code == TRAY_RIGHT_UP {
                (s, PointerAction { command: WindowCommand::ShowMenu, ..none })
            } else if code == TRAY_DOUBLE_CLICK {
                (
                    PointerState { minimal: false, hovered: None, tracking: false, ..s },
                    PointerAction { command: WindowCommand::SetMinimal(false), ..none },
                )
            } else {
                (s, none)
            }
        },
        PointerEvent::Runtime(event) => {
            let clear = match s.hovered {
                Some(b) => button_is_disabled(b, &event),
                None => false,
            };
            let hovered = if clear {
                None
            } else {
                s.hovered
            };
            let restart = s.event.state != State::Recording && event.state == State::Recording;
            (
                PointerState { event, hovered, ..s },
                PointerAction { redraw: true, hover_changed: clear, restart_animation: restart, ..none },
            )
        },
        PointerEvent::DpiChanged(dpi) => (PointerState { dpi, ..s }, none),
        PointerEvent::LanguageChanged(index) => {
            if index < LANGUAGE_COUNT {
                (PointerState { language: index, ..s }, PointerAction { redraw: true, ..none })
            } else {
                (s, none)
            }
        },
        PointerEvent::Escape => (
            s,
            PointerAction { command: WindowCommand::CloseSettingsOrQuit, ..none },
        ),
        PointerEvent::Close => (s, PointerAction { command: WindowCommand::Quit, ..none }),
    }
}

/// The hovered button is one of the current layout's buttons and is enabled
/// in the current runtime state.
pub open spec fn hover_valid(s: PointerState) -> bool {
    match s.hovered {
        Some(b) => 0 <= b < button_count(s.minimal) && !disabled(b, s.event),
        None => true,
    }
}

proof fn lemma_hover_at_valid(s: PointerState, x: int, y: int)
    ensures
        hover_at(s, x, y) matches Some(b) ==> 0 <= b < button_count(s.minimal) && !disabled(
            b,
            s.event,
        ),
{
    lemma_first_hit(x, y, s.minimal, button_count(s.minimal));
}

/// Every event keeps the hover on an enabled button of the layout shown: a
/// button that a runtime change disables, or that a layout switch removes,
/// stops being hovered.
pub proof fn hovered_button_stays_enabled(s: PointerState, e: PointerEvent)
    requires
        hover_valid(s),
    ensures
        hover_valid(pointer_step(s, e).0),
{
    match e {
        PointerEvent::Move { x, y, .. } => {
            lemma_hover_at_valid(s, x as int, y as int);
        },
        PointerEvent::Release { x, y } => {
            let t = PointerState { pressed: None, drag_active: false, drag_moved: false, ..s };
            match s.pressed {
                Some(b) => {
                    lemma_hover_at_valid(click(t, b).0, x as int, y as int);
                    lemma_hover_at_valid(t, x as int, y as int);
                },
                None => {
                    lemma_hover_at_valid(t, x as int, y as int);
                },
            }
        },
        _ => {},
    }
}

// ---------------------------------------------------------------------------
// The settings window.
pub const ID_SAVE: usize = 0x6101;
pub const ID_CANCEL: usize = 0x6102;
pub const ID_LANGUAGE: usize = 0x6103;
pub const ID_CLOSE: usize = 0x6104;
pub const ID_PAGE_BASE: usize = 0x6110;
/// Display, API, Audio, Network, Hotkeys, Cache, Debug, About.
pub const PAGE_COUNT: usize = 8;
pub const ID_LANGUAGE_ITEM_BASE: usize = 0x6180;
/// English, Simplified Chinese, German, Japanese, French.
pub const LANGUAGE_COUNT: usize = 5;
pub const ID_FIELD_BASE: usize = 0x6200;
/// The configuration fields shown as controls, in order.
pub const FIELD_COUNT: usize = 31;
pub const SETTINGS_WIDTH: i32 = 760;
pub const HEADER_HEIGHT: i32 = 72;
/// Control notifications.
pub const BN_CLICKED: u32 = 0;
pub const EN_SETFOCUS: u32 = 0x0100;
pub const EN_KILLFOCUS: u32 = 0x0200;

/// The fields shown as check boxes: ENABLE_HTTP2, VERIFY_SSL, HOTKEY_HOOK,
/// KEEP_CACHE, REQUEST_FAILED_NOTIFICATION and the four debug switches.
pub open spec fn is_boolean_field(k: int) -> bool {
    k == 16 || k == 17 || k == 21 || (25 <= k <= 30)
}

fn is_boolean_field_exec(k: usize) -> (r: bool)
    ensures
        r == is_boolean_field(k as int),
{
    k == 16 || k == 17 || k == 21 || (25 <= k && k <= 30)
}

/// The settings window's own state.
#[derive(Debug, Clone)]
pub struct SettingsUi {
    pub active_group: usize,
    pub language_open: bool,
    pub language: usize,
    pub saving: bool,
    /// The check box values, by field.
    pub booleans: Vec<bool>,
    pub dpi: u32,
}

/// What the settings window is told. A hit test gives the client point in
/// device pixels; a command the control ID and its notification.
#[derive(Debug, Clone)]
pub enum SettingsEvent {
    HitTest { x: i32, y: i32 },
    /// The window moved to a monitor of another DPI.
    DpiChanged(u32),
    Command { id: usize, notification: u32 },
    LeftPress,
    /// The configuration was read and validated and is being saved.
    SaveStarted,
    /// The save finished.
    Saved,
    /// The save failed with this message.
    SaveFailed(String),
    Close,
}

/// What the settings window does after an event.
#[derive(Debug, Clone)]
pub enum SettingsAction {
    Nothing,
    /// The point is on the caption: the window is dragged from there.
    Caption,
    Client,
    /// Show this page and repaint the page buttons.
    ShowPage(usize),
    /// Show or hide the language list.
    LanguageList(bool),
    /// Use, save and announce this display language.
    ApplyLanguage(usize),
    /// Repaint this field's control.
    RedrawField(usize),
    Redraw,
    /// Read and validate the fields, then save them.
    Save,
    /// Disable the controls while saving.
    DisableControls,
    /// Re-enable the controls and close the window.
    SavedAndClose,
    /// Re-enable the controls and show this error.
    ShowError(String),
    Destroy,
}

pub struct SettingsView {
    pub active_group: usize,
    pub language_open: bool,
    pub language: usize,
    pub saving: bool,
    pub booleans: Seq<bool>,
    pub dpi: u32,
}

impl View for SettingsUi {
    type V = SettingsView;

    open spec fn view(&self) -> SettingsView {
        SettingsView {
            active_group: self.active_group,
            language_open: self.language_open,
            language: self.language,
            saving: self.saving,
            booleans: self.booleans@,
            dpi: self.dpi,
        }
    }
}

/// One event of the settings window: the next state and what to do. The
/// caption is the header left of the window buttons, in logical pixels at
/// the window's DPI; commands are routed by
/// ID range (pages, the language button and list, check boxes, field focus,
/// then save, cancel and close); the language list opens only on the first
/// page; a window that is saving neither saves again nor closes.
pub open spec fn settings_transition(s: SettingsView, e: SettingsEvent) -> (SettingsView, SettingsAction) {
    match e {
        SettingsEvent::HitTest { x, y } => (
            s,
            if unscale_spec(y as int, s.dpi as int) < HEADER_HEIGHT && unscale_spec(
                x as int,
                s.dpi as int,
            ) < SETTINGS_WIDTH - 64 {
                SettingsAction::Caption
            } else {
                SettingsAction::Client
            },
        ),
        SettingsEvent::DpiChanged(dpi) => (SettingsView { dpi, ..s }, SettingsAction::Nothing),
        SettingsEvent::Command { id, notification } => {
            let clicked = notification == BN_CLICKED;
            if ID_PAGE_BASE <= id < ID_PAGE_BASE + PAGE_COUNT && clicked {
                let page = (id - ID_PAGE_BASE) as usize;
                (
                    SettingsView { language_open: false, active_group: page, ..s },
                    SettingsAction::ShowPage(page),
                )
            } else if id == ID_LANGUAGE && clicked {
                let open = !s.language_open && s.active_group == 0;
                (SettingsView { language_open: open, ..s }, SettingsAction::LanguageList(open))
            } else if ID_LANGUAGE_ITEM_BASE <= id < ID_LANGUAGE_ITEM_BASE + LANGUAGE_COUNT
                && clicked {
                let index = (id - ID_LANGUAGE_ITEM_BASE) as usize;
                (
                    SettingsView { language: index, language_open: false, ..s },
                    SettingsAction::ApplyLanguage(index),
                )
            } else if ID_FIELD_BASE <= id < ID_FIELD_BASE + FIELD_COUNT && is_boolean_field(
                id - ID_FIELD_BASE,
            ) && clicked {
                let k = id - ID_FIELD_BASE;
                (
                    SettingsView { booleans: s.booleans.update(k, !s.booleans[k]), ..s },
                    SettingsAction::RedrawField(k as usize),
                )
            } else if ID_FIELD_BASE <= id < ID_FIELD_BASE + FIELD_COUNT && (notification
                == EN_SETFOCUS || notification == EN_KILLFOCUS) {
                (s, SettingsAction::Redraw)
            } else if id == ID_SAVE {
                (
                    s,
                    if s.saving {
                        SettingsAction::Nothing
                    } else {
                        SettingsAction::Save
                    },
                )
            } else if id == ID_CANCEL || id == ID_CLOSE {
                (s, SettingsAction::Destroy)
            } else {
                (s, SettingsAction::Nothing)
            }
        },
        SettingsEvent::LeftPress => if s.language_open {
            (SettingsView { language_open: false, ..s }, SettingsAction::LanguageList(false))
        } else {
            (s, SettingsAction::Nothing)
        },
        SettingsEvent::SaveStarted => (
            SettingsView { saving: true, ..s },
            SettingsAction::DisableControls,
        ),
        SettingsEvent::Saved => (SettingsView { saving: false, ..s }, SettingsAction::SavedAndClose),
        SettingsEvent::SaveFailed(message) => (
            SettingsView { saving: false, ..s },
            SettingsAction::ShowError(message),
        ),
        SettingsEvent::Close => (
            s,
            if s.saving {
                SettingsAction::Nothing
            } else {
                SettingsAction::Destroy
            },
        ),
    }
}

/// One event of the settings window (see [`settings_transition`]).
pub fn settings_step(s: SettingsUi, e: SettingsEvent) -> (r: (SettingsUi, SettingsAction))
    requires
        s.booleans@.len() == FIELD_COUNT,
    ensures
        r.0@ == settings_transition(s@, e).0,
        r.1 == settings_transition(s@, e).1,
        r.0.booleans@.len() == FIELD_COUNT,
{
    match e {
        SettingsEvent::HitTest { x, y } => {
            let action = if unscale(y, s.dpi) < HEADER_HEIGHT && unscale(x, s.dpi) < SETTINGS_WIDTH
                - 64 {
                SettingsAction::Caption
            } else {
                SettingsAction::Client
            };
            (s, action)
        },
        SettingsEvent::DpiChanged(dpi) => (SettingsUi { dpi, ..s }, SettingsAction::Nothing),
        SettingsEvent::Command { id, notification } => {
            let clicked = notification == BN_CLICKED;
            if ID_PAGE_BASE <= id && id < ID_PAGE_BASE + PAGE_COUNT && clicked {
                let page = id - ID_PAGE_BASE;
                (
                    SettingsUi { language_open: false, active_group: page, ..s },
                    SettingsAction::ShowPage(page),
                )
            } else if id == ID_LANGUAGE && clicked {
                let open = !s.language_open && s.active_group == 0;
                (SettingsUi { language_open: open, ..s }, SettingsAction::LanguageList(open))
            } else if ID_LANGUAGE_ITEM_BASE <= id && id < ID_LANGUAGE_ITEM_BASE + LANGUAGE_COUNT
                && clicked {
                let index = id - ID_LANGUAGE_ITEM_BASE;
                (
                    SettingsUi { language: index, language_open: false, ..s },
                    SettingsAction::ApplyLanguage(index),
                )
            } else if ID_FIELD_BASE <= id && id < ID_FIELD_BASE + FIELD_COUNT
                && is_boolean_field_exec(id - ID_FIELD_BASE) && clicked {
                let k = id - ID_FIELD_BASE;
                let mut t = s;
                let value = !t.booleans[k];
                t.booleans.set(k, value);
                (t, SettingsAction::RedrawField(k))
            } else if ID_FIELD_BASE <= id && id < ID_FIELD_BASE + FIELD_COUNT && (notification
                == EN_SETFOCUS || notification == EN_KILLFOCUS) {
                (s, SettingsAction::Redraw)
            } else if id == ID_SAVE {
                let action = if s.saving {
                    SettingsAction::Nothing
                } else {
                    SettingsAction::Save
                };
                (s, action)
            } else if id == ID_CANCEL || id == ID_CLOSE {
                (s, SettingsAction::Destroy)
            } else {
                (s, SettingsAction::Nothing)
            }
        },
        SettingsEvent::LeftPress => {
            if s.language_open {
                (SettingsUi { language_open: false, ..s }, SettingsAction::LanguageList(false))
            } else {
                (s, SettingsAction::Nothing)
            }
        },
        SettingsEvent::SaveStarted => (
            SettingsUi { saving: true, ..s },
            SettingsAction::DisableControls,
        ),
        SettingsEvent::Saved => (SettingsUi { saving: false, ..s }, SettingsAction::SavedAndClose),
        SettingsEvent::SaveFailed(message) => (
            SettingsUi { saving: false, ..s },
            SettingsAction::ShowError(message),
        ),
        SettingsEvent::Close => {
            let action = if s.saving {
                SettingsAction::Nothing
            } else {
                SettingsAction::Destroy
            };
            (s, action)
        },
    }
}

} // verus!
