//! Window geometry: DPI scaling, the floating window's buttons and hit
//! testing, and list scrollbar metrics.
use vstd::prelude::*;

use crate::runtime::{Event, State};

verus! {

pub const BUTTON_SIZE: i32 = 32;
pub const BUTTON_GAP: i32 = 6;
pub const FULL_WIDTH: i32 = 222;
pub const FULL_HEIGHT: i32 = 94;
pub const MINIMAL_WIDTH: i32 = 170;
pub const MINIMAL_HEIGHT: i32 = 46;

/// Integer division rounding toward zero, as Rust's `/` does.
pub open spec fn quotient(a: int, b: int) -> int
    recommends
        b > 0,
{
    if a >= 0 {
        a / b
    } else {
        -((-a) / b)
    }
}

fn quotient_exec(a: i64, b: i64) -> (r: i64)
    requires
        b > 0,
        a > i64::MIN,
    ensures
        r == quotient(a as int, b as int),
{
    if a >= 0 {
        a / b
    } else {
        -((-a) / b)
    }
}

/// Logical pixels to device pixels at `dpi`, rounding to nearest
/// (the result wraps to `i32` as a cast does).
pub fn scale(value: i32, dpi: u32) -> (r: i32)
    ensures
        r == (quotient(value as int * dpi as int + 48, 96) as i32),
{
    assert(-0x8000_0000 * 0xffff_ffff <= value as int * dpi as int <= 0x7fff_ffff * 0xffff_ffff)
        by (nonlinear_arith)
        requires
            -0x8000_0000 <= value <= 0x7fff_ffff,
            0 <= dpi <= 0xffff_ffff,
    ;
    let n: i64 = value as i64 * dpi as i64 + 48;
    #[verifier::truncate] (quotient_exec(n, 96) as i32)
}

/// Device pixels back to logical pixels at `dpi`, rounding to nearest (a
/// zero dpi counts as one).
pub open spec fn unscale_spec(value: int, dpi: int) -> i32 {
    quotient(value * 96 + dpi / 2, if dpi == 0 {
        1
    } else {
        dpi
    }) as i32
}

/// Device pixels back to logical pixels at `dpi` (see [`unscale_spec`]).
pub fn unscale(value: i32, dpi: u32) -> (r: i32)
    ensures
        r == unscale_spec(value as int, dpi as int),
{
    let n: i64 = value as i64 * 96 + (dpi / 2) as i64;
    let d: i64 = if dpi == 0 {
        1
    } else {
        dpi as i64
    };
    #[verifier::truncate] (quotient_exec(n, d) as i32)
}

/// Device pixels unscale back to the logical value they were scaled from,
/// at any DPI of 96 or more, for non-negative values small enough to scale
/// without wrapping.
pub proof fn unscale_undoes_scale(value: i32, dpi: u32)
    requires
        0 <= value,
        96 <= dpi,
        value as int * dpi as int + 48 <= 96 * 0x7fff_ffff,
    ensures
        ({
            let scaled = quotient(value as int * dpi as int + 48, 96) as i32;
            (quotient(scaled as int * 96 + dpi as int / 2, dpi as int) as i32) == value
        }),
{
    let v = value as int;
    let d = dpi as int;
    let n = v * d + 48;
    assert(v * d >= 0) by (nonlinear_arith)
        requires
            v >= 0,
            d >= 0,
    ;
    let s = n / 96;
    assert(96 * s <= n < 96 * s + 96) by (nonlinear_arith)
        requires
            s == n / 96,
            n >= 0,
    ;
    assert(0 <= s <= 0x7fff_ffff);
    assert(quotient(n, 96) == s);
    let m = s * 96 + d / 2;
    assert(v * d <= m);
    if d == 96 {
        assert(s == v) by (nonlinear_arith)
            requires
                96 * s <= v * 96 + 48 < 96 * s + 96,
        ;
        assert(m < v * d + d);
    } else {
        assert(m < v * d + d);
    }
    assert(m / d == v) by (nonlinear_arith)
        requires
            v * d <= m < v * d + d,
            d > 0,
    ;
    assert(m >= 0);
    assert(quotient(m, d) == v);
}

/// A rectangle, right and bottom exclusive.
#[derive(Debug, Clone, Copy, PartialEq, Eq, Structural)]
pub struct Rect {
    pub left: i32,
    pub top: i32,
    pub right: i32,
    pub bottom: i32,
}

pub open spec fn button_count(minimal: bool) -> int {
    if minimal {
        4
    } else {
        5
    }
}

/// The buttons are centered in a row: 20 px from the top of the full
/// window, 7 px in the minimal one.
pub open spec fn button_rect_spec(index: int, minimal: bool) -> Rect {
    let count = button_count(minimal);
    let total = count * 32 + (count - 1) * 6;
    let width: int = if minimal {
        170
    } else {
        222
    };
    let left = (width - total) / 2 + index * 38;
    let top: int = if minimal {
        7
    } else {
        20
    };
    Rect {
        left: left as i32,
        top: top as i32,
        right: (left + 32) as i32,
        bottom: (top + 32) as i32,
    }
}

/// The rectangle of button `index` (0 to 4; 0 to 3 in the minimal window).
pub fn button_rect(index: i32, minimal: bool) -> (r: Rect)
    requires
        0 <= index < button_count(minimal),
    ensures
        r == button_rect_spec(index as int, minimal),
{
    let count: i32 = if minimal {
        4
    } else {
        5
    };
    let total = count * BUTTON_SIZE + (count - 1) * BUTTON_GAP;
    let width = if minimal {
        MINIMAL_WIDTH
    } else {
        FULL_WIDTH
    };
    let left = (width - total) / 2 + index * (BUTTON_SIZE + BUTTON_GAP);
    let top: i32 = if minimal {
        7
    } else {
        20
    };
    Rect { left, top, right: left + BUTTON_SIZE, bottom: top + BUTTON_SIZE }
}

pub open spec fn contains(r: Rect, x: int, y: int) -> bool {
    r.left <= x < r.right && r.top <= y < r.bottom
}

/// The button under a point, if any.
pub fn hit_test_button(x: i32, y: i32, minimal: bool) -> (r: Option<i32>)
    ensures
        match r {
            Some(i) => 0 <= i < button_count(minimal) && contains(
                button_rect_spec(i as int, minimal),
                x as int,
                y as int,
            ) && forall|j: int|
                0 <= j < i ==> !contains(#[trigger] button_rect_spec(j, minimal), x as int, y as int),
            None => forall|j: int|
                0 <= j < button_count(minimal) ==> !contains(
                    #[trigger] button_rect_spec(j, minimal),
                    x as int,
                    y as int,
                ),
        },
{
    let count: i32 = if minimal {
        4
    } else {
        5
    };
    let mut index: i32 = 0;
    while index < count
        invariant
            count == button_count(minimal),
            0 <= index <= count,
            forall|j: int|
                0 <= j < index ==> !contains(#[trigger] button_rect_spec(j, minimal), x as int, y as int),
        decreases count - index,
    {
        let rect = button_rect(index, minimal);
        if x >= rect.left && x < rect.right && y >= rect.top && y < rect.bottom {
            return Some(index);
        }
        index = index + 1;
    }
    None
}

/// The retry button replaces cancel while idle with a retained recording.
pub fn button_shows_retry(event: &Event) -> (r: bool)
    ensures
        r == (event.state == State::Idle && event.retry_available),
{
    event.state == State::Idle && event.retry_available
}

/// Which buttons are disabled: stop/pause (1) outside a recording, cancel
/// (2) when there is nothing to cancel or retry, record (0) while
/// uploading.
pub fn button_is_disabled(index: i32, event: &Event) -> (r: bool)
    ensures
        r == ((index == 1 && !(event.state == State::Recording || event.state == State::Paused))
            || (index == 2 && !(event.state == State::Recording || event.state == State::Paused
            || event.state == State::Uploading) && !(event.state == State::Idle
            && event.retry_available)) || (index == 0 && event.state == State::Uploading)),
{
    let state = event.state;
    (index == 1 && !(state == State::Recording || state == State::Paused)) || (index == 2 && !(state
        == State::Recording || state == State::Paused || state == State::Uploading)
        && !button_shows_retry(event)) || (index == 0 && state == State::Uploading)
}

// ---------------------------------------------------------------------------
// Scrollbars
/// A scrollbar's geometry: track height, thumb size and offset, the last
/// scroll index and the rows per page.
#[derive(Debug, Clone, Copy, PartialEq, Eq, Structural)]
pub struct Metrics {
    pub height: i32,
    pub thumb: i32,
    pub top: i32,
    pub max: i32,
    pub page: i32,
}

pub open spec fn max_int(a: int, b: int) -> int {
    if a >= b {
        a
    } else {
        b
    }
}

pub open spec fn min_int(a: int, b: int) -> int {
    if a <= b {
        a
    } else {
        b
    }
}

pub open spec fn clamp_int(v: int, low: int, high: int) -> int {
    if v < low {
        low
    } else if v > high {
        high
    } else {
        v
    }
}

/// The metrics of a list of `count` rows of `row` pixels shown from row
/// `index` in a track of `height` pixels, with a thumb of at least
/// `min_thumb` pixels.
pub open spec fn metrics_spec(height: i32, row: i32, count: i32, index: i32, min_thumb: i32) -> Metrics {
    let h = max_int(height as int, 1);
    let page = max_int(h / max_int(row as int, 1), 1);
    let max = max_int(count - page, 0);
    let raw = ((h * page / max_int(count as int, 1)) as i32) as int;
    let thumb = clamp_int(raw, min_int(min_thumb as int, h), h);
    let top = if max == 0 {
        0
    } else {
        ((h - thumb) * clamp_int(index as int, 0, max) / max) as i32 as int
    };
    Metrics {
        height: h as i32,
        thumb: thumb as i32,
        top: top as i32,
        max: max as i32,
        page: page as i32,
    }
}

/// The scroll index for a thumb dragged to offset `y`, rounded to the
/// nearest index.
pub open spec fn index_at_spec(m: Metrics, y: int) -> int {
    if m.height - m.thumb == 0 {
        0
    } else {
        (clamp_int(y, 0, m.height - m.thumb) * m.max + (m.height - m.thumb) / 2) / (m.height
            - m.thumb)
    }
}

impl Metrics {
    pub fn new(height: i32, row: i32, count: i32, index: i32, min_thumb: i32) -> (m: Metrics)
        ensures
            m == metrics_spec(height, row, count, index, min_thumb),
            1 <= m.height,
            1 <= m.page <= m.height,
            0 <= m.max,
            min_int(min_thumb as int, m.height as int) <= m.thumb <= m.height,
            min_thumb >= 0 ==> 0 <= m.top && m.top + m.thumb <= m.height,
    {
        let height = if height >= 1 {
            height
        } else {
            1
        };
        let row_size = if row >= 1 {
            row
        } else {
            1
        };
        let page0 = height / row_size;
        let page = if page0 >= 1 {
            page0
        } else {
            1
        };
        let difference: i64 = count as i64 - page as i64;
        let max: i32 = if difference >= 0 {
            difference as i32
        } else {
            0
        };
        let rows = if count >= 1 {
            count
        } else {
            1
        };
        assert(0 <= height as int * page as int <= 0x7fff_ffff * 0x7fff_ffff) by (nonlinear_arith)
            requires
                1 <= height <= 0x7fff_ffff,
                1 <= page <= height,
        ;
        let raw: i32 = #[verifier::truncate] ((height as i64 * page as i64 / rows as i64) as i32);
        let low = if min_thumb <= height {
            min_thumb
        } else {
            height
        };
        let thumb = if raw < low {
            low
        } else if raw > height {
            height
        } else {
            raw
        };
        let top = if max == 0 {
            0
        } else {
            let clamped = if index < 0 {
                0
            } else if index > max {
                max
            } else {
                index
            };
            let travel: i64 = height as i64 - thumb as i64;
            assert(0 <= travel * clamped as int <= 0xffff_ffff * 0x7fff_ffff)
                by (nonlinear_arith)
                requires
                    0 <= travel <= 0xffff_ffff,
                    0 <= clamped <= max,
                    max <= 0x7fff_ffff,
            ;
            assert(travel * clamped as int / max as int <= travel)
                by (nonlinear_arith)
                requires
                    0 <= travel,
                    0 <= clamped <= max,
                    max > 0,
            ;
            #[verifier::truncate] ((travel * clamped as i64 / max as i64) as i32)
        };
        Metrics { height, thumb, top, max, page }
    }

    /// The scroll index for a thumb dragged to offset `y`, rounded to the
    /// nearest index.
    pub fn index_at(self, y: i32) -> (r: i32)
        requires
            1 <= self.height,
            0 <= self.max,
            0 <= self.thumb <= self.height,
        ensures
            r == index_at_spec(self, y as int),
            0 <= r <= self.max,
    {
        let travel = self.height - self.thumb;
        if travel == 0 {
            0
        } else {
            let clamped = if y < 0 {
                0
            } else if y > travel {
                travel
            } else {
                y
            };
            assert(0 <= (clamped as int * self.max as int + travel as int / 2) / travel as int
                <= self.max) by (nonlinear_arith)
                requires
                    0 <= clamped <= travel,
                    travel > 0,
                    0 <= self.max,
            ;
            assert(0 <= clamped as int * self.max as int <= 0x7fff_ffff * 0x7fff_ffff) by (nonlinear_arith)
                requires
                    0 <= clamped <= 0x7fff_ffff,
                    0 <= self.max <= 0x7fff_ffff,
            ;
            ((clamped as i64 * self.max as i64 + travel as i64 / 2) / travel as i64) as i32
        }
    }
}

/// A themed scrollbar's own state: the thumb offset grabbed by a drag, the
/// hover, the wheel remainder, its axis, and for a horizontal bar the
/// content extent and scroll offset in pixels.
#[derive(Debug, Clone, Copy, PartialEq, Eq, Structural)]
pub struct BarState {
    pub drag: Option<i32>,
    pub hot: bool,
    pub wheel: i32,
    pub horizontal: bool,
    pub dpi: u32,
    pub extent: i32,
    pub offset: i32,
}

/// What the scrollbar is told; positions are along its axis.
#[derive(Debug, Clone, Copy, PartialEq, Eq, Structural)]
pub enum BarEvent {
    Press(i16),
    Move(i16),
    /// The button went up or the mode was canceled.
    Release,
    CaptureChanged,
    Leave,
    Hidden,
    /// A wheel turn of `delta` (negated for a horizontal wheel message);
    /// `lines` is the system's lines (or characters) per notch.
    Wheel { delta: i16, horizontal_wheel: bool, lines: u32 },
    /// An arrow key on a horizontal bar.
    Key { left: bool },
    SetOffset(i32),
    UpdateDpi { dpi: u32, extent: i32 },
}

/// What the caller does after an event.
#[derive(Debug, Clone, Copy, PartialEq, Eq, Structural)]
pub struct BarAction {
    /// Scroll the list (or the horizontal offset) to this index.
    pub scroll_to: Option<i32>,
    pub capture: bool,
    pub release_capture: bool,
    pub track_leave: bool,
    pub redraw: bool,
}

pub open spec fn no_bar_action() -> BarAction {
    BarAction {
        scroll_to: None,
        capture: false,
        release_capture: false,
        track_leave: false,
        redraw: false,
    }
}

pub open spec fn fits_i32(x: int) -> bool {
    i32::MIN <= x <= i32::MAX
}

/// Metrics as `Metrics::new` makes them.
pub open spec fn valid_metrics(m: Metrics) -> bool {
    &&& 1 <= m.height
    &&& 0 <= m.thumb <= m.height
    &&& 1 <= m.page
    &&& 0 <= m.max
}

/// Integer division rounding toward zero and its remainder, as Rust's `/`
/// and `%` compute them.
pub open spec fn remainder(a: int, b: int) -> int {
    a - quotient(a, b) * b
}

pub open spec fn wheel_delta(s: BarState, delta: i16, horizontal_wheel: bool) -> int {
    (if horizontal_wheel {
        -1int
    } else {
        1int
    }) * delta + s.wheel
}

/// Rows (or pixels) per wheel notch: a page when the system says so,
/// otherwise the lines times the unit, at most a page.
pub open spec fn wheel_step(s: BarState, lines: u32, m: Metrics) -> int {
    if lines == u32::MAX {
        m.page as int
    } else {
        let unit: int = if s.horizontal {
            (quotient(12 * s.dpi + 48, 96) as i32) as u32 as int
        } else {
            1
        };
        let product = if lines * unit > u32::MAX {
            u32::MAX as int
        } else {
            lines * unit
        };
        min_int(product, m.page as int)
    }
}

pub open spec fn key_step(dpi: u32) -> int {
    (quotient(24 * dpi + 48, 96) as i32) as int
}

/// The arithmetic of an event stays within `i32`.
pub open spec fn bar_event_fits(s: BarState, e: BarEvent, m: Metrics, top: i32) -> bool {
    match e {
        BarEvent::Press(y) => fits_i32(y - m.top) && fits_i32(top - m.page) && fits_i32(
            top + m.page,
        ),
        BarEvent::Move(y) => match s.drag {
            Some(o) => fits_i32(y - o),
            None => true,
        },
        BarEvent::Wheel { delta, horizontal_wheel, lines } => fits_i32(
            top - quotient(wheel_delta(s, delta, horizontal_wheel), 120) * wheel_step(
                s,
                lines,
                m,
            ),
        ),
        BarEvent::Key { .. } => !s.horizontal || (fits_i32(s.offset - key_step(s.dpi))
            && fits_i32(s.offset + key_step(s.dpi))),
        _ => true,
    }
}

/// One scrollbar event: the next state and what to do. `top` is the current
/// scroll index (the list's top row, or the horizontal offset). A press on
/// the thumb starts a drag, elsewhere it pages; the wheel keeps the part of
/// a notch it did not use; scrolling always clamps to `0..=max`.
pub open spec fn bar_step(s: BarState, e: BarEvent, m: Metrics, top: i32) -> (BarState, BarAction) {
    let none = no_bar_action();
    match e {
        BarEvent::Press(y) => if m.max > 0 {
            if m.top <= y < m.top + m.thumb {
                (
                    BarState { drag: Some((y - m.top) as i32), ..s },
                    BarAction { capture: true, redraw: true, ..none },
                )
            } else {
                let target = top + if y < m.top {
                    -m.page
                } else {
                    m.page as int
                };
                (
                    s,
                    BarAction {
                        scroll_to: Some(clamp_int(target, 0, m.max as int) as i32),
                        redraw: true,
                        ..none
                    },
                )
            }
        } else {
            (s, none)
        },
        BarEvent::Move(y) => {
            let a = if !s.hot {
                BarAction { track_leave: true, redraw: true, ..none }
            } else {
                none
            };
            (
                BarState { hot: true, ..s },
                match s.drag {
                    Some(o) => BarAction {
                        scroll_to: Some(
                            clamp_int(index_at_spec(m, (y - o) as i32 as int), 0, m.max as int)
                                as i32,
                        ),
                        ..a
                    },
                    None => a,
                },
            )
        },
        BarEvent::Release => (
            BarState { drag: None, ..s },
            BarAction { release_capture: s.drag is Some, redraw: true, ..none },
        ),
        BarEvent::CaptureChanged => (BarState { drag: None, ..s }, BarAction { redraw: true, ..none }),
        BarEvent::Leave => (BarState { hot: false, ..s }, BarAction { redraw: true, ..none }),
        BarEvent::Hidden => (
            BarState { drag: None, hot: false, wheel: 0, ..s },
            BarAction { release_capture: s.drag is Some, ..none },
        ),
        BarEvent::Wheel { delta, horizontal_wheel, lines } => {
            let d = wheel_delta(s, delta, horizontal_wheel);
            let target = top - quotient(d, 120) * wheel_step(s, lines, m);
            (
                BarState { wheel: remainder(d, 120) as i32, ..s },
                BarAction { scroll_to: Some(clamp_int(target, 0, m.max as int) as i32), ..none },
            )
        },
        BarEvent::Key { left } => if s.horizontal {
            let target = s.offset + if left {
                -key_step(s.dpi)
            } else {
                key_step(s.dpi)
            };
            (s, BarAction { scroll_to: Some(clamp_int(target, 0, m.max as int) as i32), ..none })
        } else {
            (s, none)
        },
        BarEvent::SetOffset(v) => (
            BarState { offset: clamp_int(v as int, 0, m.max as int) as i32, ..s },
            BarAction { redraw: true, ..none },
        ),
        BarEvent::UpdateDpi { dpi, extent } => (BarState { dpi, extent, ..s }, none),
    }
}

fn no_action() -> (r: BarAction)
    ensures
        r == no_bar_action(),
{
    BarAction {
        scroll_to: None,
        capture: false,
        release_capture: false,
        track_leave: false,
        redraw: false,
    }
}

fn clamp_index(v: i64, max: i32) -> (r: i32)
    requires
        0 <= max,
    ensures
        r == clamp_int(v as int, 0, max as int),
{
    if v < 0 {
        0
    } else if v > max as i64 {
        max
    } else {
        v as i32
    }
}

/// One event of a themed list scrollbar (see [`bar_step`]).
pub fn scrollbar_step(s: BarState, e: BarEvent, m: Metrics, top: i32) -> (r: (BarState, BarAction))
    requires
        valid_metrics(m),
        -120 < s.wheel < 120,
        bar_event_fits(s, e, m, top),
    ensures
        r == bar_step(s, e, m, top),
        -120 < r.0.wheel < 120,
        r.1.scroll_to matches Some(t) ==> 0 <= t <= m.max,
        e is SetOffset ==> 0 <= r.0.offset <= m.max,
{
    let none = no_action();
    match e {
        BarEvent::Press(y) => {
            if m.max > 0 {
                let y = y as i32;
                if m.top <= y && (y as i64) < m.top as i64 + m.thumb as i64 {
                    (
                        BarState { drag: Some(y - m.top), ..s },
                        BarAction { capture: true, redraw: true, ..none },
                    )
                } else {
                    let target: i64 = if y < m.top {
                        top as i64 - m.page as i64
                    } else {
                        top as i64 + m.page as i64
                    };
                    (
                        s,
                        BarAction { scroll_to: Some(clamp_index(target, m.max)), redraw: true, ..none },
                    )
                }
            } else {
                (s, none)
            }
        },
        BarEvent::Move(y) => {
            let a = if !s.hot {
                BarAction { track_leave: true, redraw: true, ..none }
            } else {
                none
            };
            let action = match s.drag {
                Some(o) => {
                    let index = m.index_at(y as i32 - o);
                    BarAction { scroll_to: Some(clamp_index(index as i64, m.max)), ..a }
                },
                None => a,
            };
            (BarState { hot: true, ..s }, action)
        },
        BarEvent::Release => (
            BarState { drag: None, ..s },
            BarAction { release_capture: s.drag.is_some(), redraw: true, ..none },
        ),
        BarEvent::CaptureChanged => (BarState { drag: None, ..s }, BarAction { redraw: true, ..none }),
        BarEvent::Leave => (BarState { hot: false, ..s }, BarAction { redraw: true, ..none }),
        BarEvent::Hidden => (
            BarState { drag: None, hot: false, wheel: 0, ..s },
            BarAction { release_capture: s.drag.is_some(), ..none },
        ),
        BarEvent::Wheel { delta, horizontal_wheel, lines } => {
            let direction: i32 = if horizontal_wheel {
                -1
            } else {
                1
            };
            let d: i32 = direction * (delta as i32) + s.wheel;
            let step: i32 = if lines == u32::MAX {
                m.page
            } else {
                let unit: u32 = if s.horizontal {
                    scale(12, s.dpi) as u32
                } else {
                    1
                };
                assert(lines as int * unit as int <= 0xffff_ffff * 0xffff_ffff) by (nonlinear_arith)
                    requires
                        lines <= 0xffff_ffff,
                        unit <= 0xffff_ffff,
                ;
                let wide: u64 = lines as u64 * unit as u64;
                let product: u32 = if wide > 0xffff_ffff {
                    0xffff_ffff
                } else {
                    wide as u32
                };
                if product < m.page as u32 {
                    product as i32
                } else {
                    m.page
                }
            };
            let notches: i32 = d / 120;
            let target: i64 = top as i64 - notches as i64 * step as i64;
            (
                BarState { wheel: d % 120, ..s },
                BarAction { scroll_to: Some(clamp_index(target, m.max)), ..none },
            )
        },
        BarEvent::Key { left } => {
            if s.horizontal {
                let step = scale(24, s.dpi) as i64;
                let target: i64 = if left {
                    s.offset as i64 - step
                } else {
                    s.offset as i64 + step
                };
                (s, BarAction { scroll_to: Some(clamp_index(target, m.max)), ..none })
            } else {
                (s, none)
            }
        },
        BarEvent::SetOffset(v) => (
            BarState { offset: clamp_index(v as i64, m.max), ..s },
            BarAction { redraw: true, ..none },
        ),
        BarEvent::UpdateDpi { dpi, extent } => (BarState { dpi, extent, ..s }, none),
    }
}

} // verus!
