//! The Ctrl+V key sequence sent after the clipboard is written, exactly as
//! `keybd_event` receives it.
use vstd::prelude::*;

use crate::text::owned;

verus! {

pub const VK_CONTROL: u8 = 0x11;
/// The second argument passed with the Ctrl key.
pub const CTRL_SCAN_ARGUMENT: u8 = 0x91;
pub const V_SCAN_CODE: u8 = 47;
/// The second argument passed with the V key: its scan code plus 0x80.
pub const V_SECOND_ARGUMENT: u8 = V_SCAN_CODE + 0x80;
pub const KEYEVENTF_KEYUP: u32 = 0x0002;
pub const KEYEVENTF_SCANCODE: u32 = 0x0008;

/// Keyboard injection is only possible on Windows.
#[derive(Debug, Clone, Copy, PartialEq, Eq, Structural)]
pub enum KeyboardError {
    UnsupportedPlatform,
}

impl KeyboardError {
    pub fn message(&self) -> (r: String)
        ensures
            r@ == "keyboard injection is only available on Windows"@,
    {
        owned("keyboard injection is only available on Windows")
    }
}

/// The arguments of one `keybd_event` call.
#[derive(Debug, Clone, Copy, PartialEq, Eq, Structural)]
pub struct KeyEvent {
    pub virtual_key: u8,
    pub scan_code: u8,
    pub flags: u32,
}

/// Ctrl down (virtual key), V down (scan code), Ctrl up, V up: Ctrl is
/// released first.
pub open spec fn ctrl_v_events() -> Seq<KeyEvent> {
    seq![
        KeyEvent { virtual_key: 0x11, scan_code: 0x91, flags: 0 },
        KeyEvent { virtual_key: 47, scan_code: 175, flags: 0x0008 },
        KeyEvent { virtual_key: 0x11, scan_code: 0x91, flags: 0x0002 },
        KeyEvent { virtual_key: 47, scan_code: 175, flags: 0x000a },
    ]
}

/// The four `keybd_event` calls of Ctrl+V, in order.
pub fn ctrl_v_sequence() -> (r: [KeyEvent; 4])
    ensures
        r@ == ctrl_v_events(),
{
    let flags_up_scan: u32 = KEYEVENTF_KEYUP | KEYEVENTF_SCANCODE;
    assert(flags_up_scan == 0x000a) by (bit_vector)
        requires
            flags_up_scan == 0x0002u32 | 0x0008u32,
    ;
    let r = [
        KeyEvent { virtual_key: VK_CONTROL, scan_code: CTRL_SCAN_ARGUMENT, flags: 0 },
        KeyEvent { virtual_key: V_SCAN_CODE, scan_code: V_SECOND_ARGUMENT, flags: KEYEVENTF_SCANCODE },
        KeyEvent { virtual_key: VK_CONTROL, scan_code: CTRL_SCAN_ARGUMENT, flags: KEYEVENTF_KEYUP },
        KeyEvent { virtual_key: V_SCAN_CODE, scan_code: V_SECOND_ARGUMENT, flags: flags_up_scan },
    ];
    assert(r@ =~= ctrl_v_events());
    r
}

/// The Ctrl+V sequence to send where keyboard injection exists, or the
/// refusal elsewhere.
pub fn send_ctrl_v(windows: bool) -> (r: Result<[KeyEvent; 4], KeyboardError>)
    ensures
        windows ==> (r matches Ok(events) && events@ == ctrl_v_events()),
        !windows ==> r == Err::<[KeyEvent; 4], KeyboardError>(KeyboardError::UnsupportedPlatform),
{
    if windows {
        Ok(ctrl_v_sequence())
    } else {
        Err(KeyboardError::UnsupportedPlatform)
    }
}

} // verus!
