//! Hotkey specifications such as `ctrl+alt+q`: tokens are separated by `+`,
//! trimmed and compared without ASCII case; every token but the last is a
//! modifier, the last names the key.
use vstd::prelude::*;

use crate::text::{
    all_digits, all_digits_exec, chars_of, digits_value, digits_value_bounded, eq_str, hex_value,
    lemma_lower_idempotent, lemma_split_lower, lemma_split_nonempty, lemma_trim_lower, lower,
    lower_chars, push_str, split, split_chars, string_of, trim, trim_chars, upper_char,
    upper_char_exec,
};

pub mod capture;
pub mod equivalence;
pub mod hook;
pub mod round_trip;

verus! {

pub const MOD_ALT: u32 = 0x0001;

pub const MOD_CTRL: u32 = 0x0002;

pub const MOD_SHIFT: u32 = 0x0004;

pub const MOD_WIN: u32 = 0x0008;

/// A modifier mask (`MOD_*` bits) and a Windows virtual-key code.
#[derive(Debug, Clone, Copy, PartialEq, Eq, Structural, Hash)]
pub struct ParsedHotkey {
    pub modifiers: u32,
    pub virtual_key: u32,
}

/// What went wrong with a hotkey specification or its registration.
#[derive(Debug, Clone)]
pub enum HotkeyError {
    Empty,
    EmptyKey,
    EmptyModifier,
    UnsupportedModifier(String),
    DuplicateModifier(String),
    UnsupportedKey(String),
    InvalidBinding { name: String, spec: String, reason: String },
    DuplicateBinding { name: String, spec: String, previous_name: String, previous_spec: String },
    UnsupportedPlatform,
    Registration(String),
}

/// The mathematical content of a [`HotkeyError`].
pub enum HotkeyFault {
    Empty,
    EmptyKey,
    EmptyModifier,
    UnsupportedModifier(Seq<char>),
    DuplicateModifier(Seq<char>),
    UnsupportedKey(Seq<char>),
    InvalidBinding { name: Seq<char>, spec: Seq<char>, reason: Seq<char> },
    DuplicateBinding {
        name: Seq<char>,
        spec: Seq<char>,
        previous_name: Seq<char>,
        previous_spec: Seq<char>,
    },
    UnsupportedPlatform,
    Registration(Seq<char>),
}

impl View for HotkeyError {
    type V = HotkeyFault;

    open spec fn view(&self) -> HotkeyFault {
        match self {
            HotkeyError::Empty => HotkeyFault::Empty,
            HotkeyError::EmptyKey => HotkeyFault::EmptyKey,
            HotkeyError::EmptyModifier => HotkeyFault::EmptyModifier,
            HotkeyError::UnsupportedModifier(t) => HotkeyFault::UnsupportedModifier(t@),
            HotkeyError::DuplicateModifier(t) => HotkeyFault::DuplicateModifier(t@),
            HotkeyError::UnsupportedKey(t) => HotkeyFault::UnsupportedKey(t@),
            HotkeyError::InvalidBinding { name, spec, reason } => HotkeyFault::InvalidBinding {
                name: name@,
                spec: spec@,
                reason: reason@,
            },
            HotkeyError::DuplicateBinding { name, spec, previous_name, previous_spec } =>
                HotkeyFault::DuplicateBinding {
                name: name@,
                spec: spec@,
                previous_name: previous_name@,
                previous_spec: previous_spec@,
            },
            HotkeyError::UnsupportedPlatform => HotkeyFault::UnsupportedPlatform,
            HotkeyError::Registration(m) => HotkeyFault::Registration(m@),
        }
    }
}

/// The `MOD_*` bit a modifier token stands for, or zero.
pub open spec fn modifier_bit(token: Seq<char>) -> u32 {
    if token == "alt"@ || token == "menu"@ {
        MOD_ALT
    } else if token == "ctrl"@ || token == "control"@ {
        MOD_CTRL
    } else if token == "shift"@ {
        MOD_SHIFT
    } else if token == "win"@ || token == "meta"@ || token == "super"@ {
        MOD_WIN
    } else {
        0
    }
}

fn modifier_bit_exec(token: &[char]) -> (r: u32)
    ensures
        r == modifier_bit(token@),
{
    if eq_str(token, "alt") || eq_str(token, "menu") {
        MOD_ALT
    } else if eq_str(token, "ctrl") || eq_str(token, "control") {
        MOD_CTRL
    } else if eq_str(token, "shift") {
        MOD_SHIFT
    } else if eq_str(token, "win") || eq_str(token, "meta") || eq_str(token, "super") {
        MOD_WIN
    } else {
        0
    }
}

/// Virtual-key code of a single punctuation character.
pub open spec fn symbol_key(c: char) -> Option<u32> {
    if c == ';' {
        Some(0xba)
    } else if c == '=' {
        Some(0xbb)
    } else if c == ',' {
        Some(0xbc)
    } else if c == '-' {
        Some(0xbd)
    } else if c == '.' {
        Some(0xbe)
    } else if c == '/' {
        Some(0xbf)
    } else if c == '`' {
        Some(0xc0)
    } else if c == '[' {
        Some(0xdb)
    } else if c == '\\' {
        Some(0xdc)
    } else if c == ']' {
        Some(0xdd)
    } else if c == '\'' {
        Some(0xde)
    } else {
        None
    }
}

fn symbol_key_exec(c: char) -> (r: Option<u32>)
    ensures
        r == symbol_key(c),
{
    if c == ';' {
        Some(0xba)
    } else if c == '=' {
        Some(0xbb)
    } else if c == ',' {
        Some(0xbc)
    } else if c == '-' {
        Some(0xbd)
    } else if c == '.' {
        Some(0xbe)
    } else if c == '/' {
        Some(0xbf)
    } else if c == '`' {
        Some(0xc0)
    } else if c == '[' {
        Some(0xdb)
    } else if c == '\\' {
        Some(0xdc)
    } else if c == ']' {
        Some(0xdd)
    } else if c == '\'' {
        Some(0xde)
    } else {
        None
    }
}

/// Key names with a fixed code: the numeric keypad, editing and arrow keys.
pub open spec fn fixed_key(key: Seq<char>) -> Option<u32> {
    if key == "numpad0"@ || key == "num0"@ || key == "kp0"@ {
        Some(0x60)
    } else if key == "numpad1"@ || key == "num1"@ || key == "kp1"@ {
        Some(0x61)
    } else if key == "numpad2"@ || key == "num2"@ || key == "kp2"@ {
        Some(0x62)
    } else if key == "numpad3"@ || key == "num3"@ || key == "kp3"@ {
        Some(0x63)
    } else if key == "numpad4"@ || key == "num4"@ || key == "kp4"@ {
        Some(0x64)
    } else if key == "numpad5"@ || key == "num5"@ || key == "kp5"@ {
        Some(0x65)
    } else if key == "numpad6"@ || key == "num6"@ || key == "kp6"@ {
        Some(0x66)
    } else if key == "numpad7"@ || key == "num7"@ || key == "kp7"@ {
        Some(0x67)
    } else if key == "numpad8"@ || key == "num8"@ || key == "kp8"@ {
        Some(0x68)
    } else if key == "numpad9"@ || key == "num9"@ || key == "kp9"@ {
        Some(0x69)
    } else if key == "add"@ || key == "plus"@ || key == "kpadd"@ {
        Some(0x6b)
    } else if key == "subtract"@ || key == "minus"@ || key == "kpsubtract"@ {
        Some(0x6d)
    } else if key == "tab"@ {
        Some(0x09)
    } else if key == "backspace"@ {
        Some(0x08)
    } else if key == "insert"@ {
        Some(0x2d)
    } else if key == "delete"@ {
        Some(0x2e)
    } else if key == "home"@ {
        Some(0x24)
    } else if key == "end"@ {
        Some(0x23)
    } else if key == "pageup"@ {
        Some(0x21)
    } else if key == "pagedown"@ {
        Some(0x22)
    } else if key == "left"@ {
        Some(0x25)
    } else if key == "up"@ {
        Some(0x26)
    } else if key == "right"@ {
        Some(0x27)
    } else if key == "down"@ {
        Some(0x28)
    } else {
        None
    }
}

fn fixed_key_exec(key: &[char]) -> (r: Option<u32>)
    ensures
        r == fixed_key(key@),
{
    if eq_str(key, "numpad0") || eq_str(key, "num0") || eq_str(key, "kp0") {
        Some(0x60)
    } else if eq_str(key, "numpad1") || eq_str(key, "num1") || eq_str(key, "kp1") {
        Some(0x61)
    } else if eq_str(key, "numpad2") || eq_str(key, "num2") || eq_str(key, "kp2") {
        Some(0x62)
    } else if eq_str(key, "numpad3") || eq_str(key, "num3") || eq_str(key, "kp3") {
        Some(0x63)
    } else if eq_str(key, "numpad4") || eq_str(key, "num4") || eq_str(key, "kp4") {
        Some(0x64)
    } else if eq_str(key, "numpad5") || eq_str(key, "num5") || eq_str(key, "kp5") {
        Some(0x65)
    } else if eq_str(key, "numpad6") || eq_str(key, "num6") || eq_str(key, "kp6") {
        Some(0x66)
    } else if eq_str(key, "numpad7") || eq_str(key, "num7") || eq_str(key, "kp7") {
        Some(0x67)
    } else if eq_str(key, "numpad8") || eq_str(key, "num8") || eq_str(key, "kp8") {
        Some(0x68)
    } else if eq_str(key, "numpad9") || eq_str(key, "num9") || eq_str(key, "kp9") {
        Some(0x69)
    } else if eq_str(key, "add") || eq_str(key, "plus") || eq_str(key, "kpadd") {
        Some(0x6b)
    } else if eq_str(key, "subtract") || eq_str(key, "minus") || eq_str(key, "kpsubtract") {
        Some(0x6d)
    } else if eq_str(key, "tab") {
        Some(0x09)
    } else if eq_str(key, "backspace") {
        Some(0x08)
    } else if eq_str(key, "insert") {
        Some(0x2d)
    } else if eq_str(key, "delete") {
        Some(0x2e)
    } else if eq_str(key, "home") {
        Some(0x24)
    } else if eq_str(key, "end") {
        Some(0x23)
    } else if eq_str(key, "pageup") {
        Some(0x21)
    } else if eq_str(key, "pagedown") {
        Some(0x22)
    } else if eq_str(key, "left") {
        Some(0x25)
    } else if eq_str(key, "up") {
        Some(0x26)
    } else if eq_str(key, "right") {
        Some(0x27)
    } else if eq_str(key, "down") {
        Some(0x28)
    } else {
        None
    }
}

/// Configuration tokens of named keys (the same table the recorder formats with).
pub open spec fn named_key(key: Seq<char>) -> Option<u32> {
    if key == "backspace"@ {
        Some(0x08)
    } else if key == "tab"@ {
        Some(0x09)
    } else if key == "enter"@ {
        Some(0x0d)
    } else if key == "pause"@ {
        Some(0x13)
    } else if key == "capslock"@ {
        Some(0x14)
    } else if key == "pageup"@ {
        Some(0x21)
    } else if key == "pagedown"@ {
        Some(0x22)
    } else if key == "end"@ {
        Some(0x23)
    } else if key == "home"@ {
        Some(0x24)
    } else if key == "left"@ {
        Some(0x25)
    } else if key == "up"@ {
        Some(0x26)
    } else if key == "right"@ {
        Some(0x27)
    } else if key == "down"@ {
        Some(0x28)
    } else if key == "printscreen"@ {
        Some(0x2c)
    } else if key == "insert"@ {
        Some(0x2d)
    } else if key == "delete"@ {
        Some(0x2e)
    } else if key == "numlock"@ {
        Some(0x90)
    } else if key == "scrolllock"@ {
        Some(0x91)
    } else if key == "esc"@ {
        Some(0x1b)
    } else if key == "space"@ {
        Some(0x20)
    } else if key == "multiply"@ {
        Some(0x6a)
    } else if key == "add"@ {
        Some(0x6b)
    } else if key == "separator"@ {
        Some(0x6c)
    } else if key == "subtract"@ {
        Some(0x6d)
    } else if key == "decimal"@ {
        Some(0x6e)
    } else if key == "divide"@ {
        Some(0x6f)
    } else if key == "semicolon"@ {
        Some(0xba)
    } else if key == "equals"@ {
        Some(0xbb)
    } else if key == "comma"@ {
        Some(0xbc)
    } else if key == "hyphen"@ {
        Some(0xbd)
    } else if key == "period"@ {
        Some(0xbe)
    } else if key == "slash"@ {
        Some(0xbf)
    } else if key == "backtick"@ {
        Some(0xc0)
    } else if key == "leftbracket"@ {
        Some(0xdb)
    } else if key == "backslash"@ {
        Some(0xdc)
    } else if key == "rightbracket"@ {
        Some(0xdd)
    } else if key == "quote"@ {
        Some(0xde)
    } else if key == "oem102"@ {
        Some(0xe2)
    } else if key == "browserback"@ {
        Some(0xa6)
    } else if key == "browserforward"@ {
        Some(0xa7)
    } else if key == "browserrefresh"@ {
        Some(0xa8)
    } else if key == "browserstop"@ {
        Some(0xa9)
    } else if key == "browsersearch"@ {
        Some(0xaa)
    } else if key == "browserfavorites"@ {
        Some(0xab)
    } else if key == "browserhome"@ {
        Some(0xac)
    } else if key == "volumemute"@ {
        Some(0xad)
    } else if key == "volumedown"@ {
        Some(0xae)
    } else if key == "volumeup"@ {
        Some(0xaf)
    } else if key == "medianext"@ {
        Some(0xb0)
    } else if key == "mediaprevious"@ {
        Some(0xb1)
    } else if key == "mediastop"@ {
        Some(0xb2)
    } else if key == "mediaplaypause"@ {
        Some(0xb3)
    } else if key == "launchmail"@ {
        Some(0xb4)
    } else if key == "launchmedia"@ {
        Some(0xb5)
    } else if key == "launchapp1"@ {
        Some(0xb6)
    } else if key == "launchapp2"@ {
        Some(0xb7)
    } else {
        None
    }
}

fn named_key_exec(key: &[char]) -> (r: Option<u32>)
    ensures
        r == named_key(key@),
{
    if eq_str(key, "backspace") {
        Some(0x08)
    } else if eq_str(key, "tab") {
        Some(0x09)
    } else if eq_str(key, "enter") {
        Some(0x0d)
    } else if eq_str(key, "pause") {
        Some(0x13)
    } else if eq_str(key, "capslock") {
        Some(0x14)
    } else if eq_str(key, "pageup") {
        Some(0x21)
    } else if eq_str(key, "pagedown") {
        Some(0x22)
    } else if eq_str(key, "end") {
        Some(0x23)
    } else if eq_str(key, "home") {
        Some(0x24)
    } else if eq_str(key, "left") {
        Some(0x25)
    } else if eq_str(key, "up") {
        Some(0x26)
    } else if eq_str(key, "right") {
        Some(0x27)
    } else if eq_str(key, "down") {
        Some(0x28)
    } else if eq_str(key, "printscreen") {
        Some(0x2c)
    } else if eq_str(key, "insert") {
        Some(0x2d)
    } else if eq_str(key, "delete") {
        Some(0x2e)
    } else if eq_str(key, "numlock") {
        Some(0x90)
    } else if eq_str(key, "scrolllock") {
        Some(0x91)
    } else if eq_str(key, "esc") {
        Some(0x1b)
    } else if eq_str(key, "space") {
        Some(0x20)
    } else if eq_str(key, "multiply") {
        Some(0x6a)
    } else if eq_str(key, "add") {
        Some(0x6b)
    } else if eq_str(key, "separator") {
        Some(0x6c)
    } else if eq_str(key, "subtract") {
        Some(0x6d)
    } else if eq_str(key, "decimal") {
        Some(0x6e)
    } else if eq_str(key, "divide") {
        Some(0x6f)
    } else if eq_str(key, "semicolon") {
        Some(0xba)
    } else if eq_str(key, "equals") {
        Some(0xbb)
    } else if eq_str(key, "comma") {
        Some(0xbc)
    } else if eq_str(key, "hyphen") {
        Some(0xbd)
    } else if eq_str(key, "period") {
        Some(0xbe)
    } else if eq_str(key, "slash") {
        Some(0xbf)
    } else if eq_str(key, "backtick") {
        Some(0xc0)
    } else if eq_str(key, "leftbracket") {
        Some(0xdb)
    } else if eq_str(key, "backslash") {
        Some(0xdc)
    } else if eq_str(key, "rightbracket") {
        Some(0xdd)
    } else if eq_str(key, "quote") {
        Some(0xde)
    } else if eq_str(key, "oem102") {
        Some(0xe2)
    } else if eq_str(key, "browserback") {
        Some(0xa6)
    } else if eq_str(key, "browserforward") {
        Some(0xa7)
    } else if eq_str(key, "browserrefresh") {
        Some(0xa8)
    } else if eq_str(key, "browserstop") {
        Some(0xa9)
    } else if eq_str(key, "browsersearch") {
        Some(0xaa)
    } else if eq_str(key, "browserfavorites") {
        Some(0xab)
    } else if eq_str(key, "browserhome") {
        Some(0xac)
    } else if eq_str(key, "volumemute") {
        Some(0xad)
    } else if eq_str(key, "volumedown") {
        Some(0xae)
    } else if eq_str(key, "volumeup") {
        Some(0xaf)
    } else if eq_str(key, "medianext") {
        Some(0xb0)
    } else if eq_str(key, "mediaprevious") {
        Some(0xb1)
    } else if eq_str(key, "mediastop") {
        Some(0xb2)
    } else if eq_str(key, "mediaplaypause") {
        Some(0xb3)
    } else if eq_str(key, "launchmail") {
        Some(0xb4)
    } else if eq_str(key, "launchmedia") {
        Some(0xb5)
    } else if eq_str(key, "launchapp1") {
        Some(0xb6)
    } else if eq_str(key, "launchapp2") {
        Some(0xb7)
    } else {
        None
    }
}

/// Configuration token of a named key code.
pub open spec fn key_token(vk: u32) -> Option<Seq<char>> {
    if vk == 0x08 {
        Some("backspace"@)
    } else if vk == 0x09 {
        Some("tab"@)
    } else if vk == 0x0d {
        Some("enter"@)
    } else if vk == 0x13 {
        Some("pause"@)
    } else if vk == 0x14 {
        Some("capslock"@)
    } else if vk == 0x21 {
        Some("pageup"@)
    } else if vk == 0x22 {
        Some("pagedown"@)
    } else if vk == 0x23 {
        Some("end"@)
    } else if vk == 0x24 {
        Some("home"@)
    } else if vk == 0x25 {
        Some("left"@)
    } else if vk == 0x26 {
        Some("up"@)
    } else if vk == 0x27 {
        Some("right"@)
    } else if vk == 0x28 {
        Some("down"@)
    } else if vk == 0x2c {
        Some("printscreen"@)
    } else if vk == 0x2d {
        Some("insert"@)
    } else if vk == 0x2e {
        Some("delete"@)
    } else if vk == 0x90 {
        Some("numlock"@)
    } else if vk == 0x91 {
        Some("scrolllock"@)
    } else if vk == 0x1b {
        Some("esc"@)
    } else if vk == 0x20 {
        Some("space"@)
    } else if vk == 0x6a {
        Some("multiply"@)
    } else if vk == 0x6b {
        Some("add"@)
    } else if vk == 0x6c {
        Some("separator"@)
    } else if vk == 0x6d {
        Some("subtract"@)
    } else if vk == 0x6e {
        Some("decimal"@)
    } else if vk == 0x6f {
        Some("divide"@)
    } else if vk == 0xba {
        Some("semicolon"@)
    } else if vk == 0xbb {
        Some("equals"@)
    } else if vk == 0xbc {
        Some("comma"@)
    } else if vk == 0xbd {
        Some("hyphen"@)
    } else if vk == 0xbe {
        Some("period"@)
    } else if vk == 0xbf {
        Some("slash"@)
    } else if vk == 0xc0 {
        Some("backtick"@)
    } else if vk == 0xdb {
        Some("leftbracket"@)
    } else if vk == 0xdc {
        Some("backslash"@)
    } else if vk == 0xdd {
        Some("rightbracket"@)
    } else if vk == 0xde {
        Some("quote"@)
    } else if vk == 0xe2 {
        Some("oem102"@)
    } else if vk == 0xa6 {
        Some("browserback"@)
    } else if vk == 0xa7 {
        Some("browserforward"@)
    } else if vk == 0xa8 {
        Some("browserrefresh"@)
    } else if vk == 0xa9 {
        Some("browserstop"@)
    } else if vk == 0xaa {
        Some("browsersearch"@)
    } else if vk == 0xab {
        Some("browserfavorites"@)
    } else if vk == 0xac {
        Some("browserhome"@)
    } else if vk == 0xad {
        Some("volumemute"@)
    } else if vk == 0xae {
        Some("volumedown"@)
    } else if vk == 0xaf {
        Some("volumeup"@)
    } else if vk == 0xb0 {
        Some("medianext"@)
    } else if vk == 0xb1 {
        Some("mediaprevious"@)
    } else if vk == 0xb2 {
        Some("mediastop"@)
    } else if vk == 0xb3 {
        Some("mediaplaypause"@)
    } else if vk == 0xb4 {
        Some("launchmail"@)
    } else if vk == 0xb5 {
        Some("launchmedia"@)
    } else if vk == 0xb6 {
        Some("launchapp1"@)
    } else if vk == 0xb7 {
        Some("launchapp2"@)
    } else {
        None
    }
}

/// Display label of a named key code.
pub open spec fn key_label(vk: u32) -> Option<Seq<char>> {
    if vk == 0x08 {
        Some("Backspace"@)
    } else if vk == 0x09 {
        Some("Tab"@)
    } else if vk == 0x0d {
        Some("Enter"@)
    } else if vk == 0x13 {
        Some("Pause"@)
    } else if vk == 0x14 {
        Some("Caps Lock"@)
    } else if vk == 0x21 {
        Some("Page Up"@)
    } else if vk == 0x22 {
        Some("Page Down"@)
    } else if vk == 0x23 {
        Some("End"@)
    } else if vk == 0x24 {
        Some("Home"@)
    } else if vk == 0x25 {
        Some("Left"@)
    } else if vk == 0x26 {
        Some("Up"@)
    } else if vk == 0x27 {
        Some("Right"@)
    } else if vk == 0x28 {
        Some("Down"@)
    } else if vk == 0x2c {
        Some("Print Screen"@)
    } else if vk == 0x2d {
        Some("Insert"@)
    } else if vk == 0x2e {
        Some("Delete"@)
    } else if vk == 0x90 {
        Some("Num Lock"@)
    } else if vk == 0x91 {
        Some("Scroll Lock"@)
    } else if vk == 0x1b {
        Some("Esc"@)
    } else if vk == 0x20 {
        Some("Space"@)
    } else if vk == 0x6a {
        Some("Num *"@)
    } else if vk == 0x6b {
        Some("Num +"@)
    } else if vk == 0x6c {
        Some("Num Separator"@)
    } else if vk == 0x6d {
        Some("Num -"@)
    } else if vk == 0x6e {
        Some("Num Decimal"@)
    } else if vk == 0x6f {
        Some("Num /"@)
    } else if vk == 0xba {
        Some(";"@)
    } else if vk == 0xbb {
        Some("="@)
    } else if vk == 0xbc {
        Some(","@)
    } else if vk == 0xbd {
        Some("-"@)
    } else if vk == 0xbe {
        Some("."@)
    } else if vk == 0xbf {
        Some("/"@)
    } else if vk == 0xc0 {
        Some("`"@)
    } else if vk == 0xdb {
        Some("["@)
    } else if vk == 0xdc {
        Some("\\"@)
    } else if vk == 0xdd {
        Some("]"@)
    } else if vk == 0xde {
        Some("'"@)
    } else if vk == 0xe2 {
        Some("OEM 102"@)
    } else if vk == 0xa6 {
        Some("Browser Back"@)
    } else if vk == 0xa7 {
        Some("Browser Forward"@)
    } else if vk == 0xa8 {
        Some("Browser Refresh"@)
    } else if vk == 0xa9 {
        Some("Browser Stop"@)
    } else if vk == 0xaa {
        Some("Browser Search"@)
    } else if vk == 0xab {
        Some("Browser Favorites"@)
    } else if vk == 0xac {
        Some("Browser Home"@)
    } else if vk == 0xad {
        Some("Volume Mute"@)
    } else if vk == 0xae {
        Some("Volume Down"@)
    } else if vk == 0xaf {
        Some("Volume Up"@)
    } else if vk == 0xb0 {
        Some("Media Next"@)
    } else if vk == 0xb1 {
        Some("Media Previous"@)
    } else if vk == 0xb2 {
        Some("Media Stop"@)
    } else if vk == 0xb3 {
        Some("Media Play/Pause"@)
    } else if vk == 0xb4 {
        Some("Launch Mail"@)
    } else if vk == 0xb5 {
        Some("Launch Media"@)
    } else if vk == 0xb6 {
        Some("Launch App 1"@)
    } else if vk == 0xb7 {
        Some("Launch App 2"@)
    } else {
        None
    }
}

pub fn key_token_exec(vk: u32) -> (r: Option<&'static str>)
    ensures
        match r {
            Some(t) => key_token(vk) == Some(t@),
            None => key_token(vk) is None,
        },
{
    if vk == 0x08 {
        Some("backspace")
    } else if vk == 0x09 {
        Some("tab")
    } else if vk == 0x0d {
        Some("enter")
    } else if vk == 0x13 {
        Some("pause")
    } else if vk == 0x14 {
        Some("capslock")
    } else if vk == 0x21 {
        Some("pageup")
    } else if vk == 0x22 {
        Some("pagedown")
    } else if vk == 0x23 {
        Some("end")
    } else if vk == 0x24 {
        Some("home")
    } else if vk == 0x25 {
        Some("left")
    } else if vk == 0x26 {
        Some("up")
    } else if vk == 0x27 {
        Some("right")
    } else if vk == 0x28 {
        Some("down")
    } else if vk == 0x2c {
        Some("printscreen")
    } else if vk == 0x2d {
        Some("insert")
    } else if vk == 0x2e {
        Some("delete")
    } else if vk == 0x90 {
        Some("numlock")
    } else if vk == 0x91 {
        Some("scrolllock")
    } else if vk == 0x1b {
        Some("esc")
    } else if vk == 0x20 {
        Some("space")
    } else if vk == 0x6a {
        Some("multiply")
    } else if vk == 0x6b {
        Some("add")
    } else if vk == 0x6c {
        Some("separator")
    } else if vk == 0x6d {
        Some("subtract")
    } else if vk == 0x6e {
        Some("decimal")
    } else if vk == 0x6f {
        Some("divide")
    } else if vk == 0xba {
        Some("semicolon")
    } else if vk == 0xbb {
        Some("equals")
    } else if vk == 0xbc {
        Some("comma")
    } else if vk == 0xbd {
        Some("hyphen")
    } else if vk == 0xbe {
        Some("period")
    } else if vk == 0xbf {
        Some("slash")
    } else if vk == 0xc0 {
        Some("backtick")
    } else if vk == 0xdb {
        Some("leftbracket")
    } else if vk == 0xdc {
        Some("backslash")
    } else if vk == 0xdd {
        Some("rightbracket")
    } else if vk == 0xde {
        Some("quote")
    } else if vk == 0xe2 {
        Some("oem102")
    } else if vk == 0xa6 {
        Some("browserback")
    } else if vk == 0xa7 {
        Some("browserforward")
    } else if vk == 0xa8 {
        Some("browserrefresh")
    } else if vk == 0xa9 {
        Some("browserstop")
    } else if vk == 0xaa {
        Some("browsersearch")
    } else if vk == 0xab {
        Some("browserfavorites")
    } else if vk == 0xac {
        Some("browserhome")
    } else if vk == 0xad {
        Some("volumemute")
    } else if vk == 0xae {
        Some("volumedown")
    } else if vk == 0xaf {
        Some("volumeup")
    } else if vk == 0xb0 {
        Some("medianext")
    } else if vk == 0xb1 {
        Some("mediaprevious")
    } else if vk == 0xb2 {
        Some("mediastop")
    } else if vk == 0xb3 {
        Some("mediaplaypause")
    } else if vk == 0xb4 {
        Some("launchmail")
    } else if vk == 0xb5 {
        Some("launchmedia")
    } else if vk == 0xb6 {
        Some("launchapp1")
    } else if vk == 0xb7 {
        Some("launchapp2")
    } else {
        None
    }
}

pub fn key_label_exec(vk: u32) -> (r: Option<&'static str>)
    ensures
        match r {
            Some(t) => key_label(vk) == Some(t@),
            None => key_label(vk) is None,
        },
{
    if vk == 0x08 {
        Some("Backspace")
    } else if vk == 0x09 {
        Some("Tab")
    } else if vk == 0x0d {
        Some("Enter")
    } else if vk == 0x13 {
        Some("Pause")
    } else if vk == 0x14 {
        Some("Caps Lock")
    } else if vk == 0x21 {
        Some("Page Up")
    } else if vk == 0x22 {
        Some("Page Down")
    } else if vk == 0x23 {
        Some("End")
    } else if vk == 0x24 {
        Some("Home")
    } else if vk == 0x25 {
        Some("Left")
    } else if vk == 0x26 {
        Some("Up")
    } else if vk == 0x27 {
        Some("Right")
    } else if vk == 0x28 {
        Some("Down")
    } else if vk == 0x2c {
        Some("Print Screen")
    } else if vk == 0x2d {
        Some("Insert")
    } else if vk == 0x2e {
        Some("Delete")
    } else if vk == 0x90 {
        Some("Num Lock")
    } else if vk == 0x91 {
        Some("Scroll Lock")
    } else if vk == 0x1b {
        Some("Esc")
    } else if vk == 0x20 {
        Some("Space")
    } else if vk == 0x6a {
        Some("Num *")
    } else if vk == 0x6b {
        Some("Num +")
    } else if vk == 0x6c {
        Some("Num Separator")
    } else if vk == 0x6d {
        Some("Num -")
    } else if vk == 0x6e {
        Some("Num Decimal")
    } else if vk == 0x6f {
        Some("Num /")
    } else if vk == 0xba {
        Some(";")
    } else if vk == 0xbb {
        Some("=")
    } else if vk == 0xbc {
        Some(",")
    } else if vk == 0xbd {
        Some("-")
    } else if vk == 0xbe {
        Some(".")
    } else if vk == 0xbf {
        Some("/")
    } else if vk == 0xc0 {
        Some("`")
    } else if vk == 0xdb {
        Some("[")
    } else if vk == 0xdc {
        Some("\\")
    } else if vk == 0xdd {
        Some("]")
    } else if vk == 0xde {
        Some("'")
    } else if vk == 0xe2 {
        Some("OEM 102")
    } else if vk == 0xa6 {
        Some("Browser Back")
    } else if vk == 0xa7 {
        Some("Browser Forward")
    } else if vk == 0xa8 {
        Some("Browser Refresh")
    } else if vk == 0xa9 {
        Some("Browser Stop")
    } else if vk == 0xaa {
        Some("Browser Search")
    } else if vk == 0xab {
        Some("Browser Favorites")
    } else if vk == 0xac {
        Some("Browser Home")
    } else if vk == 0xad {
        Some("Volume Mute")
    } else if vk == 0xae {
        Some("Volume Down")
    } else if vk == 0xaf {
        Some("Volume Up")
    } else if vk == 0xb0 {
        Some("Media Next")
    } else if vk == 0xb1 {
        Some("Media Previous")
    } else if vk == 0xb2 {
        Some("Media Stop")
    } else if vk == 0xb3 {
        Some("Media Play/Pause")
    } else if vk == 0xb4 {
        Some("Launch Mail")
    } else if vk == 0xb5 {
        Some("Launch Media")
    } else if vk == 0xb6 {
        Some("Launch App 1")
    } else if vk == 0xb7 {
        Some("Launch App 2")
    } else {
        None
    }
}

/// `true` when `s` is `vk_` followed by exactly two hexadecimal digits.
pub open spec fn is_raw_code(s: Seq<char>) -> bool {
    &&& s.len() == 5
    &&& s[0] == 'v' && s[1] == 'k' && s[2] == '_'
    &&& hex_value(s[3]) is Some
    &&& hex_value(s[4]) is Some
}

pub open spec fn raw_code(s: Seq<char>) -> u32 {
    (hex_value(s[3]).unwrap() * 16 + hex_value(s[4]).unwrap()) as u32
}

/// Function keys `f1` to `f24`.
pub open spec fn function_key(key: Seq<char>) -> Option<u32> {
    let digits = key.drop_first();
    if key.len() >= 2 && key[0] == 'f' && all_digits(digits) && 1 <= digits_value(digits) <= 24 {
        Some((0x6f + digits_value(digits)) as u32)
    } else {
        None
    }
}

/// The virtual-key code a (trimmed, lowercase) key token names. A single
/// ASCII character names itself (letters and digits by their uppercase code,
/// punctuation by its OEM key); longer tokens are key names, `f1`..`f24`, or
/// `vk_` with two hexadecimal digits.
pub open spec fn key_code(key: Seq<char>) -> Option<u32> {
    if key.len() == 1 && (key[0] as u32) < 128 {
        match symbol_key(key[0]) {
            Some(vk) => Some(vk),
            None => Some(upper_char(key[0]) as u32),
        }
    } else if key == "esc"@ || key == "escape"@ {
        Some(0x1b)
    } else if key == "space"@ {
        Some(0x20)
    } else if key == "enter"@ || key == "return"@ {
        Some(0x0d)
    } else if function_key(key) is Some {
        function_key(key)
    } else if fixed_key(key) is Some {
        fixed_key(key)
    } else if named_key(key) is Some {
        named_key(key)
    } else if is_raw_code(key) {
        Some(raw_code(key))
    } else {
        None
    }
}

fn hex_value_exec(c: char) -> (r: Option<u32>)
    ensures
        match r {
            Some(v) => hex_value(c) == Some(v as int) && v < 16,
            None => hex_value(c) is None,
        },
{
    if '0' <= c && c <= '9' {
        Some(c as u32 - 48)
    } else if 'a' <= c && c <= 'f' {
        Some(c as u32 - 87)
    } else {
        None
    }
}

fn function_key_exec(key: &[char]) -> (r: Option<u32>)
    ensures
        r == function_key(key@),
{
    if key.len() < 2 || key[0] != 'f' {
        return None;
    }
    let mut digits: Vec<char> = Vec::new();
    let mut i: usize = 1;
    while i < key.len()
        invariant
            1 <= i <= key@.len(),
            digits@ == key@.subrange(1, i as int),
        decreases key@.len() - i,
    {
        digits.push(key[i]);
        proof {
            assert(key@.subrange(1, i + 1) =~= key@.subrange(1, i as int).push(key@[i as int]));
        }
        i = i + 1;
    }
    proof {
        assert(digits@ =~= key@.drop_first());
    }
    if !all_digits_exec(digits.as_slice()) {
        return None;
    }
    match digits_value_bounded(digits.as_slice(), 24) {
        Some(n) => {
            if n >= 1 {
                Some((0x6f + n) as u32)
            } else {
                None
            }
        },
        None => None,
    }
}

/// The virtual-key code of a key token, if it names one.
pub fn key_to_virtual_key(key: &[char]) -> (r: Option<u32>)
    ensures
        r == key_code(key@),
{
    if key.len() == 1 && (key[0] as u32) < 128 {
        return match symbol_key_exec(key[0]) {
            Some(vk) => Some(vk),
            None => Some(upper_char_exec(key[0]) as u32),
        };
    }
    if eq_str(key, "esc") || eq_str(key, "escape") {
        return Some(0x1b);
    }
    if eq_str(key, "space") {
        return Some(0x20);
    }
    if eq_str(key, "enter") || eq_str(key, "return") {
        return Some(0x0d);
    }
    if let Some(vk) = function_key_exec(key) {
        return Some(vk);
    }
    if let Some(vk) = fixed_key_exec(key) {
        return Some(vk);
    }
    if let Some(vk) = named_key_exec(key) {
        return Some(vk);
    }
    if key.len() == 5 && key[0] == 'v' && key[1] == 'k' && key[2] == '_' {
        if let (Some(high), Some(low)) = (hex_value_exec(key[3]), hex_value_exec(key[4])) {
            return Some(high * 16 + low);
        }
    }
    None
}

/// The tokens of a specification: split on `+`, trimmed, ASCII-lowercased.
pub open spec fn hotkey_tokens(spec: Seq<char>) -> Seq<Seq<char>> {
    split(spec, '+').map_values(|t: Seq<char>| lower(trim(t)))
}

/// Folds modifier tokens left to right; the first empty, unknown or repeated
/// token is the error.
pub open spec fn modifier_mask(tokens: Seq<Seq<char>>) -> Result<u32, HotkeyFault>
    decreases tokens.len(),
{
    if tokens.len() == 0 {
        Ok(0)
    } else {
        match modifier_mask(tokens.drop_last()) {
            Err(e) => Err(e),
            Ok(mask) => {
                let t = tokens.last();
                let bit = modifier_bit(t);
                if t.len() == 0 {
                    Err(HotkeyFault::EmptyModifier)
                } else if bit == 0 {
                    Err(HotkeyFault::UnsupportedModifier(t))
                } else if mask & bit != 0 {
                    Err(HotkeyFault::DuplicateModifier(t))
                } else {
                    Ok(mask | bit)
                }
            },
        }
    }
}

/// What parsing a hotkey specification yields.
pub open spec fn hotkey_of(spec: Seq<char>) -> Result<ParsedHotkey, HotkeyFault> {
    if trim(spec).len() == 0 {
        Err(HotkeyFault::Empty)
    } else {
        let parts = hotkey_tokens(spec);
        let key = parts.last();
        if key.len() == 0 {
            Err(HotkeyFault::EmptyKey)
        } else {
            match modifier_mask(parts.drop_last()) {
                Err(e) => Err(e),
                Ok(mask) => match key_code(key) {
                    Some(vk) => Ok(ParsedHotkey { modifiers: mask, virtual_key: vk }),
                    None => Err(HotkeyFault::UnsupportedKey(key)),
                },
            }
        }
    }
}

pub open spec fn hotkey_result_matches(
    r: Result<ParsedHotkey, HotkeyError>,
    expected: Result<ParsedHotkey, HotkeyFault>,
) -> bool {
    match r {
        Ok(k) => expected == Ok::<ParsedHotkey, HotkeyFault>(k),
        Err(e) => expected == Err::<ParsedHotkey, HotkeyFault>(e@),
    }
}

/// Parses a specification such as `ctrl+alt+q` or `ALT + Control + Q`.
pub fn parse_hotkey(spec: &str) -> (r: Result<ParsedHotkey, HotkeyError>)
    ensures
        hotkey_result_matches(r, hotkey_of(spec@)),
{
    let chars = chars_of(spec);
    let trimmed = trim_chars(chars.as_slice());
    if trimmed.len() == 0 {
        return Err(HotkeyError::Empty);
    }
    let pieces = split_chars(chars.as_slice(), '+');
    let ghost tokens = hotkey_tokens(spec@);
    proof {
        lemma_split_nonempty(spec@, '+');
    }
    let mut parts: Vec<Vec<char>> = Vec::new();
    let mut i: usize = 0;
    while i < pieces.len()
        invariant
            0 <= i <= pieces@.len(),
            pieces@.len() == tokens.len(),
            tokens == hotkey_tokens(spec@),
            chars@ == spec@,
            forall|k: int| 0 <= k < pieces@.len() ==> (#[trigger] pieces@[k])@ == split(spec@, '+')[k],
            parts@.len() == i,
            forall|k: int| 0 <= k < i ==> (#[trigger] parts@[k])@ == tokens[k],
        decreases pieces@.len() - i,
    {
        let trimmed_piece = trim_chars(pieces[i].as_slice());
        parts.push(lower_chars(trimmed_piece.as_slice()));
        i = i + 1;
    }
    let n = parts.len();
    let key = &parts[n - 1];
    if key.len() == 0 {
        return Err(HotkeyError::EmptyKey);
    }
    let ghost mods = tokens.drop_last();
    let mut modifiers: u32 = 0;
    let mut i: usize = 0;
    while i < n - 1
        invariant
            0 <= i <= n - 1,
            n == parts@.len(),
            n == tokens.len(),
            mods == tokens.drop_last(),
            tokens == hotkey_tokens(spec@),
            trim(spec@).len() > 0,
            tokens.last().len() > 0,
            forall|k: int| 0 <= k < n ==> (#[trigger] parts@[k])@ == tokens[k],
            modifier_mask(mods.take(i as int)) == Ok::<u32, HotkeyFault>(modifiers),
        decreases n - 1 - i,
    {
        let token = parts[i].as_slice();
        proof {
            assert(mods.take(i as int + 1).drop_last() =~= mods.take(i as int));
            assert(mods.take(i as int + 1).last() == tokens[i as int]);
            assert(token@ == tokens[i as int]);
        }
        if token.len() == 0 {
            proof {
                lemma_mask_error_stays(mods, i as int + 1);
            }
            return Err(HotkeyError::EmptyModifier);
        }
        let bit = modifier_bit_exec(token);
        if bit == 0 {
            proof {
                lemma_mask_error_stays(mods, i as int + 1);
            }
            return Err(HotkeyError::UnsupportedModifier(string_of(token)));
        }
        if modifiers & bit != 0 {
            proof {
                lemma_mask_error_stays(mods, i as int + 1);
            }
            return Err(HotkeyError::DuplicateModifier(string_of(token)));
        }
        modifiers = modifiers | bit;
        i = i + 1;
    }
    proof {
        assert(mods.take(mods.len() as int) =~= mods);
    }
    match key_to_virtual_key(key.as_slice()) {
        Some(vk) => Ok(ParsedHotkey { modifiers, virtual_key: vk }),
        None => Err(HotkeyError::UnsupportedKey(string_of(key.as_slice()))),
    }
}

/// Once a prefix of the modifier tokens fails, the whole fold fails the same way.
proof fn lemma_mask_error_stays(tokens: Seq<Seq<char>>, n: int)
    requires
        0 <= n <= tokens.len(),
        modifier_mask(tokens.take(n)) is Err,
    ensures
        modifier_mask(tokens) == modifier_mask(tokens.take(n)),
    decreases tokens.len() - n,
{
    if n < tokens.len() {
        assert(tokens.drop_last().take(n) =~= tokens.take(n));
        lemma_mask_error_stays(tokens.drop_last(), n);
    } else {
        assert(tokens.take(n) =~= tokens);
    }
}

// ---------------------------------------------------------------------------
// Messages.

/// `str`'s `Debug` text: the string in double quotes, with `\t`, `\r`,
/// `\n`, `\\`, `"` and `\0` escaped and other characters that Unicode does not
/// class as printable written as `\u{..}` (under the Unicode tables of the
/// standard library the program is built with).
pub uninterp spec fn quoted(s: Seq<char>) -> Seq<char>;

/// `format!("{:?}", s)`; the result depends on the text alone.
#[verifier::external_body]
fn debug_text(s: &str) -> (r: String)
    ensures
        r@ == quoted(s@),
{
    format!("{:?}", s)
}

fn push_quoted(out: &mut Vec<char>, s: &str)
    ensures
        final(out)@ == old(out)@ + quoted(s@),
{
    let text = debug_text(s);
    push_str(out, text.as_str());
}

/// The text an error displays.
pub open spec fn fault_message(f: HotkeyFault) -> Seq<char> {
    match f {
        HotkeyFault::Empty => "empty key"@,
        HotkeyFault::EmptyKey => "empty key token"@,
        HotkeyFault::EmptyModifier => "empty modifier token"@,
        HotkeyFault::UnsupportedModifier(t) => "unsupported modifier token: "@ + t,
        HotkeyFault::DuplicateModifier(t) => "duplicate modifier token: "@ + t,
        HotkeyFault::UnsupportedKey(t) => "unsupported key token: "@ + t,
        HotkeyFault::InvalidBinding { name, spec, reason } => "invalid "@ + name + " "@ + quoted(
            spec,
        ) + ": "@ + reason,
        HotkeyFault::DuplicateBinding { name, spec, previous_name, previous_spec } => name + " "@
            + quoted(spec) + " duplicates "@ + previous_name + " "@ + quoted(previous_spec),
        HotkeyFault::UnsupportedPlatform => "hotkeys are only available on Windows"@,
        HotkeyFault::Registration(m) => m,
    }
}

impl HotkeyError {
    /// The text this error displays.
    pub fn message(&self) -> (r: String)
        ensures
            r@ == fault_message(self@),
    {
        let mut out: Vec<char> = Vec::new();
        match self {
            HotkeyError::Empty => push_str(&mut out, "empty key"),
            HotkeyError::EmptyKey => push_str(&mut out, "empty key token"),
            HotkeyError::EmptyModifier => push_str(&mut out, "empty modifier token"),
            HotkeyError::UnsupportedModifier(t) => {
                push_str(&mut out, "unsupported modifier token: ");
                push_str(&mut out, t.as_str());
            },
            HotkeyError::DuplicateModifier(t) => {
                push_str(&mut out, "duplicate modifier token: ");
                push_str(&mut out, t.as_str());
            },
            HotkeyError::UnsupportedKey(t) => {
                push_str(&mut out, "unsupported key token: ");
                push_str(&mut out, t.as_str());
            },
            HotkeyError::InvalidBinding { name, spec, reason } => {
                push_str(&mut out, "invalid ");
                push_str(&mut out, name.as_str());
                push_str(&mut out, " ");
                push_quoted(&mut out, spec.as_str());
                push_str(&mut out, ": ");
                push_str(&mut out, reason.as_str());
            },
            HotkeyError::DuplicateBinding { name, spec, previous_name, previous_spec } => {
                push_str(&mut out, name.as_str());
                push_str(&mut out, " ");
                push_quoted(&mut out, spec.as_str());
                push_str(&mut out, " duplicates ");
                push_str(&mut out, previous_name.as_str());
                push_str(&mut out, " ");
                push_quoted(&mut out, previous_spec.as_str());
            },
            HotkeyError::UnsupportedPlatform => push_str(
                &mut out,
                "hotkeys are only available on Windows",
            ),
            HotkeyError::Registration(m) => push_str(&mut out, m.as_str()),
        }
        proof {
            assert(out@ =~= fault_message(self@));
        }
        string_of(out.as_slice())
    }
}

// ---------------------------------------------------------------------------
// Validation of the three bindings.

pub open spec fn binding_error(name: Seq<char>, spec: Seq<char>, f: HotkeyFault) -> HotkeyFault {
    HotkeyFault::InvalidBinding { name, spec, reason: fault_message(f) }
}

/// What validating the start, pause and cancel-or-retry bindings yields:
/// the first one that does not parse, or the first one that parses to the
/// same hotkey as an earlier binding.
pub open spec fn bindings_outcome(start: Seq<char>, pause: Seq<char>, cancel: Seq<char>) -> Result<
    (),
    HotkeyFault,
> {
    match hotkey_of(start) {
        Err(f) => Err(binding_error("START_KEY"@, start, f)),
        Ok(k0) => match hotkey_of(pause) {
            Err(f) => Err(binding_error("PAUSE_KEY"@, pause, f)),
            Ok(k1) => if k1 == k0 {
                Err(
                    HotkeyFault::DuplicateBinding {
                        name: "PAUSE_KEY"@,
                        spec: pause,
                        previous_name: "START_KEY"@,
                        previous_spec: start,
                    },
                )
            } else {
                match hotkey_of(cancel) {
                    Err(f) => Err(binding_error("CANCEL_OR_RETRY_KEY"@, cancel, f)),
                    Ok(k2) => if k2 == k0 {
                        Err(
                            HotkeyFault::DuplicateBinding {
                                name: "CANCEL_OR_RETRY_KEY"@,
                                spec: cancel,
                                previous_name: "START_KEY"@,
                                previous_spec: start,
                            },
                        )
                    } else if k2 == k1 {
                        Err(
                            HotkeyFault::DuplicateBinding {
                                name: "CANCEL_OR_RETRY_KEY"@,
                                spec: cancel,
                                previous_name: "PAUSE_KEY"@,
                                previous_spec: pause,
                            },
                        )
                    } else {
                        Ok(())
                    }
                }
            },
        },
    }
}

fn invalid_binding(name: &str, spec: &str, error: HotkeyError) -> (r: HotkeyError)
    ensures
        r@ == binding_error(name@, spec@, error@),
{
    let reason = error.message();
    HotkeyError::InvalidBinding {
        name: string_of(chars_of(name).as_slice()),
        spec: string_of(chars_of(spec).as_slice()),
        reason,
    }
}

fn duplicate_binding(name: &str, spec: &str, previous_name: &str, previous_spec: &str) -> (r:
    HotkeyError)
    ensures
        r@ == (HotkeyFault::DuplicateBinding {
            name: name@,
            spec: spec@,
            previous_name: previous_name@,
            previous_spec: previous_spec@,
        }),
{
    HotkeyError::DuplicateBinding {
        name: string_of(chars_of(name).as_slice()),
        spec: string_of(chars_of(spec).as_slice()),
        previous_name: string_of(chars_of(previous_name).as_slice()),
        previous_spec: string_of(chars_of(previous_spec).as_slice()),
    }
}

/// Checks that the three bindings parse and are pairwise different after
/// normalization (so `ALT + CONTROL + Q` duplicates `ctrl+alt+q`).
pub fn validate_bindings(start: &str, pause: &str, cancel: &str) -> (r: Result<(), HotkeyError>)
    ensures
        match r {
            Ok(()) => bindings_outcome(start@, pause@, cancel@) is Ok,
            Err(e) => bindings_outcome(start@, pause@, cancel@) == Err::<(), HotkeyFault>(e@),
        },
{
    let k0 = match parse_hotkey(start) {
        Ok(k) => k,
        Err(e) => return Err(invalid_binding("START_KEY", start, e)),
    };
    let k1 = match parse_hotkey(pause) {
        Ok(k) => k,
        Err(e) => return Err(invalid_binding("PAUSE_KEY", pause, e)),
    };
    if k1 == k0 {
        return Err(duplicate_binding("PAUSE_KEY", pause, "START_KEY", start));
    }
    let k2 = match parse_hotkey(cancel) {
        Ok(k) => k,
        Err(e) => return Err(invalid_binding("CANCEL_OR_RETRY_KEY", cancel, e)),
    };
    if k2 == k0 {
        return Err(duplicate_binding("CANCEL_OR_RETRY_KEY", cancel, "START_KEY", start));
    }
    if k2 == k1 {
        return Err(duplicate_binding("CANCEL_OR_RETRY_KEY", cancel, "PAUSE_KEY", pause));
    }
    Ok(())
}

/// The three bindings are accepted exactly when each parses and the three
/// hotkeys are pairwise different; any two that parse to the same hotkey
/// (start and pause, start and cancel, or pause and cancel) are refused.
pub proof fn bindings_must_be_distinct(start: Seq<char>, pause: Seq<char>, cancel: Seq<char>)
    ensures
        bindings_outcome(start, pause, cancel) is Ok <==> {
            &&& hotkey_of(start) is Ok
            &&& hotkey_of(pause) is Ok
            &&& hotkey_of(cancel) is Ok
            &&& hotkey_of(start) != hotkey_of(pause)
            &&& hotkey_of(start) != hotkey_of(cancel)
            &&& hotkey_of(pause) != hotkey_of(cancel)
        },
{
}

/// ASCII case does not matter: a specification parses exactly as its
/// lowercase form does, so `CTRL+Alt+Q` and `ctrl+alt+q` are one hotkey.
pub proof fn case_does_not_matter(spec: Seq<char>)
    ensures
        hotkey_of(lower(spec)) == hotkey_of(spec),
{
    lemma_trim_lower(spec);
    lemma_trim_lower(trim(spec));
    lemma_split_lower(spec, '+');
    let pieces = split(spec, '+');
    let a = hotkey_tokens(lower(spec));
    let b = hotkey_tokens(spec);
    assert forall|k: int| 0 <= k < pieces.len() implies #[trigger] a[k] == b[k] by {
        lemma_trim_lower(pieces[k]);
        lemma_lower_idempotent(trim(pieces[k]));
    }
    assert(a =~= b);
}

} // verus!
