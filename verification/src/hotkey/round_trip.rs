//! Configuration text written by the recorder reads back as the same hotkey.
use vstd::prelude::*;

use crate::hotkey::capture::{
    hotkey_parts, hotkey_text, key_part, modifier_part, modifier_parts, recordable,
};
use crate::hotkey::{
    fixed_key, function_key, hotkey_of, hotkey_tokens, is_raw_code, key_code, key_token,
    modifier_bit, modifier_mask, raw_code, symbol_key, HotkeyFault, ParsedHotkey,
};
use crate::text::{
    all_digits, decimal, digit_char, digits_value, hex_digit_char, hex_digits, hex_min2, hex_value,
    is_ascii_digit, is_ascii_upper, is_whitespace, join, lemma_split_nonempty, lower, lower_char,
    split, trim, trim_end, trim_start, upper_char,
};

verus! {

/// A character that parsing neither splits on, trims nor folds.
spec fn plain_char(c: char) -> bool {
    c != '+' && !is_whitespace(c) && !is_ascii_upper(c)
}

/// A non-empty token made of such characters: parsing reads it back as it is.
spec fn plain(t: Seq<char>) -> bool {
    t.len() > 0 && forall|i: int| 0 <= i < t.len() ==> plain_char(#[trigger] t[i])
}

/// The first `n` characters of `t` are plain.
spec fn plain_upto(t: Seq<char>, n: nat) -> bool
    decreases n,
{
    n == 0 || (plain_char(t[n - 1]) && plain_upto(t, (n - 1) as nat))
}

/// A word checked character by character is plain.
proof fn lemma_plain_word(t: Seq<char>)
    requires
        t.len() > 0,
        plain_upto(t, t.len()),
    ensures
        plain(t),
{
    lemma_plain_upto(t, t.len());
}

proof fn lemma_plain_upto(t: Seq<char>, n: nat)
    requires
        n <= t.len(),
        plain_upto(t, n),
    ensures
        forall|i: int| 0 <= i < n ==> plain_char(#[trigger] t[i]),
    decreases n,
{
    if n > 0 {
        lemma_plain_upto(t, (n - 1) as nat);
    }
}

/// Named keys: the token the recorder writes names the same key.
proof fn lemma_named_key_reads_back(vk: u32)
    requires
        recordable(vk),
        key_token(vk) is Some,
    ensures
        key_code(key_token(vk).unwrap()) == Some(vk),
        plain(key_token(vk).unwrap()),
{
    reveal_strlit("esc");
    reveal_strlit("escape");
    reveal_strlit("space");
    reveal_strlit("enter");
    reveal_strlit("return");
    reveal_strlit("numpad0");
    reveal_strlit("num0");
    reveal_strlit("kp0");
    reveal_strlit("numpad1");
    reveal_strlit("num1");
    reveal_strlit("kp1");
    reveal_strlit("numpad2");
    reveal_strlit("num2");
    reveal_strlit("kp2");
    reveal_strlit("numpad3");
    reveal_strlit("num3");
    reveal_strlit("kp3");
    reveal_strlit("numpad4");
    reveal_strlit("num4");
    reveal_strlit("kp4");
    reveal_strlit("numpad5");
    reveal_strlit("num5");
    reveal_strlit("kp5");
    reveal_strlit("numpad6");
    reveal_strlit("num6");
    reveal_strlit("kp6");
    reveal_strlit("numpad7");
    reveal_strlit("num7");
    reveal_strlit("kp7");
    reveal_strlit("numpad8");
    reveal_strlit("num8");
    reveal_strlit("kp8");
    reveal_strlit("numpad9");
    reveal_strlit("num9");
    reveal_strlit("kp9");
    reveal_strlit("add");
    reveal_strlit("plus");
    reveal_strlit("kpadd");
    reveal_strlit("subtract");
    reveal_strlit("minus");
    reveal_strlit("kpsubtract");
    reveal_strlit("tab");
    reveal_strlit("backspace");
    reveal_strlit("insert");
    reveal_strlit("delete");
    reveal_strlit("home");
    reveal_strlit("end");
    reveal_strlit("pageup");
    reveal_strlit("pagedown");
    reveal_strlit("left");
    reveal_strlit("up");
    reveal_strlit("right");
    reveal_strlit("down");
    reveal_strlit("pause");
    reveal_strlit("capslock");
    reveal_strlit("printscreen");
    reveal_strlit("numlock");
    reveal_strlit("scrolllock");
    reveal_strlit("multiply");
    reveal_strlit("separator");
    reveal_strlit("decimal");
    reveal_strlit("divide");
    reveal_strlit("semicolon");
    reveal_strlit("equals");
    reveal_strlit("comma");
    reveal_strlit("hyphen");
    reveal_strlit("period");
    reveal_strlit("slash");
    reveal_strlit("backtick");
    reveal_strlit("leftbracket");
    reveal_strlit("backslash");
    reveal_strlit("rightbracket");
    reveal_strlit("quote");
    reveal_strlit("oem102");
    reveal_strlit("browserback");
    reveal_strlit("browserforward");
    reveal_strlit("browserrefresh");
    reveal_strlit("browserstop");
    reveal_strlit("browsersearch");
    reveal_strlit("browserfavorites");
    reveal_strlit("browserhome");
    reveal_strlit("volumemute");
    reveal_strlit("volumedown");
    reveal_strlit("volumeup");
    reveal_strlit("medianext");
    reveal_strlit("mediaprevious");
    reveal_strlit("mediastop");
    reveal_strlit("mediaplaypause");
    reveal_strlit("launchmail");
    reveal_strlit("launchmedia");
    reveal_strlit("launchapp1");
    reveal_strlit("launchapp2");
    if vk == 0x1b {
        assert("esc"@[1] != "end"@[1]);
        assert(key_code("esc"@) == Some(0x1bu32));
        assert(plain_upto("esc"@, 3)) by {
            reveal_with_fuel(plain_upto, 4);
        }
        lemma_plain_word("esc"@);
    }
    if vk == 0x20 {
        assert("space"@[1] != "slash"@[1]);
        assert(key_code("space"@) == Some(0x20u32));
        assert(plain_upto("space"@, 5)) by {
            reveal_with_fuel(plain_upto, 6);
        }
        lemma_plain_word("space"@);
    }
    if vk == 0x6a {
        assert(key_code("multiply"@) == Some(0x6au32));
        assert(plain_upto("multiply"@, 8)) by {
            reveal_with_fuel(plain_upto, 9);
        }
        lemma_plain_word("multiply"@);
    }
    if vk == 0x6b {
        assert(key_code("add"@) == Some(0x6bu32));
        assert(plain_upto("add"@, 3)) by {
            reveal_with_fuel(plain_upto, 4);
        }
        lemma_plain_word("add"@);
    }
    if vk == 0x6c {
        assert("separator"@[2] != "semicolon"@[2]);
        assert(key_code("separator"@) == Some(0x6cu32));
        assert(plain_upto("separator"@, 9)) by {
            reveal_with_fuel(plain_upto, 10);
        }
        lemma_plain_word("separator"@);
    }
    if vk == 0x6d {
        assert(key_code("subtract"@) == Some(0x6du32));
        assert(plain_upto("subtract"@, 8)) by {
            reveal_with_fuel(plain_upto, 9);
        }
        lemma_plain_word("subtract"@);
    }
    if vk == 0x6e {
        assert(key_code("decimal"@) == Some(0x6eu32));
        assert(plain_upto("decimal"@, 7)) by {
            reveal_with_fuel(plain_upto, 8);
        }
        lemma_plain_word("decimal"@);
    }
    if vk == 0x6f {
        assert("divide"@[1] != "delete"@[1]);
        assert(key_code("divide"@) == Some(0x6fu32));
        assert(plain_upto("divide"@, 6)) by {
            reveal_with_fuel(plain_upto, 7);
        }
        lemma_plain_word("divide"@);
    }
    if vk == 0xba {
        assert("semicolon"@[2] != "separator"@[2]);
        assert(key_code("semicolon"@) == Some(0xbau32));
        assert(plain_upto("semicolon"@, 9)) by {
            reveal_with_fuel(plain_upto, 10);
        }
        lemma_plain_word("semicolon"@);
    }
    if vk == 0xbb {
        assert("equals"@[1] != "escape"@[1]);
        assert(key_code("equals"@) == Some(0xbbu32));
        assert(plain_upto("equals"@, 6)) by {
            reveal_with_fuel(plain_upto, 7);
        }
        lemma_plain_word("equals"@);
    }
    if vk == 0xbc {
        assert(key_code("comma"@) == Some(0xbcu32));
        assert(plain_upto("comma"@, 5)) by {
            reveal_with_fuel(plain_upto, 6);
        }
        lemma_plain_word("comma"@);
    }
    if vk == 0xbd {
        assert(key_code("hyphen"@) == Some(0xbdu32));
        assert(plain_upto("hyphen"@, 6)) by {
            reveal_with_fuel(plain_upto, 7);
        }
        lemma_plain_word("hyphen"@);
    }
    if vk == 0xbe {
        assert("period"@[1] != "pageup"@[1]);
        assert(key_code("period"@) == Some(0xbeu32));
        assert(plain_upto("period"@, 6)) by {
            reveal_with_fuel(plain_upto, 7);
        }
        lemma_plain_word("period"@);
    }
    if vk == 0xbf {
        assert("slash"@[1] != "space"@[1]);
        assert(key_code("slash"@) == Some(0xbfu32));
        assert(plain_upto("slash"@, 5)) by {
            reveal_with_fuel(plain_upto, 6);
        }
        lemma_plain_word("slash"@);
    }
    if vk == 0xc0 {
        assert(key_code("backtick"@) == Some(0xc0u32));
        assert(plain_upto("backtick"@, 8)) by {
            reveal_with_fuel(plain_upto, 9);
        }
        lemma_plain_word("backtick"@);
    }
    if vk == 0xdb {
        assert("leftbracket"@[1] != "launchmedia"@[1]);
        assert(key_code("leftbracket"@) == Some(0xdbu32));
        assert(plain_upto("leftbracket"@, 11)) by {
            reveal_with_fuel(plain_upto, 12);
        }
        lemma_plain_word("leftbracket"@);
    }
    if vk == 0xdc {
        assert("backslash"@[5] != "backspace"@[5]);
        assert(key_code("backslash"@) == Some(0xdcu32));
        assert(plain_upto("backslash"@, 9)) by {
            reveal_with_fuel(plain_upto, 10);
        }
        lemma_plain_word("backslash"@);
    }
    if vk == 0xdd {
        assert(key_code("rightbracket"@) == Some(0xddu32));
        assert(plain_upto("rightbracket"@, 12)) by {
            reveal_with_fuel(plain_upto, 13);
        }
        lemma_plain_word("rightbracket"@);
    }
    if vk == 0xde {
        assert(key_code("quote"@) == Some(0xdeu32));
        assert(plain_upto("quote"@, 5)) by {
            reveal_with_fuel(plain_upto, 6);
        }
        lemma_plain_word("quote"@);
    }
    if vk == 0xe2 {
        assert(key_code("oem102"@) == Some(0xe2u32));
        assert(plain_upto("oem102"@, 6)) by {
            reveal_with_fuel(plain_upto, 7);
        }
        lemma_plain_word("oem102"@);
    }
    if vk == 0xa6 {
        assert("browserback"@[7] != "browserstop"@[7]);
        assert("browserback"@[7] != "browserhome"@[7]);
        assert(key_code("browserback"@) == Some(0xa6u32));
        assert(plain_upto("browserback"@, 11)) by {
            reveal_with_fuel(plain_upto, 12);
        }
        lemma_plain_word("browserback"@);
    }
    if vk == 0xa7 {
        assert("browserforward"@[7] != "browserrefresh"@[7]);
        assert(key_code("browserforward"@) == Some(0xa7u32));
        assert(plain_upto("browserforward"@, 14)) by {
            reveal_with_fuel(plain_upto, 15);
        }
        lemma_plain_word("browserforward"@);
    }
    if vk == 0xa8 {
        assert("browserrefresh"@[7] != "browserforward"@[7]);
        assert(key_code("browserrefresh"@) == Some(0xa8u32));
        assert(plain_upto("browserrefresh"@, 14)) by {
            reveal_with_fuel(plain_upto, 15);
        }
        lemma_plain_word("browserrefresh"@);
    }
    if vk == 0xa9 {
        assert("browserstop"@[7] != "browserback"@[7]);
        assert("browserstop"@[7] != "browserhome"@[7]);
        assert(key_code("browserstop"@) == Some(0xa9u32));
        assert(plain_upto("browserstop"@, 11)) by {
            reveal_with_fuel(plain_upto, 12);
        }
        lemma_plain_word("browserstop"@);
    }
    if vk == 0xaa {
        assert(key_code("browsersearch"@) == Some(0xaau32));
        assert(plain_upto("browsersearch"@, 13)) by {
            reveal_with_fuel(plain_upto, 14);
        }
        lemma_plain_word("browsersearch"@);
    }
    if vk == 0xab {
        assert(key_code("browserfavorites"@) == Some(0xabu32));
        assert(plain_upto("browserfavorites"@, 16)) by {
            reveal_with_fuel(plain_upto, 17);
        }
        lemma_plain_word("browserfavorites"@);
    }
    if vk == 0xac {
        assert("browserhome"@[7] != "browserback"@[7]);
        assert("browserhome"@[7] != "browserstop"@[7]);
        assert(key_code("browserhome"@) == Some(0xacu32));
        assert(plain_upto("browserhome"@, 11)) by {
            reveal_with_fuel(plain_upto, 12);
        }
        lemma_plain_word("browserhome"@);
    }
    if vk == 0xad {
        assert("volumemute"@[6] != "volumedown"@[6]);
        assert(key_code("volumemute"@) == Some(0xadu32));
        assert(plain_upto("volumemute"@, 10)) by {
            reveal_with_fuel(plain_upto, 11);
        }
        lemma_plain_word("volumemute"@);
    }
    if vk == 0xae {
        assert("volumedown"@[6] != "volumemute"@[6]);
        assert(key_code("volumedown"@) == Some(0xaeu32));
        assert(plain_upto("volumedown"@, 10)) by {
            reveal_with_fuel(plain_upto, 11);
        }
        lemma_plain_word("volumedown"@);
    }
    if vk == 0xaf {
        assert(key_code("volumeup"@) == Some(0xafu32));
        assert(plain_upto("volumeup"@, 8)) by {
            reveal_with_fuel(plain_upto, 9);
        }
        lemma_plain_word("volumeup"@);
    }
    if vk == 0xb0 {
        assert("medianext"@[5] != "mediastop"@[5]);
        assert(key_code("medianext"@) == Some(0xb0u32));
        assert(plain_upto("medianext"@, 9)) by {
            reveal_with_fuel(plain_upto, 10);
        }
        lemma_plain_word("medianext"@);
    }
    if vk == 0xb1 {
        assert(key_code("mediaprevious"@) == Some(0xb1u32));
        assert(plain_upto("mediaprevious"@, 13)) by {
            reveal_with_fuel(plain_upto, 14);
        }
        lemma_plain_word("mediaprevious"@);
    }
    if vk == 0xb2 {
        assert("mediastop"@[5] != "medianext"@[5]);
        assert(key_code("mediastop"@) == Some(0xb2u32));
        assert(plain_upto("mediastop"@, 9)) by {
            reveal_with_fuel(plain_upto, 10);
        }
        lemma_plain_word("mediastop"@);
    }
    if vk == 0xb3 {
        assert(key_code("mediaplaypause"@) == Some(0xb3u32));
        assert(plain_upto("mediaplaypause"@, 14)) by {
            reveal_with_fuel(plain_upto, 15);
        }
        lemma_plain_word("mediaplaypause"@);
    }
    if vk == 0xb4 {
        assert("launchmail"@[6] != "launchapp1"@[6]);
        assert("launchmail"@[6] != "launchapp2"@[6]);
        assert(key_code("launchmail"@) == Some(0xb4u32));
        assert(plain_upto("launchmail"@, 10)) by {
            reveal_with_fuel(plain_upto, 11);
        }
        lemma_plain_word("launchmail"@);
    }
    if vk == 0xb5 {
        assert("launchmedia"@[1] != "leftbracket"@[1]);
        assert(key_code("launchmedia"@) == Some(0xb5u32));
        assert(plain_upto("launchmedia"@, 11)) by {
            reveal_with_fuel(plain_upto, 12);
        }
        lemma_plain_word("launchmedia"@);
    }
    if vk == 0xb6 {
        assert("launchapp1"@[6] != "launchmail"@[6]);
        assert("launchapp1"@[9] != "launchapp2"@[9]);
        assert(key_code("launchapp1"@) == Some(0xb6u32));
        assert(plain_upto("launchapp1"@, 10)) by {
            reveal_with_fuel(plain_upto, 11);
        }
        lemma_plain_word("launchapp1"@);
    }
    if vk == 0xb7 {
        assert("launchapp2"@[6] != "launchmail"@[6]);
        assert("launchapp2"@[9] != "launchapp1"@[9]);
        assert(key_code("launchapp2"@) == Some(0xb7u32));
        assert(plain_upto("launchapp2"@, 10)) by {
            reveal_with_fuel(plain_upto, 11);
        }
        lemma_plain_word("launchapp2"@);
    }
}

/// Decimal digits read back as the number they were written from.
pub(crate) proof fn lemma_decimal_reads_back(n: nat)
    ensures
        decimal(n).len() >= 1,
        all_digits(decimal(n)),
        digits_value(decimal(n)) == n,
    decreases n,
{
    if n < 10 {
        let s = decimal(n);
        assert(s.drop_last() =~= Seq::<char>::empty());
        assert(digits_value(s.drop_last()) == 0);
        assert((digit_char(n as int) as u32) - 48 == n);
    } else {
        lemma_decimal_reads_back(n / 10);
        let s = decimal(n);
        assert(s.drop_last() =~= decimal(n / 10));
        assert(s.last() == digit_char((n % 10) as int));
        assert((digit_char((n % 10) as int) as u32) - 48 == n % 10);
        assert(n == (n / 10) * 10 + n % 10) by (nonlinear_arith);
    }
}

/// Every character of a decimal text is a digit, so it is plain.
proof fn lemma_digits_plain(s: Seq<char>)
    requires
        all_digits(s),
    ensures
        forall|i: int| 0 <= i < s.len() ==> plain_char(#[trigger] s[i]),
{
    assert forall|i: int| 0 <= i < s.len() implies plain_char(#[trigger] s[i]) by {
        assert(is_ascii_digit(s[i]));
    }
}

/// A lowercase hexadecimal digit reads back as its value.
proof fn lemma_hex_digit_reads_back(d: int)
    requires
        0 <= d < 16,
    ensures
        hex_value(hex_digit_char(d)) == Some(d),
        plain_char(hex_digit_char(d)),
        hex_digit_char(d) != 'k',
{
}

/// Two-digit hexadecimal text of a byte.
proof fn lemma_hex_min2(n: nat)
    requires
        n < 256,
    ensures
        hex_min2(n) == seq![hex_digit_char((n / 16) as int), hex_digit_char((n % 16) as int)],
{
    if n >= 16 {
        assert(hex_digits(n / 16) == seq![hex_digit_char((n / 16) as int)]);
        assert(hex_digits(n) =~= seq![
            hex_digit_char((n / 16) as int),
            hex_digit_char((n % 16) as int),
        ]);
    }
}

/// The raw `vk_XX` text of a byte-sized key code names that code.
proof fn lemma_raw_key_reads_back(vk: u32)
    requires
        vk < 256,
    ensures
        key_code("vk_"@ + hex_min2(vk as nat)) == Some(vk),
        plain("vk_"@ + hex_min2(vk as nat)),
{
    reveal_strlit("esc");
    reveal_strlit("escape");
    reveal_strlit("space");
    reveal_strlit("enter");
    reveal_strlit("return");
    reveal_strlit("numpad0");
    reveal_strlit("num0");
    reveal_strlit("kp0");
    reveal_strlit("numpad1");
    reveal_strlit("num1");
    reveal_strlit("kp1");
    reveal_strlit("numpad2");
    reveal_strlit("num2");
    reveal_strlit("kp2");
    reveal_strlit("numpad3");
    reveal_strlit("num3");
    reveal_strlit("kp3");
    reveal_strlit("numpad4");
    reveal_strlit("num4");
    reveal_strlit("kp4");
    reveal_strlit("numpad5");
    reveal_strlit("num5");
    reveal_strlit("kp5");
    reveal_strlit("numpad6");
    reveal_strlit("num6");
    reveal_strlit("kp6");
    reveal_strlit("numpad7");
    reveal_strlit("num7");
    reveal_strlit("kp7");
    reveal_strlit("numpad8");
    reveal_strlit("num8");
    reveal_strlit("kp8");
    reveal_strlit("numpad9");
    reveal_strlit("num9");
    reveal_strlit("kp9");
    reveal_strlit("add");
    reveal_strlit("plus");
    reveal_strlit("kpadd");
    reveal_strlit("subtract");
    reveal_strlit("minus");
    reveal_strlit("kpsubtract");
    reveal_strlit("tab");
    reveal_strlit("backspace");
    reveal_strlit("insert");
    reveal_strlit("delete");
    reveal_strlit("home");
    reveal_strlit("end");
    reveal_strlit("pageup");
    reveal_strlit("pagedown");
    reveal_strlit("left");
    reveal_strlit("up");
    reveal_strlit("right");
    reveal_strlit("down");
    reveal_strlit("pause");
    reveal_strlit("capslock");
    reveal_strlit("printscreen");
    reveal_strlit("numlock");
    reveal_strlit("scrolllock");
    reveal_strlit("multiply");
    reveal_strlit("separator");
    reveal_strlit("decimal");
    reveal_strlit("divide");
    reveal_strlit("semicolon");
    reveal_strlit("equals");
    reveal_strlit("comma");
    reveal_strlit("hyphen");
    reveal_strlit("period");
    reveal_strlit("slash");
    reveal_strlit("backtick");
    reveal_strlit("leftbracket");
    reveal_strlit("backslash");
    reveal_strlit("rightbracket");
    reveal_strlit("quote");
    reveal_strlit("oem102");
    reveal_strlit("browserback");
    reveal_strlit("browserforward");
    reveal_strlit("browserrefresh");
    reveal_strlit("browserstop");
    reveal_strlit("browsersearch");
    reveal_strlit("browserfavorites");
    reveal_strlit("browserhome");
    reveal_strlit("volumemute");
    reveal_strlit("volumedown");
    reveal_strlit("volumeup");
    reveal_strlit("medianext");
    reveal_strlit("mediaprevious");
    reveal_strlit("mediastop");
    reveal_strlit("mediaplaypause");
    reveal_strlit("launchmail");
    reveal_strlit("launchmedia");
    reveal_strlit("launchapp1");
    reveal_strlit("launchapp2");
    reveal_strlit("vk_");
    let high = (vk / 16) as int;
    let low = (vk % 16) as int;
    lemma_hex_min2(vk as nat);
    lemma_hex_digit_reads_back(high);
    lemma_hex_digit_reads_back(low);
    let t = "vk_"@ + hex_min2(vk as nat);
    assert(t =~= seq!['v', 'k', '_', hex_digit_char(high), hex_digit_char(low)]);
    assert(t[0] == 'v' && t[1] == 'k' && t[2] == '_');
    assert(is_raw_code(t));
    assert(vk == high * 16 + low);
    assert(raw_code(t) == vk);
    assert forall|i: int| 0 <= i < t.len() implies plain_char(#[trigger] t[i]) by {
        assert(i == 0 || i == 1 || i == 2 || i == 3 || i == 4);
    }
}

/// The key text the recorder writes for a recordable key is a plain token
/// that names the same key.
proof fn lemma_key_part_reads_back(vk: u32)
    requires
        recordable(vk),
    ensures
        key_code(key_part(vk, false)) == Some(vk),
        plain(key_part(vk, false)),
{
    let t = key_part(vk, false);
    if (0x30 <= vk <= 0x39) || (0x41 <= vk <= 0x5a) {
        let c = vk as char;
        assert(t == seq![lower_char(c)]);
        assert(upper_char(lower_char(c)) == c);
        assert(symbol_key(lower_char(c)) is None);
        assert forall|i: int| 0 <= i < t.len() implies plain_char(#[trigger] t[i]) by {
            assert(i == 0);
        }
    } else if 0x70 <= vk <= 0x87 {
        reveal_strlit("esc");
        reveal_strlit("escape");
        reveal_strlit("space");
        reveal_strlit("enter");
        reveal_strlit("return");
        reveal_strlit("f");
        let n = (vk - 0x6f) as nat;
        lemma_decimal_reads_back(n);
        lemma_digits_plain(decimal(n));
        assert(t == "f"@ + decimal(n));
        assert(t[0] == 'f');
        assert(t.drop_first() =~= decimal(n));
        assert(function_key(t) == Some(vk));
        assert forall|i: int| 0 <= i < t.len() implies plain_char(#[trigger] t[i]) by {
            if i > 0 {
                assert(t[i] == decimal(n)[i - 1]);
            }
        }
    } else if 0x60 <= vk <= 0x69 {
        reveal_strlit("esc");
        reveal_strlit("escape");
        reveal_strlit("space");
        reveal_strlit("enter");
        reveal_strlit("return");
        reveal_strlit("numpad0");
        reveal_strlit("num0");
        reveal_strlit("kp0");
        reveal_strlit("numpad1");
        reveal_strlit("num1");
        reveal_strlit("kp1");
        reveal_strlit("numpad2");
        reveal_strlit("num2");
        reveal_strlit("kp2");
        reveal_strlit("numpad3");
        reveal_strlit("num3");
        reveal_strlit("kp3");
        reveal_strlit("numpad4");
        reveal_strlit("num4");
        reveal_strlit("kp4");
        reveal_strlit("numpad5");
        reveal_strlit("num5");
        reveal_strlit("kp5");
        reveal_strlit("numpad6");
        reveal_strlit("num6");
        reveal_strlit("kp6");
        reveal_strlit("numpad7");
        reveal_strlit("num7");
        reveal_strlit("kp7");
        reveal_strlit("numpad8");
        reveal_strlit("num8");
        reveal_strlit("kp8");
        reveal_strlit("numpad9");
        reveal_strlit("num9");
        reveal_strlit("kp9");
        reveal_strlit("kpadd");
        reveal_strlit("kpsubtract");
        reveal_strlit("numlock");
        reveal_strlit("numpad");
        let d = (vk - 0x60) as nat;
        assert(decimal(d) == seq![digit_char(d as int)]);
        assert(t == "numpad"@ + seq![digit_char(d as int)]);
        if d == 0 {
            assert(t =~= "numpad0"@);
            assert(fixed_key(t) == Some(vk));
        } else if d == 1 {
            assert(t =~= "numpad1"@);
            assert("numpad1"@[6] != "numpad0"@[6]);
            assert(fixed_key(t) == Some(vk));
        } else if d == 2 {
            assert(t =~= "numpad2"@);
            assert("numpad2"@[6] != "numpad0"@[6]);
            assert("numpad2"@[6] != "numpad1"@[6]);
            assert(fixed_key(t) == Some(vk));
        } else if d == 3 {
            assert(t =~= "numpad3"@);
            assert("numpad3"@[6] != "numpad0"@[6]);
            assert("numpad3"@[6] != "numpad1"@[6]);
            assert("numpad3"@[6] != "numpad2"@[6]);
            assert(fixed_key(t) == Some(vk));
        } else if d == 4 {
            assert(t =~= "numpad4"@);
            assert("numpad4"@[6] != "numpad0"@[6]);
            assert("numpad4"@[6] != "numpad1"@[6]);
            assert("numpad4"@[6] != "numpad2"@[6]);
            assert("numpad4"@[6] != "numpad3"@[6]);
            assert(fixed_key(t) == Some(vk));
        } else if d == 5 {
            assert(t =~= "numpad5"@);
            assert("numpad5"@[6] != "numpad0"@[6]);
            assert("numpad5"@[6] != "numpad1"@[6]);
            assert("numpad5"@[6] != "numpad2"@[6]);
            assert("numpad5"@[6] != "numpad3"@[6]);
            assert("numpad5"@[6] != "numpad4"@[6]);
            assert(fixed_key(t) == Some(vk));
        } else if d == 6 {
            assert(t =~= "numpad6"@);
            assert("numpad6"@[6] != "numpad0"@[6]);
            assert("numpad6"@[6] != "numpad1"@[6]);
            assert("numpad6"@[6] != "numpad2"@[6]);
            assert("numpad6"@[6] != "numpad3"@[6]);
            assert("numpad6"@[6] != "numpad4"@[6]);
            assert("numpad6"@[6] != "numpad5"@[6]);
            assert(fixed_key(t) == Some(vk));
        } else if d == 7 {
            assert(t =~= "numpad7"@);
            assert("numpad7"@[6] != "numpad0"@[6]);
            assert("numpad7"@[6] != "numpad1"@[6]);
            assert("numpad7"@[6] != "numpad2"@[6]);
            assert("numpad7"@[6] != "numpad3"@[6]);
            assert("numpad7"@[6] != "numpad4"@[6]);
            assert("numpad7"@[6] != "numpad5"@[6]);
            assert("numpad7"@[6] != "numpad6"@[6]);
            assert(fixed_key(t) == Some(vk));
        } else if d == 8 {
            assert(t =~= "numpad8"@);
            assert("numpad8"@[6] != "numpad0"@[6]);
            assert("numpad8"@[6] != "numpad1"@[6]);
            assert("numpad8"@[6] != "numpad2"@[6]);
            assert("numpad8"@[6] != "numpad3"@[6]);
            assert("numpad8"@[6] != "numpad4"@[6]);
            assert("numpad8"@[6] != "numpad5"@[6]);
            assert("numpad8"@[6] != "numpad6"@[6]);
            assert("numpad8"@[6] != "numpad7"@[6]);
            assert(fixed_key(t) == Some(vk));
        } else if d == 9 {
            assert(t =~= "numpad9"@);
            assert("numpad9"@[6] != "numpad0"@[6]);
            assert("numpad9"@[6] != "numpad1"@[6]);
            assert("numpad9"@[6] != "numpad2"@[6]);
            assert("numpad9"@[6] != "numpad3"@[6]);
            assert("numpad9"@[6] != "numpad4"@[6]);
            assert("numpad9"@[6] != "numpad5"@[6]);
            assert("numpad9"@[6] != "numpad6"@[6]);
            assert("numpad9"@[6] != "numpad7"@[6]);
            assert("numpad9"@[6] != "numpad8"@[6]);
            assert(fixed_key(t) == Some(vk));
        }
        assert(t[0] == 'n');
        assert forall|i: int| 0 <= i < t.len() implies plain_char(#[trigger] t[i]) by {
            assert(i == 0 || i == 1 || i == 2 || i == 3 || i == 4 || i == 5 || i == 6);
        }
    } else if key_token(vk) is Some {
        lemma_named_key_reads_back(vk);
    } else {
        lemma_raw_key_reads_back(vk);
    }
}

/// Splitting a text that ends in a piece without separators extends the
/// last piece by it.
proof fn lemma_split_append(s: Seq<char>, t: Seq<char>, sep: char)
    requires
        forall|i: int| 0 <= i < t.len() ==> t[i] != sep,
    ensures
        split(s + t, sep) == split(s, sep).update(
            split(s, sep).len() - 1,
            split(s, sep).last() + t,
        ),
    decreases t.len(),
{
    lemma_split_nonempty(s, sep);
    let p = split(s, sep);
    if t.len() == 0 {
        assert(s + t =~= s);
        assert(p.last() + t =~= p.last());
        assert(p.update(p.len() - 1, p.last() + t) =~= p);
    } else {
        let t0 = t.drop_last();
        lemma_split_append(s, t0, sep);
        assert((s + t).drop_last() =~= s + t0);
        assert((s + t).last() == t.last());
        assert((p.last() + t0).push(t.last()) =~= p.last() + t);
        assert(split(s + t, sep) =~= p.update(p.len() - 1, p.last() + t));
    }
}

/// Splitting joined pieces that hold no separator gives the pieces back.
proof fn lemma_split_join(parts: Seq<Seq<char>>)
    requires
        parts.len() >= 1,
        forall|k: int| 0 <= k < parts.len() ==> plain(#[trigger] parts[k]),
    ensures
        split(join(parts, seq!['+']), '+') == parts,
    decreases parts.len(),
{
    let sep = seq!['+'];
    let last = parts.last();
    assert(plain(parts[parts.len() - 1]));
    assert forall|i: int| 0 <= i < last.len() implies last[i] != '+' by {
        assert(plain_char(last[i]));
    }
    if parts.len() == 1 {
        assert(Seq::<char>::empty() + last =~= last);
        lemma_split_append(Seq::<char>::empty(), last, '+');
        assert(split(Seq::<char>::empty(), '+').update(0, Seq::<char>::empty() + last) =~= parts);
    } else {
        let rest = parts.drop_last();
        assert forall|k: int| 0 <= k < rest.len() implies plain(#[trigger] rest[k]) by {
            assert(plain(parts[k]));
        }
        lemma_split_join(rest);
        let j = join(rest, sep);
        lemma_split_nonempty(j, '+');
        assert((j + sep).drop_last() =~= j);
        assert((j + sep).last() == '+');
        assert(split(j + sep, '+') == split(j, '+').push(Seq::<char>::empty()));
        lemma_split_append(j + sep, last, '+');
        assert(join(parts, sep) == j + sep + last);
        assert(Seq::<char>::empty() + last =~= last);
        assert(split(join(parts, sep), '+') =~= parts);
    }
}

/// Every character of the joined text is the separator or a plain character.
proof fn lemma_join_chars(parts: Seq<Seq<char>>)
    requires
        parts.len() >= 1,
        forall|k: int| 0 <= k < parts.len() ==> plain(#[trigger] parts[k]),
    ensures
        join(parts, seq!['+']).len() > 0,
        forall|i: int|
            0 <= i < join(parts, seq!['+']).len() ==> !is_whitespace(
                #[trigger] join(parts, seq!['+'])[i],
            ),
    decreases parts.len(),
{
    let sep = seq!['+'];
    let last = parts.last();
    assert(plain(parts[parts.len() - 1]));
    if parts.len() == 1 {
        assert forall|i: int| 0 <= i < last.len() implies !is_whitespace(#[trigger] last[i]) by {
            assert(plain_char(last[i]));
        }
    } else {
        let rest = parts.drop_last();
        assert forall|k: int| 0 <= k < rest.len() implies plain(#[trigger] rest[k]) by {
            assert(plain(parts[k]));
        }
        lemma_join_chars(rest);
        let j = join(rest, sep);
        let text = join(parts, sep);
        assert(text == j + sep + last);
        assert forall|i: int| 0 <= i < text.len() implies !is_whitespace(#[trigger] text[i]) by {
            if i < j.len() {
                assert(text[i] == j[i]);
            } else if i == j.len() {
                assert(text[i] == '+');
            } else {
                assert(text[i] == last[i - j.len() - 1]);
                assert(plain_char(last[i - j.len() - 1]));
            }
        }
    }
}

/// Parsing trims and lowercases each piece; a plain piece comes through as it is.
proof fn lemma_plain_unchanged(t: Seq<char>)
    requires
        plain(t),
    ensures
        lower(trim(t)) == t,
{
    assert(plain_char(t[t.len() - 1]));
    assert(plain_char(t[0]));
    assert(trim_end(t) == t);
    assert(trim_start(t) == t);
    assert forall|i: int| 0 <= i < t.len() implies #[trigger] lower_char(t[i]) == t[i] by {
        assert(plain_char(t[i]));
    }
    assert(lower(t) =~= t);
}

/// A text with no whitespace at either end is left as it is by trimming.
proof fn lemma_trim_keeps(t: Seq<char>)
    requires
        t.len() > 0,
        !is_whitespace(t[0]),
        !is_whitespace(t[t.len() - 1]),
    ensures
        trim(t) == t,
{
    assert(trim_end(t) == t);
    assert(trim_start(t) == t);
}

/// The bit arithmetic of folding Ctrl, Shift, Alt and Win into a mask, in
/// the order the recorder writes them.
proof fn lemma_mask_steps(m: u32)
    by (bit_vector)
    requires
        m < 16,
    ensures
        m & 2 != 0 ==> (0u32 & 2u32) == 0u32 && (0u32 | 2u32) == (m & 2),
        m & 2 == 0 ==> 0u32 == (m & 2),
        m & 4 != 0 ==> ((m & 2) & 4u32) == 0u32 && ((m & 2) | 4u32) == (m & 6),
        m & 4 == 0 ==> (m & 2) == (m & 6),
        m & 1 != 0 ==> ((m & 6) & 1u32) == 0u32 && ((m & 6) | 1u32) == (m & 7),
        m & 1 == 0 ==> (m & 6) == (m & 7),
        m & 8 != 0 ==> ((m & 7) & 8u32) == 0u32 && ((m & 7) | 8u32) == m,
        m & 8 == 0 ==> (m & 7) == m,
{
}

/// Folding one more modifier token into the mask.
proof fn lemma_mask_push(tokens: Seq<Seq<char>>, t: Seq<char>)
    ensures
        modifier_mask(tokens.push(t)) == (match modifier_mask(tokens) {
            Err(e) => Err(e),
            Ok(mask) => {
                let bit = modifier_bit(t);
                if t.len() == 0 {
                    Err(HotkeyFault::EmptyModifier)
                } else if bit == 0 {
                    Err(HotkeyFault::UnsupportedModifier(t))
                } else if mask & bit != 0 {
                    Err(HotkeyFault::DuplicateModifier(t))
                } else {
                    Ok(mask | bit)
                }
            },
        }),
{
    assert(tokens.push(t).drop_last() =~= tokens);
}

/// The modifier names the recorder writes fold back into the same mask.
proof fn lemma_modifier_parts_read_back(m: u32)
    requires
        m < 16,
    ensures
        modifier_mask(modifier_parts(m, false)) == Ok::<u32, HotkeyFault>(m),
        forall|k: int|
            0 <= k < modifier_parts(m, false).len() ==> plain(
                #[trigger] modifier_parts(m, false)[k],
            ),
{
    reveal_strlit("ctrl");
    reveal_strlit("control");
    reveal_strlit("shift");
    reveal_strlit("alt");
    reveal_strlit("menu");
    reveal_strlit("win");
    reveal_strlit("meta");
    reveal_strlit("super");
    lemma_mask_steps(m);
    assert("ctrl"@[0] != "menu"@[0]);
    assert("ctrl"@.len() != "alt"@.len());
    assert(modifier_bit("ctrl"@) == 2);
    assert("shift"@.len() != "alt"@.len() && "shift"@.len() != "menu"@.len());
    assert("shift"@.len() != "ctrl"@.len() && "shift"@.len() != "control"@.len());
    assert(modifier_bit("shift"@) == 4);
    assert(modifier_bit("alt"@) == 1);
    assert("win"@[0] != "alt"@[0] && "win"@.len() != "menu"@.len());
    assert("win"@.len() != "ctrl"@.len() && "win"@.len() != "control"@.len());
    assert("win"@.len() != "shift"@.len());
    assert(modifier_bit("win"@) == 8);
    let empty = Seq::<Seq<char>>::empty();
    let p1 = modifier_part(m, 2, "ctrl"@);
    let p2 = p1 + modifier_part(m, 4, "shift"@);
    let p3 = p2 + modifier_part(m, 1, "alt"@);
    let p4 = p3 + modifier_part(m, 8, "win"@);
    assert(p4 == modifier_parts(m, false));
    if m & 2 != 0 {
        assert(p1 =~= empty.push("ctrl"@));
        lemma_mask_push(empty, "ctrl"@);
    } else {
        assert(p1 =~= empty);
    }
    assert(modifier_mask(p1) == Ok::<u32, HotkeyFault>(m & 2));
    if m & 4 != 0 {
        assert(p2 =~= p1.push("shift"@));
        lemma_mask_push(p1, "shift"@);
    } else {
        assert(p2 =~= p1);
    }
    assert(modifier_mask(p2) == Ok::<u32, HotkeyFault>(m & 6));
    if m & 1 != 0 {
        assert(p3 =~= p2.push("alt"@));
        lemma_mask_push(p2, "alt"@);
    } else {
        assert(p3 =~= p2);
    }
    assert(modifier_mask(p3) == Ok::<u32, HotkeyFault>(m & 7));
    if m & 8 != 0 {
        assert(p4 =~= p3.push("win"@));
        lemma_mask_push(p3, "win"@);
    } else {
        assert(p4 =~= p3);
    }
    assert(modifier_mask(p4) == Ok::<u32, HotkeyFault>(m));
    assert(plain_upto("ctrl"@, 4)) by {
        reveal_with_fuel(plain_upto, 5);
    }
    lemma_plain_word("ctrl"@);
    assert(plain_upto("shift"@, 5)) by {
        reveal_with_fuel(plain_upto, 6);
    }
    lemma_plain_word("shift"@);
    assert(plain_upto("alt"@, 3)) by {
        reveal_with_fuel(plain_upto, 4);
    }
    lemma_plain_word("alt"@);
    assert(plain_upto("win"@, 3)) by {
        reveal_with_fuel(plain_upto, 4);
    }
    lemma_plain_word("win"@);
    assert forall|k: int| 0 <= k < p4.len() implies plain(#[trigger] p4[k]) by {
        assert(p4[k] == "ctrl"@ || p4[k] == "shift"@ || p4[k] == "alt"@ || p4[k] == "win"@);
    }
}

/// Every key the recorder accepts, held with any combination of Ctrl,
/// Shift, Alt and Win, reads back from its configuration text as the same
/// hotkey.
pub proof fn recorded_hotkey_reads_back(key: ParsedHotkey)
    requires
        recordable(key.virtual_key),
        key.modifiers < 16,
    ensures
        hotkey_of(hotkey_text(key, false)) == Ok::<ParsedHotkey, HotkeyFault>(key),
{
    reveal_strlit("+");
    let mods = modifier_parts(key.modifiers, false);
    let k = key_part(key.virtual_key, false);
    let parts = hotkey_parts(key, false);
    let text = hotkey_text(key, false);
    lemma_modifier_parts_read_back(key.modifiers);
    lemma_key_part_reads_back(key.virtual_key);
    assert(parts == mods.push(k));
    assert forall|i: int| 0 <= i < parts.len() implies plain(#[trigger] parts[i]) by {
        if i < mods.len() {
            assert(parts[i] == mods[i]);
        } else {
            assert(parts[i] == k);
        }
    }
    assert("+"@ =~= seq!['+']);
    assert(text == join(parts, seq!['+']));
    lemma_split_join(parts);
    lemma_join_chars(parts);
    lemma_trim_keeps(text);
    let tokens = hotkey_tokens(text);
    assert forall|i: int| 0 <= i < parts.len() implies #[trigger] lower(trim(parts[i]))
        == parts[i] by {
        lemma_plain_unchanged(parts[i]);
    }
    assert(tokens =~= parts);
    assert(tokens.drop_last() =~= mods);
    assert(tokens.last() == k);
}

} // verus!
