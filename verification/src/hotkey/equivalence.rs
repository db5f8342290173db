//! Specifications that differ only in whitespace around tokens, ASCII case,
//! the order of the modifiers or the aliases of a name parse alike.
use vstd::prelude::*;

use crate::hotkey::{
    fixed_key, function_key, hotkey_of, hotkey_tokens, key_code, modifier_bit, modifier_mask,
    ParsedHotkey,
};
use crate::text::{
    digit_char, is_whitespace, lemma_split_nonempty, lower, split, trim, trim_end, trim_start,
};

verus! {

/// How many of the tokens name the modifier `bit` (`0`: how many name none).
pub open spec fn bit_count(tokens: Seq<Seq<char>>, bit: u32) -> nat
    decreases tokens.len(),
{
    if tokens.len() == 0 {
        0
    } else {
        bit_count(tokens.drop_last(), bit) + if modifier_bit(tokens.last()) == bit {
            1nat
        } else {
            0nat
        }
    }
}

/// The modifier tokens of a specification: all tokens but the last.
pub open spec fn modifier_tokens(spec: Seq<char>) -> Seq<Seq<char>> {
    hotkey_tokens(spec).drop_last()
}

/// The key a key token names; an empty token names none.
pub open spec fn key_named(token: Seq<char>) -> Option<u32> {
    if token.len() == 0 {
        None
    } else {
        key_code(token)
    }
}

proof fn lemma_empty_names_no_modifier()
    ensures
        modifier_bit(Seq::<char>::empty()) == 0,
{
    reveal_strlit("alt");
    reveal_strlit("menu");
    reveal_strlit("ctrl");
    reveal_strlit("control");
    reveal_strlit("shift");
    reveal_strlit("win");
    reveal_strlit("meta");
    reveal_strlit("super");
    let e = Seq::<char>::empty();
    assert(e != "alt"@ && e != "menu"@ && e != "ctrl"@ && e != "control"@) by {
        assert(e.len() == 0);
    }
    assert(e != "shift"@ && e != "win"@ && e != "meta"@ && e != "super"@) by {
        assert(e.len() == 0);
    }
}

/// The mask bits, as counts of 0 or 1 each, combine as a sum.
proof fn lemma_mask_bits(m: u32, c1: u32, c2: u32, c4: u32, c8: u32, b: u32)
    by (bit_vector)
    requires
        c1 <= 1,
        c2 <= 1,
        c4 <= 1,
        c8 <= 1,
        m == c1 + 2 * c2 + 4 * c4 + 8 * c8,
        b == 1 || b == 2 || b == 4 || b == 8,
    ensures
        (m & b != 0) == ((b == 1 && c1 == 1) || (b == 2 && c2 == 1) || (b == 4 && c4 == 1) || (b
            == 8 && c8 == 1)),
        m & b == 0 ==> (m | b) == m + b,
{
}

/// The fold of the modifier tokens succeeds exactly when every token names
/// a modifier and none twice; the mask then has one bit per modifier.
proof fn lemma_mask_counts(t: Seq<Seq<char>>)
    ensures
        bit_count(t, 1) + bit_count(t, 2) + bit_count(t, 4) + bit_count(t, 8) <= t.len(),
        modifier_mask(t) is Ok <==> (t.len() == bit_count(t, 1) + bit_count(t, 2) + bit_count(t, 4)
            + bit_count(t, 8) && bit_count(t, 1) <= 1 && bit_count(t, 2) <= 1 && bit_count(t, 4)
            <= 1 && bit_count(t, 8) <= 1),
        modifier_mask(t) is Ok ==> modifier_mask(t)->Ok_0 == bit_count(t, 1) + 2 * bit_count(t, 2)
            + 4 * bit_count(t, 4) + 8 * bit_count(t, 8),
    decreases t.len(),
{
    if t.len() > 0 {
        let p = t.drop_last();
        lemma_mask_counts(p);
        let last = t.last();
        let b = modifier_bit(last);
        assert(b == 0 || b == 1 || b == 2 || b == 4 || b == 8);
        if last.len() == 0 {
            lemma_empty_names_no_modifier();
            assert(last =~= Seq::<char>::empty());
        }
        match modifier_mask(p) {
            Err(_) => {},
            Ok(mask) => {
                if b != 0 {
                    lemma_mask_bits(
                        mask,
                        bit_count(p, 1) as u32,
                        bit_count(p, 2) as u32,
                        bit_count(p, 4) as u32,
                        bit_count(p, 8) as u32,
                        b,
                    );
                }
            },
        }
    }
}

proof fn lemma_trim_end_shape(s: Seq<char>)
    ensures
        trim_end(s).len() <= s.len(),
        trim_end(s) == s.take(trim_end(s).len() as int),
        forall|i: int| trim_end(s).len() <= i < s.len() ==> is_whitespace(#[trigger] s[i]),
    decreases s.len(),
{
    if s.len() > 0 && is_whitespace(s.last()) {
        lemma_trim_end_shape(s.drop_last());
        assert(s.drop_last().take(trim_end(s).len() as int) =~= s.take(trim_end(s).len() as int));
        assert forall|i: int| trim_end(s).len() <= i < s.len() implies is_whitespace(
            #[trigger] s[i],
        ) by {
            if i < s.len() - 1 {
                assert(s.drop_last()[i] == s[i]);
            }
        }
    } else {
        assert(s.take(s.len() as int) =~= s);
    }
}

proof fn lemma_trim_start_shape(s: Seq<char>)
    ensures
        trim_start(s).len() <= s.len(),
        forall|i: int| 0 <= i < s.len() - trim_start(s).len() ==> is_whitespace(#[trigger] s[i]),
    decreases s.len(),
{
    if s.len() > 0 && is_whitespace(s.first()) {
        lemma_trim_start_shape(s.drop_first());
        assert forall|i: int| 0 <= i < s.len() - trim_start(s).len() implies is_whitespace(
            #[trigger] s[i],
        ) by {
            if i > 0 {
                assert(s[i] == s.drop_first()[i - 1]);
            }
        }
    }
}

proof fn lemma_split_without_separator(s: Seq<char>, sep: char)
    requires
        forall|i: int| 0 <= i < s.len() ==> #[trigger] s[i] != sep,
    ensures
        split(s, sep) == seq![s],
    decreases s.len(),
{
    if s.len() == 0 {
        assert(s =~= Seq::<char>::empty());
    } else {
        let p = s.drop_last();
        lemma_split_without_separator(p, sep);
        assert(p.push(s.last()) =~= s);
        assert(split(s, sep) =~= seq![s]);
    }
}

/// A blank specification has one token, and it is empty.
proof fn lemma_blank_tokens(s: Seq<char>)
    requires
        trim(s).len() == 0,
    ensures
        hotkey_tokens(s) == seq![Seq::<char>::empty()],
{
    let e = trim_end(s);
    lemma_trim_end_shape(s);
    lemma_trim_start_shape(e);
    assert forall|i: int| 0 <= i < s.len() implies is_whitespace(#[trigger] s[i]) by {
        if i < e.len() {
            assert(e[i] == s[i]);
        }
    }
    assert forall|i: int| 0 <= i < s.len() implies #[trigger] s[i] != '+' by {
        assert(is_whitespace(s[i]));
    }
    lemma_split_without_separator(s, '+');
    assert(lower(trim(s)) =~= Seq::<char>::empty());
    assert(hotkey_tokens(s) =~= seq![Seq::<char>::empty()]);
}

/// What a specification parses to, read off its tokens: a hotkey exactly
/// when the key token names a key and the modifier tokens fold.
proof fn lemma_parse_by_tokens(s: Seq<char>)
    ensures
        hotkey_of(s) is Ok <==> (key_named(hotkey_tokens(s).last()) is Some && modifier_mask(
            modifier_tokens(s),
        ) is Ok),
        hotkey_of(s) is Ok ==> hotkey_of(s) == Ok::<ParsedHotkey, crate::hotkey::HotkeyFault>(
            ParsedHotkey {
                modifiers: modifier_mask(modifier_tokens(s))->Ok_0,
                virtual_key: key_named(hotkey_tokens(s).last())->Some_0,
            },
        ),
{
    if trim(s).len() == 0 {
        lemma_blank_tokens(s);
        assert(hotkey_tokens(s).last().len() == 0);
    }
}

/// Whitespace around tokens, their ASCII case, the order of the modifiers
/// and the aliases of a name do not matter: two specifications with as many
/// tokens, whose key tokens name the same key and whose modifier tokens name
/// each modifier equally often, parse to the same hotkey or both fail.
pub proof fn equivalent_specs_parse_alike(s1: Seq<char>, s2: Seq<char>)
    requires
        hotkey_tokens(s1).len() == hotkey_tokens(s2).len(),
        key_named(hotkey_tokens(s1).last()) == key_named(hotkey_tokens(s2).last()),
        forall|b: u32|
            #[trigger] bit_count(modifier_tokens(s1), b) == bit_count(modifier_tokens(s2), b),
    ensures
        hotkey_of(s1) is Ok <==> hotkey_of(s2) is Ok,
        hotkey_of(s1) is Ok ==> hotkey_of(s1) == hotkey_of(s2),
{
    lemma_split_nonempty(s1, '+');
    lemma_split_nonempty(s2, '+');
    lemma_parse_by_tokens(s1);
    lemma_parse_by_tokens(s2);
    let t1 = modifier_tokens(s1);
    let t2 = modifier_tokens(s2);
    lemma_mask_counts(t1);
    lemma_mask_counts(t2);
    assert(bit_count(t1, 1) == bit_count(t2, 1));
    assert(bit_count(t1, 2) == bit_count(t2, 2));
    assert(bit_count(t1, 4) == bit_count(t2, 4));
    assert(bit_count(t1, 8) == bit_count(t2, 8));
}


/// The numeric keypad's digit keys: `numpad<d>` (the name the recorder
/// writes), `num<d>` and `kp<d>` all name virtual key `0x60 + d`.
pub proof fn keypad_aliases_name_the_same_key(d: int)
    requires
        0 <= d <= 9,
    ensures
        key_code("numpad"@ + seq![digit_char(d)]) == Some((0x60 + d) as u32),
        key_code("num"@ + seq![digit_char(d)]) == Some((0x60 + d) as u32),
        key_code("kp"@ + seq![digit_char(d)]) == Some((0x60 + d) as u32),
{
    reveal_strlit("esc");
    reveal_strlit("escape");
    reveal_strlit("space");
    reveal_strlit("enter");
    reveal_strlit("return");
    reveal_strlit("numpad0");
    reveal_strlit("num0");
    reveal_strlit("kp0");
    reveal_strlit("numpad1");
    reveal_strlit("num1");
    reveal_strlit("kp1");
    reveal_strlit("numpad2");
    reveal_strlit("num2");
    reveal_strlit("kp2");
    reveal_strlit("numpad3");
    reveal_strlit("num3");
    reveal_strlit("kp3");
    reveal_strlit("numpad4");
    reveal_strlit("num4");
    reveal_strlit("kp4");
    reveal_strlit("numpad5");
    reveal_strlit("num5");
    reveal_strlit("kp5");
    reveal_strlit("numpad6");
    reveal_strlit("num6");
    reveal_strlit("kp6");
    reveal_strlit("numpad7");
    reveal_strlit("num7");
    reveal_strlit("kp7");
    reveal_strlit("numpad8");
    reveal_strlit("num8");
    reveal_strlit("kp8");
    reveal_strlit("numpad9");
    reveal_strlit("num9");
    reveal_strlit("kp9");
    reveal_strlit("numpad");
    reveal_strlit("num");
    reveal_strlit("kp");
    if d == 0 {
        assert("numpad"@ + seq![digit_char(d)] =~= "numpad0"@);
        assert(function_key("numpad0"@) is None);
        assert(fixed_key("numpad0"@) == Some(0x60u32));
        assert("num"@ + seq![digit_char(d)] =~= "num0"@);
        assert(function_key("num0"@) is None);
        assert(fixed_key("num0"@) == Some(0x60u32));
        assert("kp"@ + seq![digit_char(d)] =~= "kp0"@);
        assert("kp0"@[0] != "esc"@[0]);
        assert(function_key("kp0"@) is None);
        assert(fixed_key("kp0"@) == Some(0x60u32));
    } else if d == 1 {
        assert("numpad"@ + seq![digit_char(d)] =~= "numpad1"@);
        assert("numpad1"@[6] != "numpad0"@[6]);
        assert(function_key("numpad1"@) is None);
        assert(fixed_key("numpad1"@) == Some(0x61u32));
        assert("num"@ + seq![digit_char(d)] =~= "num1"@);
        assert("num1"@[3] != "num0"@[3]);
        assert(function_key("num1"@) is None);
        assert(fixed_key("num1"@) == Some(0x61u32));
        assert("kp"@ + seq![digit_char(d)] =~= "kp1"@);
        assert("kp1"@[0] != "esc"@[0]);
        assert("kp1"@[2] != "kp0"@[2]);
        assert(function_key("kp1"@) is None);
        assert(fixed_key("kp1"@) == Some(0x61u32));
    } else if d == 2 {
        assert("numpad"@ + seq![digit_char(d)] =~= "numpad2"@);
        assert("numpad2"@[6] != "numpad0"@[6]);
        assert("numpad2"@[6] != "numpad1"@[6]);
        assert(function_key("numpad2"@) is None);
        assert(fixed_key("numpad2"@) == Some(0x62u32));
        assert("num"@ + seq![digit_char(d)] =~= "num2"@);
        assert("num2"@[3] != "num0"@[3]);
        assert("num2"@[3] != "num1"@[3]);
        assert(function_key("num2"@) is None);
        assert(fixed_key("num2"@) == Some(0x62u32));
        assert("kp"@ + seq![digit_char(d)] =~= "kp2"@);
        assert("kp2"@[0] != "esc"@[0]);
        assert("kp2"@[2] != "kp0"@[2]);
        assert("kp2"@[2] != "kp1"@[2]);
        assert(function_key("kp2"@) is None);
        assert(fixed_key("kp2"@) == Some(0x62u32));
    } else if d == 3 {
        assert("numpad"@ + seq![digit_char(d)] =~= "numpad3"@);
        assert("numpad3"@[6] != "numpad0"@[6]);
        assert("numpad3"@[6] != "numpad1"@[6]);
        assert("numpad3"@[6] != "numpad2"@[6]);
        assert(function_key("numpad3"@) is None);
        assert(fixed_key("numpad3"@) == Some(0x63u32));
        assert("num"@ + seq![digit_char(d)] =~= "num3"@);
        assert("num3"@[3] != "num0"@[3]);
        assert("num3"@[3] != "num1"@[3]);
        assert("num3"@[3] != "num2"@[3]);
        assert(function_key("num3"@) is None);
        assert(fixed_key("num3"@) == Some(0x63u32));
        assert("kp"@ + seq![digit_char(d)] =~= "kp3"@);
        assert("kp3"@[0] != "esc"@[0]);
        assert("kp3"@[2] != "kp0"@[2]);
        assert("kp3"@[2] != "kp1"@[2]);
        assert("kp3"@[2] != "kp2"@[2]);
        assert(function_key("kp3"@) is None);
        assert(fixed_key("kp3"@) == Some(0x63u32));
    } else if d == 4 {
        assert("numpad"@ + seq![digit_char(d)] =~= "numpad4"@);
        assert("numpad4"@[6] != "numpad0"@[6]);
        assert("numpad4"@[6] != "numpad1"@[6]);
        assert("numpad4"@[6] != "numpad2"@[6]);
        assert("numpad4"@[6] != "numpad3"@[6]);
        assert(function_key("numpad4"@) is None);
        assert(fixed_key("numpad4"@) == Some(0x64u32));
        assert("num"@ + seq![digit_char(d)] =~= "num4"@);
        assert("num4"@[3] != "num0"@[3]);
        assert("num4"@[3] != "num1"@[3]);
        assert("num4"@[3] != "num2"@[3]);
        assert("num4"@[3] != "num3"@[3]);
        assert(function_key("num4"@) is None);
        assert(fixed_key("num4"@) == Some(0x64u32));
        assert("kp"@ + seq![digit_char(d)] =~= "kp4"@);
        assert("kp4"@[0] != "esc"@[0]);
        assert("kp4"@[2] != "kp0"@[2]);
        assert("kp4"@[2] != "kp1"@[2]);
        assert("kp4"@[2] != "kp2"@[2]);
        assert("kp4"@[2] != "kp3"@[2]);
        assert(function_key("kp4"@) is None);
        assert(fixed_key("kp4"@) == Some(0x64u32));
    } else if d == 5 {
        assert("numpad"@ + seq![digit_char(d)] =~= "numpad5"@);
        assert("numpad5"@[6] != "numpad0"@[6]);
        assert("numpad5"@[6] != "numpad1"@[6]);
        assert("numpad5"@[6] != "numpad2"@[6]);
        assert("numpad5"@[6] != "numpad3"@[6]);
        assert("numpad5"@[6] != "numpad4"@[6]);
        assert(function_key("numpad5"@) is None);
        assert(fixed_key("numpad5"@) == Some(0x65u32));
        assert("num"@ + seq![digit_char(d)] =~= "num5"@);
        assert("num5"@[3] != "num0"@[3]);
        assert("num5"@[3] != "num1"@[3]);
        assert("num5"@[3] != "num2"@[3]);
        assert("num5"@[3] != "num3"@[3]);
        assert("num5"@[3] != "num4"@[3]);
        assert(function_key("num5"@) is None);
        assert(fixed_key("num5"@) == Some(0x65u32));
        assert("kp"@ + seq![digit_char(d)] =~= "kp5"@);
        assert("kp5"@[0] != "esc"@[0]);
        assert("kp5"@[2] != "kp0"@[2]);
        assert("kp5"@[2] != "kp1"@[2]);
        assert("kp5"@[2] != "kp2"@[2]);
        assert("kp5"@[2] != "kp3"@[2]);
        assert("kp5"@[2] != "kp4"@[2]);
        assert(function_key("kp5"@) is None);
        assert(fixed_key("kp5"@) == Some(0x65u32));
    } else if d == 6 {
        assert("numpad"@ + seq![digit_char(d)] =~= "numpad6"@);
        assert("numpad6"@[6] != "numpad0"@[6]);
        assert("numpad6"@[6] != "numpad1"@[6]);
        assert("numpad6"@[6] != "numpad2"@[6]);
        assert("numpad6"@[6] != "numpad3"@[6]);
        assert("numpad6"@[6] != "numpad4"@[6]);
        assert("numpad6"@[6] != "numpad5"@[6]);
        assert(function_key("numpad6"@) is None);
        assert(fixed_key("numpad6"@) == Some(0x66u32));
        assert("num"@ + seq![digit_char(d)] =~= "num6"@);
        assert("num6"@[3] != "num0"@[3]);
        assert("num6"@[3] != "num1"@[3]);
        assert("num6"@[3] != "num2"@[3]);
        assert("num6"@[3] != "num3"@[3]);
        assert("num6"@[3] != "num4"@[3]);
        assert("num6"@[3] != "num5"@[3]);
        assert(function_key("num6"@) is None);
        assert(fixed_key("num6"@) == Some(0x66u32));
        assert("kp"@ + seq![digit_char(d)] =~= "kp6"@);
        assert("kp6"@[0] != "esc"@[0]);
        assert("kp6"@[2] != "kp0"@[2]);
        assert("kp6"@[2] != "kp1"@[2]);
        assert("kp6"@[2] != "kp2"@[2]);
        assert("kp6"@[2] != "kp3"@[2]);
        assert("kp6"@[2] != "kp4"@[2]);
        assert("kp6"@[2] != "kp5"@[2]);
        assert(function_key("kp6"@) is None);
        assert(fixed_key("kp6"@) == Some(0x66u32));
    } else if d == 7 {
        assert("numpad"@ + seq![digit_char(d)] =~= "numpad7"@);
        assert("numpad7"@[6] != "numpad0"@[6]);
        assert("numpad7"@[6] != "numpad1"@[6]);
        assert("numpad7"@[6] != "numpad2"@[6]);
        assert("numpad7"@[6] != "numpad3"@[6]);
        assert("numpad7"@[6] != "numpad4"@[6]);
        assert("numpad7"@[6] != "numpad5"@[6]);
        assert("numpad7"@[6] != "numpad6"@[6]);
        assert(function_key("numpad7"@) is None);
        assert(fixed_key("numpad7"@) == Some(0x67u32));
        assert("num"@ + seq![digit_char(d)] =~= "num7"@);
        assert("num7"@[3] != "num0"@[3]);
        assert("num7"@[3] != "num1"@[3]);
        assert("num7"@[3] != "num2"@[3]);
        assert("num7"@[3] != "num3"@[3]);
        assert("num7"@[3] != "num4"@[3]);
        assert("num7"@[3] != "num5"@[3]);
        assert("num7"@[3] != "num6"@[3]);
        assert(function_key("num7"@) is None);
        assert(fixed_key("num7"@) == Some(0x67u32));
        assert("kp"@ + seq![digit_char(d)] =~= "kp7"@);
        assert("kp7"@[0] != "esc"@[0]);
        assert("kp7"@[2] != "kp0"@[2]);
        assert("kp7"@[2] != "kp1"@[2]);
        assert("kp7"@[2] != "kp2"@[2]);
        assert("kp7"@[2] != "kp3"@[2]);
        assert("kp7"@[2] != "kp4"@[2]);
        assert("kp7"@[2] != "kp5"@[2]);
        assert("kp7"@[2] != "kp6"@[2]);
        assert(function_key("kp7"@) is None);
        assert(fixed_key("kp7"@) == Some(0x67u32));
    } else if d == 8 {
        assert("numpad"@ + seq![digit_char(d)] =~= "numpad8"@);
        assert("numpad8"@[6] != "numpad0"@[6]);
        assert("numpad8"@[6] != "numpad1"@[6]);
        assert("numpad8"@[6] != "numpad2"@[6]);
        assert("numpad8"@[6] != "numpad3"@[6]);
        assert("numpad8"@[6] != "numpad4"@[6]);
        assert("numpad8"@[6] != "numpad5"@[6]);
        assert("numpad8"@[6] != "numpad6"@[6]);
        assert("numpad8"@[6] != "numpad7"@[6]);
        assert(function_key("numpad8"@) is None);
        assert(fixed_key("numpad8"@) == Some(0x68u32));
        assert("num"@ + seq![digit_char(d)] =~= "num8"@);
        assert("num8"@[3] != "num0"@[3]);
        assert("num8"@[3] != "num1"@[3]);
        assert("num8"@[3] != "num2"@[3]);
        assert("num8"@[3] != "num3"@[3]);
        assert("num8"@[3] != "num4"@[3]);
        assert("num8"@[3] != "num5"@[3]);
        assert("num8"@[3] != "num6"@[3]);
        assert("num8"@[3] != "num7"@[3]);
        assert(function_key("num8"@) is None);
        assert(fixed_key("num8"@) == Some(0x68u32));
        assert("kp"@ + seq![digit_char(d)] =~= "kp8"@);
        assert("kp8"@[0] != "esc"@[0]);
        assert("kp8"@[2] != "kp0"@[2]);
        assert("kp8"@[2] != "kp1"@[2]);
        assert("kp8"@[2] != "kp2"@[2]);
        assert("kp8"@[2] != "kp3"@[2]);
        assert("kp8"@[2] != "kp4"@[2]);
        assert("kp8"@[2] != "kp5"@[2]);
        assert("kp8"@[2] != "kp6"@[2]);
        assert("kp8"@[2] != "kp7"@[2]);
        assert(function_key("kp8"@) is None);
        assert(fixed_key("kp8"@) == Some(0x68u32));
    } else if d == 9 {
        assert("numpad"@ + seq![digit_char(d)] =~= "numpad9"@);
        assert("numpad9"@[6] != "numpad0"@[6]);
        assert("numpad9"@[6] != "numpad1"@[6]);
        assert("numpad9"@[6] != "numpad2"@[6]);
        assert("numpad9"@[6] != "numpad3"@[6]);
        assert("numpad9"@[6] != "numpad4"@[6]);
        assert("numpad9"@[6] != "numpad5"@[6]);
        assert("numpad9"@[6] != "numpad6"@[6]);
        assert("numpad9"@[6] != "numpad7"@[6]);
        assert("numpad9"@[6] != "numpad8"@[6]);
        assert(function_key("numpad9"@) is None);
        assert(fixed_key("numpad9"@) == Some(0x69u32));
        assert("num"@ + seq![digit_char(d)] =~= "num9"@);
        assert("num9"@[3] != "num0"@[3]);
        assert("num9"@[3] != "num1"@[3]);
        assert("num9"@[3] != "num2"@[3]);
        assert("num9"@[3] != "num3"@[3]);
        assert("num9"@[3] != "num4"@[3]);
        assert("num9"@[3] != "num5"@[3]);
        assert("num9"@[3] != "num6"@[3]);
        assert("num9"@[3] != "num7"@[3]);
        assert("num9"@[3] != "num8"@[3]);
        assert(function_key("num9"@) is None);
        assert(fixed_key("num9"@) == Some(0x69u32));
        assert("kp"@ + seq![digit_char(d)] =~= "kp9"@);
        assert("kp9"@[0] != "esc"@[0]);
        assert("kp9"@[2] != "kp0"@[2]);
        assert("kp9"@[2] != "kp1"@[2]);
        assert("kp9"@[2] != "kp2"@[2]);
        assert("kp9"@[2] != "kp3"@[2]);
        assert("kp9"@[2] != "kp4"@[2]);
        assert("kp9"@[2] != "kp5"@[2]);
        assert("kp9"@[2] != "kp6"@[2]);
        assert("kp9"@[2] != "kp7"@[2]);
        assert("kp9"@[2] != "kp8"@[2]);
        assert(function_key("kp9"@) is None);
        assert(fixed_key("kp9"@) == Some(0x69u32));
    }
}

} // verus!
