//! Keyboard recorder used when a hotkey field has focus, and the stable
//! conversion of a hotkey to configuration and display text.
use vstd::prelude::*;

use crate::hotkey::{key_label, key_label_exec, key_token, key_token_exec, ParsedHotkey};
use crate::text::{
    decimal, decimal_chars, hex_min2, hex_min2_chars, join, join_chars, lower_char,
    lower_char_exec, push_str, string_of, views,
};

verus! {

/// The `MOD_*` bit of a modifier virtual key (either side), or zero.
pub open spec fn modifier_of(vk: u32) -> u32 {
    if vk == 0x10 || vk == 0xa0 || vk == 0xa1 {
        4
    } else if vk == 0x11 || vk == 0xa2 || vk == 0xa3 {
        2
    } else if vk == 0x12 || vk == 0xa4 || vk == 0xa5 {
        1
    } else {
        0
    }
}

/// Keys that may be recorded as the key of a hotkey.
pub open spec fn recordable(vk: u32) -> bool {
    &&& 0x08 <= vk <= 0xfe
    &&& modifier_of(vk) == 0
    &&& !(vk == 0x08 || vk == 0x09 || vk == 0x0d || vk == 0x13 || vk == 0x14 || (0x21 <= vk
        <= 0x28) || (0x2c <= vk <= 0x2e) || (0x5b <= vk <= 0x5d) || vk == 0x90 || vk == 0x91
        || vk == 0xe7)
}

/// The `MOD_*` bit of a modifier virtual key (either side), or zero.
pub fn modifier(vk: u32) -> (r: u32)
    ensures
        r == modifier_of(vk),
{
    if vk == 0x10 || vk == 0xa0 || vk == 0xa1 {
        4
    } else if vk == 0x11 || vk == 0xa2 || vk == 0xa3 {
        2
    } else if vk == 0x12 || vk == 0xa4 || vk == 0xa5 {
        1
    } else {
        0
    }
}

/// Whether a key may be recorded as the key of a hotkey.
pub fn allowed(vk: u32) -> (r: bool)
    ensures
        r == recordable(vk),
{
    0x08 <= vk && vk <= 0xfe && modifier(vk) == 0 && !(vk == 0x08 || vk == 0x09 || vk == 0x0d
        || vk == 0x13 || vk == 0x14 || (0x21 <= vk && vk <= 0x28) || (0x2c <= vk && vk <= 0x2e)
        || (0x5b <= vk && vk <= 0x5d) || vk == 0x90 || vk == 0x91 || vk == 0xe7)
}

// ---------------------------------------------------------------------------
// Formatting.

pub open spec fn modifier_part(mask: u32, bit: u32, name: Seq<char>) -> Seq<Seq<char>> {
    if mask & bit != 0 {
        seq![name]
    } else {
        Seq::empty()
    }
}

/// Modifier names in the fixed order Ctrl, Shift, Alt, Win.
pub open spec fn modifier_parts(mask: u32, display: bool) -> Seq<Seq<char>> {
    modifier_part(mask, 2, if display { "Ctrl"@ } else { "ctrl"@ }) + modifier_part(
        mask,
        4,
        if display { "Shift"@ } else { "shift"@ },
    ) + modifier_part(mask, 1, if display { "Alt"@ } else { "alt"@ }) + modifier_part(
        mask,
        8,
        if display { "Win"@ } else { "win"@ },
    )
}

/// The text of a key: letters and digits as themselves (lowercase in the
/// configuration), `F1`..`F24`, `Num 0`..`Num 9`, named keys, else `vk_XX`.
pub open spec fn key_part(vk: u32, display: bool) -> Seq<char> {
    if (0x30 <= vk <= 0x39) || (0x41 <= vk <= 0x5a) {
        let c = vk as char;
        if display {
            seq![c]
        } else {
            seq![lower_char(c)]
        }
    } else if 0x70 <= vk <= 0x87 {
        (if display { "F"@ } else { "f"@ }) + decimal((vk - 0x6f) as nat)
    } else if 0x60 <= vk <= 0x69 {
        (if display { "Num "@ } else { "numpad"@ }) + decimal((vk - 0x60) as nat)
    } else {
        match if display { key_label(vk) } else { key_token(vk) } {
            Some(t) => t,
            None => "vk_"@ + hex_min2(vk as nat),
        }
    }
}

pub open spec fn hotkey_parts(key: ParsedHotkey, display: bool) -> Seq<Seq<char>> {
    modifier_parts(key.modifiers, display) + if key.virtual_key != 0 {
        seq![key_part(key.virtual_key, display)]
    } else {
        Seq::empty()
    }
}

/// The configuration text (`ctrl+alt+q`) or display text (`Ctrl + Alt + Q`).
pub open spec fn hotkey_text(key: ParsedHotkey, display: bool) -> Seq<char> {
    join(hotkey_parts(key, display), if display { " + "@ } else { "+"@ })
}

fn push_part(parts: &mut Vec<Vec<char>>, text: &str)
    ensures
        views(final(parts)@) == views(old(parts)@).push(text@),
{
    let mut v: Vec<char> = Vec::new();
    push_str(&mut v, text);
    proof {
        assert(v@ =~= text@);
    }
    parts.push(v);
    proof {
        assert(views(parts@) =~= views(old(parts)@).push(text@));
    }
}

fn key_part_exec(vk: u32, display: bool) -> (r: Vec<char>)
    ensures
        r@ == key_part(vk, display),
{
    let mut r: Vec<char> = Vec::new();
    if (0x30 <= vk && vk <= 0x39) || (0x41 <= vk && vk <= 0x5a) {
        let c = (vk as u8) as char;
        if display {
            r.push(c);
        } else {
            r.push(lower_char_exec(c));
        }
        proof {
            assert(r@ =~= key_part(vk, display));
        }
    } else if 0x70 <= vk && vk <= 0x87 {
        push_str(&mut r, if display { "F" } else { "f" });
        let digits = decimal_chars((vk - 0x6f) as u64);
        crate::text::push_chars(&mut r, digits.as_slice());
    } else if 0x60 <= vk && vk <= 0x69 {
        push_str(&mut r, if display { "Num " } else { "numpad" });
        let digits = decimal_chars((vk - 0x60) as u64);
        crate::text::push_chars(&mut r, digits.as_slice());
    } else {
        let name = if display { key_label_exec(vk) } else { key_token_exec(vk) };
        match name {
            Some(t) => push_str(&mut r, t),
            None => {
                push_str(&mut r, "vk_");
                let digits = hex_min2_chars(vk);
                crate::text::push_chars(&mut r, digits.as_slice());
            },
        }
        proof {
            assert(r@ =~= key_part(vk, display));
        }
    }
    r
}

/// Formats a hotkey as configuration text (`display == false`, parsed back by
/// [`crate::hotkey::parse_hotkey`]) or as display text.
pub fn format(key: ParsedHotkey, display: bool) -> (r: String)
    ensures
        r@ == hotkey_text(key, display),
{
    let mut parts: Vec<Vec<char>> = Vec::new();
    let m = key.modifiers;
    if m & 2 != 0 {
        push_part(&mut parts, if display { "Ctrl" } else { "ctrl" });
    }
    let ghost p1 = views(parts@);
    if m & 4 != 0 {
        push_part(&mut parts, if display { "Shift" } else { "shift" });
    }
    let ghost p2 = views(parts@);
    if m & 1 != 0 {
        push_part(&mut parts, if display { "Alt" } else { "alt" });
    }
    let ghost p3 = views(parts@);
    if m & 8 != 0 {
        push_part(&mut parts, if display { "Win" } else { "win" });
    }
    proof {
        assert(views(parts@) =~= modifier_parts(m, display));
    }
    if key.virtual_key != 0 {
        let part = key_part_exec(key.virtual_key, display);
        parts.push(part);
    }
    proof {
        assert(views(parts@) =~= hotkey_parts(key, display));
    }
    let mut sep: Vec<char> = Vec::new();
    push_str(&mut sep, if display { " + " } else { "+" });
    let text = join_chars(&parts, sep.as_slice());
    string_of(text.as_slice())
}

// ---------------------------------------------------------------------------
// Recording.

/// What the recorder reports after a key event.
#[derive(Debug, Clone, Copy, PartialEq, Eq, Structural)]
pub enum Update {
    /// The chord so far (virtual key zero while only modifiers are held).
    Preview(ParsedHotkey),
    /// All keys were released after exactly one recordable key.
    Complete(ParsedHotkey),
    /// The chord can no longer become a hotkey.
    Invalid,
    /// Nothing to show yet.
    Waiting,
}

/// The state of a recorder.
pub struct RecorderState {
    /// Which of the 256 virtual keys are held.
    pub down: Seq<bool>,
    pub candidate: Option<ParsedHotkey>,
    pub invalid: bool,
    pub priming: bool,
}

/// Bitwise union of the modifier bits of the held keys below `n`.
pub open spec fn held_mask(down: Seq<bool>, n: int) -> u32
    decreases n,
{
    if n <= 0 {
        0
    } else {
        held_mask(down, n - 1) | (if down[n - 1] { modifier_of((n - 1) as u32) } else { 0 })
    }
}

pub open spec fn any_down(down: Seq<bool>) -> bool {
    exists|i: int| 0 <= i < down.len() && down[i]
}

pub open spec fn preview_of(s: RecorderState) -> Update {
    if s.invalid {
        Update::Invalid
    } else {
        Update::Preview(
            match s.candidate {
                Some(c) => c,
                None => ParsedHotkey { modifiers: held_mask(s.down, 256), virtual_key: 0 },
            },
        )
    }
}

/// Marks the given keys as held before recording starts, so the keys used to
/// focus the field (such as Shift+Tab) do not become part of a binding.
pub open spec fn seeded(s: RecorderState, keys: Seq<u32>) -> RecorderState
    decreases keys.len(),
{
    if keys.len() == 0 {
        s
    } else {
        let t = seeded(s, keys.drop_last());
        let vk = keys.last();
        if vk < 256 {
            RecorderState { down: t.down.update(vk as int, true), priming: true, ..t }
        } else {
            t
        }
    }
}

/// The state after a press (`pressed`) or release of `vk`, before the
/// completion check.
pub open spec fn after_key(s: RecorderState, vk: u32, pressed: bool) -> RecorderState {
    let down = s.down.update(vk as int, pressed);
    if !pressed {
        RecorderState { down, ..s }
    } else if modifier_of(vk) == 0 {
        if !recordable(vk) || s.candidate is Some {
            RecorderState { down, invalid: true, ..s }
        } else {
            RecorderState {
                down,
                candidate: Some(ParsedHotkey { modifiers: held_mask(down, 256), virtual_key: vk }),
                ..s
            }
        }
    } else {
        match s.candidate {
            Some(c) => RecorderState {
                down,
                candidate: Some(
                    ParsedHotkey { modifiers: c.modifiers | modifier_of(vk), virtual_key: c.virtual_key },
                ),
                ..s
            },
            None => RecorderState { down, ..s },
        }
    }
}

/// One key event: the next state and what to report.
pub open spec fn key_event(s: RecorderState, vk: u32, pressed: bool) -> (RecorderState, Update) {
    if vk >= 256 {
        (s, Update::Invalid)
    } else if s.down[vk as int] == pressed {
        (s, preview_of(s))
    } else if s.priming {
        let down = s.down.update(vk as int, pressed);
        (RecorderState { down, priming: any_down(down), ..s }, Update::Waiting)
    } else {
        let t = after_key(s, vk, pressed);
        if !any_down(t.down) {
            let report = if t.invalid {
                Update::Invalid
            } else {
                match t.candidate {
                    Some(c) => Update::Complete(c),
                    None => Update::Waiting,
                }
            };
            (RecorderState { candidate: None, invalid: false, ..t }, report)
        } else {
            (t, preview_of(t))
        }
    }
}


/// States the recorder can reach: all 256 keys tracked, and any candidate
/// names a recordable key.
pub open spec fn consistent(s: RecorderState) -> bool {
    &&& s.down.len() == 256
    &&& s.candidate matches Some(c) ==> recordable(c.virtual_key)
}

/// Every event keeps the recorder consistent; a hotkey is completed only
/// when the last held key is released, it names a recordable key, and the
/// recorder is then ready for the next chord.
pub proof fn completion_requires_full_release(s: RecorderState, vk: u32, pressed: bool)
    requires
        consistent(s),
    ensures
        consistent(key_event(s, vk, pressed).0),
        key_event(s, vk, pressed).1 matches Update::Complete(k) ==> {
            &&& recordable(k.virtual_key)
            &&& !any_down(key_event(s, vk, pressed).0.down)
            &&& key_event(s, vk, pressed).0.candidate is None
            &&& !key_event(s, vk, pressed).0.invalid
        },
{
}

/// Repeated key-down (auto-repeat) or a second release of the same key
/// changes nothing.
pub proof fn repeated_events_are_ignored(s: RecorderState, vk: u32, pressed: bool)
    requires
        consistent(s),
        vk < 256,
        s.down[vk as int] == pressed,
    ensures
        key_event(s, vk, pressed).0 == s,
        key_event(s, vk, pressed).1 == preview_of(s),
{
}

/// Every bit of `a` is a bit of `b`.
pub open spec fn bits_within(a: u32, b: u32) -> bool {
    a & !b == 0
}

proof fn lemma_bits()
    by (bit_vector)
    ensures
        forall|a: u32, b: u32, c: u32|
            #![trigger a & !b, b & !c]
            (a & !b == 0 && b & !c == 0) ==> a & !c == 0,
        forall|a: u32, x: u32, c: u32|
            #![trigger (a | x) & !c]
            (a & !c == 0 && x & !c == 0) ==> (a | x) & !c == 0,
        forall|a: u32, b: u32| #![trigger a & !(a | b)] a & !(a | b) == 0,
        forall|a: u32, b: u32| #![trigger b & !(a | b)] b & !(a | b) == 0,
        forall|a: u32| #![trigger a & !a] a & !a == 0,
        forall|a: u32| #![trigger a | 0u32] a | 0u32 == a,
        forall|a: u32| #![trigger 0u32 & !a] 0u32 & !a == 0,
{
}

/// Changing one key's state adds at most that key's modifier bit to the
/// held mask: `held_mask(down', n) ⊆ held_mask(down, n) ∪ extra`.
proof fn lemma_held_mask_update(down: Seq<bool>, n: int, vk: int, v: bool)
    requires
        0 <= vk < down.len(),
        n <= down.len(),
    ensures
        bits_within(
            held_mask(down.update(vk, v), n),
            held_mask(down, n) | (if v {
                modifier_of(vk as u32)
            } else {
                0
            }),
        ),
    decreases n,
{
    lemma_bits();
    let d2 = down.update(vk, v);
    let extra: u32 = if v {
        modifier_of(vk as u32)
    } else {
        0
    };
    if n <= 0 {
        assert(held_mask(d2, n) == 0);
    } else {
        lemma_held_mask_update(down, n - 1, vk, v);
        let h2 = held_mask(d2, n - 1);
        let h = held_mask(down, n - 1);
        let b2: u32 = if d2[n - 1] {
            modifier_of((n - 1) as u32)
        } else {
            0
        };
        let b: u32 = if down[n - 1] {
            modifier_of((n - 1) as u32)
        } else {
            0
        };
        assert(held_mask(d2, n) == h2 | b2);
        assert(held_mask(down, n) == h | b);
        // h2 ⊆ h | extra ⊆ (h | b) | extra
        assert(bits_within(h, h | b));
        assert(bits_within(h | b, (h | b) | extra));
        assert(bits_within(h, (h | b) | extra));
        assert(bits_within(extra, (h | b) | extra));
        assert(bits_within(h | extra, (h | b) | extra));
        assert(bits_within(h2, (h | b) | extra));
        if n - 1 == vk {
            if v {
                assert(b2 == extra);
            } else {
                assert(b2 == 0);
            }
        } else {
            assert(b2 == b);
            assert(bits_within(b, h | b));
        }
        assert(bits_within(b2, (h | b) | extra));
    }
}

/// Recorder states in which the chord's modifiers include every modifier
/// held, and nothing is recorded while the keys that focused the field are
/// still down.
pub open spec fn chord_tracks_modifiers(s: RecorderState) -> bool {
    &&& consistent(s)
    &&& s.priming ==> s.candidate is None
    &&& s.candidate matches Some(c) ==> bits_within(held_mask(s.down, 256), c.modifiers)
}

/// The modifiers of a chord accumulate: once the main key is down, every
/// modifier held — pressed before the key or after it — is part of the
/// chord, no modifier once recorded is dropped, and the hotkey completed is
/// the chord as recorded. So the completed hotkey's modifiers include every
/// modifier pressed while its key was part of the chord.
pub proof fn chord_keeps_every_modifier(s: RecorderState, vk: u32, pressed: bool)
    requires
        chord_tracks_modifiers(s),
    ensures
        chord_tracks_modifiers(key_event(s, vk, pressed).0),
        ({
            let (t, report) = key_event(s, vk, pressed);
            &&& (s.candidate is Some && t.candidate is Some) ==> (t.candidate->Some_0.virtual_key
                == s.candidate->Some_0.virtual_key && bits_within(
                s.candidate->Some_0.modifiers,
                t.candidate->Some_0.modifiers,
            ))
            &&& (s.candidate is Some && pressed && vk < 256 && !s.down[vk as int]
                && t.candidate is Some) ==> bits_within(
                modifier_of(vk),
                t.candidate->Some_0.modifiers,
            )
            &&& report matches Update::Complete(k) ==> s.candidate == Some(k)
        }),
{
    lemma_bits();
    completion_requires_full_release(s, vk, pressed);
    if vk < 256 && s.down[vk as int] != pressed && !s.priming {
        let down = s.down.update(vk as int, pressed);
        let m = modifier_of(vk);
        lemma_held_mask_update(s.down, 256, vk as int, pressed);
        let h = held_mask(s.down, 256);
        let h2 = held_mask(down, 256);
        let extra: u32 = if pressed {
            m
        } else {
            0
        };
        assert(bits_within(h2, h | extra));
        let t = after_key(s, vk, pressed);
        assert(t.down == down);
        if pressed {
            assert(down[vk as int]);
            assert(any_down(t.down));
        }
        if pressed && m != 0 {
            if let Some(c) = s.candidate {
                // h2 ⊆ h | m ⊆ c | m
                assert(bits_within(h, c.modifiers));
                assert(bits_within(c.modifiers, c.modifiers | m));
                assert(bits_within(h, c.modifiers | m));
                assert(bits_within(m, c.modifiers | m));
                assert(bits_within(h | m, c.modifiers | m));
                assert(bits_within(h2, c.modifiers | m));
            }
        } else if pressed {
            assert(extra == 0 || extra == m);
            assert(h | extra == h) by {
                assert(m == 0);
            }
            if let Some(c) = t.candidate {
                if s.candidate is Some {
                    assert(bits_within(h2, c.modifiers));
                } else {
                    assert(bits_within(h2, h2));
                }
            }
        } else {
            assert(h | extra == h);
            if let Some(c) = s.candidate {
                assert(bits_within(h2, c.modifiers));
            }
        }
    }
}

/// Records one hotkey from raw key-down and key-up events.
pub struct Recorder {
    down: Vec<bool>,
    candidate: Option<ParsedHotkey>,
    invalid: bool,
    priming: bool,
}

impl Recorder {
    #[verifier::type_invariant]
    spec fn tracks_every_key(self) -> bool {
        self.down@.len() == 256
    }

    pub closed spec fn state(self) -> RecorderState {
        RecorderState {
            down: self.down@,
            candidate: self.candidate,
            invalid: self.invalid,
            priming: self.priming,
        }
    }

    /// A recorder with no key held and nothing recorded.
    pub fn new() -> (r: Self)
        ensures
            r.state().down == Seq::new(256, |i: int| false),
            r.state().candidate is None,
            !r.state().invalid,
            !r.state().priming,
    {
        let mut down: Vec<bool> = Vec::new();
        let mut i: usize = 0;
        while i < 256
            invariant
                0 <= i <= 256,
                down@ == Seq::new(i as nat, |k: int| false),
            decreases 256 - i,
        {
            down.push(false);
            proof {
                assert(down@ =~= Seq::new((i + 1) as nat, |k: int| false));
            }
            i = i + 1;
        }
        Recorder { down, candidate: None, invalid: false, priming: false }
    }

    /// Marks keys that are already held when recording starts.
    pub fn seed(&mut self, keys: &[u32])
        ensures
            final(self).state() == seeded(old(self).state(), keys@),
    {
        let mut i: usize = 0;
        while i < keys.len()
            invariant
                0 <= i <= keys@.len(),
                self.state() == seeded(old(self).state(), keys@.take(i as int)),
            decreases keys@.len() - i,
        {
            proof {
                use_type_invariant(&*self);
                assert(keys@.take(i as int + 1).drop_last() =~= keys@.take(i as int));
            }
            let vk = keys[i];
            if vk < 256 {
                self.mark(vk as usize, true);
                self.priming = true;
            }
            proof {
                assert(self.state() =~= seeded(old(self).state(), keys@.take(i as int + 1)));
            }
            i = i + 1;
        }
        proof {
            assert(keys@.take(keys@.len() as int) =~= keys@);
        }
    }

    fn mark(&mut self, vk: usize, pressed: bool)
        requires
            vk < 256,
        ensures
            final(self).state() == (RecorderState {
                down: old(self).state().down.update(vk as int, pressed),
                ..old(self).state()
            }),
    {
        proof {
            use_type_invariant(&*self);
        }
        let mut down: Vec<bool> = self.down.clone();
        proof {
            assert(down@ =~= self.down@);
        }
        down.set(vk, pressed);
        self.down = down;
    }

    fn held_modifiers(&self) -> (r: u32)
        ensures
            r == held_mask(self.state().down, 256),
    {
        proof {
            use_type_invariant(self);
        }
        let mut mask: u32 = 0;
        let mut vk: usize = 0;
        while vk < 256
            invariant
                0 <= vk <= 256,
                self.down@.len() == 256,
                mask == held_mask(self.down@, vk as int),
            decreases 256 - vk,
        {
            let bit = if self.down[vk] {
                modifier(vk as u32)
            } else {
                0
            };
            mask = mask | bit;
            vk = vk + 1;
        }
        mask
    }

    fn any_held(&self) -> (r: bool)
        ensures
            r == any_down(self.state().down),
    {
        proof {
            use_type_invariant(self);
        }
        let mut vk: usize = 0;
        while vk < 256
            invariant
                0 <= vk <= 256,
                self.down@.len() == 256,
                forall|i: int| 0 <= i < vk ==> !self.down@[i],
            decreases 256 - vk,
        {
            if self.down[vk] {
                return true;
            }
            vk = vk + 1;
        }
        false
    }

    fn preview(&self) -> (r: Update)
        ensures
            r == preview_of(self.state()),
    {
        if self.invalid {
            Update::Invalid
        } else {
            Update::Preview(
                match self.candidate {
                    Some(c) => c,
                    None => ParsedHotkey { modifiers: self.held_modifiers(), virtual_key: 0 },
                },
            )
        }
    }

    /// Handles a key press (`pressed`) or release of virtual key `vk`.
    pub fn event(&mut self, vk: u32, pressed: bool) -> (r: Update)
        ensures
            (final(self).state(), r) == key_event(old(self).state(), vk, pressed),
    {
        proof {
            use_type_invariant(&*self);
        }
        if vk >= 256 {
            return Update::Invalid;
        }
        if self.down[vk as usize] == pressed {
            return self.preview();
        }
        self.mark(vk as usize, pressed);
        if self.priming {
            self.priming = self.any_held();
            return Update::Waiting;
        }
        if pressed {
            if modifier(vk) == 0 {
                if !allowed(vk) || self.candidate.is_some() {
                    self.invalid = true;
                } else {
                    let modifiers = self.held_modifiers();
                    self.candidate = Some(ParsedHotkey { modifiers, virtual_key: vk });
                }
            } else {
                match self.candidate {
                    Some(c) => {
                        self.candidate = Some(
                            ParsedHotkey {
                                modifiers: c.modifiers | modifier(vk),
                                virtual_key: c.virtual_key,
                            },
                        );
                    },
                    None => {},
                }
            }
        }
        proof {
            assert(self.state() == after_key(old(self).state(), vk, pressed));
        }
        if !self.any_held() {
            let candidate = self.candidate;
            let invalid = self.invalid;
            self.candidate = None;
            self.invalid = false;
            if invalid {
                return Update::Invalid;
            }
            return match candidate {
                Some(c) => Update::Complete(c),
                None => Update::Waiting,
            };
        }
        self.preview()
    }
}

impl Default for Recorder {
    fn default() -> (r: Self)
        ensures
            r.state().down == Seq::new(256, |i: int| false),
            r.state().candidate is None,
            !r.state().invalid,
            !r.state().priming,
    {
        Recorder::new()
    }
}

} // verus!
