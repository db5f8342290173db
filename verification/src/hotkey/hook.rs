//! The low-level keyboard hook's decisions: a binding fires on key-down
//! when its modifiers are held (extra modifiers do not matter), the
//! key-down that fired and its repeats and key-up are swallowed, and
//! injected input passes through untouched.
use vstd::prelude::*;

use crate::hotkey::{MOD_ALT, MOD_CTRL, MOD_SHIFT, MOD_WIN};

verus! {

/// A registered binding: the action id, its key and its modifier mask.
#[derive(Debug, Clone, Copy, PartialEq, Eq, Structural)]
pub struct Binding {
    pub id: i32,
    pub virtual_key: u32,
    pub modifiers: u32,
}

/// Which modifiers are held down (either Windows key counts).
#[derive(Debug, Clone, Copy, PartialEq, Eq, Structural)]
pub struct HeldModifiers {
    pub control: bool,
    pub alt: bool,
    pub shift: bool,
    pub win: bool,
}

/// The kind of keyboard message.
#[derive(Debug, Clone, Copy, PartialEq, Eq, Structural)]
pub enum KeyMessage {
    /// `WM_KEYDOWN` or `WM_SYSKEYDOWN`.
    Down,
    /// `WM_KEYUP` or `WM_SYSKEYUP`.
    Up,
    Other,
}

/// What the hook does with a message.
#[derive(Debug, Clone, Copy, PartialEq, Eq, Structural)]
pub enum HookVerdict {
    /// Hand it to the next hook.
    PassOn,
    /// Drop it.
    Swallow,
    /// Drop it and run the binding with this id.
    Fire(i32),
}

/// Every modifier the mask requires is held.
pub open spec fn satisfied(required: u32, held: HeldModifiers) -> bool {
    &&& (required & 2 != 0 ==> held.control)
    &&& (required & 1 != 0 ==> held.alt)
    &&& (required & 4 != 0 ==> held.shift)
    &&& (required & 8 != 0 ==> held.win)
}

/// The first binding of `key` whose modifiers are held.
pub open spec fn first_match(bindings: Seq<Binding>, key: u32, held: HeldModifiers) -> Option<int>
    decreases bindings.len(),
{
    if bindings.len() == 0 {
        None
    } else if bindings[0].virtual_key == key && satisfied(bindings[0].modifiers, held) {
        Some(0)
    } else {
        match first_match(bindings.drop_first(), key, held) {
            Some(i) => Some(i + 1),
            None => None,
        }
    }
}

/// The keys swallowed after the message, and the verdict.
pub open spec fn hook_step(
    bindings: Seq<Binding>,
    swallowed: Set<u32>,
    injected: bool,
    message: KeyMessage,
    key: u32,
    held: HeldModifiers,
) -> (Set<u32>, HookVerdict) {
    if injected {
        (swallowed, HookVerdict::PassOn)
    } else if message == KeyMessage::Down {
        if swallowed.contains(key) {
            (swallowed, HookVerdict::Swallow)
        } else {
            match first_match(bindings, key, held) {
                Some(i) => (swallowed.insert(key), HookVerdict::Fire(bindings[i].id)),
                None => (swallowed, HookVerdict::PassOn),
            }
        }
    } else if message == KeyMessage::Up && swallowed.contains(key) {
        (swallowed.remove(key), HookVerdict::Swallow)
    } else {
        (swallowed, HookVerdict::PassOn)
    }
}

/// The hook's bindings and the keys whose key-down it swallowed.
pub struct HookFilter {
    bindings: Vec<Binding>,
    swallowed: Vec<u32>,
}

impl HookFilter {
    pub closed spec fn binding_seq(&self) -> Seq<Binding> {
        self.bindings@
    }

    /// Keys swallowed on key-down whose key-up is still to come.
    pub closed spec fn held_keys(&self) -> Set<u32> {
        self.swallowed@.to_set()
    }

    pub closed spec fn wf(&self) -> bool {
        self.swallowed@.no_duplicates()
    }

    pub fn new(bindings: Vec<Binding>) -> (r: HookFilter)
        ensures
            r.wf(),
            r.binding_seq() == bindings@,
            r.held_keys() == Set::<u32>::empty(),
    {
        let r = HookFilter { bindings, swallowed: Vec::new() };
        assert(r.swallowed@.to_set() =~= Set::<u32>::empty());
        r
    }

    fn position(&self, key: u32) -> (r: Option<usize>)
        requires
            self.wf(),
        ensures
            match r {
                Some(i) => i < self.swallowed@.len() && self.swallowed@[i as int] == key,
                None => !self.held_keys().contains(key),
            },
    {
        let mut i: usize = 0;
        while i < self.swallowed.len()
            invariant
                0 <= i <= self.swallowed@.len(),
                forall|k: int| 0 <= k < i ==> self.swallowed@[k] != key,
            decreases self.swallowed@.len() - i,
        {
            if self.swallowed[i] == key {
                return Some(i);
            }
            i = i + 1;
        }
        proof {
            if self.swallowed@.to_set().contains(key) {
                let k = choose|k: int| 0 <= k < self.swallowed@.len() && self.swallowed@[k] == key;
                assert(self.swallowed@[k] == key);
            }
        }
        None
    }

    fn matching(&self, key: u32, held: HeldModifiers) -> (r: Option<usize>)
        ensures
            match r {
                Some(i) => first_match(self.binding_seq(), key, held) == Some(i as int) && i
                    < self.binding_seq().len(),
                None => first_match(self.binding_seq(), key, held) is None,
            },
    {
        let mut i: usize = 0;
        proof {
            assert(self.bindings@.skip(0) =~= self.bindings@);
        }
        while i < self.bindings.len()
            invariant
                0 <= i <= self.bindings@.len(),
                first_match(self.bindings@, key, held) == match first_match(
                    self.bindings@.skip(i as int),
                    key,
                    held,
                ) {
                    Some(j) => Some(j + i),
                    None => None,
                },
            decreases self.bindings@.len() - i,
        {
            let b = self.bindings[i];
            proof {
                assert(self.bindings@.skip(i as int)[0] == b);
                assert(self.bindings@.skip(i as int).drop_first() =~= self.bindings@.skip(i as int + 1));
            }
            let ok = (b.modifiers & MOD_CTRL == 0 || held.control) && (b.modifiers & MOD_ALT == 0
                || held.alt) && (b.modifiers & MOD_SHIFT == 0 || held.shift) && (b.modifiers
                & MOD_WIN == 0 || held.win);
            if b.virtual_key == key && ok {
                return Some(i);
            }
            i = i + 1;
        }
        proof {
            assert(self.bindings@.skip(i as int).len() == 0);
        }
        None
    }

    /// Decides what to do with a keyboard message (see [`hook_step`]).
    pub fn on_key(&mut self, injected: bool, message: KeyMessage, key: u32, held: HeldModifiers) -> (r:
        HookVerdict)
        requires
            old(self).wf(),
        ensures
            final(self).wf(),
            final(self).binding_seq() == old(self).binding_seq(),
            (final(self).held_keys(), r) == hook_step(
                old(self).binding_seq(),
                old(self).held_keys(),
                injected,
                message,
                key,
                held,
            ),
    {
        if injected {
            return HookVerdict::PassOn;
        }
        if message == KeyMessage::Down {
            if self.position(key).is_some() {
                return HookVerdict::Swallow;
            }
            match self.matching(key, held) {
                Some(i) => {
                    let id = self.bindings[i].id;
                    let ghost before = self.swallowed@;
                    self.swallowed.push(key);
                    proof {
                        assert(self.swallowed@.to_set() =~= before.to_set().insert(key)) by {
                            assert forall|x: u32| self.swallowed@.to_set().contains(x) <==> before.to_set().insert(key).contains(x) by {
                                if x == key {
                                    assert(self.swallowed@[before.len() as int] == key);
                                }
                                if before.to_set().contains(x) {
                                    let k = choose|k: int| 0 <= k < before.len() && before[k] == x;
                                    assert(self.swallowed@[k] == x);
                                }
                                if self.swallowed@.to_set().contains(x) {
                                    let k = choose|k: int| 0 <= k < self.swallowed@.len() && self.swallowed@[k] == x;
                                    if k < before.len() {
                                        assert(before[k] == x);
                                    }
                                }
                            }
                        }
                        assert(self.swallowed@.no_duplicates()) by {
                            assert forall|a: int, b: int|
                                0 <= a < b < self.swallowed@.len() implies self.swallowed@[a]
                                != self.swallowed@[b] by {
                                if b == before.len() {
                                    assert(before.to_set().contains(before[a]));
                                }
                            }
                        }
                    }
                    return HookVerdict::Fire(id);
                },
                None => {
                    return HookVerdict::PassOn;
                },
            }
        }
        if message == KeyMessage::Up {
            match self.position(key) {
                Some(i) => {
                    let ghost before = self.swallowed@;
                    self.swallowed.remove(i);
                    proof {
                        assert(self.swallowed@.to_set() =~= before.to_set().remove(key)) by {
                            assert forall|x: u32| self.swallowed@.to_set().contains(x) <==> before.to_set().remove(key).contains(x) by {
                                if self.swallowed@.to_set().contains(x) {
                                    let k = choose|k: int| 0 <= k < self.swallowed@.len() && self.swallowed@[k] == x;
                                    if k < i {
                                        assert(before[k] == x);
                                    } else {
                                        assert(before[k + 1] == x);
                                    }
                                }
                                if before.to_set().remove(key).contains(x) {
                                    let k = choose|k: int| 0 <= k < before.len() && before[k] == x;
                                    if k < i {
                                        assert(self.swallowed@[k] == x);
                                    } else if k > i {
                                        assert(self.swallowed@[k - 1] == x);
                                    }
                                }
                            }
                        }
                        assert(self.swallowed@.no_duplicates()) by {
                            assert forall|a: int, b: int|
                                0 <= a < b < self.swallowed@.len() implies self.swallowed@[a]
                                != self.swallowed@[b] by {
                                let a0 = if a < i { a } else { a + 1 };
                                let b0 = if b < i { b } else { b + 1 };
                                assert(before[a0] != before[b0]);
                            }
                        }
                    }
                    return HookVerdict::Swallow;
                },
                None => {
                    return HookVerdict::PassOn;
                },
            }
        }
        HookVerdict::PassOn
    }
}

/// The key-down that fires a binding, its repeats and its key-up are all
/// swallowed: after a binding fires, a repeated key-down of that key is
/// swallowed without firing again, and the key-up is swallowed once.
pub proof fn fired_key_is_swallowed_until_released(
    bindings: Seq<Binding>,
    swallowed: Set<u32>,
    key: u32,
    held: HeldModifiers,
    held_later: HeldModifiers,
)
    requires
        hook_step(bindings, swallowed, false, KeyMessage::Down, key, held).1 is Fire,
    ensures
        ({
            let after = hook_step(bindings, swallowed, false, KeyMessage::Down, key, held).0;
            &&& hook_step(bindings, after, false, KeyMessage::Down, key, held_later).1
                == HookVerdict::Swallow
            &&& hook_step(bindings, after, false, KeyMessage::Up, key, held_later).1
                == HookVerdict::Swallow
            &&& !hook_step(bindings, after, false, KeyMessage::Up, key, held_later).0.contains(key)
        }),
{
}

/// Injected input is never swallowed and never fires a binding.
pub proof fn injected_input_passes(
    bindings: Seq<Binding>,
    swallowed: Set<u32>,
    message: KeyMessage,
    key: u32,
    held: HeldModifiers,
)
    ensures
        hook_step(bindings, swallowed, true, message, key, held) == (swallowed, HookVerdict::PassOn),
{
}


/// The `MOD_*` mask of the modifiers held.
pub open spec fn held_modifier_mask(held: HeldModifiers) -> u32 {
    (if held.alt {
        MOD_ALT
    } else {
        0
    }) | (if held.control {
        MOD_CTRL
    } else {
        0
    }) | (if held.shift {
        MOD_SHIFT
    } else {
        0
    }) | (if held.win {
        MOD_WIN
    } else {
        0
    })
}

/// A binding's modifiers are held when the modifier bits it requires
/// (Alt, Ctrl, Shift, Win) are all in the mask of the held modifiers.
pub open spec fn modifiers_held(required: u32, held: HeldModifiers) -> bool {
    (required & (MOD_ALT | MOD_CTRL | MOD_SHIFT | MOD_WIN)) & !held_modifier_mask(held) == 0
}

proof fn lemma_mask_subset(r: u32, a: bool, c: bool, sh: bool, w: bool)
    by (bit_vector)
    ensures
        ((r & 2 != 0 ==> c) && (r & 1 != 0 ==> a) && (r & 4 != 0 ==> sh) && (r & 8 != 0 ==> w))
            <==> ((r & (1u32 | 2u32 | 4u32 | 8u32)) & !((if a {
            1u32
        } else {
            0u32
        }) | (if c {
            2u32
        } else {
            0u32
        }) | (if sh {
            4u32
        } else {
            0u32
        }) | (if w {
            8u32
        } else {
            0u32
        })) == 0),
{
}

proof fn lemma_first_match(bindings: Seq<Binding>, key: u32, held: HeldModifiers)
    ensures
        match first_match(bindings, key, held) {
            Some(i) => 0 <= i < bindings.len() && bindings[i].virtual_key == key && modifiers_held(
                bindings[i].modifiers,
                held,
            ) && forall|j: int|
                0 <= j < i ==> !(#[trigger] bindings[j].virtual_key == key && modifiers_held(
                    bindings[j].modifiers,
                    held,
                )),
            None => forall|j: int|
                0 <= j < bindings.len() ==> !(#[trigger] bindings[j].virtual_key == key
                    && modifiers_held(bindings[j].modifiers, held)),
        },
    decreases bindings.len(),
{
    if bindings.len() > 0 {
        lemma_mask_subset(bindings[0].modifiers, held.alt, held.control, held.shift, held.win);
        let rest = bindings.drop_first();
        lemma_first_match(rest, key, held);
        let m0 = bindings[0].virtual_key == key && satisfied(bindings[0].modifiers, held);
        assert(m0 == (bindings[0].virtual_key == key && modifiers_held(bindings[0].modifiers, held)));
        if !m0 {
            assert forall|j: int| 0 < j < bindings.len() implies bindings[j] == rest[j - 1] by {}
            match first_match(rest, key, held) {
                Some(i) => {
                    assert forall|j: int| 0 <= j < i + 1 implies !(
                    #[trigger] bindings[j].virtual_key == key && modifiers_held(
                        bindings[j].modifiers,
                        held,
                    )) by {
                        if j > 0 {
                            assert(bindings[j] == rest[j - 1]);
                            assert(!(rest[j - 1].virtual_key == key && modifiers_held(
                                rest[j - 1].modifiers,
                                held,
                            )));
                        }
                    }
                    assert(bindings[i + 1] == rest[i]);
                },
                None => {
                    assert forall|j: int| 0 <= j < bindings.len() implies !(
                    #[trigger] bindings[j].virtual_key == key && modifiers_held(
                        bindings[j].modifiers,
                        held,
                    )) by {
                        if j > 0 {
                            assert(bindings[j] == rest[j - 1]);
                            assert(!(rest[j - 1].virtual_key == key && modifiers_held(
                                rest[j - 1].modifiers,
                                held,
                            )));
                        }
                    }
                },
            }
        }
    }
}

/// A key-down that is neither injected nor already swallowed fires exactly
/// when some binding of that key has all its modifiers held (extra held
/// modifiers do not matter), and then it fires the first such binding; when
/// none has, the key passes on.
pub proof fn binding_fires_when_its_modifiers_are_held(
    bindings: Seq<Binding>,
    swallowed: Set<u32>,
    key: u32,
    held: HeldModifiers,
)
    requires
        !swallowed.contains(key),
    ensures
        ({
            let verdict = hook_step(bindings, swallowed, false, KeyMessage::Down, key, held).1;
            &&& (verdict is Fire) <==> exists|i: int|
                0 <= i < bindings.len() && #[trigger] bindings[i].virtual_key == key && modifiers_held(
                    bindings[i].modifiers,
                    held,
                )
            &&& !(verdict is Fire) ==> verdict == HookVerdict::PassOn
            &&& verdict matches HookVerdict::Fire(id) ==> exists|i: int|
                0 <= i < bindings.len() && #[trigger] bindings[i].virtual_key == key
                    && modifiers_held(bindings[i].modifiers, held) && bindings[i].id == id
                    && forall|j: int|
                    0 <= j < i ==> !(#[trigger] bindings[j].virtual_key == key && modifiers_held(
                        bindings[j].modifiers,
                        held,
                    ))
        }),
{
    lemma_first_match(bindings, key, held);
}

} // verus!
