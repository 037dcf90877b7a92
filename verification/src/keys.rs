//! Keyboard input as the palette reads it: a bare key and its modifiers.

use vstd::prelude::*;

verus! {

/// A key without modifiers.
#[derive(Clone, Copy, Debug, PartialEq, Eq, Structural)]
pub enum BareKey {
    PageDown,
    PageUp,
    Left,
    Down,
    Up,
    Right,
    Home,
    End,
    Backspace,
    Delete,
    Insert,
    F(u8),
    Char(char),
    Tab,
    Esc,
    Enter,
    CapsLock,
    ScrollLock,
    NumLock,
    PrintScreen,
    Pause,
    Menu,
}

/// A modifier held with a key.
#[derive(Clone, Copy, Debug, PartialEq, Eq, Structural)]
pub enum KeyModifier {
    Ctrl,
    Alt,
    Shift,
    Super,
}

/// A key press: the bare key and the modifiers held with it.
#[derive(Clone, Debug)]
pub struct KeyWithModifier {
    pub bare_key: BareKey,
    pub key_modifiers: Vec<KeyModifier>,
}

impl KeyWithModifier {
    /// Whether `m` is held with this key.
    pub open spec fn has_modifier(&self, m: KeyModifier) -> bool {
        self.key_modifiers@.contains(m)
    }

    /// Whether `m` is held with this key.
    pub fn modifier_held(&self, m: KeyModifier) -> (b: bool)
        ensures
            b == self.has_modifier(m),
    {
        let mut i: usize = 0;
        while i < self.key_modifiers.len()
            invariant
                i <= self.key_modifiers@.len(),
                forall|j: int| 0 <= j < i ==> self.key_modifiers@[j] != m,
            decreases self.key_modifiers@.len() - i,
        {
            if self.key_modifiers[i] == m {
                assert(self.key_modifiers@[i as int] == m);
                return true;
            }
            i = i + 1;
        }
        false
    }
}

} // verus!
