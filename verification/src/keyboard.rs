//! Sixteen-key input state, plus the edge-triggered protocol behind the
//! blocking "wait for key" instruction.
//!
//! The protocol exists so that the wait instruction completes only on a
//! full press-then-release cycle observed while it is waiting: a key that
//! was already held when the wait began does not satisfy it.
#![allow(non_snake_case)]
use vstd::prelude::*;

verus! {

/// Progress of the blocking key-wait instruction.
#[derive(Clone, Copy, PartialEq, Eq, Debug)]
pub enum Fx0AStatus {
    /// No key-wait instruction is pending.
    Inactive,
    /// A key-wait instruction is stalled, and no fresh press has been
    /// seen since it began.
    WaitingForPress,
    /// The named key was freshly pressed while waiting; the wait now
    /// stalls until that same key is released.
    WaitingForRelease(u8),
    /// The named key completed a press-then-release cycle; the stalled
    /// instruction may now retire.
    JustReleased(u8),
}

#[derive(Clone, Copy, PartialEq, Eq, Debug)]
pub struct KeyboardState {
    /// Current held/released state of the sixteen keys.
    pub key: [bool; 16],
    /// Progress of the blocking key-wait instruction.
    pub Fx0A: Fx0AStatus,
}

impl KeyboardState {
    /// All keys released, no key-wait pending.
    pub fn new() -> (r: KeyboardState)
        ensures
            forall|k: int| 0 <= k < 16 ==> !r.key@[k],
            r.Fx0A == Fx0AStatus::Inactive,
    {
        KeyboardState { key: [false; 16], Fx0A: Fx0AStatus::Inactive }
    }

    /// Marks `key` held.  If a key-wait is waiting for a press and this
    /// press is a fresh edge (the key was not already held), the wait
    /// advances to waiting for this key's release; a repeated press of an
    /// already-held key does not retrigger it.
    pub fn press_key(&mut self, key: u8)
        requires
            key < 16,
        ensures
            final(self).key@ == old(self).key@.update(key as int, true),
            final(self).Fx0A == (if old(self).Fx0A == Fx0AStatus::WaitingForPress
                && !old(self).key@[key as int] {
                Fx0AStatus::WaitingForRelease(key)
            } else {
                old(self).Fx0A
            }),
    {
        let just_pressed = !self.key[key as usize];
        self.key[key as usize] = true;
        if let Fx0AStatus::WaitingForPress = self.Fx0A {
            if just_pressed {
                self.Fx0A = Fx0AStatus::WaitingForRelease(key);
            }
        }
    }

    /// Marks `key` released.  If a key-wait is waiting for exactly this
    /// key's release, the wait completes and records the key.
    pub fn release_key(&mut self, key: u8)
        requires
            key < 16,
        ensures
            final(self).key@ == old(self).key@.update(key as int, false),
            final(self).Fx0A == (if old(self).Fx0A == Fx0AStatus::WaitingForRelease(key) {
                Fx0AStatus::JustReleased(key)
            } else {
                old(self).Fx0A
            }),
    {
        self.key[key as usize] = false;
        if let Fx0AStatus::WaitingForRelease(k) = self.Fx0A {
            if k == key {
                self.Fx0A = Fx0AStatus::JustReleased(key);
            }
        }
    }
}

} // verus!
