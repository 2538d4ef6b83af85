//! The state of the keyboard.

use vstd::prelude::*;

verus! {

/// The key that locks the camera. It is a switch: each press turns the
/// lock on or off, and letting go of it changes nothing.
pub const KEY_LOCK: usize = 76;

/// The keys after the key `code` went down.
pub open spec fn after_key_down(keys: Seq<bool>, code: int) -> Seq<bool> {
    if 0 <= code < 256 {
        if code == KEY_LOCK {
            keys.update(code, !keys[code])
        } else {
            keys.update(code, true)
        }
    } else {
        keys
    }
}

/// The keys after the key `code` came up.
pub open spec fn after_key_up(keys: Seq<bool>, code: int) -> Seq<bool> {
    if 0 <= code < 256 && code != KEY_LOCK {
        keys.update(code, false)
    } else {
        keys
    }
}

/// Which of the 256 keys are held down.
#[derive(Clone, Copy, Debug)]
pub struct KeyState {
    pub keys: [bool; 256],
}

impl KeyState {
    /// No key is down.
    pub fn new() -> (k: KeyState)
        ensures
            forall|i: int| 0 <= i < 256 ==> !k.keys@[i],
    {
        KeyState { keys: [false; 256] }
    }

    /// Takes note that the key `code` went down. Codes from 256 on are passed over.
    pub fn key_down(&mut self, code: usize)
        ensures
            final(self).keys@ == after_key_down(old(self).keys@, code as int),
    {
        if code < 256 {
            if code == KEY_LOCK {
                let held = self.keys[code];
                self.keys[code] = !held;
            } else {
                self.keys[code] = true;
            }
        }
    }

    /// Takes note that the key `code` came up. Codes from 256 on are passed over.
    pub fn key_up(&mut self, code: usize)
        ensures
            final(self).keys@ == after_key_up(old(self).keys@, code as int),
    {
        if code < 256 && code != KEY_LOCK {
            self.keys[code] = false;
        }
    }

    /// Whether the camera is locked.
    pub fn locked(&self) -> (r: bool)
        ensures
            r == self.keys@[KEY_LOCK as int],
    {
        self.keys[KEY_LOCK]
    }
}

} // verus!
