//! The sixteen-key hex keypad.

use vstd::prelude::*;

verus! {

/// Number of keys on the hex keypad.
pub const KEY_COUNT: usize = 16;

/// The keypad: entry `k` is `true` while key `k` is held down.
pub type Keyboard = [bool; KEY_COUNT];

} // verus!
