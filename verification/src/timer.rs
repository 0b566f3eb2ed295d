//! The delay and sound timers.

use vstd::prelude::*;

verus! {

/// A one-byte countdown timer. A tick takes it one step toward zero, where
/// it stays until it is set again.
pub struct Timer {
    value: u8,
}

impl View for Timer {
    type V = u8;

    closed spec fn view(&self) -> u8 {
        self.value
    }
}

/// The value a timer holding `value` shows after one tick.
pub open spec fn ticked(value: u8) -> u8 {
    if value > 0 {
        (value - 1) as u8
    } else {
        0
    }
}

impl Timer {
    /// A timer that shows zero.
    pub fn new() -> (timer: Timer)
        ensures
            timer@ == 0,
    {
        Timer { value: 0 }
    }

    /// Counts down one step, unless the timer shows zero already.
    pub fn tick(&mut self)
        ensures
            final(self)@ == ticked(old(self)@),
    {
        if self.value > 0 {
            self.value -= 1;
        }
    }

    /// Makes the timer show `value`.
    pub fn set(&mut self, value: u8)
        ensures
            final(self)@ == value,
    {
        self.value = value;
    }

    /// What the timer shows.
    pub fn get(&self) -> (value: u8)
        ensures
            value == self@,
    {
        self.value
    }
}

} // verus!
