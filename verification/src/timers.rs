//! The two 8-bit countdown timers (delay and sound).
//!
//! A scheduler outside the core calls [`Timers::tick`] at a fixed 60 Hz rate;
//! the interpreter reads and writes the counters through the accessors. Each
//! counter decrements independently and saturates at zero.

use vstd::prelude::*;

verus! {

/// The delay and sound countdown registers.
pub struct Timers {
    pub delay: u8,
    pub sound: u8,
}

impl Timers {
    /// Both counters start at zero.
    pub fn new() -> (t: Timers)
        ensures
            t.delay == 0,
            t.sound == 0,
    {
        Timers { delay: 0, sound: 0 }
    }

    /// One 60 Hz beat: each nonzero counter goes down by one; a zero
    /// counter stays at zero.
    pub fn tick(&mut self)
        ensures
            final(self).delay == if old(self).delay > 0 { old(self).delay - 1 } else { 0 },
            final(self).sound == if old(self).sound > 0 { old(self).sound - 1 } else { 0 },
    {
        if self.delay > 0 {
            self.delay = self.delay - 1;
        }
        if self.sound > 0 {
            self.sound = self.sound - 1;
        }
    }

    /// Current value of the delay counter (the FX07 read).
    pub fn get_delay(&self) -> (v: u8)
        ensures
            v == self.delay,
    {
        self.delay
    }

    /// Set the delay counter (the FX15 write).
    pub fn set_delay(&mut self, v: u8)
        ensures
            final(self).delay == v,
            final(self).sound == old(self).sound,
    {
        self.delay = v;
    }

    /// Set the sound counter (the FX18 write).
    pub fn set_sound(&mut self, v: u8)
        ensures
            final(self).sound == v,
            final(self).delay == old(self).delay,
    {
        self.sound = v;
    }
}

} // verus!
