//! The legacy programmable interval timer: the fallback 1 ms tick source
//! with the same tick interface as the high-precision timer.

use vstd::prelude::*;

verus! {

/// Nanoseconds per tick of the rate generator: 1 ms.
pub const TICK_INTERVAL: u64 = 1_000_000;

/// The legacy timer: its programmed registers and the tick callback
/// slot.
pub struct PIT {
    /// Whether a tick callback has been registered.
    pub tick_registered: bool,
    /// Last value written to the mode/command register.
    pub control: u8,
    /// Programmed reload value of channel 0.
    pub counter: u16,
}

impl PIT {
    /// A timer with nothing programmed and no callback.
    pub fn new() -> (r: PIT)
        ensures
            !r.tick_registered,
            r.control == 0,
            r.counter == 0,
    {
        PIT { tick_registered: false, control: 0, counter: 0 }
    }

    /// Programs channel 0 as a rate generator with a period close to
    /// 1 ms: control selects channel 0, low-byte/high-byte access, rate
    /// generator, binary counting; the reload value divides the input
    /// clock down to about 1 kHz.
    pub fn start_rate(&mut self)
        ensures
            final(self).control == 0b00110100u8,
            final(self).counter == 1193,
            final(self).tick_registered == old(self).tick_registered,
    {
        let count: u16 = 1193;
        let control: u8 = 0b00110100;
        self.control = control;
        self.counter = count;
    }
}

/// Installs the tick callback invoked on each timer interrupt.
pub fn register_tick(pit: &mut PIT)
    ensures
        *final(pit) == (PIT { tick_registered: true, ..*old(pit) }),
{
    pit.tick_registered = true;
}

/// The timer interrupt's work: reports the fixed tick interval to be
/// handed to the tick callback, if one is registered.
pub fn pit_tick(pit: &PIT) -> (r: Option<u64>)
    ensures
        pit.tick_registered ==> r == Some(TICK_INTERVAL),
        !pit.tick_registered ==> r is None,
{
    if pit.tick_registered {
        Some(TICK_INTERVAL)
    } else {
        None
    }
}

} // verus!
