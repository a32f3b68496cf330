use vstd::prelude::*;

use crate::clock::TicksClock;
use crate::tranceiver::Tranceiver;

verus! {

/// What a board hands to the engine: its tick counter and its bus lines.
pub struct EvilBsp<Clock, Tr> where Clock: TicksClock, Tr: Tranceiver {
    pub clock: Clock,
    pub tr: Tr,
}

impl<Clock, Tr> EvilBsp<Clock, Tr> where Clock: TicksClock, Tr: Tranceiver {
    pub fn new(clock: Clock, tr: Tr) -> (b: Self)
        ensures
            b.clock == clock,
            b.tr == tr,
    {
        EvilBsp { clock, tr }
    }

    /// Hands back the clock and the transceiver.
    pub fn split(self) -> (r: (Clock, Tr))
        ensures
            r.0 == self.clock,
            r.1 == self.tr,
    {
        (self.clock, self.tr)
    }
}

} // verus!
