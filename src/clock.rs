use vstd::prelude::*;

verus! {

/// A free-running tick counter.
///
/// Each board implements it on one of its timers. `add_spec` stands for the
/// board's wrapping addition, which `add_ticks` computes.
pub trait TicksClock {
    /// Ticks per second.
    const TICKS_PER_SEC: u32;

    /// The counter's current value.
    fn ticks(&self) -> u32;

    /// `t1 + t2`, wrapping at the counter's width.
    spec fn add_spec(t1: u32, t2: u32) -> u32;

    /// `t1 + t2`, wrapping at the counter's width.
    fn add_ticks(t1: u32, t2: u32) -> (r: u32)
        ensures
            r == Self::add_spec(t1, t2),
    ;
}

} // verus!
