use vstd::prelude::*;

verus! {

/// The levels to drive on the two output lines at the start of the next bit.
#[derive(Clone, Copy, PartialEq, Eq, Structural)]
pub struct TranceiverState {
    /// Whether the force line overrides the bus.
    pub force: bool,
    /// The transmit line; `true` is recessive.
    pub tx: bool,
}

impl TranceiverState {
    /// The idle levels: not forcing, transmit line recessive.
    pub fn new() -> (s: Self)
        ensures
            s == idle_lines(),
    {
        TranceiverState { force: false, tx: true }
    }

    /// Sets the force level, keeping the transmit level.
    pub fn set_force(&mut self, state: bool)
        ensures
            *final(self) == (TranceiverState { force: state, tx: old(self).tx }),
    {
        self.force = state;
    }

    /// Sets the transmit level, keeping the force level.
    pub fn set_tx(&mut self, state: bool)
        ensures
            *final(self) == (TranceiverState { force: old(self).force, tx: state }),
    {
        self.tx = state;
    }
}

/// Not forcing, transmit line recessive.
pub open spec fn idle_lines() -> TranceiverState {
    TranceiverState { force: false, tx: true }
}

/// Raw access to the bus: two output lines and the receive line.
///
/// Each board implements it on its own pins. `lines` stands for the levels
/// that the board drives; each setter changes its own line and leaves the
/// other as it was. The receive line is read as the bus shows it, so nothing
/// is promised of `get_rx`.
pub trait Tranceiver {
    /// The levels driven on the two output lines.
    spec fn lines(&self) -> TranceiverState;

    /// Drives the transmit line; `true` is recessive.
    fn set_tx(&mut self, state: bool)
        ensures
            final(self).lines() == (TranceiverState { force: old(self).lines().force, tx: state }),
    ;

    /// Reads the receive line; `true` is recessive.
    fn get_rx(&self) -> bool;

    /// Turns the force line on or off.
    fn set_force(&mut self, state: bool)
        ensures
            final(self).lines() == (TranceiverState { force: state, tx: old(self).lines().tx }),
    ;

    /// Drives both output lines as `state` says, the force line first.
    fn apply(&mut self, state: &TranceiverState)
        ensures
            final(self).lines() == *state,
    {
        self.set_force(state.force);
        self.set_tx(state.tx);
    }
}

} // verus!
