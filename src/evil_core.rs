use vstd::prelude::*;

use crate::attack_errors::AttackError;
use crate::attack_machine::{
    armed_spec, idle_machine, sample_spec, AttackMachine, MachineView, Phase,
};
use crate::bsp::EvilBsp;
use crate::can::{period_ns, CanBitrates};
use crate::clock::TicksClock;
use crate::commands::{AttackCmd, CmdView};
use crate::tranceiver::Tranceiver;

verus! {

/// Clock ticks per scheduling quantum: the bit period in whole microseconds,
/// times the ticks per microsecond, over the quanta per bit.
pub open spec fn ticks_per_quantum_spec(period_ns: u32, ticks_per_sec: u32) -> int {
    ((period_ns / 1_000) * (ticks_per_sec / 1_000_000)) as int / 8
}

/// The start-of-frame detection latency `offset_ns`, in clock ticks.
pub open spec fn sof_offset_ticks_spec(offset_ns: u32, ticks_per_sec: u32) -> int {
    ((ticks_per_sec / 1_000_000) as int * offset_ns as int) / 1_000
}

/// The ticks to wait for a step that asked for `quanta` quanta, if any.
pub open spec fn wait_ticks(quanta: Option<u32>, ticks_per_quantum: u32) -> Option<u32> {
    match quanta {
        Some(q) => Some((q * ticks_per_quantum) as u32),
        None => None,
    }
}

/// The scheduler: owns the clock and the attack machine, and turns the
/// machine's quanta into absolute clock deadlines.
pub struct EvilCore<Clock, Tr> where Clock: TicksClock, Tr: Tranceiver {
    pub clock: Clock,
    ticks_per_quantum: u32,
    sof_offset_ticks: u32,
    machine: AttackMachine<Tr>,
}

impl<Clock, Tr> EvilCore<Clock, Tr> where Clock: TicksClock, Tr: Tranceiver {
    /// Clock ticks per scheduling quantum.
    pub closed spec fn quantum_ticks(&self) -> u32 {
        self.ticks_per_quantum
    }

    /// Clock ticks by which start-of-frame detection lags the frame.
    pub closed spec fn sof_ticks(&self) -> u32 {
        self.sof_offset_ticks
    }

    /// The clock.
    pub closed spec fn ticks_source(&self) -> Clock {
        self.clock
    }

    /// The attack machine.
    pub closed spec fn attack_machine(&self) -> AttackMachine<Tr> {
        self.machine
    }

    /// The deadline `wait` ticks after `deadline`, by the clock's wrapping
    /// addition; a wait of no ticks keeps the deadline, and no wait gives none.
    pub open spec fn deadline_after(wait: Option<u32>, deadline: u32) -> Option<u32> {
        match wait {
            Some(w) => if w == 0 {
                Some(deadline)
            } else {
                Some(Clock::add_spec(deadline, w))
            },
            None => None,
        }
    }

    /// The quantum fits eight times in a tick count, and the machine is well formed.
    pub open spec fn wf(&self) -> bool {
        &&& self.quantum_ticks() <= u32::MAX / 8
        &&& self.attack_machine().wf()
    }

    /// A scheduler for the bus at `baudrate`, whose start-of-frame detection
    /// lags by `sof_offset_ns` nanoseconds.
    pub fn new(bsp: EvilBsp<Clock, Tr>, baudrate: CanBitrates, sof_offset_ns: u32) -> (c: Self)
        requires
            sof_offset_ticks_spec(sof_offset_ns, Clock::TICKS_PER_SEC) <= u32::MAX,
        ensures
            c.wf(),
            c.ticks_source() == bsp.clock,
            c.attack_machine().bus() == bsp.tr,
            c.quantum_ticks() == ticks_per_quantum_spec(period_ns(baudrate), Clock::TICKS_PER_SEC),
            c.sof_ticks() == sof_offset_ticks_spec(sof_offset_ns, Clock::TICKS_PER_SEC),
            c.attack_machine()@ == idle_machine(),
    {
        let (clock, tr) = bsp.split();
        let machine = AttackMachine::new(tr);
        let ticks_per_quantum = Self::quantum_for(baudrate);
        let per_us: u64 = (Clock::TICKS_PER_SEC / 1_000_000) as u64;
        let offset: u64 = per_us * (sof_offset_ns as u64) / 1_000;
        EvilCore { clock, ticks_per_quantum, sof_offset_ticks: offset as u32, machine }
    }

    /// Ticks per quantum at `baudrate`.
    fn quantum_for(baudrate: CanBitrates) -> (r: u32)
        ensures
            r == ticks_per_quantum_spec(period_ns(baudrate), Clock::TICKS_PER_SEC),
            r <= u32::MAX / 8,
    {
        let period_us = baudrate.to_period_ns() / 1_000;
        let per_us = Clock::TICKS_PER_SEC / 1_000_000;
        assert(period_us * per_us <= 200 * 4294) by (nonlinear_arith)
            requires
                period_us <= 200,
                per_us <= 4294,
        ;
        (period_us * per_us) / AttackMachine::<Tr>::QUANTA_PER_BIT
    }

    /// Follows the bus at `baudrate` from now on; the armed attack is kept.
    pub fn set_baudrate(&mut self, baudrate: CanBitrates)
        requires
            old(self).wf(),
        ensures
            final(self).wf(),
            final(self).quantum_ticks() == ticks_per_quantum_spec(period_ns(baudrate), Clock::TICKS_PER_SEC),
            final(self).sof_ticks() == old(self).sof_ticks(),
            final(self).attack_machine() == old(self).attack_machine(),
            final(self).ticks_source() == old(self).ticks_source(),
    {
        self.ticks_per_quantum = Self::quantum_for(baudrate);
    }

    /// Arms the machine with `attack`; see [`AttackMachine::arm`].
    pub fn arm(&mut self, attack: &[AttackCmd]) -> (r: Result<(), AttackError>)
        requires
            old(self).wf(),
        ensures
            final(self).wf(),
            final(self).quantum_ticks() == old(self).quantum_ticks(),
            final(self).sof_ticks() == old(self).sof_ticks(),
            final(self).ticks_source() == old(self).ticks_source(),
            final(self).attack_machine().bus() == old(self).attack_machine().bus(),
            attack@.len() > crate::attack_machine::MAX_ATTACK_SIZE ==> r == Err::<(), AttackError>(
                AttackError::AttackToLong,
            ) && final(self).attack_machine()@ == old(self).attack_machine()@,
            attack@.len() <= crate::attack_machine::MAX_ATTACK_SIZE ==> r == Ok::<(), AttackError>(())
                && final(self).attack_machine()@ == armed_spec(attack@.map_values(|c: AttackCmd| c@)),
    {
        self.machine.arm(attack)
    }

    /// The transceiver, for waiting on the start of a frame.
    pub fn tranceiver(&self) -> (r: &Tr)
        ensures
            *r == self.attack_machine().bus(),
    {
        self.machine.tranceiver_ref()
    }

    /// The tick count for `quanta` quanta.
    pub fn quanta_to_ticks(&self, quanta: u32) -> (r: u32)
        requires
            self.wf(),
            quanta <= 8,
        ensures
            r == quanta * self.quantum_ticks(),
    {
        assert(quanta * self.ticks_per_quantum <= 8 * (u32::MAX / 8)) by (nonlinear_arith)
            requires
                quanta <= 8,
                self.ticks_per_quantum <= u32::MAX / 8,
        ;
        quanta * self.ticks_per_quantum
    }

    /// The first deadline of an attack whose start of frame was seen at tick
    /// `now`: `now` moved back by the detection latency, wrapping at 32 bits.
    pub fn start_deadline(&self, now: u32) -> (r: u32)
        ensures
            r as int == (now as int - self.sof_ticks() as int) % 0x1_0000_0000,
    {
        now.wrapping_sub(self.sof_offset_ticks)
    }

    /// One step of the machine, and the clock ticks to wait before the next:
    /// the quanta that the machine asks for, times the ticks per quantum.
    /// `None` when the attack has ended.
    pub fn next_wait(&mut self) -> (r: Option<u32>)
        requires
            old(self).wf(),
        ensures
            final(self).wf(),
            final(self).quantum_ticks() == old(self).quantum_ticks(),
            final(self).sof_ticks() == old(self).sof_ticks(),
            final(self).ticks_source() == old(self).ticks_source(),
            ({
                let m = old(self).attack_machine()@;
                let after = final(self).attack_machine()@;
                let tpq = old(self).quantum_ticks();
                &&& m.phase == Phase::OnStart ==> r == Some(tpq) && after == (MachineView {
                    phase: Phase::Evaluate,
                    ..m
                }) && final(self).attack_machine().bus().lines() == m.next
                &&& (m.phase == Phase::Evaluate || m.phase == Phase::Stuffed) ==> (exists|rx: bool|
                    #![trigger sample_spec(m, rx)]
                    after == sample_spec(m, rx).0 && r == wait_ticks(sample_spec(m, rx).1, tpq))
                &&& (m.phase == Phase::Idle || m.phase == Phase::Terminated) ==> r is None
                    && after == m
            }),
    {
        match self.machine.handle() {
            Some(quanta) => Some(self.quanta_to_ticks(quanta)),
            None => None,
        }
    }

    /// One step of the attack loop. The machine advances by one step; when it
    /// asks to wait, the deadline of its next step is `deadline` plus that
    /// wait, added by the clock's own wrapping rule (a wait of no ticks keeps
    /// the deadline). `None` when the attack has ended.
    pub fn next_deadline(&mut self, deadline: u32) -> (r: Option<u32>)
        requires
            old(self).wf(),
        ensures
            final(self).wf(),
            final(self).quantum_ticks() == old(self).quantum_ticks(),
            final(self).sof_ticks() == old(self).sof_ticks(),
            final(self).ticks_source() == old(self).ticks_source(),
            ({
                let m = old(self).attack_machine()@;
                let after = final(self).attack_machine()@;
                let tpq = old(self).quantum_ticks();
                &&& m.phase == Phase::OnStart ==> r == Self::deadline_after(Some(tpq), deadline)
                    && after == (MachineView { phase: Phase::Evaluate, ..m })
                    && final(self).attack_machine().bus().lines() == m.next
                &&& (m.phase == Phase::Evaluate || m.phase == Phase::Stuffed) ==> (exists|rx: bool|
                    #![trigger sample_spec(m, rx)]
                    after == sample_spec(m, rx).0
                        && r == Self::deadline_after(wait_ticks(sample_spec(m, rx).1, tpq), deadline))
                &&& (m.phase == Phase::Idle || m.phase == Phase::Terminated) ==> r is None
                    && after == m
            }),
    {
        match self.next_wait() {
            Some(wait) => {
                if wait == 0 {
                    Some(deadline)
                } else {
                    Some(Clock::add_ticks(deadline, wait))
                }
            },
            None => None,
        }
    }
}

} // verus!
