use vstd::prelude::*;

use crate::attack_errors::AttackError;
use crate::commands::{push_bit, AttackCmd, CmdView, FastBitStack};
use crate::tranceiver::{idle_lines, Tranceiver, TranceiverState};

verus! {

/// The number of instruction slots.
pub const MAX_ATTACK_SIZE: usize = 32;

/// Where the machine stands within a bit.
#[derive(Clone, Copy, PartialEq, Eq, Structural)]
pub enum Phase {
    /// Nothing armed yet.
    Idle,
    /// At the start of a bit: the precomputed line levels are to be driven.
    OnStart,
    /// At the sampling point of a bit: the receive line is to be read and judged.
    Evaluate,
    /// At the sampling point of a bit that the bus inserted after a run of
    /// five: the receive line is read only to restart the run.
    Stuffed,
    /// The attack is over, until the next arm.
    Terminated,
}

/// The mathematical state of an [`AttackMachine`].
pub struct MachineView {
    pub phase: Phase,
    /// The current instruction.
    pub index: int,
    pub program: Seq<CmdView>,
    /// The accumulator that `Read` fills.
    pub buffer: u8,
    /// How many equal bits in a row were last sampled.
    pub run: int,
    /// The level of that run.
    pub polarity: bool,
    /// The line levels to drive at the start of the next bit.
    pub next: TranceiverState,
}

/// `m` with `c` in place of its current instruction.
pub open spec fn with_cmd(m: MachineView, c: CmdView) -> MachineView {
    MachineView { program: m.program.update(m.index, c), ..m }
}

/// The state after preparing the line levels of the current instruction's next bit.
///
/// A `WaitBuffered` becomes a wait of eight bits per unit in the accumulator,
/// minus the bit that this preparation itself accounts for; with an empty
/// accumulator it is skipped and the next instruction is prepared.
pub open spec fn pre_calculate_spec(m: MachineView) -> MachineView
    decreases m.program.len() - m.index,
{
    if 0 <= m.index < m.program.len() {
        match m.program[m.index] {
            CmdView::Wait { bits } => if bits > 0 {
                with_cmd(m, CmdView::Wait { bits: (bits - 1) as nat })
            } else {
                m
            },
            CmdView::Force { stream } => if stream.len() > 0 {
                MachineView {
                    next: TranceiverState { force: stream[0], tx: m.next.tx },
                    ..with_cmd(m, CmdView::Force { stream: stream.drop_first() })
                }
            } else {
                m
            },
            CmdView::Send { stream } => if stream.len() > 0 {
                MachineView {
                    next: TranceiverState { force: m.next.force, tx: !stream[0] },
                    ..with_cmd(m, CmdView::Send { stream: stream.drop_first() })
                }
            } else {
                m
            },
            CmdView::WaitBuffered => if m.buffer == 0 {
                pre_calculate_spec(MachineView { index: m.index + 1, ..m })
            } else {
                MachineView {
                    buffer: 0,
                    ..with_cmd(m, CmdView::Wait { bits: (m.buffer * 8 - 1) as nat })
                }
            },
            _ => m,
        }
    } else {
        m
    }
}

/// The judgement of the current instruction on the sampled level `rx`:
/// `Err` ends the attack, `Ok(true)` completes the instruction, `Ok(false)`
/// keeps it for another bit.
pub open spec fn middle_spec(m: MachineView, rx: bool) -> (MachineView, Result<bool, ()>) {
    if 0 <= m.index < m.program.len() {
        match m.program[m.index] {
            CmdView::Wait { bits } => (m, Ok(bits == 0)),
            CmdView::Force { stream } => if stream.len() == 0 {
                (MachineView { next: TranceiverState { force: false, tx: m.next.tx }, ..m }, Ok(true))
            } else {
                (m, Ok(false))
            },
            CmdView::Send { stream } => if stream.len() == 0 {
                (MachineView { next: TranceiverState { force: m.next.force, tx: true }, ..m }, Ok(true))
            } else {
                (m, Ok(false))
            },
            CmdView::Match { stream } => if stream.len() == 0 {
                (m, Ok(true))
            } else if rx != stream[0] {
                (m, Err(()))
            } else {
                (with_cmd(m, CmdView::Match { stream: stream.drop_first() }), Ok(stream.len() == 1))
            },
            CmdView::Read { len } => (
                MachineView {
                    buffer: push_bit(m.buffer, rx),
                    ..with_cmd(m, CmdView::Read { len: if len > 0 { (len - 1) as nat } else { 0 } })
                },
                Ok(len <= 1),
            ),
            CmdView::WaitBuffered => (m, Ok(false)),
            CmdView::End => (m, Err(())),
        }
    } else {
        (m, Err(()))
    }
}

/// The run of equal levels after sampling `rx`.
pub open spec fn track_stuffing(m: MachineView, rx: bool) -> MachineView {
    if rx == m.polarity {
        MachineView { run: m.run + 1, ..m }
    } else {
        MachineView { run: 1, polarity: rx, ..m }
    }
}

/// The step at a sampling point where the receive line reads `rx`: the new
/// state, and the quanta to wait before the next step, or `None` when the
/// attack ends.
///
/// After a fifth equal level the bus inserts a stuffed bit: the machine then
/// waits one whole bit (8 quanta) to that bit's sampling point. There the
/// inserted bit only restarts the run, at its own level; no instruction sees
/// it. Then the next bit is prepared as usual.
pub open spec fn sample_spec(m: MachineView, rx: bool) -> (MachineView, Option<u32>) {
    if m.phase == Phase::Stuffed {
        (pre_calculate_spec(MachineView { phase: Phase::OnStart, run: 1, polarity: rx, ..m }), Some(7u32))
    } else {
        judge_spec(m, rx)
    }
}

/// The step at the sampling point of a frame bit: the run is tracked and the
/// current instruction judged.
pub open spec fn judge_spec(m: MachineView, rx: bool) -> (MachineView, Option<u32>) {
    let judged = middle_spec(track_stuffing(m, rx), rx);
    let m2 = judged.0;
    match judged.1 {
        Err(_) => (MachineView { phase: Phase::Terminated, ..m2 }, None),
        Ok(done) => {
            let m3 = if done { MachineView { index: m2.index + 1, ..m2 } } else { m2 };
            if m3.index >= m3.program.len() {
                (MachineView { phase: Phase::Terminated, ..m3 }, None)
            } else if m3.run >= 5 {
                (MachineView { phase: Phase::Stuffed, run: 0, ..m3 }, Some(8u32))
            } else {
                (pre_calculate_spec(MachineView { phase: Phase::OnStart, ..m3 }), Some(7u32))
            }
        },
    }
}

/// The state right after arming `program`, padded with `End` to the slot count.
/// The prepared line levels start idle, whatever an earlier attack left.
pub open spec fn armed_spec(program: Seq<CmdView>) -> MachineView {
    pre_calculate_spec(
        MachineView {
            phase: Phase::OnStart,
            index: 0,
            program: Seq::new(
                MAX_ATTACK_SIZE as nat,
                |i: int| if i < program.len() { program[i] } else { CmdView::End },
            ),
            buffer: 0,
            run: 0,
            polarity: true,
            next: idle_lines(),
        },
    )
}

/// A machine before its first arm: every slot `End`, lines idle.
pub open spec fn idle_machine() -> MachineView {
    MachineView {
        phase: Phase::Idle,
        index: 0,
        program: Seq::new(MAX_ATTACK_SIZE as nat, |i: int| CmdView::End),
        buffer: 0,
        run: 0,
        polarity: true,
        next: idle_lines(),
    }
}

/// The per-quantum state machine that runs one armed attack.
pub struct AttackMachine<Tr> where Tr: Tranceiver {
    index: usize,
    attack: [AttackCmd; MAX_ATTACK_SIZE],
    pub tranceiver: Tr,
    buffer: FastBitStack,
    bit_stuffing_cnt: u8,
    bit_stuffing_polarity: bool,
    phase: Phase,
    next_state: TranceiverState,
}

impl<Tr> View for AttackMachine<Tr> where Tr: Tranceiver {
    type V = MachineView;

    closed spec fn view(&self) -> MachineView {
        MachineView {
            phase: self.phase,
            index: self.index as int,
            program: self.attack@.map_values(|c: AttackCmd| c@),
            buffer: self.buffer@,
            run: self.bit_stuffing_cnt as int,
            polarity: self.bit_stuffing_polarity,
            next: self.next_state,
        }
    }
}

impl<Tr> AttackMachine<Tr> where Tr: Tranceiver {
    /// Quanta in one bit period.
    pub const QUANTA_PER_BIT: u32 = 8;

    /// The instruction pointer stays within the program and the run count within five.
    pub open spec fn in_bounds(&self) -> bool {
        &&& self@.program.len() == MAX_ATTACK_SIZE
        &&& 0 <= self@.index <= MAX_ATTACK_SIZE
        &&& 0 <= self@.run <= 5
    }

    /// Well-formedness: besides the bounds, a run of five is only ever seen
    /// by an attack that has ended, since a running one restarts the count.
    pub open spec fn wf(&self) -> bool {
        &&& self.in_bounds()
        &&& (self@.run <= 4 || self@.phase == Phase::Terminated)
    }

    /// The transceiver that the machine drives.
    pub closed spec fn bus(&self) -> Tr {
        self.tranceiver
    }

    /// The transceiver that the machine drives.
    pub fn tranceiver_ref(&self) -> (r: &Tr)
        ensures
            *r == self.bus(),
    {
        &self.tranceiver
    }

    /// An idle machine driving `tranceiver`, with an empty program.
    pub fn new(tranceiver: Tr) -> (m: Self)
        ensures
            m.wf(),
            m.bus() == tranceiver,
            m@ == idle_machine(),
    {
        let m = Self {
            index: 0,
            attack: [AttackCmd::End; MAX_ATTACK_SIZE],
            tranceiver,
            buffer: FastBitStack::new(),
            bit_stuffing_cnt: 0,
            bit_stuffing_polarity: true,
            phase: Phase::Idle,
            next_state: TranceiverState::new(),
        };
        assert(m@.program =~= idle_machine().program);
        m
    }

    /// Prepares the line levels of the current instruction's next bit.
    fn pre_calculate(&mut self)
        requires
            old(self).wf(),
        ensures
            final(self).wf(),
            final(self)@ == pre_calculate_spec(old(self)@),
            final(self).bus() == old(self).bus(),
        decreases MAX_ATTACK_SIZE - self.index,
    {
        if self.index >= MAX_ATTACK_SIZE {
            return;
        }
        let i = self.index;
        match self.attack[i] {
            AttackCmd::Wait { bits } => {
                if bits > 0 {
                    self.attack[i] = AttackCmd::Wait { bits: bits - 1 };
                    assert(self@.program =~= with_cmd(old(self)@, CmdView::Wait { bits: (bits - 1) as nat }).program);
                }
            },
            AttackCmd::Force { stream } => {
                let mut s = stream;
                if s.len() > 0 {
                    let b = s.pop();
                    self.next_state.set_force(b);
                    self.attack[i] = AttackCmd::Force { stream: s };
                    assert(self@.program =~= with_cmd(old(self)@, CmdView::Force { stream: stream@.drop_first() }).program);
                }
            },
            AttackCmd::Send { stream } => {
                let mut s = stream;
                if s.len() > 0 {
                    let b = s.pop();
                    self.next_state.set_tx(!b);
                    self.attack[i] = AttackCmd::Send { stream: s };
                    assert(self@.program =~= with_cmd(old(self)@, CmdView::Send { stream: stream@.drop_first() }).program);
                }
            },
            AttackCmd::WaitBuffered => {
                let value: usize = self.buffer.value() as usize * 8;
                self.buffer.clean();
                if value == 0 {
                    self.index = i + 1;
                    self.pre_calculate();
                } else {
                    self.attack[i] = AttackCmd::Wait { bits: value - 1 };
                    assert(self@.program =~= with_cmd(old(self)@, CmdView::Wait { bits: (value - 1) as nat }).program);
                }
            },
            _ => {},
        }
    }

    /// Loads `attack` into the slots, fills the rest with `End`, resets the
    /// instruction pointer, the run count and the accumulator, and prepares the
    /// first bit. A program longer than the slot count is refused, and the
    /// machine is then left as it was.
    pub fn arm(&mut self, attack: &[AttackCmd]) -> (r: Result<(), AttackError>)
        requires
            old(self).wf(),
        ensures
            final(self).wf(),
            final(self).bus() == old(self).bus(),
            attack@.len() > MAX_ATTACK_SIZE ==> r == Err::<(), AttackError>(AttackError::AttackToLong)
                && final(self)@ == old(self)@,
            attack@.len() <= MAX_ATTACK_SIZE ==> r == Ok::<(), AttackError>(())
                && final(self)@ == armed_spec(attack@.map_values(|c: AttackCmd| c@)),
    {
        if attack.len() > MAX_ATTACK_SIZE {
            return Err(AttackError::AttackToLong);
        }
        self.index = 0;
        self.phase = Phase::OnStart;
        self.bit_stuffing_polarity = true;
        self.bit_stuffing_cnt = 0;
        self.buffer.clean();
        self.next_state = TranceiverState::new();

        let ghost program = attack@.map_values(|c: AttackCmd| c@);
        let mut index: usize = 0;
        while index < MAX_ATTACK_SIZE
            invariant
                attack@.len() <= MAX_ATTACK_SIZE,
                program == attack@.map_values(|c: AttackCmd| c@),
                index <= MAX_ATTACK_SIZE,
                self.index == 0,
                self.phase == Phase::OnStart,
                self.bit_stuffing_polarity,
                self.bit_stuffing_cnt == 0,
                self.buffer@ == 0,
                self.next_state == idle_lines(),
                self.bus() == old(self).bus(),
                forall|j: int|
                    0 <= j < index ==> #[trigger] self.attack@[j]@ == (if j < program.len() {
                        program[j]
                    } else {
                        CmdView::End
                    }),
            decreases MAX_ATTACK_SIZE - index,
        {
            if index < attack.len() {
                self.attack[index] = attack[index];
            } else {
                self.attack[index] = AttackCmd::End;
            }
            index += 1;
        }
        assert(self@ == MachineView {
            phase: Phase::OnStart,
            index: 0,
            program: Seq::new(
                MAX_ATTACK_SIZE as nat,
                |i: int| if i < program.len() { program[i] } else { CmdView::End },
            ),
            buffer: 0,
            run: 0,
            polarity: true,
            next: idle_lines(),
        }) by {
            assert(self@.program =~= Seq::new(
                MAX_ATTACK_SIZE as nat,
                |i: int| if i < program.len() { program[i] } else { CmdView::End },
            ));
        }
        self.pre_calculate();
        Ok(())
    }

    /// Judges the current instruction on the sampled level `rx`: `Err` ends
    /// the attack, `Ok(true)` completes the instruction, `Ok(false)` keeps it
    /// for another bit.
    pub fn handle_middle(&mut self, rx: bool) -> (r: Result<bool, ()>)
        requires
            old(self).in_bounds(),
        ensures
            final(self).in_bounds(),
            old(self).wf() ==> final(self).wf(),
            final(self).bus() == old(self).bus(),
            (final(self)@, r) == middle_spec(old(self)@, rx),
    {
        if self.index >= MAX_ATTACK_SIZE {
            return Err(());
        }
        let i = self.index;
        match self.attack[i] {
            AttackCmd::Wait { bits } => Ok(bits == 0),
            AttackCmd::Force { stream } => {
                if stream.len() == 0 {
                    self.next_state.set_force(false);
                    Ok(true)
                } else {
                    Ok(false)
                }
            },
            AttackCmd::Send { stream } => {
                if stream.len() == 0 {
                    self.next_state.set_tx(true);
                    Ok(true)
                } else {
                    Ok(false)
                }
            },
            AttackCmd::Match { stream } => {
                let mut s = stream;
                if s.len() == 0 {
                    Ok(true)
                } else if rx != s.pop() {
                    Err(())
                } else {
                    let left = s.len();
                    self.attack[i] = AttackCmd::Match { stream: s };
                    assert(self@.program =~= with_cmd(old(self)@, CmdView::Match { stream: stream@.drop_first() }).program);
                    Ok(left == 0)
                }
            },
            AttackCmd::Read { len } => {
                self.buffer.push(rx);
                let left: usize = if len > 0 { len - 1 } else { 0 };
                self.attack[i] = AttackCmd::Read { len: left };
                assert(self@.program =~= with_cmd(old(self)@, CmdView::Read { len: left as nat }).program);
                Ok(left == 0)
            },
            AttackCmd::WaitBuffered => Ok(false),
            AttackCmd::End => Err(()),
        }
    }

    /// Moves to the next instruction; `false` when there is none.
    fn next_cmd(&mut self) -> (r: bool)
        requires
            old(self).index < MAX_ATTACK_SIZE,
        ensures
            final(self).index == old(self).index + 1,
            final(self).attack == old(self).attack,
            final(self).tranceiver == old(self).tranceiver,
            final(self).buffer == old(self).buffer,
            final(self).bit_stuffing_cnt == old(self).bit_stuffing_cnt,
            final(self).bit_stuffing_polarity == old(self).bit_stuffing_polarity,
            final(self).phase == old(self).phase,
            final(self).next_state == old(self).next_state,
            r == (final(self).index < MAX_ATTACK_SIZE),
    {
        self.index += 1;
        self.index < MAX_ATTACK_SIZE
    }

    /// The step at a sampling point, given the level `rx` read from the bus.
    /// Returns the quanta to wait before the next step, or `None` when the
    /// attack ends (a `Match` failed, or the program is exhausted).
    pub fn handle_rx(&mut self, rx: bool) -> (r: Option<u32>)
        requires
            old(self).wf(),
            old(self)@.phase == Phase::Evaluate || old(self)@.phase == Phase::Stuffed,
        ensures
            final(self).wf(),
            final(self).bus() == old(self).bus(),
            (final(self)@, r) == sample_spec(old(self)@, rx),
    {
        if self.phase == Phase::Stuffed {
            self.bit_stuffing_cnt = 1;
            self.bit_stuffing_polarity = rx;
            self.phase = Phase::OnStart;
            self.pre_calculate();
            return Some(7);
        }
        if rx == self.bit_stuffing_polarity {
            self.bit_stuffing_cnt += 1;
        } else {
            self.bit_stuffing_cnt = 1;
            self.bit_stuffing_polarity = rx;
        }
        assert(self@ == track_stuffing(old(self)@, rx));
        match self.handle_middle(rx) {
            Err(_) => {
                self.phase = Phase::Terminated;
                None
            },
            Ok(done) => {
                if done {
                    if !self.next_cmd() {
                        self.phase = Phase::Terminated;
                        return None;
                    }
                }
                if self.bit_stuffing_cnt >= 5 {
                    self.bit_stuffing_cnt = 0;
                    self.phase = Phase::Stuffed;
                    Some(8)
                } else {
                    self.phase = Phase::OnStart;
                    self.pre_calculate();
                    Some(7)
                }
            },
        }
    }

    /// Advances the attack by one step. At the start of a bit it drives the
    /// prepared line levels and returns 1; at a sampling point (of a frame
    /// bit or of an inserted one) it reads the receive line and proceeds as
    /// [`Self::handle_rx`]. Returns `None`, and
    /// does nothing, when no attack is running.
    pub fn handle(&mut self) -> (r: Option<u32>)
        requires
            old(self).wf(),
        ensures
            final(self).wf(),
            old(self)@.phase == Phase::OnStart ==> r == Some(1u32)
                && final(self)@ == (MachineView { phase: Phase::Evaluate, ..old(self)@ })
                && final(self).bus().lines() == old(self)@.next,
            old(self)@.phase == Phase::Evaluate || old(self)@.phase == Phase::Stuffed ==> ((final(self)@, r) == sample_spec(old(self)@, true)
                || (final(self)@, r) == sample_spec(old(self)@, false)) && final(self).bus() == old(self).bus(),
            old(self)@.phase == Phase::Idle || old(self)@.phase == Phase::Terminated ==> r is None
                && final(self)@ == old(self)@ && final(self).bus() == old(self).bus(),
    {
        match self.phase {
            Phase::OnStart => {
                self.tranceiver.apply(&self.next_state);
                self.phase = Phase::Evaluate;
                Some(1)
            },
            Phase::Evaluate | Phase::Stuffed => {
                let rx = self.tranceiver.get_rx();
                self.handle_rx(rx)
            },
            _ => None,
        }
    }
}

} // verus!
