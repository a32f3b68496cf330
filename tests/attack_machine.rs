use std::cell::RefCell;

use evil_core::clock::TicksClock;
use evil_core::tranceiver::Tranceiver;
use evil_core::{
    AttackCmd, AttackError, AttackMachine, CanBitrates, EvilBsp, EvilCore, FastBitQueue,
    TranceiverState, MAX_ATTACK_SIZE,
};

const QUANTA: usize = 8;

/// A bus that shows `bits`, one per eight quanta, then stays recessive, and
/// records every level driven on it with the quantum at which it was driven.
struct SimBus {
    bits: Vec<bool>,
    quantum: usize,
    force: bool,
    tx: bool,
    driven: Vec<(usize, bool, bool)>,
    samples: RefCell<Vec<usize>>,
}

impl SimBus {
    fn new(bits: Vec<bool>) -> Self {
        SimBus { bits, quantum: 0, force: false, tx: true, driven: Vec::new(), samples: RefCell::new(Vec::new()) }
    }
}

impl Tranceiver for SimBus {
    fn lines(&self) -> TranceiverState {
        TranceiverState { force: self.force, tx: self.tx }
    }

    fn set_tx(&mut self, state: bool) {
        self.tx = state;
        self.driven.push((self.quantum, self.force, self.tx));
    }

    fn get_rx(&self) -> bool {
        self.samples.borrow_mut().push(self.quantum);
        *self.bits.get(self.quantum / QUANTA).unwrap_or(&true)
    }

    fn set_force(&mut self, state: bool) {
        self.force = state;
        self.driven.push((self.quantum, self.force, self.tx));
    }
}

/// Steps the machine until the attack ends; returns the quanta of each step.
fn run(m: &mut AttackMachine<SimBus>) -> Vec<u32> {
    let mut steps = Vec::new();
    while let Some(q) = m.handle() {
        steps.push(q);
        m.tranceiver.quantum += q as usize;
        assert!(steps.len() < 100_000, "attack did not end");
    }
    steps
}

/// The quanta at which the force line was turned on.
fn forced_at(bus: &SimBus) -> Vec<usize> {
    let mut at: Vec<usize> = bus.driven.iter().filter(|d| d.1).map(|d| d.0).collect();
    at.dedup();
    at
}

fn crc15(bits: &[bool]) -> u16 {
    let mut crc: u16 = 0;
    for &b in bits {
        let top = (crc >> 14) & 1 == 1;
        crc = (crc << 1) & 0x7FFF;
        if b != top {
            crc ^= 0x4599;
        }
    }
    crc
}

fn push_bits(out: &mut Vec<bool>, value: u32, width: usize) {
    for i in (0..width).rev() {
        out.push((value >> i) & 1 == 1);
    }
}

/// The bits of a standard data frame as the bus shows them, stuffed bits
/// included, and the position of its ACK slot.
fn standard_frame(id: u16, data: &[u8]) -> (Vec<bool>, usize) {
    let mut raw = vec![false];
    push_bits(&mut raw, id as u32, 11);
    raw.extend([false, false, false]);
    push_bits(&mut raw, data.len() as u32, 4);
    for &byte in data {
        push_bits(&mut raw, byte as u32, 8);
    }
    let crc = crc15(&raw);
    push_bits(&mut raw, crc as u32, 15);

    let mut wire = Vec::new();
    let mut run = 0;
    let mut level = true;
    for &b in &raw {
        wire.push(b);
        if b == level {
            run += 1;
        } else {
            level = b;
            run = 1;
        }
        if run == 5 {
            wire.push(!level);
            level = !level;
            run = 1;
        }
    }
    wire.push(true);
    let ack = wire.len();
    wire.extend([true; 9]);
    (wire, ack)
}

fn frame_attack() -> Vec<AttackCmd> {
    vec![
        AttackCmd::Wait { bits: 1 },
        AttackCmd::Match { stream: FastBitQueue::new(0x123, 11) },
        AttackCmd::Wait { bits: 3 },
        AttackCmd::Read { len: 4 },
        AttackCmd::WaitBuffered,
        AttackCmd::Wait { bits: 16 },
        AttackCmd::Force { stream: FastBitQueue::new(0x1, 1) },
    ]
}

fn alternating(n: usize) -> Vec<bool> {
    (0..n).map(|i| i % 2 == 0).collect()
}

#[test]
fn force_lands_on_the_ack_slot_of_the_matched_frame() {
    for data in [
        vec![0x00u8, 0x00, 0x00, 0x00],
        vec![0xFF, 0xFF, 0xFF, 0xFF],
        vec![0xDE, 0xAD, 0xBE, 0xEF],
        vec![0x12, 0x34, 0x56, 0x78],
    ] {
        let (wire, ack) = standard_frame(0x123, &data);
        let mut m = AttackMachine::new(SimBus::new(wire));
        assert_eq!(m.arm(&frame_attack()), Ok(()));
        run(&mut m);
        let forced = forced_at(&m.tranceiver);
        assert_eq!(forced, vec![ack * QUANTA], "data {:?}", data);
        assert!(!m.tranceiver.force, "force line released");
        assert!(m.tranceiver.tx);
    }
}

#[test]
fn flipped_identifier_bit_stops_at_the_match() {
    let (wire, _) = standard_frame(0x123 ^ (1 << 6), &[0xDE, 0xAD, 0xBE, 0xEF]);
    let mut m = AttackMachine::new(SimBus::new(wire));
    m.arm(&frame_attack()).unwrap();
    run(&mut m);
    assert!(m.tranceiver.driven.iter().all(|&(_, force, tx)| !force && tx));
    // SOF and four identifier bits pass, the fifth is the last bit sampled.
    assert_eq!(m.tranceiver.samples.borrow().last().copied(), Some(5 * QUANTA + 1));
    assert_eq!(m.handle(), None);
}

#[test]
fn matching_stream_moves_on_to_the_next_instruction() {
    let mut bits = vec![true, false, true, true, false];
    bits.extend(alternating(8));
    let mut m = AttackMachine::new(SimBus::new(bits));
    let attack = [
        AttackCmd::Match { stream: FastBitQueue::new(0b10110, 5) },
        AttackCmd::Force { stream: FastBitQueue::new(0b1, 1) },
    ];
    m.arm(&attack).unwrap();
    run(&mut m);
    let forced = forced_at(&m.tranceiver);
    assert_eq!(forced, vec![5 * QUANTA]);
}

#[test]
fn single_bit_deviation_in_match_terminates() {
    for flip in 0..5 {
        let mut bits = vec![true, false, true, true, false];
        bits[flip] = !bits[flip];
        bits.extend(alternating(8));
        let mut m = AttackMachine::new(SimBus::new(bits));
        let attack = [
            AttackCmd::Match { stream: FastBitQueue::new(0b10110, 5) },
            AttackCmd::Force { stream: FastBitQueue::new(0b1, 1) },
        ];
        m.arm(&attack).unwrap();
        let steps = run(&mut m);
        assert_eq!(steps.len(), 2 * flip + 1);
        assert!(m.tranceiver.driven.iter().all(|d| !d.1));
    }
}

#[test]
fn five_equal_bits_add_one_bit_period() {
    // five dominant bits, the stuffed recessive bit, then four more recessive
    // ones: with the stuffed bit those make another run of five
    let mut bits = vec![false, false, false, false, false, true, true, true, true, true, false];
    bits.extend(alternating(10));
    let mut m = AttackMachine::new(SimBus::new(bits));
    m.arm(&[AttackCmd::Wait { bits: 12 }]).unwrap();
    let steps = run(&mut m);
    assert_eq!(&steps[..10], &[1, 7, 1, 7, 1, 7, 1, 7, 1, 8]);
    // the stuffed bit is sampled one bit later and restarts the run at 1
    assert_eq!(m.tranceiver.samples.borrow()[5], 5 * QUANTA + 1);
    assert_eq!(&steps[10..19], &[7, 1, 7, 1, 7, 1, 7, 1, 8]);
    assert_eq!(m.tranceiver.samples.borrow()[10], 10 * QUANTA + 1);
    // quanta from one bit start to the next: 8 normally, 16 across a stuffed bit
    let normal: u32 = steps[..2].iter().sum();
    let stuffed: u32 = steps[8..11].iter().sum();
    assert_eq!(normal, 8);
    assert_eq!(stuffed, 16);
}

#[test]
fn match_skips_the_inserted_bit() {
    // six dominant frame bits; the bus inserts a recessive bit after the fifth
    let mut bits = vec![false, false, false, false, false, true, false];
    bits.extend(alternating(8));
    let mut m = AttackMachine::new(SimBus::new(bits));
    let attack = [
        AttackCmd::Match { stream: FastBitQueue::new(0, 6) },
        AttackCmd::Force { stream: FastBitQueue::new(0b1, 1) },
    ];
    m.arm(&attack).unwrap();
    let steps = run(&mut m);
    assert_eq!(&steps[..12], &[1, 7, 1, 7, 1, 7, 1, 7, 1, 8, 7, 1]);
    assert_eq!(forced_at(&m.tranceiver), vec![7 * QUANTA]);
}

#[test]
fn read_skips_the_inserted_bit() {
    // frame bits 1,1,1,1,1 then 0; the bus inserts a dominant bit after the
    // fifth recessive one, which the read must not take in
    let mut bits = vec![true, true, true, true, true, false, false];
    bits.extend(alternating(600));
    let mut m = AttackMachine::new(SimBus::new(bits));
    let attack = [
        AttackCmd::Read { len: 6 },
        AttackCmd::WaitBuffered,
        AttackCmd::Force { stream: FastBitQueue::new(0b1, 1) },
    ];
    m.arm(&attack).unwrap();
    run(&mut m);
    // 0b111110 == 62: a wait of 8 * 62 - 1 bits, prepared at the last read bit
    assert_eq!(forced_at(&m.tranceiver), vec![(7 + 8 * 62 - 1 + 1) * QUANTA]);
}

#[test]
fn wait_buffered_after_reading_eight_waits_63_bits() {
    let mut bits = vec![true, false, false, false];
    bits.extend(alternating(80));
    let mut m = AttackMachine::new(SimBus::new(bits));
    let attack = [
        AttackCmd::Read { len: 4 },
        AttackCmd::WaitBuffered,
        AttackCmd::Force { stream: FastBitQueue::new(0b1, 1) },
    ];
    m.arm(&attack).unwrap();
    run(&mut m);
    let forced = forced_at(&m.tranceiver);
    // the wait is prepared at the last read bit and counts 63 more bits
    assert_eq!(forced, vec![(4 + 63 + 1) * QUANTA]);
}

#[test]
fn wait_buffered_with_empty_accumulator_is_skipped() {
    let mut bits = vec![false, true, false, true];
    bits.extend(alternating(10));
    let mut m = AttackMachine::new(SimBus::new(bits));
    // the read sees 0 then 1: one unit, a wait of 7 bits
    let attack = [
        AttackCmd::Read { len: 2 },
        AttackCmd::WaitBuffered,
        AttackCmd::Force { stream: FastBitQueue::new(0b1, 1) },
    ];
    m.arm(&attack).unwrap();
    run(&mut m);
    let forced = forced_at(&m.tranceiver);
    assert_eq!(forced, vec![(2 + 7 + 1) * QUANTA]);

    // the read sees 0: nothing to wait for, the force comes on the next bit
    let mut m = AttackMachine::new(SimBus::new(vec![false, true, false, true]));
    let attack = [
        AttackCmd::Read { len: 1 },
        AttackCmd::WaitBuffered,
        AttackCmd::Force { stream: FastBitQueue::new(1, 1) },
    ];
    m.arm(&attack).unwrap();
    run(&mut m);
    let forced = forced_at(&m.tranceiver);
    assert_eq!(forced, vec![QUANTA]);
}

#[test]
fn send_drives_inverted_bits_then_releases() {
    let mut m = AttackMachine::new(SimBus::new(alternating(20)));
    m.arm(&[AttackCmd::Send { stream: FastBitQueue::new(0b101, 3) }]).unwrap();
    run(&mut m);
    let tx: Vec<(usize, bool)> = m
        .tranceiver
        .driven
        .iter()
        .enumerate()
        .filter(|(i, _)| i % 2 == 1)
        .map(|(_, d)| (d.0, d.2))
        .collect();
    assert_eq!(tx, vec![(0, false), (8, true), (16, false), (24, true)]);
}

#[test]
fn too_long_attack_is_refused_and_keeps_the_armed_one() {
    let mut m = AttackMachine::new(SimBus::new(alternating(20)));
    m.arm(&[AttackCmd::Wait { bits: 2 }, AttackCmd::Force { stream: FastBitQueue::new(1, 1) }])
        .unwrap();
    let long = vec![AttackCmd::Wait { bits: 1 }; MAX_ATTACK_SIZE + 1];
    assert_eq!(m.arm(&long), Err(AttackError::AttackToLong));
    run(&mut m);
    let forced = forced_at(&m.tranceiver);
    assert_eq!(forced, vec![2 * QUANTA]);
}

#[test]
fn full_program_is_accepted() {
    let mut m = AttackMachine::new(SimBus::new(alternating(40)));
    let full = vec![AttackCmd::Wait { bits: 0 }; MAX_ATTACK_SIZE];
    assert_eq!(m.arm(&full), Ok(()));
    let steps = run(&mut m);
    assert_eq!(steps.len(), 2 * MAX_ATTACK_SIZE - 1);
}

#[test]
fn unarmed_machine_does_nothing() {
    let mut m = AttackMachine::new(SimBus::new(vec![]));
    assert_eq!(m.handle(), None);
    assert!(m.tranceiver.driven.is_empty());
}

#[test]
fn empty_program_ends_after_one_bit() {
    let mut m = AttackMachine::new(SimBus::new(alternating(4)));
    m.arm(&[]).unwrap();
    assert_eq!(run(&mut m), vec![1]);
}

#[test]
fn handle_middle_judges_a_match() {
    let mut m = AttackMachine::new(SimBus::new(vec![]));
    m.arm(&[AttackCmd::Match { stream: FastBitQueue::new(0b10, 2) }]).unwrap();
    assert_eq!(m.handle_middle(true), Ok(false));
    assert_eq!(m.handle_middle(true), Err(()));
    assert_eq!(m.handle_middle(false), Ok(true));
}

struct Ticks24;

impl TicksClock for Ticks24 {
    const TICKS_PER_SEC: u32 = 128_000_000;

    fn ticks(&self) -> u32 {
        0
    }

    fn add_spec(t1: u32, t2: u32) -> u32 {
        (t1 + t2) % 0x100_0000
    }

    fn add_ticks(t1: u32, t2: u32) -> u32 {
        (t1 + t2) % 0x100_0000
    }
}

#[test]
fn scheduler_derives_ticks_from_the_bitrate() {
    let bsp = EvilBsp::new(Ticks24, SimBus::new(vec![]));
    let mut core = EvilCore::new(bsp, CanBitrates::Kbps500, 1_000);
    assert_eq!(core.quanta_to_ticks(1), 32);
    assert_eq!(core.quanta_to_ticks(8), 256);
    assert_eq!(core.start_deadline(1_000), 1_000 - 128);
    assert_eq!(core.start_deadline(100), 100u32.wrapping_sub(128));
    core.set_baudrate(CanBitrates::Kbps125);
    assert_eq!(core.quanta_to_ticks(1), 128);
    assert_eq!(core.start_deadline(1_000), 1_000 - 128);
}

#[test]
fn scheduler_steps_deadlines() {
    let bsp = EvilBsp::new(Ticks24, SimBus::new(alternating(4)));
    let mut core = EvilCore::new(bsp, CanBitrates::Kbps500, 0);
    assert_eq!(core.next_deadline(10), None);
    core.arm(&[AttackCmd::Wait { bits: 1 }]).unwrap();
    assert_eq!(core.next_deadline(10), Some(10 + 32));
    assert_eq!(core.next_deadline(42), Some(42 + 7 * 32));
    assert_eq!(core.next_deadline(0xFF_FFF0), Some((0xFF_FFF0 + 32) % 0x100_0000));
    assert_eq!(core.next_deadline(0), None);
    assert!(core.tranceiver().bits.len() == 4);
}

#[test]
fn scheduler_waits_in_ticks() {
    let bsp = EvilBsp::new(Ticks24, SimBus::new(alternating(4)));
    let mut core = EvilCore::new(bsp, CanBitrates::Kbps125, 0);
    core.arm(&[AttackCmd::Wait { bits: 0 }]).unwrap();
    assert_eq!(core.next_wait(), Some(128));
    assert_eq!(core.next_wait(), Some(7 * 128));
    // the line levels are released on the next bit, then the end is reached
    assert_eq!(core.next_wait(), Some(128));
    assert_eq!(core.next_wait(), None);
    assert_eq!(core.next_wait(), None);
}
