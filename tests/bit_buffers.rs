use evil_core::{CanBitrates, FastBitQueue, FastBitStack, TranceiverState};

fn drain(q: &mut FastBitQueue) -> Vec<bool> {
    let mut out = Vec::new();
    while q.len() > 0 {
        out.push(q.pop());
    }
    out
}

#[test]
fn queue_pops_most_significant_bit_first() {
    let mut q = FastBitQueue::new(0x123, 11);
    assert_eq!(q.len(), 11);
    let bits = drain(&mut q);
    let expected = vec![
        false, false, true, false, false, true, false, false, false, true, true,
    ];
    assert_eq!(bits, expected);
    assert_eq!(q.len(), 0);
}

#[test]
fn queue_ignores_bits_above_its_width() {
    let mut q = FastBitQueue::new(0b1111_0101, 4);
    assert_eq!(drain(&mut q), vec![false, true, false, true]);
}

#[test]
fn queue_of_full_width() {
    let mut q = FastBitQueue::new(0x8000_0001, 32);
    let bits = drain(&mut q);
    assert_eq!(bits.len(), 32);
    assert!(bits[0]);
    assert!(bits[1..31].iter().all(|b| !b));
    assert!(bits[31]);
}

#[test]
fn queue_width_is_capped_at_32() {
    let mut q = FastBitQueue::new(0xFFFF_FFFF, 40);
    assert_eq!(q.len(), 32);
    assert_eq!(drain(&mut q), vec![true; 32]);
}

#[test]
fn queue_of_zero_width_is_empty() {
    let q = FastBitQueue::new(0xFFFF_FFFF, 0);
    assert_eq!(q.len(), 0);
}

#[test]
fn queue_matches_shifted_value_for_every_width() {
    let value: u32 = 0xA5C3_0F96;
    for len in 0..=32usize {
        let mut q = FastBitQueue::new(value, len);
        let bits = drain(&mut q);
        assert_eq!(bits.len(), len);
        for (i, b) in bits.iter().enumerate() {
            assert_eq!(*b, (value >> (len - 1 - i)) & 1 == 1);
        }
    }
}

#[test]
fn accumulator_collects_eight_bits_msb_first() {
    let mut s = FastBitStack::new();
    assert_eq!(s.value(), 0);
    for b in [true, false, true, true, false, false, true, false] {
        s.push(b);
    }
    assert_eq!(s.value(), 0b1011_0010);
}

#[test]
fn accumulator_keeps_only_the_last_eight_bits() {
    let mut s = FastBitStack::new();
    for _ in 0..8 {
        s.push(true);
    }
    assert_eq!(s.value(), 0xFF);
    for b in [false, false, false, false, false, true, false, true] {
        s.push(b);
    }
    assert_eq!(s.value(), 0b0000_0101);
}

#[test]
fn accumulator_read_of_four_bits() {
    let mut s = FastBitStack::new();
    for b in [true, false, false, false] {
        s.push(b);
    }
    assert_eq!(s.value(), 8);
    s.clean();
    assert_eq!(s.value(), 0);
}

#[test]
fn tranceiver_state_starts_idle() {
    let mut s = TranceiverState::new();
    assert!(!s.force);
    assert!(s.tx);
    s.set_force(true);
    assert!(s.force && s.tx);
    s.set_tx(false);
    assert!(s.force && !s.tx);
}

#[test]
fn bitrates_from_kbps() {
    assert_eq!(CanBitrates::from(5u16), CanBitrates::Kbps5);
    assert_eq!(CanBitrates::from(31u16), CanBitrates::Kbps31_25);
    assert_eq!(CanBitrates::from(33u16), CanBitrates::Kbps33_3);
    assert_eq!(CanBitrates::from(500u16), CanBitrates::Kbps500);
    assert_eq!(CanBitrates::from(1000u16), CanBitrates::Kbps1000);
    assert_eq!(CanBitrates::from(7u16), CanBitrates::Kbps250);
}

#[test]
fn bitrate_periods() {
    assert_eq!(CanBitrates::Kbps5.to_period_ns(), 200_000);
    assert_eq!(CanBitrates::Kbps125.to_period_ns(), 8_000);
    assert_eq!(CanBitrates::Kbps500.to_period_ns(), 2_000);
    assert_eq!(CanBitrates::Kbps1000.to_period_ns(), 1_000);
}
