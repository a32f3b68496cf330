//! Bit-level CAN fault-injection engine.
//!
//! An attack is a short program of bit-granular instructions. Once armed, the
//! engine follows a frame on the bus bit by bit, keeping its position aligned
//! with the frame through the bus's bit-stuffing rule, and samples, forces or
//! sends individual bits.

mod attack_errors;
mod attack_machine;
mod bsp;
mod can;
pub mod clock;
mod commands;
mod evil_core;
mod laws;
pub mod tranceiver;

pub use attack_errors::AttackError;
pub use attack_machine::{
    armed_spec, idle_machine, judge_spec, middle_spec, pre_calculate_spec, sample_spec, track_stuffing,
    with_cmd, AttackMachine, MachineView, Phase, MAX_ATTACK_SIZE,
};
pub use bsp::EvilBsp;
pub use can::{bitrate_from_kbps, period_ns, CanBitrates};
pub use commands::{
    bits_value, lemma_accumulator_from_zero, lemma_accumulator_keeps_last_byte,
    msb_bits, push_bit, pushes, AttackCmd, BitStream, CmdView,
    FastBitQueue, FastBitStack,
};
pub use evil_core::{sof_offset_ticks_spec, ticks_per_quantum_spec, wait_ticks, EvilCore};
pub use laws::{
    bit_step, frame_step, lemma_match_run, lemma_match_step, lemma_pre_calculate_keeps,
    lemma_read_then_wait_buffered, lemma_stuffing, lemma_terminated_stays, lemma_wait_buffered,
    run_after, run_frame, running,
};
pub use tranceiver::TranceiverState;
