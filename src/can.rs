use vstd::prelude::*;

verus! {

/// The bus bitrates the engine can follow.
#[derive(Clone, Copy, Debug, PartialEq, Eq, Structural)]
pub enum CanBitrates {
    Kbps5,
    Kbps10,
    Kbps20,
    Kbps31_25,
    Kbps33_3,
    Kbps40,
    Kbps50,
    Kbps80,
    Kbps100,
    Kbps125,
    Kbps200,
    Kbps250,
    Kbps500,
    Kbps1000,
}

/// The bitrate named by its whole number of kbit/s; anything else is 250 kbit/s.
pub open spec fn bitrate_from_kbps(value: u16) -> CanBitrates {
    match value {
        5 => CanBitrates::Kbps5,
        10 => CanBitrates::Kbps10,
        20 => CanBitrates::Kbps20,
        31 => CanBitrates::Kbps31_25,
        33 => CanBitrates::Kbps33_3,
        40 => CanBitrates::Kbps40,
        50 => CanBitrates::Kbps50,
        80 => CanBitrates::Kbps80,
        100 => CanBitrates::Kbps100,
        125 => CanBitrates::Kbps125,
        200 => CanBitrates::Kbps200,
        250 => CanBitrates::Kbps250,
        500 => CanBitrates::Kbps500,
        1000 => CanBitrates::Kbps1000,
        _ => CanBitrates::Kbps250,
    }
}

/// The length of one bit, in nanoseconds, rounded down.
pub open spec fn period_ns(rate: CanBitrates) -> u32 {
    match rate {
        CanBitrates::Kbps5 => 200_000,
        CanBitrates::Kbps10 => 100_000,
        CanBitrates::Kbps20 => 50_000,
        CanBitrates::Kbps31_25 => 32_000,
        CanBitrates::Kbps33_3 => 30_030,
        CanBitrates::Kbps40 => 25_000,
        CanBitrates::Kbps50 => 20_000,
        CanBitrates::Kbps80 => 12_500,
        CanBitrates::Kbps100 => 10_000,
        CanBitrates::Kbps125 => 8_000,
        CanBitrates::Kbps200 => 5_000,
        CanBitrates::Kbps250 => 4_000,
        CanBitrates::Kbps500 => 2_000,
        CanBitrates::Kbps1000 => 1_000,
    }
}

impl CanBitrates {
    /// The length of one bit, in nanoseconds.
    pub fn to_period_ns(&self) -> (r: u32)
        ensures
            r == period_ns(*self),
            1_000 <= r <= 200_000,
    {
        match self {
            CanBitrates::Kbps5 => 200_000,
            CanBitrates::Kbps10 => 100_000,
            CanBitrates::Kbps20 => 50_000,
            CanBitrates::Kbps31_25 => 32_000,
            CanBitrates::Kbps33_3 => 30_030,
            CanBitrates::Kbps40 => 25_000,
            CanBitrates::Kbps50 => 20_000,
            CanBitrates::Kbps80 => 12_500,
            CanBitrates::Kbps100 => 10_000,
            CanBitrates::Kbps125 => 8_000,
            CanBitrates::Kbps200 => 5_000,
            CanBitrates::Kbps250 => 4_000,
            CanBitrates::Kbps500 => 2_000,
            CanBitrates::Kbps1000 => 1_000,
        }
    }
}

impl From<u16> for CanBitrates {
    fn from(value: u16) -> (r: CanBitrates) {
        match value {
            5 => CanBitrates::Kbps5,
            10 => CanBitrates::Kbps10,
            20 => CanBitrates::Kbps20,
            31 => CanBitrates::Kbps31_25,
            33 => CanBitrates::Kbps33_3,
            40 => CanBitrates::Kbps40,
            50 => CanBitrates::Kbps50,
            80 => CanBitrates::Kbps80,
            100 => CanBitrates::Kbps100,
            125 => CanBitrates::Kbps125,
            200 => CanBitrates::Kbps200,
            250 => CanBitrates::Kbps250,
            500 => CanBitrates::Kbps500,
            1000 => CanBitrates::Kbps1000,
            _ => CanBitrates::Kbps250,
        }
    }
}

impl vstd::std_specs::convert::FromSpecImpl<u16> for CanBitrates {
    open spec fn obeys_from_spec() -> bool {
        true
    }

    open spec fn from_spec(v: u16) -> CanBitrates {
        bitrate_from_kbps(v)
    }
}

} // verus!
