//! The records exchanged with the device: the telemetry it reports and the
//! control word it accepts.

use vstd::prelude::*;

verus! {

/// A measured quantity, carried as the bit pattern of an IEEE 754 binary64
/// number. The library never does arithmetic on readings: it moves them from a
/// decoded frame into the metrics store, bit for bit.
#[derive(Clone, Copy, Debug, PartialEq, Eq, Structural)]
pub struct Reading {
    pub bits: u64,
}

impl Reading {
    /// The reading with the given bit pattern.
    pub fn from_bits(bits: u64) -> (r: Reading)
        ensures
            r.bits == bits,
    {
        Reading { bits }
    }

    /// The bit pattern of the reading.
    pub fn to_bits(&self) -> (bits: u64)
        ensures
            bits == self.bits,
    {
        self.bits
    }
}

impl Default for Reading {
    /// Positive zero.
    fn default() -> (r: Reading)
        ensures
            r.bits == 0,
    {
        Reading { bits: 0 }
    }
}

/// Rail voltages, in volts.
#[derive(Clone, Copy, Debug, PartialEq, Eq, Structural)]
pub struct Voltages {
    pub raw_input: Reading,
    pub analog: Reading,
    pub lna_one: Reading,
    pub lna_two: Reading,
}

impl Default for Voltages {
    fn default() -> (r: Voltages)
        ensures
            r == (Voltages {
                raw_input: Reading { bits: 0 },
                analog: Reading { bits: 0 },
                lna_one: Reading { bits: 0 },
                lna_two: Reading { bits: 0 },
            }),
    {
        Voltages {
            raw_input: Reading { bits: 0 },
            analog: Reading { bits: 0 },
            lna_one: Reading { bits: 0 },
            lna_two: Reading { bits: 0 },
        }
    }
}

/// Rail currents, in amperes.
#[derive(Clone, Copy, Debug, PartialEq, Eq, Structural)]
pub struct Currents {
    pub raw_input: Reading,
    pub analog: Reading,
    pub lna_one: Reading,
    pub lna_two: Reading,
}

impl Default for Currents {
    fn default() -> (r: Currents)
        ensures
            r == (Currents {
                raw_input: Reading { bits: 0 },
                analog: Reading { bits: 0 },
                lna_one: Reading { bits: 0 },
                lna_two: Reading { bits: 0 },
            }),
    {
        Currents {
            raw_input: Reading { bits: 0 },
            analog: Reading { bits: 0 },
            lna_one: Reading { bits: 0 },
            lna_two: Reading { bits: 0 },
        }
    }
}

/// Intermediate-frequency output power of the two channels, in dBm.
#[derive(Clone, Copy, Debug, PartialEq, Eq, Structural)]
pub struct IfPower {
    pub channel_one: Reading,
    pub channel_two: Reading,
}

/// The configuration sent to the device once, before telemetry is read.
#[derive(Clone, Copy, Debug, PartialEq, Eq, Structural)]
pub struct Control {
    pub cal_one: bool,
    pub cal_two: bool,
    pub lna_one_powered: bool,
    pub lna_two_powered: bool,
    pub attenuation_level: u8,
    pub if_power_threshold: Reading,
}

/// Calibration switches and attenuator setting as the device reports them.
#[derive(Clone, Copy, Debug, PartialEq, Eq, Structural)]
pub struct Status {
    pub cal_one: bool,
    pub cal_two: bool,
    pub attenuation_level: u8,
}

/// One telemetry record: the state of the device at one instant. A record
/// exists only whole; there is no partially filled `Monitor`.
#[derive(Clone, Copy, Debug, PartialEq, Eq, Structural)]
pub struct Monitor {
    pub board_temp: Reading,
    pub voltages: Voltages,
    pub currents: Currents,
    pub status: Status,
    pub if_power: IfPower,
}

} // verus!
