//! The I2C bus.

use crate::field::{le16, le16_bytes, read_le16, write_le16, Flags16, Flags8};
use vstd::prelude::*;

verus! {

/// Protocol of a bus controller.
pub const CONTROLLER_PROTOCOL: u16 = 0x0301;

/// Sends a start condition and the address byte; answers with a status byte.
pub const CONTROLLER_CMD_START: u8 = 0;

/// Sends a stop condition.
pub const CONTROLLER_CMD_STOP: u8 = 1;

/// Reads as many bytes as the payload says.
pub const CONTROLLER_CMD_READ: u8 = 2;

/// Writes the bytes of the payload.
pub const CONTROLLER_CMD_WRITE: u8 = 3;

/// Protocol of a pin that serves as clock line.
pub const SCL_PROTOCOL: u16 = 0x0310;

/// Protocol of a pin that serves as data line.
pub const SDA_PROTOCOL: u16 = 0x0311;

/// Speed code: 10 kHz.
pub const SPEED_SLOW: u8 = 0;

/// Speed code: 100 kHz.
pub const SPEED_STANDARD: u8 = 1;

/// Speed code: 400 kHz.
pub const SPEED_FAST: u8 = 2;

/// Speed code: 1 MHz.
pub const SPEED_FAST_PLUS: u8 = 3;

/// Speed code: 3.4 MHz.
pub const SPEED_HIGH: u8 = 4;

/// What a controller can do, one flag each.
pub type ModeFlags = Flags16;

/// The controller lets its pins be chosen.
pub const MODE_PINS: u16 = 0x0001;

/// The controller honours clock stretching.
pub const MODE_CLOCK_STRETCH: u16 = 0x0002;

/// The controller moves one byte per command.
pub const MODE_BYTE_AT_A_TIME: u16 = 0x0004;

/// The controller can write and then read in one go.
pub const MODE_WRITE_THEN_READ: u16 = 0x0008;

/// The controller can repeat a start for the same address.
pub const MODE_REPEATED_START_SAME_ADDRESS: u16 = 0x0010;

/// The controller can repeat a start.
pub const MODE_REPEATED_START: u16 = 0x0020;

/// The controller can write no bytes at all.
pub const MODE_ZERO_LEN_WRITE: u16 = 0x0040;

/// The controller can read no bytes at all.
pub const MODE_ZERO_LEN_READ: u16 = 0x0080;

/// The speeds that a controller offers, one flag for each speed code.
pub type SpeedFlags = Flags8;

/// 10 kHz is on offer.
pub const SPEEDS_SLOW: u8 = 0x01;

/// 100 kHz is on offer.
pub const SPEEDS_STANDARD: u8 = 0x02;

/// 400 kHz is on offer.
pub const SPEEDS_FAST: u8 = 0x04;

/// 1 MHz is on offer.
pub const SPEEDS_FAST_PLUS: u8 = 0x08;

/// 3.4 MHz is on offer.
pub const SPEEDS_HIGH: u8 = 0x10;

/// Bytes of what a controller mode tells of itself.
pub const DESCRIBE_MODE_LEN: usize = 3;

/// What a controller mode tells of itself.
#[derive(Clone, Copy, Debug, PartialEq, Eq, Structural)]
pub struct DescribeMode {
    pub flags: ModeFlags,
    pub speed: SpeedFlags,
}

/// What `bytes` tell of a controller mode, where they are long enough.
pub open spec fn describe_mode_of(bytes: Seq<u8>) -> Option<DescribeMode> {
    if bytes.len() < DESCRIBE_MODE_LEN {
        None
    } else {
        Some(
            DescribeMode {
                flags: Flags16 { bits: le16(bytes.subrange(0, 2)) },
                speed: Flags8 { bits: bytes[2] },
            },
        )
    }
}

/// What a controller mode tells of itself, on the wire.
pub open spec fn describe_mode_wire(d: DescribeMode) -> Seq<u8> {
    le16_bytes(d.flags.bits).push(d.speed.bits)
}

impl DescribeMode {
    /// Reads what a mode tells of itself.
    pub fn from_bytes(bytes: &[u8]) -> (out: Option<Self>)
        ensures
            out == describe_mode_of(bytes@),
    {
        if bytes.len() < DESCRIBE_MODE_LEN {
            return None;
        }
        Some(
            DescribeMode {
                flags: Flags16 { bits: read_le16(bytes, 0) },
                speed: Flags8 { bits: bytes[2] },
            },
        )
    }

    /// Writes it down again.
    pub fn to_bytes(&self) -> (out: Vec<u8>)
        ensures
            out@ == describe_mode_wire(*self),
            describe_mode_of(out@) == Some(*self),
    {
        let mut out: Vec<u8> = Vec::new();
        write_le16(&mut out, self.flags.bits);
        out.push(self.speed.bits);
        proof {
            crate::field::lemma_le_round_trip(self.flags.bits, 0);
            assert(out@ =~= describe_mode_wire(*self));
            assert(out@.subrange(0, 2) =~= le16_bytes(self.flags.bits));
        }
        out
    }
}

/// How a controller is configured: the code of the speed.
#[derive(Clone, Copy, Debug, PartialEq, Eq, Structural)]
pub struct Config {
    pub speed: u8,
}

impl Config {
    /// The body of the request that configures the mode.
    pub fn to_bytes(&self) -> (out: Vec<u8>)
        ensures
            out@ == seq![self.speed],
    {
        let mut out: Vec<u8> = Vec::new();
        out.push(self.speed);
        out
    }

    /// Reads a configuration.
    pub fn from_bytes(bytes: &[u8]) -> (out: Option<Self>)
        ensures
            match out {
                Some(c) => bytes@.len() >= 1 && c.speed == bytes@[0],
                None => bytes@.len() == 0,
            },
    {
        if bytes.len() < 1 {
            None
        } else {
            Some(Config { speed: bytes[0] })
        }
    }
}

} // verus!
