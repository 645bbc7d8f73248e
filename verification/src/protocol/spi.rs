//! The SPI bus.

use crate::field::{
    le16, le16_bytes, le32, le32_bytes, read_le16, read_le32, write_le16, write_le32, Flags16,
};
use vstd::prelude::*;

verus! {

/// Protocol of a bus controller.
pub const CONTROLLER_PROTOCOL: u16 = 0x0200;

/// Reads bytes.
pub const CONTROLLER_CMD_READ: u8 = 1;

/// Writes bytes.
pub const CONTROLLER_CMD_WRITE: u8 = 2;

/// Writes the bytes of the payload and reads as many.
pub const CONTROLLER_CMD_TRANSFER: u8 = 3;

/// Protocol of a pin that serves as clock.
pub const SCK_PIN_PROTOCOL: u16 = 0x0210;

/// Protocol of a pin that serves as data out.
pub const SDO_PIN_PROTOCOL: u16 = 0x0211;

/// Protocol of a pin that serves as data in.
pub const SDI_PIN_PROTOCOL: u16 = 0x0212;

/// What a controller can do, one flag each.
pub type ModeFlags = Flags16;

/// The controller lets its pins be chosen.
pub const MODE_PINS: u16 = 0x0001;

/// The controller lets its speed be chosen.
pub const MODE_SPEED: u16 = 0x0002;

/// Clock idle low, data sampled on the leading edge.
pub const MODE_MODE0: u16 = 0x0004;

/// Clock idle low, data sampled on the trailing edge.
pub const MODE_MODE1: u16 = 0x0008;

/// Clock idle high, data sampled on the leading edge.
pub const MODE_MODE2: u16 = 0x0010;

/// Clock idle high, data sampled on the trailing edge.
pub const MODE_MODE3: u16 = 0x0020;

/// Most significant bit first.
pub const MODE_MSB_FIRST: u16 = 0x0040;

/// Least significant bit first.
pub const MODE_LSB_FIRST: u16 = 0x0080;

/// How a controller is to drive the bus, one flag each.
pub type ConfigFlags = Flags16;

/// Clock idle high.
pub const CONFIG_CPOL: u16 = 0x0001;

/// Data sampled on the trailing edge.
pub const CONFIG_CPHA: u16 = 0x0002;

/// Least significant bit first.
pub const CONFIG_LSB_FIRST: u16 = 0x0004;

/// Bytes of what a controller mode tells of itself.
pub const DESCRIBE_MODE_LEN: usize = 15;

/// Bytes of a configuration.
pub const CONFIG_LEN: usize = 7;

/// What a controller mode tells of itself.
#[derive(Clone, Copy, Debug, PartialEq, Eq, Structural)]
pub struct DescribeMode {
    pub flags: ModeFlags,
    pub base_clock: u32,
    pub min_div: u32,
    pub max_div: u32,
    pub max_div_pow: u8,
}

/// What `bytes` tell of a controller mode, where they are long enough.
pub open spec fn describe_mode_of(bytes: Seq<u8>) -> Option<DescribeMode> {
    if bytes.len() < DESCRIBE_MODE_LEN {
        None
    } else {
        Some(
            DescribeMode {
                flags: Flags16 { bits: le16(bytes.subrange(0, 2)) },
                base_clock: le32(bytes.subrange(2, 6)),
                min_div: le32(bytes.subrange(6, 10)),
                max_div: le32(bytes.subrange(10, 14)),
                max_div_pow: bytes[14],
            },
        )
    }
}

/// What a controller mode tells of itself, on the wire.
pub open spec fn describe_mode_wire(d: DescribeMode) -> Seq<u8> {
    (le16_bytes(d.flags.bits) + le32_bytes(d.base_clock) + le32_bytes(d.min_div) + le32_bytes(
        d.max_div,
    )).push(d.max_div_pow)
}

impl DescribeMode {
    /// Reads what a mode tells of itself.
    pub fn from_bytes(bytes: &[u8]) -> (out: Option<Self>)
        ensures
            out == describe_mode_of(bytes@),
    {
        if bytes.len() < DESCRIBE_MODE_LEN {
            return None;
        }
        Some(
            DescribeMode {
                flags: Flags16 { bits: read_le16(bytes, 0) },
                base_clock: read_le32(bytes, 2),
                min_div: read_le32(bytes, 6),
                max_div: read_le32(bytes, 10),
                max_div_pow: bytes[14],
            },
        )
    }

    /// Writes it down again.
    pub fn to_bytes(&self) -> (out: Vec<u8>)
        ensures
            out@ == describe_mode_wire(*self),
    {
        let mut out: Vec<u8> = Vec::new();
        write_le16(&mut out, self.flags.bits);
        write_le32(&mut out, self.base_clock);
        write_le32(&mut out, self.min_div);
        write_le32(&mut out, self.max_div);
        out.push(self.max_div_pow);
        assert(out@ =~= describe_mode_wire(*self));
        out
    }
}

/// How a controller is configured: how it drives the bus, and the clock as
/// the base clock divided by `clock_div` and by two to the power of
/// `div_pow`.
#[derive(Clone, Copy, Debug, PartialEq, Eq, Structural)]
pub struct Config {
    pub flags: ConfigFlags,
    pub clock_div: u32,
    pub div_pow: u8,
}

/// A configuration on the wire.
pub open spec fn config_wire(c: Config) -> Seq<u8> {
    (le16_bytes(c.flags.bits) + le32_bytes(c.clock_div)).push(c.div_pow)
}

/// The configuration that `bytes` hold, where they are long enough.
pub open spec fn config_of(bytes: Seq<u8>) -> Option<Config> {
    if bytes.len() < CONFIG_LEN {
        None
    } else {
        Some(
            Config {
                flags: Flags16 { bits: le16(bytes.subrange(0, 2)) },
                clock_div: le32(bytes.subrange(2, 6)),
                div_pow: bytes[6],
            },
        )
    }
}

impl Config {
    /// The body of the request that configures the mode.
    pub fn to_bytes(&self) -> (out: Vec<u8>)
        ensures
            out@ == config_wire(*self),
    {
        let mut out: Vec<u8> = Vec::new();
        write_le16(&mut out, self.flags.bits);
        write_le32(&mut out, self.clock_div);
        out.push(self.div_pow);
        assert(out@ =~= config_wire(*self));
        out
    }

    /// Reads a configuration.
    pub fn from_bytes(bytes: &[u8]) -> (out: Option<Self>)
        ensures
            out == config_of(bytes@),
    {
        if bytes.len() < CONFIG_LEN {
            return None;
        }
        Some(
            Config {
                flags: Flags16 { bits: read_le16(bytes, 0) },
                clock_div: read_le32(bytes, 2),
                div_pow: bytes[6],
            },
        )
    }
}

/// Reading undoes writing, for what a mode tells of itself and for a
/// configuration.
pub proof fn lemma_spi_round_trip(d: DescribeMode, c: Config)
    ensures
        describe_mode_of(describe_mode_wire(d)) == Some(d),
        config_of(config_wire(c)) == Some(c),
{
    crate::field::lemma_le_round_trip(d.flags.bits, d.base_clock);
    crate::field::lemma_le_round_trip(c.flags.bits, d.min_div);
    crate::field::lemma_le_round_trip(c.flags.bits, d.max_div);
    crate::field::lemma_le_round_trip(c.flags.bits, c.clock_div);
    let w = describe_mode_wire(d);
    assert(w.subrange(0, 2) =~= le16_bytes(d.flags.bits));
    assert(w.subrange(2, 6) =~= le32_bytes(d.base_clock));
    assert(w.subrange(6, 10) =~= le32_bytes(d.min_div));
    assert(w.subrange(10, 14) =~= le32_bytes(d.max_div));
    let v = config_wire(c);
    assert(v.subrange(0, 2) =~= le16_bytes(c.flags.bits));
    assert(v.subrange(2, 6) =~= le32_bytes(c.clock_div));
}

} // verus!
