//! General-purpose pins.

use vstd::prelude::*;

verus! {

/// Protocol of a pin that is driven and read on command.
pub const PIN_PROTOCOL: u16 = 0x0110;

/// Lets the pin float.
pub const PIN_CMD_FLOAT: u8 = 0;

/// Reads the level of the pin.
pub const PIN_CMD_READ: u8 = 1;

/// Drives the pin low.
pub const PIN_CMD_LOW: u8 = 2;

/// Drives the pin high.
pub const PIN_CMD_HIGH: u8 = 3;

/// Protocol of a pin that reports when it reaches a level.
pub const LEVEL_INTERRUPT_PROTOCOL: u16 = 0x0120;

/// Waits for the pin to be low.
pub const LEVEL_INTERRUPT_CMD_WAIT_LOW: u8 = 0;

/// Waits for the pin to be high.
pub const LEVEL_INTERRUPT_CMD_WAIT_HIGH: u8 = 1;

/// Event: the pin is low.
pub const LEVEL_INTERRUPT_EVT_LOW: u8 = 2;

/// Event: the pin is high.
pub const LEVEL_INTERRUPT_EVT_HIGH: u8 = 3;

} // verus!
