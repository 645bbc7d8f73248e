//! The numbers of the wire protocol: which protocol a mode speaks, and the
//! opcodes of its commands.

use vstd::prelude::*;

pub mod gpio;
pub mod i2c;
pub mod led;
pub mod spi;

verus! {

/// Opcode, on resource zero, that makes the device wait; the payload is the
/// number of microseconds.
pub const CMD_DELAY: u8 = 0;

} // verus!
