//! Codes of the control requests that go to the interface.

use vstd::prelude::*;

verus! {

/// Asks the device to describe all resources and their modes.
pub const DESCRIBE_RESOURCES: u8 = 0x13;

/// Puts a resource into a mode, or with mode zero out of any.
pub const CONFIGURE_MODE: u8 = 0x20;

} // verus!
