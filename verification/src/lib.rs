//! Host-side core of the Viking USB peripheral protocol.
//!
//! The crate holds the protocol logic as plain state and pure steps: command
//! encoding, request batching, response carving, the streaming queue, the
//! descriptor parser and the typed mode layer. Transfers themselves are left
//! to the caller, who sends the bytes a step hands out and reports back what
//! the device answered.

pub mod attach;
pub mod batch;
pub mod command;
pub mod descriptor;
pub mod error;
pub mod field;
pub mod gpio;
pub mod i2c;
pub mod interface;
pub mod led;
pub mod protocol;
pub mod queue;
pub mod request;
pub mod resource;
pub mod spi;
pub mod varint;

pub use batch::{CmdShared, CommandBatch, ResponseBatch, ResponseHandle, Transfer};
pub use error::{Error, ErrorKind, Fault, ProtocolError, RequestError, ResourceError};
pub use interface::{cmd_delay, Interface};
pub use queue::{CommandQueue, Destination, Flush, Planned, Scattered};
pub use resource::{ControlOut, Resource, ResourceMode};
