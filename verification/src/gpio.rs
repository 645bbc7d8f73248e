//! A general-purpose pin: floated, read, or driven low or high.

use crate::command::{Command, ScalarResponse};
use crate::error::{Error, ErrorKind};
use crate::interface::{released, Interface};
use crate::protocol::gpio::{
    PIN_CMD_FLOAT, PIN_CMD_HIGH, PIN_CMD_LOW, PIN_CMD_READ, PIN_PROTOCOL,
};
use crate::request::CONFIGURE_MODE;
use crate::resource::{configure_value, ControlOut, Resource, ResourceHandleView, ResourceMode};
use nusb::transfer::TransferError;
use vstd::prelude::*;

verus! {

/// A resource in the mode of a general-purpose pin.
#[derive(Debug)]
pub struct Gpio {
    pub(crate) resource: Resource,
}

impl View for Gpio {
    type V = ResourceHandleView;

    closed spec fn view(&self) -> ResourceHandleView {
        self.resource@
    }
}

/// A resource on its way to being a general-purpose pin.
#[derive(Debug)]
pub struct GpioBuilder {
    resource: Resource,
    mode: u8,
}

impl ResourceMode for Gpio {
    const PROTOCOL: u16 = PIN_PROTOCOL;

    type Builder = GpioBuilder;

    closed spec fn builder_resource(builder: GpioBuilder) -> ResourceHandleView {
        builder.resource@
    }

    closed spec fn builder_mode(builder: GpioBuilder) -> u8 {
        builder.mode
    }

    fn build(resource: Resource, mode: u8) -> (out: GpioBuilder) {
        GpioBuilder { resource, mode }
    }
}

impl GpioBuilder {
    /// The request that puts the resource into the mode.
    pub fn enable(&self) -> (out: ControlOut)
        ensures
            out.request == CONFIGURE_MODE,
            out.value == configure_value(
                Gpio::builder_resource(*self).id,
                Gpio::builder_mode(*self),
            ),
            out.data@.len() == 0,
    {
        let config: Vec<u8> = Vec::new();
        self.resource.configure(self.mode, config.as_slice())
    }

    /// Takes note of how that request went: where it reached the device, the
    /// resource is in the mode and ready for commands; where it did not,
    /// the claim on the resource is given back.
    pub fn enabled(self, interface: &mut Interface, outcome: Result<(), TransferError>) -> (out:
        Result<Gpio, Error>)
        ensures
            match outcome {
                Ok(_) => {
                    &&& out is Ok
                    &&& out->Ok_0@ == (ResourceHandleView {
                        id: Gpio::builder_resource(self).id,
                        mode: Some(Gpio::builder_mode(self)),
                    })
                    &&& final(interface)@ == old(interface)@
                },
                Err(_) => {
                    &&& out is Err
                    &&& out->Err_0.kind == ErrorKind::ConfigureMode
                    &&& final(interface)@ == released(
                        old(interface)@,
                        Gpio::builder_resource(self).id as int,
                    )
                },
            },
    {
        let mut resource = self.resource;
        match resource.configured(self.mode, outcome) {
            Ok(_) => Ok(Gpio { resource }),
            Err(e) => {
                interface.release(resource);
                Err(e)
            },
        }
    }

    /// Gives the resource back, as it was claimed.
    pub fn into_resource(self) -> (out: Resource)
        ensures
            out@ == Gpio::builder_resource(self),
    {
        self.resource
    }
}

impl Gpio {
    /// The id of the resource.
    pub fn id(&self) -> (out: u8)
        ensures
            out == self@.id,
            1 <= out <= 63,
    {
        self.resource.id()
    }

    /// Gives the resource back, as it was claimed.
    pub fn into_resource(self) -> (out: Resource)
        ensures
            out@ == self@,
    {
        self.resource
    }

    /// The command that lets the pin float.
    pub fn cmd_float(&self) -> (out: Command<(), ()>)
        ensures
            out.resource_id() == self@.id,
            out.opcode() == PIN_CMD_FLOAT,
            out.wf(),
    {
        Command::new(self.resource.id(), PIN_CMD_FLOAT, (), ())
    }

    /// The command that reads the level of the pin.
    pub fn cmd_read(&self) -> (out: Command<(), ScalarResponse<u8>>)
        ensures
            out.resource_id() == self@.id,
            out.opcode() == PIN_CMD_READ,
            out.wf(),
    {
        Command::new(self.resource.id(), PIN_CMD_READ, (), ScalarResponse::new())
    }

    /// The command that drives the pin: high for `true`, low for `false`.
    pub fn cmd_write(&self, level: bool) -> (out: Command<(), ()>)
        ensures
            out.resource_id() == self@.id,
            out.opcode() == if level {
                PIN_CMD_HIGH
            } else {
                PIN_CMD_LOW
            },
            out.wf(),
    {
        let cmd: u8 = if level {
            PIN_CMD_HIGH
        } else {
            PIN_CMD_LOW
        };
        Command::new(self.resource.id(), cmd, (), ())
    }
}

} // verus!
