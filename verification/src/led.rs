//! An indicator light that is on or off.

use crate::command::Command;
use crate::error::{Error, ErrorKind};
use crate::interface::{released, Interface};
use crate::protocol::led::{BINARY_CMD_OFF, BINARY_CMD_ON, BINARY_PROTOCOL};
use crate::request::CONFIGURE_MODE;
use crate::resource::{configure_value, ControlOut, Resource, ResourceHandleView, ResourceMode};
use nusb::transfer::TransferError;
use vstd::prelude::*;

verus! {

/// A resource in the mode of a light that is on or off.
#[derive(Debug)]
pub struct Led {
    pub(crate) resource: Resource,
}

impl View for Led {
    type V = ResourceHandleView;

    closed spec fn view(&self) -> ResourceHandleView {
        self.resource@
    }
}

/// A resource on its way to being a light.
#[derive(Debug)]
pub struct LedBuilder {
    resource: Resource,
    mode: u8,
}

impl ResourceMode for Led {
    const PROTOCOL: u16 = BINARY_PROTOCOL;

    type Builder = LedBuilder;

    closed spec fn builder_resource(builder: LedBuilder) -> ResourceHandleView {
        builder.resource@
    }

    closed spec fn builder_mode(builder: LedBuilder) -> u8 {
        builder.mode
    }

    fn build(resource: Resource, mode: u8) -> (out: LedBuilder) {
        LedBuilder { resource, mode }
    }
}

impl LedBuilder {
    /// The request that puts the resource into the mode.
    pub fn enable(&self) -> (out: ControlOut)
        ensures
            out.request == CONFIGURE_MODE,
            out.value == configure_value(
                Led::builder_resource(*self).id,
                Led::builder_mode(*self),
            ),
            out.data@.len() == 0,
    {
        let config: Vec<u8> = Vec::new();
        self.resource.configure(self.mode, config.as_slice())
    }

    /// Takes note of how that request went: where it reached the device, the
    /// resource is in the mode and ready for commands; where it did not,
    /// the claim on the resource is given back.
    pub fn enabled(self, interface: &mut Interface, outcome: Result<(), TransferError>) -> (out:
        Result<Led, Error>)
        ensures
            match outcome {
                Ok(_) => {
                    &&& out is Ok
                    &&& out->Ok_0@ == (ResourceHandleView {
                        id: Led::builder_resource(self).id,
                        mode: Some(Led::builder_mode(self)),
                    })
                    &&& final(interface)@ == old(interface)@
                },
                Err(_) => {
                    &&& out is Err
                    &&& out->Err_0.kind == ErrorKind::ConfigureMode
                    &&& final(interface)@ == released(
                        old(interface)@,
                        Led::builder_resource(self).id as int,
                    )
                },
            },
    {
        let mut resource = self.resource;
        match resource.configured(self.mode, outcome) {
            Ok(_) => Ok(Led { resource }),
            Err(e) => {
                interface.release(resource);
                Err(e)
            },
        }
    }

    /// Gives the resource back, as it was claimed.
    pub fn into_resource(self) -> (out: Resource)
        ensures
            out@ == Led::builder_resource(self),
    {
        self.resource
    }
}

impl Led {
    /// The id of the resource.
    pub fn id(&self) -> (out: u8)
        ensures
            out == self@.id,
            1 <= out <= 63,
    {
        self.resource.id()
    }

    /// Gives the resource back, as it was claimed.
    pub fn into_resource(self) -> (out: Resource)
        ensures
            out@ == self@,
    {
        self.resource
    }

    /// The command that turns the light on for `true`, off for `false`.
    pub fn cmd_set(&self, level: bool) -> (out: Command<(), ()>)
        ensures
            out.resource_id() == self@.id,
            out.opcode() == if level {
                BINARY_CMD_ON
            } else {
                BINARY_CMD_OFF
            },
            out.wf(),
    {
        let cmd: u8 = if level {
            BINARY_CMD_ON
        } else {
            BINARY_CMD_OFF
        };
        Command::new(self.resource.id(), cmd, (), ())
    }
}

} // verus!
