//! A claimed resource, and the step that puts it into a mode.

use crate::descriptor::{first_mode_named, first_with_protocol};
use crate::error::{Error, ErrorKind};
use crate::interface::{released, Interface};
use crate::request::CONFIGURE_MODE;
use nusb::transfer::TransferError;
use vstd::prelude::*;
use vstd::slice::slice_to_vec;

verus! {

/// Milliseconds that a control request may take.
pub const CONTROL_TIMEOUT_MS: u64 = 100;

/// A claimed resource as it models in contracts.
pub struct ResourceHandleView {
    /// The id of the resource, from 1 to 63.
    pub id: u8,
    /// The mode that was configured last; zero stands for none.
    pub mode: Option<u8>,
}

/// A control request to the interface that carries data to the device. It
/// goes out as a vendor request with the interface as recipient and the
/// interface's number as index.
#[derive(Debug, PartialEq, Eq)]
pub struct ControlOut {
    pub request: u8,
    pub value: u16,
    pub data: Vec<u8>,
}

/// The value of the request that puts resource `id` into mode `mode`.
pub open spec fn configure_value(id: u8, mode: u8) -> u16 {
    (id as int * 256 + mode as int) as u16
}

/// A claim on one resource of an interface.
#[derive(Debug)]
pub struct Resource {
    id: u8,
    mode_id: Option<u8>,
}

impl View for Resource {
    type V = ResourceHandleView;

    closed spec fn view(&self) -> ResourceHandleView {
        ResourceHandleView { id: self.id, mode: self.mode_id }
    }
}

impl Resource {
    #[verifier::type_invariant]
    spec fn inv(&self) -> bool {
        1 <= self.id <= 63
    }

    pub(crate) fn claimed(id: u8) -> (out: Self)
        requires
            1 <= id <= 63,
        ensures
            out@ == (ResourceHandleView { id, mode: None }),
    {
        Resource { id, mode_id: None }
    }

    /// The id of the resource.
    pub fn id(&self) -> (out: u8)
        ensures
            out == self@.id,
            1 <= out <= 63,
    {
        proof {
            use_type_invariant(self);
        }
        self.id
    }

    /// The mode that was configured last; zero stands for none.
    pub fn mode_id(&self) -> (out: Option<u8>)
        ensures
            out == self@.mode,
    {
        self.mode_id
    }

    /// The request that puts the resource into mode `mode`, with what the
    /// mode takes as configuration.
    pub fn configure(&self, mode: u8, config: &[u8]) -> (out: ControlOut)
        ensures
            out.request == CONFIGURE_MODE,
            out.value == configure_value(self@.id, mode),
            out.data@ == config@,
    {
        ControlOut {
            request: CONFIGURE_MODE,
            value: self.id as u16 * 256 + mode as u16,
            data: slice_to_vec(config),
        }
    }

    /// Takes note of how the request to configure went: where it reached
    /// the device, `mode` is the mode of the resource from now on.
    pub fn configured(&mut self, mode: u8, outcome: Result<(), TransferError>) -> (out: Result<
        (),
        Error,
    >)
        ensures
            match outcome {
                Ok(_) => out is Ok && final(self)@ == (ResourceHandleView {
                    id: old(self)@.id,
                    mode: Some(mode),
                }),
                Err(_) => out == Err::<(), Error>(Error { kind: ErrorKind::ConfigureMode })
                    && final(self)@ == old(self)@,
            },
    {
        proof {
            use_type_invariant(&*self);
        }
        match outcome {
            Ok(_) => {
                self.mode_id = Some(mode);
                Ok(())
            },
            Err(_) => Err(Error::new(ErrorKind::ConfigureMode)),
        }
    }

    /// The request that takes the resource out of any mode.
    pub fn deconfigure(&self) -> (out: ControlOut)
        ensures
            out.request == CONFIGURE_MODE,
            out.value == configure_value(self@.id, 0),
            out.data@.len() == 0,
    {
        ControlOut { request: CONFIGURE_MODE, value: self.id as u16 * 256, data: Vec::new() }
    }

    /// Takes note of how the request to deconfigure went.
    pub fn deconfigured(&mut self, outcome: Result<(), TransferError>) -> (out: Result<(), Error>)
        ensures
            match outcome {
                Ok(_) => out is Ok && final(self)@ == (ResourceHandleView {
                    id: old(self)@.id,
                    mode: Some(0u8),
                }),
                Err(_) => out == Err::<(), Error>(Error { kind: ErrorKind::ConfigureMode })
                    && final(self)@ == old(self)@,
            },
    {
        self.configured(0, outcome)
    }

    /// Looks up the mode that speaks the protocol of `M` and prepares the
    /// resource for it. Where the resource has no such mode, the claim on
    /// it is given back.
    pub fn as_mode<M: ResourceMode>(self, interface: &mut Interface) -> (out: Result<
        M::Builder,
        Error,
    >)
        requires
            self@.id <= old(interface)@.descriptor.len(),
        ensures
            match out {
                Ok(builder) => {
                    &&& M::builder_resource(builder) == self@
                    &&& first_with_protocol(
                        old(interface)@.descriptor[self@.id - 1].modes,
                        M::PROTOCOL,
                        M::builder_mode(builder) - 1,
                    )
                    &&& final(interface)@ == old(interface)@
                },
                Err(e) => {
                    &&& e.kind == ErrorKind::NoModeByProtocol
                    &&& forall|j: int|
                        0 <= j < old(interface)@.descriptor[self@.id - 1].modes.len() ==> (
                        #[trigger] old(interface)@.descriptor[self@.id - 1].modes[j]).protocol
                            != M::PROTOCOL
                    &&& final(interface)@ == released(old(interface)@, self@.id as int)
                },
            },
    {
        match self.descriptor(interface).find_mode(M::PROTOCOL) {
            Some(mode) => Ok(M::build(self, mode)),
            None => {
                interface.release(self);
                Err(Error::new(ErrorKind::NoModeByProtocol))
            },
        }
    }

    /// Looks up the mode named `name`, makes sure that it speaks the
    /// protocol of `M`, and prepares the resource for it. Where that
    /// fails, the claim on the resource is given back.
    pub fn as_mode_named<M: ResourceMode>(self, interface: &mut Interface, name: &str) -> (out:
        Result<M::Builder, Error>)
        requires
            self@.id <= old(interface)@.descriptor.len(),
        ensures
            match out {
                Ok(builder) => {
                    &&& M::builder_resource(builder) == self@
                    &&& first_mode_named(
                        old(interface)@.descriptor[self@.id - 1].modes,
                        name@,
                        M::builder_mode(builder) - 1,
                    )
                    &&& old(interface)@.descriptor[self@.id - 1].modes[M::builder_mode(builder)
                        - 1].protocol == M::PROTOCOL
                    &&& final(interface)@ == old(interface)@
                },
                Err(e) => {
                    &&& final(interface)@ == released(old(interface)@, self@.id as int)
                    &&& if e.kind == ErrorKind::NoModeByName {
                        forall|j: int|
                            0 <= j < old(interface)@.descriptor[self@.id - 1].modes.len() ==> (
                            #[trigger] old(interface)@.descriptor[self@.id - 1].modes[j]).name
                                != Some(name@)
                    } else {
                        &&& e.kind == ErrorKind::WrongProtocol
                        &&& exists|i: int|
                            #[trigger] first_mode_named(
                                old(interface)@.descriptor[self@.id - 1].modes,
                                name@,
                                i,
                            ) && old(interface)@.descriptor[self@.id - 1].modes[i].protocol
                                != M::PROTOCOL
                    }
                },
            },
    {
        let found = self.descriptor(interface).find_mode_named(name);
        let mode: u8 = match found {
            Some(mode) => mode,
            None => {
                interface.release(self);
                return Err(Error::new(ErrorKind::NoModeByName));
            },
        };
        let protocol = match self.descriptor(interface).mode(mode) {
            Some(m) => m.protocol(),
            None => vstd::pervasive::unreached(),
        };
        if protocol != M::PROTOCOL {
            interface.release(self);
            return Err(Error::new(ErrorKind::WrongProtocol));
        }
        Ok(M::build(self, mode))
    }

    /// What the device reported of this resource.
    pub fn descriptor<'a>(&self, interface: &'a Interface) -> (out: &'a crate::descriptor::Resource)
        requires
            self@.id <= interface@.descriptor.len(),
        ensures
            out@ == interface@.descriptor[self@.id - 1],
    {
        proof {
            use_type_invariant(self);
        }
        match interface.descriptor().resource(self.id) {
            Some(r) => r,
            None => vstd::pervasive::unreached(),
        }
    }
}

/// A personality that a resource can take: the protocol it speaks, and how
/// a resource is prepared for it.
pub trait ResourceMode: Sized {
    /// The number of the protocol.
    const PROTOCOL: u16;

    /// The resource on its way into the mode.
    type Builder;

    /// The resource that a builder holds.
    spec fn builder_resource(builder: Self::Builder) -> ResourceHandleView;

    /// The id of the mode that a builder is to enable.
    spec fn builder_mode(builder: Self::Builder) -> u8;

    /// Prepares `resource` for its mode number `mode`.
    fn build(resource: Resource, mode: u8) -> (out: Self::Builder)
        ensures
            Self::builder_resource(out) == resource@,
            Self::builder_mode(out) == mode,
    ;
}

} // verus!
