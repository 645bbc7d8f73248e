//! Attaching to a device: which device is meant, which of its interfaces
//! speaks the protocol, which endpoints serve what, and how the device is
//! asked for its resources.

use crate::error::{Error, ErrorKind};
use crate::interface::Interface;
use crate::request::DESCRIBE_RESOURCES;
use vstd::prelude::*;

verus! {

/// Class code of the interface that speaks the protocol.
pub const VIKING_CLASS: u8 = 0xff;

/// Subclass code of that interface.
pub const VIKING_SUBCLASS: u8 = 0x00;

/// Protocol code of that interface.
pub const VIKING_PROTOCOL: u8 = 0x00;

/// The alternate setting that brings up the bulk endpoints.
pub const ALT_SETTING: u8 = 1;

/// Most bytes that the device may answer when asked for its resources.
pub const DESCRIBE_LENGTH: u16 = 4096;

/// Most bytes that are read for one response.
pub const RESPONSE_LENGTH: usize = 4096;

/// How a device names itself on the bus.
#[derive(Clone, Copy, Debug, PartialEq, Eq, Structural)]
pub struct DeviceId {
    pub vendor_id: u16,
    pub product_id: u16,
}

/// What decides whether one setting of an interface speaks the protocol.
#[derive(Clone, Copy, Debug, PartialEq, Eq, Structural)]
pub struct AltSetting {
    pub interface_number: u8,
    pub class: u8,
    pub subclass: u8,
    pub protocol: u8,
}

/// The addresses of the three endpoints: requests go out on the first,
/// responses and events come in on the other two.
#[derive(Clone, Copy, Debug, PartialEq, Eq, Structural)]
pub struct Endpoints {
    pub request: u8,
    pub response: u8,
    pub event: u8,
}

/// A control request to the interface that reads data from the device. It
/// goes out as a vendor request with the interface as recipient.
#[derive(Clone, Copy, Debug, PartialEq, Eq, Structural)]
pub struct ControlIn {
    pub request: u8,
    pub value: u16,
    pub index: u16,
    pub length: u16,
}

/// Whether a setting speaks the protocol.
pub open spec fn is_viking(setting: AltSetting) -> bool {
    setting.class == VIKING_CLASS && setting.subclass == VIKING_SUBCLASS && setting.protocol
        == VIKING_PROTOCOL
}

impl Interface {
    /// The place of the first device with the given vendor and product id.
    pub fn find(devices: &[DeviceId], vid: u16, pid: u16) -> (out: Result<usize, Error>)
        ensures
            match out {
                Ok(i) => {
                    &&& i < devices@.len()
                    &&& devices@[i as int] == (DeviceId { vendor_id: vid, product_id: pid })
                    &&& forall|j: int|
                        0 <= j < i ==> #[trigger] devices@[j] != (DeviceId {
                            vendor_id: vid,
                            product_id: pid,
                        })
                },
                Err(e) => {
                    &&& e.kind == ErrorKind::DeviceNotFound
                    &&& forall|j: int|
                        0 <= j < devices@.len() ==> #[trigger] devices@[j] != (DeviceId {
                            vendor_id: vid,
                            product_id: pid,
                        })
                },
            },
    {
        let mut i: usize = 0;
        while i < devices.len()
            invariant
                0 <= i <= devices@.len(),
                forall|j: int|
                    0 <= j < i ==> #[trigger] devices@[j] != (DeviceId {
                        vendor_id: vid,
                        product_id: pid,
                    }),
            decreases devices@.len() - i,
        {
            if devices[i].vendor_id == vid && devices[i].product_id == pid {
                return Ok(i);
            }
            i = i + 1;
        }
        Err(Error::new(ErrorKind::DeviceNotFound))
    }
}

/// The number of the interface whose setting is the first to speak the
/// protocol.
pub fn find_interface(settings: &[AltSetting]) -> (out: Result<u8, Error>)
    ensures
        match out {
            Ok(number) => exists|i: int|
                {
                    &&& 0 <= i < settings@.len()
                    &&& is_viking(#[trigger] settings@[i])
                    &&& settings@[i].interface_number == number
                    &&& forall|j: int| 0 <= j < i ==> !is_viking(#[trigger] settings@[j])
                },
            Err(e) => {
                &&& e.kind == ErrorKind::NoVikingInterface
                &&& forall|j: int| 0 <= j < settings@.len() ==> !is_viking(#[trigger] settings@[j])
            },
        },
{
    let mut i: usize = 0;
    while i < settings.len()
        invariant
            0 <= i <= settings@.len(),
            forall|j: int| 0 <= j < i ==> !is_viking(#[trigger] settings@[j]),
        decreases settings@.len() - i,
    {
        let s = settings[i];
        if s.class == VIKING_CLASS && s.subclass == VIKING_SUBCLASS && s.protocol
            == VIKING_PROTOCOL {
            assert(is_viking(settings@[i as int]));
            return Ok(s.interface_number);
        }
        i = i + 1;
    }
    Err(Error::new(ErrorKind::NoVikingInterface))
}

/// Assigns the endpoints of the interface, given in the order of its
/// descriptor: the first three serve requests, responses and events.
pub fn bind_endpoints(addresses: &[u8]) -> (out: Result<Endpoints, Error>)
    ensures
        match out {
            Ok(eps) => addresses@.len() >= 3 && eps == (Endpoints {
                request: addresses@[0],
                response: addresses@[1],
                event: addresses@[2],
            }),
            Err(e) => {
                &&& addresses@.len() < 3
                &&& addresses@.len() == 0 ==> e.kind == ErrorKind::RequestEndpoint
                &&& addresses@.len() == 1 ==> e.kind == ErrorKind::ResponseEndpoint
                &&& addresses@.len() == 2 ==> e.kind == ErrorKind::EventEndpoint
            },
        },
{
    if addresses.len() == 0 {
        Err(Error::new(ErrorKind::RequestEndpoint))
    } else if addresses.len() == 1 {
        Err(Error::new(ErrorKind::ResponseEndpoint))
    } else if addresses.len() == 2 {
        Err(Error::new(ErrorKind::EventEndpoint))
    } else {
        Ok(Endpoints { request: addresses[0], response: addresses[1], event: addresses[2] })
    }
}

/// The request that asks the device to describe its resources.
pub fn describe_resources(interface_number: u8) -> (out: ControlIn)
    ensures
        out == (ControlIn {
            request: DESCRIBE_RESOURCES,
            value: 0,
            index: interface_number as u16,
            length: DESCRIBE_LENGTH,
        }),
{
    ControlIn {
        request: DESCRIBE_RESOURCES,
        value: 0,
        index: interface_number as u16,
        length: DESCRIBE_LENGTH,
    }
}

} // verus!
