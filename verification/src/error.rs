//! What can go wrong: while attaching to a device, while claiming a
//! resource, and on a round trip.

use nusb::transfer::TransferError;
use vstd::prelude::*;

verus! {

/// `nusb::transfer::TransferError`, the transport's word for a transfer that
/// failed. It is carried through as it comes; nothing of its inside is
/// looked at or claimed.
#[verifier::external_type_specification]
#[verifier::external_body]
pub struct ExTransferError(nusb::transfer::TransferError);

/// The step at which attaching to a device, or configuring a resource,
/// failed.
#[derive(Clone, Copy, Debug, PartialEq, Eq, Structural)]
pub enum ErrorKind {
    ListDevices,
    DeviceNotFound,
    OpenDevice,
    ActiveConfiguration,
    NoVikingInterface,
    ClaimInterface,
    AltSetting,
    InterfaceDescriptor,
    RequestEndpoint,
    ResponseEndpoint,
    EventEndpoint,
    ClaimRequestEndpoint,
    ClaimResponseEndpoint,
    ClaimEventEndpoint,
    ReadDescriptors,
    ParseDescriptors,
    ConfigureMode,
    NoModeByProtocol,
    NoModeByName,
    WrongProtocol,
}

/// The message that goes with each kind of failure.
pub open spec fn message_of(kind: ErrorKind) -> Seq<char> {
    match kind {
        ErrorKind::ListDevices => "couldn't list devices"@,
        ErrorKind::DeviceNotFound => "device not found"@,
        ErrorKind::OpenDevice => "couldn't open device"@,
        ErrorKind::ActiveConfiguration => "couldn't get active configuration"@,
        ErrorKind::NoVikingInterface => "no Viking interface found on device"@,
        ErrorKind::ClaimInterface => "couldn't claim interface"@,
        ErrorKind::AltSetting => "failed to set interface alt setting"@,
        ErrorKind::InterfaceDescriptor => "interface descriptor not found"@,
        ErrorKind::RequestEndpoint => "request endpoint not found"@,
        ErrorKind::ResponseEndpoint => "response endpoint not found"@,
        ErrorKind::EventEndpoint => "event endpoint not found"@,
        ErrorKind::ClaimRequestEndpoint => "failed to claim request endpoint"@,
        ErrorKind::ClaimResponseEndpoint => "failed to claim response endpoint"@,
        ErrorKind::ClaimEventEndpoint => "failed to claim event endpoint"@,
        ErrorKind::ReadDescriptors => "failed to read Viking resource descriptors"@,
        ErrorKind::ParseDescriptors => "failed to parse Viking resource descriptors"@,
        ErrorKind::ConfigureMode => "configure mode failed"@,
        ErrorKind::NoModeByProtocol => "no mode found by protocol"@,
        ErrorKind::NoModeByName => "no mode found by name"@,
        ErrorKind::WrongProtocol => "mode does not have specified protocol"@,
    }
}

/// A failure to attach to a device or to put a resource into a mode.
#[derive(Clone, Copy, Debug, PartialEq, Eq, Structural)]
pub struct Error {
    pub kind: ErrorKind,
}

impl Error {
    pub fn new(kind: ErrorKind) -> (out: Self)
        ensures
            out.kind == kind,
    {
        Error { kind }
    }

    /// The message for the user.
    pub fn message(&self) -> (out: &'static str)
        ensures
            out@ == message_of(self.kind),
    {
        match self.kind {
            ErrorKind::ListDevices => "couldn't list devices",
            ErrorKind::DeviceNotFound => "device not found",
            ErrorKind::OpenDevice => "couldn't open device",
            ErrorKind::ActiveConfiguration => "couldn't get active configuration",
            ErrorKind::NoVikingInterface => "no Viking interface found on device",
            ErrorKind::ClaimInterface => "couldn't claim interface",
            ErrorKind::AltSetting => "failed to set interface alt setting",
            ErrorKind::InterfaceDescriptor => "interface descriptor not found",
            ErrorKind::RequestEndpoint => "request endpoint not found",
            ErrorKind::ResponseEndpoint => "response endpoint not found",
            ErrorKind::EventEndpoint => "event endpoint not found",
            ErrorKind::ClaimRequestEndpoint => "failed to claim request endpoint",
            ErrorKind::ClaimResponseEndpoint => "failed to claim response endpoint",
            ErrorKind::ClaimEventEndpoint => "failed to claim event endpoint",
            ErrorKind::ReadDescriptors => "failed to read Viking resource descriptors",
            ErrorKind::ParseDescriptors => "failed to parse Viking resource descriptors",
            ErrorKind::ConfigureMode => "configure mode failed",
            ErrorKind::NoModeByProtocol => "no mode found by protocol",
            ErrorKind::NoModeByName => "no mode found by name",
            ErrorKind::WrongProtocol => "mode does not have specified protocol",
        }
    }
}

/// How a response broke the framing of the protocol.
#[derive(Clone, Copy, Debug, PartialEq, Eq, Structural)]
pub enum ProtocolError {
    /// The response is shorter than what it has to hold.
    TooShort,
    /// The response answers another request.
    SeqMismatch,
    /// The device reports a failure; the status byte says which.
    DeviceStatus(u8),
}

/// The message that goes with each breach.
pub open spec fn protocol_message(e: ProtocolError) -> Seq<char> {
    match e {
        ProtocolError::TooShort => "response packet too short for header"@,
        ProtocolError::SeqMismatch => "response sequence mismatch"@,
        ProtocolError::DeviceStatus(_) => "device returned error status"@,
    }
}

impl ProtocolError {
    /// The message for the user.
    pub fn message(&self) -> (out: &'static str)
        ensures
            out@ == protocol_message(*self),
    {
        match self {
            ProtocolError::TooShort => "response packet too short for header",
            ProtocolError::SeqMismatch => "response sequence mismatch",
            ProtocolError::DeviceStatus(_) => "device returned error status",
        }
    }
}

/// Why a round trip failed.
#[derive(Clone, Copy, Debug, PartialEq, Eq)]
pub enum RequestError {
    /// The device answered, but not as the protocol has it.
    Protocol(ProtocolError),
    /// The transport failed.
    Usb(TransferError),
}

/// Where a failed round trip went wrong.
#[derive(Clone, Copy, Debug, PartialEq, Eq, Structural)]
pub enum Fault {
    /// On the way: the transport failed.
    Transport,
    /// In the framing: the response is cut short or answers another
    /// request.
    Framing,
    /// In the device, which reports a failure of its own.
    Device,
}

/// Where each failure went wrong.
pub open spec fn fault_of(e: RequestError) -> Fault {
    match e {
        RequestError::Usb(_) => Fault::Transport,
        RequestError::Protocol(ProtocolError::DeviceStatus(_)) => Fault::Device,
        RequestError::Protocol(_) => Fault::Framing,
    }
}

/// `Display` of `nusb::transfer::TransferError`: the words that the
/// transport has for its failure. Nothing is claimed of them.
#[verifier::external_body]
fn transfer_error_text(e: TransferError) -> (out: String) {
    format!("{}", e)
}

impl RequestError {
    /// Where the round trip went wrong.
    pub fn fault(&self) -> (out: Fault)
        ensures
            out == fault_of(*self),
    {
        match self {
            RequestError::Usb(_) => Fault::Transport,
            RequestError::Protocol(ProtocolError::DeviceStatus(_)) => Fault::Device,
            RequestError::Protocol(_) => Fault::Framing,
        }
    }

    /// The message for the user: for a breach of the protocol the words of
    /// this library, for a failure of the transport those of the transport.
    pub fn message(&self) -> (out: String)
        ensures
            match *self {
                RequestError::Protocol(e) => out@ == protocol_message(e),
                RequestError::Usb(_) => true,
            },
    {
        match self {
            RequestError::Protocol(e) => e.message().to_owned(),
            RequestError::Usb(e) => transfer_error_text(*e),
        }
    }
}

/// Why a resource could not be claimed.
#[derive(Clone, Copy, Debug, PartialEq, Eq, Structural)]
pub enum ResourceError {
    /// The device has no resource of that name.
    NotFound,
    /// The resource is claimed already.
    Busy,
}

/// The message that goes with each refusal.
pub open spec fn resource_message(e: ResourceError) -> Seq<char> {
    match e {
        ResourceError::NotFound => "not found"@,
        ResourceError::Busy => "busy"@,
    }
}

impl ResourceError {
    /// The message for the user.
    pub fn message(&self) -> (out: &'static str)
        ensures
            out@ == resource_message(*self),
    {
        match self {
            ResourceError::NotFound => "not found",
            ResourceError::Busy => "busy",
        }
    }
}

} // verus!
