use nusb::transfer::TransferError;
use viking_io::{Error, ErrorKind, ProtocolError, RequestError, ResourceError};

#[test]
fn attach_errors_have_their_messages() {
    let cases = [
        (ErrorKind::ListDevices, "couldn't list devices"),
        (ErrorKind::DeviceNotFound, "device not found"),
        (ErrorKind::OpenDevice, "couldn't open device"),
        (
            ErrorKind::ActiveConfiguration,
            "couldn't get active configuration",
        ),
        (
            ErrorKind::NoVikingInterface,
            "no Viking interface found on device",
        ),
        (ErrorKind::ClaimInterface, "couldn't claim interface"),
        (ErrorKind::AltSetting, "failed to set interface alt setting"),
        (
            ErrorKind::InterfaceDescriptor,
            "interface descriptor not found",
        ),
        (ErrorKind::RequestEndpoint, "request endpoint not found"),
        (ErrorKind::ResponseEndpoint, "response endpoint not found"),
        (ErrorKind::EventEndpoint, "event endpoint not found"),
        (
            ErrorKind::ClaimRequestEndpoint,
            "failed to claim request endpoint",
        ),
        (
            ErrorKind::ClaimResponseEndpoint,
            "failed to claim response endpoint",
        ),
        (
            ErrorKind::ClaimEventEndpoint,
            "failed to claim event endpoint",
        ),
        (
            ErrorKind::ReadDescriptors,
            "failed to read Viking resource descriptors",
        ),
        (
            ErrorKind::ParseDescriptors,
            "failed to parse Viking resource descriptors",
        ),
        (ErrorKind::ConfigureMode, "configure mode failed"),
        (ErrorKind::NoModeByProtocol, "no mode found by protocol"),
        (ErrorKind::NoModeByName, "no mode found by name"),
        (
            ErrorKind::WrongProtocol,
            "mode does not have specified protocol",
        ),
    ];
    for (kind, message) in cases {
        let e = Error::new(kind);
        assert_eq!(e.kind, kind);
        assert_eq!(e.message(), message);
    }
}

#[test]
fn protocol_errors_have_their_messages() {
    assert_eq!(
        ProtocolError::TooShort.message(),
        "response packet too short for header"
    );
    assert_eq!(
        ProtocolError::SeqMismatch.message(),
        "response sequence mismatch"
    );
    assert_eq!(
        ProtocolError::DeviceStatus(9).message(),
        "device returned error status"
    );
    assert_eq!(
        RequestError::Protocol(ProtocolError::DeviceStatus(9)).message(),
        "device returned error status"
    );
}

#[test]
fn transport_errors_speak_for_themselves() {
    let text = RequestError::Usb(TransferError::Stall).message();
    assert_eq!(text, format!("{}", TransferError::Stall));
    assert_ne!(text, RequestError::Usb(TransferError::Disconnected).message());
    assert!(!text.is_empty());
}

#[test]
fn resource_errors_have_their_messages() {
    assert_eq!(ResourceError::NotFound.message(), "not found");
    assert_eq!(ResourceError::Busy.message(), "busy");
}

#[test]
fn faults_are_told_apart() {
    assert_eq!(
        RequestError::Usb(TransferError::Fault).fault(),
        viking_io::Fault::Transport
    );
    assert_eq!(
        RequestError::Protocol(ProtocolError::TooShort).fault(),
        viking_io::Fault::Framing
    );
    assert_eq!(
        RequestError::Protocol(ProtocolError::SeqMismatch).fault(),
        viking_io::Fault::Framing
    );
    assert_eq!(
        RequestError::Protocol(ProtocolError::DeviceStatus(1)).fault(),
        viking_io::Fault::Device
    );
}
