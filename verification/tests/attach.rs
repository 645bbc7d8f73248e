use viking_io::attach::{
    bind_endpoints, describe_resources, find_interface, AltSetting, ControlIn, DeviceId,
    Endpoints, ALT_SETTING, DESCRIBE_LENGTH, RESPONSE_LENGTH,
};
use viking_io::{ErrorKind, Interface};

fn id(vendor_id: u16, product_id: u16) -> DeviceId {
    DeviceId {
        vendor_id,
        product_id,
    }
}

fn alt(interface_number: u8, class: u8, subclass: u8, protocol: u8) -> AltSetting {
    AltSetting {
        interface_number,
        class,
        subclass,
        protocol,
    }
}

#[test]
fn first_matching_device_is_found() {
    let devices = [
        id(0x1234, 0x2222),
        id(0x59e3, 0x0001),
        id(0x59e3, 0x2222),
        id(0x59e3, 0x2222),
    ];
    assert_eq!(Interface::find(&devices, 0x59e3, 0x2222), Ok(2));
    assert_eq!(Interface::find(&devices, 0x1234, 0x2222), Ok(0));
}

#[test]
fn missing_device_is_not_found() {
    let devices = [id(0x1234, 0x2222), id(0x59e3, 0x0001)];
    let err = Interface::find(&devices, 0x59e3, 0x2222).unwrap_err();
    assert_eq!(err.kind, ErrorKind::DeviceNotFound);
    assert_eq!(err.message(), "device not found");
    assert!(Interface::find(&[], 0, 0).is_err());
}

#[test]
fn vendor_interface_is_found() {
    let settings = [
        alt(0, 0x02, 0x02, 0x00),
        alt(1, 0xff, 0x01, 0x00),
        alt(2, 0xff, 0x00, 0x01),
        alt(3, 0xff, 0x00, 0x00),
        alt(4, 0xff, 0x00, 0x00),
    ];
    assert_eq!(find_interface(&settings), Ok(3));
}

#[test]
fn device_without_vendor_interface_is_refused() {
    let settings = [alt(0, 0x02, 0x02, 0x00), alt(1, 0x0a, 0x00, 0x00)];
    let err = find_interface(&settings).unwrap_err();
    assert_eq!(err.kind, ErrorKind::NoVikingInterface);
    assert_eq!(err.message(), "no Viking interface found on device");
    assert!(find_interface(&[]).is_err());
}

#[test]
fn endpoints_are_assigned_in_order() {
    assert_eq!(
        bind_endpoints(&[0x01, 0x81, 0x82]),
        Ok(Endpoints {
            request: 0x01,
            response: 0x81,
            event: 0x82
        })
    );
    assert_eq!(
        bind_endpoints(&[0x02, 0x83, 0x84, 0x05]),
        Ok(Endpoints {
            request: 0x02,
            response: 0x83,
            event: 0x84
        })
    );
}

#[test]
fn missing_endpoints_are_named() {
    let err = bind_endpoints(&[]).unwrap_err();
    assert_eq!(err.kind, ErrorKind::RequestEndpoint);
    assert_eq!(err.message(), "request endpoint not found");
    let err = bind_endpoints(&[1]).unwrap_err();
    assert_eq!(err.kind, ErrorKind::ResponseEndpoint);
    assert_eq!(err.message(), "response endpoint not found");
    let err = bind_endpoints(&[1, 0x81]).unwrap_err();
    assert_eq!(err.kind, ErrorKind::EventEndpoint);
    assert_eq!(err.message(), "event endpoint not found");
}

#[test]
fn describe_request_addresses_the_interface() {
    assert_eq!(
        describe_resources(3),
        ControlIn {
            request: viking_io::request::DESCRIBE_RESOURCES,
            value: 0,
            index: 3,
            length: 4096,
        }
    );
    assert_eq!(DESCRIBE_LENGTH, 4096);
    assert_eq!(RESPONSE_LENGTH, 4096);
    assert_eq!(ALT_SETTING, 1);
}
