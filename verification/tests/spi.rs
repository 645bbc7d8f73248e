use viking_io::gpio::Gpio;
use viking_io::queue::Planned;
use viking_io::spi::{Controller, Device, Operation};
use viking_io::{Interface, ProtocolError, RequestError};

fn record(kind: u8, body: &[u8]) -> Vec<u8> {
    let mut out = vec![(body.len() + 2) as u8, kind];
    out.extend_from_slice(body);
    out
}

fn rig() -> (Controller, Gpio) {
    let mut d = Vec::new();
    d.extend(record(0x42, &[]));
    d.extend(record(0x41, b"cs"));
    d.extend(record(0x43, &[0x10, 0x01]));
    d.extend(record(0x42, &[]));
    d.extend(record(0x41, b"spi"));
    d.extend(record(0x43, &[0x00, 0x02]));
    let mut interface = Interface::from_descriptor(&d).unwrap();
    let spi = interface.resource("spi").unwrap();
    let spi = spi
        .as_mode::<Controller>(&mut interface)
        .unwrap()
        .enabled(&mut interface, Ok(()))
        .unwrap();
    let cs = interface.resource("cs").unwrap();
    let cs = cs.as_mode::<Gpio>(&mut interface).unwrap().enabled(&mut interface, Ok(())).unwrap();
    (spi, cs)
}

fn bytes(plan: &[Planned]) -> Vec<Vec<u8>> {
    plan.iter().map(|p| p.command.bytes().to_vec()).collect()
}

fn widths(plan: &[Planned]) -> Vec<usize> {
    plan.iter().map(|p| p.command.width()).collect()
}

fn dests(plan: &[Planned]) -> Vec<Option<(usize, usize)>> {
    plan.iter()
        .map(|p| p.dest.map(|d| (d.buffer, d.offset)))
        .collect()
}

#[test]
fn transfer_command() {
    let (spi, _) = rig();
    assert_eq!(spi.id(), 2);
    let cmd = spi.cmd_transfer(&[1, 2, 3]);
    assert_eq!(cmd.bytes(), vec![0xc2, 3, 1, 2, 3]);
    assert_eq!(cmd.response_len(), 3);
    let cmd = spi.cmd_transfer(&[]);
    assert_eq!(cmd.bytes(), vec![0xc2, 0]);
    assert_eq!(cmd.response_len(), 0);
}

#[test]
fn write_discards_what_comes_back() {
    let (spi, _) = rig();
    let plan = spi.write(&[1, 2, 3, 4]);
    assert_eq!(bytes(&plan), vec![vec![0xc2, 4, 1, 2, 3, 4]]);
    assert_eq!(widths(&plan), vec![4]);
    assert_eq!(dests(&plan), vec![None]);
    assert!(spi.write(&[]).is_empty());
}

#[test]
fn read_sends_zeros() {
    let (spi, _) = rig();
    let plan = spi.read(3);
    assert_eq!(bytes(&plan), vec![vec![0xc2, 3, 0, 0, 0]]);
    assert_eq!(widths(&plan), vec![3]);
    assert_eq!(dests(&plan), vec![Some((0, 0))]);
    assert!(spi.read(0).is_empty());

    let plan = spi.read(256);
    assert_eq!(plan.len(), 2);
    assert_eq!(plan[0].command.bytes().len(), 257);
    assert_eq!(&plan[0].command.bytes()[..2], &[0xc2, 255]);
    assert!(plan[0].command.bytes()[2..].iter().all(|b| *b == 0));
    assert_eq!(plan[1].command.bytes(), &[0xc2, 1, 0]);
    assert_eq!(dests(&plan), vec![Some((0, 0)), Some((0, 255))]);
}

#[test]
fn transfer_reads_into_the_buffer() {
    let (spi, _) = rig();
    let data: Vec<u8> = (0..=255u8).chain(0..44u8).collect();
    assert_eq!(data.len(), 300);
    let plan = spi.transfer(300, &data);
    assert_eq!(plan.len(), 2);
    assert_eq!(&plan[0].command.bytes()[..2], &[0xc2, 255]);
    assert_eq!(&plan[0].command.bytes()[2..], &data[..255]);
    assert_eq!(&plan[1].command.bytes()[..2], &[0xc2, 45]);
    assert_eq!(&plan[1].command.bytes()[2..], &data[255..]);
    assert_eq!(widths(&plan), vec![255, 45]);
    assert_eq!(dests(&plan), vec![Some((0, 0)), Some((0, 255))]);
    assert_eq!(spi.transfer_in_place(&data), plan);
}

#[test]
fn device_transaction_frames_with_chip_select() {
    let (spi, cs) = rig();
    let device = Device::new(&spi, &cs);
    let plan = device.transaction(&[]);
    assert_eq!(bytes(&plan), vec![vec![0x81], vec![0xc1]]);

    let tx = [0x07u8, 0x00];
    let plan = device.transaction(&[Operation::Transfer(2, &tx)]);
    assert_eq!(
        bytes(&plan),
        vec![vec![0x81], vec![0xc2, 2, 0x07, 0x00], vec![0xc1]]
    );
    assert_eq!(widths(&plan), vec![0, 2, 0]);
    assert_eq!(dests(&plan), vec![None, Some((0, 0)), None]);
}

#[test]
fn device_transaction_keeps_the_order_of_operations() {
    let (spi, cs) = rig();
    let device = Device::new(&spi, &cs);
    let cmd = [0x61u8];
    let buf = [9u8, 8];
    let plan = device.transaction(&[
        Operation::Write(&cmd),
        Operation::DelayNs(1500),
        Operation::Read(3),
        Operation::TransferInPlace(&buf),
        Operation::DelayNs(0),
        Operation::Transfer(1, &cmd),
    ]);
    assert_eq!(
        bytes(&plan),
        vec![
            vec![0x81],
            vec![0xc2, 1, 0x61],
            vec![0x00, 0x02],
            vec![0xc2, 3, 0, 0, 0],
            vec![0xc2, 2, 9, 8],
            vec![0x00, 0x00],
            vec![0xc2, 1, 0x61],
            vec![0xc1],
        ]
    );
    assert_eq!(
        dests(&plan),
        vec![
            None,
            None,
            None,
            Some((2, 0)),
            Some((3, 0)),
            None,
            Some((5, 0)),
            None
        ]
    );
}

#[test]
fn delay_is_rounded_up_to_microseconds() {
    let (spi, cs) = rig();
    let device = Device::new(&spi, &cs);
    let cases: [(u32, Vec<u8>); 8] = [
        (0, vec![0x00]),
        (1, vec![0x01]),
        (999, vec![0x01]),
        (1000, vec![0x01]),
        (1001, vec![0x02]),
        (127_000, vec![0x7f]),
        (127_001, vec![0x81, 0x00]),
        (u32::MAX, vec![0x82, 0x86, 0x92, 0x38]),
    ];
    for (ns, varint) in cases {
        let plan = device.transaction(&[Operation::DelayNs(ns)]);
        assert_eq!(plan.len(), 3);
        let mut expected = vec![0x00];
        expected.extend_from_slice(&varint);
        assert_eq!(plan[1].command.bytes(), &expected[..]);
        assert_eq!(plan[1].command.width(), 0);
    }
}

#[test]
fn device_reads_are_chunked_per_operation() {
    let (spi, cs) = rig();
    let device = Device::new(&spi, &cs);
    let plan = device.transaction(&[Operation::Read(256), Operation::Read(1)]);
    assert_eq!(widths(&plan), vec![0, 255, 1, 1, 0]);
    assert_eq!(
        dests(&plan),
        vec![None, Some((0, 0)), Some((0, 255)), Some((1, 0)), None]
    );
}

#[test]
fn spi_error_wraps_the_request_error() {
    let e: viking_io::spi::Error = RequestError::Protocol(ProtocolError::TooShort).into();
    assert_eq!(e.source, RequestError::Protocol(ProtocolError::TooShort));
}
