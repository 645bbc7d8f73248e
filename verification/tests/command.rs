use viking_io::cmd_delay;
use viking_io::command::{
    Command, PayloadPattern, ResponsePattern, ScalarResponse, SliceResponse,
    StaticResponsePattern, VarInt,
};

#[test]
fn unit_payload_is_empty() {
    assert_eq!(().bytes(), Vec::<u8>::new());
    assert_eq!(PayloadPattern::len(&()), 0);
    assert!(().is_encodable());
}

#[test]
fn byte_payload_is_one_byte() {
    assert_eq!(0xa5u8.bytes(), vec![0xa5]);
    assert_eq!(PayloadPattern::len(&0xa5u8), 1);
}

#[test]
fn sixteen_bit_payload_is_little_endian() {
    assert_eq!(0x1234u16.bytes(), vec![0x34, 0x12]);
    assert_eq!(PayloadPattern::len(&0x1234u16), 2);
    assert_eq!(0xff00u16.bytes(), vec![0x00, 0xff]);
}

#[test]
fn slice_payload_has_length_prefix() {
    let data: &[u8] = &[1, 2, 3];
    assert_eq!(data.bytes(), vec![3, 1, 2, 3]);
    assert_eq!(PayloadPattern::len(&data), 4);
    let empty: &[u8] = &[];
    assert_eq!(empty.bytes(), vec![0]);
    assert_eq!(PayloadPattern::len(&empty), 1);
}

#[test]
fn slice_payload_of_255_bytes_is_accepted() {
    let data = vec![7u8; 255];
    let slice: &[u8] = &data;
    assert!(slice.is_encodable());
    let bytes = slice.bytes();
    assert_eq!(bytes.len(), 256);
    assert_eq!(bytes[0], 255);
    assert_eq!(&bytes[1..], &data[..]);
}

#[test]
fn slice_payload_of_256_bytes_is_rejected() {
    let data = vec![7u8; 256];
    let slice: &[u8] = &data;
    assert!(!slice.is_encodable());
}

#[test]
fn command_byte_packs_resource_and_opcode() {
    for resource in [0u8, 1, 2, 31, 63] {
        for op in 0u8..4 {
            let cmd = Command::new(resource, op, (), ());
            assert_eq!(cmd.cmd_byte(), resource | (op << 6));
            assert_eq!(cmd.cmd_byte() & 0x3f, resource);
            assert_eq!(cmd.cmd_byte() >> 6, op);
        }
    }
}

#[test]
fn command_is_one_byte_and_its_payload() {
    let data: &[u8] = &[9, 8, 7, 6];
    let cmd = Command::new(5, 3, data, SliceResponse::new(4));
    let bytes = cmd.bytes();
    assert_eq!(bytes.len(), 1 + PayloadPattern::len(&data));
    assert_eq!(bytes, vec![0xc5, 4, 9, 8, 7, 6]);
    assert_eq!(cmd.payload_len(), 5);
    assert_eq!(cmd.response_len(), 4);

    let cmd = Command::new(1, 2, 0x42u8, ScalarResponse::<u8>::new());
    assert_eq!(cmd.bytes(), vec![0x81, 0x42]);
    assert_eq!(cmd.response_len(), 1);
}

#[test]
fn gpio_high_is_one_byte() {
    let cmd = Command::new(2, 3, (), ());
    assert_eq!(cmd.bytes(), vec![0xc2]);
}

#[test]
fn delay_carries_a_varint() {
    let cmd = cmd_delay(128);
    assert_eq!(cmd.bytes(), vec![0x00, 0x81, 0x00]);
    let cmd = cmd_delay(0);
    assert_eq!(cmd.bytes(), vec![0x00, 0x00]);
    let cmd = cmd_delay(u32::MAX);
    assert_eq!(cmd.bytes(), vec![0x00, 0x8f, 0xff, 0xff, 0xff, 0x7f]);
    assert_eq!(cmd.response_len(), 0);
}

#[test]
fn encoded_command_keeps_bytes_and_width() {
    let data: &[u8] = &[1, 2];
    let cmd = Command::new(4, 3, data, SliceResponse::new(2));
    let encoded = cmd.encode();
    assert_eq!(encoded.bytes(), &[0xc4, 2, 1, 2]);
    assert_eq!(encoded.len(), 4);
    assert_eq!(encoded.width(), 2);
}

#[test]
fn response_patterns_have_fixed_lengths() {
    assert_eq!(ResponsePattern::len(&()), 0);
    assert_eq!(ScalarResponse::<u8>::new().len(), 1);
    assert_eq!(SliceResponse::new(0).len(), 0);
    assert_eq!(SliceResponse::new(17).len(), 17);
}

#[test]
fn response_patterns_read_the_front_of_the_buffer() {
    let buf = [10u8, 20, 30, 40];
    assert_eq!(ScalarResponse::<u8>::new().output(&buf), 10);
    assert_eq!(ScalarResponse::<u8>::new().static_output(&buf), 10);
    assert_eq!(SliceResponse::new(3).output(&buf), &[10, 20, 30]);
    assert_eq!(SliceResponse::new(0).output(&buf), &[] as &[u8]);
    assert_eq!(().output(&buf), ());
    assert_eq!(().static_output(&buf), ());
}

#[test]
fn varint_payload_goes_through_the_command() {
    let cmd = Command::new(0, 0, VarInt(16384), ());
    assert_eq!(cmd.bytes(), vec![0x00, 0x81, 0x80, 0x00]);
}

#[test]
fn command_knows_whether_its_payload_has_a_wire_form() {
    let long = vec![0u8; 256];
    assert!(!Command::new(1, 3, &long[..], ()).is_encodable());
    assert!(Command::new(1, 3, &long[..255], ()).is_encodable());
    assert!(Command::new(1, 0, (), ()).is_encodable());
    assert!(Command::new(1, 0, VarInt(7), ()).is_encodable());
}
