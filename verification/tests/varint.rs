use viking_io::command::{PayloadPattern, VarInt};

fn check(value: u32, expected: &[u8]) {
    let v = VarInt(value);
    assert_eq!(v.bytes(), expected.to_vec());
    assert_eq!(v.len(), expected.len());
    assert!(v.is_encodable());
    assert_eq!(VarInt::decode(expected), Some((v, expected.len())));
}

#[test]
fn varint_vectors() {
    check(0, &[0x00]);
    check(127, &[0x7f]);
    check(128, &[0x81, 0x00]);
    check(16383, &[0xff, 0x7f]);
    check(16384, &[0x81, 0x80, 0x00]);
    check(268435455, &[0xff, 0xff, 0xff, 0x7f]);
    check(4294967295, &[0x8f, 0xff, 0xff, 0xff, 0x7f]);
}

#[test]
fn varint_round_trip_at_boundaries() {
    let values: [u32; 14] = [
        0,
        1,
        0x7f,
        0x80,
        0x3fff,
        0x4000,
        0x1f_ffff,
        0x20_0000,
        0x0fff_ffff,
        0x1000_0000,
        0x7fff_ffff,
        0x8000_0000,
        0xffff_fffe,
        0xffff_ffff,
    ];
    for v in values {
        let bytes = VarInt(v).bytes();
        assert_eq!(VarInt::decode(&bytes), Some((VarInt(v), bytes.len())));
        assert_eq!(VarInt(v).len(), bytes.len());
    }
}

#[test]
fn varint_length_by_magnitude() {
    assert_eq!(VarInt(0x7f).len(), 1);
    assert_eq!(VarInt(0x80).len(), 2);
    assert_eq!(VarInt(0x3fff).len(), 2);
    assert_eq!(VarInt(0x4000).len(), 3);
    assert_eq!(VarInt(0x1f_ffff).len(), 3);
    assert_eq!(VarInt(0x20_0000).len(), 4);
    assert_eq!(VarInt(0x0fff_ffff).len(), 4);
    assert_eq!(VarInt(0x1000_0000).len(), 5);
    assert_eq!(VarInt(u32::MAX).len(), 5);
}

#[test]
fn varint_encoding_is_minimal() {
    for v in [1u32, 127, 128, 300, 16384, 1 << 21, 1 << 28, u32::MAX] {
        let bytes = VarInt(v).bytes();
        let last = bytes.len() - 1;
        assert!(bytes[last] < 0x80);
        for b in &bytes[..last] {
            assert!(*b >= 0x80);
        }
        if bytes.len() > 1 {
            assert_ne!(bytes[0], 0x80);
        }
    }
}

#[test]
fn varint_decode_reads_only_its_own_bytes() {
    assert_eq!(VarInt::decode(&[0x81, 0x00, 0xff, 0x01]), Some((VarInt(128), 2)));
    assert_eq!(VarInt::decode(&[0x05, 0x81]), Some((VarInt(5), 1)));
}

#[test]
fn varint_decode_rejects_what_is_no_encoding() {
    // nothing there
    assert_eq!(VarInt::decode(&[]), None);
    // ends inside the integer
    assert_eq!(VarInt::decode(&[0x81]), None);
    assert_eq!(VarInt::decode(&[0xff, 0xff]), None);
    // empty first group
    assert_eq!(VarInt::decode(&[0x80, 0x01]), None);
    assert_eq!(VarInt::decode(&[0x80, 0x80, 0x00]), None);
    // does not fit in 32 bits
    assert_eq!(VarInt::decode(&[0x90, 0x80, 0x80, 0x80, 0x00]), None);
    assert_eq!(VarInt::decode(&[0x81, 0x80, 0x80, 0x80, 0x80, 0x00]), None);
}
