use viking_io::field::{ConstU16, Flags16, Flags8};
use viking_io::protocol;

#[test]
fn protocol_numbers() {
    assert_eq!(protocol::gpio::PIN_PROTOCOL, 0x0110);
    assert_eq!(protocol::gpio::LEVEL_INTERRUPT_PROTOCOL, 0x0120);
    assert_eq!(protocol::led::BINARY_PROTOCOL, 0x0130);
    assert_eq!(protocol::spi::CONTROLLER_PROTOCOL, 0x0200);
    assert_eq!(protocol::spi::SCK_PIN_PROTOCOL, 0x0210);
    assert_eq!(protocol::spi::SDO_PIN_PROTOCOL, 0x0211);
    assert_eq!(protocol::spi::SDI_PIN_PROTOCOL, 0x0212);
    assert_eq!(protocol::i2c::CONTROLLER_PROTOCOL, 0x0301);
    assert_eq!(protocol::i2c::SCL_PROTOCOL, 0x0310);
    assert_eq!(protocol::i2c::SDA_PROTOCOL, 0x0311);
}

#[test]
fn opcodes() {
    assert_eq!(protocol::CMD_DELAY, 0);
    assert_eq!(
        [
            protocol::gpio::PIN_CMD_FLOAT,
            protocol::gpio::PIN_CMD_READ,
            protocol::gpio::PIN_CMD_LOW,
            protocol::gpio::PIN_CMD_HIGH
        ],
        [0, 1, 2, 3]
    );
    assert_eq!(
        [protocol::led::BINARY_CMD_OFF, protocol::led::BINARY_CMD_ON],
        [0, 1]
    );
    assert_eq!(
        [
            protocol::i2c::CONTROLLER_CMD_START,
            protocol::i2c::CONTROLLER_CMD_STOP,
            protocol::i2c::CONTROLLER_CMD_READ,
            protocol::i2c::CONTROLLER_CMD_WRITE
        ],
        [0, 1, 2, 3]
    );
    assert_eq!(
        [
            protocol::spi::CONTROLLER_CMD_READ,
            protocol::spi::CONTROLLER_CMD_WRITE,
            protocol::spi::CONTROLLER_CMD_TRANSFER
        ],
        [1, 2, 3]
    );
}

#[test]
fn colour_names() {
    let names = [
        "red",
        "green",
        "blue",
        "white",
        "amber",
        "yellow",
        "orange",
        "pink",
        "purple",
        "infrared",
        "ultraviolet",
    ];
    for (i, name) in names.iter().enumerate() {
        assert_eq!(protocol::led::name(i as u8 + 1), Some(*name));
    }
    assert_eq!(protocol::led::name(0), None);
    assert_eq!(protocol::led::name(12), None);
    assert_eq!(protocol::led::name(255), None);
    assert_eq!(protocol::led::name(protocol::led::COLOR_AMBER), Some("amber"));
}

#[test]
fn flags_unite_and_intersect() {
    let pins = Flags16 {
        bits: protocol::i2c::MODE_PINS,
    };
    let stretch = Flags16 {
        bits: protocol::i2c::MODE_CLOCK_STRETCH,
    };
    let both = pins.union(stretch);
    assert_eq!(both.bits, 0x0003);
    assert!(both.contains(pins));
    assert!(both.contains(stretch));
    assert!(!pins.contains(stretch));
    assert!(!Flags16::empty().contains(both));
    assert!(!both.contains(Flags16::empty()));
    assert_eq!(Flags16::empty().union(pins), pins);

    let fast = Flags8 {
        bits: protocol::i2c::SPEEDS_FAST,
    };
    assert_eq!(fast.bits, 1 << protocol::i2c::SPEED_FAST);
    let high = Flags8 {
        bits: protocol::i2c::SPEEDS_HIGH,
    };
    assert_eq!(high.bits, 1 << protocol::i2c::SPEED_HIGH);
    assert_eq!(fast.union(high).bits, 0x14);
    assert!(fast.union(high).contains(high));
    assert!(!fast.contains(high));
    assert_eq!(Flags8::empty().bits, 0);
}

#[test]
fn fixed_field_holds_its_number() {
    let field = ConstU16::<0x0301>::new();
    assert_eq!(field.0, [0x01, 0x03]);
    assert!(field.valid());
    assert!(!ConstU16::<0x0301>([0x03, 0x01]).valid());
    assert!(ConstU16::<0x0200>([0x00, 0x02]).valid());
    assert!(ConstU16::<0>::new().valid());
    assert!(ConstU16::<0xffff>::new().valid());
}

#[test]
fn i2c_mode_description_layout() {
    let d = protocol::i2c::DescribeMode::from_bytes(&[0x81, 0x00, 0x06]).unwrap();
    assert_eq!(d.flags.bits, protocol::i2c::MODE_PINS | protocol::i2c::MODE_ZERO_LEN_READ);
    assert_eq!(d.speed.bits, protocol::i2c::SPEEDS_STANDARD | protocol::i2c::SPEEDS_FAST);
    assert_eq!(d.to_bytes(), vec![0x81, 0x00, 0x06]);
    assert_eq!(protocol::i2c::DescribeMode::from_bytes(&d.to_bytes()), Some(d));
    assert_eq!(protocol::i2c::DescribeMode::from_bytes(&[1, 2]), None);
    assert_eq!(protocol::i2c::DescribeMode::from_bytes(&[0x34, 0x12, 9, 9]).unwrap().flags.bits, 0x1234);

    let c = protocol::i2c::Config {
        speed: protocol::i2c::SPEED_FAST,
    };
    assert_eq!(c.to_bytes(), vec![2]);
    assert_eq!(protocol::i2c::Config::from_bytes(&[2]), Some(c));
    assert_eq!(protocol::i2c::Config::from_bytes(&[]), None);
}

#[test]
fn spi_mode_description_layout() {
    let bytes = [
        0x47, 0x00, 0x00, 0x6c, 0xdc, 0x02, 0x02, 0, 0, 0, 0x00, 0x01, 0, 0, 7,
    ];
    let d = protocol::spi::DescribeMode::from_bytes(&bytes).unwrap();
    assert_eq!(d.flags.bits, 0x0047);
    assert_eq!(d.base_clock, 48_000_000);
    assert_eq!(d.min_div, 2);
    assert_eq!(d.max_div, 256);
    assert_eq!(d.max_div_pow, 7);
    assert_eq!(d.to_bytes(), bytes.to_vec());
    assert_eq!(protocol::spi::DescribeMode::from_bytes(&bytes[..14]), None);

    let c = protocol::spi::Config {
        flags: Flags16 {
            bits: protocol::spi::CONFIG_CPOL | protocol::spi::CONFIG_LSB_FIRST,
        },
        clock_div: 0x01020304,
        div_pow: 3,
    };
    assert_eq!(c.to_bytes(), vec![0x05, 0x00, 0x04, 0x03, 0x02, 0x01, 3]);
    assert_eq!(protocol::spi::Config::from_bytes(&c.to_bytes()), Some(c));
    assert_eq!(protocol::spi::Config::from_bytes(&[0; 6]), None);
}
