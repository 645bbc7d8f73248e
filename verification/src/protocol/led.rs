//! Indicator lights.

use vstd::prelude::*;

verus! {

/// Protocol of a light that is on or off.
pub const BINARY_PROTOCOL: u16 = 0x0130;

/// Turns the light off.
pub const BINARY_CMD_OFF: u8 = 0;

/// Turns the light on.
pub const BINARY_CMD_ON: u8 = 1;

pub const COLOR_RED: u8 = 1;

pub const COLOR_GREEN: u8 = 2;

pub const COLOR_BLUE: u8 = 3;

pub const COLOR_WHITE: u8 = 4;

pub const COLOR_AMBER: u8 = 5;

pub const COLOR_YELLOW: u8 = 6;

pub const COLOR_ORANGE: u8 = 7;

pub const COLOR_PINK: u8 = 8;

pub const COLOR_PURPLE: u8 = 9;

pub const COLOR_INFRARED: u8 = 10;

pub const COLOR_ULTRAVIOLET: u8 = 11;

/// The name of each colour code.
pub open spec fn color_name(value: u8) -> Option<Seq<char>> {
    if value == COLOR_RED {
        Some("red"@)
    } else if value == COLOR_GREEN {
        Some("green"@)
    } else if value == COLOR_BLUE {
        Some("blue"@)
    } else if value == COLOR_WHITE {
        Some("white"@)
    } else if value == COLOR_AMBER {
        Some("amber"@)
    } else if value == COLOR_YELLOW {
        Some("yellow"@)
    } else if value == COLOR_ORANGE {
        Some("orange"@)
    } else if value == COLOR_PINK {
        Some("pink"@)
    } else if value == COLOR_PURPLE {
        Some("purple"@)
    } else if value == COLOR_INFRARED {
        Some("infrared"@)
    } else if value == COLOR_ULTRAVIOLET {
        Some("ultraviolet"@)
    } else {
        None
    }
}

/// The name of a colour code, for the codes that have one.
pub fn name(value: u8) -> (out: Option<&'static str>)
    ensures
        match out {
            Some(s) => color_name(value) == Some(s@),
            None => color_name(value) is None,
        },
{
    match value {
        1 => Some("red"),
        2 => Some("green"),
        3 => Some("blue"),
        4 => Some("white"),
        5 => Some("amber"),
        6 => Some("yellow"),
        7 => Some("orange"),
        8 => Some("pink"),
        9 => Some("purple"),
        10 => Some("infrared"),
        11 => Some("ultraviolet"),
        _ => None,
    }
}

} // verus!
