//! HID protocol of the Ajazz AK820 Pro keyboard: packet layouts, lighting
//! modes, directions, sleep timer values and the LCD image encoding.

use vstd::prelude::*;
use crate::text::{chars_of, fold_seq, folded_equals, lower_seq, lowered_equals};

verus! {

pub const VENDOR_ID: u16 = 0x0C45;
pub const PRODUCT_ID: u16 = 0x8009;

pub const PACKET_LENGTH: usize = 64;
pub const REPORT_ID: u8 = 0x04;

// Image upload constants
pub const IMAGE_CHUNK_SIZE: usize = 4123;
pub const IMAGE_NUM_CHUNKS: usize = 9;
pub const LCD_WIDTH: u32 = 128;
pub const LCD_HEIGHT: u32 = 128;
/// LCD_WIDTH * LCD_HEIGHT
pub const LCD_PIXELS: usize = 16384;
/// RGB565 = 2 bytes per pixel
pub const LCD_DATA_SIZE: usize = 32768;

// Command codes (byte 1 of control packets)
pub const CMD_START: u8 = 0x18;
pub const CMD_FINISH: u8 = 0xF0;
pub const CMD_MODE: u8 = 0x13;
pub const CMD_SLEEP: u8 = 0x17;
pub const CMD_IMAGE: u8 = 0x72;
pub const CMD_TIME: u8 = 0x28;
pub const CMD_SAVE: u8 = 0x02;

// Delimiter magic bytes
pub const DELIMITER_HI: u8 = 0xAA;
pub const DELIMITER_LO: u8 = 0x55;

pub const MAX_BRIGHTNESS: u8 = 5;
pub const MAX_SPEED: u8 = 5;

/// The 64 bytes of a control packet: report id, command, `byte2` at offset 2,
/// `byte8` at offset 8, zero elsewhere.
pub open spec fn control_packet_spec(command: u8, byte2: u8, byte8: u8) -> Seq<u8> {
    Seq::new(
        64,
        |i: int|
            if i == 0 {
                REPORT_ID
            } else if i == 1 {
                command
            } else if i == 2 {
                byte2
            } else if i == 8 {
                byte8
            } else {
                0u8
            },
    )
}

/// Build a 64-byte control packet: [report_id, command, b2, 0..0, b8]
fn control_packet(command: u8, byte2: u8, byte8: u8) -> (pkt: [u8; PACKET_LENGTH])
    ensures
        pkt@ == control_packet_spec(command, byte2, byte8),
{
    let mut pkt = [0u8; PACKET_LENGTH];
    pkt[0] = REPORT_ID;
    pkt[1] = command;
    pkt[2] = byte2;
    pkt[8] = byte8;
    assert(pkt@ =~= control_packet_spec(command, byte2, byte8));
    pkt
}

pub fn start_packet() -> (pkt: [u8; PACKET_LENGTH])
    ensures
        pkt@ == control_packet_spec(CMD_START, 0x00, 0x01),
{
    control_packet(CMD_START, 0x00, 0x01)
}

pub fn finish_packet() -> (pkt: [u8; PACKET_LENGTH])
    ensures
        pkt@ == control_packet_spec(CMD_FINISH, 0x00, 0x01),
{
    control_packet(CMD_FINISH, 0x00, 0x01)
}

pub fn mode_preamble_packet() -> (pkt: [u8; PACKET_LENGTH])
    ensures
        pkt@ == control_packet_spec(CMD_MODE, 0x00, 0x01),
{
    control_packet(CMD_MODE, 0x00, 0x01)
}

pub fn sleep_preamble_packet() -> (pkt: [u8; PACKET_LENGTH])
    ensures
        pkt@ == control_packet_spec(CMD_SLEEP, 0x01, 0x01),
{
    control_packet(CMD_SLEEP, 0x01, 0x01)
}

pub fn image_preamble_packet() -> (pkt: [u8; PACKET_LENGTH])
    ensures
        pkt@ == control_packet_spec(CMD_IMAGE, 0x02, 0x09),
{
    control_packet(CMD_IMAGE, 0x02, 0x09)
}

pub fn time_preamble_packet() -> (pkt: [u8; PACKET_LENGTH])
    ensures
        pkt@ == control_packet_spec(CMD_TIME, 0x00, 0x01),
{
    control_packet(CMD_TIME, 0x00, 0x01)
}

pub fn save_packet() -> (pkt: [u8; PACKET_LENGTH])
    ensures
        pkt@ == control_packet_spec(CMD_SAVE, 0x00, 0x00),
{
    control_packet(CMD_SAVE, 0x00, 0x00)
}


#[derive(Debug, Clone, Copy, PartialEq, Eq, Structural)]
pub enum LightingMode {
    Off,
    Static,
    SingleOn,
    SingleOff,
    Glittering,
    Falling,
    Colourful,
    Breath,
    Spectrum,
    Outward,
    Scrolling,
    Rolling,
    Rotating,
    Explode,
    Launch,
    Ripples,
    Flowing,
    Pulsating,
    Tilt,
    Shuttle,
}

/// The byte that stands for a mode in the mode data packet.
pub open spec fn mode_value(m: LightingMode) -> u8 {
    match m {
        LightingMode::Off => 0x00,
        LightingMode::Static => 0x01,
        LightingMode::SingleOn => 0x02,
        LightingMode::SingleOff => 0x03,
        LightingMode::Glittering => 0x04,
        LightingMode::Falling => 0x05,
        LightingMode::Colourful => 0x06,
        LightingMode::Breath => 0x07,
        LightingMode::Spectrum => 0x08,
        LightingMode::Outward => 0x09,
        LightingMode::Scrolling => 0x0A,
        LightingMode::Rolling => 0x0B,
        LightingMode::Rotating => 0x0C,
        LightingMode::Explode => 0x0D,
        LightingMode::Launch => 0x0E,
        LightingMode::Ripples => 0x0F,
        LightingMode::Flowing => 0x10,
        LightingMode::Pulsating => 0x11,
        LightingMode::Tilt => 0x12,
        LightingMode::Shuttle => 0x13,
    }
}

/// The mode whose value is `v` (for `v <= 0x13`).
pub open spec fn mode_of_value(v: u8) -> LightingMode {
    match v {
        0x00 => LightingMode::Off,
        0x01 => LightingMode::Static,
        0x02 => LightingMode::SingleOn,
        0x03 => LightingMode::SingleOff,
        0x04 => LightingMode::Glittering,
        0x05 => LightingMode::Falling,
        0x06 => LightingMode::Colourful,
        0x07 => LightingMode::Breath,
        0x08 => LightingMode::Spectrum,
        0x09 => LightingMode::Outward,
        0x0A => LightingMode::Scrolling,
        0x0B => LightingMode::Rolling,
        0x0C => LightingMode::Rotating,
        0x0D => LightingMode::Explode,
        0x0E => LightingMode::Launch,
        0x0F => LightingMode::Ripples,
        0x10 => LightingMode::Flowing,
        0x11 => LightingMode::Pulsating,
        0x12 => LightingMode::Tilt,
        _ => LightingMode::Shuttle,
    }
}

/// The name of a mode, as shown to users.
pub open spec fn mode_name(m: LightingMode) -> Seq<char> {
    match m {
        LightingMode::Off => "off"@,
        LightingMode::Static => "static"@,
        LightingMode::SingleOn => "single-on"@,
        LightingMode::SingleOff => "single-off"@,
        LightingMode::Glittering => "glittering"@,
        LightingMode::Falling => "falling"@,
        LightingMode::Colourful => "colourful"@,
        LightingMode::Breath => "breath"@,
        LightingMode::Spectrum => "spectrum"@,
        LightingMode::Outward => "outward"@,
        LightingMode::Scrolling => "scrolling"@,
        LightingMode::Rolling => "rolling"@,
        LightingMode::Rotating => "rotating"@,
        LightingMode::Explode => "explode"@,
        LightingMode::Launch => "launch"@,
        LightingMode::Ripples => "ripples"@,
        LightingMode::Flowing => "flowing"@,
        LightingMode::Pulsating => "pulsating"@,
        LightingMode::Tilt => "tilt"@,
        LightingMode::Shuttle => "shuttle"@,
    }
}

/// The modes, in the order of their values.
pub open spec fn all_modes() -> Seq<LightingMode> {
    Seq::new(20, |i: int| mode_of_value(i as u8))
}

/// `s` names mode `m`, ignoring ASCII case.
pub open spec fn names_mode(s: Seq<char>, m: LightingMode) -> bool {
    fold_seq(s) == fold_seq(mode_name(m))
}

/// The first mode, in the order of their values from `v` on, that `s` names.
pub open spec fn first_mode_named(s: Seq<char>, v: int) -> Option<LightingMode>
    decreases 20 - v,
{
    if v < 0 || v >= 20 {
        None
    } else if names_mode(s, mode_of_value(v as u8)) {
        Some(mode_of_value(v as u8))
    } else {
        first_mode_named(s, v + 1)
    }
}

/// The directions that a mode supports.
pub open spec fn mode_directions(m: LightingMode) -> Seq<Direction> {
    match m {
        LightingMode::Scrolling => seq![Direction::Up, Direction::Down],
        LightingMode::Rolling | LightingMode::Flowing | LightingMode::Tilt => seq![
            Direction::Left,
            Direction::Right,
        ],
        _ => seq![],
    }
}

impl LightingMode {
    /// Every mode, in the order of their values.
    pub fn all() -> (v: Vec<LightingMode>)
        ensures
            v@ == all_modes(),
    {
        let mut v: Vec<LightingMode> = Vec::new();
        let mut i: u8 = 0;
        while i < 20
            invariant
                i <= 20,
                v@ == all_modes().take(i as int),
            decreases 20 - i,
        {
            let m = Self::from_value(i);
            v.push(m);
            i = i + 1;
            assert(v@ =~= all_modes().take(i as int));
        }
        assert(all_modes().take(20) =~= all_modes());
        v
    }

    /// The byte that stands for this mode in the mode data packet.
    pub fn value(&self) -> (v: u8)
        ensures
            v == mode_value(*self),
    {
        match self {
            LightingMode::Off => 0x00,
            LightingMode::Static => 0x01,
            LightingMode::SingleOn => 0x02,
            LightingMode::SingleOff => 0x03,
            LightingMode::Glittering => 0x04,
            LightingMode::Falling => 0x05,
            LightingMode::Colourful => 0x06,
            LightingMode::Breath => 0x07,
            LightingMode::Spectrum => 0x08,
            LightingMode::Outward => 0x09,
            LightingMode::Scrolling => 0x0A,
            LightingMode::Rolling => 0x0B,
            LightingMode::Rotating => 0x0C,
            LightingMode::Explode => 0x0D,
            LightingMode::Launch => 0x0E,
            LightingMode::Ripples => 0x0F,
            LightingMode::Flowing => 0x10,
            LightingMode::Pulsating => 0x11,
            LightingMode::Tilt => 0x12,
            LightingMode::Shuttle => 0x13,
        }
    }

    fn from_value(v: u8) -> (m: LightingMode)
        ensures
            m == mode_of_value(v),
    {
        match v {
            0x00 => LightingMode::Off,
            0x01 => LightingMode::Static,
            0x02 => LightingMode::SingleOn,
            0x03 => LightingMode::SingleOff,
            0x04 => LightingMode::Glittering,
            0x05 => LightingMode::Falling,
            0x06 => LightingMode::Colourful,
            0x07 => LightingMode::Breath,
            0x08 => LightingMode::Spectrum,
            0x09 => LightingMode::Outward,
            0x0A => LightingMode::Scrolling,
            0x0B => LightingMode::Rolling,
            0x0C => LightingMode::Rotating,
            0x0D => LightingMode::Explode,
            0x0E => LightingMode::Launch,
            0x0F => LightingMode::Ripples,
            0x10 => LightingMode::Flowing,
            0x11 => LightingMode::Pulsating,
            0x12 => LightingMode::Tilt,
            _ => LightingMode::Shuttle,
        }
    }

    pub fn name(&self) -> (s: &'static str)
        ensures
            s@ == mode_name(*self),
    {
        match self {
            LightingMode::Off => "off",
            LightingMode::Static => "static",
            LightingMode::SingleOn => "single-on",
            LightingMode::SingleOff => "single-off",
            LightingMode::Glittering => "glittering",
            LightingMode::Falling => "falling",
            LightingMode::Colourful => "colourful",
            LightingMode::Breath => "breath",
            LightingMode::Spectrum => "spectrum",
            LightingMode::Outward => "outward",
            LightingMode::Scrolling => "scrolling",
            LightingMode::Rolling => "rolling",
            LightingMode::Rotating => "rotating",
            LightingMode::Explode => "explode",
            LightingMode::Launch => "launch",
            LightingMode::Ripples => "ripples",
            LightingMode::Flowing => "flowing",
            LightingMode::Pulsating => "pulsating",
            LightingMode::Tilt => "tilt",
            LightingMode::Shuttle => "shuttle",
        }
    }

    /// The first mode, in the order of their values, whose name equals
    /// `name` up to ASCII case.
    pub fn from_name(name: &str) -> (r: Option<Self>)
        ensures
            r == first_mode_named(name@, 0),
    {
        let s = chars_of(name);
        let mut v: u8 = 0;
        while v < 20
            invariant
                v <= 20,
                s@ == name@,
                first_mode_named(name@, 0) == first_mode_named(name@, v as int),
            decreases 20 - v,
        {
            let m = Self::from_value(v);
            if folded_equals(&s, m.name()) {
                return Some(m);
            }
            v = v + 1;
        }
        None
    }

    /// The mode whose value is `idx`, if there is one.
    pub fn from_index(idx: u8) -> (r: Option<Self>)
        ensures
            r == (if idx <= 0x13 {
                Some(mode_of_value(idx))
            } else {
                None::<LightingMode>
            }),
    {
        if idx <= 0x13 {
            Some(Self::from_value(idx))
        } else {
            None
        }
    }

    /// Which directions this mode supports, if any.
    pub fn supported_directions(&self) -> (d: Vec<Direction>)
        ensures
            d@ == mode_directions(*self),
    {
        match self {
            LightingMode::Scrolling => vec![Direction::Up, Direction::Down],
            LightingMode::Rolling | LightingMode::Flowing | LightingMode::Tilt => vec![
                Direction::Left,
                Direction::Right,
            ],
            _ => Vec::new(),
        }
    }
}

#[derive(Debug, Clone, Copy, PartialEq, Eq, Structural)]
pub enum Direction {
    Left,
    Down,
    Up,
    Right,
}

/// The byte that stands for a direction in the mode data packet.
pub open spec fn direction_value(d: Direction) -> u8 {
    match d {
        Direction::Left => 0,
        Direction::Down => 1,
        Direction::Up => 2,
        Direction::Right => 3,
    }
}

/// The direction that a command-line word names, ignoring case.
pub open spec fn direction_named(s: Seq<char>) -> Option<Direction> {
    let t = lower_seq(s);
    if t == "left"@ || t == "l"@ {
        Some(Direction::Left)
    } else if t == "down"@ || t == "d"@ {
        Some(Direction::Down)
    } else if t == "up"@ || t == "u"@ {
        Some(Direction::Up)
    } else if t == "right"@ || t == "r"@ {
        Some(Direction::Right)
    } else {
        None
    }
}

impl Direction {
    /// The byte that stands for this direction in the mode data packet.
    pub fn value(&self) -> (v: u8)
        ensures
            v == direction_value(*self),
    {
        match self {
            Direction::Left => 0,
            Direction::Down => 1,
            Direction::Up => 2,
            Direction::Right => 3,
        }
    }

    pub fn from_name(name: &str) -> (r: Option<Self>)
        ensures
            r == direction_named(name@),
    {
        proof {
            reveal_strlit("left");
            reveal_strlit("l");
            reveal_strlit("down");
            reveal_strlit("d");
            reveal_strlit("up");
            reveal_strlit("u");
            reveal_strlit("right");
            reveal_strlit("r");
            assert(lower_seq("left"@) =~= "left"@);
            assert(lower_seq("l"@) =~= "l"@);
            assert(lower_seq("down"@) =~= "down"@);
            assert(lower_seq("d"@) =~= "d"@);
            assert(lower_seq("up"@) =~= "up"@);
            assert(lower_seq("u"@) =~= "u"@);
            assert(lower_seq("right"@) =~= "right"@);
            assert(lower_seq("r"@) =~= "r"@);
        }
        let s = chars_of(name);
        if lowered_equals(&s, "left") || lowered_equals(&s, "l") {
            Some(Direction::Left)
        } else if lowered_equals(&s, "down") || lowered_equals(&s, "d") {
            Some(Direction::Down)
        } else if lowered_equals(&s, "up") || lowered_equals(&s, "u") {
            Some(Direction::Up)
        } else if lowered_equals(&s, "right") || lowered_equals(&s, "r") {
            Some(Direction::Right)
        } else {
            None
        }
    }
}

#[derive(Debug, Clone, Copy, PartialEq, Eq, Structural)]
pub enum SleepTime {
    Never,
    OneMinute,
    FiveMinutes,
    ThirtyMinutes,
}

/// The byte that stands for a sleep time in the sleep data packet.
pub open spec fn sleep_value(t: SleepTime) -> u8 {
    match t {
        SleepTime::Never => 0,
        SleepTime::OneMinute => 1,
        SleepTime::FiveMinutes => 2,
        SleepTime::ThirtyMinutes => 3,
    }
}

/// The sleep time that a command-line word names, ignoring case.
pub open spec fn sleep_time_named(s: Seq<char>) -> Option<SleepTime> {
    let t = lower_seq(s);
    if t == "never"@ || t == "off"@ || t == "0"@ {
        Some(SleepTime::Never)
    } else if t == "1"@ || t == "1m"@ || t == "1min"@ {
        Some(SleepTime::OneMinute)
    } else if t == "5"@ || t == "5m"@ || t == "5min"@ {
        Some(SleepTime::FiveMinutes)
    } else if t == "30"@ || t == "30m"@ || t == "30min"@ {
        Some(SleepTime::ThirtyMinutes)
    } else {
        None
    }
}

impl SleepTime {
    /// The byte that stands for this sleep time in the sleep data packet.
    pub fn value(&self) -> (v: u8)
        ensures
            v == sleep_value(*self),
    {
        match self {
            SleepTime::Never => 0,
            SleepTime::OneMinute => 1,
            SleepTime::FiveMinutes => 2,
            SleepTime::ThirtyMinutes => 3,
        }
    }

    pub fn from_name(name: &str) -> (r: Option<Self>)
        ensures
            r == sleep_time_named(name@),
    {
        proof {
            reveal_strlit("never");
            reveal_strlit("off");
            reveal_strlit("0");
            reveal_strlit("1");
            reveal_strlit("1m");
            reveal_strlit("1min");
            reveal_strlit("5");
            reveal_strlit("5m");
            reveal_strlit("5min");
            reveal_strlit("30");
            reveal_strlit("30m");
            reveal_strlit("30min");
            assert(lower_seq("never"@) =~= "never"@);
            assert(lower_seq("off"@) =~= "off"@);
            assert(lower_seq("0"@) =~= "0"@);
            assert(lower_seq("1"@) =~= "1"@);
            assert(lower_seq("1m"@) =~= "1m"@);
            assert(lower_seq("1min"@) =~= "1min"@);
            assert(lower_seq("5"@) =~= "5"@);
            assert(lower_seq("5m"@) =~= "5m"@);
            assert(lower_seq("5min"@) =~= "5min"@);
            assert(lower_seq("30"@) =~= "30"@);
            assert(lower_seq("30m"@) =~= "30m"@);
            assert(lower_seq("30min"@) =~= "30min"@);
        }
        let s = chars_of(name);
        if lowered_equals(&s, "never") || lowered_equals(&s, "off") || lowered_equals(&s, "0") {
            Some(SleepTime::Never)
        } else if lowered_equals(&s, "1") || lowered_equals(&s, "1m") || lowered_equals(
            &s,
            "1min",
        ) {
            Some(SleepTime::OneMinute)
        } else if lowered_equals(&s, "5") || lowered_equals(&s, "5m") || lowered_equals(
            &s,
            "5min",
        ) {
            Some(SleepTime::FiveMinutes)
        } else if lowered_equals(&s, "30") || lowered_equals(&s, "30m") || lowered_equals(
            &s,
            "30min",
        ) {
            Some(SleepTime::ThirtyMinutes)
        } else {
            None
        }
    }
}

pub open spec fn min_u8(a: u8, b: u8) -> u8 {
    if a <= b {
        a
    } else {
        b
    }
}

/// The 64 bytes of the mode data packet: the mode value (sent as the report
/// id), the colour, the rainbow flag, brightness and speed capped at 5, the
/// direction, and the delimiter 0x55 0xAA at offsets 14 and 15.
pub open spec fn mode_data_packet_spec(
    mode: LightingMode,
    r: u8,
    g: u8,
    b: u8,
    rainbow: bool,
    brightness: u8,
    speed: u8,
    direction: Direction,
) -> Seq<u8> {
    Seq::new(
        64,
        |i: int|
            if i == 0 {
                mode_value(mode)
            } else if i == 1 {
                r
            } else if i == 2 {
                g
            } else if i == 3 {
                b
            } else if i == 8 {
                if rainbow {
                    1u8
                } else {
                    0u8
                }
            } else if i == 9 {
                min_u8(brightness, MAX_BRIGHTNESS)
            } else if i == 10 {
                min_u8(speed, MAX_SPEED)
            } else if i == 11 {
                direction_value(direction)
            } else if i == 14 {
                DELIMITER_LO
            } else if i == 15 {
                DELIMITER_HI
            } else {
                0u8
            },
    )
}

/// Build the 64-byte mode data packet.
/// Note: byte 0 is the mode value itself, which hidapi sends as the report ID.
pub fn mode_data_packet(
    mode: LightingMode,
    r: u8,
    g: u8,
    b: u8,
    rainbow: bool,
    brightness: u8,
    speed: u8,
    direction: Direction,
) -> (pkt: [u8; PACKET_LENGTH])
    ensures
        pkt@ == mode_data_packet_spec(mode, r, g, b, rainbow, brightness, speed, direction),
{
    let mut pkt = [0u8; PACKET_LENGTH];
    pkt[0] = mode.value();  // report ID = mode value
    pkt[1] = r;
    pkt[2] = g;
    pkt[3] = b;
    // bytes 4-7: padding (zero)
    pkt[8] = if rainbow {
        1
    } else {
        0
    };
    pkt[9] = if brightness <= MAX_BRIGHTNESS {
        brightness
    } else {
        MAX_BRIGHTNESS
    };
    pkt[10] = if speed <= MAX_SPEED {
        speed
    } else {
        MAX_SPEED
    };
    pkt[11] = direction.value();
    // bytes 12-13: padding
    pkt[14] = DELIMITER_LO;  // 0x55 (little-endian 0xAA55)
    pkt[15] = DELIMITER_HI;  // 0xAA
    assert(pkt@ =~= mode_data_packet_spec(mode, r, g, b, rainbow, brightness, speed, direction));
    pkt
}

/// The RGB565 value of an RGB888 colour: the top 5 bits of red, 6 of green
/// and 5 of blue.
pub open spec fn rgb565_value(r: u8, g: u8, b: u8) -> int {
    (r as int / 8) * 2048 + (g as int / 4) * 32 + (b as int / 8)
}

/// Encode an RGB888 pixel to RGB565 (little-endian bytes).
/// RGB565: 5 bits red, 6 bits green, 5 bits blue.
pub fn rgb565_encode(r: u8, g: u8, b: u8) -> (bytes: [u8; 2])
    ensures
        bytes@ == seq![(rgb565_value(r, g, b) % 256) as u8, (rgb565_value(r, g, b) / 256) as u8],
{
    let r5 = (r >> 3) as u16;
    let g6 = (g >> 2) as u16;
    let b5 = (b >> 3) as u16;
    let pixel = (r5 << 11) | (g6 << 5) | b5;
    assert(pixel == (r as int / 8) * 2048 + (g as int / 4) * 32 + (b as int / 8)) by (bit_vector)
        requires
            r5 == (r >> 3) as u16,
            g6 == (g >> 2) as u16,
            b5 == (b >> 3) as u16,
            pixel == (r5 << 11) | (g6 << 5) | b5,
    ;
    let lo = (pixel & 0xff) as u8;
    let hi = (pixel >> 8) as u8;
    assert(lo == pixel % 256 && hi == pixel / 256) by (bit_vector)
        requires
            lo == (pixel & 0xff) as u8,
            hi == (pixel >> 8) as u8,
    ;
    let bytes = [lo, hi];
    assert(bytes@ =~= seq![(rgb565_value(r, g, b) % 256) as u8, (rgb565_value(r, g, b) / 256) as u8]);
    bytes
}

/// Byte `k` of the image stream: the image data, padded with 0xFF.
pub open spec fn image_stream_byte(data: Seq<u8>, k: int) -> u8 {
    if k < data.len() {
        data[k]
    } else {
        0xFFu8
    }
}

/// Split image data into IMAGE_NUM_CHUNKS chunks of IMAGE_CHUNK_SIZE bytes,
/// padded with 0xFF.
pub fn split_image_data(data: &[u8]) -> (chunks: Vec<Vec<u8>>)
    ensures
        chunks.len() == IMAGE_NUM_CHUNKS,
        forall|i: int| 0 <= i < IMAGE_NUM_CHUNKS ==> #[trigger] chunks@[i].len() == IMAGE_CHUNK_SIZE,
        forall|i: int, j: int|
            0 <= i < IMAGE_NUM_CHUNKS && 0 <= j < IMAGE_CHUNK_SIZE ==> #[trigger] chunks@[i]@[j]
                == image_stream_byte(data@, i * IMAGE_CHUNK_SIZE + j),
{
    let mut chunks: Vec<Vec<u8>> = Vec::new();
    let mut i: usize = 0;
    while i < IMAGE_NUM_CHUNKS
        invariant
            i <= IMAGE_NUM_CHUNKS,
            chunks.len() == i,
            forall|a: int| 0 <= a < i ==> #[trigger] chunks@[a].len() == IMAGE_CHUNK_SIZE,
            forall|a: int, j: int|
                0 <= a < i && 0 <= j < IMAGE_CHUNK_SIZE ==> #[trigger] chunks@[a]@[j]
                    == image_stream_byte(data@, a * IMAGE_CHUNK_SIZE + j),
        decreases IMAGE_NUM_CHUNKS - i,
    {
        let start = i * IMAGE_CHUNK_SIZE;
        let mut chunk: Vec<u8> = Vec::new();
        let mut j: usize = 0;
        while j < IMAGE_CHUNK_SIZE
            invariant
                i < IMAGE_NUM_CHUNKS,
                start == i * IMAGE_CHUNK_SIZE,
                j <= IMAGE_CHUNK_SIZE,
                chunk.len() == j,
                forall|k: int|
                    0 <= k < j ==> #[trigger] chunk@[k] == image_stream_byte(data@, start + k),
            decreases IMAGE_CHUNK_SIZE - j,
        {
            let byte = if start + j < data.len() {
                data[start + j]
            } else {
                0xFFu8
            };
            chunk.push(byte);
            j = j + 1;
        }
        chunks.push(chunk);
        i = i + 1;
    }
    chunks
}

/// The 64 bytes of the time data packet: report id 0, 0x01, the magic
/// 0x5A, the year since 2000 (0 before 2000, taken modulo 256), month, day,
/// hour, minute, second, 0x00, 0x04, and the delimiter 0xAA 0x55 at the end.
pub open spec fn time_data_packet_spec(
    year: u16,
    month: u8,
    day: u8,
    hour: u8,
    minute: u8,
    second: u8,
) -> Seq<u8> {
    Seq::new(
        64,
        |i: int|
            if i == 1 {
                0x01u8
            } else if i == 2 {
                0x5Au8
            } else if i == 3 {
                ((if year >= 2000 {
                    year - 2000
                } else {
                    0
                }) % 256) as u8
            } else if i == 4 {
                month
            } else if i == 5 {
                day
            } else if i == 6 {
                hour
            } else if i == 7 {
                minute
            } else if i == 8 {
                second
            } else if i == 10 {
                0x04u8
            } else if i == 62 {
                DELIMITER_HI
            } else if i == 63 {
                DELIMITER_LO
            } else {
                0u8
            },
    )
}

/// Build the 64-byte time data packet.
/// Report ID is 0x00 (not 0x04), with magic byte 0x5A.
pub fn time_data_packet(
    year: u16,
    month: u8,
    day: u8,
    hour: u8,
    minute: u8,
    second: u8,
) -> (pkt: [u8; PACKET_LENGTH])
    ensures
        pkt@ == time_data_packet_spec(year, month, day, hour, minute, second),
{
    let mut pkt = [0u8; PACKET_LENGTH];
    let years = year.saturating_sub(2000);
    pkt[0] = 0x00;  // report ID
    pkt[1] = 0x01;  // fixed
    pkt[2] = 0x5A;  // magic marker
    pkt[3] = (years % 256) as u8;
    pkt[4] = month;
    pkt[5] = day;
    pkt[6] = hour;
    pkt[7] = minute;
    pkt[8] = second;
    pkt[9] = 0x00;
    pkt[10] = 0x04;  // fixed
    pkt[PACKET_LENGTH - 2] = DELIMITER_HI;  // 0xAA at byte 62
    pkt[PACKET_LENGTH - 1] = DELIMITER_LO;  // 0x55 at byte 63
    assert(pkt@ =~= time_data_packet_spec(year, month, day, hour, minute, second));
    pkt
}

/// The 64 bytes of the sleep data packet: the sleep value at offset 8 and
/// the delimiter 0xAA 0x55 at the end.
pub open spec fn sleep_data_packet_spec(sleep_time: SleepTime) -> Seq<u8> {
    Seq::new(
        64,
        |i: int|
            if i == 8 {
                sleep_value(sleep_time)
            } else if i == 62 {
                DELIMITER_HI
            } else if i == 63 {
                DELIMITER_LO
            } else {
                0u8
            },
    )
}

/// Build the 64-byte sleep data packet.
pub fn sleep_data_packet(sleep_time: SleepTime) -> (pkt: [u8; PACKET_LENGTH])
    ensures
        pkt@ == sleep_data_packet_spec(sleep_time),
{
    let mut pkt = [0u8; PACKET_LENGTH];
    pkt[8] = sleep_time.value();
    pkt[PACKET_LENGTH - 2] = DELIMITER_HI;  // 0xAA at byte 62
    pkt[PACKET_LENGTH - 1] = DELIMITER_LO;  // 0x55 at byte 63
    assert(pkt@ =~= sleep_data_packet_spec(sleep_time));
    pkt
}

/// Every mode name is lowercase ASCII.
pub proof fn lemma_mode_names_lowercase(m: LightingMode)
    ensures
        fold_seq(mode_name(m)) == mode_name(m),
{
    reveal_strlit("off");
    reveal_strlit("static");
    reveal_strlit("single-on");
    reveal_strlit("single-off");
    reveal_strlit("glittering");
    reveal_strlit("falling");
    reveal_strlit("colourful");
    reveal_strlit("breath");
    reveal_strlit("spectrum");
    reveal_strlit("outward");
    reveal_strlit("scrolling");
    reveal_strlit("rolling");
    reveal_strlit("rotating");
    reveal_strlit("explode");
    reveal_strlit("launch");
    reveal_strlit("ripples");
    reveal_strlit("flowing");
    reveal_strlit("pulsating");
    reveal_strlit("tilt");
    reveal_strlit("shuttle");
    assert(fold_seq(mode_name(m)) =~= mode_name(m));
}

/// Different modes have different names.
pub proof fn lemma_mode_names_distinct(m1: LightingMode, m2: LightingMode)
    requires
        m1 != m2,
    ensures
        mode_name(m1) != mode_name(m2),
{
    reveal_strlit("off");
    reveal_strlit("static");
    reveal_strlit("single-on");
    reveal_strlit("single-off");
    reveal_strlit("glittering");
    reveal_strlit("falling");
    reveal_strlit("colourful");
    reveal_strlit("breath");
    reveal_strlit("spectrum");
    reveal_strlit("outward");
    reveal_strlit("scrolling");
    reveal_strlit("rolling");
    reveal_strlit("rotating");
    reveal_strlit("explode");
    reveal_strlit("launch");
    reveal_strlit("ripples");
    reveal_strlit("flowing");
    reveal_strlit("pulsating");
    reveal_strlit("tilt");
    reveal_strlit("shuttle");
    if mode_name(m1) == mode_name(m2) {
        let a = mode_name(m1);
        let b = mode_name(m2);
        assert(a.len() == b.len() && a[0] == b[0] && a[1] == b[1]);
    }
}

/// Looking up the name of a mode finds that mode: `from_name(m.name()) == Some(m)`.
pub proof fn lemma_from_name_of_name(m: LightingMode)
    ensures
        first_mode_named(mode_name(m), 0) == Some(m),
{
    reveal_strlit("off");
    reveal_strlit("static");
    reveal_strlit("single-on");
    reveal_strlit("single-off");
    reveal_strlit("glittering");
    reveal_strlit("falling");
    reveal_strlit("colourful");
    reveal_strlit("breath");
    reveal_strlit("spectrum");
    reveal_strlit("outward");
    reveal_strlit("scrolling");
    reveal_strlit("rolling");
    reveal_strlit("rotating");
    reveal_strlit("explode");
    reveal_strlit("launch");
    reveal_strlit("ripples");
    reveal_strlit("flowing");
    reveal_strlit("pulsating");
    reveal_strlit("tilt");
    reveal_strlit("shuttle");
    reveal_with_fuel(first_mode_named, 21);
    lemma_mode_names_lowercase(m);
    assert forall|v: u8| v < mode_value(m) implies !names_mode(mode_name(m), #[trigger] mode_of_value(v)) by {
        lemma_mode_names_lowercase(mode_of_value(v));
        lemma_mode_names_distinct(mode_of_value(v), m);
    }
}

/// Looking up a mode by its value finds that mode:
/// `from_index(m.value()) == Some(m)`, and the value of the mode found for
/// `idx` is `idx`.
pub proof fn lemma_from_index_of_value(m: LightingMode, idx: u8)
    ensures
        mode_value(m) <= 0x13,
        mode_of_value(mode_value(m)) == m,
        idx <= 0x13 ==> mode_value(mode_of_value(idx)) == idx,
{
}

/// Mode names are matched without regard to ASCII case: a name and its
/// ASCII-lowercase form find the same mode.
pub proof fn lemma_from_name_ignores_case(s: Seq<char>)
    ensures
        first_mode_named(fold_seq(s), 0) == first_mode_named(s, 0),
{
    assert(fold_seq(fold_seq(s)) =~= fold_seq(s));
    assert forall|v: int| 0 <= v <= 20 implies first_mode_named(fold_seq(s), v)
        == first_mode_named(s, v) by {
        lemma_first_mode_named_same(fold_seq(s), s, v);
    }
}

proof fn lemma_first_mode_named_same(s: Seq<char>, t: Seq<char>, v: int)
    requires
        fold_seq(s) == fold_seq(t),
    ensures
        first_mode_named(s, v) == first_mode_named(t, v),
    decreases 20 - v,
{
    if 0 <= v < 20 {
        lemma_first_mode_named_same(s, t, v + 1);
    }
}

/// The RGB565 encoding keeps the top 5 bits of red, the top 6 of green and
/// the top 5 of blue, in that order from the most significant bit, in a
/// little-endian 16-bit word.
pub proof fn lemma_rgb565_channels(r: u8, g: u8, b: u8)
    ensures
        0 <= rgb565_value(r, g, b) < 65536,
        rgb565_value(r, g, b) / 2048 == r as int / 8,
        (rgb565_value(r, g, b) / 32) % 64 == g as int / 4,
        rgb565_value(r, g, b) % 32 == b as int / 8,
        (rgb565_value(r, g, b) % 256) + 256 * (rgb565_value(r, g, b) / 256) == rgb565_value(r, g, b),
{
    let v = rgb565_value(r, g, b);
    let r5 = r as int / 8;
    let g6 = g as int / 4;
    let b5 = b as int / 8;
    assert(0 <= r5 < 32 && 0 <= g6 < 64 && 0 <= b5 < 32);
    assert(v == r5 * 2048 + g6 * 32 + b5);
    assert(v / 2048 == r5) by (nonlinear_arith)
        requires
            v == r5 * 2048 + g6 * 32 + b5,
            0 <= g6 < 64,
            0 <= b5 < 32,
            0 <= r5,
    ;
    assert(v / 32 == r5 * 64 + g6) by (nonlinear_arith)
        requires
            v == r5 * 2048 + g6 * 32 + b5,
            0 <= b5 < 32,
            0 <= r5,
            0 <= g6,
    ;
    assert((r5 * 64 + g6) % 64 == g6) by (nonlinear_arith)
        requires
            0 <= g6 < 64,
            0 <= r5,
    ;
    assert(v % 32 == b5) by (nonlinear_arith)
        requires
            v == r5 * 2048 + g6 * 32 + b5,
            0 <= b5 < 32,
            0 <= r5,
            0 <= g6,
    ;
}

/// Splitting the image and reading the chunks one after another gives back
/// the image data, padded with 0xFF up to IMAGE_NUM_CHUNKS * IMAGE_CHUNK_SIZE
/// bytes: byte `k` of that stream is byte `k % IMAGE_CHUNK_SIZE` of chunk
/// `k / IMAGE_CHUNK_SIZE`.
pub proof fn lemma_split_image_concatenates(data: Seq<u8>, chunks: Seq<Seq<u8>>, k: int)
    requires
        chunks.len() == IMAGE_NUM_CHUNKS,
        forall|i: int, j: int|
            0 <= i < IMAGE_NUM_CHUNKS && 0 <= j < IMAGE_CHUNK_SIZE ==> #[trigger] chunks[i][j]
                == image_stream_byte(data, i * IMAGE_CHUNK_SIZE + j),
        0 <= k < IMAGE_NUM_CHUNKS * IMAGE_CHUNK_SIZE,
    ensures
        0 <= k / (IMAGE_CHUNK_SIZE as int) < IMAGE_NUM_CHUNKS,
        chunks[k / (IMAGE_CHUNK_SIZE as int)][k % (IMAGE_CHUNK_SIZE as int)] == image_stream_byte(
            data,
            k,
        ),
        k < data.len() ==> chunks[k / (IMAGE_CHUNK_SIZE as int)][k % (IMAGE_CHUNK_SIZE as int)]
            == data[k],
{
    let c = IMAGE_CHUNK_SIZE as int;
    let i = k / c;
    let j = k % c;
    assert(k == i * c + j && 0 <= j < c && 0 <= i < 9) by (nonlinear_arith)
        requires
            c == 4123,
            i == k / c,
            j == k % c,
            0 <= k < 9 * 4123,
    ;
}

/// The time packet: report id 0, the fixed bytes 0x01 0x5A, the year as its
/// offset from 2000 (for the years 2000 to 2255 byte 3 is `year - 2000`;
/// earlier years give 0), then month, day, hour, minute and second unchanged
/// in bytes 4 to 8, 0x00 0x04, zeros, and 0xAA 0x55 at the end.
pub proof fn lemma_time_packet_bytes(year: u16, month: u8, day: u8, hour: u8, minute: u8, second: u8)
    ensures
        2000 <= year < 2256 ==> time_data_packet_spec(year, month, day, hour, minute, second)[3]
            == year - 2000,
        year < 2000 ==> time_data_packet_spec(year, month, day, hour, minute, second)[3] == 0,
        time_data_packet_spec(year, month, day, hour, minute, second).len() == 64,
        time_data_packet_spec(year, month, day, hour, minute, second)[0] == 0x00,
        time_data_packet_spec(year, month, day, hour, minute, second)[1] == 0x01,
        time_data_packet_spec(year, month, day, hour, minute, second)[2] == 0x5A,
        time_data_packet_spec(year, month, day, hour, minute, second)[4] == month,
        time_data_packet_spec(year, month, day, hour, minute, second)[5] == day,
        time_data_packet_spec(year, month, day, hour, minute, second)[6] == hour,
        time_data_packet_spec(year, month, day, hour, minute, second)[7] == minute,
        time_data_packet_spec(year, month, day, hour, minute, second)[8] == second,
        time_data_packet_spec(year, month, day, hour, minute, second)[9] == 0x00,
        time_data_packet_spec(year, month, day, hour, minute, second)[10] == 0x04,
        time_data_packet_spec(year, month, day, hour, minute, second)[62] == 0xAA,
        time_data_packet_spec(year, month, day, hour, minute, second)[63] == 0x55,
        forall|i: int|
            11 <= i < 62 ==> #[trigger] time_data_packet_spec(
                year,
                month,
                day,
                hour,
                minute,
                second,
            )[i] == 0,
{
}

/// Brightness and speed in a mode data packet never exceed their maxima, and
/// values within range are sent unchanged.
pub proof fn lemma_mode_packet_levels(
    mode: LightingMode,
    r: u8,
    g: u8,
    b: u8,
    rainbow: bool,
    brightness: u8,
    speed: u8,
    direction: Direction,
)
    ensures
        mode_data_packet_spec(mode, r, g, b, rainbow, brightness, speed, direction)[9]
            <= MAX_BRIGHTNESS,
        mode_data_packet_spec(mode, r, g, b, rainbow, brightness, speed, direction)[10]
            <= MAX_SPEED,
        brightness <= MAX_BRIGHTNESS ==> mode_data_packet_spec(
            mode,
            r,
            g,
            b,
            rainbow,
            brightness,
            speed,
            direction,
        )[9] == brightness,
        speed <= MAX_SPEED ==> mode_data_packet_spec(
            mode,
            r,
            g,
            b,
            rainbow,
            brightness,
            speed,
            direction,
        )[10] == speed,
{
}

/// `LightingMode::all()` lists each of the twenty modes once, at the place of
/// its value.
pub proof fn lemma_all_modes_once(m: LightingMode)
    ensures
        all_modes().len() == 20,
        all_modes()[mode_value(m) as int] == m,
        forall|i: int, j: int| 0 <= i < j < 20 ==> all_modes()[i] != all_modes()[j],
{
    assert forall|i: int, j: int| 0 <= i < j < 20 implies all_modes()[i] != all_modes()[j] by {
        assert(mode_value(mode_of_value(i as u8)) == i);
        assert(mode_value(mode_of_value(j as u8)) == j);
    }
}

proof fn lemma_lower_seq_idempotent(s: Seq<char>)
    ensures
        lower_seq(lower_seq(s)) == lower_seq(s),
{
    assert(lower_seq(lower_seq(s)) =~= lower_seq(s));
}

/// Direction and sleep-time words are matched without regard to case: a word
/// and its lowercase form name the same direction and the same sleep time.
pub proof fn lemma_names_ignore_case(s: Seq<char>)
    ensures
        direction_named(lower_seq(s)) == direction_named(s),
        sleep_time_named(lower_seq(s)) == sleep_time_named(s),
{
    lemma_lower_seq_idempotent(s);
}

/// The lighting modes and their bytes, as the protocol fixes them: off 0x00,
/// static 0x01, single-on 0x02, ... rolling 0x0B, rotating 0x0C, ... shuttle
/// 0x13; the value of a mode is its place in this list.
pub proof fn lemma_mode_table()
    ensures
        mode_value(LightingMode::Off) == 0x00 && mode_name(LightingMode::Off) == "off"@,
        mode_value(LightingMode::Static) == 0x01 && mode_name(LightingMode::Static) == "static"@,
        mode_value(LightingMode::SingleOn) == 0x02 && mode_name(LightingMode::SingleOn) == "single-on"@,
        mode_value(LightingMode::SingleOff) == 0x03 && mode_name(LightingMode::SingleOff) == "single-off"@,
        mode_value(LightingMode::Glittering) == 0x04 && mode_name(LightingMode::Glittering) == "glittering"@,
        mode_value(LightingMode::Falling) == 0x05 && mode_name(LightingMode::Falling) == "falling"@,
        mode_value(LightingMode::Colourful) == 0x06 && mode_name(LightingMode::Colourful) == "colourful"@,
        mode_value(LightingMode::Breath) == 0x07 && mode_name(LightingMode::Breath) == "breath"@,
        mode_value(LightingMode::Spectrum) == 0x08 && mode_name(LightingMode::Spectrum) == "spectrum"@,
        mode_value(LightingMode::Outward) == 0x09 && mode_name(LightingMode::Outward) == "outward"@,
        mode_value(LightingMode::Scrolling) == 0x0A && mode_name(LightingMode::Scrolling) == "scrolling"@,
        mode_value(LightingMode::Rolling) == 0x0B && mode_name(LightingMode::Rolling) == "rolling"@,
        mode_value(LightingMode::Rotating) == 0x0C && mode_name(LightingMode::Rotating) == "rotating"@,
        mode_value(LightingMode::Explode) == 0x0D && mode_name(LightingMode::Explode) == "explode"@,
        mode_value(LightingMode::Launch) == 0x0E && mode_name(LightingMode::Launch) == "launch"@,
        mode_value(LightingMode::Ripples) == 0x0F && mode_name(LightingMode::Ripples) == "ripples"@,
        mode_value(LightingMode::Flowing) == 0x10 && mode_name(LightingMode::Flowing) == "flowing"@,
        mode_value(LightingMode::Pulsating) == 0x11 && mode_name(LightingMode::Pulsating) == "pulsating"@,
        mode_value(LightingMode::Tilt) == 0x12 && mode_name(LightingMode::Tilt) == "tilt"@,
        mode_value(LightingMode::Shuttle) == 0x13 && mode_name(LightingMode::Shuttle) == "shuttle"@,
{
}

/// Each direction is named by its full name and its initial, in any case
/// (left/l, down/d, up/u, right/r), no other word names a direction, and the
/// directions are sent as the bytes 0 (left), 1 (down), 2 (up), 3 (right).
pub proof fn lemma_direction_words(s: Seq<char>)
    ensures
        lower_seq(s) == "left"@ ==> direction_named(s) == Some(Direction::Left),
        lower_seq(s) == "l"@ ==> direction_named(s) == Some(Direction::Left),
        lower_seq(s) == "down"@ ==> direction_named(s) == Some(Direction::Down),
        lower_seq(s) == "d"@ ==> direction_named(s) == Some(Direction::Down),
        lower_seq(s) == "up"@ ==> direction_named(s) == Some(Direction::Up),
        lower_seq(s) == "u"@ ==> direction_named(s) == Some(Direction::Up),
        lower_seq(s) == "right"@ ==> direction_named(s) == Some(Direction::Right),
        lower_seq(s) == "r"@ ==> direction_named(s) == Some(Direction::Right),
        direction_named(s) is Some ==> lower_seq(s) == "left"@ || lower_seq(s) == "l"@ || lower_seq(s) == "down"@ || lower_seq(s) == "d"@ || lower_seq(s) == "up"@ || lower_seq(s) == "u"@ || lower_seq(s) == "right"@ || lower_seq(s) == "r"@,
        direction_value(Direction::Left) == 0,
        direction_value(Direction::Down) == 1,
        direction_value(Direction::Up) == 2,
        direction_value(Direction::Right) == 3,
{
    reveal_strlit("left");
    reveal_strlit("l");
    reveal_strlit("down");
    reveal_strlit("d");
    reveal_strlit("up");
    reveal_strlit("u");
    reveal_strlit("right");
    reveal_strlit("r");
    assert("left"@.len() != "l"@.len());
    assert("left"@[0] != "down"@[0]);
    assert("left"@.len() != "d"@.len());
    assert("left"@.len() != "up"@.len());
    assert("left"@.len() != "u"@.len());
    assert("left"@.len() != "right"@.len());
    assert("left"@.len() != "r"@.len());
    assert("l"@.len() != "down"@.len());
    assert("l"@[0] != "d"@[0]);
    assert("l"@.len() != "up"@.len());
    assert("l"@[0] != "u"@[0]);
    assert("l"@.len() != "right"@.len());
    assert("l"@[0] != "r"@[0]);
    assert("down"@.len() != "d"@.len());
    assert("down"@.len() != "up"@.len());
    assert("down"@.len() != "u"@.len());
    assert("down"@.len() != "right"@.len());
    assert("down"@.len() != "r"@.len());
    assert("d"@.len() != "up"@.len());
    assert("d"@[0] != "u"@[0]);
    assert("d"@.len() != "right"@.len());
    assert("d"@[0] != "r"@[0]);
    assert("up"@.len() != "u"@.len());
    assert("up"@.len() != "right"@.len());
    assert("up"@.len() != "r"@.len());
    assert("u"@.len() != "right"@.len());
    assert("u"@[0] != "r"@[0]);
    assert("right"@.len() != "r"@.len());
}

/// Each sleep word names its time, in any case: never/off/0, 1/1m/1min,
/// 5/5m/5min, 30/30m/30min; no other word names one; the times are sent as
/// the bytes 0 (never), 1 (one minute), 2 (five), 3 (thirty).
pub proof fn lemma_sleep_words(s: Seq<char>)
    ensures
        lower_seq(s) == "never"@ ==> sleep_time_named(s) == Some(SleepTime::Never),
        lower_seq(s) == "off"@ ==> sleep_time_named(s) == Some(SleepTime::Never),
        lower_seq(s) == "0"@ ==> sleep_time_named(s) == Some(SleepTime::Never),
        lower_seq(s) == "1"@ ==> sleep_time_named(s) == Some(SleepTime::OneMinute),
        lower_seq(s) == "1m"@ ==> sleep_time_named(s) == Some(SleepTime::OneMinute),
        lower_seq(s) == "1min"@ ==> sleep_time_named(s) == Some(SleepTime::OneMinute),
        lower_seq(s) == "5"@ ==> sleep_time_named(s) == Some(SleepTime::FiveMinutes),
        lower_seq(s) == "5m"@ ==> sleep_time_named(s) == Some(SleepTime::FiveMinutes),
        lower_seq(s) == "5min"@ ==> sleep_time_named(s) == Some(SleepTime::FiveMinutes),
        lower_seq(s) == "30"@ ==> sleep_time_named(s) == Some(SleepTime::ThirtyMinutes),
        lower_seq(s) == "30m"@ ==> sleep_time_named(s) == Some(SleepTime::ThirtyMinutes),
        lower_seq(s) == "30min"@ ==> sleep_time_named(s) == Some(SleepTime::ThirtyMinutes),
        sleep_time_named(s) is Some ==> lower_seq(s) == "never"@ || lower_seq(s) == "off"@ || lower_seq(s) == "0"@ || lower_seq(s) == "1"@ || lower_seq(s) == "1m"@ || lower_seq(s) == "1min"@ || lower_seq(s) == "5"@ || lower_seq(s) == "5m"@ || lower_seq(s) == "5min"@ || lower_seq(s) == "30"@ || lower_seq(s) == "30m"@ || lower_seq(s) == "30min"@,
        sleep_value(SleepTime::Never) == 0,
        sleep_value(SleepTime::OneMinute) == 1,
        sleep_value(SleepTime::FiveMinutes) == 2,
        sleep_value(SleepTime::ThirtyMinutes) == 3,
{
    reveal_strlit("never");
    reveal_strlit("off");
    reveal_strlit("0");
    reveal_strlit("1");
    reveal_strlit("1m");
    reveal_strlit("1min");
    reveal_strlit("5");
    reveal_strlit("5m");
    reveal_strlit("5min");
    reveal_strlit("30");
    reveal_strlit("30m");
    reveal_strlit("30min");
    assert("never"@.len() != "off"@.len());
    assert("never"@.len() != "0"@.len());
    assert("never"@.len() != "1"@.len());
    assert("never"@.len() != "1m"@.len());
    assert("never"@.len() != "1min"@.len());
    assert("never"@.len() != "5"@.len());
    assert("never"@.len() != "5m"@.len());
    assert("never"@.len() != "5min"@.len());
    assert("never"@.len() != "30"@.len());
    assert("never"@.len() != "30m"@.len());
    assert("never"@[0] != "30min"@[0]);
    assert("off"@.len() != "0"@.len());
    assert("off"@.len() != "1"@.len());
    assert("off"@.len() != "1m"@.len());
    assert("off"@.len() != "1min"@.len());
    assert("off"@.len() != "5"@.len());
    assert("off"@.len() != "5m"@.len());
    assert("off"@.len() != "5min"@.len());
    assert("off"@.len() != "30"@.len());
    assert("off"@[0] != "30m"@[0]);
    assert("off"@.len() != "30min"@.len());
    assert("0"@[0] != "1"@[0]);
    assert("0"@.len() != "1m"@.len());
    assert("0"@.len() != "1min"@.len());
    assert("0"@[0] != "5"@[0]);
    assert("0"@.len() != "5m"@.len());
    assert("0"@.len() != "5min"@.len());
    assert("0"@.len() != "30"@.len());
    assert("0"@.len() != "30m"@.len());
    assert("0"@.len() != "30min"@.len());
    assert("1"@.len() != "1m"@.len());
    assert("1"@.len() != "1min"@.len());
    assert("1"@[0] != "5"@[0]);
    assert("1"@.len() != "5m"@.len());
    assert("1"@.len() != "5min"@.len());
    assert("1"@.len() != "30"@.len());
    assert("1"@.len() != "30m"@.len());
    assert("1"@.len() != "30min"@.len());
    assert("1m"@.len() != "1min"@.len());
    assert("1m"@.len() != "5"@.len());
    assert("1m"@[0] != "5m"@[0]);
    assert("1m"@.len() != "5min"@.len());
    assert("1m"@[0] != "30"@[0]);
    assert("1m"@.len() != "30m"@.len());
    assert("1m"@.len() != "30min"@.len());
    assert("1min"@.len() != "5"@.len());
    assert("1min"@.len() != "5m"@.len());
    assert("1min"@[0] != "5min"@[0]);
    assert("1min"@.len() != "30"@.len());
    assert("1min"@.len() != "30m"@.len());
    assert("1min"@.len() != "30min"@.len());
    assert("5"@.len() != "5m"@.len());
    assert("5"@.len() != "5min"@.len());
    assert("5"@.len() != "30"@.len());
    assert("5"@.len() != "30m"@.len());
    assert("5"@.len() != "30min"@.len());
    assert("5m"@.len() != "5min"@.len());
    assert("5m"@[0] != "30"@[0]);
    assert("5m"@.len() != "30m"@.len());
    assert("5m"@.len() != "30min"@.len());
    assert("5min"@.len() != "30"@.len());
    assert("5min"@.len() != "30m"@.len());
    assert("5min"@.len() != "30min"@.len());
    assert("30"@.len() != "30m"@.len());
    assert("30"@.len() != "30min"@.len());
    assert("30m"@.len() != "30min"@.len());
}

/// The mode data packet: the mode's byte, red, green, blue, the rainbow flag
/// (1 or 0), brightness and speed capped at 5, the direction's byte, and 0x55
/// 0xAA at offsets 14 and 15; every other byte is zero.
pub proof fn lemma_mode_packet_bytes(
    mode: LightingMode,
    r: u8,
    g: u8,
    b: u8,
    rainbow: bool,
    brightness: u8,
    speed: u8,
    direction: Direction,
)
    ensures
        mode_data_packet_spec(mode, r, g, b, rainbow, brightness, speed, direction).len() == 64,
        mode_data_packet_spec(mode, r, g, b, rainbow, brightness, speed, direction)[0]
            == mode_value(mode),
        mode_data_packet_spec(mode, r, g, b, rainbow, brightness, speed, direction)[1] == r,
        mode_data_packet_spec(mode, r, g, b, rainbow, brightness, speed, direction)[2] == g,
        mode_data_packet_spec(mode, r, g, b, rainbow, brightness, speed, direction)[3] == b,
        mode_data_packet_spec(mode, r, g, b, rainbow, brightness, speed, direction)[8] == (if rainbow {
            1u8
        } else {
            0u8
        }),
        mode_data_packet_spec(mode, r, g, b, rainbow, brightness, speed, direction)[9] == (if brightness <= 5 {
            brightness
        } else {
            5u8
        }),
        mode_data_packet_spec(mode, r, g, b, rainbow, brightness, speed, direction)[10] == (if speed <= 5 {
            speed
        } else {
            5u8
        }),
        mode_data_packet_spec(mode, r, g, b, rainbow, brightness, speed, direction)[11]
            == direction_value(direction),
        mode_data_packet_spec(mode, r, g, b, rainbow, brightness, speed, direction)[14] == 0x55,
        mode_data_packet_spec(mode, r, g, b, rainbow, brightness, speed, direction)[15] == 0xAA,
        forall|i: int|
            (4 <= i < 8 || 12 <= i < 14 || 16 <= i < 64) ==> #[trigger] mode_data_packet_spec(
                mode,
                r,
                g,
                b,
                rainbow,
                brightness,
                speed,
                direction,
            )[i] == 0,
{
}

/// The sleep data packet: the sleep time's byte at offset 8, 0xAA 0x55 at the
/// end, zeros elsewhere.
pub proof fn lemma_sleep_packet_bytes(t: SleepTime)
    ensures
        sleep_data_packet_spec(t).len() == 64,
        sleep_data_packet_spec(t)[8] == sleep_value(t),
        sleep_data_packet_spec(t)[62] == 0xAA,
        sleep_data_packet_spec(t)[63] == 0x55,
        forall|i: int|
            (0 <= i < 8 || 9 <= i < 62) ==> #[trigger] sleep_data_packet_spec(t)[i] == 0,
{
}

/// The control packets as the protocol fixes them: report id 0x04, then the
/// command (start 0x18, finish 0xF0, mode 0x13, sleep 0x17, image 0x72, time
/// 0x28, save 0x02), the bytes at offsets 2 and 8, and zeros elsewhere.
pub proof fn lemma_control_packet_table()
    ensures
        control_packet_spec(CMD_START, 0x00, 0x01) == control_packet_spec(0x18, 0x00, 0x01),
        control_packet_spec(CMD_FINISH, 0x00, 0x01) == control_packet_spec(0xF0, 0x00, 0x01),
        control_packet_spec(CMD_MODE, 0x00, 0x01) == control_packet_spec(0x13, 0x00, 0x01),
        control_packet_spec(CMD_SLEEP, 0x01, 0x01) == control_packet_spec(0x17, 0x01, 0x01),
        control_packet_spec(CMD_IMAGE, 0x02, 0x09) == control_packet_spec(0x72, 0x02, 0x09),
        control_packet_spec(CMD_TIME, 0x00, 0x01) == control_packet_spec(0x28, 0x00, 0x01),
        control_packet_spec(CMD_SAVE, 0x00, 0x00) == control_packet_spec(0x02, 0x00, 0x00),
        forall|c: u8, b2: u8, b8: u8| #[trigger] control_packet_spec(c, b2, b8).len() == 64,
        forall|c: u8, b2: u8, b8: u8|
            #![trigger control_packet_spec(c, b2, b8)]
            control_packet_spec(c, b2, b8)[0] == 0x04 && control_packet_spec(c, b2, b8)[1] == c
                && control_packet_spec(c, b2, b8)[2] == b2 && control_packet_spec(c, b2, b8)[8]
                == b8,
        forall|c: u8, b2: u8, b8: u8, i: int|
            (3 <= i < 8 || 9 <= i < 64) ==> #[trigger] control_packet_spec(c, b2, b8)[i] == 0,
{
}

/// Scrolling runs up or down; rolling, flowing and tilt run left or right;
/// no other mode takes a direction.
pub proof fn lemma_mode_direction_table(m: LightingMode)
    ensures
        mode_directions(LightingMode::Scrolling) == seq![Direction::Up, Direction::Down],
        mode_directions(LightingMode::Rolling) == seq![Direction::Left, Direction::Right],
        mode_directions(LightingMode::Flowing) == seq![Direction::Left, Direction::Right],
        mode_directions(LightingMode::Tilt) == seq![Direction::Left, Direction::Right],
        m != LightingMode::Scrolling && m != LightingMode::Rolling && m != LightingMode::Flowing
            && m != LightingMode::Tilt ==> mode_directions(m).len() == 0,
{
}

} // verus!
