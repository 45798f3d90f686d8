//! The decisions of the command-line tool: reading a hex colour, checking the
//! arguments of the `light` command, the test images of `lcd-test`, and when
//! the LCD loop gives up.

use vstd::prelude::*;
use crate::protocol::{
    first_mode_named, mode_name, lemma_from_name_of_name, mode_of_value, rgb565_encode, rgb565_value, Direction, LightingMode,
    direction_named, LCD_DATA_SIZE, LCD_HEIGHT, LCD_PIXELS, LCD_WIDTH, MAX_BRIGHTNESS, MAX_SPEED,
};
use crate::text::{parse_integer, parse_u8, same_text};
use vstd::string::StringSliceAdditionalSpecFns;

verus! {

/// The bytes of `b` after its leading `#` (0x23) bytes. A `#` byte in UTF-8
/// text is always the character `#`, so this is `trim_start_matches('#')`.
pub open spec fn strip_hashes(b: Seq<u8>) -> Seq<u8>
    decreases b.len(),
{
    if b.len() > 0 && b[0] == 0x23 {
        strip_hashes(b.drop_first())
    } else {
        b
    }
}

/// The value of an ASCII hexadecimal digit, either case.
pub open spec fn hex_digit_value(c: u8) -> Option<int> {
    if 0x30 <= c <= 0x39 {
        Some(c - 0x30)
    } else if 0x61 <= c <= 0x66 {
        Some(c - 0x61 + 10)
    } else if 0x41 <= c <= 0x46 {
        Some(c - 0x41 + 10)
    } else {
        None
    }
}

/// The value of the two hexadecimal digits `a b`, if both are digits.
pub open spec fn hex_pair(a: u8, b: u8) -> Option<u8> {
    match (hex_digit_value(a), hex_digit_value(b)) {
        (Some(x), Some(y)) => Some((16 * x + y) as u8),
        _ => None,
    }
}

#[derive(Debug, Clone, Copy, PartialEq, Eq, Structural)]
pub enum HexColorError {
    /// Color must be 6 hex digits (e.g., ff0000)
    WrongLength,
    /// Not all six are hexadecimal digits (ASCII `0-9`, `a-f`, `A-F`).
    InvalidDigit,
}

/// The colour that a hex colour argument gives, from its UTF-8 bytes: after
/// any leading `#`, exactly six hexadecimal digits, read as three pairs; any
/// other text is refused (a non-ASCII character is never a digit).
pub open spec fn hex_color_of(b: Seq<u8>) -> Result<(u8, u8, u8), HexColorError> {
    let t = strip_hashes(b);
    if t.len() != 6 {
        Err(HexColorError::WrongLength)
    } else {
        match (hex_pair(t[0], t[1]), hex_pair(t[2], t[3]), hex_pair(t[4], t[5])) {
            (Some(r), Some(g), Some(b)) => Ok((r, g, b)),
            _ => Err(HexColorError::InvalidDigit),
        }
    }
}

fn hex_digit(c: u8) -> (r: Option<u8>)
    ensures
        r matches Some(v) ==> hex_digit_value(c) == Some(v as int),
        r is None ==> hex_digit_value(c) is None,
{
    if 0x30 <= c && c <= 0x39 {
        Some(c - 0x30)
    } else if 0x61 <= c && c <= 0x66 {
        Some(c - 0x61 + 10)
    } else if 0x41 <= c && c <= 0x46 {
        Some(c - 0x41 + 10)
    } else {
        None
    }
}

fn parse_hex_pair(a: u8, b: u8) -> (r: Option<u8>)
    ensures
        r == hex_pair(a, b),
{
    match (hex_digit(a), hex_digit(b)) {
        (Some(x), Some(y)) => Some(16 * x + y),
        _ => None,
    }
}

/// Read a colour given as six hexadecimal digits, after any number of `#`.
pub fn parse_hex_color(s: &str) -> (r: Result<(u8, u8, u8), HexColorError>)
    ensures
        r == hex_color_of(s.spec_bytes()),
{
    let bytes = s.as_bytes();
    let mut start: usize = 0;
    assert(bytes@.subrange(0, bytes@.len() as int) =~= bytes@);
    while start < bytes.len() && bytes[start] == 0x23
        invariant
            start <= bytes@.len(),
            strip_hashes(bytes@) == strip_hashes(bytes@.subrange(start as int, bytes@.len() as int)),
        decreases bytes.len() - start,
    {
        assert(bytes@.subrange(start as int, bytes@.len() as int).drop_first() =~= bytes@.subrange(
            start + 1,
            bytes@.len() as int,
        ));
        start = start + 1;
    }
    let ghost t = bytes@.subrange(start as int, bytes@.len() as int);
    assert(strip_hashes(t) == t);
    if bytes.len() - start != 6 {
        return Err(HexColorError::WrongLength);
    }
    let r = parse_hex_pair(bytes[start], bytes[start + 1]);
    let g = parse_hex_pair(bytes[start + 2], bytes[start + 3]);
    let b = parse_hex_pair(bytes[start + 4], bytes[start + 5]);
    match (r, g, b) {
        (Some(r), Some(g), Some(b)) => Ok((r, g, b)),
        _ => Err(HexColorError::InvalidDigit),
    }
}

/// The mode that a `light` argument names: a mode name, ignoring ASCII case,
/// or else a mode value in decimal.
pub open spec fn mode_arg(s: Seq<char>) -> Option<LightingMode> {
    match first_mode_named(s, 0) {
        Some(m) => Some(m),
        None => match parse_integer(s, 0, 255) {
            Some(v) => if v <= 0x13 {
                Some(mode_of_value(v as u8))
            } else {
                None
            },
            None => None,
        },
    }
}

/// `LightingMode::from_name(arg).or_else(|| arg.parse::<u8>().ok().and_then(LightingMode::from_index))`
pub fn mode_from_arg(arg: &str) -> (r: Option<LightingMode>)
    ensures
        r == mode_arg(arg@),
{
    match LightingMode::from_name(arg) {
        Some(m) => Some(m),
        None => match parse_u8(arg) {
            Some(v) => LightingMode::from_index(v),
            None => None,
        },
    }
}

/// A checked `light` request.
#[derive(Debug, Clone, Copy, PartialEq, Eq, Structural)]
pub struct LightRequest {
    pub mode: LightingMode,
    pub r: u8,
    pub g: u8,
    pub b: u8,
    pub rainbow: bool,
    pub brightness: u8,
    pub speed: u8,
    pub direction: Direction,
}

/// Why a `light` request is refused.
#[derive(Debug, Clone, Copy, PartialEq, Eq, Structural)]
pub enum LightCommandError {
    /// Unknown mode; use 'list-modes' to see options.
    UnknownMode,
    /// The colour is not six hex digits.
    BadColor(HexColorError),
    /// Unknown direction; use left, right, up, down.
    UnknownDirection,
    /// Brightness must be 0-5.
    BrightnessTooHigh,
    /// Speed must be 0-5.
    SpeedTooHigh,
}

/// The direction of a `light` request: the named one, or left when none is given.
pub open spec fn direction_arg(arg: Option<Seq<char>>) -> Option<Direction> {
    match arg {
        Some(s) => direction_named(s),
        None => Some(Direction::Left),
    }
}

/// What the `light` command does with its arguments: the mode, then the
/// colour, then the direction, then brightness and speed are checked in this
/// order, and the first failure is reported.
pub open spec fn light_request(
    mode: Seq<char>,
    color: Seq<u8>,
    rainbow: bool,
    brightness: u8,
    speed: u8,
    direction: Option<Seq<char>>,
) -> Result<LightRequest, LightCommandError> {
    match mode_arg(mode) {
        None => Err(LightCommandError::UnknownMode),
        Some(m) => match hex_color_of(color) {
            Err(e) => Err(LightCommandError::BadColor(e)),
            Ok((r, g, b)) => match direction_arg(direction) {
                None => Err(LightCommandError::UnknownDirection),
                Some(d) => if brightness > MAX_BRIGHTNESS {
                    Err(LightCommandError::BrightnessTooHigh)
                } else if speed > MAX_SPEED {
                    Err(LightCommandError::SpeedTooHigh)
                } else {
                    Ok(
                        LightRequest {
                            mode: m,
                            r,
                            g,
                            b,
                            rainbow,
                            brightness,
                            speed,
                            direction: d,
                        },
                    )
                },
            },
        },
    }
}

/// Check the arguments of the `light` command.
pub fn plan_light(
    mode: &str,
    color: &str,
    rainbow: bool,
    brightness: u8,
    speed: u8,
    direction: Option<&str>,
) -> (r: Result<LightRequest, LightCommandError>)
    ensures
        r == light_request(
            mode@,
            color.spec_bytes(),
            rainbow,
            brightness,
            speed,
            match direction {
                Some(d) => Some(d@),
                None => None,
            },
        ),
{
    let m = match mode_from_arg(mode) {
        Some(m) => m,
        None => {
            return Err(LightCommandError::UnknownMode);
        },
    };
    let (r, g, b) = match parse_hex_color(color) {
        Ok(c) => c,
        Err(e) => {
            return Err(LightCommandError::BadColor(e));
        },
    };
    let dir = match direction {
        Some(d) => match Direction::from_name(d) {
            Some(dir) => dir,
            None => {
                return Err(LightCommandError::UnknownDirection);
            },
        },
        None => Direction::Left,
    };
    if brightness > MAX_BRIGHTNESS {
        return Err(LightCommandError::BrightnessTooHigh);
    }
    if speed > MAX_SPEED {
        return Err(LightCommandError::SpeedTooHigh);
    }
    Ok(LightRequest { mode: m, r, g, b, rainbow, brightness, speed, direction: dir })
}

/// Six lower-case hex digits for a colour, as `format!("{:02x}{:02x}{:02x}", r, g, b)`
/// gives them, after a `#`.
pub open spec fn hex_color_text(r: u8, g: u8, b: u8) -> Seq<u8> {
    seq![0x23u8] + hex_byte_text(r) + hex_byte_text(g) + hex_byte_text(b)
}

/// Two lower-case hex digits for a byte.
pub open spec fn hex_byte_text(v: u8) -> Seq<u8> {
    seq![lower_hex_digit(v / 16), lower_hex_digit(v % 16)]
}

pub open spec fn lower_hex_digit(d: u8) -> u8 {
    if d < 10 {
        (0x30 + d) as u8
    } else {
        (0x61 + d - 10) as u8
    }
}

proof fn lemma_hex_byte_roundtrip(v: u8)
    ensures
        hex_pair(hex_byte_text(v)[0], hex_byte_text(v)[1]) == Some(v),
        hex_byte_text(v)[0] != 0x23,
{
    assert(v == 16 * (v / 16) + v % 16);
}

/// Any colour written as `#` and six hex digits reads back as that colour.
pub proof fn lemma_hex_color_roundtrip(r: u8, g: u8, b: u8)
    ensures
        hex_color_of(hex_color_text(r, g, b)) == Ok::<(u8, u8, u8), HexColorError>((r, g, b)),
{
    let s = hex_color_text(r, g, b);
    let t = hex_byte_text(r) + hex_byte_text(g) + hex_byte_text(b);
    lemma_hex_byte_roundtrip(r);
    lemma_hex_byte_roundtrip(g);
    lemma_hex_byte_roundtrip(b);
    assert(s.drop_first() =~= t);
    assert(strip_hashes(t) == t);
    assert(strip_hashes(s) == t);
}

/// A `light` command that names a mode and a colour `#rrggbb` is checked on
/// its direction (left when none is given), then on brightness 0-5, then on
/// speed 0-5; when all pass, the request carries the named mode, the colour,
/// the rainbow flag, the brightness, the speed and the direction unchanged.
pub proof fn lemma_light_request_checks(
    m: LightingMode,
    r: u8,
    g: u8,
    b: u8,
    rainbow: bool,
    brightness: u8,
    speed: u8,
    direction: Option<Seq<char>>,
)
    ensures
        direction_arg(None) == Some(Direction::Left),
        direction_arg(direction) is None ==> light_request(
            mode_name(m),
            hex_color_text(r, g, b),
            rainbow,
            brightness,
            speed,
            direction,
        ) == Err::<LightRequest, LightCommandError>(LightCommandError::UnknownDirection),
        direction_arg(direction) matches Some(d) ==> light_request(
            mode_name(m),
            hex_color_text(r, g, b),
            rainbow,
            brightness,
            speed,
            direction,
        ) == if brightness > 5 {
            Err::<LightRequest, LightCommandError>(LightCommandError::BrightnessTooHigh)
        } else if speed > 5 {
            Err::<LightRequest, LightCommandError>(LightCommandError::SpeedTooHigh)
        } else {
            Ok::<LightRequest, LightCommandError>(
                LightRequest { mode: m, r, g, b, rainbow, brightness, speed, direction: d },
            )
        },
{
    lemma_from_name_of_name(m);
    lemma_hex_color_roundtrip(r, g, b);
}

/// Byte `half` (0: low, 1: high) of the RGB565 encoding of a colour.
pub open spec fn pixel_byte(c: (u8, u8, u8), half: int) -> u8 {
    if half == 0 {
        (rgb565_value(c.0, c.1, c.2) % 256) as u8
    } else {
        (rgb565_value(c.0, c.1, c.2) / 256) as u8
    }
}

/// The colour of pixel `p` of the diagnostic pattern: red top left, green top
/// right, blue bottom left, white bottom right.
pub open spec fn diagnostic_color(p: int) -> (u8, u8, u8) {
    let row = p / (LCD_WIDTH as int);
    let col = p % (LCD_WIDTH as int);
    if row < 64 {
        if col < 64 {
            (255, 0, 0)
        } else {
            (0, 255, 0)
        }
    } else {
        if col < 64 {
            (0, 0, 255)
        } else {
            (255, 255, 255)
        }
    }
}

/// The RGB565 bytes of the diagnostic pattern.
pub open spec fn diagnostic_image() -> Seq<u8> {
    Seq::new(LCD_DATA_SIZE as nat, |k: int| pixel_byte(diagnostic_color(k / 2), k % 2))
}

/// The RGB565 bytes of a screen of one colour.
pub open spec fn solid_image(r: u8, g: u8, b: u8) -> Seq<u8> {
    Seq::new(LCD_DATA_SIZE as nat, |k: int| pixel_byte((r, g, b), k % 2))
}

/// The diagnostic pattern (TL=red, TR=green, BL=blue, BR=white).
pub fn diagnostic_pattern() -> (data: Vec<u8>)
    ensures
        data@ == diagnostic_image(),
{
    let red = rgb565_encode(255, 0, 0);
    let green = rgb565_encode(0, 255, 0);
    let blue = rgb565_encode(0, 0, 255);
    let white = rgb565_encode(255, 255, 255);
    let mut data: Vec<u8> = Vec::new();
    let mut row: u32 = 0;
    while row < LCD_HEIGHT
        invariant
            row <= LCD_HEIGHT,
            red@ == seq![pixel_byte((255, 0, 0), 0), pixel_byte((255, 0, 0), 1)],
            green@ == seq![pixel_byte((0, 255, 0), 0), pixel_byte((0, 255, 0), 1)],
            blue@ == seq![pixel_byte((0, 0, 255), 0), pixel_byte((0, 0, 255), 1)],
            white@ == seq![pixel_byte((255, 255, 255), 0), pixel_byte((255, 255, 255), 1)],
            data.len() == 2 * (row as int) * (LCD_WIDTH as int),
            forall|k: int| 0 <= k < data.len() ==> #[trigger] data@[k] == diagnostic_image()[k],
        decreases LCD_HEIGHT - row,
    {
        let mut col: u32 = 0;
        while col < LCD_WIDTH
            invariant
                row < LCD_HEIGHT,
                col <= LCD_WIDTH,
                red@ == seq![pixel_byte((255, 0, 0), 0), pixel_byte((255, 0, 0), 1)],
                green@ == seq![pixel_byte((0, 255, 0), 0), pixel_byte((0, 255, 0), 1)],
                blue@ == seq![pixel_byte((0, 0, 255), 0), pixel_byte((0, 0, 255), 1)],
                white@ == seq![pixel_byte((255, 255, 255), 0), pixel_byte((255, 255, 255), 1)],
                data.len() == 2 * ((row as int) * (LCD_WIDTH as int) + col),
                forall|k: int| 0 <= k < data.len() ==> #[trigger] data@[k] == diagnostic_image()[k],
            decreases LCD_WIDTH - col,
        {
            let pixel = if row < 64 {
                if col < 64 {
                    red
                } else {
                    green
                }
            } else {
                if col < 64 {
                    blue
                } else {
                    white
                }
            };
            let ghost p = (row as int) * 128 + col;
            assert(p / 128 == row && p % 128 == col) by (nonlinear_arith)
                requires
                    p == row * 128 + col,
                    col < 128,
            ;
            assert(0 <= p < 16384) by (nonlinear_arith)
                requires
                    p == row * 128 + col,
                    col < 128,
                    row < 128,
            ;
            assert(pixel@ == seq![pixel_byte(diagnostic_color(p), 0), pixel_byte(diagnostic_color(p), 1)]);
            data.push(pixel[0]);
            data.push(pixel[1]);
            assert((2 * p) / 2 == p && (2 * p) % 2 == 0);
            assert((2 * p + 1) / 2 == p && (2 * p + 1) % 2 == 1);
            col = col + 1;
        }
        row = row + 1;
    }
    assert(data@ =~= diagnostic_image());
    data
}

/// A screen of one colour.
pub fn solid_color_image(r: u8, g: u8, b: u8) -> (data: Vec<u8>)
    ensures
        data@ == solid_image(r, g, b),
{
    let pixel = rgb565_encode(r, g, b);
    let mut data: Vec<u8> = Vec::new();
    let mut p: usize = 0;
    while p < LCD_PIXELS
        invariant
            p <= LCD_PIXELS,
            pixel@ == seq![pixel_byte((r, g, b), 0), pixel_byte((r, g, b), 1)],
            data.len() == 2 * p,
            forall|k: int| 0 <= k < data.len() ==> #[trigger] data@[k] == solid_image(r, g, b)[k],
        decreases LCD_PIXELS - p,
    {
        data.push(pixel[0]);
        data.push(pixel[1]);
        assert((2 * p) % 2 == 0);
        assert((2 * p + 1) % 2 == 1);
        p = p + 1;
    }
    assert(data@ =~= solid_image(r, g, b));
    data
}

/// What `lcd-test` shows: the diagnostic pattern, or a screen of one colour.
#[derive(Debug, Clone, Copy, PartialEq, Eq, Structural)]
pub enum LcdTestPattern {
    Diagnostic,
    Solid(u8, u8, u8),
}

/// What `lcd-test` shows for its (lowercased) colour argument: the
/// diagnostic pattern for "diag", a named colour, or a hex colour.
pub open spec fn lcd_test_spec(s: Seq<char>, b: Seq<u8>) -> Result<LcdTestPattern, HexColorError> {
    if s == "diag"@ {
        Ok(LcdTestPattern::Diagnostic)
    } else if s == "red"@ {
        Ok(LcdTestPattern::Solid(255, 0, 0))
    } else if s == "green"@ {
        Ok(LcdTestPattern::Solid(0, 255, 0))
    } else if s == "blue"@ {
        Ok(LcdTestPattern::Solid(0, 0, 255))
    } else if s == "white"@ {
        Ok(LcdTestPattern::Solid(255, 255, 255))
    } else if s == "black"@ {
        Ok(LcdTestPattern::Solid(0, 0, 0))
    } else {
        match hex_color_of(b) {
            Ok((r, g, bl)) => Ok(LcdTestPattern::Solid(r, g, bl)),
            Err(e) => Err(e),
        }
    }
}

/// What `lcd-test` shows; `lowered` is its colour argument in lower case.
pub fn lcd_test_pattern(lowered: &str) -> (r: Result<LcdTestPattern, HexColorError>)
    ensures
        r == lcd_test_spec(lowered@, lowered.spec_bytes()),
{
    if same_text(lowered, "diag") {
        Ok(LcdTestPattern::Diagnostic)
    } else if same_text(lowered, "red") {
        Ok(LcdTestPattern::Solid(255, 0, 0))
    } else if same_text(lowered, "green") {
        Ok(LcdTestPattern::Solid(0, 255, 0))
    } else if same_text(lowered, "blue") {
        Ok(LcdTestPattern::Solid(0, 0, 255))
    } else if same_text(lowered, "white") {
        Ok(LcdTestPattern::Solid(255, 255, 255))
    } else if same_text(lowered, "black") {
        Ok(LcdTestPattern::Solid(0, 0, 0))
    } else {
        match parse_hex_color(lowered) {
            Ok((r, g, b)) => Ok(LcdTestPattern::Solid(r, g, b)),
            Err(e) => Err(e),
        }
    }
}

/// The RGB565 bytes that show a pattern.
pub open spec fn pattern_image(p: LcdTestPattern) -> Seq<u8> {
    match p {
        LcdTestPattern::Diagnostic => diagnostic_image(),
        LcdTestPattern::Solid(r, g, b) => solid_image(r, g, b),
    }
}

/// The RGB565 bytes that show a pattern on the whole screen.
pub fn pattern_bytes(p: LcdTestPattern) -> (data: Vec<u8>)
    ensures
        data@ == pattern_image(p),
        data.len() == LCD_DATA_SIZE,
{
    match p {
        LcdTestPattern::Diagnostic => diagnostic_pattern(),
        LcdTestPattern::Solid(r, g, b) => solid_color_image(r, g, b),
    }
}

/// The LCD loop gives up after this many consecutive failed uploads.
pub const MAX_UPLOAD_FAILURES: u32 = 3;

/// The count of consecutive failed uploads after an upload, and whether the
/// loop gives up: a success resets the count, a failure raises it, and the
/// loop gives up when it reaches MAX_UPLOAD_FAILURES.
pub fn after_upload(consecutive_errors: u32, succeeded: bool) -> (r: (u32, bool))
    requires
        consecutive_errors < u32::MAX,
    ensures
        r == (if succeeded {
            (0u32, false)
        } else {
            ((consecutive_errors + 1) as u32, consecutive_errors + 1 >= MAX_UPLOAD_FAILURES)
        }),
{
    if succeeded {
        (0, false)
    } else {
        let n = consecutive_errors + 1;
        (n, n >= MAX_UPLOAD_FAILURES)
    }
}

} // verus!
