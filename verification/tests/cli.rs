use ak820_ctl::commands::{
    after_upload, diagnostic_pattern, lcd_test_pattern, mode_from_arg, parse_hex_color, pattern_bytes,
    plan_light, solid_color_image, HexColorError, LcdTestPattern, LightCommandError, LightRequest,
};
use ak820_ctl::protocol::{rgb565_encode, Direction, LightingMode, LCD_DATA_SIZE};

#[test]
fn hex_colors() {
    assert_eq!(parse_hex_color("ff0000"), Ok((255, 0, 0)));
    assert_eq!(parse_hex_color("#00FF7f"), Ok((0, 255, 127)));
    assert_eq!(parse_hex_color("##123456"), Ok((0x12, 0x34, 0x56)));
    // only the six digits themselves are accepted: no signs
    assert_eq!(parse_hex_color("+f+f+f"), Err(HexColorError::InvalidDigit));
    assert_eq!(parse_hex_color("+f0000"), Err(HexColorError::InvalidDigit));
    // non-ASCII text is refused, wherever its characters fall
    assert_eq!(parse_hex_color("a\u{e9}000"), Err(HexColorError::InvalidDigit));
    assert_eq!(parse_hex_color("\u{e9}0000"), Err(HexColorError::InvalidDigit));
    assert_eq!(parse_hex_color("fff"), Err(HexColorError::WrongLength));
    assert_eq!(parse_hex_color(""), Err(HexColorError::WrongLength));
    assert_eq!(parse_hex_color("#"), Err(HexColorError::WrongLength));
    assert_eq!(parse_hex_color("ff00000"), Err(HexColorError::WrongLength));
    assert_eq!(parse_hex_color("gg0000"), Err(HexColorError::InvalidDigit));
    assert_eq!(parse_hex_color("ff00-1"), Err(HexColorError::InvalidDigit));
    assert_eq!(parse_hex_color("++0000"), Err(HexColorError::InvalidDigit));
    // three two-byte characters: six bytes, slices on boundaries
    assert_eq!(parse_hex_color("\u{e9}\u{e9}\u{e9}"), Err(HexColorError::InvalidDigit));
}

#[test]
fn hex_color_roundtrip_values() {
    for (r, g, b) in [(0u8, 0u8, 0u8), (255, 255, 255), (0x0a, 0xb0, 0x7c), (1, 2, 3)] {
        let text = format!("#{:02x}{:02x}{:02x}", r, g, b);
        assert_eq!(parse_hex_color(&text), Ok((r, g, b)));
    }
}

#[test]
fn light_mode_argument() {
    assert_eq!(mode_from_arg("breath"), Some(LightingMode::Breath));
    assert_eq!(mode_from_arg("TILT"), Some(LightingMode::Tilt));
    assert_eq!(mode_from_arg("7"), Some(LightingMode::Breath));
    assert_eq!(mode_from_arg("19"), Some(LightingMode::Shuttle));
    assert_eq!(mode_from_arg("20"), None);
    assert_eq!(mode_from_arg("+1"), Some(LightingMode::Static));
    assert_eq!(mode_from_arg("glow"), None);
}

#[test]
fn light_command_checks_in_order() {
    assert_eq!(
        plan_light("static", "ff0000", false, 5, 3, None),
        Ok(LightRequest { mode: LightingMode::Static, r: 255, g: 0, b: 0, rainbow: false, brightness: 5, speed: 3, direction: Direction::Left })
    );
    assert_eq!(
        plan_light("scrolling", "0000ff", true, 2, 1, Some("down")),
        Ok(LightRequest { mode: LightingMode::Scrolling, r: 0, g: 0, b: 255, rainbow: true, brightness: 2, speed: 1, direction: Direction::Down })
    );
    assert_eq!(plan_light("nope", "zz", false, 9, 9, Some("x")), Err(LightCommandError::UnknownMode));
    assert_eq!(plan_light("off", "zz", false, 9, 9, Some("x")), Err(LightCommandError::BadColor(HexColorError::WrongLength)));
    assert_eq!(plan_light("off", "ff00zz", false, 9, 9, Some("x")), Err(LightCommandError::BadColor(HexColorError::InvalidDigit)));
    assert_eq!(plan_light("off", "ff0000", false, 9, 9, Some("x")), Err(LightCommandError::UnknownDirection));
    assert_eq!(plan_light("off", "ff0000", false, 9, 9, Some("r")), Err(LightCommandError::BrightnessTooHigh));
    assert_eq!(plan_light("off", "ff0000", false, 5, 6, None), Err(LightCommandError::SpeedTooHigh));
    assert!(plan_light("off", "ff0000", false, 0, 5, None).is_ok());
}

#[test]
fn diagnostic_pattern_quadrants() {
    let data = diagnostic_pattern();
    assert_eq!(data.len(), LCD_DATA_SIZE);
    let px = |row: usize, col: usize| [data[2 * (row * 128 + col)], data[2 * (row * 128 + col) + 1]];
    assert_eq!(px(0, 0), rgb565_encode(255, 0, 0));
    assert_eq!(px(63, 63), rgb565_encode(255, 0, 0));
    assert_eq!(px(0, 64), rgb565_encode(0, 255, 0));
    assert_eq!(px(64, 0), rgb565_encode(0, 0, 255));
    assert_eq!(px(127, 127), rgb565_encode(255, 255, 255));
}

#[test]
fn lcd_test_patterns() {
    assert_eq!(lcd_test_pattern("diag"), Ok(LcdTestPattern::Diagnostic));
    assert_eq!(lcd_test_pattern("red"), Ok(LcdTestPattern::Solid(255, 0, 0)));
    assert_eq!(lcd_test_pattern("green"), Ok(LcdTestPattern::Solid(0, 255, 0)));
    assert_eq!(lcd_test_pattern("blue"), Ok(LcdTestPattern::Solid(0, 0, 255)));
    assert_eq!(lcd_test_pattern("white"), Ok(LcdTestPattern::Solid(255, 255, 255)));
    assert_eq!(lcd_test_pattern("black"), Ok(LcdTestPattern::Solid(0, 0, 0)));
    assert_eq!(lcd_test_pattern("#0a0b0c"), Ok(LcdTestPattern::Solid(10, 11, 12)));
    assert_eq!(lcd_test_pattern("purple"), Err(HexColorError::InvalidDigit));
    assert_eq!(lcd_test_pattern("pink"), Err(HexColorError::WrongLength));
}

#[test]
fn lcd_test_images() {
    let red = pattern_bytes(LcdTestPattern::Solid(255, 0, 0));
    assert_eq!(red.len(), LCD_DATA_SIZE);
    assert!(red.chunks(2).all(|p| p == [0x00, 0xF8]));
    assert_eq!(pattern_bytes(LcdTestPattern::Solid(0, 0, 0)), vec![0u8; LCD_DATA_SIZE]);
    assert_eq!(pattern_bytes(LcdTestPattern::Diagnostic), diagnostic_pattern());
    assert_eq!(solid_color_image(0, 255, 0).len(), LCD_DATA_SIZE);
}

#[test]
fn upload_failures_give_up_at_three() {
    assert_eq!(after_upload(0, true), (0, false));
    assert_eq!(after_upload(2, true), (0, false));
    assert_eq!(after_upload(0, false), (1, false));
    assert_eq!(after_upload(1, false), (2, false));
    assert_eq!(after_upload(2, false), (3, true));
}
