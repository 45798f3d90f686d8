use ak820_ctl::protocol::{
    finish_packet, image_preamble_packet, mode_data_packet, mode_preamble_packet, rgb565_encode,
    save_packet, sleep_data_packet, sleep_preamble_packet, split_image_data, start_packet,
    time_data_packet, time_preamble_packet, Direction, LightingMode, SleepTime, IMAGE_CHUNK_SIZE,
    IMAGE_NUM_CHUNKS, LCD_DATA_SIZE, PACKET_LENGTH,
};

fn control(command: u8, b2: u8, b8: u8) -> [u8; 64] {
    let mut p = [0u8; 64];
    p[0] = 0x04;
    p[1] = command;
    p[2] = b2;
    p[8] = b8;
    p
}

#[test]
fn control_packets_have_report_id_and_command() {
    assert_eq!(start_packet(), control(0x18, 0x00, 0x01));
    assert_eq!(finish_packet(), control(0xF0, 0x00, 0x01));
    assert_eq!(mode_preamble_packet(), control(0x13, 0x00, 0x01));
    assert_eq!(sleep_preamble_packet(), control(0x17, 0x01, 0x01));
    assert_eq!(image_preamble_packet(), control(0x72, 0x02, 0x09));
    assert_eq!(time_preamble_packet(), control(0x28, 0x00, 0x01));
    assert_eq!(save_packet(), control(0x02, 0x00, 0x00));
    assert_eq!(start_packet().len(), PACKET_LENGTH);
}

#[test]
fn mode_data_packet_layout() {
    let p = mode_data_packet(LightingMode::Breath, 255, 16, 32, false, 5, 3, Direction::Right);
    let mut expected = [0u8; 64];
    expected[0] = 0x07;
    expected[1] = 255;
    expected[2] = 16;
    expected[3] = 32;
    expected[8] = 0;
    expected[9] = 5;
    expected[10] = 3;
    expected[11] = 3;
    expected[14] = 0x55;
    expected[15] = 0xAA;
    assert_eq!(p, expected);
}

#[test]
fn mode_data_packet_caps_brightness_and_speed() {
    let p = mode_data_packet(LightingMode::Shuttle, 1, 2, 3, true, 200, 6, Direction::Up);
    assert_eq!(p[0], 0x13);
    assert_eq!(p[8], 1);
    assert_eq!(p[9], 5);
    assert_eq!(p[10], 5);
    assert_eq!(p[11], 2);
}

#[test]
fn rgb565_encode_primaries() {
    assert_eq!(rgb565_encode(255, 0, 0), [0x00, 0xF8]);
    assert_eq!(rgb565_encode(0, 255, 0), [0xE0, 0x07]);
    assert_eq!(rgb565_encode(0, 0, 255), [0x1F, 0x00]);
    assert_eq!(rgb565_encode(255, 255, 255), [0xFF, 0xFF]);
    assert_eq!(rgb565_encode(0, 0, 0), [0x00, 0x00]);
    // 8 >> 3 = 1, 4 >> 2 = 1, 8 >> 3 = 1: 0b00001_000001_00001 = 0x0821
    assert_eq!(rgb565_encode(8, 4, 8), [0x21, 0x08]);
    // the low bits of each channel are dropped
    assert_eq!(rgb565_encode(15, 7, 15), [0x21, 0x08]);
}

#[test]
fn split_image_pads_with_ff() {
    let data: Vec<u8> = (0..LCD_DATA_SIZE).map(|i| (i % 251) as u8).collect();
    let chunks = split_image_data(&data);
    assert_eq!(chunks.len(), IMAGE_NUM_CHUNKS);
    for c in &chunks {
        assert_eq!(c.len(), IMAGE_CHUNK_SIZE);
    }
    let stream: Vec<u8> = chunks.concat();
    assert_eq!(&stream[..LCD_DATA_SIZE], &data[..]);
    assert!(stream[LCD_DATA_SIZE..].iter().all(|b| *b == 0xFF));
    assert_eq!(chunks[8], vec![0xFFu8; IMAGE_CHUNK_SIZE]);
    assert_eq!(chunks[1][0], data[IMAGE_CHUNK_SIZE]);
}

#[test]
fn split_image_of_empty_and_oversized_data() {
    let chunks = split_image_data(&[]);
    assert!(chunks.iter().all(|c| c.iter().all(|b| *b == 0xFF)));
    let big = vec![7u8; IMAGE_CHUNK_SIZE * IMAGE_NUM_CHUNKS + 10];
    let chunks = split_image_data(&big);
    assert!(chunks.iter().all(|c| c.iter().all(|b| *b == 7)));
}

#[test]
fn time_data_packet_layout() {
    let p = time_data_packet(2024, 5, 17, 13, 45, 30);
    let mut expected = [0u8; 64];
    expected[1] = 0x01;
    expected[2] = 0x5A;
    expected[3] = 24;
    expected[4] = 5;
    expected[5] = 17;
    expected[6] = 13;
    expected[7] = 45;
    expected[8] = 30;
    expected[10] = 0x04;
    expected[62] = 0xAA;
    expected[63] = 0x55;
    assert_eq!(p, expected);
}

#[test]
fn time_data_packet_year_edges() {
    assert_eq!(time_data_packet(1999, 1, 1, 0, 0, 0)[3], 0);
    assert_eq!(time_data_packet(2000, 1, 1, 0, 0, 0)[3], 0);
    assert_eq!(time_data_packet(2255, 1, 1, 0, 0, 0)[3], 255);
    // (2300 - 2000) as u8 wraps
    assert_eq!(time_data_packet(2300, 1, 1, 0, 0, 0)[3], 44);
}

#[test]
fn sleep_data_packet_layout() {
    let p = sleep_data_packet(SleepTime::FiveMinutes);
    let mut expected = [0u8; 64];
    expected[8] = 2;
    expected[62] = 0xAA;
    expected[63] = 0x55;
    assert_eq!(p, expected);
    assert_eq!(sleep_data_packet(SleepTime::Never)[8], 0);
    assert_eq!(sleep_data_packet(SleepTime::OneMinute)[8], 1);
    assert_eq!(sleep_data_packet(SleepTime::ThirtyMinutes)[8], 3);
}

#[test]
fn every_mode_is_found_by_its_name_and_value() {
    let all = LightingMode::all();
    assert_eq!(all.len(), 20);
    for (i, m) in all.iter().enumerate() {
        assert_eq!(m.value() as usize, i);
        assert_eq!(LightingMode::from_name(m.name()), Some(*m));
        assert_eq!(LightingMode::from_name(&m.name().to_uppercase()), Some(*m));
        assert_eq!(LightingMode::from_index(m.value()), Some(*m));
    }
}

#[test]
fn mode_names_and_lookup() {
    assert_eq!(LightingMode::Off.name(), "off");
    assert_eq!(LightingMode::SingleOn.name(), "single-on");
    assert_eq!(LightingMode::Colourful.name(), "colourful");
    assert_eq!(LightingMode::from_name("BrEaTh"), Some(LightingMode::Breath));
    assert_eq!(LightingMode::from_name("single-off"), Some(LightingMode::SingleOff));
    assert_eq!(LightingMode::from_name("single"), None);
    assert_eq!(LightingMode::from_name(""), None);
    assert_eq!(LightingMode::from_name("spectrum "), None);
}

#[test]
fn mode_from_index_range() {
    assert_eq!(LightingMode::from_index(0), Some(LightingMode::Off));
    assert_eq!(LightingMode::from_index(0x0A), Some(LightingMode::Scrolling));
    assert_eq!(LightingMode::from_index(0x13), Some(LightingMode::Shuttle));
    assert_eq!(LightingMode::from_index(0x14), None);
    assert_eq!(LightingMode::from_index(255), None);
}

#[test]
fn supported_directions_per_mode() {
    assert_eq!(LightingMode::Scrolling.supported_directions(), vec![Direction::Up, Direction::Down]);
    assert_eq!(LightingMode::Rolling.supported_directions(), vec![Direction::Left, Direction::Right]);
    assert_eq!(LightingMode::Flowing.supported_directions(), vec![Direction::Left, Direction::Right]);
    assert_eq!(LightingMode::Tilt.supported_directions(), vec![Direction::Left, Direction::Right]);
    assert!(LightingMode::Static.supported_directions().is_empty());
    assert!(LightingMode::Off.supported_directions().is_empty());
}

#[test]
fn direction_names() {
    assert_eq!(Direction::from_name("left"), Some(Direction::Left));
    assert_eq!(Direction::from_name("L"), Some(Direction::Left));
    assert_eq!(Direction::from_name("Down"), Some(Direction::Down));
    assert_eq!(Direction::from_name("u"), Some(Direction::Up));
    assert_eq!(Direction::from_name("RIGHT"), Some(Direction::Right));
    assert_eq!(Direction::from_name("forward"), None);
    assert_eq!(Direction::from_name(""), None);
    assert_eq!(Direction::Left.value(), 0);
    assert_eq!(Direction::Down.value(), 1);
    assert_eq!(Direction::Up.value(), 2);
    assert_eq!(Direction::Right.value(), 3);
}

#[test]
fn sleep_time_names() {
    assert_eq!(SleepTime::from_name("never"), Some(SleepTime::Never));
    assert_eq!(SleepTime::from_name("OFF"), Some(SleepTime::Never));
    assert_eq!(SleepTime::from_name("0"), Some(SleepTime::Never));
    assert_eq!(SleepTime::from_name("1m"), Some(SleepTime::OneMinute));
    assert_eq!(SleepTime::from_name("1MIN"), Some(SleepTime::OneMinute));
    assert_eq!(SleepTime::from_name("5"), Some(SleepTime::FiveMinutes));
    assert_eq!(SleepTime::from_name("5min"), Some(SleepTime::FiveMinutes));
    assert_eq!(SleepTime::from_name("30m"), Some(SleepTime::ThirtyMinutes));
    assert_eq!(SleepTime::from_name("30"), Some(SleepTime::ThirtyMinutes));
    assert_eq!(SleepTime::from_name("2m"), None);
    assert_eq!(SleepTime::from_name("1 m"), None);
}

#[test]
fn kelvin_sign_names_no_direction() {
    // "\u{212A}" (KELVIN SIGN) lowercases to "k"; no direction or sleep
    // alias holds a k, so it never matches, while ASCII case never matters.
    assert_eq!(Direction::from_name("\u{212A}"), None);
    assert_eq!(SleepTime::from_name("NEVER"), Some(SleepTime::Never));
}
