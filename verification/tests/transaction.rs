use ak820_ctl::protocol::{
    finish_packet, mode_data_packet, mode_preamble_packet, save_packet, sleep_data_packet,
    sleep_preamble_packet, start_packet, time_data_packet, time_preamble_packet,
    image_preamble_packet, Direction, LightingMode, SleepTime, IMAGE_CHUNK_SIZE, LCD_DATA_SIZE,
};
use ak820_ctl::transaction::{
    cut_into_pieces, image_chunk_packets, packet_dump, image_transaction_head, lighting_data_packet,
    lighting_transaction, sleep_transaction, time_transaction,
};

#[test]
fn lighting_off_is_sent_as_dark_single_on() {
    let p = lighting_data_packet(LightingMode::Off, 10, 20, 30, false, 5, 4, Direction::Left);
    assert_eq!(p, mode_data_packet(LightingMode::SingleOn, 10, 20, 30, false, 0, 0, Direction::Left));
    assert_eq!(p[0], 0x02);
    assert_eq!(p[9], 0);
    assert_eq!(p[10], 0);
}

#[test]
fn lighting_static_is_sent_as_still_breath() {
    let p = lighting_data_packet(LightingMode::Static, 255, 0, 0, true, 4, 5, Direction::Up);
    assert_eq!(p, mode_data_packet(LightingMode::Breath, 255, 0, 0, true, 4, 0, Direction::Up));
}

#[test]
fn lighting_other_modes_are_sent_as_they_are() {
    let p = lighting_data_packet(LightingMode::Ripples, 1, 2, 3, false, 2, 1, Direction::Down);
    assert_eq!(p, mode_data_packet(LightingMode::Ripples, 1, 2, 3, false, 2, 1, Direction::Down));
}

#[test]
fn lighting_transaction_sequence() {
    let t = lighting_transaction(LightingMode::Spectrum, 0, 0, 255, false, 3, 2, Direction::Left);
    assert_eq!(t.len(), 4);
    assert_eq!(t[0], start_packet());
    assert_eq!(t[1], mode_preamble_packet());
    assert_eq!(t[2], mode_data_packet(LightingMode::Spectrum, 0, 0, 255, false, 3, 2, Direction::Left));
    assert_eq!(t[3], finish_packet());
}

#[test]
fn sleep_transaction_has_no_finish() {
    let t = sleep_transaction(SleepTime::ThirtyMinutes);
    assert_eq!(t, vec![start_packet(), sleep_preamble_packet(), sleep_data_packet(SleepTime::ThirtyMinutes)]);
}

#[test]
fn time_transaction_ends_with_save() {
    let t = time_transaction(2025, 12, 31, 23, 59, 58);
    assert_eq!(
        t,
        vec![start_packet(), time_preamble_packet(), time_data_packet(2025, 12, 31, 23, 59, 58), save_packet()]
    );
}

#[test]
fn image_transaction_head_sequence() {
    assert_eq!(image_transaction_head(), vec![start_packet(), image_preamble_packet()]);
}

#[test]
fn cut_into_pieces_like_chunks() {
    let data: Vec<u8> = (0..10).collect();
    assert_eq!(cut_into_pieces(&data, 4), vec![vec![0, 1, 2, 3], vec![4, 5, 6, 7], vec![8, 9]]);
    assert_eq!(cut_into_pieces(&data, 5), vec![vec![0, 1, 2, 3, 4], vec![5, 6, 7, 8, 9]]);
    assert_eq!(cut_into_pieces(&Vec::new(), 3), Vec::<Vec<u8>>::new());
    let expected: Vec<Vec<u8>> = data.chunks(3).map(|c| c.to_vec()).collect();
    assert_eq!(cut_into_pieces(&data, 3), expected);
}

#[test]
fn image_packets_per_chunk() {
    let data: Vec<u8> = (0..LCD_DATA_SIZE).map(|i| (i * 7 % 256) as u8).collect();
    let packets = image_chunk_packets(&data);
    assert_eq!(packets.len(), 9);
    let mut stream = Vec::new();
    for chunk in &packets {
        assert_eq!(chunk.len(), 65);
        for (q, p) in chunk.iter().enumerate() {
            if q < 64 {
                assert_eq!(p.len(), 64);
            } else {
                assert_eq!(p.len(), 27);
            }
        }
        let joined: Vec<u8> = chunk.concat();
        assert_eq!(joined.len(), IMAGE_CHUNK_SIZE);
        stream.extend(joined);
    }
    assert_eq!(&stream[..LCD_DATA_SIZE], &data[..]);
    assert!(stream[LCD_DATA_SIZE..].iter().all(|b| *b == 0xFF));
}

#[test]
fn packet_dump_rows_of_sixteen() {
    let p = start_packet();
    let mut expected = format!("  TX [{}]: ", 64);
    for (i, b) in p.iter().enumerate() {
        if i > 0 && i % 16 == 0 {
            expected.push_str("\n          ");
        }
        expected.push_str(&format!("{:02x} ", b));
    }
    let text: String = packet_dump(&p).into_iter().collect();
    assert_eq!(text, expected);
    assert!(text.starts_with("  TX [64]: 04 18 00 00 00 00 00 00 01 00 "));
    let data = mode_data_packet(LightingMode::Breath, 0xAB, 0xCD, 0xEF, false, 5, 3, Direction::Left);
    let text: String = packet_dump(&data).into_iter().collect();
    assert!(text.starts_with("  TX [64]: 07 ab cd ef "));
    assert_eq!(text.matches('\n').count(), 3);
}
