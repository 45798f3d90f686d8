//! What each keyboard operation sends: the sequence of 64-byte feature
//! reports of a transaction, and the interrupt packets of an LCD image.

use vstd::prelude::*;
use crate::text::chars_of;
use crate::protocol::{
    control_packet_spec, finish_packet, image_preamble_packet, mode_data_packet,
    mode_data_packet_spec, mode_preamble_packet, save_packet, sleep_data_packet,
    sleep_data_packet_spec, sleep_preamble_packet, start_packet, time_data_packet,
    time_data_packet_spec, time_preamble_packet, mode_value, direction_value, split_image_data, image_stream_byte, Direction, LightingMode, SleepTime, CMD_FINISH,
    CMD_IMAGE, CMD_MODE, CMD_SAVE, CMD_SLEEP, CMD_START, CMD_TIME, PACKET_LENGTH, IMAGE_CHUNK_SIZE,
    IMAGE_NUM_CHUNKS,
};

verus! {

/// The mode, brightness and speed that the keyboard is sent for a requested
/// lighting setting: "off" is sent as single-on with brightness and speed 0,
/// "static" as breath with speed 0; other modes are sent as they are.
pub open spec fn sent_lighting(mode: LightingMode, brightness: u8, speed: u8) -> (
    LightingMode,
    u8,
    u8,
) {
    match mode {
        LightingMode::Off => (LightingMode::SingleOn, 0, 0),
        LightingMode::Static => (LightingMode::Breath, brightness, 0),
        _ => (mode, brightness, speed),
    }
}

/// The mode data packet sent to set a lighting mode, after the firmware's
/// substitutions for "off" and "static".
pub fn lighting_data_packet(
    mode: LightingMode,
    r: u8,
    g: u8,
    b: u8,
    rainbow: bool,
    brightness: u8,
    speed: u8,
    direction: Direction,
) -> (pkt: [u8; PACKET_LENGTH])
    ensures
        pkt@ == mode_data_packet_spec(
            sent_lighting(mode, brightness, speed).0,
            r,
            g,
            b,
            rainbow,
            sent_lighting(mode, brightness, speed).1,
            sent_lighting(mode, brightness, speed).2,
            direction,
        ),
{
    let (actual_mode, actual_speed) = match mode {
        LightingMode::Off => (LightingMode::SingleOn, 0),
        LightingMode::Static => (LightingMode::Breath, 0),
        _ => (mode, speed),
    };
    let actual_brightness = if mode == LightingMode::Off {
        0
    } else {
        brightness
    };
    mode_data_packet(actual_mode, r, g, b, rainbow, actual_brightness, actual_speed, direction)
}

/// Execute a full transaction: START -> preamble -> data -> FINISH
pub open spec fn full_transaction(preamble: Seq<u8>, data: Seq<u8>) -> Seq<Seq<u8>> {
    seq![control_packet_spec(CMD_START, 0x00, 0x01), preamble, data, control_packet_spec(CMD_FINISH, 0x00, 0x01)]
}

/// The views of a list of packets.
pub open spec fn packet_views(v: Seq<[u8; PACKET_LENGTH]>) -> Seq<Seq<u8>> {
    v.map_values(|p: [u8; PACKET_LENGTH]| p@)
}

/// The feature reports that set a lighting mode: START, the mode preamble,
/// the mode data and FINISH.
pub fn lighting_transaction(
    mode: LightingMode,
    r: u8,
    g: u8,
    b: u8,
    rainbow: bool,
    brightness: u8,
    speed: u8,
    direction: Direction,
) -> (packets: Vec<[u8; PACKET_LENGTH]>)
    ensures
        packet_views(packets@) == full_transaction(
            control_packet_spec(CMD_MODE, 0x00, 0x01),
            mode_data_packet_spec(
                sent_lighting(mode, brightness, speed).0,
                r,
                g,
                b,
                rainbow,
                sent_lighting(mode, brightness, speed).1,
                sent_lighting(mode, brightness, speed).2,
                direction,
            ),
        ),
{
    let data = lighting_data_packet(mode, r, g, b, rainbow, brightness, speed, direction);
    let packets = vec![start_packet(), mode_preamble_packet(), data, finish_packet()];
    assert(packet_views(packets@) =~= full_transaction(
        control_packet_spec(CMD_MODE, 0x00, 0x01),
        data@,
    ));
    packets
}

/// The feature reports that set the sleep timer: START, the sleep preamble
/// and the sleep data (the keyboard is sent no FINISH for this one).
pub fn sleep_transaction(sleep_time: SleepTime) -> (packets: Vec<[u8; PACKET_LENGTH]>)
    ensures
        packet_views(packets@) == seq![
            control_packet_spec(CMD_START, 0x00, 0x01),
            control_packet_spec(CMD_SLEEP, 0x01, 0x01),
            sleep_data_packet_spec(sleep_time),
        ],
{
    let packets = vec![start_packet(), sleep_preamble_packet(), sleep_data_packet(sleep_time)];
    assert(packet_views(packets@) =~= seq![
        control_packet_spec(CMD_START, 0x00, 0x01),
        control_packet_spec(CMD_SLEEP, 0x01, 0x01),
        sleep_data_packet_spec(sleep_time),
    ]);
    packets
}

/// The feature reports that set the keyboard's clock:
/// START -> TIME_CONFIGURE -> TIME_DATA -> SAVE
pub fn time_transaction(year: u16, month: u8, day: u8, hour: u8, minute: u8, second: u8) -> (packets:
    Vec<[u8; PACKET_LENGTH]>)
    ensures
        packet_views(packets@) == seq![
            control_packet_spec(CMD_START, 0x00, 0x01),
            control_packet_spec(CMD_TIME, 0x00, 0x01),
            time_data_packet_spec(year, month, day, hour, minute, second),
            control_packet_spec(CMD_SAVE, 0x00, 0x00),
        ],
{
    let packets = vec![
        start_packet(),
        time_preamble_packet(),
        time_data_packet(year, month, day, hour, minute, second),
        save_packet(),
    ];
    assert(packet_views(packets@) =~= seq![
        control_packet_spec(CMD_START, 0x00, 0x01),
        control_packet_spec(CMD_TIME, 0x00, 0x01),
        time_data_packet_spec(year, month, day, hour, minute, second),
        control_packet_spec(CMD_SAVE, 0x00, 0x00),
    ]);
    packets
}

/// The feature reports sent before the image data: START and the image
/// preamble. FINISH follows the data.
pub fn image_transaction_head() -> (packets: Vec<[u8; PACKET_LENGTH]>)
    ensures
        packet_views(packets@) == seq![
            control_packet_spec(CMD_START, 0x00, 0x01),
            control_packet_spec(CMD_IMAGE, 0x02, 0x09),
        ],
{
    let packets = vec![start_packet(), image_preamble_packet()];
    assert(packet_views(packets@) =~= seq![
        control_packet_spec(CMD_START, 0x00, 0x01),
        control_packet_spec(CMD_IMAGE, 0x02, 0x09),
    ]);
    packets
}

/// Piece `i` of `data` cut into pieces of `size` bytes (the last may be shorter).
pub open spec fn piece(data: Seq<u8>, size: int, i: int) -> Seq<u8> {
    let end = if (i + 1) * size <= data.len() {
        (i + 1) * size
    } else {
        data.len() as int
    };
    data.subrange(i * size, end)
}

/// The number of pieces of `size` bytes that `len` bytes are cut into.
pub open spec fn piece_count(len: int, size: int) -> int {
    (len + size - 1) / size
}

/// `n` pieces of `size` bytes are exactly enough for `len` bytes.
proof fn lemma_piece_count(len: int, size: int, n: int)
    requires
        size > 0,
        len >= 0,
        n >= 0,
        n * size >= len,
        n > 0 ==> (n - 1) * size < len,
    ensures
        n == piece_count(len, size),
{
    if n == 0 {
        vstd::arithmetic::div_mod::lemma_fundamental_div_mod_converse(size - 1, size, 0, size - 1);
    } else {
        let d = n * size - len;
        assert(n * size == (n - 1) * size + size) by (nonlinear_arith);
        vstd::arithmetic::div_mod::lemma_fundamental_div_mod_converse(
            len + size - 1,
            size,
            n,
            size - 1 - d,
        );
    }
}

/// `data` cut into consecutive pieces of `size` bytes, the last one holding
/// what is left (`slice::chunks`).
pub fn cut_into_pieces(data: &Vec<u8>, size: usize) -> (pieces: Vec<Vec<u8>>)
    requires
        size > 0,
    ensures
        pieces.len() == piece_count(data.len() as int, size as int),
        forall|i: int|
            0 <= i < pieces.len() ==> #[trigger] pieces@[i]@ == piece(data@, size as int, i),
{
    let mut pieces: Vec<Vec<u8>> = Vec::new();
    let mut start: usize = 0;
    assert(0 * (size as int) == 0) by (nonlinear_arith);
    while start < data.len()
        invariant
            size > 0,
            start <= data.len(),
            start < data.len() ==> start == pieces.len() * size,
            pieces.len() * size >= start,
            pieces.len() > 0 ==> (pieces.len() - 1) * size < data.len(),
            forall|i: int|
                0 <= i < pieces.len() ==> #[trigger] pieces@[i]@ == piece(data@, size as int, i),
        decreases data.len() - start,
    {
        let end = if data.len() - start >= size {
            start + size
        } else {
            data.len()
        };
        let mut p: Vec<u8> = Vec::new();
        let mut k: usize = start;
        assert(p@ =~= data@.subrange(start as int, start as int));
        while k < end
            invariant
                start <= k <= end <= data.len(),
                p@ == data@.subrange(start as int, k as int),
            decreases end - k,
        {
            p.push(data[k]);
            k = k + 1;
            assert(p@ =~= data@.subrange(start as int, k as int));
        }
        let ghost idx = pieces.len() as int;
        assert((idx + 1) * size == idx * size + size) by (nonlinear_arith);
        assert(p@ == piece(data@, size as int, idx));
        pieces.push(p);
        start = end;
    }
    proof {
        lemma_piece_count(data.len() as int, size as int, pieces.len() as int);
    }
    pieces
}

/// Chunk `c` of the image stream: IMAGE_CHUNK_SIZE bytes of the image data,
/// padded with 0xFF.
pub open spec fn image_chunk(data: Seq<u8>, c: int) -> Seq<u8> {
    Seq::new(IMAGE_CHUNK_SIZE as nat, |j: int| image_stream_byte(data, c * IMAGE_CHUNK_SIZE + j))
}

/// The interrupt packets that carry an LCD image: the image is split into
/// IMAGE_NUM_CHUNKS chunks (`split_image_data`), and each chunk is sent as
/// consecutive packets of PACKET_LENGTH bytes, the last one shorter.
pub fn image_chunk_packets(rgb565_data: &[u8]) -> (packets: Vec<Vec<Vec<u8>>>)
    ensures
        packets.len() == IMAGE_NUM_CHUNKS,
        forall|c: int|
            0 <= c < IMAGE_NUM_CHUNKS ==> #[trigger] packets@[c].len() == piece_count(
                IMAGE_CHUNK_SIZE as int,
                PACKET_LENGTH as int,
            ),
        forall|c: int, q: int|
            0 <= c < IMAGE_NUM_CHUNKS && 0 <= q < packets@[c].len() ==> #[trigger] packets@[c]@[q]@
                == piece(image_chunk(rgb565_data@, c), PACKET_LENGTH as int, q),
{
    let chunks = split_image_data(rgb565_data);
    let mut packets: Vec<Vec<Vec<u8>>> = Vec::new();
    let mut c: usize = 0;
    while c < chunks.len()
        invariant
            chunks.len() == IMAGE_NUM_CHUNKS,
            forall|i: int| 0 <= i < IMAGE_NUM_CHUNKS ==> #[trigger] chunks@[i].len() == IMAGE_CHUNK_SIZE,
            forall|i: int, j: int|
                0 <= i < IMAGE_NUM_CHUNKS && 0 <= j < IMAGE_CHUNK_SIZE ==> #[trigger] chunks@[i]@[j]
                    == image_stream_byte(rgb565_data@, i * IMAGE_CHUNK_SIZE + j),
            c <= chunks.len(),
            packets.len() == c,
            forall|i: int|
                0 <= i < c ==> #[trigger] packets@[i].len() == piece_count(
                    IMAGE_CHUNK_SIZE as int,
                    PACKET_LENGTH as int,
                ),
            forall|i: int, q: int|
                0 <= i < c && 0 <= q < packets@[i].len() ==> #[trigger] packets@[i]@[q]@ == piece(
                    image_chunk(rgb565_data@, i),
                    PACKET_LENGTH as int,
                    q,
                ),
        decreases chunks.len() - c,
    {
        assert forall|j: int| 0 <= j < IMAGE_CHUNK_SIZE implies #[trigger] chunks@[c as int]@[j]
            == image_chunk(rgb565_data@, c as int)[j] by {
            assert(chunks@[c as int]@[j] == image_stream_byte(
                rgb565_data@,
                c * IMAGE_CHUNK_SIZE + j,
            ));
        }
        assert(chunks@[c as int].len() == IMAGE_CHUNK_SIZE);
        assert(chunks@[c as int]@ =~= image_chunk(rgb565_data@, c as int));
        let pieces = cut_into_pieces(&chunks[c], PACKET_LENGTH);
        packets.push(pieces);
        c = c + 1;
    }
    packets
}

/// Each chunk of an LCD image goes out as 65 interrupt packets: 64 full
/// packets of PACKET_LENGTH bytes and a short one of 27 bytes that marks the
/// chunk's end; read one after another they give back the chunk.
pub proof fn lemma_image_chunk_packets(chunk: Seq<u8>)
    requires
        chunk.len() == IMAGE_CHUNK_SIZE,
    ensures
        piece_count(IMAGE_CHUNK_SIZE as int, PACKET_LENGTH as int) == 65,
        forall|q: int| 0 <= q < 64 ==> #[trigger] piece(chunk, PACKET_LENGTH as int, q).len() == PACKET_LENGTH,
        piece(chunk, PACKET_LENGTH as int, 64).len() == 27,
        forall|k: int|
            0 <= k < IMAGE_CHUNK_SIZE ==> #[trigger] chunk[k] == piece(chunk, PACKET_LENGTH as int, k / 64)[k % 64],
{
    assert(piece_count(4123, 64) == 65);
    assert forall|q: int| 0 <= q < 64 implies #[trigger] piece(chunk, PACKET_LENGTH as int, q).len() == PACKET_LENGTH by {
        assert((q + 1) * 64 <= 4123);
    }
    assert forall|k: int| 0 <= k < IMAGE_CHUNK_SIZE implies #[trigger] chunk[k] == piece(chunk, PACKET_LENGTH as int, k / 64)[k % 64] by {
        let q = k / 64;
        let j = k % 64;
        assert(k == q * 64 + j && 0 <= j < 64 && 0 <= q <= 64);
    }
}

/// A lower-case hexadecimal digit.
pub open spec fn hex_char(d: int) -> char {
    if d < 10 {
        (48 + d) as char
    } else {
        (87 + d) as char
    }
}

/// Byte `i` of a traced packet: two lower-case hex digits and a space, after
/// a line break and indentation at the start of each further row of 16.
pub open spec fn dump_entry(data: Seq<u8>, i: int) -> Seq<char> {
    (if i > 0 && i % 16 == 0 {
        "\n          "@
    } else {
        Seq::empty()
    }) + seq![hex_char((data[i] / 16) as int), hex_char((data[i] % 16) as int), ' ']
}

/// The traced bytes `0..n` of a packet.
pub open spec fn dump_body(data: Seq<u8>, n: int) -> Seq<char>
    decreases n,
{
    if n <= 0 {
        Seq::empty()
    } else {
        dump_body(data, n - 1) + dump_entry(data, n - 1)
    }
}

/// The debug trace of a packet sent to the keyboard (AK820_DEBUG): the
/// packet length, then its bytes in hex, 16 to a row.
pub open spec fn packet_dump_text(data: Seq<u8>) -> Seq<char> {
    "  TX [64]: "@ + dump_body(data, 64)
}

fn push_hex_digit(text: &mut Vec<char>, d: u8)
    requires
        d < 16,
    ensures
        final(text)@ == old(text)@.push(hex_char(d as int)),
{
    let c = if d < 10 {
        (48 + d) as char
    } else {
        (87 + d) as char
    };
    text.push(c);
}

/// The debug trace of a packet sent to the keyboard.
pub fn packet_dump(data: &[u8; PACKET_LENGTH]) -> (text: Vec<char>)
    ensures
        text@ == packet_dump_text(data@),
{
    let mut text = chars_of("  TX [64]: ");
    let indent = chars_of("\n          ");
    let mut i: usize = 0;
    while i < PACKET_LENGTH
        invariant
            i <= PACKET_LENGTH,
            indent@ == "\n          "@,
            text@ == "  TX [64]: "@ + dump_body(data@, i as int),
        decreases PACKET_LENGTH - i,
    {
        let ghost before = text@;
        if i > 0 && i % 16 == 0 {
            let mut k: usize = 0;
            while k < indent.len()
                invariant
                    k <= indent.len(),
                    text@ == before + indent@.take(k as int),
                decreases indent.len() - k,
            {
                text.push(indent[k]);
                k = k + 1;
                assert(text@ =~= before + indent@.take(k as int));
            }
            assert(indent@.take(indent.len() as int) =~= indent@);
        } else {
            assert(text@ =~= before + Seq::<char>::empty());
        }
        let b = data[i];
        push_hex_digit(&mut text, b / 16);
        push_hex_digit(&mut text, b % 16);
        text.push(' ');
        assert(text@ =~= "  TX [64]: "@ + dump_body(data@, i as int) + dump_entry(data@, i as int));
        i = i + 1;
    }
    text
}

/// What a lighting request sends: "off" goes out as single-on (0x02) with
/// brightness and speed 0; "static" as breath (0x07) with speed 0 and the
/// requested brightness (capped at 5); any other mode as itself with the
/// requested brightness and speed (capped at 5). The colour, rainbow flag and
/// direction always go out as requested.
pub proof fn lemma_lighting_request_sent(
    mode: LightingMode,
    r: u8,
    g: u8,
    b: u8,
    rainbow: bool,
    brightness: u8,
    speed: u8,
    direction: Direction,
)
    ensures
        ({
            let p = mode_data_packet_spec(
                sent_lighting(mode, brightness, speed).0,
                r,
                g,
                b,
                rainbow,
                sent_lighting(mode, brightness, speed).1,
                sent_lighting(mode, brightness, speed).2,
                direction,
            );
            &&& mode == LightingMode::Off ==> p[0] == 0x02 && p[9] == 0 && p[10] == 0
            &&& mode == LightingMode::Static ==> p[0] == 0x07 && p[10] == 0 && p[9] == (if brightness
                <= 5 {
                brightness
            } else {
                5u8
            })
            &&& (mode != LightingMode::Off && mode != LightingMode::Static) ==> p[0] == mode_value(
                mode,
            ) && p[9] == (if brightness <= 5 {
                brightness
            } else {
                5u8
            }) && p[10] == (if speed <= 5 {
                speed
            } else {
                5u8
            })
            &&& p[1] == r && p[2] == g && p[3] == b
            &&& p[8] == (if rainbow {
                1u8
            } else {
                0u8
            })
            &&& p[11] == direction_value(direction)
        }),
{
    crate::protocol::lemma_mode_table();
    let s = sent_lighting(mode, brightness, speed);
    crate::protocol::lemma_mode_packet_bytes(s.0, r, g, b, rainbow, s.1, s.2, direction);
}

/// A full transaction is four reports in this order: START (command 0x18),
/// the preamble, the data, and FINISH (command 0xF0).
pub proof fn lemma_full_transaction_order(preamble: Seq<u8>, data: Seq<u8>)
    ensures
        full_transaction(preamble, data).len() == 4,
        full_transaction(preamble, data)[0] == control_packet_spec(0x18, 0x00, 0x01),
        full_transaction(preamble, data)[1] == preamble,
        full_transaction(preamble, data)[2] == data,
        full_transaction(preamble, data)[3] == control_packet_spec(0xF0, 0x00, 0x01),
{
}

} // verus!
