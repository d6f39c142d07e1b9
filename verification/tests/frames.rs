use precir::commands::{
    build_data_frames, crc16, get_final_frame, get_image_parameter_frame, get_wakeup_command,
};

const PLID: [u8; 4] = [0xd0, 0x39, 0xc3, 0xde];

/// Recomputes the CRC over the frame's body (between the 4-byte header
/// and the 2-byte trailer) and checks it against the trailer, low byte
/// first.
fn assert_crc_matches(frame: &[u8]) {
    assert!(frame.len() >= 6);
    let body = &frame[4..frame.len() - 2];
    let crc = crc16(body);
    assert_eq!(frame[frame.len() - 2], (crc & 0xFF) as u8);
    assert_eq!(frame[frame.len() - 1], (crc >> 8) as u8);
}

#[test]
fn crc16_of_empty_input_is_the_seed() {
    assert_eq!(crc16(&[]), 0x8408);
}

#[test]
fn crc16_known_vectors() {
    assert_eq!(crc16(&[0x01]), 0x9d45);
    assert_eq!(crc16(b"123456789"), 0x837f);
}

#[test]
fn crc16_is_reproducible() {
    let data = [0x85, 0xde, 0xc3, 0x39, 0xd0, 0x17];
    assert_eq!(crc16(&data), crc16(&data));
}

#[test]
fn wakeup_frame_exact_bytes() {
    let frame = get_wakeup_command(PLID);
    let expected: Vec<u8> = vec![
        0x00, 0x00, 0x00, 0x40, // header
        0x85, // version
        0xde, 0xc3, 0x39, 0xd0, // PLID reversed
        0x17, // command
        0x01, // parameter
        0x00, 0x00, // key
        0x00, // reserved
        0x01, 0x01, 0x01, 0x01, 0x01, 0x01, 0x01, 0x01, 0x01, 0x01, 0x01, 0x01, 0x01, 0x01,
        0x01, 0x01, 0x01, 0x01, 0x01, 0x01, 0x01, 0x01, // filler
        0x02, 0x7f, // CRC, low byte first
    ];
    assert_eq!(frame, expected);
}

#[test]
fn wakeup_frame_has_length_38() {
    assert_eq!(get_wakeup_command([0x00; 4]).len(), 38);
    assert_eq!(get_wakeup_command([0xff, 0x01, 0x02, 0x03]).len(), 38);
}

#[test]
fn wakeup_frame_crc_round_trip() {
    assert_crc_matches(&get_wakeup_command(PLID));
    assert_crc_matches(&get_wakeup_command([0x00; 4]));
}

#[test]
fn image_parameter_frame_layout() {
    let frame = get_image_parameter_frame(PLID, 16, 16, 0, 0, 32);
    assert_eq!(frame.len(), 38);
    assert_eq!(&frame[0..4], &[0x00, 0x00, 0x00, 0x40]);
    assert_eq!(frame[4], 0x85);
    assert_eq!(&frame[5..9], &[0xde, 0xc3, 0x39, 0xd0]);
    assert_eq!(frame[9], 0x34);
    assert_eq!(&frame[10..14], &[0x00, 0x00, 0x00, 0x05]);
    // image data length, big-endian
    assert_eq!(&frame[14..16], &[0x00, 0x20]);
    // unused, type (raw), page
    assert_eq!(&frame[16..19], &[0x00, 0x00, 0x01]);
    // width, height, x offset, y offset, big-endian
    assert_eq!(&frame[19..21], &[0x00, 0x10]);
    assert_eq!(&frame[21..23], &[0x00, 0x10]);
    assert_eq!(&frame[23..25], &[0x00, 0x00]);
    assert_eq!(&frame[25..27], &[0x00, 0x00]);
    // key, marker, reserved
    assert_eq!(&frame[27..29], &[0x00, 0x00]);
    assert_eq!(frame[29], 0x88);
    assert_eq!(&frame[30..36], &[0x00; 6]);
    assert_eq!(&frame[36..38], &[0xd6, 0x80]);
    assert_crc_matches(&frame);
}

#[test]
fn image_parameter_frame_emits_values_verbatim() {
    let frame = get_image_parameter_frame(PLID, 0x0102, 0x0304, 0x0506, 0x0708, 0xABCD);
    assert_eq!(&frame[14..16], &[0xAB, 0xCD]);
    assert_eq!(&frame[19..21], &[0x01, 0x02]);
    assert_eq!(&frame[21..23], &[0x03, 0x04]);
    assert_eq!(&frame[23..25], &[0x05, 0x06]);
    assert_eq!(&frame[25..27], &[0x07, 0x08]);
    assert_crc_matches(&frame);
}

#[test]
fn final_frame_layout() {
    let frame = get_final_frame(PLID);
    assert_eq!(frame.len(), 38);
    assert_eq!(&frame[0..4], &[0x00, 0x00, 0x00, 0x40]);
    assert_eq!(frame[4], 0x85);
    assert_eq!(&frame[5..9], &[0xde, 0xc3, 0x39, 0xd0]);
    assert_eq!(frame[9], 0x34);
    assert_eq!(&frame[10..14], &[0x00, 0x00, 0x00, 0x01]);
    assert_eq!(&frame[14..36], &[0x00; 22]);
    assert_eq!(&frame[36..38], &[0x7f, 0xbd]);
    assert_crc_matches(&frame);
}

#[test]
fn data_frames_of_empty_input_are_empty() {
    let frames = build_data_frames(PLID, &[]);
    assert!(frames.is_empty());
}

#[test]
fn data_frames_chunking_covers_payload_without_gaps() {
    let payload: Vec<u8> = (0u8..45).collect();
    let frames = build_data_frames(PLID, &payload);
    assert_eq!(frames.len(), 3);
    let mut rebuilt: Vec<u8> = Vec::new();
    let mut total = 0;
    for (i, frame) in frames.iter().enumerate() {
        assert_eq!(&frame[0..4], &[0x00, 0x00, 0x00, 0x40]);
        assert_eq!(frame[4], 0x85);
        assert_eq!(&frame[5..9], &[0xde, 0xc3, 0x39, 0xd0]);
        assert_eq!(frame[9], 0x34);
        assert_eq!(&frame[10..14], &[0x00, 0x00, 0x00, 0x20]);
        // sequential chunk index, big-endian, starting at 0
        assert_eq!(&frame[14..16], &[0x00, i as u8]);
        let chunk = &frame[16..frame.len() - 2];
        assert!(chunk.len() <= 20);
        total += chunk.len();
        rebuilt.extend_from_slice(chunk);
        assert_crc_matches(frame);
    }
    assert_eq!(total, payload.len());
    assert_eq!(rebuilt, payload);
}

#[test]
fn data_frames_chunk_sizes() {
    // 45 bytes split as 20 + 20 + 5
    let payload = [0xAA; 45];
    let frames = build_data_frames(PLID, &payload);
    assert_eq!(frames.len(), 3);
    assert_eq!(frames[0].len(), 38);
    assert_eq!(frames[1].len(), 38);
    assert_eq!(frames[2].len(), 23);
}

#[test]
fn data_frames_exact_multiple_of_chunk_size() {
    let payload = [0x00; 40];
    let frames = build_data_frames(PLID, &payload);
    assert_eq!(frames.len(), 2);
    assert_eq!(frames[0].len(), 38);
    assert_eq!(frames[1].len(), 38);
    let first = &frames[0];
    assert_eq!(&first[36..38], &[0x97, 0x84]);
}

#[test]
fn data_frames_index_counter_restarts_each_call() {
    let payload = [0x55; 25];
    let first_call = build_data_frames(PLID, &payload);
    let second_call = build_data_frames(PLID, &payload);
    assert_eq!(first_call, second_call);
    assert_eq!(&second_call[0][14..16], &[0x00, 0x00]);
}
