use sentireader_rust::errors::ParseError;
use sentireader_rust::sentireader::SentiReader;
use sentireader_rust::stim300_parser::{parse_stim300_data, IMUMode};
use sentireader_rust::utils::fletcher16;

fn build_frame(port_id: u8, payload: &[u8], board_timestamp: Option<f64>) -> Vec<u8> {
    let body_len = (12 + payload.len()) as u16;
    let variant: u8 = if board_timestamp.is_some() { 0x43 } else { 0x42 };
    let mut header = vec![
        0x5E,
        variant,
        (body_len & 0xFF) as u8,
        (body_len >> 8) as u8,
        port_id,
        1,
    ];
    let mut normalized = header.clone();
    normalized[1] = 0x42;
    let hck = fletcher16(&normalized);
    header.push((hck & 0xFF) as u8);
    header.push((hck >> 8) as u8);

    let mut body: Vec<u8> = Vec::new();
    if let Some(ts) = board_timestamp {
        body.extend_from_slice(&ts.to_le_bytes());
    }
    body.extend_from_slice(&11u32.to_le_bytes());
    body.extend_from_slice(&22u32.to_le_bytes());
    body.extend_from_slice(&33u32.to_le_bytes());
    body.extend_from_slice(payload);
    let bck = fletcher16(&body);

    let mut frame = header;
    frame.extend_from_slice(&body);
    frame.push((bck & 0xFF) as u8);
    frame.push((bck >> 8) as u8);
    frame
}

fn bottom_track_payload() -> Vec<u8> {
    let mut payload = vec![0u8; 130];
    payload[2] = 180; // bottom-track data series id
    payload[22] = 0b111; // all three beams valid
    payload[23] = 0b1110; // velocity valid on all axes
    payload[10 + 96..10 + 100].copy_from_slice(&1.5f32.to_le_bytes());
    payload[10 + 100..10 + 104].copy_from_slice(&(-2.5f32).to_le_bytes());
    payload[10 + 104..10 + 108].copy_from_slice(&0.25f32.to_le_bytes());
    payload
}

#[test]
fn fletcher16_of_empty_is_zero() {
    assert_eq!(fletcher16(&[]), 0);
}

#[test]
fn fletcher16_is_order_sensitive() {
    // regression: a permuted pair must not collide
    assert_ne!(fletcher16(&[1, 2]), fletcher16(&[2, 1]));
    assert_eq!(fletcher16(&[1, 2]), 0x0403);
    assert_eq!(fletcher16(&[2, 1]), 0x0503);
}

#[test]
fn reads_one_valid_frame() {
    let payload = bottom_track_payload();
    let frame = build_frame(1, &payload, None);

    let mut reader = SentiReader::new();
    reader.feed(&frame);
    let msg = reader.read_package().expect("valid frame should be delivered");
    assert_eq!(msg.sensor_id, 1);
    assert_eq!(msg.protocol_version, 1);
    assert_eq!(msg.time_of_validity, 11);
    assert_eq!(msg.time_of_arrival, 22);
    assert_eq!(msg.time_of_transport, 33);
    assert_eq!(msg.onboard_timestamp, None);
    assert_eq!(msg.sensor_data, payload);
}

#[test]
fn discards_junk_before_frame() {
    let payload = bottom_track_payload();
    let mut stream = vec![0xFFu8, 0xFF];
    stream.extend_from_slice(&build_frame(1, &payload, None));

    let mut reader = SentiReader::new();
    reader.feed(&stream);
    let msg = reader.read_package().expect("frame after junk should be delivered");
    assert_eq!(msg.sensor_id, 1);
    assert_eq!(msg.sensor_data, payload);
}

#[test]
fn flipped_body_byte_fails_then_next_frame_decodes() {
    let payload = bottom_track_payload();
    let mut broken = build_frame(1, &payload, None);
    let body_byte = broken.len() - 10;
    broken[body_byte] ^= 0x40;
    let mut stream = broken;
    stream.extend_from_slice(&build_frame(1, &payload, None));

    let mut reader = SentiReader::new();
    reader.feed(&stream);
    assert_eq!(reader.read_package().unwrap_err(), ParseError::BodyChecksum);
    let msg = reader.read_package().expect("next frame should still decode");
    assert_eq!(msg.sensor_data, payload);
}

#[test]
fn flipped_header_byte_fails() {
    let payload = bottom_track_payload();
    let mut broken = build_frame(1, &payload, None);
    broken[4] ^= 0x01; // port id, inside the header checksum region
    let mut reader = SentiReader::new();
    reader.feed(&broken);
    assert_eq!(reader.read_package().unwrap_err(), ParseError::HeaderChecksum);
}

#[test]
fn variant_c_carries_board_timestamp() {
    let stim_payload: Vec<u8> = vec![
        147, 0, 2, 143, 255, 255, 27, 255, 251, 225, 0, 255, 231, 228, 0, 24, 145, 7, 246, 137, 0,
        255, 52, 121, 0, 39, 132, 64, 23, 20, 0, 217, 1, 244, 57, 44, 117, 39,
    ];
    let frame = build_frame(2, &stim_payload, Some(123.5));

    let mut reader = SentiReader::new();
    reader.feed(&frame);
    let msg = reader.read_package().expect("variant C frame should be delivered");
    assert_eq!(msg.sensor_id, 2);
    let bits = msg.onboard_timestamp.expect("board timestamp should be present");
    assert_eq!(f64::from_bits(bits), 123.5);

    let imu = parse_stim300_data(&msg.sensor_data).expect("payload should decode");
    assert_eq!(imu.mode, IMUMode::RAI);
}

#[test]
fn resync_exhausted_then_success() {
    let payload = bottom_track_payload();
    let mut stream = vec![0u8; 512];
    stream.extend_from_slice(&build_frame(1, &payload, None));

    let mut reader = SentiReader::new();
    reader.feed(&stream);
    assert_eq!(reader.read_package().unwrap_err(), ParseError::ResyncExhausted);
    let msg = reader.read_package().expect("frame after the junk run should decode");
    assert_eq!(msg.sensor_data, payload);
}

#[test]
fn truncated_stream_waits_for_more_bytes() {
    let payload = bottom_track_payload();
    let frame = build_frame(1, &payload, None);
    let (first, second) = frame.split_at(20);

    let mut reader = SentiReader::new();
    reader.feed(&first.to_vec());
    assert_eq!(reader.read_package().unwrap_err(), ParseError::TruncatedStream);
    reader.feed(&second.to_vec());
    let msg = reader.read_package().expect("completed frame should decode");
    assert_eq!(msg.sensor_data, payload);
}

#[test]
fn two_frames_in_sequence() {
    let payload_a = bottom_track_payload();
    let mut payload_b = bottom_track_payload();
    payload_b[2] = 190; // water track
    let mut stream = build_frame(1, &payload_a, None);
    stream.extend_from_slice(&[0xAAu8, 0xBB, 0xCC]);
    stream.extend_from_slice(&build_frame(1, &payload_b, None));

    let mut reader = SentiReader::new();
    reader.feed(&stream);
    let first = reader.read_package().expect("first frame");
    let second = reader.read_package().expect("second frame");
    assert_eq!(first.sensor_data, payload_a);
    assert_eq!(second.sensor_data, payload_b);
}
