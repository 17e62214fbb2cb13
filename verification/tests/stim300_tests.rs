use sentireader_rust::errors::ParseError;
use sentireader_rust::stim300_parser::{decode_signed24, parse_stim300_data, IMUMode};

fn crc32_mpeg2(data: &[u8]) -> u32 {
    crc::Crc::<u32>::new(&crc::CRC_32_MPEG_2).checksum(data)
}

fn finish_record(mut body: Vec<u8>, pad: usize) -> Vec<u8> {
    let mut crc_input = body.clone();
    crc_input.resize(crc_input.len() + pad, 0);
    let crc = crc32_mpeg2(&crc_input);
    body.extend_from_slice(&crc.to_be_bytes());
    body
}

#[test]
fn test_stim300_parser() {
    let data: Vec<u8> = vec![
        147, 0, 2, 143, 255, 255, 27, 255, 251, 225, 0, 255, 231, 228, 0, 24, 145, 7, 246, 137, 0,
        255, 52, 121, 0, 39, 132, 64, 23, 20, 0, 217, 1, 244, 57, 44, 117, 39,
    ];

    let imu_msg = parse_stim300_data(&data).expect("record should decode");

    assert_eq!(imu_msg.mode, IMUMode::RAI);

    let ar = imu_msg.angular_velocity.unwrap();
    assert_eq!((ar.x, ar.y, ar.z), (655, -229, -1055));
    // raw / 2^14 reproduces the reference angular rates in deg/s
    assert!((ar.x as f64 / 16384.0 - 0.03997803).abs() < 1e-6);
    assert!((ar.y as f64 / 16384.0 - -0.01397705).abs() < 1e-6);
    assert!((ar.z as f64 / 16384.0 - -0.06439209).abs() < 1e-6);

    let acc = imu_msg.acceleration.unwrap();
    assert_eq!((acc.x, acc.y, acc.z), (-6172, 6289, 521865));
    // raw / 2^19 reproduces the reference accelerations in g
    assert!((acc.x as f64 / 524288.0 - -0.01177216).abs() < 1e-6);
    assert!((acc.y as f64 / 524288.0 - 0.01199532).abs() < 1e-6);
    assert!((acc.z as f64 / 524288.0 - 0.99537849).abs() < 1e-6);

    let incl = imu_msg.inclination.unwrap();
    assert_eq!((incl.x, incl.y, incl.z), (-52103, 10116, 4200212));

    assert_eq!(imu_msg.gyro_status, Some(0));
    assert_eq!(imu_msg.accmeter_status, Some(0));
    assert_eq!(imu_msg.inclmeter_status, Some(0));
    assert_eq!(imu_msg.count, Some(217));
    assert_eq!(imu_msg.latency, Some(500));
    assert_eq!(imu_msg.gyro_temp, None);
    assert_eq!(imu_msg.accmeter_temp, None);
    assert_eq!(imu_msg.inclmeter_temp, None);
}

#[test]
fn signed24_decode_extremes() {
    assert_eq!(decode_signed24(&[0x80, 0x00, 0x00]), -(1 << 23));
    assert_eq!(decode_signed24(&[0x7F, 0xFF, 0xFF]), (1 << 23) - 1);
    assert_eq!(decode_signed24(&[0x00, 0x00, 0x00]), 0);
    assert_eq!(decode_signed24(&[0xFF, 0xFF, 0xFF]), -1);
}

#[test]
fn rate_only_mode_round_trip_fields() {
    // Mode R: id, gyro triad, gyro status, count, latency, CRC (pad 2).
    let mut body = vec![0x90u8];
    body.extend_from_slice(&[0x00, 0x02, 0x8F, 0xFF, 0xFF, 0x1B, 0x80, 0x00, 0x00]);
    body.push(0x05); // gyro status
    body.push(42); // count
    body.extend_from_slice(&[0x01, 0xF4]); // latency 500
    let data = finish_record(body, 2);
    assert_eq!(data.len(), 18);

    let msg = parse_stim300_data(&data).expect("rate record should decode");
    assert_eq!(msg.mode, IMUMode::R);
    let ar = msg.angular_velocity.unwrap();
    assert_eq!((ar.x, ar.y, ar.z), (655, -229, -(1 << 23)));
    assert_eq!(msg.gyro_status, Some(0x05));
    assert_eq!(msg.count, Some(42));
    assert_eq!(msg.latency, Some(500));
    assert_eq!(msg.acceleration, None);
    assert_eq!(msg.inclination, None);
}

#[test]
fn rate_temperature_mode_fields() {
    // Mode RT: id, gyro triad, gyro status, gyro temperature triad and its
    // status, count, latency, CRC (pad 3).
    let mut body = vec![0x94u8];
    body.extend_from_slice(&[0, 0, 1, 0, 0, 2, 0, 0, 3]);
    body.push(0);
    body.extend_from_slice(&[0x19, 0x00, 0xFF, 0x00, 0x80, 0x00]); // 25.0, -1.0, -128.0 degrees raw
    body.push(0x07);
    body.push(9);
    body.extend_from_slice(&[0x00, 0x10]);
    let data = finish_record(body, 3);
    assert_eq!(data.len(), 25);

    let msg = parse_stim300_data(&data).expect("rate+temperature record should decode");
    assert_eq!(msg.mode, IMUMode::RT);
    let gt = msg.gyro_temp.unwrap();
    assert_eq!((gt.x, gt.y, gt.z), (0x1900, -256, -32768));
    // raw / 2^8 gives degrees
    assert!((gt.x as f64 / 256.0 - 25.0).abs() < 1e-9);
    assert_eq!(msg.gyro_temp_status, Some(0x07));
    assert_eq!(msg.count, Some(9));
    assert_eq!(msg.latency, Some(16));
    assert_eq!(msg.acceleration, None);
    assert_eq!(msg.inclination, None);
}

#[test]
fn full_mode_fields() {
    // Mode RAIT, 59 bytes: all three triads, three temperature triads, the
    // six status bytes, count and latency.
    let mut body = vec![0xA7u8];
    for k in 0..9u8 {
        body.extend_from_slice(&[0, 0, k + 1]);
        if k == 2 {
            body.push(0x11); // gyro status
        }
        if k == 5 {
            body.push(0x22); // accelerometer status
        }
        if k == 8 {
            body.push(0x33); // inclinometer status
        }
    }
    assert_eq!(body.len(), 31);
    for k in 0..9u8 {
        body.extend_from_slice(&[0, 10 + k]);
        if k == 2 {
            body.push(0x44);
        }
        if k == 5 {
            body.push(0x55);
        }
        if k == 8 {
            body.push(0x66);
        }
    }
    body.push(200); // count
    body.extend_from_slice(&[0x12, 0x34]);
    let data = finish_record(body, 1);
    assert_eq!(data.len(), 59);

    let msg = parse_stim300_data(&data).expect("full record should decode");
    assert_eq!(msg.mode, IMUMode::RAIT);
    let ar = msg.angular_velocity.unwrap();
    assert_eq!((ar.x, ar.y, ar.z), (1, 2, 3));
    let acc = msg.acceleration.unwrap();
    assert_eq!((acc.x, acc.y, acc.z), (4, 5, 6));
    let incl = msg.inclination.unwrap();
    assert_eq!((incl.x, incl.y, incl.z), (7, 8, 9));
    assert_eq!(msg.gyro_status, Some(0x11));
    assert_eq!(msg.accmeter_status, Some(0x22));
    assert_eq!(msg.inclmeter_status, Some(0x33));
    let gt = msg.gyro_temp.unwrap();
    assert_eq!((gt.x, gt.y, gt.z), (10, 11, 12));
    let at = msg.accmeter_temp.unwrap();
    assert_eq!((at.x, at.y, at.z), (13, 14, 15));
    let it = msg.inclmeter_temp.unwrap();
    assert_eq!((it.x, it.y, it.z), (16, 17, 18));
    assert_eq!(msg.gyro_temp_status, Some(0x44));
    assert_eq!(msg.accmeter_temp_status, Some(0x55));
    assert_eq!(msg.inclmeter_temp_status, Some(0x66));
    assert_eq!(msg.count, Some(200));
    assert_eq!(msg.latency, Some(0x1234));
}

#[test]
fn unsupported_mode_is_rejected() {
    let data = vec![0x42u8; 18];
    assert_eq!(parse_stim300_data(&data), Err(ParseError::UnsupportedMode));
}

#[test]
fn truncated_record_is_rejected() {
    let data = vec![0x93u8, 0, 0]; // RAI wants 38 bytes
    assert_eq!(parse_stim300_data(&data), Err(ParseError::TruncatedPayload));
    assert_eq!(parse_stim300_data(&vec![]), Err(ParseError::TruncatedPayload));
}

#[test]
fn corrupted_crc_is_rejected() {
    let mut data: Vec<u8> = vec![
        147, 0, 2, 143, 255, 255, 27, 255, 251, 225, 0, 255, 231, 228, 0, 24, 145, 7, 246, 137, 0,
        255, 52, 121, 0, 39, 132, 64, 23, 20, 0, 217, 1, 244, 57, 44, 117, 39,
    ];
    data[5] ^= 0x01;
    assert_eq!(parse_stim300_data(&data), Err(ParseError::PayloadChecksum));
}
