use sentireader_rust::dvl_nucleus1000_parser::{
    get_data_id, parse_ahrs_data, parse_altimeter_data, parse_magnetometer_data, parse_track_data,
    DataID, TrackMode,
};
use sentireader_rust::errors::ParseError;

fn base_record(id: u8, len: usize) -> Vec<u8> {
    let mut data = vec![0u8; len];
    data[2] = id;
    data
}

fn put_f32(data: &mut Vec<u8>, rel: usize, v: f32) {
    data[10 + rel..10 + rel + 4].copy_from_slice(&v.to_le_bytes());
}

#[test]
fn test_dvl_nucleus_parser() {
    let mut data = base_record(180, 130);
    data[22] = 0b111;
    data[23] = 0b1110;
    put_f32(&mut data, 24, 1500.0); // sound speed
    put_f32(&mut data, 28, 4.5); // temperature
    put_f32(&mut data, 32, 101.25); // pressure
    put_f32(&mut data, 36, 0.1);
    put_f32(&mut data, 40, 0.2);
    put_f32(&mut data, 44, 0.3);
    put_f32(&mut data, 60, 0.01);
    put_f32(&mut data, 64, 0.02);
    put_f32(&mut data, 68, 0.03);
    put_f32(&mut data, 96, 1.5);
    put_f32(&mut data, 100, -2.5);
    put_f32(&mut data, 104, 0.25);
    put_f32(&mut data, 108, 0.001);
    put_f32(&mut data, 112, 0.002);
    put_f32(&mut data, 116, 0.003);

    let data_id = get_data_id(&data).expect("id should be known");
    assert!(matches!(data_id, DataID::BottomTrackData));

    let msg = parse_track_data(&data, data_id).expect("track record should decode");
    assert!(matches!(msg.tracking_type, TrackMode::BottomTrack));
    assert!(msg.beams_valid);
    assert!(msg.velocity_valid);
    assert_eq!(f32::from_bits(msg.velocity.x), 1.5);
    assert_eq!(f32::from_bits(msg.velocity.y), -2.5);
    assert_eq!(f32::from_bits(msg.velocity.z), 0.25);
    assert_eq!(f32::from_bits(msg.vel_beams.x), 0.1);
    assert_eq!(f32::from_bits(msg.uncertainty_beams.z), 0.03);
    assert_eq!(f32::from_bits(msg.uncertainty_vel.y), 0.002);
    assert_eq!(f32::from_bits(msg.sound_speed), 1500.0);
    assert_eq!(f32::from_bits(msg.temperature), 4.5);
    assert_eq!(f32::from_bits(msg.pressure), 101.25);
    assert_eq!(msg.altitude, 0);
}

#[test]
fn invalid_status_bits_clear_validity() {
    let mut data = base_record(190, 130);
    data[22] = 0b011; // one beam missing
    data[23] = 0b0110; // one axis missing
    let msg = parse_track_data(&data, DataID::WaterTrackData).expect("record should decode");
    assert!(matches!(msg.tracking_type, TrackMode::WaterTrack));
    assert!(!msg.beams_valid);
    assert!(!msg.velocity_valid);
}

#[test]
fn truncated_track_record_is_rejected() {
    let data = base_record(180, 60);
    assert_eq!(
        parse_track_data(&data, DataID::BottomTrackData),
        Err(ParseError::TruncatedPayload)
    );
}

#[test]
fn altimeter_record_decodes() {
    let mut data = base_record(170, 50);
    data[22] = 0b01; // distance valid, quality invalid
    data[24] = 0b10; // temperature valid, pressure invalid
    put_f32(&mut data, 24, 1500.0);
    put_f32(&mut data, 28, 4.5);
    put_f32(&mut data, 32, 101.25);
    put_f32(&mut data, 36, 12.75);

    let msg = parse_altimeter_data(&data).expect("altimeter record should decode");
    assert!(msg.altimeter_dist_valid);
    assert!(!msg.altimeter_quality_valid);
    assert!(msg.temperature_valid);
    assert!(!msg.pressure_valid);
    assert_eq!(f32::from_bits(msg.sound_speed), 1500.0);
    assert_eq!(f32::from_bits(msg.temperature), 4.5);
    assert_eq!(f32::from_bits(msg.pressure), 101.25);
    assert_eq!(f32::from_bits(msg.altitude), 12.75);
}

#[test]
fn magnetometer_record_decodes() {
    let mut data = base_record(135, 60);
    data[11] = 16; // declared offset
    put_f32(&mut data, 16, 0.5);
    put_f32(&mut data, 20, -0.5);
    put_f32(&mut data, 24, 2.0);

    let v = parse_magnetometer_data(&data).expect("magnetometer record should decode");
    assert_eq!(f32::from_bits(v.x), 0.5);
    assert_eq!(f32::from_bits(v.y), -0.5);
    assert_eq!(f32::from_bits(v.z), 2.0);
}

#[test]
fn ahrs_record_decodes() {
    let mut data = base_record(210, 120);
    data[11] = 8;
    put_f32(&mut data, 8, 1.0); // roll
    put_f32(&mut data, 12, 2.0); // pitch
    put_f32(&mut data, 16, 3.0); // heading
    put_f32(&mut data, 20, 0.7); // quaternion w
    put_f32(&mut data, 24, 0.1);
    put_f32(&mut data, 28, 0.2);
    put_f32(&mut data, 32, 0.3);
    put_f32(&mut data, 76, 15.5); // depth at offset + 68

    let msg = parse_ahrs_data(&data).expect("attitude record should decode");
    assert_eq!(f32::from_bits(msg.roll), 1.0);
    assert_eq!(f32::from_bits(msg.pitch), 2.0);
    assert_eq!(f32::from_bits(msg.heading), 3.0);
    assert_eq!(f32::from_bits(msg.orientation.w), 0.7);
    assert_eq!(f32::from_bits(msg.orientation.x), 0.1);
    assert_eq!(f32::from_bits(msg.orientation.y), 0.2);
    assert_eq!(f32::from_bits(msg.orientation.z), 0.3);
    assert_eq!(f32::from_bits(msg.depth), 15.5);
}

#[test]
fn unknown_record_id_is_rejected() {
    let data = base_record(99, 30);
    assert_eq!(get_data_id(&data), Err(ParseError::UnknownRecord));
    assert_eq!(get_data_id(&[0u8; 2]), Err(ParseError::TruncatedPayload));
}
