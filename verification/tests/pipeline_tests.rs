use sentireader_rust::dvl_nucleus1000_parser::TrackMode;
use sentireader_rust::errors::ParseError;
use sentireader_rust::sentireader::{SentiReader, SentiboardMessage};
use sentireader_rust::stim300_parser::IMUMode;
use sentireader_rust::utils::fletcher16;
use sentireader_rust::{dispatch_frame, get_sensor_id, SensorID, SensorSample};

fn message(port_id: u8, payload: Vec<u8>) -> SentiboardMessage {
    SentiboardMessage {
        sensor_id: port_id,
        protocol_version: 1,
        time_of_validity: 1,
        time_of_arrival: 2,
        time_of_transport: 3,
        onboard_timestamp: None,
        sensor_data: payload,
    }
}

#[test]
fn port_map_matches_deployment() {
    assert_eq!(get_sensor_id(1), Ok(SensorID::DVL_NUCLEUS));
    assert_eq!(get_sensor_id(2), Ok(SensorID::STIM300));
    assert_eq!(get_sensor_id(4), Ok(SensorID::DVL_A50));
    assert_eq!(get_sensor_id(0), Err(ParseError::UnsupportedPort));
    assert_eq!(get_sensor_id(9), Err(ParseError::UnsupportedPort));
}

#[test]
fn dispatches_inertial_frames() {
    let stim_payload: Vec<u8> = vec![
        147, 0, 2, 143, 255, 255, 27, 255, 251, 225, 0, 255, 231, 228, 0, 24, 145, 7, 246, 137, 0,
        255, 52, 121, 0, 39, 132, 64, 23, 20, 0, 217, 1, 244, 57, 44, 117, 39,
    ];
    let sample = dispatch_frame(&message(2, stim_payload)).expect("inertial frame should decode");
    match sample {
        SensorSample::Inertial(imu) => {
            assert_eq!(imu.mode, IMUMode::RAI);
            assert_eq!(imu.count, Some(217));
        },
        other => panic!("expected an inertial sample, got {:?}", other),
    }
}

#[test]
fn dispatches_track_frames() {
    let mut payload = vec![0u8; 130];
    payload[2] = 180;
    payload[22] = 0b111;
    payload[23] = 0b1110;
    let sample = dispatch_frame(&message(1, payload)).expect("track frame should decode");
    match sample {
        SensorSample::DopplerBinary(m) => {
            assert!(m.beams_valid);
            assert!(m.velocity_valid);
        },
        other => panic!("expected a binary Doppler sample, got {:?}", other),
    }
}

#[test]
fn passes_undecoded_records_through_as_data() {
    let mut payload = vec![0u8; 30];
    payload[2] = 160; // string record: recognized, not decoded
    let sample = dispatch_frame(&message(1, payload)).expect("record should pass through");
    assert!(matches!(
        sample,
        SensorSample::Passthrough(
            sentireader_rust::dvl_nucleus1000_parser::DataID::StringData
        )
    ));
}

#[test]
fn unsupported_port_is_rejected() {
    let r = dispatch_frame(&message(7, vec![0u8; 10]));
    assert_eq!(r.unwrap_err(), ParseError::UnsupportedPort);
}

#[test]
fn frame_to_sample_end_to_end() {
    // one board frame on port 1 carrying a bottom-track record, through the
    // framer and the dispatcher to a typed sample
    let mut payload = vec![0u8; 130];
    payload[2] = 180;
    payload[22] = 0b111;
    payload[23] = 0b1110;
    payload[10 + 96..10 + 100].copy_from_slice(&1.5f32.to_le_bytes());

    let body_len = (12 + payload.len()) as u16;
    let mut frame = vec![0x5E, 0x42, (body_len & 0xFF) as u8, (body_len >> 8) as u8, 1, 1];
    let hck = fletcher16(&frame);
    frame.push((hck & 0xFF) as u8);
    frame.push((hck >> 8) as u8);
    let mut body: Vec<u8> = Vec::new();
    body.extend_from_slice(&7u32.to_le_bytes());
    body.extend_from_slice(&8u32.to_le_bytes());
    body.extend_from_slice(&9u32.to_le_bytes());
    body.extend_from_slice(&payload);
    let bck = fletcher16(&body);
    frame.extend_from_slice(&body);
    frame.push((bck & 0xFF) as u8);
    frame.push((bck >> 8) as u8);

    let mut reader = SentiReader::new();
    reader.feed(&frame);
    let msg = reader.read_package().expect("frame should be delivered");
    let sample = dispatch_frame(&msg).expect("payload should decode");
    match sample {
        SensorSample::DopplerBinary(m) => {
            assert!(matches!(m.tracking_type, TrackMode::BottomTrack));
            assert!(m.beams_valid);
            assert!(m.velocity_valid);
            assert_eq!(f32::from_bits(m.velocity.x), 1.5);
        },
        other => panic!("expected a binary Doppler sample, got {:?}", other),
    }
}

#[test]
fn unknown_nucleus_record_is_rejected() {
    let mut payload = vec![0u8; 30];
    payload[2] = 99;
    let r = dispatch_frame(&message(1, payload));
    assert_eq!(r.unwrap_err(), ParseError::UnknownRecord);
}
