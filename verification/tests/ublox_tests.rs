use sentireader_rust::errors::ParseError;
use sentireader_rust::ublox_f9p_parser::{
    compute_checksum, decode_ubx_nav_cov_msg, decode_ubx_nav_hpposecef_msg,
    decode_ubx_nav_hpposllh_msg, decode_ubx_nav_pvt_msg, decode_ubx_nav_relposned,
    get_message_type, get_ubx_message_class, MessageType, UBXMessageClass,
};

fn ubx_message(class: u8, id: u8, payload: &[u8]) -> Vec<u8> {
    let mut msg = vec![0xB5, 0x62, class, id];
    msg.extend_from_slice(&(payload.len() as u16).to_le_bytes());
    msg.extend_from_slice(payload);
    let (ck_a, ck_b) = compute_checksum(&msg[2..]);
    msg.push(ck_a);
    msg.push(ck_b);
    msg
}

fn nav_cov_message() -> Vec<u8> {
    let mut msg: Vec<u8> = vec![
        0xB5, 0x62, // sync chars
        0x01, 0x36, // class, id (NAV, COV)
        0x40, 0x00, // length (64 bytes)
        0x12, 0x34, 0x56, 0x78, // iTOW
        0x00, // version
        0x01, 0x01, // posCovValid, velCovValid
    ];
    msg.extend_from_slice(&[0u8; 9]); // reserved
    msg.extend_from_slice(&[0u8; 48]); // twelve zero covariance entries
    msg.push(141);
    msg.push(19);
    msg
}

#[test]
fn test_parse_ubx_nav_cov_message() {
    let message_bytes = nav_cov_message();
    assert_eq!(message_bytes.len(), 72);

    let nav_cov = decode_ubx_nav_cov_msg(&message_bytes).expect("message should decode");
    assert_eq!(nav_cov.version, 0);
    assert_eq!(nav_cov.itow, 0x78563412);
    assert_eq!(nav_cov.pos_cov_valid, 1);
    assert_eq!(nav_cov.vel_cov_valid, 1);
    assert_eq!(f32::from_bits(nav_cov.pos_cov_nn), 0.0);
    assert_eq!(f32::from_bits(nav_cov.vel_cov_dd), 0.0);
}

#[test]
fn fletcher8_pair_matches_trailing_bytes_of_specimens() {
    // the published NAV-COV specimen carries 141, 19
    let cov = nav_cov_message();
    let (ck_a, ck_b) = compute_checksum(&cov[2..cov.len() - 2]);
    assert_eq!((ck_a, ck_b), (141, 19));

    // a NAV-PVT specimen built here: the builder's trailing bytes are the pair
    let pvt = ubx_message(1, 7, &[0u8; 92]);
    let (a, b) = compute_checksum(&pvt[2..pvt.len() - 2]);
    assert_eq!(a, pvt[pvt.len() - 2]);
    assert_eq!(b, pvt[pvt.len() - 1]);
}

#[test]
fn nav_pvt_longitude_scaling() {
    let mut payload = [0u8; 92];
    payload[24..28].copy_from_slice(&123456789i32.to_le_bytes());
    payload[23] = 17; // numSV
    payload[21] = 0b0000_0001; // gnssFixOK
    let msg = ubx_message(1, 7, &payload);

    assert!(matches!(get_ubx_message_class(&msg), UBXMessageClass::Nav));
    assert!(matches!(get_message_type(&msg), MessageType::NavPvt));

    let pvt = decode_ubx_nav_pvt_msg(&msg).expect("message should decode");
    assert_eq!(pvt.lon, 123456789);
    let degrees = pvt.lon as f64 * 1e-7;
    assert!((degrees - 12.3456789).abs() < 1e-9);
    assert_eq!(pvt.num_sv, 17);
    assert!(pvt.gnss_fix_ok);
    assert!(!pvt.diff_soln);
}

#[test]
fn nav_hpposecef_decodes() {
    let mut payload = [0u8; 28];
    payload[0] = 0; // version
    payload[4..8].copy_from_slice(&1000u32.to_le_bytes()); // iTOW
    payload[8..12].copy_from_slice(&(-1234567i32).to_le_bytes()); // ecefX
    payload[12..16].copy_from_slice(&7654321i32.to_le_bytes()); // ecefY
    payload[16..20].copy_from_slice(&42i32.to_le_bytes()); // ecefZ
    payload[20] = 0xFF; // ecefXHp = -1
    payload[21] = 5;
    payload[22] = 0x80; // ecefZHp = -128
    payload[23] = 1; // invalidEcef
    payload[24..28].copy_from_slice(&99u32.to_le_bytes()); // pAcc
    let msg = ubx_message(1, 0x13, &payload);

    assert!(matches!(get_message_type(&msg), MessageType::NavHPPosECEF));
    let ecef = decode_ubx_nav_hpposecef_msg(&msg).expect("message should decode");
    assert_eq!(ecef.itow, 1000);
    assert_eq!(ecef.ecef_x, -1234567);
    assert_eq!(ecef.ecef_y, 7654321);
    assert_eq!(ecef.ecef_z, 42);
    assert_eq!(ecef.ecef_x_hp, -1);
    assert_eq!(ecef.ecef_y_hp, 5);
    assert_eq!(ecef.ecef_z_hp, -128);
    assert_eq!(ecef.invalid_ecef, 1);
    assert_eq!(ecef.p_acc, 99);
}

#[test]
fn nav_hpposllh_decodes() {
    let mut payload = [0u8; 36];
    payload[0] = 0;
    payload[1] = 0; // invalidLlh
    payload[4..8].copy_from_slice(&2000u32.to_le_bytes());
    payload[8..12].copy_from_slice(&123456789i32.to_le_bytes()); // lon
    payload[12..16].copy_from_slice(&(-987654321i32).to_le_bytes()); // lat
    payload[16..20].copy_from_slice(&15000i32.to_le_bytes()); // height
    payload[20..24].copy_from_slice(&14000i32.to_le_bytes()); // hMSL
    payload[24] = 0xFE; // lonHp = -2
    payload[25] = 3; // latHp
    payload[28..32].copy_from_slice(&77u32.to_le_bytes()); // hAcc
    payload[32..36].copy_from_slice(&88u32.to_le_bytes()); // vAcc
    let msg = ubx_message(1, 0x14, &payload);

    assert!(matches!(get_message_type(&msg), MessageType::NavHPPosLLH));
    let llh = decode_ubx_nav_hpposllh_msg(&msg).expect("message should decode");
    assert_eq!(llh.itow, 2000);
    assert_eq!(llh.lon, 123456789);
    assert_eq!(llh.lat, -987654321);
    assert_eq!(llh.height, 15000);
    assert_eq!(llh.h_msl, 14000);
    assert_eq!(llh.lon_hp, -2);
    assert_eq!(llh.lat_hp, 3);
    assert_eq!(llh.h_acc, 77);
    assert_eq!(llh.v_acc, 88);
}

#[test]
fn nav_relposned_decodes() {
    let mut payload = [0u8; 64];
    payload[0] = 1; // version
    payload[2..4].copy_from_slice(&7u16.to_le_bytes()); // refStationId
    payload[4..8].copy_from_slice(&3000u32.to_le_bytes()); // iTOW
    payload[8..12].copy_from_slice(&150i32.to_le_bytes()); // relPosN, cm
    payload[12..16].copy_from_slice(&(-250i32).to_le_bytes()); // relPosE
    payload[16..20].copy_from_slice(&10i32.to_le_bytes()); // relPosD
    payload[20..24].copy_from_slice(&300u32.to_le_bytes()); // relPosLength
    payload[24..28].copy_from_slice(&4500000i32.to_le_bytes()); // relPosHeading, 1e-5 deg
    payload[32] = 0xFF; // relPosHPN = -1
    payload[36..40].copy_from_slice(&11u32.to_le_bytes()); // accN
    payload[60] = 0b0010_0111; // gnssFixOK, diffSoln, relPosValid, moving
    payload[61] = 0b0000_0011; // heading valid, normalized
    let msg = ubx_message(1, 0x3C, &payload);

    assert!(matches!(get_message_type(&msg), MessageType::NavRelPosNed));
    let ned = decode_ubx_nav_relposned(&msg).expect("message should decode");
    assert_eq!(ned.version, 1);
    assert_eq!(ned.ref_station_id, 7);
    assert_eq!(ned.itow, 3000);
    assert_eq!(ned.rel_pos_n, 150);
    assert_eq!(ned.rel_pos_e, -250);
    assert_eq!(ned.rel_pos_d, 10);
    assert_eq!(ned.rel_pos_length, 300);
    assert_eq!(ned.rel_pos_heading, 4500000);
    assert!((ned.rel_pos_heading as f64 * 1e-5 - 45.0).abs() < 1e-9);
    assert_eq!(ned.rel_pos_hpn, -1);
    assert_eq!(ned.acc_n, 11);
    assert!(ned.gnss_fix_ok);
    assert!(ned.diff_soln);
    assert!(ned.rel_pos_valid);
    assert_eq!(ned.carr_soln, 0);
    assert!(ned.is_moving);
    assert!(ned.rel_pos_heading_valid);
    assert!(ned.rel_pos_normalized);
}

#[test]
fn corrupted_ubx_checksum_is_rejected() {
    let mut msg = ubx_message(1, 7, &[0u8; 92]);
    msg[10] ^= 0x01;
    assert_eq!(decode_ubx_nav_pvt_msg(&msg), Err(ParseError::PayloadChecksum));
}

#[test]
fn short_ubx_payload_is_rejected() {
    // a checksum-valid envelope whose payload is shorter than NAV-PVT needs
    let msg = ubx_message(1, 7, &[0u8; 16]);
    assert_eq!(decode_ubx_nav_pvt_msg(&msg), Err(ParseError::TruncatedPayload));
}

#[test]
fn unknown_class_and_id_map_to_unknown() {
    let msg = ubx_message(9, 9, &[0u8; 4]);
    assert!(matches!(get_message_type(&msg), MessageType::Unknown));
    let nav_unknown = ubx_message(1, 99, &[0u8; 4]);
    assert!(matches!(get_message_type(&nav_unknown), MessageType::Unknown));
    assert!(matches!(get_ubx_message_class(&nav_unknown), UBXMessageClass::Nav));
}
