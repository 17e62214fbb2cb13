use sentireader_rust::dvl_a50_parser::{parse_a50_data, parse_i32_dec, parse_u64_dec};
use sentireader_rust::errors::ParseError;

fn with_checksum(sentence: &str) -> Vec<u8> {
    let mut x: u8 = 0;
    for b in sentence.bytes() {
        x ^= b;
    }
    format!("{}*{:02X}", sentence, x).into_bytes()
}

const SENTENCE: &str = "wrz,0.000,-0.001,-0.000,y,0.21,0.001,7.618684207955084e-07;-2.821287807819317e-07;-5.334814900948004e-08;-2.821287807819317e-07;7.512716706514766e-07;4.705292511175685e-08;-5.334814900948004e-08;4.705292511175685e-08;5.9216439751708094e-08,1550144842797701,1550144842962146,80.86,0";

#[test]
fn test_dvl_a50_parser() {
    let data = with_checksum(SENTENCE);
    let msg = parse_a50_data(&data).expect("sentence should decode");

    assert_eq!(msg.velocity.len(), 3);
    assert_eq!(msg.velocity[0], b"0.000".to_vec());
    assert_eq!(msg.velocity[1], b"-0.001".to_vec());
    assert_eq!(msg.velocity[2], b"-0.000".to_vec());
    assert_eq!(msg.valid, b'y');
    assert_eq!(msg.altitude, b"0.21".to_vec());
    assert_eq!(msg.figure_of_merit, b"0.001".to_vec());
    assert_eq!(msg.covariance.len(), 9);
    assert_eq!(msg.covariance[0], b"7.618684207955084e-07".to_vec());
    assert_eq!(msg.covariance[8], b"5.9216439751708094e-08".to_vec());
    assert_eq!(msg.time_of_validity, 1550144842797701);
    assert_eq!(msg.time_of_transmission, 1550144842962146);
    assert_eq!(msg.time, b"80.86".to_vec());
    assert_eq!(msg.status, 0);

    // every velocity and covariance field parses as a float downstream
    for f in msg.velocity.iter().chain(msg.covariance.iter()) {
        let text = String::from_utf8(f.clone()).unwrap();
        text.parse::<f32>().expect("field should parse as float");
    }
}

#[test]
fn junk_before_sentence_is_skipped() {
    let mut data = vec![0xFFu8, 0x00, 0x13];
    data.extend_from_slice(&with_checksum(SENTENCE));
    let msg = parse_a50_data(&data).expect("sentence after junk should decode");
    assert_eq!(msg.time_of_validity, 1550144842797701);
}

#[test]
fn wrong_text_checksum_is_rejected() {
    let mut data = with_checksum(SENTENCE);
    let n = data.len();
    data[n - 1] = if data[n - 1] == b'0' { b'1' } else { b'0' };
    assert_eq!(parse_a50_data(&data), Err(ParseError::TextChecksum));
}

#[test]
fn missing_star_is_rejected() {
    let data = SENTENCE.as_bytes().to_vec();
    assert_eq!(parse_a50_data(&data), Err(ParseError::TextChecksum));
}

#[test]
fn missing_sentence_id_is_rejected() {
    let data = b"abc,1.0,2.0*00".to_vec();
    assert_eq!(parse_a50_data(&data), Err(ParseError::UnknownRecord));
}

#[test]
fn malformed_numeric_field_is_rejected() {
    let data = with_checksum("wrz,0.0x0,-0.001,-0.000,y,0.21,0.001,1;2;3;4;5;6;7;8;9,1,2,3.0,0");
    assert_eq!(parse_a50_data(&data), Err(ParseError::TextFieldParse));
}

#[test]
fn missing_fields_are_rejected() {
    let data = with_checksum("wrz,1.0,2.0,3.0");
    assert_eq!(parse_a50_data(&data), Err(ParseError::TextFieldParse));
}

#[test]
fn unsigned_decimal_parsing_bounds() {
    assert_eq!(parse_u64_dec(&b"0".to_vec()), Ok(0));
    assert_eq!(parse_u64_dec(&b"18446744073709551615".to_vec()), Ok(u64::MAX));
    assert_eq!(
        parse_u64_dec(&b"18446744073709551616".to_vec()),
        Err(ParseError::TextFieldParse)
    );
    assert_eq!(parse_u64_dec(&b"".to_vec()), Err(ParseError::TextFieldParse));
    assert_eq!(parse_u64_dec(&b"12a".to_vec()), Err(ParseError::TextFieldParse));
}

#[test]
fn signed_decimal_parsing_bounds() {
    assert_eq!(parse_i32_dec(&b"0".to_vec()), Ok(0));
    assert_eq!(parse_i32_dec(&b"-2147483648".to_vec()), Ok(i32::MIN));
    assert_eq!(parse_i32_dec(&b"2147483647".to_vec()), Ok(i32::MAX));
    assert_eq!(parse_i32_dec(&b"2147483648".to_vec()), Err(ParseError::TextFieldParse));
    assert_eq!(parse_i32_dec(&b"-2147483649".to_vec()), Err(ParseError::TextFieldParse));
    assert_eq!(parse_i32_dec(&b"-".to_vec()), Err(ParseError::TextFieldParse));
}
