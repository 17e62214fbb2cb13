use vstd::prelude::*;

use crate::errors::ParseError;
use crate::utils::{get_u16_from_be_byte_array, get_u32_from_be_byte_array, u16_be_at, u32_be_at};

verus! {

// R: Rate, A: Acceleration, I: Inclination, T: Temperature
#[derive(Debug, Clone, Copy, PartialEq, Eq, Structural)]
pub enum IMUMode {
    R,
    RA,
    RI,
    RAI,
    RT,
    RAT,
    RIT,
    RAIT,
}

/// Raw 24-bit signed samples of one sensor triad, one value per axis.
/// The physical quantity is the raw value divided by two to the power of the
/// divisor exponent of the sensor kind; the division is left to the caller,
/// keeping this decoder exact.
#[derive(Debug, Clone, Copy, PartialEq, Eq, Structural)]
pub struct SensorTriad {
    pub x: i32,
    pub y: i32,
    pub z: i32,
}

/// Raw 16-bit signed temperature samples of one sensor triad; degrees are the
/// raw value divided by 256.
#[derive(Debug, Clone, Copy, PartialEq, Eq, Structural)]
pub struct TempTriad {
    pub x: i16,
    pub y: i16,
    pub z: i16,
}

/// One decoded inertial record.  Exactly the fields the mode mandates are
/// populated; `latency` is the raw big-endian 16-bit value in board units.
#[derive(Debug, Clone, Copy, PartialEq, Eq, Structural)]
pub struct IMUMessage {
    pub mode: IMUMode,
    pub angular_velocity: Option<SensorTriad>,
    pub gyro_status: Option<u8>,
    pub gyro_temp: Option<TempTriad>,
    pub gyro_temp_status: Option<u8>,
    pub acceleration: Option<SensorTriad>,
    pub accmeter_status: Option<u8>,
    pub accmeter_temp: Option<TempTriad>,
    pub accmeter_temp_status: Option<u8>,
    pub inclination: Option<SensorTriad>,
    pub inclmeter_status: Option<u8>,
    pub inclmeter_temp: Option<TempTriad>,
    pub inclmeter_temp_status: Option<u8>,
    pub count: Option<u8>,
    pub latency: Option<u16>,
}

/// The mode a payload's identifier byte selects, if any.
pub open spec fn stim_mode_of(id: u8) -> Option<IMUMode> {
    if id == 0x90 {
        Some(IMUMode::R)
    } else if id == 0x91 {
        Some(IMUMode::RA)
    } else if id == 0x92 {
        Some(IMUMode::RI)
    } else if id == 0x93 {
        Some(IMUMode::RAI)
    } else if id == 0x94 {
        Some(IMUMode::RT)
    } else if id == 0xA5 {
        Some(IMUMode::RAT)
    } else if id == 0xA6 {
        Some(IMUMode::RIT)
    } else if id == 0xA7 {
        Some(IMUMode::RAIT)
    } else {
        None
    }
}

/// The identifier byte of a mode.
pub open spec fn stim_mode_id(m: IMUMode) -> u8 {
    match m {
        IMUMode::R => 0x90,
        IMUMode::RA => 0x91,
        IMUMode::RI => 0x92,
        IMUMode::RAI => 0x93,
        IMUMode::RT => 0x94,
        IMUMode::RAT => 0xA5,
        IMUMode::RIT => 0xA6,
        IMUMode::RAIT => 0xA7,
    }
}

/// The record length in bytes of a mode, CRC included.
pub open spec fn stim_data_length(m: IMUMode) -> int {
    match m {
        IMUMode::R => 18,
        IMUMode::RA => 28,
        IMUMode::RI => 28,
        IMUMode::RAI => 38,
        IMUMode::RT => 25,
        IMUMode::RAT => 42,
        IMUMode::RIT => 42,
        IMUMode::RAIT => 59,
    }
}

/// Number of zero bytes appended before the CRC is computed, per mode, to
/// satisfy the sender's word alignment.
pub open spec fn stim_crc_pad(m: IMUMode) -> int {
    match m {
        IMUMode::R => 2,
        IMUMode::RA => 0,
        IMUMode::RI => 0,
        IMUMode::RAI => 2,
        IMUMode::RT => 3,
        IMUMode::RAT => 2,
        IMUMode::RIT => 2,
        IMUMode::RAIT => 1,
    }
}

pub open spec fn mode_has_acc(m: IMUMode) -> bool {
    m == IMUMode::RA || m == IMUMode::RAI || m == IMUMode::RAT || m == IMUMode::RAIT
}

pub open spec fn mode_has_incl(m: IMUMode) -> bool {
    m == IMUMode::RI || m == IMUMode::RAI || m == IMUMode::RIT || m == IMUMode::RAIT
}

pub open spec fn mode_has_temp(m: IMUMode) -> bool {
    m == IMUMode::RT || m == IMUMode::RAT || m == IMUMode::RIT || m == IMUMode::RAIT
}

// Byte offsets of the record regions.  The angular-rate triad always starts
// at offset 1 with its status at 10; each triad a mode omits shifts what
// follows left by 10 bytes, each omitted temperature triad by 7.
pub open spec fn incl_pos(m: IMUMode) -> int {
    if mode_has_acc(m) {
        21
    } else {
        11
    }
}

pub open spec fn temp_base(m: IMUMode) -> int {
    11 + (if mode_has_acc(m) {
        10int
    } else {
        0
    }) + (if mode_has_incl(m) {
        10int
    } else {
        0
    })
}

pub open spec fn incl_temp_pos(m: IMUMode) -> int {
    temp_base(m) + 7 + (if mode_has_acc(m) {
        7int
    } else {
        0
    })
}

/// The 24-bit two's-complement value of three big-endian bytes.
pub open spec fn i24_of(b0: u8, b1: u8, b2: u8) -> int {
    let x = 65536 * b0 + 256 * b1 + b2;
    if b0 >= 128 {
        x - 0x100_0000
    } else {
        x
    }
}

/// The 24-bit signed big-endian value stored at `i`.
pub open spec fn i24_be_at(s: Seq<u8>, i: int) -> int {
    i24_of(s[i], s[i + 1], s[i + 2])
}

/// The 16-bit two's-complement value of two big-endian bytes.
pub open spec fn i16_of(b0: u8, b1: u8) -> int {
    let x = 256 * b0 + b1;
    if b0 >= 128 {
        x - 0x1_0000
    } else {
        x
    }
}

/// The 16-bit signed big-endian value stored at `i`.
pub open spec fn i16_be_at(s: Seq<u8>, i: int) -> int {
    i16_of(s[i], s[i + 1])
}

pub open spec fn triad_is(t: SensorTriad, data: Seq<u8>, pos: int) -> bool {
    &&& t.x == i24_be_at(data, pos)
    &&& t.y == i24_be_at(data, pos + 3)
    &&& t.z == i24_be_at(data, pos + 6)
}

pub open spec fn temp_triad_is(t: TempTriad, data: Seq<u8>, pos: int) -> bool {
    &&& t.x == i16_be_at(data, pos)
    &&& t.y == i16_be_at(data, pos + 2)
    &&& t.z == i16_be_at(data, pos + 4)
}

/// The bytes the record CRC is computed over: everything before the CRC word,
/// followed by the mode's zero padding.
pub open spec fn stim_crc_input(data: Seq<u8>, m: IMUMode) -> Seq<u8> {
    data.subrange(0, stim_data_length(m) - 4) + Seq::new(stim_crc_pad(m) as nat, |i: int| 0u8)
}

/// All fields of `msg` hold exactly the values the mode's layout assigns
/// from `data`; fields of absent sensors are `None`.
pub open spec fn stim_decoded(msg: IMUMessage, data: Seq<u8>, m: IMUMode) -> bool {
    let len = stim_data_length(m);
    &&& msg.mode == m
    &&& (msg.angular_velocity matches Some(t) && triad_is(t, data, 1))
    &&& msg.gyro_status == Some(data[10])
    &&& (if mode_has_acc(m) {
        &&& (msg.acceleration matches Some(t) && triad_is(t, data, 11))
        &&& msg.accmeter_status == Some(data[20])
    } else {
        msg.acceleration is None && msg.accmeter_status is None
    })
    &&& (if mode_has_incl(m) {
        &&& (msg.inclination matches Some(t) && triad_is(t, data, incl_pos(m)))
        &&& msg.inclmeter_status == Some(data[incl_pos(m) + 9])
    } else {
        msg.inclination is None && msg.inclmeter_status is None
    })
    &&& (if mode_has_temp(m) {
        &&& (msg.gyro_temp matches Some(t) && temp_triad_is(t, data, temp_base(m)))
        &&& msg.gyro_temp_status == Some(data[temp_base(m) + 6])
    } else {
        msg.gyro_temp is None && msg.gyro_temp_status is None
    })
    &&& (if mode_has_temp(m) && mode_has_acc(m) {
        &&& (msg.accmeter_temp matches Some(t) && temp_triad_is(t, data, temp_base(m) + 7))
        &&& msg.accmeter_temp_status == Some(data[temp_base(m) + 13])
    } else {
        msg.accmeter_temp is None && msg.accmeter_temp_status is None
    })
    &&& (if mode_has_temp(m) && mode_has_incl(m) {
        &&& (msg.inclmeter_temp matches Some(t) && temp_triad_is(t, data, incl_temp_pos(m)))
        &&& msg.inclmeter_temp_status == Some(data[incl_temp_pos(m) + 6])
    } else {
        msg.inclmeter_temp is None && msg.inclmeter_temp_status is None
    })
    &&& msg.count == Some(data[len - 7])
    &&& msg.latency == Some(u16_be_at(data, len - 6) as u16)
}

/// What parsing an inertial payload must return, given the checksum
/// `expected` computed over the padded record body: the empty or too-short
/// payload and the unknown mode are rejected, and the record is accepted
/// exactly when `expected` equals the trailing checksum word, with every
/// populated field pinned by the mode's layout.
pub open spec fn stim_parse_post(
    r: Result<IMUMessage, ParseError>,
    data: Seq<u8>,
    expected: u32,
) -> bool {
    if data.len() == 0 {
        r == Err::<IMUMessage, ParseError>(ParseError::TruncatedPayload)
    } else {
        match stim_mode_of(data[0]) {
            None => r == Err::<IMUMessage, ParseError>(ParseError::UnsupportedMode),
            Some(m) => {
                if data.len() < stim_data_length(m) {
                    r == Err::<IMUMessage, ParseError>(ParseError::TruncatedPayload)
                } else {
                    &&& (expected == u32_be_at(data, stim_data_length(m) - 4) <==> r is Ok)
                    &&& (r matches Ok(msg) ==> stim_decoded(msg, data, m))
                    &&& (r is Err ==> r == Err::<IMUMessage, ParseError>(
                        ParseError::PayloadChecksum,
                    ))
                }
            },
        }
    }
}

/// The checksum the sender must have written for a payload: the CRC-32
/// MPEG-2 of the padded record body selected by the payload's mode byte.
pub open spec fn stim_expected_crc(data: Seq<u8>) -> u32
    recommends
        data.len() > 0,
        stim_mode_of(data[0]) is Some,
{
    crc32_mpeg2_of(stim_crc_input(data, stim_mode_of(data[0])->0))
}

/// Name for what the crc crate returns: the CRC-32 MPEG-2 checksum
/// (polynomial 0x04C11DB7, initial value 0xFFFFFFFF, no reflection, no final
/// exclusive-or) of a byte sequence.
pub uninterp spec fn crc32_mpeg2_of(data: Seq<u8>) -> u32;

/// Relies on crc::Crc::<u32>::checksum with the catalog's CRC_32_MPEG_2
/// algorithm: the checksum is a function of the input bytes alone.
#[verifier::external_body]
fn crc32_mpeg2(data: &Vec<u8>) -> (r: u32)
    ensures
        r == crc32_mpeg2_of(data@),
{
    crc::Crc::<u32>::new(&crc::CRC_32_MPEG_2).checksum(data.as_slice())
}

/// The mode, record length and CRC padding selected by a mode identifier
/// byte; `UnsupportedMode` for any other identifier.
fn get_data_information(data_identifier: u8) -> (r: Result<(IMUMode, usize, usize), ParseError>)
    ensures
        (stim_mode_of(data_identifier) matches Some(m) ==> r matches Ok(info) && info.0 == m
            && info.1 == stim_data_length(m) && info.2 == stim_crc_pad(m)),
        stim_mode_of(data_identifier) is None ==> r == Err::<(IMUMode, usize, usize), ParseError>(
            ParseError::UnsupportedMode,
        ),
{
    match data_identifier {
        0x90 => Ok((IMUMode::R, 18, 2)),
        0x91 => Ok((IMUMode::RA, 28, 0)),
        0x92 => Ok((IMUMode::RI, 28, 0)),
        0x93 => Ok((IMUMode::RAI, 38, 2)),
        0x94 => Ok((IMUMode::RT, 25, 3)),
        0xA5 => Ok((IMUMode::RAT, 42, 2)),
        0xA6 => Ok((IMUMode::RIT, 42, 2)),
        0xA7 => Ok((IMUMode::RAIT, 59, 1)),
        _ => Err(ParseError::UnsupportedMode),
    }
}

/// Decodes three big-endian bytes as a 24-bit two's-complement integer:
/// the most significant bit of the first byte carries weight minus two to
/// the twenty-fourth.
pub fn decode_signed24(output: &[u8]) -> (r: i32)
    requires
        output@.len() == 3,
    ensures
        r == i24_of(output@[0], output@[1], output@[2]),
        -0x80_0000 <= r < 0x80_0000,
{
    let x: i32 = 65536 * output[0] as i32 + 256 * output[1] as i32 + output[2] as i32;
    if output[0] >= 128 {
        x - 0x100_0000
    } else {
        x
    }
}

/// Decodes two big-endian bytes as a 16-bit two's-complement integer.
pub fn decode_signed16(output: &[u8]) -> (r: i16)
    requires
        output@.len() == 2,
    ensures
        r == i16_of(output@[0], output@[1]),
{
    let x: i32 = 256 * output[0] as i32 + output[1] as i32;
    if output[0] >= 128 {
        (x - 0x1_0000) as i16
    } else {
        x as i16
    }
}

/// Divisor exponent for angular-rate output: raw / 2^14 gives degrees per
/// second.
pub fn gyro_output_divisor_exponent() -> (r: u32)
    ensures
        r == 14,
{
    14
}

/// Divisor exponent for acceleration output in the 10 g range: raw / 2^19
/// gives units of g.
pub fn accmeter_output_divisor_exponent() -> (r: u32)
    ensures
        r == 19,
{
    19
}

/// Divisor exponent for inclinometer acceleration output: raw / 2^22 gives
/// units of g.
pub fn inclmeter_output_divisor_exponent() -> (r: u32)
    ensures
        r == 22,
{
    22
}

/// Divisor exponent for temperature output: raw / 2^8 gives degrees.
pub fn temperature_divisor_exponent() -> (r: u32)
    ensures
        r == 8,
{
    8
}

fn read_triad(data: &Vec<u8>, pos: usize) -> (t: SensorTriad)
    requires
        pos + 9 <= data@.len(),
    ensures
        triad_is(t, data@, pos as int),
{
    let n = data.len();
    assert(pos + 9 <= n);
    SensorTriad {
        x: decode_signed24(&data.as_slice()[pos..pos + 3]),
        y: decode_signed24(&data.as_slice()[pos + 3..pos + 6]),
        z: decode_signed24(&data.as_slice()[pos + 6..pos + 9]),
    }
}

fn read_temp_triad(data: &Vec<u8>, pos: usize) -> (t: TempTriad)
    requires
        pos + 6 <= data@.len(),
    ensures
        temp_triad_is(t, data@, pos as int),
{
    let n = data.len();
    assert(pos + 6 <= n);
    TempTriad {
        x: decode_signed16(&data.as_slice()[pos..pos + 2]),
        y: decode_signed16(&data.as_slice()[pos + 2..pos + 4]),
        z: decode_signed16(&data.as_slice()[pos + 4..pos + 6]),
    }
}

/// The bytes the CRC is computed over: the record up to the CRC word plus
/// the mode's zero padding.
fn build_crc_input(data: &Vec<u8>, data_length: usize, num_crc_dummy_bytes: usize) -> (r: Vec<u8>)
    requires
        4 <= data_length <= data@.len(),
    ensures
        r@ == data@.subrange(0, data_length - 4) + Seq::new(num_crc_dummy_bytes as nat, |i: int| 0u8),
{
    let mut crc_data: Vec<u8> = Vec::new();
    let mut i: usize = 0;
    while i < data_length - 4
        invariant
            4 <= data_length <= data@.len(),
            0 <= i <= data_length - 4,
            crc_data@ =~= data@.subrange(0, i as int),
        decreases data_length - 4 - i,
    {
        crc_data.push(data[i]);
        i = i + 1;
    }
    let mut j: usize = 0;
    while j < num_crc_dummy_bytes
        invariant
            0 <= j <= num_crc_dummy_bytes,
            crc_data@ =~= data@.subrange(0, data_length - 4) + Seq::new(j as nat, |k: int| 0u8),
        decreases num_crc_dummy_bytes - j,
    {
        crc_data.push(0);
        j = j + 1;
    }
    crc_data
}

/// The big-endian 32-bit checksum word trailing the record.
fn get_received_checksum(data: &Vec<u8>, data_length: usize) -> (r: u32)
    requires
        4 <= data_length <= data@.len(),
    ensures
        r == u32_be_at(data@, data_length - 4),
{
    get_u32_from_be_byte_array(data.as_slice(), data_length - 4)
}

/// Decodes an inertial record whose CRC-32 has already been computed by the
/// caller; the record is accepted exactly when `computed_checksum` equals
/// the trailing big-endian checksum word.
pub fn decode_stim300_fields(data: &Vec<u8>, computed_checksum: u32) -> (r: Result<
    IMUMessage,
    ParseError,
>)
    ensures
        stim_parse_post(r, data@, computed_checksum),
{
    if data.len() == 0 {
        return Err(ParseError::TruncatedPayload);
    }
    let (imu_mode, data_length, _pad) = get_data_information(data[0])?;
    if data.len() < data_length {
        return Err(ParseError::TruncatedPayload);
    }
    let received_checksum = get_received_checksum(data, data_length);
    if computed_checksum != received_checksum {
        return Err(ParseError::PayloadChecksum);
    }
    let count = Some(data[data_length - 7]);
    let latency = Some(get_u16_from_be_byte_array(data.as_slice(), data_length - 6));
    let angular_velocity = Some(read_triad(data, 1));
    let gyro_status = Some(data[10]);
    let msg = match imu_mode {
        IMUMode::R => IMUMessage {
            mode: imu_mode,
            angular_velocity,
            gyro_status,
            gyro_temp: None,
            gyro_temp_status: None,
            acceleration: None,
            accmeter_status: None,
            accmeter_temp: None,
            accmeter_temp_status: None,
            inclination: None,
            inclmeter_status: None,
            inclmeter_temp: None,
            inclmeter_temp_status: None,
            count,
            latency,
        },
        IMUMode::RA => IMUMessage {
            mode: imu_mode,
            angular_velocity,
            gyro_status,
            gyro_temp: None,
            gyro_temp_status: None,
            acceleration: Some(read_triad(data, 11)),
            accmeter_status: Some(data[20]),
            accmeter_temp: None,
            accmeter_temp_status: None,
            inclination: None,
            inclmeter_status: None,
            inclmeter_temp: None,
            inclmeter_temp_status: None,
            count,
            latency,
        },
        IMUMode::RI => IMUMessage {
            mode: imu_mode,
            angular_velocity,
            gyro_status,
            gyro_temp: None,
            gyro_temp_status: None,
            acceleration: None,
            accmeter_status: None,
            accmeter_temp: None,
            accmeter_temp_status: None,
            inclination: Some(read_triad(data, 11)),
            inclmeter_status: Some(data[20]),
            inclmeter_temp: None,
            inclmeter_temp_status: None,
            count,
            latency,
        },
        IMUMode::RAI => IMUMessage {
            mode: imu_mode,
            angular_velocity,
            gyro_status,
            gyro_temp: None,
            gyro_temp_status: None,
            acceleration: Some(read_triad(data, 11)),
            accmeter_status: Some(data[20]),
            accmeter_temp: None,
            accmeter_temp_status: None,
            inclination: Some(read_triad(data, 21)),
            inclmeter_status: Some(data[30]),
            inclmeter_temp: None,
            inclmeter_temp_status: None,
            count,
            latency,
        },
        IMUMode::RT => IMUMessage {
            mode: imu_mode,
            angular_velocity,
            gyro_status,
            gyro_temp: Some(read_temp_triad(data, 11)),
            gyro_temp_status: Some(data[17]),
            acceleration: None,
            accmeter_status: None,
            accmeter_temp: None,
            accmeter_temp_status: None,
            inclination: None,
            inclmeter_status: None,
            inclmeter_temp: None,
            inclmeter_temp_status: None,
            count,
            latency,
        },
        IMUMode::RAT => IMUMessage {
            mode: imu_mode,
            angular_velocity,
            gyro_status,
            gyro_temp: Some(read_temp_triad(data, 21)),
            gyro_temp_status: Some(data[27]),
            acceleration: Some(read_triad(data, 11)),
            accmeter_status: Some(data[20]),
            accmeter_temp: Some(read_temp_triad(data, 28)),
            accmeter_temp_status: Some(data[34]),
            inclination: None,
            inclmeter_status: None,
            inclmeter_temp: None,
            inclmeter_temp_status: None,
            count,
            latency,
        },
        IMUMode::RIT => IMUMessage {
            mode: imu_mode,
            angular_velocity,
            gyro_status,
            gyro_temp: Some(read_temp_triad(data, 21)),
            gyro_temp_status: Some(data[27]),
            acceleration: None,
            accmeter_status: None,
            accmeter_temp: None,
            accmeter_temp_status: None,
            inclination: Some(read_triad(data, 11)),
            inclmeter_status: Some(data[20]),
            inclmeter_temp: Some(read_temp_triad(data, 28)),
            inclmeter_temp_status: Some(data[34]),
            count,
            latency,
        },
        IMUMode::RAIT => IMUMessage {
            mode: imu_mode,
            angular_velocity,
            gyro_status,
            gyro_temp: Some(read_temp_triad(data, 31)),
            gyro_temp_status: Some(data[37]),
            acceleration: Some(read_triad(data, 11)),
            accmeter_status: Some(data[20]),
            accmeter_temp: Some(read_temp_triad(data, 38)),
            accmeter_temp_status: Some(data[44]),
            inclination: Some(read_triad(data, 21)),
            inclmeter_status: Some(data[30]),
            inclmeter_temp: Some(read_temp_triad(data, 45)),
            inclmeter_temp_status: Some(data[51]),
            count,
            latency,
        },
    };
    Ok(msg)
}

// Re-encoding: the bytes a decoded record writes back under the documented
// layout.  These spec functions invert the signed decodes byte by byte.

pub open spec fn i24_byte0(v: int) -> u8 {
    let u = if v < 0 {
        v + 0x100_0000
    } else {
        v
    };
    (u / 65536) as u8
}

pub open spec fn i24_byte1(v: int) -> u8 {
    let u = if v < 0 {
        v + 0x100_0000
    } else {
        v
    };
    ((u / 256) % 256) as u8
}

pub open spec fn i24_byte2(v: int) -> u8 {
    let u = if v < 0 {
        v + 0x100_0000
    } else {
        v
    };
    (u % 256) as u8
}

pub open spec fn i16_byte0(v: int) -> u8 {
    let u = if v < 0 {
        v + 0x1_0000
    } else {
        v
    };
    (u / 256) as u8
}

pub open spec fn i16_byte1(v: int) -> u8 {
    let u = if v < 0 {
        v + 0x1_0000
    } else {
        v
    };
    (u % 256) as u8
}

/// Byte `j` of the nine-byte big-endian encoding of a sensor triad.
pub open spec fn triad_byte(t: SensorTriad, j: int) -> u8 {
    let c = if j < 3 {
        t.x as int
    } else if j < 6 {
        t.y as int
    } else {
        t.z as int
    };
    if j % 3 == 0 {
        i24_byte0(c)
    } else if j % 3 == 1 {
        i24_byte1(c)
    } else {
        i24_byte2(c)
    }
}

/// Byte `j` of the six-byte big-endian encoding of a temperature triad.
pub open spec fn temp_triad_byte(t: TempTriad, j: int) -> u8 {
    let c = if j < 2 {
        t.x as int
    } else if j < 4 {
        t.y as int
    } else {
        t.z as int
    };
    if j % 2 == 0 {
        i16_byte0(c)
    } else {
        i16_byte1(c)
    }
}

/// Byte `i` of the re-encoded record (the CRC word excluded), following the
/// mode's layout.
pub open spec fn stim_encode_byte(msg: IMUMessage, i: int) -> u8 {
    let m = msg.mode;
    let len = stim_data_length(m);
    if i == 0 {
        stim_mode_id(m)
    } else if 1 <= i < 10 {
        triad_byte(msg.angular_velocity->0, i - 1)
    } else if i == 10 {
        msg.gyro_status->0
    } else if mode_has_acc(m) && 11 <= i < 20 {
        triad_byte(msg.acceleration->0, i - 11)
    } else if mode_has_acc(m) && i == 20 {
        msg.accmeter_status->0
    } else if mode_has_incl(m) && incl_pos(m) <= i < incl_pos(m) + 9 {
        triad_byte(msg.inclination->0, i - incl_pos(m))
    } else if mode_has_incl(m) && i == incl_pos(m) + 9 {
        msg.inclmeter_status->0
    } else if mode_has_temp(m) && temp_base(m) <= i < temp_base(m) + 6 {
        temp_triad_byte(msg.gyro_temp->0, i - temp_base(m))
    } else if mode_has_temp(m) && i == temp_base(m) + 6 {
        msg.gyro_temp_status->0
    } else if mode_has_temp(m) && mode_has_acc(m) && temp_base(m) + 7 <= i < temp_base(m) + 13 {
        temp_triad_byte(msg.accmeter_temp->0, i - (temp_base(m) + 7))
    } else if mode_has_temp(m) && mode_has_acc(m) && i == temp_base(m) + 13 {
        msg.accmeter_temp_status->0
    } else if mode_has_temp(m) && mode_has_incl(m) && incl_temp_pos(m) <= i < incl_temp_pos(m)
        + 6 {
        temp_triad_byte(msg.inclmeter_temp->0, i - incl_temp_pos(m))
    } else if mode_has_temp(m) && mode_has_incl(m) && i == incl_temp_pos(m) + 6 {
        msg.inclmeter_temp_status->0
    } else if i == len - 7 {
        msg.count->0
    } else if i == len - 6 {
        ((msg.latency->0) / 256) as u8
    } else if i == len - 5 {
        ((msg.latency->0) % 256) as u8
    } else {
        0u8
    }
}

/// The record bytes (CRC excluded) a decoded message writes back under the
/// documented layout of its mode.
pub open spec fn stim_encode(msg: IMUMessage) -> Seq<u8> {
    Seq::new((stim_data_length(msg.mode) - 4) as nat, |i: int| stim_encode_byte(msg, i))
}

/// Splitting a 24-bit two's-complement value back into its three big-endian
/// bytes recovers the bytes it was decoded from.
proof fn lemma_i24_round_trip(b0: u8, b1: u8, b2: u8)
    ensures
        i24_byte0(i24_of(b0, b1, b2)) == b0,
        i24_byte1(i24_of(b0, b1, b2)) == b1,
        i24_byte2(i24_of(b0, b1, b2)) == b2,
{
    let x: int = 65536 * b0 + 256 * b1 + b2;
    let v = i24_of(b0, b1, b2);
    let u = if v < 0 {
        v + 0x100_0000
    } else {
        v
    };
    assert(u == x);
    vstd::arithmetic::div_mod::lemma_fundamental_div_mod_converse(x, 65536, b0 as int, 256 * b1
        + b2);
    vstd::arithmetic::div_mod::lemma_fundamental_div_mod_converse(x, 256, 256 * b0 + b1, b2 as int);
    assert((256 * b0 + b1) % 256 == b1) by {
        vstd::arithmetic::div_mod::lemma_mod_multiples_vanish(b0 as int, b1 as int, 256);
        vstd::arithmetic::div_mod::lemma_small_mod(b1 as nat, 256);
    }
}

/// Splitting a 16-bit two's-complement value back into its two big-endian
/// bytes recovers the bytes it was decoded from.
proof fn lemma_i16_round_trip(b0: u8, b1: u8)
    ensures
        i16_byte0(i16_of(b0, b1)) == b0,
        i16_byte1(i16_of(b0, b1)) == b1,
{
    let x: int = 256 * b0 + b1;
    vstd::arithmetic::div_mod::lemma_fundamental_div_mod_converse(x, 256, b0 as int, b1 as int);
}

/// The two big-endian bytes of an unsigned 16-bit value.
proof fn lemma_u16_be_round_trip(b0: u8, b1: u8)
    ensures
        (256 * b0 + b1) / 256 == b0,
        (256 * b0 + b1) % 256 == b1,
{
    vstd::arithmetic::div_mod::lemma_fundamental_div_mod_converse(
        256 * b0 + b1,
        256,
        b0 as int,
        b1 as int,
    );
}

proof fn lemma_triad_bytes(data: Seq<u8>, pos: int, t: SensorTriad)
    requires
        0 <= pos,
        pos + 9 <= data.len(),
        triad_is(t, data, pos),
    ensures
        forall|j: int| 0 <= j < 9 ==> #[trigger] triad_byte(t, j) == data[pos + j],
{
    lemma_i24_round_trip(data[pos], data[pos + 1], data[pos + 2]);
    lemma_i24_round_trip(data[pos + 3], data[pos + 4], data[pos + 5]);
    lemma_i24_round_trip(data[pos + 6], data[pos + 7], data[pos + 8]);
}

proof fn lemma_temp_triad_bytes(data: Seq<u8>, pos: int, t: TempTriad)
    requires
        0 <= pos,
        pos + 6 <= data.len(),
        temp_triad_is(t, data, pos),
    ensures
        forall|j: int| 0 <= j < 6 ==> #[trigger] temp_triad_byte(t, j) == data[pos + j],
{
    lemma_i16_round_trip(data[pos], data[pos + 1]);
    lemma_i16_round_trip(data[pos + 2], data[pos + 3]);
    lemma_i16_round_trip(data[pos + 4], data[pos + 5]);
}

/// Round trip: for every supported mode, re-encoding a decoded record per
/// the documented layout reproduces the original bytes of the record (the
/// CRC word excluded) on all the fields the mode populates.
pub proof fn lemma_stim300_round_trip(data: Seq<u8>, msg: IMUMessage)
    requires
        data.len() > 0,
        stim_mode_of(data[0]) is Some,
        data.len() >= stim_data_length(stim_mode_of(data[0])->0),
        stim_decoded(msg, data, stim_mode_of(data[0])->0),
    ensures
        stim_encode(msg) == data.subrange(0, stim_data_length(stim_mode_of(data[0])->0) - 4),
{
    let m = stim_mode_of(data[0])->0;
    let len = stim_data_length(m);
    assert(data[0] == stim_mode_id(m));
    lemma_triad_bytes(data, 1, msg.angular_velocity->0);
    if mode_has_acc(m) {
        lemma_triad_bytes(data, 11, msg.acceleration->0);
    }
    if mode_has_incl(m) {
        lemma_triad_bytes(data, incl_pos(m), msg.inclination->0);
    }
    if mode_has_temp(m) {
        lemma_temp_triad_bytes(data, temp_base(m), msg.gyro_temp->0);
        if mode_has_acc(m) {
            lemma_temp_triad_bytes(data, temp_base(m) + 7, msg.accmeter_temp->0);
        }
        if mode_has_incl(m) {
            lemma_temp_triad_bytes(data, incl_temp_pos(m), msg.inclmeter_temp->0);
        }
    }
    lemma_u16_be_round_trip(data[len - 6], data[len - 5]);
    assert forall|i: int| 0 <= i < len - 4 implies stim_encode_byte(msg, i) == data[i] by {
        assert(msg.mode == m);
    }
    assert(stim_encode(msg) =~= data.subrange(0, len - 4));
}

/// The 24-bit signed decode reaches exactly the two's-complement extremes:
/// the most negative and most positive representable values.
pub proof fn lemma_signed24_extremes()
    ensures
        i24_of(0x80, 0x00, 0x00) == -0x80_0000,
        i24_of(0x7F, 0xFF, 0xFF) == 0x80_0000 - 1,
{
}

/// Parses one inertial payload: the identifier byte selects the mode and
/// layout, the CRC-32 MPEG-2 over the padded record body must match the
/// trailing checksum word, and the populated fields are exactly those the
/// mode mandates.
pub fn parse_stim300_data(data: &Vec<u8>) -> (r: Result<IMUMessage, ParseError>)
    ensures
        stim_parse_post(r, data@, stim_expected_crc(data@)),
{
    if data.len() == 0 {
        return Err(ParseError::TruncatedPayload);
    }
    let (imu_mode, data_length, num_crc_dummy_bytes) = get_data_information(data[0])?;
    if data.len() < data_length {
        return Err(ParseError::TruncatedPayload);
    }
    let crc_input = build_crc_input(data, data_length, num_crc_dummy_bytes);
    let computed_checksum = crc32_mpeg2(&crc_input);
    let r = decode_stim300_fields(data, computed_checksum);
    proof {
        let m = stim_mode_of(data@[0])->0;
        assert(crc_input@ == stim_crc_input(data@, m));
    }
    r
}

} // verus!
