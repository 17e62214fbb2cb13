use vstd::prelude::*;

use crate::errors::ParseError;
use crate::utils::{
    bit16, bit8, get_i16_from_le_byte_array, get_i32_from_le_byte_array,
    get_u16_from_le_byte_array, get_u32_from_le_byte_array, i16_le_at, i32_le_at, i8_at, u16_le_at,
    u32_le_at,
};

verus! {

// UBX envelope: 0xB5 0x62 | class | id | length (u16 LE) | payload | CK_A CK_B.
// All scalars are little-endian.  Scaled fields keep their raw integer value
// here; the documented factor (1e-7 degrees, 1e-3 metres, 1e-5 degrees, ...)
// is applied by the consumer, keeping this decoder exact.

/// One decoded NAV-PVT record.  `lon`/`lat` are raw 1e-7 degrees, heights raw
/// millimetres, velocities raw millimetres per second, headings raw 1e-5
/// degrees, `mag_dec`/`mag_acc` raw 1e-2 degrees.
#[derive(Debug, Clone, Copy, PartialEq, Eq, Structural)]
pub struct UBXNavPvt {
    pub itow: u32,
    pub year: u16,
    pub month: u8,
    pub day: u8,
    pub hour: u8,
    pub min: u8,
    pub sec: u8,
    pub valid_date: bool,
    pub valid_time: bool,
    pub fully_resolved: bool,
    pub valid_mag: bool,
    pub t_acc: u32,
    pub nano: i32,
    pub fix_type: u8,
    pub gnss_fix_ok: bool,
    pub diff_soln: bool,
    pub psm_state: u8,
    pub head_veh_valid: bool,
    pub carr_soln: u8,
    pub confirmed_avail: bool,
    pub confirmed_date: bool,
    pub confirmed_time: bool,
    pub num_sv: u8,
    pub lon: i32,
    pub lat: i32,
    pub height: i32,
    pub h_msl: i32,
    pub h_acc: u32,
    pub v_acc: u32,
    pub vel_n: i32,
    pub vel_e: i32,
    pub vel_d: i32,
    pub g_speed: i32,
    pub head_mot: i32,
    pub s_acc: u32,
    pub head_acc: u32,
    pub p_dop: u16,
    pub invalid_lat_lon_height: bool,
    pub last_correction_age: u8,
    pub head_veh: i32,
    pub mag_dec: i16,
    pub mag_acc: u16,
}

/// One decoded NAV-RELPOSNED record; positions raw centimetres, the
/// high-precision parts raw 0.1 millimetres, accuracies raw 0.1 millimetres,
/// headings raw 1e-5 degrees.
#[derive(Debug, Clone, Copy, PartialEq, Eq, Structural)]
pub struct UBXNavRelPosNed {
    pub version: u8,
    pub ref_station_id: u16,
    pub itow: u32,
    pub rel_pos_n: i32,
    pub rel_pos_e: i32,
    pub rel_pos_d: i32,
    pub rel_pos_length: u32,
    pub rel_pos_heading: i32,
    pub rel_pos_hpn: i8,
    pub rel_pos_hpe: i8,
    pub rel_pos_hpd: i8,
    pub rel_pos_hp_length: i8,
    pub acc_n: u32,
    pub acc_e: u32,
    pub acc_d: u32,
    pub acc_length: u32,
    pub acc_heading: u32,
    pub gnss_fix_ok: bool,
    pub diff_soln: bool,
    pub rel_pos_valid: bool,
    pub carr_soln: u8,
    pub is_moving: bool,
    pub ref_pos_miss: bool,
    pub ref_obs_miss: bool,
    pub rel_pos_heading_valid: bool,
    pub rel_pos_normalized: bool,
}

#[derive(Debug, Clone, Copy, PartialEq, Eq, Structural)]
pub struct UBXNavHPPosECEF {
    pub version: u8,
    pub itow: u32,
    pub ecef_x: i32,
    pub ecef_y: i32,
    pub ecef_z: i32,
    pub ecef_x_hp: i8,
    pub ecef_y_hp: i8,
    pub ecef_z_hp: i8,
    pub invalid_ecef: u8,
    pub p_acc: u32,
}

#[derive(Debug, Clone, Copy, PartialEq, Eq, Structural)]
pub struct UBXNavHPPosLLH {
    pub version: u8,
    pub invalid_llh: u8,
    pub itow: u32,
    pub lon: i32,
    pub lat: i32,
    pub height: i32,
    pub h_msl: i32,
    pub lon_hp: i8,
    pub lat_hp: i8,
    pub height_hp: i8,
    pub h_msl_hp: i8,
    pub h_acc: u32,
    pub v_acc: u32,
}

/// One decoded NAV-COV record; covariance entries (NED frame) keep the raw
/// bit pattern of their little-endian float32.
#[derive(Debug, Clone, Copy, PartialEq, Eq, Structural)]
pub struct UBXNavCov {
    pub itow: u32,
    pub version: u8,
    pub pos_cov_valid: u8,
    pub vel_cov_valid: u8,
    pub pos_cov_nn: u32,
    pub pos_cov_ne: u32,
    pub pos_cov_nd: u32,
    pub pos_cov_ee: u32,
    pub pos_cov_ed: u32,
    pub pos_cov_dd: u32,
    pub vel_cov_nn: u32,
    pub vel_cov_ne: u32,
    pub vel_cov_nd: u32,
    pub vel_cov_ee: u32,
    pub vel_cov_ed: u32,
    pub vel_cov_dd: u32,
}

#[derive(Debug, Clone, Copy, PartialEq, Eq, Structural)]
pub enum MessageType {
    NavPvt,
    NavRelPosNed,
    NavHPPosECEF,
    NavHPPosLLH,
    NavCov,
    Unknown,
}

#[derive(Debug, Clone, Copy, PartialEq, Eq, Structural)]
pub enum UBXMessageClass {
    Nav,
    Receiver,
    Unknown,
}

fn get_i8(data: &Vec<u8>, i: usize) -> (r: i8)
    requires
        i < data@.len(),
    ensures
        r == i8_at(data@, i as int),
{
    let b = data[i];
    if b >= 128 {
        (-((256u16 - b as u16) as i16)) as i8
    } else {
        b as i8
    }
}

pub open spec fn msg_class_of(c: u8) -> UBXMessageClass {
    if c == 1 {
        UBXMessageClass::Nav
    } else if c == 2 {
        UBXMessageClass::Receiver
    } else {
        UBXMessageClass::Unknown
    }
}

pub open spec fn nav_message_type_of(id: u8) -> MessageType {
    if id == 7 {
        MessageType::NavPvt
    } else if id == 19 {
        MessageType::NavHPPosECEF
    } else if id == 20 {
        MessageType::NavHPPosLLH
    } else if id == 54 {
        MessageType::NavCov
    } else if id == 60 {
        MessageType::NavRelPosNed
    } else {
        MessageType::Unknown
    }
}

fn get_msg_class(msg_class: u8) -> (r: UBXMessageClass)
    ensures
        r == msg_class_of(msg_class),
{
    match msg_class {
        1 => UBXMessageClass::Nav,
        2 => UBXMessageClass::Receiver,
        _ => UBXMessageClass::Unknown,
    }
}

fn get_data_information(data_id: u8) -> (r: MessageType)
    ensures
        r == nav_message_type_of(data_id),
{
    match data_id {
        7 => MessageType::NavPvt,
        19 => MessageType::NavHPPosECEF,
        20 => MessageType::NavHPPosLLH,
        54 => MessageType::NavCov,
        60 => MessageType::NavRelPosNed,
        _ => MessageType::Unknown,
    }
}

/// The message class carried by the envelope's class byte; `Unknown` when
/// the buffer is too short to hold one.
pub fn get_ubx_message_class(data: &Vec<u8>) -> (r: UBXMessageClass)
    ensures
        data@.len() >= 3 ==> r == msg_class_of(data@[2]),
        data@.len() < 3 ==> r == UBXMessageClass::Unknown,
{
    if data.len() < 3 {
        return UBXMessageClass::Unknown;
    }
    get_msg_class(data[2])
}

/// The navigation message type selected by the envelope's class and id
/// bytes; `Unknown` for any other class or a buffer too short to hold them.
pub fn get_message_type(data: &Vec<u8>) -> (r: MessageType)
    ensures
        data@.len() >= 4 && msg_class_of(data@[2]) == UBXMessageClass::Nav ==> r
            == nav_message_type_of(data@[3]),
        data@.len() >= 4 && msg_class_of(data@[2]) != UBXMessageClass::Nav ==> r
            == MessageType::Unknown,
        data@.len() < 4 ==> r == MessageType::Unknown,
{
    if data.len() < 4 {
        return MessageType::Unknown;
    }
    let msg_class = get_msg_class(data[2]);
    match msg_class {
        UBXMessageClass::Nav => get_data_information(data[3]),
        _ => MessageType::Unknown,
    }
}

/// First sum of the 8-bit Fletcher pair over a byte sequence, with wrapping
/// addition.
pub open spec fn ubx_ck_a(data: Seq<u8>) -> int
    decreases data.len(),
{
    if data.len() == 0 {
        0
    } else {
        (ubx_ck_a(data.drop_last()) + data.last()) % 256
    }
}

/// Second sum of the 8-bit Fletcher pair: the running sum of the first sum.
pub open spec fn ubx_ck_b(data: Seq<u8>) -> int
    decreases data.len(),
{
    if data.len() == 0 {
        0
    } else {
        (ubx_ck_b(data.drop_last()) + ubx_ck_a(data)) % 256
    }
}

/// The 8-bit Fletcher checksum pair of a byte slice, computed with wrapping
/// additions as the UBX protocol prescribes.
pub fn compute_checksum(data: &[u8]) -> (r: (u8, u8))
    ensures
        r.0 == ubx_ck_a(data@),
        r.1 == ubx_ck_b(data@),
{
    let mut ck_a: u16 = 0;
    let mut ck_b: u16 = 0;
    let mut i: usize = 0;
    while i < data.len()
        invariant
            0 <= i <= data@.len(),
            ck_a < 256,
            ck_b < 256,
            ck_a == ubx_ck_a(data@.take(i as int)),
            ck_b == ubx_ck_b(data@.take(i as int)),
        decreases data@.len() - i,
    {
        proof {
            assert(data@.take(i + 1).drop_last() =~= data@.take(i as int));
            assert(data@.take(i + 1).last() == data@[i as int]);
        }
        ck_a = (ck_a + data[i] as u16) % 256;
        ck_b = (ck_b + ck_a) % 256;
        i = i + 1;
    }
    proof {
        assert(data@.take(data@.len() as int) =~= data@);
    }
    (ck_a as u8, ck_b as u8)
}

/// The declared payload length of a UBX buffer.
pub open spec fn ubx_payload_len(data: Seq<u8>) -> int {
    u16_le_at(data, 4)
}

/// The region the UBX checksum pair covers: class, id, length and payload.
pub open spec fn ubx_ck_region(data: Seq<u8>) -> Seq<u8> {
    data.subrange(2, 6 + ubx_payload_len(data))
}

/// The buffer is long enough for its declared payload and its trailing two
/// bytes are the Fletcher pair over class, id, length and payload.
pub open spec fn ubx_checksum_ok(data: Seq<u8>) -> bool {
    &&& data.len() >= 8
    &&& 8 + ubx_payload_len(data) <= data.len()
    &&& ubx_ck_a(ubx_ck_region(data)) == data[data.len() - 2]
    &&& ubx_ck_b(ubx_ck_region(data)) == data[data.len() - 1]
}

/// Verifies the envelope checksum: the Fletcher pair over class, id, length
/// and payload must equal the buffer's trailing two bytes.
fn compare_checksums(data: &Vec<u8>) -> (r: Result<(), ParseError>)
    ensures
        r is Ok <==> ubx_checksum_ok(data@),
        !(data@.len() >= 8 && 8 + ubx_payload_len(data@) <= data@.len()) ==> r == Err::<
            (),
            ParseError,
        >(ParseError::TruncatedPayload),
        data@.len() >= 8 && 8 + ubx_payload_len(data@) <= data@.len() && !ubx_checksum_ok(data@)
            ==> r == Err::<(), ParseError>(ParseError::PayloadChecksum),
{
    let n = data.len();
    if n < 8 {
        return Err(ParseError::TruncatedPayload);
    }
    let payload_length = get_u16_from_le_byte_array(data.as_slice(), 4) as usize;
    if n - 8 < payload_length {
        return Err(ParseError::TruncatedPayload);
    }
    let check_a = data[n - 2];
    let check_b = data[n - 1];
    let (ck_a, ck_b) = compute_checksum(&data.as_slice()[2..6 + payload_length]);
    if check_a != ck_a || check_b != ck_b {
        return Err(ParseError::PayloadChecksum);
    }
    Ok(())
}

/// `msg` holds exactly the NAV-HPPOSECEF fields of the payload at offset 6.
pub open spec fn nav_hpposecef_decoded(msg: UBXNavHPPosECEF, s: Seq<u8>) -> bool {
    &&& msg.version == s[6]
    &&& msg.itow == u32_le_at(s, 10)
    &&& msg.ecef_x == i32_le_at(s, 14)
    &&& msg.ecef_y == i32_le_at(s, 18)
    &&& msg.ecef_z == i32_le_at(s, 22)
    &&& msg.ecef_x_hp == i8_at(s, 26)
    &&& msg.ecef_y_hp == i8_at(s, 27)
    &&& msg.ecef_z_hp == i8_at(s, 28)
    &&& msg.invalid_ecef == s[29]
    &&& msg.p_acc == u32_le_at(s, 30)
}

/// What a UBX decoder expecting `need` payload bytes must return: a buffer
/// too short for its declared payload is rejected as truncated, then the
/// checksum decides acceptance, then a declared payload shorter than the
/// record is rejected as truncated; an accepted record's fields are pinned
/// by `ok` to the payload bytes.
pub open spec fn ubx_decode_post<T>(
    r: Result<T, ParseError>,
    s: Seq<u8>,
    need: int,
    ok: spec_fn(T, Seq<u8>) -> bool,
) -> bool {
    if !(s.len() >= 8 && 8 + ubx_payload_len(s) <= s.len()) {
        r == Err::<T, ParseError>(ParseError::TruncatedPayload)
    } else if !ubx_checksum_ok(s) {
        r == Err::<T, ParseError>(ParseError::PayloadChecksum)
    } else if ubx_payload_len(s) < need {
        r == Err::<T, ParseError>(ParseError::TruncatedPayload)
    } else {
        r matches Ok(msg) && ok(msg, s)
    }
}

/// Decodes a NAV-HPPOSECEF message after validating the envelope checksum.
pub fn decode_ubx_nav_hpposecef_msg(data: &Vec<u8>) -> (r: Result<UBXNavHPPosECEF, ParseError>)
    ensures
        ubx_decode_post(r, data@, 28, |msg: UBXNavHPPosECEF, s: Seq<u8>| nav_hpposecef_decoded(msg, s)),
{
    compare_checksums(data)?;
    let payload_length = get_u16_from_le_byte_array(data.as_slice(), 4) as usize;
    if payload_length < 28 {
        return Err(ParseError::TruncatedPayload);
    }
    Ok(
        UBXNavHPPosECEF {
            version: data[6],
            itow: get_u32_from_le_byte_array(data.as_slice(), 10),
            ecef_x: get_i32_from_le_byte_array(data.as_slice(), 14),
            ecef_y: get_i32_from_le_byte_array(data.as_slice(), 18),
            ecef_z: get_i32_from_le_byte_array(data.as_slice(), 22),
            ecef_x_hp: get_i8(data, 26),
            ecef_y_hp: get_i8(data, 27),
            ecef_z_hp: get_i8(data, 28),
            invalid_ecef: data[29],
            p_acc: get_u32_from_le_byte_array(data.as_slice(), 30),
        },
    )
}

/// `msg` holds exactly the NAV-HPPOSLLH fields of the payload at offset 6.
pub open spec fn nav_hpposllh_decoded(msg: UBXNavHPPosLLH, s: Seq<u8>) -> bool {
    &&& msg.version == s[6]
    &&& msg.invalid_llh == s[7]
    &&& msg.itow == u32_le_at(s, 10)
    &&& msg.lon == i32_le_at(s, 14)
    &&& msg.lat == i32_le_at(s, 18)
    &&& msg.height == i32_le_at(s, 22)
    &&& msg.h_msl == i32_le_at(s, 26)
    &&& msg.lon_hp == i8_at(s, 30)
    &&& msg.lat_hp == i8_at(s, 31)
    &&& msg.height_hp == i8_at(s, 32)
    &&& msg.h_msl_hp == i8_at(s, 33)
    &&& msg.h_acc == u32_le_at(s, 34)
    &&& msg.v_acc == u32_le_at(s, 38)
}

/// Decodes a NAV-HPPOSLLH message after validating the envelope checksum.
pub fn decode_ubx_nav_hpposllh_msg(data: &Vec<u8>) -> (r: Result<UBXNavHPPosLLH, ParseError>)
    ensures
        ubx_decode_post(r, data@, 36, |msg: UBXNavHPPosLLH, s: Seq<u8>| nav_hpposllh_decoded(msg, s)),
{
    compare_checksums(data)?;
    let payload_length = get_u16_from_le_byte_array(data.as_slice(), 4) as usize;
    if payload_length < 36 {
        return Err(ParseError::TruncatedPayload);
    }
    Ok(
        UBXNavHPPosLLH {
            version: data[6],
            invalid_llh: data[7],
            itow: get_u32_from_le_byte_array(data.as_slice(), 10),
            lon: get_i32_from_le_byte_array(data.as_slice(), 14),
            lat: get_i32_from_le_byte_array(data.as_slice(), 18),
            height: get_i32_from_le_byte_array(data.as_slice(), 22),
            h_msl: get_i32_from_le_byte_array(data.as_slice(), 26),
            lon_hp: get_i8(data, 30),
            lat_hp: get_i8(data, 31),
            height_hp: get_i8(data, 32),
            h_msl_hp: get_i8(data, 33),
            h_acc: get_u32_from_le_byte_array(data.as_slice(), 34),
            v_acc: get_u32_from_le_byte_array(data.as_slice(), 38),
        },
    )
}

/// `msg` holds exactly the NAV-PVT fields of the payload at offset 6, the
/// packed flag bytes expanded into their named booleans.
pub open spec fn nav_pvt_decoded(msg: UBXNavPvt, s: Seq<u8>) -> bool {
    &&& msg.itow == u32_le_at(s, 6)
    &&& msg.year == u16_le_at(s, 10)
    &&& msg.month == s[12]
    &&& msg.day == s[13]
    &&& msg.hour == s[14]
    &&& msg.min == s[15]
    &&& msg.sec == s[16]
    &&& msg.valid_date == bit8(s[17], 0)
    &&& msg.valid_time == bit8(s[17], 1)
    &&& msg.fully_resolved == bit8(s[17], 2)
    &&& msg.valid_mag == bit8(s[17], 3)
    &&& msg.t_acc == u32_le_at(s, 18)
    &&& msg.nano == i32_le_at(s, 22)
    &&& msg.fix_type == s[26]
    &&& msg.gnss_fix_ok == bit8(s[27], 0)
    &&& msg.diff_soln == bit8(s[27], 1)
    &&& msg.psm_state == (s[27] >> 2) & 0x7
    &&& msg.head_veh_valid == bit8(s[27], 5)
    &&& msg.carr_soln == (s[27] >> 6) & 0x3
    &&& msg.confirmed_avail == bit8(s[28], 5)
    &&& msg.confirmed_date == bit8(s[28], 6)
    &&& msg.confirmed_time == bit8(s[28], 7)
    &&& msg.num_sv == s[29]
    &&& msg.lon == i32_le_at(s, 30)
    &&& msg.lat == i32_le_at(s, 34)
    &&& msg.height == i32_le_at(s, 38)
    &&& msg.h_msl == i32_le_at(s, 42)
    &&& msg.h_acc == u32_le_at(s, 46)
    &&& msg.v_acc == u32_le_at(s, 50)
    &&& msg.vel_n == i32_le_at(s, 54)
    &&& msg.vel_e == i32_le_at(s, 58)
    &&& msg.vel_d == i32_le_at(s, 62)
    &&& msg.g_speed == i32_le_at(s, 66)
    &&& msg.head_mot == i32_le_at(s, 70)
    &&& msg.s_acc == u32_le_at(s, 74)
    &&& msg.head_acc == u32_le_at(s, 78)
    &&& msg.p_dop == u16_le_at(s, 82)
    &&& msg.invalid_lat_lon_height == bit16(u16_le_at(s, 84) as u16, 0)
    &&& msg.last_correction_age == ((u16_le_at(s, 84) as u16 >> 1) & 0xF) as u8
    &&& msg.head_veh == i32_le_at(s, 90)
    &&& msg.mag_dec == i16_le_at(s, 94)
    &&& msg.mag_acc == u16_le_at(s, 96)
}

/// Decodes a NAV-PVT message after validating the envelope checksum.
pub fn decode_ubx_nav_pvt_msg(data: &Vec<u8>) -> (r: Result<UBXNavPvt, ParseError>)
    ensures
        ubx_decode_post(r, data@, 92, |msg: UBXNavPvt, s: Seq<u8>| nav_pvt_decoded(msg, s)),
{
    compare_checksums(data)?;
    let payload_length = get_u16_from_le_byte_array(data.as_slice(), 4) as usize;
    if payload_length < 92 {
        return Err(ParseError::TruncatedPayload);
    }
    let d = data.as_slice();
    let valid = data[17];
    let flags = data[27];
    let flags2 = data[28];
    let flags3 = get_u16_from_le_byte_array(d, 84);
    Ok(
        UBXNavPvt {
            itow: get_u32_from_le_byte_array(d, 6),
            year: get_u16_from_le_byte_array(d, 10),
            month: data[12],
            day: data[13],
            hour: data[14],
            min: data[15],
            sec: data[16],
            valid_date: (valid >> 0) & 1 == 1,
            valid_time: (valid >> 1) & 1 == 1,
            fully_resolved: (valid >> 2) & 1 == 1,
            valid_mag: (valid >> 3) & 1 == 1,
            t_acc: get_u32_from_le_byte_array(d, 18),
            nano: get_i32_from_le_byte_array(d, 22),
            fix_type: data[26],
            gnss_fix_ok: (flags >> 0) & 1 == 1,
            diff_soln: (flags >> 1) & 1 == 1,
            psm_state: (flags >> 2) & 0x7,
            head_veh_valid: (flags >> 5) & 1 == 1,
            carr_soln: (flags >> 6) & 0x3,
            confirmed_avail: (flags2 >> 5) & 1 == 1,
            confirmed_date: (flags2 >> 6) & 1 == 1,
            confirmed_time: (flags2 >> 7) & 1 == 1,
            num_sv: data[29],
            lon: get_i32_from_le_byte_array(d, 30),
            lat: get_i32_from_le_byte_array(d, 34),
            height: get_i32_from_le_byte_array(d, 38),
            h_msl: get_i32_from_le_byte_array(d, 42),
            h_acc: get_u32_from_le_byte_array(d, 46),
            v_acc: get_u32_from_le_byte_array(d, 50),
            vel_n: get_i32_from_le_byte_array(d, 54),
            vel_e: get_i32_from_le_byte_array(d, 58),
            vel_d: get_i32_from_le_byte_array(d, 62),
            g_speed: get_i32_from_le_byte_array(d, 66),
            head_mot: get_i32_from_le_byte_array(d, 70),
            s_acc: get_u32_from_le_byte_array(d, 74),
            head_acc: get_u32_from_le_byte_array(d, 78),
            p_dop: get_u16_from_le_byte_array(d, 82),
            invalid_lat_lon_height: (flags3 >> 0) & 1 == 1,
            last_correction_age: ((flags3 >> 1) & 0xF) as u8,
            head_veh: get_i32_from_le_byte_array(d, 90),
            mag_dec: get_i16_from_le_byte_array(d, 94),
            mag_acc: get_u16_from_le_byte_array(d, 96),
        },
    )
}

/// `msg` holds exactly the NAV-RELPOSNED fields of the payload at offset 6.
pub open spec fn nav_relposned_decoded(msg: UBXNavRelPosNed, s: Seq<u8>) -> bool {
    &&& msg.version == s[6]
    &&& msg.ref_station_id == u16_le_at(s, 8)
    &&& msg.itow == u32_le_at(s, 10)
    &&& msg.rel_pos_n == i32_le_at(s, 14)
    &&& msg.rel_pos_e == i32_le_at(s, 18)
    &&& msg.rel_pos_d == i32_le_at(s, 22)
    &&& msg.rel_pos_length == u32_le_at(s, 26)
    &&& msg.rel_pos_heading == i32_le_at(s, 30)
    &&& msg.rel_pos_hpn == i8_at(s, 38)
    &&& msg.rel_pos_hpe == i8_at(s, 39)
    &&& msg.rel_pos_hpd == i8_at(s, 40)
    &&& msg.rel_pos_hp_length == i8_at(s, 41)
    &&& msg.acc_n == u32_le_at(s, 42)
    &&& msg.acc_e == u32_le_at(s, 46)
    &&& msg.acc_d == u32_le_at(s, 50)
    &&& msg.acc_length == u32_le_at(s, 54)
    &&& msg.acc_heading == u32_le_at(s, 58)
    &&& msg.gnss_fix_ok == bit8(s[66], 0)
    &&& msg.diff_soln == bit8(s[66], 1)
    &&& msg.rel_pos_valid == bit8(s[66], 2)
    &&& msg.carr_soln == (s[66] >> 3) & 0x3
    &&& msg.is_moving == bit8(s[66], 5)
    &&& msg.ref_pos_miss == bit8(s[66], 6)
    &&& msg.ref_obs_miss == bit8(s[66], 7)
    &&& msg.rel_pos_heading_valid == bit8(s[67], 0)
    &&& msg.rel_pos_normalized == bit8(s[67], 1)
}

/// Decodes a NAV-RELPOSNED message after validating the envelope checksum.
pub fn decode_ubx_nav_relposned(data: &Vec<u8>) -> (r: Result<UBXNavRelPosNed, ParseError>)
    ensures
        ubx_decode_post(
            r,
            data@,
            64,
            |msg: UBXNavRelPosNed, s: Seq<u8>| nav_relposned_decoded(msg, s),
        ),
{
    compare_checksums(data)?;
    let payload_length = get_u16_from_le_byte_array(data.as_slice(), 4) as usize;
    if payload_length < 64 {
        return Err(ParseError::TruncatedPayload);
    }
    let d = data.as_slice();
    let flags0 = data[66];
    let flags1 = data[67];
    Ok(
        UBXNavRelPosNed {
            version: data[6],
            ref_station_id: get_u16_from_le_byte_array(d, 8),
            itow: get_u32_from_le_byte_array(d, 10),
            rel_pos_n: get_i32_from_le_byte_array(d, 14),
            rel_pos_e: get_i32_from_le_byte_array(d, 18),
            rel_pos_d: get_i32_from_le_byte_array(d, 22),
            rel_pos_length: get_u32_from_le_byte_array(d, 26),
            rel_pos_heading: get_i32_from_le_byte_array(d, 30),
            rel_pos_hpn: get_i8(data, 38),
            rel_pos_hpe: get_i8(data, 39),
            rel_pos_hpd: get_i8(data, 40),
            rel_pos_hp_length: get_i8(data, 41),
            acc_n: get_u32_from_le_byte_array(d, 42),
            acc_e: get_u32_from_le_byte_array(d, 46),
            acc_d: get_u32_from_le_byte_array(d, 50),
            acc_length: get_u32_from_le_byte_array(d, 54),
            acc_heading: get_u32_from_le_byte_array(d, 58),
            gnss_fix_ok: (flags0 >> 0) & 1 == 1,
            diff_soln: (flags0 >> 1) & 1 == 1,
            rel_pos_valid: (flags0 >> 2) & 1 == 1,
            carr_soln: (flags0 >> 3) & 0x3,
            is_moving: (flags0 >> 5) & 1 == 1,
            ref_pos_miss: (flags0 >> 6) & 1 == 1,
            ref_obs_miss: (flags0 >> 7) & 1 == 1,
            rel_pos_heading_valid: (flags1 >> 0) & 1 == 1,
            rel_pos_normalized: (flags1 >> 1) & 1 == 1,
        },
    )
}

/// `msg` holds exactly the NAV-COV fields of the payload at offset 6.
pub open spec fn nav_cov_decoded(msg: UBXNavCov, s: Seq<u8>) -> bool {
    &&& msg.itow == u32_le_at(s, 6)
    &&& msg.version == s[10]
    &&& msg.pos_cov_valid == s[11]
    &&& msg.vel_cov_valid == s[12]
    &&& msg.pos_cov_nn == u32_le_at(s, 22)
    &&& msg.pos_cov_ne == u32_le_at(s, 26)
    &&& msg.pos_cov_nd == u32_le_at(s, 30)
    &&& msg.pos_cov_ee == u32_le_at(s, 34)
    &&& msg.pos_cov_ed == u32_le_at(s, 38)
    &&& msg.pos_cov_dd == u32_le_at(s, 42)
    &&& msg.vel_cov_nn == u32_le_at(s, 46)
    &&& msg.vel_cov_ne == u32_le_at(s, 50)
    &&& msg.vel_cov_nd == u32_le_at(s, 54)
    &&& msg.vel_cov_ee == u32_le_at(s, 58)
    &&& msg.vel_cov_ed == u32_le_at(s, 62)
    &&& msg.vel_cov_dd == u32_le_at(s, 66)
}

/// Decodes a NAV-COV message after validating the envelope checksum.
pub fn decode_ubx_nav_cov_msg(data: &Vec<u8>) -> (r: Result<UBXNavCov, ParseError>)
    ensures
        ubx_decode_post(r, data@, 64, |msg: UBXNavCov, s: Seq<u8>| nav_cov_decoded(msg, s)),
{
    compare_checksums(data)?;
    let payload_length = get_u16_from_le_byte_array(data.as_slice(), 4) as usize;
    if payload_length < 64 {
        return Err(ParseError::TruncatedPayload);
    }
    let d = data.as_slice();
    Ok(
        UBXNavCov {
            itow: get_u32_from_le_byte_array(d, 6),
            version: data[10],
            pos_cov_valid: data[11],
            vel_cov_valid: data[12],
            pos_cov_nn: get_u32_from_le_byte_array(d, 22),
            pos_cov_ne: get_u32_from_le_byte_array(d, 26),
            pos_cov_nd: get_u32_from_le_byte_array(d, 30),
            pos_cov_ee: get_u32_from_le_byte_array(d, 34),
            pos_cov_ed: get_u32_from_le_byte_array(d, 38),
            pos_cov_dd: get_u32_from_le_byte_array(d, 42),
            vel_cov_nn: get_u32_from_le_byte_array(d, 46),
            vel_cov_ne: get_u32_from_le_byte_array(d, 50),
            vel_cov_nd: get_u32_from_le_byte_array(d, 54),
            vel_cov_ee: get_u32_from_le_byte_array(d, 58),
            vel_cov_ed: get_u32_from_le_byte_array(d, 62),
            vel_cov_dd: get_u32_from_le_byte_array(d, 66),
        },
    )
}

} // verus!
