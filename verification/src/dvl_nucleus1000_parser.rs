use vstd::prelude::*;

use crate::errors::ParseError;
use crate::utils::{bit8, get_u32_from_byte_array, u32_le_at};

verus! {

// Every Nucleus payload starts with a 10-byte sub-header whose byte 2 is the
// data-series id; all record offsets below are relative to the bytes after
// that sub-header.  Float32 fields keep the raw little-endian bit pattern of
// their four bytes, so this decoder stays exact; the consumer reinterprets
// the bits.

/// Length of the sub-header preceding every record.
pub open spec fn nucleus_header_size() -> int {
    10
}

#[derive(Debug, Clone, Copy, PartialEq, Eq, Structural)]
pub enum TrackMode {
    BottomTrack,
    WaterTrack,
}

#[derive(Debug, Clone, Copy, PartialEq, Eq, Structural)]
pub enum DataID {
    AltimeterData,
    BottomTrackData,
    WaterTrackData,
    CurrentProfileData,
    ImuData,
    MagnetometerData,
    FieldCalibData,
    AHRSData,
    StringData,
}

/// Raw little-endian bit patterns of three float32 values.
#[derive(Debug, Clone, Copy, PartialEq, Eq, Structural)]
pub struct Vec3Bits {
    pub x: u32,
    pub y: u32,
    pub z: u32,
}

/// Raw little-endian bit patterns of a float32 quaternion (w, x, y, z), as
/// read from the wire; normalizing it is floating-point work left to the
/// consumer.
#[derive(Debug, Clone, Copy, PartialEq, Eq, Structural)]
pub struct QuatBits {
    pub w: u32,
    pub x: u32,
    pub y: u32,
    pub z: u32,
}

/// One decoded track record (bottom or water track).
#[derive(Debug, Clone, Copy, PartialEq, Eq, Structural)]
pub struct ExtendedDVLMessage {
    pub velocity: Vec3Bits,
    pub beams_valid: bool,
    pub velocity_valid: bool,
    pub altitude: u32,
    pub vel_beams: Vec3Bits,
    pub uncertainty_beams: Vec3Bits,
    pub uncertainty_vel: Vec3Bits,
    pub pressure: u32,
    pub sound_speed: u32,
    pub temperature: u32,
    pub tracking_type: TrackMode,
}

/// One decoded altimeter record with its four validity bits.
#[derive(Debug, Clone, Copy, PartialEq, Eq, Structural)]
pub struct AltimeterMessage {
    pub pressure: u32,
    pub temperature: u32,
    pub sound_speed: u32,
    pub altitude: u32,
    pub pressure_valid: bool,
    pub temperature_valid: bool,
    pub altimeter_dist_valid: bool,
    pub altimeter_quality_valid: bool,
}

/// One decoded attitude record.
#[derive(Debug, Clone, Copy, PartialEq, Eq, Structural)]
pub struct AHRSMessage {
    pub roll: u32,
    pub pitch: u32,
    pub heading: u32,
    pub depth: u32,
    pub orientation: QuatBits,
}

/// The record kind a data-series id byte selects, if any.
pub open spec fn data_id_of(id: u8) -> Option<DataID> {
    if id == 130 {
        Some(DataID::ImuData)
    } else if id == 135 {
        Some(DataID::MagnetometerData)
    } else if id == 139 {
        Some(DataID::FieldCalibData)
    } else if id == 160 {
        Some(DataID::StringData)
    } else if id == 170 {
        Some(DataID::AltimeterData)
    } else if id == 180 {
        Some(DataID::BottomTrackData)
    } else if id == 190 {
        Some(DataID::WaterTrackData)
    } else if id == 192 {
        Some(DataID::CurrentProfileData)
    } else if id == 210 {
        Some(DataID::AHRSData)
    } else {
        None
    }
}

fn get_data_information(data_id: u8) -> (r: Result<DataID, ParseError>)
    ensures
        r == (match data_id_of(data_id) {
            Some(d) => Ok::<DataID, ParseError>(d),
            None => Err::<DataID, ParseError>(ParseError::UnknownRecord),
        }),
{
    match data_id {
        130 => Ok(DataID::ImuData),
        135 => Ok(DataID::MagnetometerData),
        139 => Ok(DataID::FieldCalibData),
        160 => Ok(DataID::StringData),
        170 => Ok(DataID::AltimeterData),
        180 => Ok(DataID::BottomTrackData),
        190 => Ok(DataID::WaterTrackData),
        192 => Ok(DataID::CurrentProfileData),
        210 => Ok(DataID::AHRSData),
        _ => Err(ParseError::UnknownRecord),
    }
}

/// The record kind of a payload, from the sub-header's data-series id byte;
/// an unknown id is an `UnknownRecord`, a payload too short to hold the id
/// is truncated.
pub fn get_data_id(data: &[u8]) -> (r: Result<DataID, ParseError>)
    ensures
        data@.len() < 3 ==> r == Err::<DataID, ParseError>(ParseError::TruncatedPayload),
        data@.len() >= 3 ==> r == (match data_id_of(data@[2]) {
            Some(d) => Ok::<DataID, ParseError>(d),
            None => Err::<DataID, ParseError>(ParseError::UnknownRecord),
        }),
{
    if data.len() < 3 {
        return Err(ParseError::TruncatedPayload);
    }
    let data_series_id = data[2];
    get_data_information(data_series_id)
}

/// Reads the raw bit pattern of the little-endian float32 at offset `rel`
/// past the sub-header.
fn get_f32_bits(data: &[u8], rel: usize) -> (r: u32)
    requires
        10 + rel + 4 <= data@.len(),
    ensures
        r == u32_le_at(data@, 10 + rel),
{
    let n = data.len();
    assert(10 + rel + 4 <= n);
    get_u32_from_byte_array(data, 10 + rel)
}

/// `msg` holds exactly the track fields of `s` (offsets past the
/// sub-header): sound speed, temperature and pressure at 24/28/32, per-beam
/// velocities at 36, per-beam uncertainties at 60, instrument-frame velocity
/// at 96 with its uncertainty at 108, and the two validity flags packed into
/// the status word at 12.
pub open spec fn track_decoded(msg: ExtendedDVLMessage, s: Seq<u8>, track: TrackMode) -> bool {
    &&& msg.velocity == (Vec3Bits {
        x: u32_le_at(s, 106) as u32,
        y: u32_le_at(s, 110) as u32,
        z: u32_le_at(s, 114) as u32,
    })
    &&& msg.beams_valid == (bit8(s[22], 0) && bit8(s[22], 1) && bit8(s[22], 2))
    &&& msg.velocity_valid == (bit8(s[23], 1) && bit8(s[23], 2) && bit8(s[23], 3))
    &&& msg.altitude == 0
    &&& msg.vel_beams == (Vec3Bits {
        x: u32_le_at(s, 46) as u32,
        y: u32_le_at(s, 50) as u32,
        z: u32_le_at(s, 54) as u32,
    })
    &&& msg.uncertainty_beams == (Vec3Bits {
        x: u32_le_at(s, 70) as u32,
        y: u32_le_at(s, 74) as u32,
        z: u32_le_at(s, 78) as u32,
    })
    &&& msg.uncertainty_vel == (Vec3Bits {
        x: u32_le_at(s, 118) as u32,
        y: u32_le_at(s, 122) as u32,
        z: u32_le_at(s, 126) as u32,
    })
    &&& msg.pressure == u32_le_at(s, 42) as u32
    &&& msg.sound_speed == u32_le_at(s, 34) as u32
    &&& msg.temperature == u32_le_at(s, 38) as u32
    &&& msg.tracking_type == track
}

/// Decodes a bottom-track or water-track record.  The caller selects which
/// of the two record kinds the payload claims to be; every numeric field is
/// pinned to its documented offset and the two validity flags to their
/// status bits.
pub fn parse_track_data(data: &[u8], data_id: DataID) -> (r: Result<ExtendedDVLMessage, ParseError>)
    requires
        data_id == DataID::BottomTrackData || data_id == DataID::WaterTrackData,
    ensures
        data@.len() < 130 ==> r == Err::<ExtendedDVLMessage, ParseError>(
            ParseError::TruncatedPayload,
        ),
        data@.len() >= 130 ==> (r matches Ok(msg) && track_decoded(
            msg,
            data@,
            if data_id == DataID::BottomTrackData {
                TrackMode::BottomTrack
            } else {
                TrackMode::WaterTrack
            },
        )),
{
    let track_type = match data_id {
        DataID::BottomTrackData => TrackMode::BottomTrack,
        _ => TrackMode::WaterTrack,
    };
    if data.len() < 130 {
        return Err(ParseError::TruncatedPayload);
    }
    let status0 = data[22];
    let status1 = data[23];
    Ok(
        ExtendedDVLMessage {
            velocity: Vec3Bits {
                x: get_f32_bits(data, 96),
                y: get_f32_bits(data, 100),
                z: get_f32_bits(data, 104),
            },
            beams_valid: ((status0 >> 0) & 1 == 1) && ((status0 >> 1) & 1 == 1) && ((status0 >> 2)
                & 1 == 1),
            velocity_valid: ((status1 >> 1) & 1 == 1) && ((status1 >> 2) & 1 == 1) && ((status1
                >> 3) & 1 == 1),
            altitude: 0,
            vel_beams: Vec3Bits {
                x: get_f32_bits(data, 36),
                y: get_f32_bits(data, 40),
                z: get_f32_bits(data, 44),
            },
            uncertainty_beams: Vec3Bits {
                x: get_f32_bits(data, 60),
                y: get_f32_bits(data, 64),
                z: get_f32_bits(data, 68),
            },
            uncertainty_vel: Vec3Bits {
                x: get_f32_bits(data, 108),
                y: get_f32_bits(data, 112),
                z: get_f32_bits(data, 116),
            },
            pressure: get_f32_bits(data, 32),
            sound_speed: get_f32_bits(data, 24),
            temperature: get_f32_bits(data, 28),
            tracking_type: track_type,
        },
    )
}

/// `msg` holds exactly the altimeter fields of `s`: sound speed,
/// temperature, pressure and altitude at offsets 24/28/32/36 past the
/// sub-header, and the four validity bits of status bytes 0 and 2.
pub open spec fn altimeter_decoded(msg: AltimeterMessage, s: Seq<u8>) -> bool {
    &&& msg.pressure == u32_le_at(s, 42) as u32
    &&& msg.temperature == u32_le_at(s, 38) as u32
    &&& msg.sound_speed == u32_le_at(s, 34) as u32
    &&& msg.altitude == u32_le_at(s, 46) as u32
    &&& msg.pressure_valid == bit8(s[24], 0)
    &&& msg.temperature_valid == bit8(s[24], 1)
    &&& msg.altimeter_dist_valid == bit8(s[22], 0)
    &&& msg.altimeter_quality_valid == bit8(s[22], 1)
}

/// Decodes an altimeter record: four numeric fields and four independent
/// validity bits from the status word.
pub fn parse_altimeter_data(data: &[u8]) -> (r: Result<AltimeterMessage, ParseError>)
    ensures
        data@.len() < 50 ==> r == Err::<AltimeterMessage, ParseError>(ParseError::TruncatedPayload),
        data@.len() >= 50 ==> (r matches Ok(msg) && altimeter_decoded(msg, data@)),
{
    if data.len() < 50 {
        return Err(ParseError::TruncatedPayload);
    }
    let status0 = data[22];
    let status2 = data[24];
    Ok(
        AltimeterMessage {
            pressure: get_f32_bits(data, 32),
            temperature: get_f32_bits(data, 28),
            sound_speed: get_f32_bits(data, 24),
            altitude: get_f32_bits(data, 36),
            pressure_valid: (status2 >> 0) & 1 == 1,
            temperature_valid: (status2 >> 1) & 1 == 1,
            altimeter_dist_valid: (status0 >> 0) & 1 == 1,
            altimeter_quality_valid: (status0 >> 1) & 1 == 1,
        },
    )
}

/// Decodes a magnetometer record: three consecutive float32 bit patterns at
/// the offset the sub-header's byte 1 declares (relative to the stripped
/// record).
pub fn parse_magnetometer_data(data: &[u8]) -> (r: Result<Vec3Bits, ParseError>)
    ensures
        data@.len() >= 12 && 10 + data@[11] + 12 <= data@.len() ==> (r matches Ok(v) && v
            == (Vec3Bits {
            x: u32_le_at(data@, 10 + data@[11]) as u32,
            y: u32_le_at(data@, 10 + data@[11] + 4) as u32,
            z: u32_le_at(data@, 10 + data@[11] + 8) as u32,
        })),
        !(data@.len() >= 12 && 10 + data@[11] + 12 <= data@.len()) ==> r == Err::<
            Vec3Bits,
            ParseError,
        >(ParseError::TruncatedPayload),
{
    if data.len() < 12 {
        return Err(ParseError::TruncatedPayload);
    }
    let offset = data[11] as usize;
    if data.len() - 10 < offset + 12 {
        return Err(ParseError::TruncatedPayload);
    }
    Ok(
        Vec3Bits {
            x: get_f32_bits(data, offset),
            y: get_f32_bits(data, offset + 4),
            z: get_f32_bits(data, offset + 8),
        },
    )
}

/// `msg` holds exactly the attitude fields of `s`: roll, pitch and heading
/// at the declared offset, the quaternion (w, x, y, z) at 12 past it and the
/// depth at 68 past it.
pub open spec fn ahrs_decoded(msg: AHRSMessage, s: Seq<u8>) -> bool {
    let off = 10 + s[11];
    &&& msg.roll == u32_le_at(s, off) as u32
    &&& msg.pitch == u32_le_at(s, off + 4) as u32
    &&& msg.heading == u32_le_at(s, off + 8) as u32
    &&& msg.orientation == (QuatBits {
        w: u32_le_at(s, off + 12) as u32,
        x: u32_le_at(s, off + 16) as u32,
        y: u32_le_at(s, off + 20) as u32,
        z: u32_le_at(s, off + 24) as u32,
    })
    &&& msg.depth == u32_le_at(s, off + 68) as u32
}

/// Decodes an attitude record: Euler angles, the raw quaternion and the
/// depth, each a float32 bit pattern at its documented offset.
pub fn parse_ahrs_data(data: &[u8]) -> (r: Result<AHRSMessage, ParseError>)
    ensures
        data@.len() >= 12 && 10 + data@[11] + 72 <= data@.len() ==> (r matches Ok(msg)
            && ahrs_decoded(msg, data@)),
        !(data@.len() >= 12 && 10 + data@[11] + 72 <= data@.len()) ==> r == Err::<
            AHRSMessage,
            ParseError,
        >(ParseError::TruncatedPayload),
{
    if data.len() < 12 {
        return Err(ParseError::TruncatedPayload);
    }
    let offset = data[11] as usize;
    if data.len() - 10 < offset + 72 {
        return Err(ParseError::TruncatedPayload);
    }
    Ok(
        AHRSMessage {
            roll: get_f32_bits(data, offset),
            pitch: get_f32_bits(data, offset + 4),
            heading: get_f32_bits(data, offset + 8),
            depth: get_f32_bits(data, offset + 68),
            orientation: QuatBits {
                w: get_f32_bits(data, offset + 12),
                x: get_f32_bits(data, offset + 16),
                y: get_f32_bits(data, offset + 20),
                z: get_f32_bits(data, offset + 24),
            },
        },
    )
}

} // verus!
