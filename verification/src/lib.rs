use vstd::prelude::*;

pub mod dvl_a50_parser;
pub mod dvl_nucleus1000_parser;
pub mod errors;
pub mod sentireader;
pub mod stim300_parser;
pub mod ublox_f9p_parser;
pub mod utils;

use crate::dvl_a50_parser::{a50_parse_post, parse_a50_data, DVLMessage};
use crate::dvl_nucleus1000_parser::{
    altimeter_decoded, data_id_of, get_data_id, parse_ahrs_data, parse_altimeter_data,
    parse_magnetometer_data, parse_track_data, track_decoded, AHRSMessage, AltimeterMessage,
    DataID, ExtendedDVLMessage, TrackMode, Vec3Bits,
};
use crate::errors::ParseError;
use crate::sentireader::SentiboardMessage;
use crate::stim300_parser::{parse_stim300_data, stim_expected_crc, stim_parse_post, IMUMessage};

verus! {

/// The sensor family a board port carries in this deployment.
#[allow(non_camel_case_types)]
#[derive(Debug, Clone, Copy, PartialEq, Eq, Structural)]
pub enum SensorID {
    STIM300,
    DVL_NUCLEUS,
    DVL_A50,
}

/// Maps a frame's port id to the sensor family connected on that port:
/// 1 carries the Nucleus Doppler log, 2 the STIM inertial unit, 4 the A50
/// Doppler log.  Any other port id is unsupported and the frame is dropped.
pub fn get_sensor_id(id: u8) -> (r: Result<SensorID, ParseError>)
    ensures
        id == 1 ==> r == Ok::<SensorID, ParseError>(SensorID::DVL_NUCLEUS),
        id == 2 ==> r == Ok::<SensorID, ParseError>(SensorID::STIM300),
        id == 4 ==> r == Ok::<SensorID, ParseError>(SensorID::DVL_A50),
        id != 1 && id != 2 && id != 4 ==> r == Err::<SensorID, ParseError>(
            ParseError::UnsupportedPort,
        ),
{
    match id {
        1 => Ok(SensorID::DVL_NUCLEUS),
        2 => Ok(SensorID::STIM300),
        4 => Ok(SensorID::DVL_A50),
        _ => Err(ParseError::UnsupportedPort),
    }
}

/// One typed sensor record, the tagged sum the pipeline delivers.
/// `Passthrough` carries record kinds the pipeline recognizes but does not
/// decode (raw inertial pass-through, field calibration, strings, current
/// profiles): they are data, not errors.
#[derive(Debug, Clone, PartialEq)]
pub enum SensorSample {
    Inertial(IMUMessage),
    DopplerBinary(ExtendedDVLMessage),
    Altimeter(AltimeterMessage),
    Magnetometer(Vec3Bits),
    Attitude(AHRSMessage),
    DopplerText(DVLMessage),
    Passthrough(DataID),
}

/// What dispatching a frame must return, per the port map of
/// `get_sensor_id` and the decoder posts of the sensor families.
pub open spec fn dispatch_post(r: Result<SensorSample, ParseError>, port_id: u8, s: Seq<u8>) -> bool {
    if port_id == 2 {
        match r {
            Ok(sample) => sample matches SensorSample::Inertial(m) && stim_parse_post(
                Ok(m),
                s,
                stim_expected_crc(s),
            ),
            Err(e) => stim_parse_post(Err(e), s, stim_expected_crc(s)),
        }
    } else if port_id == 4 {
        match r {
            Ok(sample) => sample matches SensorSample::DopplerText(m) && a50_parse_post(Ok(m), s),
            Err(e) => a50_parse_post(Err(e), s),
        }
    } else if port_id == 1 {
        if s.len() < 3 {
            r == Err::<SensorSample, ParseError>(ParseError::TruncatedPayload)
        } else {
            match data_id_of(s[2]) {
                None => r == Err::<SensorSample, ParseError>(ParseError::UnknownRecord),
                Some(DataID::BottomTrackData) => match r {
                    Ok(sample) => sample matches SensorSample::DopplerBinary(m) && s.len() >= 130
                        && track_decoded(m, s, TrackMode::BottomTrack),
                    Err(e) => s.len() < 130 && e == ParseError::TruncatedPayload,
                },
                Some(DataID::WaterTrackData) => match r {
                    Ok(sample) => sample matches SensorSample::DopplerBinary(m) && s.len() >= 130
                        && track_decoded(m, s, TrackMode::WaterTrack),
                    Err(e) => s.len() < 130 && e == ParseError::TruncatedPayload,
                },
                Some(DataID::AltimeterData) => match r {
                    Ok(sample) => sample matches SensorSample::Altimeter(m) && s.len() >= 50
                        && altimeter_decoded(m, s),
                    Err(e) => s.len() < 50 && e == ParseError::TruncatedPayload,
                },
                Some(DataID::MagnetometerData) => match r {
                    Ok(sample) => sample matches SensorSample::Magnetometer(v) && s.len() >= 12 && 10
                        + s[11] + 12 <= s.len() && v == (Vec3Bits {
                        x: crate::utils::u32_le_at(s, 10 + s[11]) as u32,
                        y: crate::utils::u32_le_at(s, 10 + s[11] + 4) as u32,
                        z: crate::utils::u32_le_at(s, 10 + s[11] + 8) as u32,
                    }),
                    Err(e) => !(s.len() >= 12 && 10 + s[11] + 12 <= s.len()) && e
                        == ParseError::TruncatedPayload,
                },
                Some(DataID::AHRSData) => match r {
                    Ok(sample) => sample matches SensorSample::Attitude(m) && s.len() >= 12 && 10
                        + s[11] + 72 <= s.len() && crate::dvl_nucleus1000_parser::ahrs_decoded(m, s),
                    Err(e) => !(s.len() >= 12 && 10 + s[11] + 72 <= s.len()) && e
                        == ParseError::TruncatedPayload,
                },
                Some(d) => r == Ok::<SensorSample, ParseError>(SensorSample::Passthrough(d)),
            }
        }
    } else {
        r == Err::<SensorSample, ParseError>(ParseError::UnsupportedPort)
    }
}

/// The pipeline's port-id dispatch: selects the decoder for the frame's
/// port and returns one typed sensor record, or the decoder's error.
/// Record kinds the Nucleus family does not decode pass through as data.
pub fn dispatch_frame(msg: &SentiboardMessage) -> (r: Result<SensorSample, ParseError>)
    ensures
        dispatch_post(r, msg.sensor_id, msg.sensor_data@),
{
    let sensor_id = get_sensor_id(msg.sensor_id)?;
    match sensor_id {
        SensorID::STIM300 => {
            let m = parse_stim300_data(&msg.sensor_data)?;
            Ok(SensorSample::Inertial(m))
        },
        SensorID::DVL_A50 => {
            let m = parse_a50_data(msg.sensor_data.as_slice())?;
            Ok(SensorSample::DopplerText(m))
        },
        SensorID::DVL_NUCLEUS => {
            let data_id = get_data_id(msg.sensor_data.as_slice())?;
            match data_id {
                DataID::BottomTrackData | DataID::WaterTrackData => {
                    let m = parse_track_data(msg.sensor_data.as_slice(), data_id)?;
                    Ok(SensorSample::DopplerBinary(m))
                },
                DataID::AltimeterData => {
                    let m = parse_altimeter_data(msg.sensor_data.as_slice())?;
                    Ok(SensorSample::Altimeter(m))
                },
                DataID::MagnetometerData => {
                    let v = parse_magnetometer_data(msg.sensor_data.as_slice())?;
                    Ok(SensorSample::Magnetometer(v))
                },
                DataID::AHRSData => {
                    let m = parse_ahrs_data(msg.sensor_data.as_slice())?;
                    Ok(SensorSample::Attitude(m))
                },
                _ => Ok(SensorSample::Passthrough(data_id)),
            }
        },
    }
}

} // verus!
