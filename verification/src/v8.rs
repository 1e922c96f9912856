//! Version-8 record decoders: every record kind in its version-8 layout,
//! each with a specification-level decoder it is proved to implement.

use vstd::prelude::*;

use crate::endian::f32_bits_is_negative;
use crate::endian::i8_cast;
use crate::endian::read_i32;
use crate::endian::read_u16;
use crate::endian::read_u32;
use crate::endian::read_u64;
use crate::endian::read_u8;
use crate::endian::spec_f32_bits_is_negative;
use crate::endian::spec_i32_at;
use crate::endian::spec_i8_of_bits;
use crate::endian::spec_u16_at;
use crate::endian::spec_u32_at;
use crate::endian::spec_u64_at;
use crate::decompress::Decompressor;
use crate::decompress::spec_decompressed_size;
use crate::strings::spec_string_at;
use crate::structures::str_eq;
use crate::endian::spec_i16_of_bits;
use crate::endian::spec_i32_of_bits;
use crate::endian::spec_i64_of_bits;
use crate::endian::spec_widen_f32_bits;
use crate::endian::spec_words16;
use crate::endian::spec_words32;
use crate::endian::spec_words64;
use crate::endian::widen_f32_bits;
use crate::structures::ADC;
use crate::structures::Complex;
use crate::structures::ComplexV;
use crate::structures::Vector;
use crate::structures::VectorInfo;
use crate::structures::VectorInfoV;
use crate::structures::VectorV;
use crate::structures::ADCV;
use crate::structures::Detector;
use crate::structures::AuxiliaryParameter;
use crate::structures::AuxiliaryParameterV;
use crate::structures::Event;
use crate::structures::EventParameter;
use crate::structures::EventV;
use crate::structures::EventParameterV;
use crate::structures::DetectorV;
use crate::structures::Endian;
use crate::structures::FrameError;
use crate::structures::FrameHeader;
use crate::structures::FrameHeaderV;
use crate::structures::Header;
use crate::structures::History;
use crate::structures::HistoryV;
use crate::structures::Message;
use crate::structures::PostProcessed;
use crate::structures::PostProcessedV;
use crate::structures::SimulatedEvent;
use crate::structures::SimulatedEventV;
use crate::structures::Table;
use crate::structures::TableV;
use crate::structures::MessageV;
use crate::structures::RawData;
use crate::structures::RawDataV;
use crate::structures::Serial;
use crate::structures::SerialV;
use crate::structures::Simulation;
use crate::structures::SimulationV;
use crate::structures::StaticData;
use crate::structures::StaticDataV;
use crate::structures::Summary;
use crate::structures::SummaryV;

verus! {

/// The common record prefix in its version-8 layout: an 8-byte total
/// length, a reserved byte, and the class byte at offset 9; 14 bytes in
/// all.
pub open spec fn sdec_common_v8(s: Seq<u8>, p: int, e: Endian) -> Result<(u64, u8, int), FrameError> {
    if p + 14 > s.len() {
        Err(FrameError::ShortRead)
    } else {
        Ok((spec_u64_at(s, p, e), s[p + 9], p + 14))
    }
}

/// Reads the version-8 common prefix at the cursor.
pub fn common(header: &Header, bytes: &[u8], pos: &mut usize) -> (r: Result<
    crate::structures::Common,
    FrameError,
>)
    requires
        *old(pos) <= bytes@.len(),
    ensures
        *final(pos) <= bytes@.len(),
        match r {
            Ok(c) => sdec_common_v8(bytes@, *old(pos) as int, header.endian) == Ok::<
                (u64, u8, int),
                FrameError,
            >((c.length(), c.class_id(), *final(pos) as int)),
            Err(er) => sdec_common_v8(bytes@, *old(pos) as int, header.endian) == Err::<
                (u64, u8, int),
                FrameError,
            >(er) && *final(pos) == *old(pos),
        },
{
    let e = header.endian;
    let len = bytes.len();
    let mut p: usize = *pos;
    let length = match read_u64(bytes, &mut p, len, e) {
        Ok(v) => v,
        Err(er) => {
            return Err(er);
        },
    };
    if len - p < 6 {
        return Err(FrameError::ShortRead);
    }
    let mut q: usize = p + 1;
    let class = match read_u8(bytes, &mut q, len) {
        Ok(v) => v,
        Err(er) => {
            return Err(er);
        },
    };
    *pos = p + 6;
    Ok(crate::structures::Common::new(length, class))
}

/// Dictionary-header record: the declared structure name, the class
/// identifier it binds, and a comment.
#[verifier::opaque]
pub open spec fn sdec_structure_header(s: Seq<u8>, p: int, lim: int, e: Endian) -> Result<
    ((Seq<char>, u16), int),
    FrameError,
> {
    match spec_string_at(s, p, lim, e) {
        Err(er) => Err(er),
        Ok((name, p1)) => {
            if p1 + 2 > lim {
                Err(FrameError::ShortRead)
            } else {
                let class = spec_u16_at(s, p1, e);
                match spec_string_at(s, p1 + 2, lim, e) {
                    Err(er) => Err(er),
                    Ok((comment, p2)) => Ok(((name, class), p2)),
                }
            }
        },
    }
}

/// Reads a dictionary-header record: the name and class identifier it
/// declares. The comment is read and discarded.
pub fn structure_header(header: &Header, bytes: &[u8], pos: &mut usize, limit: usize) -> (r: Result<
    (String, u16),
    FrameError,
>)
    requires
        *old(pos) <= limit,
        limit <= bytes@.len(),
    ensures
        *final(pos) <= limit,
        match r {
            Ok(v) => sdec_structure_header(bytes@, *old(pos) as int, limit as int, header.endian)
                == Ok::<((Seq<char>, u16), int), FrameError>(
                ((v.0@, v.1), *final(pos) as int),
            ),
            Err(er) => sdec_structure_header(bytes@, *old(pos) as int, limit as int, header.endian)
                == Err::<((Seq<char>, u16), int), FrameError>(er),
        },
{
    proof {
        reveal(sdec_structure_header);
    }
    let e = header.endian;
    let mut p: usize = *pos;
    let name = match crate::strings::string(bytes, &mut p, limit, e) {
        Ok(v) => v,
        Err(er) => {
            return Err(er);
        },
    };
    let class = match read_u16(bytes, &mut p, limit, e) {
        Ok(v) => v,
        Err(er) => {
            return Err(er);
        },
    };
    let _comment = match crate::strings::string(bytes, &mut p, limit, e) {
        Ok(v) => v,
        Err(er) => {
            return Err(er);
        },
    };
    *pos = p;
    Ok((name, class))
}


/// Frame-header record: the frame's identity and GPS timing.
#[verifier::opaque]
pub open spec fn sdec_frame_header(s: Seq<u8>, p: int, lim: int, e: Endian) -> Result<
    (FrameHeaderV, int),
    FrameError,
> {
    match spec_string_at(s, p, lim, e) {
        Err(er) => Err(er),
        Ok((name, p1)) => {
            if p1 + 4 > lim {
                Err(FrameError::ShortRead)
            } else {
                let run = spec_i32_at(s, p1, e);
                let p2 = p1 + 4;
                if p2 + 4 > lim {
                    Err(FrameError::ShortRead)
                } else {
                    let frame = spec_u32_at(s, p2, e);
                    let p3 = p2 + 4;
                    if p3 + 4 > lim {
                        Err(FrameError::ShortRead)
                    } else {
                        let data_quality = spec_u32_at(s, p3, e);
                        let p4 = p3 + 4;
                        if p4 + 4 > lim {
                            Err(FrameError::ShortRead)
                        } else {
                            let gps_start_time_s = spec_u32_at(s, p4, e);
                            let p5 = p4 + 4;
                            if p5 + 4 > lim {
                                Err(FrameError::ShortRead)
                            } else {
                                let gps_residual_time_ns = spec_u32_at(s, p5, e);
                                let p6 = p5 + 4;
                                if p6 + 2 > lim {
                                    Err(FrameError::ShortRead)
                                } else {
                                    let gps_leap_s = spec_u16_at(s, p6, e);
                                    let p7 = p6 + 2;
                                    if p7 + 8 > lim {
                                        Err(FrameError::ShortRead)
                                    } else {
                                        let frame_length_s = spec_u64_at(s, p7, e);
                                        let p8 = p7 + 8;
                                        Ok((FrameHeaderV { name, run, frame, data_quality, gps_start_time_s, gps_residual_time_ns, gps_leap_s, frame_length_s }, p8))
                                    }
                                }
                            }
                        }
                    }
                }
            }
        },
    }
}

/// Decodes one record as [`sdec_frame_header`] lays it out, advancing the cursor
/// past exactly the bytes the fields occupy.
pub fn frameheader(header: &Header, bytes: &[u8], pos: &mut usize, limit: usize) -> (r: Result<
    FrameHeader,
    FrameError,
>)
    requires
        *old(pos) <= limit,
        limit <= bytes@.len(),
    ensures
        *final(pos) <= limit,
        match r {
            Ok(v) => sdec_frame_header(bytes@, *old(pos) as int, limit as int, header.endian) == Ok::<
                (FrameHeaderV, int),
                FrameError,
            >((v@, *final(pos) as int)),
            Err(er) => sdec_frame_header(bytes@, *old(pos) as int, limit as int, header.endian) == Err::<
                (FrameHeaderV, int),
                FrameError,
            >(er),
        },
{
    proof {
        reveal(sdec_frame_header);
    }
    let e = header.endian;
    let mut p: usize = *pos;
    let name = match crate::strings::string(bytes, &mut p, limit, e) {
        Ok(v) => v,
        Err(er) => {
            return Err(er);
        },
    };
    let run = match read_i32(bytes, &mut p, limit, e) {
        Ok(v) => v,
        Err(er) => {
            return Err(er);
        },
    };
    let frame = match read_u32(bytes, &mut p, limit, e) {
        Ok(v) => v,
        Err(er) => {
            return Err(er);
        },
    };
    let data_quality = match read_u32(bytes, &mut p, limit, e) {
        Ok(v) => v,
        Err(er) => {
            return Err(er);
        },
    };
    let gps_start_time_s = match read_u32(bytes, &mut p, limit, e) {
        Ok(v) => v,
        Err(er) => {
            return Err(er);
        },
    };
    let gps_residual_time_ns = match read_u32(bytes, &mut p, limit, e) {
        Ok(v) => v,
        Err(er) => {
            return Err(er);
        },
    };
    let gps_leap_s = match read_u16(bytes, &mut p, limit, e) {
        Ok(v) => v,
        Err(er) => {
            return Err(er);
        },
    };
    let frame_length_s = match read_u64(bytes, &mut p, limit, e) {
        Ok(v) => v,
        Err(er) => {
            return Err(er);
        },
    };
    let v = FrameHeader { name, run, frame, data_quality, gps_start_time_s, gps_residual_time_ns, gps_leap_s, frame_length_s };
    *pos = p;
    Ok(v)
}

/// Detector record: site geometry in fixed-width fields.
#[verifier::opaque]
pub open spec fn sdec_detector(s: Seq<u8>, p: int, lim: int, e: Endian) -> Result<
    (DetectorV, int),
    FrameError,
> {
    match spec_string_at(s, p, lim, e) {
        Err(er) => Err(er),
        Ok((name, p1)) => {
            if p1 + 2 > lim {
                Err(FrameError::ShortRead)
            } else {
                let prefix = [spec_i8_of_bits(s[p1]), spec_i8_of_bits(s[p1 + 1])];
                let p2 = p1 + 2;
                if p2 + 8 > lim {
                    Err(FrameError::ShortRead)
                } else {
                    let longitude_radians = spec_u64_at(s, p2, e);
                    let p3 = p2 + 8;
                    if p3 + 8 > lim {
                        Err(FrameError::ShortRead)
                    } else {
                        let latitude_radians = spec_u64_at(s, p3, e);
                        let p4 = p3 + 8;
                        if p4 + 4 > lim {
                            Err(FrameError::ShortRead)
                        } else {
                            let elevation_meters = spec_u32_at(s, p4, e);
                            let p5 = p4 + 4;
                            if p5 + 4 > lim {
                                Err(FrameError::ShortRead)
                            } else {
                                let arm_x_azimuth_radians = spec_u32_at(s, p5, e);
                                let p6 = p5 + 4;
                                if p6 + 4 > lim {
                                    Err(FrameError::ShortRead)
                                } else {
                                    let arm_y_azimuth_radians = spec_u32_at(s, p6, e);
                                    let p7 = p6 + 4;
                                    if p7 + 4 > lim {
                                        Err(FrameError::ShortRead)
                                    } else {
                                        let arm_x_altitude_radians = spec_u32_at(s, p7, e);
                                        let p8 = p7 + 4;
                                        if p8 + 4 > lim {
                                            Err(FrameError::ShortRead)
                                        } else {
                                            let arm_y_altitude_radians = spec_u32_at(s, p8, e);
                                            let p9 = p8 + 4;
                                            if p9 + 4 > lim {
                                                Err(FrameError::ShortRead)
                                            } else {
                                                let arm_x_midpoint_meters = spec_u32_at(s, p9, e);
                                                let p10 = p9 + 4;
                                                if p10 + 4 > lim {
                                                    Err(FrameError::ShortRead)
                                                } else {
                                                    let arm_y_midpoint_meters = spec_u32_at(s, p10, e);
                                                    let p11 = p10 + 4;
                                                    if p11 + 4 > lim {
                                                        Err(FrameError::ShortRead)
                                                    } else {
                                                        let local_time_utc_offset_s = spec_i32_at(s, p11, e);
                                                        let p12 = p11 + 4;
                                                        Ok((DetectorV { name, prefix, longitude_radians, latitude_radians, elevation_meters, arm_x_azimuth_radians, arm_y_azimuth_radians, arm_x_altitude_radians, arm_y_altitude_radians, arm_x_midpoint_meters, arm_y_midpoint_meters, local_time_utc_offset_s }, p12))
                                                    }
                                                }
                                            }
                                        }
                                    }
                                }
                            }
                        }
                    }
                }
            }
        },
    }
}

/// Decodes one record as [`sdec_detector`] lays it out, advancing the cursor
/// past exactly the bytes the fields occupy.
pub fn detector(header: &Header, bytes: &[u8], pos: &mut usize, limit: usize) -> (r: Result<
    Detector,
    FrameError,
>)
    requires
        *old(pos) <= limit,
        limit <= bytes@.len(),
    ensures
        *final(pos) <= limit,
        match r {
            Ok(v) => sdec_detector(bytes@, *old(pos) as int, limit as int, header.endian) == Ok::<
                (DetectorV, int),
                FrameError,
            >((v@, *final(pos) as int)),
            Err(er) => sdec_detector(bytes@, *old(pos) as int, limit as int, header.endian) == Err::<
                (DetectorV, int),
                FrameError,
            >(er),
        },
{
    proof {
        reveal(sdec_detector);
    }
    let e = header.endian;
    let mut p: usize = *pos;
    let name = match crate::strings::string(bytes, &mut p, limit, e) {
        Ok(v) => v,
        Err(er) => {
            return Err(er);
        },
    };
    let b0 = match read_u8(bytes, &mut p, limit) {
        Ok(v) => v,
        Err(er) => {
            return Err(er);
        },
    };
    let b1 = match read_u8(bytes, &mut p, limit) {
        Ok(v) => v,
        Err(er) => {
            return Err(er);
        },
    };
    let prefix = [i8_cast(b0), i8_cast(b1)];
    let longitude_radians = match read_u64(bytes, &mut p, limit, e) {
        Ok(v) => v,
        Err(er) => {
            return Err(er);
        },
    };
    let latitude_radians = match read_u64(bytes, &mut p, limit, e) {
        Ok(v) => v,
        Err(er) => {
            return Err(er);
        },
    };
    let elevation_meters = match read_u32(bytes, &mut p, limit, e) {
        Ok(v) => v,
        Err(er) => {
            return Err(er);
        },
    };
    let arm_x_azimuth_radians = match read_u32(bytes, &mut p, limit, e) {
        Ok(v) => v,
        Err(er) => {
            return Err(er);
        },
    };
    let arm_y_azimuth_radians = match read_u32(bytes, &mut p, limit, e) {
        Ok(v) => v,
        Err(er) => {
            return Err(er);
        },
    };
    let arm_x_altitude_radians = match read_u32(bytes, &mut p, limit, e) {
        Ok(v) => v,
        Err(er) => {
            return Err(er);
        },
    };
    let arm_y_altitude_radians = match read_u32(bytes, &mut p, limit, e) {
        Ok(v) => v,
        Err(er) => {
            return Err(er);
        },
    };
    let arm_x_midpoint_meters = match read_u32(bytes, &mut p, limit, e) {
        Ok(v) => v,
        Err(er) => {
            return Err(er);
        },
    };
    let arm_y_midpoint_meters = match read_u32(bytes, &mut p, limit, e) {
        Ok(v) => v,
        Err(er) => {
            return Err(er);
        },
    };
    let local_time_utc_offset_s = match read_i32(bytes, &mut p, limit, e) {
        Ok(v) => v,
        Err(er) => {
            return Err(er);
        },
    };
    let v = Detector { name, prefix, longitude_radians, latitude_radians, elevation_meters, arm_x_azimuth_radians, arm_y_azimuth_radians, arm_x_altitude_radians, arm_y_altitude_radians, arm_x_midpoint_meters, arm_y_midpoint_meters, local_time_utc_offset_s };
    *pos = p;
    Ok(v)
}

/// ADC channel record. A stored units string of `NONE` means absent, and the stored 16-bit valid field is zero exactly when the data is valid.
#[verifier::opaque]
pub open spec fn sdec_adc(s: Seq<u8>, p: int, lim: int, e: Endian) -> Result<
    (ADCV, int),
    FrameError,
> {
    match spec_string_at(s, p, lim, e) {
        Err(er) => Err(er),
        Ok((name, p1)) => {
            match spec_string_at(s, p1, lim, e) {
                Err(er) => Err(er),
                Ok((comment, p2)) => {
                    if p2 + 4 > lim {
                        Err(FrameError::ShortRead)
                    } else {
                        let channel_group = spec_u32_at(s, p2, e);
                        let p3 = p2 + 4;
                        if p3 + 4 > lim {
                            Err(FrameError::ShortRead)
                        } else {
                            let channel_number = spec_u32_at(s, p3, e);
                            let p4 = p3 + 4;
                            if p4 + 4 > lim {
                                Err(FrameError::ShortRead)
                            } else {
                                let num_bits = spec_u32_at(s, p4, e);
                                let p5 = p4 + 4;
                                if p5 + 4 > lim {
                                    Err(FrameError::ShortRead)
                                } else {
                                    let bias = spec_u32_at(s, p5, e);
                                    let p6 = p5 + 4;
                                    if p6 + 4 > lim {
                                        Err(FrameError::ShortRead)
                                    } else {
                                        let slope = spec_u32_at(s, p6, e);
                                        let p7 = p6 + 4;
                                        match spec_string_at(s, p7, lim, e) {
                                            Err(er) => Err(er),
                                            Ok((units_raw, p8)) => {
                                                let units = if units_raw == "NONE"@ {
                                                    None
                                                } else {
                                                    Some(units_raw)
                                                };
                                                if p8 + 8 > lim {
                                                    Err(FrameError::ShortRead)
                                                } else {
                                                    let sample_rate = spec_u64_at(s, p8, e);
                                                    let p9 = p8 + 8;
                                                    if p9 + 8 > lim {
                                                        Err(FrameError::ShortRead)
                                                    } else {
                                                        let time_offset_s = spec_u64_at(s, p9, e);
                                                        let p10 = p9 + 8;
                                                        if p10 + 8 > lim {
                                                            Err(FrameError::ShortRead)
                                                        } else {
                                                            let f_shift = spec_u64_at(s, p10, e);
                                                            let p11 = p10 + 8;
                                                            if p11 + 4 > lim {
                                                                Err(FrameError::ShortRead)
                                                            } else {
                                                                let phase = spec_u32_at(s, p11, e);
                                                                let p12 = p11 + 4;
                                                                if p12 + 2 > lim {
                                                                    Err(FrameError::ShortRead)
                                                                } else {
                                                                    let data_valid = spec_u16_at(s, p12, e) == 0;
                                                                    let p13 = p12 + 2;
                                                                    Ok((ADCV { name, comment, channel_group, channel_number, num_bits, bias, slope, units, sample_rate, time_offset_s, f_shift, phase, data_valid }, p13))
                                                                }
                                                            }
                                                        }
                                                    }
                                                }
                                            },
                                        }
                                    }
                                }
                            }
                        }
                    }
                },
            }
        },
    }
}

/// Decodes one record as [`sdec_adc`] lays it out, advancing the cursor
/// past exactly the bytes the fields occupy.
pub fn adc(header: &Header, bytes: &[u8], pos: &mut usize, limit: usize) -> (r: Result<
    ADC,
    FrameError,
>)
    requires
        *old(pos) <= limit,
        limit <= bytes@.len(),
    ensures
        *final(pos) <= limit,
        match r {
            Ok(v) => sdec_adc(bytes@, *old(pos) as int, limit as int, header.endian) == Ok::<
                (ADCV, int),
                FrameError,
            >((v@, *final(pos) as int)),
            Err(er) => sdec_adc(bytes@, *old(pos) as int, limit as int, header.endian) == Err::<
                (ADCV, int),
                FrameError,
            >(er),
        },
{
    proof {
        reveal(sdec_adc);
    }
    let e = header.endian;
    let mut p: usize = *pos;
    let name = match crate::strings::string(bytes, &mut p, limit, e) {
        Ok(v) => v,
        Err(er) => {
            return Err(er);
        },
    };
    let comment = match crate::strings::string(bytes, &mut p, limit, e) {
        Ok(v) => v,
        Err(er) => {
            return Err(er);
        },
    };
    let channel_group = match read_u32(bytes, &mut p, limit, e) {
        Ok(v) => v,
        Err(er) => {
            return Err(er);
        },
    };
    let channel_number = match read_u32(bytes, &mut p, limit, e) {
        Ok(v) => v,
        Err(er) => {
            return Err(er);
        },
    };
    let num_bits = match read_u32(bytes, &mut p, limit, e) {
        Ok(v) => v,
        Err(er) => {
            return Err(er);
        },
    };
    let bias = match read_u32(bytes, &mut p, limit, e) {
        Ok(v) => v,
        Err(er) => {
            return Err(er);
        },
    };
    let slope = match read_u32(bytes, &mut p, limit, e) {
        Ok(v) => v,
        Err(er) => {
            return Err(er);
        },
    };
    let units_raw = match crate::strings::string(bytes, &mut p, limit, e) {
        Ok(v) => v,
        Err(er) => {
            return Err(er);
        },
    };
    let units = if str_eq(units_raw.as_str(), "NONE") {
        None
    } else {
        Some(units_raw)
    };
    let sample_rate = match read_u64(bytes, &mut p, limit, e) {
        Ok(v) => v,
        Err(er) => {
            return Err(er);
        },
    };
    let time_offset_s = match read_u64(bytes, &mut p, limit, e) {
        Ok(v) => v,
        Err(er) => {
            return Err(er);
        },
    };
    let f_shift = match read_u64(bytes, &mut p, limit, e) {
        Ok(v) => v,
        Err(er) => {
            return Err(er);
        },
    };
    let phase = match read_u32(bytes, &mut p, limit, e) {
        Ok(v) => v,
        Err(er) => {
            return Err(er);
        },
    };
    let valid_raw = match read_u16(bytes, &mut p, limit, e) {
        Ok(v) => v,
        Err(er) => {
            return Err(er);
        },
    };
    let data_valid = valid_raw == 0;
    let v = ADC { name, comment, channel_group, channel_number, num_bits, bias, slope, units, sample_rate, time_offset_s, f_shift, phase, data_valid };
    *pos = p;
    Ok(v)
}

/// Message record.
#[verifier::opaque]
pub open spec fn sdec_message(s: Seq<u8>, p: int, lim: int, e: Endian) -> Result<
    (MessageV, int),
    FrameError,
> {
    match spec_string_at(s, p, lim, e) {
        Err(er) => Err(er),
        Ok((alarm, p1)) => {
            match spec_string_at(s, p1, lim, e) {
                Err(er) => Err(er),
                Ok((message, p2)) => {
                    if p2 + 4 > lim {
                        Err(FrameError::ShortRead)
                    } else {
                        let severity = spec_u32_at(s, p2, e);
                        let p3 = p2 + 4;
                        if p3 + 4 > lim {
                            Err(FrameError::ShortRead)
                        } else {
                            let gps_time_s = spec_u32_at(s, p3, e);
                            let p4 = p3 + 4;
                            if p4 + 4 > lim {
                                Err(FrameError::ShortRead)
                            } else {
                                let gps_residual_time_ns = spec_u32_at(s, p4, e);
                                let p5 = p4 + 4;
                                Ok((MessageV { alarm, message, severity, gps_time_s, gps_residual_time_ns }, p5))
                            }
                        }
                    }
                },
            }
        },
    }
}

/// Decodes one record as [`sdec_message`] lays it out, advancing the cursor
/// past exactly the bytes the fields occupy.
pub fn message(header: &Header, bytes: &[u8], pos: &mut usize, limit: usize) -> (r: Result<
    Message,
    FrameError,
>)
    requires
        *old(pos) <= limit,
        limit <= bytes@.len(),
    ensures
        *final(pos) <= limit,
        match r {
            Ok(v) => sdec_message(bytes@, *old(pos) as int, limit as int, header.endian) == Ok::<
                (MessageV, int),
                FrameError,
            >((v@, *final(pos) as int)),
            Err(er) => sdec_message(bytes@, *old(pos) as int, limit as int, header.endian) == Err::<
                (MessageV, int),
                FrameError,
            >(er),
        },
{
    proof {
        reveal(sdec_message);
    }
    let e = header.endian;
    let mut p: usize = *pos;
    let alarm = match crate::strings::string(bytes, &mut p, limit, e) {
        Ok(v) => v,
        Err(er) => {
            return Err(er);
        },
    };
    let message = match crate::strings::string(bytes, &mut p, limit, e) {
        Ok(v) => v,
        Err(er) => {
            return Err(er);
        },
    };
    let severity = match read_u32(bytes, &mut p, limit, e) {
        Ok(v) => v,
        Err(er) => {
            return Err(er);
        },
    };
    let gps_time_s = match read_u32(bytes, &mut p, limit, e) {
        Ok(v) => v,
        Err(er) => {
            return Err(er);
        },
    };
    let gps_residual_time_ns = match read_u32(bytes, &mut p, limit, e) {
        Ok(v) => v,
        Err(er) => {
            return Err(er);
        },
    };
    let v = Message { alarm, message, severity, gps_time_s, gps_residual_time_ns };
    *pos = p;
    Ok(v)
}

/// History record.
#[verifier::opaque]
pub open spec fn sdec_history(s: Seq<u8>, p: int, lim: int, e: Endian) -> Result<
    (HistoryV, int),
    FrameError,
> {
    match spec_string_at(s, p, lim, e) {
        Err(er) => Err(er),
        Ok((name, p1)) => {
            if p1 + 4 > lim {
                Err(FrameError::ShortRead)
            } else {
                let gps_time_s = spec_u32_at(s, p1, e);
                let p2 = p1 + 4;
                match spec_string_at(s, p2, lim, e) {
                    Err(er) => Err(er),
                    Ok((comment, p3)) => {
                        Ok((HistoryV { name, gps_time_s, comment }, p3))
                    },
                }
            }
        },
    }
}

/// Decodes one record as [`sdec_history`] lays it out, advancing the cursor
/// past exactly the bytes the fields occupy.
pub fn history(header: &Header, bytes: &[u8], pos: &mut usize, limit: usize) -> (r: Result<
    History,
    FrameError,
>)
    requires
        *old(pos) <= limit,
        limit <= bytes@.len(),
    ensures
        *final(pos) <= limit,
        match r {
            Ok(v) => sdec_history(bytes@, *old(pos) as int, limit as int, header.endian) == Ok::<
                (HistoryV, int),
                FrameError,
            >((v@, *final(pos) as int)),
            Err(er) => sdec_history(bytes@, *old(pos) as int, limit as int, header.endian) == Err::<
                (HistoryV, int),
                FrameError,
            >(er),
        },
{
    proof {
        reveal(sdec_history);
    }
    let e = header.endian;
    let mut p: usize = *pos;
    let name = match crate::strings::string(bytes, &mut p, limit, e) {
        Ok(v) => v,
        Err(er) => {
            return Err(er);
        },
    };
    let gps_time_s = match read_u32(bytes, &mut p, limit, e) {
        Ok(v) => v,
        Err(er) => {
            return Err(er);
        },
    };
    let comment = match crate::strings::string(bytes, &mut p, limit, e) {
        Ok(v) => v,
        Err(er) => {
            return Err(er);
        },
    };
    let v = History { name, gps_time_s, comment };
    *pos = p;
    Ok(v)
}

/// Raw-data record: a name alone.
#[verifier::opaque]
pub open spec fn sdec_raw(s: Seq<u8>, p: int, lim: int, e: Endian) -> Result<
    (RawDataV, int),
    FrameError,
> {
    match spec_string_at(s, p, lim, e) {
        Err(er) => Err(er),
        Ok((name, p1)) => {
            Ok((RawDataV { name }, p1))
        },
    }
}

/// Decodes one record as [`sdec_raw`] lays it out, advancing the cursor
/// past exactly the bytes the fields occupy.
pub fn raw(header: &Header, bytes: &[u8], pos: &mut usize, limit: usize) -> (r: Result<
    RawData,
    FrameError,
>)
    requires
        *old(pos) <= limit,
        limit <= bytes@.len(),
    ensures
        *final(pos) <= limit,
        match r {
            Ok(v) => sdec_raw(bytes@, *old(pos) as int, limit as int, header.endian) == Ok::<
                (RawDataV, int),
                FrameError,
            >((v@, *final(pos) as int)),
            Err(er) => sdec_raw(bytes@, *old(pos) as int, limit as int, header.endian) == Err::<
                (RawDataV, int),
                FrameError,
            >(er),
        },
{
    proof {
        reveal(sdec_raw);
    }
    let e = header.endian;
    let mut p: usize = *pos;
    let name = match crate::strings::string(bytes, &mut p, limit, e) {
        Ok(v) => v,
        Err(er) => {
            return Err(er);
        },
    };
    let v = RawData { name };
    *pos = p;
    Ok(v)
}

/// Simulated-data record, version-8 layout.
#[verifier::opaque]
pub open spec fn sdec_simulated(s: Seq<u8>, p: int, lim: int, e: Endian) -> Result<
    (SimulationV, int),
    FrameError,
> {
    match spec_string_at(s, p, lim, e) {
        Err(er) => Err(er),
        Ok((name, p1)) => {
            match spec_string_at(s, p1, lim, e) {
                Err(er) => Err(er),
                Ok((comment, p2)) => {
                    if p2 + 8 > lim {
                        Err(FrameError::ShortRead)
                    } else {
                        let sample_rate = spec_u64_at(s, p2, e);
                        let p3 = p2 + 8;
                        if p3 + 8 > lim {
                            Err(FrameError::ShortRead)
                        } else {
                            let time_offset_s = spec_u64_at(s, p3, e);
                            let p4 = p3 + 8;
                            if p4 + 8 > lim {
                                Err(FrameError::ShortRead)
                            } else {
                                let f_shift = spec_u64_at(s, p4, e);
                                let p5 = p4 + 8;
                                if p5 + 4 > lim {
                                    Err(FrameError::ShortRead)
                                } else {
                                    let phase = spec_u32_at(s, p5, e);
                                    let p6 = p5 + 4;
                                    Ok((SimulationV { name, comment, sample_rate, time_offset_s, f_shift, phase }, p6))
                                }
                            }
                        }
                    }
                },
            }
        },
    }
}

/// Decodes one record as [`sdec_simulated`] lays it out, advancing the cursor
/// past exactly the bytes the fields occupy.
pub fn simulated(header: &Header, bytes: &[u8], pos: &mut usize, limit: usize) -> (r: Result<
    Simulation,
    FrameError,
>)
    requires
        *old(pos) <= limit,
        limit <= bytes@.len(),
    ensures
        *final(pos) <= limit,
        match r {
            Ok(v) => sdec_simulated(bytes@, *old(pos) as int, limit as int, header.endian) == Ok::<
                (SimulationV, int),
                FrameError,
            >((v@, *final(pos) as int)),
            Err(er) => sdec_simulated(bytes@, *old(pos) as int, limit as int, header.endian) == Err::<
                (SimulationV, int),
                FrameError,
            >(er),
        },
{
    proof {
        reveal(sdec_simulated);
    }
    let e = header.endian;
    let mut p: usize = *pos;
    let name = match crate::strings::string(bytes, &mut p, limit, e) {
        Ok(v) => v,
        Err(er) => {
            return Err(er);
        },
    };
    let comment = match crate::strings::string(bytes, &mut p, limit, e) {
        Ok(v) => v,
        Err(er) => {
            return Err(er);
        },
    };
    let sample_rate = match read_u64(bytes, &mut p, limit, e) {
        Ok(v) => v,
        Err(er) => {
            return Err(er);
        },
    };
    let time_offset_s = match read_u64(bytes, &mut p, limit, e) {
        Ok(v) => v,
        Err(er) => {
            return Err(er);
        },
    };
    let f_shift = match read_u64(bytes, &mut p, limit, e) {
        Ok(v) => v,
        Err(er) => {
            return Err(er);
        },
    };
    let phase = match read_u32(bytes, &mut p, limit, e) {
        Ok(v) => v,
        Err(er) => {
            return Err(er);
        },
    };
    let v = Simulation { name, comment, sample_rate, time_offset_s, f_shift, phase };
    *pos = p;
    Ok(v)
}

/// Serial-data record, version-8 layout.
#[verifier::opaque]
pub open spec fn sdec_serial(s: Seq<u8>, p: int, lim: int, e: Endian) -> Result<
    (SerialV, int),
    FrameError,
> {
    match spec_string_at(s, p, lim, e) {
        Err(er) => Err(er),
        Ok((name, p1)) => {
            if p1 + 4 > lim {
                Err(FrameError::ShortRead)
            } else {
                let gps_time_s = spec_u32_at(s, p1, e);
                let p2 = p1 + 4;
                if p2 + 4 > lim {
                    Err(FrameError::ShortRead)
                } else {
                    let gps_residual_time_ns = spec_u32_at(s, p2, e);
                    let p3 = p2 + 4;
                    if p3 + 8 > lim {
                        Err(FrameError::ShortRead)
                    } else {
                        let sample_rate = spec_u64_at(s, p3, e);
                        let p4 = p3 + 8;
                        match spec_string_at(s, p4, lim, e) {
                            Err(er) => Err(er),
                            Ok((data, p5)) => {
                                Ok((SerialV { name, gps_time_s, gps_residual_time_ns, sample_rate, data }, p5))
                            },
                        }
                    }
                }
            }
        },
    }
}

/// Decodes one record as [`sdec_serial`] lays it out, advancing the cursor
/// past exactly the bytes the fields occupy.
pub fn serial(header: &Header, bytes: &[u8], pos: &mut usize, limit: usize) -> (r: Result<
    Serial,
    FrameError,
>)
    requires
        *old(pos) <= limit,
        limit <= bytes@.len(),
    ensures
        *final(pos) <= limit,
        match r {
            Ok(v) => sdec_serial(bytes@, *old(pos) as int, limit as int, header.endian) == Ok::<
                (SerialV, int),
                FrameError,
            >((v@, *final(pos) as int)),
            Err(er) => sdec_serial(bytes@, *old(pos) as int, limit as int, header.endian) == Err::<
                (SerialV, int),
                FrameError,
            >(er),
        },
{
    proof {
        reveal(sdec_serial);
    }
    let e = header.endian;
    let mut p: usize = *pos;
    let name = match crate::strings::string(bytes, &mut p, limit, e) {
        Ok(v) => v,
        Err(er) => {
            return Err(er);
        },
    };
    let gps_time_s = match read_u32(bytes, &mut p, limit, e) {
        Ok(v) => v,
        Err(er) => {
            return Err(er);
        },
    };
    let gps_residual_time_ns = match read_u32(bytes, &mut p, limit, e) {
        Ok(v) => v,
        Err(er) => {
            return Err(er);
        },
    };
    let sample_rate = match read_u64(bytes, &mut p, limit, e) {
        Ok(v) => v,
        Err(er) => {
            return Err(er);
        },
    };
    let data = match crate::strings::string(bytes, &mut p, limit, e) {
        Ok(v) => v,
        Err(er) => {
            return Err(er);
        },
    };
    let v = Serial { name, gps_time_s, gps_residual_time_ns, sample_rate, data };
    *pos = p;
    Ok(v)
}

/// Static-data record.
#[verifier::opaque]
pub open spec fn sdec_static_data(s: Seq<u8>, p: int, lim: int, e: Endian) -> Result<
    (StaticDataV, int),
    FrameError,
> {
    match spec_string_at(s, p, lim, e) {
        Err(er) => Err(er),
        Ok((name, p1)) => {
            match spec_string_at(s, p1, lim, e) {
                Err(er) => Err(er),
                Ok((comment, p2)) => {
                    match spec_string_at(s, p2, lim, e) {
                        Err(er) => Err(er),
                        Ok((representation, p3)) => {
                            if p3 + 4 > lim {
                                Err(FrameError::ShortRead)
                            } else {
                                let gps_time_start_s = spec_u32_at(s, p3, e);
                                let p4 = p3 + 4;
                                if p4 + 4 > lim {
                                    Err(FrameError::ShortRead)
                                } else {
                                    let gps_time_end_s = spec_u32_at(s, p4, e);
                                    let p5 = p4 + 4;
                                    if p5 + 4 > lim {
                                        Err(FrameError::ShortRead)
                                    } else {
                                        let version = spec_u32_at(s, p5, e);
                                        let p6 = p5 + 4;
                                        Ok((StaticDataV { name, comment, representation, gps_time_start_s, gps_time_end_s, version }, p6))
                                    }
                                }
                            }
                        },
                    }
                },
            }
        },
    }
}

/// Decodes one record as [`sdec_static_data`] lays it out, advancing the cursor
/// past exactly the bytes the fields occupy.
pub fn static_data(header: &Header, bytes: &[u8], pos: &mut usize, limit: usize) -> (r: Result<
    StaticData,
    FrameError,
>)
    requires
        *old(pos) <= limit,
        limit <= bytes@.len(),
    ensures
        *final(pos) <= limit,
        match r {
            Ok(v) => sdec_static_data(bytes@, *old(pos) as int, limit as int, header.endian) == Ok::<
                (StaticDataV, int),
                FrameError,
            >((v@, *final(pos) as int)),
            Err(er) => sdec_static_data(bytes@, *old(pos) as int, limit as int, header.endian) == Err::<
                (StaticDataV, int),
                FrameError,
            >(er),
        },
{
    proof {
        reveal(sdec_static_data);
    }
    let e = header.endian;
    let mut p: usize = *pos;
    let name = match crate::strings::string(bytes, &mut p, limit, e) {
        Ok(v) => v,
        Err(er) => {
            return Err(er);
        },
    };
    let comment = match crate::strings::string(bytes, &mut p, limit, e) {
        Ok(v) => v,
        Err(er) => {
            return Err(er);
        },
    };
    let representation = match crate::strings::string(bytes, &mut p, limit, e) {
        Ok(v) => v,
        Err(er) => {
            return Err(er);
        },
    };
    let gps_time_start_s = match read_u32(bytes, &mut p, limit, e) {
        Ok(v) => v,
        Err(er) => {
            return Err(er);
        },
    };
    let gps_time_end_s = match read_u32(bytes, &mut p, limit, e) {
        Ok(v) => v,
        Err(er) => {
            return Err(er);
        },
    };
    let version = match read_u32(bytes, &mut p, limit, e) {
        Ok(v) => v,
        Err(er) => {
            return Err(er);
        },
    };
    let v = StaticData { name, comment, representation, gps_time_start_s, gps_time_end_s, version };
    *pos = p;
    Ok(v)
}

/// Summary record.
#[verifier::opaque]
pub open spec fn sdec_summary(s: Seq<u8>, p: int, lim: int, e: Endian) -> Result<
    (SummaryV, int),
    FrameError,
> {
    match spec_string_at(s, p, lim, e) {
        Err(er) => Err(er),
        Ok((name, p1)) => {
            match spec_string_at(s, p1, lim, e) {
                Err(er) => Err(er),
                Ok((comment, p2)) => {
                    match spec_string_at(s, p2, lim, e) {
                        Err(er) => Err(er),
                        Ok((test, p3)) => {
                            if p3 + 4 > lim {
                                Err(FrameError::ShortRead)
                            } else {
                                let gps_time_s = spec_u32_at(s, p3, e);
                                let p4 = p3 + 4;
                                if p4 + 4 > lim {
                                    Err(FrameError::ShortRead)
                                } else {
                                    let gps_residual_time_ns = spec_u32_at(s, p4, e);
                                    let p5 = p4 + 4;
                                    Ok((SummaryV { name, comment, test, gps_time_s, gps_residual_time_ns }, p5))
                                }
                            }
                        },
                    }
                },
            }
        },
    }
}

/// Decodes one record as [`sdec_summary`] lays it out, advancing the cursor
/// past exactly the bytes the fields occupy.
pub fn summary(header: &Header, bytes: &[u8], pos: &mut usize, limit: usize) -> (r: Result<
    Summary,
    FrameError,
>)
    requires
        *old(pos) <= limit,
        limit <= bytes@.len(),
    ensures
        *final(pos) <= limit,
        match r {
            Ok(v) => sdec_summary(bytes@, *old(pos) as int, limit as int, header.endian) == Ok::<
                (SummaryV, int),
                FrameError,
            >((v@, *final(pos) as int)),
            Err(er) => sdec_summary(bytes@, *old(pos) as int, limit as int, header.endian) == Err::<
                (SummaryV, int),
                FrameError,
            >(er),
        },
{
    proof {
        reveal(sdec_summary);
    }
    let e = header.endian;
    let mut p: usize = *pos;
    let name = match crate::strings::string(bytes, &mut p, limit, e) {
        Ok(v) => v,
        Err(er) => {
            return Err(er);
        },
    };
    let comment = match crate::strings::string(bytes, &mut p, limit, e) {
        Ok(v) => v,
        Err(er) => {
            return Err(er);
        },
    };
    let test = match crate::strings::string(bytes, &mut p, limit, e) {
        Ok(v) => v,
        Err(er) => {
            return Err(er);
        },
    };
    let gps_time_s = match read_u32(bytes, &mut p, limit, e) {
        Ok(v) => v,
        Err(er) => {
            return Err(er);
        },
    };
    let gps_residual_time_ns = match read_u32(bytes, &mut p, limit, e) {
        Ok(v) => v,
        Err(er) => {
            return Err(er);
        },
    };
    let v = Summary { name, comment, test, gps_time_s, gps_residual_time_ns };
    *pos = p;
    Ok(v)
}

/// Views of a vector of strings.
pub open spec fn spec_str_views(q: Seq<String>) -> Seq<Seq<char>> {
    Seq::new(q.len(), |i: int| q[i]@)
}

/// `n` consecutive length-prefixed strings starting at offset `p`.
pub open spec fn sdec_names(s: Seq<u8>, p: int, lim: int, e: Endian, n: nat) -> Result<
    (Seq<Seq<char>>, int),
    FrameError,
>
    decreases n,
{
    if n == 0 {
        Ok((Seq::empty(), p))
    } else {
        match spec_string_at(s, p, lim, e) {
            Err(er) => Err(er),
            Ok((nm, p1)) => match sdec_names(s, p1, lim, e, (n - 1) as nat) {
                Err(er) => Err(er),
                Ok((rest, p2)) => Ok((seq![nm] + rest, p2)),
            },
        }
    }
}

/// Reads `n` consecutive strings at the cursor.
#[verifier::loop_isolation(false)]
pub(crate) fn read_names(bytes: &[u8], pos: &mut usize, limit: usize, e: Endian, n: u32) -> (r: Result<
    Vec<String>,
    FrameError,
>)
    requires
        *old(pos) <= limit,
        limit <= bytes@.len(),
    ensures
        *final(pos) <= limit,
        match r {
            Ok(v) => sdec_names(bytes@, *old(pos) as int, limit as int, e, n as nat) == Ok::<
                (Seq<Seq<char>>, int),
                FrameError,
            >((spec_str_views(v@), *final(pos) as int)),
            Err(er) => sdec_names(bytes@, *old(pos) as int, limit as int, e, n as nat) == Err::<
                (Seq<Seq<char>>, int),
                FrameError,
            >(er) && *final(pos) == *old(pos),
        },
{
    let ghost p0 = *pos as int;
    let ghost lim = limit as int;
    let mut p: usize = *pos;
    let mut v: Vec<String> = Vec::new();
    let mut i: u32 = 0;
    while i < n
        invariant
            i <= n,
            *pos <= p <= limit,
            v@.len() == i as nat,
            sdec_names(bytes@, p0, lim, e, n as nat) == (match sdec_names(
                bytes@,
                p as int,
                lim,
                e,
                (n - i) as nat,
            ) {
                Ok(pair) => Ok::<(Seq<Seq<char>>, int), FrameError>(
                    (spec_str_views(v@) + pair.0, pair.1),
                ),
                Err(er) => Err::<(Seq<Seq<char>>, int), FrameError>(er),
            }),
        decreases n - i,
    {
        let st = match crate::strings::string(bytes, &mut p, limit, e) {
            Ok(st) => st,
            Err(er) => {
                return Err(er);
            },
        };
        proof {
            let prev = v@;
            assert(spec_str_views(prev.push(st)) =~= spec_str_views(prev) + seq![st@]);
        }
        v.push(st);
        i = i + 1;
        proof {
            assert forall|rest: Seq<Seq<char>>, a: Seq<char>, w: Seq<Seq<char>>| (w + seq![a])
                + rest =~= w + (seq![a] + rest) by {}
        }
    }
    proof {
        assert(spec_str_views(v@) + Seq::<Seq<char>>::empty() =~= spec_str_views(v@));
    }
    *pos = p;
    Ok(v)
}

/// The packed block of `n` doubles (as bit patterns) at offset `p`.
pub open spec fn spec_f64_block(s: Seq<u8>, p: int, e: Endian, n: nat) -> Seq<u64> {
    Seq::new(n, |i: int| spec_u64_at(s, p + 8 * i, e))
}

/// Reads `n` consecutive 8-byte values at the cursor.
#[verifier::loop_isolation(false)]
fn read_f64_block(bytes: &[u8], pos: &mut usize, limit: usize, e: Endian, n: u32) -> (r: Result<
    Vec<u64>,
    FrameError,
>)
    requires
        *old(pos) <= limit,
        limit <= bytes@.len(),
    ensures
        *final(pos) <= limit,
        match r {
            Ok(v) => *old(pos) + 8 * (n as int) <= limit && *final(pos) == *old(pos) + 8 * (
            n as int) && v@ == spec_f64_block(bytes@, *old(pos) as int, e, n as nat),
            Err(er) => er == FrameError::ShortRead && *old(pos) + 8 * (n as int) > limit
                && *final(pos) == *old(pos),
        },
{
    if (limit - *pos) / 8 < n as usize {
        return Err(FrameError::ShortRead);
    }
    let mut p: usize = *pos;
    let mut v: Vec<u64> = Vec::new();
    let mut i: u32 = 0;
    while i < n
        invariant
            i <= n,
            p == *pos + 8 * (i as int),
            *pos + 8 * (n as int) <= limit,
            v@.len() == i as nat,
            forall|j: int|
                0 <= j < i ==> v@[j] == spec_u64_at(bytes@, *pos + 8 * j, e),
        decreases n - i,
    {
        let x = match read_u64(bytes, &mut p, limit, e) {
            Ok(x) => x,
            Err(er) => {
                proof {
                    assert(false);
                }
                return Err(er);
            },
        };
        v.push(x);
        i = i + 1;
    }
    proof {
        assert(v@ =~= spec_f64_block(bytes@, *pos as int, e, n as nat));
    }
    *pos = p;
    Ok(v)
}

/// One decoded event parameter per (value, name) pair.
pub open spec fn spec_event_params(values: Seq<u64>, names: Seq<Seq<char>>) -> Seq<
    EventParameterV,
> {
    Seq::new(values.len(), |i: int| EventParameterV { value: values[i], name: names[i] })
}

/// Pairs each stored value with its following name.
#[verifier::loop_isolation(false)]
pub(crate) fn zip_params(values: Vec<u64>, names: &Vec<String>) -> (r: Vec<EventParameter>)
    requires
        values@.len() == names@.len(),
    ensures
        Seq::new(r@.len(), |i: int| r@[i]@) == spec_event_params(
            values@,
            spec_str_views(names@),
        ),
        r@.len() == values@.len(),
{
    let n = values.len();
    let mut r: Vec<EventParameter> = Vec::new();
    let mut i: usize = 0;
    while i < n
        invariant
            i <= n,
            n == values@.len(),
            values@.len() == names@.len(),
            r@.len() == i,
            forall|j: int|
                0 <= j < i ==> #[trigger] r@[j]@ == (EventParameterV {
                    value: values@[j],
                    name: names@[j]@,
                }),
        decreases n - i,
    {
        let name = (*vstd::slice::slice_index_get(names.as_slice(), i)).clone();
        let value = *vstd::slice::slice_index_get(values.as_slice(), i);
        r.push(EventParameter { value, name });
        i = i + 1;
    }
    proof {
        assert(Seq::new(r@.len(), |i: int| r@[i]@) =~= spec_event_params(
            values@,
            spec_str_views(names@),
        ));
    }
    r
}

pub proof fn lemma_sdec_names_len(s: Seq<u8>, p: int, lim: int, e: Endian, n: nat)
    ensures
        sdec_names(s, p, lim, e, n) matches Ok(pair) ==> pair.0.len() == n,
    decreases n,
{
    if n > 0 {
        match spec_string_at(s, p, lim, e) {
            Err(_) => {},
            Ok((nm, p1)) => {
                lemma_sdec_names_len(s, p1, lim, e, (n - 1) as nat);
            },
        }
    }
}

/// One decoded auxiliary parameter per (value, name) pair.
pub open spec fn spec_aux_params(values: Seq<u64>, names: Seq<Seq<char>>) -> Seq<
    AuxiliaryParameterV,
> {
    Seq::new(values.len(), |i: int| AuxiliaryParameterV { value: values[i], name: names[i] })
}

/// Pairs each stored auxiliary value with its following name.
#[verifier::loop_isolation(false)]
fn zip_aux_params(values: Vec<u64>, names: &Vec<String>) -> (r: Vec<AuxiliaryParameter>)
    requires
        values@.len() == names@.len(),
    ensures
        Seq::new(r@.len(), |i: int| r@[i]@) == spec_aux_params(values@, spec_str_views(names@)),
        r@.len() == values@.len(),
{
    let n = values.len();
    let mut r: Vec<AuxiliaryParameter> = Vec::new();
    let mut i: usize = 0;
    while i < n
        invariant
            i <= n,
            n == values@.len(),
            values@.len() == names@.len(),
            r@.len() == i,
            forall|j: int|
                0 <= j < i ==> #[trigger] r@[j]@ == (AuxiliaryParameterV {
                    value: values@[j],
                    name: names@[j]@,
                }),
        decreases n - i,
    {
        let name = (*vstd::slice::slice_index_get(names.as_slice(), i)).clone();
        let value = *vstd::slice::slice_index_get(values.as_slice(), i);
        r.push(AuxiliaryParameter { value, name });
        i = i + 1;
    }
    proof {
        assert(Seq::new(r@.len(), |i: int| r@[i]@) =~= spec_aux_params(
            values@,
            spec_str_views(names@),
        ));
    }
    r
}

/// Event record: fixed fields, a statistics string, then a counted list of
/// (value, name) parameters, the values stored as one packed block before
/// the names. A stored probability below zero means absent.
#[verifier::opaque]
pub open spec fn sdec_event(s: Seq<u8>, p: int, lim: int, e: Endian) -> Result<
    (EventV, int),
    FrameError,
> {
    match spec_string_at(s, p, lim, e) {
        Err(er) => Err(er),
        Ok((name, p1)) => match spec_string_at(s, p1, lim, e) {
            Err(er) => Err(er),
            Ok((comment, p2)) => match spec_string_at(s, p2, lim, e) {
                Err(er) => Err(er),
                Ok((inputs, p3)) => {
                    if p3 + 28 > lim {
                        Err(FrameError::ShortRead)
                    } else {
                        let gps_time_s = spec_u32_at(s, p3, e);
                        let gps_residual_time_ns = spec_u32_at(s, p3 + 4, e);
                        let duration_before_s = spec_u32_at(s, p3 + 8, e);
                        let duration_after_s = spec_u32_at(s, p3 + 12, e);
                        let event_status = spec_u32_at(s, p3 + 16, e);
                        let amplitude = spec_u32_at(s, p3 + 20, e);
                        let probability = if spec_f32_bits_is_negative(spec_u32_at(s, p3 + 24, e)) {
                            None
                        } else {
                            Some(spec_u32_at(s, p3 + 24, e))
                        };
                        match spec_string_at(s, p3 + 28, lim, e) {
                            Err(er) => Err(er),
                            Ok((statistics, p4)) => {
                                if p4 + 2 > lim {
                                    Err(FrameError::ShortRead)
                                } else {
                                    let n = spec_u16_at(s, p4, e);
                                    let q0 = p4 + 2;
                                    if q0 + 8 * n > lim {
                                        Err(FrameError::ShortRead)
                                    } else {
                                        let values = spec_f64_block(s, q0, e, n as nat);
                                        match sdec_names(s, q0 + 8 * n, lim, e, n as nat) {
                                            Err(er) => Err(er),
                                            Ok((names, pf)) => Ok(
                                                (
                                                    EventV {
                                                        name,
                                                        comment,
                                                        inputs,
                                                        gps_time_s,
                                                        gps_residual_time_ns,
                                                        duration_before_s,
                                                        duration_after_s,
                                                        event_status,
                                                        amplitude,
                                                        probability,
                                                        statistics,
                                                        parameters: spec_event_params(
                                                            values,
                                                            names,
                                                        ),
                                                    },
                                                    pf,
                                                ),
                                            ),
                                        }
                                    }
                                }
                            },
                        }
                    }
                },
            },
        },
    }
}

/// Decodes one event record as [`sdec_event`] lays it out.
pub fn event(header: &Header, bytes: &[u8], pos: &mut usize, limit: usize) -> (r: Result<
    Event,
    FrameError,
>)
    requires
        *old(pos) <= limit,
        limit <= bytes@.len(),
    ensures
        *final(pos) <= limit,
        match r {
            Ok(v) => sdec_event(bytes@, *old(pos) as int, limit as int, header.endian) == Ok::<
                (EventV, int),
                FrameError,
            >((v@, *final(pos) as int)),
            Err(er) => sdec_event(bytes@, *old(pos) as int, limit as int, header.endian) == Err::<
                (EventV, int),
                FrameError,
            >(er),
        },
{
    proof {
        reveal(sdec_event);
    }
    let e = header.endian;
    let mut p: usize = *pos;
    let name = match crate::strings::string(bytes, &mut p, limit, e) {
        Ok(v) => v,
        Err(er) => {
            return Err(er);
        },
    };
    let comment = match crate::strings::string(bytes, &mut p, limit, e) {
        Ok(v) => v,
        Err(er) => {
            return Err(er);
        },
    };
    let inputs = match crate::strings::string(bytes, &mut p, limit, e) {
        Ok(v) => v,
        Err(er) => {
            return Err(er);
        },
    };
    let gps_time_s = match read_u32(bytes, &mut p, limit, e) {
        Ok(v) => v,
        Err(er) => {
            return Err(er);
        },
    };
    let gps_residual_time_ns = match read_u32(bytes, &mut p, limit, e) {
        Ok(v) => v,
        Err(er) => {
            return Err(er);
        },
    };
    let duration_before_s = match read_u32(bytes, &mut p, limit, e) {
        Ok(v) => v,
        Err(er) => {
            return Err(er);
        },
    };
    let duration_after_s = match read_u32(bytes, &mut p, limit, e) {
        Ok(v) => v,
        Err(er) => {
            return Err(er);
        },
    };
    let event_status = match read_u32(bytes, &mut p, limit, e) {
        Ok(v) => v,
        Err(er) => {
            return Err(er);
        },
    };
    let amplitude = match read_u32(bytes, &mut p, limit, e) {
        Ok(v) => v,
        Err(er) => {
            return Err(er);
        },
    };
    let prob_raw = match read_u32(bytes, &mut p, limit, e) {
        Ok(v) => v,
        Err(er) => {
            return Err(er);
        },
    };
    let probability = if f32_bits_is_negative(prob_raw) {
        None
    } else {
        Some(prob_raw)
    };
    let statistics = match crate::strings::string(bytes, &mut p, limit, e) {
        Ok(v) => v,
        Err(er) => {
            return Err(er);
        },
    };
    let n = match read_u16(bytes, &mut p, limit, e) {
        Ok(v) => v,
        Err(er) => {
            return Err(er);
        },
    };
    let values = match read_f64_block(bytes, &mut p, limit, e, n as u32) {
        Ok(v) => v,
        Err(er) => {
            return Err(er);
        },
    };
    let ghost pn = p as int;
    let names = match read_names(bytes, &mut p, limit, e, n as u32) {
        Ok(v) => v,
        Err(er) => {
            return Err(er);
        },
    };
    proof {
        lemma_sdec_names_len(bytes@, pn, limit as int, e, n as nat);
    }
    let parameters = zip_params(values, &names);
    let v = Event {
        name,
        comment,
        inputs,
        gps_time_s,
        gps_residual_time_ns,
        duration_before_s,
        duration_after_s,
        event_status,
        amplitude,
        probability,
        statistics,
        parameters,
    };
    *pos = p;
    Ok(v)
}

/// Simulated-event record, version-8 layout: the parameter values are
/// stored as doubles.
#[verifier::opaque]
pub open spec fn sdec_simulated_event(s: Seq<u8>, p: int, lim: int, e: Endian) -> Result<
    (SimulatedEventV, int),
    FrameError,
> {
    match spec_string_at(s, p, lim, e) {
        Err(er) => Err(er),
        Ok((name, p1)) => match spec_string_at(s, p1, lim, e) {
            Err(er) => Err(er),
            Ok((comment, p2)) => match spec_string_at(s, p2, lim, e) {
                Err(er) => Err(er),
                Ok((inputs, p3)) => {
                    if p3 + 20 > lim {
                        Err(FrameError::ShortRead)
                    } else {
                        let gps_event_max_time_s = spec_u32_at(s, p3, e);
                        let gps_residual_time_ns = spec_u32_at(s, p3 + 4, e);
                        let duration_before_s = spec_u32_at(s, p3 + 8, e);
                        let duration_after_s = spec_u32_at(s, p3 + 12, e);
                        let amplitude = spec_u32_at(s, p3 + 16, e);
                        if p3 + 22 > lim {
                            Err(FrameError::ShortRead)
                        } else {
                            let n = spec_u16_at(s, p3 + 20, e);
                            let q0 = p3 + 22;
                            if q0 + 8 * n > lim {
                                Err(FrameError::ShortRead)
                            } else {
                                let values = spec_f64_block(s, q0, e, n as nat);
                                match sdec_names(s, q0 + 8 * n, lim, e, n as nat) {
                                    Err(er) => Err(er),
                                    Ok((names, pf)) => Ok(
                                        (
                                            SimulatedEventV {
                                                name,
                                                comment,
                                                inputs,
                                                gps_event_max_time_s,
                                                gps_residual_time_ns,
                                                duration_before_s,
                                                duration_after_s,
                                                amplitude,
                                                parameters: spec_event_params(values, names),
                                            },
                                            pf,
                                        ),
                                    ),
                                }
                            }
                        }
                    }
                },
            },
        },
    }
}

/// Decodes one simulated-event record as [`sdec_simulated_event`] lays it
/// out.
pub fn simulated_event(header: &Header, bytes: &[u8], pos: &mut usize, limit: usize) -> (r: Result<
    SimulatedEvent,
    FrameError,
>)
    requires
        *old(pos) <= limit,
        limit <= bytes@.len(),
    ensures
        *final(pos) <= limit,
        match r {
            Ok(v) => sdec_simulated_event(bytes@, *old(pos) as int, limit as int, header.endian)
                == Ok::<(SimulatedEventV, int), FrameError>((v@, *final(pos) as int)),
            Err(er) => sdec_simulated_event(bytes@, *old(pos) as int, limit as int, header.endian)
                == Err::<(SimulatedEventV, int), FrameError>(er),
        },
{
    proof {
        reveal(sdec_simulated_event);
    }
    let e = header.endian;
    let mut p: usize = *pos;
    let name = match crate::strings::string(bytes, &mut p, limit, e) {
        Ok(v) => v,
        Err(er) => {
            return Err(er);
        },
    };
    let comment = match crate::strings::string(bytes, &mut p, limit, e) {
        Ok(v) => v,
        Err(er) => {
            return Err(er);
        },
    };
    let inputs = match crate::strings::string(bytes, &mut p, limit, e) {
        Ok(v) => v,
        Err(er) => {
            return Err(er);
        },
    };
    let gps_event_max_time_s = match read_u32(bytes, &mut p, limit, e) {
        Ok(v) => v,
        Err(er) => {
            return Err(er);
        },
    };
    let gps_residual_time_ns = match read_u32(bytes, &mut p, limit, e) {
        Ok(v) => v,
        Err(er) => {
            return Err(er);
        },
    };
    let duration_before_s = match read_u32(bytes, &mut p, limit, e) {
        Ok(v) => v,
        Err(er) => {
            return Err(er);
        },
    };
    let duration_after_s = match read_u32(bytes, &mut p, limit, e) {
        Ok(v) => v,
        Err(er) => {
            return Err(er);
        },
    };
    let amplitude = match read_u32(bytes, &mut p, limit, e) {
        Ok(v) => v,
        Err(er) => {
            return Err(er);
        },
    };
    let n = match read_u16(bytes, &mut p, limit, e) {
        Ok(v) => v,
        Err(er) => {
            return Err(er);
        },
    };
    let values = match read_f64_block(bytes, &mut p, limit, e, n as u32) {
        Ok(v) => v,
        Err(er) => {
            return Err(er);
        },
    };
    let ghost pn = p as int;
    let names = match read_names(bytes, &mut p, limit, e, n as u32) {
        Ok(v) => v,
        Err(er) => {
            return Err(er);
        },
    };
    proof {
        lemma_sdec_names_len(bytes@, pn, limit as int, e, n as nat);
    }
    let parameters = zip_params(values, &names);
    let v = SimulatedEvent {
        name,
        comment,
        inputs,
        gps_event_max_time_s,
        gps_residual_time_ns,
        duration_before_s,
        duration_after_s,
        amplitude,
        parameters,
    };
    *pos = p;
    Ok(v)
}

/// Post-processed data record: fixed fields, then a counted list of
/// (value, name) auxiliary parameters, the values stored as one packed
/// block before the names.
#[verifier::opaque]
pub open spec fn sdec_post_processed(s: Seq<u8>, p: int, lim: int, e: Endian) -> Result<
    (PostProcessedV, int),
    FrameError,
> {
    match spec_string_at(s, p, lim, e) {
        Err(er) => Err(er),
        Ok((name, p1)) => match spec_string_at(s, p1, lim, e) {
            Err(er) => Err(er),
            Ok((comment, p2)) => {
                if p2 + 50 > lim {
                    Err(FrameError::ShortRead)
                } else {
                    let data_type = spec_u16_at(s, p2, e);
                    let sub_type = spec_u16_at(s, p2 + 2, e);
                    let time_offset_s = spec_u64_at(s, p2 + 4, e);
                    let time_range_s = spec_u64_at(s, p2 + 12, e);
                    let f_shift = spec_u64_at(s, p2 + 20, e);
                    let phase = spec_u32_at(s, p2 + 28, e);
                    let frequency_range = spec_u64_at(s, p2 + 32, e);
                    let bandwidth = spec_u64_at(s, p2 + 40, e);
                    let n = spec_u16_at(s, p2 + 48, e);
                    let q0 = p2 + 50;
                    if q0 + 8 * n > lim {
                        Err(FrameError::ShortRead)
                    } else {
                        let values = spec_f64_block(s, q0, e, n as nat);
                        match sdec_names(s, q0 + 8 * n, lim, e, n as nat) {
                            Err(er) => Err(er),
                            Ok((names, pf)) => Ok(
                                (
                                    PostProcessedV {
                                        name,
                                        comment,
                                        data_type,
                                        sub_type,
                                        time_offset_s,
                                        time_range_s,
                                        f_shift,
                                        phase,
                                        frequency_range,
                                        bandwidth,
                                        auxiliary_parameters: spec_aux_params(values, names),
                                    },
                                    pf,
                                ),
                            ),
                        }
                    }
                }
            },
        },
    }
}

/// Decodes one post-processed record as [`sdec_post_processed`] lays it
/// out.
pub fn post_processed(header: &Header, bytes: &[u8], pos: &mut usize, limit: usize) -> (r: Result<
    PostProcessed,
    FrameError,
>)
    requires
        *old(pos) <= limit,
        limit <= bytes@.len(),
    ensures
        *final(pos) <= limit,
        match r {
            Ok(v) => sdec_post_processed(bytes@, *old(pos) as int, limit as int, header.endian)
                == Ok::<(PostProcessedV, int), FrameError>((v@, *final(pos) as int)),
            Err(er) => sdec_post_processed(bytes@, *old(pos) as int, limit as int, header.endian)
                == Err::<(PostProcessedV, int), FrameError>(er),
        },
{
    proof {
        reveal(sdec_post_processed);
    }
    let e = header.endian;
    let mut p: usize = *pos;
    let name = match crate::strings::string(bytes, &mut p, limit, e) {
        Ok(v) => v,
        Err(er) => {
            return Err(er);
        },
    };
    let comment = match crate::strings::string(bytes, &mut p, limit, e) {
        Ok(v) => v,
        Err(er) => {
            return Err(er);
        },
    };
    let data_type = match read_u16(bytes, &mut p, limit, e) {
        Ok(v) => v,
        Err(er) => {
            return Err(er);
        },
    };
    let sub_type = match read_u16(bytes, &mut p, limit, e) {
        Ok(v) => v,
        Err(er) => {
            return Err(er);
        },
    };
    let time_offset_s = match read_u64(bytes, &mut p, limit, e) {
        Ok(v) => v,
        Err(er) => {
            return Err(er);
        },
    };
    let time_range_s = match read_u64(bytes, &mut p, limit, e) {
        Ok(v) => v,
        Err(er) => {
            return Err(er);
        },
    };
    let f_shift = match read_u64(bytes, &mut p, limit, e) {
        Ok(v) => v,
        Err(er) => {
            return Err(er);
        },
    };
    let phase = match read_u32(bytes, &mut p, limit, e) {
        Ok(v) => v,
        Err(er) => {
            return Err(er);
        },
    };
    let frequency_range = match read_u64(bytes, &mut p, limit, e) {
        Ok(v) => v,
        Err(er) => {
            return Err(er);
        },
    };
    let bandwidth = match read_u64(bytes, &mut p, limit, e) {
        Ok(v) => v,
        Err(er) => {
            return Err(er);
        },
    };
    let n = match read_u16(bytes, &mut p, limit, e) {
        Ok(v) => v,
        Err(er) => {
            return Err(er);
        },
    };
    let values = match read_f64_block(bytes, &mut p, limit, e, n as u32) {
        Ok(v) => v,
        Err(er) => {
            return Err(er);
        },
    };
    let ghost pn = p as int;
    let names = match read_names(bytes, &mut p, limit, e, n as u32) {
        Ok(v) => v,
        Err(er) => {
            return Err(er);
        },
    };
    proof {
        lemma_sdec_names_len(bytes@, pn, limit as int, e, n as nat);
    }
    let auxiliary_parameters = zip_aux_params(values, &names);
    let v = PostProcessed {
        name,
        comment,
        data_type,
        sub_type,
        time_offset_s,
        time_range_s,
        f_shift,
        phase,
        frequency_range,
        bandwidth,
        auxiliary_parameters,
    };
    *pos = p;
    Ok(v)
}

/// Table record: a 16-bit column count, a 32-bit row count, then one name
/// per column.
#[verifier::opaque]
pub open spec fn sdec_table(s: Seq<u8>, p: int, lim: int, e: Endian) -> Result<
    (TableV, int),
    FrameError,
> {
    match spec_string_at(s, p, lim, e) {
        Err(er) => Err(er),
        Ok((name, p1)) => match spec_string_at(s, p1, lim, e) {
            Err(er) => Err(er),
            Ok((comment, p2)) => {
                if p2 + 6 > lim {
                    Err(FrameError::ShortRead)
                } else {
                    let n = spec_u16_at(s, p2, e);
                    let num_rows = spec_u32_at(s, p2 + 2, e);
                    match sdec_names(s, p2 + 6, lim, e, n as nat) {
                        Err(er) => Err(er),
                        Ok((names, pf)) => Ok(
                            (TableV { name, comment, num_rows, column_names: names }, pf),
                        ),
                    }
                }
            },
        },
    }
}

/// Decodes one table record as [`sdec_table`] lays it out.
pub fn table(header: &Header, bytes: &[u8], pos: &mut usize, limit: usize) -> (r: Result<
    Table,
    FrameError,
>)
    requires
        *old(pos) <= limit,
        limit <= bytes@.len(),
    ensures
        *final(pos) <= limit,
        match r {
            Ok(v) => sdec_table(bytes@, *old(pos) as int, limit as int, header.endian) == Ok::<
                (TableV, int),
                FrameError,
            >((v@, *final(pos) as int)),
            Err(er) => sdec_table(bytes@, *old(pos) as int, limit as int, header.endian) == Err::<
                (TableV, int),
                FrameError,
            >(er),
        },
{
    proof {
        reveal(sdec_table);
    }
    let e = header.endian;
    let mut p: usize = *pos;
    let name = match crate::strings::string(bytes, &mut p, limit, e) {
        Ok(v) => v,
        Err(er) => {
            return Err(er);
        },
    };
    let comment = match crate::strings::string(bytes, &mut p, limit, e) {
        Ok(v) => v,
        Err(er) => {
            return Err(er);
        },
    };
    let n = match read_u16(bytes, &mut p, limit, e) {
        Ok(v) => v,
        Err(er) => {
            return Err(er);
        },
    };
    let num_rows = match read_u32(bytes, &mut p, limit, e) {
        Ok(v) => v,
        Err(er) => {
            return Err(er);
        },
    };
    let column_names = match read_names(bytes, &mut p, limit, e, n as u32) {
        Ok(v) => v,
        Err(er) => {
            return Err(er);
        },
    };
    let v = Table { name, comment, num_rows, column_names };
    proof {
        assert(Seq::new(v.column_names@.len(), |i: int| v.column_names@[i]@) =~= spec_str_views(
            v.column_names@,
        ));
    }
    *pos = p;
    Ok(v)
}

/// Consecutive pairs of single bits widened to (real, imaginary) double
/// bits.
pub open spec fn spec_complexes_f32(ws: Seq<u32>) -> Seq<ComplexV> {
    Seq::new(
        ws.len() / 2,
        |i: int|
            ComplexV {
                real: spec_widen_f32_bits(ws[2 * i]),
                imaginary: spec_widen_f32_bits(ws[2 * i + 1]),
            },
    )
}

/// Consecutive pairs of double bits as (real, imaginary) pairs.
pub open spec fn spec_complexes_f64(ws: Seq<u64>) -> Seq<ComplexV> {
    Seq::new(ws.len() / 2, |i: int| ComplexV { real: ws[2 * i], imaginary: ws[2 * i + 1] })
}

/// The typed payload a vector-class code makes of a decompressed byte
/// buffer: fixed-width elements are reinterpreted in file byte order, the
/// two complex classes pair consecutive values, and unknown codes (the
/// unimplemented string class among them) degrade to bytes. Trailing bytes
/// short of one element are dropped.
#[verifier::opaque]
pub open spec fn spec_new_vector(data: Seq<u8>, class: u16, e: Endian, info: VectorInfoV) -> VectorV {
    if class == 0 {
        VectorV::I8(info, data.map_values(|u: u8| spec_i8_of_bits(u)))
    } else if class == 1 {
        VectorV::I16(info, spec_words16(data, e).map_values(|u: u16| spec_i16_of_bits(u)))
    } else if class == 2 {
        VectorV::F64(info, spec_words64(data, e))
    } else if class == 3 {
        VectorV::F32(info, spec_words32(data, e))
    } else if class == 4 {
        VectorV::I32(info, spec_words32(data, e).map_values(|u: u32| spec_i32_of_bits(u)))
    } else if class == 5 {
        VectorV::I64(info, spec_words64(data, e).map_values(|u: u64| spec_i64_of_bits(u)))
    } else if class == 6 {
        VectorV::Complexes(info, spec_complexes_f32(spec_words32(data, e)))
    } else if class == 7 {
        VectorV::Complexes(info, spec_complexes_f64(spec_words64(data, e)))
    } else if class == 9 {
        VectorV::U16(info, spec_words16(data, e))
    } else if class == 10 {
        VectorV::U32(info, spec_words32(data, e))
    } else if class == 11 {
        VectorV::U64(info, spec_words64(data, e))
    } else {
        VectorV::U8(info, data)
    }
}

proof fn lemma_words_of_truncated(data: Seq<u8>, m: int, e: Endian)
    requires
        0 <= m <= data.len(),
    ensures
        m == data.len() - data.len() % 2 ==> spec_words16(data.subrange(0, m), e) == spec_words16(
            data,
            e,
        ),
        m == data.len() - data.len() % 4 ==> spec_words32(data.subrange(0, m), e) == spec_words32(
            data,
            e,
        ),
        m == data.len() - data.len() % 8 ==> spec_words64(data.subrange(0, m), e) == spec_words64(
            data,
            e,
        ),
{
    let sl = data.subrange(0, m);
    if m == data.len() - data.len() % 2 {
        assert(spec_words16(sl, e) =~= spec_words16(data, e)) by {
            assert(sl.len() / 2 == data.len() / 2);
            assert forall|i: int| 0 <= i < data.len() / 2 implies spec_words16(sl, e)[i]
                == spec_words16(data, e)[i] by {
                assert(sl.subrange(2 * i, 2 * i + 2) =~= data.subrange(2 * i, 2 * i + 2));
            }
        }
    }
    if m == data.len() - data.len() % 4 {
        assert(spec_words32(sl, e) =~= spec_words32(data, e)) by {
            assert(sl.len() / 4 == data.len() / 4);
            assert forall|i: int| 0 <= i < data.len() / 4 implies spec_words32(sl, e)[i]
                == spec_words32(data, e)[i] by {
                assert(sl.subrange(4 * i, 4 * i + 4) =~= data.subrange(4 * i, 4 * i + 4));
            }
        }
    }
    if m == data.len() - data.len() % 8 {
        assert(spec_words64(sl, e) =~= spec_words64(data, e)) by {
            assert(sl.len() / 8 == data.len() / 8);
            assert forall|i: int| 0 <= i < data.len() / 8 implies spec_words64(sl, e)[i]
                == spec_words64(data, e)[i] by {
                assert(sl.subrange(8 * i, 8 * i + 8) =~= data.subrange(8 * i, 8 * i + 8));
            }
        }
    }
}

/// Pairs consecutive single-bit words, widening each to double bits.
#[verifier::loop_isolation(false)]
fn complexes_f32(ws: &Vec<u32>) -> (r: Vec<Complex>)
    ensures
        Seq::new(r@.len(), |i: int| r@[i]@) == spec_complexes_f32(ws@),
        r@.len() == ws@.len() / 2,
{
    let n = ws.len() / 2;
    let mut r: Vec<Complex> = Vec::new();
    let mut i: usize = 0;
    while i < n
        invariant
            i <= n,
            n == ws@.len() / 2,
            r@.len() == i,
            forall|j: int|
                0 <= j < i ==> #[trigger] r@[j]@ == (ComplexV {
                    real: spec_widen_f32_bits(ws@[2 * j]),
                    imaginary: spec_widen_f32_bits(ws@[2 * j + 1]),
                }),
        decreases n - i,
    {
        let re = widen_f32_bits(*vstd::slice::slice_index_get(ws.as_slice(), 2 * i));
        let im = widen_f32_bits(*vstd::slice::slice_index_get(ws.as_slice(), 2 * i + 1));
        r.push(Complex { real: re, imaginary: im });
        i = i + 1;
    }
    proof {
        assert(Seq::new(r@.len(), |i: int| r@[i]@) =~= spec_complexes_f32(ws@));
    }
    r
}

/// Pairs consecutive double-bit words.
#[verifier::loop_isolation(false)]
fn complexes_f64(ws: &Vec<u64>) -> (r: Vec<Complex>)
    ensures
        Seq::new(r@.len(), |i: int| r@[i]@) == spec_complexes_f64(ws@),
        r@.len() == ws@.len() / 2,
{
    let n = ws.len() / 2;
    let mut r: Vec<Complex> = Vec::new();
    let mut i: usize = 0;
    while i < n
        invariant
            i <= n,
            n == ws@.len() / 2,
            r@.len() == i,
            forall|j: int|
                0 <= j < i ==> #[trigger] r@[j]@ == (ComplexV {
                    real: ws@[2 * j],
                    imaginary: ws@[2 * j + 1],
                }),
        decreases n - i,
    {
        let re = *vstd::slice::slice_index_get(ws.as_slice(), 2 * i);
        let im = *vstd::slice::slice_index_get(ws.as_slice(), 2 * i + 1);
        r.push(Complex { real: re, imaginary: im });
        i = i + 1;
    }
    proof {
        assert(Seq::new(r@.len(), |i: int| r@[i]@) =~= spec_complexes_f64(ws@));
    }
    r
}

/// Materialises the typed payload for a vector-class code, as
/// [`spec_new_vector`] defines it.
pub fn new_vector(data_buf: Vec<u8>, class: u16, e: Endian, info: VectorInfo) -> (r: Vector)
    ensures
        r@ == spec_new_vector(data_buf@, class, e, info@),
{
    proof {
        reveal(spec_new_vector);
    }
    let data = data_buf.as_slice();
    let len = data.len();
    if class == 0 {
        let v = crate::endian::vec_i8_from_bytes(data);
        Vector::I8(info, v)
    } else if class == 1 {
        let sl = vstd::slice::slice_subrange(data, 0, len - len % 2);
        proof {
            lemma_words_of_truncated(data@, (len - len % 2) as int, e);
        }
        let v = crate::endian::vec_i16_from_bytes(sl, e);
        Vector::I16(info, v)
    } else if class == 2 {
        let sl = vstd::slice::slice_subrange(data, 0, len - len % 8);
        proof {
            lemma_words_of_truncated(data@, (len - len % 8) as int, e);
        }
        let v = crate::endian::vec_u64_from_bytes(sl, e);
        Vector::F64(info, v)
    } else if class == 3 {
        let sl = vstd::slice::slice_subrange(data, 0, len - len % 4);
        proof {
            lemma_words_of_truncated(data@, (len - len % 4) as int, e);
        }
        let v = crate::endian::vec_u32_from_bytes(sl, e);
        Vector::F32(info, v)
    } else if class == 4 {
        let sl = vstd::slice::slice_subrange(data, 0, len - len % 4);
        proof {
            lemma_words_of_truncated(data@, (len - len % 4) as int, e);
        }
        let v = crate::endian::vec_i32_from_bytes(sl, e);
        Vector::I32(info, v)
    } else if class == 5 {
        let sl = vstd::slice::slice_subrange(data, 0, len - len % 8);
        proof {
            lemma_words_of_truncated(data@, (len - len % 8) as int, e);
        }
        let v = crate::endian::vec_i64_from_bytes(sl, e);
        Vector::I64(info, v)
    } else if class == 6 {
        let sl = vstd::slice::slice_subrange(data, 0, len - len % 4);
        proof {
            lemma_words_of_truncated(data@, (len - len % 4) as int, e);
        }
        let ws = crate::endian::vec_u32_from_bytes(sl, e);
        let c = complexes_f32(&ws);
        let v = Vector::Complexes(info, c);
        proof {
            assert(v@ == spec_new_vector(data_buf@, class, e, info@));
        }
        v
    } else if class == 7 {
        let sl = vstd::slice::slice_subrange(data, 0, len - len % 8);
        proof {
            lemma_words_of_truncated(data@, (len - len % 8) as int, e);
        }
        let ws = crate::endian::vec_u64_from_bytes(sl, e);
        let c = complexes_f64(&ws);
        let v = Vector::Complexes(info, c);
        proof {
            assert(v@ == spec_new_vector(data_buf@, class, e, info@));
        }
        v
    } else if class == 9 {
        let sl = vstd::slice::slice_subrange(data, 0, len - len % 2);
        proof {
            lemma_words_of_truncated(data@, (len - len % 2) as int, e);
        }
        let v = crate::endian::vec_u16_from_bytes(sl, e);
        Vector::U16(info, v)
    } else if class == 10 {
        let sl = vstd::slice::slice_subrange(data, 0, len - len % 4);
        proof {
            lemma_words_of_truncated(data@, (len - len % 4) as int, e);
        }
        let v = crate::endian::vec_u32_from_bytes(sl, e);
        Vector::U32(info, v)
    } else if class == 11 {
        let sl = vstd::slice::slice_subrange(data, 0, len - len % 8);
        proof {
            lemma_words_of_truncated(data@, (len - len % 8) as int, e);
        }
        let v = crate::endian::vec_u64_from_bytes(sl, e);
        Vector::U64(info, v)
    } else {
        Vector::U8(info, data_buf)
    }
}

/// The leading fields of a vector record, through the stored payload
/// bytes.
pub struct VectorHeadV {
    pub name: Seq<char>,
    pub compression: u16,
    pub vector_class: u16,
    pub num_samples: u64,
    pub raw: Seq<u8>,
}

/// The trailing fields of a vector record: the per-dimension blocks and
/// unit strings.
pub struct VectorMetaV {
    pub num_dimensions: u32,
    pub dimension_lengths: Seq<u64>,
    pub sample_spacing: Seq<u64>,
    pub x_origins: Seq<u64>,
    pub unit_x_scale_factors: Seq<Seq<char>>,
    pub unit_y: Seq<char>,
}

/// Vector record, leading part: name, compression code, vector-class code,
/// sample count, and the stored payload bytes behind their 8-byte length.
#[verifier::opaque]
pub open spec fn sdec_vector_head(s: Seq<u8>, p: int, lim: int, e: Endian) -> Result<
    (VectorHeadV, int),
    FrameError,
> {
    match spec_string_at(s, p, lim, e) {
        Err(er) => Err(er),
        Ok((name, p1)) => {
            if p1 + 20 > lim {
                Err(FrameError::ShortRead)
            } else {
                let compression = spec_u16_at(s, p1, e);
                let vector_class = spec_u16_at(s, p1 + 2, e);
                let num_samples = spec_u64_at(s, p1 + 4, e);
                let len = spec_u64_at(s, p1 + 12, e);
                let q0 = p1 + 20;
                if q0 + len > lim {
                    Err(FrameError::ShortRead)
                } else {
                    Ok(
                        (
                            VectorHeadV {
                                name,
                                compression,
                                vector_class,
                                num_samples,
                                raw: s.subrange(q0, q0 + len),
                            },
                            q0 + len,
                        ),
                    )
                }
            }
        },
    }
}

/// Vector record, trailing part: dimensionality, the three per-dimension
/// 8-byte blocks, one unit string per dimension and the y-unit string.
#[verifier::opaque]
pub open spec fn sdec_vector_meta(s: Seq<u8>, p: int, lim: int, e: Endian) -> Result<
    (VectorMetaV, int),
    FrameError,
> {
    if p + 4 > lim {
        Err(FrameError::ShortRead)
    } else {
        let num_dimensions = spec_u32_at(s, p, e);
        let p1 = p + 4;
        if p1 + 8 * num_dimensions > lim {
            Err(FrameError::ShortRead)
        } else {
            let dimension_lengths = spec_f64_block(s, p1, e, num_dimensions as nat);
            let p2 = p1 + 8 * num_dimensions;
            if p2 + 8 * num_dimensions > lim {
                Err(FrameError::ShortRead)
            } else {
                let sample_spacing = spec_f64_block(s, p2, e, num_dimensions as nat);
                let p3 = p2 + 8 * num_dimensions;
                if p3 + 8 * num_dimensions > lim {
                    Err(FrameError::ShortRead)
                } else {
                    let x_origins = spec_f64_block(s, p3, e, num_dimensions as nat);
                    let p4 = p3 + 8 * num_dimensions;
                    match sdec_names(s, p4, lim, e, num_dimensions as nat) {
                        Err(er) => Err(er),
                        Ok((unit_x_scale_factors, p5)) => match spec_string_at(s, p5, lim, e) {
                            Err(er) => Err(er),
                            Ok((unit_y, p6)) => Ok(
                                (
                                    VectorMetaV {
                                        num_dimensions,
                                        dimension_lengths,
                                        sample_spacing,
                                        x_origins,
                                        unit_x_scale_factors,
                                        unit_y,
                                    },
                                    p6,
                                ),
                            ),
                        },
                    }
                }
            }
        }
    }
}

/// The metadata a vector record's two parts denote.
pub open spec fn spec_vector_info(h: VectorHeadV, m: VectorMetaV) -> VectorInfoV {
    VectorInfoV {
        name: h.name,
        num_samples: h.num_samples,
        num_dimensions: m.num_dimensions,
        dimension_lengths: m.dimension_lengths,
        sample_spacing: m.sample_spacing,
        x_origins: m.x_origins,
        unit_x_scale_factors: m.unit_x_scale_factors,
        unit_y: m.unit_y,
    }
}

/// Decodes one vector record. The stored payload is passed through for the
/// stored compression codes 0 and 256 and inflated for the zlib codes 1
/// and 257; whatever bytes the decompressor hands back, the typed payload
/// is exactly what [`spec_new_vector`] makes of them.
#[verifier::rlimit(80)]
#[verifier::loop_isolation(false)]
pub fn vector(
    header: &Header,
    bytes: &[u8],
    pos: &mut usize,
    limit: usize,
    dec: &mut Decompressor,
) -> (r: Result<Vector, FrameError>)
    requires
        *old(pos) <= limit,
        limit <= bytes@.len(),
    ensures
        *final(pos) <= limit,
        match r {
            Ok(v) => {
                &&& sdec_vector_head(bytes@, *old(pos) as int, limit as int, header.endian)
                    matches Ok(hp)
                &&& sdec_vector_meta(bytes@, hp.1, limit as int, header.endian) matches Ok(mp)
                &&& *final(pos) == mp.1
                &&& ({
                    let info = spec_vector_info(hp.0, mp.0);
                    if hp.0.compression == 0 || hp.0.compression == 256 {
                        v@ == spec_new_vector(hp.0.raw, hp.0.vector_class, header.endian, info)
                    } else {
                        &&& (hp.0.compression == 1 || hp.0.compression == 257)
                        &&& exists|data: Seq<u8>|
                            data.len() == spec_decompressed_size(
                                hp.0.vector_class,
                                hp.0.num_samples,
                            ) && v@ == spec_new_vector(
                                data,
                                hp.0.vector_class,
                                header.endian,
                                info,
                            )
                    }
                })
            },
            Err(er) => {
                ||| sdec_vector_head(bytes@, *old(pos) as int, limit as int, header.endian)
                    matches Err(e2) && e2 == er
                ||| (sdec_vector_head(bytes@, *old(pos) as int, limit as int, header.endian)
                    matches Ok(hp) && {
                    ||| (er == FrameError::UnsupportedCompression && !(hp.0.compression == 0
                        || hp.0.compression == 1 || hp.0.compression == 256 || hp.0.compression
                        == 257))
                    ||| (er == FrameError::DecompressionFailed && (hp.0.compression == 1
                        || hp.0.compression == 257))
                    ||| (sdec_vector_meta(bytes@, hp.1, limit as int, header.endian)
                        matches Err(e3) && e3 == er && (hp.0.compression == 0
                        || hp.0.compression == 1 || hp.0.compression == 256 || hp.0.compression
                        == 257))
                })
            },
        },
{
    proof {
        reveal(sdec_vector_head);
        reveal(sdec_vector_meta);
    }
    let e = header.endian;
    let mut p: usize = *pos;
    let name = match crate::strings::string(bytes, &mut p, limit, e) {
        Ok(v) => v,
        Err(er) => {
            return Err(er);
        },
    };
    let compression = match read_u16(bytes, &mut p, limit, e) {
        Ok(v) => v,
        Err(er) => {
            return Err(er);
        },
    };
    let vector_class = match read_u16(bytes, &mut p, limit, e) {
        Ok(v) => v,
        Err(er) => {
            return Err(er);
        },
    };
    let num_samples = match read_u64(bytes, &mut p, limit, e) {
        Ok(v) => v,
        Err(er) => {
            return Err(er);
        },
    };
    let len = match read_u64(bytes, &mut p, limit, e) {
        Ok(v) => v,
        Err(er) => {
            return Err(er);
        },
    };
    if len > (limit - p) as u64 {
        return Err(FrameError::ShortRead);
    }
    let raw_slice = vstd::slice::slice_subrange(bytes, p, p + len as usize);
    let raw_buf = vstd::slice::slice_to_vec(raw_slice);
    p = p + len as usize;
    let data_buf = if compression == 0 || compression == 256 {
        raw_buf
    } else {
        match dec.decompress(raw_buf.as_slice(), compression, vector_class, num_samples) {
            Ok(v) => v,
            Err(er) => {
                return Err(er);
            },
        }
    };
    let num_dimensions = match read_u32(bytes, &mut p, limit, e) {
        Ok(v) => v,
        Err(er) => {
            return Err(er);
        },
    };
    let dimension_lengths = match read_f64_block(bytes, &mut p, limit, e, num_dimensions) {
        Ok(v) => v,
        Err(er) => {
            return Err(er);
        },
    };
    let sample_spacing = match read_f64_block(bytes, &mut p, limit, e, num_dimensions) {
        Ok(v) => v,
        Err(er) => {
            return Err(er);
        },
    };
    let x_origins = match read_f64_block(bytes, &mut p, limit, e, num_dimensions) {
        Ok(v) => v,
        Err(er) => {
            return Err(er);
        },
    };
    let ghost pn = p as int;
    let unit_x_scale_factors = match read_names(bytes, &mut p, limit, e, num_dimensions) {
        Ok(v) => v,
        Err(er) => {
            return Err(er);
        },
    };
    proof {
        lemma_sdec_names_len(bytes@, pn, limit as int, e, num_dimensions as nat);
    }
    let unit_y = match crate::strings::string(bytes, &mut p, limit, e) {
        Ok(v) => v,
        Err(er) => {
            return Err(er);
        },
    };
    let info = VectorInfo {
        name,
        num_samples,
        num_dimensions,
        dimension_lengths,
        sample_spacing,
        x_origins,
        unit_x_scale_factors,
        unit_y,
    };
    let v = new_vector(data_buf, vector_class, e, info);
    *pos = p;
    Ok(v)
}

} // verus!




