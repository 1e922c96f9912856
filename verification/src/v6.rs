//! Version-6 record decoders: the records whose version-6 layout differs
//! from version 8. Single-precision fields that version 8 stores as
//! doubles are widened on read, exactly as the bit-level widening
//! conversion defines it.

use vstd::prelude::*;

use crate::endian::read_u16;
use crate::endian::read_u32;
use crate::endian::read_u64;
use crate::endian::spec_f32_bits_is_negative;
use crate::endian::spec_u16_at;
use crate::endian::spec_u32_at;
use crate::endian::spec_u64_at;
use crate::endian::spec_widen_f32_bits;
use crate::endian::f32_bits_is_negative;
use crate::endian::widen_f32_bits;
use crate::strings::spec_string_at;
use crate::structures::Endian;
use crate::structures::Event;
use crate::structures::EventV;
use crate::structures::FrameError;
use crate::structures::Header;
use crate::structures::Serial;
use crate::structures::SerialV;
use crate::structures::SimulatedEvent;
use crate::structures::SimulatedEventV;
use crate::structures::Simulation;
use crate::structures::SimulationV;
use crate::v8::lemma_sdec_names_len;
use crate::v8::read_names;
use crate::v8::sdec_names;
use crate::v8::spec_event_params;
use crate::v8::zip_params;

verus! {

/// The common record prefix in its version-6 layout: an 8-byte total
/// length and a 16-bit class tag narrowed to a byte; 14 bytes in all.
pub open spec fn sdec_common_v6(s: Seq<u8>, p: int, e: Endian) -> Result<(u64, u8, int), FrameError> {
    if p + 14 > s.len() {
        Err(FrameError::ShortRead)
    } else {
        Ok((spec_u64_at(s, p, e), (spec_u16_at(s, p + 8, e) % 256) as u8, p + 14))
    }
}

/// Reads the version-6 common prefix at the cursor.
pub fn common(header: &Header, bytes: &[u8], pos: &mut usize) -> (r: Result<
    crate::structures::Common,
    FrameError,
>)
    requires
        *old(pos) <= bytes@.len(),
    ensures
        *final(pos) <= bytes@.len(),
        match r {
            Ok(c) => sdec_common_v6(bytes@, *old(pos) as int, header.endian) == Ok::<
                (u64, u8, int),
                FrameError,
            >((c.length(), c.class_id(), *final(pos) as int)),
            Err(er) => sdec_common_v6(bytes@, *old(pos) as int, header.endian) == Err::<
                (u64, u8, int),
                FrameError,
            >(er) && *final(pos) == *old(pos),
        },
{
    let e = header.endian;
    let len = bytes.len();
    let mut p: usize = *pos;
    let length = match read_u64(bytes, &mut p, len, e) {
        Ok(v) => v,
        Err(er) => {
            return Err(er);
        },
    };
    if len - p < 6 {
        return Err(FrameError::ShortRead);
    }
    let class16 = match read_u16(bytes, &mut p, len, e) {
        Ok(v) => v,
        Err(er) => {
            return Err(er);
        },
    };
    let class = (class16 % 256) as u8;
    *pos = p + 4;
    Ok(crate::structures::Common::new(length, class))
}

/// The packed block of `n` singles at offset `p`, each widened to double
/// bits.
pub open spec fn spec_wide_f32_block(s: Seq<u8>, p: int, e: Endian, n: nat) -> Seq<u64> {
    Seq::new(n, |i: int| spec_widen_f32_bits(spec_u32_at(s, p + 4 * i, e)))
}

/// Reads `n` consecutive 4-byte values at the cursor, widening each.
#[verifier::loop_isolation(false)]
fn read_wide_f32_block(bytes: &[u8], pos: &mut usize, limit: usize, e: Endian, n: u16) -> (r:
    Result<Vec<u64>, FrameError>)
    requires
        *old(pos) <= limit,
        limit <= bytes@.len(),
    ensures
        *final(pos) <= limit,
        match r {
            Ok(v) => *old(pos) + 4 * (n as int) <= limit && *final(pos) == *old(pos) + 4 * (
            n as int) && v@ == spec_wide_f32_block(bytes@, *old(pos) as int, e, n as nat),
            Err(er) => er == FrameError::ShortRead && *old(pos) + 4 * (n as int) > limit
                && *final(pos) == *old(pos),
        },
{
    if (limit - *pos) / 4 < n as usize {
        return Err(FrameError::ShortRead);
    }
    let mut p: usize = *pos;
    let mut v: Vec<u64> = Vec::new();
    let mut i: u16 = 0;
    while i < n
        invariant
            i <= n,
            p == *pos + 4 * (i as int),
            *pos + 4 * (n as int) <= limit,
            v@.len() == i as nat,
            forall|j: int|
                0 <= j < i ==> v@[j] == spec_widen_f32_bits(
                    spec_u32_at(bytes@, *pos + 4 * j, e),
                ),
        decreases n - i,
    {
        let x = match read_u32(bytes, &mut p, limit, e) {
            Ok(x) => x,
            Err(er) => {
                proof {
                    assert(false);
                }
                return Err(er);
            },
        };
        v.push(widen_f32_bits(x));
        i = i + 1;
    }
    proof {
        assert(v@ =~= spec_wide_f32_block(bytes@, *pos as int, e, n as nat));
    }
    *pos = p;
    Ok(v)
}

/// Simulated-data record, version-6 layout: the sample rate is stored as a
/// single and widened.
#[verifier::opaque]
pub open spec fn sdec_simulated_v6(s: Seq<u8>, p: int, lim: int, e: Endian) -> Result<
    (SimulationV, int),
    FrameError,
> {
    match spec_string_at(s, p, lim, e) {
        Err(er) => Err(er),
        Ok((name, p1)) => match spec_string_at(s, p1, lim, e) {
            Err(er) => Err(er),
            Ok((comment, p2)) => {
                if p2 + 24 > lim {
                    Err(FrameError::ShortRead)
                } else {
                    let sample_rate = spec_widen_f32_bits(spec_u32_at(s, p2, e));
                    let time_offset_s = spec_u64_at(s, p2 + 4, e);
                    let f_shift = spec_u64_at(s, p2 + 12, e);
                    let phase = spec_u32_at(s, p2 + 20, e);
                    Ok(
                        (
                            SimulationV { name, comment, sample_rate, time_offset_s, f_shift, phase },
                            p2 + 24,
                        ),
                    )
                }
            },
        },
    }
}

/// Decodes one simulated-data record as [`sdec_simulated_v6`] lays it out.
pub fn simulated(header: &Header, bytes: &[u8], pos: &mut usize, limit: usize) -> (r: Result<
    Simulation,
    FrameError,
>)
    requires
        *old(pos) <= limit,
        limit <= bytes@.len(),
    ensures
        *final(pos) <= limit,
        match r {
            Ok(v) => sdec_simulated_v6(bytes@, *old(pos) as int, limit as int, header.endian)
                == Ok::<(SimulationV, int), FrameError>((v@, *final(pos) as int)),
            Err(er) => sdec_simulated_v6(bytes@, *old(pos) as int, limit as int, header.endian)
                == Err::<(SimulationV, int), FrameError>(er),
        },
{
    proof {
        reveal(sdec_simulated_v6);
    }
    let e = header.endian;
    let mut p: usize = *pos;
    let name = match crate::strings::string(bytes, &mut p, limit, e) {
        Ok(v) => v,
        Err(er) => {
            return Err(er);
        },
    };
    let comment = match crate::strings::string(bytes, &mut p, limit, e) {
        Ok(v) => v,
        Err(er) => {
            return Err(er);
        },
    };
    let rate_raw = match read_u32(bytes, &mut p, limit, e) {
        Ok(v) => v,
        Err(er) => {
            return Err(er);
        },
    };
    let sample_rate = widen_f32_bits(rate_raw);
    let time_offset_s = match read_u64(bytes, &mut p, limit, e) {
        Ok(v) => v,
        Err(er) => {
            return Err(er);
        },
    };
    let f_shift = match read_u64(bytes, &mut p, limit, e) {
        Ok(v) => v,
        Err(er) => {
            return Err(er);
        },
    };
    let phase = match read_u32(bytes, &mut p, limit, e) {
        Ok(v) => v,
        Err(er) => {
            return Err(er);
        },
    };
    let v = Simulation { name, comment, sample_rate, time_offset_s, f_shift, phase };
    *pos = p;
    Ok(v)
}

/// Serial-data record, version-6 layout: the sample rate is stored as a
/// single and widened.
#[verifier::opaque]
pub open spec fn sdec_serial_v6(s: Seq<u8>, p: int, lim: int, e: Endian) -> Result<
    (SerialV, int),
    FrameError,
> {
    match spec_string_at(s, p, lim, e) {
        Err(er) => Err(er),
        Ok((name, p1)) => {
            if p1 + 12 > lim {
                Err(FrameError::ShortRead)
            } else {
                let gps_time_s = spec_u32_at(s, p1, e);
                let gps_residual_time_ns = spec_u32_at(s, p1 + 4, e);
                let sample_rate = spec_widen_f32_bits(spec_u32_at(s, p1 + 8, e));
                match spec_string_at(s, p1 + 12, lim, e) {
                    Err(er) => Err(er),
                    Ok((data, p2)) => Ok(
                        (
                            SerialV { name, gps_time_s, gps_residual_time_ns, sample_rate, data },
                            p2,
                        ),
                    ),
                }
            }
        },
    }
}

/// Decodes one serial-data record as [`sdec_serial_v6`] lays it out.
pub fn serial(header: &Header, bytes: &[u8], pos: &mut usize, limit: usize) -> (r: Result<
    Serial,
    FrameError,
>)
    requires
        *old(pos) <= limit,
        limit <= bytes@.len(),
    ensures
        *final(pos) <= limit,
        match r {
            Ok(v) => sdec_serial_v6(bytes@, *old(pos) as int, limit as int, header.endian) == Ok::<
                (SerialV, int),
                FrameError,
            >((v@, *final(pos) as int)),
            Err(er) => sdec_serial_v6(bytes@, *old(pos) as int, limit as int, header.endian)
                == Err::<(SerialV, int), FrameError>(er),
        },
{
    proof {
        reveal(sdec_serial_v6);
    }
    let e = header.endian;
    let mut p: usize = *pos;
    let name = match crate::strings::string(bytes, &mut p, limit, e) {
        Ok(v) => v,
        Err(er) => {
            return Err(er);
        },
    };
    let gps_time_s = match read_u32(bytes, &mut p, limit, e) {
        Ok(v) => v,
        Err(er) => {
            return Err(er);
        },
    };
    let gps_residual_time_ns = match read_u32(bytes, &mut p, limit, e) {
        Ok(v) => v,
        Err(er) => {
            return Err(er);
        },
    };
    let rate_raw = match read_u32(bytes, &mut p, limit, e) {
        Ok(v) => v,
        Err(er) => {
            return Err(er);
        },
    };
    let sample_rate = widen_f32_bits(rate_raw);
    let data = match crate::strings::string(bytes, &mut p, limit, e) {
        Ok(v) => v,
        Err(er) => {
            return Err(er);
        },
    };
    let v = Serial { name, gps_time_s, gps_residual_time_ns, sample_rate, data };
    *pos = p;
    Ok(v)
}

/// Event record, version-6 layout: as version 8, except that the parameter
/// values are stored as singles and widened.
#[verifier::opaque]
pub open spec fn sdec_event_v6(s: Seq<u8>, p: int, lim: int, e: Endian) -> Result<
    (EventV, int),
    FrameError,
> {
    match spec_string_at(s, p, lim, e) {
        Err(er) => Err(er),
        Ok((name, p1)) => match spec_string_at(s, p1, lim, e) {
            Err(er) => Err(er),
            Ok((comment, p2)) => match spec_string_at(s, p2, lim, e) {
                Err(er) => Err(er),
                Ok((inputs, p3)) => {
                    if p3 + 28 > lim {
                        Err(FrameError::ShortRead)
                    } else {
                        let gps_time_s = spec_u32_at(s, p3, e);
                        let gps_residual_time_ns = spec_u32_at(s, p3 + 4, e);
                        let duration_before_s = spec_u32_at(s, p3 + 8, e);
                        let duration_after_s = spec_u32_at(s, p3 + 12, e);
                        let event_status = spec_u32_at(s, p3 + 16, e);
                        let amplitude = spec_u32_at(s, p3 + 20, e);
                        let probability = if spec_f32_bits_is_negative(spec_u32_at(s, p3 + 24, e)) {
                            None
                        } else {
                            Some(spec_u32_at(s, p3 + 24, e))
                        };
                        match spec_string_at(s, p3 + 28, lim, e) {
                            Err(er) => Err(er),
                            Ok((statistics, p4)) => {
                                if p4 + 2 > lim {
                                    Err(FrameError::ShortRead)
                                } else {
                                    let n = spec_u16_at(s, p4, e);
                                    let q0 = p4 + 2;
                                    if q0 + 4 * n > lim {
                                        Err(FrameError::ShortRead)
                                    } else {
                                        let values = spec_wide_f32_block(s, q0, e, n as nat);
                                        match sdec_names(s, q0 + 4 * n, lim, e, n as nat) {
                                            Err(er) => Err(er),
                                            Ok((names, pf)) => Ok(
                                                (
                                                    EventV {
                                                        name,
                                                        comment,
                                                        inputs,
                                                        gps_time_s,
                                                        gps_residual_time_ns,
                                                        duration_before_s,
                                                        duration_after_s,
                                                        event_status,
                                                        amplitude,
                                                        probability,
                                                        statistics,
                                                        parameters: spec_event_params(
                                                            values,
                                                            names,
                                                        ),
                                                    },
                                                    pf,
                                                ),
                                            ),
                                        }
                                    }
                                }
                            },
                        }
                    }
                },
            },
        },
    }
}

/// Decodes one event record as [`sdec_event_v6`] lays it out.
pub fn event(header: &Header, bytes: &[u8], pos: &mut usize, limit: usize) -> (r: Result<
    Event,
    FrameError,
>)
    requires
        *old(pos) <= limit,
        limit <= bytes@.len(),
    ensures
        *final(pos) <= limit,
        match r {
            Ok(v) => sdec_event_v6(bytes@, *old(pos) as int, limit as int, header.endian) == Ok::<
                (EventV, int),
                FrameError,
            >((v@, *final(pos) as int)),
            Err(er) => sdec_event_v6(bytes@, *old(pos) as int, limit as int, header.endian)
                == Err::<(EventV, int), FrameError>(er),
        },
{
    proof {
        reveal(sdec_event_v6);
    }
    let e = header.endian;
    let mut p: usize = *pos;
    let name = match crate::strings::string(bytes, &mut p, limit, e) {
        Ok(v) => v,
        Err(er) => {
            return Err(er);
        },
    };
    let comment = match crate::strings::string(bytes, &mut p, limit, e) {
        Ok(v) => v,
        Err(er) => {
            return Err(er);
        },
    };
    let inputs = match crate::strings::string(bytes, &mut p, limit, e) {
        Ok(v) => v,
        Err(er) => {
            return Err(er);
        },
    };
    let gps_time_s = match read_u32(bytes, &mut p, limit, e) {
        Ok(v) => v,
        Err(er) => {
            return Err(er);
        },
    };
    let gps_residual_time_ns = match read_u32(bytes, &mut p, limit, e) {
        Ok(v) => v,
        Err(er) => {
            return Err(er);
        },
    };
    let duration_before_s = match read_u32(bytes, &mut p, limit, e) {
        Ok(v) => v,
        Err(er) => {
            return Err(er);
        },
    };
    let duration_after_s = match read_u32(bytes, &mut p, limit, e) {
        Ok(v) => v,
        Err(er) => {
            return Err(er);
        },
    };
    let event_status = match read_u32(bytes, &mut p, limit, e) {
        Ok(v) => v,
        Err(er) => {
            return Err(er);
        },
    };
    let amplitude = match read_u32(bytes, &mut p, limit, e) {
        Ok(v) => v,
        Err(er) => {
            return Err(er);
        },
    };
    let prob_raw = match read_u32(bytes, &mut p, limit, e) {
        Ok(v) => v,
        Err(er) => {
            return Err(er);
        },
    };
    let probability = if f32_bits_is_negative(prob_raw) {
        None
    } else {
        Some(prob_raw)
    };
    let statistics = match crate::strings::string(bytes, &mut p, limit, e) {
        Ok(v) => v,
        Err(er) => {
            return Err(er);
        },
    };
    let n = match read_u16(bytes, &mut p, limit, e) {
        Ok(v) => v,
        Err(er) => {
            return Err(er);
        },
    };
    let values = match read_wide_f32_block(bytes, &mut p, limit, e, n) {
        Ok(v) => v,
        Err(er) => {
            return Err(er);
        },
    };
    let ghost pn = p as int;
    let names = match read_names(bytes, &mut p, limit, e, n as u32) {
        Ok(v) => v,
        Err(er) => {
            return Err(er);
        },
    };
    proof {
        lemma_sdec_names_len(bytes@, pn, limit as int, e, n as nat);
    }
    let parameters = zip_params(values, &names);
    let v = Event {
        name,
        comment,
        inputs,
        gps_time_s,
        gps_residual_time_ns,
        duration_before_s,
        duration_after_s,
        event_status,
        amplitude,
        probability,
        statistics,
        parameters,
    };
    *pos = p;
    Ok(v)
}

/// Simulated-event record, version-6 layout: as version 8, except that the
/// parameter values are stored as singles and widened.
#[verifier::opaque]
pub open spec fn sdec_simulated_event_v6(s: Seq<u8>, p: int, lim: int, e: Endian) -> Result<
    (SimulatedEventV, int),
    FrameError,
> {
    match spec_string_at(s, p, lim, e) {
        Err(er) => Err(er),
        Ok((name, p1)) => match spec_string_at(s, p1, lim, e) {
            Err(er) => Err(er),
            Ok((comment, p2)) => match spec_string_at(s, p2, lim, e) {
                Err(er) => Err(er),
                Ok((inputs, p3)) => {
                    if p3 + 20 > lim {
                        Err(FrameError::ShortRead)
                    } else {
                        let gps_event_max_time_s = spec_u32_at(s, p3, e);
                        let gps_residual_time_ns = spec_u32_at(s, p3 + 4, e);
                        let duration_before_s = spec_u32_at(s, p3 + 8, e);
                        let duration_after_s = spec_u32_at(s, p3 + 12, e);
                        let amplitude = spec_u32_at(s, p3 + 16, e);
                        if p3 + 22 > lim {
                            Err(FrameError::ShortRead)
                        } else {
                            let n = spec_u16_at(s, p3 + 20, e);
                            let q0 = p3 + 22;
                            if q0 + 4 * n > lim {
                                Err(FrameError::ShortRead)
                            } else {
                                let values = spec_wide_f32_block(s, q0, e, n as nat);
                                match sdec_names(s, q0 + 4 * n, lim, e, n as nat) {
                                    Err(er) => Err(er),
                                    Ok((names, pf)) => Ok(
                                        (
                                            SimulatedEventV {
                                                name,
                                                comment,
                                                inputs,
                                                gps_event_max_time_s,
                                                gps_residual_time_ns,
                                                duration_before_s,
                                                duration_after_s,
                                                amplitude,
                                                parameters: spec_event_params(values, names),
                                            },
                                            pf,
                                        ),
                                    ),
                                }
                            }
                        }
                    }
                },
            },
        },
    }
}

/// Decodes one simulated-event record as [`sdec_simulated_event_v6`] lays
/// it out.
pub fn simulated_event(header: &Header, bytes: &[u8], pos: &mut usize, limit: usize) -> (r: Result<
    SimulatedEvent,
    FrameError,
>)
    requires
        *old(pos) <= limit,
        limit <= bytes@.len(),
    ensures
        *final(pos) <= limit,
        match r {
            Ok(v) => sdec_simulated_event_v6(bytes@, *old(pos) as int, limit as int, header.endian)
                == Ok::<(SimulatedEventV, int), FrameError>((v@, *final(pos) as int)),
            Err(er) => sdec_simulated_event_v6(
                bytes@,
                *old(pos) as int,
                limit as int,
                header.endian,
            ) == Err::<(SimulatedEventV, int), FrameError>(er),
        },
{
    proof {
        reveal(sdec_simulated_event_v6);
    }
    let e = header.endian;
    let mut p: usize = *pos;
    let name = match crate::strings::string(bytes, &mut p, limit, e) {
        Ok(v) => v,
        Err(er) => {
            return Err(er);
        },
    };
    let comment = match crate::strings::string(bytes, &mut p, limit, e) {
        Ok(v) => v,
        Err(er) => {
            return Err(er);
        },
    };
    let inputs = match crate::strings::string(bytes, &mut p, limit, e) {
        Ok(v) => v,
        Err(er) => {
            return Err(er);
        },
    };
    let gps_event_max_time_s = match read_u32(bytes, &mut p, limit, e) {
        Ok(v) => v,
        Err(er) => {
            return Err(er);
        },
    };
    let gps_residual_time_ns = match read_u32(bytes, &mut p, limit, e) {
        Ok(v) => v,
        Err(er) => {
            return Err(er);
        },
    };
    let duration_before_s = match read_u32(bytes, &mut p, limit, e) {
        Ok(v) => v,
        Err(er) => {
            return Err(er);
        },
    };
    let duration_after_s = match read_u32(bytes, &mut p, limit, e) {
        Ok(v) => v,
        Err(er) => {
            return Err(er);
        },
    };
    let amplitude = match read_u32(bytes, &mut p, limit, e) {
        Ok(v) => v,
        Err(er) => {
            return Err(er);
        },
    };
    let n = match read_u16(bytes, &mut p, limit, e) {
        Ok(v) => v,
        Err(er) => {
            return Err(er);
        },
    };
    let values = match read_wide_f32_block(bytes, &mut p, limit, e, n) {
        Ok(v) => v,
        Err(er) => {
            return Err(er);
        },
    };
    let ghost pn = p as int;
    let names = match read_names(bytes, &mut p, limit, e, n as u32) {
        Ok(v) => v,
        Err(er) => {
            return Err(er);
        },
    };
    proof {
        lemma_sdec_names_len(bytes@, pn, limit as int, e, n as nat);
    }
    let parameters = zip_params(values, &names);
    let v = SimulatedEvent {
        name,
        comment,
        inputs,
        gps_event_max_time_s,
        gps_residual_time_ns,
        duration_before_s,
        duration_after_s,
        amplitude,
        parameters,
    };
    *pos = p;
    Ok(v)
}

} // verus!
