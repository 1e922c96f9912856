//! Reference encoders, at the specification level, and the proofs that
//! decoding what they produce gives the record back field-for-field. The
//! numeric vector payloads have their own bit-for-bit round trips in the
//! endian module.

use vstd::prelude::*;
use vstd::utf8::encode_utf8;

use crate::endian::lemma_u16_round_trip;
use crate::endian::lemma_u32_round_trip;
use crate::endian::lemma_u64_round_trip;
use crate::endian::spec_i32_of_bits;
use crate::endian::spec_u16_bytes;
use crate::endian::spec_u32_bytes;
use crate::endian::spec_u64_bytes;
use crate::strings::lemma_first_nul;
use crate::strings::spec_first_nul;
use crate::strings::spec_string_at;
use crate::structures::Endian;
use crate::structures::FrameError;
use crate::structures::ADCV;
use crate::structures::DetectorV;
use crate::structures::EventParameterV;
use crate::structures::AuxiliaryParameterV;
use crate::structures::EventV;
use crate::structures::FrameHeaderV;
use crate::structures::HistoryV;
use crate::structures::MessageV;
use crate::structures::PostProcessedV;
use crate::structures::RawDataV;
use crate::structures::SerialV;
use crate::structures::SimulatedEventV;
use crate::structures::SimulationV;
use crate::structures::StaticDataV;
use crate::structures::SummaryV;
use crate::structures::TableV;
use crate::v8::sdec_frame_header;
use crate::v8::sdec_adc;
use crate::v8::sdec_detector;
use crate::v8::sdec_event;
use crate::v8::sdec_post_processed;
use crate::v8::sdec_simulated_event;
use crate::v8::sdec_history;
use crate::v8::sdec_message;
use crate::v8::sdec_raw;
use crate::v8::sdec_serial;
use crate::v8::sdec_simulated;
use crate::v8::sdec_static_data;
use crate::v8::sdec_summary;
use crate::v8::sdec_table;
use crate::v8::sdec_names;

verus! {

/// Whether a text can be stored as one of the format's strings: its UTF-8
/// encoding leaves room for the NUL terminator under the 16-bit length,
/// and holds no NUL of its own.
pub open spec fn spec_encodable_text(t: Seq<char>) -> bool {
    let b = encode_utf8(t);
    &&& b.len() + 1 <= 0xFFFF
    &&& forall|i: int| 0 <= i < b.len() ==> b[i] != 0
}

/// The stored form of a text: a 16-bit length in file byte order, the
/// UTF-8 bytes, and a NUL.
pub open spec fn spec_string_bytes(t: Seq<char>, e: Endian) -> Seq<u8> {
    let b = encode_utf8(t);
    spec_u16_bytes((b.len() + 1) as u16, e) + b + seq![0u8]
}

/// The unsigned bits that store a signed 32-bit value.
pub open spec fn spec_u32_bits_of_i32(i: i32) -> u32 {
    if i >= 0 {
        i as u32
    } else {
        (i + 0x1_0000_0000) as u32
    }
}

/// Storing a signed value and rereading its bits is the identity.
pub proof fn lemma_i32_bits_round_trip(i: i32)
    ensures
        spec_i32_of_bits(spec_u32_bits_of_i32(i)) == i,
{
}

/// Decoding an encoded text out of any buffer that holds it gives the
/// text back and stops exactly past its stored bytes.
pub proof fn lemma_string_round_trip(s: Seq<u8>, p: int, lim: int, t: Seq<char>, e: Endian)
    requires
        spec_encodable_text(t),
        0 <= p,
        p + spec_string_bytes(t, e).len() <= lim <= s.len(),
        s.subrange(p, p + spec_string_bytes(t, e).len()) == spec_string_bytes(t, e),
    ensures
        spec_string_at(s, p, lim, e) == Ok::<(Seq<char>, int), FrameError>(
            (t, p + spec_string_bytes(t, e).len()),
        ),
{
    let b = encode_utf8(t);
    let n = b.len() as int;
    let k = spec_string_bytes(t, e).len() as int;
    lemma_u16_round_trip(Seq::empty(), (n + 1) as u16, e);
    assert(k == n + 3);
    assert(s.subrange(p, p + 2) =~= spec_u16_bytes((n + 1) as u16, e)) by {
        assert forall|i: int| 0 <= i < 2 implies #[trigger] s.subrange(p, p + 2)[i]
            == spec_u16_bytes((n + 1) as u16, e)[i] by {
            assert(s.subrange(p, p + k)[i] == spec_string_bytes(t, e)[i]);
        }
    }
    assert(crate::endian::spec_u16_at(s, p, e) == (n + 1) as u16);
    let content = s.subrange(p + 2, p + 2 + (n + 1));
    assert(content =~= b + seq![0u8]) by {
        assert forall|i: int| 0 <= i < n + 1 implies #[trigger] content[i] == (b
            + seq![0u8])[i] by {
            assert(s.subrange(p, p + k)[i + 2] == spec_string_bytes(t, e)[i + 2]);
        }
    }
    lemma_first_nul(content);
    let fnul = spec_first_nul(content);
    assert(content[n] == 0);
    assert(forall|j: int| 0 <= j < n ==> content[j] == b[j] && content[j] != 0);
    assert(fnul == n);
    assert(content.take(n) =~= b);
    vstd::utf8::encode_utf8_valid_utf8(t);
    vstd::utf8::encode_utf8_decode_utf8(t);
}

/// The stored form of a history record.
pub open spec fn spec_history_bytes(v: HistoryV, e: Endian) -> Seq<u8> {
    spec_string_bytes(v.name, e) + spec_u32_bytes(v.gps_time_s, e) + spec_string_bytes(
        v.comment,
        e,
    )
}

/// Decoding an encoded history record gives the record back
/// field-for-field, consuming exactly its bytes.
pub proof fn lemma_history_round_trip(v: HistoryV, e: Endian)
    requires
        spec_encodable_text(v.name),
        spec_encodable_text(v.comment),
    ensures
        ({
            let s = spec_history_bytes(v, e);
            sdec_history(s, 0, s.len() as int, e) == Ok::<(HistoryV, int), FrameError>(
                (v, s.len() as int),
            )
        }),
{
    reveal(sdec_history);
    let s = spec_history_bytes(v, e);
    let k1 = spec_string_bytes(v.name, e).len() as int;
    let k2 = spec_string_bytes(v.comment, e).len() as int;
    lemma_u32_round_trip(Seq::empty(), v.gps_time_s, e);
    let lim = s.len() as int;
    assert(s.subrange(0, k1) =~= spec_string_bytes(v.name, e));
    lemma_string_round_trip(s, 0, lim, v.name, e);
    assert(s.subrange(k1, k1 + 4) =~= spec_u32_bytes(v.gps_time_s, e));
    lemma_u32_round_trip(s.subrange(k1, k1 + 4), v.gps_time_s, e);
    assert(crate::endian::spec_u32_at(s, k1, e) == v.gps_time_s);
    assert(s.subrange(k1 + 4, k1 + 4 + k2) =~= spec_string_bytes(v.comment, e));
    lemma_string_round_trip(s, k1 + 4, lim, v.comment, e);
    assert(sdec_history(s, 0, lim, e) == Ok::<(HistoryV, int), FrameError>((
        HistoryV { name: v.name, gps_time_s: v.gps_time_s, comment: v.comment },
        lim,
    )));
}

/// The stored form of a frame-header record.
pub open spec fn spec_frame_header_bytes(v: FrameHeaderV, e: Endian) -> Seq<u8> {
    spec_string_bytes(v.name, e) + spec_u32_bytes(spec_u32_bits_of_i32(v.run), e)
        + spec_u32_bytes(v.frame, e) + spec_u32_bytes(v.data_quality, e) + spec_u32_bytes(
        v.gps_start_time_s,
        e,
    ) + spec_u32_bytes(v.gps_residual_time_ns, e) + spec_u16_bytes(v.gps_leap_s, e)
        + spec_u64_bytes(v.frame_length_s, e)
}

/// Decoding an encoded frame-header record gives the record back
/// field-for-field, consuming exactly its bytes.
pub proof fn lemma_frame_header_round_trip(v: FrameHeaderV, e: Endian)
    requires
        spec_encodable_text(v.name),
    ensures
        ({
            let s = spec_frame_header_bytes(v, e);
            sdec_frame_header(s, 0, s.len() as int, e) == Ok::<(FrameHeaderV, int), FrameError>(
                (v, s.len() as int),
            )
        }),
{
    reveal(sdec_frame_header);
    let s = spec_frame_header_bytes(v, e);
    let k1 = spec_string_bytes(v.name, e).len() as int;
    lemma_u32_round_trip(Seq::empty(), spec_u32_bits_of_i32(v.run), e);
    lemma_u32_round_trip(Seq::empty(), v.frame, e);
    lemma_u32_round_trip(Seq::empty(), v.data_quality, e);
    lemma_u32_round_trip(Seq::empty(), v.gps_start_time_s, e);
    lemma_u32_round_trip(Seq::empty(), v.gps_residual_time_ns, e);
    lemma_u16_round_trip(Seq::empty(), v.gps_leap_s, e);
    lemma_u64_round_trip(Seq::empty(), v.frame_length_s, e);
    let lim = s.len() as int;
    assert(lim == k1 + 30);
    assert(s.subrange(0, k1) =~= spec_string_bytes(v.name, e));
    lemma_string_round_trip(s, 0, lim, v.name, e);
    assert(s.subrange(k1, k1 + 4) =~= spec_u32_bytes(spec_u32_bits_of_i32(v.run), e));
    lemma_u32_round_trip(s.subrange(k1, k1 + 4), spec_u32_bits_of_i32(v.run), e);
    lemma_i32_bits_round_trip(v.run);
    assert(s.subrange(k1 + 4, k1 + 8) =~= spec_u32_bytes(v.frame, e));
    lemma_u32_round_trip(s.subrange(k1 + 4, k1 + 8), v.frame, e);
    assert(s.subrange(k1 + 8, k1 + 12) =~= spec_u32_bytes(v.data_quality, e));
    lemma_u32_round_trip(s.subrange(k1 + 8, k1 + 12), v.data_quality, e);
    assert(s.subrange(k1 + 12, k1 + 16) =~= spec_u32_bytes(v.gps_start_time_s, e));
    lemma_u32_round_trip(s.subrange(k1 + 12, k1 + 16), v.gps_start_time_s, e);
    assert(s.subrange(k1 + 16, k1 + 20) =~= spec_u32_bytes(v.gps_residual_time_ns, e));
    lemma_u32_round_trip(s.subrange(k1 + 16, k1 + 20), v.gps_residual_time_ns, e);
    assert(s.subrange(k1 + 20, k1 + 22) =~= spec_u16_bytes(v.gps_leap_s, e));
    lemma_u16_round_trip(s.subrange(k1 + 20, k1 + 22), v.gps_leap_s, e);
    assert(s.subrange(k1 + 22, k1 + 30) =~= spec_u64_bytes(v.frame_length_s, e));
    lemma_u64_round_trip(s.subrange(k1 + 22, k1 + 30), v.frame_length_s, e);
}

/// The stored form of a message record.
pub open spec fn spec_message_bytes(v: MessageV, e: Endian) -> Seq<u8> {
    spec_string_bytes(v.alarm, e) + spec_string_bytes(v.message, e) + spec_u32_bytes(v.severity, e) + spec_u32_bytes(v.gps_time_s, e) + spec_u32_bytes(v.gps_residual_time_ns, e)
}

/// Decoding an encoded message record gives the record back
/// field-for-field, consuming exactly its bytes.
pub proof fn lemma_message_round_trip(v: MessageV, e: Endian)
    requires
        spec_encodable_text(v.alarm),
        spec_encodable_text(v.message),
    ensures
        ({
            let s = spec_message_bytes(v, e);
            sdec_message(s, 0, s.len() as int, e) == Ok::<(MessageV, int), FrameError>(
                (v, s.len() as int),
            )
        }),
{
    reveal(sdec_message);
    let s = spec_message_bytes(v, e);
    lemma_u32_round_trip(Seq::empty(), v.severity, e);
    lemma_u32_round_trip(Seq::empty(), v.gps_time_s, e);
    lemma_u32_round_trip(Seq::empty(), v.gps_residual_time_ns, e);
    let lim = s.len() as int;
    let k1 = spec_string_bytes(v.alarm, e).len() as int;
    assert(s.subrange(0, 0 + k1) =~= spec_string_bytes(v.alarm, e));
    lemma_string_round_trip(s, 0, lim, v.alarm, e);
    let k2 = spec_string_bytes(v.message, e).len() as int;
    assert(s.subrange(k1, k1 + k2) =~= spec_string_bytes(v.message, e));
    lemma_string_round_trip(s, k1, lim, v.message, e);
    assert(s.subrange(k1 + k2, k1 + k2 + 4) =~= spec_u32_bytes(v.severity, e));
    lemma_u32_round_trip(s.subrange(k1 + k2, k1 + k2 + 4), v.severity, e);
    assert(crate::endian::spec_u32_at(s, k1 + k2, e) == v.severity);
    assert(s.subrange(k1 + k2 + 4, k1 + k2 + 4 + 4) =~= spec_u32_bytes(v.gps_time_s, e));
    lemma_u32_round_trip(s.subrange(k1 + k2 + 4, k1 + k2 + 4 + 4), v.gps_time_s, e);
    assert(crate::endian::spec_u32_at(s, k1 + k2 + 4, e) == v.gps_time_s);
    assert(s.subrange(k1 + k2 + 4 + 4, k1 + k2 + 4 + 4 + 4) =~= spec_u32_bytes(v.gps_residual_time_ns, e));
    lemma_u32_round_trip(s.subrange(k1 + k2 + 4 + 4, k1 + k2 + 4 + 4 + 4), v.gps_residual_time_ns, e);
    assert(crate::endian::spec_u32_at(s, k1 + k2 + 4 + 4, e) == v.gps_residual_time_ns);
}

/// The stored form of a summary record.
pub open spec fn spec_summary_bytes(v: SummaryV, e: Endian) -> Seq<u8> {
    spec_string_bytes(v.name, e) + spec_string_bytes(v.comment, e) + spec_string_bytes(v.test, e) + spec_u32_bytes(v.gps_time_s, e) + spec_u32_bytes(v.gps_residual_time_ns, e)
}

/// Decoding an encoded summary record gives the record back
/// field-for-field, consuming exactly its bytes.
pub proof fn lemma_summary_round_trip(v: SummaryV, e: Endian)
    requires
        spec_encodable_text(v.name),
        spec_encodable_text(v.comment),
        spec_encodable_text(v.test),
    ensures
        ({
            let s = spec_summary_bytes(v, e);
            sdec_summary(s, 0, s.len() as int, e) == Ok::<(SummaryV, int), FrameError>(
                (v, s.len() as int),
            )
        }),
{
    reveal(sdec_summary);
    let s = spec_summary_bytes(v, e);
    lemma_u32_round_trip(Seq::empty(), v.gps_time_s, e);
    lemma_u32_round_trip(Seq::empty(), v.gps_residual_time_ns, e);
    let lim = s.len() as int;
    let k1 = spec_string_bytes(v.name, e).len() as int;
    assert(s.subrange(0, 0 + k1) =~= spec_string_bytes(v.name, e));
    lemma_string_round_trip(s, 0, lim, v.name, e);
    let k2 = spec_string_bytes(v.comment, e).len() as int;
    assert(s.subrange(k1, k1 + k2) =~= spec_string_bytes(v.comment, e));
    lemma_string_round_trip(s, k1, lim, v.comment, e);
    let k3 = spec_string_bytes(v.test, e).len() as int;
    assert(s.subrange(k1 + k2, k1 + k2 + k3) =~= spec_string_bytes(v.test, e));
    lemma_string_round_trip(s, k1 + k2, lim, v.test, e);
    assert(s.subrange(k1 + k2 + k3, k1 + k2 + k3 + 4) =~= spec_u32_bytes(v.gps_time_s, e));
    lemma_u32_round_trip(s.subrange(k1 + k2 + k3, k1 + k2 + k3 + 4), v.gps_time_s, e);
    assert(crate::endian::spec_u32_at(s, k1 + k2 + k3, e) == v.gps_time_s);
    assert(s.subrange(k1 + k2 + k3 + 4, k1 + k2 + k3 + 4 + 4) =~= spec_u32_bytes(v.gps_residual_time_ns, e));
    lemma_u32_round_trip(s.subrange(k1 + k2 + k3 + 4, k1 + k2 + k3 + 4 + 4), v.gps_residual_time_ns, e);
    assert(crate::endian::spec_u32_at(s, k1 + k2 + k3 + 4, e) == v.gps_residual_time_ns);
}

/// The stored form of a static-data record.
pub open spec fn spec_static_data_bytes(v: StaticDataV, e: Endian) -> Seq<u8> {
    spec_string_bytes(v.name, e) + spec_string_bytes(v.comment, e) + spec_string_bytes(v.representation, e) + spec_u32_bytes(v.gps_time_start_s, e) + spec_u32_bytes(v.gps_time_end_s, e) + spec_u32_bytes(v.version, e)
}

/// Decoding an encoded static-data record gives the record back
/// field-for-field, consuming exactly its bytes.
pub proof fn lemma_static_data_round_trip(v: StaticDataV, e: Endian)
    requires
        spec_encodable_text(v.name),
        spec_encodable_text(v.comment),
        spec_encodable_text(v.representation),
    ensures
        ({
            let s = spec_static_data_bytes(v, e);
            sdec_static_data(s, 0, s.len() as int, e) == Ok::<(StaticDataV, int), FrameError>(
                (v, s.len() as int),
            )
        }),
{
    reveal(sdec_static_data);
    let s = spec_static_data_bytes(v, e);
    lemma_u32_round_trip(Seq::empty(), v.gps_time_start_s, e);
    lemma_u32_round_trip(Seq::empty(), v.gps_time_end_s, e);
    lemma_u32_round_trip(Seq::empty(), v.version, e);
    let lim = s.len() as int;
    let k1 = spec_string_bytes(v.name, e).len() as int;
    assert(s.subrange(0, 0 + k1) =~= spec_string_bytes(v.name, e));
    lemma_string_round_trip(s, 0, lim, v.name, e);
    let k2 = spec_string_bytes(v.comment, e).len() as int;
    assert(s.subrange(k1, k1 + k2) =~= spec_string_bytes(v.comment, e));
    lemma_string_round_trip(s, k1, lim, v.comment, e);
    let k3 = spec_string_bytes(v.representation, e).len() as int;
    assert(s.subrange(k1 + k2, k1 + k2 + k3) =~= spec_string_bytes(v.representation, e));
    lemma_string_round_trip(s, k1 + k2, lim, v.representation, e);
    assert(s.subrange(k1 + k2 + k3, k1 + k2 + k3 + 4) =~= spec_u32_bytes(v.gps_time_start_s, e));
    lemma_u32_round_trip(s.subrange(k1 + k2 + k3, k1 + k2 + k3 + 4), v.gps_time_start_s, e);
    assert(crate::endian::spec_u32_at(s, k1 + k2 + k3, e) == v.gps_time_start_s);
    assert(s.subrange(k1 + k2 + k3 + 4, k1 + k2 + k3 + 4 + 4) =~= spec_u32_bytes(v.gps_time_end_s, e));
    lemma_u32_round_trip(s.subrange(k1 + k2 + k3 + 4, k1 + k2 + k3 + 4 + 4), v.gps_time_end_s, e);
    assert(crate::endian::spec_u32_at(s, k1 + k2 + k3 + 4, e) == v.gps_time_end_s);
    assert(s.subrange(k1 + k2 + k3 + 4 + 4, k1 + k2 + k3 + 4 + 4 + 4) =~= spec_u32_bytes(v.version, e));
    lemma_u32_round_trip(s.subrange(k1 + k2 + k3 + 4 + 4, k1 + k2 + k3 + 4 + 4 + 4), v.version, e);
    assert(crate::endian::spec_u32_at(s, k1 + k2 + k3 + 4 + 4, e) == v.version);
}

/// The stored form of a raw-data record.
pub open spec fn spec_raw_data_bytes(v: RawDataV, e: Endian) -> Seq<u8> {
    spec_string_bytes(v.name, e)
}

/// Decoding an encoded raw-data record gives the record back
/// field-for-field, consuming exactly its bytes.
pub proof fn lemma_raw_data_round_trip(v: RawDataV, e: Endian)
    requires
        spec_encodable_text(v.name),
    ensures
        ({
            let s = spec_raw_data_bytes(v, e);
            sdec_raw(s, 0, s.len() as int, e) == Ok::<(RawDataV, int), FrameError>(
                (v, s.len() as int),
            )
        }),
{
    reveal(sdec_raw);
    let s = spec_raw_data_bytes(v, e);
    let lim = s.len() as int;
    let k1 = spec_string_bytes(v.name, e).len() as int;
    assert(s.subrange(0, 0 + k1) =~= spec_string_bytes(v.name, e));
    lemma_string_round_trip(s, 0, lim, v.name, e);
}

/// The stored form of a serial-data record, version-8 layout.
pub open spec fn spec_serial_bytes(v: SerialV, e: Endian) -> Seq<u8> {
    spec_string_bytes(v.name, e) + spec_u32_bytes(v.gps_time_s, e) + spec_u32_bytes(v.gps_residual_time_ns, e) + spec_u64_bytes(v.sample_rate, e) + spec_string_bytes(v.data, e)
}

/// Decoding an encoded serial-data record, version-8 layout gives the record back
/// field-for-field, consuming exactly its bytes.
pub proof fn lemma_serial_round_trip(v: SerialV, e: Endian)
    requires
        spec_encodable_text(v.name),
        spec_encodable_text(v.data),
    ensures
        ({
            let s = spec_serial_bytes(v, e);
            sdec_serial(s, 0, s.len() as int, e) == Ok::<(SerialV, int), FrameError>(
                (v, s.len() as int),
            )
        }),
{
    reveal(sdec_serial);
    let s = spec_serial_bytes(v, e);
    lemma_u32_round_trip(Seq::empty(), v.gps_time_s, e);
    lemma_u32_round_trip(Seq::empty(), v.gps_residual_time_ns, e);
    lemma_u64_round_trip(Seq::empty(), v.sample_rate, e);
    let lim = s.len() as int;
    let k1 = spec_string_bytes(v.name, e).len() as int;
    assert(s.subrange(0, 0 + k1) =~= spec_string_bytes(v.name, e));
    lemma_string_round_trip(s, 0, lim, v.name, e);
    assert(s.subrange(k1, k1 + 4) =~= spec_u32_bytes(v.gps_time_s, e));
    lemma_u32_round_trip(s.subrange(k1, k1 + 4), v.gps_time_s, e);
    assert(crate::endian::spec_u32_at(s, k1, e) == v.gps_time_s);
    assert(s.subrange(k1 + 4, k1 + 4 + 4) =~= spec_u32_bytes(v.gps_residual_time_ns, e));
    lemma_u32_round_trip(s.subrange(k1 + 4, k1 + 4 + 4), v.gps_residual_time_ns, e);
    assert(crate::endian::spec_u32_at(s, k1 + 4, e) == v.gps_residual_time_ns);
    assert(s.subrange(k1 + 4 + 4, k1 + 4 + 4 + 8) =~= spec_u64_bytes(v.sample_rate, e));
    lemma_u64_round_trip(s.subrange(k1 + 4 + 4, k1 + 4 + 4 + 8), v.sample_rate, e);
    assert(crate::endian::spec_u64_at(s, k1 + 4 + 4, e) == v.sample_rate);
    let k2 = spec_string_bytes(v.data, e).len() as int;
    assert(s.subrange(k1 + 4 + 4 + 8, k1 + 4 + 4 + 8 + k2) =~= spec_string_bytes(v.data, e));
    lemma_string_round_trip(s, k1 + 4 + 4 + 8, lim, v.data, e);
}

/// The stored form of a simulated-data record, version-8 layout.
pub open spec fn spec_simulation_bytes(v: SimulationV, e: Endian) -> Seq<u8> {
    spec_string_bytes(v.name, e) + spec_string_bytes(v.comment, e) + spec_u64_bytes(v.sample_rate, e) + spec_u64_bytes(v.time_offset_s, e) + spec_u64_bytes(v.f_shift, e) + spec_u32_bytes(v.phase, e)
}

/// Decoding an encoded simulated-data record, version-8 layout gives the record back
/// field-for-field, consuming exactly its bytes.
pub proof fn lemma_simulation_round_trip(v: SimulationV, e: Endian)
    requires
        spec_encodable_text(v.name),
        spec_encodable_text(v.comment),
    ensures
        ({
            let s = spec_simulation_bytes(v, e);
            sdec_simulated(s, 0, s.len() as int, e) == Ok::<(SimulationV, int), FrameError>(
                (v, s.len() as int),
            )
        }),
{
    reveal(sdec_simulated);
    let s = spec_simulation_bytes(v, e);
    lemma_u64_round_trip(Seq::empty(), v.sample_rate, e);
    lemma_u64_round_trip(Seq::empty(), v.time_offset_s, e);
    lemma_u64_round_trip(Seq::empty(), v.f_shift, e);
    lemma_u32_round_trip(Seq::empty(), v.phase, e);
    let lim = s.len() as int;
    let k1 = spec_string_bytes(v.name, e).len() as int;
    assert(s.subrange(0, 0 + k1) =~= spec_string_bytes(v.name, e));
    lemma_string_round_trip(s, 0, lim, v.name, e);
    let k2 = spec_string_bytes(v.comment, e).len() as int;
    assert(s.subrange(k1, k1 + k2) =~= spec_string_bytes(v.comment, e));
    lemma_string_round_trip(s, k1, lim, v.comment, e);
    assert(s.subrange(k1 + k2, k1 + k2 + 8) =~= spec_u64_bytes(v.sample_rate, e));
    lemma_u64_round_trip(s.subrange(k1 + k2, k1 + k2 + 8), v.sample_rate, e);
    assert(crate::endian::spec_u64_at(s, k1 + k2, e) == v.sample_rate);
    assert(s.subrange(k1 + k2 + 8, k1 + k2 + 8 + 8) =~= spec_u64_bytes(v.time_offset_s, e));
    lemma_u64_round_trip(s.subrange(k1 + k2 + 8, k1 + k2 + 8 + 8), v.time_offset_s, e);
    assert(crate::endian::spec_u64_at(s, k1 + k2 + 8, e) == v.time_offset_s);
    assert(s.subrange(k1 + k2 + 8 + 8, k1 + k2 + 8 + 8 + 8) =~= spec_u64_bytes(v.f_shift, e));
    lemma_u64_round_trip(s.subrange(k1 + k2 + 8 + 8, k1 + k2 + 8 + 8 + 8), v.f_shift, e);
    assert(crate::endian::spec_u64_at(s, k1 + k2 + 8 + 8, e) == v.f_shift);
    assert(s.subrange(k1 + k2 + 8 + 8 + 8, k1 + k2 + 8 + 8 + 8 + 4) =~= spec_u32_bytes(v.phase, e));
    lemma_u32_round_trip(s.subrange(k1 + k2 + 8 + 8 + 8, k1 + k2 + 8 + 8 + 8 + 4), v.phase, e);
    assert(crate::endian::spec_u32_at(s, k1 + k2 + 8 + 8 + 8, e) == v.phase);
}

/// The unsigned bits that store a signed byte.
pub open spec fn spec_u8_bits_of_i8(i: i8) -> u8 {
    if i >= 0 {
        i as u8
    } else {
        (i + 0x100) as u8
    }
}

/// The stored form of a detector record.
pub open spec fn spec_detector_bytes(v: DetectorV, e: Endian) -> Seq<u8> {
    spec_string_bytes(v.name, e) + seq![
        spec_u8_bits_of_i8(v.prefix[0]),
        spec_u8_bits_of_i8(v.prefix[1]),
    ] + spec_u64_bytes(v.longitude_radians, e) + spec_u64_bytes(v.latitude_radians, e)
        + spec_u32_bytes(v.elevation_meters, e) + spec_u32_bytes(v.arm_x_azimuth_radians, e)
        + spec_u32_bytes(v.arm_y_azimuth_radians, e) + spec_u32_bytes(v.arm_x_altitude_radians, e)
        + spec_u32_bytes(v.arm_y_altitude_radians, e) + spec_u32_bytes(v.arm_x_midpoint_meters, e)
        + spec_u32_bytes(v.arm_y_midpoint_meters, e) + spec_u32_bytes(
        spec_u32_bits_of_i32(v.local_time_utc_offset_s),
        e,
    )
}

/// Decoding an encoded detector record gives the record back
/// field-for-field, consuming exactly its bytes.
pub proof fn lemma_detector_round_trip(v: DetectorV, e: Endian)
    requires
        spec_encodable_text(v.name),
    ensures
        ({
            let s = spec_detector_bytes(v, e);
            sdec_detector(s, 0, s.len() as int, e) == Ok::<(DetectorV, int), FrameError>(
                (v, s.len() as int),
            )
        }),
{
    reveal(sdec_detector);
    let s = spec_detector_bytes(v, e);
    lemma_u64_round_trip(Seq::empty(), v.longitude_radians, e);
    lemma_u64_round_trip(Seq::empty(), v.latitude_radians, e);
    lemma_u32_round_trip(Seq::empty(), v.elevation_meters, e);
    lemma_u32_round_trip(Seq::empty(), v.arm_x_azimuth_radians, e);
    lemma_u32_round_trip(Seq::empty(), v.arm_y_azimuth_radians, e);
    lemma_u32_round_trip(Seq::empty(), v.arm_x_altitude_radians, e);
    lemma_u32_round_trip(Seq::empty(), v.arm_y_altitude_radians, e);
    lemma_u32_round_trip(Seq::empty(), v.arm_x_midpoint_meters, e);
    lemma_u32_round_trip(Seq::empty(), v.arm_y_midpoint_meters, e);
    lemma_u32_round_trip(Seq::empty(), spec_u32_bits_of_i32(v.local_time_utc_offset_s), e);
    let lim = s.len() as int;
    let k1 = spec_string_bytes(v.name, e).len() as int;
    assert(s.subrange(0, k1) =~= spec_string_bytes(v.name, e));
    lemma_string_round_trip(s, 0, lim, v.name, e);
    assert(s[k1] == spec_u8_bits_of_i8(v.prefix[0]));
    assert(s[k1 + 1] == spec_u8_bits_of_i8(v.prefix[1]));
    assert(crate::endian::spec_i8_of_bits(spec_u8_bits_of_i8(v.prefix[0])) == v.prefix[0]);
    assert(crate::endian::spec_i8_of_bits(spec_u8_bits_of_i8(v.prefix[1])) == v.prefix[1]);
    let p2 = k1 + 2;
    assert(s.subrange(p2, p2 + 8) =~= spec_u64_bytes(v.longitude_radians, e));
    lemma_u64_round_trip(s.subrange(p2, p2 + 8), v.longitude_radians, e);
    assert(s.subrange(p2 + 8, p2 + 16) =~= spec_u64_bytes(v.latitude_radians, e));
    lemma_u64_round_trip(s.subrange(p2 + 8, p2 + 16), v.latitude_radians, e);
    assert(s.subrange(p2 + 16, p2 + 20) =~= spec_u32_bytes(v.elevation_meters, e));
    lemma_u32_round_trip(s.subrange(p2 + 16, p2 + 20), v.elevation_meters, e);
    assert(s.subrange(p2 + 20, p2 + 24) =~= spec_u32_bytes(v.arm_x_azimuth_radians, e));
    lemma_u32_round_trip(s.subrange(p2 + 20, p2 + 24), v.arm_x_azimuth_radians, e);
    assert(s.subrange(p2 + 24, p2 + 28) =~= spec_u32_bytes(v.arm_y_azimuth_radians, e));
    lemma_u32_round_trip(s.subrange(p2 + 24, p2 + 28), v.arm_y_azimuth_radians, e);
    assert(s.subrange(p2 + 28, p2 + 32) =~= spec_u32_bytes(v.arm_x_altitude_radians, e));
    lemma_u32_round_trip(s.subrange(p2 + 28, p2 + 32), v.arm_x_altitude_radians, e);
    assert(s.subrange(p2 + 32, p2 + 36) =~= spec_u32_bytes(v.arm_y_altitude_radians, e));
    lemma_u32_round_trip(s.subrange(p2 + 32, p2 + 36), v.arm_y_altitude_radians, e);
    assert(s.subrange(p2 + 36, p2 + 40) =~= spec_u32_bytes(v.arm_x_midpoint_meters, e));
    lemma_u32_round_trip(s.subrange(p2 + 36, p2 + 40), v.arm_x_midpoint_meters, e);
    assert(s.subrange(p2 + 40, p2 + 44) =~= spec_u32_bytes(v.arm_y_midpoint_meters, e));
    lemma_u32_round_trip(s.subrange(p2 + 40, p2 + 44), v.arm_y_midpoint_meters, e);
    assert(s.subrange(p2 + 44, p2 + 48) =~= spec_u32_bytes(
        spec_u32_bits_of_i32(v.local_time_utc_offset_s),
        e,
    ));
    lemma_u32_round_trip(
        s.subrange(p2 + 44, p2 + 48),
        spec_u32_bits_of_i32(v.local_time_utc_offset_s),
        e,
    );
    lemma_i32_bits_round_trip(v.local_time_utc_offset_s);
    assert(sdec_detector(s, 0, lim, e) matches Ok(pr) && pr.0.prefix == v.prefix && pr.1 == lim);
}

/// The stored form of an ADC record: absent units are stored as the
/// literal `NONE`, and the 16-bit valid field is zero exactly when the
/// data is valid.
pub open spec fn spec_adc_bytes(v: ADCV, e: Endian) -> Seq<u8> {
    spec_string_bytes(v.name, e) + spec_string_bytes(v.comment, e) + spec_u32_bytes(
        v.channel_group,
        e,
    ) + spec_u32_bytes(v.channel_number, e) + spec_u32_bytes(v.num_bits, e) + spec_u32_bytes(
        v.bias,
        e,
    ) + spec_u32_bytes(v.slope, e) + spec_string_bytes(
        match v.units {
            Some(u) => u,
            None => "NONE"@,
        },
        e,
    ) + spec_u64_bytes(v.sample_rate, e) + spec_u64_bytes(v.time_offset_s, e) + spec_u64_bytes(
        v.f_shift,
        e,
    ) + spec_u32_bytes(v.phase, e) + spec_u16_bytes(
        if v.data_valid {
            0u16
        } else {
            1u16
        },
        e,
    )
}

/// Decoding an encoded ADC record gives the record back field-for-field,
/// consuming exactly its bytes. A present units string may not spell the
/// absence sentinel itself.
#[verifier::rlimit(100)]
pub proof fn lemma_adc_round_trip(v: ADCV, e: Endian)
    requires
        spec_encodable_text(v.name),
        spec_encodable_text(v.comment),
        v.units matches Some(u) ==> spec_encodable_text(u) && u != "NONE"@,
    ensures
        ({
            let s = spec_adc_bytes(v, e);
            sdec_adc(s, 0, s.len() as int, e) == Ok::<(ADCV, int), FrameError>(
                (v, s.len() as int),
            )
        }),
{
    reveal(sdec_adc);
    let s = spec_adc_bytes(v, e);
    let units_text = match v.units {
        Some(u) => u,
        None => "NONE"@,
    };
    assert(spec_encodable_text(units_text)) by {
        if v.units is None {
            reveal_strlit("NONE");
            vstd::utf8::is_ascii_chars_encode_utf8("NONE"@);
            assert(forall|i: int|
                0 <= i < encode_utf8("NONE"@).len() ==> encode_utf8("NONE"@)[i] != 0);
        }
    }
    lemma_u32_round_trip(Seq::empty(), v.channel_group, e);
    lemma_u32_round_trip(Seq::empty(), v.channel_number, e);
    lemma_u32_round_trip(Seq::empty(), v.num_bits, e);
    lemma_u32_round_trip(Seq::empty(), v.bias, e);
    lemma_u32_round_trip(Seq::empty(), v.slope, e);
    lemma_u64_round_trip(Seq::empty(), v.sample_rate, e);
    lemma_u64_round_trip(Seq::empty(), v.time_offset_s, e);
    lemma_u64_round_trip(Seq::empty(), v.f_shift, e);
    lemma_u32_round_trip(Seq::empty(), v.phase, e);
    lemma_u16_round_trip(
        Seq::empty(),
        if v.data_valid {
            0u16
        } else {
            1u16
        },
        e,
    );
    let lim = s.len() as int;
    let k1 = spec_string_bytes(v.name, e).len() as int;
    let k2 = spec_string_bytes(v.comment, e).len() as int;
    let k3 = spec_string_bytes(units_text, e).len() as int;
    assert(s.subrange(0, k1) =~= spec_string_bytes(v.name, e));
    lemma_string_round_trip(s, 0, lim, v.name, e);
    assert(s.subrange(k1, k1 + k2) =~= spec_string_bytes(v.comment, e));
    lemma_string_round_trip(s, k1, lim, v.comment, e);
    let p2 = k1 + k2;
    assert(s.subrange(p2, p2 + 4) =~= spec_u32_bytes(v.channel_group, e));
    lemma_u32_round_trip(s.subrange(p2, p2 + 4), v.channel_group, e);
    assert(s.subrange(p2 + 4, p2 + 8) =~= spec_u32_bytes(v.channel_number, e));
    lemma_u32_round_trip(s.subrange(p2 + 4, p2 + 8), v.channel_number, e);
    assert(s.subrange(p2 + 8, p2 + 12) =~= spec_u32_bytes(v.num_bits, e));
    lemma_u32_round_trip(s.subrange(p2 + 8, p2 + 12), v.num_bits, e);
    assert(s.subrange(p2 + 12, p2 + 16) =~= spec_u32_bytes(v.bias, e));
    lemma_u32_round_trip(s.subrange(p2 + 12, p2 + 16), v.bias, e);
    assert(s.subrange(p2 + 16, p2 + 20) =~= spec_u32_bytes(v.slope, e));
    lemma_u32_round_trip(s.subrange(p2 + 16, p2 + 20), v.slope, e);
    let p3 = p2 + 20;
    assert(s.subrange(p3, p3 + k3) =~= spec_string_bytes(units_text, e));
    lemma_string_round_trip(s, p3, lim, units_text, e);
    assert(v.units is None ==> units_text == "NONE"@);
    let p4 = p3 + k3;
    assert(s.subrange(p4, p4 + 8) =~= spec_u64_bytes(v.sample_rate, e));
    lemma_u64_round_trip(s.subrange(p4, p4 + 8), v.sample_rate, e);
    assert(s.subrange(p4 + 8, p4 + 16) =~= spec_u64_bytes(v.time_offset_s, e));
    lemma_u64_round_trip(s.subrange(p4 + 8, p4 + 16), v.time_offset_s, e);
    assert(s.subrange(p4 + 16, p4 + 24) =~= spec_u64_bytes(v.f_shift, e));
    lemma_u64_round_trip(s.subrange(p4 + 16, p4 + 24), v.f_shift, e);
    assert(s.subrange(p4 + 24, p4 + 28) =~= spec_u32_bytes(v.phase, e));
    lemma_u32_round_trip(s.subrange(p4 + 24, p4 + 28), v.phase, e);
    assert(s.subrange(p4 + 28, p4 + 30) =~= spec_u16_bytes(
        if v.data_valid {
            0u16
        } else {
            1u16
        },
        e,
    ));
    lemma_u16_round_trip(
        s.subrange(p4 + 28, p4 + 30),
        if v.data_valid {
            0u16
        } else {
            1u16
        },
        e,
    );
    assert(sdec_adc(s, 0, lim, e) matches Ok(pr) && pr.0.units == v.units && pr.0.data_valid
        == v.data_valid && pr.1 == lim);
}

/// The stored form of a list of texts, one after the other.
pub open spec fn spec_names_bytes(names: Seq<Seq<char>>, e: Endian) -> Seq<u8>
    decreases names.len(),
{
    if names.len() == 0 {
        Seq::empty()
    } else {
        spec_string_bytes(names[0], e) + spec_names_bytes(names.drop_first(), e)
    }
}

/// Decoding a stored list of texts out of any buffer that holds it gives
/// the texts back, in order, stopping exactly past their bytes.
pub proof fn lemma_names_round_trip(
    s: Seq<u8>,
    p: int,
    lim: int,
    names: Seq<Seq<char>>,
    e: Endian,
)
    requires
        forall|i: int| 0 <= i < names.len() ==> spec_encodable_text(#[trigger] names[i]),
        0 <= p,
        p + spec_names_bytes(names, e).len() <= lim <= s.len(),
        s.subrange(p, p + spec_names_bytes(names, e).len()) == spec_names_bytes(names, e),
    ensures
        sdec_names(s, p, lim, e, names.len()) == Ok::<(Seq<Seq<char>>, int), FrameError>(
            (names, p + spec_names_bytes(names, e).len()),
        ),
    decreases names.len(),
{
    if names.len() == 0 {
        assert(sdec_names(s, p, lim, e, 0) == Ok::<(Seq<Seq<char>>, int), FrameError>((
            Seq::empty(),
            p,
        )));
        assert(names =~= Seq::<Seq<char>>::empty());
    } else {
        let k0 = spec_string_bytes(names[0], e).len() as int;
        let kr = spec_names_bytes(names.drop_first(), e).len() as int;
        let k = spec_names_bytes(names, e).len() as int;
        assert(k == k0 + kr);
        assert(s.subrange(p, p + k0) =~= spec_string_bytes(names[0], e)) by {
            assert forall|i: int| 0 <= i < k0 implies #[trigger] s.subrange(p, p + k0)[i]
                == spec_string_bytes(names[0], e)[i] by {
                assert(s.subrange(p, p + k)[i] == spec_names_bytes(names, e)[i]);
            }
        }
        lemma_string_round_trip(s, p, lim, names[0], e);
        assert(s.subrange(p + k0, p + k0 + kr) =~= spec_names_bytes(names.drop_first(), e)) by {
            assert forall|i: int| 0 <= i < kr implies #[trigger] s.subrange(p + k0, p + k0 + kr)[i]
                == spec_names_bytes(names.drop_first(), e)[i] by {
                assert(s.subrange(p, p + k)[i + k0] == spec_names_bytes(names, e)[i + k0]);
            }
        }
        lemma_names_round_trip(s, p + k0, lim, names.drop_first(), e);
        assert(seq![names[0]] + names.drop_first() =~= names);
    }
}

/// The stored form of a table record.
pub open spec fn spec_table_bytes(v: TableV, e: Endian) -> Seq<u8> {
    spec_string_bytes(v.name, e) + spec_string_bytes(v.comment, e) + spec_u16_bytes(
        v.column_names.len() as u16,
        e,
    ) + spec_u32_bytes(v.num_rows, e) + spec_names_bytes(v.column_names, e)
}

/// Decoding an encoded table record gives the record back
/// field-for-field, consuming exactly its bytes.
pub proof fn lemma_table_round_trip(v: TableV, e: Endian)
    requires
        spec_encodable_text(v.name),
        spec_encodable_text(v.comment),
        v.column_names.len() <= 0xFFFF,
        forall|i: int|
            0 <= i < v.column_names.len() ==> spec_encodable_text(#[trigger] v.column_names[i]),
    ensures
        ({
            let s = spec_table_bytes(v, e);
            sdec_table(s, 0, s.len() as int, e) == Ok::<(TableV, int), FrameError>(
                (v, s.len() as int),
            )
        }),
{
    reveal(sdec_table);
    let s = spec_table_bytes(v, e);
    lemma_u16_round_trip(Seq::empty(), v.column_names.len() as u16, e);
    lemma_u32_round_trip(Seq::empty(), v.num_rows, e);
    let lim = s.len() as int;
    let k1 = spec_string_bytes(v.name, e).len() as int;
    let k2 = spec_string_bytes(v.comment, e).len() as int;
    let kn = spec_names_bytes(v.column_names, e).len() as int;
    assert(s.subrange(0, k1) =~= spec_string_bytes(v.name, e));
    lemma_string_round_trip(s, 0, lim, v.name, e);
    assert(s.subrange(k1, k1 + k2) =~= spec_string_bytes(v.comment, e));
    lemma_string_round_trip(s, k1, lim, v.comment, e);
    let p2 = k1 + k2;
    assert(s.subrange(p2, p2 + 2) =~= spec_u16_bytes(v.column_names.len() as u16, e));
    lemma_u16_round_trip(s.subrange(p2, p2 + 2), v.column_names.len() as u16, e);
    assert(s.subrange(p2 + 2, p2 + 6) =~= spec_u32_bytes(v.num_rows, e));
    lemma_u32_round_trip(s.subrange(p2 + 2, p2 + 6), v.num_rows, e);
    assert(s.subrange(p2 + 6, p2 + 6 + kn) =~= spec_names_bytes(v.column_names, e));
    lemma_names_round_trip(s, p2 + 6, lim, v.column_names, e);
}

/// The stored form of a packed block of doubles.
pub open spec fn spec_f64_block_bytes(vals: Seq<u64>, e: Endian) -> Seq<u8>
    decreases vals.len(),
{
    if vals.len() == 0 {
        Seq::empty()
    } else {
        spec_u64_bytes(vals[0], e) + spec_f64_block_bytes(vals.drop_first(), e)
    }
}

pub proof fn lemma_f64_block_bytes_len(vals: Seq<u64>, e: Endian)
    ensures
        spec_f64_block_bytes(vals, e).len() == 8 * vals.len(),
    decreases vals.len(),
{
    if vals.len() != 0 {
        lemma_u64_round_trip(Seq::empty(), vals[0], e);
        lemma_f64_block_bytes_len(vals.drop_first(), e);
    }
}

/// Reading back a stored block of doubles out of any buffer that holds it
/// gives the values, in order.
pub proof fn lemma_f64_block_round_trip(s: Seq<u8>, p: int, vals: Seq<u64>, e: Endian)
    requires
        0 <= p,
        p + 8 * vals.len() <= s.len(),
        s.subrange(p, p + 8 * vals.len()) == spec_f64_block_bytes(vals, e),
    ensures
        crate::v8::spec_f64_block(s, p, e, vals.len()) == vals,
    decreases vals.len(),
{
    lemma_f64_block_bytes_len(vals, e);
    if vals.len() == 0 {
        assert(crate::v8::spec_f64_block(s, p, e, 0) =~= vals);
    } else {
        let n = vals.len() as int;
        lemma_u64_round_trip(Seq::empty(), vals[0], e);
        assert(s.subrange(p, p + 8) =~= spec_u64_bytes(vals[0], e)) by {
            assert forall|i: int| 0 <= i < 8 implies #[trigger] s.subrange(p, p + 8)[i]
                == spec_u64_bytes(vals[0], e)[i] by {
                assert(s.subrange(p, p + 8 * n)[i] == spec_f64_block_bytes(vals, e)[i]);
            }
        }
        lemma_u64_round_trip(s.subrange(p, p + 8), vals[0], e);
        lemma_f64_block_bytes_len(vals.drop_first(), e);
        assert(s.subrange(p + 8, p + 8 * n) =~= spec_f64_block_bytes(vals.drop_first(), e)) by {
            assert forall|i: int| 0 <= i < 8 * (n - 1) implies #[trigger] s.subrange(
                p + 8,
                p + 8 * n,
            )[i] == spec_f64_block_bytes(vals.drop_first(), e)[i] by {
                assert(s.subrange(p, p + 8 * n)[i + 8] == spec_f64_block_bytes(vals, e)[i + 8]);
            }
        }
        lemma_f64_block_round_trip(s, p + 8, vals.drop_first(), e);
        assert(crate::v8::spec_f64_block(s, p, e, vals.len()) =~= vals) by {
            assert forall|i: int| 0 <= i < n implies #[trigger] crate::v8::spec_f64_block(
                s,
                p,
                e,
                vals.len(),
            )[i] == vals[i] by {
                if i > 0 {
                    assert(crate::v8::spec_f64_block(s, p + 8, e, (n - 1) as nat)[i - 1]
                        == vals.drop_first()[i - 1]);
                    assert(s.subrange(p + 8 + 8 * (i - 1), p + 8 + 8 * (i - 1) + 8) =~= s.subrange(
                        p + 8 * i,
                        p + 8 * i + 8,
                    ));
                }
            }
        }
    }
}

/// The single bits that store an absent probability: minus one.
pub open spec fn spec_absent_probability_bits() -> u32 {
    0xBF80_0000
}

/// The stored form of an event record: the parameter values first as one
/// packed block, then the parameter names. An absent probability is
/// stored as a negative value.
pub open spec fn spec_event_bytes(v: EventV, e: Endian) -> Seq<u8> {
    spec_string_bytes(v.name, e) + spec_string_bytes(v.comment, e) + spec_string_bytes(
        v.inputs,
        e,
    ) + spec_u32_bytes(v.gps_time_s, e) + spec_u32_bytes(v.gps_residual_time_ns, e)
        + spec_u32_bytes(v.duration_before_s, e) + spec_u32_bytes(v.duration_after_s, e)
        + spec_u32_bytes(v.event_status, e) + spec_u32_bytes(v.amplitude, e) + spec_u32_bytes(
        match v.probability {
            Some(b) => b,
            None => spec_absent_probability_bits(),
        },
        e,
    ) + spec_string_bytes(v.statistics, e) + spec_u16_bytes(v.parameters.len() as u16, e)
        + spec_f64_block_bytes(v.parameters.map_values(|q: EventParameterV| q.value), e)
        + spec_names_bytes(v.parameters.map_values(|q: EventParameterV| q.name), e)
}

/// Decoding an encoded event record gives the record back field-for-field,
/// consuming exactly its bytes. A present probability may not be negative,
/// as the format stores absence that way.
#[verifier::rlimit(100)]
pub proof fn lemma_event_round_trip(v: EventV, e: Endian)
    requires
        spec_encodable_text(v.name),
        spec_encodable_text(v.comment),
        spec_encodable_text(v.inputs),
        spec_encodable_text(v.statistics),
        v.parameters.len() <= 0xFFFF,
        forall|i: int|
            0 <= i < v.parameters.len() ==> spec_encodable_text(
                (#[trigger] v.parameters[i]).name,
            ),
        v.probability matches Some(b) ==> !crate::endian::spec_f32_bits_is_negative(b),
    ensures
        ({
            let s = spec_event_bytes(v, e);
            sdec_event(s, 0, s.len() as int, e) == Ok::<(EventV, int), FrameError>(
                (v, s.len() as int),
            )
        }),
{
    reveal(sdec_event);
    let s = spec_event_bytes(v, e);
    let values = v.parameters.map_values(|q: EventParameterV| q.value);
    let names = v.parameters.map_values(|q: EventParameterV| q.name);
    let prob_bits = match v.probability {
        Some(b) => b,
        None => spec_absent_probability_bits(),
    };
    lemma_u32_round_trip(Seq::empty(), v.gps_time_s, e);
    lemma_u32_round_trip(Seq::empty(), v.gps_residual_time_ns, e);
    lemma_u32_round_trip(Seq::empty(), v.duration_before_s, e);
    lemma_u32_round_trip(Seq::empty(), v.duration_after_s, e);
    lemma_u32_round_trip(Seq::empty(), v.event_status, e);
    lemma_u32_round_trip(Seq::empty(), v.amplitude, e);
    lemma_u32_round_trip(Seq::empty(), prob_bits, e);
    lemma_u16_round_trip(Seq::empty(), v.parameters.len() as u16, e);
    lemma_f64_block_bytes_len(values, e);
    let lim = s.len() as int;
    let k1 = spec_string_bytes(v.name, e).len() as int;
    let k2 = spec_string_bytes(v.comment, e).len() as int;
    let k3 = spec_string_bytes(v.inputs, e).len() as int;
    let k4 = spec_string_bytes(v.statistics, e).len() as int;
    let kn = spec_names_bytes(names, e).len() as int;
    let n = v.parameters.len() as int;
    assert(s.subrange(0, k1) =~= spec_string_bytes(v.name, e));
    lemma_string_round_trip(s, 0, lim, v.name, e);
    assert(s.subrange(k1, k1 + k2) =~= spec_string_bytes(v.comment, e));
    lemma_string_round_trip(s, k1, lim, v.comment, e);
    assert(s.subrange(k1 + k2, k1 + k2 + k3) =~= spec_string_bytes(v.inputs, e));
    lemma_string_round_trip(s, k1 + k2, lim, v.inputs, e);
    let p3 = k1 + k2 + k3;
    assert(s.subrange(p3, p3 + 4) =~= spec_u32_bytes(v.gps_time_s, e));
    lemma_u32_round_trip(s.subrange(p3, p3 + 4), v.gps_time_s, e);
    assert(s.subrange(p3 + 4, p3 + 8) =~= spec_u32_bytes(v.gps_residual_time_ns, e));
    lemma_u32_round_trip(s.subrange(p3 + 4, p3 + 8), v.gps_residual_time_ns, e);
    assert(s.subrange(p3 + 8, p3 + 12) =~= spec_u32_bytes(v.duration_before_s, e));
    lemma_u32_round_trip(s.subrange(p3 + 8, p3 + 12), v.duration_before_s, e);
    assert(s.subrange(p3 + 12, p3 + 16) =~= spec_u32_bytes(v.duration_after_s, e));
    lemma_u32_round_trip(s.subrange(p3 + 12, p3 + 16), v.duration_after_s, e);
    assert(s.subrange(p3 + 16, p3 + 20) =~= spec_u32_bytes(v.event_status, e));
    lemma_u32_round_trip(s.subrange(p3 + 16, p3 + 20), v.event_status, e);
    assert(s.subrange(p3 + 20, p3 + 24) =~= spec_u32_bytes(v.amplitude, e));
    lemma_u32_round_trip(s.subrange(p3 + 20, p3 + 24), v.amplitude, e);
    assert(s.subrange(p3 + 24, p3 + 28) =~= spec_u32_bytes(prob_bits, e));
    lemma_u32_round_trip(s.subrange(p3 + 24, p3 + 28), prob_bits, e);
    assert(v.probability is None ==> crate::endian::spec_f32_bits_is_negative(prob_bits));
    assert(s.subrange(p3 + 28, p3 + 28 + k4) =~= spec_string_bytes(v.statistics, e));
    lemma_string_round_trip(s, p3 + 28, lim, v.statistics, e);
    let p4 = p3 + 28 + k4;
    assert(s.subrange(p4, p4 + 2) =~= spec_u16_bytes(v.parameters.len() as u16, e));
    lemma_u16_round_trip(s.subrange(p4, p4 + 2), v.parameters.len() as u16, e);
    let q0 = p4 + 2;
    assert(s.subrange(q0, q0 + 8 * n) =~= spec_f64_block_bytes(values, e));
    lemma_f64_block_round_trip(s, q0, values, e);
    assert(s.subrange(q0 + 8 * n, q0 + 8 * n + kn) =~= spec_names_bytes(names, e));
    lemma_names_round_trip(s, q0 + 8 * n, lim, names, e);
    assert(crate::v8::spec_event_params(values, names) =~= v.parameters);
}

/// The stored form of a simulated-event record.
pub open spec fn spec_simulated_event_bytes(v: SimulatedEventV, e: Endian) -> Seq<u8> {
    spec_string_bytes(v.name, e) + spec_string_bytes(v.comment, e) + spec_string_bytes(
        v.inputs,
        e,
    ) + spec_u32_bytes(v.gps_event_max_time_s, e) + spec_u32_bytes(v.gps_residual_time_ns, e)
        + spec_u32_bytes(v.duration_before_s, e) + spec_u32_bytes(v.duration_after_s, e)
        + spec_u32_bytes(v.amplitude, e) + spec_u16_bytes(v.parameters.len() as u16, e)
        + spec_f64_block_bytes(v.parameters.map_values(|q: EventParameterV| q.value), e)
        + spec_names_bytes(v.parameters.map_values(|q: EventParameterV| q.name), e)
}

/// Decoding an encoded simulated-event record gives the record back
/// field-for-field, consuming exactly its bytes.
#[verifier::rlimit(100)]
pub proof fn lemma_simulated_event_round_trip(v: SimulatedEventV, e: Endian)
    requires
        spec_encodable_text(v.name),
        spec_encodable_text(v.comment),
        spec_encodable_text(v.inputs),
        v.parameters.len() <= 0xFFFF,
        forall|i: int|
            0 <= i < v.parameters.len() ==> spec_encodable_text(
                (#[trigger] v.parameters[i]).name,
            ),
    ensures
        ({
            let s = spec_simulated_event_bytes(v, e);
            sdec_simulated_event(s, 0, s.len() as int, e) == Ok::<(SimulatedEventV, int), FrameError>(
                (v, s.len() as int),
            )
        }),
{
    reveal(sdec_simulated_event);
    let s = spec_simulated_event_bytes(v, e);
    let values = v.parameters.map_values(|q: EventParameterV| q.value);
    let names = v.parameters.map_values(|q: EventParameterV| q.name);
    lemma_u32_round_trip(Seq::empty(), v.gps_event_max_time_s, e);
    lemma_u32_round_trip(Seq::empty(), v.gps_residual_time_ns, e);
    lemma_u32_round_trip(Seq::empty(), v.duration_before_s, e);
    lemma_u32_round_trip(Seq::empty(), v.duration_after_s, e);
    lemma_u32_round_trip(Seq::empty(), v.amplitude, e);
    lemma_u16_round_trip(Seq::empty(), v.parameters.len() as u16, e);
    lemma_f64_block_bytes_len(values, e);
    let lim = s.len() as int;
    let k1 = spec_string_bytes(v.name, e).len() as int;
    let k2 = spec_string_bytes(v.comment, e).len() as int;
    let k3 = spec_string_bytes(v.inputs, e).len() as int;
    let kn = spec_names_bytes(names, e).len() as int;
    let n = v.parameters.len() as int;
    assert(s.subrange(0, k1) =~= spec_string_bytes(v.name, e));
    lemma_string_round_trip(s, 0, lim, v.name, e);
    assert(s.subrange(k1, k1 + k2) =~= spec_string_bytes(v.comment, e));
    lemma_string_round_trip(s, k1, lim, v.comment, e);
    assert(s.subrange(k1 + k2, k1 + k2 + k3) =~= spec_string_bytes(v.inputs, e));
    lemma_string_round_trip(s, k1 + k2, lim, v.inputs, e);
    let p3 = k1 + k2 + k3;
    assert(s.subrange(p3, p3 + 4) =~= spec_u32_bytes(v.gps_event_max_time_s, e));
    lemma_u32_round_trip(s.subrange(p3, p3 + 4), v.gps_event_max_time_s, e);
    assert(s.subrange(p3 + 4, p3 + 8) =~= spec_u32_bytes(v.gps_residual_time_ns, e));
    lemma_u32_round_trip(s.subrange(p3 + 4, p3 + 8), v.gps_residual_time_ns, e);
    assert(s.subrange(p3 + 8, p3 + 12) =~= spec_u32_bytes(v.duration_before_s, e));
    lemma_u32_round_trip(s.subrange(p3 + 8, p3 + 12), v.duration_before_s, e);
    assert(s.subrange(p3 + 12, p3 + 16) =~= spec_u32_bytes(v.duration_after_s, e));
    lemma_u32_round_trip(s.subrange(p3 + 12, p3 + 16), v.duration_after_s, e);
    assert(s.subrange(p3 + 16, p3 + 20) =~= spec_u32_bytes(v.amplitude, e));
    lemma_u32_round_trip(s.subrange(p3 + 16, p3 + 20), v.amplitude, e);
    assert(s.subrange(p3 + 20, p3 + 22) =~= spec_u16_bytes(v.parameters.len() as u16, e));
    lemma_u16_round_trip(s.subrange(p3 + 20, p3 + 22), v.parameters.len() as u16, e);
    let q0 = p3 + 22;
    assert(s.subrange(q0, q0 + 8 * n) =~= spec_f64_block_bytes(values, e));
    lemma_f64_block_round_trip(s, q0, values, e);
    assert(s.subrange(q0 + 8 * n, q0 + 8 * n + kn) =~= spec_names_bytes(names, e));
    lemma_names_round_trip(s, q0 + 8 * n, lim, names, e);
    assert(crate::v8::spec_event_params(values, names) =~= v.parameters);
}

/// The stored form of a post-processed record.
pub open spec fn spec_post_processed_bytes(v: PostProcessedV, e: Endian) -> Seq<u8> {
    spec_string_bytes(v.name, e) + spec_string_bytes(v.comment, e) + spec_u16_bytes(
        v.data_type,
        e,
    ) + spec_u16_bytes(v.sub_type, e) + spec_u64_bytes(v.time_offset_s, e) + spec_u64_bytes(
        v.time_range_s,
        e,
    ) + spec_u64_bytes(v.f_shift, e) + spec_u32_bytes(v.phase, e) + spec_u64_bytes(
        v.frequency_range,
        e,
    ) + spec_u64_bytes(v.bandwidth, e) + spec_u16_bytes(v.auxiliary_parameters.len() as u16, e)
        + spec_f64_block_bytes(
        v.auxiliary_parameters.map_values(|q: AuxiliaryParameterV| q.value),
        e,
    ) + spec_names_bytes(v.auxiliary_parameters.map_values(|q: AuxiliaryParameterV| q.name), e)
}

/// Decoding an encoded post-processed record gives the record back
/// field-for-field, consuming exactly its bytes.
#[verifier::rlimit(100)]
pub proof fn lemma_post_processed_round_trip(v: PostProcessedV, e: Endian)
    requires
        spec_encodable_text(v.name),
        spec_encodable_text(v.comment),
        v.auxiliary_parameters.len() <= 0xFFFF,
        forall|i: int|
            0 <= i < v.auxiliary_parameters.len() ==> spec_encodable_text(
                (#[trigger] v.auxiliary_parameters[i]).name,
            ),
    ensures
        ({
            let s = spec_post_processed_bytes(v, e);
            sdec_post_processed(s, 0, s.len() as int, e) == Ok::<(PostProcessedV, int), FrameError>(
                (v, s.len() as int),
            )
        }),
{
    reveal(sdec_post_processed);
    let s = spec_post_processed_bytes(v, e);
    let values = v.auxiliary_parameters.map_values(|q: AuxiliaryParameterV| q.value);
    let names = v.auxiliary_parameters.map_values(|q: AuxiliaryParameterV| q.name);
    lemma_u16_round_trip(Seq::empty(), v.data_type, e);
    lemma_u16_round_trip(Seq::empty(), v.sub_type, e);
    lemma_u64_round_trip(Seq::empty(), v.time_offset_s, e);
    lemma_u64_round_trip(Seq::empty(), v.time_range_s, e);
    lemma_u64_round_trip(Seq::empty(), v.f_shift, e);
    lemma_u32_round_trip(Seq::empty(), v.phase, e);
    lemma_u64_round_trip(Seq::empty(), v.frequency_range, e);
    lemma_u64_round_trip(Seq::empty(), v.bandwidth, e);
    lemma_u16_round_trip(Seq::empty(), v.auxiliary_parameters.len() as u16, e);
    lemma_f64_block_bytes_len(values, e);
    let lim = s.len() as int;
    let k1 = spec_string_bytes(v.name, e).len() as int;
    let k2 = spec_string_bytes(v.comment, e).len() as int;
    let kn = spec_names_bytes(names, e).len() as int;
    let n = v.auxiliary_parameters.len() as int;
    assert(s.subrange(0, k1) =~= spec_string_bytes(v.name, e));
    lemma_string_round_trip(s, 0, lim, v.name, e);
    assert(s.subrange(k1, k1 + k2) =~= spec_string_bytes(v.comment, e));
    lemma_string_round_trip(s, k1, lim, v.comment, e);
    let p2 = k1 + k2;
    assert(s.subrange(p2, p2 + 2) =~= spec_u16_bytes(v.data_type, e));
    lemma_u16_round_trip(s.subrange(p2, p2 + 2), v.data_type, e);
    assert(s.subrange(p2 + 2, p2 + 4) =~= spec_u16_bytes(v.sub_type, e));
    lemma_u16_round_trip(s.subrange(p2 + 2, p2 + 4), v.sub_type, e);
    assert(s.subrange(p2 + 4, p2 + 12) =~= spec_u64_bytes(v.time_offset_s, e));
    lemma_u64_round_trip(s.subrange(p2 + 4, p2 + 12), v.time_offset_s, e);
    assert(s.subrange(p2 + 12, p2 + 20) =~= spec_u64_bytes(v.time_range_s, e));
    lemma_u64_round_trip(s.subrange(p2 + 12, p2 + 20), v.time_range_s, e);
    assert(s.subrange(p2 + 20, p2 + 28) =~= spec_u64_bytes(v.f_shift, e));
    lemma_u64_round_trip(s.subrange(p2 + 20, p2 + 28), v.f_shift, e);
    assert(s.subrange(p2 + 28, p2 + 32) =~= spec_u32_bytes(v.phase, e));
    lemma_u32_round_trip(s.subrange(p2 + 28, p2 + 32), v.phase, e);
    assert(s.subrange(p2 + 32, p2 + 40) =~= spec_u64_bytes(v.frequency_range, e));
    lemma_u64_round_trip(s.subrange(p2 + 32, p2 + 40), v.frequency_range, e);
    assert(s.subrange(p2 + 40, p2 + 48) =~= spec_u64_bytes(v.bandwidth, e));
    lemma_u64_round_trip(s.subrange(p2 + 40, p2 + 48), v.bandwidth, e);
    assert(s.subrange(p2 + 48, p2 + 50) =~= spec_u16_bytes(
        v.auxiliary_parameters.len() as u16,
        e,
    ));
    lemma_u16_round_trip(s.subrange(p2 + 48, p2 + 50), v.auxiliary_parameters.len() as u16, e);
    let q0 = p2 + 50;
    assert(s.subrange(q0, q0 + 8 * n) =~= spec_f64_block_bytes(values, e));
    lemma_f64_block_round_trip(s, q0, values, e);
    assert(s.subrange(q0 + 8 * n, q0 + 8 * n + kn) =~= spec_names_bytes(names, e));
    lemma_names_round_trip(s, q0 + 8 * n, lim, names, e);
    assert(crate::v8::spec_aux_params(values, names) =~= v.auxiliary_parameters);
}

} // verus!




