use std::io::Write;

use gwframes::parse;
use gwframes::parser::Interests;
use gwframes::parser::Record;
use gwframes::structures::Checksum;
use gwframes::structures::FrameError;
use gwframes::structures::Library;
use gwframes::structures::Major;
use gwframes::structures::Minor;
use gwframes::structures::Vector;

fn enc_string(s: &str) -> Vec<u8> {
    let mut b = ((s.len() + 1) as u16).to_le_bytes().to_vec();
    b.extend_from_slice(s.as_bytes());
    b.push(0);
    b
}

fn record(class: u8, body: &[u8]) -> Vec<u8> {
    let mut out = ((14 + body.len()) as u64).to_le_bytes().to_vec();
    out.push(0);
    out.push(class);
    out.extend_from_slice(&[0, 0, 0, 0]);
    out.extend_from_slice(body);
    out
}

fn dict(name: &str, class: u16) -> Vec<u8> {
    let mut body = enc_string(name);
    body.extend_from_slice(&class.to_le_bytes());
    body.extend(enc_string("dictionary"));
    record(1, &body)
}

fn v8_header() -> Vec<u8> {
    let mut h = vec![0u8; 40];
    h[0..5].copy_from_slice(b"IGWD\0");
    h[5] = 8;
    h[6] = 1;
    h[8] = 4;
    h[9] = 8;
    h[12] = 0x34;
    h[13] = 0x12;
    h[38] = 2;
    h[39] = 1;
    h
}

fn history_file() -> Vec<u8> {
    let mut f = v8_header();
    f.extend(dict("FrEndOfFile", 3));
    f.extend(dict("FrHistory", 4));
    let mut body = enc_string("calibration");
    body.extend_from_slice(&7u32.to_le_bytes());
    body.extend(enc_string("first pass"));
    f.extend(record(4, &body));
    f.extend(record(3, &[]));
    f
}

#[test]
fn test_history_round() {
    let out = parse(&history_file(), &Interests::all()).unwrap();
    assert_eq!(out.version.major, Major::Release8);
    assert_eq!(out.version.minor, Minor::Minor(1));
    assert_eq!(out.error, None);
    assert_eq!(out.records.len(), 1);
    match &out.records[0] {
        Record::History(h) => {
            assert_eq!(h.name, "calibration");
            assert_eq!(h.gps_time_s, 7);
            assert_eq!(h.comment, "first pass");
        },
        other => panic!("unexpected record {:?}", other),
    }
}

#[test]
fn test_selective_sink() {
    let out = parse(&history_file(), &Interests::none()).unwrap();
    assert_eq!(out.error, None);
    assert_eq!(out.records.len(), 0);
}

#[test]
fn test_skip_junk_record() {
    let mut f = v8_header();
    f.extend(dict("FrEndOfFile", 3));
    f.extend(dict("FrHistory", 4));
    f.extend(dict("FrAdcData", 5));
    let junk = vec![0xABu8; 33];
    f.extend(record(5, &junk));
    let mut body = enc_string("calibration");
    body.extend_from_slice(&7u32.to_le_bytes());
    body.extend(enc_string("first pass"));
    f.extend(record(4, &body));
    f.extend(record(3, &[]));
    let mut interests = Interests::none();
    interests.history = true;
    let out = parse(&f, &interests).unwrap();
    assert_eq!(out.error, None);
    assert_eq!(out.records.len(), 1);
    match &out.records[0] {
        Record::History(h) => assert_eq!(h.gps_time_s, 7),
        other => panic!("unexpected record {:?}", other),
    }
}

#[test]
fn test_corrupt_magic() {
    let mut f = history_file();
    f[0] = b'X';
    assert_eq!(parse(&f, &Interests::all()), Err(FrameError::NotAFrameFile));
}

#[test]
fn test_short_header() {
    let f = vec![0u8; 12];
    assert_eq!(parse(&f, &Interests::all()), Err(FrameError::ShortRead));
}

#[test]
fn test_unsupported_version() {
    let mut f = history_file();
    f[5] = 5;
    let out = parse(&f, &Interests::all()).unwrap();
    assert_eq!(out.version.major, Major::Unsupported(5));
    assert_eq!(out.records.len(), 0);
    assert_eq!(out.error, None);
}

#[test]
fn test_header_fields() {
    let h = gwframes::header::parse(&v8_header()).unwrap();
    assert_eq!(h.version, gwframes::structures::Version {
        major: Major::Release8,
        minor: Minor::Minor(1),
    });
    assert_eq!(h.library, Library::LibFrameCPP);
    assert_eq!(h.endian, gwframes::structures::Endian::Little);
    assert_eq!(h.machine_data_model, gwframes::structures::DataModel::LP64);
    assert_eq!(h.checksum, Checksum::SumCRC);
}

fn enc_string_be(s: &str) -> Vec<u8> {
    let mut b = ((s.len() + 1) as u16).to_be_bytes().to_vec();
    b.extend_from_slice(s.as_bytes());
    b.push(0);
    b
}

fn record_v6_be(class: u16, body: &[u8]) -> Vec<u8> {
    let mut out = ((14 + body.len()) as u64).to_be_bytes().to_vec();
    out.extend_from_slice(&class.to_be_bytes());
    out.extend_from_slice(&[0, 0, 0, 0]);
    out.extend_from_slice(body);
    out
}

fn dict_v6_be(name: &str, class: u16) -> Vec<u8> {
    let mut body = enc_string_be(name);
    body.extend_from_slice(&class.to_be_bytes());
    body.extend(enc_string_be("dictionary"));
    record_v6_be(1, &body)
}

#[test]
fn test_v6_big_endian_serial() {
    let mut f = vec![0u8; 40];
    f[0..5].copy_from_slice(b"IGWD\0");
    f[5] = 6;
    f[6] = 20;
    f[8] = 4;
    f[9] = 8;
    f[12] = 0x12;
    f[13] = 0x34;
    f[38] = 1;
    f[39] = 0;
    f.extend(dict_v6_be("FrEndOfFile", 3));
    f.extend(dict_v6_be("FrSerData", 4));
    let mut body = enc_string_be("weather");
    body.extend_from_slice(&600000000u32.to_be_bytes());
    body.extend_from_slice(&5u32.to_be_bytes());
    body.extend_from_slice(&16384.0f32.to_bits().to_be_bytes());
    body.extend(enc_string_be("t=20C"));
    f.extend(record_v6_be(4, &body));
    f.extend(record_v6_be(3, &[]));
    let out = parse(&f, &Interests::all()).unwrap();
    assert_eq!(out.version.major, Major::Release6);
    assert_eq!(out.version.minor, Minor::Minor(20));
    assert_eq!(out.error, None);
    assert_eq!(out.records.len(), 1);
    match &out.records[0] {
        Record::Serial(v) => {
            assert_eq!(v.name, "weather");
            assert_eq!(v.gps_time_s, 600000000);
            assert_eq!(v.gps_residual_time_ns, 5);
            assert_eq!(f64::from_bits(v.sample_rate), 16384.0);
            assert_eq!(v.data, "t=20C");
        },
        other => panic!("unexpected record {:?}", other),
    }
}

#[test]
fn test_frame_header_record() {
    let mut f = v8_header();
    f.extend(dict("FrEndOfFile", 3));
    f.extend(dict("FrameH", 4));
    let mut body = enc_string("gwpy");
    body.extend_from_slice(&1i32.to_le_bytes());
    body.extend_from_slice(&0u32.to_le_bytes());
    body.extend_from_slice(&4005673240u32.to_le_bytes());
    body.extend_from_slice(&600000000u32.to_le_bytes());
    body.extend_from_slice(&250u32.to_le_bytes());
    body.extend_from_slice(&19u16.to_le_bytes());
    body.extend_from_slice(&128.0f64.to_bits().to_le_bytes());
    f.extend(record(4, &body));
    f.extend(record(3, &[]));
    let out = parse(&f, &Interests::all()).unwrap();
    assert_eq!(out.error, None);
    assert_eq!(out.records.len(), 1);
    match &out.records[0] {
        Record::Frame(h) => {
            assert_eq!(h.name, "gwpy");
            assert_eq!(h.run, 1);
            assert_eq!(h.frame, 0);
            assert_eq!(h.data_quality, 4005673240);
            assert_eq!(h.gps_start_time_s, 600000000);
            assert_eq!(h.gps_residual_time_ns, 250);
            assert_eq!(h.gps_leap_s, 19);
            assert_eq!(f64::from_bits(h.frame_length_s), 128.0);
        },
        other => panic!("unexpected record {:?}", other),
    }
}

fn vector_body(compression: u16, payload: &[u8], num_samples: u64) -> Vec<u8> {
    let mut body = enc_string("H1:TEST-STRAIN");
    body.extend_from_slice(&compression.to_le_bytes());
    body.extend_from_slice(&2u16.to_le_bytes());
    body.extend_from_slice(&num_samples.to_le_bytes());
    body.extend_from_slice(&(payload.len() as u64).to_le_bytes());
    body.extend_from_slice(payload);
    body.extend_from_slice(&1u32.to_le_bytes());
    body.extend_from_slice(&num_samples.to_le_bytes());
    body.extend_from_slice(&0.000244140625f64.to_bits().to_le_bytes());
    body.extend_from_slice(&0.0f64.to_bits().to_le_bytes());
    body.extend(enc_string("s"));
    body.extend(enc_string(""));
    body
}

fn check_vector_output(out: &gwframes::ParseOutput) {
    assert_eq!(out.error, None);
    assert_eq!(out.records.len(), 1);
    match &out.records[0] {
        Record::Vector(Vector::F64(info, data)) => {
            assert_eq!(info.name, "H1:TEST-STRAIN");
            assert_eq!(info.num_samples, 2);
            assert_eq!(info.num_dimensions, 1);
            assert_eq!(info.dimension_lengths, vec![2]);
            assert_eq!(f64::from_bits(info.sample_spacing[0]), 0.000244140625);
            assert_eq!(f64::from_bits(info.x_origins[0]), 0.0);
            assert_eq!(info.unit_x_scale_factors, vec!["s".to_string()]);
            assert_eq!(info.unit_y, "");
            let values: Vec<f64> = data.iter().map(|b| f64::from_bits(*b)).collect();
            assert_eq!(values, vec![1.5, -2.0]);
        },
        other => panic!("unexpected record {:?}", other),
    }
}

#[test]
fn test_vector_stored() {
    let mut payload = Vec::new();
    payload.extend_from_slice(&1.5f64.to_bits().to_le_bytes());
    payload.extend_from_slice(&(-2.0f64).to_bits().to_le_bytes());
    let mut f = v8_header();
    f.extend(dict("FrEndOfFile", 3));
    f.extend(dict("FrVect", 4));
    f.extend(record(4, &vector_body(0, &payload, 2)));
    f.extend(record(3, &[]));
    let out = parse(&f, &Interests::all()).unwrap();
    check_vector_output(&out);
}

#[test]
fn test_vector_compressed() {
    let mut payload = Vec::new();
    payload.extend_from_slice(&1.5f64.to_bits().to_le_bytes());
    payload.extend_from_slice(&(-2.0f64).to_bits().to_le_bytes());
    let mut encoder =
        flate2::write::ZlibEncoder::new(Vec::new(), flate2::Compression::default());
    encoder.write_all(&payload).unwrap();
    let compressed = encoder.finish().unwrap();
    let mut f = v8_header();
    f.extend(dict("FrEndOfFile", 3));
    f.extend(dict("FrVect", 4));
    f.extend(record(4, &vector_body(1, &compressed, 2)));
    f.extend(record(3, &[]));
    let out = parse(&f, &Interests::all()).unwrap();
    check_vector_output(&out);
}

#[test]
fn test_vector_unsupported_compression() {
    let payload = [0u8; 16];
    let mut f = v8_header();
    f.extend(dict("FrEndOfFile", 3));
    f.extend(dict("FrVect", 4));
    f.extend(record(4, &vector_body(7, &payload, 2)));
    f.extend(record(3, &[]));
    let out = parse(&f, &Interests::all()).unwrap();
    assert_eq!(out.error, Some(FrameError::UnsupportedCompression));
    assert_eq!(out.records.len(), 0);
}

#[test]
fn test_bad_dictionary_name() {
    let mut f = v8_header();
    f.extend(dict("FrBogus", 3));
    let out = parse(&f, &Interests::none()).unwrap();
    assert_eq!(out.error, Some(FrameError::UnknownStructureKind));
}

#[test]
fn test_bad_dictionary_id() {
    let mut f = v8_header();
    f.extend(dict("FrVect", 300));
    let out = parse(&f, &Interests::none()).unwrap();
    assert_eq!(out.error, Some(FrameError::BadClassId));
}

#[test]
fn test_truncated_file() {
    let mut f = history_file();
    f.truncate(f.len() - 20);
    let out = parse(&f, &Interests::all()).unwrap();
    assert_eq!(out.error, Some(FrameError::ShortRead));
}

#[test]
fn test_malformed_string() {
    let mut f = v8_header();
    f.extend(dict("FrEndOfFile", 3));
    f.extend(dict("FrHistory", 4));
    let mut body = 5u16.to_le_bytes().to_vec();
    body.extend_from_slice(b"abcde");
    body.extend_from_slice(&7u32.to_le_bytes());
    body.extend(enc_string("c"));
    f.extend(record(4, &body));
    f.extend(record(3, &[]));
    let mut interests = Interests::none();
    interests.history = true;
    let out = parse(&f, &interests).unwrap();
    assert_eq!(out.error, Some(FrameError::MalformedString));
}

#[test]
fn test_event_probability_sentinel() {
    let mut f = v8_header();
    f.extend(dict("FrEndOfFile", 3));
    f.extend(dict("FrEvent", 4));
    let mut body = enc_string("burst");
    body.extend(enc_string("note"));
    body.extend(enc_string("H1"));
    body.extend_from_slice(&600000000u32.to_le_bytes());
    body.extend_from_slice(&1u32.to_le_bytes());
    body.extend_from_slice(&0.5f32.to_bits().to_le_bytes());
    body.extend_from_slice(&0.5f32.to_bits().to_le_bytes());
    body.extend_from_slice(&0u32.to_le_bytes());
    body.extend_from_slice(&2.5f32.to_bits().to_le_bytes());
    body.extend_from_slice(&(-1.0f32).to_bits().to_le_bytes());
    body.extend(enc_string("chisq"));
    body.extend_from_slice(&1u16.to_le_bytes());
    body.extend_from_slice(&0.25f64.to_bits().to_le_bytes());
    body.extend(enc_string("snr"));
    f.extend(record(4, &body));
    f.extend(record(3, &[]));
    let out = parse(&f, &Interests::all()).unwrap();
    assert_eq!(out.error, None);
    match &out.records[0] {
        Record::Event(ev) => {
            assert_eq!(ev.name, "burst");
            assert_eq!(ev.probability, None);
            assert_eq!(ev.parameters.len(), 1);
            assert_eq!(f64::from_bits(ev.parameters[0].value), 0.25);
            assert_eq!(ev.parameters[0].name, "snr");
        },
        other => panic!("unexpected record {:?}", other),
    }
}

#[test]
fn test_dictionary_cannot_rebind_fixed_ids() {
    let mut f = v8_header();
    f.extend(dict("FrameH", 1));
    f.extend(dict("FrVect", 2));
    f.extend(dict("FrEndOfFile", 3));
    f.extend(dict("FrHistory", 4));
    let mut body = enc_string("calibration");
    body.extend_from_slice(&7u32.to_le_bytes());
    body.extend(enc_string("first pass"));
    f.extend(record(4, &body));
    f.extend(record(3, &[]));
    let out = parse(&f, &Interests::all()).unwrap();
    assert_eq!(out.error, None);
    assert_eq!(out.records.len(), 1);
    match &out.records[0] {
        Record::History(h) => assert_eq!(h.gps_time_s, 7),
        other => panic!("unexpected record {:?}", other),
    }
}
