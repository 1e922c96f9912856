use gwframes::endian::i16_from_bytes;
use gwframes::endian::i32_from_bytes;
use gwframes::endian::i8_from_bytes;
use gwframes::endian::u16_from_bytes;
use gwframes::endian::u32_from_bytes;
use gwframes::endian::u64_from_bytes;
use gwframes::endian::u8_from_bytes;
use gwframes::endian::vec_u16_from_bytes;
use gwframes::endian::vec_u64_from_bytes;
use gwframes::endian::widen_f32_bits;
use gwframes::structures::Endian;

#[test]
fn test_u8_endian() {
    let got = u8_from_bytes(&[0xFF], Endian::Big);
    assert_eq!(got, 255);
    let got = u8_from_bytes(&[0xFF], Endian::Little);
    assert_eq!(got, 255);
}

#[test]
fn test_i8_endian() {
    let got = i8_from_bytes(&[0xFF], Endian::Big);
    assert_eq!(got, -1);
    let got = i8_from_bytes(&[0xFF], Endian::Little);
    assert_eq!(got, -1);
}

#[test]
fn test_u16_endian() {
    let got = u16_from_bytes(&[0x12, 0x34], Endian::Big);
    assert_eq!(got, 0x1234);
    let got = u16_from_bytes(&[0x12, 0x34], Endian::Little);
    assert_eq!(got, 0x3412);
}

#[test]
fn test_i16_endian() {
    let got = i16_from_bytes(&[0xFF, 0x00], Endian::Big);
    assert_eq!(got, -256);
    let got = i16_from_bytes(&[0x00, 0xFF], Endian::Little);
    assert_eq!(got, -256);
}

#[test]
fn test_u32_endian() {
    let got = u32_from_bytes(&[0x12, 0x34, 0x56, 0x78], Endian::Big);
    assert_eq!(got, 0x12345678);
    let got = u32_from_bytes(&[0x12, 0x34, 0x56, 0x78], Endian::Little);
    assert_eq!(got, 0x78563412);
}

#[test]
fn test_i32_endian() {
    let got = i32_from_bytes(&[0x01, 0x23, 0x45, 0x67], Endian::Big);
    assert_eq!(got, 0x01234567);
    let got = i32_from_bytes(&[0x01, 0x23, 0x45, 0x67], Endian::Little);
    assert_eq!(got, 0x67452301);
}

#[test]
fn test_u64_endian() {
    let got = u64_from_bytes(&[0x01, 0x23, 0x45, 0x67, 0x89, 0xab, 0xcd, 0xef], Endian::Big);
    assert_eq!(got, 0x0123456789abcdef);
    let got = u64_from_bytes(&[0x01, 0x23, 0x45, 0x67, 0x89, 0xab, 0xcd, 0xef], Endian::Little);
    assert_eq!(got, 0xefcdab8967452301);
}

#[test]
fn test_f64_endian() {
    let got = f64::from_bits(u64_from_bytes(
        &[0x40, 0x09, 0x21, 0xfb, 0x54, 0x44, 0x2d, 0x18],
        Endian::Big,
    ));
    assert!((got - std::f64::consts::PI).abs() < f64::EPSILON);
    let got = f64::from_bits(u64_from_bytes(
        &[0x18, 0x2d, 0x44, 0x54, 0xfb, 0x21, 0x09, 0x40],
        Endian::Little,
    ));
    assert!((got - std::f64::consts::PI).abs() < f64::EPSILON);
}

#[test]
fn test_bulk_words() {
    let bytes: Vec<u8> = vec![0x01, 0x02, 0x03, 0x04, 0x05, 0x06, 0x07, 0x08];
    let be = vec_u64_from_bytes(&bytes, Endian::Big);
    assert_eq!(be, vec![0x0102030405060708]);
    let le = vec_u16_from_bytes(&bytes, Endian::Little);
    assert_eq!(le, vec![0x0201, 0x0403, 0x0605, 0x0807]);
}

#[test]
fn test_widen_matches_hardware_cast() {
    let cases: [f32; 9] = [
        0.0,
        -0.0,
        1.0,
        -1.5,
        3.14159274,
        f32::MIN_POSITIVE,
        1.0e-40,
        f32::INFINITY,
        f32::NEG_INFINITY,
    ];
    for x in cases {
        assert_eq!(widen_f32_bits(x.to_bits()), (x as f64).to_bits());
    }
    let subnormal = f32::from_bits(1);
    assert_eq!(widen_f32_bits(subnormal.to_bits()), (subnormal as f64).to_bits());
}

#[test]
fn test_words_round_trip_bytes() {
    let bytes: Vec<u8> = (1..=16).collect();
    let w = vec_u64_from_bytes(&bytes, Endian::Big);
    let back: Vec<u8> = w.iter().flat_map(|x| x.to_be_bytes()).collect();
    assert_eq!(back, bytes);
    let w = vec_u16_from_bytes(&bytes, Endian::Little);
    let back: Vec<u8> = w.iter().flat_map(|x| x.to_le_bytes()).collect();
    assert_eq!(back, bytes);
}
