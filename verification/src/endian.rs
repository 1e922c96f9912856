//! Reading fixed-width integers in either byte order, and reinterpreting a
//! byte buffer as a typed numeric sequence with endian correction.
//!
//! The specification vocabulary builds on vstd's little-endian byte
//! conversions: a big-endian value is the little-endian value of the
//! reversed bytes. Floating-point payloads are handled as the bit patterns
//! of their unsigned widths, so every conversion here is integer code.

use vstd::arithmetic::power2::pow2;
use vstd::bytes::*;
use vstd::prelude::*;
use vstd::slice::*;

use crate::structures::Endian;
use crate::structures::FrameError;

verus! {

/// Value of a 2-byte field stored in the given byte order.
pub open spec fn spec_u16_of(s: Seq<u8>, e: Endian) -> u16 {
    match e {
        Endian::Little => spec_u16_from_le_bytes(s),
        Endian::Big => spec_u16_from_le_bytes(s.reverse()),
    }
}

/// Value of a 4-byte field stored in the given byte order.
pub open spec fn spec_u32_of(s: Seq<u8>, e: Endian) -> u32 {
    match e {
        Endian::Little => spec_u32_from_le_bytes(s),
        Endian::Big => spec_u32_from_le_bytes(s.reverse()),
    }
}

/// Value of an 8-byte field stored in the given byte order.
pub open spec fn spec_u64_of(s: Seq<u8>, e: Endian) -> u64 {
    match e {
        Endian::Little => spec_u64_from_le_bytes(s),
        Endian::Big => spec_u64_from_le_bytes(s.reverse()),
    }
}

/// The 2 bytes that store a value in the given byte order.
pub open spec fn spec_u16_bytes(x: u16, e: Endian) -> Seq<u8> {
    match e {
        Endian::Little => spec_u16_to_le_bytes(x),
        Endian::Big => spec_u16_to_le_bytes(x).reverse(),
    }
}

/// The 4 bytes that store a value in the given byte order.
pub open spec fn spec_u32_bytes(x: u32, e: Endian) -> Seq<u8> {
    match e {
        Endian::Little => spec_u32_to_le_bytes(x),
        Endian::Big => spec_u32_to_le_bytes(x).reverse(),
    }
}

/// The 8 bytes that store a value in the given byte order.
pub open spec fn spec_u64_bytes(x: u64, e: Endian) -> Seq<u8> {
    match e {
        Endian::Little => spec_u64_to_le_bytes(x),
        Endian::Big => spec_u64_to_le_bytes(x).reverse(),
    }
}

/// The signed value whose two's-complement bits are `u`.
pub open spec fn spec_i16_of_bits(u: u16) -> i16 {
    if u < 0x8000 {
        u as i16
    } else {
        (u - 0x10000) as i16
    }
}

/// The signed value whose two's-complement bits are `u`.
pub open spec fn spec_i32_of_bits(u: u32) -> i32 {
    if u < 0x8000_0000 {
        u as i32
    } else {
        (u - 0x1_0000_0000) as i32
    }
}

/// The signed value whose two's-complement bits are `u`.
pub open spec fn spec_i64_of_bits(u: u64) -> i64 {
    if u < 0x8000_0000_0000_0000 {
        u as i64
    } else {
        (u - 0x1_0000_0000_0000_0000) as i64
    }
}

/// The signed value whose two's-complement bits are `u`.
pub open spec fn spec_i8_of_bits(u: u8) -> i8 {
    if u < 0x80 {
        u as i8
    } else {
        (u - 0x100) as i8
    }
}

proof fn lemma_reverse_reverse(s: Seq<u8>)
    ensures
        s.reverse().reverse() == s,
{
    assert(s.reverse().reverse() =~= s);
}

/// Round trip between a byte pair and its stored value, in both byte orders.
pub proof fn lemma_u16_round_trip(s: Seq<u8>, x: u16, e: Endian)
    ensures
        s.len() == 2 ==> spec_u16_bytes(spec_u16_of(s, e), e) == s,
        spec_u16_of(spec_u16_bytes(x, e), e) == x,
        spec_u16_bytes(x, e).len() == 2,
{
    lemma_auto_spec_u16_to_from_le_bytes();
    if s.len() == 2 {
        lemma_reverse_reverse(s);
    }
    match e {
        Endian::Little => {},
        Endian::Big => {
            lemma_reverse_reverse(spec_u16_to_le_bytes(x));
        },
    }
}

/// Round trip between 4 bytes and their stored value, in both byte orders.
pub proof fn lemma_u32_round_trip(s: Seq<u8>, x: u32, e: Endian)
    ensures
        s.len() == 4 ==> spec_u32_bytes(spec_u32_of(s, e), e) == s,
        spec_u32_of(spec_u32_bytes(x, e), e) == x,
        spec_u32_bytes(x, e).len() == 4,
{
    lemma_auto_spec_u32_to_from_le_bytes();
    if s.len() == 4 {
        lemma_reverse_reverse(s);
    }
    match e {
        Endian::Little => {},
        Endian::Big => {
            lemma_reverse_reverse(spec_u32_to_le_bytes(x));
        },
    }
}

/// Round trip between 8 bytes and their stored value, in both byte orders.
pub proof fn lemma_u64_round_trip(s: Seq<u8>, x: u64, e: Endian)
    ensures
        s.len() == 8 ==> spec_u64_bytes(spec_u64_of(s, e), e) == s,
        spec_u64_of(spec_u64_bytes(x, e), e) == x,
        spec_u64_bytes(x, e).len() == 8,
{
    lemma_auto_spec_u64_to_from_le_bytes();
    if s.len() == 8 {
        lemma_reverse_reverse(s);
    }
    match e {
        Endian::Little => {},
        Endian::Big => {
            lemma_reverse_reverse(spec_u64_to_le_bytes(x));
        },
    }
}

/// Reads a byte; the byte order is irrelevant at width one.
pub fn u8_from_bytes(bytes: &[u8], e: Endian) -> (r: u8)
    requires
        bytes@.len() == 1,
    ensures
        r == bytes@[0],
{
    let _ = e;
    *slice_index_get(bytes, 0)
}

pub fn i8_from_bytes(bytes: &[u8], e: Endian) -> (r: i8)
    requires
        bytes@.len() == 1,
    ensures
        r == spec_i8_of_bits(bytes@[0]),
{
    let b = u8_from_bytes(bytes, e);
    if b < 0x80 {
        b as i8
    } else {
        ((b - 0x80) as i8) + i8::MIN
    }
}

pub fn u16_from_bytes(bytes: &[u8], e: Endian) -> (r: u16)
    requires
        bytes@.len() == 2,
    ensures
        r == spec_u16_of(bytes@, e),
{
    match e {
        Endian::Little => u16_from_le_bytes(bytes),
        Endian::Big => {
            let mut v: Vec<u8> = Vec::new();
            v.push(*slice_index_get(bytes, 1));
            v.push(*slice_index_get(bytes, 0));
            proof {
                assert(v@ =~= bytes@.reverse());
            }
            u16_from_le_bytes(v.as_slice())
        },
    }
}

pub fn i16_from_bytes(bytes: &[u8], e: Endian) -> (r: i16)
    requires
        bytes@.len() == 2,
    ensures
        r == spec_i16_of_bits(spec_u16_of(bytes@, e)),
{
    let u = u16_from_bytes(bytes, e);
    if u < 0x8000 {
        u as i16
    } else {
        ((u - 0x8000) as i16) + i16::MIN
    }
}

pub fn u32_from_bytes(bytes: &[u8], e: Endian) -> (r: u32)
    requires
        bytes@.len() == 4,
    ensures
        r == spec_u32_of(bytes@, e),
{
    match e {
        Endian::Little => u32_from_le_bytes(bytes),
        Endian::Big => {
            let mut v: Vec<u8> = Vec::new();
            v.push(*slice_index_get(bytes, 3));
            v.push(*slice_index_get(bytes, 2));
            v.push(*slice_index_get(bytes, 1));
            v.push(*slice_index_get(bytes, 0));
            proof {
                assert(v@ =~= bytes@.reverse());
            }
            u32_from_le_bytes(v.as_slice())
        },
    }
}

pub fn i32_from_bytes(bytes: &[u8], e: Endian) -> (r: i32)
    requires
        bytes@.len() == 4,
    ensures
        r == spec_i32_of_bits(spec_u32_of(bytes@, e)),
{
    let u = u32_from_bytes(bytes, e);
    if u < 0x8000_0000 {
        u as i32
    } else {
        ((u - 0x8000_0000) as i32) + i32::MIN
    }
}

pub fn u64_from_bytes(bytes: &[u8], e: Endian) -> (r: u64)
    requires
        bytes@.len() == 8,
    ensures
        r == spec_u64_of(bytes@, e),
{
    match e {
        Endian::Little => u64_from_le_bytes(bytes),
        Endian::Big => {
            let mut v: Vec<u8> = Vec::new();
            v.push(*slice_index_get(bytes, 7));
            v.push(*slice_index_get(bytes, 6));
            v.push(*slice_index_get(bytes, 5));
            v.push(*slice_index_get(bytes, 4));
            v.push(*slice_index_get(bytes, 3));
            v.push(*slice_index_get(bytes, 2));
            v.push(*slice_index_get(bytes, 1));
            v.push(*slice_index_get(bytes, 0));
            proof {
                assert(v@ =~= bytes@.reverse());
            }
            u64_from_le_bytes(v.as_slice())
        },
    }
}

pub fn i64_from_bytes(bytes: &[u8], e: Endian) -> (r: i64)
    requires
        bytes@.len() == 8,
    ensures
        r == spec_i64_of_bits(spec_u64_of(bytes@, e)),
{
    let u = u64_from_bytes(bytes, e);
    if u < 0x8000_0000_0000_0000 {
        u as i64
    } else {
        ((u - 0x8000_0000_0000_0000) as i64) + i64::MIN
    }
}

/// The word sequence packed in a byte buffer, two bytes per word.
pub open spec fn spec_words16(s: Seq<u8>, e: Endian) -> Seq<u16> {
    Seq::new((s.len() / 2) as nat, |i: int| spec_u16_of(s.subrange(2 * i, 2 * i + 2), e))
}

/// The word sequence packed in a byte buffer, four bytes per word.
pub open spec fn spec_words32(s: Seq<u8>, e: Endian) -> Seq<u32> {
    Seq::new((s.len() / 4) as nat, |i: int| spec_u32_of(s.subrange(4 * i, 4 * i + 4), e))
}

/// The word sequence packed in a byte buffer, eight bytes per word.
pub open spec fn spec_words64(s: Seq<u8>, e: Endian) -> Seq<u64> {
    Seq::new((s.len() / 8) as nat, |i: int| spec_u64_of(s.subrange(8 * i, 8 * i + 8), e))
}

/// The byte buffer that stores a word sequence, two bytes per word.
pub open spec fn spec_bytes_of_words16(w: Seq<u16>, e: Endian) -> Seq<u8>
    decreases w.len(),
{
    if w.len() == 0 {
        Seq::empty()
    } else {
        spec_u16_bytes(w[0], e) + spec_bytes_of_words16(w.drop_first(), e)
    }
}

/// The byte buffer that stores a word sequence, four bytes per word.
pub open spec fn spec_bytes_of_words32(w: Seq<u32>, e: Endian) -> Seq<u8>
    decreases w.len(),
{
    if w.len() == 0 {
        Seq::empty()
    } else {
        spec_u32_bytes(w[0], e) + spec_bytes_of_words32(w.drop_first(), e)
    }
}

/// The byte buffer that stores a word sequence, eight bytes per word.
pub open spec fn spec_bytes_of_words64(w: Seq<u64>, e: Endian) -> Seq<u8>
    decreases w.len(),
{
    if w.len() == 0 {
        Seq::empty()
    } else {
        spec_u64_bytes(w[0], e) + spec_bytes_of_words64(w.drop_first(), e)
    }
}

pub proof fn lemma_bytes_of_words64_len(w: Seq<u64>, e: Endian)
    ensures
        spec_bytes_of_words64(w, e).len() == 8 * w.len(),
    decreases w.len(),
{
    if w.len() != 0 {
        lemma_u64_round_trip(Seq::empty(), w[0], e);
        lemma_bytes_of_words64_len(w.drop_first(), e);
    }
}

/// Reinterpreting a packed word buffer and then serialising it again is the
/// identity on the byte content; serialising a word sequence and
/// reinterpreting the bytes is the identity on the words. Together: endian
/// reinterpretation of a payload of 8-byte elements loses nothing, in either
/// byte order.
pub proof fn lemma_words64_round_trip(s: Seq<u8>, w: Seq<u64>, e: Endian)
    ensures
        s.len() % 8 == 0 ==> spec_bytes_of_words64(spec_words64(s, e), e) == s,
        spec_words64(spec_bytes_of_words64(w, e), e) == w,
{
    if s.len() % 8 == 0 {
        lemma_bytes_of_words64_of(s, e);
    }
    lemma_words64_of_bytes_of(w, e);
}

proof fn lemma_words64_of_bytes_of(w: Seq<u64>, e: Endian)
    ensures
        spec_words64(spec_bytes_of_words64(w, e), e) == w,
    decreases w.len(),
{
    lemma_bytes_of_words64_len(w, e);
    if w.len() == 0 {
        assert(spec_words64(spec_bytes_of_words64(w, e), e) =~= w);
    } else {
        let h = spec_u64_bytes(w[0], e);
        let t = spec_bytes_of_words64(w.drop_first(), e);
        lemma_u64_round_trip(Seq::empty(), w[0], e);
        lemma_bytes_of_words64_len(w.drop_first(), e);
        lemma_words64_of_bytes_of(w.drop_first(), e);
        assert forall|i: int| 0 <= i < w.len() implies spec_words64(h + t, e)[i] == w[i] by {
            if i == 0 {
                assert((h + t).subrange(0, 8) =~= h);
                lemma_u64_round_trip(h, w[0], e);
            } else {
                assert((h + t).subrange(8 * i, 8 * i + 8) =~= t.subrange(
                    8 * (i - 1),
                    8 * (i - 1) + 8,
                ));
                assert(spec_words64(t, e)[i - 1] == w.drop_first()[i - 1]);
            }
        }
        assert(spec_words64(spec_bytes_of_words64(w, e), e) =~= w);
    }
}

proof fn lemma_bytes_of_words64_of(s: Seq<u8>, e: Endian)
    requires
        s.len() % 8 == 0,
    ensures
        spec_bytes_of_words64(spec_words64(s, e), e) == s,
    decreases s.len(),
{
    if s.len() == 0 {
        assert(spec_bytes_of_words64(spec_words64(s, e), e) =~= s);
    } else {
        let h = s.subrange(0, 8);
        let t = s.subrange(8, s.len() as int);
        assert(t.len() % 8 == 0);
        lemma_bytes_of_words64_of(t, e);
        let ws = spec_words64(s, e);
        assert(ws.len() >= 1);
        assert(ws.drop_first() =~= spec_words64(t, e)) by {
            assert forall|i: int| 0 <= i < ws.len() - 1 implies ws.drop_first()[i] == spec_words64(
                t,
                e,
            )[i] by {
                assert(s.subrange(8 * (i + 1), 8 * (i + 1) + 8) =~= t.subrange(8 * i, 8 * i + 8));
            }
        }
        assert(ws[0] == spec_u64_of(h, e)) by {
            assert(s.subrange(0, 8) =~= h);
        }
        lemma_u64_round_trip(h, 0, e);
        assert(spec_bytes_of_words64(ws, e) == spec_u64_bytes(ws[0], e) + spec_bytes_of_words64(
            ws.drop_first(),
            e,
        ));
        assert(h + t =~= s);
    }
}

pub proof fn lemma_bytes_of_words32_len(w: Seq<u32>, e: Endian)
    ensures
        spec_bytes_of_words32(w, e).len() == 4 * w.len(),
    decreases w.len(),
{
    if w.len() != 0 {
        lemma_u32_round_trip(Seq::empty(), w[0], e);
        lemma_bytes_of_words32_len(w.drop_first(), e);
    }
}

/// As [`lemma_words64_round_trip`], for payloads of 4-byte elements.
pub proof fn lemma_words32_round_trip(s: Seq<u8>, w: Seq<u32>, e: Endian)
    ensures
        s.len() % 4 == 0 ==> spec_bytes_of_words32(spec_words32(s, e), e) == s,
        spec_words32(spec_bytes_of_words32(w, e), e) == w,
{
    if s.len() % 4 == 0 {
        lemma_bytes_of_words32_of(s, e);
    }
    lemma_words32_of_bytes_of(w, e);
}

proof fn lemma_words32_of_bytes_of(w: Seq<u32>, e: Endian)
    ensures
        spec_words32(spec_bytes_of_words32(w, e), e) == w,
    decreases w.len(),
{
    lemma_bytes_of_words32_len(w, e);
    if w.len() == 0 {
        assert(spec_words32(spec_bytes_of_words32(w, e), e) =~= w);
    } else {
        let h = spec_u32_bytes(w[0], e);
        let t = spec_bytes_of_words32(w.drop_first(), e);
        lemma_u32_round_trip(Seq::empty(), w[0], e);
        lemma_bytes_of_words32_len(w.drop_first(), e);
        lemma_words32_of_bytes_of(w.drop_first(), e);
        assert forall|i: int| 0 <= i < w.len() implies spec_words32(h + t, e)[i] == w[i] by {
            if i == 0 {
                assert((h + t).subrange(0, 4) =~= h);
                lemma_u32_round_trip(h, w[0], e);
            } else {
                assert((h + t).subrange(4 * i, 4 * i + 4) =~= t.subrange(
                    4 * (i - 1),
                    4 * (i - 1) + 4,
                ));
                assert(spec_words32(t, e)[i - 1] == w.drop_first()[i - 1]);
            }
        }
        assert(spec_words32(spec_bytes_of_words32(w, e), e) =~= w);
    }
}

proof fn lemma_bytes_of_words32_of(s: Seq<u8>, e: Endian)
    requires
        s.len() % 4 == 0,
    ensures
        spec_bytes_of_words32(spec_words32(s, e), e) == s,
    decreases s.len(),
{
    if s.len() == 0 {
        assert(spec_bytes_of_words32(spec_words32(s, e), e) =~= s);
    } else {
        let h = s.subrange(0, 4);
        let t = s.subrange(4, s.len() as int);
        assert(t.len() % 4 == 0);
        lemma_bytes_of_words32_of(t, e);
        let ws = spec_words32(s, e);
        assert(ws.len() >= 1);
        assert(ws.drop_first() =~= spec_words32(t, e)) by {
            assert forall|i: int| 0 <= i < ws.len() - 1 implies ws.drop_first()[i] == spec_words32(
                t,
                e,
            )[i] by {
                assert(s.subrange(4 * (i + 1), 4 * (i + 1) + 4) =~= t.subrange(4 * i, 4 * i + 4));
            }
        }
        assert(ws[0] == spec_u32_of(h, e)) by {
            assert(s.subrange(0, 4) =~= h);
        }
        lemma_u32_round_trip(h, 0, e);
        assert(spec_bytes_of_words32(ws, e) == spec_u32_bytes(ws[0], e) + spec_bytes_of_words32(
            ws.drop_first(),
            e,
        ));
        assert(h + t =~= s);
    }
}

pub proof fn lemma_bytes_of_words16_len(w: Seq<u16>, e: Endian)
    ensures
        spec_bytes_of_words16(w, e).len() == 2 * w.len(),
    decreases w.len(),
{
    if w.len() != 0 {
        lemma_u16_round_trip(Seq::empty(), w[0], e);
        lemma_bytes_of_words16_len(w.drop_first(), e);
    }
}

/// As [`lemma_words64_round_trip`], for payloads of 2-byte elements.
pub proof fn lemma_words16_round_trip(s: Seq<u8>, w: Seq<u16>, e: Endian)
    ensures
        s.len() % 2 == 0 ==> spec_bytes_of_words16(spec_words16(s, e), e) == s,
        spec_words16(spec_bytes_of_words16(w, e), e) == w,
{
    if s.len() % 2 == 0 {
        lemma_bytes_of_words16_of(s, e);
    }
    lemma_words16_of_bytes_of(w, e);
}

proof fn lemma_words16_of_bytes_of(w: Seq<u16>, e: Endian)
    ensures
        spec_words16(spec_bytes_of_words16(w, e), e) == w,
    decreases w.len(),
{
    lemma_bytes_of_words16_len(w, e);
    if w.len() == 0 {
        assert(spec_words16(spec_bytes_of_words16(w, e), e) =~= w);
    } else {
        let h = spec_u16_bytes(w[0], e);
        let t = spec_bytes_of_words16(w.drop_first(), e);
        lemma_u16_round_trip(Seq::empty(), w[0], e);
        lemma_bytes_of_words16_len(w.drop_first(), e);
        lemma_words16_of_bytes_of(w.drop_first(), e);
        assert forall|i: int| 0 <= i < w.len() implies spec_words16(h + t, e)[i] == w[i] by {
            if i == 0 {
                assert((h + t).subrange(0, 2) =~= h);
                lemma_u16_round_trip(h, w[0], e);
            } else {
                assert((h + t).subrange(2 * i, 2 * i + 2) =~= t.subrange(
                    2 * (i - 1),
                    2 * (i - 1) + 2,
                ));
                assert(spec_words16(t, e)[i - 1] == w.drop_first()[i - 1]);
            }
        }
        assert(spec_words16(spec_bytes_of_words16(w, e), e) =~= w);
    }
}

proof fn lemma_bytes_of_words16_of(s: Seq<u8>, e: Endian)
    requires
        s.len() % 2 == 0,
    ensures
        spec_bytes_of_words16(spec_words16(s, e), e) == s,
    decreases s.len(),
{
    if s.len() == 0 {
        assert(spec_bytes_of_words16(spec_words16(s, e), e) =~= s);
    } else {
        let h = s.subrange(0, 2);
        let t = s.subrange(2, s.len() as int);
        assert(t.len() % 2 == 0);
        lemma_bytes_of_words16_of(t, e);
        let ws = spec_words16(s, e);
        assert(ws.len() >= 1);
        assert(ws.drop_first() =~= spec_words16(t, e)) by {
            assert forall|i: int| 0 <= i < ws.len() - 1 implies ws.drop_first()[i] == spec_words16(
                t,
                e,
            )[i] by {
                assert(s.subrange(2 * (i + 1), 2 * (i + 1) + 2) =~= t.subrange(2 * i, 2 * i + 2));
            }
        }
        assert(ws[0] == spec_u16_of(h, e)) by {
            assert(s.subrange(0, 2) =~= h);
        }
        lemma_u16_round_trip(h, 0, e);
        assert(spec_bytes_of_words16(ws, e) == spec_u16_bytes(ws[0], e) + spec_bytes_of_words16(
            ws.drop_first(),
            e,
        ));
        assert(h + t =~= s);
    }
}

/// Reinterprets a packed byte buffer as 16-bit words in the given byte
/// order, by per-element copy into a fresh typed buffer.
#[verifier::loop_isolation(false)]
pub fn vec_u16_from_bytes(src: &[u8], e: Endian) -> (r: Vec<u16>)
    requires
        src@.len() % 2 == 0,
    ensures
        r@ == spec_words16(src@, e),
{
    let n = src.len() / 2;
    let mut r: Vec<u16> = Vec::new();
    let mut i: usize = 0;
    while i < n
        invariant
            i <= n,
            n == src@.len() / 2,
            src@.len() % 2 == 0,
            2 * n == src@.len(),
            r@.len() == i,
            forall|j: int|
                0 <= j < i ==> r@[j] == spec_u16_of(src@.subrange(2 * j, 2 * j + 2), e),
        decreases n - i,
    {
        let chunk = slice_subrange(src, 2 * i, 2 * i + 2);
        r.push(u16_from_bytes(chunk, e));
        i += 1;
    }
    proof {
        assert(r@ =~= spec_words16(src@, e));
    }
    r
}

/// As [`vec_u16_from_bytes`], reading each word as a signed value.
#[verifier::loop_isolation(false)]
pub fn vec_i16_from_bytes(src: &[u8], e: Endian) -> (r: Vec<i16>)
    requires
        src@.len() % 2 == 0,
    ensures
        r@ == spec_words16(src@, e).map_values(|u: u16| spec_i16_of_bits(u)),
{
    let n = src.len() / 2;
    let mut r: Vec<i16> = Vec::new();
    let mut i: usize = 0;
    while i < n
        invariant
            i <= n,
            n == src@.len() / 2,
            src@.len() % 2 == 0,
            2 * n == src@.len(),
            r@.len() == i,
            forall|j: int|
                0 <= j < i ==> r@[j] == spec_i16_of_bits(
                    spec_u16_of(src@.subrange(2 * j, 2 * j + 2), e),
                ),
        decreases n - i,
    {
        let chunk = slice_subrange(src, 2 * i, 2 * i + 2);
        r.push(i16_from_bytes(chunk, e));
        i += 1;
    }
    proof {
        assert(r@ =~= spec_words16(src@, e).map_values(|u: u16| spec_i16_of_bits(u)));
    }
    r
}

/// Reinterprets a packed byte buffer as 32-bit words in the given byte
/// order, by per-element copy into a fresh typed buffer.
#[verifier::loop_isolation(false)]
pub fn vec_u32_from_bytes(src: &[u8], e: Endian) -> (r: Vec<u32>)
    requires
        src@.len() % 4 == 0,
    ensures
        r@ == spec_words32(src@, e),
{
    let n = src.len() / 4;
    let mut r: Vec<u32> = Vec::new();
    let mut i: usize = 0;
    while i < n
        invariant
            i <= n,
            n == src@.len() / 4,
            src@.len() % 4 == 0,
            4 * n == src@.len(),
            r@.len() == i,
            forall|j: int|
                0 <= j < i ==> r@[j] == spec_u32_of(src@.subrange(4 * j, 4 * j + 4), e),
        decreases n - i,
    {
        let chunk = slice_subrange(src, 4 * i, 4 * i + 4);
        r.push(u32_from_bytes(chunk, e));
        i += 1;
    }
    proof {
        assert(r@ =~= spec_words32(src@, e));
    }
    r
}

/// As [`vec_u32_from_bytes`], reading each word as a signed value.
#[verifier::loop_isolation(false)]
pub fn vec_i32_from_bytes(src: &[u8], e: Endian) -> (r: Vec<i32>)
    requires
        src@.len() % 4 == 0,
    ensures
        r@ == spec_words32(src@, e).map_values(|u: u32| spec_i32_of_bits(u)),
{
    let n = src.len() / 4;
    let mut r: Vec<i32> = Vec::new();
    let mut i: usize = 0;
    while i < n
        invariant
            i <= n,
            n == src@.len() / 4,
            src@.len() % 4 == 0,
            4 * n == src@.len(),
            r@.len() == i,
            forall|j: int|
                0 <= j < i ==> r@[j] == spec_i32_of_bits(
                    spec_u32_of(src@.subrange(4 * j, 4 * j + 4), e),
                ),
        decreases n - i,
    {
        let chunk = slice_subrange(src, 4 * i, 4 * i + 4);
        r.push(i32_from_bytes(chunk, e));
        i += 1;
    }
    proof {
        assert(r@ =~= spec_words32(src@, e).map_values(|u: u32| spec_i32_of_bits(u)));
    }
    r
}

/// Reinterprets a packed byte buffer as 64-bit words in the given byte
/// order, by per-element copy into a fresh typed buffer.
#[verifier::loop_isolation(false)]
pub fn vec_u64_from_bytes(src: &[u8], e: Endian) -> (r: Vec<u64>)
    requires
        src@.len() % 8 == 0,
    ensures
        r@ == spec_words64(src@, e),
{
    let n = src.len() / 8;
    let mut r: Vec<u64> = Vec::new();
    let mut i: usize = 0;
    while i < n
        invariant
            i <= n,
            n == src@.len() / 8,
            src@.len() % 8 == 0,
            8 * n == src@.len(),
            r@.len() == i,
            forall|j: int|
                0 <= j < i ==> r@[j] == spec_u64_of(src@.subrange(8 * j, 8 * j + 8), e),
        decreases n - i,
    {
        let chunk = slice_subrange(src, 8 * i, 8 * i + 8);
        r.push(u64_from_bytes(chunk, e));
        i += 1;
    }
    proof {
        assert(r@ =~= spec_words64(src@, e));
    }
    r
}

/// As [`vec_u64_from_bytes`], reading each word as a signed value.
#[verifier::loop_isolation(false)]
pub fn vec_i64_from_bytes(src: &[u8], e: Endian) -> (r: Vec<i64>)
    requires
        src@.len() % 8 == 0,
    ensures
        r@ == spec_words64(src@, e).map_values(|u: u64| spec_i64_of_bits(u)),
{
    let n = src.len() / 8;
    let mut r: Vec<i64> = Vec::new();
    let mut i: usize = 0;
    while i < n
        invariant
            i <= n,
            n == src@.len() / 8,
            src@.len() % 8 == 0,
            8 * n == src@.len(),
            r@.len() == i,
            forall|j: int|
                0 <= j < i ==> r@[j] == spec_i64_of_bits(
                    spec_u64_of(src@.subrange(8 * j, 8 * j + 8), e),
                ),
        decreases n - i,
    {
        let chunk = slice_subrange(src, 8 * i, 8 * i + 8);
        r.push(i64_from_bytes(chunk, e));
        i += 1;
    }
    proof {
        assert(r@ =~= spec_words64(src@, e).map_values(|u: u64| spec_i64_of_bits(u)));
    }
    r
}

/// Reinterprets a byte buffer as signed bytes.
#[verifier::loop_isolation(false)]
pub fn vec_i8_from_bytes(src: &[u8]) -> (r: Vec<i8>)
    ensures
        r@ == src@.map_values(|u: u8| spec_i8_of_bits(u)),
{
    let n = src.len();
    let mut r: Vec<i8> = Vec::new();
    let mut i: usize = 0;
    while i < n
        invariant
            i <= n,
            n == src@.len(),
            r@.len() == i,
            forall|j: int| 0 <= j < i ==> r@[j] == spec_i8_of_bits(src@[j]),
        decreases n - i,
    {
        let chunk = slice_subrange(src, i, i + 1);
        r.push(i8_from_bytes(chunk, Endian::Little));
        i += 1;
    }
    proof {
        assert(r@ =~= src@.map_values(|u: u8| spec_i8_of_bits(u)));
    }
    r
}

/// Value of the 2-byte field at offset `p`.
pub open spec fn spec_u16_at(s: Seq<u8>, p: int, e: Endian) -> u16 {
    spec_u16_of(s.subrange(p, p + 2), e)
}

/// Value of the 4-byte field at offset `p`.
pub open spec fn spec_u32_at(s: Seq<u8>, p: int, e: Endian) -> u32 {
    spec_u32_of(s.subrange(p, p + 4), e)
}

/// Value of the 8-byte field at offset `p`.
pub open spec fn spec_u64_at(s: Seq<u8>, p: int, e: Endian) -> u64 {
    spec_u64_of(s.subrange(p, p + 8), e)
}

/// Signed value of the 4-byte field at offset `p`.
pub open spec fn spec_i32_at(s: Seq<u8>, p: int, e: Endian) -> i32 {
    spec_i32_of_bits(spec_u32_at(s, p, e))
}

/// Reads the byte at the cursor and advances it, within the bound `limit`.
pub fn read_u8(bytes: &[u8], pos: &mut usize, limit: usize) -> (r: Result<u8, FrameError>)
    requires
        *old(pos) <= limit,
        limit <= bytes@.len(),
    ensures
        *final(pos) <= limit,
        match r {
            Ok(v) => *old(pos) + 1 <= limit && *final(pos) == *old(pos) + 1 && v == bytes@[*old(
                pos,
            ) as int],
            Err(er) => er == FrameError::ShortRead && *old(pos) + 1 > limit && *final(pos) == *old(
                pos,
            ),
        },
{
    if limit - *pos < 1 {
        return Err(FrameError::ShortRead);
    }
    let v = *slice_index_get(bytes, *pos);
    *pos = *pos + 1;
    Ok(v)
}

/// Reads the 2-byte field at the cursor and advances it, within `limit`.
pub fn read_u16(bytes: &[u8], pos: &mut usize, limit: usize, e: Endian) -> (r: Result<
    u16,
    FrameError,
>)
    requires
        *old(pos) <= limit,
        limit <= bytes@.len(),
    ensures
        *final(pos) <= limit,
        match r {
            Ok(v) => *old(pos) + 2 <= limit && *final(pos) == *old(pos) + 2 && v == spec_u16_at(
                bytes@,
                *old(pos) as int,
                e,
            ),
            Err(er) => er == FrameError::ShortRead && *old(pos) + 2 > limit && *final(pos) == *old(
                pos,
            ),
        },
{
    if limit - *pos < 2 {
        return Err(FrameError::ShortRead);
    }
    let chunk = slice_subrange(bytes, *pos, *pos + 2);
    let v = u16_from_bytes(chunk, e);
    *pos = *pos + 2;
    Ok(v)
}

/// Reads the 4-byte field at the cursor and advances it, within `limit`.
pub fn read_u32(bytes: &[u8], pos: &mut usize, limit: usize, e: Endian) -> (r: Result<
    u32,
    FrameError,
>)
    requires
        *old(pos) <= limit,
        limit <= bytes@.len(),
    ensures
        *final(pos) <= limit,
        match r {
            Ok(v) => *old(pos) + 4 <= limit && *final(pos) == *old(pos) + 4 && v == spec_u32_at(
                bytes@,
                *old(pos) as int,
                e,
            ),
            Err(er) => er == FrameError::ShortRead && *old(pos) + 4 > limit && *final(pos) == *old(
                pos,
            ),
        },
{
    if limit - *pos < 4 {
        return Err(FrameError::ShortRead);
    }
    let chunk = slice_subrange(bytes, *pos, *pos + 4);
    let v = u32_from_bytes(chunk, e);
    *pos = *pos + 4;
    Ok(v)
}

/// Reads the 8-byte field at the cursor and advances it, within `limit`.
pub fn read_u64(bytes: &[u8], pos: &mut usize, limit: usize, e: Endian) -> (r: Result<
    u64,
    FrameError,
>)
    requires
        *old(pos) <= limit,
        limit <= bytes@.len(),
    ensures
        *final(pos) <= limit,
        match r {
            Ok(v) => *old(pos) + 8 <= limit && *final(pos) == *old(pos) + 8 && v == spec_u64_at(
                bytes@,
                *old(pos) as int,
                e,
            ),
            Err(er) => er == FrameError::ShortRead && *old(pos) + 8 > limit && *final(pos) == *old(
                pos,
            ),
        },
{
    if limit - *pos < 8 {
        return Err(FrameError::ShortRead);
    }
    let chunk = slice_subrange(bytes, *pos, *pos + 8);
    let v = u64_from_bytes(chunk, e);
    *pos = *pos + 8;
    Ok(v)
}

/// Reads the 4-byte field at the cursor as a signed value and advances it.
pub fn read_i32(bytes: &[u8], pos: &mut usize, limit: usize, e: Endian) -> (r: Result<
    i32,
    FrameError,
>)
    requires
        *old(pos) <= limit,
        limit <= bytes@.len(),
    ensures
        *final(pos) <= limit,
        match r {
            Ok(v) => *old(pos) + 4 <= limit && *final(pos) == *old(pos) + 4 && v == spec_i32_at(
                bytes@,
                *old(pos) as int,
                e,
            ),
            Err(er) => er == FrameError::ShortRead && *old(pos) + 4 > limit && *final(pos) == *old(
                pos,
            ),
        },
{
    if limit - *pos < 4 {
        return Err(FrameError::ShortRead);
    }
    let chunk = slice_subrange(bytes, *pos, *pos + 4);
    let v = i32_from_bytes(chunk, e);
    *pos = *pos + 4;
    Ok(v)
}

/// Normalizes a subnormal single-precision significand: doubles the
/// significand and lowers the exponent until the significand reaches the
/// implied-one position.
pub open spec fn spec_normalize_sub(frac: nat, exp: int) -> (nat, int)
    decreases 0x1000000 - frac,
    when 1 <= frac < 0x1000000
{
    if frac >= 0x800000 {
        (frac, exp)
    } else {
        spec_normalize_sub(frac * 2, exp - 1)
    }
}

/// The IEEE-754 double bits that hold the same value as the single bits
/// `b`: the exact widening conversion. Infinities keep their sign, and a
/// NaN keeps its payload shifted into the wider significand.
pub open spec fn spec_widen_f32_bits(b: u32) -> u64 {
    let sign = (b as nat) / 0x8000_0000;
    let exp = ((b as nat) / 0x80_0000) % 0x100;
    let frac = (b as nat) % 0x80_0000;
    if exp == 0xFF {
        (sign * 0x8000_0000_0000_0000 + 0x7FF * 0x10_0000_0000_0000 + frac * 0x2000_0000) as u64
    } else if exp == 0 {
        if frac == 0 {
            (sign * 0x8000_0000_0000_0000) as u64
        } else {
            let (f, e) = spec_normalize_sub(frac, -126);
            (sign * 0x8000_0000_0000_0000 + ((e + 1023) as nat) * 0x10_0000_0000_0000 + (f
                - 0x80_0000) * 0x2000_0000) as u64
        }
    } else {
        (sign * 0x8000_0000_0000_0000 + (exp + 896) * 0x10_0000_0000_0000 + frac
            * 0x2000_0000) as u64
    }
}

proof fn lemma_normalize_sub(frac: nat, exp: int)
    requires
        1 <= frac < 0x1000000,
    ensures
        ({
            let (f, e) = spec_normalize_sub(frac, exp);
            &&& 0x800000 <= f < 0x1000000
            &&& e <= exp
            &&& f == frac * pow2((exp - e) as nat)
            &&& exp - e <= 23
        }),
    decreases 0x1000000 - frac,
{
    let (f, e) = spec_normalize_sub(frac, exp);
    if frac >= 0x800000 {
        assert(pow2(0) == 1) by {
            vstd::arithmetic::power2::lemma2_to64();
        }
    } else {
        lemma_normalize_sub(frac * 2, exp - 1);
        let k = (exp - 1 - e) as nat;
        assert(pow2(k + 1) == 2 * pow2(k)) by {
            vstd::arithmetic::power::lemma_pow_adds(2, k, 1);
            vstd::arithmetic::power::lemma_pow1(2);
            vstd::arithmetic::power::lemma_pow_positive(2, k);
        }
        assert(f == (frac * 2) * pow2(k));
        assert(f == frac * pow2(k + 1)) by (nonlinear_arith)
            requires
                f == (frac * 2) * pow2(k),
                pow2(k + 1) == 2 * pow2(k),
        ;
        if exp - e > 23 {
            assert(pow2(24) == 0x1000000) by {
                vstd::arithmetic::power2::lemma2_to64();
            }
            assert(pow2((exp - e) as nat) >= pow2(24)) by {
                if (exp - e) > 24 {
                    vstd::arithmetic::power::lemma_pow_strictly_increases(
                        2,
                        24,
                        (exp - e) as nat,
                    );
                }
            }
            assert(f >= pow2((exp - e) as nat)) by (nonlinear_arith)
                requires
                    f == frac * pow2((exp - e) as nat),
                    frac >= 1,
                    pow2((exp - e) as nat) >= 0,
            ;
            assert(false);
        }
    }
}

/// Widens single bits to the double bits of the same value.
#[verifier::loop_isolation(false)]
pub fn widen_f32_bits(b: u32) -> (r: u64)
    ensures
        r == spec_widen_f32_bits(b),
{
    let sign: u64 = (b / 0x8000_0000) as u64;
    let exp: u64 = ((b / 0x80_0000) % 0x100) as u64;
    let frac: u64 = (b % 0x80_0000) as u64;
    if exp == 0xFF {
        sign * 0x8000_0000_0000_0000 + 0x7FF * 0x10_0000_0000_0000 + frac * 0x2000_0000
    } else if exp == 0 {
        if frac == 0 {
            sign * 0x8000_0000_0000_0000
        } else {
            let mut f: u64 = frac;
            let mut e: i64 = -126;
            proof {
                lemma_normalize_sub(frac as nat, -126);
            }
            while f < 0x800000
                invariant
                    1 <= f < 0x1000000,
                    -149 <= e <= -126,
                    spec_normalize_sub(frac as nat, -126) == spec_normalize_sub(
                        f as nat,
                        e as int,
                    ),
                decreases 0x1000000 - f,
            {
                proof {
                    lemma_normalize_sub(f as nat, e as int);
                    lemma_normalize_sub((f * 2) as nat, (e - 1) as int);
                }
                f = f * 2;
                e = e - 1;
            }
            proof {
                lemma_normalize_sub(frac as nat, -126);
                assert(spec_normalize_sub(f as nat, e as int) == (f as nat, e as int));
            }
            sign * 0x8000_0000_0000_0000 + ((e + 1023) as u64) * 0x10_0000_0000_0000 + (f
                - 0x80_0000) * 0x2000_0000
        }
    } else {
        sign * 0x8000_0000_0000_0000 + (exp + 896) * 0x10_0000_0000_0000 + frac * 0x2000_0000
    }
}

/// The signed byte with the given bits.
pub fn i8_cast(b: u8) -> (r: i8)
    ensures
        r == spec_i8_of_bits(b),
{
    if b < 0x80 {
        b as i8
    } else {
        ((b - 0x80) as i8) + i8::MIN
    }
}

/// Whether single bits denote a value strictly below zero: the sign bit is
/// set and the magnitude is neither zero nor a NaN.
pub open spec fn spec_f32_bits_is_negative(b: u32) -> bool {
    0x8000_0000 < b && b <= 0xFF80_0000
}

pub fn f32_bits_is_negative(b: u32) -> (r: bool)
    ensures
        r == spec_f32_bits_is_negative(b),
{
    0x8000_0000 < b && b <= 0xFF80_0000
}

} // verus!
