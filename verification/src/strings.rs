//! The format's strings: a 16-bit length in file byte order, then exactly
//! that many bytes, of which the prefix up to the first NUL is the decoded
//! text. Bytes that are not valid UTF-8 are replaced with the replacement
//! character.

use vstd::prelude::*;
use vstd::slice::*;

use crate::endian::read_u16;
use crate::endian::spec_u16_at;
use crate::structures::Endian;
use crate::structures::FrameError;

verus! {

/// Index of the first NUL byte, or -1 when there is none.
pub open spec fn spec_first_nul(s: Seq<u8>) -> int
    decreases s.len(),
{
    if s.len() == 0 {
        -1
    } else if s[0] == 0 {
        0
    } else {
        let r = spec_first_nul(s.drop_first());
        if r < 0 {
            -1
        } else {
            r + 1
        }
    }
}

pub proof fn lemma_first_nul(s: Seq<u8>)
    ensures
        ({
            let k = spec_first_nul(s);
            &&& k >= -1
            &&& k >= 0 ==> 0 <= k < s.len() && s[k] == 0 && (forall|j: int|
                0 <= j < k ==> s[j] != 0)
            &&& k < 0 ==> forall|j: int| 0 <= j < s.len() ==> s[j] != 0
        }),
    decreases s.len(),
{
    if s.len() != 0 && s[0] != 0 {
        lemma_first_nul(s.drop_first());
        let r = spec_first_nul(s.drop_first());
        if r >= 0 {
            assert forall|j: int| 0 <= j < r + 1 implies s[j] != 0 by {
                if j > 0 {
                    assert(s.drop_first()[j - 1] != 0);
                }
            }
        } else {
            assert forall|j: int| 0 <= j < s.len() implies s[j] != 0 by {
                if j > 0 {
                    assert(s.drop_first()[j - 1] != 0);
                }
            }
        }
    }
}

/// What `String::from_utf8_lossy` makes of a byte sequence.
pub uninterp spec fn lossy_decode(bytes: Seq<u8>) -> Seq<char>;

/// Relies on `String::from_utf8_lossy`: the result depends on the bytes
/// alone, and valid UTF-8 comes back unchanged.
#[verifier::external_body]
fn utf8_lossy(bytes: &[u8]) -> (r: String)
    ensures
        r@ == lossy_decode(bytes@),
        vstd::utf8::valid_utf8(bytes@) ==> r@ == vstd::utf8::decode_utf8(bytes@),
{
    String::from_utf8_lossy(bytes).into_owned()
}

/// The decoded string starting at offset `p` and the offset just past its
/// stored bytes — valid UTF-8 text decodes exactly, anything else through
/// the replacement-character decoding — or the fault: a short read when the length prefix or the
/// declared bytes cross `lim`, a malformed string when the bytes hold no
/// NUL.
pub open spec fn spec_string_at(s: Seq<u8>, p: int, lim: int, e: Endian) -> Result<
    (Seq<char>, int),
    FrameError,
> {
    if p + 2 > lim {
        Err(FrameError::ShortRead)
    } else {
        let l = spec_u16_at(s, p, e) as int;
        if p + 2 + l > lim {
            Err(FrameError::ShortRead)
        } else {
            let content = s.subrange(p + 2, p + 2 + l);
            let k = spec_first_nul(content);
            if k < 0 {
                Err(FrameError::MalformedString)
            } else {
                let text = content.take(k);
                if vstd::utf8::valid_utf8(text) {
                    Ok((vstd::utf8::decode_utf8(text), p + 2 + l))
                } else {
                    Ok((lossy_decode(text), p + 2 + l))
                }
            }
        }
    }
}

/// Reads one length-prefixed, NUL-terminated string at the cursor and
/// advances the cursor past all the stored bytes.
pub fn string(bytes: &[u8], pos: &mut usize, limit: usize, e: Endian) -> (r: Result<
    String,
    FrameError,
>)
    requires
        *old(pos) <= limit,
        limit <= bytes@.len(),
    ensures
        *final(pos) <= limit,
        match r {
            Ok(st) => {
                &&& spec_string_at(bytes@, *old(pos) as int, limit as int, e) matches Ok(pair)
                &&& st@ == pair.0
                &&& *final(pos) == pair.1
            },
            Err(er) => spec_string_at(bytes@, *old(pos) as int, limit as int, e) == Err::<
                (Seq<char>, int),
                FrameError,
            >(er) && *final(pos) == *old(pos),
        },
{
    let mut p: usize = *pos;
    let l: u16 = match read_u16(bytes, &mut p, limit, e) {
        Ok(v) => v,
        Err(er) => {
            return Err(er);
        },
    };
    if limit - p < l as usize {
        return Err(FrameError::ShortRead);
    }
    let content = slice_subrange(bytes, p, p + l as usize);
    proof {
        lemma_first_nul(content@);
    }
    let mut k: usize = 0;
    let mut found: bool = false;
    while k < content.len() && !found
        invariant
            k <= content@.len(),
            content@.len() <= limit,
            found ==> k < content@.len() && content@[k as int] == 0 && (forall|j: int|
                0 <= j < k ==> content@[j] != 0),
            !found ==> forall|j: int| 0 <= j < k ==> content@[j] != 0,
        decreases content@.len() - k, (if found {
            0int
        } else {
            1int
        }),
    {
        if *slice_index_get(content, k) == 0 {
            found = true;
        } else {
            k = k + 1;
        }
    }
    if !found {
        return Err(FrameError::MalformedString);
    }
    proof {
        assert(spec_first_nul(content@) == k);
    }
    let text = slice_subrange(content, 0, k);
    proof {
        assert(text@ =~= content@.take(k as int));
    }
    let st = utf8_lossy(text);
    *pos = p + l as usize;
    Ok(st)
}

} // verus!
