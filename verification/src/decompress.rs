//! The decompressor adapter: zlib-framed deflate for compressed vector
//! payloads, sized by the vector class and sample count. The zlib context
//! is made once and reused across records.

use vstd::prelude::*;

use crate::structures::FrameError;

verus! {

#[verifier::external_type_specification]
#[verifier::external_body]
pub struct ExFlateDecompress(flate2::Decompress);

#[verifier::external_type_specification]
#[verifier::external_body]
pub struct ExDecompressError(flate2::DecompressError);

/// Relies on `flate2::Decompress::new` to make a fresh inflate context
/// that expects a zlib header.
#[verifier::external_body]
fn new_zlib_context() -> flate2::Decompress {
    flate2::Decompress::new(true)
}

/// Relies on `flate2::Decompress::decompress` with `FlushDecompress::Finish`:
/// it writes decompressed bytes into `output` in place, never changing its
/// length, and reports an error on corrupt input.
#[verifier::external_body]
fn inflate(ctx: &mut flate2::Decompress, input: &[u8], output: &mut Vec<u8>) -> (r: Result<
    (),
    flate2::DecompressError,
>)
    ensures
        final(output)@.len() == old(output)@.len(),
{
    match ctx.decompress(input, output.as_mut_slice(), flate2::FlushDecompress::Finish) {
        Ok(_) => Ok(()),
        Err(e) => Err(e),
    }
}

/// Byte size of one element of the given vector class; single-byte for the
/// unknown classes, which degrade to byte vectors.
pub open spec fn spec_element_size(class: u16) -> int {
    if class == 1 || class == 9 {
        2
    } else if class == 3 || class == 4 || class == 10 {
        4
    } else if class == 2 || class == 5 || class == 6 || class == 11 {
        8
    } else if class == 7 {
        16
    } else {
        1
    }
}

/// Expected decompressed byte size of a vector payload: the sample count
/// times the element size, doubled for the complex classes.
pub open spec fn spec_decompressed_size(class: u16, num_samples: u64) -> int {
    (num_samples as int) * spec_element_size(class)
}

fn element_size(class: u16) -> (r: usize)
    ensures
        r == spec_element_size(class),
        1 <= r <= 16,
{
    if class == 1 || class == 9 {
        2
    } else if class == 3 || class == 4 || class == 10 {
        4
    } else if class == 2 || class == 5 || class == 6 || class == 11 {
        8
    } else if class == 7 {
        16
    } else {
        1
    }
}

fn zero_vec(n: usize) -> (r: Vec<u8>)
    ensures
        r@.len() == n,
{
    let mut r: Vec<u8> = Vec::new();
    let mut i: usize = 0;
    while i < n
        invariant
            i <= n,
            r@.len() == i,
        decreases n - i,
    {
        r.push(0);
        i = i + 1;
    }
    r
}

/// A reusable zlib decompression context.
pub struct Decompressor {
    gunzipper: flate2::Decompress,
}

impl Decompressor {
    pub fn new() -> Decompressor {
        Decompressor { gunzipper: new_zlib_context() }
    }

    /// Inflates `data_buf` into `output` in place. Succeeds only for the
    /// two zlib compression codes; the output keeps its length whatever
    /// happens, and an unsupported code leaves its bytes untouched.
    pub fn dec(&mut self, data_buf: &[u8], compression: u16, output: &mut Vec<u8>) -> (r: Result<
        (),
        FrameError,
    >)
        ensures
            final(output)@.len() == old(output)@.len(),
            !(compression == 1 || compression == 257) ==> final(output)@ == old(output)@,
            match r {
                Ok(()) => compression == 1 || compression == 257,
                Err(er) => (er == FrameError::UnsupportedCompression && !(compression == 1
                    || compression == 257)) || (er == FrameError::DecompressionFailed && (
                compression == 1 || compression == 257)),
            },
    {
        if compression == 1 || compression == 257 {
            match inflate(&mut self.gunzipper, data_buf, output) {
                Ok(()) => Ok(()),
                Err(_) => Err(FrameError::DecompressionFailed),
            }
        } else {
            Err(FrameError::UnsupportedCompression)
        }
    }

    /// Produces a buffer of exactly the expected decompressed size for the
    /// class and sample count, filled by inflating `raw_buf`. A sample
    /// count too large for the address space fails like a corrupt payload.
    pub fn decompress(
        &mut self,
        raw_buf: &[u8],
        compression: u16,
        vector_class: u16,
        num_samples: u64,
    ) -> (r: Result<Vec<u8>, FrameError>)
        ensures
            match r {
                Ok(buf) => (compression == 1 || compression == 257) && buf@.len()
                    == spec_decompressed_size(vector_class, num_samples),
                Err(er) => (er == FrameError::UnsupportedCompression && !(compression == 1
                    || compression == 257)) || (er == FrameError::DecompressionFailed && (
                compression == 1 || compression == 257)),
            },
    {
        if !(compression == 1 || compression == 257) {
            return Err(FrameError::UnsupportedCompression);
        }
        let es = element_size(vector_class);
        if num_samples > (usize::MAX / es) as u64 {
            return Err(FrameError::DecompressionFailed);
        }
        proof {
            let m = usize::MAX as int;
            let ei = es as int;
            let ni = num_samples as int;
            vstd::arithmetic::div_mod::lemma_fundamental_div_mod(m, ei);
            vstd::arithmetic::mul::lemma_mul_inequality(ni, m / ei, ei);
        }
        let size = (num_samples as usize) * es;
        let mut decompressed_buf = zero_vec(size);
        match self.dec(raw_buf, compression, &mut decompressed_buf) {
            Ok(()) => Ok(decompressed_buf),
            Err(er) => Err(er),
        }
    }
}

} // verus!
