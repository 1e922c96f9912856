//! The 40-byte file header: magic, version, endianness, producing library,
//! data model hint and checksum indicator.

use vstd::prelude::*;
use vstd::slice::*;

use crate::structures::Checksum;
use crate::structures::DataModel;
use crate::structures::Endian;
use crate::structures::FrameError;
use crate::structures::Header;
use crate::structures::Library;
use crate::structures::Major;
use crate::structures::Minor;
use crate::structures::Version;
use crate::structures::spec_checksum_from;
use crate::structures::spec_library_from;
use crate::structures::spec_major_from;
use crate::structures::spec_minor_from;

verus! {

/// The five magic bytes that open every frame file: `IGWD` and a NUL.
pub open spec fn spec_magic() -> Seq<u8> {
    seq![0x49u8, 0x47u8, 0x57u8, 0x44u8, 0x00u8]
}

/// Whether the buffer opens with the frame-file magic.
pub open spec fn spec_magic_ok(s: Seq<u8>) -> bool {
    &&& s.len() >= 5
    &&& s[0] == 0x49
    &&& s[1] == 0x47
    &&& s[2] == 0x57
    &&& s[3] == 0x44
    &&& s[4] == 0x00
}

/// The header a conforming 40-byte prefix denotes. The data-model hint
/// reads byte 9 for both the long and the pointer width, as the format's
/// producers write it.
pub open spec fn spec_header_of(s: Seq<u8>) -> Header {
    Header {
        version: Version { major: spec_major_from(s[5]), minor: spec_minor_from(s[6]) },
        library: spec_library_from(s[38]),
        endian: if s[12] == 0x12 && s[13] == 0x34 {
            Endian::Big
        } else {
            Endian::Little
        },
        machine_data_model: DataModel::spec_new(s[8] as nat, s[9] as nat, s[9] as nat),
        checksum: spec_checksum_from(s[39]),
    }
}

/// Reads and validates the file header. Returns the header exactly when the
/// buffer holds at least 40 bytes and opens with the magic; a shorter buffer
/// is a short read and a wrong magic is not a frame file.
pub fn parse(bytes: &[u8]) -> (r: Result<Header, FrameError>)
    ensures
        match r {
            Ok(h) => bytes@.len() >= 40 && spec_magic_ok(bytes@) && h == spec_header_of(bytes@),
            Err(e) => (e == FrameError::ShortRead && bytes@.len() < 40) || (e
                == FrameError::NotAFrameFile && bytes@.len() >= 40 && !spec_magic_ok(bytes@)),
        },
{
    if bytes.len() < 40 {
        return Err(FrameError::ShortRead);
    }
    let m0 = *slice_index_get(bytes, 0);
    let m1 = *slice_index_get(bytes, 1);
    let m2 = *slice_index_get(bytes, 2);
    let m3 = *slice_index_get(bytes, 3);
    let m4 = *slice_index_get(bytes, 4);
    if !(m0 == 0x49 && m1 == 0x47 && m2 == 0x57 && m3 == 0x44 && m4 == 0x00) {
        return Err(FrameError::NotAFrameFile);
    }
    let major = Major::from(*slice_index_get(bytes, 5));
    let minor = Minor::from(*slice_index_get(bytes, 6));
    let e12 = *slice_index_get(bytes, 12);
    let e13 = *slice_index_get(bytes, 13);
    let endian = if e12 == 0x12 && e13 == 0x34 {
        Endian::Big
    } else {
        Endian::Little
    };
    let b8 = *slice_index_get(bytes, 8);
    let b9 = *slice_index_get(bytes, 9);
    Ok(
        Header {
            version: Version { major, minor },
            library: Library::from(*slice_index_get(bytes, 38)),
            endian,
            machine_data_model: DataModel::new(b8 as usize, b9 as usize, b9 as usize),
            checksum: Checksum::from(*slice_index_get(bytes, 39)),
        },
    )
}

} // verus!
