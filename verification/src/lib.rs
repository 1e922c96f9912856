//! A verified streaming parser for the IGWD frame (`.gwf`) binary container,
//! the format used to exchange gravitational-wave detector data.
//!
//! The parser walks a byte buffer from beginning to end, recognises each
//! length-prefixed, class-tagged record, decodes the record's typed payload
//! and collects the decoded values in the order they appear in the file.
//! Floating-point quantities are carried as their IEEE-754 bit patterns, so
//! that every decoding step is verified integer code; converting bits to
//! native floats is left to the (unverified) caller.

use vstd::prelude::*;

pub mod decompress;
pub mod endian;
pub mod header;
pub mod roundtrip;
pub mod strings;
pub mod parser;
pub mod structures;
pub mod v6;
pub mod v8;

use crate::header::spec_header_of;
use crate::header::spec_magic_ok;
use crate::parser::Interests;
use crate::parser::Parser;
use crate::parser::Record;
use crate::parser::spec_init_table;
use crate::parser::spec_record_views;
use crate::parser::spec_run;
use crate::structures::FrameError;
use crate::structures::Major;
use crate::structures::Version;

verus! {

/// Whether one oracle accounts for a parse outcome: the records and the
/// fault are exactly what [`spec_run`] makes of the bytes with it.
pub open spec fn run_matches(
    s: Seq<u8>,
    intr: Interests,
    oracle: Seq<Option<Seq<u8>>>,
    records: Seq<Record>,
    error: Option<FrameError>,
) -> bool {
    let h = spec_header_of(s);
    let run = spec_run(
        s,
        40,
        spec_init_table(),
        intr,
        h.endian,
        h.version.major == Major::Release6,
        oracle,
    );
    spec_record_views(records) == run.0 && error == run.1
}

/// Everything one parse of a frame file yields: the file's version (always
/// known once the header reads), the decoded records in file order, and
/// the first fault the dispatch loop met — `None` when the end-of-file
/// record was reached.
#[derive(Debug, PartialEq, Clone)]
pub struct ParseOutput {
    pub version: Version,
    pub records: Vec<Record>,
    pub error: Option<FrameError>,
}

/// Parses a frame file held in memory, decoding the record kinds named by
/// `interests`.
///
/// A buffer shorter than the 40-byte header is a short read and one whose
/// magic is wrong is not a frame file, each without looking past the
/// header. Otherwise the version is always reported; for the two supported
/// major releases the dispatch loop runs exactly as [`spec_run`] describes
/// it, and for any other release nothing further is read.
pub fn parse(bytes: &[u8], interests: &Interests) -> (r: Result<ParseOutput, FrameError>)
    ensures
        match r {
            Ok(out) => {
                &&& bytes@.len() >= 40
                &&& spec_magic_ok(bytes@)
                &&& out.version == spec_header_of(bytes@).version
                &&& ({
                    let h = spec_header_of(bytes@);
                    if h.version.major == Major::Release6 || h.version.major == Major::Release8 {
                        exists|oracle: Seq<Option<Seq<u8>>>| #[trigger] run_matches(
                            bytes@,
                            *interests,
                            oracle,
                            out.records@,
                            out.error,
                        )
                    } else {
                        out.records@.len() == 0 && out.error is None
                    }
                })
            },
            Err(er) => (er == FrameError::ShortRead && bytes@.len() < 40) || (er
                == FrameError::NotAFrameFile && bytes@.len() >= 40 && !spec_magic_ok(bytes@)),
        },
{
    let header = match crate::header::parse(bytes) {
        Ok(h) => h,
        Err(er) => {
            return Err(er);
        },
    };
    if header.version.major == Major::Release6 || header.version.major == Major::Release8 {
        let mut p = Parser::new();
        let (records, error, oracle) = p.parse(&header, bytes, interests);
        let out = ParseOutput { version: header.version, records, error };
        proof {
            assert(run_matches(bytes@, *interests, oracle@, out.records@, out.error));
        }
        Ok(out)
    } else {
        Ok(ParseOutput { version: header.version, records: Vec::new(), error: None })
    }
}

} // verus!
