//! The data model of the frame format: file-level header fields, the
//! per-record common prefix, the closed set of structure kinds and the
//! file-local class table that maps class identifiers to kinds.

use vstd::prelude::*;
use vstd::std_specs::convert::FromSpecImpl;

verus! {

/// The first fatal fault met while parsing a frame file.
#[derive(Debug, PartialEq, Eq, Copy, Clone, Structural)]
pub enum FrameError {
    /// The byte source ended before a field, or a record claimed more bytes
    /// than the file holds.
    ShortRead,
    /// The file does not begin with the frame-file magic.
    NotAFrameFile,
    /// A length-prefixed string held no NUL terminator.
    MalformedString,
    /// A dictionary record declared a class identifier above 255.
    BadClassId,
    /// A dictionary record declared a structure name outside the closed set.
    UnknownStructureKind,
    /// A vector carried a compression code this library does not handle.
    UnsupportedCompression,
    /// The decompressor rejected a vector's payload.
    DecompressionFailed,
}

/// Endianness of the file's scalar fields.
#[derive(Debug, PartialEq, Eq, Copy, Clone, Structural)]
pub enum Endian {
    Big,
    Little,
}

impl From<[u8; 2]> for Endian {
    /// The two marker bytes at offsets 12..14 of the header decide the byte
    /// order; anything but the two known patterns defaults to little.
    fn from(e: [u8; 2]) -> (r: Endian)
        ensures
            r == spec_endian_from(e),
    {
        if e[0] == 0x12 && e[1] == 0x34 {
            Endian::Big
        } else {
            Endian::Little
        }
    }
}

pub open spec fn spec_endian_from(e: [u8; 2]) -> Endian {
    if e[0] == 0x12 && e[1] == 0x34 {
        Endian::Big
    } else {
        Endian::Little
    }
}

impl FromSpecImpl<[u8; 2]> for Endian {
    open spec fn obeys_from_spec() -> bool {
        true
    }

    open spec fn from_spec(e: [u8; 2]) -> Endian {
        spec_endian_from(e)
    }
}

/// Major release of the frame library that wrote the file.
#[derive(Debug, PartialEq, Eq, Copy, Clone, Structural)]
pub enum Major {
    Release4,
    Release6,
    Release8,
    Unsupported(u8),
}

/// Minor release of the frame library that wrote the file.
#[derive(Debug, PartialEq, Eq, Copy, Clone, Structural)]
pub enum Minor {
    Minor(u8),
    /// An unreleased or provisional version.
    Beta,
}

/// Version of the frame library that wrote the file.
#[derive(Debug, PartialEq, Eq, Copy, Clone, Structural)]
pub struct Version {
    pub major: Major,
    pub minor: Minor,
}

impl From<u8> for Major {
    fn from(m: u8) -> (r: Major)
        ensures
            r == spec_major_from(m),
    {
        match m {
            4 => Major::Release4,
            6 => Major::Release6,
            8 => Major::Release8,
            _ => Major::Unsupported(m),
        }
    }
}

pub open spec fn spec_major_from(m: u8) -> Major {
    if m == 4 {
        Major::Release4
    } else if m == 6 {
        Major::Release6
    } else if m == 8 {
        Major::Release8
    } else {
        Major::Unsupported(m)
    }
}

impl FromSpecImpl<u8> for Major {
    open spec fn obeys_from_spec() -> bool {
        true
    }

    open spec fn from_spec(m: u8) -> Major {
        spec_major_from(m)
    }
}

impl From<u8> for Minor {
    fn from(m: u8) -> (r: Minor)
        ensures
            r == spec_minor_from(m),
    {
        match m {
            255 => Minor::Beta,
            _ => Minor::Minor(m),
        }
    }
}

pub open spec fn spec_minor_from(m: u8) -> Minor {
    if m == 255 {
        Minor::Beta
    } else {
        Minor::Minor(m)
    }
}

impl FromSpecImpl<u8> for Minor {
    open spec fn obeys_from_spec() -> bool {
        true
    }

    open spec fn from_spec(m: u8) -> Minor {
        spec_minor_from(m)
    }
}

impl From<[u8; 2]> for Version {
    fn from(v: [u8; 2]) -> (r: Version)
        ensures
            r == spec_version_from(v),
    {
        Version { major: Major::from(v[0]), minor: Minor::from(v[1]) }
    }
}

pub open spec fn spec_version_from(v: [u8; 2]) -> Version {
    Version { major: spec_major_from(v[0]), minor: spec_minor_from(v[1]) }
}

impl FromSpecImpl<[u8; 2]> for Version {
    open spec fn obeys_from_spec() -> bool {
        true
    }

    open spec fn from_spec(v: [u8; 2]) -> Version {
        spec_version_from(v)
    }
}

/// Checksum indicator recorded in the header.
#[derive(Debug, PartialEq, Eq, Copy, Clone, Structural)]
pub enum Checksum {
    SumNone,
    /// A POSIX.2 checksum is present.
    SumCRC,
}

impl From<u8> for Checksum {
    fn from(c: u8) -> (r: Checksum)
        ensures
            r == spec_checksum_from(c),
    {
        if c == 1 {
            Checksum::SumCRC
        } else {
            Checksum::SumNone
        }
    }
}

pub open spec fn spec_checksum_from(c: u8) -> Checksum {
    if c == 1 {
        Checksum::SumCRC
    } else {
        Checksum::SumNone
    }
}

impl FromSpecImpl<u8> for Checksum {
    open spec fn obeys_from_spec() -> bool {
        true
    }

    open spec fn from_spec(c: u8) -> Checksum {
        spec_checksum_from(c)
    }
}

/// The software that produced the file.
#[derive(Debug, PartialEq, Eq, Copy, Clone, Structural)]
pub enum Library {
    /// Not one of the two known frame libraries; holds the byte from the file.
    LibUnknown(u8),
    /// The C frame library.
    LibFrameL,
    /// The C++ frame library.
    LibFrameCPP,
}

impl From<u8> for Library {
    /// Version 6 of the C frame library reports itself as ASCII 'A'.
    fn from(l: u8) -> (r: Library)
        ensures
            r == spec_library_from(l),
    {
        match l {
            1 | 65 => Library::LibFrameL,
            2 => Library::LibFrameCPP,
            _ => Library::LibUnknown(l),
        }
    }
}

pub open spec fn spec_library_from(l: u8) -> Library {
    if l == 1 || l == 65 {
        Library::LibFrameL
    } else if l == 2 {
        Library::LibFrameCPP
    } else {
        Library::LibUnknown(l)
    }
}

impl FromSpecImpl<u8> for Library {
    open spec fn obeys_from_spec() -> bool {
        true
    }

    open spec fn from_spec(l: u8) -> Library {
        spec_library_from(l)
    }
}

/// The C data model of the machine that wrote the file, inferred from the
/// integer, long and pointer widths recorded in the header.
#[derive(Debug, PartialEq, Eq, Copy, Clone, Structural)]
pub enum DataModel {
    /// 16-bit integer and pointer.
    IP16,
    /// 16-bit integer and pointer, 32-bit long.
    IP16L32,
    /// 16-bit integer, 32-bit long and pointer.
    LP32,
    /// 32-bit integer, long and pointer.
    ILP32,
    /// 32-bit integer and long, 64-bit pointer.
    LLP64,
    /// 32-bit integer, 64-bit long and pointer.
    LP64,
    /// 64-bit integer, long and pointer.
    ILP64,
    /// Widths that match no known model.
    Unknown,
}

impl DataModel {
    /// Classifies the widths, in bytes, of the producer's `int`, `long` and
    /// pointer types.
    pub fn new(int_w: usize, long_w: usize, ptr_w: usize) -> (r: DataModel)
        ensures
            r == DataModel::spec_new(int_w as nat, long_w as nat, ptr_w as nat),
    {
        if int_w == 2 && long_w == 0 && ptr_w == 2 {
            DataModel::IP16
        } else if int_w == 2 && long_w == 4 && ptr_w == 2 {
            DataModel::IP16L32
        } else if int_w == 2 && long_w == 4 && ptr_w == 4 {
            DataModel::LP32
        } else if int_w == 4 && long_w == 4 && ptr_w == 4 {
            DataModel::ILP32
        } else if int_w == 4 && long_w == 4 && ptr_w == 8 {
            DataModel::LLP64
        } else if int_w == 4 && long_w == 8 && ptr_w == 8 {
            DataModel::LP64
        } else if int_w == 8 && long_w == 8 && ptr_w == 8 {
            DataModel::ILP64
        } else {
            DataModel::Unknown
        }
    }

    pub open spec fn spec_new(int_w: nat, long_w: nat, ptr_w: nat) -> DataModel {
        if int_w == 2 && long_w == 0 && ptr_w == 2 {
            DataModel::IP16
        } else if int_w == 2 && long_w == 4 && ptr_w == 2 {
            DataModel::IP16L32
        } else if int_w == 2 && long_w == 4 && ptr_w == 4 {
            DataModel::LP32
        } else if int_w == 4 && long_w == 4 && ptr_w == 4 {
            DataModel::ILP32
        } else if int_w == 4 && long_w == 4 && ptr_w == 8 {
            DataModel::LLP64
        } else if int_w == 4 && long_w == 8 && ptr_w == 8 {
            DataModel::LP64
        } else if int_w == 8 && long_w == 8 && ptr_w == 8 {
            DataModel::ILP64
        } else {
            DataModel::Unknown
        }
    }
}

/// Header of a frame file: version, producing library, endianness, the
/// producer's data model and the checksum indicator.
#[derive(Debug, PartialEq, Eq, Copy, Clone, Structural)]
pub struct Header {
    pub version: Version,
    pub library: Library,
    pub endian: Endian,
    pub machine_data_model: DataModel,
    pub checksum: Checksum,
}

impl Header {
    /// Byte length of the file header on disk.
    pub fn size_of() -> (r: usize)
        ensures
            r == 40,
    {
        40
    }
}

/// The common prefix of every record: total byte length (prefix included)
/// and the file-local class identifier.
#[derive(Debug, PartialEq, Eq, Copy, Clone, Structural)]
pub struct Common {
    length: u64,
    class: u8,
}

impl Common {
    pub fn new(length: u64, class: u8) -> (r: Common)
        ensures
            r.length() == length,
            r.class_id() == class,
    {
        Common { length, class }
    }

    /// Byte length of the common prefix on disk.
    pub fn size_of() -> (r: usize)
        ensures
            r == 14,
    {
        14
    }

    pub closed spec fn length(self) -> u64 {
        self.length
    }

    pub closed spec fn class_id(self) -> u8 {
        self.class
    }

    /// Byte length of the record's payload: the declared total length minus
    /// the prefix itself.
    pub fn struct_length(&self) -> (r: u64)
        requires
            self.length() >= 14,
        ensures
            r == self.length() - 14,
    {
        self.length - 14
    }

    pub fn class(&self) -> (r: u8)
        ensures
            r == self.class_id(),
    {
        self.class
    }

    pub fn total_length(&self) -> (r: u64)
        ensures
            r == self.length(),
    {
        self.length
    }
}

/// The closed set of structure kinds a record can have. A file refers to
/// them by file-local class identifiers; dictionary records bind an
/// identifier to a kind by its name.
#[derive(Debug, PartialEq, Eq, Copy, Clone, Structural)]
pub enum Structures {
    /// Sentinel for a class identifier with no binding.
    StructureUnknown,
    /// Dictionary header: declares what structure kind a class id denotes.
    FrSH,
    /// Dictionary entry: describes one field within a dictionary.
    FrSE,
    FrameH,
    FrAdcData,
    FrDetector,
    FrEndOfFile,
    FrEndOfFrame,
    FrEvent,
    FrHistory,
    FrMsg,
    FrProcData,
    FrRawData,
    FrSerData,
    FrSimData,
    FrSimEvent,
    FrStatData,
    FrSummary,
    FrTable,
    FrTOC,
    FrVect,
}

/// The structure kind a declared name denotes, or `None` for a name outside
/// the closed set.
pub open spec fn spec_kind_of_name(s: Seq<char>) -> Option<Structures> {
    if s == "FrSH"@ {
        Some(Structures::FrSH)
    } else if s == "FrSE"@ {
        Some(Structures::FrSE)
    } else if s == "FrameH"@ {
        Some(Structures::FrameH)
    } else if s == "FrAdcData"@ {
        Some(Structures::FrAdcData)
    } else if s == "FrDetector"@ {
        Some(Structures::FrDetector)
    } else if s == "FrEndOfFile"@ {
        Some(Structures::FrEndOfFile)
    } else if s == "FrEndOfFrame"@ {
        Some(Structures::FrEndOfFrame)
    } else if s == "FrEvent"@ {
        Some(Structures::FrEvent)
    } else if s == "FrHistory"@ {
        Some(Structures::FrHistory)
    } else if s == "FrMsg"@ {
        Some(Structures::FrMsg)
    } else if s == "FrProcData"@ {
        Some(Structures::FrProcData)
    } else if s == "FrRawData"@ {
        Some(Structures::FrRawData)
    } else if s == "FrSerData"@ {
        Some(Structures::FrSerData)
    } else if s == "FrSimData"@ {
        Some(Structures::FrSimData)
    } else if s == "FrSimEvent"@ {
        Some(Structures::FrSimEvent)
    } else if s == "FrStatData"@ {
        Some(Structures::FrStatData)
    } else if s == "FrSummary"@ {
        Some(Structures::FrSummary)
    } else if s == "FrTable"@ {
        Some(Structures::FrTable)
    } else if s == "FrTOC"@ {
        Some(Structures::FrTOC)
    } else if s == "FrVect"@ {
        Some(Structures::FrVect)
    } else {
        None
    }
}

pub(crate) fn str_eq(a: &str, b: &str) -> (r: bool)
    ensures
        r == (a@ == b@),
{
    let sa: String = a.to_owned();
    let sb: String = b.to_owned();
    sa == sb
}

/// Resolves a declared structure name to its kind by exact match against the
/// closed set.
pub fn kind_of_name(name: &str) -> (r: Option<Structures>)
    ensures
        r == spec_kind_of_name(name@),
{
    if str_eq(name, "FrSH") {
        Some(Structures::FrSH)
    } else if str_eq(name, "FrSE") {
        Some(Structures::FrSE)
    } else if str_eq(name, "FrameH") {
        Some(Structures::FrameH)
    } else if str_eq(name, "FrAdcData") {
        Some(Structures::FrAdcData)
    } else if str_eq(name, "FrDetector") {
        Some(Structures::FrDetector)
    } else if str_eq(name, "FrEndOfFile") {
        Some(Structures::FrEndOfFile)
    } else if str_eq(name, "FrEndOfFrame") {
        Some(Structures::FrEndOfFrame)
    } else if str_eq(name, "FrEvent") {
        Some(Structures::FrEvent)
    } else if str_eq(name, "FrHistory") {
        Some(Structures::FrHistory)
    } else if str_eq(name, "FrMsg") {
        Some(Structures::FrMsg)
    } else if str_eq(name, "FrProcData") {
        Some(Structures::FrProcData)
    } else if str_eq(name, "FrRawData") {
        Some(Structures::FrRawData)
    } else if str_eq(name, "FrSerData") {
        Some(Structures::FrSerData)
    } else if str_eq(name, "FrSimData") {
        Some(Structures::FrSimData)
    } else if str_eq(name, "FrSimEvent") {
        Some(Structures::FrSimEvent)
    } else if str_eq(name, "FrStatData") {
        Some(Structures::FrStatData)
    } else if str_eq(name, "FrSummary") {
        Some(Structures::FrSummary)
    } else if str_eq(name, "FrTable") {
        Some(Structures::FrTable)
    } else if str_eq(name, "FrTOC") {
        Some(Structures::FrTOC)
    } else if str_eq(name, "FrVect") {
        Some(Structures::FrVect)
    } else {
        None
    }
}

/// The file-local mapping of class identifiers to structure kinds. Each
/// file carries its own bindings, declared by dictionary-header records;
/// identifiers 1 and 2 are bound by the format specification itself.
pub struct StructureLookup {
    lookup: std::collections::HashMap<u8, Structures>,
}

impl View for StructureLookup {
    type V = Map<u8, Structures>;

    closed spec fn view(&self) -> Map<u8, Structures> {
        self.lookup@
    }
}

impl StructureLookup {
    /// A fresh table holding exactly the two bindings the format fixes:
    /// 1 denotes a dictionary header and 2 a dictionary entry.
    pub fn new() -> (r: StructureLookup)
        ensures
            r@ == Map::<u8, Structures>::empty().insert(1u8, Structures::FrSH).insert(
                2u8,
                Structures::FrSE,
            ),
    {
        broadcast use vstd::std_specs::hash::group_hash_axioms;

        let mut s = StructureLookup { lookup: std::collections::HashMap::new() };
        s.lookup.insert(1, Structures::FrSH);
        s.lookup.insert(2, Structures::FrSE);
        s
    }

    /// Binds a declared class identifier to the kind the declared name
    /// denotes. Returns `Ok` exactly when the identifier fits in a byte and
    /// the name is in the closed set. Identifiers 1 and 2 are fixed by the
    /// format itself: a record that redeclares them is accepted but binds
    /// nothing.
    pub fn insert(&mut self, name: &str, id: u16) -> (r: Result<(), FrameError>)
        ensures
            match r {
                Ok(()) => id <= 255 && spec_kind_of_name(name@) is Some && final(self)@
                    == spec_bind_class(old(self)@, id, spec_kind_of_name(name@)->Some_0),
                Err(e) => final(self)@ == old(self)@ && ((e == FrameError::BadClassId && id > 255)
                    || (e == FrameError::UnknownStructureKind && id <= 255 && spec_kind_of_name(
                    name@,
                ) is None)),
            },
    {
        broadcast use vstd::std_specs::hash::group_hash_axioms;

        if id > 255 {
            return Err(FrameError::BadClassId);
        }
        match kind_of_name(name) {
            None => Err(FrameError::UnknownStructureKind),
            Some(kind) => {
                if id != 1 && id != 2 {
                    self.lookup.insert(id as u8, kind);
                }
                Ok(())
            },
        }
    }

    /// The kind a class identifier is bound to, or the unknown sentinel.
    pub open spec fn spec_structure(&self, id: u8) -> Structures {
        if self@.contains_key(id) {
            self@[id]
        } else {
            Structures::StructureUnknown
        }
    }

    pub fn structure(&self, id: u8) -> (r: Structures)
        ensures
            r == self.spec_structure(id),
    {
        broadcast use vstd::std_specs::hash::group_hash_axioms;

        match self.lookup.get(&id) {
            Some(s) => *s,
            None => Structures::StructureUnknown,
        }
    }
}

/// The class table a successful insertion leaves behind: identifiers 1
/// and 2 stay as the format fixes them, every other identifier is bound
/// to the kind.
pub open spec fn spec_bind_class(m: Map<u8, Structures>, id: u16, k: Structures) -> Map<
    u8,
    Structures,
> {
    if id as u8 == 1 || id as u8 == 2 {
        m
    } else {
        m.insert(id as u8, k)
    }
}

/// The two bindings fixed by the format are present as soon as a table is
/// made — `StructureLookup::new` ensures it — and no insertion, whatever
/// identifier and kind a dictionary record declares, unbinds them.
pub proof fn lemma_mandatory_bindings_preserved(m: Map<u8, Structures>, id: u16, k: Structures)
    requires
        m.contains_key(1u8),
        m[1u8] == Structures::FrSH,
        m.contains_key(2u8),
        m[2u8] == Structures::FrSE,
    ensures
        spec_bind_class(m, id, k).contains_key(1u8),
        spec_bind_class(m, id, k)[1u8] == Structures::FrSH,
        spec_bind_class(m, id, k).contains_key(2u8),
        spec_bind_class(m, id, k)[2u8] == Structures::FrSE,
{
}

/// Frame-level metadata carried by a frame-header record.
///
/// Fractional quantities are carried as IEEE-754 bit patterns.
#[derive(Debug, PartialEq, Clone)]
pub struct FrameHeader {
    pub name: String,
    pub run: i32,
    pub frame: u32,
    pub data_quality: u32,
    pub gps_start_time_s: u32,
    pub gps_residual_time_ns: u32,
    pub gps_leap_s: u16,
    /// IEEE-754 double bits.
    pub frame_length_s: u64,
}

/// Mathematical view of [`FrameHeader`].
pub struct FrameHeaderV {
    pub name: Seq<char>,
    pub run: i32,
    pub frame: u32,
    pub data_quality: u32,
    pub gps_start_time_s: u32,
    pub gps_residual_time_ns: u32,
    pub gps_leap_s: u16,
    pub frame_length_s: u64,
}

impl View for FrameHeader {
    type V = FrameHeaderV;

    open spec fn view(&self) -> FrameHeaderV {
        FrameHeaderV {
            name: (self.name@),
            run: (self.run),
            frame: (self.frame),
            data_quality: (self.data_quality),
            gps_start_time_s: (self.gps_start_time_s),
            gps_residual_time_ns: (self.gps_residual_time_ns),
            gps_leap_s: (self.gps_leap_s),
            frame_length_s: (self.frame_length_s),
        }
    }
}

/// An ADC channel record.
///
/// Fractional quantities are carried as IEEE-754 bit patterns.
#[derive(Debug, PartialEq, Clone)]
pub struct ADC {
    pub name: String,
    pub comment: String,
    pub channel_group: u32,
    pub channel_number: u32,
    pub num_bits: u32,
    /// IEEE-754 single bits.
    pub bias: u32,
    /// IEEE-754 single bits.
    pub slope: u32,
    pub units: Option<String>,
    /// IEEE-754 double bits.
    pub sample_rate: u64,
    /// IEEE-754 double bits.
    pub time_offset_s: u64,
    /// IEEE-754 double bits.
    pub f_shift: u64,
    /// IEEE-754 single bits.
    pub phase: u32,
    pub data_valid: bool,
}

/// Mathematical view of [`ADC`].
pub struct ADCV {
    pub name: Seq<char>,
    pub comment: Seq<char>,
    pub channel_group: u32,
    pub channel_number: u32,
    pub num_bits: u32,
    pub bias: u32,
    pub slope: u32,
    pub units: Option<Seq<char>>,
    pub sample_rate: u64,
    pub time_offset_s: u64,
    pub f_shift: u64,
    pub phase: u32,
    pub data_valid: bool,
}

impl View for ADC {
    type V = ADCV;

    open spec fn view(&self) -> ADCV {
        ADCV {
            name: (self.name@),
            comment: (self.comment@),
            channel_group: (self.channel_group),
            channel_number: (self.channel_number),
            num_bits: (self.num_bits),
            bias: (self.bias),
            slope: (self.slope),
            units: (match self.units { Option::Some(ref s) => Option::Some(s@), Option::None => Option::None }),
            sample_rate: (self.sample_rate),
            time_offset_s: (self.time_offset_s),
            f_shift: (self.f_shift),
            phase: (self.phase),
            data_valid: (self.data_valid),
        }
    }
}

/// A detector record.
///
/// Fractional quantities are carried as IEEE-754 bit patterns.
#[derive(Debug, PartialEq, Clone)]
pub struct Detector {
    pub name: String,
    pub prefix: [i8; 2],
    /// IEEE-754 double bits.
    pub longitude_radians: u64,
    /// IEEE-754 double bits.
    pub latitude_radians: u64,
    /// IEEE-754 single bits.
    pub elevation_meters: u32,
    /// IEEE-754 single bits.
    pub arm_x_azimuth_radians: u32,
    /// IEEE-754 single bits.
    pub arm_y_azimuth_radians: u32,
    /// IEEE-754 single bits.
    pub arm_x_altitude_radians: u32,
    /// IEEE-754 single bits.
    pub arm_y_altitude_radians: u32,
    /// IEEE-754 single bits.
    pub arm_x_midpoint_meters: u32,
    /// IEEE-754 single bits.
    pub arm_y_midpoint_meters: u32,
    pub local_time_utc_offset_s: i32,
}

/// Mathematical view of [`Detector`].
pub struct DetectorV {
    pub name: Seq<char>,
    pub prefix: [i8; 2],
    pub longitude_radians: u64,
    pub latitude_radians: u64,
    pub elevation_meters: u32,
    pub arm_x_azimuth_radians: u32,
    pub arm_y_azimuth_radians: u32,
    pub arm_x_altitude_radians: u32,
    pub arm_y_altitude_radians: u32,
    pub arm_x_midpoint_meters: u32,
    pub arm_y_midpoint_meters: u32,
    pub local_time_utc_offset_s: i32,
}

impl View for Detector {
    type V = DetectorV;

    open spec fn view(&self) -> DetectorV {
        DetectorV {
            name: (self.name@),
            prefix: (self.prefix),
            longitude_radians: (self.longitude_radians),
            latitude_radians: (self.latitude_radians),
            elevation_meters: (self.elevation_meters),
            arm_x_azimuth_radians: (self.arm_x_azimuth_radians),
            arm_y_azimuth_radians: (self.arm_y_azimuth_radians),
            arm_x_altitude_radians: (self.arm_x_altitude_radians),
            arm_y_altitude_radians: (self.arm_y_altitude_radians),
            arm_x_midpoint_meters: (self.arm_x_midpoint_meters),
            arm_y_midpoint_meters: (self.arm_y_midpoint_meters),
            local_time_utc_offset_s: (self.local_time_utc_offset_s),
        }
    }
}

/// One (value, name) parameter of an event.
///
/// Fractional quantities are carried as IEEE-754 bit patterns.
#[derive(Debug, PartialEq, Clone)]
pub struct EventParameter {
    /// IEEE-754 double bits.
    pub value: u64,
    pub name: String,
}

/// Mathematical view of [`EventParameter`].
pub struct EventParameterV {
    pub value: u64,
    pub name: Seq<char>,
}

impl View for EventParameter {
    type V = EventParameterV;

    open spec fn view(&self) -> EventParameterV {
        EventParameterV {
            value: (self.value),
            name: (self.name@),
        }
    }
}

/// An event-trigger record.
///
/// Fractional quantities are carried as IEEE-754 bit patterns.
#[derive(Debug, PartialEq, Clone)]
pub struct Event {
    pub name: String,
    pub comment: String,
    pub inputs: String,
    pub gps_time_s: u32,
    pub gps_residual_time_ns: u32,
    /// IEEE-754 single bits.
    pub duration_before_s: u32,
    /// IEEE-754 single bits.
    pub duration_after_s: u32,
    pub event_status: u32,
    /// IEEE-754 single bits.
    pub amplitude: u32,
    /// IEEE-754 single bits, when present.
    pub probability: Option<u32>,
    pub statistics: String,
    pub parameters: Vec<EventParameter>,
}

/// Mathematical view of [`Event`].
pub struct EventV {
    pub name: Seq<char>,
    pub comment: Seq<char>,
    pub inputs: Seq<char>,
    pub gps_time_s: u32,
    pub gps_residual_time_ns: u32,
    pub duration_before_s: u32,
    pub duration_after_s: u32,
    pub event_status: u32,
    pub amplitude: u32,
    pub probability: Option<u32>,
    pub statistics: Seq<char>,
    pub parameters: Seq<EventParameterV>,
}

impl View for Event {
    type V = EventV;

    open spec fn view(&self) -> EventV {
        EventV {
            name: (self.name@),
            comment: (self.comment@),
            inputs: (self.inputs@),
            gps_time_s: (self.gps_time_s),
            gps_residual_time_ns: (self.gps_residual_time_ns),
            duration_before_s: (self.duration_before_s),
            duration_after_s: (self.duration_after_s),
            event_status: (self.event_status),
            amplitude: (self.amplitude),
            probability: (self.probability),
            statistics: (self.statistics@),
            parameters: (Seq::new(self.parameters@.len(), |i: int| self.parameters@[i]@)),
        }
    }
}

/// A history record.
#[derive(Debug, PartialEq, Clone)]
pub struct History {
    pub name: String,
    pub gps_time_s: u32,
    pub comment: String,
}

/// Mathematical view of [`History`].
pub struct HistoryV {
    pub name: Seq<char>,
    pub gps_time_s: u32,
    pub comment: Seq<char>,
}

impl View for History {
    type V = HistoryV;

    open spec fn view(&self) -> HistoryV {
        HistoryV {
            name: (self.name@),
            gps_time_s: (self.gps_time_s),
            comment: (self.comment@),
        }
    }
}

/// A message record.
#[derive(Debug, PartialEq, Clone)]
pub struct Message {
    pub alarm: String,
    pub message: String,
    pub severity: u32,
    pub gps_time_s: u32,
    pub gps_residual_time_ns: u32,
}

/// Mathematical view of [`Message`].
pub struct MessageV {
    pub alarm: Seq<char>,
    pub message: Seq<char>,
    pub severity: u32,
    pub gps_time_s: u32,
    pub gps_residual_time_ns: u32,
}

impl View for Message {
    type V = MessageV;

    open spec fn view(&self) -> MessageV {
        MessageV {
            alarm: (self.alarm@),
            message: (self.message@),
            severity: (self.severity),
            gps_time_s: (self.gps_time_s),
            gps_residual_time_ns: (self.gps_residual_time_ns),
        }
    }
}

/// One (value, name) auxiliary parameter of a post-processed record.
///
/// Fractional quantities are carried as IEEE-754 bit patterns.
#[derive(Debug, PartialEq, Clone)]
pub struct AuxiliaryParameter {
    /// IEEE-754 double bits.
    pub value: u64,
    pub name: String,
}

/// Mathematical view of [`AuxiliaryParameter`].
pub struct AuxiliaryParameterV {
    pub value: u64,
    pub name: Seq<char>,
}

impl View for AuxiliaryParameter {
    type V = AuxiliaryParameterV;

    open spec fn view(&self) -> AuxiliaryParameterV {
        AuxiliaryParameterV {
            value: (self.value),
            name: (self.name@),
        }
    }
}

/// A post-processed data record.
///
/// Fractional quantities are carried as IEEE-754 bit patterns.
#[derive(Debug, PartialEq, Clone)]
pub struct PostProcessed {
    pub name: String,
    pub comment: String,
    pub data_type: u16,
    pub sub_type: u16,
    /// IEEE-754 double bits.
    pub time_offset_s: u64,
    /// IEEE-754 double bits.
    pub time_range_s: u64,
    /// IEEE-754 double bits.
    pub f_shift: u64,
    /// IEEE-754 single bits.
    pub phase: u32,
    /// IEEE-754 double bits.
    pub frequency_range: u64,
    /// IEEE-754 double bits.
    pub bandwidth: u64,
    pub auxiliary_parameters: Vec<AuxiliaryParameter>,
}

/// Mathematical view of [`PostProcessed`].
pub struct PostProcessedV {
    pub name: Seq<char>,
    pub comment: Seq<char>,
    pub data_type: u16,
    pub sub_type: u16,
    pub time_offset_s: u64,
    pub time_range_s: u64,
    pub f_shift: u64,
    pub phase: u32,
    pub frequency_range: u64,
    pub bandwidth: u64,
    pub auxiliary_parameters: Seq<AuxiliaryParameterV>,
}

impl View for PostProcessed {
    type V = PostProcessedV;

    open spec fn view(&self) -> PostProcessedV {
        PostProcessedV {
            name: (self.name@),
            comment: (self.comment@),
            data_type: (self.data_type),
            sub_type: (self.sub_type),
            time_offset_s: (self.time_offset_s),
            time_range_s: (self.time_range_s),
            f_shift: (self.f_shift),
            phase: (self.phase),
            frequency_range: (self.frequency_range),
            bandwidth: (self.bandwidth),
            auxiliary_parameters: (Seq::new(self.auxiliary_parameters@.len(), |i: int| self.auxiliary_parameters@[i]@)),
        }
    }
}

/// A raw-data record.
#[derive(Debug, PartialEq, Clone)]
pub struct RawData {
    pub name: String,
}

/// Mathematical view of [`RawData`].
pub struct RawDataV {
    pub name: Seq<char>,
}

impl View for RawData {
    type V = RawDataV;

    open spec fn view(&self) -> RawDataV {
        RawDataV {
            name: (self.name@),
        }
    }
}

/// A serial-data record.
///
/// Fractional quantities are carried as IEEE-754 bit patterns.
#[derive(Debug, PartialEq, Clone)]
pub struct Serial {
    pub name: String,
    pub gps_time_s: u32,
    pub gps_residual_time_ns: u32,
    /// IEEE-754 double bits.
    pub sample_rate: u64,
    pub data: String,
}

/// Mathematical view of [`Serial`].
pub struct SerialV {
    pub name: Seq<char>,
    pub gps_time_s: u32,
    pub gps_residual_time_ns: u32,
    pub sample_rate: u64,
    pub data: Seq<char>,
}

impl View for Serial {
    type V = SerialV;

    open spec fn view(&self) -> SerialV {
        SerialV {
            name: (self.name@),
            gps_time_s: (self.gps_time_s),
            gps_residual_time_ns: (self.gps_residual_time_ns),
            sample_rate: (self.sample_rate),
            data: (self.data@),
        }
    }
}

/// A simulated-data record.
///
/// Fractional quantities are carried as IEEE-754 bit patterns.
#[derive(Debug, PartialEq, Clone)]
pub struct Simulation {
    pub name: String,
    pub comment: String,
    /// IEEE-754 double bits.
    pub sample_rate: u64,
    /// IEEE-754 double bits.
    pub time_offset_s: u64,
    /// IEEE-754 double bits.
    pub f_shift: u64,
    /// IEEE-754 single bits.
    pub phase: u32,
}

/// Mathematical view of [`Simulation`].
pub struct SimulationV {
    pub name: Seq<char>,
    pub comment: Seq<char>,
    pub sample_rate: u64,
    pub time_offset_s: u64,
    pub f_shift: u64,
    pub phase: u32,
}

impl View for Simulation {
    type V = SimulationV;

    open spec fn view(&self) -> SimulationV {
        SimulationV {
            name: (self.name@),
            comment: (self.comment@),
            sample_rate: (self.sample_rate),
            time_offset_s: (self.time_offset_s),
            f_shift: (self.f_shift),
            phase: (self.phase),
        }
    }
}

/// A simulated-event record.
///
/// Fractional quantities are carried as IEEE-754 bit patterns.
#[derive(Debug, PartialEq, Clone)]
pub struct SimulatedEvent {
    pub name: String,
    pub comment: String,
    pub inputs: String,
    pub gps_event_max_time_s: u32,
    pub gps_residual_time_ns: u32,
    /// IEEE-754 single bits.
    pub duration_before_s: u32,
    /// IEEE-754 single bits.
    pub duration_after_s: u32,
    /// IEEE-754 single bits.
    pub amplitude: u32,
    pub parameters: Vec<EventParameter>,
}

/// Mathematical view of [`SimulatedEvent`].
pub struct SimulatedEventV {
    pub name: Seq<char>,
    pub comment: Seq<char>,
    pub inputs: Seq<char>,
    pub gps_event_max_time_s: u32,
    pub gps_residual_time_ns: u32,
    pub duration_before_s: u32,
    pub duration_after_s: u32,
    pub amplitude: u32,
    pub parameters: Seq<EventParameterV>,
}

impl View for SimulatedEvent {
    type V = SimulatedEventV;

    open spec fn view(&self) -> SimulatedEventV {
        SimulatedEventV {
            name: (self.name@),
            comment: (self.comment@),
            inputs: (self.inputs@),
            gps_event_max_time_s: (self.gps_event_max_time_s),
            gps_residual_time_ns: (self.gps_residual_time_ns),
            duration_before_s: (self.duration_before_s),
            duration_after_s: (self.duration_after_s),
            amplitude: (self.amplitude),
            parameters: (Seq::new(self.parameters@.len(), |i: int| self.parameters@[i]@)),
        }
    }
}

/// A static-data record.
#[derive(Debug, PartialEq, Clone)]
pub struct StaticData {
    pub name: String,
    pub comment: String,
    pub representation: String,
    pub gps_time_start_s: u32,
    pub gps_time_end_s: u32,
    pub version: u32,
}

/// Mathematical view of [`StaticData`].
pub struct StaticDataV {
    pub name: Seq<char>,
    pub comment: Seq<char>,
    pub representation: Seq<char>,
    pub gps_time_start_s: u32,
    pub gps_time_end_s: u32,
    pub version: u32,
}

impl View for StaticData {
    type V = StaticDataV;

    open spec fn view(&self) -> StaticDataV {
        StaticDataV {
            name: (self.name@),
            comment: (self.comment@),
            representation: (self.representation@),
            gps_time_start_s: (self.gps_time_start_s),
            gps_time_end_s: (self.gps_time_end_s),
            version: (self.version),
        }
    }
}

/// A summary record.
#[derive(Debug, PartialEq, Clone)]
pub struct Summary {
    pub name: String,
    pub comment: String,
    pub test: String,
    pub gps_time_s: u32,
    pub gps_residual_time_ns: u32,
}

/// Mathematical view of [`Summary`].
pub struct SummaryV {
    pub name: Seq<char>,
    pub comment: Seq<char>,
    pub test: Seq<char>,
    pub gps_time_s: u32,
    pub gps_residual_time_ns: u32,
}

impl View for Summary {
    type V = SummaryV;

    open spec fn view(&self) -> SummaryV {
        SummaryV {
            name: (self.name@),
            comment: (self.comment@),
            test: (self.test@),
            gps_time_s: (self.gps_time_s),
            gps_residual_time_ns: (self.gps_residual_time_ns),
        }
    }
}

/// A table record: row count and column names.
#[derive(Debug, PartialEq, Clone)]
pub struct Table {
    pub name: String,
    pub comment: String,
    pub num_rows: u32,
    pub column_names: Vec<String>,
}

/// Mathematical view of [`Table`].
pub struct TableV {
    pub name: Seq<char>,
    pub comment: Seq<char>,
    pub num_rows: u32,
    pub column_names: Seq<Seq<char>>,
}

impl View for Table {
    type V = TableV;

    open spec fn view(&self) -> TableV {
        TableV {
            name: (self.name@),
            comment: (self.comment@),
            num_rows: (self.num_rows),
            column_names: (Seq::new(self.column_names@.len(), |i: int| self.column_names@[i]@)),
        }
    }
}

/// A complex sample as a (real, imaginary) pair of double bits.
///
/// Fractional quantities are carried as IEEE-754 bit patterns.
#[derive(Debug, PartialEq, Clone)]
pub struct Complex {
    /// IEEE-754 double bits.
    pub real: u64,
    /// IEEE-754 double bits.
    pub imaginary: u64,
}

/// Mathematical view of [`Complex`].
pub struct ComplexV {
    pub real: u64,
    pub imaginary: u64,
}

impl View for Complex {
    type V = ComplexV;

    open spec fn view(&self) -> ComplexV {
        ComplexV {
            real: (self.real),
            imaginary: (self.imaginary),
        }
    }
}

/// The header metadata shared by every vector payload variant.
///
/// Fractional quantities are carried as IEEE-754 bit patterns.
#[derive(Debug, PartialEq, Clone)]
pub struct VectorInfo {
    pub name: String,
    pub num_samples: u64,
    pub num_dimensions: u32,
    pub dimension_lengths: Vec<u64>,
    /// IEEE-754 double bits, one per element.
    pub sample_spacing: Vec<u64>,
    /// IEEE-754 double bits, one per element.
    pub x_origins: Vec<u64>,
    pub unit_x_scale_factors: Vec<String>,
    pub unit_y: String,
}

/// Mathematical view of [`VectorInfo`].
pub struct VectorInfoV {
    pub name: Seq<char>,
    pub num_samples: u64,
    pub num_dimensions: u32,
    pub dimension_lengths: Seq<u64>,
    pub sample_spacing: Seq<u64>,
    pub x_origins: Seq<u64>,
    pub unit_x_scale_factors: Seq<Seq<char>>,
    pub unit_y: Seq<char>,
}

impl View for VectorInfo {
    type V = VectorInfoV;

    open spec fn view(&self) -> VectorInfoV {
        VectorInfoV {
            name: (self.name@),
            num_samples: (self.num_samples),
            num_dimensions: (self.num_dimensions),
            dimension_lengths: (self.dimension_lengths@),
            sample_spacing: (self.sample_spacing@),
            x_origins: (self.x_origins@),
            unit_x_scale_factors: (Seq::new(self.unit_x_scale_factors@.len(), |i: int| self.unit_x_scale_factors@[i]@)),
            unit_y: (self.unit_y@),
        }
    }
}

/// A typed vector payload: the shared metadata and the element data,
/// tagged by the vector-class code read from the record.
///
/// Floating-point elements are carried as IEEE-754 bit patterns: `F32`
/// holds `u32` single bits and `F64` holds `u64` double bits.
#[derive(Debug, PartialEq, Clone)]
pub enum Vector {
    I8(VectorInfo, Vec<i8>),
    U8(VectorInfo, Vec<u8>),
    I16(VectorInfo, Vec<i16>),
    U16(VectorInfo, Vec<u16>),
    I32(VectorInfo, Vec<i32>),
    U32(VectorInfo, Vec<u32>),
    U64(VectorInfo, Vec<u64>),
    I64(VectorInfo, Vec<i64>),
    F32(VectorInfo, Vec<u32>),
    F64(VectorInfo, Vec<u64>),
    Strings(VectorInfo, Vec<String>),
    Complexes(VectorInfo, Vec<Complex>),
}

/// Mathematical view of [`Vector`].
pub enum VectorV {
    I8(VectorInfoV, Seq<i8>),
    U8(VectorInfoV, Seq<u8>),
    I16(VectorInfoV, Seq<i16>),
    U16(VectorInfoV, Seq<u16>),
    I32(VectorInfoV, Seq<i32>),
    U32(VectorInfoV, Seq<u32>),
    U64(VectorInfoV, Seq<u64>),
    I64(VectorInfoV, Seq<i64>),
    F32(VectorInfoV, Seq<u32>),
    F64(VectorInfoV, Seq<u64>),
    Strings(VectorInfoV, Seq<Seq<char>>),
    Complexes(VectorInfoV, Seq<ComplexV>),
}

impl View for Vector {
    type V = VectorV;

    open spec fn view(&self) -> VectorV {
        match self {
            Vector::I8(info, d) => VectorV::I8(info@, d@),
            Vector::U8(info, d) => VectorV::U8(info@, d@),
            Vector::I16(info, d) => VectorV::I16(info@, d@),
            Vector::U16(info, d) => VectorV::U16(info@, d@),
            Vector::I32(info, d) => VectorV::I32(info@, d@),
            Vector::U32(info, d) => VectorV::U32(info@, d@),
            Vector::U64(info, d) => VectorV::U64(info@, d@),
            Vector::I64(info, d) => VectorV::I64(info@, d@),
            Vector::F32(info, d) => VectorV::F32(info@, d@),
            Vector::F64(info, d) => VectorV::F64(info@, d@),
            Vector::Strings(info, d) => VectorV::Strings(
                info@,
                Seq::new(d@.len(), |i: int| d@[i]@),
            ),
            Vector::Complexes(info, d) => VectorV::Complexes(
                info@,
                Seq::new(d@.len(), |i: int| d@[i]@),
            ),
        }
    }
}


} // verus!
