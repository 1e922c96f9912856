//! The dispatch loop: walks the stream of length-prefixed, class-tagged
//! records, resolves each class through the file-local table, decodes the
//! records the consumer asked for, skips the rest by their declared
//! length, and stops at the end-of-file record.

use vstd::prelude::*;

use crate::decompress::Decompressor;
use crate::decompress::spec_decompressed_size;
use crate::structures::ADC;
use crate::structures::ADCV;
use crate::structures::Common;
use crate::structures::Detector;
use crate::structures::DetectorV;
use crate::structures::Endian;
use crate::structures::Event;
use crate::structures::EventV;
use crate::structures::FrameError;
use crate::structures::FrameHeader;
use crate::structures::FrameHeaderV;
use crate::structures::Header;
use crate::structures::History;
use crate::structures::HistoryV;
use crate::structures::Major;
use crate::structures::Message;
use crate::structures::MessageV;
use crate::structures::PostProcessed;
use crate::structures::PostProcessedV;
use crate::structures::RawData;
use crate::structures::RawDataV;
use crate::structures::Serial;
use crate::structures::SerialV;
use crate::structures::SimulatedEvent;
use crate::structures::SimulatedEventV;
use crate::structures::Simulation;
use crate::structures::SimulationV;
use crate::structures::StaticData;
use crate::structures::StaticDataV;
use crate::structures::StructureLookup;
use crate::structures::Structures;
use crate::structures::Summary;
use crate::structures::SummaryV;
use crate::structures::Table;
use crate::structures::TableV;
use crate::structures::Vector;
use crate::structures::VectorV;
use crate::structures::spec_kind_of_name;
use crate::v6::sdec_common_v6;
use crate::v6::sdec_event_v6;
use crate::v6::sdec_serial_v6;
use crate::v6::sdec_simulated_event_v6;
use crate::v6::sdec_simulated_v6;
use crate::v8::sdec_adc;
use crate::v8::sdec_common_v8;
use crate::v8::sdec_detector;
use crate::v8::sdec_event;
use crate::v8::sdec_frame_header;
use crate::v8::sdec_history;
use crate::v8::sdec_message;
use crate::v8::sdec_post_processed;
use crate::v8::sdec_raw;
use crate::v8::sdec_serial;
use crate::v8::sdec_simulated;
use crate::v8::sdec_simulated_event;
use crate::v8::sdec_static_data;
use crate::v8::sdec_structure_header;
use crate::v8::sdec_summary;
use crate::v8::sdec_table;
use crate::v8::sdec_vector_head;
use crate::v8::sdec_vector_meta;
use crate::v8::spec_new_vector;
use crate::v8::spec_vector_info;

verus! {

/// One decoded record, delivered in the order the records appear in the
/// file.
#[derive(Debug, PartialEq, Clone)]
pub enum Record {
    Frame(FrameHeader),
    Adc(ADC),
    Detector(Detector),
    Event(Event),
    History(History),
    Message(Message),
    PostProcessed(PostProcessed),
    Raw(RawData),
    Serial(Serial),
    Simulation(Simulation),
    SimulatedEvent(SimulatedEvent),
    StaticData(StaticData),
    Summary(Summary),
    Table(Table),
    Vector(Vector),
}

/// Mathematical view of [`Record`].
pub enum RecordV {
    Frame(FrameHeaderV),
    Adc(ADCV),
    Detector(DetectorV),
    Event(EventV),
    History(HistoryV),
    Message(MessageV),
    PostProcessed(PostProcessedV),
    Raw(RawDataV),
    Serial(SerialV),
    Simulation(SimulationV),
    SimulatedEvent(SimulatedEventV),
    StaticData(StaticDataV),
    Summary(SummaryV),
    Table(TableV),
    Vector(VectorV),
}

impl View for Record {
    type V = RecordV;

    open spec fn view(&self) -> RecordV {
        match self {
            Record::Frame(v) => RecordV::Frame(v@),
            Record::Adc(v) => RecordV::Adc(v@),
            Record::Detector(v) => RecordV::Detector(v@),
            Record::Event(v) => RecordV::Event(v@),
            Record::History(v) => RecordV::History(v@),
            Record::Message(v) => RecordV::Message(v@),
            Record::PostProcessed(v) => RecordV::PostProcessed(v@),
            Record::Raw(v) => RecordV::Raw(v@),
            Record::Serial(v) => RecordV::Serial(v@),
            Record::Simulation(v) => RecordV::Simulation(v@),
            Record::SimulatedEvent(v) => RecordV::SimulatedEvent(v@),
            Record::StaticData(v) => RecordV::StaticData(v@),
            Record::Summary(v) => RecordV::Summary(v@),
            Record::Table(v) => RecordV::Table(v@),
            Record::Vector(v) => RecordV::Vector(v@),
        }
    }
}

/// Views of a vector of records.
pub open spec fn spec_record_views(q: Seq<Record>) -> Seq<RecordV> {
    Seq::new(q.len(), |i: int| q[i]@)
}

/// Which record kinds the consumer wants decoded. Dictionary headers are
/// always observed, whatever the consumer asks: the class table depends on
/// them. An uninterested kind is skipped by its declared length at no
/// decoding cost.
#[derive(Debug, PartialEq, Eq, Copy, Clone, Structural)]
pub struct Interests {
    pub begin_frame: bool,
    pub adc: bool,
    pub detector: bool,
    pub event: bool,
    pub history: bool,
    pub message: bool,
    pub post_processed: bool,
    pub raw: bool,
    pub serial: bool,
    pub simulated: bool,
    pub simulated_event: bool,
    pub static_data: bool,
    pub summary: bool,
    pub table: bool,
    pub vector: bool,
}

impl Interests {
    /// Wants nothing: every record but the dictionary headers is skipped.
    pub fn none() -> (r: Interests)
        ensures
            r == (Interests {
                begin_frame: false,
                adc: false,
                detector: false,
                event: false,
                history: false,
                message: false,
                post_processed: false,
                raw: false,
                serial: false,
                simulated: false,
                simulated_event: false,
                static_data: false,
                summary: false,
                table: false,
                vector: false,
            }),
    {
        Interests {
            begin_frame: false,
            adc: false,
            detector: false,
            event: false,
            history: false,
            message: false,
            post_processed: false,
            raw: false,
            serial: false,
            simulated: false,
            simulated_event: false,
            static_data: false,
            summary: false,
            table: false,
            vector: false,
        }
    }

    /// Wants every record kind.
    pub fn all() -> (r: Interests)
        ensures
            r == (Interests {
                begin_frame: true,
                adc: true,
                detector: true,
                event: true,
                history: true,
                message: true,
                post_processed: true,
                raw: true,
                serial: true,
                simulated: true,
                simulated_event: true,
                static_data: true,
                summary: true,
                table: true,
                vector: true,
            }),
    {
        Interests {
            begin_frame: true,
            adc: true,
            detector: true,
            event: true,
            history: true,
            message: true,
            post_processed: true,
            raw: true,
            serial: true,
            simulated: true,
            simulated_event: true,
            static_data: true,
            summary: true,
            table: true,
            vector: true,
        }
    }
}

/// Whether a record of this kind is decoded rather than skipped:
/// dictionary headers always are, the payload kinds when asked for, and
/// everything else — dictionary entries, unknown classes, the
/// end-of-frame and table-of-contents bookkeeping — never.
pub open spec fn spec_handles(st: Structures, i: Interests) -> bool {
    match st {
        Structures::FrSH => true,
        Structures::FrameH => i.begin_frame,
        Structures::FrDetector => i.detector,
        Structures::FrAdcData => i.adc,
        Structures::FrMsg => i.message,
        Structures::FrHistory => i.history,
        Structures::FrRawData => i.raw,
        Structures::FrProcData => i.post_processed,
        Structures::FrSimData => i.simulated,
        Structures::FrSimEvent => i.simulated_event,
        Structures::FrSerData => i.serial,
        Structures::FrStatData => i.static_data,
        Structures::FrSummary => i.summary,
        Structures::FrTable => i.table,
        Structures::FrVect => i.vector,
        Structures::FrEvent => i.event,
        _ => false,
    }
}

/// The class table every parse starts from: the two bindings the format
/// fixes.
pub open spec fn spec_init_table() -> Map<u8, Structures> {
    Map::<u8, Structures>::empty().insert(1u8, Structures::FrSH).insert(2u8, Structures::FrSE)
}

/// The first oracle entry, or absent when the oracle is spent.
pub open spec fn oracle_first(oracle: Seq<Option<Seq<u8>>>) -> Option<Seq<u8>> {
    if oracle.len() > 0 {
        oracle[0]
    } else {
        None
    }
}

/// Whether decoding this record consumes one oracle entry: exactly the
/// vector records whose payload is stored compressed, since what the
/// decompressor returns is not a function of the file bytes alone.
pub open spec fn spec_consumes_oracle(
    st: Structures,
    s: Seq<u8>,
    p: int,
    lim: int,
    e: Endian,
) -> bool {
    st == Structures::FrVect && match sdec_vector_head(s, p, lim, e) {
        Ok((h, _)) => h.compression == 1 || h.compression == 257,
        Err(_) => false,
    }
}

/// The outcome of decoding one subscribed record at offset `p` with bound
/// `lim`: the emitted record view, if the kind emits one, and the class
/// table afterwards — a dictionary header binds a class and emits
/// nothing. `data_opt` stands for what the decompressor returned for a
/// compressed vector payload: absent means it failed.
pub open spec fn spec_handle(
    st: Structures,
    s: Seq<u8>,
    p: int,
    lim: int,
    e: Endian,
    v6fmt: bool,
    table: Map<u8, Structures>,
    data_opt: Option<Seq<u8>>,
) -> Result<(Option<RecordV>, Map<u8, Structures>), FrameError> {
    match st {
        Structures::FrSH => match sdec_structure_header(s, p, lim, e) {
            Err(er) => Err(er),
            Ok(((name, class), _)) => {
                if class > 255 {
                    Err(FrameError::BadClassId)
                } else {
                    match spec_kind_of_name(name) {
                        None => Err(FrameError::UnknownStructureKind),
                        Some(k) => Ok(
                            (None, crate::structures::spec_bind_class(table, class, k)),
                        ),
                    }
                }
            },
        },
        Structures::FrameH => match sdec_frame_header(s, p, lim, e) {
            Err(er) => Err(er),
            Ok((v, _)) => Ok((Some(RecordV::Frame(v)), table)),
        },
        Structures::FrDetector => match sdec_detector(s, p, lim, e) {
            Err(er) => Err(er),
            Ok((v, _)) => Ok((Some(RecordV::Detector(v)), table)),
        },
        Structures::FrAdcData => match sdec_adc(s, p, lim, e) {
            Err(er) => Err(er),
            Ok((v, _)) => Ok((Some(RecordV::Adc(v)), table)),
        },
        Structures::FrMsg => match sdec_message(s, p, lim, e) {
            Err(er) => Err(er),
            Ok((v, _)) => Ok((Some(RecordV::Message(v)), table)),
        },
        Structures::FrHistory => match sdec_history(s, p, lim, e) {
            Err(er) => Err(er),
            Ok((v, _)) => Ok((Some(RecordV::History(v)), table)),
        },
        Structures::FrRawData => match sdec_raw(s, p, lim, e) {
            Err(er) => Err(er),
            Ok((v, _)) => Ok((Some(RecordV::Raw(v)), table)),
        },
        Structures::FrProcData => match sdec_post_processed(s, p, lim, e) {
            Err(er) => Err(er),
            Ok((v, _)) => Ok((Some(RecordV::PostProcessed(v)), table)),
        },
        Structures::FrSimData => {
            if v6fmt {
                match sdec_simulated_v6(s, p, lim, e) {
                    Err(er) => Err(er),
                    Ok((v, _)) => Ok((Some(RecordV::Simulation(v)), table)),
                }
            } else {
                match sdec_simulated(s, p, lim, e) {
                    Err(er) => Err(er),
                    Ok((v, _)) => Ok((Some(RecordV::Simulation(v)), table)),
                }
            }
        },
        Structures::FrSimEvent => {
            if v6fmt {
                match sdec_simulated_event_v6(s, p, lim, e) {
                    Err(er) => Err(er),
                    Ok((v, _)) => Ok((Some(RecordV::SimulatedEvent(v)), table)),
                }
            } else {
                match sdec_simulated_event(s, p, lim, e) {
                    Err(er) => Err(er),
                    Ok((v, _)) => Ok((Some(RecordV::SimulatedEvent(v)), table)),
                }
            }
        },
        Structures::FrSerData => {
            if v6fmt {
                match sdec_serial_v6(s, p, lim, e) {
                    Err(er) => Err(er),
                    Ok((v, _)) => Ok((Some(RecordV::Serial(v)), table)),
                }
            } else {
                match sdec_serial(s, p, lim, e) {
                    Err(er) => Err(er),
                    Ok((v, _)) => Ok((Some(RecordV::Serial(v)), table)),
                }
            }
        },
        Structures::FrStatData => match sdec_static_data(s, p, lim, e) {
            Err(er) => Err(er),
            Ok((v, _)) => Ok((Some(RecordV::StaticData(v)), table)),
        },
        Structures::FrSummary => match sdec_summary(s, p, lim, e) {
            Err(er) => Err(er),
            Ok((v, _)) => Ok((Some(RecordV::Summary(v)), table)),
        },
        Structures::FrTable => match sdec_table(s, p, lim, e) {
            Err(er) => Err(er),
            Ok((v, _)) => Ok((Some(RecordV::Table(v)), table)),
        },
        Structures::FrEvent => {
            if v6fmt {
                match sdec_event_v6(s, p, lim, e) {
                    Err(er) => Err(er),
                    Ok((v, _)) => Ok((Some(RecordV::Event(v)), table)),
                }
            } else {
                match sdec_event(s, p, lim, e) {
                    Err(er) => Err(er),
                    Ok((v, _)) => Ok((Some(RecordV::Event(v)), table)),
                }
            }
        },
        Structures::FrVect => match sdec_vector_head(s, p, lim, e) {
            Err(er) => Err(er),
            Ok((h, p2)) => {
                if h.compression == 0 || h.compression == 256 {
                    match sdec_vector_meta(s, p2, lim, e) {
                        Err(er) => Err(er),
                        Ok((m, _)) => Ok(
                            (
                                Some(
                                    RecordV::Vector(
                                        spec_new_vector(
                                            h.raw,
                                            h.vector_class,
                                            e,
                                            spec_vector_info(h, m),
                                        ),
                                    ),
                                ),
                                table,
                            ),
                        ),
                    }
                } else if h.compression == 1 || h.compression == 257 {
                    match data_opt {
                        None => Err(FrameError::DecompressionFailed),
                        Some(data) => {
                            if data.len() != spec_decompressed_size(h.vector_class, h.num_samples) {
                                Err(FrameError::DecompressionFailed)
                            } else {
                                match sdec_vector_meta(s, p2, lim, e) {
                                    Err(er) => Err(er),
                                    Ok((m, _)) => Ok(
                                        (
                                            Some(
                                                RecordV::Vector(
                                                    spec_new_vector(
                                                        data,
                                                        h.vector_class,
                                                        e,
                                                        spec_vector_info(h, m),
                                                    ),
                                                ),
                                            ),
                                            table,
                                        ),
                                    ),
                                }
                            }
                        },
                    }
                } else {
                    Err(FrameError::UnsupportedCompression)
                }
            },
        },
        _ => Ok((None, table)),
    }
}

/// What the dispatch loop makes of the records from offset `pos` on, with
/// the given class table: the record views it emits, in file order, and
/// the fault that stops it, if any — reaching the end-of-file record is
/// the success. Each record advances the offset by exactly its declared
/// length; `oracle` supplies, in order, what the decompressor returned
/// for each compressed vector payload that is decoded.
pub open spec fn spec_run(
    s: Seq<u8>,
    pos: int,
    table: Map<u8, Structures>,
    intr: Interests,
    e: Endian,
    v6fmt: bool,
    oracle: Seq<Option<Seq<u8>>>,
) -> (Seq<RecordV>, Option<FrameError>)
    decreases s.len() - pos,
    when 0 <= pos <= s.len()
{
    let c = if v6fmt {
        sdec_common_v6(s, pos, e)
    } else {
        sdec_common_v8(s, pos, e)
    };
    match c {
        Err(er) => (Seq::empty(), Some(er)),
        Ok((length, class, p14)) => {
            let st = if table.contains_key(class) {
                table[class]
            } else {
                Structures::StructureUnknown
            };
            if st == Structures::FrEndOfFile {
                (Seq::empty(), None)
            } else if length < 14 {
                (Seq::empty(), Some(FrameError::ShortRead))
            } else {
                let next = pos + length;
                if !spec_handles(st, intr) {
                    if next > s.len() {
                        (Seq::empty(), Some(FrameError::ShortRead))
                    } else {
                        spec_run(s, next, table, intr, e, v6fmt, oracle)
                    }
                } else {
                    let lim = if next > s.len() {
                        s.len() as int
                    } else {
                        next
                    };
                    match spec_handle(st, s, p14, lim, e, v6fmt, table, oracle_first(oracle)) {
                        Err(er) => (Seq::empty(), Some(er)),
                        Ok((opt, table2)) => {
                            let oracle2 = if spec_consumes_oracle(st, s, p14, lim, e) {
                                oracle.drop_first()
                            } else {
                                oracle
                            };
                            let emitted = match opt {
                                Some(r) => seq![r],
                                None => Seq::<RecordV>::empty(),
                            };
                            if next > s.len() {
                                (emitted, Some(FrameError::ShortRead))
                            } else {
                                let rest = spec_run(s, next, table2, intr, e, v6fmt, oracle2);
                                (emitted + rest.0, rest.1)
                            }
                        },
                    }
                }
            }
        },
    }
}

/// The dispatcher: the per-parse class table and the reusable
/// decompression context.
pub struct Parser {
    lookup: StructureLookup,
    dec: Decompressor,
}

impl Parser {
    /// The class table the this parser starts from.
    pub closed spec fn table(&self) -> Map<u8, Structures> {
        self.lookup@
    }

    pub fn new() -> (r: Parser)
        ensures
            r.table() == spec_init_table(),
    {
        Parser { lookup: StructureLookup::new(), dec: Decompressor::new() }
    }

    fn handles(&self, structure: &Structures, interests: &Interests) -> (r: bool)
        ensures
            r == spec_handles(*structure, *interests),
    {
        match structure {
            Structures::FrSH => true,
            Structures::FrameH => interests.begin_frame,
            Structures::FrDetector => interests.detector,
            Structures::FrAdcData => interests.adc,
            Structures::FrMsg => interests.message,
            Structures::FrHistory => interests.history,
            Structures::FrRawData => interests.raw,
            Structures::FrProcData => interests.post_processed,
            Structures::FrSimData => interests.simulated,
            Structures::FrSimEvent => interests.simulated_event,
            Structures::FrSerData => interests.serial,
            Structures::FrStatData => interests.static_data,
            Structures::FrSummary => interests.summary,
            Structures::FrTable => interests.table,
            Structures::FrVect => interests.vector,
            Structures::FrEvent => interests.event,
            _ => false,
        }
    }


    /// Decodes one vector record, reporting as ghost what the decompressor
    /// returned.
    #[verifier::rlimit(100)]
    fn handle_vector(&mut self, header: &Header, bytes: &[u8], start: usize, lim: usize) -> (r: (
        Result<Option<Record>, FrameError>,
        Ghost<Option<Seq<u8>>>,
    ))
        requires
            start <= lim,
            lim <= bytes@.len(),
        ensures
            ({
                let res = spec_handle(
                    Structures::FrVect,
                    bytes@,
                    start as int,
                    lim as int,
                    header.endian,
                    header.version.major == Major::Release6,
                    old(self).table(),
                    r.1@,
                );
                match r.0 {
                    Ok(opt) => {
                        &&& res matches Ok(pr)
                        &&& pr.1 == final(self).table()
                        &&& match opt {
                            Some(rec) => pr.0 == Some(rec@),
                            None => pr.0 is None,
                        }
                    },
                    Err(er) => res == Err::<(Option<RecordV>, Map<u8, Structures>), FrameError>(er)
                        && final(self).table() == old(self).table(),
                }
            }),
    {
        let e = header.endian;
        let mut p: usize = start;
        let res = crate::v8::vector(header, bytes, &mut p, lim, &mut self.dec);
        match res {
            Ok(v) => {
                let ghost hd = sdec_vector_head(bytes@, start as int, lim as int, e);
                let ghost h = hd->Ok_0.0;
                let ghost used: Option<Seq<u8>> = if h.compression == 0 || h.compression == 256 {
                    None
                } else {
                    Some(
                        choose|data: Seq<u8>|
                            data.len() == spec_decompressed_size(h.vector_class, h.num_samples)
                                && v@ == spec_new_vector(
                                data,
                                h.vector_class,
                                e,
                                spec_vector_info(
                                    h,
                                    sdec_vector_meta(bytes@, hd->Ok_0.1, lim as int, e)->Ok_0.0,
                                ),
                            ),
                    )
                };
                (Ok(Some(Record::Vector(v))), Ghost(used))
            },
            Err(er) => {
                let ghost hd = sdec_vector_head(bytes@, start as int, lim as int, e);
                let ghost used: Option<Seq<u8>> = if hd matches Ok(hp) && (hp.0.compression == 1
                    || hp.0.compression == 257) && er != FrameError::DecompressionFailed {
                    Some(
                        Seq::new(
                            spec_decompressed_size(
                                hd->Ok_0.0.vector_class,
                                hd->Ok_0.0.num_samples,
                            ) as nat,
                            |i: int| 0u8,
                        ),
                    )
                } else {
                    None
                };
                (Err(er), Ghost(used))
            },
        }
    }

    /// Decodes one subscribed record starting at `start` under the bound
    /// `lim`, mutating the class table for a dictionary header. The ghost
    /// component reports what the decompressor returned, for the oracle of
    /// [`spec_run`].
    #[verifier::rlimit(100)]
    fn handle(
        &mut self,
        structure: Structures,
        header: &Header,
        bytes: &[u8],
        start: usize,
        lim: usize,
    ) -> (r: (Result<Option<Record>, FrameError>, Ghost<Option<Seq<u8>>>))
        requires
            start <= lim,
            lim <= bytes@.len(),
        ensures
            ({
                let res = spec_handle(
                    structure,
                    bytes@,
                    start as int,
                    lim as int,
                    header.endian,
                    header.version.major == Major::Release6,
                    old(self).table(),
                    r.1@,
                );
                match r.0 {
                    Ok(opt) => {
                        &&& res matches Ok(pr)
                        &&& pr.1 == final(self).table()
                        &&& match opt {
                            Some(rec) => pr.0 == Some(rec@),
                            None => pr.0 is None,
                        }
                    },
                    Err(er) => res == Err::<(Option<RecordV>, Map<u8, Structures>), FrameError>(er)
                        && final(self).table() == old(self).table(),
                }
            }),
    {
        let e = header.endian;
        let v6fmt = header.version.major == Major::Release6;
        let mut p: usize = start;
        match structure {
            Structures::FrSH => match crate::v8::structure_header(header, bytes, &mut p, lim) {
                Err(er) => (Err(er), Ghost(None)),
                Ok((name, class)) => match self.lookup.insert(name.as_str(), class) {
                    Ok(()) => (Ok(None), Ghost(None)),
                    Err(er) => (Err(er), Ghost(None)),
                },
            },
            Structures::FrameH => match crate::v8::frameheader(header, bytes, &mut p, lim) {
                Err(er) => (Err(er), Ghost(None)),
                Ok(v) => (Ok(Some(Record::Frame(v))), Ghost(None)),
            },
            Structures::FrDetector => match crate::v8::detector(header, bytes, &mut p, lim) {
                Err(er) => (Err(er), Ghost(None)),
                Ok(v) => (Ok(Some(Record::Detector(v))), Ghost(None)),
            },
            Structures::FrAdcData => match crate::v8::adc(header, bytes, &mut p, lim) {
                Err(er) => (Err(er), Ghost(None)),
                Ok(v) => (Ok(Some(Record::Adc(v))), Ghost(None)),
            },
            Structures::FrMsg => match crate::v8::message(header, bytes, &mut p, lim) {
                Err(er) => (Err(er), Ghost(None)),
                Ok(v) => (Ok(Some(Record::Message(v))), Ghost(None)),
            },
            Structures::FrHistory => match crate::v8::history(header, bytes, &mut p, lim) {
                Err(er) => (Err(er), Ghost(None)),
                Ok(v) => (Ok(Some(Record::History(v))), Ghost(None)),
            },
            Structures::FrRawData => match crate::v8::raw(header, bytes, &mut p, lim) {
                Err(er) => (Err(er), Ghost(None)),
                Ok(v) => (Ok(Some(Record::Raw(v))), Ghost(None)),
            },
            _ => self.handle_rest(structure, header, bytes, start, lim),
        }
    }

    fn handle_rest(
        &mut self,
        structure: Structures,
        header: &Header,
        bytes: &[u8],
        start: usize,
        lim: usize,
    ) -> (r: (Result<Option<Record>, FrameError>, Ghost<Option<Seq<u8>>>))
        requires
            start <= lim,
            lim <= bytes@.len(),
            structure !is FrSH,
            structure !is FrameH,
            structure !is FrDetector,
            structure !is FrAdcData,
            structure !is FrMsg,
            structure !is FrHistory,
            structure !is FrRawData,
        ensures
            ({
                let res = spec_handle(
                    structure,
                    bytes@,
                    start as int,
                    lim as int,
                    header.endian,
                    header.version.major == Major::Release6,
                    old(self).table(),
                    r.1@,
                );
                match r.0 {
                    Ok(opt) => {
                        &&& res matches Ok(pr)
                        &&& pr.1 == final(self).table()
                        &&& match opt {
                            Some(rec) => pr.0 == Some(rec@),
                            None => pr.0 is None,
                        }
                    },
                    Err(er) => res == Err::<(Option<RecordV>, Map<u8, Structures>), FrameError>(er)
                        && final(self).table() == old(self).table(),
                }
            }),
    {
        let e = header.endian;
        let v6fmt = header.version.major == Major::Release6;
        let mut p: usize = start;
        match structure {
            Structures::FrProcData => match crate::v8::post_processed(header, bytes, &mut p, lim) {
                Err(er) => (Err(er), Ghost(None)),
                Ok(v) => (Ok(Some(Record::PostProcessed(v))), Ghost(None)),
            },
            Structures::FrSimData => {
                if v6fmt {
                    match crate::v6::simulated(header, bytes, &mut p, lim) {
                        Err(er) => (Err(er), Ghost(None)),
                        Ok(v) => (Ok(Some(Record::Simulation(v))), Ghost(None)),
                    }
                } else {
                    match crate::v8::simulated(header, bytes, &mut p, lim) {
                        Err(er) => (Err(er), Ghost(None)),
                        Ok(v) => (Ok(Some(Record::Simulation(v))), Ghost(None)),
                    }
                }
            },
            Structures::FrSimEvent => {
                if v6fmt {
                    match crate::v6::simulated_event(header, bytes, &mut p, lim) {
                        Err(er) => (Err(er), Ghost(None)),
                        Ok(v) => (Ok(Some(Record::SimulatedEvent(v))), Ghost(None)),
                    }
                } else {
                    match crate::v8::simulated_event(header, bytes, &mut p, lim) {
                        Err(er) => (Err(er), Ghost(None)),
                        Ok(v) => (Ok(Some(Record::SimulatedEvent(v))), Ghost(None)),
                    }
                }
            },
            Structures::FrSerData => {
                if v6fmt {
                    match crate::v6::serial(header, bytes, &mut p, lim) {
                        Err(er) => (Err(er), Ghost(None)),
                        Ok(v) => (Ok(Some(Record::Serial(v))), Ghost(None)),
                    }
                } else {
                    match crate::v8::serial(header, bytes, &mut p, lim) {
                        Err(er) => (Err(er), Ghost(None)),
                        Ok(v) => (Ok(Some(Record::Serial(v))), Ghost(None)),
                    }
                }
            },
            _ => self.handle_last(structure, header, bytes, start, lim),
        }
    }

    fn handle_last(
        &mut self,
        structure: Structures,
        header: &Header,
        bytes: &[u8],
        start: usize,
        lim: usize,
    ) -> (r: (Result<Option<Record>, FrameError>, Ghost<Option<Seq<u8>>>))
        requires
            start <= lim,
            lim <= bytes@.len(),
            structure !is FrSH,
            structure !is FrameH,
            structure !is FrDetector,
            structure !is FrAdcData,
            structure !is FrMsg,
            structure !is FrHistory,
            structure !is FrRawData,
            structure !is FrProcData,
            structure !is FrSimData,
            structure !is FrSimEvent,
            structure !is FrSerData,
        ensures
            ({
                let res = spec_handle(
                    structure,
                    bytes@,
                    start as int,
                    lim as int,
                    header.endian,
                    header.version.major == Major::Release6,
                    old(self).table(),
                    r.1@,
                );
                match r.0 {
                    Ok(opt) => {
                        &&& res matches Ok(pr)
                        &&& pr.1 == final(self).table()
                        &&& match opt {
                            Some(rec) => pr.0 == Some(rec@),
                            None => pr.0 is None,
                        }
                    },
                    Err(er) => res == Err::<(Option<RecordV>, Map<u8, Structures>), FrameError>(er)
                        && final(self).table() == old(self).table(),
                }
            }),
    {
        let e = header.endian;
        let v6fmt = header.version.major == Major::Release6;
        let mut p: usize = start;
        match structure {
            Structures::FrStatData => match crate::v8::static_data(header, bytes, &mut p, lim) {
                Err(er) => (Err(er), Ghost(None)),
                Ok(v) => (Ok(Some(Record::StaticData(v))), Ghost(None)),
            },
            Structures::FrSummary => match crate::v8::summary(header, bytes, &mut p, lim) {
                Err(er) => (Err(er), Ghost(None)),
                Ok(v) => (Ok(Some(Record::Summary(v))), Ghost(None)),
            },
            Structures::FrTable => match crate::v8::table(header, bytes, &mut p, lim) {
                Err(er) => (Err(er), Ghost(None)),
                Ok(v) => (Ok(Some(Record::Table(v))), Ghost(None)),
            },
            Structures::FrEvent => {
                if v6fmt {
                    match crate::v6::event(header, bytes, &mut p, lim) {
                        Err(er) => (Err(er), Ghost(None)),
                        Ok(v) => (Ok(Some(Record::Event(v))), Ghost(None)),
                    }
                } else {
                    match crate::v8::event(header, bytes, &mut p, lim) {
                        Err(er) => (Err(er), Ghost(None)),
                        Ok(v) => (Ok(Some(Record::Event(v))), Ghost(None)),
                    }
                }
            },
            Structures::FrVect => self.handle_vector(header, bytes, start, lim),
            _ => (Ok(None), Ghost(None)),
        }
    }

}

impl Parser {
    /// Runs the dispatch loop from offset 40 to the end-of-file record.
    /// Returns the decoded records in file order and the first fault, if
    /// any; the ghost component reports what the decompressor returned for
    /// each compressed vector payload, in order, so that the result is
    /// exactly what [`spec_run`] makes of the bytes.
    #[verifier::rlimit(100)]
    #[verifier::loop_isolation(false)]
    pub fn parse(&mut self, header: &Header, bytes: &[u8], interests: &Interests) -> (r: (
        Vec<Record>,
        Option<FrameError>,
        Ghost<Seq<Option<Seq<u8>>>>,
    ))
        requires
            header.version.major == Major::Release6 || header.version.major == Major::Release8,
            bytes@.len() >= 40,
        ensures
            ({
                let run = spec_run(
                    bytes@,
                    40,
                    spec_init_table(),
                    *interests,
                    header.endian,
                    header.version.major == Major::Release6,
                    r.2@,
                );
                spec_record_views(r.0@) == run.0 && r.1 == run.1
            }),
    {
        self.lookup = crate::structures::StructureLookup::new();
        let e = header.endian;
        let v6fmt = header.version.major == Major::Release6;
        let mut records: Vec<Record> = Vec::new();
        let ghost mut oracle: Seq<Option<Seq<u8>>> = Seq::empty();
        let mut pos: usize = 40;
        loop
            invariant
                40 <= pos <= bytes@.len(),
                forall|orest: Seq<Option<Seq<u8>>>|
                    spec_run(
                        bytes@,
                        40,
                        spec_init_table(),
                        *interests,
                        e,
                        v6fmt,
                        oracle + orest,
                    ) == ({
                        let rem = #[trigger] spec_run(
                            bytes@,
                            pos as int,
                            self.table(),
                            *interests,
                            e,
                            v6fmt,
                            orest,
                        );
                        (spec_record_views(records@) + rem.0, rem.1)
                    }),
            decreases bytes@.len() - pos,
        {
            let ghost pos0 = pos as int;
            let ghost table0 = self.table();
            let ghost views0 = spec_record_views(records@);
            let c = if v6fmt {
                crate::v6::common(header, bytes, &mut pos)
            } else {
                crate::v8::common(header, bytes, &mut pos)
            };
            let common = match c {
                Ok(common) => common,
                Err(er) => {
                    proof {
                        let rem = spec_run(
                            bytes@,
                            pos0,
                            table0,
                            *interests,
                            e,
                            v6fmt,
                            Seq::<Option<Seq<u8>>>::empty(),
                        );
                        assert(rem == (Seq::<RecordV>::empty(), Some(er)));
                        assert(oracle + Seq::<Option<Seq<u8>>>::empty() =~= oracle);
                        assert(views0 + Seq::<RecordV>::empty() =~= views0);
                    }
                    return (records, Some(er), Ghost(oracle));
                },
            };
            let st = self.lookup.structure(common.class());
            if st == Structures::FrEndOfFile {
                proof {
                    let rem = spec_run(
                        bytes@,
                        pos0,
                        table0,
                        *interests,
                        e,
                        v6fmt,
                        Seq::<Option<Seq<u8>>>::empty(),
                    );
                    assert(rem == (Seq::<RecordV>::empty(), None::<FrameError>));
                    assert(oracle + Seq::<Option<Seq<u8>>>::empty() =~= oracle);
                    assert(views0 + Seq::<RecordV>::empty() =~= views0);
                }
                return (records, None, Ghost(oracle));
            }
            let length = common.total_length();
            if length < 14 {
                proof {
                    let rem = spec_run(
                        bytes@,
                        pos0,
                        table0,
                        *interests,
                        e,
                        v6fmt,
                        Seq::<Option<Seq<u8>>>::empty(),
                    );
                    assert(rem == (Seq::<RecordV>::empty(), Some(FrameError::ShortRead)));
                    assert(oracle + Seq::<Option<Seq<u8>>>::empty() =~= oracle);
                    assert(views0 + Seq::<RecordV>::empty() =~= views0);
                }
                return (records, Some(FrameError::ShortRead), Ghost(oracle));
            }
            let struct_length = common.struct_length();
            let remaining = (bytes.len() - pos) as u64;
            if !self.handles(&st, interests) {
                if struct_length > remaining {
                    proof {
                        let rem = spec_run(
                            bytes@,
                            pos0,
                            table0,
                            *interests,
                            e,
                            v6fmt,
                            Seq::<Option<Seq<u8>>>::empty(),
                        );
                        assert(rem == (Seq::<RecordV>::empty(), Some(FrameError::ShortRead)));
                        assert(oracle + Seq::<Option<Seq<u8>>>::empty() =~= oracle);
                        assert(views0 + Seq::<RecordV>::empty() =~= views0);
                    }
                    return (records, Some(FrameError::ShortRead), Ghost(oracle));
                }
                pos = pos + struct_length as usize;
                proof {
                    assert forall|orest: Seq<Option<Seq<u8>>>|
                        spec_run(
                            bytes@,
                            40,
                            spec_init_table(),
                            *interests,
                            e,
                            v6fmt,
                            oracle + orest,
                        ) == ({
                            let rem = #[trigger] spec_run(
                                bytes@,
                                pos as int,
                                self.table(),
                                *interests,
                                e,
                                v6fmt,
                                orest,
                            );
                            (spec_record_views(records@) + rem.0, rem.1)
                        }) by {
                        let rem0 = spec_run(bytes@, pos0, table0, *interests, e, v6fmt, orest);
                        assert(rem0 == spec_run(
                            bytes@,
                            pos as int,
                            self.table(),
                            *interests,
                            e,
                            v6fmt,
                            orest,
                        ));
                    }
                }
                continue ;
            }
            let lim = if struct_length > remaining {
                bytes.len()
            } else {
                pos + struct_length as usize
            };
            let ghost p14 = pos as int;
            let hr = self.handle(st, header, bytes, pos, lim);
            let used = hr.1;
            match hr.0 {
                Err(er) => {
                    proof {
                        let orest = seq![used@];
                        let rem = spec_run(bytes@, pos0, table0, *interests, e, v6fmt, orest);
                        assert(oracle_first(orest) == used@);
                        assert(rem == (Seq::<RecordV>::empty(), Some(er)));
                        assert(views0 + Seq::<RecordV>::empty() =~= views0);
                    }
                    return (records, Some(er), Ghost(oracle + seq![used@]));
                },
                Ok(opt) => {
                    let ghost emitted: Seq<RecordV> = match &opt {
                        Some(rec) => seq![rec@],
                        None => Seq::<RecordV>::empty(),
                    };
                    let ghost consumed = spec_consumes_oracle(st, bytes@, p14, lim as int, e);
                    if struct_length > remaining {
                        proof {
                            let orest = seq![used@];
                            let rem = spec_run(bytes@, pos0, table0, *interests, e, v6fmt, orest);
                            assert(oracle_first(orest) == used@);
                            assert(rem == (emitted, Some(FrameError::ShortRead)));
                        }
                        match opt {
                            Some(rec) => {
                                records.push(rec);
                                proof {
                                    assert(spec_record_views(records@) =~= views0 + emitted);
                                }
                            },
                            None => {
                                proof {
                                    assert(spec_record_views(records@) =~= views0 + emitted);
                                }
                            },
                        }
                        return (records, Some(FrameError::ShortRead), Ghost(oracle + seq![used@]));
                    }
                    proof {
                        assert forall|orest: Seq<Option<Seq<u8>>>|
                            spec_run(
                                bytes@,
                                40,
                                spec_init_table(),
                                *interests,
                                e,
                                v6fmt,
                                (if consumed {
                                    oracle + seq![used@]
                                } else {
                                    oracle
                                }) + orest,
                            ) == ({
                                let rem = #[trigger] spec_run(
                                    bytes@,
                                    pos0 + common.length(),
                                    self.table(),
                                    *interests,
                                    e,
                                    v6fmt,
                                    orest,
                                );
                                ((views0 + emitted) + rem.0, rem.1)
                            }) by {
                            let orest_ext: Seq<Option<Seq<u8>>> = if consumed {
                                seq![used@] + orest
                            } else {
                                orest
                            };
                            let rem0 = spec_run(
                                bytes@,
                                pos0,
                                table0,
                                *interests,
                                e,
                                v6fmt,
                                orest_ext,
                            );
                            if consumed {
                                assert(oracle_first(orest_ext) == used@);
                                assert(orest_ext.drop_first() =~= orest);
                                assert((oracle + seq![used@]) + orest =~= oracle + orest_ext);
                            } else {
                                assert(spec_handle(
                                    st,
                                    bytes@,
                                    p14,
                                    lim as int,
                                    e,
                                    v6fmt,
                                    table0,
                                    oracle_first(orest_ext),
                                ) == spec_handle(
                                    st,
                                    bytes@,
                                    p14,
                                    lim as int,
                                    e,
                                    v6fmt,
                                    table0,
                                    used@,
                                ));
                            }
                            let rem = spec_run(
                                bytes@,
                                pos0 + common.length(),
                                self.table(),
                                *interests,
                                e,
                                v6fmt,
                                orest,
                            );
                            assert(rem0 == (emitted + rem.0, rem.1));
                            assert((views0 + emitted) + rem.0 =~= views0 + (emitted + rem.0));
                        }
                        if consumed {
                            oracle = oracle + seq![used@];
                        }
                    }
                    match opt {
                        Some(rec) => {
                            records.push(rec);
                            proof {
                                assert(spec_record_views(records@) =~= views0 + emitted);
                            }
                        },
                        None => {
                            proof {
                                assert(spec_record_views(records@) =~= views0 + emitted);
                            }
                        },
                    }
                    pos = pos + struct_length as usize;
                },
            }
        }
    }
}

/// For every record the dispatch loop passes over — decoded or skipped —
/// the read position advances from the record's start by exactly the
/// record's declared total length before the next record is considered:
/// the run at a record's start is the step's own outcome followed by the
/// run at start plus length.
pub proof fn lemma_record_advance(
    s: Seq<u8>,
    pos: int,
    table: Map<u8, Structures>,
    intr: Interests,
    e: Endian,
    v6fmt: bool,
    oracle: Seq<Option<Seq<u8>>>,
)
    requires
        0 <= pos,
        ({
            let c = if v6fmt {
                sdec_common_v6(s, pos, e)
            } else {
                sdec_common_v8(s, pos, e)
            };
            &&& c matches Ok(t)
            &&& 14 <= t.0
            &&& pos + t.0 <= s.len()
            &&& (if table.contains_key(t.1) {
                table[t.1]
            } else {
                Structures::StructureUnknown
            }) != Structures::FrEndOfFile
        }),
    ensures
        ({
            let c = if v6fmt {
                sdec_common_v6(s, pos, e)
            } else {
                sdec_common_v8(s, pos, e)
            };
            let t = c->Ok_0;
            let st = if table.contains_key(t.1) {
                table[t.1]
            } else {
                Structures::StructureUnknown
            };
            let next = pos + t.0;
            &&& !spec_handles(st, intr) ==> spec_run(s, pos, table, intr, e, v6fmt, oracle)
                == spec_run(s, next, table, intr, e, v6fmt, oracle)
            &&& (spec_handles(st, intr) && spec_handle(
                st,
                s,
                t.2,
                next,
                e,
                v6fmt,
                table,
                oracle_first(oracle),
            ) is Ok) ==> ({
                let pr = spec_handle(
                    st,
                    s,
                    t.2,
                    next,
                    e,
                    v6fmt,
                    table,
                    oracle_first(oracle),
                )->Ok_0;
                let oracle2 = if spec_consumes_oracle(st, s, t.2, next, e) {
                    oracle.drop_first()
                } else {
                    oracle
                };
                let rest = spec_run(s, next, pr.1, intr, e, v6fmt, oracle2);
                spec_run(s, pos, table, intr, e, v6fmt, oracle) == ((match pr.0 {
                    Some(r) => seq![r],
                    None => Seq::<RecordV>::empty(),
                }) + rest.0, rest.1)
            })
        }),
{
}

} // verus!


