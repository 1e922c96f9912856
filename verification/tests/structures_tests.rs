use gwframes::structures::Checksum;
use gwframes::structures::Common;
use gwframes::structures::DataModel;
use gwframes::structures::Endian;
use gwframes::structures::FrameError;
use gwframes::structures::Library;
use gwframes::structures::Major;
use gwframes::structures::Minor;
use gwframes::structures::StructureLookup;
use gwframes::structures::Structures;
use gwframes::structures::kind_of_name;

#[test]
fn test_common_size() {
    assert_eq!(Common::size_of(), 14);
}

#[test]
fn test_struct_length() {
    let common = Common::new(78, 1);
    assert_eq!(common.struct_length(), 64);
}

#[test]
fn test_header_field_codes() {
    assert_eq!(Major::from(6), Major::Release6);
    assert_eq!(Major::from(8), Major::Release8);
    assert_eq!(Major::from(5), Major::Unsupported(5));
    assert_eq!(Minor::from(255), Minor::Beta);
    assert_eq!(Minor::from(20), Minor::Minor(20));
    assert_eq!(Library::from(1), Library::LibFrameL);
    assert_eq!(Library::from(65), Library::LibFrameL);
    assert_eq!(Library::from(2), Library::LibFrameCPP);
    assert_eq!(Library::from(9), Library::LibUnknown(9));
    assert_eq!(Checksum::from(1), Checksum::SumCRC);
    assert_eq!(Checksum::from(0), Checksum::SumNone);
    assert_eq!(Endian::from([0x12, 0x34]), Endian::Big);
    assert_eq!(Endian::from([0x34, 0x12]), Endian::Little);
    assert_eq!(Endian::from([0, 0]), Endian::Little);
    assert_eq!(DataModel::new(4, 8, 8), DataModel::LP64);
    assert_eq!(DataModel::new(4, 4, 8), DataModel::LLP64);
    assert_eq!(DataModel::new(3, 3, 3), DataModel::Unknown);
}

#[test]
fn test_class_table_mandatory_bindings() {
    let lookup = StructureLookup::new();
    assert_eq!(lookup.structure(1), Structures::FrSH);
    assert_eq!(lookup.structure(2), Structures::FrSE);
    assert_eq!(lookup.structure(3), Structures::StructureUnknown);
}

#[test]
fn test_class_table_insert() {
    let mut lookup = StructureLookup::new();
    assert_eq!(lookup.insert("FrameH", 3), Ok(()));
    assert_eq!(lookup.structure(3), Structures::FrameH);
    assert_eq!(lookup.insert("FrVect", 300), Err(FrameError::BadClassId));
    assert_eq!(lookup.insert("FrBogus", 4), Err(FrameError::UnknownStructureKind));
    assert_eq!(lookup.structure(4), Structures::StructureUnknown);
    assert_eq!(lookup.structure(1), Structures::FrSH);
    assert_eq!(lookup.structure(2), Structures::FrSE);
}

#[test]
fn test_class_table_fixed_ids_never_rebound() {
    let mut lookup = StructureLookup::new();
    assert_eq!(lookup.insert("FrameH", 1), Ok(()));
    assert_eq!(lookup.insert("FrVect", 2), Ok(()));
    assert_eq!(lookup.structure(1), Structures::FrSH);
    assert_eq!(lookup.structure(2), Structures::FrSE);
    assert_eq!(lookup.insert("FrSH", 1), Ok(()));
    assert_eq!(lookup.insert("FrSE", 2), Ok(()));
    assert_eq!(lookup.structure(1), Structures::FrSH);
    assert_eq!(lookup.structure(2), Structures::FrSE);
}

#[test]
fn test_kind_of_name() {
    assert_eq!(kind_of_name("FrEndOfFile"), Some(Structures::FrEndOfFile));
    assert_eq!(kind_of_name("FrAdcData"), Some(Structures::FrAdcData));
    assert_eq!(kind_of_name("FrTOC"), Some(Structures::FrTOC));
    assert_eq!(kind_of_name("frvect"), None);
    assert_eq!(kind_of_name(""), None);
}
