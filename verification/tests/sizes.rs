use arc_reader::mem_file::Record;
use arc_reader::structs::ArcHeader;
use arc_reader::structs::CompTableHeader;
use arc_reader::structs::DirectoryInfo;
use arc_reader::structs::DirectoryOffsets;
use arc_reader::structs::FileInfo2;
use arc_reader::structs::FileInfoSubIndex;
use arc_reader::structs::FileInformationIndex;
use arc_reader::structs::FileInformationPath;
use arc_reader::structs::FileInformationUnknownTable;
use arc_reader::structs::FileSystemHeader;
use arc_reader::structs::FolderHashIndex;
use arc_reader::structs::Hash40;
use arc_reader::structs::HashIndexGroup;
use arc_reader::structs::QuickDir;
use arc_reader::structs::SomeFolderThing;
use arc_reader::structs::StreamEntry;
use arc_reader::structs::StreamHashToName;
use arc_reader::structs::StreamHeader;
use arc_reader::structs::StreamOffsetEntry;
use arc_reader::structs::SubFileInfo;

#[test]
fn check_sizes() {
    let size_of_quick_dir = 12;
    assert_eq!(ArcHeader::record_size(), 48);
    assert_eq!(CompTableHeader::record_size(), 16);
    assert_eq!(FileSystemHeader::record_size(), 88);
    assert_eq!(StreamHeader::record_size(), 16);
    assert_eq!(QuickDir::record_size(), size_of_quick_dir);
    assert_eq!(StreamEntry::record_size(), 12);
    assert_eq!(StreamOffsetEntry::record_size(), 16);
    assert_eq!(FileInformationPath::record_size(), 32);
    assert_eq!(FileInformationIndex::record_size(), 8);
    assert_eq!(SomeFolderThing::record_size(), 8);
    assert_eq!(Hash40::record_size(), 8);
    assert_eq!(DirectoryInfo::record_size(), 52);
    assert_eq!(DirectoryOffsets::record_size(), 28);
    assert_eq!(FolderHashIndex::record_size(), 8);
    assert_eq!(FileInfo2::record_size(), 16);
    assert_eq!(FileInfoSubIndex::record_size(), 12);
    assert_eq!(SubFileInfo::record_size(), 16);
    assert_eq!(StreamHashToName::record_size(), 8);
    assert_eq!(FileInformationUnknownTable::record_size(), 8);
    assert_eq!(HashIndexGroup::record_size(), 8);
}
