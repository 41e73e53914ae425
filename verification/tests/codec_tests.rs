//! Unit tests of the record codec, the error table, the byte sources and
//! the entry model.

use zip_parser::codec::{
    Signature, LocalFileHeader, CentralFileHeader, CentralDirEnd,
    LOCAL_FILE_HEADER_LEN, CENTRAL_FILE_HEADER_LEN, CENTRAL_DIR_END_LEN,
};
use zip_parser::{
    CompressMethod, ParsingError, MemStream, Read, Seek, SeekFrom,
    LocalFileInfo, LocalFile,
};

fn u16le(v: u16) -> [u8; 2] {
    v.to_le_bytes()
}

fn u32le(v: u32) -> [u8; 4] {
    v.to_le_bytes()
}

#[test]
fn signature_recognition() {
    assert!(matches!(
        Signature::try_signature(&[0x50, 0x4b]),
        Err(ParsingError::DataNotEnough)
    ));
    assert!(matches!(
        Signature::try_signature(&[0x50, 0x4b, 0x03, 0x04]),
        Ok(Signature::LocalFileHeader)
    ));
    assert!(matches!(
        Signature::try_signature(&[0x50, 0x4b, 0x01, 0x02, 0xff]),
        Ok(Signature::CentralFileHeader)
    ));
    assert!(matches!(
        Signature::try_signature(&[0x50, 0x4b, 0x05, 0x06]),
        Ok(Signature::CentralDirEnd)
    ));
    assert!(matches!(
        Signature::try_signature(&[0xde, 0xad, 0xbe, 0xef]),
        Err(ParsingError::InvalidSignature)
    ));
}

#[test]
fn local_header_decodes_every_field() {
    let mut b = Vec::new();
    b.extend_from_slice(&u32le(0x04034b50));
    b.extend_from_slice(&u16le(20));
    b.extend_from_slice(&u16le(1));
    b.extend_from_slice(&u16le(8));
    b.extend_from_slice(&u16le(0x7abc));
    b.extend_from_slice(&u16le(0x1234));
    b.extend_from_slice(&u32le(0xdeadbeef));
    b.extend_from_slice(&u32le(300));
    b.extend_from_slice(&u32le(700));
    b.extend_from_slice(&u16le(9));
    b.extend_from_slice(&u16le(4));
    let h = LocalFileHeader::from_bytes(&b).unwrap();
    assert_eq!(h.version_needed_to_extract, 20);
    assert_eq!(h.general_purpose_bit_flag, 1);
    assert_eq!(h.compression_method, 8);
    assert_eq!(h.last_mod_file_time, 0x7abc);
    assert_eq!(h.last_mod_file_date, 0x1234);
    assert_eq!(h.crc32, 0xdeadbeef);
    assert_eq!(h.compressed_size, 300);
    assert_eq!(h.uncompressed_size, 700);
    assert_eq!(h.file_name_length, 9);
    assert_eq!(h.extra_field_length, 4);
    assert_eq!(h.len(), LOCAL_FILE_HEADER_LEN + 9 + 4);
}

#[test]
fn local_header_rejects_truncation_and_bad_signature() {
    assert!(matches!(
        LocalFileHeader::from_bytes(&[0u8; 29]),
        Err(ParsingError::DataNotEnough)
    ));
    let mut b = vec![0u8; 30];
    b[0] = 0x51;
    assert!(matches!(
        LocalFileHeader::from_bytes(&b),
        Err(ParsingError::InvalidSignature)
    ));
}

#[test]
fn central_header_decodes_every_field() {
    let mut b = Vec::new();
    b.extend_from_slice(&u32le(0x02014b50));
    b.extend_from_slice(&u16le(31));
    b.extend_from_slice(&u16le(20));
    b.extend_from_slice(&u16le(2));
    b.extend_from_slice(&u16le(0));
    b.extend_from_slice(&u16le(0x1111));
    b.extend_from_slice(&u16le(0x2222));
    b.extend_from_slice(&u32le(0x33334444));
    b.extend_from_slice(&u32le(555));
    b.extend_from_slice(&u32le(666));
    b.extend_from_slice(&u16le(3));
    b.extend_from_slice(&u16le(2));
    b.extend_from_slice(&u16le(1));
    b.extend_from_slice(&u16le(0));
    b.extend_from_slice(&u16le(0x4455));
    b.extend_from_slice(&u32le(0x66778899));
    b.extend_from_slice(&u32le(0x1000));
    let h = CentralFileHeader::from_bytes(&b).unwrap();
    assert_eq!(h.version_made_by, 31);
    assert_eq!(h.version_needed_to_extract, 20);
    assert_eq!(h.general_purpose_bit_flag, 2);
    assert_eq!(h.compression_method, 0);
    assert_eq!(h.last_mod_file_time, 0x1111);
    assert_eq!(h.last_mod_file_date, 0x2222);
    assert_eq!(h.crc32, 0x33334444);
    assert_eq!(h.compressed_size, 555);
    assert_eq!(h.uncompressed_size, 666);
    assert_eq!(h.file_name_length, 3);
    assert_eq!(h.extra_field_length, 2);
    assert_eq!(h.file_comment_length, 1);
    assert_eq!(h.disk_number_start, 0);
    assert_eq!(h.internal_file_attributes, 0x4455);
    assert_eq!(h.external_file_attributes, 0x66778899);
    assert_eq!(h.relative_offset_of_local_header, 0x1000);
    assert_eq!(h.len(), CENTRAL_FILE_HEADER_LEN + 3 + 2 + 1);
    assert_eq!(h.local_header_len(), LOCAL_FILE_HEADER_LEN + 3 + 2);
}

#[test]
fn central_dir_end_decodes_every_field() {
    let mut b = Vec::new();
    b.extend_from_slice(&u32le(0x06054b50));
    b.extend_from_slice(&u16le(0));
    b.extend_from_slice(&u16le(0));
    b.extend_from_slice(&u16le(7));
    b.extend_from_slice(&u16le(7));
    b.extend_from_slice(&u32le(322));
    b.extend_from_slice(&u32le(0x500));
    b.extend_from_slice(&u16le(5));
    let h = CentralDirEnd::from_bytes(&b).unwrap();
    assert_eq!(h.number_of_disk, 0);
    assert_eq!(h.number_of_start_central_directory_disk, 0);
    assert_eq!(h.total_entries_this_disk, 7);
    assert_eq!(h.total_entries_all_disk, 7);
    assert_eq!(h.size_of_the_central_directory, 322);
    assert_eq!(h.central_directory_offset, 0x500);
    assert_eq!(h.zip_file_comment_length, 5);
    assert_eq!(h.len(), CENTRAL_DIR_END_LEN + 5);
}

#[test]
fn compress_method_table() {
    assert_eq!(CompressMethod::from_code(0), CompressMethod::Uncompress);
    assert_eq!(CompressMethod::from_code(1), CompressMethod::Shrunk);
    assert_eq!(CompressMethod::from_code(5), CompressMethod::Reduced4);
    assert_eq!(CompressMethod::from_code(6), CompressMethod::Imploded);
    assert_eq!(CompressMethod::from_code(8), CompressMethod::Deflated);
    assert_eq!(CompressMethod::from_code(12), CompressMethod::BZIP2);
    assert_eq!(CompressMethod::from_code(14), CompressMethod::LZMA);
    assert_eq!(CompressMethod::from_code(19), CompressMethod::LZ77z);
    assert_eq!(CompressMethod::from_code(93), CompressMethod::Zstd);
    assert_eq!(CompressMethod::from_code(94), CompressMethod::MP3);
    assert_eq!(CompressMethod::from_code(95), CompressMethod::XZ);
    assert_eq!(CompressMethod::from_code(96), CompressMethod::JPEG);
    assert_eq!(CompressMethod::from_code(7), CompressMethod::Unknown);
    assert_eq!(CompressMethod::from_code(0xffff), CompressMethod::Unknown);
}

#[test]
fn error_descriptions() {
    assert_eq!(ParsingError::Generic.describe(), "GenericError");
    assert_eq!(ParsingError::InvalidSignature.describe(), "InvalidSignature");
    assert_eq!(ParsingError::StreamEnding.describe(), "StreamEnding");
    assert_eq!(
        ParsingError::LocalFileNameTooLong(0, 200).describe(),
        "LocalFileNameTooLong"
    );
}

#[test]
fn mem_stream_reads_and_seeks() {
    let mut s = MemStream::new(vec![10, 20, 30, 40, 50]);
    assert_eq!(s.stream_len(), Some(5));
    assert_eq!(s.read(2).unwrap(), vec![10, 20]);
    assert_eq!(s.read(99).unwrap(), vec![30, 40, 50]);
    assert_eq!(s.read(1).unwrap(), Vec::<u8>::new());
    assert_eq!(s.seek(SeekFrom::Start(1)).unwrap(), 1);
    assert_eq!(s.read(1).unwrap(), vec![20]);
    assert_eq!(s.seek(SeekFrom::End(-2)).unwrap(), 3);
    assert_eq!(s.read(2).unwrap(), vec![40, 50]);
    assert_eq!(s.seek(SeekFrom::Current(-1)).unwrap(), 4);
    assert!(s.seek(SeekFrom::Start(6)).is_err());
    assert!(s.seek(SeekFrom::Current(-99)).is_err());
    s.rewind().unwrap();
    assert_eq!(s.read(1).unwrap(), vec![10]);
}

#[test]
fn mem_stream_read_exact() {
    let mut s = MemStream::new(vec![1, 2, 3]);
    assert_eq!(s.read_exact(2).unwrap(), vec![1, 2]);
    assert!(matches!(s.read_exact(2), Err(ParsingError::StreamEnding)));
}

#[test]
fn entry_reads_are_contiguous() {
    let mut s = MemStream::new(b"0123456789".to_vec());
    let entry = LocalFile::<16>::default().with_origin(3);
    let mut entry = entry.with_compressed_size(5);
    let first = entry.read(&mut s, 2).unwrap();
    // a foreign seek must not disturb the entry's cursor
    let _ = s.seek(SeekFrom::Start(0));
    let second = entry.read(&mut s, 3).unwrap();
    assert_eq!(first, b"34");
    assert_eq!(second, b"567");
}

#[test]
fn entry_with_stream_anchors_at_current_position() {
    let mut s = MemStream::new(b"abcdef".to_vec());
    let _ = s.seek(SeekFrom::Start(2));
    let mut entry = LocalFile::<16>::default().with_stream(&mut s);
    let data = entry.read(&mut s, 2).unwrap();
    assert_eq!(data, b"cd");
}

#[test]
fn info_builders_and_names() {
    let info = LocalFileInfo::<16>::default()
        .with_compression_method(CompressMethod::Deflated)
        .with_compressed_size(11)
        .with_uncompressed_size(22)
        .with_name(b"caf\xc3\xa9".to_vec());
    assert_eq!(info.compression_method, CompressMethod::Deflated);
    assert_eq!(info.file_size(), 11);
    assert_eq!(info.uncompressed_size, 22);
    assert_eq!(info.file_name().unwrap(), "caf\u{e9}");
    let bad = LocalFileInfo::<16>::default().with_name(vec![0xff, 0xfe]);
    assert!(matches!(bad.file_name(), Err(ParsingError::Generic)));
    let copy = info.duplicate();
    assert_eq!(copy.file_name_bytes(), info.file_name_bytes());
    assert_eq!(copy.compressed_size, info.compressed_size);
}
