//! Record codec: fixed-layout binary records of the ZIP format, signature
//! recognition, and little-endian field decoding.

use vstd::prelude::*;
use crate::errors::ParsingError;

verus! {

/// Byte length of the fixed local-header prefix (name and extra excluded).
pub const LOCAL_FILE_HEADER_LEN: usize = 30;
/// Byte length of the fixed central-header prefix.
pub const CENTRAL_FILE_HEADER_LEN: usize = 46;
/// Byte length of the fixed end-of-central-directory record.
pub const CENTRAL_DIR_END_LEN: usize = 22;

/// Little-endian signature of a local file header.
pub const LOCAL_FILE_SIG: u32 = 0x04034b50;
/// Little-endian signature of a central file header.
pub const CENTRAL_FILE_SIG: u32 = 0x02014b50;
/// Little-endian signature of the end-of-central-directory record.
pub const CENTRAL_DIR_END_SIG: u32 = 0x06054b50;

/// The 16-bit little-endian integer held at `b[i], b[i + 1]`.
pub open spec fn le16(b: Seq<u8>, i: int) -> int {
    b[i] + b[i + 1] * 0x100
}

/// The 32-bit little-endian integer held at `b[i] .. b[i + 4]`.
pub open spec fn le32(b: Seq<u8>, i: int) -> int {
    b[i] + b[i + 1] * 0x100 + b[i + 2] * 0x10000 + b[i + 3] * 0x1000000
}

/// Reads the 16-bit little-endian field at offset `i`.
pub fn read_le16(b: &[u8], i: usize) -> (r: u16)
    requires
        i + 2 <= b@.len(),
    ensures
        r == le16(b@, i as int),
{
    b[i] as u16 + (b[i + 1] as u16) * 0x100
}

/// Reads the 32-bit little-endian field at offset `i`.
pub fn read_le32(b: &[u8], i: usize) -> (r: u32)
    requires
        i + 4 <= b@.len(),
    ensures
        r == le32(b@, i as int),
{
    b[i] as u32 + (b[i + 1] as u32) * 0x100 + (b[i + 2] as u32) * 0x10000
        + (b[i + 3] as u32) * 0x1000000
}

/// The three record kinds that a four-byte signature can announce.
#[derive(Debug, Clone, Copy, PartialEq, Eq, Structural)]
pub enum Signature {
    LocalFileHeader,
    CentralFileHeader,
    CentralDirEnd,
}

/// The record kind that a 32-bit signature value denotes, if any.
pub open spec fn spec_signature(v: int) -> Option<Signature> {
    if v == LOCAL_FILE_SIG { Some(Signature::LocalFileHeader) }
    else if v == CENTRAL_FILE_SIG { Some(Signature::CentralFileHeader) }
    else if v == CENTRAL_DIR_END_SIG { Some(Signature::CentralDirEnd) }
    else { None }
}

impl Signature {
    /// Examines the first four bytes of `b`.  Fewer than four bytes give
    /// `DataNotEnough`; an unknown signature gives `InvalidSignature`.
    pub fn try_signature(b: &[u8]) -> (r: Result<Signature, ParsingError>)
        ensures
            b@.len() < 4 ==> r == Result::<Signature, ParsingError>::Err(
                ParsingError::DataNotEnough),
            b@.len() >= 4 ==> match spec_signature(le32(b@, 0)) {
                Some(s) => r == Result::<Signature, ParsingError>::Ok(s),
                None => r == Result::<Signature, ParsingError>::Err(
                    ParsingError::InvalidSignature),
            },
    {
        if b.len() < 4 {
            return Err(ParsingError::DataNotEnough);
        }
        let v = read_le32(b, 0);
        if v == LOCAL_FILE_SIG {
            Ok(Signature::LocalFileHeader)
        } else if v == CENTRAL_FILE_SIG {
            Ok(Signature::CentralFileHeader)
        } else if v == CENTRAL_DIR_END_SIG {
            Ok(Signature::CentralDirEnd)
        } else {
            Err(ParsingError::InvalidSignature)
        }
    }
}

/// Fixed-size record preceding each entry's payload.
#[derive(Debug, Clone, Copy, PartialEq, Eq, Structural)]
pub struct LocalFileHeader {
    pub version_needed_to_extract: u16,
    pub general_purpose_bit_flag: u16,
    pub compression_method: u16,
    pub last_mod_file_time: u16,
    pub last_mod_file_date: u16,
    pub crc32: u32,
    pub compressed_size: u32,
    pub uncompressed_size: u32,
    pub file_name_length: u16,
    pub extra_field_length: u16,
}

/// The local header whose fields are held little-endian at `b[0] .. b[30]`.
pub open spec fn spec_local_header(b: Seq<u8>) -> LocalFileHeader {
    LocalFileHeader {
        version_needed_to_extract: le16(b, 4) as u16,
        general_purpose_bit_flag: le16(b, 6) as u16,
        compression_method: le16(b, 8) as u16,
        last_mod_file_time: le16(b, 10) as u16,
        last_mod_file_date: le16(b, 12) as u16,
        crc32: le32(b, 14) as u32,
        compressed_size: le32(b, 18) as u32,
        uncompressed_size: le32(b, 22) as u32,
        file_name_length: le16(b, 26) as u16,
        extra_field_length: le16(b, 28) as u16,
    }
}

/// A local header stands at `b[0] .. b[30]`: long enough and rightly signed.
pub open spec fn local_header_at(b: Seq<u8>) -> bool {
    b.len() >= LOCAL_FILE_HEADER_LEN && le32(b, 0) == LOCAL_FILE_SIG
}

impl LocalFileHeader {
    /// Total record length: fixed prefix plus name and extra field.
    pub fn len(&self) -> (r: usize)
        ensures
            r == LOCAL_FILE_HEADER_LEN + self.file_name_length
                + self.extra_field_length,
    {
        LOCAL_FILE_HEADER_LEN + self.file_name_length as usize
            + self.extra_field_length as usize
    }

    /// Validates the signature, then decodes the 30-byte prefix.
    pub fn from_bytes(b: &[u8]) -> (r: Result<LocalFileHeader, ParsingError>)
        ensures
            b@.len() < LOCAL_FILE_HEADER_LEN ==> r == Result::<
                LocalFileHeader, ParsingError>::Err(ParsingError::DataNotEnough),
            b@.len() >= LOCAL_FILE_HEADER_LEN && le32(b@, 0) != LOCAL_FILE_SIG
                ==> r == Result::<LocalFileHeader, ParsingError>::Err(
                    ParsingError::InvalidSignature),
            local_header_at(b@) ==> r == Result::<LocalFileHeader,
                ParsingError>::Ok(spec_local_header(b@)),
    {
        if b.len() < LOCAL_FILE_HEADER_LEN {
            return Err(ParsingError::DataNotEnough);
        }
        if read_le32(b, 0) != LOCAL_FILE_SIG {
            return Err(ParsingError::InvalidSignature);
        }
        Ok(LocalFileHeader {
            version_needed_to_extract: read_le16(b, 4),
            general_purpose_bit_flag: read_le16(b, 6),
            compression_method: read_le16(b, 8),
            last_mod_file_time: read_le16(b, 10),
            last_mod_file_date: read_le16(b, 12),
            crc32: read_le32(b, 14),
            compressed_size: read_le32(b, 18),
            uncompressed_size: read_le32(b, 22),
            file_name_length: read_le16(b, 26),
            extra_field_length: read_le16(b, 28),
        })
    }
}

/// Fixed-size central-directory record indexing one entry.
#[derive(Debug, Clone, Copy, PartialEq, Eq, Structural)]
pub struct CentralFileHeader {
    pub version_made_by: u16,
    pub version_needed_to_extract: u16,
    pub general_purpose_bit_flag: u16,
    pub compression_method: u16,
    pub last_mod_file_time: u16,
    pub last_mod_file_date: u16,
    pub crc32: u32,
    pub compressed_size: u32,
    pub uncompressed_size: u32,
    pub file_name_length: u16,
    pub extra_field_length: u16,
    pub file_comment_length: u16,
    pub disk_number_start: u16,
    pub internal_file_attributes: u16,
    pub external_file_attributes: u32,
    pub relative_offset_of_local_header: u32,
}

/// The central header whose fields are held little-endian at `b[0] .. b[46]`.
pub open spec fn spec_central_header(b: Seq<u8>) -> CentralFileHeader {
    CentralFileHeader {
        version_made_by: le16(b, 4) as u16,
        version_needed_to_extract: le16(b, 6) as u16,
        general_purpose_bit_flag: le16(b, 8) as u16,
        compression_method: le16(b, 10) as u16,
        last_mod_file_time: le16(b, 12) as u16,
        last_mod_file_date: le16(b, 14) as u16,
        crc32: le32(b, 16) as u32,
        compressed_size: le32(b, 20) as u32,
        uncompressed_size: le32(b, 24) as u32,
        file_name_length: le16(b, 28) as u16,
        extra_field_length: le16(b, 30) as u16,
        file_comment_length: le16(b, 32) as u16,
        disk_number_start: le16(b, 34) as u16,
        internal_file_attributes: le16(b, 36) as u16,
        external_file_attributes: le32(b, 38) as u32,
        relative_offset_of_local_header: le32(b, 42) as u32,
    }
}

/// A central header stands at `b[0] .. b[46]`.
pub open spec fn central_header_at(b: Seq<u8>) -> bool {
    b.len() >= CENTRAL_FILE_HEADER_LEN && le32(b, 0) == CENTRAL_FILE_SIG
}

impl CentralFileHeader {
    /// Total record length: fixed prefix plus name, extra field and comment.
    pub fn len(&self) -> (r: usize)
        ensures
            r == CENTRAL_FILE_HEADER_LEN + self.file_name_length
                + self.extra_field_length + self.file_comment_length,
    {
        CENTRAL_FILE_HEADER_LEN + self.file_name_length as usize
            + self.extra_field_length as usize
            + self.file_comment_length as usize
    }

    /// Length of the matching local record as the directory declares it.
    pub fn local_header_len(&self) -> (r: usize)
        ensures
            r == LOCAL_FILE_HEADER_LEN + self.file_name_length
                + self.extra_field_length,
    {
        LOCAL_FILE_HEADER_LEN + self.file_name_length as usize
            + self.extra_field_length as usize
    }

    /// Validates the signature, then decodes the 46-byte prefix.
    pub fn from_bytes(b: &[u8]) -> (r: Result<CentralFileHeader, ParsingError>)
        ensures
            b@.len() < CENTRAL_FILE_HEADER_LEN ==> r == Result::<
                CentralFileHeader, ParsingError>::Err(ParsingError::DataNotEnough),
            b@.len() >= CENTRAL_FILE_HEADER_LEN && le32(b@, 0) != CENTRAL_FILE_SIG
                ==> r == Result::<CentralFileHeader, ParsingError>::Err(
                    ParsingError::InvalidSignature),
            central_header_at(b@) ==> r == Result::<CentralFileHeader,
                ParsingError>::Ok(spec_central_header(b@)),
    {
        if b.len() < CENTRAL_FILE_HEADER_LEN {
            return Err(ParsingError::DataNotEnough);
        }
        if read_le32(b, 0) != CENTRAL_FILE_SIG {
            return Err(ParsingError::InvalidSignature);
        }
        Ok(CentralFileHeader {
            version_made_by: read_le16(b, 4),
            version_needed_to_extract: read_le16(b, 6),
            general_purpose_bit_flag: read_le16(b, 8),
            compression_method: read_le16(b, 10),
            last_mod_file_time: read_le16(b, 12),
            last_mod_file_date: read_le16(b, 14),
            crc32: read_le32(b, 16),
            compressed_size: read_le32(b, 20),
            uncompressed_size: read_le32(b, 24),
            file_name_length: read_le16(b, 28),
            extra_field_length: read_le16(b, 30),
            file_comment_length: read_le16(b, 32),
            disk_number_start: read_le16(b, 34),
            internal_file_attributes: read_le16(b, 36),
            external_file_attributes: read_le32(b, 38),
            relative_offset_of_local_header: read_le32(b, 42),
        })
    }
}

/// Terminator record of a ZIP archive.
#[derive(Debug, Clone, Copy, PartialEq, Eq, Structural)]
pub struct CentralDirEnd {
    pub number_of_disk: u16,
    pub number_of_start_central_directory_disk: u16,
    pub total_entries_this_disk: u16,
    pub total_entries_all_disk: u16,
    pub size_of_the_central_directory: u32,
    pub central_directory_offset: u32,
    pub zip_file_comment_length: u16,
}

/// The terminator whose fields are held little-endian at `b[0] .. b[22]`.
pub open spec fn spec_central_dir_end(b: Seq<u8>) -> CentralDirEnd {
    CentralDirEnd {
        number_of_disk: le16(b, 4) as u16,
        number_of_start_central_directory_disk: le16(b, 6) as u16,
        total_entries_this_disk: le16(b, 8) as u16,
        total_entries_all_disk: le16(b, 10) as u16,
        size_of_the_central_directory: le32(b, 12) as u32,
        central_directory_offset: le32(b, 16) as u32,
        zip_file_comment_length: le16(b, 20) as u16,
    }
}

/// A terminator record stands at `b[0] .. b[22]`.
pub open spec fn central_dir_end_at(b: Seq<u8>) -> bool {
    b.len() >= CENTRAL_DIR_END_LEN && le32(b, 0) == CENTRAL_DIR_END_SIG
}

impl CentralDirEnd {
    /// Total record length: fixed prefix plus archive comment.
    pub fn len(&self) -> (r: usize)
        ensures
            r == CENTRAL_DIR_END_LEN + self.zip_file_comment_length,
    {
        CENTRAL_DIR_END_LEN + self.zip_file_comment_length as usize
    }

    /// Validates the signature, then decodes the 22-byte prefix.
    pub fn from_bytes(b: &[u8]) -> (r: Result<CentralDirEnd, ParsingError>)
        ensures
            b@.len() < CENTRAL_DIR_END_LEN ==> r == Result::<CentralDirEnd,
                ParsingError>::Err(ParsingError::DataNotEnough),
            b@.len() >= CENTRAL_DIR_END_LEN && le32(b@, 0) != CENTRAL_DIR_END_SIG
                ==> r == Result::<CentralDirEnd, ParsingError>::Err(
                    ParsingError::InvalidSignature),
            central_dir_end_at(b@) ==> r == Result::<CentralDirEnd,
                ParsingError>::Ok(spec_central_dir_end(b@)),
    {
        if b.len() < CENTRAL_DIR_END_LEN {
            return Err(ParsingError::DataNotEnough);
        }
        if read_le32(b, 0) != CENTRAL_DIR_END_SIG {
            return Err(ParsingError::InvalidSignature);
        }
        Ok(CentralDirEnd {
            number_of_disk: read_le16(b, 4),
            number_of_start_central_directory_disk: read_le16(b, 6),
            total_entries_this_disk: read_le16(b, 8),
            total_entries_all_disk: read_le16(b, 10),
            size_of_the_central_directory: read_le32(b, 12),
            central_directory_offset: read_le32(b, 16),
            zip_file_comment_length: read_le16(b, 20),
        })
    }
}

} // verus!

