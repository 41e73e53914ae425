//! Error taxonomy and the compression-method code table.

use vstd::prelude::*;

verus! {

/// Flat error tags shared by both parsing engines and the byte sources.
#[derive(Debug, Clone, Copy, PartialEq, Eq, Structural)]
pub enum ParsingError {
    /// Declared name length exceeds the compile-time bound; carries
    /// `(local_file_index, declared_len)`.
    LocalFileNameTooLong(i32, usize),
    /// Signature matched a local header but the structural decode failed.
    InvalidLocalFileHeader,
    /// Signature matched a central header but the structural decode failed.
    InvalidCentralFileHeader,
    /// Signature matched the directory terminator but the decode failed.
    InvalidCentralDirEnd,
    /// Name bytes arrived before the local header was parsed; carries the
    /// entry index.
    LocalFileHeaderNotRecved(i32),
    /// Any other failure of the byte source.
    Generic,
    /// The byte source violated its contract.
    InvalidStream,
    /// Legitimate end of data.
    StreamEnding,
    /// The four-byte prefix matched no known record signature.
    InvalidSignature,
    /// Fewer than four bytes were available to test a signature.
    DataNotEnough,
}

impl ParsingError {
    /// A short description, in place of a `Display` implementation.
    pub fn describe(&self) -> String {
        match *self {
            ParsingError::LocalFileNameTooLong(_, _) => "LocalFileNameTooLong".to_string(),
            ParsingError::InvalidLocalFileHeader => "InvalidLocalFileHeader".to_string(),
            ParsingError::InvalidCentralFileHeader => "InvalidCentralFileHeader".to_string(),
            ParsingError::InvalidCentralDirEnd => "InvalidCentralDirEnd".to_string(),
            ParsingError::LocalFileHeaderNotRecved(_) => "LocalFileHeaderNotRecved".to_string(),
            ParsingError::Generic => "GenericError".to_string(),
            ParsingError::InvalidStream => "InvalidStream".to_string(),
            ParsingError::StreamEnding => "StreamEnding".to_string(),
            ParsingError::InvalidSignature => "InvalidSignature".to_string(),
            ParsingError::DataNotEnough => "DataNotEnough".to_string(),
        }
    }
}

/// Compression methods of the ZIP format, by their 16-bit code.
#[derive(Debug, Clone, Copy, PartialEq, Eq, Structural)]
pub enum CompressMethod {
    Uncompress,
    Shrunk,
    Reduced1,
    Reduced2,
    Reduced3,
    Reduced4,
    Imploded,
    Deflated,
    BZIP2,
    LZMA,
    LZ77z,
    Zstd,
    MP3,
    XZ,
    JPEG,
    Unknown,
}

/// The method that a 16-bit code of the wire format denotes.
pub open spec fn spec_method_of(value: u16) -> CompressMethod {
    if value == 0 { CompressMethod::Uncompress }
    else if value == 1 { CompressMethod::Shrunk }
    else if value == 2 { CompressMethod::Reduced1 }
    else if value == 3 { CompressMethod::Reduced2 }
    else if value == 4 { CompressMethod::Reduced3 }
    else if value == 5 { CompressMethod::Reduced4 }
    else if value == 6 { CompressMethod::Imploded }
    else if value == 8 { CompressMethod::Deflated }
    else if value == 12 { CompressMethod::BZIP2 }
    else if value == 14 { CompressMethod::LZMA }
    else if value == 19 { CompressMethod::LZ77z }
    else if value == 93 { CompressMethod::Zstd }
    else if value == 94 { CompressMethod::MP3 }
    else if value == 95 { CompressMethod::XZ }
    else if value == 96 { CompressMethod::JPEG }
    else { CompressMethod::Unknown }
}

impl CompressMethod {
    /// Decodes a 16-bit method code; codes outside the table give `Unknown`.
    pub fn from_code(value: u16) -> (r: CompressMethod)
        ensures
            r == spec_method_of(value),
    {
        match value {
            0 => CompressMethod::Uncompress,
            1 => CompressMethod::Shrunk,
            2 => CompressMethod::Reduced1,
            3 => CompressMethod::Reduced2,
            4 => CompressMethod::Reduced3,
            5 => CompressMethod::Reduced4,
            6 => CompressMethod::Imploded,
            8 => CompressMethod::Deflated,
            12 => CompressMethod::BZIP2,
            14 => CompressMethod::LZMA,
            19 => CompressMethod::LZ77z,
            93 => CompressMethod::Zstd,
            94 => CompressMethod::MP3,
            95 => CompressMethod::XZ,
            96 => CompressMethod::JPEG,
            _ => CompressMethod::Unknown,
        }
    }
}

} // verus!
