//! Entry model: the metadata of one archive member plus a cursor into the
//! archive for on-demand payload reads.
//!
//! An entry does not hold the byte source; reads go through the owner, which
//! hands the source to [`LocalFile::read`] for the duration of the call.  Two
//! reads on the same entry observe contiguous bytes starting from the payload
//! origin, because the entry re-positions the source before each access.

use vstd::prelude::*;
use crate::errors::{ParsingError, CompressMethod};
use crate::stream::{Read, Seek, SeekFrom};

verus! {

/// What `core::str::from_utf8` decodes a byte sequence to, if it is valid
/// UTF-8.
pub uninterp spec fn utf8_decoded(b: Seq<u8>) -> Option<Seq<char>>;

/// Relies on core::str::from_utf8: whether and to which characters a byte
/// sequence decodes depends on the bytes alone.
#[verifier::external_body]
pub(crate) fn utf8_to_string(b: &[u8]) -> (r: Option<String>)
    ensures
        match r {
            Some(s) => utf8_decoded(b@) == Some(s@),
            None => utf8_decoded(b@) is None,
        },
{
    match core::str::from_utf8(b) {
        Ok(s) => Some(s.to_string()),
        Err(_) => None,
    }
}

/// Parsed metadata of one archive member.  `N` bounds the name length the
/// parser accepts.
#[derive(Debug)]
pub struct LocalFileInfo<const N: usize> {
    file_name_buffer: Vec<u8>,
    extra_field_length: usize,
    file_data_offset: u64,

    pub compression_method: CompressMethod,
    pub compressed_size: u64,
    pub uncompressed_size: u64,
}

/// The abstraction of an entry's metadata.
#[verifier::ext_equal]
pub ghost struct InfoModel {
    pub name: Seq<u8>,
    pub extra_len: nat,
    pub data_offset: u64,
    pub method: CompressMethod,
    pub compressed_size: u64,
    pub uncompressed_size: u64,
}

impl<const N: usize> View for LocalFileInfo<N> {
    type V = InfoModel;

    closed spec fn view(&self) -> InfoModel {
        InfoModel {
            name: self.file_name_buffer@,
            extra_len: self.extra_field_length as nat,
            data_offset: self.file_data_offset,
            method: self.compression_method,
            compressed_size: self.compressed_size,
            uncompressed_size: self.uncompressed_size,
        }
    }
}

impl<const N: usize> LocalFileInfo<N> {
    /// The bytes of the entry's name.
    pub open spec fn spec_name(&self) -> Seq<u8> {
        self@.name
    }

    /// The declared length of the entry's extra field.
    pub open spec fn spec_extra_len(&self) -> nat {
        self@.extra_len
    }

    /// The absolute offset of the first payload byte.
    pub open spec fn spec_data_offset(&self) -> u64 {
        self@.data_offset
    }

    /// The name never outgrows the compile-time bound.
    pub open spec fn wf(&self) -> bool {
        self.spec_name().len() <= N
    }

    /// Replaces the compression method.
    pub fn with_compression_method(self, method: CompressMethod) -> (r: Self)
        ensures
            r@ == (InfoModel { method: method, ..self@ }),
    {
        let mut s = self;
        s.compression_method = method;
        s
    }

    /// Replaces the compressed size.
    pub fn with_compressed_size(self, size: u64) -> (r: Self)
        ensures
            r@ == (InfoModel { compressed_size: size, ..self@ }),
    {
        let mut s = self;
        s.compressed_size = size;
        s
    }

    /// Replaces the uncompressed size.
    pub fn with_uncompressed_size(self, size: u64) -> (r: Self)
        ensures
            r@ == (InfoModel { uncompressed_size: size, ..self@ }),
    {
        let mut s = self;
        s.uncompressed_size = size;
        s
    }

    /// Replaces the name bytes.
    pub fn with_name(self, name: Vec<u8>) -> (r: Self)
        requires
            name@.len() <= N,
        ensures
            r@ == (InfoModel { name: name@, ..self@ }),
            r.wf(),
    {
        let mut s = self;
        s.file_name_buffer = name;
        s
    }

    /// Records the declared extra-field length.
    pub fn with_extra_len(self, len: usize) -> (r: Self)
        ensures
            r@ == (InfoModel { extra_len: len as nat, ..self@ }),
    {
        let mut s = self;
        s.extra_field_length = len;
        s
    }

    /// Records the absolute offset of the first payload byte.
    pub fn with_data_offset(self, off: u64) -> (r: Self)
        ensures
            r@ == (InfoModel { data_offset: off, ..self@ }),
    {
        let mut s = self;
        s.file_data_offset = off;
        s
    }

    /// Appends one byte to the entry's name.
    pub fn push_name_byte(&mut self, b: u8)
        requires
            old(self).spec_name().len() < N,
        ensures
            final(self)@ == (InfoModel {
                name: old(self)@.name.push(b),
                ..old(self)@
            }),
            final(self).wf(),
    {
        self.file_name_buffer.push(b);
    }

    /// A copy of the entry's metadata, field for field.
    pub fn duplicate(&self) -> (r: Self)
        ensures
            r@ == self@,
    {
        LocalFileInfo {
            file_name_buffer: vstd::slice::slice_to_vec(
                self.file_name_buffer.as_slice()),
            extra_field_length: self.extra_field_length,
            file_data_offset: self.file_data_offset,
            compression_method: self.compression_method,
            compressed_size: self.compressed_size,
            uncompressed_size: self.uncompressed_size,
        }
    }

    /// The entry's name, decoded as UTF-8; invalid bytes are an error.
    pub fn file_name(&self) -> (r: Result<String, ParsingError>)
        ensures
            match r {
                Ok(s) => utf8_decoded(self.spec_name()) == Some(s@),
                Err(e) => e == ParsingError::Generic
                    && utf8_decoded(self.spec_name()) is None,
            },
    {
        match utf8_to_string(self.file_name_buffer.as_slice()) {
            Some(s) => Ok(s),
            None => Err(ParsingError::Generic),
        }
    }

    /// The entry's raw name bytes.
    pub fn file_name_bytes(&self) -> (r: &[u8])
        ensures
            r@ == self.spec_name(),
    {
        self.file_name_buffer.as_slice()
    }

    /// The size of the payload as stored in the archive.
    pub fn file_size(&self) -> (r: u64)
        ensures
            r == self@.compressed_size,
    {
        self.compressed_size
    }

    /// The absolute offset of the first payload byte.
    pub fn file_data_offset(&self) -> (r: u64)
        ensures
            r == self.spec_data_offset(),
    {
        self.file_data_offset
    }
}

impl<const N: usize> Default for LocalFileInfo<N> {
    /// An empty entry: no name, everything zero, method `Uncompress`.
    fn default() -> (r: Self)
        ensures
            r@ == (InfoModel {
                name: Seq::<u8>::empty(),
                extra_len: 0,
                data_offset: 0,
                method: CompressMethod::Uncompress,
                compressed_size: 0,
                uncompressed_size: 0,
            }),
            r.wf(),
    {
        LocalFileInfo {
            file_name_buffer: Vec::new(),
            extra_field_length: 0,
            file_data_offset: 0,
            compression_method: CompressMethod::Uncompress,
            compressed_size: 0,
            uncompressed_size: 0,
        }
    }
}

/// Operations every entry handle offers.
pub trait LocalFileOps<S: Read + Seek>: Sized {
    /// The entry's name, decoded as UTF-8.
    fn file_name(&self) -> Result<String, ParsingError>;

    /// The size of the payload as stored in the archive.
    fn file_size(&self) -> u64;

    /// Reads at most `n` payload bytes from the entry's cursor.
    fn read(&mut self, stream: &mut S, n: usize) -> Result<Vec<u8>, ParsingError>;

    /// Reads exactly `n` payload bytes from the entry's cursor.
    fn read_exact(&mut self, stream: &mut S, n: usize) -> Result<Vec<u8>, ParsingError>;
}

/// One archive member: parsed metadata plus a payload cursor.  Reads borrow
/// the byte source for the duration of the call.
#[derive(Debug)]
pub struct LocalFile<const N: usize> {
    pub info: LocalFileInfo<N>,

    stream_origin: u64,
    stream_position: u64,
}

/// The abstraction of an entry handle: metadata, payload origin, cursor.
#[verifier::ext_equal]
pub ghost struct FileModel {
    pub info: InfoModel,
    pub origin: u64,
    pub position: u64,
}

impl<const N: usize> View for LocalFile<N> {
    type V = FileModel;

    closed spec fn view(&self) -> FileModel {
        FileModel {
            info: self.info@,
            origin: self.stream_origin,
            position: self.stream_position,
        }
    }
}

impl<const N: usize> LocalFile<N> {
    /// The absolute offset the payload starts at.
    pub open spec fn spec_origin(&self) -> u64 {
        self@.origin
    }

    /// The absolute offset the next read starts at.
    pub open spec fn spec_position(&self) -> u64 {
        self@.position
    }

    /// Replaces the compression method.
    pub fn with_compression_method(self, method: CompressMethod) -> (r: Self)
        ensures
            r@.info == (InfoModel { method: method, ..self@.info }),
            r.spec_origin() == self.spec_origin(),
            r.spec_position() == self.spec_position(),
    {
        let mut s = self;
        s.info = s.info.with_compression_method(method);
        s
    }

    /// Replaces the compressed size.
    pub fn with_compressed_size(self, size: u64) -> (r: Self)
        ensures
            r@.info == (InfoModel { compressed_size: size, ..self@.info }),
            r.spec_origin() == self.spec_origin(),
            r.spec_position() == self.spec_position(),
    {
        let mut s = self;
        s.info = s.info.with_compressed_size(size);
        s
    }

    /// Replaces the uncompressed size.
    pub fn with_uncompressed_size(self, size: u64) -> (r: Self)
        ensures
            r@.info == (InfoModel { uncompressed_size: size, ..self@.info }),
            r.spec_origin() == self.spec_origin(),
            r.spec_position() == self.spec_position(),
    {
        let mut s = self;
        s.info = s.info.with_uncompressed_size(size);
        s
    }

    /// Replaces the entry's metadata.
    pub fn with_info(self, info: LocalFileInfo<N>) -> (r: Self)
        ensures
            r@.info == info@,
            r.spec_origin() == self.spec_origin(),
            r.spec_position() == self.spec_position(),
    {
        let mut s = self;
        s.info = info;
        s
    }

    /// Anchors the payload cursor at the source's current position.
    pub fn with_stream<S: Read + Seek>(self, stream: &mut S) -> (r: Self)
        ensures
            final(stream).contents() == old(stream).contents(),
            final(stream).reliable() == old(stream).reliable(),
            r@.info == self@.info,
            r.spec_origin() == r.spec_position(),
            old(stream).reliable() && 0 <= old(stream).pos()
                && old(stream).pos() <= old(stream).contents().len()
                ==> r.spec_origin() == final(stream).pos()
                    && final(stream).pos() == old(stream).pos(),
    {
        let mut s = self;
        let origin = match stream.seek(SeekFrom::Current(0)) {
            Ok(p) => p,
            Err(_) => 0,
        };
        s.stream_origin = origin;
        s.stream_position = origin;
        s
    }

    /// Moves the payload cursor to `origin`, with the next read starting
    /// there.
    pub fn with_origin(self, origin: u64) -> (r: Self)
        ensures
            r@.info == self@.info,
            r.spec_origin() == origin,
            r.spec_position() == origin,
    {
        let mut s = self;
        s.stream_origin = origin;
        s.stream_position = origin;
        s
    }

    /// Reads at most `n` bytes at the entry's cursor: positions the source,
    /// reads once, advances the cursor by what arrived.
    pub fn read<S: Read + Seek>(&mut self, stream: &mut S, n: usize) -> (r: Result<
        Vec<u8>, ParsingError>)
        ensures
            final(stream).contents() == old(stream).contents(),
            final(stream).reliable() == old(stream).reliable(),
            final(self)@.info == old(self)@.info,
            final(self).spec_origin() == old(self).spec_origin(),
            match r {
                Ok(bs) => {
                    &&& bs@.len() <= n
                    &&& final(self).spec_position()
                        == old(self).spec_position() + bs@.len()
                    &&& bs@.len() > 0 ==> old(self).spec_position() + bs@.len()
                        <= old(stream).contents().len()
                        && bs@ == old(stream).contents().subrange(
                            old(self).spec_position() as int,
                            old(self).spec_position() + bs@.len())
                },
                Err(_) => final(self).spec_position() == old(self).spec_position(),
            },
            old(stream).reliable()
                && old(self).spec_position() + n <= old(stream).contents().len()
                && old(stream).contents().len() <= u64::MAX
                ==> (r matches Ok(bs) && bs@.len() == n),
    {
        if stream.seek(SeekFrom::Start(self.stream_position)).is_err() {
            return Err(ParsingError::InvalidStream);
        }
        match stream.read(n) {
            Ok(bs) => {
                let k = bs.len();
                if k as u64 > u64::MAX - self.stream_position {
                    return Err(ParsingError::InvalidStream);
                }
                self.stream_position = self.stream_position + k as u64;
                Ok(bs)
            }
            Err(e) => Err(e),
        }
    }

    /// Reads exactly `n` bytes at the entry's cursor.
    pub fn read_exact<S: Read + Seek>(&mut self, stream: &mut S, n: usize) -> (r: Result<
        Vec<u8>, ParsingError>)
        ensures
            final(stream).contents() == old(stream).contents(),
            final(stream).reliable() == old(stream).reliable(),
            final(self)@.info == old(self)@.info,
            final(self).spec_origin() == old(self).spec_origin(),
            match r {
                Ok(bs) => {
                    &&& bs@.len() == n
                    &&& final(self).spec_position()
                        == old(self).spec_position() + n
                    &&& n > 0 ==> old(self).spec_position() + n
                        <= old(stream).contents().len()
                        && bs@ == old(stream).contents().subrange(
                            old(self).spec_position() as int,
                            old(self).spec_position() + n)
                },
                Err(_) => true,
            },
            old(stream).reliable()
                && old(self).spec_position() + n <= old(stream).contents().len()
                && old(stream).contents().len() <= u64::MAX
                ==> r is Ok,
    {
        if stream.seek(SeekFrom::Start(self.stream_position)).is_err() {
            return Err(ParsingError::InvalidStream);
        }
        match stream.read_exact(n) {
            Ok(bs) => {
                let k = bs.len();
                if k as u64 > u64::MAX - self.stream_position {
                    return Err(ParsingError::InvalidStream);
                }
                self.stream_position = self.stream_position + k as u64;
                Ok(bs)
            }
            Err(e) => Err(e),
        }
    }
}

impl<const N: usize> Default for LocalFile<N> {
    /// An empty entry handle with its cursor at the start of the source.
    fn default() -> (r: Self)
        ensures
            r@.info.name == Seq::<u8>::empty(),
            r@.info.name.len() <= N,
            r@.info.compressed_size == 0,
            r.spec_origin() == 0,
            r.spec_position() == 0,
    {
        LocalFile {
            info: Default::default(),
            stream_origin: 0,
            stream_position: 0,
        }
    }
}

impl<S: Read + Seek, const N: usize> LocalFileOps<S> for LocalFile<N> {
    fn file_name(&self) -> Result<String, ParsingError> {
        self.info.file_name()
    }

    fn file_size(&self) -> u64 {
        self.info.file_size()
    }

    fn read(&mut self, stream: &mut S, n: usize) -> Result<Vec<u8>, ParsingError> {
        self.read(stream, n)
    }

    fn read_exact(&mut self, stream: &mut S, n: usize) -> Result<Vec<u8>, ParsingError> {
        self.read_exact(stream, n)
    }
}

} // verus!
