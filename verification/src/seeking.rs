//! Directory-driven parser: locates the end-of-central-directory record of
//! a seekable byte source, then walks the central directory and yields one
//! entry handle per central record, in central-directory order.

use vstd::prelude::*;
use vstd::math::min;
use crate::codec;
use crate::codec::{CentralFileHeader, LocalFileHeader, CentralDirEnd};
use crate::entry::{LocalFile, LocalFileInfo};
use crate::errors::{CompressMethod, spec_method_of};
use crate::stream::{Read, Seek, SeekFrom};

verus! {

/// Anything that builds a parser over a byte source.
pub trait Parser<S: Read>: Sized {
    /// Creates an instance over the given source.
    fn new(stream: &mut S) -> Self;
}

/// A well-formed terminator stands at the very end of `c`, with an empty
/// archive comment.
pub open spec fn eocd_at_end(c: Seq<u8>) -> bool {
    &&& c.len() >= codec::CENTRAL_DIR_END_LEN
    &&& codec::le32(c, c.len() - codec::CENTRAL_DIR_END_LEN)
        == codec::CENTRAL_DIR_END_SIG
}

/// The terminator record decoded from the tail of `c`.
pub open spec fn eocd_of(c: Seq<u8>) -> CentralDirEnd {
    codec::spec_central_dir_end(
        c.subrange(c.len() - codec::CENTRAL_DIR_END_LEN, c.len() as int))
}

/// A central header's fixed prefix fits at `off` and is rightly signed.
pub open spec fn cheader_ok(c: Seq<u8>, off: int) -> bool {
    &&& 0 <= off
    &&& off + codec::CENTRAL_FILE_HEADER_LEN <= c.len()
    &&& codec::le32(c, off) == codec::CENTRAL_FILE_SIG
}

/// The central header decoded at `off`.
pub open spec fn cheader_at(c: Seq<u8>, off: int) -> CentralFileHeader {
    codec::spec_central_header(
        c.subrange(off, off + codec::CENTRAL_FILE_HEADER_LEN))
}

/// A local header's fixed prefix fits at `off` and is rightly signed.
pub open spec fn lheader_ok(c: Seq<u8>, off: int) -> bool {
    &&& 0 <= off
    &&& off + codec::LOCAL_FILE_HEADER_LEN <= c.len()
    &&& codec::le32(c, off) == codec::LOCAL_FILE_SIG
}

/// The local header decoded at `off`.
pub open spec fn lheader_at(c: Seq<u8>, off: int) -> LocalFileHeader {
    codec::spec_local_header(
        c.subrange(off, off + codec::LOCAL_FILE_HEADER_LEN))
}

/// The total length of the central record at `off`.
pub open spec fn crec_len(c: Seq<u8>, off: int) -> int {
    let h = cheader_at(c, off);
    codec::CENTRAL_FILE_HEADER_LEN + h.file_name_length + h.extra_field_length
        + h.file_comment_length
}

/// Where the `k`-th central record after the one at `off` starts.
pub open spec fn cd_nth_off(c: Seq<u8>, off: int, k: int) -> int
    decreases k,
{
    if k <= 0 {
        off
    } else {
        cd_nth_off(c, off + crec_len(c, off), k - 1)
    }
}

/// `count` back-to-back well-formed central records start at `off`: each
/// is rightly signed, its name lies inside the archive, and it points at a
/// well-formed local header.
pub open spec fn cd_wf(c: Seq<u8>, off: int, count: int) -> bool
    decreases count,
{
    count <= 0 || {
        let h = cheader_at(c, off);
        &&& cheader_ok(c, off)
        &&& off + codec::CENTRAL_FILE_HEADER_LEN + h.file_name_length <= c.len()
        &&& lheader_ok(c, h.relative_offset_of_local_header as int)
        &&& cd_wf(c, off + crec_len(c, off), count - 1)
    }
}

/// A well-formed archive: the terminator closes the byte sequence, its
/// directory offset points at `entries_total` well-formed central records,
/// and those records run right up to the terminator.
pub open spec fn archive_wf(c: Seq<u8>) -> bool {
    let e = eocd_of(c);
    &&& eocd_at_end(c)
    &&& c.len() <= u64::MAX
    &&& cd_wf(c, e.central_directory_offset as int,
        e.total_entries_all_disk as int)
    &&& cd_nth_off(c, e.central_directory_offset as int,
        e.total_entries_all_disk as int)
        == c.len() - codec::CENTRAL_DIR_END_LEN
}

/// The entry handle `f` carries exactly what the central record at `off`
/// and the local header it points at declare: method, sizes, the name
/// truncated to `N`, and the payload origin right after the local header's
/// name and extra field.
pub open spec fn entry_matches<const N: usize>(c: Seq<u8>, off: int, f: LocalFile<N>) -> bool {
    let h = cheader_at(c, off);
    let lh = lheader_at(c, h.relative_offset_of_local_header as int);
    &&& f@.info.method == spec_method_of(h.compression_method)
    &&& f@.info.compressed_size == h.compressed_size as u64
    &&& f@.info.uncompressed_size == h.uncompressed_size as u64
    &&& f@.info.name == c.subrange(off + codec::CENTRAL_FILE_HEADER_LEN,
        off + codec::CENTRAL_FILE_HEADER_LEN
            + min(h.file_name_length as int, N as int))
    &&& f.spec_origin() == h.relative_offset_of_local_header
        + codec::LOCAL_FILE_HEADER_LEN + lh.file_name_length
        + lh.extra_field_length
    &&& f.spec_position() == f.spec_origin()
    &&& f@.info.data_offset == f.spec_origin()
}

/// The abstraction of the directory-driven parser.
#[verifier::ext_equal]
pub ghost struct SeekingModel {
    pub number_of_files: Option<usize>,
    pub cd_offset: u64,
    pub next_offset: u64,
}

/// Walks the central directory of a seekable source.  `N` bounds the name
/// length of the entries it yields; longer names are truncated.
#[derive(Debug)]
pub struct SeekingParser<const N: usize> {
    /// `None` when no central directory was found.
    pub number_of_files: Option<usize>,

    central_directory_offset: u64,
    next_entry_offset: u64,
}

impl<const N: usize> View for SeekingParser<N> {
    type V = SeekingModel;

    closed spec fn view(&self) -> SeekingModel {
        SeekingModel {
            number_of_files: self.number_of_files,
            cd_offset: self.central_directory_offset,
            next_offset: self.next_entry_offset,
        }
    }
}

impl<const N: usize> SeekingParser<N> {
    /// The parser found a directory and stands at its `k`-th record.
    pub open spec fn at_directory(&self, c: Seq<u8>) -> bool {
        &&& eocd_at_end(c)
        &&& self@.number_of_files
            == Some(eocd_of(c).total_entries_all_disk as usize)
        &&& self@.cd_offset == eocd_of(c).central_directory_offset
    }

    /// Locates the terminator record at the very end of the source (the
    /// archive comment is assumed empty), remembering the directory offset
    /// and the number of entries; any failure leaves `number_of_files`
    /// empty and the parser yields nothing.
    pub fn new<S0: Read + Seek>(stream: &mut S0) -> (r: Self)
        ensures
            final(stream).contents() == old(stream).contents(),
            final(stream).reliable() == old(stream).reliable(),
            r@.next_offset == 0,
            old(stream).reliable()
                && old(stream).contents().len() <= u64::MAX ==> {
                let c = old(stream).contents();
                &&& eocd_at_end(c) ==> r.at_directory(c)
                &&& !eocd_at_end(c) ==> r@.number_of_files is None
            },
    {
        let mut central_directory_offset: u64 = 0;
        let mut number_of_files: Option<usize> = None;
        match stream.stream_len() {
            Some(stream_len) => {
                if stream_len >= codec::CENTRAL_DIR_END_LEN as u64 {
                    let start = stream_len - codec::CENTRAL_DIR_END_LEN as u64;
                    if stream.seek(SeekFrom::Start(start)).is_ok() {
                        match stream.read(codec::CENTRAL_DIR_END_LEN) {
                            Ok(buf) => {
                                if buf.len() == codec::CENTRAL_DIR_END_LEN {
                                    match CentralDirEnd::from_bytes(buf.as_slice()) {
                                        Ok(eocd) => {
                                            let cdo =
                                                eocd.central_directory_offset as u64;
                                            let _ = stream.seek(
                                                SeekFrom::Start(cdo));
                                            central_directory_offset = cdo;
                                            number_of_files = Some(
                                                eocd.total_entries_all_disk
                                                    as usize);
                                        },
                                        Err(_) => {
                                            let _ = stream.rewind();
                                        },
                                    }
                                } else {
                                    let _ = stream.rewind();
                                }
                            },
                            Err(_) => {
                                let _ = stream.rewind();
                            },
                        }
                    }
                }
            },
            None => {},
        }
        SeekingParser {
            number_of_files,
            central_directory_offset,
            next_entry_offset: 0,
        }
    }

    /// Yields the entry of the central record the parser stands at, and
    /// advances to the next record.  A malformed or out-of-bounds record
    /// ends iteration with `None`.
    pub fn next<S: Read + Seek>(&mut self, stream: &mut S) -> (r: Option<LocalFile<N>>)
        ensures
            final(stream).contents() == old(stream).contents(),
            final(stream).reliable() == old(stream).reliable(),
            final(self)@.number_of_files == old(self)@.number_of_files,
            final(self)@.cd_offset == old(self)@.cd_offset,
            r is Some ==> old(self)@.cd_offset + old(self)@.next_offset
                + codec::CENTRAL_FILE_HEADER_LEN
                <= old(stream).contents().len()
                && final(self)@.next_offset >= old(self)@.next_offset
                    + codec::CENTRAL_FILE_HEADER_LEN,
            old(stream).reliable()
                && old(stream).contents().len() <= u64::MAX ==> {
                let c = old(stream).contents();
                let pos = old(self)@.cd_offset + old(self)@.next_offset;
                &&& (pos + codec::CENTRAL_FILE_HEADER_LEN > c.len() ==> r is None
                    && final(self)@.next_offset == old(self)@.next_offset)
                &&& (pos + codec::CENTRAL_FILE_HEADER_LEN <= c.len()
                    && codec::le32(c, pos as int) != codec::CENTRAL_FILE_SIG
                    ==> r is None
                    && final(self)@.next_offset == old(self)@.next_offset)
                &&& (cheader_ok(c, pos as int)
                    && pos + codec::CENTRAL_FILE_HEADER_LEN
                        + min(cheader_at(c, pos as int).file_name_length as int,
                            N as int) <= c.len()
                    && pos + crec_len(c, pos as int) <= c.len()
                    && lheader_ok(c, cheader_at(c,
                        pos as int).relative_offset_of_local_header as int)
                    ==> {
                    let h = cheader_at(c, pos as int);
                    &&& r matches Some(f) && entry_matches(c, pos as int, f)
                    &&& final(self)@.next_offset
                        == old(self)@.next_offset + crec_len(c, pos as int)
                })
            },
    {
        let cd = self.central_directory_offset;
        let off = self.next_entry_offset;
        if off > u64::MAX - cd {
            return None;
        }
        let pos = cd + off;
        if stream.seek(SeekFrom::Start(pos)).is_err() {
            return None;
        }
        let buf = match stream.read(codec::CENTRAL_FILE_HEADER_LEN) {
            Ok(b) => b,
            Err(_) => {
                return None;
            },
        };
        if buf.len() != codec::CENTRAL_FILE_HEADER_LEN {
            return None;
        }
        let ch = match CentralFileHeader::from_bytes(buf.as_slice()) {
            Ok(h) => h,
            Err(_) => {
                return None;
            },
        };
        proof {
            let c = stream.contents();
            let p = pos as int;
            assert(c.subrange(p, p + codec::CENTRAL_FILE_HEADER_LEN)[0] == c[p]);
            assert(c.subrange(p, p + codec::CENTRAL_FILE_HEADER_LEN)[1] == c[p + 1]);
            assert(c.subrange(p, p + codec::CENTRAL_FILE_HEADER_LEN)[2] == c[p + 2]);
            assert(c.subrange(p, p + codec::CENTRAL_FILE_HEADER_LEN)[3] == c[p + 3]);
        }
        // read the name, truncated to the compile-time bound
        let name_want = ch.file_name_length as usize;
        let name_cap = if name_want < N { name_want } else { N };
        let name = match stream.read(name_cap) {
            Ok(v) => v,
            Err(_) => {
                return None;
            },
        };
        if name.len() != name_cap {
            return None;
        }
        proof {
            let c = stream.contents();
            let p46 = pos as int + codec::CENTRAL_FILE_HEADER_LEN as int;
            if name@.len() == 0 {
                assert(name@ =~= c.subrange(p46, p46));
            }
        }
        // step over the whole central record
        let rec_len = ch.len();
        if rec_len as u64 > u64::MAX - off {
            return None;
        }
        self.next_entry_offset = off + rec_len as u64;
        // find the payload through the local header
        let lrec = ch.relative_offset_of_local_header as u64;
        if stream.seek(SeekFrom::Start(lrec)).is_err() {
            return None;
        }
        let lbuf = match stream.read(codec::LOCAL_FILE_HEADER_LEN) {
            Ok(b) => b,
            Err(_) => {
                return None;
            },
        };
        if lbuf.len() != codec::LOCAL_FILE_HEADER_LEN {
            return None;
        }
        let lh = match LocalFileHeader::from_bytes(lbuf.as_slice()) {
            Ok(h) => h,
            Err(_) => {
                return None;
            },
        };
        let data_off = lrec + codec::LOCAL_FILE_HEADER_LEN as u64
            + lh.file_name_length as u64 + lh.extra_field_length as u64;
        let info = LocalFileInfo::<N>::default()
            .with_compression_method(CompressMethod::from_code(ch.compression_method))
            .with_compressed_size(ch.compressed_size as u64)
            .with_uncompressed_size(ch.uncompressed_size as u64)
            .with_name(name)
            .with_extra_len(ch.extra_field_length as usize)
            .with_data_offset(data_off);
        let file = LocalFile::<N>::default().with_info(info).with_origin(data_off);
        Some(file)
    }
}

/// A central record is at least its fixed prefix long.
pub proof fn lemma_crec_len_min(c: Seq<u8>, off: int)
    ensures
        crec_len(c, off) >= codec::CENTRAL_FILE_HEADER_LEN,
{
}

/// Walking records never moves backwards.
pub proof fn lemma_nth_mono(c: Seq<u8>, off: int, k: int)
    requires
        k >= 0,
    ensures
        cd_nth_off(c, off, k) >= off,
    decreases k,
{
    if k > 0 {
        lemma_crec_len_min(c, off);
        lemma_nth_mono(c, off + crec_len(c, off), k - 1);
    }
}

/// Walking `a + b` records is walking `a`, then `b`.
pub proof fn lemma_nth_add(c: Seq<u8>, off: int, a: int, b: int)
    requires
        a >= 0,
        b >= 0,
    ensures
        cd_nth_off(c, off, a + b) == cd_nth_off(c, cd_nth_off(c, off, a), b),
    decreases a,
{
    if a > 0 {
        lemma_nth_add(c, off + crec_len(c, off), a - 1, b);
    }
}

/// The offset after `k + 1` records is the offset after `k` records plus
/// that record's length.
pub proof fn lemma_nth_snoc(c: Seq<u8>, off: int, k: int)
    requires
        k >= 0,
    ensures
        cd_nth_off(c, off, k + 1) == cd_nth_off(c, off, k)
            + crec_len(c, cd_nth_off(c, off, k)),
    decreases k,
{
    assert(cd_nth_off(c, off, k + 1)
        == cd_nth_off(c, off + crec_len(c, off), k));
    if k > 0 {
        lemma_nth_snoc(c, off + crec_len(c, off), k - 1);
        assert(cd_nth_off(c, off, k) == cd_nth_off(c, off + crec_len(c, off), k - 1));
    } else {
        assert(cd_nth_off(c, off + crec_len(c, off), 0) == off + crec_len(c, off));
        assert(cd_nth_off(c, off, 0) == off);
    }
}

/// Skipping `k` records of a well-formed directory leaves a well-formed
/// directory of the remaining records.
pub proof fn lemma_cd_wf_skip(c: Seq<u8>, off: int, count: int, k: int)
    requires
        cd_wf(c, off, count),
        0 <= k <= count,
    ensures
        cd_wf(c, cd_nth_off(c, off, k), count - k),
    decreases k,
{
    if k > 0 {
        lemma_cd_wf_skip(c, off + crec_len(c, off), count - 1, k - 1);
    }
}

impl<const N: usize> SeekingParser<N> {
    /// Yields every remaining entry, in central-directory order.
    ///
    /// Over a reliable source holding a well-formed archive, a freshly
    /// built parser returns exactly `entries_total` entries (the count the
    /// terminator record declares), and the `k`-th returned entry carries
    /// what the `k`-th central record declares: iteration order is
    /// central-directory byte order.
    pub fn collect_entries<S: Read + Seek>(&mut self, stream: &mut S) -> (es: Vec<
        LocalFile<N>>)
        ensures
            final(stream).contents() == old(stream).contents(),
            final(stream).reliable() == old(stream).reliable(),
            ({
                let c = old(stream).contents();
                let e = eocd_of(c);
                old(stream).reliable() && archive_wf(c)
                    && old(self).at_directory(c)
                    && old(self)@.next_offset == 0 ==> {
                    &&& es@.len() == e.total_entries_all_disk
                    &&& forall |k: int| 0 <= k < es@.len() ==> entry_matches(
                        c,
                        cd_nth_off(c, e.central_directory_offset as int, k),
                        #[trigger] es@[k])
                }
            }),
    {
        let ghost c = old(stream).contents();
        let ghost rel0 = old(stream).reliable();
        let ghost cd0 = self@.cd_offset as int;
        let ghost n = eocd_of(c).total_entries_all_disk as int;
        let ghost hyp = rel0 && archive_wf(c) && self.at_directory(c)
            && self@.next_offset == 0;
        let ghost cdu = self@.cd_offset;
        let ghost nf0 = self@.number_of_files;

        let mut es: Vec<LocalFile<N>> = Vec::new();
        loop
            invariant
                stream.contents() == c,
                stream.reliable() == rel0,
                self@.cd_offset == cdu,
                self@.number_of_files == nf0,
                cd0 == cdu as int,
                hyp ==> {
                    &&& rel0
                    &&& archive_wf(c)
                    &&& cd0 == eocd_of(c).central_directory_offset as int
                    &&& n == eocd_of(c).total_entries_all_disk as int
                    &&& c.len() <= u64::MAX
                },
                hyp ==> {
                    &&& es@.len() <= n
                    &&& cd0 + self@.next_offset
                        == cd_nth_off(c, cd0, es@.len() as int)
                    &&& forall |k: int| 0 <= k < es@.len() ==> entry_matches(
                        c, cd_nth_off(c, cd0, k), #[trigger] es@[k])
                },
            ensures
                stream.contents() == c,
                stream.reliable() == rel0,
                hyp ==> {
                    &&& es@.len() == n
                    &&& forall |k: int| 0 <= k < es@.len() ==> entry_matches(
                        c, cd_nth_off(c, cd0, k), #[trigger] es@[k])
                },
            decreases (
                if c.len() + codec::CENTRAL_FILE_HEADER_LEN
                    >= self@.cd_offset + self@.next_offset {
                    c.len() + codec::CENTRAL_FILE_HEADER_LEN
                        - self@.cd_offset - self@.next_offset
                } else {
                    0
                }
            ),
        {
            let ghost off_before = self@.next_offset;
            let ghost k = es@.len() as int;
            proof {
                if hyp {
                    lemma_cd_wf_skip(c, cd0, n, k);
                    if k < n {
                        lemma_nth_snoc(c, cd0, k);
                        lemma_nth_add(c, cd0, k + 1, n - k - 1);
                        lemma_nth_mono(c, cd_nth_off(c, cd0, k + 1), n - k - 1);
                        lemma_crec_len_min(c, cd_nth_off(c, cd0, k));
                    }
                }
            }
            match self.next(stream) {
                None => {
                    proof {
                        if hyp {
                            // inside the directory every record yields an
                            // entry, so iteration only ends at its end
                            assert(k == n);
                        }
                    }
                    break;
                },
                Some(f) => {
                    proof {
                        if hyp {
                            if k == n {
                                // the terminator stands here, not a record
                                assert(cd0 + off_before
                                    == c.len() - codec::CENTRAL_DIR_END_LEN);
                                assert(false);
                            }
                        }
                    }
                    es.push(f);
                },
            }
        }
        es
    }
}

impl<S: Read + Seek, const N: usize> Parser<S> for SeekingParser<N> {
    fn new(stream: &mut S) -> Self {
        SeekingParser::new(stream)
    }
}

} // verus!
