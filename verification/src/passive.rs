//! Incremental push parser: a state machine fed with byte chunks that
//! recognizes record signatures on the fly and reports semantic events to a
//! caller-supplied sink, buffering record prefixes only.
//!
//! [`PassiveParser::feed_data`] is proved to behave exactly like the
//! abstract machine [`crate::machine::run`] on the bytes it consumes, for
//! any sink that never cancels; a cancelling sink stops the parser at the
//! event it refused, and the tail of the input can be fed again later.

use vstd::prelude::*;
use crate::errors::ParsingError;
use crate::codec;
use crate::codec::Signature;
use crate::entry::{LocalFileInfo, utf8_decoded};
use crate::errors::CompressMethod;
use crate::hbuf::{HeaderBuf, header_buf_bytes};
use crate::machine::{
    Machine, MState, HeaderType, TraceEvent, init, can_drain, drain, eat, run,
};

verus! {

/// One semantic event, delivered to the sink during `feed_data`.  Borrowed
/// slices are valid only for the duration of the sink call.
#[derive(Debug, Clone, Copy)]
pub enum ParserEvent<'b, 'c, const N: usize> {
    /// A complete local header, including name and extra field.
    LocalFileHeader(i32, &'c LocalFileInfo<N>),
    /// Payload bytes of one entry, mirroring the caller's chunking.
    LocalFileData { file_index: i32, offset: usize, data: &'b [u8] },
    /// All payload bytes of one entry have been delivered.
    LocalFileEnd(i32),
    /// A parsing error; the sink decides whether parsing continues.
    ParsingError(i32, ParsingError),
    /// The sink cancelled; carries `(-1, bytes_consumed)`.
    UserCancel(i32, usize),
}

/// The abstract events a concrete event stands for.  A data event counts
/// one abstract event per payload byte, so chunking does not show in logs.
pub open spec fn abs_events<const N: usize>(e: ParserEvent<'_, '_, N>) -> Seq<TraceEvent> {
    match e {
        ParserEvent::LocalFileHeader(i, info) => seq![TraceEvent::Header {
            idx: i, info: info@ }],
        ParserEvent::LocalFileData { file_index, offset, data } => Seq::new(
            data@.len(),
            |j: int| TraceEvent::Data {
                idx: file_index, off: offset + j, byte: data@[j] },
        ),
        ParserEvent::LocalFileEnd(i) => seq![TraceEvent::End { idx: i }],
        ParserEvent::ParsingError(i, err) => seq![TraceEvent::Fault {
            idx: i, err: err }],
        ParserEvent::UserCancel(_, n) => seq![TraceEvent::Cancel {
            consumed: n as nat }],
    }
}

/// The trace holds no cancellation marker.
pub open spec fn no_cancel(tr: Seq<TraceEvent>) -> bool {
    forall |i: int| 0 <= i < tr.len() ==> !((#[trigger] tr[i]) is Cancel)
}

proof fn lemma_no_cancel_append(a: Seq<TraceEvent>, b: Seq<TraceEvent>)
    requires
        no_cancel(a),
        no_cancel(b),
    ensures
        no_cancel(a + b),
{
    assert forall |i: int| 0 <= i < (a + b).len()
        implies !((#[trigger] (a + b)[i]) is Cancel) by {
        if i < a.len() {
            assert((a + b)[i] == a[i]);
        } else {
            assert((a + b)[i] == b[i - a.len()]);
        }
    }
}

/// Where the parser sends its events.  A sink keeps an abstract log of the
/// events it has seen and may refuse to continue; one that declares
/// `accepts_all` never refuses.
pub trait EventSink<const N: usize>: Sized {
    /// Every event the sink has been handed, in order, abstractly.
    spec fn log(&self) -> Seq<TraceEvent>;

    /// The sink never asks the parser to stop.
    spec fn accepts_all(&self) -> bool;

    /// Receives one event; the result says whether parsing may continue.
    fn on_event(&mut self, e: &ParserEvent<'_, '_, N>) -> (r: bool)
        ensures
            final(self).log() == old(self).log() + abs_events(*e),
            old(self).accepts_all() ==> r && final(self).accepts_all(),
    ;
}

/// The concrete control state of the push parser.
#[derive(Debug, Clone, Copy)]
pub enum ParserState {
    /// Accumulating a fixed-size prefix of the given kind and length.
    RecvHeader(HeaderType, usize),
    RecvCentralFileHeader,
    RecvCentralDirEnd,
    RecvLocalFileName,
    RecvLocalFileExtraField,
    RecvLocalFileData,
}

/// Byte-fed ZIP parser.  `N` bounds the name length it accepts.
#[derive(Debug)]
pub struct PassiveParser<const N: usize> {
    buffer: HeaderBuf,

    zip_file_comment: Vec<u8>,

    /// The entry currently under construction, if a local header has been
    /// parsed.
    pub localfile_info: Option<LocalFileInfo<N>>,

    localfile_index: i32,
    centralfile_index: i32,

    file_name_len: usize,
    file_name_index: usize,

    extra_field_len: usize,
    extra_field_index: usize,

    file_data_len: usize,
    file_data_index: usize,

    central_file_header_index: usize,
    central_file_header_len: usize,

    central_dir_end_index: usize,
    central_dir_end_len: usize,

    state: ParserState,
}

impl<const N: usize> View for PassiveParser<N> {
    type V = Machine;

    closed spec fn view(&self) -> Machine {
        Machine {
            cap: N as nat,
            state: match self.state {
                ParserState::RecvHeader(t, n) => MState::RecvHeader(t, n as nat),
                ParserState::RecvCentralFileHeader => MState::RecvCentralFileHeader,
                ParserState::RecvCentralDirEnd => MState::RecvCentralDirEnd,
                ParserState::RecvLocalFileName => MState::RecvLocalFileName,
                ParserState::RecvLocalFileExtraField => MState::RecvLocalFileExtraField,
                ParserState::RecvLocalFileData => MState::RecvLocalFileData,
            },
            buf: header_buf_bytes(self.buffer),
            info: match self.localfile_info {
                Some(i) => Some(i@),
                None => None,
            },
            lf_idx: self.localfile_index,
            cf_idx: self.centralfile_index,
            name_idx: self.file_name_index as nat,
            name_len: self.file_name_len as nat,
            extra_idx: self.extra_field_index as nat,
            extra_len: self.extra_field_len as nat,
            data_idx: self.file_data_index as nat,
            data_len: self.file_data_len as nat,
            ct_idx: self.central_file_header_index as nat,
            ct_len: self.central_file_header_len as nat,
            ce_idx: self.central_dir_end_index as nat,
            ce_len: self.central_dir_end_len as nat,
            comment: self.zip_file_comment@,
        }
    }
}

impl<const N: usize> PassiveParser<N> {
    /// Internal consistency: the buffer is below the prefix length being
    /// accumulated, a known signature opens every non-signature prefix, the
    /// progress counters stay below their bounds, and the entry under
    /// construction exists exactly while entry states run.
    pub closed spec fn wf(&self) -> bool {
        &&& match self.state {
            ParserState::RecvHeader(t, need) => {
                &&& header_buf_bytes(self.buffer).len() < need
                &&& match t {
                    HeaderType::HeaderSignature => need == 4,
                    HeaderType::LocalFileHeader => {
                        &&& need == codec::LOCAL_FILE_HEADER_LEN
                        &&& header_buf_bytes(self.buffer).len() >= 4
                        &&& codec::le32(header_buf_bytes(self.buffer), 0)
                            == codec::LOCAL_FILE_SIG
                    },
                    HeaderType::CentralFileHeader => {
                        &&& need == codec::CENTRAL_FILE_HEADER_LEN
                        &&& header_buf_bytes(self.buffer).len() >= 4
                        &&& codec::le32(header_buf_bytes(self.buffer), 0)
                            == codec::CENTRAL_FILE_SIG
                    },
                    HeaderType::CentralDirEnd => {
                        &&& need == codec::CENTRAL_DIR_END_LEN
                        &&& header_buf_bytes(self.buffer).len() >= 4
                        &&& codec::le32(header_buf_bytes(self.buffer), 0)
                            == codec::CENTRAL_DIR_END_SIG
                    },
                }
            },
            ParserState::RecvLocalFileName => {
                &&& header_buf_bytes(self.buffer).len() == 0
                &&& self.localfile_info is Some
                &&& self.file_name_index <= self.file_name_len
                &&& self.extra_field_index <= self.extra_field_len
                &&& self.file_data_index <= self.file_data_len
                &&& (self.file_name_len <= N
                    ==> self.localfile_info.unwrap()@.name.len()
                        == self.file_name_index)
                &&& (self.file_name_len > N
                    ==> self.localfile_info.unwrap()@.name.len() == 0)
            },
            ParserState::RecvLocalFileExtraField => {
                &&& header_buf_bytes(self.buffer).len() == 0
                &&& self.localfile_info is Some
                &&& self.extra_field_index <= self.extra_field_len
                &&& self.file_data_index <= self.file_data_len
                &&& (self.file_name_len <= N
                    ==> self.localfile_info.unwrap()@.name.len()
                        == self.file_name_len)
            },
            ParserState::RecvLocalFileData => {
                &&& header_buf_bytes(self.buffer).len() == 0
                &&& self.localfile_info is Some
                &&& self.file_data_index <= self.file_data_len
            },
            ParserState::RecvCentralFileHeader => {
                &&& header_buf_bytes(self.buffer).len() == 0
                &&& self.central_file_header_index <= self.central_file_header_len
            },
            ParserState::RecvCentralDirEnd => {
                &&& header_buf_bytes(self.buffer).len() == 0
                &&& self.central_dir_end_index <= self.central_dir_end_len
            },
        }
    }

    /// A fresh parser, waiting for the first record signature.
    pub fn new() -> (r: Self)
        ensures
            r.wf(),
            r@ == init(N as nat),
    {
        let r = PassiveParser {
            buffer: HeaderBuf::new(),
            zip_file_comment: Vec::new(),
            localfile_info: None,
            localfile_index: 0,
            centralfile_index: 0,
            file_name_len: 0,
            file_name_index: 0,
            extra_field_len: 0,
            extra_field_index: 0,
            file_data_len: 0,
            file_data_index: 0,
            central_file_header_index: 0,
            central_file_header_len: 0,
            central_dir_end_index: 0,
            central_dir_end_len: 0,
            state: ParserState::RecvHeader(HeaderType::HeaderSignature, 4),
        };
        proof {
            assert(r@ =~= init(N as nat));
        }
        r
    }

    /// Forgets all progress, as if the parser were fresh.
    pub fn reset(&mut self)
        ensures
            final(self).wf(),
            final(self)@ == init(N as nat),
    {
        self.state = ParserState::RecvHeader(HeaderType::HeaderSignature, 4);
        self.zip_file_comment = Vec::new();
        self.buffer.clear();
        self.localfile_info = None;
        self.localfile_index = 0;
        self.centralfile_index = 0;
        self.file_name_index = 0;
        self.file_name_len = 0;
        self.extra_field_index = 0;
        self.extra_field_len = 0;
        self.file_data_index = 0;
        self.file_data_len = 0;
        self.central_file_header_index = 0;
        self.central_file_header_len = 0;
        self.central_dir_end_index = 0;
        self.central_dir_end_len = 0;
        proof {
            assert(self@ =~= init(N as nat));
        }
    }

    /// The index of the entry the parser is currently inside.
    pub fn localfile_index(&self) -> (r: i32)
        ensures
            r == self@.lf_idx,
    {
        self.localfile_index
    }

    /// The archive comment seen so far, decoded as UTF-8.
    pub fn file_comment(&self) -> (r: Result<String, ParsingError>)
        ensures
            match r {
                Ok(s) => utf8_decoded(self@.comment) == Some(s@),
                Err(e) => e == ParsingError::Generic
                    && utf8_decoded(self@.comment) is None,
            },
    {
        match crate::entry::utf8_to_string(self.zip_file_comment.as_slice()) {
            Some(s) => Ok(s),
            None => Err(ParsingError::Generic),
        }
    }

    /// Feeds a chunk of archive bytes, reporting events to `sink`, and
    /// returns how many bytes of `data` were consumed.
    ///
    /// For a sink that never cancels, the whole chunk is consumed, and the
    /// parser and the sink's log advance exactly as the abstract machine
    /// [`run`] does on these bytes.  When the sink cancels, the parser
    /// stops where it was, reports `UserCancel` with the bytes consumed,
    /// and the caller may feed the unconsumed tail later.
    #[verifier::rlimit(100)]
    pub fn feed_data<D: EventSink<N>>(&mut self, data: &[u8], sink: &mut D) -> (consumed: usize)
        requires
            old(self).wf(),
        ensures
            final(self).wf(),
            consumed <= data@.len(),
            old(sink).accepts_all() ==> {
                &&& consumed == data@.len()
                &&& final(self)@ == run(old(self)@, data@).0
                &&& final(sink).log() == old(sink).log() + run(old(self)@, data@).1
                &&& final(sink).accepts_all()
            },
            exists |es: Seq<TraceEvent>| {
                &&& final(sink).log() == old(sink).log() + es
                &&& ((no_cancel(es) && consumed == data@.len())
                    || (es.len() > 0
                        && es[es.len() - 1] == (TraceEvent::Cancel {
                            consumed: consumed as nat })
                        && no_cancel(es.take(es.len() - 1))))
            },
    {
        let ghost m0 = self@;
        let ghost log0 = sink.log();
        let ghost a0 = sink.accepts_all();
        let mut processed: usize = 0;
        let ghost mut emitted = Seq::<TraceEvent>::empty();

        proof {
            assert(data@.skip(0) =~= data@);
            assert(Seq::<TraceEvent>::empty() + run(m0, data@).1
                =~= run(m0, data@).1);
        }

        loop
            invariant
                self.wf(),
                processed <= data@.len(),
                sink.log() == log0 + emitted,
                no_cancel(emitted),
                a0 == old(sink).accepts_all(),
                a0 ==> sink.accepts_all(),
                m0 == old(self)@,
                log0 == old(sink).log(),
                run(m0, data@).0 == run(self@, data@.skip(processed as int)).0,
                run(m0, data@).1 == emitted
                    + run(self@, data@.skip(processed as int)).1,
            ensures
                self.wf(),
                processed == data@.len(),
                !can_drain(self@),
                sink.log() == log0 + emitted,
                no_cancel(emitted),
                a0 ==> sink.accepts_all(),
                run(m0, data@).0 == run(self@, data@.skip(processed as int)).0,
                run(m0, data@).1 == emitted
                    + run(self@, data@.skip(processed as int)).1,
            decreases data@.len() - processed, crate::machine::rank(self@),
        {
            let ghost cur = self@;
            let ghost rem = data@.skip(processed as int);

            match self.state {
                ParserState::RecvHeader(t, need) => {
                    if processed >= data.len() {
                        break;
                    }
                    proof {
                        assert(rem.len() > 0);
                        assert(rem[0] == data@[processed as int]);
                        assert(rem.skip(1) =~= data@.skip(processed as int + 1));
                    }
                    let b = data[processed];
                    processed += 1;
                    self.buffer.push(b);
                    let ghost (mstep, estep) = eat(cur, b);
                    if self.buffer.len() < need {
                        proof {
                            assert(self@ =~= mstep);
                            assert(estep =~= Seq::<TraceEvent>::empty());
                            assert(emitted + (estep + run(mstep, rem.skip(1)).1)
                                =~= emitted + run(mstep, rem.skip(1)).1);
                        }
                    } else {
                        // the prefix is complete: dispatch on its kind
                        match t {
                            HeaderType::HeaderSignature => {
                                match Signature::try_signature(self.buffer.as_slice()) {
                                    Err(err) => {
                                        self.buffer.clear();
                                        let ev = ParserEvent::ParsingError(
                                            self.localfile_index, err);
                                        let cont = sink.on_event(&ev);
                                        proof {
                                            assert(self@ =~= mstep);
                                            assert(abs_events(ev) =~= estep);
                                            let em0 = emitted;
                                            assert(no_cancel(estep));
                                            lemma_no_cancel_append(em0, estep);
                                            emitted = emitted + estep;
                                            assert(em0 + (estep
                                                + run(mstep, rem.skip(1)).1)
                                                =~= emitted
                                                + run(mstep, rem.skip(1)).1);
                                        }
                                        if !cont {
                                            let cev = ParserEvent::UserCancel(
                                                -1, processed);
                                            let _ = sink.on_event(&cev);
                                            proof {
                                                let em0 = emitted;
                                                emitted = emitted + abs_events(cev);
                                                assert((log0 + em0) + abs_events(cev)
                                                    =~= log0 + emitted);
                                                assert(sink.log() == log0 + emitted);
                                                assert(emitted[emitted.len() - 1]
                                                    == (TraceEvent::Cancel {
                                                        consumed: processed as nat }));
                                                assert(emitted.take(emitted.len() - 1) =~= em0);
                                            }
                                            return processed;
                                        }
                                    },
                                    Ok(sig) => {
                                        match sig {
                                            Signature::LocalFileHeader => {
                                                self.state = ParserState::RecvHeader(
                                                    HeaderType::LocalFileHeader,
                                                    codec::LOCAL_FILE_HEADER_LEN);
                                            },
                                            Signature::CentralFileHeader => {
                                                self.state = ParserState::RecvHeader(
                                                    HeaderType::CentralFileHeader,
                                                    codec::CENTRAL_FILE_HEADER_LEN);
                                            },
                                            Signature::CentralDirEnd => {
                                                self.state = ParserState::RecvHeader(
                                                    HeaderType::CentralDirEnd,
                                                    codec::CENTRAL_DIR_END_LEN);
                                            },
                                        }
                                        proof {
                                            assert(self@ =~= mstep);
                                            assert(estep
                                                =~= Seq::<TraceEvent>::empty());
                                            assert(emitted + (estep
                                                + run(mstep, rem.skip(1)).1)
                                                =~= emitted
                                                + run(mstep, rem.skip(1)).1);
                                        }
                                    },
                                }
                            },
                            HeaderType::LocalFileHeader => {
                                let h = match codec::LocalFileHeader::from_bytes(
                                    self.buffer.as_slice()) {
                                    Ok(h) => h,
                                    Err(_) => vstd::pervasive::unreached(),
                                };
                                self.state = ParserState::RecvLocalFileName;
                                self.file_name_index = 0;
                                self.file_name_len = h.file_name_length as usize;
                                self.extra_field_index = 0;
                                self.extra_field_len = h.extra_field_length as usize;
                                self.file_data_index = 0;
                                self.file_data_len = h.compressed_size as usize;
                                let info = LocalFileInfo::<N>::default()
                                    .with_compression_method(
                                        CompressMethod::from_code(h.compression_method))
                                    .with_compressed_size(h.compressed_size as u64)
                                    .with_uncompressed_size(h.uncompressed_size as u64)
                                    .with_extra_len(h.extra_field_length as usize);
                                self.localfile_info = Some(info);
                                self.buffer.clear();
                                proof {
                                    assert(self@ =~= mstep);
                                }
                                if self.file_name_len > N {
                                    let ev = ParserEvent::ParsingError(
                                        self.localfile_index,
                                        ParsingError::LocalFileNameTooLong(
                                            self.localfile_index,
                                            self.file_name_len));
                                    let cont = sink.on_event(&ev);
                                    proof {
                                        assert(abs_events(ev) =~= estep);
                                        let em0 = emitted;
                                        assert(no_cancel(estep));
                                        lemma_no_cancel_append(em0, estep);
                                        emitted = emitted + estep;
                                        assert(em0 + (estep
                                            + run(mstep, rem.skip(1)).1)
                                            =~= emitted
                                            + run(mstep, rem.skip(1)).1);
                                    }
                                    if !cont {
                                        let cev = ParserEvent::UserCancel(
                                            -1, processed);
                                        let _ = sink.on_event(&cev);
                                        proof {
                                            let em0 = emitted;
                                            emitted = emitted + abs_events(cev);
                                            assert((log0 + em0) + abs_events(cev)
                                                =~= log0 + emitted);
                                            assert(sink.log() == log0 + emitted);
                                            assert(emitted[emitted.len() - 1]
                                                == (TraceEvent::Cancel {
                                                    consumed: processed as nat }));
                                            assert(emitted.take(emitted.len() - 1) =~= em0);
                                        }
                                        return processed;
                                    }
                                } else {
                                    proof {
                                        assert(estep =~= Seq::<TraceEvent>::empty());
                                        assert(emitted + (estep
                                            + run(mstep, rem.skip(1)).1)
                                            =~= emitted + run(mstep, rem.skip(1)).1);
                                    }
                                }
                            },
                            HeaderType::CentralFileHeader => {
                                let h = match codec::CentralFileHeader::from_bytes(
                                    self.buffer.as_slice()) {
                                    Ok(h) => h,
                                    Err(_) => vstd::pervasive::unreached(),
                                };
                                self.central_file_header_index = 0;
                                self.central_file_header_len =
                                    h.file_name_length as usize
                                    + h.extra_field_length as usize
                                    + h.file_comment_length as usize;
                                self.buffer.clear();
                                self.state = ParserState::RecvCentralFileHeader;
                                proof {
                                    assert(self@ =~= mstep);
                                    assert(estep =~= Seq::<TraceEvent>::empty());
                                    assert(emitted + (estep
                                        + run(mstep, rem.skip(1)).1)
                                        =~= emitted + run(mstep, rem.skip(1)).1);
                                }
                            },
                            HeaderType::CentralDirEnd => {
                                let h = match codec::CentralDirEnd::from_bytes(
                                    self.buffer.as_slice()) {
                                    Ok(h) => h,
                                    Err(_) => vstd::pervasive::unreached(),
                                };
                                self.central_dir_end_index = 0;
                                self.central_dir_end_len =
                                    h.zip_file_comment_length as usize;
                                self.buffer.clear();
                                self.state = ParserState::RecvCentralDirEnd;
                                proof {
                                    assert(self@ =~= mstep);
                                    assert(estep =~= Seq::<TraceEvent>::empty());
                                    assert(emitted + (estep
                                        + run(mstep, rem.skip(1)).1)
                                        =~= emitted + run(mstep, rem.skip(1)).1);
                                }
                            },
                        }
                    }
                },
                ParserState::RecvLocalFileName => {
                    if self.file_name_index >= self.file_name_len {
                        self.state = ParserState::RecvLocalFileExtraField;
                        proof {
                            assert(can_drain(cur));
                            assert(self@ =~= drain(cur).0);
                            assert(drain(cur).1 =~= Seq::<TraceEvent>::empty());
                            assert(emitted + (drain(cur).1 + run(self@, rem).1)
                                =~= emitted + run(self@, rem).1);
                        }
                    } else {
                        if processed >= data.len() {
                            break;
                        }
                        proof {
                            assert(rem.len() > 0);
                            assert(rem[0] == data@[processed as int]);
                            assert(rem.skip(1) =~= data@.skip(processed as int + 1));
                        }
                        let b = data[processed];
                        processed += 1;
                        if self.file_name_len <= N {
                            let inf = self.localfile_info.take();
                            match inf {
                                Some(mut i) => {
                                    i.push_name_byte(b);
                                    self.localfile_info = Some(i);
                                },
                                None => {
                                    vstd::pervasive::unreached::<()>();
                                },
                            }
                        }
                        self.file_name_index += 1;
                        proof {
                            assert(self@ =~= eat(cur, b).0);
                            assert(eat(cur, b).1 =~= Seq::<TraceEvent>::empty());
                            assert(emitted + (eat(cur, b).1
                                + run(self@, rem.skip(1)).1)
                                =~= emitted + run(self@, rem.skip(1)).1);
                        }
                    }
                },
                ParserState::RecvLocalFileExtraField => {
                    if self.extra_field_index >= self.extra_field_len {
                        self.state = ParserState::RecvLocalFileData;
                        if self.file_name_len <= N {
                            let cont;
                            match self.localfile_info.as_ref() {
                                Some(i) => {
                                    let ev = ParserEvent::LocalFileHeader(
                                        self.localfile_index, i);
                                    cont = sink.on_event(&ev);
                                    proof {
                                        assert(can_drain(cur));
                                        assert(self@ =~= drain(cur).0);
                                        assert(abs_events(ev) =~= drain(cur).1);
                                        let em0 = emitted;
                                        assert(no_cancel(drain(cur).1));
                                        lemma_no_cancel_append(em0, drain(cur).1);
                                        emitted = emitted + drain(cur).1;
                                        assert(em0 + (drain(cur).1
                                            + run(self@, rem).1)
                                            =~= emitted + run(self@, rem).1);
                                    }
                                },
                                None => {
                                    cont = vstd::pervasive::unreached();
                                },
                            }
                            if !cont {
                                let cev = ParserEvent::UserCancel(
                                    -1, processed);
                                let _ = sink.on_event(&cev);
                                proof {
                                    let em0 = emitted;
                                    emitted = emitted + abs_events(cev);
                                    assert((log0 + em0) + abs_events(cev)
                                        =~= log0 + emitted);
                                    assert(sink.log() == log0 + emitted);
                                    assert(emitted[emitted.len() - 1]
                                        == (TraceEvent::Cancel {
                                            consumed: processed as nat }));
                                    assert(emitted.take(emitted.len() - 1) =~= em0);
                                }
                                return processed;
                            }
                        } else {
                            proof {
                                assert(can_drain(cur));
                                assert(self@ =~= drain(cur).0);
                                assert(drain(cur).1 =~= Seq::<TraceEvent>::empty());
                                assert(emitted + (drain(cur).1 + run(self@, rem).1)
                                    =~= emitted + run(self@, rem).1);
                            }
                        }
                    } else {
                        if processed >= data.len() {
                            break;
                        }
                        proof {
                            assert(rem.len() > 0);
                            assert(rem[0] == data@[processed as int]);
                            assert(rem.skip(1) =~= data@.skip(processed as int + 1));
                        }
                        let b = data[processed];
                        processed += 1;
                        self.extra_field_index += 1;
                        proof {
                            assert(self@ =~= eat(cur, b).0);
                            assert(eat(cur, b).1 =~= Seq::<TraceEvent>::empty());
                            assert(emitted + (eat(cur, b).1
                                + run(self@, rem.skip(1)).1)
                                =~= emitted + run(self@, rem.skip(1)).1);
                        }
                    }
                },
                ParserState::RecvLocalFileData => {
                    if self.file_data_index >= self.file_data_len {
                        let ev = ParserEvent::LocalFileEnd(self.localfile_index);
                        let cont = sink.on_event(&ev);
                        if self.localfile_index < i32::MAX {
                            self.localfile_index = self.localfile_index + 1;
                        }
                        self.state = ParserState::RecvHeader(
                            HeaderType::HeaderSignature, 4);
                        proof {
                            assert(can_drain(cur));
                            assert(self@ =~= drain(cur).0);
                            assert(abs_events(ev) =~= drain(cur).1);
                            let em0 = emitted;
                            assert(no_cancel(drain(cur).1));
                            lemma_no_cancel_append(em0, drain(cur).1);
                            emitted = emitted + drain(cur).1;
                            assert(em0 + (drain(cur).1 + run(self@, rem).1)
                                =~= emitted + run(self@, rem).1);
                        }
                        if !cont {
                            let cev = ParserEvent::UserCancel(-1, processed);
                            let _ = sink.on_event(&cev);
                            proof {
                                let em0 = emitted;
                                emitted = emitted + abs_events(cev);
                                assert((log0 + em0) + abs_events(cev)
                                    =~= log0 + emitted);
                                assert(sink.log() == log0 + emitted);
                                assert(emitted[emitted.len() - 1]
                                    == (TraceEvent::Cancel {
                                        consumed: processed as nat }));
                                assert(emitted.take(emitted.len() - 1) =~= em0);
                            }
                            return processed;
                        }
                    } else {
                        if processed >= data.len() {
                            break;
                        }
                        let avail = data.len() - processed;
                        let want = self.file_data_len - self.file_data_index;
                        let k = if want < avail { want } else { avail };
                        let chunk = vstd::slice::slice_subrange(
                            data, processed, processed + k);
                        let ev = ParserEvent::LocalFileData {
                            file_index: self.localfile_index,
                            offset: self.file_data_index,
                            data: chunk,
                        };
                        let cont = sink.on_event(&ev);
                        self.file_data_index += k;
                        processed += k;
                        proof {
                            crate::machine::lemma_run_data_chunk(
                                cur, rem, k as int);
                            let m2 = Machine {
                                data_idx: (cur.data_idx + k) as nat, ..cur };
                            let evs = Seq::new(k as nat, |j: int| TraceEvent::Data {
                                idx: cur.lf_idx,
                                off: cur.data_idx + j,
                                byte: rem[j],
                            });
                            assert(self@ =~= m2);
                            assert(abs_events(ev) =~= evs);
                            assert(rem.skip(k as int)
                                =~= data@.skip(processed as int));
                            let em0 = emitted;
                            assert(no_cancel(evs)) by {
                                assert(forall |j: int| 0 <= j < evs.len()
                                    ==> (#[trigger] evs[j]) == (TraceEvent::Data {
                                        idx: cur.lf_idx,
                                        off: cur.data_idx + j,
                                        byte: rem[j],
                                    }));
                            }
                            lemma_no_cancel_append(em0, evs);
                            emitted = emitted + evs;
                            assert(em0 + (evs + run(m2, rem.skip(k as int)).1)
                                =~= emitted + run(m2, rem.skip(k as int)).1);
                        }
                        if !cont {
                            let cev = ParserEvent::UserCancel(-1, processed);
                            let _ = sink.on_event(&cev);
                            proof {
                                let em0 = emitted;
                                emitted = emitted + abs_events(cev);
                                assert((log0 + em0) + abs_events(cev)
                                    =~= log0 + emitted);
                                assert(sink.log() == log0 + emitted);
                                assert(emitted[emitted.len() - 1]
                                    == (TraceEvent::Cancel {
                                        consumed: processed as nat }));
                                assert(emitted.take(emitted.len() - 1) =~= em0);
                            }
                            return processed;
                        }
                    }
                },
                ParserState::RecvCentralFileHeader => {
                    if self.central_file_header_index >= self.central_file_header_len {
                        if self.centralfile_index < i32::MAX {
                            self.centralfile_index = self.centralfile_index + 1;
                        }
                        self.central_file_header_index = 0;
                        self.central_file_header_len = 0;
                        self.state = ParserState::RecvHeader(
                            HeaderType::HeaderSignature, 4);
                        proof {
                            assert(can_drain(cur));
                            assert(self@ =~= drain(cur).0);
                            assert(drain(cur).1 =~= Seq::<TraceEvent>::empty());
                            assert(emitted + (drain(cur).1 + run(self@, rem).1)
                                =~= emitted + run(self@, rem).1);
                        }
                    } else {
                        if processed >= data.len() {
                            break;
                        }
                        proof {
                            assert(rem.len() > 0);
                            assert(rem[0] == data@[processed as int]);
                            assert(rem.skip(1) =~= data@.skip(processed as int + 1));
                        }
                        let b = data[processed];
                        processed += 1;
                        self.central_file_header_index += 1;
                        proof {
                            assert(self@ =~= eat(cur, b).0);
                            assert(eat(cur, b).1 =~= Seq::<TraceEvent>::empty());
                            assert(emitted + (eat(cur, b).1
                                + run(self@, rem.skip(1)).1)
                                =~= emitted + run(self@, rem.skip(1)).1);
                        }
                    }
                },
                ParserState::RecvCentralDirEnd => {
                    if self.central_dir_end_index >= self.central_dir_end_len {
                        self.central_dir_end_index = 0;
                        self.central_dir_end_len = 0;
                        self.state = ParserState::RecvHeader(
                            HeaderType::HeaderSignature, 4);
                        proof {
                            assert(can_drain(cur));
                            assert(self@ =~= drain(cur).0);
                            assert(drain(cur).1 =~= Seq::<TraceEvent>::empty());
                            assert(emitted + (drain(cur).1 + run(self@, rem).1)
                                =~= emitted + run(self@, rem).1);
                        }
                    } else {
                        if processed >= data.len() {
                            break;
                        }
                        proof {
                            assert(rem.len() > 0);
                            assert(rem[0] == data@[processed as int]);
                            assert(rem.skip(1) =~= data@.skip(processed as int + 1));
                        }
                        let b = data[processed];
                        processed += 1;
                        self.zip_file_comment.push(b);
                        self.central_dir_end_index += 1;
                        proof {
                            assert(self@ =~= eat(cur, b).0);
                            assert(eat(cur, b).1 =~= Seq::<TraceEvent>::empty());
                            assert(emitted + (eat(cur, b).1
                                + run(self@, rem.skip(1)).1)
                                =~= emitted + run(self@, rem.skip(1)).1);
                        }
                    }
                },
            }
        }

        proof {
            assert(data@.skip(processed as int) =~= Seq::<u8>::empty());
            assert(!can_drain(self@));
            assert(run(self@, data@.skip(processed as int)).1
                =~= Seq::<TraceEvent>::empty());
            assert(emitted + Seq::<TraceEvent>::empty() =~= emitted);
        }
        processed
    }
}

impl<const N: usize> Default for PassiveParser<N> {
    /// Same as [`PassiveParser::new`].
    fn default() -> (r: Self)
        ensures
            r.wf(),
            r@ == init(N as nat),
    {
        PassiveParser::new()
    }
}

/// One event, recorded with owned data.
#[derive(Debug)]
pub enum RecordedEvent<const N: usize> {
    Header(i32, LocalFileInfo<N>),
    Data { file_index: i32, offset: usize, data: Vec<u8> },
    End(i32),
    Fault(i32, ParsingError),
    Cancel(i32, usize),
}

/// The abstract events one recorded event stands for.
pub open spec fn abs_of_rec<const N: usize>(r: RecordedEvent<N>) -> Seq<TraceEvent> {
    match r {
        RecordedEvent::Header(i, info) => seq![TraceEvent::Header {
            idx: i, info: info@ }],
        RecordedEvent::Data { file_index, offset, data } => Seq::new(
            data@.len(),
            |j: int| TraceEvent::Data {
                idx: file_index, off: offset + j, byte: data@[j] },
        ),
        RecordedEvent::End(i) => seq![TraceEvent::End { idx: i }],
        RecordedEvent::Fault(i, err) => seq![TraceEvent::Fault {
            idx: i, err: err }],
        RecordedEvent::Cancel(_, n) => seq![TraceEvent::Cancel {
            consumed: n as nat }],
    }
}

/// The abstract log of a sequence of recorded events.
pub open spec fn abs_log<const N: usize>(s: Seq<RecordedEvent<N>>) -> Seq<TraceEvent>
    decreases s.len(),
{
    if s.len() == 0 {
        Seq::empty()
    } else {
        abs_log(s.drop_last()) + abs_of_rec(s.last())
    }
}

/// A sink that records every event it sees, and optionally cancels once a
/// number of payload bytes has been delivered.
#[derive(Debug)]
pub struct EventRecorder<const N: usize> {
    /// Everything seen so far, in order.
    pub events: Vec<RecordedEvent<N>>,
    /// Total payload bytes delivered so far.
    pub data_bytes_seen: usize,
    /// Cancel once `data_bytes_seen` reaches this bound.
    pub stop_after_data_bytes: Option<usize>,
}

impl<const N: usize> EventRecorder<N> {
    /// A recorder that never cancels.
    pub fn new() -> (r: Self)
        ensures
            r.log() == Seq::<TraceEvent>::empty(),
            r.accepts_all(),
            r.events@.len() == 0,
    {
        EventRecorder { events: Vec::new(), data_bytes_seen: 0, stop_after_data_bytes: None }
    }

    /// A recorder that cancels once `limit` payload bytes have arrived.
    pub fn stopping_after(limit: usize) -> (r: Self)
        ensures
            r.log() == Seq::<TraceEvent>::empty(),
            r.events@.len() == 0,
    {
        EventRecorder {
            events: Vec::new(),
            data_bytes_seen: 0,
            stop_after_data_bytes: Some(limit),
        }
    }
}

impl<const N: usize> EventSink<N> for EventRecorder<N> {
    open spec fn log(&self) -> Seq<TraceEvent> {
        abs_log(self.events@)
    }

    open spec fn accepts_all(&self) -> bool {
        self.stop_after_data_bytes is None
    }

    fn on_event(&mut self, e: &ParserEvent<'_, '_, N>) -> (r: bool) {
        let ghost evs0 = self.events@;
        match *e {
            ParserEvent::LocalFileHeader(i, info) => {
                self.events.push(RecordedEvent::Header(i, info.duplicate()));
            },
            ParserEvent::LocalFileData { file_index, offset, data } => {
                self.events.push(RecordedEvent::Data {
                    file_index,
                    offset,
                    data: vstd::slice::slice_to_vec(data),
                });
                if data.len() > usize::MAX - self.data_bytes_seen {
                    self.data_bytes_seen = usize::MAX;
                } else {
                    self.data_bytes_seen = self.data_bytes_seen + data.len();
                }
            },
            ParserEvent::LocalFileEnd(i) => {
                self.events.push(RecordedEvent::End(i));
            },
            ParserEvent::ParsingError(i, err) => {
                self.events.push(RecordedEvent::Fault(i, err));
            },
            ParserEvent::UserCancel(i, n) => {
                self.events.push(RecordedEvent::Cancel(i, n));
            },
        }
        proof {
            assert(self.events@.drop_last() =~= evs0);
            assert(abs_of_rec(self.events@.last()) =~= abs_events(*e));
        }
        match self.stop_after_data_bytes {
            None => true,
            Some(limit) => self.data_bytes_seen < limit,
        }
    }
}

} // verus!
