//! The abstract push-parsing machine: a byte-at-a-time state machine over
//! the ZIP record grammar, together with the event trace it emits.
//!
//! [`PassiveParser::feed_data`](crate::passive::PassiveParser::feed_data)
//! is proved to behave exactly like [`run`] on the bytes it consumes, with
//! payload slices accounted for byte by byte.  Laws about the parser —
//! chunking independence, event shapes per entry — are proved about `run`
//! and carry over through that contract.

use vstd::prelude::*;
use crate::errors::{ParsingError, spec_method_of};
use crate::codec::{
    le32, spec_signature, spec_local_header, spec_central_header,
    spec_central_dir_end, Signature, LOCAL_FILE_HEADER_LEN,
    CENTRAL_FILE_HEADER_LEN, CENTRAL_DIR_END_LEN,
};
use crate::entry::InfoModel;

verus! {

/// Which fixed-size prefix the parser is accumulating.
#[derive(Debug, Clone, Copy, PartialEq, Eq, Structural)]
pub enum HeaderType {
    HeaderSignature,
    LocalFileHeader,
    CentralFileHeader,
    CentralDirEnd,
}

/// The abstract control state.
pub ghost enum MState {
    RecvHeader(HeaderType, nat),
    RecvLocalFileName,
    RecvLocalFileExtraField,
    RecvLocalFileData,
    RecvCentralFileHeader,
    RecvCentralDirEnd,
}

/// One semantic event of the push parser.  Payload delivery is accounted
/// for one byte at a time, so the trace of an input does not depend on how
/// the input was chunked.
pub ghost enum TraceEvent {
    /// A complete local header, name and extra field included.
    Header { idx: i32, info: InfoModel },
    /// One payload byte of entry `idx`, `off` bytes into its payload.
    Data { idx: i32, off: int, byte: u8 },
    /// All payload bytes of entry `idx` have been delivered.
    End { idx: i32 },
    /// A parsing error, delivered as an event.
    Fault { idx: i32, err: ParsingError },
    /// The sink asked to stop after `consumed` bytes of the current call.
    Cancel { consumed: nat },
}

/// The abstract machine: control state, prefix accumulator, the entry under
/// construction, and the progress counters of every variable-length run.
#[verifier::ext_equal]
pub ghost struct Machine {
    /// The compile-time name-length bound the parser was built with.
    pub cap: nat,
    pub state: MState,
    /// The buffered record prefix.
    pub buf: Seq<u8>,
    /// The entry currently under construction.
    pub info: Option<InfoModel>,
    /// Index of the entry the parser is inside.
    pub lf_idx: i32,
    /// How many central records have completed.
    pub cf_idx: i32,
    pub name_idx: nat,
    pub name_len: nat,
    pub extra_idx: nat,
    pub extra_len: nat,
    pub data_idx: nat,
    pub data_len: nat,
    /// Progress through a central record's variable-length tail.
    pub ct_idx: nat,
    pub ct_len: nat,
    /// Progress through the terminator's comment.
    pub ce_idx: nat,
    pub ce_len: nat,
    /// The archive comment bytes seen so far.
    pub comment: Seq<u8>,
}

/// The machine a fresh parser with name bound `cap` starts in.
pub open spec fn init(cap: nat) -> Machine {
    Machine {
        cap,
        state: MState::RecvHeader(HeaderType::HeaderSignature, 4),
        buf: Seq::empty(),
        info: None,
        lf_idx: 0,
        cf_idx: 0,
        name_idx: 0,
        name_len: 0,
        extra_idx: 0,
        extra_len: 0,
        data_idx: 0,
        data_len: 0,
        ct_idx: 0,
        ct_len: 0,
        ce_idx: 0,
        ce_len: 0,
        comment: Seq::empty(),
    }
}

/// An index that counts entries without ever wrapping around.
pub open spec fn bump(i: i32) -> i32 {
    if i == i32::MAX { i } else { (i + 1) as i32 }
}

/// A zero-consumption transition applies: some variable-length run is
/// complete and the machine can move on without input.
pub open spec fn can_drain(m: Machine) -> bool {
    match m.state {
        MState::RecvLocalFileName => m.name_idx >= m.name_len,
        MState::RecvLocalFileExtraField => m.extra_idx >= m.extra_len,
        MState::RecvLocalFileData => m.data_idx >= m.data_len,
        MState::RecvCentralFileHeader => m.ct_idx >= m.ct_len,
        MState::RecvCentralDirEnd => m.ce_idx >= m.ce_len,
        MState::RecvHeader(_, _) => false,
    }
}

/// How far the machine still is from needing input; drains decrease it.
pub open spec fn rank(m: Machine) -> nat {
    match m.state {
        MState::RecvLocalFileName => 3,
        MState::RecvLocalFileExtraField => 2,
        MState::RecvLocalFileData => 1,
        MState::RecvCentralFileHeader => 1,
        MState::RecvCentralDirEnd => 1,
        MState::RecvHeader(_, _) => 0,
    }
}

/// The one zero-consumption transition, with the events it emits.  Only
/// meaningful when `can_drain(m)`.
pub open spec fn drain(m: Machine) -> (Machine, Seq<TraceEvent>) {
    match m.state {
        MState::RecvLocalFileName => (
            Machine { state: MState::RecvLocalFileExtraField, ..m },
            Seq::empty(),
        ),
        MState::RecvLocalFileExtraField => {
            let evs = if m.name_len <= m.cap {
                seq![TraceEvent::Header { idx: m.lf_idx, info: m.info.unwrap() }]
            } else {
                Seq::empty()
            };
            (Machine { state: MState::RecvLocalFileData, ..m }, evs)
        },
        MState::RecvLocalFileData => (
            Machine {
                state: MState::RecvHeader(HeaderType::HeaderSignature, 4),
                lf_idx: bump(m.lf_idx),
                ..m
            },
            seq![TraceEvent::End { idx: m.lf_idx }],
        ),
        MState::RecvCentralFileHeader => (
            Machine {
                state: MState::RecvHeader(HeaderType::HeaderSignature, 4),
                cf_idx: bump(m.cf_idx),
                ct_idx: 0,
                ct_len: 0,
                ..m
            },
            Seq::empty(),
        ),
        MState::RecvCentralDirEnd => (
            Machine {
                state: MState::RecvHeader(HeaderType::HeaderSignature, 4),
                ce_idx: 0,
                ce_len: 0,
                ..m
            },
            Seq::empty(),
        ),
        MState::RecvHeader(_, _) => (m, Seq::empty()),
    }
}

/// What completing a fixed-size prefix does.  `m.buf` holds the whole
/// prefix of kind `t`.
pub open spec fn dispatch(m: Machine, t: HeaderType) -> (Machine, Seq<TraceEvent>) {
    match t {
        HeaderType::HeaderSignature => {
            match spec_signature(le32(m.buf, 0)) {
                None => (
                    Machine { buf: Seq::empty(), ..m },
                    seq![TraceEvent::Fault {
                        idx: m.lf_idx,
                        err: ParsingError::InvalidSignature,
                    }],
                ),
                Some(Signature::LocalFileHeader) => (
                    Machine {
                        state: MState::RecvHeader(
                            HeaderType::LocalFileHeader,
                            LOCAL_FILE_HEADER_LEN as nat,
                        ),
                        ..m
                    },
                    Seq::empty(),
                ),
                Some(Signature::CentralFileHeader) => (
                    Machine {
                        state: MState::RecvHeader(
                            HeaderType::CentralFileHeader,
                            CENTRAL_FILE_HEADER_LEN as nat,
                        ),
                        ..m
                    },
                    Seq::empty(),
                ),
                Some(Signature::CentralDirEnd) => (
                    Machine {
                        state: MState::RecvHeader(
                            HeaderType::CentralDirEnd,
                            CENTRAL_DIR_END_LEN as nat,
                        ),
                        ..m
                    },
                    Seq::empty(),
                ),
            }
        },
        HeaderType::LocalFileHeader => {
            let h = spec_local_header(m.buf);
            let evs = if h.file_name_length > m.cap {
                seq![TraceEvent::Fault {
                    idx: m.lf_idx,
                    err: ParsingError::LocalFileNameTooLong(
                        m.lf_idx, h.file_name_length as usize),
                }]
            } else {
                Seq::empty()
            };
            (
                Machine {
                    state: MState::RecvLocalFileName,
                    buf: Seq::empty(),
                    info: Some(InfoModel {
                        name: Seq::empty(),
                        extra_len: h.extra_field_length as nat,
                        data_offset: 0,
                        method: spec_method_of(h.compression_method),
                        compressed_size: h.compressed_size as u64,
                        uncompressed_size: h.uncompressed_size as u64,
                    }),
                    name_idx: 0,
                    name_len: h.file_name_length as nat,
                    extra_idx: 0,
                    extra_len: h.extra_field_length as nat,
                    data_idx: 0,
                    data_len: h.compressed_size as nat,
                    ..m
                },
                evs,
            )
        },
        HeaderType::CentralFileHeader => {
            let h = spec_central_header(m.buf);
            (
                Machine {
                    state: MState::RecvCentralFileHeader,
                    buf: Seq::empty(),
                    ct_idx: 0,
                    ct_len: (h.file_name_length + h.extra_field_length
                        + h.file_comment_length) as nat,
                    ..m
                },
                Seq::empty(),
            )
        },
        HeaderType::CentralDirEnd => {
            let h = spec_central_dir_end(m.buf);
            (
                Machine {
                    state: MState::RecvCentralDirEnd,
                    buf: Seq::empty(),
                    ce_idx: 0,
                    ce_len: h.zip_file_comment_length as nat,
                    ..m
                },
                Seq::empty(),
            )
        },
    }
}

/// Consuming one byte.  Only meaningful when `!can_drain(m)`.
pub open spec fn eat(m: Machine, b: u8) -> (Machine, Seq<TraceEvent>) {
    match m.state {
        MState::RecvHeader(t, need) => {
            let buf2 = m.buf.push(b);
            if buf2.len() < need {
                (Machine { buf: buf2, ..m }, Seq::empty())
            } else {
                dispatch(Machine { buf: buf2, ..m }, t)
            }
        },
        MState::RecvLocalFileName => {
            let info2 = if m.name_len <= m.cap {
                Some(InfoModel { name: m.info.unwrap().name.push(b), ..m.info.unwrap() })
            } else {
                m.info
            };
            (Machine { info: info2, name_idx: m.name_idx + 1, ..m }, Seq::empty())
        },
        MState::RecvLocalFileExtraField => (
            Machine { extra_idx: m.extra_idx + 1, ..m },
            Seq::empty(),
        ),
        MState::RecvLocalFileData => (
            Machine { data_idx: m.data_idx + 1, ..m },
            seq![TraceEvent::Data { idx: m.lf_idx, off: m.data_idx as int, byte: b }],
        ),
        MState::RecvCentralFileHeader => (
            Machine { ct_idx: m.ct_idx + 1, ..m },
            Seq::empty(),
        ),
        MState::RecvCentralDirEnd => (
            Machine { ce_idx: m.ce_idx + 1, comment: m.comment.push(b), ..m },
            Seq::empty(),
        ),
    }
}

/// Running the machine over an input: zero-consumption transitions are
/// taken eagerly, then one byte is consumed at a time.  The result is the
/// machine after the whole input and the concatenated event trace.
pub open spec fn run(m: Machine, input: Seq<u8>) -> (Machine, Seq<TraceEvent>)
    decreases input.len(), rank(m),
{
    if can_drain(m) {
        let (m1, e1) = drain(m);
        let (m2, e2) = run(m1, input);
        (m2, e1 + e2)
    } else if input.len() == 0 {
        (m, Seq::empty())
    } else {
        let (m1, e1) = eat(m, input[0]);
        let (m2, e2) = run(m1, input.skip(1));
        (m2, e1 + e2)
    }
}

/// After a run the machine always waits for input.
pub proof fn lemma_run_hungry(m: Machine, input: Seq<u8>)
    ensures
        !can_drain(run(m, input).0),
    decreases input.len(), rank(m),
{
    if can_drain(m) {
        lemma_run_hungry(drain(m).0, input);
    } else if input.len() == 0 {
    } else {
        lemma_run_hungry(eat(m, input[0]).0, input.skip(1));
    }
}

/// Feeding `a` and then `b` is the same as feeding `a + b`: the machine
/// does not care where an input was cut.
pub proof fn lemma_run_app(m: Machine, a: Seq<u8>, b: Seq<u8>)
    ensures
        run(m, a + b).0 == run(run(m, a).0, b).0,
        run(m, a + b).1 == run(m, a).1 + run(run(m, a).0, b).1,
    decreases a.len(), rank(m),
{
    if can_drain(m) {
        let (m1, e1) = drain(m);
        lemma_run_app(m1, a, b);
        assert(e1 + (run(m1, a).1 + run(run(m1, a).0, b).1)
            == (e1 + run(m1, a).1) + run(run(m1, a).0, b).1);
    } else if a.len() == 0 {
        assert(a + b =~= b);
        assert(run(m, a).0 == m);
        assert(run(m, a).1 == Seq::<TraceEvent>::empty());
        assert(Seq::<TraceEvent>::empty() + run(m, b).1 =~= run(m, b).1);
    } else {
        let (m1, e1) = eat(m, a[0]);
        assert((a + b)[0] == a[0]);
        assert((a + b).skip(1) =~= a.skip(1) + b);
        lemma_run_app(m1, a.skip(1), b);
        assert(e1 + (run(m1, a.skip(1)).1 + run(run(m1, a.skip(1)).0, b).1)
            == (e1 + run(m1, a.skip(1)).1) + run(run(m1, a.skip(1)).0, b).1);
    }
}

/// Running an input one byte per call.
pub open spec fn run_bytewise(m: Machine, input: Seq<u8>) -> (Machine, Seq<TraceEvent>)
    decreases input.len(),
{
    if input.len() == 0 {
        (m, Seq::empty())
    } else {
        let (m1, e1) = run(m, seq![input[0]]);
        let (m2, e2) = run_bytewise(m1, input.skip(1));
        (m2, e1 + e2)
    }
}

/// Consuming `k` payload bytes in the data state: `k` single-byte data
/// events in payload order, the progress counter advanced by `k`, and the
/// rest of the run unchanged.
pub proof fn lemma_run_data_chunk(m: Machine, input: Seq<u8>, k: int)
    requires
        m.state == MState::RecvLocalFileData,
        0 < k <= input.len(),
        m.data_idx + k <= m.data_len,
    ensures
        ({
            let m2 = Machine { data_idx: (m.data_idx + k) as nat, ..m };
            let evs = Seq::new(k as nat, |j: int| TraceEvent::Data {
                idx: m.lf_idx, off: m.data_idx + j, byte: input[j] });
            run(m, input).0 == run(m2, input.skip(k)).0
                && run(m, input).1 == evs + run(m2, input.skip(k)).1
        }),
    decreases k,
{
    let m2 = Machine { data_idx: (m.data_idx + k) as nat, ..m };
    let evs = Seq::new(k as nat, |j: int| TraceEvent::Data {
        idx: m.lf_idx, off: m.data_idx + j, byte: input[j] });
    assert(!can_drain(m));
    let (m1, e1) = eat(m, input[0]);
    assert(m1 == Machine { data_idx: (m.data_idx + 1) as nat, ..m });
    if k == 1 {
        assert(m1 == m2);
        assert(evs =~= e1);
        assert(e1 + run(m1, input.skip(1)).1 =~= evs + run(m2, input.skip(1)).1);
    } else {
        let rest = input.skip(1);
        lemma_run_data_chunk(m1, rest, k - 1);
        let evs1 = Seq::new((k - 1) as nat, |j: int| TraceEvent::Data {
            idx: m1.lf_idx, off: m1.data_idx + j, byte: rest[j] });
        assert(rest.skip(k - 1) =~= input.skip(k));
        assert(evs =~= e1 + evs1);
        assert(e1 + (evs1 + run(m2, input.skip(k)).1)
            =~= (e1 + evs1) + run(m2, input.skip(k)).1);
    }
}

/// Feeding an archive one byte at a time gives the same final machine and
/// the same event trace as feeding it in one piece.
pub proof fn lemma_bytewise_eq_oneshot(m: Machine, input: Seq<u8>)
    requires
        !can_drain(m),
    ensures
        run_bytewise(m, input) == run(m, input),
    decreases input.len(),
{
    if input.len() == 0 {
    } else {
        let first = seq![input[0]];
        let rest = input.skip(1);
        assert(first + rest =~= input);
        lemma_run_app(m, first, rest);
        lemma_run_hungry(m, first);
        lemma_bytewise_eq_oneshot(run(m, first).0, rest);
    }
}

} // verus!
