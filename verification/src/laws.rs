//! Laws of the push parser, proved about the abstract machine
//! [`crate::machine::run`] that [`crate::passive::PassiveParser::feed_data`]
//! is contracted to follow.

use vstd::prelude::*;
use crate::codec::{
    le32, spec_local_header, spec_central_header, spec_central_dir_end,
    LOCAL_FILE_SIG, CENTRAL_FILE_SIG, CENTRAL_DIR_END_SIG,
    LOCAL_FILE_HEADER_LEN, CENTRAL_FILE_HEADER_LEN, CENTRAL_DIR_END_LEN,
};
use crate::errors::{ParsingError, spec_method_of};
use crate::entry::InfoModel;
use crate::machine::{
    Machine, MState, HeaderType, TraceEvent, run, bump,
};

verus! {

/// The sum of a sequence of consumption counts.
pub open spec fn sum_of(s: Seq<int>) -> int
    decreases s.len(),
{
    if s.len() == 0 {
        0
    } else {
        sum_of(s.drop_last()) + s.last()
    }
}

/// When a sink cancels, `feed_data` reports how many bytes it consumed and
/// the caller resumes with the unconsumed tail.  Over such a series of
/// calls — every call consumes at most what remained of the archive, and
/// the final call consumes exactly what remained — the reported counts sum
/// to the total archive length.
pub proof fn lemma_resumed_consumption_total(counts: Seq<int>, total: int)
    requires
        counts.len() > 0,
        forall |i: int| 0 <= i < counts.len() ==> 0 <= #[trigger] counts[i]
            && counts[i] <= total - sum_of(counts.take(i)),
        counts.last() == total - sum_of(counts.take(counts.len() - 1)),
    ensures
        sum_of(counts) == total,
{
    assert(counts.take(counts.len() - 1) =~= counts.drop_last());
}

/// One well-formed local record: the fixed header, then the name, extra
/// field and payload, each with the length the header declares.
pub open spec fn is_local_record(r: Seq<u8>) -> bool {
    let h = spec_local_header(r);
    &&& r.len() >= LOCAL_FILE_HEADER_LEN
    &&& le32(r, 0) == LOCAL_FILE_SIG
    &&& r.len() == LOCAL_FILE_HEADER_LEN + h.file_name_length
        + h.extra_field_length + h.compressed_size
}

/// The record's name bytes.
pub open spec fn rec_name(r: Seq<u8>) -> Seq<u8> {
    let h = spec_local_header(r);
    r.subrange(LOCAL_FILE_HEADER_LEN as int,
        LOCAL_FILE_HEADER_LEN + h.file_name_length)
}

/// The record's payload bytes.
pub open spec fn rec_payload(r: Seq<u8>) -> Seq<u8> {
    let h = spec_local_header(r);
    r.subrange(LOCAL_FILE_HEADER_LEN + h.file_name_length
        + h.extra_field_length, r.len() as int)
}

/// The metadata the machine builds from one local record: a too-long name
/// stays empty.
pub open spec fn rec_info(r: Seq<u8>, cap: nat) -> InfoModel {
    let h = spec_local_header(r);
    InfoModel {
        name: if h.file_name_length <= cap { rec_name(r) } else { Seq::empty() },
        extra_len: h.extra_field_length as nat,
        data_offset: 0,
        method: spec_method_of(h.compression_method),
        compressed_size: h.compressed_size as u64,
        uncompressed_size: h.uncompressed_size as u64,
    }
}

/// The payload of entry `i`, delivered one byte at a time in offset order.
pub open spec fn data_events(i: i32, payload: Seq<u8>) -> Seq<TraceEvent> {
    Seq::new(payload.len(), |j: int| TraceEvent::Data {
        idx: i, off: j, byte: payload[j] })
}

/// The event trace one local record produces for entry `i`: when the name
/// fits, exactly one header event; when it does not, a too-long fault and
/// no header event.  Either way every payload byte follows in offset
/// order, and exactly one end event closes the entry.
pub open spec fn rec_trace(r: Seq<u8>, cap: nat, i: i32) -> Seq<TraceEvent> {
    let h = spec_local_header(r);
    let pre: Seq<TraceEvent> = if h.file_name_length <= cap {
        seq![TraceEvent::Header { idx: i, info: rec_info(r, cap) }]
    } else {
        seq![TraceEvent::Fault {
            idx: i,
            err: ParsingError::LocalFileNameTooLong(i, h.file_name_length as usize),
        }]
    };
    pre + data_events(i, rec_payload(r)) + seq![TraceEvent::End { idx: i }]
}

/// A machine that waits for the next record signature.
pub open spec fn between_records(m: Machine) -> bool {
    &&& m.state == MState::RecvHeader(HeaderType::HeaderSignature, 4)
    &&& m.buf.len() == 0
}

/// The machine midway through one local record, after `p` of its bytes.
pub open spec fn rec_mid(m: Machine, r: Seq<u8>, p: int) -> Machine {
    let h = spec_local_header(r);
    let nl = h.file_name_length as int;
    let el = h.extra_field_length as int;
    let dl = h.compressed_size as int;
    let ok = h.file_name_length <= m.cap;
    if p < 4 {
        Machine {
            state: MState::RecvHeader(HeaderType::HeaderSignature, 4),
            buf: r.take(p),
            ..m
        }
    } else if p < LOCAL_FILE_HEADER_LEN {
        Machine {
            state: MState::RecvHeader(
                HeaderType::LocalFileHeader, LOCAL_FILE_HEADER_LEN as nat),
            buf: r.take(p),
            ..m
        }
    } else {
        let q = p - LOCAL_FILE_HEADER_LEN;
        let base = Machine {
            buf: Seq::empty(),
            name_len: nl as nat,
            extra_len: el as nat,
            data_len: dl as nat,
            ..m
        };
        if q < nl {
            Machine {
                state: MState::RecvLocalFileName,
                info: Some(InfoModel {
                    name: if ok { r.subrange(
                        LOCAL_FILE_HEADER_LEN as int, p) } else { Seq::empty() },
                    ..rec_info(r, m.cap)
                }),
                name_idx: q as nat,
                extra_idx: 0,
                data_idx: 0,
                ..base
            }
        } else if q < nl + el {
            Machine {
                state: MState::RecvLocalFileExtraField,
                info: Some(rec_info(r, m.cap)),
                name_idx: nl as nat,
                extra_idx: (q - nl) as nat,
                data_idx: 0,
                ..base
            }
        } else if q < nl + el + dl {
            Machine {
                state: MState::RecvLocalFileData,
                info: Some(rec_info(r, m.cap)),
                name_idx: nl as nat,
                extra_idx: el as nat,
                data_idx: (q - nl - el) as nat,
                ..base
            }
        } else {
            Machine {
                state: MState::RecvHeader(HeaderType::HeaderSignature, 4),
                info: Some(rec_info(r, m.cap)),
                lf_idx: bump(m.lf_idx),
                name_idx: nl as nat,
                extra_idx: el as nat,
                data_idx: dl as nat,
                ..base
            }
        }
    }
}

/// The trace emitted midway through one local record, after `p` bytes.
pub open spec fn rec_trace_mid(r: Seq<u8>, cap: nat, i: i32, p: int) -> Seq<TraceEvent> {
    let h = spec_local_header(r);
    let nl = h.file_name_length as int;
    let el = h.extra_field_length as int;
    let ok = h.file_name_length <= cap;
    let b3 = LOCAL_FILE_HEADER_LEN + nl + el;
    let fault: Seq<TraceEvent> = if !ok && p >= LOCAL_FILE_HEADER_LEN {
        seq![TraceEvent::Fault {
            idx: i,
            err: ParsingError::LocalFileNameTooLong(i, h.file_name_length as usize),
        }]
    } else {
        Seq::empty()
    };
    let header: Seq<TraceEvent> = if ok && p >= b3 {
        seq![TraceEvent::Header { idx: i, info: rec_info(r, cap) }]
    } else {
        Seq::empty()
    };
    let datas: Seq<TraceEvent> = if p <= b3 {
        Seq::empty()
    } else {
        data_events(i, rec_payload(r).take(p - b3))
    };
    let end: Seq<TraceEvent> = if p >= r.len() {
        seq![TraceEvent::End { idx: i }]
    } else {
        Seq::empty()
    };
    fault + header + datas + end
}

/// Running one well-formed local record from between records: the machine
/// walks through accumulation, name, extra field and payload, emitting
/// exactly the record's trace.
#[verifier::rlimit(100)]
#[verifier::spinoff_prover]
pub proof fn lemma_record_progress(m: Machine, r: Seq<u8>, p: int)
    requires
        between_records(m),
        is_local_record(r),
        0 <= p <= r.len(),
    ensures
        run(m, r.take(p)).0 == rec_mid(m, r, p),
        run(m, r.take(p)).1 == rec_trace_mid(r, m.cap, m.lf_idx, p),
    decreases p,
{
    broadcast use vstd::seq_lib::group_seq_properties;
    reveal_with_fuel(run, 6);
    if p == 0 {
        assert(r.take(0) =~= Seq::<u8>::empty());
        assert(rec_mid(m, r, 0) =~= m);
        assert(rec_trace_mid(r, m.cap, m.lf_idx, 0)
            =~= Seq::<TraceEvent>::empty());
    } else {
        lemma_record_progress(m, r, p - 1);
        let a = r.take(p - 1);
        let b = seq![r[p - 1]];
        assert(a + b =~= r.take(p));
        crate::machine::lemma_run_app(m, a, b);
        let mp = rec_mid(m, r, p - 1);
        let (m2, e2) = run(mp, b);
        assert(b.skip(1) =~= Seq::<u8>::empty());
        assert(m2 =~= rec_mid(m, r, p));
        assert(rec_trace_mid(r, m.cap, m.lf_idx, p - 1) + e2
            =~= rec_trace_mid(r, m.cap, m.lf_idx, p));
    }
}

/// Running one well-formed local record from between records yields
/// exactly the record's trace and leaves the machine between records, at
/// the next entry index, holding the record's metadata.
pub proof fn lemma_run_local_record(m: Machine, r: Seq<u8>)
    requires
        between_records(m),
        is_local_record(r),
    ensures
        between_records(run(m, r).0),
        run(m, r).0.cap == m.cap,
        run(m, r).0.cf_idx == m.cf_idx,
        run(m, r).0.comment == m.comment,
        run(m, r).0.lf_idx == bump(m.lf_idx),
        run(m, r).0.info == Some(rec_info(r, m.cap)),
        run(m, r).1 == rec_trace(r, m.cap, m.lf_idx),
{
    lemma_record_progress(m, r, r.len() as int);
    assert(r.take(r.len() as int) =~= r);
    assert(rec_trace_mid(r, m.cap, m.lf_idx, r.len() as int)
        =~= rec_trace(r, m.cap, m.lf_idx));
}

/// Per entry, the record's trace holds exactly one header event when the
/// name fits the bound — and a too-long fault instead of any header event
/// when it does not — then one data event per payload byte, in offset
/// order, their count equal to the declared compressed size, and exactly
/// one end event, last.
pub proof fn lemma_rec_trace_shape(r: Seq<u8>, cap: nat, i: i32)
    requires
        is_local_record(r),
    ensures
        ({
            let tr = rec_trace(r, cap, i);
            let h = spec_local_header(r);
            let dl = h.compressed_size as int;
            &&& tr.len() == dl + 2
            &&& (h.file_name_length <= cap ==> tr[0] == TraceEvent::Header {
                idx: i, info: rec_info(r, cap) })
            &&& (h.file_name_length > cap ==> tr[0] == TraceEvent::Fault {
                idx: i,
                err: ParsingError::LocalFileNameTooLong(
                    i, h.file_name_length as usize),
            })
            &&& forall |j: int| 0 <= j < dl ==> tr[1 + j] == (TraceEvent::Data {
                idx: i, off: j, byte: rec_payload(r)[j] })
            &&& tr[tr.len() - 1] == TraceEvent::End { idx: i }
        }),
{
    let tr = rec_trace(r, cap, i);
    let h = spec_local_header(r);
    let dl = h.compressed_size as int;
    assert(rec_payload(r).len() == dl);
    assert(tr.len() == dl + 2);
    assert forall |j: int| 0 <= j < dl implies tr[1 + j] == (TraceEvent::Data {
        idx: i, off: j, byte: rec_payload(r)[j] }) by {
        assert(data_events(i, rec_payload(r))[j] == TraceEvent::Data {
            idx: i, off: j, byte: rec_payload(r)[j] });
    }
}

/// The record standing at `off` in the archive `c`, spanning the fixed
/// header, name, extra field and payload it declares.
pub open spec fn record_at(c: Seq<u8>, off: int) -> Seq<u8> {
    let h = crate::seeking::lheader_at(c, off);
    c.subrange(off, off + LOCAL_FILE_HEADER_LEN + h.file_name_length
        + h.extra_field_length + h.compressed_size)
}

/// The payload bytes a directory-driven entry reads — `compressed_size`
/// bytes from its payload origin — are byte-identical to the payload run
/// of the local record it points at, the very bytes the push parser's
/// data events deliver for that record.
pub proof fn lemma_entry_payload_is_record_payload(c: Seq<u8>, off: int)
    requires
        crate::seeking::lheader_ok(c, off),
        ({
            let h = crate::seeking::lheader_at(c, off);
            off + LOCAL_FILE_HEADER_LEN + h.file_name_length
                + h.extra_field_length + h.compressed_size <= c.len()
        }),
    ensures
        is_local_record(record_at(c, off)),
        ({
            let h = crate::seeking::lheader_at(c, off);
            let origin = off + LOCAL_FILE_HEADER_LEN + h.file_name_length
                + h.extra_field_length;
            rec_payload(record_at(c, off))
                == c.subrange(origin, origin + h.compressed_size)
        }),
{
    let r = record_at(c, off);
    let h = crate::seeking::lheader_at(c, off);
    assert(spec_local_header(r) == h) by {
        assert(forall |i: int| 0 <= i < LOCAL_FILE_HEADER_LEN
            ==> r[i] == #[trigger] c.subrange(
                off, off + LOCAL_FILE_HEADER_LEN)[i]);
    }
    assert(le32(r, 0) == LOCAL_FILE_SIG) by {
        assert(c.subrange(off, off + LOCAL_FILE_HEADER_LEN)[0] == c[off]);
        assert(c.subrange(off, off + LOCAL_FILE_HEADER_LEN)[1] == c[off + 1]);
        assert(c.subrange(off, off + LOCAL_FILE_HEADER_LEN)[2] == c[off + 2]);
        assert(c.subrange(off, off + LOCAL_FILE_HEADER_LEN)[3] == c[off + 3]);
    }
    let origin = off + LOCAL_FILE_HEADER_LEN + h.file_name_length
        + h.extra_field_length;
    assert(rec_payload(r) =~= c.subrange(origin, origin + h.compressed_size));
}

/// A run of local records, laid out back to back.
pub open spec fn concat_records(rs: Seq<Seq<u8>>) -> Seq<u8>
    decreases rs.len(),
{
    if rs.len() == 0 {
        Seq::empty()
    } else {
        rs[0] + concat_records(rs.skip(1))
    }
}

/// The trace a run of records produces, entry indices counting up from
/// `i0`.
pub open spec fn records_trace(rs: Seq<Seq<u8>>, cap: nat, i0: i32) -> Seq<TraceEvent>
    decreases rs.len(),
{
    if rs.len() == 0 {
        Seq::empty()
    } else {
        rec_trace(rs[0], cap, i0)
            + records_trace(rs.skip(1), cap, (i0 + 1) as i32)
    }
}

/// Feeding back-to-back well-formed local records from between records:
/// each record becomes one entry, indices count up in input order, and
/// the whole trace is the concatenation of the records' traces — entry
/// events never interleave.
pub proof fn lemma_run_record_sequence(m: Machine, rs: Seq<Seq<u8>>)
    requires
        between_records(m),
        forall |i: int| 0 <= i < rs.len() ==> is_local_record(#[trigger] rs[i]),
        0 <= m.lf_idx,
        m.lf_idx + rs.len() <= i32::MAX,
    ensures
        between_records(run(m, concat_records(rs)).0),
        run(m, concat_records(rs)).0.cap == m.cap,
        run(m, concat_records(rs)).0.lf_idx == m.lf_idx + rs.len(),
        run(m, concat_records(rs)).1 == records_trace(rs, m.cap, m.lf_idx),
    decreases rs.len(),
{
    if rs.len() == 0 {
        assert(concat_records(rs) =~= Seq::<u8>::empty());
    } else {
        let first = rs[0];
        let rest = concat_records(rs.skip(1));
        crate::machine::lemma_run_app(m, first, rest);
        lemma_run_local_record(m, first);
        let m1 = run(m, first).0;
        assert(bump(m.lf_idx) == m.lf_idx + 1);
        lemma_run_record_sequence(m1, rs.skip(1));
        assert(forall |i: int| 0 <= i < rs.skip(1).len()
            ==> rs.skip(1)[i] == rs[i + 1]);
    }
}

/// Where record `k` of a back-to-back run starts.
pub open spec fn recs_pos(rs: Seq<Seq<u8>>, k: int) -> int
    decreases k,
{
    if k <= 0 {
        0
    } else {
        rs[0].len() + recs_pos(rs.skip(1), k - 1)
    }
}

/// A record run is as long as its records together.
pub proof fn lemma_concat_records_len(rs: Seq<Seq<u8>>)
    ensures
        concat_records(rs).len() == recs_pos(rs, rs.len() as int),
    decreases rs.len(),
{
    if rs.len() > 0 {
        lemma_concat_records_len(rs.skip(1));
    }
}

/// Record `k` of a back-to-back run stands at its cumulative offset.
pub proof fn lemma_record_position(rs: Seq<Seq<u8>>, k: int)
    requires
        0 <= k < rs.len(),
    ensures
        0 <= recs_pos(rs, k),
        recs_pos(rs, k) + rs[k].len() <= concat_records(rs).len(),
        concat_records(rs).subrange(recs_pos(rs, k),
            recs_pos(rs, k) + rs[k].len()) == rs[k],
    decreases k,
{
    lemma_concat_records_len(rs);
    lemma_concat_records_len(rs.skip(1));
    if k == 0 {
        assert(concat_records(rs).subrange(0, rs[0].len() as int) =~= rs[0]);
    } else {
        lemma_record_position(rs.skip(1), k - 1);
        assert(rs.skip(1)[k - 1] == rs[k]);
        let p = recs_pos(rs.skip(1), k - 1);
        let l = rs[k].len() as int;
        assert(concat_records(rs).subrange(rs[0].len() + p, rs[0].len() + p + l)
            =~= concat_records(rs.skip(1)).subrange(p, p + l));
    }
}

/// For an archive that opens with its local records back to back, the
/// payload the push parser's data events deliver for entry `k` — the
/// payload run of record `k` — is byte-identical to the bytes a
/// directory-driven entry for that record yields: `compressed_size` bytes
/// read from its payload origin behind the local header at the record's
/// offset.
pub proof fn lemma_push_and_directory_payloads_agree(c: Seq<u8>, rs: Seq<Seq<u8>>, k: int)
    requires
        0 <= k < rs.len(),
        forall |i: int| 0 <= i < rs.len() ==> is_local_record(#[trigger] rs[i]),
        concat_records(rs).len() <= c.len(),
        c.subrange(0, concat_records(rs).len() as int) == concat_records(rs),
    ensures
        ({
            let off = recs_pos(rs, k);
            let h = crate::seeking::lheader_at(c, off);
            let origin = off + LOCAL_FILE_HEADER_LEN + h.file_name_length
                + h.extra_field_length;
            &&& crate::seeking::lheader_ok(c, off)
            &&& h == spec_local_header(rs[k])
            &&& c.subrange(origin, origin + h.compressed_size)
                == rec_payload(rs[k])
        }),
{
    lemma_record_position(rs, k);
    let off = recs_pos(rs, k);
    let r = rs[k];
    let cc = concat_records(rs);
    assert(forall |j: int| 0 <= j < r.len()
        ==> c[off + j] == #[trigger] r[j]) by {
        assert(forall |j: int| 0 <= j < r.len()
            ==> cc.subrange(off, off + r.len())[j] == #[trigger] r[j]);
        assert(forall |i: int| 0 <= i < cc.len()
            ==> c.subrange(0, cc.len() as int)[i] == #[trigger] cc[i]);
    }
    let h0 = spec_local_header(r);
    assert(crate::seeking::lheader_at(c, off) == h0) by {
        assert(forall |j: int| 0 <= j < LOCAL_FILE_HEADER_LEN
            ==> c.subrange(off, off + LOCAL_FILE_HEADER_LEN)[j]
                == #[trigger] r[j]);
    }
    let origin = off + LOCAL_FILE_HEADER_LEN + h0.file_name_length
        + h0.extra_field_length;
    assert(c.subrange(origin, origin + h0.compressed_size)
        =~= rec_payload(r));
}

/// Four bytes that match no record signature: the machine reports one
/// invalid-signature fault, discards them, and waits for the next
/// signature unchanged — feeding resumes after the garbage.
pub proof fn lemma_run_garbage(m: Machine, g: Seq<u8>)
    requires
        between_records(m),
        g.len() == 4,
        crate::codec::spec_signature(le32(g, 0)) is None,
    ensures
        run(m, g).0 == (Machine { buf: Seq::empty(), ..m }),
        run(m, g).1 == seq![TraceEvent::Fault {
            idx: m.lf_idx, err: ParsingError::InvalidSignature }],
{
    reveal_with_fuel(run, 6);
    assert(g.skip(1).skip(1).skip(1).skip(1) =~= Seq::<u8>::empty());
    assert(Seq::<u8>::empty().push(g[0]) =~= g.take(1));
    assert(g.take(1).push(g.skip(1)[0]) =~= g.take(2));
    assert(g.take(2).push(g.skip(1).skip(1)[0]) =~= g.take(3));
    assert(g.take(3).push(g.skip(1).skip(1).skip(1)[0]) =~= g.take(4));
    assert(g.take(4) =~= g);
    assert(run(m, g).0 =~= (Machine { buf: Seq::empty(), ..m }));
    assert(run(m, g).1 =~= seq![TraceEvent::Fault {
        idx: m.lf_idx, err: ParsingError::InvalidSignature }]);
}


/// One well-formed central record: the fixed prefix, then the name, extra
/// field and comment it declares.
pub open spec fn is_central_record(r: Seq<u8>) -> bool {
    let h = spec_central_header(r);
    &&& r.len() >= CENTRAL_FILE_HEADER_LEN
    &&& le32(r, 0) == CENTRAL_FILE_SIG
    &&& r.len() == CENTRAL_FILE_HEADER_LEN + h.file_name_length
        + h.extra_field_length + h.file_comment_length
}

/// One well-formed terminator record: the fixed prefix, then the archive
/// comment it declares.
pub open spec fn is_eocd_record(r: Seq<u8>) -> bool {
    let h = spec_central_dir_end(r);
    &&& r.len() >= CENTRAL_DIR_END_LEN
    &&& le32(r, 0) == CENTRAL_DIR_END_SIG
    &&& r.len() == CENTRAL_DIR_END_LEN + h.zip_file_comment_length
}

/// The machine midway through one central record, after `p` of its bytes.
pub open spec fn crec_mid(m: Machine, r: Seq<u8>, p: int) -> Machine {
    let h = spec_central_header(r);
    let tail = (h.file_name_length + h.extra_field_length
        + h.file_comment_length) as int;
    if p < 4 {
        Machine {
            state: MState::RecvHeader(HeaderType::HeaderSignature, 4),
            buf: r.take(p),
            ..m
        }
    } else if p < CENTRAL_FILE_HEADER_LEN {
        Machine {
            state: MState::RecvHeader(
                HeaderType::CentralFileHeader, CENTRAL_FILE_HEADER_LEN as nat),
            buf: r.take(p),
            ..m
        }
    } else if p < CENTRAL_FILE_HEADER_LEN + tail {
        Machine {
            state: MState::RecvCentralFileHeader,
            buf: Seq::empty(),
            ct_idx: (p - CENTRAL_FILE_HEADER_LEN) as nat,
            ct_len: tail as nat,
            ..m
        }
    } else {
        Machine {
            state: MState::RecvHeader(HeaderType::HeaderSignature, 4),
            buf: Seq::empty(),
            cf_idx: bump(m.cf_idx),
            ct_idx: 0,
            ct_len: 0,
            ..m
        }
    }
}

/// Walking one central record from between records: no events at all.
#[verifier::rlimit(100)]
#[verifier::spinoff_prover]
pub proof fn lemma_central_record_progress(m: Machine, r: Seq<u8>, p: int)
    requires
        between_records(m),
        is_central_record(r),
        0 <= p <= r.len(),
    ensures
        run(m, r.take(p)).0 == crec_mid(m, r, p),
        run(m, r.take(p)).1 == Seq::<TraceEvent>::empty(),
    decreases p,
{
    broadcast use vstd::seq_lib::group_seq_properties;

    reveal_with_fuel(run, 6);
    if p == 0 {
        assert(r.take(0) =~= Seq::<u8>::empty());
        assert(crec_mid(m, r, 0) =~= m);
    } else {
        lemma_central_record_progress(m, r, p - 1);
        let a = r.take(p - 1);
        let b = seq![r[p - 1]];
        assert(a + b =~= r.take(p));
        crate::machine::lemma_run_app(m, a, b);
        let mp = crec_mid(m, r, p - 1);
        let (m2, e2) = run(mp, b);
        assert(b.skip(1) =~= Seq::<u8>::empty());
        assert(m2 =~= crec_mid(m, r, p));
        assert(Seq::<TraceEvent>::empty() + e2 =~= e2);
        assert(e2 =~= Seq::<TraceEvent>::empty());
    }
}

/// Running one central record from between records: the machine counts it
/// and waits for the next signature; central records emit no events.
pub proof fn lemma_run_central_record(m: Machine, r: Seq<u8>)
    requires
        between_records(m),
        is_central_record(r),
    ensures
        run(m, r).0 == (Machine {
            cf_idx: bump(m.cf_idx),
            ct_idx: 0,
            ct_len: 0,
            ..m
        }),
        run(m, r).1 == Seq::<TraceEvent>::empty(),
{
    lemma_central_record_progress(m, r, r.len() as int);
    assert(r.take(r.len() as int) =~= r);
    assert(crec_mid(m, r, r.len() as int) =~= (Machine {
        cf_idx: bump(m.cf_idx),
        ct_idx: 0,
        ct_len: 0,
        ..m
    }));
}

/// The machine midway through the terminator record, after `p` bytes.
pub open spec fn erec_mid(m: Machine, r: Seq<u8>, p: int) -> Machine {
    let h = spec_central_dir_end(r);
    let tail = h.zip_file_comment_length as int;
    if p < 4 {
        Machine {
            state: MState::RecvHeader(HeaderType::HeaderSignature, 4),
            buf: r.take(p),
            ..m
        }
    } else if p < CENTRAL_DIR_END_LEN {
        Machine {
            state: MState::RecvHeader(
                HeaderType::CentralDirEnd, CENTRAL_DIR_END_LEN as nat),
            buf: r.take(p),
            ..m
        }
    } else if p < CENTRAL_DIR_END_LEN + tail {
        Machine {
            state: MState::RecvCentralDirEnd,
            buf: Seq::empty(),
            ce_idx: (p - CENTRAL_DIR_END_LEN) as nat,
            ce_len: tail as nat,
            comment: m.comment + r.subrange(CENTRAL_DIR_END_LEN as int, p),
            ..m
        }
    } else {
        Machine {
            state: MState::RecvHeader(HeaderType::HeaderSignature, 4),
            buf: Seq::empty(),
            ce_idx: 0,
            ce_len: 0,
            comment: m.comment + r.subrange(CENTRAL_DIR_END_LEN as int, r.len() as int),
            ..m
        }
    }
}

/// Walking the terminator from between records: no events at all.
#[verifier::rlimit(100)]
#[verifier::spinoff_prover]
pub proof fn lemma_eocd_record_progress(m: Machine, r: Seq<u8>, p: int)
    requires
        between_records(m),
        is_eocd_record(r),
        0 <= p <= r.len(),
    ensures
        run(m, r.take(p)).0 == erec_mid(m, r, p),
        run(m, r.take(p)).1 == Seq::<TraceEvent>::empty(),
    decreases p,
{
    broadcast use vstd::seq_lib::group_seq_properties;

    reveal_with_fuel(run, 6);
    if p == 0 {
        assert(r.take(0) =~= Seq::<u8>::empty());
        assert(erec_mid(m, r, 0) =~= m);
    } else {
        lemma_eocd_record_progress(m, r, p - 1);
        let a = r.take(p - 1);
        let b = seq![r[p - 1]];
        assert(a + b =~= r.take(p));
        crate::machine::lemma_run_app(m, a, b);
        let mp = erec_mid(m, r, p - 1);
        let (m2, e2) = run(mp, b);
        assert(b.skip(1) =~= Seq::<u8>::empty());
        if p == CENTRAL_DIR_END_LEN {
            assert(m.comment + r.subrange(
                CENTRAL_DIR_END_LEN as int, CENTRAL_DIR_END_LEN as int)
                =~= m.comment);
        } else if p > CENTRAL_DIR_END_LEN {
            assert((m.comment + r.subrange(CENTRAL_DIR_END_LEN as int, p - 1))
                .push(r[p - 1])
                =~= m.comment + r.subrange(CENTRAL_DIR_END_LEN as int, p));
        }
        assert(m2 =~= erec_mid(m, r, p));
        assert(Seq::<TraceEvent>::empty() + e2 =~= e2);
        assert(e2 =~= Seq::<TraceEvent>::empty());
    }
}

/// Running the terminator from between records: its comment is captured
/// and the machine waits for input; the terminator emits no events.
pub proof fn lemma_run_eocd_record(m: Machine, r: Seq<u8>)
    requires
        between_records(m),
        is_eocd_record(r),
    ensures
        run(m, r).0 == (Machine {
            ce_idx: 0,
            ce_len: 0,
            comment: m.comment
                + r.subrange(CENTRAL_DIR_END_LEN as int, r.len() as int),
            ..m
        }),
        run(m, r).1 == Seq::<TraceEvent>::empty(),
{
    lemma_eocd_record_progress(m, r, r.len() as int);
    assert(r.take(r.len() as int) =~= r);
    assert(erec_mid(m, r, r.len() as int) =~= (Machine {
        ce_idx: 0,
        ce_len: 0,
        comment: m.comment
            + r.subrange(CENTRAL_DIR_END_LEN as int, r.len() as int),
        ..m
    }));
}

/// Running a run of central records from between records: silent.
pub proof fn lemma_run_central_sequence(m: Machine, rs: Seq<Seq<u8>>)
    requires
        between_records(m),
        forall |i: int| 0 <= i < rs.len() ==> is_central_record(#[trigger] rs[i]),
    ensures
        between_records(run(m, concat_records(rs)).0),
        run(m, concat_records(rs)).0.cap == m.cap,
        run(m, concat_records(rs)).0.lf_idx == m.lf_idx,
        run(m, concat_records(rs)).0.info == m.info,
        run(m, concat_records(rs)).0.comment == m.comment,
        run(m, concat_records(rs)).1 == Seq::<TraceEvent>::empty(),
    decreases rs.len(),
{
    if rs.len() == 0 {
        assert(concat_records(rs) =~= Seq::<u8>::empty());
    } else {
        let first = rs[0];
        let rest = concat_records(rs.skip(1));
        crate::machine::lemma_run_app(m, first, rest);
        lemma_run_central_record(m, first);
        lemma_run_central_sequence(run(m, first).0, rs.skip(1));
        assert(forall |i: int| 0 <= i < rs.skip(1).len()
            ==> rs.skip(1)[i] == rs[i + 1]);
        assert(Seq::<TraceEvent>::empty() + Seq::<TraceEvent>::empty()
            =~= Seq::<TraceEvent>::empty());
    }
}

/// A sequentially laid out archive — every local record, then every
/// central record, then the terminator — produces exactly the entries'
/// traces, in input order, and nothing else: the directory region and the
/// terminator are silent.
pub proof fn lemma_run_sequential_archive(
    cap: nat,
    lrecs: Seq<Seq<u8>>,
    crecs: Seq<Seq<u8>>,
    erec: Seq<u8>,
)
    requires
        forall |i: int| 0 <= i < lrecs.len() ==> is_local_record(#[trigger] lrecs[i]),
        forall |i: int| 0 <= i < crecs.len() ==> is_central_record(#[trigger] crecs[i]),
        is_eocd_record(erec),
        lrecs.len() <= i32::MAX,
    ensures
        ({
            let c = concat_records(lrecs) + concat_records(crecs) + erec;
            &&& run(crate::machine::init(cap), c).1
                == records_trace(lrecs, cap, 0)
            &&& run(crate::machine::init(cap), c).0.lf_idx == lrecs.len()
            &&& between_records(run(crate::machine::init(cap), c).0)
        }),
{
    let m0 = crate::machine::init(cap);
    let a = concat_records(lrecs);
    let b = concat_records(crecs);
    crate::machine::lemma_run_app(m0, a + b, erec);
    crate::machine::lemma_run_app(m0, a, b);
    lemma_run_record_sequence(m0, lrecs);
    lemma_run_central_sequence(run(m0, a).0, crecs);
    lemma_run_eocd_record(run(m0, a + b).0, erec);
    assert(run(m0, (a + b) + erec).1
        =~= records_trace(lrecs, cap, 0));
}

} // verus!
