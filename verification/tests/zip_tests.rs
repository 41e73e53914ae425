//! End-to-end scenarios over both parsing engines.

use zip_parser::{MemStream, PassiveParser, SeekingParser, EventRecorder, ParsingError};
use zip_parser::passive::RecordedEvent;

const CAP: usize = 128;

fn u16le(v: u16) -> [u8; 2] {
    v.to_le_bytes()
}

fn u32le(v: u32) -> [u8; 4] {
    v.to_le_bytes()
}

fn local_record(name: &[u8], extra: &[u8], payload: &[u8], method: u16) -> Vec<u8> {
    let mut r = Vec::new();
    r.extend_from_slice(&u32le(0x04034b50));
    r.extend_from_slice(&u16le(20));
    r.extend_from_slice(&u16le(0));
    r.extend_from_slice(&u16le(method));
    r.extend_from_slice(&u16le(0));
    r.extend_from_slice(&u16le(0));
    r.extend_from_slice(&u32le(0));
    r.extend_from_slice(&u32le(payload.len() as u32));
    r.extend_from_slice(&u32le(payload.len() as u32));
    r.extend_from_slice(&u16le(name.len() as u16));
    r.extend_from_slice(&u16le(extra.len() as u16));
    r.extend_from_slice(name);
    r.extend_from_slice(extra);
    r.extend_from_slice(payload);
    r
}

fn central_record(name: &[u8], payload_len: u32, local_off: u32, method: u16) -> Vec<u8> {
    let mut r = Vec::new();
    r.extend_from_slice(&u32le(0x02014b50));
    r.extend_from_slice(&u16le(20));
    r.extend_from_slice(&u16le(20));
    r.extend_from_slice(&u16le(0));
    r.extend_from_slice(&u16le(method));
    r.extend_from_slice(&u16le(0));
    r.extend_from_slice(&u16le(0));
    r.extend_from_slice(&u32le(0));
    r.extend_from_slice(&u32le(payload_len));
    r.extend_from_slice(&u32le(payload_len));
    r.extend_from_slice(&u16le(name.len() as u16));
    r.extend_from_slice(&u16le(0));
    r.extend_from_slice(&u16le(0));
    r.extend_from_slice(&u16le(0));
    r.extend_from_slice(&u16le(0));
    r.extend_from_slice(&u32le(0));
    r.extend_from_slice(&u32le(local_off));
    r.extend_from_slice(name);
    r
}

fn eocd(total: u16, cd_off: u32, cd_size: u32, comment: &[u8]) -> Vec<u8> {
    let mut r = Vec::new();
    r.extend_from_slice(&u32le(0x06054b50));
    r.extend_from_slice(&u16le(0));
    r.extend_from_slice(&u16le(0));
    r.extend_from_slice(&u16le(total));
    r.extend_from_slice(&u16le(total));
    r.extend_from_slice(&u32le(cd_size));
    r.extend_from_slice(&u32le(cd_off));
    r.extend_from_slice(&u16le(comment.len() as u16));
    r.extend_from_slice(comment);
    r
}

fn simple_archive(files: &[(&[u8], &[u8])]) -> Vec<u8> {
    let mut out = Vec::new();
    let mut locs = Vec::new();
    for (name, payload) in files {
        locs.push(out.len() as u32);
        out.extend_from_slice(&local_record(name, &[], payload, 0));
    }
    let cd_off = out.len() as u32;
    for (i, (name, payload)) in files.iter().enumerate() {
        out.extend_from_slice(&central_record(name, payload.len() as u32, locs[i], 0));
    }
    let cd_size = out.len() as u32 - cd_off;
    out.extend_from_slice(&eocd(files.len() as u16, cd_off, cd_size, &[]));
    out
}

/// The event stream reduced to comparable form: non-data events tagged,
/// data bytes concatenated per entry index.
fn summarize(events: &[RecordedEvent<CAP>]) -> (Vec<String>, std::collections::BTreeMap<i32, Vec<u8>>) {
    let mut tags = Vec::new();
    let mut payloads: std::collections::BTreeMap<i32, Vec<u8>> = std::collections::BTreeMap::new();
    for e in events {
        match e {
            RecordedEvent::Header(i, info) => {
                tags.push(format!("header {} {:?}", i, info.file_name_bytes()));
            }
            RecordedEvent::Data { file_index, data, .. } => {
                payloads.entry(*file_index).or_default().extend_from_slice(data);
            }
            RecordedEvent::End(i) => tags.push(format!("end {}", i)),
            RecordedEvent::Fault(i, err) => tags.push(format!("fault {} {}", i, err.describe())),
            RecordedEvent::Cancel(i, n) => tags.push(format!("cancel {} {}", i, n)),
        }
    }
    (tags, payloads)
}

#[test]
fn parse_file_list() {
}

#[test]
fn empty_archive_directory_driven() {
    let bytes = eocd(0, 0, 0, &[]);
    assert_eq!(bytes.len(), 22);
    let mut stream = MemStream::new(bytes);
    let mut parser = SeekingParser::<CAP>::new(&mut stream);
    assert_eq!(parser.number_of_files, Some(0));
    let entries = parser.collect_entries(&mut stream);
    assert!(entries.is_empty());
}

#[test]
fn empty_archive_push() {
    let bytes = eocd(0, 0, 0, &[]);
    let mut parser = PassiveParser::<CAP>::new();
    let mut rec = EventRecorder::<CAP>::new();
    let consumed = parser.feed_data(&bytes, &mut rec);
    assert_eq!(consumed, 22);
    assert!(rec.events.is_empty());
}

#[test]
fn single_stored_entry_push() {
    let arch = simple_archive(&[(b"hello.txt", b"hello")]);
    let mut parser = PassiveParser::<CAP>::new();
    let mut rec = EventRecorder::<CAP>::new();
    let consumed = parser.feed_data(&arch, &mut rec);
    assert_eq!(consumed, arch.len());
    assert_eq!(rec.events.len(), 3);
    match &rec.events[0] {
        RecordedEvent::Header(0, info) => {
            assert_eq!(info.file_name_bytes(), b"hello.txt");
            assert_eq!(info.file_name().unwrap(), "hello.txt");
            assert_eq!(info.compressed_size, 5);
            assert_eq!(info.uncompressed_size, 5);
            assert_eq!(info.compression_method, zip_parser::CompressMethod::Uncompress);
        }
        other => panic!("expected header event, got {:?}", other),
    }
    match &rec.events[1] {
        RecordedEvent::Data { file_index: 0, offset: 0, data } => {
            assert_eq!(data.as_slice(), &[0x68, 0x65, 0x6c, 0x6c, 0x6f]);
        }
        other => panic!("expected data event, got {:?}", other),
    }
    assert!(matches!(rec.events[2], RecordedEvent::End(0)));
}

#[test]
fn single_stored_entry_directory_driven() {
    let arch = simple_archive(&[(b"hello.txt", b"hello")]);
    let mut stream = MemStream::new(arch);
    let mut parser = SeekingParser::<CAP>::new(&mut stream);
    assert_eq!(parser.number_of_files, Some(1));
    let mut entries = parser.collect_entries(&mut stream);
    assert_eq!(entries.len(), 1);
    let entry = &mut entries[0];
    assert_eq!(entry.info.file_name_bytes(), b"hello.txt");
    assert_eq!(entry.info.file_size(), 5);
    let data = entry.read(&mut stream, 5).unwrap();
    assert_eq!(data, b"hello");
}

#[test]
fn two_entries_split_data_delivery() {
    let big = vec![0xabu8; 1024];
    let arch = simple_archive(&[(b"a.bin", b"xyz"), (b"b.bin", &big)]);
    let mut parser = PassiveParser::<CAP>::new();
    let mut rec = EventRecorder::<CAP>::new();
    let mut fed = 0;
    while fed < arch.len() {
        let end = (fed + 7).min(arch.len());
        let consumed = parser.feed_data(&arch[fed..end], &mut rec);
        assert_eq!(consumed, end - fed);
        fed = end;
    }
    let mut total = 0usize;
    let mut last_offset: Option<usize> = None;
    let mut final_end = 0usize;
    for e in &rec.events {
        if let RecordedEvent::Data { file_index: 1, offset, data } = e {
            if let Some(prev) = last_offset {
                assert!(*offset > prev, "offsets must strictly increase");
            }
            last_offset = Some(*offset);
            total += data.len();
            final_end = offset + data.len();
        }
    }
    assert_eq!(total, 1024);
    assert_eq!(final_end, 1024);
}

#[test]
fn name_too_long_errors_and_entry_still_ends() {
    let name = vec![b'n'; 200];
    let mut arch = local_record(&name, &[], b"abc", 0);
    arch.extend_from_slice(&eocd(1, 0, 0, &[]));
    let mut parser = PassiveParser::<CAP>::new();
    let mut rec = EventRecorder::<CAP>::new();
    let consumed = parser.feed_data(&arch, &mut rec);
    assert_eq!(consumed, arch.len());
    assert!(matches!(
        rec.events[0],
        RecordedEvent::Fault(0, ParsingError::LocalFileNameTooLong(0, 200))
    ));
    assert!(rec.events.iter().all(|e| !matches!(e, RecordedEvent::Header(0, _))));
    assert!(rec.events.iter().any(|e| matches!(e, RecordedEvent::End(0))));
}

#[test]
fn callback_cancels_mid_payload_and_resumes() {
    let payload = vec![0x55u8; 100];
    let arch = simple_archive(&[(b"a", &payload)]);
    // local header (30) + name (1) + extra (0) + the first 40 payload bytes
    let cut = 30 + 1 + 40;
    let mut parser = PassiveParser::<CAP>::new();
    let mut rec = EventRecorder::<CAP>::stopping_after(40);
    let consumed1 = parser.feed_data(&arch[..cut], &mut rec);
    assert_eq!(consumed1, cut);
    assert!(matches!(rec.events.last(), Some(RecordedEvent::Cancel(-1, n)) if *n == cut));
    assert!(matches!(
        &rec.events[rec.events.len() - 2],
        RecordedEvent::Data { file_index: 0, offset: 0, data } if data.len() == 40
    ));

    // resume with the unconsumed tail
    let mut rec2 = EventRecorder::<CAP>::new();
    let consumed2 = parser.feed_data(&arch[cut..], &mut rec2);
    assert_eq!(consumed2, arch.len() - cut);
    assert_eq!(consumed1 + consumed2, arch.len());
    assert!(matches!(
        &rec2.events[0],
        RecordedEvent::Data { file_index: 0, offset: 40, data } if data.len() == 60
    ));
    assert!(rec2.events.iter().any(|e| matches!(e, RecordedEvent::End(0))));
}

#[test]
fn garbage_between_entries_resynchronizes() {
    let first = local_record(b"a", &[], b"12", 0);
    let second = local_record(b"b", &[], b"34", 0);
    let mut arch = Vec::new();
    arch.extend_from_slice(&first);
    arch.extend_from_slice(&[0xde, 0xad, 0xbe, 0xef]);
    arch.extend_from_slice(&second);
    arch.extend_from_slice(&eocd(2, 0, 0, &[]));
    let mut parser = PassiveParser::<CAP>::new();
    let mut rec = EventRecorder::<CAP>::new();
    let consumed = parser.feed_data(&arch, &mut rec);
    assert_eq!(consumed, arch.len());
    let (tags, payloads) = summarize(&rec.events);
    assert!(tags.contains(&"fault 1 InvalidSignature".to_string()));
    assert_eq!(payloads[&0], b"12");
    assert_eq!(payloads[&1], b"34");
    assert!(tags.iter().any(|t| t.starts_with("header 0")));
    assert!(tags.iter().any(|t| t.starts_with("header 1")));
    assert!(tags.contains(&"end 0".to_string()));
    assert!(tags.contains(&"end 1".to_string()));
}

#[test]
fn bytewise_feeding_equals_one_shot() {
    let big = vec![7u8; 300];
    let arch = simple_archive(&[(b"one.txt", b"payload-one"), (b"two.bin", &big)]);

    let mut p1 = PassiveParser::<CAP>::new();
    let mut r1 = EventRecorder::<CAP>::new();
    assert_eq!(p1.feed_data(&arch, &mut r1), arch.len());

    let mut p2 = PassiveParser::<CAP>::new();
    let mut r2 = EventRecorder::<CAP>::new();
    for b in &arch {
        assert_eq!(p2.feed_data(std::slice::from_ref(b), &mut r2), 1);
    }

    assert_eq!(summarize(&r1.events), summarize(&r2.events));
}

#[test]
fn push_and_directory_payloads_agree() {
    let big: Vec<u8> = (0..=255u8).cycle().take(500).collect();
    let arch = simple_archive(&[(b"x", b"abcde"), (b"y", &big)]);

    let mut parser = PassiveParser::<CAP>::new();
    let mut rec = EventRecorder::<CAP>::new();
    parser.feed_data(&arch, &mut rec);
    let (_, pushed) = summarize(&rec.events);

    let mut stream = MemStream::new(arch);
    let mut dir = SeekingParser::<CAP>::new(&mut stream);
    let mut entries = dir.collect_entries(&mut stream);
    assert_eq!(entries.len(), 2);
    for (i, entry) in entries.iter_mut().enumerate() {
        let want = entry.info.file_size() as usize;
        let got = entry.read_exact(&mut stream, want).unwrap();
        assert_eq!(got, pushed[&(i as i32)], "entry {} differs", i);
    }
}

#[test]
fn directory_iteration_order_and_count() {
    let arch = simple_archive(&[(b"first", b"1"), (b"second", b"22"), (b"third", b"333")]);
    let mut stream = MemStream::new(arch);
    let mut parser = SeekingParser::<CAP>::new(&mut stream);
    assert_eq!(parser.number_of_files, Some(3));
    let entries = parser.collect_entries(&mut stream);
    assert_eq!(entries.len(), 3);
    assert_eq!(entries[0].info.file_name_bytes(), b"first");
    assert_eq!(entries[1].info.file_name_bytes(), b"second");
    assert_eq!(entries[2].info.file_name_bytes(), b"third");
    assert_eq!(entries[2].info.file_size(), 3);
}

#[test]
fn archive_comment_is_captured_by_push_parser() {
    let local = local_record(b"f", &[], b"z", 0);
    let central = central_record(b"f", 1, 0, 0);
    let mut arch = Vec::new();
    arch.extend_from_slice(&local);
    let cd_off = arch.len() as u32;
    arch.extend_from_slice(&central);
    arch.extend_from_slice(&eocd(1, cd_off, central.len() as u32, b"hi"));
    let mut parser = PassiveParser::<CAP>::new();
    let mut rec = EventRecorder::<CAP>::new();
    let consumed = parser.feed_data(&arch, &mut rec);
    assert_eq!(consumed, arch.len());
    assert_eq!(parser.file_comment().unwrap(), "hi");
}

#[test]
fn parser_reset_forgets_progress() {
    let arch = simple_archive(&[(b"f", b"z")]);
    let mut parser = PassiveParser::<CAP>::new();
    let mut rec = EventRecorder::<CAP>::new();
    parser.feed_data(&arch[..10], &mut rec);
    parser.reset();
    assert_eq!(parser.localfile_index(), 0);
    let mut rec2 = EventRecorder::<CAP>::new();
    let consumed = parser.feed_data(&arch, &mut rec2);
    assert_eq!(consumed, arch.len());
    assert!(rec2.events.iter().any(|e| matches!(e, RecordedEvent::End(0))));
}

#[test]
fn no_directory_in_short_stream() {
    let mut stream = MemStream::new(vec![1, 2, 3]);
    let parser = SeekingParser::<CAP>::new(&mut stream);
    assert!(parser.number_of_files.is_none());
}

#[test]
fn truncated_directory_ends_iteration() {
    let mut arch = simple_archive(&[(b"f", b"z")]);
    // point the directory past the end of the stream
    let len = arch.len();
    arch[len - 6] = 0xff;
    let mut stream = MemStream::new(arch);
    let mut parser = SeekingParser::<CAP>::new(&mut stream);
    let entries = parser.collect_entries(&mut stream);
    assert!(entries.is_empty());
}
