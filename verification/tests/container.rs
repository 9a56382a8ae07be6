use crash_report::container::{parse_container, read_string, advance_to_next_item, extract_files};
use crash_report::errors::ReportError;

fn delim_string(s: &str) -> Vec<u8> {
    let mut v: Vec<u8> = vec![0x04, 0x01, 0x00, 0x00];
    v.extend_from_slice(s.as_bytes());
    v.push(0);
    v
}

fn build_payload(crash_id: &str, source: &str, files: &[(&str, &[u8])]) -> Vec<u8> {
    let mut v: Vec<u8> = Vec::new();
    v.extend_from_slice(b"CR1");
    let cid = delim_string(crash_id);
    v.extend_from_slice(&cid);
    let src = delim_string(source);
    v.extend_from_slice(&src);
    let size_pos = v.len();
    v.extend_from_slice(&[0, 0, 0, 0]);
    v.push(files.len() as u8);
    for (i, (name, content)) in files.iter().enumerate() {
        let nm = delim_string(name);
        v.extend_from_slice(&nm);
        v.extend_from_slice(&(content.len() as u32).to_le_bytes());
        v.extend_from_slice(content);
        if i + 1 != files.len() {
            v.extend_from_slice(&[7, 7, 7, 7]);
        }
    }
    let total = v.len() as u32;
    v[size_pos..size_pos + 4].copy_from_slice(&total.to_le_bytes());
    v
}

#[test]
fn parses_single_file_container() {
    let payload = build_payload("abc123", "x.log", &[("CrashContext.runtime-xml", b"<a/>")]);
    let (header, files) = parse_container(&payload).unwrap();
    assert_eq!(header.crash_id, "abc123");
    assert_eq!(header.source_filename, "x.log");
    assert_eq!(header.declared_size as usize, payload.len());
    assert_eq!(header.file_count, 1);
    assert_eq!(files.len(), 1);
    assert_eq!(files[0].name, "CrashContext.runtime-xml");
    assert_eq!(&payload[files[0].offset..files[0].offset + files[0].len], b"<a/>");
}

#[test]
fn parses_files_in_declaration_order_with_disjoint_ranges() {
    let payload = build_payload(
        "id9",
        "src.bin",
        &[("one.txt", b"alpha"), ("two.txt", b"beta!"), ("three.txt", b"gamma")],
    );
    let (header, files) = parse_container(&payload).unwrap();
    assert_eq!(header.file_count, 3);
    assert_eq!(files.len(), 3);
    assert_eq!(files[0].name, "one.txt");
    assert_eq!(files[1].name, "two.txt");
    assert_eq!(files[2].name, "three.txt");
    assert_eq!(&payload[files[0].offset..files[0].offset + files[0].len], b"alpha");
    assert_eq!(&payload[files[1].offset..files[1].offset + files[1].len], b"beta!");
    assert_eq!(&payload[files[2].offset..files[2].offset + files[2].len], b"gamma");
    for i in 0..files.len() {
        assert!(files[i].offset + files[i].len <= payload.len());
        for j in (i + 1)..files.len() {
            assert!(files[i].offset + files[i].len <= files[j].offset);
        }
    }
}

#[test]
fn size_mismatch_rejects_whole_container() {
    let mut payload = build_payload("abc123", "x.log", &[("a.txt", b"data1")]);
    // append a byte: the payload length no longer matches the declared size
    payload.push(0xEE);
    assert!(matches!(parse_container(&payload), Err(ReportError::SizeMismatch)));
}

#[test]
fn bad_magic_is_malformed_header() {
    let mut payload = build_payload("abc123", "x.log", &[("a.txt", b"data1")]);
    payload[0] = b'X';
    assert!(matches!(parse_container(&payload), Err(ReportError::MalformedHeader)));
}

#[test]
fn bad_string_marker_is_delimiter_mismatch() {
    let mut payload = build_payload("abc123", "x.log", &[("a.txt", b"data1")]);
    // the crash id marker starts right after the three magic bytes
    payload[3] = 0x09;
    assert!(matches!(parse_container(&payload), Err(ReportError::DelimiterMismatch)));
}

#[test]
fn truncated_payload_is_truncated_input() {
    let payload = build_payload("abc123", "x.log", &[("a.txt", b"data1")]);
    let cut = &payload[..5];
    assert!(matches!(parse_container(cut), Err(ReportError::TruncatedInput)));
}

#[test]
fn missing_terminator_is_truncated_input() {
    let mut v: Vec<u8> = Vec::new();
    v.extend_from_slice(b"CR1");
    v.extend_from_slice(&[0x04, 0x01, 0x00, 0x00]);
    v.extend_from_slice(b"neverending");
    assert!(matches!(parse_container(&v), Err(ReportError::TruncatedInput)));
}

#[test]
fn invalid_utf8_name_is_delimiter_mismatch() {
    let mut v: Vec<u8> = Vec::new();
    v.extend_from_slice(b"CR1");
    v.extend_from_slice(&[0x04, 0x01, 0x00, 0x00]);
    v.extend_from_slice(&[0xFF, 0xFE, 0x41]);
    v.push(0);
    v.push(0x04); // something after the terminator
    assert!(matches!(parse_container(&v), Err(ReportError::DelimiterMismatch)));
}

#[test]
fn read_string_reports_value_and_cursor() {
    let mut v: Vec<u8> = vec![0x04, 0x01, 0x00, 0x00];
    v.extend_from_slice(b"hello");
    v.push(0);
    v.push(0x42);
    let (value, pos) = read_string(&v, 0).unwrap();
    assert_eq!(value, "hello");
    // the cursor is left exactly on the terminator byte
    assert_eq!(pos, 9);
    assert_eq!(v[pos], 0);
}

#[test]
fn advance_to_next_item_counts_leading_zeros() {
    assert_eq!(advance_to_next_item(&[0, 0, 0, 5, 0]), 3);
    assert_eq!(advance_to_next_item(&[1, 2, 3]), 0);
    assert_eq!(advance_to_next_item(&[0, 0]), 2);
    assert_eq!(advance_to_next_item(&[]), 0);
}

#[test]
fn extract_files_reads_trailer_between_records() {
    // two records: the first is followed by a four-byte opaque trailer,
    // the last is not
    let mut v: Vec<u8> = Vec::new();
    let first = delim_string("f1");
    v.extend_from_slice(&first);
    v.extend_from_slice(&3u32.to_le_bytes());
    v.extend_from_slice(b"aaa");
    v.extend_from_slice(&[9, 9, 9, 9]);
    let second = delim_string("f2");
    v.extend_from_slice(&second);
    v.extend_from_slice(&3u32.to_le_bytes());
    v.extend_from_slice(b"bbb");
    let (files, end) = extract_files(&v, 0, 2).unwrap();
    assert_eq!(files.len(), 2);
    assert_eq!(&v[files[0].offset..files[0].offset + files[0].len], b"aaa");
    assert_eq!(&v[files[1].offset..files[1].offset + files[1].len], b"bbb");
    assert_eq!(end, v.len());
}

#[test]
fn extract_files_missing_trailer_is_truncated() {
    // two records declared, but the stream ends right after the first
    // record's content, where the trailer should be
    let mut v: Vec<u8> = Vec::new();
    let first = delim_string("f1");
    v.extend_from_slice(&first);
    v.extend_from_slice(&3u32.to_le_bytes());
    v.extend_from_slice(b"aaa");
    assert!(matches!(extract_files(&v, 0, 2), Err(ReportError::TruncatedInput)));
}

#[test]
fn size_mismatch_wins_over_garbage_file_records() {
    // valid prefix through the size field, a wrong declared size, and
    // arbitrary bytes where the file records would be
    let mut v: Vec<u8> = Vec::new();
    v.extend_from_slice(b"CR1");
    let cid = delim_string("id");
    v.extend_from_slice(&cid);
    let src = delim_string("s.log");
    v.extend_from_slice(&src);
    v.extend_from_slice(&0xDEADBEEFu32.to_le_bytes());
    v.extend_from_slice(b"garbage, not a container at all");
    assert!(matches!(parse_container(&v), Err(ReportError::SizeMismatch)));
}

#[test]
fn parses_container_with_zero_files() {
    let payload = build_payload("abc", "s.log", &[]);
    let (header, files) = parse_container(&payload).unwrap();
    assert_eq!(header.file_count, 0);
    assert!(files.is_empty());
}

#[test]
fn zero_run_padding_between_fields_is_skipped() {
    // extra alignment zeros after each string terminator
    let mut v: Vec<u8> = Vec::new();
    v.extend_from_slice(b"CR1");
    let cid = delim_string("id");
    v.extend_from_slice(&cid);
    v.extend_from_slice(&[0, 0, 0]);
    let src = delim_string("s.log");
    v.extend_from_slice(&src);
    v.extend_from_slice(&[0, 0]);
    let size_pos = v.len();
    v.extend_from_slice(&[0, 0, 0, 0]);
    v.push(1);
    v.extend_from_slice(&[0, 0]);
    let nm = delim_string("f.bin");
    v.extend_from_slice(&nm);
    v.extend_from_slice(&[0, 0, 0, 0, 0]);
    v.extend_from_slice(&3u32.to_le_bytes());
    v.extend_from_slice(b"xyz");
    let total = v.len() as u32;
    v[size_pos..size_pos + 4].copy_from_slice(&total.to_le_bytes());
    let (header, files) = parse_container(&v).unwrap();
    assert_eq!(header.crash_id, "id");
    assert_eq!(header.source_filename, "s.log");
    assert_eq!(files.len(), 1);
    assert_eq!(files[0].name, "f.bin");
    assert_eq!(&v[files[0].offset..files[0].offset + files[0].len], b"xyz");
}
