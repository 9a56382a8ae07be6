use crash_report::container::parse_container;
use crash_report::errors::ReportError;
use crash_report::locator::locate;

fn delim_string(s: &str) -> Vec<u8> {
    let mut v: Vec<u8> = vec![0x04, 0x01, 0x00, 0x00];
    v.extend_from_slice(s.as_bytes());
    v.push(0);
    v
}

fn build_payload(crash_id: &str, source: &str, files: &[(&str, &[u8])]) -> Vec<u8> {
    let mut v: Vec<u8> = Vec::new();
    v.extend_from_slice(b"CR1");
    let cid = delim_string(crash_id);
    v.extend_from_slice(&cid);
    let src = delim_string(source);
    v.extend_from_slice(&src);
    let size_pos = v.len();
    v.extend_from_slice(&[0, 0, 0, 0]);
    v.push(files.len() as u8);
    for (i, (name, content)) in files.iter().enumerate() {
        let nm = delim_string(name);
        v.extend_from_slice(&nm);
        v.extend_from_slice(&(content.len() as u32).to_le_bytes());
        v.extend_from_slice(content);
        if i + 1 != files.len() {
            v.extend_from_slice(&[7, 7, 7, 7]);
        }
    }
    let total = v.len() as u32;
    v[size_pos..size_pos + 4].copy_from_slice(&total.to_le_bytes());
    v
}

#[test]
fn locate_agrees_with_full_parse() {
    let xml = b"<FGenericCrashContext></FGenericCrashContext>";
    let payload = build_payload(
        "abc123",
        "x.log",
        &[("minidump.dmp", b"MDMP data"), ("CrashContext.runtime-xml", xml)],
    );
    let (offset, len) = locate(&payload, b"CrashContext.runtime-xml").unwrap();

    let (_, files) = parse_container(&payload).unwrap();
    let parsed = files
        .iter()
        .find(|f| f.name == "CrashContext.runtime-xml")
        .unwrap();
    assert_eq!(
        &payload[offset..offset + len],
        &payload[parsed.offset..parsed.offset + parsed.len]
    );
    assert_eq!(&payload[offset..offset + len], xml.as_slice());
}

#[test]
fn locate_absent_name_is_required_file_missing() {
    let payload = build_payload("abc123", "x.log", &[("other.txt", b"hello")]);
    assert!(matches!(
        locate(&payload, b"CrashContext.runtime-xml"),
        Err(ReportError::RequiredFileMissing)
    ));
}

#[test]
fn locate_truncated_record_is_truncated_input() {
    // the filename bytes occur, but the payload ends before a length field
    let mut v: Vec<u8> = Vec::new();
    v.extend_from_slice(b"junkjunk");
    v.extend_from_slice(b"target.bin");
    v.push(0);
    assert!(matches!(
        locate(&v, b"target.bin"),
        Err(ReportError::TruncatedInput)
    ));
}

#[test]
fn locate_reads_length_after_zero_run() {
    // filename, a run of zero padding, a little-endian length, then content
    let mut v: Vec<u8> = Vec::new();
    v.extend_from_slice(b"f.bin");
    v.extend_from_slice(&[0, 0, 0]);
    v.extend_from_slice(&5u32.to_le_bytes());
    v.extend_from_slice(b"hello");
    v.extend_from_slice(b"rest");
    let (offset, len) = locate(&v, b"f.bin").unwrap();
    assert_eq!(&v[offset..offset + len], b"hello");
}
