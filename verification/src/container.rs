use crate::errors::ReportError;
use vstd::prelude::*;
use vstd::utf8::{decode_utf8, valid_utf8};

verus! {

// ---------------------------------------------------------------------------
// Mathematical model of the container grammar.
//
// The payload is read strictly left to right with an integer cursor:
// a three-byte magic tag, then two delimiter-framed strings (crash id and
// source filename) each followed by a zero-run skip, a little-endian u32
// that must equal the payload length, a file count byte, another zero-run
// skip, and finally `file_count` file records.  Each record is a framed
// filename, a zero-run skip, a little-endian u32 content length, the
// content bytes, and — for every record but the last — an opaque four-byte
// trailer that is skipped without validation.
// ---------------------------------------------------------------------------

/// Header fields recovered from a container payload.
pub ghost struct HeaderV {
    pub crash_id: Seq<char>,
    pub source_filename: Seq<char>,
    pub declared_size: int,
    pub file_count: int,
}

/// An embedded file: a name and a content byte range into the payload.
pub ghost struct FileV {
    pub name: Seq<char>,
    pub offset: int,
    pub len: int,
}

/// First index at or after `pos` holding a non-zero byte, capped at the end.
pub open spec fn spec_skip_zeros(s: Seq<u8>, pos: int) -> int
    decreases s.len() - pos when 0 <= pos <= s.len()
{
    if pos >= s.len() {
        s.len() as int
    } else if s[pos] == 0 {
        spec_skip_zeros(s, pos + 1)
    } else {
        pos
    }
}

/// First index at or after `pos` holding a zero byte; `s.len()` when none.
pub open spec fn spec_find_nul(s: Seq<u8>, pos: int) -> int
    decreases s.len() - pos when 0 <= pos <= s.len()
{
    if pos >= s.len() {
        s.len() as int
    } else if s[pos] == 0 {
        pos
    } else {
        spec_find_nul(s, pos + 1)
    }
}

/// The little-endian 32-bit value stored at `pos`.
pub open spec fn spec_le_u32(s: Seq<u8>, pos: int) -> int
    recommends
        0 <= pos,
        pos + 4 <= s.len(),
{
    s[pos] + s[pos + 1] * 0x100 + s[pos + 2] * 0x10000 + s[pos + 3] * 0x1000000
}

/// The fixed four-byte marker that opens every delimited string field.
pub open spec fn spec_has_marker(s: Seq<u8>, pos: int) -> bool
    recommends
        0 <= pos,
        pos + 4 <= s.len(),
{
    s[pos] == 0x04 && s[pos + 1] == 0x01 && s[pos + 2] == 0x00 && s[pos + 3] == 0x00
}

/// Reads one delimited string field at `pos`: the four-byte marker, then
/// UTF-8 bytes up to (not including) a NUL terminator.  On success the
/// returned cursor sits exactly on the terminator byte.
pub open spec fn spec_read_string(s: Seq<u8>, pos: int) -> Result<(Seq<char>, int), ReportError>
    recommends
        0 <= pos,
{
    if pos + 4 > s.len() {
        Err(ReportError::TruncatedInput)
    } else if !spec_has_marker(s, pos) {
        Err(ReportError::DelimiterMismatch)
    } else {
        let nul = spec_find_nul(s, pos + 4);
        if nul >= s.len() {
            Err(ReportError::TruncatedInput)
        } else {
            let bytes = s.subrange(pos + 4, nul);
            if valid_utf8(bytes) {
                Ok((decode_utf8(bytes), nul))
            } else {
                Err(ReportError::DelimiterMismatch)
            }
        }
    }
}

/// Parses the payload up to (not including) the declared-size field:
/// magic tag, crash id, padding, source filename, padding.  Returns the
/// two strings and the cursor at which the size field starts.
pub open spec fn spec_parse_pre_size(s: Seq<u8>) -> Result<(Seq<char>, Seq<char>, int), ReportError> {
    if s.len() < 3 {
        Err(ReportError::TruncatedInput)
    } else if !(s[0] == 0x43 && s[1] == 0x52 && s[2] == 0x31) {
        Err(ReportError::MalformedHeader)
    } else {
        match spec_read_string(s, 3) {
            Err(e) => Err(e),
            Ok((crash_id, p1)) => {
                let p2 = spec_skip_zeros(s, p1);
                match spec_read_string(s, p2) {
                    Err(e) => Err(e),
                    Ok((source_filename, p3)) => Ok(
                        (crash_id, source_filename, spec_skip_zeros(s, p3)),
                    ),
                }
            },
        }
    }
}

/// Parses `n` file records starting at `pos`.  Each record is a framed
/// filename, a zero-run skip, a little-endian content length, the content
/// bytes, and — except after the last record — an opaque four-byte trailer.
pub open spec fn spec_parse_files(s: Seq<u8>, pos: int, n: int) -> Result<
    (Seq<FileV>, int),
    ReportError,
>
    recommends
        0 <= pos <= s.len(),
    decreases n,
{
    if n <= 0 {
        Ok((Seq::empty(), pos))
    } else {
        match spec_read_string(s, pos) {
            Err(e) => Err(e),
            Ok((name, p1)) => {
                let p2 = spec_skip_zeros(s, p1);
                if p2 + 4 > s.len() {
                    Err(ReportError::TruncatedInput)
                } else {
                    let clen = spec_le_u32(s, p2);
                    let start = p2 + 4;
                    if start + clen > s.len() {
                        Err(ReportError::TruncatedInput)
                    } else {
                        let after = if n > 1 {
                            start + clen + 4
                        } else {
                            start + clen
                        };
                        if after > s.len() {
                            Err(ReportError::TruncatedInput)
                        } else {
                            match spec_parse_files(s, after, n - 1) {
                                Err(e) => Err(e),
                                Ok((rest, end)) => Ok(
                                    (seq![FileV { name, offset: start, len: clen }] + rest, end),
                                ),
                            }
                        }
                    }
                }
            },
        }
    }
}

/// The whole container grammar: header, size check, file count, file list.
pub open spec fn spec_parse(s: Seq<u8>) -> Result<(HeaderV, Seq<FileV>), ReportError> {
    match spec_parse_pre_size(s) {
        Err(e) => Err(e),
        Ok((crash_id, source_filename, p)) => {
            if p + 4 > s.len() {
                Err(ReportError::TruncatedInput)
            } else if spec_le_u32(s, p) != s.len() {
                Err(ReportError::SizeMismatch)
            } else if p + 4 >= s.len() {
                Err(ReportError::TruncatedInput)
            } else {
                let count = s[p + 4];
                let p2 = spec_skip_zeros(s, p + 5);
                match spec_parse_files(s, p2, count as int) {
                    Err(e) => Err(e),
                    Ok((files, _end)) => Ok(
                        (
                            HeaderV {
                                crash_id,
                                source_filename,
                                declared_size: spec_le_u32(s, p),
                                file_count: count as int,
                            },
                            files,
                        ),
                    ),
                }
            }
        },
    }
}

// ---------------------------------------------------------------------------
// Executable types.
// ---------------------------------------------------------------------------

/// An embedded file recovered from a container payload: its name and the
/// byte range (offset and length) of its content within the payload.
pub struct File {
    pub name: String,
    pub offset: usize,
    pub len: usize,
}

impl View for File {
    type V = FileV;

    open spec fn view(&self) -> FileV {
        FileV { name: self.name@, offset: self.offset as int, len: self.len as int }
    }
}

/// The container header: crash id, source filename, declared payload size
/// and number of embedded files.
pub struct ContainerHeader {
    pub crash_id: String,
    pub source_filename: String,
    pub declared_size: u32,
    pub file_count: u8,
}

impl View for ContainerHeader {
    type V = HeaderV;

    open spec fn view(&self) -> HeaderV {
        HeaderV {
            crash_id: self.crash_id@,
            source_filename: self.source_filename@,
            declared_size: self.declared_size as int,
            file_count: self.file_count as int,
        }
    }
}

/// The views of a parsed file list, in order.
pub open spec fn files_view(files: Seq<File>) -> Seq<FileV> {
    files.map_values(|f: File| f@)
}

// ---------------------------------------------------------------------------
// Bounds lemmas for the cursor primitives.
// ---------------------------------------------------------------------------

pub proof fn lemma_skip_zeros_bounds(s: Seq<u8>, pos: int)
    requires
        0 <= pos <= s.len(),
    ensures
        pos <= spec_skip_zeros(s, pos) <= s.len(),
        forall|i: int| pos <= i < spec_skip_zeros(s, pos) ==> s[i] == 0,
        spec_skip_zeros(s, pos) < s.len() ==> s[spec_skip_zeros(s, pos)] != 0,
    decreases s.len() - pos,
{
    if pos < s.len() && s[pos] == 0 {
        lemma_skip_zeros_bounds(s, pos + 1);
    }
}

pub proof fn lemma_find_nul_bounds(s: Seq<u8>, pos: int)
    requires
        0 <= pos <= s.len(),
    ensures
        pos <= spec_find_nul(s, pos) <= s.len(),
        forall|i: int| pos <= i < spec_find_nul(s, pos) ==> s[i] != 0,
        spec_find_nul(s, pos) < s.len() ==> s[spec_find_nul(s, pos)] == 0,
    decreases s.len() - pos,
{
    if pos < s.len() && s[pos] != 0 {
        lemma_find_nul_bounds(s, pos + 1);
    }
}

/// A successful string read leaves the cursor strictly inside the payload,
/// at or after `pos + 4`.
pub proof fn lemma_read_string_bounds(s: Seq<u8>, pos: int)
    requires
        0 <= pos,
        spec_read_string(s, pos) is Ok,
    ensures
        pos + 4 <= spec_read_string(s, pos)->Ok_0.1 < s.len(),
{
    lemma_find_nul_bounds(s, pos + 4);
}

// ---------------------------------------------------------------------------
// Executable parser.
// ---------------------------------------------------------------------------

/// Relies on `String::from_utf8`: it succeeds exactly on valid UTF-8 input
/// and returns the string those bytes encode.
#[verifier::external_body]
pub(crate) fn bytes_to_string(bytes: Vec<u8>) -> (r: Option<String>)
    ensures
        r is Some <==> valid_utf8(bytes@),
        r matches Some(st) ==> st@ == decode_utf8(bytes@),
{
    String::from_utf8(bytes).ok()
}

/// Length of the zero run that opens `content`: how far the cursor must
/// advance past terminators and alignment filler to reach the next field.
pub fn advance_to_next_item(content: &[u8]) -> (n: usize)
    ensures
        n as int == spec_skip_zeros(content@, 0),
{
    skip_zeros(content, 0)
}

/// Advances the cursor past every consecutive zero byte starting at `pos`.
pub fn skip_zeros(content: &[u8], pos: usize) -> (n: usize)
    requires
        pos <= content@.len(),
    ensures
        n as int == spec_skip_zeros(content@, pos as int),
        pos <= n <= content@.len(),
        n < content@.len() ==> content@[n as int] != 0,
{
    let mut i: usize = pos;
    while i < content.len() && content[i] == 0
        invariant
            pos <= i <= content@.len(),
            spec_skip_zeros(content@, pos as int) == spec_skip_zeros(content@, i as int),
        decreases content@.len() - i,
    {
        i = i + 1;
    }
    proof {
        lemma_skip_zeros_bounds(content@, i as int);
    }
    i
}

/// Reads one delimited string field at `pos`.  On success the returned
/// cursor sits exactly on the NUL terminator; the caller must skip it.
pub fn read_string(content: &[u8], pos: usize) -> (r: Result<(String, usize), ReportError>)
    ensures
        match r {
            Ok((val, new_pos)) => spec_read_string(content@, pos as int) == Ok::<
                (Seq<char>, int),
                ReportError,
            >((val@, new_pos as int)) && pos <= new_pos < content@.len(),
            Err(e) => spec_read_string(content@, pos as int) == Err::<
                (Seq<char>, int),
                ReportError,
            >(e),
        },
{
    let n = content.len();
    if pos > n || n - pos < 4 {
        return Err(ReportError::TruncatedInput);
    }
    if !(content[pos] == 0x04 && content[pos + 1] == 0x01 && content[pos + 2] == 0x00 && content[pos
        + 3] == 0x00) {
        return Err(ReportError::DelimiterMismatch);
    }
    let mut i: usize = pos + 4;
    while i < n && content[i] != 0
        invariant
            pos + 4 <= i <= n == content@.len(),
            spec_find_nul(content@, pos + 4) == spec_find_nul(content@, i as int),
        decreases content@.len() - i,
    {
        i = i + 1;
    }
    proof {
        lemma_find_nul_bounds(content@, i as int);
    }
    if i == n {
        return Err(ReportError::TruncatedInput);
    }
    let mut bytes: Vec<u8> = Vec::new();
    let mut j: usize = pos + 4;
    while j < i
        invariant
            pos + 4 <= j <= i < content@.len(),
            bytes@ == content@.subrange(pos + 4, j as int),
        decreases i - j,
    {
        bytes.push(content[j]);
        proof {
            assert(bytes@ =~= content@.subrange(pos + 4, j + 1));
        }
        j = j + 1;
    }
    match bytes_to_string(bytes) {
        Some(val) => Ok((val, i)),
        None => Err(ReportError::DelimiterMismatch),
    }
}

/// Reads the little-endian u32 stored at `pos`.
pub(crate) fn read_le_u32(content: &[u8], pos: usize) -> (v: u32)
    requires
        pos + 4 <= content@.len(),
    ensures
        v as int == spec_le_u32(content@, pos as int),
{
    let b0 = content[pos] as u32;
    let b1 = content[pos + 1] as u32;
    let b2 = content[pos + 2] as u32;
    let b3 = content[pos + 3] as u32;
    b0 + b1 * 0x100 + b2 * 0x10000 + b3 * 0x1000000
}

/// Parses `number_of_files` file records starting at `start`, in order.
pub fn extract_files(content: &[u8], start: usize, number_of_files: u8) -> (r: Result<
    (Vec<File>, usize),
    ReportError,
>)
    requires
        start <= content@.len(),
    ensures
        match r {
            Ok((files, end)) => spec_parse_files(content@, start as int, number_of_files as int)
                == Ok::<(Seq<FileV>, int), ReportError>((files_view(files@), end as int)) && end
                <= content@.len(),
            Err(e) => spec_parse_files(content@, start as int, number_of_files as int) == Err::<
                (Seq<FileV>, int),
                ReportError,
            >(e),
        },
{
    let n = content.len();
    let mut files: Vec<File> = Vec::new();
    let mut pos: usize = start;
    let mut idx: u8 = 0;
    while idx < number_of_files
        invariant
            idx <= number_of_files,
            pos <= n == content@.len(),
            match spec_parse_files(content@, pos as int, number_of_files - idx) {
                Ok((rest, end)) => spec_parse_files(
                    content@,
                    start as int,
                    number_of_files as int,
                ) == Ok::<(Seq<FileV>, int), ReportError>((files_view(files@) + rest, end)),
                Err(e) => spec_parse_files(content@, start as int, number_of_files as int) == Err::<
                    (Seq<FileV>, int),
                    ReportError,
                >(e),
            },
        decreases number_of_files - idx,
    {
        let ghost remaining = number_of_files - idx;
        let (name, p1) = match read_string(content, pos) {
            Ok(v) => v,
            Err(e) => {
                return Err(e);
            },
        };
        let p2 = skip_zeros(content, p1);
        if n - p2 < 4 {
            return Err(ReportError::TruncatedInput);
        }
        let clen = read_le_u32(content, p2);
        let cstart = p2 + 4;
        let clen_us = clen as usize;
        if n - cstart < clen_us {
            return Err(ReportError::TruncatedInput);
        }
        let cend = cstart + clen_us;
        let next_pos: usize;
        if idx < number_of_files - 1 {
            if n - cend < 4 {
                return Err(ReportError::TruncatedInput);
            }
            next_pos = cend + 4;
        } else {
            next_pos = cend;
        }
        let ghost old_files = files@;
        files.push(File { name, offset: cstart, len: clen_us });
        proof {
            let s = content@;
            assert(files_view(files@) =~= files_view(old_files) + seq![
                File { name: files@[old_files.len() as int].name, offset: cstart, len: clen_us }@,
            ]);
            match spec_parse_files(s, next_pos as int, remaining - 1) {
                Ok((rest, end)) => {
                    assert(files_view(old_files) + (seq![
                        files@[old_files.len() as int]@,
                    ] + rest) =~= files_view(files@) + rest);
                },
                Err(_) => {},
            }
        }
        pos = next_pos;
        idx = idx + 1;
    }
    proof {
        assert(files_view(files@) + Seq::<FileV>::empty() =~= files_view(files@));
    }
    Ok((files, pos))
}

/// Parses a decompressed payload into its header and ordered embedded-file
/// list.  The result is exactly what the container grammar (`spec_parse`)
/// assigns to the bytes; on success every content range lies within the
/// payload.
pub fn parse_container(payload: &[u8]) -> (r: Result<(ContainerHeader, Vec<File>), ReportError>)
    ensures
        match r {
            Ok((header, files)) => spec_parse(payload@) == Ok::<
                (HeaderV, Seq<FileV>),
                ReportError,
            >((header@, files_view(files@))) && forall|i: int|
                0 <= i < files@.len() ==> (#[trigger] files@[i]).offset + files@[i].len
                    <= payload@.len(),
            Err(e) => spec_parse(payload@) == Err::<(HeaderV, Seq<FileV>), ReportError>(e),
        },
{
    let n = payload.len();
    if n < 3 {
        return Err(ReportError::TruncatedInput);
    }
    if !(payload[0] == 0x43 && payload[1] == 0x52 && payload[2] == 0x31) {
        return Err(ReportError::MalformedHeader);
    }
    let (crash_id, q1) = match read_string(payload, 3) {
        Ok(v) => v,
        Err(e) => {
            return Err(e);
        },
    };
    let q2 = skip_zeros(payload, q1);
    let (source_filename, q3) = match read_string(payload, q2) {
        Ok(v) => v,
        Err(e) => {
            return Err(e);
        },
    };
    let p = skip_zeros(payload, q3);
    if n - p < 4 {
        return Err(ReportError::TruncatedInput);
    }
    let declared_size = read_le_u32(payload, p);
    if declared_size as usize != n {
        return Err(ReportError::SizeMismatch);
    }
    if p + 4 >= n {
        return Err(ReportError::TruncatedInput);
    }
    let file_count = payload[p + 4];
    let p2 = skip_zeros(payload, p + 5);
    let (files, end) = match extract_files(payload, p2, file_count) {
        Ok(v) => v,
        Err(e) => {
            return Err(e);
        },
    };
    proof {
        lemma_parse_files_ranges(payload@, p2 as int, file_count as int);
        let fv = files_view(files@);
        let fend = spec_parse_files(payload@, p2 as int, file_count as int)->Ok_0.1;
        assert forall|i: int|
            0 <= i < files@.len() implies (#[trigger] files@[i]).offset + files@[i].len
            <= payload@.len() by {
            assert(fv[i] == files@[i]@);
            assert(fv[i].offset + fv[i].len <= fend);
        }
        let _ = end;
    }
    Ok((
        ContainerHeader { crash_id, source_filename, declared_size, file_count },
        files,
    ))
}

// ---------------------------------------------------------------------------
// Structural laws of the file list.
// ---------------------------------------------------------------------------

/// A successful file-list parse yields exactly `n` records; every content
/// range starts at or after the cursor the parse began at, ends at or
/// before the cursor it finished at, sits four bytes after its own length
/// field, and the ranges are mutually disjoint in declaration order.
pub proof fn lemma_parse_files_ranges(s: Seq<u8>, pos: int, n: int)
    requires
        0 <= pos <= s.len(),
        spec_parse_files(s, pos, n) is Ok,
    ensures
        ({
            let (files, end) = spec_parse_files(s, pos, n)->Ok_0;
            &&& files.len() == if n <= 0 {
                0
            } else {
                n
            }
            &&& pos <= end <= s.len()
            &&& forall|i: int|
                0 <= i < files.len() ==> pos + 4 <= (#[trigger] files[i]).offset && files[i].offset
                    + files[i].len <= end
            &&& forall|i: int|
                0 <= i < files.len() ==> (#[trigger] files[i]).len == spec_le_u32(
                    s,
                    files[i].offset - 4,
                )
            &&& forall|i: int, j: int|
                0 <= i < j < files.len() ==> (#[trigger] files[i]).offset + files[i].len
                    <= (#[trigger] files[j]).offset
        }),
    decreases n,
{
    if n > 0 {
        let (name, p1) = spec_read_string(s, pos)->Ok_0;
        lemma_read_string_bounds(s, pos);
        lemma_skip_zeros_bounds(s, p1);
        let p2 = spec_skip_zeros(s, p1);
        let clen = spec_le_u32(s, p2);
        let start = p2 + 4;
        let after = if n > 1 {
            start + clen + 4
        } else {
            start + clen
        };
        lemma_parse_files_ranges(s, after, n - 1);
    }
}

/// Law: a payload whose declared size differs from its byte length is
/// rejected with `SizeMismatch`, whatever the rest of the payload holds.
pub proof fn lemma_size_mismatch(s: Seq<u8>)
    requires
        spec_parse_pre_size(s) is Ok,
        spec_parse_pre_size(s)->Ok_0.2 + 4 <= s.len(),
        spec_le_u32(s, spec_parse_pre_size(s)->Ok_0.2) != s.len(),
    ensures
        spec_parse(s) == Err::<(HeaderV, Seq<FileV>), ReportError>(ReportError::SizeMismatch),
{
}

/// Law: a successful parse of a container that declares `n` embedded files
/// yields exactly `n` of them, in declaration order, each carrying the
/// content length its own record declared, with every content range inside
/// the payload, past the header region, and mutually disjoint.
pub proof fn lemma_parse_files_disjoint(s: Seq<u8>)
    requires
        spec_parse(s) is Ok,
    ensures
        ({
            let (header, files) = spec_parse(s)->Ok_0;
            &&& files.len() == header.file_count
            &&& forall|i: int|
                0 <= i < files.len() ==> 0 <= (#[trigger] files[i]).offset && files[i].offset
                    + files[i].len <= s.len()
            &&& forall|i: int|
                0 <= i < files.len() ==> (#[trigger] files[i]).offset >= spec_skip_zeros(
                    s,
                    spec_parse_pre_size(s)->Ok_0.2 + 5,
                ) + 4
            &&& forall|i: int|
                0 <= i < files.len() ==> (#[trigger] files[i]).len == spec_le_u32(
                    s,
                    files[i].offset - 4,
                )
            &&& forall|i: int, j: int|
                0 <= i < j < files.len() ==> (#[trigger] files[i]).offset + files[i].len
                    <= (#[trigger] files[j]).offset
        }),
{
    let (_, _, p) = spec_parse_pre_size(s)->Ok_0;
    let (_, q1) = spec_read_string(s, 3)->Ok_0;
    lemma_read_string_bounds(s, 3);
    lemma_skip_zeros_bounds(s, q1);
    let q2 = spec_skip_zeros(s, q1);
    lemma_read_string_bounds(s, q2);
    let (_, q3) = spec_read_string(s, q2)->Ok_0;
    lemma_skip_zeros_bounds(s, q3);
    let count = s[p + 4];
    lemma_skip_zeros_bounds(s, p + 5);
    let p2 = spec_skip_zeros(s, p + 5);
    lemma_parse_files_ranges(s, p2, count as int);
}

} // verus!
