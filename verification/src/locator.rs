use crate::container::{
    lemma_skip_zeros_bounds, read_le_u32, skip_zeros, spec_le_u32, spec_skip_zeros,
};
use crate::errors::ReportError;
use vstd::prelude::*;
use vstd::slice::slice_subrange;

verus! {

// ---------------------------------------------------------------------------
// On-demand retrieval of one embedded file's byte range.
//
// Instead of re-parsing the whole container, the locator scans the payload
// forward for the literal filename bytes and then re-applies the tail of a
// file record at that point: a zero-run skip, a little-endian content
// length, and the content bytes.  This is a targeted re-scan: a filename
// occurring as a byte substring elsewhere in the payload causes a false
// match, so callers needing strict correctness should parse the full
// container and index into its file list instead.
// ---------------------------------------------------------------------------

/// The pattern occurs at index `i` of `s`.
pub open spec fn spec_match_at(s: Seq<u8>, pat: Seq<u8>, i: int) -> bool {
    0 <= i && i + pat.len() <= s.len() && s.subrange(i, i + pat.len()) == pat
}

/// First index at or after `i` where the pattern occurs; `-1` when it
/// never does.
pub open spec fn spec_find_from(s: Seq<u8>, pat: Seq<u8>, i: int) -> int
    decreases s.len() - i when 0 <= i
{
    if i + pat.len() > s.len() {
        -1
    } else if spec_match_at(s, pat, i) {
        i
    } else if i >= s.len() {
        -1
    } else {
        spec_find_from(s, pat, i + 1)
    }
}

/// The byte range the locator grammar assigns to `pat` inside `s`: after
/// the first occurrence of the pattern, skip the zero run, read the
/// little-endian content length, and take that many bytes.
pub open spec fn spec_locate(s: Seq<u8>, pat: Seq<u8>) -> Result<(int, int), ReportError> {
    let m = spec_find_from(s, pat, 0);
    if m < 0 {
        Err(ReportError::RequiredFileMissing)
    } else {
        let p1 = spec_skip_zeros(s, m + pat.len());
        if p1 + 4 > s.len() {
            Err(ReportError::TruncatedInput)
        } else {
            let size = spec_le_u32(s, p1);
            let start = p1 + 4;
            if start + size > s.len() {
                Err(ReportError::TruncatedInput)
            } else {
                Ok((start, size))
            }
        }
    }
}

fn bytes_eq(a: &[u8], b: &[u8]) -> (r: bool)
    ensures
        r == (a@ == b@),
{
    if a.len() != b.len() {
        return false;
    }
    let mut k: usize = 0;
    while k < a.len()
        invariant
            k <= a@.len(),
            a@.len() == b@.len(),
            forall|j: int| 0 <= j < k ==> a@[j] == b@[j],
        decreases a@.len() - k,
    {
        if a[k] != b[k] {
            return false;
        }
        k = k + 1;
    }
    proof {
        assert(a@ =~= b@);
    }
    true
}

/// Recovers the content byte range of the embedded file whose name's bytes
/// first occur in `payload`, per the locator grammar (`spec_locate`):
/// `RequiredFileMissing` when the filename bytes never occur,
/// `TruncatedInput` when the record tail runs past the payload end.
pub fn locate(payload: &[u8], filename: &[u8]) -> (r: Result<(usize, usize), ReportError>)
    ensures
        match r {
            Ok((offset, len)) => spec_locate(payload@, filename@) == Ok::<
                (int, int),
                ReportError,
            >((offset as int, len as int)) && offset + len <= payload@.len(),
            Err(e) => spec_locate(payload@, filename@) == Err::<(int, int), ReportError>(e),
        },
{
    let n = payload.len();
    let plen = filename.len();
    let mut i: usize = 0;
    let mut found: bool = false;
    while !found && plen <= n && i <= n - plen
        invariant
            i <= n,
            n == payload@.len(),
            plen == filename@.len(),
            !found ==> spec_find_from(payload@, filename@, 0) == spec_find_from(
                payload@,
                filename@,
                i as int,
            ),
            found ==> i + plen <= n && spec_find_from(payload@, filename@, 0) == i as int,
        decreases
                n - i,
                (if found {
                    0int
                } else {
                    1int
                }),
    {
        let window = slice_subrange(payload, i, i + plen);
        if bytes_eq(window, filename) {
            found = true;
            proof {
                assert(spec_match_at(payload@, filename@, i as int));
            }
        } else {
            proof {
                if plen == 0 {
                    assert(window@ =~= filename@);
                }
                assert(!spec_match_at(payload@, filename@, i as int));
            }
            i = i + 1;
        }
    }
    if !found {
        proof {
            assert(spec_find_from(payload@, filename@, i as int) == -1);
        }
        return Err(ReportError::RequiredFileMissing);
    }
    let p1 = skip_zeros(payload, i + plen);
    if n - p1 < 4 {
        return Err(ReportError::TruncatedInput);
    }
    let size = read_le_u32(payload, p1);
    let start = p1 + 4;
    let size_us = size as usize;
    if n - start < size_us {
        return Err(ReportError::TruncatedInput);
    }
    proof {
        lemma_skip_zeros_bounds(payload@, i + plen);
    }
    Ok((start, size_us))
}

} // verus!
