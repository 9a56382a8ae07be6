use crate::container::{
    bytes_to_string, files_view, parse_container, spec_parse, ContainerHeader, File, FileV,
    HeaderV,
};
use crate::crash_overview::{
    file_names, find_crash_context, spec_crash_context_name, spec_first_occurrence, spec_has_file,
    CrashOverview,
};
use crate::decompress::{decompress, zlib_inflate};
use crate::errors::ReportError;
use crate::markup::{
    markup_events, spec_callstack_path, spec_error_path, spec_extract, spec_user_description_path,
};
use vstd::prelude::*;
use vstd::slice::{slice_subrange, slice_to_vec};
use vstd::utf8::{decode_utf8, valid_utf8};

verus! {

/// What one ingest decides structurally: inflate the upload, parse the
/// container, and demand the designated crash-context markup file.
pub open spec fn spec_ingest(data: Seq<u8>) -> Result<(HeaderV, Seq<FileV>), ReportError> {
    match zlib_inflate(data) {
        None => Err(ReportError::DecompressionFailure),
        Some(payload) => match spec_parse(payload) {
            Err(e) => Err(e),
            Ok((header, files)) => if !spec_has_file(files, spec_crash_context_name()) {
                Err(ReportError::RequiredFileMissing)
            } else {
                Ok((header, files))
            },
        },
    }
}

/// The text fields the record must carry given the designated file's
/// content bytes: the markup extraction when the bytes are UTF-8, empty
/// fields otherwise (a markup-level fault degrades, it does not reject).
pub open spec fn spec_overview_text(ov: CrashOverview, content: Seq<u8>) -> bool {
    if valid_utf8(content) {
        let evs = markup_events(decode_utf8(content));
        &&& ov.error@ == spec_extract(evs, spec_error_path())
        &&& ov.callstack@ == spec_extract(evs, spec_callstack_path())
        &&& ov.user_description@ == spec_extract(evs, spec_user_description_path())
    } else {
        &&& ov.error@ == Seq::<char>::empty()
        &&& ov.callstack@ == Seq::<char>::empty()
        &&& ov.user_description@ == Seq::<char>::empty()
    }
}

/// One complete ingest: decompress the upload, parse the container, and
/// build the diagnostic record from the designated crash-context file.
/// Structural failures reject the whole report with the taxonomy kind
/// `spec_ingest` assigns; on success the record's text fields are the
/// extraction of the designated file's content and `overview.files`
/// lists the embedded files' names in parse order.
pub fn process_crash_report(data: &[u8]) -> (r: Result<
    (ContainerHeader, Vec<File>, CrashOverview),
    ReportError,
>)
    ensures
        match r {
            Ok((header, files, overview)) => {
                &&& spec_ingest(data@) == Ok::<(HeaderV, Seq<FileV>), ReportError>(
                    (header@, files_view(files@)),
                )
                &&& forall|k: int|
                    spec_first_occurrence(files_view(files@), spec_crash_context_name(), k)
                        ==> spec_overview_text(
                        overview,
                        zlib_inflate(data@)->Some_0.subrange(
                            files_view(files@)[k].offset,
                            files_view(files@)[k].offset + files_view(files@)[k].len,
                        ),
                    )
                &&& overview.files@.len() == files@.len()
                &&& forall|i: int|
                    0 <= i < files@.len() ==> (#[trigger] overview.files@[i])@
                        == files@[i].name@
            },
            Err(e) => spec_ingest(data@) == Err::<(HeaderV, Seq<FileV>), ReportError>(e),
        },
{
    let payload = match decompress(data) {
        Ok(v) => v,
        Err(e) => {
            return Err(e);
        },
    };
    let (header, files) = match parse_container(payload.as_slice()) {
        Ok(v) => v,
        Err(e) => {
            return Err(e);
        },
    };
    let idx = match find_crash_context(&files) {
        Ok(i) => i,
        Err(e) => {
            return Err(e);
        },
    };
    proof {
        let fv = files_view(files@);
        assert(fv[idx as int].name == spec_crash_context_name());
        assert(spec_has_file(fv, spec_crash_context_name()));
        assert(fv[idx as int] == files@[idx as int]@);
    }
    let f_off = files[idx].offset;
    let f_len = files[idx].len;
    let content = slice_subrange(payload.as_slice(), f_off, f_off + f_len);
    let overview = match bytes_to_string(slice_to_vec(content)) {
        Some(xml) => CrashOverview::parse(xml.as_str(), &files),
        None => CrashOverview {
            error: String::new(),
            callstack: String::new(),
            user_description: String::new(),
            files: file_names(&files),
        },
    };
    proof {
        let fv = files_view(files@);
        let pl = payload@;
        assert forall|k: int|
            spec_first_occurrence(fv, spec_crash_context_name(), k) implies spec_overview_text(
            overview,
            zlib_inflate(data@)->Some_0.subrange(fv[k].offset, fv[k].offset + fv[k].len),
        ) by {
            if k < idx as int {
                assert(fv[k].name != spec_crash_context_name());
            }
            if k > idx as int {
                assert(fv[idx as int].name != spec_crash_context_name());
            }
            assert(k == idx as int);
            assert(zlib_inflate(data@)->Some_0 == pl);
            assert(content@ == pl.subrange(fv[k].offset, fv[k].offset + fv[k].len));
        }
    }
    Ok((header, files, overview))
}

} // verus!
