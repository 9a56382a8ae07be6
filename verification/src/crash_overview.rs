use crate::container::{files_view, File, FileV};
use crate::errors::ReportError;
use crate::markup::{
    extract_crash_text, markup_events, spec_callstack_path, spec_error_path, spec_extract,
    spec_user_description_path,
};
use vstd::prelude::*;
use vstd::string::StringExecFns;

verus! {

/// The designated crash-context markup filename.
pub open spec fn spec_crash_context_name() -> Seq<char> {
    "CrashContext.runtime-xml"@
}

/// `idx` is the first position in `files` whose name is `name`.
pub open spec fn spec_first_occurrence(files: Seq<FileV>, name: Seq<char>, idx: int) -> bool {
    &&& 0 <= idx < files.len()
    &&& files[idx].name == name
    &&& forall|j: int| 0 <= j < idx ==> (#[trigger] files[j]).name != name
}

/// Some file in the list carries `name`.
pub open spec fn spec_has_file(files: Seq<FileV>, name: Seq<char>) -> bool {
    exists|i: int| 0 <= i < files.len() && (#[trigger] files[i]).name == name
}

/// The diagnostic record derived from one crash report: three best-effort
/// text fields recovered from the crash-context markup, plus the names of
/// the embedded files in parse order.
pub struct CrashOverview {
    pub error: String,
    pub callstack: String,
    pub user_description: String,
    pub files: Vec<String>,
}

/// The embedded files' names, in parse order.
pub fn file_names(files: &Vec<File>) -> (r: Vec<String>)
    ensures
        r@.len() == files@.len(),
        forall|i: int| 0 <= i < files@.len() ==> (#[trigger] r@[i])@ == files@[i].name@,
{
    let mut names: Vec<String> = Vec::new();
    let mut i: usize = 0;
    while i < files.len()
        invariant
            i <= files@.len(),
            names@.len() == i,
            forall|j: int| 0 <= j < i ==> (#[trigger] names@[j])@ == files@[j].name@,
        decreases files@.len() - i,
    {
        names.push(files[i].name.clone());
        i = i + 1;
    }
    names
}

impl CrashOverview {
    /// Streams the crash-context markup and builds the record: each text
    /// field is exactly the concatenation, in document order, of the text
    /// fragments under its tag path; `files` lists the embedded files'
    /// names in parse order, independent of the markup content.
    pub fn parse(crash_context_xml: &str, files: &Vec<File>) -> (r: Self)
        ensures
            r.error@ == spec_extract(markup_events(crash_context_xml@), spec_error_path()),
            r.callstack@ == spec_extract(markup_events(crash_context_xml@), spec_callstack_path()),
            r.user_description@ == spec_extract(
                markup_events(crash_context_xml@),
                spec_user_description_path(),
            ),
            r.files@.len() == files@.len(),
            forall|i: int| 0 <= i < files@.len() ==> (#[trigger] r.files@[i])@ == files@[i].name@,
    {
        let (error, callstack, user_description) = extract_crash_text(crash_context_xml);
        CrashOverview { error, callstack, user_description, files: file_names(files) }
    }
}

/// Finds the designated crash-context markup file in the parsed list.
/// Its absence is a hard rejection of the ingest: `RequiredFileMissing`
/// comes back exactly when no embedded file carries the designated name.
pub fn find_crash_context(files: &Vec<File>) -> (r: Result<usize, ReportError>)
    ensures
        match r {
            Ok(idx) => spec_first_occurrence(
                files_view(files@),
                spec_crash_context_name(),
                idx as int,
            ),
            Err(e) => e == ReportError::RequiredFileMissing && !spec_has_file(
                files_view(files@),
                spec_crash_context_name(),
            ),
        },
{
    let target = String::from_str("CrashContext.runtime-xml");
    let mut i: usize = 0;
    while i < files.len()
        invariant
            i <= files@.len(),
            target@ == spec_crash_context_name(),
            forall|j: int| 0 <= j < i ==> (#[trigger] files_view(files@)[j]).name
                != spec_crash_context_name(),
        decreases files@.len() - i,
    {
        if files[i].name.eq(&target) {
            proof {
                assert(files_view(files@)[i as int].name == spec_crash_context_name());
            }
            return Ok(i);
        }
        proof {
            assert(files_view(files@)[i as int].name != spec_crash_context_name());
        }
        i = i + 1;
    }
    Err(ReportError::RequiredFileMissing)
}

} // verus!
