use vstd::prelude::*;

verus! {

/// Failure taxonomy of the crash-report pipeline.
///
/// Everything at or before the container-structure level
/// (`MalformedHeader` through `SizeMismatch`, and `TruncatedInput`)
/// aborts an ingest with no partial result; diagnostic-markup trouble
/// (`MarkupParseError`) is recovered locally by the extractor, which
/// degrades to whatever text it had already accumulated.
#[derive(Clone, Copy, Debug, PartialEq, Eq, Structural)]
pub enum ReportError {
    /// The compressed upload could not be inflated.
    DecompressionFailure,
    /// The payload does not start with the fixed magic tag.
    MalformedHeader,
    /// A delimited string field is malformed: its four-byte marker is
    /// wrong, or its bytes are not valid UTF-8.
    DelimiterMismatch,
    /// Index arithmetic ran past the end of the payload.
    TruncatedInput,
    /// The declared size field differs from the payload's byte length.
    SizeMismatch,
    /// The designated crash-context markup file is absent.
    RequiredFileMissing,
    /// A markup fragment could not be parsed; extraction stops there.
    MarkupParseError,
}

} // verus!
