use vstd::prelude::*;

verus! {

/// The failures that the library's operations report.
#[derive(Debug, Clone, PartialEq, Eq)]
pub enum NwtError {
    /// The buffer does not start with the magic token.
    FormatMismatch,
    /// The buffer is shorter than its header, table or points imply.
    TruncatedData,
    /// The metadata blob is not valid UTF-8.
    EncodingError,
    /// The metadata text is malformed, or disagrees with the binary layout.
    MetadataDecodeError(String),
    /// A source attribute is neither a string nor a sequence of strings.
    UnsupportedAttributeType,
    /// A variable that ingestion needs is absent from the dense source.
    MissingRequiredField,
    /// A lookup by name found nothing.
    NotFound,
    /// The storage layer failed.
    IoError(String),
}

} // verus!
