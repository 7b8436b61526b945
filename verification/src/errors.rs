//! The failures the upload pipeline can report, as a closed set of
//! categories with fixed client-safe descriptions.
use vstd::prelude::*;

verus! {

/// Everything that can go wrong while ingesting one upload request.
#[derive(Clone, Copy, Debug, PartialEq, Eq, Structural)]
pub enum UploadError {
    /// No usable boundary parameter could be read from the request headers.
    MissingBoundary,
    /// The body does not follow boundary-delimited multipart framing.
    MalformedBody,
    /// A part declares no content type, so no extension can be derived.
    MissingContentType,
    /// A part declares a content type without a usable `type/subtype` shape.
    MalformedContentType,
    /// Persisting a buffered part to storage failed.
    StorageWriteFailure,
}

/// The fixed description attached to each error category.
pub open spec fn spec_message(e: UploadError) -> Seq<char> {
    match e {
        UploadError::MissingBoundary => "no multipart boundary in the request headers"@,
        UploadError::MalformedBody => "malformed multipart body"@,
        UploadError::MissingContentType => "a part declares no content type"@,
        UploadError::MalformedContentType => "a part declares a malformed content type"@,
        UploadError::StorageWriteFailure => "writing an uploaded file failed"@,
    }
}

impl UploadError {
    /// A fixed, client-safe description of the error category; internal
    /// detail is never echoed to callers.
    pub fn message(&self) -> (m: &'static str)
        ensures
            m@ == spec_message(*self),
    {
        match self {
            UploadError::MissingBoundary => "no multipart boundary in the request headers",
            UploadError::MalformedBody => "malformed multipart body",
            UploadError::MissingContentType => "a part declares no content type",
            UploadError::MalformedContentType => "a part declares a malformed content type",
            UploadError::StorageWriteFailure => "writing an uploaded file failed",
        }
    }
}

} // verus!
