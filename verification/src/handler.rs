//! Translates one HTTP request into planned file writes and a response:
//! a request whose headers yield no boundary is rejected with 400 before
//! the body is read; otherwise the body is processed and the outcome maps
//! to 200 with a fixed acknowledgement or 500 with the error's category.
use vstd::prelude::*;
use vstd::string::StringExecFns;

use crate::boundary::{parse_boundary, spec_parse_boundary};
use crate::bytes::opt_bytes;
use crate::errors::{spec_message, UploadError};
use crate::multipart::parse_body;
use crate::process::{file_views, process_body, processed, PlannedFile};

verus! {

/// A response: its status code and its textual body.
pub struct HttpResponse {
    pub status: u16,
    pub body: String,
}

/// The fixed body of the rejection response.
pub open spec fn bad_request_body() -> Seq<char> {
    "BAD REQUEST"@
}

/// The fixed body of the acknowledgement response.
pub open spec fn success_body() -> Seq<char> {
    "Success"@
}

/// The body of a failure response: a fixed prefix and the error's own
/// fixed description.
pub open spec fn failure_body(e: UploadError) -> Seq<char> {
    "INTERNAL SERVER ERROR: "@ + spec_message(e)
}

/// The 400 response sent when no boundary can be derived.
pub fn bad_request_response() -> (r: HttpResponse)
    ensures
        r.status == 400,
        r.body@ == bad_request_body(),
{
    HttpResponse { status: 400, body: String::from_str("BAD REQUEST") }
}

/// The 200 response sent once every part was written.
pub fn success_response() -> (r: HttpResponse)
    ensures
        r.status == 200,
        r.body@ == success_body(),
{
    HttpResponse { status: 200, body: String::from_str("Success") }
}

/// The 500 response for a processing or storage failure.
pub fn failure_response(e: &UploadError) -> (r: HttpResponse)
    ensures
        r.status == 500,
        r.body@ == failure_body(*e),
{
    let mut body = String::from_str("INTERNAL SERVER ERROR: ");
    body.append(e.message());
    HttpResponse { status: 500, body }
}

/// What handling a request decides before anything touches storage.
pub enum HandleOutcome {
    /// No boundary: answer 400 at once, the body unread, nothing written.
    Rejected(HttpResponse),
    /// A boundary was found: write these files, then report `error` if any.
    Process { files: Vec<PlannedFile>, error: Option<UploadError> },
}

/// Handles one request up to the storage edge. With no Content-Type header
/// or no boundary in it, the outcome is `Rejected` with the 400 response
/// and no file is planned. Otherwise the body is decoded against the
/// boundary and the planned files and first error are handed back.
pub fn handle_request(content_type: &Option<Vec<u8>>, body: &[u8]) -> (out: HandleOutcome)
    ensures
        (match out {
            HandleOutcome::Rejected(r) => {
                &&& (match opt_bytes(*content_type) {
                    None => true,
                    Some(h) => spec_parse_boundary(h) is None,
                })
                &&& r.status == 400
                &&& r.body@ == bad_request_body()
            },
            HandleOutcome::Process { files, error } => {
                &&& opt_bytes(*content_type) is Some
                &&& spec_parse_boundary(opt_bytes(*content_type)->Some_0) is Some
                &&& processed(
                    parse_body(
                        body@,
                        spec_parse_boundary(opt_bytes(*content_type)->Some_0)->Some_0,
                    ),
                    file_views(files@),
                    error,
                )
            },
        }),
{
    let header = match content_type {
        None => {
            return HandleOutcome::Rejected(bad_request_response());
        },
        Some(h) => h,
    };
    let boundary = match parse_boundary(header.as_slice()) {
        None => {
            return HandleOutcome::Rejected(bad_request_response());
        },
        Some(b) => b,
    };
    let out = process_body(body, boundary.as_slice());
    HandleOutcome::Process { files: out.files, error: out.error }
}

/// The response owed after the planned files were written: 500 naming the
/// storage failure if a write failed, else 500 naming the processing error
/// if there was one, else the 200 acknowledgement.
pub fn completion_response(write_failed: bool, error: &Option<UploadError>) -> (r:
    HttpResponse)
    ensures
        write_failed ==> r.status == 500 && r.body@ == failure_body(
            UploadError::StorageWriteFailure,
        ),
        !write_failed && error is Some ==> r.status == 500 && r.body@ == failure_body(
            error->0,
        ),
        !write_failed && error is None ==> r.status == 200 && r.body@ == success_body(),
{
    if write_failed {
        failure_response(&UploadError::StorageWriteFailure)
    } else {
        match error {
            Some(e) => failure_response(e),
            None => success_response(),
        }
    }
}

} // verus!
