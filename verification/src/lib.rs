//! Verified core of a small multipart upload service: boundary extraction
//! from a Content-Type header, decomposition of a multipart body into parts,
//! derivation of a file name and extension for each part, and the mapping of
//! outcomes to HTTP status codes and bodies.
pub mod boundary;
pub mod bytes;
pub mod content_type;
pub mod errors;
pub mod handler;
pub mod multipart;
pub mod process;
pub mod token;
