//! Core logic of a minimal HTTP/1.1 static file server.
//!
//! The library works on plain byte sequences: it parses the request line of
//! an HTTP request, resolves the requested path against an ordered list of
//! candidate filesystem locations, infers a content type from the file
//! extension, and frames a byte-exact HTTP response.  All socket and
//! filesystem I/O stays outside the library; callers hand in the bytes they
//! read and the outcome of their existence checks, and get response bytes
//! back.

pub mod bytes;
pub mod request;
pub mod resolve;
pub mod response;
