//! The transfer executor's decisions: classifying the outcome of the HTTP
//! POST, extracting the paste key from the response, and deriving the
//! share link.
//!
//! The HTTP request itself is I/O and stays outside the library; callers
//! report what they observed as a [`PostOutcome`] and get back either the
//! share link or the error to print.

use crate::chars::chars_of;
use crate::chars::chars_to_string;
use crate::errors::HasteError;
use crate::json::lookup_exec;
use crate::json::parse_object_exec;
use crate::json::response_key;
use crate::options::Options;
use crate::replace::replace_chars;
use crate::replace::replaced;
use vstd::prelude::*;

verus! {

/// What the process observed when it attempted the HTTP POST.
pub enum PostOutcome {
    /// Sending failed without an HTTP status: a malformed URL, or a
    /// resolve, connect or write failure.
    TransportFailure,
    /// Sending failed with an error that carries an HTTP status.
    StatusFailure,
    /// A response arrived: its status code, and its body read as text.
    Delivered { status: u16, body: String },
}

/// HTTP statuses in the success range.
pub open spec fn success_status(status: u16) -> bool {
    200 <= status < 300
}

/// The string under `"key"` in the response body, or `InvalidResponse`
/// when the body is not a JSON object of strings carrying that name.
pub fn parse_response(body: &str) -> (r: Result<String, HasteError>)
    ensures
        match response_key(body@) {
            Some(k) => r matches Ok(w) && w@ == k,
            None => r matches Err(e) && e == HasteError::InvalidResponse,
        },
{
    let v = chars_of(body);
    match parse_object_exec(&v) {
        Some(ps) => {
            let key = chars_of("key");
            match lookup_exec(&ps, &key) {
                Some(w) => Ok(chars_to_string(&w)),
                None => Err(HasteError::InvalidResponse),
            }
        },
        None => Err(HasteError::InvalidResponse),
    }
}

/// The share link: the configured base URL with the literal segment
/// `documents` replaced by the returned key. The substitution is textual;
/// a base URL that holds that word elsewhere is changed there too, and one
/// without it comes back unchanged.
pub fn create_share_link(base_url: &String, key: &String) -> (link: String)
    ensures
        link@ == replaced(base_url@, "documents"@, key@),
{
    let v = chars_of(base_url.as_str());
    let pat = chars_of("documents");
    let rep = chars_of(key.as_str());
    proof {
        reveal_strlit("documents");
    }
    let out = replace_chars(&v, &pat, &rep);
    chars_to_string(&out)
}

/// Turns what the POST attempt yielded into the share link or the error
/// to report: a transport failure is an invalid URL, a failure that
/// carries a status a failed request, a response outside the success
/// range an unsuccessful request; otherwise the body must carry the key,
/// and the link is derived from the base URL.
pub fn finish_upload(base_url: &String, outcome: &PostOutcome) -> (r: Result<String, HasteError>)
    ensures
        outcome is TransportFailure ==> (r matches Err(e) && e == HasteError::InvalidUrl),
        outcome is StatusFailure ==> (r matches Err(e) && e == HasteError::RequestFailed),
        outcome matches PostOutcome::Delivered { status, body } ==> (if !success_status(*status) {
            r matches Err(e) && e == HasteError::UnsuccessfulRequest
        } else {
            match response_key(body@) {
                Some(k) => r matches Ok(link) && link@ == replaced(base_url@, "documents"@, k),
                None => r matches Err(e) && e == HasteError::InvalidResponse,
            }
        }),
{
    match outcome {
        PostOutcome::TransportFailure => Err(HasteError::InvalidUrl),
        PostOutcome::StatusFailure => Err(HasteError::RequestFailed),
        PostOutcome::Delivered { status, body } => {
            if 200 <= *status && *status < 300 {
                match parse_response(body.as_str()) {
                    Ok(key) => Ok(create_share_link(base_url, &key)),
                    Err(e) => Err(e),
                }
            } else {
                Err(HasteError::UnsuccessfulRequest)
            }
        },
    }
}

/// Downloading a paste is not implemented: every call fails with
/// `NotImplemented`, and no I/O is performed.
pub fn download(_options: &Options) -> (r: Result<(), HasteError>)
    ensures
        r matches Err(e) && e == HasteError::NotImplemented,
{
    Err(HasteError::NotImplemented)
}

} // verus!
