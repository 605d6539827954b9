//! The rules of the HTTP surface: which status reports an error, and how
//! the body of `write_file` is decoded.
use vstd::prelude::*;
use crate::error::WorkspaceError;
use crate::text::{trim_end, trimmed_end};
use crate::trusted::{base64_decode, base64_decoded};

verus! {

/// The status a response has for an error: the caller's mistakes are 400,
/// what does not exist is 404, everything else is 500.
pub open spec fn status_of(error: WorkspaceError) -> u16 {
    match error {
        WorkspaceError::Validation(_) => 400,
        WorkspaceError::NotFound(_) => 404,
        _ => 500,
    }
}

/// The status of the response that reports `error`.
pub fn status_code(error: &WorkspaceError) -> (status: u16)
    ensures
        status == status_of(*error),
{
    match error {
        WorkspaceError::Validation(_) => 400,
        WorkspaceError::NotFound(_) => 404,
        _ => 500,
    }
}

/// What a body that is not Base64 answers.
pub open spec fn undecodable_text() -> Seq<char> {
    "Failed to decode base64 content"@
}

/// The bytes of a file, given what decoding its content gave.
pub fn content_from(decoded: Result<Vec<u8>, String>) -> (r: Result<Vec<u8>, WorkspaceError>)
    ensures
        match decoded {
            Ok(bytes) => r == Ok::<Vec<u8>, WorkspaceError>(bytes),
            Err(_) => r matches Err(WorkspaceError::Validation(m)) && m@ == undecodable_text(),
        },
{
    match decoded {
        Ok(bytes) => Ok(bytes),
        Err(_) => Err(WorkspaceError::Validation(String::from_str("Failed to decode base64 content"))),
    }
}

/// Decodes the content of a `write_file` request: standard Base64, after
/// white space at its end is dropped.
pub fn decode_content(content: &str) -> (r: Result<Vec<u8>, WorkspaceError>)
    ensures
        match base64_decoded(trimmed_end(content@)) {
            Ok(bytes) => r matches Ok(b) && b@ == bytes,
            Err(_) => r matches Err(WorkspaceError::Validation(m)) && m@ == undecodable_text(),
        },
{
    let text = trim_end(content);
    content_from(base64_decode(text.as_str()))
}

} // verus!
