//! The project endpoints of the hub: which file names they take, how they
//! read a protocol body, how they answer a missing protocol or seed bounty,
//! and how an error becomes a refusal.
use vstd::prelude::*;
use vstd::string::StrSliceExecFns;
use vstd::utf8::{valid_utf8, decode_utf8};
use crate::error::{MoteError, spec_project_status, error_text, project_error_status};
use crate::json::JsonValue;
use crate::text::{to_owned_string, all_alnum_or, chars_all_alnum_or};

verus! {

/// A refusal by a project endpoint: its HTTP status and the text of the
/// `error` member of its body.
#[derive(Debug)]
pub struct ProjectRefusal {
    pub status: u16,
    pub error: String,
}

/// What is wrong with a file name, if anything: its length in characters must lie
/// in 1..=255, and it may hold only alphanumerics, `.`, `_` and `-`.
pub open spec fn filename_problem(name: Seq<char>) -> Option<Seq<char>> {
    if name.len() == 0 || name.len() > 255 {
        Some("filename must be between 1 and 255 characters"@)
    } else if !all_alnum_or(name, "._-"@) {
        Some("filename may only contain letters, digits, '.', '_', and '-'"@)
    } else {
        None
    }
}

fn refusal(status: u16, error: &str) -> (r: ProjectRefusal)
    ensures
        r.status == status,
        r.error@ == error@,
{
    ProjectRefusal { status, error: to_owned_string(error) }
}

/// Checks the name a project file is uploaded under: refused with `400`
/// and the problem's text exactly when it has one.
pub fn validate_filename(filename: &str) -> (r: Result<(), ProjectRefusal>)
    ensures
        match filename_problem(filename@) {
            None => r is Ok,
            Some(m) => r matches Err(e) && e.status == 400 && e.error@ == m,
        },
{
    let n = filename.unicode_len();
    if n == 0 || n > 255 {
        return Err(refusal(400, "filename must be between 1 and 255 characters"));
    }
    if !chars_all_alnum_or(filename, "._-") {
        return Err(refusal(400, "filename may only contain letters, digits, '.', '_', and '-'"));
    }
    Ok(())
}

/// `std::str::from_utf8`: the text the bytes encode, or none when they
/// are not valid UTF-8.
#[verifier::external_body]
fn utf8_text(bytes: &[u8]) -> (r: Option<String>)
    ensures
        r is Some <==> valid_utf8(bytes@),
        r matches Some(s) ==> s@ == decode_utf8(bytes@),
{
    match std::str::from_utf8(bytes) {
        Ok(s) => Some(s.to_string()),
        Err(_) => None,
    }
}

/// The text of a protocol body: refused with `400` when the body is not
/// valid UTF-8.
pub fn protocol_text(body: &[u8]) -> (r: Result<String, ProjectRefusal>)
    ensures
        valid_utf8(body@) ==> (r matches Ok(s) && s@ == decode_utf8(body@)),
        !valid_utf8(body@) ==> (r matches Err(e) && e.status == 400
            && e.error@ == "protocol must be valid UTF-8"@),
{
    match utf8_text(body) {
        Some(s) => Ok(s),
        None => Err(refusal(400, "protocol must be valid UTF-8")),
    }
}

/// The refusal that answers an error of a project endpoint: the status of
/// its kind and its text.
pub fn project_refusal(e: &MoteError) -> (r: ProjectRefusal)
    ensures
        r.status == spec_project_status(*e),
        r.error@ == error_text(*e),
{
    ProjectRefusal { status: project_error_status(e), error: e.message() }
}

/// The answer to a protocol request: the stored text, or `404` when the
/// project has none.
pub fn protocol_reply(found: Option<String>) -> (r: Result<String, ProjectRefusal>)
    ensures
        match found {
            Some(t) => r matches Ok(s) && s@ == t@,
            None => r matches Err(e) && e.status == 404 && e.error@ == "no protocol set for this project"@,
        },
{
    match found {
        Some(t) => Ok(t),
        None => Err(refusal(404, "no protocol set for this project")),
    }
}

/// The answer to a seed-bounty request: the stored bounty, or `404` when
/// the project has none.
pub fn seed_bounty_reply(found: Option<JsonValue>) -> (r: Result<JsonValue, ProjectRefusal>)
    ensures
        match found {
            Some(b) => r == Ok::<JsonValue, ProjectRefusal>(b),
            None => r matches Err(e) && e.status == 404 && e.error@ == "no seed bounty set for this project"@,
        },
{
    match found {
        Some(b) => Ok(b),
        None => Err(refusal(404, "no seed bounty set for this project")),
    }
}

} // verus!
