//! The pull request comment URL named by the job's event descriptor.
use vstd::prelude::*;
use crate::command::CliError;
use crate::encode::opt_view;

verus! {

/// Whether serde_json reads `text` as one JSON document.
pub uninterp spec fn json_accepts(text: Seq<char>) -> bool;

/// The JSON string that serde_json finds at `text[outer][inner]`, if there
/// is one.
pub uninterp spec fn json_string_at(text: Seq<char>, outer: Seq<char>, inner: Seq<char>) -> Option<
    Seq<char>,
>;

/// Relies on `serde_json::from_str` into a `Value`, on serde_json's
/// `Index<&str>` for `Value` (null where a member or an object is missing)
/// and on `Value::as_str`: the string at `text[outer][inner]`, which depends
/// on the three texts alone, and none where `text` is not JSON.
#[verifier::external_body]
fn string_at(text: &str, outer: &str, inner: &str) -> (r: Option<String>)
    ensures
        opt_view(r) == json_string_at(text@, outer@, inner@),
        r is Some ==> json_accepts(text@),
{
    match serde_json::from_str::<serde_json::Value>(text) {
        Ok(v) => v[outer][inner].as_str().map(|s| s.to_owned()),
        Err(_) => None,
    }
}

/// The URL to post with, from what the descriptor holds at
/// `pull_request.comments_url`: a missing URL cannot be resolved.
pub fn comment_target(found: Option<String>) -> (r: Result<String, CliError>)
    ensures
        found matches Some(u) ==> r matches Ok(s) && s@ == u@,
        found is None ==> r == Err::<String, CliError>(CliError::UnresolvableResource),
{
    match found {
        Some(u) => Ok(u),
        None => Err(CliError::UnresolvableResource),
    }
}

/// Reads the comment URL out of the text of an event descriptor: the string
/// at `pull_request.comments_url`. A text that is not JSON, or holds no
/// string there, gives `UnresolvableResource`.
pub fn comment_url(event: &str) -> (r: Result<String, CliError>)
    ensures
        match json_string_at(event@, "pull_request"@, "comments_url"@) {
            Some(u) => r matches Ok(s) && s@ == u,
            None => r == Err::<String, CliError>(CliError::UnresolvableResource),
        },
        !json_accepts(event@) ==> r == Err::<String, CliError>(CliError::UnresolvableResource),
{
    comment_target(string_at(event, "pull_request", "comments_url"))
}

} // verus!
