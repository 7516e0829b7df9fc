use vstd::prelude::*;
use crate::error::ExtractError;
use crate::text::{capture_quoted, quoted_capture_after};

verus! {

/// What a text decodes to when read as a JSON array of strings, if it is
/// one; the decoding that `serde_json` performs.
pub uninterp spec fn json_string_array(s: Seq<char>) -> Option<Seq<Seq<char>>>;

/// Relies on serde_json::from_str::<Vec<String>>: whether and how a text
/// decodes as a JSON array of strings depends on the text alone.
#[verifier::external_body]
fn parse_json_string_array(s: &str) -> (r: Option<Vec<String>>)
    ensures
        match r {
            Some(v) => json_string_array(s@) == Some(v.deep_view()),
            None => json_string_array(s@) is None,
        },
{
    serde_json::from_str::<Vec<String>>(s).ok()
}

/// The attribute, on the login page, whose quoted value carries the keypad
/// slot identifiers as a JSON array.
pub open spec fn spec_matrix_keys_pattern() -> Seq<char> {
    "data-matrix-keys=\""@
}

/// The hidden field, on the login page, whose quoted value is the challenge
/// token bound to this rendering of the page.
pub open spec fn spec_challenge_token_pattern() -> Seq<char> {
    "name=\"challengeToken\" value=\""@
}

/// Extract the keypad slot identifiers from the login page: the quoted
/// value of the `data-matrix-keys` attribute, decoded as a JSON array of
/// strings. An absent attribute is `NotFound`; a value that is not such an
/// array is `MalformedPayload`.
pub fn extract_data_matrix_keys(res: &str) -> (r: Result<Vec<String>, ExtractError>)
    ensures
        match r {
            Ok(v) => quoted_capture_after(res@, spec_matrix_keys_pattern()) matches Some(c)
                && json_string_array(c) == Some(v.deep_view()),
            Err(ExtractError::NotFound) => quoted_capture_after(
                res@,
                spec_matrix_keys_pattern(),
            ) is None,
            Err(ExtractError::MalformedPayload) => quoted_capture_after(
                res@,
                spec_matrix_keys_pattern(),
            ) matches Some(c) && json_string_array(c) is None,
        },
{
    match capture_quoted(res, "data-matrix-keys=\"") {
        None => Err(ExtractError::NotFound),
        Some(payload) => match parse_json_string_array(payload.as_str()) {
            None => Err(ExtractError::MalformedPayload),
            Some(v) => Ok(v),
        },
    }
}

/// Extract the challenge token from the login page: the quoted value of the
/// `challengeToken` hidden field. An absent field is `NotFound`.
pub fn extract_challenge_token(res: &str) -> (r: Result<String, ExtractError>)
    ensures
        match r {
            Ok(t) => quoted_capture_after(res@, spec_challenge_token_pattern()) == Some(t@),
            Err(e) => e == ExtractError::NotFound && quoted_capture_after(
                res@,
                spec_challenge_token_pattern(),
            ) is None,
        },
{
    match capture_quoted(res, "name=\"challengeToken\" value=\"") {
        None => Err(ExtractError::NotFound),
        Some(t) => Ok(t),
    }
}

} // verus!
