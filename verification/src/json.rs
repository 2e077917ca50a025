//! What serde_json makes of a JSON text.

use vstd::prelude::*;

verus! {

/// What parsing `text` as one JSON value gives: when it is valid JSON,
/// `Ok` with the number of elements if the value is an array and `None` if
/// it is another value; `Err(message)` with serde_json's description of the
/// first syntax error otherwise.
pub uninterp spec fn json_parse_outcome(text: Seq<char>) -> Result<Option<usize>, Seq<char>>;

/// Parses `text` with `serde_json::from_str::<serde_json::Value>` and
/// reports whether it is valid JSON and, if so, the length of the array it
/// holds, if it is one; on failure, the error's `Display` text.
#[verifier::external_body]
pub fn parse_json(text: &str) -> (r: Result<Option<usize>, String>)
    ensures
        match r {
            Ok(len) => json_parse_outcome(text@) == Ok::<Option<usize>, Seq<char>>(len),
            Err(msg) => json_parse_outcome(text@) == Err::<Option<usize>, Seq<char>>(msg@),
        },
{
    match serde_json::from_str::<serde_json::Value>(text) {
        Ok(value) => Ok(value.as_array().map(|a| a.len())),
        Err(e) => Err(e.to_string()),
    }
}

} // verus!
