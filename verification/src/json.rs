//! JSON string literals, by way of `serde_json`.

use vstd::prelude::*;

verus! {

/// The JSON string literal for `text`: quoted, with the escapes JSON requires.
pub uninterp spec fn json_string(text: Seq<char>) -> Seq<char>;

/// Trusted: `serde_json::to_string` on a string slice, which cannot fail and
/// depends on the text alone.
#[verifier::external_body]
pub(crate) fn json_quote(text: &str) -> (literal: String)
    ensures
        literal@ == json_string(text@),
{
    serde_json::to_string(text).unwrap_or_default()
}

} // verus!
