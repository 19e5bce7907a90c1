//! The JSON documents of the corpus and of query files, read with serde_json.

use vstd::prelude::*;
use crate::fts_query::opt_string_view;

verus! {

#[verifier::external_type_specification]
#[verifier::external_body]
pub struct ExJsonError(serde_json::Error);

/// Whether `serde_json::from_str::<serde_json::Value>` accepts the text.
pub uninterp spec fn json_accepts(text: Seq<char>) -> bool;

/// The string held by member `key` of the JSON document in `text`, when the
/// document is an object whose member `key` is a string.
pub uninterp spec fn json_string_member(text: Seq<char>, key: Seq<char>) -> Option<Seq<char>>;

/// `serde_json::from_str::<serde_json::Value>`, then `Value::get(key)` and
/// `Value::as_str`. The contract claims only that the parse succeeds exactly
/// when the text is accepted, and that the member read is a function of the
/// text and the key; what JSON serde_json accepts is not stated.
#[verifier::external_body]
pub(crate) fn json_string_field(text: &str, key: &str) -> (r: Result<Option<String>, serde_json::Error>)
    ensures
        r is Ok <==> json_accepts(text@),
        r matches Ok(m) ==> opt_string_view(m) == json_string_member(text@, key@),
{
    match serde_json::from_str::<serde_json::Value>(text) {
        Err(e) => Err(e),
        Ok(v) => Ok(v.get(key).and_then(serde_json::Value::as_str).map(str::to_owned)),
    }
}

} // verus!
