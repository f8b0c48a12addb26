//! The JSON texts that Atlas stores beside its records, produced by
//! `serde_json`.
use vstd::prelude::*;

verus! {

pub open spec fn pairs_view(pairs: Seq<(String, String)>) -> Seq<(Seq<char>, Seq<char>)> {
    pairs.map_values(|p: (String, String)| (p.0@, p.1@))
}

/// What `serde_json::to_string` answers for a JSON object whose members are
/// the given key/value strings (as `serde_json::Map` holds them: a later
/// pair replaces an earlier one with the same key, members ordered by key),
/// its error rendered with `to_string`.
pub uninterp spec fn json_object_text(pairs: Seq<(Seq<char>, Seq<char>)>) -> Result<Seq<char>, Seq<char>>;

/// `metadata_json`: serialises string pairs as a JSON object with
/// `serde_json`.  The contract names the text, says nothing of the JSON
/// syntax itself, and says that it succeeds: `serde_json::to_string` fails
/// only for a map with keys that are not strings or for a value whose
/// serialisation fails, and an object of strings has neither.
#[verifier::external_body]
pub(crate) fn metadata_json(pairs: &Vec<(String, String)>) -> (r: Result<String, String>)
    ensures
        crate::domain::string_result_view(r) == json_object_text(pairs_view(pairs@)),
        r is Ok,
{
    let map = pairs.iter().map(|(key, value)| (key.clone(), serde_json::Value::String(value.clone())))
        .collect::<serde_json::Map<String, serde_json::Value>>();
    serde_json::to_string(&serde_json::Value::Object(map)).map_err(|error| error.to_string())
}

} // verus!
