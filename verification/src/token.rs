//! The continuation token: the object that the server sends with a page and
//! that goes back to it, entry by entry, with the request for the next page.

use vstd::prelude::*;

verus! {

/// A JSON value of `serde_json`.  Nothing here looks inside one: it is carried
/// from a page to the next request.
#[verifier::external_type_specification]
#[verifier::external_body]
pub struct ExValue(serde_json::Value);

/// The map type of `serde_json`, in which a continuation token arrives.
#[verifier::external_type_specification]
#[verifier::external_body]
#[verifier::reject_recursive_types(K)]
#[verifier::reject_recursive_types(V)]
pub struct ExJsonMap<K, V>(serde_json::Map<K, V>);

/// A continuation token as the server sent it.
pub type Token = serde_json::Map<String, serde_json::Value>;

/// The entries of a token, each a key with its value, in the order in which
/// the map hands them out when it is iterated.
pub uninterp spec fn entries(token: Token) -> Seq<(Seq<char>, serde_json::Value)>;

/// `serde_json::Map::len`: the number of entries of the map.
#[verifier::external_body]
pub(crate) fn entry_count(token: &Token) -> (n: usize)
    ensures
        n == entries(*token).len(),
{
    token.len()
}

/// `serde_json::Map::iter`, each entry cloned: the entries of the map, in
/// iteration order.
#[verifier::external_body]
pub(crate) fn clone_entries(token: &Token) -> (out: Vec<(String, serde_json::Value)>)
    ensures
        out.len() == entries(*token).len(),
        forall|i: int|
            0 <= i < out.len() ==> (#[trigger] out[i]).0@ == entries(*token)[i].0 && out[i].1
                == entries(*token)[i].1,
{
    let mut out = Vec::new();
    for (key, value) in token.iter() {
        out.push((key.clone(), value.clone()));
    }
    out
}

} // verus!
