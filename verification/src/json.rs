//! The calls into `serde_json` that encode and decode the list- and
//! map-valued columns of a stored metadata record.
use vstd::prelude::*;
use crate::tag_map::{entries_view, keys_distinct, lookup, strings_view, TagEntries, TagMap};

verus! {

/// The JSON text that `serde_json::to_string` writes for a list of strings.
pub uninterp spec fn json_of_strings(v: Seq<Seq<char>>) -> Seq<char>;

/// What `serde_json::from_str` reads from `raw` as a list of strings (`None` when it fails).
pub uninterp spec fn strings_of_json(raw: Seq<char>) -> Option<Seq<Seq<char>>>;

/// The JSON text that `serde_json::to_string` writes for the map that the
/// (category, values) entries `entries` make: a JSON object.
pub uninterp spec fn json_of_tags(entries: TagEntries) -> Seq<char>;

/// What `serde_json::from_str` reads from `raw` as a map from category to
/// values, as its entries in key order (`None` when it fails).
pub uninterp spec fn tags_of_json(raw: Seq<char>) -> Option<TagEntries>;

/// `serde_json::to_string` on a list of strings.
/// Claimed: it succeeds (serde_json fails only when a `Serialize` impl fails or
/// a map has non-string keys), its result is named `json_of_strings`, and
/// reading that text back with `serde_json::from_str` gives the same list.
#[verifier::external_body]
pub(crate) fn strings_to_json(v: &Vec<String>) -> (r: Result<String, serde_json::Error>)
    ensures
        r is Ok,
        r matches Ok(s) ==> s@ == json_of_strings(strings_view(v@)),
        r matches Ok(s) ==> strings_of_json(s@) == Some(strings_view(v@)),
{
    serde_json::to_string(v)
}

/// `serde_json::to_string` on the map from category to values that `tags`
/// holds, written as a `BTreeMap` (so the object's keys come in key order).
/// Claimed: it succeeds, its result is named `json_of_tags`, and reading that
/// text back as a map gives entries without repeated keys that hold the same
/// values under every category.
#[verifier::external_body]
pub(crate) fn tags_to_json(tags: &TagMap) -> (r: Result<String, serde_json::Error>)
    ensures
        r is Ok,
        r matches Ok(s) ==> s@ == json_of_tags(tags@),
        r matches Ok(s) ==> tags_of_json(s@) is Some,
        r matches Ok(s) ==> keys_distinct(tags_of_json(s@).unwrap()),
        r matches Ok(s) ==> forall|k: Seq<char>| #[trigger] lookup(tags_of_json(s@).unwrap(), k) == lookup(tags@, k),
{
    let m: std::collections::BTreeMap<&str, &Vec<String>> =
        tags.entries().iter().map(|e| (e.0.as_str(), &e.1)).collect();
    serde_json::to_string(&m)
}

/// `serde_json::from_str` reading a list of strings.
/// Claimed: it succeeds exactly when `strings_of_json(raw)` is some list, and gives that list.
#[verifier::external_body]
pub(crate) fn strings_from_json(raw: &str) -> (r: Result<Vec<String>, serde_json::Error>)
    ensures
        match r {
            Ok(v) => strings_of_json(raw@) == Some(strings_view(v@)),
            Err(_) => strings_of_json(raw@) is None,
        },
{
    serde_json::from_str(raw)
}

/// `serde_json::from_str` reading a `BTreeMap` from category to values,
/// returned as its entries in key order.
/// Claimed: it succeeds exactly when `tags_of_json(raw)` is some entries, and
/// gives those entries, which have no repeated key (they come from a map).
#[verifier::external_body]
pub(crate) fn tags_from_json(raw: &str) -> (r: Result<Vec<(String, Vec<String>)>, serde_json::Error>)
    ensures
        match r {
            Ok(v) => tags_of_json(raw@) == Some(entries_view(v@)) && keys_distinct(entries_view(v@)),
            Err(_) => tags_of_json(raw@) is None,
        },
{
    serde_json::from_str::<std::collections::BTreeMap<String, Vec<String>>>(raw).map(
        |m| m.into_iter().collect(),
    )
}

/// The message of a `serde_json` error (its `Display`); nothing is claimed of it.
#[verifier::external_body]
pub(crate) fn json_error_message(e: &serde_json::Error) -> (r: String) {
    e.to_string()
}

} // verus!
