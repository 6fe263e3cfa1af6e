//! Field extraction from raw structured-text fragments.
//!
//! A fragment is a piece of structured text whose first document is expected
//! to be a map with string-valued fields and one list-valued field `cc`.
//! Decoding the text is the job of an outside parser; what it hands back for
//! a given text is named here by bodiless spec functions, and the verified
//! parsing logic is stated over those names.

use vstd::prelude::*;

verus! {

/// The string value of field `key` in the first document of `text`:
/// absent when the text does not scan as structured text, when the first
/// document is not a map, when the field is missing, or when its value is
/// not a string. A function of `text` and `key` alone.
pub uninterp spec fn frag_str(text: Seq<char>, key: Seq<char>) -> Option<Seq<char>>;

/// The string items of the `cc` list of the first document of `text`, in
/// list order, non-string items left out; empty when the text does not
/// scan, the field is missing, or its value is not a list. A function of
/// `text` alone.
pub uninterp spec fn frag_cc(text: Seq<char>) -> Seq<Seq<char>>;

/// Relies on `yaml_rust::YamlLoader::load_from_str` (a deterministic scan
/// of the text, `Err` on malformed syntax), on `Yaml`'s `Index<&str>`
/// (which hands back `Yaml::BadValue` rather than panicking when the
/// document is not a map or the key is absent) and on `Yaml::as_str`
/// (`Some` exactly on the string variant).
#[verifier::external_body]
pub(crate) fn extract_str_field(text: &str, key: &str) -> (r: Option<String>)
    ensures
        match r {
            Some(s) => frag_str(text@, key@) == Some(s@),
            None => frag_str(text@, key@) is None,
        },
{
    match yaml_rust::YamlLoader::load_from_str(text) {
        Ok(docs) => docs
            .into_iter()
            .next()
            .and_then(|doc| doc[key].as_str().map(|s| s.to_string())),
        Err(_) => None,
    }
}

/// Relies on `yaml_rust::YamlLoader::load_from_str`, on `Yaml`'s
/// `Index<&str>`, on `Yaml::as_vec` (`Some` exactly on the list variant)
/// and on `Yaml::as_str`: the string items of the `cc` list in order, the
/// match telling the string variant of each item apart from the rest.
#[verifier::external_body]
pub(crate) fn extract_cc(text: &str) -> (r: Vec<String>)
    ensures
        r.deep_view() == frag_cc(text@),
{
    let mut cc: Vec<String> = Vec::new();
    if let Ok(docs) = yaml_rust::YamlLoader::load_from_str(text) {
        if let Some(doc) = docs.into_iter().next() {
            if let Some(items) = doc["cc"].as_vec() {
                for item in items {
                    match item.as_str() {
                        Some(s) => cc.push(s.to_string()),
                        None => {}
                    }
                }
            }
        }
    }
    cc
}

} // verus!
