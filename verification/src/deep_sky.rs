use vstd::prelude::*;

use crate::text::{chars_of, has_sub, lowercase, str_contains, string_from, to_lowercase, trim, trim_chars};

verus! {

/// The searchable names of a deep-sky object: its catalogue designation
/// (`M31`), its kind (`galaxy`) and its common name (`Andromeda Galaxy`, or
/// empty). Positions and magnitudes are not part of the search.
#[derive(Debug, Clone, PartialEq, Eq)]
pub struct DeepSkyObject {
    pub name: String,
    pub kind: String,
    pub common: String,
}

/// A query as the search compares it: trimmed, then lowercased.
pub open spec fn folded_query(query: Seq<char>) -> Seq<char> {
    lowercase(trim(query))
}

/// Whether a search for `query` finds an object with these names: the folded
/// query occurs in the lowercased designation, common name or kind.
pub open spec fn deep_sky_matches(
    name: Seq<char>,
    kind: Seq<char>,
    common: Seq<char>,
    query: Seq<char>,
) -> bool {
    let q = folded_query(query);
    has_sub(lowercase(name), q) || has_sub(lowercase(common), q) || has_sub(lowercase(kind), q)
}

/// The query trimmed and lowercased.
pub fn fold_query(query: &str) -> (r: String)
    ensures
        r@ == folded_query(query@),
{
    let v = chars_of(query);
    let t = trim_chars(&v);
    let s = string_from(t.as_slice());
    to_lowercase(s.as_str())
}

/// Whether a search for `query` finds `object`.
pub fn matches_query(object: &DeepSkyObject, query: &str) -> (r: bool)
    ensures
        r == deep_sky_matches(object.name@, object.kind@, object.common@, query@),
{
    let q = fold_query(query);
    let name = to_lowercase(object.name.as_str());
    if str_contains(name.as_str(), q.as_str()) {
        return true;
    }
    let common = to_lowercase(object.common.as_str());
    if str_contains(common.as_str(), q.as_str()) {
        return true;
    }
    let kind = to_lowercase(object.kind.as_str());
    str_contains(kind.as_str(), q.as_str())
}

} // verus!
