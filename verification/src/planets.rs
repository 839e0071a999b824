use vstd::prelude::*;

use crate::deep_sky::{fold_query, folded_query};
use crate::text::{has_sub, lowercase, str_contains, to_lowercase};

verus! {

/// The searchable part of a planet: its English name and its chart symbol.
/// Its computed position is not part of the search.
#[derive(Debug, Clone, PartialEq, Eq)]
pub struct Planet {
    pub name: String,
    pub symbol: char,
}

/// Whether a search for `query` finds a planet named `name`: the trimmed,
/// lowercased query occurs in the lowercased name.
pub open spec fn planet_matches(name: Seq<char>, query: Seq<char>) -> bool {
    has_sub(lowercase(name), folded_query(query))
}

/// Whether a search for `query` finds `planet`.
pub fn matches_query(planet: &Planet, query: &str) -> (r: bool)
    ensures
        r == planet_matches(planet.name@, query@),
{
    let q = fold_query(query);
    let name = to_lowercase(planet.name.as_str());
    str_contains(name.as_str(), q.as_str())
}

/// The planets the sky shows, in the order they are listed: Venus, Mars,
/// Jupiter and Saturn.
pub fn sky_planets() -> (r: Vec<Planet>)
    ensures
        r.len() == 4,
        r@[0].name@ == "Venus"@ && r@[0].symbol == 'V',
        r@[1].name@ == "Mars"@ && r@[1].symbol == 'M',
        r@[2].name@ == "Jupiter"@ && r@[2].symbol == 'J',
        r@[3].name@ == "Saturn"@ && r@[3].symbol == 'S',
{
    let mut r: Vec<Planet> = Vec::new();
    r.push(Planet { name: String::from_str("Venus"), symbol: 'V' });
    r.push(Planet { name: String::from_str("Mars"), symbol: 'M' });
    r.push(Planet { name: String::from_str("Jupiter"), symbol: 'J' });
    r.push(Planet { name: String::from_str("Saturn"), symbol: 'S' });
    r
}

} // verus!
