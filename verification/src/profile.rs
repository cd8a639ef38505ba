//! A capability profile: the capability ids one app is detected (or declared) to use.
use vstd::prelude::*;
use crate::matrix::Source;

verus! {

/// The capability ids of one app, tagged with where they came from.
#[derive(Debug, Clone)]
pub struct Profile {
    pub source: Source,
    pub capabilities: Vec<String>,
}

/// The ids of a profile, as character sequences.
pub open spec fn ids_view(v: Seq<String>) -> Seq<Seq<char>> {
    v.map_values(|s: String| s@)
}

} // verus!
