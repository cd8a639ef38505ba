//! The capability/gap matrix: one cited row per OS-integration capability.
use vstd::prelude::*;
use crate::text::{str_eq, trim_seq};

verus! {

/// Which kind of app a capability comes from.
#[derive(Debug, Clone, Copy, PartialEq, Eq, Structural)]
pub enum Source {
    Uwp,
    Electron,
}

/// Tauri v2's answer for a capability.
#[derive(Debug, Clone, Copy, PartialEq, Eq, Structural)]
pub enum TauriPath {
    Native,
    Plugin,
    CustomRust,
    Sidecar,
    /// No viable Tauri path (spelled `none` in the dataset).
    NoViablePath,
    OpenQuestion,
}

/// How much of the capability survives the port.
#[derive(Debug, Clone, Copy, PartialEq, Eq, Structural)]
pub enum Severity {
    Full,
    Partial,
    /// Nothing carries over (spelled `none` in the dataset).
    NoParity,
}

/// Whether the wiring for a capability is compile-verified (`Proven`) or a stub.
#[derive(Debug, Clone, Copy, PartialEq, Eq, Structural)]
pub enum Recipe {
    Proven,
    Stub,
}

/// How deep the parity promise goes for a capability (ADR 0001).
///
/// `Behavioral` = the capability works. `Visual` = it must also look/feel the same, which
/// requires measurement by the webview-qa harness before it may be claimed.
#[derive(Debug, Clone, Copy, PartialEq, Eq, Structural)]
pub enum ParityTier {
    Behavioral,
    Visual,
}

impl Default for ParityTier {
    fn default() -> (r: ParityTier)
        ensures
            r == ParityTier::Behavioral,
    {
        ParityTier::Behavioral
    }
}

/// One matrix row.
#[derive(Debug, Clone)]
pub struct Capability {
    pub id: String,
    pub source: Source,
    pub name: String,
    pub description: String,
    pub tauri_path: TauriPath,
    pub severity: Severity,
    pub citation_url: String,
    pub recipe: Option<Recipe>,
    pub plugin: Option<String>,
    pub crate_name: Option<String>,
    /// Absent = [`ParityTier::Behavioral`]. See [`Capability::parity_tier`].
    pub parity_tier: Option<ParityTier>,
}

/// The resolved parity tier of a row: the declared one, `Behavioral` when absent.
pub open spec fn tier_of(c: Capability) -> ParityTier {
    match c.parity_tier {
        Some(t) => t,
        None => ParityTier::Behavioral,
    }
}

impl Capability {
    /// The resolved parity tier (defaults to `Behavioral` when unset).
    pub fn parity_tier(&self) -> (t: ParityTier)
        ensures
            t == tier_of(*self),
    {
        match self.parity_tier {
            Some(t) => t,
            None => ParityTier::default(),
        }
    }
}

/// The whole capability dataset.
#[derive(Debug, Clone)]
pub struct Matrix {
    pub capabilities: Vec<Capability>,
}

/// Loading a matrix from text failed.
#[derive(Debug, Clone)]
pub enum MatrixError {
    Parse(String),
}

/// The first index at or after `i` of a row whose id is `id`.
pub open spec fn cap_index_from(caps: Seq<Capability>, id: Seq<char>, i: int) -> Option<int>
    decreases caps.len() - i,
{
    if i < 0 || i >= caps.len() {
        None
    } else if caps[i].id@ == id {
        Some(i)
    } else {
        cap_index_from(caps, id, i + 1)
    }
}

/// The index of the first row whose id is `id`, if any.
pub open spec fn cap_index(caps: Seq<Capability>, id: Seq<char>) -> Option<int> {
    cap_index_from(caps, id, 0)
}

/// The first row whose id is `id`, if any.
pub open spec fn lookup(caps: Seq<Capability>, id: Seq<char>) -> Option<Capability> {
    match cap_index(caps, id) {
        Some(i) => Some(caps[i]),
        None => None,
    }
}

pub proof fn lemma_cap_index_from(caps: Seq<Capability>, id: Seq<char>, i: int)
    requires
        0 <= i,
    ensures
        cap_index_from(caps, id, i) matches Some(k) ==> i <= k < caps.len() && caps[k].id@ == id
            && forall|j: int| i <= j < k ==> caps[j].id@ != id,
        cap_index_from(caps, id, i) is None ==> forall|j: int| i <= j < caps.len() ==> caps[j].id@
            != id,
    decreases caps.len() - i,
{
    if i < caps.len() && caps[i].id@ != id {
        lemma_cap_index_from(caps, id, i + 1);
    }
}

pub proof fn lemma_cap_index(caps: Seq<Capability>, id: Seq<char>)
    ensures
        cap_index(caps, id) matches Some(k) ==> 0 <= k < caps.len() && caps[k].id@ == id && forall|
            j: int,
        | 0 <= j < k ==> caps[j].id@ != id,
        cap_index(caps, id) is None ==> forall|j: int| 0 <= j < caps.len() ==> caps[j].id@ != id,
{
    lemma_cap_index_from(caps, id, 0);
}

impl Matrix {
    /// The first row whose id is `id`.
    pub fn get(&self, id: &str) -> (r: Option<&Capability>)
        ensures
            r matches Some(c) ==> lookup(self.capabilities@, id@) == Some(*c),
            r is None ==> lookup(self.capabilities@, id@) is None,
    {
        let mut i: usize = 0;
        while i < self.capabilities.len()
            invariant
                i <= self.capabilities@.len(),
                cap_index(self.capabilities@, id@) == cap_index_from(
                    self.capabilities@,
                    id@,
                    i as int,
                ),
            decreases self.capabilities@.len() - i,
        {
            if str_eq(self.capabilities[i].id.as_str(), id) {
                return Some(&self.capabilities[i]);
            }
            i = i + 1;
        }
        None
    }
}

} // verus!
