//! Operator-supplied configuration: the allow-list of AppArmor profile
//! identifiers permitted on any workload.

use vstd::prelude::*;

verus! {

/// The deserialized operator configuration consumed by the decision engine.
///
/// `allowed_profiles` carries set semantics: only membership matters, order
/// and duplicates are irrelevant. An empty allow-list is valid and means
/// "nothing is allowed".
#[derive(Clone, Debug)]
pub struct Settings {
    pub allowed_profiles: Vec<String>,
}

impl Settings {
    /// The allow-list as a set of character sequences; membership in this set
    /// is all the decision engine consults.
    pub open spec fn allowed_set(&self) -> Set<Seq<char>> {
        self.allowed_profiles.deep_view().to_set()
    }

    /// Normalizes the raw `allowed_profiles` configuration field: an absent
    /// key means the empty allow-list, never an error.
    pub fn from_allowed_profiles(profiles: Option<Vec<String>>) -> (s: Settings)
        ensures
            match profiles {
                Some(p) => s.allowed_profiles.deep_view() == p.deep_view(),
                None => s.allowed_profiles@.len() == 0,
            },
    {
        match profiles {
            Some(p) => Settings { allowed_profiles: p },
            None => Settings { allowed_profiles: Vec::new() },
        }
    }

    /// Settings validation: every well-typed allow-list is acceptable,
    /// including the empty one.
    pub fn validate(&self) -> (r: Result<(), String>)
        ensures
            r is Ok,
    {
        Ok(())
    }
}

impl Default for Settings {
    /// The default configuration is the empty allow-list.
    fn default() -> (s: Settings)
        ensures
            s.allowed_profiles@.len() == 0,
            s.allowed_set() =~= Set::<Seq<char>>::empty(),
    {
        Settings { allowed_profiles: Vec::new() }
    }
}

} // verus!
