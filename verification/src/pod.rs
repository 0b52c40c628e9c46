//! The slice of a Pod-shaped resource that the policy reads: its metadata
//! annotations.

use vstd::prelude::*;

verus! {

/// What the decision engine consumes of the target resource: the
/// `metadata.annotations` mapping, as key-value pairs of plain strings.
/// An absent mapping is as good as an empty one.
#[derive(Clone, Debug)]
pub struct Pod {
    pub annotations: Option<Vec<(String, String)>>,
}

impl Pod {
    /// The annotation entries, with an absent mapping read as the empty one.
    pub open spec fn entries(&self) -> Seq<(Seq<char>, Seq<char>)> {
        match self.annotations {
            Some(v) => v.deep_view(),
            None => Seq::empty(),
        }
    }
}

} // verus!
