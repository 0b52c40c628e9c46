//! Admission-control policy for AppArmor profiles.
//!
//! Given the annotations of a Pod-shaped resource and an operator-supplied
//! allow-list, the library extracts the AppArmor profile references the
//! resource asks for and decides whether the request may proceed: every
//! requested profile must be on the allow-list, and a rejection names each
//! profile that is not.

pub mod decision;
pub mod extract;
pub mod pod;
pub mod settings;
pub mod text;

pub use decision::Decision;
pub use decision::evaluate;
pub use extract::get_apparmor_profiles;
pub use pod::Pod;
pub use settings::Settings;

use vstd::prelude::*;

verus! {

/// Evaluates one admission request: extracts the AppArmor profile references
/// from the resource's annotations and accepts exactly when the allow-list
/// covers them all, rejecting otherwise with a message that names every
/// disallowed profile.
pub fn validate(settings: &Settings, pod: &Pod) -> (decision: Decision)
    ensures
        decision::decision_post(
            settings.allowed_set(),
            extract::extracted_profiles(pod.entries()),
            decision,
        ),
{
    let apparmor_profiles = get_apparmor_profiles(pod);
    if apparmor_profiles.is_empty() {
        proof {
            reveal(Seq::filter);
            assert(extract::extracted_profiles(pod.entries()).len() == 0);
        }
        return Decision::Accept;
    }
    evaluate(settings, &apparmor_profiles)
}

/// A request none of whose annotation keys carries the AppArmor prefix is
/// always accepted, whatever the allow-list holds, including the empty one.
pub proof fn lemma_no_apparmor_annotations_accept(
    allowed: Set<Seq<char>>,
    entries: Seq<(Seq<char>, Seq<char>)>,
    d: Decision,
)
    requires
        forall|i: int|
            0 <= i < entries.len() ==> !extract::is_apparmor_key((#[trigger] entries[i]).0),
        decision::decision_post(allowed, extract::extracted_profiles(entries), d),
    ensures
        d is Accept,
{
    extract::lemma_no_apparmor_annotations(entries);
    decision::lemma_no_profiles_accept(allowed, extract::extracted_profiles(entries), d);
}

} // verus!
