//! Extraction of AppArmor profile references from a resource's annotations.

use vstd::prelude::*;
use crate::pod::Pod;
use crate::text::{contains_string, str_has_prefix};

verus! {

/// The fixed annotation-key prefix that marks an AppArmor profile request.
pub open spec fn apparmor_prefix() -> Seq<char> {
    "container.apparmor.security.beta.kubernetes.io/"@
}

/// Whether an annotation key requests an AppArmor profile for some container.
/// Only the fixed prefix is consulted; the per-container suffix is not.
pub open spec fn is_apparmor_key(key: Seq<char>) -> bool {
    apparmor_prefix().is_prefix_of(key)
}

/// The set of profile identifiers the annotations request: the values of the
/// entries whose key carries the AppArmor prefix.
pub open spec fn apparmor_value_set(entries: Seq<(Seq<char>, Seq<char>)>) -> Set<Seq<char>> {
    Set::new(
        |v: Seq<char>|
            exists|i: int|
                0 <= i < entries.len() && is_apparmor_key((#[trigger] entries[i]).0)
                    && entries[i].1 == v,
    )
}

/// The requested profiles in order of first appearance, duplicates collapsed,
/// continuing from the already-collected `acc`.
pub open spec fn extract_from(
    entries: Seq<(Seq<char>, Seq<char>)>,
    acc: Seq<Seq<char>>,
) -> Seq<Seq<char>>
    decreases entries.len(),
{
    if entries.len() == 0 {
        acc
    } else {
        let key = entries[0].0;
        let value = entries[0].1;
        let next = if is_apparmor_key(key) && !acc.contains(value) {
            acc.push(value)
        } else {
            acc
        };
        extract_from(entries.drop_first(), next)
    }
}

/// The extracted profile references, as the sequence of first occurrences.
pub open spec fn extracted_profiles(entries: Seq<(Seq<char>, Seq<char>)>) -> Seq<Seq<char>> {
    extract_from(entries, Seq::empty())
}

/// A sequence stays duplicate-free when an element it does not contain is
/// pushed onto it.
proof fn lemma_push_keeps_no_duplicates(s: Seq<Seq<char>>, v: Seq<char>)
    requires
        s.no_duplicates(),
        !s.contains(v),
    ensures
        s.push(v).no_duplicates(),
{
    let p = s.push(v);
    assert forall|i: int, j: int| 0 <= i < p.len() && 0 <= j < p.len() && i != j implies p[i]
        != p[j] by {
        if i < s.len() && j < s.len() {
        } else if i < s.len() {
            assert(s[i] == p[i]);
        } else if j < s.len() {
            assert(s[j] == p[j]);
        }
    }
}

/// Splitting the requested-profile set of a non-empty annotation sequence at
/// its head entry.
proof fn lemma_value_set_unfold(entries: Seq<(Seq<char>, Seq<char>)>)
    requires
        entries.len() > 0,
    ensures
        apparmor_value_set(entries) =~= if is_apparmor_key(entries[0].0) {
            apparmor_value_set(entries.drop_first()).insert(entries[0].1)
        } else {
            apparmor_value_set(entries.drop_first())
        },
{
    let tail = entries.drop_first();
    assert forall|v: Seq<char>| apparmor_value_set(entries).contains(v) implies {
        (is_apparmor_key(entries[0].0) && entries[0].1 == v) || apparmor_value_set(tail).contains(
            v,
        )
    } by {
        let i = choose|i: int|
            0 <= i < entries.len() && is_apparmor_key((#[trigger] entries[i]).0) && entries[i].1
                == v;
        if i > 0 {
            assert(tail[i - 1] == entries[i]);
        }
    }
    assert forall|v: Seq<char>| apparmor_value_set(tail).contains(v) implies apparmor_value_set(
        entries,
    ).contains(v) by {
        let j = choose|j: int|
            0 <= j < tail.len() && is_apparmor_key((#[trigger] tail[j]).0) && tail[j].1 == v;
        assert(entries[j + 1] == tail[j]);
    }
    if is_apparmor_key(entries[0].0) {
        assert(apparmor_value_set(entries).contains(entries[0].1));
    }
}

/// What the collecting recursion gathers: every requested profile and nothing
/// else, on top of `acc`, without introducing duplicates.
proof fn lemma_extract_from(entries: Seq<(Seq<char>, Seq<char>)>, acc: Seq<Seq<char>>)
    ensures
        extract_from(entries, acc).to_set() =~= acc.to_set().union(apparmor_value_set(entries)),
        acc.no_duplicates() ==> extract_from(entries, acc).no_duplicates(),
    decreases entries.len(),
{
    broadcast use vstd::prelude::Seq::lemma_push_to_set_commute;

    if entries.len() == 0 {
        assert(apparmor_value_set(entries) =~= Set::<Seq<char>>::empty());
    } else {
        let key = entries[0].0;
        let value = entries[0].1;
        let next = if is_apparmor_key(key) && !acc.contains(value) {
            acc.push(value)
        } else {
            acc
        };
        lemma_value_set_unfold(entries);
        lemma_extract_from(entries.drop_first(), next);
        if is_apparmor_key(key) && !acc.contains(value) {
            if acc.no_duplicates() {
                lemma_push_keeps_no_duplicates(acc, value);
            }
            assert(next.to_set() =~= acc.to_set().insert(value));
        } else if is_apparmor_key(key) {
            assert(acc.to_set().contains(value));
        }
    }
}

/// The extracted profiles are exactly the requested ones, each listed once.
pub proof fn lemma_extracted_profiles(entries: Seq<(Seq<char>, Seq<char>)>)
    ensures
        extracted_profiles(entries).to_set() =~= apparmor_value_set(entries),
        extracted_profiles(entries).no_duplicates(),
{
    lemma_extract_from(entries, Seq::empty());
    assert(Seq::<Seq<char>>::empty().to_set() =~= Set::<Seq<char>>::empty());
}

/// A resource none of whose annotation keys carries the AppArmor prefix
/// extracts no profiles at all.
pub proof fn lemma_no_apparmor_annotations(entries: Seq<(Seq<char>, Seq<char>)>)
    requires
        forall|i: int| 0 <= i < entries.len() ==> !is_apparmor_key((#[trigger] entries[i]).0),
    ensures
        extracted_profiles(entries).len() == 0,
{
    lemma_extracted_profiles(entries);
    let ex = extracted_profiles(entries);
    if ex.len() > 0 {
        assert(ex.contains(ex[0]));
        assert(apparmor_value_set(entries).contains(ex[0]));
        let i = choose|i: int|
            0 <= i < entries.len() && is_apparmor_key((#[trigger] entries[i]).0) && entries[i].1
                == ex[0];
        assert(false);
    }
}

/// Collects the AppArmor profile identifiers the resource's annotations
/// request: the values of every annotation whose key carries the fixed
/// AppArmor prefix, first occurrences kept, duplicates collapsed.
pub fn get_apparmor_profiles(pod: &Pod) -> (profiles: Vec<String>)
    ensures
        profiles.deep_view() == extracted_profiles(pod.entries()),
        profiles.deep_view().to_set() == apparmor_value_set(pod.entries()),
        profiles.deep_view().no_duplicates(),
{
    proof {
        lemma_extracted_profiles(pod.entries());
    }
    let mut profiles: Vec<String> = Vec::new();
    match &pod.annotations {
        None => {
            assert(profiles.deep_view() =~= extracted_profiles(pod.entries()));
        },
        Some(entries) => {
            let ghost all = pod.entries();
            proof {
                assert(all.skip(0) =~= all);
                assert(profiles.deep_view() =~= Seq::<Seq<char>>::empty());
            }
            let mut i: usize = 0;
            while i < entries.len()
                invariant
                    i <= entries.len(),
                    all == entries.deep_view(),
                    extract_from(all, Seq::empty()) == extract_from(
                        all.skip(i as int),
                        profiles.deep_view(),
                    ),
                decreases entries.len() - i,
            {
                let ghost before = profiles.deep_view();
                let ghost rest = all.skip(i as int);
                assert(rest[0] == all[i as int]);
                assert(all[i as int] == (entries[i as int].0@, entries[i as int].1@));
                let entry = &entries[i];
                if str_has_prefix(entry.0.as_str(), "container.apparmor.security.beta.kubernetes.io/")
                    && !contains_string(&profiles, &entry.1) {
                    profiles.push(entry.1.clone());
                    assert(profiles.deep_view() =~= before.push(entry.1@));
                }
                proof {
                    assert(rest.drop_first() =~= all.skip(i + 1));
                }
                i = i + 1;
            }
            proof {
                assert(all.skip(i as int) =~= Seq::empty());
            }
        },
    }
    profiles
}

} // verus!
