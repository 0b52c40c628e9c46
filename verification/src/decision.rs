//! The accept/reject decision: compare the requested profiles against the
//! allow-list and render the rejection reason.

use vstd::prelude::*;
use vstd::string::StringExecFns;
use crate::settings::Settings;
use crate::text::contains_string;

verus! {

/// The outcome of one evaluation: the request may proceed, or it is refused
/// with a human-readable reason naming every disallowed profile.
pub enum Decision {
    Accept,
    Reject(String),
}

impl Decision {
    /// Whether the request may proceed.
    pub fn is_accepted(&self) -> (r: bool)
        ensures
            r == (self is Accept),
    {
        match self {
            Decision::Accept => true,
            Decision::Reject(_) => false,
        }
    }

    /// The rejection reason, absent on acceptance.
    pub fn message(&self) -> (m: Option<&String>)
        ensures
            match self {
                Decision::Accept => m is None,
                Decision::Reject(s) => m matches Some(x) && x@ == s@,
            },
    {
        match self {
            Decision::Accept => None,
            Decision::Reject(s) => Some(s),
        }
    }
}

/// The requested profiles that the allow-list does not cover, in the order
/// they were extracted.
pub open spec fn disallowed_profiles(allowed: Set<Seq<char>>, profiles: Seq<Seq<char>>) -> Seq<
    Seq<char>,
> {
    profiles.filter(|p: Seq<char>| !allowed.contains(p))
}

/// A profile identifier as it appears in the rejection reason.
pub open spec fn quoted(p: Seq<char>) -> Seq<char> {
    "\""@ + p + "\""@
}

/// The disallowed profiles, quoted and separated by commas.
pub open spec fn enumerated(dis: Seq<Seq<char>>) -> Seq<char>
    decreases dis.len(),
{
    if dis.len() == 0 {
        Seq::empty()
    } else if dis.len() == 1 {
        quoted(dis[0])
    } else {
        quoted(dis[0]) + ", "@ + enumerated(dis.drop_first())
    }
}

/// The full rejection reason for a non-empty disallowed sequence.
pub open spec fn reject_message(dis: Seq<Seq<char>>) -> Seq<char> {
    "These AppArmor profiles are not allowed: ["@ + enumerated(dis) + "]"@
}

/// What any Decision returned for the given allow-list and extracted
/// profiles must be: Accept exactly when every extracted profile is allowed,
/// and otherwise a rejection whose message enumerates the disallowed ones.
pub open spec fn decision_post(
    allowed: Set<Seq<char>>,
    profiles: Seq<Seq<char>>,
    d: Decision,
) -> bool {
    let dis = disallowed_profiles(allowed, profiles);
    if dis.len() == 0 {
        d is Accept
    } else {
        d matches Decision::Reject(m) && m@ == reject_message(dis)
    }
}

/// Extending an enumeration by one further profile appends a separator and
/// the quoted profile.
proof fn lemma_enumerated_push(dis: Seq<Seq<char>>, p: Seq<char>)
    ensures
        enumerated(dis.push(p)) == if dis.len() == 0 {
            quoted(p)
        } else {
            enumerated(dis) + ", "@ + quoted(p)
        },
    decreases dis.len(),
{
    let pushed = dis.push(p);
    if dis.len() == 0 {
        assert(pushed.len() == 1);
        assert(pushed[0] == p);
    } else if dis.len() == 1 {
        assert(pushed.len() == 2);
        assert(pushed.drop_first() =~= seq![p]);
        assert(enumerated(pushed.drop_first()) == quoted(pushed.drop_first()[0]));
        assert(pushed.drop_first()[0] == p);
        assert(enumerated(pushed) == quoted(dis[0]) + ", "@ + quoted(p));
    } else {
        assert(pushed.drop_first() =~= dis.drop_first().push(p));
        lemma_enumerated_push(dis.drop_first(), p);
        assert(quoted(pushed[0]) + ", "@ + (enumerated(dis.drop_first()) + ", "@ + quoted(p))
            =~= (quoted(dis[0]) + ", "@ + enumerated(dis.drop_first())) + ", "@ + quoted(p));
    }
}

/// Renders the rejection reason that names every disallowed profile.
fn render_message(disallowed: &Vec<String>) -> (m: String)
    requires
        disallowed.len() > 0,
    ensures
        m@ == reject_message(disallowed.deep_view()),
{
    let ghost dv = disallowed.deep_view();
    let mut m = String::from_str("These AppArmor profiles are not allowed: [");
    m.append("\"");
    m.append(disallowed[0].as_str());
    m.append("\"");
    proof {
        assert(dv.take(1).len() == 1);
        assert(dv.take(1)[0] == dv[0]);
        assert(m@ =~= "These AppArmor profiles are not allowed: ["@ + enumerated(dv.take(1)));
    }
    let mut i: usize = 1;
    while i < disallowed.len()
        invariant
            1 <= i <= disallowed.len(),
            dv == disallowed.deep_view(),
            dv.len() == disallowed.len(),
            m@ == "These AppArmor profiles are not allowed: ["@ + enumerated(dv.take(i as int)),
        decreases disallowed.len() - i,
    {
        m.append(", ");
        m.append("\"");
        m.append(disallowed[i].as_str());
        m.append("\"");
        proof {
            lemma_enumerated_push(dv.take(i as int), dv[i as int]);
            assert(dv.take(i + 1) =~= dv.take(i as int).push(dv[i as int]));
            assert(dv.take(i as int).len() > 0);
            assert(m@ =~= "These AppArmor profiles are not allowed: ["@ + enumerated(
                dv.take(i + 1),
            ));
        }
        i = i + 1;
    }
    m.append("]");
    proof {
        assert(dv.take(dv.len() as int) =~= dv);
        assert(m@ =~= reject_message(dv));
    }
    m
}

/// Decides whether the extracted profiles may proceed under the settings'
/// allow-list: Accept when every extracted profile (in particular, none at
/// all) is allowed, Reject naming every profile the allow-list lacks.
pub fn evaluate(settings: &Settings, extracted_profiles: &Vec<String>) -> (decision: Decision)
    ensures
        decision_post(settings.allowed_set(), extracted_profiles.deep_view(), decision),
{
    let ghost allowed = settings.allowed_set();
    let ghost pv = extracted_profiles.deep_view();
    let mut disallowed: Vec<String> = Vec::new();
    proof {
        reveal(Seq::filter);
        assert(pv.take(0) =~= Seq::<Seq<char>>::empty());
        assert(disallowed.deep_view() =~= Seq::<Seq<char>>::empty());
        assert(disallowed_profiles(allowed, pv.take(0)).len() == 0);
    }
    let mut i: usize = 0;
    while i < extracted_profiles.len()
        invariant
            i <= extracted_profiles.len(),
            allowed == settings.allowed_set(),
            pv == extracted_profiles.deep_view(),
            pv.len() == extracted_profiles.len(),
            disallowed.deep_view() == disallowed_profiles(allowed, pv.take(i as int)),
        decreases extracted_profiles.len() - i,
    {
        let ghost before = disallowed.deep_view();
        let covered = contains_string(&settings.allowed_profiles, &extracted_profiles[i]);
        proof {
            assert(allowed.contains(pv[i as int]) == settings.allowed_profiles.deep_view().contains(
                pv[i as int],
            ));
        }
        if !covered {
            disallowed.push(extracted_profiles[i].clone());
            assert(disallowed.deep_view() =~= before.push(pv[i as int]));
        }
        proof {
            reveal(Seq::filter);
            assert(pv.take(i + 1).drop_last() =~= pv.take(i as int));
            assert(pv.take(i + 1).last() == pv[i as int]);
            assert(disallowed_profiles(allowed, pv.take(i + 1)) == if !allowed.contains(
                pv[i as int],
            ) {
                disallowed_profiles(allowed, pv.take(i as int)).push(pv[i as int])
            } else {
                disallowed_profiles(allowed, pv.take(i as int))
            });
        }
        i = i + 1;
    }
    proof {
        assert(pv.take(pv.len() as int) =~= pv);
    }
    if disallowed.is_empty() {
        Decision::Accept
    } else {
        Decision::Reject(render_message(&disallowed))
    }
}

/// A request that extracts no profiles is always accepted, whatever the
/// allow-list holds: with nothing requested, nothing can be disallowed.
pub proof fn lemma_no_profiles_accept(
    allowed: Set<Seq<char>>,
    profiles: Seq<Seq<char>>,
    d: Decision,
)
    requires
        profiles.len() == 0,
        decision_post(allowed, profiles, d),
    ensures
        d is Accept,
{
    reveal(Seq::filter);
}

/// A request whose extracted profiles all lie in the allow-list is accepted.
pub proof fn lemma_covered_profiles_accept(
    allowed: Set<Seq<char>>,
    profiles: Seq<Seq<char>>,
    d: Decision,
)
    requires
        profiles.to_set().subset_of(allowed),
        decision_post(allowed, profiles, d),
    ensures
        d is Accept,
{
    lemma_covered_filter_empty(allowed, profiles);
}

/// Every extracted profile allowed means nothing is disallowed.
proof fn lemma_covered_filter_empty(allowed: Set<Seq<char>>, profiles: Seq<Seq<char>>)
    requires
        forall|i: int| 0 <= i < profiles.len() ==> allowed.contains(#[trigger] profiles[i]),
    ensures
        disallowed_profiles(allowed, profiles).len() == 0,
    decreases profiles.len(),
{
    reveal(Seq::filter);
    if profiles.len() > 0 {
        let rest = profiles.drop_last();
        assert(forall|i: int| 0 <= i < rest.len() ==> allowed.contains(#[trigger] rest[i]));
        lemma_covered_filter_empty(allowed, rest);
    }
}

/// The disallowed profiles are, as a set, exactly the extracted profiles
/// minus the allow-list.
pub proof fn lemma_disallowed_set(allowed: Set<Seq<char>>, profiles: Seq<Seq<char>>)
    ensures
        disallowed_profiles(allowed, profiles).to_set() =~= profiles.to_set().difference(allowed),
    decreases profiles.len(),
{
    broadcast use vstd::prelude::Seq::lemma_push_to_set_commute;

    reveal(Seq::filter);
    if profiles.len() == 0 {
    } else {
        let last = profiles.last();
        let rest = profiles.drop_last();
        lemma_disallowed_set(allowed, rest);
        assert(rest.push(last) =~= profiles);
        assert(profiles.to_set() =~= rest.to_set().insert(last));
    }
}

/// A request with at least one extracted profile outside the allow-list is
/// rejected, and its message enumerates exactly the disallowed set.
pub proof fn lemma_uncovered_profile_rejects(
    allowed: Set<Seq<char>>,
    profiles: Seq<Seq<char>>,
    p: Seq<char>,
    d: Decision,
)
    requires
        profiles.contains(p),
        !allowed.contains(p),
        decision_post(allowed, profiles, d),
    ensures
        d matches Decision::Reject(m) && m@ == reject_message(
            disallowed_profiles(allowed, profiles),
        ),
        disallowed_profiles(allowed, profiles).to_set() =~= profiles.to_set().difference(allowed),
{
    lemma_disallowed_set(allowed, profiles);
    let dis = disallowed_profiles(allowed, profiles);
    assert(dis.to_set().contains(p));
    assert(dis.contains(p));
    assert(dis.len() > 0);
}

/// Evaluation is a function of the allow-list and the extracted profiles
/// alone: two decisions for the same inputs agree on the variant and on the
/// rejection reason.
pub proof fn lemma_evaluation_deterministic(
    allowed: Set<Seq<char>>,
    profiles: Seq<Seq<char>>,
    d1: Decision,
    d2: Decision,
)
    requires
        decision_post(allowed, profiles, d1),
        decision_post(allowed, profiles, d2),
    ensures
        d1 is Accept <==> d2 is Accept,
        d1 matches Decision::Reject(m1) ==> (d2 matches Decision::Reject(m2) && m1@ == m2@),
{
}

} // verus!
