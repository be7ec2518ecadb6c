use vstd::prelude::*;

use crate::apps::Apps;
use crate::profile_map::ProfileMap;

verus! {

/// Mathematical form of a routing rule.
pub struct ProfileV {
    pub name: Seq<char>,
    pub browser: Option<Apps>,
    pub browser_profile: Option<Seq<char>>,
    pub domains: Seq<Seq<char>>,
}

/// A routing rule: requests for one of `domains` go to `browser`,
/// opened under the browser profile named `browser_profile`.
pub struct Profile {
    pub name: String,
    pub browser: Option<Apps>,
    pub browser_profile: Option<String>,
    pub domains: Vec<String>,
}

impl View for Profile {
    type V = ProfileV;

    open spec fn view(&self) -> ProfileV {
        ProfileV {
            name: self.name@,
            browser: self.browser,
            browser_profile: self.browser_profile.deep_view(),
            domains: self.domains.deep_view(),
        }
    }
}

impl DeepView for Profile {
    type V = ProfileV;

    open spec fn deep_view(&self) -> ProfileV {
        self.view()
    }
}

/// The directory identifier a rule's profile name resolves to, if the
/// rule names one and the scan discovered it.
pub open spec fn profile_dir_of(rule: ProfileV, profiles: Map<Seq<char>, Seq<char>>) -> Option<
    Seq<char>,
> {
    match rule.browser_profile {
        None => None,
        Some(p) => if profiles.dom().contains(p) {
            Some(profiles[p])
        } else {
            None
        },
    }
}

impl Profile {
    /// Resolve this rule's profile display name against the discovered
    /// mapping; `None` when the rule names no profile or the name is
    /// not in the mapping.
    pub fn profile_dir(&self, profiles: &ProfileMap) -> (r: Option<String>)
        requires
            profiles.wf(),
        ensures
            r.deep_view() == profile_dir_of(self@, profiles@),
    {
        match &self.browser_profile {
            None => None,
            Some(p) => match profiles.get(p) {
                Some(d) => Some(d.clone()),
                None => None,
            },
        }
    }
}

/// Whether a rule's domain list contains the host (exact,
/// case-sensitive comparison).
pub open spec fn domains_contain(domains: Seq<Seq<char>>, host: Seq<char>) -> bool {
    exists|i: int| 0 <= i < domains.len() && domains[i] == host
}

/// The rule in effect for a host: the index of the last rule whose
/// domain list contains the host, or `None` when no rule's does.
pub open spec fn matching_rule(rules: Seq<ProfileV>, host: Seq<char>) -> Option<int>
    decreases rules.len(),
{
    if rules.len() == 0 {
        None
    } else if domains_contain(rules.last().domains, host) {
        Some(rules.len() - 1)
    } else {
        matching_rule(rules.drop_last(), host)
    }
}

/// Exact string membership of a host in a domain list.
pub fn contains_host(domains: &Vec<String>, host: &String) -> (r: bool)
    ensures
        r == domains_contain(domains.deep_view(), host@),
{
    let mut i: usize = 0;
    while i < domains.len()
        invariant
            i <= domains.len(),
            forall|j: int| 0 <= j < i ==> domains.deep_view()[j] != host@,
        decreases domains.len() - i,
    {
        if domains[i] == *host {
            proof {
                assert(domains.deep_view()[i as int] == host@);
            }
            return true;
        }
        i += 1;
    }
    false
}

/// Scan the rule list for the host; the last rule whose domain list
/// contains it wins, so a later rule overrides an earlier one.
pub fn find_rule(rules: &Vec<Profile>, host: &String) -> (r: Option<usize>)
    ensures
        match r {
            Some(i) => i < rules.len() && matching_rule(rules.deep_view(), host@) == Some(
                i as int,
            ),
            None => matching_rule(rules.deep_view(), host@) is None,
        },
{
    let ghost deep = rules.deep_view();
    let mut i: usize = 0;
    let mut sel: Option<usize> = None;
    while i < rules.len()
        invariant
            deep == rules.deep_view(),
            i <= rules.len(),
            match sel {
                Some(k) => k < i && matching_rule(deep.take(i as int), host@) == Some(k as int),
                None => matching_rule(deep.take(i as int), host@) is None,
            },
        decreases rules.len() - i,
    {
        proof {
            assert(deep.take(i + 1).drop_last() =~= deep.take(i as int));
            assert(deep.take(i + 1).last() == deep[i as int]);
        }
        if contains_host(&rules[i].domains, host) {
            sel = Some(i);
        }
        i += 1;
    }
    proof {
        assert(deep.take(rules.len() as int) =~= deep);
    }
    sel
}

/// The match is sound and maximal: a returned index names a rule that
/// lists the host and no later rule does; `None` means no rule lists it.
pub proof fn lemma_matching_rule_characterization(rules: Seq<ProfileV>, host: Seq<char>)
    ensures
        match matching_rule(rules, host) {
            Some(k) => 0 <= k < rules.len() && domains_contain(rules[k].domains, host) && forall|
                j: int,
            | k < j < rules.len() ==> !domains_contain(#[trigger] rules[j].domains, host),
            None => forall|j: int|
                0 <= j < rules.len() ==> !domains_contain(#[trigger] rules[j].domains, host),
        },
    decreases rules.len(),
{
    if rules.len() > 0 && !domains_contain(rules.last().domains, host) {
        lemma_matching_rule_characterization(rules.drop_last(), host);
        assert(forall|j: int|
            0 <= j < rules.len() - 1 ==> rules.drop_last()[j] == rules[j]);
    }
}

/// Law: when two rules both list the host, the one standing later in
/// the rule list is the one in effect.
pub proof fn lemma_last_match_wins(rules: Seq<ProfileV>, host: Seq<char>, i: int, j: int)
    requires
        0 <= i < j < rules.len(),
        domains_contain(rules[i].domains, host),
        domains_contain(rules[j].domains, host),
    ensures
        matching_rule(rules, host) matches Some(k) && j <= k < rules.len(),
{
    lemma_matching_rule_characterization(rules, host);
}

} // verus!
