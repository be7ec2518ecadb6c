use vstd::prelude::*;
use vstd::string::StringExecFns;

use crate::apps::Apps;
use crate::apps::app_path_spec;
use crate::apps::firefox_path_spec;
use crate::apps::open_path_spec;
use crate::profile_map::ProfileMap;
use crate::rules::Profile;
use crate::rules::ProfileV;
use crate::rules::domains_contain;
use crate::rules::find_rule;
use crate::rules::lemma_matching_rule_characterization;
use crate::rules::matching_rule;
use crate::rules::profile_dir_of;

verus! {

/// An executable path together with the ordered argument list it is to
/// be launched with; the last argument is always the URL itself.
pub struct Invocation {
    pub program: String,
    pub args: Vec<String>,
}

/// The browser a (possibly absent) rule selects; an absent rule and an
/// absent browser field both fall back to the OS opener.
pub open spec fn effective_app(rule: Option<ProfileV>) -> Apps {
    match rule {
        None => Apps::Default,
        Some(r) => match r.browser {
            None => Apps::Default,
            Some(a) => a,
        },
    }
}

/// The profile directory in effect: the rule's profile name resolved
/// against the discovered mapping.
pub open spec fn resolved_dir(rule: Option<ProfileV>, profiles: Map<Seq<char>, Seq<char>>) -> Option<
    Seq<char>,
> {
    match rule {
        None => None,
        Some(r) => profile_dir_of(r, profiles),
    }
}

pub open spec fn profile_flag_spec(dir: Seq<char>) -> Seq<char> {
    "--profile-directory="@ + dir
}

/// The argument list for a browser kind: a profile flag for Chrome and
/// Edge when one resolved, `--new-tab` for Firefox, and the URL last.
pub open spec fn args_for(app: Apps, dir: Option<Seq<char>>, url: Seq<char>) -> Seq<Seq<char>> {
    match app {
        Apps::Chrome | Apps::Edge => match dir {
            Some(d) => seq![profile_flag_spec(d), url],
            None => seq![url],
        },
        Apps::Firefox => seq!["--new-tab"@, url],
        Apps::Default => seq![url],
    }
}

pub open spec fn command_program(rule: Option<ProfileV>) -> Seq<char> {
    app_path_spec(effective_app(rule))
}

pub open spec fn command_args(
    rule: Option<ProfileV>,
    profiles: Map<Seq<char>, Seq<char>>,
    url: Seq<char>,
) -> Seq<Seq<char>> {
    args_for(effective_app(rule), resolved_dir(rule, profiles), url)
}

/// Build the command for the rule in effect (or none): executable path
/// and arguments, ending in the URL.
pub fn build_command(rule: Option<&Profile>, profiles: &ProfileMap, url: &String) -> (r:
    Invocation)
    requires
        profiles.wf(),
    ensures
        r.program@ == command_program(rule.deep_view()),
        r.args.deep_view() == command_args(rule.deep_view(), profiles@, url@),
{
    let app = match rule {
        None => Apps::Default,
        Some(r) => match r.browser {
            None => Apps::Default,
            Some(a) => a,
        },
    };
    let mut args: Vec<String> = Vec::new();
    match app {
        Apps::Chrome | Apps::Edge => {
            if let Some(r) = rule {
                if let Some(dir) = r.profile_dir(profiles) {
                    let flag = String::from_str("--profile-directory=").concat(dir.as_str());
                    args.push(flag);
                }
            }
        },
        Apps::Firefox => {
            args.push(String::from_str("--new-tab"));
        },
        Apps::Default => {},
    }
    args.push(url.clone());
    let program = String::from_str(app.path());
    proof {
        assert(args.deep_view() =~= command_args(rule.deep_view(), profiles@, url@));
    }
    Invocation { program, args }
}

/// The rule in effect for a host, drawn from the rule list.
pub open spec fn routed_rule(rules: Seq<ProfileV>, host: Seq<char>) -> Option<ProfileV> {
    match matching_rule(rules, host) {
        None => None,
        Some(i) => Some(rules[i]),
    }
}

/// Route a host: exactly one command is built per run, from the last
/// matching rule, or for the OS opener when no rule matches.
pub fn route(rules: &Vec<Profile>, profiles: &ProfileMap, host: &String, url: &String) -> (r:
    Invocation)
    requires
        profiles.wf(),
    ensures
        r.program@ == command_program(routed_rule(rules.deep_view(), host@)),
        r.args.deep_view() == command_args(routed_rule(rules.deep_view(), host@), profiles@, url@),
{
    match find_rule(rules, host) {
        Some(i) => build_command(Some(&rules[i]), profiles, url),
        None => build_command(None, profiles, url),
    }
}

/// Law: a rule whose profile name is absent from the discovered
/// mapping gets no profile-directory flag; its arguments are the URL
/// alone, after `--new-tab` in the Firefox case.
pub proof fn lemma_unresolved_profile_omits_flag(
    rule: ProfileV,
    profiles: Map<Seq<char>, Seq<char>>,
    url: Seq<char>,
)
    requires
        rule.browser_profile matches Some(p) && !profiles.dom().contains(p),
    ensures
        effective_app(Some(rule)) == Apps::Firefox ==> command_args(Some(rule), profiles, url)
            == seq!["--new-tab"@, url],
        effective_app(Some(rule)) != Apps::Firefox ==> command_args(Some(rule), profiles, url)
            == seq![url],
{
}

/// Law: a Firefox rule launches the Firefox executable with `--new-tab`
/// immediately before the final URL argument.
pub proof fn lemma_firefox_new_tab(
    rule: ProfileV,
    profiles: Map<Seq<char>, Seq<char>>,
    url: Seq<char>,
)
    requires
        rule.browser == Some(Apps::Firefox),
    ensures
        command_program(Some(rule)) == firefox_path_spec(),
        command_args(Some(rule), profiles, url) == seq!["--new-tab"@, url],
{
}

/// Law: a host listed in no rule's domain list is routed to the generic
/// OS opener with the URL as the only argument.
pub proof fn lemma_unmatched_host_uses_opener(
    rules: Seq<ProfileV>,
    host: Seq<char>,
    profiles: Map<Seq<char>, Seq<char>>,
    url: Seq<char>,
)
    requires
        forall|i: int| 0 <= i < rules.len() ==> !domains_contain(#[trigger] rules[i].domains, host),
    ensures
        routed_rule(rules, host) is None,
        command_program(routed_rule(rules, host)) == open_path_spec(),
        command_args(routed_rule(rules, host), profiles, url) == seq![url],
{
    lemma_matching_rule_characterization(rules, host);
}

} // verus!
