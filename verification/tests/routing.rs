use browser_select::apps::Apps;
use browser_select::command::route;
use browser_select::profile_map::ProfileMap;
use browser_select::rules::Profile;
use browser_select::url_input::parse_input_url;

const CHROME: &str = "/Applications/Google Chrome.app/Contents/MacOS/Google Chrome";
const EDGE: &str = "/Applications/Microsoft Edge.app/Contents/MacOS/Microsoft Edge";
const FIREFOX: &str = "/Applications/Firefox.app/Contents/MacOS/firefox";
const OPENER: &str = "/usr/bin/open";

fn rule(name: &str, browser: Option<Apps>, profile: Option<&str>, domains: &[&str]) -> Profile {
    Profile {
        name: name.to_string(),
        browser,
        browser_profile: profile.map(|p| p.to_string()),
        domains: domains.iter().map(|d| d.to_string()).collect(),
    }
}

#[test]
fn chrome_rule_with_resolved_profile() {
    let rules = vec![rule("work", Some(Apps::Chrome), Some("Work"), &["example.com"])];
    let mut profiles = ProfileMap::new();
    profiles.insert("Work".to_string(), "Profile 3".to_string());
    let parsed = parse_input_url("https://example.com/path").expect("test URL must parse");
    assert_eq!(parsed.host, "example.com");
    let inv = route(&rules, &profiles, &parsed.host, &parsed.full);
    assert_eq!(inv.program, CHROME);
    assert_eq!(
        inv.args,
        vec![
            "--profile-directory=Profile 3".to_string(),
            "https://example.com/path".to_string()
        ]
    );
}

#[test]
fn empty_config_uses_opener() {
    let rules: Vec<Profile> = Vec::new();
    let profiles = ProfileMap::new();
    let parsed = parse_input_url("https://unknown.org").expect("test URL must parse");
    assert_eq!(parsed.host, "unknown.org");
    // The URL's resolved string form carries the normalized trailing slash.
    assert_eq!(parsed.full, "https://unknown.org/");
    let inv = route(&rules, &profiles, &parsed.host, &parsed.full);
    assert_eq!(inv.program, OPENER);
    assert_eq!(inv.args, vec!["https://unknown.org/".to_string()]);
}

#[test]
fn non_url_input_is_rejected() {
    assert!(parse_input_url("not a url").is_none());
}

#[test]
fn url_without_host_is_rejected() {
    assert!(parse_input_url("unix:/run/foo.socket").is_none());
    assert!(parse_input_url("data:text/plain,Stuff").is_none());
}

#[test]
fn last_matching_rule_wins() {
    let rules = vec![
        rule("first", Some(Apps::Chrome), None, &["example.com"]),
        rule("second", Some(Apps::Firefox), None, &["example.com"]),
    ];
    let profiles = ProfileMap::new();
    let parsed = parse_input_url("https://example.com/x").expect("test URL must parse");
    let inv = route(&rules, &profiles, &parsed.host, &parsed.full);
    assert_eq!(inv.program, FIREFOX);
    assert_eq!(
        inv.args,
        vec!["--new-tab".to_string(), "https://example.com/x".to_string()]
    );
}

#[test]
fn firefox_rule_adds_new_tab_before_url() {
    let rules = vec![rule("ff", Some(Apps::Firefox), None, &["rust-lang.org"])];
    let profiles = ProfileMap::new();
    let parsed = parse_input_url("https://rust-lang.org/learn").expect("test URL must parse");
    let inv = route(&rules, &profiles, &parsed.host, &parsed.full);
    assert_eq!(inv.program, FIREFOX);
    assert_eq!(inv.args.len(), 2);
    assert_eq!(inv.args[0], "--new-tab");
    assert_eq!(inv.args[1], "https://rust-lang.org/learn");
}

#[test]
fn unresolved_profile_name_omits_flag() {
    let rules = vec![rule("work", Some(Apps::Chrome), Some("Missing"), &["example.com"])];
    let mut profiles = ProfileMap::new();
    profiles.insert("Work".to_string(), "Profile 3".to_string());
    let parsed = parse_input_url("https://example.com/path").expect("test URL must parse");
    let inv = route(&rules, &profiles, &parsed.host, &parsed.full);
    assert_eq!(inv.program, CHROME);
    assert_eq!(inv.args, vec!["https://example.com/path".to_string()]);
}

#[test]
fn edge_rule_with_resolved_profile() {
    let rules = vec![rule("corp", Some(Apps::Edge), Some("Corp"), &["intranet.corp"])];
    let mut profiles = ProfileMap::new();
    profiles.insert("Corp".to_string(), "Profile 7".to_string());
    let parsed = parse_input_url("https://intranet.corp/home").expect("test URL must parse");
    let inv = route(&rules, &profiles, &parsed.host, &parsed.full);
    assert_eq!(inv.program, EDGE);
    assert_eq!(
        inv.args,
        vec![
            "--profile-directory=Profile 7".to_string(),
            "https://intranet.corp/home".to_string()
        ]
    );
}

#[test]
fn unmatched_host_uses_opener_with_url_only() {
    let rules = vec![
        rule("work", Some(Apps::Chrome), Some("Work"), &["example.com", "example.net"]),
        rule("ff", Some(Apps::Firefox), None, &["rust-lang.org"]),
    ];
    let profiles = ProfileMap::new();
    let parsed = parse_input_url("https://elsewhere.io/").expect("test URL must parse");
    let inv = route(&rules, &profiles, &parsed.host, &parsed.full);
    assert_eq!(inv.program, OPENER);
    assert_eq!(inv.args, vec!["https://elsewhere.io/".to_string()]);
}

#[test]
fn rule_without_browser_falls_back_to_opener() {
    let rules = vec![rule("plain", None, None, &["example.com"])];
    let profiles = ProfileMap::new();
    let parsed = parse_input_url("https://example.com/a").expect("test URL must parse");
    let inv = route(&rules, &profiles, &parsed.host, &parsed.full);
    assert_eq!(inv.program, OPENER);
    assert_eq!(inv.args, vec!["https://example.com/a".to_string()]);
}

#[test]
fn host_match_is_case_sensitive_and_exact() {
    let rules = vec![rule("work", Some(Apps::Chrome), None, &["example.com"])];
    let profiles = ProfileMap::new();
    // The host of a parsed URL is distinct from a superstring domain.
    let parsed = parse_input_url("https://www.example.com/").expect("test URL must parse");
    assert_eq!(parsed.host, "www.example.com");
    let inv = route(&rules, &profiles, &parsed.host, &parsed.full);
    assert_eq!(inv.program, OPENER);
}

#[test]
fn app_paths_are_fixed() {
    assert_eq!(Apps::Chrome.path(), CHROME);
    assert_eq!(Apps::Edge.path(), EDGE);
    assert_eq!(Apps::Firefox.path(), FIREFOX);
    assert_eq!(Apps::Default.path(), OPENER);
}

#[test]
fn profile_dir_resolves_through_mapping() {
    let mut profiles = ProfileMap::new();
    profiles.insert("Work".to_string(), "Profile 3".to_string());
    let with_profile = rule("w", Some(Apps::Chrome), Some("Work"), &["example.com"]);
    assert_eq!(with_profile.profile_dir(&profiles), Some("Profile 3".to_string()));
    let missing = rule("m", Some(Apps::Chrome), Some("Home"), &["example.com"]);
    assert_eq!(missing.profile_dir(&profiles), None);
    let unnamed = rule("n", Some(Apps::Chrome), None, &["example.com"]);
    assert_eq!(unnamed.profile_dir(&profiles), None);
}
