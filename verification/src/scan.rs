use vstd::prelude::*;
use vstd::string::StrSliceExecFns;
use vstd::string::StringExecFns;

use crate::profile_map::ProfileMap;

verus! {

/// `p` occurs contiguously somewhere in `s`.
pub open spec fn has_substring(s: Seq<char>, p: Seq<char>) -> bool {
    exists|i: int| 0 <= i <= s.len() - p.len() && #[trigger] s.subrange(i, i + p.len()) == p
}

/// Whether `pat` occurs at position `at` of `s`.
fn match_at(s: &str, pat: &str, at: usize) -> (r: bool)
    requires
        at + pat@.len() <= s@.len(),
    ensures
        r == (s@.subrange(at as int, at + pat@.len()) == pat@),
{
    let n = s.unicode_len();
    let m = pat.unicode_len();
    let mut j: usize = 0;
    while j < m
        invariant
            n == s@.len(),
            m == pat@.len(),
            at + m <= n,
            j <= m,
            forall|t: int| 0 <= t < j ==> s@[at + t] == pat@[t],
        decreases m - j,
    {
        if s.get_char(at + j) != pat.get_char(j) {
            proof {
                assert(s@.subrange(at as int, at + m)[j as int] == s@[at + j]);
            }
            return false;
        }
        j += 1;
    }
    proof {
        assert(s@.subrange(at as int, at + m) =~= pat@);
    }
    true
}

/// Exact substring search, by character comparison.
pub fn str_has_substring(s: &str, pat: &str) -> (r: bool)
    ensures
        r == has_substring(s@, pat@),
{
    let n = s.unicode_len();
    let m = pat.unicode_len();
    if m > n {
        return false;
    }
    if m == 0 {
        proof {
            assert(s@.subrange(0, 0 + pat@.len() as int) =~= pat@);
            assert(0 <= 0 <= s@.len() - pat@.len() && s@.subrange(0, 0 + pat@.len() as int) == pat@);
        }
        return true;
    }
    let mut i: usize = 0;
    while i <= n - m
        invariant
            n == s@.len(),
            m == pat@.len(),
            1 <= m <= n,
            i <= n - m + 1,
            forall|t: int| 0 <= t < i ==> #[trigger] s@.subrange(t, t + m as int) != pat@,
        decreases n - m - i + 1,
    {
        if match_at(s, pat, i) {
            proof {
                assert(0 <= i as int <= s@.len() - pat@.len() && s@.subrange(
                    i as int,
                    i as int + pat@.len(),
                ) == pat@);
            }
            return true;
        }
        i += 1;
    }
    false
}

/// One entry of a walk of the profile-storage tree, as plain values:
/// its full path, its file name, the name of the directory holding it,
/// and whether the entry is itself a directory.
pub struct WalkEntry {
    pub path: String,
    pub file_name: String,
    pub parent_segment: String,
    pub is_dir: bool,
}

pub struct WalkEntryV {
    pub path: Seq<char>,
    pub file_name: Seq<char>,
    pub parent_segment: Seq<char>,
    pub is_dir: bool,
}

impl View for WalkEntry {
    type V = WalkEntryV;

    open spec fn view(&self) -> WalkEntryV {
        WalkEntryV {
            path: self.path@,
            file_name: self.file_name@,
            parent_segment: self.parent_segment@,
            is_dir: self.is_dir,
        }
    }
}

impl DeepView for WalkEntry {
    type V = WalkEntryV;

    open spec fn deep_view(&self) -> WalkEntryV {
        self.view()
    }
}

/// A file the scan will read: a profile metadata file, with the
/// profile's directory identifier (its parent directory's name).
pub struct Candidate {
    pub path: String,
    pub parent_segment: String,
}

pub struct CandidateV {
    pub path: Seq<char>,
    pub parent_segment: Seq<char>,
}

impl View for Candidate {
    type V = CandidateV;

    open spec fn view(&self) -> CandidateV {
        CandidateV { path: self.path@, parent_segment: self.parent_segment@ }
    }
}

impl DeepView for Candidate {
    type V = CandidateV;

    open spec fn deep_view(&self) -> CandidateV {
        self.view()
    }
}

/// A walk entry is a profile metadata file when it is a regular file
/// named "Preferences" whose path carries the "Profile" marker (the
/// root/default profile directory carries no such marker).
pub open spec fn is_profile_candidate(e: WalkEntryV) -> bool {
    &&& !e.is_dir
    &&& has_substring(e.path, "Profile"@)
    &&& e.file_name == "Preferences"@
}

/// The candidates of a walk, in walk order.
pub open spec fn candidates_of(entries: Seq<WalkEntryV>) -> Seq<CandidateV>
    decreases entries.len(),
{
    if entries.len() == 0 {
        Seq::empty()
    } else {
        let prev = candidates_of(entries.drop_last());
        let last = entries.last();
        if is_profile_candidate(last) {
            prev + seq![CandidateV { path: last.path, parent_segment: last.parent_segment }]
        } else {
            prev
        }
    }
}

/// Keep exactly the profile metadata files of a walk, each with its
/// profile directory identifier.
pub fn select_candidates(entries: &Vec<WalkEntry>) -> (r: Vec<Candidate>)
    ensures
        r.deep_view() == candidates_of(entries.deep_view()),
{
    let ghost deep = entries.deep_view();
    let mut r: Vec<Candidate> = Vec::new();
    proof {
        assert(r.deep_view() =~= candidates_of(deep.take(0)));
    }
    let mut i: usize = 0;
    while i < entries.len()
        invariant
            deep == entries.deep_view(),
            i <= entries.len(),
            r.deep_view() == candidates_of(deep.take(i as int)),
        decreases entries.len() - i,
    {
        proof {
            assert(deep.take(i + 1).drop_last() =~= deep.take(i as int));
            assert(deep.take(i + 1).last() == deep[i as int]);
        }
        let e = &entries[i];
        if !e.is_dir && str_has_substring(e.path.as_str(), "Profile") && e.file_name
            == String::from_str("Preferences") {
            r.push(Candidate { path: e.path.clone(), parent_segment: e.parent_segment.clone() });
            proof {
                assert(r.deep_view() =~= candidates_of(deep.take(i + 1)));
            }
        } else {
            proof {
                assert(!is_profile_candidate(deep[i as int]));
            }
        }
        i += 1;
    }
    proof {
        assert(deep.take(entries.len() as int) =~= deep);
    }
    r
}

/// The display name a profile metadata file assigns its profile: the
/// string under the "profile"/"name" keys of the JSON text, or `None`
/// for text that does not parse or lacks the field.
pub uninterp spec fn profile_name_of(contents: Seq<char>) -> Option<Seq<char>>;

/// Relies on serde_json::from_str, serde_json::Value's `[]` indexing and
/// Value::as_str: the "profile"/"name" field of the JSON text, `None` on
/// a parse failure or a missing or non-string field. The result depends
/// on the text alone.
#[verifier::external_body]
fn extract_profile_name(contents: &str) -> (r: Option<String>)
    ensures
        r.deep_view() == profile_name_of(contents@),
{
    let value: serde_json::Value = match serde_json::from_str(contents) {
        Ok(v) => v,
        Err(_) => return None,
    };
    value["profile"]["name"].as_str().map(|s| s.to_string())
}

/// What one candidate yielded: the metadata file's text, if it could be
/// read, and the profile directory identifier it stands for.
pub struct ProfileSource {
    pub contents: Option<String>,
    pub parent_segment: String,
}

pub struct ProfileSourceV {
    pub contents: Option<Seq<char>>,
    pub parent_segment: Seq<char>,
}

impl View for ProfileSource {
    type V = ProfileSourceV;

    open spec fn view(&self) -> ProfileSourceV {
        ProfileSourceV {
            contents: self.contents.deep_view(),
            parent_segment: self.parent_segment@,
        }
    }
}

impl DeepView for ProfileSource {
    type V = ProfileSourceV;

    open spec fn deep_view(&self) -> ProfileSourceV {
        self.view()
    }
}

/// The display name one source contributes, if its text was read and
/// parsed and the field was present.
pub open spec fn source_name(item: ProfileSourceV) -> Option<Seq<char>> {
    match item.contents {
        None => None,
        Some(c) => profile_name_of(c),
    }
}

/// The mapping a scan builds: each source that yields a display name
/// maps it to the source's directory identifier; a later source
/// silently overwrites an earlier one with the same name; a source
/// that yields none is silently skipped.
pub open spec fn profile_map_of(items: Seq<ProfileSourceV>) -> Map<Seq<char>, Seq<char>>
    decreases items.len(),
{
    if items.len() == 0 {
        Map::empty()
    } else {
        let prev = profile_map_of(items.drop_last());
        match source_name(items.last()) {
            None => prev,
            Some(name) => prev.insert(name, items.last().parent_segment),
        }
    }
}

/// Build the display-name-to-directory mapping from what was read out
/// of the candidate metadata files.
pub fn build_profile_map(sources: &Vec<ProfileSource>) -> (r: ProfileMap)
    ensures
        r.wf(),
        r@ == profile_map_of(sources.deep_view()),
{
    let ghost deep = sources.deep_view();
    let mut r = ProfileMap::new();
    let mut i: usize = 0;
    while i < sources.len()
        invariant
            deep == sources.deep_view(),
            i <= sources.len(),
            r.wf(),
            r@ == profile_map_of(deep.take(i as int)),
        decreases sources.len() - i,
    {
        proof {
            assert(deep.take(i + 1).drop_last() =~= deep.take(i as int));
            assert(deep.take(i + 1).last() == deep[i as int]);
        }
        let s = &sources[i];
        match &s.contents {
            None => {},
            Some(c) => match extract_profile_name(c.as_str()) {
                None => {},
                Some(name) => {
                    r.insert(name, s.parent_segment.clone());
                },
            },
        }
        i += 1;
    }
    proof {
        assert(deep.take(sources.len() as int) =~= deep);
    }
    r
}

/// A name is in the scanned mapping exactly when some source yields it.
proof fn lemma_profile_map_dom(items: Seq<ProfileSourceV>, k: Seq<char>)
    ensures
        profile_map_of(items).dom().contains(k) <==> exists|i: int|
            0 <= i < items.len() && source_name(#[trigger] items[i]) == Some(k),
    decreases items.len(),
{
    if items.len() > 0 {
        lemma_profile_map_dom(items.drop_last(), k);
        if source_name(items.last()) == Some(k) {
            assert(source_name(items[items.len() - 1]) == Some(k));
        } else {
            if exists|i: int| 0 <= i < items.len() && source_name(#[trigger] items[i]) == Some(k) {
                let i = choose|i: int|
                    0 <= i < items.len() && source_name(#[trigger] items[i]) == Some(k);
                assert(items.drop_last()[i] == items[i]);
            }
        }
    }
}

/// Law: a scan over sources that all yield a display name, the names
/// pairwise distinct, builds a mapping with exactly one entry per
/// source.
pub proof fn lemma_scan_distinct_names(items: Seq<ProfileSourceV>)
    requires
        forall|i: int| 0 <= i < items.len() ==> source_name(#[trigger] items[i]) is Some,
        forall|i: int, j: int|
            0 <= i < j < items.len() ==> source_name(items[i]) != source_name(items[j]),
    ensures
        profile_map_of(items).dom().finite(),
        profile_map_of(items).dom().len() == items.len(),
    decreases items.len(),
{
    broadcast use vstd::set::axiom_set_insert_len;

    if items.len() > 0 {
        let n = items.len() as int;
        assert(forall|j: int| 0 <= j < n - 1 ==> items.drop_last()[j] == items[j]);
        lemma_scan_distinct_names(items.drop_last());
        assert(source_name(items[n - 1]) is Some);
        let name = source_name(items.last())->Some_0;
        lemma_profile_map_dom(items.drop_last(), name);
        assert(!profile_map_of(items.drop_last()).dom().contains(name)) by {
            if profile_map_of(items.drop_last()).dom().contains(name) {
                let i = choose|i: int|
                    0 <= i < items.drop_last().len() && source_name(
                        #[trigger] items.drop_last()[i],
                    ) == Some(name);
                assert(source_name(items[i]) == Some(name));
                assert(source_name(items[i]) != source_name(items[n - 1]));
                assert(false);
            }
        };
    }
}

/// Law: the mapping is a function of the scanned sources alone, so a
/// second scan that reads back the same sources yields the same
/// mapping.
pub proof fn lemma_scan_deterministic(a: Seq<ProfileSourceV>, b: Seq<ProfileSourceV>)
    requires
        a == b,
    ensures
        profile_map_of(a) == profile_map_of(b),
{
}

/// Relies on walkdir::WalkDir: the reachable entries of the directory
/// tree under `root`; entries the walk reports an error for, or whose
/// names are not valid UTF-8, are left out. What comes back depends on
/// the state of the filesystem.
#[verifier::external_body]
fn walk_dir_entries(root: &str) -> (r: Vec<WalkEntry>) {
    let mut out: Vec<WalkEntry> = Vec::new();
    for entry in walkdir::WalkDir::new(root).into_iter().flatten() {
        let seg = entry.path().parent().and_then(|p| p.file_name()).and_then(|s| s.to_str());
        let (path, name) = (entry.path().to_str(), entry.file_name().to_str());
        if let (Some(path), Some(name), Some(seg)) = (path, name, seg) {
            let is_dir = entry.file_type().is_dir();
            out.push(WalkEntry {
                path: path.to_string(), file_name: name.to_string(),
                parent_segment: seg.to_string(), is_dir,
            });
        }
    }
    out
}

/// Walk the profile-storage tree under `root` and keep the profile
/// metadata files: the result is the candidate selection of some walk
/// of the filesystem.
pub fn collect_profile_candidates(root: &str) -> (r: Vec<Candidate>)
    ensures
        exists|entries: Seq<WalkEntryV>| r.deep_view() == candidates_of(entries),
{
    let entries = walk_dir_entries(root);
    let r = select_candidates(&entries);
    proof {
        assert(r.deep_view() == candidates_of(entries.deep_view()));
    }
    r
}

/// Relies on dirs::home_dir: the user's home directory, when the
/// platform reports one and its path is valid UTF-8. What comes back
/// depends on the environment.
#[verifier::external_body]
fn home_dir_string() -> (r: Option<String>) {
    dirs::home_dir().and_then(|p| p.to_str().map(|s| s.to_string()))
}

pub open spec fn edge_profile_suffix() -> Seq<char> {
    "/Library/Application Support/Microsoft Edge"@
}

/// The Edge profile-storage root under a given home directory.
pub fn edge_profiles_root(home: &str) -> (r: String)
    ensures
        r@ == home@ + edge_profile_suffix(),
{
    String::from_str(home).concat("/Library/Application Support/Microsoft Edge")
}

/// The Edge profile-storage root for this user; `None` when no home
/// directory can be resolved, which the caller treats as fatal.
pub fn edge_scan_root() -> (r: Option<String>)
    ensures
        r matches Some(p) ==> exists|home: Seq<char>| p@ == home + edge_profile_suffix(),
{
    match home_dir_string() {
        None => None,
        Some(h) => {
            let root = edge_profiles_root(h.as_str());
            proof {
                assert(root@ == h@ + edge_profile_suffix());
            }
            Some(root)
        },
    }
}

} // verus!
