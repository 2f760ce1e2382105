//! What a scan knows: installed plugins, scanned repos with their indexed
//! answers, and the profiles a scan suggests.

use vstd::prelude::*;

use crate::list;
use crate::namemap::NameMap;

verus! {

/// One installed plugin.
#[derive(Debug, PartialEq, Eq)]
pub struct PluginInfo {
    pub key: String,
    pub scopes: Vec<String>,
    pub description: Option<String>,
}

/// The texts of a plugin entry.
#[verifier::ext_equal]
pub struct PluginV {
    pub key: Seq<char>,
    pub scopes: Seq<Seq<char>>,
    pub description: Option<Seq<char>>,
}

/// The text of an optional string.
pub open spec fn text_of(o: Option<String>) -> Option<Seq<char>> {
    match o {
        Some(s) => Some(s@),
        None => None,
    }
}

/// The texts in an optional list of strings.
pub open spec fn texts_of(o: Option<Vec<String>>) -> Option<Seq<Seq<char>>> {
    match o {
        Some(v) => Some(v.deep_view()),
        None => None,
    }
}

impl View for PluginInfo {
    type V = PluginV;

    open spec fn view(&self) -> PluginV {
        PluginV {
            key: self.key@,
            scopes: self.scopes.deep_view(),
            description: text_of(self.description),
        }
    }
}

impl DeepView for PluginInfo {
    type V = PluginV;

    open spec fn deep_view(&self) -> PluginV {
        self@
    }
}

impl Clone for PluginInfo {
    fn clone(&self) -> (r: PluginInfo)
        ensures
            r@ == self@,
    {
        PluginInfo {
            key: self.key.clone(),
            scopes: list::copy(&self.scopes),
            description: match &self.description {
                Some(d) => Some(d.clone()),
                None => None,
            },
        }
    }
}

/// One scanned repo: its own signals, and the indexed answers to the questions
/// that detection rules ask of the disk.
#[derive(Debug, PartialEq)]
pub struct RepoSignal {
    pub path: String,
    pub marker_files: Vec<String>,
    pub marker_globs: Vec<String>,
    pub package_json_deps: Vec<String>,
    pub languages: Vec<String>,
    /// Atom to answer. An atom that is absent was never asked.
    pub rule_hits: NameMap<bool>,
    /// Profile names from the repo's own override file, if it has one.
    pub override_names: Option<Vec<String>>,
}

/// The contents of a repo signal.
#[verifier::ext_equal]
pub struct SignalV {
    pub path: Seq<char>,
    pub marker_files: Seq<Seq<char>>,
    pub marker_globs: Seq<Seq<char>>,
    pub package_json_deps: Seq<Seq<char>>,
    pub languages: Seq<Seq<char>>,
    pub rule_hits: Map<Seq<char>, bool>,
    pub override_names: Option<Seq<Seq<char>>>,
}

impl View for RepoSignal {
    type V = SignalV;

    open spec fn view(&self) -> SignalV {
        SignalV {
            path: self.path@,
            marker_files: self.marker_files.deep_view(),
            marker_globs: self.marker_globs.deep_view(),
            package_json_deps: self.package_json_deps.deep_view(),
            languages: self.languages.deep_view(),
            rule_hits: self.rule_hits@,
            override_names: match self.override_names {
                Some(v) => Some(v.deep_view()),
                None => None,
            },
        }
    }
}

impl DeepView for RepoSignal {
    type V = SignalV;

    open spec fn deep_view(&self) -> SignalV {
        self@
    }
}

impl Clone for RepoSignal {
    fn clone(&self) -> (r: RepoSignal)
        ensures
            r@ == self@,
    {
        let rule_hits = self.rule_hits.duplicate();
        assert(rule_hits@ =~= self.rule_hits@) by {
            assert forall|k: Seq<char>| rule_hits@.contains_key(k) implies #[trigger] rule_hits@[k]
                == self.rule_hits@[k] by {
                assert(vstd::pervasive::cloned::<bool>(self.rule_hits@[k], rule_hits@[k]));
            }
        }
        RepoSignal {
            path: self.path.clone(),
            marker_files: list::copy(&self.marker_files),
            marker_globs: list::copy(&self.marker_globs),
            package_json_deps: list::copy(&self.package_json_deps),
            languages: list::copy(&self.languages),
            rule_hits,
            override_names: match &self.override_names {
                Some(v) => Some(list::copy(v)),
                None => None,
            },
        }
    }
}

/// A copy of a list of repo signals.
pub fn copy_repos(v: &Vec<RepoSignal>) -> (r: Vec<RepoSignal>)
    ensures
        r.deep_view() == v.deep_view(),
{
    let r = v.clone();
    assert(r.deep_view() =~= v.deep_view()) by {
        assert forall|i: int| 0 <= i < v.len() implies (#[trigger] r[i])@ == v[i]@ by {
            assert(vstd::pervasive::cloned::<RepoSignal>(v[i], r[i]));
        }
    }
    r
}

/// The paths of a list of scanned repos, in order.
pub open spec fn repo_paths(repos: Seq<SignalV>) -> Seq<Seq<char>> {
    repos.map_values(|r: SignalV| r.path)
}

/// The paths of `repos`, in order.
pub fn paths_of(repos: &Vec<RepoSignal>) -> (r: Vec<String>)
    ensures
        r.deep_view() == repo_paths(repos.deep_view()),
{
    let mut out: Vec<String> = Vec::new();
    let mut i: usize = 0;
    while i < repos.len()
        invariant
            i <= repos.len(),
            out@.len() == i,
            forall|j: int| 0 <= j < i ==> (#[trigger] out[j])@ == repos[j].path@,
        decreases repos.len() - i,
    {
        out.push(repos[i].path.clone());
        i += 1;
    }
    assert(out.deep_view() =~= repo_paths(repos.deep_view()));
    out
}

/// The signals that the repos of a suggested profile have in common.
#[derive(Debug, PartialEq, Eq)]
pub struct SharedSignals {
    pub marker_files: Vec<String>,
    pub marker_globs: Vec<String>,
    pub package_json_deps: Vec<String>,
}

/// The texts of shared signals.
#[verifier::ext_equal]
pub struct SharedV {
    pub marker_files: Seq<Seq<char>>,
    pub marker_globs: Seq<Seq<char>>,
    pub package_json_deps: Seq<Seq<char>>,
}

impl View for SharedSignals {
    type V = SharedV;

    open spec fn view(&self) -> SharedV {
        SharedV {
            marker_files: self.marker_files.deep_view(),
            marker_globs: self.marker_globs.deep_view(),
            package_json_deps: self.package_json_deps.deep_view(),
        }
    }
}

impl Default for SharedSignals {
    fn default() -> (r: SharedSignals)
        ensures
            r@ == (SharedV {
                marker_files: Seq::empty(),
                marker_globs: Seq::empty(),
                package_json_deps: Seq::empty(),
            }),
    {
        let r = SharedSignals {
            marker_files: Vec::new(),
            marker_globs: Vec::new(),
            package_json_deps: Vec::new(),
        };
        assert(r@.marker_files =~= Seq::empty());
        assert(r@.marker_globs =~= Seq::empty());
        assert(r@.package_json_deps =~= Seq::empty());
        r
    }
}

/// A profile that a scan proposes.
#[derive(Debug, PartialEq, Eq)]
pub struct SuggestedProfile {
    pub name: String,
    pub repos: Vec<String>,
    pub shared_signals: SharedSignals,
}

/// The texts of a suggested profile.
#[verifier::ext_equal]
pub struct SuggestedV {
    pub name: Seq<char>,
    pub repos: Seq<Seq<char>>,
    pub shared_signals: SharedV,
}

impl View for SuggestedProfile {
    type V = SuggestedV;

    open spec fn view(&self) -> SuggestedV {
        SuggestedV {
            name: self.name@,
            repos: self.repos.deep_view(),
            shared_signals: self.shared_signals@,
        }
    }
}

impl DeepView for SuggestedProfile {
    type V = SuggestedV;

    open spec fn deep_view(&self) -> SuggestedV {
        self@
    }
}

impl Clone for SuggestedProfile {
    fn clone(&self) -> (r: SuggestedProfile)
        ensures
            r@ == self@,
    {
        SuggestedProfile {
            name: self.name.clone(),
            repos: list::copy(&self.repos),
            shared_signals: SharedSignals {
                marker_files: list::copy(&self.shared_signals.marker_files),
                marker_globs: list::copy(&self.shared_signals.marker_globs),
                package_json_deps: list::copy(&self.shared_signals.package_json_deps),
            },
        }
    }
}

/// Everything a scan gathered.
#[derive(Debug, PartialEq)]
pub struct Inventory {
    pub plugins: Vec<PluginInfo>,
    pub repos: Vec<RepoSignal>,
    pub suggested_profiles: Vec<SuggestedProfile>,
}

/// The contents of an inventory.
#[verifier::ext_equal]
pub struct InventoryV {
    pub plugins: Seq<PluginV>,
    pub repos: Seq<SignalV>,
    pub suggested_profiles: Seq<SuggestedV>,
}

impl View for Inventory {
    type V = InventoryV;

    open spec fn view(&self) -> InventoryV {
        InventoryV {
            plugins: self.plugins.deep_view(),
            repos: self.repos.deep_view(),
            suggested_profiles: self.suggested_profiles.deep_view(),
        }
    }
}

impl Clone for Inventory {
    fn clone(&self) -> (r: Inventory)
        ensures
            r@ == self@,
    {
        let plugins = self.plugins.clone();
        assert(plugins.deep_view() =~= self.plugins.deep_view()) by {
            assert forall|i: int| 0 <= i < plugins.len() implies (#[trigger] plugins[i])@
                == self.plugins[i]@ by {
                assert(vstd::pervasive::cloned::<PluginInfo>(self.plugins[i], plugins[i]));
            }
        }
        let suggested_profiles = self.suggested_profiles.clone();
        assert(suggested_profiles.deep_view() =~= self.suggested_profiles.deep_view()) by {
            assert forall|i: int| 0 <= i < suggested_profiles.len() implies (
            #[trigger] suggested_profiles[i])@ == self.suggested_profiles[i]@ by {
                assert(vstd::pervasive::cloned::<SuggestedProfile>(
                    self.suggested_profiles[i],
                    suggested_profiles[i],
                ));
            }
        }
        Inventory { plugins, repos: copy_repos(&self.repos), suggested_profiles }
    }
}

/// The keys of a list of plugins, in order.
pub open spec fn plugin_keys(plugins: Seq<PluginV>) -> Seq<Seq<char>> {
    plugins.map_values(|p: PluginV| p.key)
}

impl Inventory {
    /// The keys of the installed plugins, in order.
    pub fn plugin_keys(&self) -> (r: Vec<String>)
        ensures
            r.deep_view() == plugin_keys(self@.plugins),
    {
        let mut out: Vec<String> = Vec::new();
        let mut i: usize = 0;
        while i < self.plugins.len()
            invariant
                i <= self.plugins.len(),
                out@.len() == i,
                forall|j: int| 0 <= j < i ==> (#[trigger] out[j])@ == self.plugins[j].key@,
            decreases self.plugins.len() - i,
        {
            out.push(self.plugins[i].key.clone());
            i += 1;
        }
        assert(out.deep_view() =~= plugin_keys(self@.plugins));
        out
    }
}

/// Position of the first repo with path `p`.
pub open spec fn repo_at(repos: Seq<SignalV>, p: Seq<char>, i: int) -> bool {
    &&& 0 <= i < repos.len()
    &&& repos[i].path == p
    &&& forall|j: int| 0 <= j < i ==> (#[trigger] repos[j]).path != p
}

/// Only one repo is the first with path `p`.
pub proof fn lemma_repo_at_unique(repos: Seq<SignalV>, p: Seq<char>, i: int, j: int)
    requires
        repo_at(repos, p, i),
        repo_at(repos, p, j),
    ensures
        i == j,
{
    if i < j {
        assert(repos[i].path != p);
    } else if j < i {
        assert(repos[j].path != p);
    }
}

/// The first repo with path `p`, by index.
pub fn find_repo(repos: &Vec<RepoSignal>, p: &str) -> (r: Option<usize>)
    ensures
        match r {
            Some(i) => repo_at(repos.deep_view(), p@, i as int),
            None => forall|j: int| 0 <= j < repos.len() ==> (#[trigger] repos[j]).path@ != p@,
        },
        r is Some <==> repo_paths(repos.deep_view()).contains(p@),
{
    let mut i: usize = 0;
    while i < repos.len()
        invariant
            i <= repos.len(),
            forall|j: int| 0 <= j < i ==> (#[trigger] repos[j]).path@ != p@,
        decreases repos.len() - i,
    {
        if crate::text::same(repos[i].path.as_str(), p) {
            assert(repo_paths(repos.deep_view())[i as int] == p@);
            return Some(i);
        }
        i += 1;
    }
    assert forall|j: int| 0 <= j < repos.len() implies repo_paths(repos.deep_view())[j] != p@ by {
        assert(repos[j].path@ != p@);
    }
    None
}

} // verus!
