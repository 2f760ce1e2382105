//! The profiles configuration: which plugins load everywhere, which are
//! borrowed on demand, and the named profiles with their detection rules.

use vstd::prelude::*;

use crate::list;
use crate::namemap::NameMap;

verus! {

/// A file that must contain a word.
#[derive(Debug, PartialEq, Eq)]
pub struct ContentRule {
    pub file: String,
    pub word: String,
}

/// The texts of a content rule.
pub struct ContentV {
    pub file: Seq<char>,
    pub word: Seq<char>,
}

impl View for ContentRule {
    type V = ContentV;

    open spec fn view(&self) -> ContentV {
        ContentV { file: self.file@, word: self.word@ }
    }
}

impl DeepView for ContentRule {
    type V = ContentV;

    open spec fn deep_view(&self) -> ContentV {
        self@
    }
}

impl Clone for ContentRule {
    fn clone(&self) -> (r: ContentRule)
        ensures
            r@ == self@,
            r == *self,
    {
        ContentRule { file: self.file.clone(), word: self.word.clone() }
    }
}

/// The detection rules of one profile, one list per kind of rule.
#[derive(Debug, PartialEq, Eq)]
pub struct Detect {
    pub path_prefixes: Vec<String>,
    pub marker_files: Vec<String>,
    pub marker_globs: Vec<String>,
    pub content: Vec<ContentRule>,
    pub package_json_deps: Vec<String>,
    pub deps_keywords: Vec<String>,
}

/// The rule texts of a `Detect`.
#[verifier::ext_equal]
pub struct DetectV {
    pub path_prefixes: Seq<Seq<char>>,
    pub marker_files: Seq<Seq<char>>,
    pub marker_globs: Seq<Seq<char>>,
    pub content: Seq<ContentV>,
    pub package_json_deps: Seq<Seq<char>>,
    pub deps_keywords: Seq<Seq<char>>,
}

impl DetectV {
    /// No rules at all.
    pub open spec fn empty() -> DetectV {
        DetectV {
            path_prefixes: Seq::empty(),
            marker_files: Seq::empty(),
            marker_globs: Seq::empty(),
            content: Seq::empty(),
            package_json_deps: Seq::empty(),
            deps_keywords: Seq::empty(),
        }
    }
}

impl View for Detect {
    type V = DetectV;

    open spec fn view(&self) -> DetectV {
        DetectV {
            path_prefixes: self.path_prefixes.deep_view(),
            marker_files: self.marker_files.deep_view(),
            marker_globs: self.marker_globs.deep_view(),
            content: self.content.deep_view(),
            package_json_deps: self.package_json_deps.deep_view(),
            deps_keywords: self.deps_keywords.deep_view(),
        }
    }
}

/// A copy of a list of content rules.
pub fn copy_content(v: &Vec<ContentRule>) -> (r: Vec<ContentRule>)
    ensures
        r.deep_view() == v.deep_view(),
        r@ == v@,
{
    let r = v.clone();
    assert(r@ =~= v@);
    assert(r.deep_view() =~= v.deep_view());
    r
}

/// Whether two lists of content rules are the same.
pub fn equal_content(a: &Vec<ContentRule>, b: &Vec<ContentRule>) -> (r: bool)
    ensures
        r == (a.deep_view() == b.deep_view()),
{
    if a.len() != b.len() {
        assert(a.deep_view().len() != b.deep_view().len());
        return false;
    }
    let mut i: usize = 0;
    while i < a.len()
        invariant
            i <= a.len() == b.len(),
            forall|j: int| 0 <= j < i ==> (#[trigger] a[j])@ == b[j]@,
        decreases a.len() - i,
    {
        if a[i].file != b[i].file || a[i].word != b[i].word {
            assert(a.deep_view()[i as int] != b.deep_view()[i as int]);
            return false;
        }
        i += 1;
    }
    assert(a.deep_view() =~= b.deep_view());
    true
}

impl Clone for Detect {
    fn clone(&self) -> (r: Detect)
        ensures
            r@ == self@,
    {
        Detect {
            path_prefixes: list::copy(&self.path_prefixes),
            marker_files: list::copy(&self.marker_files),
            marker_globs: list::copy(&self.marker_globs),
            content: copy_content(&self.content),
            package_json_deps: list::copy(&self.package_json_deps),
            deps_keywords: list::copy(&self.deps_keywords),
        }
    }
}

impl Default for Detect {
    fn default() -> (r: Detect)
        ensures
            r@ == DetectV::empty(),
    {
        let r = Detect {
            path_prefixes: Vec::new(),
            marker_files: Vec::new(),
            marker_globs: Vec::new(),
            content: Vec::new(),
            package_json_deps: Vec::new(),
            deps_keywords: Vec::new(),
        };
        assert(r@ =~= DetectV::empty());
        r
    }
}

impl Detect {
    /// Whether two rule sets are the same, list by list.
    pub fn same(&self, other: &Detect) -> (r: bool)
        ensures
            r == (self@ == other@),
    {
        list::equal(&self.path_prefixes, &other.path_prefixes) && list::equal(
            &self.marker_files,
            &other.marker_files,
        ) && list::equal(&self.marker_globs, &other.marker_globs) && equal_content(
            &self.content,
            &other.content,
        ) && list::equal(&self.package_json_deps, &other.package_json_deps) && list::equal(
            &self.deps_keywords,
            &other.deps_keywords,
        )
    }
}

/// A named group of plugins and the rules by which a repo gets it.
#[derive(Debug, PartialEq, Eq)]
pub struct Profile {
    pub plugins: Vec<String>,
    pub detect: Detect,
}

/// The plugins and rules of a profile.
#[verifier::ext_equal]
pub struct ProfileV {
    pub plugins: Seq<Seq<char>>,
    pub detect: DetectV,
}

impl ProfileV {
    /// A profile with no plugins and no rules.
    pub open spec fn empty() -> ProfileV {
        ProfileV { plugins: Seq::empty(), detect: DetectV::empty() }
    }
}

impl View for Profile {
    type V = ProfileV;

    open spec fn view(&self) -> ProfileV {
        ProfileV { plugins: self.plugins.deep_view(), detect: self.detect@ }
    }
}

impl Clone for Profile {
    fn clone(&self) -> (r: Profile)
        ensures
            r@ == self@,
    {
        Profile { plugins: list::copy(&self.plugins), detect: self.detect.clone() }
    }
}

impl Default for Profile {
    fn default() -> (r: Profile)
        ensures
            r@ == ProfileV::empty(),
    {
        let r = Profile { plugins: Vec::new(), detect: Detect::default() };
        assert(r@ =~= ProfileV::empty());
        r
    }
}

impl Profile {
    /// Whether two profiles have the same plugins and rules.
    pub fn same(&self, other: &Profile) -> (r: bool)
        ensures
            r == (self@ == other@),
    {
        list::equal(&self.plugins, &other.plugins) && self.detect.same(&other.detect)
    }
}

/// The whole configuration.
#[derive(Debug, PartialEq)]
pub struct Profiles {
    pub scan_roots: Vec<String>,
    pub universal: Vec<String>,
    pub on_demand: Vec<String>,
    pub profiles: NameMap<Profile>,
}

/// The contents of a configuration.
#[verifier::ext_equal]
pub struct ProfilesV {
    pub scan_roots: Seq<Seq<char>>,
    pub universal: Seq<Seq<char>>,
    pub on_demand: Seq<Seq<char>>,
    pub profiles: Map<Seq<char>, ProfileV>,
}

impl ProfilesV {
    /// The configuration that names nothing.
    pub open spec fn empty() -> ProfilesV {
        ProfilesV {
            scan_roots: Seq::empty(),
            universal: Seq::empty(),
            on_demand: Seq::empty(),
            profiles: Map::empty(),
        }
    }

    /// The profile names, ascending.
    pub open spec fn names(self) -> Seq<Seq<char>> {
        list::listing(self.profiles.dom())
    }

    /// The same configuration with profile `name` set to `p`.
    pub open spec fn with_profile(self, name: Seq<char>, p: ProfileV) -> ProfilesV {
        ProfilesV { profiles: self.profiles.insert(name, p), ..self }
    }

    /// The same configuration without profile `name`.
    pub open spec fn without_profile(self, name: Seq<char>) -> ProfilesV {
        ProfilesV { profiles: self.profiles.remove(name), ..self }
    }
}

/// The profiles of a name map, each by its view.
pub open spec fn profile_views(m: Map<Seq<char>, Profile>) -> Map<Seq<char>, ProfileV> {
    m.map_values(|p: Profile| p@)
}

impl View for Profiles {
    type V = ProfilesV;

    open spec fn view(&self) -> ProfilesV {
        ProfilesV {
            scan_roots: self.scan_roots.deep_view(),
            universal: self.universal.deep_view(),
            on_demand: self.on_demand.deep_view(),
            profiles: profile_views(self.profiles@),
        }
    }
}

impl Clone for Profiles {
    fn clone(&self) -> (r: Profiles)
        ensures
            r@ == self@,
    {
        let profiles = self.profiles.duplicate();
        assert(profile_views(profiles@) =~= profile_views(self.profiles@)) by {
            assert forall|k: Seq<char>| profiles@.contains_key(k) implies #[trigger] profiles@[k]@
                == self.profiles@[k]@ by {
                assert(vstd::pervasive::cloned::<Profile>(self.profiles@[k], profiles@[k]));
            }
        }
        Profiles {
            scan_roots: list::copy(&self.scan_roots),
            universal: list::copy(&self.universal),
            on_demand: list::copy(&self.on_demand),
            profiles,
        }
    }
}

impl Default for Profiles {
    fn default() -> (r: Profiles)
        ensures
            r@ == ProfilesV::empty(),
            r.profiles.names() == Seq::<Seq<char>>::empty(),
    {
        let r = Profiles {
            scan_roots: Vec::new(),
            universal: Vec::new(),
            on_demand: Vec::new(),
            profiles: NameMap::new(),
        };
        assert(r@ =~= ProfilesV::empty());
        r
    }
}

impl Profiles {
    /// Number of profiles. They are walked in the order of their names.
    pub fn count(&self) -> (n: usize)
        ensures
            n == self@.names().len(),
            self.profiles.names() == self@.names(),
            list::lists(self@.names(), self@.profiles.dom()),
    {
        let n: usize = self.profiles.len();
        proof {
            assert(self@.profiles.dom() =~= self.profiles@.dom());
            list::lemma_listing(self.profiles.names(), self@.profiles.dom());
        }
        n
    }

    /// The profile names, ascending.
    pub fn names(&self) -> (r: Vec<String>)
        ensures
            r.deep_view() == self@.names(),
    {
        let n: usize = self.count();
        let mut out: Vec<String> = Vec::new();
        let mut i: usize = 0;
        while i < n
            invariant
                i <= n,
                n == self.profiles.names().len(),
                out@.len() == i,
                forall|j: int| 0 <= j < i ==> (#[trigger] out[j])@ == self.profiles.names()[j],
            decreases n - i,
        {
            out.push(self.profiles.key_at(i).clone());
            i += 1;
        }
        assert(out.deep_view() =~= self@.names());
        out
    }

    /// Whether two configurations say the same.
    pub fn same(&self, other: &Profiles) -> (r: bool)
        ensures
            r == (self@ == other@),
    {
        if !(list::equal(&self.scan_roots, &other.scan_roots) && list::equal(
            &self.universal,
            &other.universal,
        ) && list::equal(&self.on_demand, &other.on_demand)) {
            return false;
        }
        let n: usize = self.profiles.len();
        let m: usize = other.profiles.len();
        let mut i: usize = 0;
        while i < n
            invariant
                i <= n,
                n == self.profiles.names().len(),
                forall|j: int|
                    0 <= j < i ==> other@.profiles.contains_key(#[trigger] self.profiles.names()[j])
                        && other@.profiles[self.profiles.names()[j]]
                        == self@.profiles[self.profiles.names()[j]],
            decreases n - i,
        {
            let k = self.profiles.key_at(i);
            match other.profiles.get(k.as_str()) {
                None => {
                    assert(self@.profiles.contains_key(k@));
                    assert(!other@.profiles.contains_key(k@));
                    return false;
                },
                Some(p) => {
                    if !self.profiles.value_at(i).same(p) {
                        assert(self@.profiles[k@] != other@.profiles[k@]);
                        return false;
                    }
                },
            }
            i += 1;
        }
        let mut i: usize = 0;
        while i < m
            invariant
                i <= m,
                m == other.profiles.names().len(),
                forall|j: int|
                    0 <= j < i ==> self@.profiles.contains_key(
                        #[trigger] other.profiles.names()[j],
                    ),
            decreases m - i,
        {
            let k = other.profiles.key_at(i);
            if !self.profiles.contains_key(k.as_str()) {
                assert(other@.profiles.contains_key(k@));
                assert(!self@.profiles.contains_key(k@));
                return false;
            }
            i += 1;
        }
        proof {
            let a = self.profiles.names();
            let b = other.profiles.names();
            assert forall|k: Seq<char>| self@.profiles.contains_key(k) implies #[trigger]
                other@.profiles.contains_key(k) && other@.profiles[k] == self@.profiles[k] by {
                assert(a.contains(k));
                let j = choose|j: int| 0 <= j < a.len() && a[j] == k;
            }
            assert forall|k: Seq<char>| other@.profiles.contains_key(k) implies #[trigger]
                self@.profiles.contains_key(k) by {
                assert(b.contains(k));
                let j = choose|j: int| 0 <= j < b.len() && b[j] == k;
            }
            assert(self@.profiles =~= other@.profiles);
            assert(self@ =~= other@);
        }
        true
    }

    /// Puts profile `p` under `name`.
    pub fn put(&mut self, name: &str, p: Profile)
        ensures
            final(self)@ == old(self)@.with_profile(name@, p@),
            final(self).scan_roots == old(self).scan_roots,
            final(self).universal == old(self).universal,
            final(self).on_demand == old(self).on_demand,
    {
        self.profiles.insert(name.to_owned(), p);
        assert(self@.profiles =~= old(self)@.profiles.insert(name@, p@));
    }

    /// Takes profile `name` out.
    pub fn take(&mut self, name: &str) -> (r: Option<Profile>)
        ensures
            final(self)@ == old(self)@.without_profile(name@),
            match r {
                Some(p) => old(self)@.profiles.contains_key(name@) && p@
                    == old(self)@.profiles[name@],
                None => !old(self)@.profiles.contains_key(name@),
            },
    {
        let r = self.profiles.remove(name);
        assert(self@.profiles =~= old(self)@.profiles.remove(name@));
        r
    }
}

} // verus!
