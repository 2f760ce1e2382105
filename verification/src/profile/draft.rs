//! Profiles that a scan proposes.

use vstd::prelude::*;

use crate::list;
use crate::profile::config::{
    ContentRule, ContentV, Detect, DetectV, Profile, ProfileV, Profiles, ProfilesV,
};
use crate::profile::discover::{
    Inventory, SharedSignals, SharedV, SignalV, SuggestedProfile, SuggestedV,
};
use crate::profile::signal_detect::{a_repo_matches_by_what_it_has, answer, decides_alone};

verus! {

/// A dependency as a content rule on package.json.
pub open spec fn dep_rules(deps: Seq<Seq<char>>) -> Seq<ContentV> {
    deps.map_values(|d: Seq<char>| ContentV { file: "package.json"@, word: d })
}

/// The rules that shared signals amount to.
pub open spec fn shared_rules(s: SharedV) -> DetectV {
    DetectV {
        path_prefixes: Seq::empty(),
        marker_files: s.marker_files,
        marker_globs: s.marker_globs,
        content: dep_rules(s.package_json_deps),
        package_json_deps: Seq::empty(),
        deps_keywords: Seq::empty(),
    }
}

/// The rules made from shared signals are those signals and nothing else: each marker file
/// and each glob as it is, and each dependency as a word that package.json contains.
pub proof fn shared_signals_become_rules(s: SharedV)
    ensures
        shared_rules(s).marker_files == s.marker_files,
        shared_rules(s).marker_globs == s.marker_globs,
        shared_rules(s).content.len() == s.package_json_deps.len(),
        forall|i: int|
            0 <= i < s.package_json_deps.len() ==> (#[trigger] shared_rules(s).content[i]).file
                == "package.json"@ && shared_rules(s).content[i].word == s.package_json_deps[i],
        shared_rules(s).path_prefixes.len() == 0,
        shared_rules(s).package_json_deps.len() == 0,
        shared_rules(s).deps_keywords.len() == 0,
{
}

/// A repo matches a profile made from shared signals just when the index says yes to one of
/// them: a shared glob, a dependency in package.json, or a shared file; package.json itself
/// counts by its dependencies alone, if there are any.
pub proof fn a_repo_with_a_shared_signal_matches(sig: SignalV, s: SharedV)
    ensures
        answer(sig, shared_rules(s)) is Match <==> {
            ||| exists|i: int|
                0 <= i < s.marker_globs.len() && sig.rule_hits.contains_pair(
                    "glob:"@ + #[trigger] s.marker_globs[i],
                    true,
                )
            ||| exists|i: int|
                0 <= i < s.package_json_deps.len() && sig.rule_hits.contains_pair(
                    "content:"@ + ("package.json"@ + " → "@ + #[trigger] s.package_json_deps[i]),
                    true,
                )
            ||| exists|i: int|
                0 <= i < s.marker_files.len() && sig.rule_hits.contains_pair(
                    "file:"@ + #[trigger] s.marker_files[i],
                    true,
                ) && (s.package_json_deps.len() == 0 || s.marker_files[i] != "package.json"@)
        },
{
    let d = shared_rules(s);
    shared_signals_become_rules(s);
    a_repo_matches_by_what_it_has(sig, d);
    let deps = s.package_json_deps;
    let file = |i: int|
        sig.rule_hits.contains_pair("file:"@ + s.marker_files[i], true) && (deps.len() == 0
            || s.marker_files[i] != "package.json"@);
    if exists|f: Seq<char>| #[trigger]
        decides_alone(d, f) && sig.rule_hits.contains_pair("file:"@ + f, true) {
        let f = choose|f: Seq<char>| #[trigger]
            decides_alone(d, f) && sig.rule_hits.contains_pair("file:"@ + f, true);
        let i = choose|i: int| 0 <= i < d.marker_files.len() && d.marker_files[i] == f;
        if deps.len() > 0 {
            assert(d.content[0].file != f);
        }
        assert(s.marker_files[i] == f);
    }
    assert forall|i: int|
        0 <= i < s.marker_files.len() && sig.rule_hits.contains_pair(
            "file:"@ + #[trigger] s.marker_files[i],
            true,
        ) && (deps.len() == 0 || s.marker_files[i] != "package.json"@) implies decides_alone(
        d,
        s.marker_files[i],
    ) by {
        assert(d.marker_files.contains(d.marker_files[i]));
    }
    if exists|i: int|
        0 <= i < d.content.len() && sig.rule_hits.contains_pair(
            "content:"@ + ((#[trigger] d.content[i]).file + " → "@ + d.content[i].word),
            true,
        ) {
        let i = choose|i: int|
            0 <= i < d.content.len() && sig.rule_hits.contains_pair(
                "content:"@ + ((#[trigger] d.content[i]).file + " → "@ + d.content[i].word),
                true,
            );
        assert(d.content[i].word == deps[i]);
    }
    assert forall|i: int|
        0 <= i < deps.len() && sig.rule_hits.contains_pair(
            "content:"@ + ("package.json"@ + " → "@ + #[trigger] deps[i]),
            true,
        ) implies answer(sig, d) is Match by {
        assert(d.content[i].word == deps[i]);
    }
}

/// Content rules on package.json, one per dependency.
pub fn content_of_deps(deps: &Vec<String>) -> (r: Vec<ContentRule>)
    ensures
        r.deep_view() == dep_rules(deps.deep_view()),
{
    let mut out: Vec<ContentRule> = Vec::new();
    let mut i: usize = 0;
    while i < deps.len()
        invariant
            i <= deps.len(),
            out@.len() == i,
            forall|j: int|
                0 <= j < i ==> (#[trigger] out[j])@ == (ContentV {
                    file: "package.json"@,
                    word: deps[j]@,
                }),
        decreases deps.len() - i,
    {
        out.push(ContentRule { file: "package.json".to_owned(), word: deps[i].clone() });
        i += 1;
    }
    assert(out.deep_view() =~= dep_rules(deps.deep_view()));
    out
}

/// A profile with the given plugins whose rules come from shared signals.
pub fn profile_from(plugins: Vec<String>, shared: &SharedSignals) -> (r: Profile)
    ensures
        r@ == (ProfileV { plugins: plugins.deep_view(), detect: shared_rules(shared@) }),
{
    let r = Profile {
        plugins,
        detect: Detect {
            path_prefixes: Vec::new(),
            marker_files: list::copy(&shared.marker_files),
            marker_globs: list::copy(&shared.marker_globs),
            content: content_of_deps(&shared.package_json_deps),
            package_json_deps: Vec::new(),
            deps_keywords: Vec::new(),
        },
    };
    assert(r.detect@ =~= shared_rules(shared@));
    r
}

/// The profile a suggestion amounts to: no plugins yet.
pub open spec fn suggested_profile(s: SuggestedV) -> ProfileV {
    ProfileV { plugins: Seq::empty(), detect: shared_rules(s.shared_signals) }
}

/// `profiles` with the suggestions added whose names are not taken.
pub open spec fn with_suggestions(
    profiles: Map<Seq<char>, ProfileV>,
    suggested: Seq<SuggestedV>,
) -> Map<Seq<char>, ProfileV>
    decreases suggested.len(),
{
    if suggested.len() == 0 {
        profiles
    } else {
        let before = with_suggestions(profiles, suggested.drop_last());
        let s = suggested.last();
        if before.contains_key(s.name) {
            before
        } else {
            before.insert(s.name, suggested_profile(s))
        }
    }
}

/// Merging suggestions never touches a profile that is already there.
pub proof fn suggestions_keep_existing(
    profiles: Map<Seq<char>, ProfileV>,
    suggested: Seq<SuggestedV>,
)
    ensures
        forall|k: Seq<char>| #[trigger]
            profiles.contains_key(k) ==> with_suggestions(profiles, suggested).contains_key(k)
                && with_suggestions(profiles, suggested)[k] == profiles[k],
    decreases suggested.len(),
{
    if suggested.len() > 0 {
        suggestions_keep_existing(profiles, suggested.drop_last());
        assert forall|k: Seq<char>| #[trigger] profiles.contains_key(k) implies with_suggestions(
            profiles,
            suggested,
        ).contains_key(k) && with_suggestions(profiles, suggested)[k] == profiles[k] by {
            assert(with_suggestions(profiles, suggested.drop_last()).contains_key(k));
        }
    }
}

/// Every suggested name is a profile afterwards.
pub proof fn suggestions_are_present(
    profiles: Map<Seq<char>, ProfileV>,
    suggested: Seq<SuggestedV>,
)
    ensures
        forall|i: int|
            0 <= i < suggested.len() ==> with_suggestions(profiles, suggested).contains_key(
                (#[trigger] suggested[i]).name,
            ),
    decreases suggested.len(),
{
    if suggested.len() > 0 {
        let t = suggested.drop_last();
        suggestions_are_present(profiles, t);
        assert forall|i: int| 0 <= i < suggested.len() implies with_suggestions(
            profiles,
            suggested,
        ).contains_key((#[trigger] suggested[i]).name) by {
            if i < t.len() {
                assert(with_suggestions(profiles, t).contains_key(t[i].name));
            }
        }
    }
}

/// Merging adds just the names that are free, each with the rules of the first suggestion
/// of that name, and no plugins yet.
pub proof fn a_free_name_gets_the_suggested_rules(
    profiles: Map<Seq<char>, ProfileV>,
    suggested: Seq<SuggestedV>,
)
    ensures
        ({
            let all = with_suggestions(profiles, suggested);
            &&& forall|k: Seq<char>| #[trigger]
                all.contains_key(k) <==> profiles.contains_key(k) || exists|i: int|
                    0 <= i < suggested.len() && (#[trigger] suggested[i]).name == k
            &&& forall|i: int|
                0 <= i < suggested.len() && !profiles.contains_key((#[trigger] suggested[i]).name)
                    && (forall|j: int|
                    0 <= j < i ==> (#[trigger] suggested[j]).name != suggested[i].name) ==> {
                    let p = all[suggested[i].name];
                    let s = suggested[i].shared_signals;
                    &&& p.plugins.len() == 0
                    &&& p.detect.marker_files == s.marker_files
                    &&& p.detect.marker_globs == s.marker_globs
                    &&& p.detect.content.len() == s.package_json_deps.len()
                    &&& p.detect == shared_rules(s)
                }
        }),
    decreases suggested.len(),
{
    let all = with_suggestions(profiles, suggested);
    if suggested.len() > 0 {
        let t = suggested.drop_last();
        let before = with_suggestions(profiles, t);
        let s = suggested.last();
        a_free_name_gets_the_suggested_rules(profiles, t);
        assert(suggested[suggested.len() - 1] == s);
        assert forall|k: Seq<char>| #[trigger] all.contains_key(k) <==> profiles.contains_key(k)
            || exists|i: int|
            0 <= i < suggested.len() && (#[trigger] suggested[i]).name == k by {
            assert(before.contains_key(k) <==> profiles.contains_key(k) || exists|i: int|
                0 <= i < t.len() && (#[trigger] t[i]).name == k);
            if exists|i: int| 0 <= i < t.len() && (#[trigger] t[i]).name == k {
                let i = choose|i: int| 0 <= i < t.len() && (#[trigger] t[i]).name == k;
                assert(suggested[i].name == k);
            }
            if exists|i: int| 0 <= i < suggested.len() && (#[trigger] suggested[i]).name == k {
                let i = choose|i: int|
                    0 <= i < suggested.len() && (#[trigger] suggested[i]).name == k;
                if i < t.len() {
                    assert(t[i].name == k);
                }
            }
        }
        assert forall|i: int|
            0 <= i < suggested.len() && !profiles.contains_key((#[trigger] suggested[i]).name) && (
            forall|j: int|
                0 <= j < i ==> (#[trigger] suggested[j]).name != suggested[i].name) implies {
            let p = all[suggested[i].name];
            let s = suggested[i].shared_signals;
            &&& p.plugins.len() == 0
            &&& p.detect.marker_files == s.marker_files
            &&& p.detect.marker_globs == s.marker_globs
            &&& p.detect.content.len() == s.package_json_deps.len()
            &&& p.detect == shared_rules(s)
        } by {
            if i < t.len() {
                assert(t[i] == suggested[i]);
                assert forall|j: int| 0 <= j < i implies (#[trigger] t[j]).name != t[i].name by {
                    assert(suggested[j].name != suggested[i].name);
                }
                assert(before.contains_key(t[i].name));
            } else {
                if before.contains_key(s.name) {
                    let j = choose|j: int| 0 <= j < t.len() && (#[trigger] t[j]).name == s.name;
                    assert(suggested[j].name == s.name);
                }
            }
        }
    }
}

/// Merging the same suggestions a second time changes nothing.
pub proof fn suggestions_idempotent(
    profiles: Map<Seq<char>, ProfileV>,
    suggested: Seq<SuggestedV>,
)
    ensures
        with_suggestions(with_suggestions(profiles, suggested), suggested) == with_suggestions(
            profiles,
            suggested,
        ),
{
    let once = with_suggestions(profiles, suggested);
    suggestions_are_present(profiles, suggested);
    lemma_nothing_to_add(once, suggested);
}

proof fn lemma_nothing_to_add(profiles: Map<Seq<char>, ProfileV>, suggested: Seq<SuggestedV>)
    requires
        forall|i: int|
            0 <= i < suggested.len() ==> profiles.contains_key((#[trigger] suggested[i]).name),
    ensures
        with_suggestions(profiles, suggested) == profiles,
    decreases suggested.len(),
{
    if suggested.len() > 0 {
        let t = suggested.drop_last();
        assert forall|i: int| 0 <= i < t.len() implies profiles.contains_key(
            (#[trigger] t[i]).name,
        ) by {
            assert(profiles.contains_key(suggested[i].name));
        }
        lemma_nothing_to_add(profiles, t);
        assert(profiles.contains_key(suggested[suggested.len() - 1].name));
    }
}

/// Adds the suggested profiles whose names are not taken.
pub fn merge_suggestions(working: &mut Profiles, suggested: &Vec<SuggestedProfile>)
    ensures
        final(working)@ == (ProfilesV {
            profiles: with_suggestions(old(working)@.profiles, suggested.deep_view()),
            ..old(working)@
        }),
        final(working).scan_roots == old(working).scan_roots,
        final(working).universal == old(working).universal,
        final(working).on_demand == old(working).on_demand,
{
    let ghost base = working@;
    let ghost all = suggested.deep_view();
    let mut i: usize = 0;
    assert(all.take(0) =~= Seq::<SuggestedV>::empty());
    while i < suggested.len()
        invariant
            i <= suggested.len(),
            all == suggested.deep_view(),
            working@ == (ProfilesV {
                profiles: with_suggestions(base.profiles, all.take(i as int)),
                ..base
            }),
            working.scan_roots == old(working).scan_roots,
            working.universal == old(working).universal,
            working.on_demand == old(working).on_demand,
        decreases suggested.len() - i,
    {
        proof {
            let t = all.take(i + 1);
            assert(t.drop_last() =~= all.take(i as int));
            assert(t.last() == all[i as int]);
            assert(all[i as int] == suggested[i as int]@);
        }
        let s = &suggested[i];
        if !working.profiles.contains_key(s.name.as_str()) {
            let none: Vec<String> = Vec::new();
            assert(none.deep_view() =~= Seq::<Seq<char>>::empty());
            let p = profile_from(none, &s.shared_signals);
            working.put(s.name.as_str(), p);
        }
        i += 1;
    }
    assert(all.take(i as int) =~= all);
}

/// The configuration a scan alone yields: its roots, and its suggestions as profiles.
pub fn scan_draft(inv: &Inventory, roots: Vec<String>) -> (r: Profiles)
    ensures
        r@ == (ProfilesV {
            scan_roots: roots.deep_view(),
            profiles: with_suggestions(Map::empty(), inv@.suggested_profiles),
            ..ProfilesV::empty()
        }),
{
    let mut w = Profiles::default();
    w.scan_roots = roots;
    merge_suggestions(&mut w, &inv.suggested_profiles);
    w
}

/// What a scan alone yields is a profile for each name that is suggested, and no other.
pub proof fn a_scan_alone_yields_its_suggestions(suggested: Seq<SuggestedV>, k: Seq<char>)
    ensures
        with_suggestions(Map::empty(), suggested).contains_key(k) <==> exists|i: int|
            0 <= i < suggested.len() && (#[trigger] suggested[i]).name == k,
{
    a_free_name_gets_the_suggested_rules(Map::empty(), suggested);
}

} // verus!
