//! Where the configuration and the machine have drifted apart: plugins nobody
//! placed, references to plugins that are gone, repos no profile covers, and
//! profile plugins that are still enabled everywhere.

use vstd::prelude::*;

use crate::list::{self, ascending, insert_sorted, lists};
use crate::profile::config::{ProfileV, Profiles, ProfilesV};
use crate::profile::discover::{plugin_keys, Inventory, InventoryV, RepoSignal, SignalV};
use crate::profile::signal_detect::{
    an_override_replaces_the_rules, answer, detect_from_signal, every_matching_profile_is_listed,
    is_pending, matched_names,
};

verus! {

/// Whether some profile carries plugin `k`.
pub open spec fn in_profile(w: ProfilesV, k: Seq<char>) -> bool {
    exists|n: Seq<char>| #[trigger]
        w.profiles.contains_key(n) && w.profiles[n].plugins.contains(k)
}

/// Whether `k` is universal or belongs to a profile.
pub open spec fn managed(w: ProfilesV, k: Seq<char>) -> bool {
    w.universal.contains(k) || in_profile(w, k)
}

/// Whether `k` has a place: universal, a profile, or on demand.
pub open spec fn placed(w: ProfilesV, k: Seq<char>) -> bool {
    managed(w, k) || w.on_demand.contains(k)
}

/// Whether some profile of `working` carries `k`.
pub fn carried(working: &Profiles, k: &str) -> (r: bool)
    ensures
        r == in_profile(working@, k@),
{
    let n: usize = working.profiles.len();
    let ghost names = working.profiles.names();
    let mut i: usize = 0;
    while i < n
        invariant
            i <= n,
            n == names.len(),
            names == working.profiles.names(),
            lists(names, working.profiles@.dom()),
            forall|j: int|
                0 <= j < i ==> !working@.profiles[#[trigger] names[j]].plugins.contains(k@),
        decreases n - i,
    {
        let p = working.profiles.value_at(i);
        if list::contains(&p.plugins, k) {
            assert(working@.profiles.contains_key(names[i as int]));
            assert(working@.profiles[names[i as int]] == p@);
            return true;
        }
        assert(working@.profiles[names[i as int]] == p@);
        i += 1;
    }
    assert forall|m: Seq<char>| #[trigger] working@.profiles.contains_key(m) implies
        !working@.profiles[m].plugins.contains(k@) by {
        assert(names.contains(m));
        let j = choose|j: int| 0 <= j < names.len() && names[j] == m;
        assert(!working@.profiles[names[j]].plugins.contains(k@));
    }
    false
}

/// Whether `k` is universal or belongs to a profile.
pub fn is_managed(working: &Profiles, k: &str) -> (r: bool)
    ensures
        r == managed(working@, k@),
{
    list::contains(&working.universal, k) || carried(working, k)
}

/// Whether `k` has a place in the configuration.
pub fn is_placed(working: &Profiles, k: &str) -> (r: bool)
    ensures
        r == placed(working@, k@),
{
    is_managed(working, k) || list::contains(&working.on_demand, k)
}

/// The installed plugins that have no place.
pub open spec fn unplaced(inv: InventoryV, w: ProfilesV) -> Set<Seq<char>> {
    Set::new(|k: Seq<char>| plugin_keys(inv.plugins).contains(k) && !placed(w, k))
}

/// The installed plugins that have no place, ascending.
pub fn unassigned_keys(inv: &Inventory, working: &Profiles) -> (r: Vec<String>)
    ensures
        lists(r.deep_view(), unplaced(inv@, working@)),
{
    let mut out: Vec<String> = Vec::new();
    let ghost keys = plugin_keys(inv@.plugins);
    let mut i: usize = 0;
    assert(out.deep_view() =~= Seq::<Seq<char>>::empty());
    while i < inv.plugins.len()
        invariant
            i <= inv.plugins.len(),
            keys == plugin_keys(inv@.plugins),
            ascending(out.deep_view()),
            forall|k: Seq<char>| #[trigger]
                out.deep_view().contains(k) <==> keys.take(i as int).contains(k) && !placed(
                    working@,
                    k,
                ),
        decreases inv.plugins.len() - i,
    {
        proof {
            assert(keys.take(i + 1) =~= keys.take(i as int).push(keys[i as int]));
            list::lemma_push_contains(keys.take(i as int), keys[i as int]);
        }
        if !is_placed(working, inv.plugins[i].key.as_str()) {
            insert_sorted(&mut out, inv.plugins[i].key.as_str());
        }
        i += 1;
    }
    assert(keys.take(i as int) =~= keys);
    out
}

/// Inserts into `out` every name of `more` that is not in `skip`.
fn gather(out: &mut Vec<String>, more: &Vec<String>, skip: &Vec<String>)
    requires
        ascending(old(out).deep_view()),
    ensures
        ascending(final(out).deep_view()),
        forall|k: Seq<char>| #[trigger]
            final(out).deep_view().contains(k) <==> old(out).deep_view().contains(k) || (
            more.deep_view().contains(k) && !skip.deep_view().contains(k)),
{
    let ghost base = out.deep_view();
    let ghost all = more.deep_view();
    let mut i: usize = 0;
    while i < more.len()
        invariant
            i <= more.len(),
            all == more.deep_view(),
            ascending(out.deep_view()),
            forall|k: Seq<char>| #[trigger]
                out.deep_view().contains(k) <==> base.contains(k) || (all.take(i as int).contains(k)
                    && !skip.deep_view().contains(k)),
        decreases more.len() - i,
    {
        proof {
            assert(all.take(i + 1) =~= all.take(i as int).push(all[i as int]));
            list::lemma_push_contains(all.take(i as int), all[i as int]);
        }
        if !list::contains(skip, more[i].as_str()) {
            insert_sorted(out, more[i].as_str());
        }
        i += 1;
    }
    assert(all.take(i as int) =~= all);
}

/// Inserts into `out` every profile plugin that is not in `skip`.
fn gather_profiles(out: &mut Vec<String>, working: &Profiles, skip: &Vec<String>)
    requires
        ascending(old(out).deep_view()),
    ensures
        ascending(final(out).deep_view()),
        forall|k: Seq<char>| #[trigger]
            final(out).deep_view().contains(k) <==> old(out).deep_view().contains(k) || (in_profile(
                working@,
                k,
            ) && !skip.deep_view().contains(k)),
{
    let ghost base = out.deep_view();
    let n: usize = working.profiles.len();
    let ghost names = working.profiles.names();
    let ghost sk = skip.deep_view();
    let mut i: usize = 0;
    while i < n
        invariant
            i <= n,
            n == names.len(),
            names == working.profiles.names(),
            lists(names, working.profiles@.dom()),
            sk == skip.deep_view(),
            ascending(out.deep_view()),
            forall|k: Seq<char>| #[trigger]
                out.deep_view().contains(k) <==> base.contains(k) || (!sk.contains(k) && exists|
                    j: int,
                |
                    0 <= j < i && working@.profiles[#[trigger] names[j]].plugins.contains(k)),
        decreases n - i,
    {
        let p = working.profiles.value_at(i);
        let ghost before = out.deep_view();
        gather(out, &p.plugins, skip);
        proof {
            assert(working@.profiles[names[i as int]] == p@);
            assert forall|k: Seq<char>| #[trigger] out.deep_view().contains(k) <==> base.contains(
                k,
            ) || (!sk.contains(k) && exists|j: int|
                0 <= j < i + 1 && working@.profiles[#[trigger] names[j]].plugins.contains(k)) by {
                assert(out.deep_view().contains(k) <==> before.contains(k) || (
                p.plugins.deep_view().contains(k) && !sk.contains(k)));
                if p.plugins.deep_view().contains(k) {
                    assert(working@.profiles[names[i as int]].plugins.contains(k));
                }
            }
        }
        i += 1;
    }
    assert forall|k: Seq<char>| in_profile(working@, k) <==> exists|j: int|
        0 <= j < n && working@.profiles[#[trigger] names[j]].plugins.contains(k) by {
        if in_profile(working@, k) {
            let m = choose|m: Seq<char>| #[trigger]
                working@.profiles.contains_key(m) && working@.profiles[m].plugins.contains(k);
            assert(names.contains(m));
            let j = choose|j: int| 0 <= j < names.len() && names[j] == m;
            assert(working@.profiles[names[j]].plugins.contains(k));
        }
        if exists|j: int| 0 <= j < n && working@.profiles[#[trigger] names[j]].plugins.contains(
            k,
        ) {
            let j = choose|j: int|
                0 <= j < n && working@.profiles[#[trigger] names[j]].plugins.contains(k);
            assert(names.contains(names[j]));
            assert(working@.profiles.contains_key(names[j]));
        }
    }
}

/// All universal and profile plugins.
pub open spec fn managed_set(w: ProfilesV) -> Set<Seq<char>> {
    Set::new(|k: Seq<char>| managed(w, k))
}

/// All universal and profile plugins, ascending.
pub fn managed_keys(working: &Profiles) -> (r: Vec<String>)
    ensures
        lists(r.deep_view(), managed_set(working@)),
{
    let none: Vec<String> = Vec::new();
    let mut out: Vec<String> = Vec::new();
    assert(out.deep_view() =~= Seq::<Seq<char>>::empty());
    assert(none.deep_view() =~= Seq::<Seq<char>>::empty());
    gather(&mut out, &working.universal, &none);
    gather_profiles(&mut out, working, &none);
    out
}

/// The placed plugins that are not installed.
pub open spec fn missing(inv: InventoryV, w: ProfilesV) -> Set<Seq<char>> {
    Set::new(|k: Seq<char>| placed(w, k) && !plugin_keys(inv.plugins).contains(k))
}

/// The placed plugins that are not installed, ascending.
pub fn stale_refs(inv: &Inventory, working: &Profiles) -> (r: Vec<String>)
    ensures
        lists(r.deep_view(), missing(inv@, working@)),
{
    let installed = inv.plugin_keys();
    let mut out: Vec<String> = Vec::new();
    assert(out.deep_view() =~= Seq::<Seq<char>>::empty());
    gather(&mut out, &working.universal, &installed);
    gather_profiles(&mut out, working, &installed);
    gather(&mut out, &working.on_demand, &installed);
    out
}

/// The profile plugins outside the universal set that are enabled globally.
pub open spec fn leaking(w: ProfilesV, enabled: Seq<Seq<char>>) -> Set<Seq<char>> {
    Set::new(
        |k: Seq<char>| enabled.contains(k) && in_profile(w, k) && !w.universal.contains(k),
    )
}

/// The profile plugins outside the universal set that are enabled globally, ascending.
pub fn global_drift(working: &Profiles, global_enabled: &Vec<String>) -> (r: Vec<String>)
    ensures
        lists(r.deep_view(), leaking(working@, global_enabled.deep_view())),
{
    let mut out: Vec<String> = Vec::new();
    let ghost all = global_enabled.deep_view();
    let mut i: usize = 0;
    assert(out.deep_view() =~= Seq::<Seq<char>>::empty());
    while i < global_enabled.len()
        invariant
            i <= global_enabled.len(),
            all == global_enabled.deep_view(),
            ascending(out.deep_view()),
            forall|k: Seq<char>| #[trigger]
                out.deep_view().contains(k) <==> all.take(i as int).contains(k) && in_profile(
                    working@,
                    k,
                ) && !working@.universal.contains(k),
        decreases global_enabled.len() - i,
    {
        proof {
            assert(all.take(i + 1) =~= all.take(i as int).push(all[i as int]));
            list::lemma_push_contains(all.take(i as int), all[i as int]);
        }
        let k = global_enabled[i].as_str();
        if carried(working, k) && !list::contains(&working.universal, k) {
            insert_sorted(&mut out, k);
        }
        i += 1;
    }
    assert(all.take(i as int) =~= all);
    out
}

/// A universal plugin is meant to be enabled globally, and is never reported for it. What
/// is reported are the plugins of profiles, outside the universal ones, that are enabled
/// globally; so where just universal plugins are enabled, nothing is.
pub proof fn universal_plugins_may_be_enabled_globally(w: ProfilesV, enabled: Seq<Seq<char>>)
    ensures
        forall|k: Seq<char>| w.universal.contains(k) ==> !(#[trigger] leaking(w, enabled).contains(
            k,
        )),
        forall|k: Seq<char>| #[trigger]
            leaking(w, enabled).contains(k) <==> enabled.contains(k) && !w.universal.contains(k)
                && exists|n: Seq<char>| #[trigger]
                w.profiles.contains_key(n) && w.profiles[n].plugins.contains(k),
        (forall|k: Seq<char>| #[trigger] enabled.contains(k) ==> w.universal.contains(k))
            ==> leaking(w, enabled) == Set::<Seq<char>>::empty(),
{
    if forall|k: Seq<char>| #[trigger] enabled.contains(k) ==> w.universal.contains(k) {
        assert(leaking(w, enabled) =~= Set::<Seq<char>>::empty());
    }
}

/// A plugin lacks a place just when it is installed and neither universal, nor on demand,
/// nor in any profile.
pub proof fn a_plugin_without_a_place_is_in_no_bucket(inv: InventoryV, w: ProfilesV, k: Seq<char>)
    ensures
        unplaced(inv, w).contains(k) <==> {
            &&& exists|i: int| 0 <= i < inv.plugins.len() && (#[trigger] inv.plugins[i]).key == k
            &&& !w.universal.contains(k)
            &&& !w.on_demand.contains(k)
            &&& forall|n: Seq<char>| #[trigger]
                w.profiles.contains_key(n) ==> !w.profiles[n].plugins.contains(k)
        },
{
    lemma_installed(inv, k);
}

/// A reference is stale just when some bucket names a plugin that is not installed.
pub proof fn a_stale_plugin_is_named_but_not_installed(
    inv: InventoryV,
    w: ProfilesV,
    k: Seq<char>,
)
    ensures
        missing(inv, w).contains(k) <==> {
            &&& forall|i: int| 0 <= i < inv.plugins.len() ==> (#[trigger] inv.plugins[i]).key != k
            &&& w.universal.contains(k) || w.on_demand.contains(k) || exists|n: Seq<char>|
                #[trigger]
                w.profiles.contains_key(n) && w.profiles[n].plugins.contains(k)
        },
{
    lemma_installed(inv, k);
}

proof fn lemma_installed(inv: InventoryV, k: Seq<char>)
    ensures
        plugin_keys(inv.plugins).contains(k) <==> exists|i: int|
            0 <= i < inv.plugins.len() && (#[trigger] inv.plugins[i]).key == k,
{
    let keys = plugin_keys(inv.plugins);
    if keys.contains(k) {
        let i = choose|i: int| 0 <= i < keys.len() && keys[i] == k;
        assert(inv.plugins[i].key == k);
    }
    if exists|i: int| 0 <= i < inv.plugins.len() && (#[trigger] inv.plugins[i]).key == k {
        let i = choose|i: int| 0 <= i < inv.plugins.len() && (#[trigger] inv.plugins[i]).key == k;
        assert(keys[i] == k);
    }
}

/// The plugins that are managed are those that are universal and those of profiles;
/// plugins on demand are not.
pub proof fn managed_plugins_are_universal_or_of_a_profile(w: ProfilesV, k: Seq<char>)
    ensures
        managed_set(w).contains(k) <==> w.universal.contains(k) || exists|n: Seq<char>| #[trigger]
            w.profiles.contains_key(n) && w.profiles[n].plugins.contains(k),
{
}

/// Everything that wants a look.
#[derive(Debug, PartialEq, Eq)]
pub struct Drift {
    pub new_unassigned: Vec<String>,
    pub stale: Vec<String>,
    pub uncovered: Vec<String>,
    pub global: Vec<String>,
    pub scope: Vec<String>,
}

impl Drift {
    /// How many findings there are in all.
    pub fn review_count(&self) -> (n: usize)
        requires
            self.new_unassigned.len() + self.stale.len() + self.uncovered.len() + self.global.len()
                + self.scope.len() <= usize::MAX,
        ensures
            n == self.new_unassigned.len() + self.stale.len() + self.uncovered.len()
                + self.global.len() + self.scope.len(),
    {
        self.new_unassigned.len() + self.stale.len() + self.uncovered.len() + self.global.len()
            + self.scope.len()
    }
}

/// No profile matches the repo, and none can still turn out to.
pub open spec fn is_uncovered(
    sig: SignalV,
    names: Seq<Seq<char>>,
    profiles: Map<Seq<char>, ProfileV>,
) -> bool {
    matched_names(sig, names, profiles).len() == 0 && !is_pending(sig, names, profiles)
}

/// No profile matches the repo so far, but one may once the index is complete.
pub open spec fn is_undecided(
    sig: SignalV,
    names: Seq<Seq<char>>,
    profiles: Map<Seq<char>, ProfileV>,
) -> bool {
    matched_names(sig, names, profiles).len() == 0 && is_pending(sig, names, profiles)
}

/// The paths of the uncovered repos, in scan order.
pub open spec fn uncovered_paths(
    repos: Seq<SignalV>,
    names: Seq<Seq<char>>,
    profiles: Map<Seq<char>, ProfileV>,
) -> Seq<Seq<char>>
    decreases repos.len(),
{
    if repos.len() == 0 {
        Seq::empty()
    } else {
        let before = uncovered_paths(repos.drop_last(), names, profiles);
        if is_uncovered(repos.last(), names, profiles) {
            before.push(repos.last().path)
        } else {
            before
        }
    }
}

/// Whether some repo is undecided.
pub open spec fn any_undecided(
    repos: Seq<SignalV>,
    names: Seq<Seq<char>>,
    profiles: Map<Seq<char>, ProfileV>,
) -> bool {
    exists|i: int| 0 <= i < repos.len() && is_undecided(#[trigger] repos[i], names, profiles)
}

/// Every repo is covered, uncovered or undecided, and only one of them.
pub proof fn coverage_is_a_partition(
    sig: SignalV,
    names: Seq<Seq<char>>,
    profiles: Map<Seq<char>, ProfileV>,
)
    ensures
        !(is_uncovered(sig, names, profiles) && is_undecided(sig, names, profiles)),
        is_uncovered(sig, names, profiles) || is_undecided(sig, names, profiles) <==> matched_names(
            sig,
            names,
            profiles,
        ).len() == 0,
{
}

/// A repo that rules classify is uncovered just when the rules of every profile say no. It
/// is undecided just when none says yes and some is open.
pub proof fn an_uncovered_repo_matches_no_profile(
    sig: SignalV,
    names: Seq<Seq<char>>,
    profiles: Map<Seq<char>, ProfileV>,
)
    requires
        lists(names, profiles.dom()),
        sig.override_names is None,
    ensures
        is_uncovered(sig, names, profiles) <==> forall|n: Seq<char>| #[trigger]
            profiles.contains_key(n) ==> answer(sig, profiles[n].detect) is NoMatch,
        is_undecided(sig, names, profiles) <==> {
            &&& forall|n: Seq<char>| #[trigger]
                profiles.contains_key(n) ==> !(answer(sig, profiles[n].detect) is Match)
            &&& exists|n: Seq<char>| #[trigger]
                profiles.contains_key(n) && answer(sig, profiles[n].detect) is Unknown
        },
{
    every_matching_profile_is_listed(sig, names, profiles);
    let ms = matched_names(sig, names, profiles);
    if ms.len() > 0 {
        assert(ms.contains(ms[0]));
        assert(profiles.contains_key(ms[0]));
    }
    assert forall|n: Seq<char>| #[trigger] profiles.contains_key(n) && ms.len() == 0 implies !(
    answer(sig, profiles[n].detect) is Match) by {
        assert(!ms.contains(n));
    }
}

/// A repo with an override is uncovered just when it names no profile that exists, and is
/// never undecided.
pub proof fn an_override_covers_by_what_it_names(
    sig: SignalV,
    over: Seq<Seq<char>>,
    names: Seq<Seq<char>>,
    profiles: Map<Seq<char>, ProfileV>,
)
    requires
        sig.override_names == Some(over),
    ensures
        is_uncovered(sig, names, profiles) <==> forall|i: int|
            0 <= i < over.len() ==> !profiles.contains_key(#[trigger] over[i]),
        !is_undecided(sig, names, profiles),
{
    let ix = an_override_replaces_the_rules(sig, over, names, profiles);
    let p = |i: int| profiles.contains_key(over[i]);
    if ix.len() > 0 {
        assert(p(ix[0]));
    }
    assert forall|i: int| 0 <= i < over.len() && ix.len() == 0 implies !profiles.contains_key(
        #[trigger] over[i],
    ) by {
        if p(i) {
            assert(ix.contains(i));
        }
    }
}

/// The uncovered repos are listed by path, each one and in scan order. Returns their
/// positions.
pub proof fn every_uncovered_repo_is_listed(
    repos: Seq<SignalV>,
    names: Seq<Seq<char>>,
    profiles: Map<Seq<char>, ProfileV>,
) -> (ix: Seq<int>)
    ensures
        list::picks(
            ix,
            repos.len() as int,
            |i: int|
                matched_names(repos[i], names, profiles).len() == 0 && !is_pending(
                    repos[i],
                    names,
                    profiles,
                ),
        ),
        uncovered_paths(repos, names, profiles).len() == ix.len(),
        forall|k: int|
            0 <= k < ix.len() ==> #[trigger] uncovered_paths(repos, names, profiles)[k]
                == repos[ix[k]].path,
{
    let n = repos.len() as int;
    let p = |i: int|
        matched_names(repos[i], names, profiles).len() == 0 && !is_pending(
            repos[i],
            names,
            profiles,
        );
    list::lemma_picked(n, p);
    lemma_uncovered_paths(repos, names, profiles);
    list::lemma_picked_congruent(n, |i: int| is_uncovered(repos[i], names, profiles), p);
    list::picked(n, p)
}

proof fn lemma_uncovered_paths(
    repos: Seq<SignalV>,
    names: Seq<Seq<char>>,
    profiles: Map<Seq<char>, ProfileV>,
)
    ensures
        uncovered_paths(repos, names, profiles) == list::picked(
            repos.len() as int,
            |i: int| is_uncovered(repos[i], names, profiles),
        ).map_values(|i: int| repos[i].path),
    decreases repos.len(),
{
    let n = repos.len() as int;
    let p = |i: int| is_uncovered(repos[i], names, profiles);
    let f = |i: int| repos[i].path;
    if n > 0 {
        let t = repos.drop_last();
        lemma_uncovered_paths(t, names, profiles);
        list::lemma_picked_congruent(n - 1, |i: int| is_uncovered(t[i], names, profiles), p);
        list::lemma_picked(n - 1, p);
        let before = list::picked(n - 1, p);
        assert(before.map_values(|i: int| t[i].path) =~= before.map_values(f));
    }
    assert(uncovered_paths(repos, names, profiles) =~= list::picked(n, p).map_values(f));
}

/// The uncovered repos, read off the index, and whether some repo is undecided.
pub fn uncovered_from_signals(repos: &Vec<RepoSignal>, working: &Profiles) -> (r: (
    Vec<String>,
    bool,
))
    ensures
        r.0.deep_view() == uncovered_paths(
            repos.deep_view(),
            working@.names(),
            working@.profiles,
        ),
        r.1 == any_undecided(repos.deep_view(), working@.names(), working@.profiles),
{
    let ghost names = working@.names();
    let ghost pv = working@.profiles;
    let ghost all = repos.deep_view();
    let mut out: Vec<String> = Vec::new();
    let mut undecided = false;
    let mut i: usize = 0;
    assert(out.deep_view() =~= Seq::<Seq<char>>::empty());
    while i < repos.len()
        invariant
            i <= repos.len(),
            names == working@.names(),
            pv == working@.profiles,
            all == repos.deep_view(),
            out.deep_view() == uncovered_paths(all.take(i as int), names, pv),
            undecided == exists|j: int|
                0 <= j < i && is_undecided(#[trigger] all[j], names, pv),
        decreases repos.len() - i,
    {
        let ghost before = out.deep_view();
        proof {
            let t = all.take(i + 1);
            assert(t.drop_last() =~= all.take(i as int));
            assert(t.last() == all[i as int]);
            assert(all[i as int] == repos[i as int]@);
        }
        let (matched, pending) = detect_from_signal(&repos[i], working);
        assert(matched.len() == matched.deep_view().len());
        if matched.len() == 0 {
            if pending {
                undecided = true;
            } else {
                out.push(repos[i].path.clone());
                assert(out.deep_view() =~= before.push(all[i as int].path));
            }
        }
        i += 1;
    }
    assert(all.take(i as int) =~= all);
    (out, undecided)
}

} // verus!
