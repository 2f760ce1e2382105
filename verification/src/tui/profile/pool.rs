//! The detail view of the two pools, Universal and On-demand. A pool carries
//! plugins but no rules, so it has no name to change and nothing to detect.

use vstd::prelude::*;

use crate::list::{self, minus};
use crate::profile::config::{Profile, ProfileV, Profiles, ProfilesV};
use crate::profile::discover::{plugin_keys, Inventory, InventoryV};
use crate::text::{lemma_lex_irreflexive, lex_lt};
use crate::tui::key::{KeyCode, KeyEvent};
use crate::tui::line::Line;
use crate::tui::multiselect::{MultiSelect, MultiV};

verus! {

/// Which pool is being edited.
#[derive(Clone, Copy, Debug, PartialEq, Eq, Structural)]
pub enum Pool {
    Universal,
    OnDemand,
}

/// A checkbox list over all installed plugins, the pool's members checked.
#[derive(Debug)]
pub struct PoolDetailState {
    pub pool: Pool,
    pub plugins: MultiSelect,
}

/// The members of a pool.
pub open spec fn pool_members(pool: Pool, w: ProfilesV) -> Seq<Seq<char>> {
    match pool {
        Pool::Universal => w.universal,
        Pool::OnDemand => w.on_demand,
    }
}

/// The configuration in which exactly `chosen` is in the pool, and none of it is
/// anywhere else.
pub open spec fn with_pool(pool: Pool, w: ProfilesV, chosen: Seq<Seq<char>>) -> ProfilesV {
    ProfilesV {
        universal: match pool {
            Pool::Universal => chosen,
            Pool::OnDemand => minus(w.universal, chosen),
        },
        on_demand: match pool {
            Pool::Universal => minus(w.on_demand, chosen),
            Pool::OnDemand => chosen,
        },
        profiles: w.profiles.map_values(
            |p: ProfileV| ProfileV { plugins: minus(p.plugins, chosen), ..p },
        ),
        ..w
    }
}

/// After an edit, a chosen plugin lives in that pool alone.
pub proof fn chosen_plugins_live_in_one_pool(
    pool: Pool,
    w: ProfilesV,
    chosen: Seq<Seq<char>>,
    key: Seq<char>,
)
    requires
        chosen.contains(key),
    ensures
        ({
            let after = with_pool(pool, w, chosen);
            &&& pool_members(pool, after).contains(key)
            &&& pool is Universal ==> !after.on_demand.contains(key)
            &&& pool is OnDemand ==> !after.universal.contains(key)
            &&& !crate::profile::drift::in_profile(after, key)
        }),
{
    let after = with_pool(pool, w, chosen);
    let p = |x: Seq<char>| !chosen.contains(x);
    list::lemma_filter_contains(w.on_demand, p);
    list::lemma_filter_contains(w.universal, p);
    assert forall|n: Seq<char>| #[trigger] after.profiles.contains_key(n) implies
        !after.profiles[n].plugins.contains(key) by {
        list::lemma_filter_contains(w.profiles[n].plugins, p);
    }
}

/// The list as it opens.
pub open spec fn pool_list(pool: Pool, inv: InventoryV, w: ProfilesV) -> MultiV {
    let keys = plugin_keys(inv.plugins);
    MultiV {
        items: keys,
        checked: keys.map_values(|k: Seq<char>| pool_members(pool, w).contains(k)),
        cursor: 0,
        annotate: Seq::empty(),
    }
}

/// The title of a pool.
pub open spec fn pool_title(pool: Pool) -> Seq<char> {
    match pool {
        Pool::Universal => "Universal — plugins loaded in every repo"@,
        Pool::OnDemand => "On-demand — plugins borrowed per session"@,
    }
}

/// Takes the names of `drop` out of every profile.
fn purge(working: &mut Profiles, drop: &Vec<String>)
    ensures
        final(working)@ == (ProfilesV {
            profiles: old(working)@.profiles.map_values(
                |p: ProfileV| ProfileV { plugins: minus(p.plugins, drop.deep_view()), ..p },
            ),
            ..old(working)@
        }),
{
    let ghost start = working@;
    let names = working.names();
    let n: usize = working.count();
    let ghost all = names.deep_view();
    let ghost dv = drop.deep_view();
    let ghost f = |p: ProfileV| ProfileV { plugins: minus(p.plugins, dv), ..p };
    let mut i: usize = 0;
    while i < names.len()
        invariant
            i <= names.len(),
            all == names.deep_view(),
            dv == drop.deep_view(),
            f == (|p: ProfileV| ProfileV { plugins: minus(p.plugins, dv), ..p }),
            list::lists(all, start.profiles.dom()),
            working@.universal == start.universal,
            working@.on_demand == start.on_demand,
            working@.scan_roots == start.scan_roots,
            working@.profiles.dom() == start.profiles.dom(),
            forall|j: int|
                0 <= j < i ==> working@.profiles[#[trigger] all[j]] == f(start.profiles[all[j]]),
            forall|j: int|
                i <= j < all.len() ==> working@.profiles[#[trigger] all[j]]
                    == start.profiles[all[j]],
        decreases names.len() - i,
    {
        let name = names[i].as_str();
        assert(name@ == all[i as int]);
        assert(all.contains(name@));
        let ghost before = working@;
        let cleaned = match working.profiles.get(name) {
            Some(p) => Some(
                Profile { plugins: list::difference(&p.plugins, drop), detect: p.detect.clone() },
            ),
            None => None,
        };
        assert(working@.profiles.contains_key(name@));
        match cleaned {
            Some(q) => {
                working.put(name, q);
                assert(working@.profiles.dom() =~= start.profiles.dom());
                assert(q@ =~= f(before.profiles[name@]));
            },
            None => {},
        }
        proof {
            assert forall|j: int| 0 <= j < all.len() && j != i implies #[trigger] all[j]
                != name@ by {
                if all[j] == name@ {
                    lemma_lex_irreflexive(name@);
                    assert(lex_lt(all[j], all[i as int]) || lex_lt(all[i as int], all[j]));
                }
            }
        }
        i += 1;
    }
    proof {
        assert forall|k: Seq<char>| start.profiles.contains_key(k) implies #[trigger]
            working@.profiles[k] == f(start.profiles[k]) by {
            assert(all.contains(k));
            let j = choose|j: int| 0 <= j < all.len() && all[j] == k;
            assert(working@.profiles[all[j]] == f(start.profiles[all[j]]));
        }
        assert(working@.profiles =~= start.profiles.map_values(f));
    }
}

impl PoolDetailState {
    /// Opens `pool`.
    pub fn open(pool: Pool, inv: &Inventory, working: &Profiles) -> (r: PoolDetailState)
        ensures
            r.pool == pool,
            r.plugins@ == pool_list(pool, inv@, working@),
    {
        let keys = inv.plugin_keys();
        let ghost kv = keys.deep_view();
        let plugins = match pool {
            Pool::Universal => MultiSelect::new(keys, &working.universal),
            Pool::OnDemand => MultiSelect::new(keys, &working.on_demand),
        };
        assert(plugins@.checked =~= pool_list(pool, inv@, working@).checked);
        PoolDetailState { pool, plugins }
    }

    /// Mirrors the checked plugins into `working`: they are in this pool, and nowhere else.
    pub fn write_back(&self, working: &mut Profiles)
        ensures
            final(working)@ == with_pool(self.pool, old(working)@, self.plugins@.selected()),
    {
        let ghost w = working@;
        let selected = self.plugins.selected();
        purge(working, &selected);
        match self.pool {
            Pool::Universal => {
                working.on_demand = list::difference(&working.on_demand, &selected);
                working.universal = selected;
            },
            Pool::OnDemand => {
                working.universal = list::difference(&working.universal, &selected);
                working.on_demand = selected;
            },
        }
        assert(working@ =~= with_pool(self.pool, w, self.plugins@.selected()));
    }

    /// Acts on a key; returns whether to go back to the board. Every edit is
    /// mirrored into `working` at once.
    pub fn handle_key(&mut self, key: KeyEvent, working: &mut Profiles) -> (r: bool)
        ensures
            final(self).pool == old(self).pool,
            r == (key.code == KeyCode::Esc || key.code == KeyCode::Enter),
            r ==> final(self).plugins@ == old(self).plugins@ && final(working)@ == old(working)@,
            !r ==> {
                &&& final(self).plugins@ == old(self).plugins@.after(key.code)
                &&& final(working)@ == with_pool(
                    old(self).pool,
                    old(working)@,
                    final(self).plugins@.selected(),
                )
            },
    {
        match key.code {
            KeyCode::Esc | KeyCode::Enter => true,
            _ => {
                self.plugins.on_key(key);
                self.write_back(working);
                false
            },
        }
    }
}

/// The lines of a pool's plugin list.
pub fn render(state: &PoolDetailState) -> (r: Vec<Line>)
    ensures
        r.deep_view() == state.plugins@.lines(pool_title(state.pool)),
{
    match state.pool {
        Pool::Universal => state.plugins.lines("Universal — plugins loaded in every repo"),
        Pool::OnDemand => state.plugins.lines("On-demand — plugins borrowed per session"),
    }
}

/// An edit of a pool leaves every plugin that was not chosen where it was outside the pool,
/// makes the pool just what was chosen, and touches no rule and no scan root.
pub proof fn plugins_that_were_not_chosen_stay(
    pool: Pool,
    w: ProfilesV,
    chosen: Seq<Seq<char>>,
)
    ensures
        ({
            let x = with_pool(pool, w, chosen);
            &&& pool is Universal ==> x.universal == chosen
            &&& pool is OnDemand ==> x.on_demand == chosen
            &&& pool is Universal ==> forall|k: Seq<char>|
                !chosen.contains(k) ==> (#[trigger] x.on_demand.contains(k)
                    <==> w.on_demand.contains(k))
            &&& pool is OnDemand ==> forall|k: Seq<char>|
                !chosen.contains(k) ==> (#[trigger] x.universal.contains(k)
                    <==> w.universal.contains(k))
            &&& forall|m: Seq<char>| #[trigger]
                x.profiles.contains_key(m) <==> w.profiles.contains_key(m)
            &&& forall|m: Seq<char>| #[trigger]
                w.profiles.contains_key(m) ==> x.profiles[m].detect == w.profiles[m].detect
            &&& forall|m: Seq<char>, k: Seq<char>|
                w.profiles.contains_key(m) ==> (#[trigger] x.profiles[m].plugins.contains(k)
                    <==> w.profiles[m].plugins.contains(k) && !chosen.contains(k))
            &&& x.scan_roots == w.scan_roots
        }),
{
    let x = with_pool(pool, w, chosen);
    list::taking_names_out_keeps_the_rest(w.universal, chosen);
    list::taking_names_out_keeps_the_rest(w.on_demand, chosen);
    assert forall|m: Seq<char>, k: Seq<char>| w.profiles.contains_key(m) implies (
    #[trigger] x.profiles[m].plugins.contains(k) <==> w.profiles[m].plugins.contains(k)
        && !chosen.contains(k)) by {
        list::taking_names_out_keeps_the_rest(w.profiles[m].plugins, chosen);
    }
}

/// A pool opens with a box for every installed plugin, checked just where the pool has it.
pub proof fn a_pool_shows_its_members(pool: Pool, inv: InventoryV, w: ProfilesV, i: int)
    requires
        0 <= i < inv.plugins.len(),
    ensures
        pool_list(pool, inv, w).items.len() == inv.plugins.len(),
        pool_list(pool, inv, w).items[i] == inv.plugins[i].key,
        pool_list(pool, inv, w).checked[i] == match pool {
            Pool::Universal => w.universal.contains(inv.plugins[i].key),
            Pool::OnDemand => w.on_demand.contains(inv.plugins[i].key),
        },
{
}

} // verus!
