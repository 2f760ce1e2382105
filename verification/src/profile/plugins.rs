//! Which plugins a repo should have.

use vstd::prelude::*;

use crate::list::{self, with_key};
use crate::profile::config::{Profiles, ProfilesV};

verus! {

/// `s` followed by the names of `more` that are not there yet.
pub open spec fn merged(s: Seq<Seq<char>>, more: Seq<Seq<char>>) -> Seq<Seq<char>>
    decreases more.len(),
{
    if more.len() == 0 {
        s
    } else {
        with_key(merged(s, more.drop_last()), more.last())
    }
}

/// The universal plugins, then those of each matched profile, none twice.
pub open spec fn desired(w: ProfilesV, matched: Seq<Seq<char>>) -> Seq<Seq<char>>
    decreases matched.len(),
{
    if matched.len() == 0 {
        merged(Seq::empty(), w.universal)
    } else {
        let before = desired(w, matched.drop_last());
        if w.profiles.contains_key(matched.last()) {
            merged(before, w.profiles[matched.last()].plugins)
        } else {
            before
        }
    }
}

/// Merging only appends: what was there stays in front.
pub proof fn merging_only_appends(s: Seq<Seq<char>>, more: Seq<Seq<char>>)
    ensures
        s.is_prefix_of(merged(s, more)),
    decreases more.len(),
{
    if more.len() > 0 {
        merging_only_appends(s, more.drop_last());
        let before = merged(s, more.drop_last());
        assert(s =~= before.subrange(0, s.len() as int));
        assert(s =~= merged(s, more).subrange(0, s.len() as int));
    } else {
        assert(s =~= s.subrange(0, s.len() as int));
    }
}

/// Merging holds exactly what was there and what came.
pub proof fn merging_is_a_union(s: Seq<Seq<char>>, more: Seq<Seq<char>>, k: Seq<char>)
    ensures
        merged(s, more).contains(k) <==> s.contains(k) || more.contains(k),
    decreases more.len(),
{
    if more.len() > 0 {
        merging_is_a_union(s, more.drop_last(), k);
        assert(more =~= more.drop_last().push(more.last()));
        list::lemma_push_contains(more.drop_last(), more.last());
        list::lemma_push_contains(merged(s, more.drop_last()), more.last());
    }
}

/// Merging into distinct names leaves them distinct.
pub proof fn merging_keeps_names_distinct(s: Seq<Seq<char>>, more: Seq<Seq<char>>)
    requires
        s.no_duplicates(),
    ensures
        merged(s, more).no_duplicates(),
    decreases more.len(),
{
    if more.len() > 0 {
        merging_keeps_names_distinct(s, more.drop_last());
        let before = merged(s, more.drop_last());
        if !before.contains(more.last()) {
            let after = before.push(more.last());
            assert forall|i: int, j: int|
                0 <= i < after.len() && 0 <= j < after.len() && i != j implies after[i]
                != after[j] by {
                if i == before.len() {
                    assert(before.contains(before[j]));
                } else if j == before.len() {
                    assert(before.contains(before[i]));
                }
            }
        }
    }
}

/// A repo has a plugin for a reason: it is universal, or a matched profile has it; and
/// each such plugin the repo has.
pub proof fn plugins_have_a_reason(w: ProfilesV, matched: Seq<Seq<char>>, k: Seq<char>)
    ensures
        desired(w, matched).contains(k) <==> w.universal.contains(k) || exists|i: int|
            0 <= i < matched.len() && w.profiles.contains_key(#[trigger] matched[i])
                && w.profiles[matched[i]].plugins.contains(k),
    decreases matched.len(),
{
    if matched.len() == 0 {
        merging_is_a_union(Seq::empty(), w.universal, k);
    } else {
        let front = matched.drop_last();
        plugins_have_a_reason(w, front, k);
        let m = matched.last();
        let last = matched.len() - 1;
        assert(matched[last] == m);
        if w.profiles.contains_key(m) {
            merging_is_a_union(desired(w, front), w.profiles[m].plugins, k);
        }
        if exists|i: int|
            0 <= i < front.len() && w.profiles.contains_key(#[trigger] front[i])
                && w.profiles[front[i]].plugins.contains(k) {
            let i = choose|i: int|
                0 <= i < front.len() && w.profiles.contains_key(#[trigger] front[i])
                    && w.profiles[front[i]].plugins.contains(k);
            assert(matched[i] == front[i]);
        }
        if exists|i: int|
            0 <= i < matched.len() && w.profiles.contains_key(#[trigger] matched[i])
                && w.profiles[matched[i]].plugins.contains(k) {
            let i = choose|i: int|
                0 <= i < matched.len() && w.profiles.contains_key(#[trigger] matched[i])
                    && w.profiles[matched[i]].plugins.contains(k);
            if i < last {
                assert(front[i] == matched[i]);
            }
        }
    }
}

/// Profiles stack: one more match only adds plugins behind those that are there.
pub proof fn profiles_stack(w: ProfilesV, matched: Seq<Seq<char>>, m: Seq<char>)
    ensures
        desired(w, matched).is_prefix_of(desired(w, matched.push(m))),
{
    let all = matched.push(m);
    assert(all.drop_last() =~= matched);
    let d = desired(w, matched);
    if w.profiles.contains_key(m) {
        merging_only_appends(d, w.profiles[m].plugins);
    } else {
        assert(d =~= d.subrange(0, d.len() as int));
    }
}

/// No plugin is listed twice.
pub proof fn plugins_are_distinct(w: ProfilesV, matched: Seq<Seq<char>>)
    ensures
        desired(w, matched).no_duplicates(),
    decreases matched.len(),
{
    if matched.len() == 0 {
        merging_keeps_names_distinct(Seq::empty(), w.universal);
    } else {
        plugins_are_distinct(w, matched.drop_last());
        if w.profiles.contains_key(matched.last()) {
            merging_keeps_names_distinct(
                desired(w, matched.drop_last()),
                w.profiles[matched.last()].plugins,
            );
        }
    }
}

/// Appends the names of `more` that are not in `names` yet.
pub fn merge_into(names: &mut Vec<String>, more: &Vec<String>)
    ensures
        final(names).deep_view() == merged(old(names).deep_view(), more.deep_view()),
{
    let ghost base = names.deep_view();
    let ghost all = more.deep_view();
    let mut i: usize = 0;
    while i < more.len()
        invariant
            i <= more.len(),
            all == more.deep_view(),
            names.deep_view() == merged(base, all.take(i as int)),
        decreases more.len() - i,
    {
        proof {
            let t = all.take(i + 1);
            assert(t.drop_last() =~= all.take(i as int));
            assert(t.last() == all[i as int]);
        }
        list::add_missing(names, more[i].as_str());
        i += 1;
    }
    assert(all.take(i as int) =~= all);
}

/// The plugins for a repo that matches the profiles `matched`.
pub fn desired_plugins(working: &Profiles, matched: &Vec<String>) -> (r: Vec<String>)
    ensures
        r.deep_view() == desired(working@, matched.deep_view()),
{
    let mut out: Vec<String> = Vec::new();
    assert(out.deep_view() =~= Seq::<Seq<char>>::empty());
    merge_into(&mut out, &working.universal);
    let ghost all = matched.deep_view();
    let mut i: usize = 0;
    assert(all.take(0) =~= Seq::<Seq<char>>::empty());
    while i < matched.len()
        invariant
            i <= matched.len(),
            all == matched.deep_view(),
            out.deep_view() == desired(working@, all.take(i as int)),
        decreases matched.len() - i,
    {
        proof {
            let t = all.take(i + 1);
            assert(t.drop_last() =~= all.take(i as int));
            assert(t.last() == all[i as int]);
        }
        match working.profiles.get(matched[i].as_str()) {
            Some(p) => {
                merge_into(&mut out, &p.plugins);
            },
            None => {},
        }
        i += 1;
    }
    assert(all.take(i as int) =~= all);
    out
}

/// Merging puts behind what was there the names that came and were not there, in the order
/// in which each came first. Returns their positions among those that came.
pub proof fn merging_keeps_the_order(s: Seq<Seq<char>>, more: Seq<Seq<char>>) -> (ix: Seq<int>)
    ensures
        list::picks(
            ix,
            more.len() as int,
            |i: int| !s.contains(more[i]) && !more.take(i).contains(more[i]),
        ),
        merged(s, more).len() == s.len() + ix.len(),
        forall|k: int| 0 <= k < s.len() ==> #[trigger] merged(s, more)[k] == s[k],
        forall|k: int|
            0 <= k < ix.len() ==> merged(s, more)[s.len() + k] == more[#[trigger] ix[k]],
{
    let n = more.len() as int;
    let p = |i: int| !s.contains(more[i]) && !more.take(i).contains(more[i]);
    list::lemma_picked(n, p);
    lemma_merged_picked(s, more, n);
    assert(more.take(n) =~= more);
    let ix = list::picked(n, p);
    let tail = ix.map_values(|i: int| more[i]);
    assert forall|k: int| 0 <= k < ix.len() implies merged(s, more)[s.len() + k]
        == more[#[trigger] ix[k]] by {
        assert((s + tail)[s.len() + k] == tail[k]);
    }
    ix
}

proof fn lemma_merged_picked(s: Seq<Seq<char>>, more: Seq<Seq<char>>, n: int)
    requires
        0 <= n <= more.len(),
    ensures
        merged(s, more.take(n)) == s + list::picked(
            n,
            |i: int| !s.contains(more[i]) && !more.take(i).contains(more[i]),
        ).map_values(|i: int| more[i]),
    decreases n,
{
    let p = |i: int| !s.contains(more[i]) && !more.take(i).contains(more[i]);
    let f = |i: int| more[i];
    if n > 0 {
        lemma_merged_picked(s, more, n - 1);
        list::lemma_picked(n - 1, p);
        let t = more.take(n);
        assert(t.drop_last() =~= more.take(n - 1));
        assert(t.last() == more[n - 1]);
        merging_is_a_union(s, more.take(n - 1), more[n - 1]);
    }
    assert(merged(s, more.take(n)) =~= s + list::picked(n, p).map_values(f));
}

} // verus!
