//! Lists of names: membership, removal, copying, and ascending listings.

use vstd::prelude::*;

use crate::text::{less, lex_lt, lemma_lex_irreflexive, lemma_lex_total, lemma_lex_transitive, same};

verus! {

/// Every name sorts strictly before every later one, so none occurs twice.
pub open spec fn ascending(s: Seq<Seq<char>>) -> bool {
    forall|i: int, j: int| 0 <= i < j < s.len() ==> lex_lt(#[trigger] s[i], #[trigger] s[j])
}

/// `s` without any occurrence of `k`, the rest in order.
pub open spec fn without_key(s: Seq<Seq<char>>, k: Seq<char>) -> Seq<Seq<char>> {
    s.filter(|x: Seq<char>| x != k)
}

/// `s` with `k` at the end, unless it is already there.
pub open spec fn with_key(s: Seq<Seq<char>>, k: Seq<char>) -> Seq<Seq<char>> {
    if s.contains(k) {
        s
    } else {
        s.push(k)
    }
}

/// The names of `s` that are not in `drop`, in order.
pub open spec fn minus(s: Seq<Seq<char>>, drop: Seq<Seq<char>>) -> Seq<Seq<char>> {
    s.filter(|x: Seq<char>| !drop.contains(x))
}

/// The ascending listing of a set of names.
pub open spec fn lists(s: Seq<Seq<char>>, names: Set<Seq<char>>) -> bool {
    &&& ascending(s)
    &&& forall|k: Seq<char>| #[trigger] s.contains(k) <==> names.contains(k)
}

/// The ascending list of a finite set of names.
pub open spec fn listing(names: Set<Seq<char>>) -> Seq<Seq<char>> {
    choose|s: Seq<Seq<char>>| lists(s, names)
}

/// A list that lists a set is its listing.
pub proof fn lemma_listing(s: Seq<Seq<char>>, names: Set<Seq<char>>)
    requires
        lists(s, names),
    ensures
        listing(names) == s,
{
    lemma_ascending_unique(listing(names), s);
}

/// Filtering a list that grew by one element.
pub proof fn lemma_filter_push<A>(s: Seq<A>, x: A, p: spec_fn(A) -> bool)
    ensures
        s.push(x).filter(p) == if p(x) {
            s.filter(p).push(x)
        } else {
            s.filter(p)
        },
{
    reveal(Seq::filter);
    assert(s.push(x).drop_last() =~= s);
}

/// Filtering the empty list.
pub proof fn lemma_filter_empty<A>(p: spec_fn(A) -> bool)
    ensures
        Seq::<A>::empty().filter(p) == Seq::<A>::empty(),
{
    reveal(Seq::filter);
}

/// Filtering a list without duplicates makes none.
pub proof fn lemma_filter_distinct<A>(s: Seq<A>, p: spec_fn(A) -> bool)
    requires
        s.no_duplicates(),
    ensures
        s.filter(p).no_duplicates(),
    decreases s.len(),
{
    reveal(Seq::filter);
    if s.len() > 0 {
        let t = s.drop_last();
        lemma_filter_distinct(t, p);
        lemma_filter_contains(t, p);
        assert(!t.contains(s.last()));
        let f = t.filter(p);
        assert(!f.contains(s.last()));
        assert forall|i: int| 0 <= i < f.len() implies #[trigger] f[i] != s.last() by {
            assert(f.contains(f[i]));
        }
    }
}

/// A filtered list holds exactly the elements that pass.
pub proof fn lemma_filter_contains<A>(s: Seq<A>, p: spec_fn(A) -> bool)
    ensures
        forall|x: A| #[trigger] s.filter(p).contains(x) <==> s.contains(x) && p(x),
    decreases s.len(),
{
    reveal(Seq::filter);
    if s.len() > 0 {
        lemma_filter_contains(s.drop_last(), p);
        let t = s.drop_last();
        assert(s =~= t.push(s.last()));
        assert forall|x: A| #[trigger] s.filter(p).contains(x) <==> s.contains(x) && p(x) by {
            let f = t.filter(p);
            assert(s.contains(x) <==> t.contains(x) || x == s.last()) by {
                if t.contains(x) {
                    let i = choose|i: int| 0 <= i < t.len() && t[i] == x;
                    assert(s[i] == x);
                }
                if x == s.last() {
                    assert(s[s.len() - 1] == x);
                }
            }
            assert(f.push(s.last()).contains(x) <==> f.contains(x) || x == s.last()) by {
                if f.contains(x) {
                    let i = choose|i: int| 0 <= i < f.len() && f[i] == x;
                    assert(f.push(s.last())[i] == x);
                }
                if x == s.last() {
                    assert(f.push(s.last())[f.len() as int] == x);
                }
            }
        }
    }
}

/// Whether `ix` are the positions below `n` that pass, each once, ascending.
pub open spec fn picks(ix: Seq<int>, n: int, p: spec_fn(int) -> bool) -> bool {
    &&& forall|k: int| 0 <= k < ix.len() ==> 0 <= #[trigger] ix[k] < n && p(ix[k])
    &&& forall|j: int, k: int| 0 <= j < k < ix.len() ==> ix[j] < ix[k]
    &&& forall|i: int| 0 <= i < n && #[trigger] p(i) ==> ix.contains(i)
}

/// The positions below `n` that pass, ascending.
pub open spec fn picked(n: int, p: spec_fn(int) -> bool) -> Seq<int>
    decreases n,
{
    if n <= 0 {
        Seq::empty()
    } else if p(n - 1) {
        picked(n - 1, p).push(n - 1)
    } else {
        picked(n - 1, p)
    }
}

/// The positions that pass are picked.
pub proof fn lemma_picked(n: int, p: spec_fn(int) -> bool)
    ensures
        picks(picked(n, p), n, p),
    decreases n,
{
    if n > 0 {
        lemma_picked(n - 1, p);
        let before = picked(n - 1, p);
        let ix = picked(n, p);
        assert forall|i: int| 0 <= i < n && #[trigger] p(i) implies ix.contains(i) by {
            if i < n - 1 {
                let k = choose|k: int| 0 <= k < before.len() && before[k] == i;
                assert(ix[k] == i);
            } else {
                assert(ix[before.len() as int] == i);
            }
        }
    }
}

/// Filtering keeps the elements at the positions that pass, in order.
pub proof fn lemma_filter_picks<A>(s: Seq<A>, p: spec_fn(A) -> bool)
    ensures
        s.filter(p) == picked(s.len() as int, |i: int| p(s[i])).map_values(|i: int| s[i]),
    decreases s.len(),
{
    reveal(Seq::filter);
    let n = s.len() as int;
    let q = |i: int| p(s[i]);
    if n > 0 {
        let t = s.drop_last();
        lemma_filter_picks(t, p);
        lemma_picked_congruent(n - 1, |i: int| p(t[i]), q);
        lemma_picked(n - 1, q);
        let before = picked(n - 1, q);
        assert(before.map_values(|i: int| t[i]) =~= before.map_values(|i: int| s[i]));
        assert(picked(n, q).map_values(|i: int| s[i]) =~= s.filter(p));
    } else {
        assert(picked(n, q).map_values(|i: int| s[i]) =~= s.filter(p));
    }
}

/// Tests that agree below `n` pick the same positions.
pub proof fn lemma_picked_congruent(n: int, p: spec_fn(int) -> bool, q: spec_fn(int) -> bool)
    requires
        forall|i: int| 0 <= i < n ==> #[trigger] p(i) == q(i),
    ensures
        picked(n, p) == picked(n, q),
    decreases n,
{
    if n > 0 {
        lemma_picked_congruent(n - 1, p, q);
        assert(p(n - 1) == q(n - 1));
    }
}

/// Membership in a list that grew by one element.
pub proof fn lemma_push_contains<A>(s: Seq<A>, x: A)
    ensures
        forall|y: A| #[trigger] s.push(x).contains(y) <==> s.contains(y) || y == x,
{
    assert forall|y: A| #[trigger] s.push(x).contains(y) <==> s.contains(y) || y == x by {
        if s.contains(y) {
            let i = choose|i: int| 0 <= i < s.len() && s[i] == y;
            assert(s.push(x)[i] == y);
        }
        if y == x {
            assert(s.push(x)[s.len() as int] == y);
        }
    }
}

/// Position of `k` in `names`, the first one.
pub fn position(names: &Vec<String>, k: &str) -> (r: Option<usize>)
    ensures
        match r {
            Some(i) => {
                &&& i < names.len()
                &&& names[i as int]@ == k@
                &&& forall|j: int| 0 <= j < i ==> (#[trigger] names[j])@ != k@
            },
            None => !names.deep_view().contains(k@),
        },
        r is Some <==> names.deep_view().contains(k@),
{
    let mut i: usize = 0;
    while i < names.len()
        invariant
            i <= names.len(),
            forall|j: int| 0 <= j < i ==> (#[trigger] names[j])@ != k@,
        decreases names.len() - i,
    {
        if same(names[i].as_str(), k) {
            assert(names.deep_view()[i as int] == k@);
            return Some(i);
        }
        i += 1;
    }
    assert forall|j: int| 0 <= j < names.len() implies names.deep_view()[j] != k@ by {
        assert(names[j]@ != k@);
    }
    None
}

/// Whether `k` is one of `names`.
pub fn contains(names: &Vec<String>, k: &str) -> (r: bool)
    ensures
        r == names.deep_view().contains(k@),
{
    position(names, k).is_some()
}

/// A copy of `names`.
pub fn copy(names: &Vec<String>) -> (r: Vec<String>)
    ensures
        r@ == names@,
        r.deep_view() == names.deep_view(),
{
    let r = names.clone();
    assert(r@ =~= names@);
    assert(r.deep_view() =~= names.deep_view());
    r
}

/// Whether two lists hold the same names in the same order.
pub fn equal(a: &Vec<String>, b: &Vec<String>) -> (r: bool)
    ensures
        r == (a.deep_view() == b.deep_view()),
{
    if a.len() != b.len() {
        assert(a.deep_view().len() != b.deep_view().len());
        return false;
    }
    let mut i: usize = 0;
    while i < a.len()
        invariant
            i <= a.len() == b.len(),
            forall|j: int| 0 <= j < i ==> (#[trigger] a[j])@ == b[j]@,
        decreases a.len() - i,
    {
        if a[i] != b[i] {
            assert(a.deep_view()[i as int] != b.deep_view()[i as int]);
            return false;
        }
        i += 1;
    }
    assert(a.deep_view() =~= b.deep_view());
    true
}

/// A copy of `names` without any occurrence of `k`.
pub fn without(names: &Vec<String>, k: &str) -> (r: Vec<String>)
    ensures
        r.deep_view() == without_key(names.deep_view(), k@),
{
    let mut out: Vec<String> = Vec::new();
    let mut i: usize = 0;
    let ghost p = |x: Seq<char>| x != k@;
    proof {
        lemma_filter_empty::<Seq<char>>(p);
        assert(names.deep_view().take(0) =~= Seq::<Seq<char>>::empty());
        assert(out.deep_view() =~= Seq::<Seq<char>>::empty());
    }
    while i < names.len()
        invariant
            i <= names.len(),
            p == (|x: Seq<char>| x != k@),
            out.deep_view() == names.deep_view().take(i as int).filter(p),
        decreases names.len() - i,
    {
        let ghost before = out.deep_view();
        proof {
            lemma_filter_push(names.deep_view().take(i as int), names[i as int]@, p);
            assert(names.deep_view().take(i as int).push(names[i as int]@)
                =~= names.deep_view().take(i + 1));
        }
        if !same(names[i].as_str(), k) {
            out.push(names[i].clone());
            assert(out.deep_view() =~= before.push(names[i as int]@));
        }
        i += 1;
    }
    assert(names.deep_view().take(i as int) =~= names.deep_view());
    out
}

/// A copy of `names` without the names in `drop`.
pub fn difference(names: &Vec<String>, drop: &Vec<String>) -> (r: Vec<String>)
    ensures
        r.deep_view() == minus(names.deep_view(), drop.deep_view()),
{
    let mut out: Vec<String> = Vec::new();
    let mut i: usize = 0;
    let ghost p = |x: Seq<char>| !drop.deep_view().contains(x);
    proof {
        lemma_filter_empty::<Seq<char>>(p);
        assert(names.deep_view().take(0) =~= Seq::<Seq<char>>::empty());
        assert(out.deep_view() =~= Seq::<Seq<char>>::empty());
    }
    while i < names.len()
        invariant
            i <= names.len(),
            p == (|x: Seq<char>| !drop.deep_view().contains(x)),
            out.deep_view() == names.deep_view().take(i as int).filter(p),
        decreases names.len() - i,
    {
        let ghost before = out.deep_view();
        proof {
            lemma_filter_push(names.deep_view().take(i as int), names[i as int]@, p);
            assert(names.deep_view().take(i as int).push(names[i as int]@)
                =~= names.deep_view().take(i + 1));
        }
        if !contains(drop, names[i].as_str()) {
            out.push(names[i].clone());
            assert(out.deep_view() =~= before.push(names[i as int]@));
        }
        i += 1;
    }
    assert(names.deep_view().take(i as int) =~= names.deep_view());
    out
}

/// Appends `k` to `names` unless it is already there.
pub fn add_missing(names: &mut Vec<String>, k: &str)
    ensures
        final(names).deep_view() == with_key(old(names).deep_view(), k@),
{
    if !contains(names, k) {
        names.push(k.to_owned());
        assert(names.deep_view() =~= old(names).deep_view().push(k@));
    }
}

/// Appends copies of all of `more` to `names`.
pub fn extend(names: &mut Vec<String>, more: &Vec<String>)
    ensures
        final(names).deep_view() == old(names).deep_view() + more.deep_view(),
        final(names)@ == old(names)@ + more@,
{
    let mut i: usize = 0;
    while i < more.len()
        invariant
            i <= more.len(),
            names@ == old(names)@ + more@.take(i as int),
        decreases more.len() - i,
    {
        names.push(more[i].clone());
        i += 1;
        assert(names@ =~= old(names)@ + more@.take(i as int));
    }
    assert(more@.take(i as int) =~= more@);
    assert(names.deep_view() =~= old(names).deep_view() + more.deep_view());
}

/// Inserts `k` into an ascending listing unless it is already there.
pub fn insert_sorted(names: &mut Vec<String>, k: &str)
    requires
        ascending(old(names).deep_view()),
    ensures
        ascending(final(names).deep_view()),
        forall|x: Seq<char>| #[trigger]
            final(names).deep_view().contains(x) <==> old(names).deep_view().contains(x) || x == k@,
        old(names).deep_view().contains(k@) ==> final(names)@ == old(names)@,
{
    let ghost old_view = names.deep_view();
    let mut i: usize = 0;
    while i < names.len() && less(names[i].as_str(), k)
        invariant
            names.deep_view() == old_view,
            i <= names.len(),
            forall|j: int| 0 <= j < i ==> lex_lt(#[trigger] names.deep_view()[j], k@),
        decreases names.len() - i,
    {
        i += 1;
    }
    if i < names.len() && same(names[i].as_str(), k) {
        assert(names.deep_view()[i as int] == k@);
        return;
    }
    proof {
        if i < names.len() {
            lemma_lex_total(k@, old_view[i as int]);
        }
        assert forall|j: int| i <= j < old_view.len() implies lex_lt(k@, #[trigger] old_view[j]) by {
            if j > i {
                lemma_lex_transitive(k@, old_view[i as int], old_view[j]);
            }
        }
        assert(!old_view.contains(k@)) by {
            if old_view.contains(k@) {
                let j = choose|j: int| 0 <= j < old_view.len() && old_view[j] == k@;
                lemma_lex_irreflexive(k@);
            }
        }
    }
    names.insert(i, k.to_owned());
    proof {
        let new_view = names.deep_view();
        assert(new_view =~= old_view.insert(i as int, k@));
        assert forall|x: Seq<char>| #[trigger] new_view.contains(x) <==> old_view.contains(x) || x
            == k@ by {
            if old_view.contains(x) {
                let j = choose|j: int| 0 <= j < old_view.len() && old_view[j] == x;
                if j < i {
                    assert(new_view[j] == x);
                } else {
                    assert(new_view[j + 1] == x);
                }
            }
            if x == k@ {
                assert(new_view[i as int] == x);
            }
            if new_view.contains(x) {
                let j = choose|j: int| 0 <= j < new_view.len() && new_view[j] == x;
                if j < i {
                    assert(old_view[j] == x);
                } else if j > i {
                    assert(old_view[j - 1] == x);
                }
            }
        }
    }
}

/// An ascending list is determined by its members.
pub proof fn lemma_ascending_unique(a: Seq<Seq<char>>, b: Seq<Seq<char>>)
    requires
        ascending(a),
        ascending(b),
        forall|k: Seq<char>| #[trigger] a.contains(k) <==> b.contains(k),
    ensures
        a == b,
    decreases a.len(),
{
    if a.len() == 0 {
        if b.len() > 0 {
            assert(b.contains(b[0]));
            assert(a.contains(b[0]));
        }
        assert(a =~= b);
    } else if b.len() == 0 {
        assert(a.contains(a[0]));
        assert(b.contains(a[0]));
    } else {
        let x = a.last();
        let y = b.last();
        if x != y {
            assert(a.contains(a[a.len() - 1]));
            assert(b.contains(x));
            assert(b.contains(b[b.len() - 1]));
            assert(a.contains(y));
            let i = choose|i: int| 0 <= i < b.len() && b[i] == x;
            let j = choose|j: int| 0 <= j < a.len() && a[j] == y;
            assert(lex_lt(b[i], b[b.len() - 1]));
            assert(lex_lt(a[j], a[a.len() - 1]));
            lemma_lex_transitive(x, y, x);
            lemma_lex_irreflexive(x);
        }
        let a1 = a.drop_last();
        let b1 = b.drop_last();
        assert forall|k: Seq<char>| #[trigger] a1.contains(k) <==> b1.contains(k) by {
            lemma_drop_last_contains(a, k);
            lemma_drop_last_contains(b, k);
        }
        lemma_ascending_unique(a1, b1);
        assert(a =~= a1.push(x));
        assert(b =~= b1.push(y));
    }
}

proof fn lemma_drop_last_contains(a: Seq<Seq<char>>, k: Seq<char>)
    requires
        ascending(a),
        a.len() > 0,
    ensures
        a.drop_last().contains(k) <==> a.contains(k) && k != a.last(),
{
    let t = a.drop_last();
    if t.contains(k) {
        let i = choose|i: int| 0 <= i < t.len() && t[i] == k;
        assert(a[i] == k);
        assert(lex_lt(a[i], a[a.len() - 1]));
        lemma_lex_irreflexive(k);
    }
    if a.contains(k) && k != a.last() {
        let i = choose|i: int| 0 <= i < a.len() && a[i] == k;
        assert(t[i] == k);
    }
}

/// Taking a name out drops every occurrence of it and keeps the rest, in order. Returns the
/// positions that are kept.
pub proof fn taking_a_name_out_keeps_the_rest(s: Seq<Seq<char>>, k: Seq<char>) -> (ix: Seq<int>)
    ensures
        picks(ix, s.len() as int, |i: int| s[i] != k),
        without_key(s, k).len() == ix.len(),
        forall|j: int| 0 <= j < ix.len() ==> #[trigger] without_key(s, k)[j] == s[ix[j]],
        forall|x: Seq<char>| #[trigger]
            without_key(s, k).contains(x) <==> s.contains(x) && x != k,
{
    let one = seq![k];
    let p = |x: Seq<char>| x != one[0];
    let q = |i: int| s[i] != k;
    assert(without_key(s, one[0]) == s.filter(p));
    lemma_filter_picks(s, p);
    lemma_filter_contains(s, p);
    lemma_picked(s.len() as int, q);
    lemma_picked_congruent(s.len() as int, |i: int| p(s[i]), q);
    picked(s.len() as int, q)
}

/// Taking names out drops every occurrence of them and keeps the rest, in order. Returns the
/// positions that are kept.
pub proof fn taking_names_out_keeps_the_rest(s: Seq<Seq<char>>, drop: Seq<Seq<char>>) -> (ix: Seq<
    int,
>)
    ensures
        picks(ix, s.len() as int, |i: int| !drop.contains(s[i])),
        minus(s, drop).len() == ix.len(),
        forall|j: int| 0 <= j < ix.len() ==> #[trigger] minus(s, drop)[j] == s[ix[j]],
        forall|x: Seq<char>| #[trigger]
            minus(s, drop).contains(x) <==> s.contains(x) && !drop.contains(x),
{
    let p = |x: Seq<char>| !drop.contains(x);
    let q = |i: int| !drop.contains(s[i]);
    lemma_filter_picks(s, p);
    lemma_filter_contains(s, p);
    lemma_picked(s.len() as int, q);
    lemma_picked_congruent(s.len() as int, |i: int| p(s[i]), q);
    picked(s.len() as int, q)
}

/// Adding a name puts it at the end, unless it is there already; then nothing changes.
pub proof fn adding_a_name_adds_it_once(s: Seq<Seq<char>>, k: Seq<char>)
    ensures
        s.contains(k) ==> with_key(s, k) == s,
        !s.contains(k) ==> with_key(s, k) == s.push(k),
        forall|x: Seq<char>| #[trigger] with_key(s, k).contains(x) <==> s.contains(x) || x == k,
{
    lemma_push_contains(s, k);
}

} // verus!
