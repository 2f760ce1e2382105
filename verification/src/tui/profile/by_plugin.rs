//! The by-plugin view: all installed plugins with their membership, the picker
//! that changes it, and the manager of scan roots.

use vstd::prelude::*;

use crate::list::{self, with_key, without_key};
use crate::profile::config::{Profile, ProfileV, Profiles, ProfilesV};
use crate::profile::discover::text_of;
use crate::text::{
    chars_of, lemma_lex_irreflexive, lemma_lex_transitive, less, lex_lt, owned, same, trim, trimmed,
};
use crate::tui::key::{down, is_down, is_up, next_in, prev_in, up, KeyCode, KeyEvent};
use crate::tui::profile::assign::with_member;
use crate::tui::profile::rules::input_of;
use crate::tui::textinput::{InputV, TextInput};

verus! {

/// Position of the last slash among the first `k` characters.
pub open spec fn last_slash(s: Seq<char>, k: int) -> Option<int>
    decreases k,
{
    if k <= 0 {
        None
    } else if s[k - 1] == '/' {
        Some(k - 1)
    } else {
        last_slash(s, k - 1)
    }
}

/// The first of `names`, in name order, that starts with `leaf`.
pub open spec fn first_starting(names: Seq<Seq<char>>, leaf: Seq<char>) -> Option<Seq<char>>
    decreases names.len(),
{
    if names.len() == 0 {
        None
    } else {
        let best = first_starting(names.drop_last(), leaf);
        let n = names.last();
        if !leaf.is_prefix_of(n) {
            best
        } else {
            match best {
                Some(b) => if lex_lt(n, b) {
                    Some(n)
                } else {
                    Some(b)
                },
                None => Some(n),
            }
        }
    }
}

/// The suffix that completes a typed path, given the subdirectories of its
/// parent: the rest of the first name that continues the last component, and a slash.
pub open spec fn completion(input: Seq<char>, names: Seq<Seq<char>>) -> Option<Seq<char>> {
    match last_slash(input, input.len() as int) {
        Some(i) => {
            let leaf = input.skip(i + 1);
            match first_starting(names, leaf) {
                Some(n) => Some(n.skip(leaf.len() as int).push('/')),
                None => None,
            }
        },
        None => None,
    }
}

/// A completion starts where the typed text ends, and leads into a listed directory.
pub proof fn completion_continues_a_name(input: Seq<char>, names: Seq<Seq<char>>)
    ensures
        completion(input, names) matches Some(suffix) ==> {
            &&& last_slash(input, input.len() as int) is Some
            &&& exists|i: int|
                {
                    let leaf = input.skip(last_slash(input, input.len() as int)->0 + 1);
                    &&& 0 <= i < names.len()
                    &&& leaf + suffix == (#[trigger] names[i]).push('/')
                }
        },
{
    if let Some(suffix) = completion(input, names) {
        let leaf = input.skip(last_slash(input, input.len() as int)->0 + 1);
        lemma_first_starting(names, leaf);
        let n = first_starting(names, leaf)->0;
        let i = choose|i: int| 0 <= i < names.len() && #[trigger] names[i] == n;
        assert(leaf + suffix =~= names[i].push('/'));
    }
}

proof fn lemma_first_starting(names: Seq<Seq<char>>, leaf: Seq<char>)
    ensures
        first_starting(names, leaf) matches Some(n) ==> leaf.is_prefix_of(n) && exists|i: int|
            0 <= i < names.len() && #[trigger] names[i] == n,
    decreases names.len(),
{
    if names.len() > 0 {
        let t = names.drop_last();
        lemma_first_starting(t, leaf);
        if let Some(n) = first_starting(names, leaf) {
            if first_starting(t, leaf) == Some(n) {
                let i = choose|i: int| 0 <= i < t.len() && #[trigger] t[i] == n;
                assert(names[i] == n);
            } else {
                assert(names[names.len() - 1] == n);
            }
        }
    }
}

fn find_slash(cs: &Vec<char>) -> (r: Option<usize>)
    ensures
        match r {
            Some(i) => i < cs.len() && last_slash(cs@, cs@.len() as int) == Some(i as int),
            None => last_slash(cs@, cs@.len() as int) is None,
        },
{
    let mut k: usize = cs.len();
    while k > 0
        invariant
            k <= cs.len(),
            last_slash(cs@, cs@.len() as int) == last_slash(cs@, k as int),
        decreases k,
    {
        if cs[k - 1] == '/' {
            return Some(k - 1);
        }
        k -= 1;
    }
    None
}

/// The directory whose subdirectories can complete `input`: everything up to and
/// with its last slash.
pub fn completion_dir(input: &str) -> (r: Option<String>)
    ensures
        text_of(r) == match last_slash(input@, input@.len() as int) {
            Some(i) => Some(input@.take(i + 1)),
            None => None,
        },
{
    let cs = chars_of(input);
    match find_slash(&cs) {
        Some(i) => Some(input.substring_char(0, i + 1).to_owned()),
        None => None,
    }
}

fn starts(n: &Vec<char>, leaf: &Vec<char>, from: usize) -> (r: bool)
    requires
        from <= leaf.len(),
    ensures
        r == leaf@.skip(from as int).is_prefix_of(n@),
{
    let m: usize = leaf.len() - from;
    let ghost l = leaf@.skip(from as int);
    if m > n.len() {
        return false;
    }
    let mut i: usize = 0;
    while i < m
        invariant
            from <= leaf.len(),
            m == leaf.len() - from,
            l == leaf@.skip(from as int),
            i <= m <= n.len(),
            forall|j: int| 0 <= j < i ==> l[j] == n@[j],
        decreases m - i,
    {
        if n[i] != leaf[from + i] {
            assert(n@.subrange(0, l.len() as int)[i as int] != l[i as int]);
            return false;
        }
        i += 1;
    }
    assert(l =~= n@.subrange(0, l.len() as int));
    true
}

/// The suffix that completes `input`, given the subdirectories of its parent.
pub fn dir_suggestion(input: &str, names: &Vec<String>) -> (r: Option<String>)
    ensures
        text_of(r) == completion(input@, names.deep_view()),
{
    let cs = chars_of(input);
    let i = match find_slash(&cs) {
        Some(i) => i,
        None => {
            return None;
        },
    };
    let ghost leaf = input@.skip(i + 1);
    let ghost all = names.deep_view();
    let mut best: Option<usize> = None;
    let mut k: usize = 0;
    while k < names.len()
        invariant
            k <= names.len(),
            i < cs.len(),
            cs@ == input@,
            leaf == input@.skip(i + 1),
            all == names.deep_view(),
            match best {
                Some(b) => b < names.len() && first_starting(all.take(k as int), leaf) == Some(
                    all[b as int],
                ),
                None => first_starting(all.take(k as int), leaf) is None,
            },
        decreases names.len() - k,
    {
        proof {
            let t = all.take(k + 1);
            assert(t.drop_last() =~= all.take(k as int));
            assert(t.last() == all[k as int]);
        }
        let n = chars_of(names[k].as_str());
        if starts(&n, &cs, i + 1) {
            best =
            match best {
                Some(b) => if less(names[k].as_str(), names[b].as_str()) {
                    Some(k)
                } else {
                    Some(b)
                },
                None => Some(k),
            };
        }
        k += 1;
    }
    assert(all.take(k as int) =~= all);
    match best {
        Some(b) => {
            proof {
                lemma_first_starting(all, leaf);
            }
            let n: usize = names[b].as_str().unicode_len();
            let skip: usize = cs.len() - (i + 1);
            let mut out = names[b].as_str().substring_char(skip, n).to_owned();
            out.push('/');
            assert(out@ =~= all[b as int].skip(leaf.len() as int).push('/'));
            Some(out)
        },
        None => None,
    }
}

/// The last entry of the picker's target list.
pub const NEW_PROFILE: &'static str = "+ New profile…";

/// The last row of the roots manager.
pub const ADD_ROOT: &'static str = "+ add root…";

/// A scan older than this, in seconds, may be stale: a week.
pub const SCAN_STALE_SECS: i64 = 604_800;

/// The profiles of `names` that carry `key`.
pub open spec fn carriers(w: ProfilesV, names: Seq<Seq<char>>, key: Seq<char>) -> Seq<Seq<char>> {
    names.filter(|n: Seq<char>| w.profiles[n].plugins.contains(key))
}

/// Where a plugin belongs: universal comes first, then on demand, then the profiles
/// that carry it.
pub open spec fn members(w: ProfilesV, key: Seq<char>) -> Seq<Seq<char>> {
    if w.universal.contains(key) {
        seq!["Universal"@]
    } else if w.on_demand.contains(key) {
        seq!["On-demand"@]
    } else {
        carriers(w, w.names(), key)
    }
}

/// Where plugin `key` belongs.
pub fn membership(working: &Profiles, key: &str) -> (r: Vec<String>)
    ensures
        r.deep_view() == members(working@, key@),
{
    let mut out: Vec<String> = Vec::new();
    if list::contains(&working.universal, key) {
        out.push(owned("Universal"));
        assert(out.deep_view() =~= seq!["Universal"@]);
        return out;
    }
    if list::contains(&working.on_demand, key) {
        out.push(owned("On-demand"));
        assert(out.deep_view() =~= seq!["On-demand"@]);
        return out;
    }
    let n: usize = working.count();
    let ghost names = working@.names();
    let ghost p = |m: Seq<char>| working@.profiles[m].plugins.contains(key@);
    proof {
        list::lemma_filter_empty::<Seq<char>>(p);
        assert(names.take(0) =~= Seq::<Seq<char>>::empty());
        assert(out.deep_view() =~= Seq::<Seq<char>>::empty());
    }
    let mut i: usize = 0;
    while i < n
        invariant
            i <= n,
            n == names.len(),
            names == working@.names(),
            names == working.profiles.names(),
            p == (|m: Seq<char>| working@.profiles[m].plugins.contains(key@)),
            out.deep_view() == names.take(i as int).filter(p),
        decreases n - i,
    {
        let ghost before = out.deep_view();
        let k = working.profiles.key_at(i);
        let v = working.profiles.value_at(i);
        proof {
            list::lemma_filter_push(names.take(i as int), names[i as int], p);
            assert(names.take(i as int).push(names[i as int]) =~= names.take(i + 1));
            assert(working@.profiles[names[i as int]] == v@);
        }
        if list::contains(&v.plugins, key) {
            out.push(k.clone());
            assert(out.deep_view() =~= before.push(names[i as int]));
        }
        i += 1;
    }
    assert(names.take(i as int) =~= names);
    out
}

/// The picker of a plugin's places.
#[derive(Debug)]
pub struct MembershipPick {
    pub key: String,
    pub targets: Vec<String>,
    /// One flag per target.
    pub checked: Vec<bool>,
    pub cursor: usize,
    /// The name being typed for a new profile.
    pub naming: Option<TextInput>,
}

/// The contents of a picker.
#[verifier::ext_equal]
pub struct MemberV {
    pub key: Seq<char>,
    pub targets: Seq<Seq<char>>,
    pub checked: Seq<bool>,
    pub cursor: int,
    pub naming: Option<InputV>,
}

impl View for MembershipPick {
    type V = MemberV;

    open spec fn view(&self) -> MemberV {
        MemberV {
            key: self.key@,
            targets: self.targets.deep_view(),
            checked: self.checked@,
            cursor: self.cursor as int,
            naming: input_of(self.naming),
        }
    }
}

/// The targets of the picker.
pub open spec fn pick_targets(w: ProfilesV) -> Seq<Seq<char>> {
    seq!["Universal"@] + w.names() + seq![NEW_PROFILE@]
}

/// Whether a target starts out checked.
pub open spec fn starts_in(w: ProfilesV, key: Seq<char>, target: Seq<char>) -> bool {
    if target == NEW_PROFILE@ {
        false
    } else if target == "Universal"@ {
        members(w, key) == seq!["Universal"@]
    } else {
        members(w, key).contains(target)
    }
}

/// The flags after target `cur` is toggled. Universal and the profiles exclude each
/// other: switching one on clears the other.
pub open spec fn toggled_flags(
    targets: Seq<Seq<char>>,
    checked: Seq<bool>,
    cur: int,
) -> Seq<bool> {
    let flipped = checked.update(cur, !checked[cur]);
    if checked[cur] {
        flipped
    } else if targets[cur] == "Universal"@ {
        Seq::new(
            flipped.len(),
            |i: int|
                if i != cur && targets[i] != NEW_PROFILE@ {
                    false
                } else {
                    flipped[i]
                },
        )
    } else {
        flipped.update(0, false)
    }
}

/// The configuration without `key` among the universal and profile plugins.
pub open spec fn unmanaged(w: ProfilesV, key: Seq<char>) -> ProfilesV {
    ProfilesV {
        universal: without_key(w.universal, key),
        profiles: w.profiles.map_values(
            |p: ProfileV| ProfileV { plugins: without_key(p.plugins, key), ..p },
        ),
        ..w
    }
}

/// The configuration after `key` is put on each checked target among the first `k`.
pub open spec fn put_on(
    w: ProfilesV,
    key: Seq<char>,
    targets: Seq<Seq<char>>,
    checked: Seq<bool>,
    k: int,
) -> ProfilesV
    decreases k,
{
    if k <= 0 {
        w
    } else {
        let before = put_on(w, key, targets, checked, k - 1);
        let t = targets[k - 1];
        if !checked[k - 1] || t == NEW_PROFILE@ {
            before
        } else if t == "Universal"@ {
            ProfilesV { universal: with_key(before.universal, key), ..before }
        } else if before.profiles.contains_key(t) {
            with_member(before, t, key)
        } else {
            before
        }
    }
}

/// Whether some real target is checked.
pub open spec fn any_checked(targets: Seq<Seq<char>>, checked: Seq<bool>) -> bool {
    exists|i: int| 0 <= i < targets.len() && checked[i] && #[trigger] targets[i] != NEW_PROFILE@
}

impl MemberV {
    /// The picker as it opens.
    pub open spec fn opened(w: ProfilesV, key: Seq<char>) -> MemberV {
        MemberV {
            key,
            targets: pick_targets(w),
            checked: pick_targets(w).map_values(|t: Seq<char>| starts_in(w, key, t)),
            cursor: 0,
            naming: None,
        }
    }

    /// One flag per target, and the cursor on a target.
    pub open spec fn ok(self) -> bool {
        self.checked.len() == self.targets.len() && 0 <= self.cursor < self.targets.len()
    }

    /// The configuration after the picker's choice: the plugin is exactly on the
    /// checked targets, and no longer on demand if there is one.
    pub open spec fn committed(self, w: ProfilesV) -> ProfilesV {
        let done = put_on(
            unmanaged(w, self.key),
            self.key,
            self.targets,
            self.checked,
            self.targets.len() as int,
        );
        if any_checked(self.targets, self.checked) {
            ProfilesV { on_demand: without_key(done.on_demand, self.key), ..done }
        } else {
            done
        }
    }

    /// Where a new profile is inserted: before the entry that creates one.
    pub open spec fn sentinel(self) -> int {
        first_at(self.targets, NEW_PROFILE@, 0)
    }

    /// The picker and the configuration after a key while a name is being typed.
    pub open spec fn after_naming(self, input: InputV, code: KeyCode, w: ProfilesV) -> (
        MemberV,
        ProfilesV,
    ) {
        if code == KeyCode::Enter {
            let name = trimmed(input.chars);
            if name.len() > 0 && !w.profiles.contains_key(name) {
                let at = self.sentinel();
                (
                    MemberV {
                        targets: self.targets.insert(at, name),
                        checked: self.checked.insert(at, true),
                        cursor: at,
                        naming: None,
                        ..self
                    },
                    w.with_profile(name, ProfileV::empty()),
                )
            } else {
                (MemberV { naming: None, ..self }, w)
            }
        } else if code == KeyCode::Esc {
            (MemberV { naming: None, ..self }, w)
        } else {
            (MemberV { naming: Some(input.after(code)), ..self }, w)
        }
    }

    /// The picker, closed or not, and the configuration after a key on the targets.
    pub open spec fn after_targets(self, code: KeyCode, w: ProfilesV) -> (
        Option<MemberV>,
        ProfilesV,
    ) {
        let n = self.targets.len() as int;
        let naming = MemberV { naming: Some(InputV::of(Seq::empty())), ..self };
        let on_new = self.targets[self.cursor] == NEW_PROFILE@;
        if is_up(code) {
            (Some(MemberV { cursor: prev_in(self.cursor, n), ..self }), w)
        } else if is_down(code) {
            (Some(MemberV { cursor: next_in(self.cursor, n), ..self }), w)
        } else if code == KeyCode::Char(' ') {
            if on_new {
                (Some(naming), w)
            } else {
                (
                    Some(
                        MemberV {
                            checked: toggled_flags(self.targets, self.checked, self.cursor),
                            ..self
                        },
                    ),
                    w,
                )
            }
        } else if code == KeyCode::Enter {
            if on_new {
                (Some(naming), w)
            } else {
                (None, self.committed(w))
            }
        } else if code == KeyCode::Esc {
            (None, w)
        } else {
            (Some(self), w)
        }
    }

    /// The picker, closed or not, and the configuration after a key.
    pub open spec fn after(self, code: KeyCode, w: ProfilesV) -> (Option<MemberV>, ProfilesV) {
        match self.naming {
            Some(input) => {
                let (v, w2) = self.after_naming(input, code, w);
                (Some(v), w2)
            },
            None => self.after_targets(code, w),
        }
    }
}

/// Position of the first `name` from `i` on, or the length.
pub open spec fn first_at(names: Seq<Seq<char>>, name: Seq<char>, i: int) -> int
    decreases names.len() - i,
{
    if i < 0 || i >= names.len() {
        names.len() as int
    } else if names[i] == name {
        i
    } else {
        first_at(names, name, i + 1)
    }
}

proof fn lemma_first_at(names: Seq<Seq<char>>, name: Seq<char>, i: int)
    requires
        0 <= i <= names.len(),
    ensures
        i <= first_at(names, name, i) <= names.len(),
    decreases names.len() - i,
{
    if i < names.len() && names[i] != name {
        lemma_first_at(names, name, i + 1);
    }
}

/// Position of the first `name`, or the length.
pub fn first_of(names: &Vec<String>, name: &str) -> (r: usize)
    ensures
        r == first_at(names.deep_view(), name@, 0),
        r <= names.len(),
{
    let ghost all = names.deep_view();
    let mut i: usize = 0;
    while i < names.len() && !same(names[i].as_str(), name)
        invariant
            i <= names.len(),
            all == names.deep_view(),
            first_at(all, name@, 0) == first_at(all, name@, i as int),
        decreases names.len() - i,
    {
        assert(all[i as int] == names[i as int]@);
        i += 1;
    }
    if i < names.len() {
        assert(all[i as int] == names[i as int]@);
    }
    i
}

/// No key takes the picker out of shape.
pub proof fn keys_keep_picker_ok(v: MemberV, code: KeyCode, w: ProfilesV)
    requires
        v.ok(),
    ensures
        v.after(code, w).0 matches Some(x) ==> x.ok(),
{
    crate::tui::key::moves_stay_in_range(v.cursor, v.targets.len() as int);
    lemma_first_at(v.targets, NEW_PROFILE@, 0);
}

proof fn lemma_put_on(
    w: ProfilesV,
    key: Seq<char>,
    targets: Seq<Seq<char>>,
    checked: Seq<bool>,
    k: int,
)
    ensures
        put_on(w, key, targets, checked, k).on_demand == w.on_demand,
        put_on(w, key, targets, checked, k).scan_roots == w.scan_roots,
        put_on(w, key, targets, checked, k).profiles.dom() == w.profiles.dom(),
        forall|n: Seq<char>| #[trigger]
            w.profiles.contains_key(n) ==> put_on(w, key, targets, checked, k).profiles[n].detect
                == w.profiles[n].detect,
    decreases k,
{
    if k > 0 {
        lemma_put_on(w, key, targets, checked, k - 1);
        let before = put_on(w, key, targets, checked, k - 1);
        let t = targets[k - 1];
        if checked[k - 1] && t != NEW_PROFILE@ && t != "Universal"@
            && before.profiles.contains_key(t) {
            assert(with_member(before, t, key).profiles.dom() =~= before.profiles.dom());
        }
    }
}

/// Committing a choice keeps on-demand apart from the managed plugins, creates or
/// removes no profile, and leaves every detection rule alone.
pub proof fn commit_keeps_buckets_apart(v: MemberV, w: ProfilesV)
    ensures
        any_checked(v.targets, v.checked) ==> !v.committed(w).on_demand.contains(v.key),
        !any_checked(v.targets, v.checked) ==> v.committed(w).on_demand == w.on_demand,
        v.committed(w).profiles.dom() == w.profiles.dom(),
        forall|n: Seq<char>| #[trigger]
            w.profiles.contains_key(n) ==> v.committed(w).profiles[n].detect
                == w.profiles[n].detect,
{
    let base = unmanaged(w, v.key);
    let n = v.targets.len() as int;
    lemma_put_on(base, v.key, v.targets, v.checked, n);
    assert(base.profiles.dom() =~= w.profiles.dom());
    list::lemma_filter_contains(w.on_demand, |x: Seq<char>| x != v.key);
    assert forall|m: Seq<char>| #[trigger] w.profiles.contains_key(m) implies v.committed(
        w,
    ).profiles[m].detect == w.profiles[m].detect by {
        assert(base.profiles.contains_key(m));
        assert(base.profiles[m].detect == w.profiles[m].detect);
    }
}

/// Takes `key` out of the universal list and of every profile.
pub fn unmanage(working: &mut Profiles, key: &str)
    ensures
        final(working)@ == unmanaged(old(working)@, key@),
        final(working).scan_roots == old(working).scan_roots,
        final(working).on_demand == old(working).on_demand,
{
    let ghost w = working@;
    working.universal = list::without(&working.universal, key);
    let names = working.names();
    let ghost all = names.deep_view();
    let ghost start = working@;
    let n: usize = working.count();
    let ghost f = |p: ProfileV| ProfileV { plugins: without_key(p.plugins, key@), ..p };
    let mut i: usize = 0;
    while i < names.len()
        invariant
            i <= names.len(),
            all == names.deep_view(),
            f == (|p: ProfileV| ProfileV { plugins: without_key(p.plugins, key@), ..p }),
            list::lists(all, start.profiles.dom()),
            working@.universal == start.universal,
            working@.on_demand == start.on_demand,
            working@.scan_roots == start.scan_roots,
            working.scan_roots == old(working).scan_roots,
            working.on_demand == old(working).on_demand,
            working@.profiles.dom() == start.profiles.dom(),
            forall|j: int|
                0 <= j < i ==> working@.profiles[#[trigger] all[j]] == f(start.profiles[all[j]]),
            forall|j: int|
                i <= j < all.len() ==> working@.profiles[#[trigger] all[j]]
                    == start.profiles[all[j]],
        decreases names.len() - i,
    {
        let name = names[i].as_str();
        assert(name@ == all[i as int]);
        assert(all.contains(name@));
        let ghost before = working@;
        let cleaned = match working.profiles.get(name) {
            Some(p) => Some(
                Profile { plugins: list::without(&p.plugins, key), detect: p.detect.clone() },
            ),
            None => None,
        };
        assert(working@.profiles.contains_key(name@));
        match cleaned {
            Some(q) => {
                working.put(name, q);
                assert(working@.profiles.dom() =~= start.profiles.dom());
                assert(q@ =~= f(before.profiles[name@]));
            },
            None => {},
        }
        proof {
            assert forall|j: int| 0 <= j < all.len() && j != i implies #[trigger] all[j]
                != name@ by {
                if all[j] == name@ {
                    lemma_lex_irreflexive(name@);
                    assert(lex_lt(all[j], all[i as int]) || lex_lt(all[i as int], all[j]));
                }
            }
        }
        i += 1;
    }
    proof {
        assert forall|k: Seq<char>| start.profiles.contains_key(k) implies #[trigger]
            working@.profiles[k] == f(start.profiles[k]) by {
            assert(all.contains(k));
            let j = choose|j: int| 0 <= j < all.len() && all[j] == k;
            assert(working@.profiles[all[j]] == f(start.profiles[all[j]]));
        }
        assert(working@.profiles =~= unmanaged(w, key@).profiles);
        assert(working@ =~= unmanaged(w, key@));
    }
}

impl MembershipPick {
    /// Opens the picker for plugin `key`.
    pub fn open(working: &Profiles, key: &str) -> (r: MembershipPick)
        ensures
            r@ == MemberV::opened(working@, key@),
            r@.ok(),
    {
        let mut targets: Vec<String> = Vec::new();
        targets.push(owned("Universal"));
        let names = working.names();
        list::extend(&mut targets, &names);
        targets.push(owned(NEW_PROFILE));
        let ghost tv = pick_targets(working@);
        assert(targets.deep_view() =~= tv);
        let mem = membership(working, key);
        let mut only: Vec<String> = Vec::new();
        only.push(owned("Universal"));
        assert(only.deep_view() =~= seq!["Universal"@]);
        let is_universal = list::equal(&mem, &only);
        let mut checked: Vec<bool> = Vec::new();
        let mut i: usize = 0;
        while i < targets.len()
            invariant
                i <= targets.len(),
                tv == targets.deep_view(),
                mem.deep_view() == members(working@, key@),
                is_universal == (members(working@, key@) == seq!["Universal"@]),
                checked@.len() == i,
                forall|j: int|
                    0 <= j < i ==> #[trigger] checked@[j] == starts_in(working@, key@, tv[j]),
            decreases targets.len() - i,
        {
            let t = targets[i].as_str();
            assert(tv[i as int] == t@);
            let c = if same(t, NEW_PROFILE) {
                false
            } else if same(t, "Universal") {
                is_universal
            } else {
                list::contains(&mem, t)
            };
            checked.push(c);
            i += 1;
        }
        let r = MembershipPick {
            key: key.to_owned(),
            targets,
            checked,
            cursor: 0,
            naming: None,
        };
        assert(r@.checked =~= tv.map_values(|t: Seq<char>| starts_in(working@, key@, t)));
        r
    }

    fn sentinel_at(&self) -> (r: usize)
        ensures
            r == self@.sentinel(),
            r <= self.targets.len(),
    {
        first_of(&self.targets, NEW_PROFILE)
    }

    fn toggle(&mut self)
        requires
            old(self)@.ok(),
        ensures
            final(self)@ == (MemberV {
                checked: toggled_flags(
                    old(self)@.targets,
                    old(self)@.checked,
                    old(self)@.cursor,
                ),
                ..old(self)@
            }),
    {
        let ghost v = self@;
        let cur: usize = self.cursor;
        let was = self.checked[cur];
        self.checked[cur] = !was;
        let ghost flipped = self.checked@;
        if !was {
            assert(v.targets[cur as int] == self.targets[cur as int]@);
            if same(self.targets[cur].as_str(), "Universal") {
                let mut i: usize = 0;
                while i < self.targets.len()
                    invariant
                        i <= self.targets.len(),
                        self.targets.deep_view() == v.targets,
                        self.key@ == v.key,
                        self.cursor == v.cursor,
                        cur == v.cursor,
                        input_of(self.naming) == v.naming,
                        self.checked@.len() == self.targets.len(),
                        flipped.len() == self.targets.len(),
                        forall|j: int|
                            0 <= j < i ==> #[trigger] self.checked@[j] == if j != cur && v.targets[j]
                                != NEW_PROFILE@ {
                                false
                            } else {
                                flipped[j]
                            },
                        forall|j: int|
                            i <= j < flipped.len() ==> #[trigger] self.checked@[j] == flipped[j],
                    decreases self.targets.len() - i,
                {
                    assert(v.targets[i as int] == self.targets[i as int]@);
                    if i != cur && !same(self.targets[i].as_str(), NEW_PROFILE) {
                        self.checked[i] = false;
                    }
                    i += 1;
                }
            } else {
                self.checked[0] = false;
            }
        }
        assert(self@.checked =~= toggled_flags(v.targets, v.checked, v.cursor));
    }

    fn commit(&self, working: &mut Profiles)
        requires
            self@.ok(),
        ensures
            final(working)@ == self@.committed(old(working)@),
    {
        let ghost w = working@;
        let ghost v = self@;
        unmanage(working, self.key.as_str());
        let ghost base = working@;
        let mut any = false;
        let mut i: usize = 0;
        while i < self.targets.len()
            invariant
                i <= self.targets.len(),
                v == self@,
                v.ok(),
                working@ == put_on(base, v.key, v.targets, v.checked, i as int),
                any == exists|j: int|
                    0 <= j < i && v.checked[j] && #[trigger] v.targets[j] != NEW_PROFILE@,
            decreases self.targets.len() - i,
        {
            let t = self.targets[i].as_str();
            assert(v.targets[i as int] == t@);
            if self.checked[i] && !same(t, NEW_PROFILE) {
                any = true;
                if same(t, "Universal") {
                    let ghost before = working@;
                    list::add_missing(&mut working.universal, self.key.as_str());
                    assert(working@ =~= ProfilesV {
                        universal: with_key(before.universal, v.key),
                        ..before
                    });
                } else if working.profiles.contains_key(t) {
                    crate::tui::profile::assign::join_profile(working, t, self.key.as_str());
                }
            }
            i += 1;
        }
        if any {
            let ghost before = working@;
            working.on_demand = list::without(&working.on_demand, self.key.as_str());
            assert(working@ =~= ProfilesV {
                on_demand: without_key(before.on_demand, v.key),
                ..before
            });
        }
        assert(working@ =~= v.committed(w));
    }

    /// Acts on a key; returns the picker if it stays open. Committing a choice or
    /// naming a profile changes `working`.
    pub fn handle_key(self, key: KeyEvent, working: &mut Profiles) -> (r: Option<MembershipPick>)
        requires
            self@.ok(),
        ensures
            ({
                let (v, w) = self@.after(key.code, old(working)@);
                &&& final(working)@ == w
                &&& match r {
                    Some(p) => v == Some(p@) && p@.ok(),
                    None => v is None,
                }
            }),
    {
        proof {
            keys_keep_picker_ok(self@, key.code, working@);
            reveal_strlit("");
            assert(""@ =~= Seq::<char>::empty());
        }
        let ghost v = self@;
        let mut p = self;
        match p.naming.take() {
            Some(t) => {
                let mut input = t;
                match key.code {
                    KeyCode::Enter => {
                        let name = trim(input.value().as_str());
                        if !name.as_str().is_empty() && !working.profiles.contains_key(
                            name.as_str(),
                        ) {
                            working.put(name.as_str(), Profile::default());
                            let at: usize = p.sentinel_at();
                            let ghost nv = name@;
                            p.targets.insert(at, name);
                            p.checked.insert(at, true);
                            p.cursor = at;
                            assert(p@.targets =~= v.targets.insert(at as int, nv));
                        }
                    },
                    KeyCode::Esc => {},
                    _ => {
                        input.handle_key(key);
                        p.naming = Some(input);
                    },
                }
                assert(p@ =~= v.after(key.code, old(working)@).0->0);
                Some(p)
            },
            None => {
                assert(p@ =~= v);
                let n: usize = p.targets.len();
                assert(n == v.targets.len());
                assert(v.targets[v.cursor] == p.targets[p.cursor as int]@);
                match key.code {
                    KeyCode::Up | KeyCode::Char('k') => {
                        p.cursor = up(p.cursor, n);
                        Some(p)
                    },
                    KeyCode::Down | KeyCode::Char('j') => {
                        p.cursor = down(p.cursor, n);
                        Some(p)
                    },
                    KeyCode::Char(' ') => {
                        if same(p.targets[p.cursor].as_str(), NEW_PROFILE) {
                            p.naming = Some(TextInput::new(""));
                        } else {
                            p.toggle();
                        }
                        Some(p)
                    },
                    KeyCode::Enter => {
                        if same(p.targets[p.cursor].as_str(), NEW_PROFILE) {
                            p.naming = Some(TextInput::new(""));
                            Some(p)
                        } else {
                            p.commit(working);
                            None
                        }
                    },
                    KeyCode::Esc => None,
                    _ => Some(p),
                }
            },
        }
    }
}

/// A plugin belongs where the configuration names it: universal before all else, then on
/// demand, else in every profile that carries it, by name.
pub proof fn a_plugin_belongs_where_it_is_named(w: ProfilesV, key: Seq<char>)
    requires
        list::lists(w.names(), w.profiles.dom()),
    ensures
        w.universal.contains(key) ==> members(w, key) == seq!["Universal"@],
        !w.universal.contains(key) && w.on_demand.contains(key) ==> members(w, key) == seq![
            "On-demand"@,
        ],
        !w.universal.contains(key) && !w.on_demand.contains(key) ==> {
            &&& list::ascending(members(w, key))
            &&& forall|n: Seq<char>| #[trigger]
                members(w, key).contains(n) <==> w.profiles.contains_key(n)
                    && w.profiles[n].plugins.contains(key)
        },
{
    let names = w.names();
    let p = |n: Seq<char>| w.profiles[n].plugins.contains(key);
    list::lemma_filter_contains(names, p);
    if !w.universal.contains(key) && !w.on_demand.contains(key) {
        let q = |i: int| p(names[i]);
        list::lemma_filter_picks(names, p);
        list::lemma_picked(names.len() as int, q);
        let ix = list::picked(names.len() as int, q);
        let ms = members(w, key);
        assert forall|i: int, j: int| 0 <= i < j < ms.len() implies lex_lt(
            #[trigger] ms[i],
            #[trigger] ms[j],
        ) by {
            assert(ms[i] == names[ix[i]] && ms[j] == names[ix[j]]);
        }
        assert forall|n: Seq<char>| #[trigger] ms.contains(n) <==> w.profiles.contains_key(n)
            && w.profiles[n].plugins.contains(key) by {
            assert(ms.contains(n) <==> names.contains(n) && p(n));
        }
    }
}

/// The picker opens with Universal, every profile by name, and the entry for a new one, and
/// with a check just where the plugin is.
pub proof fn the_picker_shows_where_the_plugin_is(w: ProfilesV, key: Seq<char>, i: int)
    requires
        list::lists(w.names(), w.profiles.dom()),
        !w.profiles.contains_key("Universal"@),
        !w.profiles.contains_key("On-demand"@),
        !w.profiles.contains_key(NEW_PROFILE@),
        0 <= i < w.names().len(),
    ensures
        ({
            let v = MemberV::opened(w, key);
            let n = w.names()[i];
            &&& v.key == key
            &&& v.targets.len() == w.names().len() + 2
            &&& v.targets[0] == "Universal"@
            &&& v.targets[i + 1] == n
            &&& v.targets.last() == NEW_PROFILE@
            &&& v.checked[0] == w.universal.contains(key)
            &&& v.checked[i + 1] == (!w.universal.contains(key) && !w.on_demand.contains(key)
                && w.profiles[n].plugins.contains(key))
            &&& !v.checked.last()
        }),
{
    reveal_strlit("Universal");
    reveal_strlit("On-demand");
    reveal_strlit("+ New profile…");
    a_plugin_belongs_where_it_is_named(w, key);
    let names = w.names();
    let n = names[i];
    let u = "Universal"@;
    let o = "On-demand"@;
    assert(names.contains(n));
    assert(w.profiles.contains_key(n));
    assert(u[0] == 'U' && o[0] == 'O');
    assert(NEW_PROFILE@[0] == '+');
    let ms = members(w, key);
    let v = MemberV::opened(w, key);
    assert(v.targets[i + 1] == n);
    assert(seq![u][0] == u);
    assert(seq![o][0] == o);
    if ms == seq![u] && !w.universal.contains(key) {
        assert(ms[0] == u);
        assert(ms.contains(u));
    }
    if w.universal.contains(key) || w.on_demand.contains(key) {
        assert(!ms.contains(n)) by {
            if ms.contains(n) {
                let k = choose|k: int| 0 <= k < ms.len() && ms[k] == n;
            }
        }
    }
}

/// Space turns the target under the cursor over. Universal and the profiles exclude each
/// other: checking Universal clears every profile, checking a profile clears Universal and
/// keeps the other profiles; clearing a check clears nothing else. The configuration waits
/// for Enter.
pub proof fn universal_and_profiles_exclude_each_other(v: MemberV, w: ProfilesV, i: int)
    requires
        v.ok(),
        v.naming is None,
        v.targets[0] == "Universal"@,
        forall|k: int| 0 < k < v.targets.len() ==> #[trigger] v.targets[k] != "Universal"@,
        v.targets[v.cursor] != NEW_PROFILE@,
        0 <= i < v.targets.len(),
    ensures
        ({
            let (o, x) = v.after(KeyCode::Char(' '), w);
            &&& x == w
            &&& o matches Some(u) && {
                &&& u.targets == v.targets
                &&& u.cursor == v.cursor
                &&& u.checked[v.cursor] == !v.checked[v.cursor]
                &&& i != v.cursor && v.checked[v.cursor] ==> u.checked[i] == v.checked[i]
                &&& i != v.cursor && !v.checked[v.cursor] && v.cursor == 0 && v.targets[i]
                    != NEW_PROFILE@ ==> !u.checked[i]
                &&& !v.checked[v.cursor] && v.cursor > 0 ==> !u.checked[0]
                &&& i != v.cursor && i > 0 && !v.checked[v.cursor] && v.cursor > 0
                    ==> u.checked[i] == v.checked[i]
            }
        }),
{
}

/// After a choice is committed the plugin is just where a check was: universal if Universal
/// was checked, in each profile that was checked and in no other, and no longer on demand if
/// anything was checked. No other plugin, no rule and no scan root is touched.
pub proof fn the_plugin_is_just_where_it_was_put(v: MemberV, w: ProfilesV)
    requires
        v.ok(),
    ensures
        ({
            let x = v.committed(w);
            let n = v.targets.len() as int;
            &&& x.universal.contains(v.key) <==> exists|i: int|
                0 <= i < n && v.checked[i] && #[trigger] v.targets[i] == "Universal"@
            &&& forall|m: Seq<char>| #[trigger]
                w.profiles.contains_key(m) && m != "Universal"@ && m != NEW_PROFILE@ ==> (
                x.profiles[m].plugins.contains(v.key) <==> exists|i: int|
                    0 <= i < n && v.checked[i] && #[trigger] v.targets[i] == m)
            &&& x.on_demand.contains(v.key) <==> w.on_demand.contains(v.key) && forall|i: int|
                0 <= i < n && v.checked[i] ==> #[trigger] v.targets[i] == NEW_PROFILE@
            &&& forall|k: Seq<char>|
                k != v.key ==> (#[trigger] x.universal.contains(k) <==> w.universal.contains(k))
            &&& forall|k: Seq<char>|
                k != v.key ==> (#[trigger] x.on_demand.contains(k) <==> w.on_demand.contains(k))
            &&& forall|m: Seq<char>, k: Seq<char>|
                k != v.key && w.profiles.contains_key(m) ==> (
                #[trigger] x.profiles[m].plugins.contains(k) <==> w.profiles[m].plugins.contains(
                    k,
                ))
            &&& forall|m: Seq<char>| #[trigger]
                x.profiles.contains_key(m) <==> w.profiles.contains_key(m)
            &&& forall|m: Seq<char>| #[trigger]
                w.profiles.contains_key(m) ==> x.profiles[m].detect == w.profiles[m].detect
            &&& x.scan_roots == w.scan_roots
        }),
{
    reveal_strlit("Universal");
    reveal_strlit("+ New profile…");
    assert("Universal"@[0] == 'U' && NEW_PROFILE@[0] == '+');
    let base = unmanaged(w, v.key);
    let n = v.targets.len() as int;
    let x = v.committed(w);
    commit_keeps_buckets_apart(v, w);
    lemma_put_on(base, v.key, v.targets, v.checked, n);
    lemma_put_on_members(base, v.key, v.targets, v.checked, n);
    list::taking_a_name_out_keeps_the_rest(w.universal, v.key);
    list::taking_a_name_out_keeps_the_rest(w.on_demand, v.key);
    assert(base.profiles.dom() =~= w.profiles.dom());
    assert forall|m: Seq<char>| #[trigger] x.profiles.contains_key(m) <==> w.profiles.contains_key(
        m,
    ) by {
        assert(x.profiles.dom().contains(m) <==> w.profiles.dom().contains(m));
    }
    assert forall|m: Seq<char>| #[trigger] w.profiles.contains_key(m) && m != "Universal"@ && m
        != NEW_PROFILE@ implies (x.profiles[m].plugins.contains(v.key) <==> exists|i: int|
        0 <= i < n && v.checked[i] && #[trigger] v.targets[i] == m) by {
        assert(base.profiles.contains_key(m));
        list::taking_a_name_out_keeps_the_rest(w.profiles[m].plugins, v.key);
    }
    assert forall|m: Seq<char>, k: Seq<char>| k != v.key && w.profiles.contains_key(m) implies (
    #[trigger] x.profiles[m].plugins.contains(k) <==> w.profiles[m].plugins.contains(k)) by {
        assert(base.profiles.contains_key(m));
        list::taking_a_name_out_keeps_the_rest(w.profiles[m].plugins, v.key);
    }
}

proof fn lemma_put_on_members(
    w: ProfilesV,
    key: Seq<char>,
    targets: Seq<Seq<char>>,
    checked: Seq<bool>,
    k: int,
)
    requires
        0 <= k <= targets.len(),
        "Universal"@ != NEW_PROFILE@,
    ensures
        ({
            let x = put_on(w, key, targets, checked, k);
            &&& x.universal.contains(key) <==> w.universal.contains(key) || exists|i: int|
                0 <= i < k && checked[i] && #[trigger] targets[i] == "Universal"@
            &&& forall|m: Seq<char>| #[trigger]
                w.profiles.contains_key(m) && m != "Universal"@ && m != NEW_PROFILE@ ==> (
                x.profiles[m].plugins.contains(key) <==> w.profiles[m].plugins.contains(key)
                    || exists|i: int| 0 <= i < k && checked[i] && #[trigger] targets[i] == m)
            &&& forall|y: Seq<char>|
                y != key ==> (#[trigger] x.universal.contains(y) <==> w.universal.contains(y))
            &&& forall|m: Seq<char>, y: Seq<char>|
                y != key && w.profiles.contains_key(m) ==> (
                #[trigger] x.profiles[m].plugins.contains(y) <==> w.profiles[m].plugins.contains(
                    y,
                ))
        }),
    decreases k,
{
    if k > 0 {
        lemma_put_on(w, key, targets, checked, k - 1);
        lemma_put_on_members(w, key, targets, checked, k - 1);
        let before = put_on(w, key, targets, checked, k - 1);
        let x = put_on(w, key, targets, checked, k);
        let t = targets[k - 1];
        list::adding_a_name_adds_it_once(before.universal, key);
        if before.profiles.contains_key(t) {
            list::adding_a_name_adds_it_once(before.profiles[t].plugins, key);
        }
        assert(x.universal.contains(key) <==> w.universal.contains(key) || exists|i: int|
            0 <= i < k && checked[i] && #[trigger] targets[i] == "Universal"@) by {
            if exists|i: int| 0 <= i < k && checked[i] && #[trigger] targets[i] == "Universal"@ {
                let i = choose|i: int|
                    0 <= i < k && checked[i] && #[trigger] targets[i] == "Universal"@;
                if i < k - 1 {
                    assert(before.universal.contains(key));
                }
            }
        }
        assert forall|m: Seq<char>| #[trigger] w.profiles.contains_key(m) && m != "Universal"@ && m
            != NEW_PROFILE@ implies (x.profiles[m].plugins.contains(key)
            <==> w.profiles[m].plugins.contains(key) || exists|i: int|
            0 <= i < k && checked[i] && #[trigger] targets[i] == m) by {
            assert(before.profiles.contains_key(m)) by {
                assert(before.profiles.dom().contains(m));
            }
            if exists|i: int| 0 <= i < k && checked[i] && #[trigger] targets[i] == m {
                let i = choose|i: int| 0 <= i < k && checked[i] && #[trigger] targets[i] == m;
                if i < k - 1 {
                    assert(before.profiles[m].plugins.contains(key));
                }
            }
        }
        assert forall|m: Seq<char>, y: Seq<char>| y != key && w.profiles.contains_key(m) implies (
        #[trigger] x.profiles[m].plugins.contains(y) <==> w.profiles[m].plugins.contains(y)) by {
            assert(before.profiles[m].plugins.contains(y) <==> w.profiles[m].plugins.contains(y));
        }
    }
}

/// The picker changes the configuration only on Enter: by its choice, or by the new profile
/// whose name was typed. Esc changes nothing.
pub proof fn the_picker_waits_for_enter(v: MemberV, code: KeyCode, w: ProfilesV)
    requires
        v.ok(),
    ensures
        code != KeyCode::Enter ==> v.after(code, w).1 == w,
        v.naming is None && code == KeyCode::Esc ==> v.after(code, w).0 is None,
        v.naming is None && code == KeyCode::Enter && v.targets[v.cursor] != NEW_PROFILE@
            ==> v.after(code, w) == (None::<MemberV>, v.committed(w)),
{
}

/// A new name becomes an empty profile, listed before the entry that creates one, checked
/// and under the cursor; the other targets and their checks stay, in order.
pub proof fn a_new_name_is_checked(v: MemberV, input: InputV, w: ProfilesV)
    requires
        v.ok(),
        v.naming == Some(input),
        trimmed(input.chars).len() > 0,
        !w.profiles.contains_key(trimmed(input.chars)),
        v.targets.last() == NEW_PROFILE@,
        forall|i: int| 0 <= i < v.targets.len() - 1 ==> #[trigger] v.targets[i] != NEW_PROFILE@,
    ensures
        ({
            let name = trimmed(input.chars);
            let (o, x) = v.after(KeyCode::Enter, w);
            let n = v.targets.len() as int;
            &&& x.profiles == w.profiles.insert(name, ProfileV::empty())
            &&& x.universal == w.universal
            &&& x.on_demand == w.on_demand
            &&& o matches Some(u) && {
                &&& u.targets == v.targets.drop_last().push(name).push(NEW_PROFILE@)
                &&& u.checked == v.checked.drop_last().push(true).push(v.checked.last())
                &&& u.cursor == n - 1
                &&& u.naming is None
            }
        }),
{
    let name = trimmed(input.chars);
    let n = v.targets.len() as int;
    lemma_sentinel_is_last(v.targets, 0);
    let u = v.after(KeyCode::Enter, w).0->0;
    assert(u.targets =~= v.targets.drop_last().push(name).push(NEW_PROFILE@));
    assert(u.checked =~= v.checked.drop_last().push(true).push(v.checked.last()));
}

proof fn lemma_sentinel_is_last(targets: Seq<Seq<char>>, i: int)
    requires
        0 <= i < targets.len(),
        targets.last() == NEW_PROFILE@,
        forall|k: int| 0 <= k < targets.len() - 1 ==> #[trigger] targets[k] != NEW_PROFILE@,
    ensures
        first_at(targets, NEW_PROFILE@, i) == targets.len() - 1,
    decreases targets.len() - i,
{
    if i < targets.len() - 1 {
        lemma_sentinel_is_last(targets, i + 1);
    }
}

/// A path is completed by the first directory, in name order, whose name continues what
/// stands behind its last slash, and by a slash; by none where no name does.
pub proof fn the_first_name_completes_the_path(
    dir: Seq<char>,
    leaf: Seq<char>,
    names: Seq<Seq<char>>,
)
    requires
        forall|i: int| 0 <= i < leaf.len() ==> #[trigger] leaf[i] != '/',
    ensures
        completion(leaf, names) is None,
        match completion(dir.push('/') + leaf, names) {
            None => forall|i: int|
                0 <= i < names.len() ==> !leaf.is_prefix_of(#[trigger] names[i]),
            Some(suffix) => exists|i: int|
                {
                    &&& 0 <= i < names.len()
                    &&& leaf + suffix == (#[trigger] names[i]).push('/')
                    &&& forall|j: int|
                        0 <= j < names.len() && leaf.is_prefix_of(#[trigger] names[j])
                            ==> !lex_lt(names[j], names[i])
                },
        },
{
    let input = dir.push('/') + leaf;
    lemma_last_slash(leaf, leaf.len() as int, 0);
    lemma_last_slash(input, input.len() as int, dir.len() as int + 1);
    assert(input[dir.len() as int] == '/');
    reveal_with_fuel(last_slash, 2);
    assert(last_slash(input, input.len() as int) == Some(dir.len() as int));
    assert(input.skip(dir.len() as int + 1) =~= leaf);
    lemma_first_starting(names, leaf);
    lemma_first_starting_least(names, leaf);
    if let Some(n) = first_starting(names, leaf) {
        let suffix = n.skip(leaf.len() as int).push('/');
        let i = choose|i: int| 0 <= i < names.len() && #[trigger] names[i] == n;
        assert(leaf + suffix =~= names[i].push('/'));
    }
}

proof fn lemma_last_slash(s: Seq<char>, k: int, from: int)
    requires
        0 <= from <= k <= s.len(),
        forall|i: int| from <= i < k ==> #[trigger] s[i] != '/',
    ensures
        last_slash(s, k) == last_slash(s, from),
    decreases k,
{
    if k > from {
        assert(s[k - 1] != '/');
        lemma_last_slash(s, k - 1, from);
    }
}

proof fn lemma_first_starting_least(names: Seq<Seq<char>>, leaf: Seq<char>)
    ensures
        match first_starting(names, leaf) {
            None => forall|i: int|
                0 <= i < names.len() ==> !leaf.is_prefix_of(#[trigger] names[i]),
            Some(n) => forall|i: int|
                0 <= i < names.len() && leaf.is_prefix_of(#[trigger] names[i]) ==> !lex_lt(
                    names[i],
                    n,
                ),
        },
    decreases names.len(),
{
    if names.len() > 0 {
        let t = names.drop_last();
        let x = names.last();
        lemma_first_starting_least(t, leaf);
        let best = first_starting(t, leaf);
        lemma_lex_irreflexive(x);
        match first_starting(names, leaf) {
            None => {
                assert forall|i: int| 0 <= i < names.len() implies !leaf.is_prefix_of(
                    #[trigger] names[i],
                ) by {
                    if i < t.len() {
                        assert(!leaf.is_prefix_of(t[i]));
                    }
                }
            },
            Some(n) => {
                assert forall|i: int|
                    0 <= i < names.len() && leaf.is_prefix_of(#[trigger] names[i]) implies !lex_lt(
                    names[i],
                    n,
                ) by {
                    if i < t.len() {
                        assert(leaf.is_prefix_of(t[i]));
                        if let Some(b) = best {
                            assert(!lex_lt(t[i], b));
                            if n == x && x != b && lex_lt(t[i], n) {
                                lemma_lex_transitive(t[i], n, b);
                            }
                        }
                    }
                }
            },
        }
    }
}

/// Moving goes round the targets and changes no check. The entry for a new profile asks for a
/// name; Esc leaves the typing, and a name that is empty or taken is not taken over.
pub proof fn moving_changes_no_check(v: MemberV, w: ProfilesV, input: InputV)
    requires
        v.ok(),
    ensures
        v.naming is None ==> {
            let n = v.targets.len() as int;
            &&& v.after(KeyCode::Down, w).0 == Some(
                MemberV {
                    cursor: if v.cursor + 1 == n {
                        0
                    } else {
                        v.cursor + 1
                    },
                    ..v
                },
            )
            &&& v.after(KeyCode::Up, w).0 == Some(
                MemberV {
                    cursor: if v.cursor == 0 {
                        n - 1
                    } else {
                        v.cursor - 1
                    },
                    ..v
                },
            )
            &&& v.targets[v.cursor] == NEW_PROFILE@ ==> (v.after(KeyCode::Enter, w).0 matches Some(
                u,
            ) && u.checked == v.checked && (u.naming matches Some(i) && i.chars.len() == 0))
        },
        v.naming == Some(input) ==> {
            &&& v.after(KeyCode::Esc, w) == (Some(MemberV { naming: None, ..v }), w)
            &&& trimmed(input.chars).len() == 0 || w.profiles.contains_key(trimmed(input.chars))
                ==> v.after(KeyCode::Enter, w) == (Some(MemberV { naming: None, ..v }), w)
        },
{
    crate::tui::key::cursors_go_round(v.cursor, v.targets.len() as int);
}

/// The directory that is listed for a completion is the path up to and with its last slash.
pub proof fn the_listed_directory_ends_at_the_last_slash(dir: Seq<char>, leaf: Seq<char>)
    requires
        forall|i: int| 0 <= i < leaf.len() ==> #[trigger] leaf[i] != '/',
    ensures
        ({
            let input = dir.push('/') + leaf;
            last_slash(input, input.len() as int) == Some(dir.len() as int) && input.take(
                dir.len() as int + 1,
            ) == dir.push('/')
        }),
        last_slash(leaf, leaf.len() as int) is None,
{
    let input = dir.push('/') + leaf;
    let n = dir.len() as int;
    lemma_last_slash(leaf, leaf.len() as int, 0);
    lemma_last_slash(input, input.len() as int, n + 1);
    assert(input[n] == '/');
    assert(last_slash(input, n + 1) == Some(n));
    assert(input.take(n + 1) =~= dir.push('/'));
}

} // verus!
