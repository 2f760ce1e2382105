//! What background work is called, and what its outcome says.

use vstd::prelude::*;

use crate::list::{self, listing};
use crate::namemap::NameMap;
use crate::profile::config::{Profiles, ProfilesV};
use crate::profile::discover::{
    copy_repos, Inventory, InventoryV, RepoSignal, SignalV, SuggestedProfile, SuggestedV,
};
use crate::profile::draft::{merge_suggestions, with_suggestions};
use crate::profile::drift::{
    an_uncovered_repo_matches_no_profile, every_uncovered_repo_is_listed, uncovered_from_signals,
    uncovered_paths,
};
use crate::profile::scan_cache::{CacheV, ScanCache, SeedV, SCAN_CACHE_VERSION};
use crate::profile::signal_detect::{answer, is_pending, matched_names};
use crate::text::{decimal, join2, join3, owned, show};
use crate::tui::job::{
    hit_views, IndexOutcome, IndexV, JobResult, ResultV, ScanOutcome, ScanV,
};
use crate::tui::view::{Action, ActionV};

verus! {

/// A text in single quotes.
pub open spec fn quoted(s: Seq<char>) -> Seq<char> {
    "'"@ + s + "'"@
}

fn quote(s: &str) -> (r: String)
    ensures
        r@ == quoted(s@),
{
    join3("'", s, "'")
}

/// `head` and the one item, or how many there are and what they are.
pub open spec fn counted(head: Seq<char>, items: Seq<Seq<char>>, noun: Seq<char>) -> Seq<char> {
    if items.len() == 1 {
        head + items[0]
    } else {
        head + decimal(items.len()) + noun
    }
}

fn count_text(head: &str, items: &Vec<String>, noun: &str) -> (r: String)
    ensures
        r@ == counted(head@, items.deep_view(), noun@),
{
    assert(items.len() == items.deep_view().len());
    if items.len() == 1 {
        assert(items.deep_view()[0] == items[0]@);
        join2(head, items[0].as_str())
    } else {
        join3(head, show(items.len() as u64).as_str(), noun)
    }
}

/// Whether a draft needs a walk of the roots first: no repos are known yet.
pub open spec fn walks_first(repos: int, roots: int) -> bool {
    repos == 0 && roots > 0
}

/// Whether a draft needs a walk of the roots first: no repos are known yet.
pub fn scans_first(inv: &Inventory, scan_roots: &Vec<String>) -> (r: bool)
    ensures
        r == walks_first(inv@.repos.len() as int, scan_roots.deep_view().len() as int),
{
    assert(inv.repos.len() == inv@.repos.len());
    assert(scan_roots.len() == scan_roots.deep_view().len());
    inv.repos.len() == 0 && scan_roots.len() > 0
}

/// What background work for an action is called; none for an action without any.
pub open spec fn label_of(a: ActionV, cfg_path: Seq<char>, assistant: Seq<char>) -> Option<
    Seq<char>,
> {
    match a {
        ActionV::Quit | ActionV::Refresh | ActionV::RelaunchClaude => None,
        ActionV::Switch(alias) => Some("switching to "@ + quoted(alias)),
        ActionV::Prime(alias) => Some("priming "@ + quoted(alias)),
        ActionV::RemoveAccount(alias) => Some("removing "@ + quoted(alias)),
        ActionV::WriteSchedule(_) => Some("writing schedule"@),
        ActionV::RunTask(id) => Some("running task "@ + id),
        ActionV::RemoveTask(id) => Some("removing task "@ + id),
        ActionV::Commit { .. } => Some("writing "@ + cfg_path),
        ActionV::DraftWithClaude { inv, scan_roots } => Some(
            if walks_first(inv.repos.len() as int, scan_roots.len() as int) {
                "scanning + asking "@ + assistant + "…"@
            } else {
                "asking "@ + assistant + "…"@
            },
        ),
        ActionV::Rescan { roots, .. } => Some(counted("scanning "@, roots, " roots"@)),
        ActionV::IndexAtoms { atoms, .. } => Some(counted("indexing "@, atoms, " patterns"@)),
    }
}

/// What background work for an action is called.
pub fn label(a: &Action, cfg_path: &str, assistant: &str) -> (r: Option<String>)
    ensures
        crate::profile::discover::text_of(r) == label_of(a@, cfg_path@, assistant@),
{
    match a {
        Action::Quit | Action::Refresh | Action::RelaunchClaude => None,
        Action::Switch(alias) => Some(join2("switching to ", quote(alias.as_str()).as_str())),
        Action::Prime(alias) => Some(join2("priming ", quote(alias.as_str()).as_str())),
        Action::RemoveAccount(alias) => Some(join2("removing ", quote(alias.as_str()).as_str())),
        Action::WriteSchedule(_) => Some(owned("writing schedule")),
        Action::RunTask(id) => Some(join2("running task ", id.as_str())),
        Action::RemoveTask(id) => Some(join2("removing task ", id.as_str())),
        Action::Commit { .. } => Some(join2("writing ", cfg_path)),
        Action::DraftWithClaude { inv, scan_roots } => Some(
            if scans_first(inv, scan_roots) {
                join3("scanning + asking ", assistant, "…")
            } else {
                join3("asking ", assistant, "…")
            },
        ),
        Action::Rescan { roots, .. } => Some(count_text("scanning ", roots, " roots")),
        Action::IndexAtoms { atoms, .. } => Some(count_text("indexing ", atoms, " patterns")),
    }
}

/// The account switched to, and what went wrong on the way, if anything.
#[derive(Debug)]
pub struct Switched {
    pub to: String,
    pub warning: Option<String>,
}

/// What a switch came to.
pub open spec fn switch_text(to: Seq<char>, warning: Option<Seq<char>>) -> Seq<char> {
    match warning {
        Some(w) => "switched to "@ + quoted(to) + " (warning: "@ + w + ")"@,
        None => "switched to "@ + quoted(to),
    }
}

/// The result of a switch.
pub fn switch_result(out: Result<Switched, String>) -> (r: JobResult)
    ensures
        r@ == match out {
            Ok(s) => ResultV::says(
                switch_text(s.to@, crate::profile::discover::text_of(s.warning)),
                true,
            ),
            Err(e) => ResultV::says("switch failed: "@ + e@, false),
        },
{
    match out {
        Ok(s) => {
            let head = join2("switched to ", quote(s.to.as_str()).as_str());
            match s.warning {
                Some(w) => {
                    let mut t = join3(head.as_str(), " (warning: ", w.as_str());
                    t.append(")");
                    JobResult::says(t, true)
                },
                None => JobResult::says(head, true),
            }
        },
        Err(e) => JobResult::says(join2("switch failed: ", e.as_str()), false),
    }
}

/// What priming an account came to.
#[derive(Clone, Copy, Debug, PartialEq, Eq, Structural)]
pub enum PrimeOutcome {
    Primed,
    SkippedActive,
}

/// The result of priming `alias`.
pub fn prime_result(alias: &str, out: Result<PrimeOutcome, String>) -> (r: JobResult)
    ensures
        r@ == match out {
            Ok(PrimeOutcome::Primed) => ResultV::says("primed "@ + quoted(alias@), true),
            Ok(PrimeOutcome::SkippedActive) => ResultV::says(
                quoted(alias@) + " is active — prime skipped"@,
                false,
            ),
            Err(e) => ResultV::says("prime failed: "@ + e@, false),
        },
{
    let name = quote(alias);
    match out {
        Ok(PrimeOutcome::Primed) => JobResult::says(join2("primed ", name.as_str()), true),
        Ok(PrimeOutcome::SkippedActive) => JobResult::says(
            join2(name.as_str(), " is active — prime skipped"),
            false,
        ),
        Err(e) => JobResult::says(join2("prime failed: ", e.as_str()), false),
    }
}

/// The result of removing account `alias`.
pub fn remove_account_result(alias: &str, out: Result<(), String>) -> (r: JobResult)
    ensures
        r@ == match out {
            Ok(_) => ResultV::says("removed "@ + quoted(alias@), true),
            Err(e) => ResultV::says("remove failed: "@ + e@, false),
        },
{
    match out {
        Ok(_) => JobResult::says(join2("removed ", quote(alias).as_str()), true),
        Err(e) => JobResult::says(join2("remove failed: ", e.as_str()), false),
    }
}

/// The result of writing the schedule. A schedule that cannot be installed is not
/// saved either, and that is said.
pub fn schedule_result(out: Result<(), String>) -> (r: JobResult)
    ensures
        r@ == match out {
            Ok(_) => ResultV::says("schedule written; crontab updated"@, true),
            Err(e) => ResultV::says("schedule NOT installed: "@ + e@, true),
        },
{
    match out {
        Ok(_) => JobResult::says(owned("schedule written; crontab updated"), true),
        Err(e) => JobResult::says(join2("schedule NOT installed: ", e.as_str()), true),
    }
}

/// The result of running task `id`.
pub fn run_task_result(id: &str, out: Result<String, String>) -> (r: JobResult)
    ensures
        r@ == match out {
            Ok(o) => ResultV::says("task "@ + quoted(id@) + " → "@ + o@, true),
            Err(e) => ResultV::says("task "@ + quoted(id@) + " failed: "@ + e@, false),
        },
{
    let head = join2("task ", quote(id).as_str());
    match out {
        Ok(o) => JobResult::says(join3(head.as_str(), " → ", o.as_str()), true),
        Err(e) => JobResult::says(join3(head.as_str(), " failed: ", e.as_str()), false),
    }
}

/// The result of removing task `id`.
pub fn remove_task_result(id: &str, out: Result<(), String>) -> (r: JobResult)
    ensures
        r@ == match out {
            Ok(_) => ResultV::says("removed task "@ + quoted(id@), true),
            Err(e) => ResultV::says("remove failed: "@ + e@, true),
        },
{
    match out {
        Ok(_) => JobResult::says(join2("removed task ", quote(id).as_str()), true),
        Err(e) => JobResult::says(join2("remove failed: ", e.as_str()), true),
    }
}

/// The result of asking the assistant for a draft.
pub fn draft_result(assistant: &str, out: Result<Profiles, String>) -> (r: JobResult)
    ensures
        r@ == match out {
            Ok(p) => (ResultV {
                draft: Some(p@),
                ..ResultV::says(
                    assistant@ + " drafted your profiles — review, then w to apply"@,
                    false,
                )
            }),
            Err(e) => ResultV::says(assistant@ + " draft failed: "@ + e@, false),
        },
{
    match out {
        Ok(p) => {
            let mut r = JobResult::says(
                join2(assistant, " drafted your profiles — review, then w to apply"),
                false,
            );
            r.draft = Some(p);
            r
        },
        Err(e) => JobResult::says(join3(assistant, " draft failed: ", e.as_str()), false),
    }
}

/// What a commit wrote.
#[derive(Debug)]
pub struct CommitReport {
    pub profiles_path: String,
    pub repos_applied: usize,
    /// Repos whose fresh match differs from the preview.
    pub diverged: usize,
    /// The repos as read anew.
    pub fresh_signals: Vec<RepoSignal>,
}

/// What a commit came to.
pub open spec fn commit_text(path: Seq<char>, applied: nat, diverged: nat) -> Seq<char> {
    let base = "wrote "@ + path + " · global synced · "@ + decimal(applied) + " repos applied"@;
    if diverged > 0 {
        base + " · "@ + decimal(diverged) + " matched differently than preview"@
    } else {
        base
    }
}

/// The answers of the given repos, by path.
pub open spec fn signal_hits(sigs: Seq<SignalV>) -> Map<Seq<char>, Map<Seq<char>, bool>>
    decreases sigs.len(),
{
    if sigs.len() == 0 {
        Map::empty()
    } else {
        signal_hits(sigs.drop_last()).insert(sigs.last().path, sigs.last().rule_hits)
    }
}

fn hits_of(sigs: &Vec<RepoSignal>) -> (r: NameMap<NameMap<bool>>)
    ensures
        hit_views(r@) == signal_hits(sigs.deep_view()),
{
    let ghost all = sigs.deep_view();
    let mut out: NameMap<NameMap<bool>> = NameMap::new();
    assert(hit_views(out@) =~= signal_hits(all.take(0)));
    let mut i: usize = 0;
    while i < sigs.len()
        invariant
            i <= sigs.len(),
            all == sigs.deep_view(),
            hit_views(out@) == signal_hits(all.take(i as int)),
        decreases sigs.len() - i,
    {
        let ghost before = out@;
        let s = sigs[i].clone();
        proof {
            let t = all.take(i + 1);
            assert(t.drop_last() =~= all.take(i as int));
            assert(t.last() == all[i as int]);
            assert(all[i as int] == sigs[i as int]@);
        }
        out.insert(s.path, s.rule_hits);
        assert(hit_views(out@) =~= signal_hits(all.take(i + 1)));
        i += 1;
    }
    assert(all.take(i as int) =~= all);
    out
}

/// The result of a commit. The repos it read anew come back as a refresh of the
/// index, which completes no batch.
pub fn commit_result(out: Result<CommitReport, String>) -> (r: JobResult)
    ensures
        r@ == match out {
            Ok(c) => (ResultV {
                index: if c.fresh_signals.deep_view().len() == 0 {
                    None
                } else {
                    Some(
                        IndexV {
                            atoms: Seq::empty(),
                            hits: signal_hits(c.fresh_signals.deep_view()),
                        },
                    )
                },
                ..ResultV::says(
                    commit_text(c.profiles_path@, c.repos_applied as nat, c.diverged as nat),
                    true,
                )
            }),
            Err(e) => ResultV::says("commit failed: "@ + e@, false),
        },
{
    match out {
        Ok(c) => {
            let mut t = join3("wrote ", c.profiles_path.as_str(), " · global synced · ");
            t.append(show(c.repos_applied as u64).as_str());
            t.append(" repos applied");
            if c.diverged > 0 {
                t.append(" · ");
                t.append(show(c.diverged as u64).as_str());
                t.append(" matched differently than preview");
            }
            let mut r = JobResult::says(t, true);
            assert(c.fresh_signals.len() == c.fresh_signals.deep_view().len());
            if c.fresh_signals.len() > 0 {
                let atoms: Vec<String> = Vec::new();
                assert(atoms.deep_view() =~= Seq::<Seq<char>>::empty());
                r.index = Some(IndexOutcome { atoms, hits: hits_of(&c.fresh_signals) });
            }
            r
        },
        Err(e) => JobResult::says(join2("commit failed: ", e.as_str()), false),
    }
}

/// What a scan came to: how many repos, and how many of them may be incomplete.
pub open spec fn rescan_text(repos: nat, budget_hits: nat) -> Seq<char> {
    let base = "scanned "@ + decimal(repos) + " repos"@;
    if budget_hits > 0 {
        base + " · "@ + decimal(budget_hits) + " repos hit walk budget"@
    } else {
        base
    }
}

/// What a scan came to.
pub fn rescan_toast(repo_count: usize, budget_hits: usize) -> (r: String)
    ensures
        r@ == rescan_text(repo_count as nat, budget_hits as nat),
{
    let mut t = join3("scanned ", show(repo_count as u64).as_str(), " repos");
    if budget_hits > 0 {
        t.append(" · ");
        t.append(show(budget_hits as u64).as_str());
        t.append(" repos hit walk budget");
    }
    t
}

/// The repos that match no profile once the suggested ones are added.
pub open spec fn uncovered_after_merge(
    w: ProfilesV,
    suggested: Seq<SuggestedV>,
    repos: Seq<SignalV>,
) -> Seq<Seq<char>> {
    let merged = ProfilesV { profiles: with_suggestions(w.profiles, suggested), ..w };
    uncovered_paths(repos, merged.names(), merged.profiles)
}

/// What a walk found.
#[derive(Debug)]
pub struct Walk {
    pub repos: Vec<RepoSignal>,
    pub suggested: Vec<SuggestedProfile>,
    pub budget_hits: usize,
    /// When the walk finished, in epoch seconds.
    pub scanned_at: i64,
}

/// The scan that a walk of `roots` comes to.
pub open spec fn scan_of(w: ProfilesV, roots: Seq<Seq<char>>, walk: Walk) -> ScanV {
    ScanV {
        roots,
        repos: walk.repos.deep_view(),
        suggested: walk.suggested.deep_view(),
        uncovered: uncovered_after_merge(
            w,
            walk.suggested.deep_view(),
            walk.repos.deep_view(),
        ),
        scanned_at: walk.scanned_at,
        budget_hits: walk.budget_hits,
    }
}

/// The result of a walk of `roots`, and the scan to keep for the next session.
pub fn rescan_result(working: &Profiles, roots: Vec<String>, walk: Walk) -> (r: (
    JobResult,
    ScanCache,
))
    ensures
        r.0@ == (ResultV {
            scan: Some(scan_of(working@, roots.deep_view(), walk)),
            ..ResultV::says(
                rescan_text(walk.repos.deep_view().len(), walk.budget_hits as nat),
                false,
            )
        }),
        r.1@ == ({
            let s = scan_of(working@, roots.deep_view(), walk);
            CacheV {
                version: SCAN_CACHE_VERSION,
                roots: s.roots,
                repos: s.repos,
                uncovered: Some(s.uncovered),
                scanned_at: s.scanned_at,
            }
        }),
{
    let ghost w = working@;
    let mut merged = working.clone();
    merge_suggestions(&mut merged, &walk.suggested);
    let (uncovered, _pending) = uncovered_from_signals(&walk.repos, &merged);
    assert(merged@ =~= (ProfilesV {
        profiles: with_suggestions(w.profiles, walk.suggested.deep_view()),
        ..w
    }));
    assert(walk.repos.len() == walk.repos.deep_view().len());
    let cache = ScanCache {
        version: SCAN_CACHE_VERSION,
        roots: list::copy(&roots),
        repos: copy_repos(&walk.repos),
        uncovered: Some(list::copy(&uncovered)),
        scanned_at: walk.scanned_at,
    };
    let mut r = JobResult::says(rescan_toast(walk.repos.len(), walk.budget_hits), false);
    r.scan =
    Some(
        ScanOutcome {
            roots,
            repos: walk.repos,
            suggested: walk.suggested,
            uncovered,
            scanned_at: walk.scanned_at,
            budget_hits: walk.budget_hits,
        },
    );
    (r, cache)
}

/// Whether the answers of a repo have `atom` as a hit.
pub open spec fn has_hit(
    hits: Map<Seq<char>, Map<Seq<char>, bool>>,
    atom: Seq<char>,
) -> spec_fn(Seq<char>) -> bool {
    |path: Seq<char>| hits[path].contains_key(atom) && hits[path][atom]
}

/// How many repos have `atom` as a hit.
pub open spec fn hit_count(
    hits: Map<Seq<char>, Map<Seq<char>, bool>>,
    atom: Seq<char>,
) -> nat {
    listing(hits.dom()).filter(has_hit(hits, atom)).len()
}

fn count_hits(hits: &NameMap<NameMap<bool>>, atom: &str) -> (r: usize)
    ensures
        r == hit_count(hit_views(hits@), atom@),
{
    let ghost hv = hit_views(hits@);
    let ghost p = has_hit(hv, atom@);
    let n: usize = hits.len();
    let ghost names = hits.names();
    proof {
        assert(hv.dom() =~= hits@.dom());
        list::lemma_listing(names, hv.dom());
        list::lemma_filter_empty(p);
        assert(names.take(0) =~= Seq::<Seq<char>>::empty());
    }
    let mut count: usize = 0;
    let mut i: usize = 0;
    while i < n
        invariant
            i <= n,
            n == names.len(),
            names == hits.names(),
            hv == hit_views(hits@),
            p == has_hit(hv, atom@),
            count <= i,
            count == names.take(i as int).filter(p).len(),
        decreases n - i,
    {
        let h = hits.value_at(i);
        proof {
            assert(names.take(i + 1) =~= names.take(i as int).push(names[i as int]));
            list::lemma_filter_push(names.take(i as int), names[i as int], p);
            assert(hv[names[i as int]] == h@);
        }
        let hit: bool = match h.get(atom) {
            Some(b) => *b,
            None => false,
        };
        if hit {
            count += 1;
        }
        i += 1;
    }
    assert(names.take(i as int) =~= names);
    count
}

/// What a batch came to: its atom and the repos that match it, or how many atoms.
pub open spec fn index_text(
    atoms: Seq<Seq<char>>,
    hits: Map<Seq<char>, Map<Seq<char>, bool>>,
) -> Seq<char> {
    if atoms.len() == 1 {
        "indexed "@ + atoms[0] + " · "@ + decimal(hit_count(hits, atoms[0])) + " repos match"@
    } else {
        "indexed "@ + decimal(atoms.len()) + " patterns"@
    }
}

/// The result of a batch of atoms.
pub fn index_result(atoms: Vec<String>, hits: NameMap<NameMap<bool>>) -> (r: JobResult)
    ensures
        r@ == (ResultV {
            index: Some(IndexV { atoms: atoms.deep_view(), hits: hit_views(hits@) }),
            ..ResultV::says(index_text(atoms.deep_view(), hit_views(hits@)), false)
        }),
{
    assert(atoms.len() == atoms.deep_view().len());
    let toast = if atoms.len() == 1 {
        assert(atoms.deep_view()[0] == atoms[0]@);
        let n: usize = count_hits(&hits, atoms[0].as_str());
        let mut t = join3("indexed ", atoms[0].as_str(), " · ");
        t.append(show(n as u64).as_str());
        t.append(" repos match");
        t
    } else {
        join3("indexed ", show(atoms.len() as u64).as_str(), " patterns")
    };
    let mut r = JobResult::says(toast, false);
    r.index = Some(IndexOutcome { atoms, hits });
    r
}

/// The answers that a commit read anew are handed back under the path of their repo.
pub proof fn fresh_answers_are_kept_by_path(sigs: Seq<SignalV>)
    ensures
        forall|p: Seq<char>| #[trigger]
            signal_hits(sigs).contains_key(p) <==> exists|i: int|
                0 <= i < sigs.len() && (#[trigger] sigs[i]).path == p,
        forall|i: int|
            0 <= i < sigs.len() && (forall|j: int|
                i < j < sigs.len() ==> (#[trigger] sigs[j]).path != sigs[i].path) ==> signal_hits(
                sigs,
            )[(#[trigger] sigs[i]).path] == sigs[i].rule_hits,
    decreases sigs.len(),
{
    if sigs.len() > 0 {
        let t = sigs.drop_last();
        let n = t.len() as int;
        fresh_answers_are_kept_by_path(t);
        assert forall|p: Seq<char>| #[trigger] signal_hits(sigs).contains_key(p) <==> exists|i: int|
            0 <= i < sigs.len() && (#[trigger] sigs[i]).path == p by {
            if signal_hits(t).contains_key(p) {
                let i = choose|i: int| 0 <= i < t.len() && (#[trigger] t[i]).path == p;
                assert(sigs[i].path == p);
            }
            if p == sigs.last().path {
                assert(sigs[n].path == p);
            }
            if exists|i: int| 0 <= i < sigs.len() && (#[trigger] sigs[i]).path == p {
                let i = choose|i: int| 0 <= i < sigs.len() && (#[trigger] sigs[i]).path == p;
                if i < n {
                    assert(t[i].path == p);
                    assert(signal_hits(t).contains_key(p));
                }
            }
        }
        assert forall|i: int|
            0 <= i < sigs.len() && (forall|j: int|
                i < j < sigs.len() ==> (#[trigger] sigs[j]).path != sigs[i].path) implies
            signal_hits(sigs)[(#[trigger] sigs[i]).path] == sigs[i].rule_hits by {
            if i < n {
                assert(sigs[n].path != sigs[i].path);
                assert(t[i] == sigs[i]);
                assert forall|j: int| i < j < t.len() implies (#[trigger] t[j]).path
                    != t[i].path by {
                    assert(sigs[j].path != sigs[i].path);
                }
            }
        }
    }
}

/// The count of a batch is that of the repos whose answer is yes. Returns their positions
/// among the repos by path.
pub proof fn a_hit_is_counted_per_repo(
    hits: Map<Seq<char>, Map<Seq<char>, bool>>,
    paths: Seq<Seq<char>>,
    atom: Seq<char>,
) -> (ix: Seq<int>)
    requires
        list::lists(paths, hits.dom()),
    ensures
        list::picks(
            ix,
            paths.len() as int,
            |i: int| hits[paths[i]].contains_pair(atom, true),
        ),
        hit_count(hits, atom) == ix.len(),
{
    let p = has_hit(hits, atom);
    let q = |i: int| hits[paths[i]].contains_pair(atom, true);
    list::lemma_listing(paths, hits.dom());
    list::lemma_filter_picks(paths, p);
    list::lemma_picked(paths.len() as int, q);
    list::lemma_picked_congruent(paths.len() as int, |i: int| p(paths[i]), q);
    list::picked(paths.len() as int, q)
}

/// A scan that is kept is what the next session over the same roots starts from, with nothing
/// left to compute or to build again.
pub proof fn the_next_session_starts_from_the_scan(
    w: ProfilesV,
    roots: Seq<Seq<char>>,
    walk: Walk,
)
    ensures
        ({
            let s = scan_of(w, roots, walk);
            let kept = CacheV {
                version: SCAN_CACHE_VERSION,
                roots: s.roots,
                repos: s.repos,
                uncovered: Some(s.uncovered),
                scanned_at: s.scanned_at,
            };
            let seed = SeedV::of(kept, roots);
            &&& seed.repos == walk.repos.deep_view()
            &&& seed.uncovered == s.uncovered
            &&& seed.scanned_at == Some(walk.scanned_at)
            &&& !seed.pending
            &&& !seed.needs_rebuild
            &&& s.suggested == walk.suggested.deep_view()
            &&& s.budget_hits == walk.budget_hits
        }),
{
}

/// Background work is called by what it does and to what.
pub proof fn work_is_called_by_its_subject(s: Seq<char>, path: Seq<char>, assistant: Seq<char>)
    ensures
        label_of(ActionV::Switch(s), path, assistant) == Some("switching to "@ + ("'"@ + s + "'"@)),
        label_of(ActionV::Prime(s), path, assistant) == Some("priming "@ + ("'"@ + s + "'"@)),
        label_of(ActionV::RemoveAccount(s), path, assistant) == Some(
            "removing "@ + ("'"@ + s + "'"@),
        ),
        label_of(ActionV::RunTask(s), path, assistant) == Some("running task "@ + s),
        label_of(ActionV::RemoveTask(s), path, assistant) == Some("removing task "@ + s),
        forall|a: ActionV| #[trigger]
            label_of(a, path, assistant) is None <==> a is Quit || a is Refresh
                || a is RelaunchClaude,
        forall|a: ActionV|
            a is Commit ==> #[trigger] label_of(a, path, assistant) == Some("writing "@ + path),
{
}

/// A scan reports no repo that a suggested profile would match: it is uncovered only if no
/// profile matches it, old or suggested.
pub proof fn suggested_profiles_cover(
    w: ProfilesV,
    suggested: Seq<SuggestedV>,
    repos: Seq<SignalV>,
    names: Seq<Seq<char>>,
    path: Seq<char>,
)
    requires
        list::lists(names, with_suggestions(w.profiles, suggested).dom()),
    ensures
        uncovered_after_merge(w, suggested, repos).contains(path) ==> exists|i: int|
            0 <= i < repos.len() && (#[trigger] repos[i]).path == path && (
            repos[i].override_names is None ==> forall|n: Seq<char>| #[trigger]
                with_suggestions(w.profiles, suggested).contains_key(n) ==> answer(
                    repos[i],
                    with_suggestions(w.profiles, suggested)[n].detect,
                ) is NoMatch),
{
    let merged = ProfilesV { profiles: with_suggestions(w.profiles, suggested), ..w };
    list::lemma_listing(names, merged.profiles.dom());
    let ix = every_uncovered_repo_is_listed(repos, merged.names(), merged.profiles);
    let us = uncovered_after_merge(w, suggested, repos);
    if us.contains(path) {
        let k = choose|k: int| 0 <= k < us.len() && us[k] == path;
        let i = ix[k];
        let p = |i: int|
            matched_names(repos[i], merged.names(), merged.profiles).len() == 0 && !is_pending(
                repos[i],
                merged.names(),
                merged.profiles,
            );
        assert(p(ix[k]));
        assert(repos[i].path == path);
        if repos[i].override_names is None {
            an_uncovered_repo_matches_no_profile(repos[i], merged.names(), merged.profiles);
        }
    }
}

/// One item is named, and several are counted.
pub proof fn one_item_is_named(
    items: Seq<Seq<char>>,
    working: ProfilesV,
    repos: Seq<Seq<char>>,
    path: Seq<char>,
    assistant: Seq<char>,
)
    ensures
        items.len() == 1 ==> label_of(
            ActionV::Rescan { roots: items, working },
            path,
            assistant,
        ) == Some("scanning "@ + items[0]) && label_of(
            ActionV::IndexAtoms { atoms: items, repos },
            path,
            assistant,
        ) == Some("indexing "@ + items[0]),
        items.len() != 1 ==> label_of(
            ActionV::Rescan { roots: items, working },
            path,
            assistant,
        ) == Some("scanning "@ + decimal(items.len()) + " roots"@) && label_of(
            ActionV::IndexAtoms { atoms: items, repos },
            path,
            assistant,
        ) == Some("indexing "@ + decimal(items.len()) + " patterns"@),
{
}

/// What went wrong or differs is told behind what was done, and not where there is nothing of
/// the kind.
pub proof fn results_tell_what_differs(to: Seq<char>, why: Seq<char>, n: nat, more: nat)
    ensures
        switch_text(to, None) == "switched to "@ + ("'"@ + to + "'"@),
        switch_text(to, Some(why)) == switch_text(to, None) + " (warning: "@ + why + ")"@,
        commit_text(to, n, 0) == "wrote "@ + to + " · global synced · "@ + decimal(n)
            + " repos applied"@,
        more > 0 ==> commit_text(to, n, more) == commit_text(to, n, 0) + " · "@ + decimal(more)
            + " matched differently than preview"@,
        rescan_text(n, 0) == "scanned "@ + decimal(n) + " repos"@,
        more > 0 ==> rescan_text(n, more) == rescan_text(n, 0) + " · "@ + decimal(more)
            + " repos hit walk budget"@,
{
}

/// A draft scans first just where no repo is known and there is a root to walk.
pub proof fn a_draft_scans_first_without_repos(
    inv: InventoryV,
    scan_roots: Seq<Seq<char>>,
    path: Seq<char>,
    assistant: Seq<char>,
)
    ensures
        label_of(ActionV::DraftWithClaude { inv, scan_roots }, path, assistant) == Some(
            (if inv.repos.len() == 0 && scan_roots.len() > 0 {
                "scanning + asking "@
            } else {
                "asking "@
            }) + assistant + "…"@,
        ),
{
}

} // verus!
