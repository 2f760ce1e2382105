//! What background work hands back.

use vstd::prelude::*;

use crate::namemap::NameMap;
use crate::profile::config::{Profiles, ProfilesV};
use crate::profile::discover::{RepoSignal, SignalV, SuggestedProfile, SuggestedV};

verus! {

/// A completed repo scan.
#[derive(Debug)]
pub struct ScanOutcome {
    pub roots: Vec<String>,
    pub repos: Vec<RepoSignal>,
    pub suggested: Vec<SuggestedProfile>,
    /// The repos that match no profile.
    pub uncovered: Vec<String>,
    /// When the scan finished, in epoch seconds.
    pub scanned_at: i64,
    /// How many repos ran out of their walk budget; their globs may be incomplete.
    pub budget_hits: usize,
}

/// The contents of a scan.
#[verifier::ext_equal]
pub struct ScanV {
    pub roots: Seq<Seq<char>>,
    pub repos: Seq<SignalV>,
    pub suggested: Seq<SuggestedV>,
    pub uncovered: Seq<Seq<char>>,
    pub scanned_at: i64,
    pub budget_hits: usize,
}

impl View for ScanOutcome {
    type V = ScanV;

    open spec fn view(&self) -> ScanV {
        ScanV {
            roots: self.roots.deep_view(),
            repos: self.repos.deep_view(),
            suggested: self.suggested.deep_view(),
            uncovered: self.uncovered.deep_view(),
            scanned_at: self.scanned_at,
            budget_hits: self.budget_hits,
        }
    }
}

/// The answers to a batch of atoms. An empty batch refreshes answers without
/// completing any.
#[derive(Debug)]
pub struct IndexOutcome {
    pub atoms: Vec<String>,
    /// Repo path to its answers.
    pub hits: NameMap<NameMap<bool>>,
}

/// The contents of an index outcome.
#[verifier::ext_equal]
pub struct IndexV {
    pub atoms: Seq<Seq<char>>,
    pub hits: Map<Seq<char>, Map<Seq<char>, bool>>,
}

/// Answers by repo.
pub open spec fn hit_views(m: Map<Seq<char>, NameMap<bool>>) -> Map<
    Seq<char>,
    Map<Seq<char>, bool>,
> {
    m.map_values(|h: NameMap<bool>| h@)
}

impl View for IndexOutcome {
    type V = IndexV;

    open spec fn view(&self) -> IndexV {
        IndexV { atoms: self.atoms.deep_view(), hits: hit_views(self.hits@) }
    }
}

/// The repos with new answers written over the old ones.
pub open spec fn with_hits(
    repos: Seq<SignalV>,
    hits: Map<Seq<char>, Map<Seq<char>, bool>>,
) -> Seq<SignalV> {
    repos.map_values(
        |r: SignalV|
            if hits.contains_key(r.path) {
                SignalV { rule_hits: r.rule_hits.union_prefer_right(hits[r.path]), ..r }
            } else {
                r
            },
    )
}

fn put_hits(m: &mut NameMap<bool>, more: &NameMap<bool>)
    ensures
        final(m)@ == old(m)@.union_prefer_right(more@),
{
    let ghost base = m@;
    let n: usize = more.len();
    let ghost names = more.names();
    let mut i: usize = 0;
    while i < n
        invariant
            i <= n,
            n == names.len(),
            names == more.names(),
            crate::list::lists(names, more@.dom()),
            m@.dom() =~= base.dom().union(names.take(i as int).to_set()),
            forall|k: Seq<char>| #[trigger]
                m@.contains_key(k) ==> m@[k] == if names.take(i as int).contains(k) {
                    more@[k]
                } else {
                    base[k]
                },
        decreases n - i,
    {
        let ghost before = m@;
        let k = more.key_at(i);
        let b: bool = *more.value_at(i);
        m.insert(k.clone(), b);
        proof {
            let t = names.take(i + 1);
            assert(t =~= names.take(i as int).push(names[i as int]));
            crate::list::lemma_push_contains(names.take(i as int), names[i as int]);
            assert(m@.dom() =~= base.dom().union(t.to_set()));
        }
        i += 1;
    }
    proof {
        assert(names.take(i as int) =~= names);
        assert(m@ =~= base.union_prefer_right(more@));
    }
}

/// Writes the new answers over the old ones.
pub fn merge_hits(repos: &mut Vec<RepoSignal>, hits: &NameMap<NameMap<bool>>)
    ensures
        final(repos).deep_view() == with_hits(old(repos).deep_view(), hit_views(hits@)),
{
    let ghost start = repos.deep_view();
    let ghost want = with_hits(start, hit_views(hits@));
    let n: usize = repos.len();
    let mut i: usize = 0;
    while i < n
        invariant
            i <= n,
            n == repos.len(),
            n == start.len(),
            want == with_hits(start, hit_views(hits@)),
            forall|j: int| 0 <= j < i ==> (#[trigger] repos[j])@ == want[j],
            forall|j: int| i <= j < n ==> (#[trigger] repos[j])@ == start[j],
        decreases n - i,
    {
        let ghost before = repos@;
        assert(repos[i as int]@ == start[i as int]);
        if let Some(h) = hits.get(repos[i].path.as_str()) {
            put_hits(&mut repos[i].rule_hits, h);
            assert(repos[i as int]@ =~= want[i as int]);
            assert forall|j: int| 0 <= j < n && j != i implies (#[trigger] repos[j])
                == before[j] by {}
        }
        i += 1;
    }
    assert(repos.deep_view() =~= want);
}

/// The outcome of background work.
#[derive(Debug)]
pub struct JobResult {
    pub toast: String,
    pub needs_refresh: bool,
    /// A drafted configuration.
    pub draft: Option<Profiles>,
    pub scan: Option<ScanOutcome>,
    /// A recomputed set of uncovered repos.
    pub uncovered: Option<Vec<String>>,
    pub index: Option<IndexOutcome>,
}

/// The contents of a job result.
#[verifier::ext_equal]
pub struct ResultV {
    pub toast: Seq<char>,
    pub needs_refresh: bool,
    pub draft: Option<ProfilesV>,
    pub scan: Option<ScanV>,
    pub uncovered: Option<Seq<Seq<char>>>,
    pub index: Option<IndexV>,
}

impl View for JobResult {
    type V = ResultV;

    open spec fn view(&self) -> ResultV {
        ResultV {
            toast: self.toast@,
            needs_refresh: self.needs_refresh,
            draft: match self.draft {
                Some(p) => Some(p@),
                None => None,
            },
            scan: match self.scan {
                Some(s) => Some(s@),
                None => None,
            },
            uncovered: match self.uncovered {
                Some(u) => Some(u.deep_view()),
                None => None,
            },
            index: match self.index {
                Some(o) => Some(o@),
                None => None,
            },
        }
    }
}

impl ResultV {
    /// A message, and nothing handed back.
    pub open spec fn says(toast: Seq<char>, needs_refresh: bool) -> ResultV {
        ResultV {
            toast,
            needs_refresh,
            draft: None,
            scan: None,
            uncovered: None,
            index: None,
        }
    }
}

impl JobResult {
    /// A message, and nothing handed back.
    pub fn says(toast: String, needs_refresh: bool) -> (r: JobResult)
        ensures
            r@ == ResultV::says(toast@, needs_refresh),
    {
        JobResult {
            toast,
            needs_refresh,
            draft: None,
            scan: None,
            uncovered: None,
            index: None,
        }
    }
}

impl Default for JobResult {
    fn default() -> (r: JobResult)
        ensures
            r@ == ResultV::says(Seq::empty(), false),
    {
        let toast = String::new();
        assert(toast@ =~= Seq::<char>::empty());
        JobResult::says(toast, false)
    }
}

/// Background work that holds the screen: its label, and when it started.
#[derive(Debug)]
pub struct Job {
    pub label: String,
    pub started_ms: i64,
}

/// What has to be recovered if detached work dies without a result.
#[derive(Clone, Copy, Debug, PartialEq, Eq, Structural)]
pub enum DetachedKind {
    /// Nothing.
    Generic,
    /// The batch of atoms under way.
    IndexAtoms,
    /// The note that the index is being rebuilt.
    Rebuild,
}

/// Background work that goes on without holding the screen.
#[derive(Clone, Copy, Debug, PartialEq, Eq, Structural)]
pub struct Detached {
    pub kind: DetachedKind,
}

/// New answers are written over the old ones, repo by repo: what a batch answers holds from
/// then on, what it leaves open stays as it was, and nothing else of a repo changes.
pub proof fn answers_are_written_over_the_old_ones(
    repos: Seq<SignalV>,
    hits: Map<Seq<char>, Map<Seq<char>, bool>>,
    i: int,
    a: Seq<char>,
)
    requires
        0 <= i < repos.len(),
    ensures
        with_hits(repos, hits).len() == repos.len(),
        ({
            let r = repos[i];
            let u = with_hits(repos, hits)[i];
            &&& u == (SignalV { rule_hits: u.rule_hits, ..r })
            &&& if hits.contains_key(r.path) && hits[r.path].contains_key(a) {
                u.rule_hits.contains_pair(a, hits[r.path][a])
            } else {
                &&& u.rule_hits.contains_key(a) == r.rule_hits.contains_key(a)
                &&& r.rule_hits.contains_key(a) ==> u.rule_hits[a] == r.rule_hits[a]
            }
        }),
{
}

} // verus!
