//! The last scan, as kept between sessions, and what a new session takes from it.

use vstd::prelude::*;

use crate::list;
use crate::profile::discover::{texts_of, RepoSignal, SignalV};

verus! {

/// The version of the index that this library writes.
pub const SCAN_CACHE_VERSION: u32 = 2;

/// A scan as kept on disk.
#[derive(Debug)]
pub struct ScanCache {
    pub version: u32,
    pub roots: Vec<String>,
    pub repos: Vec<RepoSignal>,
    /// The repos that match no profile; none if that was never computed.
    pub uncovered: Option<Vec<String>>,
    /// When the scan finished, in epoch seconds.
    pub scanned_at: i64,
}

/// The contents of a kept scan.
#[verifier::ext_equal]
pub struct CacheV {
    pub version: u32,
    pub roots: Seq<Seq<char>>,
    pub repos: Seq<SignalV>,
    pub uncovered: Option<Seq<Seq<char>>>,
    pub scanned_at: i64,
}

impl View for ScanCache {
    type V = CacheV;

    open spec fn view(&self) -> CacheV {
        CacheV {
            version: self.version,
            roots: self.roots.deep_view(),
            repos: self.repos.deep_view(),
            uncovered: texts_of(self.uncovered),
            scanned_at: self.scanned_at,
        }
    }
}

/// What a session starts from.
#[derive(Debug)]
pub struct Seed {
    pub repos: Vec<RepoSignal>,
    pub uncovered: Vec<String>,
    /// The uncovered repos were never computed.
    pub pending: bool,
    pub scanned_at: Option<i64>,
    /// The index is of an older version, and has to be built again.
    pub needs_rebuild: bool,
}

/// The contents of a seed.
#[verifier::ext_equal]
pub struct SeedV {
    pub repos: Seq<SignalV>,
    pub uncovered: Seq<Seq<char>>,
    pub pending: bool,
    pub scanned_at: Option<i64>,
    pub needs_rebuild: bool,
}

impl View for Seed {
    type V = SeedV;

    open spec fn view(&self) -> SeedV {
        SeedV {
            repos: self.repos.deep_view(),
            uncovered: self.uncovered.deep_view(),
            pending: self.pending,
            scanned_at: self.scanned_at,
            needs_rebuild: self.needs_rebuild,
        }
    }
}

impl SeedV {
    /// A session without a kept scan.
    pub open spec fn empty() -> SeedV {
        SeedV {
            repos: Seq::empty(),
            uncovered: Seq::empty(),
            pending: false,
            scanned_at: None,
            needs_rebuild: false,
        }
    }

    /// What a session over `roots` takes from a kept scan: nothing, unless it is of
    /// the same roots. Whether a rebuild is needed depends on the version alone, as
    /// long as there is a repo.
    pub open spec fn of(cache: CacheV, roots: Seq<Seq<char>>) -> SeedV {
        if cache.roots != roots {
            SeedV::empty()
        } else {
            SeedV {
                repos: cache.repos,
                uncovered: match cache.uncovered {
                    Some(u) => u,
                    None => Seq::empty(),
                },
                pending: cache.uncovered is None && cache.repos.len() > 0,
                scanned_at: Some(cache.scanned_at),
                needs_rebuild: cache.version < SCAN_CACHE_VERSION && cache.repos.len() > 0,
            }
        }
    }
}

/// What a session over `roots` takes from the kept scan.
pub fn seed(cache: Option<ScanCache>, roots: &Vec<String>) -> (r: Seed)
    ensures
        r@ == match cache {
            Some(c) => SeedV::of(c@, roots.deep_view()),
            None => SeedV::empty(),
        },
{
    if let Some(c) = cache {
        if list::equal(&c.roots, roots) {
            let any = c.repos.len() > 0;
            assert(c.repos.len() == c@.repos.len());
            let pending = c.uncovered.is_none() && any;
            let uncovered = match c.uncovered {
                Some(u) => u,
                None => {
                    let none: Vec<String> = Vec::new();
                    assert(none.deep_view() =~= Seq::<Seq<char>>::empty());
                    none
                },
            };
            return Seed {
                repos: c.repos,
                uncovered,
                pending,
                scanned_at: Some(c.scanned_at),
                needs_rebuild: c.version < SCAN_CACHE_VERSION && any,
            };
        }
    }
    let r = Seed {
        repos: Vec::new(),
        uncovered: Vec::new(),
        pending: false,
        scanned_at: None,
        needs_rebuild: false,
    };
    assert(r@ =~= SeedV::empty());
    r
}

impl ScanCache {
    /// Notes the uncovered repos; returns whether that changed anything.
    pub fn note_uncovered(&mut self, uncovered: Vec<String>) -> (r: bool)
        ensures
            final(self)@ == (CacheV { uncovered: Some(uncovered.deep_view()), ..old(self)@ }),
            r == (old(self)@.uncovered != Some(uncovered.deep_view())),
    {
        let same = match &self.uncovered {
            Some(u) => list::equal(u, &uncovered),
            None => false,
        };
        if !same {
            self.uncovered = Some(uncovered);
        }
        !same
    }
}

/// A kept scan of the same roots is taken over whole; one of other roots is not used.
pub proof fn a_kept_scan_is_taken_over(cache: CacheV, roots: Seq<Seq<char>>)
    ensures
        ({
            let s = SeedV::of(cache, roots);
            &&& cache.roots == roots ==> {
                &&& s.repos == cache.repos
                &&& s.scanned_at == Some(cache.scanned_at)
                &&& cache.uncovered matches Some(u) ==> s.uncovered == u && !s.pending
                &&& cache.uncovered is None ==> s.uncovered.len() == 0
                &&& s.pending <==> cache.uncovered is None && cache.repos.len() > 0
                &&& s.needs_rebuild <==> cache.version < 2 && cache.repos.len() > 0
            }
            &&& cache.roots != roots ==> {
                &&& s.repos.len() == 0
                &&& s.uncovered.len() == 0
                &&& s.scanned_at is None
                &&& !s.pending
                &&& !s.needs_rebuild
            }
        }),
{
}

} // verus!
