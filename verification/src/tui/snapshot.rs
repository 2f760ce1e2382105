//! What the hub shows, gathered once. Times are recomputed per frame from it.

use vstd::prelude::*;

use crate::namemap::NameMap;
use crate::text::{join3, same, show2, two_digits};

verus! {

/// A moment with its local offset: seconds since the epoch, and seconds east of UTC.
#[derive(Clone, Copy, Debug, PartialEq, Eq, Structural)]
pub struct FireTime {
    pub unix: i64,
    pub offset: i32,
}

/// Seconds since local midnight.
pub open spec fn second_of_day(t: FireTime) -> int {
    (t.unix + t.offset) % 86_400
}

/// "HH:MM" of a moment, local.
pub open spec fn clock_text(t: FireTime) -> Seq<char> {
    two_digits((second_of_day(t) / 3600) as nat) + ":"@ + two_digits(
        (second_of_day(t) / 60 % 60) as nat,
    )
}

impl FireTime {
    /// Seconds since local midnight.
    pub fn second_of_day(self) -> (r: i64)
        ensures
            r == second_of_day(self),
            0 <= r < 86_400,
    {
        let s: i128 = self.unix as i128 + self.offset as i128;
        let q: i128 = s % 86_400;
        if q < 0 {
            (q + 86_400) as i64
        } else {
            q as i64
        }
    }

    /// Local hour, 0 to 23.
    pub fn hour(self) -> (r: u8)
        ensures
            r == second_of_day(self) / 3600,
            r < 24,
    {
        (self.second_of_day() / 3600) as u8
    }

    /// Local minute, 0 to 59.
    pub fn minute(self) -> (r: u8)
        ensures
            r == second_of_day(self) / 60 % 60,
            r < 60,
    {
        (self.second_of_day() / 60 % 60) as u8
    }
}

/// "HH:MM" of a moment, local, no seconds.
pub fn hhmm(t: FireTime) -> (r: String)
    ensures
        r@ == clock_text(t),
{
    join3(show2(t.hour() as u64).as_str(), ":", show2(t.minute() as u64).as_str())
}

/// One account row, with the raw fields that the views recompute from.
#[derive(Debug)]
pub struct AcctRow {
    pub alias: String,
    pub email: String,
    /// Organization name, if the account has one.
    pub org: Option<String>,
    pub is_active: bool,
    pub expires_at_ms: Option<i64>,
    pub has_refresh: bool,
    /// The later of last use and last priming, in epoch seconds: an approximate
    /// anchor for the usage window.
    pub window_start_epoch: Option<i64>,
}

/// What the account store reports of one account.
#[derive(Debug)]
pub struct AccountFacts {
    pub alias: String,
    pub email: String,
    pub org_name: Option<String>,
    pub is_active: bool,
    pub expires_at_ms: Option<i64>,
    pub has_refresh: bool,
    pub last_used: Option<i64>,
    pub last_primed: Option<i64>,
}

/// Whether a scheduled task only primes an account or runs something.
#[derive(Clone, Copy, Debug, PartialEq, Eq, Structural)]
pub enum Kind {
    Prime,
    Task,
}

/// One task row.
#[derive(Debug)]
pub struct TaskRow {
    pub id: String,
    pub kind: Kind,
    pub account: String,
    pub times: Vec<String>,
    pub next_fire: Option<FireTime>,
    /// The model the run will pass on, if one is pinned.
    pub model: Option<String>,
    pub last_status: Option<String>,
}

/// One scheduled account.
#[derive(Debug)]
pub struct PrimeRow {
    pub alias: String,
    pub next_fire: Option<FireTime>,
    pub last_primed: Option<i64>,
}

/// All data the hub renders.
#[derive(Debug)]
pub struct Snapshot {
    pub accounts: Vec<AcctRow>,
    pub cwd: String,
    /// The last component of `cwd`, if it has one.
    pub cwd_name: Option<String>,
    pub profiles_json_exists: bool,
    pub matched: Vec<String>,
    pub applied_count: usize,
    pub priming: Vec<PrimeRow>,
    /// Account alias to its prime times.
    pub schedule: NameMap<Vec<String>>,
    /// Plugin keys enabled in the global settings.
    pub global_enabled: Vec<String>,
    pub tasks: Vec<TaskRow>,
    /// The live crontab no longer matches the saved schedule.
    pub schedule_drift: bool,
    /// Managed plugins whose registry scope drifted off `user`.
    pub scope_drift: Vec<String>,
}

/// The times scheduled for `alias`.
pub open spec fn times_in(schedule: Map<Seq<char>, Vec<String>>, alias: Seq<char>) -> Option<
    Seq<Seq<char>>,
> {
    if schedule.contains_key(alias) {
        Some(schedule[alias].deep_view())
    } else {
        None
    }
}

/// What is known of the last priming of `alias`: the first row with that alias decides.
pub open spec fn primed_in(rows: Seq<PrimeRow>, alias: Seq<char>) -> Option<i64>
    decreases rows.len(),
{
    if rows.len() == 0 {
        None
    } else if rows[0].alias@ == alias {
        rows[0].last_primed
    } else {
        primed_in(rows.drop_first(), alias)
    }
}

/// The aliases of the accounts, in order.
pub open spec fn alias_list(accounts: Seq<AcctRow>) -> Seq<Seq<char>> {
    accounts.map_values(|a: AcctRow| a.alias@)
}

/// An account row made of what the store reports: the window starts at the later
/// of last use and last priming.
pub fn account_row(f: AccountFacts) -> (r: AcctRow)
    ensures
        r.alias@ == f.alias@,
        r.email@ == f.email@,
        r.org == f.org_name,
        r.is_active == f.is_active,
        r.expires_at_ms == f.expires_at_ms,
        r.has_refresh == f.has_refresh,
        r.window_start_epoch == match (f.last_used, f.last_primed) {
            (Some(x), Some(y)) => Some(if x >= y {
                x
            } else {
                y
            }),
            (Some(x), None) => Some(x),
            (None, y) => y,
        },
{
    let window_start_epoch = crate::tui::widgets::latest(f.last_used, f.last_primed);
    AcctRow {
        alias: f.alias,
        email: f.email,
        org: f.org_name,
        is_active: f.is_active,
        expires_at_ms: f.expires_at_ms,
        has_refresh: f.has_refresh,
        window_start_epoch,
    }
}

/// What reading the profiles configuration gave.
#[derive(Debug)]
pub enum ConfigRead {
    /// There is no file.
    Absent,
    /// There is a file, but it does not parse.
    Malformed,
    /// The matched profiles and the number of plugins applied to the working directory.
    Loaded { matched: Vec<String>, applied: usize },
}

/// The three profile fields of a snapshot: a malformed file counts as present and
/// matches nothing, so that every tab still opens.
pub fn profile_fields(c: ConfigRead) -> (r: (bool, Vec<String>, usize))
    ensures
        match c {
            ConfigRead::Absent => !r.0 && r.1@.len() == 0 && r.2 == 0,
            ConfigRead::Malformed => r.0 && r.1@.len() == 0 && r.2 == 0,
            ConfigRead::Loaded { matched, applied } => r.0 && r.1 == matched && r.2 == applied,
        },
{
    match c {
        ConfigRead::Absent => (false, Vec::new(), 0),
        ConfigRead::Malformed => (true, Vec::new(), 0),
        ConfigRead::Loaded { matched, applied } => (true, matched, applied),
    }
}

impl Snapshot {
    /// The times scheduled for `alias`, if it is in the schedule.
    pub fn schedule_times(&self, alias: &str) -> (r: Option<&Vec<String>>)
        ensures
            r == if self.schedule@.contains_key(alias@) {
                Some(&self.schedule@[alias@])
            } else {
                None
            },
            match r {
                Some(v) => times_in(self.schedule@, alias@) == Some(v.deep_view()),
                None => times_in(self.schedule@, alias@) is None,
            },
    {
        self.schedule.get(alias)
    }

    /// Epoch seconds of the last priming of `alias`, if known.
    pub fn last_primed(&self, alias: &str) -> (r: Option<i64>)
        ensures
            r == primed_in(self.priming@, alias@),
    {
        let mut i: usize = 0;
        assert(self.priming@.skip(0) =~= self.priming@);
        while i < self.priming.len()
            invariant
                i <= self.priming.len(),
                primed_in(self.priming@, alias@) == primed_in(self.priming@.skip(i as int), alias@),
            decreases self.priming.len() - i,
        {
            let ghost rest = self.priming@.skip(i as int);
            assert(rest[0] == self.priming@[i as int]);
            assert(rest.drop_first() =~= self.priming@.skip(i + 1));
            if same(self.priming[i].alias.as_str(), alias) {
                return self.priming[i].last_primed;
            }
            i += 1;
        }
        None
    }

    /// The aliases of the accounts, in order.
    pub fn aliases(&self) -> (r: Vec<String>)
        ensures
            r.deep_view() == alias_list(self.accounts@),
    {
        let mut out: Vec<String> = Vec::new();
        let mut i: usize = 0;
        while i < self.accounts.len()
            invariant
                i <= self.accounts.len(),
                out@.len() == i,
                forall|j: int| 0 <= j < i ==> (#[trigger] out[j])@ == self.accounts[j].alias@,
            decreases self.accounts.len() - i,
        {
            out.push(self.accounts[i].alias.clone());
            i += 1;
        }
        assert(out.deep_view() =~= alias_list(self.accounts@));
        out
    }
}

/// A moment is shown by its local hour and minute, whatever the day.
pub proof fn a_moment_shows_its_hour_and_minute(t: FireTime, day: int, h: int, m: int, s: int)
    requires
        0 <= h < 24,
        0 <= m < 60,
        0 <= s < 60,
        t.unix + t.offset == day * 86_400 + h * 3600 + m * 60 + s,
    ensures
        clock_text(t) == two_digits(h as nat) + ":"@ + two_digits(m as nat),
{
    let r: int = h * 3600 + m * 60 + s;
    assert((t.unix + t.offset) % 86_400 == r) by {
        assert((day * 86_400 + r) % 86_400 == r);
    }
    assert(r / 3600 == h);
    assert(r / 60 == h * 60 + m);
    assert((h * 60 + m) % 60 == m);
}

/// The last priming of an account is that of the first row with its alias.
pub proof fn the_first_row_gives_the_last_priming(rows: Seq<PrimeRow>, alias: Seq<char>)
    ensures
        (forall|i: int| 0 <= i < rows.len() ==> (#[trigger] rows[i]).alias@ != alias) ==> primed_in(
            rows,
            alias,
        ) is None,
        forall|i: int|
            0 <= i < rows.len() && (#[trigger] rows[i]).alias@ == alias && (forall|j: int|
                0 <= j < i ==> (#[trigger] rows[j]).alias@ != alias) ==> primed_in(rows, alias)
                == rows[i].last_primed,
    decreases rows.len(),
{
    if rows.len() > 0 {
        let t = rows.drop_first();
        the_first_row_gives_the_last_priming(t, alias);
        if rows[0].alias@ != alias {
            assert forall|i: int|
                0 <= i < rows.len() && (#[trigger] rows[i]).alias@ == alias && (forall|j: int|
                    0 <= j < i ==> (#[trigger] rows[j]).alias@ != alias) implies primed_in(
                rows,
                alias,
            ) == rows[i].last_primed by {
                assert(t[i - 1] == rows[i]);
                assert forall|j: int| 0 <= j < i - 1 implies (#[trigger] t[j]).alias@ != alias by {
                    assert(rows[j + 1].alias@ != alias);
                }
            }
            if forall|i: int| 0 <= i < rows.len() ==> (#[trigger] rows[i]).alias@ != alias {
                assert forall|i: int| 0 <= i < t.len() implies (#[trigger] t[i]).alias@ != alias by {
                    assert(rows[i + 1].alias@ != alias);
                }
            }
        }
    }
}

} // verus!
