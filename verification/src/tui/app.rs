//! The hub: which tab has the keys, what is under way, and what a key or a finished
//! job leads to. It names the work to be done; the owner does it and reports back.

use vstd::prelude::*;

use crate::list;
use crate::profile::config::{Profiles, ProfilesV};
use crate::profile::discover::{text_of, texts_of, Inventory};
use crate::profile::scan_cache::{seed, ScanCache, SeedV};
use crate::text::{join2, join3, owned};
use crate::tui::accounts::AccountsView;
use crate::tui::ctx::AppCtx;
use crate::tui::job::{
    Detached, DetachedKind, IndexOutcome, IndexV, Job, JobResult, ResultV, ScanOutcome, ScanV,
};
use crate::tui::key::{down, next_in, prev_in, up, KeyCode, KeyEvent};
use crate::tui::overview::Overview;
use crate::tui::profile::tab::{ProfileView, TabV};
use crate::tui::schedule::ScheduleView;
use crate::tui::snapshot::Snapshot;
use crate::tui::tasks::TasksView;
use crate::tui::view::{Action, ActionV, TabView};
use crate::tui::widgets::{seconds_of, whole_seconds};
use crate::tui::work::{label, label_of};
use crate::tui::{TAB_ACCOUNTS, TAB_COUNT, TAB_OVERVIEW, TAB_PROFILE, TAB_SCHEDULE};

verus! {

/// How long a spinner stays at least, so that quick work does not flash.
pub const MIN_SPINNER_MS: i64 = 2000;

/// How long a toast stays.
pub const TOAST_MS: i64 = 4000;

/// How long a frame stays while something moves.
pub const BUSY_FRAME_MS: u64 = 100;

/// How long a frame stays while nothing does: the clock goes on.
pub const IDLE_FRAME_MS: u64 = 1000;

/// The hub.
#[derive(Debug)]
pub struct App {
    pub overview: Overview,
    pub accounts: AccountsView,
    pub schedule: ScheduleView,
    pub profile: ProfileView,
    pub tasks: TasksView,
    pub active: usize,
    pub should_quit: bool,
    pub relaunch: bool,
    pub toast: Option<String>,
    /// When the toast was set, in epoch milliseconds.
    pub toast_at_ms: Option<i64>,
    pub frame: u64,
    /// The work that holds the screen.
    pub job: Option<Job>,
    /// The work that goes on without holding it.
    pub detached: Vec<Detached>,
    pub ctx: AppCtx,
    pub snap: Snapshot,
}

/// The contents of work that holds the screen.
#[verifier::ext_equal]
pub struct JobV {
    pub label: Seq<char>,
    pub started_ms: i64,
}

/// The hub without its tabs.
#[verifier::ext_equal]
pub struct ShellV {
    pub active: int,
    pub should_quit: bool,
    pub relaunch: bool,
    pub toast: Option<Seq<char>>,
    pub toast_at_ms: Option<i64>,
    pub frame: u64,
    pub job: Option<JobV>,
    pub detached: Seq<Detached>,
}

/// What the owner has to do.
#[derive(Debug)]
pub enum Effect {
    Nothing,
    /// Read the snapshot anew.
    Reload,
    /// Move the work that held the screen to the end of the detached work.
    Detach,
    /// Start work that holds the screen.
    Run(Action),
    /// Start detached work.
    RunDetached(Action),
}

/// The contents of an effect.
#[verifier::ext_equal]
pub enum EffectV {
    Nothing,
    Reload,
    Detach,
    Run(ActionV),
    RunDetached(ActionV),
}

impl View for Effect {
    type V = EffectV;

    open spec fn view(&self) -> EffectV {
        match self {
            Effect::Nothing => EffectV::Nothing,
            Effect::Reload => EffectV::Reload,
            Effect::Detach => EffectV::Detach,
            Effect::Run(a) => EffectV::Run(a@),
            Effect::RunDetached(a) => EffectV::RunDetached(a@),
        }
    }
}

/// What a key leads to. After a key that a tab had, the tab's edits are to be saved.
#[derive(Debug)]
pub struct Step {
    pub effect: Effect,
    pub save: bool,
}

/// What the owner found when it looked after work.
#[derive(Debug)]
pub enum Poll {
    Pending,
    Done(JobResult),
    /// The worker is gone, and left no result.
    Died,
}

/// The contents of a poll.
#[verifier::ext_equal]
pub enum PollV {
    Pending,
    Done(ResultV),
    Died,
}

impl View for Poll {
    type V = PollV;

    open spec fn view(&self) -> PollV {
        match self {
            Poll::Pending => PollV::Pending,
            Poll::Done(r) => PollV::Done(r@),
            Poll::Died => PollV::Died,
        }
    }
}

impl DeepView for Poll {
    type V = PollV;

    open spec fn deep_view(&self) -> PollV {
        self@
    }
}

impl ShellV {
    /// The shell with a message.
    pub open spec fn told(self, msg: Seq<char>, now_ms: i64) -> ShellV {
        ShellV { toast: Some(msg), toast_at_ms: Some(now_ms), ..self }
    }

    /// The shell with a message, unless it is empty.
    pub open spec fn told_any(self, msg: Seq<char>, now_ms: i64) -> ShellV {
        if msg.len() == 0 {
            self
        } else {
            self.told(msg, now_ms)
        }
    }

    /// The shell without a message.
    pub open spec fn quiet(self) -> ShellV {
        ShellV { toast: None, toast_at_ms: None, ..self }
    }

    /// What an action leads to. `can_run` says whether the assistant can be run.
    pub open spec fn acted(self, a: ActionV, ctx: AppCtx, can_run: bool, now_ms: i64) -> (
        ShellV,
        EffectV,
    ) {
        match a {
            ActionV::Quit => (ShellV { should_quit: true, ..self }, EffectV::Nothing),
            ActionV::Refresh => (self, EffectV::Reload),
            ActionV::RelaunchClaude => (ShellV { relaunch: true, ..self }, EffectV::Nothing),
            ActionV::IndexAtoms { .. } => (
                ShellV {
                    detached: self.detached.push(Detached { kind: DetachedKind::IndexAtoms }),
                    ..self
                },
                EffectV::RunDetached(a),
            ),
            _ => if a is DraftWithClaude && !can_run {
                (
                    self.told(ctx.program@ + " not found — using scan draft"@, now_ms),
                    EffectV::Nothing,
                )
            } else {
                (
                    ShellV {
                        job: Some(
                            JobV {
                                label: label_of(a, ctx.cfg_path@, ctx.assistant@)->0,
                                started_ms: (whole_seconds(now_ms as int) * 1000) as i64,
                            },
                        ),
                        ..self
                    },
                    EffectV::Run(a),
                )
            },
        }
    }

    /// What a key leads to while work holds the screen: Esc lets it go on without,
    /// q quits, and every other key is swallowed.
    pub open spec fn waiting(self, code: KeyCode) -> (ShellV, EffectV) {
        if code == KeyCode::Esc {
            (
                ShellV {
                    job: None,
                    detached: self.detached.push(Detached { kind: DetachedKind::Generic }),
                    ..self
                },
                EffectV::Detach,
            )
        } else if code == KeyCode::Char('q') {
            (ShellV { should_quit: true, ..self }, EffectV::Nothing)
        } else {
            (self, EffectV::Nothing)
        }
    }

    /// What a shortcut of the hub leads to; none for another key.
    pub open spec fn shortcut(
        self,
        code: KeyCode,
        program: Seq<char>,
        can_run: bool,
        now_ms: i64,
    ) -> Option<(ShellV, EffectV)> {
        if code == KeyCode::Char('q') || code == KeyCode::Esc {
            Some((ShellV { should_quit: true, ..self }, EffectV::Nothing))
        } else if code == KeyCode::Char('r') {
            Some((self, EffectV::Reload))
        } else if code == KeyCode::Char('R') {
            Some(
                (
                    if can_run {
                        ShellV { relaunch: true, ..self }
                    } else {
                        self.told("`"@ + program + "` not on PATH — cannot relaunch"@, now_ms)
                    },
                    EffectV::Nothing,
                ),
            )
        } else if code == KeyCode::Tab {
            Some(
                (
                    ShellV { active: next_in(self.active, TAB_COUNT as int), ..self },
                    EffectV::Nothing,
                ),
            )
        } else if code == KeyCode::BackTab {
            Some(
                (
                    ShellV { active: prev_in(self.active, TAB_COUNT as int), ..self },
                    EffectV::Nothing,
                ),
            )
        } else {
            None
        }
    }
}

/// Tab, then BackTab, comes back to the same tab.
pub proof fn tab_and_backtab_undo_each_other(
    s: ShellV,
    program: Seq<char>,
    can_run: bool,
    now_ms: i64,
)
    requires
        0 <= s.active < TAB_COUNT,
    ensures
        ({
            let (t, _) = s.shortcut(KeyCode::Tab, program, can_run, now_ms)->0;
            t.shortcut(KeyCode::BackTab, program, can_run, now_ms) == Some((s, EffectV::Nothing))
        }),
{
    crate::tui::key::down_then_up_is_identity(s.active, TAB_COUNT as int);
}

/// Work that holds the screen swallows every key but Esc and q.
pub proof fn waiting_swallows_keys(s: ShellV, code: KeyCode)
    requires
        code != KeyCode::Esc,
        code != KeyCode::Char('q'),
    ensures
        s.waiting(code) == (s, EffectV::Nothing),
{
}

/// Index batches never hold the screen.
pub proof fn index_batches_never_hold_the_screen(
    s: ShellV,
    atoms: Seq<Seq<char>>,
    repos: Seq<Seq<char>>,
    ctx: AppCtx,
    can_run: bool,
    now_ms: i64,
)
    ensures
        s.acted(ActionV::IndexAtoms { atoms, repos }, ctx, can_run, now_ms).0.job == s.job,
{
}

/// The drafts among finished work, in order.
pub open spec fn drafts_in(ps: Seq<PollV>) -> Seq<ProfilesV>
    decreases ps.len(),
{
    if ps.len() == 0 {
        Seq::empty()
    } else {
        let before = drafts_in(ps.drop_last());
        match ps.last() {
            PollV::Done(r) => match r.draft {
                Some(p) => before.push(p),
                None => before,
            },
            _ => before,
        }
    }
}

/// The scans among finished work, in order.
pub open spec fn scans_in(ps: Seq<PollV>) -> Seq<ScanV>
    decreases ps.len(),
{
    if ps.len() == 0 {
        Seq::empty()
    } else {
        let before = scans_in(ps.drop_last());
        match ps.last() {
            PollV::Done(r) => match r.scan {
                Some(o) => before.push(o),
                None => before,
            },
            _ => before,
        }
    }
}

/// The sets of uncovered repos among finished work, in order.
pub open spec fn uncovered_in(ps: Seq<PollV>) -> Seq<Seq<Seq<char>>>
    decreases ps.len(),
{
    if ps.len() == 0 {
        Seq::empty()
    } else {
        let before = uncovered_in(ps.drop_last());
        match ps.last() {
            PollV::Done(r) => match r.uncovered {
                Some(u) => before.push(u),
                None => before,
            },
            _ => before,
        }
    }
}

/// The answered batches among finished work, in order.
pub open spec fn indexes_in(ps: Seq<PollV>) -> Seq<IndexV>
    decreases ps.len(),
{
    if ps.len() == 0 {
        Seq::empty()
    } else {
        let before = indexes_in(ps.drop_last());
        match ps.last() {
            PollV::Done(r) => match r.index {
                Some(o) => before.push(o),
                None => before,
            },
            _ => before,
        }
    }
}

/// The messages of finished work, in order.
pub open spec fn toasts_in(ps: Seq<PollV>) -> Seq<Seq<char>>
    decreases ps.len(),
{
    if ps.len() == 0 {
        Seq::empty()
    } else {
        let before = toasts_in(ps.drop_last());
        match ps.last() {
            PollV::Done(r) => before.push(r.toast),
            _ => before,
        }
    }
}

/// Whether finished work asks for a reload.
pub open spec fn reload_in(ps: Seq<PollV>) -> bool {
    exists|i: int| 0 <= i < ps.len() && asks_reload(#[trigger] ps[i])
}

/// Whether work is finished and asks for a reload.
pub open spec fn asks_reload(p: PollV) -> bool {
    p matches PollV::Done(r) && r.needs_refresh
}

/// Whether work of this kind died.
pub open spec fn died(ps: Seq<PollV>, ds: Seq<Detached>, kind: DetachedKind) -> bool {
    exists|i: int| 0 <= i < ps.len() && #[trigger] ps[i] is Died && ds[i].kind == kind
}

/// The detached work that goes on.
pub open spec fn still_pending(ps: Seq<PollV>, ds: Seq<Detached>) -> Seq<Detached>
    decreases ps.len(),
{
    if ps.len() == 0 {
        Seq::empty()
    } else {
        let before = still_pending(ps.drop_last(), ds);
        if ps.last() is Pending {
            before.push(ds[ps.len() - 1])
        } else {
            before
        }
    }
}

/// The tab with drafts taken over, one after the other.
pub open spec fn with_drafts(v: TabV, ds: Seq<ProfilesV>) -> TabV
    decreases ds.len(),
{
    if ds.len() == 0 {
        v
    } else {
        TabV {
            working: ds.last(),
            ai_offer: false,
            ..with_drafts(v, ds.drop_last())
        }.recovered()
    }
}

/// The tab with scans taken over, one after the other.
pub open spec fn with_scans(v: TabV, ss: Seq<ScanV>) -> TabV
    decreases ss.len(),
{
    if ss.len() == 0 {
        v
    } else {
        TabV {
            scanned_at: Some(ss.last().scanned_at),
            rebuilding: false,
            ..with_scans(v, ss.drop_last())
        }.scanned(ss.last())
    }
}

/// The tab with sets of uncovered repos taken over; the last one stands.
pub open spec fn with_uncovered(v: TabV, us: Seq<Seq<Seq<char>>>) -> TabV {
    if us.len() == 0 {
        v
    } else {
        TabV { uncovered: us.last(), ..v }
    }
}

/// The tab with answered batches taken over, one after the other.
pub open spec fn with_indexes(v: TabV, xs: Seq<IndexV>) -> TabV
    decreases xs.len(),
{
    if xs.len() == 0 {
        v
    } else {
        with_indexes(v, xs.drop_last()).indexed(xs.last())
    }
}

/// The Profile tab with everything taken over that finished work hands back:
/// drafts, scans, uncovered repos and answers, in this order. They belong to the
/// Profile tab whichever tab is shown.
pub open spec fn delivered(v: TabV, ps: Seq<PollV>) -> TabV {
    with_indexes(
        with_uncovered(
            with_scans(with_drafts(v, drafts_in(ps)), scans_in(ps)),
            uncovered_in(ps),
        ),
        indexes_in(ps),
    )
}

/// The Profile tab after looking after the detached work: what died is recovered from.
pub open spec fn collected(v: TabV, ps: Seq<PollV>, ds: Seq<Detached>) -> TabV {
    let a = delivered(v, ps);
    let b = if died(ps, ds, DetachedKind::IndexAtoms) {
        a.index_failed()
    } else {
        a
    };
    if died(ps, ds, DetachedKind::Rebuild) {
        TabV { rebuilding: false, ..b }
    } else {
        b
    }
}

/// The messages after looking after the detached work.
pub open spec fn collected_toasts(ps: Seq<PollV>, ds: Seq<Detached>) -> Seq<Seq<char>> {
    let a = toasts_in(ps);
    let b = if died(ps, ds, DetachedKind::IndexAtoms) {
        a.push("indexing aborted"@)
    } else {
        a
    };
    if died(ps, ds, DetachedKind::Rebuild) {
        b.push("index rebuild aborted · press s to rescan"@)
    } else {
        b
    }
}

impl ShellV {
    /// The shell after a run of messages: the last that is not empty stands.
    pub open spec fn told_all(self, msgs: Seq<Seq<char>>, now_ms: i64) -> ShellV
        decreases msgs.len(),
    {
        if msgs.len() == 0 {
            self
        } else {
            self.told_all(msgs.drop_last(), now_ms).told_any(msgs.last(), now_ms)
        }
    }

    /// The shell after looking after the work that holds the screen.
    pub open spec fn after_poll(self, p: PollV, now_ms: i64) -> ShellV {
        match p {
            PollV::Pending => self,
            PollV::Done(r) => ShellV { job: None, ..self }.told_any(r.toast, now_ms),
            PollV::Died => ShellV { job: None, ..self }.told("operation aborted"@, now_ms),
        }
    }
}

impl ShellV {
    /// Whether work holds the screen whose spinner has not been up for long enough.
    pub open spec fn holds_back(self, at_ms: i64) -> bool {
        self.job matches Some(j) && at_ms - j.started_ms < MIN_SPINNER_MS
    }

    /// The shell after a round of looking after all work at `at_ms`: `p` is what the work
    /// that holds the screen brought, `ps` what the detached work brought. Within the
    /// minimum time of the spinner `p` is left where it is.
    pub open spec fn after_round(self, p: PollV, ps: Seq<PollV>, at_ms: i64, now_ms: i64) -> ShellV {
        let s = if self.job is None || self.holds_back(at_ms) {
            self
        } else {
            self.after_poll(p, now_ms)
        };
        ShellV { detached: still_pending(ps, self.detached), ..s }.told_all(
            collected_toasts(ps, self.detached),
            now_ms,
        )
    }

    /// The Profile tab after the same round.
    pub open spec fn tab_after_round(
        self,
        v: TabV,
        p: PollV,
        ps: Seq<PollV>,
        at_ms: i64,
    ) -> TabV {
        collected(
            if self.job is None || self.holds_back(at_ms) {
                v
            } else {
                delivered(v, seq![p])
            },
            ps,
            self.detached,
        )
    }
}

proof fn lemma_messages_keep_work(s: ShellV, msgs: Seq<Seq<char>>, now_ms: i64)
    ensures
        s.told_all(msgs, now_ms).job == s.job,
        s.told_all(msgs, now_ms).detached == s.detached,
    decreases msgs.len(),
{
    if msgs.len() > 0 {
        lemma_messages_keep_work(s, msgs.drop_last(), now_ms);
    }
}

/// The spinner is held for its minimum time: until then, whatever the work brought, the
/// work stays, nothing of its result is taken over, and only detached work is told of.
pub proof fn spinner_is_held(
    s: ShellV,
    v: TabV,
    p: PollV,
    ps: Seq<PollV>,
    at_ms: i64,
    now_ms: i64,
)
    requires
        s.holds_back(at_ms),
    ensures
        s.after_round(p, ps, at_ms, now_ms).job == s.job,
        s.after_round(p, ps, at_ms, now_ms) == s.after_round(PollV::Pending, ps, at_ms, now_ms),
        s.tab_after_round(v, p, ps, at_ms) == collected(v, ps, s.detached),
        s.detached.len() == 0 && ps.len() == 0 ==> s.after_round(p, ps, at_ms, now_ms) == s
            && s.tab_after_round(v, p, ps, at_ms) == v,
{
    lemma_messages_keep_work(
        ShellV { detached: still_pending(ps, s.detached), ..s },
        collected_toasts(ps, s.detached),
        now_ms,
    );
    if s.detached.len() == 0 && ps.len() == 0 {
        assert(still_pending(ps, s.detached) =~= s.detached);
        assert(drafts_in(ps).len() == 0);
    }
}

/// Once the minimum time is over, a result that was held back is taken over: the screen
/// is free again, and its message stands.
pub proof fn held_result_lands(s: ShellV, v: TabV, r: ResultV, at_ms: i64, now_ms: i64)
    requires
        s.job is Some,
        !s.holds_back(at_ms),
        s.detached.len() == 0,
    ensures
        ({
            let post = s.after_round(PollV::Done(r), Seq::empty(), at_ms, now_ms);
            &&& post.job is None
            &&& post.toast == if r.toast.len() > 0 {
                Some(r.toast)
            } else {
                s.toast
            }
            &&& s.tab_after_round(v, PollV::Done(r), Seq::empty(), at_ms) == delivered(
                v,
                seq![PollV::Done(r)],
            )
        }),
{
    assert(drafts_in(Seq::empty()).len() == 0);
}

/// A job that died lets the keys go again, and says so.
pub proof fn dead_job_frees_the_screen(s: ShellV, now_ms: i64)
    ensures
        s.after_poll(PollV::Died, now_ms).job is None,
        s.after_poll(PollV::Died, now_ms).toast is Some,
{
}

/// What a session starts from.
#[derive(Debug)]
pub struct Startup {
    pub inv: Inventory,
    /// The configuration, if it is there and can be read.
    pub config: Option<Profiles>,
    /// Whether there is a configuration file at all.
    pub config_existed: bool,
    pub claude_available: bool,
    /// What to scan when the configuration names no roots.
    pub default_root: String,
    pub cache: Option<ScanCache>,
}

/// The configuration a session starts with.
pub open spec fn starting_config(s: Startup) -> ProfilesV {
    match s.config {
        Some(p) => if s.config_existed {
            p@
        } else {
            ProfilesV::empty()
        },
        None => ProfilesV::empty(),
    }
}

/// The scan roots a session starts with.
pub open spec fn starting_roots(s: Startup) -> Seq<Seq<char>> {
    if starting_config(s).scan_roots.len() == 0 {
        seq![s.default_root@]
    } else {
        starting_config(s).scan_roots
    }
}

/// What a session takes from the kept scan.
pub open spec fn starting_seed(s: Startup) -> SeedV {
    match s.cache {
        Some(c) => SeedV::of(c@, starting_roots(s)),
        None => SeedV::empty(),
    }
}

/// The Profile tab a session starts with.
pub open spec fn starting_tab(s: Startup) -> TabV {
    let d = starting_seed(s);
    let made = TabV::made(
        s.inv@,
        starting_config(s),
        s.claude_available,
        !s.config_existed,
        Seq::empty(),
    );
    TabV {
        scan_roots: starting_roots(s),
        scanned_at: d.scanned_at,
        inv: crate::profile::discover::InventoryV { repos: d.repos, ..made.inv },
        uncovered: d.uncovered,
        saved_uncovered: d.uncovered,
        uncovered_pending: d.pending,
        rebuilding: d.needs_rebuild,
        ..made
    }
}

impl App {
    /// The tab index is one of the five, and the tabs are in shape.
    pub open spec fn wf(self) -> bool {
        &&& self.active < TAB_COUNT
        &&& self.overview.ok()
        &&& self.accounts.ok()
        &&& self.schedule.ok()
        &&& self.profile.ok()
        &&& self.tasks.ok()
    }

    /// The hub without its tabs.
    pub open spec fn shell(self) -> ShellV {
        ShellV {
            active: self.active as int,
            should_quit: self.should_quit,
            relaunch: self.relaunch,
            toast: text_of(self.toast),
            toast_at_ms: self.toast_at_ms,
            frame: self.frame,
            job: match self.job {
                Some(j) => Some(JobV { label: j.label@, started_ms: j.started_ms }),
                None => None,
            },
            detached: self.detached@,
        }
    }

    /// Whether the tabs other than Profile, and what they read, are the same.
    pub open spec fn keeps_others(self, o: App) -> bool {
        &&& self.overview == o.overview
        &&& self.accounts == o.accounts
        &&& self.schedule == o.schedule
        &&& self.tasks == o.tasks
        &&& self.ctx == o.ctx
        &&& self.snap == o.snap
    }

    /// Whether all tabs, and what they read, are the same.
    pub open spec fn keeps_tabs(self, o: App) -> bool {
        self.keeps_others(o) && self.profile == o.profile
    }

    /// Whether the tab that is shown keeps `code` to itself.
    pub open spec fn claims(self, code: KeyCode) -> bool {
        if self.active == TAB_OVERVIEW {
            self.overview.claims(code)
        } else if self.active == TAB_ACCOUNTS {
            self.accounts.claims(code)
        } else if self.active == TAB_SCHEDULE {
            self.schedule.claims(code)
        } else if self.active == TAB_PROFILE {
            TabView::claims(&self.profile, code)
        } else {
            self.tasks.claims(code)
        }
    }

    /// Whether the tab that is shown takes the key, goes over into that of `post`, and
    /// asks for `r`, while the other tabs stay.
    pub open spec fn tab_steps(self, post: App, code: KeyCode, r: Option<Action>) -> bool {
        &&& self.ctx == post.ctx
        &&& self.snap == post.snap
        &&& if self.active == TAB_OVERVIEW {
            self.overview.steps(post.overview, code, self.ctx, self.snap, r)
        } else {
            self.overview == post.overview
        }
        &&& if self.active == TAB_ACCOUNTS {
            self.accounts.steps(post.accounts, code, self.ctx, self.snap, r)
        } else {
            self.accounts == post.accounts
        }
        &&& if self.active == TAB_SCHEDULE {
            self.schedule.steps(post.schedule, code, self.ctx, self.snap, r)
        } else {
            self.schedule == post.schedule
        }
        &&& if self.active == TAB_PROFILE {
            self.profile.steps(post.profile, code, self.ctx, self.snap, r)
        } else {
            self.profile == post.profile
        }
        &&& if self.active > TAB_PROFILE {
            self.tasks.steps(post.tasks, code, self.ctx, self.snap, r)
        } else {
            self.tasks == post.tasks
        }
    }

    /// Opens the hub on `initial_tab`, or on the last tab if there is no such one.
    /// Nothing is scanned: the repos come from the kept scan. An index of an older
    /// version is to be built again in the background, by the work returned.
    pub fn new(ctx: AppCtx, snap: Snapshot, start: Startup, initial_tab: usize) -> (r: (
        App,
        Option<Action>,
    ))
        ensures
            r.0.wf(),
            r.0.ctx == ctx,
            r.0.snap == snap,
            r.0.profile@ == starting_tab(start),
            r.0.accounts.cursor == 0,
            r.0.accounts.modal is Closed,
            r.0.schedule.cursor == 0,
            r.0.schedule.grid is None,
            r.0.schedule.working is None,
            r.0.tasks.selected == 0,
            !r.0.tasks.confirm_delete,
            r.0.shell() == (ShellV {
                active: if initial_tab < TAB_COUNT {
                    initial_tab as int
                } else {
                    TAB_COUNT - 1
                },
                should_quit: false,
                relaunch: false,
                toast: None,
                toast_at_ms: None,
                frame: 0,
                job: None,
                detached: if starting_seed(start).needs_rebuild {
                    seq![Detached { kind: DetachedKind::Rebuild }]
                } else {
                    Seq::empty()
                },
            }),
            match r.1 {
                Some(a) => starting_seed(start).needs_rebuild && a@ == (ActionV::Rescan {
                    roots: starting_roots(start),
                    working: starting_config(start),
                }),
                None => !starting_seed(start).needs_rebuild,
            },
    {
        let ghost s0 = start;
        let working = match start.config {
            Some(p) => if start.config_existed {
                p
            } else {
                Profiles::default()
            },
            None => Profiles::default(),
        };
        assert(working.scan_roots.len() == working@.scan_roots.len());
        let roots = if working.scan_roots.len() == 0 {
            let mut one: Vec<String> = Vec::new();
            one.push(start.default_root);
            assert(one.deep_view() =~= seq![s0.default_root@]);
            one
        } else {
            crate::list::copy(&working.scan_roots)
        };
        let d = seed(start.cache, &roots);
        let mut detached: Vec<Detached> = Vec::new();
        let rebuild = if d.needs_rebuild {
            detached.push(Detached { kind: DetachedKind::Rebuild });
            Some(
                Action::Rescan { roots: crate::list::copy(&roots), working: working.clone() },
            )
        } else {
            None
        };
        let profile = ProfileView::new(
            start.inv,
            working,
            start.claude_available,
            !start.config_existed,
            Vec::new(),
        ).with_scan_roots(roots).with_scanned_at(d.scanned_at).with_scan_repos(
            d.repos,
        ).with_uncovered(d.uncovered).with_uncovered_pending(d.pending).with_index_rebuilding(
            d.needs_rebuild,
        );
        assert(profile@ =~= starting_tab(s0));
        let app = App {
            overview: Overview::new(),
            accounts: AccountsView::new(),
            schedule: ScheduleView::new(),
            profile,
            tasks: TasksView::new(),
            active: if initial_tab < TAB_COUNT {
                initial_tab
            } else {
                TAB_COUNT - 1
            },
            should_quit: false,
            relaunch: false,
            toast: None,
            toast_at_ms: None,
            frame: 0,
            job: None,
            detached,
            ctx,
            snap,
        };
        assert(app.detached@ =~= if starting_seed(s0).needs_rebuild {
            seq![Detached { kind: DetachedKind::Rebuild }]
        } else {
            Seq::empty()
        });
        (app, rebuild)
    }

    /// The tab that is shown.
    pub fn active_index(&self) -> (r: usize)
        ensures
            r == self.active,
    {
        self.active
    }

    /// Whether the tab that is shown keeps `code` to itself.
    pub fn active_claims_key(&self, code: KeyCode) -> (r: bool)
        ensures
            r == self.claims(code),
    {
        if self.active == TAB_OVERVIEW {
            self.overview.claims_key(code)
        } else if self.active == TAB_ACCOUNTS {
            self.accounts.claims_key(code)
        } else if self.active == TAB_SCHEDULE {
            self.schedule.claims_key(code)
        } else if self.active == TAB_PROFILE {
            self.profile.claims_key(code)
        } else {
            self.tasks.claims_key(code)
        }
    }

    /// Advances the animation by a frame; the counter wraps.
    pub fn tick(&mut self)
        ensures
            final(self).keeps_tabs(*old(self)),
            final(self).shell() == (ShellV {
                frame: old(self).frame.wrapping_add(1),
                ..old(self).shell()
            }),
    {
        self.frame = self.frame.wrapping_add(1);
    }

    /// Whether the panel has to be drawn continuously.
    pub fn animating(&self) -> (r: bool)
        ensures
            r == (self.shell().job is Some || self.shell().toast is Some
                || self.shell().detached.len() > 0),
    {
        self.job.is_some() || self.toast.is_some() || self.detached.len() > 0
    }

    /// Shows a message.
    pub fn set_toast(&mut self, msg: String, now_ms: i64)
        requires
            old(self).wf(),
        ensures
            final(self).wf(),
            final(self).keeps_tabs(*old(self)),
            final(self).shell() == old(self).shell().told(msg@, now_ms),
    {
        self.toast = Some(msg);
        self.toast_at_ms = Some(now_ms);
    }

    /// How long to wait for a key before the next frame is drawn.
    pub fn frame_ms(&self) -> (r: u64)
        ensures
            r == if self.job is Some || self.toast is Some || self.detached.len() > 0 {
                BUSY_FRAME_MS
            } else {
                IDLE_FRAME_MS
            },
    {
        if self.animating() {
            BUSY_FRAME_MS
        } else {
            IDLE_FRAME_MS
        }
    }

    /// Takes over a snapshot read anew.
    pub fn accept_snapshot(&mut self, snap: Snapshot)
        requires
            old(self).wf(),
        ensures
            final(self).wf(),
            final(self).snap == snap,
            final(self).overview == old(self).overview,
            final(self).accounts == old(self).accounts,
            final(self).schedule == old(self).schedule,
            final(self).profile == old(self).profile,
            final(self).tasks == old(self).tasks,
            final(self).ctx == old(self).ctx,
            final(self).shell() == old(self).shell(),
    {
        self.snap = snap;
    }

    /// The configuration and the uncovered repos to save, each if it changed. Only the
    /// Profile tab has any, and only while it is shown.
    pub fn unsaved(&mut self) -> (r: (Option<Profiles>, Option<Vec<String>>))
        requires
            old(self).wf(),
        ensures
            final(self).wf(),
            final(self).keeps_others(*old(self)),
            final(self).shell() == old(self).shell(),
            ({
                let v = old(self).profile@;
                if old(self).active == TAB_PROFILE {
                    &&& final(self).profile@ == v.config_saved().uncovered_saved()
                    &&& match r.0 {
                        Some(p) => v.config_to_save() == Some(p@),
                        None => v.config_to_save() is None,
                    }
                    &&& texts_of(r.1) == v.uncovered_to_save()
                } else {
                    r.0 is None && r.1 is None && final(self).profile == old(self).profile
                }
            }),
    {
        if self.active == TAB_PROFILE {
            let cfg = self.profile.dirty_config();
            let uncovered = self.profile.dirty_uncovered();
            (cfg, uncovered)
        } else {
            (None, None)
        }
    }

    /// Acts on what a tab asks for. `can_run` says whether the assistant can be run.
    pub fn apply_action(&mut self, action: Action, can_run: bool, now_ms: i64) -> (r: Effect)
        requires
            old(self).wf(),
        ensures
            final(self).wf(),
            final(self).keeps_tabs(*old(self)),
            (final(self).shell(), r@) == old(self).shell().acted(
                action@,
                old(self).ctx,
                can_run,
                now_ms,
            ),
    {
        let ghost s = self.shell();
        let r = match action {
            Action::Quit => {
                self.should_quit = true;
                Effect::Nothing
            },
            Action::Refresh => Effect::Reload,
            Action::RelaunchClaude => {
                self.relaunch = true;
                Effect::Nothing
            },
            Action::IndexAtoms { atoms, repos } => {
                self.detached.push(Detached { kind: DetachedKind::IndexAtoms });
                Effect::RunDetached(Action::IndexAtoms { atoms, repos })
            },
            other => {
                let drafts = match &other {
                    Action::DraftWithClaude { .. } => true,
                    _ => false,
                };
                if drafts && !can_run {
                    self.toast = Some(
                        join2(self.ctx.program.as_str(), " not found — using scan draft"),
                    );
                    self.toast_at_ms = Some(now_ms);
                    Effect::Nothing
                } else {
                    let name = label(
                        &other,
                        self.ctx.cfg_path.as_str(),
                        self.ctx.assistant.as_str(),
                    );
                    if let Some(name) = name {
                        let secs: i64 = seconds_of(now_ms);
                        assert(-9_223_372_036_854_775 <= secs <= 9_223_372_036_854_775);
                        self.job = Some(Job { label: name, started_ms: secs * 1000 });
                    }
                    Effect::Run(other)
                }
            },
        };
        assert(self.shell() =~= s.acted(action@, self.ctx, can_run, now_ms).0);
        r
    }

    fn tab_key(&mut self, key: KeyEvent) -> (r: Option<Action>)
        requires
            old(self).wf(),
        ensures
            final(self).wf(),
            final(self).shell() == old(self).shell(),
            old(self).tab_steps(*final(self), key.code, r),
    {
        if self.active == TAB_OVERVIEW {
            self.overview.on_key(key, &self.ctx, &self.snap)
        } else if self.active == TAB_ACCOUNTS {
            self.accounts.on_key(key, &self.ctx, &self.snap)
        } else if self.active == TAB_SCHEDULE {
            self.schedule.on_key(key, &self.ctx, &self.snap)
        } else if self.active == TAB_PROFILE {
            self.profile.on_key(key, &self.ctx, &self.snap)
        } else {
            self.tasks.on_key(key, &self.ctx, &self.snap)
        }
    }

    /// Acts on a key: work that holds the screen takes it first, then a shortcut of
    /// the hub, unless the tab claims the key, then the tab. `can_run` says whether
    /// the assistant can be run.
    pub fn handle_key(&mut self, key: KeyEvent, can_run: bool, now_ms: i64) -> (r: Step)
        requires
            old(self).wf(),
        ensures
            final(self).wf(),
            ({
                let pre = *old(self);
                let s = pre.shell().quiet();
                if s.job is Some {
                    &&& final(self).keeps_tabs(pre)
                    &&& !r.save
                    &&& (final(self).shell(), r.effect@) == s.waiting(key.code)
                } else if !pre.claims(key.code) && s.shortcut(
                    key.code,
                    pre.ctx.program@,
                    can_run,
                    now_ms,
                ) is Some {
                    &&& final(self).keeps_tabs(pre)
                    &&& !r.save
                    &&& s.shortcut(key.code, pre.ctx.program@, can_run, now_ms) == Some(
                        (final(self).shell(), r.effect@),
                    )
                } else {
                    &&& r.save
                    &&& exists|a: Option<Action>| #[trigger]
                        pre.tab_steps(*final(self), key.code, a) && (
                            final(self).shell(),
                            r.effect@,
                        ) == match a {
                            Some(x) => s.acted(x@, pre.ctx, can_run, now_ms),
                            None => (s, EffectV::Nothing),
                        }
                }
            }),
    {
        let ghost pre = *self;
        let ghost s = self.shell().quiet();
        self.toast = None;
        self.toast_at_ms = None;
        assert(self.shell() =~= s);
        if self.job.is_some() {
            let effect = match key.code {
                KeyCode::Esc => {
                    self.job = None;
                    self.detached.push(Detached { kind: DetachedKind::Generic });
                    Effect::Detach
                },
                KeyCode::Char('q') => {
                    self.should_quit = true;
                    Effect::Nothing
                },
                _ => Effect::Nothing,
            };
            assert(self.shell() =~= s.waiting(key.code).0);
            return Step { effect, save: false };
        }
        let ghost mid = *self;
        assert(self.claims(key.code) == pre.claims(key.code));
        if !self.active_claims_key(key.code) {
            let shortcut: Option<Effect> = match key.code {
                KeyCode::Char('q') | KeyCode::Esc => {
                    self.should_quit = true;
                    Some(Effect::Nothing)
                },
                KeyCode::Char('r') => Some(Effect::Reload),
                KeyCode::Char('R') => {
                    if can_run {
                        self.relaunch = true;
                    } else {
                        self.toast = Some(
                            join3(
                                "`",
                                self.ctx.program.as_str(),
                                "` not on PATH — cannot relaunch",
                            ),
                        );
                        self.toast_at_ms = Some(now_ms);
                    }
                    Some(Effect::Nothing)
                },
                KeyCode::Tab => {
                    self.active = down(self.active, TAB_COUNT);
                    Some(Effect::Nothing)
                },
                KeyCode::BackTab => {
                    self.active = up(self.active, TAB_COUNT);
                    Some(Effect::Nothing)
                },
                _ => None,
            };
            if let Some(effect) = shortcut {
                assert(self.shell() =~= (s.shortcut(
                    key.code,
                    pre.ctx.program@,
                    can_run,
                    now_ms,
                )->0).0);
                return Step { effect, save: false };
            }
        }
        let a = self.tab_key(key);
        assert(pre.tab_steps(*self, key.code, a));
        let ghost after = *self;
        let effect = match a {
            Some(x) => self.apply_action(x, can_run, now_ms),
            None => Effect::Nothing,
        };
        assert(pre.tab_steps(*self, key.code, a));
        Step { effect, save: true }
    }

    /// Whether the work that holds the screen may be looked after: its spinner has
    /// been up for long enough.
    pub fn may_collect(&self, now_ms: i64) -> (r: bool)
        ensures
            r == (self.job is Some && !self.shell().holds_back(now_ms)),
    {
        match &self.job {
            Some(j) => now_ms as i128 - j.started_ms as i128 >= MIN_SPINNER_MS as i128,
            None => false,
        }
    }

    fn give_drafts(&mut self, items: Vec<Profiles>)
        requires
            old(self).wf(),
        ensures
            final(self).wf(),
            final(self).keeps_others(*old(self)),
            final(self).shell() == old(self).shell(),
            final(self).profile@ == with_drafts(
                old(self).profile@,
                items@.map_values(|x: Profiles| x@),
            ),
    {
        let ghost pre = *self;
        let ghost all = items@.map_values(|x: Profiles| x@);
        let mut items = items;
        let ghost mut done: int = 0;
        assert(all.take(0) =~= Seq::empty());
        while items.len() > 0
            invariant
                self.wf(),
                self.keeps_others(pre),
                self.shell() == pre.shell(),
                0 <= done,
                items.len() + done == all.len(),
                forall|j: int| 0 <= j < items.len() ==> (#[trigger] items[j])@ == all[done + j],
                self.profile@ == with_drafts(pre.profile@, all.take(done)),
            decreases items.len(),
        {
            let ghost before = items@;
            let x = items.remove(0);
            proof {
                assert(before[0]@ == all[done + 0]);
                assert(all.take(done + 1).drop_last() =~= all.take(done));
                assert(all.take(done + 1).last() == x@);
                assert forall|j: int| 0 <= j < items.len() implies (#[trigger] items[j])@
                    == all[done + 1 + j] by {
                    assert(items[j] == before[j + 1]);
                }
                done = done + 1;
            }
            self.profile.accept_draft(x);
        }
        assert(all.take(done) =~= all);
    }

    fn give_scans(&mut self, items: Vec<ScanOutcome>)
        requires
            old(self).wf(),
        ensures
            final(self).wf(),
            final(self).keeps_others(*old(self)),
            final(self).shell() == old(self).shell(),
            final(self).profile@ == with_scans(
                old(self).profile@,
                items@.map_values(|x: ScanOutcome| x@),
            ),
    {
        let ghost pre = *self;
        let ghost all = items@.map_values(|x: ScanOutcome| x@);
        let mut items = items;
        let ghost mut done: int = 0;
        assert(all.take(0) =~= Seq::empty());
        while items.len() > 0
            invariant
                self.wf(),
                self.keeps_others(pre),
                self.shell() == pre.shell(),
                0 <= done,
                items.len() + done == all.len(),
                forall|j: int| 0 <= j < items.len() ==> (#[trigger] items[j])@ == all[done + j],
                self.profile@ == with_scans(pre.profile@, all.take(done)),
            decreases items.len(),
        {
            let ghost before = items@;
            let x = items.remove(0);
            proof {
                assert(before[0]@ == all[done + 0]);
                assert(all.take(done + 1).drop_last() =~= all.take(done));
                assert(all.take(done + 1).last() == x@);
                assert forall|j: int| 0 <= j < items.len() implies (#[trigger] items[j])@
                    == all[done + 1 + j] by {
                    assert(items[j] == before[j + 1]);
                }
                done = done + 1;
            }
            self.profile.accept_scan(x);
        }
        assert(all.take(done) =~= all);
    }

    fn give_indexes(&mut self, items: Vec<IndexOutcome>)
        requires
            old(self).wf(),
        ensures
            final(self).wf(),
            final(self).keeps_others(*old(self)),
            final(self).shell() == old(self).shell(),
            final(self).profile@ == with_indexes(
                old(self).profile@,
                items@.map_values(|x: IndexOutcome| x@),
            ),
    {
        let ghost pre = *self;
        let ghost all = items@.map_values(|x: IndexOutcome| x@);
        let mut items = items;
        let ghost mut done: int = 0;
        assert(all.take(0) =~= Seq::empty());
        while items.len() > 0
            invariant
                self.wf(),
                self.keeps_others(pre),
                self.shell() == pre.shell(),
                0 <= done,
                items.len() + done == all.len(),
                forall|j: int| 0 <= j < items.len() ==> (#[trigger] items[j])@ == all[done + j],
                self.profile@ == with_indexes(pre.profile@, all.take(done)),
            decreases items.len(),
        {
            let ghost before = items@;
            let x = items.remove(0);
            proof {
                assert(before[0]@ == all[done + 0]);
                assert(all.take(done + 1).drop_last() =~= all.take(done));
                assert(all.take(done + 1).last() == x@);
                assert forall|j: int| 0 <= j < items.len() implies (#[trigger] items[j])@
                    == all[done + 1 + j] by {
                    assert(items[j] == before[j + 1]);
                }
                done = done + 1;
            }
            self.profile.accept_index(x);
        }
        assert(all.take(done) =~= all);
    }

    fn deliver_all(
        &mut self,
        drafts: Vec<Profiles>,
        scans: Vec<ScanOutcome>,
        uncovered: Vec<Vec<String>>,
        indexes: Vec<IndexOutcome>,
    )
        requires
            old(self).wf(),
        ensures
            final(self).wf(),
            final(self).keeps_others(*old(self)),
            final(self).shell() == old(self).shell(),
            final(self).profile@ == with_indexes(
                with_uncovered(
                    with_scans(
                        with_drafts(
                            old(self).profile@,
                            drafts@.map_values(|x: Profiles| x@),
                        ),
                        scans@.map_values(|x: ScanOutcome| x@),
                    ),
                    uncovered@.map_values(|x: Vec<String>| x.deep_view()),
                ),
                indexes@.map_values(|x: IndexOutcome| x@),
            ),
    {
        self.give_drafts(drafts);
        self.give_scans(scans);
        let ghost v = self.profile@;
        let ghost uv = uncovered@.map_values(|x: Vec<String>| x.deep_view());
        let mut uncovered = uncovered;
        assert(uncovered.len() == uv.len());
        if let Some(u) = uncovered.pop() {
            assert(u.deep_view() == uv.last());
            self.profile.accept_uncovered(u);
        }
        assert(self.profile@ =~= with_uncovered(v, uv));
        self.give_indexes(indexes);
    }

    /// Takes over what looking after the work that holds the screen brought; returns
    /// whether the snapshot has to be read anew. Without such work, nothing happens.
    fn collect(&mut self, poll: Poll, now_ms: i64) -> (r: bool)
        requires
            old(self).wf(),
        ensures
            final(self).wf(),
            final(self).keeps_others(*old(self)),
            if old(self).job is None {
                &&& !r
                &&& final(self).profile == old(self).profile
                &&& final(self).shell() == old(self).shell()
            } else {
                &&& r == asks_reload(poll@)
                &&& final(self).profile@ == delivered(old(self).profile@, seq![poll@])
                &&& final(self).shell() == old(self).shell().after_poll(poll@, now_ms)
            },
    {
        if self.job.is_none() {
            return false;
        }
        let ghost pre = *self;
        let ghost pv = poll@;
        let ghost one = seq![pv];
        proof {
            assert(one.drop_last() =~= Seq::<PollV>::empty());
            assert(one.last() == pv);
            reveal_with_fuel(drafts_in, 2);
            reveal_with_fuel(scans_in, 2);
            reveal_with_fuel(uncovered_in, 2);
            reveal_with_fuel(indexes_in, 2);
        }
        match poll {
            Poll::Pending => {
                assert(delivered(pre.profile@, one) == pre.profile@);
                false
            },
            Poll::Died => {
                self.job = None;
                self.set_toast(owned("operation aborted"), now_ms);
                assert(delivered(pre.profile@, one) == pre.profile@);
                assert(self.shell() =~= pre.shell().after_poll(pv, now_ms));
                false
            },
            Poll::Done(res) => {
                self.job = None;
                let mut drafts: Vec<Profiles> = Vec::new();
                let mut scans: Vec<ScanOutcome> = Vec::new();
                let mut uncovered: Vec<Vec<String>> = Vec::new();
                let mut indexes: Vec<IndexOutcome> = Vec::new();
                if let Some(p) = res.draft {
                    drafts.push(p);
                }
                if let Some(o) = res.scan {
                    scans.push(o);
                }
                if let Some(u) = res.uncovered {
                    uncovered.push(u);
                }
                if let Some(o) = res.index {
                    indexes.push(o);
                }
                proof {
                    assert(drafts@.map_values(|x: Profiles| x@) =~= drafts_in(one));
                    assert(scans@.map_values(|x: ScanOutcome| x@) =~= scans_in(one));
                    assert(uncovered@.map_values(|x: Vec<String>| x.deep_view())
                        =~= uncovered_in(one));
                    assert(indexes@.map_values(|x: IndexOutcome| x@) =~= indexes_in(one));
                }
                self.deliver_all(drafts, scans, uncovered, indexes);
                if !res.toast.as_str().is_empty() {
                    self.set_toast(res.toast, now_ms);
                }
                assert(self.shell() =~= pre.shell().after_poll(pv, now_ms));
                res.needs_refresh
            },
        }
    }
}

proof fn lemma_died_last(ps: Seq<PollV>, ds: Seq<Detached>, kind: DetachedKind)
    requires
        ps.len() > 0,
    ensures
        died(ps, ds, kind) == (died(ps.drop_last(), ds, kind) || (ps.last() is Died && ds[ps.len()
            - 1].kind == kind)),
{
    let t = ps.drop_last();
    if died(ps, ds, kind) {
        let i = choose|i: int| 0 <= i < ps.len() && #[trigger] ps[i] is Died && ds[i].kind == kind;
        if i < t.len() {
            assert(t[i] is Died);
        }
    }
    if died(t, ds, kind) {
        let i = choose|i: int| 0 <= i < t.len() && #[trigger] t[i] is Died && ds[i].kind == kind;
        assert(ps[i] is Died);
    }
    if ps.last() is Died {
        assert(ps[ps.len() - 1] is Died);
    }
}

proof fn lemma_reload_last(ps: Seq<PollV>)
    requires
        ps.len() > 0,
    ensures
        reload_in(ps) == (reload_in(ps.drop_last()) || asks_reload(ps.last())),
{
    let t = ps.drop_last();
    if reload_in(ps) {
        let i = choose|i: int| 0 <= i < ps.len() && asks_reload(#[trigger] ps[i]);
        if i < t.len() {
            assert(asks_reload(t[i]));
        }
    }
    if reload_in(t) {
        let i = choose|i: int| 0 <= i < t.len() && asks_reload(#[trigger] t[i]);
        assert(asks_reload(ps[i]));
    }
    if asks_reload(ps.last()) {
        assert(asks_reload(ps[ps.len() - 1]));
    }
}

/// What a round of looking after the detached work gathers.
struct Gathered {
    drafts: Vec<Profiles>,
    scans: Vec<ScanOutcome>,
    uncovered: Vec<Vec<String>>,
    indexes: Vec<IndexOutcome>,
    toasts: Vec<String>,
    pending: Vec<Detached>,
    reload: bool,
    index_died: bool,
    rebuild_died: bool,
}

impl Gathered {
    /// Holds what `ps` brings for the detached work `ds`.
    spec fn holds(self, ps: Seq<PollV>, ds: Seq<Detached>) -> bool {
        &&& self.drafts@.map_values(|x: Profiles| x@) == drafts_in(ps)
        &&& self.scans@.map_values(|x: ScanOutcome| x@) == scans_in(ps)
        &&& self.uncovered@.map_values(|x: Vec<String>| x.deep_view()) == uncovered_in(ps)
        &&& self.indexes@.map_values(|x: IndexOutcome| x@) == indexes_in(ps)
        &&& self.toasts.deep_view() == toasts_in(ps)
        &&& self.pending@ == still_pending(ps, ds)
        &&& self.reload == reload_in(ps)
        &&& self.index_died == died(ps, ds, DetachedKind::IndexAtoms)
        &&& self.rebuild_died == died(ps, ds, DetachedKind::Rebuild)
    }

    fn take(&mut self, p: Poll, d: Detached, Ghost(ps): Ghost<Seq<PollV>>, Ghost(ds): Ghost<
        Seq<Detached>,
    >)
        requires
            old(self).holds(ps, ds),
            0 <= ps.len() < ds.len(),
            ds[ps.len() as int] == d,
        ensures
            final(self).holds(ps.push(p@), ds),
    {
        let ghost t = ps.push(p@);
        let ghost pre = *self;
        proof {
            assert(t.drop_last() =~= ps);
            assert(t.last() == p@);
            lemma_died_last(t, ds, DetachedKind::IndexAtoms);
            lemma_died_last(t, ds, DetachedKind::Rebuild);
            lemma_reload_last(t);
        }
        match p {
            Poll::Pending => {
                self.pending.push(d);
            },
            Poll::Died => {
                match d.kind {
                    DetachedKind::IndexAtoms => {
                        self.index_died = true;
                    },
                    DetachedKind::Rebuild => {
                        self.rebuild_died = true;
                    },
                    DetachedKind::Generic => {},
                }
            },
            Poll::Done(res) => {
                if res.needs_refresh {
                    self.reload = true;
                }
                if let Some(x) = res.draft {
                    self.drafts.push(x);
                }
                if let Some(x) = res.scan {
                    self.scans.push(x);
                }
                if let Some(x) = res.uncovered {
                    self.uncovered.push(x);
                }
                if let Some(x) = res.index {
                    self.indexes.push(x);
                }
                self.toasts.push(res.toast);
            },
        }
        proof {
            assert(self.drafts@.map_values(|x: Profiles| x@) =~= drafts_in(t));
            assert(self.scans@.map_values(|x: ScanOutcome| x@) =~= scans_in(t));
            assert(self.uncovered@.map_values(|x: Vec<String>| x.deep_view()) =~= uncovered_in(t));
            assert(self.indexes@.map_values(|x: IndexOutcome| x@) =~= indexes_in(t));
            assert(self.toasts.deep_view() =~= toasts_in(t));
            assert(self.pending@ =~= still_pending(t, ds));
        }
    }
}

fn gather(polls: Vec<Poll>, detached: &Vec<Detached>) -> (r: Gathered)
    requires
        polls.len() == detached.len(),
    ensures
        r.holds(polls.deep_view(), detached@),
{
    let ghost all = polls.deep_view();
    let ghost ds = detached@;
    let mut g = Gathered {
        drafts: Vec::new(),
        scans: Vec::new(),
        uncovered: Vec::new(),
        indexes: Vec::new(),
        toasts: Vec::new(),
        pending: Vec::new(),
        reload: false,
        index_died: false,
        rebuild_died: false,
    };
    proof {
        let none = all.take(0);
        assert(none =~= Seq::<PollV>::empty());
        assert(g.drafts@.map_values(|x: Profiles| x@) =~= drafts_in(none));
        assert(g.scans@.map_values(|x: ScanOutcome| x@) =~= scans_in(none));
        assert(g.uncovered@.map_values(|x: Vec<String>| x.deep_view()) =~= uncovered_in(none));
        assert(g.indexes@.map_values(|x: IndexOutcome| x@) =~= indexes_in(none));
        assert(g.toasts.deep_view() =~= toasts_in(none));
        assert(g.pending@ =~= still_pending(none, ds));
    }
    let mut polls = polls;
    let mut i: usize = 0;
    while i < detached.len()
        invariant
            i <= detached.len(),
            ds == detached@,
            all.len() == ds.len(),
            polls.len() + i == all.len(),
            forall|j: int| 0 <= j < polls.len() ==> (#[trigger] polls[j])@ == all[i + j],
            g.holds(all.take(i as int), ds),
        decreases detached.len() - i,
    {
        let ghost before = polls@;
        let p = polls.remove(0);
        proof {
            assert(before[0]@ == all[i + 0]);
            assert(all.take(i + 1) =~= all.take(i as int).push(p@));
            assert forall|j: int| 0 <= j < polls.len() implies (#[trigger] polls[j])@ == all[i + 1
                + j] by {
                assert(polls[j] == before[j + 1]);
            }
        }
        g.take(p, detached[i], Ghost(all.take(i as int)), Ghost(ds));
        i += 1;
    }
    assert(all.take(i as int) =~= all);
    g
}

impl App {
    fn tell_all(&mut self, msgs: Vec<String>, now_ms: i64)
        requires
            old(self).wf(),
        ensures
            final(self).wf(),
            final(self).keeps_tabs(*old(self)),
            final(self).shell() == old(self).shell().told_all(msgs.deep_view(), now_ms),
    {
        let ghost pre = *self;
        let ghost all = msgs.deep_view();
        let mut i: usize = 0;
        assert(all.take(0) =~= Seq::<Seq<char>>::empty());
        while i < msgs.len()
            invariant
                i <= msgs.len(),
                all == msgs.deep_view(),
                self.wf(),
                self.keeps_tabs(pre),
                self.shell() == pre.shell().told_all(all.take(i as int), now_ms),
            decreases msgs.len() - i,
        {
            proof {
                let t = all.take(i + 1);
                assert(t.drop_last() =~= all.take(i as int));
                assert(t.last() == all[i as int]);
                assert(all[i as int] == msgs[i as int]@);
            }
            if !msgs[i].as_str().is_empty() {
                self.set_toast(msgs[i].clone(), now_ms);
            }
            i += 1;
        }
        assert(all.take(i as int) =~= all);
    }

    /// Takes over what looking after the detached work brought, one poll for each;
    /// returns whether the snapshot has to be read anew. Finished and dead work is
    /// dropped; an index batch or a rebuild that died is recovered from.
    pub fn collect_detached(&mut self, polls: Vec<Poll>, now_ms: i64) -> (r: bool)
        requires
            old(self).wf(),
            polls.len() == old(self).detached.len(),
        ensures
            final(self).wf(),
            final(self).keeps_others(*old(self)),
            ({
                let ps = polls.deep_view();
                let ds = old(self).detached@;
                &&& r == reload_in(ps)
                &&& final(self).profile@ == collected(old(self).profile@, ps, ds)
                &&& final(self).shell() == (ShellV {
                    detached: still_pending(ps, ds),
                    ..old(self).shell()
                }).told_all(collected_toasts(ps, ds), now_ms)
            }),
    {
        let ghost pre = *self;
        let ghost ps = polls.deep_view();
        let ghost ds = self.detached@;
        let g = gather(polls, &self.detached);
        self.detached = g.pending;
        let ghost mid = ShellV { detached: still_pending(ps, ds), ..pre.shell() };
        assert(self.shell() =~= mid);
        self.deliver_all(g.drafts, g.scans, g.uncovered, g.indexes);
        let mut toasts = g.toasts;
        if g.index_died {
            self.profile.accept_index_failed();
            toasts.push(owned("indexing aborted"));
        }
        if g.rebuild_died {
            self.profile.accept_rebuild_failed();
            toasts.push(owned("index rebuild aborted · press s to rescan"));
        }
        assert(self.profile@ =~= collected(pre.profile@, ps, ds));
        assert(toasts.deep_view() =~= collected_toasts(ps, ds));
        assert(self.shell() =~= mid);
        self.tell_all(toasts, now_ms);
        g.reload
    }
}

/// What a round of looking after all work leaves to its owner.
#[derive(Debug)]
pub struct Drained {
    /// What the work that holds the screen brought, handed back where it may not be
    /// taken over yet.
    pub held: Option<Poll>,
    /// Whether the snapshot has to be read anew.
    pub reload: bool,
}

impl App {
    /// Takes over what a round of looking after all work at `at_ms` brought: `poll` for
    /// the work that holds the screen, `polls` for the detached work, one for each. While
    /// the spinner has not been up for its minimum time, `poll` is handed back and the
    /// work stays, so that a fast job reads as a deliberate moment and not as a flash.
    #[verifier::spinoff_prover]
    pub fn drain_jobs(&mut self, poll: Poll, polls: Vec<Poll>, at_ms: i64, now_ms: i64) -> (r:
        Drained)
        requires
            old(self).wf(),
            polls.len() == old(self).detached.len(),
        ensures
            final(self).wf(),
            final(self).keeps_others(*old(self)),
            final(self).shell() == old(self).shell().after_round(
                poll@,
                polls.deep_view(),
                at_ms,
                now_ms,
            ),
            final(self).profile@ == old(self).shell().tab_after_round(
                old(self).profile@,
                poll@,
                polls.deep_view(),
                at_ms,
            ),
            r.held == if old(self).shell().holds_back(at_ms) {
                Some(poll)
            } else {
                None
            },
            r.reload == (reload_in(polls.deep_view()) || (old(self).job is Some && !old(
                self,
            ).shell().holds_back(at_ms) && asks_reload(poll@))),
    {
        let ghost pre = *self;
        let ghost s = self.shell();
        let ghost taken = s.job is Some && !s.holds_back(at_ms);
        let ghost mid = if taken {
            s.after_poll(poll@, now_ms)
        } else {
            s
        };
        let ghost tab = if taken {
            delivered(pre.profile@, seq![poll@])
        } else {
            pre.profile@
        };
        let mut held: Option<Poll> = None;
        let mut reload = false;
        if self.may_collect(at_ms) {
            reload = self.collect(poll, now_ms);
        } else if self.job.is_some() {
            held = Some(poll);
        }
        assert(self.shell() == mid);
        assert(self.profile@ == tab);
        assert(mid.detached == s.detached);
        let ghost ps = polls.deep_view();
        let more = self.collect_detached(polls, now_ms);
        assert(self.profile@ == collected(tab, ps, s.detached));
        assert(self.shell() == (ShellV {
            detached: still_pending(ps, s.detached),
            ..mid
        }).told_all(collected_toasts(ps, s.detached), now_ms));
        Drained { held, reload: reload || more }
    }
}

/// Nothing that is still under way is lost, and nothing else is kept.
pub proof fn only_pending_work_stays(ps: Seq<PollV>, ds: Seq<Detached>)
    requires
        ps.len() == ds.len(),
    ensures
        still_pending(ps, ds).len() <= ds.len(),
        (forall|i: int| 0 <= i < ps.len() ==> #[trigger] ps[i] is Pending) ==> still_pending(ps, ds)
            == ds,
        (forall|i: int| 0 <= i < ps.len() ==> !(#[trigger] ps[i] is Pending)) ==> still_pending(
            ps,
            ds,
        ).len() == 0,
    decreases ps.len(),
{
    if ps.len() > 0 {
        let t = ps.drop_last();
        let e = ds.drop_last();
        only_pending_work_stays(t, e);
        lemma_pending_prefix(t, ds, e);
        if forall|i: int| 0 <= i < ps.len() ==> #[trigger] ps[i] is Pending {
            assert forall|i: int| 0 <= i < t.len() implies #[trigger] t[i] is Pending by {
                assert(ps[i] is Pending);
            }
            assert(ps[ps.len() - 1] is Pending);
            assert(still_pending(ps, ds) =~= ds);
        }
        if forall|i: int| 0 <= i < ps.len() ==> !(#[trigger] ps[i] is Pending) {
            assert forall|i: int| 0 <= i < t.len() implies !(#[trigger] t[i] is Pending) by {
                assert(!(ps[i] is Pending));
            }
            assert(!(ps[ps.len() - 1] is Pending));
        }
    } else {
        assert(still_pending(ps, ds) =~= ds);
    }
}

proof fn lemma_pending_prefix(ps: Seq<PollV>, a: Seq<Detached>, b: Seq<Detached>)
    requires
        ps.len() <= b.len() <= a.len(),
        b =~= a.take(b.len() as int),
    ensures
        still_pending(ps, a) == still_pending(ps, b),
    decreases ps.len(),
{
    if ps.len() > 0 {
        lemma_pending_prefix(ps.drop_last(), a, b);
    }
}

/// A finished draft replaces the configuration, and withdraws the offer of one.
pub proof fn finished_draft_is_taken_over(v: TabV, r: ResultV, p: ProfilesV)
    requires
        r.draft == Some(p),
        r.scan is None,
        r.uncovered is None,
        r.index is None,
    ensures
        delivered(v, seq![PollV::Done(r)]) == (TabV {
            working: p,
            ai_offer: false,
            ..v
        }).recovered(),
{
    let one = seq![PollV::Done(r)];
    assert(one.drop_last() =~= Seq::<PollV>::empty());
    reveal_with_fuel(drafts_in, 2);
    reveal_with_fuel(scans_in, 2);
    reveal_with_fuel(uncovered_in, 2);
    reveal_with_fuel(indexes_in, 2);
    let ds = drafts_in(one);
    assert(ds =~= seq![p]);
    assert(ds.drop_last() =~= Seq::<ProfilesV>::empty());
    reveal_with_fuel(with_drafts, 2);
}

/// Every draft that finished work hands back is taken over, in order. Returns the positions.
pub proof fn every_draft_is_taken_over(ps: Seq<PollV>) -> (ix: Seq<int>)
    ensures
        list::picks(ix, ps.len() as int, |i: int| ps[i] is Done && ps[i]->Done_0.draft is Some),
        drafts_in(ps).len() == ix.len(),
        forall|k: int| 0 <= k < ix.len() ==> (ps[#[trigger] ix[k]] matches PollV::Done(r)
            && r.draft == Some(drafts_in(ps)[k])),
{
    let n = ps.len() as int;
    let p = |i: int| ps[i] is Done && ps[i]->Done_0.draft is Some;
    list::lemma_picked(n, p);
    lemma_drafts_in(ps);
    let ix = list::picked(n, p);
    assert forall|k: int| 0 <= k < ix.len() implies (ps[#[trigger] ix[k]] matches PollV::Done(r)
        && r.draft == Some(drafts_in(ps)[k])) by {
        assert(p(ix[k]));
    }
    ix
}

proof fn lemma_drafts_in(ps: Seq<PollV>)
    ensures
        drafts_in(ps) == list::picked(
            ps.len() as int,
            |i: int| ps[i] is Done && ps[i]->Done_0.draft is Some,
        ).map_values(|i: int| ps[i]->Done_0.draft->0),
    decreases ps.len(),
{
    let n = ps.len() as int;
    let p = |i: int| ps[i] is Done && ps[i]->Done_0.draft is Some;
    let f = |i: int| ps[i]->Done_0.draft->0;
    if n > 0 {
        let t = ps.drop_last();
        let q = |i: int| t[i] is Done && t[i]->Done_0.draft is Some;
        let g = |i: int| t[i]->Done_0.draft->0;
        lemma_drafts_in(t);
        list::lemma_picked_congruent(n - 1, q, p);
        list::lemma_picked(n - 1, p);
        let before = list::picked(n - 1, p);
        assert(before.map_values(g) =~= before.map_values(f));
    }
    assert(drafts_in(ps) =~= list::picked(n, p).map_values(f));
}

/// Every scan that finished work hands back is taken over, in order. Returns the positions.
pub proof fn every_scan_is_taken_over(ps: Seq<PollV>) -> (ix: Seq<int>)
    ensures
        list::picks(ix, ps.len() as int, |i: int| ps[i] is Done && ps[i]->Done_0.scan is Some),
        scans_in(ps).len() == ix.len(),
        forall|k: int| 0 <= k < ix.len() ==> (ps[#[trigger] ix[k]] matches PollV::Done(r)
            && r.scan == Some(scans_in(ps)[k])),
{
    let n = ps.len() as int;
    let p = |i: int| ps[i] is Done && ps[i]->Done_0.scan is Some;
    list::lemma_picked(n, p);
    lemma_scans_in(ps);
    let ix = list::picked(n, p);
    assert forall|k: int| 0 <= k < ix.len() implies (ps[#[trigger] ix[k]] matches PollV::Done(r)
        && r.scan == Some(scans_in(ps)[k])) by {
        assert(p(ix[k]));
    }
    ix
}

proof fn lemma_scans_in(ps: Seq<PollV>)
    ensures
        scans_in(ps) == list::picked(
            ps.len() as int,
            |i: int| ps[i] is Done && ps[i]->Done_0.scan is Some,
        ).map_values(|i: int| ps[i]->Done_0.scan->0),
    decreases ps.len(),
{
    let n = ps.len() as int;
    let p = |i: int| ps[i] is Done && ps[i]->Done_0.scan is Some;
    let f = |i: int| ps[i]->Done_0.scan->0;
    if n > 0 {
        let t = ps.drop_last();
        let q = |i: int| t[i] is Done && t[i]->Done_0.scan is Some;
        let g = |i: int| t[i]->Done_0.scan->0;
        lemma_scans_in(t);
        list::lemma_picked_congruent(n - 1, q, p);
        list::lemma_picked(n - 1, p);
        let before = list::picked(n - 1, p);
        assert(before.map_values(g) =~= before.map_values(f));
    }
    assert(scans_in(ps) =~= list::picked(n, p).map_values(f));
}

/// Every set of uncovered repos that finished work hands back counts, in order. Returns the
/// positions.
pub proof fn every_uncovered_set_counts(ps: Seq<PollV>) -> (ix: Seq<int>)
    ensures
        list::picks(ix, ps.len() as int, |i: int| ps[i] is Done && ps[i]->Done_0.uncovered is Some),
        uncovered_in(ps).len() == ix.len(),
        forall|k: int| 0 <= k < ix.len() ==> (ps[#[trigger] ix[k]] matches PollV::Done(r)
            && r.uncovered == Some(uncovered_in(ps)[k])),
{
    let n = ps.len() as int;
    let p = |i: int| ps[i] is Done && ps[i]->Done_0.uncovered is Some;
    list::lemma_picked(n, p);
    lemma_uncovered_in(ps);
    let ix = list::picked(n, p);
    assert forall|k: int| 0 <= k < ix.len() implies (ps[#[trigger] ix[k]] matches PollV::Done(r)
        && r.uncovered == Some(uncovered_in(ps)[k])) by {
        assert(p(ix[k]));
    }
    ix
}

proof fn lemma_uncovered_in(ps: Seq<PollV>)
    ensures
        uncovered_in(ps) == list::picked(
            ps.len() as int,
            |i: int| ps[i] is Done && ps[i]->Done_0.uncovered is Some,
        ).map_values(|i: int| ps[i]->Done_0.uncovered->0),
    decreases ps.len(),
{
    let n = ps.len() as int;
    let p = |i: int| ps[i] is Done && ps[i]->Done_0.uncovered is Some;
    let f = |i: int| ps[i]->Done_0.uncovered->0;
    if n > 0 {
        let t = ps.drop_last();
        let q = |i: int| t[i] is Done && t[i]->Done_0.uncovered is Some;
        let g = |i: int| t[i]->Done_0.uncovered->0;
        lemma_uncovered_in(t);
        list::lemma_picked_congruent(n - 1, q, p);
        list::lemma_picked(n - 1, p);
        let before = list::picked(n - 1, p);
        assert(before.map_values(g) =~= before.map_values(f));
    }
    assert(uncovered_in(ps) =~= list::picked(n, p).map_values(f));
}

/// Every answered batch that finished work hands back is taken over, in order. Returns the
/// positions.
pub proof fn every_batch_is_taken_over(ps: Seq<PollV>) -> (ix: Seq<int>)
    ensures
        list::picks(ix, ps.len() as int, |i: int| ps[i] is Done && ps[i]->Done_0.index is Some),
        indexes_in(ps).len() == ix.len(),
        forall|k: int| 0 <= k < ix.len() ==> (ps[#[trigger] ix[k]] matches PollV::Done(r)
            && r.index == Some(indexes_in(ps)[k])),
{
    let n = ps.len() as int;
    let p = |i: int| ps[i] is Done && ps[i]->Done_0.index is Some;
    list::lemma_picked(n, p);
    lemma_indexes_in(ps);
    let ix = list::picked(n, p);
    assert forall|k: int| 0 <= k < ix.len() implies (ps[#[trigger] ix[k]] matches PollV::Done(r)
        && r.index == Some(indexes_in(ps)[k])) by {
        assert(p(ix[k]));
    }
    ix
}

proof fn lemma_indexes_in(ps: Seq<PollV>)
    ensures
        indexes_in(ps) == list::picked(
            ps.len() as int,
            |i: int| ps[i] is Done && ps[i]->Done_0.index is Some,
        ).map_values(|i: int| ps[i]->Done_0.index->0),
    decreases ps.len(),
{
    let n = ps.len() as int;
    let p = |i: int| ps[i] is Done && ps[i]->Done_0.index is Some;
    let f = |i: int| ps[i]->Done_0.index->0;
    if n > 0 {
        let t = ps.drop_last();
        let q = |i: int| t[i] is Done && t[i]->Done_0.index is Some;
        let g = |i: int| t[i]->Done_0.index->0;
        lemma_indexes_in(t);
        list::lemma_picked_congruent(n - 1, q, p);
        list::lemma_picked(n - 1, p);
        let before = list::picked(n - 1, p);
        assert(before.map_values(g) =~= before.map_values(f));
    }
    assert(indexes_in(ps) =~= list::picked(n, p).map_values(f));
}

/// Finished work is told of in order, all of it. Returns the positions.
pub proof fn every_result_is_told(ps: Seq<PollV>) -> (ix: Seq<int>)
    ensures
        list::picks(ix, ps.len() as int, |i: int| ps[i] is Done),
        toasts_in(ps).len() == ix.len(),
        forall|k: int| 0 <= k < ix.len() ==> (ps[#[trigger] ix[k]] matches PollV::Done(r)
            && r.toast == toasts_in(ps)[k]),
{
    let n = ps.len() as int;
    let p = |i: int| ps[i] is Done;
    list::lemma_picked(n, p);
    lemma_toasts_in(ps);
    let ix = list::picked(n, p);
    assert forall|k: int| 0 <= k < ix.len() implies (ps[#[trigger] ix[k]] matches PollV::Done(r)
        && r.toast == toasts_in(ps)[k]) by {
        assert(p(ix[k]));
    }
    ix
}

proof fn lemma_toasts_in(ps: Seq<PollV>)
    ensures
        toasts_in(ps) == list::picked(
            ps.len() as int,
            |i: int| ps[i] is Done,
        ).map_values(|i: int| ps[i]->Done_0.toast),
    decreases ps.len(),
{
    let n = ps.len() as int;
    let p = |i: int| ps[i] is Done;
    let f = |i: int| ps[i]->Done_0.toast;
    if n > 0 {
        let t = ps.drop_last();
        let q = |i: int| t[i] is Done;
        let g = |i: int| t[i]->Done_0.toast;
        lemma_toasts_in(t);
        list::lemma_picked_congruent(n - 1, q, p);
        list::lemma_picked(n - 1, p);
        let before = list::picked(n - 1, p);
        assert(before.map_values(g) =~= before.map_values(f));
    }
    assert(toasts_in(ps) =~= list::picked(n, p).map_values(f));
}

/// Detached work goes on just where it is still pending, in order. Returns its positions.
pub proof fn pending_work_goes_on(ps: Seq<PollV>, ds: Seq<Detached>) -> (ix: Seq<int>)
    requires
        ps.len() == ds.len(),
    ensures
        list::picks(ix, ps.len() as int, |i: int| ps[i] is Pending),
        still_pending(ps, ds).len() == ix.len(),
        forall|k: int| 0 <= k < ix.len() ==> #[trigger] still_pending(ps, ds)[k] == ds[ix[k]],
{
    let n = ps.len() as int;
    let p = |i: int| ps[i] is Pending;
    list::lemma_picked(n, p);
    lemma_still_pending(ps, ds);
    list::picked(n, p)
}

proof fn lemma_still_pending(ps: Seq<PollV>, ds: Seq<Detached>)
    ensures
        still_pending(ps, ds) == list::picked(
            ps.len() as int,
            |i: int| ps[i] is Pending,
        ).map_values(|i: int| ds[i]),
    decreases ps.len(),
{
    let n = ps.len() as int;
    let p = |i: int| ps[i] is Pending;
    let f = |i: int| ds[i];
    if n > 0 {
        let t = ps.drop_last();
        lemma_still_pending(t, ds);
        list::lemma_picked_congruent(n - 1, |i: int| t[i] is Pending, p);
        list::lemma_picked(n - 1, p);
    }
    assert(still_pending(ps, ds) =~= list::picked(n, p).map_values(f));
}

/// Of a run of messages the last that is not empty stands, from now on; if all are empty, what
/// stood before stays. Nothing else of the shell changes.
pub proof fn the_last_message_stands(s: ShellV, msgs: Seq<Seq<char>>, now_ms: i64)
    ensures
        ({
            let t = s.told_all(msgs, now_ms);
            &&& t == (ShellV { toast: t.toast, toast_at_ms: t.toast_at_ms, ..s })
            &&& (forall|i: int| 0 <= i < msgs.len() ==> (#[trigger] msgs[i]).len() == 0) ==> t == s
            &&& forall|i: int|
                0 <= i < msgs.len() && (#[trigger] msgs[i]).len() > 0 && (forall|j: int|
                    i < j < msgs.len() ==> (#[trigger] msgs[j]).len() == 0) ==> t.toast == Some(
                    msgs[i],
                ) && t.toast_at_ms == Some(now_ms)
        }),
    decreases msgs.len(),
{
    if msgs.len() > 0 {
        let m = msgs.drop_last();
        let n = m.len() as int;
        the_last_message_stands(s, m, now_ms);
        assert(msgs[n] == msgs.last());
        assert forall|i: int|
            0 <= i < msgs.len() && (#[trigger] msgs[i]).len() > 0 && (forall|j: int|
                i < j < msgs.len() ==> (#[trigger] msgs[j]).len() == 0) implies s.told_all(
            msgs,
            now_ms,
        ).toast == Some(msgs[i]) && s.told_all(msgs, now_ms).toast_at_ms == Some(now_ms) by {
            if i < n {
                assert(msgs[n].len() == 0);
                assert(m[i] == msgs[i]);
                assert forall|j: int| i < j < m.len() implies (#[trigger] m[j]).len() == 0 by {
                    assert(msgs[j].len() == 0);
                }
            }
        }
        if forall|i: int| 0 <= i < msgs.len() ==> (#[trigger] msgs[i]).len() == 0 {
            assert forall|i: int| 0 <= i < m.len() implies (#[trigger] m[i]).len() == 0 by {
                assert(msgs[i].len() == 0);
            }
            assert(msgs[n].len() == 0);
        }
    }
}

/// A finished scan is folded into the Profile tab, with its time, and ends a rebuild.
pub proof fn finished_scan_is_taken_over(v: TabV, r: ResultV, o: ScanV)
    requires
        r.scan == Some(o),
        r.draft is None,
        r.uncovered is None,
        r.index is None,
    ensures
        ({
            let u = delivered(v, seq![PollV::Done(r)]);
            &&& u.scanned_at == Some(o.scanned_at)
            &&& !u.rebuilding
            &&& u.inv.repos == o.repos
            &&& u.uncovered == o.uncovered
            &&& u.working.scan_roots == o.roots
        }),
{
    let one = seq![PollV::Done(r)];
    assert(one.drop_last() =~= Seq::<PollV>::empty());
    reveal_with_fuel(drafts_in, 2);
    reveal_with_fuel(scans_in, 2);
    reveal_with_fuel(uncovered_in, 2);
    reveal_with_fuel(indexes_in, 2);
    let ss = scans_in(one);
    assert(ss =~= seq![o]);
    assert(ss.drop_last() =~= Seq::<ScanV>::empty());
    reveal_with_fuel(with_scans, 2);
}

/// The answers of a finished batch are folded into the Profile tab.
pub proof fn finished_batch_is_taken_over(v: TabV, r: ResultV, o: IndexV)
    requires
        r.index == Some(o),
        r.draft is None,
        r.scan is None,
        r.uncovered is None,
    ensures
        delivered(v, seq![PollV::Done(r)]) == v.indexed(o),
{
    let one = seq![PollV::Done(r)];
    assert(one.drop_last() =~= Seq::<PollV>::empty());
    reveal_with_fuel(drafts_in, 2);
    reveal_with_fuel(scans_in, 2);
    reveal_with_fuel(uncovered_in, 2);
    reveal_with_fuel(indexes_in, 2);
    let xs = indexes_in(one);
    assert(xs =~= seq![o]);
    assert(xs.drop_last() =~= Seq::<IndexV>::empty());
    reveal_with_fuel(with_indexes, 2);
}

/// A finished look at the repos sets those that match nothing, and nothing else.
pub proof fn finished_look_is_taken_over(v: TabV, r: ResultV, u: Seq<Seq<char>>)
    requires
        r.uncovered == Some(u),
        r.draft is None,
        r.scan is None,
        r.index is None,
    ensures
        delivered(v, seq![PollV::Done(r)]) == (TabV { uncovered: u, ..v }),
{
    let one = seq![PollV::Done(r)];
    assert(one.drop_last() =~= Seq::<PollV>::empty());
    reveal_with_fuel(drafts_in, 2);
    reveal_with_fuel(scans_in, 2);
    reveal_with_fuel(uncovered_in, 2);
    reveal_with_fuel(indexes_in, 2);
    assert(uncovered_in(one) =~= seq![u]);
}

/// Work that is not finished hands nothing back.
pub proof fn unfinished_work_hands_nothing_back(v: TabV, ps: Seq<PollV>)
    requires
        forall|i: int| 0 <= i < ps.len() ==> !(#[trigger] ps[i] is Done),
    ensures
        delivered(v, ps) == v,
        toasts_in(ps).len() == 0,
        !reload_in(ps),
{
    let a = every_draft_is_taken_over(ps);
    let b = every_scan_is_taken_over(ps);
    let c = every_uncovered_set_counts(ps);
    let d = every_batch_is_taken_over(ps);
    let e = every_result_is_told(ps);
    assert(a.len() == 0) by {
        if a.len() > 0 {
            assert(ps[a[0]] is Done);
        }
    }
    assert(b.len() == 0) by {
        if b.len() > 0 {
            assert(ps[b[0]] is Done);
        }
    }
    assert(c.len() == 0) by {
        if c.len() > 0 {
            assert(ps[c[0]] is Done);
        }
    }
    assert(d.len() == 0) by {
        if d.len() > 0 {
            assert(ps[d[0]] is Done);
        }
    }
    assert(e.len() == 0) by {
        if e.len() > 0 {
            assert(ps[e[0]] is Done);
        }
    }
}

/// Detached work that died is recovered from, and told of: a batch goes back to the queue, and
/// the note of a rebuild goes.
pub proof fn dead_work_is_recovered_from(v: TabV, ps: Seq<PollV>, ds: Seq<Detached>, i: int)
    requires
        ps.len() == ds.len(),
        0 <= i < ps.len(),
        ps[i] is Died,
    ensures
        ds[i].kind == DetachedKind::IndexAtoms ==> {
            &&& !collected(v, ps, ds).indexing
            &&& collected_toasts(ps, ds).contains("indexing aborted"@)
            &&& delivered(v, ps).indexing_atoms.is_prefix_of(collected(v, ps, ds).index_queue)
        },
        ds[i].kind == DetachedKind::Rebuild ==> {
            &&& !collected(v, ps, ds).rebuilding
            &&& collected_toasts(ps, ds).last() == "index rebuild aborted · press s to rescan"@
        },
{
    let a = toasts_in(ps);
    let b = a.push("indexing aborted"@);
    crate::tui::profile::tab::a_dead_batch_goes_to_the_front(delivered(v, ps), Seq::empty());
    if ds[i].kind == DetachedKind::IndexAtoms {
        assert(died(ps, ds, DetachedKind::IndexAtoms));
        assert(b[a.len() as int] == "indexing aborted"@);
        let all = collected_toasts(ps, ds);
        assert(all[a.len() as int] == "indexing aborted"@);
    }
    if ds[i].kind == DetachedKind::Rebuild {
        assert(died(ps, ds, DetachedKind::Rebuild));
    }
}

/// The shortcuts of the hub: q and Esc quit, r reads anew, R relaunches where it can and says
/// so where it cannot, Tab and BackTab go round the five tabs, and no other key is one.
pub proof fn shortcuts_do_what_they_say(
    s: ShellV,
    code: KeyCode,
    program: Seq<char>,
    can_run: bool,
    now_ms: i64,
)
    requires
        0 <= s.active < 5,
    ensures
        ({
            let r = s.shortcut(code, program, can_run, now_ms);
            &&& code == KeyCode::Char('q') || code == KeyCode::Esc ==> r == Some(
                (ShellV { should_quit: true, ..s }, EffectV::Nothing),
            )
            &&& code == KeyCode::Char('r') ==> r == Some((s, EffectV::Reload))
            &&& code == KeyCode::Char('R') && can_run ==> r == Some(
                (ShellV { relaunch: true, ..s }, EffectV::Nothing),
            )
            &&& code == KeyCode::Char('R') && !can_run ==> (r matches Some(x) && x.0.relaunch
                == s.relaunch && x.0.toast == Some(
                "`"@ + program + "` not on PATH — cannot relaunch"@,
            ) && x.1 is Nothing)
            &&& code == KeyCode::Tab ==> r == Some(
                (
                    ShellV {
                        active: if s.active == 4 {
                            0
                        } else {
                            s.active + 1
                        },
                        ..s
                    },
                    EffectV::Nothing,
                ),
            )
            &&& code == KeyCode::BackTab ==> r == Some(
                (
                    ShellV {
                        active: if s.active == 0 {
                            4
                        } else {
                            s.active - 1
                        },
                        ..s
                    },
                    EffectV::Nothing,
                ),
            )
            &&& r is Some ==> code == KeyCode::Char('q') || code == KeyCode::Esc || code
                == KeyCode::Char('r') || code == KeyCode::Char('R') || code == KeyCode::Tab || code
                == KeyCode::BackTab
        }),
{
    crate::tui::key::cursors_go_round(s.active, 5);
}

/// While work holds the screen, Esc lets it go on without and q quits.
pub proof fn esc_lets_work_go_on(s: ShellV)
    ensures
        s.waiting(KeyCode::Esc).1 is Detach,
        s.waiting(KeyCode::Esc).0.job is None,
        s.waiting(KeyCode::Esc).0.detached == s.detached.push(
            Detached { kind: DetachedKind::Generic },
        ),
        s.waiting(KeyCode::Esc).0.should_quit == s.should_quit,
        s.waiting(KeyCode::Char('q')).0.should_quit,
        s.waiting(KeyCode::Char('q')).0.job == s.job,
{
}

/// What is asked for is done: it runs, under its own name and holding the screen, but for
/// quitting, reading anew and relaunching, which need no work, for a batch of questions, which
/// runs detached, and for a draft where the assistant cannot be run, which is told of.
pub proof fn what_is_asked_for_is_run(
    s: ShellV,
    a: ActionV,
    ctx: AppCtx,
    can_run: bool,
    now_ms: i64,
)
    ensures
        ({
            let (t, e) = s.acted(a, ctx, can_run, now_ms);
            &&& a is Quit ==> t.should_quit && e is Nothing
            &&& a is Refresh ==> t == s && e is Reload
            &&& a is RelaunchClaude ==> t.relaunch && e is Nothing
            &&& a is IndexAtoms ==> e == EffectV::RunDetached(a) && t.job == s.job && t.detached
                == s.detached.push(Detached { kind: DetachedKind::IndexAtoms })
            &&& a is DraftWithClaude && !can_run ==> e is Nothing && t.job == s.job && t.toast
                == Some(ctx.program@ + " not found — using scan draft"@)
            &&& !(a is Quit || a is Refresh || a is RelaunchClaude || a is IndexAtoms) && (can_run
                || !(a is DraftWithClaude)) ==> e == EffectV::Run(a) && (t.job matches Some(j)
                && Some(j.label) == label_of(a, ctx.cfg_path@, ctx.assistant@))
            &&& !(a is Quit) ==> t.should_quit == s.should_quit
            &&& !(a is RelaunchClaude) ==> t.relaunch == s.relaunch
            &&& t.active == s.active
        }),
{
    crate::tui::work::work_is_called_by_its_subject(Seq::empty(), ctx.cfg_path@, ctx.assistant@);
}

/// A session starts with the configuration that was kept, if there is one, over its own roots
/// or the default one, and with the repos of the last scan of just these roots; a draft is
/// offered only where there was no configuration and the assistant is there.
pub proof fn a_session_starts_from_what_was_kept(s: Startup)
    ensures
        ({
            let t = starting_tab(s);
            &&& s.config_existed ==> (s.config matches Some(p) ==> t.working == p@)
            &&& !s.config_existed || s.config is None ==> t.working == ProfilesV::empty()
            &&& t.working.scan_roots.len() > 0 ==> t.scan_roots == t.working.scan_roots
            &&& t.working.scan_roots.len() == 0 ==> t.scan_roots == seq![s.default_root@]
            &&& s.cache is None ==> t.inv.repos.len() == 0
            &&& s.cache matches Some(c) ==> {
                &&& c@.roots == t.scan_roots ==> t.inv.repos == c@.repos && t.scanned_at == Some(
                    c@.scanned_at,
                )
                &&& c@.roots != t.scan_roots ==> t.inv.repos.len() == 0
            }
            &&& t.inv.plugins == s.inv@.plugins
            &&& t.ai_offer <==> s.claude_available && !s.config_existed
            &&& t.config_to_save() is None
            &&& t.uncovered_to_save() is None
        }),
{
}

/// A spinner is up for two seconds at least, a message for four.
pub proof fn spinners_and_messages_have_their_time(s: ShellV, j: JobV, at_ms: i64)
    requires
        s.job == Some(j),
    ensures
        s.holds_back(at_ms) <==> at_ms - j.started_ms < 2000,
        TOAST_MS == 4000,
        BUSY_FRAME_MS == 100,
        IDLE_FRAME_MS == 1000,
{
}

/// Work that holds the screen is taken over only once its time is over; then its message
/// stands, unless it is empty, and the screen is free.
pub proof fn finished_work_frees_the_screen(s: ShellV, r: ResultV, now_ms: i64)
    ensures
        s.after_poll(PollV::Pending, now_ms) == s,
        s.after_poll(PollV::Done(r), now_ms).job is None,
        s.after_poll(PollV::Died, now_ms).toast == Some("operation aborted"@),
        r.toast.len() > 0 ==> s.after_poll(PollV::Done(r), now_ms).toast == Some(r.toast),
        r.toast.len() == 0 ==> s.after_poll(PollV::Done(r), now_ms).toast == s.toast,
        s.after_poll(PollV::Done(r), now_ms).detached == s.detached,
{
}

/// A reload is asked for just where some finished work asks for it.
pub proof fn a_reload_is_asked_for_by_finished_work(ps: Seq<PollV>)
    ensures
        reload_in(ps) <==> exists|i: int|
            0 <= i < ps.len() && #[trigger] ps[i] is Done && ps[i]->Done_0.needs_refresh,
{
    if reload_in(ps) {
        let i = choose|i: int| 0 <= i < ps.len() && asks_reload(#[trigger] ps[i]);
        assert(ps[i] is Done);
    }
    if exists|i: int| 0 <= i < ps.len() && #[trigger] ps[i] is Done && ps[i]->Done_0.needs_refresh {
        let i = choose|i: int|
            0 <= i < ps.len() && #[trigger] ps[i] is Done && ps[i]->Done_0.needs_refresh;
        assert(asks_reload(ps[i]));
    }
}

/// A key goes to the tab that is shown, in the order Overview, Accounts, Schedule, Profile,
/// Tasks; the others stay as they are. Which keys are kept from the hub is for the same tab to
/// say.
pub proof fn keys_go_to_the_shown_tab(pre: App, post: App, code: KeyCode, r: Option<Action>)
    requires
        pre.active < 5,
        pre.tab_steps(post, code, r),
    ensures
        pre.active != 1 ==> post.accounts == pre.accounts,
        pre.active != 2 ==> post.schedule == pre.schedule,
        pre.active != 3 ==> post.profile == pre.profile,
        pre.active != 4 ==> post.tasks == pre.tasks,
        pre.active == 1 ==> pre.accounts.steps(post.accounts, code, pre.ctx, pre.snap, r)
            && pre.claims(code) == pre.accounts.claims(code),
        pre.active == 2 ==> pre.schedule.steps(post.schedule, code, pre.ctx, pre.snap, r)
            && pre.claims(code) == pre.schedule.claims(code),
        pre.active == 3 ==> pre.profile.steps(post.profile, code, pre.ctx, pre.snap, r)
            && pre.claims(code) == TabView::claims(&pre.profile, code),
        pre.active == 4 ==> pre.tasks.steps(post.tasks, code, pre.ctx, pre.snap, r) && pre.claims(
            code,
        ) == pre.tasks.claims(code),
        post.snap == pre.snap,
        post.ctx == pre.ctx,
{
}

} // verus!
