//! What a tab is, and what it can ask for.

use vstd::prelude::*;

use crate::namemap::NameMap;
use crate::profile::config::{Profiles, ProfilesV};
use crate::profile::discover::{Inventory, InventoryV};
use crate::tui::ctx::AppCtx;
use crate::tui::key::{KeyCode, KeyEvent};
use crate::tui::snapshot::Snapshot;

verus! {

/// An intent that a tab hands to the app. Tabs never touch the disk themselves.
#[derive(Debug)]
pub enum Action {
    Quit,
    Refresh,
    Switch(String),
    Prime(String),
    RemoveAccount(String),
    RelaunchClaude,
    /// Write the schedule to disk and update the crontab.
    WriteSchedule(NameMap<Vec<String>>),
    /// Run a task now.
    RunTask(String),
    /// Remove a task.
    RemoveTask(String),
    /// Write the configuration, the global settings and the settings of the
    /// chosen repos. `expected` is what the preview promised for each of them.
    Commit { cfg: Profiles, repos: Vec<String>, expected: Vec<(String, Vec<String>)> },
    /// Ask the assistant to draft an assignment of plugins to profiles.
    DraftWithClaude { inv: Inventory, scan_roots: Vec<String> },
    /// Walk `roots` for repos.
    Rescan { roots: Vec<String>, working: Profiles },
    /// Answer `atoms` for `repos`.
    IndexAtoms { atoms: Vec<String>, repos: Vec<String> },
}

/// The contents of an action.
#[verifier::ext_equal]
pub enum ActionV {
    Quit,
    Refresh,
    Switch(Seq<char>),
    Prime(Seq<char>),
    RemoveAccount(Seq<char>),
    RelaunchClaude,
    WriteSchedule(Map<Seq<char>, Seq<Seq<char>>>),
    RunTask(Seq<char>),
    RemoveTask(Seq<char>),
    Commit {
        cfg: ProfilesV,
        repos: Seq<Seq<char>>,
        expected: Seq<(Seq<char>, Seq<Seq<char>>)>,
    },
    DraftWithClaude { inv: InventoryV, scan_roots: Seq<Seq<char>> },
    Rescan { roots: Seq<Seq<char>>, working: ProfilesV },
    IndexAtoms { atoms: Seq<Seq<char>>, repos: Seq<Seq<char>> },
}

impl View for Action {
    type V = ActionV;

    open spec fn view(&self) -> ActionV {
        match self {
            Action::Quit => ActionV::Quit,
            Action::Refresh => ActionV::Refresh,
            Action::Switch(a) => ActionV::Switch(a@),
            Action::Prime(a) => ActionV::Prime(a@),
            Action::RemoveAccount(a) => ActionV::RemoveAccount(a@),
            Action::RelaunchClaude => ActionV::RelaunchClaude,
            Action::WriteSchedule(m) => ActionV::WriteSchedule(
                m@.map_values(|t: Vec<String>| t.deep_view()),
            ),
            Action::RunTask(id) => ActionV::RunTask(id@),
            Action::RemoveTask(id) => ActionV::RemoveTask(id@),
            Action::Commit { cfg, repos, expected } => ActionV::Commit {
                cfg: cfg@,
                repos: repos.deep_view(),
                expected: expected.deep_view(),
            },
            Action::DraftWithClaude { inv, scan_roots } => ActionV::DraftWithClaude {
                inv: inv@,
                scan_roots: scan_roots.deep_view(),
            },
            Action::Rescan { roots, working } => ActionV::Rescan {
                roots: roots.deep_view(),
                working: working@,
            },
            Action::IndexAtoms { atoms, repos } => ActionV::IndexAtoms {
                atoms: atoms.deep_view(),
                repos: repos.deep_view(),
            },
        }
    }
}

/// The contents of an optional action.
pub open spec fn action_of(a: Option<Action>) -> Option<ActionV> {
    match a {
        Some(x) => Some(x@),
        None => None,
    }
}

/// Footer hints as texts: key and label.
pub open spec fn hint_texts(h: Vec<(&'static str, &'static str)>) -> Seq<(Seq<char>, Seq<char>)> {
    Seq::new(h@.len(), |i: int| (h@[i].0@, h@[i].1@))
}

/// One tab.
pub trait TabView: Sized {
    /// The tab's title.
    spec fn name(&self) -> Seq<char>;

    /// Whether the tab's state is consistent.
    spec fn ok(&self) -> bool;

    /// The keys the tab keeps from the app's global shortcuts.
    spec fn claims(&self, code: KeyCode) -> bool;

    /// The key hints for the footer.
    spec fn hints(&self) -> Seq<(Seq<char>, Seq<char>)>;

    /// What a key does: the tab goes over into `post` and asks for `r`.
    spec fn steps(
        self,
        post: Self,
        code: KeyCode,
        ctx: AppCtx,
        snap: Snapshot,
        r: Option<Action>,
    ) -> bool;

    /// The tab's title.
    fn title(&self) -> (r: &'static str)
        ensures
            r@ == self.name(),
    ;

    /// Whether the tab handles `code` itself, so that the app must not apply its
    /// global shortcut for it.
    fn claims_key(&self, code: KeyCode) -> (r: bool)
        ensures
            r == self.claims(code),
    ;

    /// Key hints for the footer, as key and label.
    fn footer_hints(&self) -> (r: Vec<(&'static str, &'static str)>)
        ensures
            hint_texts(r) == self.hints(),
    ;

    /// Acts on a key.
    fn on_key(&mut self, key: KeyEvent, ctx: &AppCtx, snap: &Snapshot) -> (r: Option<Action>)
        requires
            old(self).ok(),
        ensures
            final(self).ok(),
            old(self).steps(*final(self), key.code, *ctx, *snap, r),
    ;
}

} // verus!
