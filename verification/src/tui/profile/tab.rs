//! The Profile tab: the boards, the sub-views opened from them, and the batches of
//! rule atoms that still have to be indexed.

use vstd::prelude::*;

use crate::list::{self, listing, minus};
use crate::profile::config::{Profiles, ProfilesV};
use crate::profile::discover::{
    paths_of, repo_paths, Inventory, InventoryV, RepoSignal,
};
use crate::profile::draft::{merge_suggestions, with_suggestions};
use crate::profile::drift::{
    any_undecided, uncovered_from_signals, uncovered_paths, unassigned_keys, unplaced, Drift,
};
use crate::profile::plugins::{
    merge_into, merged, merging_keeps_names_distinct, merging_only_appends,
};
use crate::profile::signal_detect::{is_pending, matched_names};
use crate::tui::ctx::AppCtx;
use crate::tui::job::{merge_hits, with_hits, IndexOutcome, IndexV, ScanOutcome, ScanV};
use crate::tui::key::{
    down, down_any, is_down, is_up, next_in, prev_in, up, up_any, KeyCode, KeyEvent,
};
use crate::tui::profile::apply::{
    commit_of, ApplyOutcome, ApplyState, ApplyV,
};
use crate::tui::profile::assign::{AssignState, AssignV};
use crate::tui::profile::board;
use crate::tui::profile::by_plugin::{
    completion, first_at, first_of, MemberV, MembershipPick,
};
use crate::tui::profile::detail::{DetailFocus, DetailState, DetailV};
use crate::tui::profile::roots::{tidied, tidy, RootsEdit, RootsOutcome, RootsV};
use crate::tui::profile::rules::{preview, EditorKind, EditorV, RulesV};
use crate::tui::snapshot::Snapshot;
use crate::tui::view::{action_of, hint_texts, Action, ActionV, TabView};
use crate::tui::work::{rescan_result, scan_of, Walk};

verus! {

/// Which board is shown.
#[derive(Clone, Copy, Debug, PartialEq, Eq, Structural)]
pub enum ViewMode {
    ByPlugin,
    ByProfile,
}

/// Which sub-view has the keys.
#[derive(Debug)]
pub enum Sub {
    Board,
    Assign(AssignState),
    Detail(Box<DetailState>),
    Apply(ApplyState),
}

/// The Profile tab.
#[derive(Debug)]
pub struct ProfileView {
    pub inv: Inventory,
    pub working: Profiles,
    pub cursor: usize,
    pub plugin_cursor: usize,
    pub view: ViewMode,
    pub sub: Sub,
    pub uncovered: Vec<String>,
    pub claude_available: bool,
    pub ai_offer: bool,
    /// The open membership picker of the by-plugin board.
    pub pick: Option<MembershipPick>,
    /// The roots that a scan walks.
    pub scan_roots: Vec<String>,
    /// The open manager of scan roots.
    pub roots_editor: Option<RootsEdit>,
    /// Whether the On-demand help is open.
    pub on_demand_help: bool,
    /// The configuration as last handed out for saving.
    pub saved: Profiles,
    /// The uncovered repos as last handed out for saving.
    pub saved_uncovered: Vec<String>,
    /// The uncovered repos are not final: some repo needs an atom that the index lacks.
    pub uncovered_pending: bool,
    /// When the loaded repos were scanned, in epoch seconds.
    pub scanned_at: Option<i64>,
    /// Atoms that wait for the next batch.
    pub index_queue: Vec<String>,
    /// Whether a batch is under way.
    pub indexing: bool,
    /// The batch under way.
    pub indexing_atoms: Vec<String>,
    /// Whether an outdated index is being rebuilt.
    pub rebuilding: bool,
}

/// The contents of a sub-view.
#[verifier::ext_equal]
pub enum SubV {
    Board,
    Assign(AssignV),
    Detail(DetailV),
    Apply(ApplyV),
}

impl View for Sub {
    type V = SubV;

    open spec fn view(&self) -> SubV {
        match self {
            Sub::Board => SubV::Board,
            Sub::Assign(s) => SubV::Assign(s@),
            Sub::Detail(s) => SubV::Detail((**s)@),
            Sub::Apply(s) => SubV::Apply(s@),
        }
    }
}

/// The contents of the tab.
#[verifier::ext_equal]
pub struct TabV {
    pub inv: InventoryV,
    pub working: ProfilesV,
    pub cursor: int,
    pub plugin_cursor: int,
    pub view: ViewMode,
    pub sub: SubV,
    pub uncovered: Seq<Seq<char>>,
    pub claude_available: bool,
    pub ai_offer: bool,
    pub pick: Option<MemberV>,
    pub scan_roots: Seq<Seq<char>>,
    pub roots_editor: Option<RootsV>,
    pub on_demand_help: bool,
    pub saved: ProfilesV,
    pub saved_uncovered: Seq<Seq<char>>,
    pub uncovered_pending: bool,
    pub scanned_at: Option<i64>,
    pub index_queue: Seq<Seq<char>>,
    pub indexing: bool,
    pub indexing_atoms: Seq<Seq<char>>,
    pub rebuilding: bool,
}

/// The contents of an optional picker.
pub open spec fn member_of(o: Option<MembershipPick>) -> Option<MemberV> {
    match o {
        Some(p) => Some(p@),
        None => None,
    }
}

/// The contents of an optional manager.
pub open spec fn roots_of(o: Option<RootsEdit>) -> Option<RootsV> {
    match o {
        Some(e) => Some(e@),
        None => None,
    }
}

impl View for ProfileView {
    type V = TabV;

    open spec fn view(&self) -> TabV {
        TabV {
            inv: self.inv@,
            working: self.working@,
            cursor: self.cursor as int,
            plugin_cursor: self.plugin_cursor as int,
            view: self.view,
            sub: self.sub@,
            uncovered: self.uncovered.deep_view(),
            claude_available: self.claude_available,
            ai_offer: self.ai_offer,
            pick: member_of(self.pick),
            scan_roots: self.scan_roots.deep_view(),
            roots_editor: roots_of(self.roots_editor),
            on_demand_help: self.on_demand_help,
            saved: self.saved@,
            saved_uncovered: self.saved_uncovered.deep_view(),
            uncovered_pending: self.uncovered_pending,
            scanned_at: self.scanned_at,
            index_queue: self.index_queue.deep_view(),
            indexing: self.indexing,
            indexing_atoms: self.indexing_atoms.deep_view(),
            rebuilding: self.rebuilding,
        }
    }
}

/// The labels of the by-profile board, in order.
pub open spec fn labels(w: ProfilesV) -> Seq<Seq<char>> {
    seq!["Universal"@] + w.names() + seq!["Unassigned"@, "On-demand"@]
}

/// The roots that are not empty.
pub open spec fn nonempty(roots: Seq<Seq<char>>) -> Seq<Seq<char>> {
    roots.filter(|r: Seq<char>| r.len() > 0)
}

impl TabV {
    /// The tab as it is made. The uncovered repos come from a look at the repos
    /// themselves, which decides all of them: they are final, and count as saved.
    pub open spec fn made(
        inv: InventoryV,
        w: ProfilesV,
        can_draft: bool,
        offer: bool,
        uncovered: Seq<Seq<char>>,
    ) -> TabV {
        TabV {
            inv,
            working: w,
            cursor: 0,
            plugin_cursor: 0,
            view: ViewMode::ByPlugin,
            sub: SubV::Board,
            uncovered,
            claude_available: can_draft,
            ai_offer: can_draft && offer,
            pick: None,
            scan_roots: Seq::empty(),
            roots_editor: None,
            on_demand_help: false,
            saved: w,
            saved_uncovered: uncovered,
            uncovered_pending: false,
            scanned_at: None,
            index_queue: Seq::empty(),
            indexing: false,
            indexing_atoms: Seq::empty(),
            rebuilding: false,
        }
    }

    /// The uncovered repos brought up to date from the index. An undecided answer
    /// leaves the last one standing, and marks it as not final.
    pub open spec fn recovered(self) -> TabV {
        let names = self.working.names();
        let open_answer = any_undecided(self.inv.repos, names, self.working.profiles);
        TabV {
            uncovered: if open_answer {
                self.uncovered
            } else {
                uncovered_paths(self.inv.repos, names, self.working.profiles)
            },
            uncovered_pending: open_answer,
            ..self
        }
    }

    /// The request for a draft: with the roots to scan first, those of the
    /// configuration if it has any.
    pub open spec fn draft(self) -> ActionV {
        ActionV::DraftWithClaude {
            inv: self.inv,
            scan_roots: if self.working.scan_roots.len() == 0 {
                nonempty(self.scan_roots)
            } else {
                self.working.scan_roots
            },
        }
    }

    /// The request for a scan; none without a root.
    pub open spec fn rescan(self) -> Option<ActionV> {
        if nonempty(self.scan_roots).len() == 0 {
            None
        } else {
            Some(ActionV::Rescan { roots: nonempty(self.scan_roots), working: self.working })
        }
    }

    /// A key that the board answers at once: the help overlay, the offer of a draft,
    /// a draft, a scan, or the picker.
    pub open spec fn at_once(self, code: KeyCode) -> Option<(TabV, Option<ActionV>)> {
        if self.on_demand_help {
            Some((TabV { on_demand_help: code != KeyCode::Esc, ..self }, None))
        } else if self.ai_offer && code == KeyCode::Char('n') {
            Some((TabV { ai_offer: false, ..self }, None))
        } else if (self.ai_offer && code == KeyCode::Char('y')) || (self.claude_available && code
            == KeyCode::Char('a')) {
            Some((TabV { ai_offer: false, ..self }, Some(self.draft())))
        } else if code == KeyCode::Char('s') && self.pick is None {
            Some((self, self.rescan()))
        } else {
            match (self.view, self.pick) {
                (ViewMode::ByPlugin, Some(p)) => {
                    let (q, w) = p.after(code, self.working);
                    Some((TabV { pick: q, working: w, ..self }, None))
                },
                _ => None,
            }
        }
    }

    /// The Apply sub-view, opened.
    pub open spec fn with_apply(self) -> TabV {
        TabV { sub: SubV::Apply(ApplyV::opened(self.inv.repos, self.working)), ..self }
    }

    /// The by-plugin board after a key.
    pub open spec fn browsed_plugins(self, code: KeyCode) -> TabV {
        let n = self.inv.plugins.len() as int;
        if is_up(code) && n > 0 {
            TabV { plugin_cursor: prev_in(self.plugin_cursor, n), ..self }
        } else if is_down(code) && n > 0 {
            TabV { plugin_cursor: next_in(self.plugin_cursor, n), ..self }
        } else if code == KeyCode::Char('v') {
            TabV { view: ViewMode::ByProfile, ..self }
        } else if code == KeyCode::Char('r') {
            TabV { roots_editor: Some(RootsV::opened(self.scan_roots)), ..self }
        } else if code == KeyCode::Enter && n > 0 {
            TabV {
                pick: Some(
                    MemberV::opened(self.working, self.inv.plugins[self.plugin_cursor].key),
                ),
                ..self
            }
        } else if code == KeyCode::Char('w') {
            self.with_apply()
        } else {
            self
        }
    }

    /// The sub-view that Enter opens on the by-profile board.
    pub open spec fn opened_row(self) -> SubV {
        let all = labels(self.working);
        let free = first_at(all, "Unassigned"@, 0);
        let queue = listing(unplaced(self.inv, self.working));
        if self.cursor == free {
            if queue.len() > 0 {
                SubV::Assign(AssignV::opened(queue))
            } else {
                self.sub
            }
        } else if 0 < self.cursor < free && self.working.profiles.contains_key(all[self.cursor]) {
            SubV::Detail(DetailV::opened(all[self.cursor], self.inv, self.working))
        } else {
            self.sub
        }
    }

    /// Whether the cursor is on the On-demand row.
    pub open spec fn on_on_demand(self) -> bool {
        self.cursor < labels(self.working).len() && labels(self.working)[self.cursor]
            == "On-demand"@
    }

    /// The by-profile board after a key.
    pub open spec fn browsed_profiles(self, code: KeyCode) -> TabV {
        let n = labels(self.working).len() as int;
        if code == KeyCode::Char('v') {
            TabV { view: ViewMode::ByPlugin, ..self }
        } else if is_up(code) {
            TabV { cursor: prev_in(self.cursor, n), ..self }
        } else if is_down(code) {
            TabV { cursor: next_in(self.cursor, n), ..self }
        } else if code == KeyCode::Enter {
            TabV { sub: self.opened_row(), ..self }
        } else if code == KeyCode::Char('w') {
            self.with_apply()
        } else if code == KeyCode::Char('?') && self.on_on_demand() {
            TabV { on_demand_help: true, ..self }
        } else {
            self
        }
    }

    /// No atom waits twice, none is twice in the batch under way, and a batch is under
    /// way just when it has atoms.
    pub open spec fn batches_ok(self) -> bool {
        &&& self.index_queue.no_duplicates()
        &&& self.indexing_atoms.no_duplicates()
        &&& self.indexing <==> self.indexing_atoms.len() > 0
    }

    /// The tab after a key in the manager of scan roots. Closing it commits the
    /// roots, tidied, to the tab and to the configuration.
    pub open spec fn after_roots(self, e: RootsV, code: KeyCode, home: Seq<char>) -> TabV {
        match e.after(code, home) {
            Some(x) => TabV { roots_editor: Some(x), ..self },
            None => TabV {
                roots_editor: None,
                scan_roots: tidy(e.roots),
                working: ProfilesV { scan_roots: tidy(e.roots), ..self.working },
                ..self
            },
        }
    }

    /// The tab after a key in a sub-view.
    pub open spec fn after_sub(self, code: KeyCode) -> (TabV, Option<ActionV>) {
        match self.sub {
            SubV::Board => (self, None),
            SubV::Assign(s) => {
                let (a, w, done) = s.after(code, self.working);
                if done {
                    (TabV { sub: SubV::Board, working: w, ..self }.recovered(), None)
                } else {
                    (TabV { sub: SubV::Assign(a), working: w, ..self }, None)
                }
            },
            SubV::Detail(s) => {
                let (d, w, done) = s.after(code, self.inv.repos, self.working);
                if done {
                    let closed = TabV { sub: SubV::Board, working: w, ..self };
                    (
                        if d.changed() {
                            closed.recovered()
                        } else {
                            closed
                        },
                        None,
                    )
                } else {
                    (TabV { sub: SubV::Detail(d), working: w, ..self }, None)
                }
            },
            SubV::Apply(s) => if code == KeyCode::Enter {
                (
                    TabV { sub: SubV::Board, ..self },
                    Some(commit_of(s, self.working)),
                )
            } else if code == KeyCode::Esc {
                (TabV { sub: SubV::Board, ..self }, None)
            } else {
                (TabV { sub: SubV::Apply(s.after(code)), ..self }, None)
            },
        }
    }

    /// The atoms that the rules editor has just asked for, moved to the queue, none twice.
    pub open spec fn drained(self) -> TabV {
        match self.sub {
            SubV::Detail(d) => TabV {
                index_queue: merged(self.index_queue, d.rules.wants_index),
                sub: SubV::Detail(
                    DetailV {
                        rules: RulesV { wants_index: Seq::empty(), ..d.rules },
                        ..d
                    },
                ),
                ..self
            },
            _ => self,
        }
    }

    /// The note in an open rules editor that a batch is under way, or is not.
    pub open spec fn with_note(self, under_way: bool) -> SubV {
        match self.sub {
            SubV::Detail(d) => SubV::Detail(
                DetailV { rules: RulesV { indexing: under_way, ..d.rules }, ..d },
            ),
            other => other,
        }
    }

    /// What follows a key: queued atoms are drained, and sent off as a batch once no
    /// other batch is under way and nothing else is asked for.
    pub open spec fn settled(self, action: Option<ActionV>) -> (TabV, Option<ActionV>) {
        let v = self.drained();
        if action is None && v.index_queue.len() > 0 && !v.indexing {
            (
                TabV {
                    index_queue: Seq::empty(),
                    indexing: true,
                    indexing_atoms: v.index_queue,
                    sub: v.with_note(true),
                    ..v
                },
                Some(
                    ActionV::IndexAtoms {
                        atoms: v.index_queue,
                        repos: repo_paths(v.inv.repos),
                    },
                ),
            )
        } else {
            (v, action)
        }
    }

    /// The tab after a key, and what it asks for.
    pub open spec fn after(self, code: KeyCode, home: Seq<char>) -> (TabV, Option<ActionV>) {
        match self.sub {
            SubV::Board => match self.roots_editor {
                Some(e) => self.after_roots(e, code, home).settled(None),
                None => match self.at_once(code) {
                    Some(x) => x,
                    None => match self.view {
                        ViewMode::ByPlugin => self.browsed_plugins(code).settled(None),
                        ViewMode::ByProfile => self.browsed_profiles(code).settled(None),
                    },
                },
            },
            _ => {
                let (v, a) = self.after_sub(code);
                v.settled(a)
            },
        }
    }

    /// The keys that the tab keeps to itself.
    pub open spec fn claims(self, code: KeyCode) -> bool {
        let tab = code == KeyCode::Tab || code == KeyCode::BackTab;
        if let Some(e) = self.roots_editor {
            if e.input is Some {
                !tab
            } else {
                code == KeyCode::Esc
            }
        } else if self.on_demand_help {
            code == KeyCode::Esc || tab
        } else {
            match self.sub {
                SubV::Detail(s) => if s.explain is Some {
                    code == KeyCode::Esc || tab
                } else if s.rules.editor is Some || s.rules.pick is Some {
                    true
                } else if s.renaming is Some || self.picker_naming() {
                    !tab
                } else {
                    code == KeyCode::Esc || code == KeyCode::Tab || code == KeyCode::Char('r')
                },
                SubV::Assign(s) => if s.naming is Some || self.picker_naming() {
                    !tab
                } else {
                    code == KeyCode::Esc
                },
                SubV::Apply(_) => if self.picker_naming() {
                    !tab
                } else {
                    code == KeyCode::Esc
                },
                SubV::Board => if self.picker_naming() {
                    !tab
                } else {
                    self.view is ByPlugin && if self.pick is Some {
                        code == KeyCode::Esc
                    } else {
                        code == KeyCode::Char('r')
                    }
                },
            }
        }
    }

    /// Whether the picker is typing a name.
    pub open spec fn picker_naming(self) -> bool {
        self.view is ByPlugin && (self.pick matches Some(p) && p.naming is Some)
    }

    /// The hints of an open detail view.
    pub open spec fn detail_hints(s: DetailV) -> Seq<(Seq<char>, Seq<char>)> {
        if s.renaming is Some {
            seq![("⏎"@, "confirm"@), ("esc"@, "cancel"@)]
        } else if s.explain is Some {
            seq![("↑↓"@, "choose repo"@), ("esc"@, "back"@)]
        } else if s.rules.pick is Some {
            seq![("↑↓"@, "choose"@), ("⏎"@, "prefill"@), ("esc"@, "cancel"@)]
        } else if s.rules.editor is Some {
            if s.rules.editor->0.kind == Some(EditorKind::PathUnder) {
                seq![("⏎"@, "save"@), ("→"@, "complete"@), ("esc"@, "cancel"@)]
            } else {
                seq![("⏎"@, "save"@), ("esc"@, "cancel"@), ("⇥"@, "field"@)]
            }
        } else {
            match s.focus {
                DetailFocus::Plugins => seq![
                    ("space"@, "toggle"@),
                    ("⏎"@, "done"@),
                    ("Tab"@, "plugins/rules"@),
                    ("r"@, "rename"@),
                    ("del"@, "delete"@),
                ],
                DetailFocus::Rules => seq![
                    ("a"@, "add"@),
                    ("e"@, "edit"@),
                    ("d"@, "del"@),
                    ("f"@, "from repo"@),
                    ("?"@, "explain"@),
                    ("⏎"@, "done"@),
                    ("Tab"@, "plugins/rules"@),
                ],
            }
        }
    }

    /// The hints of the by-plugin board.
    pub open spec fn plugin_hints(self) -> Seq<(Seq<char>, Seq<char>)> {
        if let Some(e) = self.roots_editor {
            if e.input is Some {
                seq![("⏎"@, "confirm"@), ("→"@, "complete"@), ("esc"@, "cancel"@)]
            } else {
                seq![
                    ("↑↓"@, "move"@),
                    ("⏎"@, "edit"@),
                    ("a"@, "add"@),
                    ("d"@, "remove"@),
                    ("esc"@, "done"@),
                ]
            }
        } else if let Some(p) = self.pick {
            if p.naming is Some {
                seq![("⏎"@, "confirm"@), ("esc"@, "cancel"@)]
            } else {
                seq![("space"@, "toggle"@), ("⏎"@, "done"@), ("esc"@, "cancel"@)]
            }
        } else {
            seq![
                ("↑↓"@, "browse"@),
                ("⏎"@, "assign"@),
                ("v"@, "by-profile"@),
                ("w"@, "apply"@),
            ] + if self.claude_available {
                seq![("a"@, "draft"@)]
            } else {
                Seq::empty()
            }
        }
    }

    /// The hints of the by-profile board.
    pub open spec fn profile_hints(self) -> Seq<(Seq<char>, Seq<char>)> {
        if self.on_demand_help {
            seq![("esc"@, "close"@)]
        } else {
            seq![("↑↓"@, "select"@), ("⏎"@, "open"@), ("s"@, "scan"@), ("w"@, "apply"@)]
                + if self.claude_available {
                seq![("a"@, "ai draft"@)]
            } else {
                Seq::empty()
            } + if self.on_on_demand() {
                seq![("?"@, "what is on-demand?"@)]
            } else {
                Seq::empty()
            }
        }
    }

    /// The hints for the footer.
    pub open spec fn hints(self) -> Seq<(Seq<char>, Seq<char>)> {
        match self.sub {
            SubV::Assign(_) => seq![("↑↓"@, "choose"@), ("⏎"@, "assign"@), ("esc"@, "back"@)],
            SubV::Apply(_) => seq![
                ("space"@, "toggle"@),
                ("⏎"@, "write"@),
                ("x"@, "explain"@),
                ("esc"@, "back"@),
            ],
            SubV::Detail(s) => TabV::detail_hints(s),
            SubV::Board => match self.view {
                ViewMode::ByPlugin => self.plugin_hints(),
                ViewMode::ByProfile => self.profile_hints(),
            },
        }
    }

    /// The tab with a completed scan folded in: its repos and suggestions, the
    /// profiles it suggests under names that are free, its roots, and its uncovered
    /// repos, which are final.
    pub open spec fn scanned(self, o: ScanV) -> TabV {
        TabV {
            inv: InventoryV { repos: o.repos, suggested_profiles: o.suggested, ..self.inv },
            working: ProfilesV {
                profiles: with_suggestions(self.working.profiles, o.suggested),
                scan_roots: o.roots,
                ..self.working
            },
            uncovered: o.uncovered,
            uncovered_pending: false,
            ..self
        }
    }

    /// The tab with the answers of a batch folded in. Only a batch of atoms ends the
    /// batch under way: answers without one are a refresh.
    pub open spec fn indexed(self, o: IndexV) -> TabV {
        let inv = InventoryV { repos: with_hits(self.inv.repos, o.hits), ..self.inv };
        let ends = o.atoms.len() > 0;
        TabV {
            inv,
            index_queue: minus(self.index_queue, o.atoms),
            indexing: self.indexing && !ends,
            indexing_atoms: if ends {
                Seq::empty()
            } else {
                self.indexing_atoms
            },
            sub: match self.sub {
                SubV::Detail(d) => SubV::Detail(
                    DetailV {
                        rules: RulesV {
                            indexing: d.rules.indexing && !ends,
                            preview: preview(d.rules.detect, inv.repos),
                            ..d.rules
                        },
                        ..d
                    },
                ),
                other => other,
            },
            ..self
        }.recovered()
    }

    /// The tab with the completion that the subdirectories `names` offer for the path
    /// being typed.
    pub open spec fn offered(self, names: Seq<Seq<char>>) -> TabV {
        match self.sub {
            SubV::Board => TabV {
                roots_editor: match self.roots_editor {
                    Some(e) => Some(
                        match e.input {
                            Some(i) => RootsV { suggestion: completion(i.chars, names), ..e },
                            None => e,
                        },
                    ),
                    None => None,
                },
                ..self
            },
            SubV::Detail(d) => TabV {
                sub: SubV::Detail(
                    DetailV {
                        rules: RulesV {
                            editor: match d.rules.editor {
                                Some(e) => Some(
                                    if e.kind == Some(EditorKind::PathUnder) {
                                        EditorV {
                                            suggestion: completion(e.file.chars, names),
                                            ..e
                                        }
                                    } else {
                                        e
                                    },
                                ),
                                None => None,
                            },
                            ..d.rules
                        },
                        ..d
                    },
                ),
                ..self
            },
            _ => self,
        }
    }

    /// The configuration to save, if it changed since it was last handed out.
    pub open spec fn config_to_save(self) -> Option<ProfilesV> {
        if self.working == self.saved {
            None
        } else {
            Some(self.working)
        }
    }

    /// The uncovered repos to save, if they changed since they were last handed out.
    pub open spec fn uncovered_to_save(self) -> Option<Seq<Seq<char>>> {
        if self.uncovered == self.saved_uncovered {
            None
        } else {
            Some(self.uncovered)
        }
    }

    /// The tab once its configuration has been handed out.
    pub open spec fn config_saved(self) -> TabV {
        TabV { saved: self.working, ..self }
    }

    /// The tab once its uncovered repos have been handed out.
    pub open spec fn uncovered_saved(self) -> TabV {
        TabV { saved_uncovered: self.uncovered, ..self }
    }

    /// The tab once the batch under way has died: its atoms go back to the queue, first.
    pub open spec fn index_failed(self) -> TabV {
        TabV {
            index_queue: merged(self.indexing_atoms, self.index_queue),
            indexing: false,
            indexing_atoms: Seq::empty(),
            sub: self.with_note(false),
            ..self
        }
    }
}

/// A batch is never sent while another is under way, and an answered batch lets the
/// next one go.
pub proof fn batches_are_sequential(v: TabV, action: Option<ActionV>)
    ensures
        v.indexing ==> v.settled(action).1 == action && v.settled(action).0.indexing,
        !v.indexing && action is None ==> v.settled(action).0.index_queue.len() == 0,
        action is Some ==> v.settled(action).1 == action,
{
}

/// Settling sends no atom twice and leaves none waiting twice.
proof fn lemma_settled_batches(v: TabV, action: Option<ActionV>)
    requires
        v.batches_ok(),
    ensures
        v.settled(action).0.batches_ok(),
        v.drained().index_queue.no_duplicates(),
{
    if let SubV::Detail(d) = v.sub {
        merging_keeps_names_distinct(v.index_queue, d.rules.wants_index);
    }
}

/// A key keeps the batches in order: no atom is queued or sent twice, none is sent while
/// a batch is under way, and what is sent is the whole queue, for every repo in order.
pub proof fn keys_keep_batches_distinct(v: TabV, code: KeyCode, home: Seq<char>)
    requires
        v.batches_ok(),
    ensures
        v.after(code, home).0.batches_ok(),
        v.after(code, home).1 matches Some(ActionV::IndexAtoms { atoms, repos }) ==> {
            let post = v.after(code, home).0;
            &&& !v.indexing
            &&& atoms.len() > 0
            &&& atoms.no_duplicates()
            &&& repos == repo_paths(v.inv.repos)
            &&& post.inv == v.inv
            &&& post.indexing
            &&& post.indexing_atoms == atoms
            &&& post.index_queue == Seq::<Seq<char>>::empty()
        },
{
    match v.sub {
        SubV::Board => match v.roots_editor {
            Some(e) => {
                lemma_settled_batches(v.after_roots(e, code, home), None);
            },
            None => if v.at_once(code) is None {
                lemma_settled_batches(v.browsed_plugins(code), None);
                lemma_settled_batches(v.browsed_profiles(code), None);
            },
        },
        _ => {
            let (u, a) = v.after_sub(code);
            lemma_settled_batches(u, a);
        },
    }
}

/// Answers keep the batches in order.
pub proof fn answers_keep_batches_distinct(v: TabV, o: IndexV)
    requires
        v.batches_ok(),
    ensures
        v.indexed(o).batches_ok(),
{
    list::lemma_filter_distinct(v.index_queue, |k: Seq<char>| !o.atoms.contains(k));
}

/// A batch that died keeps the batches in order.
pub proof fn dead_batches_keep_batches_distinct(v: TabV)
    requires
        v.batches_ok(),
    ensures
        v.index_failed().batches_ok(),
{
    merging_keeps_names_distinct(v.indexing_atoms, v.index_queue);
}

/// An answered atom does not stay in the queue.
pub proof fn answered_atoms_leave_the_queue(v: TabV, o: IndexV, atom: Seq<char>)
    requires
        o.atoms.contains(atom),
    ensures
        !v.indexed(o).index_queue.contains(atom),
        !v.indexed(o).indexing,
{
    list::lemma_filter_contains(v.index_queue, |k: Seq<char>| !o.atoms.contains(k));
}

/// A batch that died is sent again by the next settled key: nothing is lost.
pub proof fn dead_batch_is_retried(v: TabV)
    requires
        v.indexing_atoms.len() > 0,
    ensures
        ({
            let (after, a) = v.index_failed().settled(None);
            &&& a matches Some(ActionV::IndexAtoms { atoms, .. }) && forall|k: Seq<char>|
                v.indexing_atoms.contains(k) ==> #[trigger] atoms.contains(k)
            &&& after.indexing
        }),
{
    let f = v.index_failed();
    merging_only_appends(v.indexing_atoms, v.index_queue);
    assert(v.indexing_atoms =~= f.index_queue.subrange(0, v.indexing_atoms.len() as int));
    let sent = match f.sub {
        SubV::Detail(d) => {
            merging_only_appends(f.index_queue, d.rules.wants_index);
            merged(f.index_queue, d.rules.wants_index)
        },
        _ => f.index_queue,
    };
    assert forall|k: Seq<char>| v.indexing_atoms.contains(k) implies #[trigger] sent.contains(
        k,
    ) by {
        let i = choose|i: int| 0 <= i < v.indexing_atoms.len() && v.indexing_atoms[i] == k;
        assert(f.index_queue[i] == k);
        assert(sent[i] == k);
    }
}

/// A change is handed out to be saved once: right after, there is nothing to save.
pub proof fn changes_are_saved_once(v: TabV)
    ensures
        v.config_saved().config_to_save() is None,
        v.uncovered_saved().uncovered_to_save() is None,
        v.config_saved().uncovered_to_save() == v.uncovered_to_save(),
{
}

/// While the help is open, every key but Esc is swallowed.
pub proof fn open_help_swallows_keys(v: TabV, code: KeyCode, home: Seq<char>)
    requires
        v.sub is Board,
        v.roots_editor is None,
        v.on_demand_help,
    ensures
        v.after(code, home) == (
            if code == KeyCode::Esc {
                TabV { on_demand_help: false, ..v }
            } else {
                v
            },
            None::<ActionV>,
        ),
{
}

/// A scan that is folded in keeps every profile, and is idempotent.
pub proof fn scan_keeps_profiles(v: TabV, o: ScanV)
    ensures
        forall|k: Seq<char>| #[trigger]
            v.working.profiles.contains_key(k) ==> v.scanned(o).working.profiles.contains_key(k)
                && v.scanned(o).working.profiles[k] == v.working.profiles[k],
        v.scanned(o).scanned(o) == v.scanned(o),
{
    crate::profile::draft::suggestions_keep_existing(v.working.profiles, o.suggested);
    crate::profile::draft::suggestions_idempotent(v.working.profiles, o.suggested);
    assert(v.scanned(o).scanned(o) =~= v.scanned(o));
}

impl ProfileView {
    /// Cursors are on rows, every open picker, manager and sub-view is in shape, and no
    /// atom is queued or under way twice.
    pub open spec fn wf(self) -> bool {
        &&& self@.batches_ok()
        &&& self.inv.plugins.len() == 0 || self.plugin_cursor < self.inv.plugins.len()
        &&& self.pick matches Some(p) ==> p@.ok()
        &&& self.roots_editor matches Some(e) ==> e@.ok()
        &&& match self.sub {
            Sub::Board => true,
            Sub::Assign(s) => s.idx < s.queue.len(),
            Sub::Detail(s) => s.wf(),
            Sub::Apply(s) => s@.ok(),
        }
    }

    /// The tab on an inventory and a configuration. A draft is offered on a first
    /// run, if the assistant is there to make it. `uncovered` are the repos of the
    /// inventory that match nothing, as a look at the repos on disk found; none where the
    /// inventory has no repos.
    pub fn new(
        inv: Inventory,
        working: Profiles,
        claude_available: bool,
        offer: bool,
        uncovered: Vec<String>,
    ) -> (r: ProfileView)
        ensures
            r@ == TabV::made(inv@, working@, claude_available, offer, uncovered.deep_view()),
            r.wf(),
    {
        let saved = working.clone();
        let saved_uncovered = list::copy(&uncovered);
        let r = ProfileView {
            inv,
            working,
            cursor: 0,
            plugin_cursor: 0,
            view: ViewMode::ByPlugin,
            sub: Sub::Board,
            uncovered,
            claude_available,
            ai_offer: claude_available && offer,
            pick: None,
            scan_roots: Vec::new(),
            roots_editor: None,
            on_demand_help: false,
            saved,
            saved_uncovered,
            uncovered_pending: false,
            scanned_at: None,
            index_queue: Vec::new(),
            indexing: false,
            indexing_atoms: Vec::new(),
            rebuilding: false,
        };
        assert(r@ =~= TabV::made(
            inv@,
            working@,
            claude_available,
            offer,
            uncovered.deep_view(),
        ));
        r
    }

    /// The tab with these scan roots.
    pub fn with_scan_roots(self, roots: Vec<String>) -> (r: ProfileView)
        requires
            self.wf(),
        ensures
            r@ == (TabV { scan_roots: roots.deep_view(), ..self@ }),
            r.wf(),
    {
        let mut v = self;
        v.scan_roots = roots;
        v
    }

    /// The tab with the time of its last scan.
    pub fn with_scanned_at(self, at: Option<i64>) -> (r: ProfileView)
        requires
            self.wf(),
        ensures
            r@ == (TabV { scanned_at: at, ..self@ }),
            r.wf(),
    {
        let mut v = self;
        v.scanned_at = at;
        v
    }

    /// The tab with these repos, nothing recomputed.
    pub fn with_scan_repos(self, repos: Vec<RepoSignal>) -> (r: ProfileView)
        requires
            self.wf(),
        ensures
            r@ == (TabV {
                inv: InventoryV { repos: repos.deep_view(), ..self@.inv },
                ..self@
            }),
            r.wf(),
    {
        let mut v = self;
        v.inv.repos = repos;
        v
    }

    /// The tab with these uncovered repos, taken as saved.
    pub fn with_uncovered(self, uncovered: Vec<String>) -> (r: ProfileView)
        requires
            self.wf(),
        ensures
            r@ == (TabV {
                uncovered: uncovered.deep_view(),
                saved_uncovered: uncovered.deep_view(),
                ..self@
            }),
            r.wf(),
    {
        let mut v = self;
        v.saved_uncovered = list::copy(&uncovered);
        v.uncovered = uncovered;
        v
    }

    /// The tab with its uncovered repos marked as final or not.
    pub fn with_uncovered_pending(self, pending: bool) -> (r: ProfileView)
        requires
            self.wf(),
        ensures
            r@ == (TabV { uncovered_pending: pending, ..self@ }),
            r.wf(),
    {
        let mut v = self;
        v.uncovered_pending = pending;
        v
    }

    /// The tab with the note that its index is being rebuilt, or without.
    pub fn with_index_rebuilding(self, rebuilding: bool) -> (r: ProfileView)
        requires
            self.wf(),
        ensures
            r@ == (TabV { rebuilding, ..self@ }),
            r.wf(),
    {
        let mut v = self;
        v.rebuilding = rebuilding;
        v
    }

    /// The roots that a scan walks; none when there is nothing to walk.
    pub fn nonempty_scan_roots(&self) -> (r: Option<Vec<String>>)
        ensures
            match r {
                Some(v) => v.deep_view() == nonempty(self@.scan_roots) && v.deep_view().len() > 0,
                None => nonempty(self@.scan_roots).len() == 0,
            },
    {
        let ghost all = self.scan_roots.deep_view();
        let ghost p = |r: Seq<char>| r.len() > 0;
        let mut out: Vec<String> = Vec::new();
        proof {
            list::lemma_filter_empty(p);
            assert(all.take(0) =~= Seq::<Seq<char>>::empty());
            assert(out.deep_view() =~= all.take(0).filter(p));
        }
        let mut i: usize = 0;
        while i < self.scan_roots.len()
            invariant
                i <= self.scan_roots.len(),
                all == self.scan_roots.deep_view(),
                p == (|r: Seq<char>| r.len() > 0),
                out.deep_view() == all.take(i as int).filter(p),
            decreases self.scan_roots.len() - i,
        {
            let ghost before = out.deep_view();
            proof {
                assert(all.take(i + 1) =~= all.take(i as int).push(all[i as int]));
                list::lemma_filter_push(all.take(i as int), all[i as int], p);
                assert(all[i as int] == self.scan_roots[i as int]@);
            }
            if !self.scan_roots[i].as_str().is_empty() {
                out.push(self.scan_roots[i].clone());
                assert(out.deep_view() =~= before.push(all[i as int]));
            }
            i += 1;
        }
        assert(all.take(i as int) =~= all);
        assert(out.len() == out.deep_view().len());
        if out.len() == 0 {
            None
        } else {
            Some(out)
        }
    }

    /// The request for a draft.
    fn draft_action(&self) -> (r: Action)
        ensures
            r@ == self@.draft(),
    {
        assert(self.working.scan_roots.len() == self@.working.scan_roots.len());
        let scan_roots = if self.working.scan_roots.len() == 0 {
            match self.nonempty_scan_roots() {
                Some(v) => v,
                None => {
                    let none: Vec<String> = Vec::new();
                    assert(none.deep_view() =~= nonempty(self@.scan_roots));
                    none
                },
            }
        } else {
            list::copy(&self.working.scan_roots)
        };
        Action::DraftWithClaude { inv: self.inv.clone(), scan_roots }
    }

    /// Folds a completed scan in.
    pub fn apply_scan(&mut self, outcome: ScanOutcome)
        requires
            old(self).wf(),
        ensures
            final(self)@ == old(self)@.scanned(outcome@),
            final(self).wf(),
    {
        let ghost v = self@;
        self.inv.suggested_profiles = outcome.suggested;
        self.inv.repos = outcome.repos;
        merge_suggestions(&mut self.working, &self.inv.suggested_profiles);
        self.working.scan_roots = outcome.roots;
        self.uncovered = outcome.uncovered;
        self.uncovered_pending = false;
        assert(self@ =~= v.scanned(outcome@));
    }

    /// Folds in what a walk of the scan roots found. Without a root to walk, nothing
    /// happens.
    pub fn scan(&mut self, walk: Walk)
        requires
            old(self).wf(),
        ensures
            final(self)@ == if nonempty(old(self)@.scan_roots).len() == 0 {
                old(self)@
            } else {
                old(self)@.scanned(
                    scan_of(old(self)@.working, nonempty(old(self)@.scan_roots), walk),
                )
            },
            final(self).wf(),
    {
        if let Some(roots) = self.nonempty_scan_roots() {
            let (result, _cache) = rescan_result(&self.working, roots, walk);
            if let Some(outcome) = result.scan {
                self.apply_scan(outcome);
            }
        }
    }

    fn refresh_uncovered(&mut self)
        requires
            old(self).wf(),
        ensures
            final(self)@ == old(self)@.recovered(),
            final(self).wf(),
            final(self).sub == old(self).sub,
    {
        let ghost v = self@;
        let (unc, pending) = uncovered_from_signals(&self.inv.repos, &self.working);
        if !pending {
            self.uncovered = unc;
        }
        self.uncovered_pending = pending;
        assert(self@ =~= v.recovered());
    }

    /// Takes over a drafted configuration.
    pub fn accept_draft(&mut self, draft: Profiles)
        requires
            old(self).wf(),
        ensures
            final(self)@ == (TabV { working: draft@, ai_offer: false, ..old(self)@ }).recovered(),
            final(self).wf(),
    {
        let ghost v = self@;
        self.working = draft;
        self.ai_offer = false;
        assert(self@ =~= (TabV { working: draft@, ai_offer: false, ..v }));
        self.refresh_uncovered();
    }

    /// Takes over a completed scan. It leaves nothing to rebuild.
    pub fn accept_scan(&mut self, outcome: ScanOutcome)
        requires
            old(self).wf(),
        ensures
            final(self)@ == (TabV {
                scanned_at: Some(outcome.scanned_at),
                rebuilding: false,
                ..old(self)@
            }).scanned(outcome@),
            final(self).wf(),
    {
        self.scanned_at = Some(outcome.scanned_at);
        self.rebuilding = false;
        self.apply_scan(outcome);
    }

    /// Takes over a recomputed set of uncovered repos.
    pub fn accept_uncovered(&mut self, uncovered: Vec<String>)
        requires
            old(self).wf(),
        ensures
            final(self)@ == (TabV { uncovered: uncovered.deep_view(), ..old(self)@ }),
            final(self).wf(),
    {
        self.uncovered = uncovered;
    }

    fn note_indexing(&mut self, under_way: bool)
        requires
            old(self).wf(),
        ensures
            final(self)@ == (TabV { sub: old(self)@.with_note(under_way), ..old(self)@ }),
            final(self).wf(),
    {
        let ghost v = self@;
        let mut sub = Sub::Board;
        core::mem::swap(&mut sub, &mut self.sub);
        self.sub = match sub {
            Sub::Detail(b) => {
                let mut d = b;
                d.rules.indexing = under_way;
                Sub::Detail(d)
            },
            other => other,
        };
        assert(self@ =~= (TabV { sub: v.with_note(under_way), ..v }));
    }

    /// Takes over the answers of a batch.
    #[verifier::spinoff_prover]
    pub fn accept_index(&mut self, o: IndexOutcome)
        requires
            old(self).wf(),
        ensures
            final(self)@ == old(self)@.indexed(o@),
            final(self).wf(),
    {
        let ghost v = self@;
        merge_hits(&mut self.inv.repos, &o.hits);
        self.index_queue = list::difference(&self.index_queue, &o.atoms);
        assert(o.atoms.len() == o@.atoms.len());
        let ends = o.atoms.len() > 0;
        if ends {
            self.indexing = false;
            self.indexing_atoms = Vec::new();
            assert(self.indexing_atoms.deep_view() =~= Seq::<Seq<char>>::empty());
        }
        let mut sub = Sub::Board;
        core::mem::swap(&mut sub, &mut self.sub);
        self.sub = match sub {
            Sub::Detail(b) => {
                let mut d = b;
                if ends {
                    d.rules.indexing = false;
                }
                d.rules.recompute(&self.inv);
                Sub::Detail(d)
            },
            other => other,
        };
        let ghost inv = InventoryV { repos: with_hits(v.inv.repos, o@.hits), ..v.inv };
        assert(self@ =~= TabV {
            inv,
            index_queue: minus(v.index_queue, o@.atoms),
            indexing: v.indexing && !ends,
            indexing_atoms: if ends {
                Seq::empty()
            } else {
                v.indexing_atoms
            },
            sub: match v.sub {
                SubV::Detail(d) => SubV::Detail(
                    DetailV {
                        rules: RulesV {
                            indexing: d.rules.indexing && !ends,
                            preview: preview(d.rules.detect, inv.repos),
                            ..d.rules
                        },
                        ..d
                    },
                ),
                other => other,
            },
            ..v
        });
        assert(self@.batches_ok()) by {
            answers_keep_batches_distinct(v, o@);
        }
        self.refresh_uncovered();
    }

    /// Recovers from a batch that died: its atoms are queued again.
    pub fn accept_index_failed(&mut self)
        requires
            old(self).wf(),
        ensures
            final(self)@ == old(self)@.index_failed(),
            final(self).wf(),
    {
        let ghost v = self@;
        let mut batch: Vec<String> = Vec::new();
        core::mem::swap(&mut batch, &mut self.indexing_atoms);
        merge_into(&mut batch, &self.index_queue);
        self.index_queue = batch;
        self.indexing = false;
        assert(self.indexing_atoms.deep_view() =~= Seq::<Seq<char>>::empty());
        proof {
            dead_batches_keep_batches_distinct(v);
        }
        self.note_indexing(false);
        assert(self@ =~= v.index_failed());
    }

    /// Recovers from a rebuild that died: its note goes.
    pub fn accept_rebuild_failed(&mut self)
        requires
            old(self).wf(),
        ensures
            final(self)@ == (TabV { rebuilding: false, ..old(self)@ }),
            final(self).wf(),
    {
        self.rebuilding = false;
    }

    /// The configuration to save, if it changed since it was last handed out.
    pub fn dirty_config(&mut self) -> (r: Option<Profiles>)
        requires
            old(self).wf(),
        ensures
            final(self)@ == old(self)@.config_saved(),
            final(self).wf(),
            match r {
                Some(p) => old(self)@.config_to_save() == Some(p@),
                None => old(self)@.config_to_save() is None,
            },
    {
        if self.working.same(&self.saved) {
            None
        } else {
            self.saved = self.working.clone();
            Some(self.working.clone())
        }
    }

    /// The uncovered repos to save, if they changed since they were last handed out.
    pub fn dirty_uncovered(&mut self) -> (r: Option<Vec<String>>)
        requires
            old(self).wf(),
        ensures
            final(self)@ == old(self)@.uncovered_saved(),
            final(self).wf(),
            crate::profile::discover::texts_of(r) == old(self)@.uncovered_to_save(),
    {
        if list::equal(&self.uncovered, &self.saved_uncovered) {
            None
        } else {
            self.saved_uncovered = list::copy(&self.uncovered);
            Some(list::copy(&self.uncovered))
        }
    }

    /// The labels of the by-profile board, in order.
    pub fn row_labels(&self) -> (r: Vec<String>)
        ensures
            r.deep_view() == labels(self@.working),
    {
        let mut out: Vec<String> = Vec::new();
        out.push(crate::text::owned("Universal"));
        let names = self.working.names();
        list::extend(&mut out, &names);
        out.push(crate::text::owned("Unassigned"));
        out.push(crate::text::owned("On-demand"));
        assert(out.deep_view() =~= labels(self@.working));
        out
    }

    /// Everything that needs review.
    pub fn drift_for_test(&self, snap: &Snapshot) -> (r: Drift)
        ensures
            r.new_unassigned.deep_view() == listing(unplaced(self@.inv, self@.working)),
            r.stale.deep_view() == listing(
                crate::profile::drift::missing(self@.inv, self@.working),
            ),
            r.uncovered.deep_view() == self@.uncovered,
            r.global.deep_view() == listing(
                crate::profile::drift::leaking(
                    self@.working,
                    snap.global_enabled.deep_view(),
                ),
            ),
            r.scope.deep_view() == snap.scope_drift.deep_view(),
    {
        board::drift_of(
            &self.inv,
            &self.working,
            &self.uncovered,
            &snap.global_enabled,
            &snap.scope_drift,
        )
    }

    /// The path being typed, if it can be completed: the subdirectories of its parent
    /// are to be handed to `offer_completion`.
    pub fn completion_input(&self) -> (r: Option<String>)
        ensures
            crate::profile::discover::text_of(r) == match self@.sub {
                SubV::Board => match self@.roots_editor {
                    Some(e) => match e.input {
                        Some(i) => Some(i.chars),
                        None => None,
                    },
                    None => None,
                },
                SubV::Detail(d) => match d.rules.editor {
                    Some(e) => if e.kind == Some(EditorKind::PathUnder) {
                        Some(e.file.chars)
                    } else {
                        None
                    },
                    None => None,
                },
                _ => None,
            },
    {
        match &self.sub {
            Sub::Board => match &self.roots_editor {
                Some(e) => e.completion_input(),
                None => None,
            },
            Sub::Detail(d) => d.rules.completion_input(),
            _ => None,
        }
    }

    /// Offers the completion that the subdirectories `names` give for the path being typed.
    pub fn offer_completion(&mut self, names: &Vec<String>)
        requires
            old(self).wf(),
        ensures
            final(self).wf(),
            final(self)@ == old(self)@.offered(names.deep_view()),
    {
        let ghost v = self@;
        let mut sub = Sub::Board;
        core::mem::swap(&mut sub, &mut self.sub);
        self.sub = match sub {
            Sub::Board => {
                let mut slot: Option<RootsEdit> = None;
                core::mem::swap(&mut slot, &mut self.roots_editor);
                self.roots_editor = match slot {
                    Some(e) => {
                        let mut x = e;
                        x.offer_completion(names);
                        Some(x)
                    },
                    None => None,
                };
                Sub::Board
            },
            Sub::Detail(b) => {
                let mut d = b;
                d.rules.offer_completion(names);
                Sub::Detail(d)
            },
            other => other,
        };
        assert(self@ =~= v.offered(names.deep_view()));
    }

    /// The configuration as edited.
    pub fn working_for_test(&self) -> (r: &Profiles)
        ensures
            *r == self.working,
    {
        &self.working
    }

    /// The inventory.
    pub fn inv_for_test(&self) -> (r: &Inventory)
        ensures
            *r == self.inv,
    {
        &self.inv
    }

    /// The uncovered repos.
    pub fn uncovered_for_test(&self) -> (r: &Vec<String>)
        ensures
            *r == self.uncovered,
    {
        &self.uncovered
    }

    /// Whether the uncovered repos are not final.
    pub fn uncovered_pending_for_test(&self) -> (r: bool)
        ensures
            r == self@.uncovered_pending,
    {
        self.uncovered_pending
    }

    /// The open Apply sub-view.
    pub fn apply_state_for_test(&self) -> (r: Option<&ApplyState>)
        ensures
            match self.sub {
                Sub::Apply(s) => r == Some(&s),
                _ => r is None,
            },
    {
        match &self.sub {
            Sub::Apply(s) => Some(s),
            _ => None,
        }
    }

    /// Which board is shown.
    pub fn view_for_test(&self) -> (r: &ViewMode)
        ensures
            *r == self@.view,
    {
        &self.view
    }

    /// Shows the by-profile board.
    pub fn switch_to_by_profile_for_test(&mut self)
        requires
            old(self).wf(),
        ensures
            final(self)@ == (TabV { view: ViewMode::ByProfile, ..old(self)@ }),
            final(self).wf(),
    {
        self.view = ViewMode::ByProfile;
    }

    /// The open membership picker.
    pub fn pick_for_test(&self) -> (r: Option<&MembershipPick>)
        ensures
            match self.pick {
                Some(p) => r == Some(&p),
                None => r is None,
            },
    {
        match &self.pick {
            Some(p) => Some(p),
            None => None,
        }
    }

    fn at_once_key(&mut self, key: KeyEvent) -> (r: Option<Option<Action>>)
        requires
            old(self).wf(),
            old(self).sub is Board,
        ensures
            final(self).wf(),
            match r {
                Some(a) => old(self)@.at_once(key.code) == Some((final(self)@, action_of(a))),
                None => old(self)@.at_once(key.code) is None && *final(self) == *old(self),
            },
    {
        let ghost v = self@;
        if self.on_demand_help {
            match key.code {
                KeyCode::Esc => {
                    self.on_demand_help = false;
                },
                _ => {},
            }
            assert(self@ =~= (v.at_once(key.code)->0).0);
            return Some(None);
        }
        if self.ai_offer {
            match key.code {
                KeyCode::Char('y') => {
                    let a = self.draft_action();
                    self.ai_offer = false;
                    assert(self@ =~= (v.at_once(key.code)->0).0);
                    return Some(Some(a));
                },
                KeyCode::Char('n') => {
                    self.ai_offer = false;
                    assert(self@ =~= (v.at_once(key.code)->0).0);
                    return Some(None);
                },
                _ => {},
            }
        }
        if self.claude_available && key.code == KeyCode::Char('a') {
            let a = self.draft_action();
            self.ai_offer = false;
            assert(self@ =~= (v.at_once(key.code)->0).0);
            return Some(Some(a));
        }
        if key.code == KeyCode::Char('s') && self.pick.is_none() {
            return match self.nonempty_scan_roots() {
                Some(roots) => Some(
                    Some(Action::Rescan { roots, working: self.working.clone() }),
                ),
                None => Some(None),
            };
        }
        match self.view {
            ViewMode::ByPlugin => {
                if self.pick.is_some() {
                    let mut slot: Option<MembershipPick> = None;
                    core::mem::swap(&mut slot, &mut self.pick);
                    if let Some(p) = slot {
                        self.pick = p.handle_key(key, &mut self.working);
                    }
                    assert(self@ =~= (v.at_once(key.code)->0).0);
                    Some(None)
                } else {
                    None
                }
            },
            ViewMode::ByProfile => None,
        }
    }

    fn browse_plugins(&mut self, key: KeyEvent)
        requires
            old(self).wf(),
            old(self).sub is Board,
            old(self).roots_editor is None,
            old(self).pick is None,
        ensures
            final(self)@ == old(self)@.browsed_plugins(key.code),
            final(self).wf(),
    {
        let ghost v = self@;
        let n: usize = self.inv.plugins.len();
        assert(n == v.inv.plugins.len());
        match key.code {
            KeyCode::Up | KeyCode::Char('k') => {
                if n > 0 {
                    self.plugin_cursor = up(self.plugin_cursor, n);
                }
            },
            KeyCode::Down | KeyCode::Char('j') => {
                if n > 0 {
                    self.plugin_cursor = down(self.plugin_cursor, n);
                }
            },
            KeyCode::Char('v') => {
                self.view = ViewMode::ByProfile;
            },
            KeyCode::Char('r') => {
                self.roots_editor = Some(RootsEdit::open(&self.scan_roots));
            },
            KeyCode::Enter => {
                if n > 0 {
                    assert(v.inv.plugins[v.plugin_cursor]
                        == self.inv.plugins[self.plugin_cursor as int]@);
                    self.pick =
                    Some(
                        MembershipPick::open(
                            &self.working,
                            self.inv.plugins[self.plugin_cursor].key.as_str(),
                        ),
                    );
                }
            },
            KeyCode::Char('w') => {
                self.sub = Sub::Apply(ApplyState::open(&self.inv.repos, &self.working));
            },
            _ => {},
        }
        assert(self@ =~= v.browsed_plugins(key.code));
    }

    fn open_row(&mut self)
        requires
            old(self).wf(),
            old(self).sub is Board,
        ensures
            final(self)@ == (TabV { sub: old(self)@.opened_row(), ..old(self)@ }),
            final(self).wf(),
    {
        let ghost v = self@;
        let all = self.row_labels();
        let free: usize = first_of(&all, "Unassigned");
        if self.cursor == free {
            let queue = unassigned_keys(&self.inv, &self.working);
            proof {
                list::lemma_listing(queue.deep_view(), unplaced(v.inv, v.working));
            }
            assert(queue.len() == queue.deep_view().len());
            if queue.len() > 0 {
                self.sub = Sub::Assign(AssignState::new(queue));
            }
        } else if self.cursor > 0 && self.cursor < free {
            let name = all[self.cursor].as_str();
            assert(labels(v.working)[v.cursor] == name@);
            assert(self.working.profiles@.dom() =~= v.working.profiles.dom());
            if self.working.profiles.contains_key(name) {
                self.sub = Sub::Detail(Box::new(DetailState::open(name, &self.inv, &self.working)));
            }
        }
        assert(self@ =~= (TabV { sub: v.opened_row(), ..v }));
    }

    fn is_on_on_demand(&self) -> (r: bool)
        ensures
            r == self@.on_on_demand(),
    {
        let all = self.row_labels();
        assert(all.len() == all.deep_view().len());
        if self.cursor < all.len() {
            assert(labels(self@.working)[self.cursor as int] == all[self.cursor as int]@);
            crate::text::same(all[self.cursor].as_str(), "On-demand")
        } else {
            false
        }
    }

    fn browse_profiles(&mut self, key: KeyEvent)
        requires
            old(self).wf(),
            old(self).sub is Board,
        ensures
            final(self)@ == old(self)@.browsed_profiles(key.code),
            final(self).wf(),
    {
        let ghost v = self@;
        match key.code {
            KeyCode::Char('v') => {
                self.view = ViewMode::ByPlugin;
            },
            KeyCode::Up | KeyCode::Char('k') => {
                let all = self.row_labels();
                assert(all.len() == all.deep_view().len());
                self.cursor = up_any(self.cursor, all.len());
            },
            KeyCode::Down | KeyCode::Char('j') => {
                let all = self.row_labels();
                assert(all.len() == all.deep_view().len());
                self.cursor = down_any(self.cursor, all.len());
            },
            KeyCode::Enter => {
                self.open_row();
            },
            KeyCode::Char('w') => {
                self.sub = Sub::Apply(ApplyState::open(&self.inv.repos, &self.working));
            },
            KeyCode::Char('?') => {
                if self.is_on_on_demand() {
                    self.on_demand_help = true;
                }
            },
            _ => {},
        }
        assert(self@ =~= v.browsed_profiles(key.code));
    }

    fn roots_key(&mut self, key: KeyEvent, home: &str)
        requires
            old(self).wf(),
            old(self).roots_editor is Some,
        ensures
            final(self)@ == old(self)@.after_roots(old(self)@.roots_editor->0, key.code, home@),
            final(self).wf(),
    {
        let ghost v = self@;
        let mut slot: Option<RootsEdit> = None;
        core::mem::swap(&mut slot, &mut self.roots_editor);
        if let Some(e) = slot {
            match e.handle_key(key, home) {
                RootsOutcome::Stay(x) => {
                    self.roots_editor = Some(x);
                },
                RootsOutcome::Close(roots) => {
                    let kept = tidied(&roots);
                    self.scan_roots = list::copy(&kept);
                    self.working.scan_roots = kept;
                },
            }
        }
        assert(self@ =~= v.after_roots(v.roots_editor->0, key.code, home@));
    }

    fn assign_key(&mut self, s: AssignState, key: KeyEvent)
        requires
            old(self).wf(),
            old(self).sub is Board,
            s.idx < s.queue.len(),
        ensures
            (final(self)@, None::<ActionV>) == (TabV {
                sub: SubV::Assign(s@),
                ..old(self)@
            }).after_sub(key.code),
            final(self).wf(),
    {
        let ghost v = TabV { sub: SubV::Assign(s@), ..self@ };
        let mut a = s;
        let done = a.handle_key(key, &mut self.working);
        if done {
            assert(self@ =~= (TabV { sub: SubV::Board, working: self@.working, ..v }));
            self.refresh_uncovered();
        } else {
            self.sub = Sub::Assign(a);
            assert(self@ =~= v.after_sub(key.code).0);
        }
    }

    fn detail_key(&mut self, s: Box<DetailState>, key: KeyEvent)
        requires
            old(self).wf(),
            old(self).sub is Board,
            s.wf(),
        ensures
            (final(self)@, None::<ActionV>) == (TabV {
                sub: SubV::Detail((*s)@),
                ..old(self)@
            }).after_sub(key.code),
            final(self).wf(),
    {
        let ghost v = TabV { sub: SubV::Detail((*s)@), ..self@ };
        let mut d = s;
        let done = d.handle_key(key, &self.inv, &mut self.working);
        if done {
            assert(self@ =~= (TabV { sub: SubV::Board, working: self@.working, ..v }));
            if d.detection_changed() {
                self.refresh_uncovered();
            }
        } else {
            self.sub = Sub::Detail(d);
            assert(self@ =~= v.after_sub(key.code).0);
        }
    }

    fn apply_key(&mut self, s: ApplyState, key: KeyEvent) -> (r: Option<Action>)
        requires
            old(self).wf(),
            old(self).sub is Board,
            s@.ok(),
        ensures
            (final(self)@, action_of(r)) == (TabV {
                sub: SubV::Apply(s@),
                ..old(self)@
            }).after_sub(key.code),
            final(self).wf(),
    {
        let ghost v = TabV { sub: SubV::Apply(s@), ..self@ };
        let mut a = s;
        let r = match a.handle_key(key, &self.working) {
            ApplyOutcome::Stay => {
                self.sub = Sub::Apply(a);
                None
            },
            ApplyOutcome::Back => None,
            ApplyOutcome::Commit(action) => Some(action),
        };
        assert(self@ =~= v.after_sub(key.code).0);
        r
    }

    fn sub_key(&mut self, key: KeyEvent) -> (r: Option<Action>)
        requires
            old(self).wf(),
        ensures
            (final(self)@, action_of(r)) == old(self)@.after_sub(key.code),
            final(self).wf(),
    {
        let ghost v = self@;
        let mut sub = Sub::Board;
        core::mem::swap(&mut sub, &mut self.sub);
        assert((TabV { sub: v.sub, ..self@ }) =~= v);
        match sub {
            Sub::Board => None,
            Sub::Assign(s) => {
                self.assign_key(s, key);
                None
            },
            Sub::Detail(s) => {
                self.detail_key(s, key);
                None
            },
            Sub::Apply(s) => self.apply_key(s, key),
        }
    }

    fn drain(&mut self)
        requires
            old(self).wf(),
        ensures
            final(self)@ == old(self)@.drained(),
            final(self).wf(),
    {
        let ghost v = self@;
        let mut sub = Sub::Board;
        core::mem::swap(&mut sub, &mut self.sub);
        self.sub = match sub {
            Sub::Detail(b) => {
                let mut d = b;
                let mut wanted: Vec<String> = Vec::new();
                core::mem::swap(&mut wanted, &mut d.rules.wants_index);
                assert(d.rules.wants_index.deep_view() =~= Seq::<Seq<char>>::empty());
                merge_into(&mut self.index_queue, &wanted);
                Sub::Detail(d)
            },
            other => other,
        };
        proof {
            lemma_settled_batches(v, None);
        }
        assert(self@ =~= v.drained());
    }

    fn settle(&mut self, action: Option<Action>) -> (r: Option<Action>)
        requires
            old(self).wf(),
        ensures
            (final(self)@, action_of(r)) == old(self)@.settled(action_of(action)),
            final(self).wf(),
    {
        self.drain();
        let ghost v = self@;
        assert(self.index_queue.len() == v.index_queue.len());
        if action.is_none() && self.index_queue.len() > 0 && !self.indexing {
            let mut atoms: Vec<String> = Vec::new();
            core::mem::swap(&mut atoms, &mut self.index_queue);
            assert(self.index_queue.deep_view() =~= Seq::<Seq<char>>::empty());
            let repos = paths_of(&self.inv.repos);
            self.indexing = true;
            self.indexing_atoms = list::copy(&atoms);
            self.note_indexing(true);
            assert(self@ =~= TabV {
                index_queue: Seq::empty(),
                indexing: true,
                indexing_atoms: v.index_queue,
                sub: v.with_note(true),
                ..v
            });
            Some(Action::IndexAtoms { atoms, repos })
        } else {
            action
        }
    }
}

impl TabView for ProfileView {
    open spec fn name(&self) -> Seq<char> {
        "Profile"@
    }

    open spec fn ok(&self) -> bool {
        self.wf()
    }

    open spec fn claims(&self, code: KeyCode) -> bool {
        self@.claims(code)
    }

    open spec fn hints(&self) -> Seq<(Seq<char>, Seq<char>)> {
        self@.hints()
    }

    open spec fn steps(
        self,
        post: Self,
        code: KeyCode,
        ctx: AppCtx,
        snap: Snapshot,
        r: Option<Action>,
    ) -> bool {
        (post@, action_of(r)) == self@.after(code, ctx.home@)
    }

    fn title(&self) -> (r: &'static str) {
        "Profile"
    }

    fn claims_key(&self, code: KeyCode) -> (r: bool) {
        let tab = code == KeyCode::Tab || code == KeyCode::BackTab;
        if let Some(e) = &self.roots_editor {
            return if e.input.is_some() {
                !tab
            } else {
                code == KeyCode::Esc
            };
        }
        if self.on_demand_help {
            return code == KeyCode::Esc || tab;
        }
        let by_plugin = self.view == ViewMode::ByPlugin;
        let picker_naming = by_plugin && match &self.pick {
            Some(p) => p.naming.is_some(),
            None => false,
        };
        match &self.sub {
            Sub::Detail(s) => if s.explain.is_some() {
                code == KeyCode::Esc || tab
            } else if s.rules.is_building() || s.rules.is_picking() {
                true
            } else if s.renaming.is_some() || picker_naming {
                !tab
            } else {
                code == KeyCode::Esc || code == KeyCode::Tab || code == KeyCode::Char('r')
            },
            Sub::Assign(s) => if s.naming.is_some() || picker_naming {
                !tab
            } else {
                code == KeyCode::Esc
            },
            Sub::Apply(_) => if picker_naming {
                !tab
            } else {
                code == KeyCode::Esc
            },
            Sub::Board => if picker_naming {
                !tab
            } else {
                by_plugin && if self.pick.is_some() {
                    code == KeyCode::Esc
                } else {
                    code == KeyCode::Char('r')
                }
            },
        }
    }

    fn footer_hints(&self) -> (r: Vec<(&'static str, &'static str)>) {
        let r = match &self.sub {
            Sub::Assign(_) => vec![("↑↓", "choose"), ("⏎", "assign"), ("esc", "back")],
            Sub::Apply(_) => vec![
                ("space", "toggle"),
                ("⏎", "write"),
                ("x", "explain"),
                ("esc", "back"),
            ],
            Sub::Detail(s) => detail_footer(s),
            Sub::Board => match self.view {
                ViewMode::ByPlugin => self.plugin_footer(),
                ViewMode::ByProfile => self.profile_footer(),
            },
        };
        assert(hint_texts(r) =~= self@.hints());
        r
    }

    fn on_key(&mut self, key: KeyEvent, ctx: &AppCtx, snap: &Snapshot) -> (r: Option<Action>) {
        if let Sub::Board = self.sub {
            if self.roots_editor.is_some() {
                self.roots_key(key, ctx.home.as_str());
                return self.settle(None);
            }
            if let Some(answer) = self.at_once_key(key) {
                return answer;
            }
            match self.view {
                ViewMode::ByPlugin => {
                    self.browse_plugins(key);
                },
                ViewMode::ByProfile => {
                    self.browse_profiles(key);
                },
            }
            self.settle(None)
        } else {
            let a = self.sub_key(key);
            self.settle(a)
        }
    }
}

fn detail_footer(s: &DetailState) -> (r: Vec<(&'static str, &'static str)>)
    ensures
        hint_texts(r) == TabV::detail_hints(s@),
{
    let r = if s.renaming.is_some() {
        vec![("⏎", "confirm"), ("esc", "cancel")]
    } else if s.explain.is_some() {
        vec![("↑↓", "choose repo"), ("esc", "back")]
    } else if s.rules.is_picking() {
        vec![("↑↓", "choose"), ("⏎", "prefill"), ("esc", "cancel")]
    } else if s.rules.is_building() {
        if s.rules.building_path_under() {
            vec![("⏎", "save"), ("→", "complete"), ("esc", "cancel")]
        } else {
            vec![("⏎", "save"), ("esc", "cancel"), ("⇥", "field")]
        }
    } else {
        match s.focus {
            DetailFocus::Plugins => vec![
                ("space", "toggle"),
                ("⏎", "done"),
                ("Tab", "plugins/rules"),
                ("r", "rename"),
                ("del", "delete"),
            ],
            DetailFocus::Rules => vec![
                ("a", "add"),
                ("e", "edit"),
                ("d", "del"),
                ("f", "from repo"),
                ("?", "explain"),
                ("⏎", "done"),
                ("Tab", "plugins/rules"),
            ],
        }
    };
    assert(hint_texts(r) =~= TabV::detail_hints(s@));
    r
}

impl ProfileView {
    fn plugin_footer(&self) -> (r: Vec<(&'static str, &'static str)>)
        ensures
            hint_texts(r) == self@.plugin_hints(),
    {
        let r = if let Some(e) = &self.roots_editor {
            if e.input.is_some() {
                vec![("⏎", "confirm"), ("→", "complete"), ("esc", "cancel")]
            } else {
                vec![
                    ("↑↓", "move"),
                    ("⏎", "edit"),
                    ("a", "add"),
                    ("d", "remove"),
                    ("esc", "done"),
                ]
            }
        } else if let Some(p) = &self.pick {
            if p.naming.is_some() {
                vec![("⏎", "confirm"), ("esc", "cancel")]
            } else {
                vec![("space", "toggle"), ("⏎", "done"), ("esc", "cancel")]
            }
        } else {
            let mut h = vec![
                ("↑↓", "browse"),
                ("⏎", "assign"),
                ("v", "by-profile"),
                ("w", "apply"),
            ];
            if self.claude_available {
                h.push(("a", "draft"));
            }
            h
        };
        assert(hint_texts(r) =~= self@.plugin_hints());
        r
    }

    fn profile_footer(&self) -> (r: Vec<(&'static str, &'static str)>)
        ensures
            hint_texts(r) == self@.profile_hints(),
    {
        if self.on_demand_help {
            let r = vec![("esc", "close")];
            assert(hint_texts(r) =~= self@.profile_hints());
            return r;
        }
        let mut r = vec![("↑↓", "select"), ("⏎", "open"), ("s", "scan"), ("w", "apply")];
        if self.claude_available {
            r.push(("a", "ai draft"));
        }
        if self.is_on_on_demand() {
            r.push(("?", "what is on-demand?"));
        }
        assert(hint_texts(r) =~= self@.profile_hints());
        r
    }
}

/// No question is lost: whatever waits in the queue or has just been asked for by the rules
/// editor, and whatever is under way, still waits or is under way after a key has settled;
/// and what is sent off is what is under way from then on.
pub proof fn no_question_is_lost(v: TabV, action: Option<ActionV>, a: Seq<char>)
    requires
        v.batches_ok(),
        v.index_queue.contains(a) || v.indexing_atoms.contains(a) || (v.sub matches SubV::Detail(d)
            && d.rules.wants_index.contains(a)),
    ensures
        ({
            let (u, sent) = v.settled(action);
            &&& u.index_queue.contains(a) || u.indexing_atoms.contains(a)
            &&& sent != action ==> (sent matches Some(ActionV::IndexAtoms { atoms, repos }) && atoms
                == u.indexing_atoms && repos == repo_paths(v.inv.repos))
        }),
{
    if let SubV::Detail(d) = v.sub {
        crate::profile::plugins::merging_is_a_union(v.index_queue, d.rules.wants_index, a);
    }
}

/// A batch that died puts all its questions back, in front of those that wait.
pub proof fn a_dead_batch_goes_to_the_front(v: TabV, a: Seq<char>)
    ensures
        v.indexing_atoms.is_prefix_of(v.index_failed().index_queue),
        v.index_failed().index_queue.contains(a) <==> v.indexing_atoms.contains(a)
            || v.index_queue.contains(a),
        !v.index_failed().indexing,
{
    merging_only_appends(v.indexing_atoms, v.index_queue);
    crate::profile::plugins::merging_is_a_union(v.indexing_atoms, v.index_queue, a);
}

/// A scan that is folded in replaces the repos and what is suggested, keeps the installed
/// plugins and the buckets, sets the roots to those it walked, and gives every suggestion
/// whose name is free a profile; what matches nothing is as it found, and final.
pub proof fn a_scan_is_folded_in(v: TabV, o: ScanV)
    ensures
        ({
            let u = v.scanned(o);
            &&& u.inv.repos == o.repos
            &&& u.inv.suggested_profiles == o.suggested
            &&& u.inv.plugins == v.inv.plugins
            &&& u.working.scan_roots == o.roots
            &&& u.working.universal == v.working.universal
            &&& u.working.on_demand == v.working.on_demand
            &&& u.uncovered == o.uncovered
            &&& !u.uncovered_pending
            &&& forall|k: Seq<char>| #[trigger]
                u.working.profiles.contains_key(k) <==> v.working.profiles.contains_key(k)
                    || exists|i: int|
                    0 <= i < o.suggested.len() && (#[trigger] o.suggested[i]).name == k
            &&& u.sub == v.sub
            &&& u.index_queue == v.index_queue
            &&& u.indexing_atoms == v.indexing_atoms
        }),
{
    crate::profile::draft::a_free_name_gets_the_suggested_rules(v.working.profiles, o.suggested);
}

/// Answers reach the repos, the queue and an open rules editor: its preview is that of the
/// new answers, and only a batch of questions ends the one under way.
pub proof fn answers_reach_the_open_editor(v: TabV, o: IndexV)
    ensures
        ({
            let u = v.indexed(o);
            &&& u.inv.repos == with_hits(v.inv.repos, o.hits)
            &&& u.inv.plugins == v.inv.plugins
            &&& u.working == v.working
            &&& o.atoms.len() == 0 ==> u.indexing == v.indexing && u.indexing_atoms
                == v.indexing_atoms
            &&& o.atoms.len() > 0 ==> !u.indexing && u.indexing_atoms.len() == 0
            &&& forall|a: Seq<char>| #[trigger]
                u.index_queue.contains(a) <==> v.index_queue.contains(a) && !o.atoms.contains(a)
            &&& v.sub matches SubV::Detail(d) ==> (u.sub matches SubV::Detail(e) && {
                &&& e.rules.detect == d.rules.detect
                &&& e.rules.preview == preview(d.rules.detect, u.inv.repos)
                &&& e.rules.editor == d.rules.editor
                &&& e.plugins == d.plugins
            })
            &&& !(v.sub is Detail) ==> u.sub == v.sub
        }),
{
    list::taking_names_out_keeps_the_rest(v.index_queue, o.atoms);
}

/// The repos that match nothing are brought up to date only once every answer is there: they
/// are then just the repos that match no profile, in scan order. Returns their positions.
pub proof fn uncovered_repos_wait_for_every_answer(v: TabV) -> (ix: Seq<int>)
    ensures
        ({
            let u = v.recovered();
            let names = v.working.names();
            let open_answer = exists|i: int|
                0 <= i < v.inv.repos.len() && matched_names(
                    #[trigger] v.inv.repos[i],
                    names,
                    v.working.profiles,
                ).len() == 0 && is_pending(v.inv.repos[i], names, v.working.profiles);
            &&& u.uncovered_pending <==> open_answer
            &&& open_answer ==> u.uncovered == v.uncovered
            &&& !open_answer ==> {
                &&& list::picks(
                    ix,
                    v.inv.repos.len() as int,
                    |i: int| matched_names(v.inv.repos[i], names, v.working.profiles).len() == 0,
                )
                &&& u.uncovered.len() == ix.len()
                &&& forall|k: int|
                    0 <= k < ix.len() ==> #[trigger] u.uncovered[k] == v.inv.repos[ix[k]].path
            }
        }),
{
    let names = v.working.names();
    let profiles = v.working.profiles;
    let repos = v.inv.repos;
    let n = repos.len() as int;
    let ix = crate::profile::drift::every_uncovered_repo_is_listed(repos, names, profiles);
    assert forall|i: int| 0 <= i < n implies (crate::profile::drift::is_undecided(
        #[trigger] repos[i],
        names,
        profiles,
    ) <==> matched_names(repos[i], names, profiles).len() == 0 && is_pending(
        repos[i],
        names,
        profiles,
    )) by {}
    if !any_undecided(repos, names, profiles) {
        let p = |i: int|
            matched_names(repos[i], names, profiles).len() == 0 && !is_pending(
                repos[i],
                names,
                profiles,
            );
        let q = |i: int| matched_names(repos[i], names, profiles).len() == 0;
        assert forall|i: int| 0 <= i < n implies #[trigger] p(i) == #[trigger] q(i) by {
            assert(!crate::profile::drift::is_undecided(repos[i], names, profiles));
        }
        assert forall|i: int| 0 <= i < n && #[trigger] q(i) implies ix.contains(i) by {
            assert(p(i));
        }
        assert forall|k: int| 0 <= k < ix.len() implies q(#[trigger] ix[k]) by {
            assert(p(ix[k]));
        }
    }
    ix
}

/// A scan walks the roots that are not empty, in order; without one nothing is asked for.
/// Returns the positions of these roots.
pub proof fn a_scan_walks_every_root(v: TabV) -> (ix: Seq<int>)
    ensures
        list::picks(ix, v.scan_roots.len() as int, |i: int| v.scan_roots[i].len() > 0),
        v.rescan() is None <==> ix.len() == 0,
        v.rescan() matches Some(a) ==> (a matches ActionV::Rescan { roots, working } && working
            == v.working && roots.len() == ix.len() && forall|k: int|
            0 <= k < ix.len() ==> #[trigger] roots[k] == v.scan_roots[ix[k]]),
        v.draft() matches ActionV::DraftWithClaude { inv, scan_roots } && inv == v.inv && (
        v.working.scan_roots.len() > 0 ==> scan_roots == v.working.scan_roots) && (
        v.working.scan_roots.len() == 0 ==> scan_roots.len() == ix.len() && forall|k: int|
            0 <= k < ix.len() ==> #[trigger] scan_roots[k] == v.scan_roots[ix[k]]),
{
    let roots = v.scan_roots;
    let p = |r: Seq<char>| r.len() > 0;
    let q = |i: int| v.scan_roots[i].len() > 0;
    list::lemma_filter_picks(roots, p);
    list::lemma_picked(roots.len() as int, q);
    list::lemma_picked_congruent(roots.len() as int, |i: int| p(roots[i]), q);
    list::picked(roots.len() as int, q)
}

/// Browsing the boards changes no configuration, no repo and no root: only the picker, the
/// manager of roots and the sub-views do.
pub proof fn browsing_changes_nothing(v: TabV, code: KeyCode, home: Seq<char>)
    requires
        v.sub is Board,
        v.roots_editor is None,
        v.pick is None,
    ensures
        v.after(code, home).0.working == v.working,
        v.after(code, home).0.inv == v.inv,
        v.after(code, home).0.scan_roots == v.scan_roots,
        v.after(code, home).0.uncovered == v.uncovered,
        v.after(code, home).0.saved == v.saved,
{
}

/// On the by-plugin board, Enter opens the picker on the plugin under the cursor, v shows the
/// other board, r the roots, and w what would be written.
pub proof fn keys_of_the_plugin_board(v: TabV, code: KeyCode, home: Seq<char>)
    requires
        v.sub is Board,
        v.roots_editor is None,
        v.pick is None,
        v.view is ByPlugin,
        !v.on_demand_help,
        v.index_queue.len() == 0,
        0 <= v.plugin_cursor < v.inv.plugins.len(),
    ensures
        ({
            let u = v.after(code, home).0;
            let n = v.inv.plugins.len() as int;
            &&& code == KeyCode::Enter ==> u.pick == Some(
                MemberV::opened(v.working, v.inv.plugins[v.plugin_cursor].key),
            )
            &&& code == KeyCode::Char('v') ==> u == (TabV { view: ViewMode::ByProfile, ..v })
            &&& code == KeyCode::Char('r') ==> u == (TabV {
                roots_editor: Some(RootsV::opened(v.scan_roots)),
                ..v
            })
            &&& code == KeyCode::Char('w') ==> u == (TabV {
                sub: SubV::Apply(ApplyV::opened(v.inv.repos, v.working)),
                ..v
            })
            &&& code == KeyCode::Down ==> u.plugin_cursor == if v.plugin_cursor + 1 == n {
                0
            } else {
                v.plugin_cursor + 1
            }
            &&& code == KeyCode::Up ==> u.plugin_cursor == if v.plugin_cursor == 0 {
                n - 1
            } else {
                v.plugin_cursor - 1
            }
            &&& code == KeyCode::Char('s') ==> v.after(code, home) == (v, v.rescan())
        }),
{
    crate::tui::key::cursors_go_round(v.plugin_cursor, v.inv.plugins.len() as int);
}

/// On the by-profile board, Enter opens the profile whose row is under the cursor, by the
/// order of the names, and on the row of unassigned plugins their assignment, if there are
/// any. On the rows of universal plugins and of those on demand it opens nothing.
pub proof fn enter_opens_the_row_under_the_cursor(v: TabV, home: Seq<char>)
    requires
        v.sub is Board,
        v.roots_editor is None,
        v.pick is None,
        v.view is ByProfile,
        !v.on_demand_help,
        v.index_queue.len() == 0,
        list::lists(v.working.names(), v.working.profiles.dom()),
        !v.working.profiles.contains_key("Unassigned"@),
        0 <= v.cursor < v.working.names().len() + 3,
    ensures
        ({
            let u = v.after(KeyCode::Enter, home).0;
            let names = v.working.names();
            let n = names.len() as int;
            let free = listing(unplaced(v.inv, v.working));
            &&& v.cursor == 0 || v.cursor == n + 2 ==> u.sub is Board
            &&& 1 <= v.cursor <= n ==> u.sub == SubV::Detail(
                DetailV::opened(names[v.cursor - 1], v.inv, v.working),
            )
            &&& v.cursor == n + 1 ==> u.sub == if free.len() > 0 {
                SubV::Assign(AssignV::opened(free))
            } else {
                SubV::Board
            }
        }),
{
    reveal_strlit("Universal");
    reveal_strlit("Unassigned");
    reveal_strlit("On-demand");
    let names = v.working.names();
    let n = names.len() as int;
    let all = labels(v.working);
    let t = "Unassigned"@;
    assert(t.len() == 10 && "Universal"@.len() == 9);
    assert forall|i: int| 0 <= i < n + 1 implies #[trigger] all[i] != t by {
        if i > 0 {
            assert(all[i] == names[i - 1]);
            assert(names.contains(names[i - 1]));
            assert(v.working.profiles.contains_key(names[i - 1]));
        }
    }
    assert(all[n + 1] == t);
    lemma_first_label(all, t, n + 1, 0);
    if 1 <= v.cursor <= n {
        assert(names.contains(names[v.cursor - 1]));
        assert(v.working.profiles.contains_key(all[v.cursor]));
        let d = DetailV::opened(names[v.cursor - 1], v.inv, v.working);
        assert(d.rules.wants_index =~= Seq::<Seq<char>>::empty());
        let u = TabV { sub: SubV::Detail(d), ..v };
        assert(merged(v.index_queue, d.rules.wants_index) == v.index_queue);
        assert(u.drained() =~= u);
    }
}

proof fn lemma_first_label(all: Seq<Seq<char>>, t: Seq<char>, k: int, i: int)
    requires
        0 <= i <= k < all.len(),
        all[k] == t,
        forall|j: int| i <= j < k ==> #[trigger] all[j] != t,
    ensures
        first_at(all, t, i) == k,
    decreases k - i,
{
    if i < k {
        lemma_first_label(all, t, k, i + 1);
    }
}

/// Closing the manager of roots puts the tidied roots into the tab and into the configuration
/// alike, and changes nothing else of it; until then the configuration waits.
pub proof fn roots_are_committed_on_close(v: TabV, e: RootsV, code: KeyCode, home: Seq<char>)
    requires
        v.sub is Board,
        v.roots_editor == Some(e),
    ensures
        ({
            let u = v.after(code, home).0;
            if e.input is None && code == KeyCode::Esc {
                &&& u.roots_editor is None
                &&& u.scan_roots == tidy(e.roots)
                &&& u.working == (ProfilesV { scan_roots: tidy(e.roots), ..v.working })
            } else {
                &&& u.roots_editor is Some
                &&& u.scan_roots == v.scan_roots
                &&& u.working == v.working
            }
        }),
{
}

/// Enter in what would be written asks for just that under the configuration as edited, and
/// Esc asks for nothing; both go back to the board.
pub proof fn enter_writes_what_was_checked(v: TabV, s: ApplyV, home: Seq<char>)
    requires
        v.sub == SubV::Apply(s),
    ensures
        v.after(KeyCode::Enter, home).1 == Some(commit_of(s, v.working)),
        v.after(KeyCode::Enter, home).0.sub is Board,
        v.after(KeyCode::Enter, home).0.working == v.working,
        v.after(KeyCode::Esc, home).0.sub is Board,
        v.after(KeyCode::Esc, home).0.working == v.working,
        !(v.after(KeyCode::Esc, home).1 is Some && v.after(KeyCode::Esc, home).1->0 is Commit),
{
}

/// While a text is being typed, every character is the tab's own: no shortcut of the app can
/// take it. So is Esc.
pub proof fn typed_characters_stay_in_the_tab(v: TabV, c: char)
    requires
        ({
            ||| v.roots_editor matches Some(e) && e.input is Some
            ||| v.roots_editor is None && !v.on_demand_help && (v.sub matches SubV::Detail(d) && (
            d.renaming is Some || d.rules.editor is Some) && d.explain is None)
            ||| v.roots_editor is None && !v.on_demand_help && (v.sub matches SubV::Assign(s)
                && s.naming is Some)
            ||| v.roots_editor is None && !v.on_demand_help && v.sub is Board && v.picker_naming()
        }),
    ensures
        v.claims(KeyCode::Char(c)),
        v.claims(KeyCode::Esc),
{
}

/// Esc is the tab's own wherever it closes something.
pub proof fn esc_closes_before_it_quits(v: TabV)
    requires
        v.roots_editor is Some || v.on_demand_help || !(v.sub is Board) || (v.view is ByPlugin
            && v.pick is Some),
    ensures
        v.claims(KeyCode::Esc),
{
}

/// A completion is offered for the path that is being typed, and nothing else changes.
pub proof fn completions_are_offered_for_paths(v: TabV, names: Seq<Seq<char>>)
    ensures
        ({
            let u = v.offered(names);
            &&& u.working == v.working
            &&& u.inv == v.inv
            &&& v.sub is Board ==> (v.roots_editor matches Some(e) ==> (u.roots_editor matches
                Some(x) && x.roots == e.roots && x.input == e.input && (e.input matches Some(i)
                ==> x.suggestion == completion(i.chars, names))))
            &&& v.sub matches SubV::Detail(d) ==> (u.sub matches SubV::Detail(x) && x.rules.detect
                == d.rules.detect && (d.rules.editor matches Some(e) ==> (x.rules.editor matches
                Some(f) && f.file == e.file && f.word == e.word && (e.kind == Some(
                EditorKind::PathUnder,
            ) ==> f.suggestion == completion(e.file.chars, names)))))
        }),
{
}

/// What a sub-view makes of the configuration is the configuration of the tab; leaving it
/// goes back to the board.
pub proof fn sub_views_edit_the_configuration(v: TabV, code: KeyCode, home: Seq<char>)
    ensures
        v.sub matches SubV::Assign(s) ==> {
            let (a, w, done) = s.after(code, v.working);
            let u = v.after(code, home).0;
            &&& u.working == w
            &&& done ==> u.sub is Board
            &&& !done ==> u.sub == SubV::Assign(a)
        },
        v.sub matches SubV::Detail(s) ==> {
            let (d, w, done) = s.after(code, v.inv.repos, v.working);
            let u = v.after(code, home).0;
            &&& u.working == w
            &&& done ==> u.sub is Board
            &&& !done ==> (u.sub matches SubV::Detail(x) && x.name == d.name && x.plugins
                == d.plugins && x.rules.detect == d.rules.detect)
        },
{
}

/// A configuration that changed is handed out whole, and one that did not is not; so are the
/// repos that match nothing.
pub proof fn a_change_is_handed_out(v: TabV)
    ensures
        v.working != v.saved ==> v.config_to_save() == Some(v.working),
        v.working == v.saved ==> v.config_to_save() is None,
        v.uncovered != v.saved_uncovered ==> v.uncovered_to_save() == Some(v.uncovered),
        v.uncovered == v.saved_uncovered ==> v.uncovered_to_save() is None,
        v.config_saved().working == v.working,
        v.uncovered_saved().uncovered == v.uncovered,
{
}

/// What a scan finds to match nothing is what the tab itself finds once the scan is folded in.
pub proof fn a_scan_agrees_with_the_index(v: TabV, roots: Seq<Seq<char>>, walk: Walk)
    ensures
        ({
            let u = v.scanned(scan_of(v.working, roots, walk));
            u.recovered().uncovered == u.uncovered
        }),
{
    let u = v.scanned(scan_of(v.working, roots, walk));
    let merged_w = ProfilesV {
        profiles: with_suggestions(v.working.profiles, walk.suggested.deep_view()),
        ..v.working
    };
    assert(u.working.profiles == merged_w.profiles);
    assert(u.working.names() == merged_w.names());
}

/// An offer of a draft is answered once: y asks for it, n does not, and both withdraw the
/// offer. Without the assistant nothing asks for one.
pub proof fn an_offer_is_answered_once(v: TabV, code: KeyCode, home: Seq<char>)
    requires
        v.sub is Board,
        v.roots_editor is None,
        !v.on_demand_help,
    ensures
        v.ai_offer && code == KeyCode::Char('y') ==> v.after(code, home) == (
            TabV { ai_offer: false, ..v },
            Some(v.draft()),
        ),
        v.ai_offer && code == KeyCode::Char('n') ==> v.after(code, home) == (
            TabV { ai_offer: false, ..v },
            None::<ActionV>,
        ),
        v.claude_available && code == KeyCode::Char('a') ==> v.after(code, home).1 == Some(
            v.draft(),
        ),
        !v.ai_offer && !v.claude_available ==> !(v.after(code, home).1 is Some && v.after(
            code,
            home,
        ).1->0 is DraftWithClaude),
{
}

/// An open picker takes the keys of the board, and its choice is the configuration of the tab.
pub proof fn the_picker_edits_the_configuration(
    v: TabV,
    p: MemberV,
    code: KeyCode,
    home: Seq<char>,
)
    requires
        v.sub is Board,
        v.roots_editor is None,
        v.view is ByPlugin,
        v.pick == Some(p),
        !v.on_demand_help,
        !v.ai_offer,
        !v.claude_available || code != KeyCode::Char('a'),
    ensures
        v.after(code, home) == (
            TabV { pick: p.after(code, v.working).0, working: p.after(code, v.working).1, ..v },
            None::<ActionV>,
        ),
{
}

/// The tab as it is made has nothing to save, nothing to index and nothing open, and offers a
/// draft just where it may.
pub proof fn a_new_tab_has_nothing_to_save(
    inv: InventoryV,
    w: ProfilesV,
    can_draft: bool,
    offer: bool,
    uncovered: Seq<Seq<char>>,
)
    ensures
        ({
            let v = TabV::made(inv, w, can_draft, offer, uncovered);
            &&& v.inv == inv
            &&& v.working == w
            &&& v.uncovered == uncovered
            &&& !v.uncovered_pending
            &&& v.config_to_save() is None
            &&& v.uncovered_to_save() is None
            &&& v.index_queue.len() == 0
            &&& !v.indexing
            &&& v.sub is Board
            &&& v.view is ByPlugin
            &&& v.pick is None
            &&& v.roots_editor is None
            &&& v.ai_offer <==> can_draft && offer
            &&& v.claude_available == can_draft
        }),
{
}

/// On the by-profile board, moving goes round the rows, v shows the other board, w what would
/// be written, and the question mark explains the row of plugins on demand, and that row only.
pub proof fn keys_of_the_profile_board(v: TabV, code: KeyCode, home: Seq<char>)
    requires
        v.sub is Board,
        v.roots_editor is None,
        v.pick is None,
        v.view is ByProfile,
        !v.on_demand_help,
        v.index_queue.len() == 0,
        list::lists(v.working.names(), v.working.profiles.dom()),
        !v.working.profiles.contains_key("On-demand"@),
        0 <= v.cursor < v.working.names().len() + 3,
    ensures
        ({
            let u = v.after(code, home).0;
            let n = v.working.names().len() as int + 3;
            &&& code == KeyCode::Down ==> u == (TabV {
                cursor: if v.cursor + 1 == n {
                    0
                } else {
                    v.cursor + 1
                },
                ..v
            })
            &&& code == KeyCode::Up ==> u == (TabV {
                cursor: if v.cursor == 0 {
                    n - 1
                } else {
                    v.cursor - 1
                },
                ..v
            })
            &&& code == KeyCode::Char('v') ==> u == (TabV { view: ViewMode::ByPlugin, ..v })
            &&& code == KeyCode::Char('w') ==> u == (TabV {
                sub: SubV::Apply(ApplyV::opened(v.inv.repos, v.working)),
                ..v
            })
            &&& code == KeyCode::Char('?') ==> (u.on_demand_help <==> v.cursor == n - 1)
            &&& code == KeyCode::Char('s') ==> v.after(code, home) == (v, v.rescan())
        }),
{
    reveal_strlit("Universal");
    reveal_strlit("Unassigned");
    reveal_strlit("On-demand");
    let names = v.working.names();
    let all = labels(v.working);
    let n = names.len() as int + 3;
    crate::tui::key::cursors_go_round(v.cursor, n);
    let t = "On-demand"@;
    assert("Universal"@[0] == 'U' && "Unassigned"@[0] == 'U' && t[0] == 'O');
    assert(all.len() == n);
    assert(all[n - 1] == t);
    assert(all[n - 2] == "Unassigned"@);
    assert(all[0] == "Universal"@);
    if 1 <= v.cursor < n - 2 {
        assert(all[v.cursor] == names[v.cursor - 1]);
        assert(names.contains(names[v.cursor - 1]));
        assert(v.working.profiles.contains_key(all[v.cursor]));
    }
}

} // verus!
