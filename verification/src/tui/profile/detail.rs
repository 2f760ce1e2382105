//! The detail view of one profile: its plugins, its rules, its name. Every edit is
//! live: it is in the configuration as soon as it is made.

use vstd::prelude::*;

use crate::list;
use crate::profile::config::{Detect, DetectV, Profile, ProfileV, Profiles, ProfilesV};
use crate::profile::discover::{
    find_repo, lemma_repo_at_unique, paths_of, plugin_keys, repo_at, repo_paths, Inventory,
    InventoryV, SignalV,
};
use crate::text::{same, trim, trimmed};
use crate::tui::key::{
    down, is_down, is_up, moves_stay_in_range, next_in, prev_in, up, KeyCode, KeyEvent,
};
use crate::tui::line::{
    bare, blank, line2, line3, no_lines, put_line, raw, sp, span, styled, Line, SpanV,
};
use crate::tui::multiselect::{MultiSelect, MultiV};
use crate::tui::profile::explain;
use crate::tui::profile::explain::{
    explain_repo, report, shows_report, ExplainPage, ExplainReport, ExplainState, ReportV,
};
use crate::tui::profile::rules::{
    classified, flat, input_of, keys_keep_rules_ok, without_overrides, RulesState, RulesV,
};
use crate::tui::profile::rules_page::{shows_rules, RulesPage};
use crate::tui::textinput::{InputV, TextInput};
use crate::tui::theme;

verus! {

/// Which tab of the detail view has the keys.
#[derive(Clone, Copy, Debug, PartialEq, Eq, Structural)]
pub enum DetailFocus {
    Plugins,
    Rules,
}

/// The detail view of one profile.
#[derive(Debug)]
pub struct DetailState {
    pub name: String,
    pub plugins: MultiSelect,
    pub rules: RulesState,
    pub focus: DetailFocus,
    pub renaming: Option<TextInput>,
    pub explain: Option<ExplainState>,
    /// The rules as the view opened.
    pub original_detect: Detect,
    /// Whether this view deleted the profile.
    pub deleted: bool,
}

/// The contents of an explain overlay.
#[verifier::ext_equal]
pub struct ExplainV {
    pub repos: Seq<Seq<char>>,
    pub cursor: int,
    pub report: ReportV,
}

/// The contents of a detail view.
#[verifier::ext_equal]
pub struct DetailV {
    pub name: Seq<char>,
    pub plugins: MultiV,
    pub rules: RulesV,
    pub focus: DetailFocus,
    pub renaming: Option<InputV>,
    pub explain: Option<ExplainV>,
    pub original_detect: DetectV,
    pub deleted: bool,
}

impl View for ExplainState {
    type V = ExplainV;

    open spec fn view(&self) -> ExplainV {
        ExplainV {
            repos: self.repos.deep_view(),
            cursor: self.cursor as int,
            report: self.report@,
        }
    }
}

/// The contents of an optional overlay.
pub open spec fn explain_of(o: Option<ExplainState>) -> Option<ExplainV> {
    match o {
        Some(e) => Some(e@),
        None => None,
    }
}

impl View for DetailState {
    type V = DetailV;

    open spec fn view(&self) -> DetailV {
        DetailV {
            name: self.name@,
            plugins: self.plugins@,
            rules: self.rules@,
            focus: self.focus,
            renaming: input_of(self.renaming),
            explain: explain_of(self.explain),
            original_detect: self.original_detect@,
            deleted: self.deleted,
        }
    }
}

/// The paths of the repos that rules classify: those without an override.
pub open spec fn explained_paths(repos: Seq<SignalV>) -> Seq<Seq<char>> {
    repo_paths(classified(repos))
}

/// The explanation of the repo at `path`; `otherwise` once it is no longer indexed.
pub open spec fn report_for(
    path: Seq<char>,
    name: Seq<char>,
    d: DetectV,
    repos: Seq<SignalV>,
    w: ProfilesV,
    otherwise: ReportV,
) -> ReportV {
    if repo_paths(repos).contains(path) {
        report(repos[choose|i: int| repo_at(repos, path, i)], name, d, w)
    } else {
        otherwise
    }
}

impl ExplainV {
    /// The cursor is on a repo.
    pub open spec fn ok(self) -> bool {
        0 <= self.cursor < self.repos.len()
    }

    /// The overlay with its cursor at `i`, and the explanation of the repo there.
    pub open spec fn at(
        self,
        i: int,
        name: Seq<char>,
        d: DetectV,
        repos: Seq<SignalV>,
        w: ProfilesV,
    ) -> ExplainV {
        ExplainV {
            cursor: i,
            report: report_for(self.repos[i], name, d, repos, w, self.report),
            ..self
        }
    }
}

impl DetailV {
    /// The view as it opens on profile `name`.
    pub open spec fn opened(name: Seq<char>, inv: InventoryV, w: ProfilesV) -> DetailV {
        let p = w.profiles[name];
        let keys = plugin_keys(inv.plugins);
        DetailV {
            name,
            plugins: MultiV {
                items: keys,
                checked: Seq::new(keys.len(), |i: int| p.plugins.contains(keys[i])),
                cursor: 0,
                annotate: Seq::empty(),
            },
            rules: RulesV::opened(p.detect, inv.repos),
            focus: DetailFocus::Plugins,
            renaming: None,
            explain: None,
            original_detect: p.detect,
            deleted: false,
        }
    }

    /// The rules editor and the overlay are in shape.
    pub open spec fn ok(self) -> bool {
        &&& self.rules.ok()
        &&& self.explain matches Some(e) ==> e.ok()
    }

    /// Whether closing the view changed which repos match a profile.
    pub open spec fn changed(self) -> bool {
        self.deleted || self.rules.detect != self.original_detect
    }

    /// The profile as it stands in the view.
    pub open spec fn profile(self) -> ProfileV {
        ProfileV { plugins: self.plugins.selected(), detect: self.rules.detect }
    }

    /// The configuration with the view's profile written into it.
    pub open spec fn saved(self, w: ProfilesV) -> ProfilesV {
        w.with_profile(self.name, self.profile())
    }

    /// Whether the configuration holds what the view shows.
    pub open spec fn live(self, w: ProfilesV) -> bool {
        w.profiles.contains_key(self.name) && w.profiles[self.name] == self.profile()
    }

    /// Whether a typed name can be taken: not empty, not the current one, not taken.
    pub open spec fn accepts(self, name: Seq<char>, w: ProfilesV) -> bool {
        name.len() > 0 && name != self.name && !w.profiles.contains_key(name)
    }

    /// After a key while a name is being typed.
    pub open spec fn after_renaming(self, input: InputV, code: KeyCode, w: ProfilesV) -> (
        DetailV,
        ProfilesV,
    ) {
        if code == KeyCode::Enter {
            let name = trimmed(input.chars);
            if self.accepts(name, w) {
                (
                    DetailV { name, renaming: None, ..self },
                    if w.profiles.contains_key(self.name) {
                        w.without_profile(self.name).with_profile(name, w.profiles[self.name])
                    } else {
                        w
                    },
                )
            } else {
                (DetailV { renaming: None, ..self }, w)
            }
        } else if code == KeyCode::Esc {
            (DetailV { renaming: None, ..self }, w)
        } else {
            (DetailV { renaming: Some(input.after(code)), ..self }, w)
        }
    }

    /// The overlay after a key.
    pub open spec fn after_explain(
        self,
        e: ExplainV,
        code: KeyCode,
        repos: Seq<SignalV>,
        w: ProfilesV,
    ) -> Option<ExplainV> {
        let n = e.repos.len() as int;
        if code == KeyCode::Esc {
            None
        } else if is_down(code) {
            Some(e.at(next_in(e.cursor, n), self.name, self.rules.detect, repos, w))
        } else if is_up(code) {
            Some(e.at(prev_in(e.cursor, n), self.name, self.rules.detect, repos, w))
        } else {
            Some(e)
        }
    }

    /// The overlay as it opens; none when there is no repo to explain.
    pub open spec fn opened_explain(self, repos: Seq<SignalV>, w: ProfilesV) -> Option<ExplainV> {
        let paths = explained_paths(repos);
        if paths.len() == 0 {
            None
        } else {
            Some(
                ExplainV {
                    repos: paths,
                    cursor: 0,
                    report: report(
                        repos[choose|i: int| repo_at(repos, paths[0], i)],
                        self.name,
                        self.rules.detect,
                        w,
                    ),
                },
            )
        }
    }

    /// After a key on the plugins tab: the view, the configuration, whether to go back.
    pub open spec fn after_plugins(self, code: KeyCode, w: ProfilesV) -> (
        DetailV,
        ProfilesV,
        bool,
    ) {
        if code == KeyCode::Char('r') {
            (DetailV { renaming: Some(InputV::of(Seq::empty())), ..self }, w, false)
        } else if code == KeyCode::Delete {
            (DetailV { deleted: true, ..self }, w.without_profile(self.name), true)
        } else if code == KeyCode::Char(' ') || is_up(code) || is_down(code) {
            let v = DetailV { plugins: self.plugins.after(code), ..self };
            (v, v.saved(w), false)
        } else if code == KeyCode::Enter || code == KeyCode::Esc {
            (self, self.saved(w), true)
        } else {
            (self, w, false)
        }
    }

    /// After a key on the rules tab: the view, the configuration, whether to go back.
    pub open spec fn after_rules(self, code: KeyCode, repos: Seq<SignalV>, w: ProfilesV) -> (
        DetailV,
        ProfilesV,
        bool,
    ) {
        let edited = DetailV { rules: self.rules.after(code, repos), ..self };
        match self.explain {
            Some(e) => (
                DetailV { explain: self.after_explain(e, code, repos, w), ..self },
                w,
                false,
            ),
            None => if self.rules.editor is Some || self.rules.pick is Some {
                (edited, edited.saved(w), false)
            } else if code == KeyCode::Enter || code == KeyCode::Esc {
                (self, self.saved(w), true)
            } else if code == KeyCode::Char('r') {
                (DetailV { renaming: Some(InputV::of(Seq::empty())), ..self }, w, false)
            } else if code == KeyCode::Char('?') {
                (DetailV { explain: self.opened_explain(repos, w), ..self }, w, false)
            } else {
                (edited, edited.saved(w), false)
            },
        }
    }

    /// Whether Tab changes the tab, rather than being a key of the open builder,
    /// picker or overlay.
    pub open spec fn tab_is_free(self) -> bool {
        self.focus is Plugins || (self.rules.editor is None && self.rules.pick is None
            && self.explain is None)
    }

    /// After a key: the view, the configuration, whether to go back to the board.
    pub open spec fn after(self, code: KeyCode, repos: Seq<SignalV>, w: ProfilesV) -> (
        DetailV,
        ProfilesV,
        bool,
    ) {
        match self.renaming {
            Some(input) => {
                let (v, x) = self.after_renaming(input, code, w);
                (v, x, false)
            },
            None => if code == KeyCode::Tab && self.tab_is_free() {
                (
                    DetailV {
                        focus: match self.focus {
                            DetailFocus::Plugins => DetailFocus::Rules,
                            DetailFocus::Rules => DetailFocus::Plugins,
                        },
                        ..self
                    },
                    w,
                    false,
                )
            } else {
                match self.focus {
                    DetailFocus::Plugins => self.after_plugins(code, w),
                    DetailFocus::Rules => self.after_rules(code, repos, w),
                }
            },
        }
    }
}

/// No key takes the view out of shape.
pub proof fn keys_keep_detail_ok(v: DetailV, code: KeyCode, repos: Seq<SignalV>, w: ProfilesV)
    requires
        v.ok(),
    ensures
        v.after(code, repos, w).0.ok(),
{
    keys_keep_rules_ok(v.rules, code, repos);
    if let Some(e) = v.explain {
        moves_stay_in_range(e.cursor, e.repos.len() as int);
    }
}

/// Every edit is live: what the view shows is what the configuration holds, after
/// any key that does not delete the profile.
pub proof fn edits_are_live(v: DetailV, code: KeyCode, repos: Seq<SignalV>, w: ProfilesV)
    requires
        v.live(w),
        !v.after(code, repos, w).0.deleted,
    ensures
        v.after(code, repos, w).0.live(v.after(code, repos, w).1),
{
}

/// Leaving the view writes the profile, whether by Enter or by Esc; nothing is discarded.
pub proof fn leaving_keeps_the_edits(v: DetailV, code: KeyCode, repos: Seq<SignalV>, w: ProfilesV)
    requires
        v.after(code, repos, w).2,
        code != KeyCode::Delete,
    ensures
        v.after(code, repos, w).1 == v.saved(w),
        v.live(v.after(code, repos, w).1),
{
}

/// Delete on the rules tab never deletes the profile.
pub proof fn delete_on_rules_keeps_the_profile(v: DetailV, repos: Seq<SignalV>, w: ProfilesV)
    requires
        v.focus is Rules,
        w.profiles.contains_key(v.name),
    ensures
        ({
            let (after, x, back) = v.after(KeyCode::Delete, repos, w);
            &&& x.profiles.contains_key(v.name)
            &&& after.deleted == v.deleted
            &&& !back
        }),
{
}

/// A rename moves the profile and touches nothing else.
pub proof fn rename_moves_the_profile(v: DetailV, input: InputV, repos: Seq<SignalV>, w: ProfilesV)
    requires
        v.renaming == Some(input),
        v.accepts(trimmed(input.chars), w),
        w.profiles.contains_key(v.name),
    ensures
        ({
            let name = trimmed(input.chars);
            let (after, x, back) = v.after(KeyCode::Enter, repos, w);
            &&& after.name == name
            &&& !x.profiles.contains_key(v.name)
            &&& x.profiles.contains_key(name)
            &&& x.profiles[name] == w.profiles[v.name]
            &&& forall|k: Seq<char>|
                k != name && k != v.name ==> (#[trigger] x.profiles.contains_key(k)
                    == w.profiles.contains_key(k)) && x.profiles[k] == w.profiles[k]
            &&& x.universal == w.universal
            &&& x.on_demand == w.on_demand
            &&& !after.changed() || v.changed()
        }),
{
}

/// A name that is taken is refused, and nothing changes.
pub proof fn taken_name_is_refused(v: DetailV, input: InputV, repos: Seq<SignalV>, w: ProfilesV)
    requires
        v.renaming == Some(input),
        w.profiles.contains_key(trimmed(input.chars)),
    ensures
        v.after(KeyCode::Enter, repos, w) == ((DetailV { renaming: None, ..v }), w, false),
{
}

/// The explanation of the repo at `path`, if it is indexed.
fn explain_report_for(
    path: &str,
    name: &str,
    detect: &Detect,
    inv: &Inventory,
    working: &Profiles,
) -> (r: Option<ExplainReport>)
    ensures
        match r {
            Some(x) => repo_paths(inv@.repos).contains(path@) && forall|otherwise: ReportV|
                x@ == #[trigger] report_for(
                    path@,
                    name@,
                    detect@,
                    inv@.repos,
                    working@,
                    otherwise,
                ),
            None => !repo_paths(inv@.repos).contains(path@),
        },
{
    match find_repo(&inv.repos, path) {
        Some(i) => {
            proof {
                let c = choose|c: int| repo_at(inv@.repos, path@, c);
                lemma_repo_at_unique(inv@.repos, path@, c, i as int);
            }
            assert(inv@.repos[i as int] == inv.repos[i as int]@);
            Some(explain_repo(&inv.repos[i], name, detect, working))
        },
        None => None,
    }
}

impl DetailState {
    /// Opens profile `name`.
    pub fn open(name: &str, inv: &Inventory, working: &Profiles) -> (r: DetailState)
        requires
            working@.profiles.contains_key(name@),
        ensures
            r@ == DetailV::opened(name@, inv@, working@),
            r.wf(),
    {
        let keys = inv.plugin_keys();
        let ghost kv = keys.deep_view();
        let (plugins, detect) = match working.profiles.get(name) {
            Some(p) => (MultiSelect::new(keys, &p.plugins), p.detect.clone()),
            None => {
                let none: Vec<String> = Vec::new();
                (MultiSelect::new(keys, &none), Detect::default())
            },
        };
        assert(working@.profiles[name@] == working.profiles@[name@]@);
        let r = DetailState {
            name: name.to_owned(),
            plugins,
            rules: RulesState::open(detect.clone(), inv),
            focus: DetailFocus::Plugins,
            renaming: None,
            explain: None,
            original_detect: detect,
            deleted: false,
        };
        assert(r@ =~= DetailV::opened(name@, inv@, working@)) by {
            assert(r@.plugins.checked =~= DetailV::opened(
                name@,
                inv@,
                working@,
            ).plugins.checked);
        }
        r
    }

    /// The view is in shape, and its preview counts its repos.
    pub open spec fn wf(self) -> bool {
        &&& self@.ok()
        &&& self.rules.total_repos == self@.rules.preview.live.len()
    }

    /// Whether closing the view changed which repos match a profile: the rules were
    /// edited, or the profile was deleted. Neither plugins nor names do that.
    pub fn detection_changed(&self) -> (r: bool)
        ensures
            r == self@.changed(),
    {
        self.deleted || !self.rules.detect.same(&self.original_detect)
    }

    fn write_back(&self, working: &mut Profiles)
        ensures
            final(working)@ == self@.saved(old(working)@),
    {
        let p = Profile { plugins: self.plugins.selected(), detect: self.rules.detect.clone() };
        assert(p@ =~= self@.profile());
        working.put(self.name.as_str(), p);
    }

    fn renaming_key(&mut self, key: KeyEvent, working: &mut Profiles)
        requires
            old(self)@.renaming is Some,
            old(self).wf(),
        ensures
            (final(self)@, final(working)@) == old(self)@.after_renaming(
                old(self)@.renaming->0,
                key.code,
                old(working)@,
            ),
            final(self).wf(),
    {
        let ghost v = self@;
        let ghost w = working@;
        match self.renaming.take() {
            Some(t) => {
                let mut input = t;
                match key.code {
                    KeyCode::Enter => {
                        let name = trim(input.value().as_str());
                        if !name.as_str().is_empty() && !same(name.as_str(), self.name.as_str())
                            && !working.profiles.contains_key(name.as_str()) {
                            assert(w.profiles.dom() =~= working.profiles@.dom());
                            if let Some(p) = working.take(self.name.as_str()) {
                                working.put(name.as_str(), p);
                            } else {
                                assert(working@ =~= w);
                            }
                            self.name = name;
                        }
                    },
                    KeyCode::Esc => {},
                    _ => {
                        input.handle_key(key);
                        self.renaming = Some(input);
                    },
                }
            },
            None => {},
        }
        assert(self@ =~= v.after_renaming(v.renaming->0, key.code, w).0);
    }

    fn plugins_key(&mut self, key: KeyEvent, working: &mut Profiles) -> (r: bool)
        requires
            old(self)@.renaming is None,
            old(self).wf(),
        ensures
            (final(self)@, final(working)@, r) == old(self)@.after_plugins(
                key.code,
                old(working)@,
            ),
            final(self).wf(),
    {
        let ghost v = self@;
        let ghost w = working@;
        proof {
            reveal_strlit("");
            assert(""@ =~= Seq::<char>::empty());
        }
        let back = match key.code {
            KeyCode::Char('r') => {
                self.renaming = Some(TextInput::new(""));
                false
            },
            KeyCode::Delete => {
                let gone = working.take(self.name.as_str());
                self.deleted = true;
                true
            },
            KeyCode::Char(' ')
            | KeyCode::Up
            | KeyCode::Down
            | KeyCode::Char('j')
            | KeyCode::Char('k') => {
                self.plugins.on_key(key);
                self.write_back(working);
                false
            },
            KeyCode::Enter | KeyCode::Esc => {
                self.write_back(working);
                true
            },
            _ => false,
        };
        assert(self@ =~= v.after_plugins(key.code, w).0);
        back
    }

    fn explain_key(&mut self, key: KeyEvent, inv: &Inventory, working: &Profiles)
        requires
            old(self)@.explain is Some,
            old(self).wf(),
        ensures
            final(self)@ == (DetailV {
                explain: old(self)@.after_explain(
                    old(self)@.explain->0,
                    key.code,
                    inv@.repos,
                    working@,
                ),
                ..old(self)@
            }),
            final(self).wf(),
    {
        let ghost v = self@;
        match self.explain.take() {
            Some(e) => {
                let mut ex = e;
                let n: usize = ex.repos.len();
                assert(n == ex@.repos.len());
                proof {
                    moves_stay_in_range(ex@.cursor, n as int);
                }
                let to: Option<usize> = match key.code {
                    KeyCode::Down | KeyCode::Char('j') => Some(down(ex.cursor, n)),
                    KeyCode::Up | KeyCode::Char('k') => Some(up(ex.cursor, n)),
                    _ => None,
                };
                match to {
                    Some(i) => {
                        ex.cursor = i;
                        assert(ex@.repos[i as int] == ex.repos[i as int]@);
                        if let Some(rep) = explain_report_for(
                            ex.repos[i].as_str(),
                            self.name.as_str(),
                            &self.rules.detect,
                            inv,
                            working,
                        ) {
                            ex.report = rep;
                        }
                        self.explain = Some(ex);
                    },
                    None => {
                        match key.code {
                            KeyCode::Esc => {},
                            _ => {
                                self.explain = Some(ex);
                            },
                        }
                    },
                }
            },
            None => {},
        }
        assert(self@ =~= (DetailV {
            explain: v.after_explain(v.explain->0, key.code, inv@.repos, working@),
            ..v
        }));
    }

    fn open_explain(&mut self, inv: &Inventory, working: &Profiles)
        requires
            old(self)@.explain is None,
            old(self).wf(),
        ensures
            final(self)@ == (DetailV {
                explain: old(self)@.opened_explain(inv@.repos, working@),
                ..old(self)@
            }),
            final(self).wf(),
    {
        let ghost v = self@;
        let repos = paths_of(&without_overrides(&inv.repos));
        assert(repos.len() == repos.deep_view().len());
        if repos.len() > 0 {
            proof {
                let f = classified(inv@.repos);
                list::lemma_filter_contains(
                    inv@.repos,
                    |r: SignalV| r.override_names is None,
                );
                assert(f.contains(f[0]));
                let k = choose|k: int| 0 <= k < inv@.repos.len() && inv@.repos[k] == f[0];
                assert(repo_paths(inv@.repos)[k] == f[0].path);
                assert(repos.deep_view()[0] == f[0].path);
                assert(repos.deep_view()[0] == repos[0]@);
            }
            if let Some(report) = explain_report_for(
                repos[0].as_str(),
                self.name.as_str(),
                &self.rules.detect,
                inv,
                working,
            ) {
                proof {
                    let any = report@;
                    assert(report@ == report_for(
                        repos[0]@,
                        self@.name,
                        self@.rules.detect,
                        inv@.repos,
                        working@,
                        any,
                    ));
                }
                self.explain = Some(ExplainState { repos, cursor: 0, report });
            }
        }
        assert(self@ =~= (DetailV { explain: v.opened_explain(inv@.repos, working@), ..v }));
    }

    fn rules_key(&mut self, key: KeyEvent, inv: &Inventory, working: &mut Profiles) -> (r: bool)
        requires
            old(self)@.renaming is None,
            old(self).wf(),
        ensures
            (final(self)@, final(working)@, r) == old(self)@.after_rules(
                key.code,
                inv@.repos,
                old(working)@,
            ),
            final(self).wf(),
    {
        let ghost v = self@;
        let ghost w = working@;
        proof {
            reveal_strlit("");
            assert(""@ =~= Seq::<char>::empty());
        }
        if self.explain.is_some() {
            self.explain_key(key, inv, working);
            return false;
        }
        if self.rules.is_building() || self.rules.is_picking() {
            self.rules.handle_key(key, inv);
            self.write_back(working);
            assert(self@ =~= v.after_rules(key.code, inv@.repos, w).0);
            return false;
        }
        let back = match key.code {
            KeyCode::Enter | KeyCode::Esc => {
                self.write_back(working);
                true
            },
            KeyCode::Char('r') => {
                self.renaming = Some(TextInput::new(""));
                false
            },
            KeyCode::Char('?') => {
                self.open_explain(inv, working);
                false
            },
            _ => {
                self.rules.handle_key(key, inv);
                self.write_back(working);
                false
            },
        };
        assert(self@ =~= v.after_rules(key.code, inv@.repos, w).0);
        back
    }

    /// Acts on a key; returns whether to go back to the board.
    pub fn handle_key(&mut self, key: KeyEvent, inv: &Inventory, working: &mut Profiles) -> (r:
        bool)
        requires
            old(self).wf(),
        ensures
            (final(self)@, final(working)@, r) == old(self)@.after(
                key.code,
                inv@.repos,
                old(working)@,
            ),
            final(self).wf(),
    {
        if self.renaming.is_some() {
            self.renaming_key(key, working);
            return false;
        }
        let free = self.focus == DetailFocus::Plugins || (!self.rules.is_building()
            && !self.rules.is_picking() && self.explain.is_none());
        assert(free == self@.tab_is_free());
        match key.code {
            KeyCode::Tab if free => {
                let ghost v = self@;
                self.focus = match self.focus {
                    DetailFocus::Plugins => DetailFocus::Rules,
                    DetailFocus::Rules => DetailFocus::Plugins,
                };
                assert(self@ =~= v.after(key.code, inv@.repos, working@).0);
                false
            },
            _ => match self.focus {
                DetailFocus::Plugins => self.plugins_key(key, working),
                DetailFocus::Rules => self.rules_key(key, inv, working),
            },
        }
    }
}

/// The line that names the profile.
pub open spec fn profile_line(name: Seq<char>) -> Seq<SpanV> {
    seq![sp("PROFILE  "@, theme::accent()), sp(name, theme::text())]
}

/// The head of the view: the profile and its two tabs, or the prompt for a new name.
pub open spec fn detail_head(v: DetailV) -> Seq<Seq<SpanV>> {
    match v.renaming {
        Some(input) => seq![
            profile_line(v.name),
            Seq::empty(),
            seq![sp("rename  "@, theme::dim()), sp(input.shown(), theme::text())],
        ],
        None => {
            let on_plugins = v.focus is Plugins;
            seq![
                profile_line(v.name),
                seq![
                    sp(
                        "[Plugins]"@,
                        if on_plugins {
                            theme::accent()
                        } else {
                            theme::dim()
                        },
                    ),
                    bare("  "@),
                    sp(
                        "[Rules]"@,
                        if on_plugins {
                            theme::dim()
                        } else {
                            theme::accent()
                        },
                    ),
                ],
                Seq::empty(),
            ]
        },
    }
}

/// The lines of the head.
pub fn head_lines(state: &DetailState) -> (r: Vec<Line>)
    ensures
        r.deep_view() == detail_head(state@),
{
    let mut out = no_lines();
    put_line(
        &mut out,
        line2(styled("PROFILE  ", theme::accent()), styled(state.name.as_str(), theme::text())),
    );
    match &state.renaming {
        Some(input) => {
            put_line(&mut out, blank());
            put_line(
                &mut out,
                line2(styled("rename  ", theme::dim()), span(input.render_line(), theme::text())),
            );
        },
        None => {
            let (a, b) = match state.focus {
                DetailFocus::Plugins => (theme::accent(), theme::dim()),
                DetailFocus::Rules => (theme::dim(), theme::accent()),
            };
            put_line(
                &mut out,
                line3(styled("[Plugins]", a), raw("  "), styled("[Rules]", b)),
            );
            put_line(&mut out, blank());
        },
    }
    assert(out.deep_view() =~= detail_head(state@));
    out
}

/// What is drawn below the head.
#[derive(Debug)]
pub enum DetailBody {
    /// Nothing: a name is being typed.
    Prompt,
    Plugins { lines: Vec<Line>, selected: Option<usize> },
    Rules(RulesPage),
    Explain(ExplainPage),
}

/// The page of a detail view.
#[derive(Debug)]
pub struct DetailPage {
    pub head: Vec<Line>,
    pub body: DetailBody,
}

/// Whether `r` is the page of `v` for a panel of `height` rows, three of them the head.
pub open spec fn shows_detail(
    r: DetailPage,
    v: DetailV,
    height: int,
    scanned_at: Option<i64>,
    now_ms: i64,
) -> bool {
    let room = if height > 3 {
        height - 3
    } else {
        0
    };
    &&& r.head.deep_view() == detail_head(v)
    &&& if v.renaming is Some {
        r.body is Prompt
    } else {
        match v.focus {
            DetailFocus::Plugins => r.body matches DetailBody::Plugins { lines, selected }
                && lines.deep_view() == v.plugins.lines("Plugins"@) && (selected is Some
                <==> v.plugins.items.len() > 0) && (selected matches Some(i) ==> i
                == v.plugins.cursor),
            DetailFocus::Rules => match v.explain {
                Some(e) => r.body matches DetailBody::Explain(p) && shows_report(
                    p,
                    e.repos,
                    e.cursor,
                    e.report,
                    room,
                ),
                None => r.body matches DetailBody::Rules(p) && shows_rules(
                    p,
                    v.rules,
                    room,
                    scanned_at,
                    now_ms,
                ),
            },
        }
    }
}

/// Lays the view out for a panel of `height` rows.
pub fn render(state: &DetailState, height: u16, scanned_at: Option<i64>, now_ms: i64) -> (r:
    DetailPage)
    requires
        state.wf(),
    ensures
        shows_detail(r, state@, height as int, scanned_at, now_ms),
{
    let head = head_lines(state);
    let room: u16 = if height > 3 {
        height - 3
    } else {
        0
    };
    let body = if state.renaming.is_some() {
        DetailBody::Prompt
    } else {
        match state.focus {
            DetailFocus::Plugins => DetailBody::Plugins {
                lines: state.plugins.lines("Plugins"),
                selected: state.plugins.selected_row(),
            },
            DetailFocus::Rules => match &state.explain {
                Some(e) => {
                    assert(e.repos.len() == e@.repos.len());
                    DetailBody::Explain(explain::render(e, room))
                },
                None => DetailBody::Rules(state.rules.render(room, scanned_at, now_ms)),
            },
        }
    };
    DetailPage { head, body }
}

/// The view opens with a box for every installed plugin, checked just where the profile has
/// it, and with the rules of the profile.
pub proof fn the_view_shows_the_profile(name: Seq<char>, inv: InventoryV, w: ProfilesV, i: int)
    requires
        0 <= i < inv.plugins.len(),
    ensures
        ({
            let v = DetailV::opened(name, inv, w);
            &&& v.name == name
            &&& v.plugins.items.len() == inv.plugins.len()
            &&& v.plugins.items[i] == inv.plugins[i].key
            &&& v.plugins.checked[i] == w.profiles[name].plugins.contains(inv.plugins[i].key)
            &&& v.rules.detect == w.profiles[name].detect
            &&& !v.changed()
            &&& v.focus is Plugins
        }),
{
}

/// What is written into the profile are the plugins that are checked, and the rules; no
/// other profile and no other part of the configuration is touched by any key, unless the
/// profile is renamed.
pub proof fn a_key_touches_one_profile(
    v: DetailV,
    code: KeyCode,
    repos: Seq<SignalV>,
    w: ProfilesV,
)
    requires
        v.renaming is None,
        v.plugins.ok(),
    ensures
        ({
            let (u, x, back) = v.after(code, repos, w);
            &&& u.name == v.name
            &&& x.universal == w.universal
            &&& x.on_demand == w.on_demand
            &&& x.scan_roots == w.scan_roots
            &&& forall|m: Seq<char>|
                m != v.name ==> (#[trigger] x.profiles.contains_key(m) == w.profiles.contains_key(
                    m,
                )) && (w.profiles.contains_key(m) ==> x.profiles[m] == w.profiles[m])
            &&& x == w || !x.profiles.contains_key(v.name) || {
                &&& x.profiles[v.name].detect == u.rules.detect
                &&& forall|k: Seq<char>| #[trigger]
                    x.profiles[v.name].plugins.contains(k) <==> exists|i: int|
                        0 <= i < u.plugins.items.len() && #[trigger] u.plugins.items[i] == k
                            && u.plugins.checked[i]
            }
        }),
{
    let (u, x, back) = v.after(code, repos, w);
    crate::tui::multiselect::selected_are_items(u.plugins.items, u.plugins.checked);
}

/// Space on the plugins tab puts the plugin under the cursor into the profile, or takes it
/// out, and leaves the others.
pub proof fn space_turns_one_plugin_over(v: DetailV, repos: Seq<SignalV>, w: ProfilesV, i: int)
    requires
        v.renaming is None,
        v.focus is Plugins,
        v.plugins.ok(),
        v.plugins.items.no_duplicates(),
        0 <= i < v.plugins.items.len(),
        v.live(w),
    ensures
        ({
            let (u, x, back) = v.after(KeyCode::Char(' '), repos, w);
            let k = v.plugins.items[i];
            &&& !back
            &&& x.profiles.contains_key(v.name)
            &&& x.profiles[v.name].plugins.contains(k) <==> if i == v.plugins.cursor {
                !w.profiles[v.name].plugins.contains(k)
            } else {
                w.profiles[v.name].plugins.contains(k)
            }
        }),
{
    let (u, x, back) = v.after(KeyCode::Char(' '), repos, w);
    let k = v.plugins.items[i];
    crate::tui::multiselect::selected_are_items(v.plugins.items, v.plugins.checked);
    crate::tui::multiselect::selected_are_items(u.plugins.items, u.plugins.checked);
    crate::tui::multiselect::space_turns_one_item_over(v.plugins, KeyCode::Char(' '), i);
    assert(w.profiles[v.name].plugins.contains(k) <==> v.plugins.checked[i]);
    assert(x.profiles[v.name].plugins.contains(k) <==> u.plugins.checked[i]) by {
        assert(u.plugins.items[i] == k);
    }
}

/// Delete on the plugins tab takes out the profile, and only that, and goes back.
pub proof fn delete_takes_out_one_profile(v: DetailV, repos: Seq<SignalV>, w: ProfilesV)
    requires
        v.renaming is None,
        v.focus is Plugins,
    ensures
        ({
            let (u, x, back) = v.after(KeyCode::Delete, repos, w);
            &&& back
            &&& u.deleted
            &&& u.changed()
            &&& !x.profiles.contains_key(v.name)
            &&& forall|m: Seq<char>|
                m != v.name ==> (#[trigger] x.profiles.contains_key(m) == w.profiles.contains_key(
                    m,
                )) && (w.profiles.contains_key(m) ==> x.profiles[m] == w.profiles[m])
            &&& x.universal == w.universal
            &&& x.on_demand == w.on_demand
        }),
{
}

/// Tab goes from one tab of the view to the other and changes nothing else, as long as no
/// builder, picker or overlay has it.
pub proof fn tab_changes_the_tab(v: DetailV, repos: Seq<SignalV>, w: ProfilesV)
    requires
        v.renaming is None,
        v.rules.editor is None,
        v.rules.pick is None,
        v.explain is None,
    ensures
        ({
            let (u, x, back) = v.after(KeyCode::Tab, repos, w);
            &&& x == w
            &&& !back
            &&& u.focus != v.focus
            &&& u == (DetailV { focus: u.focus, ..v })
        }),
{
}

/// The overlay opens on the repos that rules classify, in scan order. Returns their positions.
pub proof fn the_overlay_lists_the_classified_repos(repos: Seq<SignalV>) -> (ix: Seq<int>)
    ensures
        crate::list::picks(
            ix,
            repos.len() as int,
            |i: int| repos[i].override_names is None,
        ),
        explained_paths(repos).len() == ix.len(),
        forall|k: int|
            0 <= k < ix.len() ==> #[trigger] explained_paths(repos)[k] == repos[ix[k]].path,
{
    let p = |r: SignalV| r.override_names is None;
    let q = |i: int| repos[i].override_names is None;
    crate::list::lemma_filter_picks(repos, p);
    crate::list::lemma_picked(repos.len() as int, q);
    crate::list::lemma_picked_congruent(repos.len() as int, |i: int| p(repos[i]), q);
    crate::list::picked(repos.len() as int, q)
}

/// The overlay explains the repo under its cursor, by the rules as they stand in the view:
/// when it opens, and after the cursor has moved. It changes no rule and no configuration.
pub proof fn the_repo_under_the_cursor_is_explained(
    v: DetailV,
    code: KeyCode,
    repos: Seq<SignalV>,
    w: ProfilesV,
    i: int,
)
    requires
        v.renaming is None,
        v.focus is Rules,
        code == KeyCode::Down || code == KeyCode::Up || code == KeyCode::Char('?'),
        code == KeyCode::Char('?') ==> v.explain is None && v.rules.editor is None
            && v.rules.pick is None,
        code != KeyCode::Char('?') ==> (v.explain matches Some(e) && e.ok()),
    ensures
        ({
            let (u, x, back) = v.after(code, repos, w);
            &&& x == w
            &&& !back
            &&& u.rules == v.rules
            &&& u.explain matches Some(e) ==> (repo_at(repos, e.repos[e.cursor], i) ==> e.report
                == report(repos[i], v.name, v.rules.detect, w))
            &&& code == KeyCode::Down ==> (u.explain matches Some(e) && e.repos
                == v.explain->0.repos && e.cursor == if v.explain->0.cursor + 1
                == v.explain->0.repos.len() {
                0
            } else {
                v.explain->0.cursor + 1
            })
            &&& code == KeyCode::Char('?') ==> match u.explain {
                Some(e) => e.repos == explained_paths(repos) && e.cursor == 0,
                None => explained_paths(repos).len() == 0,
            }
        }),
{
    let u = v.after(code, repos, w).0;
    if let Some(e) = v.explain {
        if code != KeyCode::Char('?') {
            crate::tui::key::cursors_go_round(e.cursor, e.repos.len() as int);
        }
    }
    if let Some(e) = u.explain {
        let path = e.repos[e.cursor];
        if repo_at(repos, path, i) {
            let j = choose|j: int| repo_at(repos, path, j);
            lemma_repo_at_unique(repos, path, i, j);
            assert(repo_paths(repos)[i] == path);
        }
    }
}

/// Taking a rule out of a profile that stands as it was opened counts as a change of what
/// matches; moving through the rules does not.
pub proof fn removing_a_rule_is_a_change(v: DetailV, repos: Seq<SignalV>, w: ProfilesV)
    requires
        v.renaming is None,
        v.explain is None,
        v.focus is Rules,
        v.rules.editor is None,
        v.rules.pick is None,
        !v.changed(),
        0 <= v.rules.cursor < flat(v.rules.detect).len(),
        flat(v.rules.detect)[v.rules.cursor].editable(),
    ensures
        v.after(KeyCode::Char('d'), repos, w).0.changed(),
        !v.after(KeyCode::Down, repos, w).0.changed(),
{
    let d = v.after(KeyCode::Char('d'), repos, w).0.rules.detect;
    crate::tui::profile::rules::d_removes_one_rule(v.rules, KeyCode::Char('d'), repos);
    assert(flat(d).len() == flat(v.rules.detect).len() - 1);
}

} // verus!
