//! The Assign sub-view: walks the unassigned plugins one at a time.

use vstd::prelude::*;

use crate::list::{self, with_key};
use crate::profile::config::{Profile, ProfileV, Profiles, ProfilesV};
use crate::text::{decimal, join2, owned, same, show, trim, trimmed};
use crate::tui::key::{down_any, is_down, is_up, next_in, prev_in, up_any, KeyCode, KeyEvent};
use crate::tui::line::{
    blank, line1, line2, no_lines, put_line, sp, span, styled, Line, SpanV,
};
use crate::tui::profile::apply::{row_style, style_of_row};
use crate::tui::profile::rules::input_of;
use crate::tui::profile::rules_page::{marker, marker_of};
use crate::tui::textinput::{InputV, TextInput};
use crate::tui::theme;

verus! {

/// The target that creates a profile.
pub open spec fn new_profile_label() -> Seq<char> {
    "+ New profile…"@
}

/// The targets for a plugin.
pub open spec fn targets(w: ProfilesV) -> Seq<Seq<char>> {
    seq!["Universal"@] + w.names() + seq![
        "On-demand"@,
        new_profile_label(),
        "Leave unassigned"@,
    ]
}

/// The walk: the plugins to place, which one is next, the target under the cursor,
/// and the name being typed for a new profile.
#[derive(Debug)]
pub struct AssignState {
    pub queue: Vec<String>,
    pub idx: usize,
    pub cursor: usize,
    pub naming: Option<TextInput>,
}

/// The contents of a walk.
#[verifier::ext_equal]
pub struct AssignV {
    pub queue: Seq<Seq<char>>,
    pub idx: int,
    pub cursor: int,
    pub naming: Option<InputV>,
}

impl View for AssignState {
    type V = AssignV;

    open spec fn view(&self) -> AssignV {
        AssignV {
            queue: self.queue.deep_view(),
            idx: self.idx as int,
            cursor: self.cursor as int,
            naming: input_of(self.naming),
        }
    }
}

/// A configuration in which profile `name` also carries `plugin`.
pub open spec fn with_member(w: ProfilesV, name: Seq<char>, plugin: Seq<char>) -> ProfilesV {
    let p = w.profiles[name];
    w.with_profile(name, ProfileV { plugins: with_key(p.plugins, plugin), ..p })
}

/// A configuration that has a profile `name`, empty if it is new.
pub open spec fn with_named(w: ProfilesV, name: Seq<char>) -> ProfilesV {
    if w.profiles.contains_key(name) {
        w
    } else {
        w.with_profile(name, ProfileV::empty())
    }
}

/// The configuration after `plugin` is put on `target`.
pub open spec fn placed_on(w: ProfilesV, target: Seq<char>, plugin: Seq<char>) -> ProfilesV {
    if target == "Universal"@ {
        ProfilesV { universal: with_key(w.universal, plugin), ..w }
    } else if target == "On-demand"@ {
        ProfilesV { on_demand: with_key(w.on_demand, plugin), ..w }
    } else if target == "Leave unassigned"@ {
        w
    } else if w.profiles.contains_key(target) {
        with_member(w, target, plugin)
    } else {
        w
    }
}

impl AssignV {
    /// A walk as it opens.
    pub open spec fn opened(queue: Seq<Seq<char>>) -> AssignV {
        AssignV { queue, idx: 0, cursor: 0, naming: None }
    }

    /// Whether every plugin has been walked past.
    pub open spec fn done(self) -> bool {
        self.idx >= self.queue.len()
    }

    /// On to the next plugin, the cursor back on the first target.
    pub open spec fn advanced(self) -> AssignV {
        AssignV { idx: self.idx + 1, cursor: 0, naming: None, ..self }
    }

    /// The walk, the configuration and whether to go back, after a key while a name
    /// is being typed.
    pub open spec fn after_naming(self, input: InputV, code: KeyCode, w: ProfilesV) -> (
        AssignV,
        ProfilesV,
        bool,
    ) {
        if code == KeyCode::Enter {
            let name = trimmed(input.chars);
            if name.len() == 0 {
                (self, w, false)
            } else {
                let named = with_named(w, name);
                let w2 = if self.idx < self.queue.len() {
                    with_member(named, name, self.queue[self.idx])
                } else {
                    named
                };
                (self.advanced(), w2, self.advanced().done())
            }
        } else if code == KeyCode::Esc {
            (AssignV { naming: None, ..self }, w, false)
        } else {
            (AssignV { naming: Some(input.after(code)), ..self }, w, false)
        }
    }

    /// The walk, the configuration and whether to go back, after a key on the targets.
    /// A cursor beyond the targets places nothing.
    pub open spec fn after_targets(self, code: KeyCode, w: ProfilesV) -> (
        AssignV,
        ProfilesV,
        bool,
    ) {
        let n = targets(w).len() as int;
        if is_up(code) {
            (AssignV { cursor: prev_in(self.cursor, n), ..self }, w, false)
        } else if is_down(code) {
            (AssignV { cursor: next_in(self.cursor, n), ..self }, w, false)
        } else if code == KeyCode::Enter && self.cursor < n {
            let t = targets(w)[self.cursor];
            if t == new_profile_label() && t != "Universal"@ && t != "On-demand"@ {
                (AssignV { naming: Some(InputV::of(Seq::empty())), ..self }, w, false)
            } else {
                (
                    self.advanced(),
                    if self.idx < self.queue.len() {
                        placed_on(w, t, self.queue[self.idx])
                    } else {
                        w
                    },
                    self.advanced().done(),
                )
            }
        } else {
            (self, w, code == KeyCode::Esc)
        }
    }

    /// The walk, the configuration and whether to go back, after a key.
    pub open spec fn after(self, code: KeyCode, w: ProfilesV) -> (AssignV, ProfilesV, bool) {
        match self.naming {
            Some(input) => self.after_naming(input, code, w),
            None => self.after_targets(code, w),
        }
    }
}

/// Assigning never touches the detection rules of an existing profile.
pub proof fn assigning_keeps_rules(v: AssignV, code: KeyCode, w: ProfilesV)
    ensures
        forall|k: Seq<char>| #[trigger]
            w.profiles.contains_key(k) ==> v.after(code, w).1.profiles.contains_key(k) && v.after(
                code,
                w,
            ).1.profiles[k].detect == w.profiles[k].detect,
{
}

/// Adds `plugin` to profile `name`, which exists.
pub fn join_profile(working: &mut Profiles, name: &str, plugin: &str)
    requires
        old(working)@.profiles.contains_key(name@),
    ensures
        final(working)@ == with_member(old(working)@, name@, plugin@),
{
    let ghost w = working@;
    match working.take(name) {
        Some(p) => {
            let mut q = p;
            list::add_missing(&mut q.plugins, plugin);
            working.put(name, q);
        },
        None => {},
    }
    assert(working@ =~= with_member(w, name@, plugin@));
}

impl AssignState {
    /// A walk over `queue`.
    pub fn new(queue: Vec<String>) -> (r: AssignState)
        ensures
            r@ == AssignV::opened(queue.deep_view()),
    {
        AssignState { queue, idx: 0, cursor: 0, naming: None }
    }

    /// The targets for the current plugin.
    pub fn target_options(&self, working: &Profiles) -> (r: Vec<String>)
        ensures
            r.deep_view() == targets(working@),
    {
        let mut opts: Vec<String> = Vec::new();
        opts.push(owned("Universal"));
        let names = working.names();
        list::extend(&mut opts, &names);
        opts.push(owned("On-demand"));
        opts.push(owned("+ New profile…"));
        opts.push(owned("Leave unassigned"));
        assert(opts.deep_view() =~= targets(working@));
        opts
    }

    /// Whether every plugin has been walked past.
    pub fn is_done(&self) -> (r: bool)
        ensures
            r == self@.done(),
    {
        self.idx >= self.queue.len()
    }

    /// The plugin to place.
    pub fn current_plugin(&self) -> (r: Option<&str>)
        ensures
            match r {
                Some(p) => self@.idx < self@.queue.len() && p@ == self@.queue[self@.idx],
                None => self@.done(),
            },
    {
        if self.idx < self.queue.len() {
            Some(self.queue[self.idx].as_str())
        } else {
            None
        }
    }

    fn advance(&mut self)
        requires
            old(self).idx < usize::MAX,
        ensures
            final(self)@ == old(self)@.advanced(),
            final(self).queue == old(self).queue,
    {
        self.idx = self.idx + 1;
        self.cursor = 0;
        self.naming = None;
    }

    fn naming_key(&mut self, key: KeyEvent, working: &mut Profiles) -> (r: bool)
        requires
            old(self).naming is Some,
            old(self).idx < usize::MAX,
        ensures
            (final(self)@, final(working)@, r) == old(self)@.after_naming(
                old(self)@.naming->0,
                key.code,
                old(working)@,
            ),
            final(self).queue == old(self).queue,
    {
        let ghost w = working@;
        let mut input = match self.naming.take() {
            Some(t) => t,
            None => {
                return false;
            },
        };
        match key.code {
            KeyCode::Enter => {
                let name = trim(input.value().as_str());
                if name.as_str().is_empty() {
                    self.naming = Some(input);
                    return false;
                }
                if !working.profiles.contains_key(name.as_str()) {
                    working.put(name.as_str(), Profile::default());
                }
                assert(working@ == with_named(w, name@));
                if self.idx < self.queue.len() {
                    join_profile(working, name.as_str(), self.queue[self.idx].as_str());
                }
                self.advance();
                self.is_done()
            },
            KeyCode::Esc => false,
            _ => {
                input.handle_key(key);
                self.naming = Some(input);
                false
            },
        }
    }

    /// Acts on a key; returns whether to go back to the board. Placing a plugin
    /// changes `working`.
    pub fn handle_key(&mut self, key: KeyEvent, working: &mut Profiles) -> (r: bool)
        requires
            old(self).idx < usize::MAX,
        ensures
            (final(self)@, final(working)@, r) == old(self)@.after(key.code, old(working)@),
            final(self).queue == old(self).queue,
    {
        if self.naming.is_some() {
            return self.naming_key(key, working);
        }
        let ghost w = working@;
        let opts = self.target_options(working);
        let n: usize = opts.len();
        assert(n == opts.deep_view().len());
        match key.code {
            KeyCode::Up | KeyCode::Char('k') => {
                self.cursor = up_any(self.cursor, n);
                false
            },
            KeyCode::Down | KeyCode::Char('j') => {
                self.cursor = down_any(self.cursor, n);
                false
            },
            KeyCode::Enter => {
                if self.cursor >= n {
                    return false;
                }
                let t = opts[self.cursor].as_str();
                assert(t@ == targets(w)[self.cursor as int]);
                let universal = same(t, "Universal");
                let on_demand = same(t, "On-demand");
                if !universal && !on_demand && same(t, "+ New profile…") {
                    proof {
                        reveal_strlit("");
                        assert(""@ =~= Seq::<char>::empty());
                    }
                    self.naming = Some(TextInput::new(""));
                    return false;
                }
                if self.idx < self.queue.len() {
                    let plugin = self.queue[self.idx].as_str();
                    if universal {
                        list::add_missing(&mut working.universal, plugin);
                    } else if on_demand {
                        list::add_missing(&mut working.on_demand, plugin);
                    } else if !same(t, "Leave unassigned") {
                        if working.profiles.contains_key(t) {
                            join_profile(working, t, plugin);
                        }
                    }
                    assert(working@ =~= placed_on(w, t@, plugin@));
                }
                self.advance();
                self.is_done()
            },
            KeyCode::Esc => true,
            _ => false,
        }
    }
}

/// The lines above the targets.
pub open spec fn assign_head(v: AssignV) -> Seq<Seq<SpanV>> {
    let left = if v.idx < v.queue.len() {
        v.queue.len() - v.idx
    } else {
        0
    };
    let current = if v.idx < v.queue.len() {
        v.queue[v.idx]
    } else {
        "(done)"@
    };
    seq![
        seq![
            sp("ASSIGN PLUGINS    "@, theme::accent()),
            sp(decimal(left as nat) + " left"@, theme::dim()),
        ],
        Seq::empty(),
        seq![sp("plugin  "@, theme::dim()), sp(current, theme::text())],
        Seq::empty(),
    ]
}

/// One line per target, the selected one marked.
pub open spec fn option_rows(opts: Seq<Seq<char>>, cursor: int) -> Seq<Seq<SpanV>> {
    Seq::new(
        opts.len(),
        |i: int|
            seq![sp(marker(i == cursor) + opts[i], row_style(i == cursor, theme::text()))],
    )
}

/// The prompt for a name.
pub open spec fn name_row(input: InputV) -> Seq<SpanV> {
    seq![sp("name    "@, theme::dim()), sp(input.shown(), theme::text())]
}

/// The lines of the sub-view.
pub open spec fn assign_lines(v: AssignV, w: ProfilesV) -> Seq<Seq<SpanV>> {
    assign_head(v) + match v.naming {
        Some(input) => seq![name_row(input)],
        None => option_rows(targets(w), v.cursor),
    }
}

/// One line per option, the selected one marked.
pub fn option_lines(opts: &Vec<String>, cursor: usize) -> (r: Vec<Line>)
    ensures
        r.deep_view() == option_rows(opts.deep_view(), cursor as int),
{
    let ghost all = option_rows(opts.deep_view(), cursor as int);
    let mut out = no_lines();
    let mut i: usize = 0;
    while i < opts.len()
        invariant
            i <= opts.len(),
            all == option_rows(opts.deep_view(), cursor as int),
            out.deep_view() =~= all.take(i as int),
        decreases opts.len() - i,
    {
        let l = line1(
            span(
                join2(marker_of(i == cursor), opts[i].as_str()),
                style_of_row(i == cursor, theme::text()),
            ),
        );
        assert(l@ =~= all[i as int]);
        put_line(&mut out, l);
        i += 1;
    }
    assert(all.take(i as int) =~= all);
    out
}

/// The prompt for a name.
pub fn name_line(input: &TextInput) -> (r: Line)
    ensures
        r@ == name_row(input@),
{
    line2(styled("name    ", theme::dim()), span(input.render_line(), theme::text()))
}

/// The lines of the sub-view and the line to keep visible.
pub fn render(state: &AssignState, working: &Profiles) -> (r: (Vec<Line>, usize))
    ensures
        r.0.deep_view() == assign_lines(state@, working@),
        r.1 == if state@.naming is None && state@.cursor < targets(working@).len() {
            4 + state@.cursor
        } else {
            0
        },
{
    let left: usize = if state.idx < state.queue.len() {
        state.queue.len() - state.idx
    } else {
        0
    };
    let current = match state.current_plugin() {
        Some(p) => p,
        None => "(done)",
    };
    let mut out = no_lines();
    put_line(
        &mut out,
        line2(
            styled("ASSIGN PLUGINS    ", theme::accent()),
            span(join2(show(left as u64).as_str(), " left"), theme::dim()),
        ),
    );
    put_line(&mut out, blank());
    put_line(
        &mut out,
        line2(styled("plugin  ", theme::dim()), styled(current, theme::text())),
    );
    put_line(&mut out, blank());
    assert(out.deep_view() =~= assign_head(state@));
    let mut cursor_line: usize = 0;
    match &state.naming {
        Some(input) => {
            put_line(&mut out, name_line(input));
        },
        None => {
            let opts = state.target_options(working);
            assert(opts.len() == opts.deep_view().len());
            let rows = option_lines(&opts, state.cursor);
            crate::tui::line::put_lines(&mut out, rows);
            let n: usize = out.len();
            assert(n == out.deep_view().len());
            if state.cursor < opts.len() {
                cursor_line = 4 + state.cursor;
            }
        },
    }
    assert(out.deep_view() =~= assign_lines(state@, working@));
    (out, cursor_line)
}

/// Enter puts the plugin on the target under the cursor and nowhere else, and goes on to the
/// next plugin: Universal first, then the profiles by name, then On-demand, the entry for a
/// new profile, and Leave unassigned, which places nothing.
pub proof fn enter_places_the_plugin_on_the_target(v: AssignV, w: ProfilesV)
    requires
        v.naming is None,
        0 <= v.idx < v.queue.len(),
        0 <= v.cursor < targets(w).len(),
        list::lists(w.names(), w.profiles.dom()),
        !w.profiles.contains_key("Universal"@),
        !w.profiles.contains_key("On-demand"@),
        !w.profiles.contains_key("Leave unassigned"@),
        !w.profiles.contains_key("+ New profile…"@),
    ensures
        ({
            let (u, x, done) = v.after(KeyCode::Enter, w);
            let n = w.names().len() as int;
            let key = v.queue[v.idx];
            &&& targets(w).len() == n + 4
            &&& v.cursor != n + 2 ==> {
                &&& u.idx == v.idx + 1
                &&& u.cursor == 0
                &&& u.queue == v.queue
                &&& done <==> v.idx + 1 == v.queue.len()
            }
            &&& v.cursor == n + 2 ==> x == w && u.idx == v.idx && !done && (u.naming matches Some(
                i,
            ) && i.chars.len() == 0)
            &&& forall|k: Seq<char>| #[trigger]
                x.universal.contains(k) <==> w.universal.contains(k) || (k == key && v.cursor == 0)
            &&& forall|k: Seq<char>| #[trigger]
                x.on_demand.contains(k) <==> w.on_demand.contains(k) || (k == key && v.cursor == n
                    + 1)
            &&& forall|m: Seq<char>| #[trigger]
                x.profiles.contains_key(m) <==> w.profiles.contains_key(m)
            &&& forall|m: Seq<char>, k: Seq<char>|
                w.profiles.contains_key(m) ==> (#[trigger] x.profiles[m].plugins.contains(k)
                    <==> w.profiles[m].plugins.contains(k) || (k == key && 1 <= v.cursor <= n && m
                    == w.names()[v.cursor - 1]))
        }),
{
    reveal_strlit("Universal");
    reveal_strlit("On-demand");
    reveal_strlit("Leave unassigned");
    reveal_strlit("+ New profile…");
    assert("Universal"@[0] == 'U' && "On-demand"@[0] == 'O' && "Leave unassigned"@[0] == 'L'
        && "+ New profile…"@[0] == '+');
    let names = w.names();
    let n = names.len() as int;
    let key = v.queue[v.idx];
    let t = targets(w)[v.cursor];
    let x = v.after(KeyCode::Enter, w).1;
    list::adding_a_name_adds_it_once(w.universal, key);
    list::adding_a_name_adds_it_once(w.on_demand, key);
    if 1 <= v.cursor <= n {
        assert(t == names[v.cursor - 1]);
        assert(names.contains(t));
        assert(w.profiles.contains_key(t));
        list::adding_a_name_adds_it_once(w.profiles[t].plugins, key);
    }
    assert forall|m: Seq<char>| #[trigger] x.profiles.contains_key(m) <==> w.profiles.contains_key(
        m,
    ) by {}
}

/// A typed name puts the plugin into the profile of that name, which is made without rules
/// if it is new, and goes on to the next plugin. Nothing else changes.
pub proof fn a_typed_name_takes_the_plugin(v: AssignV, input: InputV, w: ProfilesV)
    requires
        v.naming == Some(input),
        0 <= v.idx < v.queue.len(),
        trimmed(input.chars).len() > 0,
    ensures
        ({
            let name = trimmed(input.chars);
            let (u, x, done) = v.after(KeyCode::Enter, w);
            let key = v.queue[v.idx];
            &&& u.idx == v.idx + 1
            &&& u.naming is None
            &&& done <==> v.idx + 1 == v.queue.len()
            &&& x.universal == w.universal
            &&& x.on_demand == w.on_demand
            &&& x.scan_roots == w.scan_roots
            &&& forall|m: Seq<char>| #[trigger]
                x.profiles.contains_key(m) <==> w.profiles.contains_key(m) || m == name
            &&& forall|m: Seq<char>| #[trigger]
                w.profiles.contains_key(m) && m != name ==> x.profiles[m] == w.profiles[m]
            &&& x.profiles[name].plugins.contains(key)
            &&& w.profiles.contains_key(name) ==> x.profiles[name].detect
                == w.profiles[name].detect && forall|k: Seq<char>| #[trigger]
                x.profiles[name].plugins.contains(k) <==> w.profiles[name].plugins.contains(k) || k
                    == key
            &&& !w.profiles.contains_key(name) ==> x.profiles[name].plugins == seq![key]
                && x.profiles[name].detect == ProfileV::empty().detect
        }),
{
    let name = trimmed(input.chars);
    let key = v.queue[v.idx];
    let x = v.after(KeyCode::Enter, w).1;
    let named = with_named(w, name);
    list::adding_a_name_adds_it_once(named.profiles[name].plugins, key);
    if !w.profiles.contains_key(name) {
        assert(x.profiles[name].plugins =~= seq![key]);
    }
}

/// Only Enter places a plugin: every other key leaves the configuration as it is.
pub proof fn only_enter_assigns(v: AssignV, code: KeyCode, w: ProfilesV)
    requires
        code != KeyCode::Enter,
    ensures
        v.after(code, w).1 == w,
        v.after(code, w).0.idx == v.idx,
        v.after(code, w).0.queue == v.queue,
{
}

/// Moving goes round the targets; Esc goes back, or leaves the typing of a name; a name that
/// is empty is not taken.
pub proof fn moving_goes_round_the_targets(v: AssignV, w: ProfilesV, input: InputV)
    requires
        0 <= v.cursor < targets(w).len(),
    ensures
        v.naming is None ==> {
            let n = targets(w).len() as int;
            &&& v.after(KeyCode::Down, w).0.cursor == if v.cursor + 1 == n {
                0
            } else {
                v.cursor + 1
            }
            &&& v.after(KeyCode::Up, w).0.cursor == if v.cursor == 0 {
                n - 1
            } else {
                v.cursor - 1
            }
            &&& v.after(KeyCode::Esc, w) == (v, w, true)
        },
        v.naming == Some(input) ==> {
            &&& v.after(KeyCode::Esc, w) == (AssignV { naming: None, ..v }, w, false)
            &&& trimmed(input.chars).len() == 0 ==> v.after(KeyCode::Enter, w) == (v, w, false)
            &&& v.after(KeyCode::Char('x'), w).0.naming == Some(input.after(KeyCode::Char('x')))
        },
{
    crate::tui::key::cursors_go_round(v.cursor, targets(w).len() as int);
}

/// The head names the plugin that is asked about, and how many are left.
pub proof fn the_head_names_the_plugin(v: AssignV)
    requires
        0 <= v.idx < v.queue.len(),
    ensures
        assign_head(v)[2][1].text == v.queue[v.idx],
        assign_head(v)[0][1].text == decimal((v.queue.len() - v.idx) as nat) + " left"@,
{
}

} // verus!
