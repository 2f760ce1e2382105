//! The Apply sub-view: which repos to write, with a preview of what each would get.

use vstd::prelude::*;

use crate::list;
use crate::profile::config::{Profiles, ProfilesV};
use crate::profile::discover::{RepoSignal, SignalV};
use crate::profile::plugins::{desired, desired_plugins};
use crate::profile::signal_detect::{
    detect_from_signal, detect_from_signal_explained, explained, is_pending, matched_names, ReasonV,
};
use crate::text::{decimal, join, join2, join3, joined, owned, pad, padded, show};
use crate::tui::key::{down, is_down, is_up, next_in, prev_in, up, KeyCode, KeyEvent};
use crate::tui::line::{
    bare, line1, line2, line3, no_lines, put_line, put_lines, put_span, raw, sp, span, styled, Line,
    SpanV,
};
use crate::tui::profile::age::{age_text, fmt_age};
use crate::tui::theme::{self, Style};
use crate::tui::view::{Action, ActionV};
use crate::tui::widgets::{seconds_of, whole_seconds};

verus! {

/// One scanned repo with what it matches and the plugins it would get.
#[derive(Debug)]
pub struct ApplyRow {
    pub sig: RepoSignal,
    pub path: String,
    pub matched: Vec<String>,
    pub plugins: Vec<String>,
    /// Some profile has no verdict yet, so the row is no decision.
    pub pending: bool,
}

/// The contents of a row.
#[verifier::ext_equal]
pub struct ApplyRowV {
    pub sig: SignalV,
    pub path: Seq<char>,
    pub matched: Seq<Seq<char>>,
    pub plugins: Seq<Seq<char>>,
    pub pending: bool,
}

impl DeepView for ApplyRow {
    type V = ApplyRowV;

    open spec fn deep_view(&self) -> ApplyRowV {
        ApplyRowV {
            sig: self.sig@,
            path: self.path@,
            matched: self.matched.deep_view(),
            plugins: self.plugins.deep_view(),
            pending: self.pending,
        }
    }
}

/// The row of a repo.
pub open spec fn row_for(sig: SignalV, w: ProfilesV) -> ApplyRowV {
    let matched = matched_names(sig, w.names(), w.profiles);
    ApplyRowV {
        sig,
        path: sig.path,
        matched,
        plugins: desired(w, matched),
        pending: is_pending(sig, w.names(), w.profiles),
    }
}

/// Whether a row starts out checked: it matches, and nothing about it is open.
pub open spec fn starts_checked(row: ApplyRowV) -> bool {
    !row.pending && row.matched.len() > 0
}

/// A row that is still open is never checked by default.
pub proof fn pending_rows_start_unchecked(sig: SignalV, w: ProfilesV)
    requires
        is_pending(sig, w.names(), w.profiles),
    ensures
        !starts_checked(row_for(sig, w)),
{
}

/// The Apply sub-view.
#[derive(Debug)]
pub struct ApplyState {
    pub rows: Vec<ApplyRow>,
    /// Which rows to write, one flag per row.
    pub sel: Vec<bool>,
    pub cursor: usize,
    /// The row whose reasons are shown.
    pub expanded: Option<usize>,
}

/// The contents of the sub-view.
#[verifier::ext_equal]
pub struct ApplyV {
    pub rows: Seq<ApplyRowV>,
    pub sel: Seq<bool>,
    pub cursor: int,
    pub expanded: Option<usize>,
}

impl View for ApplyState {
    type V = ApplyV;

    open spec fn view(&self) -> ApplyV {
        ApplyV {
            rows: self.rows.deep_view(),
            sel: self.sel@,
            cursor: self.cursor as int,
            expanded: self.expanded,
        }
    }
}

/// The rows of the repos, in scan order.
pub open spec fn rows_for(repos: Seq<SignalV>, w: ProfilesV) -> Seq<ApplyRowV> {
    repos.map_values(|s: SignalV| row_for(s, w))
}

impl ApplyV {
    /// The sub-view as it opens.
    pub open spec fn opened(repos: Seq<SignalV>, w: ProfilesV) -> ApplyV {
        ApplyV {
            rows: rows_for(repos, w),
            sel: rows_for(repos, w).map_values(|r: ApplyRowV| starts_checked(r)),
            cursor: 0,
            expanded: None,
        }
    }

    /// One flag per row, and the cursor on a row if there is one.
    pub open spec fn ok(self) -> bool {
        &&& self.sel.len() == self.rows.len()
        &&& 0 <= self.cursor
        &&& self.rows.len() == 0 || self.cursor < self.rows.len()
    }

    /// The sub-view after a key.
    pub open spec fn after(self, code: KeyCode) -> ApplyV {
        let n = self.rows.len() as int;
        if n == 0 {
            self
        } else if is_up(code) {
            ApplyV { cursor: prev_in(self.cursor, n), ..self }
        } else if is_down(code) {
            ApplyV { cursor: next_in(self.cursor, n), ..self }
        } else if code == KeyCode::Char(' ') {
            ApplyV { sel: self.sel.update(self.cursor, !self.sel[self.cursor]), ..self }
        } else if code == KeyCode::Char('x') {
            ApplyV {
                expanded: if self.expanded == Some(self.cursor as usize) {
                    None
                } else {
                    Some(self.cursor as usize)
                },
                ..self
            }
        } else {
            self
        }
    }
}

/// No key takes the sub-view out of shape.
pub proof fn keys_keep_apply_ok(v: ApplyV, code: KeyCode)
    requires
        v.ok(),
    ensures
        v.after(code).ok(),
{
    if v.rows.len() > 0 {
        crate::tui::key::moves_stay_in_range(v.cursor, v.rows.len() as int);
    }
}

/// The checked rows among the first `k`: their paths and what the preview promised.
pub open spec fn chosen(rows: Seq<ApplyRowV>, sel: Seq<bool>, k: int) -> Seq<
    (Seq<char>, Seq<Seq<char>>),
>
    decreases k,
{
    if k <= 0 {
        Seq::empty()
    } else {
        let before = chosen(rows, sel, k - 1);
        if sel[k - 1] {
            before.push((rows[k - 1].path, rows[k - 1].matched))
        } else {
            before
        }
    }
}

/// The paths of chosen rows.
pub open spec fn chosen_paths(c: Seq<(Seq<char>, Seq<Seq<char>>)>) -> Seq<Seq<char>> {
    c.map_values(|e: (Seq<char>, Seq<Seq<char>>)| e.0)
}

/// An unchecked row is never written.
pub proof fn unchecked_rows_are_left_out(rows: Seq<ApplyRowV>, sel: Seq<bool>, k: int)
    requires
        0 <= k <= rows.len(),
        sel.len() == rows.len(),
        forall|i: int| 0 <= i < k ==> !#[trigger] sel[i],
    ensures
        chosen(rows, sel, k).len() == 0,
    decreases k,
{
    if k > 0 {
        unchecked_rows_are_left_out(rows, sel, k - 1);
        assert(!sel[k - 1]);
    }
}

/// What the owner should do after a key.
#[derive(Debug)]
pub enum ApplyOutcome {
    Stay,
    Back,
    Commit(Action),
}

/// The commit of `v` under configuration `w`: the chosen repos, each with what the
/// preview promised for it.
pub open spec fn commit_of(v: ApplyV, w: ProfilesV) -> ActionV {
    let c = chosen(v.rows, v.sel, v.rows.len() as int);
    ActionV::Commit { cfg: w, repos: chosen_paths(c), expected: c }
}

/// A commit writes every checked row and no other, in the order of the rows, each with
/// what its preview promised, under the configuration as edited. Returns the positions of
/// the rows that are written.
pub proof fn every_checked_row_is_written(v: ApplyV, w: ProfilesV) -> (ix: Seq<int>)
    requires
        v.ok(),
    ensures
        list::picks(ix, v.rows.len() as int, |i: int| v.sel[i]),
        commit_of(v, w) matches ActionV::Commit { cfg, repos, expected } && {
            &&& cfg == w
            &&& repos.len() == ix.len()
            &&& expected.len() == ix.len()
            &&& forall|k: int| 0 <= k < ix.len() ==> #[trigger] repos[k] == v.rows[ix[k]].path
            &&& forall|k: int|
                0 <= k < ix.len() ==> #[trigger] expected[k] == (
                    v.rows[ix[k]].path,
                    v.rows[ix[k]].matched,
                )
        },
{
    let n = v.rows.len() as int;
    let p = |i: int| v.sel[i];
    let f = |i: int| (v.rows[i].path, v.rows[i].matched);
    list::lemma_picked(n, p);
    lemma_chosen(v.rows, v.sel, n);
    let ix = list::picked(n, p);
    let c = chosen(v.rows, v.sel, n);
    assert(c == ix.map_values(f));
    assert(chosen_paths(c).len() == ix.len());
    assert forall|k: int| 0 <= k < ix.len() implies #[trigger] chosen_paths(c)[k]
        == v.rows[ix[k]].path by {
        assert(c[k] == f(ix[k]));
    }
    ix
}

proof fn lemma_chosen(rows: Seq<ApplyRowV>, sel: Seq<bool>, k: int)
    ensures
        chosen(rows, sel, k) == list::picked(k, |i: int| sel[i]).map_values(
            |i: int| (rows[i].path, rows[i].matched),
        ),
    decreases k,
{
    if k > 0 {
        lemma_chosen(rows, sel, k - 1);
    }
    assert(chosen(rows, sel, k) =~= list::picked(k, |i: int| sel[i]).map_values(
        |i: int| (rows[i].path, rows[i].matched),
    ));
}

/// Where the cursor is, and which reasons are shown, does not change what is written.
pub proof fn the_cursor_does_not_change_the_commit(
    v: ApplyV,
    w: ProfilesV,
    cursor: int,
    expanded: Option<usize>,
)
    ensures
        commit_of(ApplyV { cursor, expanded, ..v }, w) == commit_of(v, w),
{
}

/// Space turns the row under the cursor over and no other, and is undone by space. Moving
/// and showing reasons leave the checks as they are. The rows never change.
pub proof fn space_turns_one_row_over(v: ApplyV, code: KeyCode, i: int)
    requires
        v.ok(),
        0 <= i < v.rows.len(),
    ensures
        v.after(code).rows == v.rows,
        v.after(code).sel[i] == if code == KeyCode::Char(' ') && i == v.cursor {
            !v.sel[i]
        } else {
            v.sel[i]
        },
        v.after(KeyCode::Char(' ')).after(KeyCode::Char(' ')) == v,
{
    assert(v.after(KeyCode::Char(' ')).after(KeyCode::Char(' ')).sel =~= v.sel);
}

/// The sub-view opens with a row for every repo, in scan order: what the repo matches, and
/// the plugins it would get. A row is checked just when it matches something and nothing
/// about it is open.
pub proof fn every_repo_has_a_row(repos: Seq<SignalV>, w: ProfilesV, i: int)
    requires
        0 <= i < repos.len(),
    ensures
        ApplyV::opened(repos, w).ok(),
        ApplyV::opened(repos, w).rows.len() == repos.len(),
        ({
            let row = ApplyV::opened(repos, w).rows[i];
            &&& row.sig == repos[i]
            &&& row.path == repos[i].path
            &&& row.matched == matched_names(repos[i], w.names(), w.profiles)
            &&& row.plugins == desired(w, row.matched)
            &&& row.pending == is_pending(repos[i], w.names(), w.profiles)
            &&& ApplyV::opened(repos, w).sel[i] == (row.matched.len() > 0 && !row.pending)
        }),
{
}

impl ApplyState {
    /// Builds the sub-view from the index: one row per scanned repo.
    pub fn open(repos: &Vec<RepoSignal>, working: &Profiles) -> (r: ApplyState)
        ensures
            r@ == ApplyV::opened(repos.deep_view(), working@),
            r@.ok(),
    {
        let ghost all = rows_for(repos.deep_view(), working@);
        let mut rows: Vec<ApplyRow> = Vec::new();
        let mut sel: Vec<bool> = Vec::new();
        let mut i: usize = 0;
        while i < repos.len()
            invariant
                i <= repos.len(),
                all == rows_for(repos.deep_view(), working@),
                rows@.len() == i,
                sel@.len() == i,
                forall|j: int| 0 <= j < i ==> (#[trigger] rows[j]).deep_view() == all[j],
                forall|j: int| 0 <= j < i ==> #[trigger] sel@[j] == starts_checked(all[j]),
            decreases repos.len() - i,
        {
            let s = &repos[i];
            assert(repos.deep_view()[i as int] == s@);
            let (matched, pending) = detect_from_signal(s, working);
            let plugins = desired_plugins(working, &matched);
            assert(matched.len() == matched.deep_view().len());
            sel.push(!pending && matched.len() > 0);
            rows.push(
                ApplyRow { sig: s.clone(), path: s.path.clone(), matched, plugins, pending },
            );
            i += 1;
        }
        let r = ApplyState { rows, sel, cursor: 0, expanded: None };
        assert(r@.rows =~= all);
        assert(r@.sel =~= all.map_values(|r: ApplyRowV| starts_checked(r)));
        r
    }

    fn commit(&self, working: &Profiles) -> (a: Action)
        requires
            self@.ok(),
        ensures
            a@ == commit_of(self@, working@),
    {
        let ghost v = self@;
        let mut repos: Vec<String> = Vec::new();
        let mut expected: Vec<(String, Vec<String>)> = Vec::new();
        assert(expected.deep_view() =~= Seq::<(Seq<char>, Seq<Seq<char>>)>::empty());
        assert(repos.deep_view() =~= chosen_paths(chosen(v.rows, v.sel, 0)));
        let mut i: usize = 0;
        while i < self.rows.len()
            invariant
                i <= self.rows.len(),
                v == self@,
                v.ok(),
                expected.deep_view() == chosen(v.rows, v.sel, i as int),
                repos.deep_view() == chosen_paths(chosen(v.rows, v.sel, i as int)),
            decreases self.rows.len() - i,
        {
            let row = &self.rows[i];
            assert(v.rows[i as int] == row.deep_view());
            if self.sel[i] {
                let ghost before = expected.deep_view();
                let ghost pb = repos.deep_view();
                let m = list::copy(&row.matched);
                let ghost mv = m.deep_view();
                repos.push(row.path.clone());
                expected.push((row.path.clone(), m));
                assert(expected.deep_view() =~= before.push((row.path@, mv)));
                assert(repos.deep_view() =~= pb.push(row.path@));
                assert(repos.deep_view() =~= chosen_paths(chosen(v.rows, v.sel, i + 1)));
            }
            i += 1;
        }
        Action::Commit { cfg: working.clone(), repos, expected }
    }

    /// Acts on a key: arrows move, space toggles, x shows reasons, Enter commits the
    /// checked rows, Esc goes back.
    pub fn handle_key(&mut self, key: KeyEvent, working: &Profiles) -> (r: ApplyOutcome)
        requires
            old(self)@.ok(),
        ensures
            final(self)@ == old(self)@.after(key.code),
            final(self)@.ok(),
            if key.code == KeyCode::Enter {
                r matches ApplyOutcome::Commit(a) && a@ == commit_of(old(self)@, working@)
            } else if key.code == KeyCode::Esc {
                r is Back
            } else {
                r is Stay
            },
    {
        proof {
            keys_keep_apply_ok(self@, key.code);
        }
        let n: usize = self.rows.len();
        assert(n == self@.rows.len());
        match key.code {
            KeyCode::Up | KeyCode::Char('k') => {
                if n > 0 {
                    self.cursor = up(self.cursor, n);
                }
                ApplyOutcome::Stay
            },
            KeyCode::Down | KeyCode::Char('j') => {
                if n > 0 {
                    self.cursor = down(self.cursor, n);
                }
                ApplyOutcome::Stay
            },
            KeyCode::Char(' ') => {
                if n > 0 {
                    let c = self.sel[self.cursor];
                    self.sel[self.cursor] = !c;
                }
                ApplyOutcome::Stay
            },
            KeyCode::Char('x') => {
                if n > 0 {
                    self.expanded =
                    match self.expanded {
                        Some(i) => if i == self.cursor {
                            None
                        } else {
                            Some(self.cursor)
                        },
                        None => Some(self.cursor),
                    };
                }
                ApplyOutcome::Stay
            },
            KeyCode::Enter => ApplyOutcome::Commit(self.commit(working)),
            KeyCode::Esc => ApplyOutcome::Back,
            _ => ApplyOutcome::Stay,
        }
    }
}

/// How many flags are set among the first `k`.
pub open spec fn set_count(sel: Seq<bool>, k: int) -> nat
    decreases k,
{
    if k <= 0 {
        0
    } else {
        set_count(sel, k - 1) + if sel[k - 1] {
            1nat
        } else {
            0nat
        }
    }
}

/// A style, on the selection background if the row is selected.
pub open spec fn row_style(selected: bool, st: Style) -> Style {
    if selected {
        theme::selection().patch(st)
    } else {
        st
    }
}

/// A style, on the selection background if the row is selected.
pub fn style_of_row(selected: bool, st: Style) -> (r: Style)
    ensures
        r == row_style(selected, st),
{
    if selected {
        theme::selection().patch(st)
    } else {
        st
    }
}

/// The line of a row.
pub open spec fn apply_line(row: ApplyRowV, checked: bool, selected: bool) -> Seq<SpanV> {
    let dim = row_style(selected, theme::dim());
    let matched = if row.matched.len() == 0 {
        "no match"@
    } else {
        joined(row.matched, ", "@)
    };
    seq![
        sp(
            if checked {
                "[x] "@
            } else {
                "[ ] "@
            },
            row_style(selected, theme::accent()),
        ),
        sp(padded(row.path, 40) + " "@, row_style(selected, theme::text())),
        sp(padded(matched, 20) + " "@, dim),
    ] + (if row.pending {
        seq![sp("pending index  "@, dim)]
    } else {
        Seq::empty()
    }) + (if row.plugins.len() > 0 {
        seq![sp("+ "@ + joined(row.plugins, ", "@), dim)]
    } else {
        Seq::empty()
    })
}

/// The reasons of a row.
pub open spec fn reason_lines(row: ApplyRowV, w: ProfilesV) -> Seq<Seq<SpanV>> {
    let es = explained(row.sig, w.names(), w.profiles);
    if es.len() == 0 {
        seq![
            seq![
                bare("    "@),
                sp(
                    if row.pending {
                        "(pending — some rules not yet indexed)"@
                    } else {
                        "(no rules matched)"@
                    },
                    theme::faint(),
                ),
            ],
        ]
    } else {
        es.map_values(
            |e: (Seq<char>, ReasonV)|
                seq![
                    bare("    "@),
                    sp(e.0 + ": "@, theme::faint()),
                    sp(
                        e.1.rule + " = "@ + (match e.1.value {
                            Some(v) => v,
                            None => "-"@,
                        }),
                        theme::dim(),
                    ),
                ],
        )
    }
}

/// The lines of the first `k` rows.
pub open spec fn body_lines(v: ApplyV, w: ProfilesV, k: int) -> Seq<Seq<SpanV>>
    decreases k,
{
    if k <= 0 {
        Seq::empty()
    } else {
        let i = k - 1;
        let with_row = body_lines(v, w, i).push(apply_line(v.rows[i], v.sel[i], i == v.cursor));
        if v.expanded == Some(i as usize) {
            with_row + reason_lines(v.rows[i], w)
        } else {
            with_row
        }
    }
}

/// The title line.
pub open spec fn title_line(sel: Seq<bool>) -> Seq<SpanV> {
    seq![
        sp("APPLY — which repos?    "@, theme::accent()),
        sp(
            decimal(set_count(sel, sel.len() as int)) + " of "@ + (decimal(sel.len())
                + " selected"@),
            theme::dim(),
        ),
    ]
}

/// The line that says how old the preview is.
pub open spec fn age_line(scanned_at: Option<i64>, now_ms: i64) -> Seq<SpanV> {
    let age = match scanned_at {
        Some(t) => age_text(t as int, whole_seconds(now_ms as int)),
        None => "never"@,
    };
    seq![
        sp(
            "preview as of scan "@ + age + " — each repo is re-detected fresh at write time"@,
            theme::dim(),
        ),
    ]
}

/// What the sub-view draws.
#[derive(Debug)]
pub struct ApplyPage {
    pub title: Line,
    pub age: Line,
    pub body: Vec<Line>,
    pub cursor_line: usize,
}

fn row_line(row: &ApplyRow, checked: bool, selected: bool) -> (r: Line)
    ensures
        r@ == apply_line(row.deep_view(), checked, selected),
{
    assert(row.matched.len() == row.matched.deep_view().len());
    assert(row.plugins.len() == row.plugins.deep_view().len());
    let dim = style_of_row(selected, theme::dim());
    let matched = if row.matched.len() == 0 {
        owned("no match")
    } else {
        join(&row.matched, ", ")
    };
    let check = if checked {
        "[x] "
    } else {
        "[ ] "
    };
    let mut l = line3(
        styled(check, style_of_row(selected, theme::accent())),
        span(
            join2(pad(row.path.as_str(), 40).as_str(), " "),
            style_of_row(selected, theme::text()),
        ),
        span(join2(pad(matched.as_str(), 20).as_str(), " "), dim),
    );
    if row.pending {
        put_span(&mut l, styled("pending index  ", dim));
    }
    if row.plugins.len() > 0 {
        put_span(&mut l, span(join2("+ ", join(&row.plugins, ", ").as_str()), dim));
    }
    assert(l@ =~= apply_line(row.deep_view(), checked, selected));
    l
}

fn reason_block(row: &ApplyRow, working: &Profiles) -> (r: Vec<Line>)
    ensures
        r.deep_view() == reason_lines(row.deep_view(), working@),
{
    let (es, _) = detect_from_signal_explained(&row.sig, working);
    let ghost ev = es.deep_view();
    let ghost all = reason_lines(row.deep_view(), working@);
    assert(es.len() == ev.len());
    let mut out = no_lines();
    if es.len() == 0 {
        let msg = if row.pending {
            "(pending — some rules not yet indexed)"
        } else {
            "(no rules matched)"
        };
        put_line(&mut out, line2(raw("    "), styled(msg, theme::faint())));
        assert(out.deep_view() =~= all);
        return out;
    }
    let mut i: usize = 0;
    while i < es.len()
        invariant
            i <= es.len(),
            es.len() > 0,
            ev == es.deep_view(),
            ev == explained(row.deep_view().sig, working@.names(), working@.profiles),
            all == reason_lines(row.deep_view(), working@),
            out.deep_view() =~= all.take(i as int),
        decreases es.len() - i,
    {
        let e = &es[i];
        assert(ev[i as int] == (e.0@, e.1@));
        let mut s = join2(e.1.rule, " = ");
        match &e.1.value {
            Some(v) => {
                s.append(v.as_str());
            },
            None => {
                s.append("-");
            },
        }
        let l = line3(
            raw("    "),
            span(join2(e.0.as_str(), ": "), theme::faint()),
            span(s, theme::dim()),
        );
        assert(l@ =~= all[i as int]);
        put_line(&mut out, l);
        i += 1;
    }
    assert(all.take(i as int) =~= all);
    out
}

/// The page: title, age of the preview, one line per repo, and the reasons of the
/// expanded row.
pub fn render(
    state: &ApplyState,
    working: &Profiles,
    scanned_at: Option<i64>,
    now_ms: i64,
) -> (r: ApplyPage)
    requires
        state@.ok(),
    ensures
        r.title@ == title_line(state@.sel),
        r.age@ == age_line(scanned_at, now_ms),
        r.body.deep_view() == body_lines(state@, working@, state@.rows.len() as int),
        r.cursor_line == if state@.rows.len() == 0 {
            0
        } else {
            body_lines(state@, working@, state@.cursor).len()
        },
{
    let ghost v = state@;
    let n: usize = state.rows.len();
    assert(n == v.rows.len());
    let mut count: usize = 0;
    let mut body = no_lines();
    let mut cursor_line: usize = 0;
    let mut i: usize = 0;
    while i < n
        invariant
            i <= n,
            n == state.rows.len(),
            n == v.rows.len(),
            v == state@,
            v.ok(),
            count == set_count(v.sel, i as int),
            count <= i,
            body.deep_view() == body_lines(v, working@, i as int),
            cursor_line == if i > v.cursor {
                body_lines(v, working@, v.cursor).len()
            } else {
                0
            },
        decreases n - i,
    {
        let row = &state.rows[i];
        assert(v.rows[i as int] == row.deep_view());
        if state.sel[i] {
            count += 1;
        }
        if i == state.cursor {
            cursor_line = body.len();
            assert(cursor_line == body.deep_view().len());
        }
        put_line(&mut body, row_line(row, state.sel[i], i == state.cursor));
        let open = match state.expanded {
            Some(e) => e == i,
            None => false,
        };
        if open {
            put_lines(&mut body, reason_block(row, working));
        }
        i += 1;
    }
    let title = line2(
        styled("APPLY — which repos?    ", theme::accent()),
        span(
            join3(
                show(count as u64).as_str(),
                " of ",
                join2(show(n as u64).as_str(), " selected").as_str(),
            ),
            theme::dim(),
        ),
    );
    let age = match scanned_at {
        Some(t) => fmt_age(t, seconds_of(now_ms)),
        None => owned("never"),
    };
    let age_l = line1(
        span(
            join3(
                "preview as of scan ",
                age.as_str(),
                " — each repo is re-detected fresh at write time",
            ),
            theme::dim(),
        ),
    );
    ApplyPage { title, age: age_l, body, cursor_line }
}

/// The title counts the rows that are checked. Returns their positions.
pub proof fn the_title_counts_the_checked_rows(sel: Seq<bool>) -> (ix: Seq<int>)
    ensures
        list::picks(ix, sel.len() as int, |i: int| sel[i]),
        title_line(sel)[1].text == decimal(ix.len()) + " of "@ + (decimal(sel.len())
            + " selected"@),
{
    let n = sel.len() as int;
    let p = |i: int| sel[i];
    list::lemma_picked(n, p);
    lemma_set_count(sel, n);
    list::picked(n, p)
}

proof fn lemma_set_count(sel: Seq<bool>, k: int)
    ensures
        set_count(sel, k) == list::picked(k, |i: int| sel[i]).len(),
    decreases k,
{
    if k > 0 {
        lemma_set_count(sel, k - 1);
    }
}

/// With no reasons shown, every row has its line, in order: its box, its path, what it matches,
/// and the plugins it would get.
pub proof fn every_row_is_drawn(v: ApplyV, w: ProfilesV, k: int, i: int)
    requires
        v.expanded is None,
        0 <= i < k <= v.rows.len(),
    ensures
        body_lines(v, w, k).len() == k,
        ({
            let l = body_lines(v, w, k)[i];
            let r = v.rows[i];
            &&& l[0].text == if v.sel[i] {
                "[x] "@
            } else {
                "[ ] "@
            }
            &&& l[1].text == padded(r.path, 40) + " "@
            &&& l[2].text == padded(
                if r.matched.len() == 0 {
                    "no match"@
                } else {
                    joined(r.matched, ", "@)
                },
                20,
            ) + " "@
            &&& r.pending ==> l[3].text == "pending index  "@
            &&& r.plugins.len() > 0 ==> l.last().text == "+ "@ + joined(r.plugins, ", "@)
        }),
    decreases k,
{
    lemma_body_len(v, w, k);
    lemma_body_len(v, w, k - 1);
    if i < k - 1 {
        every_row_is_drawn(v, w, k - 1, i);
    }
}

proof fn lemma_body_len(v: ApplyV, w: ProfilesV, k: int)
    requires
        v.expanded is None,
        0 <= k,
    ensures
        body_lines(v, w, k).len() == k,
    decreases k,
{
    if k > 0 {
        lemma_body_len(v, w, k - 1);
    }
}

/// The reasons of a row are those of its matches, one line each, by profile.
pub proof fn every_reason_is_shown(row: ApplyRowV, w: ProfilesV, i: int)
    requires
        0 <= i < explained(row.sig, w.names(), w.profiles).len(),
    ensures
        ({
            let e = explained(row.sig, w.names(), w.profiles)[i];
            let ls = reason_lines(row, w);
            &&& ls.len() == explained(row.sig, w.names(), w.profiles).len()
            &&& ls[i][1].text == e.0 + ": "@
            &&& ls[i][2].text == e.1.rule + " = "@ + match e.1.value {
                Some(v) => v,
                None => "-"@,
            }
        }),
{
}

/// Moving goes round the rows; x shows the reasons of the row under the cursor, or hides them.
pub proof fn x_shows_the_reasons_of_one_row(v: ApplyV)
    requires
        v.ok(),
        v.rows.len() > 0,
        v.cursor <= usize::MAX,
    ensures
        ({
            let n = v.rows.len() as int;
            &&& v.after(KeyCode::Down).cursor == if v.cursor + 1 == n {
                0
            } else {
                v.cursor + 1
            }
            &&& v.after(KeyCode::Up).cursor == if v.cursor == 0 {
                n - 1
            } else {
                v.cursor - 1
            }
            &&& v.expanded == Some(v.cursor as usize) ==> v.after(KeyCode::Char('x')).expanded is None
            &&& v.expanded != Some(v.cursor as usize) ==> v.after(KeyCode::Char('x')).expanded
                == Some(v.cursor as usize)
            &&& v.after(KeyCode::Char('x')).cursor == v.cursor
        }),
{
    crate::tui::key::cursors_go_round(v.cursor, v.rows.len() as int);
}

} // verus!
