//! The manager of scan roots.

use vstd::prelude::*;

use crate::list::{self, with_key};
use crate::profile::discover::text_of;
use crate::text::{join2, same, trim, trimmed};
use crate::tui::key::{down_to, is_down, is_up, next_in, prev_in, up_to, KeyCode, KeyEvent};
use crate::tui::line::{
    blank, line1, line2, no_lines, put_line, put_lines, put_span, sp, span, styled, Line, SpanV,
};
use crate::tui::profile::apply::{row_style, style_of_row};
use crate::tui::profile::assign::{option_lines, option_rows};
use crate::tui::profile::by_plugin::{completion, dir_suggestion, ADD_ROOT};
use crate::tui::profile::rules::input_of;
use crate::tui::profile::rules_page::{marker, marker_of};
use crate::tui::textinput::{InputV, TextInput};
use crate::tui::theme;

verus! {

/// The manager: a copy of the roots, the row under the cursor (the last one adds a
/// root), and the text being typed.
#[derive(Debug)]
pub struct RootsEdit {
    pub roots: Vec<String>,
    pub cursor: usize,
    pub input: Option<TextInput>,
    /// The root being edited; none while adding.
    pub edit_idx: Option<usize>,
    /// What would complete the path being typed.
    pub suggestion: Option<String>,
}

/// The contents of a manager.
#[verifier::ext_equal]
pub struct RootsV {
    pub roots: Seq<Seq<char>>,
    pub cursor: int,
    pub input: Option<InputV>,
    pub edit_idx: Option<usize>,
    pub suggestion: Option<Seq<char>>,
}

impl View for RootsEdit {
    type V = RootsV;

    open spec fn view(&self) -> RootsV {
        RootsV {
            roots: self.roots.deep_view(),
            cursor: self.cursor as int,
            input: input_of(self.input),
            edit_idx: self.edit_idx,
            suggestion: text_of(self.suggestion),
        }
    }
}

/// Whether `val` is one of `roots` at a place other than `i`.
pub open spec fn taken_elsewhere(roots: Seq<Seq<char>>, val: Seq<char>, i: int) -> bool {
    exists|j: int| 0 <= j < roots.len() && j != i && #[trigger] roots[j] == val
}

/// The roots after `val` is entered, for root `i` or as a new one. A root that is
/// already there is not entered twice.
pub open spec fn entered(roots: Seq<Seq<char>>, val: Seq<char>, edit: Option<usize>) -> Seq<
    Seq<char>,
> {
    if val.len() == 0 {
        roots
    } else {
        match edit {
            Some(i) => if taken_elsewhere(roots, val, i as int) {
                roots
            } else {
                roots.update(i as int, val)
            },
            None => with_key(roots, val),
        }
    }
}

/// The roots to keep: none empty, none twice, the first place of each.
pub open spec fn tidy(roots: Seq<Seq<char>>) -> Seq<Seq<char>>
    decreases roots.len(),
{
    if roots.len() == 0 {
        Seq::empty()
    } else {
        let before = tidy(roots.drop_last());
        if roots.last().len() == 0 {
            before
        } else {
            with_key(before, roots.last())
        }
    }
}

/// A tidy list has no empty root, no root twice, and every other root that was there.
pub proof fn tidy_is_distinct(roots: Seq<Seq<char>>)
    ensures
        tidy(roots).no_duplicates(),
        forall|k: Seq<char>| #[trigger]
            tidy(roots).contains(k) <==> roots.contains(k) && k.len() > 0,
    decreases roots.len(),
{
    if roots.len() > 0 {
        let t = roots.drop_last();
        tidy_is_distinct(t);
        let before = tidy(t);
        let x = roots.last();
        list::lemma_push_contains(before, x);
        list::lemma_push_contains(t, x);
        assert(roots =~= t.push(x));
        if x.len() > 0 && !before.contains(x) {
            assert forall|i: int, j: int|
                0 <= i < before.push(x).len() && 0 <= j < before.push(x).len() && i
                    != j implies before.push(x)[i] != before.push(x)[j] by {
                if i == before.len() {
                    assert(before.contains(before[j]));
                } else if j == before.len() {
                    assert(before.contains(before[i]));
                }
            }
        }
    }
}

impl RootsV {
    /// The manager as it opens.
    pub open spec fn opened(roots: Seq<Seq<char>>) -> RootsV {
        RootsV { roots, cursor: 0, input: None, edit_idx: None, suggestion: None }
    }

    /// The cursor is on a root or on the last row, and a root is edited only while a
    /// path is being typed.
    pub open spec fn ok(self) -> bool {
        &&& 0 <= self.cursor <= self.roots.len()
        &&& self.edit_idx matches Some(i) ==> self.input is Some && i < self.roots.len()
    }

    /// The manager back in its list.
    pub open spec fn listed(self, roots: Seq<Seq<char>>) -> RootsV {
        RootsV { roots, input: None, edit_idx: None, suggestion: None, ..self }
    }

    /// The manager with `seed` in its input.
    pub open spec fn typing(self, seed: Seq<char>, edit: Option<usize>) -> RootsV {
        RootsV { input: Some(InputV::of(seed)), edit_idx: edit, suggestion: None, ..self }
    }

    /// The manager after a key while a path is being typed.
    pub open spec fn after_input(self, input: InputV, code: KeyCode) -> RootsV {
        if code == KeyCode::Enter {
            self.listed(entered(self.roots, trimmed(input.chars), self.edit_idx))
        } else if code == KeyCode::Esc {
            self.listed(self.roots)
        } else if code == KeyCode::Right && input.cursor == input.chars.len()
            && self.suggestion is Some {
            self.typing(input.chars + self.suggestion->0, self.edit_idx)
        } else {
            RootsV { input: Some(input.after(code)), suggestion: None, ..self }
        }
    }

    /// The manager after a key in the list; none when it closes.
    pub open spec fn after_list(self, code: KeyCode, home: Seq<char>) -> Option<RootsV> {
        let n = self.roots.len() + 1;
        let seed = home + "/"@;
        if is_up(code) {
            Some(RootsV { cursor: prev_in(self.cursor, n as int), ..self })
        } else if is_down(code) {
            Some(RootsV { cursor: next_in(self.cursor, n as int), ..self })
        } else if code == KeyCode::Char('a') {
            Some(self.typing(seed, None))
        } else if (code == KeyCode::Char('d') || code == KeyCode::Delete) && self.cursor
            < self.roots.len() {
            let left = self.roots.remove(self.cursor);
            Some(
                RootsV {
                    roots: left,
                    cursor: if self.cursor < left.len() {
                        self.cursor
                    } else {
                        left.len() as int
                    },
                    ..self
                },
            )
        } else if code == KeyCode::Enter {
            if self.cursor < self.roots.len() {
                Some(self.typing(self.roots[self.cursor], Some(self.cursor as usize)))
            } else {
                Some(self.typing(seed, None))
            }
        } else if code == KeyCode::Esc {
            None
        } else {
            Some(self)
        }
    }

    /// The manager after a key; none when it closes.
    pub open spec fn after(self, code: KeyCode, home: Seq<char>) -> Option<RootsV> {
        match self.input {
            Some(input) => Some(self.after_input(input, code)),
            None => self.after_list(code, home),
        }
    }
}

/// No key takes the manager out of shape.
pub proof fn keys_keep_roots_ok(v: RootsV, code: KeyCode, home: Seq<char>)
    requires
        v.ok(),
    ensures
        v.after(code, home) matches Some(x) ==> x.ok(),
{
    crate::tui::key::moves_stay_in_range(v.cursor, v.roots.len() as int + 1);
}

fn taken(roots: &Vec<String>, val: &str, i: usize) -> (r: bool)
    ensures
        r == taken_elsewhere(roots.deep_view(), val@, i as int),
{
    let ghost all = roots.deep_view();
    let mut j: usize = 0;
    while j < roots.len()
        invariant
            j <= roots.len(),
            all == roots.deep_view(),
            forall|k: int| 0 <= k < j && k != i ==> #[trigger] all[k] != val@,
        decreases roots.len() - j,
    {
        assert(all[j as int] == roots[j as int]@);
        if j != i && same(roots[j].as_str(), val) {
            return true;
        }
        j += 1;
    }
    false
}

/// The roots to keep: none empty, none twice.
pub fn tidied(roots: &Vec<String>) -> (r: Vec<String>)
    ensures
        r.deep_view() == tidy(roots.deep_view()),
{
    let ghost all = roots.deep_view();
    let mut out: Vec<String> = Vec::new();
    assert(out.deep_view() =~= Seq::<Seq<char>>::empty());
    let mut i: usize = 0;
    while i < roots.len()
        invariant
            i <= roots.len(),
            all == roots.deep_view(),
            out.deep_view() == tidy(all.take(i as int)),
        decreases roots.len() - i,
    {
        proof {
            let t = all.take(i + 1);
            assert(t.drop_last() =~= all.take(i as int));
            assert(t.last() == all[i as int]);
        }
        if !roots[i].as_str().is_empty() {
            list::add_missing(&mut out, roots[i].as_str());
        }
        i += 1;
    }
    assert(all.take(i as int) =~= all);
    out
}

/// What the owner should do after a key.
#[derive(Debug)]
pub enum RootsOutcome {
    Stay(RootsEdit),
    Close(Vec<String>),
}

impl RootsEdit {
    /// Opens the manager on `roots`.
    pub fn open(roots: &Vec<String>) -> (r: RootsEdit)
        ensures
            r@ == RootsV::opened(roots.deep_view()),
            r@.ok(),
    {
        RootsEdit {
            roots: list::copy(roots),
            cursor: 0,
            input: None,
            edit_idx: None,
            suggestion: None,
        }
    }

    /// The path being typed: its directory has to be listed, and the names handed to
    /// `offer_completion`.
    pub fn completion_input(&self) -> (r: Option<String>)
        ensures
            text_of(r) == match self@.input {
                Some(i) => Some(i.chars),
                None => None,
            },
    {
        match &self.input {
            Some(i) => Some(i.value()),
            None => None,
        }
    }

    /// Offers the completion that the subdirectories `names` give for the path being typed.
    pub fn offer_completion(&mut self, names: &Vec<String>)
        ensures
            final(self)@ == match old(self)@.input {
                Some(i) => RootsV {
                    suggestion: completion(i.chars, names.deep_view()),
                    ..old(self)@
                },
                None => old(self)@,
            },
    {
        if let Some(i) = &self.input {
            let v = i.value();
            self.suggestion = dir_suggestion(v.as_str(), names);
        }
    }

    fn enter(&mut self, val: String)
        requires
            old(self)@.edit_idx matches Some(i) ==> i < old(self)@.roots.len(),
        ensures
            final(self)@ == old(self)@.listed(
                entered(old(self)@.roots, val@, old(self)@.edit_idx),
            ),
    {
        let ghost v = self@;
        if !val.as_str().is_empty() {
            match self.edit_idx {
                Some(i) => {
                    if !taken(&self.roots, val.as_str(), i) {
                        let ghost t = val@;
                        self.roots[i] = val;
                        assert(self.roots.deep_view() =~= v.roots.update(i as int, t));
                    }
                },
                None => {
                    list::add_missing(&mut self.roots, val.as_str());
                },
            }
        }
        self.input = None;
        self.edit_idx = None;
        self.suggestion = None;
    }

    fn start(&mut self, seed: &str, edit: Option<usize>)
        ensures
            final(self)@ == old(self)@.typing(seed@, edit),
    {
        self.input = Some(TextInput::new(seed));
        self.edit_idx = edit;
        self.suggestion = None;
    }

    /// Acts on a key. `home` seeds the path of a new root.
    pub fn handle_key(self, key: KeyEvent, home: &str) -> (r: RootsOutcome)
        requires
            self@.ok(),
        ensures
            match self@.after(key.code, home@) {
                Some(v) => r matches RootsOutcome::Stay(e) && e@ == v && v.ok(),
                None => r matches RootsOutcome::Close(roots) && roots.deep_view() == self@.roots,
            },
    {
        proof {
            keys_keep_roots_ok(self@, key.code, home@);
        }
        let ghost v = self@;
        let mut e = self;
        match e.input.take() {
            Some(t) => {
                let mut input = t;
                match key.code {
                    KeyCode::Enter => {
                        let val = trim(input.value().as_str());
                        e.enter(val);
                    },
                    KeyCode::Esc => {
                        e.edit_idx = None;
                        e.suggestion = None;
                    },
                    KeyCode::Right => {
                        let offer = if input.at_end() {
                            e.suggestion.take()
                        } else {
                            None
                        };
                        match offer {
                            Some(s) => {
                                let val = join2(input.value().as_str(), s.as_str());
                                e.start(val.as_str(), e.edit_idx);
                            },
                            None => {
                                input.handle_key(key);
                                e.suggestion = None;
                                e.input = Some(input);
                            },
                        }
                    },
                    _ => {
                        input.handle_key(key);
                        e.suggestion = None;
                        e.input = Some(input);
                    },
                }
                assert(e@ =~= v.after_input(v.input->0, key.code));
                RootsOutcome::Stay(e)
            },
            None => {
                let last: usize = e.roots.len();
                assert(last == v.roots.len());
                match key.code {
                    KeyCode::Up | KeyCode::Char('k') => {
                        e.cursor = up_to(e.cursor, last);
                    },
                    KeyCode::Down | KeyCode::Char('j') => {
                        e.cursor = down_to(e.cursor, last);
                    },
                    KeyCode::Char('a') => {
                        e.start(join2(home, "/").as_str(), None);
                    },
                    KeyCode::Char('d') | KeyCode::Delete => {
                        if e.cursor < e.roots.len() {
                            e.roots.remove(e.cursor);
                            if e.cursor >= e.roots.len() {
                                e.cursor = e.roots.len();
                            }
                            assert(e@.roots =~= v.roots.remove(v.cursor));
                        }
                    },
                    KeyCode::Enter => {
                        if e.cursor < e.roots.len() {
                            let c: usize = e.cursor;
                            let seed = e.roots[c].clone();
                            assert(seed@ == v.roots[c as int]);
                            e.start(seed.as_str(), Some(c));
                        } else {
                            e.start(join2(home, "/").as_str(), None);
                        }
                    },
                    KeyCode::Esc => {
                        return RootsOutcome::Close(e.roots);
                    },
                    _ => {},
                }
                assert(e@ =~= v.after_list(key.code, home@)->0);
                RootsOutcome::Stay(e)
            },
        }
    }
}

/// The rows of the list, and the row that adds a root.
pub open spec fn root_rows(v: RootsV) -> Seq<Seq<SpanV>> {
    let add = v.cursor == v.roots.len();
    option_rows(v.roots, v.cursor) + seq![
        seq![sp(marker(add) + ADD_ROOT@, row_style(add, theme::accent_soft()))],
        Seq::empty(),
        seq![
            sp(
                "↑↓ move   ·   ⏎ edit   ·   a add   ·   d remove   ·   esc done"@,
                theme::faint(),
            ),
        ],
    ]
}

/// The rows while a path is being typed.
pub open spec fn typing_rows(v: RootsV, input: InputV) -> Seq<Seq<SpanV>> {
    let base = seq![
        sp(
            if v.edit_idx is Some {
                "edit  "@
            } else {
                "add   "@
            },
            theme::dim(),
        ),
        sp(input.shown(), theme::text()),
    ];
    seq![
        match v.suggestion {
            Some(s) => base.push(sp(s, theme::faint())),
            None => base,
        },
        Seq::empty(),
        seq![sp("⏎ confirm   ·   → complete   ·   esc cancel"@, theme::faint())],
    ]
}

/// The lines of the manager.
pub open spec fn roots_lines(v: RootsV) -> Seq<Seq<SpanV>> {
    seq![seq![sp("SCAN ROOTS"@, theme::accent())], Seq::empty()] + match v.input {
        Some(input) => typing_rows(v, input),
        None => root_rows(v),
    }
}

/// The lines of the manager and the line to keep visible.
pub fn render_roots_manager(ed: &RootsEdit) -> (r: (Vec<Line>, usize))
    requires
        ed@.ok(),
    ensures
        r.0.deep_view() == roots_lines(ed@),
        r.1 == if ed@.input is Some {
            0
        } else {
            2 + ed@.cursor
        },
{
    let mut out = no_lines();
    put_line(&mut out, line1(styled("SCAN ROOTS", theme::accent())));
    put_line(&mut out, blank());
    match &ed.input {
        Some(input) => {
            let label = if ed.edit_idx.is_some() {
                "edit  "
            } else {
                "add   "
            };
            let mut l = line2(
                styled(label, theme::dim()),
                span(input.render_line(), theme::text()),
            );
            if let Some(s) = &ed.suggestion {
                put_span(&mut l, styled(s.as_str(), theme::faint()));
            }
            put_line(&mut out, l);
            put_line(&mut out, blank());
            put_line(
                &mut out,
                line1(styled("⏎ confirm   ·   → complete   ·   esc cancel", theme::faint())),
            );
            assert(out.deep_view() =~= roots_lines(ed@));
            (out, 0)
        },
        None => {
            put_lines(&mut out, option_lines(&ed.roots, ed.cursor));
            let add = ed.cursor == ed.roots.len();
            put_line(
                &mut out,
                line1(
                    span(
                        join2(marker_of(add), ADD_ROOT),
                        style_of_row(add, theme::accent_soft()),
                    ),
                ),
            );
            put_line(&mut out, blank());
            put_line(
                &mut out,
                line1(
                    styled(
                        "↑↓ move   ·   ⏎ edit   ·   a add   ·   d remove   ·   esc done",
                        theme::faint(),
                    ),
                ),
            );
            assert(out.deep_view() =~= roots_lines(ed@));
            let n: usize = out.len();
            assert(n == out.deep_view().len());
            (out, 2 + ed.cursor)
        },
    }
}

/// Enter puts the typed path, without white space around it, in place of the root being
/// edited, or behind the last root; an empty path and one that is already there change
/// nothing. Every other root stays where it is. Esc changes nothing.
pub proof fn enter_puts_in_one_root(v: RootsV, input: InputV, home: Seq<char>)
    requires
        v.ok(),
        v.input == Some(input),
    ensures
        ({
            let val = trimmed(input.chars);
            &&& v.after(KeyCode::Esc, home) matches Some(u) && u.roots == v.roots && u.input is None
            &&& v.after(KeyCode::Enter, home) matches Some(u) && {
                &&& u.input is None
                &&& u.edit_idx is None
                &&& val.len() == 0 ==> u.roots == v.roots
                &&& v.edit_idx is None && v.roots.contains(val) ==> u.roots == v.roots
                &&& v.edit_idx is None && val.len() > 0 && !v.roots.contains(val) ==> u.roots
                    == v.roots.push(val)
                &&& v.edit_idx matches Some(i) ==> {
                    &&& u.roots.len() == v.roots.len()
                    &&& forall|j: int|
                        0 <= j < v.roots.len() && j != i ==> #[trigger] u.roots[j] == v.roots[j]
                    &&& val.len() > 0 && (forall|j: int|
                        0 <= j < v.roots.len() && j != i ==> #[trigger] v.roots[j] != val)
                        ==> u.roots[i as int] == val
                }
            }
        }),
{
}

/// Removing a root takes out just the one under the cursor; opening one for editing starts
/// from its own path; closing hands back the roots as they stand.
pub proof fn d_removes_one_root(v: RootsV, code: KeyCode, home: Seq<char>)
    requires
        v.ok(),
        v.input is None,
        v.cursor < v.roots.len(),
    ensures
        code == KeyCode::Char('d') || code == KeyCode::Delete ==> (v.after(
            code,
            home,
        ) matches Some(u) && u.roots == v.roots.remove(v.cursor)),
        code == KeyCode::Enter ==> (v.after(code, home) matches Some(u) && u.roots == v.roots
            && u.input == Some(InputV::of(v.roots[v.cursor])) && u.edit_idx == Some(
            v.cursor as usize,
        )),
        code == KeyCode::Esc <==> v.after(code, home) is None,
        code != KeyCode::Char('d') && code != KeyCode::Delete && code != KeyCode::Esc ==> (v.after(
            code,
            home,
        ) matches Some(u) && u.roots == v.roots),
{
}

/// Tidying keeps the first place of every root that is not empty, in order. Returns the
/// places that are kept.
pub proof fn tidying_keeps_first_places(roots: Seq<Seq<char>>) -> (ix: Seq<int>)
    ensures
        list::picks(
            ix,
            roots.len() as int,
            |i: int| roots[i].len() > 0 && !roots.take(i).contains(roots[i]),
        ),
        tidy(roots).len() == ix.len(),
        forall|k: int| 0 <= k < ix.len() ==> #[trigger] tidy(roots)[k] == roots[ix[k]],
{
    let n = roots.len() as int;
    let p = |i: int| roots[i].len() > 0 && !roots.take(i).contains(roots[i]);
    list::lemma_picked(n, p);
    lemma_tidy_picked(roots, n);
    assert(roots.take(n) =~= roots);
    list::picked(n, p)
}

proof fn lemma_tidy_picked(roots: Seq<Seq<char>>, n: int)
    requires
        0 <= n <= roots.len(),
    ensures
        tidy(roots.take(n)) == list::picked(
            n,
            |i: int| roots[i].len() > 0 && !roots.take(i).contains(roots[i]),
        ).map_values(|i: int| roots[i]),
    decreases n,
{
    let p = |i: int| roots[i].len() > 0 && !roots.take(i).contains(roots[i]);
    let f = |i: int| roots[i];
    if n > 0 {
        lemma_tidy_picked(roots, n - 1);
        list::lemma_picked(n - 1, p);
        let t = roots.take(n);
        assert(t.drop_last() =~= roots.take(n - 1));
        assert(t.last() == roots[n - 1]);
        tidy_is_distinct(roots.take(n - 1));
    }
    assert(tidy(roots.take(n)) =~= list::picked(n, p).map_values(f));
}

/// Right at the end of the path takes the completion on offer.
pub proof fn right_takes_the_completion(v: RootsV, input: InputV, s: Seq<char>, home: Seq<char>)
    requires
        v.input == Some(input),
        input.cursor == input.chars.len(),
        v.suggestion == Some(s),
    ensures
        v.after(KeyCode::Right, home) matches Some(u) && u.roots == v.roots && u.edit_idx
            == v.edit_idx && u.input == Some(InputV::of(input.chars + s)),
{
}

/// A new root is typed from the home directory on; moving goes round the roots and the row that
/// adds one.
pub proof fn a_new_root_starts_at_home(v: RootsV, home: Seq<char>)
    requires
        v.ok(),
        v.input is None,
    ensures
        v.after(KeyCode::Char('a'), home) matches Some(u) && u.input == Some(
            InputV::of(home + "/"@),
        ) && u.edit_idx is None && u.roots == v.roots,
        v.cursor == v.roots.len() ==> (v.after(KeyCode::Enter, home) matches Some(u) && u.input
            == Some(InputV::of(home + "/"@)) && u.edit_idx is None),
        v.after(KeyCode::Down, home) matches Some(u) && u.cursor == if v.cursor == v.roots.len() {
            0
        } else {
            v.cursor + 1
        },
        v.after(KeyCode::Up, home) matches Some(u) && u.cursor == if v.cursor == 0 {
            v.roots.len() as int
        } else {
            v.cursor - 1
        },
{
    crate::tui::key::cursors_go_round(v.cursor, v.roots.len() as int + 1);
}

} // verus!
