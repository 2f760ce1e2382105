//! What the Rules tab draws.

use vstd::prelude::*;

use crate::text::{chars_of, decimal, join2, join3, pad, padded, show};
use crate::tui::line::{
    blank, line1, line2, line3, no_lines, put_line, put_lines, put_span, sp, span, styled, Line,
    SpanV,
};
use crate::tui::profile::age::{age_text, fmt_age};
use crate::tui::profile::by_plugin::last_slash;
use crate::tui::profile::rules::{
    flat, flatten, kind_at, kind_of, EditorKind, EditorV, MatchV, NearMiss, NearV, PickV, RowV,
    RuleEditor, RuleRow, RulesState, RulesV, KIND_COUNT,
};
use crate::tui::theme;
use crate::tui::widgets::{at_most, list_height, seconds_of, whole_seconds};

verus! {

/// The last component of a path.
pub open spec fn short(p: Seq<char>) -> Seq<char> {
    match last_slash(p, p.len() as int) {
        Some(i) => p.skip(i + 1),
        None => p,
    }
}

/// The last component of a path, for compact display.
pub fn short_path(p: &str) -> (r: String)
    ensures
        r@ == short(p@),
{
    let cs = chars_of(p);
    let mut k: usize = cs.len();
    while k > 0 && cs[k - 1] != '/'
        invariant
            cs@ == p@,
            k <= cs.len(),
            last_slash(p@, p@.len() as int) == last_slash(p@, k as int),
        decreases k,
    {
        k -= 1;
    }
    let n: usize = p.unicode_len();
    let r = p.substring_char(k, n).to_owned();
    assert(r@ =~= short(p@));
    r
}

/// The marker in front of a row.
pub open spec fn marker(selected: bool) -> Seq<char> {
    if selected {
        "▸ "@
    } else {
        "  "@
    }
}

/// The marker in front of a row.
pub fn marker_of(selected: bool) -> (r: &'static str)
    ensures
        r@ == marker(selected),
{
    if selected {
        "▸ "
    } else {
        "  "
    }
}

/// One row per repo path, by its last component, the selected one marked.
pub open spec fn repo_rows(repos: Seq<Seq<char>>, cursor: int) -> Seq<Seq<SpanV>> {
    Seq::new(
        repos.len(),
        |i: int|
            seq![sp(marker(i == cursor), theme::accent()), sp(short(repos[i]), theme::text())],
    )
}

/// One line per repo path.
pub fn repo_lines(repos: &Vec<String>, cursor: usize) -> (r: Vec<Line>)
    ensures
        r.deep_view() == repo_rows(repos.deep_view(), cursor as int),
{
    let ghost all = repo_rows(repos.deep_view(), cursor as int);
    let mut out = no_lines();
    let mut i: usize = 0;
    while i < repos.len()
        invariant
            i <= repos.len(),
            all == repo_rows(repos.deep_view(), cursor as int),
            out.deep_view() =~= all.take(i as int),
        decreases repos.len() - i,
    {
        put_line(
            &mut out,
            line2(
                styled(marker_of(i == cursor), theme::accent()),
                span(short_path(repos[i].as_str()), theme::text()),
            ),
        );
        i += 1;
    }
    assert(all.take(i as int) =~= all);
    out
}

/// The repo picker.
pub open spec fn pick_lines(p: PickV) -> Seq<Seq<SpanV>> {
    seq![seq![sp("Prefill rules from a repo — pick one"@, theme::accent())], Seq::empty()]
        + repo_rows(p.repos, p.cursor)
}

/// The label of a kind.
pub open spec fn kind_label(k: EditorKind) -> Seq<char> {
    match k {
        EditorKind::PathUnder => "path under"@,
        EditorKind::HasFile => "has file"@,
        EditorKind::HasAny => "has any"@,
        EditorKind::Contains => "contains"@,
    }
}

/// What a kind means.
pub open spec fn kind_hint(k: EditorKind) -> Seq<char> {
    match k {
        EditorKind::PathUnder => "this folder and everything inside"@,
        EditorKind::HasFile => "a file with this exact name"@,
        EditorKind::HasAny => "any file matching a glob (*.rs, *.vue)"@,
        EditorKind::Contains => "a file that contains a word"@,
    }
}

fn label_of_kind(k: EditorKind) -> (r: &'static str)
    ensures
        r@ == kind_label(k),
{
    match k {
        EditorKind::PathUnder => "path under",
        EditorKind::HasFile => "has file",
        EditorKind::HasAny => "has any",
        EditorKind::Contains => "contains",
    }
}

fn hint_of_kind(k: EditorKind) -> (r: &'static str)
    ensures
        r@ == kind_hint(k),
{
    match k {
        EditorKind::PathUnder => "this folder and everything inside",
        EditorKind::HasFile => "a file with this exact name",
        EditorKind::HasAny => "any file matching a glob (*.rs, *.vue)",
        EditorKind::Contains => "a file that contains a word",
    }
}

/// "edit" when a rule is being replaced, "add" when one is being added.
pub open spec fn verb(ed: EditorV) -> Seq<char> {
    if ed.editing is Some {
        "edit"@
    } else {
        "add"@
    }
}

/// The list of kinds.
pub open spec fn kind_rows(cursor: int) -> Seq<Seq<SpanV>> {
    Seq::new(
        KIND_COUNT as nat,
        |i: int|
            seq![
                sp(marker(i == cursor), theme::accent()),
                sp(padded(kind_label(kind_at(i)), 12), theme::text()),
                sp(kind_hint(kind_at(i)), theme::faint()),
            ],
    )
}

/// The inputs of the builder.
pub open spec fn input_rows(ed: EditorV) -> Seq<Seq<SpanV>> {
    match ed.word {
        Some(w) => seq![
            seq![
                sp(marker(!ed.focus_word) + "file  "@, theme::dim()),
                sp(ed.file.shown(), theme::text()),
            ],
            seq![
                sp(marker(ed.focus_word) + "word  "@, theme::dim()),
                sp(w.shown(), theme::text()),
            ],
        ],
        None => {
            let base = seq![sp("▸ "@, theme::accent()), sp(ed.file.shown(), theme::text())];
            seq![
                match ed.suggestion {
                    Some(s) => base.push(sp(s, theme::faint())),
                    None => base,
                },
            ]
        },
    }
}

/// The live count of the builder.
pub open spec fn count_rows(count: Option<usize>) -> Seq<Seq<SpanV>> {
    match count {
        Some(n) => seq![
            Seq::empty(),
            seq![sp("● matches "@ + decimal(n as nat) + " repos"@, theme::accent())],
        ],
        None => Seq::empty(),
    }
}

/// The builder.
pub open spec fn editor_lines(ed: EditorV) -> Seq<Seq<SpanV>> {
    match ed.kind {
        None => seq![seq![sp(verb(ed) + " rule — pick a kind"@, theme::accent())], Seq::empty()]
            + kind_rows(ed.pick_cursor),
        Some(k) => seq![
            seq![sp(verb(ed) + " rule · "@ + kind_label(k), theme::accent())],
            Seq::empty(),
        ] + input_rows(ed) + count_rows(ed.live_count),
    }
}

/// The lines of the builder: the list of kinds, or the inputs with the live count.
pub fn render_editor(ed: &RuleEditor) -> (r: Vec<Line>)
    ensures
        r.deep_view() == editor_lines(ed@),
{
    let v = if ed.editing.is_some() {
        "edit"
    } else {
        "add"
    };
    let mut out = no_lines();
    match ed.kind {
        None => {
            put_line(&mut out, line1(span(join2(v, " rule — pick a kind"), theme::accent())));
            put_line(&mut out, blank());
            let ghost head = out.deep_view();
            let ghost all = kind_rows(ed.pick_cursor as int);
            let mut i: usize = 0;
            while i < KIND_COUNT
                invariant
                    i <= KIND_COUNT,
                    all == kind_rows(ed.pick_cursor as int),
                    out.deep_view() =~= head + all.take(i as int),
                decreases KIND_COUNT - i,
            {
                let k = kind_of(i);
                put_line(
                    &mut out,
                    line3(
                        styled(marker_of(i == ed.pick_cursor), theme::accent()),
                        span(pad(label_of_kind(k), 12), theme::text()),
                        styled(hint_of_kind(k), theme::faint()),
                    ),
                );
                i += 1;
            }
            assert(all.take(i as int) =~= all);
        },
        Some(k) => {
            put_line(
                &mut out,
                line1(span(join3(v, " rule · ", label_of_kind(k)), theme::accent())),
            );
            put_line(&mut out, blank());
            match &ed.word {
                Some(w) => {
                    put_line(
                        &mut out,
                        line2(
                            span(join2(marker_of(!ed.focus_word), "file  "), theme::dim()),
                            span(ed.file.render_line(), theme::text()),
                        ),
                    );
                    put_line(
                        &mut out,
                        line2(
                            span(join2(marker_of(ed.focus_word), "word  "), theme::dim()),
                            span(w.render_line(), theme::text()),
                        ),
                    );
                },
                None => {
                    let mut l = line2(
                        styled("▸ ", theme::accent()),
                        span(ed.file.render_line(), theme::text()),
                    );
                    if let Some(s) = &ed.suggestion {
                        put_span(&mut l, styled(s.as_str(), theme::faint()));
                    }
                    put_line(&mut out, l);
                },
            }
            if let Some(n) = ed.live_count {
                put_line(&mut out, blank());
                put_line(
                    &mut out,
                    line1(
                        span(
                            join3("● matches ", show(n as u64).as_str(), " repos"),
                            theme::accent(),
                        ),
                    ),
                );
            }
        },
    }
    assert(out.deep_view() =~= editor_lines(ed@));
    out
}

/// The rule list.
pub open spec fn rule_lines(rows: Seq<RowV>, cursor: int) -> Seq<Seq<SpanV>> {
    if rows.len() == 0 {
        seq![seq![sp("No rules yet — press a to add one"@, theme::faint())]]
    } else {
        seq![seq![sp("Matches a repo when any of these holds"@, theme::dim())]] + Seq::new(
            rows.len(),
            |i: int|
                seq![
                    sp(marker(i == cursor), theme::accent()),
                    sp(
                        padded(rows[i].label(), 14),
                        if rows[i].editable() {
                            theme::dim()
                        } else {
                            theme::faint()
                        },
                    ),
                    sp(rows[i].value(), theme::text()),
                ],
        )
    }
}

/// How many repos match, of how many; an ellipsis while some repo has no answer.
pub open spec fn count_text(
    matched: nat,
    total: nat,
    undecided: bool,
    indexing: bool,
    scanned_at: Option<i64>,
    now_ms: i64,
) -> Seq<char> {
    if undecided {
        "● matches … of "@ + decimal(total) + " scanned repos"@ + (if indexing {
            " · indexing…"@
        } else {
            " · press s to index"@
        })
    } else {
        ("● matches "@ + decimal(matched) + " of "@) + (decimal(total) + " scanned repos"@) + (
        match scanned_at {
            Some(t) => " · as of "@ + age_text(t as int, whole_seconds(now_ms as int)),
            None => Seq::empty(),
        })
    }
}

/// One line per match: the repo, and why.
pub open spec fn match_rows(ms: Seq<MatchV>) -> Seq<Seq<SpanV>> {
    ms.map_values(
        |m: MatchV|
            seq![
                sp(
                    "   "@ + short(m.path) + "   "@ + (match m.value {
                        Some(v) => v,
                        None => Seq::empty(),
                    }),
                    theme::text(),
                ),
            ],
    )
}

/// What to add so that a repo would match.
pub open spec fn hint_text(row: RowV) -> Seq<char> {
    match row {
        RowV::HasAny(g) => "add  has any "@ + g + "?"@,
        RowV::HasFile(f) => "add  has file "@ + f + "?"@,
        RowV::Contains { file, word } => "add  contains "@ + row.value() + "?"@,
        RowV::PathUnder(p) => "add  path under "@ + p + "?"@,
        RowV::Legacy(_) => Seq::empty(),
    }
}

/// The near misses that have a suggestion.
pub open spec fn with_hint(ns: Seq<NearV>) -> Seq<NearV> {
    ns.filter(|n: NearV| n.suggestion is Some)
}

/// One line per near miss with a suggestion.
pub open spec fn near_rows(ns: Seq<NearV>) -> Seq<Seq<SpanV>> {
    with_hint(ns).map_values(
        |n: NearV|
            seq![
                sp("   "@ + short(n.path) + "   "@ + hint_text(n.suggestion->0), theme::faint()),
            ],
    )
}

/// The near-miss panel; nothing when no near miss has a suggestion.
pub open spec fn near_panel(ns: Seq<NearV>) -> Seq<Seq<SpanV>> {
    if with_hint(ns).len() == 0 {
        Seq::empty()
    } else {
        seq![
            Seq::empty(),
            seq![
                sp("╴ "@ + decimal(with_hint(ns).len()) + " nearby, not matched"@, theme::faint()),
            ],
        ] + near_rows(ns)
    }
}

/// The preview below the rule list.
pub open spec fn preview_lines(v: RulesV, scanned_at: Option<i64>, now_ms: i64) -> Seq<Seq<SpanV>> {
    seq![
        seq![
            sp(
                count_text(
                    v.preview.matched.len(),
                    v.preview.live.len(),
                    v.preview.undecided,
                    v.indexing,
                    scanned_at,
                    now_ms,
                ),
                theme::accent(),
            ),
        ],
    ] + match_rows(v.preview.matched) + near_panel(v.preview.near)
}

fn hint_of(row: &RuleRow) -> (r: String)
    ensures
        r@ == hint_text(row@),
{
    match row {
        RuleRow::HasAny(g) => join3("add  has any ", g.as_str(), "?"),
        RuleRow::HasFile(f) => join3("add  has file ", f.as_str(), "?"),
        RuleRow::Contains { file, word } => join3("add  contains ", row.value().as_str(), "?"),
        RuleRow::PathUnder(p) => join3("add  path under ", p.as_str(), "?"),
        RuleRow::Legacy(_) => String::new(),
    }
}

fn count_line(
    matched: usize,
    total: usize,
    undecided: bool,
    indexing: bool,
    scanned_at: Option<i64>,
    now_ms: i64,
) -> (r: String)
    ensures
        r@ == count_text(matched as nat, total as nat, undecided, indexing, scanned_at, now_ms),
{
    if undecided {
        let mut s = join3("● matches … of ", show(total as u64).as_str(), " scanned repos");
        if indexing {
            s.append(" · indexing…");
        } else {
            s.append(" · press s to index");
        }
        s
    } else {
        let mut s = join3("● matches ", show(matched as u64).as_str(), " of ");
        s.append(join2(show(total as u64).as_str(), " scanned repos").as_str());
        match scanned_at {
            Some(t) => {
                s.append(join2(" · as of ", fmt_age(t, seconds_of(now_ms)).as_str()).as_str());
            },
            None => {
                assert(s@ + Seq::<char>::empty() =~= s@);
            },
        }
        s
    }
}

fn near_lines(ns: &Vec<NearMiss>) -> (r: Vec<Line>)
    ensures
        r.deep_view() == near_rows(ns.deep_view()),
{
    let ghost p = |n: NearV| n.suggestion is Some;
    let ghost f = |n: NearV|
        seq![sp("   "@ + short(n.path) + "   "@ + hint_text(n.suggestion->0), theme::faint())];
    let ghost all = ns.deep_view();
    let mut out = no_lines();
    proof {
        crate::list::lemma_filter_empty::<NearV>(p);
        assert(all.take(0) =~= Seq::<NearV>::empty());
        assert(out.deep_view() =~= all.take(0).filter(p).map_values(f));
    }
    let mut i: usize = 0;
    while i < ns.len()
        invariant
            i <= ns.len(),
            all == ns.deep_view(),
            p == (|n: NearV| n.suggestion is Some),
            f == (|n: NearV|
                seq![
                    sp(
                        "   "@ + short(n.path) + "   "@ + hint_text(n.suggestion->0),
                        theme::faint(),
                    ),
                ]),
            out.deep_view() == all.take(i as int).filter(p).map_values(f),
        decreases ns.len() - i,
    {
        let ghost before = out.deep_view();
        proof {
            crate::list::lemma_filter_push(all.take(i as int), all[i as int], p);
            assert(all.take(i as int).push(all[i as int]) =~= all.take(i + 1));
            assert(all[i as int] == ns[i as int].deep_view());
        }
        if let Some(row) = &ns[i].suggestion {
            let mut s = join3("   ", short_path(ns[i].path.as_str()).as_str(), "   ");
            s.append(hint_of(row).as_str());
            let l = line1(span(s, theme::faint()));
            assert(l@ == f(all[i as int]));
            put_line(&mut out, l);
            assert(out.deep_view() =~= all.take(i + 1).filter(p).map_values(f));
        }
        i += 1;
    }
    assert(all.take(i as int) =~= all);
    out
}

/// What the Rules tab draws: the repo picker, the builder, or the list with its preview.
#[derive(Debug)]
pub enum RulesPage {
    Pick { lines: Vec<Line>, cursor_line: usize },
    Builder { lines: Vec<Line> },
    Rows { lines: Vec<Line>, cursor_line: usize, height: u16, preview: Vec<Line> },
}

/// Whether `r` is the page of `v` for a panel of `height` rows: the repo picker if it
/// is open, else the builder if it is open, else the rule list and its preview.
pub open spec fn shows_rules(
    r: RulesPage,
    v: RulesV,
    height: int,
    scanned_at: Option<i64>,
    now_ms: i64,
) -> bool {
    match v.pick {
        Some(p) => r matches RulesPage::Pick { lines, cursor_line } && lines.deep_view()
            == pick_lines(p) && cursor_line == 2 + p.cursor,
        None => match v.editor {
            Some(ed) => r matches RulesPage::Builder { lines } && lines.deep_view()
                == editor_lines(ed),
            None => r matches RulesPage::Rows { lines, cursor_line, height: h, preview } && {
                let n = flat(v.detect).len() as int;
                let room = if height > 5 {
                    height - 4
                } else {
                    1
                };
                &&& lines.deep_view() == rule_lines(flat(v.detect), v.cursor)
                &&& cursor_line == (if n == 0 {
                    0
                } else {
                    v.cursor + 1
                })
                &&& h == at_most(
                    if n == 0 {
                        2
                    } else {
                        n + 1
                    },
                    room,
                )
                &&& preview.deep_view() == preview_lines(v, scanned_at, now_ms)
            },
        },
    }
}

impl RulesState {
    fn list_lines(&self) -> (r: Vec<Line>)
        ensures
            r.deep_view() == rule_lines(flat(self.detect@), self.cursor as int),
    {
        let rows = flatten(&self.detect);
        let ghost rv = rows.deep_view();
        let mut out = no_lines();
        if rows.len() == 0 {
            put_line(&mut out, line1(styled("No rules yet — press a to add one", theme::faint())));
            assert(out.deep_view() =~= rule_lines(rv, self.cursor as int));
            return out;
        }
        put_line(&mut out, line1(styled("Matches a repo when any of these holds", theme::dim())));
        let ghost all = rule_lines(rv, self.cursor as int);
        assert(all.len() == rv.len() + 1);
        let mut i: usize = 0;
        while i < rows.len()
            invariant
                i <= rows.len(),
                rows.len() > 0,
                rv == rows.deep_view(),
                all == rule_lines(rv, self.cursor as int),
                out.deep_view() =~= all.take(i + 1),
            decreases rows.len() - i,
        {
            let row = &rows[i];
            assert(rv[i as int] == row@);
            let st = if row.editable() {
                theme::dim()
            } else {
                theme::faint()
            };
            let l = line3(
                styled(marker_of(i == self.cursor), theme::accent()),
                span(pad(row.label(), 14), st),
                span(row.value(), theme::text()),
            );
            assert(l@ =~= all[i + 1]);
            put_line(&mut out, l);
            i += 1;
        }
        assert(all.take(i + 1) =~= all);
        out
    }

    fn preview_block(&self, scanned_at: Option<i64>, now_ms: i64) -> (r: Vec<Line>)
        requires
            self.total_repos == self@.preview.live.len(),
        ensures
            r.deep_view() == preview_lines(self@, scanned_at, now_ms),
    {
        let ghost v = self@;
        assert(self.matched.len() == v.preview.matched.len());
        let mut out = no_lines();
        put_line(
            &mut out,
            line1(
                span(
                    count_line(
                        self.matched.len(),
                        self.total_repos,
                        self.undecided,
                        self.indexing,
                        scanned_at,
                        now_ms,
                    ),
                    theme::accent(),
                ),
            ),
        );
        let ghost head = out.deep_view();
        let ghost all = match_rows(v.preview.matched);
        let mut i: usize = 0;
        while i < self.matched.len()
            invariant
                i <= self.matched.len(),
                v == self@,
                all == match_rows(v.preview.matched),
                out.deep_view() =~= head + all.take(i as int),
            decreases self.matched.len() - i,
        {
            let m = &self.matched[i];
            assert(v.preview.matched[i as int] == m.deep_view());
            let mut s = join3("   ", short_path(m.path.as_str()).as_str(), "   ");
            let ghost start = s@;
            match &m.value {
                Some(w) => {
                    s.append(w.as_str());
                },
                None => {
                    assert(start + Seq::<char>::empty() =~= start);
                },
            }
            let l = line1(span(s, theme::text()));
            assert(l@ =~= all[i as int]);
            put_line(&mut out, l);
            i += 1;
        }
        assert(all.take(i as int) =~= all);
        let near = near_lines(&self.near);
        assert(near.deep_view().len() == near.len());
        let ghost ns = v.preview.near;
        if near.len() > 0 {
            put_line(&mut out, blank());
            put_line(
                &mut out,
                line1(
                    span(
                        join3("╴ ", show(near.len() as u64).as_str(), " nearby, not matched"),
                        theme::faint(),
                    ),
                ),
            );
            put_lines(&mut out, near);
        }
        assert(out.deep_view() =~= preview_lines(v, scanned_at, now_ms));
        out
    }

    /// The page for a panel of `height` rows: the repo picker if it is open, else the
    /// builder if it is open, else the rule list and its preview. The list is
    /// capped so that the preview is never squeezed out.
    pub fn render(&self, height: u16, scanned_at: Option<i64>, now_ms: i64) -> (r: RulesPage)
        requires
            self@.ok(),
            self.total_repos == self@.preview.live.len(),
        ensures
            shows_rules(r, self@, height as int, scanned_at, now_ms),
    {
        if let Some(pick) = &self.repo_pick {
            let mut lines = no_lines();
            put_line(
                &mut lines,
                line1(styled("Prefill rules from a repo — pick one", theme::accent())),
            );
            put_line(&mut lines, blank());
            put_lines(&mut lines, repo_lines(&pick.repos, pick.cursor));
            assert(lines.deep_view() =~= pick_lines(pick@));
            let n: usize = lines.len();
            assert(n == lines.deep_view().len());
            return RulesPage::Pick { lines, cursor_line: 2 + pick.cursor };
        }
        if let Some(ed) = &self.editor {
            return RulesPage::Builder { lines: render_editor(ed) };
        }
        let rows = flatten(&self.detect);
        let n: usize = rows.len();
        assert(n == rows.deep_view().len());
        let lines = self.list_lines();
        let m: usize = lines.len();
        assert(m == lines.deep_view().len());
        let want: usize = if n == 0 {
            2
        } else {
            n + 1
        };
        let cursor_line: usize = if n == 0 {
            0
        } else {
            self.cursor + 1
        };
        RulesPage::Rows {
            lines,
            cursor_line,
            height: list_height(want, height, 4),
            preview: self.preview_block(scanned_at, now_ms),
        }
    }
}

/// A path is shown by what stands behind its last slash.
pub proof fn a_path_is_shown_by_its_last_part(dir: Seq<char>, leaf: Seq<char>)
    requires
        forall|i: int| 0 <= i < leaf.len() ==> #[trigger] leaf[i] != '/',
    ensures
        short(leaf) == leaf,
        short(dir.push('/') + leaf) == leaf,
{
    let p = dir.push('/') + leaf;
    let n = dir.len() as int;
    lemma_no_slash(leaf, leaf.len() as int, 0);
    assert forall|i: int| n + 1 <= i < p.len() implies #[trigger] p[i] != '/' by {
        assert(p[i] == leaf[i - n - 1]);
    }
    lemma_no_slash(p, p.len() as int, n + 1);
    assert(p[n] == '/');
    assert(last_slash(p, n + 1) == Some(n));
    assert(p.skip(n + 1) =~= leaf);
}

proof fn lemma_no_slash(s: Seq<char>, k: int, from: int)
    requires
        0 <= from <= k <= s.len(),
        forall|i: int| from <= i < k ==> #[trigger] s[i] != '/',
    ensures
        last_slash(s, k) == last_slash(s, from),
    decreases k,
{
    if k > from {
        assert(s[k - 1] != '/');
        lemma_no_slash(s, k - 1, from);
    }
}

/// Every rule has its line below the heading, with its kind and its value, the one under the
/// cursor marked.
pub proof fn every_rule_is_drawn(rows: Seq<RowV>, cursor: int, i: int)
    requires
        0 <= i < rows.len(),
    ensures
        rule_lines(rows, cursor).len() == rows.len() + 1,
        rule_lines(rows, cursor)[i + 1][0].text == if i == cursor {
            "▸ "@
        } else {
            "  "@
        },
        rule_lines(rows, cursor)[i + 1][1].text == padded(rows[i].label(), 14),
        rule_lines(rows, cursor)[i + 1][2].text == rows[i].value(),
{
}

/// The preview counts the matches among the repos that rules classify, unless one is open, and
/// then shows each match.
pub proof fn the_preview_shows_every_match(
    v: RulesV,
    scanned_at: Option<i64>,
    now_ms: i64,
    i: int,
)
    requires
        0 <= i < v.preview.matched.len(),
    ensures
        ({
            let ls = preview_lines(v, scanned_at, now_ms);
            let m = v.preview.matched[i];
            &&& ls.len() >= 1 + v.preview.matched.len()
            &&& ls[i + 1][0].text == "   "@ + short(m.path) + "   "@ + match m.value {
                Some(x) => x,
                None => Seq::empty(),
            }
            &&& v.preview.undecided ==> "● matches … of "@.is_prefix_of(ls[0][0].text)
            &&& !v.preview.undecided ==> ("● matches "@ + decimal(v.preview.matched.len())
                + " of "@).is_prefix_of(ls[0][0].text)
        }),
{
    let ls = preview_lines(v, scanned_at, now_ms);
    let t = ls[0][0].text;
    let n = v.preview.matched.len();
    if v.preview.undecided {
        let h = "● matches … of "@;
        assert(h =~= t.subrange(0, h.len() as int));
    } else {
        let h = "● matches "@ + decimal(n) + " of "@;
        assert(h =~= t.subrange(0, h.len() as int));
    }
}

/// Near misses are listed just where there is something to suggest, in order. Returns their
/// positions.
pub proof fn near_misses_come_with_a_suggestion(ns: Seq<NearV>) -> (ix: Seq<int>)
    ensures
        crate::list::picks(ix, ns.len() as int, |i: int| ns[i].suggestion is Some),
        near_rows(ns).len() == ix.len(),
        forall|k: int|
            0 <= k < ix.len() ==> #[trigger] near_rows(ns)[k][0].text == "   "@ + short(
                ns[ix[k]].path,
            ) + "   "@ + hint_text(ns[ix[k]].suggestion->0),
{
    let p = |n: NearV| n.suggestion is Some;
    let q = |i: int| ns[i].suggestion is Some;
    crate::list::lemma_filter_picks(ns, p);
    crate::list::lemma_picked(ns.len() as int, q);
    crate::list::lemma_picked_congruent(ns.len() as int, |i: int| p(ns[i]), q);
    crate::list::picked(ns.len() as int, q)
}

/// The repos are listed by their last part, in order, the one under the cursor marked.
pub proof fn every_repo_is_listed(repos: Seq<Seq<char>>, cursor: int, i: int)
    requires
        0 <= i < repos.len(),
    ensures
        repo_rows(repos, cursor).len() == repos.len(),
        repo_rows(repos, cursor)[i][0].text == if i == cursor {
            "▸ "@
        } else {
            "  "@
        },
        repo_rows(repos, cursor)[i][1].text == short(repos[i]),
{
}

/// The near misses are counted by those that have a suggestion, and left out without any.
pub proof fn near_misses_are_counted(ns: Seq<NearV>)
    ensures
        near_rows(ns).len() == 0 ==> near_panel(ns).len() == 0,
        near_rows(ns).len() > 0 ==> near_panel(ns).len() == near_rows(ns).len() + 2
            && near_panel(ns)[1][0].text == "╴ "@ + decimal(near_rows(ns).len())
            + " nearby, not matched"@,
{
}

/// A suggestion is told as the rule to add.
pub proof fn a_suggestion_names_the_rule(s: Seq<char>, word: Seq<char>)
    ensures
        hint_text(RowV::HasAny(s)) == "add  has any "@ + s + "?"@,
        hint_text(RowV::HasFile(s)) == "add  has file "@ + s + "?"@,
        hint_text(RowV::Contains { file: s, word }) == "add  contains "@ + (s + " → "@ + word)
            + "?"@,
{
}

/// The builder shows each input with its caret, and how many repos the rules would match.
pub proof fn the_builder_shows_its_inputs(ed: EditorV)
    requires
        ed.kind is Some,
    ensures
        ({
            let ls = editor_lines(ed);
            &&& ed.word is None ==> ls[2][1].text == ed.file.shown()
            &&& ed.word matches Some(w) ==> ls[2][1].text == ed.file.shown() && ls[3][1].text
                == w.shown()
            &&& ed.live_count matches Some(n) ==> ls.last()[0].text == "● matches "@ + decimal(
                n as nat,
            ) + " repos"@
        }),
{
}

} // verus!
