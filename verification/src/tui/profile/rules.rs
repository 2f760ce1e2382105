//! The Rules tab: a profile's detection rules as rows, their editing, and a live
//! preview of what they match.

use vstd::prelude::*;

use crate::list::{self, minus, with_key};
use crate::profile::config::{ContentRule, ContentV, Detect, DetectV};
use crate::profile::discover::{
    find_repo, lemma_repo_at_unique, paths_of, repo_at, repo_paths, text_of, Inventory, RepoSignal,
    SignalV,
};
use crate::profile::signal_detect::{
    answer, atom_content, atom_dep, atom_file, atom_glob, atom_keyword, content_atom, content_value,
    dep_atom, detect_answer, file_atom, glob_atom, keyword_atom, AnswerV, ProfileAnswer,
};
use crate::text::{join2, join3, same, trim, trimmed};
use crate::tui::key::{down, is_down, is_up, next_in, prev_in, up, KeyCode, KeyEvent};
use crate::tui::textinput::{InputV, TextInput};

verus! {

/// One detection rule as shown to the user.
#[derive(Debug, PartialEq, Eq)]
pub enum RuleRow {
    PathUnder(String),
    HasFile(String),
    HasAny(String),
    Contains { file: String, word: String },
    /// A rule of an older kind: shown, but read-only.
    Legacy(String),
}

/// The texts of a rule row.
pub enum RowV {
    PathUnder(Seq<char>),
    HasFile(Seq<char>),
    HasAny(Seq<char>),
    Contains { file: Seq<char>, word: Seq<char> },
    Legacy(Seq<char>),
}

impl View for RuleRow {
    type V = RowV;

    open spec fn view(&self) -> RowV {
        match *self {
            RuleRow::PathUnder(s) => RowV::PathUnder(s@),
            RuleRow::HasFile(s) => RowV::HasFile(s@),
            RuleRow::HasAny(s) => RowV::HasAny(s@),
            RuleRow::Contains { file, word } => RowV::Contains { file: file@, word: word@ },
            RuleRow::Legacy(s) => RowV::Legacy(s@),
        }
    }
}

impl DeepView for RuleRow {
    type V = RowV;

    open spec fn deep_view(&self) -> RowV {
        self@
    }
}

impl Clone for RuleRow {
    fn clone(&self) -> (r: RuleRow)
        ensures
            r@ == self@,
    {
        match self {
            RuleRow::PathUnder(s) => RuleRow::PathUnder(s.clone()),
            RuleRow::HasFile(s) => RuleRow::HasFile(s.clone()),
            RuleRow::HasAny(s) => RuleRow::HasAny(s.clone()),
            RuleRow::Contains { file, word } => RuleRow::Contains {
                file: file.clone(),
                word: word.clone(),
            },
            RuleRow::Legacy(s) => RuleRow::Legacy(s.clone()),
        }
    }
}

impl RowV {
    /// The left column.
    pub open spec fn label(self) -> Seq<char> {
        match self {
            RowV::PathUnder(_) => "path under"@,
            RowV::HasFile(_) => "has file"@,
            RowV::HasAny(_) => "has any"@,
            RowV::Contains { .. } => "contains"@,
            RowV::Legacy(_) => "contains (legacy)"@,
        }
    }

    /// The right column.
    pub open spec fn value(self) -> Seq<char> {
        match self {
            RowV::PathUnder(s) => s,
            RowV::HasFile(s) => s,
            RowV::HasAny(s) => s,
            RowV::Legacy(s) => s,
            RowV::Contains { file, word } => content_value(file, word),
        }
    }

    /// Everything but the older kinds can be edited and removed.
    pub open spec fn editable(self) -> bool {
        !(self is Legacy)
    }
}

impl RuleRow {
    /// The label of the left column.
    pub fn label(&self) -> (r: &'static str)
        ensures
            r@ == self@.label(),
    {
        match self {
            RuleRow::PathUnder(_) => "path under",
            RuleRow::HasFile(_) => "has file",
            RuleRow::HasAny(_) => "has any",
            RuleRow::Contains { .. } => "contains",
            RuleRow::Legacy(_) => "contains (legacy)",
        }
    }

    /// The text of the right column.
    pub fn value(&self) -> (r: String)
        ensures
            r@ == self@.value(),
    {
        match self {
            RuleRow::PathUnder(s) => s.clone(),
            RuleRow::HasFile(s) => s.clone(),
            RuleRow::HasAny(s) => s.clone(),
            RuleRow::Legacy(s) => s.clone(),
            RuleRow::Contains { file, word } => join3(file.as_str(), " → ", word.as_str()),
        }
    }

    /// Whether the row can be edited and removed.
    pub fn editable(&self) -> (r: bool)
        ensures
            r == self@.editable(),
    {
        match self {
            RuleRow::Legacy(_) => false,
            _ => true,
        }
    }

    /// Whether two rows show the same rule.
    pub fn equals(&self, other: &RuleRow) -> (r: bool)
        ensures
            r == (self@ == other@),
    {
        match (self, other) {
            (RuleRow::PathUnder(a), RuleRow::PathUnder(b)) => same(a.as_str(), b.as_str()),
            (RuleRow::HasFile(a), RuleRow::HasFile(b)) => same(a.as_str(), b.as_str()),
            (RuleRow::HasAny(a), RuleRow::HasAny(b)) => same(a.as_str(), b.as_str()),
            (RuleRow::Legacy(a), RuleRow::Legacy(b)) => same(a.as_str(), b.as_str()),
            (RuleRow::Contains { file: f, word: w }, RuleRow::Contains { file: g, word: x }) => same(
                f.as_str(),
                g.as_str(),
            ) && same(w.as_str(), x.as_str()),
            _ => false,
        }
    }
}

/// The path-prefix rows of a rule set.
pub open spec fn path_rows(d: DetectV) -> Seq<RowV> {
    d.path_prefixes.map_values(|s: Seq<char>| RowV::PathUnder(s))
}

/// The marker-file rows of a rule set.
pub open spec fn file_rows(d: DetectV) -> Seq<RowV> {
    d.marker_files.map_values(|s: Seq<char>| RowV::HasFile(s))
}

/// The marker-glob rows of a rule set.
pub open spec fn glob_rows(d: DetectV) -> Seq<RowV> {
    d.marker_globs.map_values(|s: Seq<char>| RowV::HasAny(s))
}

/// The content rows of a rule set.
pub open spec fn content_rows(d: DetectV) -> Seq<RowV> {
    d.content.map_values(|c: ContentV| RowV::Contains { file: c.file, word: c.word })
}

/// The dependency rows of a rule set, read-only.
pub open spec fn dep_rows(d: DetectV) -> Seq<RowV> {
    d.package_json_deps.map_values(|s: Seq<char>| RowV::Legacy("package.json: "@ + s))
}

/// The keyword rows of a rule set, read-only.
pub open spec fn keyword_rows(d: DetectV) -> Seq<RowV> {
    d.deps_keywords.map_values(|s: Seq<char>| RowV::Legacy("keyword: "@ + s))
}

/// The rows of a rule set, in the order in which rules are tried.
pub open spec fn flat(d: DetectV) -> Seq<RowV> {
    path_rows(d) + file_rows(d) + glob_rows(d) + content_rows(d) + dep_rows(d) + keyword_rows(d)
}

/// The rule set with a row added at the end of its kind. Read-only rows are never added.
pub open spec fn added(d: DetectV, row: RowV) -> DetectV {
    match row {
        RowV::PathUnder(s) => DetectV { path_prefixes: d.path_prefixes.push(s), ..d },
        RowV::HasFile(s) => DetectV { marker_files: d.marker_files.push(s), ..d },
        RowV::HasAny(s) => DetectV { marker_globs: d.marker_globs.push(s), ..d },
        RowV::Contains { file, word } => DetectV {
            content: d.content.push(ContentV { file, word }),
            ..d
        },
        RowV::Legacy(_) => d,
    }
}

/// The rule set without the rule shown at row `i`.
pub open spec fn removed(d: DetectV, i: int) -> DetectV {
    let np = d.path_prefixes.len() as int;
    let nf = np + d.marker_files.len();
    let ng = nf + d.marker_globs.len();
    let nc = ng + d.content.len();
    let nd = nc + d.package_json_deps.len();
    if i < np {
        DetectV { path_prefixes: d.path_prefixes.remove(i), ..d }
    } else if i < nf {
        DetectV { marker_files: d.marker_files.remove(i - np), ..d }
    } else if i < ng {
        DetectV { marker_globs: d.marker_globs.remove(i - nf), ..d }
    } else if i < nc {
        DetectV { content: d.content.remove(i - ng), ..d }
    } else if i < nd {
        DetectV { package_json_deps: d.package_json_deps.remove(i - nc), ..d }
    } else if i < nd + d.deps_keywords.len() {
        DetectV { deps_keywords: d.deps_keywords.remove(i - nd), ..d }
    } else {
        d
    }
}

/// Removing the rule at a row removes exactly that row and keeps the others in order.
pub proof fn remove_at_matches_flatten(d: DetectV, i: int)
    requires
        0 <= i < flat(d).len(),
    ensures
        flat(removed(d, i)) == flat(d).remove(i),
{
    assert(flat(removed(d, i)) =~= flat(d).remove(i));
}

/// The row index at which an added rule appears: the end of its kind.
pub open spec fn row_end(d: DetectV, row: RowV) -> int {
    let np = d.path_prefixes.len() as int;
    let nf = np + d.marker_files.len();
    let ng = nf + d.marker_globs.len();
    let nc = ng + d.content.len();
    match row {
        RowV::PathUnder(_) => np,
        RowV::HasFile(_) => nf,
        RowV::HasAny(_) => ng,
        _ => nc,
    }
}

/// Adding an editable row makes it appear, at the end of its kind; all other rows stay.
pub proof fn added_row_is_shown(d: DetectV, row: RowV)
    requires
        row.editable(),
    ensures
        0 <= row_end(d, row) <= flat(d).len(),
        flat(added(d, row)) == flat(d).insert(row_end(d, row), row),
{
    assert(flat(d).insert(row_end(d, row), row) =~= flat(added(d, row)));
}

/// Read-only rows are never added.
pub proof fn legacy_rows_are_inert(d: DetectV, s: Seq<char>)
    ensures
        added(d, RowV::Legacy(s)) == d,
{
}

/// Removing the row just added gives the rule set back.
pub proof fn removing_an_added_row_undoes_it(d: DetectV, row: RowV)
    requires
        row.editable(),
    ensures
        removed(added(d, row), row_end(d, row)) == d,
{
    assert(removed(added(d, row), row_end(d, row)) =~= d);
}

fn push_row(rows: &mut Vec<RuleRow>, r: RuleRow)
    ensures
        final(rows).deep_view() == old(rows).deep_view().push(r@),
{
    rows.push(r);
    assert(rows.deep_view() =~= old(rows).deep_view().push(r@));
}

fn push_files(rows: &mut Vec<RuleRow>, files: &Vec<String>)
    ensures
        final(rows).deep_view() == old(rows).deep_view() + files.deep_view().map_values(
            |s: Seq<char>| RowV::HasFile(s),
        ),
{
    let ghost base = rows.deep_view();
    let ghost part = files.deep_view().map_values(|s: Seq<char>| RowV::HasFile(s));
    let mut i: usize = 0;
    while i < files.len()
        invariant
            i <= files.len(),
            part == files.deep_view().map_values(|s: Seq<char>| RowV::HasFile(s)),
            rows.deep_view() =~= base + part.take(i as int),
        decreases files.len() - i,
    {
        push_row(rows, RuleRow::HasFile(files[i].clone()));
        i += 1;
    }
    assert(part.take(i as int) =~= part);
}

fn push_globs(rows: &mut Vec<RuleRow>, globs: &Vec<String>)
    ensures
        final(rows).deep_view() == old(rows).deep_view() + globs.deep_view().map_values(
            |s: Seq<char>| RowV::HasAny(s),
        ),
{
    let ghost base = rows.deep_view();
    let ghost part = globs.deep_view().map_values(|s: Seq<char>| RowV::HasAny(s));
    let mut i: usize = 0;
    while i < globs.len()
        invariant
            i <= globs.len(),
            part == globs.deep_view().map_values(|s: Seq<char>| RowV::HasAny(s)),
            rows.deep_view() =~= base + part.take(i as int),
        decreases globs.len() - i,
    {
        push_row(rows, RuleRow::HasAny(globs[i].clone()));
        i += 1;
    }
    assert(part.take(i as int) =~= part);
}

/// The rows of `d`, in the order in which rules are tried.
pub fn flatten(d: &Detect) -> (r: Vec<RuleRow>)
    ensures
        r.deep_view() == flat(d@),
{
    let mut rows: Vec<RuleRow> = Vec::new();
    assert(rows.deep_view() =~= Seq::<RowV>::empty());
    let ghost part = path_rows(d@);
    let mut i: usize = 0;
    while i < d.path_prefixes.len()
        invariant
            i <= d.path_prefixes.len(),
            part == path_rows(d@),
            rows.deep_view() =~= part.take(i as int),
        decreases d.path_prefixes.len() - i,
    {
        push_row(&mut rows, RuleRow::PathUnder(d.path_prefixes[i].clone()));
        i += 1;
    }
    assert(part.take(i as int) =~= part);
    push_files(&mut rows, &d.marker_files);
    push_globs(&mut rows, &d.marker_globs);
    let ghost base = rows.deep_view();
    let ghost part = content_rows(d@);
    let mut i: usize = 0;
    while i < d.content.len()
        invariant
            i <= d.content.len(),
            part == content_rows(d@),
            rows.deep_view() =~= base + part.take(i as int),
        decreases d.content.len() - i,
    {
        let c = &d.content[i];
        push_row(&mut rows, RuleRow::Contains { file: c.file.clone(), word: c.word.clone() });
        i += 1;
    }
    assert(part.take(i as int) =~= part);
    let ghost base = rows.deep_view();
    let ghost part = dep_rows(d@);
    let mut i: usize = 0;
    while i < d.package_json_deps.len()
        invariant
            i <= d.package_json_deps.len(),
            part == dep_rows(d@),
            rows.deep_view() =~= base + part.take(i as int),
        decreases d.package_json_deps.len() - i,
    {
        push_row(
            &mut rows,
            RuleRow::Legacy(join2("package.json: ", d.package_json_deps[i].as_str())),
        );
        i += 1;
    }
    assert(part.take(i as int) =~= part);
    let ghost base = rows.deep_view();
    let ghost part = keyword_rows(d@);
    let mut i: usize = 0;
    while i < d.deps_keywords.len()
        invariant
            i <= d.deps_keywords.len(),
            part == keyword_rows(d@),
            rows.deep_view() =~= base + part.take(i as int),
        decreases d.deps_keywords.len() - i,
    {
        push_row(&mut rows, RuleRow::Legacy(join2("keyword: ", d.deps_keywords[i].as_str())));
        i += 1;
    }
    assert(part.take(i as int) =~= part);
    assert(rows.deep_view() =~= flat(d@));
    rows
}

/// Appends an editable rule to `d`. Read-only rows are inert.
pub fn add_rule(d: &mut Detect, row: RuleRow)
    ensures
        final(d)@ == added(old(d)@, row@),
{
    match row {
        RuleRow::PathUnder(s) => {
            d.path_prefixes.push(s);
        },
        RuleRow::HasFile(s) => {
            d.marker_files.push(s);
        },
        RuleRow::HasAny(s) => {
            d.marker_globs.push(s);
        },
        RuleRow::Contains { file, word } => {
            d.content.push(ContentRule { file, word });
        },
        RuleRow::Legacy(_) => {},
    }
    assert(d@ =~= added(old(d)@, row@));
}

/// Removes the rule shown at row `i`. A row that does not exist removes nothing.
pub fn remove_at(d: &mut Detect, i: usize)
    ensures
        final(d)@ == removed(old(d)@, i as int),
{
    let mut j: usize = i;
    if j < d.path_prefixes.len() {
        d.path_prefixes.remove(j);
        assert(d@ =~= removed(old(d)@, i as int));
        return;
    }
    j -= d.path_prefixes.len();
    if j < d.marker_files.len() {
        d.marker_files.remove(j);
        assert(d@ =~= removed(old(d)@, i as int));
        return;
    }
    j -= d.marker_files.len();
    if j < d.marker_globs.len() {
        d.marker_globs.remove(j);
        assert(d@ =~= removed(old(d)@, i as int));
        return;
    }
    j -= d.marker_globs.len();
    if j < d.content.len() {
        d.content.remove(j);
        assert(d@ =~= removed(old(d)@, i as int));
        return;
    }
    j -= d.content.len();
    if j < d.package_json_deps.len() {
        d.package_json_deps.remove(j);
        assert(d@ =~= removed(old(d)@, i as int));
        return;
    }
    j -= d.package_json_deps.len();
    if j < d.deps_keywords.len() {
        d.deps_keywords.remove(j);
    }
    assert(d@ =~= removed(old(d)@, i as int));
}

/// A scanned repo that a rule set matches, with the rule that decided.
#[derive(Debug)]
pub struct Match {
    pub path: String,
    pub rule: &'static str,
    pub value: Option<String>,
}

/// The texts of a match.
pub struct MatchV {
    pub path: Seq<char>,
    pub rule: Seq<char>,
    pub value: Option<Seq<char>>,
}

impl DeepView for Match {
    type V = MatchV;

    open spec fn deep_view(&self) -> MatchV {
        MatchV { path: self.path@, rule: self.rule@, value: text_of(self.value) }
    }
}

/// A scanned repo that does not match, with one rule that would catch it.
#[derive(Debug)]
pub struct NearMiss {
    pub path: String,
    pub suggestion: Option<RuleRow>,
}

/// The texts of a near miss.
pub struct NearV {
    pub path: Seq<char>,
    pub suggestion: Option<RowV>,
}

/// The texts of an optional row.
pub open spec fn row_of(o: Option<RuleRow>) -> Option<RowV> {
    match o {
        Some(r) => Some(r@),
        None => None,
    }
}

impl DeepView for NearMiss {
    type V = NearV;

    open spec fn deep_view(&self) -> NearV {
        NearV { path: self.path@, suggestion: row_of(self.suggestion) }
    }
}

/// The repos that the rules classify: those without an override of their own.
pub open spec fn classified(repos: Seq<SignalV>) -> Seq<SignalV> {
    repos.filter(|r: SignalV| r.override_names is None)
}

/// The repos that `d` matches, in scan order, each with the rule that decided.
pub open spec fn matching(d: DetectV, repos: Seq<SignalV>) -> Seq<MatchV>
    decreases repos.len(),
{
    if repos.len() == 0 {
        Seq::empty()
    } else {
        let before = matching(d, repos.drop_last());
        match answer(repos.last(), d) {
            AnswerV::Match(r) => before.push(
                MatchV { path: repos.last().path, rule: r.rule, value: r.value },
            ),
            _ => before,
        }
    }
}

/// The paths of a list of matches.
pub open spec fn match_paths(ms: Seq<MatchV>) -> Seq<Seq<char>> {
    ms.map_values(|m: MatchV| m.path)
}

/// Whether some repo cannot be answered yet.
pub open spec fn unanswered(d: DetectV, repos: Seq<SignalV>) -> bool {
    exists|i: int| 0 <= i < repos.len() && answer(#[trigger] repos[i], d) is Unknown
}

/// The first name that is not in `known`.
pub open spec fn first_new(names: Seq<Seq<char>>, known: Seq<Seq<char>>) -> Option<Seq<char>>
    decreases names.len(),
{
    if names.len() == 0 {
        None
    } else if !known.contains(names[0]) {
        Some(names[0])
    } else {
        first_new(names.drop_first(), known)
    }
}

/// The files that content rules read.
pub open spec fn read_files(d: DetectV) -> Seq<Seq<char>> {
    d.content.map_values(|c: ContentV| c.file)
}

/// The single most useful rule to add so that `r` would match: a glob the repo has
/// and the rules lack, then an uncovered marker file, then a dependency.
pub open spec fn suggestion_for(d: DetectV, r: SignalV) -> Option<RowV> {
    match first_new(r.marker_globs, d.marker_globs) {
        Some(g) => Some(RowV::HasAny(g)),
        None => match first_new(r.marker_files, d.marker_files + read_files(d)) {
            Some(f) => Some(RowV::HasFile(f)),
            None => if r.package_json_deps.len() > 0 {
                Some(RowV::Contains { file: "package.json"@, word: r.package_json_deps[0] })
            } else {
                None
            },
        },
    }
}

/// The repos outside `matched`, each with a suggestion, in scan order.
pub open spec fn nearby(d: DetectV, repos: Seq<SignalV>, matched: Seq<Seq<char>>) -> Seq<NearV>
    decreases repos.len(),
{
    if repos.len() == 0 {
        Seq::empty()
    } else {
        let before = nearby(d, repos.drop_last(), matched);
        let r = repos.last();
        if matched.contains(r.path) {
            before
        } else {
            before.push(NearV { path: r.path, suggestion: suggestion_for(d, r) })
        }
    }
}

/// A repo that matched is never listed as a near miss.
pub proof fn near_misses_exclude_matched(d: DetectV, repos: Seq<SignalV>, matched: Seq<Seq<char>>)
    ensures
        forall|i: int|
            0 <= i < nearby(d, repos, matched).len() ==> !matched.contains(
                (#[trigger] nearby(d, repos, matched)[i]).path,
            ),
    decreases repos.len(),
{
    if repos.len() > 0 {
        near_misses_exclude_matched(d, repos.drop_last(), matched);
        let before = nearby(d, repos.drop_last(), matched);
        assert forall|i: int| 0 <= i < nearby(d, repos, matched).len() implies !matched.contains(
            (#[trigger] nearby(d, repos, matched)[i]).path,
        ) by {
            if i < before.len() {
                assert(nearby(d, repos, matched)[i] == before[i]);
            }
        }
    }
}

/// A repo with an override of its own appears neither as a match nor as a near miss.
pub proof fn overridden_repos_are_left_out(repos: Seq<SignalV>)
    ensures
        forall|i: int|
            0 <= i < classified(repos).len() ==> (#[trigger] classified(
                repos,
            )[i]).override_names is None,
{
    list::lemma_filter_contains(repos, |r: SignalV| r.override_names is None);
    assert forall|i: int| 0 <= i < classified(repos).len() implies (#[trigger] classified(
        repos,
    )[i]).override_names is None by {
        assert(classified(repos).contains(classified(repos)[i]));
    }
}

/// All rules that one repo's signals give rise to.
pub open spec fn derived(r: SignalV) -> Seq<RowV> {
    r.marker_files.map_values(|s: Seq<char>| RowV::HasFile(s)) + r.marker_globs.map_values(
        |s: Seq<char>| RowV::HasAny(s),
    ) + r.package_json_deps.map_values(
        |s: Seq<char>| RowV::Contains { file: "package.json"@, word: s },
    )
}

/// All rules derivable from one repo's signals: marker files, globs, then
/// package.json dependencies as content rules.
pub fn derive_rules(r: &RepoSignal) -> (rows: Vec<RuleRow>)
    ensures
        rows.deep_view() == derived(r@),
{
    let mut rows: Vec<RuleRow> = Vec::new();
    assert(rows.deep_view() =~= Seq::<RowV>::empty());
    push_files(&mut rows, &r.marker_files);
    push_globs(&mut rows, &r.marker_globs);
    let ghost base = rows.deep_view();
    let ghost part = r@.package_json_deps.map_values(
        |s: Seq<char>| RowV::Contains { file: "package.json"@, word: s },
    );
    let mut i: usize = 0;
    while i < r.package_json_deps.len()
        invariant
            i <= r.package_json_deps.len(),
            part == r@.package_json_deps.map_values(
                |s: Seq<char>| RowV::Contains { file: "package.json"@, word: s },
            ),
            rows.deep_view() =~= base + part.take(i as int),
        decreases r.package_json_deps.len() - i,
    {
        push_row(
            &mut rows,
            RuleRow::Contains {
                file: crate::text::owned("package.json"),
                word: r.package_json_deps[i].clone(),
            },
        );
        i += 1;
    }
    assert(part.take(i as int) =~= part);
    assert(rows.deep_view() =~= derived(r@));
    rows
}

/// The repos of `repos` that `detect` matches, with the rule that decided. Read
/// off the index; a repo without an answer is not a match.
pub fn matching_repos(detect: &Detect, repos: &Vec<RepoSignal>) -> (r: Vec<Match>)
    ensures
        r.deep_view() == matching(detect@, repos.deep_view()),
{
    let mut out: Vec<Match> = Vec::new();
    let ghost all = repos.deep_view();
    assert(out.deep_view() =~= Seq::<MatchV>::empty());
    let mut i: usize = 0;
    while i < repos.len()
        invariant
            i <= repos.len(),
            all == repos.deep_view(),
            out.deep_view() == matching(detect@, all.take(i as int)),
        decreases repos.len() - i,
    {
        let ghost before = out.deep_view();
        proof {
            let t = all.take(i + 1);
            assert(t.drop_last() =~= all.take(i as int));
            assert(t.last() == all[i as int]);
            assert(all[i as int] == repos[i as int]@);
        }
        match detect_answer(&repos[i], detect) {
            ProfileAnswer::Match(reason) => {
                let m = Match {
                    path: repos[i].path.clone(),
                    rule: reason.rule,
                    value: reason.value,
                };
                let ghost mv = m.deep_view();
                out.push(m);
                assert(out.deep_view() =~= before.push(mv));
            },
            _ => {},
        }
        i += 1;
    }
    assert(all.take(i as int) =~= all);
    out
}

fn find_new(names: &Vec<String>, known: &Vec<String>) -> (r: Option<String>)
    ensures
        text_of(r) == first_new(names.deep_view(), known.deep_view()),
{
    let ghost all = names.deep_view();
    let mut i: usize = 0;
    assert(all.skip(0) =~= all);
    while i < names.len()
        invariant
            i <= names.len(),
            all == names.deep_view(),
            first_new(all, known.deep_view()) == first_new(all.skip(i as int), known.deep_view()),
        decreases names.len() - i,
    {
        let ghost rest = all.skip(i as int);
        assert(rest[0] == all[i as int]);
        assert(rest.drop_first() =~= all.skip(i + 1));
        if !list::contains(known, names[i].as_str()) {
            return Some(names[i].clone());
        }
        i += 1;
    }
    None
}

/// The rule to suggest for `r`.
pub fn suggest_rule(detect: &Detect, r: &RepoSignal) -> (s: Option<RuleRow>)
    ensures
        row_of(s) == suggestion_for(detect@, r@),
{
    if let Some(g) = find_new(&r.marker_globs, &detect.marker_globs) {
        return Some(RuleRow::HasAny(g));
    }
    let mut known = list::copy(&detect.marker_files);
    let ghost files = read_files(detect@);
    let mut i: usize = 0;
    while i < detect.content.len()
        invariant
            i <= detect.content.len(),
            files == read_files(detect@),
            known.deep_view() =~= detect@.marker_files + files.take(i as int),
        decreases detect.content.len() - i,
    {
        let ghost before = known.deep_view();
        known.push(detect.content[i].file.clone());
        assert(known.deep_view() =~= before.push(files[i as int]));
        i += 1;
    }
    assert(files.take(i as int) =~= files);
    if let Some(f) = find_new(&r.marker_files, &known) {
        return Some(RuleRow::HasFile(f));
    }
    if r.package_json_deps.len() > 0 {
        assert(r@.package_json_deps[0] == r.package_json_deps[0]@);
        return Some(
            RuleRow::Contains {
                file: crate::text::owned("package.json"),
                word: r.package_json_deps[0].clone(),
            },
        );
    }
    None
}

/// The repos outside `matched`, each with one rule that would catch it, if its
/// signals give one.
pub fn near_misses(detect: &Detect, repos: &Vec<RepoSignal>, matched: &Vec<String>) -> (r: Vec<
    NearMiss,
>)
    ensures
        r.deep_view() == nearby(detect@, repos.deep_view(), matched.deep_view()),
{
    let mut out: Vec<NearMiss> = Vec::new();
    let ghost all = repos.deep_view();
    assert(out.deep_view() =~= Seq::<NearV>::empty());
    let mut i: usize = 0;
    while i < repos.len()
        invariant
            i <= repos.len(),
            all == repos.deep_view(),
            out.deep_view() == nearby(detect@, all.take(i as int), matched.deep_view()),
        decreases repos.len() - i,
    {
        let ghost before = out.deep_view();
        proof {
            let t = all.take(i + 1);
            assert(t.drop_last() =~= all.take(i as int));
            assert(t.last() == all[i as int]);
            assert(all[i as int] == repos[i as int]@);
        }
        if !list::contains(matched, repos[i].path.as_str()) {
            let m = NearMiss {
                path: repos[i].path.clone(),
                suggestion: suggest_rule(detect, &repos[i]),
            };
            let ghost mv = m.deep_view();
            out.push(m);
            assert(out.deep_view() =~= before.push(mv));
        }
        i += 1;
    }
    assert(all.take(i as int) =~= all);
    out
}

/// The atoms that a rule set asks about, in the order in which rules are tried.
pub open spec fn atoms_of(d: DetectV) -> Seq<Seq<char>> {
    d.marker_files.map_values(|f: Seq<char>| file_atom(f)) + d.marker_globs.map_values(
        |g: Seq<char>| glob_atom(g),
    ) + d.content.map_values(|c: ContentV| content_atom(c.file, c.word))
        + d.package_json_deps.map_values(|p: Seq<char>| dep_atom(p)) + d.deps_keywords.map_values(
        |k: Seq<char>| keyword_atom(k),
    )
}

/// Whether some repo was never asked about `atom`.
pub open spec fn unasked(repos: Seq<SignalV>, atom: Seq<char>) -> bool {
    exists|i: int| 0 <= i < repos.len() && !(#[trigger] repos[i]).rule_hits.contains_key(atom)
}

/// The atoms of `atoms` that some repo was never asked about, none twice.
pub open spec fn unasked_of(repos: Seq<SignalV>, atoms: Seq<Seq<char>>) -> Seq<Seq<char>>
    decreases atoms.len(),
{
    if atoms.len() == 0 {
        Seq::empty()
    } else {
        let before = unasked_of(repos, atoms.drop_last());
        if unasked(repos, atoms.last()) {
            with_key(before, atoms.last())
        } else {
            before
        }
    }
}

/// The atoms of a rule set that still have to be indexed.
pub open spec fn pending_atoms(d: DetectV, repos: Seq<SignalV>) -> Seq<Seq<char>> {
    unasked_of(repos, atoms_of(d))
}

fn note_unasked(out: &mut Vec<String>, repos: &Vec<RepoSignal>, atom: &str)
    ensures
        final(out).deep_view() == if unasked(repos.deep_view(), atom@) {
            with_key(old(out).deep_view(), atom@)
        } else {
            old(out).deep_view()
        },
{
    let ghost all = repos.deep_view();
    let mut i: usize = 0;
    while i < repos.len()
        invariant
            i <= repos.len(),
            all == repos.deep_view(),
            out.deep_view() == old(out).deep_view(),
            forall|j: int| 0 <= j < i ==> (#[trigger] all[j]).rule_hits.contains_key(atom@),
        decreases repos.len() - i,
    {
        assert(all[i as int] == repos[i as int]@);
        if !repos[i].rule_hits.contains_key(atom) {
            list::add_missing(out, atom);
            return;
        }
        i += 1;
    }
}

fn all_atoms(d: &Detect) -> (r: Vec<String>)
    ensures
        r.deep_view() == atoms_of(d@),
{
    let mut out: Vec<String> = Vec::new();
    let ghost part = d@.marker_files.map_values(|f: Seq<char>| file_atom(f));
    assert(out.deep_view() =~= Seq::<Seq<char>>::empty());
    let mut i: usize = 0;
    while i < d.marker_files.len()
        invariant
            i <= d.marker_files.len(),
            part == d@.marker_files.map_values(|f: Seq<char>| file_atom(f)),
            out.deep_view() =~= part.take(i as int),
        decreases d.marker_files.len() - i,
    {
        let ghost before = out.deep_view();
        out.push(atom_file(d.marker_files[i].as_str()));
        assert(out.deep_view() =~= before.push(part[i as int]));
        i += 1;
    }
    assert(part.take(i as int) =~= part);
    let ghost base = out.deep_view();
    let ghost part = d@.marker_globs.map_values(|g: Seq<char>| glob_atom(g));
    let mut i: usize = 0;
    while i < d.marker_globs.len()
        invariant
            i <= d.marker_globs.len(),
            part == d@.marker_globs.map_values(|g: Seq<char>| glob_atom(g)),
            out.deep_view() =~= base + part.take(i as int),
        decreases d.marker_globs.len() - i,
    {
        let ghost before = out.deep_view();
        out.push(atom_glob(d.marker_globs[i].as_str()));
        assert(out.deep_view() =~= before.push(part[i as int]));
        i += 1;
    }
    assert(part.take(i as int) =~= part);
    let ghost base = out.deep_view();
    let ghost part = d@.content.map_values(|c: ContentV| content_atom(c.file, c.word));
    let mut i: usize = 0;
    while i < d.content.len()
        invariant
            i <= d.content.len(),
            part == d@.content.map_values(|c: ContentV| content_atom(c.file, c.word)),
            out.deep_view() =~= base + part.take(i as int),
        decreases d.content.len() - i,
    {
        let ghost before = out.deep_view();
        out.push(atom_content(d.content[i].file.as_str(), d.content[i].word.as_str()));
        assert(out.deep_view() =~= before.push(part[i as int]));
        i += 1;
    }
    assert(part.take(i as int) =~= part);
    let ghost base = out.deep_view();
    let ghost part = d@.package_json_deps.map_values(|p: Seq<char>| dep_atom(p));
    let mut i: usize = 0;
    while i < d.package_json_deps.len()
        invariant
            i <= d.package_json_deps.len(),
            part == d@.package_json_deps.map_values(|p: Seq<char>| dep_atom(p)),
            out.deep_view() =~= base + part.take(i as int),
        decreases d.package_json_deps.len() - i,
    {
        let ghost before = out.deep_view();
        out.push(atom_dep(d.package_json_deps[i].as_str()));
        assert(out.deep_view() =~= before.push(part[i as int]));
        i += 1;
    }
    assert(part.take(i as int) =~= part);
    let ghost base = out.deep_view();
    let ghost part = d@.deps_keywords.map_values(|k: Seq<char>| keyword_atom(k));
    let mut i: usize = 0;
    while i < d.deps_keywords.len()
        invariant
            i <= d.deps_keywords.len(),
            part == d@.deps_keywords.map_values(|k: Seq<char>| keyword_atom(k)),
            out.deep_view() =~= base + part.take(i as int),
        decreases d.deps_keywords.len() - i,
    {
        let ghost before = out.deep_view();
        out.push(atom_keyword(d.deps_keywords[i].as_str()));
        assert(out.deep_view() =~= before.push(part[i as int]));
        i += 1;
    }
    assert(part.take(i as int) =~= part);
    assert(out.deep_view() =~= atoms_of(d@));
    out
}

fn unindexed(d: &Detect, repos: &Vec<RepoSignal>) -> (r: Vec<String>)
    ensures
        r.deep_view() == pending_atoms(d@, repos.deep_view()),
{
    let atoms = all_atoms(d);
    let ghost all = atoms.deep_view();
    let mut out: Vec<String> = Vec::new();
    assert(out.deep_view() =~= Seq::<Seq<char>>::empty());
    let mut i: usize = 0;
    while i < atoms.len()
        invariant
            i <= atoms.len(),
            all == atoms.deep_view(),
            out.deep_view() == unasked_of(repos.deep_view(), all.take(i as int)),
        decreases atoms.len() - i,
    {
        proof {
            let t = all.take(i + 1);
            assert(t.drop_last() =~= all.take(i as int));
            assert(t.last() == all[i as int]);
        }
        note_unasked(&mut out, repos, atoms[i].as_str());
        i += 1;
    }
    assert(all.take(i as int) =~= all);
    out
}

fn any_unanswered(d: &Detect, repos: &Vec<RepoSignal>) -> (r: bool)
    ensures
        r == unanswered(d@, repos.deep_view()),
{
    let ghost all = repos.deep_view();
    let mut i: usize = 0;
    while i < repos.len()
        invariant
            i <= repos.len(),
            all == repos.deep_view(),
            forall|j: int| 0 <= j < i ==> !(answer(#[trigger] all[j], d@) is Unknown),
        decreases repos.len() - i,
    {
        assert(all[i as int] == repos[i as int]@);
        match detect_answer(&repos[i], d) {
            ProfileAnswer::Unknown => {
                return true;
            },
            _ => {},
        }
        i += 1;
    }
    false
}

/// The repos that the rules classify.
pub fn without_overrides(repos: &Vec<RepoSignal>) -> (r: Vec<RepoSignal>)
    ensures
        r.deep_view() == classified(repos.deep_view()),
{
    let mut out: Vec<RepoSignal> = Vec::new();
    let ghost p = |r: SignalV| r.override_names is None;
    let ghost all = repos.deep_view();
    proof {
        list::lemma_filter_empty::<SignalV>(p);
        assert(all.take(0) =~= Seq::<SignalV>::empty());
        assert(out.deep_view() =~= Seq::<SignalV>::empty());
    }
    let mut i: usize = 0;
    while i < repos.len()
        invariant
            i <= repos.len(),
            all == repos.deep_view(),
            p == (|r: SignalV| r.override_names is None),
            out.deep_view() == all.take(i as int).filter(p),
        decreases repos.len() - i,
    {
        let ghost before = out.deep_view();
        proof {
            list::lemma_filter_push(all.take(i as int), all[i as int], p);
            assert(all.take(i as int).push(all[i as int]) =~= all.take(i + 1));
            assert(all[i as int] == repos[i as int]@);
        }
        if repos[i].override_names.is_none() {
            let c = repos[i].clone();
            out.push(c);
            assert(out.deep_view() =~= before.push(all[i as int]));
        }
        i += 1;
    }
    assert(all.take(i as int) =~= all);
    out
}

/// The kind of rule being built.
#[derive(Clone, Copy, Debug, PartialEq, Eq, Structural)]
pub enum EditorKind {
    PathUnder,
    HasFile,
    HasAny,
    Contains,
}

/// Number of kinds to pick from.
pub const KIND_COUNT: usize = 4;

/// The kinds in the order in which they are offered.
pub open spec fn kind_at(i: int) -> EditorKind {
    if i == 0 {
        EditorKind::PathUnder
    } else if i == 1 {
        EditorKind::HasFile
    } else if i == 2 {
        EditorKind::HasAny
    } else {
        EditorKind::Contains
    }
}

/// The `i`-th kind offered.
pub fn kind_of(i: usize) -> (r: EditorKind)
    ensures
        r == kind_at(i as int),
{
    match i {
        0 => EditorKind::PathUnder,
        1 => EditorKind::HasFile,
        2 => EditorKind::HasAny,
        _ => EditorKind::Contains,
    }
}

/// The builder for a rule: pick a kind, then enter its value or values.
#[derive(Debug)]
pub struct RuleEditor {
    pub kind: Option<EditorKind>,
    pub pick_cursor: usize,
    pub file: TextInput,
    /// The second input; `contains` rules alone have one.
    pub word: Option<TextInput>,
    pub focus_word: bool,
    /// The row being edited; none when adding.
    pub editing: Option<usize>,
    /// How many repos the rules would match with this one, once it has a value.
    pub live_count: Option<usize>,
    /// What would complete the path being typed.
    pub suggestion: Option<String>,
}

/// The contents of a builder.
#[verifier::ext_equal]
pub struct EditorV {
    pub kind: Option<EditorKind>,
    pub pick_cursor: int,
    pub file: InputV,
    pub word: Option<InputV>,
    pub focus_word: bool,
    pub editing: Option<usize>,
    pub live_count: Option<usize>,
    pub suggestion: Option<Seq<char>>,
}

/// The contents of an optional input.
pub open spec fn input_of(o: Option<TextInput>) -> Option<InputV> {
    match o {
        Some(t) => Some(t@),
        None => None,
    }
}

impl View for RuleEditor {
    type V = EditorV;

    open spec fn view(&self) -> EditorV {
        EditorV {
            kind: self.kind,
            pick_cursor: self.pick_cursor as int,
            file: self.file@,
            word: input_of(self.word),
            focus_word: self.focus_word,
            editing: self.editing,
            live_count: self.live_count,
            suggestion: text_of(self.suggestion),
        }
    }
}

impl EditorV {
    /// A builder as it opens.
    pub open spec fn fresh() -> EditorV {
        EditorV {
            kind: None,
            pick_cursor: 0,
            file: InputV::of(Seq::empty()),
            word: None,
            focus_word: false,
            editing: None,
            live_count: None,
            suggestion: None,
        }
    }

    /// A builder that edits the rule at row `i`.
    pub open spec fn editing_row(row: RowV, i: usize) -> EditorV {
        match row {
            RowV::PathUnder(s) => EditorV {
                kind: Some(EditorKind::PathUnder),
                file: InputV::of(s),
                editing: Some(i),
                ..EditorV::fresh()
            },
            RowV::HasFile(s) => EditorV {
                kind: Some(EditorKind::HasFile),
                file: InputV::of(s),
                editing: Some(i),
                ..EditorV::fresh()
            },
            RowV::HasAny(s) => EditorV {
                kind: Some(EditorKind::HasAny),
                file: InputV::of(s),
                editing: Some(i),
                ..EditorV::fresh()
            },
            RowV::Contains { file, word } => EditorV {
                kind: Some(EditorKind::Contains),
                file: InputV::of(file),
                word: Some(InputV::of(word)),
                editing: Some(i),
                ..EditorV::fresh()
            },
            RowV::Legacy(_) => EditorV::fresh(),
        }
    }

    /// The kind cursor is on a kind.
    pub open spec fn ok(self) -> bool {
        0 <= self.pick_cursor < KIND_COUNT
    }

    /// The rule as typed so far, once every value it needs is there. Values are trimmed.
    pub open spec fn draft(self) -> Option<RowV> {
        let file = trimmed(self.file.chars);
        let word = match self.word {
            Some(w) => trimmed(w.chars),
            None => Seq::empty(),
        };
        match self.kind {
            None => None,
            Some(kind) => if file.len() == 0 {
                None
            } else {
                match kind {
                    EditorKind::PathUnder => Some(RowV::PathUnder(file)),
                    EditorKind::HasFile => Some(RowV::HasFile(file)),
                    EditorKind::HasAny => Some(RowV::HasAny(file)),
                    EditorKind::Contains => if word.len() == 0 {
                        None
                    } else {
                        Some(RowV::Contains { file, word })
                    },
                }
            },
        }
    }

    /// The rules with the draft in place: it replaces the row being edited.
    pub open spec fn applied(self, d: DetectV, row: RowV) -> DetectV {
        added(
            match self.editing {
                Some(i) => removed(d, i as int),
                None => d,
            },
            row,
        )
    }

    /// How many repos the rules with the draft match.
    pub open spec fn count(self, d: DetectV, repos: Seq<SignalV>) -> Option<usize> {
        match self.draft() {
            Some(row) => Some(matching(self.applied(d, row), repos).len() as usize),
            None => None,
        }
    }

    /// The builder after a key in the kind list; none when it closes.
    pub open spec fn after_pick(self, code: KeyCode) -> Option<EditorV> {
        if is_down(code) {
            Some(EditorV { pick_cursor: next_in(self.pick_cursor, KIND_COUNT as int), ..self })
        } else if is_up(code) {
            Some(EditorV { pick_cursor: prev_in(self.pick_cursor, KIND_COUNT as int), ..self })
        } else if code == KeyCode::Enter {
            let k = kind_at(self.pick_cursor);
            Some(
                EditorV {
                    kind: Some(k),
                    word: if k == EditorKind::Contains {
                        Some(InputV::of(Seq::empty()))
                    } else {
                        self.word
                    },
                    ..self
                },
            )
        } else if code == KeyCode::Esc {
            None
        } else {
            Some(self)
        }
    }

    /// Whether a key accepts the completion on offer.
    pub open spec fn accepts(self, code: KeyCode) -> bool {
        code == KeyCode::Right && self.kind == Some(EditorKind::PathUnder) && self.file.cursor
            == self.file.chars.len() && self.suggestion is Some
    }

    /// The builder's inputs after a key that neither commits nor cancels.
    pub open spec fn after_type(self, code: KeyCode) -> EditorV {
        if code == KeyCode::Tab && self.word is Some {
            EditorV { focus_word: !self.focus_word, ..self }
        } else if self.accepts(code) {
            EditorV { file: InputV::of(self.file.chars + self.suggestion->0), ..self }
        } else if self.focus_word {
            match self.word {
                Some(w) => EditorV { word: Some(w.after(code)), ..self },
                None => self,
            }
        } else {
            EditorV { file: self.file.after(code), ..self }
        }
    }

    /// The builder after a key that neither commits nor cancels: the live count
    /// follows the new value, and any completion has to be offered anew.
    pub open spec fn after_value(self, code: KeyCode, d: DetectV, repos: Seq<SignalV>) -> EditorV {
        let typed = self.after_type(code);
        EditorV { live_count: typed.count(d, repos), suggestion: None, ..typed }
    }
}

impl Default for RuleEditor {
    fn default() -> (r: RuleEditor)
        ensures
            r@ == EditorV::fresh(),
    {
        proof {
            reveal_strlit("");
            assert(""@ =~= Seq::<char>::empty());
        }
        RuleEditor {
            kind: None,
            pick_cursor: 0,
            file: TextInput::new(""),
            word: None,
            focus_word: false,
            editing: None,
            live_count: None,
            suggestion: None,
        }
    }
}

/// A builder pre-filled to edit the rule at row `index`.
pub fn editor_for(row: &RuleRow, index: usize) -> (r: RuleEditor)
    ensures
        r@ == EditorV::editing_row(row@, index),
{
    let mut ed = RuleEditor::default();
    match row {
        RuleRow::PathUnder(s) => {
            ed.kind = Some(EditorKind::PathUnder);
            ed.file = TextInput::new(s.as_str());
            ed.editing = Some(index);
        },
        RuleRow::HasFile(s) => {
            ed.kind = Some(EditorKind::HasFile);
            ed.file = TextInput::new(s.as_str());
            ed.editing = Some(index);
        },
        RuleRow::HasAny(s) => {
            ed.kind = Some(EditorKind::HasAny);
            ed.file = TextInput::new(s.as_str());
            ed.editing = Some(index);
        },
        RuleRow::Contains { file, word } => {
            ed.kind = Some(EditorKind::Contains);
            ed.file = TextInput::new(file.as_str());
            ed.word = Some(TextInput::new(word.as_str()));
            ed.editing = Some(index);
        },
        RuleRow::Legacy(_) => {},
    }
    ed
}

impl RuleEditor {
    /// The rule as typed so far, once every value it needs is there.
    pub fn draft(&self) -> (r: Option<RuleRow>)
        ensures
            row_of(r) == self@.draft(),
    {
        let kind = match self.kind {
            Some(k) => k,
            None => {
                return None;
            },
        };
        let file = trim(self.file.value().as_str());
        if file.as_str().is_empty() {
            return None;
        }
        match kind {
            EditorKind::PathUnder => Some(RuleRow::PathUnder(file)),
            EditorKind::HasFile => Some(RuleRow::HasFile(file)),
            EditorKind::HasAny => Some(RuleRow::HasAny(file)),
            EditorKind::Contains => {
                let word = match &self.word {
                    Some(w) => trim(w.value().as_str()),
                    None => String::new(),
                };
                if word.as_str().is_empty() {
                    return None;
                }
                Some(RuleRow::Contains { file, word })
            },
        }
    }

    fn applied(&self, d: &Detect, row: RuleRow) -> (r: Detect)
        ensures
            r@ == self@.applied(d@, row@),
    {
        let mut scratch = d.clone();
        if let Some(i) = self.editing {
            remove_at(&mut scratch, i);
        }
        add_rule(&mut scratch, row);
        scratch
    }

    fn after_type(&mut self, key: KeyEvent)
        ensures
            final(self)@ == old(self)@.after_type(key.code),
            final(self).pick_cursor == old(self).pick_cursor,
    {
        if key.code == KeyCode::Tab && self.word.is_some() {
            self.focus_word = !self.focus_word;
            return;
        }
        if key.code == KeyCode::Right && self.file.at_end() {
            let path = match self.kind {
                Some(EditorKind::PathUnder) => true,
                _ => false,
            };
            if path {
                if let Some(s) = &self.suggestion {
                    let val = join2(self.file.value().as_str(), s.as_str());
                    self.file = TextInput::new(val.as_str());
                    return;
                }
            }
        }
        if self.focus_word {
            match self.word.take() {
                Some(w) => {
                    let mut w = w;
                    w.handle_key(key);
                    self.word = Some(w);
                },
                None => {},
            }
        } else {
            self.file.handle_key(key);
        }
    }
}

/// How many repos the builder's draft, on top of the rules, would match. Nothing
/// until the draft has every value it needs. The draft replaces the rule being edited.
pub fn scratch_count(detect: &Detect, ed: &RuleEditor, repos: &Vec<RepoSignal>) -> (r: Option<
    usize,
>)
    ensures
        r == ed@.count(detect@, repos.deep_view()),
{
    match ed.draft() {
        Some(row) => {
            let scratch = ed.applied(detect, row);
            let ms = matching_repos(&scratch, repos);
            assert(ms.len() == ms.deep_view().len());
            Some(ms.len())
        },
        None => None,
    }
}

/// The picker of a repo to take rules from.
#[derive(Debug)]
pub struct RepoPick {
    pub repos: Vec<String>,
    pub cursor: usize,
}

/// The contents of a repo picker.
#[verifier::ext_equal]
pub struct PickV {
    pub repos: Seq<Seq<char>>,
    pub cursor: int,
}

impl PickV {
    /// The cursor is on a repo, or in the empty list's place.
    pub open spec fn ok(self) -> bool {
        &&& 0 <= self.cursor
        &&& self.cursor < self.repos.len() || self.cursor == 0
    }
}

impl View for RepoPick {
    type V = PickV;

    open spec fn view(&self) -> PickV {
        PickV { repos: self.repos.deep_view(), cursor: self.cursor as int }
    }
}

/// What the rules match now.
#[verifier::ext_equal]
pub struct PreviewV {
    /// The repos the rules classify.
    pub live: Seq<SignalV>,
    pub matched: Seq<MatchV>,
    pub near: Seq<NearV>,
    /// Some repo has no answer yet.
    pub undecided: bool,
    /// The atoms that still have to be indexed.
    pub pending: Seq<Seq<char>>,
}

/// The preview of rules `d` over the scanned repos.
pub open spec fn preview(d: DetectV, repos: Seq<SignalV>) -> PreviewV {
    let live = classified(repos);
    let matched = matching(d, live);
    PreviewV {
        live,
        matched,
        near: nearby(d, live, match_paths(matched)),
        undecided: unanswered(d, live),
        pending: pending_atoms(d, live),
    }
}

/// The paths of a list of near misses.
pub open spec fn near_paths(ns: Seq<NearV>) -> Seq<Seq<char>> {
    ns.map_values(|n: NearV| n.path)
}

/// Whether repos with one path are answered alike: all of them match, or none does.
pub open spec fn answers_agree(d: DetectV, repos: Seq<SignalV>) -> bool {
    forall|i: int, j: int|
        0 <= i < repos.len() && 0 <= j < repos.len() && (#[trigger] repos[i]).path == (
        #[trigger] repos[j]).path ==> (answer(repos[i], d) is Match) == (answer(
            repos[j],
            d,
        ) is Match)
}

/// The preview splits the repos that rules classify into matches and near misses: each
/// path is in just one of the two lists, and they have an entry for every repo just when
/// repos with one path are answered alike. Where the paths are distinct, each repo is
/// listed once. A repo with an override of its own is in neither list, and not counted.
pub proof fn preview_splits_the_repos(d: DetectV, repos: Seq<SignalV>)
    ensures
        ({
            let p = preview(d, repos);
            let matched = match_paths(p.matched);
            let near = near_paths(p.near);
            &&& p.matched == matching(d, p.live)
            &&& forall|x: Seq<char>| #[trigger]
                repo_paths(p.live).contains(x) <==> matched.contains(x) || near.contains(x)
            &&& forall|x: Seq<char>| !(#[trigger] matched.contains(x) && near.contains(x))
            &&& matched.len() + near.len() == p.live.len() <==> answers_agree(d, p.live)
            &&& repo_paths(p.live).no_duplicates() ==> {
                &&& matched.len() + near.len() == p.live.len()
                &&& matched.no_duplicates()
                &&& near.no_duplicates()
            }
            &&& forall|r: SignalV| #[trigger]
                p.live.contains(r) <==> repos.contains(r) && r.override_names is None
        }),
{
    let p = |r: SignalV| r.override_names is None;
    let live = classified(repos);
    let paths = repo_paths(live);
    list::lemma_filter_contains(repos, p);
    lemma_matched_paths(d, live);
    let matched = match_paths(matching(d, live));
    assert forall|i: int| 0 <= i < live.len() && answer(#[trigger] live[i], d) is Match implies
        matched.contains(live[i].path) by {
        assert(is_match_at(d, live, i, live[i].path));
    }
    lemma_split(d, live, matched);
    assert(decides(d, live, matched) <==> answers_agree(d, live)) by {
        if answers_agree(d, live) {
            assert forall|i: int| 0 <= i < live.len() && matched.contains(
                (#[trigger] live[i]).path,
            ) implies answer(live[i], d) is Match by {
                let k = choose|k: int| is_match_at(d, live, k, live[i].path);
                assert(live[k].path == live[i].path);
            }
        }
    }
    if paths.no_duplicates() {
        assert forall|i: int, j: int|
            0 <= i < live.len() && 0 <= j < live.len() && (#[trigger] live[i]).path == (
            #[trigger] live[j]).path implies i == j by {
            assert(paths[i] == paths[j]);
        }
    }
}

/// Whether a repo matches just when its path is among `matched`.
spec fn decides(d: DetectV, s: Seq<SignalV>, matched: Seq<Seq<char>>) -> bool {
    forall|i: int|
        0 <= i < s.len() && matched.contains((#[trigger] s[i]).path) ==> answer(s[i], d) is Match
}

/// Whether the repo at `i` has this path and matches.
spec fn is_match_at(d: DetectV, s: Seq<SignalV>, i: int, path: Seq<char>) -> bool {
    0 <= i < s.len() && s[i].path == path && answer(s[i], d) is Match
}

/// What is pushed onto a list without duplicates was not in it.
proof fn lemma_push_distinct(s: Seq<Seq<char>>, x: Seq<char>)
    requires
        s.push(x).no_duplicates(),
    ensures
        s.no_duplicates(),
        !s.contains(x),
{
    let t = s.push(x);
    assert forall|i: int, j: int| 0 <= i < s.len() && 0 <= j < s.len() && i != j implies s[i]
        != s[j] by {
        assert(t[i] != t[j]);
    }
    if s.contains(x) {
        let i = choose|i: int| 0 <= i < s.len() && s[i] == x;
        assert(t[i] == t[s.len() as int]);
    }
}

/// What is not in a list without duplicates may be pushed onto it.
proof fn lemma_new_is_distinct(s: Seq<Seq<char>>, x: Seq<char>)
    requires
        s.no_duplicates(),
        !s.contains(x),
    ensures
        s.push(x).no_duplicates(),
{
    let t = s.push(x);
    assert forall|i: int, j: int| 0 <= i < t.len() && 0 <= j < t.len() && i != j implies t[i]
        != t[j] by {
        if i == s.len() {
            assert(s.contains(s[j]));
        } else if j == s.len() {
            assert(s.contains(s[i]));
        }
    }
}

proof fn lemma_matched_paths(d: DetectV, s: Seq<SignalV>)
    ensures
        forall|x: Seq<char>| #[trigger]
            match_paths(matching(d, s)).contains(x) <==> exists|i: int| is_match_at(d, s, i, x),
    decreases s.len(),
{
    let all = match_paths(matching(d, s));
    if s.len() > 0 {
        let t = s.drop_last();
        let r = s.last();
        let before = match_paths(matching(d, t));
        lemma_matched_paths(d, t);
        if answer(r, d) is Match {
            assert(all =~= before.push(r.path));
            list::lemma_push_contains(before, r.path);
        }
        assert forall|x: Seq<char>| #[trigger] all.contains(x) <==> exists|i: int|
            is_match_at(d, s, i, x) by {
            if before.contains(x) {
                let i = choose|i: int| is_match_at(d, t, i, x);
                assert(is_match_at(d, s, i, x));
            }
            if answer(r, d) is Match && x == r.path {
                assert(is_match_at(d, s, s.len() - 1, x));
            }
            if exists|i: int| is_match_at(d, s, i, x) {
                let i = choose|i: int| is_match_at(d, s, i, x);
                if i < t.len() {
                    assert(is_match_at(d, t, i, x));
                }
            }
        }
    }
}

/// Where `matched` holds the paths of the repos that match, matches and near misses have
/// the paths of all repos. They have an entry for each where a path outside the matches
/// stands for repos that do not match.
proof fn lemma_split(d: DetectV, s: Seq<SignalV>, matched: Seq<Seq<char>>)
    requires
        forall|i: int|
            0 <= i < s.len() && answer(#[trigger] s[i], d) is Match ==> matched.contains(
                s[i].path,
            ),
    ensures
        ({
            let a = match_paths(matching(d, s));
            let b = near_paths(nearby(d, s, matched));
            &&& a.len() + b.len() <= s.len()
            &&& a.len() + b.len() == s.len() <==> decides(d, s, matched)
            &&& repo_paths(s).no_duplicates() ==> a.no_duplicates() && b.no_duplicates()
            &&& forall|x: Seq<char>| #[trigger] a.contains(x) ==> repo_paths(s).contains(x)
            &&& forall|x: Seq<char>| #[trigger]
                b.contains(x) <==> repo_paths(s).contains(x) && !matched.contains(x)
        }),
    decreases s.len(),
{
    let a = match_paths(matching(d, s));
    let b = near_paths(nearby(d, s, matched));
    if s.len() > 0 {
        let t = s.drop_last();
        let r = s.last();
        let x = r.path;
        let at = match_paths(matching(d, t));
        let bt = near_paths(nearby(d, t, matched));
        assert(repo_paths(s) =~= repo_paths(t).push(x));
        list::lemma_push_contains(repo_paths(t), x);
        assert forall|i: int| 0 <= i < t.len() && answer(#[trigger] t[i], d) is Match implies
            matched.contains(t[i].path) by {
            assert(t[i] == s[i]);
        }
        lemma_split(d, t, matched);
        assert(s[s.len() - 1] == r);
        assert(decides(d, s, matched) <==> decides(d, t, matched) && (matched.contains(x)
            ==> answer(r, d) is Match)) by {
            if decides(d, s, matched) {
                assert forall|i: int| 0 <= i < t.len() && matched.contains(
                    (#[trigger] t[i]).path,
                ) implies answer(t[i], d) is Match by {
                    assert(t[i] == s[i]);
                }
            }
            if decides(d, t, matched) {
                assert forall|i: int| 0 <= i < t.len() && matched.contains(
                    (#[trigger] s[i]).path,
                ) implies answer(s[i], d) is Match by {
                    assert(t[i] == s[i]);
                }
            }
        }
        if answer(r, d) is Match {
            assert(a =~= at.push(x));
            list::lemma_push_contains(at, x);
        }
        if !matched.contains(x) {
            assert(b =~= bt.push(x));
            list::lemma_push_contains(bt, x);
        }
        if repo_paths(s).no_duplicates() {
            lemma_push_distinct(repo_paths(t), x);
            if answer(r, d) is Match {
                lemma_new_is_distinct(at, x);
            }
            if !matched.contains(x) {
                lemma_new_is_distinct(bt, x);
            }
        }
    }
}

/// The editor of one profile's rules: the rules, the selected row, the builder or
/// picker if one is open, and the preview.
#[derive(Debug)]
pub struct RulesState {
    pub detect: Detect,
    pub cursor: usize,
    pub editor: Option<RuleEditor>,
    pub repo_pick: Option<RepoPick>,
    pub matched: Vec<Match>,
    pub near: Vec<NearMiss>,
    pub total_repos: usize,
    pub live_owned: Vec<RepoSignal>,
    pub undecided: bool,
    pub pending: Vec<String>,
    /// Atoms that a commit has just made necessary, for the owner to collect.
    pub wants_index: Vec<String>,
    /// Whether an index job is under way.
    pub indexing: bool,
}

/// The contents of a rules editor.
#[verifier::ext_equal]
pub struct RulesV {
    pub detect: DetectV,
    pub cursor: int,
    pub editor: Option<EditorV>,
    pub pick: Option<PickV>,
    pub preview: PreviewV,
    pub wants_index: Seq<Seq<char>>,
    pub indexing: bool,
}

/// The contents of an optional builder.
pub open spec fn editor_of(o: Option<RuleEditor>) -> Option<EditorV> {
    match o {
        Some(e) => Some(e@),
        None => None,
    }
}

/// The contents of an optional picker.
pub open spec fn pick_of(o: Option<RepoPick>) -> Option<PickV> {
    match o {
        Some(p) => Some(p@),
        None => None,
    }
}

impl View for RulesState {
    type V = RulesV;

    open spec fn view(&self) -> RulesV {
        RulesV {
            detect: self.detect@,
            cursor: self.cursor as int,
            editor: editor_of(self.editor),
            pick: pick_of(self.repo_pick),
            preview: PreviewV {
                live: self.live_owned.deep_view(),
                matched: self.matched.deep_view(),
                near: self.near.deep_view(),
                undecided: self.undecided,
                pending: self.pending.deep_view(),
            },
            wants_index: self.wants_index.deep_view(),
            indexing: self.indexing,
        }
    }
}

/// The last row that shows `row`.
pub open spec fn last_row(rows: Seq<RowV>, row: RowV) -> Option<int>
    decreases rows.len(),
{
    if rows.len() == 0 {
        None
    } else if rows.last() == row {
        Some(rows.len() - 1)
    } else {
        last_row(rows.drop_last(), row)
    }
}

/// The rules with those of `more` added that `existing` does not show.
pub open spec fn with_rows(d: DetectV, existing: Seq<RowV>, more: Seq<RowV>) -> DetectV
    decreases more.len(),
{
    if more.len() == 0 {
        d
    } else {
        let before = with_rows(d, existing, more.drop_last());
        if existing.contains(more.last()) {
            before
        } else {
            added(before, more.last())
        }
    }
}

impl RulesV {
    /// An editor as it opens on `d`.
    pub open spec fn opened(d: DetectV, repos: Seq<SignalV>) -> RulesV {
        RulesV {
            detect: d,
            cursor: 0,
            editor: None,
            pick: None,
            preview: preview(d, repos),
            wants_index: Seq::empty(),
            indexing: false,
        }
    }

    /// An open builder has its kind cursor on a kind, the cursor is on a row or on
    /// the empty list's place, and an open picker has its cursor on a repo.
    pub open spec fn ok(self) -> bool {
        &&& self.editor matches Some(e) ==> e.ok()
        &&& self.pick matches Some(p) ==> p.ok()
        &&& 0 <= self.cursor
        &&& flat(self.detect).len() == 0 || self.cursor < flat(self.detect).len()
        &&& flat(self.detect).len() == 0 ==> self.cursor == 0
    }

    /// The editor with new rules: the preview follows, and the atoms that the new
    /// rules have just made necessary are noted.
    pub open spec fn with_rules(self, d: DetectV, repos: Seq<SignalV>) -> RulesV {
        RulesV {
            detect: d,
            preview: preview(d, repos),
            wants_index: self.wants_index + minus(preview(d, repos).pending, self.preview.pending),
            ..self
        }
    }

    /// The editor after committing the builder: it closes, and a complete draft
    /// becomes a rule that the cursor follows.
    pub open spec fn committed(self, ed: EditorV, repos: Seq<SignalV>) -> RulesV {
        let closed = RulesV { editor: None, ..self };
        match ed.draft() {
            Some(row) => {
                let d = ed.applied(self.detect, row);
                RulesV {
                    cursor: match last_row(flat(d), row) {
                        Some(i) => i,
                        None => self.cursor,
                    },
                    ..closed.with_rules(d, repos)
                }
            },
            None => closed,
        }
    }

    /// The editor after a key in the repo picker.
    pub open spec fn after_repo_pick(self, p: PickV, code: KeyCode, repos: Seq<SignalV>) -> RulesV {
        let n = p.repos.len() as int;
        if is_down(code) && n > 0 {
            RulesV { pick: Some(PickV { cursor: next_in(p.cursor, n), ..p }), ..self }
        } else if is_up(code) && n > 0 {
            RulesV { pick: Some(PickV { cursor: prev_in(p.cursor, n), ..p }), ..self }
        } else if code == KeyCode::Esc {
            RulesV { pick: None, ..self }
        } else if code == KeyCode::Enter && p.cursor < n {
            let closed = RulesV { pick: None, ..self };
            if repo_paths(repos).contains(p.repos[p.cursor]) {
                let i = choose|i: int| repo_at(repos, p.repos[p.cursor], i);
                closed.with_rules(
                    with_rows(self.detect, flat(self.detect), derived(repos[i])),
                    repos,
                )
            } else {
                closed
            }
        } else {
            self
        }
    }

    /// The editor after a key in the builder.
    pub open spec fn after_editor(self, ed: EditorV, code: KeyCode, repos: Seq<SignalV>) -> RulesV {
        match ed.kind {
            None => RulesV { editor: ed.after_pick(code), ..self },
            Some(_) => if code == KeyCode::Enter {
                self.committed(ed, repos)
            } else if code == KeyCode::Esc {
                RulesV { editor: None, ..self }
            } else {
                RulesV {
                    editor: Some(ed.after_value(code, self.detect, self.preview.live)),
                    ..self
                }
            },
        }
    }

    /// The editor after a key in the list.
    pub open spec fn after_list(self, code: KeyCode, repos: Seq<SignalV>) -> RulesV {
        let rows = flat(self.detect);
        let n = rows.len() as int;
        let on_editable = self.cursor < n && rows[self.cursor].editable();
        if is_down(code) && n > 0 {
            RulesV { cursor: next_in(self.cursor, n), ..self }
        } else if is_up(code) && n > 0 {
            RulesV { cursor: prev_in(self.cursor, n), ..self }
        } else if code == KeyCode::Char('a') {
            RulesV { editor: Some(EditorV::fresh()), ..self }
        } else if code == KeyCode::Char('e') && on_editable {
            RulesV {
                editor: Some(EditorV::editing_row(rows[self.cursor], self.cursor as usize)),
                ..self
            }
        } else if (code == KeyCode::Char('d') || code == KeyCode::Delete) && on_editable {
            let d = removed(self.detect, self.cursor);
            let m = flat(d).len() as int;
            RulesV {
                detect: d,
                cursor: if m == 0 {
                    0
                } else if self.cursor < m {
                    self.cursor
                } else {
                    m - 1
                },
                preview: preview(d, repos),
                ..self
            }
        } else if code == KeyCode::Char('f') && repos.len() > 0 {
            RulesV { pick: Some(PickV { repos: repo_paths(repos), cursor: 0 }), ..self }
        } else {
            self
        }
    }

    /// The editor after a key: an open picker takes it, then an open builder, then the list.
    pub open spec fn after(self, code: KeyCode, repos: Seq<SignalV>) -> RulesV {
        match self.pick {
            Some(p) => self.after_repo_pick(p, code, repos),
            None => match self.editor {
                Some(ed) => self.after_editor(ed, code, repos),
                None => self.after_list(code, repos),
            },
        }
    }
}

/// Read-only rows survive `d` and Delete, and cannot be opened for editing.
pub proof fn legacy_rows_survive(v: RulesV, code: KeyCode, repos: Seq<SignalV>)
    requires
        v.pick is None,
        v.editor is None,
        0 <= v.cursor < flat(v.detect).len(),
        flat(v.detect)[v.cursor] is Legacy,
        code == KeyCode::Char('d') || code == KeyCode::Delete || code == KeyCode::Char('e'),
    ensures
        v.after(code, repos) == v,
{
}

/// Esc leaves the builder, and leaves the rules alone.
pub proof fn esc_discards_the_draft(v: RulesV, repos: Seq<SignalV>)
    requires
        v.pick is None,
        v.editor is Some,
    ensures
        v.after(KeyCode::Esc, repos) == (RulesV { editor: None, ..v }),
{
}

/// A committed draft is a rule, and the cursor is on it.
pub proof fn cursor_follows_committed_rule(v: RulesV, ed: EditorV, row: RowV, repos: Seq<SignalV>)
    requires
        ed.draft() == Some(row),
    ensures
        ({
            let after = v.committed(ed, repos);
            0 <= after.cursor < flat(after.detect).len() && flat(after.detect)[after.cursor] == row
        }),
{
    let base = match ed.editing {
        Some(i) => removed(v.detect, i as int),
        None => v.detect,
    };
    added_row_is_shown(base, row);
    let rows = flat(added(base, row));
    assert(rows[row_end(base, row)] == row);
    lemma_last_row(rows, row, row_end(base, row));
}

proof fn lemma_last_row(rows: Seq<RowV>, row: RowV, k: int)
    requires
        0 <= k < rows.len(),
        rows[k] == row,
    ensures
        last_row(rows, row) matches Some(i) && 0 <= i < rows.len() && rows[i] == row,
    decreases rows.len(),
{
    if rows.last() != row {
        lemma_last_row(rows.drop_last(), row, k);
    }
}

/// No key takes the editor out of shape.
pub proof fn keys_keep_rules_ok(v: RulesV, code: KeyCode, repos: Seq<SignalV>)
    requires
        v.ok(),
    ensures
        v.after(code, repos).ok(),
{
    match v.pick {
        Some(p) => {
            if p.repos.len() > 0 {
                crate::tui::key::moves_stay_in_range(p.cursor, p.repos.len() as int);
            }
            if code == KeyCode::Enter && p.cursor < p.repos.len() && repo_paths(repos).contains(
                p.repos[p.cursor],
            ) {
                let i = choose|i: int| repo_at(repos, p.repos[p.cursor], i);
                lemma_rows_only_grow(v.detect, flat(v.detect), derived(repos[i]));
            }
        },
        None => match v.editor {
            Some(ed) => {
                crate::tui::key::moves_stay_in_range(ed.pick_cursor, KIND_COUNT as int);
                if ed.kind is Some && code == KeyCode::Enter {
                    if let Some(row) = ed.draft() {
                        cursor_follows_committed_rule(v, ed, row, repos);
                    }
                }
            },
            None => {
                let n = flat(v.detect).len() as int;
                if n > 0 {
                    crate::tui::key::moves_stay_in_range(v.cursor, n);
                    if flat(v.detect)[v.cursor].editable() {
                        remove_at_matches_flatten(v.detect, v.cursor);
                    }
                }
            },
        },
    }
}

proof fn lemma_rows_only_grow(d: DetectV, existing: Seq<RowV>, more: Seq<RowV>)
    ensures
        flat(with_rows(d, existing, more)).len() >= flat(d).len(),
    decreases more.len(),
{
    if more.len() > 0 {
        let before = with_rows(d, existing, more.drop_last());
        lemma_rows_only_grow(d, existing, more.drop_last());
        if !existing.contains(more.last()) && more.last().editable() {
            added_row_is_shown(before, more.last());
        }
    }
}

fn shows(rows: &Vec<RuleRow>, row: &RuleRow) -> (r: bool)
    ensures
        r == rows.deep_view().contains(row@),
{
    let mut i: usize = 0;
    while i < rows.len()
        invariant
            i <= rows.len(),
            forall|j: int| 0 <= j < i ==> (#[trigger] rows.deep_view()[j]) != row@,
        decreases rows.len() - i,
    {
        assert(rows.deep_view()[i as int] == rows[i as int]@);
        if rows[i].equals(row) {
            return true;
        }
        i += 1;
    }
    false
}

fn find_last(rows: &Vec<RuleRow>, row: &RuleRow) -> (r: Option<usize>)
    ensures
        match r {
            Some(i) => last_row(rows.deep_view(), row@) == Some(i as int),
            None => last_row(rows.deep_view(), row@) is None,
        },
{
    let ghost all = rows.deep_view();
    let mut i: usize = rows.len();
    assert(all.take(i as int) =~= all);
    while i > 0
        invariant
            i <= rows.len(),
            all == rows.deep_view(),
            last_row(all, row@) == last_row(all.take(i as int), row@),
        decreases i,
    {
        proof {
            let t = all.take(i as int);
            assert(t.last() == all[i - 1]);
            assert(all[i - 1] == rows[i - 1]@);
            assert(t.drop_last() =~= all.take(i - 1));
        }
        if rows[i - 1].equals(row) {
            return Some(i - 1);
        }
        i -= 1;
    }
    None
}

fn add_rows(d: &mut Detect, existing: &Vec<RuleRow>, more: &Vec<RuleRow>)
    ensures
        final(d)@ == with_rows(old(d)@, existing.deep_view(), more.deep_view()),
{
    let ghost all = more.deep_view();
    let ghost base = d@;
    let mut i: usize = 0;
    while i < more.len()
        invariant
            i <= more.len(),
            all == more.deep_view(),
            d@ == with_rows(base, existing.deep_view(), all.take(i as int)),
        decreases more.len() - i,
    {
        proof {
            let t = all.take(i + 1);
            assert(t.drop_last() =~= all.take(i as int));
            assert(t.last() == all[i as int]);
            assert(all[i as int] == more[i as int]@);
        }
        if !shows(existing, &more[i]) {
            let row = more[i].clone();
            add_rule(d, row);
        }
        i += 1;
    }
    assert(all.take(i as int) =~= all);
}

impl RulesState {
    /// Opens the editor on a profile's rules.
    pub fn open(detect: Detect, inv: &Inventory) -> (r: RulesState)
        ensures
            r@ == RulesV::opened(detect@, inv@.repos),
            r.total_repos == r@.preview.live.len(),
    {
        let mut s = RulesState {
            detect,
            cursor: 0,
            editor: None,
            repo_pick: None,
            matched: Vec::new(),
            near: Vec::new(),
            total_repos: 0,
            live_owned: Vec::new(),
            undecided: false,
            pending: Vec::new(),
            wants_index: Vec::new(),
            indexing: false,
        };
        s.recompute(inv);
        assert(s.wants_index.deep_view() =~= Seq::<Seq<char>>::empty());
        s
    }

    /// Recomputes the preview from the current rules. Repos that carry an override
    /// of their own are left out: rules do not classify them.
    pub fn recompute(&mut self, inv: &Inventory)
        ensures
            final(self)@ == (RulesV {
                preview: preview(old(self)@.detect, inv@.repos),
                ..old(self)@
            }),
            final(self).total_repos == final(self)@.preview.live.len(),
            final(self).detect == old(self).detect,
            final(self).editor == old(self).editor,
            final(self).repo_pick == old(self).repo_pick,
            final(self).wants_index == old(self).wants_index,
    {
        self.live_owned = without_overrides(&inv.repos);
        assert(self.live_owned.len() == self.live_owned.deep_view().len());
        self.total_repos = self.live_owned.len();
        self.matched = matching_repos(&self.detect, &self.live_owned);
        let ghost ms = self.matched.deep_view();
        let mut paths: Vec<String> = Vec::new();
        let mut i: usize = 0;
        while i < self.matched.len()
            invariant
                i <= self.matched.len(),
                ms == self.matched.deep_view(),
                paths@.len() == i,
                forall|j: int| 0 <= j < i ==> (#[trigger] paths[j])@ == ms[j].path,
            decreases self.matched.len() - i,
        {
            paths.push(self.matched[i].path.clone());
            i += 1;
        }
        assert(paths.deep_view() =~= match_paths(ms));
        self.near = near_misses(&self.detect, &self.live_owned, &paths);
        self.undecided = any_unanswered(&self.detect, &self.live_owned);
        self.pending = unindexed(&self.detect, &self.live_owned);
    }

    /// Whether a value is being typed in the builder.
    pub fn editing_text(&self) -> (r: bool)
        ensures
            r == (self@.editor matches Some(e) && e.kind is Some),
    {
        match &self.editor {
            Some(e) => e.kind.is_some(),
            None => false,
        }
    }

    /// Whether the builder is open at all. It owns the keyboard while it is.
    pub fn is_building(&self) -> (r: bool)
        ensures
            r == (self@.editor is Some),
            r == self.editor is Some,
    {
        self.editor.is_some()
    }

    /// Whether the builder is on a path, which can be completed.
    pub fn building_path_under(&self) -> (r: bool)
        ensures
            r == (self@.editor matches Some(e) && e.kind == Some(EditorKind::PathUnder)),
    {
        match &self.editor {
            Some(e) => match e.kind {
                Some(EditorKind::PathUnder) => true,
                _ => false,
            },
            None => false,
        }
    }

    /// Whether the repo picker is open. It owns the keyboard while it is.
    pub fn is_picking(&self) -> (r: bool)
        ensures
            r == (self@.pick is Some),
            r == self.repo_pick is Some,
    {
        self.repo_pick.is_some()
    }

    /// The path being typed, when it can be completed: its directory has to be
    /// listed, and the names handed to `offer_completion`.
    pub fn completion_input(&self) -> (r: Option<String>)
        ensures
            text_of(r) == match self@.editor {
                Some(e) => if e.kind == Some(EditorKind::PathUnder) {
                    Some(e.file.chars)
                } else {
                    None
                },
                None => None,
            },
    {
        match &self.editor {
            Some(e) => match e.kind {
                Some(EditorKind::PathUnder) => Some(e.file.value()),
                _ => None,
            },
            None => None,
        }
    }

    /// Offers the completion that the subdirectories `names` give for the path being typed.
    pub fn offer_completion(&mut self, names: &Vec<String>)
        ensures
            final(self)@ == (RulesV {
                editor: match old(self)@.editor {
                    Some(e) => Some(
                        if e.kind == Some(EditorKind::PathUnder) {
                            EditorV {
                                suggestion: crate::tui::profile::by_plugin::completion(
                                    e.file.chars,
                                    names.deep_view(),
                                ),
                                ..e
                            }
                        } else {
                            e
                        },
                    ),
                    None => None,
                },
                ..old(self)@
            }),
            final(self).total_repos == old(self).total_repos,
    {
        match self.editor.take() {
            Some(e) => {
                let mut ed = e;
                let path = match ed.kind {
                    Some(EditorKind::PathUnder) => true,
                    _ => false,
                };
                if path {
                    let v = ed.file.value();
                    ed.suggestion =
                    crate::tui::profile::by_plugin::dir_suggestion(v.as_str(), names);
                }
                self.editor = Some(ed);
            },
            None => {},
        }
    }

    fn adopt(&mut self, inv: &Inventory)
        ensures
            ({
                let v = old(self)@;
                final(self)@ == v.with_rules(v.detect, inv@.repos)
            }),
            final(self).total_repos == final(self)@.preview.live.len(),
    {
        let before = list::copy(&self.pending);
        self.recompute(inv);
        let fresh = list::difference(&self.pending, &before);
        list::extend(&mut self.wants_index, &fresh);
        assert(self@ =~= old(self)@.with_rules(old(self)@.detect, inv@.repos));
    }

    /// Closes the builder; a complete draft becomes a rule, in place of the one
    /// being edited, and the cursor follows it.
    pub fn commit_editor(&mut self, inv: &Inventory)
        requires
            old(self).total_repos == old(self)@.preview.live.len(),
        ensures
            final(self)@ == match old(self)@.editor {
                Some(ed) => old(self)@.committed(ed, inv@.repos),
                None => old(self)@,
            },
            final(self).total_repos == final(self)@.preview.live.len(),
    {
        let ed = match self.editor.take() {
            Some(ed) => ed,
            None => {
                return;
            },
        };
        let row = match ed.draft() {
            Some(row) => row,
            None => {
                return;
            },
        };
        let ghost base = self@;
        let copy = row.clone();
        self.detect = ed.applied(&self.detect, copy);
        let rows = flatten(&self.detect);
        if let Some(i) = find_last(&rows, &row) {
            self.cursor = i;
        }
        self.adopt(inv);
        assert(self@ =~= old(self)@.committed(ed@, inv@.repos));
    }

    fn pick_key(&mut self, key: KeyEvent, inv: &Inventory)
        requires
            old(self).repo_pick is Some,
            old(self)@.ok(),
            old(self).total_repos == old(self)@.preview.live.len(),
        ensures
            final(self)@ == old(self)@.after_repo_pick(old(self)@.pick->0, key.code, inv@.repos),
            final(self).total_repos == final(self)@.preview.live.len(),
    {
        let ghost before = self@;
        let mut pick = match self.repo_pick.take() {
            Some(p) => p,
            None => {
                return;
            },
        };
        let n: usize = pick.repos.len();
        assert(n == pick@.repos.len());
        match key.code {
            KeyCode::Down | KeyCode::Char('j') => {
                if n > 0 {
                    pick.cursor = down(pick.cursor, n);
                }
                self.repo_pick = Some(pick);
            },
            KeyCode::Up | KeyCode::Char('k') => {
                if n > 0 {
                    pick.cursor = up(pick.cursor, n);
                }
                self.repo_pick = Some(pick);
            },
            KeyCode::Esc => {},
            KeyCode::Enter => {
                if pick.cursor < n {
                    let path = pick.repos[pick.cursor].clone();
                    assert(path@ == pick@.repos[pick@.cursor]);
                    if let Some(i) = find_repo(&inv.repos, path.as_str()) {
                        proof {
                            let c = choose|c: int| repo_at(inv@.repos, path@, c);
                            lemma_repo_at_unique(inv@.repos, path@, c, i as int);
                        }
                        let existing = flatten(&self.detect);
                        let more = derive_rules(&inv.repos[i]);
                        assert(inv@.repos[i as int] == inv.repos[i as int]@);
                        add_rows(&mut self.detect, &existing, &more);
                        self.adopt(inv);
                    }
                } else {
                    self.repo_pick = Some(pick);
                }
            },
            _ => {
                self.repo_pick = Some(pick);
            },
        }
        assert(self@ =~= before.after_repo_pick(before.pick->0, key.code, inv@.repos));
    }

    fn editor_key(&mut self, key: KeyEvent, inv: &Inventory)
        requires
            old(self).editor is Some,
            old(self)@.ok(),
            old(self).total_repos == old(self)@.preview.live.len(),
        ensures
            final(self)@ == old(self)@.after_editor(old(self)@.editor->0, key.code, inv@.repos),
            final(self).total_repos == final(self)@.preview.live.len(),
    {
        let ghost before = self@;
        if key.code == KeyCode::Enter && self.editing_text() {
            self.commit_editor(inv);
            return;
        }
        let mut ed = match self.editor.take() {
            Some(e) => e,
            None => {
                return;
            },
        };
        if ed.kind.is_none() {
            match key.code {
                KeyCode::Down | KeyCode::Char('j') => {
                    ed.pick_cursor = down(ed.pick_cursor, KIND_COUNT);
                    self.editor = Some(ed);
                },
                KeyCode::Up | KeyCode::Char('k') => {
                    ed.pick_cursor = up(ed.pick_cursor, KIND_COUNT);
                    self.editor = Some(ed);
                },
                KeyCode::Enter => {
                    let k = kind_of(ed.pick_cursor);
                    ed.kind = Some(k);
                    if k == EditorKind::Contains {
                        proof {
                            reveal_strlit("");
                            assert(""@ =~= Seq::<char>::empty());
                        }
                        ed.word = Some(TextInput::new(""));
                    }
                    self.editor = Some(ed);
                },
                KeyCode::Esc => {},
                _ => {
                    self.editor = Some(ed);
                },
            }
        } else if key.code != KeyCode::Esc {
            ed.after_type(key);
            ed.live_count = scratch_count(&self.detect, &ed, &self.live_owned);
            ed.suggestion = None;
            self.editor = Some(ed);
        }
        assert(self@ =~= before.after_editor(before.editor->0, key.code, inv@.repos));
    }

    fn list_key(&mut self, key: KeyEvent, inv: &Inventory)
        requires
            old(self).editor is None,
            old(self).repo_pick is None,
            old(self)@.ok(),
            old(self).total_repos == old(self)@.preview.live.len(),
        ensures
            final(self)@ == old(self)@.after_list(key.code, inv@.repos),
            final(self).total_repos == final(self)@.preview.live.len(),
    {
        let ghost before = self@;
        let rows = flatten(&self.detect);
        let n: usize = rows.len();
        assert(n == rows.deep_view().len());
        let on_editable = self.cursor < n && rows[self.cursor].editable();
        match key.code {
            KeyCode::Down | KeyCode::Char('j') => {
                if n > 0 {
                    self.cursor = down(self.cursor, n);
                }
            },
            KeyCode::Up | KeyCode::Char('k') => {
                if n > 0 {
                    self.cursor = up(self.cursor, n);
                }
            },
            KeyCode::Char('a') => {
                self.editor = Some(RuleEditor::default());
            },
            KeyCode::Char('e') => {
                if on_editable {
                    self.editor = Some(editor_for(&rows[self.cursor], self.cursor));
                }
            },
            KeyCode::Char('d') | KeyCode::Delete => {
                if on_editable {
                    remove_at(&mut self.detect, self.cursor);
                    let left = flatten(&self.detect);
                    let m: usize = left.len();
                    assert(m == left.deep_view().len());
                    self.cursor = if m == 0 {
                        0
                    } else if self.cursor < m {
                        self.cursor
                    } else {
                        m - 1
                    };
                    self.recompute(inv);
                }
            },
            KeyCode::Char('f') => {
                if inv.repos.len() > 0 {
                    assert(inv@.repos.len() > 0);
                    self.repo_pick = Some(RepoPick { repos: paths_of(&inv.repos), cursor: 0 });
                } else {
                    assert(inv@.repos.len() == 0);
                }
            },
            _ => {},
        }
        assert(self@ =~= before.after_list(key.code, inv@.repos));
    }

    /// Acts on a key: an open picker takes it, then an open builder, then the list.
    pub fn handle_key(&mut self, key: KeyEvent, inv: &Inventory)
        requires
            old(self)@.ok(),
            old(self).total_repos == old(self)@.preview.live.len(),
        ensures
            final(self)@ == old(self)@.after(key.code, inv@.repos),
            final(self)@.ok(),
            final(self).total_repos == final(self)@.preview.live.len(),
    {
        proof {
            keys_keep_rules_ok(self@, key.code, inv@.repos);
        }
        if self.repo_pick.is_some() {
            self.pick_key(key, inv);
        } else if self.editor.is_some() {
            self.editor_key(key, inv);
        } else {
            self.list_key(key, inv);
        }
    }
}

/// Every rule has a row, in the order of the kinds and, within a kind, of the rules; and
/// no other row is shown.
pub proof fn every_rule_has_a_row(d: DetectV)
    ensures
        ({
            let rows = flat(d);
            let np = d.path_prefixes.len() as int;
            let nf = np + d.marker_files.len();
            let ng = nf + d.marker_globs.len();
            let nc = ng + d.content.len();
            let nd = nc + d.package_json_deps.len();
            &&& rows.len() == nd + d.deps_keywords.len()
            &&& forall|i: int| 0 <= i < np ==> #[trigger] rows[i] == RowV::PathUnder(
                d.path_prefixes[i],
            )
            &&& forall|i: int| np <= i < nf ==> #[trigger] rows[i] == RowV::HasFile(
                d.marker_files[i - np],
            )
            &&& forall|i: int| nf <= i < ng ==> #[trigger] rows[i] == RowV::HasAny(
                d.marker_globs[i - nf],
            )
            &&& forall|i: int|
                ng <= i < nc ==> #[trigger] rows[i] == (RowV::Contains {
                    file: d.content[i - ng].file,
                    word: d.content[i - ng].word,
                })
            &&& forall|i: int| nc <= i < nd ==> #[trigger] rows[i] == RowV::Legacy(
                "package.json: "@ + d.package_json_deps[i - nc],
            )
            &&& forall|i: int|
                nd <= i < rows.len() ==> #[trigger] rows[i] == RowV::Legacy(
                    "keyword: "@ + d.deps_keywords[i - nd],
                )
        }),
{
}

/// The preview lists just the repos without an override that the rules match, in scan
/// order, each with the reason of its match. Returns their positions.
pub proof fn every_matching_repo_is_previewed(d: DetectV, repos: Seq<SignalV>) -> (ix: Seq<int>)
    ensures
        list::picks(
            ix,
            repos.len() as int,
            |i: int| repos[i].override_names is None && answer(repos[i], d) is Match,
        ),
        preview(d, repos).matched.len() == ix.len(),
        forall|k: int|
            0 <= k < ix.len() ==> {
                let m = #[trigger] preview(d, repos).matched[k];
                &&& m.path == repos[ix[k]].path
                &&& answer(repos[ix[k]], d) matches AnswerV::Match(r) && r.rule == m.rule
                    && r.value == m.value
            },
{
    let n = repos.len() as int;
    let p = |i: int| repos[i].override_names is None && answer(repos[i], d) is Match;
    list::lemma_picked(n, p);
    lemma_matches_picked(d, repos);
    list::picked(n, p)
}

proof fn lemma_matches_picked(d: DetectV, repos: Seq<SignalV>)
    ensures
        matching(d, classified(repos)) == list::picked(
            repos.len() as int,
            |i: int| repos[i].override_names is None && answer(repos[i], d) is Match,
        ).map_values(
            |i: int|
                MatchV {
                    path: repos[i].path,
                    rule: answer(repos[i], d)->Match_0.rule,
                    value: answer(repos[i], d)->Match_0.value,
                },
        ),
    decreases repos.len(),
{
    let n = repos.len() as int;
    let free = |r: SignalV| r.override_names is None;
    let p = |i: int| repos[i].override_names is None && answer(repos[i], d) is Match;
    let f = |i: int|
        MatchV {
            path: repos[i].path,
            rule: answer(repos[i], d)->Match_0.rule,
            value: answer(repos[i], d)->Match_0.value,
        };
    if n == 0 {
        assert(repos =~= Seq::<SignalV>::empty());
        list::lemma_filter_empty::<SignalV>(free);
        assert(matching(d, classified(repos)) =~= list::picked(0, p).map_values(f));
    } else {
        let t = repos.drop_last();
        let q = |i: int| t[i].override_names is None && answer(t[i], d) is Match;
        let g = |i: int|
            MatchV {
                path: t[i].path,
                rule: answer(t[i], d)->Match_0.rule,
                value: answer(t[i], d)->Match_0.value,
            };
        lemma_matches_picked(d, t);
        list::lemma_filter_push(t, repos.last(), free);
        assert(t.push(repos.last()) =~= repos);
        list::lemma_picked(n - 1, q);
        list::lemma_picked_congruent(n - 1, p, q);
        let before = list::picked(n - 1, p);
        assert(before.map_values(g) =~= before.map_values(f));
        let live = classified(t);
        if repos.last().override_names is None {
            assert(classified(repos) == live.push(repos.last()));
            assert(live.push(repos.last()).drop_last() =~= live);
            assert(classified(repos).last() == repos.last());
        }
        assert(matching(d, classified(repos)) =~= list::picked(n, p).map_values(f));
    }
}

/// Every repo without an override whose path is not that of a match is a near miss, in
/// scan order, with its own suggestion. Returns their positions.
pub proof fn every_other_repo_is_a_near_miss(d: DetectV, repos: Seq<SignalV>) -> (ix: Seq<int>)
    ensures
        list::picks(
            ix,
            repos.len() as int,
            |i: int|
                repos[i].override_names is None && !match_paths(
                    preview(d, repos).matched,
                ).contains(repos[i].path),
        ),
        preview(d, repos).near.len() == ix.len(),
        forall|k: int|
            0 <= k < ix.len() ==> {
                let m = #[trigger] preview(d, repos).near[k];
                &&& m.path == repos[ix[k]].path
                &&& m.suggestion == suggestion_for(d, repos[ix[k]])
            },
{
    let n = repos.len() as int;
    let matched = match_paths(preview(d, repos).matched);
    let p = |i: int|
        repos[i].override_names is None && !match_paths(preview(d, repos).matched).contains(
            repos[i].path,
        );
    let q = |i: int| repos[i].override_names is None && !matched.contains(repos[i].path);
    list::lemma_picked(n, p);
    list::lemma_picked_congruent(n, p, q);
    lemma_near_picked(d, repos, matched);
    list::picked(n, p)
}

proof fn lemma_near_picked(d: DetectV, repos: Seq<SignalV>, matched: Seq<Seq<char>>)
    ensures
        nearby(d, classified(repos), matched) == list::picked(
            repos.len() as int,
            |i: int| repos[i].override_names is None && !matched.contains(repos[i].path),
        ).map_values(
            |i: int| NearV { path: repos[i].path, suggestion: suggestion_for(d, repos[i]) },
        ),
    decreases repos.len(),
{
    let n = repos.len() as int;
    let free = |r: SignalV| r.override_names is None;
    let p = |i: int| repos[i].override_names is None && !matched.contains(repos[i].path);
    let f = |i: int| NearV { path: repos[i].path, suggestion: suggestion_for(d, repos[i]) };
    if n == 0 {
        assert(repos =~= Seq::<SignalV>::empty());
        list::lemma_filter_empty::<SignalV>(free);
        assert(nearby(d, classified(repos), matched) =~= list::picked(0, p).map_values(f));
    } else {
        let t = repos.drop_last();
        let q = |i: int| t[i].override_names is None && !matched.contains(t[i].path);
        let g = |i: int| NearV { path: t[i].path, suggestion: suggestion_for(d, t[i]) };
        lemma_near_picked(d, t, matched);
        list::lemma_filter_push(t, repos.last(), free);
        assert(t.push(repos.last()) =~= repos);
        list::lemma_picked(n - 1, q);
        list::lemma_picked_congruent(n - 1, p, q);
        let before = list::picked(n - 1, p);
        assert(before.map_values(g) =~= before.map_values(f));
        let live = classified(t);
        if repos.last().override_names is None {
            assert(classified(repos) == live.push(repos.last()));
            assert(live.push(repos.last()).drop_last() =~= live);
            assert(classified(repos).last() == repos.last());
        }
        assert(nearby(d, classified(repos), matched) =~= list::picked(n, p).map_values(f));
    }
}

/// A suggestion is the first signal of the repo that the rules do not use yet: a glob
/// before a marker file before a dependency. A marker file that a content rule reads counts
/// as used. There is none just where the repo has no such glob or file and no dependency.
pub proof fn a_suggestion_is_an_unused_signal(d: DetectV, r: SignalV)
    ensures
        ({
            let globs_used = forall|j: int|
                0 <= j < r.marker_globs.len() ==> d.marker_globs.contains(
                    #[trigger] r.marker_globs[j],
                );
            let files_used = forall|j: int|
                0 <= j < r.marker_files.len() ==> file_is_used(d, #[trigger] r.marker_files[j]);
            match suggestion_for(d, r) {
                Some(RowV::HasAny(g)) => exists|i: int|
                    {
                        &&& 0 <= i < r.marker_globs.len()
                        &&& #[trigger] r.marker_globs[i] == g
                        &&& !d.marker_globs.contains(g)
                        &&& forall|j: int|
                            0 <= j < i ==> d.marker_globs.contains(#[trigger] r.marker_globs[j])
                    },
                Some(RowV::HasFile(f)) => globs_used && exists|i: int|
                    {
                        &&& 0 <= i < r.marker_files.len()
                        &&& #[trigger] r.marker_files[i] == f
                        &&& !file_is_used(d, f)
                        &&& forall|j: int|
                            0 <= j < i ==> file_is_used(d, #[trigger] r.marker_files[j])
                    },
                Some(RowV::Contains { file, word }) => globs_used && files_used && file
                    == "package.json"@ && r.package_json_deps.len() > 0 && word
                    == r.package_json_deps[0],
                Some(_) => false,
                None => globs_used && files_used && r.package_json_deps.len() == 0,
            }
        }),
{
    let known = d.marker_files + read_files(d);
    lemma_first_new(r.marker_globs, d.marker_globs);
    lemma_first_new(r.marker_files, known);
    assert forall|f: Seq<char>| #[trigger] known.contains(f) <==> file_is_used(d, f) by {
        if d.marker_files.contains(f) {
            let i = choose|i: int| 0 <= i < d.marker_files.len() && d.marker_files[i] == f;
            assert(known[i] == f);
        }
        if exists|i: int| 0 <= i < d.content.len() && (#[trigger] d.content[i]).file == f {
            let i = choose|i: int| 0 <= i < d.content.len() && (#[trigger] d.content[i]).file == f;
            assert(known[d.marker_files.len() + i] == f);
        }
        if known.contains(f) {
            let i = choose|i: int| 0 <= i < known.len() && known[i] == f;
            if i < d.marker_files.len() {
                assert(d.marker_files[i] == f);
            } else {
                assert(d.content[i - d.marker_files.len()].file == f);
            }
        }
    }
}

/// Whether a rule asks for this file or reads it.
pub open spec fn file_is_used(d: DetectV, f: Seq<char>) -> bool {
    d.marker_files.contains(f) || exists|i: int|
        0 <= i < d.content.len() && (#[trigger] d.content[i]).file == f
}

proof fn lemma_first_new(names: Seq<Seq<char>>, known: Seq<Seq<char>>)
    ensures
        match first_new(names, known) {
            Some(n) => exists|i: int|
                {
                    &&& 0 <= i < names.len()
                    &&& #[trigger] names[i] == n
                    &&& !known.contains(n)
                    &&& forall|j: int| 0 <= j < i ==> known.contains(#[trigger] names[j])
                },
            None => forall|j: int| 0 <= j < names.len() ==> known.contains(#[trigger] names[j]),
        },
    decreases names.len(),
{
    if names.len() > 0 {
        if !known.contains(names[0]) {
            assert(names[0] == names[0]);
        } else {
            let t = names.drop_first();
            lemma_first_new(t, known);
            match first_new(t, known) {
                Some(n) => {
                    let i = choose|i: int|
                        {
                            &&& 0 <= i < t.len()
                            &&& #[trigger] t[i] == n
                            &&& !known.contains(n)
                            &&& forall|j: int| 0 <= j < i ==> known.contains(#[trigger] t[j])
                        };
                    assert(names[i + 1] == n);
                    assert forall|j: int| 0 <= j < i + 1 implies known.contains(
                        #[trigger] names[j],
                    ) by {
                        if j > 0 {
                            assert(known.contains(t[j - 1]));
                        }
                    }
                },
                None => {
                    assert forall|j: int| 0 <= j < names.len() implies known.contains(
                        #[trigger] names[j],
                    ) by {
                        if j > 0 {
                            assert(known.contains(t[j - 1]));
                        }
                    }
                },
            }
        }
    }
}

/// Whether `a` is the question of one of the rules.
pub open spec fn asks(d: DetectV, a: Seq<char>) -> bool {
    ||| exists|i: int| 0 <= i < d.marker_files.len() && a == "file:"@ + #[trigger] d.marker_files[i]
    ||| exists|i: int| 0 <= i < d.marker_globs.len() && a == "glob:"@ + #[trigger] d.marker_globs[i]
    ||| exists|i: int|
        0 <= i < d.content.len() && a == "content:"@ + ((#[trigger] d.content[i]).file + " → "@
            + d.content[i].word)
    ||| exists|i: int|
        0 <= i < d.package_json_deps.len() && a == "dep:"@ + #[trigger] d.package_json_deps[i]
    ||| exists|i: int| 0 <= i < d.deps_keywords.len() && a == "kw:"@ + #[trigger] d.deps_keywords[i]
}

/// What still has to be indexed are just the questions of the rules that some repo was
/// never asked, none twice.
pub proof fn unanswered_questions_are_pending(d: DetectV, repos: Seq<SignalV>)
    ensures
        pending_atoms(d, repos).no_duplicates(),
        forall|a: Seq<char>| #[trigger]
            pending_atoms(d, repos).contains(a) <==> asks(d, a) && exists|i: int|
                0 <= i < repos.len() && !(#[trigger] repos[i]).rule_hits.contains_key(a),
{
    lemma_unasked_of(repos, atoms_of(d));
    assert forall|a: Seq<char>| #[trigger] atoms_of(d).contains(a) <==> asks(d, a) by {
        lemma_atoms_of(d, a);
    }
    assert forall|a: Seq<char>| #[trigger] pending_atoms(d, repos).contains(a) <==> asks(d, a)
        && exists|i: int|
        0 <= i < repos.len() && !(#[trigger] repos[i]).rule_hits.contains_key(a) by {
        assert(atoms_of(d).contains(a) <==> asks(d, a));
    }
}

proof fn lemma_atoms_of(d: DetectV, a: Seq<char>)
    ensures
        atoms_of(d).contains(a) <==> asks(d, a),
{
    let all = atoms_of(d);
    let nf = d.marker_files.len() as int;
    let ng = nf + d.marker_globs.len();
    let nc = ng + d.content.len();
    let nd = nc + d.package_json_deps.len();
    if all.contains(a) {
        let i = choose|i: int| 0 <= i < all.len() && all[i] == a;
        if i < nf {
            assert(a == "file:"@ + d.marker_files[i]);
        } else if i < ng {
            assert(a == "glob:"@ + d.marker_globs[i - nf]);
        } else if i < nc {
            assert(a == "content:"@ + (d.content[i - ng].file + " → "@ + d.content[i - ng].word));
        } else if i < nd {
            assert(a == "dep:"@ + d.package_json_deps[i - nc]);
        } else {
            assert(a == "kw:"@ + d.deps_keywords[i - nd]);
        }
    }
    if exists|i: int| 0 <= i < d.marker_files.len() && a == "file:"@ + #[trigger] d.marker_files[i] {
        let i = choose|i: int|
            0 <= i < d.marker_files.len() && a == "file:"@ + #[trigger] d.marker_files[i];
        assert(all[i] == a);
    }
    if exists|i: int| 0 <= i < d.marker_globs.len() && a == "glob:"@ + #[trigger] d.marker_globs[i] {
        let i = choose|i: int|
            0 <= i < d.marker_globs.len() && a == "glob:"@ + #[trigger] d.marker_globs[i];
        assert(all[nf + i] == a);
    }
    if exists|i: int|
        0 <= i < d.content.len() && a == "content:"@ + ((#[trigger] d.content[i]).file + " → "@
            + d.content[i].word) {
        let i = choose|i: int|
            0 <= i < d.content.len() && a == "content:"@ + ((#[trigger] d.content[i]).file
                + " → "@ + d.content[i].word);
        assert(all[ng + i] == a);
    }
    if exists|i: int|
        0 <= i < d.package_json_deps.len() && a == "dep:"@ + #[trigger] d.package_json_deps[i] {
        let i = choose|i: int|
            0 <= i < d.package_json_deps.len() && a == "dep:"@ + #[trigger] d.package_json_deps[i];
        assert(all[nc + i] == a);
    }
    if exists|i: int| 0 <= i < d.deps_keywords.len() && a == "kw:"@ + #[trigger] d.deps_keywords[i] {
        let i = choose|i: int|
            0 <= i < d.deps_keywords.len() && a == "kw:"@ + #[trigger] d.deps_keywords[i];
        assert(all[nd + i] == a);
    }
}

proof fn lemma_unasked_of(repos: Seq<SignalV>, atoms: Seq<Seq<char>>)
    ensures
        unasked_of(repos, atoms).no_duplicates(),
        forall|a: Seq<char>| #[trigger]
            unasked_of(repos, atoms).contains(a) <==> atoms.contains(a) && unasked(repos, a),
    decreases atoms.len(),
{
    if atoms.len() > 0 {
        let t = atoms.drop_last();
        let x = atoms.last();
        lemma_unasked_of(repos, t);
        let before = unasked_of(repos, t);
        assert(atoms =~= t.push(x));
        list::lemma_push_contains(t, x);
        list::lemma_push_contains(before, x);
        if unasked(repos, x) && !before.contains(x) {
            lemma_new_is_distinct(before, x);
        }
    }
}

/// Enter in the builder puts in just the rule that was typed, in place of the rule being
/// edited if there is one; every other rule stays, in order. Returns the row of the rule.
pub proof fn enter_puts_in_one_rule(v: RulesV, ed: EditorV, row: RowV, repos: Seq<SignalV>) -> (k:
    int)
    requires
        v.pick is None,
        v.editor == Some(ed),
        ed.draft() == Some(row),
        ed.editing matches Some(i) ==> i < flat(v.detect).len(),
    ensures
        ({
            let u = v.after(KeyCode::Enter, repos);
            let rest = match ed.editing {
                Some(i) => flat(v.detect).remove(i as int),
                None => flat(v.detect),
            };
            &&& 0 <= k <= rest.len()
            &&& flat(u.detect) == rest.insert(k, row)
            &&& u.editor is None
            &&& flat(u.detect)[u.cursor] == row
        }),
{
    let base = match ed.editing {
        Some(i) => removed(v.detect, i as int),
        None => v.detect,
    };
    if let Some(i) = ed.editing {
        remove_at_matches_flatten(v.detect, i as int);
    }
    added_row_is_shown(base, row);
    cursor_follows_committed_rule(v, ed, row, repos);
    row_end(base, row)
}

/// A rule is complete when its value is there, and for a content rule its word; its texts
/// are those typed, without white space around them.
pub proof fn a_draft_is_what_was_typed(ed: EditorV)
    ensures
        ({
            let file = trimmed(ed.file.chars);
            &&& file.len() == 0 || ed.kind is None ==> ed.draft() is None
            &&& file.len() > 0 && ed.kind == Some(EditorKind::PathUnder) ==> ed.draft() == Some(
                RowV::PathUnder(file),
            )
            &&& file.len() > 0 && ed.kind == Some(EditorKind::HasFile) ==> ed.draft() == Some(
                RowV::HasFile(file),
            )
            &&& file.len() > 0 && ed.kind == Some(EditorKind::HasAny) ==> ed.draft() == Some(
                RowV::HasAny(file),
            )
            &&& file.len() > 0 && ed.kind == Some(EditorKind::Contains) ==> match ed.word {
                None => ed.draft() is None,
                Some(w) => if trimmed(w.chars).len() == 0 {
                    ed.draft() is None
                } else {
                    ed.draft() == Some(RowV::Contains { file, word: trimmed(w.chars) })
                },
            }
        }),
{
}

/// Removing a rule takes out just the rule under the cursor, and keeps the others in order.
pub proof fn d_removes_one_rule(v: RulesV, code: KeyCode, repos: Seq<SignalV>)
    requires
        v.pick is None,
        v.editor is None,
        0 <= v.cursor < flat(v.detect).len(),
        flat(v.detect)[v.cursor].editable(),
        code == KeyCode::Char('d') || code == KeyCode::Delete,
    ensures
        flat(v.after(code, repos).detect) == flat(v.detect).remove(v.cursor),
{
    remove_at_matches_flatten(v.detect, v.cursor);
}

/// Editing a rule opens the builder with its own texts, so that Enter right away leaves
/// every rule whose texts have no white space around them as it is.
pub proof fn editing_starts_from_the_rule(v: RulesV, repos: Seq<SignalV>)
    requires
        v.pick is None,
        v.editor is None,
        0 <= v.cursor < flat(v.detect).len(),
        v.cursor <= usize::MAX,
    ensures
        ({
            let u = v.after(KeyCode::Char('e'), repos);
            let row = flat(v.detect)[v.cursor];
            &&& u.detect == v.detect
            &&& row.editable() ==> (u.editor matches Some(ed) && {
                &&& ed.editing == Some(v.cursor as usize)
                &&& match row {
                    RowV::PathUnder(s) => ed.file.chars == s && (trimmed(s) == s && s.len() > 0
                        ==> ed.draft() == Some(row)),
                    RowV::HasFile(s) => ed.file.chars == s && (trimmed(s) == s && s.len() > 0
                        ==> ed.draft() == Some(row)),
                    RowV::HasAny(s) => ed.file.chars == s && (trimmed(s) == s && s.len() > 0
                        ==> ed.draft() == Some(row)),
                    RowV::Contains { file, word } => ed.file.chars == file && ed.word == Some(
                        InputV::of(word),
                    ) && (trimmed(file) == file && file.len() > 0 && trimmed(word) == word
                        && word.len() > 0 ==> ed.draft() == Some(row)),
                    RowV::Legacy(_) => true,
                }
            })
            &&& !row.editable() ==> u.editor is None
        }),
{
}

/// Taking the rules of a repo adds every rule that its signals give and that is not there
/// yet, and loses none.
pub proof fn the_rules_of_a_repo_are_added(d: DetectV, r: SignalV)
    ensures
        ({
            let rows = flat(with_rows(d, flat(d), derived(r)));
            &&& forall|x: RowV| #[trigger]
                rows.contains(x) <==> flat(d).contains(x) || derived(r).contains(x)
            &&& forall|s: Seq<char>| #[trigger]
                rows.contains(RowV::HasFile(s)) <==> flat(d).contains(RowV::HasFile(s))
                    || r.marker_files.contains(s)
            &&& forall|s: Seq<char>| #[trigger]
                rows.contains(RowV::HasAny(s)) <==> flat(d).contains(RowV::HasAny(s))
                    || r.marker_globs.contains(s)
            &&& forall|f: Seq<char>, w: Seq<char>| #[trigger]
                rows.contains(RowV::Contains { file: f, word: w }) <==> flat(d).contains(
                    RowV::Contains { file: f, word: w },
                ) || (f == "package.json"@ && r.package_json_deps.contains(w))
            &&& forall|s: Seq<char>| #[trigger]
                rows.contains(RowV::PathUnder(s)) <==> flat(d).contains(RowV::PathUnder(s))
            &&& forall|s: Seq<char>| #[trigger]
                rows.contains(RowV::Legacy(s)) <==> flat(d).contains(RowV::Legacy(s))
        }),
{
    let more = derived(r);
    let nf = r.marker_files.len() as int;
    let ng = nf + r.marker_globs.len();
    assert forall|i: int| 0 <= i < more.len() implies (#[trigger] more[i]).editable() by {}
    lemma_with_rows(d, flat(d), more);
    assert forall|s: Seq<char>| #[trigger]
        more.contains(RowV::HasFile(s)) <==> r.marker_files.contains(s) by {
        if r.marker_files.contains(s) {
            let i = choose|i: int| 0 <= i < r.marker_files.len() && r.marker_files[i] == s;
            assert(more[i] == RowV::HasFile(s));
        }
        if more.contains(RowV::HasFile(s)) {
            let i = choose|i: int| 0 <= i < more.len() && more[i] == RowV::HasFile(s);
            assert(r.marker_files[i] == s);
        }
    }
    assert forall|s: Seq<char>| #[trigger]
        more.contains(RowV::HasAny(s)) <==> r.marker_globs.contains(s) by {
        if r.marker_globs.contains(s) {
            let i = choose|i: int| 0 <= i < r.marker_globs.len() && r.marker_globs[i] == s;
            assert(more[nf + i] == RowV::HasAny(s));
        }
        if more.contains(RowV::HasAny(s)) {
            let i = choose|i: int| 0 <= i < more.len() && more[i] == RowV::HasAny(s);
            assert(r.marker_globs[i - nf] == s);
        }
    }
    assert forall|f: Seq<char>, w: Seq<char>| #[trigger]
        more.contains(RowV::Contains { file: f, word: w }) <==> f == "package.json"@
            && r.package_json_deps.contains(w) by {
        if f == "package.json"@ && r.package_json_deps.contains(w) {
            let i = choose|i: int|
                0 <= i < r.package_json_deps.len() && r.package_json_deps[i] == w;
            assert(more[ng + i] == RowV::Contains { file: f, word: w });
        }
        if more.contains(RowV::Contains { file: f, word: w }) {
            let i = choose|i: int|
                0 <= i < more.len() && more[i] == RowV::Contains { file: f, word: w };
            assert(r.package_json_deps[i - ng] == w);
        }
    }
}

proof fn lemma_with_rows(d: DetectV, existing: Seq<RowV>, more: Seq<RowV>)
    requires
        forall|i: int| 0 <= i < more.len() ==> (#[trigger] more[i]).editable(),
    ensures
        forall|x: RowV| #[trigger]
            flat(with_rows(d, existing, more)).contains(x) <==> flat(d).contains(x) || (
            more.contains(x) && !existing.contains(x)),
    decreases more.len(),
{
    if more.len() > 0 {
        let t = more.drop_last();
        let x = more.last();
        let before = with_rows(d, existing, t);
        assert forall|i: int| 0 <= i < t.len() implies (#[trigger] t[i]).editable() by {
            assert(more[i].editable());
        }
        lemma_with_rows(d, existing, t);
        assert(more =~= t.push(x));
        list::lemma_push_contains(t, x);
        assert(more[more.len() - 1].editable());
        if !existing.contains(x) {
            added_row_is_shown(before, x);
            let a = flat(before);
            let k = row_end(before, x);
            let b = a.insert(k, x);
            assert forall|y: RowV| #[trigger] b.contains(y) <==> a.contains(y) || y == x by {
                if a.contains(y) {
                    let i = choose|i: int| 0 <= i < a.len() && a[i] == y;
                    if i < k {
                        assert(b[i] == y);
                    } else {
                        assert(b[i + 1] == y);
                    }
                }
                if y == x {
                    assert(b[k] == y);
                }
                if b.contains(y) {
                    let i = choose|i: int| 0 <= i < b.len() && b[i] == y;
                    if i < k {
                        assert(a[i] == y);
                    } else if i > k {
                        assert(a[i - 1] == y);
                    }
                }
            }
        }
    }
}

/// The count that the builder shows after a key is the number of matches that Enter then
/// gives.
pub proof fn the_live_count_is_what_enter_gives(
    v: RulesV,
    ed: EditorV,
    code: KeyCode,
    repos: Seq<SignalV>,
)
    requires
        v.pick is None,
        v.editor == Some(ed),
        ed.kind is Some,
        code != KeyCode::Enter && code != KeyCode::Esc,
        v.preview.live == classified(repos),
        repos.len() <= usize::MAX,
    ensures
        ({
            let u = v.after(code, repos);
            &&& u.detect == v.detect
            &&& u.editor is Some
            &&& match u.editor->0.live_count {
                Some(n) => n == u.after(KeyCode::Enter, repos).preview.matched.len(),
                None => u.after(KeyCode::Enter, repos).detect == v.detect,
            }
        }),
{
    let u = v.after(code, repos);
    let e = u.editor->0;
    if let Some(row) = e.draft() {
        let d = e.applied(v.detect, row);
        let ix = every_matching_repo_is_previewed(d, repos);
        lemma_fits(ix, repos.len() as int);
    }
}

proof fn lemma_fits(ix: Seq<int>, n: int)
    requires
        n >= 0,
        forall|k: int| 0 <= k < ix.len() ==> 0 <= #[trigger] ix[k] < n,
        forall|j: int, k: int| 0 <= j < k < ix.len() ==> #[trigger] ix[j] < #[trigger] ix[k],
    ensures
        ix.len() <= n,
    decreases ix.len(),
{
    if ix.len() > 0 {
        let t = ix.drop_last();
        assert forall|k: int| 0 <= k < t.len() implies 0 <= #[trigger] t[k] < ix.last() by {
            assert(ix[k] < ix[ix.len() - 1]);
        }
        assert(0 <= ix[ix.len() - 1] < n);
        lemma_fits(t, ix.last());
    }
}

/// Whatever key is pressed, the preview is that of the rules, if it was before.
pub proof fn the_preview_follows_the_rules(v: RulesV, code: KeyCode, repos: Seq<SignalV>)
    requires
        v.preview == preview(v.detect, repos),
    ensures
        v.after(code, repos).preview == preview(v.after(code, repos).detect, repos),
{
}

/// A question that a new rule makes necessary is asked for: what is pending after Enter in
/// the builder or the picker and was not before is noted for indexing, and nothing that was
/// noted is lost.
pub proof fn new_questions_are_asked_for(v: RulesV, repos: Seq<SignalV>)
    requires
        v.pick is Some || v.editor is Some,
    ensures
        ({
            let u = v.after(KeyCode::Enter, repos);
            &&& forall|a: Seq<char>| #[trigger]
                u.preview.pending.contains(a) && !v.preview.pending.contains(a)
                    ==> u.wants_index.contains(a)
            &&& forall|a: Seq<char>| #[trigger]
                v.wants_index.contains(a) ==> u.wants_index.contains(a)
        }),
{
    let u = v.after(KeyCode::Enter, repos);
    let more = minus(u.preview.pending, v.preview.pending);
    list::taking_names_out_keeps_the_rest(u.preview.pending, v.preview.pending);
    let all = v.wants_index + more;
    assert forall|a: Seq<char>| #[trigger] v.wants_index.contains(a) implies all.contains(a) by {
        let i = choose|i: int| 0 <= i < v.wants_index.len() && v.wants_index[i] == a;
        assert(all[i] == a);
    }
    assert forall|a: Seq<char>| #[trigger] more.contains(a) implies all.contains(a) by {
        let i = choose|i: int| 0 <= i < more.len() && more[i] == a;
        assert(all[v.wants_index.len() + i] == a);
    }
    assert forall|a: Seq<char>| #[trigger]
        u.preview.pending.contains(a) && !v.preview.pending.contains(a) implies
        u.wants_index.contains(a) by {
        assert(more.contains(a));
        assert(all.contains(a));
    }
}

/// The builder first asks for a kind: the cursor goes round the four kinds, in the order path,
/// file, glob, word in a file, and Enter takes the one under it. Only the last has a second
/// input.
pub proof fn the_builder_takes_the_kind_under_the_cursor(ed: EditorV, v: RulesV, repos: Seq<SignalV>)
    requires
        v.pick is None,
        v.editor == Some(ed),
        ed.kind is None,
        ed.word is None,
        0 <= ed.pick_cursor < 4,
    ensures
        ({
            let u = v.after(KeyCode::Enter, repos);
            &&& u.detect == v.detect
            &&& u.editor matches Some(e) && {
                &&& ed.pick_cursor == 0 ==> e.kind == Some(EditorKind::PathUnder)
                &&& ed.pick_cursor == 1 ==> e.kind == Some(EditorKind::HasFile)
                &&& ed.pick_cursor == 2 ==> e.kind == Some(EditorKind::HasAny)
                &&& ed.pick_cursor == 3 ==> e.kind == Some(EditorKind::Contains)
                &&& e.word is Some <==> ed.pick_cursor == 3
                &&& e.file == ed.file
                &&& e.editing == ed.editing
            }
        }),
        ({
            let u = v.after(KeyCode::Down, repos);
            u.detect == v.detect && (u.editor matches Some(e) && e.kind is None && e.pick_cursor
                == if ed.pick_cursor == 3 {
                0
            } else {
                ed.pick_cursor + 1
            })
        }),
        v.after(KeyCode::Esc, repos) == (RulesV { editor: None, ..v }),
{
    crate::tui::key::cursors_go_round(ed.pick_cursor, 4);
}

/// A key goes to the input that has the focus, and to no other; Tab gives the focus to the
/// other input of a word rule; Right at the end of a path takes the completion on offer.
pub proof fn keys_go_to_the_focused_input(ed: EditorV, code: KeyCode)
    ensures
        ({
            let e = ed.after_type(code);
            let takes = code == KeyCode::Right && ed.kind == Some(EditorKind::PathUnder)
                && ed.file.cursor == ed.file.chars.len() && ed.suggestion is Some;
            &&& e.kind == ed.kind
            &&& e.editing == ed.editing
            &&& code == KeyCode::Tab && ed.word is Some ==> e.focus_word != ed.focus_word && e.file
                == ed.file && e.word == ed.word
            &&& takes ==> e.file == InputV::of(ed.file.chars + ed.suggestion->0) && e.word
                == ed.word
            &&& code != KeyCode::Tab && !takes && ed.focus_word ==> e.file == ed.file && (
            ed.word matches Some(w) ==> e.word == Some(w.after(code)))
            &&& code != KeyCode::Tab && !takes && !ed.focus_word ==> e.file == ed.file.after(code)
                && e.word == ed.word
        }),
{
}

/// In the list, moving goes round the rules, a opens an empty builder, and f offers every
/// scanned repo, in order; none of them changes a rule.
pub proof fn keys_of_the_rule_list(v: RulesV, code: KeyCode, repos: Seq<SignalV>)
    requires
        v.pick is None,
        v.editor is None,
        0 <= v.cursor < flat(v.detect).len(),
    ensures
        ({
            let u = v.after(code, repos);
            let n = flat(v.detect).len() as int;
            &&& code != KeyCode::Char('d') && code != KeyCode::Delete ==> u.detect == v.detect
                && u.preview == v.preview
            &&& code == KeyCode::Down ==> u.cursor == if v.cursor + 1 == n {
                0
            } else {
                v.cursor + 1
            }
            &&& code == KeyCode::Up ==> u.cursor == if v.cursor == 0 {
                n - 1
            } else {
                v.cursor - 1
            }
            &&& code == KeyCode::Char('a') ==> (u.editor matches Some(e) && e.kind is None
                && e.editing is None && e.file.chars.len() == 0 && e.word is None)
            &&& code == KeyCode::Char('f') && repos.len() > 0 ==> (u.pick matches Some(p)
                && p.cursor == 0 && p.repos.len() == repos.len() && forall|i: int|
                0 <= i < repos.len() ==> #[trigger] p.repos[i] == repos[i].path)
        }),
{
    crate::tui::key::cursors_go_round(v.cursor, flat(v.detect).len() as int);
}

/// Enter in the repo picker takes the rules of the first repo with the path under the cursor,
/// and closes the picker; Esc only closes it.
pub proof fn enter_takes_the_rules_of_the_picked_repo(
    v: RulesV,
    p: PickV,
    repos: Seq<SignalV>,
    i: int,
)
    requires
        v.pick == Some(p),
        0 <= p.cursor < p.repos.len(),
        0 <= i < repos.len(),
        repos[i].path == p.repos[p.cursor],
        forall|j: int| 0 <= j < i ==> (#[trigger] repos[j]).path != repos[i].path,
    ensures
        v.after(KeyCode::Enter, repos).pick is None,
        v.after(KeyCode::Enter, repos).detect == with_rows(
            v.detect,
            flat(v.detect),
            derived(repos[i]),
        ),
        v.after(KeyCode::Esc, repos) == (RulesV { pick: None, ..v }),
{
    let path = p.repos[p.cursor];
    assert(repo_at(repos, path, i));
    assert(repo_paths(repos)[i] == path);
    let j = choose|j: int| repo_at(repos, path, j);
    lemma_repo_at_unique(repos, path, i, j);
}

/// The rules that a repo gives are one for each of its files, globs and dependencies.
pub proof fn every_signal_gives_a_rule(r: SignalV)
    ensures
        ({
            let rows = derived(r);
            let nf = r.marker_files.len() as int;
            let ng = nf + r.marker_globs.len();
            &&& rows.len() == ng + r.package_json_deps.len()
            &&& forall|i: int| 0 <= i < nf ==> #[trigger] rows[i] == RowV::HasFile(r.marker_files[i])
            &&& forall|i: int|
                nf <= i < ng ==> #[trigger] rows[i] == RowV::HasAny(r.marker_globs[i - nf])
            &&& forall|i: int|
                ng <= i < rows.len() ==> #[trigger] rows[i] == (RowV::Contains {
                    file: "package.json"@,
                    word: r.package_json_deps[i - ng],
                })
        }),
{
}

/// The preview counts the repos without an override, says whether one of them is open, and
/// keeps just the questions of the rules that one of them was never asked. Returns the
/// positions of these repos.
pub proof fn the_preview_tells_what_is_open(d: DetectV, repos: Seq<SignalV>) -> (ix: Seq<int>)
    ensures
        list::picks(ix, repos.len() as int, |i: int| repos[i].override_names is None),
        ({
            let p = preview(d, repos);
            &&& p.live.len() == ix.len()
            &&& forall|k: int| 0 <= k < ix.len() ==> #[trigger] p.live[k] == repos[ix[k]]
            &&& p.undecided <==> exists|i: int|
                0 <= i < repos.len() && (#[trigger] repos[i]).override_names is None && answer(
                    repos[i],
                    d,
                ) is Unknown
            &&& p.pending.no_duplicates()
            &&& forall|a: Seq<char>| #[trigger]
                p.pending.contains(a) <==> asks(d, a) && exists|i: int|
                    0 <= i < repos.len() && (#[trigger] repos[i]).override_names is None
                        && !repos[i].rule_hits.contains_key(a)
        }),
{
    let n = repos.len() as int;
    let free = |r: SignalV| r.override_names is None;
    let q = |i: int| repos[i].override_names is None;
    list::lemma_filter_picks(repos, free);
    list::lemma_picked(n, q);
    list::lemma_picked_congruent(n, |i: int| free(repos[i]), q);
    let ix = list::picked(n, q);
    let live = classified(repos);
    assert forall|k: int| 0 <= k < ix.len() implies #[trigger] live[k] == repos[ix[k]] by {}
    unanswered_questions_are_pending(d, live);
    if exists|i: int|
        0 <= i < n && (#[trigger] repos[i]).override_names is None && answer(
            repos[i],
            d,
        ) is Unknown {
        let i = choose|i: int|
            0 <= i < n && (#[trigger] repos[i]).override_names is None && answer(
                repos[i],
                d,
            ) is Unknown;
        assert(q(i));
        let k = choose|k: int| 0 <= k < ix.len() && ix[k] == i;
        assert(answer(live[k], d) is Unknown);
    }
    if unanswered(d, live) {
        let k = choose|k: int| 0 <= k < live.len() && answer(#[trigger] live[k], d) is Unknown;
        assert(q(ix[k]));
        assert(repos[ix[k]].override_names is None);
    }
    assert forall|a: Seq<char>| #[trigger] preview(d, repos).pending.contains(a) <==> asks(d, a)
        && exists|i: int|
        0 <= i < n && (#[trigger] repos[i]).override_names is None
            && !repos[i].rule_hits.contains_key(a) by {
        if exists|i: int|
            0 <= i < n && (#[trigger] repos[i]).override_names is None
                && !repos[i].rule_hits.contains_key(a) {
            let i = choose|i: int|
                0 <= i < n && (#[trigger] repos[i]).override_names is None
                    && !repos[i].rule_hits.contains_key(a);
            assert(q(i));
            let k = choose|k: int| 0 <= k < ix.len() && ix[k] == i;
            assert(!live[k].rule_hits.contains_key(a));
        }
        if exists|k: int| 0 <= k < live.len() && !(#[trigger] live[k]).rule_hits.contains_key(a) {
            let k = choose|k: int|
                0 <= k < live.len() && !(#[trigger] live[k]).rule_hits.contains_key(a);
            assert(q(ix[k]));
            assert(!repos[ix[k]].rule_hits.contains_key(a));
        }
    }
    ix
}

/// The editor opens on the rules it is given, with their preview, and nothing else is open.
pub proof fn the_editor_opens_on_the_rules(d: DetectV, repos: Seq<SignalV>)
    ensures
        ({
            let v = RulesV::opened(d, repos);
            &&& v.detect == d
            &&& v.preview == preview(d, repos)
            &&& v.editor is None
            &&& v.pick is None
            &&& v.cursor == 0
            &&& v.wants_index.len() == 0
        }),
{
}

} // verus!
