//! The explain overlay: which profiles a scanned repo matches and why, and which
//! of the edited profile's rules decided.

use vstd::prelude::*;

use crate::list;
use crate::profile::config::{Detect, DetectV, Profile, ProfileV, Profiles, ProfilesV};
use crate::profile::discover::{text_of, RepoSignal, SignalV};
use crate::profile::signal_detect::{
    a_match_names_a_rule_that_holds, answer, detect_answer, detect_from_signal_explained,
    every_matching_profile_is_listed, explained, is_pending, matched_names, AnswerV, MatchReason,
    ProfileAnswer, ReasonV,
};
use crate::text::{join3, owned, same, strip_prefix, stripped};
use crate::tui::line::{
    bare, blank, line1, line2, no_lines, put_line, put_lines, raw, sp, span, styled, Line, SpanV,
};
use crate::tui::profile::rules::{every_rule_has_a_row, flat, flatten, RowV, RuleRow};
use crate::tui::profile::rules_page::{repo_lines, repo_rows};
use crate::tui::theme;
use crate::tui::widgets::at_most;

verus! {

/// The explanation of one repo.
#[derive(Debug)]
pub struct ExplainReport {
    /// The profiles the repo matches, each with a short reason.
    pub matched_profiles: Vec<(String, String)>,
    /// Some profile of the configuration has no verdict yet, so the list may grow.
    pub cross_pending: bool,
    /// Whether the profile being edited matches.
    pub overall: bool,
    /// Each rule of the profile being edited, and whether it decided the match.
    pub this_rules: Vec<(String, bool)>,
    /// The profile being edited has no verdict yet, so its rules say nothing.
    pub this_pending: bool,
}

/// The contents of an explanation.
#[verifier::ext_equal]
pub struct ReportV {
    pub matched_profiles: Seq<(Seq<char>, Seq<char>)>,
    pub cross_pending: bool,
    pub overall: bool,
    pub this_rules: Seq<(Seq<char>, bool)>,
    pub this_pending: bool,
}

impl View for ExplainReport {
    type V = ReportV;

    open spec fn view(&self) -> ReportV {
        ReportV {
            matched_profiles: self.matched_profiles.deep_view(),
            cross_pending: self.cross_pending,
            overall: self.overall,
            this_rules: Seq::new(
                self.this_rules@.len(),
                |i: int| (self.this_rules@[i].0@, self.this_rules@[i].1),
            ),
            this_pending: self.this_pending,
        }
    }
}

/// The configuration in which profile `name` has the rules `d`.
pub open spec fn probe(w: ProfilesV, name: Seq<char>, d: DetectV) -> ProfilesV {
    w.with_profile(
        name,
        ProfileV {
            plugins: if w.profiles.contains_key(name) {
                w.profiles[name].plugins
            } else {
                Seq::empty()
            },
            detect: d,
        },
    )
}

/// A reason in one phrase.
pub open spec fn reason_text(r: ReasonV) -> Seq<char> {
    match r.value {
        Some(v) => r.rule + " → "@ + v,
        None => r.rule,
    }
}

/// Whether the reason names this very row.
pub open spec fn attributed(row: RowV, r: ReasonV) -> bool {
    match row {
        RowV::PathUnder(p) => r.rule == "path_prefix"@ && r.value == Some(p),
        RowV::HasFile(f) => r.rule == "marker_file"@ && r.value == Some(f),
        RowV::HasAny(g) => r.rule == "marker_glob"@ && r.value == Some(g),
        RowV::Contains { .. } => r.rule == "content"@ && r.value == Some(row.value()),
        RowV::Legacy(s) => if r.rule == "package_json_dep"@ {
            r.value == stripped(s, "package.json: "@)
        } else if r.rule == "deps_keyword"@ {
            r.value == stripped(s, "keyword: "@)
        } else {
            false
        },
    }
}

/// Each row of the rules, and whether the verdict names it.
pub open spec fn rule_marks(d: DetectV, a: AnswerV) -> Seq<(Seq<char>, bool)> {
    flat(d).map_values(
        |row: RowV|
            (
                row.label() + "  "@ + row.value(),
                match a {
                    AnswerV::Match(r) => attributed(row, r),
                    _ => false,
                },
            ),
    )
}

/// The explanation of `sig` against configuration `w`, in which profile `name` has
/// the rules `d`.
pub open spec fn report(sig: SignalV, name: Seq<char>, d: DetectV, w: ProfilesV) -> ReportV {
    let p = probe(w, name, d);
    let a = answer(sig, d);
    ReportV {
        matched_profiles: explained(sig, p.names(), p.profiles).map_values(
            |e: (Seq<char>, ReasonV)| (e.0, reason_text(e.1)),
        ),
        cross_pending: is_pending(sig, p.names(), p.profiles),
        overall: a is Match,
        this_rules: rule_marks(d, a),
        this_pending: a is Unknown,
    }
}

/// Without a match, no rule is shown as deciding.
pub proof fn no_rule_fires_without_a_match(
    sig: SignalV,
    name: Seq<char>,
    d: DetectV,
    w: ProfilesV,
)
    requires
        !report(sig, name, d, w).overall,
    ensures
        forall|i: int|
            0 <= i < report(sig, name, d, w).this_rules.len() ==> !(#[trigger] report(
                sig,
                name,
                d,
                w,
            ).this_rules[i]).1,
{
}

/// A profile is never reported as matching and as open at once.
pub proof fn pending_is_not_a_verdict(sig: SignalV, name: Seq<char>, d: DetectV, w: ProfilesV)
    ensures
        !(report(sig, name, d, w).overall && report(sig, name, d, w).this_pending),
{
}

/// Whether the reason names this very row.
pub fn row_matches_reason(row: &RuleRow, reason: &MatchReason) -> (r: bool)
    ensures
        r == attributed(row@, reason@),
{
    match row {
        RuleRow::PathUnder(p) => same(reason.rule, "path_prefix") && value_is(reason, p.as_str()),
        RuleRow::HasFile(f) => same(reason.rule, "marker_file") && value_is(reason, f.as_str()),
        RuleRow::HasAny(g) => same(reason.rule, "marker_glob") && value_is(reason, g.as_str()),
        RuleRow::Contains { .. } => same(reason.rule, "content") && value_is(
            reason,
            row.value().as_str(),
        ),
        RuleRow::Legacy(s) => if same(reason.rule, "package_json_dep") {
            value_is_opt(reason, strip_prefix(s.as_str(), "package.json: "))
        } else if same(reason.rule, "deps_keyword") {
            value_is_opt(reason, strip_prefix(s.as_str(), "keyword: "))
        } else {
            false
        },
    }
}

fn value_is(reason: &MatchReason, v: &str) -> (r: bool)
    ensures
        r == (reason@.value == Some(v@)),
{
    match &reason.value {
        Some(w) => same(w.as_str(), v),
        None => false,
    }
}

fn value_is_opt(reason: &MatchReason, v: Option<String>) -> (r: bool)
    ensures
        r == (reason@.value == text_of(v)),
{
    match (&reason.value, v) {
        (Some(a), Some(b)) => same(a.as_str(), b.as_str()),
        (None, None) => true,
        _ => false,
    }
}

/// Explains `sig` against `working`, with the rules of profile `this_name` taken
/// from `this_detect`. Read off the index alone.
pub fn explain_repo(
    sig: &RepoSignal,
    this_name: &str,
    this_detect: &Detect,
    working: &Profiles,
) -> (r: ExplainReport)
    ensures
        r@ == report(sig@, this_name@, this_detect@, working@),
{
    let mut p = working.clone();
    let plugins = match p.take(this_name) {
        Some(old_profile) => old_profile.plugins,
        None => {
            let none: Vec<String> = Vec::new();
            assert(none.deep_view() =~= Seq::<Seq<char>>::empty());
            none
        },
    };
    p.put(this_name, Profile { plugins, detect: this_detect.clone() });
    assert(p@ =~= probe(working@, this_name@, this_detect@));
    let (found, cross_pending) = detect_from_signal_explained(sig, &p);
    let ghost fv = found.deep_view();
    let mut matched_profiles: Vec<(String, String)> = Vec::new();
    let mut i: usize = 0;
    while i < found.len()
        invariant
            i <= found.len(),
            fv == found.deep_view(),
            matched_profiles@.len() == i,
            forall|j: int|
                0 <= j < i ==> (#[trigger] matched_profiles[j]).0@ == fv[j].0
                    && matched_profiles[j].1@ == reason_text(fv[j].1),
        decreases found.len() - i,
    {
        let e = &found[i];
        assert(fv[i as int] == (e.0@, e.1@));
        let why = match &e.1.value {
            Some(v) => join3(e.1.rule, " → ", v.as_str()),
            None => owned(e.1.rule),
        };
        matched_profiles.push((e.0.clone(), why));
        i += 1;
    }
    let a = detect_answer(sig, this_detect);
    let rows = flatten(this_detect);
    let ghost marks = rule_marks(this_detect@, a@);
    let mut this_rules: Vec<(String, bool)> = Vec::new();
    let mut i: usize = 0;
    while i < rows.len()
        invariant
            i <= rows.len(),
            rows.deep_view() == flat(this_detect@),
            marks == rule_marks(this_detect@, a@),
            this_rules@.len() == i,
            forall|j: int|
                0 <= j < i ==> (#[trigger] this_rules[j]).0@ == marks[j].0 && this_rules[j].1
                    == marks[j].1,
        decreases rows.len() - i,
    {
        let row = &rows[i];
        assert(flat(this_detect@)[i as int] == row@);
        let label = join3(row.label(), "  ", row.value().as_str());
        let fires = match &a {
            ProfileAnswer::Match(reason) => row_matches_reason(row, reason),
            _ => false,
        };
        this_rules.push((label, fires));
        i += 1;
    }
    let overall = match &a {
        ProfileAnswer::Match(_) => true,
        _ => false,
    };
    let this_pending = match &a {
        ProfileAnswer::Unknown => true,
        _ => false,
    };
    let r = ExplainReport {
        matched_profiles,
        cross_pending,
        overall,
        this_rules,
        this_pending,
    };
    proof {
        let want = report(sig@, this_name@, this_detect@, working@);
        assert(r@.matched_profiles =~= want.matched_profiles);
        assert(r@.this_rules =~= want.this_rules);
        assert(r@ =~= want);
    }
    r
}

/// The open overlay: a repo list and the report of the selected repo.
#[derive(Debug)]
pub struct ExplainState {
    pub repos: Vec<String>,
    pub cursor: usize,
    pub report: ExplainReport,
}

/// The selector: header, blank, one row per repo.
pub open spec fn selector_lines(repos: Seq<Seq<char>>, cursor: int) -> Seq<Seq<SpanV>> {
    seq![
        seq![sp("Explain — why does a repo match? (↑↓ choose, esc back)"@, theme::accent())],
        Seq::empty(),
    ] + repo_rows(repos, cursor)
}

/// What the repo matches. An empty list is a verdict only when nothing is open.
pub open spec fn matched_lines(r: ReportV) -> Seq<Seq<SpanV>> {
    if r.matched_profiles.len() == 0 {
        if r.cross_pending {
            seq![seq![sp("(pending — some rules not yet indexed)"@, theme::faint())]]
        } else {
            seq![seq![sp("Matches no profile"@, theme::faint())]]
        }
    } else {
        seq![seq![sp("Currently matches"@, theme::dim())]] + r.matched_profiles.map_values(
            |e: (Seq<char>, Seq<char>)|
                seq![sp("   "@ + e.0 + "   "@ + e.1, theme::text())],
        )
    }
}

/// The heading of the rule breakdown.
pub open spec fn rules_heading(r: ReportV) -> Seq<char> {
    if r.overall {
        "This profile's rules (matches)"@
    } else if r.this_pending {
        "This profile's rules (pending — some rules not yet indexed)"@
    } else {
        "This profile's rules (no rule fires)"@
    }
}

/// The rule breakdown; none is drawn while the verdict is open.
pub open spec fn breakdown_lines(r: ReportV) -> Seq<Seq<SpanV>> {
    if r.this_pending {
        seq![seq![bare("   "@), sp("… pending index"@, theme::faint())]]
    } else {
        r.this_rules.map_values(
            |e: (Seq<char>, bool)|
                if e.1 {
                    seq![sp("   ● "@, theme::accent()), sp(e.0, theme::text())]
                } else {
                    seq![sp("   ╴ "@, theme::faint()), sp(e.0, theme::text())]
                },
        )
    }
}

/// The report below the selector.
pub open spec fn report_lines(r: ReportV) -> Seq<Seq<SpanV>> {
    matched_lines(r) + seq![Seq::empty(), seq![sp(rules_heading(r), theme::dim())]]
        + breakdown_lines(r)
}

/// What the overlay draws.
#[derive(Debug)]
pub struct ExplainPage {
    pub selector: Vec<Line>,
    pub cursor_line: usize,
    pub report: Vec<Line>,
    pub report_height: u16,
}

/// Whether `r` is the page of a report for a panel of `height` rows: the selector, and
/// below it the report in at most half the height.
pub open spec fn shows_report(
    r: ExplainPage,
    repos: Seq<Seq<char>>,
    cursor: int,
    report: ReportV,
    height: int,
) -> bool {
    &&& r.selector.deep_view() == selector_lines(repos, cursor)
    &&& r.cursor_line == cursor + 2
    &&& r.report.deep_view() == report_lines(report)
    &&& r.report_height == at_most(report_lines(report).len() as int + 1, height / 2)
}

fn report_block(r: &ExplainReport) -> (out: Vec<Line>)
    ensures
        out.deep_view() == report_lines(r@),
{
    let ghost v = r@;
    let mut out = no_lines();
    assert(v.matched_profiles.len() == r.matched_profiles.len());
    if r.matched_profiles.len() == 0 {
        if r.cross_pending {
            put_line(
                &mut out,
                line1(styled("(pending — some rules not yet indexed)", theme::faint())),
            );
        } else {
            put_line(&mut out, line1(styled("Matches no profile", theme::faint())));
        }
        assert(out.deep_view() =~= matched_lines(v));
    } else {
        put_line(&mut out, line1(styled("Currently matches", theme::dim())));
        let ghost all = matched_lines(v);
        let mut i: usize = 0;
        while i < r.matched_profiles.len()
            invariant
                i <= r.matched_profiles.len(),
                r.matched_profiles.len() > 0,
                v == r@,
                all == matched_lines(v),
                out.deep_view() =~= all.take(i + 1),
            decreases r.matched_profiles.len() - i,
        {
            let e = &r.matched_profiles[i];
            assert(v.matched_profiles[i as int] == (e.0@, e.1@));
            let mut s = join3("   ", e.0.as_str(), "   ");
            s.append(e.1.as_str());
            let l = line1(span(s, theme::text()));
            assert(l@ =~= all[i + 1]);
            put_line(&mut out, l);
            i += 1;
        }
        assert(all.take(i + 1) =~= all);
    }
    put_line(&mut out, blank());
    let head = if r.overall {
        "This profile's rules (matches)"
    } else if r.this_pending {
        "This profile's rules (pending — some rules not yet indexed)"
    } else {
        "This profile's rules (no rule fires)"
    };
    put_line(&mut out, line1(styled(head, theme::dim())));
    let ghost base = out.deep_view();
    let ghost all = breakdown_lines(v);
    if r.this_pending {
        put_line(&mut out, line2(raw("   "), styled("… pending index", theme::faint())));
    } else {
        let mut i: usize = 0;
        while i < r.this_rules.len()
            invariant
                i <= r.this_rules.len(),
                !r.this_pending,
                v == r@,
                all == breakdown_lines(v),
                out.deep_view() =~= base + all.take(i as int),
            decreases r.this_rules.len() - i,
        {
            let e = &r.this_rules[i];
            assert(v.this_rules[i as int] == (e.0@, e.1));
            let mark = if e.1 {
                styled("   ● ", theme::accent())
            } else {
                styled("   ╴ ", theme::faint())
            };
            let l = line2(mark, styled(e.0.as_str(), theme::text()));
            assert(l@ =~= all[i as int]);
            put_line(&mut out, l);
            i += 1;
        }
        assert(all.take(i as int) =~= all);
    }
    assert(out.deep_view() =~= report_lines(v));
    out
}

/// The page for a panel of `height` rows: the selector, and below it the report in
/// at most half the height.
pub fn render(ex: &ExplainState, height: u16) -> (r: ExplainPage)
    requires
        ex.cursor < ex.repos.len(),
    ensures
        shows_report(r, ex.repos.deep_view(), ex.cursor as int, ex.report@, height as int),
{
    let mut selector = no_lines();
    put_line(
        &mut selector,
        line1(
            styled("Explain — why does a repo match? (↑↓ choose, esc back)", theme::accent()),
        ),
    );
    put_line(&mut selector, blank());
    put_lines(&mut selector, repo_lines(&ex.repos, ex.cursor));
    assert(selector.deep_view() =~= selector_lines(ex.repos.deep_view(), ex.cursor as int));
    let report = report_block(&ex.report);
    assert(report.len() == report.deep_view().len());
    let half: u16 = height / 2;
    let n: usize = selector.len();
    assert(n == selector.deep_view().len());
    let report_height: u16 = if report.len() < half as usize && report.len() + 1 < half as usize {
        (report.len() + 1) as u16
    } else {
        half
    };
    ExplainPage { selector, cursor_line: ex.cursor + 2, report, report_height }
}

/// The report lists just the profiles whose rules match the repo, by name and each with its
/// reason: profile `name` by the rules `d`, every other profile by its own. It may grow just
/// when one of them is open.
pub proof fn every_matching_profile_is_reported(
    sig: SignalV,
    name: Seq<char>,
    d: DetectV,
    w: ProfilesV,
)
    requires
        sig.override_names is None,
        list::lists(probe(w, name, d).names(), probe(w, name, d).profiles.dom()),
    ensures
        ({
            let r = report(sig, name, d, w);
            let ms = r.matched_profiles;
            let named = Seq::new(ms.len(), |k: int| ms[k].0);
            &&& list::ascending(named)
            &&& named.contains(name) <==> answer(sig, d) is Match
            &&& forall|m: Seq<char>|
                m != name ==> (#[trigger] named.contains(m) <==> w.profiles.contains_key(m)
                    && answer(sig, w.profiles[m].detect) is Match)
            &&& forall|k: int|
                0 <= k < ms.len() ==> {
                    let e = #[trigger] ms[k];
                    let rules = if e.0 == name {
                        d
                    } else {
                        w.profiles[e.0].detect
                    };
                    answer(sig, rules) matches AnswerV::Match(why) && e.1 == match why.value {
                        Some(v) => why.rule + " → "@ + v,
                        None => why.rule,
                    }
                }
            &&& r.cross_pending <==> answer(sig, d) is Unknown || exists|m: Seq<char>|
                m != name && #[trigger] w.profiles.contains_key(m) && answer(
                    sig,
                    w.profiles[m].detect,
                ) is Unknown
        }),
{
    let p = probe(w, name, d);
    let names = p.names();
    every_matching_profile_is_listed(sig, names, p.profiles);
    let es = explained(sig, names, p.profiles);
    let ms = report(sig, name, d, w).matched_profiles;
    let listed = matched_names(sig, names, p.profiles);
    let named = Seq::new(ms.len(), |k: int| ms[k].0);
    assert forall|k: int| 0 <= k < es.len() implies ms[k] == (
        es[k].0,
        reason_text(es[k].1),
    ) by {}
    assert(named =~= listed);
    assert(p.profiles.contains_key(name) && p.profiles[name].detect == d);
    assert forall|m: Seq<char>| m != name implies (#[trigger] p.profiles.contains_key(m)
        == w.profiles.contains_key(m)) && p.profiles[m] == w.profiles[m] by {}
    assert forall|k: int| 0 <= k < ms.len() implies {
        let e = #[trigger] ms[k];
        let rules = if e.0 == name {
            d
        } else {
            w.profiles[e.0].detect
        };
        answer(sig, rules) matches AnswerV::Match(why) && e.1 == match why.value {
            Some(v) => why.rule + " → "@ + v,
            None => why.rule,
        }
    } by {
        assert(es[k].0 == listed[k]);
        assert(listed.contains(listed[k]));
    }
    if answer(sig, d) is Unknown {
        assert(p.profiles.contains_key(name));
    }
    if exists|m: Seq<char>|
        m != name && #[trigger] w.profiles.contains_key(m) && answer(
            sig,
            w.profiles[m].detect,
        ) is Unknown {
        let m = choose|m: Seq<char>|
            m != name && #[trigger] w.profiles.contains_key(m) && answer(
                sig,
                w.profiles[m].detect,
            ) is Unknown;
        assert(p.profiles.contains_key(m));
    }
    if is_pending(sig, names, p.profiles) {
        let m = choose|m: Seq<char>| #[trigger]
            p.profiles.contains_key(m) && answer(sig, p.profiles[m].detect) is Unknown;
        if m != name {
            assert(w.profiles.contains_key(m));
        }
    }
}

/// Every rule of the profile has an entry, with its kind and its value, and is marked just
/// where the match is put down to it.
pub proof fn the_deciding_rule_is_marked(sig: SignalV, name: Seq<char>, d: DetectV, w: ProfilesV)
    ensures
        ({
            let rs = report(sig, name, d, w).this_rules;
            let a = answer(sig, d);
            let np = d.path_prefixes.len() as int;
            let nf = np + d.marker_files.len();
            let ng = nf + d.marker_globs.len();
            let nc = ng + d.content.len();
            let nd = nc + d.package_json_deps.len();
            &&& rs.len() == nd + d.deps_keywords.len()
            &&& forall|i: int|
                0 <= i < np ==> #[trigger] rs[i] == (
                    "path under"@ + "  "@ + d.path_prefixes[i],
                    put_down_to(a, "path_prefix"@, d.path_prefixes[i]),
                )
            &&& forall|i: int|
                np <= i < nf ==> #[trigger] rs[i] == (
                    "has file"@ + "  "@ + d.marker_files[i - np],
                    put_down_to(a, "marker_file"@, d.marker_files[i - np]),
                )
            &&& forall|i: int|
                nf <= i < ng ==> #[trigger] rs[i] == (
                    "has any"@ + "  "@ + d.marker_globs[i - nf],
                    put_down_to(a, "marker_glob"@, d.marker_globs[i - nf]),
                )
            &&& forall|i: int|
                ng <= i < nc ==> {
                    let v = d.content[i - ng].file + " → "@ + d.content[i - ng].word;
                    #[trigger] rs[i] == ("contains"@ + "  "@ + v, put_down_to(a, "content"@, v))
                }
            &&& forall|i: int|
                nc <= i < nd ==> #[trigger] rs[i] == (
                    "contains (legacy)"@ + "  "@ + ("package.json: "@ + d.package_json_deps[i - nc]),
                    put_down_to(a, "package_json_dep"@, d.package_json_deps[i - nc]),
                )
            &&& forall|i: int|
                nd <= i < rs.len() ==> #[trigger] rs[i] == (
                    "contains (legacy)"@ + "  "@ + ("keyword: "@ + d.deps_keywords[i - nd]),
                    put_down_to(a, "deps_keyword"@, d.deps_keywords[i - nd]),
                )
        }),
{
    every_rule_has_a_row(d);
    a_match_names_a_rule_that_holds(sig, d);
    reveal_strlit("package.json: ");
    reveal_strlit("keyword: ");
    reveal_strlit("package_json_dep");
    reveal_strlit("deps_keyword");
    assert("package_json_dep"@[0] == 'p' && "deps_keyword"@[0] == 'd');
    let rs = report(sig, name, d, w).this_rules;
    let nc = d.path_prefixes.len() + d.marker_files.len() + d.marker_globs.len() + d.content.len();
    let nd = nc + d.package_json_deps.len();
    let pj = "package.json: "@;
    let kw = "keyword: "@;
    assert(pj[0] == 'p' && kw[0] == 'k');
    assert forall|i: int| nc <= i < nd implies #[trigger] rs[i].1 == put_down_to(
        answer(sig, d),
        "package_json_dep"@,
        d.package_json_deps[i - nc],
    ) by {
        let x = d.package_json_deps[i - nc];
        let s = pj + x;
        assert(flat(d)[i] == RowV::Legacy(s));
        assert(pj.is_prefix_of(s));
        assert(s.skip(pj.len() as int) =~= x);
        assert(!kw.is_prefix_of(s)) by {
            assert(s[0] == 'p');
        }
    }
    assert forall|i: int| nd <= i < rs.len() implies #[trigger] rs[i].1 == put_down_to(
        answer(sig, d),
        "deps_keyword"@,
        d.deps_keywords[i - nd],
    ) by {
        let x = d.deps_keywords[i - nd];
        let s = kw + x;
        assert(flat(d)[i] == RowV::Legacy(s));
        assert(kw.is_prefix_of(s));
        assert(s.skip(kw.len() as int) =~= x);
        assert(!pj.is_prefix_of(s)) by {
            assert(s[0] == 'k');
        }
    }
}

/// Whether a match is put down to this rule with this value.
pub open spec fn put_down_to(a: AnswerV, rule: Seq<char>, value: Seq<char>) -> bool {
    a matches AnswerV::Match(r) && r.rule == rule && r.value == Some(value)
}

/// The overlay shows every match with its reason; without one it says that nothing matches, or
/// that it is not yet known. The rules are broken down only once the answer is there.
pub proof fn the_overlay_shows_the_report(r: ReportV, i: int)
    ensures
        r.matched_profiles.len() == 0 ==> matched_lines(r).len() == 1 && matched_lines(r)[0][0].text
            == if r.cross_pending {
            "(pending — some rules not yet indexed)"@
        } else {
            "Matches no profile"@
        },
        0 <= i < r.matched_profiles.len() ==> matched_lines(r).len() == r.matched_profiles.len() + 1
            && matched_lines(r)[i + 1][0].text == "   "@ + r.matched_profiles[i].0 + "   "@
            + r.matched_profiles[i].1,
        r.this_pending ==> breakdown_lines(r).len() == 1,
        !r.this_pending && 0 <= i < r.this_rules.len() ==> breakdown_lines(r).len()
            == r.this_rules.len() && breakdown_lines(r)[i][0].text == (if r.this_rules[i].1 {
            "   ● "@
        } else {
            "   ╴ "@
        }) && breakdown_lines(r)[i][1].text == r.this_rules[i].0,
{
}

} // verus!
