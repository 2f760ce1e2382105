//! Detection from indexed signals: which profiles a scanned repo matches, and
//! by which rule, without touching the disk. A rule whose question was never
//! indexed for the repo has no answer, and the verdict says so.

use vstd::prelude::*;

use crate::list;
use crate::profile::config::{ContentV, Detect, DetectV, Profile, ProfileV, Profiles};
use crate::profile::discover::{RepoSignal, SignalV};
use crate::text::{join2, join3, same, starts_with};

verus! {

/// The question "does the repo root hold this file?".
pub open spec fn file_atom(f: Seq<char>) -> Seq<char> {
    "file:"@ + f
}

/// The question "does any file match this glob?".
pub open spec fn glob_atom(g: Seq<char>) -> Seq<char> {
    "glob:"@ + g
}

/// A content rule as shown to the user.
pub open spec fn content_value(file: Seq<char>, word: Seq<char>) -> Seq<char> {
    file + " → "@ + word
}

/// The question "does this file contain this word?".
pub open spec fn content_atom(file: Seq<char>, word: Seq<char>) -> Seq<char> {
    "content:"@ + content_value(file, word)
}

/// The question "does package.json depend on this?".
pub open spec fn dep_atom(d: Seq<char>) -> Seq<char> {
    "dep:"@ + d
}

/// The question "does a dependency file mention this keyword?".
pub open spec fn keyword_atom(k: Seq<char>) -> Seq<char> {
    "kw:"@ + k
}

/// The atom of a marker-file rule.
pub fn atom_file(f: &str) -> (r: String)
    ensures
        r@ == file_atom(f@),
{
    join2("file:", f)
}

/// The atom of a marker-glob rule.
pub fn atom_glob(g: &str) -> (r: String)
    ensures
        r@ == glob_atom(g@),
{
    join2("glob:", g)
}

/// The atom of a content rule.
pub fn atom_content(file: &str, word: &str) -> (r: String)
    ensures
        r@ == content_atom(file@, word@),
{
    join2("content:", join3(file, " → ", word).as_str())
}

/// The atom of a package.json dependency rule.
pub fn atom_dep(d: &str) -> (r: String)
    ensures
        r@ == dep_atom(d@),
{
    join2("dep:", d)
}

/// The atom of a dependency-keyword rule.
pub fn atom_keyword(k: &str) -> (r: String)
    ensures
        r@ == keyword_atom(k@),
{
    join2("kw:", k)
}

/// Why a profile matched: the kind of rule, and its value.
#[derive(Debug, PartialEq, Eq)]
pub struct MatchReason {
    pub rule: &'static str,
    pub value: Option<String>,
}

/// The texts of a match reason.
pub struct ReasonV {
    pub rule: Seq<char>,
    pub value: Option<Seq<char>>,
}

impl View for MatchReason {
    type V = ReasonV;

    open spec fn view(&self) -> ReasonV {
        ReasonV { rule: self.rule@, value: crate::profile::discover::text_of(self.value) }
    }
}

impl DeepView for MatchReason {
    type V = ReasonV;

    open spec fn deep_view(&self) -> ReasonV {
        self@
    }
}

/// Verdict on one profile.
#[derive(Debug, PartialEq, Eq)]
pub enum ProfileAnswer {
    Match(MatchReason),
    NoMatch,
    Unknown,
}

/// A verdict over texts.
pub enum AnswerV {
    Match(ReasonV),
    NoMatch,
    Unknown,
}

impl View for ProfileAnswer {
    type V = AnswerV;

    open spec fn view(&self) -> AnswerV {
        match *self {
            ProfileAnswer::Match(r) => AnswerV::Match(r@),
            ProfileAnswer::NoMatch => AnswerV::NoMatch,
            ProfileAnswer::Unknown => AnswerV::Unknown,
        }
    }
}

/// One rule put to one repo: what it is, and the answer if there is one.
pub struct CheckV {
    pub rule: Seq<char>,
    pub value: Seq<char>,
    pub answer: Option<bool>,
}

struct Check {
    rule: &'static str,
    value: String,
    answer: Option<bool>,
}

impl DeepView for Check {
    type V = CheckV;

    closed spec fn deep_view(&self) -> CheckV {
        CheckV { rule: self.rule@, value: self.value@, answer: self.answer }
    }
}

/// The indexed answer to an atom, if it was asked.
pub open spec fn hit(sig: SignalV, atom: Seq<char>) -> Option<bool> {
    if sig.rule_hits.contains_key(atom) {
        Some(sig.rule_hits[atom])
    } else {
        None
    }
}

/// Whether some content rule reads file `f`.
pub open spec fn gated(d: DetectV, f: Seq<char>) -> bool {
    exists|i: int| 0 <= i < d.content.len() && (#[trigger] d.content[i]).file == f
}

/// The marker files that no content rule reads: mere presence of the others decides nothing.
pub open spec fn free_markers(d: DetectV) -> Seq<Seq<char>> {
    d.marker_files.filter(|f: Seq<char>| !gated(d, f))
}

/// The path-prefix rules of `d`, put to `sig`.
pub open spec fn path_checks(sig: SignalV, d: DetectV) -> Seq<CheckV> {
    d.path_prefixes.map_values(
        |p: Seq<char>|
            CheckV { rule: "path_prefix"@, value: p, answer: Some(p.is_prefix_of(sig.path)) },
    )
}

/// The marker-file rules of `d`, put to `sig`.
pub open spec fn file_checks(sig: SignalV, d: DetectV) -> Seq<CheckV> {
    free_markers(d).map_values(
        |f: Seq<char>|
            CheckV { rule: "marker_file"@, value: f, answer: hit(sig, file_atom(f)) },
    )
}

/// The marker-glob rules of `d`, put to `sig`.
pub open spec fn glob_checks(sig: SignalV, d: DetectV) -> Seq<CheckV> {
    d.marker_globs.map_values(
        |g: Seq<char>|
            CheckV { rule: "marker_glob"@, value: g, answer: hit(sig, glob_atom(g)) },
    )
}

/// The content rules of `d`, put to `sig`.
pub open spec fn content_checks(sig: SignalV, d: DetectV) -> Seq<CheckV> {
    d.content.map_values(
        |c: ContentV|
            CheckV {
                rule: "content"@,
                value: content_value(c.file, c.word),
                answer: hit(sig, content_atom(c.file, c.word)),
            },
    )
}

/// The package.json dependency rules of `d`, put to `sig`.
pub open spec fn dep_checks(sig: SignalV, d: DetectV) -> Seq<CheckV> {
    d.package_json_deps.map_values(
        |p: Seq<char>|
            CheckV { rule: "package_json_dep"@, value: p, answer: hit(sig, dep_atom(p)) },
    )
}

/// The dependency-keyword rules of `d`, put to `sig`.
pub open spec fn keyword_checks(sig: SignalV, d: DetectV) -> Seq<CheckV> {
    d.deps_keywords.map_values(
        |k: Seq<char>|
            CheckV { rule: "deps_keyword"@, value: k, answer: hit(sig, keyword_atom(k)) },
    )
}

/// All rules of `d` put to `sig`, in the order in which they are tried.
pub open spec fn checks(sig: SignalV, d: DetectV) -> Seq<CheckV> {
    path_checks(sig, d) + file_checks(sig, d) + glob_checks(sig, d) + content_checks(sig, d)
        + dep_checks(sig, d) + keyword_checks(sig, d)
}

/// The first rule that holds decides; without one, a missing answer leaves the verdict open.
pub open spec fn verdict(cs: Seq<CheckV>) -> AnswerV
    decreases cs.len(),
{
    if cs.len() == 0 {
        AnswerV::NoMatch
    } else {
        match verdict(cs.drop_last()) {
            AnswerV::Match(r) => AnswerV::Match(r),
            before => match cs.last().answer {
                Some(true) => AnswerV::Match(
                    ReasonV { rule: cs.last().rule, value: Some(cs.last().value) },
                ),
                Some(false) => before,
                None => AnswerV::Unknown,
            },
        }
    }
}

/// The verdict of rules `d` on repo `sig`.
pub open spec fn answer(sig: SignalV, d: DetectV) -> AnswerV {
    verdict(checks(sig, d))
}

/// A match names the first rule that holds, and nothing before it holds.
pub proof fn verdict_match_is_first_hit(cs: Seq<CheckV>)
    ensures
        verdict(cs) is Match <==> exists|i: int|
            0 <= i < cs.len() && (#[trigger] cs[i]).answer == Some(true),
        verdict(cs) matches AnswerV::Match(r) ==> exists|i: int|
            {
                &&& 0 <= i < cs.len()
                &&& (#[trigger] cs[i]).answer == Some(true)
                &&& r == (ReasonV { rule: cs[i].rule, value: Some(cs[i].value) })
                &&& forall|j: int| 0 <= j < i ==> (#[trigger] cs[j]).answer != Some(true)
            },
    decreases cs.len(),
{
    if cs.len() > 0 {
        let t = cs.drop_last();
        verdict_match_is_first_hit(t);
        if verdict(t) is Match {
            let i = choose|i: int|
                {
                    &&& 0 <= i < t.len()
                    &&& (#[trigger] t[i]).answer == Some(true)
                    &&& verdict(t)->Match_0 == (ReasonV {
                        rule: t[i].rule,
                        value: Some(t[i].value),
                    })
                    &&& forall|j: int| 0 <= j < i ==> (#[trigger] t[j]).answer != Some(true)
                };
            assert(cs[i].answer == Some(true));
            assert forall|j: int| 0 <= j < i implies (#[trigger] cs[j]).answer != Some(true) by {
                assert(t[j].answer != Some(true));
            }
        } else {
            assert forall|j: int| 0 <= j < t.len() implies (#[trigger] cs[j]).answer != Some(
                true,
            ) by {
                assert(t[j].answer != Some(true));
            }
            if cs.last().answer == Some(true) {
                assert(cs[cs.len() - 1].answer == Some(true));
            }
        }
    }
}

/// The verdict is open exactly when no rule holds and some rule has no answer.
pub proof fn verdict_unknown_iff_undecided(cs: Seq<CheckV>)
    ensures
        verdict(cs) is Unknown <==> {
            &&& forall|i: int| 0 <= i < cs.len() ==> (#[trigger] cs[i]).answer != Some(true)
            &&& exists|i: int| 0 <= i < cs.len() && (#[trigger] cs[i]).answer is None
        },
    decreases cs.len(),
{
    verdict_match_is_first_hit(cs);
    if cs.len() > 0 {
        let t = cs.drop_last();
        verdict_unknown_iff_undecided(t);
        verdict_match_is_first_hit(t);
        if verdict(t) is Unknown {
            let i = choose|i: int| 0 <= i < t.len() && (#[trigger] t[i]).answer is None;
            assert(cs[i].answer is None);
        }
        if cs.last().answer is None {
            assert(cs[cs.len() - 1].answer is None);
        }
        if exists|i: int| 0 <= i < cs.len() && (#[trigger] cs[i]).answer is None {
            let i = choose|i: int| 0 <= i < cs.len() && (#[trigger] cs[i]).answer is None;
            if i < t.len() {
                assert(t[i].answer is None);
            }
        }
        if verdict(cs) is Unknown {
            assert forall|i: int| 0 <= i < t.len() implies (#[trigger] t[i]).answer != Some(
                true,
            ) by {
                assert(cs[i].answer != Some(true));
            }
        }
    }
}

/// Whether some rule that was put has this answer.
spec fn answered(cs: Seq<CheckV>, a: Option<bool>) -> bool {
    exists|i: int| 0 <= i < cs.len() && (#[trigger] cs[i]).answer == a
}

proof fn lemma_answered_in_both(a: Seq<CheckV>, b: Seq<CheckV>, x: Option<bool>)
    ensures
        answered(a + b, x) <==> answered(a, x) || answered(b, x),
{
    let c = a + b;
    if answered(c, x) {
        let i = choose|i: int| 0 <= i < c.len() && (#[trigger] c[i]).answer == x;
        if i < a.len() {
            assert(a[i].answer == x);
        } else {
            assert(b[i - a.len()].answer == x);
        }
    }
    if answered(a, x) {
        let i = choose|i: int| 0 <= i < a.len() && (#[trigger] a[i]).answer == x;
        assert(c[i].answer == x);
    }
    if answered(b, x) {
        let i = choose|i: int| 0 <= i < b.len() && (#[trigger] b[i]).answer == x;
        assert(c[a.len() + i].answer == x);
    }
}

proof fn lemma_answered_parts(sig: SignalV, d: DetectV, x: Option<bool>)
    ensures
        answered(checks(sig, d), x) <==> {
            ||| answered(path_checks(sig, d), x)
            ||| answered(file_checks(sig, d), x)
            ||| answered(glob_checks(sig, d), x)
            ||| answered(content_checks(sig, d), x)
            ||| answered(dep_checks(sig, d), x)
            ||| answered(keyword_checks(sig, d), x)
        },
{
    let a = path_checks(sig, d);
    let b = a + file_checks(sig, d);
    let c = b + glob_checks(sig, d);
    let e = c + content_checks(sig, d);
    let f = e + dep_checks(sig, d);
    lemma_answered_in_both(a, file_checks(sig, d), x);
    lemma_answered_in_both(b, glob_checks(sig, d), x);
    lemma_answered_in_both(c, content_checks(sig, d), x);
    lemma_answered_in_both(e, dep_checks(sig, d), x);
    lemma_answered_in_both(f, keyword_checks(sig, d), x);
}

/// Whether `f` is a marker file that decides by being there: no content rule reads it.
pub open spec fn decides_alone(d: DetectV, f: Seq<char>) -> bool {
    &&& d.marker_files.contains(f)
    &&& forall|j: int| 0 <= j < d.content.len() ==> (#[trigger] d.content[j]).file != f
}

proof fn lemma_free_markers(d: DetectV)
    ensures
        forall|f: Seq<char>| #[trigger] free_markers(d).contains(f) <==> decides_alone(d, f),
{
    list::lemma_filter_contains(d.marker_files, |f: Seq<char>| !gated(d, f));
    assert forall|f: Seq<char>| #[trigger] free_markers(d).contains(f) <==> decides_alone(d, f) by {
        assert(free_markers(d).contains(f) <==> d.marker_files.contains(f) && !gated(d, f));
    }
}

/// A repo matches rules just when one of them holds: it lies under one of the prefixes,
/// or the index says yes to a marker file that no content rule reads, to a glob, to a
/// word in a file, to a dependency or to a keyword.
pub proof fn a_repo_matches_by_what_it_has(sig: SignalV, d: DetectV)
    ensures
        answer(sig, d) is Match <==> {
            ||| exists|i: int|
                0 <= i < d.path_prefixes.len() && (#[trigger] d.path_prefixes[i]).is_prefix_of(
                    sig.path,
                )
            ||| exists|f: Seq<char>| #[trigger]
                decides_alone(d, f) && sig.rule_hits.contains_pair("file:"@ + f, true)
            ||| exists|i: int|
                0 <= i < d.marker_globs.len() && sig.rule_hits.contains_pair(
                    "glob:"@ + #[trigger] d.marker_globs[i],
                    true,
                )
            ||| exists|i: int|
                0 <= i < d.content.len() && sig.rule_hits.contains_pair(
                    "content:"@ + ((#[trigger] d.content[i]).file + " → "@ + d.content[i].word),
                    true,
                )
            ||| exists|i: int|
                0 <= i < d.package_json_deps.len() && sig.rule_hits.contains_pair(
                    "dep:"@ + #[trigger] d.package_json_deps[i],
                    true,
                )
            ||| exists|i: int|
                0 <= i < d.deps_keywords.len() && sig.rule_hits.contains_pair(
                    "kw:"@ + #[trigger] d.deps_keywords[i],
                    true,
                )
        },
{
    let yes = Some(true);
    verdict_match_is_first_hit(checks(sig, d));
    lemma_answered_parts(sig, d, yes);
    lemma_free_markers(d);
    let free = free_markers(d);
    let (p, m, g, c, e, k) = (
        path_checks(sig, d),
        file_checks(sig, d),
        glob_checks(sig, d),
        content_checks(sig, d),
        dep_checks(sig, d),
        keyword_checks(sig, d),
    );
    if answered(p, yes) {
        let i = choose|i: int| 0 <= i < p.len() && (#[trigger] p[i]).answer == yes;
        assert(d.path_prefixes[i].is_prefix_of(sig.path));
    }
    if answered(m, yes) {
        let i = choose|i: int| 0 <= i < m.len() && (#[trigger] m[i]).answer == yes;
        assert(free.contains(free[i]));
        assert(decides_alone(d, free[i]));
    }
    if answered(g, yes) {
        let i = choose|i: int| 0 <= i < g.len() && (#[trigger] g[i]).answer == yes;
        assert(sig.rule_hits.contains_pair("glob:"@ + d.marker_globs[i], true));
    }
    if answered(c, yes) {
        let i = choose|i: int| 0 <= i < c.len() && (#[trigger] c[i]).answer == yes;
        let r = d.content[i];
        assert(sig.rule_hits.contains_pair("content:"@ + (r.file + " → "@ + r.word), true));
    }
    if answered(e, yes) {
        let i = choose|i: int| 0 <= i < e.len() && (#[trigger] e[i]).answer == yes;
        assert(sig.rule_hits.contains_pair("dep:"@ + d.package_json_deps[i], true));
    }
    if answered(k, yes) {
        let i = choose|i: int| 0 <= i < k.len() && (#[trigger] k[i]).answer == yes;
        assert(sig.rule_hits.contains_pair("kw:"@ + d.deps_keywords[i], true));
    }
    assert forall|i: int|
        0 <= i < d.path_prefixes.len() && (#[trigger] d.path_prefixes[i]).is_prefix_of(
            sig.path,
        ) implies answered(p, yes) by {
        assert(p[i].answer == yes);
    }
    assert forall|f: Seq<char>| #[trigger]
        decides_alone(d, f) && sig.rule_hits.contains_pair("file:"@ + f, true) implies answered(
        m,
        yes,
    ) by {
        assert(free.contains(f));
        let i = choose|i: int| 0 <= i < free.len() && free[i] == f;
        assert(m[i].answer == yes);
    }
    assert forall|i: int|
        0 <= i < d.marker_globs.len() && sig.rule_hits.contains_pair(
            "glob:"@ + #[trigger] d.marker_globs[i],
            true,
        ) implies answered(g, yes) by {
        assert(g[i].answer == yes);
    }
    assert forall|i: int|
        0 <= i < d.content.len() && sig.rule_hits.contains_pair(
            "content:"@ + ((#[trigger] d.content[i]).file + " → "@ + d.content[i].word),
            true,
        ) implies answered(c, yes) by {
        assert(c[i].answer == yes);
    }
    assert forall|i: int|
        0 <= i < d.package_json_deps.len() && sig.rule_hits.contains_pair(
            "dep:"@ + #[trigger] d.package_json_deps[i],
            true,
        ) implies answered(e, yes) by {
        assert(e[i].answer == yes);
    }
    assert forall|i: int|
        0 <= i < d.deps_keywords.len() && sig.rule_hits.contains_pair(
            "kw:"@ + #[trigger] d.deps_keywords[i],
            true,
        ) implies answered(k, yes) by {
        assert(k[i].answer == yes);
    }
}

/// Rules that no answer decides stay open just when the index lacks an answer that one of
/// them asks for: a question that was never put is no "no".
pub proof fn a_missing_answer_leaves_it_open(sig: SignalV, d: DetectV)
    ensures
        answer(sig, d) is Unknown <==> !(answer(sig, d) is Match) && {
            ||| exists|f: Seq<char>| #[trigger]
                decides_alone(d, f) && !sig.rule_hits.contains_key("file:"@ + f)
            ||| exists|i: int|
                0 <= i < d.marker_globs.len() && !sig.rule_hits.contains_key(
                    "glob:"@ + #[trigger] d.marker_globs[i],
                )
            ||| exists|i: int|
                0 <= i < d.content.len() && !sig.rule_hits.contains_key(
                    "content:"@ + ((#[trigger] d.content[i]).file + " → "@ + d.content[i].word),
                )
            ||| exists|i: int|
                0 <= i < d.package_json_deps.len() && !sig.rule_hits.contains_key(
                    "dep:"@ + #[trigger] d.package_json_deps[i],
                )
            ||| exists|i: int|
                0 <= i < d.deps_keywords.len() && !sig.rule_hits.contains_key(
                    "kw:"@ + #[trigger] d.deps_keywords[i],
                )
        },
{
    let none: Option<bool> = None;
    verdict_match_is_first_hit(checks(sig, d));
    verdict_unknown_iff_undecided(checks(sig, d));
    lemma_answered_parts(sig, d, none);
    lemma_free_markers(d);
    let free = free_markers(d);
    let (p, m, g, c, e, k) = (
        path_checks(sig, d),
        file_checks(sig, d),
        glob_checks(sig, d),
        content_checks(sig, d),
        dep_checks(sig, d),
        keyword_checks(sig, d),
    );
    assert(!answered(p, none));
    if answered(m, none) {
        let i = choose|i: int| 0 <= i < m.len() && (#[trigger] m[i]).answer == none;
        assert(free.contains(free[i]));
        assert(decides_alone(d, free[i]));
    }
    if answered(g, none) {
        let i = choose|i: int| 0 <= i < g.len() && (#[trigger] g[i]).answer == none;
        assert(!sig.rule_hits.contains_key("glob:"@ + d.marker_globs[i]));
    }
    if answered(c, none) {
        let i = choose|i: int| 0 <= i < c.len() && (#[trigger] c[i]).answer == none;
        let r = d.content[i];
        assert(!sig.rule_hits.contains_key("content:"@ + (r.file + " → "@ + r.word)));
    }
    if answered(e, none) {
        let i = choose|i: int| 0 <= i < e.len() && (#[trigger] e[i]).answer == none;
        assert(!sig.rule_hits.contains_key("dep:"@ + d.package_json_deps[i]));
    }
    if answered(k, none) {
        let i = choose|i: int| 0 <= i < k.len() && (#[trigger] k[i]).answer == none;
        assert(!sig.rule_hits.contains_key("kw:"@ + d.deps_keywords[i]));
    }
    assert forall|f: Seq<char>| #[trigger]
        decides_alone(d, f) && !sig.rule_hits.contains_key("file:"@ + f) implies answered(
        m,
        none,
    ) by {
        assert(free.contains(f));
        let i = choose|i: int| 0 <= i < free.len() && free[i] == f;
        assert(m[i].answer == none);
    }
    assert forall|i: int|
        0 <= i < d.marker_globs.len() && !sig.rule_hits.contains_key(
            "glob:"@ + #[trigger] d.marker_globs[i],
        ) implies answered(g, none) by {
        assert(g[i].answer == none);
    }
    assert forall|i: int|
        0 <= i < d.content.len() && !sig.rule_hits.contains_key(
            "content:"@ + ((#[trigger] d.content[i]).file + " → "@ + d.content[i].word),
        ) implies answered(c, none) by {
        assert(c[i].answer == none);
    }
    assert forall|i: int|
        0 <= i < d.package_json_deps.len() && !sig.rule_hits.contains_key(
            "dep:"@ + #[trigger] d.package_json_deps[i],
        ) implies answered(e, none) by {
        assert(e[i].answer == none);
    }
    assert forall|i: int|
        0 <= i < d.deps_keywords.len() && !sig.rule_hits.contains_key(
            "kw:"@ + #[trigger] d.deps_keywords[i],
        ) implies answered(k, none) by {
        assert(k[i].answer == none);
    }
}

/// A match is put down to a rule that the profile has and that holds, by its kind and its
/// value.
pub proof fn a_match_names_a_rule_that_holds(sig: SignalV, d: DetectV)
    ensures
        answer(sig, d) matches AnswerV::Match(r) ==> (r.value matches Some(v) && {
            ||| r.rule == "path_prefix"@ && d.path_prefixes.contains(v) && v.is_prefix_of(sig.path)
            ||| r.rule == "marker_file"@ && decides_alone(d, v) && sig.rule_hits.contains_pair(
                "file:"@ + v,
                true,
            )
            ||| r.rule == "marker_glob"@ && d.marker_globs.contains(v)
                && sig.rule_hits.contains_pair("glob:"@ + v, true)
            ||| r.rule == "content"@ && sig.rule_hits.contains_pair("content:"@ + v, true)
                && exists|i: int|
                0 <= i < d.content.len() && v == (#[trigger] d.content[i]).file + " → "@
                    + d.content[i].word
            ||| r.rule == "package_json_dep"@ && d.package_json_deps.contains(v)
                && sig.rule_hits.contains_pair("dep:"@ + v, true)
            ||| r.rule == "deps_keyword"@ && d.deps_keywords.contains(v)
                && sig.rule_hits.contains_pair("kw:"@ + v, true)
        }),
{
    let cs = checks(sig, d);
    verdict_match_is_first_hit(cs);
    lemma_free_markers(d);
    if let AnswerV::Match(r) = answer(sig, d) {
        let i = choose|i: int|
            {
                &&& 0 <= i < cs.len()
                &&& (#[trigger] cs[i]).answer == Some(true)
                &&& r == (ReasonV { rule: cs[i].rule, value: Some(cs[i].value) })
                &&& forall|j: int| 0 <= j < i ==> (#[trigger] cs[j]).answer != Some(true)
            };
        let free = free_markers(d);
        let a = d.path_prefixes.len() as int;
        let b = a + free.len();
        let c = b + d.marker_globs.len();
        let e = c + d.content.len();
        let f = e + d.package_json_deps.len();
        if i < a {
            assert(cs[i] == path_checks(sig, d)[i]);
            assert(d.path_prefixes.contains(d.path_prefixes[i]));
        } else if i < b {
            assert(cs[i] == file_checks(sig, d)[i - a]);
            assert(free.contains(free[i - a]));
        } else if i < c {
            assert(cs[i] == glob_checks(sig, d)[i - b]);
            assert(d.marker_globs.contains(d.marker_globs[i - b]));
        } else if i < e {
            assert(cs[i] == content_checks(sig, d)[i - c]);
            let x = d.content[i - c];
            assert(r.value == Some(x.file + " → "@ + x.word));
        } else if i < f {
            assert(cs[i] == dep_checks(sig, d)[i - e]);
            assert(d.package_json_deps.contains(d.package_json_deps[i - e]));
        } else {
            assert(cs[i] == keyword_checks(sig, d)[i - f]);
            assert(d.deps_keywords.contains(d.deps_keywords[i - f]));
        }
    }
}

/// Rules are tried in the order path prefixes, marker files, globs, words in files,
/// dependencies, keywords: a match is put down to a prefix if one holds, else to a file if
/// one does, and so on.
pub proof fn rules_are_tried_in_order(sig: SignalV, d: DetectV)
    ensures
        answer(sig, d) matches AnswerV::Match(r) ==> {
            let under = exists|i: int|
                0 <= i < d.path_prefixes.len() && (#[trigger] d.path_prefixes[i]).is_prefix_of(
                    sig.path,
                );
            let file = exists|f: Seq<char>| #[trigger]
                decides_alone(d, f) && sig.rule_hits.contains_pair("file:"@ + f, true);
            let glob = exists|i: int|
                0 <= i < d.marker_globs.len() && sig.rule_hits.contains_pair(
                    "glob:"@ + #[trigger] d.marker_globs[i],
                    true,
                );
            let word = exists|i: int|
                0 <= i < d.content.len() && sig.rule_hits.contains_pair(
                    "content:"@ + ((#[trigger] d.content[i]).file + " → "@ + d.content[i].word),
                    true,
                );
            let dep = exists|i: int|
                0 <= i < d.package_json_deps.len() && sig.rule_hits.contains_pair(
                    "dep:"@ + #[trigger] d.package_json_deps[i],
                    true,
                );
            r.rule == if under {
                "path_prefix"@
            } else if file {
                "marker_file"@
            } else if glob {
                "marker_glob"@
            } else if word {
                "content"@
            } else if dep {
                "package_json_dep"@
            } else {
                "deps_keyword"@
            }
        },
{
    let cs = checks(sig, d);
    verdict_match_is_first_hit(cs);
    lemma_free_markers(d);
    if let AnswerV::Match(r) = answer(sig, d) {
        let i = choose|i: int|
            {
                &&& 0 <= i < cs.len()
                &&& (#[trigger] cs[i]).answer == Some(true)
                &&& r == (ReasonV { rule: cs[i].rule, value: Some(cs[i].value) })
                &&& forall|j: int| 0 <= j < i ==> (#[trigger] cs[j]).answer != Some(true)
            };
        let free = free_markers(d);
        let a = d.path_prefixes.len() as int;
        let b = a + free.len();
        let c = b + d.marker_globs.len();
        let e = c + d.content.len();
        let f = e + d.package_json_deps.len();
        assert forall|k: int|
            0 <= k < a && (#[trigger] d.path_prefixes[k]).is_prefix_of(sig.path) implies i <= k by {
            assert(cs[k] == path_checks(sig, d)[k]);
        }
        assert forall|x: Seq<char>| #[trigger]
            decides_alone(d, x) && sig.rule_hits.contains_pair("file:"@ + x, true) implies i < b by {
            assert(free.contains(x));
            let k = choose|k: int| 0 <= k < free.len() && free[k] == x;
            assert(cs[a + k] == file_checks(sig, d)[k]);
        }
        assert forall|k: int|
            0 <= k < d.marker_globs.len() && sig.rule_hits.contains_pair(
                "glob:"@ + #[trigger] d.marker_globs[k],
                true,
            ) implies i < c by {
            assert(cs[b + k] == glob_checks(sig, d)[k]);
        }
        assert forall|k: int|
            0 <= k < d.content.len() && sig.rule_hits.contains_pair(
                "content:"@ + ((#[trigger] d.content[k]).file + " → "@ + d.content[k].word),
                true,
            ) implies i < e by {
            assert(cs[c + k] == content_checks(sig, d)[k]);
        }
        assert forall|k: int|
            0 <= k < d.package_json_deps.len() && sig.rule_hits.contains_pair(
                "dep:"@ + #[trigger] d.package_json_deps[k],
                true,
            ) implies i < f by {
            assert(cs[e + k] == dep_checks(sig, d)[k]);
        }
        if i < a {
            assert(cs[i] == path_checks(sig, d)[i]);
            assert(d.path_prefixes[i].is_prefix_of(sig.path));
        } else if i < b {
            assert(cs[i] == file_checks(sig, d)[i - a]);
            assert(free.contains(free[i - a]));
            assert(decides_alone(d, free[i - a]));
        } else if i < c {
            assert(cs[i] == glob_checks(sig, d)[i - b]);
            assert(sig.rule_hits.contains_pair("glob:"@ + d.marker_globs[i - b], true));
        } else if i < e {
            assert(cs[i] == content_checks(sig, d)[i - c]);
            let x = d.content[i - c];
            assert(sig.rule_hits.contains_pair("content:"@ + (x.file + " → "@ + x.word), true));
        } else if i < f {
            assert(cs[i] == dep_checks(sig, d)[i - e]);
            assert(sig.rule_hits.contains_pair("dep:"@ + d.package_json_deps[i - e], true));
        } else {
            assert(cs[i] == keyword_checks(sig, d)[i - f]);
        }
    }
}

fn lookup(sig: &RepoSignal, atom: &str) -> (r: Option<bool>)
    ensures
        r == hit(sig@, atom@),
{
    match sig.rule_hits.get(atom) {
        Some(b) => Some(*b),
        None => None,
    }
}

fn reads_file(d: &Detect, f: &str) -> (r: bool)
    ensures
        r == gated(d@, f@),
{
    let mut i: usize = 0;
    while i < d.content.len()
        invariant
            i <= d.content.len(),
            forall|j: int| 0 <= j < i ==> (#[trigger] d.content[j]).file@ != f@,
        decreases d.content.len() - i,
    {
        if same(d.content[i].file.as_str(), f) {
            assert(d@.content[i as int].file == f@);
            return true;
        }
        i += 1;
    }
    assert forall|j: int| 0 <= j < d@.content.len() implies (#[trigger] d@.content[j]).file
        != f@ by {
        assert(d.content[j].file@ != f@);
    }
    false
}

fn markers_unread(d: &Detect) -> (r: Vec<String>)
    ensures
        r.deep_view() == free_markers(d@),
{
    let mut out: Vec<String> = Vec::new();
    let mut i: usize = 0;
    let ghost p = |f: Seq<char>| !gated(d@, f);
    let ghost all = d@.marker_files;
    proof {
        list::lemma_filter_empty::<Seq<char>>(p);
        assert(all.take(0) =~= Seq::<Seq<char>>::empty());
        assert(out.deep_view() =~= Seq::<Seq<char>>::empty());
    }
    while i < d.marker_files.len()
        invariant
            i <= d.marker_files.len(),
            all == d@.marker_files,
            p == (|f: Seq<char>| !gated(d@, f)),
            out.deep_view() == all.take(i as int).filter(p),
        decreases d.marker_files.len() - i,
    {
        let ghost before = out.deep_view();
        proof {
            list::lemma_filter_push(all.take(i as int), all[i as int], p);
            assert(all.take(i as int).push(all[i as int]) =~= all.take(i + 1));
        }
        let read = reads_file(d, d.marker_files[i].as_str());
        if !read {
            out.push(d.marker_files[i].clone());
            assert(out.deep_view() =~= before.push(all[i as int]));
        }
        i += 1;
    }
    assert(all.take(i as int) =~= all);
    out
}

fn push_paths(out: &mut Vec<Check>, sig: &RepoSignal, d: &Detect)
    ensures
        final(out).deep_view() == old(out).deep_view() + path_checks(sig@, d@),
{
    let ghost base = out.deep_view();
    let ghost part = path_checks(sig@, d@);
    let mut i: usize = 0;
    while i < d.path_prefixes.len()
        invariant
            i <= d.path_prefixes.len(),
            part == path_checks(sig@, d@),
            out.deep_view() =~= base + part.take(i as int),
        decreases d.path_prefixes.len() - i,
    {
        let p = d.path_prefixes[i].clone();
        let a = starts_with(sig.path.as_str(), p.as_str());
        let ghost before = out.deep_view();
        out.push(Check { rule: "path_prefix", value: p, answer: Some(a) });
        assert(out.deep_view() =~= before.push(part[i as int]));
        i += 1;
    }
    assert(part.take(i as int) =~= part);
}

fn push_files(out: &mut Vec<Check>, sig: &RepoSignal, d: &Detect)
    ensures
        final(out).deep_view() == old(out).deep_view() + file_checks(sig@, d@),
{
    let ghost base = out.deep_view();
    let ghost part = file_checks(sig@, d@);
    let files = markers_unread(d);
    let mut i: usize = 0;
    while i < files.len()
        invariant
            i <= files.len(),
            files.deep_view() == free_markers(d@),
            part == file_checks(sig@, d@),
            out.deep_view() =~= base + part.take(i as int),
        decreases files.len() - i,
    {
        let f = files[i].clone();
        assert(f@ == files.deep_view()[i as int]);
        let a = lookup(sig, atom_file(f.as_str()).as_str());
        let ghost before = out.deep_view();
        out.push(Check { rule: "marker_file", value: f, answer: a });
        assert(out.deep_view() =~= before.push(part[i as int]));
        i += 1;
    }
    assert(part.take(i as int) =~= part);
}

fn push_globs(out: &mut Vec<Check>, sig: &RepoSignal, d: &Detect)
    ensures
        final(out).deep_view() == old(out).deep_view() + glob_checks(sig@, d@),
{
    let ghost base = out.deep_view();
    let ghost part = glob_checks(sig@, d@);
    let mut i: usize = 0;
    while i < d.marker_globs.len()
        invariant
            i <= d.marker_globs.len(),
            part == glob_checks(sig@, d@),
            out.deep_view() =~= base + part.take(i as int),
        decreases d.marker_globs.len() - i,
    {
        let g = d.marker_globs[i].clone();
        let a = lookup(sig, atom_glob(g.as_str()).as_str());
        let ghost before = out.deep_view();
        out.push(Check { rule: "marker_glob", value: g, answer: a });
        assert(out.deep_view() =~= before.push(part[i as int]));
        i += 1;
    }
    assert(part.take(i as int) =~= part);
}

fn push_content(out: &mut Vec<Check>, sig: &RepoSignal, d: &Detect)
    ensures
        final(out).deep_view() == old(out).deep_view() + content_checks(sig@, d@),
{
    let ghost base = out.deep_view();
    let ghost part = content_checks(sig@, d@);
    let mut i: usize = 0;
    while i < d.content.len()
        invariant
            i <= d.content.len(),
            part == content_checks(sig@, d@),
            out.deep_view() =~= base + part.take(i as int),
        decreases d.content.len() - i,
    {
        let c = &d.content[i];
        let a = lookup(sig, atom_content(c.file.as_str(), c.word.as_str()).as_str());
        let v = join3(c.file.as_str(), " → ", c.word.as_str());
        let ghost before = out.deep_view();
        out.push(Check { rule: "content", value: v, answer: a });
        assert(out.deep_view() =~= before.push(part[i as int]));
        i += 1;
    }
    assert(part.take(i as int) =~= part);
}

fn push_deps(out: &mut Vec<Check>, sig: &RepoSignal, d: &Detect)
    ensures
        final(out).deep_view() == old(out).deep_view() + dep_checks(sig@, d@),
{
    let ghost base = out.deep_view();
    let ghost part = dep_checks(sig@, d@);
    let mut i: usize = 0;
    while i < d.package_json_deps.len()
        invariant
            i <= d.package_json_deps.len(),
            part == dep_checks(sig@, d@),
            out.deep_view() =~= base + part.take(i as int),
        decreases d.package_json_deps.len() - i,
    {
        let p = d.package_json_deps[i].clone();
        let a = lookup(sig, atom_dep(p.as_str()).as_str());
        let ghost before = out.deep_view();
        out.push(Check { rule: "package_json_dep", value: p, answer: a });
        assert(out.deep_view() =~= before.push(part[i as int]));
        i += 1;
    }
    assert(part.take(i as int) =~= part);
}

fn push_keywords(out: &mut Vec<Check>, sig: &RepoSignal, d: &Detect)
    ensures
        final(out).deep_view() == old(out).deep_view() + keyword_checks(sig@, d@),
{
    let ghost base = out.deep_view();
    let ghost part = keyword_checks(sig@, d@);
    let mut i: usize = 0;
    while i < d.deps_keywords.len()
        invariant
            i <= d.deps_keywords.len(),
            part == keyword_checks(sig@, d@),
            out.deep_view() =~= base + part.take(i as int),
        decreases d.deps_keywords.len() - i,
    {
        let k = d.deps_keywords[i].clone();
        let a = lookup(sig, atom_keyword(k.as_str()).as_str());
        let ghost before = out.deep_view();
        out.push(Check { rule: "deps_keyword", value: k, answer: a });
        assert(out.deep_view() =~= before.push(part[i as int]));
        i += 1;
    }
    assert(part.take(i as int) =~= part);
}

/// The verdict of the rules `d` on `sig`.
pub fn detect_answer(sig: &RepoSignal, d: &Detect) -> (r: ProfileAnswer)
    ensures
        r@ == answer(sig@, d@),
{
    let mut cs: Vec<Check> = Vec::new();
    assert(cs.deep_view() =~= Seq::<CheckV>::empty());
    push_paths(&mut cs, sig, d);
    push_files(&mut cs, sig, d);
    push_globs(&mut cs, sig, d);
    push_content(&mut cs, sig, d);
    push_deps(&mut cs, sig, d);
    push_keywords(&mut cs, sig, d);
    let ghost all = checks(sig@, d@);
    assert(cs.deep_view() =~= all);
    let mut out = ProfileAnswer::NoMatch;
    let mut i: usize = 0;
    while i < cs.len()
        invariant
            i <= cs.len(),
            cs.deep_view() == all,
            out@ == verdict(all.take(i as int)),
        decreases cs.len() - i,
    {
        proof {
            let t = all.take(i + 1);
            assert(t.drop_last() =~= all.take(i as int));
            assert(t.last() == all[i as int]);
            assert(all[i as int] == cs[i as int].deep_view());
        }
        match &out {
            ProfileAnswer::Match(_) => {},
            _ => {
                match cs[i].answer {
                    Some(true) => {
                        out =
                        ProfileAnswer::Match(
                            MatchReason { rule: cs[i].rule, value: Some(cs[i].value.clone()) },
                        );
                    },
                    Some(false) => {},
                    None => {
                        out = ProfileAnswer::Unknown;
                    },
                }
            },
        }
        i += 1;
    }
    assert(all.take(i as int) =~= all);
    out
}

/// The verdict of profile `p` on `sig`.
pub fn profile_answer(sig: &RepoSignal, p: &Profile) -> (r: ProfileAnswer)
    ensures
        r@ == answer(sig@, p@.detect),
{
    detect_answer(sig, &p.detect)
}

/// The profiles of `names` that match, with the rule that decided, in the order of `names`.
pub open spec fn matches_among(
    sig: SignalV,
    names: Seq<Seq<char>>,
    profiles: Map<Seq<char>, ProfileV>,
) -> Seq<(Seq<char>, ReasonV)>
    decreases names.len(),
{
    if names.len() == 0 {
        Seq::empty()
    } else {
        let before = matches_among(sig, names.drop_last(), profiles);
        match answer(sig, profiles[names.last()].detect) {
            AnswerV::Match(r) => before.push((names.last(), r)),
            _ => before,
        }
    }
}

/// Whether some profile of `names` has no verdict yet.
pub open spec fn undecided_among(
    sig: SignalV,
    names: Seq<Seq<char>>,
    profiles: Map<Seq<char>, ProfileV>,
) -> bool {
    exists|i: int|
        0 <= i < names.len() && answer(sig, profiles[#[trigger] names[i]].detect) is Unknown
}

/// The reason given for a profile named by a repo's own override.
pub open spec fn override_reason() -> ReasonV {
    ReasonV { rule: "override"@, value: None }
}

/// The profiles of an override that exist, in the order in which they are named.
pub open spec fn pinned(
    names: Seq<Seq<char>>,
    profiles: Map<Seq<char>, ProfileV>,
) -> Seq<Seq<char>> {
    names.filter(|n: Seq<char>| profiles.contains_key(n))
}

/// The profiles that `sig` matches, with reasons, given the configured names in order.
/// An override replaces the rules.
pub open spec fn explained(
    sig: SignalV,
    names: Seq<Seq<char>>,
    profiles: Map<Seq<char>, ProfileV>,
) -> Seq<(Seq<char>, ReasonV)> {
    match sig.override_names {
        Some(o) => pinned(o, profiles).map_values(|n: Seq<char>| (n, override_reason())),
        None => matches_among(sig, names, profiles),
    }
}

/// The names of the profiles that `sig` matches.
pub open spec fn matched_names(
    sig: SignalV,
    names: Seq<Seq<char>>,
    profiles: Map<Seq<char>, ProfileV>,
) -> Seq<Seq<char>> {
    explained(sig, names, profiles).map_values(|e: (Seq<char>, ReasonV)| e.0)
}

/// Whether the list of matches may still grow: a rule of some profile was never indexed.
pub open spec fn is_pending(
    sig: SignalV,
    names: Seq<Seq<char>>,
    profiles: Map<Seq<char>, ProfileV>,
) -> bool {
    sig.override_names is None && undecided_among(sig, names, profiles)
}

/// Profiles stack: a repo without an override matches every configured profile whose rules
/// it matches, however many there are, in the order of their names, each once and for the
/// reason that its own rules give. The list may grow just when some profile is undecided.
pub proof fn every_matching_profile_is_listed(
    sig: SignalV,
    names: Seq<Seq<char>>,
    profiles: Map<Seq<char>, ProfileV>,
)
    requires
        list::lists(names, profiles.dom()),
        sig.override_names is None,
    ensures
        ({
            let es = explained(sig, names, profiles);
            let ms = matched_names(sig, names, profiles);
            &&& forall|n: Seq<char>| #[trigger]
                ms.contains(n) <==> profiles.contains_key(n) && answer(
                    sig,
                    profiles[n].detect,
                ) is Match
            &&& list::ascending(ms)
            &&& es.len() == ms.len()
            &&& forall|k: int|
                0 <= k < es.len() ==> (#[trigger] es[k]).0 == ms[k] && answer(
                    sig,
                    profiles[ms[k]].detect,
                ) == AnswerV::Match(es[k].1)
        }),
        is_pending(sig, names, profiles) <==> exists|n: Seq<char>| #[trigger]
            profiles.contains_key(n) && answer(sig, profiles[n].detect) is Unknown,
{
    lemma_matches_among(sig, names, profiles);
    let es = explained(sig, names, profiles);
    let ms = matched_names(sig, names, profiles);
    let p = |i: int| answer(sig, profiles[names[i]].detect) is Match;
    let ix = list::picked(names.len() as int, p);
    list::lemma_picked(names.len() as int, p);
    assert forall|k: int| 0 <= k < ms.len() implies #[trigger] ms[k] == names[ix[k]] by {
        assert(p(ix[k]));
    }
    assert forall|n: Seq<char>| #[trigger] ms.contains(n) <==> profiles.contains_key(n) && answer(
        sig,
        profiles[n].detect,
    ) is Match by {
        if ms.contains(n) {
            let k = choose|k: int| 0 <= k < ms.len() && ms[k] == n;
            assert(p(ix[k]));
            assert(names.contains(names[ix[k]]));
        }
        if profiles.contains_key(n) && answer(sig, profiles[n].detect) is Match {
            assert(names.contains(n));
            let i = choose|i: int| 0 <= i < names.len() && names[i] == n;
            assert(p(i));
            let k = choose|k: int| 0 <= k < ix.len() && ix[k] == i;
            assert(ms[k] == n);
        }
    }
    assert forall|k: int| 0 <= k < es.len() implies (#[trigger] es[k]).0 == ms[k] && answer(
        sig,
        profiles[ms[k]].detect,
    ) == AnswerV::Match(es[k].1) by {
        assert(p(ix[k]));
    }
    if is_pending(sig, names, profiles) {
        let i = choose|i: int|
            0 <= i < names.len() && answer(sig, profiles[#[trigger] names[i]].detect) is Unknown;
        assert(names.contains(names[i]));
        assert(profiles.contains_key(names[i]));
    }
    assert forall|n: Seq<char>| #[trigger]
        profiles.contains_key(n) && answer(sig, profiles[n].detect) is Unknown implies is_pending(
        sig,
        names,
        profiles,
    ) by {
        assert(names.contains(n));
        let i = choose|i: int| 0 <= i < names.len() && names[i] == n;
        assert(answer(sig, profiles[names[i]].detect) is Unknown);
    }
}

proof fn lemma_matches_among(
    sig: SignalV,
    names: Seq<Seq<char>>,
    profiles: Map<Seq<char>, ProfileV>,
)
    ensures
        matches_among(sig, names, profiles) == list::picked(
            names.len() as int,
            |i: int| answer(sig, profiles[names[i]].detect) is Match,
        ).map_values(
            |i: int| (names[i], answer(sig, profiles[names[i]].detect)->Match_0),
        ),
    decreases names.len(),
{
    let n = names.len() as int;
    let p = |i: int| answer(sig, profiles[names[i]].detect) is Match;
    let f = |i: int| (names[i], answer(sig, profiles[names[i]].detect)->Match_0);
    if n > 0 {
        let t = names.drop_last();
        let q = |i: int| answer(sig, profiles[t[i]].detect) is Match;
        let g = |i: int| (t[i], answer(sig, profiles[t[i]].detect)->Match_0);
        lemma_matches_among(sig, t, profiles);
        list::lemma_picked_congruent(n - 1, q, p);
        list::lemma_picked(n - 1, p);
        let before = list::picked(n - 1, p);
        assert(before.map_values(g) =~= before.map_values(f)) by {
            assert forall|k: int| 0 <= k < before.len() implies g(before[k]) == f(before[k]) by {
                assert(p(before[k]));
            }
        }
    }
    assert(matches_among(sig, names, profiles) =~= list::picked(n, p).map_values(f));
}

/// An override replaces the rules: the repo has just the profiles it names that exist, in
/// the order in which it names them, whatever the index says, and nothing is open. Returns
/// the positions of these names.
pub proof fn an_override_replaces_the_rules(
    sig: SignalV,
    over: Seq<Seq<char>>,
    names: Seq<Seq<char>>,
    profiles: Map<Seq<char>, ProfileV>,
) -> (ix: Seq<int>)
    requires
        sig.override_names == Some(over),
    ensures
        !is_pending(sig, names, profiles),
        list::picks(ix, over.len() as int, |i: int| profiles.contains_key(over[i])),
        explained(sig, names, profiles).len() == ix.len(),
        matched_names(sig, names, profiles).len() == ix.len(),
        forall|k: int|
            0 <= k < ix.len() ==> {
                let e = #[trigger] explained(sig, names, profiles)[k];
                &&& e.0 == over[ix[k]]
                &&& e.1.rule == "override"@
                &&& e.1.value is None
            },
        forall|k: int|
            0 <= k < ix.len() ==> #[trigger] matched_names(sig, names, profiles)[k] == over[ix[k]],
{
    let p = |n: Seq<char>| profiles.contains_key(n);
    let q = |i: int| profiles.contains_key(over[i]);
    list::lemma_filter_picks(over, p);
    list::lemma_picked(over.len() as int, q);
    list::lemma_picked_congruent(over.len() as int, |i: int| p(over[i]), q);
    let ix = list::picked(over.len() as int, q);
    assert forall|k: int| 0 <= k < ix.len() implies pinned(over, profiles)[k] == over[ix[k]] by {}
    ix
}

/// The profiles that `sig` matches with the rule that decided, and whether some
/// profile has no verdict yet.
pub fn detect_from_signal_explained(sig: &RepoSignal, working: &Profiles) -> (r: (
    Vec<(String, MatchReason)>,
    bool,
))
    ensures
        r.0.deep_view() == explained(sig@, working@.names(), working@.profiles),
        r.1 == is_pending(sig@, working@.names(), working@.profiles),
{
    let ghost names = working@.names();
    let ghost pv = working@.profiles;
    let mut out: Vec<(String, MatchReason)> = Vec::new();
    assert(out.deep_view() =~= Seq::<(Seq<char>, ReasonV)>::empty());
    match &sig.override_names {
        Some(o) => {
            let ghost p = |n: Seq<char>| pv.contains_key(n);
            let ghost all = o.deep_view();
            let ghost f = |n: Seq<char>| (n, override_reason());
            let mut i: usize = 0;
            proof {
                list::lemma_filter_empty::<Seq<char>>(p);
                assert(all.take(0) =~= Seq::<Seq<char>>::empty());
                assert(out.deep_view() =~= all.take(0).filter(p).map_values(f));
            }
            while i < o.len()
                invariant
                    i <= o.len(),
                    all == o.deep_view(),
                    pv == working@.profiles,
                    p == (|n: Seq<char>| pv.contains_key(n)),
                    f == (|n: Seq<char>| (n, override_reason())),
                    out.deep_view() == all.take(i as int).filter(p).map_values(f),
                decreases o.len() - i,
            {
                let ghost before = out.deep_view();
                proof {
                    list::lemma_filter_push(all.take(i as int), all[i as int], p);
                    assert(all.take(i as int).push(all[i as int]) =~= all.take(i + 1));
                }
                if working.profiles.contains_key(o[i].as_str()) {
                    out.push((o[i].clone(), MatchReason { rule: "override", value: None }));
                    assert(out.deep_view() =~= before.push((all[i as int], override_reason())));
                    assert(out.deep_view() =~= all.take(i + 1).filter(p).map_values(f));
                }
                i += 1;
            }
            assert(all.take(i as int) =~= all);
            (out, false)
        },
        None => {
            let n: usize = working.count();
            let mut pending = false;
            let mut i: usize = 0;
            while i < n
                invariant
                    i <= n,
                    n == names.len(),
                    names == working.profiles.names(),
                    pv == working@.profiles,
                    out.deep_view() == matches_among(sig@, names.take(i as int), pv),
                    pending == exists|j: int|
                        0 <= j < i && answer(sig@, pv[#[trigger] names[j]].detect) is Unknown,
                decreases n - i,
            {
                let k = working.profiles.key_at(i);
                let p = working.profiles.value_at(i);
                let ghost before = out.deep_view();
                proof {
                    let t = names.take(i + 1);
                    assert(t.drop_last() =~= names.take(i as int));
                    assert(t.last() == names[i as int]);
                    assert(pv[names[i as int]] == p@);
                }
                match profile_answer(sig, p) {
                    ProfileAnswer::Match(reason) => {
                        out.push((k.clone(), reason));
                        assert(out.deep_view() =~= before.push((names[i as int], reason@)));
                    },
                    ProfileAnswer::NoMatch => {},
                    ProfileAnswer::Unknown => {
                        pending = true;
                    },
                }
                i += 1;
            }
            assert(names.take(i as int) =~= names);
            (out, pending)
        },
    }
}

/// The names of the profiles that `sig` matches, and whether some profile has no verdict yet.
pub fn detect_from_signal(sig: &RepoSignal, working: &Profiles) -> (r: (Vec<String>, bool))
    ensures
        r.0.deep_view() == matched_names(sig@, working@.names(), working@.profiles),
        r.1 == is_pending(sig@, working@.names(), working@.profiles),
{
    let (es, pending) = detect_from_signal_explained(sig, working);
    let ghost all = es.deep_view();
    let mut out: Vec<String> = Vec::new();
    let mut i: usize = 0;
    while i < es.len()
        invariant
            i <= es.len(),
            all == es.deep_view(),
            out@.len() == i,
            forall|j: int| 0 <= j < i ==> (#[trigger] out[j])@ == all[j].0,
        decreases es.len() - i,
    {
        out.push(es[i].0.clone());
        i += 1;
    }
    assert(out.deep_view() =~= all.map_values(|e: (Seq<char>, ReasonV)| e.0));
    (out, pending)
}

} // verus!
