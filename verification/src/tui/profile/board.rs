//! The by-profile board: what needs review, and one row per bucket and profile.

use vstd::prelude::*;

use crate::list::{self, listing};
use crate::profile::config::{ContentRule, ContentV, Detect, DetectV, Profiles, ProfilesV};
use crate::profile::discover::{Inventory, InventoryV};
use crate::profile::drift::{
    a_stale_plugin_is_named_but_not_installed, global_drift, leaking, missing, stale_refs,
    unassigned_keys, unplaced, Drift,
};
use crate::text::{decimal, join, join2, join3, joined, owned, pad, padded, show};
use crate::tui::line::{
    blank, line1, line2, no_lines, put_line, put_lines, put_span, sp, span, styled, Line, SpanV,
};
use crate::tui::profile::apply::{row_style, style_of_row};
use crate::tui::theme;

verus! {

/// A content rule in one word.
pub open spec fn content_label(c: ContentV) -> Seq<char> {
    c.file + "→"@ + c.word
}

/// The rule values of a profile.
pub open spec fn detect_parts(d: DetectV) -> Seq<Seq<char>> {
    d.path_prefixes + d.marker_files + d.marker_globs + d.content.map_values(
        |c: ContentV| content_label(c),
    )
}

/// What a profile matches on, in short.
pub open spec fn detect_text(d: DetectV) -> Seq<char> {
    if detect_parts(d).len() == 0 {
        "any repo"@
    } else {
        joined(detect_parts(d), ", "@)
    }
}

fn put_content(out: &mut Vec<String>, content: &Vec<ContentRule>)
    ensures
        final(out).deep_view() == old(out).deep_view() + content.deep_view().map_values(
            |c: ContentV| content_label(c),
        ),
{
    let ghost b = out.deep_view();
    let ghost all = content.deep_view().map_values(|c: ContentV| content_label(c));
    let mut i: usize = 0;
    while i < content.len()
        invariant
            i <= content.len(),
            all == content.deep_view().map_values(|c: ContentV| content_label(c)),
            out.deep_view() =~= b + all.take(i as int),
        decreases content.len() - i,
    {
        let c = &content[i];
        assert(content.deep_view()[i as int] == c@);
        let ghost before = out.deep_view();
        out.push(join3(c.file.as_str(), "→", c.word.as_str()));
        assert(out.deep_view() =~= before.push(all[i as int]));
        i += 1;
    }
    assert(all.take(i as int) =~= all);
}

/// A short description of what a profile matches on. Every kind of rule shows.
pub fn detect_summary(d: &Detect) -> (r: String)
    ensures
        r@ == detect_text(d@),
{
    let mut parts = list::copy(&d.path_prefixes);
    list::extend(&mut parts, &d.marker_files);
    list::extend(&mut parts, &d.marker_globs);
    put_content(&mut parts, &d.content);
    assert(parts.deep_view() =~= detect_parts(d@));
    assert(parts.len() == parts.deep_view().len());
    if parts.len() == 0 {
        owned("any repo")
    } else {
        join(&parts, ", ")
    }
}

/// One row: label, plugins, rules, and a mark if a plugin of it is not installed.
pub open spec fn board_row(
    label: Seq<char>,
    plugins: Seq<char>,
    detect: Seq<char>,
    selected: bool,
    stale: bool,
) -> Seq<SpanV> {
    let base = seq![
        sp(padded(label, 14) + " "@, row_style(selected, theme::accent_soft())),
        sp(padded(plugins, 30) + " "@, row_style(selected, theme::text())),
    ];
    let with_rules = if detect.len() > 0 {
        base.push(sp(detect, row_style(selected, theme::dim())))
    } else {
        base
    };
    if stale {
        with_rules.push(sp(" ⚠ not installed"@, theme::dim()))
    } else {
        with_rules
    }
}

fn build_row(label: &str, plugins: &str, detect: &str, selected: bool, stale: bool) -> (r: Line)
    ensures
        r@ == board_row(label@, plugins@, detect@, selected, stale),
{
    let mut l = line2(
        span(join2(pad(label, 14).as_str(), " "), style_of_row(selected, theme::accent_soft())),
        span(join2(pad(plugins, 30).as_str(), " "), style_of_row(selected, theme::text())),
    );
    if detect.unicode_len() > 0 {
        put_span(&mut l, styled(detect, style_of_row(selected, theme::dim())));
    }
    if stale {
        put_span(&mut l, styled(" ⚠ not installed", theme::dim()));
    }
    assert(l@ =~= board_row(label@, plugins@, detect@, selected, stale));
    l
}

/// A list of plugins, or what stands for an empty one.
pub open spec fn plugins_text(plugins: Seq<Seq<char>>, empty: Seq<char>) -> Seq<char> {
    if plugins.len() == 0 {
        empty
    } else {
        joined(plugins, ", "@)
    }
}

fn text_of_plugins(plugins: &Vec<String>, empty: &str) -> (r: String)
    ensures
        r@ == plugins_text(plugins.deep_view(), empty@),
{
    assert(plugins.len() == plugins.deep_view().len());
    if plugins.len() == 0 {
        owned(empty)
    } else {
        join(plugins, ", ")
    }
}

/// Whether one of `plugins` is not installed.
pub open spec fn any_missing(plugins: Seq<Seq<char>>, gone: Seq<Seq<char>>) -> bool {
    exists|i: int| 0 <= i < plugins.len() && gone.contains(#[trigger] plugins[i])
}

fn has_missing(plugins: &Vec<String>, gone: &Vec<String>) -> (r: bool)
    ensures
        r == any_missing(plugins.deep_view(), gone.deep_view()),
{
    let ghost all = plugins.deep_view();
    let mut i: usize = 0;
    while i < plugins.len()
        invariant
            i <= plugins.len(),
            all == plugins.deep_view(),
            forall|j: int| 0 <= j < i ==> !gone.deep_view().contains(#[trigger] all[j]),
        decreases plugins.len() - i,
    {
        assert(all[i as int] == plugins[i as int]@);
        if list::contains(gone, plugins[i].as_str()) {
            return true;
        }
        i += 1;
    }
    false
}

/// The row of a profile.
pub open spec fn profile_row(
    w: ProfilesV,
    name: Seq<char>,
    gone: Seq<Seq<char>>,
    selected: bool,
) -> Seq<SpanV> {
    let p = w.profiles[name];
    board_row(
        name,
        plugins_text(p.plugins, "(universal only)"@),
        detect_text(p.detect),
        selected,
        any_missing(p.plugins, gone),
    )
}

/// The rows, in the order of the labels: Universal, the profiles, Unassigned and
/// On-demand, which alone carries a quiet `?`.
pub open spec fn board_rows(inv: InventoryV, w: ProfilesV, cursor: int) -> Seq<Seq<SpanV>> {
    let gone = listing(missing(inv, w));
    let free = listing(unplaced(inv, w));
    let n = w.names().len() as int;
    seq![
        board_row(
            "Universal"@,
            plugins_text(w.universal, "(none)"@),
            "every repo"@,
            cursor == 0,
            any_missing(w.universal, gone),
        ),
    ] + Seq::new(n as nat, |i: int| profile_row(w, w.names()[i], gone, cursor == i + 1)) + seq![
        board_row(
            if free.len() > 0 {
                "Unassigned ●"@
            } else {
                "Unassigned"@
            },
            plugins_text(free, "(none)"@),
            Seq::empty(),
            cursor == n + 1,
            false,
        ),
        board_row(
            "On-demand"@,
            plugins_text(w.on_demand, "(none)"@),
            Seq::empty(),
            cursor == n + 2,
            false,
        ).push(sp("?"@, theme::dim())),
    ]
}

/// How many things there are to review.
pub open spec fn review_total(
    inv: InventoryV,
    w: ProfilesV,
    uncovered: Seq<Seq<char>>,
    enabled: Seq<Seq<char>>,
    scope: Seq<Seq<char>>,
) -> nat {
    listing(unplaced(inv, w)).len() + listing(missing(inv, w)).len() + uncovered.len() + listing(
        leaking(w, enabled),
    ).len() + scope.len()
}

/// The head of the board: the offer of a draft, and what there is to review. A set
/// of uncovered repos that is not final carries a trailing `…`.
pub open spec fn board_head(
    ai_offer: bool,
    assistant: Seq<char>,
    total: int,
    uncovered: int,
    pending: bool,
    global: int,
) -> Seq<Seq<SpanV>> {
    let offer = if ai_offer {
        seq![
            seq![
                sp(
                    "Let "@ + assistant
                        + " draft your profiles?  [y] yes  [n] no  (uses your account)"@,
                    theme::accent_soft(),
                ),
            ],
        ]
    } else {
        Seq::empty()
    };
    let count = if total > 0 {
        seq![seq![sp("● "@ + decimal(total as nat) + " to review"@, theme::accent())]]
    } else {
        Seq::empty()
    };
    let cover = if uncovered > 0 || pending {
        seq![
            seq![
                sp(
                    "⚠ "@ + decimal(uncovered as nat) + " repos match nothing"@ + if pending {
                        " …"@
                    } else {
                        Seq::empty()
                    },
                    theme::alert(),
                ),
            ],
        ]
    } else {
        Seq::empty()
    };
    let out_of_sync = if global > 0 {
        seq![
            seq![
                sp("⚠ global out of sync ("@ + decimal(global as nat) + ")"@, theme::alert()),
            ],
        ]
    } else {
        Seq::empty()
    };
    let gap = if total > 0 || pending {
        seq![Seq::empty()]
    } else {
        Seq::empty()
    };
    offer + count + cover + out_of_sync + gap
}

/// A board with nothing to review has no head.
pub proof fn clean_board_has_no_head(assistant: Seq<char>)
    ensures
        board_head(false, assistant, 0, 0, false, 0) == Seq::<Seq<SpanV>>::empty(),
{
}

fn head_lines(
    ai_offer: bool,
    assistant: &str,
    total: usize,
    uncovered: usize,
    pending: bool,
    global: usize,
) -> (r: Vec<Line>)
    ensures
        r.deep_view() == board_head(
            ai_offer,
            assistant@,
            total as int,
            uncovered as int,
            pending,
            global as int,
        ),
{
    let mut out = no_lines();
    if ai_offer {
        put_line(
            &mut out,
            line1(
                span(
                    join3(
                        "Let ",
                        assistant,
                        " draft your profiles?  [y] yes  [n] no  (uses your account)",
                    ),
                    theme::accent_soft(),
                ),
            ),
        );
    }
    if total > 0 {
        put_line(
            &mut out,
            line1(span(join3("● ", show(total as u64).as_str(), " to review"), theme::accent())),
        );
    }
    if uncovered > 0 || pending {
        let mut s = join3("⚠ ", show(uncovered as u64).as_str(), " repos match nothing");
        if pending {
            s.append(" …");
        }
        assert(s@ =~= "⚠ "@ + decimal(uncovered as nat) + " repos match nothing"@ + if pending {
            " …"@
        } else {
            Seq::empty()
        });
        put_line(&mut out, line1(span(s, theme::alert())));
    }
    if global > 0 {
        put_line(
            &mut out,
            line1(
                span(
                    join3("⚠ global out of sync (", show(global as u64).as_str(), ")"),
                    theme::alert(),
                ),
            ),
        );
    }
    if total > 0 || pending {
        put_line(&mut out, blank());
    }
    assert(out.deep_view() =~= board_head(
        ai_offer,
        assistant@,
        total as int,
        uncovered as int,
        pending,
        global as int,
    ));
    out
}

fn row_lines(
    inv: &Inventory,
    working: &Profiles,
    free: &Vec<String>,
    gone: &Vec<String>,
    cursor: usize,
) -> (r: Vec<Line>)
    requires
        free.deep_view() == listing(unplaced(inv@, working@)),
        gone.deep_view() == listing(missing(inv@, working@)),
    ensures
        r.deep_view() == board_rows(inv@, working@, cursor as int),
{
    let ghost all = board_rows(inv@, working@, cursor as int);
    let ghost gv = gone.deep_view();
    let n: usize = working.count();
    let ghost names = working@.names();
    let mut out = no_lines();
    put_line(
        &mut out,
        build_row(
            "Universal",
            text_of_plugins(&working.universal, "(none)").as_str(),
            "every repo",
            cursor == 0,
            has_missing(&working.universal, gone),
        ),
    );
    let mut i: usize = 0;
    while i < n
        invariant
            i <= n,
            n == names.len(),
            names == working@.names(),
            names == working.profiles.names(),
            gv == gone.deep_view(),
            gv == listing(missing(inv@, working@)),
            all == board_rows(inv@, working@, cursor as int),
            out.deep_view() =~= all.take(1 + i),
        decreases n - i,
    {
        let name = working.profiles.key_at(i);
        let p = working.profiles.value_at(i);
        assert(working@.profiles[name@] == p@);
        let l = build_row(
            name.as_str(),
            text_of_plugins(&p.plugins, "(universal only)").as_str(),
            detect_summary(&p.detect).as_str(),
            cursor > 0 && cursor - 1 == i,
            has_missing(&p.plugins, gone),
        );
        assert(l@ == all[1 + i]);
        put_line(&mut out, l);
        i += 1;
    }
    assert(free.len() == free.deep_view().len());
    proof {
        reveal_strlit("");
        assert(""@ =~= Seq::<char>::empty());
    }
    put_line(
        &mut out,
        build_row(
            if free.len() > 0 {
                "Unassigned ●"
            } else {
                "Unassigned"
            },
            text_of_plugins(free, "(none)").as_str(),
            "",
            cursor > 0 && cursor - 1 == n,
            false,
        ),
    );
    let mut last = build_row(
        "On-demand",
        text_of_plugins(&working.on_demand, "(none)").as_str(),
        "",
        cursor > 1 && cursor - 2 == n,
        false,
    );
    put_span(&mut last, styled("?", theme::dim()));
    put_line(&mut out, last);
    assert(out.deep_view() =~= all);
    out
}

/// What the head of the board speaks of.
pub struct BoardFacts<'a> {
    pub ai_offer: bool,
    pub assistant: &'a String,
    pub uncovered: &'a Vec<String>,
    pub pending: bool,
    pub enabled: &'a Vec<String>,
    pub scope: &'a Vec<String>,
}

/// Everything that needs review.
pub fn drift_of(
    inv: &Inventory,
    working: &Profiles,
    uncovered: &Vec<String>,
    enabled: &Vec<String>,
    scope: &Vec<String>,
) -> (r: Drift)
    ensures
        r.new_unassigned.deep_view() == listing(unplaced(inv@, working@)),
        r.stale.deep_view() == listing(missing(inv@, working@)),
        r.uncovered.deep_view() == uncovered.deep_view(),
        r.global.deep_view() == listing(leaking(working@, enabled.deep_view())),
        r.scope.deep_view() == scope.deep_view(),
{
    let r = Drift {
        new_unassigned: unassigned_keys(inv, working),
        stale: stale_refs(inv, working),
        uncovered: list::copy(uncovered),
        global: global_drift(working, enabled),
        scope: list::copy(scope),
    };
    proof {
        list::lemma_listing(r.new_unassigned.deep_view(), unplaced(inv@, working@));
        list::lemma_listing(r.stale.deep_view(), missing(inv@, working@));
        list::lemma_listing(r.global.deep_view(), leaking(working@, enabled.deep_view()));
    }
    r
}

/// The lines of the board.
pub open spec fn board_lines(inv: InventoryV, w: ProfilesV, cursor: int, f: BoardFacts) -> Seq<
    Seq<SpanV>,
> {
    facts_head(inv, w, f) + board_rows(inv, w, cursor)
}

/// The head of the board for these facts.
pub open spec fn facts_head(inv: InventoryV, w: ProfilesV, f: BoardFacts) -> Seq<Seq<SpanV>> {
    board_head(
        f.ai_offer,
        f.assistant@,
        review_total(
            inv,
            w,
            f.uncovered.deep_view(),
            f.enabled.deep_view(),
            f.scope.deep_view(),
        ) as int,
        f.uncovered.deep_view().len() as int,
        f.pending,
        listing(leaking(w, f.enabled.deep_view())).len() as int,
    )
}

/// The lines of the board and the line to keep visible: that of the selected row.
pub fn render(inv: &Inventory, working: &Profiles, cursor: usize, facts: &BoardFacts) -> (r: (
    Vec<Line>,
    usize,
))
    requires
        review_total(
            inv@,
            working@,
            facts.uncovered.deep_view(),
            facts.enabled.deep_view(),
            facts.scope.deep_view(),
        ) <= usize::MAX,
    ensures
        r.0.deep_view() == board_lines(inv@, working@, cursor as int, *facts),
        r.1 == if cursor <= working@.names().len() + 2 {
            facts_head(inv@, working@, *facts).len() + cursor
        } else {
            0
        },
{
    let d = drift_of(inv, working, facts.uncovered, facts.enabled, facts.scope);
    assert(d.new_unassigned.len() == d.new_unassigned.deep_view().len());
    assert(d.stale.len() == d.stale.deep_view().len());
    assert(d.uncovered.len() == d.uncovered.deep_view().len());
    assert(d.global.len() == d.global.deep_view().len());
    assert(d.scope.len() == d.scope.deep_view().len());
    let total: usize = d.review_count();
    let mut out = head_lines(
        facts.ai_offer,
        facts.assistant.as_str(),
        total,
        d.uncovered.len(),
        facts.pending,
        d.global.len(),
    );
    assert(out.deep_view() == facts_head(inv@, working@, *facts));
    assert(out.len() == out.deep_view().len());
    let head: usize = out.len();
    let rows = row_lines(inv, working, &d.new_unassigned, &d.stale, cursor);
    let n: usize = rows.len();
    assert(n == rows.deep_view().len());
    assert(n == working@.names().len() + 3);
    put_lines(&mut out, rows);
    let all: usize = out.len();
    assert(all == out.deep_view().len());
    (
        out,
        if cursor < n {
            head + cursor
        } else {
            0
        },
    )
}

/// The board has a row for universal plugins, one for each profile by name, one for plugins
/// without a place, and one for those on demand; each shows what it has.
pub proof fn every_profile_has_a_row(inv: InventoryV, w: ProfilesV, cursor: int, i: int)
    requires
        0 <= i < w.names().len(),
    ensures
        ({
            let rows = board_rows(inv, w, cursor);
            let n = w.names().len() as int;
            let p = w.profiles[w.names()[i]];
            &&& rows.len() == n + 3
            &&& rows[0][0].text == padded("Universal"@, 14) + " "@
            &&& rows[i + 1][0].text == padded(w.names()[i], 14) + " "@
            &&& rows[n + 2][0].text == padded("On-demand"@, 14) + " "@
            &&& p.plugins.len() > 0 ==> rows[i + 1][1].text == padded(
                joined(p.plugins, ", "@),
                30,
            ) + " "@
            &&& p.plugins.len() == 0 ==> rows[i + 1][1].text == padded("(universal only)"@, 30)
                + " "@
            &&& rows[n + 1][0].text == padded(
                if listing(unplaced(inv, w)).len() > 0 {
                    "Unassigned ●"@
                } else {
                    "Unassigned"@
                },
                14,
            ) + " "@
        }),
{
}

/// A row warns just when one of its plugins is not installed.
pub proof fn a_row_warns_of_a_missing_plugin(
    inv: InventoryV,
    w: ProfilesV,
    gone: Seq<Seq<char>>,
    name: Seq<char>,
)
    requires
        list::lists(gone, missing(inv, w)),
        w.profiles.contains_key(name),
    ensures
        any_missing(w.profiles[name].plugins, gone) <==> exists|i: int|
            0 <= i < w.profiles[name].plugins.len() && !installed(
                inv,
                #[trigger] w.profiles[name].plugins[i],
            ),
{
    let ps = w.profiles[name].plugins;
    assert forall|i: int| 0 <= i < ps.len() implies gone.contains(ps[i]) == !installed(
        inv,
        #[trigger] ps[i],
    ) by {
        a_stale_plugin_is_named_but_not_installed(inv, w, ps[i]);
        assert(ps.contains(ps[i]));
        assert(missing(inv, w).contains(ps[i]) <==> gone.contains(ps[i]));
    }
}

/// Whether a plugin with this key is installed.
pub open spec fn installed(inv: InventoryV, k: Seq<char>) -> bool {
    exists|j: int| 0 <= j < inv.plugins.len() && (#[trigger] inv.plugins[j]).key == k
}

/// The summary of the rules names each of them, in the order of their kinds.
pub proof fn every_rule_is_in_the_summary(d: DetectV)
    ensures
        ({
            let parts = detect_parts(d);
            let np = d.path_prefixes.len() as int;
            let nf = np + d.marker_files.len();
            let ng = nf + d.marker_globs.len();
            &&& parts.len() == ng + d.content.len()
            &&& forall|i: int| 0 <= i < np ==> #[trigger] parts[i] == d.path_prefixes[i]
            &&& forall|i: int| np <= i < nf ==> #[trigger] parts[i] == d.marker_files[i - np]
            &&& forall|i: int| nf <= i < ng ==> #[trigger] parts[i] == d.marker_globs[i - nf]
            &&& forall|i: int|
                ng <= i < parts.len() ==> #[trigger] parts[i] == d.content[i - ng].file + "→"@
                    + d.content[i - ng].word
        }),
{
}

/// The head counts what there is to review only where there is something, warns of repos that
/// match nothing where there are any or it is not yet known, and of plugins enabled globally
/// by mistake where there are any.
pub proof fn the_head_tells_what_to_review(total: int, uncovered: int, pending: bool, global: int)
    requires
        0 <= uncovered <= total,
        0 <= global <= total,
    ensures
        ({
            let h = board_head(false, Seq::empty(), total, uncovered, pending, global);
            &&& total > 0 ==> h[0][0].text == "● "@ + decimal(total as nat) + " to review"@
            &&& total > 0 && uncovered > 0 && !pending ==> h[1][0].text == "⚠ "@ + decimal(
                uncovered as nat,
            ) + " repos match nothing"@ + Seq::<char>::empty()
            &&& total > 0 && pending ==> h[1][0].text == "⚠ "@ + decimal(uncovered as nat)
                + " repos match nothing"@ + " …"@
            &&& total > 0 && uncovered == 0 && !pending && global > 0 ==> h[1][0].text
                == "⚠ global out of sync ("@ + decimal(global as nat) + ")"@
            &&& uncovered > 0 && global > 0 ==> h[2][0].text == "⚠ global out of sync ("@ + decimal(
                global as nat,
            ) + ")"@
            &&& total == 0 && !pending ==> h.len() == 0
            &&& total > 0 ==> h.last().len() == 0
        }),
{
}

/// What there is to review is the number of all findings: plugins without a place, references
/// to plugins that are not installed, repos that match nothing, plugins enabled globally by
/// mistake, and plugins whose scope has drifted.
pub proof fn every_finding_counts(
    inv: InventoryV,
    w: ProfilesV,
    free: Seq<Seq<char>>,
    stale: Seq<Seq<char>>,
    global: Seq<Seq<char>>,
    uncovered: Seq<Seq<char>>,
    enabled: Seq<Seq<char>>,
    scope: Seq<Seq<char>>,
)
    requires
        list::lists(free, unplaced(inv, w)),
        list::lists(stale, missing(inv, w)),
        list::lists(global, leaking(w, enabled)),
    ensures
        review_total(inv, w, uncovered, enabled, scope) == free.len() + stale.len()
            + uncovered.len() + global.len() + scope.len(),
{
    list::lemma_listing(free, unplaced(inv, w));
    list::lemma_listing(stale, missing(inv, w));
    list::lemma_listing(global, leaking(w, enabled));
}

/// The buckets show their plugins, all of them and in order, or that there are none.
pub proof fn every_bucket_shows_its_plugins(inv: InventoryV, w: ProfilesV, cursor: int)
    ensures
        ({
            let rows = board_rows(inv, w, cursor);
            let n = w.names().len() as int;
            let free = listing(unplaced(inv, w));
            &&& rows[0][1].text == padded(
                if w.universal.len() == 0 {
                    "(none)"@
                } else {
                    joined(w.universal, ", "@)
                },
                30,
            ) + " "@
            &&& rows[n + 1][1].text == padded(
                if free.len() == 0 {
                    "(none)"@
                } else {
                    joined(free, ", "@)
                },
                30,
            ) + " "@
            &&& rows[n + 2][1].text == padded(
                if w.on_demand.len() == 0 {
                    "(none)"@
                } else {
                    joined(w.on_demand, ", "@)
                },
                30,
            ) + " "@
        }),
{
}

/// The rows stand below the head, and all of them are there.
pub proof fn the_rows_stand_below_the_head(
    inv: InventoryV,
    w: ProfilesV,
    cursor: int,
    f: BoardFacts,
    i: int,
)
    requires
        0 <= i < w.names().len() + 3,
    ensures
        board_lines(inv, w, cursor, f)[facts_head(inv, w, f).len() + i] == board_rows(
            inv,
            w,
            cursor,
        )[i],
        board_lines(inv, w, cursor, f).len() == facts_head(inv, w, f).len() + w.names().len() + 3,
{
}

/// A profile without a rule is said to match any repo; otherwise its rules are named.
pub proof fn a_profile_without_rules_says_any_repo(d: DetectV)
    ensures
        d.path_prefixes.len() + d.marker_files.len() + d.marker_globs.len() + d.content.len() == 0
            ==> detect_text(d) == "any repo"@,
        d.path_prefixes.len() + d.marker_files.len() + d.marker_globs.len() + d.content.len() > 0
            ==> detect_text(d) == joined(detect_parts(d), ", "@),
{
}

} // verus!
