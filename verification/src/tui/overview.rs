//! The landing tab: active account, the profile of the working directory, next prime.

use vstd::prelude::*;

use crate::text::{decimal, join2, join3, show};
use crate::tui::accounts::{style_of_token, token_style};
use crate::tui::ctx::AppCtx;
use crate::tui::key::{KeyCode, KeyEvent};
use crate::tui::line::{
    bare, blank, line1, line2, line4, no_lines, put_line, put_lines, put_span, raw, sp, span,
    styled, Line, SpanV,
};
use crate::tui::snapshot::{clock_text, hhmm, AcctRow, PrimeRow, Snapshot};
use crate::tui::theme::{self, Style};
use crate::tui::view::{hint_texts, Action, TabView};
use crate::tui::widgets::{
    duration_label, duration_text, gauge, put_gauge, token_label, token_text, until_label,
    until_text, window_left, window_remaining,
};

verus! {

/// The Overview tab has no state of its own.
#[derive(Debug)]
pub struct Overview;

/// Width of a gauge, in cells.
pub const BAR_WIDTH: usize = 18;

/// A dim section header.
pub open spec fn header_line(label: Seq<char>) -> Seq<SpanV> {
    seq![sp(label, theme::dim())]
}

/// A dim, outdented section header; content is indented beneath.
pub fn section_header(label: &str) -> (r: Line)
    ensures
        r@ == header_line(label@),
{
    line1(styled(label, theme::dim()))
}

/// An indented `head · value` row.
pub open spec fn head_value_line(head: Seq<char>, value: Seq<char>, style: Style) -> Seq<SpanV> {
    seq![bare("  "@), sp(head, theme::text()), sp("  ·  "@, theme::faint()), sp(value, style)]
}

/// An indented `head · value` row.
pub fn value_line(head: &str, value: &str, style: Style) -> (r: Line)
    ensures
        r@ == head_value_line(head@, value@, style),
{
    line4(
        raw("  "),
        styled(head, theme::text()),
        styled("  ·  ", theme::faint()),
        styled(value, style),
    )
}

/// One aligned gauge row: label, framed bar, value.
pub open spec fn gauge_line(
    label: Seq<char>,
    filled: int,
    value: Seq<char>,
    style: Style,
) -> Seq<SpanV> {
    seq![sp(label, theme::dim()), sp("▏"@, theme::faint())] + gauge(filled, BAR_WIDTH as int)
        + seq![sp("▕"@, theme::faint()), sp("  "@ + value, style)]
}

/// One aligned gauge row with `filled` cells filled.
pub fn bar_line(label: &str, filled: usize, value: &str, style: Style) -> (r: Line)
    ensures
        r@ == gauge_line(label@, filled as int, value@, style),
{
    let mut l = line2(styled(label, theme::dim()), styled("▏", theme::faint()));
    put_gauge(&mut l, filled, BAR_WIDTH);
    put_span(&mut l, styled("▕", theme::faint()));
    put_span(&mut l, span(join2("  ", value), style));
    assert(l@ =~= gauge_line(label@, filled as int, value@, style));
    l
}

/// The active account: the first row marked so, among the first `k`.
pub open spec fn active_among(accounts: Seq<AcctRow>, k: int) -> Option<int>
    decreases k,
{
    if k <= 0 {
        None
    } else {
        match active_among(accounts, k - 1) {
            Some(i) => Some(i),
            None => if accounts[k - 1].is_active {
                Some(k - 1)
            } else {
                None
            },
        }
    }
}

/// The active account: the first row marked so.
pub open spec fn active_account(accounts: Seq<AcctRow>) -> Option<int> {
    active_among(accounts, accounts.len() as int)
}

/// Index of the first active account.
pub fn find_active(accounts: &Vec<AcctRow>) -> (r: Option<usize>)
    ensures
        match r {
            Some(i) => active_account(accounts@) == Some(i as int) && i < accounts.len(),
            None => active_account(accounts@) is None,
        },
{
    let mut found: Option<usize> = None;
    let mut i: usize = 0;
    while i < accounts.len()
        invariant
            i <= accounts.len(),
            match found {
                Some(j) => active_among(accounts@, i as int) == Some(j as int) && j < i,
                None => active_among(accounts@, i as int) is None,
            },
        decreases accounts.len() - i,
    {
        if found.is_none() && accounts[i].is_active {
            found = Some(i);
        }
        i += 1;
    }
    found
}

/// What is left of the window, in words.
pub open spec fn window_value(left: Option<int>) -> Seq<char> {
    match left {
        Some(ms) => match duration_text(ms) {
            Some(s) => s + " / 5h"@,
            None => "idle"@,
        },
        None => "idle"@,
    }
}

/// The identity row of an account.
pub open spec fn identity_line(a: AcctRow) -> Seq<SpanV> {
    let base = seq![bare("  "@), sp("● "@ + a.alias@, theme::accent().bolded())];
    match a.org {
        Some(o) => base + seq![sp("  ·  "@, theme::faint()), sp(o@, theme::text())],
        None => base,
    }
}

/// How many cells of the two account gauges are filled.
#[derive(Clone, Copy, Debug, PartialEq, Eq, Structural)]
pub struct OverviewGauges {
    pub token: usize,
    pub window: usize,
}

/// The account section.
pub open spec fn account_section(snap: Snapshot, now_ms: i64, g: OverviewGauges) -> Seq<
    Seq<SpanV>,
> {
    seq![header_line("ACCOUNT"@)] + (match active_account(snap.accounts@) {
        Some(i) => {
            let a = snap.accounts@[i];
            let (token, urgent) = token_text(a.expires_at_ms, a.has_refresh, now_ms);
            seq![
                identity_line(a),
                Seq::empty(),
                gauge_line("  token   "@, g.token as int, token, token_style(urgent)),
                Seq::empty(),
                gauge_line(
                    "  window  "@,
                    g.window as int,
                    window_value(window_left(a.window_start_epoch, now_ms)),
                    theme::text(),
                ),
            ]
        },
        None => seq![
            seq![
                bare("  "@),
                sp("(none — run: cc-loadout account add <alias>)"@, theme::text()),
            ],
        ],
    }) + seq![Seq::<SpanV>::empty()]
}

/// The name shown for the working directory.
pub open spec fn cwd_label(snap: Snapshot) -> Seq<char> {
    match snap.cwd_name {
        Some(n) => n@,
        None => snap.cwd@,
    }
}

/// The matched profiles as chips, two blanks between neighbours.
pub open spec fn chips(matched: Seq<Seq<char>>) -> Seq<SpanV>
    decreases matched.len(),
{
    if matched.len() == 0 {
        Seq::empty()
    } else {
        let chip = sp("‹"@ + matched.last() + "›"@, theme::accent_soft());
        if matched.len() == 1 {
            seq![chip]
        } else {
            chips(matched.drop_last()) + seq![bare("  "@), chip]
        }
    }
}

/// The row of matched profiles.
pub open spec fn matched_line(snap: Snapshot) -> Seq<SpanV> {
    seq![bare("  "@)] + (if snap.matched@.len() == 0 {
        seq![sp("default (no match)"@, theme::dim())]
    } else {
        chips(snap.matched.deep_view())
    }) + seq![
        sp("   ·   "@, theme::faint()),
        sp(decimal(snap.applied_count as nat) + " applied"@, theme::dim()),
    ]
}

/// The profile section.
pub open spec fn profile_section(snap: Snapshot) -> Seq<Seq<SpanV>> {
    seq![header_line("PROFILE"@)] + (if !snap.profiles_json_exists {
        seq![head_value_line(cwd_label(snap), "no profiles.json"@, theme::dim())]
    } else {
        seq![
            seq![bare("  "@), sp(cwd_label(snap), theme::text())],
            Seq::empty(),
            matched_line(snap),
        ]
    }) + seq![Seq::<SpanV>::empty()]
}

/// Of the first `k` rows other than `skip`, the one that fires soonest; the
/// earlier row wins a tie.
pub open spec fn soonest_among(rows: Seq<PrimeRow>, skip: Option<int>, k: int) -> Option<int>
    decreases k,
{
    if k <= 0 {
        None
    } else {
        let best = soonest_among(rows, skip, k - 1);
        let i = k - 1;
        match rows[i].next_fire {
            None => best,
            Some(f) => if skip == Some(i) {
                best
            } else {
                match best {
                    None => Some(i),
                    Some(m) => if f.unix < rows[m].next_fire->0.unix {
                        Some(i)
                    } else {
                        Some(m)
                    },
                }
            },
        }
    }
}

/// The row that fires soonest.
pub open spec fn soonest(rows: Seq<PrimeRow>) -> Option<int> {
    soonest_among(rows, None, rows.len() as int)
}

/// The row that fires next after `first`.
pub open spec fn next_after(rows: Seq<PrimeRow>, first: int) -> Option<int> {
    soonest_among(rows, Some(first), rows.len() as int)
}

/// The soonest row fires, and no other row that fires is earlier.
pub proof fn soonest_is_minimal(rows: Seq<PrimeRow>, skip: Option<int>, k: int)
    requires
        0 <= k <= rows.len(),
    ensures
        soonest_among(rows, skip, k) matches Some(m) ==> {
            &&& 0 <= m < k
            &&& skip != Some(m)
            &&& rows[m].next_fire is Some
            &&& forall|j: int|
                0 <= j < k && skip != Some(j) && (#[trigger] rows[j]).next_fire is Some
                    ==> rows[m].next_fire->0.unix <= rows[j].next_fire->0.unix
        },
        soonest_among(rows, skip, k) is None ==> forall|j: int|
            0 <= j < k && skip != Some(j) ==> (#[trigger] rows[j]).next_fire is None,
    decreases k,
{
    if k > 0 {
        soonest_is_minimal(rows, skip, k - 1);
    }
}

fn find_soonest(rows: &Vec<PrimeRow>, skip: Option<usize>) -> (r: Option<usize>)
    ensures
        ({
            let s = match skip {
                Some(i) => Some(i as int),
                None => None,
            };
            match r {
                Some(i) => i < rows.len() && rows[i as int].next_fire is Some && soonest_among(
                    rows@,
                    s,
                    rows.len() as int,
                ) == Some(i as int),
                None => soonest_among(rows@, s, rows.len() as int) is None,
            }
        }),
{
    let ghost s = match skip {
        Some(i) => Some(i as int),
        None => None,
    };
    let mut best: Option<usize> = None;
    let mut i: usize = 0;
    while i < rows.len()
        invariant
            i <= rows.len(),
            s == match skip {
                Some(i) => Some(i as int),
                None => None,
            },
            match best {
                Some(b) => b < i && rows[b as int].next_fire is Some && soonest_among(
                    rows@,
                    s,
                    i as int,
                ) == Some(b as int),
                None => soonest_among(rows@, s, i as int) is None,
            },
        decreases rows.len() - i,
    {
        let skipped = match skip {
            Some(k) => k == i,
            None => false,
        };
        if !skipped {
            if let Some(f) = rows[i].next_fire {
                match best {
                    None => {
                        best = Some(i);
                    },
                    Some(b) => {
                        if let Some(g) = rows[b].next_fire {
                            if f.unix < g.unix {
                                best = Some(i);
                            }
                        }
                    },
                }
            }
        }
        i += 1;
    }
    best
}

/// The detail row of the next prime: its time, and the one after it.
pub open spec fn prime_detail(rows: Seq<PrimeRow>, first: int) -> Seq<char> {
    let base = clock_text(rows[first].next_fire->0) + " daily"@;
    match next_after(rows, first) {
        Some(j) => base + ("   ·   then "@ + rows[j].alias@ + " "@) + clock_text(
            rows[j].next_fire->0,
        ),
        None => base,
    }
}

/// The section on the next prime.
pub open spec fn prime_section(rows: Seq<PrimeRow>, now_ms: i64) -> Seq<Seq<SpanV>> {
    seq![header_line("NEXT PRIME"@)] + (match soonest(rows) {
        Some(i) => seq![
            seq![
                bare("  "@),
                sp(rows[i].alias@ + "   "@, theme::text()),
                sp("in "@, theme::dim()),
                sp(
                    until_text(rows[i].next_fire->0.unix as int, now_ms as int),
                    theme::accent().bolded(),
                ),
            ],
            Seq::empty(),
            seq![bare("  "@), sp(prime_detail(rows, i), theme::faint())],
        ],
        None => seq![seq![bare("  "@), sp("no schedule"@, theme::dim())]],
    })
}

fn account_lines(snap: &Snapshot, now_ms: i64, g: OverviewGauges) -> (r: Vec<Line>)
    ensures
        r.deep_view() == account_section(*snap, now_ms, g),
{
    let mut out = no_lines();
    put_line(&mut out, section_header("ACCOUNT"));
    match find_active(&snap.accounts) {
        Some(i) => {
            let a = &snap.accounts[i];
            let mut id = line2(
                raw("  "),
                span(join2("● ", a.alias.as_str()), theme::accent().bolded()),
            );
            if let Some(org) = &a.org {
                put_span(&mut id, styled("  ·  ", theme::faint()));
                put_span(&mut id, styled(org.as_str(), theme::text()));
            }
            assert(id@ =~= identity_line(*a));
            put_line(&mut out, id);
            put_line(&mut out, blank());
            let (token, urgent) = token_label(a.expires_at_ms, a.has_refresh, now_ms);
            put_line(
                &mut out,
                bar_line("  token   ", g.token, token.as_str(), style_of_token(urgent)),
            );
            put_line(&mut out, blank());
            let label = match window_remaining(a.window_start_epoch, now_ms) {
                Some(ms) => match duration_label(ms) {
                    Some(s) => join2(s.as_str(), " / 5h"),
                    None => crate::text::owned("idle"),
                },
                None => crate::text::owned("idle"),
            };
            put_line(
                &mut out,
                bar_line("  window  ", g.window, label.as_str(), theme::text()),
            );
        },
        None => {
            put_line(
                &mut out,
                line2(
                    raw("  "),
                    styled("(none — run: cc-loadout account add <alias>)", theme::text()),
                ),
            );
        },
    }
    put_line(&mut out, blank());
    assert(out.deep_view() =~= account_section(*snap, now_ms, g));
    out
}

fn profile_lines(snap: &Snapshot) -> (r: Vec<Line>)
    ensures
        r.deep_view() == profile_section(*snap),
{
    let mut out = no_lines();
    put_line(&mut out, section_header("PROFILE"));
    let name = match &snap.cwd_name {
        Some(n) => n.clone(),
        None => snap.cwd.clone(),
    };
    if !snap.profiles_json_exists {
        put_line(&mut out, value_line(name.as_str(), "no profiles.json", theme::dim()));
    } else {
        put_line(&mut out, line2(raw("  "), styled(name.as_str(), theme::text())));
        put_line(&mut out, blank());
        let mut row = line1(raw("  "));
        let ghost base = row@;
        if snap.matched.len() == 0 {
            put_span(&mut row, styled("default (no match)", theme::dim()));
        } else {
            let ghost all = snap.matched.deep_view();
            let mut i: usize = 0;
            assert(row@ =~= base + chips(all.take(0)));
            while i < snap.matched.len()
                invariant
                    i <= snap.matched.len(),
                    all == snap.matched.deep_view(),
                    row@ == base + chips(all.take(i as int)),
                decreases snap.matched.len() - i,
            {
                let ghost before = row@;
                proof {
                    let t = all.take(i + 1);
                    assert(t.drop_last() =~= all.take(i as int));
                    assert(t.last() == all[i as int]);
                }
                if i > 0 {
                    put_span(&mut row, raw("  "));
                }
                put_span(
                    &mut row,
                    span(join3("‹", snap.matched[i].as_str(), "›"), theme::accent_soft()),
                );
                i += 1;
                assert(row@ =~= base + chips(all.take(i as int)));
            }
            assert(all.take(i as int) =~= all);
        }
        put_span(&mut row, styled("   ·   ", theme::faint()));
        put_span(
            &mut row,
            span(join2(show(snap.applied_count as u64).as_str(), " applied"), theme::dim()),
        );
        assert(row@ =~= matched_line(*snap));
        put_line(&mut out, row);
    }
    put_line(&mut out, blank());
    assert(out.deep_view() =~= profile_section(*snap));
    out
}

fn prime_lines(rows: &Vec<PrimeRow>, now_ms: i64) -> (r: Vec<Line>)
    ensures
        r.deep_view() == prime_section(rows@, now_ms),
{
    let mut out = no_lines();
    put_line(&mut out, section_header("NEXT PRIME"));
    match find_soonest(rows, None) {
        Some(i) => {
            let f = match rows[i].next_fire {
                Some(f) => f,
                None => {
                    return out;
                },
            };
            put_line(
                &mut out,
                line4(
                    raw("  "),
                    span(join2(rows[i].alias.as_str(), "   "), theme::text()),
                    styled("in ", theme::dim()),
                    span(until_label(f.unix, now_ms), theme::accent().bolded()),
                ),
            );
            put_line(&mut out, blank());
            let mut detail = join2(hhmm(f).as_str(), " daily");
            if let Some(j) = find_soonest(rows, Some(i)) {
                if let Some(g) = rows[j].next_fire {
                    detail.append(join3("   ·   then ", rows[j].alias.as_str(), " ").as_str());
                    detail.append(hhmm(g).as_str());
                }
            }
            put_line(&mut out, line2(raw("  "), span(detail, theme::faint())));
        },
        None => {
            put_line(&mut out, line2(raw("  "), styled("no schedule", theme::dim())));
        },
    }
    assert(out.deep_view() =~= prime_section(rows@, now_ms));
    out
}

impl Overview {
    /// The tab.
    pub fn new() -> (r: Overview)
        ensures
            r == Overview,
    {
        Overview
    }

    /// The lines of the tab: account, profile of the working directory, next prime.
    /// `g` gives the filled cells of the two account gauges.
    pub fn lines(&self, snap: &Snapshot, now_ms: i64, g: OverviewGauges) -> (r: Vec<Line>)
        ensures
            r.deep_view() == account_section(*snap, now_ms, g) + profile_section(*snap)
                + prime_section(snap.priming@, now_ms),
    {
        let mut out = account_lines(snap, now_ms, g);
        put_lines(&mut out, profile_lines(snap));
        put_lines(&mut out, prime_lines(&snap.priming, now_ms));
        out
    }
}

impl TabView for Overview {
    open spec fn name(&self) -> Seq<char> {
        "Overview"@
    }

    open spec fn ok(&self) -> bool {
        true
    }

    open spec fn claims(&self, code: KeyCode) -> bool {
        false
    }

    open spec fn hints(&self) -> Seq<(Seq<char>, Seq<char>)> {
        Seq::empty()
    }

    open spec fn steps(
        self,
        post: Self,
        code: KeyCode,
        ctx: AppCtx,
        snap: Snapshot,
        r: Option<Action>,
    ) -> bool {
        r is None
    }

    fn title(&self) -> (r: &'static str) {
        "Overview"
    }

    fn claims_key(&self, code: KeyCode) -> (r: bool) {
        false
    }

    fn footer_hints(&self) -> (r: Vec<(&'static str, &'static str)>) {
        let r: Vec<(&'static str, &'static str)> = Vec::new();
        assert(hint_texts(r) =~= Seq::empty());
        r
    }

    fn on_key(&mut self, key: KeyEvent, ctx: &AppCtx, snap: &Snapshot) -> (r: Option<Action>) {
        None
    }
}

/// The active account is the first that is marked so, if one is.
pub proof fn the_first_active_account_is_shown(accounts: Seq<AcctRow>)
    ensures
        match active_account(accounts) {
            Some(i) => {
                &&& 0 <= i < accounts.len()
                &&& accounts[i].is_active
                &&& forall|j: int| 0 <= j < i ==> !(#[trigger] accounts[j]).is_active
            },
            None => forall|j: int| 0 <= j < accounts.len() ==> !(#[trigger] accounts[j]).is_active,
        },
{
    lemma_active_among(accounts, accounts.len() as int);
}

proof fn lemma_active_among(accounts: Seq<AcctRow>, k: int)
    requires
        0 <= k <= accounts.len(),
    ensures
        match active_among(accounts, k) {
            Some(i) => {
                &&& 0 <= i < k
                &&& accounts[i].is_active
                &&& forall|j: int| 0 <= j < i ==> !(#[trigger] accounts[j]).is_active
            },
            None => forall|j: int| 0 <= j < k ==> !(#[trigger] accounts[j]).is_active,
        },
    decreases k,
{
    if k > 0 {
        lemma_active_among(accounts, k - 1);
    }
}

/// The next prime is the soonest, and of equals the first; the one after it is the soonest of
/// the others.
pub proof fn the_next_prime_is_the_soonest(rows: Seq<PrimeRow>)
    ensures
        soonest(rows) is None <==> forall|j: int|
            0 <= j < rows.len() ==> (#[trigger] rows[j]).next_fire is None,
        soonest(rows) matches Some(m) ==> {
            &&& 0 <= m < rows.len()
            &&& rows[m].next_fire matches Some(f) && {
                &&& forall|j: int|
                    0 <= j < rows.len() ==> ((#[trigger] rows[j]).next_fire matches Some(g)
                        ==> f.unix <= g.unix)
                &&& forall|j: int|
                    0 <= j < m ==> ((#[trigger] rows[j]).next_fire matches Some(g) ==> f.unix
                        < g.unix)
            }
            &&& match next_after(rows, m) {
                None => forall|j: int|
                    0 <= j < rows.len() && j != m ==> (#[trigger] rows[j]).next_fire is None,
                Some(k) => {
                    &&& 0 <= k < rows.len()
                    &&& k != m
                    &&& rows[k].next_fire matches Some(f) && forall|j: int|
                        0 <= j < rows.len() && j != m ==> ((#[trigger] rows[j]).next_fire matches
                            Some(g) ==> f.unix <= g.unix)
                },
            }
        },
{
    let n = rows.len() as int;
    soonest_is_minimal(rows, None, n);
    lemma_first_of_equals(rows, None, n);
    if let Some(m) = soonest(rows) {
        soonest_is_minimal(rows, Some(m), n);
    }
}

proof fn lemma_first_of_equals(rows: Seq<PrimeRow>, skip: Option<int>, k: int)
    requires
        0 <= k <= rows.len(),
    ensures
        soonest_among(rows, skip, k) matches Some(m) ==> forall|j: int|
            0 <= j < m && skip != Some(j) ==> ((#[trigger] rows[j]).next_fire matches Some(g)
                ==> rows[m].next_fire->0.unix < g.unix),
    decreases k,
{
    if k > 0 {
        lemma_first_of_equals(rows, skip, k - 1);
        soonest_is_minimal(rows, skip, k - 1);
    }
}

/// The section on the next prime names the account that fires soonest, and how long that is
/// away; without one it says that nothing is scheduled.
pub proof fn the_next_prime_is_named(rows: Seq<PrimeRow>, now_ms: i64)
    ensures
        match soonest(rows) {
            Some(m) => {
                &&& prime_section(rows, now_ms)[1][1].text == rows[m].alias@ + "   "@
                &&& prime_section(rows, now_ms)[1][3].text == until_text(
                    rows[m].next_fire->0.unix as int,
                    now_ms as int,
                )
            },
            None => prime_section(rows, now_ms)[1][1].text == "no schedule"@,
        },
{
}

/// Every matched profile has its chip, in order, with a gap between neighbours.
pub proof fn every_matched_profile_has_a_chip(matched: Seq<Seq<char>>)
    ensures
        matched.len() == 0 ==> chips(matched).len() == 0,
        matched.len() > 0 ==> chips(matched).len() == 2 * matched.len() - 1,
        forall|k: int|
            0 <= k < matched.len() ==> chips(matched)[2 * k].text == "‹"@ + #[trigger] matched[k]
                + "›"@,
    decreases matched.len(),
{
    if matched.len() > 1 {
        let t = matched.drop_last();
        every_matched_profile_has_a_chip(t);
        let n = t.len() as int;
        let all = chips(matched);
        assert forall|k: int| 0 <= k < matched.len() implies all[2 * k].text == "‹"@
            + #[trigger] matched[k] + "›"@ by {
            if k < n {
                assert(t[k] == matched[k]);
                assert(all[2 * k] == chips(t)[2 * k]);
            } else {
                assert(all[2 * k] == all.last());
            }
        }
    }
}

/// The section on the account shows the active one: its alias, the state of its token and what
/// is left of its window.
pub proof fn the_active_account_is_shown(snap: Snapshot, now_ms: i64, g: OverviewGauges, i: int)
    requires
        0 <= i < snap.accounts.len(),
        snap.accounts[i].is_active,
        forall|j: int| 0 <= j < i ==> !(#[trigger] snap.accounts[j]).is_active,
    ensures
        ({
            let s = account_section(snap, now_ms, g);
            let a = snap.accounts[i];
            &&& s[1][1].text == "● "@ + a.alias@
            &&& s[3].last().text == "  "@ + token_text(a.expires_at_ms, a.has_refresh, now_ms).0
            &&& s[5].last().text == "  "@ + window_value(
                window_left(a.window_start_epoch, now_ms),
            )
        }),
{
    the_first_active_account_is_shown(snap.accounts@);
    if let Some(k) = active_account(snap.accounts@) {
        if k < i {
            assert(!snap.accounts[k].is_active);
        } else if i < k {
            assert(!snap.accounts@[i].is_active);
        }
    } else {
        assert(!snap.accounts@[i].is_active);
    }
}

/// The window is told by what is left of it, of its five hours; once closed it is idle.
pub proof fn a_closed_window_is_idle(start: i64, now_ms: i64)
    ensures
        window_value(window_left(None, now_ms)) == "idle"@,
        now_ms >= start * 1000 + 5 * 3_600_000 ==> window_value(window_left(Some(start), now_ms))
            == "idle"@,
        now_ms < start * 1000 + 5 * 3_600_000 ==> (duration_text(
            start * 1000 + 5 * 3_600_000 - now_ms,
        ) matches Some(d) && window_value(window_left(Some(start), now_ms)) == d + " / 5h"@),
{
}

/// The section on the profile shows the working directory and, if there is a configuration,
/// what matches it and how many plugins are applied.
pub proof fn the_working_directory_is_shown(snap: Snapshot)
    ensures
        ({
            let s = profile_section(snap);
            let name = match snap.cwd_name {
                Some(n) => n@,
                None => snap.cwd@,
            };
            &&& s[1][1].text == name
            &&& !snap.profiles_json_exists ==> s[1][3].text == "no profiles.json"@
            &&& snap.profiles_json_exists ==> s[3].last().text == decimal(snap.applied_count as nat)
                + " applied"@
            &&& snap.profiles_json_exists && snap.matched@.len() == 0 ==> s[3][1].text
                == "default (no match)"@
            &&& snap.profiles_json_exists && snap.matched@.len() > 0 ==> s[3][1].text == "‹"@
                + snap.matched.deep_view()[0] + "›"@
        }),
{
    let matched = snap.matched.deep_view();
    if matched.len() > 0 {
        every_matched_profile_has_a_chip(matched);
        assert(chips(matched)[0].text == "‹"@ + matched[0] + "›"@);
    }
}

/// The detail of the next prime gives its time, and the account and time of the one after it,
/// if there is one.
pub proof fn the_prime_after_the_next_is_named(rows: Seq<PrimeRow>, first: int)
    ensures
        next_after(rows, first) is None ==> prime_detail(rows, first) == clock_text(
            rows[first].next_fire->0,
        ) + " daily"@,
        next_after(rows, first) matches Some(j) ==> prime_detail(rows, first) == clock_text(
            rows[first].next_fire->0,
        ) + " daily"@ + ("   ·   then "@ + rows[j].alias@ + " "@) + clock_text(
            rows[j].next_fire->0,
        ),
{
}

} // verus!
