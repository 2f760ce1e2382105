//! The Accounts tab: a navigable account list with the token state of each row.

use vstd::prelude::*;

use crate::text::{join, join2, join3, joined, pad, padded, same};
use crate::tui::ctx::AppCtx;
use crate::tui::key::{down, is_down, is_up, next_in, prev_in, up, KeyCode, KeyEvent};
use crate::tui::line::{
    blank, line1, line2, line3, no_lines, put_line, put_span, sp, span, styled, Line, SpanV,
};
use crate::tui::snapshot::{times_in, AcctRow, FireTime, PrimeRow, Snapshot};
use crate::tui::theme::{self, Style};
use crate::tui::view::{hint_texts, Action, TabView};
use crate::tui::widgets::{
    duration_label, duration_text, gauge, put_gauge, token_label, token_text, until_label,
    until_text, window_left, window_remaining,
};

verus! {

/// Overlay state of the tab.
#[derive(Debug)]
pub enum Modal {
    Closed,
    ConfirmRemove(String),
}

/// The account list, its cursor, and the removal prompt.
#[derive(Debug)]
pub struct AccountsView {
    pub cursor: usize,
    pub modal: Modal,
}

/// The cursor once it is back on a list of `n` rows.
pub open spec fn clamped(cursor: int, n: int) -> int {
    if n == 0 {
        0
    } else if cursor >= n {
        n - 1
    } else {
        cursor
    }
}

/// The cursor once it is back on a list of `n` rows.
pub fn clamp_to(cursor: usize, n: usize) -> (r: usize)
    ensures
        r == clamped(cursor as int, n as int),
        n > 0 ==> r < n,
{
    if n == 0 {
        0
    } else if cursor >= n {
        n - 1
    } else {
        cursor
    }
}

/// `s` in exactly `w` columns: padded, or cut with an ellipsis.
pub open spec fn fitted(s: Seq<char>, w: nat) -> Seq<char> {
    if s.len() <= w {
        padded(s, w)
    } else if w == 0 {
        Seq::empty()
    } else {
        s.take(w - 1).push('…')
    }
}

/// A fitted text is exactly as wide as its column.
pub proof fn fitted_is_exactly_wide(s: Seq<char>, w: nat)
    ensures
        fitted(s, w).len() == w,
{
}

/// A text that fits is shown in full.
pub proof fn fitted_keeps_short_text(s: Seq<char>, w: nat)
    requires
        s.len() <= w,
    ensures
        s.is_prefix_of(fitted(s, w)),
{
    assert(fitted(s, w).take(s.len() as int) =~= s);
}

/// Pads `s` on the right to `w` columns, or cuts it with a trailing ellipsis, so
/// that columns stay aligned no matter how long a name is.
pub fn fit(s: &str, w: usize) -> (r: String)
    ensures
        r@ == fitted(s@, w as nat),
{
    let n: usize = s.unicode_len();
    if n <= w {
        pad(s, w)
    } else if w == 0 {
        String::new()
    } else {
        let mut head = s.substring_char(0, w - 1).to_owned();
        head.push('…');
        assert(head@ =~= s@.take(w - 1).push('…'));
        head
    }
}

/// When the priming of `alias` fires next: the first row with that alias decides.
pub open spec fn fire_in(rows: Seq<PrimeRow>, alias: Seq<char>) -> Option<FireTime>
    decreases rows.len(),
{
    if rows.len() == 0 {
        None
    } else if rows[0].alias@ == alias {
        rows[0].next_fire
    } else {
        fire_in(rows.drop_first(), alias)
    }
}

fn next_fire_of(rows: &Vec<PrimeRow>, alias: &str) -> (r: Option<FireTime>)
    ensures
        r == fire_in(rows@, alias@),
{
    let mut i: usize = 0;
    assert(rows@.skip(0) =~= rows@);
    while i < rows.len()
        invariant
            i <= rows.len(),
            fire_in(rows@, alias@) == fire_in(rows@.skip(i as int), alias@),
        decreases rows.len() - i,
    {
        let ghost rest = rows@.skip(i as int);
        assert(rest[0] == rows@[i as int]);
        assert(rest.drop_first() =~= rows@.skip(i + 1));
        if same(rows[i].alias.as_str(), alias) {
            return rows[i].next_fire;
        }
        i += 1;
    }
    None
}

/// The style of a token label.
pub open spec fn token_style(urgent: bool) -> Style {
    if urgent {
        theme::alert()
    } else {
        theme::dim()
    }
}

/// The style of a token label.
pub fn style_of_token(urgent: bool) -> (r: Style)
    ensures
        r == token_style(urgent),
{
    if urgent {
        theme::alert()
    } else {
        theme::dim()
    }
}

/// The organization lines of the detail pane, if there is an organization.
pub open spec fn org_lines(org: Option<String>) -> Seq<Seq<SpanV>> {
    match org {
        Some(o) => seq![
            seq![sp("  org       "@, theme::dim()), sp(o@, theme::dim())],
            Seq::empty(),
        ],
        None => Seq::empty(),
    }
}

/// What is left of the window, in words.
pub open spec fn window_words(left: Option<int>) -> Seq<char> {
    match left {
        Some(ms) => match duration_text(ms) {
            Some(s) => "  "@ + s + " left"@,
            None => "  idle"@,
        },
        None => "  idle"@,
    }
}

/// The window line of the detail pane.
pub open spec fn window_line(start: Option<i64>, now_ms: i64, filled: int) -> Seq<SpanV> {
    seq![sp("  window    "@, theme::dim()), sp("▏"@, theme::faint())] + gauge(filled, 12) + seq![
        sp("▕"@, theme::faint()),
        sp(window_words(window_left(start, now_ms)), theme::text()),
    ]
}

/// The schedule of an account, in words.
pub open spec fn schedule_span(
    times: Option<Seq<Seq<char>>>,
    fire: Option<FireTime>,
    now_ms: i64,
) -> SpanV {
    match times {
        Some(ts) => if ts.len() > 0 {
            sp(
                match fire {
                    Some(f) => joined(ts, ", "@) + "   ·   next in "@ + until_text(
                        f.unix as int,
                        now_ms as int,
                    ),
                    None => joined(ts, ", "@),
                },
                theme::text(),
            )
        } else {
            sp("not scheduled"@, theme::dim())
        },
        None => sp("not scheduled"@, theme::dim()),
    }
}

/// The detail pane of an account.
pub open spec fn detail_lines(a: AcctRow, snap: Snapshot, now_ms: i64, filled: int) -> Seq<
    Seq<SpanV>,
> {
    let (token, urgent) = token_text(a.expires_at_ms, a.has_refresh, now_ms);
    seq![
        seq![sp(a.alias@, theme::accent()), sp("  ·  "@, theme::faint()), sp(a.email@, theme::text())],
        Seq::empty(),
    ] + org_lines(a.org) + seq![
        seq![sp("  token     "@, theme::dim()), sp(token, token_style(urgent))],
        Seq::empty(),
        window_line(a.window_start_epoch, now_ms, filled),
        Seq::empty(),
        seq![
            sp("  schedule  "@, theme::dim()),
            schedule_span(
                times_in(snap.schedule@, a.alias@),
                fire_in(snap.priming@, a.alias@),
                now_ms,
            ),
        ],
    ]
}

fn window_row(start: Option<i64>, now_ms: i64, filled: usize) -> (r: Line)
    ensures
        r@ == window_line(start, now_ms, filled as int),
{
    let label = match window_remaining(start, now_ms) {
        Some(ms) => match duration_label(ms) {
            Some(s) => join3("  ", s.as_str(), " left"),
            None => crate::text::owned("  idle"),
        },
        None => crate::text::owned("  idle"),
    };
    let mut l = line2(styled("  window    ", theme::dim()), styled("▏", theme::faint()));
    put_gauge(&mut l, filled, 12);
    put_span(&mut l, styled("▕", theme::faint()));
    put_span(&mut l, span(label, theme::text()));
    assert(l@ =~= window_line(start, now_ms, filled as int));
    l
}

/// The detail pane of the focused account: email, organization, token, window
/// gauge with `filled` of its twelve cells filled, and prime schedule.
pub fn account_detail(a: &AcctRow, snap: &Snapshot, now_ms: i64, filled: usize) -> (r: Vec<Line>)
    ensures
        r.deep_view() == detail_lines(*a, *snap, now_ms, filled as int),
{
    let mut out = no_lines();
    put_line(
        &mut out,
        line3(
            styled(a.alias.as_str(), theme::accent()),
            styled("  ·  ", theme::faint()),
            styled(a.email.as_str(), theme::text()),
        ),
    );
    put_line(&mut out, blank());
    match &a.org {
        Some(org) => {
            put_line(
                &mut out,
                line2(styled("  org       ", theme::dim()), styled(org.as_str(), theme::dim())),
            );
            put_line(&mut out, blank());
        },
        None => {},
    }
    let (token, urgent) = token_label(a.expires_at_ms, a.has_refresh, now_ms);
    put_line(
        &mut out,
        line2(styled("  token     ", theme::dim()), span(token, style_of_token(urgent))),
    );
    put_line(&mut out, blank());
    put_line(&mut out, window_row(a.window_start_epoch, now_ms, filled));
    put_line(&mut out, blank());
    let sched = match snap.schedule_times(a.alias.as_str()) {
        Some(times) => if times.len() > 0 {
            let s = join(times, ", ");
            assert(times.deep_view().len() > 0);
            match next_fire_of(&snap.priming, a.alias.as_str()) {
                Some(f) => span(
                    join3(s.as_str(), "   ·   next in ", until_label(f.unix, now_ms).as_str()),
                    theme::text(),
                ),
                None => span(s, theme::text()),
            }
        } else {
            assert(times.deep_view().len() == 0);
            styled("not scheduled", theme::dim())
        },
        None => styled("not scheduled", theme::dim()),
    };
    put_line(&mut out, line2(styled("  schedule  ", theme::dim()), sched));
    assert(out.deep_view() =~= detail_lines(*a, *snap, now_ms, filled as int));
    out
}

/// The row of an account in the list.
pub open spec fn account_row_line(a: AcctRow, now_ms: i64, filled: int) -> Seq<SpanV> {
    let (token, urgent) = token_text(a.expires_at_ms, a.has_refresh, now_ms);
    let marker = if a.is_active {
        sp("● "@, theme::accent())
    } else {
        sp("  "@, theme::dim())
    };
    let org = match a.org {
        Some(o) => o@,
        None => "—"@,
    };
    seq![marker, sp(fitted(a.alias@, 12) + fitted(org, 12), theme::text()), sp("▏"@, theme::faint())]
        + gauge(filled, 6) + seq![sp("▕  "@, theme::faint()), sp(token, token_style(urgent))]
}

fn row_of(a: &AcctRow, now_ms: i64, filled: usize) -> (r: Line)
    ensures
        r@ == account_row_line(*a, now_ms, filled as int),
{
    let (token, urgent) = token_label(a.expires_at_ms, a.has_refresh, now_ms);
    let marker = if a.is_active {
        styled("● ", theme::accent())
    } else {
        styled("  ", theme::dim())
    };
    let org = match &a.org {
        Some(o) => fit(o.as_str(), 12),
        None => fit("—", 12),
    };
    let mut l = line3(
        marker,
        span(join2(fit(a.alias.as_str(), 12).as_str(), org.as_str()), theme::text()),
        styled("▏", theme::faint()),
    );
    put_gauge(&mut l, filled, 6);
    put_span(&mut l, styled("▕  ", theme::faint()));
    put_span(&mut l, span(token, style_of_token(urgent)));
    assert(l@ =~= account_row_line(*a, now_ms, filled as int));
    l
}

/// Everything the Accounts tab draws.
#[derive(Debug)]
pub struct AccountsPage {
    pub header: Line,
    pub rows: Vec<Line>,
    pub selected: Option<usize>,
    pub detail: Vec<Line>,
    /// The removal prompt, if it is open.
    pub prompt: Option<String>,
}

/// The text of the removal prompt.
pub open spec fn remove_prompt(alias: Seq<char>) -> Seq<char> {
    "Remove '"@ + alias
        + "'? This deletes its credential snapshot.\n\n  y = yes    n = no"@
}

/// The filled cells of the gauges of one account row: in the list and in the detail pane.
#[derive(Clone, Copy, Debug, PartialEq, Eq, Structural)]
pub struct RowGauge {
    pub list: usize,
    pub detail: usize,
}

impl AccountsView {
    /// The tab as it opens.
    pub fn new() -> (r: AccountsView)
        ensures
            r.cursor == 0,
            r.modal is Closed,
    {
        AccountsView { cursor: 0, modal: Modal::Closed }
    }

    /// The alias under the cursor, if it is on a row.
    pub fn selected_alias<'a>(&self, snap: &'a Snapshot) -> (r: Option<&'a str>)
        ensures
            match r {
                Some(a) => self.cursor < snap.accounts.len() && a@
                    == snap.accounts[self.cursor as int].alias@,
                None => self.cursor >= snap.accounts.len(),
            },
    {
        if self.cursor < snap.accounts.len() {
            Some(snap.accounts[self.cursor].alias.as_str())
        } else {
            None
        }
    }

    /// The page for `snap` at `now_ms`. `gauges` gives the filled cells of each
    /// account's window gauges.
    pub fn render(&self, snap: &Snapshot, now_ms: i64, gauges: &Vec<RowGauge>) -> (r: AccountsPage)
        requires
            gauges.len() == snap.accounts.len(),
        ensures
            r.header@ == seq![
                sp("    alias       org         window    token"@, theme::dim()),
            ],
            r.rows.deep_view() == Seq::new(
                snap.accounts.len() as nat,
                |i: int| account_row_line(snap.accounts[i], now_ms, gauges[i].list as int),
            ),
            snap.accounts.len() == 0 ==> r.selected is None && r.detail@.len() == 0,
            snap.accounts.len() > 0 ==> {
                let c = clamped(self.cursor as int, snap.accounts.len() as int);
                &&& r.selected == Some(c as usize)
                &&& r.detail.deep_view() == detail_lines(
                    snap.accounts[c],
                    *snap,
                    now_ms,
                    gauges[c].detail as int,
                )
            },
            match self.modal {
                Modal::Closed => r.prompt is None,
                Modal::ConfirmRemove(a) => r.prompt matches Some(p) && p@ == remove_prompt(a@),
            },
    {
        let header = line1(
            styled("    alias       org         window    token", theme::dim()),
        );
        let mut rows = no_lines();
        let ghost all = Seq::new(
            snap.accounts.len() as nat,
            |i: int| account_row_line(snap.accounts[i], now_ms, gauges[i].list as int),
        );
        let n: usize = snap.accounts.len();
        let mut i: usize = 0;
        while i < n
            invariant
                i <= n,
                n == snap.accounts.len(),
                gauges.len() == n,
                all == Seq::new(
                    n as nat,
                    |i: int| account_row_line(snap.accounts[i], now_ms, gauges[i].list as int),
                ),
                rows.deep_view() =~= all.take(i as int),
            decreases n - i,
        {
            put_line(&mut rows, row_of(&snap.accounts[i], now_ms, gauges[i].list));
            i += 1;
        }
        assert(all.take(i as int) =~= all);
        let (selected, detail) = if n == 0 {
            (None, no_lines())
        } else {
            let c: usize = clamp_to(self.cursor, n);
            (Some(c), account_detail(&snap.accounts[c], snap, now_ms, gauges[c].detail))
        };
        assert(n == 0 ==> detail.deep_view().len() == 0);
        let prompt = match &self.modal {
            Modal::Closed => None,
            Modal::ConfirmRemove(a) => Some(
                join3(
                    "Remove '",
                    a.as_str(),
                    "'? This deletes its credential snapshot.\n\n  y = yes    n = no",
                ),
            ),
        };
        AccountsPage { header, rows, selected, detail, prompt }
    }
}

/// An account is removed only once the prompt has named it and y has confirmed.
pub proof fn removing_an_account_asks_first(
    pre: AccountsView,
    post: AccountsView,
    code: KeyCode,
    ctx: AppCtx,
    snap: Snapshot,
    alias: String,
)
    requires
        pre.steps(post, code, ctx, snap, Some(Action::RemoveAccount(alias))),
    ensures
        pre.modal matches Modal::ConfirmRemove(a) && a@ == alias@,
        code == KeyCode::Char('y'),
{
}

impl TabView for AccountsView {
    open spec fn name(&self) -> Seq<char> {
        "Accounts"@
    }

    open spec fn ok(&self) -> bool {
        true
    }

    /// The removal prompt keeps Esc to itself, so that it cancels and does not quit.
    open spec fn claims(&self, code: KeyCode) -> bool {
        self.modal is ConfirmRemove && code == KeyCode::Esc
    }

    open spec fn hints(&self) -> Seq<(Seq<char>, Seq<char>)> {
        seq![
            ("↑↓"@, "move"@),
            ("⏎"@, "switch"@),
            ("p"@, "prime"@),
            ("d"@, "remove"@),
            ("R"@, "relaunch"@),
        ]
    }

    open spec fn steps(
        self,
        post: Self,
        code: KeyCode,
        ctx: AppCtx,
        snap: Snapshot,
        r: Option<Action>,
    ) -> bool {
        let n = snap.accounts.len() as int;
        let c = clamped(self.cursor as int, n);
        match self.modal {
            Modal::ConfirmRemove(a) => {
                &&& post.cursor == c
                &&& if code == KeyCode::Char('y') {
                    post.modal is Closed && (r matches Some(Action::RemoveAccount(x))
                        && x@ == a@)
                } else if code == KeyCode::Char('n') || code == KeyCode::Esc {
                    post.modal is Closed && r is None
                } else {
                    post.modal == self.modal && r is None
                }
            },
            Modal::Closed => {
                if is_down(code) || is_up(code) {
                    &&& r is None
                    &&& post.modal is Closed
                    &&& post.cursor == if n == 0 {
                        0
                    } else if is_down(code) {
                        next_in(c, n)
                    } else {
                        prev_in(c, n)
                    }
                } else {
                    &&& post.cursor == c
                    &&& if n > 0 && code == KeyCode::Enter {
                        post.modal is Closed && (r matches Some(Action::Switch(x))
                            && x@ == snap.accounts[c].alias@)
                    } else if n > 0 && code == KeyCode::Char('p') {
                        post.modal is Closed && (r matches Some(Action::Prime(x))
                            && x@ == snap.accounts[c].alias@)
                    } else if n > 0 && code == KeyCode::Char('d') {
                        r is None && (post.modal matches Modal::ConfirmRemove(x)
                            && x@ == snap.accounts[c].alias@)
                    } else {
                        r is None && post.modal is Closed
                    }
                }
            },
        }
    }

    fn title(&self) -> (r: &'static str) {
        "Accounts"
    }

    fn claims_key(&self, code: KeyCode) -> (r: bool) {
        match &self.modal {
            Modal::ConfirmRemove(_) => code == KeyCode::Esc,
            Modal::Closed => false,
        }
    }

    fn footer_hints(&self) -> (r: Vec<(&'static str, &'static str)>) {
        let r = vec![
            ("↑↓", "move"),
            ("⏎", "switch"),
            ("p", "prime"),
            ("d", "remove"),
            ("R", "relaunch"),
        ];
        assert(hint_texts(r) =~= self.hints());
        r
    }

    /// The prompt takes keys first; otherwise arrows move, Enter switches, p primes
    /// and d asks before removing.
    fn on_key(&mut self, key: KeyEvent, ctx: &AppCtx, snap: &Snapshot) -> (r: Option<Action>) {
        let n: usize = snap.accounts.len();
        self.cursor = clamp_to(self.cursor, n);
        if let Modal::ConfirmRemove(alias) = &self.modal {
            return match key.code {
                KeyCode::Char('y') => {
                    let a = alias.clone();
                    self.modal = Modal::Closed;
                    Some(Action::RemoveAccount(a))
                },
                KeyCode::Char('n') | KeyCode::Esc => {
                    self.modal = Modal::Closed;
                    None
                },
                _ => None,
            };
        }
        match key.code {
            KeyCode::Down | KeyCode::Char('j') => {
                if n > 0 {
                    self.cursor = down(self.cursor, n);
                }
                None
            },
            KeyCode::Up | KeyCode::Char('k') => {
                if n > 0 {
                    self.cursor = up(self.cursor, n);
                }
                None
            },
            KeyCode::Enter => match self.selected_alias(snap) {
                Some(a) => Some(Action::Switch(a.to_owned())),
                None => None,
            },
            KeyCode::Char('p') => match self.selected_alias(snap) {
                Some(a) => Some(Action::Prime(a.to_owned())),
                None => None,
            },
            KeyCode::Char('d') => {
                if let Some(a) = self.selected_alias(snap) {
                    self.modal = Modal::ConfirmRemove(a.to_owned());
                }
                None
            },
            _ => None,
        }
    }
}

/// With no prompt open, Enter switches to the account under the cursor, p primes it, and d
/// asks whether to remove it; no other key asks for anything, and only moving moves the
/// cursor.
pub proof fn keys_act_on_the_account_under_the_cursor(
    pre: AccountsView,
    post: AccountsView,
    code: KeyCode,
    ctx: AppCtx,
    snap: Snapshot,
    r: Option<Action>,
)
    requires
        pre.steps(post, code, ctx, snap, r),
        pre.modal is Closed,
        pre.cursor < snap.accounts.len(),
    ensures
        ({
            let n = snap.accounts.len() as int;
            let alias = snap.accounts[pre.cursor as int].alias@;
            &&& code == KeyCode::Enter ==> (r matches Some(Action::Switch(a)) && a@ == alias)
            &&& code == KeyCode::Char('p') ==> (r matches Some(Action::Prime(a)) && a@ == alias)
            &&& code == KeyCode::Char('d') ==> r is None && (post.modal matches
                Modal::ConfirmRemove(a) && a@ == alias)
            &&& code != KeyCode::Enter && code != KeyCode::Char('p') ==> r is None
            &&& code != KeyCode::Char('d') ==> post.modal is Closed
            &&& code == KeyCode::Down || code == KeyCode::Char('j') ==> post.cursor == if pre.cursor
                + 1 == n {
                0
            } else {
                pre.cursor + 1
            }
            &&& code == KeyCode::Up || code == KeyCode::Char('k') ==> post.cursor == if pre.cursor
                == 0 {
                n - 1
            } else {
                pre.cursor - 1
            }
            &&& code == KeyCode::Enter || code == KeyCode::Char('p') || code == KeyCode::Char('d')
                ==> post.cursor == pre.cursor
        }),
{
    crate::tui::key::cursors_go_round(pre.cursor as int, snap.accounts.len() as int);
}

/// In the prompt, y removes the account that it names, n and Esc close it, and other keys
/// leave it open.
pub proof fn the_prompt_removes_the_account_it_names(
    pre: AccountsView,
    post: AccountsView,
    code: KeyCode,
    ctx: AppCtx,
    snap: Snapshot,
    r: Option<Action>,
    alias: String,
)
    requires
        pre.steps(post, code, ctx, snap, r),
        pre.modal == Modal::ConfirmRemove(alias),
    ensures
        code == KeyCode::Char('y') ==> post.modal is Closed && (r matches Some(
            Action::RemoveAccount(a),
        ) && a@ == alias@),
        code == KeyCode::Char('n') || code == KeyCode::Esc ==> post.modal is Closed && r is None,
        code != KeyCode::Char('y') && code != KeyCode::Char('n') && code != KeyCode::Esc
            ==> post.modal == pre.modal && r is None,
{
}

/// The priming of an account fires when the first row with its alias says.
pub proof fn the_first_row_gives_the_next_fire(rows: Seq<PrimeRow>, alias: Seq<char>)
    ensures
        (forall|i: int| 0 <= i < rows.len() ==> (#[trigger] rows[i]).alias@ != alias) ==> fire_in(
            rows,
            alias,
        ) is None,
        forall|i: int|
            0 <= i < rows.len() && (#[trigger] rows[i]).alias@ == alias && (forall|j: int|
                0 <= j < i ==> (#[trigger] rows[j]).alias@ != alias) ==> fire_in(rows, alias)
                == rows[i].next_fire,
    decreases rows.len(),
{
    if rows.len() > 0 {
        let t = rows.drop_first();
        the_first_row_gives_the_next_fire(t, alias);
        if rows[0].alias@ != alias {
            assert forall|i: int|
                0 <= i < rows.len() && (#[trigger] rows[i]).alias@ == alias && (forall|j: int|
                    0 <= j < i ==> (#[trigger] rows[j]).alias@ != alias) implies fire_in(
                rows,
                alias,
            ) == rows[i].next_fire by {
                assert(t[i - 1] == rows[i]);
                assert forall|j: int| 0 <= j < i - 1 implies (#[trigger] t[j]).alias@ != alias by {
                    assert(rows[j + 1].alias@ != alias);
                }
            }
            if forall|i: int| 0 <= i < rows.len() ==> (#[trigger] rows[i]).alias@ != alias {
                assert forall|i: int| 0 <= i < t.len() implies (#[trigger] t[i]).alias@ != alias by {
                    assert(rows[i + 1].alias@ != alias);
                }
            }
        }
    }
}

/// A text that is too long is cut: its front is kept, and an ellipsis stands for the rest.
pub proof fn long_text_is_cut_at_its_end(s: Seq<char>, w: nat)
    requires
        s.len() > w > 0,
    ensures
        fitted(s, w) == s.take(w - 1).push('…'),
{
}

/// A cursor on a row stays there; one behind the last row goes to the last row.
pub proof fn a_cursor_is_put_back_on_a_row(cursor: int, n: int)
    requires
        0 <= cursor,
        0 <= n,
    ensures
        cursor < n ==> clamped(cursor, n) == cursor,
        cursor >= n > 0 ==> clamped(cursor, n) == n - 1,
        n == 0 ==> clamped(cursor, n) == 0,
{
}

/// The window is told by what is left of it, and is idle once it has closed or was never
/// opened.
pub proof fn a_closed_window_is_idle(start: i64, now_ms: i64)
    ensures
        window_words(window_left(None, now_ms)) == "  idle"@,
        now_ms >= start * 1000 + 5 * 3_600_000 ==> window_words(window_left(Some(start), now_ms))
            == "  idle"@,
        now_ms < start * 1000 + 5 * 3_600_000 ==> (duration_text(
            start * 1000 + 5 * 3_600_000 - now_ms,
        ) matches Some(d) && window_words(window_left(Some(start), now_ms)) == "  "@ + d + " left"@),
{
}

/// The schedule of an account is told by all its times, in order, and by how long it is until
/// it fires; without times it is not scheduled.
pub proof fn the_schedule_is_told_by_its_times(
    times: Seq<Seq<char>>,
    fire: FireTime,
    now_ms: i64,
)
    ensures
        schedule_span(None, Some(fire), now_ms).text == "not scheduled"@,
        times.len() == 0 ==> schedule_span(Some(times), Some(fire), now_ms).text
            == "not scheduled"@,
        times.len() > 0 ==> schedule_span(Some(times), None, now_ms).text == joined(times, ", "@),
        times.len() > 0 ==> schedule_span(Some(times), Some(fire), now_ms).text == joined(
            times,
            ", "@,
        ) + "   ·   next in "@ + until_text(fire.unix as int, now_ms as int),
{
}

/// A row shows the account, marked where it is active, and the state of its token.
pub proof fn a_row_shows_the_account(a: AcctRow, now_ms: i64, filled: int)
    ensures
        ({
            let r = account_row_line(a, now_ms, filled);
            &&& r[0].text == if a.is_active {
                "● "@
            } else {
                "  "@
            }
            &&& a.org matches Some(o) ==> r[1].text == fitted(a.alias@, 12) + fitted(o@, 12)
            &&& a.org is None ==> r[1].text == fitted(a.alias@, 12) + fitted("—"@, 12)
            &&& r.last().text == token_text(a.expires_at_ms, a.has_refresh, now_ms).0
        }),
{
}

/// The detail pane shows the account, the state of its token, and its own schedule.
pub proof fn the_detail_pane_shows_the_account(
    a: AcctRow,
    snap: Snapshot,
    now_ms: i64,
    filled: int,
)
    ensures
        ({
            let ls = detail_lines(a, snap, now_ms, filled);
            let n = ls.len() as int;
            &&& ls[0][0].text == a.alias@
            &&& ls[0][2].text == a.email@
            &&& a.org matches Some(o) ==> ls[2][1].text == o@
            &&& ls[n - 5][1].text == token_text(a.expires_at_ms, a.has_refresh, now_ms).0
            &&& ls[n - 3].last().text == window_words(window_left(a.window_start_epoch, now_ms))
            &&& ls[n - 1][1] == schedule_span(
                times_in(snap.schedule@, a.alias@),
                fire_in(snap.priming@, a.alias@),
                now_ms,
            )
        }),
{
}

/// An open prompt keeps Esc to itself, and nothing is kept from the hub without one.
pub proof fn only_the_prompt_keeps_esc(v: AccountsView, code: KeyCode)
    ensures
        v.modal is Closed ==> !v.claims(code),
        v.modal is ConfirmRemove ==> (v.claims(code) <==> code == KeyCode::Esc),
{
}

} // verus!
