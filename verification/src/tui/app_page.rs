//! What the hub draws around its tabs.

use vstd::prelude::*;

use crate::text::{blanks, decimal, join2, join3, repeat, show, show2, two_digits};
use crate::tui::app::{App, TOAST_MS};
use crate::tui::line::{
    bare, blank, line1, line3, line_text, no_lines, put_line, put_span, raw, sp, span, styled,
    text_of, text_of_one_span, texts_of_a_line_add_up, Line, Span, SpanV,
};
use crate::tui::overview::{active_account, find_active};
use crate::tui::snapshot::AcctRow;
use crate::tui::theme;
use crate::tui::theme::{spinner_glyph, Style, SPINNER_LEN};
use crate::tui::view::TabView;
use crate::tui::{TAB_ACCOUNTS, TAB_COUNT, TAB_OVERVIEW, TAB_PROFILE, TAB_SCHEDULE};

verus! {

/// The widest the panel gets.
pub const MAX_WIDTH: u16 = 96;

/// The width of the panel in an area of `width` columns.
pub fn content_width(width: u16) -> (r: u16)
    ensures
        r == if width < MAX_WIDTH {
            width
        } else {
            MAX_WIDTH
        },
{
    if width < MAX_WIDTH {
        width
    } else {
        MAX_WIDTH
    }
}

/// The titles of the tabs, in order.
pub open spec fn titles() -> Seq<Seq<char>> {
    seq!["Overview"@, "Accounts"@, "Schedule"@, "Profile"@, "Tasks"@]
}

/// The alias of the active account.
pub open spec fn active_alias(accounts: Seq<AcctRow>) -> Option<Seq<char>> {
    match active_account(accounts) {
        Some(i) => Some(accounts[i].alias@),
        None => None,
    }
}

/// The clock on the right of the header.
pub open spec fn clock(hour: u8, minute: u8, second: u8) -> Seq<char> {
    two_digits(hour as nat) + ":"@ + two_digits(minute as nat) + ":"@ + two_digits(second as nat)
}

/// The right of the header: the active account and the clock.
pub open spec fn header_right(alias: Option<Seq<char>>, frame: u64, clock: Seq<char>) -> Seq<
    SpanV,
> {
    match alias {
        Some(a) => seq![
            sp("● "@, theme::pulse_style(frame)),
            sp(a + "  "@, theme::text()),
            sp(clock, theme::dim()),
        ],
        None => seq![sp(clock, theme::dim())],
    }
}

/// The header: the name on the left, the rest flush to the right edge, at least one
/// column apart.
pub open spec fn header_row(right: Seq<SpanV>, width: int) -> Seq<SpanV> {
    let used = "cc-loadout"@.len() + line_text(right).len();
    let gap = if width > used + 1 {
        width - used
    } else {
        1
    };
    seq![sp("cc-loadout"@, theme::accent()), bare(blanks(gap as nat))] + right
}

/// The underline below the first `k` tabs: double below the one that is shown.
pub open spec fn underline(active: int, k: int) -> Seq<char>
    decreases k,
{
    if k <= 0 {
        Seq::empty()
    } else {
        underline(active, k - 1) + Seq::new(
            titles()[k - 1].len(),
            |i: int|
                if k - 1 == active {
                    '═'
                } else {
                    ' '
                },
        ) + "   "@
    }
}

/// The strip of the first `k` tabs, the one that is shown in its own style.
pub open spec fn strip(active: int, k: int) -> Seq<SpanV>
    decreases k,
{
    if k <= 0 {
        Seq::empty()
    } else {
        strip(active, k - 1) + seq![
            sp(
                titles()[k - 1],
                if k - 1 == active {
                    theme::selected_tab()
                } else {
                    theme::dim()
                },
            ),
            bare("   "@),
        ]
    }
}

/// The hints of a footer, each as key and label, and the keys of the hub.
pub open spec fn hint_row(hints: Seq<(Seq<char>, Seq<char>)>) -> Seq<SpanV> {
    hint_spans(hints, hints.len() as int).push(sp("⇥ tab   q quit"@, theme::dim()))
}

/// The first `k` hints.
pub open spec fn hint_spans(hints: Seq<(Seq<char>, Seq<char>)>, k: int) -> Seq<SpanV>
    decreases k,
{
    if k <= 0 {
        Seq::empty()
    } else {
        hint_spans(hints, k - 1) + seq![
            sp(hints[k - 1].0 + " "@, theme::faint()),
            sp(hints[k - 1].1 + "   "@, theme::dim()),
        ]
    }
}

/// The spinner line: glyph, what is under way, and for how many seconds.
pub open spec fn spinner_row(frame: u64, label: Seq<char>, elapsed_ms: int) -> Seq<SpanV> {
    let secs = if elapsed_ms > 0 {
        elapsed_ms / 1000
    } else {
        0
    };
    seq![
        sp(spinner_glyph(frame as int % SPINNER_LEN as int) + " "@, theme::accent()),
        sp(label + "… "@, theme::text()),
        sp(decimal(secs as nat) + "s"@, theme::dim()),
    ]
}

impl App {
    /// The hints of the tab that is shown.
    pub open spec fn hints(self) -> Seq<(Seq<char>, Seq<char>)> {
        if self.active == TAB_OVERVIEW {
            self.overview.hints()
        } else if self.active == TAB_ACCOUNTS {
            self.accounts.hints()
        } else if self.active == TAB_SCHEDULE {
            self.schedule.hints()
        } else if self.active == TAB_PROFILE {
            TabView::hints(&self.profile)
        } else {
            self.tasks.hints()
        }
    }

    /// The footer: the toast, else what can be done.
    pub open spec fn footer_row(self) -> Seq<SpanV> {
        match self.toast {
            Some(t) => seq![sp(t@, theme::accent_soft())],
            None => if self.job is Some {
                seq![sp("esc dismiss · q quit"@, theme::dim())]
            } else {
                hint_row(self.hints())
            },
        }
    }

    /// Drops a toast that has been up for long enough.
    pub fn expire_toast(&mut self, now_ms: i64)
        requires
            old(self).wf(),
        ensures
            final(self).wf(),
            final(self).keeps_tabs(*old(self)),
            final(self).shell() == if old(self).toast is Some && (old(self).toast_at_ms matches Some(
                at,
            ) && now_ms - at > TOAST_MS) {
                old(self).shell().quiet()
            } else {
                old(self).shell()
            },
    {
        if self.toast.is_some() {
            if let Some(at) = self.toast_at_ms {
                if now_ms as i128 - at as i128 > TOAST_MS as i128 {
                    self.toast = None;
                    self.toast_at_ms = None;
                }
            }
        }
    }

    /// The header for a panel of `width` columns, and the rule below it.
    pub fn header(&self, width: u16, hour: u8, minute: u8, second: u8) -> (r: Vec<Line>)
        ensures
            r.deep_view() == seq![
                header_row(
                    header_right(
                        active_alias(self.snap.accounts@),
                        self.frame,
                        clock(hour, minute, second),
                    ),
                    width as int,
                ),
                seq![sp(Seq::new(width as nat, |i: int| '─'), theme::faint())],
            ],
    {
        let mut time = join3(show2(hour as u64).as_str(), ":", show2(minute as u64).as_str());
        time.append(":");
        time.append(show2(second as u64).as_str());
        let mut right = blank();
        if let Some(i) = find_active(&self.snap.accounts) {
            put_span(&mut right, styled("● ", theme::pulse(self.frame)));
            put_span(
                &mut right,
                span(join2(self.snap.accounts[i].alias.as_str(), "  "), theme::text()),
            );
        }
        put_span(&mut right, span(time, theme::dim()));
        let ghost rv = header_right(
            active_alias(self.snap.accounts@),
            self.frame,
            clock(hour, minute, second),
        );
        assert(right@ =~= rv);
        let left = "cc-loadout";
        let l: usize = left.unicode_len();
        let k: usize = text_of(&right).as_str().unicode_len();
        proof {
            reveal_strlit("cc-loadout");
        }
        let gap: usize = if (width as usize) > l && width as usize - l > k && width as usize - l - k
            > 1 {
            width as usize - l - k
        } else {
            1
        };
        let space = repeat(' ', gap);
        assert(space@ =~= blanks(gap as nat));
        let mut spans: Vec<Span> = Vec::new();
        spans.push(styled(left, theme::accent()));
        spans.push(Span { text: space, style: Style::plain() });
        let mut tail = right.spans;
        spans.append(&mut tail);
        let head = Line { spans };
        assert(head@ =~= header_row(rv, width as int));
        let mut out = no_lines();
        put_line(&mut out, head);
        put_line(&mut out, line1(span(repeat('─', width as usize), theme::faint())));
        assert(out.deep_view() =~= seq![
            header_row(rv, width as int),
            seq![sp(Seq::new(width as nat, |i: int| '─'), theme::faint())],
        ]);
        out
    }

    fn title_at(&self, i: usize) -> (r: &'static str)
        requires
            i < TAB_COUNT,
        ensures
            r@ == titles()[i as int],
    {
        if i == TAB_OVERVIEW {
            self.overview.title()
        } else if i == TAB_ACCOUNTS {
            self.accounts.title()
        } else if i == TAB_SCHEDULE {
            self.schedule.title()
        } else if i == TAB_PROFILE {
            self.profile.title()
        } else {
            self.tasks.title()
        }
    }

    /// The tab strip and the underline below it.
    pub fn tab_strip(&self) -> (r: Vec<Line>)
        ensures
            r.deep_view() == seq![
                strip(self.active as int, TAB_COUNT as int),
                seq![sp(underline(self.active as int, TAB_COUNT as int), theme::accent())],
            ],
    {
        let mut tabs = blank();
        let mut rule = String::new();
        let ghost act = self.active as int;
        let mut i: usize = 0;
        while i < TAB_COUNT
            invariant
                i <= TAB_COUNT,
                act == self.active,
                tabs@ == strip(act, i as int),
                rule@ == underline(act, i as int),
            decreases TAB_COUNT - i,
        {
            let title = self.title_at(i);
            let shown = i == self.active;
            let st = if shown {
                theme::selected_tab()
            } else {
                theme::dim()
            };
            let ghost before = tabs@;
            let ghost rb = rule@;
            put_span(&mut tabs, styled(title, st));
            put_span(&mut tabs, raw("   "));
            let mark = repeat(
                if shown {
                    '═'
                } else {
                    ' '
                },
                title.unicode_len(),
            );
            rule.append(mark.as_str());
            rule.append("   ");
            proof {
                assert(mark@ =~= Seq::new(
                    titles()[i as int].len(),
                    |j: int|
                        if i + 1 - 1 == act {
                            '═'
                        } else {
                            ' '
                        },
                ));
                assert(tabs@ =~= strip(act, i + 1));
                assert(rule@ =~= underline(act, i + 1));
            }
            i += 1;
        }
        let mut out = no_lines();
        put_line(&mut out, tabs);
        put_line(&mut out, line1(span(rule, theme::accent())));
        assert(out.deep_view() =~= seq![
            strip(self.active as int, TAB_COUNT as int),
            seq![sp(underline(self.active as int, TAB_COUNT as int), theme::accent())],
        ]);
        out
    }

    /// The footer line.
    pub fn footer(&self) -> (r: Line)
        ensures
            r@ == self.footer_row(),
    {
        if let Some(t) = &self.toast {
            return line1(styled(t.as_str(), theme::accent_soft()));
        }
        if self.job.is_some() {
            return line1(styled("esc dismiss · q quit", theme::dim()));
        }
        let hints = if self.active == TAB_OVERVIEW {
            self.overview.footer_hints()
        } else if self.active == TAB_ACCOUNTS {
            self.accounts.footer_hints()
        } else if self.active == TAB_SCHEDULE {
            self.schedule.footer_hints()
        } else if self.active == TAB_PROFILE {
            self.profile.footer_hints()
        } else {
            self.tasks.footer_hints()
        };
        let ghost hv = crate::tui::view::hint_texts(hints);
        let mut l = blank();
        let mut i: usize = 0;
        while i < hints.len()
            invariant
                i <= hints.len(),
                hv == crate::tui::view::hint_texts(hints),
                l@ == hint_spans(hv, i as int),
            decreases hints.len() - i,
        {
            let h = hints[i];
            assert(hv[i as int] == (h.0@, h.1@));
            put_span(&mut l, span(join2(h.0, " "), theme::faint()));
            put_span(&mut l, span(join2(h.1, "   "), theme::dim()));
            assert(l@ =~= hint_spans(hv, i + 1));
            i += 1;
        }
        put_span(&mut l, styled("⇥ tab   q quit", theme::dim()));
        l
    }

    /// The spinner line of the work that holds the screen.
    pub fn spinner(&self, now_ms: i64) -> (r: Option<Line>)
        ensures
            match r {
                Some(l) => self.job matches Some(j) && l@ == spinner_row(
                    self.frame,
                    j.label@,
                    now_ms - j.started_ms,
                ),
                None => self.job is None,
            },
    {
        match &self.job {
            Some(j) => {
                let ms: i128 = now_ms as i128 - j.started_ms as i128;
                let secs: u64 = if ms > 0 {
                    (ms / 1000) as u64
                } else {
                    0
                };
                Some(
                    line3(
                        span(join2(theme::spinner_frame(self.frame), " "), theme::accent()),
                        span(join2(j.label.as_str(), "… "), theme::text()),
                        span(join2(show(secs).as_str(), "s"), theme::dim()),
                    ),
                )
            },
            None => None,
        }
    }
}

/// The header fills the width: the name is at the left edge, and what stands right ends at the
/// right edge, as long as there is room for both.
pub proof fn the_header_fills_the_width(right: Seq<SpanV>, width: int)
    requires
        width > "cc-loadout"@.len() + line_text(right).len() + 1,
    ensures
        line_text(header_row(right, width)).len() == width,
        "cc-loadout"@.is_prefix_of(line_text(header_row(right, width))),
        line_text(right).is_suffix_of(line_text(header_row(right, width))),
{
    let name = "cc-loadout"@;
    let gap = blanks((width - name.len() - line_text(right).len()) as nat);
    let a = sp(name, theme::accent());
    let b = bare(gap);
    let left = seq![a, b];
    text_of_one_span(a);
    text_of_one_span(b);
    texts_of_a_line_add_up(seq![a], seq![b]);
    assert(left =~= seq![a] + seq![b]);
    texts_of_a_line_add_up(left, right);
    let all = line_text(header_row(right, width));
    assert(all == name + gap + line_text(right));
    assert(name =~= all.subrange(0, name.len() as int));
    assert(line_text(right) =~= all.subrange(all.len() - line_text(right).len(), all.len() as int));
}

/// Where the title of a tab begins in the strip.
pub open spec fn title_start(i: int) -> int
    decreases i,
{
    if i <= 0 {
        0
    } else {
        title_start(i - 1) + titles()[i - 1].len() + 3
    }
}

/// The double line is below the title of the tab that is shown, all of it, and nowhere else.
pub proof fn the_shown_tab_is_underlined(active: int, k: int, p: int)
    requires
        0 <= k <= 5,
        0 <= active < 5,
        0 <= p < underline(active, k).len(),
    ensures
        underline(active, k).len() == title_start(k),
        underline(active, k)[p] == if active < k && title_start(active) <= p < title_start(active)
            + titles()[active].len() {
            '═'
        } else {
            ' '
        },
    decreases k,
{
    reveal_strlit("   ");
    lemma_underline_len(active, k);
    if k > 0 {
        let before = underline(active, k - 1);
        lemma_underline_len(active, k - 1);
        if p < before.len() {
            the_shown_tab_is_underlined(active, k - 1, p);
            if active == k - 1 {
                assert(title_start(active) == before.len());
            }
        } else {
            lemma_titles_in_order(active, k - 1);
        }
    }
}

proof fn lemma_underline_len(active: int, k: int)
    requires
        0 <= k <= 5,
    ensures
        underline(active, k).len() == title_start(k),
    decreases k,
{
    reveal_strlit("   ");
    if k > 0 {
        lemma_underline_len(active, k - 1);
    }
}

proof fn lemma_titles_in_order(i: int, j: int)
    requires
        0 <= i < 5,
        0 <= j < 5,
    ensures
        i < j ==> title_start(i) + titles()[i].len() <= title_start(j),
        i == j ==> title_start(i) == title_start(j),
    decreases j,
{
    if i < j {
        lemma_titles_in_order(i, j - 1);
    }
}

/// The strip has the title of every tab, in order, and only the one that is shown stands out.
pub proof fn every_tab_has_its_title(active: int, k: int, i: int)
    requires
        0 <= i < k <= 5,
    ensures
        strip(active, k).len() == 2 * k,
        strip(active, k)[2 * i].text == titles()[i],
        strip(active, k)[2 * i].style == if i == active {
            theme::selected_tab()
        } else {
            theme::dim()
        },
    decreases k,
{
    if i < k - 1 {
        every_tab_has_its_title(active, k - 1, i);
    } else {
        lemma_strip_len(active, k - 1);
    }
}

proof fn lemma_strip_len(active: int, k: int)
    requires
        0 <= k,
    ensures
        strip(active, k).len() == 2 * k,
    decreases k,
{
    if k > 0 {
        lemma_strip_len(active, k - 1);
    }
}

/// The footer has every hint of the tab, in order, and then the keys of the hub.
pub proof fn every_hint_is_in_the_footer(hints: Seq<(Seq<char>, Seq<char>)>, k: int, i: int)
    requires
        0 <= i < k <= hints.len(),
    ensures
        hint_spans(hints, k).len() == 2 * k,
        hint_spans(hints, k)[2 * i].text == hints[i].0 + " "@,
        hint_spans(hints, k)[2 * i + 1].text == hints[i].1 + "   "@,
        hint_row(hints).last().text == "⇥ tab   q quit"@,
    decreases k,
{
    if i < k - 1 {
        every_hint_is_in_the_footer(hints, k - 1, i);
    } else {
        lemma_hints_len(hints, k - 1);
    }
}

proof fn lemma_hints_len(hints: Seq<(Seq<char>, Seq<char>)>, k: int)
    requires
        0 <= k,
    ensures
        hint_spans(hints, k).len() == 2 * k,
    decreases k,
{
    if k > 0 {
        lemma_hints_len(hints, k - 1);
    }
}

/// A message takes the footer; without one, work that holds the screen says how to leave it;
/// otherwise the hints are shown.
pub proof fn a_message_takes_the_footer(app: App)
    ensures
        app.toast matches Some(t) ==> app.footer_row().len() == 1 && app.footer_row()[0].text == t@,
        app.toast is None && app.job is Some ==> app.footer_row().len() == 1
            && app.footer_row()[0].text == "esc dismiss · q quit"@,
        app.toast is None && app.job is None ==> app.footer_row() == hint_row(app.hints()),
{
}

/// The spinner tells what is under way, and for how many whole seconds.
pub proof fn the_spinner_counts_whole_seconds(frame: u64, label: Seq<char>, secs: int, ms: int)
    requires
        0 <= secs,
        0 <= ms < 1000,
    ensures
        spinner_row(frame, label, secs * 1000 + ms)[1].text == label + "… "@,
        spinner_row(frame, label, secs * 1000 + ms)[2].text == decimal(secs as nat) + "s"@,
{
    assert((secs * 1000 + ms) / 1000 == secs);
}

/// The hints are those of the tab that is shown.
pub proof fn the_shown_tab_gives_the_hints(app: App)
    requires
        app.active < 5,
    ensures
        app.active == 0 ==> app.hints() == app.overview.hints(),
        app.active == 1 ==> app.hints() == app.accounts.hints(),
        app.active == 2 ==> app.hints() == app.schedule.hints(),
        app.active == 3 ==> app.hints() == TabView::hints(&app.profile),
        app.active == 4 ==> app.hints() == app.tasks.hints(),
{
}

} // verus!
