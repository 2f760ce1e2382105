//! What the by-plugin view and the membership picker show.

use vstd::prelude::*;

use crate::profile::config::{Profiles, ProfilesV};
use crate::profile::discover::{Inventory, InventoryV, PluginInfo, PluginV};
use crate::text::{blanks, chars_of, decimal, join, join2, join3, joined, owned, pad, padded};
use crate::text::{repeat, same, show};
use crate::tui::line::{
    blank, bare, line1, line2, line_text, no_lines, put_line, put_span, sp, span, styled, text_of,
    Line, Span, SpanV,
};
use crate::tui::profile::age::{age_text, fmt_age};
use crate::tui::profile::apply::{row_style, style_of_row};
use crate::tui::profile::assign::{name_line, name_row};
use crate::tui::profile::by_plugin::{
    members, membership, MemberV, MembershipPick, NEW_PROFILE, SCAN_STALE_SECS,
};
use crate::tui::profile::rules_page::{marker, marker_of};
use crate::tui::theme;
use crate::tui::theme::Style;
use crate::tui::widgets::{seconds_of, whole_seconds};

verus! {

/// `s` cut on the left to `max` characters, the tail kept.
pub open spec fn elided(s: Seq<char>, max: int) -> Seq<char> {
    if s.len() <= max {
        s
    } else {
        "…"@ + s.skip(s.len() - (max - 1))
    }
}

/// Cuts `s` on the left to `max` characters, so that the most specific part of a
/// path stays visible.
pub fn elide_left(s: &str, max: usize) -> (r: String)
    requires
        max > 0,
    ensures
        r@ == elided(s@, max as int),
        r@.len() <= max,
{
    let n: usize = s.unicode_len();
    proof {
        reveal_strlit("…");
    }
    if n <= max {
        owned(s)
    } else {
        let from: usize = n - (max - 1);
        let tail = s.substring_char(from, n);
        assert(tail@ =~= s@.skip(from as int));
        join2("…", tail)
    }
}

/// How the scan bar names the roots.
pub open spec fn root_summary(roots: Seq<Seq<char>>) -> Seq<char> {
    if roots.len() == 0 {
        "no scan root"@
    } else if roots.len() == 1 {
        elided(roots[0], 36)
    } else {
        decimal(roots.len()) + " roots"@
    }
}

/// Whether a scan is old enough to be doubted.
pub open spec fn is_stale(at: Option<i64>, now_secs: int) -> bool {
    at matches Some(t) && now_secs - t > SCAN_STALE_SECS
}

/// The facts of the scan bar: what was scanned, how many repos there are, and when.
pub open spec fn scan_facts(
    roots: Seq<Seq<char>>,
    scanned: nat,
    at: Option<i64>,
    now_secs: int,
) -> Seq<SpanV> {
    if scanned == 0 {
        seq![sp("scan: "@, theme::dim()), sp(root_summary(roots), theme::dim())]
    } else {
        let st = if is_stale(at, now_secs) {
            theme::alert()
        } else {
            theme::dim()
        };
        let base = seq![
            sp(root_summary(roots) + "  ·  "@, theme::dim()),
            sp(decimal(scanned) + " repos"@, st),
        ];
        match at {
            Some(t) => base.push(
                sp(
                    if is_stale(at, now_secs) {
                        "  ·  "@ + age_text(t as int, now_secs) + " · may be stale"@
                    } else {
                        "  ·  scanned "@ + age_text(t as int, now_secs)
                    },
                    st,
                ),
            ),
            None => base,
        }
    }
}

/// The separator in the scan bar.
pub open spec fn bar_sep() -> SpanV {
    sp("   ·   "@, theme::faint())
}

/// The keys of the scan bar.
pub open spec fn scan_keys(scanned: nat) -> Seq<SpanV> {
    seq![
        bar_sep(),
        sp("s"@, theme::accent()),
        sp(
            if scanned == 0 {
                " scan"@
            } else {
                " rescan"@
            },
            theme::dim(),
        ),
        bar_sep(),
        sp("r"@, theme::accent()),
        sp(" roots"@, theme::dim()),
    ]
}

/// The indexing note of the scan bar.
pub open spec fn index_note(indexing: bool, atoms: Seq<Seq<char>>) -> Seq<SpanV> {
    if !indexing {
        Seq::empty()
    } else {
        seq![
            bar_sep(),
            sp(
                if atoms.len() == 1 {
                    "indexing "@ + atoms[0] + "…"@
                } else {
                    "indexing "@ + decimal(atoms.len()) + " patterns…"@
                },
                theme::dim(),
            ),
        ]
    }
}

/// The scan bar, centred in `width` columns.
pub open spec fn centred(bar: Seq<SpanV>, width: int) -> Seq<SpanV> {
    let w = line_text(bar).len();
    let room = if w < width {
        width - w
    } else {
        0
    };
    seq![bare(blanks((room / 2) as nat))] + bar
}

fn summary_of_roots(roots: &Vec<String>) -> (r: String)
    ensures
        r@ == root_summary(roots.deep_view()),
{
    if roots.len() == 0 {
        owned("no scan root")
    } else if roots.len() == 1 {
        assert(roots.deep_view()[0] == roots[0]@);
        elide_left(roots[0].as_str(), 36)
    } else {
        join2(show(roots.len() as u64).as_str(), " roots")
    }
}

fn stale(at: Option<i64>, now_secs: i64) -> (r: bool)
    ensures
        r == is_stale(at, now_secs as int),
{
    match at {
        Some(t) => now_secs as i128 - t as i128 > SCAN_STALE_SECS as i128,
        None => false,
    }
}

fn put_facts(
    bar: &mut Line,
    roots: &Vec<String>,
    scanned: usize,
    at: Option<i64>,
    now_secs: i64,
)
    ensures
        final(bar)@ == old(bar)@ + scan_facts(
            roots.deep_view(),
            scanned as nat,
            at,
            now_secs as int,
        ),
{
    let ghost b = bar@;
    let summary = summary_of_roots(roots);
    if scanned == 0 {
        put_span(bar, styled("scan: ", theme::dim()));
        put_span(bar, span(summary, theme::dim()));
    } else {
        let old_scan = stale(at, now_secs);
        let st = if old_scan {
            theme::alert()
        } else {
            theme::dim()
        };
        put_span(bar, span(join2(summary.as_str(), "  ·  "), theme::dim()));
        put_span(bar, span(join2(show(scanned as u64).as_str(), " repos"), st));
        if let Some(t) = at {
            let rel = fmt_age(t, now_secs);
            let tail = if old_scan {
                join3("  ·  ", rel.as_str(), " · may be stale")
            } else {
                join2("  ·  scanned ", rel.as_str())
            };
            put_span(bar, span(tail, st));
        }
    }
    assert(bar@ =~= b + scan_facts(roots.deep_view(), scanned as nat, at, now_secs as int));
}

fn put_keys(bar: &mut Line, scanned: usize)
    ensures
        final(bar)@ == old(bar)@ + scan_keys(scanned as nat),
{
    let ghost b = bar@;
    put_span(bar, styled("   ·   ", theme::faint()));
    put_span(bar, styled("s", theme::accent()));
    put_span(
        bar,
        styled(
            if scanned == 0 {
                " scan"
            } else {
                " rescan"
            },
            theme::dim(),
        ),
    );
    put_span(bar, styled("   ·   ", theme::faint()));
    put_span(bar, styled("r", theme::accent()));
    put_span(bar, styled(" roots", theme::dim()));
    assert(bar@ =~= b + scan_keys(scanned as nat));
}

fn put_note(bar: &mut Line, indexing: bool, atoms: &Vec<String>)
    ensures
        final(bar)@ == old(bar)@ + index_note(indexing, atoms.deep_view()),
{
    let ghost b = bar@;
    if indexing {
        put_span(bar, styled("   ·   ", theme::faint()));
        let tail = if atoms.len() == 1 {
            assert(atoms.deep_view()[0] == atoms[0]@);
            join3("indexing ", atoms[0].as_str(), "…")
        } else {
            join3("indexing ", show(atoms.len() as u64).as_str(), " patterns…")
        };
        put_span(bar, span(tail, theme::dim()));
    }
    assert(bar@ =~= b + index_note(indexing, atoms.deep_view()));
}

fn centre(bar: Line, width: usize) -> (r: Line)
    ensures
        r@ == centred(bar@, width as int),
{
    let ghost b = bar@;
    let w: usize = text_of(&bar).as_str().unicode_len();
    let room: usize = if w < width {
        width - w
    } else {
        0
    };
    let gap = repeat(' ', room / 2);
    assert(gap@ =~= blanks((room / 2) as nat));
    let mut spans: Vec<Span> = Vec::new();
    spans.push(Span { text: gap, style: Style::plain() });
    let mut tail = bar.spans;
    spans.append(&mut tail);
    let r = Line { spans };
    assert(r@ =~= centred(b, width as int));
    r
}

/// The row of a plugin: its key and its places.
pub open spec fn plugin_row(p: PluginV, w: ProfilesV, selected: bool) -> Seq<SpanV> {
    let places = members(w, p.key);
    seq![
        sp(padded(p.key, 30) + " "@, row_style(selected, theme::accent_soft())),
        sp(
            "→ "@ + if places.len() == 0 {
                "—"@
            } else {
                joined(places, " · "@)
            },
            row_style(selected, theme::dim()),
        ),
    ]
}

/// One row per plugin.
pub open spec fn plugin_rows(plugins: Seq<PluginV>, w: ProfilesV, cursor: int) -> Seq<Seq<SpanV>> {
    Seq::new(plugins.len(), |i: int| plugin_row(plugins[i], w, i == cursor))
}

fn plugin_lines(plugins: &Vec<PluginInfo>, working: &Profiles, cursor: usize) -> (r: Vec<Line>)
    ensures
        r.deep_view() == plugin_rows(plugins.deep_view(), working@, cursor as int),
{
    let ghost all = plugin_rows(plugins.deep_view(), working@, cursor as int);
    let mut out = no_lines();
    let mut i: usize = 0;
    while i < plugins.len()
        invariant
            i <= plugins.len(),
            all == plugin_rows(plugins.deep_view(), working@, cursor as int),
            out.deep_view() =~= all.take(i as int),
        decreases plugins.len() - i,
    {
        let selected = i == cursor;
        assert(plugins.deep_view()[i as int] == plugins[i as int]@);
        let places = membership(working, plugins[i].key.as_str());
        let text = if places.len() == 0 {
            owned("—")
        } else {
            join(&places, " · ")
        };
        let l = line2(
            span(
                join2(pad(plugins[i].key.as_str(), 30).as_str(), " "),
                style_of_row(selected, theme::accent_soft()),
            ),
            span(join2("→ ", text.as_str()), style_of_row(selected, theme::dim())),
        );
        assert(l@ =~= all[i as int]);
        put_line(&mut out, l);
        i += 1;
    }
    assert(all.take(i as int) =~= all);
    out
}

/// Position of the first `@` at or after `i`.
pub open spec fn at_sign(s: Seq<char>, i: int) -> Option<int>
    decreases s.len() - i,
{
    if i < 0 || i >= s.len() {
        None
    } else if s[i] == '@' {
        Some(i)
    } else {
        at_sign(s, i + 1)
    }
}

/// The first line of the description: the name, and the marketplace behind the
/// first `@` of the key.
pub open spec fn key_row(key: Seq<char>) -> Seq<SpanV> {
    match at_sign(key, 0) {
        Some(i) => if i + 1 < key.len() {
            seq![
                sp(key.take(i), theme::text()),
                sp("  @"@ + key.skip(i + 1), theme::faint()),
            ]
        } else {
            seq![sp(key.take(i), theme::text())]
        },
        None => seq![sp(key, theme::text())],
    }
}

/// The description of the plugin under the cursor.
pub open spec fn description_rows(plugins: Seq<PluginV>, cursor: int) -> Seq<Seq<SpanV>> {
    if 0 <= cursor < plugins.len() {
        let p = plugins[cursor];
        seq![
            key_row(p.key),
            seq![
                sp(
                    match p.description {
                        Some(d) => d,
                        None => "(no description)"@,
                    },
                    theme::text(),
                ),
            ],
        ]
    } else {
        Seq::empty()
    }
}

fn key_line(key: &str) -> (r: Line)
    ensures
        r@ == key_row(key@),
{
    let cs = chars_of(key);
    let n: usize = cs.len();
    let ghost k = key@;
    let mut i: usize = 0;
    while i < n
        invariant
            i <= n,
            n == cs.len(),
            cs@ == k,
            k == key@,
            at_sign(k, 0) == at_sign(k, i as int),
        decreases n - i,
    {
        if cs[i] == '@' {
            let name = key.substring_char(0, i);
            assert(name@ =~= k.take(i as int));
            return if i + 1 < n {
                let market = key.substring_char(i + 1, n);
                assert(market@ =~= k.skip(i + 1));
                line2(styled(name, theme::text()), span(join2("  @", market), theme::faint()))
            } else {
                line1(styled(name, theme::text()))
            };
        }
        i += 1;
    }
    line1(styled(key, theme::text()))
}

fn description_lines(plugins: &Vec<PluginInfo>, cursor: usize) -> (r: Vec<Line>)
    ensures
        r.deep_view() == description_rows(plugins.deep_view(), cursor as int),
{
    let mut out = no_lines();
    if cursor < plugins.len() {
        assert(plugins.deep_view()[cursor as int] == plugins[cursor as int]@);
        put_line(&mut out, key_line(plugins[cursor].key.as_str()));
        let d = match &plugins[cursor].description {
            Some(d) => d.as_str(),
            None => "(no description)",
        };
        put_line(&mut out, line1(styled(d, theme::text())));
    }
    assert(out.deep_view() =~= description_rows(plugins.deep_view(), cursor as int));
    out
}

/// The note while the index is being rebuilt.
pub open spec fn rebuild_row(rebuilding: bool) -> Seq<SpanV> {
    if rebuilding {
        seq![sp("index outdated — rebuilding in background…"@, theme::dim())]
    } else {
        Seq::empty()
    }
}

/// The by-plugin view: three header lines, the list, and the description.
#[derive(Debug)]
pub struct ByPluginPage {
    pub header: Vec<Line>,
    pub list: Vec<Line>,
    /// The list line to keep visible.
    pub cursor_line: usize,
    pub description: Vec<Line>,
}

/// What the scan bar speaks of.
pub struct ScanBar<'a> {
    pub roots: &'a Vec<String>,
    pub at: Option<i64>,
    pub indexing: bool,
    pub atoms: &'a Vec<String>,
    pub rebuilding: bool,
}

/// The header lines.
pub open spec fn header_rows(inv: InventoryV, bar: ScanBar, width: int, now_ms: int) -> Seq<
    Seq<SpanV>,
> {
    seq![
        centred(
            scan_facts(bar.roots.deep_view(), inv.repos.len(), bar.at, whole_seconds(now_ms))
                + scan_keys(inv.repos.len()) + index_note(bar.indexing, bar.atoms.deep_view()),
            width,
        ),
        seq![sp("All plugins ("@ + decimal(inv.plugins.len()) + ")"@, theme::accent_soft())],
        rebuild_row(bar.rebuilding),
    ]
}

/// Lays the by-plugin view out for `width` columns.
pub fn render(
    inv: &Inventory,
    working: &Profiles,
    bar: &ScanBar,
    plugin_cursor: usize,
    width: usize,
    now_ms: i64,
) -> (r: ByPluginPage)
    ensures
        r.header.deep_view() == header_rows(inv@, *bar, width as int, now_ms as int),
        r.list.deep_view() == plugin_rows(inv@.plugins, working@, plugin_cursor as int),
        r.cursor_line == plugin_cursor,
        r.description.deep_view() == description_rows(inv@.plugins, plugin_cursor as int),
{
    let scanned: usize = inv.repos.len();
    let mut l = blank();
    put_facts(&mut l, bar.roots, scanned, bar.at, seconds_of(now_ms));
    put_keys(&mut l, scanned);
    put_note(&mut l, bar.indexing, bar.atoms);
    assert(l@ =~= scan_facts(
        bar.roots.deep_view(),
        inv@.repos.len(),
        bar.at,
        whole_seconds(now_ms as int),
    ) + scan_keys(inv@.repos.len()) + index_note(bar.indexing, bar.atoms.deep_view()));
    let mut header = no_lines();
    put_line(&mut header, centre(l, width));
    put_line(
        &mut header,
        line1(
            span(
                join3("All plugins (", show(inv.plugins.len() as u64).as_str(), ")"),
                theme::accent_soft(),
            ),
        ),
    );
    put_line(
        &mut header,
        if bar.rebuilding {
            line1(styled("index outdated — rebuilding in background…", theme::dim()))
        } else {
            blank()
        },
    );
    assert(header.deep_view() =~= header_rows(inv@, *bar, width as int, now_ms as int));
    ByPluginPage {
        header,
        list: plugin_lines(&inv.plugins, working, plugin_cursor),
        cursor_line: plugin_cursor,
        description: description_lines(&inv.plugins, plugin_cursor),
    }
}

/// The box in front of a picker target.
pub open spec fn target_box(target: Seq<char>, checked: bool) -> Seq<char> {
    if target == NEW_PROFILE@ {
        "   "@
    } else if checked {
        "[x]"@
    } else {
        "[ ]"@
    }
}

/// The row of a picker target.
pub open spec fn target_row(target: Seq<char>, checked: bool, selected: bool) -> Seq<SpanV> {
    seq![
        sp(
            marker(selected) + target_box(target, checked) + " "@ + target,
            row_style(selected, theme::text()),
        ),
    ]
}

/// The lines of the picker.
pub open spec fn picker_lines(v: MemberV) -> Seq<Seq<SpanV>> {
    seq![
        seq![sp("ASSIGN PLUGIN    "@, theme::accent()), sp(v.key, theme::text())],
        Seq::empty(),
    ] + match v.naming {
        Some(input) => seq![name_row(input)],
        None => Seq::new(
            v.targets.len(),
            |i: int| target_row(v.targets[i], v.checked[i], i == v.cursor),
        ),
    }
}

/// The lines of the picker and the line to keep visible.
pub fn render_picker(pick: &MembershipPick) -> (r: (Vec<Line>, usize))
    requires
        pick@.ok(),
    ensures
        r.0.deep_view() == picker_lines(pick@),
        r.1 == if pick@.naming is Some {
            0
        } else {
            2 + pick@.cursor
        },
{
    let ghost v = pick@;
    let mut out = no_lines();
    put_line(
        &mut out,
        line2(styled("ASSIGN PLUGIN    ", theme::accent()), styled(pick.key.as_str(), theme::text())),
    );
    put_line(&mut out, blank());
    match &pick.naming {
        Some(input) => {
            put_line(&mut out, name_line(input));
            assert(out.deep_view() =~= picker_lines(v));
            (out, 0)
        },
        None => {
            let ghost all = picker_lines(v);
            let mut i: usize = 0;
            while i < pick.targets.len()
                invariant
                    i <= pick.targets.len(),
                    pick.targets.len() == pick.checked.len(),
                    v == pick@,
                    v.naming is None,
                    all == picker_lines(v),
                    out.deep_view() =~= all.take(2 + i),
                decreases pick.targets.len() - i,
            {
                let selected = i == pick.cursor;
                let target = pick.targets[i].as_str();
                assert(v.targets[i as int] == target@);
                let mark = if same(target, NEW_PROFILE) {
                    "   "
                } else if pick.checked[i] {
                    "[x]"
                } else {
                    "[ ]"
                };
                let l = line1(
                    span(
                        join2(join3(marker_of(selected), mark, " ").as_str(), target),
                        style_of_row(selected, theme::text()),
                    ),
                );
                assert(l@ =~= all[2 + i]);
                put_line(&mut out, l);
                i += 1;
            }
            assert(all.take(2 + i) =~= all);
            let n: usize = out.len();
            assert(n == out.deep_view().len());
            (out, 2 + pick.cursor)
        },
    }
}

/// A text that is too long keeps its end, behind an ellipsis, and fits.
pub proof fn long_text_keeps_its_end(s: Seq<char>, max: int)
    requires
        0 < max,
    ensures
        s.len() <= max ==> elided(s, max) == s,
        s.len() > max ==> {
            &&& elided(s, max).len() == max
            &&& elided(s, max)[0] == '…'
            &&& forall|i: int|
                1 <= i < max ==> #[trigger] elided(s, max)[i] == s[s.len() - max + i]
        },
{
    reveal_strlit("…");
}

/// The name of a plugin is what stands before the first `@` of its key, and the marketplace
/// what stands behind it.
pub proof fn a_key_is_cut_at_its_first_at_sign(name: Seq<char>, place: Seq<char>)
    requires
        forall|i: int| 0 <= i < name.len() ==> #[trigger] name[i] != '@',
    ensures
        key_row(name).len() == 1,
        key_row(name)[0].text == name,
        key_row(name.push('@') + place)[0].text == name,
        place.len() > 0 ==> key_row(name.push('@') + place).len() == 2 && key_row(
            name.push('@') + place,
        )[1].text == "  @"@ + place,
        place.len() == 0 ==> key_row(name.push('@') + place).len() == 1,
{
    let key = name.push('@') + place;
    let n = name.len() as int;
    assert forall|i: int| 0 <= i < n implies #[trigger] key[i] != '@' by {
        assert(key[i] == name[i]);
    }
    assert(key[n] == '@');
    lemma_at_sign(name, n, 0);
    lemma_at_sign(key, n, 0);
    assert(key.take(n) =~= name);
    assert(key.skip(n + 1) =~= place);
}

proof fn lemma_at_sign(s: Seq<char>, n: int, i: int)
    requires
        0 <= i <= n <= s.len(),
        forall|j: int| i <= j < n ==> #[trigger] s[j] != '@',
        n < s.len() ==> s[n] == '@',
    ensures
        at_sign(s, i) == if n < s.len() {
            Some(n)
        } else {
            None
        },
    decreases n - i,
{
    if i < n {
        assert(s[i] != '@');
        lemma_at_sign(s, n, i + 1);
    }
}

/// Every plugin has its row, in order: its key, and all its places, or a dash without one.
pub proof fn every_plugin_has_a_row(plugins: Seq<PluginV>, w: ProfilesV, cursor: int, i: int)
    requires
        0 <= i < plugins.len(),
    ensures
        plugin_rows(plugins, w, cursor).len() == plugins.len(),
        plugin_rows(plugins, w, cursor)[i][0].text == padded(plugins[i].key, 30) + " "@,
        plugin_rows(plugins, w, cursor)[i][1].text == "→ "@ + if members(
            w,
            plugins[i].key,
        ).len() == 0 {
            "—"@
        } else {
            joined(members(w, plugins[i].key), " · "@)
        },
{
}

/// A scan is doubted once it is more than a week old.
pub proof fn a_scan_is_doubted_after_a_week(t: i64, now_secs: int)
    ensures
        is_stale(Some(t), now_secs) <==> now_secs - t > 7 * 24 * 60 * 60,
        !is_stale(None, now_secs),
{
}

/// The bar has as much room before it as behind it, to a column, where it fits.
pub proof fn the_bar_is_in_the_middle(bar: Seq<SpanV>, width: int)
    requires
        0 <= width,
    ensures
        ({
            let w = line_text(bar).len();
            let before = centred(bar, width)[0].text.len();
            &&& centred(bar, width).skip(1) == bar
            &&& w <= width ==> 0 <= (width - w - before) - before <= 1
            &&& w >= width ==> before == 0
        }),
{
    assert(centred(bar, width).skip(1) =~= bar);
}

/// The description is that of the plugin under the cursor.
pub proof fn the_plugin_under_the_cursor_is_described(plugins: Seq<PluginV>, cursor: int)
    requires
        0 <= cursor < plugins.len(),
    ensures
        description_rows(plugins, cursor)[0] == key_row(plugins[cursor].key),
        description_rows(plugins, cursor)[1][0].text == match plugins[cursor].description {
            Some(d) => d,
            None => "(no description)"@,
        },
{
}

/// The picker shows every target with its box: checked just where it is, and none before the
/// entry for a new profile.
pub proof fn every_target_has_its_box(v: MemberV, i: int)
    requires
        v.naming is None,
        0 <= i < v.targets.len(),
    ensures
        picker_lines(v).len() == v.targets.len() + 2,
        picker_lines(v)[0][1].text == v.key,
        picker_lines(v)[i + 2][0].text == (if i == v.cursor {
            "▸ "@
        } else {
            "  "@
        }) + (if v.targets[i] == NEW_PROFILE@ {
            "   "@
        } else if v.checked[i] {
            "[x]"@
        } else {
            "[ ]"@
        }) + " "@ + v.targets[i],
{
}

} // verus!
