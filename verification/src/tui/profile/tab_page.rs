//! What the Profile tab draws.

use vstd::prelude::*;

use crate::tui::ctx::AppCtx;
use crate::tui::line::Line;
use crate::tui::profile::apply::{self, age_line, body_lines, title_line, ApplyPage};
use crate::tui::profile::assign::{self, assign_lines, targets};
use crate::tui::profile::board::{self, board_lines, facts_head, review_total, BoardFacts};
use crate::tui::profile::by_plugin_page::{
    self, description_rows, header_rows, picker_lines, plugin_rows, ByPluginPage, ScanBar,
};
use crate::tui::profile::detail::{self, shows_detail, DetailPage};
use crate::tui::profile::on_demand_help::{self, help_lines};
use crate::tui::profile::roots::{render_roots_manager, roots_lines};
use crate::tui::profile::tab::{ProfileView, Sub, ViewMode};
use crate::tui::snapshot::Snapshot;

verus! {

/// What the tab draws.
#[derive(Debug)]
pub enum ProfilePage {
    /// Lines, and the one to keep visible.
    List { lines: Vec<Line>, cursor_line: usize },
    Text { lines: Vec<Line> },
    ByPlugin(ByPluginPage),
    Detail(DetailPage),
    Apply(ApplyPage),
}

/// What the scan bar of the tab speaks of.
pub open spec fn bar_of<'a>(v: &'a ProfileView) -> ScanBar<'a> {
    ScanBar {
        roots: &v.scan_roots,
        at: v.scanned_at,
        indexing: v.indexing,
        atoms: &v.indexing_atoms,
        rebuilding: v.rebuilding,
    }
}

/// What the board of the tab speaks of.
pub open spec fn facts_of<'a>(
    v: &'a ProfileView,
    ctx: &'a AppCtx,
    snap: &'a Snapshot,
) -> BoardFacts<'a> {
    BoardFacts {
        ai_offer: v.ai_offer,
        assistant: &ctx.assistant,
        uncovered: &v.uncovered,
        pending: v.uncovered_pending,
        enabled: &snap.global_enabled,
        scope: &snap.scope_drift,
    }
}

/// Whether `p` is a list of these lines with this line kept visible.
pub open spec fn is_list(p: ProfilePage, lines: Seq<Seq<crate::tui::line::SpanV>>, at: int) -> bool {
    p matches ProfilePage::List { lines: l, cursor_line } && l.deep_view() == lines && cursor_line
        == at
}

/// Whether `p` is the page of the tab for a panel of `width` by `height`.
pub open spec fn shows_tab(
    p: ProfilePage,
    v: ProfileView,
    ctx: AppCtx,
    snap: Snapshot,
    width: int,
    height: int,
    now_ms: i64,
) -> bool {
    match v.sub {
        Sub::Board => match v.view {
            ViewMode::ByPlugin => if let Some(e) = v.roots_editor {
                is_list(
                    p,
                    roots_lines(e@),
                    if e@.input is Some {
                        0
                    } else {
                        2 + e@.cursor
                    },
                )
            } else if let Some(k) = v.pick {
                is_list(
                    p,
                    picker_lines(k@),
                    if k@.naming is Some {
                        0
                    } else {
                        2 + k@.cursor
                    },
                )
            } else {
                p matches ProfilePage::ByPlugin(b) && {
                    &&& b.header.deep_view() == header_rows(
                        v@.inv,
                        bar_of(&v),
                        width,
                        now_ms as int,
                    )
                    &&& b.list.deep_view() == plugin_rows(
                        v@.inv.plugins,
                        v@.working,
                        v@.plugin_cursor,
                    )
                    &&& b.cursor_line == v@.plugin_cursor
                    &&& b.description.deep_view() == description_rows(
                        v@.inv.plugins,
                        v@.plugin_cursor,
                    )
                }
            },
            ViewMode::ByProfile => if v.on_demand_help {
                p matches ProfilePage::Text { lines } && lines.deep_view() == help_lines()
            } else {
                is_list(
                    p,
                    board_lines(v@.inv, v@.working, v@.cursor, facts_of(&v, &ctx, &snap)),
                    if v@.cursor <= v@.working.names().len() + 2 {
                        facts_head(v@.inv, v@.working, facts_of(&v, &ctx, &snap)).len() + v@.cursor
                    } else {
                        0
                    },
                )
            },
        },
        Sub::Assign(s) => is_list(
            p,
            assign_lines(s@, v@.working),
            if s@.naming is None && s@.cursor < targets(v@.working).len() {
                4 + s@.cursor
            } else {
                0
            },
        ),
        Sub::Detail(s) => p matches ProfilePage::Detail(d) && shows_detail(
            d,
            (*s)@,
            height,
            v.scanned_at,
            now_ms,
        ),
        Sub::Apply(s) => p matches ProfilePage::Apply(a) && {
            &&& a.title@ == title_line(s@.sel)
            &&& a.age@ == age_line(v.scanned_at, now_ms)
            &&& a.body.deep_view() == body_lines(s@, v@.working, s@.rows.len() as int)
            &&& a.cursor_line == if s@.rows.len() == 0 {
                0
            } else {
                body_lines(s@, v@.working, s@.cursor).len()
            }
        },
    }
}

impl ProfileView {
    /// Lays the tab out for a panel of `width` by `height`.
    pub fn render(
        &self,
        ctx: &AppCtx,
        snap: &Snapshot,
        width: u16,
        height: u16,
        now_ms: i64,
    ) -> (r: ProfilePage)
        requires
            self.wf(),
            review_total(
                self@.inv,
                self@.working,
                self@.uncovered,
                snap.global_enabled.deep_view(),
                snap.scope_drift.deep_view(),
            ) <= usize::MAX,
        ensures
            shows_tab(r, *self, *ctx, *snap, width as int, height as int, now_ms),
    {
        match &self.sub {
            Sub::Board => match self.view {
                ViewMode::ByPlugin => {
                    if let Some(e) = &self.roots_editor {
                        let (lines, cursor_line) = render_roots_manager(e);
                        return ProfilePage::List { lines, cursor_line };
                    }
                    if let Some(p) = &self.pick {
                        let (lines, cursor_line) = by_plugin_page::render_picker(p);
                        return ProfilePage::List { lines, cursor_line };
                    }
                    let bar = ScanBar {
                        roots: &self.scan_roots,
                        at: self.scanned_at,
                        indexing: self.indexing,
                        atoms: &self.indexing_atoms,
                        rebuilding: self.rebuilding,
                    };
                    ProfilePage::ByPlugin(
                        by_plugin_page::render(
                            &self.inv,
                            &self.working,
                            &bar,
                            self.plugin_cursor,
                            width as usize,
                            now_ms,
                        ),
                    )
                },
                ViewMode::ByProfile => {
                    if self.on_demand_help {
                        return ProfilePage::Text { lines: on_demand_help::lines() };
                    }
                    let facts = BoardFacts {
                        ai_offer: self.ai_offer,
                        assistant: &ctx.assistant,
                        uncovered: &self.uncovered,
                        pending: self.uncovered_pending,
                        enabled: &snap.global_enabled,
                        scope: &snap.scope_drift,
                    };
                    let (lines, cursor_line) = board::render(
                        &self.inv,
                        &self.working,
                        self.cursor,
                        &facts,
                    );
                    ProfilePage::List { lines, cursor_line }
                },
            },
            Sub::Assign(s) => {
                let (lines, cursor_line) = assign::render(s, &self.working);
                ProfilePage::List { lines, cursor_line }
            },
            Sub::Detail(s) => ProfilePage::Detail(
                detail::render(s, height, self.scanned_at, now_ms),
            ),
            Sub::Apply(s) => ProfilePage::Apply(
                apply::render(s, &self.working, self.scanned_at, now_ms),
            ),
        }
    }
}

} // verus!
