//! Where on the screen things go.

use vstd::prelude::*;

use crate::tui::app_page::{content_width, MAX_WIDTH};
use crate::tui::widgets::{at_most, centered_bands, list_height};

verus! {

/// A rectangle of cells.
#[derive(Clone, Copy, Debug, PartialEq, Eq, Structural)]
pub struct Rect {
    pub x: u16,
    pub y: u16,
    pub width: u16,
    pub height: u16,
}

impl Rect {
    /// Whether `other` lies in this rectangle.
    pub open spec fn holds(self, other: Rect) -> bool {
        &&& self.x <= other.x
        &&& other.x + other.width <= self.x + self.width
        &&& self.y <= other.y
        &&& other.y + other.height <= self.y + self.height
    }
}

/// How much of the whole a part gets.
#[derive(Clone, Copy, Debug, PartialEq, Eq, Structural)]
pub enum Size {
    /// So many cells.
    Length(u16),
    /// So many cells, and what the others leave.
    Min(u16),
    /// So much of the whole.
    Percentage(u16),
}

/// Three percentages that come to no more than the whole.
pub open spec fn is_bands(sizes: Seq<Size>, before: u16, middle: u16, after: u16) -> bool {
    &&& sizes == seq![Size::Percentage(before), Size::Percentage(middle), Size::Percentage(after)]
    &&& before + middle + after <= 100
}

/// Where the first `percent` of `extent` cells that begin at `start` end, to the nearest
/// cell, and half a cell as a whole one. Cells past the last that has a number do not
/// count.
pub open spec fn share_end(start: u16, extent: u16, percent: int) -> int {
    let counted = if start + extent <= u16::MAX {
        extent as int
    } else {
        u16::MAX - start
    };
    start + (counted * percent + 50) / 100
}

/// Whether the cells from `at`, `size` of them, are those between two percentages of the
/// `extent` cells that begin at `start`.
pub open spec fn is_share(
    at: u16,
    size: u16,
    start: u16,
    extent: u16,
    from: int,
    to: int,
) -> bool {
    &&& at == share_end(start, extent, from)
    &&& at + size == share_end(start, extent, to)
}

/// Whether the size at `at` is a minimum and every other one a length.
pub open spec fn is_stack(sizes: Seq<Size>, at: int) -> bool {
    &&& 0 <= at < sizes.len()
    &&& sizes[at] is Min
    &&& forall|i: int| 0 <= i < sizes.len() && i != at ==> #[trigger] sizes[i] is Length
}

/// The cells that the lengths among `sizes` ask for.
pub open spec fn fixed_cells(sizes: Seq<Size>) -> int
    decreases sizes.len(),
{
    if sizes.len() == 0 {
        0
    } else {
        fixed_cells(sizes.drop_last()) + match sizes.last() {
            Size::Length(n) => n as int,
            _ => 0,
        }
    }
}

/// Whether `sizes` are lengths and, at `at`, one minimum, and `rows` are enough for all
/// of them.
pub open spec fn fits(sizes: Seq<Size>, at: int, rows: int) -> bool {
    &&& is_stack(sizes, at)
    &&& sizes[at] matches Size::Min(least) ==> fixed_cells(sizes) + least <= rows
}

/// How many of `rows` the part at `i` gets where all fit: a length what it asks for, the
/// minimum what the lengths leave.
pub open spec fn part_rows(sizes: Seq<Size>, rows: int, i: int) -> int {
    match sizes[i] {
        Size::Length(n) => n as int,
        _ => rows - fixed_cells(sizes),
    }
}

/// How many of `rows` the first `i` parts get where all fit.
pub open spec fn rows_above(sizes: Seq<Size>, rows: int, i: int) -> int
    decreases i,
{
    if i <= 0 {
        0
    } else {
        rows_above(sizes, rows, i - 1) + part_rows(sizes, rows, i - 1)
    }
}

/// Calls ratatui's `Layout::vertical` and `Layout::split`. There is one part for each
/// size; the parts have the columns of the area, and none leaves its rows.
///
/// Three percentages that come to no more than the whole can all be met, and are: the
/// parts follow one another from the top, each cut at its percentage of the rows, to the
/// nearest row. So can lengths and one minimum that fit the area: the parts follow one
/// another from the top, a length gets the rows it asks for, and the minimum the rest.
/// How the rows are shared out for other sizes is left open: where the sizes do not add
/// up, the solver is free.
#[verifier::external_body]
fn split_rows(sizes: &Vec<Size>, area: Rect) -> (r: Vec<Rect>)
    ensures
        r.len() == sizes.len(),
        forall|i: int|
            0 <= i < r.len() ==> area.holds(#[trigger] r[i]) && r[i].x == area.x && r[i].width
                == area.width,
        forall|a: u16, b: u16, c: u16| #[trigger]
            is_bands(sizes@, a, b, c) ==> {
                &&& is_share(r[0].y, r[0].height, area.y, area.height, 0, a as int)
                &&& is_share(r[1].y, r[1].height, area.y, area.height, a as int, a + b)
                &&& is_share(r[2].y, r[2].height, area.y, area.height, a + b, a + b + c)
            },
        forall|at: int, i: int|
            #![trigger is_stack(sizes@, at), r[i]]
            fits(sizes@, at, area.height as int) && area.y + area.height <= u16::MAX && 0 <= i
                < r.len() ==> {
                &&& r[i].y == area.y + rows_above(sizes@, area.height as int, i)
                &&& r[i].height == part_rows(sizes@, area.height as int, i)
            },
{
    let asked = sizes.iter().map(
        |s| match s {
            Size::Length(n) => ratatui::layout::Constraint::Length(*n),
            Size::Min(n) => ratatui::layout::Constraint::Min(*n),
            Size::Percentage(n) => ratatui::layout::Constraint::Percentage(*n),
        },
    );
    let Rect { x, y, width, height } = area;
    let whole = ratatui::layout::Rect { x, y, width, height };
    let parts = ratatui::layout::Layout::vertical(asked).split(whole);
    parts.iter().map(|p| Rect { x: p.x, y: p.y, width: p.width, height: p.height }).collect()
}

/// Calls ratatui's `Layout::horizontal` and `Layout::split`. There is one part for each
/// size; the parts have the rows of the area, and none leaves its columns. Three
/// percentages that come to no more than the whole cut the columns as they cut the rows
/// in [`split_rows`]; how the columns are shared out for other sizes is left open.
#[verifier::external_body]
fn split_columns(sizes: &Vec<Size>, area: Rect) -> (r: Vec<Rect>)
    ensures
        r.len() == sizes.len(),
        forall|i: int|
            0 <= i < r.len() ==> area.holds(#[trigger] r[i]) && r[i].y == area.y && r[i].height
                == area.height,
        forall|a: u16, b: u16, c: u16| #[trigger]
            is_bands(sizes@, a, b, c) ==> {
                &&& is_share(r[0].x, r[0].width, area.x, area.width, 0, a as int)
                &&& is_share(r[1].x, r[1].width, area.x, area.width, a as int, a + b)
                &&& is_share(r[2].x, r[2].width, area.x, area.width, a + b, a + b + c)
            },
{
    let asked = sizes.iter().map(
        |s| match s {
            Size::Length(n) => ratatui::layout::Constraint::Length(*n),
            Size::Min(n) => ratatui::layout::Constraint::Min(*n),
            Size::Percentage(n) => ratatui::layout::Constraint::Percentage(*n),
        },
    );
    let Rect { x, y, width, height } = area;
    let whole = ratatui::layout::Rect { x, y, width, height };
    let parts = ratatui::layout::Layout::horizontal(asked).split(whole);
    parts.iter().map(|p| Rect { x: p.x, y: p.y, width: p.width, height: p.height }).collect()
}

/// Where all fit, the parts below one another fill the rows, neither more nor fewer.
pub proof fn parts_fill_the_rows(sizes: Seq<Size>, at: int, rows: int)
    requires
        fits(sizes, at, rows),
    ensures
        rows_above(sizes, rows, 0) == 0,
        forall|i: int|
            0 <= i < sizes.len() ==> part_rows(sizes, rows, i) >= 0 && #[trigger] rows_above(
                sizes,
                rows,
                i + 1,
            ) == rows_above(sizes, rows, i) + part_rows(sizes, rows, i),
        rows_above(sizes, rows, sizes.len() as int) == rows,
{
    lemma_rows_above(sizes, at, rows, sizes.len() as int);
    assert(sizes.take(sizes.len() as int) =~= sizes);
}

/// The first `n` parts have the rows of their lengths, and those that are left over once
/// the minimum is among them.
proof fn lemma_rows_above(sizes: Seq<Size>, at: int, rows: int, n: int)
    requires
        is_stack(sizes, at),
        0 <= n <= sizes.len(),
    ensures
        rows_above(sizes, rows, n) == fixed_cells(sizes.take(n)) + if at < n {
            rows - fixed_cells(sizes)
        } else {
            0
        },
    decreases n,
{
    if n > 0 {
        lemma_rows_above(sizes, at, rows, n - 1);
        assert(sizes.take(n).drop_last() =~= sizes.take(n - 1));
        assert(sizes.take(n).last() == sizes[n - 1]);
    }
}

/// Parts of `area` below one another, one for each size.
pub fn stacked(sizes: &Vec<Size>, area: Rect) -> (r: Vec<Rect>)
    ensures
        r.len() == sizes.len(),
        forall|i: int|
            0 <= i < r.len() ==> area.holds(#[trigger] r[i]) && r[i].x == area.x && r[i].width
                == area.width,
        forall|a: u16, b: u16, c: u16| #[trigger]
            is_bands(sizes@, a, b, c) ==> {
                &&& is_share(r[0].y, r[0].height, area.y, area.height, 0, a as int)
                &&& is_share(r[1].y, r[1].height, area.y, area.height, a as int, a + b)
                &&& is_share(r[2].y, r[2].height, area.y, area.height, a + b, a + b + c)
            },
        forall|at: int, i: int|
            #![trigger is_stack(sizes@, at), r[i]]
            fits(sizes@, at, area.height as int) && area.y + area.height <= u16::MAX && 0 <= i
                < r.len() ==> {
                &&& r[i].y == area.y + rows_above(sizes@, area.height as int, i)
                &&& r[i].height == part_rows(sizes@, area.height as int, i)
            },
{
    split_rows(sizes, area)
}

/// A part of `area`, so many percent of it wide and high, in its middle: half of the
/// percentage that is left over lies before it, both ways.
pub fn centered_rect(percent_x: u16, percent_y: u16, area: Rect) -> (r: Rect)
    requires
        percent_x <= 100,
        percent_y <= 100,
    ensures
        area.holds(r),
        ({
            let before = (100 - percent_x) / 2;
            is_share(r.x, r.width, area.x, area.width, before, before + percent_x)
        }),
        ({
            let before = (100 - percent_y) / 2;
            is_share(r.y, r.height, area.y, area.height, before, before + percent_y)
        }),
{
    let across = centered_sizes(percent_x);
    let down = centered_sizes(percent_y);
    let rows = split_rows(&down, area);
    let columns = split_columns(&across, rows[1]);
    proof {
        let x = ((100 - percent_x) / 2) as u16;
        let y = ((100 - percent_y) / 2) as u16;
        assert(is_bands(across@, x, percent_x, x));
        assert(is_bands(down@, y, percent_y, y));
        assert(area.holds(rows[1]));
    }
    columns[1]
}

/// The sizes of the three bands that put `percent` in the middle.
pub fn centered_sizes(percent: u16) -> (r: Vec<Size>)
    requires
        percent <= 100,
    ensures
        r@ == seq![
            Size::Percentage(((100 - percent) / 2) as u16),
            Size::Percentage(percent),
            Size::Percentage(((100 - percent) / 2) as u16),
        ],
{
    let (before, middle, after) = centered_bands(percent);
    vec![Size::Percentage(before), Size::Percentage(middle), Size::Percentage(after)]
}

/// The column that the hub is drawn in: at the left, and capped in width.
pub fn content_area(full: Rect) -> (r: Rect)
    ensures
        r == (Rect {
            width: if full.width < MAX_WIDTH {
                full.width
            } else {
                MAX_WIDTH
            },
            ..full
        }),
        full.holds(r),
{
    Rect { x: full.x, y: full.y, width: content_width(full.width), height: full.height }
}

/// The hub: header and rule, tab strip and rule, a gap, the tab, the footer.
pub fn hub_sizes() -> (r: Vec<Size>)
    ensures
        r@ == seq![
            Size::Length(2),
            Size::Length(2),
            Size::Length(1),
            Size::Min(0),
            Size::Length(1),
        ],
{
    vec![Size::Length(2), Size::Length(2), Size::Length(1), Size::Min(0), Size::Length(1)]
}

/// How many rows a list of `n` rows gets where `reserved` rows are kept for the rest.
pub open spec fn list_rows(n: int, height: int, reserved: int) -> int {
    at_most(
        if n == 0 {
            1
        } else {
            n
        },
        if height > reserved + 1 {
            height - reserved
        } else {
            1
        },
    )
}

/// The Accounts tab: column heads, a gap, the list, a rule, the detail pane.
pub fn accounts_sizes(n: usize, height: u16) -> (r: Vec<Size>)
    ensures
        r@ == seq![
            Size::Length(1),
            Size::Length(1),
            Size::Length(list_rows(n as int, height as int, 10) as u16),
            Size::Length(1),
            Size::Min(0),
        ],
{
    vec![
        Size::Length(1),
        Size::Length(1),
        Size::Length(list_height(n, height, 10)),
        Size::Length(1),
        Size::Min(0),
    ]
}

/// The Schedule tab: help, a gap, column heads, the list, a rule, the hours.
pub fn schedule_sizes(n: usize, height: u16) -> (r: Vec<Size>)
    ensures
        r@ == seq![
            Size::Length(1),
            Size::Length(1),
            Size::Length(1),
            Size::Length(list_rows(n as int, height as int, 9) as u16),
            Size::Length(1),
            Size::Min(0),
        ],
{
    vec![
        Size::Length(1),
        Size::Length(1),
        Size::Length(1),
        Size::Length(list_height(n, height, 9)),
        Size::Length(1),
        Size::Min(0),
    ]
}

/// The Tasks tab: column heads, the list, the prompt.
pub fn tasks_sizes(n: usize, height: u16) -> (r: Vec<Size>)
    ensures
        r@ == seq![
            Size::Length(1),
            Size::Length(
                at_most(
                    n as int,
                    if height > 2 {
                        height - 2
                    } else {
                        0
                    },
                ) as u16,
            ),
            Size::Min(0),
        ],
{
    let room: u16 = if height > 2 {
        height - 2
    } else {
        0
    };
    let rows: u16 = if n < room as usize {
        n as u16
    } else {
        room
    };
    vec![Size::Length(1), Size::Length(rows), Size::Min(0)]
}

/// The by-plugin board: head, list, description.
pub fn by_plugin_sizes() -> (r: Vec<Size>)
    ensures
        r@ == seq![Size::Length(3), Size::Min(1), Size::Length(3)],
{
    vec![Size::Length(3), Size::Min(1), Size::Length(3)]
}

/// The apply sub-view: title, age of the preview, list.
pub fn apply_sizes() -> (r: Vec<Size>)
    ensures
        r@ == seq![Size::Length(1), Size::Length(1), Size::Min(0)],
{
    vec![Size::Length(1), Size::Length(1), Size::Min(0)]
}

/// The detail view of a profile: head and body.
pub fn detail_sizes() -> (r: Vec<Size>)
    ensures
        r@ == seq![Size::Length(3), Size::Min(0)],
{
    vec![Size::Length(3), Size::Min(0)]
}

/// The rules of a profile: a list of `height` rows, then the preview.
pub fn rules_sizes(height: u16) -> (r: Vec<Size>)
    ensures
        r@ == seq![Size::Length(height), Size::Min(0)],
{
    vec![Size::Length(height), Size::Min(0)]
}

/// The explanation of a match: the repos, then a report of `height` rows.
pub fn explain_sizes(height: u16) -> (r: Vec<Size>)
    ensures
        r@ == seq![Size::Min(1), Size::Length(height)],
{
    vec![Size::Min(1), Size::Length(height)]
}

/// A list gets a row for each of its items where there is room, and the room that is left
/// otherwise; it never gets none.
pub proof fn a_list_gets_its_rows(n: int, height: int, reserved: int)
    requires
        0 <= n,
        0 <= height,
        0 <= reserved,
    ensures
        list_rows(n, height, reserved) >= 1,
        1 <= n <= height - reserved ==> list_rows(n, height, reserved) == n,
        n > height - reserved >= 1 ==> list_rows(n, height, reserved) == height - reserved,
{
}

} // verus!
