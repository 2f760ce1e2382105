//! The hub: tabs, their state, and what each key does.

pub mod accounts;
pub mod app;
pub mod app_page;
pub mod ctx;
pub mod job;
pub mod key;
pub mod layout;
pub mod line;
pub mod multiselect;
pub mod overview;
pub mod profile;
pub mod schedule;
pub mod snapshot;
pub mod tasks;
pub mod textinput;
pub mod theme;
pub mod view;
pub mod widgets;
pub mod work;

use vstd::prelude::*;

verus! {

/// The Overview tab.
pub const TAB_OVERVIEW: usize = 0;

/// The Accounts tab.
pub const TAB_ACCOUNTS: usize = 1;

/// The Schedule tab.
pub const TAB_SCHEDULE: usize = 2;

/// The Profile tab.
pub const TAB_PROFILE: usize = 3;

/// The Tasks tab.
pub const TAB_TASKS: usize = 4;

/// How many tabs there are.
pub const TAB_COUNT: usize = 5;

/// The height of the panel, frame and all.
pub const PANEL_ROWS: u16 = 26;

/// Whether to open the hub: only on a terminal.
pub fn should_launch_tui(is_tty: bool) -> (r: bool)
    ensures
        r == is_tty,
{
    is_tty
}

/// The height of the panel in a terminal of `rows` rows: at least one, and never more
/// than the terminal has.
pub fn panel_height(rows: u16) -> (r: u16)
    ensures
        r == (if rows == 0 {
            1
        } else if rows < PANEL_ROWS {
            rows
        } else {
            PANEL_ROWS
        }),
{
    if rows == 0 {
        1
    } else if rows < PANEL_ROWS {
        rows
    } else {
        PANEL_ROWS
    }
}

} // verus!
