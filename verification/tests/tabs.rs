use cc_loadout::namemap::NameMap;
use cc_loadout::tui::accounts::{fit, AccountsView, RowGauge};
use cc_loadout::tui::ctx::AppCtx;
use cc_loadout::tui::key::{KeyCode, KeyEvent};
use cc_loadout::tui::layout::{
    accounts_sizes, apply_sizes, by_plugin_sizes, centered_rect, detail_sizes, explain_sizes,
    hub_sizes, rules_sizes, schedule_sizes, stacked, tasks_sizes, Rect, Size,
};
use cc_loadout::tui::line::{text_of, Line};
use cc_loadout::tui::multiselect::MultiSelect;
use cc_loadout::tui::overview::{Overview, OverviewGauges};
use cc_loadout::tui::schedule::{hours_of, times_of, ScheduleView};
use cc_loadout::tui::snapshot::{AcctRow, FireTime, Kind, PrimeRow, Snapshot, TaskRow};
use cc_loadout::tui::tasks::TasksView;
use cc_loadout::tui::textinput::TextInput;
use cc_loadout::tui::theme;
use cc_loadout::tui::view::{Action, TabView};
use cc_loadout::tui::widgets::{
    centered_bands, duration_label, latest, list_height, scroll_target, token_label, until_label,
    window_remaining_ms, WINDOW_MS,
};
use cc_loadout::tui::{panel_height, should_launch_tui};

fn k(c: KeyCode) -> KeyEvent {
    KeyEvent::from(c)
}

fn texts(lines: &Vec<Line>) -> String {
    lines.iter().map(text_of).collect::<Vec<String>>().join("\n")
}

fn names(v: &[&str]) -> Vec<String> {
    v.iter().map(|s| s.to_string()).collect()
}

#[derive(Debug)]
enum Tool {
    Claude,
}

fn assistant() -> String {
    format!("{:?}", Tool::Claude)
}

fn ctx() -> AppCtx {
    AppCtx {
        home: "/home/me".to_string(),
        data_root: "/data".to_string(),
        cfg_path: "/home/me/none.json".to_string(),
        registry_path: "/home/me/nope-registry.json".to_string(),
        cwd: "/home/me".to_string(),
        assistant: assistant(),
        program: assistant().to_lowercase(),
    }
}

fn bare_snap() -> Snapshot {
    Snapshot {
        accounts: vec![],
        cwd: "/tmp/x".to_string(),
        cwd_name: Some("x".to_string()),
        profiles_json_exists: false,
        matched: vec![],
        applied_count: 0,
        priming: vec![],
        schedule: NameMap::new(),
        global_enabled: vec![],
        tasks: vec![],
        schedule_drift: false,
        scope_drift: vec![],
    }
}

fn account_snap(n: usize) -> Snapshot {
    let mut s = bare_snap();
    s.accounts = (0..n)
        .map(|i| AcctRow {
            alias: format!("acct{i}"),
            email: format!("a{i}@x"),
            org: Some("acme".to_string()),
            is_active: i == 0,
            expires_at_ms: Some(2_000_000_000_000),
            has_refresh: true,
            window_start_epoch: None,
        })
        .collect();
    s
}

#[test]
fn fit_pads_short_and_elides_long_to_exact_width() {
    assert_eq!(fit("abc", 6), "abc   ");
    assert_eq!(fit("abcdef", 6), "abcdef");
    assert_eq!(fit("abcdefgh", 6), "abcde\u{2026}");
    for s in ["", "x", "short", "way-too-long-organization-name"] {
        assert_eq!(fit(s, 6).chars().count(), 6, "fit must be exactly 6 cols: {s}");
    }
}

#[test]
fn down_up_wrap_the_cursor() {
    let mut v = AccountsView::new();
    let (s, c) = (account_snap(3), ctx());
    assert_eq!(v.selected_alias(&s), Some("acct0"));
    v.on_key(k(KeyCode::Down), &c, &s);
    assert_eq!(v.selected_alias(&s), Some("acct1"));
    v.on_key(k(KeyCode::Up), &c, &s);
    v.on_key(k(KeyCode::Up), &c, &s);
    assert_eq!(v.selected_alias(&s), Some("acct2"), "Up wraps to last");
}

#[test]
fn enter_emits_switch_for_selected() {
    let mut v = AccountsView::new();
    let (s, c) = (account_snap(2), ctx());
    v.on_key(k(KeyCode::Down), &c, &s);
    assert!(matches!(
        v.on_key(k(KeyCode::Enter), &c, &s),
        Some(Action::Switch(a)) if a == "acct1"
    ));
    assert!(matches!(
        v.on_key(k(KeyCode::Char('p')), &c, &s),
        Some(Action::Prime(a)) if a == "acct1"
    ));
}

#[test]
fn d_then_y_confirms_remove() {
    let mut v = AccountsView::new();
    let (s, c) = (account_snap(2), ctx());
    v.on_key(k(KeyCode::Down), &c, &s);
    assert!(v.on_key(k(KeyCode::Char('d')), &c, &s).is_none(), "d opens modal");
    assert!(matches!(
        v.on_key(k(KeyCode::Char('y')), &c, &s),
        Some(Action::RemoveAccount(a)) if a == "acct1"
    ));
}

#[test]
fn d_then_n_cancels() {
    let mut v = AccountsView::new();
    let (s, c) = (account_snap(2), ctx());
    v.on_key(k(KeyCode::Char('d')), &c, &s);
    assert!(v.on_key(k(KeyCode::Char('n')), &c, &s).is_none(), "n cancels");
    assert!(matches!(
        v.on_key(k(KeyCode::Enter), &c, &s),
        Some(Action::Switch(a)) if a == "acct0"
    ));
}

#[test]
fn renders_rows_with_active_marker() {
    let v = AccountsView::new();
    let s = account_snap(2);
    let gauges = vec![RowGauge { list: 0, detail: 0 }, RowGauge { list: 0, detail: 0 }];
    let page = v.render(&s, 1_000_000_000_000, &gauges);
    let text = format!("{}\n{}", texts(&page.rows), texts(&page.detail));
    assert!(text.contains("acct0"), "first account alias shown");
    assert!(text.contains("acct1"), "second account alias shown");
    assert!(text.contains('●'), "active marker shown");
    assert!(text.contains("a0@x"), "focused account email shown in detail");
    assert_eq!(page.selected, Some(0));
    assert!(page.prompt.is_none());
}

#[test]
fn removal_prompt_keeps_esc_from_quitting() {
    let mut v = AccountsView::new();
    let (s, c) = (account_snap(1), ctx());
    assert!(!v.claims_key(KeyCode::Esc));
    v.on_key(k(KeyCode::Char('d')), &c, &s);
    assert!(v.claims_key(KeyCode::Esc));
    assert!(!v.claims_key(KeyCode::Char('q')));
    v.on_key(k(KeyCode::Esc), &c, &s);
    assert!(!v.claims_key(KeyCode::Esc));
}

#[test]
fn preselects_and_toggles() {
    let mut ms = MultiSelect::new(names(&["a", "b", "c"]), &names(&["b"]));
    assert_eq!(ms.selected(), names(&["b"]));
    ms.on_key(k(KeyCode::Char(' ')));
    assert_eq!(ms.selected(), names(&["a", "b"]));
    ms.on_key(k(KeyCode::Down));
    ms.on_key(k(KeyCode::Char(' ')));
    assert_eq!(ms.selected(), names(&["a"]));
}

#[test]
fn nav_wraps_and_empty_is_safe() {
    let mut ms = MultiSelect::new(names(&["x"]), &vec![]);
    ms.on_key(k(KeyCode::Up));
    ms.on_key(k(KeyCode::Char(' ')));
    assert_eq!(ms.selected(), names(&["x"]));

    let mut empty = MultiSelect::new(vec![], &vec![]);
    empty.on_key(k(KeyCode::Char(' ')));
    assert!(empty.selected().is_empty());
    assert_eq!(empty.selected_row(), None);
}

#[test]
fn annotated_items_render_now_global_suffix() {
    let ms = MultiSelect::new(names(&["a@m", "b@m"]), &vec![]).annotated(&names(&["a@m"]));
    let text = texts(&ms.lines("pick"));
    assert!(text.contains("a@m"));
    assert!(text.contains("now global"), "annotated item shows suffix: {text}");
    assert_eq!(text, "pick\n\n[ ] a@m  (now global)\n[ ] b@m");
}

#[test]
fn overview_footer_advertises_only_working_keys() {
    let v = Overview::new();
    for (key, _label) in v.footer_hints() {
        assert!(key != "↑↓" && key != "⏎", "must not advertise unhandled nav keys, found {key}");
    }
}

const NOW_MS: i64 = 1_700_000_000_000;

fn snap_with_active() -> Snapshot {
    let mut s = bare_snap();
    s.accounts = vec![AcctRow {
        alias: "work".to_string(),
        email: "w@x".to_string(),
        org: Some("acme".to_string()),
        is_active: true,
        expires_at_ms: Some(NOW_MS + 3 * 3_600_000 + 60_000),
        has_refresh: true,
        window_start_epoch: Some(NOW_MS / 1000 - 3600),
    }];
    s.cwd = "/tmp/cc-loadout".to_string();
    s.cwd_name = Some("cc-loadout".to_string());
    s.priming = vec![PrimeRow {
        alias: "work".to_string(),
        next_fire: None,
        last_primed: None,
    }];
    s
}

#[test]
fn overview_renders_active_account_and_window() {
    let ov = Overview::new();
    let text = texts(&ov.lines(
        &snap_with_active(),
        NOW_MS,
        OverviewGauges { token: 8, window: 6 },
    ));
    assert!(text.contains("● work"), "active marker + alias: {text}");
    assert!(text.contains("acme"), "org shown");
    assert!(text.contains("ok 3h"), "token countdown shown: {text}");
    assert!(text.contains("cc-loadout"), "cwd basename shown");
    assert!(text.contains("no schedule"), "next prime placeholder");
    assert!(text.contains('█'), "fine bar filled chars present");
}

fn schedule_snap() -> Snapshot {
    let mut s = bare_snap();
    s.accounts = ["work", "personal"]
        .iter()
        .map(|a| AcctRow {
            alias: a.to_string(),
            email: format!("{a}@x"),
            org: Some("o".to_string()),
            is_active: *a == "work",
            expires_at_ms: None,
            has_refresh: false,
            window_start_epoch: None,
        })
        .collect();
    s
}

#[test]
fn enter_grid_then_toggle_sets_time() {
    let mut v = ScheduleView::new();
    let (s, c) = (schedule_snap(), ctx());
    v.on_key(k(KeyCode::Enter), &c, &s);
    assert!(v.claims_key(KeyCode::Char('x')), "grid mode captures input");
    v.on_key(k(KeyCode::Char(' ')), &c, &s);
    let sched = v.working_schedule(&s);
    assert_eq!(sched.get("work").unwrap(), &names(&["09:00"]));
}

#[test]
fn arrows_move_cursor_then_toggle() {
    let mut v = ScheduleView::new();
    let (s, c) = (schedule_snap(), ctx());
    v.on_key(k(KeyCode::Enter), &c, &s);
    v.on_key(k(KeyCode::Left), &c, &s);
    v.on_key(k(KeyCode::Char(' ')), &c, &s);
    assert_eq!(v.working_schedule(&s).get("work").unwrap(), &names(&["08:00"]));
}

#[test]
fn space_clears_in_list_mode() {
    let mut v = ScheduleView::new();
    let (s, c) = (schedule_snap(), ctx());
    v.on_key(k(KeyCode::Enter), &c, &s);
    v.on_key(k(KeyCode::Char(' ')), &c, &s);
    v.on_key(k(KeyCode::Esc), &c, &s);
    assert!(v.working_schedule(&s).contains_key("work"));
    v.on_key(k(KeyCode::Char(' ')), &c, &s);
    assert!(!v.working_schedule(&s).contains_key("work"));
}

#[test]
fn esc_exits_grid_keeping_edits() {
    let mut v = ScheduleView::new();
    let (s, c) = (schedule_snap(), ctx());
    v.on_key(k(KeyCode::Enter), &c, &s);
    v.on_key(k(KeyCode::Char(' ')), &c, &s);
    v.on_key(k(KeyCode::Esc), &c, &s);
    assert!(!v.claims_key(KeyCode::Char('x')), "esc returns to list mode");
    assert!(
        v.working_schedule(&s).contains_key("work"),
        "toggled edit persists after esc"
    );
}

#[test]
fn toggling_all_hours_off_unschedules_and_stays_off() {
    let mut v = ScheduleView::new();
    let mut s = schedule_snap();
    s.schedule.insert("work".to_string(), names(&["06:00"]));
    let c = ctx();
    v.on_key(k(KeyCode::Enter), &c, &s);
    v.on_key(k(KeyCode::Char(' ')), &c, &s);
    assert!(
        !v.working_schedule(&s).contains_key("work"),
        "work is unscheduled after clearing its only hour"
    );
    assert!(
        v.times_for("work", &s).is_empty(),
        "must not resurrect the snapshot's hours"
    );
}

#[test]
fn only_hours_of_the_day_are_read() {
    let times = names(&["23:30", "99:00", "06:00", "24:00", "+6:15", "x:00", "6", "255:00"]);
    assert_eq!(hours_of(&times), vec![6, 23]);
    assert_eq!(times_of(&vec![6, 23]), names(&["06:00", "23:00"]));
}

#[test]
fn written_hours_read_back() {
    for hours in [vec![], vec![0], vec![9, 10, 19, 20], (0..24).collect::<Vec<u8>>()] {
        let times = times_of(&hours);
        assert_eq!(hours_of(&times), hours);
        assert!(times.windows(2).all(|w| w[0] < w[1]), "ascending as text: {times:?}");
    }
}

#[test]
fn the_grid_opens_on_an_hour_of_the_day() {
    let mut v = ScheduleView::new();
    let mut s = schedule_snap();
    s.schedule.insert("work".to_string(), names(&["99:00"]));
    let c = ctx();
    v.on_key(k(KeyCode::Enter), &c, &s);
    assert_eq!(v.grid, Some(9), "no hour of the day is scheduled");
    v.on_key(k(KeyCode::Char(' ')), &c, &s);
    assert_eq!(v.times_for("work", &s), names(&["09:00"]));
}

#[test]
fn w_emits_write_schedule() {
    let mut v = ScheduleView::new();
    let (s, c) = (schedule_snap(), ctx());
    match v.on_key(k(KeyCode::Char('w')), &c, &s) {
        Some(Action::WriteSchedule(_)) => {}
        other => panic!("expected WriteSchedule, got {other:?}"),
    }
}

fn schedule_text(s: &Snapshot) -> String {
    let fires: Vec<Option<FireTime>> = vec![None; s.accounts.len()];
    let page = ScheduleView::new().render(s, 1_000_000_000, &fires);
    format!(
        "{}\n{}\n{}",
        text_of(&page.help),
        texts(&page.rows),
        texts(&page.detail)
    )
}

#[test]
fn drift_banner_shown_when_crontab_out_of_sync() {
    let mut s = schedule_snap();
    s.schedule_drift = true;
    let text = schedule_text(&s);
    assert!(
        text.contains("out of sync"),
        "a drifted crontab must show a warning banner; got: {text}"
    );
}

#[test]
fn no_drift_banner_when_in_sync() {
    let text = schedule_text(&schedule_snap());
    assert!(!text.contains("out of sync"), "no warning when in sync");
    assert!(
        text.contains("auto-prime"),
        "normal help shown when in sync; got: {text}"
    );
}

fn task_snap(rows: Vec<(&str, Kind)>) -> Snapshot {
    let mut s = bare_snap();
    s.tasks = rows
        .into_iter()
        .map(|(id, kind)| TaskRow {
            id: id.to_string(),
            kind,
            account: "work".to_string(),
            times: names(&["07:00"]),
            next_fire: None,
            model: None,
            last_status: None,
        })
        .collect();
    s
}

#[test]
fn r_on_selected_row_emits_run_task() {
    let s = task_snap(vec![("weekly", Kind::Task)]);
    let mut v = TasksView::new();
    let act = v.on_key(k(KeyCode::Char('r')), &ctx(), &s);
    assert!(
        matches!(act, Some(Action::RunTask(ref id)) if id == "weekly"),
        "expected RunTask(\"weekly\"), got {act:?}"
    );
}

#[test]
fn d_then_confirm_emits_remove_task() {
    let s = task_snap(vec![("weekly", Kind::Task)]);
    let mut v = TasksView::new();
    let c = ctx();
    assert!(
        v.on_key(k(KeyCode::Char('d')), &c, &s).is_none(),
        "first d arms confirm, emits nothing"
    );
    assert!(v.claims_key(KeyCode::Char('y')), "confirm state must claim 'y'");
    let act = v.on_key(k(KeyCode::Char('y')), &c, &s);
    assert!(
        matches!(act, Some(Action::RemoveTask(ref id)) if id == "weekly"),
        "expected RemoveTask(\"weekly\"), got {act:?}"
    );
}

#[test]
fn down_moves_selection_and_clamps() {
    let s = task_snap(vec![("a", Kind::Prime), ("b", Kind::Task)]);
    let mut v = TasksView::new();
    let c = ctx();
    v.on_key(k(KeyCode::Down), &c, &s);
    v.on_key(k(KeyCode::Down), &c, &s);
    let act = v.on_key(k(KeyCode::Char('r')), &c, &s);
    assert!(
        matches!(act, Some(Action::RunTask(ref id)) if id == "b"),
        "expected RunTask(\"b\"), got {act:?}"
    );
}

#[test]
fn tasks_are_shown_by_id() {
    let s = task_snap(vec![("b", Kind::Task), ("a", Kind::Prime)]);
    let mut v = TasksView::new();
    let act = v.on_key(k(KeyCode::Char('r')), &ctx(), &s);
    assert!(matches!(act, Some(Action::RunTask(ref id)) if id == "a"));
    let page = v.render(&s);
    assert!(text_of(&page.rows[0]).starts_with("a                   [prime] "));
    assert!(page.empty.is_none());
    assert!(TasksView::new().render(&bare_snap()).empty.is_some());
}

#[test]
fn types_and_backspaces() {
    let mut ti = TextInput::new("");
    for c in "06:00".chars() {
        assert!(ti.handle_key(k(KeyCode::Char(c))));
    }
    assert_eq!(ti.value(), "06:00");
    assert!(ti.handle_key(k(KeyCode::Backspace)));
    assert_eq!(ti.value(), "06:0");
}

#[test]
fn cursor_left_insert_middle() {
    let mut ti = TextInput::new("0600");
    ti.handle_key(k(KeyCode::Left));
    ti.handle_key(k(KeyCode::Left));
    ti.handle_key(k(KeyCode::Char(':')));
    assert_eq!(ti.value(), "06:00");
    assert_eq!(ti.render_line(), "06:▏00");
}

#[test]
fn enter_and_esc_not_consumed() {
    let mut ti = TextInput::new("x");
    assert!(!ti.handle_key(k(KeyCode::Enter)));
    assert!(!ti.handle_key(k(KeyCode::Esc)));
}

#[test]
fn home_end_and_delete() {
    let mut ti = TextInput::new("ab");
    ti.handle_key(k(KeyCode::Home));
    ti.handle_key(k(KeyCode::Delete));
    assert_eq!(ti.value(), "b");
    ti.handle_key(k(KeyCode::End));
    ti.handle_key(k(KeyCode::Char('c')));
    assert_eq!(ti.value(), "bc");
}

#[test]
fn at_end_tracks_cursor() {
    let mut ti = TextInput::new("ab");
    assert!(ti.at_end(), "new() parks the cursor at the end");
    ti.handle_key(k(KeyCode::Left));
    assert!(!ti.at_end(), "cursor moved off the end");
    ti.handle_key(k(KeyCode::End));
    assert!(ti.at_end(), "End returns to the end");
}

#[test]
fn spinner_cycles() {
    assert_eq!(theme::spinner_frame(0), "✻");
    assert_eq!(theme::spinner_frame(theme::SPINNER_LEN), "✻");
    assert_ne!(theme::spinner_frame(1), theme::spinner_frame(0));
}

#[test]
fn pulse_endpoints_are_accent_range() {
    let low = theme::pulse(0).fg.unwrap();
    assert_eq!((low.r, low.g, low.b), (0xa8, 0x5e, 0x44));
    let high = theme::pulse(20).fg.unwrap();
    assert_eq!((high.r, high.g, high.b), (0xd9, 0x77, 0x57));
    for f in 0..80 {
        let _ = theme::pulse(f);
    }
}

#[test]
fn latest_picks_the_bigger_or_the_present_one() {
    assert_eq!(latest(Some(10), Some(20)), Some(20));
    assert_eq!(latest(Some(10), None), Some(10));
    assert_eq!(latest(None, Some(7)), Some(7));
    assert_eq!(latest(None, None), None);
}

#[test]
fn token_label_word_matches_urgency() {
    let now = 1_000_000_000;
    let (s, urgent) = token_label(Some(now + 3 * 3_600_000), true, now);
    assert!(s.starts_with("ok "), "got {s}");
    assert!(!urgent);
    let (s, urgent) = token_label(Some(now + 7 * 60_000), true, now);
    assert!(s.starts_with("expiring "), "got {s}");
    assert!(urgent);
    assert_eq!(
        token_label(Some(now - 1), false, now),
        ("expired".to_string(), true)
    );
    assert_eq!(
        token_label(Some(now - 1), true, now),
        ("refreshable".to_string(), false)
    );
}

#[test]
fn a_token_is_urgent_only_under_an_hour() {
    let hour = 3_600_000;
    assert_eq!(token_label(Some(hour), true, 0), ("ok 1h".to_string(), false));
    assert_eq!(
        token_label(Some(hour - 1), true, 0),
        ("expiring 59m".to_string(), true)
    );
    assert_eq!(token_label(Some(1), true, 0), ("expiring <1m".to_string(), true));
    assert_eq!(token_label(None, false, 0), ("unknown".to_string(), false));
    assert_eq!(token_label(Some(0), true, 0), ("refreshable".to_string(), false));
}

#[test]
fn remaining_full_at_window_start() {
    let now_ms = 1000 * 1000;
    assert_eq!(window_remaining_ms(Some(1000), now_ms), Some(WINDOW_MS));
}

#[test]
fn remaining_none_when_closed_or_unanchored() {
    let now_ms = 1000 * 1000 + WINDOW_MS + 1;
    assert_eq!(window_remaining_ms(Some(1000), now_ms), None);
    assert_eq!(window_remaining_ms(None, 0), None);
}

#[test]
fn launches_only_on_a_tty() {
    assert!(should_launch_tui(true));
    assert!(!should_launch_tui(false));
}

#[test]
fn panel_never_outgrows_the_terminal() {
    assert_eq!(panel_height(0), 1);
    assert_eq!(panel_height(10), 10);
    assert_eq!(panel_height(26), 26);
    assert_eq!(panel_height(80), 26);
}

#[test]
fn durations_have_one_or_two_parts() {
    assert_eq!(duration_label(0), None);
    assert_eq!(until_label(5, 10_000), "soon");
}

#[test]
fn lists_leave_room_for_what_is_below() {
    assert_eq!(list_height(3, 20, 4), 3);
    assert_eq!(list_height(30, 20, 4), 16);
    assert_eq!(list_height(30, 4, 4), 1);
    assert_eq!(scroll_target(0, 0), None);
    assert_eq!(scroll_target(20, 19), Some(19));
    assert_eq!(scroll_target(20, 40), Some(19));
    assert_eq!(centered_bands(60), (20, 60, 20));
}

#[test]
fn centered_rect_is_inside_and_smaller() {
    let area = Rect {
        x: 0,
        y: 0,
        width: 100,
        height: 40,
    };
    let c = centered_rect(50, 30, area);
    assert!(c.width < area.width && c.height < area.height);
    assert!(c.x > 0 && c.y > 0);
}

/// Where the first `percent` of `extent` cells that begin at `start` end.
fn cut(start: u16, extent: u16, percent: u16) -> u16 {
    let counted = u32::from(start.saturating_add(extent) - start);
    start + ((counted * u32::from(percent) + 50) / 100) as u16
}

#[test]
fn centered_rect_leaves_half_of_the_rest_before_it() {
    let at = |x, y, width, height| Rect {
        x,
        y,
        width,
        height,
    };
    assert_eq!(centered_rect(50, 30, at(0, 0, 100, 40)), at(25, 14, 50, 12));
    assert_eq!(centered_rect(60, 20, at(3, 5, 80, 24)), at(19, 15, 48, 4));
    // A percentage that does not halve evenly leaves its odd one after the part.
    assert_eq!(centered_rect(33, 33, at(0, 0, 100, 10)), at(33, 3, 33, 4));
    assert_eq!(centered_rect(100, 100, at(1, 2, 3, 4)), at(1, 2, 3, 4));
    assert_eq!(centered_rect(0, 0, at(0, 0, 10, 10)), at(5, 5, 0, 0));
    for percent in 0..=100u16 {
        let before = (100 - percent) / 2;
        for (start, extent) in [
            (0, 0),
            (0, 1),
            (7, 3),
            (0, 80),
            (2, 133),
            (0, 65535),
            (65000, 1000),
            (65535, 65535),
        ] {
            let area = at(start, 9, extent, 21);
            let c = centered_rect(percent, percent, area);
            assert_eq!(c.x, cut(start, extent, before));
            assert_eq!(c.x + c.width, cut(start, extent, before + percent));
            assert_eq!(c.y, cut(9, 21, before));
            assert_eq!(c.y + c.height, cut(9, 21, before + percent));
        }
    }
}

#[test]
fn percentages_cut_the_rows_one_after_another() {
    for (a, b, c) in [
        (0, 0, 0),
        (33, 34, 33),
        (7, 11, 13),
        (50, 0, 50),
        (100, 0, 0),
        (0, 0, 100),
        (1, 98, 1),
        (29, 57, 14),
    ] {
        let sizes = vec![
            Size::Percentage(a),
            Size::Percentage(b),
            Size::Percentage(c),
        ];
        for (y, height) in [(0, 0), (0, 1), (4, 50), (3, 97), (100, 9999), (65500, 65535)] {
            let parts = stacked(
                &sizes,
                Rect {
                    x: 6,
                    y,
                    width: 8,
                    height,
                },
            );
            let ends = [0, a, a + b, a + b + c];
            for i in 0..3usize {
                assert_eq!((parts[i].x, parts[i].width), (6, 8));
                assert_eq!(parts[i].y, cut(y, height, ends[i]));
                assert_eq!(parts[i].y + parts[i].height, cut(y, height, ends[i + 1]));
            }
        }
    }
}

#[test]
fn stacked_parts_fill_the_area() {
    let area = Rect {
        x: 2,
        y: 2,
        width: 10,
        height: 10,
    };
    assert_eq!(
        stacked(&vec![Size::Length(5), Size::Min(0)], area),
        vec![
            Rect {
                x: 2,
                y: 2,
                width: 10,
                height: 5
            },
            Rect {
                x: 2,
                y: 7,
                width: 10,
                height: 5
            }
        ]
    );
}

#[test]
fn fixed_parts_get_their_rows_and_the_minimum_the_rest() {
    let shapes = [
        hub_sizes(),
        accounts_sizes(4, 30),
        schedule_sizes(3, 30),
        tasks_sizes(7, 30),
        by_plugin_sizes(),
        apply_sizes(),
        detail_sizes(),
        rules_sizes(5),
        explain_sizes(4),
        vec![Size::Min(3)],
        vec![Size::Min(0), Size::Length(0), Size::Length(7), Size::Length(0)],
    ];
    let wants = |s: &Size| match s {
        Size::Length(n) => *n,
        _ => 0,
    };
    for sizes in shapes {
        let fixed: u16 = sizes.iter().map(wants).sum();
        let least: u16 = sizes
            .iter()
            .map(|s| match s {
                Size::Min(n) => *n,
                _ => 0,
            })
            .sum();
        for (y, height) in [
            (0, fixed + least),
            (3, fixed + least + 1),
            (11, 60),
            (0, 65535),
            (65000, 535),
        ] {
            let area = Rect {
                x: 6,
                y,
                width: 8,
                height,
            };
            let mut at = y;
            let parts = stacked(&sizes, area);
            assert_eq!(parts.len(), sizes.len());
            for (part, size) in parts.iter().zip(&sizes) {
                let rows = match size {
                    Size::Length(n) => *n,
                    _ => height - fixed,
                };
                assert_eq!((part.x, part.y, part.width, part.height), (6, at, 8, rows));
                at += rows;
            }
            assert_eq!(at, y + height);
        }
    }
    // A minimum that no signed number of cells holds is still met by what is left.
    let parts = stacked(
        &vec![Size::Length(5), Size::Min(40000)],
        Rect {
            x: 0,
            y: 0,
            width: 1,
            height: 50000,
        },
    );
    assert_eq!((parts[0].height, parts[1].y, parts[1].height), (5, 5, 49995));
}

#[test]
fn lists_leave_room_for_the_rest() {
    assert_eq!(accounts_sizes(3, 20)[2], Size::Length(3));
    assert_eq!(accounts_sizes(30, 20)[2], Size::Length(10));
    assert_eq!(accounts_sizes(0, 20)[2], Size::Length(1));
    assert_eq!(tasks_sizes(30, 20)[1], Size::Length(18));
    assert_eq!(tasks_sizes(30, 1)[1], Size::Length(0));
}
