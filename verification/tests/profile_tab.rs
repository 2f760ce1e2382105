use cc_loadout::namemap::NameMap;
use cc_loadout::profile::config::{Detect, Profile, Profiles};
use cc_loadout::profile::discover::{
    Inventory, PluginInfo, RepoSignal, SharedSignals, SuggestedProfile,
};
use cc_loadout::profile::draft::scan_draft;
use cc_loadout::profile::drift::{managed_keys, uncovered_from_signals};
use cc_loadout::tui::ctx::AppCtx;
use cc_loadout::tui::job::{IndexOutcome, ScanOutcome};
use cc_loadout::tui::key::{KeyCode, KeyEvent};
use cc_loadout::tui::line::{text_of, Line};
use cc_loadout::tui::profile::by_plugin::membership;
use cc_loadout::tui::profile::detail::DetailState;
use cc_loadout::tui::profile::tab_page::ProfilePage;
use cc_loadout::tui::profile::{ProfileView, Sub, ViewMode};
use cc_loadout::tui::snapshot::Snapshot;
use cc_loadout::tui::view::{Action, TabView};
use cc_loadout::tui::work::Walk;

fn k(c: KeyCode) -> KeyEvent {
    KeyEvent::from(c)
}

/// The tab, where the index says what a look at the repos would.
fn tab_on(inv: Inventory, working: Profiles, can_draft: bool, offer: bool) -> ProfileView {
    let (uncovered, pending) = uncovered_from_signals(&inv.repos, &working);
    assert!(!pending, "every repo is decided");
    ProfileView::new(inv, working, can_draft, offer, uncovered)
}

fn names(v: &[&str]) -> Vec<String> {
    v.iter().map(|s| s.to_string()).collect()
}

fn texts(lines: &Vec<Line>) -> String {
    lines.iter().map(text_of).collect::<Vec<String>>().join("\n")
}

#[derive(Debug)]
enum Tool {
    Claude,
}

fn assistant() -> String {
    format!("{:?}", Tool::Claude)
}

fn ctx() -> AppCtx {
    AppCtx {
        home: "/home/me".to_string(),
        data_root: "/data".to_string(),
        cfg_path: "/home/me/profiles.json".to_string(),
        registry_path: "/home/me/installed_plugins.json".to_string(),
        cwd: "/home/me".to_string(),
        assistant: assistant(),
        program: assistant().to_lowercase(),
    }
}

fn snap() -> Snapshot {
    Snapshot {
        accounts: vec![],
        cwd: "/tmp".to_string(),
        cwd_name: Some("tmp".to_string()),
        profiles_json_exists: false,
        matched: vec![],
        applied_count: 0,
        priming: vec![],
        schedule: NameMap::new(),
        global_enabled: vec![],
        tasks: vec![],
        schedule_drift: false,
        scope_drift: vec![],
    }
}

fn plugin(key: &str) -> PluginInfo {
    PluginInfo {
        key: key.to_string(),
        scopes: vec![],
        description: None,
    }
}

fn suggested(name: &str) -> SuggestedProfile {
    SuggestedProfile {
        name: name.to_string(),
        repos: vec![],
        shared_signals: SharedSignals {
            marker_files: vec![],
            marker_globs: vec![],
            package_json_deps: vec![],
        },
    }
}

fn inventory(plugins: &[&str], repos: Vec<RepoSignal>, buckets: &[&str]) -> Inventory {
    Inventory {
        plugins: plugins.iter().map(|p| plugin(p)).collect(),
        repos,
        suggested_profiles: buckets.iter().map(|b| suggested(b)).collect(),
    }
}

fn signal(path: &str, hits: &[(&str, bool)]) -> RepoSignal {
    let mut rule_hits = NameMap::new();
    for (a, b) in hits {
        rule_hits.insert(a.to_string(), *b);
    }
    RepoSignal {
        path: path.to_string(),
        marker_files: vec![],
        marker_globs: vec![],
        package_json_deps: vec![],
        languages: vec![],
        rule_hits,
        override_names: None,
    }
}

fn profile(plugins: &[&str], files: &[&str]) -> Profile {
    let mut detect = Detect::default();
    detect.marker_files = names(files);
    Profile {
        plugins: names(plugins),
        detect,
    }
}

fn plugins_of<'a>(w: &'a Profiles, name: &str) -> &'a Vec<String> {
    &w.profiles.get(name).unwrap().plugins
}

fn press(v: &mut ProfileView, code: KeyCode) -> Option<Action> {
    v.on_key(k(code), &ctx(), &snap())
}

fn type_text(v: &mut ProfileView, s: &str) {
    for ch in s.chars() {
        press(v, KeyCode::Char(ch));
    }
}

fn page_text(v: &ProfileView, s: &Snapshot, now_ms: i64) -> String {
    match v.render(&ctx(), s, 90, 20, now_ms) {
        ProfilePage::List { lines, .. } => texts(&lines),
        ProfilePage::Text { lines } => texts(&lines),
        ProfilePage::ByPlugin(p) => format!(
            "{}\n{}\n{}",
            texts(&p.header),
            texts(&p.list),
            texts(&p.description)
        ),
        ProfilePage::Detail(p) => texts(&p.head),
        ProfilePage::Apply(p) => texts(&p.body),
    }
}

fn inv_one_plugin() -> Inventory {
    inventory(&["serena@x"], vec![], &["rust"])
}

fn view() -> ProfileView {
    let inv = inv_one_plugin();
    let working = scan_draft(&inv, names(&["/r"]));
    tab_on(inv, working, false, false)
}

#[test]
fn ai_offer_y_emits_draft_action_and_clears_offer() {
    let inv = inv_one_plugin();
    let working = scan_draft(&inv, names(&["/r"]));
    let mut v = tab_on(inv, working, true, true);
    assert!(v.ai_offer, "ai_offer must be true on a first run");
    let action = press(&mut v, KeyCode::Char('y'));
    assert!(
        matches!(action, Some(Action::DraftWithClaude { .. })),
        "y must emit DraftWithClaude"
    );
    assert!(!v.ai_offer, "ai_offer must be cleared after y");
}

#[test]
fn ai_offer_n_clears_offer_without_action() {
    let inv = inv_one_plugin();
    let working = scan_draft(&inv, names(&["/r"]));
    let mut v = tab_on(inv, working, true, true);
    let action = press(&mut v, KeyCode::Char('n'));
    assert!(action.is_none(), "n must not emit an action");
    assert!(!v.ai_offer, "ai_offer must be cleared after n");
}

#[test]
fn a_key_emits_draft_when_claude_available() {
    let inv = inv_one_plugin();
    let working = scan_draft(&inv, names(&["/r"]));
    let mut v = tab_on(inv, working, true, false);
    assert!(!v.ai_offer, "ai_offer must be false when offer=false");
    let action = press(&mut v, KeyCode::Char('a'));
    assert!(
        matches!(action, Some(Action::DraftWithClaude { .. })),
        "a must emit DraftWithClaude when it can be run"
    );
}

#[test]
fn a_key_does_not_scan_on_the_ui_thread_before_drafting() {
    let inv = inventory(&[], vec![], &[]);
    let mut v = tab_on(inv, Profiles::default(), true, false)
        .with_scan_roots(names(&["/code"]));
    match press(&mut v, KeyCode::Char('a')) {
        Some(Action::DraftWithClaude { scan_roots, .. }) => {
            assert_eq!(scan_roots, names(&["/code"]))
        }
        other => panic!("'a' must emit DraftWithClaude, got {other:?}"),
    }
    assert!(v.inv_for_test().repos.is_empty());
}

#[test]
fn ai_draft_defers_scan_to_the_job_thread_when_unscanned() {
    let inv = inventory(&["serena@x"], vec![], &[]);
    let mut v = tab_on(inv, Profiles::default(), true, false)
        .with_scan_roots(names(&["/code"]));
    let action = press(&mut v, KeyCode::Char('a'));
    assert!(!v.working_for_test().profiles.contains_key("rust"));
    assert!(v.inv_for_test().repos.is_empty());
    match action {
        Some(Action::DraftWithClaude { inv, scan_roots }) => {
            assert!(inv.repos.is_empty());
            assert_eq!(scan_roots, names(&["/code"]));
        }
        other => panic!("expected DraftWithClaude, got {other:?}"),
    }
}

#[test]
fn accept_draft_replaces_working() {
    let inv = inv_one_plugin();
    let working = scan_draft(&inv, names(&["/r"]));
    let mut v = tab_on(inv.clone(), working, false, false);
    let replacement = Profiles {
        universal: names(&["unique@marker"]),
        ..Default::default()
    };
    v.accept_draft(replacement);
    assert_eq!(
        v.working_for_test().universal,
        names(&["unique@marker"]),
        "accept_draft must replace working with the draft"
    );
    assert!(!v.ai_offer, "accept_draft must clear ai_offer");
}

#[test]
fn accept_draft_recomputes_uncovered_from_the_index_not_the_disk() {
    let repo = signal("/does/not/exist/a", &[("file:Cargo.toml", true)]);
    let inv = inventory(&[], vec![repo], &[]);
    let mut v = tab_on(inv, Profiles::default(), false, false);
    assert_eq!(
        v.uncovered_for_test(),
        &names(&["/does/not/exist/a"]),
        "no profiles yet: the repo is uncovered"
    );
    let mut draft = Profiles::default();
    draft.profiles.insert("rust".to_string(), profile(&[], &["Cargo.toml"]));
    v.accept_draft(draft);
    assert!(
        v.uncovered_for_test().is_empty(),
        "the indexed marker_file hit must cover the repo synchronously"
    );
    assert!(
        !v.uncovered_pending_for_test(),
        "a fully indexed repo must not be pending"
    );
}

#[test]
fn dirty_config_reports_change_once_then_clean() {
    let mut v = view();
    assert!(v.dirty_config().is_none(), "clean right after construction");
    v.working.universal.push("newplug@m".to_string());
    assert!(v.dirty_config().is_some(), "reports the change once");
    assert!(v.dirty_config().is_none(), "clean again after reporting");
}

#[test]
fn scan_bar_shows_relative_age_and_stale_warning() {
    let now_secs = 2_000_000_000i64;
    let render = |scanned_at: i64| -> String {
        let inv = inventory(&["serena@x"], vec![signal("/workspace/a", &[])], &[]);
        let v = tab_on(inv, Profiles::default(), false, false)
            .with_scan_roots(names(&["/workspace"]))
            .with_scanned_at(Some(scanned_at));
        page_text(&v, &snap(), now_secs * 1000)
    };
    let fresh = render(now_secs - 3600);
    assert!(fresh.contains("1 repos"), "shows repo count: {fresh}");
    assert!(
        fresh.contains("scanned") && fresh.contains("ago"),
        "shows relative age: {fresh}"
    );
    assert!(!fresh.contains("may be stale"), "fresh scan is not stale: {fresh}");
    let stale = render(now_secs - (8 * 24 * 60 * 60));
    assert!(stale.contains("may be stale"), "old scan warns stale: {stale}");
}

#[test]
fn no_offer_when_claude_unavailable() {
    let inv = inv_one_plugin();
    let working = scan_draft(&inv, names(&["/r"]));
    let mut v = tab_on(inv, working, false, true);
    assert!(!v.ai_offer, "ai_offer must be false without a program to run");
    let action = press(&mut v, KeyCode::Char('a'));
    assert!(action.is_none(), "a must do nothing without a program to run");
}

#[test]
fn drift_surfaces_new_unassigned_stale_global_and_scope() {
    let inv = inventory(&["serena@x", "eslint@x"], vec![], &[]);
    let mut working = Profiles {
        universal: names(&["serena@x"]),
        ..Default::default()
    };
    working.profiles.insert("rust".to_string(), profile(&["gone@x"], &[]));
    let v = tab_on(inv, working, false, false);
    let mut s = snap();
    s.global_enabled = names(&["gone@x"]);
    s.scope_drift = names(&["cc-loadout@cc-loadout"]);
    let d = v.drift_for_test(&s);
    assert_eq!(d.new_unassigned, names(&["eslint@x"]));
    assert_eq!(d.stale, names(&["gone@x"]));
    assert_eq!(d.global, names(&["gone@x"]));
    assert_eq!(d.scope, names(&["cc-loadout@cc-loadout"]));
    assert_eq!(d.review_count(), 4);
}

#[test]
fn board_rows_are_universal_profiles_unassigned_on_demand() {
    assert_eq!(
        view().row_labels(),
        names(&["Universal", "rust", "Unassigned", "On-demand"])
    );
}

#[test]
fn down_arrow_moves_cursor_with_wrap() {
    let mut v = view();
    press(&mut v, KeyCode::Char('v'));
    assert_eq!(v.cursor, 0);
    press(&mut v, KeyCode::Down);
    assert_eq!(v.cursor, 1);
    for _ in 0..3 {
        press(&mut v, KeyCode::Down);
    }
    assert_eq!(v.cursor, 0);
}

#[test]
fn up_arrow_wraps_from_zero() {
    let mut v = view();
    press(&mut v, KeyCode::Char('v'));
    assert_eq!(v.cursor, 0);
    press(&mut v, KeyCode::Up);
    assert_eq!(v.cursor, 3);
}

#[test]
fn j_k_navigate_same_as_arrow_keys() {
    let mut v = view();
    press(&mut v, KeyCode::Char('v'));
    press(&mut v, KeyCode::Char('j'));
    assert_eq!(v.cursor, 1);
    press(&mut v, KeyCode::Char('k'));
    assert_eq!(v.cursor, 0);
}

#[test]
fn claims_key_true_while_building_a_rule() {
    let mut v = view();
    press(&mut v, KeyCode::Char('v'));
    v.cursor = 1;
    press(&mut v, KeyCode::Enter);
    press(&mut v, KeyCode::Tab);
    press(&mut v, KeyCode::Char('a'));
    assert!(
        v.claims_key(KeyCode::Char('q')),
        "kind-pick step claims 'q' (must not quit the app)"
    );
    assert!(
        v.claims_key(KeyCode::Tab),
        "kind-pick step claims Tab (no-op, must not cycle tabs)"
    );
    press(&mut v, KeyCode::Enter);
    assert!(v.claims_key(KeyCode::Char('q')), "typing a rule value claims 'q'");
    assert!(
        v.claims_key(KeyCode::Tab),
        "the builder claims Tab so it can switch the file→word field"
    );
}

fn view_with_two_unassigned() -> ProfileView {
    let inv = inventory(&["serena@x", "eslint@x"], vec![], &["rust"]);
    let working = scan_draft(&inv, vec![]);
    tab_on(inv, working, false, false)
}

fn enter_unassigned(v: &mut ProfileView) {
    press(v, KeyCode::Char('v'));
    v.cursor = v.row_labels().iter().position(|r| r == "Unassigned").unwrap();
    press(v, KeyCode::Enter);
}

#[test]
fn claims_key_true_only_during_text_entry() {
    let mut v = view_with_two_unassigned();
    assert!(!v.claims_key(KeyCode::Char('x')), "Board: does not claim 'x'");
    enter_unassigned(&mut v);
    assert!(
        !v.claims_key(KeyCode::Char('x')),
        "Assign (no naming): does not claim 'x'"
    );
    press(&mut v, KeyCode::Down);
    press(&mut v, KeyCode::Down);
    press(&mut v, KeyCode::Down);
    press(&mut v, KeyCode::Enter);
    assert!(
        v.claims_key(KeyCode::Char('x')),
        "Assign with naming active: claims 'x'"
    );
}

#[test]
fn assign_esc_returns_to_board() {
    let mut v = view_with_two_unassigned();
    enter_unassigned(&mut v);
    assert!(
        matches!(&v.sub, Sub::Assign(_)),
        "should be in Assign after Enter on Unassigned"
    );
    press(&mut v, KeyCode::Esc);
    assert!(
        matches!(&v.sub, Sub::Board),
        "should be back on Board after Esc in Assign"
    );
}

#[test]
fn row_labels_include_on_demand_after_unassigned() {
    let mut v = view_with_two_unassigned();
    v.working.on_demand.push("pixijs@x".to_string());
    let labels = v.row_labels();
    assert_eq!(labels.last(), Some(&"On-demand".to_string()));
    assert_eq!(
        labels[labels.len() - 2],
        "Unassigned".to_string(),
        "On-demand must come right after Unassigned"
    );
}

#[test]
fn assign_puts_plugin_into_chosen_profile_and_advances() {
    let mut v = view_with_two_unassigned();
    enter_unassigned(&mut v);
    press(&mut v, KeyCode::Down);
    press(&mut v, KeyCode::Enter);
    assert!(
        plugins_of(v.working_for_test(), "rust").contains(&"eslint@x".to_string()),
        "eslint@x (first in sorted queue) should be in rust profile after assignment"
    );
}

#[test]
fn new_profile_target_creates_profile_with_the_plugin() {
    let mut v = view_with_two_unassigned();
    enter_unassigned(&mut v);
    press(&mut v, KeyCode::Down);
    press(&mut v, KeyCode::Down);
    press(&mut v, KeyCode::Down);
    press(&mut v, KeyCode::Enter);
    type_text(&mut v, "embedded");
    press(&mut v, KeyCode::Enter);
    let w = v.working_for_test();
    assert!(
        w.profiles.contains_key("embedded"),
        "embedded profile should have been created"
    );
    assert!(
        plugins_of(w, "embedded").contains(&"eslint@x".to_string()),
        "eslint@x (first in sorted queue) should be in embedded profile"
    );
}

#[test]
fn leave_unassigned_advances_without_placing() {
    let mut v = view_with_two_unassigned();
    enter_unassigned(&mut v);
    for _ in 0..4 {
        press(&mut v, KeyCode::Down);
    }
    press(&mut v, KeyCode::Enter);
    assert!(
        !managed_keys(v.working_for_test()).contains(&"eslint@x".to_string()),
        "eslint@x should remain unmanaged after Leave unassigned"
    );
}

#[test]
fn on_demand_target_adds_plugin_to_on_demand_list() {
    let mut v = view_with_two_unassigned();
    enter_unassigned(&mut v);
    press(&mut v, KeyCode::Down);
    press(&mut v, KeyCode::Down);
    press(&mut v, KeyCode::Enter);
    assert_eq!(
        v.working_for_test().on_demand,
        names(&["eslint@x"]),
        "eslint@x (first in sorted queue) should land in on_demand"
    );
}

#[test]
fn by_plugin_membership_reflects_working() {
    let mut w = Profiles {
        universal: names(&["serena@x"]),
        ..Default::default()
    };
    w.profiles.insert("frontend".to_string(), profile(&["eslint@x"], &[]));
    w.profiles.insert("node".to_string(), profile(&["eslint@x"], &[]));
    assert_eq!(membership(&w, "serena@x"), names(&["Universal"]));
    assert_eq!(membership(&w, "eslint@x"), names(&["frontend", "node"]));
    assert!(membership(&w, "ghost@x").is_empty());
}

#[test]
fn by_plugin_default_view_and_v_toggles() {
    let mut v = view();
    assert!(matches!(v.view_for_test(), ViewMode::ByPlugin));
    press(&mut v, KeyCode::Char('v'));
    assert!(matches!(v.view_for_test(), ViewMode::ByProfile));
    press(&mut v, KeyCode::Char('v'));
    assert!(matches!(v.view_for_test(), ViewMode::ByPlugin));
}

#[test]
fn by_plugin_arrows_move_plugin_cursor() {
    let mut v = view_with_two_unassigned();
    assert_eq!(v.plugin_cursor, 0);
    press(&mut v, KeyCode::Down);
    assert_eq!(v.plugin_cursor, 1);
    press(&mut v, KeyCode::Down);
    assert_eq!(v.plugin_cursor, 0);
}

fn view_with_two_profiles_eslint() -> ProfileView {
    let inv = inventory(&["eslint@x"], vec![], &["frontend", "node"]);
    let mut working = Profiles::default();
    working.profiles.insert("frontend".to_string(), Profile::default());
    working.profiles.insert("node".to_string(), Profile::default());
    tab_on(inv, working, false, false)
}

fn view_with_eslint_in_frontend() -> ProfileView {
    let inv = inventory(&["eslint@x"], vec![], &["frontend"]);
    let mut working = Profiles::default();
    working.profiles.insert("frontend".to_string(), profile(&["eslint@x"], &[]));
    tab_on(inv, working, false, false)
}

#[test]
fn by_plugin_assign_to_multiple_profiles() {
    let mut v = view_with_two_profiles_eslint();
    press(&mut v, KeyCode::Enter);
    assert!(v.pick_for_test().is_some());
    press(&mut v, KeyCode::Down);
    press(&mut v, KeyCode::Char(' '));
    press(&mut v, KeyCode::Down);
    press(&mut v, KeyCode::Char(' '));
    press(&mut v, KeyCode::Enter);
    let w = v.working_for_test();
    let eslint = "eslint@x".to_string();
    assert!(plugins_of(w, "frontend").contains(&eslint));
    assert!(plugins_of(w, "node").contains(&eslint));
    assert!(!w.universal.contains(&eslint));
}

fn view_on_demand_plus_frontend() -> ProfileView {
    let inv = inventory(&["pixijs@x"], vec![], &["frontend"]);
    let mut working = Profiles::default();
    working.on_demand.push("pixijs@x".to_string());
    working.profiles.insert("frontend".to_string(), Profile::default());
    tab_on(inv, working, false, false)
}

#[test]
fn picker_commit_removes_reassigned_plugin_from_on_demand() {
    let mut v = view_on_demand_plus_frontend();
    press(&mut v, KeyCode::Enter);
    press(&mut v, KeyCode::Down);
    press(&mut v, KeyCode::Char(' '));
    press(&mut v, KeyCode::Enter);
    let w = v.working_for_test();
    assert!(plugins_of(w, "frontend").contains(&"pixijs@x".to_string()));
    assert!(!w.on_demand.contains(&"pixijs@x".to_string()));
}

#[test]
fn picker_commit_with_nothing_checked_keeps_on_demand() {
    let mut v = view_on_demand_plus_frontend();
    press(&mut v, KeyCode::Enter);
    press(&mut v, KeyCode::Enter);
    let w = v.working_for_test();
    assert!(w.on_demand.contains(&"pixijs@x".to_string()));
    assert!(!plugins_of(w, "frontend").contains(&"pixijs@x".to_string()));
}

#[test]
fn scan_is_noop_with_empty_root() {
    let mut v = tab_on(inventory(&[], vec![], &[]), Profiles::default(), false, false);
    v.scan(Walk {
        repos: vec![signal("/x/a", &[])],
        suggested: vec![suggested("rust")],
        budget_hits: 0,
        scanned_at: 7,
    });
    assert!(v.inv_for_test().repos.is_empty());
    assert!(v.working_for_test().scan_roots.is_empty());
}

#[test]
fn scan_populates_repos_and_merges_buckets_idempotently() {
    let mut v = tab_on(
        inventory(&["serena@x"], vec![], &[]),
        Profiles::default(),
        false,
        false,
    )
    .with_scan_roots(names(&["/x"]));
    let walk = || Walk {
        repos: vec![signal("/x/svc", &[("file:Cargo.toml", true)])],
        suggested: vec![suggested("rust")],
        budget_hits: 0,
        scanned_at: 7,
    };
    assert!(v.inv_for_test().repos.is_empty(), "starts unscanned");
    v.scan(walk());
    assert_eq!(v.inv_for_test().repos.len(), 1, "scan finds the repo");
    assert!(v.working_for_test().profiles.contains_key("rust"));
    assert_eq!(v.working_for_test().scan_roots, names(&["/x"]));
    v.scan(walk());
    assert_eq!(v.working_for_test().scan_roots, names(&["/x"]));
    assert_eq!(v.working_for_test().profiles.len(), 1);
}

#[test]
fn by_plugin_universal_excludes_profiles() {
    let mut v = view_with_eslint_in_frontend();
    press(&mut v, KeyCode::Enter);
    {
        let pick = v.pick_for_test().expect("picker must be open");
        assert!(!pick.checked[0], "Universal should NOT be pre-checked");
        assert!(pick.checked[1], "frontend should be pre-checked");
    }
    press(&mut v, KeyCode::Char(' '));
    {
        let pick = v.pick_for_test().expect("picker must still be open");
        assert!(pick.checked[0], "Universal should now be checked");
        assert!(!pick.checked[1], "frontend should be unchecked");
    }
    press(&mut v, KeyCode::Enter);
    let w = v.working_for_test();
    assert!(w.universal.contains(&"eslint@x".to_string()));
    assert!(!plugins_of(w, "frontend").contains(&"eslint@x".to_string()));
}

#[test]
fn by_plugin_new_profile_in_picker() {
    let mut v = view_with_two_profiles_eslint();
    press(&mut v, KeyCode::Enter);
    press(&mut v, KeyCode::Down);
    press(&mut v, KeyCode::Down);
    press(&mut v, KeyCode::Down);
    press(&mut v, KeyCode::Char(' '));
    assert!(v.pick_for_test().and_then(|p| p.naming.as_ref()).is_some());
    type_text(&mut v, "embedded");
    press(&mut v, KeyCode::Enter);
    assert!(v.pick_for_test().is_some_and(|p| p.naming.is_none()));
    assert!(v.working_for_test().profiles.contains_key("embedded"));
    press(&mut v, KeyCode::Enter);
    let w = v.working_for_test();
    assert!(w.profiles.contains_key("embedded"));
    assert!(plugins_of(w, "embedded").contains(&"eslint@x".to_string()));
}

#[test]
fn by_plugin_header_shows_scan_root_and_hint() {
    let v = tab_on(
        inventory(&["serena@x"], vec![], &[]),
        Profiles::default(),
        false,
        false,
    )
    .with_scan_roots(names(&["/home/u/code"]));
    let text = page_text(&v, &snap(), 0);
    assert!(text.contains("All plugins (1)"), "header shows plugin count");
    assert!(text.contains("scan:"), "header shows the scan affordance");
    assert!(text.contains("code"), "header shows the scan-root tail");
    assert!(text.contains("s scan"), "header shows the s-scan hint");
}

#[test]
fn by_plugin_list_scrolls_cursor_into_view() {
    let keys: Vec<String> = (0..40).map(|i| format!("plugin-{i:02}@mkt")).collect();
    let refs: Vec<&str> = keys.iter().map(String::as_str).collect();
    let mut v = tab_on(inventory(&refs, vec![], &[]), Profiles::default(), false, false);
    v.plugin_cursor = 39;
    match v.render(&ctx(), &snap(), 80, 14, 0) {
        ProfilePage::ByPlugin(p) => {
            assert_eq!(p.list.len(), 40);
            assert_eq!(p.cursor_line, 39);
            assert!(text_of(&p.list[38]).contains("plugin-38"));
            assert_eq!(text_of(&p.description[0]), "plugin-39  @mkt");
        }
        other => panic!("expected the by-plugin page, got {other:?}"),
    }
}

#[test]
fn by_profile_footer_has_scan_hint() {
    let mut v = view();
    press(&mut v, KeyCode::Char('v'));
    let hints = v.footer_hints();
    assert!(
        hints.iter().any(|(key, label)| *key == "s" && *label == "scan"),
        "by-profile footer must offer 's scan', got {hints:?}"
    );
}

#[test]
fn s_key_emits_rescan_action_and_does_not_scan_on_the_ui_thread() {
    let mut v = tab_on(inventory(&[], vec![], &[]), Profiles::default(), false, false)
        .with_scan_roots(names(&["/home/u/code"]));
    match press(&mut v, KeyCode::Char('s')) {
        Some(Action::Rescan { roots, .. }) => assert_eq!(roots, names(&["/home/u/code"])),
        other => panic!("'s' must emit Action::Rescan, got {other:?}"),
    }
    assert!(v.inv_for_test().repos.is_empty());
}

#[test]
fn s_key_triggers_scan_on_board() {
    let mut v = tab_on(
        inventory(&["serena@x"], vec![], &[]),
        Profiles::default(),
        false,
        false,
    )
    .with_scan_roots(names(&["/code"]));
    assert!(matches!(
        press(&mut v, KeyCode::Char('s')),
        Some(Action::Rescan { .. })
    ));
    assert!(v.inv_for_test().repos.is_empty());
    v.scan(Walk {
        repos: vec![signal("/code/svc", &[("file:Cargo.toml", true)])],
        suggested: vec![suggested("rust")],
        budget_hits: 0,
        scanned_at: 1,
    });
    assert_eq!(v.inv_for_test().repos.len(), 1);
    assert!(v.working_for_test().profiles.contains_key("rust"));
}

fn outcome(repo: RepoSignal, buckets: &[&str], uncovered: &[&str]) -> ScanOutcome {
    ScanOutcome {
        roots: names(&["/x"]),
        repos: vec![repo],
        suggested: buckets.iter().map(|b| suggested(b)).collect(),
        uncovered: names(uncovered),
        scanned_at: 0,
        budget_hits: 0,
    }
}

fn empty_view() -> ProfileView {
    tab_on(inventory(&[], vec![], &[]), Profiles::default(), false, false)
}

#[test]
fn accept_scan_merges_results_into_the_view() {
    let mut v = empty_view();
    let mut repo = signal("/x/rusty", &[]);
    repo.marker_files = names(&["Cargo.toml"]);
    v.accept_scan(outcome(repo, &["rust"], &[]));
    assert_eq!(v.inv_for_test().repos.len(), 1, "repos must be populated");
    assert!(
        v.working_for_test().profiles.contains_key("rust"),
        "suggested profile must merge into working"
    );
    assert_eq!(
        v.working_for_test().scan_roots,
        names(&["/x"]),
        "scanned roots must be recorded"
    );
}

#[test]
fn apply_scan_assigns_outcome_uncovered_without_walking() {
    let mut v = empty_view();
    v.accept_scan(outcome(signal("/x/a", &[]), &[], &["SENTINEL-not-from-disk"]));
    assert_eq!(v.uncovered_for_test(), &names(&["SENTINEL-not-from-disk"]));
}

#[test]
fn apply_scan_clears_uncovered_pending_after_a_full_rescan() {
    let mut v = empty_view().with_uncovered_pending(true);
    assert!(v.uncovered_pending_for_test(), "seeded pending from a legacy cache");
    v.accept_scan(outcome(signal("/x/a", &[]), &[], &["/x/a"]));
    assert_eq!(v.uncovered_for_test(), &names(&["/x/a"]));
    assert!(!v.uncovered_pending_for_test());
}

#[test]
fn with_uncovered_seeds_from_cache_without_walking() {
    let v = empty_view()
        .with_scan_repos(vec![signal("/workspace/does-not-exist", &[])])
        .with_uncovered(vec![]);
    assert_eq!(v.inv_for_test().repos.len(), 1, "repos are seeded from the cache");
    assert!(v.uncovered_for_test().is_empty());
}

#[test]
fn dirty_uncovered_reports_only_on_change() {
    let mut v = empty_view().with_uncovered(names(&["/a"]));
    assert!(v.dirty_uncovered().is_none());
    v.accept_uncovered(names(&["/a", "/b"]));
    assert_eq!(v.dirty_uncovered(), Some(names(&["/a", "/b"])));
    assert!(v.dirty_uncovered().is_none());
}

#[test]
fn by_profile_does_not_claim_r() {
    let mut v = view();
    press(&mut v, KeyCode::Char('v'));
    assert!(
        !v.claims_key(KeyCode::Char('r')),
        "by-profile board leaves 'r' to global Refresh"
    );
}

#[test]
fn what_a_look_at_the_repos_found_is_final_from_the_start() {
    let mut working = Profiles::default();
    working
        .profiles
        .insert("rust".to_string(), profile(&[], &["Cargo.toml"]));
    // The index decides neither repo; a look at them found that one matches nothing.
    let inv = inventory(&[], vec![signal("/r", &[]), signal("/s", &[])], &[]);
    let mut v = ProfileView::new(inv, working.clone(), false, false, names(&["/r"]));
    assert_eq!(v.uncovered_for_test(), &names(&["/r"]));
    assert!(!v.uncovered_pending_for_test());
    assert!(v.dirty_uncovered().is_none(), "what was found counts as saved");
    v.accept_draft(working);
    assert_eq!(v.uncovered_for_test(), &names(&["/r"]), "the last answer stands");
    assert!(v.uncovered_pending_for_test());
}

#[test]
fn roots_manager_add_remove_and_commit() {
    let mut v = tab_on(
        inventory(&["serena@x"], vec![], &[]),
        Profiles::default(),
        false,
        false,
    )
    .with_scan_roots(names(&["/a", "/b"]));
    assert!(v.claims_key(KeyCode::Char('r')), "by-plugin Board claims 'r'");
    press(&mut v, KeyCode::Char('r'));
    press(&mut v, KeyCode::Char('d'));
    press(&mut v, KeyCode::Char('a'));
    press(&mut v, KeyCode::Home);
    for _ in 0..200 {
        press(&mut v, KeyCode::Delete);
    }
    type_text(&mut v, "/c");
    press(&mut v, KeyCode::Enter);
    press(&mut v, KeyCode::Esc);
    assert_eq!(v.scan_roots, names(&["/b", "/c"]), "removed /a, kept /b, added /c");
    assert_eq!(v.working_for_test().scan_roots, names(&["/b", "/c"]));
}

#[test]
fn roots_manager_edit_existing_root() {
    let mut v = empty_view().with_scan_roots(names(&["/old"]));
    press(&mut v, KeyCode::Char('r'));
    press(&mut v, KeyCode::Enter);
    type_text(&mut v, "er");
    press(&mut v, KeyCode::Enter);
    press(&mut v, KeyCode::Esc);
    assert_eq!(v.scan_roots, names(&["/older"]));
}

#[test]
fn roots_manager_right_accepts_ghost_suggestion() {
    let mut v = empty_view().with_scan_roots(names(&["/base/aa"]));
    press(&mut v, KeyCode::Char('r'));
    press(&mut v, KeyCode::Enter);
    assert_eq!(v.completion_input(), Some("/base/aa".to_string()));
    v.offer_completion(&names(&["zebra", "aardvark"]));
    {
        let ed = v.roots_editor.as_ref().expect("manager open");
        assert_eq!(ed.suggestion.as_deref(), Some("rdvark/"));
    }
    press(&mut v, KeyCode::Right);
    let ed = v.roots_editor.as_ref().expect("manager still open");
    assert_eq!(ed.input.as_ref().unwrap().value(), "/base/aardvark/");
}

fn view_on_demand_row() -> ProfileView {
    let inv = inv_one_plugin();
    let working = scan_draft(&inv, vec![]);
    let mut v = tab_on(inv, working, false, false);
    v.switch_to_by_profile_for_test();
    v.cursor = v.row_labels().len() - 1;
    v
}

#[test]
fn footer_advertises_help_only_on_on_demand_row() {
    let mut v = view_on_demand_row();
    assert!(
        v.footer_hints().iter().any(|(key, _)| *key == "?"),
        "On-demand row selected → footer must advertise ?"
    );
    v.cursor = 0;
    assert!(
        !v.footer_hints().iter().any(|(key, _)| *key == "?"),
        "other rows must not advertise ?"
    );
}

#[test]
fn question_mark_opens_help_only_on_on_demand_row() {
    let mut v = view_on_demand_row();
    press(&mut v, KeyCode::Char('?'));
    assert!(v.on_demand_help, "? on the On-demand row must open help");
    assert_eq!(v.footer_hints(), vec![("esc", "close")]);
    press(&mut v, KeyCode::Esc);
    assert!(!v.on_demand_help, "esc must close help");
    v.cursor = 0;
    press(&mut v, KeyCode::Char('?'));
    assert!(!v.on_demand_help, "? elsewhere must not open help");
}

#[test]
fn open_help_swallows_board_keys_and_claims_esc() {
    let mut v = view_on_demand_row();
    press(&mut v, KeyCode::Char('?'));
    assert!(v.claims_key(KeyCode::Esc), "overlay must claim Esc");
    assert!(v.claims_key(KeyCode::Tab), "overlay must pause tab cycling");
    press(&mut v, KeyCode::Char('v'));
    assert!(matches!(v.view, ViewMode::ByProfile));
    let action = press(&mut v, KeyCode::Char('w'));
    assert!(action.is_none(), "w must be swallowed");
    assert!(matches!(v.sub, Sub::Board));
    assert!(v.on_demand_help, "overlay stays open on swallowed keys");
}

#[test]
fn open_help_renders_overlay_instead_of_board() {
    let mut v = view_on_demand_row();
    press(&mut v, KeyCode::Char('?'));
    let text = page_text(&v, &snap(), 0);
    assert!(
        text.contains("/cc-loadout:acquire"),
        "overlay content must replace the board; got: {text}"
    );
}

fn working_with_empty_web_profile() -> Profiles {
    let mut w = Profiles::default();
    w.profiles.insert("web".to_string(), Profile::default());
    w
}

#[test]
fn accept_index_clears_indexing_flags_even_with_no_hits() {
    let inv = inventory(&[], vec![], &[]);
    let working = working_with_empty_web_profile();
    let mut v = tab_on(inv.clone(), working.clone(), false, false);
    v.sub = Sub::Detail(Box::new(DetailState::open("web", &inv, &working)));
    v.indexing = true;
    v.indexing_atoms = names(&["glob:*.tsx"]);
    v.index_queue = names(&["glob:*.tsx"]);
    if let Sub::Detail(state) = &mut v.sub {
        state.rules.indexing = true;
    }
    v.accept_index(IndexOutcome {
        atoms: names(&["glob:*.tsx"]),
        hits: NameMap::new(),
    });
    assert!(!v.indexing, "ProfileView.indexing must clear even with empty hits");
    assert!(v.indexing_atoms.is_empty());
    assert!(v.index_queue.is_empty());
    match &v.sub {
        Sub::Detail(state) => assert!(!state.rules.indexing),
        _ => panic!("expected Sub::Detail"),
    }
}

#[test]
fn refresh_without_atoms_leaves_the_batch_under_way() {
    let mut v = empty_view().with_scan_repos(vec![signal("/r", &[])]);
    v.indexing = true;
    v.indexing_atoms = names(&["file:go.mod"]);
    let mut answers = NameMap::new();
    answers.insert("file:Cargo.toml".to_string(), true);
    let mut hits = NameMap::new();
    hits.insert("/r".to_string(), answers);
    v.accept_index(IndexOutcome { atoms: vec![], hits });
    assert!(v.indexing);
    assert_eq!(v.indexing_atoms, names(&["file:go.mod"]));
    assert_eq!(v.inv.repos[0].rule_hits.get("file:Cargo.toml"), Some(&true));
}

fn commit_tsx_rule(v: &mut ProfileView) -> Option<Action> {
    press(v, KeyCode::Char('a'));
    press(v, KeyCode::Down);
    press(v, KeyCode::Down);
    press(v, KeyCode::Enter);
    type_text(v, "*.tsx");
    press(v, KeyCode::Enter)
}

fn web_detail() -> ProfileView {
    let inv = inventory(&[], vec![signal("/nonexistent-fake/a", &[])], &[]);
    let mut v = tab_on(inv, working_with_empty_web_profile(), false, false);
    v.switch_to_by_profile_for_test();
    v.cursor = 1;
    press(&mut v, KeyCode::Enter);
    press(&mut v, KeyCode::Tab);
    v
}

#[test]
fn dedupe_delete_then_recommit_queues_single_atom_instance() {
    let mut v = web_detail();
    let action1 = commit_tsx_rule(&mut v);
    assert!(
        matches!(&action1, Some(Action::IndexAtoms { atoms, .. })
            if atoms == &names(&["glob:*.tsx"])),
        "first commit must dispatch the atom, got {action1:?}"
    );
    assert!(v.indexing, "a job is now in flight");
    assert!(v.index_queue.is_empty());
    press(&mut v, KeyCode::Char('d'));
    let action2 = commit_tsx_rule(&mut v);
    assert!(action2.is_none(), "must NOT dispatch a second job, got {action2:?}");
    assert_eq!(v.index_queue, names(&["glob:*.tsx"]));
}

#[test]
fn dead_batch_goes_back_to_the_queue_and_is_sent_again() {
    let mut v = web_detail();
    commit_tsx_rule(&mut v);
    v.accept_index_failed();
    assert!(!v.indexing);
    assert_eq!(v.index_queue, names(&["glob:*.tsx"]));
    assert!(matches!(
        press(&mut v, KeyCode::Tab),
        Some(Action::IndexAtoms { .. })
    ));
}

#[test]
fn undecided_coverage_keeps_the_last_answer_and_is_marked() {
    let mut v = web_detail();
    assert_eq!(v.uncovered, names(&["/nonexistent-fake/a"]));
    commit_tsx_rule(&mut v);
    press(&mut v, KeyCode::Enter);
    assert!(v.uncovered_pending);
    assert_eq!(v.uncovered, names(&["/nonexistent-fake/a"]));
    let text = page_text(&v, &snap(), 0);
    assert!(text.contains("⚠ 1 repos match nothing …"), "{text}");
    let mut answers = NameMap::new();
    answers.insert("glob:*.tsx".to_string(), true);
    let mut hits = NameMap::new();
    hits.insert("/nonexistent-fake/a".to_string(), answers);
    v.accept_index(IndexOutcome {
        atoms: names(&["glob:*.tsx"]),
        hits,
    });
    assert!(!v.uncovered_pending);
    assert!(v.uncovered.is_empty());
}

#[test]
fn scan_bar_shows_indexing_tail_while_indexing() {
    let mut v = empty_view().with_scan_roots(names(&["/workspace"]));
    v.indexing = true;
    v.indexing_atoms = names(&["glob:*.tsx"]);
    let text = page_text(&v, &snap(), 0);
    assert!(
        text.contains("indexing glob:*.tsx\u{2026}"),
        "single-atom tail: {text}"
    );
    v.indexing_atoms = names(&["glob:*.tsx", "file:go.mod"]);
    let text2 = page_text(&v, &snap(), 0);
    assert!(
        text2.contains("indexing 2 patterns\u{2026}"),
        "batch tail: {text2}"
    );
}

#[test]
fn on_demand_row_carries_help_cue_and_others_do_not() {
    let mut v = empty_view();
    v.switch_to_by_profile_for_test();
    let text = page_text(&v, &snap(), 0);
    let od = text.find("On-demand").expect("On-demand row must render");
    assert!(
        text[od..].contains('?'),
        "On-demand row must carry the ? cue; got: {text}"
    );
    let univ = text.find("Universal").expect("Universal row must render");
    assert!(
        !text[univ..od].contains('?'),
        "rows before On-demand must not carry ?; got: {text}"
    );
}

#[test]
fn rebuild_note_shows_until_a_scan_lands() {
    let mut v = empty_view().with_index_rebuilding(true);
    assert!(page_text(&v, &snap(), 0).contains("rebuilding in background"));
    v.accept_scan(outcome(signal("/x/a", &[]), &[], &[]));
    assert!(!page_text(&v, &snap(), 0).contains("rebuilding in background"));
    assert_eq!(v.scanned_at, Some(0));
}

#[test]
fn closing_the_manager_drops_empty_and_repeated_roots() {
    let mut v = empty_view().with_scan_roots(names(&["/a", "", "/a", "/b"]));
    press(&mut v, KeyCode::Char('r'));
    press(&mut v, KeyCode::Esc);
    assert_eq!(v.scan_roots, names(&["/a", "/b"]));
}
