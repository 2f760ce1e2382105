use cc_loadout::namemap::NameMap;
use cc_loadout::profile::config::{ContentRule, Detect, Profile, Profiles};
use cc_loadout::profile::discover::{
    Inventory, PluginInfo, RepoSignal, SharedSignals, SuggestedProfile,
};
use cc_loadout::profile::drift::{unassigned_keys, uncovered_from_signals};
use cc_loadout::profile::signal_detect::{
    atom_content, atom_dep, atom_file, atom_glob, atom_keyword, detect_from_signal,
    detect_from_signal_explained,
};
use cc_loadout::tui::ctx::AppCtx;
use cc_loadout::tui::key::{KeyCode, KeyEvent};
use cc_loadout::tui::line::{text_of, Line};
use cc_loadout::tui::profile::apply::{self, ApplyOutcome, ApplyPage, ApplyState};
use cc_loadout::tui::profile::board::detect_summary;
use cc_loadout::tui::profile::by_plugin::{completion_dir, dir_suggestion, membership};
use cc_loadout::tui::profile::detail::{self, DetailBody, DetailFocus, DetailPage, DetailState};
use cc_loadout::tui::profile::explain::{self, explain_repo, ExplainState};
use cc_loadout::tui::profile::on_demand_help;
use cc_loadout::tui::profile::pool::{self, Pool, PoolDetailState};
use cc_loadout::tui::profile::ProfileView;
use cc_loadout::tui::snapshot::Snapshot;
use cc_loadout::tui::view::{Action, TabView};

fn k(c: KeyCode) -> KeyEvent {
    KeyEvent::from(c)
}

/// The tab, where the index says what a look at the repos would.
fn tab_on(inv: Inventory, working: Profiles, can_draft: bool, offer: bool) -> ProfileView {
    let (uncovered, pending) = uncovered_from_signals(&inv.repos, &working);
    assert!(!pending, "every repo is decided");
    ProfileView::new(inv, working, can_draft, offer, uncovered)
}

fn names(v: &[&str]) -> Vec<String> {
    v.iter().map(|s| s.to_string()).collect()
}

fn texts(lines: &Vec<Line>) -> String {
    lines.iter().map(text_of).collect::<Vec<String>>().join("\n")
}

#[derive(Debug)]
enum Tool {
    Claude,
}

fn assistant() -> String {
    format!("{:?}", Tool::Claude)
}

fn ctx() -> AppCtx {
    AppCtx {
        home: "/home/me".to_string(),
        data_root: "/data".to_string(),
        cfg_path: "/home/me/profiles.json".to_string(),
        registry_path: "/home/me/installed_plugins.json".to_string(),
        cwd: "/home/me".to_string(),
        assistant: assistant(),
        program: assistant().to_lowercase(),
    }
}

fn snap() -> Snapshot {
    Snapshot {
        accounts: vec![],
        cwd: "/tmp".to_string(),
        cwd_name: Some("tmp".to_string()),
        profiles_json_exists: false,
        matched: vec![],
        applied_count: 0,
        priming: vec![],
        schedule: NameMap::new(),
        global_enabled: vec![],
        tasks: vec![],
        schedule_drift: false,
        scope_drift: vec![],
    }
}

fn press(v: &mut ProfileView, code: KeyCode) -> Option<Action> {
    v.on_key(k(code), &ctx(), &snap())
}

fn type_text(v: &mut ProfileView, s: &str) {
    for ch in s.chars() {
        press(v, KeyCode::Char(ch));
    }
}

fn plugins(keys: &[&str]) -> Vec<PluginInfo> {
    keys.iter()
        .map(|p| PluginInfo {
            key: p.to_string(),
            scopes: vec![],
            description: None,
        })
        .collect()
}

fn sig_with(path: &str, hits: &[(&str, bool)]) -> RepoSignal {
    let mut rule_hits = NameMap::new();
    for (a, b) in hits {
        rule_hits.insert(a.to_string(), *b);
    }
    RepoSignal {
        path: path.to_string(),
        marker_files: vec![],
        marker_globs: vec![],
        package_json_deps: vec![],
        languages: vec![],
        rule_hits,
        override_names: None,
    }
}

fn one_profile(name: &str, keys: &[&str], detect: Detect) -> Profiles {
    let mut w = Profiles::default();
    w.profiles.insert(
        name.to_string(),
        Profile {
            plugins: names(keys),
            detect,
        },
    );
    w
}

fn with_files(files: &[&str]) -> Detect {
    let mut d = Detect::default();
    d.marker_files = names(files);
    d
}

fn with_globs(globs: &[&str]) -> Detect {
    let mut d = Detect::default();
    d.marker_globs = names(globs);
    d
}

// Apply

fn make_inv_and_working() -> (Inventory, Profiles) {
    let mut repo = sig_with("/repos/one", &[("file:Cargo.toml", true)]);
    repo.marker_files = names(&["Cargo.toml"]);
    repo.languages = names(&["rs"]);
    let inv = Inventory {
        plugins: plugins(&["ra@x"]),
        repos: vec![repo],
        suggested_profiles: vec![SuggestedProfile {
            name: "rust".to_string(),
            repos: names(&["/repos/one"]),
            shared_signals: SharedSignals {
                marker_files: names(&["Cargo.toml"]),
                ..Default::default()
            },
        }],
    };
    (inv, rust_working())
}

fn rust_working() -> Profiles {
    one_profile("rust", &["ra@x"], with_files(&["Cargo.toml"]))
}

fn apply_text(p: &ApplyPage) -> String {
    format!("{}\n{}\n{}", text_of(&p.title), text_of(&p.age), texts(&p.body))
}

#[test]
fn apply_lists_repos_with_plugins_and_emits_commit() {
    let (inv, working) = make_inv_and_working();
    let mut v = tab_on(inv, working, false, false);
    press(&mut v, KeyCode::Char('w'));
    {
        let state = v
            .apply_state_for_test()
            .expect("Apply should be open after 'w'");
        assert_eq!(state.rows.len(), 1);
        let row = &state.rows[0];
        assert!(row.matched.contains(&"rust".to_string()));
        assert!(state.sel[0], "matched repo should be default-checked");
        assert!(row.plugins.contains(&"ra@x".to_string()));
    }
    match press(&mut v, KeyCode::Enter) {
        Some(Action::Commit {
            repos, expected, ..
        }) => {
            assert_eq!(repos.len(), 1, "expected exactly 1 repo in commit");
            assert_eq!(expected.len(), 1, "expected 1 preview entry alongside it");
            assert_eq!(expected[0].0, repos[0], "expected/repos paths must line up");
            assert_eq!(expected[0].1, names(&["rust"]));
        }
        other => panic!("expected Commit, got {other:?}"),
    }
}

#[test]
fn apply_unchecked_repo_excluded_from_commit() {
    let (inv, working) = make_inv_and_working();
    let mut v = tab_on(inv, working, false, false);
    press(&mut v, KeyCode::Char('w'));
    press(&mut v, KeyCode::Char(' '));
    match press(&mut v, KeyCode::Enter) {
        Some(Action::Commit { repos, .. }) => {
            assert!(repos.is_empty(), "unchecked repo should be excluded; got {repos:?}")
        }
        other => panic!("expected Commit, got {other:?}"),
    }
}

#[test]
fn apply_esc_returns_to_board_no_action() {
    let (inv, working) = make_inv_and_working();
    let mut v = tab_on(inv, working, false, false);
    press(&mut v, KeyCode::Char('w'));
    assert!(press(&mut v, KeyCode::Esc).is_none(), "Esc should return None");
    press(&mut v, KeyCode::Char('w'));
    assert!(v.apply_state_for_test().is_some());
}

#[test]
fn open_decisive_matched_row_is_checked_and_not_pending_with_zero_disk_proof() {
    let sig = sig_with("/does/not/exist/matched", &[("file:Cargo.toml", true)]);
    let state = ApplyState::open(&vec![sig], &rust_working());
    assert_eq!(state.rows.len(), 1);
    assert_eq!(state.rows[0].matched, names(&["rust"]));
    assert!(!state.rows[0].pending, "fully-indexed row is not pending");
    assert!(state.sel[0], "decisive matched row must default-checked");
}

#[test]
fn open_decisive_unmatched_row_is_unchecked_and_not_pending() {
    let sig = sig_with("/does/not/exist/unmatched", &[("file:Cargo.toml", false)]);
    let state = ApplyState::open(&vec![sig], &rust_working());
    assert!(state.rows[0].matched.is_empty());
    assert!(!state.rows[0].pending, "fully-indexed row is not pending");
    assert!(!state.sel[0], "decisive unmatched row must default-unchecked");
}

#[test]
fn open_pending_row_is_unchecked_by_default_even_though_never_asked_disk() {
    let sig = sig_with("/does/not/exist/pending", &[]);
    let state = ApplyState::open(&vec![sig], &rust_working());
    assert!(state.rows[0].pending, "missing atom must mark the row pending");
    assert!(!state.sel[0], "a pending row must never default-checked");
}

#[test]
fn render_header_shows_preview_age_and_fresh_write_disclaimer() {
    let (inv, working) = make_inv_and_working();
    let state = ApplyState::open(&inv.repos, &working);
    let scanned_at = 1_700_000_000i64;
    let now_ms = (scanned_at + 65) * 1000;
    let text = apply_text(&apply::render(&state, &working, Some(scanned_at), now_ms));
    assert!(text.contains("preview as of scan"), "{text}");
    assert!(text.contains("1m ago"), "{text}");
    assert!(text.contains("re-detected fresh at write time"), "{text}");
    assert!(text.contains("1 of 1 selected"), "{text}");
}

#[test]
fn render_pending_row_carries_a_dim_pending_annotation() {
    let working = rust_working();
    let state = ApplyState::open(&vec![sig_with("/does/not/exist/pending", &[])], &working);
    let text = apply_text(&apply::render(&state, &working, None, 0));
    assert!(text.contains("pending index"), "{text}");
}

#[test]
fn explain_overlay_on_pending_row_says_pending_not_no_match() {
    let working = rust_working();
    let mut state = ApplyState::open(&vec![sig_with("/does/not/exist/pending", &[])], &working);
    state.handle_key(k(KeyCode::Char('x')), &working);
    assert_eq!(state.expanded, Some(0));
    let text = apply_text(&apply::render(&state, &working, None, 0));
    assert!(!text.contains("no rules matched"), "{text}");
    assert!(text.contains("(pending — some rules not yet indexed)"), "{text}");
}

#[test]
fn commit_carries_each_checked_repo_with_its_preview() {
    let working = rust_working();
    let mut state = ApplyState::open(
        &vec![
            sig_with("/a", &[("file:Cargo.toml", true)]),
            sig_with("/b", &[("file:Cargo.toml", false)]),
        ],
        &working,
    );
    assert_eq!(state.sel, vec![true, false]);
    state.handle_key(k(KeyCode::Down), &working);
    state.handle_key(k(KeyCode::Char(' ')), &working);
    match state.handle_key(k(KeyCode::Enter), &working) {
        ApplyOutcome::Commit(Action::Commit {
            cfg,
            repos,
            expected,
        }) => {
            assert_eq!(cfg, working);
            assert_eq!(repos, names(&["/a", "/b"]));
            assert_eq!(
                expected,
                vec![
                    ("/a".to_string(), names(&["rust"])),
                    ("/b".to_string(), vec![])
                ]
            );
        }
        other => panic!("expected a commit, got {other:?}"),
    }
}

// Board and by-plugin helpers

#[test]
fn detect_summary_always_shows_path_prefixes() {
    let mut d = Detect::default();
    d.path_prefixes.push("/workspace/".to_string());
    d.marker_files.push("Cargo.toml".to_string());
    let s = detect_summary(&d);
    assert!(s.contains("/workspace/"), "{s}");
    assert!(s.contains("Cargo.toml"), "marker file still shown: {s}");
}

#[test]
fn detect_summary_of_no_rules_is_any_repo() {
    assert_eq!(detect_summary(&Detect::default()), "any repo");
}

#[test]
fn dir_suggestion_completes_first_matching_subdir() {
    let children = names(&["zebra", "abacus", "aardvark"]);
    let suggest = |input: &str| dir_suggestion(input, &children);
    assert_eq!(suggest("/base/aa"), Some("rdvark/".to_string()));
    assert_eq!(suggest("/base/"), Some("aardvark/".to_string()));
    assert_eq!(suggest("/base/q"), None);
    assert_eq!(suggest("relativeish"), None);
    assert_eq!(dir_suggestion("/no/such/parent/x", &vec![]), None);
}

#[test]
fn completion_looks_in_the_directory_before_the_last_slash() {
    assert_eq!(completion_dir("/base/aa"), Some("/base/".to_string()));
    assert_eq!(completion_dir("/"), Some("/".to_string()));
    assert_eq!(completion_dir("relativeish"), None);
}

#[test]
fn membership_labels_on_demand_keys() {
    let mut working = Profiles::default();
    working.on_demand.push("pixijs@x".to_string());
    working.universal.push("serena@x".to_string());
    assert_eq!(membership(&working, "pixijs@x"), names(&["On-demand"]));
    assert_eq!(membership(&working, "serena@x"), names(&["Universal"]));
    assert!(membership(&working, "other@x").is_empty());
}

#[test]
fn overlay_names_the_acquire_flow_and_the_close_key() {
    let text = texts(&on_demand_help::lines());
    assert!(text.contains("/cc-loadout:acquire"), "{text}");
    assert!(text.contains("/reload-plugins"), "{text}");
    assert!(text.contains("esc"), "{text}");
    assert!(text.contains("auto-reverts"), "{text}");
    assert!(text.contains("Assign"), "{text}");
}

// Pools

fn pool_inv() -> Inventory {
    Inventory {
        plugins: plugins(&["serena@x", "eslint@x"]),
        repos: vec![],
        suggested_profiles: vec![],
    }
}

#[test]
fn universal_pool_renders_its_members_checked_and_the_rest_unchecked() {
    let working = Profiles {
        universal: names(&["serena@x"]),
        ..Default::default()
    };
    let state = PoolDetailState::open(Pool::Universal, &pool_inv(), &working);
    let text = texts(&pool::render(&state));
    assert!(text.contains("Universal"), "the pool must name itself: {text}");
    assert!(text.contains("[x] serena@x"), "a member renders checked: {text}");
    assert!(text.contains("[ ] eslint@x"), "a non-member renders unchecked: {text}");
}

#[test]
fn opening_a_pool_preselects_only_that_pools_members() {
    let mut working = one_profile("rust", &["serena@x"], Detect::default());
    working.universal = names(&["serena@x"]);
    working.on_demand = names(&["eslint@x"]);
    let on_demand = PoolDetailState::open(Pool::OnDemand, &pool_inv(), &working);
    assert_eq!(on_demand.plugins.selected(), names(&["eslint@x"]));
}

#[test]
fn plugins_chosen_for_a_pool_leave_the_others() {
    let mut working = one_profile("rust", &["eslint@x"], Detect::default());
    working.universal = names(&["serena@x"]);
    let mut state = PoolDetailState::open(Pool::OnDemand, &pool_inv(), &working);
    state.handle_key(k(KeyCode::Down), &mut working);
    state.handle_key(k(KeyCode::Char(' ')), &mut working);
    let chosen = state.plugins.selected();
    assert_eq!(chosen.len(), 1);
    assert_eq!(working.on_demand, chosen);
    assert!(!working.universal.contains(&chosen[0]));
}

// Detail

fn inv_with_cargo_repo(path: &str) -> Inventory {
    let mut repo = sig_with(path, &[]);
    repo.marker_files = names(&["Cargo.toml"]);
    repo.languages = names(&["rs"]);
    Inventory {
        plugins: plugins(&["ra@x"]),
        repos: vec![repo],
        suggested_profiles: vec![SuggestedProfile {
            name: "rust".to_string(),
            repos: names(&[path]),
            shared_signals: SharedSignals {
                marker_files: names(&["Cargo.toml"]),
                ..Default::default()
            },
        }],
    }
}

fn working_rust_profile(keys: &[&str]) -> Profiles {
    one_profile("rust", keys, Detect::default())
}

fn inv_of(keys: &[&str]) -> Inventory {
    Inventory {
        plugins: plugins(keys),
        repos: vec![],
        suggested_profiles: vec![],
    }
}

fn open_detail_on_rust(inv: Inventory, working: Profiles) -> ProfileView {
    let mut view = tab_on(inv, working, false, false);
    view.switch_to_by_profile_for_test();
    view.cursor = 1;
    view
}

fn rust_of(w: &Profiles) -> &Profile {
    w.profiles.get("rust").unwrap()
}

#[test]
fn detection_changed_only_when_rules_change_not_plugins() {
    let inv = inv_with_cargo_repo("/tmp/none");
    let working = working_rust_profile(&[]);
    let mut st = DetailState::open("rust", &inv, &working);
    assert!(!st.detection_changed(), "a freshly opened detail has no detection change");
    st.plugins.on_key(k(KeyCode::Char(' ')));
    assert!(!st.detection_changed(), "editing plugins must not trigger a recompute");
    st.rules.detect.marker_files.push("Cargo.toml".to_string());
    assert!(st.detection_changed(), "editing detect rules is a detection change");
}

#[test]
fn deleting_a_profile_counts_as_detection_change() {
    let inv = inv_with_cargo_repo("/tmp/none");
    let mut working = working_rust_profile(&[]);
    let mut st = DetailState::open("rust", &inv, &working);
    let done = st.handle_key(k(KeyCode::Delete), &inv, &mut working);
    assert!(done, "Delete returns to the board");
    assert!(st.detection_changed());
    assert!(!working.profiles.contains_key("rust"), "the profile was removed");
}

#[test]
fn detail_done_after_plugin_only_edit_skips_recompute() {
    let mut view = open_detail_on_rust(inv_with_cargo_repo("/tmp/none"), working_rust_profile(&[]));
    press(&mut view, KeyCode::Enter);
    press(&mut view, KeyCode::Char(' '));
    let action = press(&mut view, KeyCode::Enter);
    assert!(action.is_none(), "a plugins-only edit must not trigger work, got {action:?}");
}

#[test]
fn detail_done_after_rule_edit_recomputes_uncovered_synchronously() {
    let mut view = open_detail_on_rust(
        inv_with_cargo_repo("/workspace/svc"),
        working_rust_profile(&[]),
    );
    press(&mut view, KeyCode::Enter);
    assert_eq!(
        view.uncovered_for_test(),
        &names(&["/workspace/svc"]),
        "empty detect rules match nothing yet"
    );
    press(&mut view, KeyCode::Tab);
    press(&mut view, KeyCode::Char('a'));
    press(&mut view, KeyCode::Enter);
    type_text(&mut view, "/workspace/");
    press(&mut view, KeyCode::Enter);
    let action = press(&mut view, KeyCode::Enter);
    assert!(action.is_none(), "the recompute is inline, got {action:?}");
    assert!(view.uncovered_for_test().is_empty());
}

#[test]
fn detail_rules_tab_add_rule_persists_on_done() {
    let mut view = open_detail_on_rust(inv_with_cargo_repo("/tmp/none"), working_rust_profile(&[]));
    press(&mut view, KeyCode::Enter);
    press(&mut view, KeyCode::Tab);
    press(&mut view, KeyCode::Char('a'));
    press(&mut view, KeyCode::Enter);
    type_text(&mut view, "/workspace/");
    press(&mut view, KeyCode::Enter);
    press(&mut view, KeyCode::Enter);
    assert_eq!(
        rust_of(view.working_for_test()).detect.path_prefixes,
        names(&["/workspace/"])
    );
}

#[test]
fn detail_rules_tab_add_has_file_rule_persists_on_done() {
    let mut view = open_detail_on_rust(inv_with_cargo_repo("/tmp/none"), working_rust_profile(&[]));
    press(&mut view, KeyCode::Enter);
    press(&mut view, KeyCode::Tab);
    press(&mut view, KeyCode::Char('a'));
    press(&mut view, KeyCode::Down);
    press(&mut view, KeyCode::Enter);
    type_text(&mut view, "Cargo.toml");
    press(&mut view, KeyCode::Enter);
    press(&mut view, KeyCode::Enter);
    assert_eq!(
        rust_of(view.working_for_test()).detect.marker_files,
        names(&["Cargo.toml"])
    );
}

#[test]
fn detail_delete_removes_profile_and_unassigns_plugins() {
    let mut view = open_detail_on_rust(inv_of(&["ra@x"]), working_rust_profile(&["ra@x"]));
    press(&mut view, KeyCode::Enter);
    press(&mut view, KeyCode::Delete);
    let w = view.working_for_test();
    assert!(!w.profiles.contains_key("rust"), "delete should remove the rust profile");
    let unassigned = unassigned_keys(view.inv_for_test(), w);
    assert!(unassigned.contains(&"ra@x".to_string()), "got {unassigned:?}");
}

#[test]
fn detail_rename_moves_profile_key() {
    let mut view = open_detail_on_rust(inv_of(&["ra@x"]), working_rust_profile(&["ra@x"]));
    press(&mut view, KeyCode::Enter);
    press(&mut view, KeyCode::Char('r'));
    type_text(&mut view, "systems");
    press(&mut view, KeyCode::Enter);
    let w = view.working_for_test();
    assert!(w.profiles.contains_key("systems"), "rename should create 'systems' key");
    assert!(!w.profiles.contains_key("rust"), "rename should remove 'rust' key");
}

#[test]
fn detail_rename_to_a_taken_name_changes_nothing() {
    let mut working = working_rust_profile(&["ra@x"]);
    working.profiles.insert("systems".to_string(), Profile::default());
    let before = working.clone();
    let inv = inv_of(&["ra@x"]);
    let mut st = DetailState::open("rust", &inv, &working);
    st.handle_key(k(KeyCode::Char('r')), &inv, &mut working);
    for ch in "systems".chars() {
        st.handle_key(k(KeyCode::Char(ch)), &inv, &mut working);
    }
    st.handle_key(k(KeyCode::Enter), &inv, &mut working);
    assert_eq!(working, before);
    assert_eq!(st.name, "rust");
}

#[test]
fn detail_esc_keeps_plugin_edits() {
    let mut view = open_detail_on_rust(
        inv_of(&["ra@x", "serena@x"]),
        working_rust_profile(&["ra@x"]),
    );
    press(&mut view, KeyCode::Enter);
    press(&mut view, KeyCode::Down);
    press(&mut view, KeyCode::Char(' '));
    press(&mut view, KeyCode::Esc);
    let kept = &rust_of(view.working_for_test()).plugins;
    assert!(kept.contains(&"serena@x".to_string()), "Esc keeps edits; got {kept:?}");
}

#[test]
fn detail_plugin_toggle_is_written_back_immediately() {
    let inv = inv_of(&["ra@x", "serena@x"]);
    let working = working_rust_profile(&["ra@x"]);
    let mut st = DetailState::open("rust", &inv, &working);
    let mut w = working.clone();
    st.handle_key(k(KeyCode::Down), &inv, &mut w);
    st.handle_key(k(KeyCode::Char(' ')), &inv, &mut w);
    assert!(rust_of(&w).plugins.contains(&"serena@x".to_string()));
}

#[test]
fn detail_toggle_plugin_membership_persists_on_done() {
    let mut view = open_detail_on_rust(
        inv_of(&["ra@x", "serena@x"]),
        working_rust_profile(&["ra@x"]),
    );
    press(&mut view, KeyCode::Enter);
    press(&mut view, KeyCode::Down);
    press(&mut view, KeyCode::Char(' '));
    press(&mut view, KeyCode::Enter);
    let kept = &rust_of(view.working_for_test()).plugins;
    assert!(kept.contains(&"serena@x".to_string()), "got {kept:?}");
    assert!(kept.contains(&"ra@x".to_string()), "pre-existing ra@x stays");
}

#[test]
fn tab_during_explain_does_not_toggle_focus() {
    let inv = inv_with_cargo_repo("/repos/one");
    let working = working_rust_profile(&[]);
    let mut state = DetailState::open("rust", &inv, &working);
    let mut w = working.clone();
    state.handle_key(k(KeyCode::Tab), &inv, &mut w);
    assert_eq!(state.focus, DetailFocus::Rules, "Tab should toggle to Rules");
    state.handle_key(k(KeyCode::Char('?')), &inv, &mut w);
    assert!(state.explain.is_some(), "'?' should open explain overlay");
    assert_eq!(state.focus, DetailFocus::Rules, "focus stays Rules after '?'");
    state.handle_key(k(KeyCode::Tab), &inv, &mut w);
    assert_eq!(state.focus, DetailFocus::Rules);
    assert!(state.explain.is_some(), "explain overlay must still be open after Tab");
}

#[test]
fn detail_contains_rule_tab_switches_to_word_field() {
    let mut view = open_detail_on_rust(inv_with_cargo_repo("/tmp/none"), working_rust_profile(&[]));
    press(&mut view, KeyCode::Enter);
    press(&mut view, KeyCode::Tab);
    press(&mut view, KeyCode::Char('a'));
    press(&mut view, KeyCode::Down);
    press(&mut view, KeyCode::Down);
    press(&mut view, KeyCode::Down);
    press(&mut view, KeyCode::Enter);
    type_text(&mut view, "requirements.txt");
    press(&mut view, KeyCode::Tab);
    type_text(&mut view, "torch");
    press(&mut view, KeyCode::Enter);
    press(&mut view, KeyCode::Enter);
    assert_eq!(
        rust_of(view.working_for_test()).detect.content,
        vec![ContentRule {
            file: "requirements.txt".to_string(),
            word: "torch".to_string(),
        }]
    );
}

#[test]
fn detail_page_follows_the_focus() {
    let inv = inv_with_cargo_repo("/repos/one");
    let working = working_rust_profile(&[]);
    let mut w = working.clone();
    let mut st = DetailState::open("rust", &inv, &working);
    let page: DetailPage = detail::render(&st, 20, None, 0);
    assert!(texts(&page.head).contains("rust"));
    assert!(matches!(page.body, DetailBody::Plugins { .. }));
    st.handle_key(k(KeyCode::Tab), &inv, &mut w);
    assert!(matches!(detail::render(&st, 20, None, 0).body, DetailBody::Rules(_)));
    st.handle_key(k(KeyCode::Char('?')), &inv, &mut w);
    assert!(matches!(detail::render(&st, 20, None, 0).body, DetailBody::Explain(_)));
}

// Explain

fn working_two() -> Profiles {
    let mut rust = with_files(&["Cargo.toml"]);
    rust.marker_globs = names(&["*.vue"]);
    let mut w = one_profile("rust", &[], rust);
    w.profiles.insert(
        "frontend".to_string(),
        Profile {
            plugins: vec![],
            detect: with_globs(&["*.vue"]),
        },
    );
    w
}

#[test]
fn explain_reports_overall_and_per_rule_for_this_profile() {
    let sig = sig_with(
        "/does/not/exist/rust-repo",
        &[
            (&atom_file("Cargo.toml"), true),
            (&atom_glob("*.vue"), false),
        ],
    );
    let working = working_two();
    let rep = explain_repo(&sig, "rust", &rust_of(&working).detect, &working);
    assert!(rep.overall, "rust matches via Cargo.toml");
    assert!(!rep.this_pending, "every atom this rule needs is indexed");
    assert!(rep.matched_profiles.iter().any(|(n, _)| n == "rust"));
    assert!(!rep.matched_profiles.iter().any(|(n, _)| n == "frontend"));
    let has_file = rep
        .this_rules
        .iter()
        .find(|(label, _)| label.contains("Cargo.toml"))
        .unwrap();
    assert!(has_file.1, "Cargo.toml rule fires");
    let has_vue = rep
        .this_rules
        .iter()
        .find(|(label, _)| label.contains("*.vue"))
        .unwrap();
    assert!(!has_vue.1, "*.vue rule does not fire (no .vue file)");
}

#[test]
fn explain_overall_false_when_nothing_matches() {
    let sig = sig_with(
        "/does/not/exist/empty-repo",
        &[
            (&atom_file("Cargo.toml"), false),
            (&atom_glob("*.vue"), false),
        ],
    );
    let working = working_two();
    let rep = explain_repo(&sig, "rust", &rust_of(&working).detect, &working);
    assert!(!rep.overall, "empty repo matches no rule");
    assert!(!rep.this_pending, "both atoms are decisively indexed");
    assert!(rep.this_rules.iter().all(|(_, fires)| !fires));
}

#[test]
fn explain_does_not_show_gated_marker_as_firing() {
    let sig = sig_with(
        "/does/not/exist/fe-repo",
        &[
            (&atom_file("package.json"), true),
            (&atom_content("package.json", "react"), false),
        ],
    );
    let mut detect = with_files(&["package.json"]);
    detect.content.push(ContentRule {
        file: "package.json".to_string(),
        word: "react".to_string(),
    });
    let working = one_profile("fe", &[], detect.clone());
    let rep = explain_repo(&sig, "fe", &detect, &working);
    assert!(!rep.overall, "engine must not match: package.json lacks 'react'");
    assert!(!rep.this_pending, "both referenced atoms are indexed");
    let has_file_row = rep
        .this_rules
        .iter()
        .find(|(label, _)| label.contains("package.json") && label.contains("has file"))
        .expect("has file row must exist");
    assert!(!has_file_row.1, "gated marker_file must NOT show as firing");
}

#[test]
fn explain_over_signal_reports_marker_glob_provenance_zero_disk() {
    let sig = sig_with("/does/not/exist/vue-repo", &[(&atom_glob("*.vue"), true)]);
    let detect = with_globs(&["*.vue"]);
    let working = one_profile("frontend", &[], detect.clone());
    let rep = explain_repo(&sig, "frontend", &detect, &working);
    assert!(rep.overall);
    assert!(!rep.this_pending);
    let (_, why) = rep
        .matched_profiles
        .iter()
        .find(|(n, _)| n == "frontend")
        .expect("frontend must be reported as a match");
    assert!(why.contains("marker_glob"), "rule name in provenance: {why}");
    assert!(why.contains("*.vue"), "pattern value in provenance: {why}");
    let glob_row = rep
        .this_rules
        .iter()
        .find(|(label, _)| label.contains("*.vue"))
        .expect("*.vue row must exist");
    assert!(glob_row.1, "*.vue row must show as firing");
}

#[test]
fn explain_reports_pending_not_fabricated_no_match_when_atom_unindexed() {
    let sig = sig_with("/does/not/exist/pending-repo", &[]);
    let detect = with_globs(&["*.tsx"]);
    let working = one_profile("frontend", &[], detect.clone());
    let rep = explain_repo(&sig, "frontend", &detect, &working);
    assert!(!rep.overall, "an unindexed atom is not a decisive match");
    assert!(rep.this_pending, "unindexed atom must mark this profile pending");
    assert!(rep.cross_pending, "the only profile in the config is pending");
}

#[test]
fn render_pending_shows_honest_line_not_fabricated_no_match() {
    let sig = sig_with("/does/not/exist/pending-repo", &[]);
    let detect = with_globs(&["*.tsx"]);
    let working = one_profile("frontend", &[], detect.clone());
    let report = explain_repo(&sig, "frontend", &detect, &working);
    let ex = ExplainState {
        repos: vec![sig.path.clone()],
        cursor: 0,
        report,
    };
    let page = explain::render(&ex, 20);
    let text = format!("{}\n{}", texts(&page.selector), texts(&page.report));
    assert!(text.contains("pending"), "{text}");
    assert!(!text.contains("Matches no profile"), "{text}");
    assert!(!text.contains("no rule fires"), "{text}");
}

// The index

#[test]
fn atoms_are_named_by_kind() {
    assert_eq!(atom_file("go.mod"), "file:go.mod");
    assert_eq!(atom_glob("*.rs"), "glob:*.rs");
    assert_eq!(atom_dep("react"), "dep:react");
    assert_eq!(atom_keyword("openai"), "kw:openai");
    assert_eq!(atom_content("a", "b"), "content:a → b");
}

#[test]
fn one_true_answer_decides_and_a_missing_one_leaves_it_open() {
    let working = one_profile("rust", &[], with_files(&["Cargo.toml", "rust-toolchain"]));
    let decided = sig_with("/a", &[("file:Cargo.toml", true)]);
    assert_eq!(detect_from_signal(&decided, &working), (names(&["rust"]), false));
    let open = sig_with("/b", &[("file:Cargo.toml", false)]);
    assert_eq!(detect_from_signal(&open, &working), (vec![], true));
    let closed = sig_with("/c", &[("file:Cargo.toml", false), ("file:rust-toolchain", false)]);
    assert_eq!(detect_from_signal(&closed, &working), (vec![], false));
}

#[test]
fn path_prefix_needs_no_index() {
    let mut d = Detect::default();
    d.path_prefixes = names(&["/workspace/"]);
    let working = one_profile("work", &[], d);
    let (found, pending) = detect_from_signal_explained(&sig_with("/workspace/a", &[]), &working);
    assert!(!pending);
    assert_eq!(found.len(), 1);
    assert_eq!(found[0].1.rule, "path_prefix");
    assert_eq!(found[0].1.value, Some("/workspace/".to_string()));
}

#[test]
fn override_names_pin_the_profiles() {
    let mut working = one_profile("rust", &[], with_files(&["Cargo.toml"]));
    working.profiles.insert("web".to_string(), Profile::default());
    let mut sig = sig_with("/a", &[("file:Cargo.toml", true)]);
    sig.override_names = Some(names(&["web", "gone"]));
    assert_eq!(detect_from_signal(&sig, &working), (names(&["web"]), false));
}
