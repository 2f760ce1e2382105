use cc_loadout::namemap::NameMap;
use cc_loadout::profile::config::{ContentRule, Detect, Profile, Profiles};
use cc_loadout::profile::discover::{
    Inventory, PluginInfo, RepoSignal, SharedSignals, SuggestedProfile,
};
use cc_loadout::profile::scan_cache::{seed, ScanCache, SCAN_CACHE_VERSION};
use cc_loadout::tui::app::{
    App, Drained, Effect, Poll, Startup, Step, MIN_SPINNER_MS, TOAST_MS,
};
use cc_loadout::tui::ctx::AppCtx;
use cc_loadout::tui::job::{Detached, DetachedKind, IndexOutcome, Job, JobResult};
use cc_loadout::tui::key::{KeyCode, KeyEvent};
use cc_loadout::tui::layout::{content_area, Rect};
use cc_loadout::tui::line::{text_of, Line};
use cc_loadout::tui::profile::detail::DetailBody;
use cc_loadout::tui::profile::rules_page::RulesPage;
use cc_loadout::tui::profile::tab_page::ProfilePage;
use cc_loadout::tui::snapshot::{Kind, Snapshot, TaskRow};
use cc_loadout::tui::view::Action;
use cc_loadout::tui::work::{
    commit_result, draft_result, index_result, label, prime_result, remove_account_result,
    remove_task_result, rescan_result, rescan_toast, run_task_result, schedule_result,
    switch_result, CommitReport, PrimeOutcome, Switched, Walk,
};
use cc_loadout::tui::TAB_TASKS;

const NOW: i64 = 1_000_000_000;

fn names(v: &[&str]) -> Vec<String> {
    v.iter().map(|s| s.to_string()).collect()
}

fn texts(lines: &Vec<Line>) -> String {
    lines.iter().map(text_of).collect::<Vec<String>>().join("\n")
}

#[derive(Debug)]
enum Tool {
    Claude,
}

fn assistant() -> String {
    format!("{:?}", Tool::Claude)
}

fn ctx() -> AppCtx {
    AppCtx {
        home: "/home/me".to_string(),
        data_root: "/data".to_string(),
        cfg_path: "/home/me/profiles.json".to_string(),
        registry_path: "/home/me/installed_plugins.json".to_string(),
        cwd: "/home/me".to_string(),
        assistant: assistant(),
        program: assistant().to_lowercase(),
    }
}

fn snap() -> Snapshot {
    Snapshot {
        accounts: vec![],
        cwd: "/home/me".to_string(),
        cwd_name: Some("me".to_string()),
        profiles_json_exists: false,
        matched: vec![],
        applied_count: 0,
        priming: vec![],
        schedule: NameMap::new(),
        global_enabled: vec![],
        tasks: vec![],
        schedule_drift: false,
        scope_drift: vec![],
    }
}

fn inventory(keys: &[&str]) -> Inventory {
    Inventory {
        plugins: keys
            .iter()
            .map(|p| PluginInfo {
                key: p.to_string(),
                scopes: vec![],
                description: None,
            })
            .collect(),
        repos: vec![],
        suggested_profiles: vec![],
    }
}

fn startup(config: Option<Profiles>, cache: Option<ScanCache>) -> Startup {
    let config_existed = config.is_some();
    Startup {
        inv: inventory(&[]),
        config,
        config_existed,
        claude_available: false,
        default_root: "/home".to_string(),
        cache,
    }
}

fn empty_app(tab: usize) -> App {
    App::new(ctx(), snap(), startup(None, None), tab).0
}

fn press(app: &mut App, code: KeyCode) -> Step {
    app.handle_key(KeyEvent::from(code), false, NOW)
}

fn typed(app: &mut App, s: &str) {
    for c in s.chars() {
        press(app, KeyCode::Char(c));
    }
}

fn detect_files(files: &[&str]) -> Detect {
    let mut d = Detect::default();
    d.marker_files = names(files);
    d
}

fn detect_globs(globs: &[&str]) -> Detect {
    let mut d = Detect::default();
    d.marker_globs = names(globs);
    d
}

fn config(roots: &[&str], name: &str, detect: Detect) -> Profiles {
    let mut p = Profiles::default();
    p.scan_roots = names(roots);
    p.profiles.insert(
        name.to_string(),
        Profile {
            plugins: vec![],
            detect,
        },
    );
    p
}

fn rust_config() -> Profiles {
    config(&[], "rust", detect_files(&["Cargo.toml"]))
}

fn app_with(cfg: Profiles, cache: Option<ScanCache>, tab: usize) -> App {
    App::new(ctx(), snap(), startup(Some(cfg), cache), tab).0
}

fn app_with_profile(tab: usize) -> App {
    app_with(rust_config(), None, tab)
}

fn signal(path: &str, hits: &[(&str, bool)]) -> RepoSignal {
    let mut rule_hits = NameMap::new();
    for (a, b) in hits {
        rule_hits.insert(a.to_string(), *b);
    }
    RepoSignal {
        path: path.to_string(),
        marker_files: vec![],
        marker_globs: vec![],
        package_json_deps: vec![],
        languages: vec![],
        rule_hits,
        override_names: None,
    }
}

fn cached(
    version: u32,
    roots: &[&str],
    repo: RepoSignal,
    uncovered: Option<Vec<String>>,
) -> Option<ScanCache> {
    Some(ScanCache {
        version,
        roots: names(roots),
        repos: vec![repo],
        uncovered,
        scanned_at: 1_700_000_000,
    })
}

fn page_text(app: &App) -> String {
    match app.profile.render(&app.ctx, &app.snap, 90, 20, NOW) {
        ProfilePage::List { lines, .. } => texts(&lines),
        ProfilePage::Text { lines } => texts(&lines),
        ProfilePage::ByPlugin(p) => format!(
            "{}\n{}\n{}",
            texts(&p.header),
            texts(&p.list),
            texts(&p.description)
        ),
        ProfilePage::Detail(p) => {
            let body = match &p.body {
                DetailBody::Prompt => String::new(),
                DetailBody::Plugins { lines, .. } => texts(lines),
                DetailBody::Rules(RulesPage::Pick { lines, .. }) => texts(lines),
                DetailBody::Rules(RulesPage::Builder { lines }) => texts(lines),
                DetailBody::Rules(RulesPage::Rows { lines, preview, .. }) => {
                    format!("{}\n{}", texts(lines), texts(preview))
                }
                DetailBody::Explain(e) => format!("{}\n{}", texts(&e.selector), texts(&e.report)),
            };
            format!("{}\n{}", texts(&p.head), body)
        }
        ProfilePage::Apply(p) => format!(
            "{}\n{}\n{}",
            text_of(&p.title),
            text_of(&p.age),
            texts(&p.body)
        ),
    }
}

fn open_rust_detail_rules(app: &mut App) {
    press(app, KeyCode::Char('v'));
    press(app, KeyCode::Down);
    press(app, KeyCode::Enter);
    press(app, KeyCode::Tab);
}

fn bucket(name: &str, files: &[&str]) -> SuggestedProfile {
    SuggestedProfile {
        name: name.to_string(),
        repos: vec![],
        shared_signals: SharedSignals {
            marker_files: names(files),
            marker_globs: vec![],
            package_json_deps: vec![],
        },
    }
}

/// Looks after the work that holds the screen, while all detached work goes on.
fn bring(app: &mut App, poll: Poll, at_ms: i64) -> Drained {
    let polls = app.detached.iter().map(|_| Poll::Pending).collect();
    app.drain_jobs(poll, polls, at_ms, at_ms)
}

/// Presses `s` and hands the hub what a walk of the roots found; returns what is kept.
fn rescan(app: &mut App, walk: Walk) -> ScanCache {
    match press(app, KeyCode::Char('s')).effect {
        Effect::Run(Action::Rescan { roots, working }) => {
            assert!(app.job.is_some(), "a rescan holds the screen");
            let (result, cache) = rescan_result(&working, roots, walk);
            bring(app, Poll::Done(result), NOW + MIN_SPINNER_MS);
            assert!(app.job.is_none());
            cache
        }
        other => panic!("expected a rescan, got {other:?}"),
    }
}

fn walk_of(repo: RepoSignal, suggested: Vec<SuggestedProfile>) -> Walk {
    Walk {
        repos: vec![repo],
        suggested,
        budget_hits: 0,
        scanned_at: 999_990,
    }
}

fn committed(app: &mut App) -> Profiles {
    press(app, KeyCode::Char('w'));
    match press(app, KeyCode::Enter).effect {
        Effect::Run(Action::Commit { cfg, .. }) => cfg,
        other => panic!("expected a commit, got {other:?}"),
    }
}

#[test]
fn renders_header_and_accent_tabline() {
    let app = empty_app(0);
    let text = format!(
        "{}\n{}\n{}",
        texts(&app.header(70, 13, 46, 40)),
        texts(&app.tab_strip()),
        text_of(&app.footer())
    );
    assert!(text.contains("cc-loadout"), "{text}");
    assert!(text.contains("Overview"), "{text}");
    assert!(text.contains("⇥ tab"), "{text}");
    assert!(text.contains("13:46:40"), "{text}");
}

#[test]
fn content_area_caps_width_left_aligned() {
    let a = content_area(Rect {
        x: 0,
        y: 0,
        width: 200,
        height: 50,
    });
    assert_eq!(a.width, 96);
    assert_eq!(a.x, 0, "left-aligned, not centered");
    assert_eq!(a.y, 0);
    assert_eq!(a.height, 50);
    let b = content_area(Rect {
        x: 0,
        y: 0,
        width: 70,
        height: 50,
    });
    assert_eq!(b.width, 70);
    assert_eq!(b.x, 0);
}

#[test]
fn new_selects_initial_tab() {
    assert_eq!(empty_app(1).active_index(), 1);
}

#[test]
fn new_falls_back_to_the_last_tab() {
    assert_eq!(empty_app(99).active_index(), TAB_TASKS);
}

#[test]
fn tab_cycles_and_q_quits() {
    let mut app = empty_app(0);
    assert_eq!(app.active_index(), 0);
    press(&mut app, KeyCode::Tab);
    assert_eq!(app.active_index(), 1);
    press(&mut app, KeyCode::BackTab);
    assert_eq!(app.active_index(), 0);
    press(&mut app, KeyCode::BackTab);
    assert_eq!(app.active_index(), 4, "wraps to last tab");
    press(&mut app, KeyCode::Tab);
    assert_eq!(app.active_index(), 0, "wraps back to first");
    assert!(!app.should_quit);
    press(&mut app, KeyCode::Char('q'));
    assert!(app.should_quit);
}

#[test]
fn relaunch_action_sets_flag() {
    let mut app = empty_app(0);
    assert!(!app.relaunch);
    app.apply_action(Action::RelaunchClaude, true, NOW);
    assert!(app.relaunch);
}

#[test]
fn relaunch_key_without_claude_only_says_so() {
    let mut app = empty_app(0);
    press(&mut app, KeyCode::Char('R'));
    assert!(!app.relaunch);
    assert_eq!(
        app.toast.as_deref(),
        Some(
            format!(
                "`{}` not on PATH — cannot relaunch",
                assistant().to_lowercase()
            )
            .as_str()
        )
    );
    app.handle_key(KeyEvent::from(KeyCode::Char('R')), true, NOW);
    assert!(app.relaunch);
}

#[test]
fn refresh_key_asks_for_a_reload() {
    let mut app = empty_app(0);
    let step = press(&mut app, KeyCode::Char('r'));
    assert!(matches!(step.effect, Effect::Reload));
    assert!(!step.save);
}

#[test]
fn switching_accounts_holds_the_screen_under_a_label() {
    let mut app = empty_app(0);
    let effect = app.apply_action(Action::Switch("work".to_string()), false, 12_345);
    assert!(matches!(effect, Effect::Run(Action::Switch(_))));
    let job = app.job.as_ref().unwrap();
    assert_eq!(job.label, "switching to 'work'");
    assert_eq!(job.started_ms, 12_000);
    bring(
        &mut app,
        Poll::Done(switch_result(Ok(Switched {
            to: "work".to_string(),
            warning: None,
        }))),
        NOW,
    );
    assert!(app.toast.as_deref().unwrap().contains("switched to 'work'"));
}

#[test]
fn profile_rule_edit_autosaves_without_apply() {
    let mut app = app_with_profile(3);
    open_rust_detail_rules(&mut app);
    press(&mut app, KeyCode::Char('a'));
    press(&mut app, KeyCode::Enter);
    typed(&mut app, "/workspace/");
    app.unsaved();
    let step = press(&mut app, KeyCode::Enter);
    assert!(step.save, "a key that a tab had is followed by a save");
    let (cfg, _) = app.unsaved();
    assert_eq!(
        cfg.unwrap().profiles.get("rust").unwrap().detect.path_prefixes,
        names(&["/workspace/"])
    );
    assert!(app.unsaved().0.is_none(), "saved once");
}

#[test]
fn rescan_toast_appends_budget_suffix_only_when_nonzero() {
    assert_eq!(rescan_toast(3, 0), "scanned 3 repos");
    assert_eq!(
        rescan_toast(3, 2),
        "scanned 3 repos \u{b7} 2 repos hit walk budget"
    );
    assert_eq!(rescan_toast(0, 0), "scanned 0 repos");
}

#[test]
fn rescan_indexes_glob_rule_atoms_and_leaves_the_rules_count_definite() {
    let mut app = app_with(
        config(&["/work"], "frontend", detect_globs(&["*.svelte"])),
        None,
        3,
    );
    let cache = rescan(
        &mut app,
        walk_of(signal("/work/svc", &[("glob:*.svelte", true)]), vec![]),
    );
    assert_eq!(cache.version, SCAN_CACHE_VERSION);
    let repo = cache.repos.iter().find(|r| r.path.ends_with("/svc")).unwrap();
    assert_eq!(repo.rule_hits.get("glob:*.svelte"), Some(&true));
    open_rust_detail_rules(&mut app);
    let text = page_text(&app);
    assert!(text.contains("matches 1 of 1"), "{text}");
    assert!(!text.contains("matches \u{2026}"), "{text}");
}

#[test]
fn rescan_writes_scan_cache() {
    let mut app = app_with(config(&["/work"], "rust", Detect::default()), None, 3);
    let cache = rescan(
        &mut app,
        walk_of(signal("/work/svc", &[]), vec![bucket("rust", &["Cargo.toml"])]),
    );
    assert!(cache.repos.iter().any(|r| r.path.ends_with("/svc")));
    assert!(cache.scanned_at > 0, "cache must record a scan time");
    assert_eq!(cache.roots, names(&["/work"]));
}

fn commit_tsx(app: &mut App) -> Step {
    press(app, KeyCode::Char('a'));
    press(app, KeyCode::Down);
    press(app, KeyCode::Down);
    press(app, KeyCode::Enter);
    typed(app, "*.tsx");
    press(app, KeyCode::Enter)
}

fn web_app() -> App {
    app_with(
        config(&["/root"], "web", Detect::default()),
        cached(
            SCAN_CACHE_VERSION,
            &["/root"],
            signal("/root/repo1", &[]),
            Some(names(&["/root/repo1"])),
        ),
        3,
    )
}

#[test]
fn index_atoms_dispatches_detached_job_keys_keep_working_and_cache_updates() {
    let mut app = web_app();
    open_rust_detail_rules(&mut app);
    let (atoms, repos) = match commit_tsx(&mut app).effect {
        Effect::RunDetached(Action::IndexAtoms { atoms, repos }) => (atoms, repos),
        other => panic!("expected an index batch, got {other:?}"),
    };
    assert_eq!(repos, names(&["/root/repo1"]));
    assert_eq!(app.detached.len(), 1, "the index job must be detached, not modal");
    assert!(app.job.is_none(), "it must never occupy the modal job slot");
    press(&mut app, KeyCode::Esc);
    assert_eq!(app.active_index(), 3, "still on Profile after leaving Detail");
    press(&mut app, KeyCode::Tab);
    assert_eq!(app.active_index(), 4, "Tab must still cycle tabs while it runs");
    press(&mut app, KeyCode::BackTab);
    assert_eq!(app.active_index(), 3);
    let mut answers = NameMap::new();
    answers.insert("glob:*.tsx".to_string(), true);
    let mut hits = NameMap::new();
    hits.insert("/root/repo1".to_string(), answers);
    app.collect_detached(vec![Poll::Done(index_result(atoms, hits))], NOW);
    assert!(app.detached.is_empty(), "the job result must have been delivered");
    assert_eq!(
        app.profile.inv.repos[0].rule_hits.get("glob:*.tsx"),
        Some(&true)
    );
    press(&mut app, KeyCode::Enter);
    press(&mut app, KeyCode::Tab);
    let text = page_text(&app);
    assert!(text.contains("matches 1 of 1"), "{text}");
}

#[test]
fn index_atoms_toast_names_atom_and_match_count_for_a_single_atom() {
    let mut hits = NameMap::new();
    for (path, present) in [("/hit", true), ("/miss", false)] {
        let mut answers = NameMap::new();
        answers.insert("file:go.mod".to_string(), present);
        hits.insert(path.to_string(), answers);
    }
    let result = index_result(names(&["file:go.mod"]), hits);
    assert_eq!(result.toast, "indexed file:go.mod \u{b7} 1 repos match");
    let outcome = result.index.expect("IndexOutcome must be set");
    assert_eq!(outcome.atoms, names(&["file:go.mod"]));
    assert_eq!(
        outcome.hits.get("/hit").unwrap().get("file:go.mod"),
        Some(&true)
    );
    assert_eq!(
        outcome.hits.get("/miss").unwrap().get("file:go.mod"),
        Some(&false)
    );
}

#[test]
fn index_atoms_toast_reports_pattern_count_for_a_batch() {
    let result = index_result(names(&["file:a", "file:b"]), NameMap::new());
    assert_eq!(result.toast, "indexed 2 patterns");
}

#[test]
fn index_atoms_worker_death_clears_indexing_and_retries_the_batch() {
    let mut app = web_app();
    open_rust_detail_rules(&mut app);
    commit_tsx(&mut app);
    assert_eq!(app.detached.len(), 1, "the real index job must be detached");
    assert!(app.job.is_none());
    app.collect_detached(vec![Poll::Died], NOW);
    assert!(app.detached.is_empty(), "dead work must not be kept forever");
    assert!(app.toast.as_deref().unwrap_or("").to_lowercase().contains("index"));
    let step = press(&mut app, KeyCode::Tab);
    assert!(matches!(
        step.effect,
        Effect::RunDetached(Action::IndexAtoms { .. })
    ));
    assert_eq!(app.detached.len(), 1, "the batch must be sent again");
}

fn workspace_cache(roots: &str, uncovered: Option<Vec<String>>) -> Option<ScanCache> {
    let mut repo = signal("/workspace/a", &[]);
    repo.marker_files = names(&["Cargo.toml"]);
    cached(SCAN_CACHE_VERSION, &[roots], repo, uncovered)
}

fn workspace_config() -> Profiles {
    Profiles {
        scan_roots: names(&["/workspace"]),
        ..Default::default()
    }
}

#[test]
fn new_seeds_repos_from_scan_cache_when_roots_match() {
    let app = app_with(
        workspace_config(),
        workspace_cache("/workspace", Some(vec![])),
        3,
    );
    let text = page_text(&app);
    assert!(text.contains("1 repos"), "cached repo count shown on reopen: {text}");
}

#[test]
fn new_ignores_scan_cache_on_roots_mismatch() {
    let app = app_with(
        workspace_config(),
        workspace_cache("/elsewhere", Some(vec![])),
        3,
    );
    let text = page_text(&app);
    assert!(!text.contains("1 repos"), "stale-root cache must be ignored: {text}");
}

#[test]
fn detail_rules_count_line_prompts_to_index_an_unindexed_atom() {
    let mut app = app_with(
        config(&["/workspace"], "rust", detect_globs(&["*.tsx"])),
        cached(
            SCAN_CACHE_VERSION,
            &["/workspace"],
            signal("/workspace/does-not-exist-a", &[]),
            Some(vec![]),
        ),
        3,
    );
    open_rust_detail_rules(&mut app);
    assert!(app.job.is_none(), "opening Detail must not start work");
    let text = page_text(&app);
    assert!(text.contains("matches \u{2026} of"), "{text}");
    assert!(text.contains("press s to index"), "{text}");
}

#[test]
fn detail_rules_count_line_shows_a_definite_number_when_fully_indexed() {
    let mut app = app_with(
        config(&["/workspace"], "rust", detect_files(&["Cargo.toml"])),
        cached(
            SCAN_CACHE_VERSION,
            &["/workspace"],
            signal("/workspace/does-not-exist-a", &[("file:Cargo.toml", true)]),
            Some(vec![]),
        ),
        3,
    );
    open_rust_detail_rules(&mut app);
    let text = page_text(&app);
    assert!(text.contains("matches 1 of 1"), "{text}");
    assert!(text.contains("as of"), "{text}");
}

#[test]
fn recompute_persists_uncovered_into_scan_cache() {
    let mut app = app_with(
        workspace_config(),
        workspace_cache("/workspace", Some(vec![])),
        3,
    );
    app.profile.accept_uncovered(names(&["/workspace/a"]));
    let (_, uncovered) = app.unsaved();
    let mut cache = workspace_cache("/workspace", Some(vec![])).unwrap();
    assert!(cache.note_uncovered(uncovered.unwrap()));
    assert_eq!(cache.uncovered, Some(names(&["/workspace/a"])));
    assert!(!cache.note_uncovered(names(&["/workspace/a"])), "nothing new");
}

#[test]
fn new_does_not_spawn_a_rebuild_for_a_current_version_cache_with_uncovered_none() {
    let (mut app, rebuild) = App::new(
        ctx(),
        snap(),
        startup(Some(workspace_config()), workspace_cache("/workspace", None)),
        1,
    );
    assert!(rebuild.is_none());
    assert!(app.detached.is_empty(), "no rebuild for a same-version cache");
    assert!(app.profile.uncovered_pending, "coverage is not known yet");
    assert!(app.unsaved().1.is_none(), "the cache is left untouched");
}

#[test]
fn new_does_not_backfill_when_uncovered_already_computed() {
    let (mut app, rebuild) = App::new(
        ctx(),
        snap(),
        startup(
            Some(workspace_config()),
            workspace_cache("/workspace", Some(vec![])),
        ),
        1,
    );
    assert!(rebuild.is_none());
    assert!(app.detached.is_empty());
    assert!(!app.profile.uncovered_pending);
    assert!(app.unsaved().1.is_none());
}

fn old_index_app(uncovered: Option<Vec<String>>) -> (App, Option<Action>) {
    App::new(
        ctx(),
        snap(),
        startup(
            Some(config(&["/work"], "frontend", detect_globs(&["*.svelte"]))),
            cached(0, &["/work"], signal("/work/svc", &[]), uncovered),
        ),
        3,
    )
}

fn finish_rebuild(app: &mut App, rebuild: Option<Action>) -> ScanCache {
    match rebuild {
        Some(Action::Rescan { roots, working }) => {
            let (result, cache) = rescan_result(
                &working,
                roots,
                walk_of(signal("/work/svc", &[("glob:*.svelte", true)]), vec![]),
            );
            app.collect_detached(vec![Poll::Done(result)], NOW);
            cache
        }
        other => panic!("expected a rebuild, got {other:?}"),
    }
}

#[test]
fn v1_cache_with_uncovered_some_spawns_a_detached_rebuild_and_the_banner_clears_once_it_lands() {
    let (mut app, rebuild) = old_index_app(Some(vec![]));
    assert_eq!(
        app.detached,
        vec![Detached {
            kind: DetachedKind::Rebuild
        }]
    );
    let text = page_text(&app);
    assert!(text.contains("rebuilding in background"), "{text}");
    let cache = finish_rebuild(&mut app, rebuild);
    let text = page_text(&app);
    assert!(!text.contains("rebuilding in background"), "{text}");
    assert_eq!(cache.version, SCAN_CACHE_VERSION);
    let repo = cache.repos.iter().find(|r| r.path.ends_with("/svc")).unwrap();
    assert_eq!(repo.rule_hits.get("glob:*.svelte"), Some(&true));
}

#[test]
fn v1_cache_with_uncovered_none_also_spawns_exactly_one_rebuild_job() {
    let (mut app, rebuild) = old_index_app(None);
    assert_eq!(app.detached.len(), 1);
    let text = page_text(&app);
    assert!(text.contains("rebuilding in background"), "{text}");
    let cache = finish_rebuild(&mut app, rebuild);
    let text = page_text(&app);
    assert!(!text.contains("rebuilding in background"), "{text}");
    assert_eq!(cache.version, SCAN_CACHE_VERSION);
}

#[test]
fn rebuild_worker_death_clears_the_banner_and_leaves_no_wedged_detached_entry() {
    let (mut app, _rebuild) = old_index_app(Some(vec![]));
    assert_eq!(app.detached.len(), 1, "the real rebuild job must be detached");
    app.collect_detached(vec![Poll::Died], NOW);
    assert!(app.detached.is_empty());
    let text = page_text(&app);
    assert!(!text.contains("rebuilding in background"), "{text}");
    assert!(app.toast.as_deref().unwrap_or("").to_lowercase().contains("rebuild"));
}

#[test]
fn tick_increments_frame() {
    let mut app = empty_app(0);
    assert_eq!(app.frame, 0);
    app.tick();
    assert_eq!(app.frame, 1);
    app.tick();
    assert_eq!(app.frame, 2);
}

#[test]
fn animating_true_when_toast_set() {
    let mut app = empty_app(0);
    assert!(!app.animating(), "no toast, no job → idle");
    assert_eq!(app.frame_ms(), 1000);
    app.set_toast("hello".to_string(), NOW);
    assert!(app.animating(), "toast set → animating");
    assert_eq!(app.frame_ms(), 100);
    app.toast = None;
    assert!(!app.animating(), "toast cleared → idle");
}

#[test]
fn toasts_go_after_their_time() {
    let mut app = empty_app(0);
    app.set_toast("hello".to_string(), NOW);
    app.expire_toast(NOW + TOAST_MS - 1);
    assert!(app.toast.is_some());
    app.expire_toast(NOW + TOAST_MS + 1);
    assert!(app.toast.is_none());
}

fn job(label: &str, started_ms: i64) -> Option<Job> {
    Some(Job {
        label: label.to_string(),
        started_ms,
    })
}

fn says(toast: &str) -> JobResult {
    JobResult::says(toast.to_string(), false)
}

#[test]
fn animating_true_when_job_set() {
    let mut app = empty_app(0);
    assert!(!app.animating());
    app.job = job("test", 0);
    assert!(app.animating(), "job present → animating");
    app.job = None;
    assert!(!app.animating());
}

#[test]
fn app_new_falls_back_on_malformed_profiles_json() {
    let mut start = startup(None, None);
    start.config_existed = true;
    let (app, rebuild) = App::new(ctx(), snap(), start, 0);
    assert!(rebuild.is_none());
    assert!(app.profile.working.profiles.is_empty());
}

#[test]
fn profile_board_does_not_capture_raw_input() {
    let mut app = empty_app(3);
    press(&mut app, KeyCode::Char('q'));
    assert!(app.should_quit, "'q' on the board must quit");
}

#[test]
fn draft_action_with_no_claude_toasts_and_does_not_spawn() {
    let mut app = empty_app(0);
    let effect = app.apply_action(
        Action::DraftWithClaude {
            inv: inventory(&[]),
            scan_roots: vec![],
        },
        false,
        NOW,
    );
    assert!(matches!(effect, Effect::Nothing));
    assert!(app.job.is_none(), "no job must be spawned");
    let missing = format!("{} not found", assistant().to_lowercase());
    assert!(app.toast.as_deref().unwrap_or("").contains(&missing));
}

#[test]
fn new_defers_repo_scan_until_explicit_s() {
    let mut start = startup(None, None);
    start.inv = inventory(&["serena@official"]);
    start.default_root = "/work".to_string();
    let mut app = App::new(ctx(), snap(), start, 3).0;
    let text = page_text(&app);
    assert!(text.contains("serena@official"), "lists the installed plugin: {text}");
    assert!(text.contains("All plugins"), "shows the by-plugin header");
    press(&mut app, KeyCode::Char('v'));
    let by_profile = page_text(&app);
    assert!(!by_profile.contains("Cargo.toml"), "{by_profile}");
    rescan(
        &mut app,
        walk_of(signal("/work/svc", &[]), vec![bucket("rust", &["Cargo.toml"])]),
    );
    let after_scan = page_text(&app);
    assert!(after_scan.contains("Cargo.toml"), "{after_scan}");
}

#[test]
fn render_does_not_panic_at_small_heights() {
    for h in [1u16, 2, 3, 4] {
        let app = empty_app(3);
        assert!(matches!(
            app.profile.render(&app.ctx, &app.snap, 70, h, NOW),
            ProfilePage::ByPlugin(_)
        ));
        let mut detail = app_with_profile(3);
        open_rust_detail_rules(&mut detail);
        assert!(matches!(
            detail.profile.render(&detail.ctx, &detail.snap, 70, h, NOW),
            ProfilePage::Detail(_)
        ));
    }
}

#[test]
fn drain_jobs_disconnected_clears_job() {
    let mut app = empty_app(0);
    app.job = job("x", 0);
    bring(&mut app, Poll::Died, i64::MAX / 2);
    assert!(app.job.is_none(), "job must be cleared when its worker is gone");
    assert_eq!(app.toast.as_deref(), Some("operation aborted"));
}

#[test]
fn spinner_is_held_for_the_minimum_duration() {
    let mut app = empty_app(0);
    let started = 10_000_000i64;
    app.job = job("x", started);
    assert!(!app.may_collect(started + 100), "held within the minimum");
    assert!(app.spinner(started + 100).is_some());
    let drained = bring(&mut app, Poll::Done(says("done")), started + 100);
    assert!(app.job.is_some(), "spinner must persist within MIN_SPINNER_MS");
    assert!(app.toast.is_none(), "result must not land within the floor");
    assert!(!drained.reload);
    let held = drained.held.expect("the result is handed back");
    assert!(app.may_collect(started + MIN_SPINNER_MS + 500));
    let drained = bring(&mut app, held, started + MIN_SPINNER_MS + 500);
    assert!(drained.held.is_none());
    assert!(app.job.is_none(), "job clears once the floor elapses");
    assert_eq!(app.toast.as_deref(), Some("done"));
    assert!(app.spinner(started).is_none());
}

#[test]
fn the_hold_of_the_spinner_ends_to_the_millisecond() {
    let mut app = empty_app(0);
    app.job = job("x", 5_000);
    app.detached = vec![Detached {
        kind: DetachedKind::Generic,
    }];
    let drained = app.drain_jobs(
        Poll::Died,
        vec![Poll::Done(says("beside"))],
        5_000 + MIN_SPINNER_MS - 1,
        NOW,
    );
    assert!(matches!(drained.held, Some(Poll::Died)));
    assert!(app.job.is_some());
    assert_eq!(app.toast.as_deref(), Some("beside"), "detached work is not held");
    assert!(app.detached.is_empty());
    let drained = bring(&mut app, Poll::Died, 5_000 + MIN_SPINNER_MS);
    assert!(drained.held.is_none());
    assert!(app.job.is_none());
    assert_eq!(app.toast.as_deref(), Some("operation aborted"));
}

#[test]
fn without_work_on_the_screen_nothing_is_taken_over() {
    let mut app = empty_app(0);
    let drained = bring(&mut app, Poll::Done(says("stray")), NOW);
    assert!(drained.held.is_none() && !drained.reload);
    assert!(app.toast.is_none());
}

#[test]
fn unfinished_work_stays_where_it_is() {
    let mut app = empty_app(0);
    app.job = job("x", 0);
    assert!(!bring(&mut app, Poll::Pending, NOW).reload);
    assert!(app.job.is_some());
    app.detached = vec![
        Detached {
            kind: DetachedKind::Generic,
        },
        Detached {
            kind: DetachedKind::IndexAtoms,
        },
    ];
    app.collect_detached(vec![Poll::Done(says("a")), Poll::Pending], NOW);
    assert_eq!(
        app.detached,
        vec![Detached {
            kind: DetachedKind::IndexAtoms
        }]
    );
}

#[test]
fn r_reaches_detail_rename_via_routing() {
    let mut app = app_with_profile(3);
    press(&mut app, KeyCode::Char('v'));
    press(&mut app, KeyCode::Down);
    press(&mut app, KeyCode::Enter);
    assert!(
        !app.active_claims_key(KeyCode::Char('x')),
        "Detail normal does not claim 'x'"
    );
    press(&mut app, KeyCode::Char('r'));
    assert!(
        app.active_claims_key(KeyCode::Char('x')),
        "Detail rename (text entry) claims 'x'"
    );
}

#[test]
fn tab_in_detail_does_not_switch_top_tab() {
    let mut app = app_with_profile(3);
    press(&mut app, KeyCode::Char('v'));
    press(&mut app, KeyCode::Down);
    press(&mut app, KeyCode::Enter);
    assert_eq!(app.active_index(), 3, "in Detail before Tab");
    press(&mut app, KeyCode::Tab);
    assert_eq!(app.active_index(), 3, "Tab in Detail must NOT switch the tab");
}

#[test]
fn esc_in_apply_goes_back_not_quit() {
    let mut app = app_with_profile(3);
    press(&mut app, KeyCode::Char('v'));
    press(&mut app, KeyCode::Char('w'));
    press(&mut app, KeyCode::Esc);
    assert!(!app.should_quit, "Esc in Apply must NOT quit the app");
}

#[test]
fn arrows_no_longer_switch_top_tabs() {
    let mut app = app_with_profile(0);
    press(&mut app, KeyCode::Right);
    assert_eq!(app.active_index(), 0, "→ must not switch tabs");
    press(&mut app, KeyCode::Left);
    assert_eq!(app.active_index(), 0, "← must not switch tabs");
}

#[test]
fn tab_still_cycles_tabs_at_root() {
    let mut app = app_with_profile(0);
    press(&mut app, KeyCode::Tab);
    assert_eq!(app.active_index(), 1, "Tab cycles tabs when unclaimed");
}

#[test]
fn esc_at_root_still_quits() {
    let mut app = app_with_profile(0);
    press(&mut app, KeyCode::Esc);
    assert!(app.should_quit, "Esc at a tab root (unclaimed) still quits");
}

#[test]
fn esc_detaches_job_and_result_is_delivered() {
    let mut app = empty_app(0);
    app.job = job("bg-work", 0);
    let step = press(&mut app, KeyCode::Esc);
    assert!(matches!(step.effect, Effect::Detach));
    assert!(app.job.is_none(), "job must be None after Esc");
    assert_eq!(app.detached.len(), 1, "the work goes on detached");
    app.collect_detached(vec![Poll::Done(says("bg-done"))], i64::MAX / 2);
    assert_eq!(app.toast.as_deref(), Some("bg-done"));
    assert!(app.detached.is_empty(), "detached must be empty after delivery");
}

#[test]
fn work_that_holds_the_screen_swallows_keys() {
    let mut app = empty_app(0);
    app.job = job("x", 0);
    press(&mut app, KeyCode::Tab);
    assert_eq!(app.active_index(), 0);
    press(&mut app, KeyCode::Char('q'));
    assert!(app.should_quit);
}

#[test]
fn contains_builder_tab_reaches_word_field_via_app() {
    let mut app = app_with_profile(3);
    open_rust_detail_rules(&mut app);
    assert_eq!(app.active_index(), 3, "in Detail/Rules before building");
    press(&mut app, KeyCode::Char('a'));
    press(&mut app, KeyCode::Down);
    press(&mut app, KeyCode::Down);
    press(&mut app, KeyCode::Down);
    press(&mut app, KeyCode::Enter);
    typed(&mut app, "requirements.txt");
    press(&mut app, KeyCode::Tab);
    assert_eq!(app.active_index(), 3, "Tab in the builder must NOT cycle tabs");
    typed(&mut app, "torch");
    press(&mut app, KeyCode::Enter);
    press(&mut app, KeyCode::Enter);
    let cfg = committed(&mut app);
    assert_eq!(
        cfg.profiles.get("rust").unwrap().detect.content,
        vec![ContentRule {
            file: "requirements.txt".to_string(),
            word: "torch".to_string(),
        }]
    );
}

#[test]
fn q_during_kind_pick_does_not_quit_via_app() {
    let mut app = app_with_profile(3);
    open_rust_detail_rules(&mut app);
    press(&mut app, KeyCode::Char('a'));
    assert!(app.active_claims_key(KeyCode::Char('q')), "builder must claim 'q'");
    press(&mut app, KeyCode::Char('q'));
    assert!(!app.should_quit, "'q' during kind-pick must NOT quit the app");
    assert_eq!(app.active_index(), 3, "still on the Profile tab");
}

fn scanned_svc(app: &mut App) {
    let mut repo = signal("/scan/svc", &[("file:Cargo.toml", true)]);
    repo.marker_files = names(&["Cargo.toml"]);
    press(app, KeyCode::Char('v'));
    rescan(app, walk_of(repo, vec![]));
    press(app, KeyCode::Down);
    press(app, KeyCode::Enter);
    press(app, KeyCode::Tab);
}

#[test]
fn f_prefills_rules_from_a_scanned_repo_via_app() {
    let mut app = app_with(config(&["/scan"], "rust", Detect::default()), None, 3);
    scanned_svc(&mut app);
    press(&mut app, KeyCode::Char('f'));
    press(&mut app, KeyCode::Enter);
    press(&mut app, KeyCode::Enter);
    let cfg = committed(&mut app);
    assert!(cfg
        .profiles
        .get("rust")
        .unwrap()
        .detect
        .marker_files
        .contains(&"Cargo.toml".to_string()));
}

#[test]
fn delete_in_rules_tab_does_not_remove_profile_via_app() {
    let mut app = app_with_profile(3);
    open_rust_detail_rules(&mut app);
    press(&mut app, KeyCode::Delete);
    assert_eq!(app.active_index(), 3, "Delete on a rule must stay in Detail");
    press(&mut app, KeyCode::Enter);
    let cfg = committed(&mut app);
    assert!(cfg.profiles.contains_key("rust"), "the profile must stay");
    assert!(cfg.profiles.get("rust").unwrap().detect.marker_files.is_empty());
}

#[test]
fn tab_during_repo_picker_keeps_picker_focus_via_app() {
    let mut app = app_with(config(&["/scan"], "rust", Detect::default()), None, 3);
    scanned_svc(&mut app);
    press(&mut app, KeyCode::Char('f'));
    press(&mut app, KeyCode::Tab);
    press(&mut app, KeyCode::Enter);
    press(&mut app, KeyCode::Enter);
    let cfg = committed(&mut app);
    assert!(cfg
        .profiles
        .get("rust")
        .unwrap()
        .detect
        .marker_files
        .contains(&"Cargo.toml".to_string()));
}

#[test]
fn tab_cycles_to_tasks_tab_at_index_4() {
    let mut app = app_with_profile(0);
    for _ in 0..4 {
        press(&mut app, KeyCode::Tab);
    }
    assert_eq!(app.active_index(), TAB_TASKS);
    assert_eq!(TAB_TASKS, 4);
}

#[test]
fn tasks_tab_d_y_spawns_remove_job_via_app() {
    let mut s = snap();
    s.tasks = vec![TaskRow {
        id: "test-task".to_string(),
        kind: Kind::Task,
        account: "work".to_string(),
        times: names(&["07:00"]),
        next_fire: None,
        model: None,
        last_status: None,
    }];
    let mut app = App::new(ctx(), s, startup(None, None), TAB_TASKS).0;
    press(&mut app, KeyCode::Char('d'));
    let step = press(&mut app, KeyCode::Char('y'));
    assert!(matches!(step.effect, Effect::Run(Action::RemoveTask(id)) if id == "test-task"));
    assert!(app.job.is_some(), "removing a task must start a job");
}

#[test]
fn explain_opens_and_esc_closes_without_quitting_via_app() {
    let mut app = app_with(
        config(&["/scan"], "rust", detect_files(&["Cargo.toml"])),
        None,
        3,
    );
    scanned_svc(&mut app);
    press(&mut app, KeyCode::Char('?'));
    assert!(app.active_claims_key(KeyCode::Esc), "overlay must claim Esc");
    press(&mut app, KeyCode::Esc);
    assert!(!app.should_quit, "Esc in the overlay must NOT quit the app");
    assert_eq!(app.active_index(), 3, "still on the Profile tab");
}

#[test]
fn zero_walk_after_repo_deletion_keeps_detail_edit_and_apply_definite() {
    let mut app = app_with(
        config(&["/work"], "frontend", detect_globs(&["*.vue"])),
        None,
        3,
    );
    rescan(
        &mut app,
        walk_of(
            signal("/work/svc", &[("glob:*.vue", true), ("file:Cargo.toml", false)]),
            vec![],
        ),
    );
    open_rust_detail_rules(&mut app);
    let text = page_text(&app);
    assert!(text.contains("matches 1 of 1"), "{text}");
    assert!(!text.contains('\u{2026}'), "{text}");
    press(&mut app, KeyCode::Char('a'));
    press(&mut app, KeyCode::Down);
    press(&mut app, KeyCode::Enter);
    typed(&mut app, "Cargo.toml");
    press(&mut app, KeyCode::Enter);
    press(&mut app, KeyCode::Enter);
    assert!(app.job.is_none() && app.detached.is_empty());
    press(&mut app, KeyCode::Char('w'));
    let text = page_text(&app);
    assert!(text.contains("APPLY"), "Apply must render: {text}");
    assert!(text.contains("frontend"), "{text}");
    assert!(!text.contains("pending index"), "{text}");
    assert!(!text.contains('\u{2026}'), "{text}");
}

// What background work reports

#[test]
fn commit_toast_appends_divergence_count_when_fresh_disagrees_with_preview() {
    let report = |diverged: usize| {
        commit_result(Ok(CommitReport {
            profiles_path: "/home/me/profiles.json".to_string(),
            repos_applied: 1,
            diverged,
            fresh_signals: vec![],
        }))
    };
    assert!(report(1).toast.contains("1 matched differently than preview"));
    assert!(!report(0).toast.contains("matched differently"));
    assert!(report(0).toast.contains("wrote"));
}

#[test]
fn commit_refreshes_the_index_without_ending_a_batch() {
    let result = commit_result(Ok(CommitReport {
        profiles_path: "p".to_string(),
        repos_applied: 1,
        diverged: 0,
        fresh_signals: vec![signal("/r", &[("file:go.mod", true)])],
    }));
    let index: IndexOutcome = result.index.unwrap();
    assert!(index.atoms.is_empty());
    assert_eq!(index.hits.get("/r").unwrap().get("file:go.mod"), Some(&true));
}

#[test]
fn failures_are_told_in_words() {
    let e = || "no".to_string();
    assert!(switch_result(Err(e())).toast.contains("no"));
    assert!(prime_result("a", Err(e())).toast.contains("no"));
    assert!(remove_account_result("a", Err(e())).toast.contains("no"));
    assert!(schedule_result(Err(e())).toast.contains("no"));
    assert!(run_task_result("t", Err(e())).toast.contains("no"));
    assert!(remove_task_result("t", Err(e())).toast.contains("no"));
    assert!(draft_result("X", Err(e())).toast.contains("no"));
    assert!(commit_result(Err(e())).toast.contains("no"));
}

#[test]
fn drafts_are_handed_on() {
    let draft = Profiles {
        universal: names(&["u@m"]),
        ..Default::default()
    };
    let result = draft_result(&assistant(), Ok(draft));
    assert_eq!(
        result.toast,
        format!("{:?} drafted your profiles — review, then w to apply", Tool::Claude)
    );
    assert_eq!(result.draft.unwrap().universal, names(&["u@m"]));
}

#[test]
fn work_is_labelled() {
    let text = |a: Action| label(&a, "/c.json", "X");
    assert_eq!(text(Action::Quit), None);
    assert_eq!(
        text(Action::Prime("a".to_string())),
        Some("priming 'a'".to_string())
    );
    assert_eq!(
        text(Action::Commit {
            cfg: Profiles::default(),
            repos: vec![],
            expected: vec![]
        }),
        Some("writing /c.json".to_string())
    );
    assert_eq!(
        text(Action::IndexAtoms {
            atoms: names(&["file:a"]),
            repos: vec![]
        }),
        Some("indexing file:a".to_string())
    );
    assert_eq!(
        text(Action::Rescan {
            roots: names(&["/a", "/b"]),
            working: Profiles::default()
        }),
        Some("scanning 2 roots".to_string())
    );
    let draft = |scan_roots: Vec<String>| {
        text(Action::DraftWithClaude {
            inv: inventory(&[]),
            scan_roots,
        })
    };
    assert_eq!(
        draft(names(&["/a"])),
        Some("scanning + asking X…".to_string())
    );
    assert_eq!(draft(vec![]), Some("asking X…".to_string()));
}

#[test]
fn outcomes_of_priming_differ_in_words() {
    let fired = prime_result("a", Ok(PrimeOutcome::Primed)).toast;
    let skipped = prime_result("a", Ok(PrimeOutcome::SkippedActive)).toast;
    assert_ne!(fired, skipped);
}

#[test]
fn a_kept_scan_of_other_roots_is_not_used() {
    let s = seed(
        cached(SCAN_CACHE_VERSION, &["/a"], signal("/a/r", &[]), Some(vec![])),
        &names(&["/b"]),
    );
    assert!(s.repos.is_empty());
    assert_eq!(s.scanned_at, None);
    assert!(!s.needs_rebuild);
    let t = seed(
        cached(0, &["/a"], signal("/a/r", &[]), None),
        &names(&["/a"]),
    );
    assert_eq!(t.repos.len(), 1);
    assert!(t.pending);
    assert!(t.needs_rebuild);
}
