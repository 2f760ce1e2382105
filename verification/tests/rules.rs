use cc_loadout::namemap::NameMap;
use cc_loadout::profile::config::{ContentRule, Detect};
use cc_loadout::profile::discover::{Inventory, PluginInfo, RepoSignal};
use cc_loadout::tui::key::{KeyCode, KeyEvent};
use cc_loadout::tui::line::{text_of, Line};
use cc_loadout::tui::profile::rules::{
    add_rule, derive_rules, editor_for, flatten, matching_repos, near_misses, remove_at,
    suggest_rule, RuleEditor, RuleRow, RulesState,
};
use cc_loadout::tui::profile::rules_page::{render_editor, short_path, RulesPage};

fn names(v: &[&str]) -> Vec<String> {
    v.iter().map(|s| s.to_string()).collect()
}

fn texts(lines: &Vec<Line>) -> String {
    lines.iter().map(text_of).collect::<Vec<String>>().join("\n")
}

fn inv_with_repos(repos: Vec<RepoSignal>) -> Inventory {
    Inventory {
        plugins: vec![PluginInfo {
            key: "p@x".to_string(),
            scopes: vec![],
            description: None,
        }],
        repos,
        suggested_profiles: vec![],
    }
}

fn repo(path: &str, files: &[&str], globs: &[&str], deps: &[&str]) -> RepoSignal {
    RepoSignal {
        path: path.to_string(),
        marker_files: names(files),
        marker_globs: names(globs),
        package_json_deps: names(deps),
        languages: vec![],
        rule_hits: NameMap::new(),
        override_names: None,
    }
}

fn indexed(mut r: RepoSignal, hits: &[(&str, bool)]) -> RepoSignal {
    for (a, b) in hits {
        r.rule_hits.insert(a.to_string(), *b);
    }
    r
}

fn code(st: &mut RulesState, inv: &Inventory, c: KeyCode) {
    st.handle_key(KeyEvent::from(c), inv);
}

fn typed(st: &mut RulesState, inv: &Inventory, s: &str) {
    for c in s.chars() {
        code(st, inv, KeyCode::Char(c));
    }
}

fn with_files(files: &[&str]) -> Detect {
    let mut d = Detect::default();
    d.marker_files = names(files);
    d
}

#[test]
fn recompute_counts_matches_over_total() {
    let inv = inv_with_repos(vec![
        indexed(repo("/r/one", &["Cargo.toml"], &[], &[]), &[("file:Cargo.toml", true)]),
        indexed(repo("/nonexistent-xyz", &[], &[], &[]), &[("file:Cargo.toml", false)]),
    ]);
    let st = RulesState::open(with_files(&["Cargo.toml"]), &inv);
    assert_eq!(st.matched.len(), 1, "only the Cargo.toml repo matches");
    assert_eq!(st.total_repos, 2);
    assert!(!st.undecided);
}

#[test]
fn the_preview_splits_the_repos_without_an_override() {
    let mut pinned = indexed(repo("/pinned", &["Cargo.toml"], &[], &[]), &[("file:Cargo.toml", true)]);
    pinned.override_names = Some(names(&["rust"]));
    let inv = inv_with_repos(vec![
        indexed(repo("/yes", &["Cargo.toml"], &[], &[]), &[("file:Cargo.toml", true)]),
        pinned,
        indexed(repo("/no", &[], &[], &[]), &[("file:Cargo.toml", false)]),
        repo("/open", &[], &[], &[]),
    ]);
    let st = RulesState::open(with_files(&["Cargo.toml"]), &inv);
    let matched: Vec<&str> = st.matched.iter().map(|m| m.path.as_str()).collect();
    let near: Vec<&str> = st.near.iter().map(|n| n.path.as_str()).collect();
    assert_eq!(matched, ["/yes"]);
    assert_eq!(near, ["/no", "/open"]);
    assert_eq!(matched.len() + near.len(), st.total_repos);
}

#[test]
fn a_path_is_in_one_list_of_the_preview_only() {
    let twice = |second: bool| {
        inv_with_repos(vec![
            indexed(repo("/p", &[], &[], &[]), &[("file:Cargo.toml", true)]),
            indexed(repo("/p", &[], &[], &[]), &[("file:Cargo.toml", second)]),
        ])
    };
    let st = RulesState::open(with_files(&["Cargo.toml"]), &twice(true));
    assert_eq!((st.matched.len(), st.near.len(), st.total_repos), (2, 0, 2));
    let st = RulesState::open(with_files(&["Cargo.toml"]), &twice(false));
    assert_eq!((st.matched.len(), st.near.len(), st.total_repos), (1, 0, 2));
}

#[test]
fn unindexed_atoms_leave_the_count_open() {
    let inv = inv_with_repos(vec![repo("/r/one", &["Cargo.toml"], &[], &[])]);
    let st = RulesState::open(with_files(&["Cargo.toml"]), &inv);
    assert!(st.undecided);
    assert_eq!(st.pending, names(&["file:Cargo.toml"]));
    assert!(st.matched.is_empty());
}

#[test]
fn render_shows_rules_and_match_count() {
    let inv = inv_with_repos(vec![repo("/a", &[], &["*.vue"], &[])]);
    let st = RulesState::open(with_files(&["Cargo.toml"]), &inv);
    let text = match st.render(20, None, 0) {
        RulesPage::Rows { lines, preview, .. } => {
            format!("{}\n{}", texts(&lines), texts(&preview))
        }
        other => panic!("expected the rule list, got {other:?}"),
    };
    assert!(text.contains("has file"), "rule label shown: {text}");
    assert!(text.contains("Cargo.toml"), "rule value shown");
    assert!(text.contains("match"), "match-count line shown");
}

#[test]
fn matching_repos_reports_path_and_provenance() {
    let repos = vec![indexed(
        repo("/r/one", &["Cargo.toml"], &[], &[]),
        &[("file:Cargo.toml", true)],
    )];
    let got = matching_repos(&with_files(&["Cargo.toml"]), &repos);
    assert_eq!(got.len(), 1);
    assert_eq!(got[0].path, "/r/one");
    assert_eq!(got[0].rule, "marker_file");
    assert_eq!(got[0].value.as_deref(), Some("Cargo.toml"));
}

#[test]
fn near_misses_suggest_a_rule_from_the_repos_own_signals() {
    let d = Detect::default();
    let repos = vec![
        repo("/a", &[], &["*.vue"], &[]),
        repo("/b", &["go.mod"], &[], &[]),
        repo("/c", &[], &[], &["react"]),
        repo("/d", &[], &[], &[]),
    ];
    let nm = near_misses(&d, &repos, &vec![]);
    assert_eq!(nm.len(), 4);
    assert_eq!(nm[0].suggestion, Some(RuleRow::HasAny("*.vue".to_string())));
    assert_eq!(nm[1].suggestion, Some(RuleRow::HasFile("go.mod".to_string())));
    assert_eq!(
        nm[2].suggestion,
        Some(RuleRow::Contains {
            file: "package.json".to_string(),
            word: "react".to_string()
        })
    );
    assert_eq!(nm[3].suggestion, None);
}

#[test]
fn near_misses_leave_out_what_matches() {
    let repos = vec![repo("/a", &[], &[], &[]), repo("/b", &[], &[], &[])];
    let nm = near_misses(&Detect::default(), &repos, &names(&["/a"]));
    assert_eq!(nm.len(), 1);
    assert_eq!(nm[0].path, "/b");
}

#[test]
fn a_rule_already_there_is_not_suggested() {
    let r = repo("/b", &["go.mod"], &[], &["react"]);
    assert_eq!(
        suggest_rule(&with_files(&["go.mod"]), &r),
        Some(RuleRow::Contains {
            file: "package.json".to_string(),
            word: "react".to_string()
        })
    );
}

fn detect() -> Detect {
    Detect {
        path_prefixes: names(&["/workspace/"]),
        marker_files: names(&["Cargo.toml"]),
        marker_globs: names(&["*.vue"]),
        content: vec![ContentRule {
            file: "requirements.txt".to_string(),
            word: "torch".to_string(),
        }],
        package_json_deps: names(&["svelte"]),
        deps_keywords: names(&["openai"]),
    }
}

#[test]
fn flatten_orders_by_detection_chain_and_marks_legacy() {
    let rows = flatten(&detect());
    assert_eq!(
        rows,
        vec![
            RuleRow::PathUnder("/workspace/".to_string()),
            RuleRow::HasFile("Cargo.toml".to_string()),
            RuleRow::HasAny("*.vue".to_string()),
            RuleRow::Contains {
                file: "requirements.txt".to_string(),
                word: "torch".to_string()
            },
            RuleRow::Legacy("package.json: svelte".to_string()),
            RuleRow::Legacy("keyword: openai".to_string()),
        ]
    );
    assert!(rows[3].editable());
    assert!(!rows[4].editable(), "legacy rows are read-only");
    assert_eq!(rows[3].label(), "contains");
    assert_eq!(rows[3].value(), "requirements.txt → torch");
    assert_eq!(rows[0].label(), "path under");
}

#[test]
fn add_rule_appends_to_the_right_field() {
    let mut d = Detect::default();
    add_rule(&mut d, RuleRow::PathUnder("/x/".to_string()));
    add_rule(&mut d, RuleRow::HasFile("go.mod".to_string()));
    add_rule(&mut d, RuleRow::HasAny("*.rs".to_string()));
    add_rule(
        &mut d,
        RuleRow::Contains {
            file: "package.json".to_string(),
            word: "react".to_string(),
        },
    );
    add_rule(&mut d, RuleRow::Legacy("ignored".to_string()));
    assert_eq!(d.path_prefixes, names(&["/x/"]));
    assert_eq!(d.marker_files, names(&["go.mod"]));
    assert_eq!(d.marker_globs, names(&["*.rs"]));
    assert_eq!(
        d.content,
        vec![ContentRule {
            file: "package.json".to_string(),
            word: "react".to_string()
        }]
    );
    assert!(d.package_json_deps.is_empty() && d.deps_keywords.is_empty());
}

fn detect_three() -> Detect {
    let mut d = Detect::default();
    d.path_prefixes = names(&["/x/"]);
    d.marker_files = names(&["Cargo.toml"]);
    d.marker_globs = names(&["*.vue"]);
    d
}

#[test]
fn down_moves_cursor_and_wraps() {
    let inv = inv_with_repos(vec![]);
    let mut st = RulesState::open(detect_three(), &inv);
    assert_eq!(st.cursor, 0);
    code(&mut st, &inv, KeyCode::Down);
    assert_eq!(st.cursor, 1);
    code(&mut st, &inv, KeyCode::Down);
    code(&mut st, &inv, KeyCode::Down);
    assert_eq!(st.cursor, 0, "wraps past the last row");
}

#[test]
fn path_under_builder_offers_ghost_completion() {
    let inv = inv_with_repos(vec![]);
    let mut st = RulesState::open(Detect::default(), &inv);
    code(&mut st, &inv, KeyCode::Char('a'));
    code(&mut st, &inv, KeyCode::Enter);
    typed(&mut st, &inv, "/base/al");
    assert_eq!(st.completion_input(), Some("/base/al".to_string()));
    st.offer_completion(&names(&["alpha"]));
    assert_eq!(
        st.editor.as_ref().unwrap().suggestion.as_deref(),
        Some("pha/"),
        "ghost completion suggests the rest of 'alpha/'"
    );
    code(&mut st, &inv, KeyCode::Right);
    assert_eq!(
        st.editor.as_ref().unwrap().file.value(),
        "/base/alpha/",
        "→ appends the ghost suffix"
    );
}

#[test]
fn has_file_builder_has_no_ghost_completion() {
    let inv = inv_with_repos(vec![]);
    let mut st = RulesState::open(Detect::default(), &inv);
    code(&mut st, &inv, KeyCode::Char('a'));
    code(&mut st, &inv, KeyCode::Down);
    code(&mut st, &inv, KeyCode::Enter);
    typed(&mut st, &inv, "Cargo");
    assert_eq!(st.completion_input(), None);
    assert!(st.editor.as_ref().unwrap().suggestion.is_none());
}

#[test]
fn d_deletes_selected_rule_and_clamps_cursor() {
    let inv = inv_with_repos(vec![]);
    let mut st = RulesState::open(detect_three(), &inv);
    st.cursor = 2;
    code(&mut st, &inv, KeyCode::Char('d'));
    assert!(st.detect.marker_globs.is_empty(), "glob rule removed");
    assert_eq!(flatten(&st.detect).len(), 2);
    assert_eq!(st.cursor, 1, "cursor clamped to last valid row");
}

#[test]
fn d_and_delete_do_not_remove_legacy_rows() {
    let inv = inv_with_repos(vec![]);
    let before = flatten(&detect());
    assert!(!before[4].editable(), "row 4 is a legacy (read-only) row");
    let mut st = RulesState::open(detect(), &inv);
    st.cursor = 4;
    code(&mut st, &inv, KeyCode::Char('d'));
    assert_eq!(flatten(&st.detect), before);
    let mut st2 = RulesState::open(detect(), &inv);
    st2.cursor = 5;
    code(&mut st2, &inv, KeyCode::Delete);
    assert_eq!(flatten(&st2.detect), before);
}

#[test]
fn is_building_true_at_kind_pick_before_editing_text() {
    let inv = inv_with_repos(vec![]);
    let mut st = RulesState::open(Detect::default(), &inv);
    assert!(!st.is_building(), "no builder open yet");
    code(&mut st, &inv, KeyCode::Char('a'));
    assert!(st.is_building(), "is_building true at the kind-pick step");
    assert!(!st.editing_text(), "editing_text still false until a kind is chosen");
    code(&mut st, &inv, KeyCode::Enter);
    assert!(st.is_building() && st.editing_text(), "both true once typing");
}

#[test]
fn render_editor_title_reflects_edit_vs_add() {
    let editing = editor_for(&RuleRow::PathUnder("/x/".to_string()), 0);
    let txt = texts(&render_editor(&editing));
    assert!(txt.contains("edit rule"), "editing shows 'edit rule': {txt}");
    assert!(!txt.contains("add rule"), "editing must not say 'add rule'");
    let txt2 = texts(&render_editor(&RuleEditor::default()));
    assert!(txt2.contains("add rule"), "adding shows 'add rule': {txt2}");
}

#[test]
fn derive_rules_covers_all_repo_signals() {
    let r = repo("/x", &["Cargo.toml", "go.mod"], &["*.vue"], &["react", "svelte"]);
    assert_eq!(
        derive_rules(&r),
        vec![
            RuleRow::HasFile("Cargo.toml".to_string()),
            RuleRow::HasFile("go.mod".to_string()),
            RuleRow::HasAny("*.vue".to_string()),
            RuleRow::Contains {
                file: "package.json".to_string(),
                word: "react".to_string()
            },
            RuleRow::Contains {
                file: "package.json".to_string(),
                word: "svelte".to_string()
            },
        ]
    );
}

#[test]
fn edit_rule_live_count_does_not_double_count() {
    let inv = inv_with_repos(vec![
        indexed(
            repo("/r/a", &["Cargo.toml"], &[], &[]),
            &[("file:Cargo.toml", true), ("file:go.mod", false)],
        ),
        indexed(
            repo("/r/b", &["go.mod"], &[], &[]),
            &[("file:Cargo.toml", false), ("file:go.mod", true)],
        ),
    ]);
    let mut st = RulesState::open(with_files(&["Cargo.toml"]), &inv);
    assert_eq!(st.matched.len(), 1, "sanity: only repo_a matches initially");
    code(&mut st, &inv, KeyCode::Char('e'));
    assert!(st.editor.is_some(), "editor must open on 'e' for an editable row");
    assert_eq!(st.editor.as_ref().unwrap().editing, Some(0));
    for _ in 0..10 {
        code(&mut st, &inv, KeyCode::Backspace);
    }
    typed(&mut st, &inv, "go.mod");
    assert_eq!(st.editor.as_ref().unwrap().live_count, Some(1));
}

#[test]
fn builder_shows_live_match_count_while_typing() {
    let inv = inv_with_repos(vec![
        repo("/workspace/a", &[], &[], &[]),
        repo("/workspace/b", &[], &[], &[]),
        repo("/other/c", &[], &[], &[]),
    ]);
    let mut st = RulesState::open(Detect::default(), &inv);
    code(&mut st, &inv, KeyCode::Char('a'));
    code(&mut st, &inv, KeyCode::Enter);
    assert_eq!(
        st.editor.as_ref().unwrap().live_count,
        None,
        "no count before a value is typed"
    );
    typed(&mut st, &inv, "/workspace/");
    assert_eq!(st.editor.as_ref().unwrap().live_count, Some(2));
}

#[test]
fn add_path_rule_via_builder() {
    let inv = inv_with_repos(vec![]);
    let mut st = RulesState::open(Detect::default(), &inv);
    code(&mut st, &inv, KeyCode::Char('a'));
    assert!(st.editor.is_some());
    code(&mut st, &inv, KeyCode::Enter);
    assert!(st.editing_text(), "now in text entry");
    typed(&mut st, &inv, "/workspace/");
    code(&mut st, &inv, KeyCode::Enter);
    assert_eq!(st.detect.path_prefixes, names(&["/workspace/"]));
    assert!(st.editor.is_none(), "builder closed after commit");
}

#[test]
fn add_contains_rule_uses_two_inputs() {
    let inv = inv_with_repos(vec![]);
    let mut st = RulesState::open(Detect::default(), &inv);
    code(&mut st, &inv, KeyCode::Char('a'));
    for _ in 0..3 {
        code(&mut st, &inv, KeyCode::Down);
    }
    code(&mut st, &inv, KeyCode::Enter);
    typed(&mut st, &inv, "requirements.txt");
    code(&mut st, &inv, KeyCode::Tab);
    typed(&mut st, &inv, "torch");
    code(&mut st, &inv, KeyCode::Enter);
    assert_eq!(
        st.detect.content,
        vec![ContentRule {
            file: "requirements.txt".to_string(),
            word: "torch".to_string()
        }]
    );
}

#[test]
fn esc_cancels_builder_without_adding() {
    let inv = inv_with_repos(vec![]);
    let mut st = RulesState::open(Detect::default(), &inv);
    code(&mut st, &inv, KeyCode::Char('a'));
    code(&mut st, &inv, KeyCode::Enter);
    code(&mut st, &inv, KeyCode::Char('x'));
    code(&mut st, &inv, KeyCode::Esc);
    assert!(st.editor.is_none());
    assert!(st.detect.path_prefixes.is_empty(), "nothing added on cancel");
}

#[test]
fn cursor_follows_committed_rule() {
    let inv = inv_with_repos(vec![]);
    let mut st = RulesState::open(with_files(&["Cargo.toml"]), &inv);
    st.cursor = 0;
    code(&mut st, &inv, KeyCode::Char('a'));
    code(&mut st, &inv, KeyCode::Down);
    code(&mut st, &inv, KeyCode::Down);
    code(&mut st, &inv, KeyCode::Enter);
    typed(&mut st, &inv, "*.rs");
    code(&mut st, &inv, KeyCode::Enter);
    let rows = flatten(&st.detect);
    assert_eq!(rows[st.cursor], RuleRow::HasAny("*.rs".to_string()));
}

#[test]
fn remove_at_matches_flatten_indices_across_all_fields() {
    let mut d = detect();
    remove_at(&mut d, 3);
    assert!(d.content.is_empty());
    assert_eq!(d.marker_files, names(&["Cargo.toml"]));
    let mut d2 = detect();
    remove_at(&mut d2, 5);
    assert!(d2.deps_keywords.is_empty());
    assert_eq!(d2.package_json_deps, names(&["svelte"]));
    let mut d3 = detect();
    remove_at(&mut d3, 0);
    assert!(d3.path_prefixes.is_empty());
}

#[test]
fn override_repos_excluded_from_matched_and_near() {
    let a = indexed(repo("/r/a", &["Cargo.toml"], &[], &[]), &[("file:Cargo.toml", true)]);
    let mut b = indexed(repo("/r/b", &["Cargo.toml"], &[], &[]), &[("file:Cargo.toml", true)]);
    b.override_names = Some(names(&["frontend"]));
    let inv = inv_with_repos(vec![a, b]);
    let st = RulesState::open(with_files(&["Cargo.toml"]), &inv);
    assert_eq!(st.total_repos, 1, "override repo B excluded from the scanned total");
    assert_eq!(st.matched.len(), 1);
    assert_eq!(st.matched[0].path, "/r/a");
    assert!(!st.matched.iter().any(|m| m.path == "/r/b"));
    assert!(!st.near.iter().any(|n| n.path == "/r/b"));
}

#[test]
fn picking_a_repo_adds_its_rules_once() {
    let inv = inv_with_repos(vec![repo("/r/a", &["Cargo.toml", "go.mod"], &[], &[])]);
    let mut st = RulesState::open(with_files(&["Cargo.toml"]), &inv);
    code(&mut st, &inv, KeyCode::Char('f'));
    assert!(st.is_picking());
    code(&mut st, &inv, KeyCode::Enter);
    assert!(!st.is_picking());
    assert_eq!(st.detect.marker_files, names(&["Cargo.toml", "go.mod"]));
}

#[test]
fn paths_are_shown_by_their_last_part() {
    assert_eq!(short_path("/work/me/svc"), "svc");
}
