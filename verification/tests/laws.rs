use cc_loadout::namemap::NameMap;
use cc_loadout::profile::config::{Detect, Profile, Profiles};
use cc_loadout::profile::discover::RepoSignal;
use cc_loadout::profile::drift::uncovered_from_signals;
use cc_loadout::profile::plugins::{desired_plugins, merge_into};
use cc_loadout::text::trim;
use cc_loadout::tui::key::{down, up, KeyCode, KeyEvent};
use cc_loadout::tui::line::{blank, text_of};
use cc_loadout::tui::multiselect::MultiSelect;
use cc_loadout::tui::profile::age::fmt_age;
use cc_loadout::tui::profile::assign::AssignState;
use cc_loadout::tui::profile::by_plugin::MembershipPick;
use cc_loadout::tui::profile::roots::tidied;
use cc_loadout::tui::profile::rules::{add_rule, flatten, remove_at, RuleRow};
use cc_loadout::tui::textinput::TextInput;
use cc_loadout::tui::theme::spinner_frame;
use cc_loadout::tui::widgets::{format_duration_short, put_gauge, window_remaining, WINDOW_MS};

fn k(c: KeyCode) -> KeyEvent {
    KeyEvent::from(c)
}

fn names(v: &[&str]) -> Vec<String> {
    v.iter().map(|s| s.to_string()).collect()
}

fn profile(plugins: &[&str], files: &[&str]) -> Profile {
    let mut detect = Detect::default();
    detect.marker_files = names(files);
    Profile {
        plugins: names(plugins),
        detect,
    }
}

fn signal(path: &str, hits: &[(&str, bool)]) -> RepoSignal {
    let mut rule_hits = NameMap::new();
    for (a, b) in hits {
        rule_hits.insert(a.to_string(), *b);
    }
    RepoSignal {
        path: path.to_string(),
        marker_files: vec![],
        marker_globs: vec![],
        package_json_deps: vec![],
        languages: vec![],
        rule_hits,
        override_names: None,
    }
}

#[test]
fn universal_plugins_come_first_and_profiles_stack() {
    let mut w = Profiles {
        universal: names(&["u@m"]),
        ..Default::default()
    };
    w.profiles.insert("rust".to_string(), profile(&["r@m", "u@m"], &[]));
    w.profiles.insert("web".to_string(), profile(&["w@m", "r@m"], &[]));
    assert_eq!(desired_plugins(&w, &vec![]), names(&["u@m"]));
    assert_eq!(desired_plugins(&w, &names(&["rust"])), names(&["u@m", "r@m"]));
    assert_eq!(
        desired_plugins(&w, &names(&["rust", "gone", "web"])),
        names(&["u@m", "r@m", "w@m"])
    );
}

#[test]
fn merging_appends_what_is_missing() {
    let mut v = names(&["a", "b"]);
    merge_into(&mut v, &names(&["b", "c", "c"]));
    assert_eq!(v, names(&["a", "b", "c"]));
}

#[test]
fn repos_are_covered_uncovered_or_undecided() {
    let mut w = Profiles::default();
    w.profiles.insert("rust".to_string(), profile(&[], &["Cargo.toml"]));
    let covered = signal("/covered", &[("file:Cargo.toml", true)]);
    let uncovered = signal("/uncovered", &[("file:Cargo.toml", false)]);
    let undecided = signal("/undecided", &[]);
    assert_eq!(
        uncovered_from_signals(&vec![covered, uncovered], &w),
        (names(&["/uncovered"]), false)
    );
    assert_eq!(uncovered_from_signals(&vec![undecided], &w), (vec![], true));
}

#[test]
fn moving_down_and_up_comes_back() {
    for c in 0..3 {
        assert_eq!(up(down(c, 3), 3), c);
        assert_eq!(down(up(c, 3), 3), c);
    }
}

#[test]
fn toggling_twice_changes_nothing() {
    let mut m = MultiSelect::new(names(&["a", "b"]), &names(&["b"]));
    m.on_key(k(KeyCode::Char(' ')));
    assert_eq!(m.selected(), names(&["a", "b"]));
    m.on_key(k(KeyCode::Char(' ')));
    assert_eq!(m.selected(), names(&["b"]));
}

#[test]
fn backspace_takes_back_what_was_typed() {
    let mut t = TextInput::new("ab");
    t.handle_key(k(KeyCode::Left));
    t.handle_key(k(KeyCode::Char('x')));
    assert_eq!(t.value(), "axb");
    t.handle_key(k(KeyCode::Backspace));
    assert_eq!(t.value(), "ab");
}

#[test]
fn removing_an_added_rule_takes_it_back() {
    let mut d = Detect::default();
    d.marker_files = names(&["a"]);
    d.marker_globs = names(&["*.b"]);
    let before = flatten(&d);
    add_rule(&mut d, RuleRow::HasFile("c".to_string()));
    assert_eq!(flatten(&d)[1], RuleRow::HasFile("c".to_string()));
    remove_at(&mut d, 1);
    assert_eq!(flatten(&d), before);
}

#[test]
fn tidied_roots_are_distinct_and_not_empty() {
    assert_eq!(tidied(&names(&["/b", "", "/a", "/b"])), names(&["/b", "/a"]));
}

#[test]
fn the_window_closes_after_its_length() {
    assert_eq!(window_remaining(Some(10), 10_000), Some(WINDOW_MS as i128));
    assert_eq!(window_remaining(Some(10), 10_000 + WINDOW_MS - 1), Some(1));
    assert_eq!(window_remaining(Some(10), 10_000 + WINDOW_MS), None);
    assert_eq!(window_remaining(None, 0), None);
}

#[test]
fn gauges_are_as_wide_as_asked() {
    for filled in [0, 3, 9] {
        let mut l = blank();
        put_gauge(&mut l, filled, 6);
        assert_eq!(text_of(&l), "██████");
    }
}

#[test]
fn the_spinner_goes_round() {
    assert_ne!(spinner_frame(0), spinner_frame(1));
    let again = (1..100).find(|n| spinner_frame(*n) == spinner_frame(0));
    assert_eq!(again, Some(6));
}

#[test]
fn whitespace_is_trimmed_at_both_ends_only() {
    assert_eq!(trim(" \t a b\u{a0}\n"), "a b");
    assert_eq!(trim("  "), "");
    assert_eq!(trim("ab"), "ab");
}

#[test]
fn just_the_white_space_characters_are_trimmed() {
    let white: Vec<u32> = (0..=0x10ffff)
        .filter(|n| {
            char::from_u32(*n).is_some_and(|c| {
                let gone = trim(&c.to_string()).is_empty();
                assert_eq!(gone, c.is_whitespace());
                gone
            })
        })
        .collect();
    assert_eq!(
        white,
        [
            0x09, 0x0a, 0x0b, 0x0c, 0x0d, 0x20, 0x85, 0xa0, 0x1680, 0x2000, 0x2001, 0x2002,
            0x2003, 0x2004, 0x2005, 0x2006, 0x2007, 0x2008, 0x2009, 0x200a, 0x2028, 0x2029,
            0x202f, 0x205f, 0x3000
        ]
    );
}

#[test]
fn profile_names_are_trimmed() {
    let mut w = Profiles::default();
    let mut p = MembershipPick::open(&w, "x@m");
    p = p.handle_key(k(KeyCode::Down), &mut w).unwrap();
    p = p.handle_key(k(KeyCode::Enter), &mut w).unwrap();
    for c in " web ".chars() {
        p = p.handle_key(k(KeyCode::Char(c)), &mut w).unwrap();
    }
    p = p.handle_key(k(KeyCode::Enter), &mut w).unwrap();
    assert!(w.profiles.contains_key("web"));
    assert!(p.naming.is_none());
    assert!(p.handle_key(k(KeyCode::Esc), &mut w).is_none());
}

#[test]
fn assigning_keeps_the_rules_of_a_profile() {
    let mut w = Profiles::default();
    w.profiles.insert("rust".to_string(), profile(&[], &["Cargo.toml"]));
    let mut s = AssignState::new(names(&["a@m"]));
    assert_eq!(s.current_plugin(), Some("a@m"));
    s.handle_key(k(KeyCode::Down), &mut w);
    assert!(s.handle_key(k(KeyCode::Enter), &mut w), "the queue is done");
    assert_eq!(
        w.profiles.get("rust"),
        Some(&profile(&["a@m"], &["Cargo.toml"]))
    );
}

#[test]
fn ages_are_told_in_one_unit() {
    assert_eq!(fmt_age(0, 59), "just now");
    assert_eq!(fmt_age(0, 60), "1m ago");
    assert_eq!(fmt_age(0, 7200), "2h ago");
    assert_eq!(fmt_age(0, 172_800), "2d ago");
}

#[test]
fn durations_are_told_in_short() {
    assert_eq!(format_duration_short(0), None);
    assert_eq!(format_duration_short(7 * 60_000), Some("7m".to_string()));
}

#[test]
fn names_are_kept_in_order() {
    let mut m: NameMap<u8> = NameMap::new();
    m.insert("b".to_string(), 1);
    m.insert("a".to_string(), 2);
    m.insert("b".to_string(), 3);
    assert_eq!(m.len(), 2);
    assert_eq!((m.key_at(0).as_str(), *m.value_at(0)), ("a", 2));
    assert_eq!(m.get("b"), Some(&3));
    assert_eq!(m.remove("a"), Some(2));
    assert_eq!(m.get("a"), None);
}
