use std::cell::RefCell;

use rustquit::app_list::{
    app_entry_from_path, collect_offered, filter_entries, is_found_by, sort_by_keys, sort_by_name,
    unique_entries, AppEntry, RunningEntry,
};
use rustquit::app_scan::{
    collect_app_paths, scan_standard_apps, standard_app_dirs, step_for, DirItem, ItemStep,
};
use rustquit::config::Config;

fn entry(bundle_id: &str, name: &str) -> AppEntry {
    AppEntry { bundle_id: bundle_id.into(), name: name.into(), icon_path: None }
}

fn names(entries: &[AppEntry]) -> Vec<&str> {
    entries.iter().map(|entry| entry.name.as_str()).collect()
}

fn ids(entries: &[AppEntry]) -> Vec<&str> {
    entries.iter().map(|entry| entry.bundle_id.as_str()).collect()
}

#[test]
fn apps_are_described_by_their_bundles() {
    let found = app_entry_from_path("/Applications/Foo.app", None, Some("x.foo".into()), "Foo.app");
    assert_eq!(
        found,
        Some(AppEntry {
            bundle_id: "x.foo".into(),
            name: "Foo".into(),
            icon_path: Some("/Applications/Foo.app".into()),
        })
    );
    let plain = app_entry_from_path("/a", None, Some("x.foo".into()), "My .app thing").unwrap();
    assert_eq!(plain.name, "My .app thing");
    let bare = app_entry_from_path("/a", None, Some("x.foo".into()), ".app").unwrap();
    assert_eq!(bare.name, "");
    assert_eq!(app_entry_from_path("/a", None, None, "Foo"), None);
    assert_eq!(app_entry_from_path("/a", None, Some("com.apple.finder".into()), "Finder"), None);
    assert_eq!(app_entry_from_path("/System/Library/a", None, Some("x.y".into()), "A"), None);
    assert_eq!(app_entry_from_path("/a", Some("/System/Library/a"), Some("x.y".into()), "A"), None);
}

#[test]
fn found_apps_are_listed_once() {
    let found = vec![Some(entry("a.a", "first")), None, Some(entry("A.A", "second")), Some(entry("b.b", "other"))];
    assert_eq!(names(&unique_entries(&found)), vec!["first", "other"]);
}

#[test]
fn running_and_configured_apps_are_added() {
    let running = vec![
        RunningEntry { bundle_id: None, name: Some("none".into()), path: None },
        RunningEntry { bundle_id: Some("A.A".into()), name: Some("known".into()), path: None },
        RunningEntry { bundle_id: Some("r.r".into()), name: None, path: Some("/r".into()) },
        RunningEntry { bundle_id: Some("com.apple.finder".into()), name: None, path: None },
    ];
    let config = Config {
        apps: vec!["a.a".into(), "c.c".into(), "com.apple.dock".into()],
        keep_alive_apps: vec!["C.C".into(), "k.k".into()],
        ..Config::default()
    };
    let asked = RefCell::new(Vec::new());
    let offered = collect_offered(vec![entry("a.a", "A")], &running, &config, |id: &str| {
        asked.borrow_mut().push(id.to_string());
        if id == "k.k" { Some(entry("k.k", "Kept")) } else { None }
    });
    assert_eq!(*asked.borrow(), vec!["c.c", "k.k"]);
    assert_eq!(ids(&offered), vec!["a.a", "r.r", "c.c", "k.k"]);
    assert_eq!(names(&offered), vec!["A", "r.r", "c.c", "Kept"]);
    assert_eq!(offered[1].icon_path, Some("/r".to_string()));
}

#[test]
fn apps_are_sorted_by_name() {
    let entries = vec![entry("1", "b"), entry("2", "A"), entry("3", "B"), entry("4", "\u{c4}"), entry("5", "a")];
    let sorted = sort_by_name(&entries);
    let mut expected = entries.clone();
    expected.sort_by_key(|entry| entry.name.to_lowercase());
    assert_eq!(sorted, expected);
    assert_eq!(ids(&sorted), vec!["2", "5", "1", "3", "4"]);
    let keys = vec!["z".to_string(), "y".into(), "z".into(), "x".into(), "y".into()];
    assert_eq!(ids(&sort_by_keys(&entries, &keys)), vec!["4", "2", "5", "1", "3"]);
}

#[test]
fn the_list_is_filtered() {
    let entries = vec![entry("com.a", "Safari"), entry("com.b", "\u{c4}pfel"), entry("org.saf", "Other")];
    let config = Config {
        apps: vec!["COM.A".into()],
        keep_alive_apps: vec!["org.saf".into()],
        ..Config::default()
    };
    assert_eq!(filter_entries(&entries, &config, "", false).len(), 3);
    assert_eq!(ids(&filter_entries(&entries, &config, "SAF", false)), vec!["com.a", "org.saf"]);
    // Letters beyond ASCII are matched without regard to case, too.
    assert_eq!(ids(&filter_entries(&entries, &config, "\u{e4}P", false)), vec!["com.b"]);
    assert_eq!(ids(&filter_entries(&entries, &config, "", true)), vec!["com.a", "org.saf"]);
    assert_eq!(ids(&filter_entries(&entries, &config, "com", true)), vec!["com.a"]);
    assert!(is_found_by("", "x", "y"));
    assert!(is_found_by("b", "abc", "y"));
    assert!(is_found_by("y", "abc", "y"));
    assert!(!is_found_by("z", "abc", "y"));
}

fn item(name: &str, directory: bool, link: bool) -> DirItem {
    DirItem { name: Some(name.into()), directory, link }
}

#[test]
fn directory_items_are_told_apart() {
    assert_eq!(step_for(&item("Foo.app", true, false), 0), ItemStep::App);
    assert_eq!(step_for(&item("Foo.app", false, true), 0), ItemStep::App);
    assert_eq!(step_for(&item(".Foo.app", true, false), 2), ItemStep::Skip);
    assert_eq!(step_for(&item("Utilities", true, false), 1), ItemStep::Descend);
    assert_eq!(step_for(&item("Utilities", true, false), 0), ItemStep::Skip);
    assert_eq!(step_for(&item("Utilities", true, true), 1), ItemStep::Skip);
    assert_eq!(step_for(&item("readme.txt", false, false), 1), ItemStep::Skip);
    assert_eq!(step_for(&DirItem { name: None, directory: true, link: false }, 1), ItemStep::Skip);
}

#[test]
fn folders_are_searched_to_a_depth() {
    let read = |dir: &str| -> Option<Vec<DirItem>> {
        match dir {
            "/a" => Some(vec![item("b", true, false), item("X.app", true, false), item("l", true, true)]),
            "/a/b" => Some(vec![item("c", true, false), item("Y.app", true, false)]),
            "/a/b/c" => Some(vec![item("Z.app", true, false), item("d", true, false)]),
            "/a/b/c/d" => Some(vec![item("W.app", true, false)]),
            _ => None,
        }
    };
    assert_eq!(collect_app_paths(&read, "/a", 2), vec!["/a/b/c/Z.app", "/a/b/Y.app", "/a/X.app"]);
    assert_eq!(collect_app_paths(&read, "/a", 0), vec!["/a/X.app"]);
    assert!(collect_app_paths(&read, "/none", 2).is_empty());
}

#[test]
fn standard_folders_are_searched() {
    assert_eq!(
        standard_app_dirs(Some("/Users/me")),
        vec![
            "/Applications",
            "/System/Applications",
            "/System/Applications/Utilities",
            "/Users/me/Applications",
        ]
    );
    assert_eq!(standard_app_dirs(None).len(), 3);
}

#[test]
fn a_scan_keeps_the_first_find_of_each_app() {
    let read = |dir: &str| -> Option<Vec<DirItem>> {
        match dir {
            "/Applications" => Some(vec![item("B.app", true, false), item("A.app", true, false)]),
            "/System/Applications" => Some(vec![item("Utilities", true, false)]),
            "/System/Applications/Utilities" => Some(vec![item("U.app", true, false)]),
            "/Users/me/Applications" => Some(vec![item("A.app", true, false), item("H.app", true, false)]),
            _ => None,
        }
    };
    let asked = RefCell::new(Vec::new());
    let describe = |path: &str| -> Option<AppEntry> {
        asked.borrow_mut().push(path.to_string());
        let name = path.rsplit('/').next()?.strip_suffix(".app")?;
        if name == "B" { None } else { Some(entry(&format!("id.{name}"), path)) }
    };
    let found = scan_standard_apps(Some("/Users/me"), &read, &describe);
    assert_eq!(
        *asked.borrow(),
        vec![
            "/Applications/B.app",
            "/Applications/A.app",
            "/System/Applications/Utilities/U.app",
            "/System/Applications/Utilities/U.app",
            "/Users/me/Applications/A.app",
            "/Users/me/Applications/H.app",
        ]
    );
    assert_eq!(
        names(&found),
        vec![
            "/Applications/A.app",
            "/System/Applications/Utilities/U.app",
            "/Users/me/Applications/H.app",
        ]
    );
    assert_eq!(scan_standard_apps(None, &read, &describe).len(), 2);
}

#[test]
fn protected_apps_are_not_offered() {
    let running = vec![RunningEntry { bundle_id: Some("com.apple.Dock".into()), name: None, path: None }];
    let config = Config {
        apps: vec!["com.apple.finder".into()],
        keep_alive_apps: vec!["com.apple.siri.launcher".into()],
        ..Config::default()
    };
    let offered = collect_offered(vec![], &running, &config, |_: &str| panic!("asked"));
    assert!(offered.is_empty());
}
