use rustquit::running::{snapshot_running_apps, KnownApp, ListedApp, RunningAppsObserver};

fn listed(pid: i32, bundle_id: Option<&str>, name: Option<&str>, regular: bool) -> ListedApp {
    ListedApp {
        pid,
        bundle_id: bundle_id.map(|id| id.to_string()),
        name: name.map(|name| name.to_string()),
        regular,
    }
}

fn pids(apps: &[KnownApp]) -> Vec<i32> {
    apps.iter().map(|app| app.pid).collect()
}

#[test]
fn snapshots_hold_apps_with_a_bundle_id_once() {
    let apps = snapshot_running_apps(&vec![
        listed(1, Some("a.a"), Some("A"), true),
        listed(2, None, Some("B"), true),
        listed(3, Some("c.c"), None, false),
        listed(1, Some("a.b"), None, true),
    ]);
    assert_eq!(pids(&apps), vec![3, 1]);
    assert_eq!(apps[0].name, "c.c");
    assert!(apps[0].menu_bar);
    assert_eq!(apps[1].bundle_id, "a.b");
    assert!(!apps[1].menu_bar);
}

#[test]
fn changes_are_told_from_snapshots() {
    let first = snapshot_running_apps(&vec![
        listed(1, Some("a.a"), Some("A"), true),
        listed(2, Some("b.b"), Some("B"), false),
    ]);
    let mut observer = RunningAppsObserver::new(first);
    let second = snapshot_running_apps(&vec![
        listed(1, Some("a.a"), Some("A"), true),
        listed(3, Some("c.c"), Some("C"), true),
    ]);
    let changes = observer.diff_running_apps(second);
    assert_eq!(pids(&changes.terminated), vec![2]);
    assert!(changes.terminated[0].menu_bar);
    assert_eq!(pids(&changes.appeared), vec![3]);
    let third = snapshot_running_apps(&vec![
        listed(3, Some("c.c"), Some("C"), true),
        listed(1, Some("a.a"), Some("A"), true),
    ]);
    let changes = observer.diff_running_apps(third);
    assert!(changes.terminated.is_empty());
    assert!(changes.appeared.is_empty());
}
