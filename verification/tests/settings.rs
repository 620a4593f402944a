use rustquit::app_list::AppEntry;
use rustquit::config::{Config, ConfigStore, FilterMode};
use rustquit::settings_window::{
    add_step, on_change, sync_controls, AddStep, Cell, Change, FollowUp, Poll, SettingsController,
    ToggleOutcome,
};

fn saves(_: &Config) -> Result<(), ()> {
    Ok(())
}

fn fails(_: &Config) -> Result<(), ()> {
    Err(())
}

fn entry(bundle_id: &str, name: &str) -> AppEntry {
    AppEntry { bundle_id: bundle_id.into(), name: name.into(), icon_path: Some("/icon".into()) }
}

fn filled(config: &Config) -> SettingsController<u8> {
    let mut window = SettingsController::new();
    assert!(window.needs_refresh());
    window.complete_refresh(
        config,
        vec![entry("b.b", "beta"), entry("a.a", "Alpha")],
        &vec![],
        |_: &str| None,
    );
    window
}

fn shown(window: &SettingsController<u8>) -> Vec<String> {
    (0..window.number_of_rows()).map(|row| window.bundle_id_at(row).unwrap()).collect()
}

#[test]
fn controls_show_the_settings() {
    let controls = sync_controls(&Config::default(), true);
    assert!(controls.whitelist && !controls.blacklist);
    assert_eq!((controls.delay_index, controls.restart_delay_index), (3, 1));
    assert!(controls.autostart && controls.enabled && controls.keep_alive && controls.loop_protection);
    assert!(!controls.auto_start_missing);
    assert_eq!(controls.column_title, "Quit");
    assert_eq!(
        controls.hint,
        "Quit: close the app once its last window is closed. \
         Keep: relaunch the app whenever it quits. \
         An app can only use one of the two."
    );
    let config = Config { mode: FilterMode::Blacklist, enabled: false, ..Config::default() };
    let controls = sync_controls(&config, false);
    assert!(!controls.whitelist && controls.blacklist && !controls.enabled && !controls.autostart);
    assert_eq!(controls.column_title, "Protect");
    assert_eq!(
        controls.hint,
        "Protect: never quit this app; all unchecked apps are closed \
         once their last window closes. \
         Keep: additionally relaunch the app whenever it quits. \
         An app can only use one of the two."
    );
}

#[test]
fn changes_are_stored() {
    let nothing = FollowUp { sync_controls: false, notify_tray: false, reconcile: false };
    let mut store = ConfigStore { data: Config::default() };
    let follow = on_change(&mut store, Change::Enabled(false), saves);
    assert_eq!(follow, FollowUp { notify_tray: true, ..nothing });
    assert!(!store.data.enabled);
    let follow = on_change(&mut store, Change::KeepAliveEnabled(false), fails);
    assert_eq!(follow, FollowUp { sync_controls: true, notify_tray: true, ..nothing });
    assert!(store.data.keep_alive_enabled);
    assert_eq!(on_change(&mut store, Change::AutoStartMissing(true), saves), FollowUp { reconcile: true, ..nothing });
    assert!(store.data.keep_alive_auto_start_missing);
    assert_eq!(on_change(&mut store, Change::AutoStartMissing(false), saves), nothing);
    assert_eq!(on_change(&mut store, Change::AutoStartMissing(true), fails), FollowUp { sync_controls: true, ..nothing });
    assert_eq!(on_change(&mut store, Change::LoopProtection(false), saves), nothing);
    assert!(!store.data.keep_alive_loop_protection);
    assert_eq!(on_change(&mut store, Change::Mode(1), saves), FollowUp { sync_controls: true, ..nothing });
    assert_eq!(store.data.mode, FilterMode::Blacklist);
    on_change(&mut store, Change::Mode(0), saves);
    assert_eq!(store.data.mode, FilterMode::Whitelist);
    assert_eq!(on_change(&mut store, Change::QuitDelay(6), saves), nothing);
    assert_eq!(f64::from_bits(store.data.quit_delay_secs.bits), 10.0);
    assert_eq!(on_change(&mut store, Change::RestartDelay(3), saves), nothing);
    assert_eq!(f64::from_bits(store.data.keep_alive_delay_secs.bits), 60.0);
    let never = |_: &Config| -> Result<(), ()> { panic!("saved") };
    assert_eq!(on_change(&mut store, Change::QuitDelay(7), never), nothing);
    assert_eq!(on_change(&mut store, Change::RestartDelay(4), never), nothing);
}

#[test]
fn cells_show_the_lists() {
    let config = Config { keep_alive_apps: vec!["A.A".into()], ..Config::default() };
    let window = filled(&config);
    assert_eq!(shown(&window), vec!["a.a", "b.b"]);
    assert!(matches!(
        window.make_cell_view(&config, "quit", 0),
        Some(Cell::Quit { checked: false, enabled: false })
    ));
    assert!(matches!(
        window.make_cell_view(&config, "keep", 0),
        Some(Cell::Keep { checked: true, enabled: true })
    ));
    assert!(matches!(
        window.make_cell_view(&config, "quit", 1),
        Some(Cell::Quit { checked: false, enabled: true })
    ));
    let Some(Cell::App { name, icon_path, tooltip }) = window.make_cell_view(&config, "app", 1) else {
        panic!("no app cell")
    };
    assert_eq!((name.as_str(), icon_path.as_deref(), tooltip.as_str()), ("beta", Some("/icon"), "b.b"));
    assert!(window.make_cell_view(&config, "app", 2).is_none());
}

#[test]
fn toggles_change_the_lists() {
    let mut store = ConfigStore { data: Config::default() };
    let mut window = filled(&store.data);
    assert_eq!(window.on_toggle_app(&mut store, 5, true, saves), ToggleOutcome::NoRow);
    assert_eq!(window.on_toggle_app(&mut store, 0, true, fails), ToggleOutcome::Reverted);
    assert!(store.data.apps.is_empty());
    assert_eq!(window.on_toggle_app(&mut store, 0, true, saves), ToggleOutcome::Stored);
    assert_eq!(store.data.apps, vec!["a.a"]);
    assert_eq!(window.on_toggle_keep_app(&mut store, 0, true, saves), ToggleOutcome::Stored);
    assert!(store.data.apps.is_empty());
    assert_eq!(store.data.keep_alive_apps, vec!["a.a"]);
    // With the selected-only filter, an unchecked app drops out right away.
    window.on_only_selected_changed(&store.data, true);
    assert_eq!(shown(&window), vec!["a.a"]);
    assert_eq!(window.on_toggle_keep_app(&mut store, 0, false, saves), ToggleOutcome::Stored);
    assert!(shown(&window).is_empty());
    assert_eq!(window.on_toggle_keep_app(&mut store, 0, false, saves), ToggleOutcome::NoRow);
    window.on_only_selected_changed(&store.data, false);
    window.on_search_changed(&store.data, "BET".into());
    assert_eq!(shown(&window), vec!["b.b"]);
    window.refresh_after_toggle(&store.data);
    window.apply_filter(&store.data);
    assert_eq!(shown(&window), vec!["b.b"]);
    window.window_will_close();
    assert!(window.needs_refresh());
    window.complete_refresh(&store.data, vec![entry("a.a", "x")], &vec![], |_: &str| None);
    assert_eq!(shown(&window), vec!["a.a"]);
}

#[test]
fn checking_keep_is_for_keep_alive_to_see_to() {
    let mut store = ConfigStore { data: Config::default() };
    let mut window = filled(&store.data);
    window.set_keep_alive(1);
    assert_eq!(window.on_toggle_keep_app(&mut store, 0, true, fails), ToggleOutcome::Reverted);
    assert_eq!(window.on_toggle_keep_app(&mut store, 0, true, saves), ToggleOutcome::StoredAndKept);
    assert_eq!(window.on_toggle_keep_app(&mut store, 0, false, saves), ToggleOutcome::Stored);
    assert_eq!(window.on_toggle_app(&mut store, 0, true, saves), ToggleOutcome::Stored);
}

#[test]
fn a_kept_app_cannot_be_listed_for_quitting() {
    let mut store = ConfigStore {
        data: Config { keep_alive_apps: vec!["a.a".into()], ..Config::default() },
    };
    let mut window = filled(&store.data);
    assert_eq!(window.on_toggle_app(&mut store, 0, true, saves), ToggleOutcome::Stored);
    assert!(store.data.apps.is_empty());
    assert_eq!(window.on_toggle_app(&mut store, 1, true, saves), ToggleOutcome::Stored);
    assert_eq!(store.data.apps, vec!["b.b"]);
}

#[test]
fn one_scan_runs_at_a_time() {
    let mut window: SettingsController<u8> = SettingsController::new();
    assert_eq!(window.poll_refresh(Poll::Found(vec![entry("a.a", "a")])), None);
    assert!(window.refresh_entries());
    assert!(!window.refresh_entries());
    assert_eq!(window.poll_refresh(Poll::Empty), None);
    assert!(!window.refresh_entries());
    assert_eq!(window.poll_refresh(Poll::Found(vec![entry("a.a", "a")])), Some(vec![entry("a.a", "a")]));
    assert!(window.refresh_entries());
    assert_eq!(window.poll_refresh(Poll::Disconnected), None);
    assert!(window.refresh_entries());
    window.finish_refresh();
    assert!(window.refresh_entries());
}

#[test]
fn keep_alive_is_wired_later() {
    let mut window: SettingsController<u8> = SettingsController::new();
    assert_eq!(window.keep_alive(), None);
    window.set_keep_alive(9);
    assert_eq!(window.keep_alive(), Some(&9));
    window.window_will_close();
    assert_eq!(window.keep_alive(), Some(&9));
}

#[test]
fn protected_apps_are_refused() {
    assert_eq!(add_step(None, "/a.app", None), AddStep::NoBundleId);
    assert_eq!(add_step(Some("com.apple.finder"), "/a.app", None), AddStep::Protected);
    assert_eq!(add_step(Some("x.y"), "/System/Library/a.app", None), AddStep::Protected);
    assert_eq!(add_step(Some("x.y"), "/a.app", Some("/System/Library/a.app")), AddStep::Protected);
    assert_eq!(add_step(Some("x.y"), "/Applications/a.app", None), AddStep::Add);
}
