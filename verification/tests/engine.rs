use rustquit::config::{Config, FilterMode};
use rustquit::double::Double;
use rustquit::engine::counter::WindowCount;
use rustquit::engine::policy::{decide_quit, hidden_blocks_quit, should_quit, AppFacts};
use rustquit::engine::recent::{RecentQuits, RecentReason};
use rustquit::engine::watcher::Watcher;
use rustquit::engine::{
    Action, Engine, RecountPhase, RecountRequest, RecountResult, Retry, SendOutcome,
};

const SECOND: u64 = 1_000_000_000;

fn config(mode: FilterMode, apps: &[&str], enabled: bool) -> Config {
    Config {
        mode,
        enabled,
        apps: apps.iter().map(|s| s.to_string()).collect(),
        ..Config::default()
    }
}

fn text_edit() -> AppFacts {
    AppFacts {
        regular: true,
        path: Some("/System/Applications/TextEdit.app".into()),
        resolved_path: Some("/System/Applications/TextEdit.app".into()),
        bundle_id: Some("com.apple.TextEdit".into()),
        hidden: false,
        terminated: false,
        finished_launching: true,
    }
}

fn settings() -> Config {
    config(FilterMode::Whitelist, &["com.apple.TextEdit"], true)
}

fn secs(delay: Double) -> f64 {
    f64::from_bits(delay.bits)
}

fn watching(pid: i32) -> Engine {
    let mut engine = Engine::new(1);
    let retry = engine.add_watcher(pid, |generation: u64| {
        let mut watcher = Watcher::new(generation);
        watcher.note_window(100, true, true);
        Some((watcher, true))
    });
    assert_eq!(retry, Retry::Nothing);
    engine
}

fn counted(request: RecountRequest, effective: usize, ordered_out: usize, cg: Option<usize>) -> RecountResult {
    RecountResult { request, count: Some(WindowCount { effective, ordered_out }), cg_count: cg }
}

fn destroyed(engine: &mut Engine, pid: i32, window: u64) -> RecountRequest {
    match engine.on_ax_event(pid, "AXUIElementDestroyed", window) {
        Action::Recount(request) => request,
        other => panic!("{other:?}"),
    }
}

#[test]
fn whitelist_quits_only_listed() {
    let c = config(FilterMode::Whitelist, &["com.apple.TextEdit"], true);
    assert!(decide_quit(&c, Some("com.apple.TextEdit")));
    assert!(!decide_quit(&c, Some("org.mozilla.firefox")));
    assert!(decide_quit(&c, Some("com.apple.textedit")));
}

#[test]
fn blacklist_quits_all_except_listed() {
    let c = config(FilterMode::Blacklist, &["org.mozilla.firefox"], true);
    assert!(!decide_quit(&c, Some("org.mozilla.firefox")));
    assert!(decide_quit(&c, Some("com.apple.TextEdit")));
}

#[test]
fn disabled_never_quits() {
    let c = config(FilterMode::Blacklist, &[], false);
    assert!(!decide_quit(&c, Some("com.apple.TextEdit")));
}

#[test]
fn hard_exclusions_always_win() {
    let c = config(FilterMode::Blacklist, &[], true);
    assert!(!decide_quit(&c, Some("com.apple.finder")));
    assert!(!decide_quit(&c, Some("ch.patrick.rustquit")));
    assert!(!decide_quit(&c, None));
}

#[test]
fn keep_alive_apps_are_never_quit() {
    let mut c = config(FilterMode::Blacklist, &[], true);
    c.keep_alive_apps = vec!["com.hnc.Discord".into()];
    assert!(!decide_quit(&c, Some("com.hnc.discord")));
    // The exclusion holds even while keep-alive itself is toggled off.
    c.keep_alive_enabled = false;
    assert!(!decide_quit(&c, Some("com.hnc.Discord")));
    // Whitelist mode: being quit-listed does not override keep-alive.
    c.mode = FilterMode::Whitelist;
    c.apps = vec!["com.hnc.Discord".into()];
    assert!(!decide_quit(&c, Some("com.hnc.Discord")));
}

#[test]
fn only_regular_apps_outside_system_folders_are_quit() {
    let c = settings();
    assert!(should_quit(&c, &text_edit()));
    assert!(!should_quit(&c, &AppFacts { regular: false, ..text_edit() }));
    let in_system = AppFacts { path: Some("/System/Library/TextEdit.app".into()), ..text_edit() };
    assert!(!should_quit(&c, &in_system));
    let linked = AppFacts { resolved_path: Some("/System/Library/TextEdit.app".into()), ..text_edit() };
    assert!(!should_quit(&c, &linked));
    let unplaced = AppFacts { path: None, ..text_edit() };
    assert!(should_quit(&c, &unplaced));
    assert!(!should_quit(&c, &AppFacts { bundle_id: None, ..text_edit() }));
}

#[test]
fn hiding_blocks_a_quit_unless_the_app_closed_to_the_background() {
    let discord = |hidden: bool| AppFacts {
        bundle_id: Some("com.hnc.Discord".into()),
        hidden,
        ..text_edit()
    };
    assert!(!hidden_blocks_quit(0, &discord(false)));
    assert!(hidden_blocks_quit(0, &discord(true)));
    assert!(!hidden_blocks_quit(1, &discord(true)));
    assert!(hidden_blocks_quit(1, &AppFacts { hidden: true, ..text_edit() }));
    assert!(hidden_blocks_quit(1, &AppFacts { hidden: true, bundle_id: None, ..text_edit() }));
}

#[test]
fn the_last_closed_window_quits_the_app() {
    let c = settings();
    let app = text_edit();
    let mut recents = RecentQuits::default();
    let mut engine = watching(7);

    let request = destroyed(&mut engine, 7, 100);
    assert_eq!(request.phase, RecountPhase::WindowDestroyed);
    engine.recount_sent(SendOutcome::Sent);
    assert!(engine.timer_running());

    let action = engine.recount_received(counted(request, 0, 0, Some(0)), &c, &app, 0);
    let Action::ScheduleQuit { pid, generation, delay } = action else { panic!("{action:?}") };
    assert_eq!((pid, generation), (7, request.generation));
    assert_eq!(secs(delay), 2.0);
    engine.recounts_drained(false);
    assert!(!engine.timer_running());

    let action = engine.finish_quit(7, generation, &c, &app, 2 * SECOND);
    let Action::Recount(last) = action else { panic!("{action:?}") };
    assert_eq!(last.phase, RecountPhase::FinalCheck);
    let action = engine.recount_received(counted(last, 0, 0, Some(0)), &c, &app, 2 * SECOND);
    let Action::Terminate { pid, generation: asked } = action else { panic!("{action:?}") };
    assert_eq!(pid, 7);
    assert_ne!(asked, generation);

    let action = engine.termination_answered(
        7,
        asked,
        true,
        app.bundle_id.clone(),
        "TextEdit".into(),
        3 * SECOND,
    );
    let Action::ScheduleExpiry { pid, generation: expiring, delay } = action else { panic!("{action:?}") };
    assert_eq!((pid, expiring, secs(delay)), (7, asked, 30.0));

    engine.on_app_terminated(7, &mut recents, 33 * SECOND);
    assert!(!engine.watches(7));
    let entries = recents.snapshot();
    assert_eq!(entries.len(), 1);
    assert_eq!(entries[0].bundle_id, "com.apple.TextEdit");
    assert_eq!(entries[0].name, "TextEdit");
    assert_eq!(entries[0].reason, RecentReason::AutoQuit);
}

#[test]
fn an_app_that_terminates_late_or_on_its_own_is_not_remembered() {
    let mut recents = RecentQuits::default();
    let mut engine = watching(7);
    engine.termination_answered(7, 5, true, Some("a.b".into()), "A".into(), SECOND);
    engine.on_app_terminated(7, &mut recents, 31 * SECOND + 1);
    assert!(recents.snapshot().is_empty());

    let mut engine = watching(7);
    engine.on_app_terminated(7, &mut recents, 0);
    assert!(recents.snapshot().is_empty());

    let mut engine = watching(7);
    engine.termination_answered(7, 5, false, Some("a.b".into()), "A".into(), SECOND);
    engine.termination_answered(7, 5, true, None, "A".into(), SECOND);
    engine.on_app_terminated(7, &mut recents, SECOND);
    assert!(recents.snapshot().is_empty());
}

#[test]
fn window_events_void_scheduled_quits() {
    let c = settings();
    let app = text_edit();
    let mut engine = watching(7);
    let request = destroyed(&mut engine, 7, 100);
    engine.recount_sent(SendOutcome::Sent);
    assert_eq!(engine.on_ax_event(7, "AXWindowCreated", 101), Action::WatchWindow { pid: 7 });
    engine.watch_window(7, 101, |_| true, |_| true);
    assert_eq!(engine.recount_received(counted(request, 0, 0, Some(0)), &c, &app, 0), Action::Nothing);
    assert_eq!(engine.finish_quit(7, request.generation, &c, &app, 0), Action::Nothing);
    // Other notifications and unknown apps lead to nothing.
    assert_eq!(engine.on_ax_event(7, "AXTitleChanged", 101), Action::Nothing);
    assert_eq!(engine.on_ax_event(8, "AXWindowCreated", 101), Action::Nothing);
}

#[test]
fn a_window_of_either_count_vetoes_the_quit() {
    let c = settings();
    let app = text_edit();
    for (effective, cg) in [(1, Some(0)), (0, Some(1)), (0, None)] {
        let mut engine = watching(7);
        let request = destroyed(&mut engine, 7, 100);
        let last = RecountRequest { phase: RecountPhase::FinalCheck, ..request };
        assert_eq!(engine.recount_received(counted(last, effective, 0, cg), &c, &app, 0), Action::Nothing);
    }
    let mut engine = watching(7);
    let request = destroyed(&mut engine, 7, 100);
    let failed = RecountResult { request, count: None, cg_count: Some(0) };
    assert_eq!(engine.recount_received(failed, &c, &app, 0), Action::Nothing);
}

#[test]
fn quits_are_deferred_around_space_switches() {
    let c = settings();
    let app = text_edit();
    let mut engine = watching(7);
    let request = destroyed(&mut engine, 7, 100);
    engine.on_space_changed(10 * SECOND);
    let action = engine.finish_quit(7, request.generation, &c, &app, 13 * SECOND - 1);
    let Action::ScheduleQuit { delay, .. } = action else { panic!("{action:?}") };
    assert_eq!(secs(delay), 3.0);
    let last = RecountRequest { phase: RecountPhase::FinalCheck, ..request };
    let action = engine.recount_received(counted(last, 0, 0, Some(0)), &c, &app, 12 * SECOND);
    assert!(matches!(action, Action::ScheduleQuit { .. }));
    let action = engine.finish_quit(7, request.generation, &c, &app, 13 * SECOND);
    assert!(matches!(action, Action::Recount(_)));
}

#[test]
fn a_pending_request_blocks_another() {
    let c = settings();
    let app = text_edit();
    let mut engine = watching(7);
    let request = destroyed(&mut engine, 7, 100);
    engine.termination_answered(7, 99, true, Some("com.apple.TextEdit".into()), "T".into(), 0);
    assert_eq!(engine.finish_quit(7, request.generation, &c, &app, 0), Action::Nothing);
    let last = RecountRequest { phase: RecountPhase::FinalCheck, ..request };
    assert_eq!(engine.recount_received(counted(last, 0, 0, Some(0)), &c, &app, 0), Action::Nothing);
    // Another request's expiry does not withdraw it; its own does.
    engine.expire_pending_termination(7, 98);
    assert_eq!(engine.finish_quit(7, request.generation, &c, &app, 0), Action::Nothing);
    engine.expire_pending_termination(7, 99);
    assert!(matches!(engine.finish_quit(7, request.generation, &c, &app, 0), Action::Recount(_)));
}

#[test]
fn apps_that_are_not_ready_are_not_quit() {
    let c = settings();
    let mut engine = watching(7);
    let request = destroyed(&mut engine, 7, 100);
    for app in [
        AppFacts { terminated: true, ..text_edit() },
        AppFacts { finished_launching: false, ..text_edit() },
        AppFacts { hidden: true, ..text_edit() },
        AppFacts { regular: false, ..text_edit() },
    ] {
        assert_eq!(engine.finish_quit(7, request.generation, &c, &app, 0), Action::Nothing);
    }
}

#[test]
fn deactivation_recounts_apps_that_had_a_window() {
    let c = settings();
    let app = text_edit();
    let engine = watching(7);
    let action = engine.on_app_deactivated(7, &c, &app);
    let Action::Recount(request) = action else { panic!("{action:?}") };
    assert_eq!(request.phase, RecountPhase::AppDeactivated);
    assert_eq!(engine.on_app_deactivated(8, &c, &app), Action::Nothing);

    let mut windowless = Engine::new(1);
    windowless.add_watcher(7, |generation: u64| Some((Watcher::new(generation), true)));
    assert_eq!(windowless.on_app_deactivated(7, &c, &app), Action::Nothing);
    let request = destroyed(&mut windowless, 7, 1);
    assert_eq!(windowless.recount_received(counted(request, 0, 0, Some(0)), &c, &app, 0), Action::Nothing);
}

#[test]
fn short_quit_delays_are_raised() {
    let app = text_edit();
    let c = Config { quit_delay_secs: Double { bits: (-1.0f64).to_bits() }, ..settings() };
    let mut engine = watching(7);
    let request = destroyed(&mut engine, 7, 100);
    let action = engine.recount_received(counted(request, 0, 0, Some(0)), &c, &app, 0);
    let Action::ScheduleQuit { delay, .. } = action else { panic!("{action:?}") };
    assert_eq!(secs(delay), 0.05);
}

#[test]
fn watchers_are_retried_once() {
    let mut engine = Engine::new(1);
    assert_eq!(engine.add_watcher(7, |_| None), Retry::Watcher);
    assert_eq!(engine.retry_step(7, Retry::Watcher, false), Retry::Watcher);
    assert_eq!(engine.retry_step(7, Retry::Watcher, true), Retry::Nothing);
    assert_eq!(engine.add_watcher_inner(7, false, |_| None), Retry::Nothing);
    assert!(!engine.watches(7));
    let unready = |generation: u64| Some((Watcher::new(generation), false));
    assert_eq!(engine.add_watcher(7, unready), Retry::Windows);
    assert!(engine.watches(7));
    assert_eq!(engine.retry_step(7, Retry::Windows, false), Retry::Windows);
    assert_eq!(engine.retry_step(7, Retry::Watcher, false), Retry::Nothing);
    assert_eq!(engine.retry_step(7, Retry::Nothing, false), Retry::Nothing);
    // Neither this app nor a watched one is observed again.
    assert_eq!(engine.add_watcher(1, |_| panic!("created")), Retry::Nothing);
    assert_eq!(engine.add_watcher(7, |_| panic!("created")), Retry::Nothing);
    // Only regular apps are observed on launch.
    assert_eq!(engine.on_app_launched(9, false, |_| panic!("created")), Retry::Nothing);
    assert_eq!(engine.on_app_launched(9, true, unready), Retry::Windows);
}

#[test]
fn the_drain_timer_runs_only_while_results_are_outstanding() {
    let mut engine = Engine::new(1);
    engine.recount_sent(SendOutcome::Full);
    engine.recount_sent(SendOutcome::Disconnected);
    assert!(!engine.timer_running());
    engine.recount_sent(SendOutcome::Sent);
    engine.recount_sent(SendOutcome::Sent);
    assert_eq!(engine.outstanding(), 2);
    engine.recounts_drained(false);
    assert!(engine.timer_running());
    engine.recounts_drained(true);
    assert_eq!(engine.outstanding(), 0);
    assert!(!engine.timer_running());
}

#[test]
fn hidden_discord_is_quit_after_its_window_was_ordered_out() {
    let c = config(FilterMode::Blacklist, &[], true);
    let discord = || AppFacts {
        bundle_id: Some("com.hnc.Discord".into()),
        path: Some("/Applications/Discord.app".into()),
        resolved_path: None,
        hidden: true,
        ..text_edit()
    };
    let mut engine = watching(7);
    let request = destroyed(&mut engine, 7, 100);
    assert_eq!(engine.finish_quit(7, request.generation, &c, &discord(), 0), Action::Nothing);
    let last = RecountRequest { phase: RecountPhase::FinalCheck, ..request };
    let action = engine.recount_received(counted(last, 0, 1, Some(0)), &c, &discord(), 0);
    assert!(matches!(action, Action::Terminate { .. }));
}

#[test]
fn generations_are_new() {
    let mut engine = Engine::new(1);
    let mut last = 0;
    for _ in 0..5 {
        let next = engine.next_generation();
        assert_eq!(next, last + 1);
        last = next;
    }
}

#[test]
fn an_app_that_the_user_hid_is_not_quit() {
    let c = settings();
    let mut engine = watching(7);
    let request = destroyed(&mut engine, 7, 100);
    let last = RecountRequest { phase: RecountPhase::FinalCheck, ..request };
    let hidden = AppFacts { hidden: true, ..text_edit() };
    assert_eq!(engine.recount_received(counted(last, 0, 1, Some(0)), &c, &hidden, 0), Action::Nothing);
}
