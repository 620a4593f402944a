use std::time::{Duration, Instant};

use rustquit::config::{Config, ConfigStore};
use rustquit::engine::recent::{RecentQuits, RecentReason};
use rustquit::keepalive::{
    ignore_expiry_step, ignore_left, ignore_timer_secs, ignore_timers, launch_allowed,
    launch_if_needed, on_ignore_expired, on_terminated, watch_if_listed, IgnoreStep, KeepAlive,
    LaunchFacts,
};
use rustquit::procexit::{ExitKind, ProcExitWatcher};
use rustquit::suite::RunningApp;

const HOUR: u64 = 3_600_000_000_000;
const DAY: u64 = 24 * HOUR;

fn kept() -> Config {
    Config { keep_alive_apps: vec!["com.Keep.Me".into()], ..Config::default() }
}

fn missing() -> LaunchFacts {
    LaunchFacts { running: false, path: Some("/Applications/Keep Me.app".into()), apps: vec![] }
}

fn none() -> RecentQuits {
    RecentQuits::default()
}

fn saves(_: &Config) -> Result<(), &'static str> {
    Ok(())
}

fn fails(_: &Config) -> Result<(), &'static str> {
    Err("disk full")
}

#[test]
fn missing_kept_apps_are_launched() {
    let config = kept();
    assert!(launch_if_needed(&config, "com.keep.me", 0, &missing()));
    assert!(launch_allowed(&config, "com.keep.me", 0));
    assert!(!launch_allowed(&config, "com.other", 0));
    assert!(!launch_if_needed(&config, "com.other", 0, &missing()));
    let off = Config { keep_alive_enabled: false, ..kept() };
    assert!(!launch_if_needed(&off, "com.keep.me", 0, &missing()));
    assert!(!launch_if_needed(&config, "com.keep.me", 0, &LaunchFacts { running: true, ..missing() }));
    assert!(!launch_if_needed(&config, "com.keep.me", 0, &LaunchFacts { path: None, ..missing() }));
    let helper = RunningApp {
        regular: false,
        path: Some("/Library/Helper.app".into()),
        bundle_id: Some("com.keep.me.helper".into()),
    };
    let facts = LaunchFacts { apps: vec![helper], ..missing() };
    assert!(!launch_if_needed(&config, "com.keep.me", 0, &facts));
}

#[test]
fn terminations_of_kept_apps_are_remembered() {
    let mut recents = RecentQuits::default();
    assert_eq!(on_terminated(&kept(), &mut recents, "com.other".into(), "Other".into()), None);
    assert!(recents.snapshot().is_empty());
    let delay = on_terminated(&kept(), &mut recents, "com.keep.me".into(), "Keep Me".into());
    assert_eq!(delay.map(|delay| f64::from_bits(delay.bits)), Some(10.0));
    let entries = recents.snapshot();
    assert_eq!(entries[0].name, "Keep Me");
    assert_eq!(entries[0].reason, RecentReason::KeepTermination);
    let off = Config { keep_alive_enabled: false, ..kept() };
    assert_eq!(on_terminated(&off, &mut recents, "com.keep.me".into(), "K".into()), None);
    assert_eq!(recents.snapshot()[0].name, "K");
    assert!(watch_if_listed(&kept(), "COM.KEEP.ME"));
    assert!(!watch_if_listed(&kept(), "com.other"));
}

#[test]
fn crashes_are_restarted_and_deliberate_quits_are_not() {
    let config = kept();
    let mut keep_alive = KeepAlive::new();
    assert!(!keep_alive.consider_restart(&config, "com.keep.me", false, Some(ExitKind::Clean), 0, 0));
    assert!(!keep_alive.consider_restart(&config, "com.keep.me", false, None, 0, 0));
    assert!(keep_alive.consider_restart(&config, "com.keep.me", false, Some(ExitKind::Crashed), 0, 0));
    assert!(keep_alive.consider_restart(&config, "com.keep.me", true, Some(ExitKind::Clean), 0, 0));
    let always = Config { keep_alive_auto_start_missing: true, ..kept() };
    assert!(keep_alive.consider_restart(&always, "com.keep.me", false, Some(ExitKind::Clean), 0, 0));
}

#[test]
fn loop_protection_pauses_for_a_day() {
    let config = kept();
    let mut keep_alive = KeepAlive::new();
    let mut exits = None;
    for now in [0, 1] {
        assert!(keep_alive.restart(
            &config, &none(), &mut exits, "com.keep.me", 7, true, now, 0, missing
        ));
    }
    assert!(!keep_alive.restart(
        &config, &none(), &mut exits, "com.Keep.me", 7, true, 2, 0, || panic!("asked")
    ));
    assert!(keep_alive.is_paused(&config, "com.keep.me", 2 + DAY - 1, 0));
    assert!(!keep_alive.is_paused(&config, "com.keep.me", 2 + DAY, 0));
    // The restarts have left the window by then.
    assert!(keep_alive.consider_restart(&config, "com.keep.me", true, None, 2 + DAY, 0));
}

#[test]
fn restarts_an_hour_ago_do_not_count() {
    let config = kept();
    let mut keep_alive = KeepAlive::new();
    keep_alive.note_restart("com.keep.me", 0);
    keep_alive.note_restart("com.keep.me", 1);
    assert!(keep_alive.consider_restart(&config, "com.keep.me", true, None, HOUR, 0));
    keep_alive.note_restart("com.keep.me", HOUR);
    assert!(!keep_alive.consider_restart(&config, "com.keep.me", true, None, HOUR, 0));
}

#[test]
fn without_loop_protection_every_crash_is_restarted() {
    let config = Config { keep_alive_loop_protection: false, ..kept() };
    let mut keep_alive = KeepAlive::new();
    for now in 0..10 {
        assert!(keep_alive.consider_restart(&config, "com.keep.me", true, None, now, 0));
        keep_alive.note_restart("com.keep.me", now);
    }
}

#[test]
fn checking_keep_lifts_the_pause() {
    let config = kept();
    let mut keep_alive = KeepAlive::new();
    keep_alive.note_restart("com.keep.me", 0);
    keep_alive.note_restart("com.keep.me", 0);
    assert!(!keep_alive.consider_restart(&config, "com.keep.me", true, None, 1, 0));
    assert!(keep_alive.is_paused(&config, "com.keep.me", 1, 0));
    assert!(keep_alive.keep_checked(&config, "com.Keep.Me", 0, &missing()));
    assert!(!keep_alive.is_paused(&config, "com.keep.me", 1, 0));
    assert!(keep_alive.consider_restart(&config, "com.keep.me", true, None, 1, 0));
}

#[test]
fn apps_that_were_quit_automatically_are_not_resurrected() {
    let config = kept();
    let mut keep_alive = KeepAlive::new();
    let mut exits = Some(ProcExitWatcher::new());
    if let Some(exits) = &mut exits {
        exits.record(7, 11);
    }
    let minute: u128 = 60_000_000_000;
    assert!(!keep_alive.restart_given_age(
        &config, Some(minute - 1), &mut exits, "com.keep.me", 7, false, 0, 0, || panic!("asked")
    ));
    // The exit was not used up, so a later check still sees the crash.
    assert!(keep_alive.restart_given_age(
        &config, Some(minute), &mut exits, "com.keep.me", 7, false, 0, 0, missing
    ));
    assert!(!keep_alive.restart_given_age(
        &config, None, &mut exits, "com.keep.me", 7, false, 0, 0, missing
    ));
}

#[test]
fn a_quit_of_a_listed_app_is_not_undone() {
    let config = kept();
    for quit_first in [true, false] {
        let mut recents = RecentQuits::default();
        if quit_first {
            recents.push_auto_quit("com.keep.me".into(), "Keep Me".into());
        }
        assert!(on_terminated(&config, &mut recents, "com.Keep.Me".into(), "Keep Me".into()).is_some());
        if !quit_first {
            recents.push_auto_quit("com.keep.me".into(), "Keep Me".into());
        }
        let mut keep_alive = KeepAlive::new();
        let mut exits = Some(ProcExitWatcher::new());
        if let Some(exits) = &mut exits {
            exits.record(7, 11);
        }
        assert!(!keep_alive.restart(
            &config, &recents, &mut exits, "com.keep.me", 7, true, 0, 0, || panic!("asked")
        ));
        // Nothing was counted or used up.
        assert_eq!(exits.and_then(|mut exits| exits.take_exit_kind(7)), Some(ExitKind::Crashed));
        for now in [1, 2] {
            assert!(keep_alive.restart(
                &config, &none(), &mut None, "com.keep.me", 7, true, now, 0, missing
            ));
        }
    }
}

#[test]
fn a_quit_a_minute_ago_does_not_block_a_restart() {
    let config = kept();
    let mut recents = RecentQuits::default();
    let when = Instant::now() - Duration::from_secs(61);
    recents.push("com.keep.me".into(), "Keep Me".into(), when, RecentReason::AutoQuit);
    on_terminated(&config, &mut recents, "com.keep.me".into(), "Keep Me".into());
    assert!(KeepAlive::new().restart(
        &config, &recents, &mut None, "com.keep.me", 7, true, 0, 0, missing
    ));
}

#[test]
fn a_launch_that_is_not_needed_is_not_counted() {
    let config = kept();
    let mut keep_alive = KeepAlive::new();
    let mut exits = None;
    for _ in 0..5 {
        let running = || LaunchFacts { running: true, ..missing() };
        assert!(!keep_alive.restart(
            &config, &none(), &mut exits, "com.keep.me", 7, true, 0, 0, running
        ));
    }
    assert!(keep_alive.consider_restart(&config, "com.keep.me", true, None, 0, 0));
}

#[test]
fn an_ignore_lasts_a_day() {
    let mut store = ConfigStore { data: kept() };
    let mut keep_alive = KeepAlive::new();
    assert_eq!(keep_alive.ignore_for_24_hours(&mut store, "com.Keep.Me", 1000, saves), Ok(87_400));
    assert_eq!(keep_alive.ignore_remaining(&store.data, "com.keep.me", 1000), Some(86_400));
    assert_eq!(ignore_left(&store.data, "COM.KEEP.ME", 87_399), Some(1));
    assert_eq!(ignore_left(&store.data, "com.keep.me", 87_400), None);
    assert!(!launch_if_needed(&store.data, "com.keep.me", 87_399, &missing()));
    assert!(launch_if_needed(&store.data, "com.keep.me", 87_400, &missing()));
    // Checking the Keep box respects it; a restart of the program, too.
    assert!(!keep_alive.keep_checked(&store.data, "com.keep.me", 2000, &missing()));
    assert!(KeepAlive::new().is_paused(&store.data, "com.keep.me", 0, 2000));
    assert_eq!(
        keep_alive.resume_now(&mut store, "com.keep.me", 2000, &missing(), saves),
        Ok(true)
    );
    assert_eq!(ignore_left(&store.data, "com.keep.me", 2000), None);
}

#[test]
fn an_ignore_at_the_end_of_time_lasts_to_the_last_moment() {
    let mut store = ConfigStore { data: kept() };
    let mut keep_alive = KeepAlive::new();
    let start = u64::MAX - 5;
    assert_eq!(keep_alive.ignore_for_24_hours(&mut store, "com.keep.me", start, saves), Ok(u64::MAX));
    assert_eq!(ignore_left(&store.data, "com.keep.me", start), Some(5));
    assert_eq!(ignore_left(&store.data, "com.keep.me", u64::MAX), None);
}

#[test]
fn an_ignore_that_cannot_be_saved_changes_nothing() {
    let mut store = ConfigStore { data: kept() };
    let mut keep_alive = KeepAlive::new();
    keep_alive.note_restart("com.keep.me", 0);
    keep_alive.note_restart("com.keep.me", 0);
    assert_eq!(
        keep_alive.ignore_for_24_hours(&mut store, "com.keep.me", 0, fails),
        Err("disk full")
    );
    assert_eq!(store.data, kept());
    assert!(!keep_alive.consider_restart(&store.data, "com.keep.me", true, None, 0, 0));
    assert_eq!(
        keep_alive.resume_now(&mut store, "com.keep.me", 0, &missing(), fails),
        Err("disk full")
    );
    assert!(keep_alive.is_paused(&store.data, "com.keep.me", 0, 0));
}

#[test]
fn expired_ignores_are_removed_and_the_app_is_seen_to() {
    let mut store = ConfigStore { data: kept() };
    let never = |_: &Config| -> Result<(), ()> { panic!("saved") };
    let r = on_ignore_expired(&mut store, "com.keep.me", 100, 100, &missing(), never);
    assert_eq!(r, (IgnoreStep::Nothing, false));
    store.set_keep_alive_ignored_until("com.keep.me", Some(100), saves).unwrap();
    // The clock went back.
    let r = on_ignore_expired(&mut store, "com.keep.me", 100, 90, &missing(), never);
    assert_eq!(r, (IgnoreStep::Again { secs: 10 }, false));
    // The ignore was extended and has its own timer.
    assert_eq!(ignore_expiry_step(&store.data, "com.keep.me", 50, 90), IgnoreStep::Nothing);
    let r = on_ignore_expired(&mut store, "com.Keep.Me", 50, 100, &missing(), saves);
    assert_eq!(r, (IgnoreStep::Over, true));
    assert_eq!(store.data, kept());
    // Even if the removal cannot be saved, the app is launched.
    store.set_keep_alive_ignored_until("com.keep.me", Some(100), saves).unwrap();
    let r = on_ignore_expired(&mut store, "com.keep.me", 100, 100, &missing(), fails);
    assert_eq!(r, (IgnoreStep::Over, true));
}

#[test]
fn timers_are_set_up_again_for_saved_ignores() {
    let mut store = ConfigStore { data: kept() };
    store.set_keep_alive_ignored_until("B.b", Some(150), saves).unwrap();
    store.set_keep_alive_ignored_until("a.a", Some(50), saves).unwrap();
    let timers: Vec<(String, u64, u64)> = ignore_timers(&store.data, 100)
        .into_iter()
        .map(|timer| (timer.bundle_id, timer.until, timer.secs))
        .collect();
    assert_eq!(timers, vec![("a.a".to_string(), 50, 1), ("b.b".to_string(), 150, 50)]);
    assert_eq!(ignore_timer_secs(100, 100), 1);
    assert_eq!(ignore_timer_secs(u64::MAX, 0), u64::MAX);
}

#[test]
fn missing_apps_are_reconciled_where_that_is_wanted() {
    let mut keep_alive = KeepAlive::new();
    let config = Config {
        keep_alive_apps: vec!["a.a".into(), "b.b".into(), "c.c".into()],
        ..Config::default()
    };
    assert!(keep_alive.reconcile_missing_apps(&config, 0, 0).is_empty());
    let mut store = ConfigStore { data: config };
    store.data.keep_alive_auto_start_missing = true;
    store.set_keep_alive_ignored_until("b.b", Some(10), saves).unwrap();
    keep_alive.note_restart("c.c", 0);
    keep_alive.note_restart("c.c", 0);
    assert!(!keep_alive.consider_restart(&store.data, "c.c", true, None, 0, 0));
    assert_eq!(keep_alive.reconcile_missing_apps(&store.data, 0, 0), vec!["a.a"]);
    assert_eq!(keep_alive.reconcile(&store.data, DAY, 10), vec!["a.a", "b.b", "c.c"]);
}
