use std::time::{Duration, Instant};

use rustquit::clock::{elapsed_nanos, present_moment};
use rustquit::engine::recent::{
    age_label, age_label_of_nanos, age_label_of_secs, RecentQuits, RecentReason, MAX_ENTRIES,
};

#[test]
fn entries_are_deduplicated_and_bounded() {
    let mut recent = RecentQuits::default();
    for index in 0..10 {
        recent.push_auto_quit(format!("com.example.{index}"), format!("App {index}"));
    }
    assert_eq!(recent.snapshot().len(), MAX_ENTRIES);

    recent.push_keep_termination("com.example.5".into(), "Renamed".into());
    let entries = recent.snapshot();
    assert_eq!(entries[0].bundle_id, "com.example.5");
    assert_eq!(entries[0].name, "Renamed");
    assert_eq!(
        entries
            .iter()
            .filter(|entry| entry.bundle_id == "com.example.5")
            .count(),
        1
    );
}

#[test]
fn age_labels_use_expected_units() {
    assert_eq!(age_label(Instant::now()), "just now");
    assert_eq!(
        age_label(Instant::now() - Duration::from_secs(5 * 60)),
        "5m ago"
    );
    assert_eq!(
        age_label(Instant::now() - Duration::from_secs(2 * 60 * 60)),
        "2h ago"
    );
}

#[test]
fn age_labels_change_at_whole_minutes_and_hours() {
    assert_eq!(age_label_of_secs(0), "just now");
    assert_eq!(age_label_of_secs(59), "just now");
    assert_eq!(age_label_of_secs(60), "1m ago");
    assert_eq!(age_label_of_secs(3599), "59m ago");
    assert_eq!(age_label_of_secs(3600), "1h ago");
    assert_eq!(age_label_of_secs(u128::MAX), format!("{}h ago", u128::MAX / 3600));
    assert_eq!(age_label_of_nanos(59_999_999_999), "just now");
    assert_eq!(age_label_of_nanos(60_000_000_000), "1m ago");
    assert_eq!(age_label_of_nanos(7_200_000_000_000), "2h ago");
}

#[test]
fn newest_entries_come_first_and_the_oldest_are_dropped() {
    let mut recent = RecentQuits::new_handle();
    for index in 0..9 {
        recent.push_auto_quit(format!("com.example.{index}"), String::new());
    }
    let ids: Vec<String> = recent.snapshot().iter().map(|entry| entry.bundle_id.clone()).collect();
    assert_eq!(ids[0], "com.example.8");
    assert_eq!(ids[7], "com.example.1");
}

#[test]
fn an_entry_replaces_one_whose_id_differs_in_case_only() {
    let mut recent = RecentQuits::default();
    recent.push_auto_quit("com.Example.App".into(), "Old".into());
    recent.push_keep_termination("com.example.app".into(), "New".into());
    let entries = recent.snapshot();
    assert_eq!(entries.len(), 1);
    assert_eq!(entries[0].name, "New");
    assert_eq!(entries[0].reason, RecentReason::KeepTermination);
}

#[test]
fn the_age_of_an_automatic_quit_is_known() {
    let mut recent = RecentQuits::default();
    let when = Instant::now() - Duration::from_secs(90);
    recent.push("com.example.a".into(), "A".into(), when, RecentReason::AutoQuit);
    recent.push_keep_termination("com.example.b".into(), "B".into());
    let age = recent.auto_quit_age("COM.EXAMPLE.A").unwrap();
    assert!(age >= 90_000_000_000);
    assert!(age < 120_000_000_000);
    assert_eq!(recent.auto_quit_age("com.example.b"), None);
    assert_eq!(recent.auto_quit_age("com.example.c"), None);
}

#[test]
fn the_moment_of_an_automatic_quit_outlives_its_entry() {
    let mut recents = RecentQuits::default();
    let when = Instant::now() - Duration::from_secs(30);
    recents.push("com.example.A".into(), "A".into(), when, RecentReason::AutoQuit);
    assert_eq!(recents.auto_quit_moment("com.example.a"), Some(when));
    // The termination of a kept app takes the entry's place, not the moment's.
    recents.push_keep_termination("com.example.a".into(), "A".into());
    assert_eq!(recents.snapshot().len(), 1);
    assert_eq!(recents.snapshot()[0].reason, RecentReason::KeepTermination);
    assert_eq!(recents.auto_quit_moment("COM.EXAMPLE.A"), Some(when));
    // Neither does the cut of the list forget it.
    for index in 0..MAX_ENTRIES {
        recents.push_keep_termination(format!("com.other.{index}"), String::new());
    }
    assert!(recents.snapshot().iter().all(|entry| entry.bundle_id != "com.example.a"));
    assert_eq!(recents.auto_quit_moment("com.example.a"), Some(when));
    // A later quit takes its place.
    let later = Instant::now();
    recents.push("com.example.a".into(), "A".into(), later, RecentReason::AutoQuit);
    assert_eq!(recents.auto_quit_moment("com.example.a"), Some(later));
    assert_eq!(recents.auto_quit_moment("com.other.0"), None);
}

#[test]
fn the_clock_tells_the_time_since_a_moment() {
    let nanos = elapsed_nanos(Instant::now() - Duration::from_secs(10));
    assert!(nanos >= 10_000_000_000);
    assert!(nanos < 30_000_000_000);
}

#[test]
fn moments_are_recorded_as_entries_are_added() {
    let start = Instant::now();
    let mut recents = RecentQuits::default();
    for index in 0..20 {
        if index % 3 == 0 {
            recents.push_auto_quit(format!("com.example.{}", index % 11), String::new());
        } else {
            recents.push_keep_termination(format!("com.example.{}", index % 11), String::new());
        }
        let entries = recents.snapshot();
        assert!(entries.len() <= MAX_ENTRIES);
        assert_eq!(entries[0].bundle_id, format!("com.example.{}", index % 11));
        for pair in entries.windows(2) {
            assert!(pair[0].when >= pair[1].when);
            assert_ne!(pair[0].bundle_id, pair[1].bundle_id);
        }
        assert!(entries.iter().all(|entry| entry.when >= start && entry.when <= Instant::now()));
    }
    assert!(present_moment() >= start);
}
