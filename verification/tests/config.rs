use rustquit::config::{
    app_support_dir, config_path, is_safe_file, loaded, narrows_permissions, normalize,
    temp_extension, Config, ConfigStore, FileFacts, FilterMode, MAX_CONFIG_BYTES,
};
use rustquit::double::Double;

fn double(value: f64) -> Double {
    Double { bits: value.to_bits() }
}

fn secs(value: Double) -> f64 {
    f64::from_bits(value.bits)
}

fn saves(_: &Config) -> Result<(), &'static str> {
    Ok(())
}

fn fails(_: &Config) -> Result<(), &'static str> {
    Err("disk full")
}

#[test]
fn normalization_is_safe_and_case_insensitive() {
    let mut config = Config {
        mode: FilterMode::Blacklist,
        quit_delay_secs: double(f64::INFINITY),
        enabled: true,
        apps: vec![
            "com.Example.App".into(),
            "com.example.app".into(),
            "../invalid".into(),
        ],
        keep_alive_delay_secs: double(0.0),
        keep_alive_apps: vec!["com.Keep.Me".into(), "no-dot".into()],
        ..Config::default()
    };
    normalize(&mut config);
    assert_eq!(secs(config.quit_delay_secs), 2.0);
    assert_eq!(config.apps, vec!["com.Example.App"]);
    assert_eq!(secs(config.keep_alive_delay_secs), 1.0);
    assert_eq!(config.keep_alive_apps, vec!["com.Keep.Me"]);

    // An app on both lists stays keep-alive only.
    config.apps = vec!["com.keep.me".into(), "com.Other.App".into()];
    normalize(&mut config);
    assert_eq!(config.apps, vec!["com.Other.App"]);
    assert_eq!(config.keep_alive_apps, vec!["com.Keep.Me"]);
}

#[test]
fn update_rolls_back_when_save_fails() {
    let mut store = ConfigStore::load_from(None, || None);
    let previous = store.data.clone();
    assert!(store.update(|config: &mut Config| config.enabled = false, fails).is_err());
    assert_eq!(store.data, previous);
}

#[test]
fn a_saved_update_applies_in_normal_form() {
    let mut store = ConfigStore::load_from(None, || None);
    let mut saved = None;
    let result: Result<(), ()> = store.update(
        |config: &mut Config| {
            config.mode = FilterMode::Blacklist;
            config.apps.push("com.example.Test".into());
            config.apps.push("not an id".into());
        },
        |config: &Config| {
            saved = Some(config.clone());
            Ok(())
        },
    );
    assert!(result.is_ok());
    assert_eq!(store.data.mode, FilterMode::Blacklist);
    assert_eq!(store.data.apps, vec!["com.example.Test"]);
    assert_eq!(saved, Some(store.data));
}

#[test]
fn defaults_do_nothing_until_apps_are_added() {
    let config = Config::default();
    assert_eq!(config.mode, FilterMode::Whitelist);
    assert_eq!(secs(config.quit_delay_secs), 2.0);
    assert!(config.enabled);
    assert!(config.apps.is_empty());
    assert!(config.keep_alive_enabled);
    assert_eq!(secs(config.keep_alive_delay_secs), 10.0);
    assert!(config.keep_alive_loop_protection);
    assert!(config.keep_alive_apps.is_empty());
    assert!(!config.keep_alive_auto_start_missing);
    assert_eq!(config.keep_alive_ignored_until.len(), 0);
}

#[test]
fn delays_are_clamped() {
    let cases = [
        (f64::NAN, 2.0, 10.0),
        (f64::NEG_INFINITY, 2.0, 10.0),
        (-1.0, 0.05, 1.0),
        (-0.0, 0.05, 1.0),
        (0.05, 0.05, 1.0),
        (3.25, 3.25, 3.25),
        (10.0, 10.0, 10.0),
        (10.5, 10.0, 10.5),
        (1e300, 10.0, 60.0),
    ];
    for (given, quit, restart) in cases {
        let mut config = Config {
            quit_delay_secs: double(given),
            keep_alive_delay_secs: double(given),
            ..Config::default()
        };
        normalize(&mut config);
        assert_eq!(secs(config.quit_delay_secs), quit);
        assert_eq!(secs(config.keep_alive_delay_secs), restart);
        let once = config.clone();
        normalize(&mut config);
        assert_eq!(config, once);
    }
}

#[test]
fn apps_are_listed_and_unlisted() {
    let mut store = ConfigStore::load_from(None, || None);
    store.set_app_listed("com.b.App", true, saves).unwrap();
    store.set_app_listed("com.a.App", true, saves).unwrap();
    store.set_app_listed("COM.A.APP", true, saves).unwrap();
    assert_eq!(store.data.apps, vec!["com.a.App", "com.b.App"]);
    // Keeping an app takes it off the quit list.
    store.set_keep_alive_listed("com.a.app", true, saves).unwrap();
    assert_eq!(store.data.apps, vec!["com.b.App"]);
    assert_eq!(store.data.keep_alive_apps, vec!["com.a.app"]);
    store.set_keep_alive_listed("com.A.app", false, saves).unwrap();
    assert!(store.data.keep_alive_apps.is_empty());
    assert_eq!(store.set_app_listed("com.b.app", false, fails), Err("disk full"));
    assert_eq!(store.data.apps, vec!["com.b.App"]);
    store.set_app_listed("com.b.app", false, saves).unwrap();
    assert!(store.data.apps.is_empty());
}

#[test]
fn ignores_are_kept_by_lower_case_id() {
    let mut store = ConfigStore::load_from(None, || None);
    store.set_keep_alive_ignored_until("com.Example.App", Some(77), saves).unwrap();
    assert_eq!(store.data.keep_alive_ignored_until.get("com.example.app"), Some(&77));
    assert_eq!(store.data.keep_alive_ignored_until.get("com.Example.App"), None);
    store.set_keep_alive_ignored_until("COM.EXAMPLE.APP", None, saves).unwrap();
    assert_eq!(store.data.keep_alive_ignored_until.len(), 0);
}

#[test]
fn only_small_regular_files_are_read() {
    let regular = Some(FileFacts { regular: true, len: 10 });
    let large = Some(FileFacts { regular: true, len: MAX_CONFIG_BYTES + 1 });
    let largest = Some(FileFacts { regular: true, len: MAX_CONFIG_BYTES });
    let link = Some(FileFacts { regular: false, len: 10 });
    assert!(is_safe_file(regular));
    assert!(is_safe_file(largest));
    assert!(!is_safe_file(large));
    assert!(!is_safe_file(link));
    assert!(!is_safe_file(None));
    assert!(narrows_permissions(large));
    assert!(!narrows_permissions(link));
    assert!(!narrows_permissions(None));

    let disabled = || Some(Config { enabled: false, ..Config::default() });
    assert!(!ConfigStore::load_from(regular, disabled).data.enabled);
    // What must not be read yields the defaults, and is not read.
    let unread = ConfigStore::load_from(link, || panic!("read"));
    assert_eq!(unread.data, Config::default());
    // What cannot be parsed yields the defaults.
    assert_eq!(ConfigStore::load_from(regular, || None).data, Config::default());
}

#[test]
fn loaded_settings_are_normalized() {
    let config = Config { apps: vec!["b.b".into(), "a.a".into(), "B.B".into()], ..Config::default() };
    assert_eq!(loaded(Some(config)).apps, vec!["a.a", "b.b"]);
    assert_eq!(loaded(None), Config::default());
}

#[test]
fn files_live_in_the_support_directory() {
    let dir = app_support_dir(Some("/Users/me/Library/Application Support".into()), None, "/tmp", 501);
    assert_eq!(dir, "/Users/me/Library/Application Support/rustquit");
    let dir = app_support_dir(None, Some("/Users/me".into()), "/tmp", 501);
    assert_eq!(dir, "/Users/me/Library/Application Support/rustquit");
    let dir = app_support_dir(None, None, "/tmp/", 501);
    assert_eq!(dir, "/tmp/rustquit-uid-501/rustquit");
    assert_eq!(config_path(&dir), "/tmp/rustquit-uid-501/rustquit/config.toml");
}

#[test]
fn temporary_files_carry_process_time_and_counter() {
    assert_eq!(temp_extension(12, 1_700_000_000_000_000_000_000, 3), "toml.tmp.12.1700000000000000000000.3");
    assert_eq!(temp_extension(0, 0, 0), "toml.tmp.0.0.0");
}
