use rustquit::protected::{is_protected_bundle_id, is_protected_path};

#[test]
fn core_system_apps_are_protected() {
    assert!(is_protected_bundle_id("com.apple.finder"));
    assert!(is_protected_bundle_id("com.apple.Spotlight"));
    assert!(is_protected_bundle_id("com.apple.WindowManager"));
    assert!(is_protected_bundle_id("ch.patrick.rustquit"));
}

#[test]
fn normal_apps_are_not_protected() {
    assert!(!is_protected_bundle_id("com.apple.TextEdit"));
    assert!(!is_protected_bundle_id("com.apple.Safari"));
    assert!(!is_protected_bundle_id("org.mozilla.firefox"));
    assert!(!is_protected_bundle_id("com.apple.Terminal"));
    assert!(!is_protected_bundle_id("com.apple.systempreferences"));
}

#[test]
fn wizards_stubs_and_accessibility_tools_are_protected() {
    assert!(is_protected_bundle_id("com.apple.MigrateAssistant"));
    assert!(is_protected_bundle_id("com.apple.bootcampassistant"));
    assert!(is_protected_bundle_id("com.apple.DiskUtility"));
    assert!(is_protected_bundle_id("com.apple.VoiceOverUtility"));
    assert!(is_protected_bundle_id("com.apple.exposelauncher"));
    // Suffix rule for launcher stubs.
    assert!(is_protected_bundle_id("com.apple.siri.launcher"));
    assert!(is_protected_bundle_id("com.apple.backup.launcher"));
    assert!(is_protected_bundle_id("com.apple.screenshot.launcher"));
}

#[test]
fn system_library_paths_are_protected() {
    assert!(is_protected_path("/System/Library/CoreServices/Finder.app", None));
    assert!(!is_protected_path("/System/Applications/TextEdit.app", None));
    assert!(!is_protected_path("/Applications/Safari.app", None));
}

#[test]
fn a_path_is_protected_by_what_it_resolves_to() {
    assert!(is_protected_path("/tmp/SystemLibrary", Some("/System/Library")));
    assert!(!is_protected_path("/tmp/SystemLibrary", Some("/tmp/other")));
    assert!(is_protected_path("/System/Library/x", Some("/tmp/other")));
    assert!(!is_protected_path("/System/LibraryX", None));
    assert!(is_protected_path("//System/./Library//x", None));
}

#[test]
fn letters_beyond_ascii_are_lowered_before_ids_are_compared() {
    // The Kelvin sign is lowered to an ASCII "k".
    assert!(is_protected_bundle_id("com.apple.dis\u{212a}utility"));
}
