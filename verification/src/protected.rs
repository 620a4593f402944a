//! System processes that must never be auto-quit.
//!
//! The protection is enforced in three places: the quit decision, the
//! settings app list (protected apps are not shown at all) and the
//! "Add App…" panel.
use vstd::prelude::*;

use crate::paths::{below, path_starts_with};
use crate::text::{ascii, chars_of, finishes_with, full_lower, lower, same, same_text};

verus! {

/// Bundle IDs of protected apps, in lower case.
pub open spec fn protected_bundle_ids() -> Seq<Seq<char>> {
    seq![
        // Core system UI: quitting these breaks the desktop.
        "com.apple.finder"@,
        "com.apple.spotlight"@,
        "com.apple.notificationcenterui"@,
        "com.apple.systemuiserver"@,
        "com.apple.dock"@,
        "com.apple.controlcenter"@,
        "com.apple.windowmanager"@,
        "com.apple.textinputmenuagent"@,
        "com.apple.systemevents"@,
        "com.apple.backboardd"@,
        "com.apple.loginwindow"@,
        "com.apple.coreservices.uiagent"@,
        // Wizards and tools where an interruption could do real damage.
        "com.apple.migrateassistant"@,
        "com.apple.bootcampassistant"@,
        "com.apple.diskutility"@,
        // Accessibility tools: never pull those away from someone relying on them.
        "com.apple.voiceoverutility"@,
        "com.apple.magnifier"@,
        // Audio calls keep running without any window.
        "com.apple.mobilephone"@,
        // Launcher stubs that never own real windows.
        "com.apple.exposelauncher"@,
        // RustQuit itself.
        "ch.patrick.rustquit"@,
    ]
}

/// An ID that is protected once it is in lower case: a listed one, or one of
/// a launcher stub that only trampolines into a system service.
pub open spec fn protected_when_lower(id: Seq<char>) -> bool {
    ".launcher"@.is_suffix_of(id) || protected_bundle_ids().contains(id)
}

/// Bundle IDs are matched in any case (Apple is not consistent).
pub open spec fn protected_bundle_id(id: Seq<char>) -> bool {
    protected_when_lower(full_lower(id))
}

/// Tests an ID that is already in lower case.
pub fn is_protected_lowercase_id(lower_id: &str) -> (r: bool)
    ensures
        r == protected_when_lower(lower_id@),
{
    if finishes_with(&chars_of(lower_id), &chars_of(".launcher")) {
        return true;
    }
    let ids: [&str; 20] = [
        "com.apple.finder",
        "com.apple.spotlight",
        "com.apple.notificationcenterui",
        "com.apple.systemuiserver",
        "com.apple.dock",
        "com.apple.controlcenter",
        "com.apple.windowmanager",
        "com.apple.textinputmenuagent",
        "com.apple.systemevents",
        "com.apple.backboardd",
        "com.apple.loginwindow",
        "com.apple.coreservices.uiagent",
        "com.apple.migrateassistant",
        "com.apple.bootcampassistant",
        "com.apple.diskutility",
        "com.apple.voiceoverutility",
        "com.apple.magnifier",
        "com.apple.mobilephone",
        "com.apple.exposelauncher",
        "ch.patrick.rustquit",
    ];
    let ghost listed = protected_bundle_ids();
    assert forall|i: int| 0 <= i < 20 implies ids@[i]@ == #[trigger] listed[i] by {}
    for i in 0..ids.len()
        invariant
            ids.len() == 20,
            listed == protected_bundle_ids(),
            forall|j: int| 0 <= j < 20 ==> ids@[j]@ == #[trigger] listed[j],
            forall|j: int| 0 <= j < i ==> lower_id@ != #[trigger] listed[j],
    {
        if same(lower_id, ids[i]) {
            assert(listed[i as int] == lower_id@);
            return true;
        }
    }
    false
}

/// Whether the app with this bundle ID must never be auto-quit.
pub fn is_protected_bundle_id(bundle_id: &str) -> (r: bool)
    ensures
        r == protected_bundle_id(bundle_id@),
{
    is_protected_lowercase_id(bundle_id.to_lowercase().as_str())
}

/// A path that is system infrastructure, whatever the bundle ID.
pub open spec fn protected_system_path(path: Seq<char>) -> bool {
    below(path, "/System/Library"@)
}

/// A path that lies in the system library as written, or once its symbolic
/// links are resolved.
pub open spec fn protected_path(path: Seq<char>, resolved: Option<Seq<char>>) -> bool {
    protected_system_path(path) || (resolved matches Some(target) && protected_system_path(target))
}

/// Defense in depth: everything living under `/System/Library` is system
/// infrastructure. `resolved` is the path with its symbolic links resolved,
/// where it could be.
pub fn is_protected_path(path: &str, resolved: Option<&str>) -> (r: bool)
    ensures
        r == protected_path(
            path@,
            match resolved {
                Some(target) => Some(target@),
                None => None,
            },
        ),
{
    if path_starts_with(path, "/System/Library") {
        return true;
    }
    match resolved {
        Some(target) => path_starts_with(target, "/System/Library"),
        None => false,
    }
}

/// Whether an app is protected does not depend on how its ID is capitalized, as
/// long as the ID is ASCII, as every valid one is.
pub proof fn protection_is_case_blind(id: Seq<char>, other: Seq<char>)
    requires
        ascii(id),
        same_text(id, other),
    ensures
        protected_bundle_id(id) == protected_bundle_id(other),
{
    assert forall|i: int| 0 <= i < other.len() implies (#[trigger] other[i] as u32) < 128 by {
        assert(lower(other).len() == lower(id).len());
        assert(lower(other)[i] == lower(id)[i]);
        assert((id[i] as u32) < 128);
    }
}

} // verus!
