//! Which apps may be quit: laws on the lists, the modes and the protected apps.
use vstd::prelude::*;

use crate::bundle_ids::names;
use crate::config::{default_settings, ConfigView, FilterMode};
use crate::engine::policy::{hidden_by_user, may_quit, quit_allowed, FactsView};
use crate::laws::path::joined_paths_lie_below;
use crate::paths::{below, joined};
use crate::protected::{
    protected_bundle_id, protected_bundle_ids, protected_path, protected_when_lower,
};
use crate::text::{ascii, lower, same_text, unicode_lower};

verus! {

/// The converse of the exclusions: while quitting is on, an app that is neither
/// protected nor kept may be quit exactly if it is on the list of apps to quit, or
/// exactly if it is not on the list of apps to spare.
pub proof fn nothing_but_the_exclusions_spares_an_app(config: ConfigView, bundle_id: Seq<char>)
    requires
        config.enabled,
        !protected_bundle_id(bundle_id),
        !names(config.keep_alive_apps, bundle_id),
    ensures
        config.mode == FilterMode::Whitelist ==> (quit_allowed(config, Some(bundle_id)) <==> names(
            config.apps,
            bundle_id,
        )),
        config.mode == FilterMode::Blacklist ==> (quit_allowed(config, Some(bundle_id)) <==> !names(
            config.apps,
            bundle_id,
        )),
{
}

/// Whether an app may be quit depends on that app's own place in the settings
/// alone: two settings that are both on, have the same mode and agree on whether
/// the app is listed and whether it is kept agree on whether it may be quit,
/// whatever else is on their lists and however they are set otherwise.
pub proof fn other_apps_do_not_matter(config: ConfigView, other: ConfigView, app: FactsView)
    requires
        app.bundle_id is Some,
        config.enabled == other.enabled,
        config.mode == other.mode,
        names(config.apps, app.bundle_id->0) == names(other.apps, app.bundle_id->0),
        names(config.keep_alive_apps, app.bundle_id->0) == names(
            other.keep_alive_apps,
            app.bundle_id->0,
        ),
    ensures
        quit_allowed(config, app.bundle_id) == quit_allowed(other, app.bundle_id),
        may_quit(config, app) == may_quit(other, app),
{
}

/// The two modes are opposites: of an app that is not excluded, exactly one of
/// them allows the quit. And keeping an app, in either mode, spares it.
pub proof fn the_modes_are_opposites(config: ConfigView, bundle_id: Seq<char>)
    ensures
        ({
            let (white, black) = (
                ConfigView { mode: FilterMode::Whitelist, ..config },
                ConfigView { mode: FilterMode::Blacklist, ..config },
            );
            let spared = !config.enabled || protected_bundle_id(bundle_id) || names(
                config.keep_alive_apps,
                bundle_id,
            );
            &&& spared ==> !quit_allowed(white, Some(bundle_id)) && !quit_allowed(
                black,
                Some(bundle_id),
            )
            &&& !spared ==> quit_allowed(white, Some(bundle_id)) != quit_allowed(
                black,
                Some(bundle_id),
            )
            &&& !quit_allowed(config, None)
        }),
{
}

/// A regular app that lives outside the system library may be quit exactly if the
/// settings allow it; one that lives inside, as its path is written or resolved,
/// and one that is not regular, never.
pub proof fn regular_apps_go_by_the_settings(config: ConfigView, app: FactsView)
    ensures
        may_quit(config, app) <==> app.regular && quit_allowed(config, app.bundle_id) && (
        app.path is None || (!below(app.path->0, "/System/Library"@) && (app.resolved_path is None
            || !below(app.resolved_path->0, "/System/Library"@)))),
{
}

/// Everything that is reached from the system library downward is protected.
pub proof fn the_system_library_is_protected(path: Seq<char>, resolved: Option<Seq<char>>)
    requires
        path.len() == 0 || path[0] != '/',
    ensures
        protected_path(joined("/System/Library"@, path), resolved),
        protected_path(path, Some(joined("/System/Library"@, path))),
{
    joined_paths_lie_below("/System/Library"@, path);
}

/// An app that is hidden is left alone because the user hid it, unless it is the
/// one that hides itself when its window is closed and a window of it was ordered
/// out. One that is not hidden never is.
pub proof fn hidden_apps_are_left_alone(last_ordered_out: usize, app: FactsView)
    ensures
        hidden_by_user(last_ordered_out, app) ==> app.hidden,
        app.hidden && last_ordered_out == 0 ==> hidden_by_user(last_ordered_out, app),
        app.hidden && app.bundle_id is None ==> hidden_by_user(last_ordered_out, app),
        app.hidden && app.bundle_id is Some ==> (hidden_by_user(last_ordered_out, app)
            <==> last_ordered_out == 0 || !same_text(app.bundle_id->0, "com.hnc.Discord"@)),
{
    reveal_strlit("com.hnc.Discord");
    reveal_strlit("com.hnc.discord");
    assert(lower("com.hnc.Discord"@) =~= lower("com.hnc.discord"@));
}

/// Which IDs are protected, in lower case: those of launcher stubs, whatever
/// stands before the ending, those of core system apps, and RustQuit's own. No
/// other is.
pub proof fn the_protected_ids(id: Seq<char>)
    ensures
        protected_when_lower(id + ".launcher"@),
        protected_when_lower(id) ==> ".launcher"@.is_suffix_of(id) || id == "com.apple.finder"@
            || id == "com.apple.spotlight"@ || id == "com.apple.notificationcenterui"@ || id
            == "com.apple.systemuiserver"@ || id == "com.apple.dock"@ || id
            == "com.apple.controlcenter"@ || id == "com.apple.windowmanager"@ || id
            == "com.apple.textinputmenuagent"@ || id == "com.apple.systemevents"@ || id
            == "com.apple.backboardd"@ || id == "com.apple.loginwindow"@ || id
            == "com.apple.coreservices.uiagent"@ || id == "com.apple.migrateassistant"@ || id
            == "com.apple.bootcampassistant"@ || id == "com.apple.diskutility"@ || id
            == "com.apple.voiceoverutility"@ || id == "com.apple.magnifier"@ || id
            == "com.apple.mobilephone"@ || id == "com.apple.exposelauncher"@ || id
            == "ch.patrick.rustquit"@,
        protected_when_lower("com.apple.finder"@),
        protected_when_lower("com.apple.spotlight"@),
        protected_when_lower("com.apple.notificationcenterui"@),
        protected_when_lower("com.apple.systemuiserver"@),
        protected_when_lower("com.apple.dock"@),
        protected_when_lower("com.apple.controlcenter"@),
        protected_when_lower("com.apple.windowmanager"@),
        protected_when_lower("com.apple.textinputmenuagent"@),
        protected_when_lower("com.apple.systemevents"@),
        protected_when_lower("com.apple.backboardd"@),
        protected_when_lower("com.apple.loginwindow"@),
        protected_when_lower("com.apple.coreservices.uiagent"@),
        protected_when_lower("com.apple.migrateassistant"@),
        protected_when_lower("com.apple.bootcampassistant"@),
        protected_when_lower("com.apple.diskutility"@),
        protected_when_lower("com.apple.voiceoverutility"@),
        protected_when_lower("com.apple.magnifier"@),
        protected_when_lower("com.apple.mobilephone"@),
        protected_when_lower("com.apple.exposelauncher"@),
        protected_when_lower("ch.patrick.rustquit"@),
{
    let ids = protected_bundle_ids();
    let stub = id + ".launcher"@;
    assert(stub.subrange(id.len() as int, stub.len() as int) =~= ".launcher"@);
    assert(ids[0] == "com.apple.finder"@ && ids[1] == "com.apple.spotlight"@);
    assert(ids[2] == "com.apple.notificationcenterui"@ && ids[3] == "com.apple.systemuiserver"@);
    assert(ids[4] == "com.apple.dock"@ && ids[5] == "com.apple.controlcenter"@);
    assert(ids[6] == "com.apple.windowmanager"@ && ids[7] == "com.apple.textinputmenuagent"@);
    assert(ids[8] == "com.apple.systemevents"@ && ids[9] == "com.apple.backboardd"@);
    assert(ids[10] == "com.apple.loginwindow"@ && ids[11] == "com.apple.coreservices.uiagent"@);
    assert(ids[12] == "com.apple.migrateassistant"@ && ids[13] == "com.apple.bootcampassistant"@);
    assert(ids[14] == "com.apple.diskutility"@ && ids[15] == "com.apple.voiceoverutility"@);
    assert(ids[16] == "com.apple.magnifier"@ && ids[17] == "com.apple.mobilephone"@);
    assert(ids[18] == "com.apple.exposelauncher"@ && ids[19] == "ch.patrick.rustquit"@);
}

/// An ID is protected exactly if its lower-case form is: the ASCII one of an
/// ASCII ID, the Unicode one of any other.
pub proof fn protection_goes_by_the_lower_case_form(id: Seq<char>)
    ensures
        ascii(id) ==> protected_bundle_id(id) == protected_when_lower(lower(id)),
        !ascii(id) ==> protected_bundle_id(id) == protected_when_lower(unicode_lower(id)),
{
}

/// A new installation quits nothing and keeps nothing, until apps are chosen.
pub proof fn nothing_is_quit_until_chosen(bundle_id: Option<Seq<char>>, id: Seq<char>)
    ensures
        !quit_allowed(default_settings(), bundle_id),
        !names(default_settings().keep_alive_apps, id),
        default_settings().enabled,
        default_settings().keep_alive_enabled,
        default_settings().keep_alive_loop_protection,
        !default_settings().keep_alive_auto_start_missing,
        default_settings().mode == FilterMode::Whitelist,
        forall|key: Seq<char>| !default_settings().keep_alive_ignored_until.contains_key(key),
{
}

} // verus!
