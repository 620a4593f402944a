//! Which apps may be quit automatically.
use vstd::prelude::*;

use crate::bundle_ids::{is_listed, names, names_is_case_blind};
use crate::config::{Config, ConfigView, FilterMode};
use crate::protected::{
    is_protected_bundle_id, is_protected_path, protected_bundle_id, protected_path,
};
use crate::text::{opt_str, opt_text, same_ignoring_case, same_text};

verus! {

/// What the system says of a running app at the moment of a decision.
#[derive(Debug)]
pub struct AppFacts {
    /// A regular Dock app, not one that lives in the menu bar or in the
    /// background.
    pub regular: bool,
    /// Where its bundle is.
    pub path: Option<String>,
    /// Where that path leads when links are followed.
    pub resolved_path: Option<String>,
    pub bundle_id: Option<String>,
    pub hidden: bool,
    pub terminated: bool,
    pub finished_launching: bool,
}

/// The contents of the facts.
pub ghost struct FactsView {
    pub regular: bool,
    pub path: Option<Seq<char>>,
    pub resolved_path: Option<Seq<char>>,
    pub bundle_id: Option<Seq<char>>,
    pub hidden: bool,
    pub terminated: bool,
    pub finished_launching: bool,
}

impl View for AppFacts {
    type V = FactsView;

    open spec fn view(&self) -> FactsView {
        FactsView {
            regular: self.regular,
            path: opt_text(self.path),
            resolved_path: opt_text(self.resolved_path),
            bundle_id: opt_text(self.bundle_id),
            hidden: self.hidden,
            terminated: self.terminated,
            finished_launching: self.finished_launching,
        }
    }
}

/// The settings allow that the app is quit. Apps without a bundle ID,
/// protected apps and apps on the keep-alive list never are, even while the
/// keep-alive master toggle is off.
pub open spec fn quit_allowed(config: ConfigView, bundle_id: Option<Seq<char>>) -> bool {
    &&& config.enabled
    &&& bundle_id is Some
    &&& !protected_bundle_id(bundle_id->0)
    &&& !names(config.keep_alive_apps, bundle_id->0)
    &&& match config.mode {
        FilterMode::Whitelist => names(config.apps, bundle_id->0),
        FilterMode::Blacklist => !names(config.apps, bundle_id->0),
    }
}

/// Whether the settings allow that the app is quit.
pub fn decide_quit(config: &Config, bundle_id: Option<&str>) -> (r: bool)
    ensures
        r == quit_allowed(config@, opt_str(bundle_id)),
{
    if !config.enabled {
        return false;
    }
    let Some(bundle_id) = bundle_id else {
        // Never touch apps without a bundle ID (bare binaries).
        return false;
    };
    if is_protected_bundle_id(bundle_id) {
        return false;
    }
    // Quitting a kept app is clearly against the user's intent, and would make
    // RustQuit fight itself.
    if is_listed(&config.keep_alive_apps, bundle_id) {
        return false;
    }
    let listed = is_listed(&config.apps, bundle_id);
    match config.mode {
        FilterMode::Whitelist => listed,
        FilterMode::Blacklist => !listed,
    }
}

/// The app may be quit, as it is and as the settings are at this moment.
pub open spec fn may_quit(config: ConfigView, app: FactsView) -> bool {
    &&& app.regular
    &&& !(app.path is Some && protected_path(app.path->0, app.resolved_path))
    &&& quit_allowed(config, app.bundle_id)
}

/// Whether the app may be quit, as it is and as the settings are now.
///
/// The activation policy counts as it is now, not as it was when the app was
/// first seen: menu bar apps that become regular only while a window is open
/// switch back as the window closes, and must keep living in the menu bar.
pub fn should_quit(config: &Config, app: &AppFacts) -> (r: bool)
    ensures
        r == may_quit(config@, app@),
{
    if !app.regular {
        return false;
    }
    // Defense in depth: never touch anything under /System/Library/.
    if let Some(path) = &app.path {
        let resolved = match &app.resolved_path {
            Some(resolved) => Some(resolved.as_str()),
            None => None,
        };
        if is_protected_path(path.as_str(), resolved) {
            return false;
        }
    }
    match &app.bundle_id {
        Some(bundle_id) => decide_quit(config, Some(bundle_id.as_str())),
        None => decide_quit(config, None),
    }
}

/// An app that hides itself when its last window is closed. From the outside
/// that state cannot be told from the user hiding it.
pub open spec fn closes_to_background(bundle_id: Seq<char>) -> bool {
    same_text(bundle_id, "com.hnc.discord"@)
}

/// The app is hidden, and that is not just its own reaction to its last window
/// being closed.
pub open spec fn hidden_by_user(last_ordered_out: usize, app: FactsView) -> bool {
    &&& app.hidden
    &&& !(last_ordered_out > 0 && app.bundle_id is Some && closes_to_background(app.bundle_id->0))
}

/// Whether the app is hidden in a way that forbids quitting it. Hiding an app
/// must never lead to a quit, except for apps that close to the background and
/// whose last recount found a window ordered out: there the hiding was the
/// app's own reaction to its last window being closed.
pub fn hidden_blocks_quit(last_ordered_out: usize, app: &AppFacts) -> (r: bool)
    ensures
        r == hidden_by_user(last_ordered_out, app@),
{
    if !app.hidden {
        return false;
    }
    if last_ordered_out == 0 {
        return true;
    }
    match &app.bundle_id {
        Some(bundle_id) => !same_ignoring_case(bundle_id.as_str(), "com.hnc.discord"),
        None => true,
    }
}

/// No app is quit while quitting is disabled; nor one without a bundle ID, a
/// protected one, one on the keep-alive list whatever else is set, one that is
/// not a regular Dock app, or one below a protected path.
pub proof fn exclusions_always_win(config: ConfigView, app: FactsView)
    ensures
        !config.enabled ==> !may_quit(config, app),
        app.bundle_id is None ==> !may_quit(config, app),
        app.bundle_id is Some && protected_bundle_id(app.bundle_id->0) ==> !may_quit(config, app),
        app.bundle_id is Some && names(config.keep_alive_apps, app.bundle_id->0) ==> !may_quit(
            config,
            app,
        ),
        !app.regular ==> !may_quit(config, app),
        app.path is Some && protected_path(app.path->0, app.resolved_path) ==> !may_quit(
            config,
            app,
        ),
{
}

/// With a whitelist only listed apps are quit, with a blacklist only apps that
/// are not listed, and it does not matter how an ID is capitalized in the
/// lists.
pub proof fn the_mode_decides_what_the_list_means(
    config: ConfigView,
    bundle_id: Seq<char>,
    spelling: Seq<char>,
)
    requires
        quit_allowed(config, Some(bundle_id)),
        same_text(bundle_id, spelling),
    ensures
        config.mode == FilterMode::Whitelist ==> names(config.apps, spelling),
        config.mode == FilterMode::Blacklist ==> !names(config.apps, spelling),
        !names(config.keep_alive_apps, spelling),
{
    names_is_case_blind(config.apps, bundle_id, spelling);
    names_is_case_blind(config.keep_alive_apps, bundle_id, spelling);
}

} // verus!
