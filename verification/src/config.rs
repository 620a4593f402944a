//! The settings, and the rules that keep them safe to use.
//!
//! A corrupt or missing settings file never matters: it just yields the
//! defaults.
use vstd::prelude::*;

use crate::bundle_ids::{
    copy_list, ids_ascend, names, normalize_app_list, relisted, remove_all, set_listed, sorted_ids,
    stored_form, stored_form_is_sorted_valid_and_stable, valid_id, without_all,
    without_all_names_the_rest, without_all_stays_stored, MAX_APPS,
};
use crate::delay::{
    DEFAULT_QUIT_DELAY_BITS, DEFAULT_RESTART_DELAY_BITS, MAX_QUIT_DELAY_BITS,
    MAX_RESTART_DELAY_BITS, MIN_QUIT_DELAY_BITS, MIN_RESTART_DELAY_BITS,
};
use crate::double::{
    magnitude, normalized_is_in_range_and_stable, pattern_order_is_value_order, Double,
};
use crate::name_map::NameMap;
use crate::paths::{join, joined};
use crate::text::{append_text, decimal, decimal_of, lower, opt_text, texts, to_lower};

verus! {

/// The largest settings file that is read.
pub const MAX_CONFIG_BYTES: u64 = 0x10_0000;

/// What the list of apps means.
#[derive(Debug, Clone, Copy, PartialEq, Eq, Structural)]
pub enum FilterMode {
    /// Quit all apps except the listed ones.
    Blacklist,
    /// Quit only the listed apps.
    Whitelist,
}

/// The settings.
#[derive(Debug, PartialEq)]
pub struct Config {
    pub mode: FilterMode,
    pub quit_delay_secs: Double,
    pub enabled: bool,
    /// Bundle IDs; their meaning depends on the mode.
    pub apps: Vec<String>,
    /// Master toggle for relaunching the keep-alive apps.
    pub keep_alive_enabled: bool,
    /// Wait after a keep-alive app terminates before relaunching it, so
    /// self-relaunching updaters win the race.
    pub keep_alive_delay_secs: Double,
    /// After repeated automatic restarts within an hour, pause keep-alive
    /// for the app until the next day (guards against crash loops).
    pub keep_alive_loop_protection: bool,
    /// Bundle IDs to keep running. Listed apps are never auto-quit, even
    /// while the keep-alive master toggle is off.
    pub keep_alive_apps: Vec<String>,
    /// Also start keep-alive apps that were quit on purpose or never ran.
    pub keep_alive_auto_start_missing: bool,
    /// Until when keep-alive leaves an app alone: seconds since the epoch by
    /// the bundle ID in lower case.
    pub keep_alive_ignored_until: NameMap<u64>,
}

/// The contents of the settings.
#[verifier::ext_equal]
pub ghost struct ConfigView {
    pub mode: FilterMode,
    pub quit_delay_secs: Double,
    pub enabled: bool,
    pub apps: Seq<Seq<char>>,
    pub keep_alive_enabled: bool,
    pub keep_alive_delay_secs: Double,
    pub keep_alive_loop_protection: bool,
    pub keep_alive_apps: Seq<Seq<char>>,
    pub keep_alive_auto_start_missing: bool,
    pub keep_alive_ignored_until: Map<Seq<char>, u64>,
}

impl View for Config {
    type V = ConfigView;

    open spec fn view(&self) -> ConfigView {
        ConfigView {
            mode: self.mode,
            quit_delay_secs: self.quit_delay_secs,
            enabled: self.enabled,
            apps: texts(self.apps@),
            keep_alive_enabled: self.keep_alive_enabled,
            keep_alive_delay_secs: self.keep_alive_delay_secs,
            keep_alive_loop_protection: self.keep_alive_loop_protection,
            keep_alive_apps: texts(self.keep_alive_apps@),
            keep_alive_auto_start_missing: self.keep_alive_auto_start_missing,
            keep_alive_ignored_until: self.keep_alive_ignored_until@,
        }
    }
}

/// The settings that apply until others are chosen. They are deliberately
/// conservative: a whitelist that names no app quits nothing.
pub open spec fn default_settings() -> ConfigView {
    ConfigView {
        mode: FilterMode::Whitelist,
        quit_delay_secs: Double { bits: DEFAULT_QUIT_DELAY_BITS },
        enabled: true,
        apps: Seq::empty(),
        keep_alive_enabled: true,
        keep_alive_delay_secs: Double { bits: DEFAULT_RESTART_DELAY_BITS },
        keep_alive_loop_protection: true,
        keep_alive_apps: Seq::empty(),
        keep_alive_auto_start_missing: false,
        keep_alive_ignored_until: Map::empty(),
    }
}

/// The settings with the delays in their ranges and both lists in the form in
/// which they are stored. No app is on both lists: keep-alive wins.
pub open spec fn normal_settings(config: ConfigView) -> ConfigView {
    let kept = stored_form(config.keep_alive_apps);
    ConfigView {
        quit_delay_secs: config.quit_delay_secs.normalized(
            Double { bits: DEFAULT_QUIT_DELAY_BITS },
            Double { bits: MIN_QUIT_DELAY_BITS },
            Double { bits: MAX_QUIT_DELAY_BITS },
        ),
        keep_alive_delay_secs: config.keep_alive_delay_secs.normalized(
            Double { bits: DEFAULT_RESTART_DELAY_BITS },
            Double { bits: MIN_RESTART_DELAY_BITS },
            Double { bits: MAX_RESTART_DELAY_BITS },
        ),
        apps: without_all(stored_form(config.apps), kept),
        keep_alive_apps: kept,
        ..config
    }
}

/// The settings with another quit list.
pub open spec fn with_apps(config: ConfigView, apps: Seq<Seq<char>>) -> ConfigView {
    ConfigView { apps, ..config }
}

/// The settings with another keep-alive list.
pub open spec fn with_keep_alive_apps(config: ConfigView, apps: Seq<Seq<char>>) -> ConfigView {
    ConfigView { keep_alive_apps: apps, ..config }
}

/// The settings with an app ignored by keep-alive until a moment, or no longer
/// ignored.
pub open spec fn with_ignored_until(
    config: ConfigView,
    bundle_id: Seq<char>,
    until: Option<u64>,
) -> ConfigView {
    ConfigView {
        keep_alive_ignored_until: match until {
            Some(until) => config.keep_alive_ignored_until.insert(lower(bundle_id), until),
            None => config.keep_alive_ignored_until.remove(lower(bundle_id)),
        },
        ..config
    }
}

impl Default for Config {
    fn default() -> (r: Config)
        ensures
            r@ == default_settings(),
    {
        let apps: Vec<String> = Vec::new();
        let keep_alive_apps: Vec<String> = Vec::new();
        let r = Config {
            mode: FilterMode::Whitelist,
            quit_delay_secs: Double { bits: DEFAULT_QUIT_DELAY_BITS },
            enabled: true,
            apps,
            keep_alive_enabled: true,
            keep_alive_delay_secs: Double { bits: DEFAULT_RESTART_DELAY_BITS },
            keep_alive_loop_protection: true,
            keep_alive_apps,
            keep_alive_auto_start_missing: false,
            keep_alive_ignored_until: NameMap::new(),
        };
        assert(r@ =~= default_settings());
        r
    }
}

impl Clone for Config {
    fn clone(&self) -> (r: Config)
        ensures
            r@ == self@,
    {
        Config {
            mode: self.mode,
            quit_delay_secs: self.quit_delay_secs,
            enabled: self.enabled,
            apps: copy_list(&self.apps),
            keep_alive_enabled: self.keep_alive_enabled,
            keep_alive_delay_secs: self.keep_alive_delay_secs,
            keep_alive_loop_protection: self.keep_alive_loop_protection,
            keep_alive_apps: copy_list(&self.keep_alive_apps),
            keep_alive_auto_start_missing: self.keep_alive_auto_start_missing,
            keep_alive_ignored_until: self.keep_alive_ignored_until.copy(),
        }
    }
}

/// Brings settings into the form in which they are used and stored.
pub fn normalize(config: &mut Config)
    ensures
        final(config)@ == normal_settings(old(config)@),
{
    config.quit_delay_secs =
    config.quit_delay_secs.normalize(
        Double { bits: DEFAULT_QUIT_DELAY_BITS },
        Double { bits: MIN_QUIT_DELAY_BITS },
        Double { bits: MAX_QUIT_DELAY_BITS },
    );
    config.keep_alive_delay_secs =
    config.keep_alive_delay_secs.normalize(
        Double { bits: DEFAULT_RESTART_DELAY_BITS },
        Double { bits: MIN_RESTART_DELAY_BITS },
        Double { bits: MAX_RESTART_DELAY_BITS },
    );
    normalize_app_list(&mut config.apps);
    normalize_app_list(&mut config.keep_alive_apps);
    config.apps = remove_all(&config.apps, &config.keep_alive_apps);
}

/// The settings in use.
#[derive(Debug)]
pub struct ConfigStore {
    pub data: Config,
}

impl ConfigStore {
    /// Applies a change and saves the result. If it cannot be saved, the
    /// settings stay as they were.
    pub fn update<E, C: FnOnce(&mut Config), S: FnOnce(&Config) -> Result<(), E>>(
        &mut self,
        change: C,
        save: S,
    ) -> (r: Result<(), E>)
        requires
            forall|config: &mut Config|
                config@ == old(self).data@ ==> #[trigger] change.requires((config,)),
            forall|config: &Config| save.requires((config,)),
        ensures
            exists|config: &mut Config, saved: &Config|
                {
                    &&& config@ == old(self).data@
                    &&& change.ensures((config,), ())
                    &&& saved@ == normal_settings(final(config)@)
                    &&& save.ensures((saved,), r)
                    &&& final(self).data@ == match r {
                        Ok(_) => saved@,
                        Err(_) => old(self).data@,
                    }
                },
    {
        let mut config = self.data.clone();
        change(&mut config);
        normalize(&mut config);
        let r = save(&config);
        if r.is_ok() {
            self.data = config;
        }
        r
    }

    /// Adds a bundle ID to the quit list or removes it, then saves.
    pub fn set_app_listed<E, S: FnOnce(&Config) -> Result<(), E>>(
        &mut self,
        bundle_id: &str,
        listed: bool,
        save: S,
    ) -> (r: Result<(), E>)
        requires
            forall|config: &Config| save.requires((config,)),
        ensures
            saved_or_kept(
                old(self).data@,
                with_apps(old(self).data@, relisted(old(self).data@.apps, bundle_id@, listed)),
                save,
                r,
                final(self).data@,
            ),
    {
        let change = |config: &mut Config| -> (u: ())
            ensures
                final(config)@ == with_apps(
                    old(config)@,
                    relisted(old(config)@.apps, bundle_id@, listed),
                ),
            { set_listed(&mut config.apps, bundle_id, listed) };
        self.update(change, save)
    }

    /// Adds a bundle ID to the keep-alive list or removes it, then saves.
    pub fn set_keep_alive_listed<E, S: FnOnce(&Config) -> Result<(), E>>(
        &mut self,
        bundle_id: &str,
        listed: bool,
        save: S,
    ) -> (r: Result<(), E>)
        requires
            forall|config: &Config| save.requires((config,)),
        ensures
            saved_or_kept(
                old(self).data@,
                with_keep_alive_apps(
                    old(self).data@,
                    relisted(old(self).data@.keep_alive_apps, bundle_id@, listed),
                ),
                save,
                r,
                final(self).data@,
            ),
    {
        let change = |config: &mut Config| -> (u: ())
            ensures
                final(config)@ == with_keep_alive_apps(
                    old(config)@,
                    relisted(old(config)@.keep_alive_apps, bundle_id@, listed),
                ),
            { set_listed(&mut config.keep_alive_apps, bundle_id, listed) };
        self.update(change, save)
    }

    /// Has keep-alive ignore an app until a moment, in seconds since the
    /// epoch, or no longer ignore it, then saves.
    pub fn set_keep_alive_ignored_until<E, S: FnOnce(&Config) -> Result<(), E>>(
        &mut self,
        bundle_id: &str,
        until: Option<u64>,
        save: S,
    ) -> (r: Result<(), E>)
        requires
            forall|config: &Config| save.requires((config,)),
        ensures
            saved_or_kept(
                old(self).data@,
                with_ignored_until(old(self).data@, bundle_id@, until),
                save,
                r,
                final(self).data@,
            ),
    {
        let change = |config: &mut Config| -> (u: ())
            ensures
                final(config)@ == with_ignored_until(old(config)@, bundle_id@, until),
            { ignore_until(config, bundle_id, until) };
        self.update(change, save)
    }

    /// The settings that a file gives. They are read only from a regular file
    /// that is not too large; what is missing, unsafe or unreadable yields the
    /// defaults.
    pub fn load_from<R: FnOnce() -> Option<Config>>(file: Option<FileFacts>, read: R) -> (r:
        ConfigStore)
        requires
            read.requires(()),
        ensures
            !safe_file(file) ==> r.data@ == default_settings(),
            safe_file(file) ==> exists|parsed: Option<Config>| #[trigger]
                read.ensures((), parsed) && r.data@ == loaded_settings(parsed),
    {
        if is_safe_file(file) {
            ConfigStore { data: loaded(read()) }
        } else {
            ConfigStore { data: Config::default() }
        }
    }
}

/// Has keep-alive ignore an app until a moment, or no longer ignore it.
fn ignore_until(config: &mut Config, bundle_id: &str, until: Option<u64>)
    ensures
        final(config)@ == with_ignored_until(old(config)@, bundle_id@, until),
{
    let key = to_lower(bundle_id);
    match until {
        Some(until) => config.keep_alive_ignored_until.insert(key, until),
        None => config.keep_alive_ignored_until.remove(key.as_str()),
    }
}

/// What is known of a settings file before it is read.
#[derive(Debug, Clone, Copy)]
pub struct FileFacts {
    /// A regular file, not a directory or a link.
    pub regular: bool,
    pub len: u64,
}

/// The file may be read.
pub open spec fn safe_file(file: Option<FileFacts>) -> bool {
    file is Some && file->0.regular && file->0.len <= MAX_CONFIG_BYTES
}

/// Whether the file may be read: it is a regular one and not too large.
pub fn is_safe_file(file: Option<FileFacts>) -> (r: bool)
    ensures
        r == safe_file(file),
{
    match file {
        Some(facts) => facts.regular && facts.len <= MAX_CONFIG_BYTES,
        None => false,
    }
}

/// Whether the file's permissions are to be narrowed to its owner: that of any
/// regular file, whatever it holds.
pub fn narrows_permissions(file: Option<FileFacts>) -> (r: bool)
    ensures
        r == (file is Some && file->0.regular),
{
    match file {
        Some(facts) => facts.regular,
        None => false,
    }
}

/// The settings in use after a file was read: what it holds, in normal form,
/// or the defaults if it holds no settings.
pub open spec fn loaded_settings(parsed: Option<Config>) -> ConfigView {
    match parsed {
        Some(config) => normal_settings(config@),
        None => default_settings(),
    }
}

/// The settings in use after a file was read.
pub fn loaded(parsed: Option<Config>) -> (r: Config)
    ensures
        r@ == loaded_settings(parsed),
{
    match parsed {
        Some(mut config) => {
            normalize(&mut config);
            config
        },
        None => Config::default(),
    }
}

/// The directory that the library keeps its files in: in the platform's
/// directory for settings, else in the usual place below the home directory,
/// else in a directory for temporary files that carries the user's ID.
pub open spec fn support_dir(
    config_dir: Option<Seq<char>>,
    home_dir: Option<Seq<char>>,
    temp_dir: Seq<char>,
    uid: nat,
) -> Seq<char> {
    let base = match config_dir {
        Some(dir) => dir,
        None => match home_dir {
            Some(home) => joined(home, "Library/Application Support"@),
            None => joined(temp_dir, "rustquit-uid-"@ + decimal(uid)),
        },
    };
    joined(base, "rustquit"@)
}

/// The directory that the library keeps its files in.
pub fn app_support_dir(
    config_dir: Option<String>,
    home_dir: Option<String>,
    temp_dir: &str,
    uid: u32,
) -> (r: String)
    ensures
        r@ == support_dir(opt_text(config_dir), opt_text(home_dir), temp_dir@, uid as nat),
{
    let base = match config_dir {
        Some(dir) => dir,
        None => match home_dir {
            Some(home) => join(home.as_str(), "Library/Application Support"),
            None => {
                let mut name = "rustquit-uid-".to_owned();
                append_text(&mut name, decimal_of(uid as u128).as_str());
                join(temp_dir, name.as_str())
            },
        },
    };
    join(base.as_str(), "rustquit")
}

/// The settings file in the directory that the library keeps its files in.
pub fn config_path(support_dir: &str) -> (r: String)
    ensures
        r@ == joined(support_dir@, "config.toml"@),
{
    join(support_dir, "config.toml")
}

/// The extension of the file that settings are written to before it takes the
/// place of the settings file: it carries the process, the time and a counter,
/// so that no two writers share one.
pub fn temp_extension(pid: u32, nanos: u128, suffix: u64) -> (r: String)
    ensures
        r@ == "toml.tmp."@ + decimal(pid as nat) + "."@ + decimal(nanos as nat) + "."@ + decimal(
            suffix as nat,
        ),
{
    let mut r = "toml.tmp.".to_owned();
    append_text(&mut r, decimal_of(pid as u128).as_str());
    append_text(&mut r, ".");
    append_text(&mut r, decimal_of(nanos).as_str());
    append_text(&mut r, ".");
    append_text(&mut r, decimal_of(suffix as u128).as_str());
    r
}

/// The changed settings went to be saved in normal form. They apply if that
/// succeeded; if not, nothing changed.
pub open spec fn saved_or_kept<E, S: FnOnce(&Config) -> Result<(), E>>(
    before: ConfigView,
    changed: ConfigView,
    save: S,
    r: Result<(), E>,
    after: ConfigView,
) -> bool {
    exists|saved: &Config|
        {
            &&& saved@ == normal_settings(changed)
            &&& #[trigger] save.ensures((saved,), r)
            &&& after == match r {
                Ok(_) => saved@,
                Err(_) => before,
            }
        }
}

/// Settings in normal form have delays in their ranges and well-formed lists
/// that share no app, and stay as they are when they are normalized again.
pub proof fn normal_settings_are_safe_and_stable(config: ConfigView, id: Seq<char>)
    ensures
        ({
            let normal = normal_settings(config);
            &&& normal.quit_delay_secs.finite()
            &&& magnitude(MIN_QUIT_DELAY_BITS as int) <= normal.quit_delay_secs.units()
                <= magnitude(MAX_QUIT_DELAY_BITS as int)
            &&& normal.keep_alive_delay_secs.finite()
            &&& magnitude(MIN_RESTART_DELAY_BITS as int) <= normal.keep_alive_delay_secs.units()
                <= magnitude(MAX_RESTART_DELAY_BITS as int)
            &&& ids_ascend(normal.apps)
            &&& ids_ascend(normal.keep_alive_apps)
            &&& normal.apps.len() <= MAX_APPS
            &&& normal.keep_alive_apps.len() <= MAX_APPS
            &&& forall|i: int| 0 <= i < normal.apps.len() ==> valid_id(#[trigger] normal.apps[i])
            &&& forall|i: int|
                0 <= i < normal.keep_alive_apps.len() ==> valid_id(
                    #[trigger] normal.keep_alive_apps[i],
                )
            &&& !(names(normal.apps, id) && names(normal.keep_alive_apps, id))
            &&& normal_settings(normal) == normal
        }),
{
    let normal = normal_settings(config);
    let stored = stored_form(config.apps);
    let kept = stored_form(config.keep_alive_apps);
    pattern_order_is_value_order(MIN_QUIT_DELAY_BITS as int, MAX_QUIT_DELAY_BITS as int);
    pattern_order_is_value_order(MIN_RESTART_DELAY_BITS as int, MAX_RESTART_DELAY_BITS as int);
    normalized_is_in_range_and_stable(
        config.quit_delay_secs,
        Double { bits: DEFAULT_QUIT_DELAY_BITS },
        Double { bits: MIN_QUIT_DELAY_BITS },
        Double { bits: MAX_QUIT_DELAY_BITS },
    );
    normalized_is_in_range_and_stable(
        config.keep_alive_delay_secs,
        Double { bits: DEFAULT_RESTART_DELAY_BITS },
        Double { bits: MIN_RESTART_DELAY_BITS },
        Double { bits: MAX_RESTART_DELAY_BITS },
    );
    stored_form_is_sorted_valid_and_stable(config.apps);
    stored_form_is_sorted_valid_and_stable(config.keep_alive_apps);
    without_all_names_the_rest(stored, kept, id);
    without_all_stays_stored(stored, kept);
    assert(normal_settings(normal) =~= normal);
}

/// The defaults are in normal form, and so is everything that a file yields.
pub proof fn loaded_settings_are_normal(parsed: Option<Config>)
    ensures
        normal_settings(default_settings()) == default_settings(),
        normal_settings(loaded_settings(parsed)) == loaded_settings(parsed),
{
    let empty = Seq::<Seq<char>>::empty();
    assert(sorted_ids(empty) =~= empty);
    assert(without_all(empty, empty) =~= empty) by {
        reveal(Seq::filter);
    }
    pattern_order_is_value_order(MIN_QUIT_DELAY_BITS as int, DEFAULT_QUIT_DELAY_BITS as int);
    pattern_order_is_value_order(DEFAULT_QUIT_DELAY_BITS as int, MAX_QUIT_DELAY_BITS as int);
    pattern_order_is_value_order(MIN_RESTART_DELAY_BITS as int, DEFAULT_RESTART_DELAY_BITS as int);
    pattern_order_is_value_order(DEFAULT_RESTART_DELAY_BITS as int, MAX_RESTART_DELAY_BITS as int);
    assert(normal_settings(default_settings()) =~= default_settings());
    if let Some(config) = parsed {
        normal_settings_are_safe_and_stable(config@, Seq::<char>::empty());
    }
}

/// Whatever is changed and whether it can be saved or not, settings that are in
/// normal form stay so; and what was saved yields the same settings when it is
/// loaded again.
pub proof fn settings_stay_normal_and_reload<E, S: FnOnce(&Config) -> Result<(), E>>(
    before: ConfigView,
    changed: ConfigView,
    save: S,
    r: Result<(), E>,
    after: ConfigView,
    saved: Config,
)
    requires
        normal_settings(before) == before,
        saved_or_kept(before, changed, save, r, after),
        saved@ == normal_settings(changed),
    ensures
        normal_settings(after) == after,
        r is Ok ==> loaded_settings(Some(saved)) == after,
        r is Err ==> after == before,
{
    normal_settings_are_safe_and_stable(changed, Seq::<char>::empty());
}

} // verus!
