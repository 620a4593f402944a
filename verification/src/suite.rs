//! Products whose settings front end exits while a separately installed menu bar
//! helper keeps the product alive.
use vstd::prelude::*;

use crate::paths::{
    below, components, file_stem, path_components, path_file_stem, path_starts_with, pieces_view,
};
use crate::text::{
    begins_with, chars_of, lower, opt_text, to_lower, to_lower_char,
};

verus! {

/// The shortest app name by which helpers are recognized.
pub const MIN_NAME_LEN: usize = 6;

/// A running app, as far as it matters here.
#[derive(Debug)]
pub struct RunningApp {
    /// A regular Dock app.
    pub regular: bool,
    /// Where its bundle is.
    pub path: Option<String>,
    pub bundle_id: Option<String>,
}

/// The contents of a running app.
pub ghost struct RunningView {
    pub regular: bool,
    pub path: Option<Seq<char>>,
    pub bundle_id: Option<Seq<char>>,
}

impl View for RunningApp {
    type V = RunningView;

    open spec fn view(&self) -> RunningView {
        RunningView {
            regular: self.regular,
            path: opt_text(self.path),
            bundle_id: opt_text(self.bundle_id),
        }
    }
}

/// The contents of a list of running apps.
pub open spec fn running_views(apps: Seq<RunningApp>) -> Seq<RunningView> {
    Seq::new(apps.len(), |i: int| apps[i]@)
}

/// An ASCII letter or digit.
pub open spec fn alphanumeric(c: char) -> bool {
    'a' <= c <= 'z' || 'A' <= c <= 'Z' || '0' <= c <= '9'
}

/// The ASCII letters and digits of a name, in lower case.
pub open spec fn plain_name(name: Seq<char>) -> Seq<char> {
    lower(name.filter(|c: char| alphanumeric(c)))
}

/// The name by which helpers of the app are recognized, unless it is too short.
pub open spec fn suite_name(target_path: Seq<char>) -> Option<Seq<char>> {
    match file_stem(target_path) {
        Some(stem) => if plain_name(stem).len() >= MIN_NAME_LEN {
            Some(plain_name(stem))
        } else {
            None
        },
        None => None,
    }
}

/// Some component of the path begins with the name.
pub open spec fn path_carries_name(path: Seq<char>, name: Seq<char>) -> bool {
    exists|i: int|
        0 <= i < components(path).len() && name.is_prefix_of(
            plain_name(#[trigger] components(path)[i]),
        )
}

/// A background app outside the target's own bundle that belongs to the same
/// product: its bundle ID extends the target's, or a component of its path
/// begins with the target's name.
pub open spec fn helper_of(
    app: RunningView,
    target_id: Seq<char>,
    target_path: Seq<char>,
) -> bool {
    &&& !app.regular
    &&& app.path is Some
    &&& !below(app.path->0, target_path)
    &&& {
        ||| app.bundle_id is Some && lower(target_id).push('.').is_prefix_of(
            lower(app.bundle_id->0),
        )
        ||| suite_name(target_path) is Some && path_carries_name(
            app.path->0,
            suite_name(target_path)->0,
        )
    }
}

/// Some running app is a helper of the target.
pub open spec fn suite_running(
    apps: Seq<RunningView>,
    target_id: Seq<char>,
    target_path: Seq<char>,
) -> bool {
    exists|i: int|
        0 <= i < apps.len() && helper_of(#[trigger] apps[i], target_id, target_path)
}

/// The ASCII letters and digits of a name, in lower case.
pub fn normalized_app_name(name: &Vec<char>) -> (r: Vec<char>)
    ensures
        r@ == plain_name(name@),
{
    let ghost keep = |c: char| alphanumeric(c);
    let mut r: Vec<char> = Vec::new();
    assert(name@.take(0).filter(keep) =~= Seq::empty()) by {
        reveal(Seq::filter);
    }
    assert(r@ =~= lower(name@.take(0).filter(keep)));
    for i in 0..name.len()
        invariant
            keep == (|c: char| alphanumeric(c)),
            r@ == lower(name@.take(i as int).filter(keep)),
    {
        let c: char = name[i];
        let ghost kept = name@.take(i as int).filter(keep);
        proof {
            assert(name@.take(i + 1) =~= name@.take(i as int).push(c));
            name@.take(i as int).lemma_filter_push(c, keep);
        }
        if ('a' <= c && c <= 'z') || ('A' <= c && c <= 'Z') || ('0' <= c && c <= '9') {
            r.push(to_lower_char(c));
            assert(r@ =~= lower(kept.push(c)));
        }
    }
    assert(name@.take(name@.len() as int) =~= name@);
    r
}

/// The name by which helpers of the app are recognized.
fn suite_name_of(target_path: &str) -> (r: Option<Vec<char>>)
    ensures
        match r {
            Some(name) => suite_name(target_path@) == Some(name@),
            None => suite_name(target_path@) is None,
        },
{
    match path_file_stem(target_path) {
        Some(stem) => {
            let name = normalized_app_name(&chars_of(stem.as_str()));
            if name.len() >= MIN_NAME_LEN {
                Some(name)
            } else {
                None
            }
        },
        None => None,
    }
}

fn carries_name(path: &str, name: &Vec<char>) -> (r: bool)
    ensures
        r == path_carries_name(path@, name@),
{
    let parts = path_components(path);
    let ghost view = pieces_view(parts@);
    for i in 0..parts.len()
        invariant
            view == pieces_view(parts@),
            view == components(path@),
            forall|j: int|
                0 <= j < i ==> !name@.is_prefix_of(plain_name(#[trigger] components(path@)[j])),
    {
        assert(view[i as int] == parts@[i as int]@);
        if begins_with(&normalized_app_name(&parts[i]), name) {
            return true;
        }
    }
    false
}

fn is_helper(
    app: &RunningApp,
    bundle_prefix: &Vec<char>,
    target_name: &Option<Vec<char>>,
    target_path: &str,
    Ghost(target_id): Ghost<Seq<char>>,
) -> (r: bool)
    requires
        bundle_prefix@ == lower(target_id).push('.'),
        match *target_name {
            Some(name) => suite_name(target_path@) == Some(name@),
            None => suite_name(target_path@) is None,
        },
    ensures
        r == helper_of(app@, target_id, target_path@),
{
    if app.regular {
        return false;
    }
    let Some(path) = &app.path else {
        return false;
    };
    if path_starts_with(path.as_str(), target_path) {
        return false;
    }
    if let Some(bundle_id) = &app.bundle_id {
        if begins_with(&chars_of(to_lower(bundle_id.as_str()).as_str()), bundle_prefix) {
            return true;
        }
    }
    match target_name {
        Some(name) => carries_name(path.as_str(), name),
        None => false,
    }
}

/// Whether a background app that belongs to the same product is running. Such a
/// helper counts as the selected app already running, without a list of
/// particular products.
pub fn background_suite_running(
    target_bundle_id: &str,
    target_path: &str,
    apps: &Vec<RunningApp>,
) -> (r: bool)
    ensures
        r == suite_running(running_views(apps@), target_bundle_id@, target_path@),
{
    let mut bundle_prefix = chars_of(to_lower(target_bundle_id).as_str());
    bundle_prefix.push('.');
    let target_name = suite_name_of(target_path);
    for i in 0..apps.len()
        invariant
            bundle_prefix@ == lower(target_bundle_id@).push('.'),
            match target_name {
                Some(name) => suite_name(target_path@) == Some(name@),
                None => suite_name(target_path@) is None,
            },
            forall|j: int|
                0 <= j < i ==> !helper_of(
                    #[trigger] running_views(apps@)[j],
                    target_bundle_id@,
                    target_path@,
                ),
    {
        if is_helper(
            &apps[i],
            &bundle_prefix,
            &target_name,
            target_path,
            Ghost(target_bundle_id@),
        ) {
            assert(helper_of(running_views(apps@)[i as int], target_bundle_id@, target_path@));
            return true;
        }
    }
    false
}

/// What runs from inside the target's own bundle is never taken for its helper,
/// and neither is a regular app.
pub proof fn a_bundle_is_not_its_own_helper(
    app: RunningView,
    target_id: Seq<char>,
    target_path: Seq<char>,
)
    requires
        app.regular || (app.path is Some && below(app.path->0, target_path)),
    ensures
        !helper_of(app, target_id, target_path),
{
}

} // verus!
