//! The search for apps on disk: laws on where apps are looked for and found.
use vstd::prelude::*;

use crate::app_list::{
    all_offered, answered, ids_of, offered_as, opt_entry, unknown_ids, with_running, AppEntry,
    EntryView, RunningEntry,
};
use crate::app_scan::{
    app_dirs, collected, collected_in_turn, item_step, parts_of, DirItem, ItemStep,
};
use crate::config::support_dir;
use crate::laws::path::{
    a_joined_name_is_the_file_name, an_extension_is_an_ending, joined_paths_lie_below,
};
use crate::paths::{below, file_name, joined};
use crate::text::decimal;

verus! {

/// Whether a directory holds an app bundle under a name: one that ends in `.app`
/// and does not start with a dot.
pub open spec fn names_a_bundle(item: DirItem) -> bool {
    &&& item.name is Some
    &&& item.name->0@.len() > 0
    &&& item.name->0@[0] != '.'
    &&& ".app"@.is_suffix_of(item.name->0@)
}

/// Whether a directory holds a folder that is searched: not one whose name starts
/// with a dot, not a bundle, and not a link.
pub open spec fn names_a_folder(item: DirItem) -> bool {
    &&& item.name is Some
    &&& !(item.name->0@.len() > 0 && item.name->0@[0] == '.')
    &&& !".app"@.is_suffix_of(item.name->0@)
    &&& item.directory
    &&& !item.link
}

/// What is done with each item of a directory: app bundles are taken, folders are
/// searched as long as there is depth left, and everything else is skipped.
pub proof fn what_is_done_with_an_item(item: DirItem, depth: nat)
    ensures
        item_step(item, depth) == ItemStep::App <==> names_a_bundle(item),
        item_step(item, depth) == ItemStep::Descend <==> depth > 0 && names_a_folder(item),
{
    if item.name is Some {
        let name = item.name->0@;
        reveal_strlit("app");
        reveal_strlit(".app");
        assert(".app"@ =~= seq!['.'] + "app"@);
        assert(!"app"@.contains('.'));
        an_extension_is_an_ending(name, "app"@);
        if ".app"@.is_suffix_of(name) && name.len() == 4 {
            assert(name.subrange(0, 4)[0] == ".app"@[0]);
        }
    }
}

/// Whether a path is that of an app bundle in a directory, or in one of the
/// folders below it down to a depth, if the directories hold what `listing` says.
pub open spec fn bundle_within(
    listing: spec_fn(Seq<char>) -> Option<Seq<DirItem>>,
    dir: Seq<char>,
    depth: nat,
    path: Seq<char>,
) -> bool
    decreases depth,
{
    listing(dir) is Some && exists|i: int|
        0 <= i < listing(dir)->0.len() && {
            let item = #[trigger] listing(dir)->0[i];
            ||| names_a_bundle(item) && path == joined(dir, item.name->0@)
            ||| depth > 0 && names_a_folder(item) && bundle_within(
                listing,
                joined(dir, item.name->0@),
                (depth - 1) as nat,
                path,
            )
        }
}

proof fn flattened(parts: Seq<Seq<Seq<char>>>, path: Seq<char>)
    ensures
        parts.flatten().contains(path) <==> exists|i: int|
            0 <= i < parts.len() && (#[trigger] parts[i]).contains(path),
    decreases parts.len(),
{
    if parts.len() > 0 {
        let rest = parts.drop_first();
        flattened(rest, path);
        let (head, tail) = (parts.first(), rest.flatten());
        assert(parts.flatten() == head + tail);
        if parts.flatten().contains(path) {
            let k = choose|k: int| 0 <= k < parts.flatten().len() && parts.flatten()[k] == path;
            if k < head.len() {
                assert(head[k] == path);
                assert(parts[0].contains(path));
            } else {
                assert(tail[k - head.len()] == path);
                let i = choose|i: int| 0 <= i < rest.len() && (#[trigger] rest[i]).contains(path);
                assert(parts[i + 1].contains(path));
            }
        }
        if exists|i: int| 0 <= i < parts.len() && (#[trigger] parts[i]).contains(path) {
            let i = choose|i: int| 0 <= i < parts.len() && (#[trigger] parts[i]).contains(path);
            if i == 0 {
                let k = choose|k: int| 0 <= k < head.len() && head[k] == path;
                assert((head + tail)[k] == path);
            } else {
                assert(rest[i - 1].contains(path));
                assert(tail.contains(path));
                let k = choose|k: int| 0 <= k < tail.len() && tail[k] == path;
                assert((head + tail)[head.len() + k] == path);
            }
        }
    }
}

/// The app bundles that are found are exactly those in the directory and in the
/// folders below it, down to the depth that is searched.
pub proof fn every_bundle_is_found<R: Fn(&str) -> Option<Vec<DirItem>>>(
    read: R,
    listing: spec_fn(Seq<char>) -> Option<Seq<DirItem>>,
    dir: Seq<char>,
    depth: nat,
    paths: Seq<Seq<char>>,
    path: Seq<char>,
)
    requires
        forall|d: &str, items: Option<Vec<DirItem>>| #[trigger]
            read.ensures((d,), items) ==> listing(d@) == match items {
                Some(items) => Some(items@),
                None => None,
            },
        collected(read, dir, depth, paths),
    ensures
        paths.contains(path) <==> bundle_within(listing, dir, depth, path),
    decreases depth,
{
    let (d, items, parts) = choose|
        d: &str,
        listing: Option<Vec<DirItem>>,
        parts: Seq<Seq<Seq<char>>>,
    |
        {
            &&& d@ == dir
            &&& #[trigger] read.ensures((d,), listing)
            &&& #[trigger] parts_of(listing, parts)
            &&& paths == parts.flatten()
            &&& forall|i: int|
                0 <= i < parts.len() ==> {
                    let item = listing->0@[i];
                    let path = joined(dir, item.name->0@);
                    match item_step(item, depth) {
                        ItemStep::Skip => #[trigger] parts[i] == Seq::<Seq<char>>::empty(),
                        ItemStep::App => parts[i] == seq![path],
                        ItemStep::Descend => depth > 0 && collected(
                            read,
                            path,
                            (depth - 1) as nat,
                            parts[i],
                        ),
                    }
                }
        };
    flattened(parts, path);
    if items is Some {
        let held = listing(dir)->0;
        assert(held == items->0@);
        assert forall|i: int| 0 <= i < parts.len() implies (#[trigger] parts[i]).contains(path) == {
            let item = held[i];
            ||| names_a_bundle(item) && path == joined(dir, item.name->0@)
            ||| depth > 0 && names_a_folder(item) && bundle_within(
                listing,
                joined(dir, item.name->0@),
                (depth - 1) as nat,
                path,
            )
        } by {
            let item = held[i];
            what_is_done_with_an_item(item, depth);
            let at = joined(dir, item.name->0@);
            if item_step(item, depth) == ItemStep::App {
                assert(parts[i] == seq![at]);
                assert(seq![at][0] == at);
            } else if item_step(item, depth) == ItemStep::Descend {
                every_bundle_is_found(read, listing, at, (depth - 1) as nat, parts[i], path);
            } else {
                assert(parts[i] == Seq::<Seq<char>>::empty());
            }
        }
        if paths.contains(path) {
            let i = choose|i: int| 0 <= i < parts.len() && (#[trigger] parts[i]).contains(path);
            assert(held[i] == items->0@[i]);
            assert(bundle_within(listing, dir, depth, path));
        }
        if bundle_within(listing, dir, depth, path) {
            let i = choose|i: int|
                0 <= i < held.len() && {
                    let item = #[trigger] held[i];
                    ||| names_a_bundle(item) && path == joined(dir, item.name->0@)
                    ||| depth > 0 && names_a_folder(item) && bundle_within(
                        listing,
                        joined(dir, item.name->0@),
                        (depth - 1) as nat,
                        path,
                    )
                };
            assert(parts[i].contains(path));
        }
    } else {
        assert(parts.len() == 0);
    }
}

/// Apps are looked for in the folders of the system, and in the user's own if
/// there is a home, two folders deep, each folder in its turn.
pub proof fn where_apps_are_looked_for<R: Fn(&str) -> Option<Vec<DirItem>>>(
    read: R,
    home: Seq<char>,
    parts: Seq<Seq<Seq<char>>>,
    i: int,
)
    requires
        collected_in_turn(read, app_dirs(Some(home)), parts),
        0 <= i < 4,
    ensures
        app_dirs(Some(home)).len() == 4,
        app_dirs(Some(home))[0] == "/Applications"@,
        app_dirs(Some(home))[1] == "/System/Applications"@,
        app_dirs(Some(home))[2] == "/System/Applications/Utilities"@,
        app_dirs(Some(home))[3] == joined(home, "Applications"@),
        app_dirs(None) == app_dirs(Some(home)).take(3),
        parts.len() == 4,
        collected(read, app_dirs(Some(home))[i], 2, parts[i]),
{
    assert(app_dirs(None) =~= app_dirs(Some(home)).take(3));
}

/// What is offered for configured apps that were not found goes by what the system
/// answers when it is asked for just that app; where it knows nothing, the ID
/// stands for the name. What was found and what runs is offered before that.
pub proof fn configured_apps_go_by_the_answers<R: Fn(&str) -> Option<AppEntry>>(
    scanned: Seq<EntryView>,
    running: Seq<RunningEntry>,
    configured: Seq<Seq<char>>,
    resolve: R,
    list: Seq<EntryView>,
    k: int,
)
    requires
        offered_as(scanned, running, configured, resolve, list),
        0 <= k < unknown_ids(configured, ids_of(with_running(scanned, running))).len(),
    ensures
        ({
            let present = with_running(scanned, running);
            let ids = unknown_ids(configured, ids_of(present));
            &&& list.len() == present.len() + ids.len()
            &&& list.take(present.len() as int) == present
            &&& exists|id: &str, answer: Option<AppEntry>|
                {
                    &&& id@ == ids[k]
                    &&& #[trigger] resolve.ensures((id,), answer)
                    &&& list[present.len() + k] == match answer {
                        Some(entry) => entry@,
                        None => EntryView { bundle_id: ids[k], name: ids[k], icon_path: None },
                    }
                }
        }),
{
    let present = with_running(scanned, running);
    let ids = unknown_ids(configured, ids_of(present));
    let answers = choose|answers: Seq<Option<EntryView>>| #[trigger]
        answered(resolve, ids, answers) && list == all_offered(
            scanned,
            running,
            configured,
            answers,
        );
    assert(list.take(present.len() as int) =~= present);
    let (id, answer) = choose|id: &str, answer: Option<AppEntry>|
        id@ == ids[k] && #[trigger] resolve.ensures((id,), answer) && opt_entry(answer)
            == answers[k];
    assert(resolve.ensures((id,), answer));
}

/// The settings are kept in a folder of their own, named after the app, below the
/// folder for settings, else below the user's own, else below a temporary one that
/// bears the user's number.
pub proof fn the_settings_have_a_folder(
    config_dir: Seq<char>,
    home: Seq<char>,
    temp: Seq<char>,
    uid: nat,
)
    ensures
        below(support_dir(Some(config_dir), Some(home), temp, uid), config_dir),
        support_dir(Some(config_dir), Some(home), temp, uid) == support_dir(
            Some(config_dir),
            None,
            temp,
            uid,
        ),
        support_dir(Some(config_dir), None, temp, uid) == joined(config_dir, "rustquit"@),
        support_dir(None, Some(home), temp, uid) == joined(
            joined(home, "Library/Application Support"@),
            "rustquit"@,
        ),
        support_dir(None, None, temp, uid) == joined(
            joined(temp, "rustquit-uid-"@ + decimal(uid)),
            "rustquit"@,
        ),
        below(support_dir(None, Some(home), temp, uid), home),
        below(
            support_dir(None, Some(home), temp, uid),
            joined(home, "Library/Application Support"@),
        ),
        below(support_dir(None, None, temp, uid), temp),
        below(
            support_dir(None, None, temp, uid),
            joined(temp, "rustquit-uid-"@ + decimal(uid)),
        ),
        file_name(support_dir(Some(config_dir), None, temp, uid)) == Some("rustquit"@),
        file_name(support_dir(None, Some(home), temp, uid)) == Some("rustquit"@),
        file_name(support_dir(None, None, temp, uid)) == Some("rustquit"@),
{
    let own = joined(home, "Library/Application Support"@);
    let shared = joined(temp, "rustquit-uid-"@ + decimal(uid));
    reveal_strlit("rustquit");
    reveal_strlit("Library/Application Support");
    reveal_strlit("rustquit-uid-");
    assert(("rustquit-uid-"@ + decimal(uid))[0] == 'r');
    joined_paths_lie_below(config_dir, "rustquit"@);
    joined_paths_lie_below(home, "Library/Application Support"@);
    joined_paths_lie_below(own, "rustquit"@);
    joined_paths_lie_below(temp, "rustquit-uid-"@ + decimal(uid));
    joined_paths_lie_below(shared, "rustquit"@);
    let dir = support_dir(None, Some(home), temp, uid);
    crate::laws::path::lying_below_is_a_preorder(dir, own, home);
    let other = support_dir(None, None, temp, uid);
    crate::laws::path::lying_below_is_a_preorder(other, shared, temp);
    assert(!"rustquit"@.contains('/'));
    a_joined_name_is_the_file_name(config_dir, "rustquit"@);
    a_joined_name_is_the_file_name(own, "rustquit"@);
    a_joined_name_is_the_file_name(shared, "rustquit"@);
}

} // verus!
