//! Finding app bundles in the standard folders.
use vstd::prelude::*;

use crate::app_list::{
    answered, entry_views, first_of_each, opt_entries, opt_entry, unique_entries, AppEntry,
    EntryView,
};
use crate::paths::{extension_of_name, join, joined, name_has_extension};
use crate::text::{chars_of, opt_str, texts};

verus! {

/// How many levels below a standard folder are searched.
pub const SCAN_DEPTH: usize = 2;

/// One item of a directory.
#[derive(Debug)]
pub struct DirItem {
    /// Its name; `None` if that is not text.
    pub name: Option<String>,
    /// It is a directory, or leads to one.
    pub directory: bool,
    /// It is a symbolic link.
    pub link: bool,
}

/// What is done with an item of a directory.
#[derive(Clone, Copy, Debug, PartialEq, Eq, Structural)]
pub enum ItemStep {
    Skip,
    /// It is an app bundle.
    App,
    /// It is searched in turn.
    Descend,
}

/// What is done with an item: hidden items are skipped, app bundles are taken,
/// and other directories are searched, as long as they are not too deep and not
/// reached through a link.
pub open spec fn item_step(item: DirItem, depth: nat) -> ItemStep {
    if item.name is None || (item.name->0@.len() > 0 && item.name->0@[0] == '.') {
        ItemStep::Skip
    } else if extension_of_name(item.name->0@) == Some("app"@) {
        ItemStep::App
    } else if depth > 0 && item.directory && !item.link {
        ItemStep::Descend
    } else {
        ItemStep::Skip
    }
}

/// What is done with an item of a directory.
pub fn step_for(item: &DirItem, depth: usize) -> (r: ItemStep)
    ensures
        r == item_step(*item, depth as nat),
{
    let Some(name) = &item.name else {
        return ItemStep::Skip;
    };
    let chars = chars_of(name.as_str());
    if chars.len() > 0 && chars[0] == '.' {
        return ItemStep::Skip;
    }
    if name_has_extension(name.as_str(), "app") {
        ItemStep::App
    } else if depth > 0 && item.directory && !item.link {
        ItemStep::Descend
    } else {
        ItemStep::Skip
    }
}

/// One part of what was found for each item of a listing.
pub open spec fn parts_of(listing: Option<Vec<DirItem>>, parts: Seq<Seq<Seq<char>>>) -> bool {
    parts.len() == match listing {
        Some(items) => items@.len(),
        None => 0,
    }
}

/// The paths of the app bundles in and below a directory, in the order in which
/// the directories list them. A directory that cannot be read holds none.
pub open spec fn collected<R: Fn(&str) -> Option<Vec<DirItem>>>(
    read: R,
    dir: Seq<char>,
    depth: nat,
    paths: Seq<Seq<char>>,
) -> bool
    decreases depth,
{
    exists|d: &str, listing: Option<Vec<DirItem>>, parts: Seq<Seq<Seq<char>>>|
        {
            &&& d@ == dir
            &&& #[trigger] read.ensures((d,), listing)
            &&& #[trigger] parts_of(listing, parts)
            &&& paths == parts.flatten()
            &&& forall|i: int|
                0 <= i < parts.len() ==> {
                    let item = listing->0@[i];
                    let path = joined(dir, item.name->0@);
                    match item_step(item, depth) {
                        ItemStep::Skip => #[trigger] parts[i] == Seq::<Seq<char>>::empty(),
                        ItemStep::App => parts[i] == seq![path],
                        ItemStep::Descend => depth > 0 && collected(
                            read,
                            path,
                            (depth - 1) as nat,
                            parts[i],
                        ),
                    }
                }
        }
}

/// Collects the paths of the app bundles in and below a directory.
pub fn collect_app_paths<R: Fn(&str) -> Option<Vec<DirItem>>>(
    read: &R,
    dir: &str,
    depth: usize,
) -> (r: Vec<String>)
    requires
        forall|d: &str| read.requires((d,)),
    ensures
        collected(*read, dir@, depth as nat, texts(r@)),
    decreases depth,
{
    let mut paths: Vec<String> = Vec::new();
    let listing = read(dir);
    let ghost mut parts: Seq<Seq<Seq<char>>> = Seq::empty();
    if let Some(items) = &listing {
        for i in 0..items.len()
            invariant
                listing == Some(*items),
                forall|d: &str| read.requires((d,)),
                parts.len() == i,
                texts(paths@) == parts.flatten(),
                forall|j: int|
                    0 <= j < i ==> {
                        let item = items@[j];
                        let path = joined(dir@, item.name->0@);
                        match item_step(item, depth as nat) {
                            ItemStep::Skip => #[trigger] parts[j] == Seq::<Seq<char>>::empty(),
                            ItemStep::App => parts[j] == seq![path],
                            ItemStep::Descend => depth > 0 && collected(
                                *read,
                                path,
                                (depth - 1) as nat,
                                parts[j],
                            ),
                        }
                    },
            decreases items@.len() - i,
        {
            let item = &items[i];
            let mut found: Vec<String> = Vec::new();
            if let Some(name) = &item.name {
                match step_for(item, depth) {
                    ItemStep::Skip => {},
                    ItemStep::App => {
                        found.push(join(dir, name.as_str()));
                        assert(texts(found@) =~= seq![joined(dir@, name@)]);
                    },
                    ItemStep::Descend => {
                        let path = join(dir, name.as_str());
                        found = collect_app_paths(read, path.as_str(), depth - 1);
                    },
                }
            }
            let ghost part = texts(found@);
            let ghost paths_before = texts(paths@);
            proof {
                assert(item_step(*item, depth as nat) == ItemStep::Skip ==> part =~= Seq::<
                    Seq<char>,
                >::empty());
                parts.lemma_flatten_push(part);
                parts = parts.push(part);
            }
            paths.append(&mut found);
            assert(texts(paths@) =~= paths_before + part);
        }
    } else {
        assert(texts(paths@) =~= parts.flatten());
    }
    assert(parts_of(listing, parts));
    paths
}

/// The folders that hold apps: those of the system, and the user's own.
pub open spec fn app_dirs(home: Option<Seq<char>>) -> Seq<Seq<char>> {
    let system = seq![
        "/Applications"@,
        "/System/Applications"@,
        "/System/Applications/Utilities"@,
    ];
    match home {
        Some(home) => system.push(joined(home, "Applications"@)),
        None => system,
    }
}

/// The folders that hold apps.
pub fn standard_app_dirs(home: Option<&str>) -> (r: Vec<String>)
    ensures
        texts(r@) == app_dirs(opt_str(home)),
{
    let mut r: Vec<String> = Vec::new();
    r.push("/Applications".to_owned());
    r.push("/System/Applications".to_owned());
    r.push("/System/Applications/Utilities".to_owned());
    if let Some(home) = home {
        r.push(join(home, "Applications"));
    }
    assert(texts(r@) =~= app_dirs(opt_str(home)));
    r
}

/// The paths of the app bundles in and below each directory.
pub open spec fn collected_in_turn<R: Fn(&str) -> Option<Vec<DirItem>>>(
    read: R,
    dirs: Seq<Seq<char>>,
    parts: Seq<Seq<Seq<char>>>,
) -> bool {
    &&& parts.len() == dirs.len()
    &&& forall|i: int|
        0 <= i < dirs.len() ==> collected(read, dirs[i], SCAN_DEPTH as nat, #[trigger] parts[i])
}

/// The apps in the standard folders, each ID once, as it was found first: the
/// folders in their order, and in each the paths in the order in which the
/// directories list them. `entry` describes the app at a path.
pub fn scan_standard_apps<
    R: Fn(&str) -> Option<Vec<DirItem>>,
    A: Fn(&str) -> Option<AppEntry>,
>(home: Option<&str>, read: &R, entry: &A) -> (r: Vec<AppEntry>)
    requires
        forall|dir: &str| read.requires((dir,)),
        forall|path: &str| entry.requires((path,)),
    ensures
        exists|parts: Seq<Seq<Seq<char>>>, found: Seq<Option<EntryView>>|
            {
                &&& #[trigger] collected_in_turn(*read, app_dirs(opt_str(home)), parts)
                &&& #[trigger] answered(*entry, parts.flatten(), found)
                &&& entry_views(r@) == first_of_each(found)
            },
{
    let dirs = standard_app_dirs(home);
    let mut paths: Vec<String> = Vec::new();
    let ghost mut parts: Seq<Seq<Seq<char>>> = Seq::empty();
    assert(texts(paths@) =~= parts.flatten());
    for i in 0..dirs.len()
        invariant
            forall|dir: &str| read.requires((dir,)),
            parts.len() == i,
            texts(paths@) == parts.flatten(),
            forall|j: int|
                0 <= j < i ==> collected(
                    *read,
                    texts(dirs@)[j],
                    SCAN_DEPTH as nat,
                    #[trigger] parts[j],
                ),
    {
        let mut part = collect_app_paths(read, dirs[i].as_str(), SCAN_DEPTH);
        let ghost part_view = texts(part@);
        let ghost paths_before = texts(paths@);
        proof {
            parts.lemma_flatten_push(part_view);
            parts = parts.push(part_view);
        }
        paths.append(&mut part);
        assert(texts(paths@) =~= paths_before + part_view);
    }
    let ghost all = texts(paths@);
    let mut found: Vec<Option<AppEntry>> = Vec::new();
    for i in 0..paths.len()
        invariant
            all == texts(paths@),
            forall|path: &str| entry.requires((path,)),
            found@.len() == i,
            answered(*entry, all.take(i as int), opt_entries(found@)),
    {
        let ghost earlier = opt_entries(found@);
        let answer = entry(paths[i].as_str());
        let ghost answer_view = opt_entry(answer);
        found.push(answer);
        proof {
            let seen = all.take(i + 1);
            let later = opt_entries(found@);
            assert(later =~= earlier.push(answer_view));
            assert forall|j: int| 0 <= j < seen.len() implies exists|p: &str, a: Option<AppEntry>|
                p@ == #[trigger] seen[j] && #[trigger] entry.ensures((p,), a) && opt_entry(a)
                    == later[j] by {
                if j < i {
                    assert(all.take(i as int)[j] == seen[j]);
                }
            }
        }
    }
    assert(all.take(all.len() as int) =~= all);
    assert(collected_in_turn(*read, app_dirs(opt_str(home)), parts));
    unique_entries(&found)
}

} // verus!
