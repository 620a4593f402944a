//! The list of apps that the settings offer: found in the standard folders,
//! running, or configured.
use vstd::prelude::*;

use crate::bundle_ids::{is_listed, names};
use crate::config::{Config, ConfigView};
use crate::name_map::NameMap;
use crate::protected::{
    is_protected_bundle_id, is_protected_path, protected_bundle_id, protected_path,
};
use crate::text::{
    before, chars_of, comes_before, contains_text, finishes_with, full_lower, lower, occurs_in,
    opt_str, opt_text, order_is_total, order_is_transitive, same_text, string_of, texts, to_lower,
};

verus! {

/// An app that can be selected.
#[derive(Debug, PartialEq)]
pub struct AppEntry {
    pub bundle_id: String,
    pub name: String,
    pub icon_path: Option<String>,
}

/// The contents of an app that can be selected.
pub ghost struct EntryView {
    pub bundle_id: Seq<char>,
    pub name: Seq<char>,
    pub icon_path: Option<Seq<char>>,
}

impl View for AppEntry {
    type V = EntryView;

    open spec fn view(&self) -> EntryView {
        EntryView {
            bundle_id: self.bundle_id@,
            name: self.name@,
            icon_path: opt_text(self.icon_path),
        }
    }
}

impl Clone for AppEntry {
    fn clone(&self) -> (r: AppEntry)
        ensures
            r@ == self@,
    {
        AppEntry {
            bundle_id: self.bundle_id.clone(),
            name: self.name.clone(),
            icon_path: match &self.icon_path {
                Some(path) => Some(path.clone()),
                None => None,
            },
        }
    }
}

/// The contents of a list of apps.
pub open spec fn entry_views(entries: Seq<AppEntry>) -> Seq<EntryView> {
    Seq::new(entries.len(), |i: int| entries[i]@)
}

/// The contents of an app that may be missing.
pub open spec fn opt_entry(entry: Option<AppEntry>) -> Option<EntryView> {
    match entry {
        Some(entry) => Some(entry@),
        None => None,
    }
}

/// A name without a trailing ".app".
pub open spec fn without_app_suffix(name: Seq<char>) -> Seq<char> {
    if ".app"@.is_suffix_of(name) {
        name.take(name.len() - ".app"@.len())
    } else {
        name
    }
}

/// The app at a path, as the system describes it: none without a bundle ID, and
/// none that is protected.
pub open spec fn entry_at(
    path: Seq<char>,
    resolved: Option<Seq<char>>,
    bundle_id: Option<Seq<char>>,
    display_name: Seq<char>,
) -> Option<EntryView> {
    if bundle_id is None || protected_bundle_id(bundle_id->0) || protected_path(path, resolved) {
        None
    } else {
        Some(
            EntryView {
                bundle_id: bundle_id->0,
                name: without_app_suffix(display_name),
                icon_path: Some(path),
            },
        )
    }
}

fn strip_app_suffix(name: &str) -> (r: String)
    ensures
        r@ == without_app_suffix(name@),
{
    let chars = chars_of(name);
    let suffix = chars_of(".app");
    if !finishes_with(&chars, &suffix) {
        return name.to_owned();
    }
    let mut kept: Vec<char> = Vec::new();
    let len: usize = chars.len() - suffix.len();
    for i in 0..len
        invariant
            len <= chars@.len(),
            kept@ == chars@.take(i as int),
    {
        kept.push(chars[i]);
        assert(kept@ =~= chars@.take(i + 1));
    }
    string_of(&kept)
}

/// The app at a path, as the system describes it.
pub fn app_entry_from_path(
    path: &str,
    resolved: Option<&str>,
    bundle_id: Option<String>,
    display_name: &str,
) -> (r: Option<AppEntry>)
    ensures
        opt_entry(r) == entry_at(path@, opt_str(resolved), opt_text(bundle_id), display_name@),
{
    let Some(bundle_id) = bundle_id else {
        return None;
    };
    if is_protected_bundle_id(bundle_id.as_str()) || is_protected_path(path, resolved) {
        return None;
    }
    Some(
        AppEntry {
            bundle_id,
            name: strip_app_suffix(display_name),
            icon_path: Some(path.to_owned()),
        },
    )
}

/// The lower-case IDs of some apps.
pub open spec fn ids_of(entries: Seq<EntryView>) -> Set<Seq<char>> {
    Set::new(
        |id: Seq<char>|
            exists|i: int| 0 <= i < entries.len() && lower((#[trigger] entries[i]).bundle_id) == id,
    )
}

proof fn ids_of_push(entries: Seq<EntryView>, entry: EntryView)
    ensures
        ids_of(entries.push(entry)) == ids_of(entries).insert(lower(entry.bundle_id)),
{
    let longer = entries.push(entry);
    assert forall|id: Seq<char>|
        ids_of(longer).contains(id) == ids_of(entries).insert(lower(entry.bundle_id)).contains(
            id,
        ) by {
        if ids_of(longer).contains(id) {
            let i = choose|i: int|
                0 <= i < longer.len() && lower((#[trigger] longer[i]).bundle_id) == id;
            if i < entries.len() {
                assert(lower(entries[i].bundle_id) == id);
            }
        }
        if ids_of(entries).contains(id) {
            let i = choose|i: int|
                0 <= i < entries.len() && lower((#[trigger] entries[i]).bundle_id) == id;
            assert(lower(longer[i].bundle_id) == id);
        }
        if id == lower(entry.bundle_id) {
            assert(lower(longer[entries.len() as int].bundle_id) == id);
        }
    }
    assert(ids_of(longer) =~= ids_of(entries).insert(lower(entry.bundle_id)));
}

/// The apps that were found, each ID once, as it was found first.
pub open spec fn first_of_each(found: Seq<Option<EntryView>>) -> Seq<EntryView>
    decreases found.len(),
{
    if found.len() == 0 {
        Seq::empty()
    } else {
        let earlier = first_of_each(found.drop_last());
        if found.last() is None || ids_of(earlier).contains(lower(found.last()->0.bundle_id)) {
            earlier
        } else {
            earlier.push(found.last()->0)
        }
    }
}

/// The contents of a list of apps that may be missing.
pub open spec fn opt_entries(found: Seq<Option<AppEntry>>) -> Seq<Option<EntryView>> {
    Seq::new(found.len(), |i: int| opt_entry(found[i]))
}

/// The apps that were found in the standard folders, each ID once.
pub fn unique_entries(found: &Vec<Option<AppEntry>>) -> (r: Vec<AppEntry>)
    ensures
        entry_views(r@) == first_of_each(opt_entries(found@)),
{
    let ghost all = opt_entries(found@);
    let mut r: Vec<AppEntry> = Vec::new();
    let mut seen: NameMap<bool> = NameMap::new();
    assert(entry_views(r@) =~= first_of_each(all.take(0)));
    assert(seen@.dom() =~= ids_of(entry_views(r@)));
    for i in 0..found.len()
        invariant
            all == opt_entries(found@),
            entry_views(r@) == first_of_each(all.take(i as int)),
            seen@.dom() == ids_of(entry_views(r@)),
    {
        assert(all.take(i + 1).drop_last() =~= all.take(i as int));
        assert(all.take(i + 1).last() == all[i as int]);
        if let Some(entry) = &found[i] {
            let key = to_lower(entry.bundle_id.as_str());
            if !seen.contains_key(key.as_str()) {
                let ghost kept = entry_views(r@);
                proof {
                    ids_of_push(kept, entry@);
                }
                r.push(entry.clone());
                assert(entry_views(r@) =~= kept.push(entry@));
                let ghost seen_before = seen@;
                let ghost key_text = key@;
                seen.insert(key, true);
                assert(seen@.dom() =~= seen_before.dom().insert(key_text));
            }
        }
    }
    assert(all.take(all.len() as int) =~= all);
    r
}

/// A running app that may be offered.
#[derive(Debug)]
pub struct RunningEntry {
    pub bundle_id: Option<String>,
    pub name: Option<String>,
    pub path: Option<String>,
}

/// The app that is offered for a running one: where it has no name, its bundle
/// ID stands for it.
pub open spec fn offered(app: RunningEntry) -> EntryView {
    EntryView {
        bundle_id: app.bundle_id->0@,
        name: match app.name {
            Some(name) => name@,
            None => app.bundle_id->0@,
        },
        icon_path: opt_text(app.path),
    }
}

/// The apps with the running ones that they do not hold yet. Apps without a
/// bundle ID and protected apps are not offered.
pub open spec fn with_running(
    entries: Seq<EntryView>,
    running: Seq<RunningEntry>,
) -> Seq<EntryView>
    decreases running.len(),
{
    if running.len() == 0 {
        entries
    } else {
        let earlier = with_running(entries, running.drop_last());
        let app = running.last();
        if app.bundle_id is None || protected_bundle_id(app.bundle_id->0@) || ids_of(
            earlier,
        ).contains(lower(app.bundle_id->0@)) {
            earlier
        } else {
            earlier.push(offered(app))
        }
    }
}

/// The configured IDs that are not among the known ones, each once and without
/// the protected ones.
pub open spec fn unknown_ids(configured: Seq<Seq<char>>, known: Set<Seq<char>>) -> Seq<Seq<char>>
    decreases configured.len(),
{
    if configured.len() == 0 {
        Seq::empty()
    } else {
        let earlier = unknown_ids(configured.drop_last(), known);
        let id = configured.last();
        if known.contains(lower(id)) || names(earlier, id) || protected_bundle_id(id) {
            earlier
        } else {
            earlier.push(id)
        }
    }
}

/// The lower-case IDs of a list.
pub open spec fn lower_ids(list: Seq<Seq<char>>) -> Set<Seq<char>> {
    Set::new(|id: Seq<char>| exists|i: int| 0 <= i < list.len() && lower(#[trigger] list[i]) == id)
}

proof fn lower_ids_push(list: Seq<Seq<char>>, id: Seq<char>)
    ensures
        lower_ids(list.push(id)) == lower_ids(list).insert(lower(id)),
{
    let longer = list.push(id);
    assert forall|k: Seq<char>|
        lower_ids(longer).contains(k) == lower_ids(list).insert(lower(id)).contains(k) by {
        if lower_ids(longer).contains(k) {
            let i = choose|i: int| 0 <= i < longer.len() && lower(#[trigger] longer[i]) == k;
            if i < list.len() {
                assert(lower(list[i]) == k);
            }
        }
        if lower_ids(list).contains(k) {
            let i = choose|i: int| 0 <= i < list.len() && lower(#[trigger] list[i]) == k;
            assert(lower(longer[i]) == k);
        }
        if k == lower(id) {
            assert(lower(longer[list.len() as int]) == k);
        }
    }
    assert(lower_ids(longer) =~= lower_ids(list).insert(lower(id)));
}

proof fn named_is_lower_id(list: Seq<Seq<char>>, id: Seq<char>)
    ensures
        names(list, id) == lower_ids(list).contains(lower(id)),
{
    if names(list, id) {
        let i = choose|i: int| 0 <= i < list.len() && same_text(#[trigger] list[i], id);
        assert(lower(list[i]) == lower(id));
    }
    if lower_ids(list).contains(lower(id)) {
        let i = choose|i: int| 0 <= i < list.len() && lower(#[trigger] list[i]) == lower(id);
        assert(same_text(list[i], id));
    }
}

/// What is offered for a configured ID that is neither found nor running: what
/// the system knows of it, else the bare ID.
pub open spec fn resolved_entry(id: Seq<char>, answer: Option<EntryView>) -> EntryView {
    match answer {
        Some(entry) => entry,
        None => EntryView { bundle_id: id, name: id, icon_path: None },
    }
}

/// What is offered for configured IDs that are neither found nor running.
pub open spec fn resolved_entries(
    ids: Seq<Seq<char>>,
    answers: Seq<Option<EntryView>>,
) -> Seq<EntryView> {
    Seq::new(ids.len(), |i: int| resolved_entry(ids[i], answers[i]))
}

/// Adds the running apps that are not in the list yet.
fn add_running(entries: &mut Vec<AppEntry>, seen: &mut NameMap<bool>, running: &Vec<RunningEntry>)
    requires
        old(seen)@.dom() == ids_of(entry_views(old(entries)@)),
    ensures
        entry_views(final(entries)@) == with_running(entry_views(old(entries)@), running@),
        final(seen)@.dom() == ids_of(entry_views(final(entries)@)),
{
    let ghost start = entry_views(entries@);
    for i in 0..running.len()
        invariant
            entry_views(entries@) == with_running(start, running@.take(i as int)),
            seen@.dom() == ids_of(entry_views(entries@)),
    {
        assert(running@.take(i + 1).drop_last() =~= running@.take(i as int));
        assert(running@.take(i + 1).last() == running@[i as int]);
        let app = &running[i];
        if let Some(bundle_id) = &app.bundle_id {
            let key = to_lower(bundle_id.as_str());
            if !is_protected_bundle_id(bundle_id.as_str()) && !seen.contains_key(key.as_str()) {
                let name = match &app.name {
                    Some(name) => name.clone(),
                    None => bundle_id.clone(),
                };
                let icon_path = match &app.path {
                    Some(path) => Some(path.clone()),
                    None => None,
                };
                let entry = AppEntry { bundle_id: bundle_id.clone(), name, icon_path };
                let ghost kept = entry_views(entries@);
                proof {
                    ids_of_push(kept, entry@);
                }
                assert(entry@ == offered(running@[i as int]));
                entries.push(entry);
                assert(entry_views(entries@) =~= kept.push(offered(running@[i as int])));
                let ghost seen_before = seen@;
                let ghost key_text = key@;
                seen.insert(key, true);
                assert(seen@.dom() =~= seen_before.dom().insert(key_text));
            }
        }
    }
    assert(running@.take(running@.len() as int) =~= running@);
}

/// The configured IDs that are not known yet.
fn collect_unknown(
    configured: &Vec<String>,
    seen: &mut NameMap<bool>,
    unknown: &mut Vec<String>,
    Ghost(before): Ghost<Seq<Seq<char>>>,
    Ghost(known): Ghost<Set<Seq<char>>>,
)
    requires
        texts(old(unknown)@) == unknown_ids(before, known),
        old(seen)@.dom() == known.union(lower_ids(texts(old(unknown)@))),
    ensures
        texts(final(unknown)@) == unknown_ids(before + texts(configured@), known),
        final(seen)@.dom() == known.union(lower_ids(texts(final(unknown)@))),
{
    let ghost all = texts(configured@);
    assert(before + all.take(0) =~= before);
    for i in 0..configured.len()
        invariant
            all == texts(configured@),
            texts(unknown@) == unknown_ids(before + all.take(i as int), known),
            seen@.dom() == known.union(lower_ids(texts(unknown@))),
    {
        let ghost longer = before + all.take(i + 1);
        assert(longer.drop_last() =~= before + all.take(i as int));
        assert(longer.last() == all[i as int]);
        let id = configured[i].as_str();
        let key = to_lower(id);
        let ghost kept = texts(unknown@);
        proof {
            named_is_lower_id(kept, id@);
        }
        if !seen.contains_key(key.as_str()) && !is_protected_bundle_id(id) {
            proof {
                lower_ids_push(kept, id@);
            }
            unknown.push(configured[i].clone());
            assert(texts(unknown@) =~= kept.push(id@));
            let ghost seen_before = seen@;
            let ghost key_text = key@;
            seen.insert(key, true);
            assert(seen@.dom() =~= seen_before.dom().insert(key_text));
            assert(seen@.dom() =~= known.union(lower_ids(texts(unknown@))));
        }
    }
    assert(all.take(all.len() as int) =~= all);
}

/// All apps that can be selected, in the order in which they were found: those
/// in the standard folders, then running ones, then configured ones that the
/// system is asked for.
pub open spec fn all_offered(
    scanned: Seq<EntryView>,
    running: Seq<RunningEntry>,
    configured: Seq<Seq<char>>,
    answers: Seq<Option<EntryView>>,
) -> Seq<EntryView> {
    let present = with_running(scanned, running);
    present + resolved_entries(unknown_ids(configured, ids_of(present)), answers)
}

/// The system's answers to what was asked for configured IDs.
pub open spec fn answered<R: Fn(&str) -> Option<AppEntry>>(
    resolve: R,
    ids: Seq<Seq<char>>,
    answers: Seq<Option<EntryView>>,
) -> bool {
    &&& answers.len() == ids.len()
    &&& forall|i: int|
        0 <= i < ids.len() ==> exists|id: &str, answer: Option<AppEntry>|
            id@ == #[trigger] ids[i] && #[trigger] resolve.ensures((id,), answer) && opt_entry(answer)
                == answers[i]
}

/// The list holds all apps that can be selected, for some answers of the system
/// to what was asked for configured IDs.
pub open spec fn offered_as<R: Fn(&str) -> Option<AppEntry>>(
    scanned: Seq<EntryView>,
    running: Seq<RunningEntry>,
    configured: Seq<Seq<char>>,
    resolve: R,
    list: Seq<EntryView>,
) -> bool {
    let ids = unknown_ids(configured, ids_of(with_running(scanned, running)));
    exists|answers: Seq<Option<EntryView>>| #[trigger]
        answered(resolve, ids, answers) && list == all_offered(
            scanned,
            running,
            configured,
            answers,
        )
}

/// Collects all apps that can be selected.
pub fn collect_offered<R: Fn(&str) -> Option<AppEntry>>(
    scanned: Vec<AppEntry>,
    running: &Vec<RunningEntry>,
    config: &Config,
    resolve: R,
) -> (r: Vec<AppEntry>)
    requires
        forall|id: &str| resolve.requires((id,)),
    ensures
        offered_as(
            entry_views(scanned@),
            running@,
            config@.apps + config@.keep_alive_apps,
            resolve,
            entry_views(r@),
        ),
{
    let mut entries = scanned;
    let mut seen: NameMap<bool> = NameMap::new();
    let ghost start = entry_views(entries@);
    assert(seen@.dom() =~= ids_of(start.take(0)));
    for i in 0..entries.len()
        invariant
            start == entry_views(entries@),
            seen@.dom() == ids_of(start.take(i as int)),
    {
        proof {
            assert(start.take(i + 1) =~= start.take(i as int).push(start[i as int]));
            ids_of_push(start.take(i as int), start[i as int]);
        }
        let ghost seen_before = seen@;
        let key = to_lower(entries[i].bundle_id.as_str());
        let ghost key_text = key@;
        seen.insert(key, true);
        assert(seen@.dom() =~= seen_before.dom().insert(key_text));
    }
    assert(start.take(start.len() as int) =~= start);
    add_running(&mut entries, &mut seen, running);
    let ghost present = entry_views(entries@);
    let ghost known = ids_of(present);
    let mut unknown: Vec<String> = Vec::new();
    let ghost none: Seq<Seq<char>> = Seq::empty();
    assert(texts(unknown@) =~= unknown_ids(none, known));
    assert(seen@.dom() =~= known.union(lower_ids(texts(unknown@))));
    collect_unknown(&config.apps, &mut seen, &mut unknown, Ghost(none), Ghost(known));
    assert(none + config@.apps =~= config@.apps);
    collect_unknown(
        &config.keep_alive_apps,
        &mut seen,
        &mut unknown,
        Ghost(config@.apps),
        Ghost(known),
    );
    let ghost ids = texts(unknown@);
    let ghost mut answers: Seq<Option<EntryView>> = Seq::empty();
    assert(present + resolved_entries(ids.take(0), answers) =~= present);
    for i in 0..unknown.len()
        invariant
            ids == texts(unknown@),
            forall|id: &str| resolve.requires((id,)),
            answers.len() == i,
            answered(resolve, ids.take(i as int), answers),
            entry_views(entries@) == present + resolved_entries(ids.take(i as int), answers),
    {
        let ghost kept = entry_views(entries@);
        let answer = resolve(unknown[i].as_str());
        let ghost answer_view = opt_entry(answer);
        let ghost answers_before = answers;
        proof {
            answers = answers.push(answer_view);
            assert(answered(resolve, ids.take(i + 1), answers)) by {
                assert forall|j: int| 0 <= j < i + 1 implies exists|id: &str, a: Option<AppEntry>|
                    id@ == #[trigger] ids.take(i + 1)[j] && #[trigger] resolve.ensures((id,), a)
                        && opt_entry(a) == answers[j] by {
                    if j < i {
                        assert(ids.take(i as int)[j] == ids.take(i + 1)[j]);
                    }
                }
            }
        }
        let entry = match answer {
            Some(entry) => entry,
            None => AppEntry {
                bundle_id: unknown[i].clone(),
                name: unknown[i].clone(),
                icon_path: None,
            },
        };
        assert(entry@ == resolved_entry(ids[i as int], answer_view));
        entries.push(entry);
        assert(entry_views(entries@) =~= kept.push(resolved_entry(ids[i as int], answer_view)));
        assert(resolved_entries(ids.take(i + 1), answers) =~= resolved_entries(
            ids.take(i as int),
            answers_before,
        ).push(resolved_entry(ids[i as int], answer_view)));
        assert(entry_views(entries@) =~= present + resolved_entries(ids.take(i + 1), answers));
    }
    assert(ids.take(ids.len() as int) =~= ids);
    entries
}

/// An app with the text that it is sorted by.
pub ghost struct Keyed {
    pub key: Seq<char>,
    pub entry: EntryView,
}

/// A sorted list with one more app, behind all that do not come after it.
pub open spec fn placed(list: Seq<Keyed>, item: Keyed) -> Seq<Keyed>
    decreases list.len(),
{
    if list.len() == 0 || !before(item.key, list.last().key) {
        list.push(item)
    } else {
        placed(list.drop_last(), item).push(list.last())
    }
}

/// The apps sorted by their keys; those with the same key keep their order.
pub open spec fn sorted_by_key(list: Seq<Keyed>) -> Seq<Keyed>
    decreases list.len(),
{
    if list.len() == 0 {
        Seq::empty()
    } else {
        placed(sorted_by_key(list.drop_last()), list.last())
    }
}

/// Apps with their keys.
pub open spec fn keyed(entries: Seq<EntryView>, keys: Seq<Seq<char>>) -> Seq<Keyed> {
    Seq::new(entries.len(), |i: int| Keyed { key: keys[i], entry: entries[i] })
}

/// Apps without their keys.
pub open spec fn unkeyed(list: Seq<Keyed>) -> Seq<EntryView> {
    Seq::new(list.len(), |i: int| list[i].entry)
}

proof fn placed_inserts(list: Seq<Keyed>, item: Keyed, at: int)
    requires
        0 <= at <= list.len(),
        forall|i: int| at <= i < list.len() ==> before(item.key, (#[trigger] list[i]).key),
        at > 0 ==> !before(item.key, list[at - 1].key),
    ensures
        placed(list, item) == list.insert(at, item),
    decreases list.len(),
{
    if at == list.len() {
        assert(list.insert(at, item) =~= list.push(item));
    } else {
        assert(before(item.key, list[list.len() - 1].key));
        placed_inserts(list.drop_last(), item, at);
        assert(list.insert(at, item) =~= list.drop_last().insert(at, item).push(list.last()));
    }
}

/// Sorts apps by keys that are given for them.
pub fn sort_by_keys(entries: &Vec<AppEntry>, keys: &Vec<String>) -> (r: Vec<AppEntry>)
    requires
        keys@.len() == entries@.len(),
    ensures
        entry_views(r@) == unkeyed(sorted_by_key(keyed(entry_views(entries@), texts(keys@)))),
{
    let ghost all = keyed(entry_views(entries@), texts(keys@));
    let mut r: Vec<AppEntry> = Vec::new();
    let mut placed_keys: Vec<Vec<char>> = Vec::new();
    let ghost mut sorted: Seq<Keyed> = Seq::empty();
    for i in 0..entries.len()
        invariant
            keys@.len() == entries@.len(),
            all == keyed(entry_views(entries@), texts(keys@)),
            sorted == sorted_by_key(all.take(i as int)),
            r@.len() == sorted.len(),
            placed_keys@.len() == sorted.len(),
            forall|j: int| 0 <= j < sorted.len() ==> (#[trigger] sorted[j]).entry == r@[j]@,
            forall|j: int| 0 <= j < sorted.len() ==> (#[trigger] sorted[j]).key == placed_keys@[j]@,
    {
        let ghost item = all[i as int];
        let key = chars_of(keys[i].as_str());
        assert(key@ == item.key);
        let mut at: usize = r.len();
        while at > 0 && comes_before(&key, &placed_keys[at - 1])
            invariant
                at <= sorted.len(),
                placed_keys@.len() == sorted.len(),
                key@ == item.key,
                forall|j: int|
                    0 <= j < sorted.len() ==> (#[trigger] sorted[j]).key == placed_keys@[j]@,
                forall|j: int|
                    at <= j < sorted.len() ==> before(item.key, (#[trigger] sorted[j]).key),
            decreases at,
        {
            assert(sorted[at - 1].key == placed_keys@[at - 1]@);
            at = at - 1;
        }
        proof {
            if at > 0 {
                assert(sorted[at - 1].key == placed_keys@[at - 1]@);
            }
            placed_inserts(sorted, item, at as int);
            assert(all.take(i + 1).drop_last() =~= all.take(i as int));
            assert(all.take(i + 1).last() == item);
        }
        let ghost r_before = r@;
        let ghost keys_before = placed_keys@;
        let entry = entries[i].clone();
        let ghost entry_view = entry@;
        r.insert(at, entry);
        placed_keys.insert(at, key);
        proof {
            let longer = sorted.insert(at as int, item);
            assert forall|j: int| 0 <= j < longer.len() implies (#[trigger] longer[j]).entry
                == r@[j]@ && longer[j].key == placed_keys@[j]@ by {
                if j < at {
                    assert(longer[j] == sorted[j]);
                } else if j > at {
                    assert(longer[j] == sorted[j - 1]);
                }
            }
            sorted = longer;
        }
    }
    assert(all.take(all.len() as int) =~= all);
    assert(entry_views(r@) =~= unkeyed(sorted));
    r
}

/// The apps sorted by their names, without regard to case; those with the same
/// name keep their order.
pub open spec fn sorted_by_name(entries: Seq<EntryView>) -> Seq<EntryView> {
    unkeyed(
        sorted_by_key(
            keyed(entries, Seq::new(entries.len(), |i: int| full_lower(entries[i].name))),
        ),
    )
}

/// Sorts apps by their names, without regard to case.
pub fn sort_by_name(entries: &Vec<AppEntry>) -> (r: Vec<AppEntry>)
    ensures
        entry_views(r@) == sorted_by_name(entry_views(entries@)),
{
    let mut keys: Vec<String> = Vec::new();
    for i in 0..entries.len()
        invariant
            keys@.len() == i,
            forall|j: int|
                0 <= j < i ==> texts(keys@)[j] == full_lower(#[trigger] entries@[j].name@),
    {
        let ghost keys_before = texts(keys@);
        keys.push(entries[i].name.to_lowercase());
        assert(forall|j: int| 0 <= j < i ==> texts(keys@)[j] == keys_before[j]);
    }
    let ghost views = entry_views(entries@);
    assert(texts(keys@) =~= Seq::new(views.len(), |i: int| full_lower(views[i].name)));
    sort_by_keys(entries, &keys)
}

/// The app is on one of the lists.
pub open spec fn selected(config: ConfigView, bundle_id: Seq<char>) -> bool {
    names(config.apps, bundle_id) || names(config.keep_alive_apps, bundle_id)
}

/// A query finds an app, all of them in lower case: it occurs in the name or in
/// the bundle ID. An empty query finds every app.
pub open spec fn found_by(query: Seq<char>, name: Seq<char>, bundle_id: Seq<char>) -> bool {
    query.len() == 0 || occurs_in(query, name) || occurs_in(query, bundle_id)
}

/// Whether a query finds an app, all of them in lower case.
pub fn is_found_by(query: &str, name: &str, bundle_id: &str) -> (r: bool)
    ensures
        r == found_by(query@, name@, bundle_id@),
{
    let needle = chars_of(query);
    needle.len() == 0 || contains_text(&chars_of(name), &needle) || contains_text(
        &chars_of(bundle_id),
        &needle,
    )
}

/// The app is shown for a query, and where only selected apps are shown.
pub open spec fn shown(
    entry: EntryView,
    config: ConfigView,
    query: Seq<char>,
    only_selected: bool,
) -> bool {
    &&& only_selected ==> selected(config, entry.bundle_id)
    &&& found_by(full_lower(query), full_lower(entry.name), full_lower(entry.bundle_id))
}

/// The apps that are shown.
pub open spec fn filtered(
    entries: Seq<EntryView>,
    config: ConfigView,
    query: Seq<char>,
    only_selected: bool,
) -> Seq<EntryView> {
    entries.filter(|entry: EntryView| shown(entry, config, query, only_selected))
}

/// The apps that match the search field and, where only selected apps are shown,
/// are on one of the lists.
pub fn filter_entries(
    entries: &Vec<AppEntry>,
    config: &Config,
    query: &str,
    only_selected: bool,
) -> (r: Vec<AppEntry>)
    ensures
        entry_views(r@) == filtered(entry_views(entries@), config@, query@, only_selected),
{
    let lower_query = query.to_lowercase();
    let ghost all = entry_views(entries@);
    let ghost keep = |entry: EntryView| shown(entry, config@, query@, only_selected);
    let mut r: Vec<AppEntry> = Vec::new();
    assert(all.take(0).filter(keep) =~= Seq::empty()) by {
        reveal(Seq::filter);
    }
    assert(entry_views(r@) =~= all.take(0).filter(keep));
    for i in 0..entries.len()
        invariant
            all == entry_views(entries@),
            keep == (|entry: EntryView| shown(entry, config@, query@, only_selected)),
            lower_query@ == full_lower(query@),
            entry_views(r@) == all.take(i as int).filter(keep),
    {
        let ghost kept = entry_views(r@);
        proof {
            assert(all.take(i + 1) =~= all.take(i as int).push(all[i as int]));
            all.take(i as int).lemma_filter_push(all[i as int], keep);
        }
        let entry = &entries[i];
        let id = entry.bundle_id.as_str();
        let listed = !only_selected || is_listed(&config.apps, id) || is_listed(
            &config.keep_alive_apps,
            id,
        );
        if listed && is_found_by(
            lower_query.as_str(),
            entry.name.to_lowercase().as_str(),
            entry.bundle_id.to_lowercase().as_str(),
        ) {
            r.push(entry.clone());
            assert(entry_views(r@) =~= kept.push(all[i as int]));
        }
    }
    assert(all.take(all.len() as int) =~= all);
    r
}

/// The keys do not descend.
pub open spec fn ascends(list: Seq<Keyed>) -> bool {
    forall|i: int, j: int|
        0 <= i < j < list.len() ==> !before((#[trigger] list[j]).key, (#[trigger] list[i]).key)
}

/// Tells the apps with a key from the others.
pub open spec fn with_key(key: Seq<char>) -> spec_fn(Keyed) -> bool {
    |item: Keyed| item.key == key
}

proof fn placed_keeps_order(list: Seq<Keyed>, item: Keyed)
    requires
        ascends(list),
    ensures
        ascends(placed(list, item)),
        placed(list, item).to_multiset() == list.to_multiset().insert(item),
        forall|key: Seq<char>| #[trigger]
            placed(list, item).filter(with_key(key)) == list.push(item).filter(with_key(key)),
        placed(list, item).len() == list.len() + 1,
        forall|k: int|
            0 <= k < placed(list, item).len() ==> placed(list, item)[k] == item || list.contains(
                #[trigger] placed(list, item)[k],
            ),
    decreases list.len(),
{
    broadcast use vstd::seq_lib::group_to_multiset_ensures;

    if list.len() == 0 || !before(item.key, list.last().key) {
        let longer = list.push(item);
        assert forall|i: int, j: int| 0 <= i < j < longer.len() implies !before(
            (#[trigger] longer[j]).key,
            (#[trigger] longer[i]).key,
        ) by {
            if j == list.len() {
                let last = list.len() - 1;
                order_is_total(list[last].key, item.key);
                if before(item.key, list[i].key) {
                    order_is_total(list[i].key, list[last].key);
                    if i < last {
                        assert(!before(list[last].key, list[i].key));
                        if list[i].key != list[last].key {
                            order_is_transitive(item.key, list[i].key, list[last].key);
                        }
                    }
                }
            }
        }
        assert forall|k: int| 0 <= k < longer.len() implies longer[k] == item || list.contains(
            #[trigger] longer[k],
        ) by {
            if k < list.len() {
                assert(list[k] == longer[k]);
            }
        }
    } else {
        let rest = list.drop_last();
        let last = list.last();
        let inner = placed(rest, item);
        let longer = inner.push(last);
        placed_keeps_order(rest, item);
        assert(rest.push(last) =~= list);
        assert forall|k: int| 0 <= k < longer.len() implies longer[k] == item || list.contains(
            #[trigger] longer[k],
        ) by {
            if k < inner.len() {
                assert(longer[k] == inner[k]);
                if inner[k] != item {
                    assert(rest.contains(inner[k]));
                    let m = choose|m: int| 0 <= m < rest.len() && rest[m] == inner[k];
                    assert(list[m] == longer[k]);
                }
            } else {
                assert(list[list.len() - 1] == longer[k]);
            }
        }
        assert forall|i: int, j: int| 0 <= i < j < longer.len() implies !before(
            (#[trigger] longer[j]).key,
            (#[trigger] longer[i]).key,
        ) by {
            if j < inner.len() {
                assert(longer[i] == inner[i] && longer[j] == inner[j]);
            } else {
                assert(longer[i] == inner[i]);
                if inner[i] == item {
                    order_is_total(item.key, last.key);
                } else {
                    assert(rest.contains(inner[i]));
                    let m = choose|m: int| 0 <= m < rest.len() && rest[m] == inner[i];
                    assert(!before(list[list.len() - 1].key, list[m].key));
                }
            }
        }
        assert forall|key: Seq<char>| #[trigger] longer.filter(with_key(key)) == list.push(
            item,
        ).filter(with_key(key)) by {
            let keep = with_key(key);
            inner.lemma_filter_push(last, keep);
            list.lemma_filter_push(item, keep);
            rest.lemma_filter_push(last, keep);
            rest.lemma_filter_push(item, keep);
            assert(inner.filter(keep) == rest.push(item).filter(keep));
            order_is_total(item.key, last.key);
        }
        assert(longer.to_multiset() =~= list.to_multiset().insert(item));
    }
}

/// Sorting by keys gives the same apps, in ascending order of their keys, and
/// leaves those with the same key in the order that they had.
pub proof fn sorting_is_ordered_complete_and_stable(list: Seq<Keyed>)
    ensures
        ascends(sorted_by_key(list)),
        sorted_by_key(list).to_multiset() == list.to_multiset(),
        forall|key: Seq<char>| #[trigger]
            sorted_by_key(list).filter(with_key(key)) == list.filter(with_key(key)),
    decreases list.len(),
{
    broadcast use vstd::seq_lib::group_to_multiset_ensures;

    if list.len() > 0 {
        let rest = list.drop_last();
        let item = list.last();
        let sorted = sorted_by_key(rest);
        sorting_is_ordered_complete_and_stable(rest);
        placed_keeps_order(sorted, item);
        assert(rest.push(item) =~= list);
        assert forall|key: Seq<char>| #[trigger]
            sorted_by_key(list).filter(with_key(key)) == list.filter(with_key(key)) by {
            sorted.lemma_filter_push(item, with_key(key));
            rest.lemma_filter_push(item, with_key(key));
        }
        assert(sorted_by_key(list).to_multiset() =~= list.to_multiset());
    } else {
        assert(sorted_by_key(list) =~= list);
    }
}

/// No two apps have the same ID.
pub open spec fn distinct_ids(entries: Seq<EntryView>) -> bool {
    forall|i: int, j: int|
        0 <= i < j < entries.len() ==> !same_text(
            (#[trigger] entries[i]).bundle_id,
            (#[trigger] entries[j]).bundle_id,
        )
}

proof fn push_keeps_distinct(entries: Seq<EntryView>, entry: EntryView)
    requires
        distinct_ids(entries),
        !ids_of(entries).contains(lower(entry.bundle_id)),
    ensures
        distinct_ids(entries.push(entry)),
{
    let longer = entries.push(entry);
    assert forall|i: int, j: int| 0 <= i < j < longer.len() implies !same_text(
        (#[trigger] longer[i]).bundle_id,
        (#[trigger] longer[j]).bundle_id,
    ) by {
        assert(longer[i] == entries[i]);
        if j == entries.len() {
            assert(lower(entries[i].bundle_id) != lower(entry.bundle_id));
        }
    }
}

/// The apps that were found in the standard folders, and then also the running
/// ones, are offered once each.
pub proof fn found_and_running_apps_are_distinct(
    found: Seq<Option<EntryView>>,
    running: Seq<RunningEntry>,
)
    ensures
        distinct_ids(first_of_each(found)),
        distinct_ids(with_running(first_of_each(found), running)),
    decreases found.len() + running.len(),
{
    if running.len() > 0 {
        found_and_running_apps_are_distinct(found, running.drop_last());
        let earlier = with_running(first_of_each(found), running.drop_last());
        let app = running.last();
        if app.bundle_id is Some && !ids_of(earlier).contains(lower(app.bundle_id->0@)) {
            push_keeps_distinct(earlier, offered(app));
        }
    } else if found.len() > 0 {
        found_and_running_apps_are_distinct(found.drop_last(), running);
        let earlier = first_of_each(found.drop_last());
        if found.last() is Some && !ids_of(earlier).contains(lower(found.last()->0.bundle_id)) {
            push_keeps_distinct(earlier, found.last()->0);
        }
    }
}

/// No app is protected by its ID.
pub open spec fn none_protected(entries: Seq<EntryView>) -> bool {
    forall|i: int| 0 <= i < entries.len() ==> !protected_bundle_id((#[trigger] entries[i]).bundle_id)
}

proof fn running_adds_no_protected(entries: Seq<EntryView>, running: Seq<RunningEntry>)
    requires
        none_protected(entries),
    ensures
        none_protected(with_running(entries, running)),
    decreases running.len(),
{
    if running.len() > 0 {
        running_adds_no_protected(entries, running.drop_last());
    }
}

proof fn unknown_ids_are_not_protected(configured: Seq<Seq<char>>, known: Set<Seq<char>>)
    ensures
        forall|i: int|
            0 <= i < unknown_ids(configured, known).len() ==> !protected_bundle_id(
                #[trigger] unknown_ids(configured, known)[i],
            ),
    decreases configured.len(),
{
    if configured.len() > 0 {
        let earlier = unknown_ids(configured.drop_last(), known);
        let ids = unknown_ids(configured, known);
        unknown_ids_are_not_protected(configured.drop_last(), known);
        assert forall|i: int| 0 <= i < ids.len() implies !protected_bundle_id(#[trigger] ids[i]) by {
            if i < earlier.len() {
                assert(ids[i] == earlier[i]);
            }
        }
    }
}

/// Protected apps are never offered: neither found, running nor configured ones.
/// What the system describes is not protected (see
/// `described_apps_are_not_protected`), and sorting and filtering add nothing.
pub proof fn protected_apps_are_never_offered(
    scanned: Seq<EntryView>,
    running: Seq<RunningEntry>,
    configured: Seq<Seq<char>>,
    answers: Seq<Option<EntryView>>,
    config: ConfigView,
    query: Seq<char>,
    only_selected: bool,
)
    requires
        none_protected(scanned),
        forall|i: int|
            0 <= i < answers.len() && (#[trigger] answers[i]) is Some ==> !protected_bundle_id(
                answers[i]->0.bundle_id,
            ),
        answers.len() == unknown_ids(
            configured,
            ids_of(with_running(scanned, running)),
        ).len(),
    ensures
        none_protected(all_offered(scanned, running, configured, answers)),
        none_protected(sorted_by_name(all_offered(scanned, running, configured, answers))),
        none_protected(
            filtered(
                sorted_by_name(all_offered(scanned, running, configured, answers)),
                config,
                query,
                only_selected,
            ),
        ),
{
    let present = with_running(scanned, running);
    let ids = unknown_ids(configured, ids_of(present));
    let all = all_offered(scanned, running, configured, answers);
    running_adds_no_protected(scanned, running);
    unknown_ids_are_not_protected(configured, ids_of(present));
    assert forall|i: int| 0 <= i < all.len() implies !protected_bundle_id(
        (#[trigger] all[i]).bundle_id,
    ) by {
        if i >= present.len() {
            let k = i - present.len();
            assert(all[i] == resolved_entry(ids[k], answers[k]));
        } else {
            assert(all[i] == present[i]);
        }
    }
    let sorted = sorted_by_name(all);
    sorting_adds_nothing(all);
    assert forall|i: int| 0 <= i < sorted.len() implies !protected_bundle_id(
        (#[trigger] sorted[i]).bundle_id,
    ) by {
        assert(all.contains(sorted[i]));
    }
    let keep = |entry: EntryView| shown(entry, config, query, only_selected);
    let left = filtered(sorted, config, query, only_selected);
    assert forall|i: int| 0 <= i < left.len() implies !protected_bundle_id(
        (#[trigger] left[i]).bundle_id,
    ) by {
        assert(left.contains(left[i]));
        sorted.lemma_filter_contains_rev(keep, left[i]);
        let k = choose|k: int| 0 <= k < sorted.len() && sorted[k] == left[i];
        assert(!protected_bundle_id(sorted[k].bundle_id));
    }
}

/// Sorting by name adds no app.
proof fn sorting_adds_nothing(entries: Seq<EntryView>)
    ensures
        forall|i: int|
            0 <= i < sorted_by_name(entries).len() ==> entries.contains(
                #[trigger] sorted_by_name(entries)[i],
            ),
{
    broadcast use vstd::seq_lib::group_to_multiset_ensures;

    let keys = Seq::new(entries.len(), |i: int| full_lower(entries[i].name));
    let list = keyed(entries, keys);
    let sorted = sorted_by_key(list);
    sorting_is_ordered_complete_and_stable(list);
    assert forall|i: int| 0 <= i < sorted_by_name(entries).len() implies entries.contains(
        #[trigger] sorted_by_name(entries)[i],
    ) by {
        assert(sorted.contains(sorted[i]));
        assert(sorted.to_multiset().count(sorted[i]) > 0);
        assert(list.contains(sorted[i]));
        let k = choose|k: int| 0 <= k < list.len() && list[k] == sorted[i];
        assert(entries[k] == sorted[i].entry);
    }
}

/// What is described as the app at a path is never protected, neither by its ID
/// nor by its place; and of apps that are not, none that is listed once each is.
pub proof fn described_apps_are_not_protected(
    path: Seq<char>,
    resolved: Option<Seq<char>>,
    bundle_id: Option<Seq<char>>,
    display_name: Seq<char>,
    found: Seq<Option<EntryView>>,
)
    requires
        forall|i: int|
            0 <= i < found.len() && (#[trigger] found[i]) is Some ==> !protected_bundle_id(
                found[i]->0.bundle_id,
            ),
    ensures
        entry_at(path, resolved, bundle_id, display_name) is Some ==> !protected_bundle_id(
            entry_at(path, resolved, bundle_id, display_name)->0.bundle_id,
        ) && !protected_path(path, resolved),
        none_protected(first_of_each(found)),
    decreases found.len(),
{
    if found.len() > 0 {
        let shorter = found.drop_last();
        assert forall|i: int|
            0 <= i < shorter.len() && (#[trigger] shorter[i]) is Some implies !protected_bundle_id(
            shorter[i]->0.bundle_id,
        ) by {
            assert(shorter[i] == found[i]);
        }
        described_apps_are_not_protected(path, resolved, bundle_id, display_name, shorter);
        assert(found.last() == found[found.len() - 1]);
    }
}

/// Every configured app that is not protected is offered: it was found or runs,
/// or the system is asked for it, once.
pub proof fn every_configured_app_is_offered(
    configured: Seq<Seq<char>>,
    known: Set<Seq<char>>,
    at: int,
)
    requires
        0 <= at < configured.len(),
        !protected_bundle_id(configured[at]),
    ensures
        known.contains(lower(configured[at])) || names(
            unknown_ids(configured, known),
            configured[at],
        ),
    decreases configured.len(),
{
    let shorter = configured.drop_last();
    let earlier = unknown_ids(shorter, known);
    let all = unknown_ids(configured, known);
    let id = configured[at];
    if at < shorter.len() {
        every_configured_app_is_offered(shorter, known, at);
        if names(earlier, id) {
            let k = choose|k: int| 0 <= k < earlier.len() && same_text(#[trigger] earlier[k], id);
            assert(same_text(all[k], id));
        }
    } else if !known.contains(lower(id)) {
        if !names(earlier, id) {
            assert(all == earlier.push(id));
            assert(same_text(all[earlier.len() as int], id));
        }
    }
}

/// Without a query and without the selected-only filter every app is shown.
pub proof fn nothing_is_hidden_without_a_filter(entries: Seq<EntryView>, config: ConfigView)
    ensures
        filtered(entries, config, Seq::empty(), false) == entries,
    decreases entries.len(),
{
    reveal(Seq::filter);
    assert(full_lower(Seq::empty()).len() == 0);
    if entries.len() > 0 {
        nothing_is_hidden_without_a_filter(entries.drop_last(), config);
        assert(entries.drop_last().push(entries.last()) =~= entries);
    }
}

} // verus!
