//! Lists of apps, found or running: laws on what is in them.
use vstd::prelude::*;

use crate::app_list::{
    all_offered, entry_at, filtered, first_of_each, found_by, ids_of, keyed, offered,
    resolved_entries, selected, shown, sorted_by_key, sorted_by_name,
    sorting_is_ordered_complete_and_stable, unknown_ids, unkeyed, with_running,
    without_app_suffix, EntryView, Keyed, RunningEntry,
};
use crate::bundle_ids::names;
use crate::config::ConfigView;
use crate::paths::{below, components, joined};
use crate::procexit::{kind_of, ExitKind};
use crate::protected::protected_bundle_id;
use crate::running::{
    holds, missing_from, remembered, snapshot_of, without_pid, KnownView, ListedApp,
};
use crate::suite::{
    alphanumeric, helper_of, path_carries_name, plain_name, suite_name, suite_running, RunningView,
};
use crate::text::{before, full_lower, lower, occurs_in, same_text};

verus! {

/// Whether positions are ascending, and are exactly those at which something
/// holds.
pub open spec fn exactly_where(at: Seq<int>, holds_at: spec_fn(int) -> bool) -> bool {
    &&& forall|k: int, l: int| 0 <= k < l < at.len() ==> #[trigger] at[k] < #[trigger] at[l]
    &&& forall|j: int| #[trigger] at.contains(j) <==> holds_at(j)
}

spec fn first_key(keys: Seq<Option<Seq<char>>>, j: int) -> bool {
    &&& 0 <= j < keys.len()
    &&& keys[j] is Some
    &&& forall|i: int| 0 <= i < j ==> #[trigger] keys[i] != keys[j]
}

spec fn key_among(keys: Seq<Option<Seq<char>>>, key: Option<Seq<char>>) -> bool {
    exists|i: int| 0 <= i < keys.len() && #[trigger] keys[i] == key
}

spec fn first_positions(keys: Seq<Option<Seq<char>>>) -> Seq<int>
    decreases keys.len(),
{
    if keys.len() == 0 {
        Seq::empty()
    } else {
        let earlier = first_positions(keys.drop_last());
        if keys.last() is Some && !key_among(keys.drop_last(), keys.last()) {
            earlier.push(keys.len() - 1)
        } else {
            earlier
        }
    }
}

proof fn first_positions_are_exact(keys: Seq<Option<Seq<char>>>)
    ensures
        exactly_where(first_positions(keys), |j: int| first_key(keys, j)),
        forall|k: int|
            0 <= k < first_positions(keys).len() ==> 0 <= #[trigger] first_positions(keys)[k]
                < keys.len(),
    decreases keys.len(),
{
    let at = first_positions(keys);
    if keys.len() > 0 {
        let front = keys.drop_last();
        let n = keys.len() - 1;
        let earlier = first_positions(front);
        first_positions_are_exact(front);
        assert forall|j: int| j < n implies first_key(keys, j) == first_key(front, j) by {
            if 0 <= j < n {
                assert(front[j] == keys[j]);
                if first_key(front, j) {
                    assert forall|i: int| 0 <= i < j implies #[trigger] keys[i] != keys[j] by {
                        assert(front[i] == keys[i]);
                    }
                }
                if first_key(keys, j) {
                    assert forall|i: int| 0 <= i < j implies #[trigger] front[i] != front[j] by {
                        assert(front[i] == keys[i]);
                    }
                }
            }
        }
        assert(first_key(keys, n) <==> keys.last() is Some && !key_among(front, keys.last())) by {
            if key_among(front, keys.last()) {
                let i = choose|i: int| 0 <= i < front.len() && #[trigger] front[i] == keys.last();
                assert(keys[i] == keys[n]);
            } else if keys.last() is Some {
                assert forall|i: int| 0 <= i < n implies #[trigger] keys[i] != keys[n] by {
                    assert(front[i] == keys[i]);
                }
            }
        }
        assert forall|j: int| #[trigger] at.contains(j) <==> first_key(keys, j) by {
            if at.contains(j) {
                let k = choose|k: int| 0 <= k < at.len() && at[k] == j;
                if k < earlier.len() {
                    assert(earlier[k] == j);
                    assert(earlier.contains(j));
                    assert((|j: int| first_key(front, j))(j));
                }
            }
            if first_key(keys, j) {
                if j < n {
                    assert((|j: int| first_key(front, j))(j));
                    assert(earlier.contains(j));
                    let k = choose|k: int| 0 <= k < earlier.len() && earlier[k] == j;
                    assert(at[k] == j);
                } else {
                    assert(at[earlier.len() as int] == n);
                }
            }
        }
        assert forall|j: int| #[trigger] at.contains(j) <==> (|j: int| first_key(keys, j))(j) by {}
    } else {
        assert forall|j: int| #[trigger] at.contains(j) <==> (|j: int| first_key(keys, j))(j) by {}
    }
}

proof fn ids_grow(entries: Seq<EntryView>, entry: EntryView, key: Seq<char>)
    ensures
        ids_of(entries.push(entry)).contains(key) <==> ids_of(entries).contains(key) || lower(
            entry.bundle_id,
        ) == key,
{
    let longer = entries.push(entry);
    if ids_of(entries).contains(key) {
        let i = choose|i: int|
            0 <= i < entries.len() && lower((#[trigger] entries[i]).bundle_id) == key;
        assert(longer[i] == entries[i]);
    }
    assert(longer[entries.len() as int] == entry);
    if ids_of(longer).contains(key) {
        let i = choose|i: int|
            0 <= i < longer.len() && lower((#[trigger] longer[i]).bundle_id) == key;
        if i < entries.len() {
            assert(entries[i] == longer[i]);
        }
    }
}

spec fn found_keys(found: Seq<Option<EntryView>>) -> Seq<Option<Seq<char>>> {
    Seq::new(
        found.len(),
        |i: int|
            match found[i] {
                Some(entry) => Some(lower(entry.bundle_id)),
                None => None,
            },
    )
}

/// Whether something was found at a position that no earlier find has the ID of.
pub open spec fn found_first(found: Seq<Option<EntryView>>, j: int) -> bool {
    &&& 0 <= j < found.len()
    &&& found[j] is Some
    &&& forall|i: int|
        0 <= i < j && (#[trigger] found[i]) is Some ==> !same_text(
            found[i]->0.bundle_id,
            found[j]->0.bundle_id,
        )
}

proof fn finds_by_key(found: Seq<Option<EntryView>>)
    ensures
        first_of_each(found).len() == first_positions(found_keys(found)).len(),
        forall|k: int|
            0 <= k < first_of_each(found).len() ==> Some(#[trigger] first_of_each(found)[k])
                == found[first_positions(found_keys(found))[k]],
        forall|key: Seq<char>| #[trigger]
            ids_of(first_of_each(found)).contains(key) <==> key_among(
                found_keys(found),
                Some(key),
            ),
    decreases found.len(),
{
    let keys = found_keys(found);
    if found.len() > 0 {
        let front = found.drop_last();
        let earlier = first_of_each(front);
        finds_by_key(front);
        first_positions_are_exact(found_keys(front));
        assert(keys.drop_last() =~= found_keys(front));
        let n = found.len() - 1;
        assert forall|key: Seq<char>| key_among(keys, Some(key)) <==> key_among(
            found_keys(front),
            Some(key),
        ) || keys[n] == Some(key) by {
            if key_among(found_keys(front), Some(key)) {
                let i = choose|i: int|
                    0 <= i < front.len() && #[trigger] found_keys(front)[i] == Some(key);
                assert(keys[i] == Some(key));
            }
            if key_among(keys, Some(key)) {
                let i = choose|i: int| 0 <= i < keys.len() && #[trigger] keys[i] == Some(key);
                if i < n {
                    assert(found_keys(front)[i] == keys[i]);
                }
            }
        }
        if found.last() is Some {
            let key = lower(found.last()->0.bundle_id);
            assert(keys.last() == Some(key));
            assert(ids_of(earlier).contains(key) <==> key_among(found_keys(front), Some(key)));
            assert forall|other: Seq<char>| #[trigger]
                ids_of(first_of_each(found)).contains(other) <==> key_among(
                    keys,
                    Some(other),
                ) by {
                ids_grow(earlier, found.last()->0, other);
            }
        }
        assert forall|k: int| 0 <= k < first_of_each(found).len() implies Some(
            #[trigger] first_of_each(found)[k],
        ) == found[first_positions(keys)[k]] by {
            if k < earlier.len() {
                assert(first_of_each(found)[k] == earlier[k]);
                assert(first_positions(keys)[k] == first_positions(found_keys(front))[k]);
                assert(front[first_positions(found_keys(front))[k]] == found[first_positions(
                    found_keys(front),
                )[k]]);
            }
        }
    }
}

/// The apps in the list of finds are exactly those that were found first under
/// their ID, in the order in which they were found.
pub proof fn the_first_finds_are_listed(found: Seq<Option<EntryView>>) -> (at: Seq<int>)
    ensures
        exactly_where(at, |j: int| found_first(found, j)),
        first_of_each(found).len() == at.len(),
        forall|k: int| 0 <= k < at.len() ==> Some(#[trigger] first_of_each(found)[k]) == found[at[k]],
{
    let keys = found_keys(found);
    let at = first_positions(keys);
    first_positions_are_exact(keys);
    finds_by_key(found);
    assert forall|j: int| first_key(keys, j) == found_first(found, j) by {
        if first_key(keys, j) {
            assert forall|i: int|
                0 <= i < j && (#[trigger] found[i]) is Some implies !same_text(
                found[i]->0.bundle_id,
                found[j]->0.bundle_id,
            ) by {
                assert(keys[i] != keys[j]);
            }
        }
        if found_first(found, j) {
            assert forall|i: int| 0 <= i < j implies #[trigger] keys[i] != keys[j] by {
                assert(found[i] is Some ==> keys[i] == Some(lower(found[i]->0.bundle_id)));
            }
        }
    }
    assert forall|j: int| #[trigger] at.contains(j) <==> (|j: int| found_first(found, j))(j) by {
        assert((|j: int| first_key(keys, j))(j) == first_key(keys, j));
    }
    at
}

/// Whether a running app is one to add: it has an ID that is not protected, and no
/// app of the list and no earlier one to add has that ID.
pub open spec fn runs_unlisted(
    entries: Seq<EntryView>,
    running: Seq<RunningEntry>,
    j: int,
) -> bool {
    &&& 0 <= j < running.len()
    &&& running[j].bundle_id is Some
    &&& !protected_bundle_id(running[j].bundle_id->0@)
    &&& forall|i: int|
        0 <= i < entries.len() ==> !same_text(
            (#[trigger] entries[i]).bundle_id,
            running[j].bundle_id->0@,
        )
    &&& forall|i: int|
        0 <= i < j && (#[trigger] running[i]).bundle_id is Some && !protected_bundle_id(
            running[i].bundle_id->0@,
        ) ==> !same_text(running[i].bundle_id->0@, running[j].bundle_id->0@)
}

spec fn running_key(entries: Seq<EntryView>, app: RunningEntry) -> Option<Seq<char>> {
    if app.bundle_id is None || protected_bundle_id(app.bundle_id->0@) || ids_of(entries).contains(
        lower(app.bundle_id->0@),
    ) {
        None
    } else {
        Some(lower(app.bundle_id->0@))
    }
}

spec fn running_keys(entries: Seq<EntryView>, running: Seq<RunningEntry>) -> Seq<
    Option<Seq<char>>,
> {
    Seq::new(running.len(), |i: int| running_key(entries, running[i]))
}

proof fn running_by_key(entries: Seq<EntryView>, running: Seq<RunningEntry>)
    ensures
        with_running(entries, running).len() == entries.len() + first_positions(
            running_keys(entries, running),
        ).len(),
        forall|k: int|
            0 <= k < entries.len() ==> #[trigger] with_running(entries, running)[k] == entries[k],
        forall|k: int|
            0 <= k < first_positions(running_keys(entries, running)).len() ==> with_running(
                entries,
                running,
            )[entries.len() + k] == offered(
                running[#[trigger] first_positions(running_keys(entries, running))[k]],
            ),
        forall|key: Seq<char>| #[trigger]
            ids_of(with_running(entries, running)).contains(key) <==> ids_of(entries).contains(key)
                || key_among(running_keys(entries, running), Some(key)),
    decreases running.len(),
{
    let keys = running_keys(entries, running);
    if running.len() > 0 {
        let front = running.drop_last();
        let front_keys = running_keys(entries, front);
        let earlier = with_running(entries, front);
        let whole = with_running(entries, running);
        running_by_key(entries, front);
        first_positions_are_exact(front_keys);
        assert(keys.drop_last() =~= front_keys);
        let n = running.len() - 1;
        assert forall|key: Seq<char>| key_among(keys, Some(key)) <==> key_among(
            front_keys,
            Some(key),
        ) || keys[n] == Some(key) by {
            if key_among(front_keys, Some(key)) {
                let i = choose|i: int| 0 <= i < front.len() && #[trigger] front_keys[i] == Some(key);
                assert(keys[i] == Some(key));
            }
            if key_among(keys, Some(key)) {
                let i = choose|i: int| 0 <= i < keys.len() && #[trigger] keys[i] == Some(key);
                if i < n {
                    assert(front_keys[i] == keys[i]);
                }
            }
        }
        let app = running.last();
        assert(keys.last() == running_key(entries, app));
        if app.bundle_id is Some && !protected_bundle_id(app.bundle_id->0@) {
            let key = lower(app.bundle_id->0@);
            assert(ids_of(earlier).contains(key) <==> ids_of(entries).contains(key) || key_among(
                front_keys,
                Some(key),
            ));
            assert forall|other: Seq<char>| #[trigger]
                ids_of(whole).contains(other) <==> ids_of(entries).contains(other) || key_among(
                    keys,
                    Some(other),
                ) by {
                ids_grow(earlier, offered(app), other);
            }
        }
        assert forall|k: int| 0 <= k < first_positions(keys).len() implies whole[entries.len() + k]
            == offered(running[#[trigger] first_positions(keys)[k]]) by {
            if k < first_positions(front_keys).len() {
                assert(first_positions(keys)[k] == first_positions(front_keys)[k]);
                assert(front[first_positions(front_keys)[k]] == running[first_positions(
                    front_keys,
                )[k]]);
            }
        }
    }
}

/// To a list of apps, exactly the running apps that it does not hold are added,
/// each ID once, in the order in which they run; what is in the list stays in
/// front as it is.
pub proof fn the_missing_running_apps_are_added(
    entries: Seq<EntryView>,
    running: Seq<RunningEntry>,
) -> (at: Seq<int>)
    ensures
        exactly_where(at, |j: int| runs_unlisted(entries, running, j)),
        with_running(entries, running).len() == entries.len() + at.len(),
        forall|k: int|
            0 <= k < entries.len() ==> #[trigger] with_running(entries, running)[k] == entries[k],
        forall|k: int|
            0 <= k < at.len() ==> {
                let added = with_running(entries, running)[entries.len() + k];
                let app = running[#[trigger] at[k]];
                &&& added.bundle_id == app.bundle_id->0@
                &&& added.name == match app.name {
                    Some(name) => name@,
                    None => app.bundle_id->0@,
                }
                &&& added.icon_path == match app.path {
                    Some(path) => Some(path@),
                    None => None,
                }
            },
{
    let keys = running_keys(entries, running);
    let at = first_positions(keys);
    first_positions_are_exact(keys);
    running_by_key(entries, running);
    assert forall|j: int| first_key(keys, j) == runs_unlisted(entries, running, j) by {
        if 0 <= j < running.len() {
            listed_id(entries, running[j]);
        }
        if first_key(keys, j) {
            assert forall|i: int|
                0 <= i < j && (#[trigger] running[i]).bundle_id is Some && !protected_bundle_id(
                    running[i].bundle_id->0@,
                ) implies !same_text(running[i].bundle_id->0@, running[j].bundle_id->0@) by {
                assert(keys[i] != keys[j]);
            }
        }
        if runs_unlisted(entries, running, j) {
            assert forall|i: int| 0 <= i < j implies #[trigger] keys[i] != keys[j] by {
                assert(keys[i] == running_key(entries, running[i]));
            }
        }
    }
    assert forall|j: int| #[trigger] at.contains(j) <==> (|j: int|
        runs_unlisted(entries, running, j))(j) by {
        assert((|j: int| first_key(keys, j))(j) == first_key(keys, j));
    }
    at
}

proof fn listed_id(entries: Seq<EntryView>, app: RunningEntry)
    ensures
        app.bundle_id is Some ==> (ids_of(entries).contains(lower(app.bundle_id->0@)) <==> !(
        forall|i: int|
            0 <= i < entries.len() ==> !same_text(
                (#[trigger] entries[i]).bundle_id,
                app.bundle_id->0@,
            ))),
{
}

/// Whether the app of a configured ID is to be asked for: the ID is neither
/// protected nor known, and no earlier one names the same app.
pub open spec fn asked_for(configured: Seq<Seq<char>>, known: Set<Seq<char>>, j: int) -> bool {
    &&& 0 <= j < configured.len()
    &&& !known.contains(lower(configured[j]))
    &&& !protected_bundle_id(configured[j])
    &&& forall|i: int|
        0 <= i < j && !protected_bundle_id(#[trigger] configured[i]) ==> !same_text(
            configured[i],
            configured[j],
        )
}

spec fn unknown_keys(configured: Seq<Seq<char>>, known: Set<Seq<char>>) -> Seq<Option<Seq<char>>> {
    Seq::new(
        configured.len(),
        |i: int|
            if known.contains(lower(configured[i])) || protected_bundle_id(configured[i]) {
                None
            } else {
                Some(lower(configured[i]))
            },
    )
}

proof fn unknown_by_key(configured: Seq<Seq<char>>, known: Set<Seq<char>>)
    ensures
        unknown_ids(configured, known).len() == first_positions(
            unknown_keys(configured, known),
        ).len(),
        forall|k: int|
            0 <= k < unknown_ids(configured, known).len() ==> #[trigger] unknown_ids(
                configured,
                known,
            )[k] == configured[first_positions(unknown_keys(configured, known))[k]],
        forall|id: Seq<char>| #[trigger]
            names(unknown_ids(configured, known), id) <==> key_among(
                unknown_keys(configured, known),
                Some(lower(id)),
            ),
    decreases configured.len(),
{
    let keys = unknown_keys(configured, known);
    if configured.len() > 0 {
        let front = configured.drop_last();
        let front_keys = unknown_keys(front, known);
        let earlier = unknown_ids(front, known);
        let whole = unknown_ids(configured, known);
        unknown_by_key(front, known);
        first_positions_are_exact(front_keys);
        assert(keys.drop_last() =~= front_keys);
        let n = configured.len() - 1;
        let last = configured.last();
        assert forall|id: Seq<char>| #[trigger]
            names(whole, id) <==> key_among(keys, Some(lower(id))) by {
            assert(names(earlier, id) <==> key_among(front_keys, Some(lower(id))));
            assert(names(earlier, last) <==> key_among(front_keys, Some(lower(last))));
            crate::laws::ids::a_list_names_its_entries(earlier, last, id);
            if key_among(front_keys, Some(lower(id))) {
                let i = choose|i: int|
                    0 <= i < front.len() && #[trigger] front_keys[i] == Some(lower(id));
                assert(keys[i] == Some(lower(id)));
            }
            if key_among(keys, Some(lower(id))) {
                let i = choose|i: int| 0 <= i < keys.len() && #[trigger] keys[i] == Some(lower(id));
                if i < n {
                    assert(front_keys[i] == keys[i]);
                }
            }
            if keys[n] == Some(lower(id)) {
                assert(key_among(keys, Some(lower(id))));
            }
        }
        assert(names(earlier, last) <==> key_among(front_keys, Some(lower(last))));
        assert forall|k: int| 0 <= k < whole.len() implies #[trigger] whole[k]
            == configured[first_positions(keys)[k]] by {
            if k < earlier.len() {
                assert(first_positions(keys)[k] == first_positions(front_keys)[k]);
                assert(front[first_positions(front_keys)[k]] == configured[first_positions(
                    front_keys,
                )[k]]);
            }
        }
    } else {
        assert forall|id: Seq<char>| #[trigger]
            names(unknown_ids(configured, known), id) <==> key_among(keys, Some(lower(id))) by {}
    }
}

/// Of the configured apps, exactly those are asked for that are neither known nor
/// protected, each once, as it is written first and in the order of the settings.
pub proof fn the_unknown_configured_apps_are_asked_for(
    configured: Seq<Seq<char>>,
    known: Set<Seq<char>>,
) -> (at: Seq<int>)
    ensures
        exactly_where(at, |j: int| asked_for(configured, known, j)),
        unknown_ids(configured, known).len() == at.len(),
        forall|k: int|
            0 <= k < at.len() ==> #[trigger] unknown_ids(configured, known)[k] == configured[at[k]],
{
    let keys = unknown_keys(configured, known);
    let at = first_positions(keys);
    first_positions_are_exact(keys);
    unknown_by_key(configured, known);
    assert forall|j: int| first_key(keys, j) == asked_for(configured, known, j) by {
        if first_key(keys, j) {
            assert forall|i: int|
                0 <= i < j && !protected_bundle_id(#[trigger] configured[i]) implies !same_text(
                configured[i],
                configured[j],
            ) by {
                assert(keys[i] != keys[j]);
            }
        }
        if asked_for(configured, known, j) {
            assert forall|i: int| 0 <= i < j implies #[trigger] keys[i] != keys[j] by {
                assert(keys[i] is Some ==> keys[i] == Some(lower(configured[i])));
            }
        }
    }
    assert forall|j: int| #[trigger] at.contains(j) <==> (|j: int|
        asked_for(configured, known, j))(j) by {
        assert((|j: int| first_key(keys, j))(j) == first_key(keys, j));
    }
    at
}

/// All apps that are offered: those found and running come first, then one for
/// each configured app that is asked for, as the system describes it, or under its
/// ID where the system knows nothing.
pub proof fn every_app_has_its_place(
    scanned: Seq<EntryView>,
    running: Seq<RunningEntry>,
    configured: Seq<Seq<char>>,
    answers: Seq<Option<EntryView>>,
    k: int,
)
    ensures
        ({
            let present = with_running(scanned, running);
            let ids = unknown_ids(configured, ids_of(present));
            let all = all_offered(scanned, running, configured, answers);
            &&& all.len() == present.len() + ids.len()
            &&& 0 <= k < present.len() ==> all[k] == present[k]
            &&& 0 <= k < ids.len() && answers[k] is Some ==> all[present.len() + k]
                == answers[k]->0
            &&& 0 <= k < ids.len() && answers[k] is None ==> {
                let entry = all[present.len() + k];
                entry.bundle_id == ids[k] && entry.name == ids[k] && entry.icon_path is None
            }
        }),
{
    let ids = unknown_ids(configured, ids_of(with_running(scanned, running)));
    assert(resolved_entries(ids, answers).len() == ids.len());
}

/// Sorting the apps puts them in the order of their names in lower case, keeps
/// those of the same name in their order, and neither adds nor drops one.
pub proof fn apps_are_sorted_by_name(entries: Seq<EntryView>, name: Seq<char>)
    ensures
        ({
            let sorted = sorted_by_name(entries);
            let same_name = |entry: EntryView| full_lower(entry.name) == name;
            &&& sorted.len() == entries.len()
            &&& sorted.to_multiset() == entries.to_multiset()
            &&& forall|i: int, j: int|
                0 <= i < j < sorted.len() ==> !before(
                    full_lower((#[trigger] sorted[j]).name),
                    full_lower((#[trigger] sorted[i]).name),
                )
            &&& sorted.filter(same_name) == entries.filter(same_name)
        }),
{
    let keys = Seq::new(entries.len(), |i: int| full_lower(entries[i].name));
    let list = keyed(entries, keys);
    let sorted = sorted_by_key(list);
    sorting_is_ordered_complete_and_stable(list);
    broadcast use vstd::seq_lib::group_to_multiset_ensures;

    assert(sorted.to_multiset().len() == sorted.len());
    assert(list.to_multiset().len() == list.len());
    assert forall|i: int| 0 <= i < sorted.len() implies (#[trigger] sorted[i]).key == full_lower(
        sorted[i].entry.name,
    ) by {
        assert(sorted.to_multiset().contains(sorted[i]));
        assert(list.contains(sorted[i]));
        let k = choose|k: int| 0 <= k < list.len() && list[k] == sorted[i];
    }
    assert(unkeyed(list) =~= entries);
    mapped_multiset(sorted, list);
    unkeying_keeps_filters(sorted, name);
    unkeying_keeps_filters(list, name);
    assert(sorted.filter(crate::app_list::with_key(name)) == list.filter(
        crate::app_list::with_key(name),
    ));
}

proof fn mapped_multiset(a: Seq<Keyed>, b: Seq<Keyed>)
    requires
        a.to_multiset() == b.to_multiset(),
    ensures
        unkeyed(a).to_multiset() == unkeyed(b).to_multiset(),
    decreases a.len(),
{
    broadcast use vstd::seq_lib::group_to_multiset_ensures;

    assert(a.to_multiset().len() == a.len());
    assert(b.to_multiset().len() == b.len());
    if a.len() == 0 {
        assert(unkeyed(a) =~= unkeyed(b));
    } else {
        let last = a.last();
        assert(a.contains(last));
        assert(b.to_multiset().contains(last));
        assert(b.contains(last));
        let k = choose|k: int| 0 <= k < b.len() && b[k] == last;
        let (front, rest) = (a.drop_last(), b.remove(k));
        assert(a =~= front.push(last));
        assert(b =~= rest.insert(k, last));
        assert(front.to_multiset().insert(last) =~= a.to_multiset());
        assert(rest.to_multiset().insert(last) =~= b.to_multiset());
        assert(front.to_multiset() =~= a.to_multiset().remove(last));
        assert(rest.to_multiset() =~= b.to_multiset().remove(last));
        mapped_multiset(front, rest);
        assert(unkeyed(a) =~= unkeyed(front).push(last.entry));
        assert(unkeyed(b) =~= unkeyed(rest).insert(k, last.entry));
        assert(unkeyed(a).to_multiset() =~= unkeyed(b).to_multiset());
    }
}

proof fn unkeying_keeps_filters(list: Seq<Keyed>, name: Seq<char>)
    requires
        forall|i: int| 0 <= i < list.len() ==> (#[trigger] list[i]).key == full_lower(
            list[i].entry.name,
        ),
    ensures
        unkeyed(list.filter(crate::app_list::with_key(name))) == unkeyed(list).filter(
            |entry: EntryView| full_lower(entry.name) == name,
        ),
    decreases list.len(),
{
    reveal(Seq::filter);
    let with = crate::app_list::with_key(name);
    let same_name = |entry: EntryView| full_lower(entry.name) == name;
    if list.len() == 0 {
        assert(unkeyed(list.filter(with)) =~= unkeyed(list).filter(same_name));
    } else {
        let front = list.drop_last();
        let last = list.last();
        assert forall|i: int| 0 <= i < front.len() implies (#[trigger] front[i]).key == full_lower(
            front[i].entry.name,
        ) by {
            assert(front[i] == list[i]);
        }
        unkeying_keeps_filters(front, name);
        assert(list =~= front.push(last));
        assert(unkeyed(list) =~= unkeyed(front).push(last.entry));
        front.lemma_filter_push(last, with);
        unkeyed(front).lemma_filter_push(last.entry, same_name);
        assert(list[list.len() - 1].key == full_lower(list[list.len() - 1].entry.name));
        assert(unkeyed(list.filter(with)) =~= unkeyed(list).filter(same_name));
    }
}

/// The list shows, in their order, exactly the apps that are searched for by a
/// part of their name or ID, in any case, and that are on one of the two lists of
/// the settings if only those are wanted.
pub proof fn what_the_list_shows(
    entries: Seq<EntryView>,
    entry: EntryView,
    config: ConfigView,
    query: Seq<char>,
    only_selected: bool,
)
    ensures
        filtered(Seq::empty(), config, query, only_selected).len() == 0,
        filtered(entries.push(entry), config, query, only_selected) == if shown(
            entry,
            config,
            query,
            only_selected,
        ) {
            filtered(entries, config, query, only_selected).push(entry)
        } else {
            filtered(entries, config, query, only_selected)
        },
        found_by(query, entry.name, entry.bundle_id) <==> query.len() == 0 || occurs_in(
            query,
            entry.name,
        ) || occurs_in(query, entry.bundle_id),
        shown(entry, config, query, only_selected) <==> (!only_selected || names(
            config.apps,
            entry.bundle_id,
        ) || names(config.keep_alive_apps, entry.bundle_id)) && (full_lower(query).len() == 0
            || occurs_in(full_lower(query), full_lower(entry.name)) || occurs_in(
            full_lower(query),
            full_lower(entry.bundle_id),
        )),
        selected(config, entry.bundle_id) <==> names(config.apps, entry.bundle_id) || names(
            config.keep_alive_apps,
            entry.bundle_id,
        ),
{
    reveal(Seq::filter);
    entries.lemma_filter_push(
        entry,
        |entry: EntryView| shown(entry, config, query, only_selected),
    );
}

/// Typing more, before or after what was typed, finds nothing that was not found
/// before.
pub proof fn typing_more_finds_no_more(
    left: Seq<char>,
    query: Seq<char>,
    right: Seq<char>,
    name: Seq<char>,
    bundle_id: Seq<char>,
)
    requires
        found_by(left + query + right, name, bundle_id),
    ensures
        found_by(query, name, bundle_id),
{
    if query.len() > 0 {
        if occurs_in(left + query + right, name) {
            part_of_what_occurs(left, query, right, name);
        }
        if occurs_in(left + query + right, bundle_id) {
            part_of_what_occurs(left, query, right, bundle_id);
        }
    }
}

proof fn part_of_what_occurs(left: Seq<char>, query: Seq<char>, right: Seq<char>, s: Seq<char>)
    requires
        occurs_in(left + query + right, s),
    ensures
        occurs_in(query, s),
{
    let whole = left + query + right;
    let i = choose|i: int|
        0 <= i <= s.len() - whole.len() && #[trigger] s.subrange(i, i + whole.len()) == whole;
    let at = i + left.len();
    assert forall|k: int| 0 <= k < query.len() implies s[at + k] == query[k] by {
        assert(s.subrange(i, i + whole.len())[left.len() + k] == whole[left.len() + k]);
    }
    assert(s.subrange(at, at + query.len()) =~= query);
}

/// What is offered of an app bundle: nothing without an ID or if it is protected,
/// and else the app under its ID and its name without the ending, with its path
/// for the icon.
pub proof fn what_a_bundle_is_offered_as(
    path: Seq<char>,
    resolved: Option<Seq<char>>,
    bundle_id: Option<Seq<char>>,
    name: Seq<char>,
)
    ensures
        ({
            let entry = entry_at(path, resolved, bundle_id, name + ".app"@);
            &&& entry is Some <==> bundle_id is Some && !protected_bundle_id(bundle_id->0) && !below(
                path,
                "/System/Library"@,
            ) && !(resolved is Some && below(resolved->0, "/System/Library"@))
            &&& entry is Some ==> entry->0.bundle_id == bundle_id->0 && entry->0.name == name
                && entry->0.icon_path == Some(path)
        }),
        !".app"@.is_suffix_of(name) && entry_at(path, resolved, bundle_id, name) is Some
            ==> entry_at(path, resolved, bundle_id, name)->0.name == name,
        entry_at(path, resolved, bundle_id, name) is Some <==> entry_at(
            path,
            resolved,
            bundle_id,
            name + ".app"@,
        ) is Some,
        without_app_suffix(name + ".app"@) == name,
        !".app"@.is_suffix_of(name) ==> without_app_suffix(name) == name,
{
    let whole = name + ".app"@;
    assert(whole.subrange(whole.len() - ".app"@.len(), whole.len() as int) =~= ".app"@);
    assert(whole.take(name.len() as int) =~= name);
}

/// The apps that are known to run are exactly those that were listed with an ID,
/// each process as it was listed last.
pub proof fn the_last_listing_counts(apps: Seq<ListedApp>, known: KnownView)
    ensures
        snapshot_of(apps).contains(known) <==> exists|j: int|
            {
                &&& 0 <= j < apps.len()
                &&& (#[trigger] apps[j]).bundle_id is Some
                &&& known.pid == apps[j].pid
                &&& known.bundle_id == apps[j].bundle_id->0@
                &&& known.name == match apps[j].name {
                    Some(name) => name@,
                    None => apps[j].bundle_id->0@,
                }
                &&& known.menu_bar == !apps[j].regular
                &&& forall|i: int|
                    j < i < apps.len() && (#[trigger] apps[i]).bundle_id is Some ==> apps[i].pid
                        != apps[j].pid
            },
{
    known_by_listing(apps, known);
    if snapshot_of(apps).contains(known) {
        let j = choose|j: int| listed_last(apps, j) && remembered(apps[j]) == known;
        assert(apps[j].bundle_id is Some);
    }
    if exists|j: int|
        {
            &&& 0 <= j < apps.len()
            &&& (#[trigger] apps[j]).bundle_id is Some
            &&& known.pid == apps[j].pid
            &&& known.bundle_id == apps[j].bundle_id->0@
            &&& known.name == match apps[j].name {
                Some(name) => name@,
                None => apps[j].bundle_id->0@,
            }
            &&& known.menu_bar == !apps[j].regular
            &&& forall|i: int|
                j < i < apps.len() && (#[trigger] apps[i]).bundle_id is Some ==> apps[i].pid
                    != apps[j].pid
        } {
        let j = choose|j: int|
            {
                &&& 0 <= j < apps.len()
                &&& (#[trigger] apps[j]).bundle_id is Some
                &&& known.pid == apps[j].pid
                &&& known.bundle_id == apps[j].bundle_id->0@
                &&& known.name == match apps[j].name {
                    Some(name) => name@,
                    None => apps[j].bundle_id->0@,
                }
                &&& known.menu_bar == !apps[j].regular
                &&& forall|i: int|
                    j < i < apps.len() && (#[trigger] apps[i]).bundle_id is Some ==> apps[i].pid
                        != apps[j].pid
            };
        assert(remembered(apps[j]) == known);
        assert(listed_last(apps, j));
    }
}

spec fn listed_last(apps: Seq<ListedApp>, j: int) -> bool {
    &&& 0 <= j < apps.len()
    &&& apps[j].bundle_id is Some
    &&& forall|i: int|
        j < i < apps.len() && (#[trigger] apps[i]).bundle_id is Some ==> apps[i].pid != apps[j].pid
}

proof fn known_by_listing(apps: Seq<ListedApp>, known: KnownView)
    ensures
        snapshot_of(apps).contains(known) <==> exists|j: int|
            #[trigger] listed_last(apps, j) && remembered(apps[j]) == known,
    decreases apps.len(),
{
    if apps.len() > 0 {
        let front = apps.drop_last();
        let last = apps.last();
        let n = apps.len() - 1;
        known_by_listing(front, known);
        let earlier = snapshot_of(front);
        let whole = snapshot_of(apps);
        assert forall|j: int| 0 <= j < n implies listed_last(apps, j) == (listed_last(front, j) && (
        last.bundle_id is None || last.pid != apps[j].pid)) by {
            if listed_last(apps, j) {
                assert(apps[n] == last);
                assert forall|i: int|
                    j < i < front.len() && (#[trigger] front[i]).bundle_id is Some implies front[i].pid
                    != front[j].pid by {
                    assert(apps[i] == front[i]);
                }
            }
            if listed_last(front, j) && (last.bundle_id is None || last.pid != apps[j].pid) {
                assert forall|i: int|
                    j < i < apps.len() && (#[trigger] apps[i]).bundle_id is Some implies apps[i].pid
                    != apps[j].pid by {
                    if i < n {
                        assert(front[i] == apps[i]);
                    }
                }
            }
        }
        if last.bundle_id is None {
            if whole.contains(known) {
                let j = choose|j: int| #[trigger]
                    listed_last(front, j) && remembered(front[j]) == known;
                assert(listed_last(apps, j) && remembered(apps[j]) == known);
            }
            if exists|j: int| #[trigger] listed_last(apps, j) && remembered(apps[j]) == known {
                let j = choose|j: int| #[trigger]
                    listed_last(apps, j) && remembered(apps[j]) == known;
                assert(listed_last(front, j) && remembered(front[j]) == known);
            }
        } else {
            let others = |app: KnownView| app.pid != last.pid;
            let rest = without_pid(earlier, last.pid);
            assert(rest == earlier.filter(others));
            if whole.contains(known) {
                let k = choose|k: int| 0 <= k < whole.len() && whole[k] == known;
                if k < rest.len() {
                    assert(rest[k] == known);
                    earlier.lemma_filter_pred(others, k);
                    earlier.lemma_filter_contains_rev(others, known);
                    let j = choose|j: int| #[trigger]
                        listed_last(front, j) && remembered(front[j]) == known;
                    assert(listed_last(apps, j) && remembered(apps[j]) == known);
                } else {
                    assert(listed_last(apps, n) && remembered(apps[n]) == known);
                }
            }
            if exists|j: int| #[trigger] listed_last(apps, j) && remembered(apps[j]) == known {
                let j = choose|j: int| #[trigger]
                    listed_last(apps, j) && remembered(apps[j]) == known;
                if j < n {
                    assert(listed_last(front, j) && remembered(front[j]) == known);
                    assert(earlier.contains(known));
                    let k = choose|k: int| 0 <= k < earlier.len() && earlier[k] == known;
                    assert(others(earlier[k]));
                    earlier.lemma_filter_contains(others, k);
                    let l = choose|l: int| 0 <= l < rest.len() && rest[l] == known;
                    assert(whole[l] == known);
                } else {
                    assert(whole[rest.len() as int] == known);
                }
            }
        }
    }
}

/// Of two listings, an app is reported as missing from the other exactly if its
/// process is, with what its own listing says of it.
pub proof fn missing_apps_are_reported_as_listed(
    apps: Seq<KnownView>,
    other: Seq<KnownView>,
    app: KnownView,
)
    ensures
        missing_from(apps, other).contains(app) <==> apps.contains(app) && forall|i: int|
            0 <= i < other.len() ==> (#[trigger] other[i]).pid != app.pid,
        missing_from(apps.push(app), other) == if holds(other, app.pid) {
            missing_from(apps, other)
        } else {
            missing_from(apps, other).push(app)
        },
        missing_from(Seq::empty(), other).len() == 0,
{
    reveal(Seq::filter);
    let missing = |a: KnownView| !holds(other, a.pid);
    let left = apps.filter(missing);
    apps.lemma_filter_push(app, missing);
    assert(holds(other, app.pid) <==> !(forall|i: int|
        0 <= i < other.len() ==> (#[trigger] other[i]).pid != app.pid));
    if left.contains(app) {
        let k = choose|k: int| 0 <= k < left.len() && left[k] == app;
        apps.lemma_filter_pred(missing, k);
        apps.lemma_filter_contains_rev(missing, app);
    }
    if apps.contains(app) && !holds(other, app.pid) {
        let k = choose|k: int| 0 <= k < apps.len() && apps[k] == app;
        apps.lemma_filter_contains(missing, k);
    }
}

/// A process that exits on its own, whatever its exit code, ended cleanly; one
/// that a signal ends, whichever it is and whether or not it left a core, crashed.
pub proof fn signals_are_crashes(code: i32, signal: i32)
    requires
        0 <= code <= 255,
        0 < signal < 127,
    ensures
        kind_of((code * 256) as i32) == ExitKind::Clean,
        kind_of(signal) == ExitKind::Crashed,
        kind_of((signal + 128) as i32) == ExitKind::Crashed,
        kind_of((code * 256 + 127) as i32) == ExitKind::Clean,
{
}

/// The plain form of a name drops what is neither an ASCII letter nor a digit and
/// the case of the letters, character by character.
pub proof fn plain_names_ignore_case_and_marks(name: Seq<char>, c: char)
    ensures
        plain_name(Seq::empty()).len() == 0,
        'a' <= c <= 'z' || '0' <= c <= '9' ==> plain_name(name.push(c)) == plain_name(name).push(c),
        'A' <= c <= 'Z' ==> plain_name(name.push(c)) == plain_name(name).push(
            ((c as u32) + 32) as char,
        ),
        !('a' <= c <= 'z' || 'A' <= c <= 'Z' || '0' <= c <= '9') ==> plain_name(name.push(c))
            == plain_name(name),
{
    reveal(Seq::filter);
    let keep = |c: char| alphanumeric(c);
    name.lemma_filter_push(c, keep);
    if keep(c) {
        assert(lower(name.filter(keep).push(c)) =~= lower(name.filter(keep)).push(
            crate::text::lower_char(c),
        ));
    }
}

/// Which apps stand for another one: those in the background whose bundle lies
/// outside the other's, and whose ID continues the other's behind a dot, in any
/// case, or a part of whose path begins with the other's name, if that is long
/// enough to tell.
pub proof fn which_apps_are_helpers(
    app: RunningView,
    target_id: Seq<char>,
    target_path: Seq<char>,
    rest: Seq<char>,
)
    ensures
        ({
            let apart = !app.regular && app.path is Some && !below(app.path->0, target_path);
            let named = suite_name(target_path) is Some && path_carries_name(
                app.path->0,
                suite_name(target_path)->0,
            );
            &&& !apart ==> !helper_of(app, target_id, target_path)
            &&& apart && named ==> helper_of(app, target_id, target_path)
            &&& apart && app.bundle_id is Some && same_text(
                app.bundle_id->0,
                target_id.push('.') + rest,
            ) ==> helper_of(app, target_id, target_path)
            &&& apart && !named && (app.bundle_id is None || app.bundle_id->0.len()
                <= target_id.len()) ==> !helper_of(app, target_id, target_path)
            &&& helper_of(app, target_id, target_path) && !named ==> app.bundle_id is Some
                && same_text(app.bundle_id->0.take(target_id.len() as int), target_id)
                && app.bundle_id->0[target_id.len() as int] == '.'
        }),
        suite_name(target_path) is Some ==> suite_name(target_path)->0.len() >= 6,
{
    let prefix = lower(target_id).push('.');
    if app.bundle_id is Some {
        let id = app.bundle_id->0;
        if same_text(id, target_id.push('.') + rest) {
            let whole = target_id.push('.') + rest;
            assert(lower(id).len() == lower(whole).len());
            assert forall|i: int| 0 <= i < prefix.len() implies lower(id)[i] == prefix[i] by {
                assert(lower(id)[i] == lower(whole)[i]);
                if i < target_id.len() {
                    assert(whole[i] == target_id[i]);
                } else {
                    assert(whole[i] == '.');
                }
            }
            assert(lower(id).subrange(0, prefix.len() as int) =~= prefix);
        }
        if prefix.is_prefix_of(lower(id)) {
            assert(lower(id).subrange(0, prefix.len() as int) == prefix);
            assert(lower(id)[target_id.len() as int] == prefix[target_id.len() as int]);
            assert forall|i: int| 0 <= i < target_id.len() implies lower(
                id.take(target_id.len() as int),
            )[i] == lower(target_id)[i] by {
                assert(lower(id)[i] == prefix[i]);
            }
            assert(lower(id.take(target_id.len() as int)) =~= lower(target_id));
        }
    }
}

/// A suite runs exactly if one of the running apps is a helper of it.
pub proof fn one_helper_is_enough(
    apps: Seq<RunningView>,
    app: RunningView,
    target_id: Seq<char>,
    target_path: Seq<char>,
)
    ensures
        !suite_running(Seq::empty(), target_id, target_path),
        suite_running(apps.push(app), target_id, target_path) <==> suite_running(
            apps,
            target_id,
            target_path,
        ) || helper_of(app, target_id, target_path),
{
    let longer = apps.push(app);
    assert(longer[apps.len() as int] == app);
    if suite_running(apps, target_id, target_path) {
        let i = choose|i: int|
            0 <= i < apps.len() && helper_of(#[trigger] apps[i], target_id, target_path);
        assert(longer[i] == apps[i]);
    }
    if suite_running(longer, target_id, target_path) {
        let i = choose|i: int|
            0 <= i < longer.len() && helper_of(#[trigger] longer[i], target_id, target_path);
        if i < apps.len() {
            assert(apps[i] == longer[i]);
        }
    }
}

/// An app is told by its name, without marks and case and without the ending of its
/// bundle, if six characters or more are left of it; and a path carries a name if
/// one of its parts, without marks and case, begins with it.
pub proof fn names_tell_long_enough_apps(
    base: Seq<char>,
    stem: Seq<char>,
    part: Seq<char>,
    name: Seq<char>,
)
    requires
        base.len() > 0,
        stem.len() > 0,
        !stem.contains('/'),
        part.len() > 0,
        !part.contains('/'),
        part != seq!['.'],
    ensures
        plain_name(stem).len() >= 6 ==> suite_name(joined(base, stem + ".app"@)) == Some(
            plain_name(stem),
        ),
        plain_name(stem).len() < 6 ==> suite_name(joined(base, stem + ".app"@)) is None,
        path_carries_name(joined(base, part), name) <==> path_carries_name(base, name)
            || name.is_prefix_of(plain_name(part)),
{
    reveal_strlit(".app");
    reveal_strlit("app");
    let whole = stem + ".app"@;
    assert(whole =~= stem.push('.') + "app"@);
    assert(!"app"@.contains('.'));
    crate::laws::path::a_name_is_its_stem_and_extension(stem, "app"@);
    assert(!whole.contains('/')) by {
        if whole.contains('/') {
            let i = choose|i: int| 0 <= i < whole.len() && whole[i] == '/';
            if i < stem.len() {
                assert(stem[i] == '/');
            }
        }
    }
    crate::laws::path::a_joined_name_is_the_file_name(base, whole);
    crate::laws::path::each_name_is_a_component(base, part);
    let (shorter, longer) = (components(base), components(joined(base, part)));
    assert(longer[shorter.len() as int] == part);
    if path_carries_name(base, name) {
        let i = choose|i: int|
            0 <= i < shorter.len() && name.is_prefix_of(plain_name(#[trigger] shorter[i]));
        assert(longer[i] == shorter[i]);
    }
    if path_carries_name(joined(base, part), name) {
        let i = choose|i: int|
            0 <= i < longer.len() && name.is_prefix_of(plain_name(#[trigger] longer[i]));
        if i < shorter.len() {
            assert(shorter[i] == longer[i]);
        }
    }
}

} // verus!
