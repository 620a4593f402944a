//! The list of recently ended apps: laws on what stays in it and for how long.
use vstd::prelude::*;

use crate::engine::recent::{
    age_text, bounded_and_distinct, no_recents, pushed, pushed_all, pushed_entries, quit_moment,
    whole_secs, RecentQuit, RecentReason, RecentsView,
};
use crate::text::{decimal, same_text};

verus! {

spec fn other_apps(entry: RecentQuit) -> spec_fn(RecentQuit) -> bool {
    |e: RecentQuit| !same_text(e.bundle_id@, entry.bundle_id@)
}

proof fn filter_keeps_all(entries: Seq<RecentQuit>, keep: spec_fn(RecentQuit) -> bool)
    requires
        forall|i: int| 0 <= i < entries.len() ==> keep(#[trigger] entries[i]),
    ensures
        entries.filter(keep) == entries,
    decreases entries.len(),
{
    reveal(Seq::filter);
    if entries.len() > 0 {
        let front = entries.drop_last();
        assert forall|i: int| 0 <= i < front.len() implies keep(#[trigger] front[i]) by {
            assert(front[i] == entries[i]);
        }
        filter_keeps_all(front, keep);
        assert(keep(entries[entries.len() - 1]));
        assert(entries =~= front.push(entries.last()));
    } else {
        assert(entries =~= Seq::empty());
    }
}

proof fn filter_drops_one(entries: Seq<RecentQuit>, keep: spec_fn(RecentQuit) -> bool, at: int)
    requires
        0 <= at < entries.len(),
        !keep(entries[at]),
        forall|i: int| 0 <= i < entries.len() && i != at ==> keep(#[trigger] entries[i]),
    ensures
        entries.filter(keep) == entries.remove(at),
{
    reveal(Seq::filter);
    let (left, right) = (entries.take(at), entries.skip(at + 1));
    assert(entries =~= left.push(entries[at]) + right);
    Seq::filter_distributes_over_add(left.push(entries[at]), right, keep);
    left.lemma_filter_push(entries[at], keep);
    assert forall|i: int| 0 <= i < left.len() implies keep(#[trigger] left[i]) by {
        assert(left[i] == entries[i]);
    }
    assert forall|i: int| 0 <= i < right.len() implies keep(#[trigger] right[i]) by {
        assert(right[i] == entries[i + at + 1]);
    }
    filter_keeps_all(left, keep);
    filter_keeps_all(right, keep);
    assert(entries.remove(at) =~= left + right);
}

/// What adding an entry does to the list, whatever its reason: it comes first, and
/// the others keep their order. If the app had an entry, exactly that one goes. If
/// it had none, nothing goes as long as there are fewer than eight, and else
/// exactly the oldest.
pub proof fn adding_an_entry_keeps_the_others(recents: RecentsView, entry: RecentQuit, at: int)
    requires
        bounded_and_distinct(recents.entries),
    ensures
        ({
            let (before, after) = (recents.entries, pushed(recents, entry).entries);
            let known = exists|i: int|
                0 <= i < before.len() && same_text(
                    (#[trigger] before[i]).bundle_id@,
                    entry.bundle_id@,
                );
            &&& after[0] == entry
            &&& 0 <= at < before.len() && same_text(before[at].bundle_id@, entry.bundle_id@)
                ==> after.skip(1) == before.remove(at)
            &&& !known && before.len() < 8 ==> after.skip(1) == before
            &&& !known && before.len() == 8 ==> after.skip(1) == before.drop_last()
            &&& before.len() <= 8
        }),
{
    let (before, after) = (recents.entries, pushed(recents, entry).entries);
    let keep = other_apps(entry);
    assert(pushed_entries(before, entry) == after);
    if 0 <= at < before.len() && same_text(before[at].bundle_id@, entry.bundle_id@) {
        assert forall|i: int| 0 <= i < before.len() && i != at implies keep(
            #[trigger] before[i],
        ) by {
            if i < at {
                assert(!same_text(before[i].bundle_id@, before[at].bundle_id@));
            } else {
                assert(!same_text(before[at].bundle_id@, before[i].bundle_id@));
            }
        }
        filter_drops_one(before, keep, at);
        assert(after =~= seq![entry] + before.remove(at));
        assert(after.skip(1) =~= before.remove(at));
    }
    if forall|i: int|
        0 <= i < before.len() ==> !same_text((#[trigger] before[i]).bundle_id@, entry.bundle_id@) {
        assert forall|i: int| 0 <= i < before.len() implies keep(#[trigger] before[i]) by {}
        filter_keeps_all(before, keep);
        if before.len() < 8 {
            assert(after.skip(1) =~= before);
        } else {
            assert(after.skip(1) =~= before.drop_last());
        }
    }
}

/// Whether the entry that was added at a position is the latest of its app.
pub open spec fn latest_of_its_app(pushes: Seq<RecentQuit>, at: int) -> bool {
    &&& 0 <= at < pushes.len()
    &&& forall|j: int|
        at < j < pushes.len() ==> !same_text(
            (#[trigger] pushes[j]).bundle_id@,
            pushes[at].bundle_id@,
        )
}

/// The list holds the entries that were added at these positions, the latest
/// first: each is the latest of its app, and of every app whose latest entry is
/// missing, that entry is older than eight that are there.
pub open spec fn holds_the_latest(
    entries: Seq<RecentQuit>,
    pushes: Seq<RecentQuit>,
    positions: Seq<int>,
) -> bool {
    &&& positions.len() == entries.len()
    &&& positions.len() <= 8
    &&& forall|k: int|
        0 <= k < positions.len() ==> latest_of_its_app(pushes, #[trigger] positions[k])
    &&& forall|k: int| 0 <= k < entries.len() ==> #[trigger] entries[k] == pushes[positions[k]]
    &&& forall|k: int, l: int|
        0 <= k < l < positions.len() ==> #[trigger] positions[k] > #[trigger] positions[l]
    &&& forall|i: int| #[trigger]
        latest_of_its_app(pushes, i) && !positions.contains(i) ==> positions.len() == 8 && i
            < positions[7]
}

spec fn entries_at(pushes: Seq<RecentQuit>, positions: Seq<int>) -> Seq<RecentQuit> {
    Seq::new(positions.len(), |k: int| pushes[positions[k]])
}

spec fn at_other_apps(pushes: Seq<RecentQuit>, entry: RecentQuit) -> spec_fn(int) -> bool {
    |i: int| !same_text(pushes[i].bundle_id@, entry.bundle_id@)
}

proof fn filter_of_entries_at(pushes: Seq<RecentQuit>, positions: Seq<int>, entry: RecentQuit)
    ensures
        entries_at(pushes, positions).filter(other_apps(entry)) == entries_at(
            pushes,
            positions.filter(at_other_apps(pushes, entry)),
        ),
    decreases positions.len(),
{
    reveal(Seq::filter);
    let keep = other_apps(entry);
    let keep_at = at_other_apps(pushes, entry);
    if positions.len() == 0 {
        assert(entries_at(pushes, positions).filter(keep) =~= entries_at(
            pushes,
            positions.filter(keep_at),
        ));
    } else {
        let front = positions.drop_last();
        let last = positions.last();
        filter_of_entries_at(pushes, front, entry);
        assert(positions =~= front.push(last));
        assert(entries_at(pushes, positions) =~= entries_at(pushes, front).push(pushes[last]));
        front.lemma_filter_push(last, keep_at);
        entries_at(pushes, front).lemma_filter_push(pushes[last], keep);
        assert(entries_at(pushes, positions).filter(keep) =~= entries_at(
            pushes,
            positions.filter(keep_at),
        ));
    }
}

proof fn filter_keeps_descent(positions: Seq<int>, keep: spec_fn(int) -> bool)
    requires
        forall|k: int, l: int|
            0 <= k < l < positions.len() ==> #[trigger] positions[k] > #[trigger] positions[l],
    ensures
        forall|k: int, l: int|
            0 <= k < l < positions.filter(keep).len() ==> #[trigger] positions.filter(keep)[k]
                > #[trigger] positions.filter(keep)[l],
        forall|k: int|
            0 <= k < positions.filter(keep).len() ==> positions.contains(
                #[trigger] positions.filter(keep)[k],
            ),
        positions.filter(keep).len() > 0 ==> positions.filter(keep).last() >= positions.last(),
        positions.filter(keep).len() <= positions.len(),
    decreases positions.len(),
{
    reveal(Seq::filter);
    if positions.len() > 0 {
        let front = positions.drop_last();
        assert forall|k: int, l: int| 0 <= k < l < front.len() implies #[trigger] front[k]
            > #[trigger] front[l] by {
            assert(front[k] == positions[k] && front[l] == positions[l]);
        }
        filter_keeps_descent(front, keep);
        assert(positions =~= front.push(positions.last()));
        front.lemma_filter_push(positions.last(), keep);
        let kept = front.filter(keep);
        let all = positions.filter(keep);
        assert forall|k: int| 0 <= k < all.len() implies positions.contains(#[trigger] all[k]) by {
            if k < kept.len() {
                assert(front.contains(kept[k]));
                let i = choose|i: int| 0 <= i < front.len() && front[i] == kept[k];
                assert(positions[i] == all[k]);
            } else {
                assert(positions[positions.len() - 1] == all[k]);
            }
        }
        assert forall|k: int, l: int| 0 <= k < l < all.len() implies #[trigger] all[k]
            > #[trigger] all[l] by {
            if l == kept.len() {
                assert(front.contains(kept[k]));
                let i = choose|i: int| 0 <= i < front.len() && front[i] == kept[k];
                assert(positions[i] > positions[positions.len() - 1]);
            }
        }
        if all.len() > 0 && all.len() == kept.len() {
            assert(front.len() > 0);
            assert(front.last() == positions[positions.len() - 2]);
            assert(positions[positions.len() - 2] > positions[positions.len() - 1]);
        }
    }
}

proof fn a_push_keeps_the_latest(
    entries: Seq<RecentQuit>,
    pushes: Seq<RecentQuit>,
    positions: Seq<int>,
    entry: RecentQuit,
) -> (r: Seq<int>)
    requires
        holds_the_latest(entries, pushes, positions),
    ensures
        holds_the_latest(pushed_entries(entries, entry), pushes.push(entry), r),
{
    let keep_at = at_other_apps(pushes, entry);
    let all = pushes.push(entry);
    let n = pushes.len() as int;
    let kept = positions.filter(keep_at);
    filter_of_entries_at(pushes, positions, entry);
    filter_keeps_descent(positions, keep_at);
    assert(entries =~= entries_at(pushes, positions));
    let others = entries.filter(other_apps(entry));
    assert(others == entries_at(pushes, kept));
    let whole = seq![n] + kept;
    let r = if whole.len() > 8 {
        whole.take(8)
    } else {
        whole
    };
    let after = pushed_entries(entries, entry);
    assert(after.len() == r.len());
    assert(latest_of_its_app(all, n));
    assert forall|k: int| 0 <= k < kept.len() implies latest_of_its_app(
        all,
        #[trigger] kept[k],
    ) && kept[k] < n by {
        assert(positions.contains(kept[k]));
        let i = choose|i: int| 0 <= i < positions.len() && positions[i] == kept[k];
        assert(latest_of_its_app(pushes, positions[i]));
        positions.lemma_filter_pred(keep_at, k);
        assert(keep_at(kept[k]));
        assert forall|j: int| kept[k] < j < all.len() implies !same_text(
            (#[trigger] all[j]).bundle_id@,
            all[kept[k]].bundle_id@,
        ) by {
            if j < n {
                assert(all[j] == pushes[j]);
            }
        }
    }
    assert forall|k: int| 0 <= k < r.len() implies latest_of_its_app(all, #[trigger] r[k]) by {
        if k > 0 {
            assert(r[k] == kept[k - 1]);
        }
    }
    assert forall|k: int| 0 <= k < after.len() implies #[trigger] after[k] == all[r[k]] by {
        if k > 0 {
            assert(after[k] == others[k - 1]);
            assert(r[k] == kept[k - 1]);
            assert(latest_of_its_app(all, kept[k - 1]));
        }
    }
    assert forall|k: int, l: int| 0 <= k < l < r.len() implies #[trigger] r[k]
        > #[trigger] r[l] by {
        assert(r[l] == kept[l - 1]);
        if k > 0 {
            assert(r[k] == kept[k - 1]);
        }
    }
    assert forall|i: int| #[trigger]
        latest_of_its_app(all, i) && !r.contains(i) implies r.len() == 8 && i < r[7] by {
        assert(r[0] == n);
        assert(i < n);
        assert(!same_text(all[n].bundle_id@, all[i].bundle_id@));
        assert(keep_at(i));
        assert(latest_of_its_app(pushes, i)) by {
            assert forall|j: int| i < j < pushes.len() implies !same_text(
                (#[trigger] pushes[j]).bundle_id@,
                pushes[i].bundle_id@,
            ) by {
                assert(all[j] == pushes[j]);
            }
        }
        if positions.contains(i) {
            let p = choose|p: int| 0 <= p < positions.len() && positions[p] == i;
            positions.lemma_filter_contains(keep_at, p);
            let q = choose|q: int| 0 <= q < kept.len() && kept[q] == i;
            if q + 1 < r.len() {
                assert(r[q + 1] == i);
            }
            assert(q + 1 >= 8);
            assert(kept[6] > kept[q]);
            assert(r[7] == kept[6]);
        } else {
            assert(positions.len() == 8 && i < positions[7]);
            at_most_one_goes(pushes, positions, entry);
            assert(kept.len() >= 7);
            assert(r[7] == kept[6]);
            if kept.len() > 7 {
                assert(kept[6] > kept[7]);
                assert(kept.last() == kept[7]);
            } else {
                assert(kept.last() == kept[6]);
            }
        }
    }
    r
}

proof fn at_most_one_goes(pushes: Seq<RecentQuit>, positions: Seq<int>, entry: RecentQuit)
    requires
        forall|k: int|
            0 <= k < positions.len() ==> latest_of_its_app(pushes, #[trigger] positions[k]),
        forall|k: int, l: int|
            0 <= k < l < positions.len() ==> #[trigger] positions[k] > #[trigger] positions[l],
    ensures
        positions.filter(at_other_apps(pushes, entry)).len() >= positions.len() - 1,
{
    let keep = at_other_apps(pushes, entry);
    if exists|at: int| 0 <= at < positions.len() && !keep(#[trigger] positions[at]) {
        let at = choose|at: int| 0 <= at < positions.len() && !keep(#[trigger] positions[at]);
        let (left, right) = (positions.take(at), positions.skip(at + 1));
        assert forall|i: int| 0 <= i < left.len() implies keep(#[trigger] left[i]) by {
            assert(left[i] == positions[i]);
            assert(positions[i] > positions[at]);
            assert(latest_of_its_app(pushes, positions[at]));
            assert(latest_of_its_app(pushes, positions[i]));
            assert(!same_text(
                pushes[positions[i]].bundle_id@,
                pushes[positions[at]].bundle_id@,
            ));
        }
        assert forall|i: int| 0 <= i < right.len() implies keep(#[trigger] right[i]) by {
            assert(right[i] == positions[i + at + 1]);
            assert(positions[at] > positions[i + at + 1]);
            assert(latest_of_its_app(pushes, positions[i + at + 1]));
            assert(latest_of_its_app(pushes, positions[at]));
            assert(!same_text(
                pushes[positions[at]].bundle_id@,
                pushes[positions[i + at + 1]].bundle_id@,
            ));
        }
        positions_all_kept(left, keep);
        positions_all_kept(right, keep);
        assert(positions =~= left.push(positions[at]) + right);
        Seq::filter_distributes_over_add(left.push(positions[at]), right, keep);
        left.lemma_filter_push(positions[at], keep);
    } else {
        assert forall|i: int| 0 <= i < positions.len() implies keep(#[trigger] positions[i]) by {}
        positions_all_kept(positions, keep);
    }
}

proof fn positions_all_kept(positions: Seq<int>, keep: spec_fn(int) -> bool)
    requires
        forall|i: int| 0 <= i < positions.len() ==> keep(#[trigger] positions[i]),
    ensures
        positions.filter(keep).len() == positions.len(),
    decreases positions.len(),
{
    reveal(Seq::filter);
    if positions.len() > 0 {
        let front = positions.drop_last();
        assert forall|i: int| 0 <= i < front.len() implies keep(#[trigger] front[i]) by {
            assert(front[i] == positions[i]);
        }
        positions_all_kept(front, keep);
        assert(keep(positions[positions.len() - 1]));
    }
}

/// After any number of entries were added, the list holds the latest entry of each
/// of the eight apps that were added last, or of all apps if there are fewer, the
/// latest first.
pub proof fn the_list_holds_the_latest_apps(pushes: Seq<RecentQuit>) -> (positions: Seq<int>)
    ensures
        holds_the_latest(pushed_all(pushes).entries, pushes, positions),
    decreases pushes.len(),
{
    if pushes.len() == 0 {
        Seq::empty()
    } else {
        let front = pushes.drop_last();
        let before = the_list_holds_the_latest_apps(front);
        let after = a_push_keeps_the_latest(
            pushed_all(front).entries,
            front,
            before,
            pushes.last(),
        );
        assert(front.push(pushes.last()) =~= pushes);
        after
    }
}

/// When RustQuit quit an app is known of each app on its own: a quit is noted with
/// its moment, nothing else changes what is known, and at first nothing is.
pub proof fn a_quit_is_noted_for_its_app(
    recents: RecentsView,
    entry: RecentQuit,
    bundle_id: Seq<char>,
)
    ensures
        quit_moment(pushed(recents, entry), bundle_id) == if entry.reason == RecentReason::AutoQuit
            && same_text(entry.bundle_id@, bundle_id) {
            Some(entry.when)
        } else {
            quit_moment(recents, bundle_id)
        },
        quit_moment(no_recents(), bundle_id) is None,
        no_recents().entries.len() == 0,
{
}

/// An age is told in whole minutes from one minute on and in whole hours from one
/// hour on, rounded down; below a minute it is "just now".
pub proof fn ages_are_rounded_down(secs: nat, count: nat)
    ensures
        secs < 60 ==> age_text(secs) == "just now"@,
        1 <= count < 60 && 60 * count <= secs < 60 * count + 60 ==> age_text(secs) == decimal(count)
            + "m ago"@,
        1 <= count && 3600 * count <= secs < 3600 * count + 3600 ==> age_text(secs) == decimal(
            count,
        ) + "h ago"@,
{
}

/// An age in nanoseconds counts the seconds that are full.
pub proof fn only_full_seconds_count(nanos: u128)
    ensures
        whole_secs(nanos) * 1_000_000_000 <= nanos < (whole_secs(nanos) + 1) * 1_000_000_000,
{
}

} // verus!
