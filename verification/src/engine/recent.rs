//! Ring buffer of recently terminated apps, shown in the tray menu with
//! reopen and temporary Keep-suppression actions.
use std::collections::VecDeque;
use std::time::Instant;
use vstd::prelude::*;

use crate::clock::{elapsed_nanos, present_moment, told_now, told_since};
use crate::name_map::NameMap;
use crate::text::{
    append_text, decimal, decimal_of, lower, same_ignoring_case, same_text, to_lower,
};

verus! {

/// The most entries that are remembered.
pub const MAX_ENTRIES: usize = 8;

/// Why an app is in the list.
#[derive(Clone, Copy, Debug, PartialEq, Eq, Structural)]
pub enum RecentReason {
    /// RustQuit asked the app to quit.
    AutoQuit,
    /// An app on the keep-alive list terminated.
    KeepTermination,
}

/// One terminated app.
#[derive(Debug)]
pub struct RecentQuit {
    pub bundle_id: String,
    pub name: String,
    pub when: Instant,
    pub reason: RecentReason,
}

impl Clone for RecentQuit {
    fn clone(&self) -> (r: RecentQuit)
        ensures
            r == *self,
    {
        RecentQuit {
            bundle_id: self.bundle_id.clone(),
            name: self.name.clone(),
            when: self.when,
            reason: self.reason,
        }
    }
}

/// The recently terminated apps, newest first, and when RustQuit quit apps.
#[derive(Debug)]
pub struct RecentQuits {
    entries: VecDeque<RecentQuit>,
    /// When RustQuit last quit an app, per lower-case bundle ID. The list cannot
    /// tell that: it is cut, and an entry for a kept app's termination takes the
    /// place of the one for the quit.
    auto_quits: NameMap<Instant>,
}

/// The contents of the recently terminated apps.
#[verifier::ext_equal]
pub ghost struct RecentsView {
    /// The list, newest first.
    pub entries: Seq<RecentQuit>,
    /// When RustQuit last quit an app, by its lower-case bundle ID.
    pub auto_quits: Map<Seq<char>, Instant>,
}

impl View for RecentQuits {
    type V = RecentsView;

    closed spec fn view(&self) -> RecentsView {
        RecentsView { entries: self.entries@, auto_quits: self.auto_quits@ }
    }
}

/// Nothing terminated yet.
pub open spec fn no_recents() -> RecentsView {
    RecentsView { entries: Seq::empty(), auto_quits: Map::empty() }
}

/// The list after `entry` was added: newest first, without an older entry of
/// the same app, cut to the most that are remembered.
pub open spec fn pushed_entries(entries: Seq<RecentQuit>, entry: RecentQuit) -> Seq<RecentQuit> {
    let others = entries.filter(
        |e: RecentQuit| !same_text(e.bundle_id@, entry.bundle_id@),
    );
    let all = seq![entry] + others;
    if all.len() > MAX_ENTRIES {
        all.take(MAX_ENTRIES as int)
    } else {
        all
    }
}

/// The contents after `entry` was added: it goes into the list, and if it says
/// that RustQuit quit the app, its moment is remembered for the app.
pub open spec fn pushed(recents: RecentsView, entry: RecentQuit) -> RecentsView {
    RecentsView {
        entries: pushed_entries(recents.entries, entry),
        auto_quits: match entry.reason {
            RecentReason::AutoQuit => recents.auto_quits.insert(
                lower(entry.bundle_id@),
                entry.when,
            ),
            RecentReason::KeepTermination => recents.auto_quits,
        },
    }
}

/// At most `MAX_ENTRIES` entries, and no app twice.
pub open spec fn bounded_and_distinct(entries: Seq<RecentQuit>) -> bool {
    &&& entries.len() <= MAX_ENTRIES
    &&& forall|i: int, j: int|
        0 <= i < j < entries.len() ==> !same_text(
            #[trigger] entries[i].bundle_id@,
            #[trigger] entries[j].bundle_id@,
        )
}

/// When RustQuit last quit the app, if it did.
pub open spec fn quit_moment(recents: RecentsView, bundle_id: Seq<char>) -> Option<Instant> {
    if recents.auto_quits.contains_key(lower(bundle_id)) {
        Some(recents.auto_quits[lower(bundle_id)])
    } else {
        None
    }
}

impl Default for RecentQuits {
    fn default() -> (r: RecentQuits)
        ensures
            r@ == no_recents(),
    {
        RecentQuits { entries: VecDeque::new(), auto_quits: NameMap::new() }
    }
}

impl RecentQuits {
    /// An empty list.
    pub fn new_handle() -> (r: RecentQuits)
        ensures
            r@ == no_recents(),
    {
        RecentQuits { entries: VecDeque::new(), auto_quits: NameMap::new() }
    }

    /// Notes that RustQuit quit an app, at the time of the call.
    pub fn push_auto_quit(&mut self, bundle_id: String, name: String)
        ensures
            exists|when: Instant| #[trigger]
                told_now(when) && final(self)@ == pushed(
                    old(self)@,
                    (RecentQuit { bundle_id, name, when, reason: RecentReason::AutoQuit }),
                ),
    {
        self.push(bundle_id, name, present_moment(), RecentReason::AutoQuit);
    }

    /// Notes that a kept app terminated, at the time of the call.
    pub fn push_keep_termination(&mut self, bundle_id: String, name: String)
        ensures
            exists|when: Instant| #[trigger]
                told_now(when) && final(self)@ == pushed(
                    old(self)@,
                    (RecentQuit { bundle_id, name, when, reason: RecentReason::KeepTermination }),
                ),
    {
        self.push(bundle_id, name, present_moment(), RecentReason::KeepTermination);
    }

    /// Adds an entry in front; an older entry of the same app goes. The moment of
    /// an automatic quit is remembered for the app.
    pub fn push(&mut self, bundle_id: String, name: String, when: Instant, reason: RecentReason)
        ensures
            final(self)@ == pushed(old(self)@, (RecentQuit { bundle_id, name, when, reason })),
    {
        let ghost before = self@.entries;
        let entry = RecentQuit { bundle_id, name, when, reason };
        let key = to_lower(entry.bundle_id.as_str());
        let ghost fresh = |e: RecentQuit| !same_text(e.bundle_id@, entry.bundle_id@);
        let mut others: VecDeque<RecentQuit> = VecDeque::new();
        assert(before.take(0).filter(fresh) =~= Seq::empty()) by {
            reveal(Seq::filter);
        }
        for i in 0..self.entries.len()
            invariant
                before == self.entries@,
                self@ == old(self)@,
                fresh == (|e: RecentQuit| !same_text(e.bundle_id@, entry.bundle_id@)),
                others@ == before.take(i as int).filter(fresh),
        {
            proof {
                assert(before.take(i + 1) =~= before.take(i as int).push(before[i as int]));
                before.take(i as int).lemma_filter_push(before[i as int], fresh);
            }
            let e = &self.entries[i];
            if !same_ignoring_case(e.bundle_id.as_str(), entry.bundle_id.as_str()) {
                others.push_back(e.clone());
            }
        }
        assert(before.take(before.len() as int) =~= before);
        others.push_front(entry);
        assert(others@ =~= seq![entry] + before.filter(fresh));
        others.truncate(MAX_ENTRIES);
        self.entries = others;
        assert(self@.entries =~= pushed_entries(before, entry));
        match reason {
            RecentReason::AutoQuit => self.auto_quits.insert(key, when),
            RecentReason::KeepTermination => {},
        }
        assert(self@ =~= pushed(old(self)@, entry));
    }

    /// The entries, newest first.
    pub fn snapshot(&self) -> (r: Vec<RecentQuit>)
        ensures
            r@ == self@.entries,
    {
        let mut out: Vec<RecentQuit> = Vec::new();
        for i in 0..self.entries.len()
            invariant
                out@ == self.entries@.take(i as int),
        {
            out.push(self.entries[i].clone());
            assert(out@ =~= self.entries@.take(i + 1));
        }
        assert(out@ =~= self.entries@);
        out
    }

    /// When RustQuit last quit the app, if it did.
    pub fn auto_quit_moment(&self, bundle_id: &str) -> (r: Option<Instant>)
        ensures
            r == quit_moment(self@, bundle_id@),
    {
        match self.auto_quits.get(to_lower(bundle_id).as_str()) {
            Some(when) => Some(*when),
            None => None,
        }
    }

    /// How long ago RustQuit last quit the app, in nanoseconds, if it did.
    pub fn auto_quit_age(&self, bundle_id: &str) -> (r: Option<u128>)
        ensures
            match quit_moment(self@, bundle_id@) {
                Some(when) => r is Some && told_since(when, r->0),
                None => r is None,
            },
    {
        match self.auto_quit_moment(bundle_id) {
            Some(when) => Some(elapsed_nanos(when)),
            None => None,
        }
    }
}

/// "just now", "5m ago", "2h ago", from an age in whole seconds.
pub open spec fn age_text(secs: nat) -> Seq<char> {
    if secs < 60 {
        "just now"@
    } else if secs < 3600 {
        decimal(secs / 60) + "m ago"@
    } else {
        decimal(secs / 3600) + "h ago"@
    }
}

/// The label of an age in whole seconds.
pub fn age_label_of_secs(secs: u128) -> (r: String)
    ensures
        r@ == age_text(secs as nat),
{
    if secs < 60 {
        "just now".to_owned()
    } else if secs < 3600 {
        let mut out = decimal_of(secs / 60);
        append_text(&mut out, "m ago");
        out
    } else {
        let mut out = decimal_of(secs / 3600);
        append_text(&mut out, "h ago");
        out
    }
}

/// The whole seconds in a number of nanoseconds.
pub open spec fn whole_secs(nanos: u128) -> nat {
    (nanos / 1_000_000_000) as nat
}

/// The label of an age in nanoseconds.
pub fn age_label_of_nanos(nanos: u128) -> (r: String)
    ensures
        r@ == age_text(whole_secs(nanos)),
{
    age_label_of_secs(nanos / 1_000_000_000)
}

/// The label of the time that has passed since `when`.
pub fn age_label(when: Instant) -> (r: String)
    ensures
        exists|nanos: u128| #[trigger]
            told_since(when, nanos) && r@ == age_text(whole_secs(nanos)),
{
    age_label_of_nanos(elapsed_nanos(when))
}

/// However entries are added, the list stays within its bound and holds no
/// app twice.
pub proof fn push_keeps_entries_bounded_and_distinct(recents: RecentsView, entry: RecentQuit)
    requires
        bounded_and_distinct(recents.entries),
    ensures
        bounded_and_distinct(pushed(recents, entry).entries),
        pushed(recents, entry).entries[0] == entry,
{
    let entries = recents.entries;
    let fresh = |e: RecentQuit| !same_text(e.bundle_id@, entry.bundle_id@);
    let others = entries.filter(fresh);
    filter_keeps_distinct(entries, fresh);
    assert forall|i: int| 0 <= i < others.len() implies !same_text(
        entry.bundle_id@,
        #[trigger] others[i].bundle_id@,
    ) by {
        entries.lemma_filter_pred(fresh, i);
    }
    let all = seq![entry] + others;
    assert forall|i: int, j: int| 0 <= i < j < all.len() implies !same_text(
        #[trigger] all[i].bundle_id@,
        #[trigger] all[j].bundle_id@,
    ) by {
        assert(all[j] == others[j - 1]);
        if i > 0 {
            assert(all[i] == others[i - 1]);
        }
    }
}

/// The contents after entries were added one after the other, from the start.
pub open spec fn pushed_all(pushes: Seq<RecentQuit>) -> RecentsView
    decreases pushes.len(),
{
    if pushes.len() == 0 {
        no_recents()
    } else {
        pushed(pushed_all(pushes.drop_last()), pushes.last())
    }
}

/// The list holds the entries that were added at these positions, the latest
/// first.
pub open spec fn latest_first(
    entries: Seq<RecentQuit>,
    pushes: Seq<RecentQuit>,
    positions: Seq<int>,
) -> bool {
    &&& positions.len() == entries.len()
    &&& forall|k: int| 0 <= k < entries.len() ==> 0 <= #[trigger] positions[k] < pushes.len()
    &&& forall|k: int| 0 <= k < entries.len() ==> #[trigger] entries[k] == pushes[positions[k]]
    &&& forall|k: int, l: int|
        0 <= k < l < entries.len() ==> #[trigger] positions[k] > #[trigger] positions[l]
}

proof fn filter_stays_latest_first(
    entries: Seq<RecentQuit>,
    pushes: Seq<RecentQuit>,
    positions: Seq<int>,
    keep: spec_fn(RecentQuit) -> bool,
) -> (kept: Seq<int>)
    requires
        latest_first(entries, pushes, positions),
    ensures
        latest_first(entries.filter(keep), pushes, kept),
        kept.len() > 0 ==> positions.len() > 0 && kept.last() >= positions.last(),
    decreases entries.len(),
{
    reveal(Seq::filter);
    if entries.len() == 0 {
        Seq::empty()
    } else {
        let shorter = entries.drop_last();
        let inner = filter_stays_latest_first(shorter, pushes, positions.drop_last(), keep);
        let last = entries.len() - 1;
        if inner.len() > 0 {
            assert(positions[last - 1] > positions[last]);
        }
        if keep(entries.last()) {
            let kept = inner.push(positions.last());
            let filtered = entries.filter(keep);
            assert(filtered == shorter.filter(keep).push(entries.last()));
            assert(entries[last] == pushes[positions[last]]);
            assert forall|k: int, l: int| 0 <= k < l < kept.len() implies #[trigger] kept[k]
                > #[trigger] kept[l] by {
                if l == inner.len() {
                    assert(kept[k] == inner[k]);
                    if k < inner.len() - 1 {
                        assert(inner[k] > inner[inner.len() - 1]);
                    }
                }
            }
            kept
        } else {
            inner
        }
    }
}

proof fn pushed_all_is_latest_first(pushes: Seq<RecentQuit>) -> (positions: Seq<int>)
    ensures
        latest_first(pushed_all(pushes).entries, pushes, positions),
        bounded_and_distinct(pushed_all(pushes).entries),
    decreases pushes.len(),
{
    if pushes.len() == 0 {
        Seq::empty()
    } else {
        let earlier = pushes.drop_last();
        let entry = pushes.last();
        let before = pushed_all(earlier);
        let known = pushed_all_is_latest_first(earlier);
        push_keeps_entries_bounded_and_distinct(before, entry);
        let fresh = |e: RecentQuit| !same_text(e.bundle_id@, entry.bundle_id@);
        let others = before.entries.filter(fresh);
        let kept = filter_stays_latest_first(before.entries, earlier, known, fresh);
        let all = seq![entry] + others;
        let positions = seq![pushes.len() - 1] + kept;
        assert forall|k: int| 0 <= k < all.len() implies #[trigger] all[k] == pushes[positions[k]]
            && 0 <= positions[k] < pushes.len() by {
            if k > 0 {
                assert(all[k] == others[k - 1]);
                assert(positions[k] == kept[k - 1]);
                assert(others[k - 1] == earlier[kept[k - 1]]);
            }
        }
        assert forall|k: int, l: int| 0 <= k < l < all.len() implies #[trigger] positions[k]
            > #[trigger] positions[l] by {
            assert(positions[l] == kept[l - 1]);
            if k > 0 {
                assert(positions[k] == kept[k - 1]);
            }
        }
        if all.len() > MAX_ENTRIES {
            positions.take(MAX_ENTRIES as int)
        } else {
            positions
        }
    }
}

/// Whatever was added since the start, the list is within its bound, empty only
/// if nothing was added, holds no app twice, and runs from the latest to the
/// earliest entry. So if the moments of the entries did not go back as they were
/// added, by whatever order of moments `no_later`, those in the list do not go
/// forward.
pub proof fn the_list_is_bounded_distinct_and_latest_first(
    pushes: Seq<RecentQuit>,
    no_later: spec_fn(Instant, Instant) -> bool,
)
    requires
        forall|i: int, j: int|
            0 <= i < j < pushes.len() ==> no_later(
                (#[trigger] pushes[i]).when,
                (#[trigger] pushes[j]).when,
            ),
    ensures
        bounded_and_distinct(pushed_all(pushes).entries),
        pushed_all(pushes).entries.len() == 0 <==> pushes.len() == 0,
        exists|positions: Seq<int>| latest_first(pushed_all(pushes).entries, pushes, positions),
        pushes.len() > 0 ==> pushed_all(pushes).entries[0] == pushes.last(),
        forall|k: int, l: int|
            0 <= k < l < pushed_all(pushes).entries.len() ==> no_later(
                (#[trigger] pushed_all(pushes).entries[l]).when,
                (#[trigger] pushed_all(pushes).entries[k]).when,
            ),
{
    let entries = pushed_all(pushes).entries;
    let positions = pushed_all_is_latest_first(pushes);
    if pushes.len() > 0 {
        pushed_all_is_latest_first(pushes.drop_last());
        push_keeps_entries_bounded_and_distinct(pushed_all(pushes.drop_last()), pushes.last());
    }
    assert forall|k: int, l: int| 0 <= k < l < entries.len() implies no_later(
        (#[trigger] entries[l]).when,
        (#[trigger] entries[k]).when,
    ) by {
        assert(positions[k] > positions[l]);
        assert(entries[k] == pushes[positions[k]]);
        assert(entries[l] == pushes[positions[l]]);
    }
}

/// When RustQuit last quit an app stays known, whatever else is noted after that
/// except another quit of the same app: a kept app's termination and the cut of
/// the list do not change it.
pub proof fn quits_stay_known(
    recents: RecentsView,
    quit: RecentQuit,
    later: RecentQuit,
    bundle_id: Seq<char>,
)
    requires
        quit.reason == RecentReason::AutoQuit,
        same_text(quit.bundle_id@, bundle_id),
        later.reason == RecentReason::KeepTermination || !same_text(later.bundle_id@, bundle_id),
    ensures
        quit_moment(pushed(recents, quit), bundle_id) == Some(quit.when),
        quit_moment(pushed(pushed(recents, quit), later), bundle_id) == Some(quit.when),
        quit_moment(pushed(pushed(recents, later), quit), bundle_id) == Some(quit.when),
{
}

proof fn filter_keeps_distinct(entries: Seq<RecentQuit>, keep: spec_fn(RecentQuit) -> bool)
    requires
        forall|i: int, j: int|
            0 <= i < j < entries.len() ==> !same_text(
                #[trigger] entries[i].bundle_id@,
                #[trigger] entries[j].bundle_id@,
            ),
    ensures
        forall|i: int, j: int|
            0 <= i < j < entries.filter(keep).len() ==> !same_text(
                #[trigger] entries.filter(keep)[i].bundle_id@,
                #[trigger] entries.filter(keep)[j].bundle_id@,
            ),
    decreases entries.len(),
{
    reveal(Seq::filter);
    if entries.len() > 0 {
        let shorter = entries.drop_last();
        filter_keeps_distinct(shorter, keep);
        let kept = shorter.filter(keep);
        assert forall|i: int| 0 <= i < kept.len() implies !same_text(
            #[trigger] kept[i].bundle_id@,
            entries.last().bundle_id@,
        ) by {
            assert(kept.contains(kept[i]));
            shorter.lemma_filter_contains_rev(keep, kept[i]);
            assert(shorter.contains(kept[i]));
            let k = choose|k: int| 0 <= k < shorter.len() && shorter[k] == kept[i];
            assert(entries[k] == kept[i]);
        }
    }
}

} // verus!
