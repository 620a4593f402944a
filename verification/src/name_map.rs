//! A map keyed by text, kept sorted by key.
use vstd::prelude::*;

use crate::text::{before, chars_of, comes_before, order_is_total, order_is_transitive, same};

verus! {

/// Maps texts to values. Entries are held in dictionary order of their keys,
/// so two maps with the same contents are equal.
#[derive(Debug, PartialEq)]
pub struct NameMap<V> {
    entries: Vec<(String, V)>,
}

/// The keys are in strictly ascending order.
pub open spec fn ascending<V>(entries: Seq<(String, V)>) -> bool {
    forall|i: int, j: int|
        0 <= i < j < entries.len() ==> before(
            #[trigger] entries[i].0@,
            #[trigger] entries[j].0@,
        )
}

/// The contents of a list of entries with distinct keys.
pub open spec fn map_of<V>(entries: Seq<(String, V)>) -> Map<Seq<char>, V> {
    Map::new(
        |k: Seq<char>| exists|i: int| 0 <= i < entries.len() && #[trigger] entries[i].0@ == k,
        |k: Seq<char>|
            entries[choose|i: int| 0 <= i < entries.len() && #[trigger] entries[i].0@ == k].1,
    )
}

proof fn map_of_entry<V>(entries: Seq<(String, V)>, i: int)
    requires
        ascending(entries),
        0 <= i < entries.len(),
    ensures
        map_of(entries).contains_key(entries[i].0@),
        map_of(entries)[entries[i].0@] == entries[i].1,
{
    let k = entries[i].0@;
    let j = choose|j: int| 0 <= j < entries.len() && #[trigger] entries[j].0@ == k;
    order_is_total(k, k);
    if j < i {
        assert(before(entries[j].0@, entries[i].0@));
    } else if i < j {
        assert(before(entries[i].0@, entries[j].0@));
    }
}

impl<V> View for NameMap<V> {
    type V = Map<Seq<char>, V>;

    closed spec fn view(&self) -> Map<Seq<char>, V> {
        map_of(self.entries@)
    }
}

impl<V> NameMap<V> {
    #[verifier::type_invariant]
    spec fn keys_ascend(self) -> bool {
        ascending(self.entries@)
    }

    /// An empty map.
    pub fn new() -> (r: NameMap<V>)
        ensures
            r@ == Map::<Seq<char>, V>::empty(),
    {
        let r = NameMap { entries: Vec::new() };
        assert(r@ =~= Map::<Seq<char>, V>::empty());
        r
    }

    /// The index of the first key that does not come before `key`.
    fn position(&self, key: &str) -> (r: usize)
        ensures
            r <= self.entries@.len(),
            forall|i: int| 0 <= i < r ==> before(#[trigger] self.entries@[i].0@, key@),
            forall|i: int|
                r <= i < self.entries@.len() ==> !before(#[trigger] self.entries@[i].0@, key@),
    {
        proof {
            use_type_invariant(self);
        }
        let wanted = chars_of(key);
        let mut low: usize = 0;
        let mut high: usize = self.entries.len();
        while low < high
            invariant
                low <= high <= self.entries@.len(),
                ascending(self.entries@),
                wanted@ == key@,
                forall|i: int| 0 <= i < low ==> before(#[trigger] self.entries@[i].0@, key@),
                forall|i: int|
                    high <= i < self.entries@.len() ==> !before(
                        #[trigger] self.entries@[i].0@,
                        key@,
                    ),
            decreases high - low,
        {
            let mid: usize = low + (high - low) / 2;
            let probe = chars_of(self.entries[mid].0.as_str());
            if comes_before(&probe, &wanted) {
                assert forall|i: int| 0 <= i < mid + 1 implies before(
                    #[trigger] self.entries@[i].0@,
                    key@,
                ) by {
                    if i < mid {
                        order_is_transitive(
                            self.entries@[i].0@,
                            self.entries@[mid as int].0@,
                            key@,
                        );
                    }
                }
                low = mid + 1;
            } else {
                assert forall|i: int| mid <= i < self.entries@.len() implies !before(
                    #[trigger] self.entries@[i].0@,
                    key@,
                ) by {
                    if i > mid && before(self.entries@[i].0@, key@) {
                        order_is_transitive(
                            self.entries@[mid as int].0@,
                            self.entries@[i].0@,
                            key@,
                        );
                    }
                }
                high = mid;
            }
        }
        low
    }

    /// The index of `key`, where the map has it.
    fn find(&self, key: &str) -> (r: Option<usize>)
        ensures
            match r {
                Some(i) => i < self.entries@.len() && self.entries@[i as int].0@ == key@
                    && self@.contains_key(key@) && self@[key@] == self.entries@[i as int].1,
                None => !self@.contains_key(key@),
            },
    {
        proof {
            use_type_invariant(self);
        }
        let at = self.position(key);
        if at < self.entries.len() && same(self.entries[at].0.as_str(), key) {
            proof {
                map_of_entry(self.entries@, at as int);
            }
            Some(at)
        } else {
            proof {
                if self@.contains_key(key@) {
                    let i = choose|i: int|
                        0 <= i < self.entries@.len() && #[trigger] self.entries@[i].0@ == key@;
                    order_is_total(key@, key@);
                    assert(i > at);
                    assert(before(self.entries@[at as int].0@, self.entries@[i].0@));
                }
            }
            None
        }
    }

    /// The value of `key`.
    pub fn get(&self, key: &str) -> (r: Option<&V>)
        ensures
            match r {
                Some(v) => self@.contains_key(key@) && *v == self@[key@],
                None => !self@.contains_key(key@),
            },
    {
        match self.find(key) {
            Some(i) => Some(&self.entries[i].1),
            None => None,
        }
    }

    /// Whether the map has `key`.
    pub fn contains_key(&self, key: &str) -> (r: bool)
        ensures
            r == self@.contains_key(key@),
    {
        self.find(key).is_some()
    }

    /// Drops `key` and its value.
    pub fn remove(&mut self, key: &str)
        ensures
            final(self)@ == old(self)@.remove(key@),
    {
        let ghost before_map = self@;
        match self.find(key) {
            Some(i) => {
                proof {
                    use_type_invariant(&*self);
                }
                let mut entries: Vec<(String, V)> = Vec::new();
                std::mem::swap(&mut entries, &mut self.entries);
                let ghost whole = entries@;
                let _ = entries.remove(i);
                proof {
                    let rest = entries@;
                    assert forall|a: int, b: int| 0 <= a < b < rest.len() implies before(
                        #[trigger] rest[a].0@,
                        #[trigger] rest[b].0@,
                    ) by {
                        let a0 = if a < i { a } else { a + 1 };
                        let b0 = if b < i { b } else { b + 1 };
                        assert(rest[a] == whole[a0] && rest[b] == whole[b0]);
                    }
                    removed_contents(whole, i as int);
                }
                self.entries = entries;
                assert(self@ =~= before_map.remove(key@));
            },
            None => {
                assert(self@ =~= before_map.remove(key@));
            },
        }
    }

    /// Gives `key` the value `value`.
    pub fn insert(&mut self, key: String, value: V)
        ensures
            final(self)@ == old(self)@.insert(key@, value),
    {
        self.remove(key.as_str());
        let ghost before_map = self@;
        let at = self.position(key.as_str());
        proof {
            use_type_invariant(&*self);
        }
        let mut entries: Vec<(String, V)> = Vec::new();
        std::mem::swap(&mut entries, &mut self.entries);
        let ghost whole = entries@;
        entries.insert(at, (key, value));
        proof {
            let grown = entries@;
            assert forall|i: int| at <= i < whole.len() implies before(
                key@,
                #[trigger] whole[i].0@,
            ) by {
                order_is_total(key@, whole[i].0@);
                map_of_entry(whole, i);
                assert(!before_map.contains_key(key@));
            }
            assert forall|a: int, b: int| 0 <= a < b < grown.len() implies before(
                #[trigger] grown[a].0@,
                #[trigger] grown[b].0@,
            ) by {
                let a0 = if a < at { a } else { a - 1 };
                let b0 = if b < at { b } else { b - 1 };
                if a != at {
                    assert(grown[a] == whole[a0]);
                }
                if b != at {
                    assert(grown[b] == whole[b0]);
                }
            }
            grown_contents(whole, at as int, (key, value));
        }
        self.entries = entries;
        assert(self@ =~= before_map.insert(key@, value));
    }

    /// The number of entries. Their keys are in strictly ascending order.
    pub fn len(&self) -> (r: usize)
        ensures
            r == self.pairs().len(),
            ascending(self.pairs()),
    {
        proof {
            use_type_invariant(self);
        }
        self.entries.len()
    }

    /// The entries, in ascending order of their keys.
    pub closed spec fn pairs(&self) -> Seq<(String, V)> {
        self.entries@
    }

    /// The entries are the contents: a key is in the map if and only if some
    /// entry has it.
    pub proof fn pairs_hold_the_keys(&self, key: Seq<char>)
        ensures
            self@.contains_key(key) <==> exists|i: int|
                0 <= i < self.pairs().len() && #[trigger] self.pairs()[i].0@ == key,
    {
        let entries = self.entries@;
        if self@.contains_key(key) {
            let i = choose|i: int| 0 <= i < entries.len() && #[trigger] entries[i].0@ == key;
            assert(self.pairs()[i].0@ == key);
        }
        if exists|i: int| 0 <= i < self.pairs().len() && #[trigger] self.pairs()[i].0@ == key {
            let i = choose|i: int|
                0 <= i < self.pairs().len() && #[trigger] self.pairs()[i].0@ == key;
            assert(entries[i].0@ == key);
        }
    }

    /// The entry at an index.
    pub fn entry(&self, index: usize) -> (r: (&str, &V))
        requires
            index < self.pairs().len(),
        ensures
            r.0@ == self.pairs()[index as int].0@,
            *r.1 == self.pairs()[index as int].1,
            self@.contains_key(r.0@),
            self@[r.0@] == *r.1,
    {
        proof {
            use_type_invariant(self);
            map_of_entry(self.entries@, index as int);
        }
        (self.entries[index].0.as_str(), &self.entries[index].1)
    }
}

impl NameMap<u64> {
    /// A map with the same contents.
    pub fn copy(&self) -> (r: NameMap<u64>)
        ensures
            r@ == self@,
    {
        proof {
            use_type_invariant(self);
        }
        let mut entries: Vec<(String, u64)> = Vec::new();
        for i in 0..self.entries.len()
            invariant
                entries@ == self.entries@.take(i as int),
        {
            entries.push((self.entries[i].0.clone(), self.entries[i].1));
            assert(entries@ =~= self.entries@.take(i + 1));
        }
        assert(entries@ =~= self.entries@);
        NameMap { entries }
    }
}

proof fn removed_contents<V>(whole: Seq<(String, V)>, i: int)
    requires
        ascending(whole),
        0 <= i < whole.len(),
        ascending(whole.remove(i)),
    ensures
        map_of(whole.remove(i)) == map_of(whole).remove(whole[i].0@),
{
    let rest = whole.remove(i);
    let key = whole[i].0@;
    assert forall|k: Seq<char>| #![auto]
        map_of(rest).contains_key(k) <==> map_of(whole).remove(key).contains_key(k) by {
        if map_of(rest).contains_key(k) {
            let j = choose|j: int| 0 <= j < rest.len() && #[trigger] rest[j].0@ == k;
            let j0 = if j < i { j } else { j + 1 };
            assert(rest[j] == whole[j0]);
            order_is_total(key, key);
            if j0 < i {
                assert(before(whole[j0].0@, whole[i].0@));
            } else {
                assert(before(whole[i].0@, whole[j0].0@));
            }
        }
        if map_of(whole).remove(key).contains_key(k) {
            let j = choose|j: int| 0 <= j < whole.len() && #[trigger] whole[j].0@ == k;
            let j1 = if j < i { j } else { j - 1 };
            assert(rest[j1] == whole[j]);
        }
    }
    assert forall|k: Seq<char>| #![auto]
        map_of(rest).contains_key(k) implies map_of(rest)[k] == map_of(whole).remove(key)[k] by {
        let j = choose|j: int| 0 <= j < rest.len() && #[trigger] rest[j].0@ == k;
        let j0 = if j < i { j } else { j + 1 };
        assert(rest[j] == whole[j0]);
        map_of_entry(rest, j);
        map_of_entry(whole, j0);
    }
    assert(map_of(rest) =~= map_of(whole).remove(key));
}

proof fn grown_contents<V>(whole: Seq<(String, V)>, at: int, pair: (String, V))
    requires
        ascending(whole),
        0 <= at <= whole.len(),
        ascending(whole.insert(at, pair)),
    ensures
        map_of(whole.insert(at, pair)) == map_of(whole).insert(pair.0@, pair.1),
{
    let grown = whole.insert(at, pair);
    assert(grown[at] == pair);
    map_of_entry(grown, at);
    assert forall|k: Seq<char>| #![auto]
        map_of(grown).contains_key(k) <==> map_of(whole).insert(pair.0@, pair.1).contains_key(k) by {
        if map_of(grown).contains_key(k) {
            let j = choose|j: int| 0 <= j < grown.len() && #[trigger] grown[j].0@ == k;
            if j != at {
                let j0 = if j < at { j } else { j - 1 };
                assert(grown[j] == whole[j0]);
            }
        }
        if map_of(whole).contains_key(k) {
            let j = choose|j: int| 0 <= j < whole.len() && #[trigger] whole[j].0@ == k;
            let j1 = if j < at { j } else { j + 1 };
            assert(grown[j1] == whole[j]);
        }
    }
    assert forall|k: Seq<char>| #![auto]
        map_of(grown).contains_key(k) implies map_of(grown)[k] == map_of(whole).insert(
        pair.0@,
        pair.1,
    )[k] by {
        let j = choose|j: int| 0 <= j < grown.len() && #[trigger] grown[j].0@ == k;
        map_of_entry(grown, j);
        if j != at {
            let j0 = if j < at { j } else { j - 1 };
            assert(grown[j] == whole[j0]);
            map_of_entry(whole, j0);
            order_is_total(k, k);
            if j < at {
                assert(before(grown[j].0@, grown[at].0@));
            } else {
                assert(before(grown[at].0@, grown[j].0@));
            }
        }
    }
    assert(map_of(grown) =~= map_of(whole).insert(pair.0@, pair.1));
}

} // verus!
