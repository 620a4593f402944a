//! Lists of bundle IDs. IDs are compared without regard to ASCII case.
use vstd::prelude::*;

use crate::text::{
    before, chars_of, comes_before, lower, order_is_total, order_is_transitive, same_ignoring_case,
    same_text, texts, to_lower,
};

verus! {

/// The most entries a stored list may have.
pub const MAX_APPS: usize = 4096;

/// The longest valid bundle ID.
pub const MAX_ID_LEN: usize = 255;

/// A character that a bundle ID may hold.
pub open spec fn id_char(c: char) -> bool {
    ||| 'a' <= c <= 'z'
    ||| 'A' <= c <= 'Z'
    ||| '0' <= c <= '9'
    ||| c == '.'
    ||| c == '-'
    ||| c == '_'
}

/// A well-formed bundle ID: ASCII letters, digits, dots, dashes and
/// underscores, with a dot inside it but none at either end.
pub open spec fn valid_id(id: Seq<char>) -> bool {
    &&& 0 < id.len() <= MAX_ID_LEN
    &&& id.contains('.')
    &&& id[0] != '.'
    &&& id.last() != '.'
    &&& forall|i: int| 0 <= i < id.len() ==> id_char(#[trigger] id[i])
}

/// The list names the app.
pub open spec fn names(list: Seq<Seq<char>>, id: Seq<char>) -> bool {
    exists|i: int| 0 <= i < list.len() && same_text(#[trigger] list[i], id)
}

/// The list without the entries that name the app.
pub open spec fn without(list: Seq<Seq<char>>, id: Seq<char>) -> Seq<Seq<char>> {
    list.filter(|entry: Seq<char>| !same_text(entry, id))
}

/// The list without the apps that `other` names.
pub open spec fn without_all(list: Seq<Seq<char>>, other: Seq<Seq<char>>) -> Seq<Seq<char>> {
    list.filter(|entry: Seq<char>| !names(other, entry))
}

/// The list after the app was checked or unchecked in it.
pub open spec fn relisted(list: Seq<Seq<char>>, id: Seq<char>, listed: bool) -> Seq<Seq<char>> {
    if listed && !names(list, id) {
        list.push(id)
    } else if !listed && names(list, id) {
        without(list, id)
    } else {
        list
    }
}

/// `a` comes before `b` when both are in lower case.
pub open spec fn id_before(a: Seq<char>, b: Seq<char>) -> bool {
    before(lower(a), lower(b))
}

/// The IDs are in strictly ascending order, so none occurs twice.
pub open spec fn ids_ascend(list: Seq<Seq<char>>) -> bool {
    forall|i: int, j: int|
        0 <= i < j < list.len() ==> id_before(#[trigger] list[i], #[trigger] list[j])
}

/// An ascending list with `id` put in its place, unless the list names it
/// already.
pub open spec fn with_id(list: Seq<Seq<char>>, id: Seq<char>) -> Seq<Seq<char>>
    decreases list.len(),
{
    if list.len() == 0 {
        seq![id]
    } else if same_text(list.last(), id) {
        list
    } else if id_before(list.last(), id) {
        list.push(id)
    } else {
        with_id(list.drop_last(), id).push(list.last())
    }
}

/// The valid IDs of a list in ascending order. Of several spellings of one ID
/// the first stays.
pub open spec fn sorted_ids(list: Seq<Seq<char>>) -> Seq<Seq<char>>
    decreases list.len(),
{
    if list.len() == 0 {
        Seq::empty()
    } else if valid_id(list.last()) {
        with_id(sorted_ids(list.drop_last()), list.last())
    } else {
        sorted_ids(list.drop_last())
    }
}

/// The form in which a list is stored.
pub open spec fn stored_form(list: Seq<Seq<char>>) -> Seq<Seq<char>> {
    let ids = sorted_ids(list);
    if ids.len() > MAX_APPS {
        ids.take(MAX_APPS as int)
    } else {
        ids
    }
}

/// Whether a bundle ID is well-formed.
pub fn valid_bundle_id(bundle_id: &str) -> (r: bool)
    ensures
        r == valid_id(bundle_id@),
{
    let chars = chars_of(bundle_id);
    if chars.len() == 0 || chars.len() > MAX_ID_LEN {
        return false;
    }
    if chars[0] == '.' || chars[chars.len() - 1] == '.' {
        return false;
    }
    let mut dotted = false;
    for i in 0..chars.len()
        invariant
            chars@ == bundle_id@,
            dotted == exists|j: int| 0 <= j < i && chars@[j] == '.',
            forall|j: int| 0 <= j < i ==> id_char(#[trigger] chars@[j]),
    {
        let c = chars[i];
        let fits = ('a' <= c && c <= 'z') || ('A' <= c && c <= 'Z') || ('0' <= c && c <= '9') || c
            == '.' || c == '-' || c == '_';
        if !fits {
            assert(!id_char(bundle_id@[i as int]));
            return false;
        }
        if c == '.' {
            dotted = true;
        }
    }
    dotted
}

/// Whether the list names the app.
pub fn is_listed(list: &Vec<String>, bundle_id: &str) -> (r: bool)
    ensures
        r == names(texts(list@), bundle_id@),
{
    for i in 0..list.len()
        invariant
            forall|j: int| 0 <= j < i ==> !same_text(#[trigger] texts(list@)[j], bundle_id@),
    {
        if same_ignoring_case(list[i].as_str(), bundle_id) {
            assert(same_text(texts(list@)[i as int], bundle_id@));
            return true;
        }
    }
    false
}

/// A copy of the list.
pub fn copy_list(list: &Vec<String>) -> (r: Vec<String>)
    ensures
        r@ == list@,
        texts(r@) == texts(list@),
{
    let r = list.clone();
    assert(r@ =~= list@);
    r
}

/// Checks or unchecks the app in the list.
pub fn set_listed(list: &mut Vec<String>, bundle_id: &str, listed: bool)
    ensures
        texts(final(list)@) == relisted(texts(old(list)@), bundle_id@, listed),
{
    let present = is_listed(list, bundle_id);
    let ghost start = texts(list@);
    if listed && !present {
        list.push(bundle_id.to_owned());
        assert(texts(list@) =~= start.push(bundle_id@));
    } else if !listed && present {
        let mut rest: Vec<String> = Vec::new();
        let ghost keep = |entry: Seq<char>| !same_text(entry, bundle_id@);
        assert(start.take(0).filter(keep) =~= Seq::empty()) by {
            reveal(Seq::filter);
        }
        assert(texts(rest@) =~= start.take(0).filter(keep));
        for i in 0..list.len()
            invariant
                start == texts(list@),
                keep == (|entry: Seq<char>| !same_text(entry, bundle_id@)),
                texts(rest@) == start.take(i as int).filter(keep),
        {
            proof {
                assert(start.take(i + 1) =~= start.take(i as int).push(start[i as int]));
                start.take(i as int).lemma_filter_push(start[i as int], keep);
            }
            let ghost before_push = texts(rest@);
            if !same_ignoring_case(list[i].as_str(), bundle_id) {
                rest.push(list[i].clone());
                assert(texts(rest@) =~= before_push.push(start[i as int]));
            }
        }
        assert(start.take(start.len() as int) =~= start);
        *list = rest;
    }
}

/// The list without the apps that `other` names.
pub fn remove_all(list: &Vec<String>, other: &Vec<String>) -> (r: Vec<String>)
    ensures
        texts(r@) == without_all(texts(list@), texts(other@)),
{
    let ghost start = texts(list@);
    let ghost keep = |entry: Seq<char>| !names(texts(other@), entry);
    let mut rest: Vec<String> = Vec::new();
    assert(start.take(0).filter(keep) =~= Seq::empty()) by {
        reveal(Seq::filter);
    }
    assert(texts(rest@) =~= start.take(0).filter(keep));
    for i in 0..list.len()
        invariant
            start == texts(list@),
            keep == (|entry: Seq<char>| !names(texts(other@), entry)),
            texts(rest@) == start.take(i as int).filter(keep),
    {
        proof {
            assert(start.take(i + 1) =~= start.take(i as int).push(start[i as int]));
            start.take(i as int).lemma_filter_push(start[i as int], keep);
        }
        let ghost before_push = texts(rest@);
        if !is_listed(other, list[i].as_str()) {
            rest.push(list[i].clone());
            assert(texts(rest@) =~= before_push.push(start[i as int]));
        }
    }
    assert(start.take(start.len() as int) =~= start);
    rest
}

/// Where `id` belongs in an ascending list: the first index whose ID does not
/// come before it.
fn place_of(list: &Vec<String>, id: &str) -> (r: usize)
    requires
        ids_ascend(texts(list@)),
    ensures
        r <= list@.len(),
        forall|i: int| 0 <= i < r ==> id_before(#[trigger] texts(list@)[i], id@),
        forall|i: int| r <= i < list@.len() ==> !id_before(#[trigger] texts(list@)[i], id@),
{
    let ghost ids = texts(list@);
    let wanted = chars_of(to_lower(id).as_str());
    let mut low: usize = 0;
    let mut high: usize = list.len();
    while low < high
        invariant
            low <= high <= list@.len(),
            ids == texts(list@),
            ids_ascend(ids),
            wanted@ == lower(id@),
            forall|i: int| 0 <= i < low ==> id_before(#[trigger] ids[i], id@),
            forall|i: int| high <= i < ids.len() ==> !id_before(#[trigger] ids[i], id@),
        decreases high - low,
    {
        let mid: usize = low + (high - low) / 2;
        let probe = chars_of(to_lower(list[mid].as_str()).as_str());
        assert(probe@ == lower(ids[mid as int]));
        if comes_before(&probe, &wanted) {
            assert forall|i: int| 0 <= i < mid + 1 implies id_before(#[trigger] ids[i], id@) by {
                if i < mid {
                    order_is_transitive(lower(ids[i]), lower(ids[mid as int]), lower(id@));
                }
            }
            low = mid + 1;
        } else {
            assert forall|i: int| mid <= i < ids.len() implies !id_before(
                #[trigger] ids[i],
                id@,
            ) by {
                if i > mid && id_before(ids[i], id@) {
                    order_is_transitive(lower(ids[mid as int]), lower(ids[i]), lower(id@));
                }
            }
            high = mid;
        }
    }
    low
}

proof fn with_id_inserts(list: Seq<Seq<char>>, id: Seq<char>, at: int)
    requires
        0 <= at <= list.len(),
        forall|i: int| 0 <= i < at ==> id_before(#[trigger] list[i], id),
        forall|i: int| at <= i < list.len() ==> id_before(id, #[trigger] list[i]),
    ensures
        with_id(list, id) == list.insert(at, id),
    decreases list.len(),
{
    if list.len() > 0 {
        let last = list.last();
        assert(last == list[list.len() - 1]);
        order_is_total(lower(id), lower(last));
        if at == list.len() {
            assert(list.insert(at, id) =~= list.push(id));
        } else {
            with_id_inserts(list.drop_last(), id, at);
            assert(list.insert(at, id) =~= list.drop_last().insert(at, id).push(last));
        }
    } else {
        assert(list.insert(at, id) =~= seq![id]);
    }
}

proof fn with_id_known(list: Seq<Seq<char>>, id: Seq<char>, at: int)
    requires
        ids_ascend(list),
        0 <= at < list.len(),
        same_text(list[at], id),
    ensures
        with_id(list, id) == list,
    decreases list.len(),
{
    if at < list.len() - 1 {
        assert(id_before(list[at], list[list.len() - 1]));
        order_is_total(lower(id), lower(list.last()));
        assert(ids_ascend(list.drop_last()));
        with_id_known(list.drop_last(), id, at);
        assert(list.drop_last().push(list.last()) =~= list);
    }
}

/// Puts `id` in its place in an ascending list.
fn insert_id(list: &mut Vec<String>, id: String)
    requires
        ids_ascend(texts(old(list)@)),
    ensures
        texts(final(list)@) == with_id(texts(old(list)@), id@),
        ids_ascend(texts(final(list)@)),
{
    let ghost ids = texts(list@);
    let at = place_of(list, id.as_str());
    if at < list.len() && same_ignoring_case(list[at].as_str(), id.as_str()) {
        proof {
            with_id_known(ids, id@, at as int);
        }
    } else {
        proof {
            assert forall|i: int| at <= i < ids.len() implies id_before(id@, #[trigger] ids[i]) by {
                order_is_total(lower(id@), lower(ids[i]));
                if same_text(id@, ids[i]) && i > at {
                    assert(id_before(ids[at as int], ids[i]));
                }
            }
            with_id_inserts(ids, id@, at as int);
        }
        let ghost id_text = id@;
        list.insert(at, id);
        proof {
            assert(texts(list@) =~= ids.insert(at as int, id_text));
            let grown = texts(list@);
            assert forall|a: int, b: int| 0 <= a < b < grown.len() implies id_before(
                #[trigger] grown[a],
                #[trigger] grown[b],
            ) by {
                let a0 = if a < at { a } else { a - 1 };
                let b0 = if b < at { b } else { b - 1 };
                if a != at {
                    assert(grown[a] == ids[a0]);
                }
                if b != at {
                    assert(grown[b] == ids[b0]);
                }
            }
        }
    }
}

/// Brings a list into the form in which it is stored: valid IDs only, sorted,
/// without duplicates, and not too many.
pub fn normalize_app_list(list: &mut Vec<String>)
    ensures
        texts(final(list)@) == stored_form(texts(old(list)@)),
{
    let ghost start = texts(list@);
    let mut out: Vec<String> = Vec::new();
    assert(texts(out@) =~= sorted_ids(start.take(0)));
    for i in 0..list.len()
        invariant
            start == texts(list@),
            texts(out@) == sorted_ids(start.take(i as int)),
            ids_ascend(texts(out@)),
    {
        assert(start.take(i + 1).drop_last() =~= start.take(i as int));
        assert(start.take(i + 1).last() == start[i as int]);
        if valid_bundle_id(list[i].as_str()) {
            insert_id(&mut out, list[i].clone());
        }
    }
    assert(start.take(start.len() as int) =~= start);
    let ghost ids = texts(out@);
    out.truncate(MAX_APPS);
    assert(texts(out@) =~= stored_form(start));
    *list = out;
}

/// Where an ascending list that does not name `id` has its place for it.
proof fn place_in(list: Seq<Seq<char>>, id: Seq<char>) -> (at: int)
    requires
        ids_ascend(list),
        !names(list, id),
    ensures
        0 <= at <= list.len(),
        forall|i: int| 0 <= i < at ==> id_before(#[trigger] list[i], id),
        forall|i: int| at <= i < list.len() ==> id_before(id, #[trigger] list[i]),
    decreases list.len(),
{
    if list.len() == 0 {
        0
    } else {
        let last = list.len() - 1;
        assert(!same_text(list[last], id));
        order_is_total(lower(id), lower(list[last]));
        if id_before(list[last], id) {
            assert forall|i: int| 0 <= i < list.len() implies id_before(#[trigger] list[i], id) by {
                if i < last {
                    order_is_transitive(lower(list[i]), lower(list[last]), lower(id));
                }
            }
            list.len() as int
        } else {
            let rest = list.drop_last();
            assert forall|i: int| 0 <= i < rest.len() implies !same_text(#[trigger] rest[i], id) by {
                assert(rest[i] == list[i]);
            }
            let at = place_in(rest, id);
            assert forall|i: int| 0 <= i < at implies id_before(#[trigger] list[i], id) by {
                assert(rest[i] == list[i]);
            }
            assert forall|i: int| at <= i < list.len() implies id_before(id, #[trigger] list[i]) by {
                if i < last {
                    assert(rest[i] == list[i]);
                }
            }
            at
        }
    }
}

/// What putting an ID into an ascending list does: the list stays as it is if
/// it names the ID, and else has it once more, in its place.
proof fn with_id_places(list: Seq<Seq<char>>, id: Seq<char>) -> (at: int)
    requires
        ids_ascend(list),
    ensures
        ids_ascend(with_id(list, id)),
        names(list, id) ==> with_id(list, id) == list,
        !names(list, id) ==> 0 <= at <= list.len() && with_id(list, id) == list.insert(at, id),
{
    if names(list, id) {
        let i = choose|i: int| 0 <= i < list.len() && same_text(#[trigger] list[i], id);
        with_id_known(list, id, i);
        0
    } else {
        let at = place_in(list, id);
        with_id_inserts(list, id, at);
        let grown = list.insert(at, id);
        assert forall|a: int, b: int| 0 <= a < b < grown.len() implies id_before(
            #[trigger] grown[a],
            #[trigger] grown[b],
        ) by {
            let a0 = if a < at { a } else { a - 1 };
            let b0 = if b < at { b } else { b - 1 };
            if a != at {
                assert(grown[a] == list[a0]);
            }
            if b != at {
                assert(grown[b] == list[b0]);
            }
        }
        at
    }
}

/// The entry is the first valid spelling of its ID in the list.
pub open spec fn first_spelling(list: Seq<Seq<char>>, entry: Seq<char>) -> bool {
    exists|i: int|
        0 <= i < list.len() && #[trigger] list[i] == entry && valid_id(entry) && forall|j: int|
            0 <= j < i && valid_id(#[trigger] list[j]) ==> !same_text(list[j], entry)
}

/// Sorting the IDs of a list gives exactly the first valid spelling of each ID
/// in it, in strictly ascending order.
pub proof fn sorted_ids_are_the_first_spellings(list: Seq<Seq<char>>)
    ensures
        ids_ascend(sorted_ids(list)),
        forall|entry: Seq<char>| #[trigger]
            sorted_ids(list).contains(entry) <==> first_spelling(list, entry),
    decreases list.len(),
{
    let ids = sorted_ids(list);
    if list.len() > 0 {
        let rest = list.drop_last();
        let before_ids = sorted_ids(rest);
        let id = list.last();
        sorted_ids_are_the_first_spellings(rest);
        let at = if valid_id(id) { with_id_places(before_ids, id) } else { 0 };
        assert forall|entry: Seq<char>| ids.contains(entry) <==> first_spelling(list, entry) by {
            spelling_in_prefix(list, entry);
            if valid_id(id) {
                named_spelling(rest, before_ids, id);
                assert(forall|j: int| 0 <= j < rest.len() ==> #[trigger] rest[j] == list[j]);
                assert(forall|j: int| 0 <= j < rest.len() ==> #[trigger] list[j] == rest[j]);
                if !names(before_ids, id) {
                    assert(ids == before_ids.insert(at, id));
                    assert(ids[at] == id);
                    if before_ids.contains(entry) {
                        let i = choose|i: int|
                            0 <= i < before_ids.len() && before_ids[i] == entry;
                        assert(ids[if i < at { i } else { i + 1 }] == entry);
                    }
                    if ids.contains(entry) {
                        let i = choose|i: int| 0 <= i < ids.len() && ids[i] == entry;
                        if i != at {
                            assert(before_ids[if i < at { i } else { i - 1 }] == entry);
                        }
                    }
                }
            }
        }
    } else {
        assert forall|entry: Seq<char>| ids.contains(entry) <==> first_spelling(list, entry) by {
        }
    }
}

/// An entry is a first spelling in a list if it is one without the last entry,
/// or is the last entry and no valid one before names the same ID.
proof fn spelling_in_prefix(list: Seq<Seq<char>>, entry: Seq<char>)
    requires
        list.len() > 0,
    ensures
        first_spelling(list, entry) <==> first_spelling(list.drop_last(), entry) || (entry
            == list.last() && valid_id(entry) && forall|j: int|
            0 <= j < list.len() - 1 && valid_id(#[trigger] list[j]) ==> !same_text(list[j], entry)),
{
    let rest = list.drop_last();
    let last = list.len() - 1;
    assert forall|j: int| 0 <= j < last implies #[trigger] rest[j] == list[j] by {}
    if first_spelling(list, entry) {
        let i = choose|i: int|
            0 <= i < list.len() && #[trigger] list[i] == entry && valid_id(entry) && forall|j: int|
                0 <= j < i && valid_id(#[trigger] list[j]) ==> !same_text(list[j], entry);
        if i < last {
            assert(rest[i] == entry);
        }
    }
    if first_spelling(rest, entry) {
        let i = choose|i: int|
            0 <= i < rest.len() && #[trigger] rest[i] == entry && valid_id(entry) && forall|j: int|
                0 <= j < i && valid_id(#[trigger] rest[j]) ==> !same_text(rest[j], entry);
        assert(list[i] == entry);
        assert forall|j: int| 0 <= j < i && valid_id(#[trigger] list[j]) implies !same_text(
            list[j],
            entry,
        ) by {
            assert(rest[j] == list[j]);
        }
    }
    if entry == list.last() {
        assert(list[last] == entry);
    }
}

/// The sorted IDs name an ID if and only if a valid entry of the list does.
proof fn named_spelling(list: Seq<Seq<char>>, ids: Seq<Seq<char>>, id: Seq<char>)
    requires
        forall|entry: Seq<char>| #[trigger] ids.contains(entry) <==> first_spelling(list, entry),
    ensures
        names(ids, id) <==> exists|i: int|
            0 <= i < list.len() && valid_id(#[trigger] list[i]) && same_text(list[i], id),
{
    if names(ids, id) {
        let k = choose|k: int| 0 <= k < ids.len() && same_text(#[trigger] ids[k], id);
        assert(ids.contains(ids[k]));
        let i = choose|i: int|
            0 <= i < list.len() && #[trigger] list[i] == ids[k] && valid_id(ids[k]) && forall|
                j: int,
            |
                0 <= j < i && valid_id(#[trigger] list[j]) ==> !same_text(list[j], ids[k]);
        assert(valid_id(list[i]) && same_text(list[i], id));
    }
    if exists|i: int| 0 <= i < list.len() && valid_id(#[trigger] list[i]) && same_text(list[i], id) {
        let i = choose|i: int|
            0 <= i < list.len() && valid_id(#[trigger] list[i]) && same_text(list[i], id);
        let first = earliest(list, id, i);
        assert(first_spelling(list, list[first])) by {
            assert forall|j: int| 0 <= j < first && valid_id(#[trigger] list[j]) implies !same_text(
                list[j],
                list[first],
            ) by {}
        }
        assert(ids.contains(list[first]));
        let k = choose|k: int| 0 <= k < ids.len() && ids[k] == list[first];
        assert(same_text(ids[k], id));
    }
}

/// The earliest valid entry that names the ID.
proof fn earliest(list: Seq<Seq<char>>, id: Seq<char>, at: int) -> (r: int)
    requires
        0 <= at < list.len(),
        valid_id(list[at]),
        same_text(list[at], id),
    ensures
        0 <= r <= at,
        valid_id(list[r]),
        same_text(list[r], id),
        forall|j: int| 0 <= j < r && valid_id(#[trigger] list[j]) ==> !same_text(list[j], id),
    decreases at,
{
    if exists|j: int| 0 <= j < at && valid_id(#[trigger] list[j]) && same_text(list[j], id) {
        let j = choose|j: int| 0 <= j < at && valid_id(#[trigger] list[j]) && same_text(list[j], id);
        earliest(list, id, j)
    } else {
        at
    }
}

/// Sorting leaves a list alone that is sorted already and holds only valid
/// IDs.
proof fn sorted_ids_keep_sorted(list: Seq<Seq<char>>)
    requires
        ids_ascend(list),
        forall|i: int| 0 <= i < list.len() ==> valid_id(#[trigger] list[i]),
    ensures
        sorted_ids(list) == list,
    decreases list.len(),
{
    if list.len() > 0 {
        let rest = list.drop_last();
        assert(rest.push(list.last()) =~= list);
        sorted_ids_keep_sorted(rest);
        if rest.len() > 0 {
            assert(id_before(list[list.len() - 2], list[list.len() - 1]));
            order_is_total(lower(rest.last()), lower(list.last()));
        }
    }
}

/// A stored list is in strictly ascending order, holds only valid IDs, each of
/// them as it was spelled first, is not too long, and is stored as it is when
/// it is stored again.
pub proof fn stored_form_is_sorted_valid_and_stable(list: Seq<Seq<char>>)
    ensures
        ids_ascend(stored_form(list)),
        stored_form(list).len() <= MAX_APPS,
        forall|i: int|
            0 <= i < stored_form(list).len() ==> first_spelling(
                list,
                #[trigger] stored_form(list)[i],
            ),
        forall|i: int| 0 <= i < stored_form(list).len() ==> valid_id(#[trigger] stored_form(list)[i]),
        stored_form(stored_form(list)) == stored_form(list),
{
    let ids = sorted_ids(list);
    let stored = stored_form(list);
    sorted_ids_are_the_first_spellings(list);
    assert forall|i: int| 0 <= i < stored.len() implies first_spelling(list, #[trigger] stored[i]) by {
        assert(stored[i] == ids[i]);
        assert(ids.contains(ids[i]));
    }
    assert forall|a: int, b: int| 0 <= a < b < stored.len() implies id_before(
        #[trigger] stored[a],
        #[trigger] stored[b],
    ) by {
        assert(stored[a] == ids[a] && stored[b] == ids[b]);
    }
    sorted_ids_keep_sorted(stored);
}

/// A stored list names no app that the list does not.
pub proof fn stored_form_names_only_listed_apps(list: Seq<Seq<char>>, id: Seq<char>)
    ensures
        names(stored_form(list), id) ==> names(list, id),
{
    let stored = stored_form(list);
    stored_form_is_sorted_valid_and_stable(list);
    if names(stored, id) {
        let k = choose|k: int| 0 <= k < stored.len() && same_text(#[trigger] stored[k], id);
        assert(first_spelling(list, stored[k]));
        let i = choose|i: int|
            0 <= i < list.len() && #[trigger] list[i] == stored[k] && valid_id(stored[k])
                && forall|j: int|
                0 <= j < i && valid_id(#[trigger] list[j]) ==> !same_text(list[j], stored[k]);
        assert(same_text(list[i], id));
    }
}

/// As long as the list is not too long, every valid ID in it stays named.
pub proof fn stored_form_names_every_valid_id(list: Seq<Seq<char>>, id: Seq<char>)
    requires
        sorted_ids(list).len() <= MAX_APPS,
    ensures
        names(stored_form(list), id) <==> exists|i: int|
            0 <= i < list.len() && valid_id(#[trigger] list[i]) && same_text(list[i], id),
{
    sorted_ids_are_the_first_spellings(list);
    named_spelling(list, sorted_ids(list), id);
}

/// After an app was checked in a list or unchecked, the list names it or does
/// not, and names every other app as before.
pub proof fn relisting_changes_one_app(
    list: Seq<Seq<char>>,
    id: Seq<char>,
    listed: bool,
    other: Seq<char>,
)
    ensures
        names(relisted(list, id, listed), id) == listed,
        !same_text(other, id) ==> names(relisted(list, id, listed), other) == names(list, other),
{
    let after = relisted(list, id, listed);
    if listed && !names(list, id) {
        assert(after[list.len() as int] == id);
        assert(same_text(after[list.len() as int], id));
        if names(list, other) {
            let i = choose|i: int| 0 <= i < list.len() && same_text(#[trigger] list[i], other);
            assert(same_text(after[i], other));
        }
        if names(after, other) && !same_text(other, id) {
            let i = choose|i: int| 0 <= i < after.len() && same_text(#[trigger] after[i], other);
            assert(i < list.len());
            assert(same_text(list[i], other));
        }
    } else if !listed && names(list, id) {
        names_without(list, id, id);
        names_without(list, id, other);
    }
}

proof fn names_without(list: Seq<Seq<char>>, id: Seq<char>, other: Seq<char>)
    ensures
        names(without(list, id), other) <==> names(list, other) && !same_text(other, id),
{
    let keep = |entry: Seq<char>| !same_text(entry, id);
    let after = without(list, id);
    if names(after, other) {
        let i = choose|i: int| 0 <= i < after.len() && same_text(#[trigger] after[i], other);
        list.lemma_filter_pred(keep, i);
        assert(after.contains(after[i]));
        list.lemma_filter_contains_rev(keep, after[i]);
        let j = choose|j: int| 0 <= j < list.len() && list[j] == after[i];
        assert(same_text(list[j], other));
    }
    if names(list, other) && !same_text(other, id) {
        let j = choose|j: int| 0 <= j < list.len() && same_text(#[trigger] list[j], other);
        list.lemma_filter_contains(keep, j);
        let i = choose|i: int| 0 <= i < after.len() && after[i] == list[j];
        assert(same_text(after[i], other));
    }
}

/// A list without the apps of another names exactly the apps that the other
/// does not.
pub proof fn without_all_names_the_rest(
    list: Seq<Seq<char>>,
    other: Seq<Seq<char>>,
    id: Seq<char>,
)
    ensures
        names(without_all(list, other), id) <==> names(list, id) && !names(other, id),
{
    let keep = |entry: Seq<char>| !names(other, entry);
    let after = without_all(list, other);
    if names(after, id) {
        let i = choose|i: int| 0 <= i < after.len() && same_text(#[trigger] after[i], id);
        list.lemma_filter_pred(keep, i);
        assert(after.contains(after[i]));
        list.lemma_filter_contains_rev(keep, after[i]);
        let j = choose|j: int| 0 <= j < list.len() && list[j] == after[i];
        assert(same_text(list[j], id));
        names_is_case_blind(other, after[i], id);
    }
    if names(list, id) && !names(other, id) {
        let j = choose|j: int| 0 <= j < list.len() && same_text(#[trigger] list[j], id);
        names_is_case_blind(other, list[j], id);
        list.lemma_filter_contains(keep, j);
        let i = choose|i: int| 0 <= i < after.len() && after[i] == list[j];
        assert(same_text(after[i], id));
    }
}

/// Whether a list names an app does not depend on how its ID is capitalized.
pub proof fn names_is_case_blind(list: Seq<Seq<char>>, id: Seq<char>, other: Seq<char>)
    requires
        same_text(id, other),
    ensures
        names(list, id) == names(list, other),
{
    if names(list, id) {
        let i = choose|i: int| 0 <= i < list.len() && same_text(#[trigger] list[i], id);
        assert(same_text(list[i], other));
    }
    if names(list, other) {
        let i = choose|i: int| 0 <= i < list.len() && same_text(#[trigger] list[i], other);
        assert(same_text(list[i], id));
    }
}

/// Taking the apps of another list out of a stored list leaves a list in the
/// form in which it is stored, and taking them out again leaves that alone.
pub proof fn without_all_stays_stored(list: Seq<Seq<char>>, other: Seq<Seq<char>>)
    requires
        ids_ascend(list),
        list.len() <= MAX_APPS,
        forall|i: int| 0 <= i < list.len() ==> valid_id(#[trigger] list[i]),
    ensures
        ids_ascend(without_all(list, other)),
        without_all(list, other).len() <= MAX_APPS,
        forall|i: int|
            0 <= i < without_all(list, other).len() ==> valid_id(
                #[trigger] without_all(list, other)[i],
            ),
        stored_form(without_all(list, other)) == without_all(list, other),
        without_all(without_all(list, other), other) == without_all(list, other),
{
    let keep = |entry: Seq<char>| !names(other, entry);
    filter_keeps_order(list, keep);
    let rest = list.filter(keep);
    sorted_ids_keep_sorted(rest);
    assert forall|i: int| 0 <= i < rest.len() implies keep(#[trigger] rest[i]) by {
        list.lemma_filter_pred(keep, i);
    }
    filter_keeps_all(rest, keep);
}

proof fn filter_keeps_all(list: Seq<Seq<char>>, keep: spec_fn(Seq<char>) -> bool)
    requires
        forall|i: int| 0 <= i < list.len() ==> keep(#[trigger] list[i]),
    ensures
        list.filter(keep) == list,
    decreases list.len(),
{
    reveal(Seq::filter);
    if list.len() > 0 {
        filter_keeps_all(list.drop_last(), keep);
        assert(list.drop_last().push(list.last()) =~= list);
    }
}

proof fn filter_keeps_order(list: Seq<Seq<char>>, keep: spec_fn(Seq<char>) -> bool)
    requires
        ids_ascend(list),
        forall|i: int| 0 <= i < list.len() ==> valid_id(#[trigger] list[i]),
    ensures
        ids_ascend(list.filter(keep)),
        list.filter(keep).len() <= list.len(),
        forall|i: int|
            0 <= i < list.filter(keep).len() ==> valid_id(#[trigger] list.filter(keep)[i]),
        forall|i: int|
            0 <= i < list.filter(keep).len() ==> list.contains(#[trigger] list.filter(keep)[i]),
    decreases list.len(),
{
    reveal(Seq::filter);
    let kept = list.filter(keep);
    if list.len() > 0 {
        let rest = list.drop_last();
        let last = list.len() - 1;
        filter_keeps_order(rest, keep);
        assert forall|i: int| 0 <= i < kept.len() implies list.contains(#[trigger] kept[i]) by {
            if i < rest.filter(keep).len() {
                assert(rest.contains(rest.filter(keep)[i]));
                let j = choose|j: int| 0 <= j < rest.len() && rest[j] == rest.filter(keep)[i];
                assert(list[j] == kept[i]);
            } else {
                assert(list[last] == kept[i]);
            }
        }
        assert forall|a: int, b: int| 0 <= a < b < kept.len() implies id_before(
            #[trigger] kept[a],
            #[trigger] kept[b],
        ) by {
            let inner = rest.filter(keep);
            assert(kept[a] == inner[a]);
            if b < inner.len() {
                assert(kept[b] == inner[b]);
            } else {
                assert(rest.contains(inner[a]));
                let j = choose|j: int| 0 <= j < rest.len() && rest[j] == inner[a];
                assert(id_before(list[j], list[last]));
            }
        }
    }
}

/// Whether a bundle ID is well-formed does not depend on how it is capitalized.
pub proof fn validity_is_case_blind(id: Seq<char>, other: Seq<char>)
    requires
        same_text(id, other),
    ensures
        valid_id(id) == valid_id(other),
{
    valid_in_other_case(id, other);
    valid_in_other_case(other, id);
}

proof fn valid_in_other_case(id: Seq<char>, other: Seq<char>)
    requires
        same_text(id, other),
    ensures
        valid_id(id) ==> valid_id(other),
{
    if valid_id(id) {
        assert(lower(id).len() == lower(other).len());
        assert forall|i: int| 0 <= i < other.len() implies id_char(#[trigger] other[i]) && (other[i]
            == '.') == (id[i] == '.') by {
            assert(lower(id)[i] == lower(other)[i]);
            assert(id_char(id[i]));
        }
        let dot = choose|i: int| 0 <= i < id.len() && id[i] == '.';
        assert(other[dot] == '.');
        assert(other.contains('.'));
    }
}

} // verus!
