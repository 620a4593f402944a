//! Lists of bundle IDs: laws on validity, membership and the stored form.
use vstd::prelude::*;

use crate::bundle_ids::{
    first_spelling, names, relisted, sorted_ids, stored_form,
    stored_form_is_sorted_valid_and_stable, valid_id, without, without_all,
};
use crate::text::{before, lower, same_text};

verus! {

/// A list names exactly the apps that were put on it, in any letter case: one more
/// entry names one more app, and an empty list names none.
pub proof fn a_list_names_its_entries(list: Seq<Seq<char>>, entry: Seq<char>, id: Seq<char>)
    ensures
        !names(Seq::empty(), id),
        names(list.push(entry), id) <==> names(list, id) || same_text(entry, id),
        names(list.push(entry), entry),
{
    let longer = list.push(entry);
    assert(same_text(longer[list.len() as int], entry));
    if names(list, id) {
        let i = choose|i: int| 0 <= i < list.len() && same_text(#[trigger] list[i], id);
        assert(same_text(longer[i], id));
    }
    if same_text(entry, id) {
        assert(same_text(longer[list.len() as int], id));
    }
    if names(longer, id) && !same_text(entry, id) {
        let i = choose|i: int| 0 <= i < longer.len() && same_text(#[trigger] longer[i], id);
        assert(same_text(list[i], id));
    }
}

/// Which IDs are valid: two parts or more of ASCII letters, digits, `-` and `_`,
/// joined by dots, at most 255 characters in all. So two valid IDs with a dot
/// between them make one that is valid if it is not too long; a valid one has no
/// dot at either end and one inside; and no other character is allowed anywhere.
pub proof fn which_ids_are_valid(a: Seq<char>, b: Seq<char>, at: int, c: char)
    ensures
        valid_id(a) && valid_id(b) ==> (valid_id(a.push('.') + b) <==> a.len() + b.len() < 255),
        valid_id(a) ==> a.len() <= 255 && exists|i: int|
            0 < i < a.len() - 1 && #[trigger] a[i] == '.',
        !valid_id(a.push('.')),
        !valid_id(seq!['.'] + a),
        valid_id(a) && 0 <= at < a.len() && valid_id(a.update(at, c)) ==> 'a' <= c <= 'z' || 'A'
            <= c <= 'Z' || '0' <= c <= '9' || c == '.' || c == '-' || c == '_',
        valid_id(a) && 0 <= at < a.len() && a[at] != '.' && ('a' <= c <= 'z' || 'A' <= c <= 'Z'
            || '0' <= c <= '9' || c == '-' || c == '_') ==> valid_id(a.update(at, c)),
        valid_id(a) && a.len() < 255 && ('a' <= c <= 'z' || 'A' <= c <= 'Z' || '0' <= c <= '9' || c
            == '-' || c == '_') ==> valid_id(a.push(c)) && valid_id(seq![c] + a),
        valid_id(a) && 0 < at < a.len() - 1 ==> valid_id(a.update(at, '.')),
        valid_id(seq!['a', '.', 'b']),
{
    let joint = a.push('.') + b;
    assert(joint[a.len() as int] == '.');
    if valid_id(a) {
        let dot = choose|i: int| 0 <= i < a.len() && a[i] == '.';
        assert(0 < dot < a.len() - 1 && a[dot] == '.');
        if 0 <= at < a.len() && a[at] != '.' {
            assert(a.update(at, c)[dot] == '.');
        }
        if 0 <= at < a.len() {
            assert(a.update(at, c)[at] == c);
            assert(a.update(at, '.')[at] == '.');
        }
        assert(a.push(c)[dot] == '.');
        assert((seq![c] + a)[dot + 1] == '.');
    }
    assert(a.push('.').last() == '.');
    assert((seq!['.'] + a)[0] == '.');
    assert(seq!['a', '.', 'b'][1] == '.');
}

/// Putting an app on a list, or taking it off, leaves every other entry as it is
/// written and where it stands among the others; a new entry comes last, as it is
/// written, and an app that is there already is not put there twice.
pub proof fn relisting_keeps_the_other_entries(list: Seq<Seq<char>>, id: Seq<char>, listed: bool)
    ensures
        without(relisted(list, id, listed), id) == without(list, id),
        !listed ==> relisted(list, id, listed) == without(list, id),
        listed && !names(list, id) ==> relisted(list, id, listed).last() == id && relisted(
            list,
            id,
            listed,
        ).drop_last() == list,
        listed && names(list, id) ==> relisted(list, id, listed) == list,
{
    let others = |entry: Seq<char>| !same_text(entry, id);
    list.lemma_filter_push(id, others);
    if !names(list, id) {
        all_others_stay(list, id);
        assert(relisted(list, id, true).drop_last() =~= list);
    } else {
        taking_off_twice(list, id);
    }
}

proof fn all_others_stay(list: Seq<Seq<char>>, id: Seq<char>)
    requires
        !names(list, id),
    ensures
        without(list, id) == list,
    decreases list.len(),
{
    reveal(Seq::filter);
    if list.len() > 0 {
        let front = list.drop_last();
        assert(!names(front, id)) by {
            if names(front, id) {
                let i = choose|i: int| 0 <= i < front.len() && same_text(#[trigger] front[i], id);
                assert(same_text(list[i], id));
            }
        }
        all_others_stay(front, id);
        assert(list =~= front.push(list.last()));
        assert(!same_text(list[list.len() - 1], id));
        front.lemma_filter_push(list.last(), |entry: Seq<char>| !same_text(entry, id));
    } else {
        assert(list =~= Seq::empty());
    }
}

proof fn taking_off_twice(list: Seq<Seq<char>>, id: Seq<char>)
    ensures
        without(without(list, id), id) == without(list, id),
{
    let others = |entry: Seq<char>| !same_text(entry, id);
    let rest = without(list, id);
    if names(rest, id) {
        let i = choose|i: int| 0 <= i < rest.len() && same_text(#[trigger] rest[i], id);
        list.lemma_filter_pred(others, i);
    }
    all_others_stay(rest, id);
}

/// Taking apps off a list goes through its entries one by one: each is dropped if
/// it is one of these apps, and kept as it is and in its place if not.
pub proof fn taking_apps_off_keeps_the_rest(
    list: Seq<Seq<char>>,
    entry: Seq<char>,
    id: Seq<char>,
    others: Seq<Seq<char>>,
)
    ensures
        without(Seq::empty(), id).len() == 0,
        without(list.push(entry), id) == if same_text(entry, id) {
            without(list, id)
        } else {
            without(list, id).push(entry)
        },
        without_all(Seq::empty(), others).len() == 0,
        without_all(list.push(entry), others) == if names(others, entry) {
            without_all(list, others)
        } else {
            without_all(list, others).push(entry)
        },
{
    reveal(Seq::filter);
    list.lemma_filter_push(entry, |e: Seq<char>| !same_text(e, id));
    list.lemma_filter_push(entry, |e: Seq<char>| !names(others, e));
}

/// Of more than 4096 IDs, the first 4096 in order are stored; up to there all are.
pub proof fn the_stored_form_is_cut_at_the_end(list: Seq<Seq<char>>)
    ensures
        stored_form(list).is_prefix_of(sorted_ids(list)),
        sorted_ids(list).len() <= 4096 ==> stored_form(list) == sorted_ids(list),
        sorted_ids(list).len() > 4096 ==> stored_form(list).len() == 4096,
{
    let ids = sorted_ids(list);
    assert(stored_form(list) =~= ids.subrange(0, stored_form(list).len() as int));
}

/// Writing an ID in another case makes it no other app.
pub proof fn a_spelling_is_the_same_app(list: Seq<Seq<char>>, id: Seq<char>)
    ensures
        names(list, lower(id)) == names(list, id),
        without(list, lower(id)) == without(list, id),
{
    assert(lower(lower(id)) =~= lower(id));
    crate::bundle_ids::names_is_case_blind(list, id, lower(id));
    assert forall|e: Seq<char>| same_text(e, lower(id)) == same_text(e, id) by {}
    same_filter(
        list,
        |e: Seq<char>| !same_text(e, lower(id)),
        |e: Seq<char>| !same_text(e, id),
    );
}

proof fn same_filter(list: Seq<Seq<char>>, p: spec_fn(Seq<char>) -> bool, q: spec_fn(
    Seq<char>,
) -> bool)
    requires
        forall|e: Seq<char>| #[trigger] p(e) == q(e),
    ensures
        list.filter(p) == list.filter(q),
    decreases list.len(),
{
    reveal(Seq::filter);
    if list.len() > 0 {
        same_filter(list.drop_last(), p, q);
        assert(p(list.last()) == q(list.last()));
    }
}

/// The stored form is in dictionary order of the lower-case IDs, and holds nothing
/// that was not given.
pub proof fn stored_ids_are_in_dictionary_order(list: Seq<Seq<char>>, i: int, j: int)
    requires
        0 <= i < j < stored_form(list).len(),
    ensures
        before(lower(stored_form(list)[i]), lower(stored_form(list)[j])),
        list.contains(stored_form(list)[i]),
{
    stored_form_is_sorted_valid_and_stable(list);
    let ids = stored_form(list);
    assert(first_spelling(list, ids[i]));
    let k = choose|k: int|
        0 <= k < list.len() && #[trigger] list[k] == ids[i] && valid_id(ids[i]) && forall|l: int|
            0 <= l < k && valid_id(#[trigger] list[l]) ==> !same_text(list[l], ids[i]);
    assert(list[k] == ids[i]);
}

/// Every entry of a stored list is one that was given, under a valid ID, and the
/// first one given of its app.
pub proof fn stored_ids_are_spelled_as_given(list: Seq<Seq<char>>, i: int) -> (k: int)
    requires
        0 <= i < stored_form(list).len(),
    ensures
        0 <= k < list.len(),
        stored_form(list)[i] == list[k],
        valid_id(list[k]),
        forall|l: int| 0 <= l < k && valid_id(#[trigger] list[l]) ==> !same_text(list[l], list[k]),
{
    stored_form_is_sorted_valid_and_stable(list);
    let ids = stored_form(list);
    assert(first_spelling(list, ids[i]));
    choose|k: int|
        0 <= k < list.len() && #[trigger] list[k] == ids[i] && valid_id(ids[i]) && forall|l: int|
            0 <= l < k && valid_id(#[trigger] list[l]) ==> !same_text(list[l], ids[i])
}

} // verus!
