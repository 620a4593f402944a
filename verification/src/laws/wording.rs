//! Text: laws on letter case, order, search and numerals.
use vstd::prelude::*;

use crate::text::{before, before_from, decimal, lower, occurs_in, same_text};

verus! {

/// Two texts are the same to the library exactly if they are equal letter by
/// letter, but for the case of ASCII letters.
pub proof fn same_text_is_equality_up_to_case(a: Seq<char>, b: Seq<char>)
    ensures
        same_text(a, b) <==> a.len() == b.len() && forall|i: int|
            0 <= i < a.len() ==> #[trigger] a[i] == b[i] || ('A' <= a[i] <= 'Z' && b[i] as u32
                == a[i] as u32 + 32) || ('A' <= b[i] <= 'Z' && a[i] as u32 == b[i] as u32 + 32),
        same_text(a, lower(a)),
        forall|i: int| 0 <= i < a.len() ==> !('A' <= #[trigger] lower(a)[i] <= 'Z'),
{
    if same_text(a, b) {
        assert(lower(a).len() == lower(b).len());
        assert forall|i: int| 0 <= i < a.len() implies #[trigger] a[i] == b[i] || ('A' <= a[i]
            <= 'Z' && b[i] as u32 == a[i] as u32 + 32) || ('A' <= b[i] <= 'Z' && a[i] as u32
            == b[i] as u32 + 32) by {
            assert(lower(a)[i] == lower(b)[i]);
        }
    }
    if a.len() == b.len() && forall|i: int|
        0 <= i < a.len() ==> #[trigger] a[i] == b[i] || ('A' <= a[i] <= 'Z' && b[i] as u32
            == a[i] as u32 + 32) || ('A' <= b[i] <= 'Z' && a[i] as u32 == b[i] as u32 + 32) {
        assert forall|i: int| 0 <= i < a.len() implies lower(a)[i] == lower(b)[i] by {
            assert(a[i] == a[i]);
        }
        assert(lower(a) =~= lower(b));
    }
    assert(lower(lower(a)) =~= lower(a));
}

proof fn before_from_is_dictionary_order(a: Seq<char>, b: Seq<char>, i: int, k: int)
    requires
        0 <= i <= k,
        k <= a.len() && k <= b.len(),
        forall|j: int| 0 <= j < k ==> #[trigger] a[j] == b[j],
        k < b.len(),
        k == a.len() || a[k] != b[k],
    ensures
        before_from(a, b, i) == (k == a.len() || a[k] < b[k]),
    decreases k - i,
{
    if i < k {
        assert(a[i] == b[i]);
        before_from_is_dictionary_order(a, b, i + 1, k);
    }
}

/// Texts are in dictionary order: where two first differ, the lower character
/// decides, and a text comes after each of its own beginnings.
pub proof fn texts_are_in_dictionary_order(a: Seq<char>, b: Seq<char>, k: int)
    requires
        0 <= k <= a.len(),
        k < b.len(),
        a.take(k) == b.take(k),
        k == a.len() || a[k] != b[k],
    ensures
        before(a, b) <==> k == a.len() || a[k] < b[k],
        !before(a, a),
{
    assert forall|j: int| 0 <= j < k implies #[trigger] a[j] == b[j] by {
        assert(a.take(k)[j] == a[j]);
        assert(b.take(k)[j] == b[j]);
    }
    before_from_is_dictionary_order(a, b, 0, k);
    crate::text::order_is_total(a, a);
}

/// A text is found in another exactly if the other is made of something, the
/// text, and something.
pub proof fn a_text_is_found_where_it_stands(
    left: Seq<char>,
    needle: Seq<char>,
    right: Seq<char>,
    s: Seq<char>,
)
    ensures
        occurs_in(needle, left + needle + right),
        occurs_in(needle, s) ==> exists|at: int|
            0 <= at <= s.len() - needle.len() && s == #[trigger] s.take(at) + needle + s.skip(
                at + needle.len(),
            ),
{
    let whole = left + needle + right;
    assert(whole.subrange(left.len() as int, left.len() as int + needle.len()) =~= needle);
    if occurs_in(needle, s) {
        let at = choose|at: int|
            0 <= at <= s.len() - needle.len() && #[trigger] s.subrange(at, at + needle.len())
                == needle;
        assert(s =~= s.take(at) + needle + s.skip(at + needle.len()));
    }
}

/// The number that a text of decimal digits stands for.
pub open spec fn numeral_value(digits: Seq<char>) -> int
    decreases digits.len(),
{
    if digits.len() == 0 {
        0
    } else {
        10 * numeral_value(digits.drop_last()) + (digits.last() as u32 - 48)
    }
}

/// A number is written in decimal digits that stand for it, without a zero in
/// front unless it is zero.
pub proof fn numerals_read_back(n: nat)
    ensures
        numeral_value(decimal(n)) == n,
        decimal(n).len() > 0,
        forall|i: int| 0 <= i < decimal(n).len() ==> '0' <= #[trigger] decimal(n)[i] <= '9',
        n > 0 ==> decimal(n)[0] != '0',
        n == 0 ==> decimal(n).len() == 1,
    decreases n,
{
    if n < 10 {
        assert(decimal(n).drop_last() =~= Seq::empty());
        assert(numeral_value(Seq::empty()) == 0);
        assert(decimal(n).last() as u32 == 48 + n);
    } else {
        numerals_read_back(n / 10);
        assert(decimal(n).drop_last() =~= decimal(n / 10));
        assert(decimal(n).last() as u32 == 48 + n % 10);
    }
}

} // verus!
