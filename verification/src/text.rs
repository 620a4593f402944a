//! Text as sequences of characters: ASCII case folding, comparison, search
//! and decimal numerals.
use vstd::prelude::*;

verus! {

/// The character with an ASCII upper-case letter mapped to lower case.
pub open spec fn lower_char(c: char) -> char {
    if 'A' <= c <= 'Z' {
        ((c as u32) + 32) as char
    } else {
        c
    }
}

/// The text with every ASCII upper-case letter mapped to lower case.
pub open spec fn lower(s: Seq<char>) -> Seq<char> {
    Seq::new(s.len(), |i: int| lower_char(s[i]))
}

/// Two texts are equal up to ASCII case.
pub open spec fn same_text(a: Seq<char>, b: Seq<char>) -> bool {
    lower(a) == lower(b)
}

/// The contents of a list of strings.
pub open spec fn texts(list: Seq<String>) -> Seq<Seq<char>> {
    Seq::new(list.len(), |i: int| list[i]@)
}

/// The contents of an optional string.
pub open spec fn opt_text(s: Option<String>) -> Option<Seq<char>> {
    match s {
        Some(s) => Some(s@),
        None => None,
    }
}

/// The contents of a borrowed text that may be missing.
pub open spec fn opt_str(s: Option<&str>) -> Option<Seq<char>> {
    match s {
        Some(s) => Some(s@),
        None => None,
    }
}

/// Every character is ASCII.
pub open spec fn ascii(s: Seq<char>) -> bool {
    forall|i: int| 0 <= i < s.len() ==> (#[trigger] s[i] as u32) < 128
}

/// `a` comes before `b` in dictionary order of scalar values, looking at
/// positions `i` and up.
pub open spec fn before_from(a: Seq<char>, b: Seq<char>, i: int) -> bool
    decreases b.len() - i,
{
    if i >= b.len() {
        false
    } else if i >= a.len() {
        true
    } else if a[i] != b[i] {
        a[i] < b[i]
    } else {
        before_from(a, b, i + 1)
    }
}

/// `a` comes strictly before `b` in dictionary order of scalar values.
pub open spec fn before(a: Seq<char>, b: Seq<char>) -> bool {
    before_from(a, b, 0)
}

/// `needle` occurs in `s` as a contiguous run.
pub open spec fn occurs_in(needle: Seq<char>, s: Seq<char>) -> bool {
    exists|i: int|
        0 <= i <= s.len() - needle.len() && #[trigger] s.subrange(i, i + needle.len()) == needle
}

/// The numeral of a single decimal digit.
pub open spec fn digit_char(d: nat) -> char {
    (('0' as u32) + d) as char
}

/// The decimal numeral of `n`, without leading zeros.
pub open spec fn decimal(n: nat) -> Seq<char>
    decreases n,
{
    if n < 10 {
        seq![digit_char(n)]
    } else {
        decimal(n / 10).push(digit_char(n % 10))
    }
}

/// `String::push` of std appends one character at the end.
pub assume_specification[ String::push ](s: &mut String, c: char)
    ensures
        final(s)@ == old(s)@.push(c),
;

/// What `str::to_lowercase` of std returns: the Unicode lower-case form.
pub uninterp spec fn unicode_lower(s: Seq<char>) -> Seq<char>;

/// `str::to_lowercase` of std is a function of the text alone. Of ASCII text
/// it is the ASCII lower-case form; what it maps other text to is left to the
/// Unicode tables.
pub assume_specification[ str::to_lowercase ](s: &str) -> (r: String)
    ensures
        r@ == unicode_lower(s@),
        ascii(s@) ==> r@ == lower(s@),
;

/// The lower-case form of a text: the ASCII one of ASCII text, the Unicode
/// one of any other.
pub open spec fn full_lower(s: Seq<char>) -> Seq<char> {
    if ascii(s) {
        lower(s)
    } else {
        unicode_lower(s)
    }
}

/// Lower-cases an ASCII letter and leaves every other character alone.
pub fn to_lower_char(c: char) -> (r: char)
    ensures
        r == lower_char(c),
{
    if 'A' <= c && c <= 'Z' {
        ((c as u8) + 32) as char
    } else {
        c
    }
}

/// The characters of `s`, in order.
pub fn chars_of(s: &str) -> (r: Vec<char>)
    ensures
        r@ == s@,
{
    let mut out: Vec<char> = Vec::new();
    for c in it: s.chars()
        invariant
            out@ == it.seq().take(it.index()),
            it.seq() == s@,
    {
        out.push(c);
    }
    out
}

/// The string made of `chars`.
pub fn string_of(chars: &Vec<char>) -> (r: String)
    ensures
        r@ == chars@,
{
    let mut out = String::new();
    for i in 0..chars.len()
        invariant
            out@ == chars@.take(i as int),
    {
        out.push(chars[i]);
    }
    out
}

/// ASCII lower-casing; characters outside ASCII are unchanged.
pub fn to_lower(s: &str) -> (r: String)
    ensures
        r@ == lower(s@),
{
    let mut out = String::new();
    for c in it: s.chars()
        invariant
            out@ == lower(it.seq().take(it.index())),
            it.seq() == s@,
    {
        out.push(to_lower_char(c));
        assert(out@ =~= lower(it.seq().take(it.index() + 1)));
    }
    out
}

/// Equality of the texts.
pub fn same(a: &str, b: &str) -> (r: bool)
    ensures
        r == (a@ == b@),
{
    let x = chars_of(a);
    let y = chars_of(b);
    if x.len() != y.len() {
        return false;
    }
    for i in 0..x.len()
        invariant
            x.len() == y.len(),
            x@ == a@,
            y@ == b@,
            forall|j: int| 0 <= j < i ==> x@[j] == y@[j],
    {
        if x[i] != y[i] {
            return false;
        }
    }
    assert(a@ =~= b@);
    true
}

/// Equality up to ASCII case.
pub fn same_ignoring_case(a: &str, b: &str) -> (r: bool)
    ensures
        r == same_text(a@, b@),
{
    let x = chars_of(a);
    let y = chars_of(b);
    if x.len() != y.len() {
        assert(lower(a@).len() != lower(b@).len());
        return false;
    }
    for i in 0..x.len()
        invariant
            x.len() == y.len(),
            x@ == a@,
            y@ == b@,
            forall|j: int| 0 <= j < i ==> lower_char(x@[j]) == lower_char(y@[j]),
    {
        if to_lower_char(x[i]) != to_lower_char(y[i]) {
            assert(lower(a@)[i as int] != lower(b@)[i as int]);
            return false;
        }
    }
    assert(lower(a@) =~= lower(b@));
    true
}

/// Dictionary order of scalar values.
pub fn comes_before(a: &Vec<char>, b: &Vec<char>) -> (r: bool)
    ensures
        r == before(a@, b@),
{
    let mut i: usize = 0;
    while i < b.len()
        invariant
            i <= b.len(),
            before(a@, b@) == before_from(a@, b@, i as int),
        decreases b.len() - i,
    {
        if i >= a.len() {
            return true;
        }
        if a[i] != b[i] {
            return a[i] < b[i];
        }
        i += 1;
    }
    false
}

/// `s` begins with `prefix`.
pub fn begins_with(s: &Vec<char>, prefix: &Vec<char>) -> (r: bool)
    ensures
        r == prefix@.is_prefix_of(s@),
{
    if prefix.len() > s.len() {
        return false;
    }
    for i in 0..prefix.len()
        invariant
            prefix.len() <= s.len(),
            forall|j: int| 0 <= j < i ==> prefix@[j] == s@[j],
    {
        if prefix[i] != s[i] {
            assert(prefix@[i as int] != s@.subrange(0, prefix@.len() as int)[i as int]);
            return false;
        }
    }
    assert(prefix@ =~= s@.subrange(0, prefix@.len() as int));
    true
}

/// `s` ends with `suffix`.
pub fn finishes_with(s: &Vec<char>, suffix: &Vec<char>) -> (r: bool)
    ensures
        r == suffix@.is_suffix_of(s@),
{
    if suffix.len() > s.len() {
        return false;
    }
    let skip: usize = s.len() - suffix.len();
    for i in 0..suffix.len()
        invariant
            skip + suffix.len() == s.len(),
            forall|j: int| 0 <= j < i ==> suffix@[j] == s@[skip + j],
    {
        if suffix[i] != s[skip + i] {
            assert(suffix@[i as int] != s@.subrange(skip as int, s@.len() as int)[i as int]);
            return false;
        }
    }
    assert(suffix@ =~= s@.subrange(skip as int, s@.len() as int));
    true
}

/// `needle` occurs in `s`.
pub fn contains_text(s: &Vec<char>, needle: &Vec<char>) -> (r: bool)
    ensures
        r == occurs_in(needle@, s@),
{
    if needle.len() > s.len() {
        return false;
    }
    let last: usize = s.len() - needle.len();
    let mut at: usize = 0;
    loop
        invariant
            at <= last,
            last + needle.len() == s.len(),
            forall|k: int| 0 <= k < at ==> #[trigger] s@.subrange(k, k + needle@.len()) != needle@,
        decreases last - at,
    {
        let mut i: usize = 0;
        while i < needle.len() && needle[i] == s[at + i]
            invariant
                i <= needle.len(),
                at + needle.len() <= s.len(),
                forall|j: int| 0 <= j < i ==> needle@[j] == s@[at + j],
            decreases needle.len() - i,
        {
            i += 1;
        }
        if i == needle.len() {
            assert(s@.subrange(at as int, at + needle@.len()) =~= needle@);
            return true;
        }
        assert(s@.subrange(at as int, at + needle@.len())[i as int] != needle@[i as int]);
        if at == last {
            return false;
        }
        at += 1;
    }
}

/// The decimal numeral of `n`.
pub fn decimal_of(n: u128) -> (r: String)
    ensures
        r@ == decimal(n as nat),
    decreases n,
{
    let digit: char = ((n % 10) as u8 + 48u8) as char;
    if n < 10 {
        let mut out = String::new();
        out.push(digit);
        assert(out@ =~= decimal(n as nat));
        out
    } else {
        let mut out = decimal_of(n / 10);
        out.push(digit);
        out
    }
}

/// Appends `tail` to `s`.
pub fn append_text(s: &mut String, tail: &str)
    ensures
        final(s)@ == old(s)@ + tail@,
{
    let ghost start = s@;
    for c in it: tail.chars()
        invariant
            s@ == start + it.seq().take(it.index()),
            it.seq() == tail@,
    {
        s.push(c);
        assert(s@ =~= start + it.seq().take(it.index() + 1));
    }
    assert(s@ =~= start + tail@);
}

/// Dictionary order never holds both ways, and holds one way unless the
/// texts agree.
pub proof fn order_is_total(a: Seq<char>, b: Seq<char>)
    ensures
        before(a, b) ==> !before(b, a),
        a != b <==> before(a, b) || before(b, a),
{
    order_total_from(a, b, 0);
}

proof fn order_total_from(a: Seq<char>, b: Seq<char>, i: int)
    requires
        0 <= i,
        forall|j: int| 0 <= j < i && j < a.len() && j < b.len() ==> a[j] == b[j],
        i <= a.len() && i <= b.len(),
    ensures
        before_from(a, b, i) ==> !before_from(b, a, i),
        a != b <==> before_from(a, b, i) || before_from(b, a, i),
    decreases b.len() - i,
{
    if i >= b.len() || i >= a.len() {
        if a.len() == b.len() {
            assert(a =~= b);
        }
    } else if a[i] == b[i] {
        order_total_from(a, b, i + 1);
    }
}

/// Dictionary order is transitive.
pub proof fn order_is_transitive(a: Seq<char>, b: Seq<char>, c: Seq<char>)
    requires
        before(a, b),
        before(b, c),
    ensures
        before(a, c),
{
    order_transitive_from(a, b, c, 0);
}

proof fn order_transitive_from(a: Seq<char>, b: Seq<char>, c: Seq<char>, i: int)
    requires
        0 <= i,
        before_from(a, b, i),
        before_from(b, c, i),
    ensures
        before_from(a, c, i),
    decreases b.len() - i,
{
    if i < a.len() && i < b.len() && i < c.len() && a[i] == b[i] && b[i] == c[i] {
        order_transitive_from(a, b, c, i + 1);
    }
}

} // verus!
