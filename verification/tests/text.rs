use rustquit::text::{
    append_text, begins_with, chars_of, comes_before, contains_text, decimal_of, finishes_with,
    same, same_ignoring_case, string_of, to_lower,
};

#[test]
fn texts_agree_with_std() {
    let texts = ["", "a", "A", "ab", "aB", "b", "ABC", "abc", "\u{c4}b", "\u{e4}B", "z\u{1f600}"];
    for a in texts {
        assert_eq!(to_lower(a), a.to_ascii_lowercase());
        assert_eq!(string_of(&chars_of(a)), a);
        for b in texts {
            let (x, y) = (chars_of(a), chars_of(b));
            assert_eq!(same(a, b), a == b);
            assert_eq!(same_ignoring_case(a, b), a.eq_ignore_ascii_case(b));
            assert_eq!(comes_before(&x, &y), a < b);
            assert_eq!(begins_with(&x, &y), a.starts_with(b));
            assert_eq!(finishes_with(&x, &y), a.ends_with(b));
            assert_eq!(contains_text(&x, &y), a.contains(b));
            let mut joined = a.to_string();
            append_text(&mut joined, b);
            assert_eq!(joined, format!("{a}{b}"));
        }
    }
}

#[test]
fn numerals_agree_with_std() {
    for n in [0, 7, 10, 99, 100, 12345, u64::MAX as u128, u128::MAX] {
        assert_eq!(decimal_of(n), n.to_string());
    }
}
