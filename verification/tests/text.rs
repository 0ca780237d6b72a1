use phpantom::text::{
    chars_lt, decimal_string, str_eq_ignore_ascii_case, str_get, str_starts_with, to_lowercase,
    zero_padded5_string,
};

#[test]
fn zero_padding() {
    assert_eq!(zero_padded5_string(0), "00000");
    assert_eq!(zero_padded5_string(42), "00042");
    assert_eq!(zero_padded5_string(99999), "99999");
    assert_eq!(zero_padded5_string(123456), "123456");
}

#[test]
fn decimal_digits() {
    assert_eq!(decimal_string(0), vec!['0']);
    assert_eq!(decimal_string(907), vec!['9', '0', '7']);
}

#[test]
fn ascii_case_insensitive_equality() {
    assert!(str_eq_ignore_ascii_case("__Construct", "__cONSTRUCT"));
    assert!(!str_eq_ignore_ascii_case("É", "é"));
    assert!(!str_eq_ignore_ascii_case("ab", "abc"));
}

#[test]
fn prefixes() {
    assert!(str_starts_with("__anonymous@1", "__anonymous@"));
    assert!(!str_starts_with("__anon", "__anonymous@"));
    assert!(str_starts_with("x", ""));
}

#[test]
fn lowercase_is_unicode() {
    assert_eq!(to_lowercase("ÀB"), "àb");
    assert_eq!(to_lowercase("abc"), "abc");
}

#[test]
fn lexicographic_order_by_code_point() {
    assert!(chars_lt(&vec!['a'], &vec!['b']));
    assert!(chars_lt(&vec!['a'], &vec!['a', 'a']));
    assert!(!chars_lt(&vec!['a'], &vec!['a']));
    assert!(chars_lt(&vec!['Z'], &vec!['a']));
    assert!(chars_lt(&vec!['z'], &vec!['é']));
}

#[test]
fn byte_range_slicing() {
    let s = "héllo";
    assert_eq!(str_get(s, 0, 1), Some("h"));
    assert_eq!(str_get(s, 1, 3), Some("é"));
    assert_eq!(str_get(s, 2, 3), None);
    assert_eq!(str_get(s, 3, 2), None);
    assert_eq!(str_get(s, 0, 99), None);
    assert_eq!(str_get(s, 6, 6), Some(""));
}
