use cypherpunk::text::{
    chars_of, copy_blobs, copy_strings, decimal_of, digit_to_char, digits_of, find, is_one_of,
    join, matches_at, split_fields, split_words, str_equal, string_of, strings_of,
};

fn chars(s: &str) -> Vec<char> {
    s.chars().collect()
}

#[test]
fn chars_and_back() {
    let v = chars_of("héllo\n");
    assert_eq!(v, chars("héllo\n"));
    assert_eq!(string_of(&v, 1, 4), "éll");
    assert_eq!(string_of(&v, 2, 2), "");
}

#[test]
fn find_gives_the_first_place() {
    let hay = chars("abcabc");
    assert_eq!(find(&hay, &chars("bc"), 0), Some(1));
    assert_eq!(find(&hay, &chars("bc"), 2), Some(4));
    assert_eq!(find(&hay, &chars("bc"), 5), None);
    assert_eq!(find(&hay, &chars("x"), 0), None);
    assert_eq!(find(&hay, &chars(""), 6), Some(6));
    assert_eq!(find(&hay, &chars(""), 7), None);
    assert_eq!(find(&hay, &chars("abcabcd"), 0), None);
    assert!(matches_at(&hay, &chars("cab"), 2));
    assert!(!matches_at(&hay, &chars("cab"), 3));
    assert!(!matches_at(&hay, &chars("c"), 6));
}

#[test]
fn join_puts_the_separator_between() {
    assert_eq!(join(&vec![], ", "), "");
    assert_eq!(join(&vec!["a".to_string()], ", "), "a");
    assert_eq!(join(&vec!["a".to_string(), "".to_string(), "c".to_string()], ", "), "a, , c");
}

#[test]
fn split_keeps_empty_fields() {
    let fields = split_fields(&chars("a::b:"), &chars(":"));
    assert_eq!(fields, vec![chars("a"), chars(""), chars("b"), chars("")]);
    assert_eq!(split_fields(&chars(""), &chars(":")), vec![chars("")]);
}

#[test]
fn words_drop_the_blanks() {
    assert_eq!(
        split_words(&chars("  one\ttwo   three ")),
        vec![chars("one"), chars("two"), chars("three")]
    );
    assert!(split_words(&chars(" \t ")).is_empty());
}

#[test]
fn decimal_numbers() {
    assert_eq!(digits_of(0), "0");
    assert_eq!(digits_of(7), "7");
    assert_eq!(digits_of(1203), "1203");
    assert_eq!(digits_of(u64::MAX), "18446744073709551615");
    assert_eq!(decimal_of(-12), "-12");
    assert_eq!(decimal_of(0), "0");
    assert_eq!(decimal_of(i64::MIN), "-9223372036854775808");
    assert_eq!(decimal_of(i64::MAX), "9223372036854775807");
}

#[test]
fn copies_and_comparisons() {
    let list = vec!["a".to_string(), "".to_string(), "é".to_string()];
    assert_eq!(copy_strings(&list), list);
    let blobs = vec![vec![1u8, 2], vec![], vec![255]];
    assert_eq!(copy_blobs(&blobs), blobs);
    assert_eq!(strings_of(&vec![chars("ab"), chars(""), chars("é")]), vec!["ab", "", "é"]);
    assert!(str_equal("abc", "abc"));
    assert!(!str_equal("abc", "abd"));
    assert!(!str_equal("abc", "ab"));
    assert!(is_one_of('b', &chars("abc")));
    assert!(!is_one_of('d', &chars("abc")));
    assert!(!is_one_of('d', &chars("")));
    assert_eq!(digit_to_char(0), '0');
    assert_eq!(digit_to_char(9), '9');
}
