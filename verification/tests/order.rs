use fastpatch::order::{copy_key, key_lt, sort_by_keys, sort_desc_by_keys};
use fastpatch::text::{chars_of, decimal_string, signed_decimal_string, string_of, to_lower, to_upper};

#[test]
fn sorting_is_stable() {
    let items = vec!["a", "b", "c", "d"];
    let keys = vec![vec![2], vec![1], vec![2], vec![1, 0]];
    assert_eq!(sort_by_keys(items.clone(), &keys), vec!["b", "d", "a", "c"]);
    assert_eq!(sort_desc_by_keys(items, &keys), vec!["a", "c", "d", "b"]);
    let empty: Vec<u8> = Vec::new();
    assert!(sort_by_keys(empty, &Vec::new()).is_empty());
}

#[test]
fn keys_compare_lexicographically() {
    assert!(key_lt(&vec![1], &vec![1, 0]));
    assert!(key_lt(&vec![], &vec![0]));
    assert!(!key_lt(&vec![1, 0], &vec![1, 0]));
    assert!(key_lt(&vec![0, 9], &vec![1]));
    assert_eq!(copy_key(&vec![3, 4]), vec![3, 4]);
}

#[test]
fn text_helpers() {
    assert_eq!(string_of(&chars_of("привет")), "привет");
    assert_eq!(string_of(&to_lower(&chars_of("ABC Ж"))), "abc ж");
    assert_eq!(string_of(&to_upper(&chars_of("abc ж"))), "ABC Ж");
    assert_eq!(decimal_string(0), "0");
    assert_eq!(decimal_string(1234567), "1234567");
    assert_eq!(signed_decimal_string(-42), "-42");
    assert_eq!(signed_decimal_string(i32::MIN), "-2147483648");
}
