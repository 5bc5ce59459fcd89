use flowstate_workspace::ordering::{sorted_order, text_is_before, SortKey};
use flowstate_workspace::text::{
    ascii_lowered, byte_count, contains_text, decimal_text, eq_ignoring_ascii_case, front_of,
    hexadecimal_text, join_texts, padded_hexadecimal_text, parse_number, starts_with_text, trim,
    trim_end, chars_of,
};
use flowstate_workspace::text_set::TextSet;

#[test]
fn numbers_are_written_and_read_back() {
    assert_eq!(decimal_text(0), "0");
    assert_eq!(decimal_text(u128::MAX), "340282366920938463463374607431768211455");
    assert_eq!(hexadecimal_text(0xbeef), "beef");
    assert_eq!(padded_hexadecimal_text(0xbeef, 8), "0000beef");
    assert_eq!(padded_hexadecimal_text(0x12345, 4), "12345");
    assert_eq!(parse_number("00ff", 16, u128::MAX), Some(255));
    assert_eq!(parse_number("FF", 16, u128::MAX), Some(255));
    assert_eq!(parse_number("+7", 10, u128::MAX), Some(7));
    assert_eq!(parse_number("", 10, u128::MAX), None);
    assert_eq!(parse_number("-1", 10, u128::MAX), None);
    assert_eq!(parse_number("256", 10, 255), None);
    assert_eq!(parse_number("ffffffffffffffffffffffffffffffff", 16, u128::MAX), Some(u128::MAX));
    assert_eq!(parse_number("100000000000000000000000000000000", 16, u128::MAX), None);
}

#[test]
fn texts_are_trimmed() {
    assert_eq!(trim(" \t\u{a0}a b\n\u{3000}"), "a b");
    assert_eq!(trim(" \n "), "");
    assert_eq!(trim_end("  a \n"), "  a");
}

#[test]
fn texts_are_searched() {
    assert!(contains_text("abcde", "cd"));
    assert!(contains_text("abc", ""));
    assert!(!contains_text("abc", "cb"));
    assert!(starts_with_text("abc", "ab"));
    assert!(!starts_with_text("a", "ab"));
    assert!(eq_ignoring_ascii_case("DocX", "dOCx"));
    assert!(!eq_ignoring_ascii_case("É", "é"));
    assert_eq!(ascii_lowered("ÀBc"), "Àbc");
}

#[test]
fn texts_are_cut_and_joined() {
    assert_eq!(byte_count("aé€😀"), 10);
    assert_eq!(front_of(&chars_of("aé€"), 3), "aé");
    assert_eq!(front_of(&chars_of("aé€"), 5), "aé");
    assert_eq!(
        join_texts(&vec!["a".to_string(), "b".to_string(), "c".to_string()], ", "),
        "a, b, c"
    );
    assert_eq!(join_texts(&Vec::new(), ", "), "");
}

#[test]
fn keys_sort_by_rank_then_length_then_text() {
    let key = |rank: u8, length: usize, text: &str| SortKey { rank, length, text: text.to_string() };
    let keys = vec![key(1, 0, "a"), key(0, 2, "b"), key(0, 1, "z"), key(0, 1, "y"), key(0, 1, "y")];
    assert_eq!(sorted_order(&keys), vec![3, 4, 2, 1, 0]);
    assert!(text_is_before("a", "ab"));
    assert!(!text_is_before("b", "ab"));
    assert!(!text_is_before("a", "a"));
}

#[test]
fn sets_of_texts_toggle() {
    let mut set = TextSet::new();
    assert!(set.insert("a"));
    assert!(!set.insert("a"));
    set.toggle("b");
    assert!(set.contains("b"));
    set.toggle("b");
    assert!(!set.contains("b"));
    set.remove("a");
    assert!(!set.contains("a"));
}
