use kando_cosmic_helper::number;
use kando_cosmic_helper::order;
use kando_cosmic_helper::text;

#[test]
fn white_space_is_trimmed_at_both_ends() {
    assert_eq!(text::trimmed(" \t a b\u{3000}\n"), "a b");
    assert_eq!(text::trimmed("\u{85}\u{a0}"), "");
    assert_eq!(text::trimmed("\u{200b}x"), "\u{200b}x");
}

#[test]
fn trimming_agrees_with_the_standard_library() {
    for p in 0u32..0x11_0000 {
        if let Some(c) = char::from_u32(p) {
            let s: String = c.to_string();
            if text::trimmed(&s) != s.trim() {
                panic!("{p:#x}");
            }
        }
    }
}

#[test]
fn strings_are_split_at_a_character() {
    assert_eq!(text::split_at_char("a:b::c", ':'), vec!["a", "b", "", "c"]);
    assert_eq!(text::split_at_char("", ':'), vec![""]);
    assert_eq!(text::trimmed_pieces(" a , ,b,", ','), vec!["a", "b"]);
}

#[test]
fn parts_are_found_in_strings() {
    assert!(text::contains("xxabcxx", "abc"));
    assert!(text::contains("abc", ""));
    assert!(!text::contains("ab", "abc"));
    assert!(!text::contains("abxabd", "abc"));
    assert!(text::starts_with("--flag", "--"));
    assert!(!text::starts_with("-", "--"));
}

#[test]
fn letters_are_lowered() {
    assert_eq!(text::to_ascii_lowercase("CtRl+Ä1"), "ctrl+Ä1");
    assert!(text::eq_ignore_ascii_case("COSMIC", "cosmic"));
    assert!(!text::eq_ignore_ascii_case("COSMIC", "cosmic "));
    assert!(text::same("a", "a"));
    assert!(!text::same("a", "A"));
}

#[test]
fn unsigned_numbers_are_read() {
    assert_eq!(number::parse_unsigned("0", 10), Some(0));
    assert_eq!(number::parse_unsigned("+007", 10), Some(7));
    assert_eq!(number::parse_unsigned("11", 10), None);
    assert_eq!(number::parse_unsigned("", 10), None);
    assert_eq!(number::parse_unsigned("+", 10), None);
    assert_eq!(number::parse_unsigned("-1", 10), None);
    assert_eq!(number::parse_unsigned("1 ", 10), None);
    assert_eq!(number::parse_unsigned("18446744073709551615", u64::MAX), Some(u64::MAX));
    assert_eq!(number::parse_unsigned("18446744073709551616", u64::MAX), None);
    assert_eq!(number::parse_unsigned("99999999999999999999999", u64::MAX), None);
}

#[test]
fn signed_numbers_are_read() {
    assert_eq!(number::parse_i32("-2147483648"), Some(i32::MIN));
    assert_eq!(number::parse_i32("2147483647"), Some(i32::MAX));
    assert_eq!(number::parse_i32("2147483648"), None);
    assert_eq!(number::parse_i32("-2147483649"), None);
    assert_eq!(number::parse_i32("+5"), Some(5));
    assert_eq!(number::parse_i32("--5"), None);
    assert_eq!(number::parse_i32("-"), None);
}

#[test]
fn numbers_are_written_and_read_back() {
    assert_eq!(number::unsigned_text(0), "0");
    assert_eq!(number::unsigned_text(1200), "1200");
    assert_eq!(number::unsigned_text(u64::MAX), "18446744073709551615");
    assert_eq!(number::signed_text(-70), "-70");
    assert_eq!(number::signed_text(i32::MIN), "-2147483648");
    for n in [i32::MIN, -1, 0, 9, 10, i32::MAX] {
        assert_eq!(number::parse_i32(&number::signed_text(n)), Some(n));
    }
}

#[test]
fn coordinates_are_ordered_like_lists() {
    assert!(order::comes_before(&vec![0, 1], &vec![0, 2]));
    assert!(order::comes_before(&vec![0], &vec![0, 0]));
    assert!(order::comes_before(&vec![], &vec![0]));
    assert!(!order::comes_before(&vec![1], &vec![0, 5]));
    assert!(!order::comes_before(&vec![3, 4], &vec![3, 4]));
    assert!(!order::comes_before(&vec![], &vec![]));
}
