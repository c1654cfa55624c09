use proto_derive::text::{
    chars_of, decimal_text, parse_bool, parse_list, parse_u32, parse_u32_range, same_text,
    space, trim_range,
};

#[test]
fn parse_u32_reads_decimal_numbers() {
    assert_eq!(parse_u32("5"), Some(5));
    assert_eq!(parse_u32("0"), Some(0));
    assert_eq!(parse_u32("007"), Some(7));
    assert_eq!(parse_u32("+5"), Some(5));
    assert_eq!(parse_u32("4294967295"), Some(4294967295));
}

#[test]
fn parse_u32_rejects_what_is_no_number() {
    assert_eq!(parse_u32(""), None);
    assert_eq!(parse_u32("+"), None);
    assert_eq!(parse_u32("-1"), None);
    assert_eq!(parse_u32("abc"), None);
    assert_eq!(parse_u32("1 "), None);
    assert_eq!(parse_u32(" 1"), None);
    assert_eq!(parse_u32("1_000"), None);
    assert_eq!(parse_u32("++1"), None);
    assert_eq!(parse_u32("12x"), None);
}

#[test]
fn parse_u32_rejects_what_does_not_fit() {
    assert_eq!(parse_u32("4294967296"), None);
    assert_eq!(parse_u32("99999999999999999999999999"), None);
}

#[test]
fn parse_u32_agrees_with_std() {
    for text in ["5", "+5", "-5", "", "+", "0", "00", "4294967295", "4294967296", "1a", "٣"] {
        assert_eq!(parse_u32(text), text.parse::<u32>().ok(), "on {:?}", text);
    }
}

#[test]
fn parse_u32_range_reads_a_part() {
    let chars: Vec<char> = "ab123cd".chars().collect();
    assert_eq!(parse_u32_range(&chars, 2, 5), Some(123));
    assert_eq!(parse_u32_range(&chars, 2, 6), None);
    assert_eq!(parse_u32_range(&chars, 3, 3), None);
}

#[test]
fn parse_bool_reads_the_two_words() {
    assert_eq!(parse_bool("true"), Some(true));
    assert_eq!(parse_bool("false"), Some(false));
    assert_eq!(parse_bool("True"), None);
    assert_eq!(parse_bool(""), None);
    assert_eq!(parse_bool(" true"), None);
}

#[test]
fn parse_list_reads_numbers_between_commas() {
    assert_eq!(parse_list("1, 2, 3"), Some(vec![1, 2, 3]));
    assert_eq!(parse_list("1,2,3"), Some(vec![1, 2, 3]));
    assert_eq!(parse_list("  7  "), Some(vec![7]));
    assert_eq!(parse_list("3,\t2\n,1"), Some(vec![3, 2, 1]));
}

#[test]
fn parse_list_fails_on_one_bad_segment() {
    assert_eq!(parse_list(""), None);
    assert_eq!(parse_list("   "), None);
    assert_eq!(parse_list("1, x, 3"), None);
    assert_eq!(parse_list("1,,2"), None);
    assert_eq!(parse_list("1,2,"), None);
    assert_eq!(parse_list(",1"), None);
    assert_eq!(parse_list("1, -2"), None);
    assert_eq!(parse_list("1, 4294967296"), None);
}

#[test]
fn decimal_text_spells_numbers() {
    assert_eq!(decimal_text(0), "0");
    assert_eq!(decimal_text(9), "9");
    assert_eq!(decimal_text(10), "10");
    assert_eq!(decimal_text(4294967295), "4294967295");
    assert_eq!(decimal_text(18446744073709551615), "18446744073709551615");
}

#[test]
fn decimal_text_round_trips_through_parse_u32() {
    for n in [0u32, 1, 9, 10, 99, 100, 12345, 4294967295] {
        assert_eq!(parse_u32(&decimal_text(n as u64)), Some(n));
    }
}

#[test]
fn space_agrees_with_std_white_space() {
    for code in 0u32..0x3100 {
        if let Some(c) = char::from_u32(code) {
            assert_eq!(space(c), c.is_whitespace(), "on U+{:04X}", code);
        }
    }
}

#[test]
fn trim_range_drops_white_space_at_both_ends() {
    let chars: Vec<char> = " \t12 3\u{2003}\n".chars().collect();
    assert_eq!(trim_range(&chars, 0, chars.len()), (2, 6));
    let blank: Vec<char> = "   ".chars().collect();
    let (lo, hi) = trim_range(&blank, 0, 3);
    assert_eq!(lo, hi);
    let none: Vec<char> = "abc".chars().collect();
    assert_eq!(trim_range(&none, 0, 3), (0, 3));
    assert_eq!(trim_range(&none, 1, 1), (1, 1));
}

#[test]
fn same_text_compares_characters() {
    assert!(same_text("proto", "proto"));
    assert!(!same_text("proto", "Proto"));
    assert!(!same_text("proto", "prot"));
    assert!(same_text("", ""));
    assert!(same_text("héllo", "héllo"));
    assert!(!same_text("héllo", "hello"));
}

#[test]
fn chars_of_hands_out_every_character() {
    assert_eq!(chars_of("aé\u{1F600}"), vec!['a', 'é', '\u{1F600}']);
    assert_eq!(chars_of(""), Vec::<char>::new());
}
