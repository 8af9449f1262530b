use kisara::error::IntErrorKind;
use kisara::text::{
    chars_of, i64_to_string, parse_unsigned, sorted_unique, split, str_before, str_equal,
    u64_to_string,
};

fn strings(items: &[&str]) -> Vec<String> {
    items.iter().map(|s| s.to_string()).collect()
}

#[test]
fn unsigned_numbers_are_written_in_decimal() {
    assert_eq!(u64_to_string(0), "0");
    assert_eq!(u64_to_string(7), "7");
    assert_eq!(u64_to_string(10), "10");
    assert_eq!(u64_to_string(1400), "1400");
    assert_eq!(u64_to_string(u64::MAX), "18446744073709551615");
}

#[test]
fn signed_numbers_are_written_with_their_sign() {
    assert_eq!(i64_to_string(0), "0");
    assert_eq!(i64_to_string(-5), "-5");
    assert_eq!(i64_to_string(42), "42");
    assert_eq!(i64_to_string(i64::MIN), "-9223372036854775808");
    assert_eq!(i64_to_string(i64::MAX), "9223372036854775807");
}

#[test]
fn written_numbers_agree_with_the_standard_library() {
    for n in [0i64, 1, 9, 10, 99, 100, 12345, -1, -10, -99999, i32::MIN as i64, i32::MAX as i64] {
        assert_eq!(i64_to_string(n), n.to_string());
    }
}

#[test]
fn unsigned_numbers_are_read() {
    assert_eq!(parse_unsigned("0", 100), Ok(0));
    assert_eq!(parse_unsigned("42", 100), Ok(42));
    assert_eq!(parse_unsigned("100", 100), Ok(100));
    assert_eq!(parse_unsigned("007", 100), Ok(7));
    assert_eq!(parse_unsigned("+5", 100), Ok(5));
    assert_eq!(parse_unsigned("18446744073709551615", u64::MAX), Ok(u64::MAX));
}

#[test]
fn an_empty_text_is_no_number() {
    assert_eq!(parse_unsigned("", 100), Err(IntErrorKind::Empty));
}

#[test]
fn other_characters_than_digits_make_no_number() {
    assert_eq!(parse_unsigned("12a", 100), Err(IntErrorKind::InvalidDigit));
    assert_eq!(parse_unsigned("-5", 100), Err(IntErrorKind::InvalidDigit));
    assert_eq!(parse_unsigned("+", 100), Err(IntErrorKind::InvalidDigit));
    assert_eq!(parse_unsigned("++5", 100), Err(IntErrorKind::InvalidDigit));
    assert_eq!(parse_unsigned(" 5", 100), Err(IntErrorKind::InvalidDigit));
    assert_eq!(parse_unsigned("5 ", 100), Err(IntErrorKind::InvalidDigit));
    assert_eq!(parse_unsigned("1.5", 100), Err(IntErrorKind::InvalidDigit));
}

#[test]
fn a_number_above_the_limit_overflows() {
    assert_eq!(parse_unsigned("101", 100), Err(IntErrorKind::PosOverflow));
    assert_eq!(parse_unsigned("18446744073709551616", u64::MAX), Err(IntErrorKind::PosOverflow));
    assert_eq!(parse_unsigned("4294967296", u32::MAX as u64), Err(IntErrorKind::PosOverflow));
}

#[test]
fn the_first_fault_decides_the_error() {
    assert_eq!(parse_unsigned("1000x", 100), Err(IntErrorKind::PosOverflow));
    assert_eq!(parse_unsigned("10x00", 100), Err(IntErrorKind::InvalidDigit));
}

#[test]
fn reading_agrees_with_the_standard_library() {
    for text in ["", "0", "17", "+17", "-17", "+", "4294967295", "4294967296", "12x", "99999999999x"] {
        let ours = parse_unsigned(text, u32::MAX as u64).ok().map(|v| v as u32);
        let std = text.parse::<u32>().ok();
        assert_eq!(ours, std, "on {:?}", text);
    }
}

#[test]
fn characters_are_listed() {
    assert_eq!(chars_of("héllo"), vec!['h', 'é', 'l', 'l', 'o']);
    assert_eq!(chars_of(""), Vec::<char>::new());
}

#[test]
fn equal_texts_are_told() {
    assert!(str_equal("vtt", "vtt"));
    assert!(str_equal("", ""));
    assert!(!str_equal("vtt", "vt"));
    assert!(!str_equal("vtt", "vtx"));
    assert!(!str_equal("é", "e"));
}

#[test]
fn texts_are_ordered_by_their_bytes() {
    assert!(str_before("a", "b"));
    assert!(!str_before("b", "a"));
    assert!(!str_before("a", "a"));
    assert!(str_before("", "a"));
    assert!(!str_before("a", ""));
    assert!(str_before("ab", "abc"));
    assert!(str_before("Z", "a"));
    assert!(str_before("z", "é"));
    for (a, b) in [("Foo", "Foo CN"), ("b", "a"), ("é", "z"), ("", ""), ("10", "9")] {
        assert_eq!(str_before(a, b), a < b);
    }
}

#[test]
fn a_text_is_split_at_each_separator() {
    assert_eq!(split("a,b,c", ','), strings(&["a", "b", "c"]));
    assert_eq!(split("", ','), strings(&[""]));
    assert_eq!(split(",", ','), strings(&["", ""]));
    assert_eq!(split("a,,b,", ','), strings(&["a", "", "b", ""]));
    assert_eq!(split("no separator", ','), strings(&["no separator"]));
}

#[test]
fn splitting_agrees_with_the_standard_library() {
    for text in ["", ",", "a", "a,b", ",a,", "2,eng,Full Subs", "é,ü"] {
        let std: Vec<String> = text.split(',').map(|s| s.to_string()).collect();
        assert_eq!(split(text, ','), std);
    }
}

#[test]
fn sorted_unique_drops_repeats_and_orders() {
    let items = strings(&["pear", "apple", "pear", "", "fig", "apple"]);
    assert_eq!(sorted_unique(&items, false), strings(&["apple", "fig", "pear"]));
    assert_eq!(sorted_unique(&items, true), strings(&["", "apple", "fig", "pear"]));
    assert_eq!(sorted_unique(&Vec::new(), false), Vec::<String>::new());
}

#[test]
fn sorted_unique_agrees_with_sort_and_dedup() {
    let items = strings(&["b", "a", "é", "Z", "a", "b", "aa", ""]);
    let mut std = items.clone();
    std.sort();
    std.dedup();
    assert_eq!(sorted_unique(&items, true), std);
}
