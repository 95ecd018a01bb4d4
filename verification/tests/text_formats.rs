use budget_balancer::text::{
    contains, count_lines, decimal, format_amount, format_money, format_natural, format_padded,
    format_percent, format_seconds, join, join3, join_all, magnitude_of, parse_u64,
};

#[test]
fn money_is_written_with_two_decimals() {
    assert_eq!(format_money(0), "0.00");
    assert_eq!(format_money(25_000_000), "25.00");
    assert_eq!(format_money(1_234_560_000), "1234.56");
    assert_eq!(format_money(1_234_564_999), "1234.56");
    assert_eq!(format_money(1_234_565_000), "1234.57");
    assert_eq!(format_money(-1_234_565_000), "-1234.57");
    assert_eq!(format_money(999_995_000), "1000.00");
    assert_eq!(format_money(4_999), "0.00");
    assert_eq!(format_money(5_000), "0.01");
    assert_eq!(format_money(-1), "-0.00");
    assert_eq!(format_money(90_000), "0.09");
    assert_eq!(format_money(100_000), "0.10");
}

#[test]
fn money_of_the_largest_size_is_written() {
    assert_eq!(format_money(i128::MAX), "170141183460469231731687303715884.11");
    assert_eq!(format_money(i128::MIN), "-170141183460469231731687303715884.11");
}

#[test]
fn amounts_are_written_with_the_decimals_they_need() {
    assert_eq!(format_amount(0), "0");
    assert_eq!(format_amount(100_000_000), "100");
    assert_eq!(format_amount(-45_500_000), "-45.5");
    assert_eq!(format_amount(12_340_000), "12.34");
    assert_eq!(format_amount(1), "0.000001");
    assert_eq!(format_amount(-1), "-0.000001");
    assert_eq!(format_amount(1_050_000), "1.05");
    assert_eq!(format_amount(1_000_010), "1.00001");
    assert_eq!(format_amount(999_999), "0.999999");
    assert_eq!(format_amount(i64::MIN as i128), "-9223372036854.775808");
}

#[test]
fn percentages_are_written_with_one_decimal() {
    assert_eq!(format_percent(0), "0.0");
    assert_eq!(format_percent(33_333_333), "33.3");
    assert_eq!(format_percent(66_666_666), "66.7");
    assert_eq!(format_percent(100_000_000), "100.0");
    assert_eq!(format_percent(49_999), "0.0");
    assert_eq!(format_percent(50_000), "0.1");
    assert_eq!(format_percent(-12_350_000), "-12.4");
    assert_eq!(format_percent(99_950_000), "100.0");
}

#[test]
fn seconds_are_written_with_one_decimal() {
    assert_eq!(format_seconds(0), "0.0");
    assert_eq!(format_seconds(1_500_000_000), "1.5");
    assert_eq!(format_seconds(1_949_999_999), "1.9");
    assert_eq!(format_seconds(1_950_000_000), "2.0");
    assert_eq!(format_seconds(49_999_999), "0.0");
    assert_eq!(format_seconds(50_000_000), "0.1");
    assert_eq!(format_seconds(u128::MAX), "340282366920938463463374607431.8");
}

#[test]
fn numbers_are_padded_with_zeros() {
    assert_eq!(format_padded(7, 2), "07");
    assert_eq!(format_padded(12, 2), "12");
    assert_eq!(format_padded(123, 2), "123");
    assert_eq!(format_padded(0, 4), "0000");
    assert_eq!(format_padded(42, 4), "0042");
    assert_eq!(format_padded(2025, 4), "2025");
    assert_eq!(format_padded(12345, 4), "12345");
    assert_eq!(format_padded(-1, 4), "-001");
    assert_eq!(format_padded(-1234, 4), "-1234");
    assert_eq!(format_padded(5, 0), "5");
    assert_eq!(format_padded(-5, 0), "-5");
    assert_eq!(format_padded(5, 7), "0000005");
    assert_eq!(format_padded(i64::MIN, 2), "-9223372036854775808");
}

#[test]
fn texts_are_joined() {
    assert_eq!(join("a", "b"), "ab");
    assert_eq!(join("", ""), "");
    assert_eq!(join3("a", "", "c"), "ac");
    assert_eq!(join_all(&vec![], ", "), "");
    assert_eq!(join_all(&vec!["a".to_string()], ", "), "a");
    assert_eq!(join_all(&vec!["a".to_string(), "b".to_string(), "c".to_string()], ", "), "a, b, c");
    assert_eq!(join_all(&vec!["a".to_string(), "".to_string()], "-"), "a-");
    assert_eq!(join_all(&vec!["x".to_string(), "y".to_string()], ""), "xy");
}

#[test]
fn lines_are_counted() {
    assert_eq!(count_lines(""), 0);
    assert_eq!(count_lines("a"), 1);
    assert_eq!(count_lines("a\n"), 1);
    assert_eq!(count_lines("a\nb"), 2);
    assert_eq!(count_lines("a\nb\n"), 2);
    assert_eq!(count_lines("\n"), 1);
    assert_eq!(count_lines("\n\n"), 2);
    assert_eq!(count_lines("a\r\nb\r\n"), 2);
    assert_eq!(count_lines("a\rb"), 1);
    for text in ["", "x", "x\n", "\n\nx", "a\r\nb", "é\nü\n"] {
        assert_eq!(count_lines(text), text.lines().count());
    }
}

#[test]
fn sizes_are_taken_without_sign() {
    assert_eq!(magnitude_of(0), 0);
    assert_eq!(magnitude_of(-5), 5);
    assert_eq!(magnitude_of(5), 5);
    assert_eq!(magnitude_of(i128::MIN), 1u128 << 127);
    assert_eq!(magnitude_of(i128::MAX), (1u128 << 127) - 1);
}

#[test]
fn integers_are_written_in_decimal_digits() {
    assert_eq!(decimal(0), "0");
    assert_eq!(decimal(7), "7");
    assert_eq!(decimal(-7), "-7");
    assert_eq!(decimal(10), "10");
    assert_eq!(decimal(1_000_000), "1000000");
    assert_eq!(decimal(-9_876_543_210), "-9876543210");
    assert_eq!(format_natural(u128::MAX), u128::MAX.to_string());
    for n in [i128::MIN, i128::MIN + 1, -100, -1, 0, 1, 99, 100, 101, i64::MAX as i128, i128::MAX] {
        assert_eq!(decimal(n), n.to_string());
    }
}

#[test]
fn numbers_are_read_from_decimal_digits() {
    assert_eq!(parse_u64("0"), Some(0));
    assert_eq!(parse_u64("+17"), Some(17));
    assert_eq!(parse_u64("0017"), Some(17));
    assert_eq!(parse_u64("18446744073709551615"), Some(u64::MAX));
    assert_eq!(parse_u64("18446744073709551616"), None);
    assert_eq!(parse_u64("99999999999999999999999"), None);
    assert_eq!(parse_u64("000000000000000000000000000001"), Some(1));
    for text in ["", "+", "-1", "-0", "1 ", " 1", "1.0", "1e3", "++1", "1+", "x", "١"] {
        assert_eq!(parse_u64(text), None, "{:?}", text);
        assert_eq!(parse_u64(text), text.parse::<u64>().ok(), "{:?}", text);
    }
    for text in ["0", "+0", "007", "+18446744073709551615", "18446744073709551616", "1844674407370955161500"] {
        assert_eq!(parse_u64(text), text.parse::<u64>().ok(), "{:?}", text);
    }
}

#[test]
fn texts_are_searched_for_other_texts() {
    assert!(contains("", ""));
    assert!(contains("abc", ""));
    assert!(!contains("", "a"));
    assert!(contains("abc", "abc"));
    assert!(contains("abc", "a"));
    assert!(contains("abc", "bc"));
    assert!(!contains("abc", "ac"));
    assert!(!contains("abc", "abcd"));
    assert!(contains("aaab", "aab"));
    assert!(contains("unique constraint", "unique"));
    assert!(contains("not unique", "unique"));
    assert!(!contains("uniqu", "unique"));
    assert!(contains("café au lait", "é a"));
    assert!(!contains("cafe", "é"));
    for (whole, part) in [("abcabd", "abd"), ("ababab", "bab"), ("mississippi", "issip"), ("mississippi", "issipi")] {
        assert_eq!(contains(whole, part), whole.contains(part));
    }
}
