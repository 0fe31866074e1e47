use capital_gain_tax_ireland::decimal::{
    amount_to_text, amount_to_text_2dp, integer_to_text, parse_decimal, parse_signed_decimal,
};
use capital_gain_tax_ireland::text::{
    chars_of, same_text, trimmed_chars, trimmed_equals, whitespace,
};

#[test]
fn whitespace_is_that_of_the_standard_library() {
    let mut code: u32 = 0;
    while code <= 0x10FFFF {
        if let Some(c) = char::from_u32(code) {
            assert_eq!(whitespace(c), c.is_whitespace(), "code point {:#x}", code);
        }
        code += 1;
    }
}

#[test]
fn trimming_is_that_of_the_standard_library() {
    let samples = [
        "",
        " ",
        "Date Sold",
        "  Date Sold",
        "Date Sold\t\n",
        "\u{3000}Date\u{a0}Sold\u{2003}",
        " \r\n ",
        "a",
        " a b ",
    ];
    for sample in samples {
        let trimmed: String = trimmed_chars(sample).into_iter().collect();
        assert_eq!(trimmed, sample.trim());
    }
}

#[test]
fn chars_are_handed_out_in_order() {
    assert_eq!(chars_of("a€b"), vec!['a', '€', 'b']);
    assert_eq!(chars_of(""), Vec::<char>::new());
}

#[test]
fn a_trimmed_name_is_compared_whole() {
    assert!(trimmed_equals("  OBS_VALUE\t", "OBS_VALUE"));
    assert!(trimmed_equals("OBS_VALUE", "OBS_VALUE"));
    assert!(!trimmed_equals("OBS VALUE", "OBS_VALUE"));
    assert!(!trimmed_equals("OBS_VALUES", "OBS_VALUE"));
    assert!(!trimmed_equals("OBS_VALU", "OBS_VALUE"));
    assert!(!trimmed_equals("", "OBS_VALUE"));
    assert!(trimmed_equals("   ", ""));
}

#[test]
fn texts_are_compared_exactly() {
    assert!(same_text("Sell", "Sell"));
    assert!(!same_text("Sell ", "Sell"));
    assert!(!same_text("sell", "Sell"));
    assert!(!same_text("", "Sell"));
    assert!(same_text("", ""));
}

#[test]
fn decimals_are_read_in_millionths() {
    assert_eq!(parse_decimal("1.10"), Some(1_100_000));
    assert_eq!(parse_decimal("1"), Some(1_000_000));
    assert_eq!(parse_decimal("0"), Some(0));
    assert_eq!(parse_decimal("1.0876"), Some(1_087_600));
    assert_eq!(parse_decimal("0.000001"), Some(1));
    assert_eq!(parse_decimal("007.5"), Some(7_500_000));
    assert_eq!(parse_decimal(".5"), Some(500_000));
    assert_eq!(parse_decimal("5."), Some(5_000_000));
}

#[test]
fn digits_past_the_sixth_are_cut_off() {
    assert_eq!(parse_decimal("0.1234567"), Some(123_456));
    assert_eq!(parse_decimal("0.0000009"), Some(0));
    assert_eq!(parse_decimal("2.99999999999999999999999999"), Some(2_999_999));
}

#[test]
fn what_is_no_numeral_is_refused() {
    assert_eq!(parse_decimal(""), None);
    assert_eq!(parse_decimal("."), None);
    assert_eq!(parse_decimal("1e5"), None);
    assert_eq!(parse_decimal("abc"), None);
    assert_eq!(parse_decimal("1.2.3"), None);
    assert_eq!(parse_decimal(" 1.5"), None);
    assert_eq!(parse_decimal("1.5 "), None);
    assert_eq!(parse_decimal("-1.5"), None);
    assert_eq!(parse_decimal("+1.5"), None);
    assert_eq!(parse_decimal("NaN"), None);
    assert_eq!(parse_decimal("inf"), None);
    assert_eq!(parse_decimal("1,5"), None);
    assert_eq!(parse_decimal("0.12345x"), None);
    assert_eq!(parse_decimal("0.1234567x"), None);
    assert_eq!(parse_decimal("١"), None);
}

#[test]
fn a_decimal_must_fit() {
    assert_eq!(parse_decimal("18446744073709.551615"), Some(u64::MAX));
    assert_eq!(parse_decimal("18446744073709.551616"), None);
    assert_eq!(parse_decimal("18446744073710"), None);
    assert_eq!(parse_decimal("99999999999999999999999999999999999999999999"), None);
    assert_eq!(parse_decimal("00000000000000000000000000000000000000000001"), Some(1_000_000));
}

#[test]
fn signed_decimals_are_read_in_millionths() {
    assert_eq!(parse_signed_decimal("-1.5"), Some(-1_500_000));
    assert_eq!(parse_signed_decimal("+2"), Some(2_000_000));
    assert_eq!(parse_signed_decimal("2.25"), Some(2_250_000));
    assert_eq!(parse_signed_decimal("-0"), Some(0));
    assert_eq!(parse_signed_decimal("-9223372036854.775808"), Some(i64::MIN));
    assert_eq!(parse_signed_decimal("9223372036854.775807"), Some(i64::MAX));
    assert_eq!(parse_signed_decimal("9223372036854.775808"), None);
    assert_eq!(parse_signed_decimal("+9223372036854.775808"), None);
    assert_eq!(parse_signed_decimal("-9223372036854.775809"), None);
    assert_eq!(parse_signed_decimal("-"), None);
    assert_eq!(parse_signed_decimal("+"), None);
    assert_eq!(parse_signed_decimal("--1"), None);
    assert_eq!(parse_signed_decimal("+-1"), None);
    assert_eq!(parse_signed_decimal(""), None);
    assert_eq!(parse_signed_decimal("1e3"), None);
}

#[test]
fn amounts_are_written_in_full() {
    assert_eq!(amount_to_text(909_090_909), "909.090909");
    assert_eq!(amount_to_text(1_000_000_000), "1000");
    assert_eq!(amount_to_text(240_900_000), "240.9");
    assert_eq!(amount_to_text(1_100_000), "1.1");
    assert_eq!(amount_to_text(-1_500_000), "-1.5");
    assert_eq!(amount_to_text(0), "0");
    assert_eq!(amount_to_text(1), "0.000001");
    assert_eq!(amount_to_text(-10), "-0.00001");
    assert_eq!(amount_to_text(100_000), "0.1");
    assert_eq!(amount_to_text(i128::MAX), "170141183460469231731687303715884.105727");
    assert_eq!(amount_to_text(i128::MIN), "-170141183460469231731687303715884.105728");
}

#[test]
fn amounts_are_written_with_two_decimals() {
    assert_eq!(amount_to_text_2dp(909_090_909), "909.09");
    assert_eq!(amount_to_text_2dp(181_818_181), "181.82");
    assert_eq!(amount_to_text_2dp(5_000), "0.01");
    assert_eq!(amount_to_text_2dp(4_999), "0.00");
    assert_eq!(amount_to_text_2dp(-4_999), "0.00");
    assert_eq!(amount_to_text_2dp(-5_000), "-0.01");
    assert_eq!(amount_to_text_2dp(999_995_000), "1000.00");
    assert_eq!(amount_to_text_2dp(0), "0.00");
    assert_eq!(amount_to_text_2dp(-727_272_728), "-727.27");
    assert_eq!(amount_to_text_2dp(33_000_000), "33.00");
    assert_eq!(amount_to_text_2dp(1_050_000), "1.05");
}

#[test]
fn whole_numbers_are_written_with_their_sign() {
    assert_eq!(integer_to_text(2023), "2023");
    assert_eq!(integer_to_text(0), "0");
    assert_eq!(integer_to_text(-44), "-44");
    assert_eq!(integer_to_text(i128::MIN), i128::MIN.to_string());
}

#[test]
fn an_amount_written_in_full_is_read_back() {
    let samples: [i64; 9] =
        [0, 1, -1, 999_999, 1_000_000, 909_090_909, -181_818_181, i64::MAX, i64::MIN];
    for sample in samples {
        let text = amount_to_text(sample as i128);
        assert_eq!(parse_signed_decimal(&text), Some(sample), "text {}", text);
    }
}
