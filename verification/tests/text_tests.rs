use cm3588_fan::text::{
    decimal, degrees, join, parse_i64, parse_u32, starts_with, trimmed_equals,
};

#[test]
fn integers_are_read_in_base_ten() {
    assert_eq!(parse_i64("0"), Some(0));
    assert_eq!(parse_i64("45000"), Some(45_000));
    assert_eq!(parse_i64("+45000"), Some(45_000));
    assert_eq!(parse_i64("-45000"), Some(-45_000));
    assert_eq!(parse_i64("000123"), Some(123));
    assert_eq!(parse_i64("-0"), Some(0));
}

#[test]
fn integers_are_read_up_to_the_limits() {
    assert_eq!(parse_i64("9223372036854775807"), Some(i64::MAX));
    assert_eq!(parse_i64("9223372036854775808"), None);
    assert_eq!(parse_i64("-9223372036854775808"), Some(i64::MIN));
    assert_eq!(parse_i64("-9223372036854775809"), None);
    assert_eq!(parse_i64("00000000000000000000000000000000000000001"), Some(1));
    assert_eq!(parse_i64("99999999999999999999999999999999999999999"), None);
    assert_eq!(parse_i64("18446744073709551616"), None);
    assert_eq!(parse_i64("-18446744073709551616"), None);
}

#[test]
fn white_space_around_a_number_is_set_aside() {
    assert_eq!(parse_i64("  50000  \n"), Some(50_000));
    assert_eq!(parse_i64("\t\r\n7\u{b}\u{c}"), Some(7));
    assert_eq!(parse_i64("\u{a0}7\u{3000}\u{2003}\u{85}"), Some(7));
    assert_eq!(parse_i64("5 0"), None);
    assert_eq!(parse_i64("- 5"), None);
    assert_eq!(parse_i64("\u{200b}5"), None);
}

#[test]
fn what_is_no_integer_is_refused() {
    for text in [
        "", " ", "\n", "+", "-", "+-1", "--1", "1-", "1.0", "1e3", "0x10", "1_000", "one", "١",
        "not_a_number", "45000.5", "NaN", "inf",
    ] {
        assert_eq!(parse_i64(text), None, "{text:?}");
    }
}

#[test]
fn reading_agrees_with_the_standard_library() {
    for text in [
        "0", "7", "-7", "+7", "  12\n", "0012", "-", "", "4294967295", "4294967296", "-0", "+0",
        "9223372036854775807", "9223372036854775808", "-9223372036854775808", "1 2", "12a",
    ] {
        assert_eq!(parse_i64(text), text.trim().parse::<i64>().ok(), "{text:?}");
        assert_eq!(parse_u32(text), text.trim().parse::<u32>().ok(), "{text:?}");
    }
}

#[test]
fn unsigned_numbers_take_no_minus_sign() {
    assert_eq!(parse_u32("5"), Some(5));
    assert_eq!(parse_u32("+5"), Some(5));
    assert_eq!(parse_u32(" 255\n"), Some(255));
    assert_eq!(parse_u32("-5"), None);
    assert_eq!(parse_u32("-0"), None);
    assert_eq!(parse_u32("4294967295"), Some(u32::MAX));
    assert_eq!(parse_u32("4294967296"), None);
    assert_eq!(parse_u32(""), None);
    assert_eq!(parse_u32("+"), None);
}

#[test]
fn prefixes_are_found() {
    assert!(starts_with("thermal_zone0", "thermal_zone"));
    assert!(starts_with("thermal_zone", "thermal_zone"));
    assert!(starts_with("anything", ""));
    assert!(starts_with("", ""));
    assert!(!starts_with("thermal_zon", "thermal_zone"));
    assert!(!starts_with("", "a"));
    assert!(!starts_with("xthermal_zone", "thermal_zone"));
    assert!(!starts_with("thermal-zone0", "thermal_zone"));
    assert!(starts_with("zoné7", "zoné"));
    assert!(!starts_with("zone7", "zoné"));
}

#[test]
fn words_are_compared_without_the_white_space_around_them() {
    assert!(trimmed_equals("pwm-fan", "pwm-fan"));
    assert!(trimmed_equals(" \tpwm-fan\r\n", "pwm-fan"));
    assert!(trimmed_equals("   ", ""));
    assert!(trimmed_equals("", ""));
    assert!(!trimmed_equals("pwm-fan", "pwm-fa"));
    assert!(!trimmed_equals("pwm-fa", "pwm-fan"));
    assert!(!trimmed_equals("pwm -fan", "pwm-fan"));
    assert!(!trimmed_equals("pwm-fan", " pwm-fan"));
    assert!(!trimmed_equals("pwm-fam", "pwm-fan"));
}

#[test]
fn numbers_are_written_in_base_ten() {
    assert_eq!(decimal(0), "0");
    assert_eq!(decimal(7), "7");
    assert_eq!(decimal(10), "10");
    assert_eq!(decimal(4_294_967_295), "4294967295");
    assert_eq!(decimal(u64::MAX), "18446744073709551615");
    for n in [0u64, 1, 9, 10, 99, 100, 12_345, 1_000_000] {
        assert_eq!(decimal(n), n.to_string());
        assert_eq!(parse_i64(&decimal(n)), Some(n as i64));
    }
}

#[test]
fn temperatures_are_written_in_degrees() {
    assert_eq!(degrees(0), "0");
    assert_eq!(degrees(45_000), "45");
    assert_eq!(degrees(45_500), "45.5");
    assert_eq!(degrees(45_250), "45.25");
    assert_eq!(degrees(45_125), "45.125");
    assert_eq!(degrees(45_005), "45.005");
    assert_eq!(degrees(45_050), "45.05");
    assert_eq!(degrees(1), "0.001");
    assert_eq!(degrees(-5_000), "-5");
    assert_eq!(degrees(-500), "-0.5");
    assert_eq!(degrees(i64::MAX), "9223372036854775.807");
    assert_eq!(degrees(i64::MIN), "-9223372036854775.808");
    for thousandths in [0i64, 45_000, 62_500, -5_000, 1_250, 99_999, 37_125] {
        assert_eq!(
            degrees(thousandths),
            (thousandths as f64 / 1000.0).to_string()
        );
    }
}

#[test]
fn paths_are_joined_with_a_slash() {
    assert_eq!(join("/sys/class/thermal/thermal_zone0", "temp"), "/sys/class/thermal/thermal_zone0/temp");
    assert_eq!(join("", "temp"), "/temp");
    assert_eq!(join("dir", ""), "dir/");
}
