use rngo::util::text::{
    char_is_whitespace, chars_of, decimal_i64, decimal_u64, join, split_whitespace, str_eq, trim,
};

#[test]
fn whitespace_is_what_the_standard_library_calls_whitespace() {
    let mut code: u32 = 0;
    while code <= 0x10FFFF {
        if let Some(c) = char::from_u32(code) {
            assert_eq!(char_is_whitespace(c), c.is_whitespace(), "U+{:04X}", code);
        }
        code += 1;
    }
}

#[test]
fn trim_agrees_with_the_standard_library() {
    let samples = [
        "",
        " ",
        "a",
        "  a b  ",
        "\t\r\n{\"a\":1}\r",
        "\u{a0}x\u{3000}",
        "\u{2003}\u{2003}",
        "é \u{1680}",
        " \u{feff} ",
    ];
    for sample in samples {
        assert_eq!(trim(sample), sample.trim(), "{:?}", sample);
    }
}

#[test]
fn split_whitespace_agrees_with_the_standard_library() {
    let samples = [
        "",
        "   ",
        "psql",
        "psql -d app",
        "  psql\t-d\n app  ",
        "sh -c \u{a0}import\u{2003}now",
        "a",
        " a",
        "a ",
    ];
    for sample in samples {
        let expected: Vec<String> = sample.split_whitespace().map(|w| w.to_string()).collect();
        assert_eq!(split_whitespace(sample), expected, "{:?}", sample);
    }
}

#[test]
fn decimal_numerals_are_exact() {
    assert_eq!(decimal_u64(0), "0");
    assert_eq!(decimal_u64(7), "7");
    assert_eq!(decimal_u64(10), "10");
    assert_eq!(decimal_u64(1234567890), "1234567890");
    assert_eq!(decimal_u64(u64::MAX), "18446744073709551615");
    assert_eq!(decimal_i64(0), "0");
    assert_eq!(decimal_i64(-1), "-1");
    assert_eq!(decimal_i64(42), "42");
    assert_eq!(decimal_i64(i64::MIN), "-9223372036854775808");
    assert_eq!(decimal_i64(i64::MAX), "9223372036854775807");
}

#[test]
fn decimal_numerals_agree_with_the_standard_library() {
    let mut n: u64 = 1;
    for _ in 0..64 {
        assert_eq!(decimal_u64(n), n.to_string());
        assert_eq!(decimal_u64(n - 1), (n - 1).to_string());
        let i = n as i64;
        assert_eq!(decimal_i64(i), i.to_string());
        assert_eq!(decimal_i64(i.wrapping_neg()), i.wrapping_neg().to_string());
        n = n.wrapping_mul(2);
    }
}

#[test]
fn str_eq_compares_characters() {
    assert!(str_eq("", ""));
    assert!(str_eq("users", "users"));
    assert!(!str_eq("users", "user"));
    assert!(!str_eq("user", "users"));
    assert!(!str_eq("é", "e"));
    assert!(str_eq("日本", "日本"));
}

#[test]
fn chars_are_taken_in_order() {
    assert_eq!(chars_of("aé日b"), vec!['a', 'é', '日', 'b']);
    assert_eq!(chars_of(""), Vec::<char>::new());
}

#[test]
fn join_puts_the_separator_between_parts() {
    assert_eq!(join(&vec![], ", "), "");
    assert_eq!(join(&vec!["a".to_string()], ", "), "a");
    assert_eq!(join(&vec!["a".to_string(), "".to_string(), "c".to_string()], ", "), "a, , c");
}
