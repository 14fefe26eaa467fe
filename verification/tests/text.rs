use probe_server::text::{
    decimal_i64, decimal_u64, is_white_space_char, str_equal, str_less, trim,
};

#[test]
fn decimal_of_small_numbers() {
    assert_eq!(decimal_u64(0), "0");
    assert_eq!(decimal_u64(7), "7");
    assert_eq!(decimal_u64(9), "9");
    assert_eq!(decimal_u64(10), "10");
    assert_eq!(decimal_u64(105), "105");
}

#[test]
fn decimal_of_large_numbers() {
    assert_eq!(decimal_u64(1234567890), "1234567890");
    assert_eq!(decimal_u64(65535), "65535");
    assert_eq!(decimal_u64(u64::MAX), "18446744073709551615");
}

#[test]
fn decimal_of_signed_numbers() {
    assert_eq!(decimal_i64(0), "0");
    assert_eq!(decimal_i64(42), "42");
    assert_eq!(decimal_i64(-1), "-1");
    assert_eq!(decimal_i64(-120), "-120");
    assert_eq!(decimal_i64(i64::MAX), "9223372036854775807");
    assert_eq!(decimal_i64(i64::MIN), "-9223372036854775808");
    assert_eq!(decimal_i64(i32::MIN as i64), "-2147483648");
}

#[test]
fn decimal_agrees_with_the_standard_rendering() {
    let samples: Vec<i64> = vec![0, 1, -1, 9, 10, 11, 99, 100, 101, 999, 1000, -999, -1000, 123456789];
    for n in samples {
        assert_eq!(decimal_i64(n), format!("{}", n));
        if n >= 0 {
            assert_eq!(decimal_u64(n as u64), format!("{}", n));
        }
    }
}

#[test]
fn less_compares_character_by_character() {
    assert!(str_less("1.6.0", "1.6.1"));
    assert!(!str_less("1.6.1", "1.6.1"));
    assert!(!str_less("1.6.2", "1.6.1"));
    assert!(!str_less("2.0.0", "1.6.1"));
    assert!(str_less("1.5.9", "1.6.1"));
}

#[test]
fn less_is_not_numeric() {
    assert!(str_less("1.10.0", "1.6.1"));
    assert!(!str_less("1.6.10", "1.6.1"));
}

#[test]
fn less_puts_a_prefix_first() {
    assert!(str_less("", "1.6.1"));
    assert!(str_less("1.6", "1.6.1"));
    assert!(!str_less("1.6.1", "1.6"));
    assert!(!str_less("", ""));
    assert!(!str_less("a", ""));
}

#[test]
fn less_agrees_with_the_standard_order() {
    let words = vec!["", "a", "ab", "b", "Z", "z", "1.6.1", "1.6.10", "10", "9", "\u{e9}", "\u{4e2d}", "\u{1f600}", "e"];
    for a in &words {
        for b in &words {
            assert_eq!(str_less(a, b), a < b, "{:?} against {:?}", a, b);
        }
    }
}

#[test]
fn equal_tells_texts_apart() {
    assert!(str_equal("", ""));
    assert!(str_equal("register", "register"));
    assert!(!str_equal("register", "registe"));
    assert!(!str_equal("registe", "register"));
    assert!(!str_equal("register", "Register"));
    assert!(!str_equal("heartbeat", "register"));
    assert!(str_equal("\u{4e2d}\u{6587}", "\u{4e2d}\u{6587}"));
    assert!(!str_equal("\u{4e2d}\u{6587}", "\u{4e2d}\u{6588}"));
}

#[test]
fn white_space_is_what_the_standard_library_calls_so() {
    let mut n: u32 = 0;
    while n <= 0x10ffff {
        if let Some(c) = char::from_u32(n) {
            assert_eq!(is_white_space_char(c), c.is_whitespace(), "code point {:x}", n);
        }
        n += 1;
    }
}

#[test]
fn trim_drops_white_space_at_both_ends() {
    assert_eq!(trim("  abc  "), "abc");
    assert_eq!(trim("abc"), "abc");
    assert_eq!(trim("\t\n abc"), "abc");
    assert_eq!(trim("abc \r\n"), "abc");
    assert_eq!(trim("\u{3000}abc\u{a0}"), "abc");
}

#[test]
fn trim_keeps_white_space_inside() {
    assert_eq!(trim(" a b  c "), "a b  c");
    assert_eq!(trim("Bearer  token "), "Bearer  token");
}

#[test]
fn trim_of_nothing_but_white_space_is_empty() {
    assert_eq!(trim(""), "");
    assert_eq!(trim(" "), "");
    assert_eq!(trim(" \t\n\u{2003} "), "");
}

#[test]
fn trim_agrees_with_the_standard_trim() {
    let texts = vec!["", " ", "a", " a", "a ", " a ", "\u{e9} ", " \u{4e2d}\u{6587}\n", "\u{200b} x", "x\u{180e}", "\u{85}y\u{1680}"];
    for t in texts {
        assert_eq!(trim(t), t.trim(), "{:?}", t);
    }
}
