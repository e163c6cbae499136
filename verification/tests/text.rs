use shell_core::order::sort;
use shell_core::number::{parse_i32, parse_usize, push_decimal, NumberError};
use shell_core::text::{chars_of, join, string_of};

fn text(words: &[&str]) -> Vec<String> {
    words.iter().map(|w| w.to_string()).collect()
}

#[test]
fn characters_go_there_and_back() {
    let v = chars_of("a\u{e9}\u{1f600}z");
    assert_eq!(v, vec!['a', '\u{e9}', '\u{1f600}', 'z']);
    assert_eq!(string_of(&v, 0, 4), "a\u{e9}\u{1f600}z");
    assert_eq!(string_of(&v, 1, 3), "\u{e9}\u{1f600}");
    assert_eq!(string_of(&v, 2, 2), "");
}

#[test]
fn join_puts_the_separator_between() {
    assert_eq!(join(&text(&["a", "b", "c"]), 0, " "), "a b c");
    assert_eq!(join(&text(&["a", "b", "c"]), 1, ", "), "b, c");
    assert_eq!(join(&text(&["a"]), 0, " "), "a");
    assert_eq!(join(&text(&["a"]), 1, " "), "");
    assert_eq!(join(&text(&["", "", ""]), 0, "-"), "--");
}

#[test]
fn decimal_digits_are_written_without_leading_zeros() {
    for (n, digits) in [(0usize, "0"), (7, "7"), (10, "10"), (409, "409"), (1234567890, "1234567890")] {
        let mut s = String::from("x");
        push_decimal(&mut s, n);
        assert_eq!(s, format!("x{}", digits));
    }
    let mut s = String::new();
    push_decimal(&mut s, usize::MAX);
    assert_eq!(s, format!("{}", usize::MAX));
}

#[test]
fn usize_is_read_as_std_reads_it() {
    assert_eq!(parse_usize("0"), Ok(0));
    assert_eq!(parse_usize("42"), Ok(42));
    assert_eq!(parse_usize("+42"), Ok(42));
    assert_eq!(parse_usize("0007"), Ok(7));
    assert_eq!(parse_usize(&format!("{}", usize::MAX)), Ok(usize::MAX));
    assert_eq!(parse_usize(""), Err(NumberError::Empty));
    assert_eq!(parse_usize("+"), Err(NumberError::InvalidDigit));
    assert_eq!(parse_usize("-"), Err(NumberError::InvalidDigit));
    assert_eq!(parse_usize("-1"), Err(NumberError::InvalidDigit));
    assert_eq!(parse_usize("12a"), Err(NumberError::InvalidDigit));
    assert_eq!(parse_usize(" 12"), Err(NumberError::InvalidDigit));
    assert_eq!(parse_usize("1 2"), Err(NumberError::InvalidDigit));
    assert_eq!(parse_usize("99999999999999999999999"), Err(NumberError::TooLarge));
    assert_eq!(parse_usize("99999999999999999999999x"), Err(NumberError::TooLarge));
    assert_eq!(parse_usize("18446744073709551616"), Err(NumberError::TooLarge));
    for s in ["", "+", "-1", "12a", "99999999999999999999999x", "+0", "00", "١"] {
        assert_eq!(parse_usize(s).is_ok(), s.parse::<usize>().is_ok(), "{}", s);
    }
}

#[test]
fn i32_is_read_as_std_reads_it() {
    assert_eq!(parse_i32("0"), Ok(0));
    assert_eq!(parse_i32("-0"), Ok(0));
    assert_eq!(parse_i32("17"), Ok(17));
    assert_eq!(parse_i32("+17"), Ok(17));
    assert_eq!(parse_i32("-17"), Ok(-17));
    assert_eq!(parse_i32("2147483647"), Ok(i32::MAX));
    assert_eq!(parse_i32("-2147483648"), Ok(i32::MIN));
    assert_eq!(parse_i32("2147483648"), Err(NumberError::TooLarge));
    assert_eq!(parse_i32("-2147483649"), Err(NumberError::TooSmall));
    assert_eq!(parse_i32(""), Err(NumberError::Empty));
    assert_eq!(parse_i32("-"), Err(NumberError::InvalidDigit));
    assert_eq!(parse_i32("--1"), Err(NumberError::InvalidDigit));
    assert_eq!(parse_i32("1.5"), Err(NumberError::InvalidDigit));
    assert_eq!(parse_i32("abc"), Err(NumberError::InvalidDigit));
}

#[test]
fn number_errors_say_what_std_says() {
    assert_eq!(NumberError::Empty.message(), "".parse::<usize>().unwrap_err().to_string());
    assert_eq!(NumberError::InvalidDigit.message(), "x".parse::<usize>().unwrap_err().to_string());
    assert_eq!(
        NumberError::TooLarge.message(),
        "99999999999999999999999".parse::<usize>().unwrap_err().to_string()
    );
    assert_eq!(
        NumberError::TooSmall.message(),
        "-99999999999999999999999".parse::<i32>().unwrap_err().to_string()
    );
}

#[test]
fn sort_orders_by_characters_and_keeps_every_text() {
    assert_eq!(sort(&text(&["ls", "echo", "lsof", "exit"])), text(&["echo", "exit", "ls", "lsof"]));
    assert_eq!(sort(&text(&["b", "a", "b", "", "ab", "a"])), text(&["", "a", "a", "ab", "b", "b"]));
    assert_eq!(sort(&text(&[])), text(&[]));
    let mut mixed = text(&["z", "Z", "\u{e9}", "e", "10", "9", "a b", "a"]);
    let ours = sort(&mixed);
    mixed.sort();
    assert_eq!(ours, mixed);
}

#[test]
fn what_is_written_reads_back() {
    for n in [0usize, 1, 9, 10, 99, 100, 65535, 4294967295, usize::MAX] {
        let mut s = String::new();
        push_decimal(&mut s, n);
        assert_eq!(parse_usize(&s), Ok(n));
    }
}
