use tubemin::text::{chars_of, push_decimal, string_from_chars, trim};

#[test]
fn trim_uses_unicode_white_space() {
    assert_eq!(trim("  a b \t\n"), "a b");
    assert_eq!(trim("\u{3000}x\u{00a0}"), "x");
    assert_eq!(trim("\u{200b}x"), "\u{200b}x");
}

#[test]
fn chars_round_trip() {
    let v = chars_of("한국 drama");
    assert_eq!(v.len(), 8);
    assert_eq!(string_from_chars(&v), "한국 drama");
}

#[test]
fn decimal_digits_are_appended() {
    let mut v = chars_of("n=");
    push_decimal(&mut v, 0);
    push_decimal(&mut v, 1234567890123);
    assert_eq!(string_from_chars(&v), "n=01234567890123");
}
