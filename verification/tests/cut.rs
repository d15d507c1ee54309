use bluemetal::cut::{measure, split_chars, width};
use bluemetal::text::leading_whitespace;

#[test]
fn width_is_the_length_of_the_encoding() {
    assert_eq!(width('a'), 1);
    assert_eq!(width('\u{7f}'), 1);
    assert_eq!(width('\u{80}'), 2);
    assert_eq!(width('\u{e9}'), 2);
    assert_eq!(width('\u{7ff}'), 2);
    assert_eq!(width('\u{800}'), 3);
    assert_eq!(width('\u{20ac}'), 3);
    assert_eq!(width('\u{ffff}'), 3);
    assert_eq!(width('\u{10000}'), 4);
    assert_eq!(width('\u{1f600}'), 4);
    assert_eq!(width('\u{10ffff}'), 4);
}

#[test]
fn width_of_every_character() {
    let mut code: u32 = 0;
    while code <= 0x10ffff {
        if let Some(c) = char::from_u32(code) {
            assert_eq!(width(c), c.len_utf8(), "U+{:04X}", code);
        }
        code += 1;
    }
}

#[test]
fn measure_counts_bytes() {
    assert_eq!(measure(""), 0);
    assert_eq!(measure("abc"), 3);
    assert_eq!(measure("h\u{e9}llo"), 6);
    assert_eq!(measure("\u{20ac}\u{1f600}"), 7);
}

#[test]
fn split_cuts_behind_characters() {
    assert_eq!(split_chars("h\u{e9}llo", 2), ("h\u{e9}", "llo"));
    assert_eq!(split_chars("h\u{e9}llo", 0), ("", "h\u{e9}llo"));
    assert_eq!(split_chars("h\u{e9}llo", 5), ("h\u{e9}llo", ""));
    assert_eq!(split_chars("", 0), ("", ""));
}

#[test]
fn split_counts_wide_characters_once() {
    let text = "a\u{e9}\u{20ac}\u{1f600}z";
    assert_eq!(split_chars(text, 1), ("a", "\u{e9}\u{20ac}\u{1f600}z"));
    assert_eq!(split_chars(text, 2), ("a\u{e9}", "\u{20ac}\u{1f600}z"));
    assert_eq!(split_chars(text, 3), ("a\u{e9}\u{20ac}", "\u{1f600}z"));
    assert_eq!(split_chars(text, 4), ("a\u{e9}\u{20ac}\u{1f600}", "z"));
}

#[test]
fn split_parts_make_up_the_text() {
    let text = "fn caf\u{e9}(\u{3000}a: int) {}";
    let count = text.chars().count();
    for n in 0..=count {
        let (front, rest) = split_chars(text, n);
        assert_eq!(front.chars().count(), n);
        assert_eq!(format!("{front}{rest}"), text);
    }
}

#[test]
fn leading_whitespace_is_counted_in_characters() {
    assert_eq!(leading_whitespace(""), 0);
    assert_eq!(leading_whitespace("x  "), 0);
    assert_eq!(leading_whitespace(" \t\nx"), 3);
    assert_eq!(leading_whitespace("\u{3000}\u{a0} "), 3);
}
