use asset_stickers::text::{
    chars_of, copy_range, decimal_chars, is_space_char, matches_at, same_chars, same_text,
    string_of, trim,
};

#[test]
fn white_space_is_what_unicode_says() {
    let mut count = 0;
    for u in 0..=0x10FFFFu32 {
        if let Some(c) = char::from_u32(u) {
            assert_eq!(is_space_char(c), c.is_whitespace(), "U+{:04X}", u);
            if is_space_char(c) {
                count += 1;
            }
        }
    }
    assert_eq!(count, 25);
}

#[test]
fn trims_at_both_ends_only() {
    for s in [
        "",
        " ",
        "a",
        "  a b  ",
        "\n\ta\u{00A0}b\u{2003}\r\n",
        "\u{3000}x\u{3000}y\u{3000}",
        " \u{200B} ",
        "x \n",
        "\u{0085}\u{1680}\u{2028}\u{2029}\u{202F}\u{205F}z",
    ] {
        assert_eq!(trim(s), s.trim(), "{:?}", s);
    }
    assert_eq!(trim("  a b  "), "a b");
    assert_eq!(trim(" \u{200B} "), "\u{200B}");
}

#[test]
fn strings_and_characters_convert_both_ways() {
    let v = chars_of("Zoë ✓");
    assert_eq!(v, vec!['Z', 'o', 'ë', ' ', '✓']);
    assert_eq!(string_of(&v), "Zoë ✓");
    assert_eq!(string_of(&Vec::new()), "");
    assert_eq!(copy_range(&v, 1, 3), vec!['o', 'ë']);
    assert_eq!(copy_range(&v, 2, 2), Vec::<char>::new());
}

#[test]
fn compares_texts() {
    assert!(same_text("abc", "abc"));
    assert!(!same_text("abc", "abd"));
    assert!(!same_text("abc", "ab"));
    assert!(same_text("", ""));
    assert!(same_chars(&chars_of("é"), &chars_of("é")));
    let v = chars_of("[[User:x]]");
    assert!(matches_at(&v, 0, &chars_of("[[User:")));
    assert!(matches_at(&v, 8, &chars_of("]]")));
    assert!(!matches_at(&v, 9, &chars_of("]]")));
    assert!(!matches_at(&v, 11, &chars_of("")));
    assert!(matches_at(&v, 10, &chars_of("")));
    assert!(!matches_at(&v, usize::MAX, &chars_of("]]")));
}

#[test]
fn writes_numbers_in_decimal() {
    assert_eq!(string_of(&decimal_chars(0)), "0");
    assert_eq!(string_of(&decimal_chars(9)), "9");
    assert_eq!(string_of(&decimal_chars(10)), "10");
    assert_eq!(string_of(&decimal_chars(1234567890)), "1234567890");
    assert_eq!(string_of(&decimal_chars(u64::MAX)), u64::MAX.to_string());
}
