use mcfly::fixed_length_grapheme_string::FixedLengthGraphemeString;

#[test]
fn length_works() {
    let input = FixedLengthGraphemeString::new("こんにちは世界", 20);
    assert_eq!(input.grapheme_length, 7);
}

#[test]
fn max_length_works() {
    let mut input = FixedLengthGraphemeString::new("こんにちは世界", 5);
    assert_eq!(input.string, "こんにちは");
    input.push_grapheme_str("世界");
    assert_eq!(input.string, "こんにちは");
    input.max_grapheme_length = 7;
    input.push_grapheme_str("世界");
    assert_eq!(input.string, "こんにちは世界");
}

#[test]
fn clusters_count_as_one() {
    let input = FixedLengthGraphemeString::new("e\u{301}a\r\nb", 2);
    assert_eq!(input.string, "e\u{301}a");
    assert_eq!(input.grapheme_length, 2);
    let mut empty = FixedLengthGraphemeString::empty(0);
    empty.push_grapheme_str("abc");
    assert_eq!(empty.string, "");
    empty.push_str("xyz");
    assert_eq!(empty.string, "xyz");
    assert_eq!(empty.grapheme_length, 0);
}
