use frust::text::byte_offset;
use frust::text::chars_of;
use frust::text::string_of;

#[test]
fn byte_offset_counts_encoded_bytes() {
    let s = "a\u{e9}\u{65e5}\u{1f600}z";
    assert_eq!(byte_offset(s, 0), 0);
    assert_eq!(byte_offset(s, 1), 1);
    assert_eq!(byte_offset(s, 2), 3);
    assert_eq!(byte_offset(s, 3), 6);
    assert_eq!(byte_offset(s, 4), 10);
    assert_eq!(byte_offset(s, 5), 11);
}

#[test]
fn byte_offset_beyond_the_end_is_the_byte_length() {
    assert_eq!(byte_offset("\u{e9}\u{e9}", 3), 4);
    assert_eq!(byte_offset("\u{e9}\u{e9}", usize::MAX), 4);
    assert_eq!(byte_offset("", 0), 0);
    assert_eq!(byte_offset("", 5), 0);
}

#[test]
fn chars_of_lists_scalar_values() {
    assert_eq!(chars_of("a\u{e9}\u{1f600}"), vec!['a', '\u{e9}', '\u{1f600}']);
    assert_eq!(chars_of(""), Vec::<char>::new());
}

#[test]
fn string_of_builds_the_text() {
    assert_eq!(string_of(&vec!['v', '=', '\u{65e5}']), "v=\u{65e5}");
    assert_eq!(string_of(&Vec::new()), "");
}

#[test]
fn chars_and_string_round_trip() {
    let s = "1.0.0 \u{2192} 2.0.0";
    assert_eq!(string_of(&chars_of(s)), s);
}
