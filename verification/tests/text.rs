//! Text building blocks.

use c64research::text;

#[test]
fn characters_and_strings_go_both_ways() {
    let v = text::chars_of("a\u{e9}\u{1F600}");
    assert_eq!(v, ['a', '\u{e9}', '\u{1F600}']);
    assert_eq!(text::string_of(&v), "a\u{e9}\u{1F600}");
}

#[test]
fn numbers_are_written_out() {
    let mut s = String::from("n=");
    text::push_decimal(&mut s, 0);
    text::push_text(&mut s, " ");
    text::push_decimal(&mut s, 18446744073709551615);
    text::push_text(&mut s, " ");
    text::push_hex(&mut s, 0x2A, 4);
    assert_eq!(s, "n=0 18446744073709551615 002A");
}

#[test]
fn fields_are_padded() {
    let mut s = String::new();
    text::push_padded(&mut s, "AB", 4);
    text::push_padded(&mut s, "ABCDE", 4);
    text::push_decimal_in(&mut s, 7, 3, ' ');
    assert_eq!(s, "AB  ABCDE  7");
}

#[test]
fn numbers_are_read_back() {
    let n = |s: &str, radix| text::parse_number(&text::chars_of(s), radix);
    assert_eq!(n("65535", 10), Some(65535));
    assert_eq!(n("65536", 10), None);
    assert_eq!(n("ffff", 16), Some(0xFFFF));
    assert_eq!(n("00000001", 16), Some(1));
    assert_eq!(n("+12", 10), Some(12));
    assert_eq!(n("+", 10), None);
    assert_eq!(n("12a", 10), None);
}

#[test]
fn words_are_split_at_white_space() {
    let v = text::split_words(&text::chars_of("  mem \t0400  10\n"));
    let words: Vec<String> = v.iter().map(|w| text::string_of(w)).collect();
    assert_eq!(words, ["mem", "0400", "10"]);
    assert!(text::split_words(&text::chars_of(" \t ")).is_empty());
}

#[test]
fn case_and_trimming() {
    assert_eq!(text::to_upper(&text::chars_of("aZ9\u{e9}")), ['A', 'Z', '9', '\u{e9}']);
    assert_eq!(text::trim(&text::chars_of("  a b ")), ['a', ' ', 'b']);
    assert!(text::same(&['a'], &['a']));
    assert!(!text::same(&['a'], &['a', 'b']));
    assert!(text::is_text(&['o', 'k'], "ok"));
    assert!(!text::is_text(&['o'], "ok"));
}
