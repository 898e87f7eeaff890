use gopro_cam_tray::text::{
    append_chars, append_decimal, ascii_lowercase, begins_with, chars_of, contains_part,
    find_second_word, joined, parse_u16, utf16_units, white,
};

#[test]
fn decimals_are_written_as_usual() {
    for n in [0, 7, 10, 99, 100, 8080, 65535, u64::MAX] {
        let mut s = "n=".to_string();
        append_decimal(&mut s, n);
        assert_eq!(s, format!("n={n}"));
    }
}

#[test]
fn sixteen_bit_numbers_are_read_as_usual() {
    for s in [
        "0", "7", "65535", "65536", "99999999999999999999", "+5", "+", "++5", "-1", "", "00065535",
        "1a", "a1", " 1", "1 ", "\u{663}",
    ] {
        assert_eq!(parse_u16(&chars_of(s)), s.parse::<u16>().ok(), "{s:?}");
    }
    for n in [0u16, 9, 10, 200, 999, 65535] {
        assert_eq!(parse_u16(&chars_of(&format!("{n}"))), Some(n));
        assert_eq!(parse_u16(&chars_of(&format!("+{n}"))), Some(n));
    }
}

#[test]
fn white_space_is_that_of_unicode() {
    for n in 0..=0x10FFFFu32 {
        if let Some(c) = char::from_u32(n) {
            assert_eq!(white(c), c.is_whitespace(), "{n:#x}");
        }
    }
}

#[test]
fn the_second_word_is_found() {
    assert_eq!(find_second_word(&chars_of("one two three")), Some((4, 7)));
    assert_eq!(find_second_word(&chars_of("\t one \r\n two")), Some((9, 12)));
    assert_eq!(find_second_word(&chars_of("one ")), None);
    assert_eq!(find_second_word(&chars_of("")), None);
}

#[test]
fn only_ascii_letters_are_made_small() {
    let s: String = ascii_lowercase("DoCkEr\u{C9}[@Z").into_iter().collect();
    assert_eq!(s, "DoCkEr\u{C9}[@Z".to_ascii_lowercase());
}

#[test]
fn parts_are_found() {
    assert!(begins_with(&chars_of("/dev/video0"), "/dev/"));
    assert!(begins_with(&chars_of("x"), ""));
    assert!(!begins_with(&chars_of("/de"), "/dev/"));
    assert!(contains_part("../../devices/virtual/video4linux/video0", "devices/virtual"));
    assert!(contains_part("aab", "ab"));
    assert!(contains_part("", ""));
    assert!(!contains_part("devices/pci", "devices/virtual"));
    assert!(!contains_part("a", "ab"));
}

#[test]
fn texts_are_put_together() {
    assert_eq!(joined("a", "b\u{E9}"), "ab\u{E9}");
    let mut s = "x".to_string();
    append_chars(&mut s, &['y', '\u{1F3A5}']);
    assert_eq!(s, "xy\u{1F3A5}");
}

#[test]
fn utf16_is_as_usual() {
    for s in ["", "GoPro Cam", "Aper\u{E7}u", "\u{FFFF}\u{10000}\u{10FFFF}\u{1F3A5}"] {
        assert_eq!(utf16_units(s), s.encode_utf16().collect::<Vec<u16>>());
    }
}
