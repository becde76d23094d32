use gksrmf::wide_text::{is_white_space, registry_string_bytes, str_chars, to_wide, utf16_len};

#[test]
fn wide_strings_end_with_zero() {
    assert_eq!(to_wide("gksrmf"), vec![0x67, 0x6B, 0x73, 0x72, 0x6D, 0x66, 0]);
    assert_eq!(to_wide(""), vec![0]);
    assert_eq!(to_wide("한"), vec![0xD55C, 0]);
    assert_eq!(to_wide("😀"), vec![0xD83D, 0xDE00, 0]);
    let expected: Vec<u16> = "a한😀".encode_utf16().chain(std::iter::once(0)).collect();
    assert_eq!(to_wide("a한😀"), expected);
}

#[test]
fn utf16_lengths() {
    assert_eq!(utf16_len(""), 0);
    assert_eq!(utf16_len("한글"), 2);
    assert_eq!(utf16_len("a😀"), 3);
}

#[test]
fn registry_value_bytes() {
    assert_eq!(registry_string_bytes("C:\\"), vec![0x43, 0, 0x3A, 0, 0x5C, 0, 0, 0]);
    assert_eq!(registry_string_bytes("한"), vec![0x5C, 0xD5, 0, 0]);
}

#[test]
fn white_space_matches_std() {
    for c in ['\t', '\n', ' ', '\u{85}', '\u{A0}', '\u{3000}', '\u{2028}', 'a', '한', '?', '\u{200B}'] {
        assert_eq!(is_white_space(c), c.is_whitespace(), "{c:?}");
    }
    for v in 0u32..0x3100 {
        if let Some(c) = char::from_u32(v) {
            assert_eq!(is_white_space(c), c.is_whitespace(), "{v:#x}");
        }
    }
    assert_eq!(str_chars("a한"), vec!['a', '한']);
}
