use ws_handshake::ascii::{eq_ignore_ascii_case, to_lower};

#[test]
fn to_lower_moves_upper_case_letters_only() {
    assert_eq!(to_lower(b'A'), b'a');
    assert_eq!(to_lower(b'Z'), b'z');
    assert_eq!(to_lower(b'a'), b'a');
    assert_eq!(to_lower(b'@'), b'@');
    assert_eq!(to_lower(b'['), b'[');
    assert_eq!(to_lower(0xC9), 0xC9);
    for b in 0..=255u8 {
        assert_eq!(to_lower(b), b.to_ascii_lowercase());
    }
}

#[test]
fn comparison_ignores_ascii_case_only() {
    assert!(eq_ignore_ascii_case(b"UpGrade", b"upgrade"));
    assert!(eq_ignore_ascii_case(b"", b""));
    assert!(!eq_ignore_ascii_case(b"upgrade", b"upgrad"));
    assert!(!eq_ignore_ascii_case(b"upgrade", b"upgrade "));
    assert!(!eq_ignore_ascii_case(b"\xc9", b"\xe9"));
    assert!(!eq_ignore_ascii_case(b"@", b"`"));
}
