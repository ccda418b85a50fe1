use arrayvec::ArrayVec;
use encstr::encoding::{
    Encoding, Utf16BE, Utf16LE, Utf32BE, Utf32LE, Utf8, ValidateError,
};
use encstr::Str;

#[allow(clippy::octal_escapes)]
#[test]
fn test_validate_utf16_le() {
    assert!(Utf16LE::validate(b"a\0b\0c\01\02\03\0").is_ok());
    assert!(Utf16LE::validate(b"A\0 \0y\0e\0e\0:\0 \0\x01\xD8\x37\xDC").is_ok());
    // dangling surrogate (after is valid char)
    assert_eq!(
        Utf16LE::validate(b"\x01\xD8a\0"),
        Err(ValidateError {
            valid_up_to: 0,
            error_len: Some(2),
        })
    );
    // dangling surrogate (after is invalid)
    assert_eq!(
        Utf16LE::validate(b" \0\x01\xD8\x01\xD8"),
        Err(ValidateError {
            valid_up_to: 2,
            error_len: Some(4),
        })
    );
    // dangling surrogate (final byte)
    assert_eq!(
        Utf16LE::validate(b"\x01\xD8"),
        Err(ValidateError {
            valid_up_to: 0,
            error_len: None,
        })
    );
    // dangling surrogate (final byte, valid before it)
    assert_eq!(
        Utf16LE::validate(b"a\0b\0\x01\xD8"),
        Err(ValidateError {
            valid_up_to: 4,
            error_len: None,
        })
    );
}

#[test]
fn test_encode_utf16_le() {
    let mut expect = ArrayVec::new();
    expect.extend([b'A', 0]);
    assert_eq!(Utf16LE::encode_char('A'), Some(expect));
    assert_eq!(
        Utf16LE::encode_char('𐐷'),
        Some(ArrayVec::from([0x01, 0xD8, 0x37, 0xDC]))
    );
}

#[test]
fn test_decode_utf16_le() {
    let str = Str::<Utf16LE>::from_bytes(b"A\0\x01\xD8\x37\xDCb\0").unwrap();
    let (c, str) = Utf16LE::decode_char(str);
    assert_eq!(c, 'A');
    let (c, str) = Utf16LE::decode_char(str);
    assert_eq!(c, '𐐷');
    let (c, _) = Utf16LE::decode_char(str);
    assert_eq!(c, 'b');
}

#[test]
fn test_char_boundary_utf16le() {
    let str = Str::<Utf16LE>::from_bytes(b"A\0\x01\xD8\x37\xDCb\0").unwrap();
    assert!(Utf16LE::char_bound(str, 2));
    assert!(!Utf16LE::char_bound(str, 4));
    assert!(Utf16LE::char_bound(str, 6));

    let str =
        Str::<Utf16LE>::from_bytes(&[174, 95, 223, 142, 99, 107, 209, 158, 212, 154]).unwrap();
    assert!(!Utf16LE::char_bound(str, 1));
    assert!(Utf16LE::char_bound(str, 2));
    assert!(!Utf16LE::char_bound(str, 3));
    assert!(Utf16LE::char_bound(str, 4));
}

#[allow(clippy::octal_escapes)]
#[test]
fn test_validate_utf16_be() {
    assert!(Utf16BE::validate(b"\0a\0b\0c\01\02\03").is_ok());
    assert!(Utf16BE::validate(b"\0A\0 \0y\0e\0e\0:\0 \xD8\x01\xDC\x37").is_ok());
    // dangling surrogate (after is valid char)
    assert_eq!(
        Utf16BE::validate(b"\xD8\x01\0a"),
        Err(ValidateError {
            valid_up_to: 0,
            error_len: Some(2),
        })
    );
    // dangling surrogate (after is invalid)
    assert_eq!(
        Utf16BE::validate(b"\0 \xD8\x01\xD8\x01"),
        Err(ValidateError {
            valid_up_to: 2,
            error_len: Some(4),
        })
    );
    // dangling surrogate (final byte)
    assert_eq!(
        Utf16BE::validate(b"\xD8\x01"),
        Err(ValidateError {
            valid_up_to: 0,
            error_len: None,
        })
    );
    // dangling surrogate (final byte, valid before it)
    assert_eq!(
        Utf16BE::validate(b"\0a\0b\xD8\x01"),
        Err(ValidateError {
            valid_up_to: 4,
            error_len: None,
        })
    );
}

#[test]
fn test_encode_utf16_be() {
    let mut expect = ArrayVec::new();
    expect.extend([0, b'A']);
    assert_eq!(Utf16BE::encode_char('A'), Some(expect));
    assert_eq!(
        Utf16BE::encode_char('𐐷'),
        Some(ArrayVec::from([0xD8, 0x01, 0xDC, 0x37]))
    );
}

#[test]
fn test_decode_utf16_be() {
    let str = Str::<Utf16BE>::from_bytes(b"\0A\xD8\x01\xDC\x37\0b").unwrap();
    let (c, str) = Utf16BE::decode_char(str);
    assert_eq!(c, 'A');
    let (c, str) = Utf16BE::decode_char(str);
    assert_eq!(c, '𐐷');
    let (c, _) = Utf16BE::decode_char(str);
    assert_eq!(c, 'b');
}

#[test]
fn test_char_boundary_utf16be() {
    let str = Str::<Utf16BE>::from_bytes(b"\0A\xD8\x01\xDC\x37\0b").unwrap();
    assert!(Utf16BE::char_bound(str, 2));
    assert!(!Utf16BE::char_bound(str, 4));
    assert!(Utf16BE::char_bound(str, 6));

    let str =
        Str::<Utf16BE>::from_bytes(&[95, 174, 142, 223, 107, 99, 158, 209, 154, 212]).unwrap();
    assert!(!Utf16BE::char_bound(str, 1));
    assert!(Utf16BE::char_bound(str, 2));
    assert!(!Utf16BE::char_bound(str, 3));
    assert!(Utf16BE::char_bound(str, 4));
}

fn utf32le(str: &str) -> Vec<u8> {
    str.chars().flat_map(|c| (c as u32).to_le_bytes()).collect::<Vec<_>>()
}

#[test]
fn test_validate_utf32_le() {
    assert!(Utf32LE::validate(&utf32le("abc123")).is_ok());
    assert!(Utf32LE::validate(&utf32le("A yee: 𐐷")).is_ok());
    // Invalid (surrogate)
    assert_eq!(
        Utf32LE::validate(&[
            0x61, 0x00, 0x00, 0x00, 0x00, 0xD8, 0x00, 0x00, 0x62, 0x00, 0x00, 0x00,
        ]),
        Err(ValidateError {
            valid_up_to: 4,
            error_len: Some(4),
        })
    );
    assert_eq!(
        Utf32LE::validate(&[0x00, 0x00, 0x11, 0x00]),
        Err(ValidateError {
            valid_up_to: 0,
            error_len: Some(4),
        })
    );
}

#[test]
fn test_encode_utf32_le() {
    assert_eq!(Utf32LE::encode_char('A'), Some([b'A', 0, 0, 0]));
    assert_eq!(Utf32LE::encode_char('𐐷'), Some([0x37, 0x04, 0x01, 0x00]));
}

#[test]
fn test_decode_utf32_le() {
    let bytes = utf32le("A𐐷b");
    let str = Str::<Utf32LE>::from_bytes(&bytes).unwrap();
    let (c, str) = Utf32LE::decode_char(str);
    assert_eq!(c, 'A');
    let (c, str) = Utf32LE::decode_char(str);
    assert_eq!(c, '𐐷');
    let (c, _) = Utf32LE::decode_char(str);
    assert_eq!(c, 'b');
}

fn utf32be(str: &str) -> Vec<u8> {
    str.chars().flat_map(|c| (c as u32).to_be_bytes()).collect::<Vec<_>>()
}

#[test]
fn test_validate_utf32_be() {
    assert!(Utf32BE::validate(&utf32be("abc123")).is_ok());
    assert!(Utf32BE::validate(&utf32be("A yee: 𐐷")).is_ok());
    // Invalid (surrogate)
    assert_eq!(
        Utf32BE::validate(&[
            0x00, 0x00, 0x00, 0x61, 0x00, 0x00, 0xD8, 0x00, 0x00, 0x00, 0x00, 0x62,
        ]),
        Err(ValidateError {
            valid_up_to: 4,
            error_len: Some(4),
        })
    );
    assert_eq!(
        Utf32BE::validate(&[0x00, 0x11, 0x00, 0x00]),
        Err(ValidateError {
            valid_up_to: 0,
            error_len: Some(4),
        })
    );
}

#[test]
fn test_encode_utf32_be() {
    assert_eq!(Utf32BE::encode_char('A'), Some([0, 0, 0, b'A']));
    assert_eq!(Utf32BE::encode_char('𐐷'), Some([0x00, 0x01, 0x04, 0x37]));
}

#[test]
fn test_decode_utf32_be() {
    let bytes = utf32be("A𐐷b");
    let str = Str::<Utf32BE>::from_bytes(&bytes).unwrap();
    let (c, str) = Utf32BE::decode_char(str);
    assert_eq!(c, 'A');
    let (c, str) = Utf32BE::decode_char(str);
    assert_eq!(c, '𐐷');
    let (c, _) = Utf32BE::decode_char(str);
    assert_eq!(c, 'b');
}

#[test]
fn utf32_truncated_unit() {
    assert_eq!(
        Utf32LE::validate(&[0x61, 0x00, 0x00, 0x00, 0x62, 0x00]),
        Err(ValidateError { valid_up_to: 4, error_len: None })
    );
    assert_eq!(
        Utf32BE::validate(&[0x00]),
        Err(ValidateError { valid_up_to: 0, error_len: None })
    );
    assert_eq!(Utf32LE::char_len('A'), 4);
    assert_eq!(Utf32BE::char_len('𐐷'), 4);
    let bytes = utf32le("ab");
    let str = Str::<Utf32LE>::from_bytes(&bytes).unwrap();
    let bounds: Vec<bool> = (0..10).map(|i| str.is_char_boundary(i)).collect();
    assert_eq!(
        bounds,
        vec![true, false, false, false, true, false, false, false, true, false]
    );
}

#[test]
fn utf16_odd_lengths_and_lone_low_surrogate() {
    // An odd byte at the end.
    assert_eq!(
        Utf16LE::validate(b"a\0b"),
        Err(ValidateError { valid_up_to: 2, error_len: None })
    );
    // A high surrogate with one byte behind it.
    assert_eq!(
        Utf16LE::validate(b"a\0\x01\xD8\x37"),
        Err(ValidateError { valid_up_to: 2, error_len: None })
    );
    // A low surrogate without a high one before it.
    assert_eq!(
        Utf16LE::validate(b"\x37\xDCa\0"),
        Err(ValidateError { valid_up_to: 0, error_len: Some(2) })
    );
    assert_eq!(
        Utf16BE::validate(b"\0a\xDC\x37"),
        Err(ValidateError { valid_up_to: 2, error_len: Some(2) })
    );
    assert_eq!(Utf16LE::char_len('A'), 2);
    assert_eq!(Utf16LE::char_len('𐐷'), 4);
    assert_eq!(Utf16BE::char_len('\u{FFFF}'), 2);
    assert_eq!(Utf16BE::char_len('\u{10000}'), 4);
}

#[test]
fn utf16_round_trips_at_the_edges() {
    for c in ['\0', '\u{D7FF}', '\u{E000}', '\u{FFFF}', '\u{10000}', '\u{10FFFF}'] {
        let mut units = [0u16; 2];
        let expect: Vec<u8> =
            c.encode_utf16(&mut units).iter().flat_map(|u| u.to_le_bytes()).collect();
        let le = Utf16LE::encode_char(c).unwrap();
        assert_eq!(le.as_slice(), expect.as_slice());
        let str = Str::<Utf16LE>::from_bytes(&le).unwrap();
        let (back, rest) = Utf16LE::decode_char(str);
        assert_eq!(back, c);
        assert!(rest.is_empty());
        let expect: Vec<u8> =
            c.encode_utf16(&mut units).iter().flat_map(|u| u.to_be_bytes()).collect();
        let be = Utf16BE::encode_char(c).unwrap();
        assert_eq!(be.as_slice(), expect.as_slice());
        let str = Str::<Utf16BE>::from_bytes(&be).unwrap();
        let (back, rest) = Utf16BE::decode_char(str);
        assert_eq!(back, c);
        assert!(rest.is_empty());
    }
}

fn std_verdict(bytes: &[u8]) -> Result<(), ValidateError> {
    match core::str::from_utf8(bytes) {
        Ok(_) => Ok(()),
        Err(e) => Err(ValidateError {
            valid_up_to: e.valid_up_to(),
            error_len: e.error_len().map(|l| l as u8),
        }),
    }
}

#[test]
fn utf8_validation_agrees_with_the_standard_library() {
    let interesting: [u8; 24] = [
        0x00, 0x41, 0x7F, 0x80, 0x8F, 0x90, 0x9F, 0xA0, 0xBF, 0xC0, 0xC1, 0xC2, 0xDF, 0xE0, 0xE1,
        0xEC, 0xED, 0xEE, 0xEF, 0xF0, 0xF1, 0xF4, 0xF5, 0xFF,
    ];
    for a in interesting {
        assert_eq!(Utf8::validate(&[a]), std_verdict(&[a]));
        for b in interesting {
            assert_eq!(Utf8::validate(&[a, b]), std_verdict(&[a, b]));
            for c in interesting {
                assert_eq!(Utf8::validate(&[a, b, c]), std_verdict(&[a, b, c]));
                for d in [0x41u8, 0x80, 0xBF, 0xC2, 0xF0] {
                    assert_eq!(Utf8::validate(&[a, b, c, d]), std_verdict(&[a, b, c, d]));
                    assert_eq!(
                        Utf8::validate(&[0x41, a, b, c, d, 0x42]),
                        std_verdict(&[0x41, a, b, c, d, 0x42])
                    );
                }
            }
        }
    }
}

#[test]
fn utf8_chars_agree_with_the_standard_library() {
    for c in [
        '\0', 'A', '\x7F', '\u{80}', '\u{7FF}', '\u{800}', '\u{D7FF}', '\u{E000}', '\u{FFFD}',
        '\u{FFFF}', '\u{10000}', '𐐷', '\u{10FFFF}',
    ] {
        let mut buf = [0u8; 4];
        let expect = c.encode_utf8(&mut buf).as_bytes();
        let bytes = Utf8::encode_char(c).unwrap();
        assert_eq!(bytes.as_slice(), expect);
        assert_eq!(Utf8::char_len(c), c.len_utf8());
        let str = Str::<Utf8>::from_bytes(&bytes).unwrap();
        let (back, rest) = Utf8::decode_char(str);
        assert_eq!(back, c);
        assert!(rest.is_empty());
    }
    let text = "Abc𐐷dé€";
    let str = Str::from_std(text);
    for i in 0..=text.len() + 1 {
        assert_eq!(str.is_char_boundary(i), text.is_char_boundary(i));
    }
    assert_eq!(str.as_std(), text);
}
