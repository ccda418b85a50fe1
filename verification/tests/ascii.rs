use encstr::encoding::{Ascii, Encoding, ExtendedAscii, ValidateError};
use encstr::Str;

#[test]
fn test_validate_ascii() {
    assert!(Ascii::validate(b"A simple ASCII string").is_ok());
    assert!(Ascii::validate(b"Contains odd chars \0 \x01 \x02 \r \x7F").is_ok());
    assert_eq!(
        Ascii::validate(b"\x80"),
        Err(ValidateError {
            valid_up_to: 0,
            error_len: Some(1),
        })
    );
    assert_eq!(
        Ascii::validate(b"Foo \xFF"),
        Err(ValidateError {
            valid_up_to: 4,
            error_len: Some(1),
        })
    )
}

#[test]
fn test_encode_ascii() {
    assert_eq!(Ascii::encode_char('A'), Some(b'A'));
    assert_eq!(Ascii::encode_char('\u{80}'), None);
    assert_eq!(Ascii::encode_char('𐐷'), None);
}

#[test]
fn test_decode_ascii() {
    let str = Str::<Ascii>::from_bytes(b"A simple sentence").unwrap();
    let (c, str) = Ascii::decode_char(str);
    assert_eq!(c, 'A');
    let (c, str) = Ascii::decode_char(str);
    assert_eq!(c, ' ');
    let (c, _) = Ascii::decode_char(str);
    assert_eq!(c, 's');
}

#[test]
fn ascii_char_len_and_names() {
    assert_eq!(Ascii::char_len('A'), 1);
    assert_eq!(Ascii::char_len('\u{80}'), 0);
    assert_eq!(Ascii::shorthand(), "ascii");
    assert_eq!(ExtendedAscii::shorthand(), "ascii_ext");
    assert_eq!(<Ascii as encstr::encoding::Grammar>::REPLACEMENT, '\x1A');
    assert_eq!(<Ascii as encstr::encoding::Grammar>::MAX_LEN, 1);
}

#[test]
fn extended_ascii_accepts_every_byte() {
    let all: Vec<u8> = (0u8..=255).collect();
    assert!(ExtendedAscii::validate(&all).is_ok());
    let str = Str::<ExtendedAscii>::from_bytes_infallible(&all);
    let chars = str.chars().collect();
    assert_eq!(chars.len(), 256);
    for (i, c) in chars.iter().enumerate() {
        assert_eq!(*c as u32, i as u32);
        assert_eq!(ExtendedAscii::encode_char(*c), Some(i as u8));
    }
    assert_eq!(ExtendedAscii::encode_char('\u{100}'), None);
    assert_eq!(ExtendedAscii::char_len('\u{FF}'), 1);
    assert_eq!(ExtendedAscii::char_len('\u{100}'), 0);
}
