use encstr::encoding::{
    ArrayLike, Encoding, Iso8859_1, Iso8859_15, Iso8859_2, Iso8859_3, MacRoman, ValidateError, Win1251,
    Win1252, Win1252Loose,
};
use encstr::Str;

#[test]
fn test_validate_win1251() {
    assert!(Win1251::validate(b"01\xD5\xFF").is_ok());
    assert_eq!(
        Win1251::validate(b"0\xFF\x97\x98\x99"),
        Err(ValidateError {
            valid_up_to: 3,
            error_len: Some(1),
        })
    );
}

#[test]
fn test_encode_win1251() {
    assert_eq!(Win1251::encode_char('A'), Some(b'A'));
    assert_eq!(Win1251::encode_char('Ђ'), Some(0x80));
    assert_eq!(Win1251::encode_char('я'), Some(0xFF));
    assert_eq!(Win1251::encode_char('𐐷'), None,);
}

#[test]
fn test_decode_win1251() {
    let str = Str::<Win1251>::from_bytes(b"A\x80\xFF\0").unwrap();
    let (c, str) = Win1251::decode_char(str);
    assert_eq!(c, 'A');
    let (c, str) = Win1251::decode_char(str);
    assert_eq!(c, 'Ђ');
    let (c, str) = Win1251::decode_char(str);
    assert_eq!(c, 'я');
    let (c, _) = Win1251::decode_char(str);
    assert_eq!(c, '\0');
}

#[test]
fn test_char_len_win1251() {
    let c = 'ф';
    assert_eq!(Win1251::char_len(c), 1);
    let c = '𐐷';
    assert_eq!(Win1251::char_len(c), 0);
}

#[test]
fn test_validate_win1252() {
    assert!(Win1252::validate(b"01\xD5\xFF").is_ok());
    assert_eq!(
        Win1252::validate(b"0\xFF\x97\x9D\x99"),
        Err(ValidateError {
            valid_up_to: 3,
            error_len: Some(1),
        })
    );
}

#[test]
fn test_encode_win1252() {
    assert_eq!(Win1252::encode_char('A'), Some(b'A'));
    assert_eq!(Win1252::encode_char('€'), Some(0x80));
    assert_eq!(Win1252::encode_char('ÿ'), Some(0xFF));
    assert_eq!(Win1252::encode_char('𐐷'), None,);
}

#[test]
fn test_decode_win1252() {
    let str = Str::<Win1252>::from_bytes(b"A\x80\xFF\0").unwrap();
    let (c, str) = Win1252::decode_char(str);
    assert_eq!(c, 'A');
    let (c, str) = Win1252::decode_char(str);
    assert_eq!(c, '€');
    let (c, str) = Win1252::decode_char(str);
    assert_eq!(c, 'ÿ');
    let (c, _) = Win1252::decode_char(str);
    assert_eq!(c, '\0');
}

#[test]
fn test_char_len_win1252() {
    let c = '€';
    assert_eq!(Win1252::char_len(c), 1);
    let c = '𐐷';
    assert_eq!(Win1252::char_len(c), 0);
}

#[test]
fn win1252_unassigned_bytes() {
    for b in [0x81u8, 0x8D, 0x8F, 0x90, 0x9D] {
        assert_eq!(
            Win1252::validate(&[b'a', b]),
            Err(ValidateError { valid_up_to: 1, error_len: Some(1) })
        );
        // The strict code page has no character for the byte; the loose one reads it as the
        // control code of the same value.
        let c = char::from(b);
        assert_eq!(Win1252::encode_char(c), None);
        assert_eq!(Win1252::char_len(c), 0);
        assert_eq!(Win1252Loose::encode_char(c), Some(b));
        assert_eq!(Win1252Loose::char_len(c), 1);
        assert!(Win1252Loose::validate(&[b'a', b]).is_ok());
        let one = [b];
        let str = Str::<Win1252Loose>::from_bytes_infallible(&one);
        assert_eq!(str.chars().collect(), vec![c]);
    }
    assert_eq!(Win1252Loose::encode_char('€'), Some(0x80));
    assert_eq!(Win1252Loose::char_len('€'), 1);
    assert_eq!(Win1252Loose::encode_char('\u{80}'), None);
    assert_eq!(Win1252::encode_char('\u{80}'), None);
    assert_eq!(Win1251::encode_char('\u{241A}'), None);
    assert_eq!(Win1251::char_len('\u{241A}'), 0);
}

fn round_trips<E: Encoding>(valid_bytes: usize) {
    let mut count = 0;
    for b in 0u8..=255 {
        let bytes = [b];
        match Str::<E>::from_bytes(&bytes) {
            Ok(str) => {
                count += 1;
                let (c, rest) = E::decode_char(str);
                assert!(rest.is_empty());
                let back = E::encode_char(c).expect("a decoded character has an encoding");
                let (again, _) = E::decode_char(Str::<E>::from_bytes(back.slice()).unwrap());
                assert_eq!(again, c);
                assert_eq!(E::char_len(c), 1);
            }
            Err(e) => {
                assert_eq!(e, ValidateError { valid_up_to: 0, error_len: Some(1) });
            }
        }
    }
    assert_eq!(count, valid_bytes);
}

#[test]
fn single_byte_encodings_round_trip() {
    round_trips::<Win1251>(255);
    round_trips::<Win1252>(251);
    round_trips::<Win1252Loose>(256);
    round_trips::<MacRoman>(256);
    round_trips::<Iso8859_1>(191);
    round_trips::<Iso8859_2>(191);
    round_trips::<Iso8859_3>(184);
    round_trips::<Iso8859_15>(191);
    round_trips::<encstr::encoding::JisX0201>(159);
    round_trips::<encstr::encoding::Ascii>(128);
    round_trips::<encstr::encoding::ExtendedAscii>(256);
}

#[test]
fn iso8859_bytes_and_chars() {
    assert!(Iso8859_1::validate(b"Hello \xA0\xFF").is_ok());
    assert_eq!(
        Iso8859_1::validate(b"ab\ncd"),
        Err(ValidateError { valid_up_to: 2, error_len: Some(1) })
    );
    assert_eq!(
        Iso8859_1::validate(b"ab\x7F"),
        Err(ValidateError { valid_up_to: 2, error_len: Some(1) })
    );
    assert_eq!(
        Iso8859_2::validate(b"\x9F"),
        Err(ValidateError { valid_up_to: 0, error_len: Some(1) })
    );
    assert_eq!(Iso8859_1::encode_char('ÿ'), Some(0xFF));
    assert_eq!(Iso8859_1::encode_char('\u{A0}'), Some(0xA0));
    assert_eq!(Iso8859_1::encode_char('€'), None);
    assert_eq!(Iso8859_15::encode_char('€'), Some(0xA4));
    assert_eq!(Iso8859_2::encode_char('Ł'), Some(0xA3));
    assert_eq!(Iso8859_3::encode_char('Ħ'), Some(0xA1));
    assert_eq!(Iso8859_1::encode_char('\n'), None);
    // The places that ISO 8859-3 leaves unassigned hold no character.
    for b in [0xA5u8, 0xAE, 0xBE, 0xC3, 0xD0, 0xE3, 0xF0] {
        assert_eq!(
            Iso8859_3::validate(&[b'a', b]),
            Err(ValidateError { valid_up_to: 1, error_len: Some(1) })
        );
    }
    assert_eq!(Iso8859_3::encode_char('\u{FFFD}'), None);
    assert_eq!(Iso8859_3::char_len('\u{FFFD}'), 0);
    assert_eq!(Iso8859_15::shorthand(), "iso8889_15");
    assert_eq!(Iso8859_1::shorthand(), "iso8859_1");
}

#[test]
fn mac_roman_bytes_and_chars() {
    assert!(MacRoman::validate(&[0x00, 0x7F, 0x80, 0xFF]).is_ok());
    assert_eq!(MacRoman::encode_char('Ä'), Some(0x80));
    assert_eq!(MacRoman::encode_char('ˇ'), Some(0xFF));
    assert_eq!(MacRoman::encode_char('€'), Some(0xDB));
    assert_eq!(MacRoman::encode_char('A'), Some(0x41));
    assert_eq!(MacRoman::encode_char('Ђ'), None);
    assert_eq!(MacRoman::char_len('Ä'), 1);
    assert_eq!(MacRoman::char_len('Ђ'), 0);
    let str = Str::<MacRoman>::from_bytes_infallible(&[0x41, 0x80, 0xDB]);
    assert_eq!(str.chars().collect(), vec!['A', 'Ä', '€']);
    assert_eq!(MacRoman::shorthand(), "mac_roman");
}

#[test]
fn sampled_characters_of_the_code_pages() {
    for n in 0..191u8 {
        assert_eq!(Iso8859_1::char_len(Iso8859_1::sample(n)), 1);
        assert_eq!(Iso8859_2::char_len(Iso8859_2::sample(n)), 1);
        assert_eq!(Iso8859_15::char_len(Iso8859_15::sample(n)), 1);
    }
    for n in 0..184u8 {
        assert_eq!(Iso8859_3::char_len(Iso8859_3::sample(n)), 1);
    }
    for n in 0..255u8 {
        assert_eq!(Win1251::char_len(Win1251::sample(n)), 1);
    }
    for n in 0..251u8 {
        assert_eq!(Win1252::char_len(Win1252::sample(n)), 1);
    }
    for n in 0..=255u8 {
        assert_eq!(Win1252Loose::char_len(Win1252Loose::sample(n)), 1);
    }
    assert_eq!(Iso8859_1::sample(0), ' ');
    assert_eq!(Iso8859_1::sample(94), '~');
    assert_eq!(Iso8859_1::sample(95), '\u{A0}');
    assert_eq!(Iso8859_1::sample(190), 'ÿ');
    assert_eq!(Iso8859_3::sample(99), '¤');
    assert_eq!(Iso8859_3::sample(100), 'Ĥ');
    assert_eq!(Iso8859_3::sample(183), '˙');
    assert_eq!(Win1251::sample(0x97), '—');
    assert_eq!(Win1251::sample(0x98), '™');
    assert_eq!(Win1252::sample(0x80), '€');
    assert_eq!(Win1252::sample(0x81), '‚');
    assert_eq!(Win1252::sample(250), 'ÿ');
    assert_eq!(Win1252Loose::sample(0x81), '\u{81}');
}
