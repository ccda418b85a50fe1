use arrayvec::ArrayVec;
use encstr::encoding::{Encoding, JisX0201, JisX0208, ShiftJIS, ValidateError};
use encstr::Str;

const HELLO_WORLD_JIS0208: &[u8] = &[
    0x25, 0x4F, 0x25, 0x6D, 0x21, 0x3C, 0x25, 0x6F, 0x21, 0x3C, 0x25, 0x6B, 0x25, 0x49, 0x21,
    0x6F, 0x23, 0x6E, 0x24, 0x21,
];

#[test]
fn test_validate_jisx0208() {
    assert!(JisX0208::validate(HELLO_WORLD_JIS0208).is_ok());
}

#[test]
fn test_decode_jisx0208() {
    let str = Str::<JisX0208>::from_bytes(HELLO_WORLD_JIS0208).unwrap();
    let (c, str) = JisX0208::decode_char(str);
    assert_eq!(c, 'ハ');
    let (c, str) = JisX0208::decode_char(str);
    assert_eq!(c, 'ロ');
    let (c, str) = JisX0208::decode_char(str);
    assert_eq!(c, 'ー');
    let (c, str) = JisX0208::decode_char(str);
    assert_eq!(c, 'ワ');
    let (c, str) = JisX0208::decode_char(str);
    assert_eq!(c, 'ー');
    let (c, str) = JisX0208::decode_char(str);
    assert_eq!(c, 'ル');
    let (c, str) = JisX0208::decode_char(str);
    assert_eq!(c, 'ド');
    let (c, str) = JisX0208::decode_char(str);
    assert_eq!(c, '¥');
    let (c, str) = JisX0208::decode_char(str);
    assert_eq!(c, 'n');
    let (c, _) = JisX0208::decode_char(str);
    assert_eq!(c, 'ぁ');
}

const HELLO_WORLD_SHIFTJIS: &[u8] = &[
    0x83, 0x6E, 0x83, 0x8D, 0x81, 0x5B, 0x83, 0x8F, 0x81, 0x5B, 0x83, 0x8B, 0x83, 0x68, 0x5C,
    0x6E, 0x82, 0x9F,
];

#[test]
fn test_validate_shiftjis() {
    assert!(ShiftJIS::validate(HELLO_WORLD_SHIFTJIS).is_ok());
}

#[test]
fn test_encode_shiftjis() {
    assert_eq!(
        ShiftJIS::encode_char('ハ'),
        Some(ArrayVec::from_iter([0x83, 0x6E]))
    );
    assert_eq!(
        ShiftJIS::encode_char('ロ'),
        Some(ArrayVec::from_iter([0x83, 0x8D]))
    );
    assert_eq!(
        ShiftJIS::encode_char('ー'),
        Some(ArrayVec::from_iter([0x81, 0x5B]))
    );
    assert_eq!(
        ShiftJIS::encode_char('ワ'),
        Some(ArrayVec::from_iter([0x83, 0x8F]))
    );
    assert_eq!(
        ShiftJIS::encode_char('ル'),
        Some(ArrayVec::from_iter([0x83, 0x8B]))
    );
    assert_eq!(
        ShiftJIS::encode_char('ド'),
        Some(ArrayVec::from_iter([0x83, 0x68]))
    );
    assert_eq!(
        ShiftJIS::encode_char('¥'),
        Some(ArrayVec::from_iter([0x5C]))
    );
    assert_eq!(
        ShiftJIS::encode_char('n'),
        Some(ArrayVec::from_iter([0x6E]))
    );
    assert_eq!(
        ShiftJIS::encode_char('ぁ'),
        Some(ArrayVec::from_iter([0x82, 0x9F]))
    );
}

#[test]
fn test_decode_shiftjis() {
    let str = Str::<ShiftJIS>::from_bytes(HELLO_WORLD_SHIFTJIS).unwrap();
    let (c, str) = ShiftJIS::decode_char(str);
    assert_eq!(c, 'ハ');
    let (c, str) = ShiftJIS::decode_char(str);
    assert_eq!(c, 'ロ');
    let (c, str) = ShiftJIS::decode_char(str);
    assert_eq!(c, 'ー');
    let (c, str) = ShiftJIS::decode_char(str);
    assert_eq!(c, 'ワ');
    let (c, str) = ShiftJIS::decode_char(str);
    assert_eq!(c, 'ー');
    let (c, str) = ShiftJIS::decode_char(str);
    assert_eq!(c, 'ル');
    let (c, str) = ShiftJIS::decode_char(str);
    assert_eq!(c, 'ド');
    let (c, str) = ShiftJIS::decode_char(str);
    assert_eq!(c, '¥');
    let (c, str) = ShiftJIS::decode_char(str);
    assert_eq!(c, 'n');
    let (c, _) = ShiftJIS::decode_char(str);
    assert_eq!(c, 'ぁ');
}

#[test]
fn jisx0201_bytes_and_chars() {
    assert!(JisX0201::validate(b"Hello \\ ~ \x7F").is_ok());
    assert_eq!(
        JisX0201::validate(b"ab\x1Fcd"),
        Err(ValidateError { valid_up_to: 2, error_len: Some(1) })
    );
    assert_eq!(
        JisX0201::validate(b"\xA1\xDF\xE0"),
        Err(ValidateError { valid_up_to: 2, error_len: Some(1) })
    );
    assert_eq!(
        JisX0201::validate(b"a\x80"),
        Err(ValidateError { valid_up_to: 1, error_len: Some(1) })
    );
    assert_eq!(JisX0201::encode_char('¥'), Some(0x5C));
    assert_eq!(JisX0201::encode_char('‾'), Some(0x7E));
    assert_eq!(JisX0201::encode_char('A'), Some(0x41));
    assert_eq!(JisX0201::encode_char('｡'), Some(0xA1));
    assert_eq!(JisX0201::encode_char('ﾟ'), Some(0xDF));
    // The backslash and the tilde have no place of their own: their bytes read as the yen
    // sign and the overline.
    assert_eq!(JisX0201::encode_char('\\'), None);
    assert_eq!(JisX0201::encode_char('~'), None);
    assert_eq!(JisX0201::encode_char('\n'), None);
    assert_eq!(JisX0201::char_len('ｱ'), 1);
    assert_eq!(JisX0201::char_len('あ'), 0);
    let str = Str::<JisX0201>::from_bytes(b"\x5C\x7E\x41\xB1").unwrap();
    assert_eq!(str.chars().collect(), vec!['¥', '‾', 'A', 'ｱ']);
}

#[test]
fn jisx0208_malformed_units() {
    // A byte above the seven-bit range.
    assert_eq!(
        JisX0208::validate(&[0x25, 0x4F, 0x80]),
        Err(ValidateError { valid_up_to: 2, error_len: Some(1) })
    );
    // A first byte of a row that holds no character.
    assert_eq!(
        JisX0208::validate(&[0x0A, 0x29, 0x21]),
        Err(ValidateError { valid_up_to: 1, error_len: Some(2) })
    );
    assert_eq!(
        JisX0208::validate(&[0x75, 0x21]),
        Err(ValidateError { valid_up_to: 0, error_len: Some(2) })
    );
    // A second byte outside of the range of second bytes.
    assert_eq!(
        JisX0208::validate(&[0x25, 0x4F, 0x25, 0x20]),
        Err(ValidateError { valid_up_to: 2, error_len: Some(2) })
    );
    assert_eq!(
        JisX0208::validate(&[0x25, 0x4F, 0x25, 0x80]),
        Err(ValidateError { valid_up_to: 2, error_len: Some(2) })
    );
    // A cell of the grid without a character.
    assert_eq!(
        JisX0208::validate(&[0x22, 0x2F]),
        Err(ValidateError { valid_up_to: 0, error_len: Some(2) })
    );
    // A first byte that the end of the buffer cuts off from its second.
    assert_eq!(
        JisX0208::validate(&[0x25, 0x4F, 0x25]),
        Err(ValidateError { valid_up_to: 2, error_len: None })
    );
    // Control codes, the space and the delete character stand alone.
    assert!(JisX0208::validate(&[0x00, 0x0A, 0x20, 0x7F, 0x2D, 0x21]).is_ok());
}

#[test]
fn jisx0208_encode_and_boundaries() {
    assert_eq!(JisX0208::encode_char('ハ'), Some(ArrayVec::from_iter([0x25, 0x4F])));
    assert_eq!(JisX0208::encode_char(' '), Some(ArrayVec::from_iter([0x20])));
    assert_eq!(JisX0208::encode_char('\n'), Some(ArrayVec::from_iter([0x0A])));
    assert_eq!(JisX0208::encode_char('\x7F'), Some(ArrayVec::from_iter([0x7F])));
    assert_eq!(JisX0208::encode_char('?'), Some(ArrayVec::from_iter([0x21, 0x29])));
    assert_eq!(JisX0208::encode_char('\u{FFFD}'), None);
    assert_eq!(JisX0208::encode_char('𐐷'), None);
    assert_eq!(JisX0208::char_len('ハ'), 2);
    assert_eq!(JisX0208::char_len(' '), 1);
    assert_eq!(JisX0208::char_len('𐐷'), 0);
    let str = Str::<JisX0208>::from_bytes(&[0x0A, 0x25, 0x4F, 0x20, 0x25, 0x6D]).unwrap();
    let bounds: Vec<bool> = (0..8).map(|i| str.is_char_boundary(i)).collect();
    assert_eq!(bounds, vec![true, true, false, true, true, false, true, false]);
}

#[test]
fn shiftjis_malformed_units() {
    assert_eq!(
        ShiftJIS::validate(&[0x41, 0x80]),
        Err(ValidateError { valid_up_to: 1, error_len: Some(1) })
    );
    assert_eq!(
        ShiftJIS::validate(&[0xA0]),
        Err(ValidateError { valid_up_to: 0, error_len: Some(1) })
    );
    assert_eq!(
        ShiftJIS::validate(&[0xF0, 0x40]),
        Err(ValidateError { valid_up_to: 0, error_len: Some(1) })
    );
    assert_eq!(
        ShiftJIS::validate(&[0x83, 0x6E, 0x83]),
        Err(ValidateError { valid_up_to: 2, error_len: None })
    );
    assert_eq!(
        ShiftJIS::validate(&[0x83, 0x7F]),
        Err(ValidateError { valid_up_to: 0, error_len: Some(2) })
    );
    assert_eq!(
        ShiftJIS::validate(&[0x83, 0x3F]),
        Err(ValidateError { valid_up_to: 0, error_len: Some(2) })
    );
    // A cell of the grid without a character.
    assert_eq!(
        ShiftJIS::validate(&[0x81, 0xAD]),
        Err(ValidateError { valid_up_to: 0, error_len: Some(2) })
    );
    // Single bytes: the seven-bit range and the half-width katakana.
    assert!(ShiftJIS::validate(&[0x00, 0x41, 0x7F, 0xA1, 0xDF]).is_ok());
}

#[test]
fn shiftjis_second_half_of_the_rows() {
    // The first bytes from 0xE0 on stand for the rows behind the sixty-second.
    let bytes = ShiftJIS::encode_char('蝓').unwrap();
    assert_eq!(bytes.as_slice(), &[0xE5, 0x9F]);
    assert!(ShiftJIS::validate(&[0xE5, 0x9F]).is_ok());
    let str = Str::<ShiftJIS>::from_bytes(&[0xE5, 0x9F, 0x41]).unwrap();
    assert_eq!(str.chars().collect(), vec!['蝓', 'A']);
    assert_eq!(JisX0208::encode_char('蝓'), Some(ArrayVec::from_iter([0x6A, 0x21])));
    assert_eq!(ShiftJIS::char_len('蝓'), 2);
    assert_eq!(ShiftJIS::char_len('A'), 1);
    assert_eq!(ShiftJIS::char_len('𐐷'), 0);
    let bounds: Vec<bool> = (0..5).map(|i| str.is_char_boundary(i)).collect();
    assert_eq!(bounds, vec![true, false, true, true, false]);
}

#[test]
fn every_cell_of_the_grid_round_trips() {
    let mut filled = 0;
    for first in 0x21u8..0x7F {
        for second in 0x21u8..0x7F {
            let bytes = [first, second];
            let str = match Str::<JisX0208>::from_bytes(&bytes) {
                Ok(str) => str,
                Err(e) => {
                    assert_eq!(e, ValidateError { valid_up_to: 0, error_len: Some(2) });
                    continue;
                }
            };
            filled += 1;
            let (c, rest) = JisX0208::decode_char(str);
            assert!(rest.is_empty());
            assert_ne!(c, '\u{FFFD}');
            // The character has an encoding, which reads back as the character, in both of
            // the encodings that share the grid.
            let again = JisX0208::encode_char(c).unwrap();
            let (back, _) = JisX0208::decode_char(Str::from_bytes(&again).unwrap());
            assert_eq!(back, c);
            let shifted = ShiftJIS::encode_char(c).unwrap();
            let (back, rest) = ShiftJIS::decode_char(Str::from_bytes(&shifted).unwrap());
            assert_eq!(back, c);
            assert!(rest.is_empty());
        }
    }
    assert_eq!(filled, 6962);
}

#[test]
fn shift_jis_of_common_characters() {
    let expect: [(char, [u8; 2], [u8; 2]); 5] = [
        ('漢', [0x8A, 0xBF], [0x34, 0x41]),
        ('字', [0x8E, 0x9A], [0x3B, 0x7A]),
        ('あ', [0x82, 0xA0], [0x24, 0x22]),
        ('日', [0x93, 0xFA], [0x46, 0x7C]),
        ('語', [0x8C, 0xEA], [0x38, 0x6C]),
    ];
    for (c, shifted, plain) in expect {
        assert_eq!(ShiftJIS::encode_char(c).unwrap().as_slice(), &shifted);
        assert_eq!(JisX0208::encode_char(c).unwrap().as_slice(), &plain);
        assert_eq!(Str::<ShiftJIS>::from_bytes(&shifted).unwrap().chars().collect(), vec![c]);
        assert_eq!(Str::<JisX0208>::from_bytes(&plain).unwrap().chars().collect(), vec![c]);
    }
}

#[test]
fn sampled_characters_belong_to_the_encoding() {
    for n in (0..JisX0208::CHARS).step_by(211) {
        let c = JisX0208::sample(n).unwrap();
        assert!(JisX0208::char_len(c) > 0);
    }
    assert!(JisX0208::sample(JisX0208::CHARS - 1).is_some());
    assert_eq!(JisX0208::sample(0), Some('\0'));
    assert_eq!(JisX0208::sample(21), Some('\x7F'));
    assert_eq!(JisX0208::sample(22), Some('\u{3000}'));
    assert_eq!(JisX0208::sample(JisX0208::CHARS), None);
    assert_eq!(ShiftJIS::sample(0), Some(' '));
    assert_eq!(ShiftJIS::sample(158), Some('ﾟ'));
    assert_eq!(ShiftJIS::sample(159), Some('\u{3000}'));
    assert!(ShiftJIS::sample(ShiftJIS::CHARS - 1).is_some());
    assert_eq!(ShiftJIS::sample(ShiftJIS::CHARS), None);
    for n in (0..ShiftJIS::CHARS).step_by(223) {
        let c = ShiftJIS::sample(n).unwrap();
        assert!(ShiftJIS::char_len(c) > 0);
    }
    for n in 0..159u8 {
        assert_eq!(JisX0201::char_len(JisX0201::sample(n)), 1);
    }
}
