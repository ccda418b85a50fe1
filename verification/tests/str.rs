use encstr::encoding::{
    encode, recode, Ascii, EncodeError, RecodeCause, Utf16, Utf16LE, Utf32, Utf8, Win1252,
};
use encstr::err::RecodeError;
use encstr::{Str, String};

#[test]
fn test_chars() {
    let str = Str::from_std("Abc𐐷d");
    assert_eq!(&str.chars().collect(), &['A', 'b', 'c', '𐐷', 'd'],);

    let units = [
        (b'A' as u16).to_le(),
        (b'b' as u16).to_le(),
        (b'c' as u16).to_le(),
        0xD801u16.to_le(),
        0xDC37u16.to_le(),
        (b'd' as u16).to_le(),
    ];
    let str = Str::<Utf16>::from_utf16(&units).unwrap();
    assert_eq!(&str.chars().collect(), &['A', 'b', 'c', '𐐷', 'd'],);

    let owned = Str::from_chars(&['A', 'b', 'c', '𐐷', 'd']);
    let str = owned.as_str();
    assert_eq!(&str.chars().collect(), &['A', 'b', 'c', '𐐷', 'd'],);
}

#[test]
fn test_char_indices() {
    let str = Str::from_std("Abc𐐷d");
    assert_eq!(
        &str.char_indices().collect(),
        &[(0, 'A'), (1, 'b'), (2, 'c'), (3, '𐐷'), (7, 'd')],
    );

    let units = [
        (b'A' as u16).to_le(),
        (b'b' as u16).to_le(),
        (b'c' as u16).to_le(),
        0xD801u16.to_le(),
        0xDC37u16.to_le(),
        (b'd' as u16).to_le(),
    ];
    let str = Str::<Utf16>::from_utf16(&units).unwrap();
    assert_eq!(
        &str.char_indices().collect(),
        &[(0, 'A'), (2, 'b'), (4, 'c'), (6, '𐐷'), (10, 'd')],
    );

    let owned = Str::from_chars(&['A', 'b', 'c', '𐐷', 'd']);
    let str = owned.as_str();
    assert_eq!(
        &str.char_indices().collect(),
        &[(0, 'A'), (4, 'b'), (8, 'c'), (12, '𐐷'), (16, 'd')],
    );
}

#[test]
fn test_recode_small_to_large() {
    let a = Str::from_std("Hello World!");
    let b = a.recode::<Utf32>().unwrap();

    assert_eq!(
        b,
        Str::from_chars(&['H', 'e', 'l', 'l', 'o', ' ', 'W', 'o', 'r', 'l', 'd', '!']),
    );

    let a = Str::from_std("A𐐷b");
    let b = a.recode::<Utf16>().unwrap();

    let units = [(b'A' as u16).to_le(), 0xD801u16.to_le(), 0xDC37u16.to_le(), (b'b' as u16).to_le()];
    assert_eq!(b.as_str(), Str::from_utf16(&units).unwrap());
    assert_eq!(
        b.as_str().as_bytes(),
        &[0x41, 0x00, 0x01, 0xD8, 0x37, 0xDC, 0x62, 0x00]
    );
}

#[test]
fn test_recode_invalid_chars() {
    let a = Str::from_std("A𐐷b");
    let b = a.recode::<Ascii>();

    assert_eq!(
        b,
        Err(RecodeError {
            valid_up_to: 1,
            char: '𐐷',
            char_len: 4,
        })
    );

    let a = Str::from_std("€𐐷b");
    let b = a.recode::<Win1252>();

    assert_eq!(
        b,
        Err(RecodeError {
            valid_up_to: 3,
            char: '𐐷',
            char_len: 4,
        })
    );
}

#[test]
fn test_recode_lossy_invalid_chars() {
    let a = Str::from_std("A𐐷b");
    let b = a.recode_lossy::<Ascii>();

    assert_eq!(b.as_str(), Str::from_bytes(b"A\x1Ab").unwrap());

    let a = Str::from_std("€𐐷b");
    let b = a.recode_lossy::<Win1252>();

    assert_eq!(b.as_str(), Str::from_bytes(b"\x80\x1Ab").unwrap());
}

#[test]
fn encode_into_a_buffer() {
    let mut out = [0xEEu8; 4];
    assert_eq!(encode::<Utf8>('€', &mut out), Ok(3));
    assert_eq!(out, [0xE2, 0x82, 0xAC, 0xEE]);
    let mut small = [0xEEu8; 2];
    assert_eq!(encode::<Utf8>('€', &mut small), Err(EncodeError::NeedSpace { len: 3 }));
    assert_eq!(small, [0xEE, 0xEE]);
    assert_eq!(encode::<Ascii>('€', &mut out), Err(EncodeError::InvalidChar));
    assert_eq!(out, [0xE2, 0x82, 0xAC, 0xEE]);
    let mut exact = [0u8; 1];
    assert_eq!(encode::<Ascii>('A', &mut exact), Ok(1));
    assert_eq!(exact, [0x41]);
}

#[test]
fn recode_into_a_buffer_that_is_too_small() {
    let a = Str::from_std("A𐐷b");
    let mut out = [0xEEu8; 5];
    let err = recode::<Utf8, Utf16LE>(a, &mut out).unwrap_err();
    assert_eq!(err.input_used(), 1);
    assert_eq!(err.output_valid(), 2);
    assert_eq!(err.cause(), &RecodeCause::NeedSpace { len: 4 });
    assert_eq!(out, [0x41, 0x00, 0xEE, 0xEE, 0xEE]);
    // The accounts add up: what was used and what is left make the input.
    assert_eq!(err.input_used() + "𐐷b".len(), a.len());
    assert!(Str::<Utf16LE>::from_bytes(&out[..err.output_valid()]).is_ok());

    let mut out = [0xEEu8; 9];
    assert_eq!(recode::<Utf8, Utf16LE>(a, &mut out), Ok(8));
    assert_eq!(out, [0x41, 0x00, 0x01, 0xD8, 0x37, 0xDC, 0x62, 0x00, 0xEE]);

    let mut out = [0xEEu8; 9];
    let err = recode::<Utf8, Ascii>(a, &mut out).unwrap_err();
    assert_eq!(err.input_used(), 1);
    assert_eq!(err.output_valid(), 1);
    assert_eq!(err.cause(), &RecodeCause::InvalidChar { char: '𐐷', len: 4 });
}

#[test]
fn recode_into_gives_the_written_part() {
    let a = Str::from_std("A𐐷b");
    let mut out = [0u8; 16];
    let b = a.recode_into::<Utf16LE>(&mut out).unwrap();
    assert_eq!(b.as_bytes(), &[0x41, 0x00, 0x01, 0xD8, 0x37, 0xDC, 0x62, 0x00]);

    let mut out = [0u8; 16];
    let err = a.recode_into::<Ascii>(&mut out).unwrap_err();
    assert_eq!(err.valid_up_to(), 1);
    assert_eq!(err.output_valid().as_bytes(), b"A");
    assert_eq!(err.cause(), &RecodeCause::InvalidChar { char: '𐐷', len: 4 });

    let mut out = [0u8; 3];
    let err = a.recode_into::<Utf16LE>(&mut out).unwrap_err();
    assert_eq!(err.valid_up_to(), 1);
    assert_eq!(err.output_valid().as_bytes(), &[0x41, 0x00]);
    assert_eq!(err.cause(), &RecodeCause::NeedSpace { len: 4 });
}

#[test]
fn recode_reports_offsets_in_the_whole_input() {
    // The output outgrows its first allocation several times before the character that
    // cannot be converted turns up.
    let text = "abcdefghijklmnopqrstuvwxyz€";
    let a = Str::from_std(text);
    let wide = a.recode::<Utf32>().unwrap();
    assert_eq!(wide.as_str().len(), 27 * 4);
    let err = wide.as_str().recode::<Ascii>().unwrap_err();
    assert_eq!(err.valid_up_to(), 26 * 4);
    assert_eq!(err.char(), '€');
    assert_eq!(err.char_len(), 4);
    let lossy = wide.as_str().recode_lossy::<Ascii>();
    assert_eq!(lossy.as_str().as_bytes(), b"abcdefghijklmnopqrstuvwxyz\x1A");
    let again = wide.as_str().recode::<Utf8>().unwrap();
    assert_eq!(again.as_str().as_std(), text);
    let empty = Str::from_std("");
    assert_eq!(empty.recode::<Utf32>().unwrap().as_str().len(), 0);
    assert_eq!(empty.recode_lossy::<Ascii>().as_str().len(), 0);
}

#[test]
fn lossy_length_is_the_sum_of_the_parts() {
    let text = "A𐐷b€c";
    let a = Str::from_std(text);
    let lossy = a.recode_lossy::<Win1252>();
    assert_eq!(lossy.as_str().as_bytes(), b"A\x1Ab\x80c");
    let lossy = a.recode_lossy::<encstr::encoding::JisX0208>();
    // 'A' and 'b' and 'c' take two bytes each; the two others become question marks.
    assert_eq!(lossy.as_str().len(), 10);
    assert_eq!(lossy.as_str().chars().collect(), vec!['A', '?', 'b', '?', 'c']);
}

#[test]
fn slicing_at_boundaries() {
    let str = Str::from_std("a€b");
    assert_eq!(str.len(), 5);
    assert!(!str.is_empty());
    assert_eq!(str.get(0, 1).unwrap().as_bytes(), b"a");
    assert_eq!(str.get(1, 4).unwrap().as_std(), "€");
    assert_eq!(str.get(1, 5).unwrap().as_std(), "€b");
    assert_eq!(str.get(5, 5).unwrap().len(), 0);
    assert!(str.get(1, 3).is_none());
    assert!(str.get(2, 4).is_none());
    assert!(str.get(4, 1).is_none());
    assert!(str.get(1, 6).is_none());
    assert_eq!(str.check_bounds(1, 4), Some(()));
    assert_eq!(str.check_bounds(1, 3), None);
    let (left, right) = str.split_at(1).unwrap();
    assert_eq!(left.as_std(), "a");
    assert_eq!(right.as_std(), "€b");
    assert!(str.split_at(2).is_none());
    assert!(str.split_at(5).is_none());
    assert!(str.split_at(0).is_some());
    let bounds: Vec<bool> = (0..7).map(|i| str.is_char_boundary(i)).collect();
    assert_eq!(bounds, vec![true, true, false, false, true, true, false]);
    assert!(str.starts_with(Str::from_std("a€")));
    assert!(!str.starts_with(Str::from_std("€")));
    assert!(str.ends_with(Str::from_std("€b")));
    assert!(!str.ends_with(Str::from_std("a")));
    assert!(str.starts_with(Str::empty()));
    assert_eq!(str.to_owned(), String::from_std("a€b".to_string()));
}

#[test]
fn boundaries_are_the_starts_of_the_characters() {
    let text = "ab𐐷c€";
    let str = Str::from_std(text);
    let starts: Vec<usize> = str.char_indices().collect().iter().map(|p| p.0).collect();
    for i in 0..=str.len() + 2 {
        let expect = i == 0 || i == str.len() || starts.contains(&i);
        assert_eq!(str.is_char_boundary(i), expect);
    }
    let wide = str.recode::<Utf16LE>().unwrap();
    let wide = wide.as_str();
    let starts: Vec<usize> = wide.char_indices().collect().iter().map(|p| p.0).collect();
    assert_eq!(starts, vec![0, 2, 4, 8, 10]);
    for i in 0..=wide.len() + 2 {
        let expect = i == 0 || i == wide.len() || starts.contains(&i);
        assert_eq!(wide.is_char_boundary(i), expect);
    }
}

#[test]
fn validation_errors_leave_a_valid_prefix() {
    let buffers: [&[u8]; 5] = [
        b"Foo \xFF",
        b"ab\xE2\x82",
        b"\xF0\x90\x90",
        b"ok\xED\xA0\x80",
        b"\xC0\x80",
    ];
    for bytes in buffers {
        let err = Str::<Utf8>::from_utf8(bytes).unwrap_err();
        let prefix = Str::<Utf8>::from_utf8(&bytes[..err.valid_up_to()]).unwrap();
        assert_eq!(prefix.len(), err.valid_up_to());
        if let Some(len) = err.error_len() {
            assert!(len >= 1 && err.valid_up_to() + len <= bytes.len());
        }
    }
}

#[test]
fn utf16_and_utf32_from_units() {
    let units = [0x0041u16.to_le(), 0xD801u16.to_le()];
    let err = Str::<Utf16>::from_utf16(&units).unwrap_err();
    assert_eq!(err.valid_up_to(), 2);
    assert_eq!(err.error_len(), None);
    let units = [0x0041u32.to_le(), 0x10437u32.to_le()];
    let str = Str::<Utf32>::from_utf32(&units).unwrap();
    assert_eq!(str.chars().collect(), vec!['A', '𐐷']);
    let units = [0x0041u32.to_le(), 0xD800u32.to_le()];
    let err = Str::<Utf32>::from_utf32(&units).unwrap_err();
    assert_eq!(err.valid_up_to(), 4);
    assert_eq!(err.error_len(), Some(4));
    let str = Str::<Utf8>::from_utf8_unchecked(b"abc");
    assert_eq!(str.as_std(), "abc");
    // These units are valid in either byte order.
    let units = [0x4142u16, 0x4344];
    let str = Str::<Utf16>::from_utf16_unchecked(&units);
    assert_eq!(str.len(), 4);
    assert_eq!(str.chars().collect().len(), 2);
    let units = [0x0001_0000u32];
    let str = Str::<Utf32>::from_utf32_unchecked(&units);
    assert_eq!(str.chars().collect().len(), 1);
}

fn consumes_all<E: encstr::Encoding>(bytes: &[u8], chars: usize) {
    let str = Str::<E>::from_bytes(bytes).unwrap();
    let mut rest = str;
    let mut steps = 0;
    let mut used = 0;
    while !rest.is_empty() {
        let before = rest.len();
        let (_, next) = E::decode_char(rest);
        assert!(next.len() < before);
        used += before - next.len();
        steps += 1;
        rest = next;
    }
    assert_eq!(used, bytes.len());
    assert_eq!(steps, chars);
    assert_eq!(str.chars().collect().len(), chars);
    let mut indices = str.char_indices();
    let mut last = None;
    while let Some((at, _)) = indices.next() {
        assert!(at < bytes.len());
        assert!(str.is_char_boundary(at));
        last = Some(at);
    }
    assert_eq!(last.is_some(), chars > 0);
}

#[test]
fn decoding_consumes_the_whole_buffer() {
    consumes_all::<Utf8>("a€𐐷é".as_bytes(), 4);
    consumes_all::<Utf8>(b"", 0);
    consumes_all::<Utf16LE>(b"A\0\x01\xD8\x37\xDCb\0", 3);
    consumes_all::<encstr::encoding::Utf16BE>(b"\0A\xD8\x01\xDC\x37\0b", 3);
    consumes_all::<Utf32>(&[0x41, 0, 0, 0, 0x37, 0x04, 0x01, 0], 2);
    consumes_all::<encstr::encoding::Utf32BE>(&[0, 0, 0, 0x41, 0, 0x01, 0x04, 0x37], 2);
    consumes_all::<Ascii>(b"abc", 3);
    consumes_all::<Win1252>(b"a\x80\xFF", 3);
    consumes_all::<encstr::encoding::ShiftJIS>(&[0x83, 0x6E, 0x5C, 0xB1, 0x82, 0x9F], 4);
    consumes_all::<encstr::encoding::JisX0208>(&[0x0A, 0x25, 0x4F, 0x7F, 0x24, 0x21], 4);
}
