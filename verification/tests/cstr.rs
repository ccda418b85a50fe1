use encstr::cstr::{FromBytesTilNulError, FromBytesWithNulError, FromBytesWithNulValidError};
use encstr::cstring::{CStringErrorCause, NulError};
use encstr::encoding::{Ascii, ExtendedAscii, Utf8, ValidateError};
use encstr::{CStr, CString, Str, String};

#[test]
fn test_from_bytes_with_nul() {
    assert!(CStr::<Ascii>::from_bytes_with_nul(b"Hello World!\0").is_ok());
    assert_eq!(
        CStr::<Ascii>::from_bytes_with_nul(b"Hello World!"),
        Err(FromBytesWithNulError::MissingNull)
    );
    assert_eq!(
        CStr::<Ascii>::from_bytes_with_nul(b"Hello\0World!\0"),
        Err(FromBytesWithNulError::HasNull { idx: 5 })
    );
    assert!(matches!(
        CStr::<Utf8>::from_bytes_with_nul(b"Hello\xD8World!\0"),
        Err(FromBytesWithNulError::Invalid(_))
    ));
}

#[test]
fn test_from_bytes_til_nul() {
    let base = CStr::<Ascii>::from_bytes_til_nul(b"Hello World!\0").unwrap();
    assert_eq!(
        CStr::<Ascii>::from_bytes_til_nul(b"Hello World!\0Goodbye"),
        Ok(base),
    );
    assert_eq!(
        CStr::<Ascii>::from_bytes_til_nul(b"Hello World!"),
        Err(FromBytesTilNulError::MissingNull),
    );
    assert!(matches!(
        CStr::<Utf8>::from_bytes_til_nul(b"Hello\x86World!\0"),
        Err(FromBytesTilNulError::Invalid(_))
    ));
    assert_eq!(
        CStr::<Utf8>::from_bytes_til_nul(b"Hello World!\0\x86"),
        CStr::from_bytes_til_nul(b"Hello World!\0"),
    );
}

#[test]
fn test_bytes_with_nul() {
    let c = CStr::<Utf8>::from_bytes_til_nul(b"Hello World!\0").unwrap();

    assert_eq!(c.as_bytes(), b"Hello World!");
    assert_eq!(c.as_bytes_with_nul(), b"Hello World!\0");
}

#[test]
fn c_string_slices() {
    let c = CStr::<Utf8>::from_bytes_with_nul(b"a\xE2\x82\xACb\0").unwrap();
    assert_eq!(c.len(), 5);
    assert!(!c.is_empty());
    assert_eq!(c.as_str().as_std(), "a€b");
    assert_eq!(c.get(1).unwrap().as_bytes_with_nul(), b"\xE2\x82\xACb\0");
    assert_eq!(c.get(5).unwrap().as_bytes_with_nul(), b"\0");
    assert!(c.get(2).is_none());
    assert!(c.get(6).is_none());
    assert_eq!(c.check_bounds(4), Some(()));
    assert_eq!(c.check_bounds(3), None);
    let (left, right) = c.split_at(4).unwrap();
    assert_eq!(left.as_std(), "a€");
    assert_eq!(right.as_bytes_with_nul(), b"b\0");
    assert!(c.split_at(5).is_none());
    assert!(c.split_at(2).is_none());
    assert!(CStr::<Ascii>::empty().is_empty());
    assert_eq!(CStr::<Ascii>::empty().as_bytes_with_nul(), b"\0");
    assert_eq!(
        CStr::<Ascii>::from_bytes_with_nul(b""),
        Err(FromBytesWithNulError::MissingNull)
    );
    assert_eq!(
        CStr::<Ascii>::from_bytes_with_nul(b"a\xFF\0"),
        Err(FromBytesWithNulError::Invalid(ValidateError { valid_up_to: 1, error_len: Some(1) }))
    );
    assert_eq!(
        CStr::<Ascii>::from_bytes_til_nul(b"a\xFF\0"),
        Err(FromBytesTilNulError::Invalid(ValidateError { valid_up_to: 1, error_len: Some(1) }))
    );
    assert_eq!(c.to_owned().into_bytes_with_nul(), b"a\xE2\x82\xACb\0");
}

#[test]
fn c_strings_of_encodings_without_invalid_bytes() {
    let c = CStr::<ExtendedAscii>::from_bytes_til_nul_valid(b"a\xFF\0b\0").unwrap();
    assert_eq!(c.as_bytes_with_nul(), b"a\xFF\0");
    assert!(CStr::<ExtendedAscii>::from_bytes_til_nul_valid(b"a\xFF").is_err());
    let c = CStr::<ExtendedAscii>::from_bytes_with_nul_valid(b"a\xFF\0").unwrap();
    assert_eq!(c.as_bytes(), b"a\xFF");
    assert_eq!(
        CStr::<ExtendedAscii>::from_bytes_with_nul_valid(b"a\0b\0"),
        Err(FromBytesWithNulValidError::HasNull { idx: 1 })
    );
    assert_eq!(
        CStr::<ExtendedAscii>::from_bytes_with_nul_valid(b"ab"),
        Err(FromBytesWithNulValidError::MissingNull)
    );
    assert_eq!(
        CString::<ExtendedAscii>::new_valid(b"a\xFF".to_vec()).unwrap().into_bytes_with_nul(),
        b"a\xFF\0"
    );
    assert_eq!(
        CString::<ExtendedAscii>::new_valid(b"a\0b".to_vec()),
        Err(NulError { bytes: b"a\0b".to_vec(), nul_pos: 1 })
    );
}

#[test]
fn owned_c_strings() {
    let c = CString::<Utf8>::new(b"a\xE2\x82\xACb".to_vec()).unwrap();
    assert_eq!(c.as_c_str().as_bytes_with_nul(), b"a\xE2\x82\xACb\0");
    assert_eq!(c.as_str().as_std(), "a€b");
    let err = CString::<Utf8>::new(b"a\0b".to_vec()).unwrap_err();
    assert_eq!(err.cause(), &CStringErrorCause::HasNull { idx: 1 });
    assert_eq!(err.cause().write_cause(), "null byte encountered");
    assert_eq!(err.into_vec(), b"a\0b");
    let err = CString::<Utf8>::new(b"a\xFFb".to_vec()).unwrap_err();
    assert_eq!(
        err.cause(),
        &CStringErrorCause::Invalid(ValidateError { valid_up_to: 1, error_len: Some(1) })
    );
    assert_eq!(err.cause().write_cause(), "validation failed");
    assert_eq!(err.into_vec(), b"a\xFFb");
    let s = String::<Utf8>::from_std("a€b".to_string());
    let c = s.into_cstring().unwrap();
    assert_eq!(c.into_string().into_std(), "a€b");
    let s = String::<Utf8>::from_std("a\0b".to_string());
    let err = s.into_cstring().unwrap_err();
    assert_eq!(err.nul_position(), 1);
    assert_eq!(err.into_vec(), b"a\0b");
    let c = CString::<Ascii>::from_string(Str::<Ascii>::from_bytes(b"abc").unwrap().to_owned())
        .unwrap();
    assert_eq!(c.into_bytes(), b"abc");
}

#[test]
fn copying_into_buffers() {
    let mut buffer = *b"abc\0";
    let other = CStr::<Ascii>::from_bytes_with_nul(b"xyz\0").unwrap();
    CStr::copy_from(&mut buffer, other);
    assert_eq!(&buffer, b"xyz\0");

    let mut buffer = *b"a\xE2\x82\xACb\0";
    let other = CStr::<Utf8>::from_bytes_with_nul(b"12\xC3\xA9\xC3\xA8\0").unwrap();
    // The euro sign gives way to three bytes of the other string.
    CStr::copy_range(&mut buffer, other, 1, 4, 1, 4);
    assert_eq!(&buffer, b"a2\xC3\xA9b\0");
    assert!(CStr::<Utf8>::from_bytes_with_nul(&buffer).is_ok());
    CStr::copy_range(&mut buffer, other, 5, 5, 0, 0);
    assert_eq!(&buffer, b"a2\xC3\xA9b\0");

    let mut buffer = *b"abc";
    Str::copy_from(&mut buffer, Str::<Ascii>::from_bytes(b"xyz").unwrap());
    assert_eq!(&buffer, b"xyz");

    let mut s = String::<Utf8>::from_std("a€b".to_string());
    s.copy_from(Str::from_std("€ab"));
    assert_eq!(s.into_std(), "€ab");
}
