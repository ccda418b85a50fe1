use encstr::encoding::{Ascii, Utf16LE, Utf8, Win1252};
use encstr::string::{CowStr, EncodedChunks, InvalidChar};
use encstr::{Str, String};

#[test]
fn test_from_lossy_utf8() {
    assert_eq!(
        String::<Utf8>::from_bytes_lossy(b"Ab\xF0\x90\x90\xB7def"),
        CowStr::Borrowed(Str::from_std("Ab𐐷def")),
    );
    assert_eq!(
        String::<Utf8>::from_bytes_lossy(b"Abcd \xD8\xF0\x90\x90\xB7"),
        CowStr::Owned(Str::from_std("Abcd �𐐷").to_owned()),
    );
    assert_eq!(
        String::<Utf8>::from_bytes_lossy(b"A\xD8B\xD9C\xDAD"),
        CowStr::Owned(Str::from_std("A�B�C�D").to_owned()),
    );
}

#[test]
fn lossy_decoding_of_cut_off_and_empty_input() {
    assert_eq!(
        String::<Utf8>::from_bytes_lossy(b""),
        CowStr::Borrowed(Str::from_std("")),
    );
    // A character that the end of the input cuts off becomes one replacement character.
    assert_eq!(
        String::<Utf8>::from_bytes_lossy(b"ab\xF0\x90\x90"),
        CowStr::Owned(Str::from_std("ab�").to_owned()),
    );
    assert_eq!(
        String::<Utf8>::from_bytes_lossy(b"\xFF").as_str().as_std(),
        "�"
    );
    assert_eq!(
        String::<Ascii>::from_bytes_lossy(b"a\x80\x81b").into_owned().into_bytes(),
        b"a\x1A\x1Ab"
    );
    assert_eq!(
        String::<Utf16LE>::from_bytes_lossy(b"a\0\x01\xD8b\0c").as_str().as_bytes(),
        b"a\0\xFD\xFFb\0\xFD\xFF"
    );
    for bytes in [&b"Abcd \xD8\xF0\x90\x90\xB7"[..], b"A\xD8B\xD9C\xDAD", b"ab\xF0\x90\x90"] {
        let ours = String::<Utf8>::from_bytes_lossy(bytes);
        assert_eq!(ours.as_str().as_std(), std::string::String::from_utf8_lossy(bytes));
    }
}

#[test]
fn chunks_of_a_malformed_buffer() {
    let mut chunks = EncodedChunks::<Utf8>::new(b"ab\xFFcd\xE2\x82");
    let chunk = chunks.next().unwrap();
    assert_eq!(chunk.valid().as_std(), "ab");
    assert_eq!(chunk.invalid(), b"\xFF");
    let chunk = chunks.next().unwrap();
    assert_eq!(chunk.valid().as_std(), "cd");
    assert_eq!(chunk.invalid(), b"\xE2\x82");
    assert!(chunks.next().is_none());
    let mut chunks = EncodedChunks::<Utf8>::new(b"ab");
    let chunk = chunks.next().unwrap();
    assert_eq!(chunk.valid().as_std(), "ab");
    assert_eq!(chunk.invalid(), b"");
    assert!(chunks.next().is_none());
}

#[test]
fn growing_a_string() {
    let mut s = String::<Win1252>::new();
    s.push('A');
    s.push('€');
    assert!(matches!(s.try_push('𐐷'), Err(InvalidChar { .. })));
    assert_eq!(s.try_push('ÿ'), Ok(()));
    s.push_str(Str::from_bytes(b"\x80!").unwrap());
    assert_eq!(s.as_str().as_bytes(), b"A\x80\xFF\x80!");
    assert_eq!(s.as_str().chars().collect(), vec!['A', '€', 'ÿ', '€', '!']);
    assert_eq!(s.into_bytes(), b"A\x80\xFF\x80!");
    assert_eq!(String::<Utf8>::with_capacity(8).into_bytes(), b"");
    assert_eq!(String::<Win1252>::from_iter(&['A', '€', 'ÿ']).into_bytes(), b"A\x80\xFF");
    assert_eq!(String::<Utf16LE>::from_iter(&[]).into_bytes(), b"");
    assert!(String::<Ascii>::from_bytes(b"abc".to_vec()).is_ok());
    let err = String::<Ascii>::from_bytes(b"ab\xFF".to_vec()).unwrap_err();
    assert_eq!(err.valid_up_to(), 2);
    assert_eq!(err.error_len(), Some(1));
    let std = std::string::String::from("a€");
    let ours = String::from_std(std.clone());
    assert_eq!(ours.as_str().as_bytes(), std.as_bytes());
    assert_eq!(ours.into_std(), std);
}
