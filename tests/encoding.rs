use ruma_core::encoding::{Base64, Base64Error, Standard, UrlSafe};

#[test]
fn base64_encodes_unpadded() {
    assert_eq!(Base64::<Standard>::new(b"foo".to_vec()).encode(), "Zm9v");
    assert_eq!(Base64::<Standard>::new(b"fo".to_vec()).encode(), "Zm8");
    assert_eq!(Base64::<Standard>::empty().encode(), "");
}

#[test]
fn base64_alphabets_differ() {
    let bytes = vec![0xfb, 0xff];
    assert_eq!(Base64::<Standard>::new(bytes.clone()).encode(), "+/8");
    assert_eq!(Base64::<UrlSafe>::new(bytes).encode(), "-_8");
}

#[test]
fn base64_parses() {
    let b = Base64::<Standard>::parse("Zm9v").unwrap();
    assert_eq!(b.as_bytes(), b"foo");
    assert_eq!(b.into_inner(), b"foo".to_vec());
    assert_eq!(Base64::<UrlSafe>::parse("-_8").unwrap().as_bytes(), &[0xfb, 0xff]);
}

#[test]
fn base64_tolerates_trailing_bits() {
    // "Zm9" and "Zm8" differ only in bits that no byte uses.
    assert_eq!(Base64::<Standard>::parse("Zm9").unwrap().as_bytes(), b"fo");
}

#[test]
fn base64_rejects_invalid_text() {
    assert_eq!(Base64::<Standard>::parse("Zm9v!").err(), Some(Base64Error::InvalidText));
    assert_eq!(Base64::<Standard>::parse("-_8").err(), Some(Base64Error::InvalidText));
}
