use cyberpixie::Error;

#[test]
fn error_codes_of_known_errors() {
    assert_eq!(Error::StripLengthMismatch.into_code(), 1);
    assert_eq!(Error::ImageRenderIsBusy.into_code(), 13);
    assert_eq!(Error::Internal.into_code(), 14);
    assert_eq!(Error::Unspecified(500).into_code(), 500);
}

#[test]
fn errors_of_codes() {
    assert_eq!(Error::from_code(1), Error::StripLengthMismatch);
    assert_eq!(Error::from_code(6), Error::ImageNotFound);
    assert_eq!(Error::from_code(13), Error::ImageRenderIsBusy);
    assert_eq!(Error::from_code(14), Error::Internal);
    assert_eq!(Error::from_code(42), Error::Unspecified(42));
    assert_eq!(Error::from_code(0), Error::Unspecified(0));
}

#[test]
fn code_roundtrip() {
    for code in 0..=200_u16 {
        assert_eq!(Error::from_code(code).into_code(), code);
    }
    assert_eq!(Error::from_code(Error::Internal.into_code()), Error::Internal);
}

#[test]
fn error_constructors() {
    assert_eq!(Error::storage_read("disk"), Error::StorageRead);
    assert_eq!(Error::storage_write(1), Error::StorageWrite);
    assert_eq!(Error::network(()), Error::Network);
    assert_eq!(Error::decode("bad"), Error::Decode);
    assert_eq!(Error::encode("bad"), Error::Encode);
    assert_eq!(Error::internal("oops"), Error::Internal);
}
