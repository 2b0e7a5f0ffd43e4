use qr_lib::ParseQrVersionError;
use qr_lib::QrVersion;

#[test]
fn side_length_follows_the_version() {
    let mut n: u8 = 1;
    while n <= 40 {
        let version = QrVersion::try_from(n).unwrap();
        assert_eq!(version.side_length(), 4 * (usize::from(n) - 1) + 21);
        assert_eq!(version.to_u8(), n);
        n += 1;
    }
}

#[test]
fn side_length_at_the_ends() {
    assert_eq!(QrVersion::try_from(1).unwrap().side_length(), 21);
    assert_eq!(QrVersion::try_from(2).unwrap().side_length(), 25);
    assert_eq!(QrVersion::try_from(8).unwrap().side_length(), 49);
    assert_eq!(QrVersion::try_from(40).unwrap().side_length(), 177);
}

#[test]
fn versions_outside_the_range_are_refused() {
    assert!(matches!(QrVersion::try_from(0), Err(ParseQrVersionError::OutOfRange(0))));
    assert!(matches!(QrVersion::try_from(41), Err(ParseQrVersionError::OutOfRange(41))));
    assert!(matches!(QrVersion::try_from(255), Err(ParseQrVersionError::OutOfRange(255))));
    let mut n: u8 = 41;
    loop {
        assert!(QrVersion::try_from(n).is_err());
        if n == 255 {
            break;
        }
        n += 1;
    }
}

#[test]
fn version_converts_back_to_its_number() {
    let version = QrVersion::try_from(17).unwrap();
    assert_eq!(u8::from(version), 17);
    let number: u8 = version.into();
    assert_eq!(number, 17);
}

#[test]
fn versions_order_by_number() {
    let low = QrVersion::try_from(9).unwrap();
    let high = QrVersion::try_from(10).unwrap();
    assert!(low < high);
    assert_eq!(low, QrVersion::try_from(9).unwrap());
    assert_ne!(low, high);
}
