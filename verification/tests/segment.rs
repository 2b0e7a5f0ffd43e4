use qr_lib::EncodeQrSegmentError;
use qr_lib::QrSegment;
use qr_lib::QrSegmentMode;
use qr_lib::QrVersion;

fn version(n: u8) -> QrVersion {
    QrVersion::try_from(n).unwrap()
}

fn bit_string(segment: &QrSegment) -> String {
    let mut text = String::new();
    let mut i: usize = 0;
    while i < segment.len() {
        text.push(if segment.get(i) == Some(true) { '1' } else { '0' });
        i += 1;
    }
    text
}

fn repeat(c: char, n: usize) -> String {
    let mut text = String::new();
    for _ in 0..n {
        text.push(c);
    }
    text
}

#[test]
fn encodes_ac_42() {
    let segment = QrSegment::encode_alphanumeric(version(1), "AC-42").unwrap();
    let expected = [
        "0001",
        "000000101",
        "00111001110",
        "11100111001",
        "000010",
        "0000",
        "000",
    ]
    .concat();
    assert_eq!(bit_string(&segment), expected);
    assert_eq!(segment.len(), 48);
    assert_eq!(segment.mode(), QrSegmentMode::Alphanumeric);
}

#[test]
fn encodes_hello_world() {
    let segment = QrSegment::encode_alphanumeric(version(1), "HELLO WORLD").unwrap();
    let expected = [
        "0001",
        "000001011",
        "01100001011",
        "01111000110",
        "10001011100",
        "10110111000",
        "10011010100",
        "001101",
        "0000",
        "00",
    ]
    .concat();
    assert_eq!(bit_string(&segment), expected);
    assert_eq!(segment.len(), 80);
}

#[test]
fn encodes_the_empty_text() {
    let segment = QrSegment::encode_alphanumeric(version(1), "").unwrap();
    assert_eq!(bit_string(&segment), "000100000000000000000000");
    assert_eq!(segment.get(3), Some(true));
    assert_eq!(segment.get(23), Some(false));
    assert_eq!(segment.get(24), None);
}

#[test]
fn count_indicator_grows_with_the_version() {
    let nine = QrSegment::encode_alphanumeric(version(9), "A").unwrap();
    assert_eq!(bit_string(&nine), ["0001", "000000001", "001010", "0000", "0"].concat());
    let ten = QrSegment::encode_alphanumeric(version(10), "A").unwrap();
    assert_eq!(bit_string(&ten), ["0001", "00000000001", "001010", "0000", "0000000"].concat());
    let late = QrSegment::encode_alphanumeric(version(27), "A").unwrap();
    assert_eq!(bit_string(&late), ["0001", "0000000000001", "001010", "0000", "00000"].concat());
}

#[test]
fn whole_bytes_need_no_padding() {
    let segment = QrSegment::encode_alphanumeric(version(1), "0123456789").unwrap();
    assert_eq!(segment.len(), 72);
    let expected = [
        "0001",
        "000001010",
        "00000000001",
        "00001011101",
        "00010111001",
        "00100010101",
        "00101110001",
        "0000",
    ]
    .concat();
    assert_eq!(bit_string(&segment), expected);
}

#[test]
fn largest_pair_fills_eleven_bits() {
    let segment = QrSegment::encode_alphanumeric(version(1), "::").unwrap();
    // 44 * 45 + 44 = 2024
    assert_eq!(bit_string(&segment), ["0001", "000000010", "11111101000", "0000", "0000"].concat());
}

#[test]
fn length_is_always_whole_bytes() {
    let alphabet = "0123456789ABCDEFGHIJKLMNOPQRSTUVWXYZ $%*+-./:";
    for n in [1u8, 9, 10, 26, 27, 40] {
        for count in 0..=alphabet.len() {
            let text = &alphabet[..count];
            let segment = QrSegment::encode_alphanumeric(version(n), text).unwrap();
            assert_eq!(segment.len() % 8, 0);
            let width: usize = if n <= 9 {
                9
            } else if n <= 26 {
                11
            } else {
                13
            };
            let body = 4 + width + 11 * (count / 2) + 6 * (count % 2) + 4;
            assert_eq!(segment.len(), (body + 7) / 8 * 8);
        }
    }
}

#[test]
fn lowercase_is_refused() {
    let r = QrSegment::encode_alphanumeric(version(1), "AC-42a");
    assert!(matches!(r, Err(EncodeQrSegmentError::InvalidAlphanumericCharacter('a'))));
    let r = QrSegment::encode_alphanumeric(version(1), "hello");
    assert!(matches!(r, Err(EncodeQrSegmentError::InvalidAlphanumericCharacter('h'))));
}

#[test]
fn at_sign_is_refused() {
    let r = QrSegment::encode_alphanumeric(version(1), "A@B");
    assert!(matches!(r, Err(EncodeQrSegmentError::InvalidAlphanumericCharacter('@'))));
}

#[test]
fn first_offending_character_is_named() {
    let r = QrSegment::encode_alphanumeric(version(5), "AB#cd@");
    assert!(matches!(r, Err(EncodeQrSegmentError::InvalidAlphanumericCharacter('#'))));
    let r = QrSegment::encode_alphanumeric(version(5), "ABCDEFGHIJKLMNOPQRSTUVWXYZ!a");
    assert!(matches!(r, Err(EncodeQrSegmentError::InvalidAlphanumericCharacter('!'))));
}

#[test]
fn characters_beyond_ascii_are_refused() {
    let r = QrSegment::encode_alphanumeric(version(1), "CAF\u{c9}");
    assert!(matches!(r, Err(EncodeQrSegmentError::InvalidAlphanumericCharacter('\u{c9}'))));
    let r = QrSegment::encode_alphanumeric(version(1), "\u{1f600}A");
    assert!(matches!(r, Err(EncodeQrSegmentError::InvalidAlphanumericCharacter('\u{1f600}'))));
}

#[test]
fn count_must_fit_the_indicator() {
    let fits = repeat('A', 511);
    let segment = QrSegment::encode_alphanumeric(version(1), &fits).unwrap();
    assert_eq!(segment.len(), 2832);
    assert_eq!(&bit_string(&segment)[..13], "0001111111111");
    let long = repeat('A', 512);
    assert!(matches!(
        QrSegment::encode_alphanumeric(version(1), &long),
        Err(EncodeQrSegmentError::InputTooLong)
    ));
    assert!(matches!(
        QrSegment::encode_alphanumeric(version(9), &long),
        Err(EncodeQrSegmentError::InputTooLong)
    ));
    assert!(QrSegment::encode_alphanumeric(version(10), &long).is_ok());
}

#[test]
fn count_limits_of_the_wider_indicators() {
    assert!(QrSegment::encode_alphanumeric(version(26), &repeat('9', 2047)).is_ok());
    assert!(matches!(
        QrSegment::encode_alphanumeric(version(26), &repeat('9', 2048)),
        Err(EncodeQrSegmentError::InputTooLong)
    ));
    assert!(QrSegment::encode_alphanumeric(version(27), &repeat('9', 2048)).is_ok());
    assert!(QrSegment::encode_alphanumeric(version(40), &repeat('9', 8191)).is_ok());
    assert!(matches!(
        QrSegment::encode_alphanumeric(version(40), &repeat('9', 8192)),
        Err(EncodeQrSegmentError::InputTooLong)
    ));
}

#[test]
fn offending_character_comes_before_length() {
    let mut long = repeat('A', 600);
    long.push('z');
    assert!(matches!(
        QrSegment::encode_alphanumeric(version(1), &long),
        Err(EncodeQrSegmentError::InvalidAlphanumericCharacter('z'))
    ));
}

#[test]
fn count_indicator_tiers() {
    let rows = [
        (QrSegmentMode::Numeric, [10usize, 12, 14]),
        (QrSegmentMode::Alphanumeric, [9, 11, 13]),
        (QrSegmentMode::Byte, [8, 16, 16]),
        (QrSegmentMode::Kanji, [8, 10, 12]),
    ];
    for (mode, widths) in rows {
        let mut n: u8 = 1;
        while n <= 40 {
            let tier: usize = if n <= 9 {
                0
            } else if n <= 26 {
                1
            } else {
                2
            };
            assert_eq!(mode.character_count_indicator_length(version(n)), widths[tier]);
            n += 1;
        }
    }
}

#[test]
fn count_indicator_tier_boundaries() {
    let mode = QrSegmentMode::Alphanumeric;
    assert_eq!(mode.character_count_indicator_length(version(1)), 9);
    assert_eq!(mode.character_count_indicator_length(version(9)), 9);
    assert_eq!(mode.character_count_indicator_length(version(10)), 11);
    assert_eq!(mode.character_count_indicator_length(version(26)), 11);
    assert_eq!(mode.character_count_indicator_length(version(27)), 13);
    assert_eq!(mode.character_count_indicator_length(version(40)), 13);
}

#[test]
fn mode_indicators() {
    assert!(matches!(QrSegmentMode::Alphanumeric.mode_indicator(), Ok(0b0001)));
    assert!(matches!(QrSegmentMode::Byte.mode_indicator(), Ok(0b0100)));
    assert!(matches!(QrSegmentMode::Kanji.mode_indicator(), Ok(0b1000)));
}

#[test]
fn numeric_mode_has_no_indicator_yet() {
    assert!(matches!(
        QrSegmentMode::Numeric.mode_indicator(),
        Err(EncodeQrSegmentError::UnsupportedMode(QrSegmentMode::Numeric))
    ));
}

#[test]
fn mode_indicators_tell_the_modes_apart() {
    let modes = [
        QrSegmentMode::Numeric,
        QrSegmentMode::Alphanumeric,
        QrSegmentMode::Byte,
        QrSegmentMode::Kanji,
    ];
    for first in modes {
        for second in modes {
            let same = match (first.mode_indicator(), second.mode_indicator()) {
                (Ok(a), Ok(b)) => a == b,
                (Err(_), Err(_)) => true,
                _ => false,
            };
            assert_eq!(same, first == second);
            if let Ok(indicator) = first.mode_indicator() {
                assert!(indicator < 16);
            }
        }
    }
}

#[test]
fn chunk_lengths() {
    assert_eq!(QrSegmentMode::Numeric.chunk_length(), 10);
    assert_eq!(QrSegmentMode::Alphanumeric.chunk_length(), 11);
}

#[test]
fn alphabet_values() {
    let alphabet = "0123456789ABCDEFGHIJKLMNOPQRSTUVWXYZ $%*+-./:";
    let mut expected: u8 = 0;
    for c in alphabet.chars() {
        assert!(matches!(QrSegment::try_as_alphanumeric_codepoint(c), Ok(code) if code == expected));
        expected += 1;
    }
    assert_eq!(expected, 45);
}

#[test]
fn characters_outside_the_alphabet() {
    for c in ['a', 'z', '@', '!', '#', '&', ',', ';', '_', '\n', '\0', '\u{7f}', '\u{e9}', '\u{ff10}'] {
        let r = QrSegment::try_as_alphanumeric_codepoint(c);
        assert!(matches!(r, Err(EncodeQrSegmentError::InvalidAlphanumericCharacter(named)) if named == c));
    }
}

#[test]
fn codepoints_of_a_text() {
    assert_eq!(QrSegment::alphanumeric_codepoints("AC-42").unwrap(), vec![10, 12, 41, 4, 2]);
    assert_eq!(QrSegment::alphanumeric_codepoints("").unwrap(), Vec::<u8>::new());
    assert!(matches!(
        QrSegment::alphanumeric_codepoints("A b"),
        Err(EncodeQrSegmentError::InvalidAlphanumericCharacter('b'))
    ));
}

#[test]
fn pairs_and_single_codes() {
    assert_eq!(QrSegment::encode_alphanumeric_pair(&[10, 12]), (462, 11));
    assert_eq!(QrSegment::encode_alphanumeric_pair(&[41, 4]), (1849, 11));
    assert_eq!(QrSegment::encode_alphanumeric_pair(&[2]), (2, 6));
    assert_eq!(QrSegment::encode_alphanumeric_pair(&[44, 44]), (2024, 11));
    assert_eq!(QrSegment::encode_alphanumeric_pair(&[0, 0]), (0, 11));
    assert_eq!(QrSegment::encode_alphanumeric_pair(&[44]), (44, 6));
}

#[test]
fn numeric_segments_are_not_supported() {
    let r = QrSegment::encode_numeric("12345");
    assert!(matches!(r, Err(EncodeQrSegmentError::UnsupportedMode(QrSegmentMode::Numeric))));
}
