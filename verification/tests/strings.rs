use mcutt::v3::header::is_valid_char as header_is_valid_char;
use mcutt::v3::packets::common::string::{is_last_two_supplementary, is_valid_char, MqttStr};

fn invalid_chars() -> Vec<char> {
    let null = '\u{0000}';

    let ranges = [
        '\u{0001}'..='\u{001F}',
        '\u{FDD0}'..='\u{FDEF}',
        '\u{FFFE}'..='\u{FFFF}',
    ];

    let supplementary = [
        '\u{1FFFE}',
        '\u{1FFFF}',
        '\u{2FFFE}',
        '\u{2FFFF}',
        '\u{3FFFE}',
        '\u{3FFFF}',
        '\u{4FFFE}',
        '\u{4FFFF}',
        '\u{5FFFE}',
        '\u{5FFFF}',
        '\u{6FFFE}',
        '\u{6FFFF}',
        '\u{7FFFE}',
        '\u{7FFFF}',
        '\u{8FFFE}',
        '\u{8FFFF}',
        '\u{9FFFE}',
        '\u{9FFFF}',
        '\u{10FFFE}',
        '\u{10FFFF}',
    ];

    core::iter::once(null)
        .chain(ranges.into_iter().flatten())
        .chain(supplementary)
        .collect()
}

#[test]
fn header_should_be_a_valid_char() {
    for c in invalid_chars() {
        assert!(
            !header_is_valid_char(c),
            "should not be valid {:08X}",
            u32::from(c)
        );
    }
}

#[test]
fn header_alpha_numeric_should_be_valid() {
    let iter = ['a'..='z', 'A'..='Z', '0'..='9'];
    for c in iter.into_iter().flatten() {
        assert!(header_is_valid_char(c));
    }
}

#[test]
fn mod_should_be_a_valid_char() {
    for c in invalid_chars() {
        assert!(
            !header_is_valid_char(c),
            "should not be valid {:08X}",
            u32::from(c)
        );
    }
}

#[test]
fn mod_alpha_numeric_should_be_valid() {
    let iter = ['a'..='z', 'A'..='Z', '0'..='9'];
    for c in iter.into_iter().flatten() {
        assert!(header_is_valid_char(c));
    }
}

#[test]
fn string_should_be_a_valid_char() {
    for c in invalid_chars() {
        assert!(
            !is_valid_char(c),
            "should not be valid {:08X}",
            u32::from(c)
        );
    }
}

#[test]
fn string_alpha_numeric_should_be_valid() {
    let iter = ['a'..='z', 'A'..='Z', '0'..='9'];
    for c in iter.into_iter().flatten() {
        assert!(is_valid_char(c));
    }
}

#[test]
fn string_should_parse_example_str() {
    let example: &[u8] = &[0x00, 0x05, 0x41, 0xF0, 0xAA, 0x9B, 0x94];
    let expected: &str = "A𪛔";

    let (s, rest) = MqttStr::parse(example).unwrap();

    assert!(rest.is_empty());
    assert_eq!(s.as_str(), expected);
}

#[test]
fn mqttstr_eq_str() {
    let s = MqttStr::consume(&[0x00, 0x05, b'H', b'e', b'l', b'l', b'o']).unwrap();

    assert_eq!(s.as_str(), "Hello");
}

#[test]
fn other_chars_are_valid() {
    for c in ['é', ' ', '~', '\u{FDCF}', '\u{FDF0}', '\u{1FFFD}', '\u{10FFFD}', '𪛔'] {
        assert!(is_valid_char(c), "should be valid {:08X}", u32::from(c));
    }
}

#[test]
fn mqtt_str_writes_length_prefix() {
    let mut buf = Vec::new();
    let written = MqttStr::write_sync(&mut buf, "a/b").unwrap();

    assert_eq!(written, 5);
    assert_eq!(buf, [0x00, 0x03, b'a', b'/', b'b']);
}

#[test]
fn mqtt_str_rejects_invalid_chars() {
    let mut buf = Vec::new();
    let err = MqttStr::write_sync(&mut buf, "a\u{0000}b").unwrap_err();

    assert_eq!(err.kind(), mcutt::bytes::ErrorKind::Invalid);
    assert!(buf.is_empty());

    let err = MqttStr::parse(&[0x00, 0x01, 0x07]).unwrap_err();
    assert_eq!(err.kind(), mcutt::bytes::ErrorKind::Invalid);
}

#[test]
fn mqtt_str_needs_all_its_bytes() {
    let err = MqttStr::parse(&[0x00, 0x05, b'a']).unwrap_err();
    assert_eq!(err.kind(), mcutt::bytes::ErrorKind::NotEnoughSpace);

    let err = MqttStr::parse(&[0x00]).unwrap_err();
    assert_eq!(err.kind(), mcutt::bytes::ErrorKind::NotEnoughSpace);
}

#[test]
fn mqtt_str_consume_rejects_trailing_bytes() {
    let err = MqttStr::consume(&[0x00, 0x01, b'a', b'b']).unwrap_err();
    assert_eq!(err.kind(), mcutt::bytes::ErrorKind::Invalid);
}

#[test]
fn only_the_last_two_of_each_plane_are_non_characters() {
    assert!(is_last_two_supplementary('\u{1FFFE}'));
    assert!(is_last_two_supplementary('\u{10FFFF}'));
    assert!(!is_last_two_supplementary('\u{1F3FF}'));
    assert!(!is_last_two_supplementary('\u{100FE}'));
    assert!(is_valid_char('\u{1F3FF}'));
    assert!(MqttStr::validate_value("\u{100FE}").is_ok());
}
