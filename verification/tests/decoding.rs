use mcutt::packet::{parse_str, ControlPacketType, DecodeError, FixedHeader, PacketIdentifier, RemainingLength, TypeFlags};
use mcutt::v3::header::{BytesBuf, PacketId, RemainingLengthError, Str, StrError};
use mcutt::v3::publish::{ClientPublish, PublishTopic, TopicError};

#[test]
fn packet_should_parse_example_str() {
    let example: &[u8] = &[0x00, 0x05, 0x41, 0xF0, 0xAA, 0x9B, 0x94];
    let expected: &str = "A𪛔";

    let (s, rest) = parse_str(example).unwrap();

    assert!(rest.is_empty());

    assert_eq!(s, expected);
}

#[test]
fn packet_should_convert_packet_type() {
    for i in 1..14 {
        let t = ControlPacketType::try_from(i).unwrap();

        let b = u8::from(t);

        assert_eq!(i, b);
    }
}

#[test]
fn packet_should_parse_fixed_headers_remaining_length() {
    let data: &[(u32, &[u8])] = &[
        (0, &[0b00010000, 0x00]),
        (127, &[0b00010000, 0x7F]),
        (128, &[0b00010000, 0x80, 0x01]),
        (16_383, &[0b00010000, 0xFF, 0x7F]),
        (16_384, &[0b00010000, 0x80, 0x80, 0x01]),
        (2_097_151, &[0b00010000, 0xFF, 0xFF, 0x7F]),
        (2_097_152, &[0b00010000, 0x80, 0x80, 0x80, 0x01]),
        (268_435_455, &[0b00010000, 0xFF, 0xFF, 0xFF, 0x7F]),
    ];

    for (exp, bytes) in data {
        let (fixed, rest) = FixedHeader::parse(bytes).unwrap();

        assert!(rest.is_empty());

        assert_eq!(fixed.remaining_length().get(), *exp);
    }
}

#[test]
fn packet_fixed_header_errors() {
    assert_eq!(
        FixedHeader::parse(&[0x10]).unwrap_err(),
        DecodeError::NotEnoughBytes { needed: 1, actual: 0 }
    );
    assert_eq!(
        FixedHeader::parse(&[0x10, 0x80, 0x80, 0x80, 0x80, 0x01]).unwrap_err(),
        DecodeError::RemainingLengthBytes
    );
    assert_eq!(FixedHeader::parse(&[0xF0, 0x00]).unwrap_err(), DecodeError::PacketType(15));
    let err = FixedHeader::parse(&[0x41, 0x00]).unwrap_err();
    assert!(matches!(err, DecodeError::ControlFlags { packet_type: ControlPacketType::PubAck, .. }));
    let (fixed, _) = FixedHeader::parse(&[0x82, 0x00]).unwrap();
    assert_eq!(*fixed.packet_type(), ControlPacketType::Subscribe);
    assert_eq!(fixed.flags().bits(), 0b0010);
}

#[test]
fn packet_string_errors() {
    assert_eq!(
        parse_str(&[0x00]).unwrap_err(),
        DecodeError::NotEnoughBytes { needed: 2, actual: 1 }
    );
    assert_eq!(
        parse_str(&[0x00, 0x03, b'a']).unwrap_err(),
        DecodeError::NotEnoughBytes { needed: 3, actual: 1 }
    );
    assert_eq!(parse_str(&[0x00, 0x01, 0xFF]).unwrap_err(), DecodeError::Utf8);
}

#[test]
fn packet_identifier_and_remaining_length() {
    let (id, rest) = PacketIdentifier::parse(&[0x01, 0x02, 0x03]).unwrap();
    assert_eq!(id.get(), 258);
    assert_eq!(rest, [3]);
    assert_eq!(PacketIdentifier::parse(&[0, 0]).unwrap_err(), DecodeError::PacketIdentifier);

    assert_eq!(RemainingLength::try_from(268_435_455).unwrap().get(), 268_435_455);
    assert_eq!(
        RemainingLength::try_from(268_435_456).unwrap_err(),
        DecodeError::MaxRemainingLength(268_435_456)
    );
}

#[test]
fn should_reject_wildcards() {
    let err = PublishTopic::try_from("/foo/+").unwrap_err();

    assert!(matches!(err, TopicError::Wildcard));

    let err = PublishTopic::try_from("/foo/#").unwrap_err();

    assert!(matches!(err, TopicError::Wildcard));
}

#[test]
fn publish_topic_checks_the_string() {
    assert!(matches!(PublishTopic::try_from("a\u{0001}"), Err(TopicError::Str(StrError::Utf8))));
    assert_eq!(PublishTopic::try_from("a/b").unwrap().as_str(), "a/b");

    let mut publish = ClientPublish::new(PublishTopic::try_from("a/b").unwrap(), b"x");
    assert!(!publish.is_retain());
    publish.retain();
    assert!(publish.is_retain());
    assert_eq!(publish.payload(), b"x");
}

#[test]
fn header_str_and_buffers() {
    assert_eq!(Str::new().as_str(), "");
    assert_eq!(Str::try_from("é").unwrap().len_as_bytes(), 2);
    let long = "a".repeat(65_536);
    assert!(matches!(Str::try_from(&long), Err(StrError::MaxBytes { len: 65_536 })));

    let bytes = vec![0u8; 65_536];
    assert_eq!(BytesBuf::try_from(&bytes).unwrap_err().len(), 65_536);
    assert_eq!(BytesBuf::try_from(&bytes[..3]).unwrap().as_slice(), [0, 0, 0]);

    assert!(PacketId::try_from(0).is_err());
    assert_eq!(PacketId::try_from_usize(7).unwrap().get(), 7);
    assert!(PacketId::try_from_usize(65_536).is_err());
    assert_eq!(usize::from(PacketId::try_from(9).unwrap()), 9);

    assert!(matches!(
        mcutt::v3::header::RemainingLength::try_from(268_435_456),
        Err(RemainingLengthError::Max { value: 268_435_456 })
    ));
    assert_eq!(mcutt::v3::header::RemainingLength::try_from(16_384).unwrap().bytes_len(), 3);
}

#[test]
fn packet_remaining_length_stops_at_the_end_of_the_buffer() {
    let (fixed, rest) = FixedHeader::parse(&[0x10, 0x80]).unwrap();
    assert_eq!(fixed.remaining_length().get(), 0);
    assert!(rest.is_empty());
}

#[test]
fn packet_decode_error_messages() {
    assert_eq!(
        DecodeError::NotEnoughBytes { needed: 12, actual: 3 }.message(),
        "not enough bytes, buffer contains 3 but 12 were needed"
    );
    assert_eq!(DecodeError::Utf8.message(), "the string was not UTF-8 encoded");
    assert_eq!(
        DecodeError::RemainingLengthBytes.message(),
        "remaining length exceeded the maximum of 4 bytes"
    );
    assert_eq!(
        DecodeError::ControlFlags { packet_type: ControlPacketType::PubAck, flags: TypeFlags(2) }.message(),
        "invalid control packet flags 0002 for PUBACK(4)"
    );
    assert_eq!(
        DecodeError::ControlFlags { packet_type: ControlPacketType::Disconnect, flags: TypeFlags(15) }.message(),
        "invalid control packet flags 0015 for DISCONNECT(14)"
    );
    assert_eq!(DecodeError::PacketType(15).message(), "invalid control packet type 15");
    assert_eq!(
        DecodeError::MaxRemainingLength(300_000_000).message(),
        "remaining length 300000000 is bigger than the maximum 268435455"
    );
    assert_eq!(DecodeError::PacketIdentifier.message(), "the packet identifier needs to be non-zero");
}
