use mcutt::bytes::ErrorKind;
use mcutt::v3::packets::common::fixed::remaining_length::{RemainingLengthArray, RemainingLengthSlice};
use mcutt::v3::packets::common::fixed::{ControlPacketType, FixedHeaderSlice, TypeFlags};
use mcutt::v3::packets::common::packet_id::PacketId;

const REMAINING_LENGTHS: &[(u32, &[u8])] = &[
    (0, &[0x00]),
    (127, &[0x7F]),
    (128, &[0x80, 0x01]),
    (16_383, &[0xFF, 0x7F]),
    (16_384, &[0x80, 0x80, 0x01]),
    (2_097_151, &[0xFF, 0xFF, 0x7F]),
    (2_097_152, &[0x80, 0x80, 0x80, 0x01]),
    (268_435_455, &[0xFF, 0xFF, 0xFF, 0x7F]),
];

#[test]
fn mod_should_convert_packet_type() {
    for i in 1..14 {
        let t = ControlPacketType::try_from(i).unwrap();

        let b = u8::from(t);

        assert_eq!(i, b);
    }
}

#[test]
fn mod_should_require_more_bytes_for_fixed_header() {
    let bytes = &[0b0001_0000, 0x80];

    let err = FixedHeaderSlice::parse(bytes).unwrap_err();

    assert_eq!(err.kind(), ErrorKind::NotEnoughSpace);
}

#[test]
fn should_parse_fixed_headers_and_remaining_length() {
    for (exp, len) in REMAINING_LENGTHS {
        let mut bytes = vec![0b0001_0000];
        bytes.extend_from_slice(len);

        let (fixed, rest) =
            FixedHeaderSlice::parse(&bytes).unwrap_or_else(|err| panic!("failed {exp}: {err:?}"));

        assert!(rest.is_empty());
        assert_eq!(fixed.remaining_length().read(), *exp);
    }
}

#[test]
fn should_parse_packet_type_and_flag() {
    let cases = [
        (ControlPacketType::Connect, TypeFlags::empty(), 0b0001_0000u8),
        (ControlPacketType::ConnAck, TypeFlags::empty(), 0b0010_0000),
        (
            ControlPacketType::Publish,
            TypeFlags::publish_dup()
                .union(TypeFlags::publish_qos_2())
                .union(TypeFlags::publish_retain()),
            0b0011_1101,
        ),
        (ControlPacketType::PubAck, TypeFlags::empty(), 0b0100_0000),
        (ControlPacketType::PubRec, TypeFlags::empty(), 0b0101_0000),
        (ControlPacketType::PubRel, TypeFlags::pubrel(), 0b0110_0010),
        (ControlPacketType::PubComp, TypeFlags::empty(), 0b0111_0000),
        (ControlPacketType::Subscribe, TypeFlags::subscribe(), 0b1000_0010),
        (ControlPacketType::SubAck, TypeFlags::empty(), 0b1001_0000),
        (ControlPacketType::Unsubscribe, TypeFlags::unsubscribe(), 0b1010_0010),
        (ControlPacketType::UnsubAck, TypeFlags::empty(), 0b1011_0000),
        (ControlPacketType::PingReq, TypeFlags::empty(), 0b1100_0000),
        (ControlPacketType::PingResp, TypeFlags::empty(), 0b1101_0000),
        (ControlPacketType::Disconnect, TypeFlags::empty(), 0b1110_0000),
    ];

    for (exp_packet, exp_flags, case) in cases {
        let res = ControlPacketType::parse(case)
            .unwrap_or_else(|_| panic!("couldn't parse {case:08b}"));

        assert_eq!(res, (exp_packet, exp_flags));
    }
}

#[test]
fn should_reject_reserved_flags_and_types() {
    // PUBACK with a flag
    assert_eq!(ControlPacketType::parse(0b0100_0001).unwrap_err().kind(), ErrorKind::Invalid);
    // SUBSCRIBE without its reserved flag
    assert_eq!(ControlPacketType::parse(0b1000_0000).unwrap_err().kind(), ErrorKind::Invalid);
    // reserved types 0 and 15
    assert_eq!(ControlPacketType::parse(0b0000_0000).unwrap_err().kind(), ErrorKind::Invalid);
    assert_eq!(ControlPacketType::parse(0b1111_0000).unwrap_err().kind(), ErrorKind::Invalid);
}

#[test]
fn remaining_length_should_encode_remaining_length() {
    for (exp, case) in REMAINING_LENGTHS {
        let (len, rest) = RemainingLengthSlice::parse(case).unwrap();

        assert_eq!(rest.len(), 0);
        assert_eq!(len.read(), *exp);

        let mut buf = Vec::new();

        let written = RemainingLengthSlice::write_sync(&mut buf, exp)
            .unwrap_or_else(|_| panic!("case {exp}"));

        assert_eq!(written, case.len());
        assert_eq!(buf, *case);
    }
}

#[test]
fn should_check_too_big() {
    let err = RemainingLengthArray::<4>::write_sync(&mut Vec::new(), &u32::MAX).unwrap_err();

    assert_eq!(err.kind(), ErrorKind::OutOfRange);
}

#[test]
fn remaining_length_rejects_five_bytes() {
    let err = RemainingLengthSlice::parse(&[0x80, 0x80, 0x80, 0x80, 0x01]).unwrap_err();
    assert_eq!(err.kind(), ErrorKind::Invalid);

    let err = RemainingLengthSlice::parse(&[0x80, 0x80]).unwrap_err();
    assert_eq!(err.kind(), ErrorKind::NotEnoughSpace);
}

#[test]
fn next_frame_gives_the_packet_length() {
    assert_eq!(FixedHeaderSlice::next_frame(&[]).unwrap(), None);
    assert_eq!(FixedHeaderSlice::next_frame(&[0x30]).unwrap(), None);
    assert_eq!(FixedHeaderSlice::next_frame(&[0x30, 0x80]).unwrap(), None);
    assert_eq!(FixedHeaderSlice::next_frame(&[0x30, 0x05]).unwrap(), Some(7));
    assert_eq!(FixedHeaderSlice::next_frame(&[0x30, 0x80, 0x01, 0xAA]).unwrap(), Some(131));
    let err = FixedHeaderSlice::next_frame(&[0x30, 0x80, 0x80, 0x80, 0x80]).unwrap_err();
    assert_eq!(err.kind(), ErrorKind::Invalid);
}

#[test]
fn should_parse_packet_id() {
    let (pkid, rest) = PacketId::parse(&[0x00, 0x01, 0x42]).unwrap();

    assert_eq!(rest, &[0x42]);
    assert_eq!(pkid.read(), 1);

    let (pkid, rest) = PacketId::parse(&[0xff, 0xff, 0x42]).unwrap();

    assert_eq!(rest, &[0x42]);
    assert_eq!(pkid.read(), u16::MAX);

    let err = PacketId::parse(&[0x00, 0x00, 0x42]).unwrap_err();

    assert_eq!(err.kind(), ErrorKind::Invalid);
}

#[test]
fn packet_id_is_never_zero() {
    assert!(PacketId::new(0).is_none());
    assert_eq!(PacketId::new(10).unwrap().read(), 10);
    assert_eq!(usize::from(PacketId::new(300).unwrap()), 300);
}

#[test]
fn remaining_length_takes_one_to_four_bytes() {
    assert_eq!(RemainingLengthSlice::validate_bytes(&[]).unwrap_err().kind(), ErrorKind::Invalid);
    assert!(RemainingLengthSlice::validate_bytes(&[0x00]).is_ok());
    assert!(RemainingLengthSlice::validate_bytes(&[0xFF, 0xFF, 0xFF, 0x7F]).is_ok());
    assert_eq!(
        RemainingLengthSlice::validate_bytes(&[0xFF, 0xFF, 0xFF, 0xFF, 0x7F]).unwrap_err().kind(),
        ErrorKind::Invalid
    );
    assert_eq!(RemainingLengthSlice::validate_bytes(&[0x80]).unwrap_err().kind(), ErrorKind::Invalid);

    let (fixed, _) = FixedHeaderSlice::parse(&[0b0011_0000, 0x05]).unwrap();
    assert!(fixed.remaining_length().validate().is_ok());
    assert!(fixed.validate().is_ok());
}
