use mcutt::v3::packets::common::packet_id::PacketId;
use mcutt::v3::packets::packet::Packet;
use mcutt::v3::packets::publish::builder::PublishBuilder;
use mcutt::v3::packets::publish::comp::PubComp;
use mcutt::v3::packets::publish::Publish;

#[test]
fn packet_parse_dispatches_on_the_type() {
    let mut buf = Vec::new();
    Publish::write_sync(&mut buf, &PublishBuilder::new("t", b"p")).unwrap();
    PubComp::write_sync(&mut buf, &PacketId::new(7).unwrap()).unwrap();
    buf.extend_from_slice(&[0b1101_0000, 0]);

    let (first, rest) = Packet::parse(&buf).unwrap();
    let Packet::Publish(publish) = first else {
        panic!("expected a PUBLISH, got {first:?}");
    };
    assert_eq!(publish.topic(), "t");

    let (second, rest) = Packet::parse(rest).unwrap();
    let Packet::PubComp(comp) = second else {
        panic!("expected a PUBCOMP, got {second:?}");
    };
    assert_eq!(comp.pkid().read(), 7);

    let (third, rest) = Packet::parse(rest).unwrap();
    assert!(matches!(third, Packet::PingResp(_)));
    assert!(rest.is_empty());
}

#[test]
fn packet_parse_refuses_client_packets() {
    let err = Packet::parse(&[0b1100_0000, 0]).unwrap_err();
    assert_eq!(err.kind(), mcutt::bytes::ErrorKind::Invalid);

    let err = Packet::parse(&[]).unwrap_err();
    assert_eq!(err.kind(), mcutt::bytes::ErrorKind::NotEnoughSpace);
}
