use mcutt::bytes::ErrorKind;
use mcutt::v3::packets::common::fixed::TypeFlags;
use mcutt::v3::packets::common::packet_id::PacketId;
use mcutt::v3::packets::disconnect::Disconnect;
use mcutt::v3::packets::ping::resp::PingResp;
use mcutt::v3::packets::ping::PingReq;
use mcutt::v3::packets::publish::ack::PubAck;
use mcutt::v3::packets::publish::builder::{PublishBuilder, PublishQos};
use mcutt::v3::packets::publish::comp::PubComp;
use mcutt::v3::packets::publish::rec::PubRec;
use mcutt::v3::packets::publish::rel::PubRel;
use mcutt::v3::packets::publish::Publish;
use mcutt::v3::packets::subscribe::ack::{SubAck, SubAckCode};
use mcutt::v3::packets::subscribe::builder::{SubAckBuilder, SubscribeBuilder, SubscribeFilter};
use mcutt::v3::packets::subscribe::iter::RawSubscribeCursor;
use mcutt::v3::packets::subscribe::topic::RequestedQos;
use mcutt::v3::packets::subscribe::Subscribe;
use mcutt::v3::packets::unsubscribe::ack::UnsubAck;
use mcutt::v3::packets::unsubscribe::builder::UnsubscribeBuilder;
use mcutt::v3::packets::unsubscribe::iter::RawUnsubscribeCursor;
use mcutt::v3::packets::unsubscribe::Unsubscribe;

fn pkid(v: u16) -> PacketId {
    PacketId::new(v).unwrap()
}

#[test]
fn mod_should_encode_and_decode_publish() {
    let publish = PublishBuilder::new("a/b", &[42]).qos(PublishQos::AtLeastOnce {
        dup: true,
        pkid: pkid(10),
    });

    let mut buf = Vec::new();

    let len = Publish::write_sync(&mut buf, &publish).unwrap();
    assert_eq!(buf.len(), len);

    let res = Publish::consume(&buf).unwrap();

    assert_eq!(res.flags(), TypeFlags::publish_qos_1().union(TypeFlags::publish_dup()));
    assert_eq!(res.pkid().map(|p| p.read()), Some(10));
    assert_eq!(res.topic(), "a/b");
    assert_eq!(res.payload(), &[42]);

    assert_eq!(
        buf,
        [0b0011_1010, 8, 0x00, 0x03, b'a', b'/', b'b', 0x00, 0x0A, 42]
    );
}

#[test]
fn publish_qos0_has_no_packet_id() {
    let publish = PublishBuilder::new("a/b", b"hi").retain();

    let mut buf = Vec::new();
    let len = Publish::write_sync(&mut buf, &publish).unwrap();

    assert_eq!(len, 9);
    assert_eq!(buf, [0b0011_0001, 7, 0x00, 0x03, b'a', b'/', b'b', b'h', b'i']);

    let res = Publish::consume(&buf).unwrap();
    assert!(res.pkid().is_none());
    assert_eq!(res.payload(), b"hi");
}

#[test]
fn publish_rejects_wildcard_topics() {
    let mut buf = Vec::new();
    let err = Publish::write_sync(&mut buf, &PublishBuilder::new("a/+", b"x")).unwrap_err();

    assert_eq!(err.kind(), ErrorKind::Invalid);
    assert!(buf.is_empty());

    let err = Publish::parse(&[0x30, 0x05, 0x00, 0x03, b'a', b'/', b'#']).unwrap_err();
    assert_eq!(err.kind(), ErrorKind::Invalid);
}

#[test]
fn pubrec_roundtrip() {
    let id = pkid(10);

    let mut buf = Vec::new();

    let written = PubRec::write_sync(&mut buf, &id).unwrap();
    assert_eq!(written, buf.len());

    let res = PubRec::consume(&buf).unwrap();

    assert_eq!(res.pkid().read(), 10);
}

#[test]
fn should_encode_and_decode_puback() {
    let exp_bytes = [0b0100_0000u8, 2, 0b0000_0000, 0b0000_1010];

    let mut buf = Vec::new();
    PubAck::write_sync(&mut buf, &pkid(10)).unwrap();
    assert_eq!(buf, exp_bytes);

    let (res, bytes) = PubAck::parse(&exp_bytes).unwrap();
    assert!(bytes.is_empty());
    assert_eq!(res.pkid().read(), 10);
}

#[test]
fn should_encode_and_decode_pubrec() {
    let exp_bytes = [0b0101_0000u8, 2, 0b0000_0000, 0b0000_1010];

    let mut buf = Vec::new();
    PubRec::write_sync(&mut buf, &pkid(10)).unwrap();
    assert_eq!(buf, exp_bytes);

    let (res, bytes) = PubRec::parse(&exp_bytes).unwrap();
    assert!(bytes.is_empty());
    assert_eq!(res.pkid().read(), 10);
}

#[test]
fn should_encode_and_decode_pubrel() {
    let exp_bytes = [0b0110_0010u8, 2, 0b0000_0000, 0b0000_1010];

    let mut buf = Vec::new();
    PubRel::write_sync(&mut buf, &pkid(10)).unwrap();
    assert_eq!(buf, exp_bytes);

    let (res, bytes) = PubRel::parse(&exp_bytes).unwrap();
    assert!(bytes.is_empty());
    assert_eq!(res.pkid().read(), 10);
}

#[test]
fn should_encode_and_decode_pubcomp() {
    let exp_bytes = [0b0111_0000u8, 2, 0b0000_0000, 0b0000_1010];

    let mut buf = Vec::new();
    PubComp::write_sync(&mut buf, &pkid(10)).unwrap();
    assert_eq!(buf, exp_bytes);

    let (res, bytes) = PubComp::parse(&exp_bytes).unwrap();
    assert!(bytes.is_empty());
    assert_eq!(res.pkid().read(), 10);
}

#[test]
fn pubrel_requires_its_reserved_flag() {
    let err = PubRel::parse(&[0b0110_0000u8, 2, 0, 10]).unwrap_err();
    assert_eq!(err.kind(), ErrorKind::Invalid);

    let err = PubAck::parse(&[0b0100_0000u8, 2, 0, 0]).unwrap_err();
    assert_eq!(err.kind(), ErrorKind::Invalid);
}

#[test]
fn suback_roundtrip() {
    let codes = [
        SubAckCode::Qos0,
        SubAckCode::Qos1,
        SubAckCode::Qos2,
        SubAckCode::Failure,
    ];
    let suback = SubAckBuilder::new(pkid(10), &codes);

    let mut buf = Vec::new();

    let written = SubAck::write_sync(&mut buf, &suback).unwrap();
    assert_eq!(written, buf.len());

    let res = SubAck::consume(&buf).unwrap();

    assert_eq!(res.pkid().read(), 10);
    assert_eq!(res.return_codes(), codes);
}

#[test]
fn should_encode_and_decode_suback() {
    let codes = [
        SubAckCode::Qos0,
        SubAckCode::Qos1,
        SubAckCode::Qos2,
        SubAckCode::Failure,
    ];

    let mut buf = Vec::new();
    SubAck::write_sync(&mut buf, &SubAckBuilder::new(pkid(10), &codes)).unwrap();

    let exp_bytes = [
        0b1001_0000u8,
        6,
        0b0000_0000,
        0b0000_1010,
        0b0000_0000,
        0b0000_0001,
        0b0000_0010,
        0b1000_0000,
    ];

    assert_eq!(buf, exp_bytes);

    let (sub, bytes) = SubAck::parse(&buf).unwrap();
    assert!(bytes.is_empty());
    assert_eq!(sub.pkid().read(), 10);
    assert_eq!(sub.return_codes(), codes);
}

#[test]
fn suback_rejects_reserved_codes() {
    let err = SubAck::parse(&[0b1001_0000u8, 3, 0, 10, 0b0000_0011]).unwrap_err();
    assert_eq!(err.kind(), ErrorKind::Invalid);
}

#[test]
fn iter_iter_subscribe_cursor() {
    let payload = [
        0b0000_0000,
        0b0000_0011,
        b'a',
        b'/',
        b'b',
        0b0000_0001,
        0b0000_0000,
        0b0000_0011,
        b'c',
        b'/',
        b'd',
        0b0000_0010,
    ];

    let exp = [
        ("a/b", RequestedQos::AtLeastOnce),
        ("c/d", RequestedQos::ExactlyOnce),
    ];

    let mut cursor = RawSubscribeCursor::new(&payload);

    for (exp_topic, exp_qos) in exp {
        let filter = cursor.read().unwrap().unwrap();

        assert_eq!(filter.topic().as_str(), exp_topic);
        assert_eq!(filter.qos(), exp_qos);
    }

    assert!(cursor.read().is_none());
}

#[test]
fn unsubscribe_cursor_reads_every_topic() {
    let payload = [
        0b0000_0000,
        0b0000_0011,
        b'a',
        b'/',
        b'b',
        0b0000_0000,
        0b0000_0011,
        b'c',
        b'/',
        b'd',
    ];

    let mut cursor = RawUnsubscribeCursor::new(&payload);

    for exp in ["a/b", "c/d"] {
        let filter = cursor.read().unwrap().unwrap();

        assert_eq!(filter.as_str(), exp);
    }

    assert!(cursor.read().is_none());
}

fn subscribe_filters() -> [SubscribeFilter<'static>; 2] {
    [
        SubscribeFilter {
            topic: "a/b",
            qos: RequestedQos::AtLeastOnce,
        },
        SubscribeFilter {
            topic: "c/d",
            qos: RequestedQos::ExactlyOnce,
        },
    ]
}

#[test]
fn subscribe_roundtrip() {
    let filters = subscribe_filters();
    let packet = SubscribeBuilder::new(pkid(10), &filters);

    let mut buf = Vec::new();

    let written = Subscribe::write_sync(&mut buf, &packet).unwrap();
    assert_eq!(written, buf.len());

    let subscribe = Subscribe::consume(&buf).unwrap();

    assert_eq!(subscribe.pkid().read(), 10);

    let parsed = subscribe.filters();
    assert_eq!(parsed.len(), filters.len());
    for (p, f) in parsed.iter().zip(filters.iter()) {
        assert_eq!(p.topic().as_str(), f.topic);
        assert_eq!(p.qos(), f.qos);
    }
}

#[test]
fn should_encode_and_decode_subscribe() {
    let filters = subscribe_filters();

    let mut buf = Vec::new();
    Subscribe::write_sync(&mut buf, &SubscribeBuilder::new(pkid(10), &filters)).unwrap();

    let exp_bytes = [
        0b10000010u8,
        14,
        0b00000000,
        0b00001010,
        0b00000000,
        0b00000011,
        b'a',
        b'/',
        b'b',
        1,
        0b00000000,
        0b00000011,
        b'c',
        b'/',
        b'd',
        2,
    ];

    assert_eq!(buf, exp_bytes);

    let (sub, bytes) = Subscribe::parse(&buf).unwrap();
    assert!(bytes.is_empty());
    assert_eq!(sub.pkid().read(), 10);
    assert_eq!(sub.filters().len(), 2);
}

#[test]
fn subscribe_rejects_misplaced_wildcards() {
    let filters = [SubscribeFilter {
        topic: "a/b#",
        qos: RequestedQos::AtMostOnce,
    }];

    let mut buf = Vec::new();
    let err = Subscribe::write_sync(&mut buf, &SubscribeBuilder::new(pkid(1), &filters)).unwrap_err();
    assert_eq!(err.kind(), ErrorKind::Invalid);
    assert!(buf.is_empty());

    let filter = SubscribeFilter {
        topic: "a/+/#",
        qos: RequestedQos::AtMostOnce,
    };
    let mut buf = Vec::new();
    Subscribe::write_sync(&mut buf, &SubscribeBuilder::with_topic(pkid(1), &filter)).unwrap();
    assert_eq!(Subscribe::consume(&buf).unwrap().filters()[0].topic().as_str(), "a/+/#");
}

#[test]
fn unsubscribe_roundtrip() {
    let topics = ["a/b", "c/d"];
    let packet = UnsubscribeBuilder::new(pkid(10), &topics);

    let mut buf = Vec::new();

    let written = Unsubscribe::write_sync(&mut buf, &packet).unwrap();
    assert_eq!(written, buf.len());

    let res = Unsubscribe::consume(&buf).unwrap();

    assert_eq!(res.pkid().read(), 10);

    let filters: Vec<&str> = res.filters().iter().map(|f| f.as_str()).collect();
    assert_eq!(filters, topics);
}

#[test]
fn should_encode_and_decode_unsubscribe() {
    let topics = ["a/b", "c/d"];

    let mut buf = Vec::new();
    Unsubscribe::write_sync(&mut buf, &UnsubscribeBuilder::new(pkid(10), &topics)).unwrap();

    let exp_bytes = [
        0b1010_0010u8,
        12,
        0b00000000,
        0b00001010,
        0b00000000,
        0b00000011,
        b'a',
        b'/',
        b'b',
        0b00000000,
        0b00000011,
        b'c',
        b'/',
        b'd',
    ];

    assert_eq!(buf, exp_bytes);

    let (sub, bytes) = Unsubscribe::parse(&buf).unwrap();
    assert!(bytes.is_empty());
    assert_eq!(sub.pkid().read(), 10);
    assert_eq!(sub.filters().len(), 2);
}

#[test]
fn unsubscribe_rejects_misplaced_wildcards() {
    let topic = "a+";
    let mut buf = Vec::new();
    let err = Unsubscribe::write_sync(&mut buf, &UnsubscribeBuilder::with_topic(pkid(3), &topic))
        .unwrap_err();
    assert_eq!(err.kind(), ErrorKind::Invalid);

    let err = Unsubscribe::parse(&[0b1010_0010u8, 6, 0, 3, 0, 2, b'a', b'+']).unwrap_err();
    assert_eq!(err.kind(), ErrorKind::Invalid);
}

#[test]
fn unsuback_roundtrip() {
    let id = pkid(10);

    let mut buf = Vec::new();

    let written = UnsubAck::write_sync(&mut buf, &id).unwrap();
    assert_eq!(written, buf.len());

    let res = UnsubAck::consume(&buf).unwrap();

    assert_eq!(res.pkid().read(), 10);
    assert_eq!(buf, [0b1011_0000, 2, 0, 10]);
}

#[test]
fn disconnect_roundtrip() {
    let mut buf = Vec::new();

    let written = Disconnect::write_sync(&mut buf, &()).unwrap();
    assert_eq!(buf.len(), written);

    Disconnect::parse(&buf).unwrap();
    assert_eq!(buf, [0b1110_0000, 0]);
}

#[test]
fn mod_should_encode_and_decode_pingreq() {
    let mut buf = Vec::new();

    let written = PingReq::write_sync(&mut buf, &()).unwrap();
    assert_eq!(buf.len(), written);

    PingReq::parse(&buf).unwrap();
    assert_eq!(buf, [0b1100_0000, 0]);
}

#[test]
fn resp_should_encode_and_decode_pingresp() {
    let mut buf = Vec::new();

    let written = PingResp::write_sync(&mut buf, &()).unwrap();
    assert_eq!(buf.len(), written);

    PingResp::parse(&buf).unwrap();
    assert_eq!(buf, [0b1101_0000, 0]);
}

#[test]
fn the_last_qos_set_wins() {
    let first = PublishBuilder::new("t", b"x")
        .retain()
        .qos(PublishQos::AtLeastOnce { dup: true, pkid: pkid(1) })
        .qos(PublishQos::AtMostOnce);
    let direct = PublishBuilder::new("t", b"x").retain().qos(PublishQos::AtMostOnce);

    let mut a = Vec::new();
    let mut b = Vec::new();
    Publish::write_sync(&mut a, &first).unwrap();
    Publish::write_sync(&mut b, &direct).unwrap();
    assert_eq!(a, b);
    assert_eq!(a, [0b0011_0001, 4, 0x00, 0x01, b't', b'x']);

    let switched = PublishBuilder::new("t", b"x")
        .qos(PublishQos::AtLeastOnce { dup: true, pkid: pkid(1) })
        .qos(PublishQos::ExactlyOnce { dup: false, pkid: pkid(2) });
    let mut c = Vec::new();
    Publish::write_sync(&mut c, &switched).unwrap();
    assert_eq!(c[0], 0b0011_0100);
}

#[test]
fn cursors_collect_the_filters_left() {
    let payload = [0x00, 0x03, b'a', b'/', b'b', 0x01, 0x00, 0x03, b'c', b'/', b'd', 0x02];
    let mut cursor = RawSubscribeCursor::new(&payload);
    let all = cursor.to_vec().unwrap();
    assert_eq!(all.len(), 2);
    assert_eq!(all[1].topic().as_str(), "c/d");
    assert_eq!(all[1].qos(), RequestedQos::ExactlyOnce);
    cursor.read().unwrap().unwrap();
    let left = cursor.to_vec().unwrap();
    assert_eq!(left.len(), 1);
    assert_eq!(left[0].topic().as_str(), "c/d");
    assert_eq!(RawSubscribeCursor::new(&[0x00, 0x01, b'a', 0x03]).to_vec().unwrap_err().kind(), ErrorKind::Invalid);

    let topics = [0x00, 0x01, b'x', 0x00, 0x02, b'y', b'z'];
    let unsub = RawUnsubscribeCursor::new(&topics).to_vec().unwrap();
    assert_eq!(unsub.iter().map(|t| t.as_str()).collect::<Vec<_>>(), ["x", "yz"]);
    assert_eq!(RawUnsubscribeCursor::new(&[0x00, 0x05, b'x']).to_vec().unwrap_err().kind(), ErrorKind::NotEnoughSpace);
}
