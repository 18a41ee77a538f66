use std::time::Duration;

use mcutt::bytes::ErrorKind;
use mcutt::v3::packets::connect::ack::{ConnAck, ConnAckFlags, ReturnCode};
use mcutt::v3::packets::connect::builder::ConnectBuilder;
use mcutt::v3::packets::connect::{Connect, ConnectFlags, KeepAlive};
use mcutt::v3::packets::Qos;

#[test]
fn should_permit_keep_alive_zero() {
    let keep_alive = KeepAlive::from(0);

    assert_eq!(keep_alive, KeepAlive::new(0));

    let keep_alive = KeepAlive::try_from(Duration::from_secs(0)).unwrap();

    assert_eq!(keep_alive, KeepAlive::new(0));
    assert!(!keep_alive.is_enabled());
}

#[test]
fn keep_alive_must_fit_sixteen_bits() {
    assert!(KeepAlive::try_from(Duration::from_secs(65_536)).is_err());
    assert_eq!(KeepAlive::try_from_secs(65_535).unwrap().seconds(), 65_535);
    assert_eq!(KeepAlive::default().seconds(), 60);
    assert_eq!(KeepAlive::new(10).read(), Duration::from_secs(10));
}

#[test]
fn mod_should_encode_connect() {
    let mut buf = Vec::new();

    let keepalive = KeepAlive::try_from(Duration::from_secs(10)).unwrap();

    let written = Connect::write_sync(
        &mut buf,
        ConnectBuilder::create("client_id")
            .unwrap()
            .keepalive(keepalive)
            .will("/will", b"hello", Qos::AtLeastOnce, true)
            .clean_session()
            .username_password("username", b"passwd"),
    )
    .unwrap();

    let expect = [
        0b0001_0000,
        53,
        0,
        4,
        b'M',
        b'Q',
        b'T',
        b'T',
        4,
        0b1110_1110,
        0,
        10,
        0,
        9,
        b'c',
        b'l',
        b'i',
        b'e',
        b'n',
        b't',
        b'_',
        b'i',
        b'd',
        0,
        5,
        b'/',
        b'w',
        b'i',
        b'l',
        b'l',
        0,
        5,
        b'h',
        b'e',
        b'l',
        b'l',
        b'o',
        0,
        8,
        b'u',
        b's',
        b'e',
        b'r',
        b'n',
        b'a',
        b'm',
        b'e',
        0,
        6,
        b'p',
        b'a',
        b's',
        b's',
        b'w',
        b'd',
    ];

    assert_eq!(written, expect.len());
    assert_eq!(buf, expect);
}

#[test]
fn connect_roundtrip_gives_back_the_values() {
    let mut buf = Vec::new();
    let mut builder = ConnectBuilder::create("client1").unwrap();
    builder.will("/will", b"bye", Qos::ExactlyOnce, false).username("user");

    Connect::write_sync(&mut buf, &builder).unwrap();

    let connect = Connect::consume(&buf).unwrap();

    assert_eq!(connect.client_id().as_str(), "client1");
    assert_eq!(connect.keepalive().seconds(), 60);
    assert_eq!(connect.flags().bits(), 0b1001_0100);
    let (topic, message) = connect.will().unwrap();
    assert_eq!(topic.as_str(), "/will");
    assert_eq!(message.as_slice(), b"bye");
    assert_eq!(connect.username().unwrap().as_str(), "user");
    assert!(connect.password().is_none());
}

#[test]
fn connect_parse_checks_the_client_id() {
    let mut buf = Vec::new();
    Connect::write_sync(&mut buf, &ConnectBuilder::with_empty_client_id()).unwrap();
    assert_eq!(Connect::parse(&buf).unwrap_err().kind(), ErrorKind::OutOfRange);

    let mut buf = Vec::new();
    Connect::write_sync(&mut buf, &ConnectBuilder::new_unchecked("a-b")).unwrap();
    assert_eq!(Connect::parse(&buf).unwrap_err().kind(), ErrorKind::Invalid);
}

#[test]
fn connect_header_is_checked() {
    let mut buf = Vec::new();
    Connect::write_sync(&mut buf, &ConnectBuilder::create("id").unwrap()).unwrap();

    // protocol level
    let mut bad = buf.clone();
    bad[8] = 3;
    assert_eq!(Connect::parse(&bad).unwrap_err().kind(), ErrorKind::Invalid);

    // reserved flag
    let mut bad = buf.clone();
    bad[9] |= 1;
    assert_eq!(Connect::parse(&bad).unwrap_err().kind(), ErrorKind::Invalid);

    // truncated header
    assert_eq!(Connect::parse(&buf[..6]).unwrap_err().kind(), ErrorKind::NotEnoughSpace);
}

#[test]
fn builder_should_set_clean_session_on_empty() {
    let conn = ConnectBuilder::with_empty_client_id();

    let mut buf = Vec::new();
    Connect::write_sync(&mut buf, &conn).unwrap();

    assert!(ConnectFlags::from_bits_retain(buf[9]).contains(ConnectFlags::clean_session()));
}

#[test]
fn connack_codes_and_flags() {
    let ack = ConnAck::new(ConnAckFlags::session_present(), ReturnCode::Accepted);
    assert!(ack.session_present());
    assert!(ack.return_code().is_accepted());
    assert!(ack.error_for_code().is_ok());

    let refused = ConnAck::new(ConnAckFlags::empty(), ReturnCode::NotAuthorized);
    assert!(!refused.session_present());
    assert_eq!(refused.error_for_code().unwrap_err().kind(), ErrorKind::Invalid);

    let mut buf = Vec::new();
    assert_eq!(ConnAck::write_sync(&mut buf, &ack).unwrap(), 2);
    assert_eq!(buf, [1, 0]);

    let err = ConnAck::write_sync(&mut Vec::new(), &ConnAck::new(ConnAckFlags::from_bits_retain(2), ReturnCode::Accepted))
        .unwrap_err();
    assert_eq!(err.kind(), ErrorKind::Invalid);
}

#[test]
fn connack_parse() {
    let (ack, rest) = ConnAck::parse(&[0b0010_0000, 2, 1, 5, 9]).unwrap();
    assert!(ack.session_present());
    assert_eq!(ack.return_code(), ReturnCode::NotAuthorized);
    assert_eq!(rest, [9]);

    assert_eq!(ConnAck::parse(&[0b0010_0000, 2, 0, 6]).unwrap_err().kind(), ErrorKind::Invalid);
    assert_eq!(ConnAck::parse(&[0b0010_0000, 2, 2, 0]).unwrap_err().kind(), ErrorKind::Invalid);
    assert_eq!(ConnAck::parse(&[0b0010_0000, 2, 0]).unwrap_err().kind(), ErrorKind::NotEnoughSpace);
}

#[test]
fn connack_written_after_its_header_parses_back() {
    let ack = ConnAck::new(ConnAckFlags::session_present(), ReturnCode::ServerUnavailable);

    let mut buf = vec![0b0010_0000, 2];
    ConnAck::write_sync(&mut buf, &ack).unwrap();
    buf.push(7);

    let (read, rest) = ConnAck::parse(&buf).unwrap();
    assert_eq!(read, ack);
    assert_eq!(rest, [7]);
}
