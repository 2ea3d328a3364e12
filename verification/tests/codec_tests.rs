//! Tests for the wire codecs of UDP stream messages.

use chanmgr::relaycell::{Begin, BytesError, CellError, Data, DATA_MAXLEN};
use chanmgr::udp::{Address, ConnectUdp, ConnectedUdp, Datagram};

#[test]
fn address_encode_decode() {
    // Hostname: type, length (with terminator), payload, terminator.
    let mut w: Vec<u8> = Vec::new();
    let a = Address::Hostname(b"example.com".to_vec());
    a.write_onto(&mut w);
    assert_eq!(w[0], 0x01);
    assert_eq!(w[1], 12);
    assert_eq!(&w[2..13], b"example.com");
    assert_eq!(w[13], 0);

    let (back, n) = Address::take_from(&w, 0).unwrap();
    assert_eq!(n, w.len());
    match back {
        Address::Hostname(h) => assert_eq!(h, b"example.com".to_vec()),
        _ => panic!("wrong variant"),
    }

    // IPv4.
    let mut w: Vec<u8> = Vec::new();
    Address::Ipv4(vec![1, 2, 3, 4]).write_onto(&mut w);
    assert_eq!(w, vec![0x04, 4, 1, 2, 3, 4]);
    let (back, n) = Address::take_from(&w, 0).unwrap();
    assert_eq!(n, 6);
    assert!(matches!(back, Address::Ipv4(p) if p == vec![1, 2, 3, 4]));

    // IPv6.
    let mut w: Vec<u8> = Vec::new();
    Address::Ipv6((1..=16).collect()).write_onto(&mut w);
    assert_eq!(w[0], 0x06);
    assert_eq!(w[1], 16);
    let (back, n) = Address::take_from(&w, 0).unwrap();
    assert_eq!(n, 18);
    assert!(matches!(back, Address::Ipv6(p) if p.len() == 16));
}

#[test]
fn address_decode_errors() {
    // Too short for the two leading bytes.
    assert!(matches!(Address::take_from(&[0x04], 0), Err(BytesError::Truncated)));
    // Unknown type byte.
    assert!(matches!(Address::take_from(&[0x09, 4, 1, 2, 3, 4], 0), Err(BytesError::BadMessage)));
    // Hostname without a terminating zero byte.
    assert!(matches!(Address::take_from(&[0x01, 3, b'a', b'b'], 0), Err(BytesError::Truncated)));
    // Hostname whose length byte does not match.
    assert!(matches!(
        Address::take_from(&[0x01, 9, b'a', b'b', 0], 0),
        Err(BytesError::BadMessage)
    ));
    // IPv4 cut short.
    assert!(matches!(Address::take_from(&[0x04, 4, 1, 2], 0), Err(BytesError::Truncated)));
}

#[test]
fn connect_udp_roundtrip() {
    let c = ConnectUdp { flags: 0x01020304, addr: Address::Ipv4(vec![10, 0, 0, 1]), port: 443 };
    let mut w: Vec<u8> = Vec::new();
    c.encode_onto(&mut w);
    assert_eq!(w.len(), 4 + 6 + 2);
    assert_eq!(&w[0..4], &[1, 2, 3, 4]);
    assert_eq!(&w[10..12], &[443u16.to_be_bytes()[0], 443u16.to_be_bytes()[1]]);

    let (back, n) = ConnectUdp::decode_from_reader(&w, 0).unwrap();
    assert_eq!(n, w.len());
    assert_eq!(back.flags, 0x01020304);
    assert_eq!(back.port, 443);
    assert!(matches!(back.addr, Address::Ipv4(p) if p == vec![10, 0, 0, 1]));
}

#[test]
fn connected_udp_rejects_hostnames() {
    let mut w: Vec<u8> = Vec::new();
    Address::Hostname(b"relay".to_vec()).write_onto(&mut w);
    Address::Ipv4(vec![1, 2, 3, 4]).write_onto(&mut w);
    assert!(matches!(
        ConnectedUdp::decode_from_reader(&w, 0),
        Err(BytesError::BadMessage)
    ));

    let mut w: Vec<u8> = Vec::new();
    Address::Ipv4(vec![9, 9, 9, 9]).write_onto(&mut w);
    Address::Ipv6((1..=16).collect()).write_onto(&mut w);
    let (back, n) = ConnectedUdp::decode_from_reader(&w, 0).unwrap();
    assert_eq!(n, w.len());
    assert!(matches!(back.our_address, Address::Ipv4(_)));
    assert!(matches!(back.their_address, Address::Ipv6(_)));
}

#[test]
fn datagram_bounds() {
    let ok = vec![7u8; DATA_MAXLEN];
    let d = Datagram::new(&ok).unwrap();
    assert_eq!(d.as_bytes().len(), DATA_MAXLEN);

    let too_long = vec![7u8; DATA_MAXLEN + 1];
    assert!(matches!(Datagram::new(&too_long), Err(CellError::CantEncode)));

    let (d, n) = Datagram::decode_from_reader(&[1, 2, 3, 4, 5], 2).unwrap();
    assert_eq!(n, 3);
    assert_eq!(d.into_vec(), vec![3, 4, 5]);
}

#[test]
fn data_bounds() {
    assert!(Data::new(&vec![0u8; DATA_MAXLEN]).is_ok());
    assert!(matches!(Data::new(&vec![0u8; DATA_MAXLEN + 1]), Err(CellError::CantEncode)));
}

#[test]
fn begin_new_lowercases() {
    let b = Begin::new("WWW.Example.COM", 80, 1).unwrap();
    assert_eq!(b.addr, b"www.example.com".to_vec());
    assert_eq!(b.port, 80);
    assert_eq!(b.flags, 1);

    // Non-ASCII addresses are refused.
    assert!(matches!(Begin::new("\u{e9}xample.com", 80, 0), Err(BytesError::BadMessage)));
}
