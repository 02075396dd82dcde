use raw_socket::control::length_for;
use raw_socket::control::space_for;
use raw_socket::control::CMsg;
use raw_socket::control::Error;
use raw_socket::control::Ipv6PktInfo;
use raw_socket::control::Raw;

const ADDR: [u8; 16] = [
    0x20, 0x01, 0x0d, 0xb8, 0, 0, 0, 0, 0, 0, 0, 0, 0, 0, 0, 0x42,
];

#[test]
fn round_trip_zero_messages() {
    let mut buf = vec![0u8; 64];
    let n = CMsg::encode(&mut buf, &[]).unwrap();
    assert_eq!(n, 0);
    let decoded = CMsg::decode(&buf[..n]);
    assert!(decoded.is_empty());
}

#[test]
fn round_trip_one_message() {
    let mut buf = vec![0u8; 64];
    let msgs = [CMsg::Ipv6HopLimit(64)];
    let n = CMsg::encode(&mut buf, &msgs).unwrap();
    assert_eq!(n, 24);
    let decoded = CMsg::decode(&buf[..n]);
    assert_eq!(decoded, vec![CMsg::Ipv6HopLimit(64)]);
}

#[test]
fn round_trip_every_variant() {
    let mut buf = vec![0u8; 256];
    let msgs = [
        CMsg::Ipv6HopLimit(7),
        CMsg::Ipv6PathMtu(1280),
        CMsg::Ipv6PktInfo(Ipv6PktInfo::new(ADDR, 3)),
        CMsg::Raw(Raw::from(99, 42, vec![1, 2, 3])),
    ];
    let n = CMsg::encode(&mut buf, &msgs).unwrap();
    // hop limit 24 + path mtu 24 + packet info 40 + raw(3) 24
    assert_eq!(n, 112);
    let decoded = CMsg::decode(&buf[..n]);
    assert_eq!(decoded.len(), 4);
    assert_eq!(decoded[0], CMsg::Ipv6HopLimit(7));
    assert_eq!(decoded[1], CMsg::Ipv6PathMtu(1280));
    match &decoded[2] {
        CMsg::Ipv6PktInfo(p) => {
            assert_eq!(p.addr(), ADDR);
            assert_eq!(p.ifindex(), 3);
        }
        other => panic!("expected packet info, got {:?}", other),
    }
    assert_eq!(decoded[3], CMsg::Raw(Raw::from(99, 42, vec![1, 2, 3])));
}

#[test]
fn round_trip_negative_values() {
    let mut buf = vec![0u8; 64];
    let msgs = [CMsg::Raw(Raw::from(-5, -9, vec![0xff, 0x00]))];
    let n = CMsg::encode(&mut buf, &msgs).unwrap();
    let decoded = CMsg::decode(&buf[..n]);
    assert_eq!(decoded, vec![CMsg::Raw(Raw::from(-5, -9, vec![0xff, 0x00]))]);
}

#[test]
fn exact_wire_bytes_of_hop_limit() {
    let mut buf = vec![0u8; 24];
    let n = CMsg::encode(&mut buf, &[CMsg::Ipv6HopLimit(1)]).unwrap();
    assert_eq!(n, 24);
    let expected = [
        20, 0, 0, 0, 0, 0, 0, 0, // entry length: 16 + 4
        41, 0, 0, 0, // level: IPPROTO_IPV6
        52, 0, 0, 0, // type: IPV6_HOPLIMIT
        1, 0, 0, 0, // payload
        0, 0, 0, 0, // padding
    ];
    assert_eq!(&buf[..], &expected[..]);
}

#[test]
fn under_capacity_fails_and_preserves_length() {
    // two messages need 48 bytes; a buffer sized for one holds 24
    let mut buf = vec![0u8; 24];
    let msgs = [CMsg::Ipv6HopLimit(1), CMsg::Ipv6HopLimit(2)];
    let r = CMsg::encode(&mut buf, &msgs);
    assert_eq!(r, Err(Error::BufferSize));
    assert_eq!(buf.len(), 24);

    let mut exact = vec![0u8; 48];
    assert_eq!(CMsg::encode(&mut exact, &msgs), Ok(48));

    let mut short = vec![0u8; 47];
    assert_eq!(CMsg::encode(&mut short, &msgs), Err(Error::BufferSize));
    assert_eq!(short.len(), 47);
}

#[test]
fn empty_buffer_rejects_any_message() {
    let mut buf: Vec<u8> = Vec::new();
    let r = CMsg::encode(&mut buf, &[CMsg::Ipv6PathMtu(9000)]);
    assert_eq!(r, Err(Error::BufferSize));
}

#[test]
fn unknown_entry_round_trips_as_raw() {
    let mut buf = vec![0u8; 64];
    let payload = vec![5, 6, 7, 8, 9];
    let msgs = [CMsg::Raw(Raw::from(3, 9, payload.clone()))];
    let n = CMsg::encode(&mut buf, &msgs).unwrap();
    // entry length field is 16 + 5; the decoded payload is that minus the
    // 16-byte header
    assert_eq!(u64::from_le_bytes(buf[0..8].try_into().unwrap()), 21);
    let decoded = CMsg::decode(&buf[..n]);
    assert_eq!(decoded.len(), 1);
    match &decoded[0] {
        CMsg::Raw(r) => {
            assert_eq!(r.level, 3);
            assert_eq!(r.kind, 9);
            assert_eq!(r.data, payload);
        }
        other => panic!("expected raw, got {:?}", other),
    }
}

#[test]
fn sentinel_entry_is_skipped() {
    let mut buf = vec![0u8; 96];
    let msgs = [
        CMsg::Raw(Raw::from(0, 0, vec![1, 2, 3, 4])),
        CMsg::Ipv6HopLimit(33),
    ];
    let n = CMsg::encode(&mut buf, &msgs).unwrap();
    let decoded = CMsg::decode(&buf[..n]);
    assert_eq!(decoded, vec![CMsg::Ipv6HopLimit(33)]);
}

#[test]
fn raw_colliding_with_known_pair_decodes_typed() {
    // a Raw entry that writes the hop-limit identifiers with a 4-byte
    // payload is indistinguishable on the wire from a typed hop limit
    let mut buf = vec![0u8; 24];
    let msgs = [CMsg::Raw(Raw::from(41, 52, vec![9, 0, 0, 0]))];
    let n = CMsg::encode(&mut buf, &msgs).unwrap();
    let decoded = CMsg::decode(&buf[..n]);
    assert_eq!(decoded, vec![CMsg::Ipv6HopLimit(9)]);
}

#[test]
fn decode_is_re_enterable() {
    let mut buf = vec![0u8; 64];
    let msgs = [CMsg::Ipv6PathMtu(1492)];
    let n = CMsg::encode(&mut buf, &msgs).unwrap();
    let first = CMsg::decode(&buf[..n]);
    let second = CMsg::decode(&buf[..n]);
    assert_eq!(first, second);
    assert_eq!(first, vec![CMsg::Ipv6PathMtu(1492)]);
}

#[test]
fn decode_stops_on_truncated_header() {
    let bytes = [0xffu8; 10];
    assert!(CMsg::decode(&bytes).is_empty());
}

#[test]
fn decode_stops_on_oversized_entry_length() {
    let mut bytes = [0u8; 24];
    bytes[0] = 200; // entry length claims more than the buffer holds
    bytes[8] = 41;
    bytes[12] = 52;
    assert!(CMsg::decode(&bytes).is_empty());
}

#[test]
fn decode_stops_on_undersized_entry_length() {
    let mut bytes = [0u8; 24];
    bytes[0] = 8; // entry length smaller than a header
    assert!(CMsg::decode(&bytes).is_empty());
}

#[test]
fn message_identifiers_and_sizes() {
    let hop = CMsg::Ipv6HopLimit(1);
    assert_eq!(hop.level(), 41);
    assert_eq!(hop.kind(), 52);
    assert_eq!(hop.size(), 4);

    let mtu = CMsg::Ipv6PathMtu(1);
    assert_eq!(mtu.level(), 41);
    assert_eq!(mtu.kind(), 61);
    assert_eq!(mtu.size(), 4);

    let info = CMsg::Ipv6PktInfo(Ipv6PktInfo::new(ADDR, 1));
    assert_eq!(info.level(), 41);
    assert_eq!(info.kind(), 50);
    assert_eq!(info.size(), 20);

    let raw = CMsg::Raw(Raw::from(12, 34, vec![0; 7]));
    assert_eq!(raw.level(), 12);
    assert_eq!(raw.kind(), 34);
    assert_eq!(raw.size(), 7);
}

#[test]
fn packet_info_getters() {
    let info = Ipv6PktInfo::new(ADDR, 77);
    assert_eq!(info.addr(), ADDR);
    assert_eq!(info.ifindex(), 77);
}

#[test]
fn space_and_length_formulas() {
    assert_eq!(space_for(0), Some(16));
    assert_eq!(space_for(1), Some(24));
    assert_eq!(space_for(4), Some(24));
    assert_eq!(space_for(8), Some(24));
    assert_eq!(space_for(9), Some(32));
    assert_eq!(space_for(20), Some(40));
    assert_eq!(length_for(0), Some(16));
    assert_eq!(length_for(4), Some(20));
    assert_eq!(space_for(usize::MAX), None);
    assert_eq!(length_for(usize::MAX), None);
}
