use raw_socket::sockopt::Level;
use raw_socket::sockopt::Name;

#[test]
fn level_table_matches_platform_values() {
    assert_eq!(Level::ipv4().value(), 0);
    assert_eq!(Level::ipv6().value(), 41);
    assert_eq!(Level::socket().value(), 1);
}

#[test]
fn name_table_matches_platform_values() {
    assert_eq!(Name::ipv4_hdrincl().value(), 3);
    assert_eq!(Name::ipv6_checksum().value(), 7);
    assert_eq!(Name::ipv6_recvpktinfo().value(), 49);
    assert_eq!(Name::ipv6_recvhoplimit().value(), 51);
    assert_eq!(Name::ipv6_recvpathmtu().value(), 60);
    assert_eq!(Name::ipv6_dontfrag().value(), 62);
    assert_eq!(Name::so_type().value(), 3);
    assert_eq!(Name::so_sndbuf().value(), 7);
    assert_eq!(Name::so_rcvbuf().value(), 8);
    assert_eq!(Name::so_keepalive().value(), 9);
}

#[test]
fn wrapping_raw_identifiers() {
    assert_eq!(Level::from(41), Level::ipv6());
    assert_eq!(Name::from(9), Name::so_keepalive());
    assert_eq!(Level::from(-3).value(), -3);
    assert_ne!(Level::from(1), Level::from(2));
}
