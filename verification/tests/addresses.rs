use raw_socket::addr::first_candidate;
use raw_socket::addr::parse_sockaddr;
use raw_socket::addr::SocketAddress;
use raw_socket::addr::SocketError;

#[test]
fn parses_ipv4_sockaddr() {
    // family 2, port 8080 big-endian, 127.0.0.1, zero tail
    let mut b = [0u8; 16];
    b[0] = 2;
    b[2] = 0x1f;
    b[3] = 0x90;
    b[4] = 127;
    b[7] = 1;
    let a = parse_sockaddr(&b).unwrap();
    assert_eq!(
        a,
        SocketAddress::V4 { addr: [127, 0, 0, 1], port: 8080 }
    );
}

#[test]
fn parses_ipv6_sockaddr() {
    let mut b = [0u8; 28];
    b[0] = 10;
    b[2] = 0x00;
    b[3] = 0x35; // port 53
    b[4] = 0x39; // flowinfo 0x12339 little-endian
    b[5] = 0x23;
    b[6] = 0x01;
    b[8] = 0xfe; // address fe80::7
    b[9] = 0x80;
    b[23] = 0x07;
    b[24] = 4; // scope id 4
    let a = parse_sockaddr(&b).unwrap();
    let mut addr = [0u8; 16];
    addr[0] = 0xfe;
    addr[1] = 0x80;
    addr[15] = 0x07;
    assert_eq!(
        a,
        SocketAddress::V6 { addr, port: 53, flowinfo: 0x12339, scope_id: 4 }
    );
}

#[test]
fn rejects_unknown_family() {
    let mut b = [0u8; 28];
    b[0] = 5;
    assert_eq!(parse_sockaddr(&b), Err(SocketError::UnsupportedAddressFamily));
}

#[test]
fn rejects_short_buffer() {
    assert_eq!(parse_sockaddr(&[2u8]), Err(SocketError::UnsupportedAddressFamily));
    // names IPv4 but shorter than its structure
    let b = [2u8, 0, 0, 80, 127, 0, 0, 1];
    assert_eq!(parse_sockaddr(&b), Err(SocketError::UnsupportedAddressFamily));
}

#[test]
fn first_candidate_of_resolution() {
    let a = SocketAddress::V4 { addr: [10, 0, 0, 1], port: 1 };
    let b = SocketAddress::V4 { addr: [10, 0, 0, 2], port: 2 };
    assert_eq!(first_candidate(&vec![a, b]), Ok(a));
    assert_eq!(
        first_candidate(&Vec::new()),
        Err(SocketError::InvalidAddressInput)
    );
}
