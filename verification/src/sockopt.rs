//! Socket option identifiers.
//!
//! An option is addressed by a (level, name) pair of platform-defined
//! integers. The values below are the Linux kernel header values; they form
//! the platform's supplied capability table, and the typed wrappers convert
//! between the table and raw integers by plain functions, never by
//! reinterpretation.

use vstd::prelude::*;

verus! {

/// Level identifier of the IPv4 protocol.
pub const IPPROTO_IP: i32 = 0;

/// Level identifier of options at the socket level itself.
pub const SOL_SOCKET: i32 = 1;

/// Name of the IPv4 header-include toggle.
pub const IP_HDRINCL: i32 = 3;

/// Name of the IPv6 checksum-offset option.
pub const IPV6_CHECKSUM: i32 = 7;

/// Name of the IPv6 receive-packet-info toggle.
pub const IPV6_RECVPKTINFO: i32 = 49;

/// Name of the IPv6 receive-hop-limit toggle.
pub const IPV6_RECVHOPLIMIT: i32 = 51;

/// Name of the IPv6 receive-path-MTU toggle.
pub const IPV6_RECVPATHMTU: i32 = 60;

/// Name of the IPv6 don't-fragment toggle.
pub const IPV6_DONTFRAG: i32 = 62;

/// Name of the socket-type option.
pub const SO_TYPE: i32 = 3;

/// Name of the send-buffer-size option.
pub const SO_SNDBUF: i32 = 7;

/// Name of the receive-buffer-size option.
pub const SO_RCVBUF: i32 = 8;

/// Name of the keepalive toggle.
pub const SO_KEEPALIVE: i32 = 9;

/// The protocol layer an option belongs to.
#[derive(Clone, Copy, Debug, PartialEq, Eq, Structural)]
pub struct Level(i32);

/// The name of an option within its level.
#[derive(Clone, Copy, Debug, PartialEq, Eq, Structural)]
pub struct Name(i32);

impl View for Level {
    type V = i32;

    closed spec fn view(&self) -> i32 {
        self.0
    }
}

impl View for Name {
    type V = i32;

    closed spec fn view(&self) -> i32 {
        self.0
    }
}

impl Level {
    /// Wraps a raw level identifier.
    pub fn from(n: i32) -> (r: Self)
        ensures
            r@ == n,
    {
        Level(n)
    }

    /// The raw identifier, for handing to the OS call.
    pub fn value(&self) -> (r: i32)
        ensures
            r == self@,
    {
        self.0
    }

    /// The IPv4 protocol level.
    pub fn ipv4() -> (r: Self)
        ensures
            r@ == IPPROTO_IP,
    {
        Level(IPPROTO_IP)
    }

    /// The IPv6 protocol level.
    pub fn ipv6() -> (r: Self)
        ensures
            r@ == crate::control::IPPROTO_IPV6,
    {
        Level(crate::control::IPPROTO_IPV6)
    }

    /// The socket level itself.
    pub fn socket() -> (r: Self)
        ensures
            r@ == SOL_SOCKET,
    {
        Level(SOL_SOCKET)
    }
}

impl Name {
    /// Wraps a raw name identifier.
    pub fn from(n: i32) -> (r: Self)
        ensures
            r@ == n,
    {
        Name(n)
    }

    /// The raw identifier, for handing to the OS call.
    pub fn value(&self) -> (r: i32)
        ensures
            r == self@,
    {
        self.0
    }

    /// The IPv4 header-include toggle.
    pub fn ipv4_hdrincl() -> (r: Self)
        ensures
            r@ == IP_HDRINCL,
    {
        Name(IP_HDRINCL)
    }

    /// The IPv6 checksum-offset option.
    pub fn ipv6_checksum() -> (r: Self)
        ensures
            r@ == IPV6_CHECKSUM,
    {
        Name(IPV6_CHECKSUM)
    }

    /// The IPv6 receive-hop-limit toggle.
    pub fn ipv6_recvhoplimit() -> (r: Self)
        ensures
            r@ == IPV6_RECVHOPLIMIT,
    {
        Name(IPV6_RECVHOPLIMIT)
    }

    /// The IPv6 receive-path-MTU toggle.
    pub fn ipv6_recvpathmtu() -> (r: Self)
        ensures
            r@ == IPV6_RECVPATHMTU,
    {
        Name(IPV6_RECVPATHMTU)
    }

    /// The IPv6 receive-packet-info toggle.
    pub fn ipv6_recvpktinfo() -> (r: Self)
        ensures
            r@ == IPV6_RECVPKTINFO,
    {
        Name(IPV6_RECVPKTINFO)
    }

    /// The IPv6 don't-fragment toggle.
    pub fn ipv6_dontfrag() -> (r: Self)
        ensures
            r@ == IPV6_DONTFRAG,
    {
        Name(IPV6_DONTFRAG)
    }

    /// The socket-type option.
    pub fn so_type() -> (r: Self)
        ensures
            r@ == SO_TYPE,
    {
        Name(SO_TYPE)
    }

    /// The keepalive toggle.
    pub fn so_keepalive() -> (r: Self)
        ensures
            r@ == SO_KEEPALIVE,
    {
        Name(SO_KEEPALIVE)
    }

    /// The send-buffer-size option.
    pub fn so_sndbuf() -> (r: Self)
        ensures
            r@ == SO_SNDBUF,
    {
        Name(SO_SNDBUF)
    }

    /// The receive-buffer-size option.
    pub fn so_rcvbuf() -> (r: Self)
        ensures
            r@ == SO_RCVBUF,
    {
        Name(SO_RCVBUF)
    }
}

/// Marker for a type an option value may have: fixed-size and trivially
/// copyable, so that the option's byte width is exactly the width of the
/// value and it can be copied in and out whole.
pub trait Opt: Copy {

}

impl Opt for i32 {

}

} // verus!
