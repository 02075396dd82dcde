//! Typed socket addresses, read at byte level out of the peer address
//! buffer an OS receive call fills in.
//!
//! Only IPv4 and IPv6 are supported: a buffer of any other family yields
//! `UnsupportedAddressFamily`. The buffer follows the platform's
//! `sockaddr` layout: a 16-bit family first, then, for the two supported
//! families, a big-endian port and the address bytes at their fixed offsets.

use vstd::prelude::*;
use crate::bytes::be16_val;
use crate::bytes::le16_val;
use crate::bytes::le32_val;
use crate::bytes::read_u16_be;
use crate::bytes::read_u16_le;
use crate::bytes::read_u32_le;

verus! {

/// Family identifier of IPv4 in a `sockaddr` buffer.
pub const AF_INET: u16 = 2;

/// Family identifier of IPv6 in a `sockaddr` buffer.
pub const AF_INET6: u16 = 10;

/// Byte length of the platform's IPv4 `sockaddr` structure.
pub const SOCKADDR_IN_LEN: usize = 16;

/// Byte length of the platform's IPv6 `sockaddr` structure.
pub const SOCKADDR_IN6_LEN: usize = 28;

/// Failure of a socket core operation.
#[derive(Clone, Copy, Debug, PartialEq, Eq, Structural)]
pub enum SocketError {
    /// A peer or local address buffer held a family other than IPv4 or
    /// IPv6, or was too short for the family it named.
    UnsupportedAddressFamily,
    /// A destination resolved to zero candidate addresses.
    InvalidAddressInput,
    /// The OS call failed with this error code.
    Os(i32),
}

/// A typed socket address of one of the two supported families.
#[derive(Clone, Copy, Debug, PartialEq, Eq)]
pub enum SocketAddress {
    V4 { addr: [u8; 4], port: u16 },
    V6 { addr: [u8; 16], port: u16, flowinfo: u32, scope_id: u32 },
}

/// Address family a socket is created with.
#[derive(Clone, Copy, Debug, PartialEq, Eq, Structural)]
pub enum Family {
    V4,
    V6,
}

/// Kind of socket: one datagram, one ordered stream, or raw protocol
/// access.
#[derive(Clone, Copy, Debug, PartialEq, Eq, Structural)]
pub enum SocketKind {
    Datagram,
    Stream,
    Raw,
}

/// Mathematical image of `SocketAddress`.
pub enum SocketAddressView {
    V4 { addr: Seq<u8>, port: u16 },
    V6 { addr: Seq<u8>, port: u16, flowinfo: u32, scope_id: u32 },
}

impl View for SocketAddress {
    type V = SocketAddressView;

    open spec fn view(&self) -> SocketAddressView {
        match self {
            SocketAddress::V4 { addr, port } => SocketAddressView::V4 {
                addr: addr@,
                port: *port,
            },
            SocketAddress::V6 { addr, port, flowinfo, scope_id } => SocketAddressView::V6 {
                addr: addr@,
                port: *port,
                flowinfo: *flowinfo,
                scope_id: *scope_id,
            },
        }
    }
}

/// The typed address a `sockaddr` buffer holds: an IPv4 or IPv6
/// address with its port and, for IPv6, flow label and scope, or
/// `UnsupportedAddressFamily` for every other buffer.
pub open spec fn parse_sockaddr_bytes(b: Seq<u8>) -> Result<SocketAddressView, SocketError> {
    if b.len() < 2 {
        Err(SocketError::UnsupportedAddressFamily)
    } else {
        let fam = le16_val(b.subrange(0, 2));
        if fam == AF_INET && b.len() >= SOCKADDR_IN_LEN {
            Ok(
                SocketAddressView::V4 {
                    addr: b.subrange(4, 8),
                    port: be16_val(b.subrange(2, 4)),
                },
            )
        } else if fam == AF_INET6 && b.len() >= SOCKADDR_IN6_LEN {
            Ok(
                SocketAddressView::V6 {
                    addr: b.subrange(8, 24),
                    port: be16_val(b.subrange(2, 4)),
                    flowinfo: le32_val(b.subrange(4, 8)),
                    scope_id: le32_val(b.subrange(24, 28)),
                },
            )
        } else {
            Err(SocketError::UnsupportedAddressFamily)
        }
    }
}

/// Reads the peer address buffer an OS receive call filled in as a typed
/// address. Succeeds exactly on a buffer that names one of the two
/// supported families and is long enough for that family's structure.
pub fn parse_sockaddr(b: &[u8]) -> (r: Result<SocketAddress, SocketError>)
    ensures
        match r {
            Ok(a) => parse_sockaddr_bytes(b@) == Ok::<SocketAddressView, SocketError>(a@),
            Err(e) => parse_sockaddr_bytes(b@) == Err::<SocketAddressView, SocketError>(e),
        },
{
    let len = b.len();
    if len < 2 {
        return Err(SocketError::UnsupportedAddressFamily);
    }
    let fam = read_u16_le(b, 0);
    if fam == AF_INET && len >= SOCKADDR_IN_LEN {
        let port = read_u16_be(b, 2);
        let addr: [u8; 4] = [b[4], b[5], b[6], b[7]];
        proof {
            assert(addr@ =~= b@.subrange(4, 8));
        }
        Ok(SocketAddress::V4 { addr, port })
    } else if fam == AF_INET6 && len >= SOCKADDR_IN6_LEN {
        let port = read_u16_be(b, 2);
        let flowinfo = read_u32_le(b, 4);
        let scope_id = read_u32_le(b, 24);
        let mut addr: [u8; 16] = [0u8; 16];
        let mut i: usize = 0;
        while i < 16
            invariant
                i <= 16,
                b.len() >= SOCKADDR_IN6_LEN,
                forall|j: int| 0 <= j < i ==> addr@[j] == b@[8 + j],
            decreases 16 - i,
        {
            addr[i] = b[8 + i];
            i = i + 1;
        }
        proof {
            assert(addr@ =~= b@.subrange(8, 24));
        }
        Ok(SocketAddress::V6 { addr, port, flowinfo, scope_id })
    } else {
        Err(SocketError::UnsupportedAddressFamily)
    }
}

/// Picks the address a send call goes to: the first candidate the
/// destination resolved to. A destination with no candidates is invalid
/// input, exactly then.
pub fn first_candidate(addrs: &Vec<SocketAddress>) -> (r: Result<SocketAddress, SocketError>)
    ensures
        match r {
            Ok(a) => addrs.len() > 0 && a == addrs[0],
            Err(e) => e == SocketError::InvalidAddressInput && addrs.len() == 0,
        },
{
    if addrs.len() == 0 {
        Err(SocketError::InvalidAddressInput)
    } else {
        Ok(addrs[0])
    }
}

} // verus!
