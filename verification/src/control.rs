//! Ancillary (control) message codec.
//!
//! An ancillary buffer is a sequence of entries, each a fixed 16-byte header
//! (entry length as a 64-bit field, then level and type as 32-bit fields)
//! followed by the payload, with the whole entry padded to an 8-byte
//! boundary. That is the layout the LP64 platforms use for `cmsghdr`.
//! Navigation is a bounds-checked cursor over the byte buffer: every read is
//! validated against the buffer length, never left to pointer arithmetic.

use vstd::prelude::*;
use vstd::arithmetic::div_mod::lemma_mod_multiples_vanish;
use crate::bytes::le32;
use crate::bytes::le32_val;
use crate::bytes::le32i;
use crate::bytes::le64;
use crate::bytes::le64_val;
use crate::bytes::copy_range;
use crate::bytes::i32_from_le;
use crate::bytes::lemma_le32_round_trip;
use crate::bytes::lemma_le32i_round_trip;
use crate::bytes::lemma_le64_round_trip;
use crate::bytes::read_i32_le;
use crate::bytes::read_u32_le;
use crate::bytes::read_u64_le;
use crate::bytes::write_bytes;
use crate::bytes::write_i32_le;
use crate::bytes::write_u32_le;
use crate::bytes::write_u64_le;
use crate::bytes::write_zeroes;

verus! {

/// Level identifier of the IPv6 protocol, as the platform's kernel headers
/// define it.
pub const IPPROTO_IPV6: i32 = 41;

/// Type identifier of a hop-limit entry at the IPv6 level.
pub const IPV6_HOPLIMIT: i32 = 52;

/// Type identifier of a path-MTU entry at the IPv6 level.
pub const IPV6_PATHMTU: i32 = 61;

/// Type identifier of a packet-info entry at the IPv6 level.
pub const IPV6_PKTINFO: i32 = 50;

/// Byte length of an entry header: 8 bytes of entry length, 4 of level,
/// 4 of type.
pub const CMSG_HEADER_LEN: usize = 16;

/// Every entry is padded to a multiple of this many bytes.
pub const CMSG_ALIGNMENT: usize = 8;

/// One control message attached to a socket send or receive call.
#[derive(Clone, Debug, PartialEq)]
pub enum CMsg {
    /// Hop limit of the datagram, an IPv6-level entry with a 4-byte payload.
    Ipv6HopLimit(i32),
    /// Path MTU towards the destination, an IPv6-level entry with a 4-byte
    /// payload.
    Ipv6PathMtu(i32),
    /// Destination address and arriving interface of the datagram.
    Ipv6PktInfo(Ipv6PktInfo),
    /// Any other entry, carried as its raw identifiers and payload bytes.
    Raw(Raw),
}

/// Payload of an IPv6 packet-info entry: a 16-byte address followed by a
/// 32-bit interface index.
#[derive(Clone, Copy, Debug, PartialEq)]
pub struct Ipv6PktInfo {
    addr: [u8; 16],
    ifindex: u32,
}

/// An entry of unrecognized level and type, with its payload verbatim.
#[derive(Clone, Debug, PartialEq)]
pub struct Raw {
    pub level: i32,
    pub kind: i32,
    pub data: Vec<u8>,
}

/// Failure of an encode call: the buffer lacks room for the requested
/// entries.
#[derive(Clone, Copy, Debug, PartialEq, Eq, Structural)]
pub enum Error {
    BufferSize,
}

/// Mathematical image of `Ipv6PktInfo`.
pub struct PktInfoView {
    pub addr: Seq<u8>,
    pub ifindex: u32,
}

/// Mathematical image of `Raw`.
pub struct RawView {
    pub level: i32,
    pub kind: i32,
    pub data: Seq<u8>,
}

/// Mathematical image of `CMsg`.
pub enum CMsgView {
    Ipv6HopLimit(i32),
    Ipv6PathMtu(i32),
    Ipv6PktInfo(PktInfoView),
    Raw(RawView),
}

impl View for Ipv6PktInfo {
    type V = PktInfoView;

    closed spec fn view(&self) -> PktInfoView {
        PktInfoView { addr: self.addr@, ifindex: self.ifindex }
    }
}

impl View for Raw {
    type V = RawView;

    open spec fn view(&self) -> RawView {
        RawView { level: self.level, kind: self.kind, data: self.data@ }
    }
}

impl View for CMsg {
    type V = CMsgView;

    open spec fn view(&self) -> CMsgView {
        match self {
            CMsg::Ipv6HopLimit(v) => CMsgView::Ipv6HopLimit(*v),
            CMsg::Ipv6PathMtu(v) => CMsgView::Ipv6PathMtu(*v),
            CMsg::Ipv6PktInfo(p) => CMsgView::Ipv6PktInfo(p@),
            CMsg::Raw(r) => CMsgView::Raw(r@),
        }
    }
}

/// The images of a sequence of messages.
pub open spec fn views(s: Seq<CMsg>) -> Seq<CMsgView> {
    s.map_values(|m: CMsg| m@)
}

/// Level identifier a message is written with.
pub open spec fn level_of(m: CMsgView) -> i32 {
    match m {
        CMsgView::Ipv6HopLimit(_) => IPPROTO_IPV6,
        CMsgView::Ipv6PathMtu(_) => IPPROTO_IPV6,
        CMsgView::Ipv6PktInfo(_) => IPPROTO_IPV6,
        CMsgView::Raw(r) => r.level,
    }
}

/// Type identifier a message is written with.
pub open spec fn kind_of(m: CMsgView) -> i32 {
    match m {
        CMsgView::Ipv6HopLimit(_) => IPV6_HOPLIMIT,
        CMsgView::Ipv6PathMtu(_) => IPV6_PATHMTU,
        CMsgView::Ipv6PktInfo(_) => IPV6_PKTINFO,
        CMsgView::Raw(r) => r.kind,
    }
}

/// Payload bytes a message is written with.
pub open spec fn payload_of(m: CMsgView) -> Seq<u8> {
    match m {
        CMsgView::Ipv6HopLimit(v) => le32i(v),
        CMsgView::Ipv6PathMtu(v) => le32i(v),
        CMsgView::Ipv6PktInfo(p) => p.addr + le32(p.ifindex),
        CMsgView::Raw(r) => r.data,
    }
}

/// Bytes of padding that bring `n` up to an 8-byte boundary.
pub open spec fn pad_of(n: nat) -> nat {
    ((8 - n % 8) % 8) as nat
}

/// `n` rounded up to an 8-byte boundary.
pub open spec fn align_up(n: nat) -> nat {
    n + pad_of(n)
}

/// The `length` field of an entry with an `n`-byte payload: header plus
/// payload, unpadded.
pub open spec fn length_of(n: nat) -> nat {
    (CMSG_HEADER_LEN + n) as nat
}

/// Bytes of buffer an entry with an `n`-byte payload occupies: header plus
/// payload, padded.
pub open spec fn space_of(n: nat) -> nat {
    (CMSG_HEADER_LEN + align_up(n)) as nat
}

/// A sequence of `n` zero bytes.
pub open spec fn zero_bytes(n: nat) -> Seq<u8> {
    Seq::new(n, |i: int| 0u8)
}

/// The byte image of one entry: length, level and type fields, payload,
/// zero padding.
pub open spec fn entry_bytes(m: CMsgView) -> Seq<u8> {
    let p = payload_of(m);
    le64(length_of(p.len()) as u64) + le32i(level_of(m)) + le32i(kind_of(m)) + p + zero_bytes(
        pad_of(p.len()),
    )
}

/// The byte image of a sequence of messages: their entries back to back.
pub open spec fn encoding(msgs: Seq<CMsgView>) -> Seq<u8>
    decreases msgs.len(),
{
    if msgs.len() == 0 {
        Seq::empty()
    } else {
        entry_bytes(msgs[0]) + encoding(msgs.skip(1))
    }
}

/// Buffer bytes a sequence of messages needs.
pub open spec fn needed_space(msgs: Seq<CMsgView>) -> nat
    decreases msgs.len(),
{
    if msgs.len() == 0 {
        0
    } else {
        space_of(payload_of(msgs[0]).len()) + needed_space(msgs.skip(1))
    }
}

/// The message a decoded entry produces, if any: the sentinel pair
/// `(0, 0)` produces none; a recognized IPv6 pair of the right payload size
/// produces its typed variant; anything else is `Raw`.
pub open spec fn classify(level: i32, kind: i32, payload: Seq<u8>) -> Option<CMsgView> {
    if level == 0 && kind == 0 {
        None
    } else if level == IPPROTO_IPV6 && kind == IPV6_HOPLIMIT && payload.len() == 4 {
        Some(CMsgView::Ipv6HopLimit(i32_from_le(payload)))
    } else if level == IPPROTO_IPV6 && kind == IPV6_PATHMTU && payload.len() == 4 {
        Some(CMsgView::Ipv6PathMtu(i32_from_le(payload)))
    } else if level == IPPROTO_IPV6 && kind == IPV6_PKTINFO && payload.len() == 20 {
        Some(
            CMsgView::Ipv6PktInfo(
                PktInfoView { addr: payload.take(16), ifindex: le32_val(payload.skip(16)) },
            ),
        )
    } else {
        Some(CMsgView::Raw(RawView { level, kind, data: payload }))
    }
}

/// The messages decoded from a buffer. Decoding stops at the first spot
/// where no further well-formed header fits.
pub open spec fn decode_bytes(b: Seq<u8>) -> Seq<CMsgView>
    decreases b.len(),
{
    if b.len() < 16 {
        Seq::empty()
    } else {
        let clen = le64_val(b.subrange(0, 8)) as nat;
        if clen < 16 || clen > b.len() {
            Seq::empty()
        } else {
            let level = i32_from_le(b.subrange(8, 12));
            let kind = i32_from_le(b.subrange(12, 16));
            let payload = b.subrange(16, clen as int);
            let step: nat = if align_up(clen) <= b.len() {
                align_up(clen)
            } else {
                b.len()
            };
            let rest = decode_bytes(b.skip(step as int));
            match classify(level, kind, payload) {
                Some(m) => seq![m] + rest,
                None => rest,
            }
        }
    }
}

/// Rounding up to an 8-byte boundary adds at most 7 bytes.
pub proof fn lemma_align_up_bounds(n: nat)
    ensures
        n <= align_up(n) < n + 8,
{
}

/// A 16-byte header shifts padding by whole alignment units: the padded
/// size of header plus payload is the header plus the padded payload.
pub proof fn lemma_align_up_header(n: nat)
    ensures
        align_up(16 + n) == 16 + align_up(n),
{
    lemma_mod_multiples_vanish(2, n as int, 8);
}

/// One entry occupies exactly the space its payload calls for.
pub proof fn lemma_entry_bytes_len(m: CMsgView)
    ensures
        entry_bytes(m).len() == space_of(payload_of(m).len()),
{
}

impl Ipv6PktInfo {
    /// Builds a packet-info payload from an address and an interface index.
    pub fn new(addr: [u8; 16], ifindex: u32) -> (r: Self)
        ensures
            r@ == (PktInfoView { addr: addr@, ifindex }),
    {
        Ipv6PktInfo { addr, ifindex }
    }

    /// The 16-byte address carried by this entry.
    pub fn addr(&self) -> (r: [u8; 16])
        ensures
            r@ == self@.addr,
    {
        self.addr
    }

    /// The interface index carried by this entry.
    pub fn ifindex(&self) -> (r: u32)
        ensures
            r == self@.ifindex,
    {
        self.ifindex
    }
}

impl Raw {
    /// Builds a raw entry from its level and type identifiers and payload.
    pub fn from(level: i32, kind: i32, data: Vec<u8>) -> (r: Self)
        ensures
            r@ == (RawView { level, kind, data: data@ }),
    {
        Raw { level, kind, data }
    }
}

impl CMsg {
    /// Level identifier this message is written with.
    pub fn level(&self) -> (r: i32)
        ensures
            r == level_of(self@),
    {
        match self {
            CMsg::Ipv6HopLimit(_) => IPPROTO_IPV6,
            CMsg::Ipv6PathMtu(_) => IPPROTO_IPV6,
            CMsg::Ipv6PktInfo(_) => IPPROTO_IPV6,
            CMsg::Raw(raw) => raw.level,
        }
    }

    /// Type identifier this message is written with.
    pub fn kind(&self) -> (r: i32)
        ensures
            r == kind_of(self@),
    {
        match self {
            CMsg::Ipv6HopLimit(_) => IPV6_HOPLIMIT,
            CMsg::Ipv6PathMtu(_) => IPV6_PATHMTU,
            CMsg::Ipv6PktInfo(_) => IPV6_PKTINFO,
            CMsg::Raw(raw) => raw.kind,
        }
    }

    /// Payload byte count of this message.
    pub fn size(&self) -> (r: usize)
        ensures
            r == payload_of(self@).len(),
    {
        match self {
            CMsg::Ipv6HopLimit(_) => 4,
            CMsg::Ipv6PathMtu(_) => 4,
            CMsg::Ipv6PktInfo(_) => 20,
            CMsg::Raw(raw) => raw.data.len(),
        }
    }
}

/// Unfolding `needed_space` and `encoding` one message at a time.
proof fn lemma_suffix_unfold(vs: Seq<CMsgView>, i: int)
    requires
        0 <= i < vs.len(),
    ensures
        needed_space(vs.skip(i)) == space_of(payload_of(vs[i]).len()) + needed_space(
            vs.skip(i + 1),
        ),
        encoding(vs.skip(i)) == entry_bytes(vs[i]) + encoding(vs.skip(i + 1)),
{
    let t = vs.skip(i);
    assert(t[0] == vs[i]);
    assert(t.skip(1) =~= vs.skip(i + 1));
}

/// Writes one entry at `off`: header, payload, zero padding.
#[verifier::rlimit(60)]
fn write_entry(buf: &mut Vec<u8>, off: usize, msg: &CMsg)
    requires
        off + space_of(payload_of(msg@).len()) <= old(buf).len(),
    ensures
        final(buf).len() == old(buf).len(),
        forall|j: int|
            0 <= j < space_of(payload_of(msg@).len()) ==> final(buf)@[off + j] == entry_bytes(
                msg@,
            )[j],
        forall|j: int|
            0 <= j < final(buf).len() && !(off <= j < off + space_of(payload_of(msg@).len()))
                ==> final(buf)@[j] == old(buf)@[j],
{
    let size = msg.size();
    proof {
        lemma_align_up_bounds(size as nat);
    }
    let l = CMSG_HEADER_LEN + size;
    let rem = size % CMSG_ALIGNMENT;
    let pad: usize = if rem == 0 {
        0
    } else {
        CMSG_ALIGNMENT - rem
    };
    proof {
        assert(pad == pad_of(size as nat));
    }
    write_u64_le(buf, off, l as u64);
    write_i32_le(buf, off + 8, msg.level());
    write_i32_le(buf, off + 12, msg.kind());
    match msg {
        CMsg::Ipv6HopLimit(v) => write_i32_le(buf, off + 16, *v),
        CMsg::Ipv6PathMtu(v) => write_i32_le(buf, off + 16, *v),
        CMsg::Ipv6PktInfo(p) => {
            write_bytes(buf, off + 16, p.addr.as_slice());
            write_u32_le(buf, off + 32, p.ifindex);
        },
        CMsg::Raw(r) => write_bytes(buf, off + 16, r.data.as_slice()),
    }
    write_zeroes(buf, off + 16 + size, pad);
    proof {
        let m = msg@;
        let p = payload_of(m);
        let e = entry_bytes(m);
        let s = space_of(p.len()) as int;
        assert forall|j: int| 0 <= j < s implies buf@[off + j] == e[j] by {
            if j < 8 {
                assert(buf@[off + j] == le64(length_of(p.len()) as u64)[j]);
            } else if j < 12 {
                assert(buf@[off + j] == le32i(level_of(m))[j - 8]);
            } else if j < 16 {
                assert(buf@[off + j] == le32i(kind_of(m))[j - 12]);
            } else if j < 16 + p.len() {
                match m {
                    CMsgView::Ipv6PktInfo(pi) => {
                        if j < 32 {
                            assert(buf@[off + j] == pi.addr[j - 16]);
                        } else {
                            assert(buf@[off + j] == le32(pi.ifindex)[j - 32]);
                        }
                        assert(p[j - 16] == (pi.addr + le32(pi.ifindex))[j - 16]);
                    },
                    _ => {},
                }
                assert(buf@[off + j] == p[j - 16]);
            } else {
                assert(buf@[off + j] == 0u8);
                assert(e[j] == zero_bytes(pad_of(p.len()))[j - 16 - p.len()]);
            }
        }
    }
}

impl CMsg {
    /// Encodes the messages into the caller-owned buffer, back to back in
    /// order, and returns how many bytes of it they occupy. Fails with
    /// `BufferSize`, exactly when the messages need more bytes than the
    /// buffer holds; the buffer contents are unspecified after a failure and
    /// must be discarded.
    pub fn encode(buf: &mut Vec<u8>, msgs: &[CMsg]) -> (r: Result<usize, Error>)
        ensures
            final(buf).len() == old(buf).len(),
            match r {
                Ok(n) => n == needed_space(views(msgs@)) && n <= old(buf).len()
                    && final(buf)@.subrange(0, n as int) == encoding(views(msgs@))
                    && final(buf)@.skip(n as int) == old(buf)@.skip(n as int),
                Err(e) => e == Error::BufferSize && needed_space(views(msgs@)) > old(buf).len(),
            },
    {
        let ghost vs = views(msgs@);
        let len = buf.len();
        let n_msgs = msgs.len();
        let mut off: usize = 0;
        let mut i: usize = 0;
        proof {
            assert(vs.skip(0) =~= vs);
            assert(buf@.subrange(0, 0) + encoding(vs) =~= encoding(vs));
        }
        while i < n_msgs
            invariant
                i <= n_msgs,
                n_msgs == msgs@.len(),
                vs == views(msgs@),
                vs.len() == n_msgs,
                off <= len,
                len == buf.len(),
                len == old(buf).len(),
                needed_space(vs) == off + needed_space(vs.skip(i as int)),
                buf@.subrange(0, off as int) + encoding(vs.skip(i as int)) == encoding(vs),
                forall|j: int| off <= j < len ==> buf@[j] == old(buf)@[j],
            decreases n_msgs - i,
        {
            let msg = &msgs[i];
            proof {
                lemma_suffix_unfold(vs, i as int);
                assert(vs[i as int] == msg@);
                lemma_align_up_bounds(payload_of(msg@).len());
            }
            let size = msg.size();
            let remaining = len - off;
            if remaining < CMSG_HEADER_LEN || size > remaining - CMSG_HEADER_LEN {
                return Err(Error::BufferSize);
            }
            let l = CMSG_HEADER_LEN + size;
            let rem = size % CMSG_ALIGNMENT;
            let pad: usize = if rem == 0 {
                0
            } else {
                CMSG_ALIGNMENT - rem
            };
            proof {
                assert(pad == pad_of(size as nat));
            }
            if pad > remaining - l {
                return Err(Error::BufferSize);
            }
            let space = l + pad;
            let ghost prev = buf@;
            write_entry(buf, off, msg);
            proof {
                assert(buf@.subrange(0, (off + space) as int) =~= prev.subrange(0, off as int)
                    + entry_bytes(vs[i as int]));
                assert(buf@.subrange(0, (off + space) as int) + encoding(vs.skip(i as int + 1))
                    =~= encoding(vs));
            }
            off = off + space;
            i = i + 1;
        }
        proof {
            assert(vs.skip(n_msgs as int) =~= Seq::<CMsgView>::empty());
            assert(buf@.subrange(0, off as int) + encoding(vs.skip(n_msgs as int)) =~= buf@.subrange(
                0,
                off as int,
            ));
            assert(buf@.skip(off as int) =~= old(buf)@.skip(off as int));
        }
        Ok(off)
    }
}

/// Bytes of buffer an entry with a payload of `payload_len` bytes
/// occupies, padding included: what a caller sums over its messages to size
/// an ancillary buffer. `None` when that count cannot be represented.
pub fn space_for(payload_len: usize) -> (r: Option<usize>)
    ensures
        match r {
            Some(s) => s == space_of(payload_len as nat),
            None => space_of(payload_len as nat) > usize::MAX,
        },
{
    let rem = payload_len % CMSG_ALIGNMENT;
    let pad: usize = if rem == 0 {
        0
    } else {
        CMSG_ALIGNMENT - rem
    };
    proof {
        assert(pad == pad_of(payload_len as nat));
    }
    if payload_len > usize::MAX - CMSG_HEADER_LEN - pad {
        None
    } else {
        Some(CMSG_HEADER_LEN + payload_len + pad)
    }
}

/// The value of the entry length field for a payload of `payload_len`
/// bytes: header plus payload, unpadded. `None` when that count cannot be
/// represented.
pub fn length_for(payload_len: usize) -> (r: Option<usize>)
    ensures
        match r {
            Some(s) => s == length_of(payload_len as nat),
            None => length_of(payload_len as nat) > usize::MAX,
        },
{
    if payload_len > usize::MAX - CMSG_HEADER_LEN {
        None
    } else {
        Some(CMSG_HEADER_LEN + payload_len)
    }
}

/// Builds the message a decoded entry produces, if any.
fn classify_msg(level: i32, kind: i32, payload: Vec<u8>) -> (r: Option<CMsg>)
    ensures
        match r {
            Some(m) => classify(level, kind, payload@) == Some(m@),
            None => classify(level, kind, payload@) == None::<CMsgView>,
        },
{
    if level == 0 && kind == 0 {
        None
    } else if level == IPPROTO_IPV6 && kind == IPV6_HOPLIMIT && payload.len() == 4 {
        let v = read_i32_le(payload.as_slice(), 0);
        proof {
            assert(payload@.subrange(0, 4) =~= payload@);
        }
        Some(CMsg::Ipv6HopLimit(v))
    } else if level == IPPROTO_IPV6 && kind == IPV6_PATHMTU && payload.len() == 4 {
        let v = read_i32_le(payload.as_slice(), 0);
        proof {
            assert(payload@.subrange(0, 4) =~= payload@);
        }
        Some(CMsg::Ipv6PathMtu(v))
    } else if level == IPPROTO_IPV6 && kind == IPV6_PKTINFO && payload.len() == 20 {
        let mut addr: [u8; 16] = [0u8; 16];
        let mut i: usize = 0;
        while i < 16
            invariant
                i <= 16,
                payload.len() == 20,
                forall|j: int| 0 <= j < i ==> addr@[j] == payload@[j],
            decreases 16 - i,
        {
            addr[i] = payload[i];
            i = i + 1;
        }
        let ifindex = read_u32_le(payload.as_slice(), 16);
        proof {
            assert(addr@ =~= payload@.take(16));
            assert(payload@.subrange(16, 20) =~= payload@.skip(16));
        }
        Some(CMsg::Ipv6PktInfo(Ipv6PktInfo::new(addr, ifindex)))
    } else {
        Some(CMsg::Raw(Raw { level, kind, data: payload }))
    }
}

impl CMsg {
    /// Decodes every entry of the buffer, in order. Decoding is a pure
    /// function of the bytes, so running it again on the same buffer is safe
    /// and yields the same messages. It stops at the first spot where no
    /// further well-formed header fits within the buffer.
    pub fn decode(buf: &[u8]) -> (r: Vec<CMsg>)
        ensures
            views(r@) == decode_bytes(buf@),
    {
        let len = buf.len();
        let mut out: Vec<CMsg> = Vec::new();
        let mut off: usize = 0;
        proof {
            assert(buf@.skip(0) =~= buf@);
            assert(views(out@) + decode_bytes(buf@) =~= decode_bytes(buf@));
        }
        loop
            invariant
                off <= len,
                len == buf.len(),
                views(out@) + decode_bytes(buf@.skip(off as int)) == decode_bytes(buf@),
            ensures
                views(out@) == decode_bytes(buf@),
            decreases len - off,
        {
            let ghost b = buf@.skip(off as int);
            if len - off < CMSG_HEADER_LEN {
                proof {
                    assert(decode_bytes(b) =~= Seq::<CMsgView>::empty());
                    assert(views(out@) + decode_bytes(b) =~= views(out@));
                }
                break;
            }
            proof {
                assert(b.subrange(0, 8) =~= buf@.subrange(off as int, off as int + 8));
            }
            let clen64 = read_u64_le(buf, off);
            if clen64 < 16 || clen64 > (len - off) as u64 {
                proof {
                    assert(decode_bytes(b) =~= Seq::<CMsgView>::empty());
                    assert(views(out@) + decode_bytes(b) =~= views(out@));
                }
                break;
            }
            let clen = clen64 as usize;
            proof {
                assert(clen == clen64);
                assert(b.subrange(8, 12) =~= buf@.subrange(off as int + 8, off as int + 12));
                assert(b.subrange(12, 16) =~= buf@.subrange(off as int + 12, off as int + 16));
                assert(b.subrange(16, clen as int) =~= buf@.subrange(
                    off as int + 16,
                    off as int + clen,
                ));
            }
            let level = read_i32_le(buf, off + 8);
            let kind = read_i32_le(buf, off + 12);
            let payload = copy_range(buf, off + CMSG_HEADER_LEN, off + clen);
            let rem = clen % CMSG_ALIGNMENT;
            let pad: usize = if rem == 0 {
                0
            } else {
                CMSG_ALIGNMENT - rem
            };
            let advance = pad <= (len - off) - clen;
            let ghost step: int = if advance {
                clen + pad
            } else {
                (len - off) as int
            };
            proof {
                assert(pad == pad_of(clen as nat));
                assert(b.skip(step) =~= buf@.skip(off + step));
            }
            let ghost pre_out = out@;
            let msg = classify_msg(level, kind, payload);
            match msg {
                Some(m) => {
                    proof {
                        assert(decode_bytes(b) == seq![m@] + decode_bytes(b.skip(step)));
                        assert(views(pre_out.push(m)) =~= views(pre_out) + seq![m@]);
                    }
                    out.push(m);
                },
                None => {
                    proof {
                        assert(decode_bytes(b) == decode_bytes(b.skip(step)));
                    }
                },
            }
            if advance {
                off = off + clen + pad;
            } else {
                off = len;
            }
            proof {
                assert(views(out@) + decode_bytes(buf@.skip(off as int)) =~= decode_bytes(buf@));
            }
        }
        out
    }
}

/// Whether a message decodes back to itself from its own identifiers and
/// payload. The typed variants always do; a `Raw` does not when its pair is
/// the sentinel, or collides with a recognized pair at the matching payload
/// size and so decodes as the typed variant instead.
pub open spec fn decodes_to_self(m: CMsgView) -> bool {
    classify(level_of(m), kind_of(m), payload_of(m)) == Some(m)
}

/// Whether the entry length field of a message fits its 64-bit wire field.
pub open spec fn fits_length_field(m: CMsgView) -> bool {
    length_of(payload_of(m).len()) <= u64::MAX
}

/// The typed variants always decode back to themselves.
pub proof fn lemma_typed_decodes_to_self(m: CMsgView)
    requires
        !(m is Raw),
        m matches CMsgView::Ipv6PktInfo(p) ==> p.addr.len() == 16,
    ensures
        decodes_to_self(m),
{
    match m {
        CMsgView::Ipv6HopLimit(v) => lemma_le32i_round_trip(v),
        CMsgView::Ipv6PathMtu(v) => lemma_le32i_round_trip(v),
        CMsgView::Ipv6PktInfo(p) => {
            let payload = p.addr + le32(p.ifindex);
            assert(payload.take(16) =~= p.addr);
            assert(payload.skip(16) =~= le32(p.ifindex));
            lemma_le32_round_trip(p.ifindex);
        },
        CMsgView::Raw(_) => {},
    }
}

/// Decoding a buffer that starts with one whole encoded entry reads exactly
/// that entry, emits what the entry's identifiers and payload call for, and
/// continues with the bytes behind it.
pub proof fn lemma_decode_one_entry(m: CMsgView, rest: Seq<u8>)
    requires
        fits_length_field(m),
    ensures
        decode_bytes(entry_bytes(m) + rest) == (match classify(
            level_of(m),
            kind_of(m),
            payload_of(m),
        ) {
            Some(v) => seq![v] + decode_bytes(rest),
            None => decode_bytes(rest),
        }),
{
    let p = payload_of(m);
    let e = entry_bytes(m);
    let b = e + rest;
    lemma_entry_bytes_len(m);
    lemma_align_up_bounds(p.len());
    lemma_align_up_header(p.len());
    assert(b.subrange(0, 8) =~= le64(length_of(p.len()) as u64));
    lemma_le64_round_trip(length_of(p.len()) as u64);
    let clen = le64_val(b.subrange(0, 8)) as nat;
    assert(clen == length_of(p.len()));
    assert(b.subrange(8, 12) =~= le32i(level_of(m)));
    assert(b.subrange(12, 16) =~= le32i(kind_of(m)));
    lemma_le32i_round_trip(level_of(m));
    lemma_le32i_round_trip(kind_of(m));
    assert(b.subrange(16, clen as int) =~= p);
    assert(align_up(clen) == e.len());
    assert(b.skip(e.len() as int) =~= rest);
}

/// Round trip: decoding the encoding of a message sequence reproduces the
/// sequence exactly, for every length and every variant, provided each
/// message decodes back to itself and its length field fits.
pub proof fn lemma_round_trip(msgs: Seq<CMsgView>)
    requires
        forall|i: int| 0 <= i < msgs.len() ==> decodes_to_self(#[trigger] msgs[i]),
        forall|i: int| 0 <= i < msgs.len() ==> fits_length_field(#[trigger] msgs[i]),
    ensures
        decode_bytes(encoding(msgs)) == msgs,
    decreases msgs.len(),
{
    if msgs.len() == 0 {
    } else {
        let tail = msgs.skip(1);
        assert forall|i: int| 0 <= i < tail.len() implies decodes_to_self(#[trigger] tail[i])
            && fits_length_field(tail[i]) by {
            assert(tail[i] == msgs[i + 1]);
        }
        lemma_decode_one_entry(msgs[0], encoding(tail));
        lemma_round_trip(tail);
        assert(seq![msgs[0]] + tail =~= msgs);
    }
}

/// A sentinel entry, one whose level and type are both zero, produces no
/// message, and decoding continues correctly past it.
pub proof fn lemma_sentinel_skipped(m: CMsgView, rest: Seq<u8>)
    requires
        level_of(m) == 0,
        kind_of(m) == 0,
        fits_length_field(m),
    ensures
        decode_bytes(entry_bytes(m) + rest) == decode_bytes(rest),
{
    lemma_decode_one_entry(m, rest);
}

/// An entry of unrecognized identifiers decodes as `Raw`, carrying its
/// level, its type, and payload bytes of exactly the decoded entry length
/// minus the header length.
pub proof fn lemma_unknown_decodes_as_raw(r: RawView, rest: Seq<u8>)
    requires
        canonical_raw(r),
        fits_length_field(CMsgView::Raw(r)),
    ensures
        decode_bytes(entry_bytes(CMsgView::Raw(r)) + rest) == seq![CMsgView::Raw(r)]
            + decode_bytes(rest),
        r.data.len() == length_of(r.data.len()) - CMSG_HEADER_LEN,
{
    lemma_decode_one_entry(CMsgView::Raw(r), rest);
}

/// Whether a raw entry decodes as its own identifiers: neither the sentinel
/// pair nor a recognized pair at the matching payload size, which would
/// decode as the typed variant instead.
pub open spec fn canonical_raw(r: RawView) -> bool {
    &&& !(r.level == 0 && r.kind == 0)
    &&& !(r.level == IPPROTO_IPV6 && r.kind == IPV6_HOPLIMIT && r.data.len() == 4)
    &&& !(r.level == IPPROTO_IPV6 && r.kind == IPV6_PATHMTU && r.data.len() == 4)
    &&& !(r.level == IPPROTO_IPV6 && r.kind == IPV6_PKTINFO && r.data.len() == 20)
}

/// Every message the executable type can hold decodes back to itself,
/// except a `Raw` whose identifiers are not its own on the wire.
pub proof fn lemma_msg_decodes_to_self(m: CMsg)
    requires
        m matches CMsg::Raw(r) ==> canonical_raw(r@),
    ensures
        decodes_to_self(m@),
{
    match m {
        CMsg::Raw(_) => {},
        _ => lemma_typed_decodes_to_self(m@),
    }
}

/// Round trip over a message vector: what `encode` writes, `decode` reads
/// back message for message, for any number of messages and every variant,
/// provided each `Raw` carries identifiers of its own and a payload whose
/// length field fits.
pub proof fn lemma_vec_round_trip(msgs: Seq<CMsg>)
    requires
        forall|i: int|
            0 <= i < msgs.len() ==> ((#[trigger] msgs[i]) matches CMsg::Raw(r) ==> canonical_raw(
                r@,
            ) && fits_length_field(CMsgView::Raw(r@))),
    ensures
        decode_bytes(encoding(views(msgs))) == views(msgs),
{
    let vs = views(msgs);
    assert forall|i: int| 0 <= i < vs.len() implies decodes_to_self(#[trigger] vs[i])
        && fits_length_field(vs[i]) by {
        assert(vs[i] == msgs[i]@);
        lemma_msg_decodes_to_self(msgs[i]);
    }
    lemma_round_trip(vs);
}

} // verus!
