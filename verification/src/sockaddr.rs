//! Socket addresses and their `struct sockaddr_in` / `struct sockaddr_in6`
//! bytes on Linux.
//!
//! `sockaddr_in` (16 bytes): family, port in network order, the four address
//! bytes, eight zero bytes. `sockaddr_in6` (28 bytes): family, port in
//! network order, flow information, the sixteen address bytes, scope id.
//! The family, the flow information and the scope id are in the machine's
//! byte order.
use vstd::prelude::*;
use crate::wire::{
    lemma_u16_roundtrip, lemma_u32_roundtrip, put_u16, put_u32, u16_at,
    u16_bytes, u32_at, u32_bytes, ByteOrder,
};

verus! {

/// `AF_INET` on Linux.
pub const AF_INET: u16 = 2;

/// `AF_INET6` on Linux.
pub const AF_INET6: u16 = 10;

/// Size in bytes of `struct sockaddr_in`.
pub const SOCKADDR_IN_LEN: usize = 16;

/// Size in bytes of `struct sockaddr_in6`, the largest address read.
pub const SOCKADDR_IN6_LEN: usize = 28;

/// A socket address: an IPv4 or IPv6 address with a port.
#[allow(inconsistent_fields)]
#[derive(Debug, Clone, Copy, PartialEq, Eq)]
pub enum SockAddr {
    V4 { ip: [u8; 4], port: u16 },
    V6 { ip: [u8; 16], port: u16, flowinfo: u32, scope_id: u32 },
}

/// The bytes of the `struct sockaddr_in` or `struct sockaddr_in6` of `a`.
pub open spec fn sockaddr_encoding(order: ByteOrder, a: SockAddr) -> Seq<u8> {
    match a {
        SockAddr::V4 { ip, port } => u16_bytes(order, AF_INET) + u16_bytes(ByteOrder::Big, port)
            + ip@ + Seq::new(8, |i: int| 0u8),
        SockAddr::V6 { ip, port, flowinfo, scope_id } => u16_bytes(order, AF_INET6) + u16_bytes(
            ByteOrder::Big,
            port,
        ) + u32_bytes(order, flowinfo) + ip@ + u32_bytes(order, scope_id),
    }
}

/// The bytes an address is read from: the first 28 of `b`, with zeros in
/// place of those that `b` lacks.
pub open spec fn sockaddr_buffer(b: Seq<u8>) -> Seq<u8> {
    Seq::new(28, |i: int| if i < b.len() { b[i] } else { 0u8 })
}

/// The address family that the bytes `b` hold.
pub open spec fn family_of(order: ByteOrder, b: Seq<u8>) -> u16 {
    u16_at(order, sockaddr_buffer(b), 0)
}

/// Whether `a` is the address that the bytes `b` hold.
pub open spec fn is_sockaddr_of(order: ByteOrder, a: SockAddr, b: Seq<u8>) -> bool {
    let s = sockaddr_buffer(b);
    match a {
        SockAddr::V4 { ip, port } => {
            &&& family_of(order, b) == AF_INET
            &&& ip@ == s.subrange(4, 8)
            &&& port == u16_at(ByteOrder::Big, s, 2)
        },
        SockAddr::V6 { ip, port, flowinfo, scope_id } => {
            &&& family_of(order, b) == AF_INET6
            &&& ip@ == s.subrange(8, 24)
            &&& port == u16_at(ByteOrder::Big, s, 2)
            &&& flowinfo == u32_at(order, s, 4)
            &&& scope_id == u32_at(order, s, 24)
        },
    }
}

/// Whether the bytes `b` hold an IPv4 or an IPv6 address.
pub open spec fn holds_ip_address(order: ByteOrder, b: Seq<u8>) -> bool {
    family_of(order, b) == AF_INET || family_of(order, b) == AF_INET6
}

/// The bytes of the `struct sockaddr_in` or `struct sockaddr_in6` of `a`.
pub fn sockaddr_bytes(order: ByteOrder, a: SockAddr) -> (r: Vec<u8>)
    ensures
        r@ == sockaddr_encoding(order, a),
{
    let mut out: Vec<u8> = Vec::new();
    match a {
        SockAddr::V4 { ip, port } => {
            put_u16(order, &mut out, AF_INET);
            put_u16(ByteOrder::Big, &mut out, port);
            let ghost head = out@;
            let mut i: usize = 0;
            while i < 4
                invariant
                    i <= 4,
                    out@ == head + ip@.subrange(0, i as int),
                decreases 4 - i,
            {
                out.push(ip[i]);
                i = i + 1;
                assert(out@ =~= head + ip@.subrange(0, i as int));
            }
            let ghost mid = out@;
            let mut j: usize = 0;
            while j < 8
                invariant
                    j <= 8,
                    out@ == mid + Seq::new(j as nat, |k: int| 0u8),
                decreases 8 - j,
            {
                out.push(0);
                j = j + 1;
                assert(out@ =~= mid + Seq::new(j as nat, |k: int| 0u8));
            }
            assert(ip@.subrange(0, 4) =~= ip@);
            assert(out@ =~= sockaddr_encoding(order, a));
        },
        SockAddr::V6 { ip, port, flowinfo, scope_id } => {
            put_u16(order, &mut out, AF_INET6);
            put_u16(ByteOrder::Big, &mut out, port);
            put_u32(order, &mut out, flowinfo);
            let ghost head = out@;
            let mut i: usize = 0;
            while i < 16
                invariant
                    i <= 16,
                    out@ == head + ip@.subrange(0, i as int),
                decreases 16 - i,
            {
                out.push(ip[i]);
                i = i + 1;
                assert(out@ =~= head + ip@.subrange(0, i as int));
            }
            assert(ip@.subrange(0, 16) =~= ip@);
            put_u32(order, &mut out, scope_id);
            assert(out@ =~= sockaddr_encoding(order, a));
        },
    }
    out
}

/// Reads the address that the bytes `b` hold, as `struct sockaddr` bytes of
/// which the first 28 count and missing ones read as zero; `None` when the
/// family is neither `AF_INET` nor `AF_INET6`.
pub fn sockaddr_from_bytes(order: ByteOrder, b: &[u8]) -> (r: Option<SockAddr>)
    ensures
        r is Some <==> holds_ip_address(order, b@),
        r matches Some(a) ==> is_sockaddr_of(order, a, b@),
{
    let mut s: Vec<u8> = Vec::new();
    let mut i: usize = 0;
    while i < SOCKADDR_IN6_LEN
        invariant
            i <= SOCKADDR_IN6_LEN,
            s@ == sockaddr_buffer(b@).subrange(0, i as int),
        decreases SOCKADDR_IN6_LEN - i,
    {
        if i < b.len() {
            s.push(b[i]);
        } else {
            s.push(0);
        }
        i = i + 1;
        assert(s@ =~= sockaddr_buffer(b@).subrange(0, i as int));
    }
    assert(s@ =~= sockaddr_buffer(b@));
    let family: u16 = crate::wire::get_u16(order, s.as_slice(), 0);
    let port: u16 = crate::wire::get_u16(ByteOrder::Big, s.as_slice(), 2);
    if family == AF_INET {
        let mut ip: [u8; 4] = [0u8; 4];
        let mut k: usize = 0;
        while k < 4
            invariant
                k <= 4,
                s@.len() == 28,
                forall|j: int| 0 <= j < k ==> ip@[j] == s@[4 + j],
            decreases 4 - k,
        {
            ip[k] = s[4 + k];
            k = k + 1;
        }
        assert(ip@ =~= s@.subrange(4, 8));
        Some(SockAddr::V4 { ip, port })
    } else if family == AF_INET6 {
        let mut ip: [u8; 16] = [0u8; 16];
        let mut k: usize = 0;
        while k < 16
            invariant
                k <= 16,
                s@.len() == 28,
                forall|j: int| 0 <= j < k ==> ip@[j] == s@[8 + j],
            decreases 16 - k,
        {
            ip[k] = s[8 + k];
            k = k + 1;
        }
        assert(ip@ =~= s@.subrange(8, 24));
        let flowinfo: u32 = crate::wire::get_u32(order, s.as_slice(), 4);
        let scope_id: u32 = crate::wire::get_u32(order, s.as_slice(), 24);
        Some(SockAddr::V6 { ip, port, flowinfo, scope_id })
    } else {
        None
    }
}

/// Reading back the bytes of an address gives the address: the family
/// written is an IP family, and every field reads back.
pub proof fn lemma_sockaddr_roundtrip(order: ByteOrder, a: SockAddr)
    ensures
        holds_ip_address(order, sockaddr_encoding(order, a)),
        is_sockaddr_of(order, a, sockaddr_encoding(order, a)),
        sockaddr_encoding(order, a).len() == (match a {
            SockAddr::V4 { .. } => SOCKADDR_IN_LEN,
            SockAddr::V6 { .. } => SOCKADDR_IN6_LEN,
        }),
{
    let e = sockaddr_encoding(order, a);
    let s = sockaddr_buffer(e);
    match a {
        SockAddr::V4 { ip, port } => {
            let f = u16_bytes(order, AF_INET);
            let p = u16_bytes(ByteOrder::Big, port);
            let z = Seq::new(8, |i: int| 0u8);
            lemma_u16_roundtrip(order, AF_INET);
            lemma_u16_roundtrip(ByteOrder::Big, port);
            assert(e.len() == 16);
            assert(s.subrange(0, 16) =~= e);
            assert(s.subrange(0, 2) =~= f);
            assert(s.subrange(2, 4) =~= p);
            assert(s.subrange(4, 8) =~= ip@);
            assert(f.subrange(0, 2) =~= f);
            assert(p.subrange(0, 2) =~= p);
        },
        SockAddr::V6 { ip, port, flowinfo, scope_id } => {
            let f = u16_bytes(order, AF_INET6);
            let p = u16_bytes(ByteOrder::Big, port);
            let fl = u32_bytes(order, flowinfo);
            let sc = u32_bytes(order, scope_id);
            lemma_u16_roundtrip(order, AF_INET6);
            lemma_u16_roundtrip(ByteOrder::Big, port);
            lemma_u32_roundtrip(order, flowinfo);
            lemma_u32_roundtrip(order, scope_id);
            assert(e.len() == 28);
            assert(s =~= e);
            assert(s.subrange(0, 2) =~= f);
            assert(s.subrange(2, 4) =~= p);
            assert(s.subrange(4, 8) =~= fl);
            assert(s.subrange(8, 24) =~= ip@);
            assert(s.subrange(24, 28) =~= sc);
            assert(f.subrange(0, 2) =~= f);
            assert(p.subrange(0, 2) =~= p);
            assert(fl.subrange(0, 4) =~= fl);
            assert(sc.subrange(0, 4) =~= sc);
        },
    }
}

/// Size in bytes of the `struct sockaddr` of `a`: 16 for IPv4, 28 for IPv6.
pub open spec fn sockaddr_len(a: SockAddr) -> nat {
    match a {
        SockAddr::V4 { .. } => 16,
        SockAddr::V6 { .. } => 28,
    }
}

/// Bytes hold at most one address: two addresses read from the same bytes
/// are the same address.
pub proof fn lemma_sockaddr_read_is_unique(order: ByteOrder, x: SockAddr, y: SockAddr, b: Seq<u8>)
    requires
        is_sockaddr_of(order, x, b),
        is_sockaddr_of(order, y, b),
    ensures
        x == y,
{
    broadcast use vstd::array::axiom_array_ext_equal;

    match (x, y) {
        (SockAddr::V4 { ip: i1, .. }, SockAddr::V4 { ip: i2, .. }) => {
            assert(i1@ =~= i2@);
            assert forall|k: int| 0 <= k < 4 implies i1[k] == i2[k] by {
                assert(i1@[k] == i2@[k]);
            }
            assert(i1 =~= i2);
        },
        (SockAddr::V6 { ip: i1, .. }, SockAddr::V6 { ip: i2, .. }) => {
            assert(i1@ =~= i2@);
            assert forall|k: int| 0 <= k < 16 implies i1[k] == i2[k] by {
                assert(i1@[k] == i2@[k]);
            }
            assert(i1 =~= i2);
        },
        _ => {},
    }
}

/// Reading the bytes of an address gives that address back and no other:
/// whatever reads from `sockaddr_encoding(a)` is `a`, and the bytes are 16
/// long for IPv4 and 28 for IPv6.
pub proof fn lemma_sockaddr_decode_encode(order: ByteOrder, a: SockAddr, x: SockAddr)
    requires
        is_sockaddr_of(order, x, sockaddr_encoding(order, a)),
    ensures
        x == a,
        sockaddr_encoding(order, a).len() == sockaddr_len(a),
{
    lemma_sockaddr_roundtrip(order, a);
    lemma_sockaddr_read_is_unique(order, x, a, sockaddr_encoding(order, a));
}

/// The C layout of an address's bytes: the family in the machine's order at
/// 0, the port big-endian at 2, then for IPv4 the four address bytes at 4
/// and zeros up to 16; for IPv6 the flow information at 4, the sixteen
/// address bytes at 8 and the scope id at 24.
pub proof fn lemma_sockaddr_layout(order: ByteOrder, a: SockAddr)
    ensures
        sockaddr_encoding(order, a).len() == sockaddr_len(a),
        sockaddr_encoding(order, a).subrange(2, 4) == u16_bytes(ByteOrder::Big, (match a {
            SockAddr::V4 { port, .. } => port,
            SockAddr::V6 { port, .. } => port,
        })),
        a matches SockAddr::V4 { ip, .. } ==> {
            &&& sockaddr_encoding(order, a).subrange(0, 2) == u16_bytes(order, AF_INET)
            &&& sockaddr_encoding(order, a).subrange(4, 8) == ip@
            &&& sockaddr_encoding(order, a).subrange(8, 16) == Seq::new(8, |i: int| 0u8)
        },
        a matches SockAddr::V6 { ip, flowinfo, scope_id, .. } ==> {
            &&& sockaddr_encoding(order, a).subrange(0, 2) == u16_bytes(order, AF_INET6)
            &&& sockaddr_encoding(order, a).subrange(4, 8) == u32_bytes(order, flowinfo)
            &&& sockaddr_encoding(order, a).subrange(8, 24) == ip@
            &&& sockaddr_encoding(order, a).subrange(24, 28) == u32_bytes(order, scope_id)
        },
{
    let e = sockaddr_encoding(order, a);
    match a {
        SockAddr::V4 { ip, port } => {
            lemma_u16_roundtrip(order, AF_INET);
            lemma_u16_roundtrip(ByteOrder::Big, port);
            assert(e.subrange(0, 2) =~= u16_bytes(order, AF_INET));
            assert(e.subrange(2, 4) =~= u16_bytes(ByteOrder::Big, port));
            assert(e.subrange(4, 8) =~= ip@);
            assert(e.subrange(8, 16) =~= Seq::new(8, |i: int| 0u8));
        },
        SockAddr::V6 { ip, port, flowinfo, scope_id } => {
            lemma_u16_roundtrip(order, AF_INET6);
            lemma_u16_roundtrip(ByteOrder::Big, port);
            lemma_u32_roundtrip(order, flowinfo);
            lemma_u32_roundtrip(order, scope_id);
            assert(e.subrange(0, 2) =~= u16_bytes(order, AF_INET6));
            assert(e.subrange(2, 4) =~= u16_bytes(ByteOrder::Big, port));
            assert(e.subrange(4, 8) =~= u32_bytes(order, flowinfo));
            assert(e.subrange(8, 24) =~= ip@);
            assert(e.subrange(24, 28) =~= u32_bytes(order, scope_id));
        },
    }
}

} // verus!
