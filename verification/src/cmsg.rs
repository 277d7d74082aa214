//! Ancillary data ("control messages") of `sendmsg` and `recvmsg`.
//!
//! A control buffer holds a sequence of messages, each a `struct cmsghdr`
//! (a `size_t` length that counts the header, then the level and the type
//! as `int`s) followed by its data. The next message starts at the length
//! rounded up to the size of `size_t`. The walk below takes the steps of
//! `CMSG_FIRSTHDR` and `CMSG_NXTHDR` as the `libc` crate writes them for
//! Linux with glibc.
use vstd::prelude::*;
use crate::structs::{
    lemma_sndinfo_layout, sndinfo_bytes, sndrcvinfo_at, SndInfo, SndRcvInfo, SNDINFO_LEN,
    SNDRCVINFO_LEN,
};
use crate::wire::{
    i32_at, i32_bytes, u16_at, u32_at, lemma_i32_roundtrip, lemma_pow256_values, lemma_uint_bytes_len,
    lemma_uint_value_of_bytes, pow256, push_uint, put_i32, read_uint, uint_bytes, uint_value,
    ByteOrder,
};

verus! {

/// Size of `size_t` on the machine.
#[derive(Clone, Copy, Debug, PartialEq, Eq)]
pub enum WordSize {
    Four,
    Eight,
}

/// What the layout of kernel structures depends on: byte order and word size.
#[derive(Clone, Copy, Debug, PartialEq, Eq)]
pub struct Abi {
    pub order: ByteOrder,
    pub word: WordSize,
}

/// The protocol level of SCTP ancillary data (`IPPROTO_SCTP`).
pub const IPPROTO_SCTP: i32 = 132;

/// Ancillary data type of `struct sctp_sndrcvinfo`.
pub const SCTP_SNDRCV: i32 = 1;

/// Ancillary data type of `struct sctp_sndinfo`.
pub const SCTP_SNDINFO: i32 = 2;

pub open spec fn word_len(w: WordSize) -> nat {
    match w {
        WordSize::Four => 4,
        WordSize::Eight => 8,
    }
}

/// `sizeof(struct cmsghdr)`, which is also its aligned size.
pub open spec fn cmsg_header_len(abi: Abi) -> nat {
    word_len(abi.word) + 8
}

/// `CMSG_ALIGN`: `x` rounded up to a multiple of the word size.
pub open spec fn cmsg_align(abi: Abi, x: nat) -> nat {
    match abi.word {
        WordSize::Four => ((x + 3) / 4) * 4,
        WordSize::Eight => ((x + 7) / 8) * 8,
    }
}

/// The length field of the header at offset `p` of `buf`.
pub open spec fn cmsg_len_at(abi: Abi, buf: Seq<u8>, p: int) -> nat {
    uint_value(abi.order, buf.subrange(p, p + word_len(abi.word)))
}

/// The level field of the header at offset `p` of `buf`.
pub open spec fn cmsg_level_at(abi: Abi, buf: Seq<u8>, p: int) -> i32 {
    i32_at(abi.order, buf, p + word_len(abi.word))
}

/// The type field of the header at offset `p` of `buf`.
pub open spec fn cmsg_type_at(abi: Abi, buf: Seq<u8>, p: int) -> i32 {
    i32_at(abi.order, buf, p + word_len(abi.word) + 4)
}

/// Offsets of the headers that a walk from offset `p` visits: a header is
/// visited when it lies within the buffer; the walk goes on from it when its
/// length covers at least a header and the next header lies within the buffer.
pub open spec fn cmsg_walk(abi: Abi, buf: Seq<u8>, p: int) -> Seq<int>
    decreases buf.len() - p,
{
    if p < 0 || p + cmsg_header_len(abi) > buf.len() {
        Seq::empty()
    } else {
        let len = cmsg_len_at(abi, buf, p);
        if len < cmsg_header_len(abi) {
            seq![p]
        } else {
            let q = p + cmsg_align(abi, len);
            if q <= p || q + cmsg_header_len(abi) > buf.len() {
                seq![p]
            } else {
                seq![p] + cmsg_walk(abi, buf, q)
            }
        }
    }
}

/// The headers of a whole control buffer, in order.
pub open spec fn cmsg_headers(abi: Abi, buf: Seq<u8>) -> Seq<int> {
    cmsg_walk(abi, buf, 0)
}

/// Whether the header at `p` carries a `sctp_sndrcvinfo`: level and type
/// match, and its 32 bytes lie within the control buffer `buf` (those past
/// the filled part included).
pub open spec fn is_sndrcv_at(abi: Abi, buf: Seq<u8>, p: int) -> bool {
    &&& cmsg_level_at(abi, buf, p) == IPPROTO_SCTP
    &&& cmsg_type_at(abi, buf, p) == SCTP_SNDRCV
    &&& p + cmsg_header_len(abi) + SNDRCVINFO_LEN <= buf.len()
}

/// The last of the headers `ps` that carries a `sctp_sndrcvinfo`.
pub open spec fn last_sndrcv(abi: Abi, buf: Seq<u8>, ps: Seq<int>) -> Option<int>
    decreases ps.len(),
{
    if ps.len() == 0 {
        None
    } else if is_sndrcv_at(abi, buf, ps.last()) {
        Some(ps.last())
    } else {
        last_sndrcv(abi, buf, ps.drop_last())
    }
}

/// The `sctp_sndrcvinfo` that a received control buffer `buf`, of which the
/// kernel filled the first `filled` bytes, reports: that of the last
/// SCTP_SNDRCV message among the headers of the filled part. Its bytes are
/// read from `buf`, past the filled part where the message's data runs past
/// it. A message whose 32 bytes would run past the end of `buf` itself is
/// passed over rather than read beyond the buffer.
pub open spec fn sndrcv_of(abi: Abi, buf: Seq<u8>, filled: int) -> Option<SndRcvInfo> {
    match last_sndrcv(abi, buf, cmsg_headers(abi, buf.subrange(0, filled))) {
        Some(p) => Some(sndrcvinfo_at(abi.order, buf, p + cmsg_header_len(abi))),
        None => None,
    }
}

/// The bytes of one control message: header, then data.
pub open spec fn cmsg_bytes(abi: Abi, level: i32, kind: i32, data: Seq<u8>) -> Seq<u8> {
    uint_bytes(abi.order, cmsg_header_len(abi) + data.len(), word_len(abi.word)) + i32_bytes(
        abi.order,
        level,
    ) + i32_bytes(abi.order, kind) + data
}

/// `sizeof(struct cmsghdr)` on the machine `abi`.
pub fn header_len(abi: Abi) -> (r: usize)
    ensures
        r == cmsg_header_len(abi),
{
    match abi.word {
        WordSize::Four => 12,
        WordSize::Eight => 16,
    }
}

fn word_bytes(abi: Abi) -> (r: usize)
    ensures
        r == word_len(abi.word),
{
    match abi.word {
        WordSize::Four => 4,
        WordSize::Eight => 8,
    }
}

/// `CMSG_ALIGN(len)`.
fn align(abi: Abi, len: usize) -> (r: usize)
    requires
        len + 8 <= usize::MAX,
    ensures
        r == cmsg_align(abi, len as nat),
        len <= r <= len + 7,
{
    match abi.word {
        WordSize::Four => (len + 3) / 4 * 4,
        WordSize::Eight => (len + 7) / 8 * 8,
    }
}

/// Frames `data` as one control message of the given level and type, as
/// `sendmsg` hands it to the kernel.
pub fn encode_cmsg(abi: Abi, level: i32, kind: i32, data: &[u8]) -> (r: Vec<u8>)
    requires
        cmsg_header_len(abi) + data@.len() < pow256(word_len(abi.word)),
    ensures
        r@ == cmsg_bytes(abi, level, kind, data@),
{
    let h: usize = header_len(abi);
    let w: usize = word_bytes(abi);
    proof {
        lemma_pow256_values();
    }
    let total: u64 = (h as u64) + (data.len() as u64);
    let mut out: Vec<u8> = Vec::new();
    push_uint(abi.order, &mut out, total, w);
    put_i32(abi.order, &mut out, level);
    put_i32(abi.order, &mut out, kind);
    let mut i: usize = 0;
    let ghost start = out@;
    while i < data.len()
        invariant
            i <= data@.len(),
            out@ == start + data@.subrange(0, i as int),
        decreases data@.len() - i,
    {
        out.push(data[i]);
        i = i + 1;
        assert(out@ =~= start + data@.subrange(0, i as int));
    }
    assert(data@.subrange(0, data@.len() as int) =~= data@);
    out
}

/// The control message that carries a `sctp_sndinfo`, as `sendmsg` sends it.
pub fn sndinfo_cmsg(abi: Abi, info: &SndInfo) -> (r: Vec<u8>)
    ensures
        r@ == cmsg_bytes(abi, IPPROTO_SCTP, SCTP_SNDINFO, sndinfo_bytes(abi.order, *info)),
{
    let data: Vec<u8> = info.to_bytes(abi.order);
    proof {
        lemma_pow256_values();
    }
    encode_cmsg(abi, IPPROTO_SCTP, SCTP_SNDINFO, data.as_slice())
}

proof fn lemma_walk_step(abi: Abi, buf: Seq<u8>, p: int)
    requires
        0 <= p,
        p + cmsg_header_len(abi) <= buf.len(),
    ensures
        cmsg_walk(abi, buf, p).len() >= 1,
        cmsg_walk(abi, buf, p)[0] == p,
        cmsg_walk(abi, buf, p).drop_first() == ({
            let len = cmsg_len_at(abi, buf, p);
            let q = p + cmsg_align(abi, len);
            if len < cmsg_header_len(abi) || q <= p || q + cmsg_header_len(abi) > buf.len() {
                Seq::<int>::empty()
            } else {
                cmsg_walk(abi, buf, q)
            }
        }),
{
    let len = cmsg_len_at(abi, buf, p);
    let q = p + cmsg_align(abi, len);
    if len < cmsg_header_len(abi) || q <= p || q + cmsg_header_len(abi) > buf.len() {
        assert(cmsg_walk(abi, buf, p).drop_first() =~= Seq::<int>::empty());
    } else {
        assert(cmsg_walk(abi, buf, p).drop_first() =~= cmsg_walk(abi, buf, q));
    }
}

/// Walks a received control buffer `buf`, of which the kernel filled the
/// first `filled` bytes, and returns the `sctp_sndrcvinfo` of the last
/// SCTP_SNDRCV message of the filled part. A message whose `sctp_sndrcvinfo`
/// would run past the end of `buf` is passed over.
pub fn find_sndrcv(abi: Abi, buf: &[u8], filled: usize) -> (r: Option<SndRcvInfo>)
    requires
        filled <= buf@.len(),
    ensures
        r == sndrcv_of(abi, buf@, filled as int),
{
    let h: usize = header_len(abi);
    let w: usize = word_bytes(abi);
    let total: usize = buf.len();
    let n: usize = filled;
    let ghost f = buf@.subrange(0, filled as int);
    if n < h {
        return None;
    }
    let mut p: usize = 0;
    let mut found: Option<SndRcvInfo> = None;
    let ghost mut visited: Seq<int> = Seq::empty();
    loop
        invariant
            total == buf@.len(),
            n == filled,
            n <= total,
            f == buf@.subrange(0, n as int),
            n == f.len(),
            h == cmsg_header_len(abi),
            w == word_len(abi.word),
            p + h <= n,
            cmsg_headers(abi, f) == visited + cmsg_walk(abi, f, p as int),
            found == (match last_sndrcv(abi, buf@, visited) {
                Some(q) => Some(sndrcvinfo_at(abi.order, buf@, q + cmsg_header_len(abi))),
                None => None::<SndRcvInfo>,
            }),
        decreases n - p,
    {
        proof {
            lemma_walk_step(abi, f, p as int);
            assert(visited.push(p as int).drop_last() =~= visited);
            assert(f.subrange(p as int, p + w) =~= buf@.subrange(p as int, p + w));
            assert(f.subrange(p + w, p + w + 4) =~= buf@.subrange(p + w, p + w + 4));
            assert(f.subrange(p + w + 4, p + w + 8) =~= buf@.subrange(p + w + 4, p + w + 8));
        }
        let level: i32 = crate::wire::get_i32(abi.order, buf, p + w);
        let kind: i32 = crate::wire::get_i32(abi.order, buf, p + w + 4);
        if level == IPPROTO_SCTP && kind == SCTP_SNDRCV && SNDRCVINFO_LEN <= total - h - p {
            found = Some(SndRcvInfo::read_at(abi.order, buf, p + h));
        }
        let len: u64 = read_uint(abi.order, buf, p, w);
        let rest: usize = n - h - p;
        let ghost walk_p = cmsg_walk(abi, f, p as int);
        if len < h as u64 || len > rest as u64 {
            proof {
                if len >= h as u64 {
                    let q = p + cmsg_align(abi, len as nat);
                    assert(cmsg_align(abi, len as nat) >= len);
                    assert(q + cmsg_header_len(abi) > f.len());
                }
                assert(walk_p =~= seq![p as int]);
                assert(cmsg_headers(abi, f) =~= visited.push(p as int));
            }
            return found;
        }
        let step: usize = align(abi, len as usize);
        if step > rest {
            proof {
                assert(walk_p =~= seq![p as int]);
                assert(cmsg_headers(abi, f) =~= visited.push(p as int));
            }
            return found;
        }
        proof {
            assert(walk_p =~= seq![p as int] + cmsg_walk(abi, f, p + step));
            assert(cmsg_headers(abi, f) =~= visited.push(p as int) + cmsg_walk(abi, f, p + step));
            visited = visited.push(p as int);
        }
        p = p + step;
    }
}

/// The one header of a framed message is read back: the walk visits it alone,
/// and its length, level, type and data are those it was framed with.
pub proof fn lemma_cmsg_roundtrip(abi: Abi, level: i32, kind: i32, data: Seq<u8>)
    requires
        cmsg_header_len(abi) + data.len() < pow256(word_len(abi.word)),
    ensures
        cmsg_headers(abi, cmsg_bytes(abi, level, kind, data)) == seq![0int],
        cmsg_len_at(abi, cmsg_bytes(abi, level, kind, data), 0) == cmsg_header_len(abi)
            + data.len(),
        cmsg_level_at(abi, cmsg_bytes(abi, level, kind, data), 0) == level,
        cmsg_type_at(abi, cmsg_bytes(abi, level, kind, data), 0) == kind,
        cmsg_bytes(abi, level, kind, data).subrange(
            cmsg_header_len(abi) as int,
            cmsg_bytes(abi, level, kind, data).len() as int,
        ) == data,
{
    let b = cmsg_bytes(abi, level, kind, data);
    let w: int = word_len(abi.word) as int;
    let total = cmsg_header_len(abi) + data.len();
    let lenb = uint_bytes(abi.order, total, w as nat);
    let lb = i32_bytes(abi.order, level);
    let kb = i32_bytes(abi.order, kind);
    lemma_uint_bytes_len(abi.order, total, w as nat);
    lemma_uint_value_of_bytes(abi.order, total, w as nat);
    lemma_i32_roundtrip(abi.order, level);
    lemma_i32_roundtrip(abi.order, kind);
    assert(b.subrange(0, w) =~= lenb);
    assert(b.subrange(w, w + 4) =~= lb);
    assert(lb.subrange(0, 4) =~= lb);
    assert(b.subrange(w + 4, w + 8) =~= kb);
    assert(kb.subrange(0, 4) =~= kb);
    assert(b.subrange(cmsg_header_len(abi) as int, b.len() as int) =~= data);
    assert(cmsg_align(abi, total) >= total);
    assert(cmsg_headers(abi, b) =~= seq![0int]);
}

proof fn lemma_read_inside_data(b: Seq<u8>, d: Seq<u8>, h: int, i: int, k: int)
    requires
        0 <= h <= b.len(),
        b.subrange(h, b.len() as int) == d,
        0 <= i,
        0 <= k,
        i + k <= d.len(),
    ensures
        b.subrange(h + i, h + i + k) == d.subrange(i, i + k),
{
    assert(b.subrange(h + i, h + i + k) =~= d.subrange(i, i + k));
}

/// What `sendmsg` hands the kernel: one SCTP_SNDINFO message whose data reads
/// back as the `sctp_sndinfo` it was given, field by field.
pub proof fn lemma_sndinfo_cmsg_carries_info(abi: Abi, info: SndInfo)
    ensures
        ({
            let b = cmsg_bytes(abi, IPPROTO_SCTP, SCTP_SNDINFO, sndinfo_bytes(abi.order, info));
            let h = cmsg_header_len(abi) as int;
            &&& cmsg_headers(abi, b) == seq![0int]
            &&& cmsg_len_at(abi, b, 0) == cmsg_header_len(abi) + SNDINFO_LEN
            &&& cmsg_level_at(abi, b, 0) == IPPROTO_SCTP
            &&& cmsg_type_at(abi, b, 0) == SCTP_SNDINFO
            &&& u16_at(abi.order, b, h) == info.snd_sid
            &&& u16_at(abi.order, b, h + 2) == info.snd_flags
            &&& u32_at(abi.order, b, h + 4) == info.snd_ppid
            &&& u32_at(abi.order, b, h + 8) == info.snd_context
            &&& i32_at(abi.order, b, h + 12) == info.snd_assoc_id
        }),
{
    let d = sndinfo_bytes(abi.order, info);
    lemma_sndinfo_layout(abi.order, info);
    lemma_pow256_values();
    lemma_cmsg_roundtrip(abi, IPPROTO_SCTP, SCTP_SNDINFO, d);
    let b = cmsg_bytes(abi, IPPROTO_SCTP, SCTP_SNDINFO, d);
    let h = cmsg_header_len(abi) as int;
    lemma_read_inside_data(b, d, h, 0, 2);
    lemma_read_inside_data(b, d, h, 2, 2);
    lemma_read_inside_data(b, d, h, 4, 4);
    lemma_read_inside_data(b, d, h, 8, 4);
    lemma_read_inside_data(b, d, h, 12, 4);
}

/// What a receive finds in a framed SCTP_SNDRCV message is the
/// `sctp_sndrcvinfo` at the start of the message's data.
pub proof fn lemma_framed_sndrcv_is_found(abi: Abi, data: Seq<u8>)
    requires
        data.len() >= SNDRCVINFO_LEN,
        cmsg_header_len(abi) + data.len() < pow256(word_len(abi.word)),
    ensures
        sndrcv_of(
            abi,
            cmsg_bytes(abi, IPPROTO_SCTP, SCTP_SNDRCV, data),
            cmsg_bytes(abi, IPPROTO_SCTP, SCTP_SNDRCV, data).len() as int,
        ) == Some(
            sndrcvinfo_at(abi.order, data, 0),
        ),
{
    lemma_cmsg_roundtrip(abi, IPPROTO_SCTP, SCTP_SNDRCV, data);
    let b = cmsg_bytes(abi, IPPROTO_SCTP, SCTP_SNDRCV, data);
    let h = cmsg_header_len(abi) as int;
    assert(b.subrange(0, b.len() as int) =~= b);
    let ps = cmsg_headers(abi, b);
    assert(ps.last() == 0);
    assert(is_sndrcv_at(abi, b, 0));
    lemma_read_inside_data(b, data, h, 0, 2);
    lemma_read_inside_data(b, data, h, 2, 2);
    lemma_read_inside_data(b, data, h, 4, 2);
    lemma_read_inside_data(b, data, h, 8, 4);
    lemma_read_inside_data(b, data, h, 12, 4);
    lemma_read_inside_data(b, data, h, 16, 4);
    lemma_read_inside_data(b, data, h, 20, 4);
    lemma_read_inside_data(b, data, h, 24, 4);
    lemma_read_inside_data(b, data, h, 28, 4);
    assert(sndrcvinfo_at(abi.order, b, h) == sndrcvinfo_at(abi.order, data, 0));
}

} // verus!
