//! Fixed-width integers as the kernel lays them out in memory.
use vstd::prelude::*;

verus! {

/// Byte order of the machine whose kernel structures are encoded or decoded.
#[derive(Clone, Copy, Debug, PartialEq, Eq)]
pub enum ByteOrder {
    Little,
    Big,
}

/// `256` raised to the power `n`.
pub open spec fn pow256(n: nat) -> nat
    decreases n,
{
    if n == 0 {
        1
    } else {
        256 * pow256((n - 1) as nat)
    }
}

/// The `n` lowest-order bytes of `x`, least significant first.
pub open spec fn le_bytes(x: nat, n: nat) -> Seq<u8>
    decreases n,
{
    if n == 0 {
        Seq::empty()
    } else {
        seq![(x % 256) as u8] + le_bytes(x / 256, (n - 1) as nat)
    }
}

/// The `n` lowest-order bytes of `x`, most significant first.
pub open spec fn be_bytes(x: nat, n: nat) -> Seq<u8>
    decreases n,
{
    if n == 0 {
        Seq::empty()
    } else {
        be_bytes(x / 256, (n - 1) as nat).push((x % 256) as u8)
    }
}

/// The number whose bytes, least significant first, are `s`.
pub open spec fn le_value(s: Seq<u8>) -> nat
    decreases s.len(),
{
    if s.len() == 0 {
        0
    } else {
        s[0] as nat + 256 * le_value(s.drop_first())
    }
}

/// The number whose bytes, most significant first, are `s`.
pub open spec fn be_value(s: Seq<u8>) -> nat
    decreases s.len(),
{
    if s.len() == 0 {
        0
    } else {
        256 * be_value(s.drop_last()) + s.last() as nat
    }
}

/// The `n` lowest-order bytes of `x` in the byte order `order`.
pub open spec fn uint_bytes(order: ByteOrder, x: nat, n: nat) -> Seq<u8> {
    match order {
        ByteOrder::Little => le_bytes(x, n),
        ByteOrder::Big => be_bytes(x, n),
    }
}

/// The unsigned number that the bytes `s` stand for in the byte order `order`.
pub open spec fn uint_value(order: ByteOrder, s: Seq<u8>) -> nat {
    match order {
        ByteOrder::Little => le_value(s),
        ByteOrder::Big => be_value(s),
    }
}

/// The two's complement bit pattern of `x`.
pub open spec fn i32_as_u32(x: i32) -> u32 {
    if x >= 0 {
        x as u32
    } else {
        (x + 0x1_0000_0000) as u32
    }
}

/// The signed number whose two's complement bit pattern is `x`.
pub open spec fn u32_as_i32(x: u32) -> i32 {
    if x < 0x8000_0000 {
        x as i32
    } else {
        (x - 0x1_0000_0000) as i32
    }
}

pub open spec fn u16_bytes(order: ByteOrder, x: u16) -> Seq<u8> {
    uint_bytes(order, x as nat, 2)
}

pub open spec fn u32_bytes(order: ByteOrder, x: u32) -> Seq<u8> {
    uint_bytes(order, x as nat, 4)
}

pub open spec fn i32_bytes(order: ByteOrder, x: i32) -> Seq<u8> {
    u32_bytes(order, i32_as_u32(x))
}

/// The `u16` stored at offset `i` of `s`.
pub open spec fn u16_at(order: ByteOrder, s: Seq<u8>, i: int) -> u16 {
    uint_value(order, s.subrange(i, i + 2)) as u16
}

/// The `u32` stored at offset `i` of `s`.
pub open spec fn u32_at(order: ByteOrder, s: Seq<u8>, i: int) -> u32 {
    uint_value(order, s.subrange(i, i + 4)) as u32
}

/// The `i32` stored at offset `i` of `s`.
pub open spec fn i32_at(order: ByteOrder, s: Seq<u8>, i: int) -> i32 {
    u32_as_i32(u32_at(order, s, i))
}

pub proof fn lemma_pow256_values()
    ensures
        pow256(0) == 1,
        pow256(1) == 256,
        pow256(2) == 0x1_0000,
        pow256(4) == 0x1_0000_0000,
        pow256(7) == 0x100_0000_0000_0000,
        pow256(8) == 0x1_0000_0000_0000_0000,
{
    reveal_with_fuel(pow256, 9);
}

pub proof fn lemma_pow256_monotonic(a: nat, b: nat)
    requires
        a <= b,
    ensures
        pow256(a) <= pow256(b),
    decreases b,
{
    if a < b {
        lemma_pow256_monotonic(a, (b - 1) as nat);
    }
}

pub proof fn lemma_uint_bytes_len(order: ByteOrder, x: nat, n: nat)
    ensures
        uint_bytes(order, x, n).len() == n,
    decreases n,
{
    if n > 0 {
        lemma_uint_bytes_len(order, x / 256, (n - 1) as nat);
    }
}

pub proof fn lemma_uint_value_bound(order: ByteOrder, s: Seq<u8>)
    ensures
        uint_value(order, s) < pow256(s.len()),
    decreases s.len(),
{
    if s.len() > 0 {
        match order {
            ByteOrder::Little => {
                lemma_uint_value_bound(order, s.drop_first());
                let v = le_value(s.drop_first());
                let p = pow256((s.len() - 1) as nat);
                assert((s[0] as nat) + 256 * v < 256 * p) by (nonlinear_arith)
                    requires
                        v < p,
                        s[0] < 256,
                ;
            },
            ByteOrder::Big => {
                lemma_uint_value_bound(order, s.drop_last());
                let v = be_value(s.drop_last());
                let p = pow256((s.len() - 1) as nat);
                assert(256 * v + (s.last() as nat) < 256 * p) by (nonlinear_arith)
                    requires
                        v < p,
                        s.last() < 256,
                ;
            },
        }
    }
}

/// Reading back the bytes of a number that fits in them gives the number.
pub proof fn lemma_uint_value_of_bytes(order: ByteOrder, x: nat, n: nat)
    requires
        x < pow256(n),
    ensures
        uint_value(order, uint_bytes(order, x, n)) == x,
    decreases n,
{
    if n > 0 {
        let p = pow256((n - 1) as nat);
        assert(x / 256 < p) by (nonlinear_arith)
            requires
                x < 256 * p,
        ;
        lemma_uint_value_of_bytes(order, x / 256, (n - 1) as nat);
        match order {
            ByteOrder::Little => {
                let t = le_bytes(x, n);
                assert(t.drop_first() =~= le_bytes(x / 256, (n - 1) as nat));
            },
            ByteOrder::Big => {
                let t = be_bytes(x, n);
                assert(t.drop_last() =~= be_bytes(x / 256, (n - 1) as nat));
            },
        }
    }
}

/// Writing out the number that bytes stand for gives back the bytes.
pub proof fn lemma_uint_bytes_of_value(order: ByteOrder, s: Seq<u8>)
    ensures
        uint_bytes(order, uint_value(order, s), s.len()) == s,
    decreases s.len(),
{
    if s.len() > 0 {
        match order {
            ByteOrder::Little => {
                let t = s.drop_first();
                lemma_uint_bytes_of_value(order, t);
                let v = le_value(s);
                let w = le_value(t);
                assert(v % 256 == s[0] as nat && v / 256 == w) by (nonlinear_arith)
                    requires
                        v == s[0] as nat + 256 * w,
                        s[0] < 256,
                ;
                assert(le_bytes(v, s.len()) =~= s);
            },
            ByteOrder::Big => {
                let t = s.drop_last();
                lemma_uint_bytes_of_value(order, t);
                let v = be_value(s);
                let w = be_value(t);
                assert(v % 256 == s.last() as nat && v / 256 == w) by (nonlinear_arith)
                    requires
                        v == 256 * w + s.last() as nat,
                        s.last() < 256,
                ;
                assert(be_bytes(v, s.len()) =~= s);
            },
        }
    }
}

proof fn lemma_i32_u32_roundtrip(x: i32)
    ensures
        u32_as_i32(i32_as_u32(x)) == x,
{
}

fn push_le(out: &mut Vec<u8>, x: u64, n: usize)
    ensures
        final(out)@ == old(out)@ + le_bytes(x as nat, n as nat),
    decreases n,
{
    if n > 0 {
        out.push((x % 256) as u8);
        push_le(out, x / 256, n - 1);
        assert(le_bytes(x as nat, n as nat) =~= seq![(x % 256) as u8] + le_bytes(
            (x / 256) as nat,
            (n - 1) as nat,
        ));
        assert(final(out)@ =~= old(out)@ + le_bytes(x as nat, n as nat));
    } else {
        assert(final(out)@ =~= old(out)@ + le_bytes(x as nat, n as nat));
    }
}

fn push_be(out: &mut Vec<u8>, x: u64, n: usize)
    ensures
        final(out)@ == old(out)@ + be_bytes(x as nat, n as nat),
    decreases n,
{
    if n > 0 {
        push_be(out, x / 256, n - 1);
        out.push((x % 256) as u8);
        assert(final(out)@ =~= old(out)@ + be_bytes(x as nat, n as nat));
    } else {
        assert(final(out)@ =~= old(out)@ + be_bytes(x as nat, n as nat));
    }
}

/// Appends the `n` lowest-order bytes of `x` in the byte order `order`.
pub fn push_uint(order: ByteOrder, out: &mut Vec<u8>, x: u64, n: usize)
    ensures
        final(out)@ == old(out)@ + uint_bytes(order, x as nat, n as nat),
{
    match order {
        ByteOrder::Little => push_le(out, x, n),
        ByteOrder::Big => push_be(out, x, n),
    }
}

fn read_le(s: &[u8], off: usize, n: usize) -> (r: u64)
    requires
        n <= 8,
        off + n <= s@.len(),
    ensures
        r == le_value(s@.subrange(off as int, off + n)),
    decreases n,
{
    if n == 0 {
        0
    } else {
        let _len: usize = s.len();  // the slice's length fits in a usize
        let rest: u64 = read_le(s, off + 1, n - 1);
        proof {
            let t = s@.subrange(off as int, off + n);
            assert(t.drop_first() =~= s@.subrange(off + 1, off + n));
            lemma_uint_value_bound(ByteOrder::Little, s@.subrange(off + 1, off + n));
            lemma_pow256_monotonic((n - 1) as nat, 7);
            lemma_pow256_values();
        }
        s[off] as u64 + 256 * rest
    }
}

fn read_be(s: &[u8], off: usize, n: usize) -> (r: u64)
    requires
        n <= 8,
        off + n <= s@.len(),
    ensures
        r == be_value(s@.subrange(off as int, off + n)),
    decreases n,
{
    if n == 0 {
        0
    } else {
        let _len: usize = s.len();  // the slice's length fits in a usize
        let front: u64 = read_be(s, off, n - 1);
        proof {
            let t = s@.subrange(off as int, off + n);
            assert(t.drop_last() =~= s@.subrange(off as int, off + n - 1));
            lemma_uint_value_bound(ByteOrder::Big, s@.subrange(off as int, off + n - 1));
            lemma_pow256_monotonic((n - 1) as nat, 7);
            lemma_pow256_values();
        }
        256 * front + s[off + n - 1] as u64
    }
}

/// Reads the unsigned number stored in `n` bytes at offset `off` of `s`.
pub fn read_uint(order: ByteOrder, s: &[u8], off: usize, n: usize) -> (r: u64)
    requires
        n <= 8,
        off + n <= s@.len(),
    ensures
        r == uint_value(order, s@.subrange(off as int, off + n)),
        r < pow256(n as nat),
{
    proof {
        lemma_uint_value_bound(order, s@.subrange(off as int, off + n));
    }
    match order {
        ByteOrder::Little => read_le(s, off, n),
        ByteOrder::Big => read_be(s, off, n),
    }
}

pub fn put_u8(out: &mut Vec<u8>, x: u8)
    ensures
        final(out)@ == old(out)@.push(x),
{
    out.push(x);
}

pub fn put_u16(order: ByteOrder, out: &mut Vec<u8>, x: u16)
    ensures
        final(out)@ == old(out)@ + u16_bytes(order, x),
{
    push_uint(order, out, x as u64, 2);
}

pub fn put_u32(order: ByteOrder, out: &mut Vec<u8>, x: u32)
    ensures
        final(out)@ == old(out)@ + u32_bytes(order, x),
{
    push_uint(order, out, x as u64, 4);
}

pub fn put_i32(order: ByteOrder, out: &mut Vec<u8>, x: i32)
    ensures
        final(out)@ == old(out)@ + i32_bytes(order, x),
{
    let bits: u32 = if x >= 0 {
        x as u32
    } else {
        ((x as i64) + 0x1_0000_0000) as u32
    };
    push_uint(order, out, bits as u64, 4);
}

pub fn get_u16(order: ByteOrder, s: &[u8], off: usize) -> (r: u16)
    requires
        off + 2 <= s@.len(),
    ensures
        r == u16_at(order, s@, off as int),
{
    let v: u64 = read_uint(order, s, off, 2);
    proof {
        lemma_pow256_values();
    }
    v as u16
}

pub fn get_u32(order: ByteOrder, s: &[u8], off: usize) -> (r: u32)
    requires
        off + 4 <= s@.len(),
    ensures
        r == u32_at(order, s@, off as int),
{
    let v: u64 = read_uint(order, s, off, 4);
    proof {
        lemma_pow256_values();
    }
    v as u32
}

pub fn get_i32(order: ByteOrder, s: &[u8], off: usize) -> (r: i32)
    requires
        off + 4 <= s@.len(),
    ensures
        r == i32_at(order, s@, off as int),
{
    let v: u32 = get_u32(order, s, off);
    if v < 0x8000_0000 {
        v as i32
    } else {
        ((v as i64) - 0x1_0000_0000) as i32
    }
}

/// Writing a `u16` and reading it back at the same place gives the `u16`.
pub proof fn lemma_u16_roundtrip(order: ByteOrder, x: u16)
    ensures
        u16_at(order, u16_bytes(order, x), 0) == x,
        u16_bytes(order, x).len() == 2,
{
    lemma_pow256_values();
    lemma_uint_bytes_len(order, x as nat, 2);
    lemma_uint_value_of_bytes(order, x as nat, 2);
    assert(u16_bytes(order, x).subrange(0, 2) =~= u16_bytes(order, x));
}

/// Writing a `u32` and reading it back at the same place gives the `u32`.
pub proof fn lemma_u32_roundtrip(order: ByteOrder, x: u32)
    ensures
        u32_at(order, u32_bytes(order, x), 0) == x,
        u32_bytes(order, x).len() == 4,
{
    lemma_pow256_values();
    lemma_uint_bytes_len(order, x as nat, 4);
    lemma_uint_value_of_bytes(order, x as nat, 4);
    assert(u32_bytes(order, x).subrange(0, 4) =~= u32_bytes(order, x));
}

/// Writing an `i32` and reading it back at the same place gives the `i32`.
pub proof fn lemma_i32_roundtrip(order: ByteOrder, x: i32)
    ensures
        i32_at(order, i32_bytes(order, x), 0) == x,
        i32_bytes(order, x).len() == 4,
{
    lemma_u32_roundtrip(order, i32_as_u32(x));
    lemma_i32_u32_roundtrip(x);
}

} // verus!

verus! {

/// A field written between other bytes is read back from its offset.
pub proof fn lemma_middle_of_concat(pre: Seq<u8>, mid: Seq<u8>, post: Seq<u8>)
    ensures
        (pre + mid + post).subrange(pre.len() as int, (pre.len() + mid.len()) as int) == mid,
{
    assert((pre + mid + post).subrange(pre.len() as int, (pre.len() + mid.len()) as int) =~= mid);
}

} // verus!

verus! {

/// Zero is written as zero bytes, in either byte order.
pub proof fn lemma_zero_bytes(order: ByteOrder, n: nat)
    ensures
        uint_bytes(order, 0, n) == Seq::new(n, |i: int| 0u8),
    decreases n,
{
    if n > 0 {
        lemma_zero_bytes(order, (n - 1) as nat);
        match order {
            ByteOrder::Little => {
                assert(le_bytes(0, n) =~= Seq::new(n, |i: int| 0u8));
            },
            ByteOrder::Big => {
                assert(be_bytes(0, n) =~= Seq::new(n, |i: int| 0u8));
            },
        }
    } else {
        assert(uint_bytes(order, 0, n) =~= Seq::new(n, |i: int| 0u8));
    }
}

/// Four fields written one after the other are each read back from their offset.
pub proof fn lemma_four_fields(a: Seq<u8>, b: Seq<u8>, c: Seq<u8>, d: Seq<u8>)
    ensures
        (a + b + c + d).subrange(0, a.len() as int) == a,
        (a + b + c + d).subrange(a.len() as int, (a.len() + b.len()) as int) == b,
        (a + b + c + d).subrange((a.len() + b.len()) as int, (a.len() + b.len() + c.len()) as int)
            == c,
        (a + b + c + d).subrange(
            (a.len() + b.len() + c.len()) as int,
            (a.len() + b.len() + c.len() + d.len()) as int,
        ) == d,
{
    let s = a + b + c + d;
    assert(s.subrange(0, a.len() as int) =~= a);
    assert(s.subrange(a.len() as int, (a.len() + b.len()) as int) =~= b);
    assert(s.subrange((a.len() + b.len()) as int, (a.len() + b.len() + c.len()) as int) =~= c);
    assert(s.subrange(
        (a.len() + b.len() + c.len()) as int,
        (a.len() + b.len() + c.len() + d.len()) as int,
    ) =~= d);
}

} // verus!
