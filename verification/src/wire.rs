//! Big-endian integer layouts used by the Slacker wire format.
//!
//! Every multi-byte integer on the wire is big-endian: the most significant
//! byte comes first. These spec functions define the byte layout once; the
//! codec is verified against them.

use vstd::prelude::*;

verus! {

/// The two big-endian bytes of a 16-bit value.
pub open spec fn spec_u16_be(x: u16) -> Seq<u8> {
    seq![((x >> 8) & 0xff) as u8, (x & 0xff) as u8]
}

/// The 16-bit value read from two big-endian bytes.
pub open spec fn spec_be_u16(b: Seq<u8>) -> u16
    recommends
        b.len() == 2,
{
    (((b[0] as u16) << 8) | (b[1] as u16)) as u16
}

/// The four big-endian bytes of a 32-bit value.
pub open spec fn spec_u32_be(x: u32) -> Seq<u8> {
    seq![
        ((x >> 24) & 0xff) as u8,
        ((x >> 16) & 0xff) as u8,
        ((x >> 8) & 0xff) as u8,
        (x & 0xff) as u8,
    ]
}

/// The 32-bit value read from four big-endian bytes.
pub open spec fn spec_be_u32(b: Seq<u8>) -> u32
    recommends
        b.len() == 4,
{
    (((b[0] as u32) << 24) | ((b[1] as u32) << 16) | ((b[2] as u32) << 8) | (b[3] as u32)) as u32
}

/// Serial ids are signed 32-bit integers carried as their two's-complement
/// big-endian bytes.
pub open spec fn spec_i32_be(x: i32) -> Seq<u8> {
    spec_u32_be(x as u32)
}

/// The signed 32-bit value read from four big-endian bytes.
pub open spec fn spec_be_i32(b: Seq<u8>) -> i32
    recommends
        b.len() == 4,
{
    spec_be_u32(b) as i32
}

pub proof fn lemma_u16_be_round_trip(x: u16)
    ensures
        spec_u16_be(x).len() == 2,
        spec_be_u16(spec_u16_be(x)) == x,
{
    let hi = ((x >> 8) & 0xff) as u8;
    let lo = (x & 0xff) as u8;
    assert((((hi as u16) << 8) | (lo as u16)) as u16 == x
        && hi == ((x >> 8) & 0xff) as u8 && lo == (x & 0xff) as u8) by (bit_vector)
        requires
            hi == ((x >> 8) & 0xff) as u8,
            lo == (x & 0xff) as u8,
    ;
}

pub proof fn lemma_u32_be_round_trip(x: u32)
    ensures
        spec_u32_be(x).len() == 4,
        spec_be_u32(spec_u32_be(x)) == x,
{
    let b0 = ((x >> 24) & 0xff) as u8;
    let b1 = ((x >> 16) & 0xff) as u8;
    let b2 = ((x >> 8) & 0xff) as u8;
    let b3 = (x & 0xff) as u8;
    assert((((b0 as u32) << 24) | ((b1 as u32) << 16) | ((b2 as u32) << 8) | (b3 as u32)) as u32
        == x) by (bit_vector)
        requires
            b0 == ((x >> 24) & 0xff) as u8,
            b1 == ((x >> 16) & 0xff) as u8,
            b2 == ((x >> 8) & 0xff) as u8,
            b3 == (x & 0xff) as u8,
    ;
}

pub proof fn lemma_i32_be_round_trip(x: i32)
    ensures
        spec_i32_be(x).len() == 4,
        spec_be_i32(spec_i32_be(x)) == x,
{
    lemma_u32_be_round_trip(x as u32);
    assert(((x as u32) as i32) == x) by (bit_vector);
}

/// Appends the two big-endian bytes of `x` to `out`.
pub fn push_u16_be(out: &mut Vec<u8>, x: u16)
    ensures
        final(out)@ == old(out)@ + spec_u16_be(x),
{
    out.push(((x >> 8) & 0xff) as u8);
    out.push((x & 0xff) as u8);
    proof {
        assert(out@ =~= old(out)@ + spec_u16_be(x));
    }
}

/// Appends the four big-endian bytes of `x` to `out`.
pub fn push_u32_be(out: &mut Vec<u8>, x: u32)
    ensures
        final(out)@ == old(out)@ + spec_u32_be(x),
{
    out.push(((x >> 24) & 0xff) as u8);
    out.push(((x >> 16) & 0xff) as u8);
    out.push(((x >> 8) & 0xff) as u8);
    out.push((x & 0xff) as u8);
    proof {
        assert(out@ =~= old(out)@ + spec_u32_be(x));
    }
}

/// Appends the four big-endian two's-complement bytes of `x` to `out`.
pub fn push_i32_be(out: &mut Vec<u8>, x: i32)
    ensures
        final(out)@ == old(out)@ + spec_i32_be(x),
{
    push_u32_be(out, x as u32);
}

/// Appends every byte of `src` to `out`.
pub fn push_all(out: &mut Vec<u8>, src: &[u8])
    ensures
        final(out)@ == old(out)@ + src@,
{
    let n = src.len();
    let mut i: usize = 0;
    proof {
        assert(out@ =~= old(out)@ + src@.subrange(0, 0));
    }
    while i < n
        invariant
            i <= n == src@.len(),
            out@ == old(out)@ + src@.subrange(0, i as int),
        decreases n - i,
    {
        out.push(src[i]);
        i = i + 1;
        proof {
            assert(out@ =~= old(out)@ + src@.subrange(0, i as int));
        }
    }
    proof {
        assert(out@ =~= old(out)@ + src@);
    }
}

/// Reads the big-endian 16-bit value at offset `at` of `buf`.
pub fn read_u16_be(buf: &[u8], at: usize) -> (x: u16)
    requires
        at + 2 <= buf@.len(),
    ensures
        x == spec_be_u16(buf@.subrange(at as int, at as int + 2)),
{
    let ghost b = buf@.subrange(at as int, at as int + 2);
    let x = ((buf[at] as u16) << 8) | (buf[at + 1] as u16);
    proof {
        assert(b[0] == buf@[at as int] && b[1] == buf@[at as int + 1]);
    }
    x
}

/// Reads the big-endian 32-bit value at offset `at` of `buf`.
pub fn read_u32_be(buf: &[u8], at: usize) -> (x: u32)
    requires
        at + 4 <= buf@.len(),
    ensures
        x == spec_be_u32(buf@.subrange(at as int, at as int + 4)),
{
    let ghost b = buf@.subrange(at as int, at as int + 4);
    let x = ((buf[at] as u32) << 24) | ((buf[at + 1] as u32) << 16) | ((buf[at + 2] as u32) << 8)
        | (buf[at + 3] as u32);
    proof {
        assert(b[0] == buf@[at as int] && b[1] == buf@[at as int + 1]
            && b[2] == buf@[at as int + 2] && b[3] == buf@[at as int + 3]);
    }
    x
}

/// Reads the big-endian signed 32-bit value at offset `at` of `buf`.
pub fn read_i32_be(buf: &[u8], at: usize) -> (x: i32)
    requires
        at + 4 <= buf@.len(),
    ensures
        x == spec_be_i32(buf@.subrange(at as int, at as int + 4)),
{
    read_u32_be(buf, at) as i32
}

} // verus!
