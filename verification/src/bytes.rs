//! Big-endian integers as bytes, the network byte order every header here uses.

use vstd::prelude::*;

verus! {

/// The integer two bytes spell most significant first.
pub open spec fn be16(hi: u8, lo: u8) -> u16 {
    (hi as int * 256 + lo as int) as u16
}

/// The integer four bytes spell most significant first.
pub open spec fn be32(b0: u8, b1: u8, b2: u8, b3: u8) -> u32 {
    (b0 as int * 16777216 + b1 as int * 65536 + b2 as int * 256 + b3 as int) as u32
}

pub open spec fn be16_bytes(x: u16) -> Seq<u8> {
    seq![(x / 256) as u8, (x % 256) as u8]
}

pub open spec fn be32_bytes(x: u32) -> Seq<u8> {
    seq![
        (x / 16777216) as u8,
        ((x / 65536) % 256) as u8,
        ((x / 256) % 256) as u8,
        (x % 256) as u8,
    ]
}

pub open spec fn be64_bytes(x: u64) -> Seq<u8> {
    be32_bytes((x / 4294967296) as u32) + be32_bytes((x % 4294967296) as u32)
}

/// Reading back what was written gives the integer that was written.
pub proof fn lemma_be16_round_trip(x: u16)
    ensures
        be16(be16_bytes(x)[0], be16_bytes(x)[1]) == x,
{
}

pub proof fn lemma_be32_round_trip(x: u32)
    ensures
        be32(be32_bytes(x)[0], be32_bytes(x)[1], be32_bytes(x)[2], be32_bytes(x)[3]) == x,
{
}

/// Different integers never share a big-endian encoding.
pub proof fn lemma_be64_injective(x: u64, y: u64)
    requires
        be64_bytes(x) == be64_bytes(y),
    ensures
        x == y,
{
    let hx = (x / 4294967296) as u32;
    let lx = (x % 4294967296) as u32;
    let hy = (y / 4294967296) as u32;
    let ly = (y % 4294967296) as u32;
    assert(be64_bytes(x).subrange(0, 4) =~= be32_bytes(hx));
    assert(be64_bytes(y).subrange(0, 4) =~= be32_bytes(hy));
    assert(be64_bytes(x).subrange(4, 8) =~= be32_bytes(lx));
    assert(be64_bytes(y).subrange(4, 8) =~= be32_bytes(ly));
    lemma_be32_round_trip(hx);
    lemma_be32_round_trip(lx);
    lemma_be32_round_trip(hy);
    lemma_be32_round_trip(ly);
    assert(hx == hy);
    assert(lx == ly);
    assert(x == hx * 4294967296 + lx);
    assert(y == hy * 4294967296 + ly);
}

pub fn read_be16(s: &[u8], at: usize) -> (x: u16)
    requires
        at + 2 <= s@.len(),
    ensures
        x == be16(s@[at as int], s@[at + 1]),
{
    (s[at] as u16) * 256 + (s[at + 1] as u16)
}

pub fn read_be32(s: &[u8], at: usize) -> (x: u32)
    requires
        at + 4 <= s@.len(),
    ensures
        x == be32(s@[at as int], s@[at + 1], s@[at + 2], s@[at + 3]),
{
    (s[at] as u32) * 16777216 + (s[at + 1] as u32) * 65536 + (s[at + 2] as u32) * 256 + (
    s[at + 3] as u32)
}

pub fn push_be16(out: &mut Vec<u8>, x: u16)
    ensures
        final(out)@ == old(out)@ + be16_bytes(x),
{
    out.push((x / 256) as u8);
    out.push((x % 256) as u8);
}

pub fn push_be32(out: &mut Vec<u8>, x: u32)
    ensures
        final(out)@ == old(out)@ + be32_bytes(x),
{
    out.push((x / 16777216) as u8);
    out.push(((x / 65536) % 256) as u8);
    out.push(((x / 256) % 256) as u8);
    out.push((x % 256) as u8);
}

pub fn push_be64(out: &mut Vec<u8>, x: u64)
    ensures
        final(out)@ == old(out)@ + be64_bytes(x),
{
    let ghost start = out@;
    push_be32(out, (x / 4294967296) as u32);
    push_be32(out, (x % 4294967296) as u32);
    assert(out@ == start + be64_bytes(x));
}

/// Appends a slice, element by element.
pub fn extend_from(out: &mut Vec<u8>, s: &[u8])
    ensures
        final(out)@ == old(out)@ + s@,
{
    let ghost start = out@;
    let mut i: usize = 0;
    while i < s.len()
        invariant
            i <= s@.len(),
            out@ == start + s@.subrange(0, i as int),
        decreases s@.len() - i,
    {
        out.push(s[i]);
        i += 1;
        assert(s@.subrange(0, i as int) == s@.subrange(0, i - 1) + seq![s@[i - 1]]);
    }
    assert(s@.subrange(0, s@.len() as int) == s@);
}

/// A copy of a slice.
pub fn to_vec(s: &[u8]) -> (v: Vec<u8>)
    ensures
        v@ == s@,
{
    let mut v = Vec::new();
    extend_from(&mut v, s);
    v
}

} // verus!
