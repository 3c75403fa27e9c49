use vstd::prelude::*;

verus! {

/// The four big-endian bytes of `x`.
pub open spec fn u32_be(x: u32) -> Seq<u8> {
    seq![(x >> 24u32) as u8, (x >> 16u32) as u8, (x >> 8u32) as u8, x as u8]
}

/// The number whose big-endian bytes are the first four of `s`.
pub open spec fn be_u32(s: Seq<u8>) -> u32
    recommends
        s.len() >= 4,
{
    ((s[0] as u32) << 24u32) | ((s[1] as u32) << 16u32) | ((s[2] as u32) << 8u32) | (s[3] as u32)
}

/// Reading back the bytes of a number gives the number.
pub proof fn lemma_be_round_trip(x: u32)
    ensures
        be_u32(u32_be(x)) == x,
        u32_be(x).len() == 4,
{
    let s = u32_be(x);
    assert(s[0] == (x >> 24u32) as u8);
    assert(s[3] == x as u8);
    assert(((((x >> 24u32) as u8) as u32) << 24u32) | ((((x >> 16u32) as u8) as u32) << 16u32)
        | ((((x >> 8u32) as u8) as u32) << 8u32) | ((x as u8) as u32) == x) by (bit_vector);
}

/// Four bytes read as a number and written back are the same four bytes.
pub proof fn lemma_be_injective(s: Seq<u8>)
    requires
        s.len() == 4,
    ensures
        u32_be(be_u32(s)) =~= s,
{
    let (a, b, c, d) = (s[0], s[1], s[2], s[3]);
    let x = be_u32(s);
    assert((x >> 24u32) as u8 == a && (x >> 16u32) as u8 == b && (x >> 8u32) as u8 == c && x as u8
        == d) by (bit_vector)
        requires
            x == ((a as u32) << 24u32) | ((b as u32) << 16u32) | ((c as u32) << 8u32) | (d as u32),
    ;
}

/// Appends the big-endian bytes of `x`.
pub fn push_u32_be(out: &mut Vec<u8>, x: u32)
    ensures
        final(out)@ == old(out)@ + u32_be(x),
{
    out.push((x >> 24u32) as u8);
    out.push((x >> 16u32) as u8);
    out.push((x >> 8u32) as u8);
    out.push(x as u8);
    proof {
        assert(out@ =~= old(out)@ + u32_be(x));
    }
}

/// The number held big-endian in `buf[at..at + 4]`.
pub fn read_u32_be(buf: &[u8], at: usize) -> (r: u32)
    requires
        at + 4 <= buf@.len(),
    ensures
        r == be_u32(buf@.subrange(at as int, at + 4)),
{
    ((buf[at] as u32) << 24u32) | ((buf[at + 1] as u32) << 16u32) | ((buf[at + 2] as u32) << 8u32)
        | (buf[at + 3] as u32)
}

/// Appends `buf[start..end]`.
pub fn push_range(out: &mut Vec<u8>, buf: &[u8], start: usize, end: usize)
    requires
        start <= end <= buf@.len(),
    ensures
        final(out)@ == old(out)@ + buf@.subrange(start as int, end as int),
{
    let mut i: usize = start;
    while i < end
        invariant
            start <= i <= end <= buf@.len(),
            out@ == old(out)@ + buf@.subrange(start as int, i as int),
        decreases end - i,
    {
        out.push(buf[i]);
        proof {
            assert(buf@.subrange(start as int, i + 1) =~= buf@.subrange(start as int, i as int).push(
                buf@[i as int],
            ));
        }
        i = i + 1;
    }
}

/// A copy of `buf[start..end]`.
pub fn copy_range(buf: &[u8], start: usize, end: usize) -> (r: Vec<u8>)
    requires
        start <= end <= buf@.len(),
    ensures
        r@ == buf@.subrange(start as int, end as int),
{
    let mut out: Vec<u8> = Vec::new();
    push_range(&mut out, buf, start, end);
    proof {
        assert(out@ =~= buf@.subrange(start as int, end as int));
    }
    out
}

} // verus!
