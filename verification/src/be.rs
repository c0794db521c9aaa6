//! Big-endian encodings of 32- and 64-bit unsigned integers.

use vstd::prelude::*;

verus! {

/// The four bytes of `x`, most significant first.
pub open spec fn be32(x: u32) -> Seq<u8> {
    seq![(x >> 24u32) as u8, (x >> 16u32) as u8, (x >> 8u32) as u8, x as u8]
}

/// The eight bytes of `x`, most significant first.
pub open spec fn be64(x: u64) -> Seq<u8> {
    seq![
        (x >> 56u64) as u8, (x >> 48u64) as u8, (x >> 40u64) as u8, (x >> 32u64) as u8,
        (x >> 24u64) as u8, (x >> 16u64) as u8, (x >> 8u64) as u8, x as u8,
    ]
}

/// The value of four bytes read most significant first.
pub open spec fn from_be32(b0: u8, b1: u8, b2: u8, b3: u8) -> u32 {
    ((b0 as u32) << 24u32) | ((b1 as u32) << 16u32) | ((b2 as u32) << 8u32) | (b3 as u32)
}

/// The value of the four bytes of `s` from index `at`, most significant first.
pub open spec fn be32_at(s: Seq<u8>, at: int) -> u32 {
    from_be32(s[at], s[at + 1], s[at + 2], s[at + 3])
}

/// The value of the eight bytes of `s` from index `at`, most significant first.
pub open spec fn be64_at(s: Seq<u8>, at: int) -> u64 {
    ((be32_at(s, at) as u64) << 32u64) | (be32_at(s, at + 4) as u64)
}

/// Reading back what `be32` wrote gives the value again.
pub proof fn lemma_be32_roundtrip(x: u32)
    ensures
        be32_at(be32(x), 0) == x,
{
    let b0 = (x >> 24u32) as u8;
    let b1 = (x >> 16u32) as u8;
    let b2 = (x >> 8u32) as u8;
    let b3 = x as u8;
    assert(from_be32(b0, b1, b2, b3) == x) by (bit_vector)
        requires
            b0 == (x >> 24u32) as u8,
            b1 == (x >> 16u32) as u8,
            b2 == (x >> 8u32) as u8,
            b3 == x as u8,
    ;
}

/// Reading back what `be64` wrote gives the value again.
pub proof fn lemma_be64_roundtrip(x: u64)
    ensures
        be64_at(be64(x), 0) == x,
{
    let s = be64(x);
    let hi = from_be32(s[0], s[1], s[2], s[3]);
    let lo = from_be32(s[4], s[5], s[6], s[7]);
    assert(hi == (x >> 32u64) as u32) by (bit_vector)
        requires
            hi == from_be32(
                (x >> 56u64) as u8,
                (x >> 48u64) as u8,
                (x >> 40u64) as u8,
                (x >> 32u64) as u8,
            ),
    ;
    assert(lo == x as u32) by (bit_vector)
        requires
            lo == from_be32((x >> 24u64) as u8, (x >> 16u64) as u8, (x >> 8u64) as u8, x as u8),
    ;
    assert(((hi as u64) << 32u64) | (lo as u64) == x) by (bit_vector)
        requires
            hi == (x >> 32u64) as u32,
            lo == x as u32,
    ;
}

/// Appends the big-endian bytes of `x` to `out`.
pub(crate) fn push_be32(out: &mut Vec<u8>, x: u32)
    ensures
        final(out)@ == old(out)@ + be32(x),
{
    out.push(#[verifier::truncate] ((x >> 24u32) as u8));
    out.push(#[verifier::truncate] ((x >> 16u32) as u8));
    out.push(#[verifier::truncate] ((x >> 8u32) as u8));
    out.push(#[verifier::truncate] (x as u8));
    assert(final(out)@ =~= old(out)@ + be32(x));
}

/// Writes the big-endian bytes of `x` into `out` from index `at`.
pub(crate) fn write_be32(out: &mut [u8], at: usize, x: u32)
    requires
        at + 4 <= old(out)@.len(),
    ensures
        final(out)@ == old(out)@.subrange(0, at as int) + be32(x) + old(out)@.subrange(
            at + 4,
            old(out)@.len() as int,
        ),
{
    let _len = out.len();
    out[at] = #[verifier::truncate] ((x >> 24u32) as u8);
    out[at + 1] = #[verifier::truncate] ((x >> 16u32) as u8);
    out[at + 2] = #[verifier::truncate] ((x >> 8u32) as u8);
    out[at + 3] = #[verifier::truncate] (x as u8);
    assert(final(out)@ =~= old(out)@.subrange(0, at as int) + be32(x) + old(out)@.subrange(
        at + 4,
        old(out)@.len() as int,
    ));
}

/// Writes the big-endian bytes of `x` into `out` from index `at`.
pub(crate) fn write_be64(out: &mut [u8], at: usize, x: u64)
    requires
        at + 8 <= old(out)@.len(),
    ensures
        final(out)@ == old(out)@.subrange(0, at as int) + be64(x) + old(out)@.subrange(
            at + 8,
            old(out)@.len() as int,
        ),
{
    let _len = out.len();
    out[at] = #[verifier::truncate] ((x >> 56u64) as u8);
    out[at + 1] = #[verifier::truncate] ((x >> 48u64) as u8);
    out[at + 2] = #[verifier::truncate] ((x >> 40u64) as u8);
    out[at + 3] = #[verifier::truncate] ((x >> 32u64) as u8);
    out[at + 4] = #[verifier::truncate] ((x >> 24u64) as u8);
    out[at + 5] = #[verifier::truncate] ((x >> 16u64) as u8);
    out[at + 6] = #[verifier::truncate] ((x >> 8u64) as u8);
    out[at + 7] = #[verifier::truncate] (x as u8);
    assert(final(out)@ =~= old(out)@.subrange(0, at as int) + be64(x) + old(out)@.subrange(
        at + 8,
        old(out)@.len() as int,
    ));
}

/// Reads the big-endian value of the four bytes of `buf` from index `at`.
pub(crate) fn read_be32(buf: &[u8], at: usize) -> (r: u32)
    requires
        at + 4 <= buf@.len(),
    ensures
        r == be32_at(buf@, at as int),
{
    ((buf[at] as u32) << 24u32) | ((buf[at + 1] as u32) << 16u32) | ((buf[at + 2] as u32) << 8u32)
        | (buf[at + 3] as u32)
}

/// Reads the big-endian value of the eight bytes of `buf` from index `at`.
pub(crate) fn read_be64(buf: &[u8], at: usize) -> (r: u64)
    requires
        at + 8 <= buf@.len(),
    ensures
        r == be64_at(buf@, at as int),
{
    let _len = buf.len();
    let hi = read_be32(buf, at);
    let lo = read_be32(buf, at + 4);
    ((hi as u64) << 32u64) | (lo as u64)
}

} // verus!
