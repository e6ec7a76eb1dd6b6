//! Fixed-size byte-array helpers: little-endian integers, array slices,
//! equality and zero tests.

use vstd::prelude::*;

verus! {

broadcast use vstd::array::group_array_axioms;

/// Little-endian bytes of a `u64`.
pub open spec fn u64_le(x: u64) -> Seq<u8> {
    seq![
        x as u8,
        (x >> 8u64) as u8,
        (x >> 16u64) as u8,
        (x >> 24u64) as u8,
        (x >> 32u64) as u8,
        (x >> 40u64) as u8,
        (x >> 48u64) as u8,
        (x >> 56u64) as u8,
    ]
}

/// Little-endian bytes of a `u16`.
pub open spec fn u16_le(x: u16) -> Seq<u8> {
    seq![x as u8, (x >> 8u16) as u8]
}

/// Little-endian bytes of a `u32`.
pub open spec fn u32_le(x: u32) -> Seq<u8> {
    seq![x as u8, (x >> 8u32) as u8, (x >> 16u32) as u8, (x >> 24u32) as u8]
}

/// Append the little-endian bytes of `x` to `buffer`.
pub fn push_u16_le(buffer: &mut Vec<u8>, x: u16)
    ensures
        final(buffer)@ == old(buffer)@ + u16_le(x),
{
    buffer.push(x as u8);
    buffer.push((x >> 8u16) as u8);
    assert(buffer@ =~= old(buffer)@ + u16_le(x));
}

/// Append the little-endian bytes of `x` to `buffer`.
pub fn push_u32_le(buffer: &mut Vec<u8>, x: u32)
    ensures
        final(buffer)@ == old(buffer)@ + u32_le(x),
{
    buffer.push(x as u8);
    buffer.push((x >> 8u32) as u8);
    buffer.push((x >> 16u32) as u8);
    buffer.push((x >> 24u32) as u8);
    assert(buffer@ =~= old(buffer)@ + u32_le(x));
}

/// The `u16` stored little-endian at `offset` of `bytes`.
pub open spec fn read_u16_le(bytes: Seq<u8>, offset: int) -> u16 {
    (bytes[offset] as u16) | ((bytes[offset + 1] as u16) << 8u16)
}

/// A sequence of `n` zero bytes.
pub open spec fn zeros(n: nat) -> Seq<u8> {
    Seq::new(n, |i: int| 0u8)
}

/// Reading back the little-endian bytes of a `u16` gives the value.
pub proof fn lemma_u16_le_round_trip(x: u16)
    ensures
        read_u16_le(u16_le(x), 0) == x,
        u16_le(x).len() == 2,
{
    let b0 = x as u8;
    let b1 = (x >> 8u16) as u8;
    assert(((b0 as u16) | ((b1 as u16) << 8u16)) == x) by (bit_vector)
        requires
            b0 == x as u8,
            b1 == (x >> 8u16) as u8,
    ;
}

/// Two values with the same little-endian bytes are equal.
pub proof fn lemma_u64_le_injective(x: u64, y: u64)
    requires
        u64_le(x) == u64_le(y),
    ensures
        x == y,
{
    assert(u64_le(x)[0] == u64_le(y)[0]);
    assert(u64_le(x)[1] == u64_le(y)[1]);
    assert(u64_le(x)[2] == u64_le(y)[2]);
    assert(u64_le(x)[3] == u64_le(y)[3]);
    assert(u64_le(x)[4] == u64_le(y)[4]);
    assert(u64_le(x)[5] == u64_le(y)[5]);
    assert(u64_le(x)[6] == u64_le(y)[6]);
    assert(u64_le(x)[7] == u64_le(y)[7]);
    assert(x == y) by (bit_vector)
        requires
            x as u8 == y as u8,
            (x >> 8u64) as u8 == (y >> 8u64) as u8,
            (x >> 16u64) as u8 == (y >> 16u64) as u8,
            (x >> 24u64) as u8 == (y >> 24u64) as u8,
            (x >> 32u64) as u8 == (y >> 32u64) as u8,
            (x >> 40u64) as u8 == (y >> 40u64) as u8,
            (x >> 48u64) as u8 == (y >> 48u64) as u8,
            (x >> 56u64) as u8 == (y >> 56u64) as u8,
    ;
}

/// Two values with the same little-endian bytes are equal.
pub proof fn lemma_u16_le_injective(x: u16, y: u16)
    requires
        u16_le(x) == u16_le(y),
    ensures
        x == y,
{
    assert(u16_le(x)[0] == u16_le(y)[0]);
    assert(u16_le(x)[1] == u16_le(y)[1]);
    assert(x == y) by (bit_vector)
        requires
            x as u8 == y as u8,
            (x >> 8u16) as u8 == (y >> 8u16) as u8,
    ;
}

/// Arrays with the same contents are equal.
pub proof fn lemma_array_eq<const N: usize>(a: [u8; N], b: [u8; N])
    requires
        a@ == b@,
    ensures
        a == b,
{
    assert(a =~= b) by {
        assert forall|i: int| 0 <= i < N implies a[i] == b[i] by {
            assert(a@[i] == b@[i]);
        }
    }
}

/// Copy `src` into `dst` starting at `offset`.
pub fn put_bytes<const N: usize, const M: usize>(dst: &mut [u8; N], offset: usize, src: &[u8; M])
    requires
        offset + M <= N,
    ensures
        final(dst)@ == old(dst)@.subrange(0, offset as int) + src@ + old(dst)@.subrange(offset + M, N as int),
{
    let ghost initial = dst@;
    let mut index: usize = 0;
    while index < M
        invariant
            offset + M <= N,
            index <= M,
            dst@.len() == N,
            forall|i: int| 0 <= i < offset ==> dst@[i] == initial[i],
            forall|i: int| 0 <= i < index ==> dst@[offset + i] == src@[i],
            forall|i: int| offset + index <= i < N ==> dst@[i] == initial[i],
        decreases M - index,
    {
        dst[offset + index] = src[index];
        index = index + 1;
    }
    assert(dst@ =~= initial.subrange(0, offset as int) + src@ + initial.subrange(offset + M, N as int));
}

/// Store `x` little-endian into `dst` at `offset`.
pub fn put_u64_le<const N: usize>(dst: &mut [u8; N], offset: usize, x: u64)
    requires
        offset + 8 <= N,
    ensures
        final(dst)@ == old(dst)@.subrange(0, offset as int) + u64_le(x) + old(dst)@.subrange(offset + 8, N as int),
{
    let ghost initial = dst@;
    dst[offset] = x as u8;
    dst[offset + 1] = (x >> 8u64) as u8;
    dst[offset + 2] = (x >> 16u64) as u8;
    dst[offset + 3] = (x >> 24u64) as u8;
    dst[offset + 4] = (x >> 32u64) as u8;
    dst[offset + 5] = (x >> 40u64) as u8;
    dst[offset + 6] = (x >> 48u64) as u8;
    dst[offset + 7] = (x >> 56u64) as u8;
    assert(dst@ =~= initial.subrange(0, offset as int) + u64_le(x) + initial.subrange(offset + 8, N as int));
}

/// Store `x` little-endian into `dst` at `offset`.
pub fn put_u16_le<const N: usize>(dst: &mut [u8; N], offset: usize, x: u16)
    requires
        offset + 2 <= N,
    ensures
        final(dst)@ == old(dst)@.subrange(0, offset as int) + u16_le(x) + old(dst)@.subrange(offset + 2, N as int),
{
    let ghost initial = dst@;
    dst[offset] = x as u8;
    dst[offset + 1] = (x >> 8u16) as u8;
    assert(dst@ =~= initial.subrange(0, offset as int) + u16_le(x) + initial.subrange(offset + 2, N as int));
}

/// Store one byte into `dst` at `offset`.
pub fn put_u8<const N: usize>(dst: &mut [u8; N], offset: usize, x: u8)
    requires
        offset < N,
    ensures
        final(dst)@ == old(dst)@.subrange(0, offset as int) + seq![x] + old(dst)@.subrange(offset + 1, N as int),
{
    let ghost initial = dst@;
    dst[offset] = x;
    assert(dst@ =~= initial.subrange(0, offset as int) + seq![x] + initial.subrange(offset + 1, N as int));
}

/// The `M` bytes of `src` starting at `offset`.
pub fn get_bytes<const N: usize, const M: usize>(src: &[u8; N], offset: usize) -> (out: [u8; M])
    requires
        offset + M <= N,
    ensures
        out@ == src@.subrange(offset as int, offset + M),
{
    let mut out = [0u8; M];
    let mut index: usize = 0;
    while index < M
        invariant
            offset + M <= N,
            index <= M,
            out@.len() == M,
            forall|i: int| 0 <= i < index ==> out@[i] == src@[offset + i],
        decreases M - index,
    {
        out[index] = src[offset + index];
        index = index + 1;
    }
    assert(out@ =~= src@.subrange(offset as int, offset + M));
    out
}

/// The `u64` stored little-endian in `src` at `offset`.
pub fn get_u64_le<const N: usize>(src: &[u8; N], offset: usize) -> (x: u64)
    requires
        offset + 8 <= N,
    ensures
        u64_le(x) == src@.subrange(offset as int, offset + 8),
{
    let b0 = src[offset];
    let b1 = src[offset + 1];
    let b2 = src[offset + 2];
    let b3 = src[offset + 3];
    let b4 = src[offset + 4];
    let b5 = src[offset + 5];
    let b6 = src[offset + 6];
    let b7 = src[offset + 7];
    let x = (b0 as u64) | ((b1 as u64) << 8u64) | ((b2 as u64) << 16u64) | ((b3 as u64) << 24u64)
        | ((b4 as u64) << 32u64) | ((b5 as u64) << 40u64) | ((b6 as u64) << 48u64) | ((b7 as u64) << 56u64);
    assert(x as u8 == b0 && (x >> 8u64) as u8 == b1 && (x >> 16u64) as u8 == b2 && (x >> 24u64) as u8 == b3
        && (x >> 32u64) as u8 == b4 && (x >> 40u64) as u8 == b5 && (x >> 48u64) as u8 == b6
        && (x >> 56u64) as u8 == b7) by (bit_vector)
        requires
            x == (b0 as u64) | ((b1 as u64) << 8u64) | ((b2 as u64) << 16u64) | ((b3 as u64) << 24u64)
                | ((b4 as u64) << 32u64) | ((b5 as u64) << 40u64) | ((b6 as u64) << 48u64) | ((b7 as u64) << 56u64),
    ;
    assert(u64_le(x) =~= src@.subrange(offset as int, offset + 8));
    x
}

/// The `u16` stored little-endian in `src` at `offset`.
pub fn get_u16_le<const N: usize>(src: &[u8; N], offset: usize) -> (x: u16)
    requires
        offset + 2 <= N,
    ensures
        u16_le(x) == src@.subrange(offset as int, offset + 2),
        x == read_u16_le(src@, offset as int),
{
    let b0 = src[offset];
    let b1 = src[offset + 1];
    let x = (b0 as u16) | ((b1 as u16) << 8u16);
    assert(x as u8 == b0 && (x >> 8u16) as u8 == b1) by (bit_vector)
        requires
            x == (b0 as u16) | ((b1 as u16) << 8u16),
    ;
    assert(u16_le(x) =~= src@.subrange(offset as int, offset + 2));
    x
}

/// Whether two byte arrays of one length hold the same bytes.
pub fn array_eq<const N: usize>(a: &[u8; N], b: &[u8; N]) -> (r: bool)
    ensures
        r == (*a == *b),
{
    let mut index: usize = 0;
    while index < N
        invariant
            index <= N,
            forall|i: int| 0 <= i < index ==> a@[i] == b@[i],
        decreases N - index,
    {
        if a[index] != b[index] {
            assert(a@[index as int] != b@[index as int]);
            return false;
        }
        index = index + 1;
    }
    assert(a@ =~= b@);
    proof {
        lemma_array_eq(*a, *b);
    }
    true
}

/// Whether two 32-byte arrays hold the same bytes.
pub fn bytes32_eq(a: &[u8; 32], b: &[u8; 32]) -> (r: bool)
    ensures
        r == (a@ == b@),
        r == (*a == *b),
{
    let mut index: usize = 0;
    while index < 32
        invariant
            index <= 32,
            forall|i: int| 0 <= i < index ==> a@[i] == b@[i],
        decreases 32 - index,
    {
        if a[index] != b[index] {
            assert(a@[index as int] != b@[index as int]);
            return false;
        }
        index = index + 1;
    }
    assert(a@ =~= b@);
    proof {
        lemma_array_eq(*a, *b);
    }
    true
}

/// Whether every byte of `bytes` is zero.
pub fn bytes_are_zero(bytes: &[u8]) -> (r: bool)
    ensures
        r == (forall|i: int| 0 <= i < bytes@.len() ==> bytes@[i] == 0),
{
    let mut index: usize = 0;
    while index < bytes.len()
        invariant
            index <= bytes@.len(),
            forall|i: int| 0 <= i < index ==> bytes@[i] == 0,
        decreases bytes@.len() - index,
    {
        if bytes[index] != 0 {
            return false;
        }
        index = index + 1;
    }
    true
}

} // verus!
