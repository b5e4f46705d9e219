//! Fixed-width big-endian integer encodings and their inverses. These are the
//! primitive fields of the canonical consensus wire format: fixed width makes
//! every integer's encoding unique by construction.

use vstd::prelude::*;

verus! {

/// The 8-byte big-endian encoding of a 64-bit integer.
pub open spec fn be8(v: u64) -> Seq<u8> {
    seq![
        (v >> 56) as u8,
        (v >> 48) as u8,
        (v >> 40) as u8,
        (v >> 32) as u8,
        (v >> 24) as u8,
        (v >> 16) as u8,
        (v >> 8) as u8,
        v as u8,
    ]
}

/// The 64-bit integer read back from 8 big-endian bytes.
pub open spec fn u64_of_be(s: Seq<u8>) -> u64
    recommends
        s.len() == 8,
{
    (((s[0] as u64) << 56) | ((s[1] as u64) << 48) | ((s[2] as u64) << 40) | ((s[3] as u64) << 32)
        | ((s[4] as u64) << 24) | ((s[5] as u64) << 16) | ((s[6] as u64) << 8) | (s[7] as u64)) as u64
}

/// Reading back the big-endian encoding of an integer yields the integer.
pub proof fn lemma_be8_inverse(v: u64)
    ensures
        u64_of_be(be8(v)) == v,
{
    assert(((((v >> 56) as u8) as u64) << 56 | (((v >> 48) as u8) as u64) << 48
        | (((v >> 40) as u8) as u64) << 40 | (((v >> 32) as u8) as u64) << 32
        | (((v >> 24) as u8) as u64) << 24 | (((v >> 16) as u8) as u64) << 16
        | (((v >> 8) as u8) as u64) << 8 | ((v as u8) as u64)) == v) by (bit_vector);
}

/// Any 8 bytes are the big-endian encoding of the integer they read back to:
/// the encoding is a bijection on 8-byte strings.
pub proof fn lemma_be8_onto(s: Seq<u8>)
    requires
        s.len() == 8,
    ensures
        be8(u64_of_be(s)) == s,
{
    let v = u64_of_be(s);
    let (b0, b1, b2, b3, b4, b5, b6, b7) = (s[0], s[1], s[2], s[3], s[4], s[5], s[6], s[7]);
    assert({
        let x = ((b0 as u64) << 56 | (b1 as u64) << 48 | (b2 as u64) << 40 | (b3 as u64) << 32
            | (b4 as u64) << 24 | (b5 as u64) << 16 | (b6 as u64) << 8 | (b7 as u64)) as u64;
        (x >> 56) as u8 == b0 && (x >> 48) as u8 == b1 && (x >> 40) as u8 == b2 && (x >> 32) as u8
            == b3 && (x >> 24) as u8 == b4 && (x >> 16) as u8 == b5 && (x >> 8) as u8 == b6
            && x as u8 == b7
    }) by (bit_vector);
    assert(be8(v) =~= s);
}

/// Appends the 8-byte big-endian encoding of `v`.
pub fn put_u64(buf: &mut Vec<u8>, v: u64)
    ensures
        final(buf)@ == old(buf)@ + be8(v),
{
    let ghost before = buf@;
    buf.push((v >> 56) as u8);
    buf.push((v >> 48) as u8);
    buf.push((v >> 40) as u8);
    buf.push((v >> 32) as u8);
    buf.push((v >> 24) as u8);
    buf.push((v >> 16) as u8);
    buf.push((v >> 8) as u8);
    buf.push(v as u8);
    proof {
        assert(buf@ =~= before + be8(v));
    }
}

/// Reads the 8-byte big-endian integer starting at offset `i`.
pub fn get_u64(b: &Vec<u8>, i: usize) -> (r: u64)
    requires
        i + 8 <= b@.len(),
    ensures
        r == u64_of_be(b@.subrange(i as int, i as int + 8)),
{
    let n = b.len();
    let r: u64 = ((b[i] as u64) << 56u64) | ((b[i + 1] as u64) << 48u64) | ((b[i + 2] as u64)
        << 40u64) | ((b[i + 3] as u64) << 32u64) | ((b[i + 4] as u64) << 24u64) | ((b[i + 5] as u64)
        << 16u64) | ((b[i + 6] as u64) << 8u64) | (b[i + 7] as u64);
    proof {
        let s = b@.subrange(i as int, i as int + 8);
        assert(s[0] == b@[i as int] && s[1] == b@[i as int + 1] && s[2] == b@[i as int + 2] && s[3]
            == b@[i as int + 3] && s[4] == b@[i as int + 4] && s[5] == b@[i as int + 5] && s[6]
            == b@[i as int + 6] && s[7] == b@[i as int + 7]);
    }
    r
}

/// The 16-byte big-endian encoding of a 128-bit integer, as the encodings of
/// its high and low halves.
pub open spec fn be16(v: u128) -> Seq<u8> {
    be8((v >> 64) as u64) + be8(v as u64)
}

/// The 128-bit integer read back from 16 big-endian bytes.
pub open spec fn u128_of_be(s: Seq<u8>) -> u128
    recommends
        s.len() == 16,
{
    ((u64_of_be(s.subrange(0, 8)) as u128) << 64 | (u64_of_be(s.subrange(8, 16)) as u128)) as u128
}

/// Reading back the 16-byte encoding of a 128-bit integer yields the integer.
pub proof fn lemma_be16_inverse(v: u128)
    ensures
        u128_of_be(be16(v)) == v,
{
    let hi = (v >> 64) as u64;
    let lo = v as u64;
    lemma_be8_inverse(hi);
    lemma_be8_inverse(lo);
    assert(be16(v).subrange(0, 8) =~= be8(hi));
    assert(be16(v).subrange(8, 16) =~= be8(lo));
    assert((((((v >> 64) as u64) as u128) << 64 | ((v as u64) as u128)) as u128) == v)
        by (bit_vector);
}

/// Any 16 bytes are the encoding of the 128-bit integer they read back to.
pub proof fn lemma_be16_onto(s: Seq<u8>)
    requires
        s.len() == 16,
    ensures
        be16(u128_of_be(s)) == s,
{
    let hi = u64_of_be(s.subrange(0, 8));
    let lo = u64_of_be(s.subrange(8, 16));
    let v = u128_of_be(s);
    assert({
        let x = ((hi as u128) << 64 | (lo as u128)) as u128;
        (x >> 64) as u64 == hi && x as u64 == lo
    }) by (bit_vector);
    lemma_be8_onto(s.subrange(0, 8));
    lemma_be8_onto(s.subrange(8, 16));
    assert(be16(v) =~= s);
}

/// Appends the 16-byte big-endian encoding of `v`.
pub fn put_u128(buf: &mut Vec<u8>, v: u128)
    ensures
        final(buf)@ == old(buf)@ + be16(v),
{
    let ghost before = buf@;
    put_u64(buf, (v >> 64u128) as u64);
    put_u64(buf, v as u64);
    proof {
        assert(buf@ =~= before + be16(v));
    }
}

/// Reads the 16-byte big-endian integer starting at offset `i`.
pub fn get_u128(b: &Vec<u8>, i: usize) -> (r: u128)
    requires
        i + 16 <= b@.len(),
    ensures
        r == u128_of_be(b@.subrange(i as int, i as int + 16)),
{
    let n = b.len();
    let hi = get_u64(b, i);
    let lo = get_u64(b, i + 8);
    proof {
        let s = b@.subrange(i as int, i as int + 16);
        assert(s.subrange(0, 8) =~= b@.subrange(i as int, i as int + 8));
        assert(s.subrange(8, 16) =~= b@.subrange(i as int + 8, i as int + 16));
    }
    ((hi as u128) << 64u128) | (lo as u128)
}

/// Appends all of `src` to `buf`.
pub fn put_bytes(buf: &mut Vec<u8>, src: &Vec<u8>)
    ensures
        final(buf)@ == old(buf)@ + src@,
{
    let ghost before = buf@;
    let mut i: usize = 0;
    while i < src.len()
        invariant
            i <= src@.len(),
            buf@ == before + src@.subrange(0, i as int),
        decreases src@.len() - i,
    {
        buf.push(src[i]);
        i = i + 1;
        proof {
            assert(buf@ =~= before + src@.subrange(0, i as int));
        }
    }
    proof {
        assert(buf@ =~= before + src@);
    }
}

/// Copies `n` bytes starting at offset `i` into a fresh vector.
pub fn get_bytes(b: &Vec<u8>, i: usize, n: usize) -> (r: Vec<u8>)
    requires
        i + n <= b@.len(),
    ensures
        r@ == b@.subrange(i as int, i as int + n as int),
{
    let total = b.len();
    let mut out: Vec<u8> = Vec::new();
    let mut j: usize = 0;
    while j < n
        invariant
            j <= n,
            i + n <= b@.len(),
            b@.len() <= usize::MAX,
            out@ == b@.subrange(i as int, i as int + j as int),
        decreases n - j,
    {
        out.push(b[i + j]);
        j = j + 1;
        proof {
            assert(out@ =~= b@.subrange(i as int, i as int + j as int));
        }
    }
    out
}

} // verus!
