//! Canonical RLP encoding, used to form hash preimages: transaction hashes,
//! created-contract addresses, and the receipts-root commitment. Only the
//! encoder is needed; nothing on the wire is decoded as RLP here.

use vstd::prelude::*;

verus! {

/// The minimal big-endian byte string of an integer: no leading zeros, empty
/// for zero.
pub open spec fn min_be(v: nat) -> Seq<u8>
    decreases v,
{
    if v == 0 {
        seq![]
    } else {
        min_be(v / 256) + seq![(v % 256) as u8]
    }
}

/// The minimal big-endian bytes of a value below 2^32 take at most 4 bytes.
pub proof fn lemma_min_be_len4(v: nat)
    requires
        v < 0x1_0000_0000,
    ensures
        min_be(v).len() <= 4,
{
    assert(exp256(1) == 256 * exp256(0));
    assert(exp256(2) == 256 * exp256(1));
    assert(exp256(3) == 256 * exp256(2));
    assert(exp256(4) == 256 * exp256(3));
    assert(v < exp256(4));
    lemma_min_be_len_step(v, 4);
}

/// The RLP header for a payload of `len` bytes: `base` is 0x80 for strings
/// and 0xc0 for lists.
pub open spec fn rlp_header(base: u8, len: nat) -> Seq<u8>
    recommends
        len < 0x1_0000_0000,
{
    if len <= 55 {
        seq![(base + len) as u8]
    } else {
        seq![(base + 55 + min_be(len).len()) as u8] + min_be(len)
    }
}

/// The RLP encoding of a byte string.
pub open spec fn rlp_str(p: Seq<u8>) -> Seq<u8> {
    if p.len() == 1 && p[0] < 0x80 {
        p
    } else {
        rlp_header(0x80, p.len()) + p
    }
}

/// The RLP encoding of an unsigned integer: its minimal big-endian bytes as a
/// string.
pub open spec fn rlp_uint(v: nat) -> Seq<u8> {
    rlp_str(min_be(v))
}

/// The RLP encoding of a list whose items' encodings concatenate to `payload`.
pub open spec fn rlp_list(payload: Seq<u8>) -> Seq<u8> {
    rlp_header(0xc0, payload.len()) + payload
}

/// Computes the minimal big-endian bytes of `v`.
pub fn min_be_exec(v: u128) -> (r: Vec<u8>)
    ensures
        r@ == min_be(v as nat),
    decreases v,
{
    if v == 0 {
        Vec::new()
    } else {
        let mut r = min_be_exec(v / 256);
        r.push((v % 256) as u8);
        proof {
            assert(r@ =~= min_be((v / 256) as nat) + seq![((v as nat) % 256) as u8]);
        }
        r
    }
}

/// Appends the RLP header for base `base` and payload length `len`.
pub fn put_rlp_header(buf: &mut Vec<u8>, base: u8, len: usize)
    requires
        len < 0x1_0000_0000,
        base == 0x80 || base == 0xc0,
    ensures
        final(buf)@ == old(buf)@ + rlp_header(base, len as nat),
{
    let ghost before = buf@;
    if len <= 55 {
        buf.push(base + (len as u8));
        proof {
            assert(buf@ =~= before + rlp_header(base, len as nat));
        }
    } else {
        let lb = min_be_exec(len as u128);
        proof {
            lemma_min_be_len4(len as nat);
        }
        buf.push(base + 55 + (lb.len() as u8));
        crate::bytesutil::put_bytes(buf, &lb);
        proof {
            assert(buf@ =~= before + rlp_header(base, len as nat));
        }
    }
}

/// Appends the RLP encoding of the byte string `p`.
pub fn put_rlp_str(buf: &mut Vec<u8>, p: &Vec<u8>)
    requires
        p@.len() < 0x1_0000_0000,
    ensures
        final(buf)@ == old(buf)@ + rlp_str(p@),
{
    let ghost before = buf@;
    if p.len() == 1 && p[0] < 0x80 {
        buf.push(p[0]);
        proof {
            assert(buf@ =~= before + rlp_str(p@));
        }
    } else {
        put_rlp_header(buf, 0x80, p.len());
        crate::bytesutil::put_bytes(buf, p);
        proof {
            assert(buf@ =~= before + rlp_str(p@));
        }
    }
}

/// Appends the RLP encoding of the unsigned integer `v`.
pub fn put_rlp_uint(buf: &mut Vec<u8>, v: u128)
    ensures
        final(buf)@ == old(buf)@ + rlp_uint(v as nat),
{
    let p = min_be_exec(v);
    proof {
        lemma_min_be_len4_u128(v);
    }
    put_rlp_str(buf, &p);
}

/// 256 raised to `k`.
pub open spec fn exp256(k: nat) -> nat
    decreases k,
{
    if k == 0 {
        1
    } else {
        256 * exp256((k - 1) as nat)
    }
}

/// The minimal big-endian bytes of a 128-bit value take at most 16 bytes.
pub proof fn lemma_min_be_len4_u128(v: u128)
    ensures
        min_be(v as nat).len() <= 16,
{
    assert(exp256(1) == 256 * exp256(0));
    assert(exp256(2) == 256 * exp256(1));
    assert(exp256(3) == 256 * exp256(2));
    assert(exp256(4) == 256 * exp256(3));
    assert(exp256(5) == 256 * exp256(4));
    assert(exp256(6) == 256 * exp256(5));
    assert(exp256(7) == 256 * exp256(6));
    assert(exp256(8) == 256 * exp256(7));
    assert(exp256(9) == 256 * exp256(8));
    assert(exp256(10) == 256 * exp256(9));
    assert(exp256(11) == 256 * exp256(10));
    assert(exp256(12) == 256 * exp256(11));
    assert(exp256(13) == 256 * exp256(12));
    assert(exp256(14) == 256 * exp256(13));
    assert(exp256(15) == 256 * exp256(14));
    assert(exp256(16) == 256 * exp256(15));
    assert((v as nat) < exp256(16));
    lemma_min_be_len_step(v as nat, 16);
}

/// The minimal big-endian bytes of a value below 256^k take at most k bytes.
pub proof fn lemma_min_be_len_step(v: nat, k: nat)
    requires
        v < exp256(k),
    ensures
        min_be(v).len() <= k,
    decreases k,
{
    if v != 0 {
        assert(k != 0);
        assert(v / 256 < exp256((k - 1) as nat)) by (nonlinear_arith)
            requires
                v < 256 * exp256((k - 1) as nat),
        ;
        lemma_min_be_len_step(v / 256, (k - 1) as nat);
    }
}

} // verus!
