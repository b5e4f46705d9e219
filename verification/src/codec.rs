//! The canonical wire codec for consensus messages. Every field is either a
//! fixed-width big-endian integer, a fixed-width digest or key, or a
//! length-prefixed byte string, so every value has exactly one encoding.
//! Decoding accepts a byte string only when it is exactly the encoding of a
//! well-formed message; in particular it rejects trailing bytes.

use crate::bytesutil::{
    be8, get_bytes, get_u64, lemma_be8_inverse, lemma_be8_onto, put_bytes, put_u64, u64_of_be,
};
use vstd::prelude::*;

verus! {

/// Largest accepted signature field.
pub const MAX_SIG_LEN: usize = 0xFFFF_FFFF;
/// Largest accepted hash list.
pub const MAX_HASH_LIST_LEN: usize = 0xFFFF;

/// A vote for a proposal hash or for nil at one (height, round).
pub struct SignedVote {
    pub height: u64,
    pub round: u64,
    pub block_hash: Vec<u8>,
    pub is_nil: bool,
    pub voter: Vec<u8>,
    pub signature: Vec<u8>,
}

/// A timeout-escalation message: advances rounds without a proposal.
pub struct SignedChoke {
    pub height: u64,
    pub round: u64,
    pub from: Vec<u8>,
    pub signature: Vec<u8>,
}

/// A quorum certificate: an aggregate over one (height, round, hash) naming
/// the validators whose votes it aggregates.
pub struct AggregatedVote {
    pub height: u64,
    pub round: u64,
    pub block_hash: Vec<u8>,
    pub signers: Vec<Vec<u8>>,
    pub signature: Vec<u8>,
}

/// A signed proposal: the block header fields and the ordered transaction
/// identifiers the block commits to.
pub struct SignedProposal {
    pub height: u64,
    pub round: u64,
    pub gas_used: u64,
    pub timestamp: u64,
    pub proposer: Vec<u8>,
    pub prev_hash: Vec<u8>,
    pub state_root: Vec<u8>,
    pub receipts_root: Vec<u8>,
    pub tx_hashes: Vec<Vec<u8>>,
    pub signature: Vec<u8>,
}

/// Well-formedness of a list of 32-byte hashes.
pub open spec fn hashes_wf(s: Seq<Seq<u8>>) -> bool {
    &&& s.len() <= MAX_HASH_LIST_LEN
    &&& forall|i: int| 0 <= i < s.len() ==> (#[trigger] s[i]).len() == 32
}

/// The concatenation of a list of 32-byte hashes.
pub open spec fn hashes_cat(s: Seq<Seq<u8>>) -> Seq<u8>
    decreases s.len(),
{
    if s.len() == 0 {
        Seq::empty()
    } else {
        hashes_cat(s.drop_last()) + s.last()
    }
}

/// The encoding of a hash list: its count, then the hashes in order.
pub open spec fn hashes_enc(s: Seq<Seq<u8>>) -> Seq<u8> {
    be8(s.len() as u64) + hashes_cat(s)
}

/// The concatenation of a well-formed hash list is 32 bytes per hash.
pub proof fn lemma_hashes_cat_len(s: Seq<Seq<u8>>)
    requires
        forall|i: int| 0 <= i < s.len() ==> (#[trigger] s[i]).len() == 32,
    ensures
        hashes_cat(s).len() == 32 * s.len(),
    decreases s.len(),
{
    if s.len() > 0 {
        lemma_hashes_cat_len(s.drop_last());
    }
}

/// Each hash of a well-formed list stands at its own 32-byte slot of the
/// concatenation.
pub proof fn lemma_hashes_cat_index(s: Seq<Seq<u8>>, i: int)
    requires
        forall|k: int| 0 <= k < s.len() ==> (#[trigger] s[k]).len() == 32,
        0 <= i < s.len(),
    ensures
        hashes_cat(s).subrange(32 * i, 32 * i + 32) == s[i],
    decreases s.len(),
{
    lemma_hashes_cat_len(s);
    if i == s.len() - 1 {
        lemma_hashes_cat_len(s.drop_last());
        assert(hashes_cat(s).subrange(32 * i, 32 * i + 32) =~= s.last());
    } else {
        lemma_hashes_cat_index(s.drop_last(), i);
        lemma_hashes_cat_len(s.drop_last());
        assert(hashes_cat(s).subrange(32 * i, 32 * i + 32) =~= hashes_cat(s.drop_last()).subrange(
            32 * i,
            32 * i + 32,
        ));
    }
}

/// Two well-formed hash lists of equal length and equal concatenation are
/// equal.
pub proof fn lemma_hashes_cat_injective(a: Seq<Seq<u8>>, b: Seq<Seq<u8>>)
    requires
        forall|k: int| 0 <= k < a.len() ==> (#[trigger] a[k]).len() == 32,
        forall|k: int| 0 <= k < b.len() ==> (#[trigger] b[k]).len() == 32,
        a.len() == b.len(),
        hashes_cat(a) == hashes_cat(b),
    ensures
        a == b,
{
    assert forall|i: int| 0 <= i < a.len() implies a[i] == b[i] by {
        lemma_hashes_cat_index(a, i);
        lemma_hashes_cat_index(b, i);
    }
    assert(a =~= b);
}

/// Appends the encoding of a hash list.
pub fn put_hashes(buf: &mut Vec<u8>, hs: &Vec<Vec<u8>>)
    requires
        hashes_wf(hs@.map_values(|v: Vec<u8>| v@)),
    ensures
        final(buf)@ == old(buf)@ + hashes_enc(hs@.map_values(|v: Vec<u8>| v@)),
{
    let ghost hv = hs@.map_values(|v: Vec<u8>| v@);
    let ghost before = buf@;
    put_u64(buf, hs.len() as u64);
    let mut i: usize = 0;
    while i < hs.len()
        invariant
            i <= hs@.len(),
            hv == hs@.map_values(|v: Vec<u8>| v@),
            hashes_wf(hv),
            buf@ == before + be8(hs@.len() as u64) + hashes_cat(hv.subrange(0, i as int)),
        decreases hs@.len() - i,
    {
        put_bytes(buf, &hs[i]);
        i = i + 1;
        proof {
            let pre = hv.subrange(0, i as int);
            assert(pre.drop_last() =~= hv.subrange(0, i as int - 1));
            assert(pre.last() == hv[i as int - 1]);
            assert(buf@ =~= before + be8(hs@.len() as u64) + hashes_cat(pre));
        }
    }
    proof {
        assert(hv.subrange(0, hv.len() as int) =~= hv);
        assert(buf@ =~= before + hashes_enc(hv));
    }
}

/// Parses a hash list at offset `i`; on success also returns the offset just
/// past it. Rejects a count over the cap or past the end of the input.
pub fn get_hashes(b: &Vec<u8>, i: usize) -> (r: Option<(Vec<Vec<u8>>, usize)>)
    requires
        i + 8 <= b@.len(),
    ensures
        match r {
            Some((hs, off)) => {
                &&& hashes_wf(hs@.map_values(|v: Vec<u8>| v@))
                &&& i + 8 <= off <= b@.len()
                &&& off == i + 8 + 32 * hs@.len()
                &&& hashes_enc(hs@.map_values(|v: Vec<u8>| v@)) == b@.subrange(
                    i as int,
                    off as int,
                )
            },
            None => forall|s: Seq<Seq<u8>>|
                hashes_wf(s) && i + 8 + 32 * s.len() <= b@.len() ==> hashes_enc(s)
                    != b@.subrange(i as int, i as int + 8 + 32 * s.len() as int),
        },
{
    let n = b.len();
    let count = get_u64(b, i);
    if count > MAX_HASH_LIST_LEN as u64 || (count as usize) > (n - i - 8) / 32 {
        proof {
            assert forall|s: Seq<Seq<u8>>|
                hashes_wf(s) && i + 8 + 32 * s.len() <= b@.len() implies hashes_enc(s)
                != b@.subrange(i as int, i as int + 8 + 32 * s.len() as int) by {
                if hashes_enc(s) == b@.subrange(i as int, i as int + 8 + 32 * s.len() as int) {
                    lemma_hashes_cat_len(s);
                    assert(hashes_enc(s).subrange(0, 8) =~= be8(s.len() as u64));
                    assert(b@.subrange(i as int, i as int + 8 + 32 * s.len() as int).subrange(0, 8)
                        =~= b@.subrange(i as int, i as int + 8));
                    lemma_be8_inverse(s.len() as u64);
                    assert(count == s.len());
                }
            }
        }
        return None;
    }
    let count = count as usize;
    let mut hs: Vec<Vec<u8>> = Vec::new();
    let mut j: usize = 0;
    while j < count
        invariant
            j <= count,
            count <= MAX_HASH_LIST_LEN,
            i + 8 + 32 * count <= b@.len(),
            b@.len() <= usize::MAX,
            hs@.len() == j,
            forall|k: int| 0 <= k < j ==> (#[trigger] hs@[k])@.len() == 32,
            hashes_cat(hs@.map_values(|v: Vec<u8>| v@)) == b@.subrange(
                i as int + 8,
                i as int + 8 + 32 * j,
            ),
        decreases count - j,
    {
        let ghost prev = hs@.map_values(|v: Vec<u8>| v@);
        let h = get_bytes(b, i + 8 + 32 * j, 32);
        hs.push(h);
        j = j + 1;
        proof {
            let hv = hs@.map_values(|v: Vec<u8>| v@);
            assert(hv.drop_last() =~= prev);
            assert(hv.last() == h@);
            assert(hashes_cat(hv) == hashes_cat(prev) + h@);
            assert(b@.subrange(i as int + 8, i as int + 8 + 32 * j) =~= b@.subrange(
                i as int + 8,
                i as int + 8 + 32 * (j - 1),
            ) + b@.subrange(i as int + 8 + 32 * (j - 1), i as int + 8 + 32 * j));
        }
    }
    proof {
        let hv = hs@.map_values(|v: Vec<u8>| v@);
        lemma_be8_onto(b@.subrange(i as int, i as int + 8));
        assert(hashes_enc(hv) =~= b@.subrange(i as int, i as int + 8 + 32 * count));
    }
    Some((hs, i + 8 + 32 * count))
}

/// The byte that encodes a boolean.
pub open spec fn bool_byte(v: bool) -> u8 {
    if v {
        1
    } else {
        0
    }
}

/// A vote is well formed when its hash and voter key have full width and its
/// signature fits the format.
pub open spec fn vote_wf(v: SignedVote) -> bool {
    &&& v.block_hash@.len() == 32
    &&& v.voter@.len() == 32
    &&& v.signature@.len() <= MAX_SIG_LEN
}

/// The encoding of a vote.
pub open spec fn vote_enc(v: SignedVote) -> Seq<u8> {
    be8(v.height) + be8(v.round) + v.block_hash@ + seq![bool_byte(v.is_nil)] + v.voter@ + be8(
        v.signature@.len() as u64,
    ) + v.signature@
}

/// Where each field of a vote stands inside its encoding.
pub proof fn lemma_vote_enc_parts(v: SignedVote)
    requires
        vote_wf(v),
    ensures
        vote_enc(v).len() == 89 + v.signature@.len(),
        vote_enc(v).subrange(0, 8) == be8(v.height),
        vote_enc(v).subrange(8, 16) == be8(v.round),
        vote_enc(v).subrange(16, 48) == v.block_hash@,
        vote_enc(v)[48] == bool_byte(v.is_nil),
        vote_enc(v).subrange(49, 81) == v.voter@,
        vote_enc(v).subrange(81, 89) == be8(v.signature@.len() as u64),
        vote_enc(v).subrange(89, vote_enc(v).len() as int) == v.signature@,
{
    assert(vote_enc(v).subrange(0, 8) =~= be8(v.height));
    assert(vote_enc(v).subrange(8, 16) =~= be8(v.round));
    assert(vote_enc(v).subrange(16, 48) =~= v.block_hash@);
    assert(vote_enc(v).subrange(49, 81) =~= v.voter@);
    assert(vote_enc(v).subrange(81, 89) =~= be8(v.signature@.len() as u64));
    assert(vote_enc(v).subrange(89, vote_enc(v).len() as int) =~= v.signature@);
}

/// Two well-formed votes with equal encodings are field-for-field equal: the
/// encoding loses nothing.
pub proof fn lemma_vote_enc_injective(a: SignedVote, b: SignedVote)
    requires
        vote_wf(a),
        vote_wf(b),
        vote_enc(a) == vote_enc(b),
    ensures
        a.height == b.height,
        a.round == b.round,
        a.block_hash@ == b.block_hash@,
        a.is_nil == b.is_nil,
        a.voter@ == b.voter@,
        a.signature@ == b.signature@,
{
    lemma_vote_enc_parts(a);
    lemma_vote_enc_parts(b);
    lemma_be8_inverse(a.height);
    lemma_be8_inverse(b.height);
    lemma_be8_inverse(a.round);
    lemma_be8_inverse(b.round);
}

/// Encodes a vote.
pub fn encode_vote(v: &SignedVote) -> (r: Vec<u8>)
    requires
        vote_wf(*v),
    ensures
        r@ == vote_enc(*v),
{
    let mut out: Vec<u8> = Vec::new();
    put_u64(&mut out, v.height);
    put_u64(&mut out, v.round);
    put_bytes(&mut out, &v.block_hash);
    if v.is_nil {
        out.push(1);
    } else {
        out.push(0);
    }
    put_bytes(&mut out, &v.voter);
    put_u64(&mut out, v.signature.len() as u64);
    put_bytes(&mut out, &v.signature);
    proof {
        assert(out@ =~= vote_enc(*v));
    }
    out
}

/// Decodes a vote; accepts exactly the encodings of well-formed votes.
pub fn decode_vote(b: &Vec<u8>) -> (r: Option<SignedVote>)
    ensures
        match r {
            Some(v) => vote_wf(v) && vote_enc(v) == b@,
            None => forall|v: SignedVote| vote_wf(v) ==> vote_enc(v) != b@,
        },
{
    let n = b.len();
    if n < 89 {
        proof {
            assert forall|v: SignedVote| vote_wf(v) implies vote_enc(v) != b@ by {
                lemma_vote_enc_parts(v);
            }
        }
        return None;
    }
    let height = get_u64(b, 0);
    let round = get_u64(b, 8);
    let block_hash = get_bytes(b, 16, 32);
    let nilb = b[48];
    if nilb > 1 {
        proof {
            assert forall|v: SignedVote| vote_wf(v) implies vote_enc(v) != b@ by {
                if vote_enc(v) == b@ {
                    lemma_vote_enc_parts(v);
                }
            }
        }
        return None;
    }
    let voter = get_bytes(b, 49, 32);
    let siglen = get_u64(b, 81);
    if (n - 89) as u64 != siglen || n - 89 > MAX_SIG_LEN {
        proof {
            assert forall|v: SignedVote| vote_wf(v) implies vote_enc(v) != b@ by {
                if vote_enc(v) == b@ {
                    lemma_vote_enc_parts(v);
                    lemma_be8_inverse(v.signature@.len() as u64);
                    assert(b@.subrange(81, 89) == be8(v.signature@.len() as u64));
                    assert(siglen == v.signature@.len());
                }
            }
        }
        return None;
    }
    let signature = get_bytes(b, 89, n - 89);
    let v = SignedVote { height, round, block_hash, is_nil: nilb == 1, voter, signature };
    proof {
        lemma_be8_onto(b@.subrange(0, 8));
        lemma_be8_onto(b@.subrange(8, 16));
        lemma_be8_onto(b@.subrange(81, 89));
        assert(be8(v.signature@.len() as u64) =~= b@.subrange(81, 89));
        assert(vote_enc(v) =~= b@);
    }
    Some(v)
}

/// A choke is well formed when its sender key has full width and its
/// signature fits the format.
pub open spec fn choke_wf(c: SignedChoke) -> bool {
    &&& c.from@.len() == 32
    &&& c.signature@.len() <= MAX_SIG_LEN
}

/// The encoding of a choke.
pub open spec fn choke_enc(c: SignedChoke) -> Seq<u8> {
    be8(c.height) + be8(c.round) + c.from@ + be8(c.signature@.len() as u64) + c.signature@
}

/// Where each field of a choke stands inside its encoding.
pub proof fn lemma_choke_enc_parts(c: SignedChoke)
    requires
        choke_wf(c),
    ensures
        choke_enc(c).len() == 56 + c.signature@.len(),
        choke_enc(c).subrange(0, 8) == be8(c.height),
        choke_enc(c).subrange(8, 16) == be8(c.round),
        choke_enc(c).subrange(16, 48) == c.from@,
        choke_enc(c).subrange(48, 56) == be8(c.signature@.len() as u64),
        choke_enc(c).subrange(56, choke_enc(c).len() as int) == c.signature@,
{
    assert(choke_enc(c).subrange(0, 8) =~= be8(c.height));
    assert(choke_enc(c).subrange(8, 16) =~= be8(c.round));
    assert(choke_enc(c).subrange(16, 48) =~= c.from@);
    assert(choke_enc(c).subrange(48, 56) =~= be8(c.signature@.len() as u64));
    assert(choke_enc(c).subrange(56, choke_enc(c).len() as int) =~= c.signature@);
}

/// Two well-formed chokes with equal encodings are field-for-field equal.
pub proof fn lemma_choke_enc_injective(a: SignedChoke, b: SignedChoke)
    requires
        choke_wf(a),
        choke_wf(b),
        choke_enc(a) == choke_enc(b),
    ensures
        a.height == b.height,
        a.round == b.round,
        a.from@ == b.from@,
        a.signature@ == b.signature@,
{
    lemma_choke_enc_parts(a);
    lemma_choke_enc_parts(b);
    lemma_be8_inverse(a.height);
    lemma_be8_inverse(b.height);
    lemma_be8_inverse(a.round);
    lemma_be8_inverse(b.round);
}

/// Encodes a choke.
pub fn encode_choke(c: &SignedChoke) -> (r: Vec<u8>)
    requires
        choke_wf(*c),
    ensures
        r@ == choke_enc(*c),
{
    let mut out: Vec<u8> = Vec::new();
    put_u64(&mut out, c.height);
    put_u64(&mut out, c.round);
    put_bytes(&mut out, &c.from);
    put_u64(&mut out, c.signature.len() as u64);
    put_bytes(&mut out, &c.signature);
    proof {
        assert(out@ =~= choke_enc(*c));
    }
    out
}

/// Decodes a choke; accepts exactly the encodings of well-formed chokes.
pub fn decode_choke(b: &Vec<u8>) -> (r: Option<SignedChoke>)
    ensures
        match r {
            Some(c) => choke_wf(c) && choke_enc(c) == b@,
            None => forall|c: SignedChoke| choke_wf(c) ==> choke_enc(c) != b@,
        },
{
    let n = b.len();
    if n < 56 {
        proof {
            assert forall|c: SignedChoke| choke_wf(c) implies choke_enc(c) != b@ by {
                lemma_choke_enc_parts(c);
            }
        }
        return None;
    }
    let height = get_u64(b, 0);
    let round = get_u64(b, 8);
    let from = get_bytes(b, 16, 32);
    let siglen = get_u64(b, 48);
    if (n - 56) as u64 != siglen || n - 56 > MAX_SIG_LEN {
        proof {
            assert forall|c: SignedChoke| choke_wf(c) implies choke_enc(c) != b@ by {
                if choke_enc(c) == b@ {
                    lemma_choke_enc_parts(c);
                    lemma_be8_inverse(c.signature@.len() as u64);
                    assert(b@.subrange(48, 56) == be8(c.signature@.len() as u64));
                    assert(siglen == c.signature@.len());
                }
            }
        }
        return None;
    }
    let signature = get_bytes(b, 56, n - 56);
    let c = SignedChoke { height, round, from, signature };
    proof {
        lemma_be8_onto(b@.subrange(0, 8));
        lemma_be8_onto(b@.subrange(8, 16));
        lemma_be8_onto(b@.subrange(48, 56));
        assert(be8(c.signature@.len() as u64) =~= b@.subrange(48, 56));
        assert(choke_enc(c) =~= b@);
    }
    Some(c)
}

/// The view of a signer list as raw key strings.
pub open spec fn signer_views(s: Seq<Vec<u8>>) -> Seq<Seq<u8>> {
    s.map_values(|v: Vec<u8>| v@)
}

/// A quorum certificate is well formed when its hash has full width, its
/// signer keys do, and its aggregate signature fits the format.
pub open spec fn qc_wf(q: AggregatedVote) -> bool {
    &&& q.block_hash@.len() == 32
    &&& hashes_wf(signer_views(q.signers@))
    &&& q.signature@.len() <= MAX_SIG_LEN
}

/// The encoding of a quorum certificate.
pub open spec fn qc_enc(q: AggregatedVote) -> Seq<u8> {
    be8(q.height) + be8(q.round) + q.block_hash@ + hashes_enc(signer_views(q.signers@)) + be8(
        q.signature@.len() as u64,
    ) + q.signature@
}

/// Where each field of a quorum certificate stands inside its encoding.
pub proof fn lemma_qc_enc_parts(q: AggregatedVote)
    requires
        qc_wf(q),
    ensures
        qc_enc(q).len() == 64 + 32 * q.signers@.len() + q.signature@.len(),
        qc_enc(q).subrange(0, 8) == be8(q.height),
        qc_enc(q).subrange(8, 16) == be8(q.round),
        qc_enc(q).subrange(16, 48) == q.block_hash@,
        qc_enc(q).subrange(48, 56 + 32 * q.signers@.len() as int) == hashes_enc(signer_views(q.signers@)),
        qc_enc(q).subrange(48, 56) == be8(q.signers@.len() as u64),
        qc_enc(q).subrange(
            56 + 32 * q.signers@.len() as int,
            64 + 32 * q.signers@.len() as int,
        ) == be8(q.signature@.len() as u64),
        qc_enc(q).subrange(64 + 32 * q.signers@.len() as int, qc_enc(q).len() as int)
            == q.signature@,
{
    let k = q.signers@.len() as int;
    lemma_hashes_cat_len(signer_views(q.signers@));
    assert(qc_enc(q).subrange(0, 8) =~= be8(q.height));
    assert(qc_enc(q).subrange(8, 16) =~= be8(q.round));
    assert(qc_enc(q).subrange(16, 48) =~= q.block_hash@);
    assert(qc_enc(q).subrange(48, 56 + 32 * k) =~= hashes_enc(signer_views(q.signers@)));
    assert(qc_enc(q).subrange(48, 56) =~= be8(q.signers@.len() as u64));
    assert(qc_enc(q).subrange(56 + 32 * k, 64 + 32 * k) =~= be8(q.signature@.len() as u64));
    assert(qc_enc(q).subrange(64 + 32 * k, qc_enc(q).len() as int) =~= q.signature@);
}

/// Two well-formed quorum certificates with equal encodings are
/// field-for-field equal.
pub proof fn lemma_qc_enc_injective(a: AggregatedVote, b: AggregatedVote)
    requires
        qc_wf(a),
        qc_wf(b),
        qc_enc(a) == qc_enc(b),
    ensures
        a.height == b.height,
        a.round == b.round,
        a.block_hash@ == b.block_hash@,
        signer_views(a.signers@) == signer_views(b.signers@),
        a.signature@ == b.signature@,
{
    lemma_qc_enc_parts(a);
    lemma_qc_enc_parts(b);
    lemma_be8_inverse(a.height);
    lemma_be8_inverse(b.height);
    lemma_be8_inverse(a.round);
    lemma_be8_inverse(b.round);
    lemma_be8_inverse(a.signers@.len() as u64);
    lemma_be8_inverse(b.signers@.len() as u64);
    assert(a.signers@.len() == b.signers@.len());
    assert(hashes_cat(signer_views(a.signers@)) =~= qc_enc(a).subrange(
        56,
        56 + 32 * a.signers@.len() as int,
    ));
    assert(hashes_cat(signer_views(b.signers@)) =~= qc_enc(b).subrange(
        56,
        56 + 32 * b.signers@.len() as int,
    ));
    lemma_hashes_cat_injective(signer_views(a.signers@), signer_views(b.signers@));
}

/// Encodes a quorum certificate.
pub fn encode_qc(q: &AggregatedVote) -> (r: Vec<u8>)
    requires
        qc_wf(*q),
    ensures
        r@ == qc_enc(*q),
{
    let mut out: Vec<u8> = Vec::new();
    put_u64(&mut out, q.height);
    put_u64(&mut out, q.round);
    put_bytes(&mut out, &q.block_hash);
    put_hashes(&mut out, &q.signers);
    put_u64(&mut out, q.signature.len() as u64);
    put_bytes(&mut out, &q.signature);
    proof {
        assert(out@ =~= qc_enc(*q));
    }
    out
}

/// Decodes a quorum certificate; accepts exactly the encodings of well-formed
/// certificates.
#[verifier::rlimit(60)]
pub fn decode_qc(b: &Vec<u8>) -> (r: Option<AggregatedVote>)
    ensures
        match r {
            Some(q) => qc_wf(q) && qc_enc(q) == b@,
            None => forall|q: AggregatedVote| qc_wf(q) ==> qc_enc(q) != b@,
        },
{
    let n = b.len();
    if n < 64 {
        proof {
            assert forall|q: AggregatedVote| qc_wf(q) implies qc_enc(q) != b@ by {
                lemma_qc_enc_parts(q);
            }
        }
        return None;
    }
    let height = get_u64(b, 0);
    let round = get_u64(b, 8);
    let block_hash = get_bytes(b, 16, 32);
    let parsed = get_hashes(b, 48);
    match parsed {
        None => {
            proof {
                assert forall|q: AggregatedVote| qc_wf(q) implies qc_enc(q) != b@ by {
                    if qc_enc(q) == b@ {
                        lemma_qc_enc_parts(q);
                        let s = signer_views(q.signers@);
                        assert(48 + 8 + 32 * s.len() <= b@.len());
                        assert(hashes_enc(s) == b@.subrange(48, 48 + 8 + 32 * s.len() as int));
                    }
                }
            }
            None
        },
        Some((signers, off)) => {
            if off + 8 > n || (n - off - 8) as u64 != get_u64_checked(b, off, n) || n - off - 8
                > MAX_SIG_LEN {
                proof {
                    assert forall|q: AggregatedVote| qc_wf(q) implies qc_enc(q) != b@ by {
                        if qc_enc(q) == b@ {
                            lemma_qc_enc_parts(q);
                            let s = signer_views(q.signers@);
                            assert(hashes_enc(s).subrange(0, 8) =~= be8(q.signers@.len() as u64));
                            assert(b@.subrange(48, 56) =~= hashes_enc(
                                signer_views(signers@),
                            ).subrange(0, 8));
                            lemma_be8_inverse(q.signers@.len() as u64);
                            lemma_be8_inverse(signers@.len() as u64);
                            assert(q.signers@.len() == signers@.len());
                            assert(off == 56 + 32 * q.signers@.len());
                            lemma_be8_inverse(q.signature@.len() as u64);
                            assert(b@.subrange(off as int, off as int + 8) == be8(
                                q.signature@.len() as u64,
                            ));
                        }
                    }
                }
                None
            } else {
                let siglen = n - off - 8;
                let signature = get_bytes(b, off + 8, siglen);
                let q = AggregatedVote { height, round, block_hash, signers, signature };
                proof {
                    lemma_be8_onto(b@.subrange(0, 8));
                    lemma_be8_onto(b@.subrange(8, 16));
                    lemma_be8_onto(b@.subrange(off as int, off as int + 8));
                    assert(be8(q.signature@.len() as u64) =~= b@.subrange(
                        off as int,
                        off as int + 8,
                    ));
                    assert(qc_enc(q) =~= b@);
                }
                Some(q)
            }
        },
    }
}

/// A proposal is well formed when its keys and roots have full width, its
/// transaction list is, and its signature fits the format.
pub open spec fn proposal_wf(p: SignedProposal) -> bool {
    &&& p.proposer@.len() == 32
    &&& p.prev_hash@.len() == 32
    &&& p.state_root@.len() == 32
    &&& p.receipts_root@.len() == 32
    &&& hashes_wf(signer_views(p.tx_hashes@))
    &&& p.signature@.len() <= MAX_SIG_LEN
}

/// The encoding of a proposal.
pub open spec fn proposal_enc(p: SignedProposal) -> Seq<u8> {
    be8(p.height) + be8(p.round) + be8(p.gas_used) + be8(p.timestamp) + p.proposer@ + p.prev_hash@
        + p.state_root@ + p.receipts_root@ + hashes_enc(signer_views(p.tx_hashes@)) + be8(
        p.signature@.len() as u64,
    ) + p.signature@
}

/// Where each field of a proposal stands inside its encoding.
pub proof fn lemma_proposal_enc_parts(p: SignedProposal)
    requires
        proposal_wf(p),
    ensures
        proposal_enc(p).len() == 176 + 32 * p.tx_hashes@.len() + p.signature@.len(),
        proposal_enc(p).subrange(0, 8) == be8(p.height),
        proposal_enc(p).subrange(8, 16) == be8(p.round),
        proposal_enc(p).subrange(16, 24) == be8(p.gas_used),
        proposal_enc(p).subrange(24, 32) == be8(p.timestamp),
        proposal_enc(p).subrange(32, 64) == p.proposer@,
        proposal_enc(p).subrange(64, 96) == p.prev_hash@,
        proposal_enc(p).subrange(96, 128) == p.state_root@,
        proposal_enc(p).subrange(128, 160) == p.receipts_root@,
        proposal_enc(p).subrange(160, 168 + 32 * p.tx_hashes@.len() as int) == hashes_enc(
            signer_views(p.tx_hashes@),
        ),
        proposal_enc(p).subrange(160, 168) == be8(p.tx_hashes@.len() as u64),
        proposal_enc(p).subrange(
            168 + 32 * p.tx_hashes@.len() as int,
            176 + 32 * p.tx_hashes@.len() as int,
        ) == be8(p.signature@.len() as u64),
        proposal_enc(p).subrange(
            176 + 32 * p.tx_hashes@.len() as int,
            proposal_enc(p).len() as int,
        ) == p.signature@,
{
    let k = p.tx_hashes@.len() as int;
    lemma_hashes_cat_len(signer_views(p.tx_hashes@));
    assert(proposal_enc(p).subrange(0, 8) =~= be8(p.height));
    assert(proposal_enc(p).subrange(8, 16) =~= be8(p.round));
    assert(proposal_enc(p).subrange(16, 24) =~= be8(p.gas_used));
    assert(proposal_enc(p).subrange(24, 32) =~= be8(p.timestamp));
    assert(proposal_enc(p).subrange(32, 64) =~= p.proposer@);
    assert(proposal_enc(p).subrange(64, 96) =~= p.prev_hash@);
    assert(proposal_enc(p).subrange(96, 128) =~= p.state_root@);
    assert(proposal_enc(p).subrange(128, 160) =~= p.receipts_root@);
    assert(proposal_enc(p).subrange(160, 168 + 32 * k) =~= hashes_enc(signer_views(p.tx_hashes@)));
    assert(proposal_enc(p).subrange(160, 168) =~= be8(p.tx_hashes@.len() as u64));
    assert(proposal_enc(p).subrange(168 + 32 * k, 176 + 32 * k) =~= be8(
        p.signature@.len() as u64,
    ));
    assert(proposal_enc(p).subrange(176 + 32 * k, proposal_enc(p).len() as int) =~= p.signature@);
}

/// Two well-formed proposals with equal encodings are field-for-field equal.
pub proof fn lemma_proposal_enc_injective(a: SignedProposal, b: SignedProposal)
    requires
        proposal_wf(a),
        proposal_wf(b),
        proposal_enc(a) == proposal_enc(b),
    ensures
        a.height == b.height,
        a.round == b.round,
        a.gas_used == b.gas_used,
        a.timestamp == b.timestamp,
        a.proposer@ == b.proposer@,
        a.prev_hash@ == b.prev_hash@,
        a.state_root@ == b.state_root@,
        a.receipts_root@ == b.receipts_root@,
        signer_views(a.tx_hashes@) == signer_views(b.tx_hashes@),
        a.signature@ == b.signature@,
{
    lemma_proposal_enc_parts(a);
    lemma_proposal_enc_parts(b);
    lemma_be8_inverse(a.height);
    lemma_be8_inverse(b.height);
    lemma_be8_inverse(a.round);
    lemma_be8_inverse(b.round);
    lemma_be8_inverse(a.gas_used);
    lemma_be8_inverse(b.gas_used);
    lemma_be8_inverse(a.timestamp);
    lemma_be8_inverse(b.timestamp);
    lemma_be8_inverse(a.tx_hashes@.len() as u64);
    lemma_be8_inverse(b.tx_hashes@.len() as u64);
    assert(a.tx_hashes@.len() == b.tx_hashes@.len());
    assert(hashes_cat(signer_views(a.tx_hashes@)) =~= proposal_enc(a).subrange(
        168,
        168 + 32 * a.tx_hashes@.len() as int,
    ));
    assert(hashes_cat(signer_views(b.tx_hashes@)) =~= proposal_enc(b).subrange(
        168,
        168 + 32 * b.tx_hashes@.len() as int,
    ));
    lemma_hashes_cat_injective(signer_views(a.tx_hashes@), signer_views(b.tx_hashes@));
}

/// Encodes a proposal.
pub fn encode_proposal(p: &SignedProposal) -> (r: Vec<u8>)
    requires
        proposal_wf(*p),
    ensures
        r@ == proposal_enc(*p),
{
    let mut out: Vec<u8> = Vec::new();
    put_u64(&mut out, p.height);
    put_u64(&mut out, p.round);
    put_u64(&mut out, p.gas_used);
    put_u64(&mut out, p.timestamp);
    put_bytes(&mut out, &p.proposer);
    put_bytes(&mut out, &p.prev_hash);
    put_bytes(&mut out, &p.state_root);
    put_bytes(&mut out, &p.receipts_root);
    put_hashes(&mut out, &p.tx_hashes);
    put_u64(&mut out, p.signature.len() as u64);
    put_bytes(&mut out, &p.signature);
    proof {
        assert(out@ =~= proposal_enc(*p));
    }
    out
}

/// Decodes a proposal; accepts exactly the encodings of well-formed
/// proposals.
#[verifier::rlimit(60)]
pub fn decode_proposal(b: &Vec<u8>) -> (r: Option<SignedProposal>)
    ensures
        match r {
            Some(p) => proposal_wf(p) && proposal_enc(p) == b@,
            None => forall|p: SignedProposal| proposal_wf(p) ==> proposal_enc(p) != b@,
        },
{
    let n = b.len();
    if n < 176 {
        proof {
            assert forall|p: SignedProposal| proposal_wf(p) implies proposal_enc(p) != b@ by {
                lemma_proposal_enc_parts(p);
            }
        }
        return None;
    }
    let height = get_u64(b, 0);
    let round = get_u64(b, 8);
    let gas_used = get_u64(b, 16);
    let timestamp = get_u64(b, 24);
    let proposer = get_bytes(b, 32, 32);
    let prev_hash = get_bytes(b, 64, 32);
    let state_root = get_bytes(b, 96, 32);
    let receipts_root = get_bytes(b, 128, 32);
    let parsed = get_hashes(b, 160);
    match parsed {
        None => {
            proof {
                assert forall|p: SignedProposal| proposal_wf(p) implies proposal_enc(p) != b@ by {
                    if proposal_enc(p) == b@ {
                        lemma_proposal_enc_parts(p);
                        let s = signer_views(p.tx_hashes@);
                        assert(160 + 8 + 32 * s.len() <= b@.len());
                        assert(hashes_enc(s) == b@.subrange(160, 160 + 8 + 32 * s.len() as int));
                    }
                }
            }
            None
        },
        Some((tx_hashes, off)) => {
            if off + 8 > n || (n - off - 8) as u64 != get_u64_checked(b, off, n) || n - off - 8
                > MAX_SIG_LEN {
                proof {
                    assert forall|p: SignedProposal| proposal_wf(p) implies proposal_enc(p)
                        != b@ by {
                        if proposal_enc(p) == b@ {
                            lemma_proposal_enc_parts(p);
                            let s = signer_views(p.tx_hashes@);
                            assert(hashes_enc(s).subrange(0, 8) =~= be8(
                                p.tx_hashes@.len() as u64,
                            ));
                            assert(b@.subrange(160, 168) =~= hashes_enc(
                                signer_views(tx_hashes@),
                            ).subrange(0, 8));
                            lemma_be8_inverse(p.tx_hashes@.len() as u64);
                            lemma_be8_inverse(tx_hashes@.len() as u64);
                            assert(p.tx_hashes@.len() == tx_hashes@.len());
                            assert(off == 168 + 32 * p.tx_hashes@.len());
                            lemma_be8_inverse(p.signature@.len() as u64);
                            assert(b@.subrange(off as int, off as int + 8) == be8(
                                p.signature@.len() as u64,
                            ));
                        }
                    }
                }
                None
            } else {
                let siglen = n - off - 8;
                let signature = get_bytes(b, off + 8, siglen);
                let p = SignedProposal {
                    height,
                    round,
                    gas_used,
                    timestamp,
                    proposer,
                    prev_hash,
                    state_root,
                    receipts_root,
                    tx_hashes,
                    signature,
                };
                proof {
                    lemma_be8_onto(b@.subrange(0, 8));
                    lemma_be8_onto(b@.subrange(8, 16));
                    lemma_be8_onto(b@.subrange(16, 24));
                    lemma_be8_onto(b@.subrange(24, 32));
                    lemma_be8_onto(b@.subrange(off as int, off as int + 8));
                    assert(be8(p.signature@.len() as u64) =~= b@.subrange(
                        off as int,
                        off as int + 8,
                    ));
                    assert(proposal_enc(p) =~= b@);
                }
                Some(p)
            }
        },
    }
}

/// Reads the 8-byte integer at `off` when it fits, zero otherwise; a helper
/// for bounds-checked parsing.
fn get_u64_checked(b: &Vec<u8>, off: usize, n: usize) -> (r: u64)
    requires
        n == b@.len(),
    ensures
        off + 8 <= b@.len() ==> r == u64_of_be(b@.subrange(off as int, off as int + 8)),
{
    if n >= 8 && off <= n - 8 {
        get_u64(b, off)
    } else {
        0
    }
}


/// One inbound consensus wire message, tagged by kind.
pub enum ConsensusMessage {
    Proposal(SignedProposal),
    Vote(SignedVote),
    Qc(AggregatedVote),
    Choke(SignedChoke),
}

/// Well-formedness of a tagged message.
pub open spec fn msg_wf(m: ConsensusMessage) -> bool {
    match m {
        ConsensusMessage::Proposal(p) => proposal_wf(p),
        ConsensusMessage::Vote(v) => vote_wf(v),
        ConsensusMessage::Qc(q) => qc_wf(q),
        ConsensusMessage::Choke(c) => choke_wf(c),
    }
}

/// The tag byte of a message kind.
pub open spec fn msg_tag(m: ConsensusMessage) -> u8 {
    match m {
        ConsensusMessage::Proposal(_) => 1,
        ConsensusMessage::Vote(_) => 2,
        ConsensusMessage::Qc(_) => 3,
        ConsensusMessage::Choke(_) => 4,
    }
}

/// The encoding of a tagged message: its tag byte, then the message.
pub open spec fn msg_enc(m: ConsensusMessage) -> Seq<u8> {
    seq![msg_tag(m)] + (match m {
        ConsensusMessage::Proposal(p) => proposal_enc(p),
        ConsensusMessage::Vote(v) => vote_enc(v),
        ConsensusMessage::Qc(q) => qc_enc(q),
        ConsensusMessage::Choke(c) => choke_enc(c),
    })
}

impl ConsensusMessage {
    /// The height the message speaks of.
    pub fn get_height(&self) -> (r: u64)
        ensures
            r == self.spec_height(),
    {
        match self {
            ConsensusMessage::Proposal(p) => p.height,
            ConsensusMessage::Vote(v) => v.height,
            ConsensusMessage::Qc(q) => q.height,
            ConsensusMessage::Choke(c) => c.height,
        }
    }

    /// The round the message speaks of.
    pub fn get_round(&self) -> (r: u64)
        ensures
            r == self.spec_round(),
    {
        match self {
            ConsensusMessage::Proposal(p) => p.round,
            ConsensusMessage::Vote(v) => v.round,
            ConsensusMessage::Qc(q) => q.round,
            ConsensusMessage::Choke(c) => c.round,
        }
    }

    /// The height field, at the spec level.
    pub open spec fn spec_height(&self) -> u64 {
        match self {
            ConsensusMessage::Proposal(p) => p.height,
            ConsensusMessage::Vote(v) => v.height,
            ConsensusMessage::Qc(q) => q.height,
            ConsensusMessage::Choke(c) => c.height,
        }
    }

    /// The round field, at the spec level.
    pub open spec fn spec_round(&self) -> u64 {
        match self {
            ConsensusMessage::Proposal(p) => p.round,
            ConsensusMessage::Vote(v) => v.round,
            ConsensusMessage::Qc(q) => q.round,
            ConsensusMessage::Choke(c) => c.round,
        }
    }
}

/// Encodes a tagged message.
pub fn encode_message(m: &ConsensusMessage) -> (r: Vec<u8>)
    requires
        msg_wf(*m),
    ensures
        r@ == msg_enc(*m),
{
    let mut out: Vec<u8> = Vec::new();
    match m {
        ConsensusMessage::Proposal(p) => {
            out.push(1);
            let body = encode_proposal(p);
            put_bytes(&mut out, &body);
        },
        ConsensusMessage::Vote(v) => {
            out.push(2);
            let body = encode_vote(v);
            put_bytes(&mut out, &body);
        },
        ConsensusMessage::Qc(q) => {
            out.push(3);
            let body = encode_qc(q);
            put_bytes(&mut out, &body);
        },
        ConsensusMessage::Choke(c) => {
            out.push(4);
            let body = encode_choke(c);
            put_bytes(&mut out, &body);
        },
    }
    proof {
        assert(out@ =~= msg_enc(*m));
    }
    out
}

/// Decodes a tagged message; accepts exactly the encodings of well-formed
/// messages.
pub fn decode_message(b: &Vec<u8>) -> (r: Option<ConsensusMessage>)
    ensures
        match r {
            Some(m) => msg_wf(m) && msg_enc(m) == b@,
            None => forall|m: ConsensusMessage| msg_wf(m) ==> msg_enc(m) != b@,
        },
{
    let n = b.len();
    if n < 1 {
        proof {
            assert forall|m: ConsensusMessage| msg_wf(m) implies msg_enc(m) != b@ by {
                assert(msg_enc(m).len() >= 1);
            }
        }
        return None;
    }
    let tag = b[0];
    let body = crate::bytesutil::get_bytes(b, 1, n - 1);
    proof {
        assert(b@ =~= seq![b@[0]] + body@);
    }
    if tag == 1 {
        match decode_proposal(&body) {
            Some(p) => {
                proof {
                    assert(msg_enc(ConsensusMessage::Proposal(p)) =~= b@);
                }
                Some(ConsensusMessage::Proposal(p))
            },
            None => {
                proof {
                    assert forall|m: ConsensusMessage| msg_wf(m) implies msg_enc(m) != b@ by {
                        if msg_enc(m) == b@ {
                            assert(msg_enc(m)[0] == msg_tag(m));
                            assert(msg_tag(m) == 1);
                            if let ConsensusMessage::Proposal(p) = m {
                                assert(proposal_enc(p) =~= body@);
                            }
                        }
                    }
                }
                None
            },
        }
    } else if tag == 2 {
        match decode_vote(&body) {
            Some(v) => {
                proof {
                    assert(msg_enc(ConsensusMessage::Vote(v)) =~= b@);
                }
                Some(ConsensusMessage::Vote(v))
            },
            None => {
                proof {
                    assert forall|m: ConsensusMessage| msg_wf(m) implies msg_enc(m) != b@ by {
                        if msg_enc(m) == b@ {
                            assert(msg_enc(m)[0] == msg_tag(m));
                            assert(msg_tag(m) == 2);
                            if let ConsensusMessage::Vote(v) = m {
                                assert(vote_enc(v) =~= body@);
                            }
                        }
                    }
                }
                None
            },
        }
    } else if tag == 3 {
        match decode_qc(&body) {
            Some(q) => {
                proof {
                    assert(msg_enc(ConsensusMessage::Qc(q)) =~= b@);
                }
                Some(ConsensusMessage::Qc(q))
            },
            None => {
                proof {
                    assert forall|m: ConsensusMessage| msg_wf(m) implies msg_enc(m) != b@ by {
                        if msg_enc(m) == b@ {
                            assert(msg_enc(m)[0] == msg_tag(m));
                            assert(msg_tag(m) == 3);
                            if let ConsensusMessage::Qc(q) = m {
                                assert(qc_enc(q) =~= body@);
                            }
                        }
                    }
                }
                None
            },
        }
    } else if tag == 4 {
        match decode_choke(&body) {
            Some(c) => {
                proof {
                    assert(msg_enc(ConsensusMessage::Choke(c)) =~= b@);
                }
                Some(ConsensusMessage::Choke(c))
            },
            None => {
                proof {
                    assert forall|m: ConsensusMessage| msg_wf(m) implies msg_enc(m) != b@ by {
                        if msg_enc(m) == b@ {
                            assert(msg_enc(m)[0] == msg_tag(m));
                            assert(msg_tag(m) == 4);
                            if let ConsensusMessage::Choke(c) = m {
                                assert(choke_enc(c) =~= body@);
                            }
                        }
                    }
                }
                None
            },
        }
    } else {
        proof {
            assert forall|m: ConsensusMessage| msg_wf(m) implies msg_enc(m) != b@ by {
                if msg_enc(m) == b@ {
                    assert(msg_enc(m)[0] == msg_tag(m));
                }
            }
        }
        None
    }
}

} // verus!
