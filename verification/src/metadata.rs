//! The metadata system contract and its epoch store. Metadata is appended
//! only; the epochs partition the height axis with no gaps or overlaps, so
//! the verifier list lookup at any height finds at most one epoch. A small
//! least-recently-used cache sits in front of the store; the store's
//! invariant says the cache never disagrees with the list behind it. Writes
//! are guarded: past the genesis block only a current validator may append.

use crate::bytesutil::{
    be8, get_bytes, get_u64, lemma_be8_inverse, lemma_be8_onto, put_bytes, put_u64,
};
use crate::executor::{metadata_address, ExecutorAdapter};
use crate::hashing::keccak256;
use crate::types::{Metadata, SignedTransaction, TxResp, ValidatorExtend, H160};
use vstd::prelude::*;

verus! {

/// How many epochs the cache holds.
pub const METADATA_CACHE_SIZE: usize = 10;

/// Largest accepted verifier list.
pub const MAX_VERIFIER_LIST_LEN: usize = 0xFFFF;

#[verifier::external_type_specification]
#[verifier::external_body]
#[verifier::reject_recursive_types(K)]
#[verifier::reject_recursive_types(V)]
#[verifier::reject_recursive_types(S)]
pub struct ExLruCache<K, V, S>(lru::LruCache<K, V, S>);

/// The cache type: epoch number to position in the backing list.
pub type EpochCache = lru::LruCache<u64, u64, std::collections::hash_map::RandomState>;

/// What the cache holds: a map from epoch number to the epoch's position in
/// the backing list.
pub uninterp spec fn lru_view(c: EpochCache) -> Map<u64, u64>;

/// Relies on lru::LruCache::with_hasher: a fresh cache holds nothing.
#[verifier::external_body]
fn lru_new(cap: usize) -> (r: EpochCache)
    requires
        cap >= 1,
    ensures
        forall|k: u64| !lru_view(r).contains_key(k),
{
    lru::LruCache::with_hasher(
        std::num::NonZeroUsize::new(cap).unwrap(),
        std::collections::hash_map::RandomState::new(),
    )
}

/// Relies on lru::LruCache::put: afterwards the key maps to the value, and
/// everything else the cache still holds it held before; eviction only
/// removes entries.
#[verifier::external_body]
fn lru_put(c: &mut EpochCache, k: u64, v: u64)
    ensures
        lru_view(*final(c)).contains_pair(k, v),
        forall|e: u64| #![trigger lru_view(*final(c)).dom().contains(e)]
            lru_view(*final(c)).dom().contains(e) ==> (e == k && lru_view(*final(c))[e] == v) || (
            lru_view(*old(c)).contains_key(e) && lru_view(*final(c))[e] == lru_view(*old(c))[e]),
{
    c.put(k, v);
}

/// Relies on lru::LruCache::get: returns exactly what the cache holds for the
/// key; it only refreshes recency, the contents stay as they were.
#[verifier::external_body]
fn lru_get(c: &mut EpochCache, k: u64) -> (r: Option<u64>)
    ensures
        lru_view(*final(c)) == lru_view(*old(c)),
        lru_view(*old(c)).contains_key(k) ==> r == Some(lru_view(*old(c))[k]),
        !lru_view(*old(c)).contains_key(k) ==> r is None,
{
    c.get(&k).copied()
}

/// The encoding of one verifier-list entry.
pub open spec fn vx_enc(v: ValidatorExtend) -> Seq<u8> {
    v.pub_key@ + v.address@ + be8(v.propose_weight) + be8(v.vote_weight)
}

/// The concatenation of a verifier list's entries, 68 bytes each.
pub open spec fn vx_cat(s: Seq<ValidatorExtend>) -> Seq<u8>
    decreases s.len(),
{
    if s.len() == 0 {
        Seq::empty()
    } else {
        vx_cat(s.drop_last()) + vx_enc(s.last())
    }
}

/// Well-formedness of a verifier list for the wire.
pub open spec fn vlist_wf(s: Seq<ValidatorExtend>) -> bool {
    &&& 0 < s.len() <= MAX_VERIFIER_LIST_LEN
    &&& forall|i: int| 0 <= i < s.len() ==> (#[trigger] s[i]).wf()
}

/// A well-formed verifier list's concatenation is 68 bytes per entry.
pub proof fn lemma_vx_cat_len(s: Seq<ValidatorExtend>)
    requires
        forall|i: int| 0 <= i < s.len() ==> (#[trigger] s[i]).wf(),
    ensures
        vx_cat(s).len() == 68 * s.len(),
    decreases s.len(),
{
    if s.len() > 0 {
        lemma_vx_cat_len(s.drop_last());
    }
}

/// Whether a metadata record fits the wire format.
pub open spec fn metadata_bounded(m: Metadata) -> bool {
    vlist_wf(m.verifier_list@)
}

/// The encoding of a metadata record: eight fixed-width fields, then the
/// verifier list with its count.
pub open spec fn metadata_enc(m: Metadata) -> Seq<u8> {
    be8(m.epoch) + be8(m.version_start) + be8(m.version_end) + be8(m.interval) + be8(
        m.propose_ratio,
    ) + be8(m.prevote_ratio) + be8(m.precommit_ratio) + be8(m.brake_ratio) + be8(
        m.verifier_list@.len() as u64,
    ) + vx_cat(m.verifier_list@)
}

/// Where each field of a metadata record stands inside its encoding.
pub proof fn lemma_metadata_enc_parts(m: Metadata)
    requires
        metadata_bounded(m),
    ensures
        metadata_enc(m).len() == 72 + 68 * m.verifier_list@.len(),
        metadata_enc(m).subrange(0, 8) == be8(m.epoch),
        metadata_enc(m).subrange(8, 16) == be8(m.version_start),
        metadata_enc(m).subrange(16, 24) == be8(m.version_end),
        metadata_enc(m).subrange(24, 32) == be8(m.interval),
        metadata_enc(m).subrange(32, 40) == be8(m.propose_ratio),
        metadata_enc(m).subrange(40, 48) == be8(m.prevote_ratio),
        metadata_enc(m).subrange(48, 56) == be8(m.precommit_ratio),
        metadata_enc(m).subrange(56, 64) == be8(m.brake_ratio),
        metadata_enc(m).subrange(64, 72) == be8(m.verifier_list@.len() as u64),
        metadata_enc(m).subrange(72, metadata_enc(m).len() as int) == vx_cat(m.verifier_list@),
{
    lemma_vx_cat_len(m.verifier_list@);
    assert(metadata_enc(m).subrange(0, 8) =~= be8(m.epoch));
    assert(metadata_enc(m).subrange(8, 16) =~= be8(m.version_start));
    assert(metadata_enc(m).subrange(16, 24) =~= be8(m.version_end));
    assert(metadata_enc(m).subrange(24, 32) =~= be8(m.interval));
    assert(metadata_enc(m).subrange(32, 40) =~= be8(m.propose_ratio));
    assert(metadata_enc(m).subrange(40, 48) =~= be8(m.prevote_ratio));
    assert(metadata_enc(m).subrange(48, 56) =~= be8(m.precommit_ratio));
    assert(metadata_enc(m).subrange(56, 64) =~= be8(m.brake_ratio));
    assert(metadata_enc(m).subrange(64, 72) =~= be8(m.verifier_list@.len() as u64));
    assert(metadata_enc(m).subrange(72, metadata_enc(m).len() as int) =~= vx_cat(
        m.verifier_list@,
    ));
}

/// Encodes a metadata record.
pub fn encode_metadata(m: &Metadata) -> (r: Vec<u8>)
    requires
        metadata_bounded(*m),
    ensures
        r@ == metadata_enc(*m),
{
    let mut out: Vec<u8> = Vec::new();
    put_u64(&mut out, m.epoch);
    put_u64(&mut out, m.version_start);
    put_u64(&mut out, m.version_end);
    put_u64(&mut out, m.interval);
    put_u64(&mut out, m.propose_ratio);
    put_u64(&mut out, m.prevote_ratio);
    put_u64(&mut out, m.precommit_ratio);
    put_u64(&mut out, m.brake_ratio);
    put_u64(&mut out, m.verifier_list.len() as u64);
    let ghost vl = m.verifier_list@;
    let mut i: usize = 0;
    while i < m.verifier_list.len()
        invariant
            i <= vl.len(),
            vl == m.verifier_list@,
            vlist_wf(vl),
            out@ == metadata_enc(*m).subrange(0, 72) + vx_cat(vl.subrange(0, i as int)),
        decreases vl.len() - i,
    {
        let v = &m.verifier_list[i];
        put_bytes(&mut out, &v.pub_key);
        put_bytes(&mut out, &v.address.bytes);
        put_u64(&mut out, v.propose_weight);
        put_u64(&mut out, v.vote_weight);
        i = i + 1;
        proof {
            let pre = vl.subrange(0, i as int);
            assert(pre.drop_last() =~= vl.subrange(0, i as int - 1));
            assert(pre.last() == vl[i as int - 1]);
            assert(out@ =~= metadata_enc(*m).subrange(0, 72) + vx_cat(pre));
        }
    }
    proof {
        lemma_metadata_enc_parts(*m);
        assert(vl.subrange(0, vl.len() as int) =~= vl);
        assert(out@ =~= metadata_enc(*m));
    }
    out
}

/// Decodes a metadata record; accepts exactly the encodings of well-formed
/// records.
#[verifier::rlimit(100)]
pub fn decode_metadata(b: &Vec<u8>) -> (r: Option<Metadata>)
    ensures
        match r {
            Some(m) => metadata_bounded(m) && m.wf() && metadata_enc(m) == b@,
            None => forall|m: Metadata|
                metadata_bounded(m) && m.wf() ==> metadata_enc(m) != b@,
        },
{
    let n = b.len();
    if n < 72 {
        proof {
            assert forall|m: Metadata| metadata_bounded(m) && m.wf() implies metadata_enc(m)
                != b@ by {
                lemma_metadata_enc_parts(m);
            }
        }
        return None;
    }
    let epoch = get_u64(b, 0);
    let version_start = get_u64(b, 8);
    let version_end = get_u64(b, 16);
    let interval = get_u64(b, 24);
    let propose_ratio = get_u64(b, 32);
    let prevote_ratio = get_u64(b, 40);
    let precommit_ratio = get_u64(b, 48);
    let brake_ratio = get_u64(b, 56);
    let count = get_u64(b, 64);
    if count == 0 || count > MAX_VERIFIER_LIST_LEN as u64 || (count as usize) != (n - 72) / 68 || (
    n - 72) % 68 != 0 || version_start > version_end {
        proof {
            assert forall|m: Metadata| metadata_bounded(m) && m.wf() implies metadata_enc(m)
                != b@ by {
                if metadata_enc(m) == b@ {
                    lemma_metadata_enc_parts(m);
                    lemma_be8_inverse(m.verifier_list@.len() as u64);
                    lemma_be8_inverse(m.version_start);
                    lemma_be8_inverse(m.version_end);
                    assert(b@.subrange(64, 72) == be8(m.verifier_list@.len() as u64));
                    assert(count == m.verifier_list@.len());
                    assert(b@.subrange(8, 16) == be8(m.version_start));
                    assert(b@.subrange(16, 24) == be8(m.version_end));
                    assert(version_start == m.version_start);
                    assert(version_end == m.version_end);
                    assert(n == 72 + 68 * m.verifier_list@.len());
                }
            }
        }
        return None;
    }
    let count = count as usize;
    let mut verifier_list: Vec<ValidatorExtend> = Vec::new();
    let mut j: usize = 0;
    while j < count
        invariant
            j <= count,
            0 < count <= MAX_VERIFIER_LIST_LEN,
            72 + 68 * count == b@.len(),
            b@.len() <= usize::MAX,
            verifier_list@.len() == j,
            forall|k: int| 0 <= k < j ==> (#[trigger] verifier_list@[k]).wf(),
            vx_cat(verifier_list@) == b@.subrange(72, 72 + 68 * j),
        decreases count - j,
    {
        let ghost prev = verifier_list@;
        let base = 72 + 68 * j;
        let pub_key = get_bytes(b, base, 32);
        let addr_bytes = get_bytes(b, base + 32, 20);
        let propose_weight = get_u64(b, base + 52);
        let vote_weight = get_u64(b, base + 60);
        let v = ValidatorExtend {
            pub_key,
            address: H160 { bytes: addr_bytes },
            propose_weight,
            vote_weight,
        };
        proof {
            lemma_be8_onto(b@.subrange(base as int + 52, base as int + 60));
            lemma_be8_onto(b@.subrange(base as int + 60, base as int + 68));
            assert(vx_enc(v) =~= b@.subrange(base as int, base as int + 68));
        }
        verifier_list.push(v);
        j = j + 1;
        proof {
            let cur = verifier_list@;
            assert(cur.drop_last() =~= prev);
            assert(cur.last() == v);
            assert(b@.subrange(72, 72 + 68 * j) =~= b@.subrange(72, 72 + 68 * (j - 1))
                + b@.subrange(72 + 68 * (j - 1), 72 + 68 * j));
        }
    }
    let m = Metadata {
        epoch,
        version_start,
        version_end,
        interval,
        propose_ratio,
        prevote_ratio,
        precommit_ratio,
        brake_ratio,
        verifier_list,
    };
    proof {
        lemma_be8_onto(b@.subrange(0, 8));
        lemma_be8_onto(b@.subrange(8, 16));
        lemma_be8_onto(b@.subrange(16, 24));
        lemma_be8_onto(b@.subrange(24, 32));
        lemma_be8_onto(b@.subrange(32, 40));
        lemma_be8_onto(b@.subrange(40, 48));
        lemma_be8_onto(b@.subrange(48, 56));
        lemma_be8_onto(b@.subrange(56, 64));
        lemma_be8_onto(b@.subrange(64, 72));
        assert(be8(m.verifier_list@.len() as u64) =~= b@.subrange(64, 72));
        assert(metadata_enc(m) =~= b@);
    }
    Some(m)
}

/// The selector of the one method the metadata contract accepts.
pub open spec fn append_selector() -> Seq<u8> {
    seq![0xafu8, 0x6eu8, 0x3au8, 0x21u8]
}

/// The calldata of an append call: the selector, then the record.
pub open spec fn append_call_enc(m: Metadata) -> Seq<u8> {
    append_selector() + metadata_enc(m)
}

/// Builds the calldata of an append call.
pub fn encode_append_call(m: &Metadata) -> (r: Vec<u8>)
    requires
        metadata_bounded(*m),
    ensures
        r@ == append_call_enc(*m),
{
    let mut out: Vec<u8> = Vec::new();
    out.push(0xaf);
    out.push(0x6e);
    out.push(0x3a);
    out.push(0x21);
    let body = encode_metadata(m);
    put_bytes(&mut out, &body);
    proof {
        assert(out@ =~= append_call_enc(*m));
    }
    out
}

/// Decodes calldata as an append call; accepts exactly the calldata that
/// [`encode_append_call`] produces for a well-formed record. Any other
/// selector, and any malformed body, is rejected.
pub fn decode_append_call(b: &Vec<u8>) -> (r: Option<Metadata>)
    ensures
        match r {
            Some(m) => metadata_bounded(m) && m.wf() && append_call_enc(m) == b@,
            None => forall|m: Metadata|
                metadata_bounded(m) && m.wf() ==> append_call_enc(m) != b@,
        },
{
    let n = b.len();
    if n < 4 || b[0] != 0xaf || b[1] != 0x6e || b[2] != 0x3a || b[3] != 0x21 {
        proof {
            assert forall|m: Metadata| metadata_bounded(m) && m.wf() implies append_call_enc(m)
                != b@ by {
                if append_call_enc(m) == b@ {
                    assert(b@[0] == 0xaf && b@[1] == 0x6e && b@[2] == 0x3a && b@[3] == 0x21);
                }
            }
        }
        return None;
    }
    let body = get_bytes(b, 4, n - 4);
    proof {
        assert(b@ =~= append_selector() + body@);
    }
    match decode_metadata(&body) {
        Some(m) => {
            proof {
                assert(append_call_enc(m) =~= b@);
            }
            Some(m)
        },
        None => {
            proof {
                assert forall|m: Metadata| metadata_bounded(m) && m.wf() implies append_call_enc(
                    m,
                ) != b@ by {
                    if append_call_enc(m) == b@ {
                        assert(metadata_enc(m) =~= body@);
                    }
                }
            }
            None
        },
    }
}

/// Why an append was refused.
#[derive(Debug)]
pub enum MetadataError {
    WrongEpoch,
    Discontinuous,
    OutOfRange,
}

/// The concatenated encodings of every record the store holds: the preimage
/// of the store's commitment root.
pub open spec fn store_enc(list: Seq<Metadata>) -> Seq<u8>
    decreases list.len(),
{
    if list.len() == 0 {
        Seq::empty()
    } else {
        store_enc(list.drop_last()) + metadata_enc(list.last())
    }
}

/// The height the next appended epoch must start at.
pub open spec fn next_start(list: Seq<Metadata>) -> int {
    if list.len() == 0 {
        0
    } else {
        list.last().version_end + 1
    }
}

/// Well-formedness of the epoch list: every record well formed and bounded,
/// epoch numbers equal to positions, and height ranges contiguous from zero.
pub open spec fn epoch_list_wf(list: Seq<Metadata>) -> bool {
    &&& forall|i: int|
        0 <= i < list.len() ==> (#[trigger] list[i]).wf() && metadata_bounded(list[i])
    &&& forall|i: int| 0 <= i < list.len() ==> (#[trigger] list[i]).epoch == i
    &&& list.len() > 0 ==> list[0].version_start == 0
    &&& forall|i: int|
        1 <= i < list.len() ==> (#[trigger] list[i]).version_start == list[i - 1].version_end + 1
}

/// Whether the address is in the verifier list of the epoch containing the
/// height.
pub open spec fn is_validator_spec(list: Seq<Metadata>, h: u64, who: Seq<u8>) -> bool {
    exists|i: int|
        0 <= i < list.len() && (#[trigger] list[i]).spec_contains_height(h) && sender_in_epoch(
            list[i],
            who,
        )
}

/// Whether some epoch of the list contains the height at all.
pub open spec fn some_epoch_contains(list: Seq<Metadata>, h: u64) -> bool {
    exists|i: int| 0 <= i < list.len() && (#[trigger] list[i]).spec_contains_height(h)
}

/// Whether the address is in one record's verifier list.
pub open spec fn sender_in_epoch(m: Metadata, who: Seq<u8>) -> bool {
    exists|k: int| 0 <= k < m.verifier_list@.len() && (#[trigger] m.verifier_list@[k]).address@
        == who
}

/// Metadata monotonicity: in a well-formed epoch list an earlier epoch ends
/// strictly before a later epoch starts; appended epochs never overlap.
pub proof fn lemma_epoch_partition(list: Seq<Metadata>, i: int, j: int)
    requires
        epoch_list_wf(list),
        0 <= i < j < list.len(),
    ensures
        list[i].version_end < list[j].version_start,
    decreases j - i,
{
    if j == i + 1 {
    } else {
        lemma_epoch_partition(list, i, j - 1);
        assert(list[j - 1].version_end >= list[j - 1].version_start);
    }
}

/// Metadata monotonicity, second half: a height determines its epoch
/// uniquely.
pub proof fn lemma_epoch_unique(list: Seq<Metadata>, h: u64, i: int, j: int)
    requires
        epoch_list_wf(list),
        0 <= i < list.len(),
        0 <= j < list.len(),
        list[i].spec_contains_height(h),
        list[j].spec_contains_height(h),
    ensures
        i == j,
{
    if i < j {
        lemma_epoch_partition(list, i, j);
    }
    if j < i {
        lemma_epoch_partition(list, j, i);
    }
}

/// The append-only epoch store with its read cache.
pub struct MetadataStore {
    pub list: Vec<Metadata>,
    pub cache: EpochCache,
}

impl MetadataStore {
    /// The store is well formed when its list is and its cache agrees with
    /// the list: a cached position always holds the epoch it claims.
    pub open spec fn wf(&self) -> bool {
        &&& epoch_list_wf(self.list@)
        &&& forall|e: u64|
            lru_view(self.cache).contains_key(e) ==> #[trigger] lru_view(self.cache)[e]
                < self.list@.len() && lru_view(self.cache)[e] == e
    }

    /// A fresh, empty store.
    pub fn new() -> (r: MetadataStore)
        ensures
            r.wf(),
            r.list@.len() == 0,
    {
        MetadataStore { list: Vec::new(), cache: lru_new(METADATA_CACHE_SIZE) }
    }

    /// Appends one epoch's metadata. Accepted exactly when the record is
    /// well formed, numbered as the next epoch, and starts right after the
    /// stored range ends.
    pub fn append_metadata(&mut self, m: Metadata) -> (r: Result<(), MetadataError>)
        requires
            old(self).wf(),
            m.wf(),
            metadata_bounded(m),
        ensures
            final(self).wf(),
            r is Ok ==> final(self).list@ == old(self).list@.push(m),
            r is Err ==> final(self).list@ == old(self).list@,
            r is Ok <==> (old(self).list@.len() < u64::MAX && m.epoch == old(self).list@.len()
                && m.version_start == next_start(old(self).list@)),
    {
        if self.list.len() as u64 >= u64::MAX {
            return Err(MetadataError::OutOfRange);
        }
        if m.epoch != self.list.len() as u64 {
            return Err(MetadataError::WrongEpoch);
        }
        if self.list.len() == 0 {
            if m.version_start != 0 {
                return Err(MetadataError::Discontinuous);
            }
        } else {
            let last_end = self.list[self.list.len() - 1].version_end;
            if last_end == u64::MAX || m.version_start != last_end + 1 {
                return Err(MetadataError::Discontinuous);
            }
        }
        let ghost before = self.list@;
        let ghost before_cache = lru_view(self.cache);
        let epoch = m.epoch;
        self.list.push(m);
        lru_put(&mut self.cache, epoch, epoch);
        proof {
            let l = self.list@;
            assert(l.drop_last() =~= before);
            assert(l.last() == m);
            assert forall|i: int|
                0 <= i < l.len() implies (#[trigger] l[i]).wf() && metadata_bounded(l[i])
                && l[i].epoch == i by {
                if i < l.len() - 1 {
                    assert(l[i] == before[i]);
                }
            }
            assert forall|i: int|
                1 <= i < l.len() implies (#[trigger] l[i]).version_start == l[i - 1].version_end
                + 1 by {
                if i < l.len() - 1 {
                    assert(l[i] == before[i]);
                    assert(l[i - 1] == before[i - 1]);
                } else {
                    assert(l[i - 1] == before[i - 1]);
                }
            }
            assert(epoch_list_wf(l));
            let cv = lru_view(self.cache);
            assert forall|e: u64|
                cv.contains_key(e) implies #[trigger] cv[e] < l.len() && cv[e] == e by {
                assert(lru_view(self.cache).dom().contains(e));
                assert((e == epoch && lru_view(self.cache)[e] == epoch) || (
                before_cache.contains_key(e) && lru_view(self.cache)[e] == before_cache[e]));
            }
        }
        Ok(())
    }

    /// Finds the position of the epoch containing a height by scanning the
    /// contiguous ranges.
    pub fn epoch_for_height(&self, h: u64) -> (r: Option<usize>)
        requires
            self.wf(),
        ensures
            match r {
                Some(i) => i < self.list@.len() && self.list@[i as int].spec_contains_height(h),
                None => !some_epoch_contains(self.list@, h),
            },
    {
        let mut i: usize = 0;
        while i < self.list.len()
            invariant
                i <= self.list@.len(),
                self.wf(),
                forall|k: int|
                    0 <= k < i ==> !(#[trigger] self.list@[k]).spec_contains_height(h),
            decreases self.list@.len() - i,
        {
            if self.list[i].contains_height(h) {
                return Some(i);
            }
            i = i + 1;
        }
        None
    }

    /// Reads an epoch's position through the cache; a miss falls through to
    /// the list and refills the cache. What the cache serves always equals
    /// what the list holds.
    pub fn get_epoch_index(&mut self, epoch: u64) -> (r: Option<u64>)
        requires
            old(self).wf(),
        ensures
            final(self).wf(),
            final(self).list@ == old(self).list@,
            r == if epoch < old(self).list@.len() {
                Some(epoch)
            } else {
                None::<u64>
            },
    {
        let ghost before_cache = lru_view(self.cache);
        let hit = lru_get(&mut self.cache, epoch);
        match hit {
            Some(ix) => {
                proof {
                    assert(before_cache.contains_key(epoch));
                    assert(before_cache[epoch] == epoch && before_cache[epoch]
                        < self.list@.len());
                }
                Some(ix)
            },
            None => {
                if epoch < self.list.len() as u64 {
                    lru_put(&mut self.cache, epoch, epoch);
                    proof {
                        let cv = lru_view(self.cache);
                        assert forall|e: u64|
                            cv.contains_key(e) implies #[trigger] cv[e] < self.list@.len()
                            && cv[e] == e by {
                            assert(lru_view(self.cache).dom().contains(e));
                            assert((e == epoch && lru_view(self.cache)[e] == epoch) || (
                            before_cache.contains_key(e) && lru_view(self.cache)[e]
                                == before_cache[e]));
                        }
                    }
                    Some(epoch)
                } else {
                    None
                }
            },
        }
    }

    /// Whether the sender is a verifier for the epoch containing the height.
    /// An error says no epoch covers the height.
    pub fn is_validator(&mut self, block_number: u64, sender: &H160) -> (r: Result<
        bool,
        MetadataError,
    >)
        requires
            old(self).wf(),
        ensures
            final(self).wf(),
            final(self).list@ == old(self).list@,
            match r {
                Ok(b) => b == is_validator_spec(old(self).list@, block_number, sender@),
                Err(_) => !some_epoch_contains(old(self).list@, block_number),
            },
    {
        let found = self.epoch_for_height(block_number);
        match found {
            None => {
                proof {
                    assert(!is_validator_spec(self.list@, block_number, sender@));
                }
                Err(MetadataError::OutOfRange)
            },
            Some(i) => {
                let cached = self.get_epoch_index(i as u64);
                proof {
                    assert(cached == Some(i as u64));
                }
                let md = &self.list[i];
                let mut k: usize = 0;
                let mut present = false;
                while k < md.verifier_list.len()
                    invariant
                        k <= md.verifier_list@.len(),
                        md == self.list@[i as int],
                        i < self.list@.len(),
                        present == exists|t: int|
                            0 <= t < k && (#[trigger] md.verifier_list@[t]).address@ == sender@,
                    decreases md.verifier_list@.len() - k,
                {
                    if md.verifier_list[k].address.equals(sender) {
                        present = true;
                    }
                    k = k + 1;
                }
                proof {
                    if present {
                        assert(sender_in_epoch(self.list@[i as int], sender@));
                        assert(is_validator_spec(self.list@, block_number, sender@));
                    } else {
                        if is_validator_spec(self.list@, block_number, sender@) {
                            let j = choose|j: int|
                                0 <= j < self.list@.len() && (
                                #[trigger] self.list@[j]).spec_contains_height(block_number)
                                    && sender_in_epoch(self.list@[j], sender@);
                            lemma_epoch_unique(self.list@, block_number, i as int, j);
                        }
                    }
                }
                Ok(present)
            },
        }
    }
}

/// A reverted system call: the whole gas limit is consumed.
pub fn revert_resp(gas_limit: u64) -> (r: TxResp)
    ensures
        !r.exit_succeed,
        r.gas_used == gas_limit,
        r.remain_gas == 0,
        r.fee_cost == 0,
        r.ret@.len() == 0,
        r.code_address is None,
{
    TxResp {
        exit_succeed: false,
        ret: Vec::new(),
        remain_gas: 0,
        gas_used: gas_limit,
        fee_cost: 0,
        logs: Vec::new(),
        code_address: None,
        removed: false,
    }
}

/// A successful system call: flat policy, the gas limit comes back as the
/// remaining gas.
pub fn succeed_resp(gas_limit: u64) -> (r: TxResp)
    ensures
        r.exit_succeed,
        r.gas_used == 0,
        r.remain_gas == gas_limit,
        r.fee_cost == 0,
        r.ret@.len() == 0,
        r.code_address is None,
{
    TxResp {
        exit_succeed: true,
        ret: Vec::new(),
        remain_gas: gas_limit,
        gas_used: 0,
        fee_cost: 0,
        logs: Vec::new(),
        code_address: None,
        removed: false,
    }
}

/// Whether a call to the metadata contract passes its write guard: the
/// genesis block bypasses the check, after that the sender must be a current
/// validator.
pub open spec fn metadata_guard_ok(list: Seq<Metadata>, block: u64, sender: Seq<u8>) -> bool {
    block == 0 || is_validator_spec(list, block, sender)
}

/// Whether an append is accepted against the stored epochs.
pub open spec fn append_accepted(list: Seq<Metadata>, m: Metadata) -> bool {
    list.len() < u64::MAX && m.epoch == list.len() && m.version_start == next_start(list)
}

/// The metadata system contract.
pub struct MetadataContract;

impl MetadataContract {
    /// Executes one call of the metadata contract: guard, decode, append.
    /// Only a validator of the epoch covering the current block may write
    /// (the genesis block excepted); only the append method is accepted, any
    /// other calldata reverts with the full gas limit consumed; an accepted
    /// append extends the store and re-roots the contract account.
    #[verifier::rlimit(100)]
    pub fn exec_<B: ExecutorAdapter>(
        &self,
        backend: &mut B,
        store: &mut MetadataStore,
        tx: &SignedTransaction,
    ) -> (r: TxResp)
        requires
            old(store).wf(),
            crate::tx::stx_wf(*tx),
        ensures
            final(store).wf(),
            !(r.exit_succeed) ==> final(store).list@ == old(store).list@ && final(backend).accounts() == old(backend).accounts(),
            !metadata_guard_ok(
                old(store).list@,
                old(backend).block_number_spec(),
                tx.sender@,
            ) ==> !r.exit_succeed && r.gas_used == tx.unsigned.gas_limit,
            r.exit_succeed ==> metadata_guard_ok(
                old(store).list@,
                old(backend).block_number_spec(),
                tx.sender@,
            ),
            r.exit_succeed ==> exists|m: Metadata|
                {
                    &&& #[trigger] append_call_enc(m) == tx.unsigned.data@
                    &&& append_accepted(old(store).list@, m)
                    &&& final(store).list@ == old(store).list@.push(m)
                },
            r.exit_succeed ==> r.remain_gas == tx.unsigned.gas_limit && r.gas_used == 0,
            !r.exit_succeed ==> r.gas_used == tx.unsigned.gas_limit && r.remain_gas == 0,
            (metadata_guard_ok(
                old(store).list@,
                old(backend).block_number_spec(),
                tx.sender@,
            ) && exists|m: Metadata|
                {
                    &&& #[trigger] append_call_enc(m) == tx.unsigned.data@
                    &&& metadata_bounded(m)
                    &&& m.wf()
                    &&& append_accepted(old(store).list@, m)
                }) ==> r.exit_succeed,
            r.exit_succeed ==> final(backend).accounts() == old(backend).accounts().insert(
                crate::executor::metadata_address_bytes(),
                final(backend).accounts()[crate::executor::metadata_address_bytes()],
            ) && final(backend).accounts()[crate::executor::metadata_address_bytes()].storage_root
                == crate::hashing::keccak_spec(store_enc(final(store).list@)),
            final(backend).block_number_spec() == old(backend).block_number_spec(),
    {
        let gas_limit = tx.unsigned.gas_limit;
        let block_number = backend.block_number();
        if block_number != 0 {
            let allowed = store.is_validator(block_number, &tx.sender);
            match allowed {
                Ok(true) => {},
                _ => {
                    return revert_resp(gas_limit);
                },
            }
        }
        let decoded = decode_append_call(&tx.unsigned.data);
        let m = match decoded {
            Some(m) => m,
            None => {
                return revert_resp(gas_limit);
            },
        };
        proof {
            assert forall|w: Metadata|
                #[trigger] append_call_enc(w) == tx.unsigned.data@ && metadata_bounded(w)
                    && w.wf() implies w.epoch == m.epoch && w.version_start
                == m.version_start by {
                lemma_metadata_enc_parts(w);
                lemma_metadata_enc_parts(m);
                assert(append_call_enc(w) == append_call_enc(m));
                assert(metadata_enc(w) =~= append_call_enc(w).subrange(
                    4,
                    append_call_enc(w).len() as int,
                ));
                assert(metadata_enc(m) =~= append_call_enc(m).subrange(
                    4,
                    append_call_enc(m).len() as int,
                ));
                assert(metadata_enc(w) == metadata_enc(m));
                crate::bytesutil::lemma_be8_inverse(w.epoch);
                crate::bytesutil::lemma_be8_inverse(m.epoch);
                crate::bytesutil::lemma_be8_inverse(w.version_start);
                crate::bytesutil::lemma_be8_inverse(m.version_start);
            }
        }
        match store.append_metadata(m) {
            Ok(()) => {},
            Err(_) => {
                return revert_resp(gas_limit);
            },
        }
        update_mpt_root(backend, store);
        succeed_resp(gas_limit)
    }
}

/// Re-roots the metadata contract's account: its storage root becomes the
/// digest of the store's canonical encoding.
#[verifier::rlimit(100)]
pub fn update_mpt_root<B: ExecutorAdapter>(backend: &mut B, store: &MetadataStore)
    requires
        store.wf(),
    ensures
        final(backend).accounts() == old(backend).accounts().insert(
            crate::executor::metadata_address_bytes(),
            final(backend).accounts()[crate::executor::metadata_address_bytes()],
        ),
        final(backend).accounts().contains_key(crate::executor::metadata_address_bytes()),
        final(backend).accounts()[crate::executor::metadata_address_bytes()].storage_root
            == crate::hashing::keccak_spec(store_enc(store.list@)),
        final(backend).accounts()[crate::executor::metadata_address_bytes()].nonce
            == crate::executor::account_of(
            old(backend).accounts(),
            crate::executor::metadata_address_bytes(),
        ).nonce,
        final(backend).accounts()[crate::executor::metadata_address_bytes()].balance
            == crate::executor::account_of(
            old(backend).accounts(),
            crate::executor::metadata_address_bytes(),
        ).balance,
        final(backend).accounts()[crate::executor::metadata_address_bytes()].code_hash
            == crate::executor::account_of(
            old(backend).accounts(),
            crate::executor::metadata_address_bytes(),
        ).code_hash,
        final(backend).block_number_spec() == old(backend).block_number_spec(),
        final(backend).origin_spec() == old(backend).origin_spec(),
        final(backend).gas_price_spec() == old(backend).gas_price_spec(),
        final(backend).pending_logs() == old(backend).pending_logs(),
{
    let address = metadata_address();
    let mut acc = backend.get_account(&address);
    let mut enc: Vec<u8> = Vec::new();
    let mut i: usize = 0;
    while i < store.list.len()
        invariant
            i <= store.list@.len(),
            store.wf(),
            enc@ == store_enc(store.list@.subrange(0, i as int)),
        decreases store.list@.len() - i,
    {
        let one = encode_metadata(&store.list[i]);
        put_bytes(&mut enc, &one);
        i = i + 1;
        proof {
            let pre = store.list@.subrange(0, i as int);
            assert(pre.drop_last() =~= store.list@.subrange(0, i as int - 1));
            assert(pre.last() == store.list@[i as int - 1]);
            assert(enc@ =~= store_enc(pre));
        }
    }
    proof {
        assert(store.list@.subrange(0, store.list@.len() as int) =~= store.list@);
    }
    let root = keccak256(&enc);
    acc.storage_root = root;
    backend.save_account(&address, &acc);
}

/// Dispatches a transaction to a system contract: the metadata contract when
/// the destination is its reserved address, nothing otherwise.
pub fn system_contract_dispatch<B: ExecutorAdapter>(
    backend: &mut B,
    store: &mut MetadataStore,
    tx: &SignedTransaction,
) -> (r: Option<TxResp>)
    requires
        old(store).wf(),
        crate::tx::stx_wf(*tx),
    ensures
        final(store).wf(),
        r is Some <==> (tx.unsigned.action matches crate::types::TransactionAction::Call(a) && a@
            == crate::executor::metadata_address_bytes()),
        r is None ==> final(store).list@ == old(store).list@ && final(backend).accounts() == old(backend).accounts() && final(backend).origin_spec() == old(backend).origin_spec() && final(backend).gas_price_spec() == old(backend).gas_price_spec() && final(backend).pending_logs() == old(backend).pending_logs(),
        r matches Some(resp) ==> (!(resp.exit_succeed) ==> final(store).list@ == old(store).list@) && (resp.exit_succeed ==> exists|m: Metadata|
            {
                &&& #[trigger] append_call_enc(m) == tx.unsigned.data@
                &&& append_accepted(old(store).list@, m)
                &&& final(store).list@ == old(store).list@.push(m)
            }),
        final(backend).block_number_spec() == old(backend).block_number_spec(),
{
    let md_address = metadata_address();
    let is_metadata_call = crate::executor::is_transaction_call(&tx.unsigned.action, &md_address);
    if is_metadata_call {
        let contract = MetadataContract;
        Some(contract.exec_(backend, store, tx))
    } else {
        None
    }
}

} // verus!
