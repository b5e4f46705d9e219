//! Transaction hashing and the commitments built from it: the transaction
//! hash is the Keccak-256 digest of the canonical RLP encoding of the
//! unsigned body plus the chain id; a created contract's address is the tail
//! of the digest of the RLP of (sender, nonce); the receipts root commits to
//! the indexed sequence of per-transaction return-data digests.

use crate::bytesutil::put_bytes;
use crate::hashing::{keccak256, keccak_spec};
use crate::rlp::{
    lemma_min_be_len4, min_be, put_rlp_header, put_rlp_str, put_rlp_uint, rlp_header, rlp_list,
    rlp_str, rlp_uint,
};
use crate::types::{
    AccessItem, Eip1559Transaction, SignatureComponents, SignedTransaction, TransactionAction,
    H160, H256,
};
use vstd::prelude::*;

verus! {

/// Caps that keep every RLP payload below the format's 4-byte length limit.
pub const MAX_TX_DATA_LEN: usize = 0x0100_0000;
/// Largest accepted access list.
pub const MAX_ACCESS_LIST_LEN: usize = 4096;
/// Largest accepted storage-key list of one access item.
pub const MAX_STORAGE_KEYS_LEN: usize = 4096;

/// An RLP header never exceeds 5 bytes for payloads below 2^32.
pub proof fn lemma_rlp_header_len(base: u8, len: nat)
    requires
        len < 0x1_0000_0000,
    ensures
        rlp_header(base, len).len() <= 5,
{
    if len > 55 {
        lemma_min_be_len4(len);
    }
}

/// The bytes a transaction action contributes to the hash preimage: nothing
/// for a creation, the destination address for a call.
pub open spec fn action_bytes(a: TransactionAction) -> Seq<u8> {
    match a {
        TransactionAction::Create => Seq::empty(),
        TransactionAction::Call(addr) => addr@,
    }
}

/// The concatenated RLP encodings of an item's storage keys.
pub open spec fn keys_payload(keys: Seq<H256>) -> Seq<u8>
    decreases keys.len(),
{
    if keys.len() == 0 {
        Seq::empty()
    } else {
        keys_payload(keys.drop_last()) + rlp_str(keys.last()@)
    }
}

/// The RLP payload of one access-list item: the address, then the key list.
pub open spec fn access_item_payload(it: AccessItem) -> Seq<u8> {
    rlp_str(it.address@) + rlp_list(keys_payload(it.storage_keys@))
}

/// The concatenated RLP encodings of all access-list items.
pub open spec fn access_list_payload(items: Seq<AccessItem>) -> Seq<u8>
    decreases items.len(),
{
    if items.len() == 0 {
        Seq::empty()
    } else {
        access_list_payload(items.drop_last()) + rlp_list(access_item_payload(items.last()))
    }
}

/// The canonical RLP preimage of a transaction hash: the chain id and every
/// field of the unsigned body, as one RLP list.
pub open spec fn tx_preimage(tx: Eip1559Transaction, chain_id: u64) -> Seq<u8> {
    rlp_list(
        rlp_uint(chain_id as nat) + rlp_uint(tx.nonce as nat) + rlp_uint(
            tx.max_priority_fee_per_gas as nat,
        ) + rlp_uint(tx.gas_price as nat) + rlp_uint(tx.gas_limit as nat) + rlp_str(
            action_bytes(tx.action),
        ) + rlp_uint(tx.value as nat) + rlp_str(tx.data@) + rlp_list(
            access_list_payload(tx.access_list@),
        ),
    )
}

/// The hash of a transaction: the digest of its canonical preimage.
pub open spec fn tx_hash_spec(tx: Eip1559Transaction, chain_id: u64) -> Seq<u8> {
    keccak_spec(tx_preimage(tx, chain_id))
}

/// Whether a transaction's fields respect the encoder's size caps.
pub open spec fn tx_bounded(tx: Eip1559Transaction) -> bool {
    &&& tx.data@.len() <= MAX_TX_DATA_LEN
    &&& tx.access_list@.len() <= MAX_ACCESS_LIST_LEN
    &&& forall|i: int|
        0 <= i < tx.access_list@.len() ==> (#[trigger] tx.access_list@[i]).storage_keys@.len()
            <= MAX_STORAGE_KEYS_LEN
}

/// A signed transaction is well formed when its body is, its signature has
/// full width, its fields fit the encoder, and its precomputed hash equals
/// the digest of the canonical preimage.
pub open spec fn stx_wf(stx: SignedTransaction) -> bool {
    &&& stx.unsigned.wf()
    &&& stx.signature.wf()
    &&& stx.sender.wf()
    &&& tx_bounded(stx.unsigned)
    &&& stx.hash@ == tx_hash_spec(stx.unsigned, stx.chain_id)
    &&& stx.hash@.len() == 32
}

/// Hash consistency: recomputing a well-formed transaction's hash from its
/// body yields the hash the envelope carries.
pub proof fn lemma_hash_consistency(stx: SignedTransaction)
    requires
        stx_wf(stx),
    ensures
        stx.hash@ == tx_hash_spec(stx.unsigned, stx.chain_id),
{
}

/// Encodes the storage keys of one access item.
fn encode_keys(keys: &Vec<H256>) -> (r: Vec<u8>)
    requires
        forall|i: int| 0 <= i < keys@.len() ==> (#[trigger] keys@[i]).wf(),
        keys@.len() <= MAX_STORAGE_KEYS_LEN,
    ensures
        r@ == keys_payload(keys@),
        r@.len() <= 33 * keys@.len(),
{
    let mut out: Vec<u8> = Vec::new();
    let mut i: usize = 0;
    while i < keys.len()
        invariant
            i <= keys@.len(),
            keys@.len() <= MAX_STORAGE_KEYS_LEN,
            forall|j: int| 0 <= j < keys@.len() ==> (#[trigger] keys@[j]).wf(),
            out@ == keys_payload(keys@.subrange(0, i as int)),
            out@.len() <= 33 * i,
        decreases keys@.len() - i,
    {
        put_rlp_str(&mut out, &keys[i].bytes);
        i = i + 1;
        proof {
            let pre = keys@.subrange(0, i as int);
            assert(pre.drop_last() =~= keys@.subrange(0, i as int - 1));
            assert(pre.last() == keys@[i as int - 1]);
            assert(rlp_str(keys@[i as int - 1]@).len() == 33);
        }
    }
    proof {
        assert(keys@.subrange(0, keys@.len() as int) =~= keys@);
    }
    out
}

/// Encodes the whole access list.
fn encode_access_list(items: &Vec<AccessItem>) -> (r: Vec<u8>)
    requires
        forall|i: int| 0 <= i < items@.len() ==> (#[trigger] items@[i]).wf(),
        forall|i: int|
            0 <= i < items@.len() ==> (#[trigger] items@[i]).storage_keys@.len()
                <= MAX_STORAGE_KEYS_LEN,
        items@.len() <= MAX_ACCESS_LIST_LEN,
    ensures
        r@ == access_list_payload(items@),
        r@.len() <= 136000 * items@.len(),
{
    let mut out: Vec<u8> = Vec::new();
    let mut i: usize = 0;
    while i < items.len()
        invariant
            i <= items@.len(),
            items@.len() <= MAX_ACCESS_LIST_LEN,
            forall|j: int| 0 <= j < items@.len() ==> (#[trigger] items@[j]).wf(),
            forall|j: int|
                0 <= j < items@.len() ==> (#[trigger] items@[j]).storage_keys@.len()
                    <= MAX_STORAGE_KEYS_LEN,
            out@ == access_list_payload(items@.subrange(0, i as int)),
            out@.len() <= 136000 * i,
        decreases items@.len() - i,
    {
        let mut item_payload: Vec<u8> = Vec::new();
        put_rlp_str(&mut item_payload, &items[i].address.bytes);
        let keys = encode_keys(&items[i].storage_keys);
        proof {
            lemma_rlp_header_len(0xc0, keys@.len());
            assert(rlp_str(items@[i as int].address@).len() == 21);
        }
        put_rlp_header(&mut item_payload, 0xc0, keys.len());
        put_bytes(&mut item_payload, &keys);
        proof {
            assert(item_payload@ =~= access_item_payload(items@[i as int]));
            lemma_rlp_header_len(0xc0, item_payload@.len());
        }
        put_rlp_header(&mut out, 0xc0, item_payload.len());
        put_bytes(&mut out, &item_payload);
        i = i + 1;
        proof {
            let pre = items@.subrange(0, i as int);
            assert(pre.drop_last() =~= items@.subrange(0, i as int - 1));
            assert(pre.last() == items@[i as int - 1]);
            assert(out@ =~= access_list_payload(items@.subrange(0, i as int - 1)) + rlp_list(
                access_item_payload(items@[i as int - 1]),
            ));
        }
    }
    proof {
        assert(items@.subrange(0, items@.len() as int) =~= items@);
    }
    out
}

/// The RLP encoding of an unsigned integer takes at most 21 bytes.
proof fn lemma_rlp_uint_len(v: nat)
    requires
        v < 0x1_0000_0000_0000_0000_0000_0000_0000_0000,
    ensures
        rlp_uint(v).len() <= 21,
{
    crate::rlp::lemma_min_be_len4_u128(v as u128);
    lemma_rlp_header_len(0x80, min_be(v).len());
}

/// Builds the canonical hash preimage of a transaction.
pub fn encode_tx_preimage(tx: &Eip1559Transaction, chain_id: u64) -> (r: Vec<u8>)
    requires
        tx.wf(),
        tx_bounded(*tx),
    ensures
        r@ == tx_preimage(*tx, chain_id),
{
    let mut p: Vec<u8> = Vec::new();
    put_rlp_uint(&mut p, chain_id as u128);
    put_rlp_uint(&mut p, tx.nonce as u128);
    put_rlp_uint(&mut p, tx.max_priority_fee_per_gas);
    put_rlp_uint(&mut p, tx.gas_price);
    put_rlp_uint(&mut p, tx.gas_limit as u128);
    proof {
        lemma_rlp_uint_len(chain_id as nat);
        lemma_rlp_uint_len(tx.nonce as nat);
        lemma_rlp_uint_len(tx.max_priority_fee_per_gas as nat);
        lemma_rlp_uint_len(tx.gas_price as nat);
        lemma_rlp_uint_len(tx.gas_limit as nat);
    }
    match &tx.action {
        TransactionAction::Create => {
            let empty: Vec<u8> = Vec::new();
            put_rlp_str(&mut p, &empty);
        },
        TransactionAction::Call(addr) => {
            put_rlp_str(&mut p, &addr.bytes);
        },
    }
    proof {
        lemma_rlp_header_len(0x80, action_bytes(tx.action).len());
        assert(p@.len() <= 105 + 26);
    }
    put_rlp_uint(&mut p, tx.value);
    proof {
        lemma_rlp_uint_len(tx.value as nat);
        lemma_rlp_header_len(0x80, tx.data@.len());
    }
    put_rlp_str(&mut p, &tx.data);
    let al = encode_access_list(&tx.access_list);
    proof {
        lemma_rlp_header_len(0xc0, al@.len());
    }
    put_rlp_header(&mut p, 0xc0, al.len());
    put_bytes(&mut p, &al);
    proof {
        assert(p@ =~= rlp_uint(chain_id as nat) + rlp_uint(tx.nonce as nat) + rlp_uint(
            tx.max_priority_fee_per_gas as nat,
        ) + rlp_uint(tx.gas_price as nat) + rlp_uint(tx.gas_limit as nat) + rlp_str(
            action_bytes(tx.action),
        ) + rlp_uint(tx.value as nat) + rlp_str(tx.data@) + rlp_list(
            access_list_payload(tx.access_list@),
        ));
        lemma_rlp_header_len(0xc0, p@.len());
    }
    let mut out: Vec<u8> = Vec::new();
    put_rlp_header(&mut out, 0xc0, p.len());
    put_bytes(&mut out, &p);
    proof {
        assert(out@ =~= tx_preimage(*tx, chain_id));
    }
    out
}

/// Recomputes a transaction's hash from its body and chain id.
pub fn recompute_hash(tx: &Eip1559Transaction, chain_id: u64) -> (r: H256)
    requires
        tx.wf(),
        tx_bounded(*tx),
    ensures
        r@ == tx_hash_spec(*tx, chain_id),
        r@.len() == 32,
{
    let pre = encode_tx_preimage(tx, chain_id);
    keccak256(&pre)
}

/// Seals an unsigned body into a signed envelope, computing the hash the
/// envelope carries; the result is well formed.
pub fn seal_transaction(
    unsigned: Eip1559Transaction,
    signature: SignatureComponents,
    chain_id: u64,
    sender: H160,
) -> (r: SignedTransaction)
    requires
        unsigned.wf(),
        tx_bounded(unsigned),
        signature.wf(),
        sender.wf(),
    ensures
        stx_wf(r),
        r.unsigned == unsigned,
        r.chain_id == chain_id,
        r.sender == sender,
{
    let hash = recompute_hash(&unsigned, chain_id);
    SignedTransaction { unsigned, signature, chain_id, hash, sender }
}

/// The address of a contract created by `sender` at `nonce`: the last 20
/// bytes of the digest of the RLP of the pair.
pub open spec fn code_address_spec(sender: Seq<u8>, nonce: u64) -> Seq<u8> {
    keccak_spec(rlp_list(rlp_str(sender) + rlp_uint(nonce as nat))).subrange(12, 32)
}

/// Computes the created-contract address for a sender and nonce.
pub fn code_address(sender: &H160, nonce: u64) -> (r: H160)
    requires
        sender.wf(),
    ensures
        r@ == code_address_spec(sender@, nonce),
        r.wf(),
{
    let mut p: Vec<u8> = Vec::new();
    put_rlp_str(&mut p, &sender.bytes);
    put_rlp_uint(&mut p, nonce as u128);
    proof {
        lemma_rlp_uint_len(nonce as nat);
        lemma_rlp_header_len(0xc0, p@.len());
    }
    let mut pre: Vec<u8> = Vec::new();
    put_rlp_header(&mut pre, 0xc0, p.len());
    put_bytes(&mut pre, &p);
    proof {
        assert(pre@ =~= rlp_list(rlp_str(sender@) + rlp_uint(nonce as nat)));
    }
    let digest = keccak256(&pre);
    let bytes = crate::bytesutil::get_bytes(&digest.bytes, 12, 20);
    H160 { bytes }
}

/// The RLP payload committing to the indexed receipt leaves: for each index,
/// the RLP list of (index, leaf digest).
pub open spec fn receipts_payload(leaves: Seq<Seq<u8>>) -> Seq<u8>
    decreases leaves.len(),
{
    if leaves.len() == 0 {
        Seq::empty()
    } else {
        receipts_payload(leaves.drop_last()) + rlp_list(
            rlp_uint((leaves.len() - 1) as nat) + rlp_str(leaves.last()),
        )
    }
}

/// The receipts root: the digest of the RLP list of indexed receipt leaves.
pub open spec fn receipts_root_spec(leaves: Seq<Seq<u8>>) -> Seq<u8> {
    keccak_spec(rlp_list(receipts_payload(leaves)))
}

/// Computes the receipts root of a block's ordered receipt leaves.
pub fn receipts_root(leaves: &Vec<H256>) -> (r: H256)
    requires
        forall|i: int| 0 <= i < leaves@.len() ==> (#[trigger] leaves@[i]).wf(),
        leaves@.len() <= 0x0010_0000,
    ensures
        r@ == receipts_root_spec(leaves@.map_values(|h: H256| h@)),
        r@.len() == 32,
{
    let ghost lv = leaves@.map_values(|h: H256| h@);
    let mut p: Vec<u8> = Vec::new();
    let mut i: usize = 0;
    while i < leaves.len()
        invariant
            i <= leaves@.len(),
            leaves@.len() <= 0x0010_0000,
            forall|j: int| 0 <= j < leaves@.len() ==> (#[trigger] leaves@[j]).wf(),
            lv == leaves@.map_values(|h: H256| h@),
            p@ == receipts_payload(lv.subrange(0, i as int)),
            p@.len() <= 60 * i,
        decreases leaves@.len() - i,
    {
        let mut entry: Vec<u8> = Vec::new();
        put_rlp_uint(&mut entry, i as u128);
        put_rlp_str(&mut entry, &leaves[i].bytes);
        proof {
            lemma_rlp_uint_len(i as nat);
            assert(rlp_str(leaves@[i as int]@).len() == 33);
            lemma_rlp_header_len(0xc0, entry@.len());
        }
        put_rlp_header(&mut p, 0xc0, entry.len());
        put_bytes(&mut p, &entry);
        i = i + 1;
        proof {
            let pre = lv.subrange(0, i as int);
            assert(pre.drop_last() =~= lv.subrange(0, i as int - 1));
            assert(pre.last() == lv[i as int - 1]);
            assert(entry@ =~= rlp_uint((i - 1) as nat) + rlp_str(lv[i as int - 1]));
            assert(p@ =~= receipts_payload(lv.subrange(0, i as int - 1)) + rlp_list(entry@));
        }
    }
    proof {
        assert(lv.subrange(0, lv.len() as int) =~= lv);
        lemma_rlp_header_len(0xc0, p@.len());
    }
    let mut pre: Vec<u8> = Vec::new();
    put_rlp_header(&mut pre, 0xc0, p.len());
    put_bytes(&mut pre, &p);
    proof {
        assert(pre@ =~= rlp_list(receipts_payload(lv)));
    }
    keccak256(&pre)
}

} // verus!
