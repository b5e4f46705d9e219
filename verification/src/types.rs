//! Core data types: addresses, hashes, accounts, transactions, validators,
//! epoch metadata, and execution responses.

use vstd::prelude::*;

verus! {

/// Length in bytes of a consensus public key.
pub const PUB_KEY_LEN: usize = 32;

/// A 20-byte account address.
pub struct H160 {
    pub bytes: Vec<u8>,
}

impl View for H160 {
    type V = Seq<u8>;

    open spec fn view(&self) -> Seq<u8> {
        self.bytes@
    }
}

impl H160 {
    /// An address is well formed when it holds exactly 20 bytes.
    pub open spec fn wf(&self) -> bool {
        self.bytes@.len() == 20
    }

    /// Byte-for-byte copy of the address.
    pub fn duplicate(&self) -> (r: H160)
        ensures
            r@ == self@,
    {
        H160 { bytes: copy_bytes(&self.bytes) }
    }

    /// Byte-for-byte equality of two addresses.
    pub fn equals(&self, other: &H160) -> (r: bool)
        ensures
            r == (self@ == other@),
    {
        bytes_eq(&self.bytes, &other.bytes)
    }
}

/// A 32-byte hash digest.
pub struct H256 {
    pub bytes: Vec<u8>,
}

impl View for H256 {
    type V = Seq<u8>;

    open spec fn view(&self) -> Seq<u8> {
        self.bytes@
    }
}

impl H256 {
    /// A digest is well formed when it holds exactly 32 bytes.
    pub open spec fn wf(&self) -> bool {
        self.bytes@.len() == 32
    }

    /// Byte-for-byte copy of the digest.
    pub fn duplicate(&self) -> (r: H256)
        ensures
            r@ == self@,
    {
        H256 { bytes: copy_bytes(&self.bytes) }
    }

    /// Byte-for-byte equality of two digests.
    pub fn equals(&self, other: &H256) -> (r: bool)
        ensures
            r == (self@ == other@),
    {
        bytes_eq(&self.bytes, &other.bytes)
    }
}

/// Copies a byte vector; the copy's contents equal the source's.
pub fn copy_bytes(src: &Vec<u8>) -> (r: Vec<u8>)
    ensures
        r@ == src@,
{
    let mut out: Vec<u8> = Vec::new();
    let mut i: usize = 0;
    while i < src.len()
        invariant
            i <= src.len(),
            out@ == src@.subrange(0, i as int),
        decreases src.len() - i,
    {
        out.push(src[i]);
        i = i + 1;
        proof {
            assert(out@ =~= src@.subrange(0, i as int));
        }
    }
    proof {
        assert(out@ =~= src@);
    }
    out
}

/// Byte-for-byte equality of two byte vectors.
pub fn bytes_eq(a: &Vec<u8>, b: &Vec<u8>) -> (r: bool)
    ensures
        r == (a@ == b@),
{
    if a.len() != b.len() {
        proof {
            assert(a@ != b@);
        }
        return false;
    }
    let mut i: usize = 0;
    while i < a.len()
        invariant
            i <= a.len(),
            a@.len() == b@.len(),
            forall|j: int| 0 <= j < i ==> a@[j] == b@[j],
        decreases a.len() - i,
    {
        if a[i] != b[i] {
            return false;
        }
        i = i + 1;
    }
    proof {
        assert(a@ =~= b@);
    }
    true
}

/// An account record in the world state.
pub struct Account {
    pub nonce: u64,
    pub balance: u128,
    pub storage_root: H256,
    pub code_hash: H256,
}

impl Account {
    pub open spec fn wf(&self) -> bool {
        self.storage_root.wf() && self.code_hash.wf()
    }

    pub fn duplicate(&self) -> (r: Account)
        ensures
            r.nonce == self.nonce,
            r.balance == self.balance,
            r.storage_root@ == self.storage_root@,
            r.code_hash@ == self.code_hash@,
    {
        Account {
            nonce: self.nonce,
            balance: self.balance,
            storage_root: self.storage_root.duplicate(),
            code_hash: self.code_hash.duplicate(),
        }
    }
}

/// The destination of a transaction: contract creation or a call.
pub enum TransactionAction {
    Create,
    Call(H160),
}

impl TransactionAction {
    pub open spec fn wf(&self) -> bool {
        match self {
            TransactionAction::Create => true,
            TransactionAction::Call(a) => a.wf(),
        }
    }
}

/// One access-list entry of an EIP-1559 transaction.
pub struct AccessItem {
    pub address: H160,
    pub storage_keys: Vec<H256>,
}

impl AccessItem {
    pub open spec fn wf(&self) -> bool {
        self.address.wf() && forall|i: int|
            0 <= i < self.storage_keys@.len() ==> (#[trigger] self.storage_keys@[i]).wf()
    }
}

/// The unsigned body of an EIP-1559 transaction.
pub struct Eip1559Transaction {
    pub nonce: u64,
    pub max_priority_fee_per_gas: u128,
    pub gas_price: u128,
    pub gas_limit: u64,
    pub action: TransactionAction,
    pub value: u128,
    pub data: Vec<u8>,
    pub access_list: Vec<AccessItem>,
}

impl Eip1559Transaction {
    pub open spec fn wf(&self) -> bool {
        &&& self.action.wf()
        &&& forall|i: int|
            0 <= i < self.access_list@.len() ==> (#[trigger] self.access_list@[i]).wf()
    }
}

/// A recoverable signature.
pub struct SignatureComponents {
    pub standard_v: u8,
    pub r: Vec<u8>,
    pub s: Vec<u8>,
}

impl SignatureComponents {
    pub open spec fn wf(&self) -> bool {
        self.r@.len() == 32 && self.s@.len() == 32
    }
}

/// A signed transaction: the unsigned body, its signature, the chain it is
/// bound to, its precomputed hash, and the recovered sender.
pub struct SignedTransaction {
    pub unsigned: Eip1559Transaction,
    pub signature: SignatureComponents,
    pub chain_id: u64,
    pub hash: H256,
    pub sender: H160,
}

/// A consensus validator: its public key is its consensus address.
pub struct Validator {
    pub pub_key: Vec<u8>,
    pub propose_weight: u64,
    pub vote_weight: u64,
}

impl Validator {
    pub open spec fn wf(&self) -> bool {
        self.pub_key@.len() == PUB_KEY_LEN
    }

    pub fn duplicate(&self) -> (r: Validator)
        ensures
            r.pub_key@ == self.pub_key@,
            r.propose_weight == self.propose_weight,
            r.vote_weight == self.vote_weight,
    {
        Validator {
            pub_key: copy_bytes(&self.pub_key),
            propose_weight: self.propose_weight,
            vote_weight: self.vote_weight,
        }
    }
}

/// A validator together with its account address, as the epoch metadata
/// records it.
pub struct ValidatorExtend {
    pub pub_key: Vec<u8>,
    pub address: H160,
    pub propose_weight: u64,
    pub vote_weight: u64,
}

impl ValidatorExtend {
    pub open spec fn wf(&self) -> bool {
        self.pub_key@.len() == PUB_KEY_LEN && self.address.wf()
    }
}

/// Epoch metadata: a contiguous height range sharing one verifier list,
/// a block interval, and the four phase-timer ratios.
pub struct Metadata {
    pub epoch: u64,
    pub version_start: u64,
    pub version_end: u64,
    pub interval: u64,
    pub propose_ratio: u64,
    pub prevote_ratio: u64,
    pub precommit_ratio: u64,
    pub brake_ratio: u64,
    pub verifier_list: Vec<ValidatorExtend>,
}

impl Metadata {
    pub open spec fn wf(&self) -> bool {
        &&& self.version_start <= self.version_end
        &&& self.verifier_list@.len() > 0
        &&& forall|i: int|
            0 <= i < self.verifier_list@.len() ==> (#[trigger] self.verifier_list@[i]).wf()
    }

    /// Whether a height falls inside this metadata's epoch.
    pub open spec fn spec_contains_height(&self, h: u64) -> bool {
        self.version_start <= h && h <= self.version_end
    }

    pub fn contains_height(&self, h: u64) -> (r: bool)
        ensures
            r == self.spec_contains_height(h),
    {
        self.version_start <= h && h <= self.version_end
    }
}

/// One log record emitted during execution.
pub struct Log {
    pub address: H160,
    pub topics: Vec<H256>,
    pub data: Vec<u8>,
}

/// The response of executing one transaction.
pub struct TxResp {
    pub exit_succeed: bool,
    pub ret: Vec<u8>,
    pub remain_gas: u64,
    pub gas_used: u64,
    pub fee_cost: u128,
    pub logs: Vec<Log>,
    pub code_address: Option<H160>,
    pub removed: bool,
}

/// The response of executing one ordered block of transactions.
pub struct ExecResp {
    pub state_root: H256,
    pub receipt_root: H256,
    pub gas_used: u64,
    pub tx_resp: Vec<TxResp>,
}

} // verus!
