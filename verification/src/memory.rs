//! The in-memory backend: the executor's test double. Accounts live in an
//! append-only entry list where the latest write wins; the EVM is modelled as
//! a plain value-transfer and code-store machine, enough to drive the
//! verified pipeline end to end.

use crate::executor::{
    add_sat64, add_sat128, data_gas_cost, model, sub_sat128, AccountModel, EvmOutcome,
    ExecutorAdapter, GAS_CALL_TRANSACTION, GAS_CREATE_TRANSACTION,
};
use crate::hashing::keccak256;
use crate::rlp::put_rlp_str;
use crate::tx::code_address;
use crate::types::{bytes_eq, copy_bytes, Account, Log, SignedTransaction, TransactionAction, H160, H256};
use vstd::prelude::*;

verus! {

/// The default account: zero nonce, zero balance, the empty-storage root,
/// and the digest of no code.
pub fn default_account() -> (r: Account)
    ensures
        r.wf(),
        model(r) == crate::executor::default_account_model(),
        r.nonce == 0,
        r.balance == 0,
{
    let empty: Vec<u8> = Vec::new();
    let code_hash = keccak256(&empty);
    let mut rlp_empty: Vec<u8> = Vec::new();
    put_rlp_str(&mut rlp_empty, &empty);
    let storage_root = keccak256(&rlp_empty);
    Account { nonce: 0, balance: 0, storage_root, code_hash }
}

/// Whether a stored entry is usable: address and account of full width.
pub open spec fn entry_ok(e: (H160, Account)) -> bool {
    e.0.wf() && e.1.wf()
}

/// The account a key reads as from the entry list: the latest usable write
/// wins.
pub open spec fn find_acc(s: Seq<(H160, Account)>, k: Seq<u8>) -> Option<AccountModel>
    decreases s.len(),
{
    if s.len() == 0 {
        None
    } else if entry_ok(s.last()) && s.last().0@ == k {
        Some(model(s.last().1))
    } else {
        find_acc(s.drop_last(), k)
    }
}

/// The in-memory backend.
pub struct MemoryAdapter {
    entries: Vec<(H160, Account)>,
    origin: H160,
    gas_price: u128,
    block_number: u64,
    logs: Vec<Log>,
    code_store: Vec<(H160, Vec<u8>)>,
}

impl MemoryAdapter {
    /// A fresh backend at the given block number, with no accounts.
    pub fn new(block_number: u64) -> (r: MemoryAdapter)
        ensures
            r.accounts() == Map::<Seq<u8>, AccountModel>::empty(),
            r.block_number_spec() == block_number,
            r.pending_logs() == 0,
    {
        let r = MemoryAdapter {
            entries: Vec::new(),
            origin: crate::executor::zero_address(),
            gas_price: 0,
            block_number,
            logs: Vec::new(),
            code_store: Vec::new(),
        };
        proof {
            assert(r.accounts() =~= Map::<Seq<u8>, AccountModel>::empty());
        }
        r
    }

    /// Looks up stored contract code; the latest store wins.
    fn find_code(&self, address: &H160) -> (r: Vec<u8>) {
        let mut i: usize = self.code_store.len();
        while i > 0
            invariant
                i <= self.code_store@.len(),
            decreases i,
        {
            i = i - 1;
            let e = &self.code_store[i];
            if bytes_eq(&e.0.bytes, &address.bytes) {
                return copy_bytes(&e.1);
            }
        }
        Vec::new()
    }
}

impl ExecutorAdapter for MemoryAdapter {
    closed spec fn accounts(&self) -> Map<Seq<u8>, AccountModel> {
        Map::new(
            |k: Seq<u8>| find_acc(self.entries@, k) is Some,
            |k: Seq<u8>| find_acc(self.entries@, k).unwrap(),
        )
    }

    closed spec fn origin_spec(&self) -> Seq<u8> {
        if self.origin@.len() == 20 {
            self.origin@
        } else {
            Seq::new(20, |i: int| 0u8)
        }
    }

    closed spec fn gas_price_spec(&self) -> u128 {
        self.gas_price
    }

    closed spec fn block_number_spec(&self) -> u64 {
        self.block_number
    }

    closed spec fn pending_logs(&self) -> nat {
        self.logs@.len()
    }

    fn block_number(&self) -> (r: u64) {
        self.block_number
    }

    fn origin(&self) -> (r: H160) {
        if self.origin.bytes.len() == 20 {
            self.origin.duplicate()
        } else {
            crate::executor::zero_address()
        }
    }

    fn gas_price(&self) -> (r: u128) {
        self.gas_price
    }

    fn set_origin(&mut self, origin: H160) {
        self.origin = origin;
    }

    fn set_gas_price(&mut self, gas_price: u128) {
        self.gas_price = gas_price;
    }

    fn get_account(&self, address: &H160) -> (r: Account) {
        let n = self.entries.len();
        proof {
            assert(self.entries@.subrange(0, n as int) =~= self.entries@);
        }
        let mut i: usize = n;
        while i > 0
            invariant
                i <= n,
                n == self.entries@.len(),
                address.wf(),
                find_acc(self.entries@, address@) == find_acc(
                    self.entries@.subrange(0, i as int),
                    address@,
                ),
            decreases i,
        {
            i = i - 1;
            let ghost pre = self.entries@.subrange(0, i as int + 1);
            proof {
                assert(pre.drop_last() =~= self.entries@.subrange(0, i as int));
                assert(pre.last() == self.entries@[i as int]);
            }
            let e = &self.entries[i];
            let usable = e.0.bytes.len() == 20 && e.1.storage_root.bytes.len() == 32
                && e.1.code_hash.bytes.len() == 32;
            if usable && bytes_eq(&e.0.bytes, &address.bytes) {
                proof {
                    assert(find_acc(pre, address@) == Some(model(e.1)));
                }
                return e.1.duplicate();
            }
        }
        proof {
            assert(self.entries@.subrange(0, 0) =~= Seq::<(H160, Account)>::empty());
            assert(find_acc(self.entries@, address@) is None);
            assert(!self.accounts().contains_key(address@));
        }
        let r = default_account();
        proof {
            assert(model(r) == crate::executor::account_of(self.accounts(), address@));
        }
        r
    }

    fn save_account(&mut self, address: &H160, account: &Account) {
        let ghost olde = self.entries@;
        self.entries.push((address.duplicate(), account.duplicate()));
        proof {
            let newe = self.entries@;
            assert(newe.drop_last() =~= olde);
            assert(entry_ok(newe.last()) && newe.last().0@ == address@);
            assert(model(newe.last().1) == model(*account));
            assert forall|k: Seq<u8>| #[trigger]
                find_acc(newe, k) == (if k == address@ {
                    Some(model(*account))
                } else {
                    find_acc(olde, k)
                }) by {
                if k == address@ {
                    assert(find_acc(newe, k) == Some(model(newe.last().1)));
                }
            }
            assert(self.accounts() =~= old(self).accounts().insert(address@, model(*account)));
        }
    }

    fn get_logs(&mut self) -> (r: Vec<Log>) {
        let mut out: Vec<Log> = Vec::new();
        while self.logs.len() > 0
            invariant
                out@.len() + self.logs@.len() == old(self).pending_logs(),
                self.entries@ == old(self).entries@,
                self.origin == old(self).origin,
                self.gas_price == old(self).gas_price,
                self.block_number == old(self).block_number,
                self.code_store@ == old(self).code_store@,
            decreases self.logs@.len(),
        {
            let next = self.logs.pop();
            match next {
                Some(l) => {
                    out.push(l);
                },
                None => {},
            }
        }
        out
    }

    fn commit(&mut self) -> (r: H256) {
        let mut enc: Vec<u8> = Vec::new();
        let mut i: usize = 0;
        while i < self.entries.len()
            invariant
                i <= self.entries@.len(),
                self.entries@ == old(self).entries@,
                self.origin == old(self).origin,
                self.gas_price == old(self).gas_price,
                self.block_number == old(self).block_number,
                self.logs@ == old(self).logs@,
                self.code_store@ == old(self).code_store@,
            decreases self.entries@.len() - i,
        {
            let e = &self.entries[i];
            crate::bytesutil::put_bytes(&mut enc, &e.0.bytes);
            crate::bytesutil::put_u64(&mut enc, e.1.nonce);
            crate::bytesutil::put_u128(&mut enc, e.1.balance);
            crate::bytesutil::put_bytes(&mut enc, &e.1.storage_root.bytes);
            crate::bytesutil::put_bytes(&mut enc, &e.1.code_hash.bytes);
            i = i + 1;
        }
        keccak256(&enc)
    }

    fn run_evm(&mut self, tx: &SignedTransaction) -> (r: EvmOutcome) {
        let gas_limit = tx.unsigned.gas_limit;
        match &tx.unsigned.action {
            TransactionAction::Call(to) => {
                let cost = add_sat64(GAS_CALL_TRANSACTION, data_gas_cost(&tx.unsigned.data));
                let gas_used = if cost > gas_limit {
                    gas_limit
                } else {
                    cost
                };
                let remain_gas = gas_limit - gas_used;
                let value = tx.unsigned.value;
                let mut sender_acc = self.get_account(&tx.sender);
                if sender_acc.balance >= value {
                    sender_acc.balance = sub_sat128(sender_acc.balance, value);
                    self.save_account(&tx.sender, &sender_acc);
                    let mut to_acc = self.get_account(to);
                    to_acc.balance = add_sat128(to_acc.balance, value);
                    self.save_account(to, &to_acc);
                    let ret = self.find_code(to);
                    EvmOutcome { exit_succeed: true, ret, remain_gas, gas_used }
                } else {
                    EvmOutcome { exit_succeed: false, ret: Vec::new(), remain_gas, gas_used }
                }
            },
            TransactionAction::Create => {
                let cost = add_sat64(
                    GAS_CREATE_TRANSACTION + GAS_CALL_TRANSACTION,
                    data_gas_cost(&tx.unsigned.data),
                );
                let gas_used = if cost > gas_limit {
                    gas_limit
                } else {
                    cost
                };
                let remain_gas = gas_limit - gas_used;
                let sender_acc = self.get_account(&tx.sender);
                let created = code_address(&tx.sender, sender_acc.nonce);
                let code = copy_bytes(&tx.unsigned.data);
                self.code_store.push((created, code));
                let ret = copy_bytes(&tx.unsigned.data);
                EvmOutcome { exit_succeed: true, ret, remain_gas, gas_used }
            },
        }
    }

    fn simulate(
        &self,
        from: &H160,
        to: &Option<H160>,
        value: u128,
        data: &Vec<u8>,
        gas_limit: u64,
    ) -> (r: EvmOutcome) {
        match to {
            Some(addr) => {
                let ret = self.find_code(addr);
                EvmOutcome { exit_succeed: true, ret, remain_gas: gas_limit, gas_used: 0 }
            },
            None => {
                let ret = copy_bytes(data);
                EvmOutcome { exit_succeed: true, ret, remain_gas: gas_limit, gas_used: 0 }
            },
        }
    }
}

} // verus!
