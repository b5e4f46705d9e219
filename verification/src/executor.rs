//! The deterministic transaction executor. It runs over any backend that
//! implements [`ExecutorAdapter`]: reads and writes of accounts, the pending
//! log buffer, the origin and gas-price hints, and the black-box EVM run.
//! Everything around the EVM run — prepay, nonce handling, refund, fee
//! collection and allocation, and the receipts commitment — is verified here.

use crate::hashing::{keccak256, keccak_spec};
use crate::rlp::rlp_str;
use crate::tx::{code_address, stx_wf};
use crate::types::{Account, ExecResp, Log, SignedTransaction, TransactionAction, TxResp, ValidatorExtend, H160, H256};
use vstd::prelude::*;

verus! {

/// Base gas charge of a plain call transaction.
pub const GAS_CALL_TRANSACTION: u64 = 21_000;
/// Additional base gas charge of a contract creation.
pub const GAS_CREATE_TRANSACTION: u64 = 32_000;
/// Gas charged per zero byte of calldata.
pub const GAS_PER_ZERO_BYTE: u64 = 4;
/// Gas charged per non-zero byte of calldata.
pub const GAS_PER_NONZERO_BYTE: u64 = 16;

/// The ghost model of one account: what the contracts of the adapter speak
/// of.
pub ghost struct AccountModel {
    pub nonce: u64,
    pub balance: u128,
    pub storage_root: Seq<u8>,
    pub code_hash: Seq<u8>,
}

/// The model of an executable account value.
pub open spec fn model(a: Account) -> AccountModel {
    AccountModel {
        nonce: a.nonce,
        balance: a.balance,
        storage_root: a.storage_root@,
        code_hash: a.code_hash@,
    }
}

/// What the black-box EVM run reports back.
pub struct EvmOutcome {
    pub exit_succeed: bool,
    pub ret: Vec<u8>,
    pub remain_gas: u64,
    pub gas_used: u64,
}

/// The backend capability record the executor runs over: account reads and
/// writes, execution hints, the pending log buffer, the state commit, and the
/// EVM run itself. Production backends wrap a Merkle-Patricia trie; tests use
/// an in-memory one.
pub trait ExecutorAdapter: Sized {
    /// The account map this backend holds.
    spec fn accounts(&self) -> Map<Seq<u8>, AccountModel>;

    /// The current origin hint.
    spec fn origin_spec(&self) -> Seq<u8>;

    /// The current gas-price hint.
    spec fn gas_price_spec(&self) -> u128;

    /// The block number this backend executes at.
    spec fn block_number_spec(&self) -> u64;

    /// How many logs are pending.
    spec fn pending_logs(&self) -> nat;

    fn block_number(&self) -> (r: u64)
        ensures
            r == self.block_number_spec(),
    ;

    fn origin(&self) -> (r: H160)
        ensures
            r@ == self.origin_spec(),
            r.wf(),
    ;

    fn gas_price(&self) -> (r: u128)
        ensures
            r == self.gas_price_spec(),
    ;

    fn set_origin(&mut self, origin: H160)
        requires
            origin.wf(),
        ensures
            final(self).origin_spec() == origin@,
            final(self).accounts() == old(self).accounts(),
            final(self).gas_price_spec() == old(self).gas_price_spec(),
            final(self).block_number_spec() == old(self).block_number_spec(),
            final(self).pending_logs() == old(self).pending_logs(),
    ;

    fn set_gas_price(&mut self, gas_price: u128)
        ensures
            final(self).gas_price_spec() == gas_price,
            final(self).accounts() == old(self).accounts(),
            final(self).origin_spec() == old(self).origin_spec(),
            final(self).block_number_spec() == old(self).block_number_spec(),
            final(self).pending_logs() == old(self).pending_logs(),
    ;

    /// Reads an account; an address never written yet reads as the default
    /// account.
    fn get_account(&self, address: &H160) -> (r: Account)
        requires
            address.wf(),
        ensures
            r.wf(),
            model(r) == account_of(self.accounts(), address@),
    ;

    fn save_account(&mut self, address: &H160, account: &Account)
        requires
            address.wf(),
            account.wf(),
        ensures
            final(self).accounts() == old(self).accounts().insert(address@, model(*account)),
            final(self).origin_spec() == old(self).origin_spec(),
            final(self).gas_price_spec() == old(self).gas_price_spec(),
            final(self).block_number_spec() == old(self).block_number_spec(),
            final(self).pending_logs() == old(self).pending_logs(),
    ;

    /// Drains the pending log buffer.
    fn get_logs(&mut self) -> (r: Vec<Log>)
        ensures
            final(self).pending_logs() == 0,
            r@.len() == old(self).pending_logs(),
            final(self).accounts() == old(self).accounts(),
            final(self).origin_spec() == old(self).origin_spec(),
            final(self).gas_price_spec() == old(self).gas_price_spec(),
            final(self).block_number_spec() == old(self).block_number_spec(),
    ;

    /// Flattens the overlay and returns the new state root.
    fn commit(&mut self) -> (r: H256)
        ensures
            r.wf(),
            final(self).accounts() == old(self).accounts(),
            final(self).origin_spec() == old(self).origin_spec(),
            final(self).gas_price_spec() == old(self).gas_price_spec(),
            final(self).block_number_spec() == old(self).block_number_spec(),
            final(self).pending_logs() == old(self).pending_logs(),
    ;

    /// Runs the EVM over this backend for one transaction, mutating the
    /// account map as the bytecode dictates. The run never spends more gas
    /// than the limit, and hands back the remainder.
    fn run_evm(&mut self, tx: &SignedTransaction) -> (r: EvmOutcome)
        requires
            stx_wf(*tx),
        ensures
            r.gas_used <= tx.unsigned.gas_limit,
            r.remain_gas <= tx.unsigned.gas_limit - r.gas_used,
            !r.exit_succeed ==> final(self).accounts() == old(self).accounts(),
            final(self).origin_spec() == old(self).origin_spec(),
            final(self).gas_price_spec() == old(self).gas_price_spec(),
            final(self).block_number_spec() == old(self).block_number_spec(),
    ;

    /// Simulates one read-only EVM run against the current state.
    fn simulate(
        &self,
        from: &H160,
        to: &Option<H160>,
        value: u128,
        data: &Vec<u8>,
        gas_limit: u64,
    ) -> (r: EvmOutcome)
        requires
            from.wf(),
            to is Some ==> to.unwrap().wf(),
        ensures
            r.gas_used <= gas_limit,
            r.remain_gas <= gas_limit - r.gas_used,
    ;
}

/// Saturating addition on gas counters.
pub open spec fn sat_add64(a: u64, b: u64) -> u64 {
    if a + b > u64::MAX {
        u64::MAX
    } else {
        (a + b) as u64
    }
}

/// Computes the saturating sum of two gas counters.
pub fn add_sat64(a: u64, b: u64) -> (r: u64)
    ensures
        r == sat_add64(a, b),
{
    if a > u64::MAX - b {
        u64::MAX
    } else {
        a + b
    }
}

/// Saturating addition on balances and fees.
pub open spec fn sat_add128(a: u128, b: u128) -> u128 {
    if a + b > u128::MAX {
        u128::MAX
    } else {
        (a + b) as u128
    }
}

/// Computes the saturating sum of two balances.
pub fn add_sat128(a: u128, b: u128) -> (r: u128)
    ensures
        r == sat_add128(a, b),
{
    if a > u128::MAX - b {
        u128::MAX
    } else {
        a + b
    }
}

/// Saturating subtraction on balances.
pub open spec fn sat_sub128(a: u128, b: u128) -> u128 {
    if a >= b {
        (a - b) as u128
    } else {
        0
    }
}

/// Computes the saturating difference of two balances.
pub fn sub_sat128(a: u128, b: u128) -> (r: u128)
    ensures
        r == sat_sub128(a, b),
{
    if a >= b {
        a - b
    } else {
        0
    }
}

/// Saturating multiplication, as fee arithmetic uses it.
pub open spec fn sat_mul128(a: u128, b: u128) -> u128 {
    if a * b > u128::MAX {
        u128::MAX
    } else {
        (a * b) as u128
    }
}

/// Computes the saturating product of a gas price and a gas amount.
pub fn mul_sat128(a: u128, b: u128) -> (r: u128)
    ensures
        r == sat_mul128(a, b),
{
    if b == 0 {
        proof {
            assert(a * 0 == 0) by (nonlinear_arith);
        }
        return 0;
    }
    if a > u128::MAX / b {
        proof {
            assert(a * b > u128::MAX) by (nonlinear_arith)
                requires
                    a > u128::MAX / b,
                    b > 0,
            ;
        }
        u128::MAX
    } else {
        proof {
            assert(a * b <= u128::MAX) by (nonlinear_arith)
                requires
                    a <= u128::MAX / b,
                    b > 0,
            ;
        }
        a * b
    }
}

/// The base gas cost of a calldata byte string.
pub open spec fn data_cost(data: Seq<u8>) -> nat
    decreases data.len(),
{
    if data.len() == 0 {
        0
    } else {
        data_cost(data.drop_last()) + (if data.last() == 0 {
            GAS_PER_ZERO_BYTE as nat
        } else {
            GAS_PER_NONZERO_BYTE as nat
        })
    }
}

/// The calldata cost is at most 16 gas per byte.
pub proof fn lemma_data_cost_bound(data: Seq<u8>)
    ensures
        data_cost(data) <= 16 * data.len(),
    decreases data.len(),
{
    if data.len() > 0 {
        lemma_data_cost_bound(data.drop_last());
    }
}

/// Computes the base gas cost of a calldata byte string.
pub fn data_gas_cost(data: &Vec<u8>) -> (r: u64)
    requires
        data@.len() <= crate::tx::MAX_TX_DATA_LEN,
    ensures
        r == data_cost(data@),
{
    proof {
        lemma_data_cost_bound(data@);
    }
    let mut cost: u64 = 0;
    let mut i: usize = 0;
    while i < data.len()
        invariant
            i <= data@.len(),
            data@.len() <= crate::tx::MAX_TX_DATA_LEN,
            cost == data_cost(data@.subrange(0, i as int)),
            cost <= 16 * i,
        decreases data@.len() - i,
    {
        let ghost pre = data@.subrange(0, i as int + 1);
        proof {
            lemma_data_cost_bound(data@.subrange(0, i as int));
            assert(pre.drop_last() =~= data@.subrange(0, i as int));
            assert(pre.last() == data@[i as int]);
        }
        if data[i] == 0 {
            cost = cost + GAS_PER_ZERO_BYTE;
        } else {
            cost = cost + GAS_PER_NONZERO_BYTE;
        }
        i = i + 1;
    }
    proof {
        assert(data@.subrange(0, data@.len() as int) =~= data@);
    }
    cost
}

/// One fee credit the allocator hands out.
pub struct FeeInlet {
    pub address: H160,
    pub amount: u128,
}

/// The sum of the amounts of a credit list.
pub open spec fn sum_inlets(s: Seq<FeeInlet>) -> int
    decreases s.len(),
{
    if s.len() == 0 {
        0
    } else {
        sum_inlets(s.drop_last()) + s.last().amount
    }
}

/// The fee-allocation policy: splits the collected fee of one block among
/// accounts. Implementations never hand out more than was collected.
pub trait FeeAllocate {
    fn allocate(
        &self,
        block_number: u64,
        fee_collect: u128,
        proposer: &H160,
        validators: &Vec<ValidatorExtend>,
    ) -> (r: Vec<FeeInlet>)
        requires
            proposer.wf(),
        ensures
            sum_inlets(r@) <= fee_collect,
            forall|i: int| 0 <= i < r@.len() ==> (#[trigger] r@[i]).address.wf(),
    ;
}

/// The default policy: the whole collected fee goes to the block proposer.
pub struct DefaultFeeAllocator;

impl FeeAllocate for DefaultFeeAllocator {
    fn allocate(
        &self,
        block_number: u64,
        fee_collect: u128,
        proposer: &H160,
        validators: &Vec<ValidatorExtend>,
    ) -> (r: Vec<FeeInlet>)
        ensures
            r@.len() == 1,
            r@[0].address@ == proposer@,
            r@[0].amount == fee_collect,
    {
        let mut out: Vec<FeeInlet> = Vec::new();
        out.push(FeeInlet { address: proposer.duplicate(), amount: fee_collect });
        proof {
            assert(out@.drop_last() =~= Seq::<FeeInlet>::empty());
            assert(sum_inlets(Seq::<FeeInlet>::empty()) == 0);
            assert(out@.last().amount == fee_collect);
            assert(sum_inlets(out@) == sum_inlets(out@.drop_last()) + out@.last().amount);
        }
        out
    }
}

/// The account after one credit: the balance grows by the amount, saturating;
/// nothing else moves.
pub open spec fn credit_account(m: Map<Seq<u8>, AccountModel>, who: Seq<u8>, amount: u128)
    -> AccountModel {
    let a = account_of(m, who);
    AccountModel {
        nonce: a.nonce,
        balance: sat_add128(a.balance, amount),
        storage_root: a.storage_root,
        code_hash: a.code_hash,
    }
}

/// The account map after a credit list is applied in order; a zero credit is
/// skipped.
pub open spec fn apply_credits_spec(m: Map<Seq<u8>, AccountModel>, credits: Seq<FeeInlet>)
    -> Map<Seq<u8>, AccountModel>
    decreases credits.len(),
{
    if credits.len() == 0 {
        m
    } else {
        let prev = apply_credits_spec(m, credits.drop_last());
        let c = credits.last();
        if c.amount == 0 {
            prev
        } else {
            prev.insert(c.address@, credit_account(prev, c.address@, c.amount))
        }
    }
}

/// Applying credits only ever credits: an account present before is still
/// present, its balance has not shrunk, and its nonce is untouched.
pub proof fn lemma_apply_credits_grows(
    m: Map<Seq<u8>, AccountModel>,
    credits: Seq<FeeInlet>,
    k: Seq<u8>,
)
    requires
        m.contains_key(k),
    ensures
        apply_credits_spec(m, credits).contains_key(k),
        apply_credits_spec(m, credits)[k].balance >= m[k].balance,
        apply_credits_spec(m, credits)[k].nonce == m[k].nonce,
    decreases credits.len(),
{
    if credits.len() > 0 {
        lemma_apply_credits_grows(m, credits.drop_last(), k);
        let prev = apply_credits_spec(m, credits.drop_last());
        let c = credits.last();
        if c.amount != 0 && k == c.address@ {
            assert(account_of(prev, k) == prev[k]);
            assert(apply_credits_spec(m, credits)[k] == credit_account(
                prev,
                c.address@,
                c.amount,
            ));
        }
    }
}

/// Applies a credit list to the backend: afterwards the accounts are exactly
/// the old accounts with the credits applied in order.
pub fn apply_credits<B: ExecutorAdapter>(backend: &mut B, credits: &Vec<FeeInlet>)
    requires
        forall|k: int| 0 <= k < credits@.len() ==> (#[trigger] credits@[k]).address.wf(),
    ensures
        final(backend).accounts() == apply_credits_spec(old(backend).accounts(), credits@),
        final(backend).block_number_spec() == old(backend).block_number_spec(),
        final(backend).origin_spec() == old(backend).origin_spec(),
        final(backend).gas_price_spec() == old(backend).gas_price_spec(),
        final(backend).pending_logs() == old(backend).pending_logs(),
{
    let mut i: usize = 0;
    while i < credits.len()
        invariant
            i <= credits@.len(),
            forall|k: int| 0 <= k < credits@.len() ==> (#[trigger] credits@[k]).address.wf(),
            backend.accounts() == apply_credits_spec(
                old(backend).accounts(),
                credits@.subrange(0, i as int),
            ),
            backend.block_number_spec() == old(backend).block_number_spec(),
            backend.origin_spec() == old(backend).origin_spec(),
            backend.gas_price_spec() == old(backend).gas_price_spec(),
            backend.pending_logs() == old(backend).pending_logs(),
        decreases credits@.len() - i,
    {
        let ghost pre = backend.accounts();
        if credits[i].amount != 0 {
            let mut account = backend.get_account(&credits[i].address);
            account.balance = add_sat128(account.balance, credits[i].amount);
            backend.save_account(&credits[i].address, &account);
            proof {
                let c = credits@[i as int];
                assert(model(account) == credit_account(pre, c.address@, c.amount));
            }
        }
        i = i + 1;
        proof {
            let sub = credits@.subrange(0, i as int);
            assert(sub.drop_last() =~= credits@.subrange(0, i as int - 1));
            assert(sub.last() == credits@[i as int - 1]);
        }
    }
    proof {
        assert(credits@.subrange(0, credits@.len() as int) =~= credits@);
    }
}

/// Asks the installed allocator how to split the collected fee and credits
/// each output to its account. Fee conservation: at block zero nothing is
/// allocated; at any later block the new accounts are exactly the old ones
/// with some credit list applied whose amounts sum to at most the fee.
pub fn allocate_fees<B: ExecutorAdapter, F: FeeAllocate>(
    backend: &mut B,
    fee: u128,
    proposer: &H160,
    validators: &Vec<ValidatorExtend>,
    allocator: &F,
)
    requires
        proposer.wf(),
    ensures
        old(backend).block_number_spec() == 0 ==> final(backend).accounts() == old(
            backend,
        ).accounts(),
        old(backend).block_number_spec() != 0 ==> exists|credits: Seq<FeeInlet>|
            {
                &&& #[trigger] sum_inlets(credits) <= fee
                &&& final(backend).accounts() == apply_credits_spec(
                    old(backend).accounts(),
                    credits,
                )
            },
        final(backend).block_number_spec() == old(backend).block_number_spec(),
        final(backend).origin_spec() == old(backend).origin_spec(),
        final(backend).gas_price_spec() == old(backend).gas_price_spec(),
        final(backend).pending_logs() == old(backend).pending_logs(),
{
    let block_number = backend.block_number();
    if block_number == 0 {
        return ;
    }
    let alloc = allocator.allocate(block_number, fee, proposer, validators);
    apply_credits(backend, &alloc);
    proof {
        assert(sum_inlets(alloc@) <= fee && final(backend).accounts() == apply_credits_spec(
            old(backend).accounts(),
            alloc@,
        ));
    }
}

/// Checks whether a transaction calls the native-token system contract.
pub fn is_call_system_script(action: &TransactionAction) -> (r: bool)
    ensures
        r == (action matches TransactionAction::Call(a) && a@ == native_token_address_bytes()),
{
    let native = native_token_address();
    match action {
        TransactionAction::Call(addr) => addr.equals(&native),
        TransactionAction::Create => false,
    }
}

/// Checks whether a transaction is a call to the given address.
pub fn is_transaction_call(action: &TransactionAction, addr: &H160) -> (r: bool)
    ensures
        r == (action matches TransactionAction::Call(a) && a@ == addr@),
{
    match action {
        TransactionAction::Call(a) => a.equals(addr),
        TransactionAction::Create => false,
    }
}

/// The reserved address of the system contract with the given discriminator:
/// nineteen sentinel bytes, then the discriminator.
pub open spec fn system_contract_address_bytes(disc: u8) -> Seq<u8> {
    Seq::new(19, |i: int| 0xffu8) + seq![disc]
}

/// Builds the reserved address of a system contract.
pub fn system_contract_address(disc: u8) -> (r: H160)
    ensures
        r@ == system_contract_address_bytes(disc),
        r.wf(),
{
    let mut bytes: Vec<u8> = Vec::new();
    let mut i: usize = 0;
    while i < 19
        invariant
            i <= 19,
            bytes@ =~= Seq::new(i as nat, |j: int| 0xffu8),
        decreases 19 - i,
    {
        bytes.push(0xff);
        i = i + 1;
        proof {
            assert(bytes@ =~= Seq::new(i as nat, |j: int| 0xffu8));
        }
    }
    bytes.push(disc);
    proof {
        assert(bytes@ =~= system_contract_address_bytes(disc));
    }
    H160 { bytes }
}

/// The native-token system contract's address bytes.
pub open spec fn native_token_address_bytes() -> Seq<u8> {
    system_contract_address_bytes(0x0)
}

/// The native-token system contract's address.
pub fn native_token_address() -> (r: H160)
    ensures
        r@ == native_token_address_bytes(),
        r.wf(),
{
    system_contract_address(0x0)
}

/// The metadata system contract's address bytes.
pub open spec fn metadata_address_bytes() -> Seq<u8> {
    system_contract_address_bytes(0x1)
}

/// The metadata system contract's address.
pub fn metadata_address() -> (r: H160)
    ensures
        r@ == metadata_address_bytes(),
        r.wf(),
{
    system_contract_address(0x1)
}


/// The nonce an address reads as in an account map.
pub open spec fn account_nonce(m: Map<Seq<u8>, AccountModel>, who: Seq<u8>) -> u64 {
    if m.contains_key(who) {
        m[who].nonce
    } else {
        0
    }
}

/// The balance an address reads as in an account map.
pub open spec fn account_balance(m: Map<Seq<u8>, AccountModel>, who: Seq<u8>) -> u128 {
    if m.contains_key(who) {
        m[who].balance
    } else {
        0
    }
}

/// The account an unwritten address reads as: zero nonce and balance, the
/// empty-storage root, the digest of no code.
pub open spec fn default_account_model() -> AccountModel {
    AccountModel {
        nonce: 0,
        balance: 0,
        storage_root: keccak_spec(rlp_str(Seq::empty())),
        code_hash: keccak_spec(Seq::empty()),
    }
}

/// The account an address reads as, defaulting when unwritten.
pub open spec fn account_of(m: Map<Seq<u8>, AccountModel>, who: Seq<u8>) -> AccountModel {
    if m.contains_key(who) {
        m[who]
    } else {
        default_account_model()
    }
}

/// The saturating total gas of a run's responses.
pub open spec fn sum_gas(s: Seq<TxResp>) -> u64
    decreases s.len(),
{
    if s.len() == 0 {
        0
    } else {
        sat_add64(sum_gas(s.drop_last()), s.last().gas_used)
    }
}

/// The bytes of the all-zero address.
pub open spec fn zero_address_bytes() -> Seq<u8> {
    Seq::new(20, |i: int| 0u8)
}

/// The all-zero address, standing in for an absent caller.
pub fn zero_address() -> (r: H160)
    ensures
        r.wf(),
        r@ == zero_address_bytes(),
{
    let mut bytes: Vec<u8> = Vec::new();
    let mut i: usize = 0;
    while i < 20
        invariant
            i <= 20,
            bytes@ =~= Seq::new(i as nat, |j: int| 0u8),
        decreases 20 - i,
    {
        bytes.push(0);
        i = i + 1;
        proof {
            assert(bytes@ =~= Seq::new(i as nat, |j: int| 0u8));
        }
    }
    H160 { bytes }
}

/// The base gas charge of a query: call or create, plus the calldata cost.
pub open spec fn base_gas(is_call: bool, data: Seq<u8>) -> int {
    if is_call {
        GAS_CALL_TRANSACTION + data_cost(data)
    } else {
        GAS_CREATE_TRANSACTION + GAS_CALL_TRANSACTION + data_cost(data)
    }
}

/// The deterministic executor.
pub struct AxonExecutor;

impl AxonExecutor {
    /// Answers a read-only query: simulates the run against the current
    /// state, charges the base gas on top, and reports the address a
    /// creation would take, without committing anything.
    pub fn call<B: ExecutorAdapter>(
        &self,
        backend: &B,
        gas_limit: u64,
        from: Option<H160>,
        to: Option<H160>,
        value: u128,
        data: Vec<u8>,
    ) -> (r: TxResp)
        requires
            from matches Some(a) ==> a.wf(),
            to matches Some(a) ==> a.wf(),
            data@.len() <= crate::tx::MAX_TX_DATA_LEN,
        ensures
            r.gas_used >= base_gas(to is Some, data@),
            r.gas_used <= base_gas(to is Some, data@) + gas_limit,
            r.fee_cost == sat_mul128(backend.gas_price_spec(), r.gas_used as u128),
            (r.code_address is Some) <==> (to is None),
            (to is None && from is Some) ==> r.code_address is Some
                && r.code_address.unwrap()@ == crate::tx::code_address_spec(
                from.unwrap()@,
                account_nonce(backend.accounts(), from.unwrap()@),
            ),
            (to is None && from is None) ==> r.code_address is Some
                && r.code_address.unwrap()@ == crate::tx::code_address_spec(
                zero_address_bytes(),
                account_nonce(backend.accounts(), zero_address_bytes()),
            ),
            r.logs@.len() == 0,
            !r.removed,
    {
        let from_addr = match &from {
            Some(a) => a.duplicate(),
            None => zero_address(),
        };
        let base = if to.is_some() {
            add_sat64(GAS_CALL_TRANSACTION, data_gas_cost(&data))
        } else {
            add_sat64(GAS_CREATE_TRANSACTION + GAS_CALL_TRANSACTION, data_gas_cost(&data))
        };
        proof {
            lemma_data_cost_bound(data@);
            assert(base == base_gas(to is Some, data@));
        }
        let outcome = backend.simulate(&from_addr, &to, value, &data, gas_limit);
        let used_gas = add_sat64(outcome.gas_used, base);
        proof {
            assert(used_gas >= base);
            assert(used_gas <= base_gas(to is Some, data@) + gas_limit);
        }
        let gas_price = backend.gas_price();
        let code_addr = if to.is_none() {
            let nonce = backend.get_account(&from_addr).nonce;
            Some(code_address(&from_addr, nonce))
        } else {
            None
        };
        TxResp {
            exit_succeed: outcome.exit_succeed,
            ret: outcome.ret,
            remain_gas: outcome.remain_gas,
            gas_used: used_gas,
            fee_cost: mul_sat128(gas_price, used_gas as u128),
            logs: Vec::new(),
            code_address: code_addr,
            removed: false,
        }
    }

    /// Runs one transaction through the EVM: prepays the gas limit from the
    /// sender, snapshots the nonce, runs the black box, forces the nonce
    /// bump whatever the outcome, refunds the remaining gas, and prices the
    /// fee from the gas actually used.
    pub fn evm_exec<B: ExecutorAdapter>(backend: &mut B, tx: &SignedTransaction) -> (r: TxResp)
        requires
            stx_wf(*tx),
        ensures
            r.gas_used <= tx.unsigned.gas_limit,
            r.remain_gas <= tx.unsigned.gas_limit - r.gas_used,
            r.fee_cost == sat_mul128(old(backend).gas_price_spec(), r.gas_used as u128),
            (r.code_address is Some) <==> (tx.unsigned.action is Create && r.exit_succeed),
            r.code_address is Some ==> r.code_address.unwrap()@ == crate::tx::code_address_spec(
                tx.sender@,
                account_nonce(old(backend).accounts(), tx.sender@),
            ),
            final(backend).accounts().contains_key(tx.sender@),
            final(backend).accounts()[tx.sender@].nonce == sat_add64(
                account_nonce(old(backend).accounts(), tx.sender@),
                1,
            ),
            !r.exit_succeed ==> final(backend).accounts()[tx.sender@].balance == sat_add128(
                sat_sub128(
                    account_balance(old(backend).accounts(), tx.sender@),
                    sat_mul128(old(backend).gas_price_spec(), tx.unsigned.gas_limit as u128),
                ),
                sat_mul128(old(backend).gas_price_spec(), r.remain_gas as u128),
            ),
            final(backend).origin_spec() == old(backend).origin_spec(),
            final(backend).gas_price_spec() == old(backend).gas_price_spec(),
            final(backend).block_number_spec() == old(backend).block_number_spec(),
            r.logs@.len() == 0,
            !r.removed,
    {
        let gas_price = backend.gas_price();
        let gas_limit = tx.unsigned.gas_limit;
        let prepay = mul_sat128(gas_price, gas_limit as u128);
        let mut account = backend.get_account(&tx.sender);
        let old_nonce = account.nonce;
        account.balance = sub_sat128(account.balance, prepay);
        backend.save_account(&tx.sender, &account);
        let outcome = backend.run_evm(tx);
        let code_addr = match &tx.unsigned.action {
            TransactionAction::Create => {
                if outcome.exit_succeed {
                    Some(code_address(&tx.sender, old_nonce))
                } else {
                    None
                }
            },
            TransactionAction::Call(_) => None,
        };
        let mut account = backend.get_account(&tx.sender);
        account.nonce = add_sat64(old_nonce, 1);
        if outcome.remain_gas != 0 {
            let refund = mul_sat128(gas_price, outcome.remain_gas as u128);
            account.balance = add_sat128(account.balance, refund);
        }
        backend.save_account(&tx.sender, &account);
        TxResp {
            exit_succeed: outcome.exit_succeed,
            ret: outcome.ret,
            remain_gas: outcome.remain_gas,
            gas_used: outcome.gas_used,
            fee_cost: mul_sat128(gas_price, outcome.gas_used as u128),
            logs: Vec::new(),
            code_address: code_addr,
            removed: false,
        }
    }

    /// Executes an ordered block of transactions: each one dispatched to a
    /// system contract or the EVM, logs drained into its receipt, gas and
    /// fees accumulated, the collected fee allocated to the block proposer's
    /// side by the installed policy, the overlay committed once, and the
    /// receipts root built over the return-data digests in order.
    pub fn exec<B: ExecutorAdapter, F: FeeAllocate>(
        &self,
        backend: &mut B,
        store: &mut crate::metadata::MetadataStore,
        txs: &Vec<SignedTransaction>,
        proposer: &H160,
        validators: &Vec<ValidatorExtend>,
        allocator: &F,
    ) -> (r: ExecResp)
        requires
            proposer.wf(),
            old(store).wf(),
            forall|i: int| 0 <= i < txs@.len() ==> stx_wf(#[trigger] txs@[i]),
            txs@.len() <= 0x0010_0000,
        ensures
            final(store).wf(),
            r.tx_resp@.len() == txs@.len(),
            r.gas_used == sum_gas(r.tx_resp@),
            r.receipt_root@ == crate::tx::receipts_root_spec(
                r.tx_resp@.map_values(|t: TxResp| keccak_spec(t.ret@)),
            ),
            r.state_root@.len() == 32,
            r.receipt_root@.len() == 32,
    {
        let mut res: Vec<TxResp> = Vec::new();
        let mut leaves: Vec<H256> = Vec::new();
        let mut gas: u64 = 0;
        let mut fee: u128 = 0;
        let mut i: usize = 0;
        while i < txs.len()
            invariant
                i <= txs@.len(),
                txs@.len() <= 0x0010_0000,
                forall|k: int| 0 <= k < txs@.len() ==> stx_wf(#[trigger] txs@[k]),
                store.wf(),
                res@.len() == i,
                leaves@.len() == i,
                forall|k: int| 0 <= k < i ==> (#[trigger] leaves@[k]).wf(),
                forall|k: int|
                    0 <= k < i ==> (#[trigger] leaves@[k])@ == keccak_spec(res@[k].ret@),
                gas == sum_gas(res@),
            decreases txs@.len() - i,
        {
            let tx = &txs[i];
            backend.set_gas_price(tx.unsigned.gas_price);
            backend.set_origin(tx.sender.duplicate());
            let dispatched = crate::metadata::system_contract_dispatch(backend, store, tx);
            let mut r = match dispatched {
                Some(resp) => resp,
                None => Self::evm_exec(backend, tx),
            };
            r.logs = backend.get_logs();
            gas = add_sat64(gas, r.gas_used);
            fee = add_sat128(fee, r.fee_cost);
            let leaf = keccak256(&r.ret);
            let ghost prev_res = res@;
            let ghost prev_leaves = leaves@;
            leaves.push(leaf);
            res.push(r);
            i = i + 1;
            proof {
                assert(res@.drop_last() =~= prev_res);
            }
        }
        allocate_fees(backend, fee, proposer, validators, allocator);
        let state_root = backend.commit();
        let receipt_root = crate::tx::receipts_root(&leaves);
        proof {
            assert(leaves@.map_values(|h: H256| h@) =~= res@.map_values(
                |t: TxResp| keccak_spec(t.ret@),
            ));
        }
        ExecResp { state_root, receipt_root, gas_used: gas, tx_resp: res }
    }

    /// Reads an account through the backend; an address never written reads
    /// as the default account.
    pub fn get_account<B: ExecutorAdapter>(&self, backend: &B, address: &H160) -> (r: Account)
        requires
            address.wf(),
        ensures
            r.wf(),
            model(r) == account_of(backend.accounts(), address@),
    {
        backend.get_account(address)
    }
}

} // verus!
