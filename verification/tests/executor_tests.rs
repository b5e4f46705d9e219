use axon_core::executor::{
    is_call_system_script, is_transaction_call, metadata_address, native_token_address,
    AxonExecutor, DefaultFeeAllocator, ExecutorAdapter, FeeAllocate,
};
use axon_core::hashing::keccak256;
use axon_core::memory::{default_account, MemoryAdapter};
use axon_core::metadata::MetadataStore;
use axon_core::tx::seal_transaction;
use axon_core::types::{
    Eip1559Transaction, SignatureComponents, SignedTransaction, TransactionAction, H160,
};

fn addr(b: u8) -> H160 {
    H160 { bytes: vec![b; 20] }
}

fn sig() -> SignatureComponents {
    SignatureComponents { standard_v: 1, r: vec![7; 32], s: vec![9; 32] }
}

fn transfer_tx(from: u8, to: u8, value: u128, gas_limit: u64, gas_price: u128, nonce: u64)
    -> SignedTransaction {
    let unsigned = Eip1559Transaction {
        nonce,
        max_priority_fee_per_gas: 0,
        gas_price,
        gas_limit,
        action: TransactionAction::Call(addr(to)),
        value,
        data: vec![],
        access_list: vec![],
    };
    seal_transaction(unsigned, sig(), 1, addr(from))
}

fn fund(backend: &mut MemoryAdapter, who: u8, balance: u128, nonce: u64) {
    let mut acc = default_account();
    acc.balance = balance;
    acc.nonce = nonce;
    backend.save_account(&addr(who), &acc);
}

#[test]
fn single_tx_block() {
    let mut backend = MemoryAdapter::new(1);
    fund(&mut backend, 0xaa, 1_000_000, 0);
    let tx = transfer_tx(0xaa, 0xbb, 100, 21_000, 1, 0);
    let mut store = MetadataStore::new();
    let executor = AxonExecutor;
    let resp = executor.exec(
        &mut backend,
        &mut store,
        &vec![tx],
        &addr(0xcc),
        &vec![],
        &DefaultFeeAllocator,
    );

    assert_eq!(resp.tx_resp.len(), 1);
    assert!(resp.tx_resp[0].exit_succeed);
    assert_eq!(resp.gas_used, 21_000);
    assert_eq!(resp.tx_resp[0].fee_cost, 21_000);

    let a = backend.get_account(&addr(0xaa));
    let b = backend.get_account(&addr(0xbb));
    let p = backend.get_account(&addr(0xcc));
    // The sender prepaid 21_000 and sent 100; the default allocator credited
    // the whole collected fee to the block proposer.
    assert_eq!(a.balance, 1_000_000 - 100 - 21_000);
    assert_eq!(a.nonce, 1);
    assert_eq!(b.balance, 100);
    assert_eq!(p.balance, 21_000);

    // Receipts root: keccak of the RLP list of (0, keccak(empty return)),
    // built independently from the reference RLP crate.
    let empty_ret_digest = keccak256(&Vec::new());
    let mut inner = rlp::RlpStream::new_list(2);
    inner.append(&0u64);
    inner.append(&empty_ret_digest.bytes);
    let inner_bytes = inner.out().to_vec();
    let mut outer: Vec<u8> = Vec::new();
    outer.push(0xc0 + inner_bytes.len() as u8);
    outer.extend_from_slice(&inner_bytes);
    let expected_root = keccak256(&outer);
    assert_eq!(resp.receipt_root.bytes, expected_root.bytes);
}

#[test]
fn no_allocation_at_genesis_block() {
    let mut backend = MemoryAdapter::new(0);
    fund(&mut backend, 0xaa, 1_000_000, 0);
    let tx = transfer_tx(0xaa, 0xbb, 100, 21_000, 1, 0);
    let mut store = MetadataStore::new();
    let executor = AxonExecutor;
    let resp = executor.exec(
        &mut backend,
        &mut store,
        &vec![tx],
        &addr(0xcc),
        &vec![],
        &DefaultFeeAllocator,
    );
    assert!(resp.tx_resp[0].exit_succeed);
    let a = backend.get_account(&addr(0xaa));
    let p = backend.get_account(&addr(0xcc));
    // The fee is collected but never allocated at block zero.
    assert_eq!(a.balance, 1_000_000 - 100 - 21_000);
    assert_eq!(p.balance, 0);
}

#[test]
fn default_allocator_gives_everything_to_proposer() {
    let allocator = DefaultFeeAllocator;
    let out = allocator.allocate(5, 4_000, &addr(0xcc), &vec![]);
    assert_eq!(out.len(), 1);
    assert_eq!(out[0].address.bytes, addr(0xcc).bytes);
    assert_eq!(out[0].amount, 4_000);
}

#[test]
fn create_then_call() {
    let mut backend = MemoryAdapter::new(2);
    fund(&mut backend, 0xaa, 10_000_000, 0);
    let create = seal_transaction(
        Eip1559Transaction {
            nonce: 0,
            max_priority_fee_per_gas: 0,
            gas_price: 1,
            gas_limit: 100_000,
            action: TransactionAction::Create,
            value: 0,
            data: vec![0x2a],
            access_list: vec![],
        },
        sig(),
        1,
        addr(0xaa),
    );

    // The created address: keccak(rlp([sender, nonce]))[12..], built from the
    // reference RLP crate.
    let mut stream = rlp::RlpStream::new_list(2);
    stream.append(&addr(0xaa).bytes);
    stream.append(&0u64);
    let digest = keccak256(&stream.out().to_vec());
    let expected_code_address = digest.bytes[12..32].to_vec();

    let mut store = MetadataStore::new();
    let executor = AxonExecutor;
    let resp1 = executor.exec(
        &mut backend,
        &mut store,
        &vec![create],
        &addr(0xcc),
        &vec![],
        &DefaultFeeAllocator,
    );
    assert!(resp1.tx_resp[0].exit_succeed);
    let created = resp1.tx_resp[0].code_address.as_ref().expect("a creation names its address");
    assert_eq!(created.bytes, expected_code_address);

    let call = seal_transaction(
        Eip1559Transaction {
            nonce: 1,
            max_priority_fee_per_gas: 0,
            gas_price: 1,
            gas_limit: 100_000,
            action: TransactionAction::Call(H160 { bytes: expected_code_address.clone() }),
            value: 0,
            data: vec![],
            access_list: vec![],
        },
        sig(),
        1,
        addr(0xaa),
    );
    let resp2 = executor.exec(
        &mut backend,
        &mut store,
        &vec![call],
        &addr(0xcc),
        &vec![],
        &DefaultFeeAllocator,
    );
    assert!(resp2.tx_resp[0].exit_succeed);
    assert_eq!(resp2.tx_resp[0].ret, vec![0x2a]);
}

#[test]
fn two_runs_are_identical() {
    // Determinism: two independent executions of the same ordered list
    // against equal pre-states agree in every output.
    let run = || {
        let mut backend = MemoryAdapter::new(3);
        fund(&mut backend, 0xaa, 1_000_000, 0);
        fund(&mut backend, 0xcc, 500_000, 4);
        let txs = vec![
            transfer_tx(0xaa, 0xbb, 100, 21_000, 1, 0),
            transfer_tx(0xcc, 0xbb, 250, 30_000, 2, 4),
        ];
        let mut store = MetadataStore::new();
        let executor = AxonExecutor;
        let resp = executor.exec(
            &mut backend,
            &mut store,
            &txs,
            &addr(0xee),
            &vec![],
            &DefaultFeeAllocator,
        );
        let a = backend.get_account(&addr(0xaa)).balance;
        let b = backend.get_account(&addr(0xbb)).balance;
        let c = backend.get_account(&addr(0xcc)).balance;
        (resp.state_root.bytes, resp.receipt_root.bytes, resp.gas_used, a, b, c)
    };
    let first = run();
    let second = run();
    assert_eq!(first, second);
}

#[test]
fn read_only_call_reports_base_gas_and_code_address() {
    let mut backend = MemoryAdapter::new(1);
    fund(&mut backend, 0xaa, 1_000_000, 0);
    backend.set_gas_price(2);
    let executor = AxonExecutor;
    let resp = executor.call(&backend, 50_000, Some(addr(0xaa)), None, 0, vec![1, 0, 2]);
    // Create base charge: 32_000 + 21_000 plus calldata (16 + 4 + 16).
    assert_eq!(resp.gas_used, 32_000 + 21_000 + 36);
    assert!(resp.code_address.is_some());
    assert_eq!(resp.fee_cost, 2 * (32_000 + 21_000 + 36) as u128);

    let resp2 = executor.call(&backend, 50_000, Some(addr(0xaa)), Some(addr(0xbb)), 0, vec![]);
    assert_eq!(resp2.gas_used, 21_000);
    assert!(resp2.code_address.is_none());
}

#[test]
fn system_script_predicates() {
    let native = native_token_address();
    let md = metadata_address();
    assert!(is_call_system_script(&TransactionAction::Call(native)));
    assert!(!is_call_system_script(&TransactionAction::Call(addr(0x01))));
    assert!(!is_call_system_script(&TransactionAction::Create));
    assert!(is_transaction_call(&TransactionAction::Call(metadata_address()), &md));
    assert!(!is_transaction_call(&TransactionAction::Create, &md));
}

#[test]
fn reverted_transfer_keeps_nonce_and_charges_gas() {
    let mut backend = MemoryAdapter::new(1);
    fund(&mut backend, 0xaa, 10_000, 0);
    // Value exceeds the balance: the transfer reverts, the nonce still bumps.
    let tx = transfer_tx(0xaa, 0xbb, 1_000_000, 2_000, 1, 0);
    let mut store = MetadataStore::new();
    let executor = AxonExecutor;
    let resp = executor.exec(
        &mut backend,
        &mut store,
        &vec![tx],
        &addr(0xcc),
        &vec![],
        &DefaultFeeAllocator,
    );
    assert!(!resp.tx_resp[0].exit_succeed);
    let a = backend.get_account(&addr(0xaa));
    assert_eq!(a.nonce, 1);
    // The failed run still charged the whole 2_000-gas prepay at price 1.
    assert_eq!(a.balance, 10_000 - 2_000);
    let b = backend.get_account(&addr(0xbb));
    assert_eq!(b.balance, 0);
}
