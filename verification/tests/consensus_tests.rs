use axon_core::consensus::{set_choke, set_proposal, set_qc, set_vote, ConsensusError, ConsensusType};
use axon_core::codec::{encode_choke, encode_proposal, encode_qc, encode_vote, SignedVote};
use axon_core::driver::{proposer_index, DriverState, Phase};
use axon_core::codec::{AggregatedVote, SignedChoke, SignedProposal};
use axon_core::executor::{ExecutorAdapter, metadata_address};
use axon_core::memory::MemoryAdapter;
use axon_core::metadata::{
    decode_append_call, encode_append_call, MetadataContract, MetadataStore,
};
use axon_core::reactor::{
    generate, react_message, rpc_resp, Endpoint, EndpointScheme, MessageCodec, MessageHandler,
    NetworkMessage, NoopHandler, ReactOutcome, Reactor, RpcMap, RpcResponse, TrustFeedback,
};
use axon_core::status::{gen_overlord_status, genesis_status, SignedTxsWAL, TxsWalEntry};
use axon_core::tx::seal_transaction;
use axon_core::types::{
    Eip1559Transaction, Metadata, SignatureComponents, SignedTransaction, TransactionAction,
    Validator, ValidatorExtend, H160,
};

fn addr(b: u8) -> H160 {
    H160 { bytes: vec![b; 20] }
}

fn sig() -> SignatureComponents {
    SignatureComponents { standard_v: 1, r: vec![7; 32], s: vec![9; 32] }
}

fn validator(key: u8, weight: u64) -> Validator {
    Validator { pub_key: vec![key; 32], propose_weight: weight, vote_weight: weight }
}

fn verifier_entry(key: u8, who: u8) -> ValidatorExtend {
    ValidatorExtend {
        pub_key: vec![key; 32],
        address: addr(who),
        propose_weight: 1,
        vote_weight: 1,
    }
}

fn epoch(epoch: u64, start: u64, end: u64, who: u8) -> Metadata {
    Metadata {
        epoch,
        version_start: start,
        version_end: end,
        interval: 3_000,
        propose_ratio: 15,
        prevote_ratio: 10,
        precommit_ratio: 10,
        brake_ratio: 10,
        verifier_list: vec![verifier_entry(who, who)],
    }
}

#[test]
fn metadata_epochs_partition_the_height_axis() {
    let mut store = MetadataStore::new();
    assert!(store.append_metadata(epoch(0, 0, 99, 0x11)).is_ok());
    assert!(store.append_metadata(epoch(1, 100, 199, 0x22)).is_ok());
    // A gap is refused.
    assert!(store.append_metadata(epoch(2, 250, 300, 0x33)).is_err());
    // An overlap is refused.
    assert!(store.append_metadata(epoch(2, 150, 300, 0x33)).is_err());
    // A wrong epoch number is refused.
    assert!(store.append_metadata(epoch(5, 200, 300, 0x33)).is_err());
    // Lookups find the unique covering epoch.
    assert_eq!(store.epoch_for_height(0), Some(0));
    assert_eq!(store.epoch_for_height(99), Some(0));
    assert_eq!(store.epoch_for_height(100), Some(1));
    assert_eq!(store.epoch_for_height(199), Some(1));
    assert_eq!(store.epoch_for_height(200), None);
    // The validator check reads the right epoch.
    assert_eq!(store.is_validator(50, &addr(0x11)).unwrap(), true);
    assert_eq!(store.is_validator(50, &addr(0x22)).unwrap(), false);
    assert_eq!(store.is_validator(150, &addr(0x22)).unwrap(), true);
    assert!(store.is_validator(500, &addr(0x11)).is_err());
    // The cached read agrees with the list.
    assert_eq!(store.get_epoch_index(0), Some(0));
    assert_eq!(store.get_epoch_index(0), Some(0));
    assert_eq!(store.get_epoch_index(7), None);
}

fn append_tx(sender: u8, block_meta: Metadata, gas_limit: u64) -> SignedTransaction {
    let data = encode_append_call(&block_meta);
    seal_transaction(
        Eip1559Transaction {
            nonce: 0,
            max_priority_fee_per_gas: 0,
            gas_price: 1,
            gas_limit,
            action: TransactionAction::Call(metadata_address()),
            value: 0,
            data,
            access_list: vec![],
        },
        sig(),
        1,
        addr(sender),
    )
}

#[test]
fn metadata_append_by_non_validator_reverts_with_full_gas() {
    let mut store = MetadataStore::new();
    assert!(store.append_metadata(epoch(0, 0, 199, 0x11)).is_ok());
    let mut backend = MemoryAdapter::new(100);
    // 0x99 is not in the verifier list of the epoch covering block 100.
    let tx = append_tx(0x99, epoch(1, 200, 299, 0x11), 80_000);
    let contract = MetadataContract;
    let resp = contract.exec_(&mut backend, &mut store, &tx);
    assert!(!resp.exit_succeed);
    assert_eq!(resp.gas_used, 80_000);
    assert_eq!(resp.remain_gas, 0);
    assert_eq!(store.list.len(), 1);
}

#[test]
fn metadata_append_by_validator_succeeds() {
    let mut store = MetadataStore::new();
    assert!(store.append_metadata(epoch(0, 0, 199, 0x11)).is_ok());
    let mut backend = MemoryAdapter::new(100);
    let tx = append_tx(0x11, epoch(1, 200, 299, 0x11), 80_000);
    let contract = MetadataContract;
    let resp = contract.exec_(&mut backend, &mut store, &tx);
    assert!(resp.exit_succeed);
    assert_eq!(resp.remain_gas, 80_000);
    assert_eq!(resp.gas_used, 0);
    assert_eq!(store.list.len(), 2);
    assert_eq!(store.epoch_for_height(250), Some(1));
}

#[test]
fn metadata_rejects_foreign_selector() {
    let good = encode_append_call(&epoch(0, 0, 9, 0x11));
    assert!(decode_append_call(&good).is_some());
    let mut bad = good.clone();
    bad[0] ^= 0xff;
    assert!(decode_append_call(&bad).is_none());
    let mut trailing = good.clone();
    trailing.push(0);
    assert!(decode_append_call(&trailing).is_none());
}

#[test]
fn genesis_bootstrap_only_at_height_zero() {
    let md = epoch(0, 0, 99, 0x11);
    let s = genesis_status(0, &md).expect("genesis injects a status");
    assert_eq!(s.height, 1);
    assert_eq!(s.interval, 3_000);
    assert_eq!(s.timer_config.propose_ratio, 15);
    assert_eq!(s.authority_list.len(), 1);
    assert!(genesis_status(42, &md).is_none());
}

#[test]
fn status_sorts_validators_by_key() {
    let vs = vec![validator(0x30, 7), validator(0x10, 5), validator(0x20, 9)];
    let s = gen_overlord_status(8, 3_000, 15, 10, 10, 10, vs);
    assert_eq!(s.authority_list.len(), 3);
    assert_eq!(s.authority_list[0].pub_key, vec![0x10; 32]);
    assert_eq!(s.authority_list[1].pub_key, vec![0x20; 32]);
    assert_eq!(s.authority_list[2].pub_key, vec![0x30; 32]);
    assert_eq!(s.authority_list[1].vote_weight, 9);
}

#[test]
fn wal_prune_drops_only_lower_heights() {
    let mut wal = SignedTxsWAL::new();
    wal.save(TxsWalEntry { height: 3, round: 0, txs: vec![] });
    wal.save(TxsWalEntry { height: 5, round: 1, txs: vec![] });
    wal.save(TxsWalEntry { height: 7, round: 0, txs: vec![] });
    wal.prune(5);
    assert_eq!(wal.entries.len(), 2);
    assert!(wal.entries.iter().all(|e| e.height >= 5));
}

fn authority() -> Vec<Validator> {
    vec![validator(0x01, 1), validator(0x02, 1), validator(0x03, 1)]
}

fn proposal(height: u64, round: u64) -> SignedProposal {
    SignedProposal {
        height,
        round,
        gas_used: 0,
        timestamp: 0,
        proposer: vec![0x01; 32],
        prev_hash: vec![0x0a; 32],
        state_root: vec![0x0b; 32],
        receipts_root: vec![0x0c; 32],
        tx_hashes: vec![],
        signature: vec![],
    }
}

fn qc(height: u64, round: u64, hash: u8, signer_keys: &[u8]) -> AggregatedVote {
    AggregatedVote {
        height,
        round,
        block_hash: vec![hash; 32],
        signers: signer_keys.iter().map(|k| vec![*k; 32]).collect(),
        signature: vec![],
    }
}

#[test]
fn quorum_commits_and_underweight_does_not() {
    // Authority of three equal weights: two signers reach 2/3, one does not.
    let mut d = DriverState::new(9, authority(), vec![0x02; 32]);
    let weak = qc(9, 0, 0xcd, &[0x01]);
    assert!(d.on_qc(&weak, true).is_none());
    assert_eq!(d.phase, Phase::Propose);

    let duplicated = qc(9, 0, 0xcd, &[0x01, 0x01]);
    assert!(d.on_qc(&duplicated, true).is_none());

    let strong = qc(9, 0, 0xcd, &[0x01, 0x03]);
    let committed = d.on_qc(&strong, true).expect("a quorum certificate commits");
    assert_eq!(committed, vec![0xcd; 32]);
    assert_eq!(d.phase, Phase::Commit);
}

#[test]
fn unknown_signers_carry_no_weight() {
    let mut d = DriverState::new(9, authority(), vec![0x02; 32]);
    let foreign = qc(9, 0, 0xcd, &[0x77, 0x88, 0x99]);
    assert!(d.on_qc(&foreign, true).is_none());
}

#[test]
fn proposer_timeout_falls_back_to_nil_and_round_advances() {
    let mut d = DriverState::new(4, authority(), vec![0x02; 32]);
    // The proposer of round 0 stays silent past its deadline.
    let nil = d.on_propose_timeout().expect("a timeout yields a nil prevote");
    assert!(nil.is_nil);
    assert_eq!(nil.height, 4);
    assert_eq!(nil.round, 0);
    assert_eq!(d.phase, Phase::Prevote);
    // A choke for the stalled round advances to round 1 without a proposal.
    let choke = SignedChoke { height: 4, round: 0, from: vec![0x03; 32], signature: vec![] };
    assert_eq!(d.on_choke(&choke), Some(1));
    assert_eq!(d.phase, Phase::Propose);
    // The alternative proposer emits at round 1 and the block commits there.
    let vote = d.on_proposal(&proposal(4, 1)).expect("a proposal in round 1 draws a prevote");
    assert!(!vote.is_nil);
    assert_eq!(vote.round, 1);
    let commit = d.on_qc(&qc(4, 1, 0x0b, &[0x01, 0x02]), true);
    assert_eq!(commit, Some(vec![0x0b; 32]));
}

#[test]
fn crash_between_prevote_and_precommit_resumes_and_commits_the_same_hash() {
    // A live node locks through a prevote quorum certificate...
    let mut live = DriverState::new(6, authority(), vec![0x02; 32]);
    live.on_proposal(&proposal(6, 0)).expect("proposal draws a prevote");
    assert!(live.on_qc(&qc(6, 0, 0x0b, &[0x01, 0x03]), false).is_none());
    assert_eq!(live.phase, Phase::Precommit);
    // ...persists its write-ahead-log record, and crashes.
    let rec = live.wal_record();
    let mut restored = DriverState::restore(rec, authority(), vec![0x02; 32]);
    assert_eq!(restored.phase, Phase::Precommit);
    assert_eq!(restored.round, 0);
    assert!(restored.lock.is_some());
    assert_eq!(restored.lock.as_ref().unwrap().hash, vec![0x0b; 32]);
    // The same quorum certificate is re-delivered: the restored node
    // commits the same hash the live one would.
    let replayed = restored.on_qc(&qc(6, 0, 0x0b, &[0x01, 0x03]), true);
    let live_commit = live.on_qc(&qc(6, 0, 0x0b, &[0x01, 0x03]), true);
    assert_eq!(replayed, live_commit);
    assert_eq!(replayed, Some(vec![0x0b; 32]));
}

#[test]
fn locked_node_prevotes_its_lock() {
    let mut d = DriverState::new(6, authority(), vec![0x02; 32]);
    d.on_proposal(&proposal(6, 0)).unwrap();
    d.on_qc(&qc(6, 0, 0x0b, &[0x01, 0x03]), false);
    let choke = SignedChoke { height: 6, round: 0, from: vec![0x03; 32], signature: vec![] };
    d.on_choke(&choke);
    // In the next round a different proposal arrives; the lock wins.
    let mut other = proposal(6, 1);
    other.state_root = vec![0x0e; 32];
    let vote = d.on_proposal(&other).unwrap();
    assert_eq!(vote.block_hash, vec![0x0b; 32]);
}

struct ByteMessage {
    payload: Vec<u8>,
}

impl MessageCodec for ByteMessage {
    fn encode_msg(&mut self) -> Vec<u8> {
        self.payload.clone()
    }

    fn decode_msg(bytes: &Vec<u8>) -> Option<ByteMessage> {
        if bytes.is_empty() {
            None
        } else {
            Some(ByteMessage { payload: bytes.clone() })
        }
    }
}

struct CountingHandler;

impl MessageHandler for CountingHandler {
    type Message = ByteMessage;

    fn process(&self, _message: ByteMessage) -> TrustFeedback {
        TrustFeedback::Good
    }
}

#[test]
fn rpc_response_without_pending_caller_is_warned_and_dropped() {
    let reactor = rpc_resp::<ByteMessage>();
    let mut map = RpcMap::new();
    map.insert(7, 40);
    let endpoint = Endpoint { scheme: EndpointScheme::RpcResponse, rpc_id: 41 };
    let message = NetworkMessage { content: vec![0, 1, 2, 3] };
    // Session 7 never registered rpc id 41: the reactor warns and returns ok.
    let out = reactor.react(&mut map, 7, &endpoint, &message);
    assert!(matches!(out, Ok(ReactOutcome::WarnedNoPending)));
    assert_eq!(map.entries.len(), 1);
}

#[test]
fn rpc_response_reaches_its_pending_caller() {
    let handler = NoopHandler::<ByteMessage>::new();
    let mut map = RpcMap::new();
    map.insert(7, 40);
    let endpoint = Endpoint { scheme: EndpointScheme::RpcResponse, rpc_id: 40 };
    let message = NetworkMessage { content: vec![0, 0xde, 0xad] };
    let out = react_message(&handler, &mut map, 7, &endpoint, &message);
    match out {
        Ok(ReactOutcome::Responded(RpcResponse::Success(body))) => {
            assert_eq!(body, vec![0xde, 0xad]);
        },
        _ => panic!("expected a delivered success response"),
    }
    assert_eq!(map.entries.len(), 0);

    // A non-zero first byte is an error body; an empty payload is an error.
    map.insert(7, 40);
    let message = NetworkMessage { content: vec![1, 0x6f, 0x68] };
    let out = react_message(&handler, &mut map, 7, &endpoint, &message);
    assert!(matches!(out, Ok(ReactOutcome::Responded(RpcResponse::Error(_)))));
}

#[test]
fn gossip_dispatches_to_the_handler() {
    let reactor = generate::<ByteMessage, CountingHandler>(CountingHandler);
    let mut map = RpcMap::new();
    let endpoint = Endpoint { scheme: EndpointScheme::Gossip, rpc_id: 0 };
    let ok = reactor.react(&mut map, 1, &endpoint, &NetworkMessage { content: vec![5] });
    assert!(matches!(ok, Ok(ReactOutcome::Handled(TrustFeedback::Good))));
    let bad = reactor.react(&mut map, 1, &endpoint, &NetworkMessage { content: vec![] });
    assert!(bad.is_err());
}

#[test]
fn consensus_edge_decodes_each_kind_and_reports_each_error() {
    let p = proposal(3, 1);
    let ok = set_proposal(&encode_proposal(&p)).unwrap();
    assert_eq!(ok.height, 3);
    assert!(matches!(
        set_proposal(&vec![1, 2, 3]),
        Err(ConsensusError::DecodeErr(ConsensusType::SignedProposal))
    ));

    let v = SignedVote {
        height: 8,
        round: 0,
        block_hash: vec![1; 32],
        is_nil: true,
        voter: vec![2; 32],
        signature: vec![],
    };
    assert_eq!(set_vote(&encode_vote(&v)).unwrap().height, 8);
    assert!(matches!(
        set_vote(&vec![]),
        Err(ConsensusError::DecodeErr(ConsensusType::SignedVote))
    ));

    let q = qc(8, 0, 0x11, &[0x01, 0x02]);
    assert_eq!(set_qc(&encode_qc(&q)).unwrap().signers.len(), 2);
    assert!(matches!(
        set_qc(&vec![0; 10]),
        Err(ConsensusError::DecodeErr(ConsensusType::AggregateVote))
    ));

    let c = SignedChoke { height: 8, round: 0, from: vec![3; 32], signature: vec![] };
    assert_eq!(set_choke(&encode_choke(&c)).unwrap().round, 0);
    assert!(matches!(
        set_choke(&vec![9; 20]),
        Err(ConsensusError::DecodeErr(ConsensusType::SignedChoke))
    ));
}

#[test]
fn proposer_rotates_by_weighted_height_plus_round() {
    // Equal weights: the rotation is the plain modulus.
    assert_eq!(proposer_index(&authority(), 4, 1), (4 + 1) % 3);
    assert_eq!(proposer_index(&authority(), 4, 2), 0);
    // A double-weight validator owns two ticket slots of the four.
    let weighted = vec![validator(0x01, 2), validator(0x02, 1), validator(0x03, 1)];
    assert_eq!(proposer_index(&weighted, 0, 0), 0);
    assert_eq!(proposer_index(&weighted, 0, 1), 0);
    assert_eq!(proposer_index(&weighted, 0, 2), 1);
    assert_eq!(proposer_index(&weighted, 0, 3), 2);
    assert_eq!(proposer_index(&weighted, 0, 4), 0);
}

#[test]
fn lock_released_only_by_a_strictly_higher_round() {
    let mut d = DriverState::new(6, authority(), vec![0x02; 32]);
    d.on_proposal(&proposal(6, 0)).unwrap();
    // A prevote quorum at round 0 locks its hash.
    assert!(d.on_qc(&qc(6, 0, 0x0b, &[0x01, 0x03]), false).is_none());
    assert_eq!(d.lock.as_ref().unwrap().hash, vec![0x0b; 32]);
    // Another certificate at the same round does not release the lock.
    d.on_qc(&qc(6, 0, 0x0e, &[0x01, 0x02]), false);
    assert_eq!(d.lock.as_ref().unwrap().hash, vec![0x0b; 32]);
    // A certificate at a strictly higher round does.
    d.on_qc(&qc(6, 1, 0x0e, &[0x01, 0x02]), false);
    assert_eq!(d.lock.as_ref().unwrap().hash, vec![0x0e; 32]);
    assert_eq!(d.lock.as_ref().unwrap().round, 1);
}
