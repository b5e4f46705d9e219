use axon_core::codec::{
    decode_choke, decode_message, decode_proposal, decode_qc, decode_vote, encode_choke,
    encode_message, encode_proposal, encode_qc, encode_vote, AggregatedVote, ConsensusMessage,
    SignedChoke, SignedProposal, SignedVote,
};
use axon_core::hashing::keccak256;
use axon_core::rlp::{min_be_exec, put_rlp_str, put_rlp_uint};
use axon_core::tx::{code_address, recompute_hash, seal_transaction};
use axon_core::types::{
    Eip1559Transaction, SignatureComponents, SignedTransaction, TransactionAction, H160, H256,
};

fn addr(b: u8) -> H160 {
    H160 { bytes: vec![b; 20] }
}

fn sig() -> SignatureComponents {
    SignatureComponents { standard_v: 1, r: vec![7; 32], s: vec![9; 32] }
}

fn sample_vote() -> SignedVote {
    SignedVote {
        height: 11,
        round: 2,
        block_hash: vec![0xab; 32],
        is_nil: false,
        voter: vec![0x33; 32],
        signature: vec![1, 2, 3, 4],
    }
}

#[test]
fn vote_round_trip() {
    let v = sample_vote();
    let bytes = encode_vote(&v);
    let back = decode_vote(&bytes).expect("a valid encoding decodes");
    assert_eq!(back.height, 11);
    assert_eq!(back.round, 2);
    assert_eq!(back.block_hash, vec![0xab; 32]);
    assert!(!back.is_nil);
    assert_eq!(back.voter, vec![0x33; 32]);
    assert_eq!(back.signature, vec![1, 2, 3, 4]);
}

#[test]
fn vote_rejects_trailing_byte() {
    let v = sample_vote();
    let mut bytes = encode_vote(&v);
    bytes.push(0);
    assert!(decode_vote(&bytes).is_none());
}

#[test]
fn vote_rejects_bad_nil_byte() {
    let v = sample_vote();
    let mut bytes = encode_vote(&v);
    bytes[48] = 2;
    assert!(decode_vote(&bytes).is_none());
}

#[test]
fn vote_rejects_truncation() {
    let v = sample_vote();
    let bytes = encode_vote(&v);
    let cut = bytes[..bytes.len() - 1].to_vec();
    assert!(decode_vote(&cut).is_none());
}

#[test]
fn choke_round_trip() {
    let c = SignedChoke { height: 4, round: 9, from: vec![0x21; 32], signature: vec![5; 10] };
    let bytes = encode_choke(&c);
    let back = decode_choke(&bytes).expect("a valid encoding decodes");
    assert_eq!(back.height, 4);
    assert_eq!(back.round, 9);
    assert_eq!(back.from, vec![0x21; 32]);
    assert_eq!(back.signature, vec![5; 10]);
}

#[test]
fn qc_round_trip() {
    let q = AggregatedVote {
        height: 20,
        round: 1,
        block_hash: vec![0xcd; 32],
        signers: vec![vec![0x01; 32], vec![0x02; 32]],
        signature: vec![0xee; 48],
    };
    let bytes = encode_qc(&q);
    let back = decode_qc(&bytes).expect("a valid encoding decodes");
    assert_eq!(back.height, 20);
    assert_eq!(back.signers.len(), 2);
    assert_eq!(back.signers[1], vec![0x02; 32]);
    assert_eq!(back.signature, vec![0xee; 48]);
}

#[test]
fn qc_rejects_bad_count() {
    let q = AggregatedVote {
        height: 20,
        round: 1,
        block_hash: vec![0xcd; 32],
        signers: vec![vec![0x01; 32]],
        signature: vec![],
    };
    let mut bytes = encode_qc(&q);
    // Pretend two signers while carrying one.
    bytes[55] = 2;
    assert!(decode_qc(&bytes).is_none());
}

#[test]
fn proposal_round_trip() {
    let p = SignedProposal {
        height: 7,
        round: 0,
        gas_used: 21_000,
        timestamp: 1234,
        proposer: vec![0x11; 32],
        prev_hash: vec![0x22; 32],
        state_root: vec![0x33; 32],
        receipts_root: vec![0x44; 32],
        tx_hashes: vec![vec![0x55; 32], vec![0x66; 32], vec![0x77; 32]],
        signature: vec![9; 65],
    };
    let bytes = encode_proposal(&p);
    let back = decode_proposal(&bytes).expect("a valid encoding decodes");
    assert_eq!(back.height, 7);
    assert_eq!(back.gas_used, 21_000);
    assert_eq!(back.tx_hashes.len(), 3);
    assert_eq!(back.tx_hashes[2], vec![0x77; 32]);
    assert_eq!(back.state_root, vec![0x33; 32]);
}

#[test]
fn message_tag_round_trip() {
    let m = ConsensusMessage::Vote(sample_vote());
    let bytes = encode_message(&m);
    assert_eq!(bytes[0], 2);
    let back = decode_message(&bytes).expect("a valid encoding decodes");
    match back {
        ConsensusMessage::Vote(ref v) => assert_eq!(v.height, 11),
        _ => panic!("wrong variant"),
    }
    assert_eq!(back.get_height(), 11);
    assert_eq!(back.get_round(), 2);
}

#[test]
fn message_rejects_unknown_tag() {
    let m = ConsensusMessage::Vote(sample_vote());
    let mut bytes = encode_message(&m);
    bytes[0] = 9;
    assert!(decode_message(&bytes).is_none());
    assert!(decode_message(&Vec::new()).is_none());
}

#[test]
fn keccak_matches_known_vector() {
    // keccak256 of the empty string.
    let h = keccak256(&Vec::new());
    let expected = [
        0xc5u8, 0xd2, 0x46, 0x01, 0x86, 0xf7, 0x23, 0x3c, 0x92, 0x7e, 0x7d, 0xb2, 0xdc, 0xc7,
        0x03, 0xc0, 0xe5, 0x00, 0xb6, 0x53, 0xca, 0x82, 0x27, 0x3b, 0x7b, 0xfa, 0xd8, 0x04, 0x5d,
        0x85, 0xa4, 0x70,
    ];
    assert_eq!(h.bytes, expected.to_vec());
}

#[test]
fn rlp_matches_reference_crate() {
    // Integers.
    for v in [0u64, 1, 0x7f, 0x80, 0xff, 0x100, 0xffff, 0x10000, u64::MAX] {
        let mut ours: Vec<u8> = Vec::new();
        put_rlp_uint(&mut ours, v as u128);
        let theirs = rlp::encode(&v).to_vec();
        assert_eq!(ours, theirs);
    }
    // Byte strings: empty, single low byte, short, and one past 55 bytes.
    for s in [vec![], vec![0x05u8], vec![0x80u8], vec![1u8; 40], vec![2u8; 70]] {
        let mut ours: Vec<u8> = Vec::new();
        put_rlp_str(&mut ours, &s);
        let theirs = rlp::encode(&s).to_vec();
        assert_eq!(ours, theirs);
    }
    // Minimal big-endian form feeds the integer encoding.
    assert_eq!(min_be_exec(0), Vec::<u8>::new());
    assert_eq!(min_be_exec(0x1234), vec![0x12, 0x34]);
}

#[test]
fn hash_consistency_recompute() {
    let unsigned = Eip1559Transaction {
        nonce: 3,
        max_priority_fee_per_gas: 2,
        gas_price: 10,
        gas_limit: 30_000,
        action: TransactionAction::Call(addr(0xbb)),
        value: 77,
        data: vec![0, 1, 2, 0xff],
        access_list: vec![],
    };
    let stx: SignedTransaction = seal_transaction(unsigned, sig(), 5, addr(0xaa));
    let again = recompute_hash(&stx.unsigned, stx.chain_id);
    assert_eq!(stx.hash.bytes, again.bytes);
}

#[test]
fn code_address_matches_reference_crates() {
    // The created address is keccak(rlp([sender, nonce]))[12..], checked
    // against the reference RLP crate and the raw keccak.
    let sender = addr(0x42);
    let nonce = 7u64;
    let ours = code_address(&sender, nonce);

    let mut stream = rlp::RlpStream::new_list(2);
    stream.append(&sender.bytes);
    stream.append(&nonce);
    let preimage = stream.out().to_vec();
    let digest: H256 = keccak256(&preimage);
    assert_eq!(ours.bytes, digest.bytes[12..32].to_vec());
}
