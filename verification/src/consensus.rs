//! The inbound edge of consensus: each wire payload is decoded into its
//! message type, a malformed one is reported as a decode error of that kind
//! and dropped, never fatal. The surrounding task hands an accepted message
//! to the driver.

use crate::codec::{
    decode_choke, decode_proposal, decode_qc, decode_vote, choke_enc, proposal_enc, qc_enc,
    vote_enc, choke_wf, proposal_wf, qc_wf, vote_wf, AggregatedVote, SignedChoke, SignedProposal,
    SignedVote,
};
use vstd::prelude::*;

verus! {

/// Which message kind failed to decode.
#[derive(PartialEq, Eq, Structural, Clone, Copy, Debug)]
pub enum ConsensusType {
    SignedProposal,
    SignedVote,
    AggregateVote,
    SignedChoke,
}

/// A consensus-edge error.
#[derive(PartialEq, Eq, Structural, Clone, Copy, Debug)]
pub enum ConsensusError {
    DecodeErr(ConsensusType),
}

/// Accepts a signed proposal from the wire: exactly the encodings of
/// well-formed proposals pass, anything else is a proposal decode error.
pub fn set_proposal(proposal: &Vec<u8>) -> (r: Result<SignedProposal, ConsensusError>)
    ensures
        r matches Ok(p) ==> proposal_wf(p) && proposal_enc(p) == proposal@,
        r is Err ==> r == Result::<SignedProposal, ConsensusError>::Err(
            ConsensusError::DecodeErr(ConsensusType::SignedProposal),
        ) && forall|p: SignedProposal| proposal_wf(p) ==> proposal_enc(p) != proposal@,
{
    match decode_proposal(proposal) {
        Some(p) => Ok(p),
        None => Err(ConsensusError::DecodeErr(ConsensusType::SignedProposal)),
    }
}

/// Accepts a signed vote from the wire.
pub fn set_vote(vote: &Vec<u8>) -> (r: Result<SignedVote, ConsensusError>)
    ensures
        r matches Ok(v) ==> vote_wf(v) && vote_enc(v) == vote@,
        r is Err ==> r == Result::<SignedVote, ConsensusError>::Err(
            ConsensusError::DecodeErr(ConsensusType::SignedVote),
        ) && forall|v: SignedVote| vote_wf(v) ==> vote_enc(v) != vote@,
{
    match decode_vote(vote) {
        Some(v) => Ok(v),
        None => Err(ConsensusError::DecodeErr(ConsensusType::SignedVote)),
    }
}

/// Accepts a quorum certificate from the wire.
pub fn set_qc(qc: &Vec<u8>) -> (r: Result<AggregatedVote, ConsensusError>)
    ensures
        r matches Ok(q) ==> qc_wf(q) && qc_enc(q) == qc@,
        r is Err ==> r == Result::<AggregatedVote, ConsensusError>::Err(
            ConsensusError::DecodeErr(ConsensusType::AggregateVote),
        ) && forall|q: AggregatedVote| qc_wf(q) ==> qc_enc(q) != qc@,
{
    match decode_qc(qc) {
        Some(q) => Ok(q),
        None => Err(ConsensusError::DecodeErr(ConsensusType::AggregateVote)),
    }
}

/// Accepts a signed choke from the wire.
pub fn set_choke(choke: &Vec<u8>) -> (r: Result<SignedChoke, ConsensusError>)
    ensures
        r matches Ok(c) ==> choke_wf(c) && choke_enc(c) == choke@,
        r is Err ==> r == Result::<SignedChoke, ConsensusError>::Err(
            ConsensusError::DecodeErr(ConsensusType::SignedChoke),
        ) && forall|c: SignedChoke| choke_wf(c) ==> choke_enc(c) != choke@,
{
    match decode_choke(choke) {
        Some(c) => Ok(c),
        None => Err(ConsensusError::DecodeErr(ConsensusType::SignedChoke)),
    }
}

} // verus!
