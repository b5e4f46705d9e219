//! The BFT driver: a state machine per height, iterating rounds through the
//! propose, prevote, precommit and choke phases. Every decision is a function
//! of the current state and one event; the surrounding task only performs the
//! returned actions. A block commits only on a quorum certificate whose
//! distinct signers carry at least two thirds of the authority's vote weight;
//! a proposer timeout falls back to a nil prevote; the write-ahead-log record
//! carries exactly the phase, round and lock needed to resume after a crash.

use crate::codec::{AggregatedVote, SignedChoke, SignedProposal, SignedVote};
use crate::types::{copy_bytes, Validator};
use vstd::prelude::*;

verus! {

/// The phase of the current round.
#[derive(PartialEq, Eq, Structural, Clone, Copy, Debug)]
pub enum Phase {
    Propose,
    Prevote,
    Precommit,
    Commit,
}

/// A validator's lock on a proposal hash, taken at a prevote quorum and
/// released only by a higher-round certificate.
pub struct Lock {
    pub round: u64,
    pub hash: Vec<u8>,
}

/// The sum of all vote weights of an authority list.
pub open spec fn total_weight(auth: Seq<Validator>) -> int
    decreases auth.len(),
{
    if auth.len() == 0 {
        0
    } else {
        total_weight(auth.drop_last()) + auth.last().vote_weight
    }
}

/// The vote weight of one key in the authority list; an unknown key weighs
/// nothing.
pub open spec fn weight_of(auth: Seq<Validator>, key: Seq<u8>) -> int
    decreases auth.len(),
{
    if auth.len() == 0 {
        0
    } else if auth.last().pub_key@ == key {
        auth.last().vote_weight as int
    } else {
        weight_of(auth.drop_last(), key)
    }
}

/// The combined vote weight of a list of signer keys.
pub open spec fn signers_weight(auth: Seq<Validator>, signers: Seq<Seq<u8>>) -> int
    decreases signers.len(),
{
    if signers.len() == 0 {
        0
    } else {
        signers_weight(auth, signers.drop_last()) + weight_of(auth, signers.last())
    }
}

/// Whether a list of keys is pairwise distinct.
pub open spec fn keys_distinct(s: Seq<Seq<u8>>) -> bool {
    forall|i: int, j: int| 0 <= i < j < s.len() ==> s[i] != s[j]
}

/// The signer keys of a certificate, as raw byte strings.
pub open spec fn qc_signers(qc: AggregatedVote) -> Seq<Seq<u8>> {
    qc.signers@.map_values(|v: Vec<u8>| v@)
}

/// Whether a certificate at this round may replace the held lock: a missing
/// lock always may; a held one is released only by a strictly higher round.
pub open spec fn lock_releasable(lock: Option<Lock>, qc_round: u64) -> bool {
    match lock {
        Option::None => true,
        Option::Some(l) => qc_round > l.round,
    }
}

/// The quorum rule: distinct signers carrying at least two thirds of the
/// total vote weight.
pub open spec fn qc_quorum(auth: Seq<Validator>, signers: Seq<Seq<u8>>) -> bool {
    keys_distinct(signers) && 3 * signers_weight(auth, signers) >= 2 * total_weight(auth)
}

/// One key weighs at most the largest single weight.
proof fn lemma_weight_of_bound(auth: Seq<Validator>, key: Seq<u8>)
    ensures
        0 <= weight_of(auth, key) <= u64::MAX,
    decreases auth.len(),
{
    if auth.len() > 0 {
        lemma_weight_of_bound(auth.drop_last(), key);
    }
}

/// A signer list's weight is bounded by its length times the largest weight.
proof fn lemma_signers_weight_bound(auth: Seq<Validator>, signers: Seq<Seq<u8>>)
    ensures
        0 <= signers_weight(auth, signers) <= signers.len() * (u64::MAX as int),
    decreases signers.len(),
{
    if signers.len() > 0 {
        lemma_signers_weight_bound(auth, signers.drop_last());
        lemma_weight_of_bound(auth, signers.last());
        assert((signers.len() - 1) * (u64::MAX as int) + u64::MAX == signers.len() * (
        u64::MAX as int)) by (nonlinear_arith);
    }
}

/// The total weight is bounded by the authority size times the largest
/// weight.
proof fn lemma_total_weight_bound(auth: Seq<Validator>)
    ensures
        0 <= total_weight(auth) <= auth.len() * (u64::MAX as int),
    decreases auth.len(),
{
    if auth.len() > 0 {
        lemma_total_weight_bound(auth.drop_last());
        assert((auth.len() - 1) * (u64::MAX as int) + u64::MAX == auth.len() * (u64::MAX as int))
            by (nonlinear_arith);
    }
}

/// Looks up one key's vote weight.
fn weight_lookup(auth: &Vec<Validator>, key: &Vec<u8>) -> (r: u64)
    ensures
        r == weight_of(auth@, key@),
{
    let n = auth.len();
    proof {
        assert(auth@.subrange(0, n as int) =~= auth@);
    }
    let mut i: usize = n;
    while i > 0
        invariant
            i <= n,
            n == auth@.len(),
            weight_of(auth@, key@) == weight_of(auth@.subrange(0, i as int), key@),
        decreases i,
    {
        i = i - 1;
        let ghost pre = auth@.subrange(0, i as int + 1);
        proof {
            assert(pre.drop_last() =~= auth@.subrange(0, i as int));
            assert(pre.last() == auth@[i as int]);
        }
        if crate::types::bytes_eq(&auth[i].pub_key, key) {
            return auth[i].vote_weight;
        }
    }
    0
}

/// Checks whether a list of keys is pairwise distinct.
fn check_distinct(keys: &Vec<Vec<u8>>) -> (r: bool)
    ensures
        r == keys_distinct(keys@.map_values(|v: Vec<u8>| v@)),
{
    let ghost kv = keys@.map_values(|v: Vec<u8>| v@);
    let mut i: usize = 0;
    while i < keys.len()
        invariant
            i <= keys@.len(),
            kv == keys@.map_values(|v: Vec<u8>| v@),
            forall|a: int, b: int| 0 <= a < b < keys@.len() && b < i ==> kv[a] != kv[b],
        decreases keys@.len() - i,
    {
        let mut j: usize = 0;
        while j < i
            invariant
                j <= i,
                i < keys@.len(),
                kv == keys@.map_values(|v: Vec<u8>| v@),
                forall|a: int| 0 <= a < j ==> kv[a] != kv[i as int],
            decreases i - j,
        {
            if crate::types::bytes_eq(&keys[j], &keys[i]) {
                proof {
                    assert(kv[j as int] == keys@[j as int]@);
                    assert(kv[i as int] == keys@[i as int]@);
                    assert(!keys_distinct(kv));
                }
                return false;
            }
            j = j + 1;
        }
        i = i + 1;
    }
    true
}

/// Computes the combined weight of a signer list.
fn signers_weight_exec(auth: &Vec<Validator>, signers: &Vec<Vec<u8>>) -> (r: u128)
    requires
        signers@.len() <= 0xFFFF,
    ensures
        r == signers_weight(auth@, signers@.map_values(|v: Vec<u8>| v@)),
{
    let ghost sv = signers@.map_values(|v: Vec<u8>| v@);
    let mut sum: u128 = 0;
    let mut i: usize = 0;
    while i < signers.len()
        invariant
            i <= signers@.len(),
            signers@.len() <= 0xFFFF,
            sv == signers@.map_values(|v: Vec<u8>| v@),
            sum == signers_weight(auth@, sv.subrange(0, i as int)),
            sum <= i * (u64::MAX as int),
        decreases signers@.len() - i,
    {
        let w = weight_lookup(auth, &signers[i]);
        proof {
            let pre = sv.subrange(0, i as int + 1);
            assert(pre.drop_last() =~= sv.subrange(0, i as int));
            assert(pre.last() == sv[i as int]);
            lemma_signers_weight_bound(auth@, sv.subrange(0, i as int));
            assert((i as int) * (u64::MAX as int) + u64::MAX == (i as int + 1) * (u64::MAX as int))
                by (nonlinear_arith);
        }
        sum = sum + (w as u128);
        i = i + 1;
    }
    proof {
        assert(sv.subrange(0, sv.len() as int) =~= sv);
    }
    sum
}

/// Computes the total weight of the authority list.
fn total_weight_exec(auth: &Vec<Validator>) -> (r: u128)
    requires
        auth@.len() <= 0xFFFF,
    ensures
        r == total_weight(auth@),
{
    let mut sum: u128 = 0;
    let mut i: usize = 0;
    while i < auth.len()
        invariant
            i <= auth@.len(),
            auth@.len() <= 0xFFFF,
            sum == total_weight(auth@.subrange(0, i as int)),
            sum <= i * (u64::MAX as int),
        decreases auth@.len() - i,
    {
        proof {
            let pre = auth@.subrange(0, i as int + 1);
            assert(pre.drop_last() =~= auth@.subrange(0, i as int));
            assert(pre.last() == auth@[i as int]);
            lemma_total_weight_bound(auth@.subrange(0, i as int));
            assert((i as int) * (u64::MAX as int) + u64::MAX == (i as int + 1) * (u64::MAX as int))
                by (nonlinear_arith);
        }
        sum = sum + (auth[i].vote_weight as u128);
        i = i + 1;
    }
    proof {
        assert(auth@.subrange(0, auth@.len() as int) =~= auth@);
    }
    sum
}

/// Decides the quorum rule for a signer list against the authority list.
pub fn check_quorum(auth: &Vec<Validator>, signers: &Vec<Vec<u8>>) -> (r: bool)
    requires
        auth@.len() <= 0xFFFF,
        signers@.len() <= 0xFFFF,
    ensures
        r == qc_quorum(auth@, signers@.map_values(|v: Vec<u8>| v@)),
{
    if !check_distinct(signers) {
        return false;
    }
    let sw = signers_weight_exec(auth, signers);
    let tw = total_weight_exec(auth);
    proof {
        lemma_signers_weight_bound(auth@, signers@.map_values(|v: Vec<u8>| v@));
        lemma_total_weight_bound(auth@);
    }
    3 * sw >= 2 * tw
}

/// The combined propose weight of the first `n` authorities.
pub open spec fn prefix_propose_weight(auth: Seq<Validator>, n: int) -> int
    decreases n,
{
    if n <= 0 {
        0
    } else {
        prefix_propose_weight(auth, n - 1) + auth[n - 1].propose_weight
    }
}

/// A prefix's propose weight is bounded by its length times the largest
/// weight, and prefixes only grow.
proof fn lemma_prefix_propose_weight_bound(auth: Seq<Validator>, n: int)
    requires
        0 <= n <= auth.len(),
    ensures
        0 <= prefix_propose_weight(auth, n) <= n * (u64::MAX as int),
    decreases n,
{
    if n > 0 {
        lemma_prefix_propose_weight_bound(auth, n - 1);
        assert((n - 1) * (u64::MAX as int) + u64::MAX == n * (u64::MAX as int))
            by (nonlinear_arith);
    }
}

/// The rotation ticket of a round: height plus round, reduced modulo the
/// total propose weight.
pub open spec fn proposer_ticket(auth: Seq<Validator>, height: u64, round: u64) -> int {
    (height + round) % prefix_propose_weight(auth, auth.len() as int)
}

/// The proposer of a round: the authority whose propose-weight segment the
/// ticket (height + round, modulo the total propose weight) falls into, so
/// the rotation visits each validator in proportion to its propose weight.
pub fn proposer_index(auth: &Vec<Validator>, height: u64, round: u64) -> (r: usize)
    requires
        auth@.len() <= 0xFFFF,
        prefix_propose_weight(auth@, auth@.len() as int) > 0,
    ensures
        r < auth@.len(),
        prefix_propose_weight(auth@, r as int) <= proposer_ticket(auth@, height, round)
            < prefix_propose_weight(auth@, r as int + 1),
{
    let n = auth.len();
    let mut total: u128 = 0;
    let mut i: usize = 0;
    while i < n
        invariant
            i <= n,
            n == auth@.len(),
            n <= 0xFFFF,
            total == prefix_propose_weight(auth@, i as int),
            total <= i * (u64::MAX as int),
        decreases n - i,
    {
        proof {
            lemma_prefix_propose_weight_bound(auth@, i as int);
            assert((i as int) * (u64::MAX as int) + u64::MAX == (i as int + 1) * (
            u64::MAX as int)) by (nonlinear_arith);
        }
        total = total + (auth[i].propose_weight as u128);
        i = i + 1;
    }
    let ticket = ((height as u128) + (round as u128)) % total;
    proof {
        assert(ticket == proposer_ticket(auth@, height, round));
    }
    let mut acc: u128 = 0;
    let mut j: usize = 0;
    while j < n
        invariant
            j <= n,
            n == auth@.len(),
            n <= 0xFFFF,
            acc == prefix_propose_weight(auth@, j as int),
            acc <= j * (u64::MAX as int),
            acc <= ticket,
            ticket < prefix_propose_weight(auth@, n as int),
            ticket == proposer_ticket(auth@, height, round),
        decreases n - j,
    {
        proof {
            lemma_prefix_propose_weight_bound(auth@, j as int);
            assert((j as int) * (u64::MAX as int) + u64::MAX == (j as int + 1) * (
            u64::MAX as int)) by (nonlinear_arith);
        }
        let next = acc + (auth[j].propose_weight as u128);
        if ticket < next {
            return j;
        }
        acc = next;
        j = j + 1;
    }
    proof {
        assert(false);
    }
    0
}

/// The compact record the consensus write-ahead log keeps: the driver's last
/// persisted phase, round, and lock.
pub struct WalRecord {
    pub height: u64,
    pub round: u64,
    pub phase: Phase,
    pub lock: Option<Lock>,
}

/// The driver's per-height state.
pub struct DriverState {
    pub height: u64,
    pub round: u64,
    pub phase: Phase,
    pub lock: Option<Lock>,
    pub authority: Vec<Validator>,
    pub self_key: Vec<u8>,
}

impl DriverState {
    pub open spec fn wf(&self) -> bool {
        &&& self.authority@.len() > 0
        &&& self.authority@.len() <= 0xFFFF
        &&& self.self_key@.len() == 32
        &&& self.lock matches Some(l) ==> l.hash@.len() == 32
    }

    /// A fresh driver at the start of a height.
    pub fn new(height: u64, authority: Vec<Validator>, self_key: Vec<u8>) -> (r: DriverState)
        requires
            authority@.len() > 0,
            authority@.len() <= 0xFFFF,
            self_key@.len() == 32,
        ensures
            r.wf(),
            r.height == height,
            r.round == 0,
            r.phase == Phase::Propose,
            r.lock is None,
    {
        DriverState { height, round: 0, phase: Phase::Propose, lock: None, authority, self_key }
    }

    /// A nil prevote of this node for the current round.
    fn nil_prevote(&self) -> (r: SignedVote)
        requires
            self.wf(),
        ensures
            r.is_nil,
            r.height == self.height,
            r.round == self.round,
            crate::codec::vote_wf(r),
    {
        let mut zero_hash: Vec<u8> = Vec::new();
        let mut i: usize = 0;
        while i < 32
            invariant
                i <= 32,
                zero_hash@.len() == i,
            decreases 32 - i,
        {
            zero_hash.push(0);
            i = i + 1;
        }
        SignedVote {
            height: self.height,
            round: self.round,
            block_hash: zero_hash,
            is_nil: true,
            voter: copy_bytes(&self.self_key),
            signature: Vec::new(),
        }
    }

    /// The proposer timed out: the follower falls back to a nil prevote and
    /// enters the prevote phase, keeping its round and any lock.
    pub fn on_propose_timeout(&mut self) -> (r: Option<SignedVote>)
        requires
            old(self).wf(),
        ensures
            final(self).wf(),
            final(self).height == old(self).height,
            final(self).round == old(self).round,
            final(self).lock == old(self).lock,
            old(self).phase == Phase::Propose ==> final(self).phase == Phase::Prevote && (
            r matches Some(v) && v.is_nil && v.height == old(self).height && v.round == old(self).round),
            old(self).phase != Phase::Propose ==> r is None && final(self).phase == old(self).phase,
    {
        if self.phase == Phase::Propose {
            let v = self.nil_prevote();
            self.phase = Phase::Prevote;
            Some(v)
        } else {
            None
        }
    }

    /// A proposal arrived: in the propose phase of its (height, round) the
    /// node prevotes — for its locked hash when it holds a lock, else for
    /// the proposal's hash — and enters the prevote phase.
    pub fn on_proposal(&mut self, p: &SignedProposal) -> (r: Option<SignedVote>)
        requires
            old(self).wf(),
            crate::codec::proposal_wf(*p),
        ensures
            final(self).wf(),
            final(self).height == old(self).height,
            final(self).round == old(self).round,
            final(self).lock == old(self).lock,
            r is Some <==> (old(self).phase == Phase::Propose && p.height == old(self).height
                && p.round == old(self).round),
            r is Some ==> final(self).phase == Phase::Prevote,
            r matches Some(v) ==> !v.is_nil && v.height == old(self).height && v.round == old(self).round && (match old(self).lock {
                Some(l) => v.block_hash@ == l.hash@,
                None => v.block_hash@ == proposal_vote_hash(*p),
            }),
            r is None ==> final(self).phase == old(self).phase,
    {
        if self.phase == Phase::Propose && p.height == self.height && p.round == self.round {
            let hash = match &self.lock {
                Some(l) => copy_bytes(&l.hash),
                None => copy_bytes(&p.state_root),
            };
            self.phase = Phase::Prevote;
            Some(
                SignedVote {
                    height: self.height,
                    round: self.round,
                    block_hash: hash,
                    is_nil: false,
                    voter: copy_bytes(&self.self_key),
                    signature: Vec::new(),
                },
            )
        } else {
            None
        }
    }

    /// A quorum certificate arrived. Authority quorum: the driver commits a
    /// hash exactly when a precommit certificate for its height carries
    /// pairwise-distinct signers with at least two thirds of the total vote
    /// weight and the height is not already committed. A prevote certificate
    /// with such a quorum locks its hash — an existing lock is released only
    /// by a certificate at a strictly higher round than the lock's own — and
    /// moves a prevoting node to precommit.
    pub fn on_qc(&mut self, qc: &AggregatedVote, is_precommit_qc: bool) -> (r: Option<Vec<u8>>)
        requires
            old(self).wf(),
            crate::codec::qc_wf(*qc),
        ensures
            final(self).wf(),
            final(self).height == old(self).height,
            final(self).round == old(self).round,
            r is Some <==> (is_precommit_qc && qc.height == old(self).height && qc_quorum(
                old(self).authority@,
                qc_signers(*qc),
            ) && old(self).phase != Phase::Commit),
            r matches Some(h) ==> h@ == qc.block_hash@,
            r is Some ==> final(self).phase == Phase::Commit && final(self).lock == old(self).lock,
            (qc.height != old(self).height || !qc_quorum(
                old(self).authority@,
                qc_signers(*qc),
            )) ==> final(self).phase == old(self).phase && final(self).lock == old(self).lock,
            (!is_precommit_qc && qc.height == old(self).height && qc_quorum(
                old(self).authority@,
                qc_signers(*qc),
            )) ==> {
                &&& lock_releasable(old(self).lock, qc.round) ==> (final(self).lock matches Some(l) && l.round == qc.round && l.hash@ == qc.block_hash@)
                &&& !lock_releasable(old(self).lock, qc.round) ==> final(self).lock == old(self).lock
                &&& final(self).phase == (if old(self).phase == Phase::Prevote {
                    Phase::Precommit
                } else {
                    old(self).phase
                })
            },
    {
        if qc.height != self.height {
            return None;
        }
        if !check_quorum(&self.authority, &qc.signers) {
            return None;
        }
        if is_precommit_qc {
            if self.phase != Phase::Commit {
                self.phase = Phase::Commit;
                return Some(copy_bytes(&qc.block_hash));
            }
            return None;
        }
        let release = match &self.lock {
            None => true,
            Some(l) => qc.round > l.round,
        };
        if release {
            self.lock = Some(Lock { round: qc.round, hash: copy_bytes(&qc.block_hash) });
        }
        if self.phase == Phase::Prevote {
            self.phase = Phase::Precommit;
        }
        None
    }

    /// A choke arrived for this height at or past the current round: the
    /// round advances without a new proposal, the lock is preserved.
    pub fn on_choke(&mut self, c: &SignedChoke) -> (r: Option<u64>)
        requires
            old(self).wf(),
            crate::codec::choke_wf(*c),
        ensures
            final(self).wf(),
            final(self).height == old(self).height,
            final(self).lock == old(self).lock,
            r is Some <==> (c.height == old(self).height && c.round >= old(self).round
                && c.round < u64::MAX),
            r matches Some(next) ==> next == c.round + 1 && final(self).round == next && final(self).phase == Phase::Propose,
            r is None ==> final(self).round == old(self).round && final(self).phase == old(self).phase,
    {
        if c.height == self.height && c.round >= self.round && c.round < u64::MAX {
            self.round = c.round + 1;
            self.phase = Phase::Propose;
            Some(self.round)
        } else {
            None
        }
    }

    /// The write-ahead-log record of this state: phase, round, and lock.
    pub fn wal_record(&self) -> (r: WalRecord)
        ensures
            r.height == self.height,
            r.round == self.round,
            r.phase == self.phase,
            wal_lock_eq(r.lock, self.lock),
    {
        WalRecord {
            height: self.height,
            round: self.round,
            phase: self.phase,
            lock: match &self.lock {
                Some(l) => Some(Lock { round: l.round, hash: copy_bytes(&l.hash) }),
                None => None,
            },
        }
    }

    /// Resumes a driver from a write-ahead-log record: the restored state
    /// stands at the recorded height, round, phase and lock.
    pub fn restore(rec: WalRecord, authority: Vec<Validator>, self_key: Vec<u8>) -> (r:
        DriverState)
        requires
            authority@.len() > 0,
            authority@.len() <= 0xFFFF,
            self_key@.len() == 32,
            rec.lock matches Some(l) ==> l.hash@.len() == 32,
        ensures
            r.wf(),
            r.height == rec.height,
            r.round == rec.round,
            r.phase == rec.phase,
            wal_lock_eq(r.lock, rec.lock),
    {
        DriverState {
            height: rec.height,
            round: rec.round,
            phase: rec.phase,
            lock: rec.lock,
            authority,
            self_key,
        }
    }
}

/// Whether two lock options agree in round and hash.
pub open spec fn wal_lock_eq(a: Option<Lock>, b: Option<Lock>) -> bool {
    match (a, b) {
        (Option::None, Option::None) => true,
        (Option::Some(x), Option::Some(y)) => x.round == y.round && x.hash@ == y.hash@,
        _ => false,
    }
}

/// What a node prevotes for on an unlocked proposal.
pub open spec fn proposal_vote_hash(p: SignedProposal) -> Seq<u8> {
    p.state_root@
}

/// Write-ahead-log replay idempotence: restoring from the record of a state
/// reproduces that state's height, round, phase and lock — everything the
/// driver's decisions depend on besides the authority list itself — so the
/// restored driver decides as the live one did.
pub proof fn lemma_wal_roundtrip(s: DriverState, rec: WalRecord, t: DriverState)
    requires
        s.wf(),
        rec.height == s.height,
        rec.round == s.round,
        rec.phase == s.phase,
        wal_lock_eq(rec.lock, s.lock),
        t.height == rec.height,
        t.round == rec.round,
        t.phase == rec.phase,
        wal_lock_eq(t.lock, rec.lock),
    ensures
        t.height == s.height,
        t.round == s.round,
        t.phase == s.phase,
        wal_lock_eq(t.lock, s.lock),
{
}

} // verus!
