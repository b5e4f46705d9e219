//! The status agent and the write-ahead logs, and the rich status handed to
//! the driver at each height: its authority list is the validator set sorted
//! by public key, ascending, so every honest node derives the same list from
//! the same metadata.

use crate::driver::WalRecord;
use crate::types::{copy_bytes, SignedTransaction, Validator, ValidatorExtend, H160, H256};
use vstd::prelude::*;

verus! {

broadcast use vstd::seq_lib::group_to_multiset_ensures;

/// Lexicographic order on byte strings, a shorter string preceding its
/// extensions.
pub open spec fn lex_le(a: Seq<u8>, b: Seq<u8>) -> bool
    decreases a.len(),
{
    if a.len() == 0 {
        true
    } else if b.len() == 0 {
        false
    } else if a[0] < b[0] {
        true
    } else if a[0] > b[0] {
        false
    } else {
        lex_le(a.subrange(1, a.len() as int), b.subrange(1, b.len() as int))
    }
}

/// The order is total.
pub proof fn lemma_lex_total(a: Seq<u8>, b: Seq<u8>)
    ensures
        lex_le(a, b) || lex_le(b, a),
    decreases a.len(),
{
    if a.len() > 0 && b.len() > 0 && a[0] == b[0] {
        lemma_lex_total(a.subrange(1, a.len() as int), b.subrange(1, b.len() as int));
    }
}

/// The order is transitive.
pub proof fn lemma_lex_trans(a: Seq<u8>, b: Seq<u8>, c: Seq<u8>)
    requires
        lex_le(a, b),
        lex_le(b, c),
    ensures
        lex_le(a, c),
    decreases a.len(),
{
    if a.len() > 0 && b.len() > 0 && c.len() > 0 && a[0] == b[0] && b[0] == c[0] {
        lemma_lex_trans(
            a.subrange(1, a.len() as int),
            b.subrange(1, b.len() as int),
            c.subrange(1, c.len() as int),
        );
    }
}

/// Decides the lexicographic order on two byte vectors.
pub fn lex_le_exec(a: &Vec<u8>, b: &Vec<u8>) -> (r: bool)
    ensures
        r == lex_le(a@, b@),
    decreases a@.len(),
{
    let mut i: usize = 0;
    let an = a.len();
    let bn = b.len();
    proof {
        assert(a@.subrange(0, an as int) =~= a@);
        assert(b@.subrange(0, bn as int) =~= b@);
    }
    while i < an && i < bn
        invariant
            i <= an,
            i <= bn,
            an == a@.len(),
            bn == b@.len(),
            lex_le(a@, b@) == lex_le(
                a@.subrange(i as int, an as int),
                b@.subrange(i as int, bn as int),
            ),
        decreases an - i,
    {
        let ghost sa = a@.subrange(i as int, an as int);
        let ghost sb = b@.subrange(i as int, bn as int);
        if a[i] < b[i] {
            return true;
        }
        if a[i] > b[i] {
            return false;
        }
        i = i + 1;
        proof {
            assert(sa.subrange(1, sa.len() as int) =~= a@.subrange(i as int, an as int));
            assert(sb.subrange(1, sb.len() as int) =~= b@.subrange(i as int, bn as int));
        }
    }
    proof {
        if i >= an {
            assert(a@.subrange(i as int, an as int).len() == 0);
        } else {
            assert(b@.subrange(i as int, bn as int).len() == 0);
            assert(a@.subrange(i as int, an as int).len() > 0);
        }
    }
    i >= an
}

/// Whether a validator list is sorted by public key, ascending.
pub open spec fn validators_sorted(s: Seq<Validator>) -> bool {
    forall|i: int, j: int| 0 <= i < j < s.len() ==> lex_le(s[i].pub_key@, s[j].pub_key@)
}

/// Sorts a validator list by public key, ascending: the result is a sorted
/// rearrangement of the input, nothing added, nothing lost.
pub fn sort_validators(input: Vec<Validator>) -> (r: Vec<Validator>)
    ensures
        r@.to_multiset() == input@.to_multiset(),
        r@.len() == input@.len(),
        validators_sorted(r@),
{
    let ghost orig = input@;
    let mut remaining = input;
    let mut out: Vec<Validator> = Vec::new();
    while remaining.len() > 0
        invariant
            out@.to_multiset().add(remaining@.to_multiset()) =~= orig.to_multiset(),
            out@.len() + remaining@.len() == orig.len(),
            validators_sorted(out@),
            forall|a: int, b: int|
                0 <= a < out@.len() && 0 <= b < remaining@.len() ==> lex_le(
                    out@[a].pub_key@,
                    remaining@[b].pub_key@,
                ),
        decreases remaining@.len(),
    {
        let mut min_idx: usize = 0;
        let mut j: usize = 1;
        proof {
            lemma_lex_total(remaining@[0].pub_key@, remaining@[0].pub_key@);
        }
        while j < remaining.len()
            invariant
                min_idx < j,
                1 <= j <= remaining@.len(),
                forall|k: int|
                    0 <= k < j ==> lex_le(
                        remaining@[min_idx as int].pub_key@,
                        remaining@[k].pub_key@,
                    ),
            decreases remaining@.len() - j,
        {
            if !lex_le_exec(&remaining[min_idx].pub_key, &remaining[j].pub_key) {
                proof {
                    lemma_lex_total(remaining@[min_idx as int].pub_key@, remaining@[j as int].pub_key@);
                    assert forall|k: int|
                        0 <= k < j + 1 implies lex_le(
                        remaining@[j as int].pub_key@,
                        remaining@[k].pub_key@,
                    ) by {
                        if k < j {
                            lemma_lex_trans(
                                remaining@[j as int].pub_key@,
                                remaining@[min_idx as int].pub_key@,
                                remaining@[k].pub_key@,
                            );
                        } else {
                            lemma_lex_total(
                                remaining@[j as int].pub_key@,
                                remaining@[j as int].pub_key@,
                            );
                        }
                    }
                }
                min_idx = j;
            }
            j = j + 1;
        }
        let ghost before_rem = remaining@;
        let ghost before_out = out@;
        let v = remaining.remove(min_idx);
        out.push(v);
        proof {
            assert(before_rem.remove(min_idx as int).to_multiset() =~= before_rem.to_multiset()
                .remove(before_rem[min_idx as int]));
            assert(out@.to_multiset() =~= before_out.to_multiset().insert(v));
            assert(out@.to_multiset().add(remaining@.to_multiset()) =~= orig.to_multiset());
            assert forall|a: int, b: int|
                0 <= a < out@.len() && 0 <= b < remaining@.len() implies lex_le(
                out@[a].pub_key@,
                remaining@[b].pub_key@,
            ) by {
                let ob = if b < min_idx {
                    b
                } else {
                    b + 1
                };
                assert(remaining@[b] == before_rem[ob]);
                assert(lex_le(v.pub_key@, before_rem[ob].pub_key@));
                if a < out@.len() - 1 {
                    assert(out@[a] == before_out[a]);
                    lemma_lex_trans(out@[a].pub_key@, v.pub_key@, remaining@[b].pub_key@);
                }
            }
            assert forall|a: int, b: int|
                0 <= a < b < out@.len() implies lex_le(out@[a].pub_key@, out@[b].pub_key@) by {
                if b < out@.len() - 1 {
                    assert(out@[a] == before_out[a] && out@[b] == before_out[b]);
                } else {
                    assert(out@[a] == before_out[a]);
                    assert(out@[b] == v);
                    assert(lex_le(before_out[a].pub_key@, before_rem[min_idx as int].pub_key@));
                }
            }
        }
    }
    out
}

/// The four phase-timer ratios of an epoch.
pub struct DurationConfig {
    pub propose_ratio: u64,
    pub prevote_ratio: u64,
    pub precommit_ratio: u64,
    pub brake_ratio: u64,
}

/// The rich status handed to the driver at the start of a height.
pub struct Status {
    pub height: u64,
    pub interval: u64,
    pub timer_config: DurationConfig,
    pub authority_list: Vec<Validator>,
}

/// Builds the rich status for a height: the timers, and the authority list
/// sorted by public key so that every honest node agrees on it.
pub fn gen_overlord_status(
    height: u64,
    interval: u64,
    propose_ratio: u64,
    prevote_ratio: u64,
    precommit_ratio: u64,
    brake_ratio: u64,
    validators: Vec<Validator>,
) -> (r: Status)
    ensures
        r.height == height,
        r.interval == interval,
        r.timer_config.propose_ratio == propose_ratio,
        r.timer_config.prevote_ratio == prevote_ratio,
        r.timer_config.precommit_ratio == precommit_ratio,
        r.timer_config.brake_ratio == brake_ratio,
        r.authority_list@.to_multiset() == validators@.to_multiset(),
        r.authority_list@.len() == validators@.len(),
        validators_sorted(r.authority_list@),
{
    Status {
        height,
        interval,
        timer_config: DurationConfig { propose_ratio, prevote_ratio, precommit_ratio, brake_ratio },
        authority_list: sort_validators(validators),
    }
}

/// Turns an epoch's verifier entry into a consensus validator.
pub fn validator_of_extend(v: &ValidatorExtend) -> (r: Validator)
    ensures
        r.pub_key@ == v.pub_key@,
        r.propose_weight == v.propose_weight,
        r.vote_weight == v.vote_weight,
{
    Validator {
        pub_key: copy_bytes(&v.pub_key),
        propose_weight: v.propose_weight,
        vote_weight: v.vote_weight,
    }
}

/// The genesis bootstrap: at the genesis height the node injects a synthetic
/// rich status for the next height, built from the genesis metadata, so the
/// driver can start; at any later height nothing is injected.
pub fn genesis_status(last_number: u64, metadata: &crate::types::Metadata) -> (r: Option<Status>)
    requires
        last_number < u64::MAX,
    ensures
        last_number == 0 <==> r is Some,
        r matches Some(s) ==> s.height == last_number + 1 && s.interval == metadata.interval
            && s.timer_config.propose_ratio == metadata.propose_ratio
            && s.timer_config.prevote_ratio == metadata.prevote_ratio
            && s.timer_config.precommit_ratio == metadata.precommit_ratio
            && s.timer_config.brake_ratio == metadata.brake_ratio && validators_sorted(
            s.authority_list@,
        ) && s.authority_list@.len() == metadata.verifier_list@.len(),
{
    if last_number != 0 {
        return None;
    }
    let mut validators: Vec<Validator> = Vec::new();
    let mut i: usize = 0;
    while i < metadata.verifier_list.len()
        invariant
            i <= metadata.verifier_list@.len(),
            validators@.len() == i,
        decreases metadata.verifier_list@.len() - i,
    {
        validators.push(validator_of_extend(&metadata.verifier_list[i]));
        i = i + 1;
    }
    Some(
        gen_overlord_status(
            last_number + 1,
            metadata.interval,
            metadata.propose_ratio,
            metadata.prevote_ratio,
            metadata.precommit_ratio,
            metadata.brake_ratio,
            validators,
        ),
    )
}

/// The in-memory status cell: what the adapter's commit path publishes and
/// everything else only reads.
pub struct CurrentStatus {
    pub last_number: u64,
    pub last_hash: H256,
    pub last_state_root: H256,
    pub last_receipts_root: H256,
    pub gas_used: u64,
    pub proposer: H160,
    pub timestamp: u64,
}

/// The status agent: holds the latest committed status.
pub struct StatusAgent {
    pub inner: CurrentStatus,
}

impl StatusAgent {
    pub fn new(inner: CurrentStatus) -> (r: StatusAgent)
        ensures
            r.inner == inner,
    {
        StatusAgent { inner }
    }

    /// Publishes the status of a freshly committed block; only the commit
    /// path calls this.
    pub fn swap(&mut self, new_status: CurrentStatus)
        ensures
            final(self).inner == new_status,
    {
        self.inner = new_status;
    }

    pub fn last_number(&self) -> (r: u64)
        ensures
            r == self.inner.last_number,
    {
        self.inner.last_number
    }
}

/// One record of the signed-transactions write-ahead log.
pub struct TxsWalEntry {
    pub height: u64,
    pub round: u64,
    pub txs: Vec<SignedTransaction>,
}

/// The signed-transactions write-ahead log, keyed by (height, round).
pub struct SignedTxsWAL {
    pub entries: Vec<TxsWalEntry>,
}

impl SignedTxsWAL {
    pub fn new() -> (r: SignedTxsWAL)
        ensures
            r.entries@.len() == 0,
    {
        SignedTxsWAL { entries: Vec::new() }
    }

    /// Records the transaction batch of a received proposal.
    pub fn save(&mut self, entry: TxsWalEntry)
        ensures
            final(self).entries@ == old(self).entries@.push(entry),
    {
        self.entries.push(entry);
    }

    /// Prunes every record below the committed height: afterwards the log
    /// holds exactly the surviving records, in their original order.
    pub fn prune(&mut self, height: u64)
        ensures
            final(self).entries@ == surviving(old(self).entries@, height),
            forall|k: int|
                0 <= k < final(self).entries@.len() ==> (
                #[trigger] final(self).entries@[k]).height >= height,
    {
        let ghost before = self.entries@;
        let mut kept: Vec<TxsWalEntry> = Vec::new();
        while self.entries.len() > 0
            invariant
                self.entries@.len() <= before.len(),
                self.entries@ == before.subrange(
                    (before.len() - self.entries@.len()) as int,
                    before.len() as int,
                ),
                kept@ == surviving(
                    before.subrange(0, (before.len() - self.entries@.len()) as int),
                    height,
                ),
            decreases self.entries@.len(),
        {
            let ghost done = (before.len() - self.entries@.len()) as int;
            let ghost cur = self.entries@;
            let e = self.entries.remove(0);
            proof {
                assert(e == before[done]);
                assert(self.entries@ =~= before.subrange(done + 1, before.len() as int));
                let pre = before.subrange(0, done + 1);
                assert(pre.drop_last() =~= before.subrange(0, done));
                assert(pre.last() == before[done]);
            }
            if e.height >= height {
                kept.push(e);
            }
        }
        self.entries = kept;
        proof {
            assert(before.subrange(0, before.len() as int) =~= before);
            lemma_surviving_heights(before, height);
        }
    }
}

/// The records of a log that survive pruning at a height, in order.
pub open spec fn surviving(s: Seq<TxsWalEntry>, height: u64) -> Seq<TxsWalEntry>
    decreases s.len(),
{
    if s.len() == 0 {
        s
    } else {
        let rest = surviving(s.drop_last(), height);
        if s.last().height >= height {
            rest.push(s.last())
        } else {
            rest
        }
    }
}

/// Pruning keeps exactly the records at or above the height: each survivor
/// stands at or above it, and every original record at or above it survives.
pub proof fn lemma_surviving_heights(s: Seq<TxsWalEntry>, height: u64)
    ensures
        forall|k: int|
            0 <= k < surviving(s, height).len() ==> (
            #[trigger] surviving(s, height)[k]).height >= height,
        forall|k: int|
            0 <= k < s.len() && (#[trigger] s[k]).height >= height ==> surviving(
                s,
                height,
            ).contains(s[k]),
    decreases s.len(),
{
    if s.len() > 0 {
        lemma_surviving_heights(s.drop_last(), height);
        let r = surviving(s, height);
        let rest = surviving(s.drop_last(), height);
        assert forall|k: int|
            0 <= k < s.len() && (#[trigger] s[k]).height >= height implies r.contains(s[k]) by {
            if k < s.len() - 1 {
                assert(s.drop_last()[k] == s[k]);
                let j = choose|j: int| 0 <= j < rest.len() && rest[j] == s[k];
                assert(r[j] == s[k]);
            } else {
                assert(r[r.len() - 1] == s[k]);
            }
        }
    }
}

/// The consensus write-ahead log/// The consensus write-ahead log: the driver's last persisted record.
pub struct ConsensusWal {
    pub rec: Option<WalRecord>,
}

impl ConsensusWal {
    pub fn new() -> (r: ConsensusWal)
        ensures
            r.rec is None,
    {
        ConsensusWal { rec: None }
    }

    /// Persists the driver's record, replacing the previous one.
    pub fn update(&mut self, rec: WalRecord)
        ensures
            final(self).rec == Some(rec),
    {
        self.rec = Some(rec);
    }
}

} // verus!
