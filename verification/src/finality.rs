//! The finality chain of trust.
//!
//! The engine holds a checkpoint — the authority set in force, its id, and
//! the last block finalized under it — and extends it one verified
//! justification at a time.  A justification is accepted when it speaks of
//! the trusted set, does not fall behind the checkpoint, names no authority
//! outside the set, and its valid signatures weigh more than two thirds of
//! the set.  Whether each vote's signature checks out against its
//! authority's key is established outside and arrives on the vote itself;
//! the quorum judgment, the transition rules and the checkpoint's forward
//! march are what this module verifies.

use vstd::prelude::*;

use crate::codec::authority_views;
use crate::codec::checkpoint_view;
use crate::store::store_finality_sync_checkpoint;
use crate::store::Store;
use crate::types::total_weight;
use crate::types::wf_authority_set;
use crate::types::Authority;
use crate::types::FatalError;
use crate::types::FinalityError;
use crate::types::FinalitySyncCheckpoint;
use crate::types::Justification;
use crate::types::State;
use crate::types::Vote;

verus! {

/// Whether some vote of the run is a validly signed vote of the authority
/// at `idx`.
pub open spec fn has_valid_vote(votes: Seq<Vote>, idx: int) -> bool {
    exists|j: int|
        0 <= j < votes.len() && (#[trigger] votes[j]).authority_index == idx
            && votes[j].signature_valid
}

/// Whether some vote names an authority index outside the set.
pub open spec fn has_unknown_vote(votes: Seq<Vote>, set_len: int) -> bool {
    exists|j: int| 0 <= j < votes.len() && (#[trigger] votes[j]).authority_index >= set_len
}

/// The weight of the authorities with a validly signed vote, each counted
/// once however many votes it cast.
pub open spec fn voted_weight(auths: Seq<Authority>, votes: Seq<Vote>) -> int
    decreases auths.len(),
{
    if auths.len() == 0 {
        0
    } else {
        voted_weight(auths.drop_last(), votes) + if has_valid_vote(votes, auths.len() - 1) {
            auths.last().weight as int
        } else {
            0
        }
    }
}

/// More than two thirds of the set's weight stands behind the votes.
pub open spec fn quorum_met(auths: Seq<Authority>, votes: Seq<Vote>) -> bool {
    3 * voted_weight(auths, votes) > 2 * total_weight(auths)
}

/// The verdict on a justification against a checkpoint, in the order the
/// checks run: set id, staleness, vote validity, quorum.
pub open spec fn check_justification_spec(c: FinalitySyncCheckpoint, j: Justification) -> Result<
    (),
    FinalityError,
> {
    if j.set_id != c.set_id {
        Result::Err(FinalityError::WrongSetId)
    } else if j.block_number < c.block_number {
        Result::Err(FinalityError::StaleBlock)
    } else if has_unknown_vote(j.votes@, c.authorities@.len() as int) {
        Result::Err(FinalityError::UnknownAuthority)
    } else if !quorum_met(c.authorities@, j.votes@) {
        Result::Err(FinalityError::QuorumNotMet)
    } else {
        Result::Ok(())
    }
}

pub proof fn lemma_total_weight_nonneg(s: Seq<Authority>)
    ensures
        total_weight(s) >= 0,
    decreases s.len(),
{
    if s.len() > 0 {
        lemma_total_weight_nonneg(s.drop_last());
    }
}

/// Taking in one more authority only grows the total.
proof fn lemma_total_weight_prefix(s: Seq<Authority>, i: int)
    requires
        0 <= i <= s.len(),
    ensures
        total_weight(s.subrange(0, i)) <= total_weight(s),
    decreases s.len() - i,
{
    if i < s.len() {
        assert(s.subrange(0, i + 1).drop_last() =~= s.subrange(0, i));
        assert(s.subrange(0, i + 1).last() == s[i]);
        lemma_total_weight_prefix(s, i + 1);
        assert(s.subrange(0, s.len() as int) =~= s);
    } else {
        assert(s.subrange(0, i) =~= s);
    }
}

/// The voting weight never exceeds the set's total weight.
pub proof fn lemma_voted_le_total(auths: Seq<Authority>, votes: Seq<Vote>)
    ensures
        0 <= voted_weight(auths, votes) <= total_weight(auths),
    decreases auths.len(),
{
    if auths.len() > 0 {
        lemma_voted_le_total(auths.drop_last(), votes);
    }
}

/// Tells whether the run of votes holds a validly signed vote of the
/// authority at `idx`.
fn has_valid_vote_exec(votes: &Vec<Vote>, idx: usize) -> (r: bool)
    ensures
        r == has_valid_vote(votes@, idx as int),
{
    let mut j: usize = 0;
    while j < votes.len()
        invariant
            j <= votes@.len(),
            forall|k: int|
                0 <= k < j ==> !((#[trigger] votes@[k]).authority_index == idx
                    && votes@[k].signature_valid),
        decreases votes@.len() - j,
    {
        if votes[j].authority_index == idx && votes[j].signature_valid {
            return true;
        }
        j = j + 1;
    }
    false
}

/// Checks a justification against the trusted checkpoint: right set id, not
/// behind the checkpoint, no vote from outside the set, and valid votes
/// weighing more than two thirds of the set.
pub fn check_justification(c: &FinalitySyncCheckpoint, j: &Justification) -> (r: Result<
    (),
    FinalityError,
>)
    requires
        c.wf(),
    ensures
        r == check_justification_spec(*c, *j),
{
    if j.set_id != c.set_id {
        return Err(FinalityError::WrongSetId);
    }
    if j.block_number < c.block_number {
        return Err(FinalityError::StaleBlock);
    }
    let set_len = c.authorities.len();
    let mut k: usize = 0;
    while k < j.votes.len()
        invariant
            k <= j.votes@.len(),
            set_len == c.authorities@.len(),
            j.set_id == c.set_id,
            j.block_number >= c.block_number,
            forall|m: int| 0 <= m < k ==> (#[trigger] j.votes@[m]).authority_index < set_len,
        decreases j.votes@.len() - k,
    {
        if j.votes[k].authority_index >= set_len {
            proof {
                assert(j.votes@[k as int].authority_index >= c.authorities@.len());
            }
            return Err(FinalityError::UnknownAuthority);
        }
        k = k + 1;
    }
    let ghost auths = c.authorities@;
    let mut total: u64 = 0;
    let mut voted: u64 = 0;
    let mut i: usize = 0;
    while i < c.authorities.len()
        invariant
            c.wf(),
            auths == c.authorities@,
            i <= auths.len(),
            total == total_weight(auths.subrange(0, i as int)),
            voted == voted_weight(auths.subrange(0, i as int), j.votes@),
        decreases auths.len() - i,
    {
        proof {
            assert(auths.subrange(0, i + 1).drop_last() =~= auths.subrange(0, i as int));
            assert(auths.subrange(0, i + 1).last() == auths[i as int]);
            lemma_total_weight_prefix(auths, i + 1);
            lemma_voted_le_total(auths.subrange(0, i + 1), j.votes@);
            lemma_total_weight_nonneg(auths.subrange(0, i as int));
            lemma_voted_le_total(auths.subrange(0, i as int), j.votes@);
        }
        if has_valid_vote_exec(&j.votes, i) {
            voted = voted + c.authorities[i].weight;
        }
        total = total + c.authorities[i].weight;
        i = i + 1;
    }
    proof {
        assert(auths.subrange(0, auths.len() as int) =~= auths);
        lemma_voted_le_total(auths, j.votes@);
        lemma_total_weight_nonneg(auths);
    }
    if 3 * voted > 2 * total {
        Ok(())
    } else {
        Err(FinalityError::QuorumNotMet)
    }
}

/// Applies one justification to the checkpoint: on acceptance the
/// checkpoint advances to the justified block — never backwards — and, when
/// the consensus digest scheduled a new authority set, adopts it under the
/// next set id; on rejection nothing changes.
pub fn apply_justification(
    checkpoint: &mut FinalitySyncCheckpoint,
    j: &Justification,
    next_authorities: Option<Vec<Authority>>,
) -> (r: Result<(), FinalityError>)
    requires
        old(checkpoint).wf(),
        old(checkpoint).set_id < u64::MAX,
        match next_authorities {
            Some(auths) => wf_authority_set(auths@),
            None => true,
        },
    ensures
        r == check_justification_spec(*old(checkpoint), *j),
        r is Err ==> *final(checkpoint) == *old(checkpoint),
        r is Ok ==> final(checkpoint).wf() && final(checkpoint).block_number == j.block_number
            && final(checkpoint).block_number >= old(checkpoint).block_number && (match (
        next_authorities) {
            Some(auths) => final(checkpoint).authorities@ == auths@ && final(checkpoint).set_id
                == old(checkpoint).set_id + 1,
            None => final(checkpoint).authorities@ == old(checkpoint).authorities@
                && final(checkpoint).set_id == old(checkpoint).set_id,
        }),
{
    match check_justification(checkpoint, j) {
        Ok(()) => {
            checkpoint.block_number = j.block_number;
            match next_authorities {
                Some(auths) => {
                    checkpoint.authorities = auths;
                    checkpoint.set_id = checkpoint.set_id + 1;
                },
                None => {},
            }
            Ok(())
        },
        Err(e) => Err(e),
    }
}

/// Copies a byte vector.
fn clone_bytes(v: &Vec<u8>) -> (r: Vec<u8>)
    ensures
        r@ == v@,
{
    let mut out: Vec<u8> = Vec::new();
    let mut i: usize = 0;
    while i < v.len()
        invariant
            i <= v@.len(),
            out@ =~= v@.subrange(0, i as int),
        decreases v@.len() - i,
    {
        out.push(v[i]);
        i = i + 1;
        proof {
            assert(out@ =~= v@.subrange(0, i as int));
        }
    }
    proof {
        assert(out@ =~= v@);
    }
    out
}

/// Two authority sequences that reduce to the same plain values weigh the
/// same.
proof fn lemma_total_weight_of_views(s1: Seq<Authority>, s2: Seq<Authority>)
    requires
        authority_views(s1) == authority_views(s2),
    ensures
        total_weight(s1) == total_weight(s2),
    decreases s1.len(),
{
    assert(authority_views(s1).len() == s1.len());
    assert(authority_views(s2).len() == s2.len());
    if s1.len() > 0 {
        assert(authority_views(s1.drop_last()) =~= authority_views(s1).drop_last());
        assert(authority_views(s2.drop_last()) =~= authority_views(s2).drop_last());
        lemma_total_weight_of_views(s1.drop_last(), s2.drop_last());
        assert(authority_views(s1)[s1.len() - 1].1 == s1.last().weight);
        assert(authority_views(s2)[s2.len() - 1].1 == s2.last().weight);
    }
}

/// Copies a checkpoint; the copy carries the same plain values and stays
/// well formed.
pub fn clone_checkpoint(c: &FinalitySyncCheckpoint) -> (r: FinalitySyncCheckpoint)
    requires
        c.wf(),
    ensures
        r.wf(),
        r.set_id == c.set_id,
        r.block_number == c.block_number,
        checkpoint_view(r) == checkpoint_view(*c),
{
    let mut authorities: Vec<Authority> = Vec::new();
    let mut i: usize = 0;
    while i < c.authorities.len()
        invariant
            c.wf(),
            i <= c.authorities@.len(),
            authorities@.len() == i,
            forall|k: int|
                0 <= k < i ==> (#[trigger] authorities@[k]).wf() && authorities@[k].public_key@
                    == c.authorities@[k].public_key@ && authorities@[k].weight
                    == c.authorities@[k].weight,
        decreases c.authorities@.len() - i,
    {
        proof {
            assert(c.authorities@[i as int].wf());
        }
        let a = Authority {
            public_key: clone_bytes(&c.authorities[i].public_key),
            weight: c.authorities[i].weight,
        };
        authorities.push(a);
        i = i + 1;
    }
    proof {
        let va = authority_views(authorities@);
        let vc = authority_views(c.authorities@);
        assert forall|k: int| 0 <= k < va.len() implies va[k] == vc[k] by {
            assert(va[k] == (authorities@[k].public_key@, authorities@[k].weight));
            assert(vc[k] == (c.authorities@[k].public_key@, c.authorities@[k].weight));
        }
        assert(va =~= vc);
        lemma_total_weight_of_views(authorities@, c.authorities@);
    }
    FinalitySyncCheckpoint { set_id: c.set_id, block_number: c.block_number, authorities }
}

/// Seeds the chain of trust on first run: a store without a checkpoint gets
/// one from the genesis (or configured) authority set; a store that already
/// holds one keeps it, so a restart never rewinds the trust.
pub fn bootstrap_checkpoint(
    db: &mut Store,
    genesis_authorities: Vec<Authority>,
    block_number: u32,
) -> (r: FinalitySyncCheckpoint)
    requires
        old(db).wf(),
        wf_authority_set(genesis_authorities@),
    ensures
        final(db).wf(),
        r.wf(),
        final(db).checkpoint matches Some(c) && checkpoint_view(c) == checkpoint_view(r),
        old(db).checkpoint matches Some(c0) ==> r.set_id == c0.set_id && r.block_number
            == c0.block_number && checkpoint_view(r) == checkpoint_view(c0),
        old(db).checkpoint is None ==> r.set_id == 0 && r.block_number == block_number
            && r.authorities@ == genesis_authorities@,
        *final(db) == (Store { checkpoint: final(db).checkpoint, ..*old(db) }),
{
    let existing = match crate::store::get_finality_sync_checkpoint(db) {
        Some(c) => Some(clone_checkpoint(c)),
        None => None,
    };
    match existing {
        Some(c) => {
            let copy = clone_checkpoint(&c);
            store_finality_sync_checkpoint(db, copy);
            c
        },
        None => {
            let c = FinalitySyncCheckpoint {
                set_id: 0,
                block_number,
                authorities: genesis_authorities,
            };
            let copy = clone_checkpoint(&c);
            store_finality_sync_checkpoint(db, copy);
            c
        },
    }
}

/// One step of the finality engine: verify a justification against the
/// working checkpoint, advance and persist it, and mark the shared state
/// trusted once the checkpoint has caught up with the live head.  A
/// rejected justification is an unrecoverable break of the trust chain:
/// nothing changes and the fatal error is reported upstream.
pub fn sync_finality_step(
    db: &mut Store,
    state: &mut State,
    checkpoint: &mut FinalitySyncCheckpoint,
    j: &Justification,
    next_authorities: Option<Vec<Authority>>,
    latest: u32,
) -> (r: Result<(), FatalError>)
    requires
        old(db).wf(),
        old(checkpoint).wf(),
        old(checkpoint).set_id < u64::MAX,
        match next_authorities {
            Some(auths) => wf_authority_set(auths@),
            None => true,
        },
        match old(db).checkpoint {
            Some(c) => old(checkpoint).block_number >= c.block_number,
            None => true,
        },
    ensures
        final(db).wf(),
        r is Err ==> *final(db) == *old(db) && *final(state) == *old(state) && *final(checkpoint)
            == *old(checkpoint) && check_justification_spec(*old(checkpoint), *j) is Err,
        r is Ok ==> {
            &&& check_justification_spec(*old(checkpoint), *j) is Ok
            &&& final(checkpoint).wf()
            &&& final(checkpoint).block_number == j.block_number
            &&& final(checkpoint).block_number >= old(checkpoint).block_number
            &&& (final(db).checkpoint matches Some(c) && checkpoint_view(c) == checkpoint_view(
                *final(checkpoint),
            ))
            &&& final(state).finality_synced == (j.block_number >= latest)
            &&& *final(state) == (State {
                finality_synced: final(state).finality_synced,
                ..*old(state)
            })
            &&& *final(db) == (Store { checkpoint: final(db).checkpoint, ..*old(db) })
        },
{
    match apply_justification(checkpoint, j, next_authorities) {
        Ok(()) => {
            let copy = clone_checkpoint(checkpoint);
            store_finality_sync_checkpoint(db, copy);
            state.finality_synced = checkpoint.block_number >= latest;
            Ok(())
        },
        Err(_) => Err(FatalError::FinalityTrustFailure),
    }
}

/// The checkpoint's block number never decreases: across any run of
/// checkpoints in which each step holds its ground or advances — as every
/// accepted justification and every persistence round trip does — every
/// later checkpoint stands at or past every earlier one.
pub proof fn lemma_checkpoint_monotone(numbers: Seq<u32>, i: int, k: int)
    requires
        forall|m: int| 0 <= m < numbers.len() - 1 ==> #[trigger] numbers[m] <= numbers[m + 1],
        0 <= i <= k < numbers.len(),
    ensures
        numbers[i] <= numbers[k],
    decreases k - i,
{
    if i < k {
        lemma_checkpoint_monotone(numbers, i + 1, k);
    }
}

} // verus!
