use avail_light::codec::{decode_finality_sync_checkpoint, encode_finality_sync_checkpoint};
use avail_light::finality::{
    apply_justification, bootstrap_checkpoint, check_justification, sync_finality_step,
};
use avail_light::store::{get_finality_sync_checkpoint, store_finality_sync_checkpoint, Store};
use avail_light::types::{
    Authority, FatalError, FinalityError, FinalitySyncCheckpoint, Justification, State, Vote,
};

fn authority_set(weights: &[u64]) -> Vec<Authority> {
    weights
        .iter()
        .enumerate()
        .map(|(i, w)| Authority { public_key: vec![i as u8; 32], weight: *w })
        .collect()
}

fn valid_votes(indexes: &[usize]) -> Vec<Vote> {
    indexes
        .iter()
        .map(|i| Vote { authority_index: *i, signature_valid: true })
        .collect()
}

fn trusted(set_id: u64, block_number: u32, weights: &[u64]) -> FinalitySyncCheckpoint {
    FinalitySyncCheckpoint { set_id, block_number, authorities: authority_set(weights) }
}

#[test]
fn quorum_needs_more_than_two_thirds() {
    let checkpoint = trusted(0, 10, &[1, 1, 1, 1]);
    let good = Justification { block_number: 11, set_id: 0, votes: valid_votes(&[0, 1, 2]) };
    assert_eq!(check_justification(&checkpoint, &good), Ok(()));
    let short = Justification { block_number: 11, set_id: 0, votes: valid_votes(&[0, 1]) };
    assert_eq!(check_justification(&checkpoint, &short), Err(FinalityError::QuorumNotMet));
}

#[test]
fn an_authority_counts_once_however_often_it_votes() {
    let checkpoint = trusted(0, 10, &[1, 1, 1, 1]);
    let stuffed = Justification {
        block_number: 11,
        set_id: 0,
        votes: valid_votes(&[0, 0, 0, 1]),
    };
    assert_eq!(check_justification(&checkpoint, &stuffed), Err(FinalityError::QuorumNotMet));
}

#[test]
fn invalid_signatures_do_not_count() {
    let checkpoint = trusted(0, 10, &[1, 1, 1, 1]);
    let mut votes = valid_votes(&[0, 1]);
    votes.push(Vote { authority_index: 2, signature_valid: false });
    let j = Justification { block_number: 11, set_id: 0, votes };
    assert_eq!(check_justification(&checkpoint, &j), Err(FinalityError::QuorumNotMet));
}

#[test]
fn wrong_set_id_is_rejected() {
    let checkpoint = trusted(3, 10, &[1, 1, 1]);
    let j = Justification { block_number: 11, set_id: 4, votes: valid_votes(&[0, 1, 2]) };
    assert_eq!(check_justification(&checkpoint, &j), Err(FinalityError::WrongSetId));
}

#[test]
fn stale_block_is_rejected() {
    let checkpoint = trusted(0, 10, &[1, 1, 1]);
    let j = Justification { block_number: 9, set_id: 0, votes: valid_votes(&[0, 1, 2]) };
    assert_eq!(check_justification(&checkpoint, &j), Err(FinalityError::StaleBlock));
}

#[test]
fn vote_from_outside_the_set_is_rejected() {
    let checkpoint = trusted(0, 10, &[1, 1, 1]);
    let j = Justification { block_number: 11, set_id: 0, votes: valid_votes(&[0, 1, 3]) };
    assert_eq!(check_justification(&checkpoint, &j), Err(FinalityError::UnknownAuthority));
}

#[test]
fn weights_decide_the_quorum() {
    let checkpoint = trusted(0, 10, &[7, 1, 1]);
    // the heavy authority alone carries more than two thirds
    let heavy = Justification { block_number: 11, set_id: 0, votes: valid_votes(&[0]) };
    assert_eq!(check_justification(&checkpoint, &heavy), Ok(()));
    let light = Justification { block_number: 11, set_id: 0, votes: valid_votes(&[1, 2]) };
    assert_eq!(check_justification(&checkpoint, &light), Err(FinalityError::QuorumNotMet));
}

#[test]
fn accepted_justification_advances_the_checkpoint() {
    let mut checkpoint = trusted(0, 10, &[1, 1, 1, 1]);
    let j = Justification { block_number: 15, set_id: 0, votes: valid_votes(&[0, 1, 2]) };
    assert_eq!(apply_justification(&mut checkpoint, &j, None), Ok(()));
    assert_eq!(checkpoint.block_number, 15);
    assert_eq!(checkpoint.set_id, 0);
    assert_eq!(checkpoint.authorities.len(), 4);
}

#[test]
fn scheduled_set_change_bumps_the_set_id() {
    let mut checkpoint = trusted(0, 10, &[1, 1, 1, 1]);
    let j = Justification { block_number: 15, set_id: 0, votes: valid_votes(&[0, 1, 2]) };
    let next = authority_set(&[2, 2]);
    assert_eq!(apply_justification(&mut checkpoint, &j, Some(next)), Ok(()));
    assert_eq!(checkpoint.set_id, 1);
    assert_eq!(checkpoint.block_number, 15);
    assert_eq!(checkpoint.authorities.len(), 2);
    // the old set no longer justifies: wrong set id
    let stale_set = Justification { block_number: 16, set_id: 0, votes: valid_votes(&[0, 1]) };
    assert_eq!(
        apply_justification(&mut checkpoint, &stale_set, None),
        Err(FinalityError::WrongSetId)
    );
    assert_eq!(checkpoint.block_number, 15);
}

#[test]
fn rejected_justification_changes_nothing() {
    let mut checkpoint = trusted(0, 10, &[1, 1, 1]);
    let j = Justification { block_number: 12, set_id: 0, votes: valid_votes(&[0]) };
    assert_eq!(apply_justification(&mut checkpoint, &j, None), Err(FinalityError::QuorumNotMet));
    assert_eq!(checkpoint, trusted(0, 10, &[1, 1, 1]));
}

#[test]
fn checkpoint_block_number_never_decreases() {
    // a run of verified justifications, with a persistence round trip in
    // the middle standing for a restart
    let mut db = Store::new();
    let checkpoint = bootstrap_checkpoint(&mut db, authority_set(&[1, 1, 1, 1]), 10);
    let mut numbers = vec![checkpoint.block_number];
    let mut checkpoint = checkpoint;
    for block in [12u32, 12, 20] {
        let j = Justification { block_number: block, set_id: checkpoint.set_id, votes: valid_votes(&[0, 1, 2]) };
        apply_justification(&mut checkpoint, &j, None).unwrap();
        store_finality_sync_checkpoint(&mut db, checkpoint.clone());
        numbers.push(checkpoint.block_number);
    }

    // restart: the checkpoint comes back from its persisted bytes
    let persisted = encode_finality_sync_checkpoint(get_finality_sync_checkpoint(&db).unwrap());
    let mut reloaded = decode_finality_sync_checkpoint(&persisted).unwrap();
    numbers.push(reloaded.block_number);
    assert_eq!(reloaded.block_number, 20);

    let j = Justification { block_number: 33, set_id: 0, votes: valid_votes(&[0, 1, 2]) };
    apply_justification(&mut reloaded, &j, None).unwrap();
    numbers.push(reloaded.block_number);

    assert_eq!(numbers, vec![10, 12, 12, 20, 20, 33]);
    for pair in numbers.windows(2) {
        assert!(pair[0] <= pair[1]);
    }
}

#[test]
fn bootstrap_keeps_an_existing_checkpoint() {
    let mut db = Store::new();
    let first = bootstrap_checkpoint(&mut db, authority_set(&[1, 1, 1]), 10);
    assert_eq!(first.set_id, 0);
    assert_eq!(first.block_number, 10);
    // a later run with another configured seed keeps the stored trust
    let second = bootstrap_checkpoint(&mut db, authority_set(&[9, 9]), 0);
    assert_eq!(second.set_id, 0);
    assert_eq!(second.block_number, 10);
    assert_eq!(second.authorities.len(), 3);
}

#[test]
fn finality_step_persists_and_marks_trust() {
    let mut db = Store::new();
    let mut state = State::default();
    let mut checkpoint = bootstrap_checkpoint(&mut db, authority_set(&[1, 1, 1, 1]), 10);
    let j = Justification { block_number: 25, set_id: 0, votes: valid_votes(&[0, 1, 2]) };
    assert_eq!(
        sync_finality_step(&mut db, &mut state, &mut checkpoint, &j, None, 25),
        Ok(())
    );
    assert!(state.finality_synced);
    assert_eq!(get_finality_sync_checkpoint(&db).unwrap().block_number, 25);

    // a break in the chain of trust is fatal and changes nothing
    let bad = Justification { block_number: 30, set_id: 0, votes: valid_votes(&[0]) };
    assert_eq!(
        sync_finality_step(&mut db, &mut state, &mut checkpoint, &bad, None, 30),
        Err(FatalError::FinalityTrustFailure)
    );
    assert_eq!(get_finality_sync_checkpoint(&db).unwrap().block_number, 25);
}
