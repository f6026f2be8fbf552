use avail_light::light_client::sample_positions;
use avail_light::store::{
    is_confidence_in_db, store_block_header_in_db, store_confidence_in_db, Store,
};
use avail_light::sync_client::sync_block_step;
use avail_light::types::{BlockHeader, ConfidenceRecord, Dimensions, State};

fn sync_header(number: u32) -> BlockHeader {
    BlockHeader {
        number,
        hash: vec![4u8; 32],
        parent_hash: vec![3u8; 32],
        dimensions: Dimensions { rows: 2, cols: 4 },
        commitments: vec![vec![0u8; 48], vec![0u8; 48]],
        next_authorities: None,
        app_rows: vec![],
    }
}

#[test]
fn backfill_walks_ascending_and_moves_the_cursor() {
    let mut db = Store::new();
    let mut state = State::default();
    state.synced = Some(false);
    let mut cursor_values = Vec::new();
    for block in 3..=5u32 {
        let header = sync_header(block);
        let positions = sample_positions(header.dimensions, 4, block as u64);
        let verified = vec![true; 4];
        let message = sync_block_step(
            &mut db,
            &mut state,
            header,
            &positions,
            &verified,
            920_000,
            5,
        );
        assert!(message.is_some());
        cursor_values.push(state.sync_cursor.unwrap());
    }
    assert_eq!(cursor_values, vec![3, 4, 5]);
    assert_eq!(state.synced, Some(true));
    assert!(is_confidence_in_db(&db, 3));
    assert!(is_confidence_in_db(&db, 4));
    assert!(is_confidence_in_db(&db, 5));
}

#[test]
fn already_recorded_blocks_are_passed_over() {
    let mut db = Store::new();
    let mut state = State::default();
    store_block_header_in_db(&mut db, 3, sync_header(3));
    store_confidence_in_db(
        &mut db,
        3,
        ConfidenceRecord { block_number: 3, sampled: 4, verified: 2 },
    );
    let header = sync_header(3);
    let positions = sample_positions(header.dimensions, 4, 0);
    let verified = vec![true; 4];
    let message = sync_block_step(&mut db, &mut state, header, &positions, &verified, 920_000, 9);
    // the block keeps its earlier record; only the cursor moves
    assert!(message.is_none());
    assert_eq!(db.confidence[0].1.verified, 2);
    assert_eq!(state.sync_cursor, Some(3));
    assert_eq!(state.synced, Some(false));
}

#[test]
fn an_unresolved_block_does_not_stop_the_range() {
    let mut db = Store::new();
    let mut state = State::default();
    // block 3: every fetch failed — zero verified cells, still recorded
    let header3 = sync_header(3);
    let positions = sample_positions(header3.dimensions, 4, 1);
    let none_verified = vec![false; 4];
    sync_block_step(&mut db, &mut state, header3, &positions, &none_verified, 920_000, 4);
    // block 4 proceeds regardless
    let header4 = sync_header(4);
    let all_verified = vec![true; 4];
    sync_block_step(&mut db, &mut state, header4, &positions, &all_verified, 920_000, 4);
    assert!(is_confidence_in_db(&db, 3));
    assert!(is_confidence_in_db(&db, 4));
    assert_eq!(state.sync_cursor, Some(4));
    assert_eq!(state.synced, Some(true));
}
