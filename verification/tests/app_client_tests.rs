use avail_light::app_client::{
    process_app_block, reconstruct_row, reconstruction_threshold, AppBlockOutcome, RowCells,
    RowOutcome,
};
use avail_light::store::{
    get_decoded_data_from_db, store_block_header_in_db, Store,
};
use avail_light::types::{BlockHeader, Dimensions, PublishMessage};

fn app_header(number: u32) -> BlockHeader {
    BlockHeader {
        number,
        hash: vec![3u8; 32],
        parent_hash: vec![2u8; 32],
        dimensions: Dimensions { rows: 2, cols: 4 },
        commitments: vec![vec![0u8; 48], vec![0u8; 48]],
        next_authorities: None,
        app_rows: vec![],
    }
}

#[test]
fn threshold_is_half_rounded_up() {
    assert_eq!(reconstruction_threshold(4), 2);
    assert_eq!(reconstruction_threshold(5), 3);
    assert_eq!(reconstruction_threshold(1), 1);
}

#[test]
fn complete_systematic_half_assembles() {
    let row = RowCells {
        row: 0,
        cells: vec![Some(vec![1, 2]), Some(vec![3, 4]), None, None],
    };
    match reconstruct_row(&row, 4) {
        RowOutcome::Decoded(payload) => assert_eq!(payload, vec![1, 2, 3, 4]),
        _ => panic!("row should assemble"),
    }
}

#[test]
fn withheld_redundancy_changes_nothing() {
    // the same row, once with every cell, once with the redundant half
    // withheld: both assemble to identical bytes
    let complete = RowCells {
        row: 0,
        cells: vec![
            Some(vec![1, 2]),
            Some(vec![3, 4]),
            Some(vec![9, 9]),
            Some(vec![8, 8]),
        ],
    };
    let withheld = RowCells {
        row: 0,
        cells: vec![Some(vec![1, 2]), Some(vec![3, 4]), None, Some(vec![8, 8])],
    };
    let full = match reconstruct_row(&complete, 4) {
        RowOutcome::Decoded(payload) => payload,
        _ => panic!("complete row should assemble"),
    };
    let partial = match reconstruct_row(&withheld, 4) {
        RowOutcome::Decoded(payload) => payload,
        _ => panic!("row above the threshold should assemble"),
    };
    assert_eq!(full, partial);
}

#[test]
fn systematic_gap_defers_to_the_decoder() {
    let row = RowCells {
        row: 0,
        cells: vec![Some(vec![1, 2]), None, Some(vec![9, 9]), Some(vec![8, 8])],
    };
    assert!(matches!(reconstruct_row(&row, 4), RowOutcome::NeedsDecode));
}

#[test]
fn below_threshold_is_unavailable() {
    let row = RowCells {
        row: 0,
        cells: vec![None, None, None, Some(vec![8, 8])],
    };
    assert!(matches!(reconstruct_row(&row, 4), RowOutcome::Unavailable));
}

#[test]
fn assembled_block_is_persisted_and_published() {
    let mut db = Store::new();
    store_block_header_in_db(&mut db, 6, app_header(6));
    let rows = vec![
        RowCells { row: 0, cells: vec![Some(vec![1, 2]), Some(vec![3, 4]), None, None] },
        RowCells { row: 1, cells: vec![Some(vec![5, 6]), Some(vec![7, 8]), None, None] },
    ];
    match process_app_block(&mut db, 9, 6, &rows, 4) {
        AppBlockOutcome::Stored(message) => {
            assert_eq!(
                message,
                PublishMessage::DataVerified { app_id: 9, block_number: 6, size: 8 }
            );
        },
        _ => panic!("both rows assemble"),
    }
    assert_eq!(
        get_decoded_data_from_db(&db, 9, 6),
        Some(&vec![1, 2, 3, 4, 5, 6, 7, 8])
    );
    assert_eq!(db.data_verified_messages.len(), 1);
}

#[test]
fn unavailable_block_stores_nothing() {
    let mut db = Store::new();
    store_block_header_in_db(&mut db, 6, app_header(6));
    let rows = vec![
        RowCells { row: 0, cells: vec![Some(vec![1, 2]), Some(vec![3, 4]), None, None] },
        RowCells { row: 1, cells: vec![None, None, None, None] },
    ];
    assert!(matches!(
        process_app_block(&mut db, 9, 6, &rows, 4),
        AppBlockOutcome::Unavailable
    ));
    assert!(get_decoded_data_from_db(&db, 9, 6).is_none());
    assert_eq!(db.data_verified_messages.len(), 0);
}
