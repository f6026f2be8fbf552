use avail_light::store::{
    get_blocks_list, get_blocks_list_length, get_block_header_from_db,
    get_confidence_achieved_blocks, get_confidence_from_db, get_confidence_record_from_db,
    get_decoded_data_from_db, get_genesis_hash, get_latest_block, is_block_header_in_db,
    is_confidence_in_db, store_blocks_list_in_db, store_block_header_in_db,
    store_confidence_achieved_blocks_in_db, store_confidence_in_db, store_encoded_data_in_db,
    store_genesis_hash, store_latest_block_in_db, Database, Store,
};
use avail_light::types::{BlockHeader, ConfidenceRecord, Dimensions};

fn store_header(number: u32) -> BlockHeader {
    BlockHeader {
        number,
        hash: vec![7u8; 32],
        parent_hash: vec![6u8; 32],
        dimensions: Dimensions { rows: 2, cols: 4 },
        commitments: vec![vec![1u8; 48], vec![2u8; 48]],
        next_authorities: None,
        app_rows: vec![],
    }
}

#[test]
fn header_round_trip() {
    let mut db = Store::new();
    assert!(!is_block_header_in_db(&db, 5));
    assert!(get_block_header_from_db(&db, 5).is_none());
    store_block_header_in_db(&mut db, 5, store_header(5));
    assert!(is_block_header_in_db(&db, 5));
    let loaded = get_block_header_from_db(&db, 5).unwrap();
    assert_eq!(loaded.number, 5);
    assert_eq!(loaded.hash, vec![7u8; 32]);
    assert!(!is_block_header_in_db(&db, 6));
}

#[test]
fn confidence_round_trip() {
    let mut db = Store::new();
    store_block_header_in_db(&mut db, 9, store_header(9));
    assert!(!is_confidence_in_db(&db, 9));
    let record = ConfidenceRecord { block_number: 9, sampled: 20, verified: 17 };
    store_confidence_in_db(&mut db, 9, record);
    assert!(is_confidence_in_db(&db, 9));
    assert_eq!(get_confidence_from_db(&db, 9), Some(17));
    let loaded = get_confidence_record_from_db(&db, 9).unwrap();
    assert_eq!(loaded.sampled, 20);
    assert_eq!(loaded.verified, 17);
    assert!(loaded.verified <= loaded.sampled);
    assert_eq!(get_confidence_from_db(&db, 10), None);
}

#[test]
fn app_data_round_trip() {
    let mut db = Store::new();
    store_block_header_in_db(&mut db, 3, store_header(3));
    assert!(get_decoded_data_from_db(&db, 1, 3).is_none());
    store_encoded_data_in_db(&mut db, 1, 3, vec![1, 2, 3, 4]);
    assert_eq!(get_decoded_data_from_db(&db, 1, 3), Some(&vec![1, 2, 3, 4]));
    assert!(get_decoded_data_from_db(&db, 2, 3).is_none());
    assert!(get_decoded_data_from_db(&db, 1, 4).is_none());
}

#[test]
fn genesis_hash_round_trip() {
    let mut db = Store::new();
    assert!(get_genesis_hash(&db).is_none());
    store_genesis_hash(&mut db, vec![9u8; 32]);
    assert_eq!(get_genesis_hash(&db), Some(&vec![9u8; 32]));
}

#[test]
fn latest_block_round_trip() {
    let mut db = Store::new();
    assert_eq!(get_latest_block(&db), None);
    store_latest_block_in_db(&mut db, 123);
    assert_eq!(get_latest_block(&db), Some(123));
    store_latest_block_in_db(&mut db, 124);
    assert_eq!(get_latest_block(&db), Some(124));
}

#[test]
fn blocks_list_appends() {
    let mut db = Store::new();
    assert_eq!(get_blocks_list_length(&db), None);
    assert_eq!(get_blocks_list(&db, 0), None);
    store_blocks_list_in_db(&mut db, 11);
    store_blocks_list_in_db(&mut db, 12);
    assert_eq!(get_blocks_list_length(&db), Some(2));
    assert_eq!(get_blocks_list(&db, 0), Some(11));
    assert_eq!(get_blocks_list(&db, 1), Some(12));
    assert_eq!(get_blocks_list(&db, 2), None);
}

#[test]
fn confidence_achieved_blocks_round_trip() {
    let mut db = Store::new();
    assert_eq!(get_confidence_achieved_blocks(&db), None);
    store_confidence_achieved_blocks_in_db(&mut db, 77);
    assert_eq!(get_confidence_achieved_blocks(&db), Some(77));
}

#[test]
fn database_trait_reads_the_store() {
    let mut db = Store::new();
    store_block_header_in_db(&mut db, 2, store_header(2));
    store_confidence_in_db(
        &mut db,
        2,
        ConfidenceRecord { block_number: 2, sampled: 10, verified: 8 },
    );
    store_encoded_data_in_db(&mut db, 4, 2, vec![5, 6]);
    assert_eq!(db.get_confidence(2), Some(8));
    assert_eq!(db.get_header(2).unwrap().number, 2);
    assert_eq!(db.get_data(4, 2), Some(&vec![5, 6]));
    assert_eq!(db.get_confidence(3), None);
}

#[test]
fn overwriting_a_record_keeps_one_entry() {
    let mut db = Store::new();
    store_block_header_in_db(&mut db, 1, store_header(1));
    store_confidence_in_db(
        &mut db,
        1,
        ConfidenceRecord { block_number: 1, sampled: 5, verified: 3 },
    );
    store_confidence_in_db(
        &mut db,
        1,
        ConfidenceRecord { block_number: 1, sampled: 5, verified: 4 },
    );
    assert_eq!(get_confidence_from_db(&db, 1), Some(4));
}
