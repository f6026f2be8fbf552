use avail_light::api::{
    confidence, get_confidence_message_list, get_data_verified_message_list,
    get_header_verified_message_list, latest_block, parse_log_level, process_client_response,
    status, string_to_error_resp_json,
};
use avail_light::messages::{call_callbacks, message_to_json, store_publish_messages};
use avail_light::store::{
    store_block_header_in_db, store_confidence_in_db, store_latest_block_in_db, Store,
};
use avail_light::types::{
    BlockHeader, ClientResponse, ConfidenceRecord, Dimensions, LogLevel, ParseLevelError,
    PublishMessage, Topic,
};

fn api_header(number: u32) -> BlockHeader {
    BlockHeader {
        number,
        hash: vec![0xAB; 32],
        parent_hash: vec![0u8; 32],
        dimensions: Dimensions { rows: 2, cols: 4 },
        commitments: vec![vec![0u8; 48], vec![0u8; 48]],
        next_authorities: None,
        app_rows: vec![],
    }
}

#[test]
fn error_answers_carry_their_message() {
    assert_eq!(
        string_to_error_resp_json("Not found".to_owned()),
        "{\"message\":\"Not found\"}"
    );
    assert_eq!(
        process_client_response(ClientResponse::<String>::NotFinalized),
        "{\"message\":\"Not Finalized\"}"
    );
    assert_eq!(
        process_client_response(ClientResponse::<String>::InProcess),
        "{\"message\":\"In process\"}"
    );
    assert_eq!(
        process_client_response(ClientResponse::Normal("{}".to_owned())),
        "{}"
    );
}

#[test]
fn latest_block_answer() {
    let mut db = Store::new();
    assert_eq!(latest_block(&db), "{\"message\":\"Not found\"}");
    store_latest_block_in_db(&mut db, 7);
    assert_eq!(latest_block(&db), "{\"latest_block\":7}");
}

#[test]
fn confidence_answer_with_serialised_value() {
    let mut db = Store::new();
    assert_eq!(confidence(42, &db), "{\"message\":\"Not found\"}");
    store_block_header_in_db(&mut db, 42, api_header(42));
    store_confidence_in_db(
        &mut db,
        42,
        ConfidenceRecord { block_number: 42, sampled: 20, verified: 17 },
    );
    // 42 * 2^32 + 999993
    assert_eq!(
        confidence(42, &db),
        "{\"block\":42,\"confidence\":999993,\"serialised_confidence\":\"180389626425\"}"
    );
}

#[test]
fn status_answer() {
    let mut db = Store::new();
    assert_eq!(status(1, &db), "{\"message\":\"Not found\"}");
    store_block_header_in_db(&mut db, 9, api_header(9));
    store_confidence_in_db(
        &mut db,
        9,
        ConfidenceRecord { block_number: 9, sampled: 1, verified: 1 },
    );
    store_latest_block_in_db(&mut db, 9);
    assert_eq!(
        status(1, &db),
        "{\"block_num\":9,\"confidence\":500000,\"app_id\":1}"
    );
}

#[test]
fn message_rendering_is_exact() {
    let m = PublishMessage::ConfidenceAchieved { block_number: 5, confidence_ppm: 999_993 };
    assert_eq!(
        message_to_json(&m),
        "{\"topic\":\"confidence-achieved\",\"block_number\":5,\"confidence\":999993}"
    );
    let d = PublishMessage::DataVerified { app_id: 2, block_number: 5, size: 64 };
    assert_eq!(
        message_to_json(&d),
        "{\"topic\":\"data-verified\",\"app_id\":2,\"block_number\":5,\"size\":64}"
    );
    let h = PublishMessage::HeaderVerified { block_number: 5, hash: vec![0x00, 0xFF, 0x1A] };
    assert_eq!(
        message_to_json(&h),
        "{\"topic\":\"header-verified\",\"block_number\":5,\"hash\":\"00ff1a\"}"
    );
}

#[test]
fn message_lists_render_or_default() {
    let mut db = Store::new();
    assert_eq!(get_confidence_message_list(&db), "{'message_list':[]}");
    assert_eq!(get_data_verified_message_list(&db), "{'message_list':[]}");
    assert_eq!(get_header_verified_message_list(&db), "{'message_list':[]}");

    let m1 = PublishMessage::ConfidenceAchieved { block_number: 1, confidence_ppm: 500_000 };
    let m2 = PublishMessage::ConfidenceAchieved { block_number: 2, confidence_ppm: 750_000 };
    store_publish_messages(&mut db, Topic::ConfidenceAchieved, m1);
    store_publish_messages(&mut db, Topic::ConfidenceAchieved, m2);
    assert_eq!(
        get_confidence_message_list(&db),
        "{\"message_list\":[{\"topic\":\"confidence-achieved\",\"block_number\":1,\"confidence\":500000},{\"topic\":\"confidence-achieved\",\"block_number\":2,\"confidence\":750000}]}"
    );
    // the other logs stay empty
    assert_eq!(get_data_verified_message_list(&db), "{'message_list':[]}");
}

#[test]
fn fanout_keeps_topics_apart() {
    let mut db = Store::new();
    let m = PublishMessage::DataVerified { app_id: 1, block_number: 3, size: 9 };
    // delivered to a subscriber of another topic: nothing stored
    store_publish_messages(&mut db, Topic::HeaderVerified, m.clone());
    assert_eq!(db.header_verified_messages.len(), 0);
    assert_eq!(db.data_verified_messages.len(), 0);
    store_publish_messages(&mut db, Topic::DataVerified, m);
    assert_eq!(db.data_verified_messages.len(), 1);
}

#[test]
fn callbacks_get_their_topic_only() {
    let m = PublishMessage::ConfidenceAchieved { block_number: 4, confidence_ppm: 875_000 };
    assert_eq!(call_callbacks(Topic::HeaderVerified, &m), None);
    assert_eq!(
        call_callbacks(Topic::ConfidenceAchieved, &m),
        Some(
            "{\"topic\":\"confidence-achieved\",\"block_number\":4,\"confidence\":875000}"
                .to_owned()
        )
    );
}

#[test]
fn log_levels_parse_in_any_case() {
    assert_eq!(parse_log_level("info", LogLevel::Warn), (LogLevel::Info, None));
    assert_eq!(parse_log_level("INFO", LogLevel::Warn), (LogLevel::Info, None));
    assert_eq!(parse_log_level("TrAcE", LogLevel::Warn), (LogLevel::Trace, None));
    assert_eq!(parse_log_level("debug", LogLevel::Warn), (LogLevel::Debug, None));
    assert_eq!(parse_log_level("warn", LogLevel::Info), (LogLevel::Warn, None));
    assert_eq!(parse_log_level("ERROR", LogLevel::Warn), (LogLevel::Error, None));
    // numeric forms, one for the severest up to five for the chattiest
    assert_eq!(parse_log_level("1", LogLevel::Info), (LogLevel::Error, None));
    assert_eq!(parse_log_level("2", LogLevel::Info), (LogLevel::Warn, None));
    assert_eq!(parse_log_level("3", LogLevel::Warn), (LogLevel::Info, None));
    assert_eq!(parse_log_level("4", LogLevel::Info), (LogLevel::Debug, None));
    assert_eq!(parse_log_level("5", LogLevel::Info), (LogLevel::Trace, None));
    assert_eq!(
        parse_log_level("6", LogLevel::Info),
        (LogLevel::Info, Some(ParseLevelError {}))
    );
    assert_eq!(
        parse_log_level("chatty", LogLevel::Info),
        (LogLevel::Info, Some(ParseLevelError {}))
    );
    assert_eq!(
        parse_log_level("", LogLevel::Warn),
        (LogLevel::Warn, Some(ParseLevelError {}))
    );
}
