use avail_light::startup::{
    apply_finality_mode, check_genesis_hash, check_node_compatibility, fatal_error_message,
    run_startup_checks, select_connected_node, validate_startup, StartupPlan,
};
use avail_light::store::Store;
use avail_light::sync_client::sync_range;
use avail_light::types::{FatalError, Mode, RuntimeConfig, State};

fn startup_config() -> RuntimeConfig {
    RuntimeConfig {
        log_level: "info".to_owned(),
        log_format_json: false,
        avail_path: "avail_path".to_owned(),
        full_node_ws: vec!["ws://127.0.0.1:9944".to_owned()],
        app_id: None,
        confidence_target_ppm: 920_000,
        bootstraps: vec!["/ip4/127.0.0.1/udp/39000".to_owned()],
        sync_start_block: None,
        sync_finality_enable: true,
        dht_parallelization_limit: 20,
    }
}

#[test]
fn empty_bootstrap_list_is_fatal_before_any_connection() {
    // startup with an empty store and no bootstrap peers: the fatal error
    // comes from validation alone, before any network client exists
    let db = Store::new();
    assert!(db.headers.is_empty());
    let mut cfg = startup_config();
    cfg.bootstraps = vec![];
    assert_eq!(validate_startup(&cfg), Err(FatalError::BootstrapListEmpty));
    assert_eq!(
        fatal_error_message(&FatalError::BootstrapListEmpty),
        "Bootstrap node list must not be empty. Either use a '--network' flag or add a list of bootstrap nodes in the configuration file"
    );
}

#[test]
fn startup_resolves_the_active_engines() {
    let mut cfg = startup_config();
    cfg.app_id = Some(7);
    cfg.sync_start_block = Some(100);
    cfg.sync_finality_enable = false;
    assert_eq!(
        validate_startup(&cfg),
        Ok(StartupPlan {
            mode: Mode::AppClient(7),
            historical_sync: true,
            finality_sync: false,
            target_ppm: 920_000,
        })
    );
    let plain = validate_startup(&startup_config()).unwrap();
    assert_eq!(plain.mode, Mode::LightClient);
    assert!(!plain.historical_sync);
    assert!(plain.finality_sync);
}

#[test]
fn genesis_hash_is_adopted_then_enforced() {
    let mut db = Store::new();
    assert_eq!(check_genesis_hash(&mut db, vec![5u8; 32]), Ok(true));
    assert_eq!(check_genesis_hash(&mut db, vec![5u8; 32]), Ok(false));
    assert_eq!(
        check_genesis_hash(&mut db, vec![6u8; 32]),
        Err(FatalError::GenesisHashMismatch)
    );
    assert_eq!(
        fatal_error_message(&FatalError::GenesisHashMismatch),
        "Genesis hash doesn't match the stored one! Clear the db or change nodes."
    );
}

#[test]
fn version_gate_accepts_compatible_nodes_only() {
    assert_eq!(check_node_compatibility("1.8.2", "data-avail"), Ok(()));
    assert_eq!(check_node_compatibility("1.8", "data-avail"), Ok(()));
    assert_eq!(
        check_node_compatibility("1.7.9", "data-avail"),
        Err(FatalError::NoCompatibleNode)
    );
    assert_eq!(
        check_node_compatibility("1.8.2", "other-chain"),
        Err(FatalError::NoCompatibleNode)
    );
}

#[test]
fn disabled_finality_sync_forces_the_trust_flag() {
    let mut cfg = startup_config();
    cfg.sync_finality_enable = false;
    let mut state = State::default();
    assert!(!state.finality_synced);
    apply_finality_mode(&cfg, &mut state);
    assert!(state.finality_synced);

    let mut state2 = State::default();
    apply_finality_mode(&startup_config(), &mut state2);
    assert!(!state2.finality_synced);
}

#[test]
fn startup_sequence_stops_at_the_first_fatal_step() {
    let mut db = Store::new();
    let mut state = State::default();

    let mut no_peers = startup_config();
    no_peers.bootstraps = vec![];
    assert_eq!(
        run_startup_checks(&mut db, &mut state, &no_peers, "1.8.2", "data-avail", vec![1u8; 32]),
        Err(FatalError::BootstrapListEmpty)
    );
    // nothing was stored: the process never got past validation
    assert!(db.genesis_hash.is_none());

    assert_eq!(
        run_startup_checks(
            &mut db,
            &mut state,
            &startup_config(),
            "1.7.0",
            "data-avail",
            vec![1u8; 32]
        ),
        Err(FatalError::NoCompatibleNode)
    );

    let plan = run_startup_checks(
        &mut db,
        &mut state,
        &startup_config(),
        "1.8.2",
        "data-avail",
        vec![1u8; 32],
    )
    .unwrap();
    assert_eq!(plan.mode, Mode::LightClient);
    assert_eq!(db.genesis_hash, Some(vec![1u8; 32]));

    // a later run against a node of another chain is fatal
    assert_eq!(
        run_startup_checks(
            &mut db,
            &mut state,
            &startup_config(),
            "1.8.2",
            "data-avail",
            vec![2u8; 32]
        ),
        Err(FatalError::GenesisHashMismatch)
    );
}

#[test]
fn startup_with_backfill_marks_sync_started() {
    let mut db = Store::new();
    let mut state = State::default();
    let mut cfg = startup_config();
    cfg.sync_start_block = Some(100);
    let plan = run_startup_checks(
        &mut db,
        &mut state,
        &cfg,
        "1.8.2",
        "data-avail",
        vec![1u8; 32],
    )
    .unwrap();
    assert!(plan.historical_sync);
    // the backfill is planned: started, not complete
    assert_eq!(state.synced, Some(false));

    // without a configured start block the flag is left alone
    let mut state2 = State::default();
    let mut db2 = Store::new();
    run_startup_checks(
        &mut db2,
        &mut state2,
        &startup_config(),
        "1.8.2",
        "data-avail",
        vec![1u8; 32],
    )
    .unwrap();
    assert_eq!(state2.synced, None);
}

#[test]
fn failover_takes_the_first_usable_endpoint() {
    // per endpoint: did it respond and pass the version gate
    assert_eq!(select_connected_node(&vec![false, true, true]), Ok(1));
    assert_eq!(select_connected_node(&vec![true]), Ok(0));
    // only after every endpoint is exhausted is the failure fatal
    assert_eq!(
        select_connected_node(&vec![false, false]),
        Err(FatalError::NoCompatibleNode)
    );
    assert_eq!(select_connected_node(&vec![]), Err(FatalError::NoCompatibleNode));
}

#[test]
fn backfill_range_runs_from_start_to_latest() {
    let mut cfg = startup_config();
    assert_eq!(sync_range(&cfg, 500), (0, 500));
    cfg.sync_start_block = Some(100);
    assert_eq!(sync_range(&cfg, 500), (100, 500));
}
