//! Startup decisions: what the process checks and resolves before any
//! engine runs.
//!
//! The configuration is validated — an empty bootstrap peer list is fatal
//! before any connection is attempted — and resolved once into the set of
//! active engines; the connected node's genesis hash is held against the
//! stored one; the node's reported version against the expected one; and
//! when finality sync is administratively disabled, the shared state's
//! trust flag is forced true, a documented trust downgrade.

use vstd::prelude::*;

use crate::store::get_genesis_hash;
use crate::store::store_genesis_hash;
use crate::store::Store;
use crate::types::bytes_equal;
use crate::types::FatalError;
use crate::types::Mode;
use crate::types::RuntimeConfig;
use crate::types::State;
use crate::types::HASH_SIZE;

verus! {

/// The version the connected node must report.
pub const EXPECTED_NETWORK_VERSION: &'static str = "1.8";

/// The chain specification name the connected node must report.
pub const EXPECTED_SPEC_NAME: &'static str = "data-avail";

/// The engines resolved once at startup from the configuration.
#[derive(Clone, Copy, Debug, PartialEq, Eq, Structural)]
pub struct StartupPlan {
    /// Plain sampling, or sampling plus one application's data.
    pub mode: Mode,
    /// Whether the historical backfill runs.
    pub historical_sync: bool,
    /// Whether justifications are verified; when not, every observed
    /// header counts as final by fiat.
    pub finality_sync: bool,
    /// The confidence target, in parts per million.
    pub target_ppm: u64,
}

/// The message a fatal error terminates the process with.
pub fn fatal_error_message(e: &FatalError) -> (r: String)
    ensures
        e is BootstrapListEmpty ==> r@
            == "Bootstrap node list must not be empty. Either use a '--network' flag or add a list of bootstrap nodes in the configuration file"@,
        e is GenesisHashMismatch ==> r@
            == "Genesis hash doesn't match the stored one! Clear the db or change nodes."@,
        e is NoCompatibleNode ==> r@
            == "No reachable node matched the expected network version"@,
        e is FinalityTrustFailure ==> r@
            == "Finality trust chain could not be verified"@,
{
    match e {
        FatalError::BootstrapListEmpty => "Bootstrap node list must not be empty. Either use a '--network' flag or add a list of bootstrap nodes in the configuration file".to_owned(),
        FatalError::GenesisHashMismatch => "Genesis hash doesn't match the stored one! Clear the db or change nodes.".to_owned(),
        FatalError::NoCompatibleNode => "No reachable node matched the expected network version".to_owned(),
        FatalError::FinalityTrustFailure => "Finality trust chain could not be verified".to_owned(),
    }
}

/// Validates the configuration and resolves the set of active engines,
/// before any network connection is attempted.  An empty bootstrap peer
/// list is the one fatal configuration error; everything else is a
/// resolved switch: the application mode from the configured id, the
/// backfill from the configured start block, the trust model from the
/// finality switch.
pub fn validate_startup(cfg: &RuntimeConfig) -> (r: Result<StartupPlan, FatalError>)
    requires
        cfg.wf(),
    ensures
        cfg.bootstraps@.len() == 0 ==> r == Result::<StartupPlan, FatalError>::Err(
            FatalError::BootstrapListEmpty,
        ),
        cfg.bootstraps@.len() > 0 ==> r == Result::<StartupPlan, FatalError>::Ok(StartupPlan {
            mode: match cfg.app_id {
                Some(id) => Mode::AppClient(id),
                None => Mode::LightClient,
            },
            historical_sync: cfg.sync_start_block is Some,
            finality_sync: cfg.sync_finality_enable,
            target_ppm: cfg.confidence_target_ppm,
        }),
{
    if cfg.bootstraps.len() == 0 {
        return Err(FatalError::BootstrapListEmpty);
    }
    let mode = Mode::from_app_id(cfg.app_id);
    let historical_sync = cfg.sync_start_block.is_some();
    Ok(
        StartupPlan {
            mode,
            historical_sync,
            finality_sync: cfg.sync_finality_enable,
            target_ppm: cfg.confidence_target_ppm,
        },
    )
}

/// Holds the connected node's genesis hash against the stored one: a fresh
/// store adopts it, a matching store passes, a differing store is a fatal
/// mismatch — the process talks to another chain than the store belongs
/// to.  Returns whether the hash was newly stored.
pub fn check_genesis_hash(db: &mut Store, node_genesis: Vec<u8>) -> (r: Result<bool, FatalError>)
    requires
        old(db).wf(),
        node_genesis@.len() == HASH_SIZE,
    ensures
        final(db).wf(),
        old(db).genesis_hash is None ==> r == Result::<bool, FatalError>::Ok(true) && (final(db).genesis_hash matches Some(g)
            && g@ == node_genesis@) && *final(db) == (Store {
            genesis_hash: final(db).genesis_hash,
            ..*old(db)
        }),
        (old(db).genesis_hash matches Some(g) && g@ == node_genesis@) ==> r == Result::<
            bool,
            FatalError,
        >::Ok(false) && *final(db) == *old(db),
        (old(db).genesis_hash matches Some(g) && g@ != node_genesis@) ==> r == Result::<
            bool,
            FatalError,
        >::Err(FatalError::GenesisHashMismatch) && *final(db) == *old(db),
{
    let stored = match get_genesis_hash(db) {
        Some(g) => Some(bytes_equal(g, &node_genesis)),
        None => None,
    };
    match stored {
        Some(true) => Ok(false),
        Some(false) => Err(FatalError::GenesisHashMismatch),
        None => {
            store_genesis_hash(db, node_genesis);
            Ok(true)
        },
    }
}

/// Whether a node's reported version and specification name are
/// compatible: the version starts with the expected one, the
/// specification name is exactly the expected one.
pub open spec fn version_compatible(
    version: Seq<char>,
    spec_name: Seq<char>,
    expected_version: Seq<char>,
    expected_spec: Seq<char>,
) -> bool {
    &&& expected_version.len() <= version.len()
    &&& version.subrange(0, expected_version.len() as int) == expected_version
    &&& spec_name == expected_spec
}

/// Tells whether one string starts with another.
fn starts_with(s: &str, prefix: &str) -> (r: bool)
    ensures
        r == (prefix@.len() <= s@.len() && s@.subrange(0, prefix@.len() as int) == prefix@),
{
    let n = prefix.unicode_len();
    if n > s.unicode_len() {
        return false;
    }
    let mut i: usize = 0;
    while i < n
        invariant
            n == prefix@.len(),
            n <= s@.len(),
            i <= n,
            forall|j: int| 0 <= j < i ==> (#[trigger] s@[j]) == prefix@[j],
        decreases n - i,
    {
        if s.get_char(i) != prefix.get_char(i) {
            proof {
                assert(s@.subrange(0, n as int)[i as int] != prefix@[i as int]);
            }
            return false;
        }
        i = i + 1;
    }
    proof {
        assert(s@.subrange(0, n as int) =~= prefix@);
    }
    true
}

/// Tells whether two strings hold the same characters.
fn str_equal(a: &str, b: &str) -> (r: bool)
    ensures
        r == (a@ == b@),
{
    let n = a.unicode_len();
    if n != b.unicode_len() {
        proof {
            assert(a@.len() != b@.len());
        }
        return false;
    }
    let mut i: usize = 0;
    while i < n
        invariant
            n == a@.len(),
            n == b@.len(),
            i <= n,
            forall|j: int| 0 <= j < i ==> (#[trigger] a@[j]) == b@[j],
        decreases n - i,
    {
        if a.get_char(i) != b.get_char(i) {
            return false;
        }
        i = i + 1;
    }
    proof {
        assert(a@ =~= b@);
    }
    true
}

/// Gates the connection on the node's reported version: a node whose
/// version does not start with the expected one, or whose specification
/// name differs, is incompatible — a fatal startup error, never retried.
pub fn check_node_compatibility(node_version: &str, node_spec_name: &str) -> (r: Result<
    (),
    FatalError,
>)
    ensures
        version_compatible(node_version@, node_spec_name@, "1.8"@, "data-avail"@) ==> r
            == Result::<(), FatalError>::Ok(()),
        !version_compatible(node_version@, node_spec_name@, "1.8"@, "data-avail"@) ==> r
            == Result::<(), FatalError>::Err(FatalError::NoCompatibleNode),
{
    if starts_with(node_version, "1.8") && str_equal(node_spec_name, "data-avail") {
        Ok(())
    } else {
        Err(FatalError::NoCompatibleNode)
    }
}

/// The startup sequence's decisions, in the order the process takes them:
/// validate the configuration before anything connects, gate on the
/// connected node's version, hold its genesis hash against the store,
/// apply the configured trust model, mark a planned backfill as started —
/// and only then let the engines run.  On every configuration the sequence
/// accepts — peers configured, a compatible node, a fresh or matching
/// genesis — it succeeds and the fresh store has adopted the node's
/// genesis hash; the first failed step aborts with its fatal error and
/// changes nothing.
pub fn run_startup_checks(
    db: &mut Store,
    state: &mut State,
    cfg: &RuntimeConfig,
    node_version: &str,
    node_spec_name: &str,
    node_genesis: Vec<u8>,
) -> (r: Result<StartupPlan, FatalError>)
    requires
        old(db).wf(),
        cfg.wf(),
        node_genesis@.len() == HASH_SIZE,
    ensures
        final(db).wf(),
        cfg.bootstraps@.len() == 0 ==> r == Result::<StartupPlan, FatalError>::Err(
            FatalError::BootstrapListEmpty,
        ) && *final(db) == *old(db) && *final(state) == *old(state),
        cfg.bootstraps@.len() > 0 && !version_compatible(
            node_version@,
            node_spec_name@,
            "1.8"@,
            "data-avail"@,
        ) ==> r == Result::<StartupPlan, FatalError>::Err(FatalError::NoCompatibleNode)
            && *final(db) == *old(db) && *final(state) == *old(state),
        cfg.bootstraps@.len() > 0 && version_compatible(
            node_version@,
            node_spec_name@,
            "1.8"@,
            "data-avail"@,
        ) && (old(db).genesis_hash matches Some(g) && g@ != node_genesis@) ==> r == Result::<
            StartupPlan,
            FatalError,
        >::Err(FatalError::GenesisHashMismatch) && *final(db) == *old(db) && *final(state)
            == *old(state),
        cfg.bootstraps@.len() > 0 && version_compatible(
            node_version@,
            node_spec_name@,
            "1.8"@,
            "data-avail"@,
        ) && (old(db).genesis_hash is None || (old(db).genesis_hash matches Some(g) && g@
            == node_genesis@)) ==> r is Ok,
        r is Ok ==> {
            &&& cfg.bootstraps@.len() > 0
            &&& version_compatible(node_version@, node_spec_name@, "1.8"@, "data-avail"@)
            &&& (final(db).genesis_hash matches Some(g) && g@ == node_genesis@)
            &&& *final(db) == (Store { genesis_hash: final(db).genesis_hash, ..*old(db) })
            &&& r == Result::<StartupPlan, FatalError>::Ok(StartupPlan {
                mode: match cfg.app_id {
                    Some(id) => Mode::AppClient(id),
                    None => Mode::LightClient,
                },
                historical_sync: cfg.sync_start_block is Some,
                finality_sync: cfg.sync_finality_enable,
                target_ppm: cfg.confidence_target_ppm,
            })
            &&& final(state).finality_synced == (old(state).finality_synced
                || !cfg.sync_finality_enable)
            &&& final(state).synced == (if cfg.sync_start_block is Some {
                Some(false)
            } else {
                old(state).synced
            })
            &&& *final(state) == (State {
                finality_synced: final(state).finality_synced,
                synced: final(state).synced,
                ..*old(state)
            })
        },
{
    let plan = match validate_startup(cfg) {
        Ok(plan) => plan,
        Err(e) => {
            return Err(e);
        },
    };
    match check_node_compatibility(node_version, node_spec_name) {
        Ok(()) => {},
        Err(e) => {
            return Err(e);
        },
    }
    match check_genesis_hash(db, node_genesis) {
        Ok(_) => {},
        Err(e) => {
            return Err(e);
        },
    }
    apply_finality_mode(cfg, state);
    if plan.historical_sync {
        // the backfill is planned: started, not complete
        state.synced = Some(false);
    }
    Ok(plan)
}

/// Picks the node to connect to from the configured endpoints: for each,
/// the connection layer reports whether it responded and passed the
/// version gate, and the first such endpoint wins.  Only when every
/// endpoint is exhausted does startup signal the fatal failure.
pub fn select_connected_node(outcomes: &Vec<bool>) -> (r: Result<usize, FatalError>)
    ensures
        match r {
            Ok(i) => i < outcomes@.len() && outcomes@[i as int] && (forall|j: int|
                0 <= j < i ==> !outcomes@[j]),
            Err(e) => e == FatalError::NoCompatibleNode && (forall|j: int|
                0 <= j < outcomes@.len() ==> !outcomes@[j]),
        },
{
    let mut i: usize = 0;
    while i < outcomes.len()
        invariant
            i <= outcomes@.len(),
            forall|j: int| 0 <= j < i ==> !outcomes@[j],
        decreases outcomes@.len() - i,
    {
        if outcomes[i] {
            return Ok(i);
        }
        i = i + 1;
    }
    Err(FatalError::NoCompatibleNode)
}

/// Applies the configured trust model to the shared state: with finality
/// sync disabled the trust flag is forced true at startup — every block
/// before and after is implicitly considered final, a documented trust
/// downgrade, not a silent bug.
pub fn apply_finality_mode(cfg: &RuntimeConfig, state: &mut State)
    ensures
        final(state).finality_synced == (old(state).finality_synced || !cfg.sync_finality_enable),
        *final(state) == (State { finality_synced: final(state).finality_synced, ..*old(state) }),
{
    if !cfg.sync_finality_enable {
        state.finality_synced = true;
    }
}

} // verus!
