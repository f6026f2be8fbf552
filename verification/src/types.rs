//! Core data model: headers, cells, confidence records, checkpoints,
//! published events, runtime configuration and the shared control state.

use vstd::prelude::*;

verus! {

/// Length in bytes of a block hash.
pub const HASH_SIZE: usize = 32;

/// Length in bytes of a cell's data chunk.
pub const CELL_DATA_SIZE: usize = 32;

/// Length in bytes of a cell's commitment proof blob.
pub const PROOF_SIZE: usize = 48;

/// Length in bytes of a row commitment.
pub const COMMITMENT_SIZE: usize = 48;

/// Size of the erasure-coded data matrix: `rows` extended rows of `cols`
/// cells each.  The code extends the data by a factor of two, so any half of
/// a row suffices to reconstruct it.
#[derive(Clone, Copy, Debug, PartialEq, Eq, Structural)]
pub struct Dimensions {
    pub rows: u16,
    pub cols: u16,
}

impl Dimensions {
    /// A matrix always has at least one row and one column.
    pub open spec fn wf(self) -> bool {
        self.rows >= 1 && self.cols >= 1
    }

    pub open spec fn total_cells_spec(self) -> nat {
        (self.rows * self.cols) as nat
    }

    /// How many cells the whole matrix holds.
    pub fn total_cells(&self) -> (r: u64)
        ensures
            r == self.total_cells_spec(),
            r <= 0xfffe0001,
            self.wf() ==> r >= 1,
    {
        proof {
            assert(self.rows as int * self.cols as int <= 0xffff * 0xffff && (self.rows >= 1
                && self.cols >= 1 ==> self.rows as int * self.cols as int >= 1))
                by (nonlinear_arith)
                requires
                    self.rows <= 0xffff,
                    self.cols <= 0xffff,
            ;
        }
        (self.rows as u64) * (self.cols as u64)
    }
}

/// A cell coordinate inside one block's matrix.
#[derive(Clone, Copy, Debug, PartialEq, Eq, Structural)]
pub struct Position {
    pub row: u16,
    pub col: u16,
}

impl Position {
    pub open spec fn in_bounds(self, dims: Dimensions) -> bool {
        self.row < dims.rows && self.col < dims.cols
    }
}

/// One weighted member of the authority set whose signatures finalize
/// headers.
#[derive(Clone, Debug, PartialEq, Eq)]
pub struct Authority {
    pub public_key: Vec<u8>,
    pub weight: u64,
}

impl Authority {
    pub open spec fn wf(self) -> bool {
        self.public_key@.len() == HASH_SIZE && self.weight >= 1
    }
}

/// Sum of the weights of a sequence of authorities.
pub open spec fn total_weight(s: Seq<Authority>) -> int
    decreases s.len(),
{
    if s.len() == 0 {
        0
    } else {
        total_weight(s.drop_last()) + s.last().weight
    }
}

/// A header as the light client reads it: its chain position, the shape of
/// its erasure-coded matrix with one commitment per row, and the consensus
/// digest that may schedule the next authority set.
#[derive(Clone, Debug, PartialEq, Eq)]
pub struct BlockHeader {
    pub number: u32,
    pub hash: Vec<u8>,
    pub parent_hash: Vec<u8>,
    pub dimensions: Dimensions,
    pub commitments: Vec<Vec<u8>>,
    /// `Some` when the consensus digest schedules a new authority set that
    /// takes effect with this block's finalization.
    pub next_authorities: Option<Vec<Authority>>,
    /// Which extended rows carry each application's data.
    pub app_rows: Vec<AppRowRange>,
}

/// The rows of one application's data inside a block's matrix: the rows from
/// `first_row` to `last_row`, both included.
#[derive(Clone, Copy, Debug, PartialEq, Eq, Structural)]
pub struct AppRowRange {
    pub app_id: u32,
    pub first_row: u16,
    pub last_row: u16,
}

impl AppRowRange {
    pub open spec fn wf(self, dims: Dimensions) -> bool {
        self.first_row <= self.last_row < dims.rows
    }
}

impl BlockHeader {
    pub open spec fn wf(self) -> bool {
        &&& self.hash@.len() == HASH_SIZE
        &&& self.parent_hash@.len() == HASH_SIZE
        &&& self.dimensions.wf()
        &&& self.commitments@.len() == self.dimensions.rows
        &&& forall|i: int|
            0 <= i < self.commitments@.len() ==> (#[trigger] self.commitments@[i])@.len()
                == COMMITMENT_SIZE
        &&& forall|i: int|
            0 <= i < self.app_rows@.len() ==> (#[trigger] self.app_rows@[i]).wf(self.dimensions)
        &&& match self.next_authorities {
            Some(auths) => wf_authority_set(auths@),
            None => true,
        }
    }
}

/// A sound authority set: well-formed members whose total weight stays small
/// enough that the quorum arithmetic cannot overflow.
pub open spec fn wf_authority_set(s: Seq<Authority>) -> bool {
    &&& s.len() >= 1
    &&& forall|i: int| 0 <= i < s.len() ==> (#[trigger] s[i]).wf()
    &&& total_weight(s) <= 0x5555_5555_5555_5555
}

/// One erasure-coded unit of a block's data matrix, with the proof blob that
/// commits it to its row's commitment.  Immutable once fetched.
#[derive(Clone, Debug, PartialEq, Eq)]
pub struct Cell {
    pub block: u32,
    pub position: Position,
    pub data: Vec<u8>,
    pub proof: Vec<u8>,
}

impl Cell {
    pub open spec fn wf(self) -> bool {
        self.data@.len() == CELL_DATA_SIZE && self.proof@.len() == PROOF_SIZE
    }
}

/// What one block's sampling round established: how many cells were
/// sampled and how many of them verified against their commitments.
#[derive(Clone, Copy, Debug, PartialEq, Eq, Structural)]
pub struct ConfidenceRecord {
    pub block_number: u32,
    pub sampled: u32,
    pub verified: u32,
}

impl ConfidenceRecord {
    /// A record never counts more verified cells than it sampled.
    pub open spec fn wf(self) -> bool {
        self.verified <= self.sampled
    }
}

/// The trusted point of the finality chain: the authority set in force, its
/// id, and the last block known finalized under it.  Advances monotonically
/// and is persisted so restarts do not re-verify from genesis.
#[derive(Clone, Debug, PartialEq, Eq)]
pub struct FinalitySyncCheckpoint {
    pub set_id: u64,
    pub block_number: u32,
    pub authorities: Vec<Authority>,
}

impl FinalitySyncCheckpoint {
    pub open spec fn wf(self) -> bool {
        wf_authority_set(self.authorities@)
    }
}

/// One vote of a justification: which authority voted, and whether its
/// signature checked out against that authority's public key.  The signature
/// check itself happens outside the library; the vote carries its outcome.
#[derive(Clone, Copy, Debug, PartialEq, Eq, Structural)]
pub struct Vote {
    pub authority_index: usize,
    pub signature_valid: bool,
}

/// A quorum-signed attestation that a block cannot be reverted, expressed
/// against a given authority set id.
#[derive(Clone, Debug, PartialEq, Eq)]
pub struct Justification {
    pub block_number: u32,
    pub set_id: u64,
    pub votes: Vec<Vote>,
}

/// The only externally observable event shape: fan-out target for
/// persistence, live subscribers and callback bridges.
#[derive(Clone, Debug, PartialEq, Eq)]
pub enum PublishMessage {
    HeaderVerified { block_number: u32, hash: Vec<u8> },
    ConfidenceAchieved { block_number: u32, confidence_ppm: u64 },
    DataVerified { app_id: u32, block_number: u32, size: u64 },
}

/// The three event streams a subscriber can attach to.
#[derive(Clone, Copy, Debug, PartialEq, Eq, Structural)]
pub enum Topic {
    HeaderVerified,
    ConfidenceAchieved,
    DataVerified,
}

/// Whether the client runs plain availability sampling or also reconstructs
/// one application's data.
#[derive(Clone, Copy, Debug, PartialEq, Eq, Structural)]
pub enum Mode {
    LightClient,
    AppClient(u32),
}

impl Mode {
    /// Resolves the mode once at startup from the configured application id.
    pub fn from_app_id(app_id: Option<u32>) -> (r: Mode)
        ensures
            r == match app_id {
                Some(id) => Mode::AppClient(id),
                None => Mode::LightClient,
            },
    {
        match app_id {
            Some(id) => Mode::AppClient(id),
            None => Mode::LightClient,
        }
    }
}

/// Verbosity levels recognized by the log-level option.
#[derive(Clone, Copy, Debug, PartialEq, Eq, Structural)]
pub enum LogLevel {
    Trace,
    Debug,
    Info,
    Warn,
    Error,
}

/// Witness that a log-level string was not recognized.
#[derive(Clone, Copy, Debug, PartialEq, Eq, Structural)]
pub struct ParseLevelError {}

/// The shared control record.  Each field has exactly one writer engine:
/// `latest` tracks the newest finalized header seen, `synced` the historical
/// backfill cursor, `finality_synced` whether the trust chain has caught up.
#[derive(Clone, Copy, Debug, PartialEq, Eq, Structural)]
pub struct State {
    pub latest: u32,
    pub synced: Option<bool>,
    pub sync_cursor: Option<u32>,
    pub finality_synced: bool,
}

impl Default for State {
    /// A fresh state: nothing seen, nothing synced, trust not established.
    fn default() -> (r: Self)
        ensures
            r.latest == 0,
            r.synced is None,
            r.sync_cursor is None,
            !r.finality_synced,
    {
        State { latest: 0, synced: None, sync_cursor: None, finality_synced: false }
    }
}

/// The options the library recognizes, resolved before startup.  The
/// confidence target is in parts per million of certainty.
#[derive(Clone, Debug, PartialEq, Eq)]
pub struct RuntimeConfig {
    pub log_level: String,
    pub log_format_json: bool,
    pub avail_path: String,
    pub full_node_ws: Vec<String>,
    pub app_id: Option<u32>,
    pub confidence_target_ppm: u64,
    pub bootstraps: Vec<String>,
    pub sync_start_block: Option<u32>,
    pub sync_finality_enable: bool,
    pub dht_parallelization_limit: u32,
}

impl RuntimeConfig {
    pub open spec fn wf(self) -> bool {
        self.confidence_target_ppm <= 1_000_000
    }
}

/// Conditions that invalidate the whole process: reported once through the
/// fatal error channel, never recovered from.
#[derive(Clone, Copy, Debug, PartialEq, Eq, Structural)]
pub enum FatalError {
    /// The bootstrap peer list was empty at startup.
    BootstrapListEmpty,
    /// The connected node's genesis hash differs from the stored one.
    GenesisHashMismatch,
    /// No configured node endpoint was reachable and version-compatible.
    NoCompatibleNode,
    /// The finality trust chain could not be bootstrapped or extended.
    FinalityTrustFailure,
}

/// Why a justification was rejected while extending the finality chain.
#[derive(Clone, Copy, Debug, PartialEq, Eq, Structural)]
pub enum FinalityError {
    /// The valid signatures do not reach the two-thirds quorum.
    QuorumNotMet,
    /// The justification speaks of another authority set than the trusted one.
    WrongSetId,
    /// The justified block lies behind the checkpoint already trusted.
    StaleBlock,
    /// A vote names an authority index outside the trusted set.
    UnknownAuthority,
}

/// The shapes a pull-query answer can take.
#[derive(Clone, Debug, PartialEq, Eq)]
pub enum ClientResponse<T> {
    Normal(T),
    NotFound,
    NotFinalized,
    InProcess,
    Error(String),
}

/// Compares two byte vectors for equality, element by element.
pub fn bytes_equal(a: &Vec<u8>, b: &Vec<u8>) -> (r: bool)
    ensures
        r <==> a@ == b@,
{
    if a.len() != b.len() {
        proof {
            assert(a@.len() != b@.len());
        }
        return false;
    }
    let mut i: usize = 0;
    while i < a.len()
        invariant
            i <= a.len(),
            a@.len() == b@.len(),
            forall|j: int| 0 <= j < i ==> a@[j] == b@[j],
        decreases a.len() - i,
    {
        if a[i] != b[i] {
            return false;
        }
        i = i + 1;
    }
    proof {
        assert(a@ =~= b@);
    }
    true
}

} // verus!
