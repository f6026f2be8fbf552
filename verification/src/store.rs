//! The persistent store's logical content and its rules.
//!
//! The store keeps named partitions — headers, confidence records,
//! application data, sync checkpoint, latest block, block lists and
//! published-event logs — keyed by block number or by (application, block).
//! The structural invariant of the data model lives here: a confidence
//! record or an application-data entry exists only for a block whose header
//! is stored, and the persisted checkpoint never moves backwards.  Writing
//! the content to disk and reading it back is the surrounding process's
//! business, not the library's.

use vstd::pervasive::VecAdditionalExecFns;
use vstd::prelude::*;

use crate::assoc::assoc_index;
use crate::assoc::lemma_map_of_contains;
use crate::assoc::lemma_map_of_index;
use crate::assoc::lemma_map_of_push;
use crate::assoc::lemma_map_of_update;
use crate::assoc::map_of;
use crate::assoc::unique_keys;
use crate::types::BlockHeader;
use crate::types::ConfidenceRecord;
use crate::types::FinalitySyncCheckpoint;
use crate::types::PublishMessage;
use crate::types::Topic;
use crate::types::HASH_SIZE;

verus! {

/// One application's decoded payload for one block.
#[derive(Clone, Debug, PartialEq, Eq)]
pub struct AppDataEntry {
    pub app_id: u32,
    pub block_number: u32,
    pub data: Vec<u8>,
}

/// The partition key for one application's data in one block.
pub open spec fn app_block_key(app_id: u32, block_number: u32) -> int {
    app_id * 0x1_0000_0000 + block_number
}

/// Computes the application-data partition key.
pub fn make_app_block_key(app_id: u32, block_number: u32) -> (r: u64)
    ensures
        r == app_block_key(app_id, block_number),
{
    (app_id as u64) * 0x1_0000_0000 + (block_number as u64)
}

/// The store's logical content.  Every partition with per-block entries is
/// an entry list with pairwise distinct keys; contracts read them through
/// their map views.
pub struct Store {
    pub headers: Vec<(u64, BlockHeader)>,
    pub confidence: Vec<(u64, ConfidenceRecord)>,
    pub app_data: Vec<(u64, AppDataEntry)>,
    pub genesis_hash: Option<Vec<u8>>,
    pub checkpoint: Option<FinalitySyncCheckpoint>,
    pub latest_block: Option<u32>,
    pub confidence_achieved_blocks: Option<u32>,
    pub blocks_list: Vec<u32>,
    pub header_verified_messages: Vec<PublishMessage>,
    pub confidence_achieved_messages: Vec<PublishMessage>,
    pub data_verified_messages: Vec<PublishMessage>,
}

impl Store {
    /// The headers partition as a map from block number to header.
    pub open spec fn header_map(self) -> Map<u64, BlockHeader> {
        map_of(self.headers@)
    }

    /// The confidence partition as a map from block number to record.
    pub open spec fn confidence_map(self) -> Map<u64, ConfidenceRecord> {
        map_of(self.confidence@)
    }

    /// The application-data partition as a map from combined key to entry.
    pub open spec fn app_data_map(self) -> Map<u64, AppDataEntry> {
        map_of(self.app_data@)
    }

    pub open spec fn has_header(self, block_number: u32) -> bool {
        exists|i: int|
            0 <= i < self.headers@.len() && (#[trigger] self.headers@[i]).0 == block_number as u64
    }

    /// The store's structural invariant: distinct keys per partition, each
    /// entry keyed by its own block number and well formed, no confidence
    /// record or application data without its block header, and a
    /// well-formed checkpoint and genesis hash.
    pub open spec fn wf(self) -> bool {
        &&& unique_keys(self.headers@)
        &&& unique_keys(self.confidence@)
        &&& unique_keys(self.app_data@)
        &&& forall|i: int|
            0 <= i < self.headers@.len() ==> {
                let e = #[trigger] self.headers@[i];
                e.1.number as u64 == e.0 && e.1.wf()
            }
        &&& forall|i: int|
            0 <= i < self.confidence@.len() ==> {
                let e = #[trigger] self.confidence@[i];
                e.1.block_number as u64 == e.0 && e.1.wf() && self.has_header(e.1.block_number)
            }
        &&& forall|i: int|
            0 <= i < self.app_data@.len() ==> {
                let e = #[trigger] self.app_data@[i];
                e.0 == app_block_key(e.1.app_id, e.1.block_number) && self.has_header(
                    e.1.block_number,
                )
            }
        &&& match self.genesis_hash {
            Some(h) => h@.len() == HASH_SIZE,
            None => true,
        }
        &&& match self.checkpoint {
            Some(c) => c.wf(),
            None => true,
        }
    }

    /// An empty store: nothing recorded yet.
    pub fn new() -> (r: Store)
        ensures
            r.wf(),
            r.header_map() =~= Map::empty(),
            r.confidence_map() =~= Map::empty(),
            r.app_data_map() =~= Map::empty(),
            r.genesis_hash is None,
            r.checkpoint is None,
            r.latest_block is None,
            r.confidence_achieved_blocks is None,
            r.blocks_list@ =~= Seq::<u32>::empty(),
            r.header_verified_messages@ =~= Seq::<PublishMessage>::empty(),
            r.confidence_achieved_messages@ =~= Seq::<PublishMessage>::empty(),
            r.data_verified_messages@ =~= Seq::<PublishMessage>::empty(),
    {
        Store {
            headers: Vec::new(),
            confidence: Vec::new(),
            app_data: Vec::new(),
            genesis_hash: None,
            checkpoint: None,
            latest_block: None,
            confidence_achieved_blocks: None,
            blocks_list: Vec::new(),
            header_verified_messages: Vec::new(),
            confidence_achieved_messages: Vec::new(),
            data_verified_messages: Vec::new(),
        }
    }
}

/// The read-only view engines and query layers share: confidence, headers
/// and application data by block.
pub trait Database {
    spec fn inv(&self) -> bool;

    spec fn confidence_view(&self) -> Map<u64, ConfidenceRecord>;

    spec fn header_view(&self) -> Map<u64, BlockHeader>;

    spec fn app_data_view(&self) -> Map<u64, AppDataEntry>;

    /// Reads the verified-cell count recorded for a block, if any.
    fn get_confidence(&self, block_number: u32) -> (r: Option<u32>)
        requires
            self.inv(),
        ensures
            match r {
                Some(count) => self.confidence_view().dom().contains(block_number as u64) && count
                    == self.confidence_view()[block_number as u64].verified,
                None => !self.confidence_view().dom().contains(block_number as u64),
            },
    ;

    /// Reads the header stored for a block, if any.
    fn get_header(&self, block_number: u32) -> (r: Option<&BlockHeader>)
        requires
            self.inv(),
        ensures
            match r {
                Some(h) => self.header_view().dom().contains(block_number as u64) && *h
                    == self.header_view()[block_number as u64],
                None => !self.header_view().dom().contains(block_number as u64),
            },
    ;

    /// Reads one application's payload for one block, if stored.
    fn get_data(&self, app_id: u32, block_number: u32) -> (r: Option<&Vec<u8>>)
        requires
            self.inv(),
        ensures
            match r {
                Some(d) => self.app_data_view().dom().contains(
                    app_block_key(app_id, block_number) as u64,
                ) && d@ == self.app_data_view()[app_block_key(app_id, block_number) as u64].data@,
                None => !self.app_data_view().dom().contains(
                    app_block_key(app_id, block_number) as u64,
                ),
            },
    ;
}

impl Database for Store {
    open spec fn inv(&self) -> bool {
        self.wf()
    }

    open spec fn confidence_view(&self) -> Map<u64, ConfidenceRecord> {
        self.confidence_map()
    }

    open spec fn header_view(&self) -> Map<u64, BlockHeader> {
        self.header_map()
    }

    open spec fn app_data_view(&self) -> Map<u64, AppDataEntry> {
        self.app_data_map()
    }

    fn get_confidence(&self, block_number: u32) -> (r: Option<u32>) {
        get_confidence_from_db(self, block_number)
    }

    fn get_header(&self, block_number: u32) -> (r: Option<&BlockHeader>) {
        get_block_header_from_db(self, block_number)
    }

    fn get_data(&self, app_id: u32, block_number: u32) -> (r: Option<&Vec<u8>>) {
        get_decoded_data_from_db(self, app_id, block_number)
    }
}

/// Everything outside the headers partition is untouched.
pub open spec fn same_but_headers(a: Store, b: Store) -> bool {
    &&& a.confidence == b.confidence
    &&& a.app_data == b.app_data
    &&& a.genesis_hash == b.genesis_hash
    &&& a.checkpoint == b.checkpoint
    &&& a.latest_block == b.latest_block
    &&& a.confidence_achieved_blocks == b.confidence_achieved_blocks
    &&& a.blocks_list == b.blocks_list
    &&& a.header_verified_messages == b.header_verified_messages
    &&& a.confidence_achieved_messages == b.confidence_achieved_messages
    &&& a.data_verified_messages == b.data_verified_messages
}

/// Everything outside the confidence partition is untouched.
pub open spec fn same_but_confidence(a: Store, b: Store) -> bool {
    &&& a.headers == b.headers
    &&& a.app_data == b.app_data
    &&& a.genesis_hash == b.genesis_hash
    &&& a.checkpoint == b.checkpoint
    &&& a.latest_block == b.latest_block
    &&& a.confidence_achieved_blocks == b.confidence_achieved_blocks
    &&& a.blocks_list == b.blocks_list
    &&& a.header_verified_messages == b.header_verified_messages
    &&& a.confidence_achieved_messages == b.confidence_achieved_messages
    &&& a.data_verified_messages == b.data_verified_messages
}

/// Everything outside the application-data partition is untouched.
pub open spec fn same_but_app_data(a: Store, b: Store) -> bool {
    &&& a.headers == b.headers
    &&& a.confidence == b.confidence
    &&& a.genesis_hash == b.genesis_hash
    &&& a.checkpoint == b.checkpoint
    &&& a.latest_block == b.latest_block
    &&& a.confidence_achieved_blocks == b.confidence_achieved_blocks
    &&& a.blocks_list == b.blocks_list
    &&& a.header_verified_messages == b.header_verified_messages
    &&& a.confidence_achieved_messages == b.confidence_achieved_messages
    &&& a.data_verified_messages == b.data_verified_messages
}

/// Stores a block header under its block number, replacing any earlier copy.
pub fn store_block_header_in_db(db: &mut Store, block_number: u32, header: BlockHeader)
    requires
        old(db).wf(),
        header.wf(),
        header.number == block_number,
    ensures
        final(db).wf(),
        final(db).header_map() =~= old(db).header_map().insert(block_number as u64, header),
        same_but_headers(*final(db), *old(db)),
        final(db).has_header(block_number),
        forall|n: u32| old(db).has_header(n) ==> final(db).has_header(n),
{
    let ghost s = db.headers@;
    let k: u64 = block_number as u64;
    match assoc_index(&db.headers, k) {
        Some(i) => {
            proof {
                lemma_map_of_update(s, i as int, header);
            }
            db.headers.set(i, (k, header));
            proof {
                assert forall|n: u32| old(db).has_header(n) implies db.has_header(n) by {
                    let j = choose|j: int|
                        0 <= j < old(db).headers@.len() && (#[trigger] old(db).headers@[j]).0
                            == n as u64;
                    assert(db.headers@[j].0 == n as u64);
                }
                assert(forall|j: int|
                    0 <= j < db.confidence@.len() ==> old(db).has_header(
                        (#[trigger] db.confidence@[j]).1.block_number,
                    ));
                assert(forall|j: int|
                    0 <= j < db.app_data@.len() ==> old(db).has_header(
                        (#[trigger] db.app_data@[j]).1.block_number,
                    ));
            }
        },
        None => {
            proof {
                lemma_map_of_push(s, k, header);
            }
            db.headers.push((k, header));
            proof {
                assert forall|n: u32| old(db).has_header(n) implies db.has_header(n) by {
                    let j = choose|j: int|
                        0 <= j < old(db).headers@.len() && (#[trigger] old(db).headers@[j]).0
                            == n as u64;
                    assert(db.headers@[j].0 == n as u64);
                }
                assert(db.headers@[db.headers@.len() - 1].0 == k);
                assert(forall|j: int|
                    0 <= j < db.confidence@.len() ==> old(db).has_header(
                        (#[trigger] db.confidence@[j]).1.block_number,
                    ));
                assert(forall|j: int|
                    0 <= j < db.app_data@.len() ==> old(db).has_header(
                        (#[trigger] db.app_data@[j]).1.block_number,
                    ));
            }
        },
    }
}

/// Reads the block header stored for a block number.
pub fn get_block_header_from_db(db: &Store, block_number: u32) -> (r: Option<&BlockHeader>)
    requires
        db.wf(),
    ensures
        match r {
            Some(h) => db.header_map().dom().contains(block_number as u64) && *h
                == db.header_map()[block_number as u64] && h.wf() && h.number == block_number,
            None => !db.header_map().dom().contains(block_number as u64),
        },
{
    proof {
        lemma_map_of_contains(db.headers@, block_number as u64);
    }
    match assoc_index(&db.headers, block_number as u64) {
        Some(i) => {
            proof {
                lemma_map_of_index(db.headers@, i as int);
            }
            Some(&db.headers[i].1)
        },
        None => None,
    }
}

/// Tells whether a block header for the given block number is stored.
pub fn is_block_header_in_db(db: &Store, block_number: u32) -> (r: bool)
    requires
        db.wf(),
    ensures
        r <==> db.header_map().dom().contains(block_number as u64),
{
    proof {
        lemma_map_of_contains(db.headers@, block_number as u64);
    }
    match assoc_index(&db.headers, block_number as u64) {
        Some(_) => true,
        None => false,
    }
}

/// Records one block's sampling outcome, replacing any earlier record; the
/// block's header must already be stored.
pub fn store_confidence_in_db(db: &mut Store, block_number: u32, record: ConfidenceRecord)
    requires
        old(db).wf(),
        record.wf(),
        record.block_number == block_number,
        old(db).header_map().dom().contains(block_number as u64),
    ensures
        final(db).wf(),
        final(db).confidence_map() =~= old(db).confidence_map().insert(block_number as u64, record),
        same_but_confidence(*final(db), *old(db)),
{
    proof {
        lemma_map_of_contains(db.headers@, block_number as u64);
    }
    let ghost s = db.confidence@;
    let k: u64 = block_number as u64;
    match assoc_index(&db.confidence, k) {
        Some(i) => {
            proof {
                lemma_map_of_update(s, i as int, record);
            }
            db.confidence.set(i, (k, record));
        },
        None => {
            proof {
                lemma_map_of_push(s, k, record);
            }
            db.confidence.push((k, record));
        },
    }
}

/// Reads one block's full sampling record.
pub fn get_confidence_record_from_db(db: &Store, block_number: u32) -> (r: Option<
    ConfidenceRecord,
>)
    requires
        db.wf(),
    ensures
        match r {
            Some(rec) => db.confidence_map().dom().contains(block_number as u64) && rec
                == db.confidence_map()[block_number as u64] && rec.wf() && rec.block_number
                == block_number,
            None => !db.confidence_map().dom().contains(block_number as u64),
        },
{
    proof {
        lemma_map_of_contains(db.confidence@, block_number as u64);
    }
    match assoc_index(&db.confidence, block_number as u64) {
        Some(i) => {
            proof {
                lemma_map_of_index(db.confidence@, i as int);
            }
            Some(db.confidence[i].1)
        },
        None => None,
    }
}

/// Reads the verified-cell count recorded for a block, if any.
pub fn get_confidence_from_db(db: &Store, block_number: u32) -> (r: Option<u32>)
    requires
        db.wf(),
    ensures
        match r {
            Some(count) => db.confidence_map().dom().contains(block_number as u64) && count
                == db.confidence_map()[block_number as u64].verified,
            None => !db.confidence_map().dom().contains(block_number as u64),
        },
{
    match get_confidence_record_from_db(db, block_number) {
        Some(rec) => Some(rec.verified),
        None => None,
    }
}

/// Stores one application's payload for one block, replacing any earlier
/// copy; the block's header must already be stored.
pub fn store_encoded_data_in_db(db: &mut Store, app_id: u32, block_number: u32, data: Vec<u8>)
    requires
        old(db).wf(),
        old(db).header_map().dom().contains(block_number as u64),
    ensures
        final(db).wf(),
        final(db).app_data_map() =~= old(db).app_data_map().insert(
            app_block_key(app_id, block_number) as u64,
            AppDataEntry { app_id, block_number, data },
        ),
        same_but_app_data(*final(db), *old(db)),
{
    proof {
        lemma_map_of_contains(db.headers@, block_number as u64);
    }
    let ghost s = db.app_data@;
    let k: u64 = make_app_block_key(app_id, block_number);
    let entry = AppDataEntry { app_id, block_number, data };
    match assoc_index(&db.app_data, k) {
        Some(i) => {
            proof {
                lemma_map_of_update(s, i as int, entry);
            }
            db.app_data.set(i, (k, entry));
        },
        None => {
            proof {
                lemma_map_of_push(s, k, entry);
            }
            db.app_data.push((k, entry));
        },
    }
}

/// Reads one application's payload for one block, if stored.
pub fn get_decoded_data_from_db(db: &Store, app_id: u32, block_number: u32) -> (r: Option<
    &Vec<u8>,
>)
    requires
        db.wf(),
    ensures
        match r {
            Some(d) => db.app_data_map().dom().contains(app_block_key(app_id, block_number) as u64)
                && d@ == db.app_data_map()[app_block_key(app_id, block_number) as u64].data@,
            None => !db.app_data_map().dom().contains(app_block_key(app_id, block_number) as u64),
        },
{
    proof {
        lemma_map_of_contains(db.app_data@, app_block_key(app_id, block_number) as u64);
    }
    let k: u64 = make_app_block_key(app_id, block_number);
    match assoc_index(&db.app_data, k) {
        Some(i) => {
            proof {
                lemma_map_of_index(db.app_data@, i as int);
            }
            Some(&db.app_data[i].1.data)
        },
        None => None,
    }
}

/// Reads the stored genesis hash, if any.
pub fn get_genesis_hash(db: &Store) -> (r: Option<&Vec<u8>>)
    requires
        db.wf(),
    ensures
        match r {
            Some(h) => (db.genesis_hash matches Some(g) && h@ == g@ && h@.len() == HASH_SIZE),
            None => db.genesis_hash is None,
        },
{
    match &db.genesis_hash {
        Some(h) => Some(h),
        None => None,
    }
}

/// Stores the genesis hash of the chain this store belongs to.
pub fn store_genesis_hash(db: &mut Store, genesis_hash: Vec<u8>)
    requires
        old(db).wf(),
        genesis_hash@.len() == HASH_SIZE,
    ensures
        final(db).wf(),
        (final(db).genesis_hash matches Some(g) && g@ == genesis_hash@),
        *final(db) == (Store { genesis_hash: final(db).genesis_hash, ..*old(db) }),
{
    db.genesis_hash = Some(genesis_hash);
}

/// Reads the persisted finality checkpoint, if any.
pub fn get_finality_sync_checkpoint(db: &Store) -> (r: Option<&FinalitySyncCheckpoint>)
    requires
        db.wf(),
    ensures
        match r {
            Some(c) => (db.checkpoint matches Some(s) && *c == s && c.wf()),
            None => db.checkpoint is None,
        },
{
    match &db.checkpoint {
        Some(c) => Some(c),
        None => None,
    }
}

/// Persists the finality checkpoint.  The checkpoint never moves backwards:
/// a store holding one accepts only replacements at the same block or ahead.
pub fn store_finality_sync_checkpoint(db: &mut Store, checkpoint: FinalitySyncCheckpoint)
    requires
        old(db).wf(),
        checkpoint.wf(),
        match old(db).checkpoint {
            Some(c) => checkpoint.block_number >= c.block_number,
            None => true,
        },
    ensures
        final(db).wf(),
        (final(db).checkpoint matches Some(c) && c == checkpoint),
        *final(db) == (Store { checkpoint: final(db).checkpoint, ..*old(db) }),
{
    db.checkpoint = Some(checkpoint);
}

/// Records the newest block number the client has seen.
pub fn store_latest_block_in_db(db: &mut Store, block_number: u32)
    requires
        old(db).wf(),
    ensures
        final(db).wf(),
        final(db).latest_block == Some(block_number),
        *final(db) == (Store { latest_block: final(db).latest_block, ..*old(db) }),
{
    db.latest_block = Some(block_number);
}

/// Reads the newest block number recorded, if any.
pub fn get_latest_block(db: &Store) -> (r: Option<u32>)
    requires
        db.wf(),
    ensures
        r == db.latest_block,
{
    db.latest_block
}

/// Records the newest block whose confidence target was achieved.
pub fn store_confidence_achieved_blocks_in_db(db: &mut Store, block_number: u32)
    requires
        old(db).wf(),
    ensures
        final(db).wf(),
        final(db).confidence_achieved_blocks == Some(block_number),
        *final(db) == (Store {
            confidence_achieved_blocks: final(db).confidence_achieved_blocks,
            ..*old(db)
        }),
{
    db.confidence_achieved_blocks = Some(block_number);
}

/// Reads the newest block whose confidence target was achieved, if any.
pub fn get_confidence_achieved_blocks(db: &Store) -> (r: Option<u32>)
    requires
        db.wf(),
    ensures
        r == db.confidence_achieved_blocks,
{
    db.confidence_achieved_blocks
}

/// Appends a block number to the processed-blocks list.
pub fn store_blocks_list_in_db(db: &mut Store, block_number: u32)
    requires
        old(db).wf(),
    ensures
        final(db).wf(),
        final(db).blocks_list@ =~= old(db).blocks_list@.push(block_number),
        *final(db) == (Store { blocks_list: final(db).blocks_list, ..*old(db) }),
{
    db.blocks_list.push(block_number);
}

/// Reads the entry of the processed-blocks list at the given index, if the
/// list reaches it.
pub fn get_blocks_list(db: &Store, index: u32) -> (r: Option<u32>)
    requires
        db.wf(),
    ensures
        match r {
            Some(n) => index < db.blocks_list@.len() && n == db.blocks_list@[index as int],
            None => index >= db.blocks_list@.len(),
        },
{
    if (index as usize) < db.blocks_list.len() {
        Some(db.blocks_list[index as usize])
    } else {
        None
    }
}

/// Reads how many entries the processed-blocks list holds; a list never
/// written to reads back as absent.
pub fn get_blocks_list_length(db: &Store) -> (r: Option<u32>)
    requires
        db.wf(),
        db.blocks_list@.len() <= u32::MAX,
    ensures
        match r {
            Some(n) => n == db.blocks_list@.len() && n >= 1,
            None => db.blocks_list@.len() == 0,
        },
{
    if db.blocks_list.len() == 0 {
        None
    } else {
        Some(db.blocks_list.len() as u32)
    }
}

/// Appends a published event to the log of its topic, leaving the other
/// logs untouched.
pub fn store_publish_message_in_db(db: &mut Store, message: PublishMessage, topic: Topic)
    requires
        old(db).wf(),
    ensures
        final(db).wf(),
        topic is HeaderVerified ==> *final(db) == (Store {
            header_verified_messages: final(db).header_verified_messages,
            ..*old(db)
        }) && final(db).header_verified_messages@ =~= old(db).header_verified_messages@.push(
            message,
        ),
        topic is ConfidenceAchieved ==> *final(db) == (Store {
            confidence_achieved_messages: final(db).confidence_achieved_messages,
            ..*old(db)
        }) && final(db).confidence_achieved_messages@ =~= old(
            db,
        ).confidence_achieved_messages@.push(message),
        topic is DataVerified ==> *final(db) == (Store {
            data_verified_messages: final(db).data_verified_messages,
            ..*old(db)
        }) && final(db).data_verified_messages@ =~= old(db).data_verified_messages@.push(message),
{
    match topic {
        Topic::HeaderVerified => db.header_verified_messages.push(message),
        Topic::ConfidenceAchieved => db.confidence_achieved_messages.push(message),
        Topic::DataVerified => db.data_verified_messages.push(message),
    }
}

/// Appends to the confidence-achieved event log.
pub fn store_confidence_achieved_message_in_db(db: &mut Store, message: PublishMessage)
    requires
        old(db).wf(),
    ensures
        final(db).wf(),
        *final(db) == (Store {
            confidence_achieved_messages: final(db).confidence_achieved_messages,
            ..*old(db)
        }),
        final(db).confidence_achieved_messages@ =~= old(db).confidence_achieved_messages@.push(
            message,
        ),
{
    store_publish_message_in_db(db, message, Topic::ConfidenceAchieved)
}

/// Appends to the data-verified event log.
pub fn store_data_verified_message_in_db(db: &mut Store, message: PublishMessage)
    requires
        old(db).wf(),
    ensures
        final(db).wf(),
        *final(db) == (Store {
            data_verified_messages: final(db).data_verified_messages,
            ..*old(db)
        }),
        final(db).data_verified_messages@ =~= old(db).data_verified_messages@.push(message),
{
    store_publish_message_in_db(db, message, Topic::DataVerified)
}

/// Appends to the header-verified event log.
pub fn store_header_verified_message_in_db(db: &mut Store, message: PublishMessage)
    requires
        old(db).wf(),
    ensures
        final(db).wf(),
        *final(db) == (Store {
            header_verified_messages: final(db).header_verified_messages,
            ..*old(db)
        }),
        final(db).header_verified_messages@ =~= old(db).header_verified_messages@.push(message),
{
    store_publish_message_in_db(db, message, Topic::HeaderVerified)
}

/// Reads the published-event log of a topic.
pub fn get_publish_messages_from_db(db: &Store, topic: Topic) -> (r: &Vec<PublishMessage>)
    requires
        db.wf(),
    ensures
        topic is HeaderVerified ==> r@ == db.header_verified_messages@,
        topic is ConfidenceAchieved ==> r@ == db.confidence_achieved_messages@,
        topic is DataVerified ==> r@ == db.data_verified_messages@,
{
    match topic {
        Topic::HeaderVerified => &db.header_verified_messages,
        Topic::ConfidenceAchieved => &db.confidence_achieved_messages,
        Topic::DataVerified => &db.data_verified_messages,
    }
}

/// Tells whether a confidence record for the given block number is stored.
pub fn is_confidence_in_db(db: &Store, block_number: u32) -> (r: bool)
    requires
        db.wf(),
    ensures
        r <==> db.confidence_map().dom().contains(block_number as u64),
{
    proof {
        lemma_map_of_contains(db.confidence@, block_number as u64);
    }
    match assoc_index(&db.confidence, block_number as u64) {
        Some(_) => true,
        None => false,
    }
}

} // verus!
