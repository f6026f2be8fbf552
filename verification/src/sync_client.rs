//! The historical backfill engine.
//!
//! At startup the client computes a closed block range — from the
//! configured start block, or genesis when none is set, up to the latest
//! finalized header — and walks it in ascending order, applying the same
//! per-block sampling procedure as the live loop.  Blocks whose record
//! already exists are passed over, so an interrupted run resumes where the
//! store says it left off; the shared cursor advances after every completed
//! block.

use vstd::prelude::*;

use crate::confidence::PPM_SCALE;
use crate::light_client::process_block;
use crate::light_client::round_message;
use crate::light_client::round_record;
use crate::store::Store;
use crate::types::BlockHeader;
use crate::types::Position;
use crate::types::PublishMessage;
use crate::types::RuntimeConfig;
use crate::types::State;

verus! {

/// The closed block range the backfill covers: the configured start block —
/// genesis when none is configured — up to the latest finalized header.
pub fn sync_range(cfg: &RuntimeConfig, latest: u32) -> (r: (u32, u32))
    ensures
        r.0 == match cfg.sync_start_block {
            Some(s) => s,
            None => 0u32,
        },
        r.1 == latest,
{
    let first = match cfg.sync_start_block {
        Some(s) => s,
        None => 0,
    };
    (first, latest)
}

/// One step of the backfill: apply the per-block procedure to the next
/// block of the range — a no-op when its record already exists — then
/// advance the cursor to it, and mark the state synced once the range's
/// last block is done.  A block whose fetches failed simply verifies fewer
/// cells; the range marches on regardless.
pub fn sync_block_step(
    db: &mut Store,
    state: &mut State,
    header: BlockHeader,
    positions: &Vec<Position>,
    verified: &Vec<bool>,
    target_ppm: u64,
    last_in_range: u32,
) -> (r: Option<PublishMessage>)
    requires
        old(db).wf(),
        header.wf(),
        verified@.len() == positions@.len(),
        positions@.len() <= u32::MAX,
        target_ppm <= PPM_SCALE,
        match old(state).sync_cursor {
            Some(c) => header.number >= c,
            None => true,
        },
    ensures
        final(db).wf(),
        final(state).sync_cursor == Some(header.number),
        final(state).synced == Some(header.number >= last_in_range),
        *final(state) == (State {
            sync_cursor: final(state).sync_cursor,
            synced: final(state).synced,
            ..*old(state)
        }),
        match old(state).sync_cursor {
            Some(c) => c <= header.number,
            None => true,
        },
        old(db).confidence_map().dom().contains(header.number as u64) ==> *final(db) == *old(db)
            && r is None,
        !old(db).confidence_map().dom().contains(header.number as u64) ==> r == Some(
            round_message(header, verified@),
        ) && final(db).confidence_map() =~= old(db).confidence_map().insert(
            header.number as u64,
            round_record(header, verified@),
        ),
{
    let block_number = header.number;
    let r = process_block(db, header, positions, verified, target_ppm);
    state.sync_cursor = Some(block_number);
    state.synced = Some(block_number >= last_in_range);
    r
}

} // verus!
