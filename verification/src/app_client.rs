//! The per-application data client.
//!
//! When an application id is configured, each finalized block's rows for
//! that application are fetched cell by cell.  The code is systematic: the
//! first half of a row — rounded up — carries the data, the rest carries
//! redundancy, and any cells meeting the reconstruction threshold determine
//! the row.  A row whose systematic cells are all present is assembled
//! directly, and what it assembles to does not depend on the redundant
//! cells at all; a row meeting the threshold with systematic gaps is handed
//! to the polynomial decoder outside; a row below the threshold makes the
//! block's data unavailable — a normal, reportable outcome, never an
//! error.

use vstd::prelude::*;

use crate::store::store_data_verified_message_in_db;
use crate::store::store_encoded_data_in_db;
use crate::store::Store;
use crate::types::PublishMessage;

verus! {

/// One row's cells for the configured application, by column; a column
/// holds `None` when its cell could not be fetched or failed verification.
pub struct RowCells {
    pub row: u16,
    pub cells: Vec<Option<Vec<u8>>>,
}

/// The reconstruction threshold of a row of `cols` cells: half of them,
/// rounded up — the systematic half.
pub open spec fn row_threshold(cols: u16) -> int {
    (cols + 1) / 2
}

/// Computes the reconstruction threshold of a row.
pub fn reconstruction_threshold(cols: u16) -> (r: u16)
    ensures
        r == row_threshold(cols),
{
    (cols / 2) + (cols % 2)
}

/// How many cells of the row are present.
pub open spec fn present_count(cells: Seq<Option<Vec<u8>>>) -> int
    decreases cells.len(),
{
    if cells.len() == 0 {
        0
    } else {
        present_count(cells.drop_last()) + if cells.last() is Some {
            1int
        } else {
            0int
        }
    }
}

/// Whether every systematic cell of the row is present.
pub open spec fn systematic_complete(cells: Seq<Option<Vec<u8>>>, cols: u16) -> bool {
    forall|i: int| 0 <= i < row_threshold(cols) ==> (#[trigger] cells[i]) is Some
}

/// The bytes of the first `k` cells of the row, concatenated.
pub open spec fn payload_prefix(cells: Seq<Option<Vec<u8>>>, k: int) -> Seq<u8>
    decreases k,
{
    if k <= 0 {
        Seq::empty()
    } else {
        payload_prefix(cells, k - 1) + match cells[k - 1] {
            Some(d) => d@,
            None => Seq::empty(),
        }
    }
}

/// The data a row assembles to: its systematic cells' bytes, in order.
pub open spec fn row_payload(cells: Seq<Option<Vec<u8>>>, cols: u16) -> Seq<u8> {
    payload_prefix(cells, row_threshold(cols))
}

/// What a row assembles to depends on its systematic cells alone: two rows
/// that agree on those — whatever was withheld from or changed among the
/// redundant cells — assemble to the very same bytes.
pub proof fn lemma_payload_ignores_redundancy(
    c1: Seq<Option<Vec<u8>>>,
    c2: Seq<Option<Vec<u8>>>,
    cols: u16,
)
    requires
        row_threshold(cols) <= c1.len(),
        row_threshold(cols) <= c2.len(),
        forall|i: int| 0 <= i < row_threshold(cols) ==> c1[i] == c2[i],
    ensures
        row_payload(c1, cols) == row_payload(c2, cols),
{
    lemma_payload_prefix_eq(c1, c2, row_threshold(cols));
}

proof fn lemma_payload_prefix_eq(c1: Seq<Option<Vec<u8>>>, c2: Seq<Option<Vec<u8>>>, k: int)
    requires
        k <= c1.len(),
        k <= c2.len(),
        forall|i: int| 0 <= i < k ==> c1[i] == c2[i],
    ensures
        payload_prefix(c1, k) == payload_prefix(c2, k),
    decreases k,
{
    if k > 0 {
        lemma_payload_prefix_eq(c1, c2, k - 1);
    }
}

/// How one row comes out of reconstruction.
pub enum RowOutcome {
    /// Every systematic cell was present: the assembled data.
    Decoded(Vec<u8>),
    /// The threshold is met but systematic cells are missing: the
    /// polynomial decoder outside must recover them first.
    NeedsDecode,
    /// Below the threshold: the row — and the block's application data —
    /// is unavailable.
    Unavailable,
}

/// Reconstructs one row from the cells that arrived: assembles it when all
/// systematic cells are present, defers to the outside decoder when only
/// the threshold is met, reports it unavailable below the threshold.
pub fn reconstruct_row(row: &RowCells, cols: u16) -> (r: RowOutcome)
    requires
        row.cells@.len() == cols,
        cols >= 1,
    ensures
        match r {
            RowOutcome::Decoded(p) => systematic_complete(row.cells@, cols) && p@ == row_payload(
                row.cells@,
                cols,
            ),
            RowOutcome::NeedsDecode => !systematic_complete(row.cells@, cols) && present_count(
                row.cells@,
            ) >= row_threshold(cols),
            RowOutcome::Unavailable => present_count(row.cells@) < row_threshold(
                cols,
            ),
        },
{
    let threshold = reconstruction_threshold(cols);
    let mut present: usize = 0;
    let mut i: usize = 0;
    while i < row.cells.len()
        invariant
            i <= row.cells@.len(),
            present == present_count(row.cells@.subrange(0, i as int)),
            present <= i,
        decreases row.cells@.len() - i,
    {
        proof {
            assert(row.cells@.subrange(0, i + 1).drop_last() =~= row.cells@.subrange(0, i as int));
            assert(row.cells@.subrange(0, i + 1).last() == row.cells@[i as int]);
        }
        if row.cells[i].is_some() {
            present = present + 1;
        }
        i = i + 1;
    }
    proof {
        assert(row.cells@.subrange(0, row.cells@.len() as int) =~= row.cells@);
    }
    if present < threshold as usize {
        return RowOutcome::Unavailable;
    }
    let mut out: Vec<u8> = Vec::new();
    let mut k: usize = 0;
    while k < threshold as usize
        invariant
            threshold == row_threshold(cols),
            threshold <= row.cells@.len(),
            k <= threshold,
            present_count(row.cells@) >= row_threshold(cols),
            out@ == payload_prefix(row.cells@, k as int),
            forall|i2: int| 0 <= i2 < k ==> (#[trigger] row.cells@[i2]) is Some,
        decreases threshold - k,
    {
        match &row.cells[k] {
            Some(d) => {
                let mut j: usize = 0;
                while j < d.len()
                    invariant
                        j <= d@.len(),
                        out@ == payload_prefix(row.cells@, k as int) + d@.subrange(0, j as int),
                    decreases d@.len() - j,
                {
                    out.push(d[j]);
                    j = j + 1;
                    proof {
                        assert(out@ =~= payload_prefix(row.cells@, k as int) + d@.subrange(
                            0,
                            j as int,
                        ));
                    }
                }
                proof {
                    assert(d@.subrange(0, d@.len() as int) =~= d@);
                    assert(out@ =~= payload_prefix(row.cells@, k as int) + d@);
                    assert(out@ =~= payload_prefix(row.cells@, k + 1));
                }
            },
            None => {
                proof {
                    assert(!(row.cells@[k as int] is Some));
                }
                return RowOutcome::NeedsDecode;
            },
        }
        k = k + 1;
    }
    RowOutcome::Decoded(out)
}

/// The data a block's rows assemble to for the application, row by row.
pub open spec fn app_payload(rows: Seq<RowCells>, cols: u16) -> Seq<u8>
    decreases rows.len(),
{
    if rows.len() == 0 {
        Seq::empty()
    } else {
        app_payload(rows.drop_last(), cols) + row_payload(rows.last().cells@, cols)
    }
}

/// Whether every row's systematic cells are all present.
pub open spec fn all_rows_complete(rows: Seq<RowCells>, cols: u16) -> bool {
    forall|i: int| 0 <= i < rows.len() ==> systematic_complete((#[trigger] rows[i]).cells@, cols)
}

/// How one block's application data came out.
pub enum AppBlockOutcome {
    /// The payload was assembled, persisted and published.
    Stored(PublishMessage),
    /// Some row needs the polynomial decoder outside before the block can
    /// be assembled.
    NeedsDecode,
    /// Some row is below the reconstruction threshold: the block's data is
    /// unavailable for now — a reportable outcome, not an error.
    Unavailable,
}

/// Retrieves one block's application data from its fetched rows: when every
/// row assembles, the payload is persisted under (application, block) and a
/// data-verified event is recorded and returned; otherwise the store is
/// left untouched and the outcome says what stood in the way.
pub fn process_app_block(
    db: &mut Store,
    app_id: u32,
    block_number: u32,
    rows: &Vec<RowCells>,
    cols: u16,
) -> (r: AppBlockOutcome)
    requires
        old(db).wf(),
        old(db).header_map().dom().contains(block_number as u64),
        cols >= 1,
        forall|i: int| 0 <= i < rows@.len() ==> (#[trigger] rows@[i]).cells@.len() == cols,
    ensures
        final(db).wf(),
        match r {
            AppBlockOutcome::Stored(m) => {
                &&& all_rows_complete(rows@, cols)
                &&& m == (PublishMessage::DataVerified {
                    app_id,
                    block_number,
                    size: app_payload(rows@, cols).len() as u64,
                })
                &&& final(db).app_data_map() =~= old(db).app_data_map().insert(
                    crate::store::app_block_key(app_id, block_number) as u64,
                    crate::store::AppDataEntry {
                        app_id,
                        block_number,
                        data: final(db).app_data_map()[crate::store::app_block_key(
                            app_id,
                            block_number,
                        ) as u64].data,
                    },
                )
                &&& final(db).app_data_map()[crate::store::app_block_key(
                    app_id,
                    block_number,
                ) as u64].data@ == app_payload(rows@, cols)
                &&& final(db).data_verified_messages@ =~= old(db).data_verified_messages@.push(m)
                &&& final(db).headers == old(db).headers
                &&& final(db).confidence == old(db).confidence
                &&& final(db).genesis_hash == old(db).genesis_hash
                &&& final(db).checkpoint == old(db).checkpoint
                &&& final(db).latest_block == old(db).latest_block
                &&& final(db).confidence_achieved_blocks == old(db).confidence_achieved_blocks
                &&& final(db).blocks_list == old(db).blocks_list
                &&& final(db).header_verified_messages == old(db).header_verified_messages
                &&& final(db).confidence_achieved_messages == old(db).confidence_achieved_messages
            },
            AppBlockOutcome::NeedsDecode => *final(db) == *old(db) && (exists|i: int|
                0 <= i < rows@.len() && !systematic_complete((#[trigger] rows@[i]).cells@, cols)
                    && present_count(rows@[i].cells@) >= row_threshold(cols) && (forall|j: int|
                    0 <= j < i ==> systematic_complete(#[trigger] rows@[j].cells@, cols))),
            AppBlockOutcome::Unavailable => *final(db) == *old(db) && (exists|i: int|
                0 <= i < rows@.len() && present_count((#[trigger] rows@[i]).cells@)
                    < row_threshold(cols) && (forall|j: int|
                    0 <= j < i ==> systematic_complete(#[trigger] rows@[j].cells@, cols))),
        },
{
    let mut payload: Vec<u8> = Vec::new();
    let mut i: usize = 0;
    while i < rows.len()
        invariant
            *db == *old(db),
            db.wf(),
            i <= rows@.len(),
            cols >= 1,
            forall|m: int| 0 <= m < rows@.len() ==> (#[trigger] rows@[m]).cells@.len() == cols,
            payload@ == app_payload(rows@.subrange(0, i as int), cols),
            forall|m: int|
                0 <= m < i ==> systematic_complete((#[trigger] rows@[m]).cells@, cols),
        decreases rows@.len() - i,
    {
        match reconstruct_row(&rows[i], cols) {
            RowOutcome::Decoded(data) => {
                let mut j: usize = 0;
                let ghost before = payload@;
                while j < data.len()
                    invariant
                        j <= data@.len(),
                        payload@ == before + data@.subrange(0, j as int),
                    decreases data@.len() - j,
                {
                    payload.push(data[j]);
                    j = j + 1;
                    proof {
                        assert(payload@ =~= before + data@.subrange(0, j as int));
                    }
                }
                proof {
                    assert(data@.subrange(0, data@.len() as int) =~= data@);
                }
            },
            RowOutcome::NeedsDecode => {
                proof {
                    assert(!systematic_complete(rows@[i as int].cells@, cols)
                        && present_count(rows@[i as int].cells@) >= row_threshold(cols));
                }
                return AppBlockOutcome::NeedsDecode;
            },
            RowOutcome::Unavailable => {
                proof {
                    assert(present_count(rows@[i as int].cells@) < row_threshold(cols));
                }
                return AppBlockOutcome::Unavailable;
            },
        }
        i = i + 1;
        proof {
            let pre = rows@.subrange(0, i as int);
            assert(pre.drop_last() =~= rows@.subrange(0, i - 1));
            assert(pre.last() == rows@[i - 1]);
            assert(payload@ =~= app_payload(pre, cols));
        }
    }
    proof {
        assert(rows@.subrange(0, rows@.len() as int) =~= rows@);
    }
    let size = payload.len() as u64;
    let message = PublishMessage::DataVerified { app_id, block_number, size };
    store_encoded_data_in_db(db, app_id, block_number, payload);
    store_data_verified_message_in_db(
        db,
        PublishMessage::DataVerified { app_id, block_number, size },
    );
    AppBlockOutcome::Stored(message)
}

} // verus!
