//! The cell records the client holds and serves over the distributed hash
//! table.
//!
//! Cells are addressed by (block number, row, column).  A record, once put,
//! is immutable: fetching it before eviction returns byte-identical data and
//! proof.  The network transport that replicates records between peers stays
//! outside; the library holds the record set itself and its addressing.

use vstd::pervasive::VecAdditionalExecFns;
use vstd::prelude::*;

use crate::assoc::assoc_index;
use crate::assoc::lemma_map_of_contains;
use crate::assoc::lemma_map_of_index;
use crate::assoc::lemma_map_of_push;
use crate::assoc::lemma_map_of_update;
use crate::assoc::map_of;
use crate::assoc::unique_keys;
use crate::types::Cell;
use crate::types::Position;

verus! {

/// The record key of the cell at (block, row, column).
pub open spec fn cell_key(block: u32, position: Position) -> int {
    block * 0x1_0000_0000 + position.row * 0x1_0000 + position.col
}

/// Computes the record key of a cell address.
pub fn make_cell_key(block: u32, position: Position) -> (r: u64)
    ensures
        r == cell_key(block, position),
{
    (block as u64) * 0x1_0000_0000 + (position.row as u64) * 0x1_0000 + (position.col as u64)
}

/// The set of cell records this client holds.
pub struct CellStore {
    pub records: Vec<(u64, Cell)>,
}

impl CellStore {
    /// The records as a map from cell key to cell.
    pub open spec fn cell_map(self) -> Map<u64, Cell> {
        map_of(self.records@)
    }

    /// Distinct keys, each record keyed by its own address and well formed.
    pub open spec fn wf(self) -> bool {
        &&& unique_keys(self.records@)
        &&& forall|i: int|
            0 <= i < self.records@.len() ==> {
                let e = #[trigger] self.records@[i];
                e.0 == cell_key(e.1.block, e.1.position) && e.1.wf()
            }
    }

    /// An empty record set.
    pub fn new() -> (r: CellStore)
        ensures
            r.wf(),
            r.cell_map() =~= Map::empty(),
    {
        CellStore { records: Vec::new() }
    }
}

/// Holds a cell under its address.  A record already held for that address
/// is replaced by the same content, since cells are immutable once fetched.
pub fn put_cell(store: &mut CellStore, cell: Cell)
    requires
        old(store).wf(),
        cell.wf(),
    ensures
        final(store).wf(),
        final(store).cell_map() =~= old(store).cell_map().insert(
            cell_key(cell.block, cell.position) as u64,
            cell,
        ),
{
    let ghost s = store.records@;
    let k: u64 = make_cell_key(cell.block, cell.position);
    match assoc_index(&store.records, k) {
        Some(i) => {
            proof {
                lemma_map_of_update(s, i as int, cell);
            }
            store.records.set(i, (k, cell));
        },
        None => {
            proof {
                lemma_map_of_push(s, k, cell);
            }
            store.records.push((k, cell));
        },
    }
}

/// Fetches the cell held at an address, if any: the very record that was
/// put, data and proof byte for byte.
pub fn get_cell(store: &CellStore, block: u32, position: Position) -> (r: Option<&Cell>)
    requires
        store.wf(),
    ensures
        match r {
            Some(c) => store.cell_map().dom().contains(cell_key(block, position) as u64) && *c
                == store.cell_map()[cell_key(block, position) as u64] && c.wf(),
            None => !store.cell_map().dom().contains(cell_key(block, position) as u64),
        },
{
    proof {
        lemma_map_of_contains(store.records@, cell_key(block, position) as u64);
    }
    match assoc_index(&store.records, make_cell_key(block, position)) {
        Some(i) => {
            proof {
                lemma_map_of_index(store.records@, i as int);
            }
            Some(&store.records[i].1)
        },
        None => None,
    }
}

/// A cell put and then fetched before eviction comes back byte-identical:
/// over the record map, inserting a cell at its key and reading that key
/// returns the very cell.
pub proof fn lemma_cell_round_trip(m: Map<u64, Cell>, cell: Cell)
    ensures
        m.insert(cell_key(cell.block, cell.position) as u64, cell).dom().contains(
            cell_key(cell.block, cell.position) as u64,
        ),
        m.insert(cell_key(cell.block, cell.position) as u64, cell)[cell_key(
            cell.block,
            cell.position,
        ) as u64] == cell,
{
}

} // verus!
